//! The message catalog: one typed variant per inbound wire envelope and one
//! per outbound frame. Identifier-valued fields are carried as plain strings;
//! the `item` of a signaling relay and the coordinates of a pointer event are
//! carried as raw JSON text, preserved byte for byte.

use vstd::prelude::*;

verus! {

/// A WebRTC negotiation payload kind relayed between two peers.
#[derive(Clone, Copy, PartialEq, Eq, Structural, Debug)]
pub enum RtcKind {
    Offer,
    Answer,
    IceCandidate,
}

/// A media state change announced to a room.
#[derive(Clone, Copy, PartialEq, Eq, Structural, Debug)]
pub enum MediaKind {
    ScreenSharingStarted,
    ScreenSharingStopped,
    VideoStarted,
    VideoStopped,
}

/// One participant entry as carried inside an acceptance payload.
#[derive(Clone, Debug)]
pub struct RoomPeer {
    pub username: String,
    pub id: String,
    pub video: bool,
}

/// The host entry as carried inside an acceptance payload.
#[derive(Clone, Debug)]
pub struct RoomHost {
    pub username: String,
    pub id: String,
    pub video: bool,
    pub screen: bool,
}

/// A decoded inbound envelope `{type, data}`.
#[derive(Clone, Debug)]
pub enum Inbound {
    JoinRoom { access_token: String, code: String },
    RequestAccepted {
        username: String,
        user_id: String,
        participants: Vec<RoomPeer>,
        code: String,
        host: RoomHost,
    },
    Rtc { kind: RtcKind, item: String, to: String, user_id: String },
    MouseMove { x: String, y: String, to: String },
    KeyPress { key: String, to: String },
    MouseClick { to: String },
    Chat { message: String, username: String, id: String, code: String },
    Media { kind: MediaKind, user_id: String, code: String, host: bool },
    LeaveRoom { code: String, user_id: String },
    RequestAccess { to: String, from: String, username: String },
    AllowedAccess { code: String, user_id: String, username: String },
    RejectedAccess { code: String, user_id: String, username: String },
}

/// The spec-level value of a participant entry.
pub struct RoomPeerV {
    pub username: Seq<char>,
    pub id: Seq<char>,
    pub video: bool,
}

/// The spec-level value of a host entry.
pub struct RoomHostV {
    pub username: Seq<char>,
    pub id: Seq<char>,
    pub video: bool,
    pub screen: bool,
}

/// The spec-level value of a decoded envelope.
pub enum InboundV {
    JoinRoom { access_token: Seq<char>, code: Seq<char> },
    RequestAccepted {
        username: Seq<char>,
        user_id: Seq<char>,
        participants: Seq<RoomPeerV>,
        code: Seq<char>,
        host: RoomHostV,
    },
    Rtc { kind: RtcKind, item: Seq<char>, to: Seq<char>, user_id: Seq<char> },
    MouseMove { x: Seq<char>, y: Seq<char>, to: Seq<char> },
    KeyPress { key: Seq<char>, to: Seq<char> },
    MouseClick { to: Seq<char> },
    Chat { message: Seq<char>, username: Seq<char>, id: Seq<char>, code: Seq<char> },
    Media { kind: MediaKind, user_id: Seq<char>, code: Seq<char>, host: bool },
    LeaveRoom { code: Seq<char>, user_id: Seq<char> },
    RequestAccess { to: Seq<char>, from: Seq<char>, username: Seq<char> },
    AllowedAccess { code: Seq<char>, user_id: Seq<char>, username: Seq<char> },
    RejectedAccess { code: Seq<char>, user_id: Seq<char>, username: Seq<char> },
}

/// The spec-level values of a participant list.
pub open spec fn peers_view(ps: Seq<RoomPeer>) -> Seq<RoomPeerV> {
    ps.map_values(|p: RoomPeer| p@)
}

impl View for RoomPeer {
    type V = RoomPeerV;

    open spec fn view(&self) -> RoomPeerV {
        RoomPeerV { username: self.username@, id: self.id@, video: self.video }
    }
}

impl View for RoomHost {
    type V = RoomHostV;

    open spec fn view(&self) -> RoomHostV {
        RoomHostV {
            username: self.username@,
            id: self.id@,
            video: self.video,
            screen: self.screen,
        }
    }
}

impl View for Inbound {
    type V = InboundV;

    open spec fn view(&self) -> InboundV {
        match self {
            Inbound::JoinRoom { access_token, code } => InboundV::JoinRoom {
                access_token: access_token@,
                code: code@,
            },
            Inbound::RequestAccepted { username, user_id, participants, code, host } => {
                InboundV::RequestAccepted {
                    username: username@,
                    user_id: user_id@,
                    participants: peers_view(participants@),
                    code: code@,
                    host: host@,
                }
            },
            Inbound::Rtc { kind, item, to, user_id } => InboundV::Rtc {
                kind: *kind,
                item: item@,
                to: to@,
                user_id: user_id@,
            },
            Inbound::MouseMove { x, y, to } => InboundV::MouseMove { x: x@, y: y@, to: to@ },
            Inbound::KeyPress { key, to } => InboundV::KeyPress { key: key@, to: to@ },
            Inbound::MouseClick { to } => InboundV::MouseClick { to: to@ },
            Inbound::Chat { message, username, id, code } => InboundV::Chat {
                message: message@,
                username: username@,
                id: id@,
                code: code@,
            },
            Inbound::Media { kind, user_id, code, host } => InboundV::Media {
                kind: *kind,
                user_id: user_id@,
                code: code@,
                host: *host,
            },
            Inbound::LeaveRoom { code, user_id } => InboundV::LeaveRoom {
                code: code@,
                user_id: user_id@,
            },
            Inbound::RequestAccess { to, from, username } => InboundV::RequestAccess {
                to: to@,
                from: from@,
                username: username@,
            },
            Inbound::AllowedAccess { code, user_id, username } => InboundV::AllowedAccess {
                code: code@,
                user_id: user_id@,
                username: username@,
            },
            Inbound::RejectedAccess { code, user_id, username } => InboundV::RejectedAccess {
                code: code@,
                user_id: user_id@,
                username: username@,
            },
        }
    }
}

/// An outbound frame `{message_type, ...}`.
#[derive(Clone, Debug)]
pub enum Outbound {
    HostJoined { user_id: String, username: String },
    JoinRequest { user_id: String, username: String },
    NewParticipant { user_id: String, username: String, participant: String, host: RoomHost },
    ParticipantJoined {
        user_id: String,
        username: String,
        participants: Vec<RoomPeer>,
        host: RoomHost,
    },
    Rtc { kind: RtcKind, item: String, from: String, user_id: String },
    MouseMove { x: String, y: String },
    KeyPress { key: String },
    MouseClick,
    Chat { message: String, username: String, id: String },
    Media { kind: MediaKind, user_id: String, host: bool },
    HostLeft { host: String, username: String },
    ParticipantLeft { user: String },
    RequestAccess { user_id: String, username: String },
    AllowedAccess { user_id: String, username: String },
}

/// One planned delivery: the destination user id and the frame to send. The
/// destination is resolved to a live connection through the registry only at
/// delivery time.
#[derive(Clone, Debug)]
pub struct Delivery {
    pub to: String,
    pub message: Outbound,
}

impl RoomPeer {
    /// A value-equal copy.
    pub fn duplicate(&self) -> (r: RoomPeer)
        ensures
            r == *self,
    {
        RoomPeer { username: self.username.clone(), id: self.id.clone(), video: self.video }
    }
}

impl RoomHost {
    /// A value-equal copy.
    pub fn duplicate(&self) -> (r: RoomHost)
        ensures
            r == *self,
    {
        RoomHost {
            username: self.username.clone(),
            id: self.id.clone(),
            video: self.video,
            screen: self.screen,
        }
    }
}

impl Outbound {
    /// A value-equal copy. The one frame that carries a vector (the joined
    /// participant roster) is built once and moved to its single destination,
    /// so it is never copied.
    pub fn duplicate(&self) -> (r: Outbound)
        requires
            !(self is ParticipantJoined),
        ensures
            r == *self,
    {
        match self {
            Outbound::HostJoined { user_id, username } => Outbound::HostJoined {
                user_id: user_id.clone(),
                username: username.clone(),
            },
            Outbound::JoinRequest { user_id, username } => Outbound::JoinRequest {
                user_id: user_id.clone(),
                username: username.clone(),
            },
            Outbound::NewParticipant { user_id, username, participant, host } => {
                Outbound::NewParticipant {
                    user_id: user_id.clone(),
                    username: username.clone(),
                    participant: participant.clone(),
                    host: host.duplicate(),
                }
            },
            Outbound::ParticipantJoined { .. } => {
                proof {
                    assert(false);
                }
                vstd::pervasive::unreached()
            },
            Outbound::Rtc { kind, item, from, user_id } => Outbound::Rtc {
                kind: *kind,
                item: item.clone(),
                from: from.clone(),
                user_id: user_id.clone(),
            },
            Outbound::MouseMove { x, y } => Outbound::MouseMove { x: x.clone(), y: y.clone() },
            Outbound::KeyPress { key } => Outbound::KeyPress { key: key.clone() },
            Outbound::MouseClick => Outbound::MouseClick,
            Outbound::Chat { message, username, id } => Outbound::Chat {
                message: message.clone(),
                username: username.clone(),
                id: id.clone(),
            },
            Outbound::Media { kind, user_id, host } => Outbound::Media {
                kind: *kind,
                user_id: user_id.clone(),
                host: *host,
            },
            Outbound::HostLeft { host, username } => Outbound::HostLeft {
                host: host.clone(),
                username: username.clone(),
            },
            Outbound::ParticipantLeft { user } => Outbound::ParticipantLeft { user: user.clone() },
            Outbound::RequestAccess { user_id, username } => Outbound::RequestAccess {
                user_id: user_id.clone(),
                username: username.clone(),
            },
            Outbound::AllowedAccess { user_id, username } => Outbound::AllowedAccess {
                user_id: user_id.clone(),
                username: username.clone(),
            },
        }
    }
}

/// A mutation of the durable store requested by a handler. The embedder
/// executes these in order and abandons the rest of the message (including
/// its deliveries) as soon as one fails.
#[derive(Clone, Debug)]
pub enum StoreCommand {
    AddParticipantToRoom { code: String, user_id: String },
    AddParticipantRecord { code: String, user_id: String },
    RemoveParticipant { code: String, user_id: String },
    SetHost { code: String, user_id: String },
    DeleteRoom { code: String },
}

} // verus!
