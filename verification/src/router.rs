//! The room-scoped message router. Each decoded inbound envelope is turned
//! into a plan: the store mutations to perform, the destination set (one
//! user, or a room's participants with or without its host) and the outbound
//! frame for each destination. The embedding loop executes store commands in
//! order, abandons the message on the first failure, and resolves each
//! delivery through the registry at send time.

use vstd::prelude::*;

use crate::auth::{verify_access_token, AccessClaims};
use crate::codec::{encode_frame, frame_text};
use crate::models::User;
use crate::msg::{Delivery, Inbound, MediaKind, Outbound, StoreCommand};
use crate::registry::ConnectionRegistry;
use crate::room::Room;

verus! {

/// What a frame asks for before any store round trip.
pub enum FramePlan {
    /// Deliver one frame to one user; no store interaction.
    Unicast { delivery: Delivery },
    /// The handler needs the room with this code before it can act.
    NeedRoom { code: String },
    /// A join handshake: authenticate the token, bind presence, then load
    /// the room and the users involved.
    Join { access_token: String, code: String },
    /// An acceptance: run the store commands in order, and only if every one
    /// succeeds, make the deliveries.
    Accepted { commands: Vec<StoreCommand>, deliveries: Vec<Delivery> },
}

/// The plan for a room-scoped frame once the room is loaded.
pub enum RoomPlan {
    /// Deliver these frames; no store mutation.
    Deliver { deliveries: Vec<Delivery> },
    /// A departure; see `LeavePlan`.
    Leave { plan: LeavePlan },
    /// The frame kind does not consult the store; it never reaches this path.
    NotRoomScoped,
}

/// The host-migration decision for a departure.
pub enum LeavePlan {
    /// The host left an empty room: delete it; nobody is notified.
    DeleteRoom { commands: Vec<StoreCommand> },
    /// The host left a non-empty room: the first listed participant becomes
    /// host (removed from the list, then recorded as host, in that order).
    /// The embedder then loads the new host's user record and, if it exists,
    /// broadcasts with `host_left_deliveries`.
    PromoteHost { commands: Vec<StoreCommand>, new_host: String },
    /// A non-host participant left: remove it, then notify every remaining
    /// participant and the host.
    ParticipantLeft { commands: Vec<StoreCommand>, deliveries: Vec<Delivery> },
}

/// The shape of a fan-out: one copy of the frame for each participant of the
/// room in list order and, when the host is included, one more for the host,
/// last.
pub open spec fn fan_out_matches(ds: Seq<Delivery>, room: Room, frame: Outbound, to_host: bool) -> bool {
    &&& ds.len() == room.ids().len() + (if to_host {
        1int
    } else {
        0int
    })
    &&& forall|i: int|
        0 <= i < room.ids().len() ==> (#[trigger] ds[i].to@) == room.ids()[i] && ds[i].message
            == frame
    &&& to_host ==> ds[ds.len() - 1].to@ == room.host_id@ && ds[ds.len() - 1].message == frame
}

/// The host-migration decision for `leave-room{code, user_id}` on a loaded
/// room: the departing host of an empty room deletes it; the departing host
/// of a populated room promotes the first listed participant (removed from
/// the list, then recorded as host, in that order); a departing participant
/// is removed and announced to every remaining participant and the host.
pub open spec fn leave_plan_matches(plan: LeavePlan, room: Room, code: String, user_id: String) -> bool {
    if user_id@ == room.host_id@ {
        if room.ids().len() == 0 {
            match plan {
                LeavePlan::DeleteRoom { commands } => {
                    &&& commands@.len() == 1
                    &&& commands@[0] == (StoreCommand::DeleteRoom { code })
                },
                _ => false,
            }
        } else {
            match plan {
                LeavePlan::PromoteHost { commands, new_host } => {
                    &&& new_host@ == room.ids()[0]
                    &&& commands@.len() == 2
                    &&& commands@[0] == (StoreCommand::RemoveParticipant {
                        code,
                        user_id: new_host,
                    })
                    &&& commands@[1] == (StoreCommand::SetHost { code, user_id: new_host })
                },
                _ => false,
            }
        }
    } else {
        match plan {
            LeavePlan::ParticipantLeft { commands, deliveries } => {
                let rem = remaining_ids(room, user_id@);
                &&& commands@.len() == 1
                &&& commands@[0] == (StoreCommand::RemoveParticipant { code, user_id })
                &&& deliveries@.len() == rem.len() + 1
                &&& forall|i: int|
                    0 <= i < rem.len() ==> (#[trigger] deliveries@[i].to@) == rem[i]
                        && deliveries@[i].message == (Outbound::ParticipantLeft { user: user_id })
                &&& deliveries@[deliveries@.len() - 1].to@ == room.host_id@
                &&& deliveries@[deliveries@.len() - 1].message == (Outbound::ParticipantLeft {
                    user: user_id,
                })
            },
            _ => false,
        }
    }
}

/// One frame for every participant of the room, in list order, and (when
/// asked) one for the host, last.
#[verifier::loop_isolation(false)]
fn room_broadcast(room: &Room, message: &Outbound, include_host: bool) -> (ds: Vec<Delivery>)
    requires
        !(message is ParticipantJoined),
    ensures
        fan_out_matches(ds@, *room, *message, include_host),
{
    let mut ds: Vec<Delivery> = Vec::new();
    let mut i: usize = 0;
    while i < room.participants.len()
        invariant
            0 <= i <= room.ids().len(),
            ds@.len() == i,
            forall|j: int|
                0 <= j < i ==> (#[trigger] ds@[j].to@) == room.ids()[j] && ds@[j].message
                    == *message,
        decreases room.ids().len() - i,
    {
        ds.push(Delivery { to: room.participants[i].clone(), message: message.duplicate() });
        i += 1;
    }
    if include_host {
        ds.push(Delivery { to: room.host_id.clone(), message: message.duplicate() });
    }
    ds
}

/// Turns a decoded envelope into its plan. Signaling relays, input events and
/// the stateless access handshake become unicasts whose frames carry exactly
/// the values of the inbound payload; room-scoped kinds ask for their room;
/// a join hands back its handshake data; an acceptance carries its two store
/// commands and its announcement frames.
#[verifier::loop_isolation(false)]
pub fn plan_frame(msg: Inbound) -> (r: FramePlan)
    ensures
        match msg {
            Inbound::JoinRoom { access_token, code } => r == (FramePlan::Join {
                access_token,
                code,
            }),
            Inbound::Rtc { kind, item, to, user_id } => r == (FramePlan::Unicast {
                delivery: Delivery {
                    to,
                    message: Outbound::Rtc { kind, item, from: user_id, user_id: to },
                },
            }),
            Inbound::MouseMove { x, y, to } => r == (FramePlan::Unicast {
                delivery: Delivery { to, message: Outbound::MouseMove { x, y } },
            }),
            Inbound::KeyPress { key, to } => r == (FramePlan::Unicast {
                delivery: Delivery { to, message: Outbound::KeyPress { key } },
            }),
            Inbound::MouseClick { to } => r == (FramePlan::Unicast {
                delivery: Delivery { to, message: Outbound::MouseClick },
            }),
            Inbound::RequestAccess { to, from, username } => r == (FramePlan::Unicast {
                delivery: Delivery {
                    to,
                    message: Outbound::RequestAccess { user_id: from, username },
                },
            }),
            Inbound::RejectedAccess { code, user_id, username } => r == (FramePlan::Unicast {
                delivery: Delivery {
                    to: user_id,
                    message: Outbound::AllowedAccess { user_id, username },
                },
            }),
            Inbound::Chat { message, username, id, code } => r == (FramePlan::NeedRoom { code }),
            Inbound::Media { kind, user_id, code, host } => r == (FramePlan::NeedRoom { code }),
            Inbound::LeaveRoom { code, user_id } => r == (FramePlan::NeedRoom { code }),
            Inbound::AllowedAccess { code, user_id, username } => r == (FramePlan::NeedRoom {
                code,
            }),
            Inbound::RequestAccepted { username, user_id, participants, code, host } => match r {
                FramePlan::Accepted { commands, deliveries } => {
                    &&& commands@.len() == 2
                    &&& commands@[0] == (StoreCommand::AddParticipantToRoom {
                        code,
                        user_id,
                    })
                    &&& commands@[1] == (StoreCommand::AddParticipantRecord {
                        code,
                        user_id,
                    })
                    &&& deliveries@.len() == participants@.len() + 2
                    &&& forall|i: int|
                        0 <= i < participants@.len() ==> (#[trigger] deliveries@[i]).to
                            == participants@[i].id && deliveries@[i].message
                            == (Outbound::NewParticipant {
                            user_id,
                            username,
                            participant: participants@[i].id,
                            host,
                        })
                    &&& deliveries@[deliveries@.len() - 2] == (Delivery {
                        to: host.id,
                        message: Outbound::NewParticipant {
                            user_id,
                            username,
                            participant: host.id,
                            host,
                        },
                    })
                    &&& deliveries@[deliveries@.len() - 1] == (Delivery {
                        to: user_id,
                        message: Outbound::ParticipantJoined {
                            user_id,
                            username,
                            participants,
                            host,
                        },
                    })
                },
                _ => false,
            },
        },
{
    match msg {
        Inbound::JoinRoom { access_token, code } => FramePlan::Join { access_token, code },
        Inbound::Rtc { kind, item, to, user_id } => FramePlan::Unicast {
            delivery: Delivery {
                to: to.clone(),
                message: Outbound::Rtc { kind, item, from: user_id, user_id: to },
            },
        },
        Inbound::MouseMove { x, y, to } => FramePlan::Unicast {
            delivery: Delivery { to, message: Outbound::MouseMove { x, y } },
        },
        Inbound::KeyPress { key, to } => FramePlan::Unicast {
            delivery: Delivery { to, message: Outbound::KeyPress { key } },
        },
        Inbound::MouseClick { to } => FramePlan::Unicast {
            delivery: Delivery { to, message: Outbound::MouseClick },
        },
        Inbound::RequestAccess { to, from, username } => FramePlan::Unicast {
            delivery: Delivery { to, message: Outbound::RequestAccess { user_id: from, username } },
        },
        Inbound::RejectedAccess { code: _, user_id, username } => FramePlan::Unicast {
            delivery: Delivery {
                to: user_id.clone(),
                message: Outbound::AllowedAccess { user_id, username },
            },
        },
        Inbound::Chat { message: _, username: _, id: _, code } => FramePlan::NeedRoom { code },
        Inbound::Media { kind: _, user_id: _, code, host: _ } => FramePlan::NeedRoom { code },
        Inbound::LeaveRoom { code, user_id: _ } => FramePlan::NeedRoom { code },
        Inbound::AllowedAccess { code, user_id: _, username: _ } => FramePlan::NeedRoom { code },
        Inbound::RequestAccepted { username, user_id, participants, code, host } => {
            let mut commands: Vec<StoreCommand> = Vec::new();
            commands.push(StoreCommand::AddParticipantToRoom {
                code: code.clone(),
                user_id: user_id.clone(),
            });
            commands.push(StoreCommand::AddParticipantRecord {
                code,
                user_id: user_id.clone(),
            });
            let mut deliveries: Vec<Delivery> = Vec::new();
            let mut i: usize = 0;
            while i < participants.len()
                invariant
                    0 <= i <= participants@.len(),
                    deliveries@.len() == i,
                    forall|j: int|
                        0 <= j < i ==> (#[trigger] deliveries@[j]).to == participants@[j].id
                            && deliveries@[j].message == (Outbound::NewParticipant {
                            user_id,
                            username,
                            participant: participants@[j].id,
                            host,
                        }),
                decreases participants@.len() - i,
            {
                let peer_id = participants[i].id.clone();
                deliveries.push(Delivery {
                    to: peer_id.clone(),
                    message: Outbound::NewParticipant {
                        user_id: user_id.clone(),
                        username: username.clone(),
                        participant: peer_id,
                        host: host.duplicate(),
                    },
                });
                i += 1;
            }
            deliveries.push(Delivery {
                to: host.id.clone(),
                message: Outbound::NewParticipant {
                    user_id: user_id.clone(),
                    username: username.clone(),
                    participant: host.id.clone(),
                    host: host.duplicate(),
                },
            });
            deliveries.push(Delivery {
                to: user_id.clone(),
                message: Outbound::ParticipantJoined { user_id, username, participants, host },
            });
            FramePlan::Accepted { commands, deliveries }
        },
    }
}

/// The participant list once a user has left, in preserved order.
pub open spec fn remaining_ids(room: Room, u: Seq<char>) -> Seq<Seq<char>> {
    if room.has_participant(u) {
        room.ids().remove(room.index_of(u))
    } else {
        room.ids()
    }
}

/// The plan for a room-scoped frame, given its room. Chat and video events go
/// to every participant and the host; screen-share events and access grants
/// go to the participants only; a departure follows the host-migration rules.
#[verifier::rlimit(50)]
pub fn plan_with_room(msg: &Inbound, room: &Room) -> (r: RoomPlan)
    requires
        room.wf(),
    ensures
        match *msg {
            Inbound::Chat { message, username, id, code } => match r {
                RoomPlan::Deliver { deliveries } => fan_out_matches(
                    deliveries@,
                    *room,
                    (Outbound::Chat { message, username, id }),
                    true,
                ),
                _ => false,
            },
            Inbound::Media { kind, user_id, code, host } => match r {
                RoomPlan::Deliver { deliveries } => fan_out_matches(
                    deliveries@,
                    *room,
                    (Outbound::Media { kind, user_id, host }),
                    kind is VideoStarted || kind is VideoStopped,
                ),
                _ => false,
            },
            Inbound::AllowedAccess { code, user_id, username } => match r {
                RoomPlan::Deliver { deliveries } => fan_out_matches(
                    deliveries@,
                    *room,
                    (Outbound::AllowedAccess { user_id, username }),
                    false,
                ),
                _ => false,
            },
            Inbound::LeaveRoom { code, user_id } => match r {
                RoomPlan::Leave { plan } => leave_plan_matches(plan, *room, code, user_id),
                _ => false,
            },
            _ => r is NotRoomScoped,
        },
{
    match msg {
        Inbound::Chat { message, username, id, code: _ } => {
            let frame = Outbound::Chat {
                message: message.clone(),
                username: username.clone(),
                id: id.clone(),
            };
            RoomPlan::Deliver { deliveries: room_broadcast(room, &frame, true) }
        },
        Inbound::Media { kind, user_id, code: _, host } => {
            let to_host = match kind {
                MediaKind::VideoStarted => true,
                MediaKind::VideoStopped => true,
                MediaKind::ScreenSharingStarted => false,
                MediaKind::ScreenSharingStopped => false,
            };
            let frame = Outbound::Media { kind: *kind, user_id: user_id.clone(), host: *host };
            RoomPlan::Deliver { deliveries: room_broadcast(room, &frame, to_host) }
        },
        Inbound::AllowedAccess { code: _, user_id, username } => {
            let frame = Outbound::AllowedAccess {
                user_id: user_id.clone(),
                username: username.clone(),
            };
            RoomPlan::Deliver { deliveries: room_broadcast(room, &frame, false) }
        },
        Inbound::LeaveRoom { code, user_id } => {
            RoomPlan::Leave { plan: plan_leave(room, code, user_id) }
        },
        _ => RoomPlan::NotRoomScoped,
    }
}

/// The host-migration decision of a departure, exactly as the delivery plan
/// of `plan_with_room` states it.
fn plan_leave(room: &Room, code: &String, user_id: &String) -> (plan: LeavePlan)
    requires
        room.wf(),
    ensures
        leave_plan_matches(plan, *room, *code, *user_id),
{
    if *user_id == room.host_id {
        if room.participants.len() == 0 {
            let mut commands: Vec<StoreCommand> = Vec::new();
            commands.push(StoreCommand::DeleteRoom { code: code.clone() });
            LeavePlan::DeleteRoom { commands }
        } else {
            let new_host = room.participants[0].clone();
            let mut commands: Vec<StoreCommand> = Vec::new();
            commands.push(StoreCommand::RemoveParticipant {
                code: code.clone(),
                user_id: new_host.clone(),
            });
            commands.push(StoreCommand::SetHost { code: code.clone(), user_id: new_host.clone() });
            LeavePlan::PromoteHost { commands, new_host }
        }
    } else {
        let mut commands: Vec<StoreCommand> = Vec::new();
        commands.push(StoreCommand::RemoveParticipant {
            code: code.clone(),
            user_id: user_id.clone(),
        });
        let mut rest = room.duplicate();
        let ghost pre = rest;
        rest.remove_participant(user_id);
        proof {
            Room::lemma_same_ids(*room, pre, user_id@);
            assert(rest.ids() == remaining_ids(*room, user_id@));
        }
        let frame = Outbound::ParticipantLeft { user: user_id.clone() };
        let deliveries = room_broadcast(&rest, &frame, true);
        LeavePlan::ParticipantLeft { commands, deliveries }
    }
}

/// The broadcast once a new host has been recorded and its user record
/// loaded: `host-left` with the new host's id and display name, to every
/// participant of the room as it stood when the departure was received (the
/// promoted participant among them, the departed host not).
pub fn host_left_deliveries(room: &Room, new_host: &String, username: &String) -> (ds: Vec<Delivery>)
    ensures
        fan_out_matches(
            ds@,
            *room,
            (Outbound::HostLeft { host: *new_host, username: *username }),
            false,
        ),
{
    let frame = Outbound::HostLeft { host: new_host.clone(), username: username.clone() };
    room_broadcast(room, &frame, false)
}


/// The frames that actually leave for a delivery list: for each delivery in
/// order whose destination is bound to a registered connection, that
/// connection and the encoded frame. A destination without a live binding is
/// skipped silently: delivery is best effort, at most once.
pub open spec fn resolved(reg: ConnectionRegistry, ds: Seq<Delivery>) -> Seq<(u128, Seq<char>)>
    decreases ds.len(),
{
    if ds.len() == 0 {
        Seq::empty()
    } else {
        let rest = resolved(reg, ds.drop_last());
        match reg.spec_lookup(ds.last().to@) {
            Some(c) => if reg.is_registered(c) {
                rest.push((c, frame_text(ds.last().message)))
            } else {
                rest
            },
            None => rest,
        }
    }
}

/// Resolves each delivery through the registry and serializes its frame,
/// exactly as `resolved` states it.
#[verifier::loop_isolation(false)]
pub fn resolve_deliveries(reg: &ConnectionRegistry, ds: &Vec<Delivery>) -> (out: Vec<(
    u128,
    String,
)>)
    requires
        reg.wf(),
    ensures
        out@.map_values(|e: (u128, String)| (e.0, e.1@)) == resolved(*reg, ds@),
{
    let mut out: Vec<(u128, String)> = Vec::new();
    let ghost f = |e: (u128, String)| (e.0, e.1@);
    proof {
        assert(out@.map_values(f) =~= resolved(*reg, ds@.take(0)));
    }
    let mut i: usize = 0;
    while i < ds.len()
        invariant
            0 <= i <= ds@.len(),
            out@.map_values(f) == resolved(*reg, ds@.take(i as int)),
        decreases ds@.len() - i,
    {
        proof {
            assert(ds@.take(i + 1).drop_last() =~= ds@.take(i as int));
            assert(ds@.take(i + 1).last() == ds@[i as int]);
        }
        match reg.lookup(&ds[i].to) {
            Some(c) => {
                if reg.contains_conn(c) {
                    let frame = encode_frame(&ds[i].message);
                    out.push((c, frame));
                    proof {
                        assert(out@.map_values(f) =~= resolved(*reg, ds@.take(i + 1)));
                    }
                }
            },
            None => {},
        }
        proof {
            assert(out@.map_values(f) =~= resolved(*reg, ds@.take(i + 1)));
        }
        i += 1;
    }
    proof {
        assert(ds@.take(ds@.len() as int) =~= ds@);
    }
    out
}

/// The authentication step of a join handshake: verify the token and, when
/// it is accepted, bind the joiner's presence to this connection (displacing
/// any earlier binding of the same user). A rejected token leaves the
/// registry untouched: the connection stays open but unbound.
pub fn join_authenticate(
    reg: &mut ConnectionRegistry,
    conn: u128,
    token: &str,
    secret: &str,
) -> (r: Option<AccessClaims>)
    requires
        old(reg).wf(),
    ensures
        final(reg).wf(),
        forall|c: u128| final(reg).is_registered(c) == old(reg).is_registered(c),
        r matches Some(claims) ==> final(reg).spec_lookup(claims.sub@) == Some(conn) && (
        forall|v: Seq<char>|
            v != claims.sub@ ==> final(reg).spec_lookup(v) == old(reg).spec_lookup(v)),
        r is None ==> (forall|v: Seq<char>| final(reg).spec_lookup(v) == old(reg).spec_lookup(v)),
{
    match verify_access_token(token, secret) {
        Some(claims) => {
            reg.bind(claims.sub.clone(), conn);
            Some(claims)
        },
        None => None,
    }
}

/// The response to a join handshake once the room and the joiner's user
/// record are loaded. A joining host is told `host-joined` directly; anyone
/// else causes a `join-request`, which goes to the host once the host's user
/// record is loaded (see `join_request_delivery`).
pub enum JoinRespond {
    SelfNotify { delivery: Delivery },
    NeedHostUser { host_id: String },
}

/// Decides between the two join outcomes.
pub fn join_room_respond(room: &Room, joiner_id: &String, joiner_username: &String) -> (r:
    JoinRespond)
    ensures
        if joiner_id@ == room.host_id@ {
            r == (JoinRespond::SelfNotify {
                delivery: Delivery {
                    to: *joiner_id,
                    message: Outbound::HostJoined {
                        user_id: *joiner_id,
                        username: *joiner_username,
                    },
                },
            })
        } else {
            r == (JoinRespond::NeedHostUser { host_id: room.host_id })
        },
{
    if *joiner_id == room.host_id {
        JoinRespond::SelfNotify {
            delivery: Delivery {
                to: joiner_id.clone(),
                message: Outbound::HostJoined {
                    user_id: joiner_id.clone(),
                    username: joiner_username.clone(),
                },
            },
        }
    } else {
        JoinRespond::NeedHostUser { host_id: room.host_id.clone() }
    }
}

/// The `join-request` frame for the host, once the host's user record is
/// loaded; a record without an id yields nothing, and the join is dropped.
pub fn join_request_delivery(joiner_id: &String, joiner_username: &String, host_user: &User) -> (r:
    Option<Delivery>)
    ensures
        match host_user.id {
            Some(h) => r == Some(
                Delivery {
                    to: h,
                    message: Outbound::JoinRequest {
                        user_id: *joiner_id,
                        username: *joiner_username,
                    },
                },
            ),
            None => r is None,
        },
{
    match &host_user.id {
        Some(h) => Some(
            Delivery {
                to: h.clone(),
                message: Outbound::JoinRequest {
                    user_id: joiner_id.clone(),
                    username: joiner_username.clone(),
                },
            },
        ),
        None => None,
    }
}

} // verus!
