//! The wire codec: JSON text frames. Outbound frames are produced by a
//! verified encoder whose output is pinned, character for character, by a
//! specification; inbound envelopes are read by a verified parser that
//! accepts the `{"type": ..., "data": {...}}` shape and drops anything
//! malformed by returning nothing.

use vstd::prelude::*;

use crate::msg::{peers_view, Inbound, InboundV, MediaKind, Outbound, RoomHost, RoomHostV, RoomPeer, RoomPeerV, RtcKind};

verus! {

/// Relies on str::chars: the characters of a string are its view, in order.
#[verifier::external_body]
fn str_chars(s: &str) -> (v: Vec<char>)
    ensures
        v@ == s@,
{
    s.chars().collect()
}

/// Relies on String's FromIterator: collecting characters yields the string
/// whose characters they are, in order.
#[verifier::external_body]
pub(crate) fn chars_string(v: &Vec<char>) -> (s: String)
    ensures
        s@ == v@,
{
    v.iter().collect()
}

/// Relies on char::from_u32: every code point below the surrogate range or
/// between the surrogate range and 0x110000 is a character with that value,
/// and nothing else is.
#[verifier::external_body]
fn char_from_code(n: u32) -> (r: Option<char>)
    ensures
        r is Some <==> (n < 0xD800 || (0xE000 <= n && n < 0x110000)),
        r matches Some(c) ==> c as u32 == n,
{
    char::from_u32(n)
}

/// The hexadecimal digit for a value below sixteen.
pub open spec fn spec_hex_digit(n: int) -> char {
    if n == 0 { '0' } else if n == 1 { '1' } else if n == 2 { '2' } else if n == 3 { '3' }
    else if n == 4 { '4' } else if n == 5 { '5' } else if n == 6 { '6' } else if n == 7 { '7' }
    else if n == 8 { '8' } else if n == 9 { '9' } else if n == 10 { 'a' } else if n == 11 { 'b' }
    else if n == 12 { 'c' } else if n == 13 { 'd' } else if n == 14 { 'e' } else { 'f' }
}

fn hex_digit(n: u32) -> (c: char)
    requires
        n < 16,
    ensures
        c == spec_hex_digit(n as int),
{
    if n == 0 { '0' } else if n == 1 { '1' } else if n == 2 { '2' } else if n == 3 { '3' }
    else if n == 4 { '4' } else if n == 5 { '5' } else if n == 6 { '6' } else if n == 7 { '7' }
    else if n == 8 { '8' } else if n == 9 { '9' } else if n == 10 { 'a' } else if n == 11 { 'b' }
    else if n == 12 { 'c' } else if n == 13 { 'd' } else if n == 14 { 'e' } else { 'f' }
}

/// How one character appears inside a JSON string: quotes and backslashes
/// are escaped, control characters become `\u00..`, everything else stands
/// as itself.
pub open spec fn esc_char(c: char) -> Seq<char> {
    if c == '"' {
        seq!['\\', '"']
    } else if c == '\\' {
        seq!['\\', '\\']
    } else if (c as u32) < 0x20 {
        seq![
            '\\',
            'u',
            '0',
            '0',
            spec_hex_digit(((c as u32) / 16) as int),
            spec_hex_digit(((c as u32) % 16) as int),
        ]
    } else {
        seq![c]
    }
}

/// A whole string, escaped.
pub open spec fn esc(s: Seq<char>) -> Seq<char>
    decreases s.len(),
{
    if s.len() == 0 {
        Seq::empty()
    } else {
        esc(s.drop_last()) + esc_char(s.last())
    }
}

/// Appends the characters of a literal.
fn push_str_chars(out: &mut Vec<char>, s: &str)
    ensures
        final(out)@ == old(out)@ + s@,
{
    let mut v = str_chars(s);
    out.append(&mut v);
}

/// Appends one character in its escaped form.
fn push_esc_char(out: &mut Vec<char>, c: char)
    ensures
        final(out)@ == old(out)@ + esc_char(c),
{
    if c == '"' {
        out.push('\\');
        out.push('"');
    } else if c == '\\' {
        out.push('\\');
        out.push('\\');
    } else if (c as u32) < 0x20 {
        out.push('\\');
        out.push('u');
        out.push('0');
        out.push('0');
        out.push(hex_digit((c as u32) / 16));
        out.push(hex_digit((c as u32) % 16));
        proof {
            assert(out@ =~= old(out)@ + esc_char(c));
        }
    } else {
        out.push(c);
    }
    proof {
        assert(out@ =~= old(out)@ + esc_char(c));
    }
}

/// Appends a string in its escaped form.
#[verifier::loop_isolation(false)]
fn push_escaped(out: &mut Vec<char>, s: &String)
    ensures
        final(out)@ == old(out)@ + esc(s@),
{
    let cs = str_chars(s.as_str());
    let mut i: usize = 0;
    while i < cs.len()
        invariant
            0 <= i <= cs@.len(),
            out@ == old(out)@ + esc(cs@.take(i as int)),
        decreases cs@.len() - i,
    {
        proof {
            assert(cs@.take(i + 1).drop_last() =~= cs@.take(i as int));
            assert(cs@.take(i + 1).last() == cs@[i as int]);
        }
        let c = cs[i];
        push_esc_char(out, c);
        proof {
            assert(esc(cs@.take(i + 1)) == esc(cs@.take(i as int)) + esc_char(c));
            assert(out@ =~= old(out)@ + esc(cs@.take(i + 1)));
        }
        i += 1;
    }
    proof {
        assert(cs@.take(cs@.len() as int) =~= cs@);
    }
}

/// The value of a hexadecimal digit character, or a negative number for
/// anything else.
pub open spec fn spec_hex_val(c: char) -> int {
    if c == '0' { 0 } else if c == '1' { 1 } else if c == '2' { 2 } else if c == '3' { 3 }
    else if c == '4' { 4 } else if c == '5' { 5 } else if c == '6' { 6 } else if c == '7' { 7 }
    else if c == '8' { 8 } else if c == '9' { 9 } else if c == 'a' { 10 } else if c == 'b' { 11 }
    else if c == 'c' { 12 } else if c == 'd' { 13 } else if c == 'e' { 14 } else if c == 'f' { 15 }
    else if c == 'A' { 10 } else if c == 'B' { 11 } else if c == 'C' { 12 } else if c == 'D' { 13 }
    else if c == 'E' { 14 } else if c == 'F' { 15 }
    else { -1 }
}

/// Reads escaped string text back by the escape rules that `esc` uses:
/// a backslash pair or a `\u00..` unit becomes its character, any other
/// character stands for itself; a malformed escape yields nothing.
pub open spec fn unesc(t: Seq<char>) -> Option<Seq<char>>
    decreases t.len(),
{
    if t.len() == 0 {
        Some(Seq::empty())
    } else if t[0] == '\\' {
        if t.len() >= 6 && t[1] == 'u' && t[2] == '0' && t[3] == '0' && spec_hex_val(t[4]) >= 0
            && spec_hex_val(t[5]) >= 0 {
            match unesc(t.skip(6)) {
                Some(r) => Some(
                    seq![(((16 * spec_hex_val(t[4]) + spec_hex_val(t[5])) as u32) as char)] + r,
                ),
                None => None,
            }
        } else if t.len() >= 2 && (t[1] == '"' || t[1] == '\\') {
            match unesc(t.skip(2)) {
                Some(r) => Some(seq![t[1]] + r),
                None => None,
            }
        } else {
            None
        }
    } else {
        match unesc(t.skip(1)) {
            Some(r) => Some(seq![t[0]] + r),
            None => None,
        }
    }
}

/// `esc` read from the front: the first character's escape, then the rest.
proof fn lemma_esc_first(s: Seq<char>)
    requires
        s.len() > 0,
    ensures
        esc(s) == esc_char(s[0]) + esc(s.drop_first()),
    decreases s.len(),
{
    if s.len() == 1 {
        assert(s.drop_last() =~= Seq::<char>::empty());
        assert(s.drop_first() =~= Seq::<char>::empty());
        assert(esc(s) =~= esc_char(s[0]) + esc(s.drop_first()));
    } else {
        lemma_esc_first(s.drop_last());
        assert(s.drop_last()[0] == s[0]);
        assert(s.drop_last().drop_first() =~= s.drop_first().drop_last());
        assert(s.drop_first().last() == s.last());
        assert(esc(s.drop_first()) == esc(s.drop_first().drop_last()) + esc_char(s.last()));
        assert(esc_char(s[0]) + (esc(s.drop_first().drop_last()) + esc_char(s.last())) =~= (
        esc_char(s[0]) + esc(s.drop_first().drop_last())) + esc_char(s.last()));
    }
}

/// Law: every string field of an outbound frame is recoverable from the
/// wire. Reading the escaped text back by the escape rules yields exactly
/// the original string, so escaping loses nothing; raw fields (the relayed
/// `item`, pointer coordinates) are spliced verbatim and need no reading
/// back.
pub proof fn lemma_unesc_esc(s: Seq<char>)
    ensures
        unesc(esc(s)) == Some(s),
    decreases s.len(),
{
    if s.len() == 0 {
        assert(esc(s) =~= Seq::<char>::empty());
    } else {
        let c = s[0];
        let rest = s.drop_first();
        lemma_esc_first(s);
        lemma_unesc_esc(rest);
        let t = esc(s);
        assert(t == esc_char(c) + esc(rest));
        if c == '"' || c == '\\' {
            assert(esc_char(c).len() == 2);
            assert(t[0] == '\\' && t[1] == c);
            assert(t.len() >= 2);
            assert(t[1] != 'u');
            assert(t.skip(2) =~= esc(rest));
            assert(unesc(t) == Some(seq![c] + rest));
            assert(seq![c] + rest =~= s);
        } else if (c as u32) < 0x20 {
            let n = (c as u32) as int;
            assert(esc_char(c).len() == 6);
            assert(t[0] == '\\' && t[1] == 'u' && t[2] == '0' && t[3] == '0');
            assert(t[4] == spec_hex_digit(n / 16));
            assert(t[5] == spec_hex_digit(n % 16));
            assert(0 <= n < 32);
            assert(n / 16 < 2);
            assert(spec_hex_val(spec_hex_digit(n / 16)) == n / 16);
            assert(spec_hex_val(spec_hex_digit(n % 16)) == n % 16);
            assert(16 * (n / 16) + (n % 16) == n);
            assert(((16 * spec_hex_val(t[4]) + spec_hex_val(t[5])) as u32) == c as u32);
            vstd::utf8::char_u32_cast(c, c as u32);
            assert((((16 * spec_hex_val(t[4]) + spec_hex_val(t[5])) as u32) as char) == c);
            assert(t.skip(6) =~= esc(rest));
            assert(unesc(t) == Some(seq![c] + rest));
            assert(seq![c] + rest =~= s);
        } else {
            assert(esc_char(c) =~= seq![c]);
            assert(t[0] == c);
            assert(t[0] != '\\');
            assert(t.skip(1) =~= esc(rest));
            assert(unesc(t) == Some(seq![c] + rest));
            assert(seq![c] + rest =~= s);
        }
    }
}

/// `"true"` or `"false"`.
pub open spec fn bool_text(b: bool) -> Seq<char> {
    if b {
        "true"@
    } else {
        "false"@
    }
}

/// A host object: `{"username":..,"id":..,"video":..,"screen":..}`.
pub open spec fn host_text(h: RoomHost) -> Seq<char> {
    "{\"username\":\""@ + esc(h.username@) + "\",\"id\":\""@ + esc(h.id@) + "\",\"video\":"@
        + bool_text(h.video) + ",\"screen\":"@ + bool_text(h.screen) + "}"@
}

/// A participant object: `{"username":..,"id":..,"video":..}`.
pub open spec fn peer_text(p: RoomPeer) -> Seq<char> {
    "{\"username\":\""@ + esc(p.username@) + "\",\"id\":\""@ + esc(p.id@) + "\",\"video\":"@
        + bool_text(p.video) + "}"@
}

/// A participant array: the objects joined by commas.
pub open spec fn peers_text(ps: Seq<RoomPeer>) -> Seq<char>
    decreases ps.len(),
{
    if ps.len() == 0 {
        Seq::empty()
    } else if ps.len() == 1 {
        peer_text(ps[0])
    } else {
        peers_text(ps.drop_last()) + ","@ + peer_text(ps.last())
    }
}

/// The wire tag of a signaling relay kind.
pub open spec fn rtc_tag(k: RtcKind) -> Seq<char> {
    match k {
        RtcKind::Offer => "offer"@,
        RtcKind::Answer => "answer"@,
        RtcKind::IceCandidate => "ice-candidate"@,
    }
}

/// The wire tag of a media event kind.
pub open spec fn media_tag(k: MediaKind) -> Seq<char> {
    match k {
        MediaKind::ScreenSharingStarted => "screen-sharing-started"@,
        MediaKind::ScreenSharingStopped => "screen-sharing-stopped"@,
        MediaKind::VideoStarted => "video-started"@,
        MediaKind::VideoStopped => "video-stopped"@,
    }
}

/// The exact character sequence of every outbound frame. Raw fields (the
/// relayed `item`, pointer coordinates) are spliced in verbatim; string
/// fields are escaped; the field order is fixed.
pub open spec fn frame_text(m: Outbound) -> Seq<char> {
    match m {
        Outbound::HostJoined { user_id, username } => "{\"message_type\":\"host-joined\",\"user_id\":\""@
            + esc(user_id@) + "\",\"username\":\""@ + esc(username@) + "\"}"@,
        Outbound::JoinRequest { user_id, username } => "{\"message_type\":\"join-request\",\"user_id\":\""@
            + esc(user_id@) + "\",\"username\":\""@ + esc(username@) + "\"}"@,
        Outbound::NewParticipant { user_id, username, participant, host } => "{\"message_type\":\"new-participant\",\"username\":\""@
            + esc(username@) + "\",\"user_id\":\""@ + esc(user_id@) + "\",\"participant\":\""@
            + esc(participant@) + "\",\"host\":"@ + host_text(host) + "}"@,
        Outbound::ParticipantJoined { user_id, username, participants, host } => "{\"message_type\":\"participant-joined\",\"username\":\""@
            + esc(username@) + "\",\"user_id\":\""@ + esc(user_id@) + "\",\"participants\":["@
            + peers_text(participants@) + "],\"host\":"@ + host_text(host) + "}"@,
        Outbound::Rtc { kind, item, from, user_id } => "{\"message_type\":\""@ + rtc_tag(kind)
            + "\",\"item\":"@ + item@ + ",\"from\":\""@ + esc(from@) + "\",\"user_id\":\""@
            + esc(user_id@) + "\"}"@,
        Outbound::MouseMove { x, y } => "{\"message_type\":\"mouse-move\",\"x\":"@ + x@ + ",\"y\":"@
            + y@ + "}"@,
        Outbound::KeyPress { key } => "{\"message_type\":\"key-press\",\"key\":\""@ + esc(key@)
            + "\"}"@,
        Outbound::MouseClick => "{\"message_type\":\"mouse-click\"}"@,
        Outbound::Chat { message, username, id } => "{\"message_type\":\"message\",\"message\":\""@
            + esc(message@) + "\",\"username\":\""@ + esc(username@) + "\",\"id\":\""@ + esc(id@)
            + "\"}"@,
        Outbound::Media { kind, user_id, host } => "{\"message_type\":\""@ + media_tag(kind)
            + "\",\"user_id\":\""@ + esc(user_id@) + "\",\"host\":"@ + bool_text(host) + "}"@,
        Outbound::HostLeft { host, username } => "{\"message_type\":\"host-left\",\"host\":\""@
            + esc(host@) + "\",\"username\":\""@ + esc(username@) + "\"}"@,
        Outbound::ParticipantLeft { user } => "{\"message_type\":\"participant-left\",\"user\":\""@
            + esc(user@) + "\"}"@,
        Outbound::RequestAccess { user_id, username } => "{\"message_type\":\"request-access\",\"user_id\":\""@
            + esc(user_id@) + "\",\"username\":\""@ + esc(username@) + "\"}"@,
        Outbound::AllowedAccess { user_id, username } => "{\"message_type\":\"allowed-access\",\"user_id\":\""@
            + esc(user_id@) + "\",\"username\":\""@ + esc(username@) + "\"}"@,
    }
}

/// Appends a host object.
fn push_host(out: &mut Vec<char>, h: &RoomHost)
    ensures
        final(out)@ == old(out)@ + host_text(*h),
{
    push_str_chars(out, "{\"username\":\"");
    push_escaped(out, &h.username);
    push_str_chars(out, "\",\"id\":\"");
    push_escaped(out, &h.id);
    push_str_chars(out, "\",\"video\":");
    push_str_chars(out, if h.video { "true" } else { "false" });
    push_str_chars(out, ",\"screen\":");
    push_str_chars(out, if h.screen { "true" } else { "false" });
    push_str_chars(out, "}");
}

/// Appends a participant array body.
#[verifier::loop_isolation(false)]
fn push_peers(out: &mut Vec<char>, ps: &Vec<RoomPeer>)
    ensures
        final(out)@ == old(out)@ + peers_text(ps@),
{
    let mut i: usize = 0;
    while i < ps.len()
        invariant
            0 <= i <= ps@.len(),
            out@ == old(out)@ + peers_text(ps@.take(i as int)),
        decreases ps@.len() - i,
    {
        proof {
            assert(ps@.take(i + 1).drop_last() =~= ps@.take(i as int));
            assert(ps@.take(i + 1).last() == ps@[i as int]);
        }
        if i > 0 {
            push_str_chars(out, ",");
        }
        push_str_chars(out, "{\"username\":\"");
        push_escaped(out, &ps[i].username);
        push_str_chars(out, "\",\"id\":\"");
        push_escaped(out, &ps[i].id);
        push_str_chars(out, "\",\"video\":");
        push_str_chars(out, if ps[i].video { "true" } else { "false" });
        push_str_chars(out, "}");
        proof {
            assert(out@ =~= old(out)@ + peers_text(ps@.take(i + 1)));
        }
        i += 1;
    }
    proof {
        assert(ps@.take(ps@.len() as int) =~= ps@);
    }
}

/// Serializes an outbound frame, exactly as `frame_text` states it.
pub fn encode_frame(m: &Outbound) -> (r: String)
    ensures
        r@ == frame_text(*m),
{
    let mut out: Vec<char> = Vec::new();
    match m {
        Outbound::HostJoined { user_id, username } => {
            push_str_chars(&mut out, "{\"message_type\":\"host-joined\",\"user_id\":\"");
            push_escaped(&mut out, user_id);
            push_str_chars(&mut out, "\",\"username\":\"");
            push_escaped(&mut out, username);
            push_str_chars(&mut out, "\"}");
        },
        Outbound::JoinRequest { user_id, username } => {
            push_str_chars(&mut out, "{\"message_type\":\"join-request\",\"user_id\":\"");
            push_escaped(&mut out, user_id);
            push_str_chars(&mut out, "\",\"username\":\"");
            push_escaped(&mut out, username);
            push_str_chars(&mut out, "\"}");
        },
        Outbound::NewParticipant { user_id, username, participant, host } => {
            push_str_chars(&mut out, "{\"message_type\":\"new-participant\",\"username\":\"");
            push_escaped(&mut out, username);
            push_str_chars(&mut out, "\",\"user_id\":\"");
            push_escaped(&mut out, user_id);
            push_str_chars(&mut out, "\",\"participant\":\"");
            push_escaped(&mut out, participant);
            push_str_chars(&mut out, "\",\"host\":");
            push_host(&mut out, host);
            push_str_chars(&mut out, "}");
        },
        Outbound::ParticipantJoined { user_id, username, participants, host } => {
            push_str_chars(&mut out, "{\"message_type\":\"participant-joined\",\"username\":\"");
            push_escaped(&mut out, username);
            push_str_chars(&mut out, "\",\"user_id\":\"");
            push_escaped(&mut out, user_id);
            push_str_chars(&mut out, "\",\"participants\":[");
            push_peers(&mut out, participants);
            push_str_chars(&mut out, "],\"host\":");
            push_host(&mut out, host);
            push_str_chars(&mut out, "}");
        },
        Outbound::Rtc { kind, item, from, user_id } => {
            push_str_chars(&mut out, "{\"message_type\":\"");
            push_str_chars(&mut out, match kind {
                RtcKind::Offer => "offer",
                RtcKind::Answer => "answer",
                RtcKind::IceCandidate => "ice-candidate",
            });
            push_str_chars(&mut out, "\",\"item\":");
            push_str_chars(&mut out, item.as_str());
            push_str_chars(&mut out, ",\"from\":\"");
            push_escaped(&mut out, from);
            push_str_chars(&mut out, "\",\"user_id\":\"");
            push_escaped(&mut out, user_id);
            push_str_chars(&mut out, "\"}");
        },
        Outbound::MouseMove { x, y } => {
            push_str_chars(&mut out, "{\"message_type\":\"mouse-move\",\"x\":");
            push_str_chars(&mut out, x.as_str());
            push_str_chars(&mut out, ",\"y\":");
            push_str_chars(&mut out, y.as_str());
            push_str_chars(&mut out, "}");
        },
        Outbound::KeyPress { key } => {
            push_str_chars(&mut out, "{\"message_type\":\"key-press\",\"key\":\"");
            push_escaped(&mut out, key);
            push_str_chars(&mut out, "\"}");
        },
        Outbound::MouseClick => {
            push_str_chars(&mut out, "{\"message_type\":\"mouse-click\"}");
        },
        Outbound::Chat { message, username, id } => {
            push_str_chars(&mut out, "{\"message_type\":\"message\",\"message\":\"");
            push_escaped(&mut out, message);
            push_str_chars(&mut out, "\",\"username\":\"");
            push_escaped(&mut out, username);
            push_str_chars(&mut out, "\",\"id\":\"");
            push_escaped(&mut out, id);
            push_str_chars(&mut out, "\"}");
        },
        Outbound::Media { kind, user_id, host } => {
            push_str_chars(&mut out, "{\"message_type\":\"");
            push_str_chars(&mut out, match kind {
                MediaKind::ScreenSharingStarted => "screen-sharing-started",
                MediaKind::ScreenSharingStopped => "screen-sharing-stopped",
                MediaKind::VideoStarted => "video-started",
                MediaKind::VideoStopped => "video-stopped",
            });
            push_str_chars(&mut out, "\",\"user_id\":\"");
            push_escaped(&mut out, user_id);
            push_str_chars(&mut out, "\",\"host\":");
            push_str_chars(&mut out, if *host { "true" } else { "false" });
            push_str_chars(&mut out, "}");
        },
        Outbound::HostLeft { host, username } => {
            push_str_chars(&mut out, "{\"message_type\":\"host-left\",\"host\":\"");
            push_escaped(&mut out, host);
            push_str_chars(&mut out, "\",\"username\":\"");
            push_escaped(&mut out, username);
            push_str_chars(&mut out, "\"}");
        },
        Outbound::ParticipantLeft { user } => {
            push_str_chars(&mut out, "{\"message_type\":\"participant-left\",\"user\":\"");
            push_escaped(&mut out, user);
            push_str_chars(&mut out, "\"}");
        },
        Outbound::RequestAccess { user_id, username } => {
            push_str_chars(&mut out, "{\"message_type\":\"request-access\",\"user_id\":\"");
            push_escaped(&mut out, user_id);
            push_str_chars(&mut out, "\",\"username\":\"");
            push_escaped(&mut out, username);
            push_str_chars(&mut out, "\"}");
        },
        Outbound::AllowedAccess { user_id, username } => {
            push_str_chars(&mut out, "{\"message_type\":\"allowed-access\",\"user_id\":\"");
            push_escaped(&mut out, user_id);
            push_str_chars(&mut out, "\",\"username\":\"");
            push_escaped(&mut out, username);
            push_str_chars(&mut out, "\"}");
        },
    }
    proof {
        assert(out@ =~= frame_text(*m));
    }
    chars_string(&out)
}

// ---------------------------------------------------------------------------
// Inbound parsing. The envelope is read by a hand-written JSON parser: any
// text that is not a `{"type": <string>, "data": {...}}` object with the
// fields the tag calls for simply yields nothing, and the frame is dropped.

/// One field of a JSON object: its unescaped key and the character span of
/// its value (tight: no surrounding whitespace).
struct ObjEntry {
    key: String,
    start: usize,
    end: usize,
}

/// Every span points into the first `n` characters and is non-empty.
spec fn spans_ok(es: Seq<ObjEntry>, n: nat) -> bool {
    forall|k: int| #![trigger es[k]] 0 <= k < es.len() ==> es[k].start < es[k].end <= n
}

/// Whether a character is JSON whitespace.
pub open spec fn spec_is_ws(c: char) -> bool {
    c == ' ' || c == '\t' || c == '\n' || c == '\r'
}

fn is_ws(c: char) -> (r: bool)
    ensures
        r == spec_is_ws(c),
{
    c == ' ' || c == '\t' || c == '\n' || c == '\r'
}

/// Whether a character is an ASCII digit.
pub open spec fn spec_is_digit(c: char) -> bool {
    48 <= c as u32 && c as u32 <= 57
}

fn is_digit(c: char) -> (r: bool)
    ensures
        r == spec_is_digit(c),
{
    let n = c as u32;
    48 <= n && n <= 57
}

/// Whether a character may continue a number token.
pub open spec fn spec_num_char(c: char) -> bool {
    spec_is_digit(c) || c == '.' || c == 'e' || c == 'E' || c == '+' || c == '-'
}

/// The first position at or after `i` holding a non-whitespace character.
pub open spec fn spec_skip_ws(v: Seq<char>, i: int) -> int
    decreases v.len() - i,
{
    if 0 <= i && i < v.len() && spec_is_ws(v[i]) {
        spec_skip_ws(v, i + 1)
    } else {
        i
    }
}

#[verifier::loop_isolation(false)]
fn skip_ws(v: &Vec<char>, i: usize) -> (j: usize)
    requires
        i <= v@.len(),
    ensures
        i <= j <= v@.len(),
        j as int == spec_skip_ws(v@, i as int),
{
    let mut j = i;
    while j < v.len() && is_ws(v[j])
        invariant
            i <= j <= v@.len(),
            spec_skip_ws(v@, i as int) == spec_skip_ws(v@, j as int),
        decreases v@.len() - j,
    {
        j += 1;
    }
    j
}

/// The value of a hexadecimal digit.
fn hex_val(c: char) -> (r: Option<u32>)
    ensures
        r matches Some(n) ==> n < 16 && spec_hex_val(c) == n as int,
        r is None ==> spec_hex_val(c) < 0,
{
    let n = c as u32;
    if 48 <= n && n <= 57 {
        Some(n - 48)
    } else if 97 <= n && n <= 102 {
        Some(n - 87)
    } else if 65 <= n && n <= 70 {
        Some(n - 55)
    } else {
        None
    }
}

/// Four hexadecimal digits as a code unit, or a negative number.
pub open spec fn spec_hex4(v: Seq<char>, k: int) -> int {
    if 0 <= k && k + 4 <= v.len() {
        let d0 = spec_hex_val(v[k]);
        let d1 = spec_hex_val(v[k + 1]);
        let d2 = spec_hex_val(v[k + 2]);
        let d3 = spec_hex_val(v[k + 3]);
        if d0 < 0 || d1 < 0 || d2 < 0 || d3 < 0 {
            -1
        } else {
            4096 * d0 + 256 * d1 + 16 * d2 + d3
        }
    } else {
        -1
    }
}

fn hex4(v: &Vec<char>, i: usize) -> (r: Option<u32>)
    requires
        i + 4 <= v@.len(),
    ensures
        r matches Some(n) ==> n < 0x10000 && spec_hex4(v@, i as int) == n as int,
        r is None ==> spec_hex4(v@, i as int) < 0,
{
    let n = v.len();
    assert(i + 4 <= n);
    let d0 = match hex_val(v[i]) { Some(d) => d, None => return None };
    let d1 = match hex_val(v[i + 1]) { Some(d) => d, None => return None };
    let d2 = match hex_val(v[i + 2]) { Some(d) => d, None => return None };
    let d3 = match hex_val(v[i + 3]) { Some(d) => d, None => return None };
    Some(d0 * 4096 + d1 * 256 + d2 * 16 + d3)
}

/// The body of a JSON string from position `k` on, unescaped onto `acc`:
/// the contents and the position after the closing quote, or nothing for a
/// malformed body.
pub open spec fn spec_str_body(v: Seq<char>, k: int, acc: Seq<char>) -> Option<(Seq<char>, int)>
    decreases v.len() - k,
{
    if !(0 <= k && k < v.len()) {
        None
    } else {
        let c = v[k];
        if c == '"' {
            Some((acc, k + 1))
        } else if c == '\\' {
            if v.len() - k < 2 {
                None
            } else {
                let e = v[k + 1];
                if e == 'u' {
                    if v.len() - k < 6 {
                        None
                    } else {
                        let h = spec_hex4(v, k + 2);
                        if h < 0 {
                            None
                        } else if 0xD800 <= h && h < 0xDC00 {
                            if v.len() - k < 12 {
                                None
                            } else if v[k + 6] != '\\' || v[k + 7] != 'u' {
                                None
                            } else {
                                let l = spec_hex4(v, k + 8);
                                if !(0xDC00 <= l && l < 0xE000) {
                                    None
                                } else {
                                    let code = 0x10000 + (h - 0xD800) * 0x400 + (l - 0xDC00);
                                    spec_str_body(v, k + 12, acc + seq![((code as u32) as char)])
                                }
                            }
                        } else if 0xDC00 <= h && h < 0xE000 {
                            None
                        } else {
                            spec_str_body(v, k + 6, acc + seq![((h as u32) as char)])
                        }
                    }
                } else if e == '"' || e == '\\' || e == '/' {
                    spec_str_body(v, k + 2, acc + seq![e])
                } else if e == 'b' {
                    spec_str_body(v, k + 2, acc + seq!['\u{8}'])
                } else if e == 'f' {
                    spec_str_body(v, k + 2, acc + seq!['\u{c}'])
                } else if e == 'n' {
                    spec_str_body(v, k + 2, acc + seq!['\n'])
                } else if e == 'r' {
                    spec_str_body(v, k + 2, acc + seq!['\r'])
                } else if e == 't' {
                    spec_str_body(v, k + 2, acc + seq!['\t'])
                } else {
                    None
                }
            }
        } else {
            spec_str_body(v, k + 1, acc + seq![c])
        }
    }
}

/// A JSON string starting at its opening quote: the unescaped contents and
/// the position after the closing quote.
pub open spec fn spec_parse_string(v: Seq<char>, i: int) -> Option<(Seq<char>, int)> {
    if 0 <= i && i < v.len() && v[i] == '"' {
        spec_str_body(v, i + 1, Seq::empty())
    } else {
        None
    }
}

/// Reads a JSON string starting at its opening quote, unescaping it, exactly
/// as `spec_parse_string` states it. The short escapes and `\u` code units
/// (surrogate pairs included) are understood; anything else fails, and the
/// frame is dropped.
#[verifier::loop_isolation(false)]
fn parse_string(v: &Vec<char>, i: usize) -> (r: Option<(Vec<char>, usize)>)
    requires
        i <= v@.len(),
    ensures
        r matches Some((s, j)) ==> i < j <= v@.len() && spec_parse_string(v@, i as int) == Some(
            (s@, j as int),
        ),
        r is None ==> spec_parse_string(v@, i as int) is None,
{
    if i >= v.len() || v[i] != '"' {
        return None;
    }
    let mut out: Vec<char> = Vec::new();
    let mut k = i + 1;
    while k < v.len()
        invariant
            i < k <= v@.len(),
            spec_parse_string(v@, i as int) == spec_str_body(v@, k as int, out@),
        decreases v@.len() - k,
    {
        let ghost out0 = out@;
        let c = v[k];
        if c == '"' {
            return Some((out, k + 1));
        }
        if c == '\\' {
            if v.len() - k < 2 {
                return None;
            }
            let e = v[k + 1];
            if e == 'u' {
                if v.len() - k < 6 {
                    return None;
                }
                let h = match hex4(v, k + 2) { Some(h) => h, None => return None };
                if 0xD800 <= h && h < 0xDC00 {
                    if v.len() - k < 12 {
                        return None;
                    }
                    if v[k + 6] != '\\' || v[k + 7] != 'u' {
                        return None;
                    }
                    let l = match hex4(v, k + 8) { Some(l) => l, None => return None };
                    if !(0xDC00 <= l && l < 0xE000) {
                        return None;
                    }
                    let code = 0x10000 + (h - 0xD800) * 0x400 + (l - 0xDC00);
                    match char_from_code(code) {
                        Some(ch) => {
                            out.push(ch);
                            proof {
                                vstd::utf8::char_u32_cast(ch, code);
                                assert(out@ =~= out0 + seq![ch]);
                                assert(spec_str_body(v@, k as int, out0) == spec_str_body(
                                    v@,
                                    k + 12,
                                    out@,
                                ));
                            }
                        },
                        None => return None,
                    }
                    k += 12;
                } else if 0xDC00 <= h && h < 0xE000 {
                    return None;
                } else {
                    match char_from_code(h) {
                        Some(ch) => {
                            out.push(ch);
                            proof {
                                vstd::utf8::char_u32_cast(ch, h);
                                assert(out@ =~= out0 + seq![ch]);
                                assert(spec_str_body(v@, k as int, out0) == spec_str_body(
                                    v@,
                                    k + 6,
                                    out@,
                                ));
                            }
                        },
                        None => return None,
                    }
                    k += 6;
                }
            } else {
                let esc_ch = if e == '"' {
                    '"'
                } else if e == '\\' {
                    '\\'
                } else if e == '/' {
                    '/'
                } else if e == 'b' {
                    '\u{8}'
                } else if e == 'f' {
                    '\u{c}'
                } else if e == 'n' {
                    '\n'
                } else if e == 'r' {
                    '\r'
                } else if e == 't' {
                    '\t'
                } else {
                    return None;
                };
                out.push(esc_ch);
                proof {
                    assert(out@ =~= out0 + seq![esc_ch]);
                    assert(spec_str_body(v@, k as int, out0) == spec_str_body(v@, k + 2, out@));
                }
                k += 2;
            }
        } else {
            out.push(c);
            proof {
                assert(out@ =~= out0 + seq![c]);
                assert(spec_str_body(v@, k as int, out0) == spec_str_body(v@, k + 1, out@));
            }
            k += 1;
        }
    }
    None
}

/// The end of a run of number characters starting at `j`.
pub open spec fn spec_skip_num(v: Seq<char>, j: int) -> int
    decreases v.len() - j,
{
    if 0 <= j && j < v.len() && spec_num_char(v[j]) {
        spec_skip_num(v, j + 1)
    } else {
        j
    }
}

/// The end of a loose number token whose first character stands at `i`.
#[verifier::loop_isolation(false)]
fn skip_number(v: &Vec<char>, i: usize) -> (j: usize)
    requires
        i < v@.len(),
    ensures
        i < j <= v@.len(),
        j as int == spec_skip_num(v@, i + 1),
{
    let n = v.len();
    assert(i < n);
    let mut j = i + 1;
    while j < v.len() && (is_digit(v[j]) || v[j] == '.' || v[j] == 'e' || v[j] == 'E' || v[j] == '+'
        || v[j] == '-')
        invariant
            i < j <= v@.len(),
            spec_skip_num(v@, i + 1) == spec_skip_num(v@, j as int),
        decreases v@.len() - j,
    {
        j += 1;
    }
    j
}

/// The position after any one JSON value starting at `i`. The positions a
/// sub-reading yields are checked to advance before being followed, which
/// they always do.
pub open spec fn spec_skip_value(v: Seq<char>, i: int) -> Option<int>
    decreases v.len() - i, 1int,
{
    if !(0 <= i && i < v.len()) {
        None
    } else {
        let c = v[i];
        if c == '"' {
            match spec_parse_string(v, i) {
                Some((s, j)) => Some(j),
                None => None,
            }
        } else if c == '{' {
            match spec_parse_object(v, i) {
                Some((es, j)) => Some(j),
                None => None,
            }
        } else if c == '[' {
            let p = spec_skip_ws(v, i + 1);
            if p < v.len() && v[p] == ']' {
                Some(p + 1)
            } else if i < p && p <= v.len() {
                spec_skip_array_items(v, p)
            } else {
                None
            }
        } else if c == 't' {
            if v.len() - i >= 4 && v[i + 1] == 'r' && v[i + 2] == 'u' && v[i + 3] == 'e' {
                Some(i + 4)
            } else {
                None
            }
        } else if c == 'f' {
            if v.len() - i >= 5 && v[i + 1] == 'a' && v[i + 2] == 'l' && v[i + 3] == 's' && v[i + 4]
                == 'e' {
                Some(i + 5)
            } else {
                None
            }
        } else if c == 'n' {
            if v.len() - i >= 4 && v[i + 1] == 'u' && v[i + 2] == 'l' && v[i + 3] == 'l' {
                Some(i + 4)
            } else {
                None
            }
        } else if c == '-' || spec_is_digit(c) {
            Some(spec_skip_num(v, i + 1))
        } else {
            None
        }
    }
}

/// The position after the remaining items of an array, `p` standing at the
/// first character of an item.
pub open spec fn spec_skip_array_items(v: Seq<char>, p: int) -> Option<int>
    decreases v.len() - p, 2int,
{
    if !(0 <= p && p <= v.len()) {
        None
    } else {
        match spec_skip_value(v, p) {
            Some(n) => {
                let o = spec_skip_ws(v, n);
                if 0 <= o && o < v.len() {
                    if v[o] == ']' {
                        Some(o + 1)
                    } else if v[o] == ',' {
                        let q = spec_skip_ws(v, o + 1);
                        if p < q && q <= v.len() {
                            spec_skip_array_items(v, q)
                        } else {
                            None
                        }
                    } else {
                        None
                    }
                } else {
                    None
                }
            },
            None => None,
        }
    }
}

/// An object starting at its opening brace: the fields (unescaped key, tight
/// value span) and the position after the closing brace.
pub open spec fn spec_parse_object(v: Seq<char>, i: int) -> Option<(Seq<(Seq<char>, int, int)>, int)>
    decreases v.len() - i, 0int,
{
    if !(0 <= i && i < v.len() && v[i] == '{') {
        None
    } else {
        let p = spec_skip_ws(v, i + 1);
        if p < v.len() && v[p] == '}' {
            Some((Seq::empty(), p + 1))
        } else if i < p && p <= v.len() {
            spec_parse_members(v, p)
        } else {
            None
        }
    }
}

/// The members of an object from the first key on.
pub open spec fn spec_parse_members(v: Seq<char>, p: int) -> Option<(Seq<(Seq<char>, int, int)>, int)>
    decreases v.len() - p, 0int,
{
    if !(0 <= p && p <= v.len()) {
        None
    } else {
        match spec_parse_string(v, p) {
            Some((key, kq)) => {
                let l = spec_skip_ws(v, kq);
                if 0 <= l && l < v.len() && v[l] == ':' {
                    let m = spec_skip_ws(v, l + 1);
                    if p < m && m <= v.len() {
                        match spec_skip_value(v, m) {
                            Some(n) => {
                                let o = spec_skip_ws(v, n);
                                if 0 <= o && o < v.len() {
                                    if v[o] == '}' {
                                        Some((seq![(key, m, n)], o + 1))
                                    } else if v[o] == ',' {
                                        let q = spec_skip_ws(v, o + 1);
                                        if p < q && q <= v.len() {
                                            match spec_parse_members(v, q) {
                                                Some((rest, j)) => Some(
                                                    (seq![(key, m, n)] + rest, j),
                                                ),
                                                None => None,
                                            }
                                        } else {
                                            None
                                        }
                                    } else {
                                        None
                                    }
                                } else {
                                    None
                                }
                            },
                            None => None,
                        }
                    } else {
                        None
                    }
                } else {
                    None
                }
            },
            None => None,
        }
    }
}

/// The spec-level value of a field list.
spec fn entries_view(es: Seq<ObjEntry>) -> Seq<(Seq<char>, int, int)> {
    es.map_values(|e: ObjEntry| (e.key@, e.start as int, e.end as int))
}

/// The position after any one JSON value starting at `i`, exactly as
/// `spec_skip_value` states it.
fn skip_value(v: &Vec<char>, i: usize) -> (r: Option<usize>)
    requires
        i <= v@.len(),
    ensures
        r matches Some(j) ==> i < j <= v@.len() && spec_skip_value(v@, i as int) == Some(j as int),
        r is None ==> spec_skip_value(v@, i as int) is None,
    decreases v@.len() - i, 1int,
{
    if i >= v.len() {
        return None;
    }
    let c = v[i];
    if c == '"' {
        match parse_string(v, i) {
            Some((_s, j)) => Some(j),
            None => None,
        }
    } else if c == '{' {
        match parse_object(v, i) {
            Some((_es, j)) => Some(j),
            None => None,
        }
    } else if c == '[' {
        let p = skip_ws(v, i + 1);
        if p < v.len() && v[p] == ']' {
            Some(p + 1)
        } else {
            skip_array_items(v, p)
        }
    } else if c == 't' {
        if v.len() - i >= 4 && v[i + 1] == 'r' && v[i + 2] == 'u' && v[i + 3] == 'e' {
            Some(i + 4)
        } else {
            None
        }
    } else if c == 'f' {
        if v.len() - i >= 5 && v[i + 1] == 'a' && v[i + 2] == 'l' && v[i + 3] == 's' && v[i + 4]
            == 'e' {
            Some(i + 5)
        } else {
            None
        }
    } else if c == 'n' {
        if v.len() - i >= 4 && v[i + 1] == 'u' && v[i + 2] == 'l' && v[i + 3] == 'l' {
            Some(i + 4)
        } else {
            None
        }
    } else if c == '-' || is_digit(c) {
        Some(skip_number(v, i))
    } else {
        None
    }
}

/// The remaining items of an array, exactly as `spec_skip_array_items`
/// states it.
fn skip_array_items(v: &Vec<char>, p: usize) -> (r: Option<usize>)
    requires
        p <= v@.len(),
    ensures
        r matches Some(j) ==> p < j <= v@.len() && spec_skip_array_items(v@, p as int) == Some(
            j as int,
        ),
        r is None ==> spec_skip_array_items(v@, p as int) is None,
    decreases v@.len() - p, 2int,
{
    let n = match skip_value(v, p) { Some(n) => n, None => return None };
    let o = skip_ws(v, n);
    if o >= v.len() {
        return None;
    }
    if v[o] == ']' {
        Some(o + 1)
    } else if v[o] == ',' {
        let q = skip_ws(v, o + 1);
        skip_array_items(v, q)
    } else {
        None
    }
}

/// Reads an object starting at its opening brace, exactly as
/// `spec_parse_object` states it.
fn parse_object(v: &Vec<char>, i: usize) -> (r: Option<(Vec<ObjEntry>, usize)>)
    requires
        i <= v@.len(),
    ensures
        r matches Some((es, j)) ==> i < j <= v@.len() && spans_ok(es@, v@.len())
            && spec_parse_object(v@, i as int) == Some((entries_view(es@), j as int)),
        r is None ==> spec_parse_object(v@, i as int) is None,
    decreases v@.len() - i, 0int,
{
    if i >= v.len() || v[i] != '{' {
        return None;
    }
    let p = skip_ws(v, i + 1);
    if p < v.len() && v[p] == '}' {
        let es: Vec<ObjEntry> = Vec::new();
        proof {
            assert(entries_view(es@) =~= Seq::<(Seq<char>, int, int)>::empty());
        }
        return Some((es, p + 1));
    }
    match parse_members(v, p, i) {
        Some((es, j)) => {
            assert(i < j <= v@.len());
            assert(spans_ok(es@, v@.len()));
            Some((es, j))
        },
        None => None,
    }
}

/// Reads the members of an object from the first key on, exactly as
/// `spec_parse_members` states it.
fn parse_members(v: &Vec<char>, p: usize, floor: usize) -> (r: Option<(Vec<ObjEntry>, usize)>)
    requires
        floor < p <= v@.len(),
    ensures
        r matches Some((es, j)) ==> p < j <= v@.len() && spans_ok(es@, v@.len())
            && spec_parse_members(v@, p as int) == Some((entries_view(es@), j as int)),
        r is None ==> spec_parse_members(v@, p as int) is None,
    decreases v@.len() - p, 0int,
{
    let (key_chars, kq) = match parse_string(v, p) { Some(x) => x, None => return None };
    let l = skip_ws(v, kq);
    if l >= v.len() || v[l] != ':' {
        return None;
    }
    let m = skip_ws(v, l + 1);
    let n = match skip_value(v, m) { Some(n) => n, None => return None };
    let entry = ObjEntry { key: chars_string(&key_chars), start: m, end: n };
    let ghost ev = (key_chars@, m as int, n as int);
    let o = skip_ws(v, n);
    if o >= v.len() {
        return None;
    }
    if v[o] == '}' {
        let mut es: Vec<ObjEntry> = Vec::new();
        es.push(entry);
        proof {
            assert(entries_view(es@) =~= seq![ev]);
        }
        Some((es, o + 1))
    } else if v[o] == ',' {
        let q = skip_ws(v, o + 1);
        if q <= o {
            return None;
        }
        let (mut rest, j) = match parse_members(v, q, o) { Some(x) => x, None => return None };
        let ghost rest0 = rest@;
        rest.insert(0, entry);
        proof {
            assert(entries_view(rest@) =~= seq![ev] + entries_view(rest0));
        }
        Some((rest, j))
    } else {
        None
    }
}

/// Whether a string's characters are exactly those of a literal.
fn eq_str(a: &String, b: &str) -> (r: bool)
    ensures
        r == (a@ == b@),
{
    let other = <String as vstd::string::StringExecFns>::from_str(b);
    *a == other
}

/// The position of the last field with this name, if any.
pub open spec fn spec_find_field(es: Seq<(Seq<char>, int, int)>, name: Seq<char>) -> Option<int>
    decreases es.len(),
{
    if es.len() == 0 {
        None
    } else if es.last().0 == name {
        Some(es.len() - 1)
    } else {
        spec_find_field(es.drop_last(), name)
    }
}

/// Finds the last field with this name, exactly as `spec_find_field` states
/// it.
#[verifier::loop_isolation(false)]
fn find_field(es: &Vec<ObjEntry>, name: &str) -> (r: Option<usize>)
    ensures
        r matches Some(k) ==> k < es@.len() && spec_find_field(entries_view(es@), name@) == Some(
            k as int,
        ),
        r is None ==> spec_find_field(entries_view(es@), name@) is None,
{
    let mut r: Option<usize> = None;
    let mut i: usize = 0;
    while i < es.len()
        invariant
            0 <= i <= es@.len(),
            match r {
                Some(k) => k < i && spec_find_field(entries_view(es@.take(i as int)), name@)
                    == Some(k as int),
                None => spec_find_field(entries_view(es@.take(i as int)), name@) is None,
            },
        decreases es@.len() - i,
    {
        proof {
            assert(entries_view(es@.take(i + 1)).drop_last() =~= entries_view(es@.take(i as int)));
            assert(entries_view(es@.take(i + 1)).last() == (
                es@[i as int].key@,
                es@[i as int].start as int,
                es@[i as int].end as int,
            ));
        }
        if eq_str(&es[i].key, name) {
            r = Some(i);
        }
        i += 1;
    }
    proof {
        assert(es@.take(es@.len() as int) =~= es@);
        assert(entries_view(es@.take(es@.len() as int)) =~= entries_view(es@));
    }
    r
}

/// The raw text of a span.
#[verifier::loop_isolation(false)]
fn span_raw(v: &Vec<char>, start: usize, end: usize) -> (r: String)
    requires
        start <= end <= v@.len(),
    ensures
        r@ == v@.subrange(start as int, end as int),
{
    let mut out: Vec<char> = Vec::new();
    let mut i = start;
    while i < end
        invariant
            start <= i <= end,
            out@ == v@.subrange(start as int, i as int),
        decreases end - i,
    {
        out.push(v[i]);
        proof {
            assert(out@ =~= v@.subrange(start as int, i + 1));
        }
        i += 1;
    }
    chars_string(&out)
}

/// A span that is exactly one JSON string, unescaped.
pub open spec fn spec_span_string(v: Seq<char>, start: int, end: int) -> Option<Seq<char>> {
    match spec_parse_string(v, start) {
        Some((cs, j)) => if j == end {
            Some(cs)
        } else {
            None
        },
        None => None,
    }
}

fn span_string(v: &Vec<char>, start: usize, end: usize) -> (r: Option<String>)
    requires
        start <= v@.len(),
    ensures
        r matches Some(s) ==> spec_span_string(v@, start as int, end as int) == Some(s@),
        r is None ==> spec_span_string(v@, start as int, end as int) is None,
{
    match parse_string(v, start) {
        Some((cs, j)) => if j == end {
            Some(chars_string(&cs))
        } else {
            None
        },
        None => None,
    }
}

/// A span that is exactly `true` or `false`.
pub open spec fn spec_span_bool(v: Seq<char>, start: int, end: int) -> Option<bool> {
    if 0 <= start && start < v.len() {
        if end - start == 4 && v[start] == 't' {
            Some(true)
        } else if end - start == 5 && v[start] == 'f' {
            Some(false)
        } else {
            None
        }
    } else {
        None
    }
}

fn span_bool(v: &Vec<char>, start: usize, end: usize) -> (r: Option<bool>)
    requires
        start < end <= v@.len(),
    ensures
        r == spec_span_bool(v@, start as int, end as int),
{
    if end - start == 4 && v[start] == 't' {
        Some(true)
    } else if end - start == 5 && v[start] == 'f' {
        Some(false)
    } else {
        None
    }
}

/// A span that is a number token, kept as its raw text.
pub open spec fn spec_span_number(v: Seq<char>, start: int, end: int) -> Option<Seq<char>> {
    if 0 <= start && start < end && end <= v.len() {
        if v[start] == '-' || spec_is_digit(v[start]) {
            Some(v.subrange(start, end))
        } else {
            None
        }
    } else {
        None
    }
}

fn span_number(v: &Vec<char>, start: usize, end: usize) -> (r: Option<String>)
    requires
        start < end <= v@.len(),
    ensures
        r matches Some(s) ==> spec_span_number(v@, start as int, end as int) == Some(s@),
        r is None ==> spec_span_number(v@, start as int, end as int) is None,
{
    let c = v[start];
    if c == '-' || is_digit(c) {
        Some(span_raw(v, start, end))
    } else {
        None
    }
}

/// The named field of an object, as an unescaped string.
pub open spec fn spec_get_str(v: Seq<char>, es: Seq<(Seq<char>, int, int)>, name: Seq<char>) -> Option<Seq<char>> {
    match spec_find_field(es, name) {
        Some(k) => spec_span_string(v, es[k].1, es[k].2),
        None => None,
    }
}

fn get_str(v: &Vec<char>, es: &Vec<ObjEntry>, name: &str) -> (r: Option<String>)
    requires
        spans_ok(es@, v@.len()),
    ensures
        r matches Some(s) ==> spec_get_str(v@, entries_view(es@), name@) == Some(s@),
        r is None ==> spec_get_str(v@, entries_view(es@), name@) is None,
{
    match find_field(es, name) {
        Some(k) => span_string(v, es[k].start, es[k].end),
        None => None,
    }
}

/// The named field of an object, as a boolean.
pub open spec fn spec_get_bool(v: Seq<char>, es: Seq<(Seq<char>, int, int)>, name: Seq<char>) -> Option<bool> {
    match spec_find_field(es, name) {
        Some(k) => spec_span_bool(v, es[k].1, es[k].2),
        None => None,
    }
}

fn get_bool(v: &Vec<char>, es: &Vec<ObjEntry>, name: &str) -> (r: Option<bool>)
    requires
        spans_ok(es@, v@.len()),
    ensures
        r == spec_get_bool(v@, entries_view(es@), name@),
{
    match find_field(es, name) {
        Some(k) => span_bool(v, es[k].start, es[k].end),
        None => None,
    }
}

/// The named field of an object, as raw JSON text.
pub open spec fn spec_get_raw(v: Seq<char>, es: Seq<(Seq<char>, int, int)>, name: Seq<char>) -> Option<Seq<char>> {
    match spec_find_field(es, name) {
        Some(k) => if 0 <= es[k].1 && es[k].1 <= es[k].2 && es[k].2 <= v.len() {
            Some(v.subrange(es[k].1, es[k].2))
        } else {
            None
        },
        None => None,
    }
}

fn get_raw(v: &Vec<char>, es: &Vec<ObjEntry>, name: &str) -> (r: Option<String>)
    requires
        spans_ok(es@, v@.len()),
    ensures
        r matches Some(s) ==> spec_get_raw(v@, entries_view(es@), name@) == Some(s@),
        r is None ==> spec_get_raw(v@, entries_view(es@), name@) is None,
{
    match find_field(es, name) {
        Some(k) => Some(span_raw(v, es[k].start, es[k].end)),
        None => None,
    }
}

/// The named field of an object, as a raw number token.
pub open spec fn spec_get_number(v: Seq<char>, es: Seq<(Seq<char>, int, int)>, name: Seq<char>) -> Option<Seq<char>> {
    match spec_find_field(es, name) {
        Some(k) => spec_span_number(v, es[k].1, es[k].2),
        None => None,
    }
}

fn get_number(v: &Vec<char>, es: &Vec<ObjEntry>, name: &str) -> (r: Option<String>)
    requires
        spans_ok(es@, v@.len()),
    ensures
        r matches Some(s) ==> spec_get_number(v@, entries_view(es@), name@) == Some(s@),
        r is None ==> spec_get_number(v@, entries_view(es@), name@) is None,
{
    match find_field(es, name) {
        Some(k) => span_number(v, es[k].start, es[k].end),
        None => None,
    }
}

/// A participant entry out of a parsed object.
pub open spec fn spec_peer_from(v: Seq<char>, es: Seq<(Seq<char>, int, int)>) -> Option<RoomPeerV> {
    match spec_get_str(v, es, "username"@) {
        Some(username) => match spec_get_str(v, es, "id"@) {
            Some(id) => match spec_get_bool(v, es, "video"@) {
                Some(video) => Some(RoomPeerV { username, id, video }),
                None => None,
            },
            None => None,
        },
        None => None,
    }
}

fn peer_from(v: &Vec<char>, es: &Vec<ObjEntry>) -> (r: Option<RoomPeer>)
    requires
        spans_ok(es@, v@.len()),
    ensures
        r matches Some(p) ==> spec_peer_from(v@, entries_view(es@)) == Some(p@),
        r is None ==> spec_peer_from(v@, entries_view(es@)) is None,
{
    let username = match get_str(v, es, "username") { Some(x) => x, None => return None };
    let id = match get_str(v, es, "id") { Some(x) => x, None => return None };
    let video = match get_bool(v, es, "video") { Some(x) => x, None => return None };
    Some(RoomPeer { username, id, video })
}

/// The host entry out of a parsed object span.
pub open spec fn spec_host_from_span(v: Seq<char>, start: int, end: int) -> Option<RoomHostV> {
    match spec_parse_object(v, start) {
        Some((es, j)) => if j == end {
            match spec_get_str(v, es, "username"@) {
                Some(username) => match spec_get_str(v, es, "id"@) {
                    Some(id) => match spec_get_bool(v, es, "video"@) {
                        Some(video) => match spec_get_bool(v, es, "screen"@) {
                            Some(screen) => Some(RoomHostV { username, id, video, screen }),
                            None => None,
                        },
                        None => None,
                    },
                    None => None,
                },
                None => None,
            }
        } else {
            None
        },
        None => None,
    }
}

fn host_from_span(v: &Vec<char>, start: usize, end: usize) -> (r: Option<RoomHost>)
    requires
        start <= v@.len(),
    ensures
        r matches Some(h) ==> spec_host_from_span(v@, start as int, end as int) == Some(h@),
        r is None ==> spec_host_from_span(v@, start as int, end as int) is None,
{
    let (es, j) = match parse_object(v, start) { Some(x) => x, None => return None };
    if j != end {
        return None;
    }
    let username = match get_str(v, &es, "username") { Some(x) => x, None => return None };
    let id = match get_str(v, &es, "id") { Some(x) => x, None => return None };
    let video = match get_bool(v, &es, "video") { Some(x) => x, None => return None };
    let screen = match get_bool(v, &es, "screen") { Some(x) => x, None => return None };
    Some(RoomHost { username, id, video, screen })
}

/// The items of a participant array from `p` on, gathered onto `acc`; the
/// array must close exactly at `end`.
pub open spec fn spec_peers_items(v: Seq<char>, p: int, end: int, acc: Seq<RoomPeerV>) -> Option<Seq<RoomPeerV>>
    decreases v.len() - p,
{
    if !(0 <= p && p < v.len()) {
        None
    } else {
        match spec_parse_object(v, p) {
            Some((es, j)) => match spec_peer_from(v, es) {
                Some(peer) => {
                    let o = spec_skip_ws(v, j);
                    if 0 <= o && o < v.len() {
                        if v[o] == ']' {
                            if o + 1 == end {
                                Some(acc.push(peer))
                            } else {
                                None
                            }
                        } else if v[o] == ',' {
                            let q = spec_skip_ws(v, o + 1);
                            if p < q && q <= v.len() {
                                spec_peers_items(v, q, end, acc.push(peer))
                            } else {
                                None
                            }
                        } else {
                            None
                        }
                    } else {
                        None
                    }
                },
                None => None,
            },
            None => None,
        }
    }
}

/// A participant array spanning exactly `[start, end)`.
pub open spec fn spec_peers_from_span(v: Seq<char>, start: int, end: int) -> Option<Seq<RoomPeerV>> {
    if !(0 <= start && start < v.len() && v[start] == '[') {
        None
    } else {
        let p = spec_skip_ws(v, start + 1);
        if p < v.len() && v[p] == ']' {
            if p + 1 == end {
                Some(Seq::empty())
            } else {
                None
            }
        } else if start < p && p <= v.len() {
            spec_peers_items(v, p, end, Seq::empty())
        } else {
            None
        }
    }
}

/// Reads the participant array of an acceptance payload, exactly as
/// `spec_peers_from_span` states it.
#[verifier::loop_isolation(false)]
fn peers_from_span(v: &Vec<char>, start: usize, end: usize) -> (r: Option<Vec<RoomPeer>>)
    requires
        start < end <= v@.len(),
    ensures
        r matches Some(ps) ==> spec_peers_from_span(v@, start as int, end as int) == Some(
            peers_view(ps@),
        ),
        r is None ==> spec_peers_from_span(v@, start as int, end as int) is None,
{
    if v[start] != '[' {
        return None;
    }
    let mut peers: Vec<RoomPeer> = Vec::new();
    let mut p = skip_ws(v, start + 1);
    if p < v.len() && v[p] == ']' {
        if p + 1 == end {
            proof {
                assert(peers_view(peers@) =~= Seq::<RoomPeerV>::empty());
            }
            return Some(peers);
        } else {
            return None;
        }
    }
    proof {
        assert(peers_view(peers@) =~= Seq::<RoomPeerV>::empty());
    }
    while p < v.len()
        invariant
            start < p <= v@.len(),
            spec_peers_from_span(v@, start as int, end as int) == spec_peers_items(
                v@,
                p as int,
                end as int,
                peers_view(peers@),
            ),
        decreases v@.len() - p,
    {
        let ghost acc0 = peers_view(peers@);
        let (es, j) = match parse_object(v, p) { Some(x) => x, None => return None };
        let peer = match peer_from(v, &es) { Some(x) => x, None => return None };
        let ghost pv = peer@;
        peers.push(peer);
        proof {
            assert(peers_view(peers@) =~= acc0.push(pv));
        }
        let o = skip_ws(v, j);
        if o >= v.len() {
            return None;
        }
        if v[o] == ']' {
            if o + 1 == end {
                return Some(peers);
            } else {
                return None;
            }
        }
        if v[o] != ',' {
            return None;
        }
        p = skip_ws(v, o + 1);
    }
    None
}

/// The payload of a recognized tag, out of the fields of its `data` object;
/// an unknown tag or a field failing its shape yields nothing.
pub open spec fn spec_payload(v: Seq<char>, tag: Seq<char>, ds: Seq<(Seq<char>, int, int)>) -> Option<InboundV> {
    if tag == "join-room"@ {
        match (spec_get_str(v, ds, "access_token"@), spec_get_str(v, ds, "code"@)) {
            (Some(access_token), Some(code)) => Some(InboundV::JoinRoom { access_token, code }),
            _ => None,
        }
    } else if tag == "request-accepted"@ {
        match (
            spec_get_str(v, ds, "username"@),
            spec_get_str(v, ds, "user_id"@),
            spec_get_str(v, ds, "code"@),
            spec_find_field(ds, "participants"@),
            spec_find_field(ds, "host"@),
        ) {
            (Some(username), Some(user_id), Some(code), Some(pk), Some(hk)) => {
                match (
                    spec_peers_from_span(v, ds[pk].1, ds[pk].2),
                    spec_host_from_span(v, ds[hk].1, ds[hk].2),
                ) {
                    (Some(participants), Some(host)) => Some(
                        InboundV::RequestAccepted { username, user_id, participants, code, host },
                    ),
                    _ => None,
                }
            },
            _ => None,
        }
    } else if tag == "offer"@ || tag == "answer"@ || tag == "ice-candidate"@ {
        let kind = if tag == "offer"@ {
            RtcKind::Offer
        } else if tag == "answer"@ {
            RtcKind::Answer
        } else {
            RtcKind::IceCandidate
        };
        match (
            spec_get_raw(v, ds, "item"@),
            spec_get_str(v, ds, "to"@),
            spec_get_str(v, ds, "user_id"@),
        ) {
            (Some(item), Some(to), Some(user_id)) => Some(
                InboundV::Rtc { kind, item, to, user_id },
            ),
            _ => None,
        }
    } else if tag == "mouse-move"@ {
        match (
            spec_get_number(v, ds, "x"@),
            spec_get_number(v, ds, "y"@),
            spec_get_str(v, ds, "to"@),
        ) {
            (Some(x), Some(y), Some(to)) => Some(InboundV::MouseMove { x, y, to }),
            _ => None,
        }
    } else if tag == "key-press"@ {
        match (spec_get_str(v, ds, "key"@), spec_get_str(v, ds, "to"@)) {
            (Some(key), Some(to)) => Some(InboundV::KeyPress { key, to }),
            _ => None,
        }
    } else if tag == "mouse-click"@ {
        match spec_get_str(v, ds, "to"@) {
            Some(to) => Some(InboundV::MouseClick { to }),
            None => None,
        }
    } else if tag == "message"@ {
        match (
            spec_get_str(v, ds, "message"@),
            spec_get_str(v, ds, "username"@),
            spec_get_str(v, ds, "id"@),
            spec_get_str(v, ds, "code"@),
        ) {
            (Some(message), Some(username), Some(id), Some(code)) => Some(
                InboundV::Chat { message, username, id, code },
            ),
            _ => None,
        }
    } else if tag == "screen-sharing-started"@ || tag == "screen-sharing-stopped"@ || tag
        == "video-started"@ || tag == "video-stopped"@ {
        let kind = if tag == "screen-sharing-started"@ {
            MediaKind::ScreenSharingStarted
        } else if tag == "screen-sharing-stopped"@ {
            MediaKind::ScreenSharingStopped
        } else if tag == "video-started"@ {
            MediaKind::VideoStarted
        } else {
            MediaKind::VideoStopped
        };
        match (
            spec_get_str(v, ds, "user_id"@),
            spec_get_str(v, ds, "code"@),
            spec_get_bool(v, ds, "host"@),
        ) {
            (Some(user_id), Some(code), Some(host)) => Some(
                InboundV::Media { kind, user_id, code, host },
            ),
            _ => None,
        }
    } else if tag == "leave-room"@ {
        match (spec_get_str(v, ds, "code"@), spec_get_str(v, ds, "user_id"@)) {
            (Some(code), Some(user_id)) => Some(InboundV::LeaveRoom { code, user_id }),
            _ => None,
        }
    } else if tag == "request-access"@ {
        match (
            spec_get_str(v, ds, "to"@),
            spec_get_str(v, ds, "from"@),
            spec_get_str(v, ds, "username"@),
        ) {
            (Some(to), Some(from), Some(username)) => Some(
                InboundV::RequestAccess { to, from, username },
            ),
            _ => None,
        }
    } else if tag == "allowed-access"@ {
        match (
            spec_get_str(v, ds, "code"@),
            spec_get_str(v, ds, "user_id"@),
            spec_get_str(v, ds, "username"@),
        ) {
            (Some(code), Some(user_id), Some(username)) => Some(
                InboundV::AllowedAccess { code, user_id, username },
            ),
            _ => None,
        }
    } else if tag == "rejected-access"@ {
        match (
            spec_get_str(v, ds, "code"@),
            spec_get_str(v, ds, "user_id"@),
            spec_get_str(v, ds, "username"@),
        ) {
            (Some(code), Some(user_id), Some(username)) => Some(
                InboundV::RejectedAccess { code, user_id, username },
            ),
            _ => None,
        }
    } else {
        None
    }
}

/// What an inbound text frame means: the decoded envelope per the catalog,
/// or nothing for anything malformed. The text must be, up to surrounding
/// whitespace, one JSON object with a string `type` and an object `data`
/// holding the fields the tag calls for; every other byte sequence — broken
/// JSON, a missing or unknown tag, a payload failing its shape — decodes to
/// nothing.
pub open spec fn spec_decode_frame(s: Seq<char>) -> Option<InboundV> {
    let i = spec_skip_ws(s, 0);
    match spec_parse_object(s, i) {
        Some((es, j)) => if spec_skip_ws(s, j) == s.len() {
            match spec_find_field(es, "type"@) {
                Some(tk) => match spec_span_string(s, es[tk].1, es[tk].2) {
                    Some(tag) => match spec_find_field(es, "data"@) {
                        Some(dk) => match spec_parse_object(s, es[dk].1) {
                            Some((ds, dj)) => if dj == es[dk].2 {
                                spec_payload(s, tag, ds)
                            } else {
                                None
                            },
                            None => None,
                        },
                        None => None,
                    },
                    None => None,
                },
                None => None,
            }
        } else {
            None
        },
        None => None,
    }
}

/// Decodes one inbound text frame, exactly as `spec_decode_frame` states it:
/// anything that is not a JSON object with a string `type`, an object
/// `data`, and the payload fields the tag calls for yields nothing — the
/// frame is dropped and the connection's loop goes on. An unknown tag is
/// dropped the same way.
#[verifier::rlimit(100)]
pub fn decode_frame(s: &str) -> (r: Option<Inbound>)
    ensures
        r matches Some(m) ==> spec_decode_frame(s@) == Some(m@),
        r is None ==> spec_decode_frame(s@) is None,
{
    let v = str_chars(s);
    let i = skip_ws(&v, 0);
    let (es, j) = match parse_object(&v, i) { Some(x) => x, None => return None };
    let t = skip_ws(&v, j);
    if t != v.len() {
        return None;
    }
    let tk = match find_field(&es, "type") { Some(k) => k, None => return None };
    proof {
        assert(entries_view(es@)[tk as int] == (
            es@[tk as int].key@,
            es@[tk as int].start as int,
            es@[tk as int].end as int,
        ));
    }
    let tag = match span_string(&v, es[tk].start, es[tk].end) { Some(x) => x, None => return None };
    let dk = match find_field(&es, "data") { Some(k) => k, None => return None };
    proof {
        assert(entries_view(es@)[dk as int] == (
            es@[dk as int].key@,
            es@[dk as int].start as int,
            es@[dk as int].end as int,
        ));
    }
    let dstart = es[dk].start;
    let dend = es[dk].end;
    let (ds, dj) = match parse_object(&v, dstart) { Some(x) => x, None => return None };
    if dj != dend {
        return None;
    }
    let ghost dsv = entries_view(ds@);
    if eq_str(&tag, "join-room") {
        let access_token = match get_str(&v, &ds, "access_token") { Some(x) => x, None => return None };
        let code = match get_str(&v, &ds, "code") { Some(x) => x, None => return None };
        Some(Inbound::JoinRoom { access_token, code })
    } else if eq_str(&tag, "request-accepted") {
        let username = match get_str(&v, &ds, "username") { Some(x) => x, None => return None };
        let user_id = match get_str(&v, &ds, "user_id") { Some(x) => x, None => return None };
        let code = match get_str(&v, &ds, "code") { Some(x) => x, None => return None };
        let pk = match find_field(&ds, "participants") { Some(k) => k, None => return None };
        proof {
            assert(dsv[pk as int] == (
                ds@[pk as int].key@,
                ds@[pk as int].start as int,
                ds@[pk as int].end as int,
            ));
        }
        let participants = match peers_from_span(&v, ds[pk].start, ds[pk].end) {
            Some(x) => x,
            None => return None,
        };
        let hk = match find_field(&ds, "host") { Some(k) => k, None => return None };
        proof {
            assert(dsv[hk as int] == (
                ds@[hk as int].key@,
                ds@[hk as int].start as int,
                ds@[hk as int].end as int,
            ));
        }
        let host = match host_from_span(&v, ds[hk].start, ds[hk].end) {
            Some(x) => x,
            None => return None,
        };
        Some(Inbound::RequestAccepted { username, user_id, participants, code, host })
    } else if eq_str(&tag, "offer") || eq_str(&tag, "answer") || eq_str(&tag, "ice-candidate") {
        let kind = if eq_str(&tag, "offer") {
            RtcKind::Offer
        } else if eq_str(&tag, "answer") {
            RtcKind::Answer
        } else {
            RtcKind::IceCandidate
        };
        let item = match get_raw(&v, &ds, "item") { Some(x) => x, None => return None };
        let to = match get_str(&v, &ds, "to") { Some(x) => x, None => return None };
        let user_id = match get_str(&v, &ds, "user_id") { Some(x) => x, None => return None };
        Some(Inbound::Rtc { kind, item, to, user_id })
    } else if eq_str(&tag, "mouse-move") {
        let x = match get_number(&v, &ds, "x") { Some(x) => x, None => return None };
        let y = match get_number(&v, &ds, "y") { Some(x) => x, None => return None };
        let to = match get_str(&v, &ds, "to") { Some(x) => x, None => return None };
        Some(Inbound::MouseMove { x, y, to })
    } else if eq_str(&tag, "key-press") {
        let key = match get_str(&v, &ds, "key") { Some(x) => x, None => return None };
        let to = match get_str(&v, &ds, "to") { Some(x) => x, None => return None };
        Some(Inbound::KeyPress { key, to })
    } else if eq_str(&tag, "mouse-click") {
        let to = match get_str(&v, &ds, "to") { Some(x) => x, None => return None };
        Some(Inbound::MouseClick { to })
    } else if eq_str(&tag, "message") {
        let message = match get_str(&v, &ds, "message") { Some(x) => x, None => return None };
        let username = match get_str(&v, &ds, "username") { Some(x) => x, None => return None };
        let id = match get_str(&v, &ds, "id") { Some(x) => x, None => return None };
        let code = match get_str(&v, &ds, "code") { Some(x) => x, None => return None };
        Some(Inbound::Chat { message, username, id, code })
    } else if eq_str(&tag, "screen-sharing-started") || eq_str(&tag, "screen-sharing-stopped")
        || eq_str(&tag, "video-started") || eq_str(&tag, "video-stopped") {
        let kind = if eq_str(&tag, "screen-sharing-started") {
            MediaKind::ScreenSharingStarted
        } else if eq_str(&tag, "screen-sharing-stopped") {
            MediaKind::ScreenSharingStopped
        } else if eq_str(&tag, "video-started") {
            MediaKind::VideoStarted
        } else {
            MediaKind::VideoStopped
        };
        let user_id = match get_str(&v, &ds, "user_id") { Some(x) => x, None => return None };
        let code = match get_str(&v, &ds, "code") { Some(x) => x, None => return None };
        let host = match get_bool(&v, &ds, "host") { Some(x) => x, None => return None };
        Some(Inbound::Media { kind, user_id, code, host })
    } else if eq_str(&tag, "leave-room") {
        let code = match get_str(&v, &ds, "code") { Some(x) => x, None => return None };
        let user_id = match get_str(&v, &ds, "user_id") { Some(x) => x, None => return None };
        Some(Inbound::LeaveRoom { code, user_id })
    } else if eq_str(&tag, "request-access") {
        let to = match get_str(&v, &ds, "to") { Some(x) => x, None => return None };
        let from = match get_str(&v, &ds, "from") { Some(x) => x, None => return None };
        let username = match get_str(&v, &ds, "username") { Some(x) => x, None => return None };
        Some(Inbound::RequestAccess { to, from, username })
    } else if eq_str(&tag, "allowed-access") {
        let code = match get_str(&v, &ds, "code") { Some(x) => x, None => return None };
        let user_id = match get_str(&v, &ds, "user_id") { Some(x) => x, None => return None };
        let username = match get_str(&v, &ds, "username") { Some(x) => x, None => return None };
        Some(Inbound::AllowedAccess { code, user_id, username })
    } else if eq_str(&tag, "rejected-access") {
        let code = match get_str(&v, &ds, "code") { Some(x) => x, None => return None };
        let user_id = match get_str(&v, &ds, "user_id") { Some(x) => x, None => return None };
        let username = match get_str(&v, &ds, "username") { Some(x) => x, None => return None };
        Some(Inbound::RejectedAccess { code, user_id, username })
    } else {
        None
    }
}

} // verus!
