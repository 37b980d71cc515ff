use signal_hub::auth::verify_access_token;
use signal_hub::codec::encode_frame;
use signal_hub::codes::generate_code;
use signal_hub::models::User;
use signal_hub::msg::{Inbound, Outbound, RtcKind, StoreCommand};
use signal_hub::registry::ConnectionRegistry;
use signal_hub::room::Room;
use signal_hub::router::{
    host_left_deliveries, join_request_delivery, join_room_respond, plan_frame, plan_with_room,
    resolve_deliveries, FramePlan, JoinRespond, LeavePlan, RoomPlan,
};

fn room(code: &str, host: &str, participants: &[&str]) -> Room {
    Room {
        code: code.to_string(),
        host_id: host.to_string(),
        participants: participants.iter().map(|p| p.to_string()).collect(),
    }
}

fn make_token(sub: &str, username: &str, secret: &str) -> String {
    let mut claims = serde_json::Map::new();
    claims.insert("sub".to_string(), serde_json::Value::String(sub.to_string()));
    claims.insert(
        "username".to_string(),
        serde_json::Value::String(username.to_string()),
    );
    claims.insert(
        "email".to_string(),
        serde_json::Value::String(format!("{}@example.com", username)),
    );
    let exp = std::time::SystemTime::now()
        .duration_since(std::time::UNIX_EPOCH)
        .unwrap()
        .as_secs()
        + 3600;
    claims.insert("exp".to_string(), serde_json::Value::Number(exp.into()));
    jsonwebtoken::encode(
        &jsonwebtoken::Header::default(),
        &serde_json::Value::Object(claims),
        &jsonwebtoken::EncodingKey::from_secret(secret.as_bytes()),
    )
    .unwrap()
}

#[test]
fn rebinding_a_user_keeps_only_the_later_connection() {
    let mut reg = ConnectionRegistry::new();
    assert!(reg.register(1));
    assert!(reg.register(2));
    assert_eq!(reg.bind("U".to_string(), 1), None);
    let displaced = reg.bind("U".to_string(), 2);
    assert_eq!(displaced, Some(1));
    assert_eq!(reg.lookup(&"U".to_string()), Some(2));
}

#[test]
fn register_rejects_a_duplicate_id() {
    let mut reg = ConnectionRegistry::new();
    assert!(reg.register(7));
    assert!(!reg.register(7));
    assert!(reg.contains_conn(7));
}

#[test]
fn unregister_clears_connection_and_bindings() {
    let mut reg = ConnectionRegistry::new();
    assert!(reg.register(1));
    assert!(reg.register(2));
    reg.bind("U".to_string(), 1);
    reg.bind("V".to_string(), 2);
    reg.unregister(1);
    assert!(!reg.contains_conn(1));
    assert!(reg.contains_conn(2));
    assert_eq!(reg.lookup(&"U".to_string()), None);
    assert_eq!(reg.lookup(&"V".to_string()), Some(2));
}

#[test]
fn register_fresh_hands_out_a_live_id() {
    let mut reg = ConnectionRegistry::new();
    let id = reg.register_fresh().unwrap();
    assert!(reg.contains_conn(id));
}

#[test]
fn adding_a_participant_twice_lists_it_once() {
    let mut r = room("482913", "H", &[]);
    r.add_participant("P".to_string());
    r.add_participant("P".to_string());
    assert_eq!(r.participants, vec!["P".to_string()]);
}

#[test]
fn the_host_is_never_added_as_a_participant() {
    let mut r = room("482913", "H", &["P"]);
    r.add_participant("H".to_string());
    assert_eq!(r.participants, vec!["P".to_string()]);
}

#[test]
fn removing_a_participant_keeps_order() {
    let mut r = room("c", "H", &["A", "B", "C"]);
    r.remove_participant(&"B".to_string());
    assert_eq!(r.participants, vec!["A".to_string(), "C".to_string()]);
}

// A participant with a valid token joins a room held by another host: the
// presence binding is created and the host's connection receives exactly one
// join-request frame; the store is not touched.
#[test]
fn scenario_join_request_reaches_the_host() {
    let secret = "test-secret";
    let token = make_token("P", "alice", secret);
    let mut reg = ConnectionRegistry::new();
    assert!(reg.register(10)); // P's connection
    assert!(reg.register(11)); // H's connection
    reg.bind("H".to_string(), 11);

    let frame = format!(
        "{{\"type\":\"join-room\",\"data\":{{\"access_token\":\"{}\",\"code\":\"482913\"}}}}",
        token
    );
    let msg = signal_hub::codec::decode_frame(&frame).expect("the envelope decodes");
    let (access_token, code) = match plan_frame(msg) {
        FramePlan::Join { access_token, code } => (access_token, code),
        _ => panic!("a join plan"),
    };
    assert_eq!(code, "482913");

    let claims =
        signal_hub::router::join_authenticate(&mut reg, 10, &access_token, secret).unwrap();
    assert_eq!(claims.sub, "P");
    assert_eq!(claims.username, "alice");
    assert_eq!(reg.lookup(&"P".to_string()), Some(10));

    let r = room("482913", "H", &[]);
    let host_id = match join_room_respond(&r, &claims.sub, &claims.username) {
        JoinRespond::NeedHostUser { host_id } => host_id,
        _ => panic!("the joiner is not the host"),
    };
    assert_eq!(host_id, "H");
    let host_user = User {
        id: Some("H".to_string()),
        username: "bob".to_string(),
        email: "bob@example.com".to_string(),
        password: "x".to_string(),
    };
    let delivery = join_request_delivery(&claims.sub, &claims.username, &host_user).unwrap();
    let sent = resolve_deliveries(&reg, &vec![delivery]);
    assert_eq!(sent.len(), 1);
    assert_eq!(sent[0].0, 11);
    assert_eq!(
        sent[0].1,
        "{\"message_type\":\"join-request\",\"user_id\":\"P\",\"username\":\"alice\"}"
    );
}

#[test]
fn joining_host_notifies_itself() {
    let r = room("482913", "H", &[]);
    match join_room_respond(&r, &"H".to_string(), &"bob".to_string()) {
        JoinRespond::SelfNotify { delivery } => {
            assert_eq!(delivery.to, "H");
            assert_eq!(
                encode_frame(&delivery.message),
                "{\"message_type\":\"host-joined\",\"user_id\":\"H\",\"username\":\"bob\"}"
            );
        }
        _ => panic!("the joiner is the host"),
    }
}

// The host of a room with participants [P2, P3] leaves: the store records
// P2 as host with [P3] remaining, and both P2 and P3 receive host-left.
#[test]
fn scenario_host_leaves_and_first_participant_is_promoted() {
    let mut r = room("555555", "H", &["P2", "P3"]);
    let msg = Inbound::LeaveRoom { code: "555555".to_string(), user_id: "H".to_string() };
    let plan = match plan_with_room(&msg, &r) {
        RoomPlan::Leave { plan } => plan,
        _ => panic!("a departure plan"),
    };
    let (commands, new_host) = match plan {
        LeavePlan::PromoteHost { commands, new_host } => (commands, new_host),
        _ => panic!("a promotion"),
    };
    assert_eq!(new_host, "P2");
    assert_eq!(commands.len(), 2);
    // the store executes the commands in order
    for c in &commands {
        match c {
            StoreCommand::RemoveParticipant { code, user_id } => {
                assert_eq!(code, "555555");
                r.remove_participant(user_id);
            }
            StoreCommand::SetHost { code, user_id } => {
                assert_eq!(code, "555555");
                r.host_id = user_id.clone();
            }
            _ => panic!("only removal and host change"),
        }
    }
    assert_eq!(r.host_id, "P2");
    assert_eq!(r.participants, vec!["P3".to_string()]);

    // the broadcast goes to the room as it stood at the departure
    let old = room("555555", "H", &["P2", "P3"]);
    let ds = host_left_deliveries(&old, &new_host, &"pat".to_string());
    let mut reg = ConnectionRegistry::new();
    assert!(reg.register(2));
    assert!(reg.register(3));
    reg.bind("P2".to_string(), 2);
    reg.bind("P3".to_string(), 3);
    let sent = resolve_deliveries(&reg, &ds);
    assert_eq!(sent.len(), 2);
    for (conn, frame) in &sent {
        assert!(*conn == 2 || *conn == 3);
        assert_eq!(
            frame,
            "{\"message_type\":\"host-left\",\"host\":\"P2\",\"username\":\"pat\"}"
        );
    }
}

// The host of an empty room leaves: the room is deleted and nothing is sent.
#[test]
fn scenario_host_leaves_empty_room() {
    let r = room("777777", "H", &[]);
    let msg = Inbound::LeaveRoom { code: "777777".to_string(), user_id: "H".to_string() };
    match plan_with_room(&msg, &r) {
        RoomPlan::Leave { plan: LeavePlan::DeleteRoom { commands } } => {
            assert_eq!(commands.len(), 1);
            match &commands[0] {
                StoreCommand::DeleteRoom { code } => assert_eq!(code, "777777"),
                _ => panic!("a deletion"),
            }
        }
        _ => panic!("the room is deleted"),
    }
}

#[test]
fn participant_departure_notifies_the_rest_and_the_host() {
    let r = room("c", "H", &["A", "B", "C"]);
    let msg = Inbound::LeaveRoom { code: "c".to_string(), user_id: "B".to_string() };
    let (commands, ds) = match plan_with_room(&msg, &r) {
        RoomPlan::Leave { plan: LeavePlan::ParticipantLeft { commands, deliveries } } => {
            (commands, deliveries)
        }
        _ => panic!("a participant departure"),
    };
    assert_eq!(commands.len(), 1);
    let tos: Vec<String> = ds.iter().map(|d| d.to.clone()).collect();
    assert_eq!(tos, vec!["A".to_string(), "C".to_string(), "H".to_string()]);
    for d in &ds {
        assert_eq!(
            encode_frame(&d.message),
            "{\"message_type\":\"participant-left\",\"user\":\"B\"}"
        );
    }
}

// An offer whose destination has no presence binding: nothing goes out and
// nothing fails.
#[test]
fn scenario_offer_to_unbound_user_sends_nothing() {
    let msg = Inbound::Rtc {
        kind: RtcKind::Offer,
        item: "{\"sdp\":\"x\"}".to_string(),
        to: "B".to_string(),
        user_id: "A".to_string(),
    };
    let delivery = match plan_frame(msg) {
        FramePlan::Unicast { delivery } => delivery,
        _ => panic!("a unicast"),
    };
    let mut reg = ConnectionRegistry::new();
    assert!(reg.register(1));
    reg.bind("A".to_string(), 1);
    let sent = resolve_deliveries(&reg, &vec![delivery]);
    assert!(sent.is_empty());
}

#[test]
fn a_binding_to_a_dead_connection_is_skipped() {
    let mut reg = ConnectionRegistry::new();
    assert!(reg.register(5));
    reg.bind("B".to_string(), 5);
    reg.unregister(5);
    let msg = Inbound::MouseClick { to: "B".to_string() };
    let delivery = match plan_frame(msg) {
        FramePlan::Unicast { delivery } => delivery,
        _ => panic!("a unicast"),
    };
    let sent = resolve_deliveries(&reg, &vec![delivery]);
    assert!(sent.is_empty());
}

#[test]
fn chat_fans_out_to_participants_and_host() {
    let r = room("c", "H", &["A", "B"]);
    let msg = Inbound::Chat {
        message: "hello".to_string(),
        username: "ann".to_string(),
        id: "A".to_string(),
        code: "c".to_string(),
    };
    let ds = match plan_with_room(&msg, &r) {
        RoomPlan::Deliver { deliveries } => deliveries,
        _ => panic!("a fan-out"),
    };
    let tos: Vec<String> = ds.iter().map(|d| d.to.clone()).collect();
    assert_eq!(tos, vec!["A".to_string(), "B".to_string(), "H".to_string()]);
}

#[test]
fn screen_share_fans_out_to_participants_only() {
    let r = room("c", "H", &["A", "B"]);
    let msg = Inbound::Media {
        kind: signal_hub::msg::MediaKind::ScreenSharingStarted,
        user_id: "H".to_string(),
        code: "c".to_string(),
        host: true,
    };
    let ds = match plan_with_room(&msg, &r) {
        RoomPlan::Deliver { deliveries } => deliveries,
        _ => panic!("a fan-out"),
    };
    let tos: Vec<String> = ds.iter().map(|d| d.to.clone()).collect();
    assert_eq!(tos, vec!["A".to_string(), "B".to_string()]);
}

#[test]
fn acceptance_plans_two_store_commands_then_announcements() {
    let msg = signal_hub::codec::decode_frame(
        "{\"type\":\"request-accepted\",\"data\":{\"username\":\"ann\",\"user_id\":\"U9\",\"code\":\"111111\",\"participants\":[{\"username\":\"p1\",\"id\":\"A\",\"video\":true}],\"host\":{\"username\":\"h\",\"id\":\"H\",\"video\":true,\"screen\":false}}}",
    )
    .unwrap();
    let (commands, ds) = match plan_frame(msg) {
        FramePlan::Accepted { commands, deliveries } => (commands, deliveries),
        _ => panic!("an acceptance"),
    };
    assert_eq!(commands.len(), 2);
    match &commands[0] {
        StoreCommand::AddParticipantToRoom { code, user_id } => {
            assert_eq!(code, "111111");
            assert_eq!(user_id, "U9");
        }
        _ => panic!("the list insert comes first"),
    }
    match &commands[1] {
        StoreCommand::AddParticipantRecord { code, user_id } => {
            assert_eq!(code, "111111");
            assert_eq!(user_id, "U9");
        }
        _ => panic!("the record insert comes second"),
    }
    assert_eq!(ds.len(), 3);
    assert_eq!(ds[0].to, "A");
    assert_eq!(ds[1].to, "H");
    assert_eq!(ds[2].to, "U9");
    assert_eq!(
        encode_frame(&ds[0].message),
        "{\"message_type\":\"new-participant\",\"username\":\"ann\",\"user_id\":\"U9\",\"participant\":\"A\",\"host\":{\"username\":\"h\",\"id\":\"H\",\"video\":true,\"screen\":false}}"
    );
    assert_eq!(
        encode_frame(&ds[2].message),
        "{\"message_type\":\"participant-joined\",\"username\":\"ann\",\"user_id\":\"U9\",\"participants\":[{\"username\":\"p1\",\"id\":\"A\",\"video\":true}],\"host\":{\"username\":\"h\",\"id\":\"H\",\"video\":true,\"screen\":false}}"
    );
}

#[test]
fn rejected_access_answers_the_requester_with_an_allowed_access_tag() {
    let msg = Inbound::RejectedAccess {
        code: "c".to_string(),
        user_id: "U".to_string(),
        username: "n".to_string(),
    };
    match plan_frame(msg) {
        FramePlan::Unicast { delivery } => {
            assert_eq!(delivery.to, "U");
            assert_eq!(
                encode_frame(&delivery.message),
                "{\"message_type\":\"allowed-access\",\"user_id\":\"U\",\"username\":\"n\"}"
            );
        }
        _ => panic!("a unicast"),
    }
}

#[test]
fn a_valid_token_verifies_and_a_forged_or_garbled_one_does_not() {
    let secret = "s3cr3t";
    let token = make_token("U1", "ann", secret);
    let claims = verify_access_token(&token, secret).unwrap();
    assert_eq!(claims.sub, "U1");
    assert_eq!(claims.username, "ann");
    assert_eq!(claims.email, "ann@example.com");
    assert!(verify_access_token(&token, "other-secret").is_none());
    assert!(verify_access_token("not.a.token", secret).is_none());
}

#[test]
fn room_codes_are_six_digits() {
    for _ in 0..64 {
        let code = generate_code();
        assert_eq!(code.len(), 6);
        assert!(code.chars().all(|c| c.is_ascii_digit()));
        let n: u32 = code.parse().unwrap();
        assert!((100000..999999).contains(&n));
    }
}

#[test]
fn check_wf_spots_broken_records() {
    assert!(room("c", "H", &["A", "B"]).check_wf());
    assert!(!room("c", "H", &["A", "A"]).check_wf());
    assert!(!room("c", "H", &["H"]).check_wf());
}

#[test]
fn request_access_is_relayed_to_its_target() {
    let msg = Inbound::RequestAccess {
        to: "T".to_string(),
        from: "F".to_string(),
        username: "n".to_string(),
    };
    match plan_frame(msg) {
        FramePlan::Unicast { delivery } => {
            assert_eq!(delivery.to, "T");
            assert_eq!(
                encode_frame(&delivery.message),
                "{\"message_type\":\"request-access\",\"user_id\":\"F\",\"username\":\"n\"}"
            );
        }
        _ => panic!("a unicast"),
    }
}

#[test]
fn allowed_access_fans_out_to_participants_only() {
    let r = room("c", "H", &["A", "B"]);
    let msg = Inbound::AllowedAccess {
        code: "c".to_string(),
        user_id: "U".to_string(),
        username: "n".to_string(),
    };
    let ds = match plan_with_room(&msg, &r) {
        RoomPlan::Deliver { deliveries } => deliveries,
        _ => panic!("a fan-out"),
    };
    let tos: Vec<String> = ds.iter().map(|d| d.to.clone()).collect();
    assert_eq!(tos, vec!["A".to_string(), "B".to_string()]);
    for d in &ds {
        assert_eq!(
            encode_frame(&d.message),
            "{\"message_type\":\"allowed-access\",\"user_id\":\"U\",\"username\":\"n\"}"
        );
    }
}

#[test]
fn a_leave_for_an_absent_user_notifies_list_and_host_unchanged() {
    let r = room("c", "H", &["A"]);
    let msg = Inbound::LeaveRoom { code: "c".to_string(), user_id: "Z".to_string() };
    let (commands, ds) = match plan_with_room(&msg, &r) {
        RoomPlan::Leave { plan: LeavePlan::ParticipantLeft { commands, deliveries } } => {
            (commands, deliveries)
        }
        _ => panic!("a participant departure"),
    };
    assert_eq!(commands.len(), 1);
    let tos: Vec<String> = ds.iter().map(|d| d.to.clone()).collect();
    assert_eq!(tos, vec!["A".to_string(), "H".to_string()]);
}

#[test]
fn video_events_also_reach_the_host() {
    let r = room("c", "H", &["A", "B"]);
    let msg = Inbound::Media {
        kind: signal_hub::msg::MediaKind::VideoStarted,
        user_id: "A".to_string(),
        code: "c".to_string(),
        host: false,
    };
    let ds = match plan_with_room(&msg, &r) {
        RoomPlan::Deliver { deliveries } => deliveries,
        _ => panic!("a fan-out"),
    };
    let tos: Vec<String> = ds.iter().map(|d| d.to.clone()).collect();
    assert_eq!(tos, vec!["A".to_string(), "B".to_string(), "H".to_string()]);
}
