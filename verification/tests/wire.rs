use signal_hub::codec::{decode_frame, encode_frame};
use signal_hub::msg::{Inbound, MediaKind, Outbound, RtcKind};

#[test]
fn encode_join_request_exact() {
    let f = encode_frame(&Outbound::JoinRequest {
        user_id: "P".to_string(),
        username: "alice".to_string(),
    });
    assert_eq!(f, "{\"message_type\":\"join-request\",\"user_id\":\"P\",\"username\":\"alice\"}");
}

#[test]
fn encode_host_joined_exact() {
    let f = encode_frame(&Outbound::HostJoined {
        user_id: "H".to_string(),
        username: "bob".to_string(),
    });
    assert_eq!(f, "{\"message_type\":\"host-joined\",\"user_id\":\"H\",\"username\":\"bob\"}");
}

#[test]
fn encode_offer_preserves_item_verbatim() {
    let item = "{\"sdp\":\"v=0 o=- 46117 2\",\"type\":\"offer\"}";
    let f = encode_frame(&Outbound::Rtc {
        kind: RtcKind::Offer,
        item: item.to_string(),
        from: "A".to_string(),
        user_id: "B".to_string(),
    });
    assert_eq!(
        f,
        format!(
            "{{\"message_type\":\"offer\",\"item\":{},\"from\":\"A\",\"user_id\":\"B\"}}",
            item
        )
    );
    // the relayed payload is embedded byte for byte
    assert!(f.contains(item));
}

#[test]
fn encode_mouse_move_keeps_raw_numbers() {
    let f = encode_frame(&Outbound::MouseMove { x: "12.25".to_string(), y: "-3e2".to_string() });
    assert_eq!(f, "{\"message_type\":\"mouse-move\",\"x\":12.25,\"y\":-3e2}");
}

#[test]
fn encode_mouse_click_exact() {
    let f = encode_frame(&Outbound::MouseClick);
    assert_eq!(f, "{\"message_type\":\"mouse-click\"}");
}

#[test]
fn encode_escapes_quotes_backslashes_and_controls() {
    let f = encode_frame(&Outbound::KeyPress { key: "a\"b\\c\nd".to_string() });
    assert_eq!(f, "{\"message_type\":\"key-press\",\"key\":\"a\\\"b\\\\c\\u000ad\"}");
    // reading the frame back by the documented field set recovers the value
    let v: serde_json::Value = serde_json::from_str(&f).unwrap();
    assert_eq!(v["key"].as_str().unwrap(), "a\"b\\c\nd");
    assert_eq!(v["message_type"].as_str().unwrap(), "key-press");
}

#[test]
fn outbound_frames_parse_as_json_with_the_documented_fields() {
    let f = encode_frame(&Outbound::Chat {
        message: "hi there".to_string(),
        username: "ann".to_string(),
        id: "U1".to_string(),
    });
    let v: serde_json::Value = serde_json::from_str(&f).unwrap();
    assert_eq!(v["message_type"].as_str().unwrap(), "message");
    assert_eq!(v["message"].as_str().unwrap(), "hi there");
    assert_eq!(v["username"].as_str().unwrap(), "ann");
    assert_eq!(v["id"].as_str().unwrap(), "U1");
}

#[test]
fn encode_media_frame() {
    let f = encode_frame(&Outbound::Media {
        kind: MediaKind::ScreenSharingStarted,
        user_id: "U".to_string(),
        host: true,
    });
    assert_eq!(f, "{\"message_type\":\"screen-sharing-started\",\"user_id\":\"U\",\"host\":true}");
}

#[test]
fn encode_host_left_and_participant_left() {
    let f = encode_frame(&Outbound::HostLeft {
        host: "P2".to_string(),
        username: "pat".to_string(),
    });
    assert_eq!(f, "{\"message_type\":\"host-left\",\"host\":\"P2\",\"username\":\"pat\"}");
    let g = encode_frame(&Outbound::ParticipantLeft { user: "P5".to_string() });
    assert_eq!(g, "{\"message_type\":\"participant-left\",\"user\":\"P5\"}");
}

#[test]
fn decode_join_room() {
    let m = decode_frame(
        "{\"type\":\"join-room\",\"data\":{\"access_token\":\"tok\",\"code\":\"482913\"}}",
    );
    match m {
        Some(Inbound::JoinRoom { access_token, code }) => {
            assert_eq!(access_token, "tok");
            assert_eq!(code, "482913");
        }
        _ => panic!("expected a join"),
    }
}

#[test]
fn decode_tolerates_whitespace_field_order_and_extra_fields() {
    let m = decode_frame(
        " { \"data\" : { \"to\": \"B\", \"extra\": [1, {\"x\": null}, true], \"key\": \"K\" } , \"type\": \"key-press\" } ",
    );
    match m {
        Some(Inbound::KeyPress { key, to }) => {
            assert_eq!(key, "K");
            assert_eq!(to, "B");
        }
        _ => panic!("expected a key press"),
    }
}

#[test]
fn decode_offer_keeps_item_raw() {
    let m = decode_frame(
        "{\"type\":\"offer\",\"data\":{\"item\":{\"sdp\":\"x\"},\"to\":\"B\",\"user_id\":\"A\"}}",
    );
    match m {
        Some(Inbound::Rtc { kind, item, to, user_id }) => {
            assert_eq!(kind, RtcKind::Offer);
            assert_eq!(item, "{\"sdp\":\"x\"}");
            assert_eq!(to, "B");
            assert_eq!(user_id, "A");
        }
        _ => panic!("expected an offer"),
    }
}

#[test]
fn decode_request_accepted_with_participants() {
    let m = decode_frame(
        "{\"type\":\"request-accepted\",\"data\":{\"username\":\"ann\",\"user_id\":\"U9\",\"code\":\"111111\",\"participants\":[{\"username\":\"p1\",\"id\":\"A\",\"video\":true},{\"username\":\"p2\",\"id\":\"B\",\"video\":false}],\"host\":{\"username\":\"h\",\"id\":\"H\",\"video\":true,\"screen\":false}}}",
    );
    match m {
        Some(Inbound::RequestAccepted { username, user_id, participants, code, host }) => {
            assert_eq!(username, "ann");
            assert_eq!(user_id, "U9");
            assert_eq!(code, "111111");
            assert_eq!(participants.len(), 2);
            assert_eq!(participants[0].id, "A");
            assert!(participants[0].video);
            assert_eq!(participants[1].username, "p2");
            assert_eq!(host.id, "H");
            assert!(host.video);
            assert!(!host.screen);
        }
        _ => panic!("expected an acceptance"),
    }
}

#[test]
fn decode_unescapes_strings() {
    let m = decode_frame(
        "{\"type\":\"message\",\"data\":{\"message\":\"a\\\"b\\\\c\\nd \\u0041\",\"username\":\"n\",\"id\":\"I\",\"code\":\"C\"}}",
    );
    match m {
        Some(Inbound::Chat { message, .. }) => assert_eq!(message, "a\"b\\c\nd A"),
        _ => panic!("expected a chat message"),
    }
}

#[test]
fn decode_surrogate_pair_escape() {
    let m = decode_frame(
        "{\"type\":\"key-press\",\"data\":{\"key\":\"\\uD83D\\uDE00\",\"to\":\"B\"}}",
    );
    match m {
        Some(Inbound::KeyPress { key, .. }) => assert_eq!(key, "\u{1F600}"),
        _ => panic!("expected a key press"),
    }
}

#[test]
fn non_json_bytes_yield_nothing() {
    assert!(decode_frame("not json at all").is_none());
    assert!(decode_frame("").is_none());
    assert!(decode_frame("{\"type\":\"join-room\"").is_none());
    assert!(decode_frame("\u{0}\u{1}garbage\u{7f}").is_none());
}

#[test]
fn unknown_or_missing_type_yields_nothing() {
    assert!(decode_frame("{\"type\":\"no-such-kind\",\"data\":{}}").is_none());
    assert!(decode_frame("{\"data\":{\"to\":\"B\"}}").is_none());
    assert!(decode_frame("{\"type\":42,\"data\":{}}").is_none());
    assert!(decode_frame("{\"type\":\"key-press\",\"data\":\"not an object\"}").is_none());
}

#[test]
fn payload_schema_mismatch_yields_nothing() {
    // key-press without its `to`
    assert!(decode_frame("{\"type\":\"key-press\",\"data\":{\"key\":\"K\"}}").is_none());
    // mouse-move with a string where a number belongs
    assert!(
        decode_frame(
            "{\"type\":\"mouse-move\",\"data\":{\"x\":\"a\",\"y\":2,\"to\":\"B\"}}"
        )
        .is_none()
    );
    // trailing text after the envelope
    assert!(decode_frame("{\"type\":\"mouse-click\",\"data\":{\"to\":\"B\"}} tail").is_none());
}

#[test]
fn decode_all_relay_tags() {
    for (tag, kind) in [
        ("offer", RtcKind::Offer),
        ("answer", RtcKind::Answer),
        ("ice-candidate", RtcKind::IceCandidate),
    ] {
        let frame = format!(
            "{{\"type\":\"{}\",\"data\":{{\"item\":7,\"to\":\"B\",\"user_id\":\"A\"}}}}",
            tag
        );
        match decode_frame(&frame) {
            Some(Inbound::Rtc { kind: k, item, .. }) => {
                assert_eq!(k, kind);
                assert_eq!(item, "7");
            }
            _ => panic!("expected a relay"),
        }
    }
}

#[test]
fn decode_media_and_leave_and_access() {
    match decode_frame(
        "{\"type\":\"video-stopped\",\"data\":{\"user_id\":\"U\",\"code\":\"C\",\"host\":false}}",
    ) {
        Some(Inbound::Media { kind, host, .. }) => {
            assert_eq!(kind, MediaKind::VideoStopped);
            assert!(!host);
        }
        _ => panic!("expected a media event"),
    }
    match decode_frame("{\"type\":\"leave-room\",\"data\":{\"code\":\"C\",\"user_id\":\"U\"}}") {
        Some(Inbound::LeaveRoom { code, user_id }) => {
            assert_eq!(code, "C");
            assert_eq!(user_id, "U");
        }
        _ => panic!("expected a departure"),
    }
    match decode_frame(
        "{\"type\":\"rejected-access\",\"data\":{\"code\":\"C\",\"user_id\":\"U\",\"username\":\"n\"}}",
    ) {
        Some(Inbound::RejectedAccess { user_id, .. }) => assert_eq!(user_id, "U"),
        _ => panic!("expected a rejection"),
    }
}

#[test]
fn the_next_valid_frame_after_garbage_still_decodes() {
    assert!(decode_frame("\u{1}\u{2}not json").is_none());
    let m = decode_frame("{\"type\":\"mouse-click\",\"data\":{\"to\":\"B\"}}");
    assert!(matches!(m, Some(Inbound::MouseClick { .. })));
}

#[test]
fn decode_mouse_move_keeps_raw_coordinates() {
    let m = decode_frame(
        "{\"type\":\"mouse-move\",\"data\":{\"x\":12.25,\"y\":-3e2,\"to\":\"B\"}}",
    );
    match m {
        Some(Inbound::MouseMove { x, y, to }) => {
            assert_eq!(x, "12.25");
            assert_eq!(y, "-3e2");
            assert_eq!(to, "B");
        }
        _ => panic!("expected a pointer move"),
    }
}
