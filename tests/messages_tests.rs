use webrtc_signaling::codec::{
    decode_client_message, decode_server_message, encode_client_message, encode_server_message,
};
use webrtc_signaling::messages::{ClientMessage, Participant, ServerMessage};
use webrtc_signaling::wire::{Document, JsonValue};

fn doc(members: Vec<(&str, JsonValue)>) -> Document {
    Document { members: members.into_iter().map(|(k, v)| (k.to_string(), v)).collect() }
}

fn text(s: &str) -> JsonValue {
    JsonValue::Text(s.to_string())
}

#[test]
fn test_client_message_auth_serialization() {
    let msg = ClientMessage::Auth { token: "test_token_123".to_string() };

    let json = encode_client_message(&msg);
    assert_eq!(json.text("type"), Some("auth".to_string()));
    assert_eq!(json.text("token"), Some("test_token_123".to_string()));

    match decode_client_message(&json).unwrap() {
        ClientMessage::Auth { token } => assert_eq!(token, "test_token_123"),
        _ => panic!("Wrong message type"),
    }
}

#[test]
fn test_client_message_join_room_serialization() {
    let msg = ClientMessage::JoinRoom {
        room_name: "test_room".to_string(),
        password: Some("secret".to_string()),
    };

    let json = encode_client_message(&msg);
    assert_eq!(json.text("type"), Some("join-room".to_string()));
    assert_eq!(json.text("roomName"), Some("test_room".to_string()));
    assert_eq!(json.text("password"), Some("secret".to_string()));

    match decode_client_message(&json).unwrap() {
        ClientMessage::JoinRoom { room_name, password } => {
            assert_eq!(room_name, "test_room");
            assert_eq!(password, Some("secret".to_string()));
        }
        _ => panic!("Wrong message type"),
    }
}

#[test]
fn test_client_message_join_room_without_password() {
    let msg = ClientMessage::JoinRoom { room_name: "public_room".to_string(), password: None };

    let json = encode_client_message(&msg);
    assert!(json.get("password").is_none());
    match decode_client_message(&json).unwrap() {
        ClientMessage::JoinRoom { room_name, password } => {
            assert_eq!(room_name, "public_room");
            assert_eq!(password, None);
        }
        _ => panic!("Wrong message type"),
    }
}

#[test]
fn test_client_message_leave_room_serialization() {
    let msg = ClientMessage::LeaveRoom { room_name: "test_room".to_string() };

    let json = encode_client_message(&msg);
    assert_eq!(json.text("type"), Some("leave-room".to_string()));
    assert_eq!(json.text("roomName"), Some("test_room".to_string()));

    match decode_client_message(&json).unwrap() {
        ClientMessage::LeaveRoom { room_name } => assert_eq!(room_name, "test_room"),
        _ => panic!("Wrong message type"),
    }
}

#[test]
fn test_client_message_offer_serialization() {
    let msg = ClientMessage::Offer {
        room_name: "test_room".to_string(),
        sdp: "offer_sdp_data".to_string(),
        target_user_id: Some(123),
    };

    let json = encode_client_message(&msg);
    assert_eq!(json.text("type"), Some("offer".to_string()));
    assert_eq!(json.text("roomName"), Some("test_room".to_string()));
    assert_eq!(json.text("sdp"), Some("offer_sdp_data".to_string()));
    assert_eq!(json.id("targetUserId"), Some(123));
}

#[test]
fn test_client_message_answer_serialization() {
    let msg = ClientMessage::Answer {
        room_name: "test_room".to_string(),
        sdp: "answer_sdp_data".to_string(),
        target_user_id: 456,
    };

    let json = encode_client_message(&msg);
    assert_eq!(json.text("type"), Some("answer".to_string()));
    assert_eq!(json.id("targetUserId"), Some(456));
}

#[test]
fn test_client_message_ice_candidate_serialization() {
    let msg = ClientMessage::IceCandidate {
        room_name: "test_room".to_string(),
        candidate: "ice_candidate_data".to_string(),
        sdp_mid: Some("audio".to_string()),
        sdp_mline_index: Some(0),
        target_user_id: Some(789),
    };

    let json = encode_client_message(&msg);
    assert_eq!(json.text("type"), Some("ice-candidate".to_string()));
    assert_eq!(json.text("candidate"), Some("ice_candidate_data".to_string()));
    assert_eq!(json.text("sdpMid"), Some("audio".to_string()));
    assert_eq!(json.id("sdpMLineIndex"), Some(0));
    assert_eq!(json.id("targetUserId"), Some(789));
}

#[test]
fn test_server_message_authenticated_serialization() {
    let msg = ServerMessage::Authenticated { user_id: 123, username: "testuser".to_string() };

    let json = encode_server_message(&msg);
    assert_eq!(json.text("type"), Some("authenticated".to_string()));
    assert_eq!(json.id("userId"), Some(123));
    assert_eq!(json.text("username"), Some("testuser".to_string()));

    match decode_server_message(&json).unwrap() {
        ServerMessage::Authenticated { user_id, username } => {
            assert_eq!(user_id, 123);
            assert_eq!(username, "testuser");
        }
        _ => panic!("Wrong message type"),
    }
}

#[test]
fn test_server_message_room_joined_serialization() {
    let participants = vec![
        Participant { user_id: 1, username: "user1".to_string() },
        Participant { user_id: 2, username: "user2".to_string() },
    ];

    let msg = ServerMessage::RoomJoined { room_name: "test_room".to_string(), user_id: 123, participants };

    let json = encode_server_message(&msg);
    assert_eq!(json.text("type"), Some("room-joined".to_string()));
    assert_eq!(json.text("roomName"), Some("test_room".to_string()));
    assert_eq!(json.id("userId"), Some(123));
    assert!(matches!(json.get("participants"), Some(JsonValue::Array(a)) if a.len() == 2));
}

#[test]
fn test_server_message_user_joined_serialization() {
    let user = Participant { user_id: 456, username: "newuser".to_string() };

    let msg = ServerMessage::UserJoined { room_name: "test_room".to_string(), user };

    let json = encode_server_message(&msg);
    assert_eq!(json.text("type"), Some("user-joined".to_string()));
    match decode_server_message(&json).unwrap() {
        ServerMessage::UserJoined { user, .. } => {
            assert_eq!(user.user_id, 456);
            assert_eq!(user.username, "newuser");
        }
        _ => panic!("Wrong message type"),
    }
}

#[test]
fn test_server_message_error_creation() {
    let error_msg = ServerMessage::error("Something went wrong");

    match error_msg {
        ServerMessage::Error { message, code } => {
            assert_eq!(message, "Something went wrong");
            assert_eq!(code, None);
        }
        _ => panic!("Wrong message type"),
    }
}

#[test]
fn test_server_message_error_with_code_creation() {
    let error_msg = ServerMessage::error_with_code("Auth failed", 401);

    match error_msg {
        ServerMessage::Error { message, code } => {
            assert_eq!(message, "Auth failed");
            assert_eq!(code, Some(401));
        }
        _ => panic!("Wrong message type"),
    }
}

#[test]
fn test_message_deserialization_from_client_json() {
    let auth_json = doc(vec![("type", text("auth")), ("token", text("abc123"))]);
    match decode_client_message(&auth_json) {
        Some(ClientMessage::Auth { token }) => assert_eq!(token, "abc123"),
        _ => panic!("Failed to parse auth message"),
    }

    let join_json =
        doc(vec![("type", text("join-room")), ("roomName", text("myroom")), ("password", text("secret"))]);
    match decode_client_message(&join_json) {
        Some(ClientMessage::JoinRoom { room_name, password }) => {
            assert_eq!(room_name, "myroom");
            assert_eq!(password, Some("secret".to_string()));
        }
        _ => panic!("Failed to parse join room message"),
    }
}

#[test]
fn test_invalid_message_deserialization() {
    let invalid_json = doc(vec![("type", text("unknown")), ("data", text("test"))]);
    assert!(decode_client_message(&invalid_json).is_none());

    let missing_field = doc(vec![("type", text("auth"))]);
    assert!(decode_client_message(&missing_field).is_none());
}

#[test]
fn member_order_and_unknown_members_do_not_matter() {
    let d = doc(vec![
        ("extra", JsonValue::Other),
        ("roomName", text("r1")),
        ("type", text("leave-room")),
    ]);
    match decode_client_message(&d) {
        Some(ClientMessage::LeaveRoom { room_name }) => assert_eq!(room_name, "r1"),
        _ => panic!("expected leave-room"),
    }
}

#[test]
fn ill_typed_or_oversized_members_are_refused() {
    let d = doc(vec![("type", text("answer")), ("roomName", text("r")), ("sdp", text("s")), ("targetUserId", text("7"))]);
    assert!(decode_client_message(&d).is_none());
    let d = doc(vec![
        ("type", text("answer")),
        ("roomName", text("r")),
        ("sdp", text("s")),
        ("targetUserId", JsonValue::Number(4_294_967_296)),
    ]);
    assert!(decode_client_message(&d).is_none());
    let d = doc(vec![("type", text("join-room")), ("roomName", text("r")), ("password", JsonValue::Number(1))]);
    assert!(decode_client_message(&d).is_none());
}

#[test]
fn every_server_frame_round_trips() {
    let frames = vec![
        ServerMessage::RoomLeft { room_name: "r".to_string(), user_id: 1 },
        ServerMessage::UserLeft { room_name: "r".to_string(), user_id: 2 },
        ServerMessage::Offer { room_name: "r".to_string(), from_user_id: 3, sdp: "o".to_string() },
        ServerMessage::Answer { room_name: "r".to_string(), from_user_id: 4, sdp: "a".to_string() },
        ServerMessage::IceCandidate {
            room_name: "r".to_string(),
            from_user_id: 5,
            candidate: "c".to_string(),
            sdp_mid: None,
            sdp_mline_index: Some(2),
        },
        ServerMessage::error_with_code("bad", 400),
        ServerMessage::RoomJoined { room_name: "r".to_string(), user_id: 9, participants: vec![] },
    ];
    for f in frames {
        let back = decode_server_message(&encode_server_message(&f)).unwrap();
        assert_eq!(format!("{:?}", back), format!("{:?}", f));
    }
}

#[test]
fn every_client_frame_round_trips() {
    let frames = vec![
        ClientMessage::Offer { room_name: "r".to_string(), sdp: "o".to_string(), target_user_id: None },
        ClientMessage::IceCandidate {
            room_name: "r".to_string(),
            candidate: "c".to_string(),
            sdp_mid: None,
            sdp_mline_index: None,
            target_user_id: None,
        },
    ];
    for f in frames {
        let back = decode_client_message(&encode_client_message(&f)).unwrap();
        assert_eq!(format!("{:?}", back), format!("{:?}", f));
    }
}
