use webrtc_signaling::auth::AuthenticatedUser;
use webrtc_signaling::messages::{ClientMessage, Participant, ServerMessage};
use webrtc_signaling::room::ConnectionId;
use webrtc_signaling::server::{
    answer, Outcome,
    authentication_reply, authentication_token, handle_client_message, join_reply, leave_reply, membership_room,
    route_reply, FirstFrame, RoomRequest, Step,
};
use webrtc_signaling::wire::{Document, JsonValue};

fn alice() -> AuthenticatedUser {
    AuthenticatedUser { user_id: 123, username: "alice".to_string() }
}

fn doc(members: Vec<(&str, &str)>) -> Document {
    Document { members: members.into_iter().map(|(k, v)| (k.to_string(), JsonValue::Text(v.to_string()))).collect() }
}

fn error_text(m: &ServerMessage) -> String {
    match m {
        ServerMessage::Error { message, .. } => message.clone(),
        other => panic!("expected an error frame, got {:?}", other),
    }
}

#[test]
fn auth_frame_offers_its_token() {
    let first = FirstFrame::Text(Some(doc(vec![("type", "auth"), ("token", "abc")])));
    assert_eq!(authentication_token(&first), Ok("abc".to_string()));
    let loose = FirstFrame::Text(Some(doc(vec![("token", "xyz")])));
    assert_eq!(authentication_token(&loose), Err("Invalid authentication message".to_string()));
    let tagged = FirstFrame::Text(Some(doc(vec![("type", "x"), ("token", "xyz")])));
    assert_eq!(authentication_token(&tagged), Err("Invalid authentication message".to_string()));
}

#[test]
fn non_auth_first_frame_gets_one_error_and_closes() {
    let first = FirstFrame::Text(Some(doc(vec![("type", "join-room"), ("roomName", "r1")])));
    let outcome = authentication_token(&first).map(|_| alice());
    assert_eq!(outcome.clone().unwrap_err(), "Expected Auth message, got other message type");
    let (frame, open) = authentication_reply(&outcome);
    assert!(!open);
    assert_eq!(error_text(&frame), "Authentication failed: Expected Auth message, got other message type");

    let cases = vec![
        (FirstFrame::Text(None), "Invalid JSON format in authentication message"),
        (FirstFrame::Text(Some(doc(vec![("type", "nope")]))), "Invalid authentication message"),
        (FirstFrame::NotText, "Invalid authentication message format"),
        (FirstFrame::Closed, "Connection closed during authentication"),
        (FirstFrame::Failed("reset".to_string()), "WebSocket error during authentication: reset"),
        (FirstFrame::Missing, "No authentication message received"),
    ];
    for (first, reason) in cases {
        assert_eq!(authentication_token(&first), Err(reason.to_string()));
    }
}

#[test]
fn authentication_success_and_failure_replies() {
    let (frame, open) = authentication_reply(&Ok(alice()));
    assert!(open);
    assert!(matches!(frame, ServerMessage::Authenticated { user_id: 123, ref username } if username == "alice"));

    let (frame, open) = authentication_reply(&Err("Invalid token: InvalidToken".to_string()));
    assert!(!open);
    assert_eq!(error_text(&frame), "Authentication failed: Invalid token: InvalidToken");
}

#[test]
fn signaling_outside_the_room_is_refused_without_side_effects() {
    let offer = ClientMessage::Offer { room_name: "r9".to_string(), sdp: "s".to_string(), target_user_id: Some(456) };
    assert_eq!(membership_room(&offer), Some("r9".to_string()));
    match handle_client_message(&alice(), ConnectionId { value: 1 }, Ok(offer), false) {
        Step::Reply(m) => assert_eq!(error_text(&m), "You are not in this room"),
        other => panic!("expected a reply, got {:?}", other),
    }
}

#[test]
fn directed_offer_becomes_a_send_request() {
    let offer = ClientMessage::Offer { room_name: "r1".to_string(), sdp: "SDP_A".to_string(), target_user_id: Some(456) };
    match handle_client_message(&alice(), ConnectionId { value: 1 }, Ok(offer), true) {
        Step::Request(RoomRequest::SendTo { room_name, target_user_id, message }) => {
            assert_eq!(room_name, "r1");
            assert_eq!(target_user_id, 456);
            match message {
                ServerMessage::Offer { room_name, from_user_id, sdp } => {
                    assert_eq!((room_name.as_str(), from_user_id, sdp.as_str()), ("r1", 123, "SDP_A"));
                }
                _ => panic!("expected offer"),
            }
        }
        other => panic!("expected a send request, got {:?}", other),
    }
}

#[test]
fn untargeted_candidate_becomes_a_broadcast() {
    let ice = ClientMessage::IceCandidate {
        room_name: "r1".to_string(),
        candidate: "c".to_string(),
        sdp_mid: Some("audio".to_string()),
        sdp_mline_index: Some(0),
        target_user_id: None,
    };
    assert!(matches!(
        handle_client_message(&alice(), ConnectionId { value: 1 }, Ok(ice), true),
        Step::Request(RoomRequest::Broadcast { sender_id: 123, .. })
    ));
}

#[test]
fn join_leave_and_second_auth_frames() {
    let join = ClientMessage::JoinRoom { room_name: "r1".to_string(), password: None };
    match handle_client_message(&alice(), ConnectionId { value: 9 }, Ok(join), false) {
        Step::Request(RoomRequest::Join { room_name, participant }) => {
            assert_eq!(room_name, "r1");
            assert_eq!(participant.user.user_id, 123);
            assert_eq!(participant.connection_id, ConnectionId { value: 9 });
        }
        other => panic!("expected join, got {:?}", other),
    }
    let leave = ClientMessage::LeaveRoom { room_name: "r1".to_string() };
    assert!(matches!(
        handle_client_message(&alice(), ConnectionId { value: 9 }, Ok(leave), false),
        Step::Request(RoomRequest::Leave { user_id: 123, .. })
    ));
    let again = ClientMessage::Auth { token: "t".to_string() };
    match handle_client_message(&alice(), ConnectionId { value: 9 }, Ok(again), false) {
        Step::Reply(m) => assert_eq!(error_text(&m), "Authentication already completed"),
        other => panic!("expected reply, got {:?}", other),
    }
    match handle_client_message(&alice(), ConnectionId { value: 9 }, Err("expected value".to_string()), false) {
        Step::Reply(m) => assert_eq!(error_text(&m), "Message handling error: Invalid JSON: expected value"),
        other => panic!("expected reply, got {:?}", other),
    }
}

#[test]
fn replies_for_router_outcomes() {
    let ok = join_reply("r1".to_string(), 456, Ok(vec![Participant { user_id: 123, username: "alice".to_string() }]));
    match ok {
        ServerMessage::RoomJoined { room_name, user_id, participants } => {
            assert_eq!((room_name.as_str(), user_id), ("r1", 456));
            assert_eq!(participants[0].username, "alice");
        }
        _ => panic!("expected room-joined"),
    }
    let err = join_reply("r1".to_string(), 456, Err("User already in room".to_string()));
    assert_eq!(error_text(&err), "Failed to join room: User already in room");
    assert!(matches!(leave_reply("r1".to_string(), 1, Ok(())), ServerMessage::RoomLeft { user_id: 1, .. }));
    assert_eq!(error_text(&leave_reply("r1".to_string(), 1, Err("Room not found".to_string()))), "Failed to leave room: Room not found");
    assert!(route_reply(Ok(())).is_none());
    assert_eq!(
        error_text(&route_reply(Err("Room not found".to_string())).unwrap()),
        "Message handling error: Failed to route message: Room not found"
    );
}

#[test]
fn only_an_accepted_routing_goes_unanswered() {
    assert!(answer(Outcome::Routed(Ok(()))).is_none());
    let m = answer(Outcome::Routed(Err("Room not found".to_string()))).unwrap();
    assert_eq!(error_text(&m), "Message handling error: Failed to route message: Room not found");
    let joined = answer(Outcome::Joined { room_name: "r1".to_string(), user_id: 123, result: Ok(vec![]) }).unwrap();
    assert!(matches!(joined, ServerMessage::RoomJoined { user_id: 123, .. }));
    let left = answer(Outcome::Left { room_name: "r1".to_string(), user_id: 123, result: Err("User not in room".to_string()) });
    assert_eq!(error_text(&left.unwrap()), "Failed to leave room: User not in room");
}
