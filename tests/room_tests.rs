use webrtc_signaling::auth::AuthenticatedUser;
use webrtc_signaling::messages::ServerMessage;
use webrtc_signaling::room::{ConnectionId, LocalRoomManager, Room, RoomManager, RoomParticipant};

fn create_test_user(user_id: u32, username: &str) -> AuthenticatedUser {
    AuthenticatedUser { user_id, username: username.to_string() }
}

fn create_test_participant(user_id: u32, username: &str) -> RoomParticipant {
    participant_on(user_id, username, 1_000 + user_id as u128)
}

fn participant_on(user_id: u32, username: &str, connection: u128) -> RoomParticipant {
    RoomParticipant { user: create_test_user(user_id, username), connection_id: ConnectionId { value: connection } }
}

fn has_room(manager: &RoomManager, name: &str) -> bool {
    manager.get_rooms().iter().any(|r| r.name == name)
}

#[test]
fn test_room_creation() {
    let room = Room::new("test_room".to_string());
    assert_eq!(room.name, "test_room");
    assert!(room.participants.is_empty());
    assert!(room.is_empty());
}

#[test]
fn test_add_participant_to_room() {
    let mut room = Room::new("test_room".to_string());
    let participant = create_test_participant(123, "testuser");

    let result = room.add_participant(participant);
    assert!(result);
    assert_eq!(room.participants.len(), 1);
    assert!(room.has_participant(123));
    assert!(!room.is_empty());
}

#[test]
fn test_add_duplicate_participant() {
    let mut room = Room::new("test_room".to_string());
    let participant1 = create_test_participant(123, "testuser");
    let participant2 = participant_on(123, "testuser", 77);

    let result1 = room.add_participant(participant1);
    assert!(result1);

    let result2 = room.add_participant(participant2);
    assert!(!result2);
    assert_eq!(room.participants.len(), 1);
}

#[test]
fn test_remove_participant_from_room() {
    let mut room = Room::new("test_room".to_string());
    let participant = create_test_participant(123, "testuser");

    room.add_participant(participant);
    assert!(room.has_participant(123));

    let removed = room.remove_participant(123);
    assert!(removed.is_some());
    assert!(!room.has_participant(123));
    assert!(room.is_empty());
}

#[test]
fn test_remove_nonexistent_participant() {
    let mut room = Room::new("test_room".to_string());

    let removed = room.remove_participant(999);
    assert!(removed.is_none());
}

#[test]
fn test_get_participants_list() {
    let mut room = Room::new("test_room".to_string());
    room.add_participant(create_test_participant(123, "user1"));
    room.add_participant(create_test_participant(456, "user2"));

    let participants = room.get_participants_list();
    assert_eq!(participants.len(), 2);

    let user_ids: Vec<u32> = participants.iter().map(|p| p.user_id).collect();
    assert!(user_ids.contains(&123));
    assert!(user_ids.contains(&456));
}

#[test]
fn test_room_manager_creation() {
    let manager = RoomManager::new();
    assert!(manager.get_rooms().is_empty());
}

#[test]
fn test_join_room_creates_new_room() {
    let mut manager = RoomManager::new();
    let participant = create_test_participant(123, "testuser");

    let result = manager.join_room("new_room".to_string(), participant);
    assert!(result.is_ok());

    let existing_participants = result.unwrap();
    assert!(existing_participants.is_empty());

    assert!(has_room(&manager, "new_room"));
}

#[test]
fn test_join_existing_room() {
    let mut manager = RoomManager::new();

    let result1 = manager.join_room("test_room".to_string(), create_test_participant(123, "user1"));
    assert!(result1.is_ok());

    let result2 = manager.join_room("test_room".to_string(), create_test_participant(456, "user2"));
    assert!(result2.is_ok());

    let existing_participants = result2.unwrap();
    assert_eq!(existing_participants.len(), 1);
    assert_eq!(existing_participants[0].user_id, 123);
}

#[test]
fn test_join_room_duplicate_user() {
    let mut manager = RoomManager::new();

    let result1 = manager.join_room("test_room".to_string(), create_test_participant(123, "testuser"));
    assert!(result1.is_ok());

    let result2 = manager.join_room("test_room".to_string(), participant_on(123, "testuser", 5));
    assert!(result2.is_err());
    assert_eq!(result2.unwrap_err(), "User already in room");
}

#[test]
fn test_leave_room() {
    let mut manager = RoomManager::new();
    manager.join_room("test_room".to_string(), create_test_participant(123, "testuser")).unwrap();

    let result = manager.leave_room("test_room", 123);
    assert!(result.is_ok());

    assert!(!has_room(&manager, "test_room"));
}

#[test]
fn test_leave_room_with_remaining_participants() {
    let mut manager = RoomManager::new();
    manager.join_room("test_room".to_string(), create_test_participant(123, "user1")).unwrap();
    manager.join_room("test_room".to_string(), create_test_participant(456, "user2")).unwrap();

    let result = manager.leave_room("test_room", 123);
    assert!(result.is_ok());

    assert!(has_room(&manager, "test_room"));
    let room = manager.get_rooms().iter().find(|r| r.name == "test_room").unwrap();
    assert_eq!(room.participants.len(), 1);
    assert!(room.has_participant(456));
}

#[test]
fn test_leave_nonexistent_room() {
    let mut manager = RoomManager::new();

    let result = manager.leave_room("nonexistent_room", 123);
    assert!(result.is_err());
    assert_eq!(result.unwrap_err(), "Room not found");
}

#[test]
fn test_leave_room_user_not_in_room() {
    let mut manager = RoomManager::new();
    manager.join_room("test_room".to_string(), create_test_participant(123, "testuser")).unwrap();

    let result = manager.leave_room("test_room", 999);
    assert!(result.is_err());
    assert_eq!(result.unwrap_err(), "User not in room");
}

#[test]
fn test_user_in_room() {
    let mut manager = RoomManager::new();

    assert!(!manager.user_in_room("test_room", 123));
    manager.join_room("test_room".to_string(), create_test_participant(123, "testuser")).unwrap();
    assert!(manager.user_in_room("test_room", 123));
}

#[test]
fn test_broadcast_to_room() {
    let mut manager = RoomManager::new();
    manager.join_room("test_room".to_string(), create_test_participant(123, "testuser")).unwrap();

    let message = ServerMessage::error("test message");
    let result = manager.broadcast_to_room("test_room", 123, message);
    assert!(result.is_ok());
}

#[test]
fn test_broadcast_to_nonexistent_room() {
    let mut manager = RoomManager::new();

    let message = ServerMessage::error("test message");
    let result = manager.broadcast_to_room("nonexistent_room", 123, message);
    assert!(result.is_err());
    assert_eq!(result.unwrap_err(), "Room not found");
}

#[test]
fn test_remove_user_from_all_rooms() {
    let mut manager = RoomManager::new();
    let participant1 = create_test_participant(123, "testuser");
    let connection_id = participant1.connection_id;

    manager.join_room("room1".to_string(), participant1).unwrap();
    manager.join_room("room2".to_string(), create_test_participant(456, "otheruser")).unwrap();

    assert!(manager.user_in_room("room1", 123));
    assert!(manager.user_in_room("room2", 456));

    manager.remove_user_from_all_rooms(123, connection_id);

    assert!(!manager.user_in_room("room1", 123));
    assert!(manager.user_in_room("room2", 456));
}

#[test]
fn test_participant_creation() {
    let user = create_test_user(123, "testuser");
    let connection_id = ConnectionId { value: 42 };

    let participant = RoomParticipant { user: user.clone(), connection_id };

    assert_eq!(participant.user.user_id, 123);
    assert_eq!(participant.user.username, "testuser");
    assert_eq!(participant.connection_id, connection_id);
}

#[test]
fn test_local_room_manager_basic_operations() {
    let mut manager = LocalRoomManager::new();

    let result = manager.join_room("test_room".to_string(), create_test_participant(123, "testuser"));
    assert!(result.is_ok());
    assert!(result.unwrap().is_empty());

    assert!(manager.user_in_room("test_room", 123));
    assert!(!manager.user_in_room("test_room", 999));

    let participants = manager.get_room_participants("test_room");
    assert_eq!(participants.len(), 1);
    assert_eq!(participants[0].user_id, 123);

    assert!(manager.leave_room("test_room", 123).is_ok());
    assert!(manager.get_room_participants("test_room").is_empty());

    assert!(manager.health_check());
}

#[test]
fn test_local_room_manager_multiple_users() {
    let mut manager = LocalRoomManager::new();

    assert!(manager.join_room("test_room".to_string(), create_test_participant(123, "user1")).is_ok());
    let result2 = manager.join_room("test_room".to_string(), create_test_participant(456, "user2"));
    assert!(result2.is_ok());
    assert_eq!(result2.unwrap().len(), 1);

    assert!(manager.user_in_room("test_room", 123));
    assert!(manager.user_in_room("test_room", 456));
    assert_eq!(manager.get_room_participants("test_room").len(), 2);

    assert!(manager.leave_room("test_room", 123).is_ok());
    assert!(!manager.user_in_room("test_room", 123));
    assert!(manager.user_in_room("test_room", 456));

    let participants = manager.get_room_participants("test_room");
    assert_eq!(participants.len(), 1);
    assert_eq!(participants[0].user_id, 456);
}

#[test]
fn two_users_in_a_room_see_each_other() {
    let mut manager = LocalRoomManager::new();
    let a = create_test_participant(123, "alice");
    let a_conn = a.connection_id;
    assert!(manager.join_room("r1".to_string(), a).unwrap().is_empty());
    manager.take_outbox();

    let existing = manager.join_room("r1".to_string(), create_test_participant(456, "bob")).unwrap();
    assert_eq!(existing.len(), 1);
    assert_eq!(existing[0].user_id, 123);
    assert_eq!(existing[0].username, "alice");

    let out = manager.take_outbox();
    assert_eq!(out.len(), 1);
    assert_eq!(out[0].recipients, vec![a_conn]);
    match &out[0].message {
        ServerMessage::UserJoined { room_name, user } => {
            assert_eq!(room_name, "r1");
            assert_eq!(user.user_id, 456);
            assert_eq!(user.username, "bob");
        }
        _ => panic!("expected user-joined"),
    }
}

#[test]
fn directed_offer_reaches_only_the_target() {
    let mut manager = LocalRoomManager::new();
    let a = create_test_participant(123, "alice");
    let b = create_test_participant(456, "bob");
    let b_conn = b.connection_id;
    manager.join_room("r1".to_string(), a).unwrap();
    manager.join_room("r1".to_string(), b).unwrap();
    manager.take_outbox();

    let offer = ServerMessage::Offer { room_name: "r1".to_string(), from_user_id: 123, sdp: "SDP_A".to_string() };
    assert!(manager.send_to_user_in_room("r1", 456, offer).is_ok());
    let out = manager.take_outbox();
    assert_eq!(out.len(), 1);
    assert_eq!(out[0].recipients, vec![b_conn]);

    let absent = ServerMessage::error("x");
    assert!(manager.send_to_user_in_room("r1", 999, absent).is_ok());
    assert!(manager.take_outbox().is_empty());
}

#[test]
fn broadcast_skips_the_sender() {
    let mut manager = LocalRoomManager::new();
    let a = create_test_participant(1, "a");
    let b = create_test_participant(2, "b");
    let c = create_test_participant(3, "c");
    let (a_conn, b_conn, c_conn) = (a.connection_id, b.connection_id, c.connection_id);
    manager.join_room("r".to_string(), a).unwrap();
    manager.join_room("r".to_string(), b).unwrap();
    manager.join_room("r".to_string(), c).unwrap();
    manager.take_outbox();

    manager.broadcast_to_room("r", 2, ServerMessage::error("hi")).unwrap();
    let out = manager.take_outbox();
    assert_eq!(out[0].recipients, vec![a_conn, c_conn]);
    assert!(!out[0].recipients.contains(&b_conn));
}

#[test]
fn both_leaving_removes_the_room() {
    let mut manager = LocalRoomManager::new();
    manager.join_room("r1".to_string(), create_test_participant(123, "alice")).unwrap();
    manager.join_room("r1".to_string(), create_test_participant(456, "bob")).unwrap();
    assert!(manager.leave_room("r1", 123).is_ok());
    assert!(manager.room_exists("r1"));
    assert!(manager.leave_room("r1", 456).is_ok());
    assert!(!manager.room_exists("r1"));
}

#[test]
fn second_leave_is_refused_and_changes_nothing() {
    let mut manager = LocalRoomManager::new();
    manager.join_room("r".to_string(), create_test_participant(1, "a")).unwrap();
    manager.join_room("r".to_string(), create_test_participant(2, "b")).unwrap();
    assert!(manager.leave_room("r", 1).is_ok());
    assert_eq!(manager.leave_room("r", 1).unwrap_err(), "User not in room");
    assert!(manager.user_in_room("r", 2));
    assert_eq!(manager.get_room_participants("r").len(), 1);

    assert!(manager.leave_room("r", 2).is_ok());
    assert_eq!(manager.leave_room("r", 2).unwrap_err(), "Room not found");
}

#[test]
fn close_removes_only_the_matching_connection() {
    let mut manager = LocalRoomManager::new();
    manager.join_room("r1".to_string(), participant_on(7, "u", 70)).unwrap();
    manager.join_room("r2".to_string(), participant_on(7, "u", 71)).unwrap();
    manager.join_room("r2".to_string(), participant_on(8, "v", 80)).unwrap();
    manager.take_outbox();

    manager.remove_user_from_all_rooms(7, ConnectionId { value: 70 });
    assert!(!manager.room_exists("r1"));
    assert!(manager.user_in_room("r2", 7));
    assert!(manager.user_in_room("r2", 8));
    let out = manager.take_outbox();
    assert_eq!(out.len(), 1);
    assert!(out[0].recipients.is_empty());

    manager.remove_user_from_all_rooms(7, ConnectionId { value: 71 });
    assert!(!manager.user_in_room("r2", 7));
    let out = manager.take_outbox();
    assert_eq!(out.len(), 1);
    assert_eq!(out[0].recipients, vec![ConnectionId { value: 80 }]);
    match &out[0].message {
        ServerMessage::UserLeft { room_name, user_id } => {
            assert_eq!(room_name, "r2");
            assert_eq!(*user_id, 7);
        }
        _ => panic!("expected user-left"),
    }
}

#[test]
fn leave_notifies_everyone_the_room_had() {
    let mut manager = LocalRoomManager::new();
    let a = create_test_participant(123, "alice");
    let b = create_test_participant(456, "bob");
    let (a_conn, b_conn) = (a.connection_id, b.connection_id);
    manager.join_room("r1".to_string(), a).unwrap();
    manager.join_room("r1".to_string(), b).unwrap();
    manager.take_outbox();
    manager.leave_room("r1", 123).unwrap();
    let out = manager.take_outbox();
    assert_eq!(out.len(), 1);
    assert_eq!(out[0].recipients, vec![a_conn, b_conn]);
    assert!(matches!(&out[0].message, ServerMessage::UserLeft { user_id: 123, .. }));
}
