use webrtc_signaling::auth::AuthenticatedUser;
use webrtc_signaling::cluster::{
    decode_cluster_message, decode_stored_connection, encode_cluster_message,
    encode_connection_info_document, participants_from_store, room_key, server_key, ClusterMessage,
    ClusterRoomManager, ConnectionInfo, StoreCommand,
};
use webrtc_signaling::messages::{Participant, ServerMessage};
use webrtc_signaling::room::{ConnectionId, RoomParticipant};
use webrtc_signaling::wire::{Document, JsonValue};

fn create_test_participant(user_id: u32, username: &str) -> RoomParticipant {
    RoomParticipant {
        user: AuthenticatedUser { user_id, username: username.to_string() },
        connection_id: ConnectionId { value: 5_000 + user_id as u128 },
    }
}

fn published(c: &StoreCommand) -> Option<ClusterMessage> {
    match c {
        StoreCommand::Publish { channel, message } => {
            assert_eq!(channel, "cluster:messages");
            decode_cluster_message(message)
        }
        _ => None,
    }
}

#[test]
fn test_cluster_message_serialization() {
    let user_joined = ClusterMessage::UserJoined {
        room_id: "room123".to_string(),
        user_id: 1001,
        username: "alice".to_string(),
        target_server: None,
    };

    let json = encode_cluster_message(&user_joined);
    match decode_cluster_message(&json).unwrap() {
        ClusterMessage::UserJoined { room_id, user_id, username, target_server } => {
            assert_eq!(room_id, "room123");
            assert_eq!(user_id, 1001);
            assert_eq!(username, "alice");
            assert_eq!(target_server, None);
        }
        _ => panic!("Wrong message type deserialized"),
    }
}

#[test]
fn test_webrtc_signal_message_serialization() {
    let webrtc_signal = ClusterMessage::WebRTCSignal {
        room_id: "room123".to_string(),
        from_user: 1001,
        to_user: 1002,
        signal_type: "offer".to_string(),
        signal_data: "v=0\r\no=alice...".to_string(),
    };

    let json = encode_cluster_message(&webrtc_signal);
    match decode_cluster_message(&json).unwrap() {
        ClusterMessage::WebRTCSignal { room_id, from_user, to_user, signal_type, signal_data } => {
            assert_eq!(room_id, "room123");
            assert_eq!(from_user, 1001);
            assert_eq!(to_user, 1002);
            assert_eq!(signal_type, "offer");
            assert_eq!(signal_data, "v=0\r\no=alice...");
        }
        _ => panic!("Wrong message type deserialized"),
    }
}

#[test]
fn test_connection_info_serialization() {
    let connection_info = ConnectionInfo {
        user_id: 1001,
        username: "alice".to_string(),
        room_id: "room123".to_string(),
        connected_at: "2024-01-01T12:00:00Z".to_string(),
        connection_id: ConnectionId { value: 123 },
    };

    let json = encode_connection_info_document(&connection_info);
    let stored = decode_stored_connection(&json).unwrap();

    assert_eq!(json.id("user_id"), Some(1001));
    assert_eq!(stored.username, "alice");
    assert_eq!(stored.room_id, "room123");
    assert_eq!(stored.connection_id, "00000000-0000-0000-0000-00000000007b");
}

#[test]
fn test_cluster_heartbeat_message() {
    let heartbeat = ClusterMessage::ServerHeartbeat {
        node_id: "server-1".to_string(),
        timestamp: 1704110400,
        connection_count: 42,
    };

    let json = encode_cluster_message(&heartbeat);
    match decode_cluster_message(&json).unwrap() {
        ClusterMessage::ServerHeartbeat { node_id, timestamp, connection_count } => {
            assert_eq!(node_id, "server-1");
            assert_eq!(timestamp, 1704110400);
            assert_eq!(connection_count, 42);
        }
        _ => panic!("Wrong message type deserialized"),
    }
}

#[test]
fn store_keys_and_ids() {
    assert_eq!(room_key("room123"), "rooms:room123:participants");
    assert_eq!(server_key("server-1"), "servers:server-1:connections");
}

#[test]
fn participants_resolved_from_store_reads() {
    let record = |name: &str| {
        Some(Document {
            members: vec![
                ("user_id".to_string(), JsonValue::Number(1)),
                ("username".to_string(), JsonValue::Text(name.to_string())),
            ],
        })
    };
    let entries = vec![
        ("1001".to_string(), "server-1".to_string()),
        ("x".to_string(), "server-1".to_string()),
        ("1002".to_string(), "server-2".to_string()),
        ("+1003".to_string(), "server-3".to_string()),
        ("4294967296".to_string(), "server-3".to_string()),
    ];
    let records = vec![record("alice"), record("ghost"), None, record("charlie"), record("big")];
    let ps = participants_from_store(&entries, &records);
    assert_eq!(ps.len(), 2);
    assert_eq!((ps[0].user_id, ps[0].username.as_str()), (1001, "alice"));
    assert_eq!((ps[1].user_id, ps[1].username.as_str()), (1003, "charlie"));
}

#[test]
fn healthy_join_publishes_and_answers_from_store() {
    let mut m = ClusterRoomManager::new("server-1".to_string());
    let alice = create_test_participant(1001, "alice");
    let regs = m.register_commands("room123", &alice, &vec![], "2024-01-01T00:00:00Z".to_string());
    match &regs[0] {
        StoreCommand::HashSet { key, field, value } => {
            assert_eq!(key, "rooms:room123:participants");
            assert_eq!(field, "1001");
            assert_eq!(value, "server-1");
        }
        _ => panic!("expected a hash write"),
    }
    match &regs[1] {
        StoreCommand::HashSetDocument { key, field, value } => {
            assert_eq!(key, "servers:server-1:connections");
            assert_eq!(field, "1001");
            assert_eq!(decode_stored_connection(value).unwrap().username, "alice");
        }
        _ => panic!("expected a record write"),
    }

    let existing = vec![Participant { user_id: 7, username: "zed".to_string() }];
    let r = m.join_room("room123".to_string(), alice, existing, true).unwrap();
    assert_eq!(r.len(), 1);
    assert_eq!(r[0].user_id, 7);
    assert!(m.is_local_user(1001));
    let cmds = m.take_commands();
    assert_eq!(cmds.len(), 1);
    match published(&cmds[0]) {
        Some(ClusterMessage::UserJoined { room_id, user_id, username, target_server }) => {
            assert_eq!((room_id.as_str(), user_id, username.as_str()), ("room123", 1001, "alice"));
            assert_eq!(target_server, None);
        }
        _ => panic!("expected UserJoined"),
    }
}

#[test]
fn failed_registration_falls_back_to_local_join() {
    let mut m = ClusterRoomManager::new("n".to_string());
    let r = m.join_room("r".to_string(), create_test_participant(1, "a"), vec![], false).unwrap();
    assert!(r.is_empty());
    assert!(m.take_commands().is_empty());
    assert!(m.user_in_room("r", 1, None));
    assert!(!m.user_in_room("r", 1, Some(false)));
}

#[test]
fn degraded_mode_uses_the_local_registry() {
    let mut m = ClusterRoomManager::new("n".to_string());
    assert!(m.set_redis_health(false));
    assert!(!m.set_redis_health(false));
    m.join_room("r".to_string(), create_test_participant(1, "a"), vec![], true).unwrap();
    assert_eq!(m.get_room_participants("r", vec![]).len(), 1);
    assert_eq!(m.leave_room("r", 1, None), Ok(()));
    assert_eq!(m.leave_room("r", 1, Some(true)).unwrap_err(), "Room not found");
    assert!(m.take_commands().is_empty());
    assert!(m.health_check());
}

#[test]
fn healthy_leave_deletes_and_publishes() {
    let mut m = ClusterRoomManager::new("server-1".to_string());
    m.join_room("room123".to_string(), create_test_participant(1001, "alice"), vec![], true).unwrap();
    m.take_commands();
    assert_eq!(m.leave_room("room123", 1001, Some(true)), Ok(()));
    assert!(!m.is_local_user(1001));
    let cmds = m.take_commands();
    assert_eq!(cmds.len(), 3);
    assert!(matches!(&cmds[0], StoreCommand::HashDelete { key, field } if key == "rooms:room123:participants" && field == "1001"));
    assert!(matches!(&cmds[1], StoreCommand::HashDelete { key, field } if key == "servers:server-1:connections" && field == "1001"));
    assert!(matches!(published(&cmds[2]), Some(ClusterMessage::UserLeft { user_id: 1001, .. })));
}

#[test]
fn remote_signal_is_published_with_its_room() {
    let mut m = ClusterRoomManager::new("server-1".to_string());
    m.join_room("r2".to_string(), create_test_participant(1001, "alice"), vec![], true).unwrap();
    m.take_commands();
    let offer = ServerMessage::Offer { room_name: "r2".to_string(), from_user_id: 1001, sdp: "sdp_offer_data".to_string() };
    assert_eq!(m.send_to_user_in_room("r2", 1002, offer, Some("server-2".to_string())), Ok(()));
    let cmds = m.take_commands();
    match published(&cmds[0]) {
        Some(ClusterMessage::WebRTCSignal { room_id, from_user, to_user, signal_type, signal_data }) => {
            assert_eq!(room_id, "r2");
            assert_eq!((from_user, to_user), (1001, 1002));
            assert_eq!(signal_type, "offer");
            assert_eq!(signal_data, "sdp_offer_data");
        }
        _ => panic!("Expected WebRTCSignal"),
    }
    let err = ServerMessage::error("x");
    assert_eq!(m.send_to_user_in_room("r2", 1003, err, None).unwrap_err(), "User not found in room");
}

#[test]
fn signal_from_the_bus_reaches_the_local_target() {
    let mut m = ClusterRoomManager::new("server-2".to_string());
    let bob = create_test_participant(1002, "bob");
    let bob_conn = bob.connection_id;
    m.join_room("r2".to_string(), bob, vec![], true).unwrap();
    m.handle_cluster_message(ClusterMessage::WebRTCSignal {
        room_id: "r2".to_string(),
        from_user: 1001,
        to_user: 1002,
        signal_type: "offer".to_string(),
        signal_data: "SDP_A".to_string(),
    });
    m.handle_cluster_message(ClusterMessage::WebRTCSignal {
        room_id: "r2".to_string(),
        from_user: 1001,
        to_user: 9,
        signal_type: "offer".to_string(),
        signal_data: "lost".to_string(),
    });
    let out = m.take_outbox();
    assert_eq!(out.len(), 1);
    assert_eq!(out[0].recipients, vec![bob_conn]);
    match &out[0].message {
        ServerMessage::Offer { room_name, from_user_id, sdp } => {
            assert_eq!(room_name, "r2");
            assert_eq!(*from_user_id, 1001);
            assert_eq!(sdp, "SDP_A");
        }
        _ => panic!("expected offer"),
    }
}

#[test]
fn membership_deltas_respect_their_target() {
    let mut m = ClusterRoomManager::new("server-1".to_string());
    m.join_room("r".to_string(), create_test_participant(1, "a"), vec![], true).unwrap();
    m.handle_cluster_message(ClusterMessage::UserLeft {
        room_id: "r".to_string(),
        user_id: 5,
        target_server: Some("server-2".to_string()),
    });
    assert!(m.take_outbox().is_empty());
    m.handle_cluster_message(ClusterMessage::UserJoined {
        room_id: "r".to_string(),
        user_id: 5,
        username: "e".to_string(),
        target_server: Some("server-1".to_string()),
    });
    let out = m.take_outbox();
    assert_eq!(out.len(), 1);
    assert!(matches!(&out[0].message, ServerMessage::UserJoined { user, .. } if user.user_id == 5));
}

#[test]
fn close_cleans_the_store_only_for_its_own_connection() {
    let mut m = ClusterRoomManager::new("server-1".to_string());
    let alice = create_test_participant(1001, "alice");
    let conn = alice.connection_id;
    m.join_room("room123".to_string(), alice, vec![], true).unwrap();
    m.take_commands();
    let info = ConnectionInfo {
        user_id: 1001,
        username: "alice".to_string(),
        room_id: "room123".to_string(),
        connected_at: "t".to_string(),
        connection_id: ConnectionId { value: 1 },
    };
    m.remove_user_from_all_rooms(1001, conn, Some(encode_connection_info_document(&info)));
    assert!(m.take_commands().is_empty());
    assert!(!m.is_local_user(1001));

    let info = ConnectionInfo { connection_id: conn, ..info };
    m.remove_user_from_all_rooms(1001, conn, Some(encode_connection_info_document(&info)));
    let cmds = m.take_commands();
    assert_eq!(cmds.len(), 3);
    assert!(matches!(published(&cmds[2]), Some(ClusterMessage::UserLeft { user_id: 1001, .. })));
}

#[test]
fn heartbeat_commands_carry_the_connection_count() {
    let mut m = ClusterRoomManager::new("heartbeat-test-node".to_string());
    m.join_room("r".to_string(), create_test_participant(1, "a"), vec![], true).unwrap();
    let cmds = m.heartbeat_commands(1704110400);
    assert!(matches!(&cmds[0], StoreCommand::SetExpiring { key, value: 1704110400, seconds: 30 } if key == "servers:heartbeat-test-node:heartbeat"));
    match &cmds[1] {
        StoreCommand::Publish { channel, message } => {
            assert_eq!(channel, "cluster:events");
            assert!(matches!(decode_cluster_message(message), Some(ClusterMessage::ServerHeartbeat { connection_count: 1, .. })));
        }
        _ => panic!("expected a publication"),
    }
}

#[test]
fn health_toggle_keeps_local_state() {
    let mut m = ClusterRoomManager::new("n".to_string());
    m.set_redis_health(false);
    m.join_room("r".to_string(), create_test_participant(1, "a"), vec![], false).unwrap();
    m.set_redis_health(true);
    m.set_redis_health(false);
    assert!(m.user_in_room("r", 1, None));
    assert!(m.is_local_user(1));
}

#[test]
fn test_concurrent_room_operations() {
    let mut manager = webrtc_signaling::room::LocalRoomManager::new();

    let mut results = Vec::new();
    for i in 0..10 {
        let participant = create_test_participant(i, &format!("user{}", i));
        results.push(manager.join_room("concurrent_room".to_string(), participant));
    }
    assert_eq!(results.len(), 10);
    for result in results {
        assert!(result.is_ok());
    }
    assert_eq!(manager.get_room_participants("concurrent_room").len(), 10);

    let leave_results: Vec<Result<(), String>> = (0..10).map(|i| manager.leave_room("concurrent_room", i)).collect();
    let successful_leaves = leave_results.iter().filter(|r| r.is_ok()).count();
    assert!(successful_leaves >= 9);

    assert!(manager.get_room_participants("concurrent_room").is_empty());
}

#[test]
fn test_message_broadcast_simulation() {
    let mut m = ClusterRoomManager::new("server-1".to_string());
    let mut connections = Vec::new();
    for i in 1..=3 {
        let p = create_test_participant(i, &format!("user{}", i));
        connections.push(p.connection_id);
        m.join_room(format!("room{}", i), p, vec![], true).unwrap();
    }

    m.handle_cluster_message(ClusterMessage::UserJoined {
        room_id: "test_room".to_string(),
        user_id: 999,
        username: "new_user".to_string(),
        target_server: None,
    });

    let out = m.take_outbox();
    assert_eq!(out.len(), 1);
    for c in &connections {
        assert!(out[0].recipients.contains(c));
    }
    match &out[0].message {
        ServerMessage::UserJoined { room_name, user } => {
            assert_eq!(room_name, "test_room");
            assert_eq!(user.user_id, 999);
            assert_eq!(user.username, "new_user");
        }
        _ => panic!("Expected UserJoined message"),
    }
}

#[test]
fn healthy_duplicate_join_is_refused_and_not_registered() {
    let mut m = ClusterRoomManager::new("server-1".to_string());
    let alice = create_test_participant(1001, "alice");
    let listed = vec![Participant { user_id: 1001, username: "alice".to_string() }];
    assert!(m.register_commands("room123", &alice, &listed, "t".to_string()).is_empty());
    assert_eq!(m.join_room("room123".to_string(), alice, listed, true).unwrap_err(), "User already in room");
    assert!(m.take_commands().is_empty());
    assert!(m.is_local_user(1001));
}

#[test]
fn healthy_leave_of_absent_user_is_refused_and_changes_nothing() {
    let mut m = ClusterRoomManager::new("server-1".to_string());
    m.join_room("room123".to_string(), create_test_participant(1001, "alice"), vec![], true).unwrap();
    m.take_commands();
    assert_eq!(m.leave_room("room123", 1001, Some(true)), Ok(()));
    m.take_commands();
    assert!(m.leave_room("room123", 1001, Some(false)).is_err());
    assert!(m.take_commands().is_empty());
    assert!(m.take_outbox().is_empty());
}

#[test]
fn local_target_in_cluster_mode_gets_the_frame_directly() {
    let mut m = ClusterRoomManager::new("server-1".to_string());
    let a = create_test_participant(1, "a");
    let b = create_test_participant(2, "b");
    let b_conn = b.connection_id;
    m.join_room("r".to_string(), a, vec![], true).unwrap();
    m.join_room("r".to_string(), b, vec![], true).unwrap();
    m.take_commands();
    let offer = ServerMessage::Offer { room_name: "r".to_string(), from_user_id: 1, sdp: "SDP_A".to_string() };
    assert_eq!(m.send_to_user_in_room("r", 2, offer, Some("server-1".to_string())), Ok(()));
    assert!(m.take_commands().is_empty());
    let out = m.take_outbox();
    assert_eq!(out.len(), 1);
    assert_eq!(out[0].recipients, vec![b_conn]);
    assert!(matches!(&out[0].message, ServerMessage::Offer { sdp, .. } if sdp == "SDP_A"));
}

#[test]
fn connected_target_not_listed_in_the_room_goes_through_the_local_registry() {
    let mut m = ClusterRoomManager::new("server-1".to_string());
    m.join_room("r".to_string(), create_test_participant(2, "b"), vec![], true).unwrap();
    m.take_commands();
    let offer = ServerMessage::Offer { room_name: "other".to_string(), from_user_id: 1, sdp: "s".to_string() };
    assert_eq!(m.send_to_user_in_room("other", 2, offer, None).unwrap_err(), "Room not found");
    assert!(m.take_outbox().is_empty());
    assert!(m.take_commands().is_empty());
}

#[test]
fn duplicate_held_locally_is_refused_after_recovery() {
    let mut m = ClusterRoomManager::new("server-1".to_string());
    m.set_redis_health(false);
    m.join_room("r".to_string(), create_test_participant(7, "g"), vec![], false).unwrap();
    m.set_redis_health(true);
    let again = create_test_participant(7, "g");
    assert!(m.register_commands("r", &again, &vec![], "t".to_string()).is_empty());
    assert_eq!(m.join_room("r".to_string(), again, vec![], true).unwrap_err(), "User already in room");
    assert!(m.take_commands().is_empty());
    assert!(m.user_in_room("r", 7, None));
}

#[test]
fn refused_join_still_records_the_connection() {
    let mut m = ClusterRoomManager::new("server-1".to_string());
    let listed = vec![Participant { user_id: 9, username: "i".to_string() }];
    assert!(m.join_room("r".to_string(), create_test_participant(9, "i"), listed, true).is_err());
    assert!(m.is_local_user(9));
}
