use karaoke_room::registry::hash_token;
use karaoke_room::registry::RoomManager;
use karaoke_room::signal::handle_create_room;
use karaoke_room::signal::handle_disconnect;
use karaoke_room::signal::handle_join_room;
use karaoke_room::signal::ConnectionSession;
use karaoke_room::signal::CreateRoomPayload;
use karaoke_room::signal::DisconnectEffect;
use karaoke_room::signal::JoinOutcome;
use karaoke_room::signal::JoinRoomPayload;

#[test]
fn test_hash_token() {
    let token = "test_token";
    let hash = hash_token(token);
    assert_eq!(hash.len(), 64);
}

#[test]
fn hash_token_known_digest() {
    // the SHA-256 digest of "abc", in lowercase hex
    assert_eq!(
        hash_token("abc"),
        "ba7816bf8f01cfea414140de5dae2223b00361a396177a9cb410ff61f20015ad"
    );
}

#[test]
fn test_create_room() {
    let mut manager = RoomManager::new();
    let room_id = "test_room".to_string();
    let socket_id = "socket_123".to_string();
    let hash = "hash_123".to_string();

    assert!(manager.create_room(room_id.clone(), socket_id.clone(), hash.clone(), None).is_ok());
    assert!(manager.get_room(&room_id).is_some());

    // Duplicate
    assert!(manager.create_room(room_id, socket_id, hash, None).is_err());
}

#[test]
fn test_try_join_room() {
    let mut manager = RoomManager::new();
    let room_id = "test_room".to_string();
    let token = "token";
    let token_hash = hash_token(token);

    manager.create_room(room_id.clone(), "host".to_string(), token_hash, None).unwrap();

    // Valid join
    let res = manager.try_join_room(&room_id, Some(token));
    assert!(res.is_ok());
    assert_eq!(res.unwrap().client_count, 1);

    // Invalid token
    assert!(manager.try_join_room(&room_id, Some("wrong")).is_err());

    // Skip token (standalone mode simulation - if verify skipped)
    let res_skip = manager.try_join_room(&room_id, None);
    assert!(res_skip.is_ok());
    assert_eq!(res_skip.unwrap().client_count, 2);
}

#[test]
fn test_room_capacity() {
    let mut manager = RoomManager::new();
    let room_id = "full_room".to_string();
    manager.create_room(room_id.clone(), "host".to_string(), "hash".to_string(), None).unwrap();

    // Fill room
    for _ in 0..10 {
        manager.add_client(&room_id);
    }

    // Try join
    let res = manager.try_join_room(&room_id, None);
    assert!(res.is_err());
    assert_eq!(res.unwrap_err(), "Room is full");
}

#[test]
fn exactly_capacity_joins_succeed() {
    let mut manager = RoomManager::new();
    manager
        .create_room("room".to_string(), "host".to_string(), hash_token("t"), None)
        .unwrap();
    let mut granted = 0;
    let mut full = 0;
    for _ in 0..13 {
        match manager.try_join_room("room", Some("t")) {
            Ok(_) => granted += 1,
            Err(e) => {
                assert_eq!(e, "Room is full");
                full += 1;
            }
        }
    }
    assert_eq!(granted, 10);
    assert_eq!(full, 3);
    assert_eq!(manager.get_room("room").unwrap().client_count, 10);
}

#[test]
fn join_unknown_room_fails() {
    let mut manager = RoomManager::new();
    let res = manager.try_join_room("missing", None);
    assert_eq!(res.unwrap_err(), "Room not found");
}

#[test]
fn invalid_token_message() {
    let mut manager = RoomManager::new();
    manager
        .create_room("r".to_string(), "h".to_string(), hash_token("right"), None)
        .unwrap();
    assert_eq!(manager.try_join_room("r", Some("wrong")).unwrap_err(), "Invalid token");
}

#[test]
fn remove_client_floors_at_zero() {
    let mut manager = RoomManager::new();
    manager.create_room("r".to_string(), "h".to_string(), "x".to_string(), None).unwrap();
    manager.remove_client("r");
    assert_eq!(manager.get_room("r").unwrap().client_count, 0);
    manager.add_client("r");
    assert_eq!(manager.get_room("r").unwrap().client_count, 1);
    manager.remove_client("r");
    assert_eq!(manager.get_room("r").unwrap().client_count, 0);
}

#[test]
fn delete_room_unregisters() {
    let mut manager = RoomManager::new();
    manager.create_room("r".to_string(), "h".to_string(), "x".to_string(), None).unwrap();
    manager.delete_room("r");
    assert!(manager.get_room("r").is_none());
}

#[test]
fn host_reverse_lookup_and_first_active() {
    let mut manager = RoomManager::new();
    manager.create_room("r1".to_string(), "h1".to_string(), "x".to_string(), None).unwrap();
    manager.create_room("r2".to_string(), "h2".to_string(), "x".to_string(), None).unwrap();
    assert_eq!(manager.get_room_by_host_socket("h2").unwrap().room_id, "r2");
    assert!(manager.get_room_by_host_socket("h3").is_none());
    for _ in 0..10 {
        manager.add_client("r1");
    }
    assert_eq!(manager.get_first_active_room().unwrap().room_id, "r2");
}

#[test]
fn signaling_create_join_disconnect() {
    let mut manager = RoomManager::new();
    let created = handle_create_room(
        &mut manager,
        "host_sock",
        CreateRoomPayload {
            room_id: "room9".to_string(),
            join_token_hash: hash_token("secret"),
            host_peer_id: Some("peer9".to_string()),
        },
    );
    assert_eq!(created.unwrap().room_id, "room9");

    // explicit room id: the token is verified
    let outcome = handle_join_room(
        &mut manager,
        "client_sock",
        JoinRoomPayload {
            room_id: Some("room9".to_string()),
            join_token: "secret".to_string(),
            display_name: "Ann".to_string(),
        },
    );
    match outcome {
        JoinOutcome::Accepted { room_id, host_socket_id, success, joined } => {
            assert_eq!(room_id, "room9");
            assert_eq!(host_socket_id, "host_sock");
            assert_eq!(success.host_peer_id, "peer9");
            assert_eq!(joined.client_id, "client_sock");
            assert_eq!(joined.display_name, "Ann");
        }
        JoinOutcome::Rejected(p) => panic!("rejected: {}", p.reason),
    }

    // the discovery path skips the token check
    let outcome2 = handle_join_room(
        &mut manager,
        "client2",
        JoinRoomPayload {
            room_id: Some("default".to_string()),
            join_token: "anything".to_string(),
            display_name: "Ben".to_string(),
        },
    );
    assert!(matches!(outcome2, JoinOutcome::Accepted { .. }));
    assert_eq!(manager.get_room("room9").unwrap().client_count, 2);

    // a client disconnect frees the slot and names the host socket
    let effect = handle_disconnect(
        &mut manager,
        &ConnectionSession {
            connection_id: "client2".to_string(),
            joined_room: Some("room9".to_string()),
        },
    );
    match effect {
        DisconnectEffect::ClientLeft { room_id, host_socket_id, departed } => {
            assert_eq!(room_id, "room9");
            assert_eq!(host_socket_id, "host_sock");
            assert_eq!(departed.client_id, "client2");
        }
        _ => panic!("expected a client departure"),
    }
    assert_eq!(manager.get_room("room9").unwrap().client_count, 1);

    // the host's disconnect deletes the room
    let effect2 = handle_disconnect(
        &mut manager,
        &ConnectionSession { connection_id: "host_sock".to_string(), joined_room: None },
    );
    assert!(matches!(effect2, DisconnectEffect::HostDisconnected { .. }));
    assert!(manager.get_room("room9").is_none());
}

#[test]
fn join_with_no_rooms_is_rejected() {
    let mut manager = RoomManager::new();
    let outcome = handle_join_room(
        &mut manager,
        "c",
        JoinRoomPayload {
            room_id: None,
            join_token: "".to_string(),
            display_name: "Ann".to_string(),
        },
    );
    match outcome {
        JoinOutcome::Rejected(p) => assert_eq!(p.reason, "No active host found"),
        _ => panic!("expected a rejection"),
    }
}
