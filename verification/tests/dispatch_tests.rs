use karaoke_room::collection::CollectionVisibility;
use karaoke_room::collection::PlaylistStore;
use karaoke_room::dispatch::complete_add;
use karaoke_room::dispatch::generate_join_token;
use karaoke_room::dispatch::generate_room_id;
use karaoke_room::dispatch::AddTarget;
use karaoke_room::dispatch::ClientCommand;
use karaoke_room::dispatch::Dispatch;
use karaoke_room::dispatch::process_command;
use karaoke_room::room::PlayerStatus;
use karaoke_room::room::RoomState;
use karaoke_room::server::get_server_port;
use karaoke_room::server::WebServerState;
use karaoke_room::song::fallback_metadata;
use karaoke_room::song::Song;

fn fresh() -> (RoomState, PlaylistStore) {
    (
        RoomState::new("room".to_string(), "peer".to_string(), Vec::new()),
        PlaylistStore::new(),
    )
}

fn song(id: &str, title: &str) -> Song {
    Song {
        id: id.to_string(),
        youtube_id: format!("yt_{}", id),
        title: title.to_string(),
        artist: "Artist".to_string(),
        duration: 200,
        thumbnail_url: "https://example.com/t.jpg".to_string(),
        added_by: "Host".to_string(),
        added_at: 1_700_000_000_000,
    }
}

#[test]
fn playback_commands_apply() {
    let (mut room, mut store) = fresh();
    room.add_song(song("cur", "Cur"));
    assert!(process_command(&mut room, &mut store, ClientCommand::PLAY).is_ok());
    assert!(matches!(room.player.status, PlayerStatus::Playing));
    assert!(process_command(&mut room, &mut store, ClientCommand::PAUSE).is_ok());
    assert!(matches!(room.player.status, PlayerStatus::Paused));
    assert!(process_command(&mut room, &mut store, ClientCommand::SEEK { time: 9 }).is_ok());
    assert_eq!(room.player.current_time, 9);
    assert!(
        process_command(&mut room, &mut store, ClientCommand::SET_VOLUME { volume: 250 }).is_ok()
    );
    assert_eq!(room.player.volume, 100);
    assert!(process_command(&mut room, &mut store, ClientCommand::TOGGLE_MUTE).is_ok());
    assert!(room.player.is_muted);
    assert!(process_command(&mut room, &mut store, ClientCommand::SKIP).is_ok());
    assert!(room.player.current_song.is_none());
    assert!(process_command(&mut room, &mut store, ClientCommand::PING).is_ok());
    assert!(
        process_command(
            &mut room,
            &mut store,
            ClientCommand::SET_DISPLAY_NAME { name: "Ann".to_string() },
        )
        .is_ok()
    );
}

#[test]
fn add_song_asks_for_metadata() {
    let (mut room, mut store) = fresh();
    let r = process_command(
        &mut room,
        &mut store,
        ClientCommand::ADD_SONG {
            youtube_url: "https://youtu.be/dQw4w9WgXcQ".to_string(),
            added_by: None,
        },
    );
    match r.unwrap() {
        Dispatch::NeedsMetadata { youtube_id, added_by, target } => {
            assert_eq!(youtube_id, "dQw4w9WgXcQ");
            assert_eq!(added_by, "Guest");
            assert!(matches!(target, AddTarget::Queue));
        }
        Dispatch::Done => panic!("expected a metadata request"),
    }
    let bad = process_command(
        &mut room,
        &mut store,
        ClientCommand::ADD_SONG { youtube_url: "???".to_string(), added_by: None },
    );
    assert_eq!(bad.unwrap_err(), "Invalid YouTube URL");
}

#[test]
fn complete_add_routes_to_queue() {
    let (mut room, mut store) = fresh();
    let meta = fallback_metadata("vid1");
    complete_add(
        &mut room,
        &mut store,
        AddTarget::Queue,
        "vid1".to_string(),
        "Ann".to_string(),
        meta,
    )
    .unwrap();
    let current = room.player.current_song.as_ref().unwrap();
    assert_eq!(current.title, "YouTube Video vid1");
    assert_eq!(current.youtube_id, "vid1");
    assert_eq!(current.added_by, "Ann");
}

#[test]
fn complete_add_routes_to_collection() {
    let (mut room, mut store) = fresh();
    let id = store.create_collection("List".to_string(), CollectionVisibility::Public);
    complete_add(
        &mut room,
        &mut store,
        AddTarget::Collection(id.clone()),
        "vid2".to_string(),
        "Ben".to_string(),
        fallback_metadata("vid2"),
    )
    .unwrap();
    assert_eq!(store.playlists[0].songs.len(), 1);
    assert_eq!(store.playlists[0].songs[0].youtube_id, "vid2");
    // the room's playlists snapshot was resynced
    assert_eq!(room.playlists.len(), 1);
    assert_eq!(room.playlists[0].songs.len(), 1);

    let missing = complete_add(
        &mut room,
        &mut store,
        AddTarget::Collection("nope".to_string()),
        "vid3".to_string(),
        "Ben".to_string(),
        fallback_metadata("vid3"),
    );
    assert_eq!(missing.unwrap_err(), "Collection not found");
}

#[test]
fn complete_add_empty_target_uses_default_collection() {
    let (mut room, mut store) = fresh();
    complete_add(
        &mut room,
        &mut store,
        AddTarget::Collection(String::new()),
        "vid4".to_string(),
        "Ann".to_string(),
        fallback_metadata("vid4"),
    )
    .unwrap();
    assert_eq!(store.playlists.len(), 1);
    assert_eq!(store.playlists[0].name, "Default Playlist");
    assert_eq!(store.playlists[0].songs.len(), 1);
}

#[test]
fn queue_commands_report_errors() {
    let (mut room, mut store) = fresh();
    let r = process_command(
        &mut room,
        &mut store,
        ClientCommand::REMOVE_SONG { song_id: "zz".to_string() },
    );
    assert_eq!(r.unwrap_err(), "Song not found");
    let r2 = process_command(
        &mut room,
        &mut store,
        ClientCommand::REORDER_QUEUE { song_id: "zz".to_string(), new_index: 0 },
    );
    assert_eq!(r2.unwrap_err(), "Failed to reorder queue");
    // the move variants swallow boundary no-ops, as the host always did
    assert!(
        process_command(
            &mut room,
            &mut store,
            ClientCommand::MOVE_SONG_UP { song_id: "zz".to_string() },
        )
        .is_ok()
    );
}

#[test]
fn collection_commands_mutate_and_resync() {
    let (mut room, mut store) = fresh();
    process_command(
        &mut room,
        &mut store,
        ClientCommand::CREATE_COLLECTION {
            name: "List".to_string(),
            visibility: CollectionVisibility::Public,
        },
    )
    .unwrap();
    assert_eq!(store.playlists.len(), 1);
    assert_eq!(room.playlists.len(), 1);
    let cid = store.playlists[0].id.clone();

    process_command(
        &mut room,
        &mut store,
        ClientCommand::RENAME_COLLECTION { collection_id: cid.clone(), name: "L2".to_string() },
    )
    .unwrap();
    assert_eq!(room.playlists[0].name, "L2");

    process_command(
        &mut room,
        &mut store,
        ClientCommand::SET_COLLECTION_VISIBILITY {
            collection_id: cid.clone(),
            visibility: CollectionVisibility::Personal,
        },
    )
    .unwrap();
    assert!(matches!(store.playlists[0].visibility, CollectionVisibility::Personal));

    store.add_to_collection(&cid, song("s1", "One"));
    process_command(
        &mut room,
        &mut store,
        ClientCommand::PLAYLIST_TO_QUEUE { song_id: "s1".to_string(), collection_id: cid.clone() },
    )
    .unwrap();
    assert_eq!(room.player.current_song.as_ref().unwrap().title, "One");

    process_command(
        &mut room,
        &mut store,
        ClientCommand::PLAYLIST_REMOVE { song_id: "s1".to_string(), collection_id: cid.clone() },
    )
    .unwrap();
    assert!(store.playlists[0].songs.is_empty());
    let gone = process_command(
        &mut room,
        &mut store,
        ClientCommand::PLAYLIST_REMOVE { song_id: "s1".to_string(), collection_id: cid.clone() },
    );
    assert_eq!(gone.unwrap_err(), "Song not found in collection");

    process_command(
        &mut room,
        &mut store,
        ClientCommand::DELETE_COLLECTION { collection_id: cid.clone() },
    )
    .unwrap();
    assert!(store.playlists.is_empty());
    assert!(room.playlists.is_empty());
    let missing = process_command(
        &mut room,
        &mut store,
        ClientCommand::DELETE_COLLECTION { collection_id: cid },
    );
    assert_eq!(missing.unwrap_err(), "Collection not found");
}

#[test]
fn import_command_reports_parse_errors() {
    let (mut room, mut store) = fresh();
    let r = process_command(
        &mut room,
        &mut store,
        ClientCommand::IMPORT_COLLECTION { data: "garbage".to_string() },
    );
    assert_eq!(r.unwrap_err(), "Import failed: Invalid collection data");
    // a well-formed envelope imports and resyncs
    let id = store.create_collection("Mix".to_string(), CollectionVisibility::Public);
    let data = store.export_collection(&id).unwrap();
    process_command(&mut room, &mut store, ClientCommand::IMPORT_COLLECTION { data }).unwrap();
    assert_eq!(store.playlists.len(), 2);
    assert_eq!(room.playlists.len(), 2);
    assert_eq!(store.playlists[1].name, "Mix (Imported)");
}

#[test]
fn generated_ids_have_the_advertised_shape() {
    let rid = generate_room_id();
    assert_eq!(rid.len(), 6);
    assert!(rid.chars().all(|c| c.is_ascii_hexdigit()));
    let token = generate_join_token();
    assert!(!token.contains('-'));
    assert!(!token.is_empty());
    // two draws should differ: the ids are random
    assert_ne!(generate_room_id(), rid);
}

#[test]
fn server_port_is_what_was_bound() {
    let server = WebServerState { bound_port: 49321 };
    assert_eq!(get_server_port(&server), 49321);
}
