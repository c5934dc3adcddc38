use karaoke_room::room::parse_player_status;
use karaoke_room::room::PlayerStatus;
use karaoke_room::room::RoomState;
use karaoke_room::song::Song;
use karaoke_room::text::extract_youtube_id;
use karaoke_room::text::format_duration;
use karaoke_room::text::generate_qr_url;
use karaoke_room::collection::CollectionVisibility;
use karaoke_room::collection::PlaylistCollection;

fn song(id: &str, title: &str) -> Song {
    Song {
        id: id.to_string(),
        youtube_id: format!("yt_{}", id),
        title: title.to_string(),
        artist: "Artist".to_string(),
        duration: 180,
        thumbnail_url: "https://example.com/t.jpg".to_string(),
        added_by: "Host".to_string(),
        added_at: 1_700_000_000_000,
    }
}

fn collection(id: &str, name: &str, visibility: CollectionVisibility) -> PlaylistCollection {
    PlaylistCollection {
        id: id.to_string(),
        name: name.to_string(),
        visibility,
        songs: Vec::new(),
        created_at: 1,
        updated_at: 1,
    }
}

fn room_with_queue(ids: &[&str]) -> RoomState {
    let mut room = RoomState::new("room1".to_string(), "peer1".to_string(), Vec::new());
    // the first added song becomes the current song; queue the rest behind it
    room.add_song(song("current", "Now Playing"));
    for id in ids {
        room.add_song(song(id, id));
    }
    room
}

fn queue_ids(room: &RoomState) -> Vec<String> {
    room.queue.iter().map(|s| s.id.clone()).collect()
}

#[test]
fn test_extract_youtube_id() {
    assert_eq!(
        extract_youtube_id("https://www.youtube.com/watch?v=dQw4w9WgXcQ"),
        Some("dQw4w9WgXcQ".to_string())
    );
    assert_eq!(
        extract_youtube_id("https://youtu.be/dQw4w9WgXcQ"),
        Some("dQw4w9WgXcQ".to_string())
    );
    assert_eq!(extract_youtube_id("dQw4w9WgXcQ"), Some("dQw4w9WgXcQ".to_string()));
}

#[test]
fn extract_rejects_other_text() {
    assert_eq!(extract_youtube_id("not a video link"), None);
}

#[test]
fn test_format_duration() {
    assert_eq!(format_duration(65), "1:05");
    assert_eq!(format_duration(3661), "1:01:01");
    assert_eq!(format_duration(0), "0:00");
}

#[test]
fn test_generate_qr_url() {
    let url = generate_qr_url("192.168.1.10", 8080);
    assert!(url.starts_with("http://"));
    assert_eq!(url, "http://192.168.1.10:8080");
}

#[test]
fn auto_advance_on_add_and_skip() {
    let mut room = RoomState::new("r".to_string(), "p".to_string(), Vec::new());
    assert!(room.player.current_song.is_none());
    room.add_song(song("x", "X"));
    assert_eq!(room.player.current_song.as_ref().unwrap().id, "x");
    assert!(matches!(room.player.status, PlayerStatus::Loading));
    assert_eq!(room.player.current_time, 0);
    assert!(room.queue.is_empty());
    // skip with an empty queue: the current song is discarded, not requeued
    room.skip_song();
    assert!(room.player.current_song.is_none());
    assert!(matches!(room.player.status, PlayerStatus::Idle));
}

#[test]
fn skip_pops_queue_head() {
    let mut room = room_with_queue(&["a", "b"]);
    room.skip_song();
    assert_eq!(room.player.current_song.as_ref().unwrap().id, "a");
    assert_eq!(queue_ids(&room), vec!["b".to_string()]);
    assert!(matches!(room.player.status, PlayerStatus::Loading));
}

#[test]
fn play_resumes_or_starts() {
    let mut room = room_with_queue(&["a"]);
    room.pause();
    assert!(matches!(room.player.status, PlayerStatus::Paused));
    room.play();
    assert!(matches!(room.player.status, PlayerStatus::Playing));
    // with no current song but a queued one, play starts loading the head
    let mut idle = RoomState::new("r".to_string(), "p".to_string(), Vec::new());
    idle.play();
    assert!(idle.player.current_song.is_none());
    idle.add_song(song("c", "C"));
    idle.add_song(song("d", "D"));
    idle.skip_song();
    idle.pause();
    idle.play();
    assert!(matches!(idle.player.status, PlayerStatus::Playing));
}

#[test]
fn reorder_moves_to_new_index() {
    let mut room = room_with_queue(&["A", "B", "C"]);
    assert!(room.reorder_queue("A", 2));
    assert_eq!(queue_ids(&room), vec!["B".to_string(), "C".to_string(), "A".to_string()]);
    assert!(!room.reorder_queue("A", 3));
    assert!(!room.reorder_queue("nope", 0));
}

#[test]
fn move_to_top_reorders() {
    let mut room = room_with_queue(&["A", "B", "C"]);
    assert!(room.move_song_to_top("C"));
    assert_eq!(queue_ids(&room), vec!["C".to_string(), "A".to_string(), "B".to_string()]);
}

#[test]
fn move_up_on_head_is_noop() {
    let mut room = room_with_queue(&["A", "B", "C"]);
    assert!(!room.move_song_up("A"));
    assert_eq!(queue_ids(&room), vec!["A".to_string(), "B".to_string(), "C".to_string()]);
}

#[test]
fn move_down_and_bottom() {
    let mut room = room_with_queue(&["A", "B", "C"]);
    assert!(room.move_song_down("A"));
    assert_eq!(queue_ids(&room), vec!["B".to_string(), "A".to_string(), "C".to_string()]);
    assert!(!room.move_song_down("C"));
    assert!(room.move_song_to_bottom("B"));
    assert_eq!(queue_ids(&room), vec!["A".to_string(), "C".to_string(), "B".to_string()]);
    assert!(!room.move_song_to_bottom("B"));
}

#[test]
fn remove_song_only_from_queue() {
    let mut room = room_with_queue(&["a", "b"]);
    assert!(room.remove_song("a"));
    assert_eq!(queue_ids(&room), vec!["b".to_string()]);
    assert!(!room.remove_song("current"));
    assert_eq!(room.player.current_song.as_ref().unwrap().id, "current");
}

fn assert_disjoint(room: &RoomState) {
    if let Some(c) = &room.player.current_song {
        assert!(room.queue.iter().all(|s| s.id != c.id));
    }
    for i in 0..room.queue.len() {
        for j in i + 1..room.queue.len() {
            assert_ne!(room.queue[i].id, room.queue[j].id);
        }
    }
}

#[test]
fn queue_never_holds_current_song() {
    let mut room = RoomState::new("r".to_string(), "p".to_string(), Vec::new());
    room.add_song(song("s1", "S1"));
    assert_disjoint(&room);
    room.add_song(song("s2", "S2"));
    room.add_song(song("s3", "S3"));
    assert_disjoint(&room);
    room.skip_song();
    assert_disjoint(&room);
    room.remove_song("s3");
    assert_disjoint(&room);
    room.add_song(song("s4", "S4"));
    room.skip_song();
    assert_disjoint(&room);
    room.play();
    assert_disjoint(&room);
}

#[test]
fn volume_clamps_to_one_hundred() {
    let mut room = RoomState::new("r".to_string(), "p".to_string(), Vec::new());
    room.set_volume(250);
    assert_eq!(room.player.volume, 100);
    room.set_volume(35);
    assert_eq!(room.player.volume, 35);
}

#[test]
fn toggle_mute_flips() {
    let mut room = RoomState::new("r".to_string(), "p".to_string(), Vec::new());
    assert!(!room.player.is_muted);
    room.toggle_mute();
    assert!(room.player.is_muted);
    room.toggle_mute();
    assert!(!room.player.is_muted);
}

#[test]
fn seek_and_update_player() {
    let mut room = RoomState::new("r".to_string(), "p".to_string(), Vec::new());
    room.seek(42);
    assert_eq!(room.player.current_time, 42);
    room.update_player(Some(PlayerStatus::Playing), Some(7), Some(200));
    assert!(matches!(room.player.status, PlayerStatus::Playing));
    assert_eq!(room.player.current_time, 7);
    assert_eq!(room.player.duration, 200);
    room.update_player(None, None, None);
    assert_eq!(room.player.duration, 200);
}

#[test]
fn public_snapshot_filters_personal_playlists() {
    let playlists = vec![
        collection("c1", "P1", CollectionVisibility::Public),
        collection("c2", "P2", CollectionVisibility::Personal),
    ];
    let room = RoomState::new("r".to_string(), "p".to_string(), playlists);
    let full = room.snapshot();
    assert_eq!(full.playlists.len(), 2);
    assert_eq!(full.playlists[0].name, "P1");
    assert_eq!(full.playlists[1].name, "P2");
    let public = room.public_state();
    assert_eq!(public.playlists.len(), 1);
    assert_eq!(public.playlists[0].name, "P1");
    assert_eq!(public.room_id, full.room_id);
}

#[test]
fn clients_join_and_leave_room_state() {
    let mut room = RoomState::new("r".to_string(), "p".to_string(), Vec::new());
    room.add_client(karaoke_room::room::ConnectedClient {
        id: "c1".to_string(),
        display_name: "Ann".to_string(),
        connected_at: 5,
    });
    room.add_client(karaoke_room::room::ConnectedClient {
        id: "c2".to_string(),
        display_name: "Ben".to_string(),
        connected_at: 6,
    });
    assert_eq!(room.connected_clients.len(), 2);
    room.remove_client("c1");
    assert_eq!(room.connected_clients.len(), 1);
    assert_eq!(room.connected_clients[0].id, "c2");
}

#[test]
fn sync_playlists_replaces_snapshot() {
    let mut room = RoomState::new("r".to_string(), "p".to_string(), Vec::new());
    room.sync_playlists(vec![collection("c1", "N", CollectionVisibility::Public)]);
    assert_eq!(room.playlists.len(), 1);
    assert_eq!(room.playlists[0].name, "N");
}

#[test]
fn status_words_map_to_player_status() {
    assert!(matches!(parse_player_status("playing"), Some(PlayerStatus::Playing)));
    assert!(matches!(parse_player_status("paused"), Some(PlayerStatus::Paused)));
    assert!(matches!(parse_player_status("loading"), Some(PlayerStatus::Loading)));
    assert!(matches!(parse_player_status("error"), Some(PlayerStatus::Error)));
    assert!(matches!(parse_player_status("idle"), Some(PlayerStatus::Idle)));
    assert!(parse_player_status("buffering").is_none());
}
