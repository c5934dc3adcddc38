use karaoke_room::collection::default_public_visibility;
use karaoke_room::collection::upgrade_legacy_songs;
use karaoke_room::collection::CollectionVisibility;
use karaoke_room::collection::PlaylistStore;
use karaoke_room::song::fallback_metadata;
use karaoke_room::song::Song;

fn song(id: &str, title: &str) -> Song {
    Song {
        id: id.to_string(),
        youtube_id: format!("yt_{}", id),
        title: title.to_string(),
        artist: "Artist".to_string(),
        duration: 200,
        thumbnail_url: "https://example.com/t.jpg".to_string(),
        added_by: "Host".to_string(),
        added_at: 1_700_000_000_000,
    }
}

#[test]
fn create_rename_visibility_delete() {
    let mut store = PlaylistStore::new();
    let id = store.create_collection("Mine".to_string(), CollectionVisibility::Personal);
    assert_eq!(store.playlists.len(), 1);
    assert_eq!(store.playlists[0].name, "Mine");
    assert!(store.rename_collection(&id, "Ours".to_string()));
    assert_eq!(store.playlists[0].name, "Ours");
    assert!(store.set_collection_visibility(&id, CollectionVisibility::Public));
    assert!(matches!(store.playlists[0].visibility, CollectionVisibility::Public));
    assert!(!store.rename_collection("nope", "X".to_string()));
    assert!(store.delete_collection(&id));
    assert!(store.playlists.is_empty());
    assert!(!store.delete_collection(&id));
}

#[test]
fn add_and_remove_songs() {
    let mut store = PlaylistStore::new();
    let id = store.create_collection("List".to_string(), CollectionVisibility::Public);
    assert!(store.add_to_collection(&id, song("s1", "One")));
    assert!(store.add_to_collection(&id, song("s2", "Two")));
    assert!(!store.add_to_collection("nope", song("s3", "Three")));
    assert_eq!(store.playlists[0].songs.len(), 2);
    assert!(store.remove_from_collection(&id, "s1"));
    assert!(!store.remove_from_collection(&id, "s1"));
    assert!(!store.remove_from_collection("nope", "s2"));
    assert_eq!(store.playlists[0].songs.len(), 1);
    assert_eq!(store.playlists[0].songs[0].id, "s2");
}

#[test]
fn copy_for_queue_mints_fresh_identity() {
    let mut store = PlaylistStore::new();
    let id = store.create_collection("List".to_string(), CollectionVisibility::Public);
    store.add_to_collection(&id, song("s1", "One"));
    let copy = store.clone_song_for_queue(&id, "s1").unwrap();
    assert_eq!(copy.title, "One");
    assert_eq!(copy.youtube_id, "yt_s1");
    assert_ne!(copy.id, "s1");
    // the source collection is untouched
    assert_eq!(store.playlists[0].songs[0].id, "s1");
    assert!(store.clone_song_for_queue(&id, "missing").is_none());
    assert!(store.clone_song_for_queue("missing", "s1").is_none());
}

#[test]
fn default_collection_is_created_once() {
    let mut store = PlaylistStore::new();
    let id = store.get_or_create_default_collection();
    assert_eq!(store.playlists.len(), 1);
    assert_eq!(store.playlists[0].name, "Default Playlist");
    assert!(matches!(store.playlists[0].visibility, CollectionVisibility::Public));
    let id2 = store.get_or_create_default_collection();
    assert_eq!(store.playlists.len(), 1);
    assert_eq!(id, id2);
}

#[test]
fn public_snapshot_only_public() {
    let mut store = PlaylistStore::new();
    store.create_collection("A".to_string(), CollectionVisibility::Public);
    store.create_collection("B".to_string(), CollectionVisibility::Personal);
    store.create_collection("C".to_string(), CollectionVisibility::Public);
    let all = store.get_all();
    assert_eq!(all.len(), 3);
    let public = store.get_public();
    assert_eq!(public.len(), 2);
    assert_eq!(public[0].name, "A");
    assert_eq!(public[1].name, "C");
}

#[test]
fn export_import_round_trip() {
    let mut store = PlaylistStore::new();
    let id = store.create_collection("Road Trip".to_string(), CollectionVisibility::Personal);
    store.add_to_collection(&id, song("s1", "One"));
    store.add_to_collection(&id, song("s2", "Two \"quoted\" \\ title"));
    let data = store.export_collection(&id).unwrap();

    let mut other = PlaylistStore::new();
    let new_id = other.import_collection(&data).unwrap();
    assert_ne!(new_id, id);
    assert_eq!(other.playlists.len(), 1);
    let imported = &other.playlists[0];
    assert_eq!(imported.name, "Road Trip");
    assert!(matches!(imported.visibility, CollectionVisibility::Personal));
    assert_eq!(imported.songs.len(), 2);
    assert_eq!(imported.songs[0].title, "One");
    assert_eq!(imported.songs[1].title, "Two \"quoted\" \\ title");
    assert_eq!(imported.songs[0].youtube_id, "yt_s1");
    // imported songs never alias identities with the source
    assert_ne!(imported.songs[0].id, "s1");
    assert_ne!(imported.songs[1].id, "s2");
}

#[test]
fn export_unknown_collection_fails() {
    let store = PlaylistStore::new();
    assert_eq!(store.export_collection("nope").unwrap_err(), "Collection not found");
}

#[test]
fn import_malformed_data_fails() {
    let mut store = PlaylistStore::new();
    let err = store.import_collection("not an envelope").unwrap_err();
    assert_eq!(err, "Invalid collection data");
    assert!(store.playlists.is_empty());
    assert!(store.import_collection("").is_err());
    assert!(store.import_collection("{\"formatTag\":\"2.0\"}").is_err());
}

#[test]
fn import_suffixes_colliding_names() {
    let mut store = PlaylistStore::new();
    let id = store.create_collection("Rock Hits".to_string(), CollectionVisibility::Public);
    let data = store.export_collection(&id).unwrap();
    store.import_collection(&data).unwrap();
    store.import_collection(&data).unwrap();
    let names: Vec<String> = store.playlists.iter().map(|c| c.name.clone()).collect();
    assert_eq!(
        names,
        vec![
            "Rock Hits".to_string(),
            "Rock Hits (Imported)".to_string(),
            "Rock Hits (Imported 2)".to_string(),
        ]
    );
    store.import_collection(&data).unwrap();
    assert_eq!(store.playlists[3].name, "Rock Hits (Imported 3)");
}

#[test]
fn legacy_songs_become_default_collection() {
    let songs = vec![song("s1", "One"), song("s2", "Two")];
    let col = upgrade_legacy_songs(songs);
    assert_eq!(col.name, "Default Playlist");
    assert!(matches!(col.visibility, CollectionVisibility::Public));
    assert_eq!(col.songs.len(), 2);
    assert_eq!(col.created_at, col.updated_at);
}

#[test]
fn fallback_metadata_policy() {
    let meta = fallback_metadata("vid123");
    assert_eq!(meta.title, "YouTube Video vid123");
    assert_eq!(meta.artist, "Unknown Artist");
    assert_eq!(meta.duration, 0);
    assert_eq!(meta.thumbnail_url, "https://img.youtube.com/vi/vid123/mqdefault.jpg");
}

#[test]
fn default_visibility_is_public() {
    assert!(matches!(default_public_visibility(), CollectionVisibility::Public));
}

#[test]
fn negative_timestamps_survive_the_envelope() {
    let mut store = PlaylistStore::new();
    let id = store.create_collection("Old".to_string(), CollectionVisibility::Public);
    let mut s = song("s1", "One");
    s.added_at = -42;
    store.add_to_collection(&id, s);
    let data = store.export_collection(&id).unwrap();
    let mut other = PlaylistStore::new();
    other.import_collection(&data).unwrap();
    // the identity is re-minted but the content came through the envelope
    assert_eq!(other.playlists[0].songs[0].title, "One");
}
