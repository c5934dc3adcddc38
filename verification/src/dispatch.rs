//! The command dispatcher: translates one inbound client command into room
//! and collection-store mutations. Commands that need external metadata
//! (adding a song by URL) are answered with a fetch request; the embedding
//! application performs the fetch and hands the result to `complete_add`,
//! which finishes the mutation. Every playlist-affecting command mutates the
//! store first and resyncs the room's playlists snapshot only on success.

use vstd::prelude::*;
use vstd::string::StringExecFns;

use crate::collection::find_col;
use crate::collection::import_name;
use crate::collection::songs_reminted;
use crate::collection::CollectionV;
use crate::collection::CollectionVisibility;
use crate::collection::PlaylistStore;
use crate::collection::find_song;
use crate::ext::lemma_hex_of_len;
use crate::ext::hex_encode;
use crate::ext::mint_id;
use crate::ext::sha256;
use crate::room::spec_add_song;
use crate::room::spec_move_song_down;
use crate::room::spec_move_song_to_bottom;
use crate::room::spec_move_song_to_top;
use crate::room::spec_move_song_up;
use crate::room::spec_pause;
use crate::room::spec_play;
use crate::room::spec_remove_song;
use crate::room::spec_reorder_queue;
use crate::room::spec_seek;
use crate::room::spec_set_volume;
use crate::room::spec_skip_song;
use crate::room::spec_sync_playlists;
use crate::room::spec_toggle_mute;
use crate::room::RoomState;
use crate::song::song_copy_of;
use crate::song::song_from_metadata;
use crate::song::SongMetadata;
use crate::song::SongV;
use crate::text::spec_extract_youtube_id;
use crate::text::extract_youtube_id;
use crate::text::remove_hyphens;
use crate::text::lemma_strip_hyphens_free;

verus! {

/// One room-scoped client command, as carried by the remote-control
/// protocol.
#[allow(non_camel_case_types)]
pub enum ClientCommand {
    PLAY,
    PAUSE,
    SKIP,
    SEEK { time: u64 },
    SET_VOLUME { volume: u8 },
    TOGGLE_MUTE,
    ADD_SONG { youtube_url: String, added_by: Option<String> },
    REMOVE_SONG { song_id: String },
    MOVE_SONG_UP { song_id: String },
    MOVE_SONG_DOWN { song_id: String },
    MOVE_SONG_TO_TOP { song_id: String },
    MOVE_SONG_TO_BOTTOM { song_id: String },
    REORDER_QUEUE { song_id: String, new_index: usize },
    SET_DISPLAY_NAME { name: String },
    PING,
    PLAYLIST_ADD { youtube_url: String, collection_id: String, added_by: Option<String> },
    PLAYLIST_REMOVE { song_id: String, collection_id: String },
    PLAYLIST_TO_QUEUE { song_id: String, collection_id: String },
    CREATE_COLLECTION { name: String, visibility: CollectionVisibility },
    DELETE_COLLECTION { collection_id: String },
    RENAME_COLLECTION { collection_id: String, name: String },
    SET_COLLECTION_VISIBILITY { collection_id: String, visibility: CollectionVisibility },
    IMPORT_COLLECTION { data: String },
}

/// Where a fetched song is to go.
#[derive(Debug)]
pub enum AddTarget {
    Queue,
    Collection(String),
}

/// What a command asks the embedding application to do next: nothing, or
/// fetch metadata for a video and call `complete_add` with it.
#[derive(Debug)]
pub enum Dispatch {
    Done,
    NeedsMetadata { youtube_id: String, added_by: String, target: AddTarget },
}

/// The contributor name used when a command names none.
pub open spec fn added_by_or_guest(added_by: Option<String>) -> Seq<char> {
    match added_by {
        Some(a) => a@,
        None => "Guest"@,
    }
}

/// Does this song carry the given content and contributor?
pub open spec fn song_built_from(
    sv: SongV,
    youtube_id: Seq<char>,
    added_by: Seq<char>,
    meta: SongMetadata,
) -> bool {
    &&& sv.youtube_id == youtube_id
    &&& sv.title == meta.title@
    &&& sv.artist == meta.artist@
    &&& sv.duration == meta.duration
    &&& sv.thumbnail_url == meta.thumbnail_url@
    &&& sv.added_by == added_by
}

/// Applies one client command to the room and the collection store.
/// Commands that add a song by URL do not mutate anything here: they return
/// the fetch request for the embedding application, which completes the
/// mutation through `complete_add` once the metadata (or its fallback) is in
/// hand. Every error leaves both states unchanged, except the reorder and
/// removal failures, which were no-ops to begin with.
pub fn process_command(room: &mut RoomState, store: &mut PlaylistStore, cmd: ClientCommand) -> (r:
    Result<Dispatch, String>)
    ensures
        match cmd {
            ClientCommand::PLAY => r matches Ok(d) && d is Done && final(room)@ == spec_play(
                old(room)@,
                final(room).updated_at,
            ) && final(store)@ == old(store)@,
            ClientCommand::PAUSE => r matches Ok(d) && d is Done && final(room)@ == spec_pause(
                old(room)@,
                final(room).updated_at,
            ) && final(store)@ == old(store)@,
            ClientCommand::SKIP => r matches Ok(d) && d is Done && final(room)@ == spec_skip_song(
                old(room)@,
                final(room).updated_at,
            ) && final(store)@ == old(store)@,
            ClientCommand::SEEK { time } => r matches Ok(d) && d is Done && final(room)@
                == spec_seek(old(room)@, time, final(room).updated_at) && final(store)@ == old(store)@,
            ClientCommand::SET_VOLUME { volume } => r matches Ok(d) && d is Done && final(room)@
                == spec_set_volume(old(room)@, volume, final(room).updated_at) && final(store)@
                == old(store)@,
            ClientCommand::TOGGLE_MUTE => r matches Ok(d) && d is Done && final(room)@
                == spec_toggle_mute(old(room)@, final(room).updated_at) && final(store)@ == old(store)@,
            ClientCommand::ADD_SONG { youtube_url, added_by } => final(room)@ == old(room)@
                && final(store)@ == old(store)@ && (match spec_extract_youtube_id(youtube_url@) {
                None => r matches Err(e) && e@ == "Invalid YouTube URL"@,
                Some(vid) => r matches Ok(d) && d matches Dispatch::NeedsMetadata {
                    youtube_id,
                    added_by: by,
                    target,
                } && youtube_id@ == vid && by@ == added_by_or_guest(added_by) && target is Queue,
            }),
            ClientCommand::REMOVE_SONG { song_id } => final(store)@ == old(store)@ && (
            match find_song(old(room)@.queue, song_id@) {
                Some(_) => r matches Ok(d) && d is Done && final(room)@ == spec_remove_song(
                    old(room)@,
                    song_id@,
                    final(room).updated_at,
                ).0,
                None => r matches Err(e) && e@ == "Song not found"@ && final(room)@ == old(room)@,
            }),
            ClientCommand::MOVE_SONG_UP { song_id } => r matches Ok(d) && d is Done && final(room)@ == spec_move_song_up(old(room)@, song_id@, final(room).updated_at).0 && final(store)@ == old(store)@,
            ClientCommand::MOVE_SONG_DOWN { song_id } => r matches Ok(d) && d is Done && final(room)@ == spec_move_song_down(old(room)@, song_id@, final(room).updated_at).0 && final(store)@ == old(store)@,
            ClientCommand::MOVE_SONG_TO_TOP { song_id } => r matches Ok(d) && d is Done && final(room)@ == spec_move_song_to_top(old(room)@, song_id@, final(room).updated_at).0 && final(store)@ == old(store)@,
            ClientCommand::MOVE_SONG_TO_BOTTOM { song_id } => r matches Ok(d) && d is Done
                && final(room)@ == spec_move_song_to_bottom(
                old(room)@,
                song_id@,
                final(room).updated_at,
            ).0 && final(store)@ == old(store)@,
            ClientCommand::REORDER_QUEUE { song_id, new_index } => final(store)@ == old(store)@
                && final(room)@ == spec_reorder_queue(
                old(room)@,
                song_id@,
                new_index as int,
                final(room).updated_at,
            ).0 && (if spec_reorder_queue(
                old(room)@,
                song_id@,
                new_index as int,
                final(room).updated_at,
            ).1 {
                r matches Ok(d) && d is Done
            } else {
                r matches Err(e) && e@ == "Failed to reorder queue"@
            }),
            ClientCommand::SET_DISPLAY_NAME { name } => r matches Ok(d) && d is Done && final(room)@ == old(room)@ && final(store)@ == old(store)@,
            ClientCommand::PING => r matches Ok(d) && d is Done && final(room)@ == old(room)@
                && final(store)@ == old(store)@,
            ClientCommand::PLAYLIST_ADD { youtube_url, collection_id, added_by } => final(room)@
                == old(room)@ && final(store)@ == old(store)@ && (match spec_extract_youtube_id(
                youtube_url@,
            ) {
                None => r matches Err(e) && e@ == "Invalid YouTube URL"@,
                Some(vid) => r matches Ok(d) && d matches Dispatch::NeedsMetadata {
                    youtube_id,
                    added_by: by,
                    target,
                } && youtube_id@ == vid && by@ == added_by_or_guest(added_by) && (
                target matches AddTarget::Collection(cid) && cid@ == collection_id@),
            }),
            ClientCommand::PLAYLIST_REMOVE { song_id, collection_id } => (
            match find_col(old(store)@, collection_id@) {
                Some(i) => match find_song(old(store)@[i].songs, song_id@) {
                    Some(j) => r matches Ok(d) && d is Done && final(store)@ == old(store)@.update(
                        i,
                        CollectionV {
                            songs: old(store)@[i].songs.remove(j),
                            updated_at: final(store)@[i].updated_at,
                            ..old(store)@[i]
                        },
                    ) && final(room)@ == spec_sync_playlists(
                        old(room)@,
                        final(store)@,
                        final(room).updated_at,
                    ),
                    None => r matches Err(e) && e@ == "Song not found in collection"@ && final(store)@ == old(store)@ && final(room)@ == old(room)@,
                },
                None => r matches Err(e) && e@ == "Song not found in collection"@ && final(store)@
                    == old(store)@ && final(room)@ == old(room)@,
            }),
            ClientCommand::PLAYLIST_TO_QUEUE { song_id, collection_id } => final(store)@ == old(store)@ && (match find_col(old(store)@, collection_id@) {
                Some(i) => match find_song(old(store)@[i].songs, song_id@) {
                    Some(j) => r matches Ok(d) && d is Done && (exists|sv: SongV|
                        #[trigger] song_copy_of(sv, old(store)@[i].songs[j]) && final(room)@
                            == spec_add_song(old(room)@, sv, final(room).updated_at)),
                    None => r matches Err(e) && e@ == "Song not found in collection"@ && final(room)@ == old(room)@,
                },
                None => r matches Err(e) && e@ == "Song not found in collection"@ && final(room)@
                    == old(room)@,
            }),
            ClientCommand::CREATE_COLLECTION { name, visibility } => r matches Ok(d) && d is Done
                && final(store)@.len() == old(store)@.len() + 1 && final(store)@.subrange(
                0,
                old(store)@.len() as int,
            ) == old(store)@ && final(store)@.last().name == name@ && final(store)@.last().visibility
                == visibility && final(store)@.last().songs == Seq::<SongV>::empty() && final(room)@ == spec_sync_playlists(old(room)@, final(store)@, final(room).updated_at),
            ClientCommand::DELETE_COLLECTION { collection_id } => (
            match find_col(old(store)@, collection_id@) {
                Some(i) => r matches Ok(d) && d is Done && final(store)@ == old(store)@.remove(i)
                    && final(room)@ == spec_sync_playlists(
                    old(room)@,
                    final(store)@,
                    final(room).updated_at,
                ),
                None => r matches Err(e) && e@ == "Collection not found"@ && final(store)@ == old(store)@ && final(room)@ == old(room)@,
            }),
            ClientCommand::RENAME_COLLECTION { collection_id, name } => (
            match find_col(old(store)@, collection_id@) {
                Some(i) => r matches Ok(d) && d is Done && final(store)@ == old(store)@.update(
                    i,
                    CollectionV {
                        name: name@,
                        updated_at: final(store)@[i].updated_at,
                        ..old(store)@[i]
                    },
                ) && final(room)@ == spec_sync_playlists(
                    old(room)@,
                    final(store)@,
                    final(room).updated_at,
                ),
                None => r matches Err(e) && e@ == "Collection not found"@ && final(store)@ == old(store)@ && final(room)@ == old(room)@,
            }),
            ClientCommand::SET_COLLECTION_VISIBILITY { collection_id, visibility } => (
            match find_col(old(store)@, collection_id@) {
                Some(i) => r matches Ok(d) && d is Done && final(store)@ == old(store)@.update(
                    i,
                    CollectionV {
                        visibility,
                        updated_at: final(store)@[i].updated_at,
                        ..old(store)@[i]
                    },
                ) && final(room)@ == spec_sync_playlists(
                    old(room)@,
                    final(store)@,
                    final(room).updated_at,
                ),
                None => r matches Err(e) && e@ == "Collection not found"@ && final(store)@ == old(store)@ && final(room)@ == old(room)@,
            }),
            ClientCommand::IMPORT_COLLECTION { data } => (
            match crate::codec::spec_parse_envelope(data@) {
                Some(env) => r matches Ok(d) && d is Done && final(store)@.len() == old(store)@.len() + 1 && final(store)@.subrange(0, old(store)@.len() as int) == old(store)@
                    && final(store)@.last().name == import_name(old(store)@, env.name) && final(store)@.last().visibility == env.visibility && songs_reminted(
                    final(store)@.last().songs,
                    env.songs,
                ) && final(room)@ == spec_sync_playlists(
                    old(room)@,
                    final(store)@,
                    final(room).updated_at,
                ),
                None => r matches Err(e) && e@ == "Import failed: "@ + "Invalid collection data"@
                    && final(store)@ == old(store)@ && final(room)@ == old(room)@,
            }),
        },
{
    match cmd {
        ClientCommand::PLAY => {
            room.play();
            Ok(Dispatch::Done)
        },
        ClientCommand::PAUSE => {
            room.pause();
            Ok(Dispatch::Done)
        },
        ClientCommand::SKIP => {
            room.skip_song();
            Ok(Dispatch::Done)
        },
        ClientCommand::SEEK { time } => {
            room.seek(time);
            Ok(Dispatch::Done)
        },
        ClientCommand::SET_VOLUME { volume } => {
            room.set_volume(volume);
            Ok(Dispatch::Done)
        },
        ClientCommand::TOGGLE_MUTE => {
            room.toggle_mute();
            Ok(Dispatch::Done)
        },
        ClientCommand::ADD_SONG { youtube_url, added_by } => {
            match extract_youtube_id(youtube_url.as_str()) {
                Some(youtube_id) => Ok(
                    Dispatch::NeedsMetadata {
                        youtube_id,
                        added_by: match added_by {
                            Some(a) => a,
                            None => String::from_str("Guest"),
                        },
                        target: AddTarget::Queue,
                    },
                ),
                None => Err(String::from_str("Invalid YouTube URL")),
            }
        },
        ClientCommand::REMOVE_SONG { song_id } => {
            if room.remove_song(song_id.as_str()) {
                Ok(Dispatch::Done)
            } else {
                Err(String::from_str("Song not found"))
            }
        },
        ClientCommand::MOVE_SONG_UP { song_id } => {
            room.move_song_up(song_id.as_str());
            Ok(Dispatch::Done)
        },
        ClientCommand::MOVE_SONG_DOWN { song_id } => {
            room.move_song_down(song_id.as_str());
            Ok(Dispatch::Done)
        },
        ClientCommand::MOVE_SONG_TO_TOP { song_id } => {
            room.move_song_to_top(song_id.as_str());
            Ok(Dispatch::Done)
        },
        ClientCommand::MOVE_SONG_TO_BOTTOM { song_id } => {
            room.move_song_to_bottom(song_id.as_str());
            Ok(Dispatch::Done)
        },
        ClientCommand::REORDER_QUEUE { song_id, new_index } => {
            if room.reorder_queue(song_id.as_str(), new_index) {
                Ok(Dispatch::Done)
            } else {
                Err(String::from_str("Failed to reorder queue"))
            }
        },
        ClientCommand::SET_DISPLAY_NAME { name: _ } => Ok(Dispatch::Done),
        ClientCommand::PING => Ok(Dispatch::Done),
        ClientCommand::PLAYLIST_ADD { youtube_url, collection_id, added_by } => {
            match extract_youtube_id(youtube_url.as_str()) {
                Some(youtube_id) => Ok(
                    Dispatch::NeedsMetadata {
                        youtube_id,
                        added_by: match added_by {
                            Some(a) => a,
                            None => String::from_str("Guest"),
                        },
                        target: AddTarget::Collection(collection_id),
                    },
                ),
                None => Err(String::from_str("Invalid YouTube URL")),
            }
        },
        ClientCommand::PLAYLIST_REMOVE { song_id, collection_id } => {
            if store.remove_from_collection(collection_id.as_str(), song_id.as_str()) {
                room.sync_playlists(store.get_all());
                Ok(Dispatch::Done)
            } else {
                Err(String::from_str("Song not found in collection"))
            }
        },
        ClientCommand::PLAYLIST_TO_QUEUE { song_id, collection_id } => {
            match store.clone_song_for_queue(collection_id.as_str(), song_id.as_str()) {
                Some(song) => {
                    let ghost sv = song@;
                    room.add_song(song);
                    proof {
                        let i = find_col(old(store)@, collection_id@)->Some_0;
                        let j = find_song(old(store)@[i].songs, song_id@)->Some_0;
                        assert(song_copy_of(sv, old(store)@[i].songs[j]) && final(room)@
                            == spec_add_song(old(room)@, sv, final(room).updated_at));
                    }
                    Ok(Dispatch::Done)
                },
                None => Err(String::from_str("Song not found in collection")),
            }
        },
        ClientCommand::CREATE_COLLECTION { name, visibility } => {
            store.create_collection(name, visibility);
            room.sync_playlists(store.get_all());
            Ok(Dispatch::Done)
        },
        ClientCommand::DELETE_COLLECTION { collection_id } => {
            if store.delete_collection(collection_id.as_str()) {
                room.sync_playlists(store.get_all());
                Ok(Dispatch::Done)
            } else {
                Err(String::from_str("Collection not found"))
            }
        },
        ClientCommand::RENAME_COLLECTION { collection_id, name } => {
            if store.rename_collection(collection_id.as_str(), name) {
                room.sync_playlists(store.get_all());
                Ok(Dispatch::Done)
            } else {
                Err(String::from_str("Collection not found"))
            }
        },
        ClientCommand::SET_COLLECTION_VISIBILITY { collection_id, visibility } => {
            if store.set_collection_visibility(collection_id.as_str(), visibility) {
                room.sync_playlists(store.get_all());
                Ok(Dispatch::Done)
            } else {
                Err(String::from_str("Collection not found"))
            }
        },
        ClientCommand::IMPORT_COLLECTION { data } => {
            match store.import_collection(data.as_str()) {
                Ok(_) => {
                    room.sync_playlists(store.get_all());
                    Ok(Dispatch::Done)
                },
                Err(e) => {
                    let mut msg = String::from_str("Import failed: ");
                    msg.append(e.as_str());
                    Err(msg)
                },
            }
        },
    }
}

/// Finishes an add-song command once the metadata is in hand: mints the song
/// and routes it to the queue, or to the named collection (or the default
/// collection when none is named), resyncing the room's playlists snapshot
/// after a store mutation.
pub fn complete_add(
    room: &mut RoomState,
    store: &mut PlaylistStore,
    target: AddTarget,
    youtube_id: String,
    added_by: String,
    meta: SongMetadata,
) -> (r: Result<(), String>)
    ensures
        match target {
            AddTarget::Queue => r is Ok && final(store)@ == old(store)@ && (exists|sv: SongV|
                #[trigger] song_built_from(sv, youtube_id@, added_by@, meta) && final(room)@
                    == spec_add_song(old(room)@, sv, final(room).updated_at)),
            AddTarget::Collection(cid) => {
                if cid@.len() == 0 {
                    r is Ok && (exists|sv: SongV|
                        #[trigger] song_built_from(sv, youtube_id@, added_by@, meta) && ({
                            if old(store)@.len() > 0 {
                                final(store)@ == old(store)@.update(
                                    0,
                                    CollectionV {
                                        songs: old(store)@[0].songs.push(sv),
                                        updated_at: final(store)@[0].updated_at,
                                        ..old(store)@[0]
                                    },
                                )
                            } else {
                                &&& final(store)@.len() == 1
                                &&& final(store)@[0].name == "Default Playlist"@
                                &&& final(store)@[0].visibility == CollectionVisibility::Public
                                &&& final(store)@[0].songs == seq![sv]
                            }
                        })) && final(room)@ == spec_sync_playlists(
                        old(room)@,
                        final(store)@,
                        final(room).updated_at,
                    )
                } else {
                    match find_col(old(store)@, cid@) {
                        Some(i) => r is Ok && (exists|sv: SongV|
                            #[trigger] song_built_from(sv, youtube_id@, added_by@, meta) && final(store)@ == old(store)@.update(
                                i,
                                CollectionV {
                                    songs: old(store)@[i].songs.push(sv),
                                    updated_at: final(store)@[i].updated_at,
                                    ..old(store)@[i]
                                },
                            )) && final(room)@ == spec_sync_playlists(
                            old(room)@,
                            final(store)@,
                            final(room).updated_at,
                        ),
                        None => r matches Err(e) && e@ == "Collection not found"@ && final(store)@
                            == old(store)@ && final(room)@ == old(room)@,
                    }
                }
            },
        },
{
    let ghost yid = youtube_id@;
    let ghost by = added_by@;
    let song = song_from_metadata(youtube_id, added_by, meta);
    let ghost sv = song@;
    match target {
        AddTarget::Queue => {
            room.add_song(song);
            proof {
                assert(song_built_from(sv, yid, by, meta) && final(room)@ == spec_add_song(
                    old(room)@,
                    sv,
                    final(room).updated_at,
                ));
            }
            Ok(())
        },
        AddTarget::Collection(cid) => {
            if cid.as_str().is_empty() {
                let target_id = store.get_or_create_default_collection();
                let added = store.add_to_collection(target_id.as_str(), song);
                proof {
                    assert(added);
                }
                room.sync_playlists(store.get_all());
                proof {
                    if old(store)@.len() > 0 {
                        assert(song_built_from(sv, yid, by, meta) && final(store)@ == old(store)@.update(
                            0,
                            CollectionV {
                                songs: old(store)@[0].songs.push(sv),
                                updated_at: final(store)@[0].updated_at,
                                ..old(store)@[0]
                            },
                        ));
                    } else {
                        assert(final(store)@[0].songs =~= seq![sv]);
                        assert(song_built_from(sv, yid, by, meta) && final(store)@.len() == 1
                            && final(store)@[0].name == "Default Playlist"@ && final(store)@[0].visibility == CollectionVisibility::Public && final(store)@[0].songs
                            == seq![sv]);
                    }
                }
                Ok(())
            } else {
                if store.add_to_collection(cid.as_str(), song) {
                    room.sync_playlists(store.get_all());
                    proof {
                        let i = find_col(old(store)@, cid@)->Some_0;
                        assert(song_built_from(sv, yid, by, meta) && final(store)@ == old(store)@.update(
                            i,
                            CollectionV {
                                songs: old(store)@[i].songs.push(sv),
                                updated_at: final(store)@[i].updated_at,
                                ..old(store)@[i]
                            },
                        ));
                    }
                    Ok(())
                } else {
                    Err(String::from_str("Collection not found"))
                }
            }
        },
    }
}

/// The host's reply to a room-creation request.
pub struct CreateRoomResponse {
    pub room_id: String,
    pub join_token: String,
}

/// Generates a short room id: six lowercase hex characters derived from a
/// fresh random identifier.
pub fn generate_room_id() -> (r: String)
    ensures
        r@.len() == 6,
        forall|i: int| 0 <= i < r@.len() ==> crate::ext::is_hex_char(r@[i]),
{
    let seed = mint_id();
    let mut digest = sha256(seed.as_str());
    digest.truncate(3);
    proof {
        lemma_hex_of_len(digest@);
        crate::ext::lemma_hex_of_chars(digest@);
    }
    hex_encode(digest.as_slice())
}

/// Generates a join token: a fresh random identifier with the hyphens
/// removed.
pub fn generate_join_token() -> (r: String)
    ensures
        forall|i: int| 0 <= i < r@.len() ==> r@[i] != '-',
{
    let seed = mint_id();
    let r = remove_hyphens(seed.as_str());
    proof {
        lemma_strip_hyphens_free(seed@);
    }
    r
}

} // verus!
