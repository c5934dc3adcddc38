//! The room-state engine: one authoritative playback/queue state per running
//! host, mutated by commands and snapshotted for broadcast. Every mutation
//! touches `updated_at`; snapshots are deep copies, and the public snapshot
//! filters the playlists down to the public ones — the only view remote
//! participants ever receive.

use vstd::prelude::*;

use crate::collection::cols_view;
use crate::collection::find_song;
use crate::collection::find_song_index;
use crate::collection::lemma_find_song_props;
use crate::collection::public_cols;
use crate::collection::CollectionV;
use crate::collection::CollectionVisibility;
use crate::collection::PlaylistCollection;
use crate::ext::now_millis;
use crate::song::clone_songs;
use crate::song::songs_view;
use crate::song::Song;
use crate::song::SongV;

verus! {

/// What the player is doing right now.
#[derive(Clone, Copy, PartialEq, Eq, Structural, Debug)]
pub enum PlayerStatus {
    Idle,
    Playing,
    Paused,
    Loading,
    Error,
}

/// The playback surface's state. Times are in whole seconds.
pub struct PlayerState {
    pub status: PlayerStatus,
    pub current_song: Option<Song>,
    pub current_time: u64,
    pub duration: u64,
    pub volume: u8,
    pub is_muted: bool,
}

/// The mathematical value of a player state.
pub struct PlayerV {
    pub status: PlayerStatus,
    pub current_song: Option<SongV>,
    pub current_time: u64,
    pub duration: u64,
    pub volume: u8,
    pub is_muted: bool,
}

impl View for PlayerState {
    type V = PlayerV;

    open spec fn view(&self) -> PlayerV {
        PlayerV {
            status: self.status,
            current_song: match self.current_song {
                Some(s) => Some(s@),
                None => None,
            },
            current_time: self.current_time,
            duration: self.duration,
            volume: self.volume,
            is_muted: self.is_muted,
        }
    }
}

/// A remote participant the host currently serves.
pub struct ConnectedClient {
    pub id: String,
    pub display_name: String,
    pub connected_at: i64,
}

/// The mathematical value of a connected client.
pub struct ClientV {
    pub id: Seq<char>,
    pub display_name: Seq<char>,
    pub connected_at: i64,
}

impl View for ConnectedClient {
    type V = ClientV;

    open spec fn view(&self) -> ClientV {
        ClientV {
            id: self.id@,
            display_name: self.display_name@,
            connected_at: self.connected_at,
        }
    }
}

impl Clone for ConnectedClient {
    fn clone(&self) -> (r: Self)
        ensures
            r == *self,
    {
        ConnectedClient {
            id: self.id.clone(),
            display_name: self.display_name.clone(),
            connected_at: self.connected_at,
        }
    }
}

/// The views of a client list.
pub open spec fn clients_view(clients: Seq<ConnectedClient>) -> Seq<ClientV> {
    clients.map_values(|c: ConnectedClient| c@)
}

/// The authoritative state of one room.
pub struct RoomState {
    pub room_id: String,
    pub host_peer_id: String,
    pub connected_clients: Vec<ConnectedClient>,
    pub player: PlayerState,
    pub queue: Vec<Song>,
    pub playlists: Vec<PlaylistCollection>,
    pub created_at: i64,
    pub updated_at: i64,
}

/// The mathematical value of a room state.
pub struct RoomModel {
    pub room_id: Seq<char>,
    pub host_peer_id: Seq<char>,
    pub clients: Seq<ClientV>,
    pub player: PlayerV,
    pub queue: Seq<SongV>,
    pub playlists: Seq<CollectionV>,
    pub created_at: i64,
    pub updated_at: i64,
}

impl View for RoomState {
    type V = RoomModel;

    open spec fn view(&self) -> RoomModel {
        RoomModel {
            room_id: self.room_id@,
            host_peer_id: self.host_peer_id@,
            clients: clients_view(self.connected_clients@),
            player: self.player@,
            queue: songs_view(self.queue@),
            playlists: cols_view(self.playlists@),
            created_at: self.created_at,
            updated_at: self.updated_at,
        }
    }
}

// ------------------------------------------------------------------
// Transitions
// ------------------------------------------------------------------
/// Replaces the playlists snapshot wholesale.
pub open spec fn spec_sync_playlists(m: RoomModel, pls: Seq<CollectionV>, now: i64) -> RoomModel {
    RoomModel { playlists: pls, updated_at: now, ..m }
}

/// When nothing plays, the new song starts loading at once; otherwise it
/// joins the end of the queue.
pub open spec fn spec_add_song(m: RoomModel, s: SongV, now: i64) -> RoomModel {
    if m.player.current_song is None {
        RoomModel {
            player: PlayerV {
                status: PlayerStatus::Loading,
                current_song: Some(s),
                current_time: 0,
                ..m.player
            },
            updated_at: now,
            ..m
        }
    } else {
        RoomModel { queue: m.queue.push(s), updated_at: now, ..m }
    }
}

/// Removes the first queue entry with the given id; the current song has no
/// id-based removal path.
pub open spec fn spec_remove_song(m: RoomModel, id: Seq<char>, now: i64) -> (RoomModel, bool) {
    match find_song(m.queue, id) {
        Some(i) => (RoomModel { queue: m.queue.remove(i), updated_at: now, ..m }, true),
        None => (m, false),
    }
}

/// Moves the entry with the given id to `new_index`; fails when the id is
/// absent or the index is out of range.
pub open spec fn spec_reorder_queue(m: RoomModel, id: Seq<char>, new_index: int, now: i64) -> (
    RoomModel,
    bool,
) {
    match find_song(m.queue, id) {
        Some(i) => {
            if 0 <= new_index < m.queue.len() {
                (
                    RoomModel {
                        queue: m.queue.remove(i).insert(new_index, m.queue[i]),
                        updated_at: now,
                        ..m
                    },
                    true,
                )
            } else {
                (m, false)
            }
        },
        None => (m, false),
    }
}

/// Swaps the entry with its predecessor; a no-op returning `false` on the
/// head or an unknown id.
pub open spec fn spec_move_song_up(m: RoomModel, id: Seq<char>, now: i64) -> (RoomModel, bool) {
    match find_song(m.queue, id) {
        Some(i) => {
            if i > 0 {
                (
                    RoomModel {
                        queue: m.queue.update(i - 1, m.queue[i]).update(i, m.queue[i - 1]),
                        updated_at: now,
                        ..m
                    },
                    true,
                )
            } else {
                (m, false)
            }
        },
        None => (m, false),
    }
}

/// Swaps the entry with its successor; a no-op returning `false` on the last
/// entry or an unknown id.
pub open spec fn spec_move_song_down(m: RoomModel, id: Seq<char>, now: i64) -> (RoomModel, bool) {
    match find_song(m.queue, id) {
        Some(i) => {
            if i + 1 < m.queue.len() {
                (
                    RoomModel {
                        queue: m.queue.update(i, m.queue[i + 1]).update(i + 1, m.queue[i]),
                        updated_at: now,
                        ..m
                    },
                    true,
                )
            } else {
                (m, false)
            }
        },
        None => (m, false),
    }
}

/// Moves the entry to the head; a no-op returning `false` on the head or an
/// unknown id.
pub open spec fn spec_move_song_to_top(m: RoomModel, id: Seq<char>, now: i64) -> (RoomModel, bool) {
    match find_song(m.queue, id) {
        Some(i) => {
            if i > 0 {
                (
                    RoomModel {
                        queue: m.queue.remove(i).insert(0, m.queue[i]),
                        updated_at: now,
                        ..m
                    },
                    true,
                )
            } else {
                (m, false)
            }
        },
        None => (m, false),
    }
}

/// Moves the entry to the end; a no-op returning `false` on the last entry
/// or an unknown id.
pub open spec fn spec_move_song_to_bottom(m: RoomModel, id: Seq<char>, now: i64) -> (
    RoomModel,
    bool,
) {
    match find_song(m.queue, id) {
        Some(i) => {
            if i + 1 < m.queue.len() {
                (
                    RoomModel { queue: m.queue.remove(i).push(m.queue[i]), updated_at: now, ..m },
                    true,
                )
            } else {
                (m, false)
            }
        },
        None => (m, false),
    }
}

/// Discards the current song; the queue's head, if any, starts loading,
/// otherwise the player falls idle.
pub open spec fn spec_skip_song(m: RoomModel, now: i64) -> RoomModel {
    if m.queue.len() > 0 {
        RoomModel {
            player: PlayerV {
                status: PlayerStatus::Loading,
                current_song: Some(m.queue[0]),
                current_time: 0,
                ..m.player
            },
            queue: m.queue.drop_first(),
            updated_at: now,
            ..m
        }
    } else {
        RoomModel {
            player: PlayerV {
                status: PlayerStatus::Idle,
                current_song: None,
                current_time: 0,
                ..m.player
            },
            updated_at: now,
            ..m
        }
    }
}

/// Resumes the current song, or starts loading the queue's head; a no-op
/// (no touch) when there is neither.
pub open spec fn spec_play(m: RoomModel, now: i64) -> RoomModel {
    if m.player.current_song is Some {
        RoomModel {
            player: PlayerV { status: PlayerStatus::Playing, ..m.player },
            updated_at: now,
            ..m
        }
    } else if m.queue.len() > 0 {
        RoomModel {
            player: PlayerV {
                status: PlayerStatus::Loading,
                current_song: Some(m.queue[0]),
                ..m.player
            },
            queue: m.queue.drop_first(),
            updated_at: now,
            ..m
        }
    } else {
        m
    }
}

pub open spec fn spec_pause(m: RoomModel, now: i64) -> RoomModel {
    RoomModel { player: PlayerV { status: PlayerStatus::Paused, ..m.player }, updated_at: now, ..m }
}

pub open spec fn spec_seek(m: RoomModel, time: u64, now: i64) -> RoomModel {
    RoomModel { player: PlayerV { current_time: time, ..m.player }, updated_at: now, ..m }
}

/// The stored volume, clamped to `[0, 100]`.
pub open spec fn clamp_volume(v: u8) -> u8 {
    if v > 100 {
        100
    } else {
        v
    }
}

pub open spec fn spec_set_volume(m: RoomModel, v: u8, now: i64) -> RoomModel {
    RoomModel { player: PlayerV { volume: clamp_volume(v), ..m.player }, updated_at: now, ..m }
}

pub open spec fn spec_toggle_mute(m: RoomModel, now: i64) -> RoomModel {
    RoomModel { player: PlayerV { is_muted: !m.player.is_muted, ..m.player }, updated_at: now, ..m }
}

/// Applies whichever fields the playback surface reported.
pub open spec fn spec_update_player(
    m: RoomModel,
    status: Option<PlayerStatus>,
    current_time: Option<u64>,
    duration: Option<u64>,
    now: i64,
) -> RoomModel {
    RoomModel {
        player: PlayerV {
            status: match status {
                Some(st) => st,
                None => m.player.status,
            },
            current_time: match current_time {
                Some(t) => t,
                None => m.player.current_time,
            },
            duration: match duration {
                Some(d) => d,
                None => m.player.duration,
            },
            ..m.player
        },
        updated_at: now,
        ..m
    }
}

pub open spec fn spec_add_client(m: RoomModel, c: ClientV, now: i64) -> RoomModel {
    RoomModel { clients: m.clients.push(c), updated_at: now, ..m }
}

/// The client list with every entry of the given id removed.
pub open spec fn clients_without(clients: Seq<ClientV>, id: Seq<char>) -> Seq<ClientV>
    decreases clients.len(),
{
    if clients.len() == 0 {
        Seq::<ClientV>::empty()
    } else {
        clients_without(clients.drop_last(), id) + (if clients.last().id == id {
            Seq::<ClientV>::empty()
        } else {
            seq![clients.last()]
        })
    }
}

pub open spec fn spec_remove_client(m: RoomModel, id: Seq<char>, now: i64) -> RoomModel {
    RoomModel { clients: clients_without(m.clients, id), updated_at: now, ..m }
}

/// The view sent to remote participants: the same state with the playlists
/// filtered down to the public ones.
pub open spec fn public_model(m: RoomModel) -> RoomModel {
    RoomModel { playlists: public_cols(m.playlists), ..m }
}

// ------------------------------------------------------------------
// The engine
// ------------------------------------------------------------------
impl RoomState {
    /// A fresh room: idle player at volume 80, empty queue, the playlists
    /// injected from the collection store.
    pub fn new(room_id: String, host_peer_id: String, playlists: Vec<PlaylistCollection>) -> (r:
        Self)
        ensures
            r@.room_id == room_id@,
            r@.host_peer_id == host_peer_id@,
            r@.clients == Seq::<ClientV>::empty(),
            r@.queue == Seq::<SongV>::empty(),
            r@.playlists == cols_view(playlists@),
            r@.player == (PlayerV {
                status: PlayerStatus::Idle,
                current_song: None,
                current_time: 0,
                duration: 0,
                volume: 80,
                is_muted: false,
            }),
            r@.created_at == r@.updated_at,
    {
        let now = now_millis();
        let r = RoomState {
            room_id,
            host_peer_id,
            connected_clients: Vec::new(),
            player: PlayerState {
                status: PlayerStatus::Idle,
                current_song: None,
                current_time: 0,
                duration: 0,
                volume: 80,
                is_muted: false,
            },
            queue: Vec::new(),
            playlists,
            created_at: now,
            updated_at: now,
        };
        proof {
            assert(r@.clients =~= Seq::<ClientV>::empty());
            assert(r@.queue =~= Seq::<SongV>::empty());
        }
        r
    }

    fn touch(&mut self)
        ensures
            final(self)@ == (RoomModel { updated_at: final(self).updated_at, ..old(self)@ }),
    {
        self.updated_at = now_millis();
    }

    /// Refreshes the playlists snapshot from the collection store.
    pub fn sync_playlists(&mut self, playlists: Vec<PlaylistCollection>)
        ensures
            final(self)@ == spec_sync_playlists(
                old(self)@,
                cols_view(playlists@),
                final(self).updated_at,
            ),
    {
        self.playlists = playlists;
        self.touch();
    }

    /// Adds a song: it starts loading at once when nothing plays, and joins
    /// the queue's end otherwise.
    pub fn add_song(&mut self, song: Song)
        ensures
            final(self)@ == spec_add_song(old(self)@, song@, final(self).updated_at),
    {
        if self.player.current_song.is_none() {
            self.player.current_song = Some(song);
            self.player.status = PlayerStatus::Loading;
            self.player.current_time = 0;
        } else {
            self.queue.push(song);
            proof {
                assert(songs_view(self.queue@) =~= songs_view(old(self).queue@).push(
                    self.queue@.last()@,
                ));
            }
        }
        self.touch();
    }

    /// Removes the first queue entry with the given id; `false` when absent.
    pub fn remove_song(&mut self, song_id: &str) -> (r: bool)
        ensures
            r == spec_remove_song(old(self)@, song_id@, final(self).updated_at).1,
            final(self)@ == spec_remove_song(old(self)@, song_id@, final(self).updated_at).0,
    {
        match find_song_index(&self.queue, song_id) {
            Some(i) => {
                proof {
                    lemma_find_song_props(old(self)@.queue, song_id@, 0);
                }
                self.queue.remove(i);
                proof {
                    assert(songs_view(self.queue@) =~= old(self)@.queue.remove(i as int));
                }
                self.touch();
                true
            },
            None => false,
        }
    }

    /// Moves the entry with the given id to `new_index`; `false` when the id
    /// is absent or the index out of range.
    pub fn reorder_queue(&mut self, song_id: &str, new_index: usize) -> (r: bool)
        ensures
            r == spec_reorder_queue(
                old(self)@,
                song_id@,
                new_index as int,
                final(self).updated_at,
            ).1,
            final(self)@ == spec_reorder_queue(
                old(self)@,
                song_id@,
                new_index as int,
                final(self).updated_at,
            ).0,
    {
        match find_song_index(&self.queue, song_id) {
            Some(i) => {
                proof {
                    lemma_find_song_props(old(self)@.queue, song_id@, 0);
                }
                if new_index < self.queue.len() {
                    let song = self.queue.remove(i);
                    self.queue.insert(new_index, song);
                    proof {
                        assert(songs_view(self.queue@) =~= old(self)@.queue.remove(
                            i as int,
                        ).insert(new_index as int, old(self)@.queue[i as int]));
                    }
                    self.touch();
                    true
                } else {
                    false
                }
            },
            None => false,
        }
    }

    /// Swaps the entry with its predecessor; `false` on the head or an
    /// unknown id.
    pub fn move_song_up(&mut self, song_id: &str) -> (r: bool)
        ensures
            r == spec_move_song_up(old(self)@, song_id@, final(self).updated_at).1,
            final(self)@ == spec_move_song_up(old(self)@, song_id@, final(self).updated_at).0,
    {
        match find_song_index(&self.queue, song_id) {
            Some(i) => {
                proof {
                    lemma_find_song_props(old(self)@.queue, song_id@, 0);
                }
                if i > 0 {
                    let song = self.queue.remove(i);
                    self.queue.insert(i - 1, song);
                    proof {
                        assert(songs_view(self.queue@) =~= old(self)@.queue.update(
                            i as int - 1,
                            old(self)@.queue[i as int],
                        ).update(i as int, old(self)@.queue[i as int - 1]));
                    }
                    self.touch();
                    true
                } else {
                    false
                }
            },
            None => false,
        }
    }

    /// Swaps the entry with its successor; `false` on the last entry or an
    /// unknown id.
    pub fn move_song_down(&mut self, song_id: &str) -> (r: bool)
        ensures
            r == spec_move_song_down(old(self)@, song_id@, final(self).updated_at).1,
            final(self)@ == spec_move_song_down(old(self)@, song_id@, final(self).updated_at).0,
    {
        match find_song_index(&self.queue, song_id) {
            Some(i) => {
                let qlen = self.queue.len();
                proof {
                    lemma_find_song_props(old(self)@.queue, song_id@, 0);
                    assert((i as int) < self.queue@.len());
                }
                if i < qlen - 1 {
                    let song = self.queue.remove(i);
                    self.queue.insert(i + 1, song);
                    proof {
                        assert(songs_view(self.queue@) =~= old(self)@.queue.update(
                            i as int,
                            old(self)@.queue[i as int + 1],
                        ).update(i as int + 1, old(self)@.queue[i as int]));
                    }
                    self.touch();
                    true
                } else {
                    false
                }
            },
            None => false,
        }
    }

    /// Moves the entry with the given id to the head; `false` on the head or
    /// an unknown id.
    pub fn move_song_to_top(&mut self, song_id: &str) -> (r: bool)
        ensures
            r == spec_move_song_to_top(old(self)@, song_id@, final(self).updated_at).1,
            final(self)@ == spec_move_song_to_top(old(self)@, song_id@, final(self).updated_at).0,
    {
        match find_song_index(&self.queue, song_id) {
            Some(i) => {
                proof {
                    lemma_find_song_props(old(self)@.queue, song_id@, 0);
                }
                if i > 0 {
                    let song = self.queue.remove(i);
                    self.queue.insert(0, song);
                    proof {
                        assert(songs_view(self.queue@) =~= old(self)@.queue.remove(
                            i as int,
                        ).insert(0, old(self)@.queue[i as int]));
                    }
                    self.touch();
                    true
                } else {
                    false
                }
            },
            None => false,
        }
    }

    /// Moves the entry with the given id to the end; `false` on the last
    /// entry or an unknown id.
    pub fn move_song_to_bottom(&mut self, song_id: &str) -> (r: bool)
        ensures
            r == spec_move_song_to_bottom(old(self)@, song_id@, final(self).updated_at).1,
            final(self)@ == spec_move_song_to_bottom(
                old(self)@,
                song_id@,
                final(self).updated_at,
            ).0,
    {
        match find_song_index(&self.queue, song_id) {
            Some(i) => {
                let qlen = self.queue.len();
                proof {
                    lemma_find_song_props(old(self)@.queue, song_id@, 0);
                    assert((i as int) < self.queue@.len());
                }
                if i < qlen - 1 {
                    let song = self.queue.remove(i);
                    self.queue.push(song);
                    proof {
                        assert(songs_view(self.queue@) =~= old(self)@.queue.remove(i as int).push(
                            old(self)@.queue[i as int],
                        ));
                    }
                    self.touch();
                    true
                } else {
                    false
                }
            },
            None => false,
        }
    }

    /// Discards the current song and advances: the queue's head starts
    /// loading, or the player falls idle.
    pub fn skip_song(&mut self)
        ensures
            final(self)@ == spec_skip_song(old(self)@, final(self).updated_at),
    {
        if self.queue.len() > 0 {
            let next_song = self.queue.remove(0);
            self.player.current_song = Some(next_song);
            self.player.current_time = 0;
            self.player.status = PlayerStatus::Loading;
            proof {
                assert(songs_view(self.queue@) =~= old(self)@.queue.drop_first());
            }
        } else {
            self.player.current_song = None;
            self.player.current_time = 0;
            self.player.status = PlayerStatus::Idle;
        }
        self.touch();
    }

    /// Resumes the current song, or starts the queue's head; a no-op when
    /// there is neither.
    pub fn play(&mut self)
        ensures
            final(self)@ == spec_play(old(self)@, final(self).updated_at),
    {
        if self.player.current_song.is_some() {
            self.player.status = PlayerStatus::Playing;
            self.touch();
        } else if self.queue.len() > 0 {
            let next_song = self.queue.remove(0);
            self.player.current_song = Some(next_song);
            self.player.status = PlayerStatus::Loading;
            proof {
                assert(songs_view(self.queue@) =~= old(self)@.queue.drop_first());
            }
            self.touch();
        }
    }

    /// Pauses playback unconditionally.
    pub fn pause(&mut self)
        ensures
            final(self)@ == spec_pause(old(self)@, final(self).updated_at),
    {
        self.player.status = PlayerStatus::Paused;
        self.touch();
    }

    /// Sets the playback position; no bounds check against the duration.
    pub fn seek(&mut self, time: u64)
        ensures
            final(self)@ == spec_seek(old(self)@, time, final(self).updated_at),
    {
        self.player.current_time = time;
        self.touch();
    }

    /// Stores the volume, clamped to `[0, 100]`.
    pub fn set_volume(&mut self, volume: u8)
        ensures
            final(self)@ == spec_set_volume(old(self)@, volume, final(self).updated_at),
            final(self)@.player.volume <= 100,
    {
        self.player.volume = if volume > 100 {
            100
        } else {
            volume
        };
        self.touch();
    }

    /// Flips the mute flag.
    pub fn toggle_mute(&mut self)
        ensures
            final(self)@ == spec_toggle_mute(old(self)@, final(self).updated_at),
    {
        self.player.is_muted = !self.player.is_muted;
        self.touch();
    }

    /// Applies whichever fields the playback surface reported.
    pub fn update_player(
        &mut self,
        status: Option<PlayerStatus>,
        current_time: Option<u64>,
        duration: Option<u64>,
    )
        ensures
            final(self)@ == spec_update_player(
                old(self)@,
                status,
                current_time,
                duration,
                final(self).updated_at,
            ),
    {
        match status {
            Some(st) => {
                self.player.status = st;
            },
            None => {},
        }
        match current_time {
            Some(t) => {
                self.player.current_time = t;
            },
            None => {},
        }
        match duration {
            Some(d) => {
                self.player.duration = d;
            },
            None => {},
        }
        self.touch();
    }

    /// Registers a connected client.
    pub fn add_client(&mut self, client: ConnectedClient)
        ensures
            final(self)@ == spec_add_client(old(self)@, client@, final(self).updated_at),
    {
        self.connected_clients.push(client);
        proof {
            assert(clients_view(self.connected_clients@) =~= old(self)@.clients.push(
                self.connected_clients@.last()@,
            ));
        }
        self.touch();
    }

    /// Drops every connected client with the given id.
    pub fn remove_client(&mut self, client_id: &str)
        ensures
            final(self)@ == spec_remove_client(old(self)@, client_id@, final(self).updated_at),
    {
        let mut kept: Vec<ConnectedClient> = Vec::new();
        let mut i: usize = 0;
        proof {
            assert(clients_view(kept@) =~= clients_without(
                old(self)@.clients.subrange(0, 0),
                client_id@,
            ));
        }
        while i < self.connected_clients.len()
            invariant
                self == old(self),
                0 <= i <= self.connected_clients@.len(),
                clients_view(kept@) == clients_without(
                    old(self)@.clients.subrange(0, i as int),
                    client_id@,
                ),
            decreases self.connected_clients@.len() - i,
        {
            if !crate::text::str_equal(self.connected_clients[i].id.as_str(), client_id) {
                kept.push(self.connected_clients[i].clone());
            }
            proof {
                let pre = old(self)@.clients.subrange(0, i as int + 1);
                assert(pre.drop_last() =~= old(self)@.clients.subrange(0, i as int));
                assert(pre.last() == old(self)@.clients[i as int]);
                assert(clients_view(kept@) =~= clients_without(pre, client_id@));
            }
            i = i + 1;
        }
        proof {
            assert(old(self)@.clients.subrange(0, old(self)@.clients.len() as int) =~= old(
                self,
            )@.clients);
        }
        self.connected_clients = kept;
        self.touch();
    }

    /// A deep copy of the whole state, safe to hand out or broadcast.
    pub fn snapshot(&self) -> (r: RoomState)
        ensures
            r@ == self@,
    {
        let mut clients: Vec<ConnectedClient> = Vec::new();
        let mut i: usize = 0;
        while i < self.connected_clients.len()
            invariant
                0 <= i <= self.connected_clients@.len(),
                clients@.len() == i,
                forall|k: int|
                    0 <= k < i ==> #[trigger] clients@[k] == self.connected_clients@[k],
            decreases self.connected_clients@.len() - i,
        {
            clients.push(self.connected_clients[i].clone());
            i = i + 1;
        }
        proof {
            assert(clients_view(clients@) =~= clients_view(self.connected_clients@));
        }
        let current = match &self.player.current_song {
            Some(s) => Some(s.clone()),
            None => None,
        };
        let r = RoomState {
            room_id: self.room_id.clone(),
            host_peer_id: self.host_peer_id.clone(),
            connected_clients: clients,
            player: PlayerState {
                status: self.player.status,
                current_song: current,
                current_time: self.player.current_time,
                duration: self.player.duration,
                volume: self.player.volume,
                is_muted: self.player.is_muted,
            },
            queue: clone_songs(&self.queue),
            playlists: self.get_playlists_copy(),
            created_at: self.created_at,
            updated_at: self.updated_at,
        };
        r
    }

    /// A deep copy of the playlists snapshot.
    fn get_playlists_copy(&self) -> (r: Vec<PlaylistCollection>)
        ensures
            cols_view(r@) == cols_view(self.playlists@),
    {
        let mut out: Vec<PlaylistCollection> = Vec::new();
        let mut i: usize = 0;
        while i < self.playlists.len()
            invariant
                0 <= i <= self.playlists@.len(),
                out@.len() == i,
                forall|k: int| 0 <= k < i ==> #[trigger] out@[k]@ == self.playlists@[k]@,
            decreases self.playlists@.len() - i,
        {
            let c = self.playlists[i].clone();
            proof {
                assert(c@ == self.playlists@[i as int]@);
            }
            out.push(c);
            i = i + 1;
        }
        proof {
            assert(cols_view(out@) =~= cols_view(self.playlists@));
        }
        out
    }

    /// The state as broadcast to remote participants: a deep copy whose
    /// playlists keep only the public collections, in order.
    pub fn public_state(&self) -> (r: RoomState)
        ensures
            r@ == public_model(self@),
    {
        let mut r = self.snapshot();
        let mut public: Vec<PlaylistCollection> = Vec::new();
        let mut i: usize = 0;
        proof {
            assert(cols_view(public@) =~= public_cols(cols_view(self.playlists@).subrange(0, 0)));
        }
        while i < self.playlists.len()
            invariant
                0 <= i <= self.playlists@.len(),
                cols_view(public@) == public_cols(
                    cols_view(self.playlists@).subrange(0, i as int),
                ),
            decreases self.playlists@.len() - i,
        {
            if matches!(self.playlists[i].visibility, CollectionVisibility::Public) {
                let c = self.playlists[i].clone();
                proof {
                    assert(c@ == self.playlists@[i as int]@);
                }
                public.push(c);
            }
            proof {
                let cv = cols_view(self.playlists@);
                let pre = cv.subrange(0, i as int + 1);
                assert(pre.drop_last() =~= cv.subrange(0, i as int));
                assert(pre.last() == cv[i as int]);
                assert(cols_view(public@) =~= public_cols(pre));
            }
            i = i + 1;
        }
        proof {
            let cv = cols_view(self.playlists@);
            assert(cv.subrange(0, cv.len() as int) =~= cv);
        }
        r.playlists = public;
        r
    }
}

/// The textual form of a player status, as the playback surface reports it;
/// anything else maps to no status change.
pub open spec fn spec_parse_player_status(s: Seq<char>) -> Option<PlayerStatus> {
    if s == "playing"@ {
        Some(PlayerStatus::Playing)
    } else if s == "paused"@ {
        Some(PlayerStatus::Paused)
    } else if s == "loading"@ {
        Some(PlayerStatus::Loading)
    } else if s == "error"@ {
        Some(PlayerStatus::Error)
    } else if s == "idle"@ {
        Some(PlayerStatus::Idle)
    } else {
        None
    }
}

/// Maps a reported status word to a player status; unknown words map to
/// `None`, so a garbled report changes nothing.
pub fn parse_player_status(s: &str) -> (r: Option<PlayerStatus>)
    ensures
        r == spec_parse_player_status(s@),
{
    if crate::text::str_equal(s, "playing") {
        Some(PlayerStatus::Playing)
    } else if crate::text::str_equal(s, "paused") {
        Some(PlayerStatus::Paused)
    } else if crate::text::str_equal(s, "loading") {
        Some(PlayerStatus::Loading)
    } else if crate::text::str_equal(s, "error") {
        Some(PlayerStatus::Error)
    } else if crate::text::str_equal(s, "idle") {
        Some(PlayerStatus::Idle)
    } else {
        None
    }
}

// ------------------------------------------------------------------
// Queue/current-song disjointness
// ------------------------------------------------------------------
/// No two queue entries share an id.
pub open spec fn queue_ids_distinct(q: Seq<SongV>) -> bool {
    forall|i: int, j: int| 0 <= i < j < q.len() ==> q[i].id != q[j].id
}

/// No queue entry shares the current song's id.
pub open spec fn current_not_queued(m: RoomModel) -> bool {
    m.player.current_song matches Some(c) ==> forall|i: int|
        0 <= i < m.queue.len() ==> m.queue[i].id != c.id
}

/// The queue and the current song hold pairwise distinct song identities.
pub open spec fn queue_disjoint(m: RoomModel) -> bool {
    queue_ids_distinct(m.queue) && current_not_queued(m)
}

/// Does any song in the room's player or queue carry this id?
pub open spec fn has_song_id(m: RoomModel, id: Seq<char>) -> bool {
    (m.player.current_song matches Some(c) && c.id == id) || exists|i: int|
        0 <= i < m.queue.len() && m.queue[i].id == id
}

/// One queue-affecting command, for stating properties of command sequences.
pub enum QueueOp {
    Add(SongV),
    Skip,
    Play,
    Remove(Seq<char>),
}

pub open spec fn apply_queue_op(m: RoomModel, op: QueueOp, now: i64) -> RoomModel {
    match op {
        QueueOp::Add(s) => spec_add_song(m, s, now),
        QueueOp::Skip => spec_skip_song(m, now),
        QueueOp::Play => spec_play(m, now),
        QueueOp::Remove(id) => spec_remove_song(m, id, now).0,
    }
}

pub open spec fn apply_queue_ops(m: RoomModel, ops: Seq<QueueOp>, now: i64) -> RoomModel
    decreases ops.len(),
{
    if ops.len() == 0 {
        m
    } else {
        apply_queue_ops(apply_queue_op(m, ops[0], now), ops.drop_first(), now)
    }
}

/// An added song carries a fresh id: it is in neither the player nor the
/// queue. Every song that enters a room is freshly minted, so this always
/// holds of the commands a room receives.
pub open spec fn op_fresh(m: RoomModel, op: QueueOp) -> bool {
    op matches QueueOp::Add(s) ==> !has_song_id(m, s.id)
}

/// One queue-affecting command keeps the queue and the current song
/// disjoint.
pub proof fn lemma_queue_op_preserves_disjoint(m: RoomModel, op: QueueOp, now: i64)
    requires
        queue_disjoint(m),
        op_fresh(m, op),
    ensures
        queue_disjoint(apply_queue_op(m, op, now)),
{
    let m2 = apply_queue_op(m, op, now);
    match op {
        QueueOp::Add(s) => {
            if m.player.current_song is None {
            } else {
                assert forall|i: int, j: int| 0 <= i < j < m2.queue.len() implies m2.queue[i].id
                    != m2.queue[j].id by {
                    if j < m.queue.len() {
                    } else {
                        assert(m2.queue[j] == s);
                        assert(!(exists|k: int|
                            0 <= k < m.queue.len() && m.queue[k].id == s.id));
                        assert(m2.queue[i] == m.queue[i]);
                    }
                }
                assert(current_not_queued(m2)) by {
                    let c = m.player.current_song->Some_0;
                    assert forall|i: int| 0 <= i < m2.queue.len() implies m2.queue[i].id
                        != c.id by {
                        if i < m.queue.len() {
                        } else {
                            assert(m2.queue[i] == s);
                        }
                    }
                }
            }
        },
        QueueOp::Skip => {
            if m.queue.len() > 0 {
                assert forall|i: int| 0 <= i < m2.queue.len() implies m2.queue[i].id
                    != m.queue[0].id by {
                    assert(m2.queue[i] == m.queue[i + 1]);
                }
            }
        },
        QueueOp::Play => {
            if m.player.current_song is Some {
            } else if m.queue.len() > 0 {
                assert forall|i: int| 0 <= i < m2.queue.len() implies m2.queue[i].id
                    != m.queue[0].id by {
                    assert(m2.queue[i] == m.queue[i + 1]);
                }
            }
        },
        QueueOp::Remove(id) => {
            match find_song(m.queue, id) {
                Some(p) => {
                    crate::collection::lemma_find_song_props(m.queue, id, 0);
                    assert forall|i: int, j: int| 0 <= i < j < m2.queue.len() implies
                        m2.queue[i].id != m2.queue[j].id by {
                        assert(m2.queue[i] == (if i < p {
                            m.queue[i]
                        } else {
                            m.queue[i + 1]
                        }));
                        assert(m2.queue[j] == (if j < p {
                            m.queue[j]
                        } else {
                            m.queue[j + 1]
                        }));
                    }
                    if m.player.current_song is Some {
                        let c = m.player.current_song->Some_0;
                        assert forall|i: int| 0 <= i < m2.queue.len() implies m2.queue[i].id
                            != c.id by {
                            assert(m2.queue[i] == (if i < p {
                                m.queue[i]
                            } else {
                                m.queue[i + 1]
                            }));
                        }
                    }
                },
                None => {},
            }
        },
    }
}

proof fn lemma_apply_ops_snoc(m: RoomModel, ops: Seq<QueueOp>, now: i64)
    requires
        ops.len() > 0,
    ensures
        apply_queue_ops(m, ops, now) == apply_queue_op(
            apply_queue_ops(m, ops.drop_last(), now),
            ops.last(),
            now,
        ),
    decreases ops.len(),
{
    if ops.len() == 1 {
        assert(ops.drop_last() =~= Seq::<QueueOp>::empty());
        assert(ops.drop_first() =~= Seq::<QueueOp>::empty());
    } else {
        lemma_apply_ops_snoc(apply_queue_op(m, ops[0], now), ops.drop_first(), now);
        assert(ops.drop_first().drop_last() =~= ops.drop_last().drop_first());
        assert(ops.drop_last()[0] == ops[0]);
        assert(ops.drop_first().last() == ops.last());
    }
}

/// Queue/current-song disjointness: over any sequence of add, skip, play and
/// remove commands in which every added song carries an id that is fresh at
/// the moment it is added, the queue never holds an entry with the current
/// song's id, and no two queue entries share one.
pub proof fn lemma_queue_current_disjoint(m: RoomModel, ops: Seq<QueueOp>, now: i64)
    requires
        queue_disjoint(m),
        forall|k: int|
            0 <= k < ops.len() ==> op_fresh(
                #[trigger] apply_queue_ops(m, ops.subrange(0, k), now),
                ops[k],
            ),
    ensures
        queue_disjoint(apply_queue_ops(m, ops, now)),
    decreases ops.len(),
{
    if ops.len() > 0 {
        let pre = ops.drop_last();
        assert forall|k: int| 0 <= k < pre.len() implies op_fresh(
            #[trigger] apply_queue_ops(m, pre.subrange(0, k), now),
            pre[k],
        ) by {
            assert(pre.subrange(0, k) =~= ops.subrange(0, k));
            assert(apply_queue_ops(m, ops.subrange(0, k), now) == apply_queue_ops(
                m,
                pre.subrange(0, k),
                now,
            ));
            assert(pre[k] == ops[k]);
        }
        lemma_queue_current_disjoint(m, pre, now);
        lemma_apply_ops_snoc(m, ops, now);
        assert(ops.subrange(0, ops.len() - 1) =~= pre);
        assert(op_fresh(apply_queue_ops(m, pre, now), ops.last()));
        lemma_queue_op_preserves_disjoint(apply_queue_ops(m, pre, now), ops.last(), now);
    }
}

} // verus!
