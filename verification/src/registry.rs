//! The session registry: admission control and lifecycle for room
//! connections, independent of playback content. A room session is created
//! by its host, joined by up to `MAX_CLIENTS_PER_ROOM` clients under a
//! token-hash check, and deleted when the host disconnects. The join check
//! and the count increment form one step, so concurrent joins can never
//! overrun the capacity; the embedding application keeps each call under one
//! critical section of the registry's own lock.

use vstd::prelude::*;
use vstd::string::StringExecFns;

use crate::ext::hex_of;
use crate::ext::lemma_hex_of_len;
use crate::ext::now_millis;
use crate::ext::sha256;
use crate::ext::sha256_of;
use crate::ext::hex_encode;
use crate::text::str_equal;

verus! {

/// The most clients one room admits at a time.
pub const MAX_CLIENTS_PER_ROOM: usize = 10;

/// The hash under which a join secret is stored and checked: lowercase hex
/// of the SHA-256 digest of the token text.
pub open spec fn spec_hash_token(token: Seq<char>) -> Seq<char> {
    hex_of(sha256_of(token))
}

/// Hashes a join token for storage or comparison; only this hash is ever
/// kept server-side. The result is 64 hex characters.
pub fn hash_token(token: &str) -> (r: String)
    ensures
        r@ == spec_hash_token(token@),
        r@.len() == 64,
{
    let digest = sha256(token);
    proof {
        lemma_hex_of_len(digest@);
    }
    hex_encode(digest.as_slice())
}

/// What the registry keeps about one room session: connection metadata, not
/// playback content.
#[derive(Debug)]
pub struct RoomMetadata {
    pub room_id: String,
    pub host_socket_id: String,
    pub host_peer_id: Option<String>,
    pub join_token_hash: String,
    pub created_at: u64,
    pub client_count: usize,
}

/// The mathematical value of a registry entry.
pub struct MetaV {
    pub room_id: Seq<char>,
    pub host_socket_id: Seq<char>,
    pub host_peer_id: Option<Seq<char>>,
    pub join_token_hash: Seq<char>,
    pub created_at: u64,
    pub client_count: usize,
}

impl View for RoomMetadata {
    type V = MetaV;

    open spec fn view(&self) -> MetaV {
        MetaV {
            room_id: self.room_id@,
            host_socket_id: self.host_socket_id@,
            host_peer_id: match self.host_peer_id {
                Some(p) => Some(p@),
                None => None,
            },
            join_token_hash: self.join_token_hash@,
            created_at: self.created_at,
            client_count: self.client_count,
        }
    }
}

impl Clone for RoomMetadata {
    fn clone(&self) -> (r: Self)
        ensures
            r == *self,
    {
        RoomMetadata {
            room_id: self.room_id.clone(),
            host_socket_id: self.host_socket_id.clone(),
            host_peer_id: match &self.host_peer_id {
                Some(p) => Some(p.clone()),
                None => None,
            },
            join_token_hash: self.join_token_hash.clone(),
            created_at: self.created_at,
            client_count: self.client_count,
        }
    }
}

/// The views of a list of registry entries.
pub open spec fn metas_view(rooms: Seq<RoomMetadata>) -> Seq<MetaV> {
    rooms.map_values(|m: RoomMetadata| m@)
}

/// The first position at or after `i` of the room with the given id.
pub open spec fn find_meta_from(rooms: Seq<MetaV>, id: Seq<char>, i: int) -> Option<int>
    decreases rooms.len() - i,
    when 0 <= i <= rooms.len()
{
    if i >= rooms.len() {
        None
    } else if rooms[i].room_id == id {
        Some(i)
    } else {
        find_meta_from(rooms, id, i + 1)
    }
}

pub open spec fn find_meta(rooms: Seq<MetaV>, id: Seq<char>) -> Option<int> {
    find_meta_from(rooms, id, 0)
}

pub proof fn lemma_find_meta_props(rooms: Seq<MetaV>, id: Seq<char>, i: int)
    requires
        0 <= i <= rooms.len(),
    ensures
        match find_meta_from(rooms, id, i) {
            Some(p) => i <= p < rooms.len() && rooms[p].room_id == id && (forall|j: int|
                i <= j < p ==> rooms[j].room_id != id),
            None => forall|j: int| i <= j < rooms.len() ==> rooms[j].room_id != id,
        },
    decreases rooms.len() - i,
{
    if i < rooms.len() && rooms[i].room_id != id {
        lemma_find_meta_props(rooms, id, i + 1);
    }
}

/// The first position at or after `i` of the room hosted by the given
/// connection.
pub open spec fn find_host_from(rooms: Seq<MetaV>, socket_id: Seq<char>, i: int) -> Option<int>
    decreases rooms.len() - i,
    when 0 <= i <= rooms.len()
{
    if i >= rooms.len() {
        None
    } else if rooms[i].host_socket_id == socket_id {
        Some(i)
    } else {
        find_host_from(rooms, socket_id, i + 1)
    }
}

pub open spec fn find_host(rooms: Seq<MetaV>, socket_id: Seq<char>) -> Option<int> {
    find_host_from(rooms, socket_id, 0)
}

pub proof fn lemma_find_host_props(rooms: Seq<MetaV>, socket_id: Seq<char>, i: int)
    requires
        0 <= i <= rooms.len(),
    ensures
        match find_host_from(rooms, socket_id, i) {
            Some(p) => i <= p < rooms.len() && rooms[p].host_socket_id == socket_id,
            None => true,
        },
    decreases rooms.len() - i,
{
    if i < rooms.len() && rooms[i].host_socket_id != socket_id {
        lemma_find_host_props(rooms, socket_id, i + 1);
    }
}

/// The first position at or after `i` of a room with a free slot.
pub open spec fn find_joinable_from(rooms: Seq<MetaV>, i: int) -> Option<int>
    decreases rooms.len() - i,
    when 0 <= i <= rooms.len()
{
    if i >= rooms.len() {
        None
    } else if rooms[i].client_count < MAX_CLIENTS_PER_ROOM {
        Some(i)
    } else {
        find_joinable_from(rooms, i + 1)
    }
}

pub open spec fn find_joinable(rooms: Seq<MetaV>) -> Option<int> {
    find_joinable_from(rooms, 0)
}

/// The registry's invariant: room ids are unique, and no count ever exceeds
/// the capacity.
pub open spec fn registry_wf(rooms: Seq<MetaV>) -> bool {
    &&& forall|i: int, j: int| 0 <= i < j < rooms.len() ==> rooms[i].room_id != rooms[j].room_id
    &&& forall|i: int| 0 <= i < rooms.len() ==> #[trigger] rooms[i].client_count
        <= MAX_CLIENTS_PER_ROOM
}

/// The registry of room sessions, keyed by room id, in creation order.
pub struct RoomManager {
    pub rooms: Vec<RoomMetadata>,
}

impl View for RoomManager {
    type V = Seq<MetaV>;

    open spec fn view(&self) -> Seq<MetaV> {
        metas_view(self.rooms@)
    }
}

impl RoomManager {
    /// An empty registry.
    pub fn new() -> (r: Self)
        ensures
            r@ == Seq::<MetaV>::empty(),
            registry_wf(r@),
    {
        let r = RoomManager { rooms: Vec::new() };
        proof {
            assert(r@ =~= Seq::<MetaV>::empty());
        }
        r
    }

    fn find_room_index(&self, room_id: &str) -> (r: Option<usize>)
        ensures
            match r {
                Some(p) => find_meta(self@, room_id@) == Some(p as int),
                None => find_meta(self@, room_id@) is None,
            },
    {
        let mut i: usize = 0;
        while i < self.rooms.len()
            invariant
                self@.len() == self.rooms@.len(),
                0 <= i <= self@.len(),
                find_meta_from(self@, room_id@, 0) == find_meta_from(self@, room_id@, i as int),
            decreases self@.len() - i,
        {
            if str_equal(self.rooms[i].room_id.as_str(), room_id) {
                proof {
                    assert(find_meta_from(self@, room_id@, i as int) == Some(i as int));
                }
                return Some(i);
            }
            proof {
                assert(find_meta_from(self@, room_id@, i as int) == find_meta_from(
                    self@,
                    room_id@,
                    i as int + 1,
                ));
            }
            i = i + 1;
        }
        proof {
            assert(find_meta_from(self@, room_id@, self@.len() as int) is None);
        }
        None
    }

    /// Registers a new room session with no clients; fails when the room id
    /// is already registered — the registry demands uniqueness.
    pub fn create_room(
        &mut self,
        room_id: String,
        host_socket_id: String,
        join_token_hash: String,
        host_peer_id: Option<String>,
    ) -> (r: Result<(), String>)
        requires
            registry_wf(old(self)@),
        ensures
            registry_wf(final(self)@),
            r is Ok <==> find_meta(old(self)@, room_id@) is None,
            r matches Err(e) ==> e@ == "Room already exists"@ && final(self)@ == old(self)@,
            r is Ok ==> ({
                &&& final(self)@.len() == old(self)@.len() + 1
                &&& final(self)@.subrange(0, old(self)@.len() as int) == old(self)@
                &&& final(self)@.last().room_id == room_id@
                &&& final(self)@.last().host_socket_id == host_socket_id@
                &&& final(self)@.last().host_peer_id == (match host_peer_id {
                    Some(p) => Some(p@),
                    None => None::<Seq<char>>,
                })
                &&& final(self)@.last().join_token_hash == join_token_hash@
                &&& final(self)@.last().client_count == 0
            }),
    {
        match self.find_room_index(room_id.as_str()) {
            Some(_) => Err(String::from_str("Room already exists")),
            None => {
                proof {
                    lemma_find_meta_props(old(self)@, room_id@, 0);
                }
                let now = now_millis();
                let created: u64 = if now < 0 {
                    0
                } else {
                    now as u64
                };
                let meta = RoomMetadata {
                    room_id,
                    host_socket_id,
                    host_peer_id,
                    join_token_hash,
                    created_at: created,
                    client_count: 0,
                };
                self.rooms.push(meta);
                proof {
                    assert(final(self)@.subrange(0, old(self)@.len() as int) =~= old(self)@);
                    assert(registry_wf(final(self)@)) by {
                        assert(forall|i: int|
                            0 <= i < old(self)@.len() ==> final(self)@[i] == old(self)@[i]);
                    }
                }
                Ok(())
            },
        }
    }

    /// The metadata of the room with the given id, if it is registered.
    pub fn get_room(&self, room_id: &str) -> (r: Option<RoomMetadata>)
        ensures
            match r {
                Some(meta) => find_meta(self@, room_id@) matches Some(i) && meta@ == self@[i],
                None => find_meta(self@, room_id@) is None,
            },
    {
        match self.find_room_index(room_id) {
            Some(i) => {
                proof {
                    lemma_find_meta_props(self@, room_id@, 0);
                }
                Some(self.rooms[i].clone())
            },
            None => None,
        }
    }

    /// Admission, as one atomic step: looks the room up, verifies the token
    /// hash when a token is supplied, checks the capacity, and only then
    /// increments the client count and returns the updated metadata. The
    /// errors say exactly which check failed.
    pub fn try_join_room(&mut self, room_id: &str, join_token: Option<&str>) -> (r: Result<
        RoomMetadata,
        String,
    >)
        requires
            registry_wf(old(self)@),
        ensures
            registry_wf(final(self)@),
            match find_meta(old(self)@, room_id@) {
                None => r matches Err(e) && e@ == "Room not found"@ && final(self)@ == old(self)@,
                Some(i) => {
                    let room = old(self)@[i];
                    if join_token matches Some(t) && spec_hash_token(t@) != room.join_token_hash {
                        r matches Err(e) && e@ == "Invalid token"@ && final(self)@ == old(self)@
                    } else if room.client_count >= MAX_CLIENTS_PER_ROOM {
                        r matches Err(e) && e@ == "Room is full"@ && final(self)@ == old(self)@
                    } else {
                        &&& r matches Ok(meta)
                        &&& final(self)@ == old(self)@.update(
                            i,
                            MetaV { client_count: (room.client_count + 1) as usize, ..room },
                        )
                        &&& r matches Ok(meta) && meta@ == final(self)@[i]
                    }
                },
            },
    {
        let i = match self.find_room_index(room_id) {
            Some(i) => i,
            None => {
                return Err(String::from_str("Room not found"));
            },
        };
        proof {
            lemma_find_meta_props(old(self)@, room_id@, 0);
        }
        match join_token {
            Some(token) => {
                let token_hash = hash_token(token);
                if !(token_hash == self.rooms[i].join_token_hash) {
                    return Err(String::from_str("Invalid token"));
                }
            },
            None => {},
        }
        if self.rooms[i].client_count >= MAX_CLIENTS_PER_ROOM {
            return Err(String::from_str("Room is full"));
        }
        let mut room = self.rooms.remove(i);
        room.client_count = room.client_count + 1;
        let out = room.clone();
        self.rooms.insert(i, room);
        proof {
            assert(final(self)@ =~= old(self)@.update(
                i as int,
                MetaV {
                    client_count: (old(self)@[i as int].client_count + 1) as usize,
                    ..old(self)@[i as int]
                },
            ));
            assert(registry_wf(final(self)@)) by {
                assert(forall|j: int|
                    0 <= j < final(self)@.len() && j != i ==> final(self)@[j] == old(self)@[j]);
            }
        }
        Ok(out)
    }

    /// One client left: decrements the room's count, floored at zero as a
    /// defence against duplicate disconnect signals. Unknown ids are
    /// ignored.
    pub fn remove_client(&mut self, room_id: &str)
        requires
            registry_wf(old(self)@),
        ensures
            registry_wf(final(self)@),
            match find_meta(old(self)@, room_id@) {
                Some(i) => final(self)@ == old(self)@.update(
                    i,
                    MetaV {
                        client_count: if old(self)@[i].client_count > 0 {
                            (old(self)@[i].client_count - 1) as usize
                        } else {
                            0
                        },
                        ..old(self)@[i]
                    },
                ),
                None => final(self)@ == old(self)@,
            },
    {
        match self.find_room_index(room_id) {
            Some(i) => {
                proof {
                    lemma_find_meta_props(old(self)@, room_id@, 0);
                }
                let mut room = self.rooms.remove(i);
                if room.client_count > 0 {
                    room.client_count = room.client_count - 1;
                }
                self.rooms.insert(i, room);
                proof {
                    assert(final(self)@ =~= old(self)@.update(
                        i as int,
                        MetaV {
                            client_count: if old(self)@[i as int].client_count > 0 {
                                (old(self)@[i as int].client_count - 1) as usize
                            } else {
                                0
                            },
                            ..old(self)@[i as int]
                        },
                    ));
                    assert(registry_wf(final(self)@)) by {
                        assert(forall|j: int|
                            0 <= j < final(self)@.len() && j != i ==> final(self)@[j] == old(
                                self,
                            )@[j]);
                    }
                }
            },
            None => {},
        }
    }

    /// One client arrived outside the join path: increments the room's
    /// count, capped at the capacity — the mirror of `remove_client`'s
    /// floor. Unknown ids are ignored.
    pub fn add_client(&mut self, room_id: &str)
        requires
            registry_wf(old(self)@),
        ensures
            registry_wf(final(self)@),
            match find_meta(old(self)@, room_id@) {
                Some(i) => final(self)@ == old(self)@.update(
                    i,
                    MetaV {
                        client_count: if old(self)@[i].client_count < MAX_CLIENTS_PER_ROOM {
                            (old(self)@[i].client_count + 1) as usize
                        } else {
                            old(self)@[i].client_count
                        },
                        ..old(self)@[i]
                    },
                ),
                None => final(self)@ == old(self)@,
            },
    {
        match self.find_room_index(room_id) {
            Some(i) => {
                proof {
                    lemma_find_meta_props(old(self)@, room_id@, 0);
                }
                let mut room = self.rooms.remove(i);
                if room.client_count < MAX_CLIENTS_PER_ROOM {
                    room.client_count = room.client_count + 1;
                }
                self.rooms.insert(i, room);
                proof {
                    assert(final(self)@ =~= old(self)@.update(
                        i as int,
                        MetaV {
                            client_count: if old(self)@[i as int].client_count
                                < MAX_CLIENTS_PER_ROOM {
                                (old(self)@[i as int].client_count + 1) as usize
                            } else {
                                old(self)@[i as int].client_count
                            },
                            ..old(self)@[i as int]
                        },
                    ));
                    assert(registry_wf(final(self)@)) by {
                        assert(forall|j: int|
                            0 <= j < final(self)@.len() && j != i ==> final(self)@[j] == old(
                                self,
                            )@[j]);
                    }
                }
            },
            None => {},
        }
    }

    /// Unregisters the session entirely; called when the host disconnects.
    pub fn delete_room(&mut self, room_id: &str)
        requires
            registry_wf(old(self)@),
        ensures
            registry_wf(final(self)@),
            match find_meta(old(self)@, room_id@) {
                Some(i) => final(self)@ == old(self)@.remove(i),
                None => final(self)@ == old(self)@,
            },
    {
        match self.find_room_index(room_id) {
            Some(i) => {
                proof {
                    lemma_find_meta_props(old(self)@, room_id@, 0);
                }
                self.rooms.remove(i);
                proof {
                    assert(final(self)@ =~= old(self)@.remove(i as int));
                    assert(registry_wf(final(self)@)) by {
                        assert(forall|j: int|
                            0 <= j < final(self)@.len() ==> final(self)@[j] == (if j < i {
                                old(self)@[j]
                            } else {
                                old(self)@[j + 1]
                            }));
                    }
                }
            },
            None => {},
        }
    }

    /// The room hosted by the given connection, if any — the reverse lookup
    /// the disconnect path uses.
    pub fn get_room_by_host_socket(&self, socket_id: &str) -> (r: Option<RoomMetadata>)
        ensures
            match r {
                Some(meta) => find_host(self@, socket_id@) matches Some(i) && meta@ == self@[i],
                None => find_host(self@, socket_id@) is None,
            },
    {
        let mut i: usize = 0;
        while i < self.rooms.len()
            invariant
                self@.len() == self.rooms@.len(),
                0 <= i <= self@.len(),
                find_host_from(self@, socket_id@, 0) == find_host_from(
                    self@,
                    socket_id@,
                    i as int,
                ),
            decreases self@.len() - i,
        {
            if str_equal(self.rooms[i].host_socket_id.as_str(), socket_id) {
                proof {
                    assert(find_host_from(self@, socket_id@, i as int) == Some(i as int));
                }
                return Some(self.rooms[i].clone());
            }
            proof {
                assert(find_host_from(self@, socket_id@, i as int) == find_host_from(
                    self@,
                    socket_id@,
                    i as int + 1,
                ));
            }
            i = i + 1;
        }
        proof {
            assert(find_host_from(self@, socket_id@, self@.len() as int) is None);
        }
        None
    }

    /// The first room that still has a free slot — the discovery path for
    /// joins that name no room.
    pub fn get_first_active_room(&self) -> (r: Option<RoomMetadata>)
        ensures
            match r {
                Some(meta) => find_joinable(self@) matches Some(i) && meta@ == self@[i],
                None => find_joinable(self@) is None,
            },
    {
        let mut i: usize = 0;
        while i < self.rooms.len()
            invariant
                self@.len() == self.rooms@.len(),
                0 <= i <= self@.len(),
                find_joinable_from(self@, 0) == find_joinable_from(self@, i as int),
            decreases self@.len() - i,
        {
            if self.rooms[i].client_count < MAX_CLIENTS_PER_ROOM {
                proof {
                    assert(find_joinable_from(self@, i as int) == Some(i as int));
                }
                return Some(self.rooms[i].clone());
            }
            proof {
                assert(find_joinable_from(self@, i as int) == find_joinable_from(
                    self@,
                    i as int + 1,
                ));
            }
            i = i + 1;
        }
        proof {
            assert(find_joinable_from(self@, self@.len() as int) is None);
        }
        None
    }
}

// ------------------------------------------------------------------
// Capacity bound
// ------------------------------------------------------------------
/// A room's client count after `n` admissible join attempts, under the rule
/// `try_join_room` enforces: an attempt is granted exactly when the count is
/// below the capacity, and a granted attempt increments it by one.
pub open spec fn count_after_joins(c0: nat, n: nat) -> nat
    decreases n,
{
    if n == 0 {
        c0
    } else {
        let c = count_after_joins(c0, (n - 1) as nat);
        if c < MAX_CLIENTS_PER_ROOM {
            c + 1
        } else {
            c
        }
    }
}

/// How many of `n` join attempts are granted.
pub open spec fn joins_granted(c0: nat, n: nat) -> nat
    decreases n,
{
    if n == 0 {
        0
    } else {
        joins_granted(c0, (n - 1) as nat) + (if count_after_joins(c0, (n - 1) as nat)
            < MAX_CLIENTS_PER_ROOM {
            1nat
        } else {
            0nat
        })
    }
}

/// Capacity bound: out of any number of join attempts on one room, exactly
/// as many are granted as there are free slots, the rest fail, and the
/// client count never exceeds the capacity.
pub proof fn lemma_capacity_bound(c0: nat, n: nat)
    requires
        c0 <= MAX_CLIENTS_PER_ROOM,
    ensures
        count_after_joins(c0, n) == (if c0 + n <= MAX_CLIENTS_PER_ROOM {
            c0 + n
        } else {
            MAX_CLIENTS_PER_ROOM as nat
        }),
        joins_granted(c0, n) == (if n <= MAX_CLIENTS_PER_ROOM - c0 {
            n
        } else {
            (MAX_CLIENTS_PER_ROOM - c0) as nat
        }),
    decreases n,
{
    if n > 0 {
        lemma_capacity_bound(c0, (n - 1) as nat);
    }
}

} // verus!
