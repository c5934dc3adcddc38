//! Named song collections (playlists) and the store that owns them. The
//! store is independent of any room's lifetime; persistence of its contents
//! is the embedding application's duty and happens outside this module.

use vstd::prelude::*;
use vstd::string::StringExecFns;

use crate::ext::mint_id;
use crate::ext::now_millis;
use crate::song::clone_songs;
use crate::song::song_copy_of;
use crate::song::reinstantiate_song;
use crate::song::songs_view;
use crate::song::Song;
use crate::song::SongV;
use crate::text::str_equal;

verus! {

/// Who gets to see a collection: everyone in the room, or the host alone.
#[derive(Clone, Copy, PartialEq, Eq, Structural, Debug)]
pub enum CollectionVisibility {
    Public,
    Personal,
}

/// The visibility a collection gets when none is named.
pub fn default_public_visibility() -> (v: CollectionVisibility)
    ensures
        v == CollectionVisibility::Public,
{
    CollectionVisibility::Public
}

/// A named, durable collection of songs.
pub struct PlaylistCollection {
    pub id: String,
    pub name: String,
    pub visibility: CollectionVisibility,
    pub songs: Vec<Song>,
    pub created_at: i64,
    pub updated_at: i64,
}

/// The mathematical value of a collection.
pub struct CollectionV {
    pub id: Seq<char>,
    pub name: Seq<char>,
    pub visibility: CollectionVisibility,
    pub songs: Seq<SongV>,
    pub created_at: i64,
    pub updated_at: i64,
}

impl View for PlaylistCollection {
    type V = CollectionV;

    open spec fn view(&self) -> CollectionV {
        CollectionV {
            id: self.id@,
            name: self.name@,
            visibility: self.visibility,
            songs: songs_view(self.songs@),
            created_at: self.created_at,
            updated_at: self.updated_at,
        }
    }
}

impl Clone for PlaylistCollection {
    fn clone(&self) -> (r: Self)
        ensures
            r@ == self@,
    {
        PlaylistCollection {
            id: self.id.clone(),
            name: self.name.clone(),
            visibility: self.visibility,
            songs: clone_songs(&self.songs),
            created_at: self.created_at,
            updated_at: self.updated_at,
        }
    }
}

/// The views of a sequence of collections.
pub open spec fn cols_view(cols: Seq<PlaylistCollection>) -> Seq<CollectionV> {
    cols.map_values(|c: PlaylistCollection| c@)
}

/// The first position at or after `i` of the collection with the given id.
pub open spec fn find_col_from(cols: Seq<CollectionV>, id: Seq<char>, i: int) -> Option<int>
    decreases cols.len() - i,
    when 0 <= i <= cols.len()
{
    if i >= cols.len() {
        None
    } else if cols[i].id == id {
        Some(i)
    } else {
        find_col_from(cols, id, i + 1)
    }
}

/// The first position of the collection with the given id.
pub open spec fn find_col(cols: Seq<CollectionV>, id: Seq<char>) -> Option<int> {
    find_col_from(cols, id, 0)
}

pub proof fn lemma_find_col_props(cols: Seq<CollectionV>, id: Seq<char>, i: int)
    requires
        0 <= i <= cols.len(),
    ensures
        match find_col_from(cols, id, i) {
            Some(p) => i <= p < cols.len() && cols[p].id == id && (forall|j: int|
                i <= j < p ==> cols[j].id != id),
            None => forall|j: int| i <= j < cols.len() ==> cols[j].id != id,
        },
    decreases cols.len() - i,
{
    if i < cols.len() && cols[i].id != id {
        lemma_find_col_props(cols, id, i + 1);
    }
}

/// The first position at or after `i` of the song with the given id.
pub open spec fn find_song_from(songs: Seq<SongV>, id: Seq<char>, i: int) -> Option<int>
    decreases songs.len() - i,
    when 0 <= i <= songs.len()
{
    if i >= songs.len() {
        None
    } else if songs[i].id == id {
        Some(i)
    } else {
        find_song_from(songs, id, i + 1)
    }
}

/// The first position of the song with the given id.
pub open spec fn find_song(songs: Seq<SongV>, id: Seq<char>) -> Option<int> {
    find_song_from(songs, id, 0)
}

pub proof fn lemma_find_song_props(songs: Seq<SongV>, id: Seq<char>, i: int)
    requires
        0 <= i <= songs.len(),
    ensures
        match find_song_from(songs, id, i) {
            Some(p) => i <= p < songs.len() && songs[p].id == id && (forall|j: int|
                i <= j < p ==> songs[j].id != id),
            None => forall|j: int| i <= j < songs.len() ==> songs[j].id != id,
        },
    decreases songs.len() - i,
{
    if i < songs.len() && songs[i].id != id {
        lemma_find_song_props(songs, id, i + 1);
    }
}

/// Finds the first song with the given id in a list.
pub fn find_song_index(songs: &Vec<Song>, song_id: &str) -> (r: Option<usize>)
    ensures
        match r {
            Some(p) => find_song(songs_view(songs@), song_id@) == Some(p as int),
            None => find_song(songs_view(songs@), song_id@) is None,
        },
{
    let ghost sv = songs_view(songs@);
    let mut i: usize = 0;
    while i < songs.len()
        invariant
            sv == songs_view(songs@),
            sv.len() == songs@.len(),
            0 <= i <= songs@.len(),
            find_song_from(sv, song_id@, 0) == find_song_from(sv, song_id@, i as int),
        decreases songs@.len() - i,
    {
        if str_equal(songs[i].id.as_str(), song_id) {
            proof {
                assert(find_song_from(sv, song_id@, i as int) == Some(i as int));
            }
            return Some(i);
        }
        proof {
            assert(find_song_from(sv, song_id@, i as int) == find_song_from(
                sv,
                song_id@,
                i as int + 1,
            ));
        }
        i = i + 1;
    }
    proof {
        assert(find_song_from(sv, song_id@, sv.len() as int) is None);
    }
    None
}

// ------------------------------------------------------------------
// The store
// ------------------------------------------------------------------
/// The collections the host keeps, in creation order. The embedding
/// application persists the whole list after every successful mutation,
/// before acting on the result (write-through).
pub struct PlaylistStore {
    pub playlists: Vec<PlaylistCollection>,
}

impl View for PlaylistStore {
    type V = Seq<CollectionV>;

    open spec fn view(&self) -> Seq<CollectionV> {
        cols_view(self.playlists@)
    }
}

/// Only the collections everyone may see.
pub open spec fn public_cols(cols: Seq<CollectionV>) -> Seq<CollectionV>
    decreases cols.len(),
{
    if cols.len() == 0 {
        Seq::<CollectionV>::empty()
    } else {
        public_cols(cols.drop_last()) + (if cols.last().visibility
            == CollectionVisibility::Public {
            seq![cols.last()]
        } else {
            Seq::<CollectionV>::empty()
        })
    }
}

impl PlaylistStore {
    /// An empty store.
    pub fn new() -> (r: Self)
        ensures
            r@ == Seq::<CollectionV>::empty(),
    {
        let r = PlaylistStore { playlists: Vec::new() };
        proof {
            assert(r@ =~= Seq::<CollectionV>::empty());
        }
        r
    }

    /// A store over collections loaded by the embedding application.
    pub fn from_collections(playlists: Vec<PlaylistCollection>) -> (r: Self)
        ensures
            r@ == cols_view(playlists@),
    {
        PlaylistStore { playlists }
    }

    /// Finds the first collection with the given id.
    fn find_collection(&self, collection_id: &str) -> (r: Option<usize>)
        ensures
            match r {
                Some(p) => find_col(self@, collection_id@) == Some(p as int),
                None => find_col(self@, collection_id@) is None,
            },
    {
        let mut i: usize = 0;
        while i < self.playlists.len()
            invariant
                self@.len() == self.playlists@.len(),
                0 <= i <= self@.len(),
                find_col_from(self@, collection_id@, 0) == find_col_from(
                    self@,
                    collection_id@,
                    i as int,
                ),
            decreases self@.len() - i,
        {
            if str_equal(self.playlists[i].id.as_str(), collection_id) {
                proof {
                    assert(find_col_from(self@, collection_id@, i as int) == Some(i as int));
                }
                return Some(i);
            }
            proof {
                assert(find_col_from(self@, collection_id@, i as int) == find_col_from(
                    self@,
                    collection_id@,
                    i as int + 1,
                ));
            }
            i = i + 1;
        }
        proof {
            assert(find_col_from(self@, collection_id@, self@.len() as int) is None);
        }
        None
    }

    /// A snapshot of every collection, public and personal.
    pub fn get_all(&self) -> (r: Vec<PlaylistCollection>)
        ensures
            cols_view(r@) == self@,
    {
        let mut out: Vec<PlaylistCollection> = Vec::new();
        let mut i: usize = 0;
        while i < self.playlists.len()
            invariant
                0 <= i <= self.playlists@.len(),
                out@.len() == i,
                forall|k: int| 0 <= k < i ==> #[trigger] out@[k]@ == self.playlists@[k]@,
            decreases self.playlists@.len() - i,
        {
            let c = self.playlists[i].clone();
            proof {
                assert(c@ == self.playlists@[i as int]@);
            }
            out.push(c);
            i = i + 1;
        }
        proof {
            assert(cols_view(out@) =~= self@);
        }
        out
    }

    /// A snapshot of the public collections alone, in store order — the only
    /// view ever broadcast to remote participants.
    pub fn get_public(&self) -> (r: Vec<PlaylistCollection>)
        ensures
            cols_view(r@) == public_cols(self@),
    {
        let mut out: Vec<PlaylistCollection> = Vec::new();
        let mut i: usize = 0;
        while i < self.playlists.len()
            invariant
                0 <= i <= self.playlists@.len(),
                cols_view(out@) == public_cols(self@.subrange(0, i as int)),
            decreases self.playlists@.len() - i,
        {
            if matches!(self.playlists[i].visibility, CollectionVisibility::Public) {
                out.push(self.playlists[i].clone());
            }
            proof {
                let pre = self@.subrange(0, i as int + 1);
                assert(pre.drop_last() =~= self@.subrange(0, i as int));
                assert(cols_view(out@) =~= public_cols(pre));
            }
            i = i + 1;
        }
        proof {
            assert(self@.subrange(0, self@.len() as int) =~= self@);
        }
        out
    }

    /// Creates a new collection under a fresh id and returns that id.
    /// Always succeeds.
    pub fn create_collection(&mut self, name: String, visibility: CollectionVisibility) -> (r:
        String)
        ensures
            final(self)@.len() == old(self)@.len() + 1,
            final(self)@.subrange(0, old(self)@.len() as int) == old(self)@,
            final(self)@.last().name == name@,
            final(self)@.last().visibility == visibility,
            final(self)@.last().songs == Seq::<SongV>::empty(),
            final(self)@.last().id == r@,
            final(self)@.last().created_at == final(self)@.last().updated_at,
    {
        let now = now_millis();
        let id = mint_id();
        let col = PlaylistCollection {
            id: id.clone(),
            name,
            visibility,
            songs: Vec::new(),
            created_at: now,
            updated_at: now,
        };
        self.playlists.push(col);
        proof {
            assert(self@.last().songs =~= Seq::<SongV>::empty());
            assert(self@.subrange(0, old(self)@.len() as int) =~= old(self)@);
        }
        id
    }

    /// Deletes the collection with the given id; `false` when it is unknown.
    pub fn delete_collection(&mut self, collection_id: &str) -> (r: bool)
        ensures
            r == (find_col(old(self)@, collection_id@) is Some),
            match find_col(old(self)@, collection_id@) {
                Some(i) => final(self)@ == old(self)@.remove(i),
                None => final(self)@ == old(self)@,
            },
    {
        match self.find_collection(collection_id) {
            Some(i) => {
                proof {
                    lemma_find_col_props(old(self)@, collection_id@, 0);
                }
                self.playlists.remove(i);
                proof {
                    assert(self@ =~= old(self)@.remove(i as int));
                }
                true
            },
            None => false,
        }
    }

    /// Renames the collection with the given id; `false` when it is unknown.
    pub fn rename_collection(&mut self, collection_id: &str, name: String) -> (r: bool)
        ensures
            r == (find_col(old(self)@, collection_id@) is Some),
            match find_col(old(self)@, collection_id@) {
                Some(i) => final(self)@ == old(self)@.update(
                    i,
                    CollectionV { name: name@, updated_at: final(self)@[i].updated_at, ..old(self)@[i] },
                ),
                None => final(self)@ == old(self)@,
            },
    {
        match self.find_collection(collection_id) {
            Some(i) => {
                proof {
                    lemma_find_col_props(old(self)@, collection_id@, 0);
                }
                let mut col = self.playlists.remove(i);
                col.name = name;
                col.updated_at = now_millis();
                self.playlists.insert(i, col);
                proof {
                    assert(self@ =~= old(self)@.update(
                        i as int,
                        CollectionV {
                            name: self@[i as int].name,
                            updated_at: self@[i as int].updated_at,
                            ..old(self)@[i as int]
                        },
                    ));
                }
                true
            },
            None => false,
        }
    }

    /// Sets the visibility of the collection with the given id; `false` when
    /// it is unknown.
    pub fn set_collection_visibility(
        &mut self,
        collection_id: &str,
        visibility: CollectionVisibility,
    ) -> (r: bool)
        ensures
            r == (find_col(old(self)@, collection_id@) is Some),
            match find_col(old(self)@, collection_id@) {
                Some(i) => final(self)@ == old(self)@.update(
                    i,
                    CollectionV {
                        visibility,
                        updated_at: final(self)@[i].updated_at,
                        ..old(self)@[i]
                    },
                ),
                None => final(self)@ == old(self)@,
            },
    {
        match self.find_collection(collection_id) {
            Some(i) => {
                proof {
                    lemma_find_col_props(old(self)@, collection_id@, 0);
                }
                let mut col = self.playlists.remove(i);
                col.visibility = visibility;
                col.updated_at = now_millis();
                self.playlists.insert(i, col);
                proof {
                    assert(self@ =~= old(self)@.update(
                        i as int,
                        CollectionV {
                            visibility,
                            updated_at: self@[i as int].updated_at,
                            ..old(self)@[i as int]
                        },
                    ));
                }
                true
            },
            None => false,
        }
    }

    /// Appends a song to the collection with the given id; `false` when it
    /// is unknown.
    pub fn add_to_collection(&mut self, collection_id: &str, song: Song) -> (r: bool)
        ensures
            r == (find_col(old(self)@, collection_id@) is Some),
            match find_col(old(self)@, collection_id@) {
                Some(i) => final(self)@ == old(self)@.update(
                    i,
                    CollectionV {
                        songs: old(self)@[i].songs.push(song@),
                        updated_at: final(self)@[i].updated_at,
                        ..old(self)@[i]
                    },
                ),
                None => final(self)@ == old(self)@,
            },
    {
        match self.find_collection(collection_id) {
            Some(i) => {
                proof {
                    lemma_find_col_props(old(self)@, collection_id@, 0);
                }
                let mut col = self.playlists.remove(i);
                col.songs.push(song);
                col.updated_at = now_millis();
                self.playlists.insert(i, col);
                proof {
                    assert(songs_view(self.playlists@[i as int].songs@) =~= old(
                        self,
                    )@[i as int].songs.push(self.playlists@[i as int].songs@.last()@));
                    assert(self@ =~= old(self)@.update(
                        i as int,
                        CollectionV {
                            songs: old(self)@[i as int].songs.push(
                                self.playlists@[i as int].songs@.last()@,
                            ),
                            updated_at: self@[i as int].updated_at,
                            ..old(self)@[i as int]
                        },
                    ));
                }
                true
            },
            None => false,
        }
    }

    /// Removes a song from the collection with the given id; `false` when
    /// the collection or the song is unknown.
    pub fn remove_from_collection(&mut self, collection_id: &str, song_id: &str) -> (r: bool)
        ensures
            r == (find_col(old(self)@, collection_id@) matches Some(i) && find_song(
                old(self)@[i].songs,
                song_id@,
            ) is Some),
            match find_col(old(self)@, collection_id@) {
                Some(i) => match find_song(old(self)@[i].songs, song_id@) {
                    Some(j) => final(self)@ == old(self)@.update(
                        i,
                        CollectionV {
                            songs: old(self)@[i].songs.remove(j),
                            updated_at: final(self)@[i].updated_at,
                            ..old(self)@[i]
                        },
                    ),
                    None => final(self)@ == old(self)@,
                },
                None => final(self)@ == old(self)@,
            },
    {
        match self.find_collection(collection_id) {
            Some(i) => {
                proof {
                    lemma_find_col_props(old(self)@, collection_id@, 0);
                }
                match find_song_index(&self.playlists[i].songs, song_id) {
                    Some(j) => {
                        proof {
                            lemma_find_song_props(old(self)@[i as int].songs, song_id@, 0);
                            assert(old(self)@[i as int].songs.len()
                                == self.playlists@[i as int].songs@.len());
                        }
                        let mut col = self.playlists.remove(i);
                        col.songs.remove(j);
                        col.updated_at = now_millis();
                        self.playlists.insert(i, col);
                        proof {
                            assert(songs_view(self.playlists@[i as int].songs@) =~= old(
                                self,
                            )@[i as int].songs.remove(j as int));
                            assert(self@ =~= old(self)@.update(
                                i as int,
                                CollectionV {
                                    songs: old(self)@[i as int].songs.remove(j as int),
                                    updated_at: self@[i as int].updated_at,
                                    ..old(self)@[i as int]
                                },
                            ));
                        }
                        true
                    },
                    None => false,
                }
            },
            None => false,
        }
    }

    /// Copies a song out of a collection for the queue: same content, fresh
    /// identity, source untouched. `None` when the collection or the song is
    /// unknown.
    pub fn clone_song_for_queue(&self, collection_id: &str, song_id: &str) -> (r: Option<Song>)
        ensures
            match r {
                Some(s) => find_col(self@, collection_id@) matches Some(i) && find_song(
                    self@[i].songs,
                    song_id@,
                ) matches Some(j) && song_copy_of(s@, self@[i].songs[j]),
                None => !(find_col(self@, collection_id@) matches Some(i) && find_song(
                    self@[i].songs,
                    song_id@,
                ) is Some),
            },
    {
        match self.find_collection(collection_id) {
            Some(i) => {
                proof {
                    lemma_find_col_props(self@, collection_id@, 0);
                }
                match find_song_index(&self.playlists[i].songs, song_id) {
                    Some(j) => {
                        proof {
                            lemma_find_song_props(self@[i as int].songs, song_id@, 0);
                            assert(self@[i as int].songs.len()
                                == self.playlists@[i as int].songs@.len());
                        }
                        Some(reinstantiate_song(&self.playlists[i].songs[j]))
                    },
                    None => None,
                }
            },
            None => None,
        }
    }

    /// The id of the first collection, creating a default public collection
    /// when the store is empty: every "add without explicit target" command
    /// has a destination.
    pub fn get_or_create_default_collection(&mut self) -> (r: String)
        ensures
            old(self)@.len() > 0 ==> final(self)@ == old(self)@ && r@ == final(self)@[0].id,
            old(self)@.len() == 0 ==> {
                &&& final(self)@.len() == 1
                &&& final(self)@[0].name == "Default Playlist"@
                &&& final(self)@[0].visibility == CollectionVisibility::Public
                &&& final(self)@[0].songs == Seq::<SongV>::empty()
                &&& r@ == final(self)@[0].id
            },
            find_col(final(self)@, r@) == Some(0int),
    {
        if self.playlists.len() > 0 {
            let id = self.playlists[0].id.clone();
            proof {
                assert(find_col_from(self@, id@, 0) == Some(0int));
            }
            id
        } else {
            let id = self.create_collection(
                String::from_str("Default Playlist"),
                CollectionVisibility::Public,
            );
            proof {
                assert(self@[0] == self@.last());
                assert(find_col_from(self@, id@, 0) == Some(0int));
            }
            id
        }
    }
}

// ------------------------------------------------------------------
// Import and export
// ------------------------------------------------------------------
/// The name an import tries at attempt `k`: the base name first, then
/// `… (Imported)`, then `… (Imported 2)`, `… (Imported 3)`, and so on.
pub open spec fn import_candidate(base: Seq<char>, k: nat) -> Seq<char> {
    if k == 0 {
        base
    } else if k == 1 {
        base + " (Imported)"@
    } else {
        base + " (Imported "@ + crate::text::dec_digits(k) + ")"@
    }
}

/// Does some collection already carry this name?
pub open spec fn name_taken(cols: Seq<CollectionV>, name: Seq<char>) -> bool {
    exists|j: int| 0 <= j < cols.len() && cols[j].name == name
}

/// The first candidate name, from attempt `k` on, that no collection
/// carries; the fuel bounds the search.
pub open spec fn import_name_from(cols: Seq<CollectionV>, base: Seq<char>, k: nat, fuel: nat) -> Seq<
    char,
>
    decreases fuel,
{
    if fuel == 0 {
        import_candidate(base, k)
    } else if !name_taken(cols, import_candidate(base, k)) {
        import_candidate(base, k)
    } else {
        import_name_from(cols, base, (k + 1) as nat, (fuel - 1) as nat)
    }
}

/// The name an imported collection gets: the first free candidate. One more
/// candidate is tried than there are collections, so the search never runs
/// out while a free name exists.
pub open spec fn import_name(cols: Seq<CollectionV>, base: Seq<char>) -> Seq<char> {
    import_name_from(cols, base, 0, import_fuel(cols))
}

/// The number of candidates the import tries.
pub open spec fn import_fuel(cols: Seq<CollectionV>) -> nat {
    if cols.len() + 1 <= usize::MAX {
        cols.len() + 1
    } else {
        usize::MAX as nat
    }
}

/// Two distinct attempts try distinct candidate names.
proof fn lemma_candidate_injective(base: Seq<char>, k1: nat, k2: nat)
    requires
        import_candidate(base, k1) == import_candidate(base, k2),
    ensures
        k1 == k2,
{
    reveal_strlit(" (Imported)");
    reveal_strlit(" (Imported ");
    reveal_strlit(")");
    if k1 != k2 {
        let c1 = import_candidate(base, k1);
        let c2 = import_candidate(base, k2);
        // the three candidate shapes have pairwise different lengths
        if k1 == 0 {
            assert(c1.len() == base.len());
        } else if k1 == 1 {
            assert(c1.len() == base.len() + 11);
        } else {
            crate::text::lemma_dec_digits_all_digits(k1);
            assert(c1.len() == base.len() + 12 + crate::text::dec_digits(k1).len());
        }
        if k2 == 0 {
            assert(c2.len() == base.len());
        } else if k2 == 1 {
            assert(c2.len() == base.len() + 11);
        } else {
            crate::text::lemma_dec_digits_all_digits(k2);
            assert(c2.len() == base.len() + 12 + crate::text::dec_digits(k2).len());
        }
        assert(k1 >= 2 && k2 >= 2);
        let d1 = crate::text::dec_digits(k1);
        let d2 = crate::text::dec_digits(k2);
        assert(d1.len() == d2.len());
        assert forall|i: int| 0 <= i < d1.len() implies d1[i] == d2[i] by {
            let n = base.len() + 11 + i;
            assert(c1[n] == d1[i]);
            assert(c2[n] == d2[i]);
        }
        assert(d1 =~= d2);
        crate::text::lemma_dec_digits_injective(k1, k2);
    }
}

/// The collections whose name is one of the candidates from attempt `k` on.
pub open spec fn taken_after(cols: Seq<CollectionV>, base: Seq<char>, k: nat) -> Set<int> {
    Set::new(
        |j: int|
            0 <= j < cols.len() && exists|m: nat|
                m >= k && cols[j].name == import_candidate(base, m),
    )
}

proof fn lemma_taken_after_bounds(cols: Seq<CollectionV>, base: Seq<char>, k: nat)
    ensures
        taken_after(cols, base, k).finite(),
        taken_after(cols, base, k).len() <= cols.len(),
{
    vstd::set_lib::lemma_int_range(0, cols.len() as int);
    assert(taken_after(cols, base, k).subset_of(
        vstd::set_lib::set_int_range(0, cols.len() as int),
    ));
    vstd::set_lib::lemma_len_subset(
        taken_after(cols, base, k),
        vstd::set_lib::set_int_range(0, cols.len() as int),
    );
}

/// With more attempts left than collections whose names still block a
/// candidate, the search settles on a free name: each blocked attempt rules
/// out one collection, since candidates never repeat.
proof fn lemma_pick_is_free(cols: Seq<CollectionV>, base: Seq<char>, k: nat, fuel: nat)
    requires
        fuel > taken_after(cols, base, k).len(),
    ensures
        !name_taken(cols, import_name_from(cols, base, k, fuel)),
    decreases fuel,
{
    lemma_taken_after_bounds(cols, base, k);
    if !name_taken(cols, import_candidate(base, k)) {
    } else {
        let j0 = choose|j: int|
            0 <= j < cols.len() && cols[j].name == import_candidate(base, k);
        assert(k >= k && cols[j0].name == import_candidate(base, k));
        assert(taken_after(cols, base, k).contains(j0));
        assert forall|j: int|
            taken_after(cols, base, (k + 1) as nat).contains(j) implies taken_after(
            cols,
            base,
            k,
        ).remove(j0).contains(j) by {
            let m = choose|m: nat| m >= k + 1 && cols[j].name == import_candidate(base, m);
            assert(m >= k && cols[j].name == import_candidate(base, m));
            assert(taken_after(cols, base, k).contains(j));
            if j == j0 {
                assert(import_candidate(base, k) == import_candidate(base, m));
                lemma_candidate_injective(base, k, m);
            }
        }
        vstd::set_lib::lemma_len_subset(
            taken_after(cols, base, (k + 1) as nat),
            taken_after(cols, base, k).remove(j0),
        );
        vstd::set::axiom_set_remove_len(taken_after(cols, base, k), j0);
        lemma_pick_is_free(cols, base, (k + 1) as nat, (fuel - 1) as nat);
    }
}

/// Name-collision suffixing settles: the name an import picks collides with
/// no existing collection's name, because the search tries one more
/// candidate than there are collections and never repeats a candidate.
pub proof fn lemma_import_name_free(cols: Seq<CollectionV>, base: Seq<char>)
    requires
        cols.len() + 1 <= usize::MAX,
    ensures
        !name_taken(cols, import_name(cols, base)),
{
    lemma_taken_after_bounds(cols, base, 0);
    lemma_pick_is_free(cols, base, 0, (cols.len() + 1) as nat);
}

/// Are `new` the same songs as `src`, each under a fresh identity?
pub open spec fn songs_reminted(new: Seq<SongV>, src: Seq<SongV>) -> bool {
    &&& new.len() == src.len()
    &&& forall|k: int| 0 <= k < new.len() ==> song_copy_of(new[k], src[k])
}

fn build_candidate(base: &str, k: usize) -> (r: String)
    ensures
        r@ == import_candidate(base@, k as nat),
{
    if k == 0 {
        String::from_str(base)
    } else if k == 1 {
        let mut s = String::from_str(base);
        s.append(" (Imported)");
        s
    } else {
        let mut s = String::from_str(base);
        s.append(" (Imported ");
        let digits = crate::text::u64_to_string(k as u64);
        s.append(digits.as_str());
        s.append(")");
        proof {
            assert(s@ =~= base@ + " (Imported "@ + crate::text::dec_digits(k as nat) + ")"@);
        }
        s
    }
}

impl PlaylistStore {
    fn is_name_taken(&self, name: &String) -> (r: bool)
        ensures
            r == name_taken(self@, name@),
    {
        let mut i: usize = 0;
        while i < self.playlists.len()
            invariant
                self@.len() == self.playlists@.len(),
                0 <= i <= self@.len(),
                forall|j: int| 0 <= j < i ==> self@[j].name != name@,
            decreases self@.len() - i,
        {
            if str_equal(self.playlists[i].name.as_str(), name.as_str()) {
                proof {
                    assert(self@[i as int].name == name@);
                }
                return true;
            }
            i = i + 1;
        }
        false
    }

    fn pick_import_name(&self, base: &str, k: usize, fuel: usize) -> (r: String)
        requires
            k + fuel <= usize::MAX,
        ensures
            r@ == import_name_from(self@, base@, k as nat, fuel as nat),
        decreases fuel,
    {
        let cand = build_candidate(base, k);
        if fuel == 0 {
            cand
        } else if !self.is_name_taken(&cand) {
            cand
        } else {
            self.pick_import_name(base, k + 1, fuel - 1)
        }
    }

    /// Imports a collection from envelope text: the songs are re-minted
    /// under fresh identities, the name is suffixed until it collides with
    /// no existing collection's, and the collection is appended under a
    /// fresh id, which is returned. Fails, leaving the store unchanged, when
    /// the text is not exactly one well-formed envelope.
    pub fn import_collection(&mut self, data: &str) -> (r: Result<String, String>)
        ensures
            r is Ok <==> crate::codec::spec_parse_envelope(data@) is Some,
            r matches Err(m) ==> m@ == "Invalid collection data"@ && final(self)@ == old(self)@,
            r matches Ok(id) ==> ({
                let env = crate::codec::spec_parse_envelope(data@)->Some_0;
                &&& final(self)@.len() == old(self)@.len() + 1
                &&& final(self)@.subrange(0, old(self)@.len() as int) == old(self)@
                &&& final(self)@.last().id == id@
                &&& final(self)@.last().name == import_name(old(self)@, env.name)
                &&& final(self)@.last().visibility == env.visibility
                &&& songs_reminted(final(self)@.last().songs, env.songs)
                &&& final(self)@.last().created_at == final(self)@.last().updated_at
            }),
            r is Ok && old(self)@.len() + 1 <= usize::MAX ==> !name_taken(
                old(self)@,
                final(self)@.last().name,
            ),
    {
        let parsed = match crate::codec::parse_envelope(data) {
            Some(t) => t,
            None => {
                return Err(String::from_str("Invalid collection data"));
            },
        };
        let (name, visibility, songs) = parsed;
        let now = now_millis();
        let id = mint_id();
        let mut minted: Vec<Song> = Vec::new();
        let mut i: usize = 0;
        while i < songs.len()
            invariant
                0 <= i <= songs@.len(),
                minted@.len() == i,
                forall|k: int|
                    0 <= k < i ==> song_copy_of(#[trigger] minted@[k]@, songs_view(songs@)[k]),
            decreases songs@.len() - i,
        {
            minted.push(reinstantiate_song(&songs[i]));
            i = i + 1;
        }
        let n = self.playlists.len();
        let fuel: usize = if n == usize::MAX {
            n
        } else {
            n + 1
        };
        let final_name = self.pick_import_name(name.as_str(), 0, fuel);
        let col = PlaylistCollection {
            id: id.clone(),
            name: final_name,
            visibility,
            songs: minted,
            created_at: now,
            updated_at: now,
        };
        self.playlists.push(col);
        proof {
            assert(self@.subrange(0, old(self)@.len() as int) =~= old(self)@);
            assert(songs_view(self.playlists@.last().songs@) =~= self@.last().songs);
            if old(self)@.len() + 1 <= usize::MAX {
                lemma_import_name_free(old(self)@, name@);
            }
        }
        Ok(id)
    }

    /// Exports the collection with the given id as envelope text, in the
    /// exact shape `import_collection` consumes. Fails when the id is
    /// unknown.
    pub fn export_collection(&self, collection_id: &str) -> (r: Result<String, String>)
        ensures
            r is Ok <==> find_col(self@, collection_id@) is Some,
            r matches Err(m) ==> m@ == "Collection not found"@,
            r matches Ok(text) ==> ({
                let i = find_col(self@, collection_id@)->Some_0;
                text@ == crate::codec::encode_envelope(
                    crate::codec::EnvelopeData {
                        name: self@[i].name,
                        visibility: self@[i].visibility,
                        songs: self@[i].songs,
                    },
                )
            }),
    {
        match self.find_collection(collection_id) {
            Some(i) => {
                proof {
                    lemma_find_col_props(self@, collection_id@, 0);
                }
                let col = &self.playlists[i];
                Ok(
                    crate::codec::encode_collection(
                        col.name.as_str(),
                        col.visibility,
                        &col.songs,
                    ),
                )
            },
            None => Err(String::from_str("Collection not found")),
        }
    }
}

/// Wraps a legacy flat list of songs — the old persisted format — into one
/// default public collection, as the first read of an old installation does.
pub fn upgrade_legacy_songs(songs: Vec<Song>) -> (c: PlaylistCollection)
    ensures
        c@.name == "Default Playlist"@,
        c@.visibility == CollectionVisibility::Public,
        c@.songs == songs_view(songs@),
        c@.created_at == c@.updated_at,
{
    let now = now_millis();
    PlaylistCollection {
        id: mint_id(),
        name: String::from_str("Default Playlist"),
        visibility: CollectionVisibility::Public,
        songs,
        created_at: now,
        updated_at: now,
    }
}

} // verus!
