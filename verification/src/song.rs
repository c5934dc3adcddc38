//! Songs and song metadata. A song is immutable once created; copying one
//! between containers always mints a new identity (`id`, `added_at`), never
//! reuses the source's.

use vstd::prelude::*;
use vstd::string::StringExecFns;

use crate::ext::mint_id;
use crate::ext::now_millis;

verus! {

/// A song instance held in a queue or a collection.
pub struct Song {
    pub id: String,
    pub youtube_id: String,
    pub title: String,
    pub artist: String,
    pub duration: u32,
    pub thumbnail_url: String,
    pub added_by: String,
    pub added_at: i64,
}

/// The mathematical value of a song: its text fields as character sequences.
pub struct SongV {
    pub id: Seq<char>,
    pub youtube_id: Seq<char>,
    pub title: Seq<char>,
    pub artist: Seq<char>,
    pub duration: u32,
    pub thumbnail_url: Seq<char>,
    pub added_by: Seq<char>,
    pub added_at: i64,
}

impl View for Song {
    type V = SongV;

    open spec fn view(&self) -> SongV {
        SongV {
            id: self.id@,
            youtube_id: self.youtube_id@,
            title: self.title@,
            artist: self.artist@,
            duration: self.duration,
            thumbnail_url: self.thumbnail_url@,
            added_by: self.added_by@,
            added_at: self.added_at,
        }
    }
}

impl Clone for Song {
    fn clone(&self) -> (r: Self)
        ensures
            r == *self,
    {
        Song {
            id: self.id.clone(),
            youtube_id: self.youtube_id.clone(),
            title: self.title.clone(),
            artist: self.artist.clone(),
            duration: self.duration,
            thumbnail_url: self.thumbnail_url.clone(),
            added_by: self.added_by.clone(),
            added_at: self.added_at,
        }
    }
}

/// The views of a sequence of songs.
pub open spec fn songs_view(songs: Seq<Song>) -> Seq<SongV> {
    songs.map_values(|s: Song| s@)
}

/// Copies a list of songs element by element.
pub fn clone_songs(songs: &Vec<Song>) -> (r: Vec<Song>)
    ensures
        r@ == songs@,
{
    let mut out: Vec<Song> = Vec::new();
    let mut i: usize = 0;
    while i < songs.len()
        invariant
            0 <= i <= songs@.len(),
            out@ == songs@.subrange(0, i as int),
        decreases songs@.len() - i,
    {
        out.push(songs[i].clone());
        proof {
            assert(out@ =~= songs@.subrange(0, i as int + 1));
        }
        i = i + 1;
    }
    proof {
        assert(songs@.subrange(0, songs@.len() as int) =~= songs@);
    }
    out
}

/// What the metadata provider reports about a video, or the placeholder
/// values when it is unavailable.
pub struct SongMetadata {
    pub title: String,
    pub artist: String,
    pub duration: u32,
    pub thumbnail_url: String,
}

/// The placeholder metadata used whenever the external metadata fetch times
/// out or fails: a derived title, an unknown artist, zero duration and a
/// deterministic thumbnail URL. This is the one place that policy lives.
pub fn fallback_metadata(youtube_id: &str) -> (r: SongMetadata)
    ensures
        r.title@ == "YouTube Video "@ + youtube_id@,
        r.artist@ == "Unknown Artist"@,
        r.duration == 0,
        r.thumbnail_url@ == "https://img.youtube.com/vi/"@ + youtube_id@ + "/mqdefault.jpg"@,
{
    let mut title = String::from_str("YouTube Video ");
    title.append(youtube_id);
    let mut thumb = String::from_str("https://img.youtube.com/vi/");
    thumb.append(youtube_id);
    thumb.append("/mqdefault.jpg");
    SongMetadata {
        title,
        artist: String::from_str("Unknown Artist"),
        duration: 0,
        thumbnail_url: thumb,
    }
}

/// Builds the queue/collection entry for a fetched video: the metadata's
/// fields under a freshly minted identity.
pub fn song_from_metadata(youtube_id: String, added_by: String, meta: SongMetadata) -> (s: Song)
    ensures
        s.youtube_id == youtube_id,
        s.title == meta.title,
        s.artist == meta.artist,
        s.duration == meta.duration,
        s.thumbnail_url == meta.thumbnail_url,
        s.added_by == added_by,
{
    Song {
        id: mint_id(),
        youtube_id,
        title: meta.title,
        artist: meta.artist,
        duration: meta.duration,
        thumbnail_url: meta.thumbnail_url,
        added_by,
        added_at: now_millis(),
    }
}

/// Does `copy` carry the same content as `source`, under a fresh identity?
/// The identity fields (`id`, `added_at`) are deliberately left free.
pub open spec fn song_copy_of(copy: SongV, source: SongV) -> bool {
    &&& copy.youtube_id == source.youtube_id
    &&& copy.title == source.title
    &&& copy.artist == source.artist
    &&& copy.duration == source.duration
    &&& copy.thumbnail_url == source.thumbnail_url
    &&& copy.added_by == source.added_by
}

/// Re-instantiates a song for another container: same content, fresh
/// identity and timestamp.
pub fn reinstantiate_song(source: &Song) -> (r: Song)
    ensures
        song_copy_of(r@, source@),
{
    Song {
        id: mint_id(),
        youtube_id: source.youtube_id.clone(),
        title: source.title.clone(),
        artist: source.artist.clone(),
        duration: source.duration,
        thumbnail_url: source.thumbnail_url.clone(),
        added_by: source.added_by.clone(),
        added_at: now_millis(),
    }
}

} // verus!
