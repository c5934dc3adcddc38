//! The collection export envelope: a stable, versioned text format
//! `{"formatTag":"1.0","collection":{"name":…,"visibility":…,"songs":[…]}}`
//! used for file-based save/load and inter-device import/export. The encoder
//! and the parser are written here directly over characters; the grammar is
//! the canonical form the encoder produces: strings quote `"` and `\` with a
//! backslash, numbers are plain decimal (at most ten digits for a song's
//! duration, a sign and at most nineteen digits for its timestamp), and no
//! whitespace stands between tokens.

use vstd::prelude::*;
use vstd::string::StrSliceExecFns;
use vstd::string::StringExecFns;

use crate::collection::CollectionVisibility;
use crate::ext::push_char;
use crate::song::songs_view;
use crate::song::Song;
use crate::song::SongV;
use crate::text::char_digit;
use crate::text::dec_digits;
use crate::text::dec_signed;
use crate::text::dec_value;
use crate::text::is_digit;
use crate::text::pow10;
use crate::text::i64_to_string;
use crate::text::u64_to_string;

verus! {

/// The content of an envelope, as mathematical values.
pub struct EnvelopeData {
    pub name: Seq<char>,
    pub visibility: CollectionVisibility,
    pub songs: Seq<SongV>,
}

// ------------------------------------------------------------------
// Encoding, specification
// ------------------------------------------------------------------
/// How one character is written inside a quoted string.
pub open spec fn esc_char(c: char) -> Seq<char> {
    if c == '"' {
        seq!['\\', '"']
    } else if c == '\\' {
        seq!['\\', '\\']
    } else {
        seq![c]
    }
}

/// The escaped body of a quoted string.
pub open spec fn esc_chars(s: Seq<char>) -> Seq<char>
    decreases s.len(),
{
    if s.len() == 0 {
        Seq::<char>::empty()
    } else {
        esc_chars(s.drop_last()) + esc_char(s.last())
    }
}

/// A string literal of the format: quote, escaped body, quote.
pub open spec fn quoted(s: Seq<char>) -> Seq<char> {
    seq!['"'] + esc_chars(s) + seq!['"']
}

/// The textual form of a visibility.
pub open spec fn vis_text(v: CollectionVisibility) -> Seq<char> {
    if v == CollectionVisibility::Public {
        "public"@
    } else {
        "personal"@
    }
}

/// One song object of the envelope.
pub open spec fn encode_song(s: SongV) -> Seq<char> {
    "{\"id\":"@ + quoted(s.id) + ",\"youtubeId\":"@ + quoted(s.youtube_id) + ",\"title\":"@
        + quoted(s.title) + ",\"artist\":"@ + quoted(s.artist) + ",\"duration\":"@ + dec_digits(
        s.duration as nat,
    ) + ",\"thumbnailUrl\":"@ + quoted(s.thumbnail_url) + ",\"addedBy\":"@ + quoted(s.added_by)
        + ",\"addedAt\":"@ + dec_signed(s.added_at as int) + "}"@
}

/// The songs of the envelope, separated by commas.
pub open spec fn encode_songs(songs: Seq<SongV>) -> Seq<char>
    decreases songs.len(),
{
    if songs.len() == 0 {
        Seq::<char>::empty()
    } else if songs.len() == 1 {
        encode_song(songs[0])
    } else {
        encode_song(songs[0]) + seq![','] + encode_songs(songs.drop_first())
    }
}

/// The whole envelope.
pub open spec fn encode_envelope(e: EnvelopeData) -> Seq<char> {
    "{\"formatTag\":\"1.0\",\"collection\":{\"name\":"@ + quoted(e.name) + ",\"visibility\":"@
        + quoted(vis_text(e.visibility)) + ",\"songs\":["@ + encode_songs(e.songs) + "]}}"@
}

// ------------------------------------------------------------------
// Encoding, executable
// ------------------------------------------------------------------
/// Appends a quoted, escaped string.
fn push_quoted(out: &mut String, s: &str)
    ensures
        final(out)@ == old(out)@ + quoted(s@),
{
    push_char(out, '"');
    let len = s.unicode_len();
    let mut i: usize = 0;
    proof {
        assert(esc_chars(s@.subrange(0, 0)) =~= Seq::<char>::empty());
        assert(out@ =~= old(out)@ + seq!['"'] + esc_chars(s@.subrange(0, 0)));
    }
    while i < len
        invariant
            len == s@.len(),
            0 <= i <= len,
            out@ == old(out)@ + seq!['"'] + esc_chars(s@.subrange(0, i as int)),
        decreases len - i,
    {
        let c = s.get_char(i);
        if c == '"' {
            push_char(out, '\\');
            push_char(out, '"');
        } else if c == '\\' {
            push_char(out, '\\');
            push_char(out, '\\');
        } else {
            push_char(out, c);
        }
        proof {
            let pre = s@.subrange(0, i as int + 1);
            assert(pre.drop_last() =~= s@.subrange(0, i as int));
            assert(pre.last() == s@[i as int]);
            assert(out@ =~= old(out)@ + seq!['"'] + esc_chars(pre));
        }
        i = i + 1;
    }
    push_char(out, '"');
    proof {
        assert(s@.subrange(0, s@.len() as int) =~= s@);
        assert(out@ =~= old(out)@ + quoted(s@));
    }
}

/// Appends one encoded song.
fn push_song(out: &mut String, s: &Song)
    ensures
        final(out)@ == old(out)@ + encode_song(s@),
{
    out.append("{\"id\":");
    push_quoted(out, s.id.as_str());
    out.append(",\"youtubeId\":");
    push_quoted(out, s.youtube_id.as_str());
    out.append(",\"title\":");
    push_quoted(out, s.title.as_str());
    out.append(",\"artist\":");
    push_quoted(out, s.artist.as_str());
    out.append(",\"duration\":");
    let d = u64_to_string(s.duration as u64);
    out.append(d.as_str());
    out.append(",\"thumbnailUrl\":");
    push_quoted(out, s.thumbnail_url.as_str());
    out.append(",\"addedBy\":");
    push_quoted(out, s.added_by.as_str());
    out.append(",\"addedAt\":");
    let t = i64_to_string(s.added_at);
    out.append(t.as_str());
    out.append("}");
    proof {
        assert(final(out)@ =~= old(out)@ + encode_song(s@));
    }
}

pub proof fn lemma_encode_songs_snoc(songs: Seq<SongV>, s: SongV)
    ensures
        songs.len() == 0 ==> encode_songs(songs.push(s)) == encode_song(s),
        songs.len() > 0 ==> encode_songs(songs.push(s)) == encode_songs(songs) + seq![',']
            + encode_song(s),
    decreases songs.len(),
{
    if songs.len() == 0 {
        assert(songs.push(s)[0] == s);
        assert(encode_songs(songs.push(s)) == encode_song(s));
    } else {
        lemma_encode_songs_snoc(songs.drop_first(), s);
        assert(songs.push(s).drop_first() =~= songs.drop_first().push(s));
        assert(songs.push(s)[0] == songs[0]);
        if songs.len() == 1 {
            assert(encode_songs(songs.push(s)) == encode_song(songs[0]) + seq![','] + encode_song(
                s,
            ));
            assert(encode_songs(songs) == encode_song(songs[0]));
        } else {
            assert(encode_songs(songs.push(s)) =~= encode_songs(songs) + seq![','] + encode_song(
                s,
            ));
        }
    }
}

/// Builds the envelope text for a collection's content.
pub fn encode_collection(name: &str, visibility: CollectionVisibility, songs: &Vec<Song>) -> (r:
    String)
    ensures
        r@ == encode_envelope(
            EnvelopeData { name: name@, visibility, songs: songs_view(songs@) },
        ),
{
    let mut out = String::from_str("{\"formatTag\":\"1.0\",\"collection\":{\"name\":");
    push_quoted(&mut out, name);
    out.append(",\"visibility\":");
    match visibility {
        CollectionVisibility::Public => push_quoted(&mut out, "public"),
        CollectionVisibility::Personal => push_quoted(&mut out, "personal"),
    }
    out.append(",\"songs\":[");
    let ghost header = out@;
    let mut i: usize = 0;
    proof {
        assert(encode_songs(songs_view(songs@).subrange(0, 0)) =~= Seq::<char>::empty());
        assert(out@ =~= header + encode_songs(songs_view(songs@).subrange(0, 0)));
    }
    while i < songs.len()
        invariant
            0 <= i <= songs@.len(),
            songs_view(songs@).len() == songs@.len(),
            out@ == header + encode_songs(songs_view(songs@).subrange(0, i as int)),
        decreases songs@.len() - i,
    {
        if i > 0 {
            push_char(&mut out, ',');
        }
        push_song(&mut out, &songs[i]);
        proof {
            let sv = songs_view(songs@);
            let pre = sv.subrange(0, i as int + 1);
            assert(sv.subrange(0, i as int).push(sv[i as int]) =~= pre);
            lemma_encode_songs_snoc(sv.subrange(0, i as int), sv[i as int]);
            assert(out@ =~= header + encode_songs(pre));
        }
        i = i + 1;
    }
    out.append("]}}");
    proof {
        let sv = songs_view(songs@);
        assert(sv.subrange(0, sv.len() as int) =~= sv);
        assert(out@ =~= encode_envelope(
            EnvelopeData { name: name@, visibility, songs: songs_view(songs@) },
        ));
    }
    out
}

// ------------------------------------------------------------------
// Parsing, specification
// ------------------------------------------------------------------
/// Is the character `c` at position `i`?
pub open spec fn at_char(s: Seq<char>, i: int, c: char) -> bool {
    0 <= i < s.len() && s[i] == c
}

/// Does `lit` stand at position `i`?
pub open spec fn lit_at(s: Seq<char>, i: int, lit: Seq<char>) -> bool {
    0 <= i && i + lit.len() <= s.len() && s.subrange(i, i + lit.len() as int) == lit
}

/// Scans a string body from just after the opening quote to the closing
/// quote, undoing the escapes; `None` on an unterminated or malformed body.
pub open spec fn scan_string(s: Seq<char>, i: int) -> Option<(Seq<char>, int)>
    decreases s.len() - i,
    when 0 <= i <= s.len()
{
    if i >= s.len() {
        None
    } else if s[i] == '"' {
        Some((Seq::<char>::empty(), i + 1))
    } else if s[i] == '\\' {
        if i + 1 < s.len() && (s[i + 1] == '"' || s[i + 1] == '\\') {
            match scan_string(s, i + 2) {
                Some((t, j)) => Some((seq![s[i + 1]] + t, j)),
                None => None,
            }
        } else {
            None
        }
    } else {
        match scan_string(s, i + 1) {
            Some((t, j)) => Some((seq![s[i]] + t, j)),
            None => None,
        }
    }
}

/// Parses a quoted string at position `i`.
pub open spec fn spec_parse_string(s: Seq<char>, i: int) -> Option<(Seq<char>, int)> {
    if at_char(s, i, '"') {
        scan_string(s, i + 1)
    } else {
        None
    }
}

/// The end of the run of digits that starts at `i`.
pub open spec fn run_end(s: Seq<char>, i: int) -> int
    decreases s.len() - i,
    when 0 <= i <= s.len()
{
    if i >= s.len() {
        i
    } else if is_digit(s[i]) {
        run_end(s, i + 1)
    } else {
        i
    }
}

/// Parses an unsigned number of at most ten digits that fits in `u32`.
pub open spec fn spec_parse_u32(s: Seq<char>, i: int) -> Option<(u32, int)> {
    if 0 <= i <= s.len() {
        let e = run_end(s, i);
        if e == i || e - i > 10 {
            None
        } else if dec_value(s.subrange(i, e)) > u32::MAX {
            None
        } else {
            Some((dec_value(s.subrange(i, e)) as u32, e))
        }
    } else {
        None
    }
}

/// Parses an optionally negated number of at most nineteen digits that fits
/// in `i64`.
pub open spec fn spec_parse_i64(s: Seq<char>, i: int) -> Option<(i64, int)> {
    if at_char(s, i, '-') {
        if 0 <= i + 1 <= s.len() {
            let e = run_end(s, i + 1);
            if e == i + 1 || e - (i + 1) > 19 {
                None
            } else if dec_value(s.subrange(i + 1, e)) > 0x8000_0000_0000_0000u64 {
                None
            } else {
                Some(((-(dec_value(s.subrange(i + 1, e)) as int)) as i64, e))
            }
        } else {
            None
        }
    } else if 0 <= i <= s.len() {
        let e = run_end(s, i);
        if e == i || e - i > 19 {
            None
        } else if dec_value(s.subrange(i, e)) > i64::MAX {
            None
        } else {
            Some((dec_value(s.subrange(i, e)) as i64, e))
        }
    } else {
        None
    }
}

/// Parses one song object at position `i`.
pub open spec fn spec_parse_song(s: Seq<char>, i: int) -> Option<(SongV, int)> {
    let k1 = "{\"id\":"@;
    if !lit_at(s, i, k1) {
        None
    } else {
        match spec_parse_string(s, i + k1.len()) {
            None => None,
            Some((id, a)) => {
                let k2 = ",\"youtubeId\":"@;
                if !lit_at(s, a, k2) {
                    None
                } else {
                    match spec_parse_string(s, a + k2.len()) {
                        None => None,
                        Some((yid, b)) => {
                            let k3 = ",\"title\":"@;
                            if !lit_at(s, b, k3) {
                                None
                            } else {
                                match spec_parse_string(s, b + k3.len()) {
                                    None => None,
                                    Some((title, c)) => {
                                        let k4 = ",\"artist\":"@;
                                        if !lit_at(s, c, k4) {
                                            None
                                        } else {
                                            match spec_parse_string(s, c + k4.len()) {
                                                None => None,
                                                Some((artist, d)) => spec_parse_song_tail(
                                                    s,
                                                    d,
                                                    id,
                                                    yid,
                                                    title,
                                                    artist,
                                                ),
                                            }
                                        }
                                    },
                                }
                            }
                        },
                    }
                }
            },
        }
    }
}

/// The second half of a song object, from the duration on.
pub open spec fn spec_parse_song_tail(
    s: Seq<char>,
    d: int,
    id: Seq<char>,
    yid: Seq<char>,
    title: Seq<char>,
    artist: Seq<char>,
) -> Option<(SongV, int)> {
    let k5 = ",\"duration\":"@;
    if !lit_at(s, d, k5) {
        None
    } else {
        match spec_parse_u32(s, d + k5.len()) {
            None => None,
            Some((dur, e)) => {
                let k6 = ",\"thumbnailUrl\":"@;
                if !lit_at(s, e, k6) {
                    None
                } else {
                    match spec_parse_string(s, e + k6.len()) {
                        None => None,
                        Some((thumb, f)) => {
                            let k7 = ",\"addedBy\":"@;
                            if !lit_at(s, f, k7) {
                                None
                            } else {
                                match spec_parse_string(s, f + k7.len()) {
                                    None => None,
                                    Some((by, g)) => {
                                        let k8 = ",\"addedAt\":"@;
                                        if !lit_at(s, g, k8) {
                                            None
                                        } else {
                                            match spec_parse_i64(s, g + k8.len()) {
                                                None => None,
                                                Some((aat, h)) => {
                                                    if at_char(s, h, '}') {
                                                        Some(
                                                            (
                                                                SongV {
                                                                    id,
                                                                    youtube_id: yid,
                                                                    title,
                                                                    artist,
                                                                    duration: dur,
                                                                    thumbnail_url: thumb,
                                                                    added_by: by,
                                                                    added_at: aat,
                                                                },
                                                                h + 1,
                                                            ),
                                                        )
                                                    } else {
                                                        None
                                                    }
                                                },
                                            }
                                        }
                                    },
                                }
                            }
                        },
                    }
                }
            },
        }
    }
}

/// Parses a non-empty comma-separated song list ending at `]`. The fuel
/// bounds the number of songs; the callers pass the text's length, which a
/// song list can never reach since every song takes several characters.
pub open spec fn spec_parse_song_list(s: Seq<char>, i: int, fuel: nat) -> Option<
    (Seq<SongV>, int),
>
    decreases fuel,
{
    if fuel == 0 {
        None
    } else {
        match spec_parse_song(s, i) {
            None => None,
            Some((sv, j)) => {
                if at_char(s, j, ',') {
                    match spec_parse_song_list(s, j + 1, (fuel - 1) as nat) {
                        None => None,
                        Some((rest, k)) => Some((seq![sv] + rest, k)),
                    }
                } else if at_char(s, j, ']') {
                    Some((seq![sv], j + 1))
                } else {
                    None
                }
            },
        }
    }
}

/// Parses the song array from just after the `[`, consuming the `]`.
pub open spec fn spec_parse_songs(s: Seq<char>, i: int) -> Option<(Seq<SongV>, int)> {
    if at_char(s, i, ']') {
        Some((Seq::<SongV>::empty(), i + 1))
    } else {
        spec_parse_song_list(s, i, s.len() as nat)
    }
}

/// Parses a whole envelope; the text must hold nothing after it.
pub open spec fn spec_parse_envelope(s: Seq<char>) -> Option<EnvelopeData> {
    let head = "{\"formatTag\":\"1.0\",\"collection\":{\"name\":"@;
    if !lit_at(s, 0, head) {
        None
    } else {
        match spec_parse_string(s, head.len() as int) {
            None => None,
            Some((name, i1)) => {
                let kv = ",\"visibility\":"@;
                if !lit_at(s, i1, kv) {
                    None
                } else {
                    match spec_parse_string(s, i1 + kv.len()) {
                        None => None,
                        Some((vtext, i2)) => {
                            let vis = if vtext == "public"@ {
                                Some(CollectionVisibility::Public)
                            } else if vtext == "personal"@ {
                                Some(CollectionVisibility::Personal)
                            } else {
                                None
                            };
                            match vis {
                                None => None,
                                Some(v) => {
                                    let ks = ",\"songs\":["@;
                                    if !lit_at(s, i2, ks) {
                                        None
                                    } else {
                                        match spec_parse_songs(s, i2 + ks.len()) {
                                            None => None,
                                            Some((songs, i3)) => {
                                                let tail = "}}"@;
                                                if lit_at(s, i3, tail) && i3 + tail.len()
                                                    == s.len() {
                                                    Some(
                                                        EnvelopeData { name, visibility: v, songs },
                                                    )
                                                } else {
                                                    None
                                                }
                                            },
                                        }
                                    }
                                },
                            }
                        },
                    }
                }
            },
        }
    }
}

// ------------------------------------------------------------------
// Parsing, executable
// ------------------------------------------------------------------
/// Consumes `lit` at position `i`, returning the position after it.
fn expect_lit(s: &str, i: usize, len: usize, lit: &str) -> (r: Option<usize>)
    requires
        len == s@.len(),
        i <= len,
    ensures
        match r {
            Some(j) => lit_at(s@, i as int, lit@) && j == i + lit@.len() && i <= j <= len,
            None => !lit_at(s@, i as int, lit@),
        },
{
    let llen = lit.unicode_len();
    if llen > len - i {
        return None;
    }
    if crate::text::match_at(s, i, lit, llen) {
        Some(i + llen)
    } else {
        None
    }
}

/// Parses a quoted string at position `i`.
fn parse_string_at(s: &str, i: usize, len: usize) -> (r: Option<(String, usize)>)
    requires
        len == s@.len(),
        i <= len,
    ensures
        match r {
            Some(t) => spec_parse_string(s@, i as int) == Some((t.0@, t.1 as int)) && i < t.1
                <= len,
            None => spec_parse_string(s@, i as int) is None,
        },
{
    if i >= len || s.get_char(i) != '"' {
        return None;
    }
    let mut j: usize = i + 1;
    let mut out = String::new();
    proof {
        assert(out@ =~= Seq::<char>::empty());
    }
    loop
        invariant
            len == s@.len(),
            at_char(s@, i as int, '"'),
            i + 1 <= j <= len,
            scan_string(s@, i as int + 1) == (match scan_string(s@, j as int) {
                Some((t, k)) => Some((out@ + t, k)),
                None => None,
            }),
        decreases len - j,
    {
        if j >= len {
            return None;
        }
        let c = s.get_char(j);
        if c == '"' {
            proof {
                assert(scan_string(s@, j as int) == Some((Seq::<char>::empty(), j as int + 1)));
                assert(out@ + Seq::<char>::empty() =~= out@);
            }
            return Some((out, j + 1));
        }
        if c == '\\' {
            if j + 1 >= len {
                proof {
                    assert(scan_string(s@, j as int) is None);
                }
                return None;
            }
            let c2 = s.get_char(j + 1);
            if c2 == '"' || c2 == '\\' {
                let ghost prev = out@;
                push_char(&mut out, c2);
                proof {
                    if scan_string(s@, j as int + 2) is Some {
                        let tk = scan_string(s@, j as int + 2)->Some_0;
                        assert(prev + (seq![s@[j as int + 1]] + tk.0) =~= out@ + tk.0);
                    }
                }
                j = j + 2;
            } else {
                proof {
                    assert(scan_string(s@, j as int) is None);
                }
                return None;
            }
        } else {
            let ghost prev = out@;
            push_char(&mut out, c);
            proof {
                if scan_string(s@, j as int + 1) is Some {
                    let tk = scan_string(s@, j as int + 1)->Some_0;
                    assert(prev + (seq![s@[j as int]] + tk.0) =~= out@ + tk.0);
                }
            }
            j = j + 1;
        }
    }
}

/// The numeric value of a digit character.
fn digit_val(c: char) -> (d: u64)
    requires
        is_digit(c),
    ensures
        d == char_digit(c),
        d < 10,
{
    if c == '0' {
        0
    } else if c == '1' {
        1
    } else if c == '2' {
        2
    } else if c == '3' {
        3
    } else if c == '4' {
        4
    } else if c == '5' {
        5
    } else if c == '6' {
        6
    } else if c == '7' {
        7
    } else if c == '8' {
        8
    } else {
        9
    }
}

fn is_digit_exec(c: char) -> (r: bool)
    ensures
        r == is_digit(c),
{
    c == '0' || c == '1' || c == '2' || c == '3' || c == '4' || c == '5' || c == '6' || c == '7'
        || c == '8' || c == '9'
}

/// The end of the digit run starting at `i`.
fn run_end_at(s: &str, i: usize, len: usize) -> (e: usize)
    requires
        len == s@.len(),
        i <= len,
    ensures
        e == run_end(s@, i as int),
        i <= e <= len,
{
    let mut j: usize = i;
    while j < len && is_digit_exec(s.get_char(j))
        invariant
            len == s@.len(),
            i <= j <= len,
            run_end(s@, i as int) == run_end(s@, j as int),
        decreases len - j,
    {
        proof {
            assert(run_end(s@, j as int) == run_end(s@, j as int + 1));
        }
        j = j + 1;
    }
    proof {
        assert(run_end(s@, j as int) == j as int);
    }
    j
}

/// The value of the digit run `i..e`, which has at most nineteen digits.
fn digits_value(s: &str, i: usize, e: usize, len: usize) -> (v: u64)
    requires
        len == s@.len(),
        i <= e <= len,
        e - i <= 19,
        forall|k: int| i <= k < e ==> is_digit(s@[k]),
    ensures
        v == dec_value(s@.subrange(i as int, e as int)),
{
    let mut v: u64 = 0;
    let mut j: usize = i;
    proof {
        assert(s@.subrange(i as int, i as int) =~= Seq::<char>::empty());
        assert(pow10(0nat) == 1);
        crate::text::lemma_pow10_19();
    }
    while j < e
        invariant
            len == s@.len(),
            i <= j <= e <= len,
            e - i <= 19,
            forall|k: int| i <= k < e ==> is_digit(s@[k]),
            v == dec_value(s@.subrange(i as int, j as int)),
            v < pow10((j - i) as nat),
            pow10(19nat) == 10_000_000_000_000_000_000,
        decreases e - j,
    {
        proof {
            assert(j - i <= 18);
            crate::text::lemma_pow10_mono((j - i) as nat, 18nat);
            assert(pow10(19nat) == 10 * pow10(18nat));
        }
        let d = digit_val(s.get_char(j));
        proof {
            assert(v * 10 + d < pow10(19nat)) by (nonlinear_arith)
                requires
                    v < pow10(18nat),
                    d < 10,
                    pow10(19nat) == 10 * pow10(18nat),
            ;
        }
        v = v * 10 + d;
        proof {
            let pre = s@.subrange(i as int, j as int + 1);
            assert(pre.drop_last() =~= s@.subrange(i as int, j as int));
            assert(pre.last() == s@[j as int]);
            assert(v == dec_value(pre));
            crate::text::lemma_dec_value_bound(pre);
        }
        j = j + 1;
    }
    proof {
        assert(s@.subrange(i as int, j as int) =~= s@.subrange(i as int, e as int));
    }
    v
}

/// Parses an unsigned 32-bit number at position `i`.
fn parse_u32_at(s: &str, i: usize, len: usize) -> (r: Option<(u32, usize)>)
    requires
        len == s@.len(),
        i <= len,
    ensures
        match r {
            Some(t) => spec_parse_u32(s@, i as int) == Some((t.0, t.1 as int)) && i < t.1 <= len,
            None => spec_parse_u32(s@, i as int) is None,
        },
{
    let e = run_end_at(s, i, len);
    if e == i || e - i > 10 {
        return None;
    }
    proof {
        lemma_run_digits(s@, i as int);
    }
    let v = digits_value(s, i, e, len);
    if v > 0xFFFF_FFFFu64 {
        None
    } else {
        Some((v as u32, e))
    }
}

/// Parses a signed 64-bit number at position `i`.
fn parse_i64_at(s: &str, i: usize, len: usize) -> (r: Option<(i64, usize)>)
    requires
        len == s@.len(),
        i <= len,
    ensures
        match r {
            Some(t) => spec_parse_i64(s@, i as int) == Some((t.0, t.1 as int)) && i < t.1 <= len,
            None => spec_parse_i64(s@, i as int) is None,
        },
{
    if i < len && s.get_char(i) == '-' {
        let e = run_end_at(s, i + 1, len);
        if e == i + 1 || e - (i + 1) > 19 {
            return None;
        }
        proof {
            lemma_run_digits(s@, i as int + 1);
        }
        let v = digits_value(s, i + 1, e, len);
        if v > 0x8000_0000_0000_0000u64 {
            None
        } else {
            let m: i64 = if v == 0x8000_0000_0000_0000u64 {
                i64::MIN
            } else {
                -(v as i64)
            };
            Some((m, e))
        }
    } else {
        let e = run_end_at(s, i, len);
        if e == i || e - i > 19 {
            return None;
        }
        proof {
            lemma_run_digits(s@, i as int);
        }
        let v = digits_value(s, i, e, len);
        if v > 0x7FFF_FFFF_FFFF_FFFFu64 {
            None
        } else {
            Some((v as i64, e))
        }
    }
}

/// Every character of a digit run is a digit.
proof fn lemma_run_digits(s: Seq<char>, i: int)
    requires
        0 <= i <= s.len(),
    ensures
        forall|k: int| i <= k < run_end(s, i) ==> is_digit(s[k]),
        i <= run_end(s, i) <= s.len(),
    decreases s.len() - i,
{
    if i < s.len() && is_digit(s[i]) {
        lemma_run_digits(s, i + 1);
    }
}

/// Parses one song object at position `i`.
fn parse_song_at(s: &str, i: usize, len: usize) -> (r: Option<(Song, usize)>)
    requires
        len == s@.len(),
        i <= len,
    ensures
        match r {
            Some(t) => spec_parse_song(s@, i as int) == Some((t.0@, t.1 as int)) && i < t.1 <= len,
            None => spec_parse_song(s@, i as int) is None,
        },
{
    let p0 = match expect_lit(s, i, len, "{\"id\":") {
        Some(p) => p,
        None => {
            return None;
        },
    };
    let (id, a) = match parse_string_at(s, p0, len) {
        Some(t) => t,
        None => {
            return None;
        },
    };
    let p1 = match expect_lit(s, a, len, ",\"youtubeId\":") {
        Some(p) => p,
        None => {
            return None;
        },
    };
    let (yid, b) = match parse_string_at(s, p1, len) {
        Some(t) => t,
        None => {
            return None;
        },
    };
    let p2 = match expect_lit(s, b, len, ",\"title\":") {
        Some(p) => p,
        None => {
            return None;
        },
    };
    let (title, c) = match parse_string_at(s, p2, len) {
        Some(t) => t,
        None => {
            return None;
        },
    };
    let p3 = match expect_lit(s, c, len, ",\"artist\":") {
        Some(p) => p,
        None => {
            return None;
        },
    };
    let (artist, d) = match parse_string_at(s, p3, len) {
        Some(t) => t,
        None => {
            return None;
        },
    };
    let p4 = match expect_lit(s, d, len, ",\"duration\":") {
        Some(p) => p,
        None => {
            return None;
        },
    };
    let (dur, e) = match parse_u32_at(s, p4, len) {
        Some(t) => t,
        None => {
            return None;
        },
    };
    let p5 = match expect_lit(s, e, len, ",\"thumbnailUrl\":") {
        Some(p) => p,
        None => {
            return None;
        },
    };
    let (thumb, f) = match parse_string_at(s, p5, len) {
        Some(t) => t,
        None => {
            return None;
        },
    };
    let p6 = match expect_lit(s, f, len, ",\"addedBy\":") {
        Some(p) => p,
        None => {
            return None;
        },
    };
    let (by, g) = match parse_string_at(s, p6, len) {
        Some(t) => t,
        None => {
            return None;
        },
    };
    let p7 = match expect_lit(s, g, len, ",\"addedAt\":") {
        Some(p) => p,
        None => {
            return None;
        },
    };
    let (aat, h) = match parse_i64_at(s, p7, len) {
        Some(t) => t,
        None => {
            return None;
        },
    };
    if h < len && s.get_char(h) == '}' {
        let song = Song {
            id,
            youtube_id: yid,
            title,
            artist,
            duration: dur,
            thumbnail_url: thumb,
            added_by: by,
            added_at: aat,
        };
        Some((song, h + 1))
    } else {
        None
    }
}

/// Parses a non-empty song list; the fuel mirrors the specification's.
fn parse_song_list_at(s: &str, i: usize, len: usize, fuel: usize) -> (r: Option<
    (Vec<Song>, usize),
>)
    requires
        len == s@.len(),
        i <= len,
    ensures
        match r {
            Some(t) => spec_parse_song_list(s@, i as int, fuel as nat) == Some(
                (songs_view(t.0@), t.1 as int),
            ) && t.1 <= len,
            None => spec_parse_song_list(s@, i as int, fuel as nat) is None,
        },
    decreases fuel,
{
    if fuel == 0 {
        return None;
    }
    let (song, j) = match parse_song_at(s, i, len) {
        Some(t) => t,
        None => {
            return None;
        },
    };
    if j < len && s.get_char(j) == ',' {
        match parse_song_list_at(s, j + 1, len, fuel - 1) {
            Some((rest, k)) => {
                let mut songs = rest;
                songs.insert(0, song);
                proof {
                    let inner = spec_parse_song_list(s@, j as int + 1, (fuel - 1) as nat);
                    assert(songs_view(songs@) =~= seq![song@] + inner->Some_0.0);
                }
                Some((songs, k))
            },
            None => None,
        }
    } else if j < len && s.get_char(j) == ']' {
        let mut songs: Vec<Song> = Vec::new();
        songs.push(song);
        proof {
            assert(songs_view(songs@) =~= seq![song@]);
        }
        Some((songs, j + 1))
    } else {
        proof {
            assert(!at_char(s@, j as int, ',') && !at_char(s@, j as int, ']'));
        }
        None
    }
}

/// Parses the whole envelope; `None` unless the text is exactly one
/// well-formed envelope.
pub fn parse_envelope(s: &str) -> (r: Option<(String, CollectionVisibility, Vec<Song>)>)
    ensures
        match r {
            Some(t) => spec_parse_envelope(s@) == Some(
                EnvelopeData { name: t.0@, visibility: t.1, songs: songs_view(t.2@) },
            ),
            None => spec_parse_envelope(s@) is None,
        },
{
    let len = s.unicode_len();
    let p0 = match expect_lit(s, 0, len, "{\"formatTag\":\"1.0\",\"collection\":{\"name\":") {
        Some(p) => p,
        None => {
            return None;
        },
    };
    let (name, i1) = match parse_string_at(s, p0, len) {
        Some(t) => t,
        None => {
            return None;
        },
    };
    let p1 = match expect_lit(s, i1, len, ",\"visibility\":") {
        Some(p) => p,
        None => {
            return None;
        },
    };
    let (vtext, i2) = match parse_string_at(s, p1, len) {
        Some(t) => t,
        None => {
            return None;
        },
    };
    let vis: CollectionVisibility = if crate::text::str_equal(vtext.as_str(), "public") {
        CollectionVisibility::Public
    } else if crate::text::str_equal(vtext.as_str(), "personal") {
        CollectionVisibility::Personal
    } else {
        return None;
    };
    let p2 = match expect_lit(s, i2, len, ",\"songs\":[") {
        Some(p) => p,
        None => {
            return None;
        },
    };
    let (songs, i3): (Vec<Song>, usize) = if p2 < len && s.get_char(p2) == ']' {
        proof {
            assert(songs_view(Seq::<Song>::empty()) =~= Seq::<SongV>::empty());
        }
        (Vec::new(), p2 + 1)
    } else {
        match parse_song_list_at(s, p2, len, len) {
            Some(t) => t,
            None => {
                return None;
            },
        }
    };
    let p3 = match expect_lit(s, i3, len, "}}") {
        Some(p) => p,
        None => {
            return None;
        },
    };
    if p3 == len {
        Some((name, vis, songs))
    } else {
        None
    }
}

// ------------------------------------------------------------------
// Round trip: parsing an encoded envelope gives the data back
// ------------------------------------------------------------------
/// A text that starts with `a + b` starts with `a`, and with `b` after it.
proof fn lemma_split_prefix(s: Seq<char>, i: int, a: Seq<char>, b: Seq<char>)
    requires
        0 <= i,
        i + a.len() + b.len() <= s.len(),
        s.subrange(i, i + a.len() + b.len()) == a + b,
    ensures
        s.subrange(i, i + a.len() as int) == a,
        s.subrange(i + a.len() as int, i + a.len() + b.len()) == b,
{
    assert forall|k: int| 0 <= k < a.len() implies s.subrange(i, i + a.len() as int)[k]
        == a[k] by {
        assert(s.subrange(i, i + a.len() + b.len())[k] == (a + b)[k]);
    }
    assert(s.subrange(i, i + a.len() as int) =~= a);
    assert forall|k: int| 0 <= k < b.len() implies s.subrange(
        i + a.len() as int,
        i + a.len() + b.len(),
    )[k] == b[k] by {
        let m = a.len() + k;
        assert(s.subrange(i, i + a.len() + b.len())[m] == s[i + m]);
        assert((a + b)[m] == b[m - a.len()]);
        assert(s.subrange(i + a.len() as int, i + a.len() + b.len())[k] == s[i + a.len() + k]);
    }
    assert(s.subrange(i + a.len() as int, i + a.len() + b.len()) =~= b);
}

/// The character of `s` under a known piece of it.
proof fn lemma_index_of_piece(s: Seq<char>, i: int, t: Seq<char>, k: int)
    requires
        0 <= i,
        i + t.len() <= s.len(),
        s.subrange(i, i + t.len() as int) == t,
        0 <= k < t.len(),
    ensures
        s[i + k] == t[k],
{
    assert(s.subrange(i, i + t.len() as int)[k] == t[k]);
}

/// The escaped body decomposes at the front as it does at the back.
proof fn lemma_esc_first(s: Seq<char>)
    requires
        s.len() > 0,
    ensures
        esc_chars(s) == esc_char(s[0]) + esc_chars(s.drop_first()),
    decreases s.len(),
{
    if s.len() == 1 {
        assert(s.drop_last() =~= Seq::<char>::empty());
        assert(s.drop_first() =~= Seq::<char>::empty());
        assert(esc_chars(s) =~= esc_char(s[0]) + esc_chars(s.drop_first()));
    } else {
        lemma_esc_first(s.drop_last());
        assert(s.drop_last()[0] == s[0]);
        assert(s.drop_first().drop_last() =~= s.drop_last().drop_first());
        assert(s.drop_first().last() == s.last());
        assert(esc_chars(s) == esc_chars(s.drop_last()) + esc_char(s.last()));
        assert(esc_chars(s.drop_first()) == esc_chars(s.drop_first().drop_last()) + esc_char(
            s.drop_first().last(),
        ));
        assert(esc_chars(s) =~= esc_char(s[0]) + esc_chars(s.drop_first()));
    }
}

/// Scanning the escaped body of `x` followed by a closing quote gives `x`
/// back and stops after the quote.
proof fn lemma_scan_quoted(s: Seq<char>, i: int, x: Seq<char>)
    requires
        0 <= i,
        i + esc_chars(x).len() + 1 <= s.len(),
        s.subrange(i, i + esc_chars(x).len() + 1) == esc_chars(x) + seq!['"'],
    ensures
        scan_string(s, i) == Some((x, i + esc_chars(x).len() + 1)),
    decreases x.len(),
{
    if x.len() == 0 {
        assert(esc_chars(x).len() == 0);
        lemma_index_of_piece(s, i, esc_chars(x) + seq!['"'], 0);
        assert(s[i] == '"');
        assert(scan_string(s, i) == Some((Seq::<char>::empty(), i + 1)));
        assert(x =~= Seq::<char>::empty());
    } else {
        let c = x[0];
        let x1 = x.drop_first();
        lemma_esc_first(x);
        let restpart = esc_chars(x1) + seq!['"'];
        assert(esc_chars(x) + seq!['"'] =~= esc_char(c) + restpart);
        assert(s.subrange(i, i + esc_char(c).len() + restpart.len()) == esc_char(c) + restpart);
        lemma_split_prefix(s, i, esc_char(c), restpart);
        if c == '"' || c == '\\' {
            assert(esc_char(c) =~= seq!['\\', c]);
            lemma_index_of_piece(s, i, esc_char(c), 0);
            lemma_index_of_piece(s, i, esc_char(c), 1);
            assert(s[i] == '\\');
            assert(s[i + 1] == c);
            lemma_scan_quoted(s, i + 2, x1);
            assert(scan_string(s, i) == Some((seq![c] + x1, i + esc_chars(x).len() + 1)));
            assert(seq![c] + x1 =~= x);
        } else {
            assert(esc_char(c) =~= seq![c]);
            lemma_index_of_piece(s, i, esc_char(c), 0);
            assert(s[i] == c);
            lemma_scan_quoted(s, i + 1, x1);
            assert(scan_string(s, i) == Some((seq![c] + x1, i + esc_chars(x).len() + 1)));
            assert(seq![c] + x1 =~= x);
        }
    }
}

/// Parsing a quoted `x` gives `x` back and stops after the closing quote.
proof fn lemma_parse_string_quoted(s: Seq<char>, i: int, x: Seq<char>)
    requires
        0 <= i,
        i + quoted(x).len() <= s.len(),
        s.subrange(i, i + quoted(x).len()) == quoted(x),
    ensures
        spec_parse_string(s, i) == Some((x, i + quoted(x).len())),
{
    let body = esc_chars(x) + seq!['"'];
    assert(quoted(x) =~= seq!['"'] + body);
    assert(s.subrange(i, i + 1 + body.len()) == seq!['"'] + body);
    lemma_split_prefix(s, i, seq!['"'], body);
    lemma_index_of_piece(s, i, seq!['"'], 0);
    assert(s[i] == '"');
    lemma_scan_quoted(s, i + 1, x);
}

/// A run of digits followed by a non-digit (or the end) ends exactly where
/// the digits end.
proof fn lemma_run_end_of_digits(s: Seq<char>, i: int, d: Seq<char>)
    requires
        0 <= i,
        i + d.len() <= s.len(),
        s.subrange(i, i + d.len() as int) == d,
        forall|k: int| 0 <= k < d.len() ==> is_digit(d[k]),
        i + d.len() == s.len() || !is_digit(s[i + d.len()]),
    ensures
        run_end(s, i) == i + d.len(),
    decreases d.len(),
{
    if d.len() == 0 {
    } else {
        lemma_index_of_piece(s, i, d, 0);
        assert(s[i] == d[0]);
        assert forall|k: int| 0 <= k < d.len() - 1 implies s.subrange(i + 1, i + d.len() as int)[k]
            == d.drop_first()[k] by {
            assert(s.subrange(i, i + d.len() as int)[1 + k] == d[1 + k]);
        }
        assert(s.subrange(i + 1, i + d.len() as int) =~= d.drop_first());
        lemma_run_end_of_digits(s, i + 1, d.drop_first());
    }
}

/// Parsing the decimal rendering of a 32-bit number gives it back.
proof fn lemma_parse_u32_digits(s: Seq<char>, i: int, n: u32)
    requires
        0 <= i,
        i + dec_digits(n as nat).len() <= s.len(),
        s.subrange(i, i + dec_digits(n as nat).len()) == dec_digits(n as nat),
        i + dec_digits(n as nat).len() == s.len() || !is_digit(s[i + dec_digits(n as nat).len()]),
    ensures
        spec_parse_u32(s, i) == Some((n, i + dec_digits(n as nat).len())),
{
    let d = dec_digits(n as nat);
    crate::text::lemma_dec_digits_all_digits(n as nat);
    lemma_run_end_of_digits(s, i, d);
    crate::text::lemma_pow10_19();
    crate::text::lemma_dec_digits_len(n as nat, 10nat);
    crate::text::lemma_dec_value_of_digits(n as nat);
}

/// Parsing the decimal rendering of a signed 64-bit number gives it back.
proof fn lemma_parse_i64_digits(s: Seq<char>, i: int, n: i64)
    requires
        0 <= i,
        i + dec_signed(n as int).len() <= s.len(),
        s.subrange(i, i + dec_signed(n as int).len()) == dec_signed(n as int),
        i + dec_signed(n as int).len() == s.len() || !is_digit(s[i + dec_signed(n as int).len()]),
    ensures
        spec_parse_i64(s, i) == Some((n, i + dec_signed(n as int).len())),
{
    crate::text::lemma_pow10_19();
    if n >= 0 {
        let d = dec_digits(n as nat);
        crate::text::lemma_dec_digits_all_digits(n as nat);
        lemma_index_of_piece(s, i, d, 0);
        assert(!at_char(s, i, '-')) by {
            assert(s[i] == d[0]);
            assert(is_digit(d[0]));
        }
        lemma_run_end_of_digits(s, i, d);
        crate::text::lemma_dec_digits_len(n as nat, 19nat);
        crate::text::lemma_dec_value_of_digits(n as nat);
    } else {
        let m = (-(n as int)) as nat;
        let d = dec_digits(m);
        crate::text::lemma_dec_digits_all_digits(m);
        assert(dec_signed(n as int) == seq!['-'] + d);
        lemma_split_prefix(s, i, seq!['-'], d);
        lemma_index_of_piece(s, i, seq!['-'], 0);
        assert(s[i] == '-');
        lemma_run_end_of_digits(s, i + 1, d);
        assert(m <= 0x8000_0000_0000_0000u64);
        crate::text::lemma_dec_digits_len(m, 19nat);
        crate::text::lemma_dec_value_of_digits(m);
    }
}

/// Parsing an encoded song gives it back and stops right after it.
#[verifier::rlimit(100)]
proof fn lemma_parse_song_encoded(s: Seq<char>, i: int, sv: SongV)
    requires
        0 <= i,
        i + encode_song(sv).len() <= s.len(),
        s.subrange(i, i + encode_song(sv).len()) == encode_song(sv),
    ensures
        spec_parse_song(s, i) == Some((sv, i + encode_song(sv).len())),
{
    reveal_strlit("{\"id\":");
    reveal_strlit(",\"youtubeId\":");
    reveal_strlit(",\"title\":");
    reveal_strlit(",\"artist\":");
    reveal_strlit(",\"duration\":");
    reveal_strlit(",\"thumbnailUrl\":");
    reveal_strlit(",\"addedBy\":");
    reveal_strlit(",\"addedAt\":");
    reveal_strlit("}");
    let l1 = "{\"id\":"@;
    let q1 = quoted(sv.id);
    let l2 = ",\"youtubeId\":"@;
    let q2 = quoted(sv.youtube_id);
    let l3 = ",\"title\":"@;
    let q3 = quoted(sv.title);
    let l4 = ",\"artist\":"@;
    let q4 = quoted(sv.artist);
    let l5 = ",\"duration\":"@;
    let d5 = dec_digits(sv.duration as nat);
    let l6 = ",\"thumbnailUrl\":"@;
    let q6 = quoted(sv.thumbnail_url);
    let l7 = ",\"addedBy\":"@;
    let q7 = quoted(sv.added_by);
    let l8 = ",\"addedAt\":"@;
    let d8 = dec_signed(sv.added_at as int);
    let l9 = "}"@;
    let r16 = d8 + l9;
    let r15 = l8 + r16;
    let r14 = q7 + r15;
    let r13 = l7 + r14;
    let r12 = q6 + r13;
    let r11 = l6 + r12;
    let r10 = d5 + r11;
    let r9 = l5 + r10;
    let r8 = q4 + r9;
    let r7 = l4 + r8;
    let r6 = q3 + r7;
    let r5 = l3 + r6;
    let r4 = q2 + r5;
    let r3 = l2 + r4;
    let r2 = q1 + r3;
    let fin = i + encode_song(sv).len();
    assert(encode_song(sv) =~= l1 + r2);
    assert(s.subrange(i, i + l1.len() + r2.len()) == l1 + r2);
    lemma_split_prefix(s, i, l1, r2);
    let o2 = i + l1.len() as int;
    assert(s.subrange(o2, o2 + q1.len() + r3.len()) == q1 + r3);
    lemma_split_prefix(s, o2, q1, r3);
    lemma_parse_string_quoted(s, o2, sv.id);
    let o3 = o2 + q1.len() as int;
    assert(s.subrange(o3, o3 + l2.len() + r4.len()) == l2 + r4);
    lemma_split_prefix(s, o3, l2, r4);
    let o4 = o3 + l2.len() as int;
    assert(s.subrange(o4, o4 + q2.len() + r5.len()) == q2 + r5);
    lemma_split_prefix(s, o4, q2, r5);
    lemma_parse_string_quoted(s, o4, sv.youtube_id);
    let o5 = o4 + q2.len() as int;
    assert(s.subrange(o5, o5 + l3.len() + r6.len()) == l3 + r6);
    lemma_split_prefix(s, o5, l3, r6);
    let o6 = o5 + l3.len() as int;
    assert(s.subrange(o6, o6 + q3.len() + r7.len()) == q3 + r7);
    lemma_split_prefix(s, o6, q3, r7);
    lemma_parse_string_quoted(s, o6, sv.title);
    let o7 = o6 + q3.len() as int;
    assert(s.subrange(o7, o7 + l4.len() + r8.len()) == l4 + r8);
    lemma_split_prefix(s, o7, l4, r8);
    let o8 = o7 + l4.len() as int;
    assert(s.subrange(o8, o8 + q4.len() + r9.len()) == q4 + r9);
    lemma_split_prefix(s, o8, q4, r9);
    lemma_parse_string_quoted(s, o8, sv.artist);
    let o9 = o8 + q4.len() as int;
    assert(s.subrange(o9, o9 + l5.len() + r10.len()) == l5 + r10);
    lemma_split_prefix(s, o9, l5, r10);
    let o10 = o9 + l5.len() as int;
    assert(s.subrange(o10, o10 + d5.len() + r11.len()) == d5 + r11);
    lemma_split_prefix(s, o10, d5, r11);
    let o11 = o10 + d5.len() as int;
    lemma_index_of_piece(s, o11, r11, 0);
    assert(r11[0] == l6[0]);
    assert(s[o11] == l6[0]);
    assert(!is_digit(s[o11]));
    lemma_parse_u32_digits(s, o10, sv.duration);
    assert(s.subrange(o11, o11 + l6.len() + r12.len()) == l6 + r12);
    lemma_split_prefix(s, o11, l6, r12);
    let o12 = o11 + l6.len() as int;
    assert(s.subrange(o12, o12 + q6.len() + r13.len()) == q6 + r13);
    lemma_split_prefix(s, o12, q6, r13);
    lemma_parse_string_quoted(s, o12, sv.thumbnail_url);
    let o13 = o12 + q6.len() as int;
    assert(s.subrange(o13, o13 + l7.len() + r14.len()) == l7 + r14);
    lemma_split_prefix(s, o13, l7, r14);
    let o14 = o13 + l7.len() as int;
    assert(s.subrange(o14, o14 + q7.len() + r15.len()) == q7 + r15);
    lemma_split_prefix(s, o14, q7, r15);
    lemma_parse_string_quoted(s, o14, sv.added_by);
    let o15 = o14 + q7.len() as int;
    assert(s.subrange(o15, o15 + l8.len() + r16.len()) == l8 + r16);
    lemma_split_prefix(s, o15, l8, r16);
    let o16 = o15 + l8.len() as int;
    assert(s.subrange(o16, o16 + d8.len() + l9.len()) == d8 + l9);
    lemma_split_prefix(s, o16, d8, l9);
    let o17 = o16 + d8.len() as int;
    lemma_index_of_piece(s, o17, l9, 0);
    assert(s[o17] == '}');
    assert(!is_digit(s[o17]));
    lemma_parse_i64_digits(s, o16, sv.added_at);
    assert(at_char(s, o17, '}'));
    assert(o17 + 1 == fin);
    assert(spec_parse_song(s, i) == Some((sv, fin)));
}

proof fn lemma_encode_song_len(sv: SongV)
    ensures
        encode_song(sv).len() >= 1,
        encode_song(sv)[0] == '{',
{
    reveal_strlit("{\"id\":");
    assert(encode_song(sv)[0] == "{\"id\":"@[0]);
}

proof fn lemma_encode_songs_len(songs: Seq<SongV>)
    ensures
        encode_songs(songs).len() >= songs.len(),
    decreases songs.len(),
{
    if songs.len() == 1 {
        lemma_encode_song_len(songs[0]);
    } else if songs.len() > 1 {
        lemma_encode_song_len(songs[0]);
        lemma_encode_songs_len(songs.drop_first());
    }
}

/// Parsing an encoded non-empty song list, closed by `]`, gives the songs
/// back.
proof fn lemma_parse_song_list_encoded(s: Seq<char>, i: int, songs: Seq<SongV>, fuel: nat)
    requires
        0 <= i,
        songs.len() >= 1,
        fuel >= songs.len(),
        i + encode_songs(songs).len() + 1 <= s.len(),
        s.subrange(i, i + encode_songs(songs).len() + 1) == encode_songs(songs) + seq![']'],
    ensures
        spec_parse_song_list(s, i, fuel) == Some((songs, i + encode_songs(songs).len() + 1)),
    decreases songs.len(),
{
    let enc = encode_songs(songs);
    let e0 = encode_song(songs[0]);
    if songs.len() == 1 {
        assert(enc == e0);
        assert(s.subrange(i, i + e0.len() + 1) == e0 + seq![']']);
        lemma_split_prefix(s, i, e0, seq![']']);
        lemma_parse_song_encoded(s, i, songs[0]);
        let j = i + e0.len() as int;
        lemma_index_of_piece(s, j, seq![']'], 0);
        assert(s[j] == ']');
        assert(!at_char(s, j, ','));
        assert(at_char(s, j, ']'));
        assert(seq![songs[0]] =~= songs);
        assert(spec_parse_song_list(s, i, fuel) == Some((songs, j + 1)));
    } else {
        let df = songs.drop_first();
        assert(enc == e0 + seq![','] + encode_songs(df));
        let rest = seq![','] + (encode_songs(df) + seq![']']);
        assert(enc + seq![']'] =~= e0 + rest);
        assert(s.subrange(i, i + e0.len() + rest.len()) == e0 + rest);
        lemma_split_prefix(s, i, e0, rest);
        lemma_parse_song_encoded(s, i, songs[0]);
        let j = i + e0.len() as int;
        assert(s.subrange(j, j + 1 + (encode_songs(df) + seq![']']).len()) == seq![','] + (
        encode_songs(df) + seq![']']));
        lemma_split_prefix(s, j, seq![','], encode_songs(df) + seq![']']);
        lemma_index_of_piece(s, j, seq![','], 0);
        assert(s[j] == ',');
        assert(at_char(s, j, ','));
        lemma_parse_song_list_encoded(s, j + 1, df, (fuel - 1) as nat);
        assert(seq![songs[0]] + df =~= songs);
        assert(j + 1 + encode_songs(df).len() + 1 == i + enc.len() + 1);
        assert(spec_parse_song_list(s, i, fuel) == Some((songs, i + enc.len() + 1)));
    }
}

/// Parsing the songs region of an encoded envelope, which runs to the end
/// of the text, gives the songs back and leaves exactly the closing braces.
proof fn lemma_parse_songs_region(s: Seq<char>, i: int, songs: Seq<SongV>)
    requires
        0 <= i,
        i + encode_songs(songs).len() + "]}}"@.len() == s.len(),
        s.subrange(i, s.len() as int) == encode_songs(songs) + "]}}"@,
    ensures
        spec_parse_songs(s, i) == Some((songs, i + encode_songs(songs).len() + 1)),
        lit_at(s, i + encode_songs(songs).len() + 1, "}}"@),
        i + encode_songs(songs).len() + 1 + "}}"@.len() == s.len(),
{
    reveal_strlit("]}}");
    reveal_strlit("}}");
    let body = encode_songs(songs);
    let tail = "]}}"@;
    let tl = "}}"@;
    let fin = s.len() as int;
    assert(tail =~= seq![']'] + tl);
    if songs.len() == 0 {
        assert(body =~= Seq::<char>::empty());
        assert(body + tail =~= seq![']'] + tl);
        assert(s.subrange(i, i + 1 + tl.len()) == seq![']'] + tl);
        lemma_split_prefix(s, i, seq![']'], tl);
        lemma_index_of_piece(s, i, seq![']'], 0);
        assert(at_char(s, i, ']'));
        assert(spec_parse_songs(s, i) == Some((Seq::<SongV>::empty(), i + 1)));
        assert(songs =~= Seq::<SongV>::empty());
        assert(lit_at(s, i + 1, tl));
    } else {
        lemma_encode_song_len(songs[0]);
        lemma_encode_songs_len(songs);
        assert(body + tail =~= (body + seq![']']) + tl);
        assert(s.subrange(i, i + (body + seq![']']).len() + tl.len()) == (body + seq![']']) + tl);
        lemma_split_prefix(s, i, body + seq![']'], tl);
        lemma_index_of_piece(s, i, body + seq![']'], 0);
        assert((body + seq![']'])[0] == body[0]);
        assert(body[0] == encode_song(songs[0])[0]);
        assert(s[i] == '{');
        assert(!at_char(s, i, ']'));
        lemma_parse_song_list_encoded(s, i, songs, s.len() as nat);
        let o7 = i + body.len() + 1;
        assert(spec_parse_songs(s, i) == Some((songs, o7)));
        assert(lit_at(s, o7, tl));
    }
}

/// Import undoes export: parsing the encoded envelope of any collection
/// content gives exactly that name, visibility and song list back.
#[verifier::rlimit(100)]
pub proof fn lemma_envelope_round_trip(e: EnvelopeData)
    ensures
        spec_parse_envelope(encode_envelope(e)) == Some(
            EnvelopeData { name: e.name, visibility: e.visibility, songs: e.songs },
        ),
{
    reveal_strlit("{\"formatTag\":\"1.0\",\"collection\":{\"name\":");
    reveal_strlit(",\"visibility\":");
    reveal_strlit(",\"songs\":[");
    reveal_strlit("public");
    reveal_strlit("personal");
    let s = encode_envelope(e);
    let h1 = "{\"formatTag\":\"1.0\",\"collection\":{\"name\":"@;
    let q1 = quoted(e.name);
    let kv = ",\"visibility\":"@;
    let qv = quoted(vis_text(e.visibility));
    let ks = ",\"songs\":["@;
    let body = encode_songs(e.songs);
    let tail = "]}}"@;
    let r6 = body + tail;
    let r5 = ks + r6;
    let r4 = qv + r5;
    let r3 = kv + r4;
    let r2 = q1 + r3;
    let fin = s.len() as int;
    assert(s =~= h1 + r2);
    assert(s.subrange(0, fin) =~= s);
    assert(s.subrange(0, 0int + h1.len() + r2.len()) == h1 + r2);
    assert(s.subrange(0, 0int + h1.len() + r2.len()) =~= s.subrange(0, fin));
    lemma_split_prefix(s, 0int, h1, r2);
    let o2 = h1.len() as int;
    assert(s.subrange(o2, o2 + q1.len() + r3.len()) == q1 + r3);
    lemma_split_prefix(s, o2, q1, r3);
    lemma_parse_string_quoted(s, o2, e.name);
    let o3 = o2 + q1.len() as int;
    assert(s.subrange(o3, o3 + kv.len() + r4.len()) == kv + r4);
    lemma_split_prefix(s, o3, kv, r4);
    let o4 = o3 + kv.len() as int;
    assert(s.subrange(o4, o4 + qv.len() + r5.len()) == qv + r5);
    lemma_split_prefix(s, o4, qv, r5);
    lemma_parse_string_quoted(s, o4, vis_text(e.visibility));
    let o5 = o4 + qv.len() as int;
    assert(s.subrange(o5, o5 + ks.len() + r6.len()) == ks + r6);
    lemma_split_prefix(s, o5, ks, r6);
    let o6 = o5 + ks.len() as int;
    assert(s.subrange(o6, o6 + r6.len() as int) == r6);
    assert(vis_text(CollectionVisibility::Public) != vis_text(CollectionVisibility::Personal));
    assert(o6 + r6.len() == fin);
    assert(s.subrange(o6, fin) == encode_songs(e.songs) + "]}}"@);
    lemma_parse_songs_region(s, o6, e.songs);
    let o7 = o6 + body.len() + 1;
    assert(spec_parse_songs(s, o6) == Some((e.songs, o7)));
    assert(spec_parse_envelope(s) == Some(
        EnvelopeData { name: e.name, visibility: e.visibility, songs: e.songs },
    ));
}

} // verus!
