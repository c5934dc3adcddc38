//! Text utilities shared by the rest of the library: decimal rendering and
//! parsing of integers, duration formatting, substring search, identifier
//! extraction from video URLs, and the host URL shown as a QR code.

use vstd::prelude::*;
use vstd::string::StrSliceExecFns;
use vstd::string::StringExecFns;

use crate::ext::push_char;

verus! {

// ------------------------------------------------------------------
// Decimal digits
// ------------------------------------------------------------------
/// The decimal digit character for a value in `[0, 9]`.
pub open spec fn digit_char(d: int) -> char {
    if d == 0 {
        '0'
    } else if d == 1 {
        '1'
    } else if d == 2 {
        '2'
    } else if d == 3 {
        '3'
    } else if d == 4 {
        '4'
    } else if d == 5 {
        '5'
    } else if d == 6 {
        '6'
    } else if d == 7 {
        '7'
    } else if d == 8 {
        '8'
    } else {
        '9'
    }
}

pub open spec fn is_digit(c: char) -> bool {
    c == '0' || c == '1' || c == '2' || c == '3' || c == '4' || c == '5' || c == '6' || c == '7'
        || c == '8' || c == '9'
}

/// The numeric value of a digit character; `0` for anything else.
pub open spec fn char_digit(c: char) -> int {
    if c == '0' {
        0
    } else if c == '1' {
        1
    } else if c == '2' {
        2
    } else if c == '3' {
        3
    } else if c == '4' {
        4
    } else if c == '5' {
        5
    } else if c == '6' {
        6
    } else if c == '7' {
        7
    } else if c == '8' {
        8
    } else if c == '9' {
        9
    } else {
        0
    }
}

/// The usual decimal rendering of a natural number, without leading zeros.
pub open spec fn dec_digits(n: nat) -> Seq<char>
    decreases n,
{
    if n < 10 {
        seq![digit_char(n as int)]
    } else {
        dec_digits(n / 10) + seq![digit_char((n % 10) as int)]
    }
}

/// The decimal rendering of a signed number: a minus sign before the
/// rendering of the magnitude when the number is negative.
pub open spec fn dec_signed(n: int) -> Seq<char> {
    if n >= 0 {
        dec_digits(n as nat)
    } else {
        seq!['-'] + dec_digits((-n) as nat)
    }
}

/// The value of a sequence of decimal digits, most significant first.
pub open spec fn dec_value(s: Seq<char>) -> nat
    decreases s.len(),
{
    if s.len() == 0 {
        0
    } else {
        dec_value(s.drop_last()) * 10 + char_digit(s.last()) as nat
    }
}

pub open spec fn pow10(k: nat) -> nat
    decreases k,
{
    if k == 0 {
        1nat
    } else {
        10 * pow10((k - 1) as nat)
    }
}

pub open spec fn all_digits(s: Seq<char>) -> bool {
    forall|i: int| 0 <= i < s.len() ==> is_digit(s[i])
}

pub proof fn lemma_char_digit_of_digit(d: int)
    requires
        0 <= d < 10,
    ensures
        char_digit(digit_char(d)) == d,
        is_digit(digit_char(d)),
{
}

pub proof fn lemma_dec_digits_all_digits(n: nat)
    ensures
        all_digits(dec_digits(n)),
        dec_digits(n).len() >= 1,
    decreases n,
{
    if n < 10 {
        lemma_char_digit_of_digit(n as int);
    } else {
        lemma_dec_digits_all_digits(n / 10);
        lemma_char_digit_of_digit((n % 10) as int);
        assert forall|i: int| 0 <= i < dec_digits(n).len() implies is_digit(dec_digits(n)[i]) by {
            if i < dec_digits(n / 10).len() {
                assert(dec_digits(n)[i] == dec_digits(n / 10)[i]);
            }
        }
    }
}

/// Rendering and value are inverse: reading the digits of `n` back gives `n`.
pub proof fn lemma_dec_value_of_digits(n: nat)
    ensures
        dec_value(dec_digits(n)) == n,
    decreases n,
{
    if n < 10 {
        lemma_char_digit_of_digit(n as int);
        assert(dec_digits(n).drop_last() =~= Seq::<char>::empty());
        assert(dec_digits(n).last() == digit_char(n as int));
        assert(dec_value(dec_digits(n)) == dec_value(dec_digits(n).drop_last()) * 10 + char_digit(
            dec_digits(n).last(),
        ) as nat);
    } else {
        lemma_dec_value_of_digits(n / 10);
        lemma_char_digit_of_digit((n % 10) as int);
        lemma_dec_digits_all_digits(n / 10);
        assert(dec_digits(n).drop_last() =~= dec_digits(n / 10));
        assert(dec_digits(n).last() == digit_char((n % 10) as int));
        assert(dec_value(dec_digits(n)) == dec_value(dec_digits(n).drop_last()) * 10 + char_digit(
            dec_digits(n).last(),
        ) as nat);
        assert((n / 10) * 10 + (n % 10) == n);
    }
}

pub proof fn lemma_dec_value_bound(s: Seq<char>)
    ensures
        dec_value(s) < pow10(s.len()),
    decreases s.len(),
{
    if s.len() > 0 {
        lemma_dec_value_bound(s.drop_last());
        assert(char_digit(s.last()) <= 9);
        assert(dec_value(s.drop_last()) * 10 + 9 < pow10(s.len())) by {
            assert(dec_value(s.drop_last()) <= pow10(s.drop_last().len()) - 1);
            assert(pow10(s.len()) == 10 * pow10(s.drop_last().len()));
            assert((pow10(s.drop_last().len()) - 1) * 10 + 9 < 10 * pow10(
                s.drop_last().len(),
            )) by (nonlinear_arith);
            assert(dec_value(s.drop_last()) * 10 <= (pow10(s.drop_last().len()) - 1)
                * 10) by (nonlinear_arith)
                requires
                    dec_value(s.drop_last()) <= pow10(s.drop_last().len()) - 1,
            ;
        }
    }
}

pub proof fn lemma_pow10_mono(a: nat, b: nat)
    requires
        a <= b,
    ensures
        pow10(a) <= pow10(b),
    decreases b,
{
    if a < b {
        lemma_pow10_mono(a, (b - 1) as nat);
        assert(pow10(b) == 10 * pow10((b - 1) as nat));
    }
}

pub proof fn lemma_pow10_19()
    ensures
        pow10(10nat) == 10_000_000_000,
        pow10(19nat) == 10_000_000_000_000_000_000,
{
    assert(pow10(0nat) == 1);
    assert(pow10(1nat) == 10);
    assert(pow10(2nat) == 100);
    assert(pow10(3nat) == 1000);
    assert(pow10(4nat) == 10000);
    assert(pow10(5nat) == 100000);
    assert(pow10(6nat) == 1000000);
    assert(pow10(7nat) == 10000000);
    assert(pow10(8nat) == 100000000);
    assert(pow10(9nat) == 1000000000);
    assert(pow10(10nat) == 10000000000);
    assert(pow10(11nat) == 100000000000);
    assert(pow10(12nat) == 1000000000000);
    assert(pow10(13nat) == 10000000000000);
    assert(pow10(14nat) == 100000000000000);
    assert(pow10(15nat) == 1000000000000000);
    assert(pow10(16nat) == 10000000000000000);
    assert(pow10(17nat) == 100000000000000000);
    assert(pow10(18nat) == 1000000000000000000);
    assert(pow10(19nat) == 10000000000000000000);
}

/// Two numbers with the same decimal rendering are equal.
pub proof fn lemma_dec_digits_injective(a: nat, b: nat)
    requires
        dec_digits(a) == dec_digits(b),
    ensures
        a == b,
{
    lemma_dec_value_of_digits(a);
    lemma_dec_value_of_digits(b);
}

/// A number below `pow10(k)` needs at most `k` digits.
pub proof fn lemma_dec_digits_len(n: nat, k: nat)
    requires
        k >= 1,
        n < pow10(k),
    ensures
        dec_digits(n).len() <= k,
    decreases k,
{
    if n < 10 {
    } else {
        assert(pow10(0nat) == 1);
        assert(k >= 2) by {
            if k == 1 {
                assert(pow10(1nat) == 10 * pow10(0nat));
            }
        }
        assert(pow10(k) == 10 * pow10((k - 1) as nat));
        assert(n / 10 < pow10((k - 1) as nat)) by (nonlinear_arith)
            requires
                n < 10 * pow10((k - 1) as nat),
        ;
        lemma_dec_digits_len(n / 10, (k - 1) as nat);
    }
}

// ------------------------------------------------------------------
// Decimal rendering, executable
// ------------------------------------------------------------------
/// The decimal digit character for `d`.
pub fn digit_of(d: u64) -> (c: char)
    requires
        d < 10,
    ensures
        c == digit_char(d as int),
{
    if d == 0 {
        '0'
    } else if d == 1 {
        '1'
    } else if d == 2 {
        '2'
    } else if d == 3 {
        '3'
    } else if d == 4 {
        '4'
    } else if d == 5 {
        '5'
    } else if d == 6 {
        '6'
    } else if d == 7 {
        '7'
    } else if d == 8 {
        '8'
    } else {
        '9'
    }
}

/// Renders a number in decimal, without leading zeros.
pub fn u64_to_string(n: u64) -> (r: String)
    ensures
        r@ == dec_digits(n as nat),
    decreases n,
{
    if n < 10 {
        let mut s = String::new();
        push_char(&mut s, digit_of(n));
        proof {
            assert(s@ =~= dec_digits(n as nat));
        }
        s
    } else {
        let mut s = u64_to_string(n / 10);
        push_char(&mut s, digit_of(n % 10));
        proof {
            assert(s@ =~= dec_digits(n as nat));
        }
        s
    }
}

/// Renders a signed number in decimal.
pub fn i64_to_string(n: i64) -> (r: String)
    ensures
        r@ == dec_signed(n as int),
{
    if n >= 0 {
        u64_to_string(n as u64)
    } else {
        let m: u64 = ((-(n + 1)) as u64) + 1;
        proof {
            assert(m == -(n as int));
        }
        let mut s = String::new();
        push_char(&mut s, '-');
        let digits = u64_to_string(m);
        s.append(digits.as_str());
        proof {
            assert(s@ =~= dec_signed(n as int));
        }
        s
    }
}

// ------------------------------------------------------------------
// Duration formatting
// ------------------------------------------------------------------
/// A minutes or seconds field padded to two digits.
pub open spec fn pad2(n: nat) -> Seq<char> {
    if n < 10 {
        seq!['0'] + dec_digits(n)
    } else {
        dec_digits(n)
    }
}

/// `M:SS` below one hour, `H:MM:SS` from one hour up.
pub open spec fn spec_format_duration(seconds: nat) -> Seq<char> {
    let h = seconds / 3600;
    let m = (seconds % 3600) / 60;
    let s = seconds % 60;
    if h > 0 {
        dec_digits(h) + seq![':'] + pad2(m) + seq![':'] + pad2(s)
    } else {
        dec_digits(m) + seq![':'] + pad2(s)
    }
}

fn push_pad2(out: &mut String, n: u64)
    requires
        n < 60,
    ensures
        final(out)@ == old(out)@ + pad2(n as nat),
{
    if n < 10 {
        push_char(out, '0');
    }
    let digits = u64_to_string(n);
    out.append(digits.as_str());
    proof {
        assert(out@ =~= old(out)@ + pad2(n as nat));
    }
}

/// Formats a number of seconds as `M:SS`, or `H:MM:SS` once it reaches an
/// hour, for display beside a search result or a queue entry.
pub fn format_duration(seconds: u64) -> (r: String)
    ensures
        r@ == spec_format_duration(seconds as nat),
{
    let hours = seconds / 3600;
    let minutes = (seconds % 3600) / 60;
    let secs = seconds % 60;
    let mut out = String::new();
    if hours > 0 {
        let h = u64_to_string(hours);
        out.append(h.as_str());
        push_char(&mut out, ':');
        push_pad2(&mut out, minutes);
        push_char(&mut out, ':');
        push_pad2(&mut out, secs);
    } else {
        let m = u64_to_string(minutes);
        out.append(m.as_str());
        push_char(&mut out, ':');
        push_pad2(&mut out, secs);
    }
    proof {
        assert(out@ =~= spec_format_duration(seconds as nat));
    }
    out
}

// ------------------------------------------------------------------
// String comparison, copying, filtering
// ------------------------------------------------------------------
/// Character-wise string equality, stated over the views.
pub fn str_equal(a: &str, b: &str) -> (r: bool)
    ensures
        r == (a@ == b@),
{
    let alen = a.unicode_len();
    let blen = b.unicode_len();
    if alen != blen {
        proof {
            assert(a@ != b@);
        }
        return false;
    }
    let mut i: usize = 0;
    while i < alen
        invariant
            alen == a@.len(),
            alen == b@.len(),
            0 <= i <= alen,
            forall|j: int| 0 <= j < i ==> a@[j] == b@[j],
        decreases alen - i,
    {
        if a.get_char(i) != b.get_char(i) {
            proof {
                assert(a@[i as int] != b@[i as int]);
            }
            return false;
        }
        i = i + 1;
    }
    proof {
        assert(a@ =~= b@);
    }
    true
}

/// Copies the characters `from..to` of `s` into a fresh string.
pub fn substring_copy(s: &str, from: usize, to: usize) -> (r: String)
    requires
        from <= to <= s@.len(),
    ensures
        r@ == s@.subrange(from as int, to as int),
{
    let mut out = String::new();
    proof {
        assert(out@ =~= s@.subrange(from as int, from as int));
    }
    let mut i: usize = from;
    while i < to
        invariant
            from <= i <= to <= s@.len(),
            out@ == s@.subrange(from as int, i as int),
        decreases to - i,
    {
        let c = s.get_char(i);
        push_char(&mut out, c);
        proof {
            assert(out@ =~= s@.subrange(from as int, i as int + 1));
        }
        i = i + 1;
    }
    out
}

/// The sequence with every `-` removed.
pub open spec fn strip_hyphens(s: Seq<char>) -> Seq<char>
    decreases s.len(),
{
    if s.len() == 0 {
        Seq::<char>::empty()
    } else {
        strip_hyphens(s.drop_last()) + (if s.last() == '-' {
            Seq::<char>::empty()
        } else {
            seq![s.last()]
        })
    }
}

pub proof fn lemma_strip_hyphens_free(s: Seq<char>)
    ensures
        forall|i: int| 0 <= i < strip_hyphens(s).len() ==> strip_hyphens(s)[i] != '-',
    decreases s.len(),
{
    if s.len() > 0 {
        lemma_strip_hyphens_free(s.drop_last());
        assert forall|i: int| 0 <= i < strip_hyphens(s).len() implies strip_hyphens(s)[i]
            != '-' by {
            if i < strip_hyphens(s.drop_last()).len() {
                assert(strip_hyphens(s)[i] == strip_hyphens(s.drop_last())[i]);
            } else {
                assert(strip_hyphens(s)[i] == s.last());
            }
        }
    }
}

/// Removes every `-` from a string.
pub fn remove_hyphens(s: &str) -> (r: String)
    ensures
        r@ == strip_hyphens(s@),
{
    let len = s.unicode_len();
    let mut out = String::new();
    proof {
        assert(out@ =~= strip_hyphens(s@.subrange(0, 0)));
    }
    let mut i: usize = 0;
    while i < len
        invariant
            len == s@.len(),
            0 <= i <= len,
            out@ == strip_hyphens(s@.subrange(0, i as int)),
        decreases len - i,
    {
        let c = s.get_char(i);
        if c != '-' {
            push_char(&mut out, c);
        }
        proof {
            let pre = s@.subrange(0, i as int + 1);
            assert(pre.drop_last() =~= s@.subrange(0, i as int));
            assert(pre.last() == s@[i as int]);
            assert(out@ =~= strip_hyphens(pre));
        }
        i = i + 1;
    }
    proof {
        assert(s@.subrange(0, s@.len() as int) =~= s@);
    }
    out
}

// ------------------------------------------------------------------
// Substring search
// ------------------------------------------------------------------
/// The first position at or after `i` where `pat` occurs in `s`.
pub open spec fn find_sub_from(s: Seq<char>, pat: Seq<char>, i: int) -> Option<int>
    decreases s.len() - i,
    when 0 <= i <= s.len()
{
    if pat.len() == 0 {
        Some(i)
    } else if i + pat.len() > s.len() {
        None
    } else if s.subrange(i, i + pat.len() as int) == pat {
        Some(i)
    } else {
        find_sub_from(s, pat, i + 1)
    }
}

pub open spec fn find_sub(s: Seq<char>, pat: Seq<char>) -> Option<int> {
    find_sub_from(s, pat, 0)
}

/// A found occurrence lies at or after the start of the search and fits
/// inside the searched text.
pub proof fn lemma_find_sub_props(s: Seq<char>, pat: Seq<char>, i: int)
    requires
        0 <= i <= s.len(),
    ensures
        match find_sub_from(s, pat, i) {
            Some(p) => i <= p && p + pat.len() <= s.len() && s.subrange(p, p + pat.len() as int)
                == pat,
            None => true,
        },
    decreases s.len() - i,
{
    if pat.len() == 0 {
        assert(s.subrange(i, i) =~= pat);
    } else if i + pat.len() > s.len() {
    } else if s.subrange(i, i + pat.len() as int) == pat {
    } else {
        lemma_find_sub_props(s, pat, i + 1);
    }
}

/// Does `pat` occur starting at `i`?
pub(crate) fn match_at(s: &str, i: usize, pat: &str, plen: usize) -> (r: bool)
    requires
        plen == pat@.len(),
        i + plen <= s@.len(),
        s@.len() <= usize::MAX,
    ensures
        r == (s@.subrange(i as int, i as int + plen as int) == pat@),
{
    let mut j: usize = 0;
    while j < plen
        invariant
            plen == pat@.len(),
            i + plen <= s@.len(),
            s@.len() <= usize::MAX,
            0 <= j <= plen,
            forall|k: int| 0 <= k < j ==> s@[i + k] == pat@[k],
        decreases plen - j,
    {
        if s.get_char(i + j) != pat.get_char(j) {
            proof {
                assert(s@.subrange(i as int, i as int + plen as int)[j as int] != pat@[j as int]);
            }
            return false;
        }
        j = j + 1;
    }
    proof {
        assert(s@.subrange(i as int, i as int + plen as int) =~= pat@);
    }
    true
}

/// The first occurrence of `pat` in `s` at or after `from`.
pub fn find_sub_at(s: &str, pat: &str, from: usize, len: usize) -> (r: Option<usize>)
    requires
        len == s@.len(),
        from <= len,
    ensures
        match r {
            Some(p) => find_sub_from(s@, pat@, from as int) == Some(p as int),
            None => find_sub_from(s@, pat@, from as int) is None,
        },
{
    let plen = pat.unicode_len();
    let mut i: usize = from;
    loop
        invariant
            len == s@.len(),
            plen == pat@.len(),
            from <= i <= len,
            find_sub_from(s@, pat@, from as int) == find_sub_from(s@, pat@, i as int),
        decreases len - i,
    {
        if plen > len - i {
            proof {
                assert(find_sub_from(s@, pat@, i as int) is None);
            }
            return None;
        }
        if match_at(s, i, pat, plen) {
            proof {
                assert(find_sub_from(s@, pat@, i as int) == Some(i as int));
            }
            return Some(i);
        }
        proof {
            assert(plen > 0) by {
                if plen == 0 {
                    assert(s@.subrange(i as int, i as int) =~= pat@);
                }
            }
            assert(find_sub_from(s@, pat@, i as int) == find_sub_from(s@, pat@, i as int + 1));
        }
        i = i + 1;
    }
}

// ------------------------------------------------------------------
// Video id extraction
// ------------------------------------------------------------------
/// The video id contained in a URL: the text after `v=` up to the next `&`,
/// or after `youtu.be/` up to the next `?`, or the input itself when it is
/// exactly eleven characters long (a bare id).
pub open spec fn spec_extract_youtube_id(url: Seq<char>) -> Option<Seq<char>> {
    match find_sub(url, seq!['v', '=']) {
        Some(p) => {
            let start = p + 2;
            let end = match find_sub_from(url, seq!['&'], start) {
                Some(q) => q,
                None => url.len() as int,
            };
            Some(url.subrange(start, end))
        },
        None => {
            match find_sub(url, seq!['y', 'o', 'u', 't', 'u', '.', 'b', 'e', '/']) {
                Some(p) => {
                    let start = p + 9;
                    let end = match find_sub_from(url, seq!['?'], start) {
                        Some(q) => q,
                        None => url.len() as int,
                    };
                    Some(url.subrange(start, end))
                },
                None => {
                    if url.len() == 11 {
                        Some(url)
                    } else {
                        None
                    }
                },
            }
        },
    }
}

/// Extracts the video id from a URL in any of the supported shapes.
pub fn extract_youtube_id(url: &str) -> (r: Option<String>)
    ensures
        match r {
            Some(id) => spec_extract_youtube_id(url@) == Some(id@),
            None => spec_extract_youtube_id(url@) is None,
        },
{
    let len = url.unicode_len();
    proof {
        reveal_strlit("v=");
        reveal_strlit("&");
        reveal_strlit("youtu.be/");
        reveal_strlit("?");
        assert("v="@ =~= seq!['v', '=']);
        assert("&"@ =~= seq!['&']);
        assert("youtu.be/"@ =~= seq!['y', 'o', 'u', 't', 'u', '.', 'b', 'e', '/']);
        assert("?"@ =~= seq!['?']);
    }
    match find_sub_at(url, "v=", 0, len) {
        Some(p) => {
            proof {
                lemma_find_sub_props(url@, "v="@, 0);
            }
            let start = p + 2;
            let end = match find_sub_at(url, "&", start, len) {
                Some(q) => q,
                None => len,
            };
            proof {
                lemma_find_sub_props(url@, "&"@, start as int);
            }
            Some(substring_copy(url, start, end))
        },
        None => {
            match find_sub_at(url, "youtu.be/", 0, len) {
                Some(p) => {
                    proof {
                        lemma_find_sub_props(url@, "youtu.be/"@, 0);
                    }
                    let start = p + 9;
                    let end = match find_sub_at(url, "?", start, len) {
                        Some(q) => q,
                        None => len,
                    };
                    proof {
                        lemma_find_sub_props(url@, "?"@, start as int);
                    }
                    Some(substring_copy(url, start, end))
                },
                None => {
                    if len == 11 {
                        Some(substring_copy(url, 0, len))
                    } else {
                        None
                    }
                },
            }
        },
    }
}

// ------------------------------------------------------------------
// Host URL
// ------------------------------------------------------------------
/// The URL remote controllers open: `http://<ip>:<port>`.
pub open spec fn spec_host_url(ip: Seq<char>, port: nat) -> Seq<char> {
    seq!['h', 't', 't', 'p', ':', '/', '/'] + ip + seq![':'] + dec_digits(port)
}

/// Builds the URL that remote controllers open, from the host's local IP
/// address and the bound server port.
pub fn generate_qr_url(ip: &str, port: u16) -> (r: String)
    ensures
        r@ == spec_host_url(ip@, port as nat),
{
    let mut out = String::from_str("http://");
    proof {
        reveal_strlit("http://");
        assert("http://"@ =~= seq!['h', 't', 't', 'p', ':', '/', '/']);
    }
    out.append(ip);
    push_char(&mut out, ':');
    let digits = u64_to_string(port as u64);
    out.append(digits.as_str());
    proof {
        assert(out@ =~= spec_host_url(ip@, port as nat));
    }
    out
}

} // verus!
