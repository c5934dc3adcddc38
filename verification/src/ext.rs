//! Wrappers around the outside crates that the library leans on: the wall
//! clock, the random identifier generator, the SHA-256 digest and the hex
//! encoder. Each wrapper's contract states only what the outside crate's
//! documentation promises; everything built on top of them is verified.

use sha2::Digest;
use vstd::prelude::*;

verus! {

/// What SHA-256 returns for a given character sequence: the 32 bytes of the
/// digest of the sequence's UTF-8 encoding. The digest is a function of the
/// hashed text alone, so it can be given a name even though its definition
/// is out of reach.
pub uninterp spec fn sha256_of(s: Seq<char>) -> Seq<u8>;

/// Relies on sha2::Sha256 through digest::Digest::digest: the SHA-256 digest
/// of the UTF-8 bytes of `s`. SHA-256 always produces exactly 32 bytes, and
/// the digest depends on the input text alone.
#[verifier::external_body]
pub(crate) fn sha256(s: &str) -> (r: Vec<u8>)
    ensures
        r@ == sha256_of(s@),
        r@.len() == 32,
{
    sha2::Sha256::digest(s.as_bytes()).to_vec()
}

/// The lowercase hexadecimal character for a value in `[0, 15]`.
pub open spec fn hex_digit(d: int) -> char {
    if d == 0 {
        '0'
    } else if d == 1 {
        '1'
    } else if d == 2 {
        '2'
    } else if d == 3 {
        '3'
    } else if d == 4 {
        '4'
    } else if d == 5 {
        '5'
    } else if d == 6 {
        '6'
    } else if d == 7 {
        '7'
    } else if d == 8 {
        '8'
    } else if d == 9 {
        '9'
    } else if d == 10 {
        'a'
    } else if d == 11 {
        'b'
    } else if d == 12 {
        'c'
    } else if d == 13 {
        'd'
    } else if d == 14 {
        'e'
    } else {
        'f'
    }
}

/// Lowercase hexadecimal encoding: two digits per byte, in byte order.
pub open spec fn hex_of(bytes: Seq<u8>) -> Seq<char>
    decreases bytes.len(),
{
    if bytes.len() == 0 {
        Seq::<char>::empty()
    } else {
        seq![hex_digit(bytes[0] as int / 16), hex_digit(bytes[0] as int % 16)] + hex_of(
            bytes.drop_first(),
        )
    }
}

/// Is `c` one of the sixteen lowercase hexadecimal digits?
pub open spec fn is_hex_char(c: char) -> bool {
    exists|d: int| 0 <= d < 16 && c == hex_digit(d)
}

pub proof fn lemma_hex_of_chars(bytes: Seq<u8>)
    ensures
        forall|i: int| 0 <= i < hex_of(bytes).len() ==> is_hex_char(hex_of(bytes)[i]),
    decreases bytes.len(),
{
    if bytes.len() > 0 {
        lemma_hex_of_chars(bytes.drop_first());
        assert forall|i: int| 0 <= i < hex_of(bytes).len() implies is_hex_char(
            hex_of(bytes)[i],
        ) by {
            if i == 0 {
                assert(hex_of(bytes)[0] == hex_digit(bytes[0] as int / 16));
            } else if i == 1 {
                assert(hex_of(bytes)[1] == hex_digit(bytes[0] as int % 16));
            } else {
                assert(hex_of(bytes)[i] == hex_of(bytes.drop_first())[i - 2]);
            }
        }
    }
}

pub proof fn lemma_hex_of_len(bytes: Seq<u8>)
    ensures
        hex_of(bytes).len() == 2 * bytes.len(),
    decreases bytes.len(),
{
    if bytes.len() > 0 {
        lemma_hex_of_len(bytes.drop_first());
    }
}

/// Relies on hex::encode, whose documentation promises a lowercase string in
/// which each input byte is encoded as exactly two hex digits, in order.
#[verifier::external_body]
pub(crate) fn hex_encode(bytes: &[u8]) -> (r: String)
    ensures
        r@ == hex_of(bytes@),
{
    hex::encode(bytes)
}

/// Relies on chrono::Utc::now and DateTime::timestamp_millis: the current
/// wall-clock time in milliseconds since the Unix epoch. Nothing is assumed
/// of the value; the wall clock can move arbitrarily between two calls.
#[verifier::external_body]
pub(crate) fn now_millis() -> i64 {
    chrono::Utc::now().timestamp_millis()
}

/// Relies on uuid::Uuid::new_v4 and its Display form: a freshly generated
/// random version-4 UUID in the hyphenated textual form. The value is
/// random, so nothing is assumed of it.
#[verifier::external_body]
pub(crate) fn mint_id() -> String {
    uuid::Uuid::new_v4().to_string()
}

/// Relies on String::push: appends exactly the given character at the end.
#[verifier::external_body]
pub(crate) fn push_char(s: &mut String, c: char)
    ensures
        final(s)@ == old(s)@.push(c),
{
    s.push(c);
}

} // verus!
