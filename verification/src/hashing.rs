//! The content digest that binds manifesto text, proposal text and verdict
//! payloads together: the lower-case hex form of the text's SHA-256 digest.

use vstd::prelude::*;
use sha2::Digest;

verus! {

/// Hex character for a nibble value, lower case.
pub open spec fn hex_digit_char(n: u8) -> char
    recommends
        n < 16,
{
    if n < 10 {
        ((n + 48) as char)
    } else {
        ((n + 87) as char)
    }
}

/// The lower-case hex encoding of a byte sequence, two digits per byte.
pub open spec fn hex_of(b: Seq<u8>) -> Seq<char> {
    Seq::new(
        b.len() * 2,
        |i: int|
            if i % 2 == 0 {
                hex_digit_char(b[i / 2] / 16)
            } else {
                hex_digit_char(b[i / 2] % 16)
            },
    )
}

/// Whether a character is a hex digit, in either case.
pub open spec fn is_hex_digit(c: char) -> bool {
    let u = c as u32;
    (48 <= u && u <= 57) || (97 <= u && u <= 102) || (65 <= u && u <= 70)
}

/// The nibble a hex digit denotes (meaningful only on hex digits).
pub open spec fn hex_val(c: char) -> u8 {
    let u = c as u32;
    if 48 <= u && u <= 57 {
        ((u - 48) as u8)
    } else if 97 <= u && u <= 102 {
        ((u - 87) as u8)
    } else {
        ((u - 55) as u8)
    }
}

/// The bytes a hex string denotes (meaningful on even-length valid hex).
pub open spec fn hex_decoded(s: Seq<char>) -> Seq<u8> {
    Seq::new(s.len() / 2, |i: int| ((hex_val(s[2 * i]) * 16 + hex_val(s[2 * i + 1])) as u8))
}

/// The SHA-256 digest of a text's UTF-8 bytes: a function of the text alone.
pub uninterp spec fn sha256_of(s: Seq<char>) -> Seq<u8>;

/// The digest that binds a text: lower-case hex of its SHA-256 digest.
pub open spec fn digest_of(t: Seq<char>) -> Seq<char> {
    hex_of(sha256_of(t))
}

/// Relies on sha2::Sha256: a pure 32-byte digest of the input bytes.
#[verifier::external_body]
fn sha256_digest(s: &str) -> (r: Vec<u8>)
    ensures
        r@ == sha256_of(s@),
        r@.len() == 32,
{
    let mut hasher = sha2::Sha256::new();
    hasher.update(s.as_bytes());
    hasher.finalize().to_vec()
}

/// Relies on hex::encode: two lower-case hex digits for each byte, in order.
#[verifier::external_body]
pub(crate) fn hex_encode(b: &Vec<u8>) -> (r: String)
    ensures
        r@ == hex_of(b@),
{
    hex::encode(b)
}

/// Relies on hex::decode: accepts exactly the even-length strings of hex
/// digits (either case) and yields the bytes they denote.
#[verifier::external_body]
pub(crate) fn decode_hex(s: &str) -> (r: Option<Vec<u8>>)
    ensures
        r is Some <==> (s@.len() % 2 == 0 && (forall|i: int|
            0 <= i < s@.len() ==> is_hex_digit(#[trigger] s@[i]))),
        r matches Some(v) ==> v@ == hex_decoded(s@),
{
    hex::decode(s).ok()
}

/// Content digest of a text: lower-case hex of the SHA-256 of its bytes.
pub fn hash(text: &str) -> (r: String)
    ensures
        r@ == digest_of(text@),
        r@.len() == 64,
{
    let d = sha256_digest(text);
    hex_encode(&d)
}

/// The digest is a function of the text alone: hashing the same text twice,
/// in any two places, yields the same digest.
pub proof fn lemma_digest_deterministic(a: Seq<char>, b: Seq<char>)
    requires
        a == b,
    ensures
        digest_of(a) == digest_of(b),
{
}

} // verus!
