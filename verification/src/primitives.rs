//! What the broker takes from other crates: a digest, a message
//! authentication code, two text encodings, random bytes and the clock.
use vstd::prelude::*;

use base64::engine::general_purpose::URL_SAFE_NO_PAD;
use base64::Engine;
use hmac::{Hmac, Mac};
use rand::RngCore;
use sha2::{Digest, Sha256};
use std::time::{SystemTime, UNIX_EPOCH};

verus! {

/// The SHA-256 digest of a byte string.
pub uninterp spec fn sha256(data: Seq<u8>) -> Seq<u8>;

/// `sha2::Sha256::digest`: 32 bytes that the data alone decide.
#[verifier::external_body]
pub(crate) fn sha256_digest(data: &[u8]) -> (r: Vec<u8>)
    ensures
        r@ == sha256(data@),
        r@.len() == 32,
{
    Sha256::digest(data).to_vec()
}

/// The HMAC-SHA256 code of a message under a key.
pub uninterp spec fn hmac_sha256(key: Seq<u8>, message: Seq<u8>) -> Seq<u8>;

/// The error of `hmac::Mac::new_from_slice`.
#[verifier::external_type_specification]
#[verifier::external_body]
pub struct ExInvalidLength(hmac::digest::InvalidLength);

/// `hmac::Hmac<sha2::Sha256>`, made from a key, fed one message and finished:
/// a key of any length is taken, and the code is 32 bytes that key and message
/// alone decide.
#[verifier::external_body]
pub(crate) fn hmac_code(key: &[u8], message: &[u8]) -> (r: Result<
    Vec<u8>,
    hmac::digest::InvalidLength,
>)
    ensures
        r is Ok,
        r->Ok_0@ == hmac_sha256(key@, message@),
        r->Ok_0@.len() == 32,
{
    let mut mac = Hmac::<Sha256>::new_from_slice(key)?;
    mac.update(message);
    Ok(mac.finalize().into_bytes().to_vec())
}

/// The hexadecimal digit of a number below sixteen.
pub open spec fn hex_digit(d: int) -> char {
    if d < 10 {
        (48 + d) as char
    } else {
        (87 + d) as char
    }
}

/// A byte string in hexadecimal: two lower-case digits for each byte, the high
/// half first.
pub open spec fn hex_text(bytes: Seq<u8>) -> Seq<char> {
    Seq::new(
        2 * bytes.len(),
        |i: int|
            if i % 2 == 0 {
                hex_digit(bytes[i / 2] as int / 16)
            } else {
                hex_digit(bytes[i / 2] as int % 16)
            },
    )
}

/// `hex::encode`: two lower-case hexadecimal digits for each byte.
#[verifier::external_body]
pub(crate) fn hex_encode(bytes: &[u8]) -> (r: String)
    requires
        2 * bytes@.len() <= isize::MAX,
    ensures
        r@ == hex_text(bytes@),
{
    hex::encode(bytes)
}

/// The character of a six-bit number in the URL-safe base64 alphabet.
pub open spec fn base64_char(n: int) -> char {
    if n < 26 {
        (65 + n) as char
    } else if n < 52 {
        (71 + n) as char
    } else if n < 62 {
        (n - 4) as char
    } else if n == 62 {
        '-'
    } else {
        '_'
    }
}

/// The `i`-th group of six bits of a byte string, filled up with zero bits.
pub open spec fn six_bits(bytes: Seq<u8>, i: int) -> int {
    let at = 6 * i / 8;
    let pair = 256 * bytes[at] + if at + 1 < bytes.len() {
        bytes[at + 1] as int
    } else {
        0
    };
    let rest = if i % 4 == 0 {
        pair / 1024
    } else if i % 4 == 1 {
        pair / 16
    } else if i % 4 == 2 {
        pair / 64
    } else {
        pair / 256
    };
    rest % 64
}

/// A byte string in URL-safe base64 without padding: one character for each
/// group of six bits.
pub open spec fn base64_text(bytes: Seq<u8>) -> Seq<char> {
    Seq::new(((8 * bytes.len() + 5) / 6) as nat, |i: int| base64_char(six_bits(bytes, i)))
}

/// `base64::Engine::encode` of `URL_SAFE_NO_PAD`: one character for each group
/// of six bits.
#[verifier::external_body]
pub(crate) fn base64_encode(bytes: &[u8]) -> (r: String)
    requires
        2 * bytes@.len() <= isize::MAX,
    ensures
        r@ == base64_text(bytes@),
{
    URL_SAFE_NO_PAD.encode(bytes)
}

/// `rand::RngCore::fill_bytes` of `rand::thread_rng`: as many bytes as were
/// asked for. What they are is chance.
#[verifier::external_body]
pub(crate) fn random_bytes(count: usize) -> (r: Vec<u8>)
    requires
        count <= isize::MAX,
    ensures
        r@.len() == count,
{
    let mut raw = vec![0_u8; count];
    rand::thread_rng().fill_bytes(&mut raw);
    raw
}

/// `std::time::SystemTime::now`, as whole seconds since the start of 1970:
/// nothing where the clock stands before that. What it shows is up to the
/// clock.
#[verifier::external_body]
pub(crate) fn clock_seconds() -> (r: Option<u64>) {
    match SystemTime::now().duration_since(UNIX_EPOCH) {
        Ok(elapsed) => Some(elapsed.as_secs()),
        Err(_) => None,
    }
}

/// Random text: so many random bytes in URL-safe base64.
pub fn random_token(bytes: usize) -> (r: String)
    requires
        2 * bytes <= isize::MAX,
    ensures
        r@.len() == (8 * bytes + 5) / 6,
        exists|raw: Seq<u8>| raw.len() == bytes && r@ == base64_text(raw),
{
    let raw = random_bytes(bytes);
    let token = base64_encode(&raw);
    assert(raw@.len() == bytes && token@ == base64_text(raw@));
    token
}

} // verus!
