//! Content fingerprints: SHA-256, rendered as lowercase hexadecimal.

use sha2::{Digest, Sha256};
use vstd::prelude::*;

verus! {

/// Number of bytes in a raw SHA-256 digest.
pub const DIGEST_BYTES: usize = 32;

/// Number of characters in a rendered fingerprint.
pub const DIGEST_CHARS: usize = 64;

/// The longest content that has a fingerprint. SHA-256 is defined for
/// messages of fewer than 2^64 bits, that is, of fewer than 2^61 bytes.
pub const MAX_CONTENT_BYTES: u64 = 0x1fff_ffff_ffff_ffff;

/// The SHA-256 digest of `data`, as raw bytes.
///
/// The hash function itself is not modelled. It is a fixed function of the
/// input bytes, computed by the `sha2` crate.
pub uninterp spec fn sha256(data: Seq<u8>) -> Seq<u8>;

/// Computes the raw SHA-256 digest of `data`.
///
/// Trusted: the body calls `sha2::Sha256::digest`, the one-shot form of the
/// hasher, and copies the output array into a vector. The contract claims
/// that the result is the SHA-256 digest of the input and nothing but its
/// length: 32 bytes, the output size that `sha2` fixes for `Sha256`. Longer
/// inputs than [`MAX_CONTENT_BYTES`] are left out: for those the hasher's
/// count of message bits no longer fits its 64-bit counter.
#[verifier::external_body]
fn sha256_bytes(data: &[u8]) -> (out: Vec<u8>)
    requires
        data@.len() <= MAX_CONTENT_BYTES,
    ensures
        out@ == sha256(data@),
        out@.len() == DIGEST_BYTES,
{
    Sha256::digest(data).to_vec()
}

/// The lowercase hexadecimal digit for a value below sixteen.
pub open spec fn hex_digit(n: int) -> char
    recommends
        0 <= n < 16,
{
    seq!['0', '1', '2', '3', '4', '5', '6', '7', '8', '9', 'a', 'b', 'c', 'd', 'e', 'f'][n]
}

/// Whether `c` is one of the sixteen lowercase hexadecimal digits.
pub open spec fn is_lower_hex_digit(c: char) -> bool {
    ('0' <= c && c <= '9') || ('a' <= c && c <= 'f')
}

/// Whether every character of `s` is a lowercase hexadecimal digit.
pub open spec fn is_lower_hex(s: Seq<char>) -> bool {
    forall|i: int| 0 <= i < s.len() ==> is_lower_hex_digit(#[trigger] s[i])
}

/// The lowercase hexadecimal rendering of `bytes`: two digits per byte, the
/// high half of each byte first.
pub open spec fn hex_encode(bytes: Seq<u8>) -> Seq<char> {
    Seq::new(
        2 * bytes.len(),
        |i: int|
            if i % 2 == 0 {
                hex_digit(bytes[i / 2] as int / 16)
            } else {
                hex_digit(bytes[i / 2] as int % 16)
            },
    )
}

/// The fingerprint of a file's content: its SHA-256 digest in lowercase
/// hexadecimal. It depends on the bytes alone.
pub open spec fn digest_of(content: Seq<u8>) -> Seq<char> {
    hex_encode(sha256(content))
}

/// A rendering by [`hex_encode`] holds lowercase hexadecimal digits only.
pub proof fn lemma_hex_encode_is_lower_hex(bytes: Seq<u8>)
    ensures
        hex_encode(bytes).len() == 2 * bytes.len(),
        is_lower_hex(hex_encode(bytes)),
{
    assert forall|i: int| 0 <= i < hex_encode(bytes).len() implies is_lower_hex_digit(
        #[trigger] hex_encode(bytes)[i],
    ) by {
        let byte = bytes[i / 2] as int;
        assert(0 <= byte / 16 < 16 && 0 <= byte % 16 < 16);
    }
}

/// The one-character string that holds the hexadecimal digit of `n`.
fn hex_digit_str(n: u8) -> (s: &'static str)
    requires
        n < 16,
    ensures
        s@ == seq![hex_digit(n as int)],
{
    let digits = "0123456789abcdef";
    proof {
        reveal_strlit("0123456789abcdef");
    }
    let from: usize = n as usize;
    digits.substring_ascii(from, from + 1)
}

/// Renders `bytes` in lowercase hexadecimal.
pub fn to_hex(bytes: &[u8]) -> (text: String)
    ensures
        text@ == hex_encode(bytes@),
{
    let mut text = String::new();
    let mut i: usize = 0;
    while i < bytes.len()
        invariant
            i <= bytes.len(),
            text@ == hex_encode(bytes@.take(i as int)),
        decreases bytes.len() - i,
    {
        let byte: u8 = bytes[i];
        text.append(hex_digit_str(byte / 16));
        text.append(hex_digit_str(byte % 16));
        i += 1;
    }
    text
}

/// Computes the fingerprint of `content`.
///
/// The result is a function of the bytes alone: no path, name or metadata
/// enters it, so a copy of a file has the fingerprint of the file it was
/// copied from. The content must not be longer than [`MAX_CONTENT_BYTES`],
/// which is more than a machine can hold in memory.
pub fn compute_sha256(content: &[u8]) -> (digest: String)
    requires
        content@.len() <= MAX_CONTENT_BYTES,
    ensures
        digest@ == digest_of(content@),
        digest@.len() == DIGEST_CHARS,
        is_lower_hex(digest@),
{
    let raw = sha256_bytes(content);
    proof {
        lemma_hex_encode_is_lower_hex(raw@);
    }
    to_hex(raw.as_slice())
}

} // verus!
