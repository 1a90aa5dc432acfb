//! Calls into `sha2` and into the parts of `std` that `vstd` gives no
//! specification, each behind a small trusted wrapper.

use vstd::prelude::*;
use sha2::{Digest, Sha256};
use crate::error::Utf8Failure;

verus! {

/// The SHA-256 digest of a byte sequence (FIPS 180-4).
pub uninterp spec fn sha256_digest(data: Seq<u8>) -> Seq<u8>;

/// Calls `<sha2::Sha256 as digest::Digest>::digest`.
/// Claimed: the 32-byte output is the SHA-256 digest of `data`, so it is a
/// function of `data` alone (`sha256_digest`); `Sha256`'s `OutputSize` is `U32`.
#[verifier::external_body]
pub(crate) fn sha256(data: &[u8]) -> (digest: Vec<u8>)
    ensures
        digest@ == sha256_digest(data@),
        digest@.len() == 32,
{
    Sha256::digest(data).to_vec()
}

/// Calls `String::push`.
/// Claimed: the character is appended at the end of the string.
#[verifier::external_body]
pub(crate) fn string_push(s: &mut String, c: char)
    ensures
        final(s)@ == old(s)@.push(c),
{
    s.push(c);
}

/// The largest `k <= limit` such that the first `k` bytes are valid UTF-8.
pub open spec fn longest_valid_prefix(bytes: Seq<u8>, limit: int) -> int
    decreases limit,
{
    if limit <= 0 {
        0
    } else if vstd::utf8::valid_utf8(bytes.take(limit)) {
        limit
    } else {
        longest_valid_prefix(bytes, limit - 1)
    }
}

/// The length of the invalid sequence after the longest valid UTF-8 prefix of
/// `bytes` (`None` when the input ends inside a character), as
/// `std::str::Utf8Error::error_len` reports it.
pub uninterp spec fn utf8_error_len(bytes: Seq<u8>) -> Option<usize>;

/// Why `bytes` are not UTF-8, as `String::from_utf8` reports it.
pub open spec fn spec_utf8_failure(bytes: Seq<u8>) -> Utf8Failure {
    Utf8Failure {
        valid_up_to: longest_valid_prefix(bytes, bytes.len() as int) as usize,
        error_len: utf8_error_len(bytes),
    }
}

/// Calls `String::from_utf8`, and on failure reads the error's `valid_up_to`
/// and `error_len`.
/// Claimed, as the documentation says: it succeeds exactly on valid UTF-8, and
/// the string then holds the characters that the bytes encode; on failure
/// `valid_up_to` is the largest index up to which the input is valid UTF-8,
/// and `error_len` depends on the bytes alone (`utf8_error_len`).
#[verifier::external_body]
pub(crate) fn string_from_utf8(bytes: Vec<u8>) -> (s: Result<String, Utf8Failure>)
    ensures
        s is Ok <==> vstd::utf8::valid_utf8(bytes@),
        s matches Ok(t) ==> t@ == vstd::utf8::decode_utf8(bytes@),
        s matches Err(f) ==> f.valid_up_to == longest_valid_prefix(bytes@, bytes@.len() as int),
        s matches Err(f) ==> f.error_len == utf8_error_len(bytes@),
{
    String::from_utf8(bytes).map_err(|error| Utf8Failure {
        valid_up_to: error.utf8_error().valid_up_to(),
        error_len: error.utf8_error().error_len(),
    })
}

/// Whether a character has the Unicode `White_Space` property, as the Unicode
/// Character Database (`PropList.txt`) lists it.
pub open spec fn is_white_space(c: char) -> bool {
    ||| '\u{9}' <= c <= '\u{d}'
    ||| c == ' '
    ||| c == '\u{85}'
    ||| c == '\u{a0}'
    ||| c == '\u{1680}'
    ||| '\u{2000}' <= c <= '\u{200a}'
    ||| c == '\u{2028}'
    ||| c == '\u{2029}'
    ||| c == '\u{202f}'
    ||| c == '\u{205f}'
    ||| c == '\u{3000}'
}

/// Calls `char::is_whitespace`.
/// Claimed: true exactly for the characters with the Unicode `White_Space`
/// property, which its documentation names.
#[verifier::external_body]
pub(crate) fn char_is_whitespace(c: char) -> (r: bool)
    ensures
        r == is_white_space(c),
{
    c.is_whitespace()
}

/// An ASCII letter or digit.
pub open spec fn is_ascii_alphanumeric(c: char) -> bool {
    ||| 'a' <= c <= 'z'
    ||| 'A' <= c <= 'Z'
    ||| '0' <= c <= '9'
}

/// Whether a character is Unicode `Alphabetic` or `Numeric`.
pub uninterp spec fn unicode_alphanumeric(c: char) -> bool;

/// Calls `char::is_alphanumeric`.
/// Claimed: the result depends on the character alone (`unicode_alphanumeric`,
/// the `Alphabetic` or `Numeric` property); among ASCII characters those are
/// exactly the letters and the digits. Which other characters have them is
/// not stated: the Unicode tables take pages.
#[verifier::external_body]
pub(crate) fn char_is_alphanumeric(c: char) -> (r: bool)
    ensures
        r == unicode_alphanumeric(c),
        (c as u32) < 128 ==> (r == is_ascii_alphanumeric(c)),
{
    c.is_alphanumeric()
}

} // verus!
