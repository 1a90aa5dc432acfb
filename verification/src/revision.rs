//! Revisions: the lower-case hexadecimal SHA-256 digest of a file's bytes.

use vstd::prelude::*;
use crate::external::{sha256, sha256_digest, string_push};

verus! {

/// The lower-case hexadecimal digit for a value below 16.
pub open spec fn hex_digit(n: int) -> char {
    if n < 10 {
        (48 + n) as char
    } else {
        (87 + n) as char
    }
}

/// Lower-case hexadecimal text of a byte sequence: two digits per byte, high nibble first.
pub open spec fn hex_lower(bytes: Seq<u8>) -> Seq<char>
    decreases bytes.len(),
{
    if bytes.len() == 0 {
        Seq::empty()
    } else {
        seq![hex_digit(bytes[0] as int / 16), hex_digit(bytes[0] as int % 16)] + hex_lower(bytes.drop_first())
    }
}

/// The revision of a file whose content is `bytes`.
pub open spec fn spec_revision(bytes: Seq<u8>) -> Seq<char> {
    hex_lower(sha256_digest(bytes))
}

fn hex_digit_exec(n: u8) -> (c: char)
    requires
        n < 16,
    ensures
        c == hex_digit(n as int),
{
    if n < 10 {
        (48u8 + n) as char
    } else {
        (87u8 + n) as char
    }
}

proof fn lemma_hex_lower_split(bytes: Seq<u8>, i: int)
    requires
        0 <= i < bytes.len(),
    ensures
        hex_lower(bytes.take(i + 1)) == hex_lower(bytes.take(i)) + seq![
            hex_digit(bytes[i] as int / 16),
            hex_digit(bytes[i] as int % 16),
        ],
    decreases i,
{
    if i == 0 {
        assert(bytes.take(1).drop_first() =~= Seq::<u8>::empty());
        assert(bytes.take(0) =~= Seq::<u8>::empty());
    } else {
        let tail = bytes.drop_first();
        lemma_hex_lower_split(tail, i - 1);
        assert(bytes.take(i + 1).drop_first() =~= tail.take(i));
        assert(bytes.take(i).drop_first() =~= tail.take(i - 1));
    }
}

proof fn lemma_hex_lower_len(bytes: Seq<u8>)
    ensures
        hex_lower(bytes).len() == 2 * bytes.len(),
    decreases bytes.len(),
{
    if bytes.len() > 0 {
        lemma_hex_lower_len(bytes.drop_first());
    }
}

/// Lower-case hexadecimal text of `bytes`.
pub fn hex_encode(bytes: &[u8]) -> (text: String)
    ensures
        text@ == hex_lower(bytes@),
{
    let mut text = String::new();
    let mut i: usize = 0;
    while i < bytes.len()
        invariant
            i <= bytes@.len(),
            text@ == hex_lower(bytes@.take(i as int)),
        decreases bytes@.len() - i,
    {
        let b = bytes[i];
        proof {
            lemma_hex_lower_split(bytes@, i as int);
        }
        string_push(&mut text, hex_digit_exec(b / 16));
        string_push(&mut text, hex_digit_exec(b % 16));
        i = i + 1;
    }
    assert(bytes@.take(bytes@.len() as int) =~= bytes@);
    text
}

/// The revision of `bytes`: the lower-case hexadecimal SHA-256 digest.
pub fn revision(bytes: &[u8]) -> (r: String)
    ensures
        r@ == spec_revision(bytes@),
        r@.len() == 64,
{
    let digest = sha256(bytes);
    proof {
        lemma_hex_lower_len(digest@);
    }
    hex_encode(digest.as_slice())
}

/// The value of a lower-case hexadecimal digit.
pub open spec fn hex_value(c: char) -> int {
    if '0' <= c <= '9' {
        c as int - 48
    } else {
        c as int - 87
    }
}

/// Hexadecimal text reads back as the bytes it was made of: two digits per
/// byte, the first giving the high four bits and the second the low four, each
/// a digit `0`-`9` or a letter `a`-`f`.
pub proof fn law_hex_reads_back(bytes: Seq<u8>)
    ensures
        hex_lower(bytes).len() == 2 * bytes.len(),
        forall|k: int| 0 <= k < bytes.len() ==> {
            let hi = #[trigger] hex_lower(bytes)[2 * k];
            let lo = hex_lower(bytes)[2 * k + 1];
            &&& ('0' <= hi <= '9' || 'a' <= hi <= 'f')
            &&& ('0' <= lo <= '9' || 'a' <= lo <= 'f')
            &&& 16 * hex_value(hi) + hex_value(lo) == bytes[k]
        },
    decreases bytes.len(),
{
    lemma_hex_lower_len(bytes);
    if bytes.len() > 0 {
        let tail = bytes.drop_first();
        law_hex_reads_back(tail);
        let h = hex_lower(bytes);
        let t = hex_lower(tail);
        assert forall|k: int| 0 <= k < bytes.len() implies {
            let hi = #[trigger] h[2 * k];
            let lo = h[2 * k + 1];
            &&& ('0' <= hi <= '9' || 'a' <= hi <= 'f')
            &&& ('0' <= lo <= '9' || 'a' <= lo <= 'f')
            &&& 16 * hex_value(hi) + hex_value(lo) == bytes[k]
        } by {
            if k == 0 {
                let b = bytes[0] as int;
                assert(h[0] == hex_digit(b / 16));
                assert(h[1] == hex_digit(b % 16));
            } else {
                assert(h[2 * k] == t[2 * (k - 1)]);
                assert(h[2 * k + 1] == t[2 * (k - 1) + 1]);
                assert(bytes[k] == tail[k - 1]);
            }
        }
    }
}

} // verus!
