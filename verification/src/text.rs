//! Character-level helpers on strings.

use vstd::prelude::*;

verus! {

broadcast use vstd::string::group_string_axioms;

/// Whether `c` occurs in `s`.
pub fn str_contains_char(s: &str, c: char) -> (found: bool)
    ensures
        found == s@.contains(c),
{
    for x in it: s.chars()
        invariant
            it.seq() == s@,
            forall|j: int| 0 <= j < it.index() ==> s@[j] != c,
    {
        if x == c {
            return true;
        }
    }
    false
}

} // verus!

verus! {

/// Whether `a` and `b` hold the same characters, compared through their UTF-8 bytes.
pub fn str_equal(a: &str, b: &str) -> (same: bool)
    ensures
        same == (a@ == b@),
{
    let ab = a.as_bytes();
    let bb = b.as_bytes();
    proof {
        vstd::utf8::encode_utf8_decode_utf8(a@);
        vstd::utf8::encode_utf8_decode_utf8(b@);
    }
    if ab.len() != bb.len() {
        return false;
    }
    let mut i: usize = 0;
    while i < ab.len()
        invariant
            ab@ == vstd::utf8::encode_utf8(a@),
            bb@ == vstd::utf8::encode_utf8(b@),
            ab@.len() == bb@.len(),
            i <= ab@.len(),
            forall|j: int| 0 <= j < i ==> ab@[j] == bb@[j],
        decreases ab@.len() - i,
    {
        if ab[i] != bb[i] {
            return false;
        }
        i = i + 1;
    }
    assert(ab@ =~= bb@);
    true
}

} // verus!

verus! {

/// Lexicographic order on byte sequences, a proper prefix coming first: the
/// order in which `str` and `String` compare.
pub open spec fn bytes_le(a: Seq<u8>, b: Seq<u8>) -> bool
    decreases a.len(),
{
    if a.len() == 0 {
        true
    } else if b.len() == 0 {
        false
    } else if a[0] != b[0] {
        a[0] < b[0]
    } else {
        bytes_le(a.drop_first(), b.drop_first())
    }
}

/// Every byte sequence comes no later than itself.
pub proof fn lemma_bytes_le_reflexive(a: Seq<u8>)
    ensures
        bytes_le(a, a),
    decreases a.len(),
{
    if a.len() > 0 {
        lemma_bytes_le_reflexive(a.drop_first());
    }
}

/// Any two byte sequences are ordered one way or the other.
pub proof fn lemma_bytes_le_total(a: Seq<u8>, b: Seq<u8>)
    ensures
        bytes_le(a, b) || bytes_le(b, a),
    decreases a.len(),
{
    if a.len() > 0 && b.len() > 0 && a[0] == b[0] {
        lemma_bytes_le_total(a.drop_first(), b.drop_first());
    }
}

/// The order is transitive.
pub proof fn lemma_bytes_le_transitive(a: Seq<u8>, b: Seq<u8>, c: Seq<u8>)
    requires
        bytes_le(a, b),
        bytes_le(b, c),
    ensures
        bytes_le(a, c),
    decreases a.len(),
{
    if a.len() > 0 && b.len() > 0 && c.len() > 0 && a[0] == b[0] && b[0] == c[0] {
        lemma_bytes_le_transitive(a.drop_first(), b.drop_first(), c.drop_first());
    }
}

/// Two byte sequences each at most the other are equal.
pub proof fn lemma_bytes_le_antisymmetric(a: Seq<u8>, b: Seq<u8>)
    requires
        bytes_le(a, b),
        bytes_le(b, a),
    ensures
        a == b,
    decreases a.len(),
{
    if a.len() > 0 && b.len() > 0 {
        lemma_bytes_le_antisymmetric(a.drop_first(), b.drop_first());
        assert(a =~= seq![a[0]] + a.drop_first());
        assert(b =~= seq![b[0]] + b.drop_first());
    }
}

/// Whether the bytes of `a` come no later than those of `b`.
pub fn bytes_le_exec(a: &[u8], b: &[u8]) -> (le: bool)
    ensures
        le == bytes_le(a@, b@),
{
    let mut i: usize = 0;
    assert(a@.skip(0) =~= a@);
    assert(b@.skip(0) =~= b@);
    while i < a.len() && i < b.len()
        invariant
            i <= a@.len(),
            i <= b@.len(),
            bytes_le(a@, b@) == bytes_le(a@.skip(i as int), b@.skip(i as int)),
        decreases a@.len() - i,
    {
        if a[i] != b[i] {
            return a[i] < b[i];
        }
        assert(a@.skip(i as int).drop_first() =~= a@.skip(i + 1));
        assert(b@.skip(i as int).drop_first() =~= b@.skip(i + 1));
        i = i + 1;
    }
    i == a.len()
}

/// The byte order, stated directly: a prefix comes no later, and otherwise
/// the first differing byte decides.
pub proof fn law_byte_order(a: Seq<u8>, b: Seq<u8>, k: int)
    ensures
        a.is_prefix_of(b) ==> bytes_le(a, b),
        0 <= k < a.len() && k < b.len() && a.take(k) == b.take(k) && a[k] != b[k] ==> (bytes_le(a, b) <==> a[k] < b[k]),
    decreases a.len(),
{
    if a.len() > 0 && b.len() > 0 {
        if a.is_prefix_of(b) {
            assert(a[0] == b[0]);
            assert(a.drop_first().is_prefix_of(b.drop_first())) by {
                assert(a.drop_first() =~= b.drop_first().subrange(0, a.drop_first().len() as int));
            }
            law_byte_order(a.drop_first(), b.drop_first(), 0);
        }
        if 0 <= k < a.len() && k < b.len() && a.take(k) == b.take(k) && a[k] != b[k] {
            if k > 0 {
                assert(a.take(k)[0] == b.take(k)[0]);
                assert(a.drop_first().take(k - 1) =~= b.drop_first().take(k - 1)) by {
                    assert forall|j: int| 0 <= j < k - 1 implies #[trigger] a.drop_first().take(k - 1)[j] == b.drop_first().take(k - 1)[j] by {
                        assert(a.take(k)[j + 1] == b.take(k)[j + 1]);
                    }
                }
                law_byte_order(a.drop_first(), b.drop_first(), k - 1);
            }
        }
    }
}

} // verus!
