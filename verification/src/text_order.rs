//! The order in which Rust sorts strings and pairs of strings: lexicographic
//! on the UTF-8 bytes, and for pairs on the first string, then the second.
use vstd::prelude::*;
use vstd::relations::total_ordering;

verus! {

/// Lexicographic order on byte sequences: `a` is a prefix of `b`, or at the
/// first byte where they differ `a`'s is the smaller.
pub open spec fn bytes_le(a: Seq<u8>, b: Seq<u8>) -> bool
    decreases a.len(),
{
    if a.len() == 0 {
        true
    } else if b.len() == 0 {
        false
    } else if a[0] != b[0] {
        a[0] < b[0]
    } else {
        bytes_le(a.drop_first(), b.drop_first())
    }
}

/// The UTF-8 encoding of a string, which is what `String`'s order compares.
pub open spec fn text_bytes(s: Seq<char>) -> Seq<u8> {
    vstd::utf8::encode_utf8(s)
}

/// The order of `String`: lexicographic on the UTF-8 bytes.
pub open spec fn text_le(a: Seq<char>, b: Seq<char>) -> bool {
    bytes_le(text_bytes(a), text_bytes(b))
}

/// The order of `(String, String)`: by the first string, and between pairs
/// with equal first strings by the second.
pub open spec fn pair_le(a: (Seq<char>, Seq<char>), b: (Seq<char>, Seq<char>)) -> bool {
    if a.0 == b.0 {
        text_le(a.1, b.1)
    } else {
        text_le(a.0, b.0)
    }
}

proof fn lemma_bytes_le_reflexive(a: Seq<u8>)
    ensures
        bytes_le(a, a),
    decreases a.len(),
{
    if a.len() > 0 {
        lemma_bytes_le_reflexive(a.drop_first());
    }
}

proof fn lemma_bytes_le_antisymmetric(a: Seq<u8>, b: Seq<u8>)
    requires
        bytes_le(a, b),
        bytes_le(b, a),
    ensures
        a == b,
    decreases a.len(),
{
    if a.len() > 0 && b.len() > 0 {
        lemma_bytes_le_antisymmetric(a.drop_first(), b.drop_first());
        assert(a =~= seq![a[0]] + a.drop_first());
        assert(b =~= seq![b[0]] + b.drop_first());
    } else {
        assert(a =~= b);
    }
}

proof fn lemma_bytes_le_transitive(a: Seq<u8>, b: Seq<u8>, c: Seq<u8>)
    requires
        bytes_le(a, b),
        bytes_le(b, c),
    ensures
        bytes_le(a, c),
    decreases a.len(),
{
    if a.len() > 0 && b.len() > 0 && c.len() > 0 && a[0] == b[0] && b[0] == c[0] {
        lemma_bytes_le_transitive(a.drop_first(), b.drop_first(), c.drop_first());
    }
}

proof fn lemma_bytes_le_total(a: Seq<u8>, b: Seq<u8>)
    ensures
        bytes_le(a, b) || bytes_le(b, a),
    decreases a.len(),
{
    if a.len() > 0 && b.len() > 0 && a[0] == b[0] {
        lemma_bytes_le_total(a.drop_first(), b.drop_first());
    }
}

/// Two strings whose encodings are equal are equal.
proof fn lemma_text_bytes_injective(a: Seq<char>, b: Seq<char>)
    requires
        text_bytes(a) == text_bytes(b),
    ensures
        a == b,
{
    vstd::utf8::encode_utf8_decode_utf8(a);
    vstd::utf8::encode_utf8_decode_utf8(b);
}

/// `text_le` is reflexive, antisymmetric, transitive and total.
proof fn lemma_text_le_properties()
    ensures
        forall|a: Seq<char>| #[trigger] text_le(a, a),
        forall|a: Seq<char>, b: Seq<char>| #[trigger] text_le(a, b) && #[trigger] text_le(b, a) ==> a == b,
        forall|a: Seq<char>, b: Seq<char>, c: Seq<char>| #[trigger] text_le(a, b) && #[trigger] text_le(b, c) ==> text_le(a, c),
        forall|a: Seq<char>, b: Seq<char>| #[trigger] text_le(a, b) || #[trigger] text_le(b, a),
{
    assert forall|a: Seq<char>| #[trigger] text_le(a, a) by {
        lemma_bytes_le_reflexive(text_bytes(a));
    }
    assert forall|a: Seq<char>, b: Seq<char>| #[trigger]
        text_le(a, b) && #[trigger] text_le(b, a) implies a == b by {
        lemma_bytes_le_antisymmetric(text_bytes(a), text_bytes(b));
        lemma_text_bytes_injective(a, b);
    }
    assert forall|a: Seq<char>, b: Seq<char>, c: Seq<char>| #[trigger]
        text_le(a, b) && #[trigger] text_le(b, c) implies text_le(a, c) by {
        lemma_bytes_le_transitive(text_bytes(a), text_bytes(b), text_bytes(c));
    }
    assert forall|a: Seq<char>, b: Seq<char>| #[trigger] text_le(a, b) || #[trigger] text_le(b, a) by {
        lemma_bytes_le_total(text_bytes(a), text_bytes(b));
    }
}

/// `pair_le` is reflexive, antisymmetric, transitive and total.
pub proof fn lemma_pair_le_properties()
    ensures
        forall|a: (Seq<char>, Seq<char>)| #[trigger] pair_le(a, a),
        forall|a: (Seq<char>, Seq<char>), b: (Seq<char>, Seq<char>)| #[trigger] pair_le(a, b) && #[trigger] pair_le(b, a) ==> a == b,
        forall|a: (Seq<char>, Seq<char>), b: (Seq<char>, Seq<char>), c: (Seq<char>, Seq<char>)| #[trigger] pair_le(a, b) && #[trigger] pair_le(b, c) ==> pair_le(a, c),
        forall|a: (Seq<char>, Seq<char>), b: (Seq<char>, Seq<char>)| #[trigger] pair_le(a, b) || #[trigger] pair_le(b, a),
{
    lemma_text_le_properties();
    assert forall|a: (Seq<char>, Seq<char>)| #[trigger] pair_le(a, a) by {
        assert(text_le(a.1, a.1));
    }
    assert forall|a: (Seq<char>, Seq<char>), b: (Seq<char>, Seq<char>)| #[trigger]
        pair_le(a, b) && #[trigger] pair_le(b, a) implies a == b by {
        if a.0 == b.0 {
            assert(text_le(a.1, b.1) && text_le(b.1, a.1));
        } else {
            assert(text_le(a.0, b.0) && text_le(b.0, a.0));
        }
    }
    assert forall|a: (Seq<char>, Seq<char>), b: (Seq<char>, Seq<char>), c: (Seq<char>, Seq<char>)|
        #[trigger] pair_le(a, b) && #[trigger] pair_le(b, c) implies pair_le(a, c) by {
        if a.0 == b.0 && b.0 == c.0 {
            assert(text_le(a.1, b.1) && text_le(b.1, c.1));
        } else if a.0 == b.0 {
            assert(text_le(b.0, c.0));
        } else if b.0 == c.0 {
            assert(text_le(a.0, b.0));
        } else {
            assert(text_le(a.0, b.0) && text_le(b.0, c.0));
            if a.0 == c.0 {
                assert(text_le(c.0, b.0));
            }
        }
    }
    assert forall|a: (Seq<char>, Seq<char>), b: (Seq<char>, Seq<char>)| #[trigger]
        pair_le(a, b) || #[trigger] pair_le(b, a) by {
        assert(text_le(a.0, b.0) || text_le(b.0, a.0));
        assert(text_le(a.1, b.1) || text_le(b.1, a.1));
    }
}

/// `pair_le` is a total order.
pub proof fn lemma_pair_le_total_ordering()
    ensures
        total_ordering(|a: (Seq<char>, Seq<char>), b: (Seq<char>, Seq<char>)| pair_le(a, b)),
{
    lemma_pair_le_properties();
}

/// Compares two byte strings lexicographically.
pub fn bytes_le_exec(a: &[u8], b: &[u8]) -> (le: bool)
    ensures
        le == bytes_le(a@, b@),
{
    let mut i: usize = 0;
    assert(a@.skip(0) =~= a@);
    assert(b@.skip(0) =~= b@);
    while i < a.len() && i < b.len()
        invariant
            i <= a@.len(),
            i <= b@.len(),
            bytes_le(a@, b@) == bytes_le(a@.skip(i as int), b@.skip(i as int)),
        decreases a@.len() - i,
    {
        if a[i] != b[i] {
            return a[i] < b[i];
        }
        assert(a@.skip(i as int).drop_first() =~= a@.skip(i + 1));
        assert(b@.skip(i as int).drop_first() =~= b@.skip(i + 1));
        i += 1;
    }
    i == a.len()
}

/// Compares two strings as `String`'s order does.
pub fn text_le_exec(a: &String, b: &String) -> (le: bool)
    ensures
        le == text_le(a@, b@),
{
    bytes_le_exec(a.as_str().as_bytes(), b.as_str().as_bytes())
}

/// Compares two pairs of strings as `(String, String)`'s order does.
pub fn pair_le_exec(a: &(String, String), b: &(String, String)) -> (le: bool)
    ensures
        le == pair_le((a.0@, a.1@), (b.0@, b.1@)),
{
    if a.0 == b.0 {
        text_le_exec(&a.1, &b.1)
    } else {
        text_le_exec(&a.0, &b.0)
    }
}

} // verus!
