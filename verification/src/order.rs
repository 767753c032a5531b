//! The order in which extensions are listed: the order of `str`, which compares
//! two strings byte by byte over their UTF-8 encodings.

use vstd::prelude::*;
use vstd::utf8::*;

verus! {

/// `a` and `b` hold the same bytes at every index below `k`.
pub open spec fn agree_below(a: Seq<u8>, b: Seq<u8>, k: int) -> bool {
    &&& 0 <= k <= a.len()
    &&& k <= b.len()
    &&& forall|i: int| 0 <= i < k ==> a[i] == b[i]
}

/// At index `k`, `a` ends while `b` goes on, or `a` holds the smaller byte.
pub open spec fn smaller_at(a: Seq<u8>, b: Seq<u8>, k: int) -> bool {
    if k == a.len() {
        k < b.len()
    } else {
        k < b.len() && a[k] < b[k]
    }
}

/// Lexicographic order on byte strings: `a` is a proper prefix of `b`, or `a`
/// holds the smaller byte at the first index where the two differ.
pub open spec fn bytes_before(a: Seq<u8>, b: Seq<u8>) -> bool {
    exists|k: int| #[trigger] agree_below(a, b, k) && smaller_at(a, b, k)
}

/// The order of extensions: `a` comes strictly before `b`.
pub open spec fn precedes(a: Seq<char>, b: Seq<char>) -> bool {
    bytes_before(encode_utf8(a), encode_utf8(b))
}

/// Every element comes strictly before each later one. Such a sequence holds
/// no element twice.
pub open spec fn ascending(s: Seq<Seq<char>>) -> bool {
    forall|i: int, j: int| #![trigger s[i], s[j]] 0 <= i < j < s.len() ==> precedes(s[i], s[j])
}

/// Where two byte strings agree below `k` and part ways at `k`, index `k`
/// alone decides their order.
pub proof fn lemma_decided_at(a: Seq<u8>, b: Seq<u8>, k: int)
    requires
        agree_below(a, b, k),
        k == a.len() || k == b.len() || a[k] != b[k],
    ensures
        bytes_before(a, b) == smaller_at(a, b, k),
{
    if bytes_before(a, b) {
        let w = choose|w: int| #[trigger] agree_below(a, b, w) && smaller_at(a, b, w);
        if w < k {
            assert(a[w] == b[w]);
        } else if w > k {
            assert(a[k] == b[k]);
        }
    }
}

/// No byte string comes before itself.
pub proof fn lemma_bytes_irreflexive(a: Seq<u8>)
    ensures
        !bytes_before(a, a),
{
    assert(agree_below(a, a, a.len() as int));
    lemma_decided_at(a, a, a.len() as int);
}

/// The order on byte strings is transitive.
pub proof fn lemma_bytes_transitive(a: Seq<u8>, b: Seq<u8>, c: Seq<u8>)
    requires
        bytes_before(a, b),
        bytes_before(b, c),
    ensures
        bytes_before(a, c),
{
    let k1 = choose|k: int| #[trigger] agree_below(a, b, k) && smaller_at(a, b, k);
    let k2 = choose|k: int| #[trigger] agree_below(b, c, k) && smaller_at(b, c, k);
    let k = if k1 <= k2 { k1 } else { k2 };
    assert(agree_below(a, c, k));
    assert(smaller_at(a, c, k));
}

/// Two byte strings that agree below `k` are equal, or one comes before the
/// other.
proof fn lemma_bytes_total_from(a: Seq<u8>, b: Seq<u8>, k: int)
    requires
        agree_below(a, b, k),
    ensures
        a == b || bytes_before(a, b) || bytes_before(b, a),
    decreases a.len() - k,
{
    if k == a.len() {
        if k == b.len() {
            assert(a =~= b);
        } else {
            assert(smaller_at(a, b, k));
        }
    } else if k == b.len() {
        assert(agree_below(b, a, k));
        assert(smaller_at(b, a, k));
    } else if a[k] != b[k] {
        if a[k] < b[k] {
            assert(smaller_at(a, b, k));
        } else {
            assert(agree_below(b, a, k));
            assert(smaller_at(b, a, k));
        }
    } else {
        assert(agree_below(a, b, k + 1));
        lemma_bytes_total_from(a, b, k + 1);
    }
}

/// Of two different byte strings one comes before the other.
pub proof fn lemma_bytes_total(a: Seq<u8>, b: Seq<u8>)
    ensures
        a == b || bytes_before(a, b) || bytes_before(b, a),
{
    assert(agree_below(a, b, 0));
    lemma_bytes_total_from(a, b, 0);
}

/// No string comes before itself.
pub proof fn lemma_irreflexive(a: Seq<char>)
    ensures
        !precedes(a, a),
{
    lemma_bytes_irreflexive(encode_utf8(a));
}

/// The order of extensions is transitive.
pub proof fn lemma_transitive(a: Seq<char>, b: Seq<char>, c: Seq<char>)
    requires
        precedes(a, b),
        precedes(b, c),
    ensures
        precedes(a, c),
{
    lemma_bytes_transitive(encode_utf8(a), encode_utf8(b), encode_utf8(c));
}

/// Of two different strings one comes before the other: a string is known by
/// its encoding.
pub proof fn lemma_total(a: Seq<char>, b: Seq<char>)
    ensures
        a == b || precedes(a, b) || precedes(b, a),
{
    lemma_bytes_total(encode_utf8(a), encode_utf8(b));
    if encode_utf8(a) == encode_utf8(b) {
        encode_utf8_decode_utf8(a);
        encode_utf8_decode_utf8(b);
    }
}

/// Two strings never come before each other.
pub proof fn lemma_asymmetric(a: Seq<char>, b: Seq<char>)
    requires
        precedes(a, b),
    ensures
        !precedes(b, a),
{
    if precedes(b, a) {
        lemma_transitive(a, b, a);
        lemma_irreflexive(a);
    }
}

/// Whether the bytes of `a` come before those of `b`.
pub fn bytes_precede(a: &[u8], b: &[u8]) -> (r: bool)
    ensures
        r == bytes_before(a@, b@),
{
    let mut i: usize = 0;
    while i < a.len() && i < b.len()
        invariant
            agree_below(a@, b@, i as int),
        decreases a.len() - i,
    {
        if a[i] != b[i] {
            proof {
                lemma_decided_at(a@, b@, i as int);
            }
            return a[i] < b[i];
        }
        i += 1;
    }
    proof {
        lemma_decided_at(a@, b@, i as int);
    }
    i < b.len()
}

/// Whether `a` comes before `b` in the order of extensions.
pub fn str_precedes(a: &str, b: &str) -> (r: bool)
    ensures
        r == precedes(a@, b@),
{
    bytes_precede(a.as_bytes(), b.as_bytes())
}

} // verus!
