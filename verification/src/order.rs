//! The byte-wise order of keys is a strict total order.
use crate::text::{bytes_lt, key_le, key_lt};
use vstd::prelude::*;
use vstd::utf8::encode_utf8;

verus! {

/// No byte string comes before itself.
pub proof fn lemma_bytes_lt_irreflexive(a: Seq<u8>)
    ensures
        !bytes_lt(a, a),
    decreases a.len(),
{
    if a.len() > 0 {
        lemma_bytes_lt_irreflexive(a.drop_first());
    }
}

/// Of two byte strings at most one comes before the other.
pub proof fn lemma_bytes_lt_asymmetric(a: Seq<u8>, b: Seq<u8>)
    ensures
        !(bytes_lt(a, b) && bytes_lt(b, a)),
    decreases a.len(),
{
    if a.len() > 0 && b.len() > 0 && a[0] == b[0] {
        lemma_bytes_lt_asymmetric(a.drop_first(), b.drop_first());
    }
}

/// The order of byte strings is transitive.
pub proof fn lemma_bytes_lt_transitive(a: Seq<u8>, b: Seq<u8>, c: Seq<u8>)
    requires
        bytes_lt(a, b),
        bytes_lt(b, c),
    ensures
        bytes_lt(a, c),
    decreases a.len(),
{
    if a.len() > 0 && b.len() > 0 && c.len() > 0 && a[0] == b[0] && b[0] == c[0] {
        lemma_bytes_lt_transitive(a.drop_first(), b.drop_first(), c.drop_first());
    }
}

/// Two different byte strings are ordered one way or the other.
pub proof fn lemma_bytes_lt_connected(a: Seq<u8>, b: Seq<u8>)
    requires
        a != b,
    ensures
        bytes_lt(a, b) || bytes_lt(b, a),
    decreases a.len(),
{
    if a.len() > 0 && b.len() > 0 && a[0] == b[0] {
        if a.drop_first() == b.drop_first() {
            assert(a =~= seq![a[0]] + a.drop_first());
            assert(b =~= seq![b[0]] + b.drop_first());
        }
        lemma_bytes_lt_connected(a.drop_first(), b.drop_first());
    } else if a.len() == 0 && b.len() == 0 {
        assert(a =~= b);
    }
}

/// If `a` does not come after `b` and `b` comes before `c`, `a` comes before `c`.
pub proof fn lemma_bytes_le_lt_transitive(a: Seq<u8>, b: Seq<u8>, c: Seq<u8>)
    requires
        !bytes_lt(b, a),
        bytes_lt(b, c),
    ensures
        bytes_lt(a, c),
{
    if a != b {
        lemma_bytes_lt_connected(a, b);
        lemma_bytes_lt_transitive(a, b, c);
    }
}

/// If `a` comes before `b` and `b` does not come after `c`, `a` comes before `c`.
pub proof fn lemma_bytes_lt_le_transitive(a: Seq<u8>, b: Seq<u8>, c: Seq<u8>)
    requires
        bytes_lt(a, b),
        !bytes_lt(c, b),
    ensures
        bytes_lt(a, c),
{
    if b != c {
        lemma_bytes_lt_connected(b, c);
        lemma_bytes_lt_transitive(a, b, c);
    }
}

/// Two byte strings that agree up to a place and differ there are ordered
/// by the bytes at that place.
pub proof fn lemma_bytes_lt_at(a: Seq<u8>, b: Seq<u8>, k: int)
    requires
        0 <= k < a.len(),
        k < b.len(),
        forall|i: int| 0 <= i < k ==> a[i] == b[i],
        a[k] < b[k],
    ensures
        bytes_lt(a, b),
        !bytes_lt(b, a),
    decreases k,
{
    if k > 0 {
        let ra = a.drop_first();
        let rb = b.drop_first();
        assert forall|i: int| 0 <= i < k - 1 implies ra[i] == rb[i] by {
            assert(ra[i] == a[i + 1]);
            assert(rb[i] == b[i + 1]);
        }
        assert(ra[k - 1] == a[k]);
        assert(rb[k - 1] == b[k]);
        assert(a[0] == b[0]);
        lemma_bytes_lt_at(ra, rb, k - 1);
    }
}

/// Two ASCII keys that agree up to a place and differ there are ordered by
/// the characters at that place.
pub proof fn lemma_key_lt_at(a: Seq<char>, b: Seq<char>, k: int)
    requires
        vstd::utf8::is_ascii_chars(a),
        vstd::utf8::is_ascii_chars(b),
        0 <= k < a.len(),
        k < b.len(),
        forall|i: int| 0 <= i < k ==> a[i] == b[i],
        a[k] < b[k],
    ensures
        key_lt(a, b),
        key_le(a, b),
        a != b,
{
    vstd::utf8::is_ascii_chars_encode_utf8(a);
    vstd::utf8::is_ascii_chars_encode_utf8(b);
    let ba = encode_utf8(a);
    let bb = encode_utf8(b);
    assert forall|i: int| 0 <= i < k implies ba[i] == bb[i] by {
        assert(a[i] as u8 == ba[i]);
        assert(b[i] as u8 == bb[i]);
    }
    assert(a[k] as u8 == ba[k]);
    assert(b[k] as u8 == bb[k]);
    lemma_bytes_lt_at(ba, bb, k);
}

/// Two strings with the same UTF-8 bytes are the same string.
pub proof fn lemma_utf8_injective(a: Seq<char>, b: Seq<char>)
    requires
        encode_utf8(a) == encode_utf8(b),
    ensures
        a == b,
{
    vstd::utf8::encode_utf8_decode_utf8(a);
    vstd::utf8::encode_utf8_decode_utf8(b);
}

/// No key comes before itself.
pub proof fn lemma_key_lt_irreflexive(a: Seq<char>)
    ensures
        !key_lt(a, a),
        key_le(a, a),
{
    lemma_bytes_lt_irreflexive(encode_utf8(a));
}

/// Two keys of which neither comes before the other are the same key.
pub proof fn lemma_key_le_antisymmetric(a: Seq<char>, b: Seq<char>)
    requires
        key_le(a, b),
        key_le(b, a),
    ensures
        a == b,
{
    if encode_utf8(a) != encode_utf8(b) {
        lemma_bytes_lt_connected(encode_utf8(a), encode_utf8(b));
    }
    lemma_utf8_injective(a, b);
}

/// Any two keys are ordered one way or the other.
pub proof fn lemma_key_le_total(a: Seq<char>, b: Seq<char>)
    ensures
        key_le(a, b) || key_le(b, a),
{
    lemma_bytes_lt_asymmetric(encode_utf8(a), encode_utf8(b));
}

/// `key_le` is transitive.
pub proof fn lemma_key_le_transitive(a: Seq<char>, b: Seq<char>, c: Seq<char>)
    requires
        key_le(a, b),
        key_le(b, c),
    ensures
        key_le(a, c),
{
    if key_lt(c, a) {
        lemma_bytes_lt_le_transitive(encode_utf8(c), encode_utf8(a), encode_utf8(b));
    }
}

/// If `a` does not come after `b` and `b` comes before `c`, `a` comes before `c`.
pub proof fn lemma_key_le_lt_transitive(a: Seq<char>, b: Seq<char>, c: Seq<char>)
    requires
        key_le(a, b),
        key_lt(b, c),
    ensures
        key_lt(a, c),
{
    lemma_bytes_le_lt_transitive(encode_utf8(a), encode_utf8(b), encode_utf8(c));
}

} // verus!
