//! The order of texts by the bytes of their UTF-8 encoding: the order in
//! which group identifiers are sorted. It depends on no locale.

use vstd::prelude::*;
use vstd::string::*;
use vstd::utf8::*;

verus! {

/// Whether `a` and `b` agree in their first `k` bytes.
pub open spec fn agree_until(a: Seq<u8>, b: Seq<u8>, k: int) -> bool {
    &&& 0 <= k <= a.len()
    &&& k <= b.len()
    &&& a.take(k) == b.take(k)
}

/// Whether `a` comes before `b` with `k` as the place that decides: they
/// agree before it, and there `a` ends or has the smaller byte.
pub open spec fn decided_at(a: Seq<u8>, b: Seq<u8>, k: int) -> bool {
    &&& agree_until(a, b, k)
    &&& k < b.len()
    &&& k < a.len() ==> a[k] < b[k]
}

/// Whether `a` comes before `b` in lexicographic order.
pub open spec fn bytes_lt(a: Seq<u8>, b: Seq<u8>) -> bool {
    exists|k: int| decided_at(a, b, k)
}

/// Whether the text `a` comes before the text `b` in the order of their
/// UTF-8 bytes.
pub open spec fn text_lt(a: Seq<char>, b: Seq<char>) -> bool {
    bytes_lt(encode_utf8(a), encode_utf8(b))
}

/// Where one text stands relative to another.
#[derive(Debug, Clone, Copy, PartialEq, Eq, Structural)]
pub enum Place {
    Before,
    Same,
    After,
}

/// No byte sequence comes before itself.
proof fn lemma_bytes_lt_irreflexive(a: Seq<u8>)
    ensures
        !bytes_lt(a, a),
{
}

/// The lexicographic order is transitive.
proof fn lemma_bytes_lt_transitive(a: Seq<u8>, b: Seq<u8>, c: Seq<u8>)
    requires
        bytes_lt(a, b),
        bytes_lt(b, c),
    ensures
        bytes_lt(a, c),
{
    let k1 = choose|k: int| decided_at(a, b, k);
    let k2 = choose|k: int| decided_at(b, c, k);
    let k = if k1 <= k2 {
        k1
    } else {
        k2
    };
    assert(a.take(k) =~= a.take(k1).take(k));
    assert(b.take(k) =~= b.take(k1).take(k));
    assert(b.take(k) =~= b.take(k2).take(k));
    assert(c.take(k) =~= c.take(k2).take(k));
    if k1 < k2 {
        assert(b[k1] == b.take(k2)[k1]);
        assert(c[k1] == c.take(k2)[k1]);
    } else if k2 < k1 {
        assert(a[k2] == a.take(k1)[k2]);
        assert(b[k2] == b.take(k1)[k2]);
    }
    assert(decided_at(a, c, k));
}

/// Texts are told apart by their UTF-8 bytes.
proof fn lemma_encoding_injective(a: Seq<char>, b: Seq<char>)
    requires
        encode_utf8(a) == encode_utf8(b),
    ensures
        a == b,
{
    encode_utf8_decode_utf8(a);
    encode_utf8_decode_utf8(b);
}

/// No text comes before itself.
pub proof fn law_order_is_irreflexive(a: Seq<char>)
    ensures
        !text_lt(a, a),
{
    lemma_bytes_lt_irreflexive(encode_utf8(a));
}

/// The order of texts is transitive.
pub proof fn law_order_is_transitive(a: Seq<char>, b: Seq<char>, c: Seq<char>)
    requires
        text_lt(a, b),
        text_lt(b, c),
    ensures
        text_lt(a, c),
{
    lemma_bytes_lt_transitive(encode_utf8(a), encode_utf8(b), encode_utf8(c));
}

/// Of two texts, one comes before the other or they are the same text: by
/// their UTF-8 bytes any two texts can be told apart and put in order.
pub proof fn law_order_is_total(a: Seq<char>, b: Seq<char>)
    ensures
        text_lt(a, b) || a == b || text_lt(b, a),
{
    let x = encode_utf8(a);
    let y = encode_utf8(b);
    assert(x.take(0) =~= y.take(0));
    lemma_bytes_total(x, y, 0);
    if x == y {
        lemma_encoding_injective(a, b);
    }
}

proof fn lemma_bytes_total(x: Seq<u8>, y: Seq<u8>, k: int)
    requires
        agree_until(x, y, k),
    ensures
        bytes_lt(x, y) || x == y || bytes_lt(y, x),
    decreases x.len() - k,
{
    if k == x.len() {
        if k == y.len() {
            assert(x =~= x.take(k));
            assert(y =~= y.take(k));
        } else {
            assert(decided_at(x, y, k));
        }
    } else if k == y.len() {
        assert(decided_at(y, x, k));
    } else if x[k] < y[k] {
        assert(decided_at(x, y, k));
    } else if y[k] < x[k] {
        assert(decided_at(y, x, k));
    } else {
        assert(x.take(k + 1) =~= x.take(k).push(x[k]));
        assert(y.take(k + 1) =~= y.take(k).push(y[k]));
        lemma_bytes_total(x, y, k + 1);
    }
}

/// Finds where the text `a` stands relative to the text `b`.
pub fn place_of(a: &str, b: &str) -> (place: Place)
    ensures
        place == Place::Before <==> text_lt(a@, b@),
        place == Place::Same <==> a@ == b@,
        place == Place::After <==> text_lt(b@, a@),
{
    let x = a.as_bytes();
    let y = b.as_bytes();
    let mut k: usize = 0;
    assert(x@.take(0) =~= y@.take(0));
    while k < x.len() && k < y.len() && x[k] == y[k]
        invariant
            agree_until(x@, y@, k as int),
        decreases x.len() - k,
    {
        assert(x@.take(k + 1) =~= x@.take(k as int).push(x@[k as int]));
        assert(y@.take(k + 1) =~= y@.take(k as int).push(y@[k as int]));
        k = k + 1;
    }
    proof {
        law_order_is_irreflexive(a@);
        law_order_is_irreflexive(b@);
    }
    if k == x.len() {
        if k == y.len() {
            proof {
                assert(x@ =~= x@.take(k as int));
                assert(y@ =~= y@.take(k as int));
                lemma_encoding_injective(a@, b@);
            }
            Place::Same
        } else {
            proof {
                assert(decided_at(x@, y@, k as int));
                lemma_before_excludes(a@, b@);
            }
            Place::Before
        }
    } else if k == y.len() || y[k] < x[k] {
        proof {
            assert(decided_at(y@, x@, k as int));
            lemma_before_excludes(b@, a@);
        }
        Place::After
    } else {
        proof {
            assert(decided_at(x@, y@, k as int));
            lemma_before_excludes(a@, b@);
        }
        Place::Before
    }
}

/// A text that comes before another is not the same text and does not come
/// after it.
pub(crate) proof fn lemma_before_excludes(a: Seq<char>, b: Seq<char>)
    requires
        text_lt(a, b),
    ensures
        a != b,
        !text_lt(b, a),
{
    law_order_is_irreflexive(a);
    if text_lt(b, a) {
        law_order_is_transitive(a, b, a);
    }
}

} // verus!
