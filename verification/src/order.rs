//! The lexicographic order on byte sequences, which is also the order of texts
//! by their UTF-8 encodings.
use vstd::prelude::*;

verus! {

/// `a` comes strictly before `b`: at the first difference `a` has the smaller
/// byte, or `a` is a proper prefix of `b`.
pub open spec fn lex_less(a: Seq<u8>, b: Seq<u8>) -> bool {
    exists|k: int| #[trigger] first_difference(a, b, k)
}

/// `a` and `b` agree before position `k`, and `a` is smaller there.
pub open spec fn first_difference(a: Seq<u8>, b: Seq<u8>, k: int) -> bool {
    &&& 0 <= k <= a.len()
    &&& k < b.len()
    &&& forall|i: int| 0 <= i < k ==> a[i] == b[i]
    &&& k == a.len() || a[k] < b[k]
}

/// No sequence comes before itself.
pub proof fn lex_irreflexive(a: Seq<u8>)
    ensures
        !lex_less(a, a),
{
}

/// The order is transitive.
pub proof fn lex_transitive(a: Seq<u8>, b: Seq<u8>, c: Seq<u8>)
    requires
        lex_less(a, b),
        lex_less(b, c),
    ensures
        lex_less(a, c),
{
    let i = choose|i: int| first_difference(a, b, i);
    let j = choose|j: int| first_difference(b, c, j);
    if i <= j {
        assert(first_difference(a, c, i));
    } else {
        assert(first_difference(a, c, j));
    }
}

/// Two different sequences are comparable.
pub proof fn lex_total(a: Seq<u8>, b: Seq<u8>)
    ensures
        a == b || lex_less(a, b) || lex_less(b, a),
    decreases a.len(),
{
    if a.len() == 0 {
        if b.len() > 0 {
            assert(first_difference(a, b, 0));
        } else {
            assert(a =~= b);
        }
    } else if b.len() == 0 {
        assert(first_difference(b, a, 0));
    } else if a[0] < b[0] {
        assert(first_difference(a, b, 0));
    } else if b[0] < a[0] {
        assert(first_difference(b, a, 0));
    } else {
        let ra = a.drop_first();
        let rb = b.drop_first();
        lex_total(ra, rb);
        if ra == rb {
            assert(a =~= seq![a[0]] + ra);
            assert(b =~= seq![b[0]] + rb);
        } else if lex_less(ra, rb) {
            let k = choose|k: int| first_difference(ra, rb, k);
            assert forall|i: int| 0 <= i < k + 1 implies a[i] == b[i] by {
                if i > 0 {
                    assert(ra[i - 1] == rb[i - 1]);
                }
            }
            assert(first_difference(a, b, k + 1));
        } else {
            let k = choose|k: int| first_difference(rb, ra, k);
            assert forall|i: int| 0 <= i < k + 1 implies a[i] == b[i] by {
                if i > 0 {
                    assert(ra[i - 1] == rb[i - 1]);
                }
            }
            assert(first_difference(b, a, k + 1));
        }
    }
}

/// Two sequences never come before each other both ways.
pub proof fn lex_asymmetric(a: Seq<u8>, b: Seq<u8>)
    requires
        lex_less(a, b),
    ensures
        !lex_less(b, a),
        a != b,
{
    lex_irreflexive(a);
    if lex_less(b, a) {
        lex_transitive(a, b, a);
    }
}

/// Decides the order of two byte sequences.
pub fn bytes_less(a: &[u8], b: &[u8]) -> (r: bool)
    ensures
        r == lex_less(a@, b@),
{
    let mut i: usize = 0;
    while i < a.len() && i < b.len()
        invariant
            i <= a@.len(),
            i <= b@.len(),
            forall|k: int| 0 <= k < i ==> a@[k] == b@[k],
        decreases a.len() - i,
    {
        if a[i] < b[i] {
            assert(first_difference(a@, b@, i as int));
            return true;
        }
        if b[i] < a[i] {
            assert(first_difference(b@, a@, i as int));
            proof {
                lex_asymmetric(b@, a@);
            }
            return false;
        }
        i += 1;
    }
    if i < b.len() {
        assert(first_difference(a@, b@, i as int));
        true
    } else {
        proof {
            if a@.len() == b@.len() {
                assert(a@ =~= b@);
                lex_irreflexive(a@);
            } else {
                assert(first_difference(b@, a@, i as int));
                lex_asymmetric(b@, a@);
            }
        }
        false
    }
}

/// The order of texts: that of their UTF-8 encodings.
pub open spec fn text_less(a: Seq<char>, b: Seq<char>) -> bool {
    lex_less(vstd::utf8::encode_utf8(a), vstd::utf8::encode_utf8(b))
}

/// Decides the order of two texts.
pub fn str_less(a: &str, b: &str) -> (r: bool)
    ensures
        r == text_less(a@, b@),
{
    bytes_less(a.as_bytes(), b.as_bytes())
}

/// The order of texts is transitive.
pub proof fn text_transitive(a: Seq<char>, b: Seq<char>, c: Seq<char>)
    requires
        text_less(a, b),
        text_less(b, c),
    ensures
        text_less(a, c),
{
    lex_transitive(
        vstd::utf8::encode_utf8(a),
        vstd::utf8::encode_utf8(b),
        vstd::utf8::encode_utf8(c),
    );
}

/// The order of texts is total, and strict.
pub proof fn text_trichotomy(a: Seq<char>, b: Seq<char>)
    ensures
        a == b || text_less(a, b) || text_less(b, a),
        text_less(a, b) ==> a != b && !text_less(b, a),
{
    let x = vstd::utf8::encode_utf8(a);
    let y = vstd::utf8::encode_utf8(b);
    lex_total(x, y);
    vstd::utf8::encode_utf8_decode_utf8(a);
    vstd::utf8::encode_utf8_decode_utf8(b);
    if lex_less(x, y) {
        lex_asymmetric(x, y);
    }
}

} // verus!
