//! Lexicographic order on byte strings: the first differing byte decides,
//! compared unsigned; a proper prefix sorts first.
use vstd::prelude::*;
use core::cmp::Ordering;

verus! {

/// `a` sorts before `b`, and `i` is where that is decided: the bytes agree
/// before `i`, and at `i` either `a` has the smaller byte or `a` has ended
/// while `b` goes on.
pub open spec fn less_at(a: Seq<u8>, b: Seq<u8>, i: int) -> bool {
    &&& 0 <= i <= a.len()
    &&& i <= b.len()
    &&& forall|j: int| 0 <= j < i ==> a[j] == b[j]
    &&& (i < a.len() && i < b.len() && a[i] < b[i]) || (i == a.len() && i < b.len())
}

/// `a` sorts strictly before `b`.
pub open spec fn lex_less(a: Seq<u8>, b: Seq<u8>) -> bool {
    exists|i: int| less_at(a, b, i)
}

/// `a` sorts before `b` or equals it.
pub open spec fn lex_le(a: Seq<u8>, b: Seq<u8>) -> bool {
    a == b || lex_less(a, b)
}

/// Where the first difference is a smaller byte of `a`, `a` sorts first.
proof fn lemma_differ_at(a: Seq<u8>, b: Seq<u8>, k: int)
    requires
        0 <= k < a.len(),
        k < b.len(),
        forall|j: int| 0 <= j < k ==> a[j] == b[j],
        a[k] < b[k],
    ensures
        lex_less(a, b),
        !lex_less(b, a),
        a != b,
{
    assert(less_at(a, b, k));
    assert forall|j: int| !less_at(b, a, j) by {
        if less_at(b, a, j) && j > k {
            assert(b[k] == a[k]);
        }
    }
    assert(a[k] != b[k]);
}

/// Where `a` is a proper prefix of `b`, `a` sorts first.
proof fn lemma_proper_prefix(a: Seq<u8>, b: Seq<u8>)
    requires
        a.len() < b.len(),
        forall|j: int| 0 <= j < a.len() ==> a[j] == b[j],
    ensures
        lex_less(a, b),
        !lex_less(b, a),
        a != b,
{
    assert(less_at(a, b, a.len() as int));
    assert forall|j: int| !less_at(b, a, j) by {}
}

/// Compares two byte strings in lexicographic order.
pub fn compare(first: &[u8], second: &[u8]) -> (r: Ordering)
    ensures
        (r == Ordering::Less) == lex_less(first@, second@),
        (r == Ordering::Equal) == (first@ == second@),
        (r == Ordering::Greater) == lex_less(second@, first@),
{
    let n = if first.len() < second.len() {
        first.len()
    } else {
        second.len()
    };
    let mut i: usize = 0;
    while i < n
        invariant
            n <= first@.len(),
            n <= second@.len(),
            n == first@.len() || n == second@.len(),
            i <= n,
            forall|j: int| 0 <= j < i ==> first@[j] == second@[j],
        decreases n - i,
    {
        if first[i] < second[i] {
            proof {
                lemma_differ_at(first@, second@, i as int);
            }
            return Ordering::Less;
        }
        if first[i] > second[i] {
            proof {
                lemma_differ_at(second@, first@, i as int);
            }
            return Ordering::Greater;
        }
        i = i + 1;
    }
    if first.len() < second.len() {
        proof {
            lemma_proper_prefix(first@, second@);
        }
        Ordering::Less
    } else if first.len() > second.len() {
        proof {
            lemma_proper_prefix(second@, first@);
        }
        Ordering::Greater
    } else {
        assert(first@ =~= second@);
        assert forall|j: int| !less_at(first@, second@, j) by {}
        Ordering::Equal
    }
}

} // verus!
