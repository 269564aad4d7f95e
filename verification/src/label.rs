//! The order of labels: by code point, position by position.

use vstd::prelude::*;
use vstd::std_specs::iter::IteratorSpec;

verus! {

broadcast use vstd::string::group_string_axioms;

/// `a` and `b` hold the same characters at their first `k` positions.
pub open spec fn agree_up_to(a: Seq<char>, b: Seq<char>, k: int) -> bool {
    &&& 0 <= k <= a.len()
    &&& k <= b.len()
    &&& forall|i: int| 0 <= i < k ==> a[i] == b[i]
}

/// `a` comes before `b` on account of position `k`: up to there they
/// agree, and there `a` ends while `b` goes on, or `a` holds the smaller
/// code point.
pub open spec fn label_before_at(a: Seq<char>, b: Seq<char>, k: int) -> bool {
    &&& agree_up_to(a, b, k)
    &&& k < b.len()
    &&& (k == a.len() || (a[k] as int) < (b[k] as int))
}

/// `a` comes strictly before `b` in the lexicographic order of code points.
pub open spec fn label_before(a: Seq<char>, b: Seq<char>) -> bool {
    exists|k: int| #[trigger] label_before_at(a, b, k)
}

/// Once two labels agree up to `k`, position `k` settles their order: the
/// first position where they differ, or the end of either.
pub proof fn lemma_settled_at(a: Seq<char>, b: Seq<char>, k: int)
    requires
        agree_up_to(a, b, k),
    ensures
        k < a.len() && k < b.len() && a[k] != b[k] ==> (label_before(a, b) <==> (a[k] as int) < (
            b[k] as int)),
        k == a.len() ==> (label_before(a, b) <==> k < b.len()),
        k == b.len() ==> !label_before(a, b),
{
    if k < b.len() && (k == a.len() || (a[k] as int) < (b[k] as int)) {
        assert(label_before_at(a, b, k));
    }
}

/// No label comes before itself.
pub proof fn lemma_label_before_irreflexive(a: Seq<char>)
    ensures
        !label_before(a, a),
{
    lemma_settled_at(a, a, a.len() as int);
}

/// The order of labels is transitive.
pub proof fn lemma_label_before_transitive(a: Seq<char>, b: Seq<char>, c: Seq<char>)
    requires
        label_before(a, b),
        label_before(b, c),
    ensures
        label_before(a, c),
{
    let i = choose|i: int| #[trigger] label_before_at(a, b, i);
    let j = choose|j: int| #[trigger] label_before_at(b, c, j);
    let k = if i <= j {
        i
    } else {
        j
    };
    assert(label_before_at(a, c, k));
}

/// Two labels are equal or one comes before the other.
pub proof fn lemma_label_before_total(a: Seq<char>, b: Seq<char>)
    ensures
        a == b || label_before(a, b) || label_before(b, a),
{
    lemma_first_difference(a, b, 0);
}

/// Telling two labels apart, from position `k` on.
proof fn lemma_first_difference(a: Seq<char>, b: Seq<char>, k: int)
    requires
        agree_up_to(a, b, k),
    ensures
        a == b || label_before(a, b) || label_before(b, a),
    decreases a.len() - k,
{
    if k < a.len() && k < b.len() && a[k] == b[k] {
        lemma_first_difference(a, b, k + 1);
    } else if k < b.len() && (k == a.len() || (a[k] as int) < (b[k] as int)) {
        assert(label_before_at(a, b, k));
    } else if k < a.len() {
        assert(label_before_at(b, a, k));
    }
}

/// Decides [`label_before`] in one pass over both labels.
pub fn label_precedes(a: &str, b: &str) -> (r: bool)
    ensures
        r == label_before(a@, b@),
{
    let mut left = a.chars();
    let mut right = b.chars();
    let ghost mut k: int = 0;
    loop
        invariant
            left.remaining() == a@.skip(k),
            right.remaining() == b@.skip(k),
            agree_up_to(a@, b@, k),
            left.decrease() is Some,
        decreases a@.len() - k,
    {
        let x = left.next();
        let y = right.next();
        match (x, y) {
            (Some(p), Some(q)) => {
                if p != q {
                    proof {
                        lemma_settled_at(a@, b@, k);
                    }
                    return p < q;
                }
                proof {
                    k = k + 1;
                }
            },
            (None, Some(_)) => {
                proof {
                    lemma_settled_at(a@, b@, k);
                }
                return true;
            },
            (_, None) => {
                proof {
                    lemma_settled_at(a@, b@, k);
                }
                return false;
            },
        }
    }
}

} // verus!
