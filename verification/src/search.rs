//! The least index satisfying a predicate, used to state which violation a
//! validation reports first.
use vstd::prelude::*;

verus! {

/// `i` is the least index below `n` at which `pred` holds.
pub open spec fn is_first(n: int, pred: spec_fn(int) -> bool, i: int) -> bool {
    &&& 0 <= i < n
    &&& pred(i)
    &&& forall|k: int| 0 <= k < i ==> !#[trigger] pred(k)
}

/// Some index below `n` satisfies `pred`.
pub open spec fn any_below(n: int, pred: spec_fn(int) -> bool) -> bool {
    exists|i: int| 0 <= i < n && #[trigger] pred(i)
}

/// The least index below `n` at which `pred` holds (meaningful when
/// [`any_below`] holds).
pub open spec fn first_index(n: int, pred: spec_fn(int) -> bool) -> int {
    choose|i: int| is_first(n, pred, i)
}

/// A least index is unique, so it is the one [`first_index`] names.
pub proof fn lemma_first_index(n: int, pred: spec_fn(int) -> bool, i: int)
    requires
        is_first(n, pred, i),
    ensures
        first_index(n, pred) == i,
        any_below(n, pred),
{
    let j = first_index(n, pred);
    assert(is_first(n, pred, j));
    if j < i {
        assert(!pred(j));
    } else if i < j {
        assert(!pred(i));
    }
}

/// When some index satisfies `pred`, a least one exists.
pub proof fn lemma_first_exists(n: int, pred: spec_fn(int) -> bool)
    requires
        any_below(n, pred),
    ensures
        is_first(n, pred, first_index(n, pred)),
    decreases n,
{
    let i = choose|i: int| 0 <= i < n && #[trigger] pred(i);
    if exists|k: int| 0 <= k < i && #[trigger] pred(k) {
        lemma_first_exists(i, pred);
        let j = first_index(i, pred);
        assert(is_first(n, pred, j));
        lemma_first_index(n, pred, j);
    } else {
        assert(is_first(n, pred, i));
        lemma_first_index(n, pred, i);
    }
}

} // verus!
