//! Traversal of the compatible selections across any number of candidate
//! sets, in lexicographic order of the selected point indices.
use vstd::prelude::*;

use crate::exploration::candidate::{CandidateColumns, CandidateSchemaError, CandidateSet, SchemaFault, candidate_column_indices, lemma_position_of, lemma_schema_uniform, point_names, point_value, position_of, schema_fault};
use crate::search::{any_below, first_index, is_first, lemma_first_index};
use crate::value::{canonical_bits, canonical_join_value, finite_value};

use crate::text::{append_decimal, decimal};

verus! {

/// Equality between one column of each of two candidate sets, named by their
/// position in traversal order.
#[derive(Debug, Clone, PartialEq, Eq)]
pub struct CandidateCombinationEquality {
    pub left_set: usize,
    pub left_column: String,
    pub right_set: usize,
    pub right_column: String,
}

impl CandidateCombinationEquality {
    /// Creates an equality between two candidate-set columns.
    pub fn new(left_set: usize, left_column: String, right_set: usize, right_column: String) -> (equality: Self)
        ensures
            equality.left_set == left_set,
            equality.left_column@ == left_column@,
            equality.right_set == right_set,
            equality.right_column@ == right_column@,
    {
        CandidateCombinationEquality { left_set, left_column, right_set, right_column }
    }
}

// ---------------------------------------------------------------------------
// Compatibility and lexicographic order
// ---------------------------------------------------------------------------

/// Offset of the column named `name` in the schema of `set`.
pub open spec fn column_position(set: CandidateSet, name: Seq<char>) -> int {
    match position_of(point_names(set, 0), name) {
        Some(i) => i,
        None => 0,
    }
}

/// Canonical join value of column `name` of point `p`.
pub open spec fn join_value(set: CandidateSet, p: int, name: Seq<char>) -> u64 {
    canonical_bits(point_value(set, p, column_position(set, name)))
}

/// A selection picks one point of every set and satisfies every equality.
pub open spec fn combination_compatible(
    sets: Seq<CandidateSet>,
    equalities: Seq<CandidateCombinationEquality>,
    selection: Seq<usize>,
) -> bool {
    &&& selection.len() == sets.len()
    &&& forall|d: int| 0 <= d < sets.len() ==> #[trigger] selection[d] < sets[d].points@.len()
    &&& forall|k: int|
        0 <= k < equalities.len() ==> join_value(
            sets[equalities[k].left_set as int],
            selection[equalities[k].left_set as int] as int,
            #[trigger] equalities[k].left_column@,
        ) == join_value(
            sets[equalities[k].right_set as int],
            selection[equalities[k].right_set as int] as int,
            equalities[k].right_column@,
        )
}

/// The first `i` entries of `a` and `b` agree.
pub open spec fn agree(a: Seq<usize>, b: Seq<usize>, i: int) -> bool {
    forall|j: int| 0 <= j < i ==> a[j] == b[j]
}

/// `a` comes before `b` in lexicographic order (equal lengths).
pub open spec fn lex_less(a: Seq<usize>, b: Seq<usize>) -> bool {
    exists|i: int| 0 <= i < a.len() && #[trigger] agree(a, b, i) && a[i] < b[i]
}

/// `u` comes after `last`, or anything does when nothing came yet.
pub open spec fn comes_after(last: Option<Seq<usize>>, u: Seq<usize>) -> bool {
    match last {
        Some(l) => lex_less(l, u),
        None => true,
    }
}

// ---------------------------------------------------------------------------
// Constraint plan
// ---------------------------------------------------------------------------

/// One equality, attached to its later set (`dimension`): the canonical join
/// values of the earlier set (`prior`) and of the later set, per point.
#[derive(Debug, Clone)]
pub struct CombinationConstraint {
    pub dimension: usize,
    pub prior: usize,
    pub prior_keys: Vec<u64>,
    pub current_keys: Vec<u64>,
}

/// Every constraint joins an earlier set to a later one and has one key per
/// point of each.
pub open spec fn plan_ok(counts: Seq<usize>, cons: Seq<CombinationConstraint>) -> bool {
    forall|k: int|
        0 <= k < cons.len() ==> {
            &&& #[trigger] cons[k].prior < cons[k].dimension
            &&& cons[k].dimension < counts.len()
            &&& cons[k].prior_keys@.len() == counts[cons[k].prior as int]
            &&& cons[k].current_keys@.len() == counts[cons[k].dimension as int]
        }
}

/// The selection satisfies constraint `c`.
pub open spec fn satisfied(c: CombinationConstraint, sel: Seq<usize>) -> bool {
    c.current_keys@[sel[c.dimension as int] as int] == c.prior_keys@[sel[c.prior as int] as int]
}

/// The first `d` entries are in range and meet every constraint among them.
pub open spec fn prefix_ok(
    counts: Seq<usize>,
    cons: Seq<CombinationConstraint>,
    sel: Seq<usize>,
    d: int,
) -> bool {
    &&& forall|j: int| 0 <= j < d ==> #[trigger] sel[j] < counts[j]
    &&& forall|k: int| 0 <= k < cons.len() && #[trigger] cons[k].dimension < d ==> satisfied(cons[k], sel)
}

/// A full selection meeting every constraint.
pub open spec fn complete(counts: Seq<usize>, cons: Seq<CombinationConstraint>, sel: Seq<usize>) -> bool {
    sel.len() == counts.len() && prefix_ok(counts, cons, sel, counts.len() as int)
}

/// `u` keeps the first `d` entries of `base` and has at least `from` at `d`.
pub open spec fn extends(base: Seq<usize>, d: int, from: int, u: Seq<usize>) -> bool {
    u.len() == base.len() && agree(base, u, d) && u[d] >= from
}

/// Prefix validity depends only on the prefix.
proof fn lemma_prefix_agree(
    counts: Seq<usize>,
    cons: Seq<CombinationConstraint>,
    a: Seq<usize>,
    b: Seq<usize>,
    d: int,
)
    requires
        plan_ok(counts, cons),
        prefix_ok(counts, cons, a, d),
        agree(a, b, d),
    ensures
        prefix_ok(counts, cons, b, d),
{
    assert forall|j: int| 0 <= j < d implies #[trigger] b[j] < counts[j] by {
        assert(a[j] == b[j]);
    }
    assert forall|k: int| 0 <= k < cons.len() && #[trigger] cons[k].dimension < d implies satisfied(
        cons[k],
        b,
    ) by {
        assert(cons[k].prior < cons[k].dimension);
        assert(a[cons[k].dimension as int] == b[cons[k].dimension as int]);
        assert(a[cons[k].prior as int] == b[cons[k].prior as int]);
    }
}

/// Returns whether point `c` of set `d` meets every constraint of `d` given
/// the earlier entries of `sel`.
fn fits(counts: &Vec<usize>, cons: &Vec<CombinationConstraint>, sel: &Vec<usize>, d: usize, c: usize) -> (ok: bool)
    requires
        plan_ok(counts@, cons@),
        sel@.len() == counts@.len(),
        d < counts@.len(),
        c < counts@[d as int],
        prefix_ok(counts@, cons@, sel@, d as int),
    ensures
        ok == (forall|k: int|
            0 <= k < cons@.len() && #[trigger] cons@[k].dimension == d ==> cons@[k].current_keys@[c as int]
                == cons@[k].prior_keys@[sel@[cons@[k].prior as int] as int]),
{
    let m = cons.len();
    let mut k: usize = 0;
    while k < m
        invariant
            m == cons@.len(),
            plan_ok(counts@, cons@),
            sel@.len() == counts@.len(),
            d < counts@.len(),
            c < counts@[d as int],
            prefix_ok(counts@, cons@, sel@, d as int),
            k <= m,
            forall|j: int|
                0 <= j < k && #[trigger] cons@[j].dimension == d ==> cons@[j].current_keys@[c as int]
                    == cons@[j].prior_keys@[sel@[cons@[j].prior as int] as int],
        decreases m - k,
    {
        let constraint = &cons[k];
        if constraint.dimension == d {
            assert(cons@[k as int].prior < d);
            assert(sel@[constraint.prior as int] < counts@[constraint.prior as int]);
            if constraint.current_keys[c] != constraint.prior_keys[sel[constraint.prior]] {
                return false;
            }
        }
        k = k + 1;
    }
    true
}

/// Finds the least full selection that keeps the first `d` entries of `sel`
/// and has at least `from` at `d`, leaving it in `sel`.
fn search(
    counts: &Vec<usize>,
    cons: &Vec<CombinationConstraint>,
    sel: &mut Vec<usize>,
    d: usize,
    from: usize,
) -> (found: bool)
    requires
        plan_ok(counts@, cons@),
        old(sel)@.len() == counts@.len(),
        d < counts@.len(),
        prefix_ok(counts@, cons@, old(sel)@, d as int),
    ensures
        final(sel)@.len() == old(sel)@.len(),
        agree(old(sel)@, final(sel)@, d as int),
        found ==> complete(counts@, cons@, final(sel)@) && extends(old(sel)@, d as int, from as int, final(sel)@),
        found ==> forall|u: Seq<usize>|
            #[trigger] complete(counts@, cons@, u) && extends(old(sel)@, d as int, from as int, u)
                ==> final(sel)@ == u || lex_less(final(sel)@, u),
        !found ==> forall|u: Seq<usize>|
            #[trigger] complete(counts@, cons@, u) ==> !extends(old(sel)@, d as int, from as int, u),
    decreases counts@.len() - d,
{
    let ghost base = sel@;
    let n = counts.len();
    let count = counts[d];
    let mut c = from;
    while c < count
        invariant
            plan_ok(counts@, cons@),
            n == counts@.len(),
            d < n,
            count == counts@[d as int],
            sel@.len() == n,
            base == old(sel)@,
            base.len() == n,
            agree(base, sel@, d as int),
            prefix_ok(counts@, cons@, base, d as int),
            from <= c,
            forall|u: Seq<usize>|
                #[trigger] complete(counts@, cons@, u) && extends(base, d as int, from as int, u) ==> u[d as int]
                    >= c,
        decreases count - c,
    {
        proof {
            lemma_prefix_agree(counts@, cons@, base, sel@, d as int);
        }
        let ok = fits(counts, cons, sel, d, c);
        if ok {
            sel.set(d, c);
            let ghost mid = sel@;
            assert(agree(base, mid, d as int));
            proof {
                lemma_prefix_agree(counts@, cons@, base, mid, d as int);
                assert forall|k: int| 0 <= k < cons@.len() && #[trigger] cons@[k].dimension < d + 1 implies satisfied(
                    cons@[k],
                    mid,
                ) by {
                    if cons@[k].dimension == d {
                        assert(cons@[k].prior < d);
                    }
                }
                assert(prefix_ok(counts@, cons@, mid, d + 1));
            }
            if d + 1 == n {
                proof {
                    assert forall|u: Seq<usize>|
                        #[trigger] complete(counts@, cons@, u) && extends(base, d as int, from as int, u)
                            implies mid == u || lex_less(mid, u) by {
                        if u[d as int] == c {
                            assert(agree(mid, u, n as int));
                            assert(mid =~= u);
                        } else {
                            assert(agree(mid, u, d as int));
                        }
                    }
                }
                return true;
            }
            let found = search(counts, cons, sel, d + 1, 0);
            if found {
                proof {
                    assert(agree(base, sel@, d as int));
                    assert forall|u: Seq<usize>|
                        #[trigger] complete(counts@, cons@, u) && extends(base, d as int, from as int, u)
                            implies sel@ == u || lex_less(sel@, u) by {
                        if u[d as int] == c {
                            assert(extends(mid, d + 1, 0, u));
                        } else {
                            assert(agree(sel@, u, d as int));
                        }
                    }
                }
                return true;
            }
            proof {
                assert forall|u: Seq<usize>|
                    #[trigger] complete(counts@, cons@, u) && extends(base, d as int, from as int, u)
                        implies u[d as int] >= c + 1 by {
                    if u[d as int] == c {
                        assert(extends(mid, d + 1, 0, u));
                    }
                }
            }
        } else {
            proof {
                assert forall|u: Seq<usize>|
                    #[trigger] complete(counts@, cons@, u) && extends(base, d as int, from as int, u)
                        implies u[d as int] >= c + 1 by {
                    if u[d as int] == c {
                        let k = choose|k: int|
                            0 <= k < cons@.len() && #[trigger] cons@[k].dimension == d && !(
                            cons@[k].current_keys@[c as int] == cons@[k].prior_keys@[sel@[cons@[k].prior as int] as int]);
                        assert(cons@[k].prior < d);
                        assert(sel@[cons@[k].prior as int] == u[cons@[k].prior as int]);
                        assert(cons@[k].dimension < n);
                        assert(satisfied(cons@[k], u));
                    }
                }
            }
        }
        c = c + 1;
    }
    proof {
        assert forall|u: Seq<usize>| #[trigger] complete(counts@, cons@, u) implies !extends(
            base,
            d as int,
            from as int,
            u,
        ) by {
            if extends(base, d as int, from as int, u) {
                assert(u[d as int] < counts@[d as int]);
            }
        }
    }
    false
}

/// Lazy, lexicographically ordered traversal of the compatible selections.
#[derive(Debug)]
pub struct CandidateCombinationJoin {
    counts: Vec<usize>,
    constraints: Vec<CombinationConstraint>,
    selection: Vec<usize>,
    started: bool,
    exhausted: bool,
}

impl CandidateCombinationJoin {
    /// Number of points of each set, in traversal order.
    pub closed spec fn counts(&self) -> Seq<usize> {
        self.counts@
    }

    /// A full selection is compatible with every equality of the traversal.
    pub closed spec fn compatible(&self, sel: Seq<usize>) -> bool {
        complete(self.counts@, self.constraints@, sel)
    }

    /// The selection returned last, if any.
    pub closed spec fn last(&self) -> Option<Seq<usize>> {
        if self.started {
            Some(self.selection@)
        } else {
            None
        }
    }

    /// No selection remains.
    pub closed spec fn is_exhausted(&self) -> bool {
        self.exhausted
    }

    /// Internal consistency of the traversal.
    pub closed spec fn wf(&self) -> bool {
        &&& plan_ok(self.counts@, self.constraints@)
        &&& self.selection@.len() == self.counts@.len()
        &&& self.started ==> self.compatible(self.selection@)
        &&& self.exhausted ==> forall|u: Seq<usize>| #[trigger] self.compatible(u) ==> !comes_after(self.last(), u)
    }

    /// Returns the number of set indices in each selection.
    pub fn selection_len(&self) -> (n: usize)
        requires
            self.wf(),
        ensures
            n == self.counts().len(),
    {
        self.selection.len()
    }

    /// Returns the least compatible selection after the one returned last
    /// (the least of all on the first call), or `None` when there is none.
    pub fn next_selection(&mut self) -> (selection: Option<Vec<usize>>)
        requires
            old(self).wf(),
        ensures
            final(self).wf(),
            final(self).counts() == old(self).counts(),
            forall|u: Seq<usize>| #[trigger] final(self).compatible(u) == old(self).compatible(u),
            match selection {
                Some(s) => {
                    &&& !old(self).is_exhausted()
                    &&& old(self).compatible(s@)
                    &&& comes_after(old(self).last(), s@)
                    &&& forall|u: Seq<usize>|
                        #[trigger] old(self).compatible(u) && comes_after(old(self).last(), u) ==> s@ == u
                            || lex_less(s@, u)
                    &&& final(self).last() == Some(s@)
                    &&& !final(self).is_exhausted()
                },
                None => {
                    &&& final(self).is_exhausted()
                    &&& final(self).last() == old(self).last()
                    &&& forall|u: Seq<usize>| #[trigger] old(self).compatible(u) ==> !comes_after(old(self).last(), u)
                },
            },
    {
        if self.exhausted {
            return None;
        }
        let n = self.counts.len();
        if n == 0 {
            if self.started {
                self.exhausted = true;
                proof {
                    assert forall|u: Seq<usize>| #[trigger] self.compatible(u) implies !comes_after(
                        self.last(),
                        u,
                    ) by {
                        if lex_less(self.selection@, u) {
                            let i = choose|i: int| 0 <= i < self.selection@.len() && #[trigger] agree(self.selection@, u, i) && self.selection@[i] < u[i];
                        }
                    }
                }
                return None;
            }
            self.started = true;
            proof {
                assert(prefix_ok(self.counts@, self.constraints@, self.selection@, 0));
                assert forall|u: Seq<usize>|
                    #[trigger] old(self).compatible(u) && comes_after(old(self).last(), u) implies self.selection@ == u
                        || lex_less(self.selection@, u) by {
                    assert(self.selection@ =~= u);
                }
            }
            return Some(self.selection.clone());
        }
        if !self.started {
            let ghost before = self.selection@;
            assert(prefix_ok(self.counts@, self.constraints@, before, 0));
            let found = search(&self.counts, &self.constraints, &mut self.selection, 0, 0);
            if found {
                self.started = true;
                proof {
                    assert forall|u: Seq<usize>|
                        #[trigger] old(self).compatible(u) && comes_after(old(self).last(), u) implies self.selection@ == u
                            || lex_less(self.selection@, u) by {
                        assert(extends(before, 0, 0, u));
                    }
                }
                return Some(self.selection.clone());
            }
            self.exhausted = true;
            proof {
                assert forall|u: Seq<usize>| #[trigger] self.compatible(u) implies !comes_after(
                    self.last(),
                    u,
                ) by {
                    assert(old(self).compatible(u));
                    assert(extends(before, 0, 0, u));
                }
            }
            return None;
        }
        let ghost last = self.selection@;
        let saved = self.selection.clone();
        assert(saved@ =~= last);
        let mut d: usize = n;
        while d > 0
            invariant
                plan_ok(self.counts@, self.constraints@),
                n == self.counts@.len(),
                self.counts@ == old(self).counts@,
                self.constraints@ == old(self).constraints@,
                self.started,
                !self.exhausted,
                !old(self).exhausted,
                old(self).started,
                last == old(self).selection@,
                saved@ == last,
                complete(self.counts@, self.constraints@, last),
                self.selection@.len() == n,
                d <= n,
                agree(last, self.selection@, d as int),
                forall|u: Seq<usize>|
                    #[trigger] complete(self.counts@, self.constraints@, u) && lex_less(last, u) ==> !agree(
                        last,
                        u,
                        d as int,
                    ),
            decreases d,
        {
            d = d - 1;
            let ghost before = self.selection@;
            proof {
                assert(agree(last, before, d as int + 1));
                lemma_prefix_agree(self.counts@, self.constraints@, last, before, d as int);
            }
            let from = self.selection[d] + 1;
            let found = search(&self.counts, &self.constraints, &mut self.selection, d, from);
            if found {
                proof {
                    let t = self.selection@;
                    assert(agree(last, t, d as int));
                    assert(lex_less(last, t)) by {
                        assert(agree(last, t, d as int));
                    }
                    assert forall|u: Seq<usize>|
                        #[trigger] old(self).compatible(u) && comes_after(old(self).last(), u) implies t == u
                            || lex_less(t, u) by {
                        let i = choose|i: int| 0 <= i < last.len() && #[trigger] agree(last, u, i) && last[i] < u[i];
                        if i > d {
                            assert(agree(last, u, d + 1));
                        } else if i == d {
                            assert(extends(before, d as int, from as int, u));
                        } else {
                            assert(agree(t, u, i));
                        }
                    }
                    assert(old(self).last() == Some(last));
                    assert(comes_after(old(self).last(), t));
                    assert(old(self).compatible(t));
                }
                let result = self.selection.clone();
                assert(result@ == self.selection@);
                return Some(result);
            }
            proof {
                assert forall|u: Seq<usize>|
                    #[trigger] complete(self.counts@, self.constraints@, u) && lex_less(last, u) implies !agree(
                        last,
                        u,
                        d as int,
                    ) by {
                    if agree(last, u, d as int) {
                        let i = choose|i: int| 0 <= i < last.len() && #[trigger] agree(last, u, i) && last[i] < u[i];
                        if i > d {
                            assert(agree(last, u, d + 1));
                        } else if i == d {
                            assert(extends(before, d as int, from as int, u));
                        } else {
                            assert(last[i] == u[i]);
                        }
                    }
                }
                assert(agree(last, self.selection@, d as int));
            }
        }
        self.selection = saved;
        self.exhausted = true;
        proof {
            assert forall|u: Seq<usize>| #[trigger] self.compatible(u) implies !comes_after(
                self.last(),
                u,
            ) by {
                if lex_less(last, u) {
                    assert(agree(last, u, 0));
                }
            }
        }
        None
    }
}

// ---------------------------------------------------------------------------
// Construction
// ---------------------------------------------------------------------------

/// Errors produced while preparing a multi-set traversal.
#[derive(Debug, Clone, PartialEq, Eq)]
pub enum CandidateCombinationJoinError {
    EmptyCandidateSet { set: String },
    DuplicateColumn { set: String, point_index: usize, column: String },
    ColumnCountMismatch { set: String, point_index: usize, expected: usize, actual: usize },
    ColumnNameMismatch {
        set: String,
        point_index: usize,
        column_index: usize,
        expected: String,
        actual: String,
    },
    CandidateSetIndexOutOfBounds { set_index: usize, set_count: usize },
    SameSetEquality { set_index: usize, left_column: String, right_column: String },
    MissingColumn { set: String, column: String },
    NonFiniteJoinValue { set: String, point_index: usize, column: String },
}

impl CandidateCombinationJoinError {
    /// The message of the error.
    pub open spec fn message(&self) -> Seq<char> {
        match self {
            CandidateCombinationJoinError::EmptyCandidateSet { set } => "candidate set '"@ + set@ + "' is empty"@,
            CandidateCombinationJoinError::DuplicateColumn { set, point_index, column } => "candidate set '"@ + set@ + "' point "@ + decimal(point_index as nat) + " contains duplicate column '"@ + column@ + "'"@,
            CandidateCombinationJoinError::ColumnCountMismatch { set, point_index, expected, actual } => "candidate set '"@ + set@ + "' point "@ + decimal(point_index as nat) + " has "@ + decimal(actual as nat) + " columns, expected "@ + decimal(expected as nat),
            CandidateCombinationJoinError::ColumnNameMismatch { set, point_index, column_index, expected, actual } => "candidate set '"@ + set@ + "' point "@ + decimal(point_index as nat) + " column "@ + decimal(column_index as nat) + " is '"@ + actual@ + "', expected '"@ + expected@ + "'"@,
            CandidateCombinationJoinError::CandidateSetIndexOutOfBounds { set_index, set_count } => "candidate set index "@ + decimal(set_index as nat) + " is outside the "@ + decimal(set_count as nat) + " supplied sets"@,
            CandidateCombinationJoinError::SameSetEquality { set_index, left_column, right_column } => "candidate equality cannot compare '"@ + left_column@ + "' and '"@ + right_column@ + "' within set "@ + decimal(set_index as nat),
            CandidateCombinationJoinError::MissingColumn { set, column } => "candidate set '"@ + set@ + "' has no column '"@ + column@ + "'"@,
            CandidateCombinationJoinError::NonFiniteJoinValue { set, point_index, column } => "candidate set '"@ + set@ + "' point "@ + decimal(point_index as nat) + " has a non-finite join value in '"@ + column@ + "'"@,
        }
    }

    /// Returns the message of the error.
    pub fn to_string(&self) -> (text: String)
        ensures
            text@ == self.message(),
    {
        match self {
            CandidateCombinationJoinError::EmptyCandidateSet { set } => {
                let mut text = String::from_str("candidate set '");
                text.append(set.as_str());
                text.append("' is empty");
                text
            },
            CandidateCombinationJoinError::DuplicateColumn { set, point_index, column } => {
                let mut text = String::from_str("candidate set '");
                text.append(set.as_str());
                text.append("' point ");
                append_decimal(&mut text, *point_index);
                text.append(" contains duplicate column '");
                text.append(column.as_str());
                text.append("'");
                text
            },
            CandidateCombinationJoinError::ColumnCountMismatch { set, point_index, expected, actual } => {
                let mut text = String::from_str("candidate set '");
                text.append(set.as_str());
                text.append("' point ");
                append_decimal(&mut text, *point_index);
                text.append(" has ");
                append_decimal(&mut text, *actual);
                text.append(" columns, expected ");
                append_decimal(&mut text, *expected);
                text
            },
            CandidateCombinationJoinError::ColumnNameMismatch { set, point_index, column_index, expected, actual } => {
                let mut text = String::from_str("candidate set '");
                text.append(set.as_str());
                text.append("' point ");
                append_decimal(&mut text, *point_index);
                text.append(" column ");
                append_decimal(&mut text, *column_index);
                text.append(" is '");
                text.append(actual.as_str());
                text.append("', expected '");
                text.append(expected.as_str());
                text.append("'");
                text
            },
            CandidateCombinationJoinError::CandidateSetIndexOutOfBounds { set_index, set_count } => {
                let mut text = String::from_str("candidate set index ");
                append_decimal(&mut text, *set_index);
                text.append(" is outside the ");
                append_decimal(&mut text, *set_count);
                text.append(" supplied sets");
                text
            },
            CandidateCombinationJoinError::SameSetEquality { set_index, left_column, right_column } => {
                let mut text = String::from_str("candidate equality cannot compare '");
                text.append(left_column.as_str());
                text.append("' and '");
                text.append(right_column.as_str());
                text.append("' within set ");
                append_decimal(&mut text, *set_index);
                text
            },
            CandidateCombinationJoinError::MissingColumn { set, column } => {
                let mut text = String::from_str("candidate set '");
                text.append(set.as_str());
                text.append("' has no column '");
                text.append(column.as_str());
                text.append("'");
                text
            },
            CandidateCombinationJoinError::NonFiniteJoinValue { set, point_index, column } => {
                let mut text = String::from_str("candidate set '");
                text.append(set.as_str());
                text.append("' point ");
                append_decimal(&mut text, *point_index);
                text.append(" has a non-finite join value in '");
                text.append(column.as_str());
                text.append("'");
                text
            },
        }
    }
}

/// The candidate sets behind a slice of references.
pub open spec fn deref_sets(sets: Seq<&CandidateSet>) -> Seq<CandidateSet> {
    sets.map_values(|set: &CandidateSet| *set)
}

/// `counts` holds the number of points of each set.
pub open spec fn counts_of(sets: Seq<CandidateSet>, counts: Seq<usize>) -> bool {
    counts.len() == sets.len() && forall|j: int| 0 <= j < sets.len() ==> #[trigger] counts[j] == sets[j].points@.len()
}

/// The first failure met while preparing a traversal.
pub enum CombinationFault {
    Schema { set: int, fault: SchemaFault },
    SetIndexOutOfBounds { set_index: usize },
    SameSetEquality { equality: int },
    MissingColumn { equality: int, left: bool },
    NonFiniteJoinValue { equality: int, left: bool, point: int },
}

/// Set `i` violates its column schema.
pub open spec fn schema_pred(sets: Seq<CandidateSet>) -> spec_fn(int) -> bool {
    |i: int| schema_fault(sets[i]) is Some
}

/// Point `p` holds a non-finite value in column `name`.
pub open spec fn nonfinite_pred(set: CandidateSet, name: Seq<char>) -> spec_fn(int) -> bool {
    |p: int| !finite_value(point_value(set, p, column_position(set, name)))
}

/// Column `name` is absent from the set.
pub open spec fn column_missing(set: CandidateSet, name: Seq<char>) -> bool {
    position_of(point_names(set, 0), name) is None
}

/// The first problem of equality `k`: a set index out of range (left first),
/// both sides in one set, a missing column (left first), then a non-finite
/// value (left column first, by point).
pub open spec fn equality_fault(
    sets: Seq<CandidateSet>,
    e: CandidateCombinationEquality,
    k: int,
) -> Option<CombinationFault> {
    let n = sets.len();
    if e.left_set >= n {
        Some(CombinationFault::SetIndexOutOfBounds { set_index: e.left_set })
    } else if e.right_set >= n {
        Some(CombinationFault::SetIndexOutOfBounds { set_index: e.right_set })
    } else if e.left_set == e.right_set {
        Some(CombinationFault::SameSetEquality { equality: k })
    } else {
        let ls = sets[e.left_set as int];
        let rs = sets[e.right_set as int];
        if column_missing(ls, e.left_column@) {
            Some(CombinationFault::MissingColumn { equality: k, left: true })
        } else if column_missing(rs, e.right_column@) {
            Some(CombinationFault::MissingColumn { equality: k, left: false })
        } else if any_below(ls.points@.len() as int, nonfinite_pred(ls, e.left_column@)) {
            Some(
                CombinationFault::NonFiniteJoinValue {
                    equality: k,
                    left: true,
                    point: first_index(ls.points@.len() as int, nonfinite_pred(ls, e.left_column@)),
                },
            )
        } else if any_below(rs.points@.len() as int, nonfinite_pred(rs, e.right_column@)) {
            Some(
                CombinationFault::NonFiniteJoinValue {
                    equality: k,
                    left: false,
                    point: first_index(rs.points@.len() as int, nonfinite_pred(rs, e.right_column@)),
                },
            )
        } else {
            None
        }
    }
}

/// Equality `k` has a problem.
pub open spec fn equality_fault_pred(
    sets: Seq<CandidateSet>,
    equalities: Seq<CandidateCombinationEquality>,
) -> spec_fn(int) -> bool {
    |k: int| equality_fault(sets, equalities[k], k) is Some
}

/// What preparing the traversal reports: the first set whose schema is
/// invalid, then the first equality with a problem.
pub open spec fn combination_fault(
    sets: Seq<CandidateSet>,
    equalities: Seq<CandidateCombinationEquality>,
) -> Option<CombinationFault> {
    if any_below(sets.len() as int, schema_pred(sets)) {
        let i = first_index(sets.len() as int, schema_pred(sets));
        Some(CombinationFault::Schema { set: i, fault: schema_fault(sets[i])->0 })
    } else if any_below(equalities.len() as int, equality_fault_pred(sets, equalities)) {
        let k = first_index(equalities.len() as int, equality_fault_pred(sets, equalities));
        equality_fault(sets, equalities[k], k)
    } else {
        None
    }
}

impl CandidateCombinationJoinError {
    /// Converts a schema violation, keeping its fields.
    pub fn from_schema(error: CandidateSchemaError) -> (converted: Self)
        ensures
            forall|set: CandidateSet, fault: SchemaFault|
                error.reports(set, fault) ==> #[trigger] converted.reports_schema(set, fault),
    {
        match error {
            CandidateSchemaError::EmptySet { set } => CandidateCombinationJoinError::EmptyCandidateSet { set },
            CandidateSchemaError::DuplicateColumn { set, point_index, column } => {
                CandidateCombinationJoinError::DuplicateColumn { set, point_index, column }
            },
            CandidateSchemaError::ColumnCountMismatch { set, point_index, expected, actual } => {
                CandidateCombinationJoinError::ColumnCountMismatch { set, point_index, expected, actual }
            },
            CandidateSchemaError::ColumnNameMismatch {
                set,
                point_index,
                column_index,
                expected,
                actual,
            } => CandidateCombinationJoinError::ColumnNameMismatch {
                set,
                point_index,
                column_index,
                expected,
                actual,
            },
        }
    }

    /// This error reports schema violation `fault` of `set`.
    pub open spec fn reports_schema(self, set: CandidateSet, fault: SchemaFault) -> bool {
        match (self, fault) {
            (CandidateCombinationJoinError::EmptyCandidateSet { set: name }, SchemaFault::EmptySet) => name@
                == set.name@,
            (
                CandidateCombinationJoinError::DuplicateColumn { set: name, point_index, column: name_col },
                SchemaFault::DuplicateColumn { point, column },
            ) => name@ == set.name@ && point_index == point && name_col@ == point_names(
                set,
                point,
            )[column],
            (
                CandidateCombinationJoinError::ColumnCountMismatch { set: name, point_index, expected, actual },
                SchemaFault::ColumnCountMismatch { point },
            ) => name@ == set.name@ && point_index == point && expected == point_names(set, 0).len()
                && actual == point_names(set, point).len(),
            (
                CandidateCombinationJoinError::ColumnNameMismatch {
                    set: name,
                    point_index,
                    column_index,
                    expected,
                    actual,
                },
                SchemaFault::ColumnNameMismatch { point, column },
            ) => name@ == set.name@ && point_index == point && column_index == column && expected@
                == point_names(set, 0)[column] && actual@ == point_names(set, point)[column],
            _ => false,
        }
    }

    /// This error reports `fault` of the traversal of `sets` under `equalities`.
    pub open spec fn reports(
        self,
        sets: Seq<CandidateSet>,
        equalities: Seq<CandidateCombinationEquality>,
        fault: CombinationFault,
    ) -> bool {
        match fault {
            CombinationFault::Schema { set, fault } => self.reports_schema(sets[set], fault),
            CombinationFault::SetIndexOutOfBounds { set_index } => self
                == CandidateCombinationJoinError::CandidateSetIndexOutOfBounds {
                set_index,
                set_count: sets.len() as usize,
            },
            CombinationFault::SameSetEquality { equality } => self matches CandidateCombinationJoinError::SameSetEquality {
                set_index,
                left_column,
                right_column,
            } && set_index == equalities[equality].left_set && left_column@
                == equalities[equality].left_column@ && right_column@
                == equalities[equality].right_column@,
            CombinationFault::MissingColumn { equality, left } => self matches CandidateCombinationJoinError::MissingColumn {
                set,
                column,
            } && if left {
                set@ == sets[equalities[equality].left_set as int].name@ && column@
                    == equalities[equality].left_column@
            } else {
                set@ == sets[equalities[equality].right_set as int].name@ && column@
                    == equalities[equality].right_column@
            },
            CombinationFault::NonFiniteJoinValue { equality, left, point } => self matches CandidateCombinationJoinError::NonFiniteJoinValue {
                set,
                point_index,
                column,
            } && point_index == point && if left {
                set@ == sets[equalities[equality].left_set as int].name@ && column@
                    == equalities[equality].left_column@
            } else {
                set@ == sets[equalities[equality].right_set as int].name@ && column@
                    == equalities[equality].right_column@
            },
        }
    }
}

/// Canonical join values of column `name` of every point.
pub open spec fn keys_for(set: CandidateSet, name: Seq<char>) -> Seq<u64> {
    Seq::new(set.points@.len(), |p: int| join_value(set, p, name))
}

/// Constraint `c` enforces equality `e` between the sets of `sets`.
pub open spec fn enforces(sets: Seq<CandidateSet>, e: CandidateCombinationEquality, c: CombinationConstraint) -> bool {
    let l = e.left_set as int;
    let r = e.right_set as int;
    let lk = keys_for(sets[l], e.left_column@);
    let rk = keys_for(sets[r], e.right_column@);
    &&& 0 <= l < sets.len()
    &&& 0 <= r < sets.len()
    &&& if l < r {
        c.prior == l && c.dimension == r && c.prior_keys@ == lk && c.current_keys@ == rk
    } else {
        r < l && c.prior == r && c.dimension == l && c.prior_keys@ == rk && c.current_keys@ == lk
    }
}

/// Canonical join values of the column at `offset`, or the first point whose
/// value there is not finite.
fn column_keys(set: &CandidateSet, offset: usize, Ghost(name): Ghost<Seq<char>>) -> (result: Result<Vec<u64>, usize>)
    requires
        offset == column_position(*set, name),
        forall|p: int| 0 <= p < set.points@.len() ==> offset < #[trigger] set.points@[p].values@.len(),
    ensures
        match result {
            Ok(keys) => keys@ == keys_for(*set, name) && !any_below(
                set.points@.len() as int,
                nonfinite_pred(*set, name),
            ),
            Err(p) => is_first(set.points@.len() as int, nonfinite_pred(*set, name), p as int),
        },
{
    let n = set.points.len();
    let mut keys: Vec<u64> = Vec::new();
    let mut p: usize = 0;
    while p < n
        invariant
            n == set.points@.len(),
            offset == column_position(*set, name),
            forall|q: int| 0 <= q < set.points@.len() ==> offset < #[trigger] set.points@[q].values@.len(),
            p <= n,
            keys@ == keys_for(*set, name).take(p as int),
            forall|q: int| 0 <= q < p ==> !#[trigger] nonfinite_pred(*set, name)(q),
        decreases n - p,
    {
        assert(offset < set.points@[p as int].values@.len());
        match canonical_join_value(set.points[p].values[offset].1) {
            Some(key) => {
                keys.push(key);
                assert(keys@ =~= keys_for(*set, name).take(p + 1));
            },
            None => {
                proof {
                    lemma_first_index(n as int, nonfinite_pred(*set, name), p as int);
                }
                return Err(p);
            },
        }
        p = p + 1;
    }
    assert(keys@ =~= keys_for(*set, name));
    Ok(keys)
}

/// Offset of a column in a validated set, with the facts its uses need.
pub(crate) fn column_offset(set: &CandidateSet, columns: &CandidateColumns, name: &String) -> (offset: Option<usize>)
    requires
        schema_fault(*set) is None,
        columns.view() == point_names(*set, 0),
    ensures
        offset is None <==> column_missing(*set, name@),
        offset matches Some(o) ==> o == column_position(*set, name@) && forall|p: int|
            0 <= p < set.points@.len() ==> o < #[trigger] set.points@[p].values@.len(),
{
    proof {
        lemma_position_of(point_names(*set, 0), name@);
        lemma_schema_uniform(*set);
    }
    let offset = columns.get(name.as_str());
    proof {
        if offset is Some {
            let o = offset->0;
            let names = point_names(*set, 0);
            assert(position_of(names, name@) is Some);
            let i = position_of(names, name@)->0;
            assert(0 <= i < names.len());
            assert(o == i);
            assert(o == column_position(*set, name@));
            assert forall|p: int| 0 <= p < set.points@.len() implies o < #[trigger] set.points@[p].values@.len() by {
                assert(set.points@[p].values@.len() == point_names(*set, 0).len());
            }
        }
    }
    offset
}

/// A selection of `n` zeros.
fn zeros(n: usize) -> (v: Vec<usize>)
    ensures
        v@.len() == n,
{
    let mut v: Vec<usize> = Vec::new();
    let mut i: usize = 0;
    while i < n
        invariant
            i <= n,
            v@.len() == i,
        decreases n - i,
    {
        v.push(0);
        i = i + 1;
    }
    v
}

/// The constraints enforce exactly the equalities.
proof fn lemma_constraints_enforce(
    sets: Seq<CandidateSet>,
    equalities: Seq<CandidateCombinationEquality>,
    counts: Seq<usize>,
    cons: Seq<CombinationConstraint>,
)
    requires
        counts_of(sets, counts),
        cons.len() == equalities.len(),
        forall|k: int| 0 <= k < cons.len() ==> #[trigger] enforces(sets, equalities[k], cons[k]),
    ensures
        plan_ok(counts, cons),
        forall|sel: Seq<usize>| #[trigger] complete(counts, cons, sel) == combination_compatible(sets, equalities, sel),
{
    assert forall|k: int| 0 <= k < cons.len() implies {
        &&& #[trigger] cons[k].prior < cons[k].dimension
        &&& cons[k].dimension < counts.len()
        &&& cons[k].prior_keys@.len() == counts[cons[k].prior as int]
        &&& cons[k].current_keys@.len() == counts[cons[k].dimension as int]
    } by {
        assert(enforces(sets, equalities[k], cons[k]));
    }
    assert forall|sel: Seq<usize>| #[trigger] complete(counts, cons, sel) == combination_compatible(sets, equalities, sel) by {
        if sel.len() == sets.len() && forall|d: int| 0 <= d < sets.len() ==> #[trigger] sel[d] < sets[d].points@.len() {
            assert forall|d: int| 0 <= d < counts.len() implies #[trigger] sel[d] < counts[d] by {
                assert(sel[d] < sets[d].points@.len());
            }
            assert forall|k: int| 0 <= k < cons.len() implies satisfied(cons[k], sel) == (join_value(
                sets[equalities[k].left_set as int],
                sel[equalities[k].left_set as int] as int,
                equalities[k].left_column@,
            ) == join_value(
                sets[equalities[k].right_set as int],
                sel[equalities[k].right_set as int] as int,
                equalities[k].right_column@,
            )) by {
                assert(enforces(sets, equalities[k], cons[k]));
                let l = equalities[k].left_set as int;
                let r = equalities[k].right_set as int;
                assert(sel[l] < sets[l].points@.len());
                assert(sel[r] < sets[r].points@.len());
            }
            if complete(counts, cons, sel) {
                assert forall|k: int| 0 <= k < equalities.len() implies join_value(
                    sets[equalities[k].left_set as int],
                    sel[equalities[k].left_set as int] as int,
                    #[trigger] equalities[k].left_column@,
                ) == join_value(
                    sets[equalities[k].right_set as int],
                    sel[equalities[k].right_set as int] as int,
                    equalities[k].right_column@,
                ) by {
                    assert(enforces(sets, equalities[k], cons[k]));
                    assert(cons[k].dimension < counts.len());
                    assert(satisfied(cons[k], sel));
                }
            }
            if combination_compatible(sets, equalities, sel) {
                assert forall|k: int| 0 <= k < cons.len() && #[trigger] cons[k].dimension < counts.len() implies satisfied(
                    cons[k],
                    sel,
                ) by {
                    assert(join_value(
                        sets[equalities[k].left_set as int],
                        sel[equalities[k].left_set as int] as int,
                        equalities[k].left_column@,
                    ) == join_value(
                        sets[equalities[k].right_set as int],
                        sel[equalities[k].right_set as int] as int,
                        equalities[k].right_column@,
                    ));
                }
            }
        } else if sel.len() == sets.len() {
            let d = choose|d: int| 0 <= d < sets.len() && !(#[trigger] sel[d] < sets[d].points@.len());
            assert(!(sel[d] < counts[d]));
        }
    }
}

impl CandidateCombinationJoin {
    /// Validates every set and equality and prepares the traversal of the
    /// selections that satisfy every equality.
    #[verifier::loop_isolation(false)]
    pub fn new(candidate_sets: &[&CandidateSet], equalities: &[CandidateCombinationEquality]) -> (result:
        Result<Self, CandidateCombinationJoinError>)
        ensures
            match combination_fault(deref_sets(candidate_sets@), equalities@) {
                None => result matches Ok(join) && join.wf() && join.last() is None && !join.is_exhausted()
                    && counts_of(deref_sets(candidate_sets@), join.counts()) && forall|sel: Seq<usize>|
                    #[trigger] join.compatible(sel) == combination_compatible(
                        deref_sets(candidate_sets@),
                        equalities@,
                        sel,
                    ),
                Some(fault) => result matches Err(error) && error.reports(
                    deref_sets(candidate_sets@),
                    equalities@,
                    fault,
                ),
            },
    {
        let ghost sets = deref_sets(candidate_sets@);
        let ghost eqs = equalities@;
        let n = candidate_sets.len();
        let mut columns: Vec<CandidateColumns> = Vec::new();
        let mut counts: Vec<usize> = Vec::new();
        let mut i: usize = 0;
        while i < n
            invariant
                n == sets.len(),
                i <= n,
                columns@.len() == i,
                counts@.len() == i,
                forall|j: int| 0 <= j < i ==> #[trigger] columns@[j].view() == point_names(sets[j], 0),
                forall|j: int| 0 <= j < i ==> #[trigger] counts@[j] == sets[j].points@.len(),
                forall|j: int| 0 <= j < i ==> !#[trigger] schema_pred(sets)(j),
            decreases n - i,
        {
            assert(sets[i as int] == *candidate_sets@[i as int]);
            match candidate_column_indices(candidate_sets[i]) {
                Ok(found) => {
                    columns.push(found);
                    counts.push(candidate_sets[i].points.len());
                },
                Err(error) => {
                    proof {
                        assert(schema_pred(sets)(i as int));
                        lemma_first_index(n as int, schema_pred(sets), i as int);
                    }
                    return Err(CandidateCombinationJoinError::from_schema(error));
                },
            }
            i = i + 1;
        }
        assert(!any_below(n as int, schema_pred(sets)));
        assert(counts_of(sets, counts@));
        let m = equalities.len();
        let mut constraints: Vec<CombinationConstraint> = Vec::new();
        let mut k: usize = 0;
        while k < m
            invariant
                n == sets.len(),
                m == eqs.len(),
                columns@.len() == n,
                forall|j: int| 0 <= j < n ==> #[trigger] columns@[j].view() == point_names(sets[j], 0),
                forall|j: int| 0 <= j < n ==> !#[trigger] schema_pred(sets)(j),
                k <= m,
                constraints@.len() == k,
                forall|j: int| 0 <= j < k ==> #[trigger] enforces(sets, eqs[j], constraints@[j]),
                forall|j: int| 0 <= j < k ==> !#[trigger] equality_fault_pred(sets, eqs)(j),
            decreases m - k,
        {
            let e = &equalities[k];
            if e.left_set >= n || e.right_set >= n || e.left_set == e.right_set {
                proof {
                    assert(equality_fault_pred(sets, eqs)(k as int));
                    lemma_first_index(m as int, equality_fault_pred(sets, eqs), k as int);
                }
                if e.left_set >= n {
                    return Err(
                        CandidateCombinationJoinError::CandidateSetIndexOutOfBounds {
                            set_index: e.left_set,
                            set_count: n,
                        },
                    );
                }
                if e.right_set >= n {
                    return Err(
                        CandidateCombinationJoinError::CandidateSetIndexOutOfBounds {
                            set_index: e.right_set,
                            set_count: n,
                        },
                    );
                }
                return Err(
                    CandidateCombinationJoinError::SameSetEquality {
                        set_index: e.left_set,
                        left_column: e.left_column.clone(),
                        right_column: e.right_column.clone(),
                    },
                );
            }
            let left_set = candidate_sets[e.left_set];
            let right_set = candidate_sets[e.right_set];
            assert(sets[e.left_set as int] == *left_set);
            assert(sets[e.right_set as int] == *right_set);
            assert(!schema_pred(sets)(e.left_set as int));
            assert(!schema_pred(sets)(e.right_set as int));
            let left_offset = column_offset(left_set, &columns[e.left_set], &e.left_column);
            let right_offset = column_offset(right_set, &columns[e.right_set], &e.right_column);
            if left_offset.is_none() || right_offset.is_none() {
                proof {
                    assert(equality_fault_pred(sets, eqs)(k as int));
                    lemma_first_index(m as int, equality_fault_pred(sets, eqs), k as int);
                }
                if left_offset.is_none() {
                    return Err(
                        CandidateCombinationJoinError::MissingColumn {
                            set: left_set.name.clone(),
                            column: e.left_column.clone(),
                        },
                    );
                }
                return Err(
                    CandidateCombinationJoinError::MissingColumn {
                        set: right_set.name.clone(),
                        column: e.right_column.clone(),
                    },
                );
            }
            let left_offset = left_offset.unwrap();
            let right_offset = right_offset.unwrap();
            let left_keys = match column_keys(left_set, left_offset, Ghost(e.left_column@)) {
                Ok(keys) => keys,
                Err(p) => {
                    proof {
                        lemma_first_index(
                            left_set.points@.len() as int,
                            nonfinite_pred(*left_set, e.left_column@),
                            p as int,
                        );
                        assert(equality_fault_pred(sets, eqs)(k as int));
                        lemma_first_index(m as int, equality_fault_pred(sets, eqs), k as int);
                    }
                    return Err(
                        CandidateCombinationJoinError::NonFiniteJoinValue {
                            set: left_set.name.clone(),
                            point_index: p,
                            column: e.left_column.clone(),
                        },
                    );
                },
            };
            let right_keys = match column_keys(right_set, right_offset, Ghost(e.right_column@)) {
                Ok(keys) => keys,
                Err(p) => {
                    proof {
                        lemma_first_index(
                            right_set.points@.len() as int,
                            nonfinite_pred(*right_set, e.right_column@),
                            p as int,
                        );
                        assert(equality_fault_pred(sets, eqs)(k as int));
                        lemma_first_index(m as int, equality_fault_pred(sets, eqs), k as int);
                    }
                    return Err(
                        CandidateCombinationJoinError::NonFiniteJoinValue {
                            set: right_set.name.clone(),
                            point_index: p,
                            column: e.right_column.clone(),
                        },
                    );
                },
            };
            let constraint = if e.left_set < e.right_set {
                CombinationConstraint {
                    dimension: e.right_set,
                    prior: e.left_set,
                    prior_keys: left_keys,
                    current_keys: right_keys,
                }
            } else {
                CombinationConstraint {
                    dimension: e.left_set,
                    prior: e.right_set,
                    prior_keys: right_keys,
                    current_keys: left_keys,
                }
            };
            assert(enforces(sets, eqs[k as int], constraint));
            assert(!equality_fault_pred(sets, eqs)(k as int));
            constraints.push(constraint);
            k = k + 1;
        }
        assert(!any_below(m as int, equality_fault_pred(sets, eqs)));
        proof {
            lemma_constraints_enforce(sets, eqs, counts@, constraints@);
        }
        let selection = zeros(n);
        Ok(CandidateCombinationJoin { counts, constraints, selection, started: false, exhausted: false })
    }
}

} // verus!
