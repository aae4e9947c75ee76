//! Restriction of the input axes of a primitive before its candidates are
//! built: conditions inherited by its design variables remove the values they
//! reject.
use vstd::prelude::*;

use crate::entries::{entry_names, entry_value, get_entry, lemma_absent_entry, lemma_sorted_entry, put_entry};
use crate::macro_model::hierarchy::{condition_view, copy_condition, keep_flagged, keep_values, lemma_keep_values_members, view_accepts, ConditionView};
use crate::macro_model::model::MacroDesignVariableCondition;
use crate::primitive::{
    build_value_view, copy_build_value, entries_map, lemma_entries_map, lemma_mapped_entries, BuildValueView,
    PrimitiveBuildInput, PrimitiveBuildSpec, PrimitiveBuildValue, SweepMode,
};
use crate::text::strictly_sorted;

verus! {

/// The views of a list of conditions.
pub open spec fn condition_views(conditions: Seq<MacroDesignVariableCondition>) -> Seq<ConditionView> {
    conditions.map_values(|c: MacroDesignVariableCondition| condition_view(c))
}

/// The conditions listed in an association list, by input name.
pub open spec fn conditions_map(
    entries: Seq<(String, Vec<MacroDesignVariableCondition>)>,
) -> Map<Seq<char>, Seq<ConditionView>> {
    Map::new(
        |name: Seq<char>| entry_value(entries, name) is Some,
        |name: Seq<char>| condition_views(entry_value(entries, name)->0@),
    )
}

/// Pre-build restrictions of the inputs of one primitive instance, by input
/// name; every condition of an input must admit a value for it to stay.
#[derive(Debug, PartialEq)]
pub struct PrimitiveInputConditions {
    entries: Vec<(String, Vec<MacroDesignVariableCondition>)>,
}

/// Copies a list of conditions.
fn copy_conditions(conditions: &Vec<MacroDesignVariableCondition>) -> (copy: Vec<MacroDesignVariableCondition>)
    ensures
        condition_views(copy@) == condition_views(conditions@),
{
    let mut copy: Vec<MacroDesignVariableCondition> = Vec::new();
    let n = conditions.len();
    let mut i: usize = 0;
    while i < n
        invariant
            n == conditions@.len(),
            i <= n,
            copy@.len() == i,
            forall|k: int| 0 <= k < i ==> condition_view(#[trigger] copy@[k]) == condition_view(conditions@[k]),
        decreases n - i,
    {
        copy.push(copy_condition(&conditions[i]));
        i = i + 1;
    }
    assert(condition_views(copy@) =~= condition_views(conditions@));
    copy
}

/// In a list sorted by name, each listed name has the conditions listed with
/// it, and every name with conditions is listed.
pub(crate) proof fn lemma_conditions_map(a: Seq<(String, Vec<MacroDesignVariableCondition>)>)
    requires
        strictly_sorted(entry_names(a)),
    ensures
        forall|i: int| 0 <= i < a.len() ==> conditions_map(a).contains_key(#[trigger] a[i].0@)
            && conditions_map(a)[a[i].0@] == condition_views(a[i].1@),
        forall|name: Seq<char>| #[trigger] conditions_map(a).contains_key(name) ==> exists|i: int|
            0 <= i < a.len() && a[i].0@ == name,
{
    assert forall|i: int| 0 <= i < a.len() implies conditions_map(a).contains_key(#[trigger] a[i].0@)
        && conditions_map(a)[a[i].0@] == condition_views(a[i].1@) by {
        lemma_sorted_entry(a, i);
    }
    assert forall|name: Seq<char>| #[trigger] conditions_map(a).contains_key(name) implies exists|i: int|
        0 <= i < a.len() && a[i].0@ == name by {
        if forall|k: int| 0 <= k < a.len() ==> (#[trigger] a[k]).0@ != name {
            lemma_absent_entry(a, name);
        }
    }
}

impl PrimitiveInputConditions {
    #[verifier::type_invariant]
    spec fn sorted_by_name(self) -> bool {
        strictly_sorted(entry_names(self.entries@))
    }

    /// The restricted inputs and their conditions, sorted by name.
    pub closed spec fn entries(&self) -> Seq<(String, Vec<MacroDesignVariableCondition>)> {
        self.entries@
    }

    /// The first restricted input in name order, if any.
    pub open spec fn first_name(&self) -> Option<Seq<char>> {
        if self.entries().len() > 0 {
            Some(self.entries()[0].0@)
        } else {
            None
        }
    }

    /// No input is restricted.
    pub fn new() -> (conditions: Self)
        ensures
            conditions@ == Map::<Seq<char>, Seq<ConditionView>>::empty(),
            conditions.first_name() is None,
    {
        let conditions = PrimitiveInputConditions { entries: Vec::new() };
        assert(conditions@ =~= Map::<Seq<char>, Seq<ConditionView>>::empty());
        conditions
    }

    /// The restricted inputs and their conditions, sorted by name.
    pub(crate) fn as_entries(&self) -> (entries: &Vec<(String, Vec<MacroDesignVariableCondition>)>)
        ensures
            entries@ == self.entries(),
            strictly_sorted(entry_names(entries@)),
    {
        proof {
            use_type_invariant(self);
        }
        &self.entries
    }

    /// Returns whether no input is restricted.
    pub fn is_empty(&self) -> (empty: bool)
        ensures
            empty <==> self@.dom() =~= Set::<Seq<char>>::empty(),
    {
        proof {
            use_type_invariant(self);
            lemma_conditions_map(self.entries@);
            if self.entries@.len() > 0 {
                assert(self@.contains_key(self.entries@[0].0@));
            }
        }
        self.entries.len() == 0
    }

    /// Returns the conditions of one input.
    pub fn get(&self, name: &str) -> (conditions: Option<&Vec<MacroDesignVariableCondition>>)
        ensures
            match conditions {
                Some(c) => self@.contains_key(name@) && self@[name@] == condition_views(c@),
                None => !self@.contains_key(name@),
            },
    {
        proof {
            use_type_invariant(self);
        }
        get_entry(&self.entries, name)
    }

    /// Adds conditions to one input, after those it already has.
    pub fn add(&mut self, name: String, conditions: &Vec<MacroDesignVariableCondition>)
        ensures
            final(self)@ == old(self)@.insert(
                name@,
                if old(self)@.contains_key(name@) {
                    old(self)@[name@]
                } else {
                    Seq::<ConditionView>::empty()
                } + condition_views(conditions@),
            ),
    {
        proof {
            use_type_invariant(&*self);
        }
        let ghost key = name@;
        let mut list: Vec<MacroDesignVariableCondition> = match get_entry(&self.entries, name.as_str()) {
            Some(existing) => copy_conditions(existing),
            None => Vec::new(),
        };
        let ghost start = list@;
        let n = conditions.len();
        let mut i: usize = 0;
        while i < n
            invariant
                n == conditions@.len(),
                i <= n,
                list@.len() == start.len() + i,
                forall|k: int| 0 <= k < start.len() ==> #[trigger] list@[k] == start[k],
                forall|k: int| 0 <= k < i ==> condition_view(#[trigger] list@[start.len() + k]) == condition_view(
                    conditions@[k],
                ),
            decreases n - i,
        {
            list.push(copy_condition(&conditions[i]));
            i = i + 1;
        }
        assert(condition_views(list@) =~= condition_views(start) + condition_views(conditions@)) by {
            assert forall|k: int| 0 <= k < list@.len() implies condition_views(list@)[k] == (condition_views(start)
                + condition_views(conditions@))[k] by {
                if k >= start.len() {
                    assert(list@[start.len() + (k - start.len())] == list@[k]);
                }
            }
        }
        let ghost added = condition_views(list@);
        let mut entries: Vec<(String, Vec<MacroDesignVariableCondition>)> = Vec::new();
        std::mem::swap(&mut entries, &mut self.entries);
        let ghost before = entries@;
        put_entry(&mut entries, name, list);
        proof {
            assert(conditions_map(entries@) =~= conditions_map(before).insert(key, added));
        }
        self.entries = entries;
    }
}

impl View for PrimitiveInputConditions {
    type V = Map<Seq<char>, Seq<ConditionView>>;

    /// The conditions of each restricted input, by name.
    open spec fn view(&self) -> Map<Seq<char>, Seq<ConditionView>> {
        conditions_map(self.entries())
    }
}

impl Clone for PrimitiveInputConditions {
    /// The same conditions.
    fn clone(&self) -> (copy: Self)
        ensures
            copy@ == self@,
            copy.first_name() == self.first_name(),
    {
        proof {
            use_type_invariant(self);
        }
        let mut entries: Vec<(String, Vec<MacroDesignVariableCondition>)> = Vec::new();
        let n = self.entries.len();
        let mut i: usize = 0;
        while i < n
            invariant
                n == self.entries@.len(),
                i <= n,
                entries@.len() == i,
                forall|k: int| 0 <= k < i ==> (#[trigger] entries@[k]).0@ == self.entries@[k].0@ && condition_views(
                    entries@[k].1@,
                ) == condition_views(self.entries@[k].1@),
            decreases n - i,
        {
            entries.push((self.entries[i].0.clone(), copy_conditions(&self.entries[i].1)));
            i = i + 1;
        }
        proof {
            assert(entry_names(entries@) =~= entry_names(self.entries@));
            lemma_conditions_map(self.entries@);
            lemma_conditions_map(entries@);
            assert forall|name: Seq<char>| #[trigger] conditions_map(entries@).contains_key(name)
                == conditions_map(self.entries@).contains_key(name) && (conditions_map(entries@).contains_key(name)
                ==> conditions_map(entries@)[name] == conditions_map(self.entries@)[name]) by {
                if conditions_map(entries@).contains_key(name) {
                    let k = choose|k: int| 0 <= k < entries@.len() && entries@[k].0@ == name;
                    assert(entries@[k].0@ == name);
                }
                if conditions_map(self.entries@).contains_key(name) {
                    let k = choose|k: int| 0 <= k < self.entries@.len() && self.entries@[k].0@ == name;
                    assert(self.entries@[k].0@ == name);
                }
            }
            assert(conditions_map(entries@) =~= conditions_map(self.entries@));
        }
        PrimitiveInputConditions { entries }
    }
}

/// Every condition admits the value.
pub open spec fn accepts_all(conditions: Seq<ConditionView>, value: u64) -> bool {
    forall|i: int| 0 <= i < conditions.len() ==> view_accepts(#[trigger] conditions[i], value)
}

/// Returns whether every condition admits the value.
fn accepts_every(conditions: &Vec<MacroDesignVariableCondition>, value: u64) -> (accepted: bool)
    ensures
        accepted == accepts_all(condition_views(conditions@), value),
{
    let ghost views = condition_views(conditions@);
    let n = conditions.len();
    let mut i: usize = 0;
    while i < n
        invariant
            n == conditions@.len(),
            i <= n,
            views == condition_views(conditions@),
            forall|k: int| 0 <= k < i ==> view_accepts(#[trigger] views[k], value),
        decreases n - i,
    {
        if !conditions[i].accepts(value) {
            assert(!view_accepts(views[i as int], value));
            return false;
        }
        i = i + 1;
    }
    true
}

// ---------------------------------------------------------------------------
// Cartesian sweeps: each input on its own
// ---------------------------------------------------------------------------

/// A value restricted on its own: a rejected scalar leaves nothing to sweep,
/// a vector keeps the values every condition admits.
pub open spec fn restricted_value(value: BuildValueView, conditions: Seq<ConditionView>) -> BuildValueView {
    match value {
        BuildValueView::Scalar(v) => if accepts_all(conditions, v) {
            BuildValueView::Scalar(v)
        } else {
            BuildValueView::Vector(Seq::empty())
        },
        BuildValueView::Vector(values) => BuildValueView::Vector(
            keep_values(values, |x: u64| accepts_all(conditions, x), values.len() as int),
        ),
    }
}

/// The input values of a cartesian sweep after the restriction: every
/// restricted input keeps what its conditions admit, the others are unchanged.
pub open spec fn cartesian_restriction(
    values: Map<Seq<char>, BuildValueView>,
    conditions: Map<Seq<char>, Seq<ConditionView>>,
) -> Map<Seq<char>, BuildValueView> {
    Map::new(
        |name: Seq<char>| values.contains_key(name),
        |name: Seq<char>|
            if conditions.contains_key(name) {
                restricted_value(values[name], conditions[name])
            } else {
                values[name]
            },
    )
}

/// Restricts one value on its own.
fn restrict_value(value: &PrimitiveBuildValue, conditions: &Vec<MacroDesignVariableCondition>) -> (restricted:
    PrimitiveBuildValue)
    ensures
        build_value_view(restricted) == restricted_value(build_value_view(*value), condition_views(conditions@)),
{
    let ghost views = condition_views(conditions@);
    match value {
        PrimitiveBuildValue::Scalar(v) => {
            if accepts_every(conditions, *v) {
                PrimitiveBuildValue::Scalar(*v)
            } else {
                PrimitiveBuildValue::Vector(Vec::new())
            }
        },
        PrimitiveBuildValue::Vector(values) => {
            let ghost pred = |x: u64| accepts_all(views, x);
            let mut keep: Vec<bool> = Vec::new();
            let n = values.len();
            let mut i: usize = 0;
            while i < n
                invariant
                    n == values@.len(),
                    i <= n,
                    keep@.len() == i,
                    views == condition_views(conditions@),
                    pred == (|x: u64| accepts_all(views, x)),
                    forall|k: int| 0 <= k < i ==> #[trigger] keep@[k] == pred(values@[k]),
                decreases n - i,
            {
                keep.push(accepts_every(conditions, values[i]));
                i = i + 1;
            }
            PrimitiveBuildValue::Vector(keep_flagged(values, &keep, Ghost(pred)))
        },
    }
}

/// Restricts every input of a cartesian sweep on its own.
fn apply_cartesian(input: &mut PrimitiveBuildInput, conditions: &PrimitiveInputConditions)
    ensures
        final(input)@ == cartesian_restriction(old(input)@, conditions@),
{
    let entries = input.as_entries();
    let restrictions = conditions.as_entries();
    let ghost cond = conditions@;
    let ghost f = |name: Seq<char>, v: BuildValueView|
        if cond.contains_key(name) {
            restricted_value(v, cond[name])
        } else {
            v
        };
    let mut restricted: Vec<(String, PrimitiveBuildValue)> = Vec::new();
    let n = entries.len();
    let mut i: usize = 0;
    proof {
        lemma_conditions_map(restrictions@);
    }
    while i < n
        invariant
            n == entries@.len(),
            i <= n,
            restricted@.len() == i,
            cond == conditions_map(restrictions@),
            strictly_sorted(entry_names(restrictions@)),
            f == (|name: Seq<char>, v: BuildValueView|
                if cond.contains_key(name) {
                    restricted_value(v, cond[name])
                } else {
                    v
                }),
            forall|k: int| 0 <= k < i ==> (#[trigger] restricted@[k]).0@ == entries@[k].0@ && build_value_view(
                restricted@[k].1,
            ) == f(entries@[k].0@, build_value_view(entries@[k].1)),
        decreases n - i,
    {
        let value = match get_entry(restrictions, entries[i].0.as_str()) {
            Some(list) => restrict_value(&entries[i].1, list),
            None => copy_build_value(&entries[i].1),
        };
        restricted.push((entries[i].0.clone(), value));
        i = i + 1;
    }
    proof {
        assert(entry_names(restricted@) =~= entry_names(entries@));
        lemma_mapped_entries(entries@, restricted@, f);
        assert(entries_map(restricted@) =~= cartesian_restriction(entries_map(entries@), cond));
    }
    *input = PrimitiveBuildInput::from_entries(restricted);
}

// ---------------------------------------------------------------------------
// Aligned sweeps: the vector inputs row by row
// ---------------------------------------------------------------------------

/// The number of values of a vector; zero for a scalar.
pub open spec fn vector_len(value: BuildValueView) -> nat {
    match value {
        BuildValueView::Vector(values) => values.len(),
        BuildValueView::Scalar(_) => 0,
    }
}

/// Some input is given a vector.
pub open spec fn has_vector(values: Map<Seq<char>, BuildValueView>) -> bool {
    exists|name: Seq<char>| values.contains_key(name) && (#[trigger] values[name]) is Vector
}

/// Every vector input has `rows` values.
pub open spec fn vectors_have_rows(values: Map<Seq<char>, BuildValueView>, rows: nat) -> bool {
    forall|name: Seq<char>| values.contains_key(name) && (#[trigger] values[name]) is Vector ==> vector_len(values[name]) == rows
}

/// The number of rows of an aligned sweep: the common length of the vector
/// inputs, one when every input is a scalar, and none when two vectors differ
/// in length.
#[verifier::opaque]
pub open spec fn aligned_rows(values: Map<Seq<char>, BuildValueView>) -> Option<nat> {
    if has_vector(values) {
        let name = choose|name: Seq<char>| values.contains_key(name) && (#[trigger] values[name]) is Vector;
        let rows = vector_len(values[name]);
        if vectors_have_rows(values, rows) {
            Some(rows)
        } else {
            None
        }
    } else {
        Some(1)
    }
}

/// Every condition on an input that has a value admits that input's value in
/// row `row` (a scalar is the same in every row).
pub open spec fn row_accepted(
    values: Map<Seq<char>, BuildValueView>,
    conditions: Map<Seq<char>, Seq<ConditionView>>,
    row: int,
) -> bool {
    forall|name: Seq<char>| #![trigger conditions[name]]
        conditions.contains_key(name) && values.contains_key(name) ==> match values[name] {
            BuildValueView::Scalar(v) => accepts_all(conditions[name], v),
            BuildValueView::Vector(vs) => accepts_all(conditions[name], vs[row]),
        }
}

/// The values at the first `n` rows that `keep` admits, in order.
pub open spec fn keep_rows(values: Seq<u64>, keep: spec_fn(int) -> bool, n: int) -> Seq<u64>
    decreases n,
{
    if n <= 0 {
        Seq::empty()
    } else if keep(n - 1) {
        keep_rows(values, keep, n - 1).push(values[n - 1])
    } else {
        keep_rows(values, keep, n - 1)
    }
}

/// A value of an aligned sweep after the rows are chosen: a vector keeps the
/// chosen rows, a scalar stays.
pub open spec fn aligned_value(value: BuildValueView, keep: spec_fn(int) -> bool, rows: nat) -> BuildValueView {
    match value {
        BuildValueView::Scalar(v) => BuildValueView::Scalar(v),
        BuildValueView::Vector(values) => BuildValueView::Vector(keep_rows(values, keep, rows as int)),
    }
}

/// The input values of an aligned sweep after the restriction. When the
/// vector inputs differ in length nothing changes. Otherwise every vector
/// keeps the rows that every condition admits; when every input is a scalar
/// and a condition rejects one, the input `first` restricted (when it has a
/// value) is left with nothing to sweep.
pub open spec fn aligned_restriction(
    values: Map<Seq<char>, BuildValueView>,
    conditions: Map<Seq<char>, Seq<ConditionView>>,
    first: Option<Seq<char>>,
) -> Map<Seq<char>, BuildValueView> {
    match aligned_rows(values) {
        None => values,
        Some(rows) => {
            let keep = |row: int| row_accepted(values, conditions, row);
            let restricted = Map::new(
                |name: Seq<char>| values.contains_key(name),
                |name: Seq<char>| aligned_value(values[name], keep, rows),
            );
            if !has_vector(values) && !row_accepted(values, conditions, 0) && first is Some && values.contains_key(
                first->0,
            ) {
                restricted.insert(first->0, BuildValueView::Vector(Seq::empty()))
            } else {
                restricted
            }
        },
    }
}

/// The values of `values` at the rows `keep` flags, where `keep[i]` is
/// `pred(i)`.
fn keep_flagged_rows(values: &Vec<u64>, keep: &Vec<bool>, Ghost(pred): Ghost<spec_fn(int) -> bool>) -> (kept: Vec<u64>)
    requires
        keep@.len() == values@.len(),
        forall|i: int| 0 <= i < values@.len() ==> #[trigger] keep@[i] == pred(i),
    ensures
        kept@ == keep_rows(values@, pred, values@.len() as int),
{
    let mut kept: Vec<u64> = Vec::new();
    let n = values.len();
    let mut i: usize = 0;
    while i < n
        invariant
            n == values@.len(),
            n == keep@.len(),
            i <= n,
            forall|k: int| 0 <= k < n ==> #[trigger] keep@[k] == pred(k),
            kept@ == keep_rows(values@, pred, i as int),
        decreases n - i,
    {
        if keep[i] {
            kept.push(values[i]);
        }
        i = i + 1;
    }
    kept
}

/// The row condition of restriction `j` on the values listed in `entries`.
pub open spec fn restriction_admits_row(
    entries: Seq<(String, PrimitiveBuildValue)>,
    restriction: (String, Vec<MacroDesignVariableCondition>),
    row: int,
) -> bool {
    match entry_value(entries, restriction.0@) {
        None => true,
        Some(value) => match build_value_view(value) {
            BuildValueView::Scalar(v) => accepts_all(condition_views(restriction.1@), v),
            BuildValueView::Vector(vs) => accepts_all(condition_views(restriction.1@), vs[row]),
        },
    }
}

/// Each of the first `j` restrictions admits row `row`.
pub open spec fn admits_prefix(
    entries: Seq<(String, PrimitiveBuildValue)>,
    restrictions: Seq<(String, Vec<MacroDesignVariableCondition>)>,
    j: int,
    row: int,
) -> bool {
    forall|jj: int| 0 <= jj < j ==> restriction_admits_row(entries, #[trigger] restrictions[jj], row)
}

/// One more restriction adds its own row condition.
proof fn lemma_admits_step(
    entries: Seq<(String, PrimitiveBuildValue)>,
    restrictions: Seq<(String, Vec<MacroDesignVariableCondition>)>,
    j: int,
    row: int,
)
    requires
        0 <= j < restrictions.len(),
    ensures
        admits_prefix(entries, restrictions, j + 1, row) == (admits_prefix(entries, restrictions, j, row)
            && restriction_admits_row(entries, restrictions[j], row)),
{
    if admits_prefix(entries, restrictions, j, row) && restriction_admits_row(entries, restrictions[j], row) {
        assert forall|jj: int| 0 <= jj < j + 1 implies restriction_admits_row(entries, #[trigger] restrictions[jj], row) by {
            if jj < j {
                assert(restriction_admits_row(entries, restrictions[jj], row));
            }
        }
    }
    if admits_prefix(entries, restrictions, j + 1, row) {
        assert(restriction_admits_row(entries, restrictions[j], row));
    }
}

/// A row is accepted exactly when every listed restriction admits it.
proof fn lemma_row_accepted(
    entries: Seq<(String, PrimitiveBuildValue)>,
    restrictions: Seq<(String, Vec<MacroDesignVariableCondition>)>,
    row: int,
)
    requires
        strictly_sorted(entry_names(entries)),
        strictly_sorted(entry_names(restrictions)),
    ensures
        row_accepted(entries_map(entries), conditions_map(restrictions), row) == admits_prefix(
            entries,
            restrictions,
            restrictions.len() as int,
            row,
        ),
{
    lemma_conditions_map(restrictions);
    let values = entries_map(entries);
    let cond = conditions_map(restrictions);
    if row_accepted(values, cond, row) {
        assert forall|j: int| 0 <= j < restrictions.len() implies restriction_admits_row(
            entries,
            #[trigger] restrictions[j],
            row,
        ) by {
            let name = restrictions[j].0@;
            assert(cond.contains_key(name));
        }
    }
    if forall|j: int| 0 <= j < restrictions.len() ==> restriction_admits_row(entries, #[trigger] restrictions[j], row) {
        assert forall|name: Seq<char>| cond.contains_key(name) && values.contains_key(name) implies match values[name] {
            BuildValueView::Scalar(v) => accepts_all(#[trigger] cond[name], v),
            BuildValueView::Vector(vs) => accepts_all(cond[name], vs[row]),
        } by {
            let j = choose|j: int| 0 <= j < restrictions.len() && restrictions[j].0@ == name;
            assert(restriction_admits_row(entries, restrictions[j], row));
        }
    }
}

/// Two vectors of different lengths leave no aligned rows.
proof fn lemma_rows_differ(entries: Seq<(String, PrimitiveBuildValue)>, a: int, b: int)
    requires
        strictly_sorted(entry_names(entries)),
        0 <= a < entries.len(),
        0 <= b < entries.len(),
        entry_rows(entries, a) is Some,
        entry_rows(entries, b) is Some,
        entry_rows(entries, a) != entry_rows(entries, b),
    ensures
        aligned_rows(entries_map(entries)) is None,
{
    reveal(aligned_rows);
    let values = entries_map(entries);
    lemma_sorted_entry(entries, a);
    lemma_sorted_entry(entries, b);
    let na = entries[a].0@;
    let nb = entries[b].0@;
    assert(values.contains_key(na) && values[na] == build_value_view(entries[a].1));
    assert(values.contains_key(nb) && values[nb] == build_value_view(entries[b].1));
    assert(has_vector(values));
    let c = choose|name: Seq<char>| values.contains_key(name) && (#[trigger] values[name]) is Vector;
    if vector_len(values[c]) == vector_len(values[na]) {
        assert(values.contains_key(nb) && values[nb] is Vector);
        assert(!vectors_have_rows(values, vector_len(values[c])));
    } else {
        assert(values.contains_key(na) && values[na] is Vector);
        assert(!vectors_have_rows(values, vector_len(values[c])));
    }
}

/// When every vector has `rows` values the sweep has `rows` rows if a vector
/// exists, and one row otherwise.
proof fn lemma_rows_agree(entries: Seq<(String, PrimitiveBuildValue)>, rows: nat, seen: bool, witness: int)
    requires
        strictly_sorted(entry_names(entries)),
        forall|k: int| 0 <= k < entries.len() && #[trigger] entry_rows(entries, k) is Some ==> entry_rows(entries, k)
            == Some(rows),
        seen ==> 0 <= witness < entries.len() && entry_rows(entries, witness) is Some,
        !seen ==> forall|k: int| 0 <= k < entries.len() ==> #[trigger] entry_rows(entries, k) is None,
    ensures
        has_vector(entries_map(entries)) == seen,
        aligned_rows(entries_map(entries)) == Some(if seen {
            rows
        } else {
            1nat
        }),
        seen ==> vectors_have_rows(entries_map(entries), rows),
{
    reveal(aligned_rows);
    lemma_entries_map(entries);
    let values = entries_map(entries);
    assert forall|name: Seq<char>| values.contains_key(name) && (#[trigger] values[name]) is Vector implies vector_len(
        values[name],
    ) == rows by {
        let k = choose|k: int| 0 <= k < entries.len() && entries[k].0@ == name;
        assert(values[entries[k].0@] == build_value_view(entries[k].1));
        assert(entry_rows(entries, k) is Some);
    }
    if seen {
        assert(entry_rows(entries, witness) is Some);
        assert(values.contains_key(entries[witness].0@) && values[entries[witness].0@] is Vector);
    } else {
        assert forall|name: Seq<char>| values.contains_key(name) implies !((#[trigger] values[name]) is Vector) by {
            let k = choose|k: int| 0 <= k < entries.len() && entries[k].0@ == name;
            assert(values[entries[k].0@] == build_value_view(entries[k].1));
            assert(entry_rows(entries, k) is None);
        }
    }
}

/// The length of entry `k` when it is a vector.
pub open spec fn entry_rows(entries: Seq<(String, PrimitiveBuildValue)>, k: int) -> Option<nat> {
    match entries[k].1 {
        PrimitiveBuildValue::Vector(vs) => Some(vs@.len()),
        PrimitiveBuildValue::Scalar(_) => None,
    }
}

/// The number of aligned rows and whether a vector input exists, or `None`
/// when two vectors differ in length.
fn aligned_row_count(entries: &Vec<(String, PrimitiveBuildValue)>) -> (result: Option<(usize, bool)>)
    requires
        strictly_sorted(entry_names(entries@)),
    ensures
        match result {
            Some((rows, seen)) => aligned_rows(entries_map(entries@)) == Some(rows as nat) && has_vector(
                entries_map(entries@),
            ) == seen && (seen ==> vectors_have_rows(entries_map(entries@), rows as nat)),
            None => aligned_rows(entries_map(entries@)) is None,
        },
{
    let n = entries.len();
    let mut rows: usize = 1;
    let mut seen = false;
    let ghost mut witness: int = 0;
    let mut i: usize = 0;
    while i < n
        invariant
            n == entries@.len(),
            i <= n,
            strictly_sorted(entry_names(entries@)),
            seen ==> 0 <= witness < i && entry_rows(entries@, witness) == Some(rows as nat),
            !seen ==> rows == 1,
            !seen ==> forall|k: int| 0 <= k < i ==> #[trigger] entry_rows(entries@, k) is None,
            forall|k: int| 0 <= k < i && #[trigger] entry_rows(entries@, k) is Some ==> entry_rows(entries@, k) == Some(
                rows as nat,
            ),
        decreases n - i,
    {
        match &entries[i].1 {
            PrimitiveBuildValue::Vector(vs) => {
                if !seen {
                    seen = true;
                    rows = vs.len();
                    proof {
                        witness = i as int;
                    }
                } else if vs.len() != rows {
                    let ghost here = i as int;
                    proof {
                        assert(entry_rows(entries@, here) == Some(vs@.len()));
                        lemma_rows_differ(entries@, witness, here);
                    }
                    return None;
                }
            },
            PrimitiveBuildValue::Scalar(_) => {},
        }
        i = i + 1;
    }
    proof {
        lemma_rows_agree(entries@, rows as nat, seen, witness);
    }
    Some((rows, seen))
}

/// Which of the `rows` rows every restriction admits.
fn admitted_rows(
    entries: &Vec<(String, PrimitiveBuildValue)>,
    restrictions: &Vec<(String, Vec<MacroDesignVariableCondition>)>,
    rows: usize,
    seen: bool,
) -> (keep: Vec<bool>)
    requires
        strictly_sorted(entry_names(entries@)),
        strictly_sorted(entry_names(restrictions@)),
        has_vector(entries_map(entries@)) == seen,
        seen ==> vectors_have_rows(entries_map(entries@), rows as nat),
    ensures
        keep@.len() == rows,
        forall|k: int| 0 <= k < rows ==> #[trigger] keep@[k] == row_accepted(
            entries_map(entries@),
            conditions_map(restrictions@),
            k,
        ),
{
    let ghost values = entries_map(entries@);
    let mut keep: Vec<bool> = Vec::new();
    let mut r: usize = 0;
    while r < rows
        invariant
            r <= rows,
            keep@.len() == r,
            forall|k: int| 0 <= k < r ==> #[trigger] keep@[k],
        decreases rows - r,
    {
        keep.push(true);
        r = r + 1;
    }
    let m = restrictions.len();
    let mut j: usize = 0;
    while j < m
        invariant
            m == restrictions@.len(),
            j <= m,
            keep@.len() == rows,
            values == entries_map(entries@),
            strictly_sorted(entry_names(entries@)),
            has_vector(values) == seen,
            seen ==> vectors_have_rows(values, rows as nat),
            forall|k: int| 0 <= k < rows ==> #[trigger] keep@[k] == admits_prefix(entries@, restrictions@, j as int, k),
        decreases m - j,
    {
        let ghost before = keep@;
        let ghost restriction = restrictions@[j as int];
        let ghost name = restriction.0@;
        match get_entry(entries, restrictions[j].0.as_str()) {
            None => {
                assert forall|k: int| 0 <= k < rows implies #[trigger] keep@[k] == (before[k] && restriction_admits_row(
                    entries@,
                    restriction,
                    k,
                )) by {}
            },
            Some(PrimitiveBuildValue::Scalar(v)) => {
                let accepted = accepts_every(&restrictions[j].1, *v);
                if !accepted {
                    let mut k: usize = 0;
                    while k < rows
                        invariant
                            k <= rows,
                            keep@.len() == rows,
                            forall|q: int| 0 <= q < k ==> !(#[trigger] keep@[q]),
                            forall|q: int| k <= q < rows ==> #[trigger] keep@[q] == before[q],
                        decreases rows - k,
                    {
                        keep.set(k, false);
                        k = k + 1;
                    }
                }
                assert forall|k: int| 0 <= k < rows implies #[trigger] keep@[k] == (before[k] && restriction_admits_row(
                    entries@,
                    restriction,
                    k,
                )) by {}
            },
            Some(PrimitiveBuildValue::Vector(vs)) => {
                proof {
                    assert(values.contains_key(name) && values[name] == BuildValueView::Vector(vs@));
                    assert(has_vector(values));
                    assert(vector_len(values[name]) == rows);
                }
                let mut k: usize = 0;
                while k < rows
                    invariant
                        k <= rows,
                        j < m,
                        m == restrictions@.len(),
                        restriction == restrictions@[j as int],
                        vs@.len() == rows,
                        keep@.len() == rows,
                        forall|q: int| 0 <= q < k ==> #[trigger] keep@[q] == (before[q] && accepts_all(
                            condition_views(restriction.1@),
                            vs@[q],
                        )),
                        forall|q: int| k <= q < rows ==> #[trigger] keep@[q] == before[q],
                    decreases rows - k,
                {
                    if keep[k] && !accepts_every(&restrictions[j].1, vs[k]) {
                        keep.set(k, false);
                    }
                    k = k + 1;
                }
                assert forall|k: int| 0 <= k < rows implies #[trigger] keep@[k] == (before[k] && restriction_admits_row(
                    entries@,
                    restriction,
                    k,
                )) by {}
            },
        }
        proof {
            assert forall|k: int| 0 <= k < rows implies #[trigger] keep@[k] == admits_prefix(
                entries@,
                restrictions@,
                j + 1,
                k,
            ) by {
                lemma_admits_step(entries@, restrictions@, j as int, k);
            }
        }
        j = j + 1;
    }
    proof {
        assert forall|k: int| 0 <= k < rows implies #[trigger] keep@[k] == row_accepted(
            entries_map(entries@),
            conditions_map(restrictions@),
            k,
        ) by {
            lemma_row_accepted(entries@, restrictions@, k);
        }
    }
    keep
}

/// The listed values with every vector keeping the flagged rows.
fn keep_aligned_rows(
    entries: &Vec<(String, PrimitiveBuildValue)>,
    keep: &Vec<bool>,
    Ghost(keep_spec): Ghost<spec_fn(int) -> bool>,
    rows: usize,
) -> (restricted: Vec<(String, PrimitiveBuildValue)>)
    requires
        strictly_sorted(entry_names(entries@)),
        keep@.len() == rows,
        forall|k: int| 0 <= k < rows ==> #[trigger] keep@[k] == keep_spec(k),
        vectors_have_rows(entries_map(entries@), rows as nat),
    ensures
        strictly_sorted(entry_names(restricted@)),
        entries_map(restricted@) == Map::new(
            |name: Seq<char>| entries_map(entries@).contains_key(name),
            |name: Seq<char>| aligned_value(entries_map(entries@)[name], keep_spec, rows as nat),
        ),
{
    let ghost values = entries_map(entries@);
    let ghost f = |name: Seq<char>, v: BuildValueView| aligned_value(v, keep_spec, rows as nat);
    let mut restricted: Vec<(String, PrimitiveBuildValue)> = Vec::new();
    let n = entries.len();
    let mut i: usize = 0;
    proof {
        lemma_entries_map(entries@);
    }
    while i < n
        invariant
            n == entries@.len(),
            i <= n,
            keep@.len() == rows,
            restricted@.len() == i,
            values == entries_map(entries@),
            vectors_have_rows(values, rows as nat),
            forall|k: int| 0 <= k < entries@.len() ==> values.contains_key(#[trigger] entries@[k].0@)
                && values[entries@[k].0@] == build_value_view(entries@[k].1),
            forall|k: int| 0 <= k < rows ==> #[trigger] keep@[k] == keep_spec(k),
            f == (|name: Seq<char>, v: BuildValueView| aligned_value(v, keep_spec, rows as nat)),
            forall|k: int| 0 <= k < i ==> (#[trigger] restricted@[k]).0@ == entries@[k].0@ && build_value_view(
                restricted@[k].1,
            ) == f(entries@[k].0@, build_value_view(entries@[k].1)),
        decreases n - i,
    {
        let ghost name = entries@[i as int].0@;
        let value = match &entries[i].1 {
            PrimitiveBuildValue::Scalar(v) => PrimitiveBuildValue::Scalar(*v),
            PrimitiveBuildValue::Vector(vs) => {
                proof {
                    assert(values.contains_key(name) && values[name] == BuildValueView::Vector(vs@));
                    assert(vector_len(values[name]) == rows);
                }
                PrimitiveBuildValue::Vector(keep_flagged_rows(vs, keep, Ghost(keep_spec)))
            },
        };
        restricted.push((entries[i].0.clone(), value));
        i = i + 1;
    }
    proof {
        assert(entry_names(restricted@) =~= entry_names(entries@));
        lemma_mapped_entries(entries@, restricted@, f);
    }
    restricted
}

/// Restricts the rows of an aligned sweep.
fn apply_aligned(input: &mut PrimitiveBuildInput, conditions: &PrimitiveInputConditions)
    ensures
        final(input)@ == aligned_restriction(old(input)@, conditions@, conditions.first_name()),
{
    let entries = input.as_entries();
    let restrictions = conditions.as_entries();
    let ghost values = entries_map(entries@);
    let ghost cond = conditions_map(restrictions@);
    let (rows, seen) = match aligned_row_count(entries) {
        Some(counted) => counted,
        None => {
            return;
        },
    };
    let keep = admitted_rows(entries, restrictions, rows, seen);
    let ghost keep_spec = |row: int| row_accepted(values, cond, row);
    proof {
        reveal(aligned_rows);
        if !seen {
            assert forall|name: Seq<char>| values.contains_key(name) && (#[trigger] values[name]) is Vector implies vector_len(
                values[name],
            ) == rows by {
                assert(has_vector(values));
            }
        }
    }
    let mut restricted = keep_aligned_rows(entries, &keep, Ghost(keep_spec), rows);
    let ghost mapped = entries_map(restricted@);
    if !seen && !keep[0] && restrictions.len() > 0 {
        let first = &restrictions[0].0;
        if get_entry(&restricted, first.as_str()).is_some() {
            put_entry(&mut restricted, first.clone(), PrimitiveBuildValue::Vector(Vec::new()));
            proof {
                assert(entries_map(restricted@) =~= mapped.insert(first@, BuildValueView::Vector(Seq::empty())));
            }
        }
    }
    proof {
        reveal(aligned_rows);
        let target = aligned_restriction(values, cond, conditions.first_name());
        assert(entries_map(restricted@) =~= target);
    }
    *input = PrimitiveBuildInput::from_entries(restricted);
}

/// Restricts the input axes of a primitive by the conditions on its inputs,
/// as its sweep mode reads them.
pub fn apply_prebuild_conditions(
    spec: &PrimitiveBuildSpec,
    input: &mut PrimitiveBuildInput,
    conditions: &PrimitiveInputConditions,
)
    ensures
        final(input)@ == match spec.sweep_mode {
            SweepMode::Cartesian => cartesian_restriction(old(input)@, conditions@),
            SweepMode::Aligned => aligned_restriction(old(input)@, conditions@, conditions.first_name()),
        },
{
    match spec.sweep_mode {
        SweepMode::Cartesian => apply_cartesian(input, conditions),
        SweepMode::Aligned => apply_aligned(input, conditions),
    }
}

/// The number of rows `keep` admits among the first `n`.
pub open spec fn kept_row_count(keep: spec_fn(int) -> bool, n: int) -> nat
    decreases n,
{
    if n <= 0 {
        0
    } else if keep(n - 1) {
        kept_row_count(keep, n - 1) + 1
    } else {
        kept_row_count(keep, n - 1)
    }
}

/// Keeping rows keeps as many values as there are admitted rows, whatever
/// the values.
proof fn lemma_keep_rows_len(values: Seq<u64>, keep: spec_fn(int) -> bool, n: int)
    ensures
        keep_rows(values, keep, n).len() == kept_row_count(keep, n),
    decreases n,
{
    if n > 0 {
        lemma_keep_rows_len(values, keep, n - 1);
    }
}

/// In a cartesian sweep the restriction changes only restricted inputs: a
/// restricted vector keeps exactly its values that every condition admits, a
/// restricted scalar stays when every condition admits it and leaves nothing
/// to sweep otherwise.
pub proof fn law_cartesian_restriction_keeps_exactly_the_admitted_values(
    values: Map<Seq<char>, BuildValueView>,
    conditions: Map<Seq<char>, Seq<ConditionView>>,
    name: Seq<char>,
)
    requires
        values.contains_key(name),
    ensures
        cartesian_restriction(values, conditions).dom() == values.dom(),
        !conditions.contains_key(name) ==> cartesian_restriction(values, conditions)[name] == values[name],
        conditions.contains_key(name) ==> match values[name] {
            BuildValueView::Scalar(v) => cartesian_restriction(values, conditions)[name] == if accepts_all(
                conditions[name],
                v,
            ) {
                BuildValueView::Scalar(v)
            } else {
                BuildValueView::Vector(Seq::empty())
            },
            BuildValueView::Vector(vs) => match cartesian_restriction(values, conditions)[name] {
                BuildValueView::Vector(kept) => (forall|j: int|
                    0 <= j < kept.len() ==> accepts_all(conditions[name], #[trigger] kept[j]) && vs.contains(kept[j]))
                    && (forall|i: int| 0 <= i < vs.len() && accepts_all(conditions[name], #[trigger] vs[i]) ==> kept.contains(vs[i])),
                BuildValueView::Scalar(_) => false,
            },
        },
{
    let restricted = cartesian_restriction(values, conditions);
    assert(restricted.dom() =~= values.dom());
    if conditions.contains_key(name) {
        if let BuildValueView::Vector(vs) = values[name] {
            let pred = |x: u64| accepts_all(conditions[name], x);
            lemma_keep_values_members(vs, pred, vs.len() as int);
            assert(vs.take(vs.len() as int) =~= vs);
        }
    }
}

/// In an aligned sweep every vector keeps the same rows: after the
/// restriction all vector inputs still have one common length.
pub proof fn law_aligned_restriction_keeps_vectors_aligned(
    values: Map<Seq<char>, BuildValueView>,
    conditions: Map<Seq<char>, Seq<ConditionView>>,
    first: Option<Seq<char>>,
    a: Seq<char>,
    b: Seq<char>,
)
    requires
        aligned_rows(values) is Some,
        has_vector(values),
        values.contains_key(a),
        values.contains_key(b),
        values[a] is Vector,
        values[b] is Vector,
    ensures
        aligned_restriction(values, conditions, first)[a] is Vector,
        vector_len(aligned_restriction(values, conditions, first)[a]) == vector_len(
            aligned_restriction(values, conditions, first)[b],
        ),
{
    reveal(aligned_rows);
    let rows = aligned_rows(values)->0;
    let keep = |row: int| row_accepted(values, conditions, row);
    if let BuildValueView::Vector(va) = values[a] {
        lemma_keep_rows_len(va, keep, rows as int);
    }
    if let BuildValueView::Vector(vb) = values[b] {
        lemma_keep_rows_len(vb, keep, rows as int);
    }
}

} // verus!
