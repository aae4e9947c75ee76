//! Candidate points and sets, their column schema, and the indexed pair join.
use vstd::prelude::*;

use crate::search::{any_below, first_index, is_first, lemma_first_exists, lemma_first_index};
use crate::text::{append_decimal, concat3, decimal, str_eq};
use crate::value::{canonical_bits, canonical_join_value, finite_value};
use crate::exploration::table::ExplorationColumn;

verus! {

/// One candidate: named columns holding values as binary64 bit patterns.
#[derive(Debug, Clone, PartialEq)]
pub struct CandidatePoint {
    pub values: Vec<(String, u64)>,
}

/// A named, ordered collection of candidate points.
#[derive(Debug, Clone, PartialEq)]
pub struct CandidateSet {
    pub name: String,
    pub points: Vec<CandidatePoint>,
}

/// Column names of one candidate, in column order.
pub open spec fn column_names(values: Seq<(String, u64)>) -> Seq<Seq<char>> {
    values.map_values(|column: (String, u64)| column.0@)
}

/// Column names of point `p` of a set.
pub open spec fn point_names(set: CandidateSet, p: int) -> Seq<Seq<char>> {
    column_names(set.points@[p].values@)
}

/// Value of column `offset` of point `p` of a set.
pub open spec fn point_value(set: CandidateSet, p: int, offset: int) -> u64 {
    set.points@[p].values@[offset].1
}

/// Column `i` of a candidate is named `name`.
pub open spec fn named_pred(values: Seq<(String, u64)>, name: Seq<char>) -> spec_fn(int) -> bool {
    |i: int| values[i].0@ == name
}

/// The value of the first column named `name`, if any.
pub open spec fn lookup(values: Seq<(String, u64)>, name: Seq<char>) -> Option<u64> {
    if any_below(values.len() as int, named_pred(values, name)) {
        Some(values[first_index(values.len() as int, named_pred(values, name))].1)
    } else {
        None
    }
}

/// The position of the first name equal to `name`, if any.
pub open spec fn position_of(names: Seq<Seq<char>>, name: Seq<char>) -> Option<int> {
    if any_below(names.len() as int, equal_pred(names, name)) {
        Some(first_index(names.len() as int, equal_pred(names, name)))
    } else {
        None
    }
}

/// Name `i` equals `name`.
pub open spec fn equal_pred(names: Seq<Seq<char>>, name: Seq<char>) -> spec_fn(int) -> bool {
    |i: int| names[i] == name
}

impl CandidatePoint {
    /// Creates a candidate from its ordered columns.
    pub fn new(values: Vec<(String, u64)>) -> (point: Self)
        ensures
            point.values@ == values@,
    {
        CandidatePoint { values }
    }

    /// Returns the value of the first column named `name`.
    pub fn get(&self, name: &str) -> (value: Option<u64>)
        ensures
            value == lookup(self.values@, name@),
    {
        let n = self.values.len();
        let mut i: usize = 0;
        while i < n
            invariant
                n == self.values@.len(),
                i <= n,
                forall|k: int| 0 <= k < i ==> !#[trigger] named_pred(self.values@, name@)(k),
            decreases n - i,
        {
            if str_eq(self.values[i].0.as_str(), name) {
                proof {
                    lemma_first_index(n as int, named_pred(self.values@, name@), i as int);
                }
                return Some(self.values[i].1);
            }
            i = i + 1;
        }
        None
    }
}

impl CandidateSet {
    /// Creates a named candidate set.
    pub fn new(name: String, points: Vec<CandidatePoint>) -> (set: Self)
        ensures
            set.name@ == name@,
            set.points@ == points@,
    {
        CandidateSet { name, points }
    }
}

/// Ordered pair of selected point indices, one per joined set.
#[derive(Debug, Clone, Copy, PartialEq, Eq, Hash)]
pub struct CandidatePairSelection {
    pub left_index: usize,
    pub right_index: usize,
}

impl CandidatePairSelection {
    /// Creates a selection of one left and one right point.
    pub fn new(left_index: usize, right_index: usize) -> (selection: Self)
        ensures
            selection.left_index == left_index,
            selection.right_index == right_index,
    {
        CandidatePairSelection { left_index, right_index }
    }
}

/// Equality between a column of the left set and one of the right set.
#[derive(Debug, Clone, PartialEq, Eq)]
pub struct CandidateEquality {
    pub left_column: String,
    pub right_column: String,
}

impl CandidateEquality {
    /// Creates an equality between two columns.
    pub fn new(left_column: String, right_column: String) -> (equality: Self)
        ensures
            equality.left_column@ == left_column@,
            equality.right_column@ == right_column@,
    {
        CandidateEquality { left_column, right_column }
    }
}

/// Returns `prefix.column`, the name of a column owned by an instance.
pub fn candidate_column_name(prefix: &str, column: &str) -> (name: String)
    ensures
        name@ == prefix@ + seq!['.'] + column@,
{
    let name = concat3(prefix, ".", column);
    proof {
        reveal_strlit(".");
    }
    name
}

// ---------------------------------------------------------------------------
// Column schema
// ---------------------------------------------------------------------------

/// Name `j` already occurs among names `0..j`.
pub open spec fn repeats_earlier(names: Seq<Seq<char>>, j: int) -> bool {
    exists|k: int| 0 <= k < j && #[trigger] names[k] == names[j]
}

/// Column `j` is a duplicate within the first point.
pub open spec fn duplicate_pred(names: Seq<Seq<char>>) -> spec_fn(int) -> bool {
    |j: int| repeats_earlier(names, j)
}

/// Column `j` of a later point is a duplicate or differs from the first point.
pub open spec fn column_fault(first: Seq<Seq<char>>, names: Seq<Seq<char>>, j: int) -> bool {
    repeats_earlier(names, j) || names[j] != first[j]
}

/// Column fault predicate for one later point.
pub open spec fn column_fault_pred(first: Seq<Seq<char>>, names: Seq<Seq<char>>) -> spec_fn(
    int,
) -> bool {
    |j: int| column_fault(first, names, j)
}

/// A later point disagrees with the schema of the first point.
pub open spec fn point_fault(first: Seq<Seq<char>>, names: Seq<Seq<char>>) -> bool {
    names.len() != first.len() || any_below(names.len() as int, column_fault_pred(first, names))
}

/// Point `p` (after the first) disagrees with the first point.
pub open spec fn point_fault_pred(set: CandidateSet) -> spec_fn(int) -> bool {
    |p: int| 1 <= p && point_fault(point_names(set, 0), point_names(set, p))
}

/// The first schema violation of a candidate set, by position.
pub enum SchemaFault {
    EmptySet,
    DuplicateColumn { point: int, column: int },
    ColumnCountMismatch { point: int },
    ColumnNameMismatch { point: int, column: int },
}

/// The violation reported first when validating a set: an empty set, then a
/// duplicate in the first point, then the first later point whose column
/// count, a repeated name, or a name differs from the first point (columns
/// checked in order, a repetition before a name difference).
pub open spec fn schema_fault(set: CandidateSet) -> Option<SchemaFault> {
    let n = set.points@.len() as int;
    if n == 0 {
        Some(SchemaFault::EmptySet)
    } else {
        let first = point_names(set, 0);
        if any_below(first.len() as int, duplicate_pred(first)) {
            Some(
                SchemaFault::DuplicateColumn {
                    point: 0,
                    column: first_index(first.len() as int, duplicate_pred(first)),
                },
            )
        } else if any_below(n, point_fault_pred(set)) {
            let p = first_index(n, point_fault_pred(set));
            let names = point_names(set, p);
            if names.len() != first.len() {
                Some(SchemaFault::ColumnCountMismatch { point: p })
            } else {
                let c = first_index(names.len() as int, column_fault_pred(first, names));
                if repeats_earlier(names, c) {
                    Some(SchemaFault::DuplicateColumn { point: p, column: c })
                } else {
                    Some(SchemaFault::ColumnNameMismatch { point: p, column: c })
                }
            }
        } else {
            None
        }
    }
}

/// Every point has the columns of the first point, in its order, without
/// duplicates.
pub open spec fn schema_valid(set: CandidateSet) -> bool {
    schema_fault(set) is None
}

/// A violation of the column schema shared by the points of a set.
#[derive(Debug, Clone, PartialEq, Eq)]
pub enum CandidateSchemaError {
    EmptySet { set: String },
    DuplicateColumn { set: String, point_index: usize, column: String },
    ColumnCountMismatch { set: String, point_index: usize, expected: usize, actual: usize },
    ColumnNameMismatch {
        set: String,
        point_index: usize,
        column_index: usize,
        expected: String,
        actual: String,
    },
}

impl CandidateSchemaError {
    /// This error reports `fault` of `set`.
    pub open spec fn reports(self, set: CandidateSet, fault: SchemaFault) -> bool {
        match (self, fault) {
            (CandidateSchemaError::EmptySet { set: name }, SchemaFault::EmptySet) => name@
                == set.name@,
            (
                CandidateSchemaError::DuplicateColumn { set: name, point_index, column: name_col },
                SchemaFault::DuplicateColumn { point, column },
            ) => name@ == set.name@ && point_index == point && name_col@ == point_names(
                set,
                point,
            )[column],
            (
                CandidateSchemaError::ColumnCountMismatch { set: name, point_index, expected, actual },
                SchemaFault::ColumnCountMismatch { point },
            ) => name@ == set.name@ && point_index == point && expected == point_names(set, 0).len()
                && actual == point_names(set, point).len(),
            (
                CandidateSchemaError::ColumnNameMismatch {
                    set: name,
                    point_index,
                    column_index,
                    expected,
                    actual,
                },
                SchemaFault::ColumnNameMismatch { point, column },
            ) => name@ == set.name@ && point_index == point && column_index == column && expected@
                == point_names(set, 0)[column] && actual@ == point_names(set, point)[column],
            _ => false,
        }
    }
}

/// Column positions of a validated candidate set.
#[derive(Debug, Clone, PartialEq, Eq)]
pub struct CandidateColumns {
    names: Vec<String>,
}

impl CandidateColumns {
    /// The column names, in column order.
    pub closed spec fn view(&self) -> Seq<Seq<char>> {
        self.names@.map_values(|name: String| name@)
    }

    /// Returns the number of columns.
    pub fn len(&self) -> (n: usize)
        ensures
            n == self.view().len(),
    {
        self.names.len()
    }

    /// Returns the position of the column named `name`.
    pub fn get(&self, name: &str) -> (position: Option<usize>)
        ensures
            match position_of(self.view(), name@) {
                Some(i) => position matches Some(j) && j as int == i,
                None => position is None,
            },
    {
        let n = self.names.len();
        let mut i: usize = 0;
        while i < n
            invariant
                n == self.view().len(),
                i <= n,
                forall|k: int| 0 <= k < i ==> !#[trigger] equal_pred(self.view(), name@)(k),
            decreases n - i,
        {
            if str_eq(self.names[i].as_str(), name) {
                proof {
                    lemma_first_index(n as int, equal_pred(self.view(), name@), i as int);
                }
                return Some(i);
            }
            i = i + 1;
        }
        None
    }
}

/// Returns whether column `j` of `values` repeats an earlier column name.
fn repeats_before(values: &Vec<(String, u64)>, j: usize) -> (found: bool)
    requires
        j < values@.len(),
    ensures
        found == repeats_earlier(column_names(values@), j as int),
{
    let ghost names = column_names(values@);
    let mut k: usize = 0;
    while k < j
        invariant
            j < values@.len(),
            names == column_names(values@),
            k <= j,
            forall|i: int| 0 <= i < k ==> names[i] != names[j as int],
        decreases j - k,
    {
        if values[k].0 == values[j].0 {
            assert(names[k as int] == names[j as int]);
            return true;
        }
        k = k + 1;
    }
    false
}

/// Validates the column schema of a candidate set and returns the column
/// positions of its first point.
pub fn candidate_column_indices(candidates: &CandidateSet) -> (result: Result<
    CandidateColumns,
    CandidateSchemaError,
>)
    ensures
        match schema_fault(*candidates) {
            None => result matches Ok(columns) && columns.view() == point_names(*candidates, 0),
            Some(fault) => result matches Err(error) && error.reports(*candidates, fault),
        },
{
    let n = candidates.points.len();
    if n == 0 {
        return Err(CandidateSchemaError::EmptySet { set: candidates.name.clone() });
    }
    let ghost set = *candidates;
    let first = &candidates.points[0];
    let ghost first_names = point_names(set, 0);
    let width = first.values.len();
    let mut names: Vec<String> = Vec::new();
    let mut j: usize = 0;
    while j < width
        invariant
            set == *candidates,
            n == set.points@.len(),
            n > 0,
            first == &candidates.points@[0],
            first_names == point_names(set, 0),
            width == first_names.len(),
            j <= width,
            names@.len() == j,
            forall|k: int| 0 <= k < j ==> #[trigger] names@[k]@ == first_names[k],
            forall|k: int| 0 <= k < j ==> !#[trigger] duplicate_pred(first_names)(k),
        decreases width - j,
    {
        if repeats_before(&first.values, j) {
            proof {
                lemma_first_index(width as int, duplicate_pred(first_names), j as int);
                assert(schema_fault(set) == Some(
                    SchemaFault::DuplicateColumn { point: 0, column: j as int },
                ));
                assert(first_names[j as int] == first.values@[j as int].0@);
            }
            return Err(
                CandidateSchemaError::DuplicateColumn {
                    set: candidates.name.clone(),
                    point_index: 0,
                    column: first.values[j].0.clone(),
                },
            );
        }
        names.push(first.values[j].0.clone());
        j = j + 1;
    }
    assert(!any_below(width as int, duplicate_pred(first_names)));
    let columns = CandidateColumns { names };
    assert(columns.view() =~= first_names);
    let mut p: usize = 1;
    while p < n
        invariant
            set == *candidates,
            n == set.points@.len(),
            first == &candidates.points@[0],
            first_names == point_names(set, 0),
            width == first_names.len(),
            !any_below(width as int, duplicate_pred(first_names)),
            1 <= p <= n,
            forall|q: int| 0 <= q < p ==> !#[trigger] point_fault_pred(set)(q),
        decreases n - p,
    {
        let point = &candidates.points[p];
        let ghost names_p = point_names(set, p as int);
        if point.values.len() != width {
            proof {
                lemma_first_index(n as int, point_fault_pred(set), p as int);
            }
            return Err(
                CandidateSchemaError::ColumnCountMismatch {
                    set: candidates.name.clone(),
                    point_index: p,
                    expected: width,
                    actual: point.values.len(),
                },
            );
        }
        let mut c: usize = 0;
        while c < width
            invariant
                set == *candidates,
                n == set.points@.len(),
                first == &candidates.points@[0],
                first_names == point_names(set, 0),
                width == first_names.len(),
                !any_below(width as int, duplicate_pred(first_names)),
                1 <= p < n,
                point == &candidates.points@[p as int],
                names_p == point_names(set, p as int),
                names_p.len() == width,
                forall|q: int| 0 <= q < p ==> !#[trigger] point_fault_pred(set)(q),
                c <= width,
                forall|k: int| 0 <= k < c ==> !#[trigger] column_fault_pred(first_names, names_p)(k),
            decreases width - c,
        {
            let duplicate = repeats_before(&point.values, c);
            if duplicate || point.values[c].0 != first.values[c].0 {
                proof {
                    assert(column_fault_pred(first_names, names_p)(c as int));
                    lemma_first_index(
                        width as int,
                        column_fault_pred(first_names, names_p),
                        c as int,
                    );
                    assert(point_fault_pred(set)(p as int));
                    lemma_first_index(n as int, point_fault_pred(set), p as int);
                }
                if duplicate {
                    return Err(
                        CandidateSchemaError::DuplicateColumn {
                            set: candidates.name.clone(),
                            point_index: p,
                            column: point.values[c].0.clone(),
                        },
                    );
                }
                return Err(
                    CandidateSchemaError::ColumnNameMismatch {
                        set: candidates.name.clone(),
                        point_index: p,
                        column_index: c,
                        expected: first.values[c].0.clone(),
                        actual: point.values[c].0.clone(),
                    },
                );
            }
            c = c + 1;
        }
        assert(!point_fault_pred(set)(p as int));
        p = p + 1;
    }
    assert(!any_below(n as int, point_fault_pred(set)));
    Ok(columns)
}

// ---------------------------------------------------------------------------
// Pair join
// ---------------------------------------------------------------------------

/// Matches of probe row `p` among index rows `i..`, as (probe, index) pairs.
pub open spec fn row_matches(probe: Seq<Seq<u64>>, index: Seq<Seq<u64>>, p: int, i: int) -> Seq<
    (int, int),
>
    decreases index.len() - i,
{
    if i < 0 || i >= index.len() {
        Seq::empty()
    } else if index[i] == probe[p] {
        seq![(p, i)] + row_matches(probe, index, p, i + 1)
    } else {
        row_matches(probe, index, p, i + 1)
    }
}

/// Matches of probe rows `p..`, probe-major and index-minor.
pub open spec fn rows_from(probe: Seq<Seq<u64>>, index: Seq<Seq<u64>>, p: int) -> Seq<(int, int)>
    decreases probe.len() - p,
{
    if p < 0 || p >= probe.len() {
        Seq::empty()
    } else {
        row_matches(probe, index, p, 0) + rows_from(probe, index, p + 1)
    }
}

/// Matches of probe rows `0..p`.
pub open spec fn rows_upto(probe: Seq<Seq<u64>>, index: Seq<Seq<u64>>, p: int) -> Seq<(int, int)>
    decreases p,
{
    if p <= 0 {
        Seq::empty()
    } else {
        rows_upto(probe, index, p - 1) + row_matches(probe, index, p - 1, 0)
    }
}

/// (probe, index) pairs as (left, right) selections.
pub open spec fn oriented(pairs: Seq<(int, int)>, indexed_left: bool) -> Seq<(int, int)> {
    pairs.map_values(|pair: (int, int)| if indexed_left { (pair.1, pair.0) } else { pair })
}

pub proof fn lemma_rows_split(probe: Seq<Seq<u64>>, index: Seq<Seq<u64>>, p: int)
    requires
        0 <= p <= probe.len(),
    ensures
        rows_upto(probe, index, p) + rows_from(probe, index, p) == rows_from(probe, index, 0),
    decreases p,
{
    if p > 0 {
        lemma_rows_split(probe, index, p - 1);
        assert(rows_upto(probe, index, p) + rows_from(probe, index, p) =~= rows_upto(
            probe,
            index,
            p - 1,
        ) + rows_from(probe, index, p - 1));
    } else {
        assert(rows_upto(probe, index, p) + rows_from(probe, index, p) =~= rows_from(
            probe,
            index,
            0,
        ));
    }
}

/// When every key is equal, a row holds every index row from `i` on.
pub proof fn lemma_row_all(probe: Seq<Seq<u64>>, index: Seq<Seq<u64>>, p: int, i: int)
    requires
        0 <= p < probe.len(),
        0 <= i <= index.len(),
        forall|k: int| 0 <= k < index.len() ==> #[trigger] index[k] == probe[p],
    ensures
        row_matches(probe, index, p, i).len() == index.len() - i,
    decreases index.len() - i,
{
    if i < index.len() {
        lemma_row_all(probe, index, p, i + 1);
    }
}

/// When every key is equal, the join is the full product.
pub proof fn lemma_rows_all(probe: Seq<Seq<u64>>, index: Seq<Seq<u64>>, p: int)
    requires
        0 <= p <= probe.len(),
        forall|a: int, b: int|
            0 <= a < probe.len() && 0 <= b < index.len() ==> #[trigger] index[b] == #[trigger] probe[a],
    ensures
        rows_from(probe, index, p).len() == (probe.len() - p) * index.len(),
    decreases probe.len() - p,
{
    if p < probe.len() {
        lemma_rows_all(probe, index, p + 1);
        assert forall|k: int| 0 <= k < index.len() implies #[trigger] index[k] == probe[p] by {}
        lemma_row_all(probe, index, p, 0);
        let l = probe.len() - p;
        let r = index.len() as int;
        assert(l * r == r + (l - 1) * r) by (nonlinear_arith);
        assert(rows_from(probe, index, p).len() == row_matches(probe, index, p, 0).len()
            + rows_from(probe, index, p + 1).len());
    } else {
        let r = index.len() as int;
        assert(p == probe.len());
        assert(0 * r == 0) by (nonlinear_arith);
    }
}

/// Join key of point `p`: the canonical values at the equality offsets.
pub open spec fn key_of(set: CandidateSet, offsets: Seq<usize>, p: int) -> Seq<u64> {
    offsets.map_values(|o: usize| canonical_bits(point_value(set, p, o as int)))
}

/// Join keys of every point.
pub open spec fn keys_of(set: CandidateSet, offsets: Seq<usize>) -> Seq<Seq<u64>> {
    Seq::new(set.points@.len(), |p: int| key_of(set, offsets, p))
}

/// Equality `k` of point `p` has a non-finite value.
pub open spec fn key_fault_pred(set: CandidateSet, offsets: Seq<usize>, p: int) -> spec_fn(
    int,
) -> bool {
    |k: int| !finite_value(point_value(set, p, offsets[k] as int))
}

/// Point `p` has a non-finite join value.
pub open spec fn point_key_fault_pred(set: CandidateSet, offsets: Seq<usize>) -> spec_fn(
    int,
) -> bool {
    |p: int| any_below(offsets.len() as int, key_fault_pred(set, offsets, p))
}

/// Returns whether two keys are equal.
fn keys_equal(a: &Vec<u64>, b: &Vec<u64>) -> (eq: bool)
    ensures
        eq == (a@ == b@),
{
    if a.len() != b.len() {
        return false;
    }
    let n = a.len();
    let mut i: usize = 0;
    while i < n
        invariant
            n == a@.len(),
            n == b@.len(),
            i <= n,
            forall|k: int| 0 <= k < i ==> a@[k] == b@[k],
        decreases n - i,
    {
        if a[i] != b[i] {
            return false;
        }
        i = i + 1;
    }
    assert(a@ =~= b@);
    true
}

/// Builds the join key of point `p`, or the first equality whose value is not
/// finite.
fn join_key(set: &CandidateSet, p: usize, offsets: &Vec<usize>) -> (result: Result<Vec<u64>, usize>)
    requires
        p < set.points@.len(),
        forall|k: int| 0 <= k < offsets@.len() ==> #[trigger] offsets@[k] < set.points@[p as int].values@.len(),
    ensures
        match result {
            Ok(key) => key@ == key_of(*set, offsets@, p as int) && !any_below(
                offsets@.len() as int,
                key_fault_pred(*set, offsets@, p as int),
            ),
            Err(k) => is_first(offsets@.len() as int, key_fault_pred(*set, offsets@, p as int), k as int),
        },
{
    let point = &set.points[p];
    let n = offsets.len();
    let mut key: Vec<u64> = Vec::new();
    let mut k: usize = 0;
    while k < n
        invariant
            n == offsets@.len(),
            p < set.points@.len(),
            point == &set.points@[p as int],
            forall|j: int| 0 <= j < offsets@.len() ==> #[trigger] offsets@[j] < point.values@.len(),
            k <= n,
            key@ == key_of(*set, offsets@, p as int).take(k as int),
            forall|j: int| 0 <= j < k ==> !#[trigger] key_fault_pred(*set, offsets@, p as int)(j),
        decreases n - k,
    {
        match canonical_join_value(point.values[offsets[k]].1) {
            Some(value) => {
                key.push(value);
                assert(key@ =~= key_of(*set, offsets@, p as int).take(k + 1));
            },
            None => {
                return Err(k);
            },
        }
        k = k + 1;
    }
    assert(key@ =~= key_of(*set, offsets@, p as int));
    Ok(key)
}

/// Errors produced while preparing a pair join.
#[derive(Debug, Clone, PartialEq, Eq)]
pub enum CandidateJoinError {
    EmptyCandidateSet { set: String },
    DuplicateColumn { set: String, point_index: usize, column: String },
    ColumnCountMismatch { set: String, point_index: usize, expected: usize, actual: usize },
    ColumnNameMismatch {
        set: String,
        point_index: usize,
        column_index: usize,
        expected: String,
        actual: String,
    },
    MissingColumn { set: String, column: String },
    NonFiniteJoinValue { set: String, point_index: usize, column: String },
    PairCountOverflow { left_count: usize, right_count: usize },
}

impl CandidateJoinError {
    /// The message of the error.
    pub open spec fn message(&self) -> Seq<char> {
        match self {
            CandidateJoinError::EmptyCandidateSet { set } => "candidate set '"@ + set@ + "' is empty"@,
            CandidateJoinError::DuplicateColumn { set, point_index, column } => "candidate set '"@ + set@ + "' point "@ + decimal(point_index as nat) + " contains duplicate column '"@ + column@ + "'"@,
            CandidateJoinError::ColumnCountMismatch { set, point_index, expected, actual } => "candidate set '"@ + set@ + "' point "@ + decimal(point_index as nat) + " has "@ + decimal(actual as nat) + " columns, expected "@ + decimal(expected as nat),
            CandidateJoinError::ColumnNameMismatch { set, point_index, column_index, expected, actual } => "candidate set '"@ + set@ + "' point "@ + decimal(point_index as nat) + " column "@ + decimal(column_index as nat) + " is '"@ + actual@ + "', expected '"@ + expected@ + "'"@,
            CandidateJoinError::MissingColumn { set, column } => "candidate set '"@ + set@ + "' has no column '"@ + column@ + "'"@,
            CandidateJoinError::NonFiniteJoinValue { set, point_index, column } => "candidate set '"@ + set@ + "' point "@ + decimal(point_index as nat) + " has a non-finite join value in '"@ + column@ + "'"@,
            CandidateJoinError::PairCountOverflow { left_count, right_count } => "candidate pair count overflows usize: "@ + decimal(left_count as nat) + " * "@ + decimal(right_count as nat),
        }
    }

    /// Returns the message of the error.
    pub fn to_string(&self) -> (text: String)
        ensures
            text@ == self.message(),
    {
        match self {
            CandidateJoinError::EmptyCandidateSet { set } => {
                let mut text = String::from_str("candidate set '");
                text.append(set.as_str());
                text.append("' is empty");
                text
            },
            CandidateJoinError::DuplicateColumn { set, point_index, column } => {
                let mut text = String::from_str("candidate set '");
                text.append(set.as_str());
                text.append("' point ");
                append_decimal(&mut text, *point_index);
                text.append(" contains duplicate column '");
                text.append(column.as_str());
                text.append("'");
                text
            },
            CandidateJoinError::ColumnCountMismatch { set, point_index, expected, actual } => {
                let mut text = String::from_str("candidate set '");
                text.append(set.as_str());
                text.append("' point ");
                append_decimal(&mut text, *point_index);
                text.append(" has ");
                append_decimal(&mut text, *actual);
                text.append(" columns, expected ");
                append_decimal(&mut text, *expected);
                text
            },
            CandidateJoinError::ColumnNameMismatch { set, point_index, column_index, expected, actual } => {
                let mut text = String::from_str("candidate set '");
                text.append(set.as_str());
                text.append("' point ");
                append_decimal(&mut text, *point_index);
                text.append(" column ");
                append_decimal(&mut text, *column_index);
                text.append(" is '");
                text.append(actual.as_str());
                text.append("', expected '");
                text.append(expected.as_str());
                text.append("'");
                text
            },
            CandidateJoinError::MissingColumn { set, column } => {
                let mut text = String::from_str("candidate set '");
                text.append(set.as_str());
                text.append("' has no column '");
                text.append(column.as_str());
                text.append("'");
                text
            },
            CandidateJoinError::NonFiniteJoinValue { set, point_index, column } => {
                let mut text = String::from_str("candidate set '");
                text.append(set.as_str());
                text.append("' point ");
                append_decimal(&mut text, *point_index);
                text.append(" has a non-finite join value in '");
                text.append(column.as_str());
                text.append("'");
                text
            },
            CandidateJoinError::PairCountOverflow { left_count, right_count } => {
                let mut text = String::from_str("candidate pair count overflows usize: ");
                append_decimal(&mut text, *left_count);
                text.append(" * ");
                append_decimal(&mut text, *right_count);
                text
            },
        }
    }
}

impl CandidateJoinError {
    /// Converts a schema violation, keeping its fields.
    pub fn from_schema(error: CandidateSchemaError) -> (converted: Self)
        ensures
            forall|set: CandidateSet, fault: SchemaFault|
                error.reports(set, fault) ==> #[trigger] converted.reports_schema(set, fault),
    {
        match error {
            CandidateSchemaError::EmptySet { set } => CandidateJoinError::EmptyCandidateSet { set },
            CandidateSchemaError::DuplicateColumn { set, point_index, column } => {
                CandidateJoinError::DuplicateColumn { set, point_index, column }
            },
            CandidateSchemaError::ColumnCountMismatch { set, point_index, expected, actual } => {
                CandidateJoinError::ColumnCountMismatch { set, point_index, expected, actual }
            },
            CandidateSchemaError::ColumnNameMismatch {
                set,
                point_index,
                column_index,
                expected,
                actual,
            } => CandidateJoinError::ColumnNameMismatch {
                set,
                point_index,
                column_index,
                expected,
                actual,
            },
        }
    }

    /// This error reports schema violation `fault` of `set`.
    pub open spec fn reports_schema(self, set: CandidateSet, fault: SchemaFault) -> bool {
        match (self, fault) {
            (CandidateJoinError::EmptyCandidateSet { set: name }, SchemaFault::EmptySet) => name@
                == set.name@,
            (
                CandidateJoinError::DuplicateColumn { set: name, point_index, column: name_col },
                SchemaFault::DuplicateColumn { point, column },
            ) => name@ == set.name@ && point_index == point && name_col@ == point_names(
                set,
                point,
            )[column],
            (
                CandidateJoinError::ColumnCountMismatch { set: name, point_index, expected, actual },
                SchemaFault::ColumnCountMismatch { point },
            ) => name@ == set.name@ && point_index == point && expected == point_names(set, 0).len()
                && actual == point_names(set, point).len(),
            (
                CandidateJoinError::ColumnNameMismatch {
                    set: name,
                    point_index,
                    column_index,
                    expected,
                    actual,
                },
                SchemaFault::ColumnNameMismatch { point, column },
            ) => name@ == set.name@ && point_index == point && column_index == column && expected@
                == point_names(set, 0)[column] && actual@ == point_names(set, point)[column],
            _ => false,
        }
    }
}

/// Columns named by the equalities on one side.
pub open spec fn side_columns(equalities: Seq<CandidateEquality>, left: bool) -> Seq<Seq<char>> {
    equalities.map_values(
        |equality: CandidateEquality|
            if left {
                equality.left_column@
            } else {
                equality.right_column@
            },
    )
}

/// Column `k` of `names` is absent from the set.
pub open spec fn missing_pred(set: CandidateSet, names: Seq<Seq<char>>) -> spec_fn(int) -> bool {
    |k: int| position_of(point_names(set, 0), names[k]) is None
}

/// Offsets of the named columns in the set's schema.
pub open spec fn offsets_of(set: CandidateSet, names: Seq<Seq<char>>) -> Seq<usize> {
    names.map_values(
        |name: Seq<char>|
            match position_of(point_names(set, 0), name) {
                Some(i) => i as usize,
                None => 0usize,
            },
    )
}

/// Whether the left set is the indexed side of the join.
pub open spec fn join_indexed_left(
    left: CandidateSet,
    right: CandidateSet,
    equalities: Seq<CandidateEquality>,
) -> bool {
    equalities.len() > 0 && left.points@.len() < right.points@.len()
}

/// Join keys of one side.
pub open spec fn side_keys(set: CandidateSet, equalities: Seq<CandidateEquality>, left: bool) -> Seq<
    Seq<u64>,
> {
    keys_of(set, offsets_of(set, side_columns(equalities, left)))
}

/// Compatible (left, right) selections in join order: the probe side is
/// traversed in order and, for each probe point, every indexed point with the
/// same key in increasing index order. The smaller set is indexed when it is
/// the left one; without equalities every pair is compatible and the order is
/// left-major.
pub open spec fn join_pairs(
    left: CandidateSet,
    right: CandidateSet,
    equalities: Seq<CandidateEquality>,
) -> Seq<(int, int)> {
    let lk = side_keys(left, equalities, true);
    let rk = side_keys(right, equalities, false);
    if join_indexed_left(left, right, equalities) {
        oriented(rows_from(rk, lk, 0), true)
    } else {
        oriented(rows_from(lk, rk, 0), false)
    }
}

/// The first failure met while preparing a join, by position.
pub enum JoinFault {
    Schema { left: bool, fault: SchemaFault },
    MissingColumn { left: bool, equality: int },
    NonFiniteJoinValue { left: bool, point: int, equality: int },
    PairCountOverflow,
}

/// The first non-finite key value of the given side, as (point, equality).
pub open spec fn first_key_fault(set: CandidateSet, offsets: Seq<usize>, p: int) -> int {
    first_index(offsets.len() as int, key_fault_pred(set, offsets, p))
}

/// Which failure preparing the join reports: the schemas (left first), then
/// missing columns (left first), then non-finite join values of the indexed
/// side, then, probe point by probe point, a non-finite join value or a total
/// pair count beyond `usize::MAX`.
pub open spec fn join_fault(
    left: CandidateSet,
    right: CandidateSet,
    equalities: Seq<CandidateEquality>,
) -> Option<JoinFault> {
    if schema_fault(left) is Some {
        Some(JoinFault::Schema { left: true, fault: schema_fault(left)->0 })
    } else if schema_fault(right) is Some {
        Some(JoinFault::Schema { left: false, fault: schema_fault(right)->0 })
    } else if equalities.len() == 0 {
        if left.points@.len() * right.points@.len() > usize::MAX {
            Some(JoinFault::PairCountOverflow)
        } else {
            None
        }
    } else {
        let ln = side_columns(equalities, true);
        let rn = side_columns(equalities, false);
        if any_below(ln.len() as int, missing_pred(left, ln)) {
            Some(
                JoinFault::MissingColumn {
                    left: true,
                    equality: first_index(ln.len() as int, missing_pred(left, ln)),
                },
            )
        } else if any_below(rn.len() as int, missing_pred(right, rn)) {
            Some(
                JoinFault::MissingColumn {
                    left: false,
                    equality: first_index(rn.len() as int, missing_pred(right, rn)),
                },
            )
        } else {
            let il = join_indexed_left(left, right, equalities);
            let iset = if il { left } else { right };
            let pset = if il { right } else { left };
            let ioffs = offsets_of(iset, side_columns(equalities, il));
            let poffs = offsets_of(pset, side_columns(equalities, !il));
            let ipred = point_key_fault_pred(iset, ioffs);
            let ppred = point_key_fault_pred(pset, poffs);
            let np = pset.points@.len() as int;
            if any_below(iset.points@.len() as int, ipred) {
                let p = first_index(iset.points@.len() as int, ipred);
                Some(
                    JoinFault::NonFiniteJoinValue {
                        left: il,
                        point: p,
                        equality: first_key_fault(iset, ioffs, p),
                    },
                )
            } else {
                let bad = if any_below(np, ppred) {
                    first_index(np, ppred)
                } else {
                    np
                };
                if rows_upto(keys_of(pset, poffs), keys_of(iset, ioffs), bad).len() > usize::MAX {
                    Some(JoinFault::PairCountOverflow)
                } else if bad < np {
                    Some(
                        JoinFault::NonFiniteJoinValue {
                            left: !il,
                            point: bad,
                            equality: first_key_fault(pset, poffs, bad),
                        },
                    )
                } else {
                    None
                }
            }
        }
    }
}

impl CandidateJoinError {
    /// This error reports `fault` of the join of `left` and `right`.
    pub open spec fn reports(
        self,
        left: CandidateSet,
        right: CandidateSet,
        equalities: Seq<CandidateEquality>,
        fault: JoinFault,
    ) -> bool {
        match fault {
            JoinFault::Schema { left: is_left, fault } => self.reports_schema(
                if is_left {
                    left
                } else {
                    right
                },
                fault,
            ),
            JoinFault::MissingColumn { left: is_left, equality } => self matches CandidateJoinError::MissingColumn {
                set,
                column,
            } && set@ == (if is_left {
                left
            } else {
                right
            }).name@ && column@ == side_columns(equalities, is_left)[equality],
            JoinFault::NonFiniteJoinValue { left: is_left, point, equality } => self matches CandidateJoinError::NonFiniteJoinValue {
                set,
                point_index,
                column,
            } && set@ == (if is_left {
                left
            } else {
                right
            }).name@ && point_index == point && column@ == side_columns(equalities, is_left)[equality],
            JoinFault::PairCountOverflow => self matches CandidateJoinError::PairCountOverflow {
                left_count,
                right_count,
            } && left_count == left.points@.len() && right_count == right.points@.len(),
        }
    }
}

/// Lazy traversal of the compatible pairs of two candidate sets.
#[derive(Debug)]
pub struct CandidatePairJoin {
    probe_keys: Vec<Vec<u64>>,
    index_keys: Vec<Vec<u64>>,
    indexed_left: bool,
    next_probe: usize,
    next_index: usize,
    remaining: usize,
}

/// Views of a list of keys.
pub open spec fn key_views(keys: Seq<Vec<u64>>) -> Seq<Seq<u64>> {
    keys.map_values(|key: Vec<u64>| key@)
}

impl CandidatePairJoin {
    /// The (left, right) selections not yet returned, in order.
    pub closed spec fn view(&self) -> Seq<(int, int)> {
        let probe = key_views(self.probe_keys@);
        let index = key_views(self.index_keys@);
        oriented(
            if self.next_probe < probe.len() {
                row_matches(probe, index, self.next_probe as int, self.next_index as int)
                    + rows_from(probe, index, self.next_probe + 1)
            } else {
                Seq::empty()
            },
            self.indexed_left,
        )
    }

    /// Internal consistency of the traversal state.
    pub closed spec fn wf(&self) -> bool {
        &&& self.next_probe <= self.probe_keys@.len()
        &&& self.next_index <= self.index_keys@.len()
        &&& self.remaining == self.view().len()
    }

    /// Returns the number of selections not yet returned.
    pub fn len(&self) -> (n: usize)
        requires
            self.wf(),
        ensures
            n == self.view().len(),
    {
        self.remaining
    }

    /// Returns the exact number of remaining selections as lower and upper
    /// bounds.
    pub fn size_hint(&self) -> (hint: (usize, Option<usize>))
        requires
            self.wf(),
        ensures
            hint.0 == self.view().len(),
            hint.1 == Some(self.view().len() as usize),
    {
        (self.remaining, Some(self.remaining))
    }

    /// Returns the next compatible selection.
    pub fn next(&mut self) -> (selection: Option<CandidatePairSelection>)
        requires
            old(self).wf(),
        ensures
            final(self).wf(),
            old(self).view().len() == 0 ==> selection is None && final(self).view() == old(
                self,
            ).view(),
            old(self).view().len() > 0 ==> (selection matches Some(s) && (
                s.left_index as int,
                s.right_index as int,
            ) == old(self).view()[0] && final(self).view() == old(self).view().drop_first()),
    {
        if self.remaining == 0 {
            return None;
        }
        let ghost start = self.view();
        loop
            invariant
                self.next_probe <= self.probe_keys@.len(),
                self.next_index <= self.index_keys@.len(),
                self.view() == start,
                start == old(self).view(),
                self.remaining == start.len(),
                start.len() > 0,
                self.probe_keys@ == old(self).probe_keys@,
                self.index_keys@ == old(self).index_keys@,
                self.indexed_left == old(self).indexed_left,
            decreases self.probe_keys@.len() - self.next_probe, self.index_keys@.len() - self.next_index,
        {
            let ghost probe = key_views(self.probe_keys@);
            let ghost index = key_views(self.index_keys@);
            let ghost np = self.next_probe as int;
            let ghost ni = self.next_index as int;
            assert(self.next_probe < self.probe_keys.len());
            if self.next_index < self.index_keys.len() {
                let matched = keys_equal(
                    &self.index_keys[self.next_index],
                    &self.probe_keys[self.next_probe],
                );
                let probe_index = self.next_probe;
                let index_index = self.next_index;
                self.next_index = self.next_index + 1;
                if matched {
                    self.remaining = self.remaining - 1;
                    assert(index[ni] == probe[np]);
                    let selection = if self.indexed_left {
                        CandidatePairSelection::new(index_index, probe_index)
                    } else {
                        CandidatePairSelection::new(probe_index, index_index)
                    };
                    proof {
                        let rest = row_matches(probe, index, np, ni + 1) + rows_from(probe, index, np + 1);
                        assert(row_matches(probe, index, np, ni) + rows_from(probe, index, np + 1)
                            =~= seq![(np, ni)] + rest);
                        assert(self.view() =~= oriented(rest, self.indexed_left));
                        assert(start =~= oriented(seq![(np, ni)] + rest, self.indexed_left));
                        assert(self.view() =~= start.drop_first());
                    }
                    return Some(selection);
                }
                assert(row_matches(probe, index, np, ni) == row_matches(probe, index, np, ni + 1));
            } else {
                self.next_probe = self.next_probe + 1;
                self.next_index = 0;
                proof {
                    assert(row_matches(probe, index, np, ni) =~= Seq::<(int, int)>::empty());
                    if np + 1 < probe.len() {
                        assert(rows_from(probe, index, np + 1) == row_matches(probe, index, np + 1, 0)
                            + rows_from(probe, index, np + 2));
                        assert(start =~= self.view());
                    } else {
                        assert(rows_from(probe, index, np + 1) =~= Seq::<(int, int)>::empty());
                        assert(start =~= Seq::<(int, int)>::empty());
                    }
                }
            }
        }
    }

    /// Returns every remaining selection, in order, leaving the traversal
    /// exhausted.
    pub fn remaining_selections(&mut self) -> (selections: Vec<CandidatePairSelection>)
        requires
            old(self).wf(),
        ensures
            final(self).wf(),
            final(self).view().len() == 0,
            selections@.len() == old(self).view().len(),
            forall|k: int| 0 <= k < selections@.len() ==> (#[trigger] selections@[k].left_index as int,
                selections@[k].right_index as int) == old(self).view()[k],
    {
        let ghost start = self.view();
        let mut selections: Vec<CandidatePairSelection> = Vec::new();
        while self.remaining > 0
            invariant
                self.wf(),
                selections@.len() + self.view().len() == start.len(),
                self.view() == start.skip(selections@.len() as int),
                forall|k: int| 0 <= k < selections@.len() ==> (#[trigger] selections@[k].left_index as int,
                    selections@[k].right_index as int) == start[k],
            decreases self.remaining,
        {
            let ghost before = self.view();
            match self.next() {
                Some(selection) => {
                    selections.push(selection);
                    assert(self.view() =~= start.skip(selections@.len() as int));
                },
                None => {},
            }
        }
        selections
    }
}

/// A found position is in range and names the searched column.
pub proof fn lemma_position_of(names: Seq<Seq<char>>, name: Seq<char>)
    ensures
        position_of(names, name) matches Some(i) ==> 0 <= i < names.len() && names[i] == name
            && forall|k: int| 0 <= k < i ==> names[k] != name,
        position_of(names, name) is None ==> forall|k: int| 0 <= k < names.len() ==> names[k] != name,
{
    if any_below(names.len() as int, equal_pred(names, name)) {
        lemma_first_exists(names.len() as int, equal_pred(names, name));
        let i = first_index(names.len() as int, equal_pred(names, name));
        assert forall|k: int| 0 <= k < i implies names[k] != name by {
            assert(!equal_pred(names, name)(k));
        }
    } else {
        assert forall|k: int| 0 <= k < names.len() implies names[k] != name by {
            if names[k] == name {
                assert(equal_pred(names, name)(k));
            }
        }
    }
}

/// In a valid set every point has the column names of the first point.
pub proof fn lemma_schema_uniform(set: CandidateSet)
    requires
        schema_valid(set),
    ensures
        set.points@.len() > 0,
        forall|p: int| 0 <= p < set.points@.len() ==> #[trigger] point_names(set, p) == point_names(set, 0),
        forall|p: int| 0 <= p < set.points@.len() ==> #[trigger] set.points@[p].values@.len() == point_names(set, 0).len(),
{
    let first = point_names(set, 0);
    assert forall|p: int| 0 <= p < set.points@.len() implies #[trigger] point_names(set, p) == first by {
        if p > 0 {
            assert(!point_fault_pred(set)(p));
            let names = point_names(set, p);
            assert forall|j: int| 0 <= j < names.len() implies names[j] == first[j] by {
                assert(!column_fault_pred(first, names)(j));
            }
            assert(names =~= first);
        }
    }
    assert forall|p: int| 0 <= p < set.points@.len() implies #[trigger] set.points@[p].values@.len() == first.len() by {
        assert(point_names(set, p) == first);
    }
}

/// Offsets of the equality columns of one side, or the first missing column.
fn equality_offsets(
    set: &CandidateSet,
    columns: &CandidateColumns,
    equalities: &[CandidateEquality],
    left: bool,
) -> (result: Result<Vec<usize>, usize>)
    requires
        columns.view() == point_names(*set, 0),
    ensures
        match result {
            Ok(offsets) => offsets@ == offsets_of(*set, side_columns(equalities@, left)) && !any_below(
                equalities@.len() as int,
                missing_pred(*set, side_columns(equalities@, left)),
            ) && forall|k: int| 0 <= k < offsets@.len() ==> #[trigger] offsets@[k] < point_names(*set, 0).len(),
            Err(k) => is_first(
                equalities@.len() as int,
                missing_pred(*set, side_columns(equalities@, left)),
                k as int,
            ),
        },
{
    let ghost names = side_columns(equalities@, left);
    let n = equalities.len();
    let mut offsets: Vec<usize> = Vec::new();
    let mut k: usize = 0;
    while k < n
        invariant
            n == equalities@.len(),
            names == side_columns(equalities@, left),
            columns.view() == point_names(*set, 0),
            k <= n,
            offsets@ == offsets_of(*set, names).take(k as int),
            forall|j: int| 0 <= j < k ==> !#[trigger] missing_pred(*set, names)(j),
            forall|j: int| 0 <= j < offsets@.len() ==> #[trigger] offsets@[j] < point_names(*set, 0).len(),
        decreases n - k,
    {
        let column = if left {
            &equalities[k].left_column
        } else {
            &equalities[k].right_column
        };
        assert(column@ == names[k as int]);
        proof {
            lemma_position_of(point_names(*set, 0), names[k as int]);
        }
        match columns.get(column.as_str()) {
            Some(offset) => {
                offsets.push(offset);
                assert(offsets@ =~= offsets_of(*set, names).take(k + 1));
            },
            None => {
                proof {
                    lemma_first_index(n as int, missing_pred(*set, names), k as int);
                }
                return Err(k);
            },
        }
        k = k + 1;
    }
    assert(offsets@ =~= offsets_of(*set, names));
    Ok(offsets)
}

/// Join keys of every point of a set, or the first (point, equality) whose
/// value is not finite.
fn side_join_keys(set: &CandidateSet, offsets: &Vec<usize>) -> (result: Result<
    Vec<Vec<u64>>,
    (usize, usize),
>)
    requires
        forall|p: int, k: int|
            0 <= p < set.points@.len() && 0 <= k < offsets@.len() ==> #[trigger] offsets@[k]
                < #[trigger] set.points@[p].values@.len(),
    ensures
        match result {
            Ok(keys) => key_views(keys@) == keys_of(*set, offsets@) && !any_below(
                set.points@.len() as int,
                point_key_fault_pred(*set, offsets@),
            ),
            Err((p, k)) => is_first(
                set.points@.len() as int,
                point_key_fault_pred(*set, offsets@),
                p as int,
            ) && k < offsets@.len() && k as int == first_key_fault(*set, offsets@, p as int),
        },
{
    let n = set.points.len();
    let mut keys: Vec<Vec<u64>> = Vec::new();
    let mut p: usize = 0;
    while p < n
        invariant
            n == set.points@.len(),
            forall|q: int, k: int|
                0 <= q < set.points@.len() && 0 <= k < offsets@.len() ==> #[trigger] offsets@[k]
                    < #[trigger] set.points@[q].values@.len(),
            p <= n,
            keys@.len() == p,
            key_views(keys@) == keys_of(*set, offsets@).take(p as int),
            forall|q: int| 0 <= q < p ==> !#[trigger] point_key_fault_pred(*set, offsets@)(q),
        decreases n - p,
    {
        assert forall|k: int| 0 <= k < offsets@.len() implies #[trigger] offsets@[k]
            < set.points@[p as int].values@.len() by {}
        match join_key(set, p, offsets) {
            Ok(key) => {
                let ghost before = keys@;
                keys.push(key);
                proof {
                    let all = keys_of(*set, offsets@);
                    assert(all[p as int] == key_of(*set, offsets@, p as int));
                    assert forall|q: int| 0 <= q < p implies key_views(keys@)[q] == all[q] by {
                        assert(keys@[q] == before[q]);
                        assert(key_views(before)[q] == all.take(p as int)[q]);
                    }
                    assert(key_views(keys@)[p as int] == all[p as int]);
                    assert(key_views(keys@) =~= all.take(p + 1));
                }
            },
            Err(k) => {
                proof {
                    lemma_first_index(
                        offsets@.len() as int,
                        key_fault_pred(*set, offsets@, p as int),
                        k as int,
                    );
                    lemma_first_index(n as int, point_key_fault_pred(*set, offsets@), p as int);
                }
                return Err((p, k));
            },
        }
        p = p + 1;
    }
    assert(key_views(keys@) =~= keys_of(*set, offsets@));
    Ok(keys)
}

/// The number of matches is monotone in the number of probe rows.
pub proof fn lemma_rows_upto_monotone(
    probe: Seq<Seq<u64>>,
    index: Seq<Seq<u64>>,
    a: int,
    b: int,
)
    requires
        0 <= a <= b,
    ensures
        rows_upto(probe, index, a).len() <= rows_upto(probe, index, b).len(),
    decreases b - a,
{
    if a < b {
        lemma_rows_upto_monotone(probe, index, a, b - 1);
    }
}

/// Row matches from `i` on form a suffix of the row.
pub proof fn lemma_row_suffix(probe: Seq<Seq<u64>>, index: Seq<Seq<u64>>, p: int, i: int)
    requires
        0 <= i <= index.len(),
    ensures
        row_matches(probe, index, p, i).len() <= row_matches(probe, index, p, 0).len(),
    decreases i,
{
    if i > 0 {
        lemma_row_suffix(probe, index, p, i - 1);
    }
}

/// Keys that are all empty.
fn empty_keys(n: usize) -> (keys: Vec<Vec<u64>>)
    ensures
        keys@.len() == n,
        forall|p: int| 0 <= p < n ==> (#[trigger] keys@[p])@ == Seq::<u64>::empty(),
{
    let mut keys: Vec<Vec<u64>> = Vec::new();
    let mut p: usize = 0;
    while p < n
        invariant
            p <= n,
            keys@.len() == p,
            forall|q: int| 0 <= q < p ==> (#[trigger] keys@[q])@ == Seq::<u64>::empty(),
        decreases n - p,
    {
        keys.push(Vec::new());
        p = p + 1;
    }
    keys
}

impl CandidatePairJoin {
    /// Validates both schemas, the equality columns and their values, and
    /// prepares the lazy traversal of every compatible pair.
    #[verifier::loop_isolation(false)]
    pub fn new(left: &CandidateSet, right: &CandidateSet, equalities: &[CandidateEquality]) -> (result:
        Result<Self, CandidateJoinError>)
        ensures
            match join_fault(*left, *right, equalities@) {
                None => result matches Ok(join) && join.wf() && join.view() == join_pairs(
                    *left,
                    *right,
                    equalities@,
                ),
                Some(fault) => result matches Err(error) && error.reports(
                    *left,
                    *right,
                    equalities@,
                    fault,
                ),
            },
    {
        let left_columns = match candidate_column_indices(left) {
            Ok(columns) => columns,
            Err(error) => {
                return Err(CandidateJoinError::from_schema(error));
            },
        };
        let right_columns = match candidate_column_indices(right) {
            Ok(columns) => columns,
            Err(error) => {
                return Err(CandidateJoinError::from_schema(error));
            },
        };
        proof {
            lemma_schema_uniform(*left);
            lemma_schema_uniform(*right);
        }
        let ghost eqs = equalities@;
        let nl = left.points.len();
        let nr = right.points.len();
        if equalities.len() == 0 {
            let count = match nl.checked_mul(nr) {
                Some(count) => count,
                None => {
                    return Err(
                        CandidateJoinError::PairCountOverflow { left_count: nl, right_count: nr },
                    );
                },
            };
            let probe_keys = empty_keys(nl);
            let index_keys = empty_keys(nr);
            let join = CandidatePairJoin {
                probe_keys,
                index_keys,
                indexed_left: false,
                next_probe: 0,
                next_index: 0,
                remaining: count,
            };
            proof {
                let probe = key_views(join.probe_keys@);
                let index = key_views(join.index_keys@);
                assert(side_columns(eqs, true).len() == 0);
                assert(side_columns(eqs, false).len() == 0);
                let lo = offsets_of(*left, side_columns(eqs, true));
                let ro = offsets_of(*right, side_columns(eqs, false));
                assert(lo.len() == 0 && ro.len() == 0);
                assert forall|q: int| 0 <= q < nl implies #[trigger] probe[q] == key_of(*left, lo, q) by {
                    assert(key_of(*left, lo, q) =~= Seq::<u64>::empty());
                }
                assert forall|q: int| 0 <= q < nr implies #[trigger] index[q] == key_of(*right, ro, q) by {
                    assert(key_of(*right, ro, q) =~= Seq::<u64>::empty());
                }
                assert(probe =~= side_keys(*left, eqs, true));
                assert(index =~= side_keys(*right, eqs, false));
                lemma_rows_all(probe, index, 0);
                assert(join.view() =~= oriented(rows_from(probe, index, 0), false));
            }
            return Ok(join);
        }
        let left_offsets = match equality_offsets(left, &left_columns, equalities, true) {
            Ok(offsets) => offsets,
            Err(k) => {
                return Err(
                    CandidateJoinError::MissingColumn {
                        set: left.name.clone(),
                        column: equalities[k].left_column.clone(),
                    },
                );
            },
        };
        let right_offsets = match equality_offsets(right, &right_columns, equalities, false) {
            Ok(offsets) => offsets,
            Err(k) => {
                return Err(
                    CandidateJoinError::MissingColumn {
                        set: right.name.clone(),
                        column: equalities[k].right_column.clone(),
                    },
                );
            },
        };
        let indexed_left = nl < nr;
        let (index_set, index_offsets, probe_set, probe_offsets) = if indexed_left {
            (left, &left_offsets, right, &right_offsets)
        } else {
            (right, &right_offsets, left, &left_offsets)
        };
        let ghost ioffs = index_offsets@;
        let ghost poffs = probe_offsets@;
        assert(ioffs.len() == equalities@.len());
        assert(poffs.len() == equalities@.len());
        assert(ioffs == offsets_of(*index_set, side_columns(eqs, indexed_left)));
        assert(poffs == offsets_of(*probe_set, side_columns(eqs, !indexed_left)));
        let index_keys = match side_join_keys(index_set, index_offsets) {
            Ok(keys) => keys,
            Err((p, k)) => {
                let column = if indexed_left {
                    equalities[k].left_column.clone()
                } else {
                    equalities[k].right_column.clone()
                };
                return Err(
                    CandidateJoinError::NonFiniteJoinValue {
                        set: index_set.name.clone(),
                        point_index: p,
                        column,
                    },
                );
            },
        };
        let ghost index = key_views(index_keys@);
        let ghost probe = keys_of(*probe_set, poffs);
        proof {
            let il = join_indexed_left(*left, *right, eqs);
            assert(il == indexed_left);
            assert(*probe_set == if il { *right } else { *left });
            assert(*index_set == if il { *left } else { *right });
            assert(schema_fault(*left) is None && schema_fault(*right) is None);
            assert(eqs.len() > 0);
            assert(!any_below(
                side_columns(eqs, true).len() as int,
                missing_pred(*left, side_columns(eqs, true)),
            ));
            assert(!any_below(
                side_columns(eqs, false).len() as int,
                missing_pred(*right, side_columns(eqs, false)),
            ));
            assert(index == keys_of(*index_set, ioffs));
        }
        let np = probe_set.points.len();
        let ni = index_keys.len();
        let mut probe_keys: Vec<Vec<u64>> = Vec::new();
        let mut count: usize = 0;
        let mut p: usize = 0;
        while p < np
            invariant
                np == probe_set.points@.len(),
                ni == index_keys@.len(),
                index == key_views(index_keys@),
                probe == keys_of(*probe_set, poffs),
                poffs == probe_offsets@,
                forall|q: int, k: int|
                    0 <= q < probe_set.points@.len() && 0 <= k < poffs.len() ==> #[trigger] poffs[k]
                        < #[trigger] probe_set.points@[q].values@.len(),
                p <= np,
                key_views(probe_keys@) == probe.take(p as int),
                count == rows_upto(probe, index, p as int).len(),
                forall|q: int| 0 <= q < p ==> !#[trigger] point_key_fault_pred(*probe_set, poffs)(q),
            decreases np - p,
        {
            assert forall|k: int| 0 <= k < poffs.len() implies #[trigger] poffs[k]
                < probe_set.points@[p as int].values@.len() by {}
            let key = match join_key(probe_set, p, probe_offsets) {
                Ok(key) => key,
                Err(k) => {
                    proof {
                        lemma_first_index(
                            poffs.len() as int,
                            key_fault_pred(*probe_set, poffs, p as int),
                            k as int,
                        );
                        lemma_first_index(np as int, point_key_fault_pred(*probe_set, poffs), p as int);
                    }
                    let column = if indexed_left {
                        equalities[k].right_column.clone()
                    } else {
                        equalities[k].left_column.clone()
                    };
                    return Err(
                        CandidateJoinError::NonFiniteJoinValue {
                            set: probe_set.name.clone(),
                            point_index: p,
                            column,
                        },
                    );
                },
            };
            assert(key@ == probe[p as int]);
            let ghost base = count as int;
            let mut i: usize = 0;
            while i < ni
                invariant
                    ni == index_keys@.len(),
                    index == key_views(index_keys@),
                    key@ == probe[p as int],
                    probe.len() == np,
                    p < np,
                    i <= ni,
                    base == rows_upto(probe, index, p as int).len(),
                    count == base + row_matches(probe, index, p as int, 0).len() - row_matches(
                        probe,
                        index,
                        p as int,
                        i as int,
                    ).len(),
                    forall|q: int| 0 <= q <= p ==> !#[trigger] point_key_fault_pred(*probe_set, poffs)(q),
                decreases ni - i,
            {
                if keys_equal(&index_keys[i], &key) {
                    if count == usize::MAX {
                        proof {
                            assert(index[i as int] == probe[p as int]);
                            assert(row_matches(probe, index, p as int, i as int).len() >= 1);
                            assert(rows_upto(probe, index, p + 1).len() == base + row_matches(
                                probe,
                                index,
                                p as int,
                                0,
                            ).len());
                            assert(rows_upto(probe, index, p + 1).len() > usize::MAX);
                            let ppred = point_key_fault_pred(*probe_set, poffs);
                            if any_below(np as int, ppred) {
                                lemma_first_exists(np as int, ppred);
                                let bad = first_index(np as int, ppred);
                                assert(bad > p);
                                lemma_rows_upto_monotone(probe, index, p + 1, bad);
                                assert(rows_upto(probe, index, bad).len() > usize::MAX);
                            } else {
                                lemma_rows_upto_monotone(probe, index, p + 1, np as int);
                                assert(rows_upto(probe, index, np as int).len() > usize::MAX);
                            }
                            assert(!any_below(
                                index_set.points@.len() as int,
                                point_key_fault_pred(*index_set, ioffs),
                            ));
                            assert(join_fault(*left, *right, eqs) == Some(JoinFault::PairCountOverflow));
                        }
                        return Err(
                            CandidateJoinError::PairCountOverflow {
                                left_count: nl,
                                right_count: nr,
                            },
                        );
                    }
                    count = count + 1;
                }
                i = i + 1;
            }
            probe_keys.push(key);
            assert(key_views(probe_keys@) =~= probe.take(p + 1));
            p = p + 1;
        }
        assert(key_views(probe_keys@) =~= probe);
        let join = CandidatePairJoin {
            probe_keys,
            index_keys,
            indexed_left,
            next_probe: 0,
            next_index: 0,
            remaining: count,
        };
        proof {
            assert(!any_below(np as int, point_key_fault_pred(*probe_set, poffs)));
            lemma_rows_split(probe, index, np as int);
            assert(rows_from(probe, index, np as int) =~= Seq::<(int, int)>::empty());
            assert(rows_upto(probe, index, np as int) =~= rows_from(probe, index, 0));
            if 0 < np {
                assert(join.view() =~= oriented(rows_from(probe, index, 0), indexed_left));
            } else {
                assert(join.view() =~= oriented(rows_from(probe, index, 0), indexed_left));
            }
        }
        Ok(join)
    }

    /// Every pair of the two sets, in left-major order.
    pub fn cartesian(left: &CandidateSet, right: &CandidateSet) -> (result: Result<
        Self,
        CandidateJoinError,
    >)
        ensures
            match join_fault(*left, *right, Seq::empty()) {
                None => result matches Ok(join) && join.wf() && join.view() == join_pairs(
                    *left,
                    *right,
                    Seq::empty(),
                ),
                Some(fault) => result matches Err(error) && error.reports(
                    *left,
                    *right,
                    Seq::empty(),
                    fault,
                ),
            },
    {
        let equalities: Vec<CandidateEquality> = Vec::new();
        Self::new(left, right, equalities.as_slice())
    }
}

/// Errors produced while turning table columns into a candidate set.
#[derive(Debug, Clone, PartialEq, Eq)]
pub enum CandidateSetBuildError {
    EmptyColumns,
    ColumnLengthMismatch { column: String, expected: usize, actual: usize },
}

/// Column `c` has a length other than the first column's.
pub open spec fn ragged_pred(columns: Seq<ExplorationColumn>) -> spec_fn(int) -> bool {
    |c: int| columns[c].values@.len() != columns[0].values@.len()
}

/// The points hold, row by row, every column in order.
pub open spec fn rows_of(columns: Seq<ExplorationColumn>, points: Seq<CandidatePoint>) -> bool {
    &&& points.len() == columns[0].values@.len()
    &&& forall|r: int| 0 <= r < points.len() ==> (#[trigger] points[r]).values@.len() == columns.len()
    &&& forall|r: int, c: int|
        #![trigger points[r].values@[c]]
        0 <= r < points.len() && 0 <= c < columns.len() ==> points[r].values@[c].0@ == columns[c].name@
            && points[r].values@[c].1 == columns[c].values@[r]
}

/// Builds a candidate set with one point per row of equally long columns.
pub fn candidate_set_from_columns(name: String, columns: &[ExplorationColumn]) -> (result: Result<
    CandidateSet,
    CandidateSetBuildError,
>)
    ensures
        columns@.len() == 0 ==> result == Err::<CandidateSet, _>(CandidateSetBuildError::EmptyColumns),
        columns@.len() > 0 && any_below(columns@.len() as int, ragged_pred(columns@)) ==> {
            let c = first_index(columns@.len() as int, ragged_pred(columns@));
            result matches Err(CandidateSetBuildError::ColumnLengthMismatch { column, expected, actual })
                && column@ == columns@[c].name@ && expected == columns@[0].values@.len() && actual
                == columns@[c].values@.len()
        },
        columns@.len() > 0 && !any_below(columns@.len() as int, ragged_pred(columns@)) ==> (result matches Ok(
            set,
        ) && set.name@ == name@ && rows_of(columns@, set.points@)),
{
    let m = columns.len();
    if m == 0 {
        return Err(CandidateSetBuildError::EmptyColumns);
    }
    let rows = columns[0].values.len();
    let mut c: usize = 0;
    while c < m
        invariant
            m == columns@.len(),
            m > 0,
            rows == columns@[0].values@.len(),
            c <= m,
            forall|j: int| 0 <= j < c ==> !#[trigger] ragged_pred(columns@)(j),
        decreases m - c,
    {
        if columns[c].values.len() != rows {
            proof {
                lemma_first_index(m as int, ragged_pred(columns@), c as int);
            }
            return Err(
                CandidateSetBuildError::ColumnLengthMismatch {
                    column: columns[c].name.clone(),
                    expected: rows,
                    actual: columns[c].values.len(),
                },
            );
        }
        c = c + 1;
    }
    let mut points: Vec<CandidatePoint> = Vec::new();
    let mut r: usize = 0;
    while r < rows
        invariant
            m == columns@.len(),
            m > 0,
            rows == columns@[0].values@.len(),
            forall|j: int| 0 <= j < m ==> !#[trigger] ragged_pred(columns@)(j),
            r <= rows,
            points@.len() == r,
            forall|q: int| 0 <= q < r ==> (#[trigger] points@[q]).values@.len() == m,
            forall|q: int, j: int|
                #![trigger points@[q].values@[j]]
                0 <= q < r && 0 <= j < m ==> points@[q].values@[j].0@ == columns@[j].name@
                    && points@[q].values@[j].1 == columns@[j].values@[q],
        decreases rows - r,
    {
        let mut values: Vec<(String, u64)> = Vec::new();
        let mut j: usize = 0;
        while j < m
            invariant
                m == columns@.len(),
                rows == columns@[0].values@.len(),
                forall|t: int| 0 <= t < m ==> !#[trigger] ragged_pred(columns@)(t),
                r < rows,
                j <= m,
                values@.len() == j,
                forall|t: int| 0 <= t < j ==> #[trigger] values@[t].0@ == columns@[t].name@ && values@[t].1
                    == columns@[t].values@[r as int],
            decreases m - j,
        {
            assert(!ragged_pred(columns@)(j as int));
            values.push((columns[j].name.clone(), columns[j].values[r]));
            j = j + 1;
        }
        let point = CandidatePoint::new(values);
        points.push(point);
        proof {
            assert forall|q: int, t: int|
                #![trigger points@[q].values@[t]]
                0 <= q < r + 1 && 0 <= t < m implies points@[q].values@[t].0@ == columns@[t].name@
                    && points@[q].values@[t].1 == columns@[t].values@[q] by {
                if q == r {
                    assert(points@[q].values@[t] == values@[t]);
                    assert(!ragged_pred(columns@)(t));
                }
            }
        }
        r = r + 1;
    }
    Ok(CandidateSet::new(name, points))
}

} // verus!
