//! Inclusive numeric range filters on candidate columns, applied in place.
use vstd::prelude::*;

use crate::exploration::candidate::{CandidatePoint, CandidateSchemaError, CandidateSet, SchemaFault, candidate_column_indices, point_names, point_value, schema_fault};
use crate::exploration::combination::{column_missing, column_offset, column_position};
use crate::search::{any_below, first_index, lemma_first_index};
use crate::value::{finite_value, is_finite_value, order_key, value_le, value_lt};

use crate::text::{append_decimal, decimal};

verus! {

/// An inclusive numeric range applied to one candidate column; bounds are
/// binary64 bit patterns.
#[derive(Debug, Clone, PartialEq)]
pub struct CandidateFilter {
    column: String,
    minimum: Option<u64>,
    maximum: Option<u64>,
}

/// An invalid filter definition.
#[derive(Debug, Clone, PartialEq, Eq)]
pub enum InvalidCandidateFilter {
    EmptyColumn,
    MissingBounds { column: String },
    NonFiniteMinimum { column: String },
    NonFiniteMaximum { column: String },
    InvertedRange { column: String },
}

impl InvalidCandidateFilter {
    /// The message of the error.
    pub open spec fn message(&self) -> Seq<char> {
        match self {
            InvalidCandidateFilter::EmptyColumn => "candidate filter column cannot be empty"@,
            InvalidCandidateFilter::MissingBounds { column } => "candidate filter for '"@ + column@ + "' has no bounds"@,
            InvalidCandidateFilter::NonFiniteMinimum { column } => "candidate filter for '"@ + column@ + "' has a non-finite minimum"@,
            InvalidCandidateFilter::NonFiniteMaximum { column } => "candidate filter for '"@ + column@ + "' has a non-finite maximum"@,
            InvalidCandidateFilter::InvertedRange { column } => "candidate filter for '"@ + column@ + "' has a minimum greater than its maximum"@,
        }
    }

    /// Returns the message of the error.
    pub fn to_string(&self) -> (text: String)
        ensures
            text@ == self.message(),
    {
        match self {
            InvalidCandidateFilter::EmptyColumn => {
                let mut text = String::from_str("candidate filter column cannot be empty");
                text
            },
            InvalidCandidateFilter::MissingBounds { column } => {
                let mut text = String::from_str("candidate filter for '");
                text.append(column.as_str());
                text.append("' has no bounds");
                text
            },
            InvalidCandidateFilter::NonFiniteMinimum { column } => {
                let mut text = String::from_str("candidate filter for '");
                text.append(column.as_str());
                text.append("' has a non-finite minimum");
                text
            },
            InvalidCandidateFilter::NonFiniteMaximum { column } => {
                let mut text = String::from_str("candidate filter for '");
                text.append(column.as_str());
                text.append("' has a non-finite maximum");
                text
            },
            InvalidCandidateFilter::InvertedRange { column } => {
                let mut text = String::from_str("candidate filter for '");
                text.append(column.as_str());
                text.append("' has a minimum greater than its maximum");
                text
            },
        }
    }
}

/// What is wrong with a filter definition, checked in this order.
pub enum FilterProblem {
    EmptyColumn,
    MissingBounds,
    NonFiniteMinimum,
    NonFiniteMaximum,
    InvertedRange,
}

/// The first problem of a filter definition, if any.
pub open spec fn filter_problem(column: Seq<char>, minimum: Option<u64>, maximum: Option<u64>) -> Option<
    FilterProblem,
> {
    if column.len() == 0 {
        Some(FilterProblem::EmptyColumn)
    } else if minimum is None && maximum is None {
        Some(FilterProblem::MissingBounds)
    } else if minimum matches Some(m) && !finite_value(m) {
        Some(FilterProblem::NonFiniteMinimum)
    } else if maximum matches Some(m) && !finite_value(m) {
        Some(FilterProblem::NonFiniteMaximum)
    } else if minimum matches Some(lo) && maximum matches Some(hi) && order_key(lo) > order_key(hi) {
        Some(FilterProblem::InvertedRange)
    } else {
        None
    }
}

impl InvalidCandidateFilter {
    /// This error names `problem` of a filter on `column`.
    pub open spec fn describes(self, problem: FilterProblem, column: Seq<char>) -> bool {
        match (self, problem) {
            (InvalidCandidateFilter::EmptyColumn, FilterProblem::EmptyColumn) => true,
            (InvalidCandidateFilter::MissingBounds { column: c }, FilterProblem::MissingBounds) => c@ == column,
            (InvalidCandidateFilter::NonFiniteMinimum { column: c }, FilterProblem::NonFiniteMinimum) => c@
                == column,
            (InvalidCandidateFilter::NonFiniteMaximum { column: c }, FilterProblem::NonFiniteMaximum) => c@
                == column,
            (InvalidCandidateFilter::InvertedRange { column: c }, FilterProblem::InvertedRange) => c@ == column,
            _ => false,
        }
    }
}

/// The filter accepts a value: it is finite and inside the inclusive range.
pub open spec fn accepts(filter: CandidateFilter, bits: u64) -> bool {
    &&& finite_value(bits)
    &&& filter.lower() matches Some(lo) ==> order_key(bits) >= order_key(lo)
    &&& filter.upper() matches Some(hi) ==> order_key(bits) <= order_key(hi)
}

impl CandidateFilter {
    /// The filtered column.
    pub closed spec fn column_view(&self) -> Seq<char> {
        self.column@
    }

    /// The inclusive lower bound.
    pub closed spec fn lower(&self) -> Option<u64> {
        self.minimum
    }

    /// The inclusive upper bound.
    pub closed spec fn upper(&self) -> Option<u64> {
        self.maximum
    }

    /// The same range on the same column.
    pub fn copy(&self) -> (copy: Self)
        ensures
            copy.column_view() == self.column_view(),
            copy.lower() == self.lower(),
            copy.upper() == self.upper(),
    {
        CandidateFilter { column: self.column.clone(), minimum: self.minimum, maximum: self.maximum }
    }

    /// Creates an inclusive range on a column, rejecting an empty column, a
    /// range without bounds, non-finite bounds and an inverted range.
    pub fn new(column: String, minimum: Option<u64>, maximum: Option<u64>) -> (result: Result<
        Self,
        InvalidCandidateFilter,
    >)
        ensures
            match filter_problem(column@, minimum, maximum) {
                None => result matches Ok(filter) && filter.column_view() == column@ && filter.lower()
                    == minimum && filter.upper() == maximum,
                Some(problem) => result matches Err(error) && error.describes(problem, column@),
            },
    {
        if column.as_str().is_empty() {
            return Err(InvalidCandidateFilter::EmptyColumn);
        }
        if minimum.is_none() && maximum.is_none() {
            return Err(InvalidCandidateFilter::MissingBounds { column });
        }
        if let Some(lo) = minimum {
            if !is_finite_value(lo) {
                return Err(InvalidCandidateFilter::NonFiniteMinimum { column });
            }
        }
        if let Some(hi) = maximum {
            if !is_finite_value(hi) {
                return Err(InvalidCandidateFilter::NonFiniteMaximum { column });
            }
        }
        if let (Some(lo), Some(hi)) = (minimum, maximum) {
            if value_lt(hi, lo) {
                return Err(InvalidCandidateFilter::InvertedRange { column });
            }
        }
        Ok(CandidateFilter { column, minimum, maximum })
    }

    /// Creates the inclusive condition `value >= minimum`.
    pub fn at_least(column: String, minimum: u64) -> (result: Result<Self, InvalidCandidateFilter>)
        ensures
            match filter_problem(column@, Some(minimum), None) {
                None => result matches Ok(filter) && filter.column_view() == column@ && filter.lower()
                    == Some(minimum) && filter.upper() is None,
                Some(problem) => result matches Err(error) && error.describes(problem, column@),
            },
    {
        Self::new(column, Some(minimum), None)
    }

    /// Creates the inclusive condition `value <= maximum`.
    pub fn at_most(column: String, maximum: u64) -> (result: Result<Self, InvalidCandidateFilter>)
        ensures
            match filter_problem(column@, None, Some(maximum)) {
                None => result matches Ok(filter) && filter.column_view() == column@ && filter.lower() is None
                    && filter.upper() == Some(maximum),
                Some(problem) => result matches Err(error) && error.describes(problem, column@),
            },
    {
        Self::new(column, None, Some(maximum))
    }

    /// Creates the inclusive condition `minimum <= value <= maximum`.
    pub fn between(column: String, minimum: u64, maximum: u64) -> (result: Result<Self, InvalidCandidateFilter>)
        ensures
            match filter_problem(column@, Some(minimum), Some(maximum)) {
                None => result matches Ok(filter) && filter.column_view() == column@ && filter.lower()
                    == Some(minimum) && filter.upper() == Some(maximum),
                Some(problem) => result matches Err(error) && error.describes(problem, column@),
            },
    {
        Self::new(column, Some(minimum), Some(maximum))
    }

    /// Returns the filtered column.
    pub fn column(&self) -> (column: &str)
        ensures
            column@ == self.column_view(),
    {
        self.column.as_str()
    }

    /// Returns the inclusive lower bound, when present.
    pub fn minimum(&self) -> (minimum: Option<u64>)
        ensures
            minimum == self.lower(),
    {
        self.minimum
    }

    /// Returns the inclusive upper bound, when present.
    pub fn maximum(&self) -> (maximum: Option<u64>)
        ensures
            maximum == self.upper(),
    {
        self.maximum
    }

    /// Returns whether a finite value lies inside the inclusive range; NaN
    /// and infinities are never accepted.
    pub fn accepts_value(&self, value: u64) -> (accepted: bool)
        ensures
            accepted == accepts(*self, value),
    {
        if !is_finite_value(value) {
            return false;
        }
        if let Some(lo) = self.minimum {
            if !value_le(lo, value) {
                return false;
            }
        }
        if let Some(hi) = self.maximum {
            if !value_le(value, hi) {
                return false;
            }
        }
        true
    }
}

/// Counts produced by one in-place filtering.
#[derive(Debug, Clone, Copy, PartialEq, Eq)]
pub struct CandidateFilterReport {
    pub input_count: usize,
    pub retained_count: usize,
}

impl Default for CandidateFilterReport {
    fn default() -> (report: Self)
        ensures
            report.input_count == 0,
            report.retained_count == 0,
    {
        CandidateFilterReport { input_count: 0, retained_count: 0 }
    }
}

impl CandidateFilterReport {
    /// Returns the number of candidates before filtering.
    pub fn input_count(self) -> (n: usize)
        ensures
            n == self.input_count,
    {
        self.input_count
    }

    /// Returns the number of candidates retained.
    pub fn retained_count(self) -> (n: usize)
        ensures
            n == self.retained_count,
    {
        self.retained_count
    }

    /// Returns the number of candidates rejected.
    pub fn rejected_count(self) -> (n: usize)
        requires
            self.retained_count <= self.input_count,
        ensures
            n == self.input_count - self.retained_count,
    {
        self.input_count - self.retained_count
    }
}

/// Errors produced while filtering a candidate set.
#[derive(Debug, Clone, PartialEq, Eq)]
pub enum CandidateFilterError {
    DuplicateColumn { set: String, point_index: usize, column: String },
    ColumnCountMismatch { set: String, point_index: usize, expected: usize, actual: usize },
    ColumnNameMismatch {
        set: String,
        point_index: usize,
        column_index: usize,
        expected: String,
        actual: String,
    },
    MissingColumn { set: String, column: String },
    NonFiniteValue { set: String, point_index: usize, column: String },
}

impl CandidateFilterError {
    /// The message of the error.
    pub open spec fn message(&self) -> Seq<char> {
        match self {
            CandidateFilterError::DuplicateColumn { set, point_index, column } => "candidate set '"@ + set@ + "' point "@ + decimal(point_index as nat) + " contains duplicate column '"@ + column@ + "'"@,
            CandidateFilterError::ColumnCountMismatch { set, point_index, expected, actual } => "candidate set '"@ + set@ + "' point "@ + decimal(point_index as nat) + " has "@ + decimal(actual as nat) + " columns, expected "@ + decimal(expected as nat),
            CandidateFilterError::ColumnNameMismatch { set, point_index, column_index, expected, actual } => "candidate set '"@ + set@ + "' point "@ + decimal(point_index as nat) + " column "@ + decimal(column_index as nat) + " is '"@ + actual@ + "', expected '"@ + expected@ + "'"@,
            CandidateFilterError::MissingColumn { set, column } => "candidate set '"@ + set@ + "' has no column '"@ + column@ + "'"@,
            CandidateFilterError::NonFiniteValue { set, point_index, column } => "candidate set '"@ + set@ + "' point "@ + decimal(point_index as nat) + " has a non-finite filter value in '"@ + column@ + "'"@,
        }
    }

    /// Returns the message of the error.
    pub fn to_string(&self) -> (text: String)
        ensures
            text@ == self.message(),
    {
        match self {
            CandidateFilterError::DuplicateColumn { set, point_index, column } => {
                let mut text = String::from_str("candidate set '");
                text.append(set.as_str());
                text.append("' point ");
                append_decimal(&mut text, *point_index);
                text.append(" contains duplicate column '");
                text.append(column.as_str());
                text.append("'");
                text
            },
            CandidateFilterError::ColumnCountMismatch { set, point_index, expected, actual } => {
                let mut text = String::from_str("candidate set '");
                text.append(set.as_str());
                text.append("' point ");
                append_decimal(&mut text, *point_index);
                text.append(" has ");
                append_decimal(&mut text, *actual);
                text.append(" columns, expected ");
                append_decimal(&mut text, *expected);
                text
            },
            CandidateFilterError::ColumnNameMismatch { set, point_index, column_index, expected, actual } => {
                let mut text = String::from_str("candidate set '");
                text.append(set.as_str());
                text.append("' point ");
                append_decimal(&mut text, *point_index);
                text.append(" column ");
                append_decimal(&mut text, *column_index);
                text.append(" is '");
                text.append(actual.as_str());
                text.append("', expected '");
                text.append(expected.as_str());
                text.append("'");
                text
            },
            CandidateFilterError::MissingColumn { set, column } => {
                let mut text = String::from_str("candidate set '");
                text.append(set.as_str());
                text.append("' has no column '");
                text.append(column.as_str());
                text.append("'");
                text
            },
            CandidateFilterError::NonFiniteValue { set, point_index, column } => {
                let mut text = String::from_str("candidate set '");
                text.append(set.as_str());
                text.append("' point ");
                append_decimal(&mut text, *point_index);
                text.append(" has a non-finite filter value in '");
                text.append(column.as_str());
                text.append("'");
                text
            },
        }
    }
}

/// The value of the column named `name` of point `p`.
pub open spec fn filter_value(set: CandidateSet, p: int, name: Seq<char>) -> u64 {
    point_value(set, p, column_position(set, name))
}

/// Point `p` passes every filter.
pub open spec fn passes(set: CandidateSet, filters: Seq<CandidateFilter>) -> spec_fn(int) -> bool {
    |p: int|
        forall|k: int|
            0 <= k < filters.len() ==> accepts(filters[k], filter_value(set, p, #[trigger] filters[k].column_view()))
}

/// Indices below `i` at which `pass` holds, in increasing order.
pub open spec fn kept_upto(pass: spec_fn(int) -> bool, i: int) -> Seq<int>
    decreases i,
{
    if i <= 0 {
        Seq::empty()
    } else if pass(i - 1) {
        kept_upto(pass, i - 1).push(i - 1)
    } else {
        kept_upto(pass, i - 1)
    }
}

/// Filter `k` names a column absent from the set.
pub open spec fn missing_filter_pred(set: CandidateSet, filters: Seq<CandidateFilter>) -> spec_fn(int) -> bool {
    |k: int| column_missing(set, filters[k].column_view())
}

/// Filter `k` reads a non-finite value at point `p`.
pub open spec fn nonfinite_filter_pred(set: CandidateSet, filters: Seq<CandidateFilter>, p: int) -> spec_fn(
    int,
) -> bool {
    |k: int| !finite_value(filter_value(set, p, filters[k].column_view()))
}

/// Point `p` holds a non-finite filtered value.
pub open spec fn nonfinite_point_pred(set: CandidateSet, filters: Seq<CandidateFilter>) -> spec_fn(int) -> bool {
    |p: int| any_below(filters.len() as int, nonfinite_filter_pred(set, filters, p))
}

/// The first failure of a filtering operation.
pub enum FilterFault {
    Schema { fault: SchemaFault },
    MissingColumn { filter: int },
    NonFiniteValue { point: int, filter: int },
}

/// What filtering reports: nothing for an empty set or an empty filter list,
/// then a schema violation, then the first filter whose column is missing,
/// then the first non-finite filtered value (by point, then by filter).
pub open spec fn filter_fault(set: CandidateSet, filters: Seq<CandidateFilter>) -> Option<FilterFault> {
    let n = set.points@.len() as int;
    if n == 0 || filters.len() == 0 {
        None
    } else if schema_fault(set) is Some {
        Some(FilterFault::Schema { fault: schema_fault(set)->0 })
    } else if any_below(filters.len() as int, missing_filter_pred(set, filters)) {
        Some(FilterFault::MissingColumn { filter: first_index(filters.len() as int, missing_filter_pred(set, filters)) })
    } else if any_below(n, nonfinite_point_pred(set, filters)) {
        let p = first_index(n, nonfinite_point_pred(set, filters));
        Some(
            FilterFault::NonFiniteValue {
                point: p,
                filter: first_index(filters.len() as int, nonfinite_filter_pred(set, filters, p)),
            },
        )
    } else {
        None
    }
}

impl CandidateFilterError {
    /// This error reports `fault` of filtering `set` with `filters`.
    pub open spec fn reports(self, set: CandidateSet, filters: Seq<CandidateFilter>, fault: FilterFault) -> bool {
        match fault {
            FilterFault::Schema { fault } => match (self, fault) {
                (
                    CandidateFilterError::DuplicateColumn { set: name, point_index, column: c },
                    SchemaFault::DuplicateColumn { point, column },
                ) => name@ == set.name@ && point_index == point && c@ == point_names(set, point)[column],
                (
                    CandidateFilterError::ColumnCountMismatch { set: name, point_index, expected, actual },
                    SchemaFault::ColumnCountMismatch { point },
                ) => name@ == set.name@ && point_index == point && expected == point_names(set, 0).len()
                    && actual == point_names(set, point).len(),
                (
                    CandidateFilterError::ColumnNameMismatch {
                        set: name,
                        point_index,
                        column_index,
                        expected,
                        actual,
                    },
                    SchemaFault::ColumnNameMismatch { point, column },
                ) => name@ == set.name@ && point_index == point && column_index == column && expected@
                    == point_names(set, 0)[column] && actual@ == point_names(set, point)[column],
                _ => false,
            },
            FilterFault::MissingColumn { filter } => self matches CandidateFilterError::MissingColumn {
                set: name,
                column,
            } && name@ == set.name@ && column@ == filters[filter].column_view(),
            FilterFault::NonFiniteValue { point, filter } => self matches CandidateFilterError::NonFiniteValue {
                set: name,
                point_index,
                column,
            } && name@ == set.name@ && point_index == point && column@ == filters[filter].column_view(),
        }
    }
}

/// Converts a schema violation of a non-empty set.
fn candidate_filter_schema_error(error: CandidateSchemaError) -> (converted: CandidateFilterError)
    requires
        !(error is EmptySet),
    ensures
        forall|set: CandidateSet, fault: SchemaFault, filters: Seq<CandidateFilter>|
            error.reports(set, fault) ==> #[trigger] converted.reports(set, filters, FilterFault::Schema { fault }),
{
    match error {
        CandidateSchemaError::EmptySet { set } => CandidateFilterError::MissingColumn { set, column: String::new() },
        CandidateSchemaError::DuplicateColumn { set, point_index, column } => {
            CandidateFilterError::DuplicateColumn { set, point_index, column }
        },
        CandidateSchemaError::ColumnCountMismatch { set, point_index, expected, actual } => {
            CandidateFilterError::ColumnCountMismatch { set, point_index, expected, actual }
        },
        CandidateSchemaError::ColumnNameMismatch { set, point_index, column_index, expected, actual } => {
            CandidateFilterError::ColumnNameMismatch { set, point_index, column_index, expected, actual }
        },
    }
}

/// `points` holds the points of `original` at the indices `kept`, in order.
pub open spec fn kept_points(original: Seq<CandidatePoint>, kept: Seq<int>, points: Seq<CandidatePoint>) -> bool {
    points.len() == kept.len() && forall|j: int| 0 <= j < kept.len() ==> #[trigger] points[j] == original[kept[j]]
}

/// `indices` lists `kept`.
pub open spec fn lists(kept: Seq<int>, indices: Seq<usize>) -> bool {
    indices.len() == kept.len() && forall|j: int| 0 <= j < kept.len() ==> #[trigger] indices[j] == kept[j]
}

/// When every index passes, every index is kept.
pub proof fn lemma_kept_all(pass: spec_fn(int) -> bool, i: int)
    requires
        0 <= i,
        forall|p: int| 0 <= p < i ==> #[trigger] pass(p),
    ensures
        kept_upto(pass, i).len() == i,
        forall|j: int| 0 <= j < i ==> #[trigger] kept_upto(pass, i)[j] == j,
    decreases i,
{
    if i > 0 {
        lemma_kept_all(pass, i - 1);
        assert(pass(i - 1));
    }
}

/// Filters are combined with logical AND: a point passes a concatenation of
/// filter lists exactly when it passes each list.
pub proof fn law_filters_combine_with_and(
    set: CandidateSet,
    first: Seq<CandidateFilter>,
    second: Seq<CandidateFilter>,
    p: int,
)
    ensures
        passes(set, first + second)(p) == (passes(set, first)(p) && passes(set, second)(p)),
{
    let all = first + second;
    if passes(set, first)(p) && passes(set, second)(p) {
        assert forall|k: int| 0 <= k < all.len() implies accepts(
            all[k],
            filter_value(set, p, #[trigger] all[k].column_view()),
        ) by {
            if k < first.len() {
                assert(all[k] == first[k]);
            } else {
                assert(all[k] == second[k - first.len()]);
            }
        }
    }
    if passes(set, all)(p) {
        assert forall|k: int| 0 <= k < first.len() implies accepts(
            first[k],
            filter_value(set, p, #[trigger] first[k].column_view()),
        ) by {
            assert(all[k] == first[k]);
        }
        assert forall|k: int| 0 <= k < second.len() implies accepts(
            second[k],
            filter_value(set, p, #[trigger] second[k].column_view()),
        ) by {
            assert(all[k + first.len()] == second[k]);
        }
    }
}

/// An empty filter list keeps every point, in order.
pub proof fn law_no_filters_keep_every_point(set: CandidateSet)
    ensures
        kept_upto(passes(set, Seq::empty()), set.points@.len() as int) == Seq::new(
            set.points@.len() as nat,
            |j: int| j,
        ),
{
    let pass = passes(set, Seq::empty());
    lemma_kept_all(pass, set.points@.len() as int);
    assert(kept_upto(pass, set.points@.len() as int) =~= Seq::new(set.points@.len() as nat, |j: int| j));
}

/// The indices `0..n`.
fn all_indices(n: usize) -> (indices: Vec<usize>)
    ensures
        indices@.len() == n,
        forall|j: int| 0 <= j < n ==> #[trigger] indices@[j] == j,
{
    let mut indices: Vec<usize> = Vec::new();
    let mut i: usize = 0;
    while i < n
        invariant
            i <= n,
            indices@.len() == i,
            forall|j: int| 0 <= j < i ==> #[trigger] indices@[j] == j,
        decreases n - i,
    {
        indices.push(i);
        i = i + 1;
    }
    indices
}

/// Retains, in order, the candidates that satisfy every filter, and returns
/// the counts with the original indices of the retained candidates. The
/// schema, the filtered columns and their values are validated before the set
/// changes, so an error leaves it unchanged. An empty set or filter list
/// changes nothing.
#[verifier::loop_isolation(false)]
pub fn retain_candidate_set_with_indices(candidates: &mut CandidateSet, filters: &[CandidateFilter]) -> (result:
    Result<(CandidateFilterReport, Vec<usize>), CandidateFilterError>)
    ensures
        match filter_fault(*old(candidates), filters@) {
            None => result matches Ok((report, indices)) && {
                let kept = kept_upto(passes(*old(candidates), filters@), old(candidates).points@.len() as int);
                &&& final(candidates).name == old(candidates).name
                &&& kept_points(old(candidates).points@, kept, final(candidates).points@)
                &&& lists(kept, indices@)
                &&& report.input_count == old(candidates).points@.len()
                &&& report.retained_count == kept.len()
            },
            Some(fault) => result matches Err(error) && error.reports(*old(candidates), filters@, fault)
                && *final(candidates) == *old(candidates),
        },
{
    let ghost original = *candidates;
    let ghost fs = filters@;
    let ghost pass = passes(original, fs);
    let n = candidates.points.len();
    let m = filters.len();
    if n == 0 || m == 0 {
        let indices = all_indices(n);
        proof {
            lemma_kept_all(pass, n as int);
        }
        return Ok((CandidateFilterReport { input_count: n, retained_count: n }, indices));
    }
    let columns = match candidate_column_indices(candidates) {
        Ok(columns) => columns,
        Err(error) => {
            return Err(candidate_filter_schema_error(error));
        },
    };
    let mut offsets: Vec<usize> = Vec::new();
    let mut k: usize = 0;
    while k < m
        invariant
            k <= m,
            *candidates == original,
            offsets@.len() == k,
            forall|j: int| 0 <= j < k ==> #[trigger] offsets@[j] == column_position(original, fs[j].column_view()),
            forall|j: int, p: int| 0 <= j < k && 0 <= p < n ==> #[trigger] offsets@[j] < #[trigger] original.points@[p].values@.len(),
            forall|j: int| 0 <= j < k ==> !#[trigger] missing_filter_pred(original, fs)(j),
        decreases m - k,
    {
        match column_offset(candidates, &columns, &filters[k].column) {
            Some(offset) => {
                offsets.push(offset);
            },
            None => {
                proof {
                    assert(missing_filter_pred(original, fs)(k as int));
                    lemma_first_index(m as int, missing_filter_pred(original, fs), k as int);
                }
                return Err(
                    CandidateFilterError::MissingColumn {
                        set: candidates.name.clone(),
                        column: filters[k].column.clone(),
                    },
                );
            },
        }
        k = k + 1;
    }
    let mut flags: Vec<bool> = Vec::new();
    let mut p: usize = 0;
    while p < n
        invariant
            p <= n,
            *candidates == original,
            flags@.len() == p,
            forall|q: int| 0 <= q < p ==> #[trigger] flags@[q] == pass(q),
            forall|q: int| 0 <= q < p ==> !#[trigger] nonfinite_point_pred(original, fs)(q),
        decreases n - p,
    {
        let mut accepted = true;
        let mut k: usize = 0;
        while k < m
            invariant
                k <= m,
                p < n,
                *candidates == original,
                accepted == forall|j: int| 0 <= j < k ==> accepts(fs[j], filter_value(original, p as int, #[trigger] fs[j].column_view())),
                forall|j: int| 0 <= j < k ==> !#[trigger] nonfinite_filter_pred(original, fs, p as int)(j),
            decreases m - k,
        {
            let value = candidates.points[p].values[offsets[k]].1;
            assert(value == filter_value(original, p as int, fs[k as int].column_view()));
            if !is_finite_value(value) {
                proof {
                    assert(nonfinite_filter_pred(original, fs, p as int)(k as int));
                    lemma_first_index(m as int, nonfinite_filter_pred(original, fs, p as int), k as int);
                    lemma_first_index(n as int, nonfinite_point_pred(original, fs), p as int);
                }
                return Err(
                    CandidateFilterError::NonFiniteValue {
                        set: candidates.name.clone(),
                        point_index: p,
                        column: filters[k].column.clone(),
                    },
                );
            }
            if !filters[k].accepts_value(value) {
                accepted = false;
            }
            k = k + 1;
        }
        proof {
            assert(!any_below(m as int, nonfinite_filter_pred(original, fs, p as int)));
        }
        flags.push(accepted);
        p = p + 1;
    }
    proof {
        assert(!any_below(n as int, nonfinite_point_pred(original, fs)));
        assert(filter_fault(original, fs) is None);
    }
    let mut source: Vec<CandidatePoint> = Vec::new();
    std::mem::swap(&mut source, &mut candidates.points);
    let mut reversed: Vec<CandidatePoint> = Vec::new();
    while source.len() > 0
        invariant
            source@ == original.points@.take(source@.len() as int),
            reversed@.len() + source@.len() == n,
            forall|j: int| 0 <= j < reversed@.len() ==> #[trigger] reversed@[j] == original.points@[n - 1 - j],
        decreases source@.len(),
    {
        let point = source.pop().unwrap();
        reversed.push(point);
        assert(source@ =~= original.points@.take(source@.len() as int));
    }
    let mut indices: Vec<usize> = Vec::new();
    let mut i: usize = 0;
    while reversed.len() > 0
        invariant
            i <= n,
            reversed@.len() == n - i,
            forall|j: int| 0 <= j < reversed@.len() ==> #[trigger] reversed@[j] == original.points@[n - 1 - j],
            candidates.name == original.name,
            kept_points(original.points@, kept_upto(pass, i as int), candidates.points@),
            lists(kept_upto(pass, i as int), indices@),
            forall|q: int| 0 <= q < n ==> #[trigger] flags@[q] == pass(q),
            flags@.len() == n,
        decreases reversed@.len(),
    {
        let point = reversed.pop().unwrap();
        assert(point == original.points@[i as int]);
        if flags[i] {
            candidates.points.push(point);
            indices.push(i);
        }
        i = i + 1;
    }
    let retained = candidates.points.len();
    Ok((CandidateFilterReport { input_count: n, retained_count: retained }, indices))
}

/// Retains, in order, the candidates that satisfy every filter; see
/// [`retain_candidate_set_with_indices`].
pub fn retain_candidate_set(candidates: &mut CandidateSet, filters: &[CandidateFilter]) -> (result: Result<
    CandidateFilterReport,
    CandidateFilterError,
>)
    ensures
        match filter_fault(*old(candidates), filters@) {
            None => result matches Ok(report) && {
                let kept = kept_upto(passes(*old(candidates), filters@), old(candidates).points@.len() as int);
                &&& final(candidates).name == old(candidates).name
                &&& kept_points(old(candidates).points@, kept, final(candidates).points@)
                &&& report.input_count == old(candidates).points@.len()
                &&& report.retained_count == kept.len()
            },
            Some(fault) => result matches Err(error) && error.reports(*old(candidates), filters@, fault)
                && *final(candidates) == *old(candidates),
        },
{
    match retain_candidate_set_with_indices(candidates, filters) {
        Ok((report, _)) => Ok(report),
        Err(error) => Err(error),
    }
}

} // verus!
