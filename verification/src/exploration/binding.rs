//! Binding from candidate columns to named numerical parameters.
use vstd::prelude::*;

use crate::exploration::candidate::{CandidateColumns, CandidateSchemaError, CandidateSet, SchemaFault, candidate_column_indices, point_names, point_value, schema_fault};
use crate::exploration::combination::{column_missing, column_offset, column_position, deref_sets, schema_pred};
use crate::exploration::filter::kept_upto;
use crate::text::{append_decimal, clone_strings, decimal, join_seq, join_strings, string_views};
use crate::search::{any_below, first_index, lemma_first_index};
use crate::value::{finite_value, is_finite_value};

verus! {

/// Errors produced while preparing or applying a parameter binding.
#[derive(Debug, Clone, PartialEq, Eq)]
pub enum CandidateParameterBindingError {
    DuplicateParameter { parameter: String },
    MissingParameter { parameter: String },
    AmbiguousParameter { parameter: String, candidate_sets: Vec<String> },
    EmptyCandidateSet { candidate_set: String },
    DuplicateColumn { candidate_set: String, candidate_index: usize, column: String },
    ColumnCountMismatch {
        candidate_set: String,
        candidate_index: usize,
        expected: usize,
        actual: usize,
    },
    ColumnNameMismatch {
        candidate_set: String,
        candidate_index: usize,
        column_index: usize,
        expected: String,
        actual: String,
    },
    SelectionCountMismatch { expected: usize, actual: usize },
    OutputLengthMismatch { expected: usize, actual: usize },
    CandidateIndexOutOfBounds { candidate_set: String, index: usize, candidate_count: usize },
    NonFiniteParameter { parameter: String, candidate_set: String, candidate_index: usize },
}

impl CandidateParameterBindingError {
    /// The message of the error.
    pub open spec fn message(&self) -> Seq<char> {
        match self {
            CandidateParameterBindingError::DuplicateParameter { parameter } => "parameter order contains '"@ + parameter@ + "' more than once"@,
            CandidateParameterBindingError::MissingParameter { parameter } => "no candidate set supplies parameter '"@ + parameter@ + "'"@,
            CandidateParameterBindingError::AmbiguousParameter { parameter, candidate_sets } => "parameter '"@ + parameter@ + "' is supplied by multiple candidate sets: "@ + join_seq(string_views(candidate_sets@), ", "@),
            CandidateParameterBindingError::EmptyCandidateSet { candidate_set } => "candidate set '"@ + candidate_set@ + "' is empty"@,
            CandidateParameterBindingError::DuplicateColumn { candidate_set, candidate_index, column } => "candidate set '"@ + candidate_set@ + "' point "@ + decimal(candidate_index as nat) + " contains duplicate column '"@ + column@ + "'"@,
            CandidateParameterBindingError::ColumnCountMismatch { candidate_set, candidate_index, expected, actual } => "candidate set '"@ + candidate_set@ + "' point "@ + decimal(candidate_index as nat) + " has "@ + decimal(actual as nat) + " columns, expected "@ + decimal(expected as nat),
            CandidateParameterBindingError::ColumnNameMismatch { candidate_set, candidate_index, column_index, expected, actual } => "candidate set '"@ + candidate_set@ + "' point "@ + decimal(candidate_index as nat) + " column "@ + decimal(column_index as nat) + " is '"@ + actual@ + "', expected '"@ + expected@ + "'"@,
            CandidateParameterBindingError::SelectionCountMismatch { expected, actual } => "parameter binding expected "@ + decimal(expected as nat) + " candidate indices, received "@ + decimal(actual as nat),
            CandidateParameterBindingError::OutputLengthMismatch { expected, actual } => "parameter binding expected an output buffer of length "@ + decimal(expected as nat) + ", received "@ + decimal(actual as nat),
            CandidateParameterBindingError::CandidateIndexOutOfBounds { candidate_set, index, candidate_count } => "candidate index "@ + decimal(index as nat) + " is outside candidate set '"@ + candidate_set@ + "' with "@ + decimal(candidate_count as nat) + " points"@,
            CandidateParameterBindingError::NonFiniteParameter { parameter, candidate_set, candidate_index } => "parameter '"@ + parameter@ + "' from candidate set '"@ + candidate_set@ + "' point "@ + decimal(candidate_index as nat) + " is not finite"@,
        }
    }

    /// Returns the message of the error.
    pub fn to_string(&self) -> (text: String)
        ensures
            text@ == self.message(),
    {
        match self {
            CandidateParameterBindingError::DuplicateParameter { parameter } => {
                let mut text = String::from_str("parameter order contains '");
                text.append(parameter.as_str());
                text.append("' more than once");
                text
            },
            CandidateParameterBindingError::MissingParameter { parameter } => {
                let mut text = String::from_str("no candidate set supplies parameter '");
                text.append(parameter.as_str());
                text.append("'");
                text
            },
            CandidateParameterBindingError::AmbiguousParameter { parameter, candidate_sets } => {
                let mut text = String::from_str("parameter '");
                text.append(parameter.as_str());
                text.append("' is supplied by multiple candidate sets: ");
                let part = join_strings(candidate_sets.as_slice(), ", ");
                text.append(part.as_str());
                text
            },
            CandidateParameterBindingError::EmptyCandidateSet { candidate_set } => {
                let mut text = String::from_str("candidate set '");
                text.append(candidate_set.as_str());
                text.append("' is empty");
                text
            },
            CandidateParameterBindingError::DuplicateColumn { candidate_set, candidate_index, column } => {
                let mut text = String::from_str("candidate set '");
                text.append(candidate_set.as_str());
                text.append("' point ");
                append_decimal(&mut text, *candidate_index);
                text.append(" contains duplicate column '");
                text.append(column.as_str());
                text.append("'");
                text
            },
            CandidateParameterBindingError::ColumnCountMismatch { candidate_set, candidate_index, expected, actual } => {
                let mut text = String::from_str("candidate set '");
                text.append(candidate_set.as_str());
                text.append("' point ");
                append_decimal(&mut text, *candidate_index);
                text.append(" has ");
                append_decimal(&mut text, *actual);
                text.append(" columns, expected ");
                append_decimal(&mut text, *expected);
                text
            },
            CandidateParameterBindingError::ColumnNameMismatch { candidate_set, candidate_index, column_index, expected, actual } => {
                let mut text = String::from_str("candidate set '");
                text.append(candidate_set.as_str());
                text.append("' point ");
                append_decimal(&mut text, *candidate_index);
                text.append(" column ");
                append_decimal(&mut text, *column_index);
                text.append(" is '");
                text.append(actual.as_str());
                text.append("', expected '");
                text.append(expected.as_str());
                text.append("'");
                text
            },
            CandidateParameterBindingError::SelectionCountMismatch { expected, actual } => {
                let mut text = String::from_str("parameter binding expected ");
                append_decimal(&mut text, *expected);
                text.append(" candidate indices, received ");
                append_decimal(&mut text, *actual);
                text
            },
            CandidateParameterBindingError::OutputLengthMismatch { expected, actual } => {
                let mut text = String::from_str("parameter binding expected an output buffer of length ");
                append_decimal(&mut text, *expected);
                text.append(", received ");
                append_decimal(&mut text, *actual);
                text
            },
            CandidateParameterBindingError::CandidateIndexOutOfBounds { candidate_set, index, candidate_count } => {
                let mut text = String::from_str("candidate index ");
                append_decimal(&mut text, *index);
                text.append(" is outside candidate set '");
                text.append(candidate_set.as_str());
                text.append("' with ");
                append_decimal(&mut text, *candidate_count);
                text.append(" points");
                text
            },
            CandidateParameterBindingError::NonFiniteParameter { parameter, candidate_set, candidate_index } => {
                let mut text = String::from_str("parameter '");
                text.append(parameter.as_str());
                text.append("' from candidate set '");
                text.append(candidate_set.as_str());
                text.append("' point ");
                append_decimal(&mut text, *candidate_index);
                text.append(" is not finite");
                text
            },
        }
    }
}

/// Errors produced while preparing or applying a capacitance binding.
#[derive(Debug, Clone, PartialEq, Eq)]
pub enum CandidateCapacitanceBindingError {
    Parameter(CandidateParameterBindingError),
    ScratchLengthMismatch { expected: usize, actual: usize },
    OutputLengthMismatch { expected: usize, actual: usize },
    InvalidCapacitances { instance_path: String, branch: String, reason: String },
}

impl CandidateCapacitanceBindingError {
    /// The message of the error.
    pub open spec fn message(&self) -> Seq<char> {
        match self {
            CandidateCapacitanceBindingError::Parameter(error) => "could not bind capacitances: "@ + error.message(),
            CandidateCapacitanceBindingError::ScratchLengthMismatch { expected, actual } => "capacitance binding expected a scratch buffer of length "@ + decimal(expected as nat) + ", received "@ + decimal(actual as nat),
            CandidateCapacitanceBindingError::OutputLengthMismatch { expected, actual } => "capacitance binding expected an output buffer of length "@ + decimal(expected as nat) + ", received "@ + decimal(actual as nat),
            CandidateCapacitanceBindingError::InvalidCapacitances { instance_path, branch, reason } => "candidate capacitances for '"@ + instance_path@ + "."@ + branch@ + "' are invalid: "@ + reason@,
        }
    }

    /// Returns the message of the error.
    pub fn to_string(&self) -> (text: String)
        ensures
            text@ == self.message(),
    {
        match self {
            CandidateCapacitanceBindingError::Parameter(error) => {
                let mut text = String::from_str("could not bind capacitances: ");
                let part = error.to_string();
                text.append(part.as_str());
                text
            },
            CandidateCapacitanceBindingError::ScratchLengthMismatch { expected, actual } => {
                let mut text = String::from_str("capacitance binding expected a scratch buffer of length ");
                append_decimal(&mut text, *expected);
                text.append(", received ");
                append_decimal(&mut text, *actual);
                text
            },
            CandidateCapacitanceBindingError::OutputLengthMismatch { expected, actual } => {
                let mut text = String::from_str("capacitance binding expected an output buffer of length ");
                append_decimal(&mut text, *expected);
                text.append(", received ");
                append_decimal(&mut text, *actual);
                text
            },
            CandidateCapacitanceBindingError::InvalidCapacitances { instance_path, branch, reason } => {
                let mut text = String::from_str("candidate capacitances for '");
                text.append(instance_path.as_str());
                text.append(".");
                text.append(branch.as_str());
                text.append("' are invalid: ");
                text.append(reason.as_str());
                text
            },
        }
    }
}

impl CandidateCapacitanceBindingError {
    /// Wraps a parameter binding error.
    pub fn from_parameter(error: CandidateParameterBindingError) -> (wrapped: Self)
        ensures
            wrapped == CandidateCapacitanceBindingError::Parameter(error),
    {
        CandidateCapacitanceBindingError::Parameter(error)
    }
}

/// Name `j` already occurs among names `0..j`.
pub open spec fn repeats_name(names: Seq<Seq<char>>) -> spec_fn(int) -> bool {
    |j: int| exists|k: int| 0 <= k < j && #[trigger] names[k] == names[j]
}

/// The sets that hold a column named `name`, in order.
pub open spec fn parameter_sources(sets: Seq<CandidateSet>, name: Seq<char>) -> Seq<int> {
    kept_upto(|i: int| !column_missing(sets[i], name), sets.len() as int)
}

/// Parameter `j` is supplied by no set or by several.
pub open spec fn unresolved_pred(sets: Seq<CandidateSet>, names: Seq<Seq<char>>) -> spec_fn(int) -> bool {
    |j: int| parameter_sources(sets, names[j]).len() != 1
}

/// The first failure of preparing a binding.
pub enum BindingFault {
    DuplicateParameter { parameter: int },
    Schema { set: int, fault: SchemaFault },
    MissingParameter { parameter: int },
    AmbiguousParameter { parameter: int },
}

/// What preparing a binding reports: the first repeated parameter name, then
/// the first set whose schema is invalid, then the first parameter supplied
/// by no set or by several.
pub open spec fn binding_fault(names: Seq<Seq<char>>, sets: Seq<CandidateSet>) -> Option<BindingFault> {
    if any_below(names.len() as int, repeats_name(names)) {
        Some(BindingFault::DuplicateParameter { parameter: first_index(names.len() as int, repeats_name(names)) })
    } else if any_below(sets.len() as int, schema_pred(sets)) {
        let i = first_index(sets.len() as int, schema_pred(sets));
        Some(BindingFault::Schema { set: i, fault: schema_fault(sets[i])->0 })
    } else if any_below(names.len() as int, unresolved_pred(sets, names)) {
        let j = first_index(names.len() as int, unresolved_pred(sets, names));
        if parameter_sources(sets, names[j]).len() == 0 {
            Some(BindingFault::MissingParameter { parameter: j })
        } else {
            Some(BindingFault::AmbiguousParameter { parameter: j })
        }
    } else {
        None
    }
}

impl CandidateParameterBindingError {
    /// This error reports `fault` of binding `names` to `sets`.
    pub open spec fn reports(self, names: Seq<Seq<char>>, sets: Seq<CandidateSet>, fault: BindingFault) -> bool {
        match fault {
            BindingFault::DuplicateParameter { parameter } => self matches CandidateParameterBindingError::DuplicateParameter {
                parameter: p,
            } && p@ == names[parameter],
            BindingFault::Schema { set, fault } => {
                let s = sets[set];
                match (self, fault) {
                    (CandidateParameterBindingError::EmptyCandidateSet { candidate_set }, SchemaFault::EmptySet) => candidate_set@
                        == s.name@,
                    (
                        CandidateParameterBindingError::DuplicateColumn { candidate_set, candidate_index, column: c },
                        SchemaFault::DuplicateColumn { point, column },
                    ) => candidate_set@ == s.name@ && candidate_index == point && c@ == point_names(s, point)[column],
                    (
                        CandidateParameterBindingError::ColumnCountMismatch {
                            candidate_set,
                            candidate_index,
                            expected,
                            actual,
                        },
                        SchemaFault::ColumnCountMismatch { point },
                    ) => candidate_set@ == s.name@ && candidate_index == point && expected == point_names(
                        s,
                        0,
                    ).len() && actual == point_names(s, point).len(),
                    (
                        CandidateParameterBindingError::ColumnNameMismatch {
                            candidate_set,
                            candidate_index,
                            column_index,
                            expected,
                            actual,
                        },
                        SchemaFault::ColumnNameMismatch { point, column },
                    ) => candidate_set@ == s.name@ && candidate_index == point && column_index == column
                        && expected@ == point_names(s, 0)[column] && actual@ == point_names(s, point)[column],
                    _ => false,
                }
            },
            BindingFault::MissingParameter { parameter } => self matches CandidateParameterBindingError::MissingParameter {
                parameter: p,
            } && p@ == names[parameter],
            BindingFault::AmbiguousParameter { parameter } => self matches CandidateParameterBindingError::AmbiguousParameter {
                parameter: p,
                candidate_sets,
            } && p@ == names[parameter] && string_views(candidate_sets@) == parameter_sources(
                sets,
                names[parameter],
            ).map_values(|i: int| sets[i].name@),
        }
    }

    /// Converts a schema violation, keeping its fields.
    pub fn from_schema(error: CandidateSchemaError) -> (converted: Self)
        ensures
            forall|names: Seq<Seq<char>>, sets: Seq<CandidateSet>, i: int, fault: SchemaFault|
                0 <= i < sets.len() && error.reports(sets[i], fault) ==> #[trigger] converted.reports(
                    names,
                    sets,
                    BindingFault::Schema { set: i, fault },
                ),
    {
        match error {
            CandidateSchemaError::EmptySet { set } => CandidateParameterBindingError::EmptyCandidateSet {
                candidate_set: set,
            },
            CandidateSchemaError::DuplicateColumn { set, point_index, column } => {
                CandidateParameterBindingError::DuplicateColumn {
                    candidate_set: set,
                    candidate_index: point_index,
                    column,
                }
            },
            CandidateSchemaError::ColumnCountMismatch { set, point_index, expected, actual } => {
                CandidateParameterBindingError::ColumnCountMismatch {
                    candidate_set: set,
                    candidate_index: point_index,
                    expected,
                    actual,
                }
            },
            CandidateSchemaError::ColumnNameMismatch { set, point_index, column_index, expected, actual } => {
                CandidateParameterBindingError::ColumnNameMismatch {
                    candidate_set: set,
                    candidate_index: point_index,
                    column_index,
                    expected,
                    actual,
                }
            },
        }
    }
}

/// The value bound to parameter `name` by the selection `sel`: its column in
/// the one set that holds it, at the selected point of that set.
pub open spec fn bound_value(sets: Seq<CandidateSet>, name: Seq<char>, sel: Seq<usize>) -> u64 {
    let s = parameter_sources(sets, name)[0];
    point_value(sets[s], sel[s] as int, column_position(sets[s], name))
}

/// The selected point of set `i` is out of range.
pub open spec fn out_of_range_pred(sets: Seq<CandidateSet>, sel: Seq<usize>) -> spec_fn(int) -> bool {
    |i: int| sel[i] >= sets[i].points@.len()
}

/// The value bound to parameter `j` is not finite.
pub open spec fn nonfinite_parameter_pred(sets: Seq<CandidateSet>, names: Seq<Seq<char>>, sel: Seq<usize>) -> spec_fn(
    int,
) -> bool {
    |j: int| !finite_value(bound_value(sets, names[j], sel))
}

/// Resolves named parameters from one selected point per candidate set.
#[derive(Debug, Clone)]
pub struct CandidateParameterBinder<'a> {
    candidate_sets: Vec<&'a CandidateSet>,
    parameter_names: Vec<String>,
    sources: Vec<(usize, usize)>,
}

impl<'a> CandidateParameterBinder<'a> {
    /// The candidate sets, in selection order.
    pub closed spec fn sets(&self) -> Seq<CandidateSet> {
        deref_sets(self.candidate_sets@)
    }

    /// The parameter names, in binding order.
    pub closed spec fn names(&self) -> Seq<Seq<char>> {
        string_views(self.parameter_names@)
    }

    /// Every parameter has its one source set and column.
    pub closed spec fn wf(&self) -> bool {
        let sets = self.sets();
        let names = self.names();
        &&& self.sources@.len() == names.len()
        &&& forall|j: int| 0 <= j < names.len() ==> {
            let s = #[trigger] self.sources@[j].0 as int;
            let o = self.sources@[j].1 as int;
            &&& parameter_sources(sets, names[j]).len() == 1
            &&& s == parameter_sources(sets, names[j])[0]
            &&& 0 <= s < sets.len()
            &&& o == column_position(sets[s], names[j])
            &&& forall|p: int| 0 <= p < sets[s].points@.len() ==> o < #[trigger] sets[s].points@[p].values@.len()
        }
    }

    /// Validates the parameter names and the sets and finds the one column
    /// that supplies every parameter.
    #[verifier::loop_isolation(false)]
    pub fn new(parameter_order: &[String], candidate_sets: &[&'a CandidateSet]) -> (result: Result<
        Self,
        CandidateParameterBindingError,
    >)
        ensures
            match binding_fault(string_views(parameter_order@), deref_sets(candidate_sets@)) {
                None => result matches Ok(binder) && binder.wf() && binder.sets() == deref_sets(
                    candidate_sets@,
                ) && binder.names() == string_views(parameter_order@),
                Some(fault) => result matches Err(error) && error.reports(
                    string_views(parameter_order@),
                    deref_sets(candidate_sets@),
                    fault,
                ),
            },
    {
        let ghost names = string_views(parameter_order@);
        let ghost sets = deref_sets(candidate_sets@);
        let m = parameter_order.len();
        let mut j: usize = 0;
        while j < m
            invariant
                j <= m,
                m == names.len(),
                forall|q: int| 0 <= q < j ==> !#[trigger] repeats_name(names)(q),
            decreases m - j,
        {
            let mut k: usize = 0;
            while k < j
                invariant
                    k <= j,
                    j < m,
                    forall|q: int| 0 <= q < k ==> names[q] != names[j as int],
                decreases j - k,
            {
                if parameter_order[k] == parameter_order[j] {
                    proof {
                        assert(names[k as int] == names[j as int]);
                        assert(repeats_name(names)(j as int));
                        lemma_first_index(m as int, repeats_name(names), j as int);
                    }
                    return Err(
                        CandidateParameterBindingError::DuplicateParameter {
                            parameter: parameter_order[j].clone(),
                        },
                    );
                }
                k = k + 1;
            }
            proof {
                assert(!repeats_name(names)(j as int)) by {
                    if repeats_name(names)(j as int) {
                        let q = choose|q: int| 0 <= q < j && #[trigger] names[q] == names[j as int];
                    }
                }
            }
            j = j + 1;
        }
        assert(!any_below(m as int, repeats_name(names)));
        let n = candidate_sets.len();
        let mut columns: Vec<CandidateColumns> = Vec::new();
        let mut i: usize = 0;
        while i < n
            invariant
                n == sets.len(),
                i <= n,
                columns@.len() == i,
                forall|q: int| 0 <= q < i ==> #[trigger] columns@[q].view() == point_names(sets[q], 0),
                forall|q: int| 0 <= q < i ==> !#[trigger] schema_pred(sets)(q),
            decreases n - i,
        {
            assert(sets[i as int] == *candidate_sets@[i as int]);
            match candidate_column_indices(candidate_sets[i]) {
                Ok(found) => {
                    columns.push(found);
                },
                Err(error) => {
                    proof {
                        assert(schema_pred(sets)(i as int));
                        lemma_first_index(n as int, schema_pred(sets), i as int);
                    }
                    return Err(CandidateParameterBindingError::from_schema(error));
                },
            }
            i = i + 1;
        }
        assert(!any_below(n as int, schema_pred(sets)));
        let mut sources: Vec<(usize, usize)> = Vec::new();
        let mut j: usize = 0;
        while j < m
            invariant
                j <= m,
                n == sets.len(),
                m == names.len(),
                columns@.len() == n,
                forall|q: int| 0 <= q < n ==> #[trigger] columns@[q].view() == point_names(sets[q], 0),
                forall|q: int| 0 <= q < n ==> !#[trigger] schema_pred(sets)(q),
                sources@.len() == j,
                forall|q: int| 0 <= q < j ==> !#[trigger] unresolved_pred(sets, names)(q),
                forall|q: int| 0 <= q < j ==> {
                    let s = #[trigger] sources@[q].0 as int;
                    let o = sources@[q].1 as int;
                    &&& s == parameter_sources(sets, names[q])[0]
                    &&& 0 <= s < sets.len()
                    &&& o == column_position(sets[s], names[q])
                    &&& forall|p: int| 0 <= p < sets[s].points@.len() ==> o < #[trigger] sets[s].points@[p].values@.len()
                },
            decreases m - j,
        {
            let name = &parameter_order[j];
            let ghost pred = |q: int| !column_missing(sets[q], names[j as int]);
            let mut found: Vec<(usize, usize)> = Vec::new();
            let mut i: usize = 0;
            while i < n
                invariant
                    i <= n,
                    j < m,
                    name@ == names[j as int],
                    pred == (|q: int| !column_missing(sets[q], names[j as int])),
                    found@.len() == kept_upto(pred, i as int).len(),
                    forall|t: int| 0 <= t < found@.len() ==> {
                        let s = #[trigger] found@[t].0 as int;
                        let o = found@[t].1 as int;
                        &&& s == kept_upto(pred, i as int)[t]
                        &&& 0 <= s < sets.len()
                        &&& o == column_position(sets[s], names[j as int])
                        &&& forall|p: int| 0 <= p < sets[s].points@.len() ==> o < #[trigger] sets[s].points@[p].values@.len()
                    },
                decreases n - i,
            {
                assert(sets[i as int] == *candidate_sets@[i as int]);
                assert(!schema_pred(sets)(i as int));
                match column_offset(candidate_sets[i], &columns[i], name) {
                    Some(offset) => {
                        found.push((i, offset));
                    },
                    None => {},
                }
                i = i + 1;
            }
            assert(kept_upto(pred, n as int) == parameter_sources(sets, names[j as int]));
            if found.len() != 1 {
                proof {
                    assert(unresolved_pred(sets, names)(j as int));
                    lemma_first_index(m as int, unresolved_pred(sets, names), j as int);
                }
                if found.len() == 0 {
                    return Err(CandidateParameterBindingError::MissingParameter { parameter: name.clone() });
                }
                let mut set_names: Vec<String> = Vec::new();
                let mut t: usize = 0;
                while t < found.len()
                    invariant
                        t <= found@.len(),
                        set_names@.len() == t,
                        forall|u: int| 0 <= u < t ==> #[trigger] set_names@[u]@ == sets[found@[u].0 as int].name@,
                        forall|u: int| 0 <= u < found@.len() ==> #[trigger] found@[u].0 < n,
                    decreases found@.len() - t,
                {
                    let s = found[t].0;
                    assert(sets[s as int] == *candidate_sets@[s as int]);
                    set_names.push(candidate_sets[s].name.clone());
                    t = t + 1;
                }
                proof {
                    let srcs = parameter_sources(sets, names[j as int]);
                    assert(string_views(set_names@) =~= srcs.map_values(|q: int| sets[q].name@));
                }
                return Err(
                    CandidateParameterBindingError::AmbiguousParameter {
                        parameter: name.clone(),
                        candidate_sets: set_names,
                    },
                );
            }
            sources.push(found[0]);
            j = j + 1;
        }
        assert(!any_below(m as int, unresolved_pred(sets, names)));
        let binder = CandidateParameterBinder {
            candidate_sets: vstd::slice::slice_to_vec(candidate_sets),
            parameter_names: clone_strings(parameter_order),
            sources,
        };
        proof {
            assert(binder.sets() == sets);
            assert(binder.names() == names);
            assert forall|q: int| 0 <= q < m implies parameter_sources(sets, names[q]).len() == 1 by {
                assert(!unresolved_pred(sets, names)(q));
            }
            assert(binder.wf());
        }
        Ok(binder)
    }
}

/// The effect of binding the selection `sel` into a buffer that held
/// `before`: the selection count and the buffer length are checked first, then
/// the selected indices (first set first), then the values parameter by
/// parameter, each written as soon as it is known to be finite.
pub open spec fn bind_effect(
    sets: Seq<CandidateSet>,
    names: Seq<Seq<char>>,
    sel: Seq<usize>,
    before: Seq<u64>,
    result: Result<(), CandidateParameterBindingError>,
    after: Seq<u64>,
) -> bool {
    if sel.len() != sets.len() {
        &&& result == Err::<(), _>(
            CandidateParameterBindingError::SelectionCountMismatch { expected: sets.len() as usize, actual: sel.len() as usize },
        )
        &&& after == before
    } else if before.len() != names.len() {
        &&& result == Err::<(), _>(
            CandidateParameterBindingError::OutputLengthMismatch { expected: names.len() as usize, actual: before.len() as usize },
        )
        &&& after == before
    } else if any_below(sets.len() as int, out_of_range_pred(sets, sel)) {
        let i = first_index(sets.len() as int, out_of_range_pred(sets, sel));
        &&& result matches Err(CandidateParameterBindingError::CandidateIndexOutOfBounds {
            candidate_set,
            index,
            candidate_count,
        }) && candidate_set@ == sets[i].name@ && index == sel[i] && candidate_count == sets[i].points@.len()
        &&& after == before
    } else if any_below(names.len() as int, nonfinite_parameter_pred(sets, names, sel)) {
        let j = first_index(names.len() as int, nonfinite_parameter_pred(sets, names, sel));
        let s = parameter_sources(sets, names[j])[0];
        &&& result matches Err(CandidateParameterBindingError::NonFiniteParameter {
            parameter,
            candidate_set,
            candidate_index,
        }) && parameter@ == names[j] && candidate_set@ == sets[s].name@ && candidate_index == sel[s]
        &&& after.len() == before.len()
        &&& forall|q: int| 0 <= q < j ==> #[trigger] after[q] == bound_value(sets, names[q], sel)
        &&& forall|q: int| j <= q < after.len() ==> #[trigger] after[q] == before[q]
    } else {
        &&& result is Ok
        &&& after.len() == names.len()
        &&& forall|q: int| 0 <= q < names.len() ==> #[trigger] after[q] == bound_value(sets, names[q], sel)
    }
}

/// A buffer of `n` zeros.
pub open spec fn zero_buffer(n: nat) -> Seq<u64> {
    Seq::new(n, |q: int| 0u64)
}

impl<'a> CandidateParameterBinder<'a> {
    /// Returns the parameter names in binding order.
    pub fn parameter_names(&self) -> (names: &[String])
        ensures
            string_views(names@) == self.names(),
    {
        self.parameter_names.as_slice()
    }

    /// Fills a reusable parameter buffer with the values of the selected
    /// points.
    #[verifier::loop_isolation(false)]
    pub fn bind_into(&self, candidate_indices: &[usize], output: &mut Vec<u64>) -> (result: Result<
        (),
        CandidateParameterBindingError,
    >)
        requires
            self.wf(),
        ensures
            bind_effect(self.sets(), self.names(), candidate_indices@, old(output)@, result, final(output)@),
    {
        let ghost sets = self.sets();
        let ghost names = self.names();
        let ghost sel = candidate_indices@;
        let n = self.candidate_sets.len();
        let m = self.sources.len();
        if candidate_indices.len() != n {
            return Err(
                CandidateParameterBindingError::SelectionCountMismatch {
                    expected: n,
                    actual: candidate_indices.len(),
                },
            );
        }
        if output.len() != m {
            return Err(CandidateParameterBindingError::OutputLengthMismatch { expected: m, actual: output.len() });
        }
        let mut i: usize = 0;
        while i < n
            invariant
                i <= n,
                n == sets.len(),
                sel.len() == n,
                forall|q: int| 0 <= q < i ==> !#[trigger] out_of_range_pred(sets, sel)(q),
            decreases n - i,
        {
            let candidates = self.candidate_sets[i];
            assert(*candidates == sets[i as int]);
            if candidate_indices[i] >= candidates.points.len() {
                proof {
                    assert(out_of_range_pred(sets, sel)(i as int));
                    lemma_first_index(n as int, out_of_range_pred(sets, sel), i as int);
                }
                return Err(
                    CandidateParameterBindingError::CandidateIndexOutOfBounds {
                        candidate_set: candidates.name.clone(),
                        index: candidate_indices[i],
                        candidate_count: candidates.points.len(),
                    },
                );
            }
            i = i + 1;
        }
        assert(!any_below(n as int, out_of_range_pred(sets, sel)));
        let ghost before = output@;
        let mut j: usize = 0;
        while j < m
            invariant
                j <= m,
                m == names.len(),
                output@.len() == m,
                forall|q: int| 0 <= q < j ==> !#[trigger] nonfinite_parameter_pred(sets, names, sel)(q),
                forall|q: int| 0 <= q < j ==> #[trigger] output@[q] == bound_value(sets, names[q], sel),
                forall|q: int| j <= q < m ==> #[trigger] output@[q] == before[q],
            decreases m - j,
        {
            let (s, o) = self.sources[j];
            let candidates = self.candidate_sets[s];
            assert(*candidates == sets[s as int]);
            assert(!out_of_range_pred(sets, sel)(s as int));
            let point_index = candidate_indices[s];
            let value = candidates.points[point_index].values[o].1;
            assert(value == bound_value(sets, names[j as int], sel));
            if !is_finite_value(value) {
                proof {
                    assert(nonfinite_parameter_pred(sets, names, sel)(j as int));
                    lemma_first_index(m as int, nonfinite_parameter_pred(sets, names, sel), j as int);
                }
                return Err(
                    CandidateParameterBindingError::NonFiniteParameter {
                        parameter: self.parameter_names[j].clone(),
                        candidate_set: candidates.name.clone(),
                        candidate_index: point_index,
                    },
                );
            }
            output.set(j, value);
            j = j + 1;
        }
        assert(!any_below(m as int, nonfinite_parameter_pred(sets, names, sel)));
        Ok(())
    }

    /// Returns a new parameter vector for the selected points.
    pub fn bind(&self, candidate_indices: &[usize]) -> (result: Result<Vec<u64>, CandidateParameterBindingError>)
        requires
            self.wf(),
        ensures
            match result {
                Ok(values) => bind_effect(
                    self.sets(),
                    self.names(),
                    candidate_indices@,
                    zero_buffer(self.names().len()),
                    Ok(()),
                    values@,
                ),
                Err(error) => exists|after: Seq<u64>|
                    #[trigger] bind_effect(
                        self.sets(),
                        self.names(),
                        candidate_indices@,
                        zero_buffer(self.names().len()),
                        Err(error),
                        after,
                    ),
            },
    {
        let m = self.sources.len();
        let mut values: Vec<u64> = Vec::new();
        let mut i: usize = 0;
        while i < m
            invariant
                i <= m,
                values@ == zero_buffer(i as nat),
            decreases m - i,
        {
            values.push(0);
            i = i + 1;
            assert(values@ =~= zero_buffer(i as nat));
        }
        match self.bind_into(candidate_indices, &mut values) {
            Ok(()) => Ok(values),
            Err(error) => Err(error),
        }
    }
}

} // verus!
