//! Shape-preserving reductions of the values a derivation rule computes over
//! accepted parent rows.
use vstd::prelude::*;

use crate::macro_model::model::{MacroDerivationReduction, MacroDerivedValue};
use crate::search::{any_below, first_index, lemma_first_index};
use crate::value::{finite_value, is_finite_value, order_key, value_le, value_lt};

use crate::text::{append_decimal, decimal};

verus! {

/// An invalid source for a derivation reduction.
#[derive(Debug, Clone, Copy, PartialEq, Eq, Structural)]
pub enum MacroDerivationReductionError {
    EmptySource,
    NonFiniteSource { index: usize },
}

impl MacroDerivationReductionError {
    /// The message of the error.
    pub open spec fn message(&self) -> Seq<char> {
        match self {
            MacroDerivationReductionError::EmptySource => "derivation reduction has no source rows"@,
            MacroDerivationReductionError::NonFiniteSource { index } => "derivation source row "@ + decimal(index as nat) + " is not finite"@,
        }
    }

    /// Returns the message of the error.
    pub fn to_string(&self) -> (text: String)
        ensures
            text@ == self.message(),
    {
        match self {
            MacroDerivationReductionError::EmptySource => {
                let mut text = String::from_str("derivation reduction has no source rows");
                text
            },
            MacroDerivationReductionError::NonFiniteSource { index } => {
                let mut text = String::from_str("derivation source row ");
                append_decimal(&mut text, *index);
                text.append(" is not finite");
                text
            },
        }
    }
}

/// Value `i` is not finite.
pub open spec fn nonfinite_at(values: Seq<u64>) -> spec_fn(int) -> bool {
    |i: int| !finite_value(values[i])
}

/// `m` is one of the values and no value is numerically smaller.
pub open spec fn is_minimum(values: Seq<u64>, m: u64) -> bool {
    &&& exists|i: int| 0 <= i < values.len() && #[trigger] values[i] == m
    &&& forall|j: int| 0 <= j < values.len() ==> order_key(m) <= order_key(#[trigger] values[j])
}

/// `m` is one of the values and no value is numerically larger.
pub open spec fn is_maximum(values: Seq<u64>, m: u64) -> bool {
    &&& exists|i: int| 0 <= i < values.len() && #[trigger] values[i] == m
    &&& forall|j: int| 0 <= j < values.len() ==> order_key(m) >= order_key(#[trigger] values[j])
}

/// A value numerically equal to `v` occurs in `values`.
pub open spec fn occurs(values: Seq<u64>, v: u64) -> bool {
    exists|i: int| 0 <= i < values.len() && order_key(#[trigger] values[i]) == order_key(v)
}

/// The first `n` values with numeric repeats dropped, in first-occurrence
/// order.
pub open spec fn unique_prefix(values: Seq<u64>, n: int) -> Seq<u64>
    decreases n,
{
    if n <= 0 {
        Seq::empty()
    } else {
        let before = unique_prefix(values, n - 1);
        if occurs(before, values[n - 1]) {
            before
        } else {
            before.push(values[n - 1])
        }
    }
}

/// What reducing `values` gives: an error for an empty source or for the
/// first non-finite value, otherwise the shape the reduction asks for.
pub open spec fn reduction_result(
    reduction: MacroDerivationReduction,
    values: Seq<u64>,
    result: Result<MacroDerivedValue, MacroDerivationReductionError>,
) -> bool {
    if values.len() == 0 {
        result == Err::<MacroDerivedValue, _>(MacroDerivationReductionError::EmptySource)
    } else if any_below(values.len() as int, nonfinite_at(values)) {
        result == Err::<MacroDerivedValue, _>(
            MacroDerivationReductionError::NonFiniteSource {
                index: first_index(values.len() as int, nonfinite_at(values)) as usize,
            },
        )
    } else {
        match reduction {
            MacroDerivationReduction::Minimum => result matches Ok(MacroDerivedValue::Scalar(m)) && is_minimum(
                values,
                m,
            ),
            MacroDerivationReduction::Maximum => result matches Ok(MacroDerivedValue::Scalar(m)) && is_maximum(
                values,
                m,
            ),
            MacroDerivationReduction::Range => result matches Ok(
                MacroDerivedValue::Range { minimum, maximum },
            ) && is_minimum(values, minimum) && is_maximum(values, maximum),
            MacroDerivationReduction::UniqueValues => result matches Ok(MacroDerivedValue::UniqueValues(u))
                && u@ == unique_prefix(values, values.len() as int),
        }
    }
}

/// Returns the numerically least value (the first one on ties).
fn least(values: &Vec<u64>) -> (m: u64)
    requires
        values@.len() > 0,
    ensures
        is_minimum(values@, m),
{
    let mut m = values[0];
    let mut i: usize = 1;
    assert(values@[0] == m);
    while i < values.len()
        invariant
            1 <= i <= values@.len(),
            exists|k: int| 0 <= k < values@.len() && #[trigger] values@[k] == m,
            forall|j: int| 0 <= j < i ==> order_key(m) <= order_key(#[trigger] values@[j]),
        decreases values@.len() - i,
    {
        if value_lt(values[i], m) {
            m = values[i];
            assert(values@[i as int] == m);
        }
        i = i + 1;
    }
    m
}

/// Returns the numerically greatest value (the first one on ties).
fn greatest(values: &Vec<u64>) -> (m: u64)
    requires
        values@.len() > 0,
    ensures
        is_maximum(values@, m),
{
    let mut m = values[0];
    let mut i: usize = 1;
    assert(values@[0] == m);
    while i < values.len()
        invariant
            1 <= i <= values@.len(),
            exists|k: int| 0 <= k < values@.len() && #[trigger] values@[k] == m,
            forall|j: int| 0 <= j < i ==> order_key(m) >= order_key(#[trigger] values@[j]),
        decreases values@.len() - i,
    {
        if value_lt(m, values[i]) {
            m = values[i];
            assert(values@[i as int] == m);
        }
        i = i + 1;
    }
    m
}

/// Returns whether a value numerically equal to `v` is in `values`.
fn contains_value(values: &Vec<u64>, v: u64) -> (found: bool)
    ensures
        found == occurs(values@, v),
{
    let mut i: usize = 0;
    while i < values.len()
        invariant
            i <= values@.len(),
            forall|j: int| 0 <= j < i ==> order_key(#[trigger] values@[j]) != order_key(v),
        decreases values@.len() - i,
    {
        if value_le(values[i], v) && value_le(v, values[i]) {
            assert(order_key(values@[i as int]) == order_key(v));
            return true;
        }
        i = i + 1;
    }
    false
}

/// Reduces the values computed from accepted parent rows: the least, the
/// greatest, both, or the distinct values in first-occurrence order.
pub fn reduce_derivation_values(reduction: MacroDerivationReduction, values: Vec<u64>) -> (result: Result<
    MacroDerivedValue,
    MacroDerivationReductionError,
>)
    ensures
        reduction_result(reduction, values@, result),
{
    let n = values.len();
    if n == 0 {
        return Err(MacroDerivationReductionError::EmptySource);
    }
    let mut i: usize = 0;
    while i < n
        invariant
            n == values@.len(),
            i <= n,
            forall|j: int| 0 <= j < i ==> !#[trigger] nonfinite_at(values@)(j),
        decreases n - i,
    {
        if !is_finite_value(values[i]) {
            proof {
                lemma_first_index(n as int, nonfinite_at(values@), i as int);
            }
            return Err(MacroDerivationReductionError::NonFiniteSource { index: i });
        }
        i = i + 1;
    }
    assert(!any_below(n as int, nonfinite_at(values@)));
    match reduction {
        MacroDerivationReduction::Minimum => Ok(MacroDerivedValue::Scalar(least(&values))),
        MacroDerivationReduction::Maximum => Ok(MacroDerivedValue::Scalar(greatest(&values))),
        MacroDerivationReduction::Range => {
            let minimum = least(&values);
            let maximum = greatest(&values);
            Ok(MacroDerivedValue::Range { minimum, maximum })
        },
        MacroDerivationReduction::UniqueValues => {
            let mut unique: Vec<u64> = Vec::new();
            let mut k: usize = 0;
            while k < n
                invariant
                    n == values@.len(),
                    k <= n,
                    unique@ == unique_prefix(values@, k as int),
                decreases n - k,
            {
                if !contains_value(&unique, values[k]) {
                    unique.push(values[k]);
                }
                k = k + 1;
            }
            Ok(MacroDerivedValue::UniqueValues(unique))
        },
    }
}

impl MacroDerivationReduction {
    /// Reduces values computed from accepted parent rows.
    pub fn reduce(self, values: Vec<u64>) -> (result: Result<MacroDerivedValue, MacroDerivationReductionError>)
        ensures
            reduction_result(self, values@, result),
    {
        reduce_derivation_values(self, values)
    }
}

} // verus!
