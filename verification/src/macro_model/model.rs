//! Macro definitions: ports, design variables, derivation rules,
//! specifications, output bindings and testbenches. Real values are binary64
//! bit patterns.
use vstd::prelude::*;

use crate::analysis::AcMetric;
use crate::circuit::Circuit;
use crate::exploration::filter::CandidateFilter;
use crate::primitive::{PrimitiveBuildInput, PrimitiveBuildInputKind};
use crate::testbench::AcAnalysis;
use crate::text::str_eq;
use crate::value::{finite_value, is_finite_value, order_key, value_le};

verus! {

/// Electrical role of a macro port.
#[derive(Debug, Clone, Copy, PartialEq, Eq, Structural)]
pub enum MacroPortRole {
    Input,
    Output,
    Inout,
    Bias,
    Supply,
    Ground,
}

/// One ordered public port of a macro.
#[derive(Debug, Clone, PartialEq, Eq)]
pub struct MacroPort {
    name: String,
    role: MacroPortRole,
}

impl MacroPort {
    /// The port name.
    pub closed spec fn name_view(&self) -> Seq<char> {
        self.name@
    }

    /// The port role.
    pub closed spec fn role_view(&self) -> MacroPortRole {
        self.role
    }

    /// Creates a named port with its role.
    pub fn new(name: String, role: MacroPortRole) -> (port: Self)
        ensures
            port.name_view() == name@,
            port.role_view() == role,
    {
        MacroPort { name, role }
    }

    /// Returns the port name.
    pub fn name(&self) -> (name: &str)
        ensures
            name@ == self.name_view(),
    {
        self.name.as_str()
    }

    /// Returns the port role.
    pub fn role(&self) -> (role: MacroPortRole)
        ensures
            role == self.role_view(),
    {
        self.role
    }
}

/// Base build values and filters a macro definition gives one of its
/// primitive instances.
#[derive(Debug, Clone, PartialEq)]
pub struct MacroPrimitiveDefault {
    instance_path: String,
    build_input: PrimitiveBuildInput,
    filters: Vec<CandidateFilter>,
}

impl MacroPrimitiveDefault {
    /// The local primitive instance path.
    pub closed spec fn instance_path_view(&self) -> Seq<char> {
        self.instance_path@
    }

    /// The base build values.
    pub closed spec fn build_input_view(&self) -> PrimitiveBuildInput {
        self.build_input
    }

    /// The filters applied before any runtime filter.
    pub closed spec fn filters_view(&self) -> Seq<CandidateFilter> {
        self.filters@
    }

    /// Base exploration data for one local primitive instance.
    pub fn new(instance_path: String, build_input: PrimitiveBuildInput, filters: Vec<CandidateFilter>) -> (default:
        Self)
        ensures
            default.instance_path_view() == instance_path@,
            default.build_input_view() == build_input,
            default.filters_view() == filters@,
    {
        MacroPrimitiveDefault { instance_path, build_input, filters }
    }

    /// Returns the local primitive instance path.
    pub fn instance_path(&self) -> (path: &str)
        ensures
            path@ == self.instance_path_view(),
    {
        self.instance_path.as_str()
    }

    /// Returns the base build values.
    pub fn build_input(&self) -> (input: &PrimitiveBuildInput)
        ensures
            *input == self.build_input_view(),
    {
        &self.build_input
    }

    /// Returns the filters applied before any runtime filter.
    pub fn filters(&self) -> (filters: &[CandidateFilter])
        ensures
            filters@ == self.filters_view(),
    {
        self.filters.as_slice()
    }
}

/// One primitive input controlled by a public design variable.
#[derive(Debug, Clone, PartialEq, Eq)]
pub struct MacroDesignVariableBinding {
    instance_path: String,
    input: String,
}

impl MacroDesignVariableBinding {
    /// The local primitive instance path.
    pub closed spec fn instance_path_view(&self) -> Seq<char> {
        self.instance_path@
    }

    /// The primitive build-input name.
    pub closed spec fn input_view(&self) -> Seq<char> {
        self.input@
    }

    /// Binds a variable to one primitive build input.
    pub fn new(instance_path: String, input: String) -> (binding: Self)
        ensures
            binding.instance_path_view() == instance_path@,
            binding.input_view() == input@,
    {
        MacroDesignVariableBinding { instance_path, input }
    }

    /// Returns the local primitive instance path.
    pub fn instance_path(&self) -> (path: &str)
        ensures
            path@ == self.instance_path_view(),
    {
        self.instance_path.as_str()
    }

    /// Returns the primitive build-input name.
    pub fn input(&self) -> (input: &str)
        ensures
            input@ == self.input_view(),
    {
        self.input.as_str()
    }
}

/// Public design variable that fans out to primitive inputs.
#[derive(Debug, Clone, PartialEq, Eq)]
pub struct MacroDesignVariable {
    name: String,
    kind: PrimitiveBuildInputKind,
    bindings: Vec<MacroDesignVariableBinding>,
}

impl MacroDesignVariable {
    /// The variable name.
    pub closed spec fn name_view(&self) -> Seq<char> {
        self.name@
    }

    /// The input kind every binding requires.
    pub closed spec fn kind_view(&self) -> PrimitiveBuildInputKind {
        self.kind
    }

    /// The bound primitive inputs.
    pub closed spec fn bindings_view(&self) -> Seq<MacroDesignVariableBinding> {
        self.bindings@
    }

    /// Creates a variable with its input kind and bindings.
    pub fn new(name: String, kind: PrimitiveBuildInputKind, bindings: Vec<MacroDesignVariableBinding>) -> (variable: Self)
        ensures
            variable.name_view() == name@,
            variable.kind_view() == kind,
            variable.bindings_view() == bindings@,
    {
        MacroDesignVariable { name, kind, bindings }
    }

    /// Returns the variable name.
    pub fn name(&self) -> (name: &str)
        ensures
            name@ == self.name_view(),
    {
        self.name.as_str()
    }

    /// Returns the input kind.
    pub fn kind(&self) -> (kind: PrimitiveBuildInputKind)
        ensures
            kind == self.kind_view(),
    {
        self.kind
    }

    /// Returns the bound primitive inputs.
    pub fn bindings(&self) -> (bindings: &[MacroDesignVariableBinding])
        ensures
            bindings@ == self.bindings_view(),
    {
        self.bindings.as_slice()
    }
}

/// The value lies inside the optional inclusive bounds.
pub open spec fn within(value: u64, minimum: Option<u64>, maximum: Option<u64>) -> bool {
    &&& minimum matches Some(lo) ==> order_key(value) >= order_key(lo)
    &&& maximum matches Some(hi) ==> order_key(value) <= order_key(hi)
}

/// Returns whether a value lies inside optional inclusive bounds.
pub fn value_within(value: u64, minimum: Option<u64>, maximum: Option<u64>) -> (inside: bool)
    ensures
        inside == within(value, minimum, maximum),
{
    if let Some(lo) = minimum {
        if !value_le(lo, value) {
            return false;
        }
    }
    if let Some(hi) = maximum {
        if !value_le(value, hi) {
            return false;
        }
    }
    true
}

/// The value is numerically equal to one of `values` (`==` on `f64`).
pub open spec fn listed(values: Seq<u64>, value: u64) -> bool {
    exists|i: int| 0 <= i < values.len() && finite_value(values[i]) && order_key(#[trigger] values[i]) == order_key(value)
}

/// A pre-build restriction of a design variable.
#[derive(Debug, Clone, PartialEq)]
pub enum MacroDesignVariableCondition {
    Range { minimum: Option<u64>, maximum: Option<u64> },
    AllowedValues(Vec<u64>),
}

/// The condition admits a value: it is finite and inside the range, or
/// equal to a listed value.
pub open spec fn condition_accepts(condition: MacroDesignVariableCondition, value: u64) -> bool {
    finite_value(value) && match condition {
        MacroDesignVariableCondition::Range { minimum, maximum } => within(value, minimum, maximum),
        MacroDesignVariableCondition::AllowedValues(values) => listed(values@, value),
    }
}

/// The optional value is absent or finite.
pub open spec fn option_finite(value: Option<u64>) -> bool {
    match value {
        Some(v) => finite_value(v),
        None => true,
    }
}

/// Every value is finite.
pub open spec fn all_finite(values: Seq<u64>) -> bool {
    forall|i: int| 0 <= i < values.len() ==> finite_value(#[trigger] values[i])
}

/// Every value of the condition is finite.
pub open spec fn condition_finite(condition: MacroDesignVariableCondition) -> bool {
    match condition {
        MacroDesignVariableCondition::Range { minimum, maximum } => option_finite(minimum) && option_finite(maximum),
        MacroDesignVariableCondition::AllowedValues(values) => all_finite(values@),
    }
}

impl MacroDesignVariableCondition {
    /// An inclusive range; an inverted range admits nothing.
    pub fn range(minimum: Option<u64>, maximum: Option<u64>) -> (condition: Self)
        ensures
            condition == (MacroDesignVariableCondition::Range { minimum, maximum }),
    {
        MacroDesignVariableCondition::Range { minimum, maximum }
    }

    /// Exactly the listed values; an empty list admits nothing.
    pub fn allowed_values(values: Vec<u64>) -> (condition: Self)
        ensures
            condition matches MacroDesignVariableCondition::AllowedValues(v) && v@ == values@,
    {
        MacroDesignVariableCondition::AllowedValues(values)
    }

    /// Returns whether the condition admits a value.
    pub fn accepts(&self, value: u64) -> (accepted: bool)
        ensures
            accepted == condition_accepts(*self, value),
    {
        if !is_finite_value(value) {
            return false;
        }
        match self {
            MacroDesignVariableCondition::Range { minimum, maximum } => value_within(value, *minimum, *maximum),
            MacroDesignVariableCondition::AllowedValues(values) => {
                let n = values.len();
                let mut i: usize = 0;
                while i < n
                    invariant
                        n == values@.len(),
                        i <= n,
                        finite_value(value),
                        *self == MacroDesignVariableCondition::AllowedValues(*values),
                        forall|j: int| 0 <= j < i ==> !(finite_value(values@[j]) && order_key(#[trigger] values@[j]) == order_key(value)),
                    decreases n - i,
                {
                    if is_finite_value(values[i]) && value_le(values[i], value) && value_le(value, values[i]) {
                        assert(finite_value(values@[i as int]) && order_key(values@[i as int]) == order_key(value));
                        assert(listed(values@, value));
                        return true;
                    }
                    i = i + 1;
                }
                false
            },
        }
    }

    /// Returns whether every value of the condition is finite.
    pub fn is_finite(&self) -> (finite: bool)
        ensures
            finite == condition_finite(*self),
    {
        match self {
            MacroDesignVariableCondition::Range { minimum, maximum } => {
                let lo_ok = match minimum {
                    Some(lo) => is_finite_value(*lo),
                    None => true,
                };
                let hi_ok = match maximum {
                    Some(hi) => is_finite_value(*hi),
                    None => true,
                };
                lo_ok && hi_ok
            },
            MacroDesignVariableCondition::AllowedValues(values) => {
                let n = values.len();
                let mut i: usize = 0;
                while i < n
                    invariant
                        n == values@.len(),
                        i <= n,
                        *self == MacroDesignVariableCondition::AllowedValues(*values),
                        forall|j: int| 0 <= j < i ==> finite_value(#[trigger] values@[j]),
                    decreases n - i,
                {
                    if !is_finite_value(values[i]) {
                        assert(!finite_value(values@[i as int]));
                        assert(!all_finite(values@));
                        return false;
                    }
                    i = i + 1;
                }
                true
            },
        }
    }
}

/// Nominal compact values a macro offers to a parent preview.
#[derive(Debug, Clone, PartialEq)]
pub struct MacroCompactSeed {
    compact_parameters: Vec<(String, u64)>,
    interface_values: Vec<(String, u64)>,
}

impl MacroCompactSeed {
    /// The compact-model parameter values.
    pub closed spec fn compact_parameters_view(&self) -> Seq<(String, u64)> {
        self.compact_parameters@
    }

    /// The public interface values.
    pub closed spec fn interface_values_view(&self) -> Seq<(String, u64)> {
        self.interface_values@
    }

    /// Creates a seed from compact parameters and interface values.
    pub fn new(compact_parameters: Vec<(String, u64)>, interface_values: Vec<(String, u64)>) -> (seed: Self)
        ensures
            seed.compact_parameters_view() == compact_parameters@,
            seed.interface_values_view() == interface_values@,
    {
        MacroCompactSeed { compact_parameters, interface_values }
    }

    /// Returns the compact-model parameter values.
    pub fn compact_parameters(&self) -> (values: &[(String, u64)])
        ensures
            values@ == self.compact_parameters_view(),
    {
        self.compact_parameters.as_slice()
    }

    /// Returns the public interface values.
    pub fn interface_values(&self) -> (values: &[(String, u64)])
        ensures
            values@ == self.interface_values_view(),
    {
        self.interface_values.as_slice()
    }
}

/// Aggregation of a derivation expression over accepted parent rows.
#[derive(Debug, Clone, Copy, PartialEq, Eq, Structural)]
pub enum MacroDerivationReduction {
    Minimum,
    Maximum,
    Range,
    UniqueValues,
}

/// Shape produced by a derivation reduction.
#[derive(Debug, Clone, PartialEq)]
pub enum MacroDerivedValue {
    Scalar(u64),
    Range { minimum: u64, maximum: u64 },
    UniqueValues(Vec<u64>),
}

/// Public child condition populated by a derivation rule.
#[derive(Debug, Clone, PartialEq, Eq)]
pub enum MacroDerivationTarget {
    SpecificationMinimum { specification: String },
    SpecificationMaximum { specification: String },
    SpecificationRange { specification: String },
    DesignVariableRange { variable: String },
    DesignVariableAllowedValues { variable: String },
}

impl MacroDerivationTarget {
    /// Targets the minimum of a child specification.
    pub fn specification_minimum(specification: String) -> (target: Self)
        ensures
            target == (MacroDerivationTarget::SpecificationMinimum { specification }),
    {
        MacroDerivationTarget::SpecificationMinimum { specification }
    }

    /// Targets the maximum of a child specification.
    pub fn specification_maximum(specification: String) -> (target: Self)
        ensures
            target == (MacroDerivationTarget::SpecificationMaximum { specification }),
    {
        MacroDerivationTarget::SpecificationMaximum { specification }
    }

    /// Targets both bounds of a child specification.
    pub fn specification_range(specification: String) -> (target: Self)
        ensures
            target == (MacroDerivationTarget::SpecificationRange { specification }),
    {
        MacroDerivationTarget::SpecificationRange { specification }
    }

    /// Targets a range on a child design variable.
    pub fn design_variable_range(variable: String) -> (target: Self)
        ensures
            target == (MacroDerivationTarget::DesignVariableRange { variable }),
    {
        MacroDerivationTarget::DesignVariableRange { variable }
    }

    /// Targets exact values of a child design variable.
    pub fn design_variable_allowed_values(variable: String) -> (target: Self)
        ensures
            target == (MacroDerivationTarget::DesignVariableAllowedValues { variable }),
    {
        MacroDerivationTarget::DesignVariableAllowedValues { variable }
    }
}

/// A parent rule that derives a condition for a direct child.
#[derive(Debug, Clone, PartialEq, Eq)]
pub struct MacroDerivationRule {
    child_instance: String,
    expression: String,
    reduction: MacroDerivationReduction,
    target: MacroDerivationTarget,
}

impl MacroDerivationRule {
    /// The targeted child instance.
    pub closed spec fn child_instance_view(&self) -> Seq<char> {
        self.child_instance@
    }

    /// The expression evaluated on each accepted row.
    pub closed spec fn expression_view(&self) -> Seq<char> {
        self.expression@
    }

    /// The reduction.
    pub closed spec fn reduction_view(&self) -> MacroDerivationReduction {
        self.reduction
    }

    /// The target.
    pub closed spec fn target_view(&self) -> MacroDerivationTarget {
        self.target
    }

    /// Creates a rule for a direct child.
    pub fn new(
        child_instance: String,
        expression: String,
        reduction: MacroDerivationReduction,
        target: MacroDerivationTarget,
    ) -> (rule: Self)
        ensures
            rule.child_instance_view() == child_instance@,
            rule.expression_view() == expression@,
            rule.reduction_view() == reduction,
            rule.target_view() == target,
    {
        MacroDerivationRule { child_instance, expression, reduction, target }
    }

    /// Returns the targeted child instance.
    pub fn child_instance(&self) -> (child: &str)
        ensures
            child@ == self.child_instance_view(),
    {
        self.child_instance.as_str()
    }

    /// Returns the expression.
    pub fn expression(&self) -> (expression: &str)
        ensures
            expression@ == self.expression_view(),
    {
        self.expression.as_str()
    }

    /// Returns the reduction.
    pub fn reduction(&self) -> (reduction: MacroDerivationReduction)
        ensures
            reduction == self.reduction_view(),
    {
        self.reduction
    }

    /// Returns the target.
    pub fn target(&self) -> (target: &MacroDerivationTarget)
        ensures
            *target == self.target_view(),
    {
        &self.target
    }
}

/// Inclusive limits of a specification value.
#[derive(Debug, Clone, Copy, PartialEq, Eq, Structural)]
pub struct MacroSpecificationBounds {
    pub minimum: Option<u64>,
    pub maximum: Option<u64>,
}

/// Bounds are valid when both are finite and not inverted.
pub open spec fn bounds_valid(bounds: MacroSpecificationBounds) -> bool {
    &&& bounds.minimum matches Some(lo) ==> finite_value(lo)
    &&& bounds.maximum matches Some(hi) ==> finite_value(hi)
    &&& (bounds.minimum is Some && bounds.maximum is Some) ==> order_key(bounds.minimum->0) <= order_key(
        bounds.maximum->0,
    )
}

/// The larger of two lower bounds, numerically (`f64::max` on finite values).
pub open spec fn larger(a: u64, b: u64) -> u64 {
    if order_key(a) >= order_key(b) {
        a
    } else {
        b
    }
}

/// The smaller of two upper bounds, numerically.
pub open spec fn smaller(a: u64, b: u64) -> u64 {
    if order_key(a) <= order_key(b) {
        a
    } else {
        b
    }
}

/// The tighter lower bound of two optional ones.
pub open spec fn tighter_minimum(a: Option<u64>, b: Option<u64>) -> Option<u64> {
    match (a, b) {
        (Some(x), Some(y)) => Some(larger(x, y)),
        (Some(x), None) => Some(x),
        (None, y) => y,
    }
}

/// The tighter upper bound of two optional ones.
pub open spec fn tighter_maximum(a: Option<u64>, b: Option<u64>) -> Option<u64> {
    match (a, b) {
        (Some(x), Some(y)) => Some(smaller(x, y)),
        (Some(x), None) => Some(x),
        (None, y) => y,
    }
}

/// The intersection of two bounds: the tighter limit on each side, or
/// nothing when it is invalid.
pub open spec fn bounds_intersection(a: MacroSpecificationBounds, b: MacroSpecificationBounds) -> Option<
    MacroSpecificationBounds,
> {
    let bounds = MacroSpecificationBounds {
        minimum: tighter_minimum(a.minimum, b.minimum),
        maximum: tighter_maximum(a.maximum, b.maximum),
    };
    if bounds_valid(bounds) {
        Some(bounds)
    } else {
        None
    }
}

/// Returns the numerically larger of two values (the second on a tie).
fn larger_value(a: u64, b: u64) -> (m: u64)
    ensures
        m == larger(a, b),
{
    if value_le(b, a) {
        a
    } else {
        b
    }
}

/// Returns the numerically smaller of two values.
fn smaller_value(a: u64, b: u64) -> (m: u64)
    ensures
        m == smaller(a, b),
{
    if value_le(a, b) {
        a
    } else {
        b
    }
}

impl MacroSpecificationBounds {
    /// No limits.
    pub fn unbounded() -> (bounds: Self)
        ensures
            bounds.minimum is None && bounds.maximum is None,
    {
        MacroSpecificationBounds { minimum: None, maximum: None }
    }

    /// Inclusive lower and upper limits.
    pub fn new(minimum: Option<u64>, maximum: Option<u64>) -> (bounds: Self)
        ensures
            bounds.minimum == minimum && bounds.maximum == maximum,
    {
        MacroSpecificationBounds { minimum, maximum }
    }

    /// An inclusive minimum.
    pub fn at_least(minimum: u64) -> (bounds: Self)
        ensures
            bounds.minimum == Some(minimum) && bounds.maximum is None,
    {
        MacroSpecificationBounds { minimum: Some(minimum), maximum: None }
    }

    /// An inclusive maximum.
    pub fn at_most(maximum: u64) -> (bounds: Self)
        ensures
            bounds.minimum is None && bounds.maximum == Some(maximum),
    {
        MacroSpecificationBounds { minimum: None, maximum: Some(maximum) }
    }

    /// An inclusive closed range.
    pub fn between(minimum: u64, maximum: u64) -> (bounds: Self)
        ensures
            bounds.minimum == Some(minimum) && bounds.maximum == Some(maximum),
    {
        MacroSpecificationBounds { minimum: Some(minimum), maximum: Some(maximum) }
    }

    /// Returns the minimum.
    pub fn minimum(self) -> (minimum: Option<u64>)
        ensures
            minimum == self.minimum,
    {
        self.minimum
    }

    /// Returns the maximum.
    pub fn maximum(self) -> (maximum: Option<u64>)
        ensures
            maximum == self.maximum,
    {
        self.maximum
    }

    /// Returns whether a finite value lies inside the limits.
    pub fn accepts(self, value: u64) -> (accepted: bool)
        ensures
            accepted == (finite_value(value) && within(value, self.minimum, self.maximum)),
    {
        is_finite_value(value) && value_within(value, self.minimum, self.maximum)
    }

    /// Returns whether the limits are finite and not inverted.
    pub fn is_valid(self) -> (valid: bool)
        ensures
            valid == bounds_valid(self),
    {
        let lo_ok = match self.minimum {
            Some(lo) => is_finite_value(lo),
            None => true,
        };
        let hi_ok = match self.maximum {
            Some(hi) => is_finite_value(hi),
            None => true,
        };
        let ordered = match (self.minimum, self.maximum) {
            (Some(lo), Some(hi)) => value_le(lo, hi),
            _ => true,
        };
        lo_ok && hi_ok && ordered
    }

    /// The intersection with other limits, or `None` when it is empty or
    /// invalid.
    pub fn intersection(self, other: Self) -> (result: Option<Self>)
        ensures
            result == bounds_intersection(self, other),
    {
        let minimum = match (self.minimum, other.minimum) {
            (Some(a), Some(b)) => Some(larger_value(a, b)),
            (Some(a), None) => Some(a),
            (None, b) => b,
        };
        let maximum = match (self.maximum, other.maximum) {
            (Some(a), Some(b)) => Some(smaller_value(a, b)),
            (Some(a), None) => Some(a),
            (None, b) => b,
        };
        let bounds = MacroSpecificationBounds { minimum, maximum };
        if bounds.is_valid() {
            Some(bounds)
        } else {
            None
        }
    }
}

/// A finite value lies inside the intersection of two valid bounds exactly
/// when it lies inside both; when the intersection is empty, no finite value
/// lies inside both.
pub proof fn law_bounds_intersection_accepts_what_both_accept(
    a: MacroSpecificationBounds,
    b: MacroSpecificationBounds,
    value: u64,
)
    requires
        bounds_valid(a),
        bounds_valid(b),
        finite_value(value),
    ensures
        match bounds_intersection(a, b) {
            Some(c) => within(value, c.minimum, c.maximum) <==> within(value, a.minimum, a.maximum) && within(
                value,
                b.minimum,
                b.maximum,
            ),
            None => !(within(value, a.minimum, a.maximum) && within(value, b.minimum, b.maximum)),
        },
{
}

impl Default for MacroSpecificationBounds {
    fn default() -> (bounds: Self)
        ensures
            bounds.minimum is None && bounds.maximum is None,
    {
        MacroSpecificationBounds::unbounded()
    }
}

/// Source of a specification value.
#[derive(Debug, Clone, PartialEq, Eq)]
pub enum MacroSpecificationSource {
    CandidateColumn { instance_path: String, column: String },
    AcMetric { testbench: String, metric: AcMetric },
    Expression(String),
}

impl MacroSpecificationSource {
    /// One column of the selected candidate of an instance.
    pub fn candidate_column(instance_path: String, column: String) -> (source: Self)
        ensures
            source == (MacroSpecificationSource::CandidateColumn { instance_path, column }),
    {
        MacroSpecificationSource::CandidateColumn { instance_path, column }
    }

    /// One metric of a macro-local testbench.
    pub fn ac_metric(testbench: String, metric: AcMetric) -> (source: Self)
        ensures
            source == (MacroSpecificationSource::AcMetric { testbench, metric }),
    {
        MacroSpecificationSource::AcMetric { testbench, metric }
    }

    /// An arithmetic expression.
    pub fn expression(expression: String) -> (source: Self)
        ensures
            source == MacroSpecificationSource::Expression(expression),
    {
        MacroSpecificationSource::Expression(expression)
    }
}

/// A named acceptance criterion of a macro.
#[derive(Debug, Clone, PartialEq)]
pub struct MacroSpecification {
    name: String,
    source: MacroSpecificationSource,
    bounds: MacroSpecificationBounds,
}

impl MacroSpecification {
    /// The specification name.
    pub closed spec fn name_view(&self) -> Seq<char> {
        self.name@
    }

    /// The value source.
    pub closed spec fn source_view(&self) -> MacroSpecificationSource {
        self.source
    }

    /// The limits.
    pub closed spec fn bounds_view(&self) -> MacroSpecificationBounds {
        self.bounds
    }

    /// Creates a named specification.
    pub fn new(name: String, source: MacroSpecificationSource, bounds: MacroSpecificationBounds) -> (specification: Self)
        ensures
            specification.name_view() == name@,
            specification.source_view() == source,
            specification.bounds_view() == bounds,
    {
        MacroSpecification { name, source, bounds }
    }

    /// Returns the name.
    pub fn name(&self) -> (name: &str)
        ensures
            name@ == self.name_view(),
    {
        self.name.as_str()
    }

    /// Returns the value source.
    pub fn source(&self) -> (source: &MacroSpecificationSource)
        ensures
            *source == self.source_view(),
    {
        &self.source
    }

    /// Returns the limits.
    pub fn bounds(&self) -> (bounds: MacroSpecificationBounds)
        ensures
            bounds == self.bounds_view(),
    {
        self.bounds
    }
}

/// Source of a value projected from an accepted candidate.
#[derive(Debug, Clone, PartialEq, Eq)]
pub enum MacroOutputSource {
    CandidateColumn { instance_path: String, column: String },
    AcMetric { testbench: String, metric: AcMetric },
}

impl MacroOutputSource {
    /// One column of the selected candidate of an instance.
    pub fn candidate_column(instance_path: String, column: String) -> (source: Self)
        ensures
            source == (MacroOutputSource::CandidateColumn { instance_path, column }),
    {
        MacroOutputSource::CandidateColumn { instance_path, column }
    }

    /// One metric of a macro-local testbench.
    pub fn ac_metric(testbench: String, metric: AcMetric) -> (source: Self)
        ensures
            source == (MacroOutputSource::AcMetric { testbench, metric }),
    {
        MacroOutputSource::AcMetric { testbench, metric }
    }
}

/// Maps an accepted value to a compact-model parameter.
#[derive(Debug, Clone, PartialEq, Eq)]
pub struct MacroCompactOutputBinding {
    parameter: String,
    source: MacroOutputSource,
}

impl MacroCompactOutputBinding {
    /// The compact-model parameter.
    pub closed spec fn parameter_view(&self) -> Seq<char> {
        self.parameter@
    }

    /// The value source.
    pub closed spec fn source_view(&self) -> MacroOutputSource {
        self.source
    }

    /// Creates a compact-model parameter binding.
    pub fn new(parameter: String, source: MacroOutputSource) -> (binding: Self)
        ensures
            binding.parameter_view() == parameter@,
            binding.source_view() == source,
    {
        MacroCompactOutputBinding { parameter, source }
    }

    /// Returns the compact-model parameter.
    pub fn parameter(&self) -> (parameter: &str)
        ensures
            parameter@ == self.parameter_view(),
    {
        self.parameter.as_str()
    }

    /// Returns the value source.
    pub fn source(&self) -> (source: &MacroOutputSource)
        ensures
            *source == self.source_view(),
    {
        &self.source
    }
}

/// Maps an accepted value to a public macro port variable.
#[derive(Debug, Clone, PartialEq, Eq)]
pub struct MacroInterfaceBinding {
    port: String,
    source: MacroOutputSource,
}

impl MacroInterfaceBinding {
    /// The public port.
    pub closed spec fn port_view(&self) -> Seq<char> {
        self.port@
    }

    /// The value source.
    pub closed spec fn source_view(&self) -> MacroOutputSource {
        self.source
    }

    /// Creates an interface binding.
    pub fn new(port: String, source: MacroOutputSource) -> (binding: Self)
        ensures
            binding.port_view() == port@,
            binding.source_view() == source,
    {
        MacroInterfaceBinding { port, source }
    }

    /// Returns the public port.
    pub fn port(&self) -> (port: &str)
        ensures
            port@ == self.port_view(),
    {
        self.port.as_str()
    }

    /// Returns the value source.
    pub fn source(&self) -> (source: &MacroOutputSource)
        ensures
            *source == self.source_view(),
    {
        &self.source
    }
}

/// Physical modeling domain of a macro analysis.
#[derive(Debug, Clone, Copy, PartialEq, Eq, Structural)]
pub enum MacroAnalysisDomain {
    Electrical,
    LayoutAware,
}

impl Default for MacroAnalysisDomain {
    fn default() -> (domain: Self)
        ensures
            domain == MacroAnalysisDomain::Electrical,
    {
        MacroAnalysisDomain::Electrical
    }
}

/// Source of an unprepared testbench: inline SPICE text or a file path.
#[derive(Debug, Clone, PartialEq, Eq)]
pub enum MacroTestbenchSource {
    Spice(String),
    SpiceFile(String),
}

impl MacroTestbenchSource {
    /// Returns the inline text of an in-memory testbench.
    pub fn as_spice(&self) -> (text: Option<&str>)
        ensures
            match self {
                MacroTestbenchSource::Spice(s) => text matches Some(t) && t@ == s@,
                MacroTestbenchSource::SpiceFile(_) => text is None,
            },
    {
        match self {
            MacroTestbenchSource::Spice(source) => Some(source.as_str()),
            MacroTestbenchSource::SpiceFile(_) => None,
        }
    }

    /// Returns the path of a file-backed testbench.
    pub fn as_path(&self) -> (path: Option<&str>)
        ensures
            match self {
                MacroTestbenchSource::Spice(_) => path is None,
                MacroTestbenchSource::SpiceFile(p) => path matches Some(t) && t@ == p@,
            },
    {
        match self {
            MacroTestbenchSource::Spice(_) => None,
            MacroTestbenchSource::SpiceFile(path) => Some(path.as_str()),
        }
    }
}

/// An unprepared AC testbench of a macro.
#[derive(Debug, Clone, PartialEq)]
pub struct MacroAcTestbench {
    name: String,
    source: MacroTestbenchSource,
    analysis: AcAnalysis,
    domain: MacroAnalysisDomain,
}

impl MacroAcTestbench {
    /// The testbench name.
    pub closed spec fn name_view(&self) -> Seq<char> {
        self.name@
    }

    /// The SPICE source.
    pub closed spec fn source_view(&self) -> MacroTestbenchSource {
        self.source
    }

    /// The attached analysis.
    pub closed spec fn analysis_view(&self) -> AcAnalysis {
        self.analysis
    }

    /// The modeling domain.
    pub closed spec fn domain_view(&self) -> MacroAnalysisDomain {
        self.domain
    }

    /// A testbench from inline SPICE text, in the electrical domain.
    pub fn from_spice(name: String, source: String, analysis: AcAnalysis) -> (testbench: Self)
        ensures
            testbench.name_view() == name@,
            testbench.source_view() == MacroTestbenchSource::Spice(source),
            testbench.analysis_view() == analysis,
            testbench.domain_view() == MacroAnalysisDomain::Electrical,
    {
        MacroAcTestbench {
            name,
            source: MacroTestbenchSource::Spice(source),
            analysis,
            domain: MacroAnalysisDomain::Electrical,
        }
    }

    /// A testbench read from a SPICE file during preparation.
    pub fn from_spice_file(name: String, path: String, analysis: AcAnalysis) -> (testbench: Self)
        ensures
            testbench.name_view() == name@,
            testbench.source_view() == MacroTestbenchSource::SpiceFile(path),
            testbench.analysis_view() == analysis,
            testbench.domain_view() == MacroAnalysisDomain::Electrical,
    {
        MacroAcTestbench {
            name,
            source: MacroTestbenchSource::SpiceFile(path),
            analysis,
            domain: MacroAnalysisDomain::Electrical,
        }
    }

    /// Selects the modeling domain.
    pub fn with_domain(self, domain: MacroAnalysisDomain) -> (testbench: Self)
        ensures
            testbench.name_view() == self.name_view(),
            testbench.source_view() == self.source_view(),
            testbench.analysis_view() == self.analysis_view(),
            testbench.domain_view() == domain,
    {
        let mut testbench = self;
        testbench.domain = domain;
        testbench
    }

    /// Returns the name.
    pub fn name(&self) -> (name: &str)
        ensures
            name@ == self.name_view(),
    {
        self.name.as_str()
    }

    /// Returns the SPICE source.
    pub fn source(&self) -> (source: &MacroTestbenchSource)
        ensures
            *source == self.source_view(),
    {
        &self.source
    }

    /// Returns the analysis.
    pub fn analysis(&self) -> (analysis: &AcAnalysis)
        ensures
            *analysis == self.analysis_view(),
    {
        &self.analysis
    }

    /// Returns the modeling domain.
    pub fn domain(&self) -> (domain: MacroAnalysisDomain)
        ensures
            domain == self.domain_view(),
    {
        self.domain
    }
}

/// Index of the first item whose name is `name`, given the names in order.
pub open spec fn first_named(names: Seq<Seq<char>>, name: Seq<char>) -> Option<int> {
    if exists|i: int| 0 <= i < names.len() && names[i] == name {
        Some(choose|i: int| 0 <= i < names.len() && names[i] == name && forall|k: int| 0 <= k < i ==> names[k] != name)
    } else {
        None
    }
}

/// A least position holding the name is the one [`first_named`] gives.
pub proof fn lemma_first_named(names: Seq<Seq<char>>, name: Seq<char>, i: int)
    requires
        0 <= i < names.len(),
        names[i] == name,
        forall|k: int| 0 <= k < i ==> names[k] != name,
    ensures
        first_named(names, name) == Some(i),
{
    let j = choose|j: int| 0 <= j < names.len() && names[j] == name && forall|k: int| 0 <= k < j ==> names[k] != name;
    if j < i {
        assert(names[j] != name);
    } else if i < j {
        assert(names[i] != name);
    }
}

/// Names of testbenches, in order.
pub open spec fn testbench_names(testbenches: Seq<MacroAcTestbench>) -> Seq<Seq<char>> {
    testbenches.map_values(|t: MacroAcTestbench| t.name_view())
}

/// Names of specifications, in order.
pub open spec fn specification_names(specifications: Seq<MacroSpecification>) -> Seq<Seq<char>> {
    specifications.map_values(|s: MacroSpecification| s.name_view())
}

/// Instance paths of primitive defaults, in order.
pub open spec fn default_paths(defaults: Seq<MacroPrimitiveDefault>) -> Seq<Seq<char>> {
    defaults.map_values(|d: MacroPrimitiveDefault| d.instance_path_view())
}

/// Names of design variables, in order.
pub open spec fn variable_names(variables: Seq<MacroDesignVariable>) -> Seq<Seq<char>> {
    variables.map_values(|v: MacroDesignVariable| v.name_view())
}

/// The analyses, specifications, variables, rules and output bindings of a
/// macro.
#[derive(Debug, Clone, PartialEq)]
pub struct MacroExploration {
    testbenches: Vec<MacroAcTestbench>,
    specifications: Vec<MacroSpecification>,
    primitive_defaults: Vec<MacroPrimitiveDefault>,
    design_variables: Vec<MacroDesignVariable>,
    compact_seed: Option<MacroCompactSeed>,
    derivation_rules: Vec<MacroDerivationRule>,
    compact_outputs: Vec<MacroCompactOutputBinding>,
    interface_bindings: Vec<MacroInterfaceBinding>,
}

impl MacroExploration {
    /// The testbenches, in evaluation order.
    pub closed spec fn testbenches_view(&self) -> Seq<MacroAcTestbench> {
        self.testbenches@
    }

    /// The specifications, in declaration order.
    pub closed spec fn specifications_view(&self) -> Seq<MacroSpecification> {
        self.specifications@
    }

    /// The primitive defaults, in declaration order.
    pub closed spec fn primitive_defaults_view(&self) -> Seq<MacroPrimitiveDefault> {
        self.primitive_defaults@
    }

    /// The design variables, in declaration order.
    pub closed spec fn design_variables_view(&self) -> Seq<MacroDesignVariable> {
        self.design_variables@
    }

    /// The nominal compact seed.
    pub closed spec fn compact_seed_view(&self) -> Option<MacroCompactSeed> {
        self.compact_seed
    }

    /// The derivation rules, in declaration order.
    pub closed spec fn derivation_rules_view(&self) -> Seq<MacroDerivationRule> {
        self.derivation_rules@
    }

    /// The compact output bindings.
    pub closed spec fn compact_outputs_view(&self) -> Seq<MacroCompactOutputBinding> {
        self.compact_outputs@
    }

    /// The interface bindings.
    pub closed spec fn interface_bindings_view(&self) -> Seq<MacroInterfaceBinding> {
        self.interface_bindings@
    }

    /// The two definitions agree on everything but their testbenches.
    pub open spec fn same_but_testbenches(&self, other: &Self) -> bool {
        &&& self.specifications_view() == other.specifications_view()
        &&& self.primitive_defaults_view() == other.primitive_defaults_view()
        &&& self.design_variables_view() == other.design_variables_view()
        &&& self.compact_seed_view() == other.compact_seed_view()
        &&& self.derivation_rules_view() == other.derivation_rules_view()
        &&& self.compact_outputs_view() == other.compact_outputs_view()
        &&& self.interface_bindings_view() == other.interface_bindings_view()
    }

    /// An empty exploration definition.
    pub fn new() -> (exploration: Self)
        ensures
            exploration.testbenches_view().len() == 0,
            exploration.specifications_view().len() == 0,
            exploration.primitive_defaults_view().len() == 0,
            exploration.design_variables_view().len() == 0,
            exploration.compact_seed_view() is None,
            exploration.derivation_rules_view().len() == 0,
            exploration.compact_outputs_view().len() == 0,
            exploration.interface_bindings_view().len() == 0,
    {
        MacroExploration {
            testbenches: Vec::new(),
            specifications: Vec::new(),
            primitive_defaults: Vec::new(),
            design_variables: Vec::new(),
            compact_seed: None,
            derivation_rules: Vec::new(),
            compact_outputs: Vec::new(),
            interface_bindings: Vec::new(),
        }
    }

    /// Adds a testbench.
    pub fn with_ac_testbench(self, testbench: MacroAcTestbench) -> (exploration: Self)
        ensures
            exploration.testbenches_view() == self.testbenches_view().push(testbench),
            exploration.same_but_testbenches(&self),
    {
        let mut exploration = self;
        exploration.testbenches.push(testbench);
        exploration
    }

    /// Adds a specification.
    pub fn with_specification(self, specification: MacroSpecification) -> (exploration: Self)
        ensures
            exploration.specifications_view() == self.specifications_view().push(specification),
            exploration.testbenches_view() == self.testbenches_view(),
            exploration.primitive_defaults_view() == self.primitive_defaults_view(),
            exploration.design_variables_view() == self.design_variables_view(),
            exploration.derivation_rules_view() == self.derivation_rules_view(),
    {
        let mut exploration = self;
        exploration.specifications.push(specification);
        exploration
    }

    /// Adds base build data and filters for one primitive instance.
    pub fn with_primitive_default(self, default: MacroPrimitiveDefault) -> (exploration: Self)
        ensures
            exploration.primitive_defaults_view() == self.primitive_defaults_view().push(default),
            exploration.testbenches_view() == self.testbenches_view(),
            exploration.specifications_view() == self.specifications_view(),
            exploration.design_variables_view() == self.design_variables_view(),
            exploration.derivation_rules_view() == self.derivation_rules_view(),
    {
        let mut exploration = self;
        exploration.primitive_defaults.push(default);
        exploration
    }

    /// Adds a design variable.
    pub fn with_design_variable(self, variable: MacroDesignVariable) -> (exploration: Self)
        ensures
            exploration.design_variables_view() == self.design_variables_view().push(variable),
            exploration.testbenches_view() == self.testbenches_view(),
            exploration.specifications_view() == self.specifications_view(),
            exploration.primitive_defaults_view() == self.primitive_defaults_view(),
            exploration.derivation_rules_view() == self.derivation_rules_view(),
    {
        let mut exploration = self;
        exploration.design_variables.push(variable);
        exploration
    }

    /// Sets the nominal compact seed.
    pub fn with_compact_seed(self, seed: MacroCompactSeed) -> (exploration: Self)
        ensures
            exploration.compact_seed_view() == Some(seed),
            exploration.testbenches_view() == self.testbenches_view(),
            exploration.derivation_rules_view() == self.derivation_rules_view(),
    {
        let mut exploration = self;
        exploration.compact_seed = Some(seed);
        exploration
    }

    /// Adds a derivation rule.
    pub fn with_derivation_rule(self, rule: MacroDerivationRule) -> (exploration: Self)
        ensures
            exploration.derivation_rules_view() == self.derivation_rules_view().push(rule),
            exploration.testbenches_view() == self.testbenches_view(),
            exploration.specifications_view() == self.specifications_view(),
            exploration.primitive_defaults_view() == self.primitive_defaults_view(),
            exploration.design_variables_view() == self.design_variables_view(),
    {
        let mut exploration = self;
        exploration.derivation_rules.push(rule);
        exploration
    }

    /// Adds a compact output binding.
    pub fn with_compact_output(self, binding: MacroCompactOutputBinding) -> (exploration: Self)
        ensures
            exploration.compact_outputs_view() == self.compact_outputs_view().push(binding),
            exploration.testbenches_view() == self.testbenches_view(),
            exploration.interface_bindings_view() == self.interface_bindings_view(),
    {
        let mut exploration = self;
        exploration.compact_outputs.push(binding);
        exploration
    }

    /// Adds an interface binding.
    pub fn with_interface_binding(self, binding: MacroInterfaceBinding) -> (exploration: Self)
        ensures
            exploration.interface_bindings_view() == self.interface_bindings_view().push(binding),
            exploration.testbenches_view() == self.testbenches_view(),
            exploration.compact_outputs_view() == self.compact_outputs_view(),
    {
        let mut exploration = self;
        exploration.interface_bindings.push(binding);
        exploration
    }

    /// Returns the testbenches.
    pub fn testbenches(&self) -> (testbenches: &[MacroAcTestbench])
        ensures
            testbenches@ == self.testbenches_view(),
    {
        self.testbenches.as_slice()
    }

    /// Finds a testbench by name (the first of that name).
    pub fn testbench(&self, name: &str) -> (testbench: Option<&MacroAcTestbench>)
        ensures
            match first_named(testbench_names(self.testbenches_view()), name@) {
                Some(i) => testbench == Some(&self.testbenches_view()[i]),
                None => testbench is None,
            },
    {
        let ghost names = testbench_names(self.testbenches@);
        let n = self.testbenches.len();
        let mut i: usize = 0;
        while i < n
            invariant
                n == self.testbenches@.len(),
                names == testbench_names(self.testbenches@),
                i <= n,
                forall|k: int| 0 <= k < i ==> names[k] != name@,
            decreases n - i,
        {
            if str_eq(self.testbenches[i].name(), name) {
                proof {
                    lemma_first_named(names, name@, i as int);
                }
                return Some(&self.testbenches[i]);
            }
            i = i + 1;
        }
        proof {
            assert forall|k: int| 0 <= k < names.len() implies names[k] != name@ by {}
        }
        None
    }

    /// Returns the specifications.
    pub fn specifications(&self) -> (specifications: &[MacroSpecification])
        ensures
            specifications@ == self.specifications_view(),
    {
        self.specifications.as_slice()
    }

    /// Finds a specification by name.
    pub fn specification(&self, name: &str) -> (specification: Option<&MacroSpecification>)
        ensures
            match first_named(specification_names(self.specifications_view()), name@) {
                Some(i) => specification == Some(&self.specifications_view()[i]),
                None => specification is None,
            },
    {
        let ghost names = specification_names(self.specifications@);
        let n = self.specifications.len();
        let mut i: usize = 0;
        while i < n
            invariant
                n == self.specifications@.len(),
                names == specification_names(self.specifications@),
                i <= n,
                forall|k: int| 0 <= k < i ==> names[k] != name@,
            decreases n - i,
        {
            if str_eq(self.specifications[i].name(), name) {
                proof {
                    lemma_first_named(names, name@, i as int);
                }
                return Some(&self.specifications[i]);
            }
            i = i + 1;
        }
        proof {
            assert forall|k: int| 0 <= k < names.len() implies names[k] != name@ by {}
        }
        None
    }

    /// Returns the design variables.
    pub fn design_variables(&self) -> (variables: &[MacroDesignVariable])
        ensures
            variables@ == self.design_variables_view(),
    {
        self.design_variables.as_slice()
    }

    /// Returns the primitive defaults in declaration order.
    pub fn primitive_defaults(&self) -> (defaults: &[MacroPrimitiveDefault])
        ensures
            defaults@ == self.primitive_defaults_view(),
    {
        self.primitive_defaults.as_slice()
    }

    /// Finds the first base build data given to a primitive instance path.
    pub fn primitive_default(&self, instance_path: &str) -> (default: Option<&MacroPrimitiveDefault>)
        ensures
            match first_named(default_paths(self.primitive_defaults_view()), instance_path@) {
                Some(i) => default == Some(&self.primitive_defaults_view()[i]),
                None => default is None,
            },
    {
        let ghost paths = default_paths(self.primitive_defaults@);
        let n = self.primitive_defaults.len();
        let mut i: usize = 0;
        while i < n
            invariant
                n == self.primitive_defaults@.len(),
                paths == default_paths(self.primitive_defaults@),
                i <= n,
                forall|k: int| 0 <= k < i ==> paths[k] != instance_path@,
            decreases n - i,
        {
            if str_eq(self.primitive_defaults[i].instance_path(), instance_path) {
                proof {
                    lemma_first_named(paths, instance_path@, i as int);
                }
                return Some(&self.primitive_defaults[i]);
            }
            i = i + 1;
        }
        proof {
            assert forall|k: int| 0 <= k < paths.len() implies paths[k] != instance_path@ by {}
        }
        None
    }

    /// Finds a design variable by name.
    pub fn design_variable(&self, name: &str) -> (variable: Option<&MacroDesignVariable>)
        ensures
            match first_named(variable_names(self.design_variables_view()), name@) {
                Some(i) => variable == Some(&self.design_variables_view()[i]),
                None => variable is None,
            },
    {
        let ghost names = variable_names(self.design_variables@);
        let n = self.design_variables.len();
        let mut i: usize = 0;
        while i < n
            invariant
                n == self.design_variables@.len(),
                names == variable_names(self.design_variables@),
                i <= n,
                forall|k: int| 0 <= k < i ==> names[k] != name@,
            decreases n - i,
        {
            if str_eq(self.design_variables[i].name(), name) {
                proof {
                    lemma_first_named(names, name@, i as int);
                }
                return Some(&self.design_variables[i]);
            }
            i = i + 1;
        }
        proof {
            assert forall|k: int| 0 <= k < names.len() implies names[k] != name@ by {}
        }
        None
    }

    /// Returns the nominal compact seed.
    pub fn compact_seed(&self) -> (seed: Option<&MacroCompactSeed>)
        ensures
            match self.compact_seed_view() {
                Some(s) => seed == Some(&s),
                None => seed is None,
            },
    {
        match &self.compact_seed {
            Some(seed) => Some(seed),
            None => None,
        }
    }

    /// Returns the derivation rules.
    pub fn derivation_rules(&self) -> (rules: &[MacroDerivationRule])
        ensures
            rules@ == self.derivation_rules_view(),
    {
        self.derivation_rules.as_slice()
    }

    /// Returns the compact output bindings.
    pub fn compact_outputs(&self) -> (bindings: &[MacroCompactOutputBinding])
        ensures
            bindings@ == self.compact_outputs_view(),
    {
        self.compact_outputs.as_slice()
    }

    /// Returns the interface bindings.
    pub fn interface_bindings(&self) -> (bindings: &[MacroInterfaceBinding])
        ensures
            bindings@ == self.interface_bindings_view(),
    {
        self.interface_bindings.as_slice()
    }
}

impl Default for MacroExploration {
    fn default() -> (exploration: Self)
        ensures
            exploration.testbenches_view().len() == 0,
            exploration.specifications_view().len() == 0,
            exploration.primitive_defaults_view().len() == 0,
            exploration.design_variables_view().len() == 0,
            exploration.compact_seed_view() is None,
            exploration.derivation_rules_view().len() == 0,
            exploration.compact_outputs_view().len() == 0,
            exploration.interface_bindings_view().len() == 0,
    {
        MacroExploration::new()
    }
}

/// A reusable analog macro: ports, implementation circuit, compact model and
/// exploration definition.
#[derive(Debug, Clone, PartialEq)]
pub struct Macro {
    name: String,
    ports: Vec<MacroPort>,
    circuit: Circuit,
    compact_model: Circuit,
    exploration: MacroExploration,
}

impl Macro {
    /// The macro name.
    pub closed spec fn name_view(&self) -> Seq<char> {
        self.name@
    }

    /// The ports, in order.
    pub closed spec fn ports_view(&self) -> Seq<MacroPort> {
        self.ports@
    }

    /// The implementation circuit.
    pub closed spec fn circuit_view(&self) -> Circuit {
        self.circuit
    }

    /// The compact model.
    pub closed spec fn compact_model_view(&self) -> Circuit {
        self.compact_model
    }

    /// The exploration definition.
    pub closed spec fn exploration_view(&self) -> MacroExploration {
        self.exploration
    }

    /// Creates a macro with an empty exploration definition.
    pub fn new(name: String, ports: Vec<MacroPort>, circuit: Circuit, compact_model: Circuit) -> (macro_: Self)
        ensures
            macro_.name_view() == name@,
            macro_.ports_view() == ports@,
            macro_.circuit_view() == circuit,
            macro_.compact_model_view() == compact_model,
            macro_.exploration_view().testbenches_view().len() == 0,
            macro_.exploration_view().derivation_rules_view().len() == 0,
            macro_.exploration_view().design_variables_view().len() == 0,
            macro_.exploration_view().specifications_view().len() == 0,
            macro_.exploration_view().primitive_defaults_view().len() == 0,
    {
        Macro { name, ports, circuit, compact_model, exploration: MacroExploration::new() }
    }

    /// Attaches a testbench.
    pub fn with_ac_testbench(self, testbench: MacroAcTestbench) -> (macro_: Self)
        ensures
            macro_.exploration_view().testbenches_view() == self.exploration_view().testbenches_view().push(
                testbench,
            ),
            macro_.name_view() == self.name_view(),
            macro_.circuit_view() == self.circuit_view(),
    {
        let mut macro_ = self;
        macro_.exploration = macro_.exploration.with_ac_testbench(testbench);
        macro_
    }

    /// Adds a specification.
    pub fn with_specification(self, specification: MacroSpecification) -> (macro_: Self)
        ensures
            macro_.exploration_view().specifications_view() == self.exploration_view().specifications_view().push(
                specification,
            ),
            macro_.name_view() == self.name_view(),
            macro_.circuit_view() == self.circuit_view(),
    {
        let mut macro_ = self;
        macro_.exploration = macro_.exploration.with_specification(specification);
        macro_
    }

    /// Adds base build data and filters for one primitive instance.
    pub fn with_primitive_default(self, default: MacroPrimitiveDefault) -> (macro_: Self)
        ensures
            macro_.exploration_view().primitive_defaults_view() == self.exploration_view().primitive_defaults_view().push(
                default,
            ),
            macro_.exploration_view().design_variables_view() == self.exploration_view().design_variables_view(),
            macro_.exploration_view().specifications_view() == self.exploration_view().specifications_view(),
            macro_.name_view() == self.name_view(),
            macro_.circuit_view() == self.circuit_view(),
    {
        let mut macro_ = self;
        macro_.exploration = macro_.exploration.with_primitive_default(default);
        macro_
    }

    /// Adds a design variable.
    pub fn with_design_variable(self, variable: MacroDesignVariable) -> (macro_: Self)
        ensures
            macro_.exploration_view().design_variables_view() == self.exploration_view().design_variables_view().push(
                variable,
            ),
            macro_.name_view() == self.name_view(),
            macro_.circuit_view() == self.circuit_view(),
    {
        let mut macro_ = self;
        macro_.exploration = macro_.exploration.with_design_variable(variable);
        macro_
    }

    /// Sets the nominal compact seed.
    pub fn with_compact_seed(self, seed: MacroCompactSeed) -> (macro_: Self)
        ensures
            macro_.exploration_view().compact_seed_view() == Some(seed),
            macro_.name_view() == self.name_view(),
            macro_.circuit_view() == self.circuit_view(),
    {
        let mut macro_ = self;
        macro_.exploration = macro_.exploration.with_compact_seed(seed);
        macro_
    }

    /// Adds a derivation rule.
    pub fn with_derivation_rule(self, rule: MacroDerivationRule) -> (macro_: Self)
        ensures
            macro_.exploration_view().derivation_rules_view() == self.exploration_view().derivation_rules_view().push(
                rule,
            ),
            macro_.name_view() == self.name_view(),
            macro_.circuit_view() == self.circuit_view(),
    {
        let mut macro_ = self;
        macro_.exploration = macro_.exploration.with_derivation_rule(rule);
        macro_
    }

    /// Adds a compact output binding.
    pub fn with_compact_output(self, binding: MacroCompactOutputBinding) -> (macro_: Self)
        ensures
            macro_.exploration_view().compact_outputs_view() == self.exploration_view().compact_outputs_view().push(
                binding,
            ),
            macro_.name_view() == self.name_view(),
            macro_.circuit_view() == self.circuit_view(),
    {
        let mut macro_ = self;
        macro_.exploration = macro_.exploration.with_compact_output(binding);
        macro_
    }

    /// Adds an interface binding.
    pub fn with_interface_binding(self, binding: MacroInterfaceBinding) -> (macro_: Self)
        ensures
            macro_.exploration_view().interface_bindings_view() == self.exploration_view().interface_bindings_view().push(
                binding,
            ),
            macro_.name_view() == self.name_view(),
            macro_.circuit_view() == self.circuit_view(),
    {
        let mut macro_ = self;
        macro_.exploration = macro_.exploration.with_interface_binding(binding);
        macro_
    }

    /// Replaces the exploration definition.
    pub fn with_exploration(self, exploration: MacroExploration) -> (macro_: Self)
        ensures
            macro_.exploration_view() == exploration,
            macro_.name_view() == self.name_view(),
            macro_.ports_view() == self.ports_view(),
            macro_.circuit_view() == self.circuit_view(),
            macro_.compact_model_view() == self.compact_model_view(),
    {
        let mut macro_ = self;
        macro_.exploration = exploration;
        macro_
    }

    /// Returns the macro name.
    pub fn name(&self) -> (name: &str)
        ensures
            name@ == self.name_view(),
    {
        self.name.as_str()
    }

    /// Returns the ports.
    pub fn ports(&self) -> (ports: &[MacroPort])
        ensures
            ports@ == self.ports_view(),
    {
        self.ports.as_slice()
    }

    /// Returns the implementation circuit.
    pub fn circuit(&self) -> (circuit: &Circuit)
        ensures
            *circuit == self.circuit_view(),
    {
        &self.circuit
    }

    /// Returns the compact model.
    pub fn compact_model(&self) -> (circuit: &Circuit)
        ensures
            *circuit == self.compact_model_view(),
    {
        &self.compact_model
    }

    /// Returns the exploration definition.
    pub fn exploration(&self) -> (exploration: &MacroExploration)
        ensures
            *exploration == self.exploration_view(),
    {
        &self.exploration
    }
}

} // verus!
