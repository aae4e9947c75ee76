//! Validation of the runtime exploration input of a macro against its
//! implementation circuit, its definition and the primitive catalog: every
//! independent problem is reported, in a fixed order.
use vstd::prelude::*;

use crate::circuit::{instance_index, lemma_instance_index, BlockRef, CircuitInstance};
use crate::entries::{entry_map, entry_names, get_entry, lemma_sorted_entry};
use crate::macro_model::hierarchy::{condition_view, view_finite, ConditionView};
use crate::macro_model::input::{
    effective_bounds, reports_bounds_fault, resolves_all, CompactMacroInstanceExplorationInput, MacroExplorationInput, MacroExplorationInputValidationError,
    MacroExplorationInstanceKind, PrimitiveInstanceExplorationInput, SpecificationBoundsFault,
};
use crate::macro_model::model::{
    all_finite, bounds_valid, condition_finite, first_named, lemma_first_named, option_finite, specification_names, variable_names, Macro, MacroAcTestbench, MacroAnalysisDomain,
    MacroDesignVariable, MacroDesignVariableCondition, MacroSpecification, MacroSpecificationBounds,
};
use crate::macro_model::prebuild::condition_views;
use crate::primitive::{
    build_value_view, entries_map, lemma_primitive_index, primitive_index, value_finite, value_kind, BuildValueView, PrimitiveBuildInput, PrimitiveBuildInputKind,
    PrimitiveBuildInputSpec, PrimitiveBuildSpec, PrimitiveBuildValue, PrimitiveCatalog, PrimitiveManifest,
};
use crate::text::{is_blank, str_eq, str_is_blank, strictly_sorted};
use crate::value::finite_value;

verus! {

/// What a validation error reports.
pub enum InputFault {
    MissingPhysicalLut { macro_name: Seq<char>, testbench: Seq<char> },
    UnknownInstance { macro_name: Seq<char>, instance_path: Seq<char> },
    InstanceKindMismatch {
        macro_name: Seq<char>,
        instance_path: Seq<char>,
        expected: MacroExplorationInstanceKind,
        actual: MacroExplorationInstanceKind,
    },
    MissingPrimitiveInput { macro_name: Seq<char>, instance_path: Seq<char>, primitive: Seq<char> },
    MissingCompactMacroInput { macro_name: Seq<char>, instance_path: Seq<char>, referenced_macro: Seq<char> },
    UnknownPrimitive { macro_name: Seq<char>, instance_path: Seq<char>, primitive: Seq<char> },
    MissingPrimitiveDeviceType { macro_name: Seq<char>, instance_path: Seq<char>, primitive: Seq<char> },
    MissingDeviceModel {
        macro_name: Seq<char>,
        instance_path: Seq<char>,
        primitive: Seq<char>,
        device_type: Seq<char>,
    },
    UnknownDesignVariable { macro_name: Seq<char>, variable: Seq<char> },
    DesignVariableKindMismatch {
        macro_name: Seq<char>,
        variable: Seq<char>,
        expected: PrimitiveBuildInputKind,
        actual: PrimitiveBuildInputKind,
    },
    NonFiniteDesignVariable { macro_name: Seq<char>, variable: Seq<char> },
    InvalidDesignVariableCondition { macro_name: Seq<char>, variable: Seq<char> },
    UnknownSpecificationOverride { macro_name: Seq<char>, specification: Seq<char> },
    InvalidSpecificationBounds { macro_name: Seq<char>, specification: Seq<char> },
    ConflictingSpecificationBounds { macro_name: Seq<char>, specification: Seq<char> },
    UnknownPrimitiveInput { macro_name: Seq<char>, instance_path: Seq<char>, primitive: Seq<char>, input: Seq<char> },
    MissingRequiredPrimitiveInput {
        macro_name: Seq<char>,
        instance_path: Seq<char>,
        primitive: Seq<char>,
        input: Seq<char>,
    },
    PrimitiveInputKindMismatch {
        macro_name: Seq<char>,
        instance_path: Seq<char>,
        primitive: Seq<char>,
        input: Seq<char>,
        expected: PrimitiveBuildInputKind,
        actual: PrimitiveBuildInputKind,
    },
    NonFinitePrimitiveInput { macro_name: Seq<char>, instance_path: Seq<char>, primitive: Seq<char>, input: Seq<char> },
}

/// What a validation error reports.
pub open spec fn input_fault(error: MacroExplorationInputValidationError) -> InputFault {
    match error {
        MacroExplorationInputValidationError::MissingPhysicalLut { macro_name, testbench } =>
            InputFault::MissingPhysicalLut { macro_name: macro_name@, testbench: testbench@ },
        MacroExplorationInputValidationError::UnknownInstance { macro_name, instance_path } =>
            InputFault::UnknownInstance { macro_name: macro_name@, instance_path: instance_path@ },
        MacroExplorationInputValidationError::InstanceKindMismatch { macro_name, instance_path, expected, actual } =>
            InputFault::InstanceKindMismatch {
            macro_name: macro_name@,
            instance_path: instance_path@,
            expected,
            actual,
        },
        MacroExplorationInputValidationError::MissingPrimitiveInput { macro_name, instance_path, primitive } =>
            InputFault::MissingPrimitiveInput {
            macro_name: macro_name@,
            instance_path: instance_path@,
            primitive: primitive@,
        },
        MacroExplorationInputValidationError::MissingCompactMacroInput {
            macro_name,
            instance_path,
            referenced_macro,
        } => InputFault::MissingCompactMacroInput {
            macro_name: macro_name@,
            instance_path: instance_path@,
            referenced_macro: referenced_macro@,
        },
        MacroExplorationInputValidationError::UnknownPrimitive { macro_name, instance_path, primitive } =>
            InputFault::UnknownPrimitive {
            macro_name: macro_name@,
            instance_path: instance_path@,
            primitive: primitive@,
        },
        MacroExplorationInputValidationError::MissingPrimitiveDeviceType { macro_name, instance_path, primitive } =>
            InputFault::MissingPrimitiveDeviceType {
            macro_name: macro_name@,
            instance_path: instance_path@,
            primitive: primitive@,
        },
        MacroExplorationInputValidationError::MissingDeviceModel {
            macro_name,
            instance_path,
            primitive,
            device_type,
        } => InputFault::MissingDeviceModel {
            macro_name: macro_name@,
            instance_path: instance_path@,
            primitive: primitive@,
            device_type: device_type@,
        },
        MacroExplorationInputValidationError::UnknownDesignVariable { macro_name, variable } =>
            InputFault::UnknownDesignVariable { macro_name: macro_name@, variable: variable@ },
        MacroExplorationInputValidationError::DesignVariableKindMismatch { macro_name, variable, expected, actual } =>
            InputFault::DesignVariableKindMismatch { macro_name: macro_name@, variable: variable@, expected, actual },
        MacroExplorationInputValidationError::NonFiniteDesignVariable { macro_name, variable } =>
            InputFault::NonFiniteDesignVariable { macro_name: macro_name@, variable: variable@ },
        MacroExplorationInputValidationError::InvalidDesignVariableCondition { macro_name, variable } =>
            InputFault::InvalidDesignVariableCondition { macro_name: macro_name@, variable: variable@ },
        MacroExplorationInputValidationError::UnknownSpecificationOverride { macro_name, specification } =>
            InputFault::UnknownSpecificationOverride { macro_name: macro_name@, specification: specification@ },
        MacroExplorationInputValidationError::InvalidSpecificationBounds { macro_name, specification } =>
            InputFault::InvalidSpecificationBounds { macro_name: macro_name@, specification: specification@ },
        MacroExplorationInputValidationError::ConflictingSpecificationBounds { macro_name, specification } =>
            InputFault::ConflictingSpecificationBounds { macro_name: macro_name@, specification: specification@ },
        MacroExplorationInputValidationError::UnknownPrimitiveInput { macro_name, instance_path, primitive, input } =>
            InputFault::UnknownPrimitiveInput {
            macro_name: macro_name@,
            instance_path: instance_path@,
            primitive: primitive@,
            input: input@,
        },
        MacroExplorationInputValidationError::MissingRequiredPrimitiveInput {
            macro_name,
            instance_path,
            primitive,
            input,
        } => InputFault::MissingRequiredPrimitiveInput {
            macro_name: macro_name@,
            instance_path: instance_path@,
            primitive: primitive@,
            input: input@,
        },
        MacroExplorationInputValidationError::PrimitiveInputKindMismatch {
            macro_name,
            instance_path,
            primitive,
            input,
            expected,
            actual,
        } => InputFault::PrimitiveInputKindMismatch {
            macro_name: macro_name@,
            instance_path: instance_path@,
            primitive: primitive@,
            input: input@,
            expected,
            actual,
        },
        MacroExplorationInputValidationError::NonFinitePrimitiveInput { macro_name, instance_path, primitive, input } =>
            InputFault::NonFinitePrimitiveInput {
            macro_name: macro_name@,
            instance_path: instance_path@,
            primitive: primitive@,
            input: input@,
        },
    }
}

/// What a list of validation errors reports, in order.
pub open spec fn input_faults(errors: Seq<MacroExplorationInputValidationError>) -> Seq<InputFault> {
    errors.map_values(|e: MacroExplorationInputValidationError| input_fault(e))
}

/// Pushing an error reports one more fault.
proof fn lemma_push_fault(errors: Seq<MacroExplorationInputValidationError>, e: MacroExplorationInputValidationError)
    ensures
        input_faults(errors.push(e)) == input_faults(errors).push(input_fault(e)),
{
    assert(input_faults(errors.push(e)) =~= input_faults(errors).push(input_fault(e)));
}

// ---------------------------------------------------------------------------
// Design variables
// ---------------------------------------------------------------------------

/// The faults of one design-variable override.
pub open spec fn override_faults(
    macro_name: Seq<char>,
    variables: Seq<MacroDesignVariable>,
    name: Seq<char>,
    value: BuildValueView,
) -> Seq<InputFault> {
    match first_named(variable_names(variables), name) {
        None => seq![InputFault::UnknownDesignVariable { macro_name, variable: name }],
        Some(i) => (if variables[i].kind_view() != value_kind(value) {
            seq![
                InputFault::DesignVariableKindMismatch {
                    macro_name,
                    variable: name,
                    expected: variables[i].kind_view(),
                    actual: value_kind(value),
                },
            ]
        } else {
            Seq::empty()
        }) + (if !value_finite(value) {
            seq![InputFault::NonFiniteDesignVariable { macro_name, variable: name }]
        } else {
            Seq::empty()
        }),
    }
}

/// The faults of the overrides, in name order.
pub open spec fn overrides_faults(
    macro_name: Seq<char>,
    variables: Seq<MacroDesignVariable>,
    entries: Seq<(String, PrimitiveBuildValue)>,
) -> Seq<InputFault>
    decreases entries.len(),
{
    if entries.len() == 0 {
        Seq::empty()
    } else {
        overrides_faults(macro_name, variables, entries.drop_last()) + override_faults(
            macro_name,
            variables,
            entries.last().0@,
            build_value_view(entries.last().1),
        )
    }
}

/// The faults of the restrictions of one design variable; an unknown
/// variable already reported for its override is not reported again.
pub open spec fn restriction_faults(
    macro_name: Seq<char>,
    variables: Seq<MacroDesignVariable>,
    overridden: bool,
    name: Seq<char>,
    conditions: Seq<MacroDesignVariableCondition>,
) -> Seq<InputFault> {
    match first_named(variable_names(variables), name) {
        None => if overridden {
            Seq::empty()
        } else {
            seq![InputFault::UnknownDesignVariable { macro_name, variable: name }]
        },
        Some(_) => if exists|i: int| 0 <= i < conditions.len() && !condition_finite(#[trigger] conditions[i]) {
            seq![InputFault::InvalidDesignVariableCondition { macro_name, variable: name }]
        } else {
            Seq::empty()
        },
    }
}

/// The faults of the restrictions, in name order.
pub open spec fn restrictions_faults(
    macro_name: Seq<char>,
    variables: Seq<MacroDesignVariable>,
    overrides: Map<Seq<char>, BuildValueView>,
    entries: Seq<(String, Vec<MacroDesignVariableCondition>)>,
) -> Seq<InputFault>
    decreases entries.len(),
{
    if entries.len() == 0 {
        Seq::empty()
    } else {
        restrictions_faults(macro_name, variables, overrides, entries.drop_last()) + restriction_faults(
            macro_name,
            variables,
            overrides.contains_key(entries.last().0@),
            entries.last().0@,
            entries.last().1@,
        )
    }
}

/// Reports the faults of one design-variable override.
fn check_override(
    macro_: &Macro,
    name: &str,
    value: &PrimitiveBuildValue,
    errors: &mut Vec<MacroExplorationInputValidationError>,
)
    ensures
        input_faults(final(errors)@) == input_faults(old(errors)@) + override_faults(
            macro_.name_view(),
            macro_.exploration_view().design_variables_view(),
            name@,
            build_value_view(*value),
        ),
{
    let ghost before = input_faults(errors@);
    match macro_.exploration().design_variable(name) {
        None => {
            let error = MacroExplorationInputValidationError::UnknownDesignVariable {
                macro_name: macro_.name().to_string(),
                variable: name.to_string(),
            };
            proof {
                lemma_push_fault(errors@, error);
            }
            errors.push(error);
        },
        Some(variable) => {
            if !variable.kind().accepts(value.kind()) {
                let error = MacroExplorationInputValidationError::DesignVariableKindMismatch {
                    macro_name: macro_.name().to_string(),
                    variable: name.to_string(),
                    expected: variable.kind(),
                    actual: value.kind(),
                };
                proof {
                    lemma_push_fault(errors@, error);
                }
                errors.push(error);
            }
            if !value.is_finite() {
                let error = MacroExplorationInputValidationError::NonFiniteDesignVariable {
                    macro_name: macro_.name().to_string(),
                    variable: name.to_string(),
                };
                proof {
                    lemma_push_fault(errors@, error);
                }
                errors.push(error);
            }
        },
    }
    assert(input_faults(errors@) =~= before + override_faults(
        macro_.name_view(),
        macro_.exploration_view().design_variables_view(),
        name@,
        build_value_view(*value),
    ));
}

/// Reports the faults of the design-variable overrides.
fn check_overrides(
    macro_: &Macro,
    entries: &Vec<(String, PrimitiveBuildValue)>,
    errors: &mut Vec<MacroExplorationInputValidationError>,
)
    ensures
        input_faults(final(errors)@) == input_faults(old(errors)@) + overrides_faults(
            macro_.name_view(),
            macro_.exploration_view().design_variables_view(),
            entries@,
        ),
{
    let ghost start = input_faults(errors@);
    let ghost variables = macro_.exploration_view().design_variables_view();
    let n = entries.len();
    let mut i: usize = 0;
    while i < n
        invariant
            n == entries@.len(),
            i <= n,
            variables == macro_.exploration_view().design_variables_view(),
            input_faults(errors@) == start + overrides_faults(macro_.name_view(), variables, entries@.take(i as int)),
        decreases n - i,
    {
        let ghost prefix = entries@.take(i + 1);
        check_override(macro_, entries[i].0.as_str(), &entries[i].1, errors);
        proof {
            assert(prefix.drop_last() =~= entries@.take(i as int));
            assert(prefix.last() == entries@[i as int]);
            assert(input_faults(errors@) =~= start + overrides_faults(macro_.name_view(), variables, prefix));
        }
        i = i + 1;
    }
    assert(entries@.take(n as int) =~= entries@);
}

/// Returns whether every condition is finite.
fn all_conditions_finite(conditions: &Vec<MacroDesignVariableCondition>) -> (finite: bool)
    ensures
        finite == !exists|i: int| 0 <= i < conditions@.len() && !condition_finite(#[trigger] conditions@[i]),
{
    let n = conditions.len();
    let mut i: usize = 0;
    while i < n
        invariant
            n == conditions@.len(),
            i <= n,
            forall|k: int| 0 <= k < i ==> condition_finite(#[trigger] conditions@[k]),
        decreases n - i,
    {
        if !conditions[i].is_finite() {
            assert(!condition_finite(conditions@[i as int]));
            return false;
        }
        i = i + 1;
    }
    true
}

/// The faults of one more restriction follow those of the ones before.
proof fn lemma_restrictions_step(
    macro_name: Seq<char>,
    variables: Seq<MacroDesignVariable>,
    overrides: Map<Seq<char>, BuildValueView>,
    entries: Seq<(String, Vec<MacroDesignVariableCondition>)>,
    i: int,
)
    requires
        0 <= i < entries.len(),
    ensures
        restrictions_faults(macro_name, variables, overrides, entries.take(i + 1)) == restrictions_faults(
            macro_name,
            variables,
            overrides,
            entries.take(i),
        ) + restriction_faults(
            macro_name,
            variables,
            overrides.contains_key(entries[i].0@),
            entries[i].0@,
            entries[i].1@,
        ),
{
    let prefix = entries.take(i + 1);
    assert(prefix.drop_last() =~= entries.take(i));
    assert(prefix.last() == entries[i]);
}

/// Reports the faults of the restrictions of one design variable.
fn check_restriction(
    macro_: &Macro,
    overridden: bool,
    name: &str,
    conditions: &Vec<MacroDesignVariableCondition>,
    errors: &mut Vec<MacroExplorationInputValidationError>,
)
    ensures
        input_faults(final(errors)@) == input_faults(old(errors)@) + restriction_faults(
            macro_.name_view(),
            macro_.exploration_view().design_variables_view(),
            overridden,
            name@,
            conditions@,
        ),
{
    let ghost before = input_faults(errors@);
    let finite = all_conditions_finite(conditions);
    match macro_.exploration().design_variable(name) {
        None => {
            if !overridden {
                let error = MacroExplorationInputValidationError::UnknownDesignVariable {
                    macro_name: macro_.name().to_string(),
                    variable: name.to_string(),
                };
                proof {
                    lemma_push_fault(errors@, error);
                }
                errors.push(error);
            }
        },
        Some(_) => {
            if !finite {
                let error = MacroExplorationInputValidationError::InvalidDesignVariableCondition {
                    macro_name: macro_.name().to_string(),
                    variable: name.to_string(),
                };
                proof {
                    lemma_push_fault(errors@, error);
                }
                errors.push(error);
            }
        },
    }
    assert(input_faults(errors@) =~= before + restriction_faults(
        macro_.name_view(),
        macro_.exploration_view().design_variables_view(),
        overridden,
        name@,
        conditions@,
    ));
}

/// Reports the faults of the design-variable restrictions.
fn check_restrictions(
    macro_: &Macro,
    overrides: &Vec<(String, PrimitiveBuildValue)>,
    entries: &Vec<(String, Vec<MacroDesignVariableCondition>)>,
    errors: &mut Vec<MacroExplorationInputValidationError>,
)
    requires
        strictly_sorted(entry_names(overrides@)),
    ensures
        input_faults(final(errors)@) == input_faults(old(errors)@) + restrictions_faults(
            macro_.name_view(),
            macro_.exploration_view().design_variables_view(),
            entries_map(overrides@),
            entries@,
        ),
{
    let ghost start = input_faults(errors@);
    let ghost variables = macro_.exploration_view().design_variables_view();
    let ghost ov = entries_map(overrides@);
    let n = entries.len();
    let mut i: usize = 0;
    while i < n
        invariant
            n == entries@.len(),
            i <= n,
            variables == macro_.exploration_view().design_variables_view(),
            ov == entries_map(overrides@),
            strictly_sorted(entry_names(overrides@)),
            input_faults(errors@) == start + restrictions_faults(
                macro_.name_view(),
                variables,
                ov,
                entries@.take(i as int),
            ),
        decreases n - i,
    {
        let name = entries[i].0.as_str();
        let overridden = get_entry(overrides, name).is_some();
        check_restriction(macro_, overridden, name, &entries[i].1, errors);
        proof {
            lemma_restrictions_step(macro_.name_view(), variables, ov, entries@, i as int);
        }
        i = i + 1;
    }
    assert(entries@.take(n as int) =~= entries@);
}

// ---------------------------------------------------------------------------
// Specification bounds
// ---------------------------------------------------------------------------

/// The fault of one runtime or inherited specification bound.
pub open spec fn bound_fault(
    macro_name: Seq<char>,
    specifications: Seq<MacroSpecification>,
    name: Seq<char>,
    bounds: MacroSpecificationBounds,
) -> Seq<InputFault> {
    match first_named(specification_names(specifications), name) {
        None => seq![InputFault::UnknownSpecificationOverride { macro_name, specification: name }],
        Some(_) => if !bounds_valid(bounds) {
            seq![InputFault::InvalidSpecificationBounds { macro_name, specification: name }]
        } else {
            Seq::empty()
        },
    }
}

/// The faults of a list of specification bounds, in order.
pub open spec fn bounds_faults(
    macro_name: Seq<char>,
    specifications: Seq<MacroSpecification>,
    entries: Seq<(String, MacroSpecificationBounds)>,
) -> Seq<InputFault>
    decreases entries.len(),
{
    if entries.len() == 0 {
        Seq::empty()
    } else {
        bounds_faults(macro_name, specifications, entries.drop_last()) + bound_fault(
            macro_name,
            specifications,
            entries.last().0@,
            entries.last().1,
        )
    }
}

/// Reports the fault of one runtime or inherited specification bound.
fn check_bound(
    macro_: &Macro,
    name: &str,
    bounds: MacroSpecificationBounds,
    errors: &mut Vec<MacroExplorationInputValidationError>,
)
    ensures
        input_faults(final(errors)@) == input_faults(old(errors)@) + bound_fault(
            macro_.name_view(),
            macro_.exploration_view().specifications_view(),
            name@,
            bounds,
        ),
{
    let ghost before = input_faults(errors@);
    match macro_.exploration().specification(name) {
        None => {
            let error = MacroExplorationInputValidationError::UnknownSpecificationOverride {
                macro_name: macro_.name().to_string(),
                specification: name.to_string(),
            };
            proof {
                lemma_push_fault(errors@, error);
            }
            errors.push(error);
        },
        Some(_) => {
            if !bounds.is_valid() {
                let error = MacroExplorationInputValidationError::InvalidSpecificationBounds {
                    macro_name: macro_.name().to_string(),
                    specification: name.to_string(),
                };
                proof {
                    lemma_push_fault(errors@, error);
                }
                errors.push(error);
            }
        },
    }
    assert(input_faults(errors@) =~= before + bound_fault(
        macro_.name_view(),
        macro_.exploration_view().specifications_view(),
        name@,
        bounds,
    ));
}

/// Reports the faults of a list of specification bounds.
fn check_bounds(
    macro_: &Macro,
    entries: &Vec<(String, MacroSpecificationBounds)>,
    errors: &mut Vec<MacroExplorationInputValidationError>,
)
    ensures
        input_faults(final(errors)@) == input_faults(old(errors)@) + bounds_faults(
            macro_.name_view(),
            macro_.exploration_view().specifications_view(),
            entries@,
        ),
{
    let ghost start = input_faults(errors@);
    let ghost specifications = macro_.exploration_view().specifications_view();
    let n = entries.len();
    let mut i: usize = 0;
    while i < n
        invariant
            n == entries@.len(),
            i <= n,
            specifications == macro_.exploration_view().specifications_view(),
            input_faults(errors@) == start + bounds_faults(macro_.name_view(), specifications, entries@.take(i as int)),
        decreases n - i,
    {
        let ghost prefix = entries@.take(i + 1);
        check_bound(macro_, entries[i].0.as_str(), entries[i].1, errors);
        proof {
            assert(prefix.drop_last() =~= entries@.take(i as int));
            assert(prefix.last() == entries@[i as int]);
            assert(input_faults(errors@) =~= start + bounds_faults(macro_.name_view(), specifications, prefix));
        }
        i = i + 1;
    }
    assert(entries@.take(n as int) =~= entries@);
}

/// Specification `i` is the first whose effective bounds are at fault.
pub open spec fn first_bounds_fault(
    overrides: Map<Seq<char>, MacroSpecificationBounds>,
    inherited: Map<Seq<char>, MacroSpecificationBounds>,
    specifications: Seq<MacroSpecification>,
    i: int,
) -> bool {
    &&& 0 <= i < specifications.len()
    &&& effective_bounds(overrides, inherited, specifications[i]) is Err
    &&& forall|k: int| 0 <= k < i ==> effective_bounds(overrides, inherited, #[trigger] specifications[k]) is Ok
}

/// The fault of the first specification without effective bounds, unless
/// the same invalid bounds were already reported for its runtime or
/// inherited bounds.
pub open spec fn effective_faults(
    macro_name: Seq<char>,
    specifications: Seq<MacroSpecification>,
    overrides: Map<Seq<char>, MacroSpecificationBounds>,
    inherited: Map<Seq<char>, MacroSpecificationBounds>,
) -> Seq<InputFault> {
    if exists|i: int| first_bounds_fault(overrides, inherited, specifications, i) {
        let i = choose|i: int| first_bounds_fault(overrides, inherited, specifications, i);
        let name = specifications[i].name_view();
        match effective_bounds(overrides, inherited, specifications[i]) {
            Err(SpecificationBoundsFault::Conflicting) => seq![
                InputFault::ConflictingSpecificationBounds { macro_name, specification: name },
            ],
            _ => if (overrides.contains_key(name) && !bounds_valid(overrides[name])) || (inherited.contains_key(name)
                && !bounds_valid(inherited[name])) {
                Seq::empty()
            } else {
                seq![InputFault::InvalidSpecificationBounds { macro_name, specification: name }]
            },
        }
    } else {
        Seq::empty()
    }
}

/// Only one specification is the first at fault.
proof fn lemma_first_bounds_fault(
    overrides: Map<Seq<char>, MacroSpecificationBounds>,
    inherited: Map<Seq<char>, MacroSpecificationBounds>,
    specifications: Seq<MacroSpecification>,
    i: int,
    j: int,
)
    requires
        first_bounds_fault(overrides, inherited, specifications, i),
        first_bounds_fault(overrides, inherited, specifications, j),
    ensures
        i == j,
{
    if i < j {
        assert(effective_bounds(overrides, inherited, specifications[i]) is Ok);
    } else if j < i {
        assert(effective_bounds(overrides, inherited, specifications[j]) is Ok);
    }
}

/// Reports the fault of the effective specification bounds.
fn check_effective_bounds<D, P>(
    macro_: &Macro,
    input: &MacroExplorationInput<D, P>,
    errors: &mut Vec<MacroExplorationInputValidationError>,
)
    ensures
        input_faults(final(errors)@) == input_faults(old(errors)@) + effective_faults(
            macro_.name_view(),
            macro_.exploration_view().specifications_view(),
            input@.specification_overrides,
            input@.inherited_specification_bounds,
        ),
{
    let ghost overrides = input@.specification_overrides;
    let ghost inherited = input@.inherited_specification_bounds;
    let ghost specifications = macro_.exploration_view().specifications_view();
    let ghost before = input_faults(errors@);
    match input.effective_specification_bounds(macro_) {
        Ok(_) => {
            proof {
                if exists|i: int| first_bounds_fault(overrides, inherited, specifications, i) {
                    let i = choose|i: int| first_bounds_fault(overrides, inherited, specifications, i);
                    assert(effective_bounds(overrides, inherited, specifications[i]) is Ok);
                }
            }
            assert(input_faults(errors@) =~= before + Seq::<InputFault>::empty());
        },
        Err(error) => {
            let ghost i = choose|i: int|
                0 <= i < specifications.len() && (forall|k: int|
                    0 <= k < i ==> effective_bounds(overrides, inherited, #[trigger] specifications[k]) is Ok)
                    && reports_bounds_fault(
                    macro_.name_view(),
                    specifications[i].name_view(),
                    effective_bounds(overrides, inherited, specifications[i]),
                    error,
                );
            proof {
                assert(first_bounds_fault(overrides, inherited, specifications, i));
                let j = choose|j: int| first_bounds_fault(overrides, inherited, specifications, j);
                lemma_first_bounds_fault(overrides, inherited, specifications, i, j);
            }
            let ghost name = specifications[i].name_view();
            match error {
                MacroExplorationInputValidationError::InvalidSpecificationBounds { macro_name, specification } => {
                    let reported = match get_entry(input.specification_override_list(), specification.as_str()) {
                        Some(bounds) => !bounds.is_valid(),
                        None => false,
                    } || match get_entry(input.inherited_list(), specification.as_str()) {
                        Some(bounds) => !bounds.is_valid(),
                        None => false,
                    };
                    proof {
                        input.lemma_entry_views();
                    }
                    if !reported {
                        let error = MacroExplorationInputValidationError::InvalidSpecificationBounds {
                            macro_name,
                            specification,
                        };
                        proof {
                            lemma_push_fault(errors@, error);
                        }
                        errors.push(error);
                    }
                    assert(input_faults(errors@) =~= before + effective_faults(
                        macro_.name_view(),
                        specifications,
                        overrides,
                        inherited,
                    ));
                },
                MacroExplorationInputValidationError::ConflictingSpecificationBounds { macro_name, specification } => {
                    let error = MacroExplorationInputValidationError::ConflictingSpecificationBounds {
                        macro_name,
                        specification,
                    };
                    proof {
                        lemma_push_fault(errors@, error);
                    }
                    errors.push(error);
                    assert(input_faults(errors@) =~= before + effective_faults(
                        macro_.name_view(),
                        specifications,
                        overrides,
                        inherited,
                    ));
                },
                _ => {
                    assert(false);
                },
            }
        },
    }
}

// ---------------------------------------------------------------------------
// Physical LUT
// ---------------------------------------------------------------------------

/// The layout-aware testbenches that lack a physical LUT, in order.
pub open spec fn lut_faults(macro_name: Seq<char>, testbenches: Seq<MacroAcTestbench>) -> Seq<InputFault>
    decreases testbenches.len(),
{
    if testbenches.len() == 0 {
        Seq::empty()
    } else {
        lut_faults(macro_name, testbenches.drop_last()) + if testbenches.last().domain_view()
            == MacroAnalysisDomain::LayoutAware {
            seq![InputFault::MissingPhysicalLut { macro_name, testbench: testbenches.last().name_view() }]
        } else {
            Seq::empty()
        }
    }
}

/// Reports every layout-aware testbench, which needs the missing physical
/// LUT.
fn check_physical_lut(macro_: &Macro, errors: &mut Vec<MacroExplorationInputValidationError>)
    ensures
        input_faults(final(errors)@) == input_faults(old(errors)@) + lut_faults(
            macro_.name_view(),
            macro_.exploration_view().testbenches_view(),
        ),
{
    let ghost start = input_faults(errors@);
    let testbenches = macro_.exploration().testbenches();
    let n = testbenches.len();
    let mut i: usize = 0;
    while i < n
        invariant
            n == testbenches@.len(),
            testbenches@ == macro_.exploration_view().testbenches_view(),
            i <= n,
            input_faults(errors@) == start + lut_faults(macro_.name_view(), testbenches@.take(i as int)),
        decreases n - i,
    {
        let ghost prefix = testbenches@.take(i + 1);
        let ghost before = input_faults(errors@);
        if testbenches[i].domain() == MacroAnalysisDomain::LayoutAware {
            let error = MacroExplorationInputValidationError::MissingPhysicalLut {
                macro_name: macro_.name().to_string(),
                testbench: testbenches[i].name().to_string(),
            };
            proof {
                lemma_push_fault(errors@, error);
            }
            errors.push(error);
        }
        proof {
            assert(prefix.drop_last() =~= testbenches@.take(i as int));
            assert(prefix.last() == testbenches@[i as int]);
            assert(input_faults(errors@) =~= start + lut_faults(macro_.name_view(), prefix));
        }
        i = i + 1;
    }
    assert(testbenches@.take(n as int) =~= testbenches@);
}


// ---------------------------------------------------------------------------
// Registered instance kinds
// ---------------------------------------------------------------------------

/// The kind of input a placed block takes.
pub open spec fn block_kind(block: BlockRef) -> MacroExplorationInstanceKind {
    match block {
        BlockRef::Primitive(_) => MacroExplorationInstanceKind::Primitive,
        BlockRef::Macro(_) => MacroExplorationInstanceKind::CompactMacro,
        BlockRef::Element(_) => MacroExplorationInstanceKind::LinearElement,
    }
}

/// The fault of an input registered under `path` for an instance of kind
/// `expected`.
pub open spec fn kind_fault(
    macro_name: Seq<char>,
    instances: Seq<CircuitInstance>,
    path: Seq<char>,
    expected: MacroExplorationInstanceKind,
) -> Seq<InputFault> {
    match instance_index(instances, path) {
        None => seq![InputFault::UnknownInstance { macro_name, instance_path: path }],
        Some(i) => if block_kind(instances[i].block_view()) != expected {
            seq![
                InputFault::InstanceKindMismatch {
                    macro_name,
                    instance_path: path,
                    expected,
                    actual: block_kind(instances[i].block_view()),
                },
            ]
        } else {
            Seq::empty()
        },
    }
}

/// The faults of the inputs registered under `paths`, in order.
pub open spec fn kind_faults(
    macro_name: Seq<char>,
    instances: Seq<CircuitInstance>,
    paths: Seq<Seq<char>>,
    expected: MacroExplorationInstanceKind,
) -> Seq<InputFault>
    decreases paths.len(),
{
    if paths.len() == 0 {
        Seq::empty()
    } else {
        kind_faults(macro_name, instances, paths.drop_last(), expected) + kind_fault(
            macro_name,
            instances,
            paths.last(),
            expected,
        )
    }
}

/// Reports the input registered under `path` if its instance is unknown or
/// of another kind.
fn check_kind(
    macro_: &Macro,
    path: &str,
    expected: MacroExplorationInstanceKind,
    errors: &mut Vec<MacroExplorationInputValidationError>,
)
    ensures
        input_faults(final(errors)@) == input_faults(old(errors)@) + kind_fault(
            macro_.name_view(),
            macro_.circuit_view().instances_view(),
            path@,
            expected,
        ),
{
    let ghost before = input_faults(errors@);
    proof {
        lemma_instance_index(macro_.circuit_view().instances_view(), path@);
    }
    match macro_.circuit().instance(path) {
        None => {
            let error = MacroExplorationInputValidationError::UnknownInstance {
                macro_name: macro_.name().to_string(),
                instance_path: path.to_string(),
            };
            proof {
                lemma_push_fault(errors@, error);
            }
            errors.push(error);
        },
        Some(instance) => {
            let actual = match instance.block() {
                BlockRef::Primitive(_) => MacroExplorationInstanceKind::Primitive,
                BlockRef::Macro(_) => MacroExplorationInstanceKind::CompactMacro,
                BlockRef::Element(_) => MacroExplorationInstanceKind::LinearElement,
            };
            if actual != expected {
                let error = MacroExplorationInputValidationError::InstanceKindMismatch {
                    macro_name: macro_.name().to_string(),
                    instance_path: path.to_string(),
                    expected,
                    actual,
                };
                proof {
                    lemma_push_fault(errors@, error);
                }
                errors.push(error);
            }
        },
    }
    assert(input_faults(errors@) =~= before + kind_fault(
        macro_.name_view(),
        macro_.circuit_view().instances_view(),
        path@,
        expected,
    ));
}

/// Reports the inputs registered for unknown instances or for instances of
/// another kind.
fn check_kinds<V>(
    macro_: &Macro,
    entries: &Vec<(String, V)>,
    expected: MacroExplorationInstanceKind,
    errors: &mut Vec<MacroExplorationInputValidationError>,
)
    ensures
        input_faults(final(errors)@) == input_faults(old(errors)@) + kind_faults(
            macro_.name_view(),
            macro_.circuit_view().instances_view(),
            entry_names(entries@),
            expected,
        ),
{
    let ghost start = input_faults(errors@);
    let ghost instances = macro_.circuit_view().instances_view();
    let ghost paths = entry_names(entries@);
    let n = entries.len();
    let mut i: usize = 0;
    while i < n
        invariant
            n == entries@.len(),
            i <= n,
            instances == macro_.circuit_view().instances_view(),
            paths == entry_names(entries@),
            input_faults(errors@) == start + kind_faults(macro_.name_view(), instances, paths.take(i as int), expected),
        decreases n - i,
    {
        let ghost prefix = paths.take(i + 1);
        check_kind(macro_, entries[i].0.as_str(), expected, errors);
        proof {
            assert(prefix.drop_last() =~= paths.take(i as int));
            assert(prefix.last() == paths[i as int]);
            assert(input_faults(errors@) =~= start + kind_faults(macro_.name_view(), instances, prefix, expected));
        }
        i = i + 1;
    }
    assert(paths.take(n as int) =~= paths);
}

// ---------------------------------------------------------------------------
// Primitive build inputs
// ---------------------------------------------------------------------------

/// Names of the declared build inputs, in order.
pub open spec fn input_spec_names(specs: Seq<PrimitiveBuildInputSpec>) -> Seq<Seq<char>> {
    specs.map_values(|spec: PrimitiveBuildInputSpec| spec.name@)
}

/// The faults of the value given to build input `name`.
pub open spec fn build_value_faults(
    macro_name: Seq<char>,
    path: Seq<char>,
    primitive: Seq<char>,
    specs: Seq<PrimitiveBuildInputSpec>,
    name: Seq<char>,
    value: BuildValueView,
) -> Seq<InputFault> {
    match first_named(input_spec_names(specs), name) {
        None => seq![InputFault::UnknownPrimitiveInput { macro_name, instance_path: path, primitive, input: name }],
        Some(j) => (if specs[j].kind != value_kind(value) {
            seq![
                InputFault::PrimitiveInputKindMismatch {
                    macro_name,
                    instance_path: path,
                    primitive,
                    input: name,
                    expected: specs[j].kind,
                    actual: value_kind(value),
                },
            ]
        } else {
            Seq::empty()
        }) + (if !value_finite(value) {
            seq![InputFault::NonFinitePrimitiveInput { macro_name, instance_path: path, primitive, input: name }]
        } else {
            Seq::empty()
        }),
    }
}

/// The faults of the given build values, in name order.
pub open spec fn build_values_faults(
    macro_name: Seq<char>,
    path: Seq<char>,
    primitive: Seq<char>,
    specs: Seq<PrimitiveBuildInputSpec>,
    entries: Seq<(String, PrimitiveBuildValue)>,
) -> Seq<InputFault>
    decreases entries.len(),
{
    if entries.len() == 0 {
        Seq::empty()
    } else {
        build_values_faults(macro_name, path, primitive, specs, entries.drop_last()) + build_value_faults(
            macro_name,
            path,
            primitive,
            specs,
            entries.last().0@,
            build_value_view(entries.last().1),
        )
    }
}

/// The required build inputs without a value, in declaration order.
pub open spec fn required_faults(
    macro_name: Seq<char>,
    path: Seq<char>,
    primitive: Seq<char>,
    specs: Seq<PrimitiveBuildInputSpec>,
    values: Map<Seq<char>, BuildValueView>,
) -> Seq<InputFault>
    decreases specs.len(),
{
    if specs.len() == 0 {
        Seq::empty()
    } else {
        required_faults(macro_name, path, primitive, specs.drop_last(), values) + if specs.last().required
            && !values.contains_key(specs.last().name@) {
            seq![
                InputFault::MissingRequiredPrimitiveInput {
                    macro_name,
                    instance_path: path,
                    primitive,
                    input: specs.last().name@,
                },
            ]
        } else {
            Seq::empty()
        }
    }
}

/// The faults of the build input of one primitive instance: its values in
/// name order, then its missing required inputs in declaration order.
pub open spec fn build_input_faults(
    macro_name: Seq<char>,
    path: Seq<char>,
    primitive: Seq<char>,
    specs: Seq<PrimitiveBuildInputSpec>,
    input: PrimitiveBuildInput,
) -> Seq<InputFault> {
    build_values_faults(macro_name, path, primitive, specs, input.entries()) + required_faults(
        macro_name,
        path,
        primitive,
        specs,
        input@,
    )
}

/// Finds the first declared build input named `name`.
pub(crate) fn find_input_spec<'a>(specs: &'a Vec<PrimitiveBuildInputSpec>, name: &str) -> (spec: Option<&'a PrimitiveBuildInputSpec>)
    ensures
        match first_named(input_spec_names(specs@), name@) {
            Some(j) => spec == Some(&specs@[j]),
            None => spec is None,
        },
{
    let ghost names = input_spec_names(specs@);
    let n = specs.len();
    let mut i: usize = 0;
    while i < n
        invariant
            n == specs@.len(),
            names == input_spec_names(specs@),
            i <= n,
            forall|k: int| 0 <= k < i ==> names[k] != name@,
        decreases n - i,
    {
        if str_eq(specs[i].name.as_str(), name) {
            proof {
                lemma_first_named(names, name@, i as int);
            }
            return Some(&specs[i]);
        }
        i = i + 1;
    }
    proof {
        assert forall|k: int| 0 <= k < names.len() implies names[k] != name@ by {}
    }
    None
}

/// Reports the faults of the value given to one build input.
fn check_build_value(
    macro_name: &str,
    path: &str,
    primitive: &str,
    specs: &Vec<PrimitiveBuildInputSpec>,
    name: &str,
    value: &PrimitiveBuildValue,
    errors: &mut Vec<MacroExplorationInputValidationError>,
)
    ensures
        input_faults(final(errors)@) == input_faults(old(errors)@) + build_value_faults(
            macro_name@,
            path@,
            primitive@,
            specs@,
            name@,
            build_value_view(*value),
        ),
{
    let ghost before = input_faults(errors@);
    match find_input_spec(specs, name) {
        None => {
            let error = MacroExplorationInputValidationError::UnknownPrimitiveInput {
                macro_name: macro_name.to_string(),
                instance_path: path.to_string(),
                primitive: primitive.to_string(),
                input: name.to_string(),
            };
            proof {
                lemma_push_fault(errors@, error);
            }
            errors.push(error);
        },
        Some(spec) => {
            if !spec.kind.accepts(value.kind()) {
                let error = MacroExplorationInputValidationError::PrimitiveInputKindMismatch {
                    macro_name: macro_name.to_string(),
                    instance_path: path.to_string(),
                    primitive: primitive.to_string(),
                    input: name.to_string(),
                    expected: spec.kind,
                    actual: value.kind(),
                };
                proof {
                    lemma_push_fault(errors@, error);
                }
                errors.push(error);
            }
            if !value.is_finite() {
                let error = MacroExplorationInputValidationError::NonFinitePrimitiveInput {
                    macro_name: macro_name.to_string(),
                    instance_path: path.to_string(),
                    primitive: primitive.to_string(),
                    input: name.to_string(),
                };
                proof {
                    lemma_push_fault(errors@, error);
                }
                errors.push(error);
            }
        },
    }
    assert(input_faults(errors@) =~= before + build_value_faults(
        macro_name@,
        path@,
        primitive@,
        specs@,
        name@,
        build_value_view(*value),
    ));
}

/// Reports the faults of the build input of one primitive instance.
fn check_build_input(
    macro_name: &str,
    path: &str,
    primitive: &str,
    build: &PrimitiveBuildSpec,
    input: &PrimitiveBuildInput,
    errors: &mut Vec<MacroExplorationInputValidationError>,
)
    ensures
        input_faults(final(errors)@) == input_faults(old(errors)@) + build_input_faults(
            macro_name@,
            path@,
            primitive@,
            build.inputs@,
            *input,
        ),
{
    let ghost start = input_faults(errors@);
    let ghost specs = build.inputs@;
    let entries = input.as_entries();
    let n = entries.len();
    let mut i: usize = 0;
    while i < n
        invariant
            n == entries@.len(),
            entries@ == input.entries(),
            specs == build.inputs@,
            i <= n,
            input_faults(errors@) == start + build_values_faults(
                macro_name@,
                path@,
                primitive@,
                specs,
                entries@.take(i as int),
            ),
        decreases n - i,
    {
        let ghost prefix = entries@.take(i + 1);
        check_build_value(macro_name, path, primitive, &build.inputs, entries[i].0.as_str(), &entries[i].1, errors);
        proof {
            assert(prefix.drop_last() =~= entries@.take(i as int));
            assert(prefix.last() == entries@[i as int]);
            assert(input_faults(errors@) =~= start + build_values_faults(macro_name@, path@, primitive@, specs, prefix));
        }
        i = i + 1;
    }
    assert(entries@.take(n as int) =~= entries@);
    let ghost middle = input_faults(errors@);
    let m = build.inputs.len();
    let mut k: usize = 0;
    while k < m
        invariant
            m == specs.len(),
            specs == build.inputs@,
            k <= m,
            input_faults(errors@) == middle + required_faults(
                macro_name@,
                path@,
                primitive@,
                specs.take(k as int),
                input@,
            ),
        decreases m - k,
    {
        let ghost prefix = specs.take(k + 1);
        let spec = &build.inputs[k];
        if spec.required && input.value(spec.name.as_str()).is_none() {
            let error = MacroExplorationInputValidationError::MissingRequiredPrimitiveInput {
                macro_name: macro_name.to_string(),
                instance_path: path.to_string(),
                primitive: primitive.to_string(),
                input: spec.name.clone(),
            };
            proof {
                lemma_push_fault(errors@, error);
            }
            errors.push(error);
        }
        proof {
            assert(prefix.drop_last() =~= specs.take(k as int));
            assert(prefix.last() == specs[k as int]);
            assert(input_faults(errors@) =~= middle + required_faults(
                macro_name@,
                path@,
                primitive@,
                prefix,
                input@,
            ));
        }
        k = k + 1;
    }
    assert(specs.take(m as int) =~= specs);
    assert(input_faults(errors@) =~= start + build_input_faults(macro_name@, path@, primitive@, specs, *input));
}


// ---------------------------------------------------------------------------
// Circuit instances
// ---------------------------------------------------------------------------

/// The device type a primitive names, unless it names none or a blank one.
pub open spec fn device_type(manifest: PrimitiveManifest) -> Option<Seq<char>> {
    match manifest.transistor_type {
        Some(t) => if is_blank(t@) {
            None
        } else {
            Some(t@)
        },
        None => None,
    }
}

/// The faults of one primitive instance whose primitive is catalogued.
pub open spec fn catalogued_faults(
    macro_name: Seq<char>,
    path: Seq<char>,
    primitive: Seq<char>,
    manifest: PrimitiveManifest,
    primitives: Map<Seq<char>, PrimitiveInstanceExplorationInput>,
    device_types: Set<Seq<char>>,
) -> Seq<InputFault> {
    match device_type(manifest) {
        None => seq![InputFault::MissingPrimitiveDeviceType { macro_name, instance_path: path, primitive }],
        Some(t) => (if !device_types.contains(t) {
            seq![InputFault::MissingDeviceModel { macro_name, instance_path: path, primitive, device_type: t }]
        } else {
            Seq::empty()
        }) + match manifest.build {
            Some(build) => if primitives.contains_key(path) {
                build_input_faults(macro_name, path, primitive, build.inputs@, primitives[path].build_input_view())
            } else {
                Seq::empty()
            },
            None => Seq::empty(),
        },
    }
}

/// The faults of one instance of the circuit: a primitive instance without
/// an input, or whose primitive, device type, device model or build input
/// is at fault; a submacro instance without a compact input.
pub open spec fn instance_faults(
    macro_name: Seq<char>,
    catalog: Seq<PrimitiveManifest>,
    primitives: Map<Seq<char>, PrimitiveInstanceExplorationInput>,
    compact: Map<Seq<char>, CompactMacroInstanceExplorationInput>,
    device_types: Set<Seq<char>>,
    instance: CircuitInstance,
) -> Seq<InputFault> {
    let path = instance.name_view();
    match instance.block_view() {
        BlockRef::Primitive(primitive) => (if !primitives.contains_key(path) {
            seq![InputFault::MissingPrimitiveInput { macro_name, instance_path: path, primitive: primitive@ }]
        } else {
            Seq::empty()
        }) + match primitive_index(catalog, primitive@) {
            None => seq![InputFault::UnknownPrimitive { macro_name, instance_path: path, primitive: primitive@ }],
            Some(j) => catalogued_faults(macro_name, path, primitive@, catalog[j], primitives, device_types),
        },
        BlockRef::Macro(referenced) => if !compact.contains_key(path) {
            seq![
                InputFault::MissingCompactMacroInput {
                    macro_name,
                    instance_path: path,
                    referenced_macro: referenced@,
                },
            ]
        } else {
            Seq::empty()
        },
        BlockRef::Element(_) => Seq::empty(),
    }
}

/// The faults of the instances of the circuit, in declaration order.
pub open spec fn instances_faults(
    macro_name: Seq<char>,
    catalog: Seq<PrimitiveManifest>,
    primitives: Map<Seq<char>, PrimitiveInstanceExplorationInput>,
    compact: Map<Seq<char>, CompactMacroInstanceExplorationInput>,
    device_types: Set<Seq<char>>,
    instances: Seq<CircuitInstance>,
) -> Seq<InputFault>
    decreases instances.len(),
{
    if instances.len() == 0 {
        Seq::empty()
    } else {
        instances_faults(macro_name, catalog, primitives, compact, device_types, instances.drop_last())
            + instance_faults(macro_name, catalog, primitives, compact, device_types, instances.last())
    }
}

/// Reports the faults of one primitive instance whose primitive is
/// catalogued.
fn check_catalogued<D, P>(
    macro_: &Macro,
    path: &str,
    primitive: &str,
    manifest: &PrimitiveManifest,
    resolved: &Vec<(String, PrimitiveInstanceExplorationInput)>,
    input: &MacroExplorationInput<D, P>,
    errors: &mut Vec<MacroExplorationInputValidationError>,
)
    requires
        strictly_sorted(entry_names(resolved@)),
    ensures
        input_faults(final(errors)@) == input_faults(old(errors)@) + catalogued_faults(
            macro_.name_view(),
            path@,
            primitive@,
            *manifest,
            entry_map(resolved@),
            input@.device_models.dom(),
        ),
{
    let ghost before = input_faults(errors@);
    let device_type = match &manifest.transistor_type {
        Some(t) => if str_is_blank(t.as_str()) {
            None
        } else {
            Some(t.as_str())
        },
        None => None,
    };
    match device_type {
        None => {
            let error = MacroExplorationInputValidationError::MissingPrimitiveDeviceType {
                macro_name: macro_.name().to_string(),
                instance_path: path.to_string(),
                primitive: primitive.to_string(),
            };
            proof {
                lemma_push_fault(errors@, error);
            }
            errors.push(error);
            assert(input_faults(errors@) =~= before + catalogued_faults(
                macro_.name_view(),
                path@,
                primitive@,
                *manifest,
                entry_map(resolved@),
                input@.device_models.dom(),
            ));
        },
        Some(t) => {
            if input.device_model(t).is_none() {
                let error = MacroExplorationInputValidationError::MissingDeviceModel {
                    macro_name: macro_.name().to_string(),
                    instance_path: path.to_string(),
                    primitive: primitive.to_string(),
                    device_type: t.to_string(),
                };
                proof {
                    lemma_push_fault(errors@, error);
                }
                errors.push(error);
            }
            let ghost middle = input_faults(errors@);
            if let Some(build) = &manifest.build {
                if let Some(instance_input) = get_entry(resolved, path) {
                    check_build_input(macro_.name(), path, primitive, build, instance_input.build_input(), errors);
                }
            }
            assert(input_faults(errors@) =~= before + catalogued_faults(
                macro_.name_view(),
                path@,
                primitive@,
                *manifest,
                entry_map(resolved@),
                input@.device_models.dom(),
            ));
        },
    }
}

/// Reports the faults of one instance of the circuit.
fn check_instance<D, P>(
    macro_: &Macro,
    catalog: &PrimitiveCatalog,
    instance: &CircuitInstance,
    resolved: &Vec<(String, PrimitiveInstanceExplorationInput)>,
    input: &MacroExplorationInput<D, P>,
    errors: &mut Vec<MacroExplorationInputValidationError>,
)
    requires
        strictly_sorted(entry_names(resolved@)),
    ensures
        input_faults(final(errors)@) == input_faults(old(errors)@) + instance_faults(
            macro_.name_view(),
            catalog.primitives@,
            entry_map(resolved@),
            input@.compact_macro_instances,
            input@.device_models.dom(),
            *instance,
        ),
{
    let ghost before = input_faults(errors@);
    let path = instance.name();
    match instance.block() {
        BlockRef::Primitive(primitive) => {
            if get_entry(resolved, path).is_none() {
                let error = MacroExplorationInputValidationError::MissingPrimitiveInput {
                    macro_name: macro_.name().to_string(),
                    instance_path: path.to_string(),
                    primitive: primitive.clone(),
                };
                proof {
                    lemma_push_fault(errors@, error);
                }
                errors.push(error);
            }
            let ghost middle = input_faults(errors@);
            proof {
                lemma_primitive_index(catalog.primitives@, primitive@);
            }
            match catalog.get(primitive.as_str()) {
                None => {
                    let error = MacroExplorationInputValidationError::UnknownPrimitive {
                        macro_name: macro_.name().to_string(),
                        instance_path: path.to_string(),
                        primitive: primitive.clone(),
                    };
                    proof {
                        lemma_push_fault(errors@, error);
                    }
                    errors.push(error);
                },
                Some(manifest) => {
                    check_catalogued(macro_, path, primitive.as_str(), manifest, resolved, input, errors);
                },
            }
            assert(input_faults(errors@) =~= before + instance_faults(
                macro_.name_view(),
                catalog.primitives@,
                entry_map(resolved@),
                input@.compact_macro_instances,
                input@.device_models.dom(),
                *instance,
            ));
        },
        BlockRef::Macro(referenced) => {
            proof {
                input.lemma_entry_views();
            }
            if get_entry(input.compact_list(), path).is_none() {
                let error = MacroExplorationInputValidationError::MissingCompactMacroInput {
                    macro_name: macro_.name().to_string(),
                    instance_path: path.to_string(),
                    referenced_macro: referenced.clone(),
                };
                proof {
                    lemma_push_fault(errors@, error);
                }
                errors.push(error);
            }
            assert(input_faults(errors@) =~= before + instance_faults(
                macro_.name_view(),
                catalog.primitives@,
                entry_map(resolved@),
                input@.compact_macro_instances,
                input@.device_models.dom(),
                *instance,
            ));
        },
        BlockRef::Element(_) => {
            assert(input_faults(errors@) =~= before + instance_faults(
                macro_.name_view(),
                catalog.primitives@,
                entry_map(resolved@),
                input@.compact_macro_instances,
                input@.device_models.dom(),
                *instance,
            ));
        },
    }
}

/// Reports the faults of every instance of the circuit.
fn check_instances<D, P>(
    macro_: &Macro,
    catalog: &PrimitiveCatalog,
    resolved: &Vec<(String, PrimitiveInstanceExplorationInput)>,
    input: &MacroExplorationInput<D, P>,
    errors: &mut Vec<MacroExplorationInputValidationError>,
)
    requires
        strictly_sorted(entry_names(resolved@)),
    ensures
        input_faults(final(errors)@) == input_faults(old(errors)@) + instances_faults(
            macro_.name_view(),
            catalog.primitives@,
            entry_map(resolved@),
            input@.compact_macro_instances,
            input@.device_models.dom(),
            macro_.circuit_view().instances_view(),
        ),
{
    let ghost start = input_faults(errors@);
    let instances = macro_.circuit().instances();
    let n = instances.len();
    let mut i: usize = 0;
    while i < n
        invariant
            n == instances@.len(),
            instances@ == macro_.circuit_view().instances_view(),
            strictly_sorted(entry_names(resolved@)),
            i <= n,
            input_faults(errors@) == start + instances_faults(
                macro_.name_view(),
                catalog.primitives@,
                entry_map(resolved@),
                input@.compact_macro_instances,
                input@.device_models.dom(),
                instances@.take(i as int),
            ),
        decreases n - i,
    {
        let ghost prefix = instances@.take(i + 1);
        check_instance(macro_, catalog, &instances[i], resolved, input, errors);
        proof {
            assert(prefix.drop_last() =~= instances@.take(i as int));
            assert(prefix.last() == instances@[i as int]);
            assert(input_faults(errors@) =~= start + instances_faults(
                macro_.name_view(),
                catalog.primitives@,
                entry_map(resolved@),
                input@.compact_macro_instances,
                input@.device_models.dom(),
                prefix,
            ));
        }
        i = i + 1;
    }
    assert(instances@.take(n as int) =~= instances@);
}

// ---------------------------------------------------------------------------
// The whole input
// ---------------------------------------------------------------------------

/// Every fault of an exploration input whose primitive instances resolve to
/// `resolved`, in report order: design-variable overrides, then their
/// restrictions, runtime then inherited specification bounds, the first
/// specification without effective bounds, the layout-aware testbenches
/// without a physical LUT, the registered primitive then compact inputs of
/// unknown or mistyped instances, and last the instances of the circuit.
pub open spec fn validation_faults<D, P>(
    macro_: Macro,
    catalog: Seq<PrimitiveManifest>,
    input: MacroExplorationInput<D, P>,
    resolved: Seq<(String, PrimitiveInstanceExplorationInput)>,
) -> Seq<InputFault> {
    let name = macro_.name_view();
    let exploration = macro_.exploration_view();
    let instances = macro_.circuit_view().instances_view();
    overrides_faults(name, exploration.design_variables_view(), input.override_entries()) + restrictions_faults(
        name,
        exploration.design_variables_view(),
        input@.design_variable_overrides,
        input.condition_entries(),
    ) + bounds_faults(name, exploration.specifications_view(), input.specification_override_entries())
        + bounds_faults(name, exploration.specifications_view(), input.inherited_entries()) + effective_faults(
        name,
        exploration.specifications_view(),
        input@.specification_overrides,
        input@.inherited_specification_bounds,
    ) + (if input@.physical_lut is None {
        lut_faults(name, exploration.testbenches_view())
    } else {
        Seq::empty()
    }) + kind_faults(name, instances, entry_names(resolved), MacroExplorationInstanceKind::Primitive) + kind_faults(
        name,
        instances,
        entry_names(input.compact_entries()),
        MacroExplorationInstanceKind::CompactMacro,
    ) + instances_faults(
        name,
        catalog,
        entry_map(resolved),
        input@.compact_macro_instances,
        input@.device_models.dom(),
        instances,
    )
}

/// Validates the runtime exploration input of a macro against its
/// implementation circuit, after resolving the primitive defaults, and
/// returns every independent problem so that a caller can report a
/// complete, instance-qualified configuration error before candidate
/// construction starts.
pub fn validate_macro_exploration_input<D, P>(
    macro_: &Macro,
    primitive_catalog: &PrimitiveCatalog,
    input: &MacroExplorationInput<D, P>,
) -> (errors: Vec<MacroExplorationInputValidationError>)
    ensures
        exists|resolved: Seq<(String, PrimitiveInstanceExplorationInput)>|
            #![trigger entry_map(resolved)]
            strictly_sorted(entry_names(resolved)) && resolves_all(macro_, input@, entry_map(resolved))
                && input_faults(errors@) == validation_faults(*macro_, primitive_catalog.primitives@, *input, resolved),
{
    let mut errors: Vec<MacroExplorationInputValidationError> = Vec::new();
    let ghost start = input_faults(errors@);
    assert(start =~= Seq::<InputFault>::empty());
    let resolved = input.resolved_instances(macro_);
    proof {
        input.lemma_entry_views();
    }
    let overrides = input.override_list();
    check_overrides(macro_, overrides, &mut errors);
    check_restrictions(macro_, overrides, input.condition_list(), &mut errors);
    check_bounds(macro_, input.specification_override_list(), &mut errors);
    check_bounds(macro_, input.inherited_list(), &mut errors);
    check_effective_bounds(macro_, input, &mut errors);
    let ghost before_lut = input_faults(errors@);
    if input.physical_lut().is_none() {
        check_physical_lut(macro_, &mut errors);
    }
    assert(input_faults(errors@) == before_lut + (if input@.physical_lut is None {
        lut_faults(macro_.name_view(), macro_.exploration_view().testbenches_view())
    } else {
        Seq::empty()
    }));
    check_kinds(macro_, &resolved, MacroExplorationInstanceKind::Primitive, &mut errors);
    check_kinds(macro_, input.compact_list(), MacroExplorationInstanceKind::CompactMacro, &mut errors);
    check_instances(macro_, primitive_catalog, &resolved, input, &mut errors);
    assert(input_faults(errors@) =~= validation_faults(*macro_, primitive_catalog.primitives@, *input, resolved@));
    assert(entry_map(resolved@) == entry_map(resolved@));
    errors
}

} // verus!
