//! Validation of the definition-owned parts of a macro exploration: its
//! primitive defaults, its public design variables and its derivation
//! rules, against the implementation circuit and the primitive catalog.
use vstd::prelude::*;

use crate::circuit::{instance_index, lemma_instance_index, BlockRef, CircuitInstance};
use crate::macro_model::configuration::{
    derivation_shapes_are_compatible, derivation_target_name, shapes_compatible, target_name,
    MacroExplorationDefinitionError,
};
use crate::macro_model::input_validation::{find_input_spec, input_spec_names};
use crate::macro_model::model::{
    default_paths, first_named, lemma_first_named, variable_names, Macro, MacroDerivationRule, MacroDesignVariable,
    MacroDesignVariableBinding, MacroPrimitiveDefault,
};
use crate::primitive::{
    build_value_view, lemma_primitive_index, primitive_index, value_finite, value_kind, BuildValueView,
    PrimitiveBuildInput, PrimitiveBuildInputKind, PrimitiveBuildInputSpec, PrimitiveBuildValue, PrimitiveCatalog,
    PrimitiveManifest,
};
use crate::text::{is_blank, str_eq, str_is_blank};

verus! {

/// What a definition error reports, as plain values.
pub enum DefinitionFault {
    EmptyPrimitiveDefaultInstance { index: int },
    DuplicatePrimitiveDefault { instance_path: Seq<char> },
    UnknownPrimitiveDefaultInstance { instance_path: Seq<char> },
    PrimitiveDefaultTargetsNonPrimitive { instance_path: Seq<char> },
    UnknownPrimitiveDefaultInput { instance_path: Seq<char>, input: Seq<char> },
    PrimitiveDefaultInputKindMismatch {
        instance_path: Seq<char>,
        input: Seq<char>,
        expected: PrimitiveBuildInputKind,
        actual: PrimitiveBuildInputKind,
    },
    NonFinitePrimitiveDefaultInput { instance_path: Seq<char>, input: Seq<char> },
    EmptyDesignVariable { index: int },
    DuplicateDesignVariable { variable: Seq<char> },
    EmptyDesignVariableBindings { variable: Seq<char> },
    EmptyDesignVariableBinding { variable: Seq<char>, binding_index: int, field: Seq<char> },
    DuplicateDesignVariableBinding { instance_path: Seq<char>, input: Seq<char> },
    UnknownDesignVariableInstance { variable: Seq<char>, instance_path: Seq<char> },
    DesignVariableTargetsNonPrimitive { variable: Seq<char>, instance_path: Seq<char> },
    UnknownDesignVariableInput { variable: Seq<char>, instance_path: Seq<char>, input: Seq<char> },
    DesignVariableInputKindMismatch {
        variable: Seq<char>,
        instance_path: Seq<char>,
        input: Seq<char>,
        expected: PrimitiveBuildInputKind,
        actual: PrimitiveBuildInputKind,
    },
    EmptyDerivationChild { rule_index: int },
    EmptyDerivationExpression { rule_index: int },
    UnknownDerivationChild { rule_index: int, child_instance: Seq<char> },
    DerivationTargetsNonMacro { rule_index: int, child_instance: Seq<char> },
    EmptyDerivationTarget { rule_index: int },
    IncompatibleDerivationTarget { rule_index: int },
    /// A fault reported by another check of the definition.
    Other,
}

/// What a definition error reports.
pub open spec fn definition_fault(error: MacroExplorationDefinitionError) -> DefinitionFault {
    match error {
        MacroExplorationDefinitionError::EmptyPrimitiveDefaultInstance { index } =>
            DefinitionFault::EmptyPrimitiveDefaultInstance { index: index as int },
        MacroExplorationDefinitionError::DuplicatePrimitiveDefault { instance_path } =>
            DefinitionFault::DuplicatePrimitiveDefault { instance_path: instance_path@ },
        MacroExplorationDefinitionError::UnknownPrimitiveDefaultInstance { instance_path } =>
            DefinitionFault::UnknownPrimitiveDefaultInstance { instance_path: instance_path@ },
        MacroExplorationDefinitionError::PrimitiveDefaultTargetsNonPrimitive { instance_path } =>
            DefinitionFault::PrimitiveDefaultTargetsNonPrimitive { instance_path: instance_path@ },
        MacroExplorationDefinitionError::UnknownPrimitiveDefaultInput { instance_path, input } =>
            DefinitionFault::UnknownPrimitiveDefaultInput { instance_path: instance_path@, input: input@ },
        MacroExplorationDefinitionError::PrimitiveDefaultInputKindMismatch { instance_path, input, expected, actual } =>
            DefinitionFault::PrimitiveDefaultInputKindMismatch {
            instance_path: instance_path@,
            input: input@,
            expected,
            actual,
        },
        MacroExplorationDefinitionError::NonFinitePrimitiveDefaultInput { instance_path, input } =>
            DefinitionFault::NonFinitePrimitiveDefaultInput { instance_path: instance_path@, input: input@ },
        MacroExplorationDefinitionError::EmptyDesignVariable { index } =>
            DefinitionFault::EmptyDesignVariable { index: index as int },
        MacroExplorationDefinitionError::DuplicateDesignVariable { variable } =>
            DefinitionFault::DuplicateDesignVariable { variable: variable@ },
        MacroExplorationDefinitionError::EmptyDesignVariableBindings { variable } =>
            DefinitionFault::EmptyDesignVariableBindings { variable: variable@ },
        MacroExplorationDefinitionError::EmptyDesignVariableBinding { variable, binding_index, field } =>
            DefinitionFault::EmptyDesignVariableBinding {
            variable: variable@,
            binding_index: binding_index as int,
            field: field@,
        },
        MacroExplorationDefinitionError::DuplicateDesignVariableBinding { instance_path, input } =>
            DefinitionFault::DuplicateDesignVariableBinding { instance_path: instance_path@, input: input@ },
        MacroExplorationDefinitionError::UnknownDesignVariableInstance { variable, instance_path } =>
            DefinitionFault::UnknownDesignVariableInstance { variable: variable@, instance_path: instance_path@ },
        MacroExplorationDefinitionError::DesignVariableTargetsNonPrimitive { variable, instance_path } =>
            DefinitionFault::DesignVariableTargetsNonPrimitive { variable: variable@, instance_path: instance_path@ },
        MacroExplorationDefinitionError::UnknownDesignVariableInput { variable, instance_path, input } =>
            DefinitionFault::UnknownDesignVariableInput {
            variable: variable@,
            instance_path: instance_path@,
            input: input@,
        },
        MacroExplorationDefinitionError::DesignVariableInputKindMismatch {
            variable,
            instance_path,
            input,
            expected,
            actual,
        } => DefinitionFault::DesignVariableInputKindMismatch {
            variable: variable@,
            instance_path: instance_path@,
            input: input@,
            expected,
            actual,
        },
        MacroExplorationDefinitionError::EmptyDerivationChild { rule_index } =>
            DefinitionFault::EmptyDerivationChild { rule_index: rule_index as int },
        MacroExplorationDefinitionError::EmptyDerivationExpression { rule_index } =>
            DefinitionFault::EmptyDerivationExpression { rule_index: rule_index as int },
        MacroExplorationDefinitionError::UnknownDerivationChild { rule_index, child_instance } =>
            DefinitionFault::UnknownDerivationChild { rule_index: rule_index as int, child_instance: child_instance@ },
        MacroExplorationDefinitionError::DerivationTargetsNonMacro { rule_index, child_instance } =>
            DefinitionFault::DerivationTargetsNonMacro {
            rule_index: rule_index as int,
            child_instance: child_instance@,
        },
        MacroExplorationDefinitionError::EmptyDerivationTarget { rule_index } =>
            DefinitionFault::EmptyDerivationTarget { rule_index: rule_index as int },
        MacroExplorationDefinitionError::IncompatibleDerivationTarget { rule_index } =>
            DefinitionFault::IncompatibleDerivationTarget { rule_index: rule_index as int },
        _ => DefinitionFault::Other,
    }
}

/// What a list of definition errors reports, in order.
pub open spec fn definition_faults(errors: Seq<MacroExplorationDefinitionError>) -> Seq<DefinitionFault> {
    errors.map_values(|e: MacroExplorationDefinitionError| definition_fault(e))
}

/// Pushing an error reports one more fault.
proof fn lemma_push(errors: Seq<MacroExplorationDefinitionError>, e: MacroExplorationDefinitionError)
    ensures
        definition_faults(errors.push(e)) == definition_faults(errors).push(definition_fault(e)),
{
    assert(definition_faults(errors.push(e)) =~= definition_faults(errors).push(definition_fault(e)));
}

/// Pushes an error and says which fault it adds.
fn report(errors: &mut Vec<MacroExplorationDefinitionError>, error: MacroExplorationDefinitionError)
    ensures
        definition_faults(final(errors)@) == definition_faults(old(errors)@).push(definition_fault(error)),
{
    proof {
        lemma_push(errors@, error);
    }
    errors.push(error);
}

// ---------------------------------------------------------------------------
// Primitive defaults
// ---------------------------------------------------------------------------

/// The build spec of the primitive placed by `instance`, when the catalog
/// has one.
pub open spec fn placed_build(catalog: Seq<PrimitiveManifest>, primitive: Seq<char>) -> Option<Seq<PrimitiveBuildInputSpec>> {
    match primitive_index(catalog, primitive) {
        Some(j) => match catalog[j].build {
            Some(build) => Some(build.inputs@),
            None => None,
        },
        None => None,
    }
}

/// The faults of the value a default gives to build input `name`.
pub open spec fn default_value_faults(
    path: Seq<char>,
    specs: Seq<PrimitiveBuildInputSpec>,
    name: Seq<char>,
    value: BuildValueView,
) -> Seq<DefinitionFault> {
    match first_named(input_spec_names(specs), name) {
        None => seq![DefinitionFault::UnknownPrimitiveDefaultInput { instance_path: path, input: name }],
        Some(j) => (if specs[j].kind != value_kind(value) {
            seq![
                DefinitionFault::PrimitiveDefaultInputKindMismatch {
                    instance_path: path,
                    input: name,
                    expected: specs[j].kind,
                    actual: value_kind(value),
                },
            ]
        } else {
            Seq::empty()
        }) + (if !value_finite(value) {
            seq![DefinitionFault::NonFinitePrimitiveDefaultInput { instance_path: path, input: name }]
        } else {
            Seq::empty()
        }),
    }
}

/// The faults of the values a default gives, in name order.
pub open spec fn default_values_faults(
    path: Seq<char>,
    specs: Seq<PrimitiveBuildInputSpec>,
    entries: Seq<(String, PrimitiveBuildValue)>,
) -> Seq<DefinitionFault>
    decreases entries.len(),
{
    if entries.len() == 0 {
        Seq::empty()
    } else {
        default_values_faults(path, specs, entries.drop_last()) + default_value_faults(
            path,
            specs,
            entries.last().0@,
            build_value_view(entries.last().1),
        )
    }
}

/// The faults of a default whose instance path is not blank and not
/// repeated: an unknown or non-primitive instance, or the faults of its
/// values when the catalog has the primitive's build spec.
pub open spec fn default_target_faults(
    instances: Seq<CircuitInstance>,
    catalog: Seq<PrimitiveManifest>,
    default: MacroPrimitiveDefault,
) -> Seq<DefinitionFault> {
    let path = default.instance_path_view();
    match instance_index(instances, path) {
        None => seq![DefinitionFault::UnknownPrimitiveDefaultInstance { instance_path: path }],
        Some(k) => match instances[k].block_view() {
            BlockRef::Primitive(primitive) => match placed_build(catalog, primitive@) {
                Some(specs) => default_values_faults(path, specs, default.build_input_view().entries()),
                None => Seq::empty(),
            },
            _ => seq![DefinitionFault::PrimitiveDefaultTargetsNonPrimitive { instance_path: path }],
        },
    }
}

/// The faults of default `i`: a blank instance path, a path given an
/// earlier default, or the faults of its target.
pub open spec fn default_faults(
    instances: Seq<CircuitInstance>,
    catalog: Seq<PrimitiveManifest>,
    defaults: Seq<MacroPrimitiveDefault>,
    i: int,
) -> Seq<DefinitionFault> {
    let path = defaults[i].instance_path_view();
    if is_blank(path) {
        seq![DefinitionFault::EmptyPrimitiveDefaultInstance { index: i }]
    } else if first_named(default_paths(defaults), path) != Some(i) {
        seq![DefinitionFault::DuplicatePrimitiveDefault { instance_path: path }]
    } else {
        default_target_faults(instances, catalog, defaults[i])
    }
}

/// The faults of the first `n` defaults, in order.
pub open spec fn defaults_faults(
    instances: Seq<CircuitInstance>,
    catalog: Seq<PrimitiveManifest>,
    defaults: Seq<MacroPrimitiveDefault>,
    n: int,
) -> Seq<DefinitionFault>
    decreases n,
{
    if n <= 0 {
        Seq::empty()
    } else {
        defaults_faults(instances, catalog, defaults, n - 1) + default_faults(instances, catalog, defaults, n - 1)
    }
}

/// Finds the build spec of a catalogued primitive.
fn find_build<'a>(catalog: &'a PrimitiveCatalog, primitive: &str) -> (specs: Option<&'a Vec<PrimitiveBuildInputSpec>>)
    ensures
        match placed_build(catalog.primitives@, primitive@) {
            Some(s) => specs matches Some(found) && found@ == s,
            None => specs is None,
        },
{
    proof {
        lemma_primitive_index(catalog.primitives@, primitive@);
    }
    match catalog.get(primitive) {
        Some(manifest) => match &manifest.build {
            Some(build) => Some(&build.inputs),
            None => None,
        },
        None => None,
    }
}

/// Reports the faults of the value a default gives to one build input.
fn check_default_value(
    path: &str,
    specs: &Vec<PrimitiveBuildInputSpec>,
    name: &str,
    value: &PrimitiveBuildValue,
    errors: &mut Vec<MacroExplorationDefinitionError>,
)
    ensures
        definition_faults(final(errors)@) == definition_faults(old(errors)@) + default_value_faults(
            path@,
            specs@,
            name@,
            build_value_view(*value),
        ),
{
    let ghost before = definition_faults(errors@);
    match find_input_spec(specs, name) {
        None => {
            report(
                errors,
                MacroExplorationDefinitionError::UnknownPrimitiveDefaultInput {
                    instance_path: path.to_string(),
                    input: name.to_string(),
                },
            );
        },
        Some(spec) => {
            if !spec.kind.accepts(value.kind()) {
                report(
                    errors,
                    MacroExplorationDefinitionError::PrimitiveDefaultInputKindMismatch {
                        instance_path: path.to_string(),
                        input: name.to_string(),
                        expected: spec.kind,
                        actual: value.kind(),
                    },
                );
            }
            if !value.is_finite() {
                report(
                    errors,
                    MacroExplorationDefinitionError::NonFinitePrimitiveDefaultInput {
                        instance_path: path.to_string(),
                        input: name.to_string(),
                    },
                );
            }
        },
    }
    assert(definition_faults(errors@) =~= before + default_value_faults(
        path@,
        specs@,
        name@,
        build_value_view(*value),
    ));
}

/// Reports the faults of the values a default gives.
fn check_default_values(
    path: &str,
    specs: &Vec<PrimitiveBuildInputSpec>,
    input: &PrimitiveBuildInput,
    errors: &mut Vec<MacroExplorationDefinitionError>,
)
    ensures
        definition_faults(final(errors)@) == definition_faults(old(errors)@) + default_values_faults(
            path@,
            specs@,
            input.entries(),
        ),
{
    let ghost start = definition_faults(errors@);
    let entries = input.as_entries();
    let n = entries.len();
    let mut i: usize = 0;
    while i < n
        invariant
            n == entries@.len(),
            entries@ == input.entries(),
            i <= n,
            definition_faults(errors@) == start + default_values_faults(path@, specs@, entries@.take(i as int)),
        decreases n - i,
    {
        let ghost prefix = entries@.take(i + 1);
        check_default_value(path, specs, entries[i].0.as_str(), &entries[i].1, errors);
        proof {
            assert(prefix.drop_last() =~= entries@.take(i as int));
            assert(prefix.last() == entries@[i as int]);
            assert(definition_faults(errors@) =~= start + default_values_faults(path@, specs@, prefix));
        }
        i = i + 1;
    }
    assert(entries@.take(n as int) =~= entries@);
}

/// Reports the faults of the target of a default.
fn check_default_target(
    macro_: &Macro,
    catalog: &PrimitiveCatalog,
    default: &MacroPrimitiveDefault,
    errors: &mut Vec<MacroExplorationDefinitionError>,
)
    ensures
        definition_faults(final(errors)@) == definition_faults(old(errors)@) + default_target_faults(
            macro_.circuit_view().instances_view(),
            catalog.primitives@,
            *default,
        ),
{
    let ghost before = definition_faults(errors@);
    let path = default.instance_path();
    proof {
        lemma_instance_index(macro_.circuit_view().instances_view(), path@);
    }
    match macro_.circuit().instance(path) {
        None => {
            report(
                errors,
                MacroExplorationDefinitionError::UnknownPrimitiveDefaultInstance { instance_path: path.to_string() },
            );
            assert(definition_faults(errors@) =~= before + default_target_faults(
                macro_.circuit_view().instances_view(),
                catalog.primitives@,
                *default,
            ));
        },
        Some(instance) => match instance.block() {
            BlockRef::Primitive(primitive) => match find_build(catalog, primitive.as_str()) {
                Some(specs) => {
                    check_default_values(path, specs, default.build_input(), errors);
                },
                None => {
                    assert(definition_faults(errors@) =~= before + default_target_faults(
                        macro_.circuit_view().instances_view(),
                        catalog.primitives@,
                        *default,
                    ));
                },
            },
            _ => {
                report(
                    errors,
                    MacroExplorationDefinitionError::PrimitiveDefaultTargetsNonPrimitive {
                        instance_path: path.to_string(),
                    },
                );
                assert(definition_faults(errors@) =~= before + default_target_faults(
                    macro_.circuit_view().instances_view(),
                    catalog.primitives@,
                    *default,
                ));
            },
        },
    }
}

/// Returns whether a name occurs among the first `i` names, given as the
/// instance paths of defaults.
fn default_seen(defaults: &[MacroPrimitiveDefault], i: usize, path: &str) -> (seen: bool)
    requires
        i < defaults@.len(),
        defaults@[i as int].instance_path_view() == path@,
    ensures
        seen == (first_named(default_paths(defaults@), path@) != Some(i as int)),
{
    let ghost paths = default_paths(defaults@);
    let mut j: usize = 0;
    while j < i
        invariant
            i < defaults@.len(),
            paths == default_paths(defaults@),
            paths[i as int] == path@,
            j <= i,
            forall|k: int| 0 <= k < j ==> paths[k] != path@,
        decreases i - j,
    {
        if str_eq(defaults[j].instance_path(), path) {
            proof {
                lemma_first_named(paths, path@, j as int);
            }
            return true;
        }
        j = j + 1;
    }
    proof {
        lemma_first_named(paths, path@, i as int);
    }
    false
}

/// Reports the faults of default `i`.
fn check_default(
    macro_: &Macro,
    catalog: &PrimitiveCatalog,
    defaults: &[MacroPrimitiveDefault],
    i: usize,
    errors: &mut Vec<MacroExplorationDefinitionError>,
)
    requires
        i < defaults@.len(),
    ensures
        definition_faults(final(errors)@) == definition_faults(old(errors)@) + default_faults(
            macro_.circuit_view().instances_view(),
            catalog.primitives@,
            defaults@,
            i as int,
        ),
{
    let ghost before = definition_faults(errors@);
    let path = defaults[i].instance_path();
    if str_is_blank(path) {
        report(errors, MacroExplorationDefinitionError::EmptyPrimitiveDefaultInstance { index: i });
    } else if default_seen(defaults, i, path) {
        report(errors, MacroExplorationDefinitionError::DuplicatePrimitiveDefault { instance_path: path.to_string() });
    } else {
        check_default_target(macro_, catalog, &defaults[i], errors);
    }
    assert(definition_faults(errors@) =~= before + default_faults(
        macro_.circuit_view().instances_view(),
        catalog.primitives@,
        defaults@,
        i as int,
    ));
}

/// Reports the faults of the primitive defaults.
fn check_defaults(macro_: &Macro, catalog: &PrimitiveCatalog, errors: &mut Vec<MacroExplorationDefinitionError>)
    ensures
        definition_faults(final(errors)@) == definition_faults(old(errors)@) + defaults_faults(
            macro_.circuit_view().instances_view(),
            catalog.primitives@,
            macro_.exploration_view().primitive_defaults_view(),
            macro_.exploration_view().primitive_defaults_view().len() as int,
        ),
{
    let ghost start = definition_faults(errors@);
    let ghost instances = macro_.circuit_view().instances_view();
    let defaults = macro_.exploration().primitive_defaults();
    let n = defaults.len();
    let mut i: usize = 0;
    while i < n
        invariant
            n == defaults@.len(),
            defaults@ == macro_.exploration_view().primitive_defaults_view(),
            instances == macro_.circuit_view().instances_view(),
            i <= n,
            definition_faults(errors@) == start + defaults_faults(instances, catalog.primitives@, defaults@, i as int),
        decreases n - i,
    {
        check_default(macro_, catalog, defaults, i, errors);
        assert(definition_faults(errors@) =~= start + defaults_faults(instances, catalog.primitives@, defaults@, i + 1));
        i = i + 1;
    }
}


// ---------------------------------------------------------------------------
// Design variables
// ---------------------------------------------------------------------------

/// The primitive input a binding names.
pub open spec fn binding_pair(binding: MacroDesignVariableBinding) -> (Seq<char>, Seq<char>) {
    (binding.instance_path_view(), binding.input_view())
}

/// The primitive inputs the bindings name, in order.
pub open spec fn binding_pairs(bindings: Seq<MacroDesignVariableBinding>) -> Seq<(Seq<char>, Seq<char>)> {
    bindings.map_values(|b: MacroDesignVariableBinding| binding_pair(b))
}

/// The primitive inputs the bindings of the first `n` variables name, in
/// order.
pub open spec fn variables_pairs(variables: Seq<MacroDesignVariable>, n: int) -> Seq<(Seq<char>, Seq<char>)>
    decreases n,
{
    if n <= 0 {
        Seq::empty()
    } else {
        variables_pairs(variables, n - 1) + binding_pairs(variables[n - 1].bindings_view())
    }
}

/// The views of a list of text pairs.
pub open spec fn pair_views(pairs: Seq<(String, String)>) -> Seq<(Seq<char>, Seq<char>)> {
    pairs.map_values(|p: (String, String)| (p.0@, p.1@))
}

/// The faults of a binding whose instance path and input are set and not
/// bound before: an unknown or non-primitive instance, or, when the catalog
/// has the primitive's build spec, an unknown input or one of another kind.
pub open spec fn binding_target_faults(
    instances: Seq<CircuitInstance>,
    catalog: Seq<PrimitiveManifest>,
    variable: MacroDesignVariable,
    binding: MacroDesignVariableBinding,
) -> Seq<DefinitionFault> {
    let name = variable.name_view();
    let path = binding.instance_path_view();
    let input = binding.input_view();
    match instance_index(instances, path) {
        None => seq![DefinitionFault::UnknownDesignVariableInstance { variable: name, instance_path: path }],
        Some(k) => match instances[k].block_view() {
            BlockRef::Primitive(primitive) => match placed_build(catalog, primitive@) {
                None => Seq::empty(),
                Some(specs) => match first_named(input_spec_names(specs), input) {
                    None => seq![
                        DefinitionFault::UnknownDesignVariableInput { variable: name, instance_path: path, input },
                    ],
                    Some(j) => if specs[j].kind != variable.kind_view() {
                        seq![
                            DefinitionFault::DesignVariableInputKindMismatch {
                                variable: name,
                                instance_path: path,
                                input,
                                expected: specs[j].kind,
                                actual: variable.kind_view(),
                            },
                        ]
                    } else {
                        Seq::empty()
                    },
                },
            },
            _ => seq![DefinitionFault::DesignVariableTargetsNonPrimitive { variable: name, instance_path: path }],
        },
    }
}

/// The faults of binding `b` of a variable, given the inputs bound before
/// it: a blank instance path or input, an input bound before, or the faults
/// of its target.
pub open spec fn binding_faults(
    instances: Seq<CircuitInstance>,
    catalog: Seq<PrimitiveManifest>,
    variable: MacroDesignVariable,
    b: int,
    earlier: Seq<(Seq<char>, Seq<char>)>,
) -> Seq<DefinitionFault> {
    let binding = variable.bindings_view()[b];
    let name = variable.name_view();
    if is_blank(binding.instance_path_view()) {
        seq![DefinitionFault::EmptyDesignVariableBinding { variable: name, binding_index: b, field: "instance path"@ }]
    } else if is_blank(binding.input_view()) {
        seq![DefinitionFault::EmptyDesignVariableBinding { variable: name, binding_index: b, field: "input name"@ }]
    } else if earlier.contains(binding_pair(binding)) {
        seq![
            DefinitionFault::DuplicateDesignVariableBinding {
                instance_path: binding.instance_path_view(),
                input: binding.input_view(),
            },
        ]
    } else {
        binding_target_faults(instances, catalog, variable, binding)
    }
}

/// The faults of the first `m` bindings of variable `i`.
pub open spec fn bindings_faults(
    instances: Seq<CircuitInstance>,
    catalog: Seq<PrimitiveManifest>,
    variables: Seq<MacroDesignVariable>,
    i: int,
    m: int,
) -> Seq<DefinitionFault>
    decreases m,
{
    if m <= 0 {
        Seq::empty()
    } else {
        bindings_faults(instances, catalog, variables, i, m - 1) + binding_faults(
            instances,
            catalog,
            variables[i],
            m - 1,
            variables_pairs(variables, i) + binding_pairs(variables[i].bindings_view().take(m - 1)),
        )
    }
}

/// The faults of variable `i`: a blank or repeated name, no bindings, and
/// the faults of its bindings.
pub open spec fn variable_faults(
    instances: Seq<CircuitInstance>,
    catalog: Seq<PrimitiveManifest>,
    variables: Seq<MacroDesignVariable>,
    i: int,
) -> Seq<DefinitionFault> {
    let name = variables[i].name_view();
    (if is_blank(name) {
        seq![DefinitionFault::EmptyDesignVariable { index: i }]
    } else if first_named(variable_names(variables), name) != Some(i) {
        seq![DefinitionFault::DuplicateDesignVariable { variable: name }]
    } else {
        Seq::empty()
    }) + (if variables[i].bindings_view().len() == 0 {
        seq![DefinitionFault::EmptyDesignVariableBindings { variable: name }]
    } else {
        Seq::empty()
    }) + bindings_faults(instances, catalog, variables, i, variables[i].bindings_view().len() as int)
}

/// The faults of the first `n` design variables, in order.
pub open spec fn variables_faults(
    instances: Seq<CircuitInstance>,
    catalog: Seq<PrimitiveManifest>,
    variables: Seq<MacroDesignVariable>,
    n: int,
) -> Seq<DefinitionFault>
    decreases n,
{
    if n <= 0 {
        Seq::empty()
    } else {
        variables_faults(instances, catalog, variables, n - 1) + variable_faults(instances, catalog, variables, n - 1)
    }
}

/// Returns whether a pair is listed.
fn pair_seen(seen: &Vec<(String, String)>, path: &str, input: &str) -> (found: bool)
    ensures
        found == pair_views(seen@).contains((path@, input@)),
{
    let ghost views = pair_views(seen@);
    let n = seen.len();
    let mut i: usize = 0;
    while i < n
        invariant
            n == seen@.len(),
            views == pair_views(seen@),
            i <= n,
            forall|k: int| 0 <= k < i ==> views[k] != (path@, input@),
        decreases n - i,
    {
        if str_eq(seen[i].0.as_str(), path) && str_eq(seen[i].1.as_str(), input) {
            assert(views[i as int] == (path@, input@));
            return true;
        }
        i = i + 1;
    }
    proof {
        if views.contains((path@, input@)) {
            let k = choose|k: int| 0 <= k < views.len() && views[k] == (path@, input@);
            assert(views[k] != (path@, input@));
        }
    }
    false
}

/// Reports the faults of the target of one binding.
fn check_binding_target(
    macro_: &Macro,
    catalog: &PrimitiveCatalog,
    variable: &MacroDesignVariable,
    binding: &MacroDesignVariableBinding,
    errors: &mut Vec<MacroExplorationDefinitionError>,
)
    ensures
        definition_faults(final(errors)@) == definition_faults(old(errors)@) + binding_target_faults(
            macro_.circuit_view().instances_view(),
            catalog.primitives@,
            *variable,
            *binding,
        ),
{
    let ghost before = definition_faults(errors@);
    let ghost expected = binding_target_faults(
        macro_.circuit_view().instances_view(),
        catalog.primitives@,
        *variable,
        *binding,
    );
    let path = binding.instance_path();
    let input = binding.input();
    proof {
        lemma_instance_index(macro_.circuit_view().instances_view(), path@);
    }
    match macro_.circuit().instance(path) {
        None => {
            report(
                errors,
                MacroExplorationDefinitionError::UnknownDesignVariableInstance {
                    variable: variable.name().to_string(),
                    instance_path: path.to_string(),
                },
            );
            assert(definition_faults(errors@) =~= before + expected);
        },
        Some(instance) => match instance.block() {
            BlockRef::Primitive(primitive) => match find_build(catalog, primitive.as_str()) {
                None => {
                    assert(definition_faults(errors@) =~= before + expected);
                },
                Some(specs) => match find_input_spec(specs, input) {
                    None => {
                        report(
                            errors,
                            MacroExplorationDefinitionError::UnknownDesignVariableInput {
                                variable: variable.name().to_string(),
                                instance_path: path.to_string(),
                                input: input.to_string(),
                            },
                        );
                        assert(definition_faults(errors@) =~= before + expected);
                    },
                    Some(spec) => {
                        if !spec.kind.accepts(variable.kind()) {
                            report(
                                errors,
                                MacroExplorationDefinitionError::DesignVariableInputKindMismatch {
                                    variable: variable.name().to_string(),
                                    instance_path: path.to_string(),
                                    input: input.to_string(),
                                    expected: spec.kind,
                                    actual: variable.kind(),
                                },
                            );
                        }
                        assert(definition_faults(errors@) =~= before + expected);
                    },
                },
            },
            _ => {
                report(
                    errors,
                    MacroExplorationDefinitionError::DesignVariableTargetsNonPrimitive {
                        variable: variable.name().to_string(),
                        instance_path: path.to_string(),
                    },
                );
                assert(definition_faults(errors@) =~= before + expected);
            },
        },
    }
}

/// Reports the faults of binding `b` of a variable, given the inputs bound
/// before it.
fn check_binding(
    macro_: &Macro,
    catalog: &PrimitiveCatalog,
    variable: &MacroDesignVariable,
    b: usize,
    seen: &Vec<(String, String)>,
    errors: &mut Vec<MacroExplorationDefinitionError>,
)
    requires
        b < variable.bindings_view().len(),
    ensures
        definition_faults(final(errors)@) == definition_faults(old(errors)@) + binding_faults(
            macro_.circuit_view().instances_view(),
            catalog.primitives@,
            *variable,
            b as int,
            pair_views(seen@),
        ),
{
    let ghost before = definition_faults(errors@);
    let bindings = variable.bindings();
    let binding = &bindings[b];
    let path = binding.instance_path();
    let input = binding.input();
    if str_is_blank(path) {
        let field: &'static str = "instance path";
        report(
            errors,
            MacroExplorationDefinitionError::EmptyDesignVariableBinding {
                variable: variable.name().to_string(),
                binding_index: b,
                field,
            },
        );
    } else if str_is_blank(input) {
        let field: &'static str = "input name";
        report(
            errors,
            MacroExplorationDefinitionError::EmptyDesignVariableBinding {
                variable: variable.name().to_string(),
                binding_index: b,
                field,
            },
        );
    } else if pair_seen(seen, path, input) {
        report(
            errors,
            MacroExplorationDefinitionError::DuplicateDesignVariableBinding {
                instance_path: path.to_string(),
                input: input.to_string(),
            },
        );
    } else {
        check_binding_target(macro_, catalog, variable, binding, errors);
    }
    assert(definition_faults(errors@) =~= before + binding_faults(
        macro_.circuit_view().instances_view(),
        catalog.primitives@,
        *variable,
        b as int,
        pair_views(seen@),
    ));
}

/// Returns whether an earlier variable has the name of variable `i`.
fn variable_seen(variables: &[MacroDesignVariable], i: usize, name: &str) -> (seen: bool)
    requires
        i < variables@.len(),
        variables@[i as int].name_view() == name@,
    ensures
        seen == (first_named(variable_names(variables@), name@) != Some(i as int)),
{
    let ghost names = variable_names(variables@);
    let mut j: usize = 0;
    while j < i
        invariant
            i < variables@.len(),
            names == variable_names(variables@),
            names[i as int] == name@,
            j <= i,
            forall|k: int| 0 <= k < j ==> names[k] != name@,
        decreases i - j,
    {
        if str_eq(variables[j].name(), name) {
            proof {
                lemma_first_named(names, name@, j as int);
            }
            return true;
        }
        j = j + 1;
    }
    proof {
        lemma_first_named(names, name@, i as int);
    }
    false
}

/// Reports the faults of variable `i` and lists its bindings as seen.
fn check_variable(
    macro_: &Macro,
    catalog: &PrimitiveCatalog,
    variables: &[MacroDesignVariable],
    i: usize,
    seen: &mut Vec<(String, String)>,
    errors: &mut Vec<MacroExplorationDefinitionError>,
)
    requires
        i < variables@.len(),
        pair_views(old(seen)@) == variables_pairs(variables@, i as int),
    ensures
        pair_views(final(seen)@) == variables_pairs(variables@, i + 1),
        definition_faults(final(errors)@) == definition_faults(old(errors)@) + variable_faults(
            macro_.circuit_view().instances_view(),
            catalog.primitives@,
            variables@,
            i as int,
        ),
{
    let ghost start = definition_faults(errors@);
    let ghost instances = macro_.circuit_view().instances_view();
    let ghost earlier = variables_pairs(variables@, i as int);
    let variable = &variables[i];
    let name = variable.name();
    if str_is_blank(name) {
        report(errors, MacroExplorationDefinitionError::EmptyDesignVariable { index: i });
    } else if variable_seen(variables, i, name) {
        report(errors, MacroExplorationDefinitionError::DuplicateDesignVariable { variable: name.to_string() });
    }
    let bindings = variable.bindings();
    if bindings.len() == 0 {
        report(errors, MacroExplorationDefinitionError::EmptyDesignVariableBindings { variable: name.to_string() });
    }
    let ghost middle = definition_faults(errors@);
    proof {
        assert(middle =~= start + (if is_blank(name@) {
            seq![DefinitionFault::EmptyDesignVariable { index: i as int }]
        } else if first_named(variable_names(variables@), name@) != Some(i as int) {
            seq![DefinitionFault::DuplicateDesignVariable { variable: name@ }]
        } else {
            Seq::empty()
        }) + (if variables@[i as int].bindings_view().len() == 0 {
            seq![DefinitionFault::EmptyDesignVariableBindings { variable: name@ }]
        } else {
            Seq::empty()
        }));
    }
    let m = bindings.len();
    let mut b: usize = 0;
    assert(binding_pairs(bindings@.take(0)) =~= Seq::<(Seq<char>, Seq<char>)>::empty());
    assert(earlier + Seq::<(Seq<char>, Seq<char>)>::empty() =~= earlier);
    while b < m
        invariant
            i < variables@.len(),
            *variable == variables@[i as int],
            bindings@ == variable.bindings_view(),
            m == bindings@.len(),
            b <= m,
            earlier == variables_pairs(variables@, i as int),
            instances == macro_.circuit_view().instances_view(),
            pair_views(seen@) == earlier + binding_pairs(bindings@.take(b as int)),
            definition_faults(errors@) == middle + bindings_faults(instances, catalog.primitives@, variables@, i as int, b as int),
        decreases m - b,
    {
        check_binding(macro_, catalog, variable, b, seen, errors);
        let path = bindings[b].instance_path().to_string();
        let input = bindings[b].input().to_string();
        let ghost before_seen = seen@;
        seen.push((path, input));
        proof {
            assert(bindings@.take(b + 1) =~= bindings@.take(b as int).push(bindings@[b as int]));
            assert(binding_pairs(bindings@.take(b + 1)) =~= binding_pairs(bindings@.take(b as int)).push(
                binding_pair(bindings@[b as int]),
            ));
            assert(pair_views(seen@) =~= pair_views(before_seen).push(binding_pair(bindings@[b as int])));
            assert(pair_views(seen@) =~= earlier + binding_pairs(bindings@.take(b + 1)));
            assert(definition_faults(errors@) =~= middle + bindings_faults(
                instances,
                catalog.primitives@,
                variables@,
                i as int,
                b + 1,
            ));
        }
        b = b + 1;
    }
    proof {
        assert(bindings@.take(m as int) =~= bindings@);
        assert(variables_pairs(variables@, i + 1) == earlier + binding_pairs(variables@[i as int].bindings_view()));
        assert(definition_faults(errors@) =~= start + variable_faults(instances, catalog.primitives@, variables@, i as int));
    }
}

/// Reports the faults of the design variables.
fn check_variables(macro_: &Macro, catalog: &PrimitiveCatalog, errors: &mut Vec<MacroExplorationDefinitionError>)
    ensures
        definition_faults(final(errors)@) == definition_faults(old(errors)@) + variables_faults(
            macro_.circuit_view().instances_view(),
            catalog.primitives@,
            macro_.exploration_view().design_variables_view(),
            macro_.exploration_view().design_variables_view().len() as int,
        ),
{
    let ghost start = definition_faults(errors@);
    let ghost instances = macro_.circuit_view().instances_view();
    let variables = macro_.exploration().design_variables();
    let mut seen: Vec<(String, String)> = Vec::new();
    assert(pair_views(seen@) =~= variables_pairs(variables@, 0));
    let n = variables.len();
    let mut i: usize = 0;
    while i < n
        invariant
            n == variables@.len(),
            variables@ == macro_.exploration_view().design_variables_view(),
            instances == macro_.circuit_view().instances_view(),
            i <= n,
            pair_views(seen@) == variables_pairs(variables@, i as int),
            definition_faults(errors@) == start + variables_faults(instances, catalog.primitives@, variables@, i as int),
        decreases n - i,
    {
        check_variable(macro_, catalog, variables, i, &mut seen, errors);
        assert(definition_faults(errors@) =~= start + variables_faults(instances, catalog.primitives@, variables@, i + 1));
        i = i + 1;
    }
}


// ---------------------------------------------------------------------------
// Derivation rules
// ---------------------------------------------------------------------------

/// The faults of derivation rule `i`: a blank, unknown or non-macro child
/// instance, a blank expression, a blank target name, and a reduction whose
/// shape the target cannot take.
pub open spec fn rule_faults(instances: Seq<CircuitInstance>, rules: Seq<MacroDerivationRule>, i: int) -> Seq<DefinitionFault> {
    let rule = rules[i];
    let child = rule.child_instance_view();
    (if is_blank(child) {
        seq![DefinitionFault::EmptyDerivationChild { rule_index: i }]
    } else {
        match instance_index(instances, child) {
            None => seq![DefinitionFault::UnknownDerivationChild { rule_index: i, child_instance: child }],
            Some(k) => if instances[k].block_view() is Macro {
                Seq::empty()
            } else {
                seq![DefinitionFault::DerivationTargetsNonMacro { rule_index: i, child_instance: child }]
            },
        }
    }) + (if is_blank(rule.expression_view()) {
        seq![DefinitionFault::EmptyDerivationExpression { rule_index: i }]
    } else {
        Seq::empty()
    }) + (if is_blank(target_name(rule.target_view())) {
        seq![DefinitionFault::EmptyDerivationTarget { rule_index: i }]
    } else {
        Seq::empty()
    }) + (if !shapes_compatible(rule.reduction_view(), rule.target_view()) {
        seq![DefinitionFault::IncompatibleDerivationTarget { rule_index: i }]
    } else {
        Seq::empty()
    })
}

/// The faults of the first `n` derivation rules, in order.
pub open spec fn rules_faults(instances: Seq<CircuitInstance>, rules: Seq<MacroDerivationRule>, n: int) -> Seq<DefinitionFault>
    decreases n,
{
    if n <= 0 {
        Seq::empty()
    } else {
        rules_faults(instances, rules, n - 1) + rule_faults(instances, rules, n - 1)
    }
}

/// Reports the faults of derivation rule `i`.
fn check_rule(
    macro_: &Macro,
    rules: &[MacroDerivationRule],
    i: usize,
    errors: &mut Vec<MacroExplorationDefinitionError>,
)
    requires
        i < rules@.len(),
    ensures
        definition_faults(final(errors)@) == definition_faults(old(errors)@) + rule_faults(
            macro_.circuit_view().instances_view(),
            rules@,
            i as int,
        ),
{
    let ghost start = definition_faults(errors@);
    let ghost instances = macro_.circuit_view().instances_view();
    let rule = &rules[i];
    let child = rule.child_instance();
    if str_is_blank(child) {
        report(errors, MacroExplorationDefinitionError::EmptyDerivationChild { rule_index: i });
    } else {
        proof {
            lemma_instance_index(instances, child@);
        }
        match macro_.circuit().instance(child) {
            None => {
                report(
                    errors,
                    MacroExplorationDefinitionError::UnknownDerivationChild {
                        rule_index: i,
                        child_instance: child.to_string(),
                    },
                );
            },
            Some(instance) => match instance.block() {
                BlockRef::Macro(_) => {},
                _ => {
                    report(
                        errors,
                        MacroExplorationDefinitionError::DerivationTargetsNonMacro {
                            rule_index: i,
                            child_instance: child.to_string(),
                        },
                    );
                },
            },
        }
    }
    let ghost after_child = definition_faults(errors@);
    if str_is_blank(rule.expression()) {
        report(errors, MacroExplorationDefinitionError::EmptyDerivationExpression { rule_index: i });
    }
    if str_is_blank(derivation_target_name(rule.target())) {
        report(errors, MacroExplorationDefinitionError::EmptyDerivationTarget { rule_index: i });
    }
    if !derivation_shapes_are_compatible(rule.reduction(), rule.target()) {
        report(errors, MacroExplorationDefinitionError::IncompatibleDerivationTarget { rule_index: i });
    }
    assert(definition_faults(errors@) =~= start + rule_faults(instances, rules@, i as int));
}

/// Reports the faults of the derivation rules.
fn check_rules(macro_: &Macro, errors: &mut Vec<MacroExplorationDefinitionError>)
    ensures
        definition_faults(final(errors)@) == definition_faults(old(errors)@) + rules_faults(
            macro_.circuit_view().instances_view(),
            macro_.exploration_view().derivation_rules_view(),
            macro_.exploration_view().derivation_rules_view().len() as int,
        ),
{
    let ghost start = definition_faults(errors@);
    let ghost instances = macro_.circuit_view().instances_view();
    let rules = macro_.exploration().derivation_rules();
    let n = rules.len();
    let mut i: usize = 0;
    while i < n
        invariant
            n == rules@.len(),
            rules@ == macro_.exploration_view().derivation_rules_view(),
            instances == macro_.circuit_view().instances_view(),
            i <= n,
            definition_faults(errors@) == start + rules_faults(instances, rules@, i as int),
        decreases n - i,
    {
        check_rule(macro_, rules, i, errors);
        assert(definition_faults(errors@) =~= start + rules_faults(instances, rules@, i + 1));
        i = i + 1;
    }
}

// ---------------------------------------------------------------------------
// The whole definition
// ---------------------------------------------------------------------------

/// Every fault of the definition-owned parts of a macro exploration, in
/// report order: the primitive defaults, then the design variables and
/// their bindings, then the derivation rules.
pub open spec fn exploration_definition_faults(macro_: Macro, catalog: Seq<PrimitiveManifest>) -> Seq<DefinitionFault> {
    let instances = macro_.circuit_view().instances_view();
    let exploration = macro_.exploration_view();
    defaults_faults(
        instances,
        catalog,
        exploration.primitive_defaults_view(),
        exploration.primitive_defaults_view().len() as int,
    ) + variables_faults(
        instances,
        catalog,
        exploration.design_variables_view(),
        exploration.design_variables_view().len() as int,
    ) + rules_faults(instances, exploration.derivation_rules_view(), exploration.derivation_rules_view().len() as int)
}

/// Validates the primitive defaults, the design variables and the
/// derivation rules of a macro against its implementation circuit and the
/// primitive catalog, and returns every problem found.
pub fn validate_macro_exploration_definition(
    macro_: &Macro,
    primitive_catalog: &PrimitiveCatalog,
) -> (errors: Vec<MacroExplorationDefinitionError>)
    ensures
        definition_faults(errors@) == exploration_definition_faults(*macro_, primitive_catalog.primitives@),
{
    let mut errors: Vec<MacroExplorationDefinitionError> = Vec::new();
    assert(definition_faults(errors@) =~= Seq::<DefinitionFault>::empty());
    check_defaults(macro_, primitive_catalog, &mut errors);
    check_variables(macro_, primitive_catalog, &mut errors);
    check_rules(macro_, &mut errors);
    assert(definition_faults(errors@) =~= exploration_definition_faults(*macro_, primitive_catalog.primitives@));
    errors
}

} // verus!
