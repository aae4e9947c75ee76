//! The direct exploration input of one macro occurrence of a hierarchy:
//! the shared device models, the path-local overrides, the conditions
//! derived for the occurrence by its parent, and the resolved compact inputs
//! of its submacro children.
use vstd::prelude::*;

use crate::circuit::{BlockRef, CircuitInstance};
use crate::entries::{
    any_blank, entry_map, entry_names, get_entry, lemma_any_blank_step, lemma_entry_map_facts, lemma_entry_map_step,
};
use crate::macro_model::catalog::{macro_index, MacroCatalog};
use crate::macro_model::hierarchy::{
    condition_view, copy_condition, ConditionView, MacroHierarchyExplorationInput, MacroHierarchyExplorationInputView,
    MacroHierarchyPath, MacroHierarchyPathInputView,
};
use crate::macro_model::input::{
    same_compact_input, same_primitive_input, CompactMacroInstanceExplorationInput, MacroExplorationInput,
    MacroExplorationInputRegistrationError, MacroExplorationInputView, PrimitiveInstanceExplorationInput,
};
use crate::macro_model::model::{Macro, MacroDesignVariableCondition, MacroSpecificationBounds};
use crate::macro_model::resolution::ResolvedChildConditions;
use crate::primitive::{
    build_value_view, copy_build_value, entries_map, lemma_entries_map_push, BuildValueView, PrimitiveBuildValue,
};
use crate::text::{is_blank, strictly_sorted};

verus! {

/// Why the direct input of one macro occurrence could not be assembled.
#[derive(Debug, PartialEq, Eq)]
pub enum MacroHierarchyLocalInputError {
    /// A direct exploration-input registration failed.
    Registration(MacroExplorationInputRegistrationError),
    /// A final parent refresh is missing one resolved child candidate set.
    MissingResolvedChild { child_instance: String, child_macro: String },
}

impl MacroHierarchyLocalInputError {
    /// The message of the error.
    pub open spec fn message(&self) -> Seq<char> {
        match self {
            MacroHierarchyLocalInputError::Registration(error) => error.message(),
            MacroHierarchyLocalInputError::MissingResolvedChild { child_instance, child_macro } => "child instance '"@
                + child_instance@ + "' of macro '"@ + child_macro@ + "' has no resolved candidate input"@,
        }
    }

    /// Returns the message of the error.
    pub fn to_string(&self) -> (text: String)
        ensures
            text@ == self.message(),
    {
        match self {
            MacroHierarchyLocalInputError::Registration(error) => error.to_string(),
            MacroHierarchyLocalInputError::MissingResolvedChild { child_instance, child_macro } => {
                let mut text = String::from_str("child instance '");
                text.append(child_instance.as_str());
                text.append("' of macro '");
                text.append(child_macro.as_str());
                text.append("' has no resolved candidate input");
                text
            },
        }
    }
}

/// Some key of the map is blank.
pub open spec fn blank_key<V>(m: Map<Seq<char>, V>) -> bool {
    exists|k: Seq<char>| m.contains_key(k) && is_blank(k)
}

/// A list sorted by name has a blank name exactly when its map has a
/// blank key.
proof fn lemma_blank_key<V>(entries: Seq<(String, V)>)
    requires
        strictly_sorted(entry_names(entries)),
    ensures
        any_blank(entries) == blank_key(entry_map(entries)),
{
    lemma_entry_map_facts(entries);
    if any_blank(entries) {
        let i = choose|i: int| 0 <= i < entries.len() && is_blank(#[trigger] entries[i].0@);
        assert(entry_map(entries).contains_key(entries[i].0@));
    }
    if blank_key(entry_map(entries)) {
        let k = choose|k: Seq<char>| entry_map(entries).contains_key(k) && is_blank(k);
        let i = choose|i: int| 0 <= i < entries.len() && entries[i].0@ == k;
        assert(is_blank(entries[i].0@));
    }
}

/// The instance places a submacro that the catalog holds.
pub open spec fn catalogued_child(macros: Seq<Macro>, instance: CircuitInstance) -> bool {
    match instance.block_view() {
        BlockRef::Macro(name) => macro_index(macros, name@) is Some,
        _ => false,
    }
}

/// One of the first `n` instances is a catalogued submacro named `name`.
pub open spec fn child_named(macros: Seq<Macro>, instances: Seq<CircuitInstance>, n: int, name: Seq<char>) -> bool {
    exists|j: int| 0 <= j < n && catalogued_child(macros, #[trigger] instances[j]) && instances[j].name_view() == name
}

/// The compact input of catalogued submacro instance `i` cannot be
/// registered: it has no resolved input, its name is blank or taken by a
/// primitive input, or an earlier submacro instance has the same name.
pub open spec fn compact_child_refused(
    macros: Seq<Macro>,
    instances: Seq<CircuitInstance>,
    i: int,
    children: Map<Seq<char>, CompactMacroInstanceExplorationInput>,
    primitives: Set<Seq<char>>,
) -> bool {
    let name = instances[i].name_view();
    &&& catalogued_child(macros, instances[i])
    &&& (!children.contains_key(name) || is_blank(name) || primitives.contains(name) || child_named(
        macros,
        instances,
        i,
        name,
    ))
}

/// The compact input of one of the first `n` instances cannot be
/// registered.
pub open spec fn compact_refused_upto(
    macros: Seq<Macro>,
    instances: Seq<CircuitInstance>,
    n: int,
    children: Map<Seq<char>, CompactMacroInstanceExplorationInput>,
    primitives: Set<Seq<char>>,
) -> bool {
    exists|j: int| 0 <= j < n && #[trigger] compact_child_refused(macros, instances, j, children, primitives)
}

/// The path-local configuration of a path, or an empty one.
pub open spec fn path_input_view<D>(hierarchy: MacroHierarchyExplorationInputView<D>, path: Seq<Seq<char>>) -> MacroHierarchyPathInputView {
    if hierarchy.paths.contains_key(path) {
        hierarchy.paths[path]@
    } else {
        MacroHierarchyPathInputView {
            primitive_instances: Map::empty(),
            design_variable_overrides: Map::empty(),
            specification_overrides: Map::empty(),
        }
    }
}

/// The specification bounds derived for the occurrence, if any.
pub open spec fn derived_bounds(derived: Option<ResolvedChildConditions>) -> Map<Seq<char>, MacroSpecificationBounds> {
    match derived {
        Some(d) => entry_map(d.bounds_view()),
        None => Map::empty(),
    }
}

/// The design-variable conditions derived for the occurrence, if any.
pub open spec fn derived_conditions(derived: Option<ResolvedChildConditions>) -> Map<Seq<char>, MacroDesignVariableCondition> {
    match derived {
        Some(d) => entry_map(d.conditions_view()),
        None => Map::empty(),
    }
}

/// Some registration of the local input is refused: a blank name among
/// the shared models, the path-local inputs or the derived conditions, or a
/// submacro input that cannot be registered.
pub open spec fn local_input_refused<D>(
    hierarchy: MacroHierarchyExplorationInputView<D>,
    macro_: Macro,
    macros: Seq<Macro>,
    path: Seq<Seq<char>>,
    derived: Option<ResolvedChildConditions>,
    children: Map<Seq<char>, CompactMacroInstanceExplorationInput>,
) -> bool {
    let local = path_input_view(hierarchy, path);
    let instances = macro_.circuit_view().instances_view();
    ||| blank_key(hierarchy.device_models)
    ||| blank_key(local.primitive_instances)
    ||| blank_key(local.design_variable_overrides)
    ||| blank_key(local.specification_overrides)
    ||| blank_key(derived_bounds(derived))
    ||| blank_key(derived_conditions(derived))
    ||| compact_refused_upto(macros, instances, instances.len() as int, children, local.primitive_instances.dom())
}

/// `input` is the local input of the occurrence: the shared models, no
/// physical LUT, the path-local primitive inputs, overrides and bounds, the
/// derived bounds as inherited bounds, one condition per derived design
/// variable, the resolved compact input of every catalogued submacro
/// instance, and the shared execution policy.
pub open spec fn local_input_built<D, P>(
    hierarchy: MacroHierarchyExplorationInputView<D>,
    macro_: Macro,
    macros: Seq<Macro>,
    path: Seq<Seq<char>>,
    derived: Option<ResolvedChildConditions>,
    children: Map<Seq<char>, CompactMacroInstanceExplorationInput>,
    input: MacroExplorationInputView<D, P>,
) -> bool {
    let local = path_input_view(hierarchy, path);
    let instances = macro_.circuit_view().instances_view();
    let conditions = derived_conditions(derived);
    &&& input.device_models == hierarchy.device_models
    &&& input.physical_lut is None
    &&& forall|k: Seq<char>| #[trigger] input.primitive_instances.contains_key(k) <==> local.primitive_instances.contains_key(k)
    &&& forall|k: Seq<char>| #[trigger]
        input.primitive_instances.contains_key(k) ==> same_primitive_input(
            input.primitive_instances[k],
            local.primitive_instances[k],
        )
    &&& input.design_variable_overrides == local.design_variable_overrides
    &&& input.specification_overrides == local.specification_overrides
    &&& input.inherited_specification_bounds == derived_bounds(derived)
    &&& forall|k: Seq<char>| #[trigger] input.design_variable_conditions.contains_key(k) <==> conditions.contains_key(k)
    &&& forall|k: Seq<char>| #[trigger]
        conditions.contains_key(k) ==> input.design_variable_conditions[k] == seq![condition_view(conditions[k])]
    &&& forall|k: Seq<char>| #[trigger]
        input.compact_macro_instances.contains_key(k) <==> child_named(macros, instances, instances.len() as int, k)
    &&& forall|k: Seq<char>| #[trigger]
        input.compact_macro_instances.contains_key(k) ==> same_compact_input(input.compact_macro_instances[k], children[k])
    &&& input.execution == hierarchy.execution
}


/// Registers the shared device models into a fresh input.
fn add_models<D: Copy, P>(
    input: &mut MacroExplorationInput<D, P>,
    models: &Vec<(String, D)>,
    errors: &mut Vec<MacroHierarchyLocalInputError>,
)
    requires
        strictly_sorted(entry_names(models@)),
        old(errors)@.len() == 0 ==> old(input)@.device_models == Map::<Seq<char>, D>::empty(),
    ensures
        final(errors)@.len() >= old(errors)@.len(),
        old(errors)@.len() == 0 ==> (final(errors)@.len() == 0 <==> !blank_key(entry_map(models@))),
        old(errors)@.len() == 0 && final(errors)@.len() == 0 ==> final(input)@ == (MacroExplorationInputView {
            device_models: entry_map(models@),
            ..old(input)@
        }),
{
    let ghost start = input@;
    let ghost start_len = errors@.len();
    let n = models.len();
    let mut i: usize = 0;
    assert(entry_map(models@.take(0)) =~= Map::<Seq<char>, D>::empty());
    while i < n
        invariant
            n == models@.len(),
            i <= n,
            strictly_sorted(entry_names(models@)),
            errors@.len() >= start_len,
            start_len == 0 ==> (errors@.len() == 0 <==> !any_blank(models@.take(i as int))),
            start_len == 0 && errors@.len() == 0 ==> input@ == (MacroExplorationInputView {
                device_models: entry_map(models@.take(i as int)),
                ..start
            }),
        decreases n - i,
    {
        proof {
            lemma_entry_map_step(models@, i as int);
            lemma_any_blank_step(models@, i as int);
        }
        let name = models[i].0.clone();
        let model: D = models[i].1;
        match input.register_device_model(name, model) {
            Ok(()) => {},
            Err(error) => {
                errors.push(MacroHierarchyLocalInputError::Registration(error));
            },
        }
        i = i + 1;
    }
    assert(models@.take(n as int) =~= models@);
    proof {
        lemma_blank_key(models@);
    }
}


/// Registers the path-local primitive inputs into an input with none.
fn add_primitives<D, P>(
    input: &mut MacroExplorationInput<D, P>,
    entries: &Vec<(String, PrimitiveInstanceExplorationInput)>,
    errors: &mut Vec<MacroHierarchyLocalInputError>,
)
    requires
        strictly_sorted(entry_names(entries@)),
        old(errors)@.len() == 0 ==> old(input)@.primitive_instances
            == Map::<Seq<char>, PrimitiveInstanceExplorationInput>::empty() && old(input)@.compact_macro_instances
            == Map::<Seq<char>, CompactMacroInstanceExplorationInput>::empty(),
    ensures
        final(errors)@.len() >= old(errors)@.len(),
        old(errors)@.len() == 0 ==> (final(errors)@.len() == 0 <==> !blank_key(entry_map(entries@))),
        old(errors)@.len() == 0 && final(errors)@.len() == 0 ==> {
            &&& final(input)@ == (MacroExplorationInputView {
                primitive_instances: final(input)@.primitive_instances,
                ..old(input)@
            })
            &&& forall|k: Seq<char>| #[trigger]
                final(input)@.primitive_instances.contains_key(k) <==> entry_map(entries@).contains_key(k)
            &&& forall|k: Seq<char>| #[trigger]
                final(input)@.primitive_instances.contains_key(k) ==> same_primitive_input(
                    final(input)@.primitive_instances[k],
                    entry_map(entries@)[k],
                )
        },
{
    let ghost start = input@;
    let ghost start_len = errors@.len();
    let n = entries.len();
    let mut i: usize = 0;
    assert(entry_map(entries@.take(0)) =~= Map::<Seq<char>, PrimitiveInstanceExplorationInput>::empty());
    while i < n
        invariant
            n == entries@.len(),
            i <= n,
            strictly_sorted(entry_names(entries@)),
            errors@.len() >= start_len,
            start_len == 0 ==> (errors@.len() == 0 <==> !any_blank(entries@.take(i as int))),
            start_len == 0 && errors@.len() == 0 ==> {
                &&& input@ == (MacroExplorationInputView { primitive_instances: input@.primitive_instances, ..start })
                &&& start.compact_macro_instances == Map::<Seq<char>, CompactMacroInstanceExplorationInput>::empty()
                &&& forall|k: Seq<char>| #[trigger]
                    input@.primitive_instances.contains_key(k) <==> entry_map(entries@.take(i as int)).contains_key(k)
                &&& forall|k: Seq<char>| #[trigger]
                    input@.primitive_instances.contains_key(k) ==> same_primitive_input(
                        input@.primitive_instances[k],
                        entry_map(entries@.take(i as int))[k],
                    )
            },
        decreases n - i,
    {
        proof {
            lemma_entry_map_step(entries@, i as int);
            lemma_any_blank_step(entries@, i as int);
        }
        let name = entries[i].0.clone();
        let copy = entries[i].1.copy();
        match input.register_primitive_instance(name, copy) {
            Ok(()) => {},
            Err(error) => {
                errors.push(MacroHierarchyLocalInputError::Registration(error));
            },
        }
        i = i + 1;
    }
    assert(entries@.take(n as int) =~= entries@);
    proof {
        lemma_blank_key(entries@);
    }
}

/// Registers the path-local design-variable overrides into an input with
/// none.
fn add_overrides<D, P>(
    input: &mut MacroExplorationInput<D, P>,
    entries: &Vec<(String, PrimitiveBuildValue)>,
    errors: &mut Vec<MacroHierarchyLocalInputError>,
)
    requires
        strictly_sorted(entry_names(entries@)),
        old(errors)@.len() == 0 ==> old(input)@.design_variable_overrides == Map::<Seq<char>, BuildValueView>::empty(),
    ensures
        final(errors)@.len() >= old(errors)@.len(),
        old(errors)@.len() == 0 ==> (final(errors)@.len() == 0 <==> !blank_key(entries_map(entries@))),
        old(errors)@.len() == 0 && final(errors)@.len() == 0 ==> final(input)@ == (MacroExplorationInputView {
            design_variable_overrides: entries_map(entries@),
            ..old(input)@
        }),
{
    let ghost start = input@;
    let ghost start_len = errors@.len();
    let n = entries.len();
    let mut i: usize = 0;
    assert(entries_map(entries@.take(0)) =~= Map::<Seq<char>, BuildValueView>::empty());
    while i < n
        invariant
            n == entries@.len(),
            i <= n,
            strictly_sorted(entry_names(entries@)),
            errors@.len() >= start_len,
            start_len == 0 ==> (errors@.len() == 0 <==> !any_blank(entries@.take(i as int))),
            start_len == 0 && errors@.len() == 0 ==> input@ == (MacroExplorationInputView {
                design_variable_overrides: entries_map(entries@.take(i as int)),
                ..start
            }),
        decreases n - i,
    {
        proof {
            lemma_entry_map_step(entries@, i as int);
            lemma_any_blank_step(entries@, i as int);
            assert(entries@.take(i as int).push(entries@[i as int]) =~= entries@.take(i + 1));
            lemma_entries_map_push(entries@.take(i as int), entries@[i as int]);
            assert(entries_map(entries@.take(i as int)).contains_key(entries@[i as int].0@) == entry_map(
                entries@.take(i as int),
            ).contains_key(entries@[i as int].0@));
        }
        let name = entries[i].0.clone();
        let value = copy_build_value(&entries[i].1);
        match input.register_design_variable_override(name, value) {
            Ok(()) => {},
            Err(error) => {
                errors.push(MacroHierarchyLocalInputError::Registration(error));
            },
        }
        i = i + 1;
    }
    assert(entries@.take(n as int) =~= entries@);
    proof {
        lemma_blank_key(entries@);
        assert(blank_key(entries_map(entries@)) == blank_key(entry_map(entries@))) by {
            if blank_key(entries_map(entries@)) {
                let k = choose|k: Seq<char>| entries_map(entries@).contains_key(k) && is_blank(k);
                assert(entry_map(entries@).contains_key(k));
            }
            if blank_key(entry_map(entries@)) {
                let k = choose|k: Seq<char>| entry_map(entries@).contains_key(k) && is_blank(k);
                assert(entries_map(entries@).contains_key(k));
            }
        }
    }
}

/// Registers the path-local specification bounds into an input with none.
fn add_specifications<D, P>(
    input: &mut MacroExplorationInput<D, P>,
    entries: &Vec<(String, MacroSpecificationBounds)>,
    errors: &mut Vec<MacroHierarchyLocalInputError>,
)
    requires
        strictly_sorted(entry_names(entries@)),
        old(errors)@.len() == 0 ==> old(input)@.specification_overrides == Map::<
            Seq<char>,
            MacroSpecificationBounds,
        >::empty(),
    ensures
        final(errors)@.len() >= old(errors)@.len(),
        old(errors)@.len() == 0 ==> (final(errors)@.len() == 0 <==> !blank_key(entry_map(entries@))),
        old(errors)@.len() == 0 && final(errors)@.len() == 0 ==> final(input)@ == (MacroExplorationInputView {
            specification_overrides: entry_map(entries@),
            ..old(input)@
        }),
{
    let ghost start = input@;
    let ghost start_len = errors@.len();
    let n = entries.len();
    let mut i: usize = 0;
    assert(entry_map(entries@.take(0)) =~= Map::<Seq<char>, MacroSpecificationBounds>::empty());
    while i < n
        invariant
            n == entries@.len(),
            i <= n,
            strictly_sorted(entry_names(entries@)),
            errors@.len() >= start_len,
            start_len == 0 ==> (errors@.len() == 0 <==> !any_blank(entries@.take(i as int))),
            start_len == 0 && errors@.len() == 0 ==> input@ == (MacroExplorationInputView {
                specification_overrides: entry_map(entries@.take(i as int)),
                ..start
            }),
        decreases n - i,
    {
        proof {
            lemma_entry_map_step(entries@, i as int);
            lemma_any_blank_step(entries@, i as int);
        }
        let name = entries[i].0.clone();
        match input.register_specification_override(name, entries[i].1) {
            Ok(()) => {},
            Err(error) => {
                errors.push(MacroHierarchyLocalInputError::Registration(error));
            },
        }
        i = i + 1;
    }
    assert(entries@.take(n as int) =~= entries@);
    proof {
        lemma_blank_key(entries@);
    }
}

/// Registers the derived specification bounds as inherited bounds into an
/// input with none.
fn add_inherited<D, P>(
    input: &mut MacroExplorationInput<D, P>,
    entries: &[(String, MacroSpecificationBounds)],
    errors: &mut Vec<MacroHierarchyLocalInputError>,
)
    requires
        strictly_sorted(entry_names(entries@)),
        old(errors)@.len() == 0 ==> old(input)@.inherited_specification_bounds == Map::<
            Seq<char>,
            MacroSpecificationBounds,
        >::empty(),
    ensures
        final(errors)@.len() >= old(errors)@.len(),
        old(errors)@.len() == 0 ==> (final(errors)@.len() == 0 <==> !blank_key(entry_map(entries@))),
        old(errors)@.len() == 0 && final(errors)@.len() == 0 ==> final(input)@ == (MacroExplorationInputView {
            inherited_specification_bounds: entry_map(entries@),
            ..old(input)@
        }),
{
    let ghost start = input@;
    let ghost start_len = errors@.len();
    let n = entries.len();
    let mut i: usize = 0;
    assert(entry_map(entries@.take(0)) =~= Map::<Seq<char>, MacroSpecificationBounds>::empty());
    while i < n
        invariant
            n == entries@.len(),
            i <= n,
            strictly_sorted(entry_names(entries@)),
            errors@.len() >= start_len,
            start_len == 0 ==> (errors@.len() == 0 <==> !any_blank(entries@.take(i as int))),
            start_len == 0 && errors@.len() == 0 ==> input@ == (MacroExplorationInputView {
                inherited_specification_bounds: entry_map(entries@.take(i as int)),
                ..start
            }),
        decreases n - i,
    {
        proof {
            lemma_entry_map_step(entries@, i as int);
            lemma_any_blank_step(entries@, i as int);
        }
        let name = entries[i].0.clone();
        match input.register_inherited_specification_bounds(name, entries[i].1) {
            Ok(()) => {},
            Err(error) => {
                errors.push(MacroHierarchyLocalInputError::Registration(error));
            },
        }
        i = i + 1;
    }
    assert(entries@.take(n as int) =~= entries@);
    proof {
        lemma_blank_key(entries@);
    }
}

/// Registers one derived condition per design variable into an input with
/// none.
fn add_conditions<D, P>(
    input: &mut MacroExplorationInput<D, P>,
    entries: &[(String, MacroDesignVariableCondition)],
    errors: &mut Vec<MacroHierarchyLocalInputError>,
)
    requires
        strictly_sorted(entry_names(entries@)),
        old(errors)@.len() == 0 ==> old(input)@.design_variable_conditions == Map::<
            Seq<char>,
            Seq<ConditionView>,
        >::empty(),
    ensures
        final(errors)@.len() >= old(errors)@.len(),
        old(errors)@.len() == 0 ==> (final(errors)@.len() == 0 <==> !blank_key(entry_map(entries@))),
        old(errors)@.len() == 0 && final(errors)@.len() == 0 ==> {
            &&& final(input)@ == (MacroExplorationInputView {
                design_variable_conditions: final(input)@.design_variable_conditions,
                ..old(input)@
            })
            &&& forall|k: Seq<char>| #[trigger]
                final(input)@.design_variable_conditions.contains_key(k) <==> entry_map(entries@).contains_key(k)
            &&& forall|k: Seq<char>| #[trigger]
                entry_map(entries@).contains_key(k) ==> final(input)@.design_variable_conditions[k] == seq![
                    condition_view(entry_map(entries@)[k]),
                ]
        },
{
    let ghost start = input@;
    let ghost start_len = errors@.len();
    let n = entries.len();
    let mut i: usize = 0;
    assert(entry_map(entries@.take(0)) =~= Map::<Seq<char>, MacroDesignVariableCondition>::empty());
    while i < n
        invariant
            n == entries@.len(),
            i <= n,
            strictly_sorted(entry_names(entries@)),
            errors@.len() >= start_len,
            start_len == 0 ==> (errors@.len() == 0 <==> !any_blank(entries@.take(i as int))),
            start_len == 0 && errors@.len() == 0 ==> {
                &&& input@ == (MacroExplorationInputView {
                    design_variable_conditions: input@.design_variable_conditions,
                    ..start
                })
                &&& forall|k: Seq<char>| #[trigger]
                    input@.design_variable_conditions.contains_key(k) <==> entry_map(entries@.take(i as int)).contains_key(k)
                &&& forall|k: Seq<char>| #[trigger]
                    entry_map(entries@.take(i as int)).contains_key(k) ==> input@.design_variable_conditions[k] == seq![
                        condition_view(entry_map(entries@.take(i as int))[k]),
                    ]
            },
        decreases n - i,
    {
        proof {
            lemma_entry_map_step(entries@, i as int);
            lemma_any_blank_step(entries@, i as int);
        }
        let name = entries[i].0.clone();
        let condition = copy_condition(&entries[i].1);
        match input.register_design_variable_condition(name, condition) {
            Ok(()) => {},
            Err(error) => {
                errors.push(MacroHierarchyLocalInputError::Registration(error));
            },
        }
        i = i + 1;
    }
    assert(entries@.take(n as int) =~= entries@);
    proof {
        lemma_blank_key(entries@);
    }
}


/// One more instance names a catalogued submacro exactly when it does or
/// an earlier one does.
proof fn lemma_child_named_step(macros: Seq<Macro>, instances: Seq<CircuitInstance>, i: int, name: Seq<char>)
    requires
        0 <= i < instances.len(),
    ensures
        child_named(macros, instances, i + 1, name) == (child_named(macros, instances, i, name) || (catalogued_child(
            macros,
            instances[i],
        ) && instances[i].name_view() == name)),
{
    if child_named(macros, instances, i + 1, name) {
        let j = choose|j: int|
            0 <= j < i + 1 && catalogued_child(macros, #[trigger] instances[j]) && instances[j].name_view() == name;
        if j < i {
            assert(child_named(macros, instances, i, name));
        }
    }
}

/// One more instance is refused exactly when it or an earlier one is.
proof fn lemma_refused_step(
    macros: Seq<Macro>,
    instances: Seq<CircuitInstance>,
    i: int,
    children: Map<Seq<char>, CompactMacroInstanceExplorationInput>,
    primitives: Set<Seq<char>>,
)
    requires
        0 <= i,
    ensures
        compact_refused_upto(macros, instances, i + 1, children, primitives) == (compact_refused_upto(
            macros,
            instances,
            i,
            children,
            primitives,
        ) || compact_child_refused(macros, instances, i, children, primitives)),
{
    if compact_refused_upto(macros, instances, i + 1, children, primitives) {
        let j = choose|j: int| 0 <= j < i + 1 && #[trigger] compact_child_refused(macros, instances, j, children, primitives);
        if j < i {
            assert(compact_refused_upto(macros, instances, i, children, primitives));
        }
    }
}

/// Registers the resolved compact input of every catalogued submacro
/// instance, in circuit order, into an input with none.
fn add_children<D, P>(
    input: &mut MacroExplorationInput<D, P>,
    macro_: &Macro,
    macro_catalog: &MacroCatalog,
    children: &Vec<(String, CompactMacroInstanceExplorationInput)>,
    errors: &mut Vec<MacroHierarchyLocalInputError>,
)
    requires
        strictly_sorted(entry_names(children@)),
        old(errors)@.len() == 0 ==> old(input)@.compact_macro_instances == Map::<
            Seq<char>,
            CompactMacroInstanceExplorationInput,
        >::empty(),
    ensures
        final(errors)@.len() >= old(errors)@.len(),
        old(errors)@.len() == 0 ==> (final(errors)@.len() == 0 <==> !compact_refused_upto(
            macro_catalog.macros_view(),
            macro_.circuit_view().instances_view(),
            macro_.circuit_view().instances_view().len() as int,
            entry_map(children@),
            old(input)@.primitive_instances.dom(),
        )),
        old(errors)@.len() == 0 && final(errors)@.len() == 0 ==> {
            let instances = macro_.circuit_view().instances_view();
            &&& final(input)@ == (MacroExplorationInputView {
                compact_macro_instances: final(input)@.compact_macro_instances,
                ..old(input)@
            })
            &&& forall|k: Seq<char>| #[trigger]
                final(input)@.compact_macro_instances.contains_key(k) <==> child_named(
                    macro_catalog.macros_view(),
                    instances,
                    instances.len() as int,
                    k,
                )
            &&& forall|k: Seq<char>| #[trigger]
                final(input)@.compact_macro_instances.contains_key(k) ==> same_compact_input(
                    final(input)@.compact_macro_instances[k],
                    entry_map(children@)[k],
                )
        },
{
    let ghost start = input@;
    let ghost start_len = errors@.len();
    let ghost macros = macro_catalog.macros_view();
    let ghost resolved = entry_map(children@);
    let ghost primitives = start.primitive_instances.dom();
    let instances = macro_.circuit().instances();
    let n = instances.len();
    let mut i: usize = 0;
    proof {
        lemma_entry_map_facts(children@);
    }
    while i < n
        invariant
            n == instances@.len(),
            instances@ == macro_.circuit_view().instances_view(),
            macros == macro_catalog.macros_view(),
            resolved == entry_map(children@),
            primitives == start.primitive_instances.dom(),
            strictly_sorted(entry_names(children@)),
            i <= n,
            errors@.len() >= start_len,
            start_len == 0 ==> (errors@.len() == 0 <==> !compact_refused_upto(
                macros,
                instances@,
                i as int,
                resolved,
                primitives,
            )),
            start_len == 0 && errors@.len() == 0 ==> {
                &&& input@ == (MacroExplorationInputView {
                    compact_macro_instances: input@.compact_macro_instances,
                    ..start
                })
                &&& forall|k: Seq<char>| #[trigger]
                    input@.compact_macro_instances.contains_key(k) <==> child_named(macros, instances@, i as int, k)
                &&& forall|k: Seq<char>| #[trigger]
                    input@.compact_macro_instances.contains_key(k) ==> same_compact_input(
                        input@.compact_macro_instances[k],
                        resolved[k],
                    )
            },
        decreases n - i,
    {
        let instance = &instances[i];
        let name = instance.name();
        proof {
            lemma_refused_step(macros, instances@, i as int, resolved, primitives);
            assert forall|k: Seq<char>| true implies child_named(macros, instances@, i + 1, k) == (child_named(
                macros,
                instances@,
                i as int,
                k,
            ) || (catalogued_child(macros, instances@[i as int]) && instances@[i as int].name_view() == k)) by {
                lemma_child_named_step(macros, instances@, i as int, k);
            }
        }
        match instance.block() {
            BlockRef::Macro(child) => {
                if macro_catalog.get(child.as_str()).is_some() {
                    match get_entry(children, name) {
                        None => {
                            errors.push(
                                MacroHierarchyLocalInputError::MissingResolvedChild {
                                    child_instance: name.to_string(),
                                    child_macro: child.clone(),
                                },
                            );
                        },
                        Some(child_input) => {
                            let copy = child_input.copy();
                            match input.register_compact_macro_instance(name.to_string(), copy) {
                                Ok(()) => {},
                                Err(error) => {
                                    errors.push(MacroHierarchyLocalInputError::Registration(error));
                                },
                            }
                        },
                    }
                }
            },
            _ => {},
        }
        i = i + 1;
    }
}

impl<D: Copy> MacroHierarchyExplorationInput<D> {
    /// Assembles the direct exploration input of the macro occurrence at
    /// `path`: the shared device models and execution policy, the path-local
    /// primitive inputs and overrides, the conditions `derived` for it by its
    /// parent, and the resolved compact input of each submacro instance whose
    /// macro the catalog holds. Every refused registration is reported.
    pub fn local_input<P>(
        &self,
        macro_: &Macro,
        macro_catalog: &MacroCatalog,
        path: &MacroHierarchyPath,
        derived: Option<&ResolvedChildConditions>,
        compact_children: &Vec<(String, CompactMacroInstanceExplorationInput)>,
    ) -> (result: Result<MacroExplorationInput<D, P>, Vec<MacroHierarchyLocalInputError>>)
        requires
            strictly_sorted(entry_names(compact_children@)),
            derived matches Some(d) ==> d.wf(),
        ensures
            ({
                let derived_view = match derived {
                    Some(d) => Some(*d),
                    None => None::<ResolvedChildConditions>,
                };
                &&& result is Err <==> local_input_refused(
                    self@,
                    *macro_,
                    macro_catalog.macros_view(),
                    path.view(),
                    derived_view,
                    entry_map(compact_children@),
                )
                &&& result matches Err(errors) ==> errors@.len() > 0
                &&& result matches Ok(input) ==> local_input_built(
                    self@,
                    *macro_,
                    macro_catalog.macros_view(),
                    path.view(),
                    derived_view,
                    entry_map(compact_children@),
                    input@,
                )
            }),
    {
        let mut input: MacroExplorationInput<D, P> = MacroExplorationInput::new();
        input.set_execution_config(*self.execution_config());
        let mut errors: Vec<MacroHierarchyLocalInputError> = Vec::new();
        let ghost local = path_input_view(self@, path.view());
        let ghost derived_view = match derived {
            Some(d) => Some(*d),
            None => None::<ResolvedChildConditions>,
        };
        let ghost fresh = input@;
        add_models(&mut input, self.model_list(), &mut errors);
        let ghost e0 = errors@.len();
        let ghost after_models = input@;
        match self.path(path) {
            Some(path_input) => {
                assert(local == path_input@);
                add_primitives(&mut input, path_input.primitive_list(), &mut errors);
                let ghost after_primitives = input@;
                let ghost ep = errors@.len();
                add_overrides(&mut input, path_input.override_list(), &mut errors);
                let ghost eo = errors@.len();
                add_specifications(&mut input, path_input.specification_list(), &mut errors);
                proof {
                    if e0 == 0 && errors@.len() == 0 {
                        assert(ep == 0 && eo == 0);
                    }
                }
            },
            None => {
                assert(local.primitive_instances =~= Map::<Seq<char>, PrimitiveInstanceExplorationInput>::empty());
                assert(local.design_variable_overrides =~= Map::<Seq<char>, BuildValueView>::empty());
                assert(local.specification_overrides =~= Map::<Seq<char>, MacroSpecificationBounds>::empty());
                assert(!blank_key(local.primitive_instances));
                assert(!blank_key(local.design_variable_overrides));
                assert(!blank_key(local.specification_overrides));
            },
        }
        let ghost e1 = errors@.len();
        let ghost after_path = input@;
        proof {
            if e0 == 0 {
                assert(e1 == 0 <==> !(blank_key(local.primitive_instances) || blank_key(local.design_variable_overrides)
                    || blank_key(local.specification_overrides)));
            }
            if e1 == 0 {
                assert(after_path.primitive_instances.dom() =~= local.primitive_instances.dom());
                assert(after_path.compact_macro_instances == Map::<Seq<char>, CompactMacroInstanceExplorationInput>::empty());
            }
        }
        match derived {
            Some(d) => {
                add_inherited(&mut input, d.specification_bounds(), &mut errors);
                let ghost ei = errors@.len();
                add_conditions(&mut input, d.design_variable_conditions(), &mut errors);
                proof {
                    if e1 == 0 && errors@.len() == 0 {
                        assert(ei == 0);
                    }
                }
            },
            None => {
                assert(derived_bounds(derived_view) =~= Map::<Seq<char>, MacroSpecificationBounds>::empty());
                assert(derived_conditions(derived_view) =~= Map::<Seq<char>, MacroDesignVariableCondition>::empty());
                assert(!blank_key(derived_bounds(derived_view)));
                assert(!blank_key(derived_conditions(derived_view)));
            },
        }
        let ghost e2 = errors@.len();
        let ghost after_derived = input@;
        proof {
            if e1 == 0 {
                assert(e2 == 0 <==> !(blank_key(derived_bounds(derived_view)) || blank_key(
                    derived_conditions(derived_view),
                )));
            }
            if e2 == 0 {
                assert(after_derived.primitive_instances.dom() =~= local.primitive_instances.dom());
            }
        }
        add_children(&mut input, macro_, macro_catalog, compact_children, &mut errors);
        proof {
            let refused = local_input_refused(
                self@,
                *macro_,
                macro_catalog.macros_view(),
                path.view(),
                derived_view,
                entry_map(compact_children@),
            );
            assert(e0 <= e1 <= e2 <= errors@.len());
            if errors@.len() == 0 {
                assert(e0 == 0 && e1 == 0 && e2 == 0);
                assert(!refused);
            }
            if refused {
                assert(errors@.len() > 0);
            }
        }
        if errors.len() == 0 {
            Ok(input)
        } else {
            Err(errors)
        }
    }
}

} // verus!
