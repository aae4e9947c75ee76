//! The plain logic around building the candidate sets of a macro: the
//! validation gate, the build tasks in circuit order, and the local
//! filtering of the candidates each task produced.
use vstd::prelude::*;

use crate::circuit::{BlockRef, CircuitInstance};
use crate::entries::entry_map;
use crate::exploration::candidate::CandidateSet;
use crate::exploration::filter::{
    filter_fault, kept_points, kept_upto, passes, retain_candidate_set, CandidateFilter, CandidateFilterError,
    CandidateFilterReport,
};
use crate::macro_model::candidates::MacroInstanceCandidateSet;
use crate::macro_model::configuration::MacroExplorationDefinitionError;
use crate::macro_model::definition::{definition_faults, exploration_definition_faults, validate_macro_exploration_definition};
use crate::macro_model::input::{
    resolves_all, CompactMacroInstanceExplorationInput, MacroExplorationInput, MacroExplorationInputValidationError,
    MacroExplorationInputView, MacroExplorationInstanceKind, PrimitiveInstanceExplorationInput,
};
use crate::macro_model::input_validation::{
    catalogued_faults, device_type, input_faults, instance_faults, instances_faults, validate_macro_exploration_input,
    validation_faults,
};
use crate::macro_model::model::Macro;
use crate::primitive::{lemma_primitive_index, primitive_index, PrimitiveCatalog, PrimitiveManifest};
use crate::entries::entry_names;
use crate::text::{str_is_blank, string_views, strictly_sorted};

verus! {

/// Why the candidate sets of a macro could not be built.
#[derive(Debug, PartialEq)]
pub enum MacroCandidateBuildError {
    /// The definition-owned parts of the exploration are invalid.
    InvalidDefinition { errors: Vec<MacroExplorationDefinitionError> },
    /// The runtime exploration input is invalid.
    InvalidInput { errors: Vec<MacroExplorationInputValidationError> },
    /// The local filters of one instance could not be applied.
    CandidateFilter { macro_name: String, instance_path: String, error: CandidateFilterError },
    /// The worker pool for a parallel build could not be created.
    CandidateThreadPool { reason: String },
}

// ---------------------------------------------------------------------------
// The validation gate
// ---------------------------------------------------------------------------

/// What the build of one instance needs is in the input: a primitive
/// instance has a resolved input, a catalogued primitive with a device type,
/// and a model for that device type; a submacro instance has a compact
/// input.
pub open spec fn instance_ready<D, P>(
    catalog: Seq<PrimitiveManifest>,
    input: MacroExplorationInputView<D, P>,
    instance: CircuitInstance,
) -> bool {
    let path = instance.name_view();
    match instance.block_view() {
        BlockRef::Primitive(primitive) => {
            &&& input.primitive_instances.contains_key(path)
            &&& primitive_index(catalog, primitive@) matches Some(j) && device_type(catalog[j]) matches Some(t)
                && input.device_models.contains_key(t)
        },
        BlockRef::Macro(_) => input.compact_macro_instances.contains_key(path),
        BlockRef::Element(_) => true,
    }
}

/// Every instance of the circuit is ready to be built.
pub open spec fn ready_for_build<D, P>(
    macro_: Macro,
    catalog: Seq<PrimitiveManifest>,
    input: MacroExplorationInputView<D, P>,
) -> bool {
    forall|i: int|
        0 <= i < macro_.circuit_view().instances_view().len() ==> instance_ready(
            catalog,
            input,
            #[trigger] macro_.circuit_view().instances_view()[i],
        )
}

/// No fault of the instances means no fault of any one of them.
proof fn lemma_no_instance_faults<D>(
    macro_name: Seq<char>,
    catalog: Seq<PrimitiveManifest>,
    primitives: Map<Seq<char>, PrimitiveInstanceExplorationInput>,
    compact: Map<Seq<char>, CompactMacroInstanceExplorationInput>,
    device_types: Set<Seq<char>>,
    instances: Seq<CircuitInstance>,
)
    requires
        instances_faults(macro_name, catalog, primitives, compact, device_types, instances).len() == 0,
    ensures
        forall|i: int|
            0 <= i < instances.len() ==> instance_faults(
                macro_name,
                catalog,
                primitives,
                compact,
                device_types,
                #[trigger] instances[i],
            ).len() == 0,
    decreases instances.len(),
{
    if instances.len() > 0 {
        let rest = instances.drop_last();
        lemma_no_instance_faults::<D>(macro_name, catalog, primitives, compact, device_types, rest);
        assert forall|i: int| 0 <= i < instances.len() implies instance_faults(
            macro_name,
            catalog,
            primitives,
            compact,
            device_types,
            #[trigger] instances[i],
        ).len() == 0 by {
            if i < instances.len() - 1 {
                assert(rest[i] == instances[i]);
            }
        }
    }
}

/// An instance without faults is ready to be built, in any input whose
/// primitive inputs are the ones validated.
proof fn lemma_faultless_instance_ready<D, P>(
    macro_name: Seq<char>,
    catalog: Seq<PrimitiveManifest>,
    primitives: Map<Seq<char>, PrimitiveInstanceExplorationInput>,
    input: MacroExplorationInputView<D, P>,
    instance: CircuitInstance,
)
    requires
        instance_faults(
            macro_name,
            catalog,
            primitives,
            input.compact_macro_instances,
            input.device_models.dom(),
            instance,
        ).len() == 0,
        forall|p: Seq<char>| #[trigger] primitives.contains_key(p) <==> input.primitive_instances.contains_key(p),
    ensures
        instance_ready(catalog, input, instance),
{
    let path = instance.name_view();
    match instance.block_view() {
        BlockRef::Primitive(primitive) => {
            assert(primitives.contains_key(path));
            match primitive_index(catalog, primitive@) {
                Some(j) => {
                    let faults = catalogued_faults(
                        macro_name,
                        path,
                        primitive@,
                        catalog[j],
                        primitives,
                        input.device_models.dom(),
                    );
                    assert(faults.len() == 0);
                },
                None => {},
            }
        },
        _ => {},
    }
}

/// Checks the definition, then the runtime input, and on success resolves
/// the primitive defaults into the input. A refused definition or input is
/// answered with every problem found and leaves the input as it was; on
/// success every instance of the circuit is ready to be built.
pub fn prepare_candidate_build<D, P>(
    macro_: &Macro,
    primitive_catalog: &PrimitiveCatalog,
    input: &mut MacroExplorationInput<D, P>,
) -> (result: Result<(), MacroCandidateBuildError>)
    ensures
        exploration_definition_faults(*macro_, primitive_catalog.primitives@).len() > 0 ==> (result matches Err(
            MacroCandidateBuildError::InvalidDefinition { errors },
        ) && definition_faults(errors@) == exploration_definition_faults(*macro_, primitive_catalog.primitives@)
            && final(input)@ == old(input)@),
        exploration_definition_faults(*macro_, primitive_catalog.primitives@).len() == 0 ==> match result {
            Err(MacroCandidateBuildError::InvalidInput { errors }) => {
                &&& errors@.len() > 0
                &&& exists|resolved: Seq<(String, PrimitiveInstanceExplorationInput)>|
                    #![trigger entry_map(resolved)]
                    strictly_sorted(entry_names(resolved)) && resolves_all(macro_, old(input)@, entry_map(resolved))
                        && input_faults(errors@) == validation_faults(
                        *macro_,
                        primitive_catalog.primitives@,
                        *old(input),
                        resolved,
                    )
                &&& final(input)@ == old(input)@
            },
            Ok(()) => {
                &&& exists|resolved: Seq<(String, PrimitiveInstanceExplorationInput)>|
                    #![trigger entry_map(resolved)]
                    strictly_sorted(entry_names(resolved)) && resolves_all(macro_, old(input)@, entry_map(resolved))
                        && validation_faults(*macro_, primitive_catalog.primitives@, *old(input), resolved).len() == 0
                &&& final(input)@ == (MacroExplorationInputView {
                    primitive_instances: final(input)@.primitive_instances,
                    ..old(input)@
                })
                &&& resolves_all(macro_, old(input)@, final(input)@.primitive_instances)
                &&& ready_for_build(*macro_, primitive_catalog.primitives@, final(input)@)
            },
            _ => false,
        },
{
    let definition_errors = validate_macro_exploration_definition(macro_, primitive_catalog);
    if definition_errors.len() > 0 {
        return Err(MacroCandidateBuildError::InvalidDefinition { errors: definition_errors });
    }
    let validation_errors = validate_macro_exploration_input(macro_, primitive_catalog, &*input);
    if validation_errors.len() > 0 {
        return Err(MacroCandidateBuildError::InvalidInput { errors: validation_errors });
    }
    let ghost before = *input;
    let ghost resolved = choose|resolved: Seq<(String, PrimitiveInstanceExplorationInput)>|
        #![trigger entry_map(resolved)]
        strictly_sorted(entry_names(resolved)) && resolves_all(macro_, before@, entry_map(resolved))
            && input_faults(validation_errors@) == validation_faults(
            *macro_,
            primitive_catalog.primitives@,
            before,
            resolved,
        );
    input.resolve_primitive_defaults(macro_);
    proof {
        let instances = macro_.circuit_view().instances_view();
        let primitives = entry_map(resolved);
        let faults = validation_faults(*macro_, primitive_catalog.primitives@, before, resolved);
        assert(faults.len() == 0);
        let tail = instances_faults(
            macro_.name_view(),
            primitive_catalog.primitives@,
            primitives,
            before@.compact_macro_instances,
            before@.device_models.dom(),
            instances,
        );
        assert(tail.len() == 0);
        lemma_no_instance_faults::<D>(
            macro_.name_view(),
            primitive_catalog.primitives@,
            primitives,
            before@.compact_macro_instances,
            before@.device_models.dom(),
            instances,
        );
        assert forall|p: Seq<char>| #[trigger] primitives.contains_key(p) <==> input@.primitive_instances.contains_key(p) by {
            assert(primitives.contains_key(p) <==> before@.primitive_instances.contains_key(p) || crate::macro_model::input::default_for(
                macro_.exploration_view().primitive_defaults_view(),
                p,
            ) is Some);
            assert(input@.primitive_instances.contains_key(p) <==> before@.primitive_instances.contains_key(p)
                || crate::macro_model::input::default_for(macro_.exploration_view().primitive_defaults_view(), p) is Some);
        }
        assert forall|i: int| 0 <= i < instances.len() implies instance_ready(
            primitive_catalog.primitives@,
            input@,
            #[trigger] instances[i],
        ) by {
            lemma_faultless_instance_ready(
                macro_.name_view(),
                primitive_catalog.primitives@,
                primitives,
                input@,
                instances[i],
            );
        }
    }
    Ok(())
}


// ---------------------------------------------------------------------------
// Build tasks
// ---------------------------------------------------------------------------

/// The build of the candidates of one instance: a primitive with its
/// device model, manifest and resolved input, or a compact submacro with
/// its input. Linear elements take no task.
pub enum CandidateBuildTask<'a, D> {
    Primitive {
        circuit_index: usize,
        instance_path: &'a str,
        primitive_name: &'a str,
        model: &'a D,
        primitive: &'a PrimitiveManifest,
        input: &'a PrimitiveInstanceExplorationInput,
    },
    CompactMacro { circuit_index: usize, instance_path: &'a str, input: &'a CompactMacroInstanceExplorationInput },
}

/// The positions of the instances that take a build task, in circuit
/// order.
pub open spec fn build_positions(instances: Seq<CircuitInstance>) -> Seq<int>
    decreases instances.len(),
{
    if instances.len() == 0 {
        Seq::empty()
    } else {
        build_positions(instances.drop_last()) + if instances.last().block_view() is Element {
            Seq::empty()
        } else {
            seq![instances.len() - 1]
        }
    }
}

/// `task` is the build task of instance `i`.
pub open spec fn plans_instance<D, P>(
    catalog: Seq<PrimitiveManifest>,
    runtime: MacroExplorationInputView<D, P>,
    instances: Seq<CircuitInstance>,
    task: CandidateBuildTask<'_, D>,
    i: int,
) -> bool {
    let instance = instances[i];
    let path = instance.name_view();
    match task {
        CandidateBuildTask::Primitive { circuit_index, instance_path, primitive_name, model, primitive, input } => {
            &&& match instance.block_view() {
                BlockRef::Primitive(p) => primitive_name@ == p@ && match primitive_index(catalog, p@) {
                    Some(j) => *primitive == catalog[j] && match device_type(catalog[j]) {
                        Some(t) => *model == runtime.device_models[t],
                        None => false,
                    },
                    None => false,
                },
                _ => false,
            }
            &&& circuit_index == i
            &&& instance_path@ == path
            &&& *input == runtime.primitive_instances[path]
        },
        CandidateBuildTask::CompactMacro { circuit_index, instance_path, input } => {
            &&& instance.block_view() is Macro
            &&& circuit_index == i
            &&& instance_path@ == path
            &&& *input == runtime.compact_macro_instances[path]
        },
    }
}

/// Lists the build tasks of a macro whose instances are all ready to be
/// built: one per primitive or submacro instance, in circuit order, each
/// with the resolved input, manifest and device model it needs.
pub fn plan_candidate_build_tasks<'a, D, P>(
    macro_: &'a Macro,
    primitive_catalog: &'a PrimitiveCatalog,
    runtime: &'a MacroExplorationInput<D, P>,
) -> (tasks: Vec<CandidateBuildTask<'a, D>>)
    requires
        ready_for_build(*macro_, primitive_catalog.primitives@, runtime@),
    ensures
        ({
            let instances = macro_.circuit_view().instances_view();
            let positions = build_positions(instances);
            &&& tasks@.len() == positions.len()
            &&& forall|k: int|
                0 <= k < tasks@.len() ==> plans_instance(
                    primitive_catalog.primitives@,
                    runtime@,
                    instances,
                    #[trigger] tasks@[k],
                    positions[k],
                )
        }),
{
    let ghost all = macro_.circuit_view().instances_view();
    let instances = macro_.circuit().instances();
    let n = instances.len();
    let mut tasks: Vec<CandidateBuildTask<'a, D>> = Vec::new();
    let mut i: usize = 0;
    while i < n
        invariant
            n == instances@.len(),
            instances@ == all,
            all == macro_.circuit_view().instances_view(),
            ready_for_build(*macro_, primitive_catalog.primitives@, runtime@),
            i <= n,
            tasks@.len() == build_positions(all.take(i as int)).len(),
            forall|k: int|
                0 <= k < tasks@.len() ==> plans_instance(
                    primitive_catalog.primitives@,
                    runtime@,
                    all,
                    #[trigger] tasks@[k],
                    build_positions(all.take(i as int))[k],
                ),
        decreases n - i,
    {
        let ghost before = build_positions(all.take(i as int));
        let ghost prefix = all.take(i + 1);
        proof {
            assert(prefix.drop_last() =~= all.take(i as int));
            assert(prefix.last() == all[i as int]);
        }
        let instance: &'a CircuitInstance = &instances[i];
        assert(instance_ready(primitive_catalog.primitives@, runtime@, all[i as int]));
        let path: &'a str = instance.name();
        match instance.block() {
            BlockRef::Primitive(primitive_name) => {
                proof {
                    lemma_primitive_index(primitive_catalog.primitives@, primitive_name@);
                }
                let primitive = primitive_catalog.get(primitive_name.as_str()).unwrap();
                let device = match &primitive.transistor_type {
                    Some(t) => t.as_str(),
                    None => {
                        assert(false);
                        ""
                    },
                };
                assert(!crate::text::is_blank(device@));
                let model = runtime.device_model(device).unwrap();
                let primitive_input = runtime.primitive_instance(path).unwrap();
                let task = CandidateBuildTask::Primitive {
                    circuit_index: i,
                    instance_path: path,
                    primitive_name: primitive_name.as_str(),
                    model,
                    primitive,
                    input: primitive_input,
                };
                tasks.push(task);
                proof {
                    assert(build_positions(prefix) =~= before.push(i as int));
                }
            },
            BlockRef::Macro(_) => {
                let compact_input = runtime.compact_macro_instance(path).unwrap();
                let task = CandidateBuildTask::CompactMacro { circuit_index: i, instance_path: path, input: compact_input };
                tasks.push(task);
                proof {
                    assert(build_positions(prefix) =~= before.push(i as int));
                }
            },
            BlockRef::Element(_) => {
                proof {
                    assert(build_positions(prefix) =~= before);
                }
            },
        }
        i = i + 1;
    }
    assert(all.take(n as int) =~= all);
    tasks
}

// ---------------------------------------------------------------------------
// Local filtering
// ---------------------------------------------------------------------------

/// Applies the local filters of one instance to the candidates its task
/// built and gathers the retained ones with the filtering counts and, for a
/// submacro, its projected interface ports. A filter that cannot be applied
/// is reported for the instance.
pub fn filter_built_candidates(
    macro_name: &str,
    instance_path: String,
    kind: MacroExplorationInstanceKind,
    candidates: CandidateSet,
    filters: &[CandidateFilter],
    interface_ports: Vec<String>,
) -> (result: Result<MacroInstanceCandidateSet, MacroCandidateBuildError>)
    ensures
        match filter_fault(candidates, filters@) {
            None => result matches Ok(set) && {
                let kept = kept_upto(passes(candidates, filters@), candidates.points@.len() as int);
                &&& set.instance_path_view() == instance_path@
                &&& set.kind_view() == kind
                &&& set.candidates_view().name == candidates.name
                &&& kept_points(candidates.points@, kept, set.candidates_view().points@)
                &&& set.filter_report_view().input_count == candidates.points@.len()
                &&& set.filter_report_view().retained_count == kept.len()
                &&& set.interface_ports_view() == string_views(interface_ports@)
            },
            Some(fault) => result matches Err(MacroCandidateBuildError::CandidateFilter { macro_name: m, instance_path: p, error })
                && m@ == macro_name@ && p@ == instance_path@ && error.reports(candidates, filters@, fault),
        },
{
    let mut candidates = candidates;
    match retain_candidate_set(&mut candidates, filters) {
        Ok(report) => Ok(MacroInstanceCandidateSet::new(instance_path, kind, candidates, report, interface_ports)),
        Err(error) => Err(
            MacroCandidateBuildError::CandidateFilter { macro_name: macro_name.to_string(), instance_path, error },
        ),
    }
}

} // verus!
