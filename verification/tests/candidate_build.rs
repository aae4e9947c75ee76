use shapeic_core::circuit::{Circuit, CircuitValue};
use shapeic_core::exploration::candidate::{CandidatePoint, CandidateSet};
use shapeic_core::exploration::filter::{CandidateFilter, CandidateFilterError};
use shapeic_core::macro_model::candidate_build::{
    filter_built_candidates, plan_candidate_build_tasks, prepare_candidate_build,
    CandidateBuildTask, MacroCandidateBuildError,
};
use shapeic_core::macro_model::configuration::MacroExplorationDefinitionError;
use shapeic_core::macro_model::input::{
    CompactMacroInstanceExplorationInput, MacroExplorationInput,
    MacroExplorationInputValidationError, MacroExplorationInstanceKind,
    PrimitiveInstanceExplorationInput,
};
use shapeic_core::macro_model::model::{Macro, MacroPrimitiveDefault};
use shapeic_core::primitive::{PrimitiveBuildInput, PrimitiveCatalog, PrimitiveManifest};

fn s(text: &str) -> String {
    text.to_owned()
}

fn bits(value: f64) -> u64 {
    value.to_bits()
}

fn ota() -> Macro {
    Macro::new(
        s("ota"),
        Vec::new(),
        Circuit::builder()
            .macro_instance(s("xload"), s("active_load"), vec![(s("OUT"), s("VOUT"))])
            .resistor(s("rout"), s("VOUT"), s("0"), CircuitValue::Constant(bits(1.0e6)))
            .primitive(s("xdp"), s("diffpair"), vec![(s("OUT"), s("VOUT"))])
            .build(),
        Circuit::default(),
    )
}

fn catalog() -> PrimitiveCatalog {
    PrimitiveCatalog {
        primitives: vec![PrimitiveManifest {
            name: s("diffpair"),
            transistor_type: Some(s("nmos")),
            build: None,
        }],
    }
}

fn candidates(name: &str, widths: &[f64]) -> CandidateSet {
    CandidateSet::new(
        s(name),
        widths
            .iter()
            .map(|width| CandidatePoint::new(vec![(s("w"), bits(*width))]))
            .collect(),
    )
}

#[test]
fn refuses_an_invalid_definition_before_the_input() {
    let macro_ = ota().with_primitive_default(MacroPrimitiveDefault::new(
        s("rout"),
        PrimitiveBuildInput::default(),
        Vec::new(),
    ));
    let mut input: MacroExplorationInput<&String, ()> = MacroExplorationInput::new();

    assert_eq!(
        prepare_candidate_build(&macro_, &catalog(), &mut input),
        Err(MacroCandidateBuildError::InvalidDefinition {
            errors: vec![MacroExplorationDefinitionError::PrimitiveDefaultTargetsNonPrimitive {
                instance_path: s("rout"),
            }],
        })
    );
}

#[test]
fn refuses_an_invalid_input_with_every_problem() {
    let mut input: MacroExplorationInput<&String, ()> = MacroExplorationInput::new();

    assert_eq!(
        prepare_candidate_build(&ota(), &catalog(), &mut input),
        Err(MacroCandidateBuildError::InvalidInput {
            errors: vec![
                MacroExplorationInputValidationError::MissingCompactMacroInput {
                    macro_name: s("ota"),
                    instance_path: s("xload"),
                    referenced_macro: s("active_load"),
                },
                MacroExplorationInputValidationError::MissingPrimitiveInput {
                    macro_name: s("ota"),
                    instance_path: s("xdp"),
                    primitive: s("diffpair"),
                },
                MacroExplorationInputValidationError::MissingDeviceModel {
                    macro_name: s("ota"),
                    instance_path: s("xdp"),
                    primitive: s("diffpair"),
                    device_type: s("nmos"),
                },
            ],
        })
    );
    assert!(input.primitive_instance("xdp").is_none());
}

#[test]
fn plans_one_task_per_primitive_and_submacro_in_circuit_order() {
    let macro_ = ota();
    let primitives = catalog();
    let nmos = s("nmos model");
    let mut input: MacroExplorationInput<&String, ()> = MacroExplorationInput::new();
    input.register_device_model(s("nmos"), &nmos).unwrap();
    input
        .register_primitive_instance(
            s("xdp"),
            PrimitiveInstanceExplorationInput::new(PrimitiveBuildInput::default(), Vec::new()),
        )
        .unwrap();
    input
        .register_compact_macro_instance(
            s("xload"),
            CompactMacroInstanceExplorationInput::new(candidates("active_load", &[1.0]), Vec::new()),
        )
        .unwrap();

    assert_eq!(prepare_candidate_build(&macro_, &primitives, &mut input), Ok(()));
    let tasks = plan_candidate_build_tasks(&macro_, &primitives, &input);

    assert_eq!(tasks.len(), 2);
    match &tasks[0] {
        CandidateBuildTask::CompactMacro { circuit_index, instance_path, input } => {
            assert_eq!(*circuit_index, 0);
            assert_eq!(*instance_path, "xload");
            assert_eq!(input.candidates().name, "active_load");
        }
        CandidateBuildTask::Primitive { .. } => panic!("the first task builds the submacro"),
    }
    match &tasks[1] {
        CandidateBuildTask::Primitive {
            circuit_index,
            instance_path,
            primitive_name,
            model,
            primitive,
            ..
        } => {
            assert_eq!(*circuit_index, 2);
            assert_eq!(*instance_path, "xdp");
            assert_eq!(*primitive_name, "diffpair");
            assert_eq!(***model, "nmos model");
            assert_eq!(primitive.name, "diffpair");
        }
        CandidateBuildTask::CompactMacro { .. } => panic!("the second task builds the primitive"),
    }
}

#[test]
fn filters_built_candidates_and_counts_them() {
    let filters = vec![CandidateFilter::at_least(s("w"), bits(2.0)).unwrap()];
    let set = filter_built_candidates(
        "ota",
        s("xdp"),
        MacroExplorationInstanceKind::Primitive,
        candidates("xdp", &[1.0, 2.0, 3.0]),
        &filters,
        Vec::new(),
    )
    .unwrap();

    assert_eq!(set.instance_path(), "xdp");
    assert_eq!(set.kind(), MacroExplorationInstanceKind::Primitive);
    assert_eq!(set.candidates().points.len(), 2);
    assert_eq!(set.filter_report().input_count, 3);
    assert_eq!(set.filter_report().retained_count, 2);
}

#[test]
fn reports_a_filter_that_cannot_be_applied() {
    let filters = vec![CandidateFilter::at_most(s("missing"), bits(2.0)).unwrap()];
    assert_eq!(
        filter_built_candidates(
            "ota",
            s("xload"),
            MacroExplorationInstanceKind::CompactMacro,
            candidates("xload", &[1.0]),
            &filters,
            vec![s("OUT")],
        ),
        Err(MacroCandidateBuildError::CandidateFilter {
            macro_name: s("ota"),
            instance_path: s("xload"),
            error: CandidateFilterError::MissingColumn {
                set: s("xload"),
                column: s("missing"),
            },
        })
    );
}
