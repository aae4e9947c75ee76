use shapeic_core::circuit::{Circuit, CircuitValue};
use shapeic_core::exploration::candidate::{CandidatePoint, CandidateSet};
use shapeic_core::macro_model::catalog::MacroCatalog;
use shapeic_core::macro_model::execution::{ElectricalAnalysisExecution, MacroExecutionConfig};
use shapeic_core::macro_model::hierarchy::{
    MacroHierarchyExplorationInput, MacroHierarchyPath, MacroHierarchyPathInput,
};
use shapeic_core::macro_model::input::{
    CompactMacroInstanceExplorationInput, MacroExplorationInput,
    MacroExplorationInputRegistrationError, PrimitiveInstanceExplorationInput,
};
use shapeic_core::macro_model::local_input::MacroHierarchyLocalInputError;
use shapeic_core::macro_model::model::{Macro, MacroSpecificationBounds};
use shapeic_core::macro_model::resolution::ResolvedChildConditions;
use shapeic_core::primitive::{PrimitiveBuildInput, PrimitiveBuildValue};

fn s(text: &str) -> String {
    text.to_owned()
}

fn bits(value: f64) -> u64 {
    value.to_bits()
}

fn empty_macro(name: &str) -> Macro {
    Macro::new(s(name), Vec::new(), Circuit::default(), Circuit::default())
}

fn top() -> Macro {
    Macro::new(
        s("top"),
        Vec::new(),
        Circuit::builder()
            .primitive(s("xdp"), s("diffpair"), vec![(s("OUT"), s("VOUT"))])
            .macro_instance(s("xload"), s("load"), vec![(s("OUT"), s("VOUT"))])
            .macro_instance(s("xother"), s("unknown"), vec![(s("OUT"), s("VOUT"))])
            .resistor(s("r"), s("VOUT"), s("0"), CircuitValue::Constant(bits(1.0)))
            .build(),
        Circuit::default(),
    )
}

fn catalog() -> MacroCatalog {
    MacroCatalog::from_macros(vec![empty_macro("load")]).unwrap()
}

fn compact(name: &str) -> CompactMacroInstanceExplorationInput {
    CompactMacroInstanceExplorationInput::new(
        CandidateSet::new(s(name), vec![CandidatePoint::new(vec![(s("gm"), bits(1.0e-3))])]),
        Vec::new(),
    )
}

fn hierarchy<'a>(nmos: &'a String, local: MacroHierarchyPathInput) -> MacroHierarchyExplorationInput<&'a String> {
    let mut hierarchy = MacroHierarchyExplorationInput::new();
    hierarchy.register_device_model(s("nmos"), nmos).unwrap();
    hierarchy.set_execution_config(
        MacroExecutionConfig::sequential()
            .with_parallel_electrical_analysis(2)
            .unwrap(),
    );
    hierarchy
        .register_path(MacroHierarchyPath::root(s("top")).unwrap(), local)
        .unwrap();
    hierarchy
}

fn path_local() -> MacroHierarchyPathInput {
    let mut local = MacroHierarchyPathInput::new();
    local
        .register_primitive_instance(
            s("xdp"),
            PrimitiveInstanceExplorationInput::new(
                PrimitiveBuildInput::new(vec![(s("w"), PrimitiveBuildValue::Scalar(bits(2.0)))]),
                Vec::new(),
            ),
        )
        .unwrap();
    local
        .register_design_variable_override(s("bias"), PrimitiveBuildValue::Scalar(bits(1.0)))
        .unwrap();
    local
        .register_specification_override(s("gain"), MacroSpecificationBounds::between(bits(1.0), bits(2.0)))
        .unwrap();
    local
}

#[test]
fn assembles_the_local_input_of_a_path() {
    let nmos = s("nmos model");
    let hierarchy = hierarchy(&nmos, path_local());
    let path = MacroHierarchyPath::root(s("top")).unwrap();
    let derived = ResolvedChildConditions::new();

    let input: MacroExplorationInput<&String, ()> = hierarchy
        .local_input(&top(), &catalog(), &path, Some(&derived), &vec![(s("xload"), compact("load"))])
        .unwrap();

    assert_eq!(input.device_model("nmos").map(|model| model.as_str()), Some("nmos model"));
    assert!(input.physical_lut().is_none());
    assert_eq!(
        input.primitive_instance("xdp").unwrap().build_input().value("w"),
        Some(&PrimitiveBuildValue::Scalar(bits(2.0)))
    );
    assert_eq!(
        input.design_variable_override("bias"),
        Some(&PrimitiveBuildValue::Scalar(bits(1.0)))
    );
    assert_eq!(
        input.specification_override("gain"),
        Some(MacroSpecificationBounds::between(bits(1.0), bits(2.0)))
    );
    assert_eq!(input.compact_macro_instance("xload").unwrap().candidates().name, "load");
    assert!(input.compact_macro_instance("xother").is_none());
    assert_eq!(*input.execution_config(), *hierarchy.execution_config());
    assert!(matches!(
        input.execution_config().electrical_analysis(),
        ElectricalAnalysisExecution::Parallel { workers: 2, .. }
    ));
}

#[test]
fn an_unconfigured_path_gets_only_the_shared_data() {
    let nmos = s("nmos model");
    let hierarchy = hierarchy(&nmos, MacroHierarchyPathInput::new());
    let path = MacroHierarchyPath::root(s("top")).unwrap().child(s("xload")).unwrap();

    let input: MacroExplorationInput<&String, ()> = hierarchy
        .local_input(&empty_macro("load"), &catalog(), &path, None, &Vec::new())
        .unwrap();

    assert!(input.device_model("nmos").is_some());
    assert!(input.primitive_instance("xdp").is_none());
    assert!(input.design_variable_override("bias").is_none());
}

#[test]
fn reports_a_submacro_without_a_resolved_input() {
    let nmos = s("nmos model");
    let hierarchy = hierarchy(&nmos, path_local());
    let path = MacroHierarchyPath::root(s("top")).unwrap();

    let result: Result<MacroExplorationInput<&String, ()>, _> =
        hierarchy.local_input(&top(), &catalog(), &path, None, &Vec::new());

    assert_eq!(
        result.err(),
        Some(vec![MacroHierarchyLocalInputError::MissingResolvedChild {
            child_instance: s("xload"),
            child_macro: s("load"),
        }])
    );
}

#[test]
fn reports_a_submacro_input_that_collides_with_a_primitive_input() {
    let nmos = s("nmos model");
    let mut local = path_local();
    local
        .register_primitive_instance(
            s("xload"),
            PrimitiveInstanceExplorationInput::new(PrimitiveBuildInput::default(), Vec::new()),
        )
        .unwrap();
    let hierarchy = hierarchy(&nmos, local);
    let path = MacroHierarchyPath::root(s("top")).unwrap();

    let result: Result<MacroExplorationInput<&String, ()>, _> = hierarchy.local_input(
        &top(),
        &catalog(),
        &path,
        None,
        &vec![(s("xload"), compact("load"))],
    );
    let errors = result.err().unwrap();

    assert_eq!(
        errors,
        vec![MacroHierarchyLocalInputError::Registration(
            MacroExplorationInputRegistrationError::DuplicateInstanceInput {
                instance_path: s("xload"),
            }
        )]
    );
    assert_eq!(
        errors[0].to_string(),
        MacroExplorationInputRegistrationError::DuplicateInstanceInput {
            instance_path: s("xload"),
        }
        .to_string()
    );
}
