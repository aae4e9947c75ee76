use shapeic_core::macro_model::execution::{ElectricalAnalysisExecution, MacroExecutionConfig};
use shapeic_core::macro_model::hierarchy::{
    MacroHierarchyExplorationInput, MacroHierarchyInputRegistrationError, MacroHierarchyPath,
    MacroHierarchyPathInput,
};
use shapeic_core::macro_model::hierarchy_result::MacroHierarchyRetentionPolicy;
use shapeic_core::macro_model::input::PrimitiveInstanceExplorationInput;
use shapeic_core::macro_model::model::MacroSpecificationBounds;
use shapeic_core::primitive::{PrimitiveBuildInput, PrimitiveBuildValue};

fn s(text: &str) -> String {
    text.to_owned()
}

#[test]
fn duplicate_registration_does_not_replace_the_original_path_input() {
    let path = MacroHierarchyPath::root(s("top")).unwrap();
    let mut input: MacroHierarchyExplorationInput<()> = MacroHierarchyExplorationInput::new();
    input
        .register_path(path.clone(), MacroHierarchyPathInput::new())
        .unwrap();

    assert_eq!(
        input.register_path(path.clone(), MacroHierarchyPathInput::new()),
        Err(MacroHierarchyInputRegistrationError::DuplicatePath { path: path.clone() })
    );
    assert!(input.path(&path).is_some());
    assert_eq!(input.paths().len(), 1);
}

#[test]
fn paths_come_back_in_path_order() {
    let top = MacroHierarchyPath::root(s("top")).unwrap();
    let xb = top.child(s("xb")).unwrap();
    let xa = top.child(s("xa")).unwrap();
    let deep = xa.child(s("x1")).unwrap();
    let mut input: MacroHierarchyExplorationInput<()> = MacroHierarchyExplorationInput::new();
    for path in [xb.clone(), deep.clone(), top.clone(), xa.clone()] {
        input.register_path(path, MacroHierarchyPathInput::new()).unwrap();
    }
    let order: Vec<String> = input.paths().iter().map(|(path, _)| path.to_string()).collect();
    assert_eq!(order, vec![s("top"), s("top.xa"), s("top.xa.x1"), s("top.xb")]);
    assert!(input.path(&MacroHierarchyPath::root(s("other")).unwrap()).is_none());
}

#[test]
fn path_inputs_refuse_blank_and_repeated_registrations() {
    let mut local = MacroHierarchyPathInput::new();
    local
        .register_primitive_instance(
            s("x1"),
            PrimitiveInstanceExplorationInput::new(PrimitiveBuildInput::default(), Vec::new()),
        )
        .unwrap();
    assert_eq!(
        local.register_primitive_instance(
            s("x1"),
            PrimitiveInstanceExplorationInput::new(PrimitiveBuildInput::default(), Vec::new()),
        ),
        Err(MacroHierarchyInputRegistrationError::DuplicatePrimitiveInstance { instance: s("x1") })
    );
    assert_eq!(
        local.register_primitive_instance(
            s(" "),
            PrimitiveInstanceExplorationInput::new(PrimitiveBuildInput::default(), Vec::new()),
        ),
        Err(MacroHierarchyInputRegistrationError::EmptyInstance)
    );
    local
        .register_design_variable_override(s("current"), PrimitiveBuildValue::Scalar(1.0f64.to_bits()))
        .unwrap();
    assert_eq!(
        local.register_design_variable_override(s("current"), PrimitiveBuildValue::Scalar(0)),
        Err(MacroHierarchyInputRegistrationError::DuplicateDesignVariableOverride {
            variable: s("current"),
        })
    );
    let bounds = MacroSpecificationBounds::unbounded();
    local.register_specification_override(s("gain"), bounds).unwrap();
    assert_eq!(
        local.register_specification_override(s("gain"), bounds),
        Err(MacroHierarchyInputRegistrationError::DuplicateSpecificationOverride {
            specification: s("gain"),
        })
    );
    assert_eq!(
        local.register_specification_override(s(""), bounds),
        Err(MacroHierarchyInputRegistrationError::EmptySpecification)
    );
}

#[test]
fn hierarchy_input_shares_models_and_policies() {
    let nmos = s("nmos model");
    let mut input: MacroHierarchyExplorationInput<&String> = MacroHierarchyExplorationInput::new();
    input.register_device_model(s("nmos"), &nmos).unwrap();
    assert_eq!(
        input.register_device_model(s("nmos"), &nmos),
        Err(MacroHierarchyInputRegistrationError::DuplicateDeviceModel {
            device_type: s("nmos"),
        })
    );
    assert_eq!(
        input.register_device_model(s(""), &nmos),
        Err(MacroHierarchyInputRegistrationError::EmptyDeviceType)
    );
    assert_eq!(input.retention_policy(), MacroHierarchyRetentionPolicy::Summaries);
    input.set_retention_policy(MacroHierarchyRetentionPolicy::FullPreviews);
    assert_eq!(input.retention_policy(), MacroHierarchyRetentionPolicy::FullPreviews);
    input.set_execution_config(
        MacroExecutionConfig::sequential()
            .with_parallel_electrical_analysis(2)
            .unwrap(),
    );
    assert_eq!(
        input.execution_config().electrical_analysis(),
        ElectricalAnalysisExecution::Parallel {
            workers: 2,
            batch_size: 16,
        }
    );
}
