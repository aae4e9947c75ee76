use shapeic_core::circuit::{Circuit, CircuitValue};
use shapeic_core::exploration::candidate::{CandidatePoint, CandidateSet};
use shapeic_core::exploration::filter::CandidateFilter;
use shapeic_core::macro_model::execution::{ElectricalAnalysisExecution, MacroExecutionConfig};
use shapeic_core::macro_model::input::{
    CompactMacroInstanceExplorationInput, MacroExplorationInput,
    MacroExplorationInputRegistrationError, MacroExplorationInputValidationError,
    PrimitiveInstanceExplorationInput,
};
use shapeic_core::macro_model::model::{
    Macro, MacroDesignVariable, MacroDesignVariableBinding, MacroDesignVariableCondition,
    MacroInterfaceBinding, MacroOutputSource, MacroPrimitiveDefault, MacroSpecification,
    MacroSpecificationBounds, MacroSpecificationSource,
};
use shapeic_core::primitive::{PrimitiveBuildInput, PrimitiveBuildInputKind, PrimitiveBuildValue};

fn s(text: &str) -> String {
    text.to_owned()
}

fn between(minimum: f64, maximum: f64) -> MacroSpecificationBounds {
    MacroSpecificationBounds::between(minimum.to_bits(), maximum.to_bits())
}

fn one_candidate(name: &str) -> CandidateSet {
    CandidateSet::new(
        s(name),
        vec![CandidatePoint::new(vec![(s("gm"), 1.0e-3f64.to_bits())])],
    )
}

fn macro_with_specification() -> Macro {
    Macro::new(
        s("defaults"),
        Vec::new(),
        Circuit::builder()
            .primitive(s("x1"), s("device"), vec![(s("OUT"), s("N1"))])
            .build(),
        Circuit::builder()
            .resistor(s("r"), s("N1"), s("0"), CircuitValue::Constant(1.0f64.to_bits()))
            .build(),
    )
    .with_specification(MacroSpecification::new(
        s("gain"),
        MacroSpecificationSource::expression(s("1")),
        between(0.0, 100.0),
    ))
}

#[test]
fn registers_only_one_shared_physical_lut() {
    let first = s("first lut");
    let second = s("second lut");
    let mut input: MacroExplorationInput<(), &String> = MacroExplorationInput::new();

    input.register_physical_lut(&first).unwrap();
    assert!(std::ptr::eq(*input.physical_lut().unwrap(), &first));
    assert_eq!(
        input.register_physical_lut(&second),
        Err(MacroExplorationInputRegistrationError::DuplicatePhysicalLut)
    );
    assert!(std::ptr::eq(*input.physical_lut().unwrap(), &first));
}

#[test]
fn stores_an_explicit_execution_policy() {
    let mut input: MacroExplorationInput<(), ()> = MacroExplorationInput::new();
    assert_eq!(
        input.execution_config().electrical_analysis(),
        ElectricalAnalysisExecution::Sequential
    );

    input.set_execution_config(
        MacroExecutionConfig::sequential()
            .with_parallel_electrical_analysis(4)
            .unwrap()
            .with_electrical_batch_size(11)
            .unwrap(),
    );
    assert_eq!(
        input.execution_config().electrical_analysis(),
        ElectricalAnalysisExecution::Parallel {
            workers: 4,
            batch_size: 11,
        }
    );
}

#[test]
fn resolves_specification_override_before_inherited_intersection() {
    let macro_ = macro_with_specification();
    let mut input: MacroExplorationInput<(), ()> = MacroExplorationInput::new();
    input
        .register_specification_override(s("gain"), between(10.0, 90.0))
        .unwrap();
    input
        .register_inherited_specification_bounds(s("gain"), between(20.0, 80.0))
        .unwrap();

    assert_eq!(
        input.effective_specification_bounds(&macro_).unwrap(),
        vec![between(20.0, 80.0)]
    );
}

#[test]
fn registers_shared_models_and_typed_instance_inputs() {
    let nmos = s("fixture_nmos");
    let mut input: MacroExplorationInput<&String, ()> = MacroExplorationInput::new();

    input.register_device_model(s("nmos"), &nmos).unwrap();
    input
        .register_primitive_instance(
            s("xdp"),
            PrimitiveInstanceExplorationInput::new(PrimitiveBuildInput::default(), Vec::new()),
        )
        .unwrap();
    input
        .register_compact_macro_instance(
            s("xload"),
            CompactMacroInstanceExplorationInput::new(one_candidate("active_load"), Vec::new()),
        )
        .unwrap();

    assert_eq!(input.device_model("nmos").map(|model| model.as_str()), Some("fixture_nmos"));
    assert!(input.device_model("pmos").is_none());
    assert!(input.primitive_instance("xdp").is_some());
    assert!(input.compact_macro_instance("xload").is_some());
    assert_eq!(
        input.register_primitive_instance(
            s("xload"),
            PrimitiveInstanceExplorationInput::new(PrimitiveBuildInput::default(), Vec::new()),
        ),
        Err(MacroExplorationInputRegistrationError::DuplicateInstanceInput {
            instance_path: s("xload"),
        })
    );
    assert_eq!(
        input.register_device_model(s("nmos"), &nmos),
        Err(MacroExplorationInputRegistrationError::DuplicateDeviceModel {
            device_type: s("nmos"),
        })
    );
    assert_eq!(
        input.register_device_model(s("  "), &nmos),
        Err(MacroExplorationInputRegistrationError::EmptyDeviceType)
    );
    assert_eq!(
        input.register_compact_macro_instance(
            s(""),
            CompactMacroInstanceExplorationInput::new(one_candidate("x"), Vec::new()),
        ),
        Err(MacroExplorationInputRegistrationError::EmptyInstancePath)
    );
}

#[test]
fn refuses_blank_and_repeated_overrides() {
    let mut input: MacroExplorationInput<(), ()> = MacroExplorationInput::new();
    input
        .register_design_variable_override(s("current"), PrimitiveBuildValue::Scalar(2.0f64.to_bits()))
        .unwrap();
    assert_eq!(
        input.register_design_variable_override(
            s("current"),
            PrimitiveBuildValue::Scalar(3.0f64.to_bits())
        ),
        Err(MacroExplorationInputRegistrationError::DuplicateDesignVariableOverride {
            variable: s("current"),
        })
    );
    assert_eq!(
        input.design_variable_override("current"),
        Some(&PrimitiveBuildValue::Scalar(2.0f64.to_bits()))
    );
    assert_eq!(
        input.register_design_variable_override(s(" "), PrimitiveBuildValue::Scalar(0)),
        Err(MacroExplorationInputRegistrationError::EmptyDesignVariable)
    );
    assert_eq!(
        input.register_specification_override(s(""), between(0.0, 1.0)),
        Err(MacroExplorationInputRegistrationError::EmptySpecification)
    );
    input
        .register_specification_override(s("gain"), between(0.0, 1.0))
        .unwrap();
    assert_eq!(
        input.register_specification_override(s("gain"), between(0.0, 2.0)),
        Err(MacroExplorationInputRegistrationError::DuplicateSpecificationOverride {
            specification: s("gain"),
        })
    );
    assert_eq!(input.specification_override("gain"), Some(between(0.0, 1.0)));
    input
        .register_inherited_specification_bounds(s("gain"), between(0.0, 1.0))
        .unwrap();
    assert_eq!(
        input.register_inherited_specification_bounds(s("gain"), between(0.0, 1.0)),
        Err(
            MacroExplorationInputRegistrationError::DuplicateInheritedSpecificationBounds {
                specification: s("gain"),
            }
        )
    );
}

#[test]
fn keeps_every_design_variable_condition_in_order() {
    let mut input: MacroExplorationInput<(), ()> = MacroExplorationInput::new();
    let first = MacroDesignVariableCondition::range(Some(1.0f64.to_bits()), None);
    let second = MacroDesignVariableCondition::range(None, Some(4.0f64.to_bits()));
    input
        .register_design_variable_condition(s("current"), first.clone())
        .unwrap();
    input
        .register_design_variable_condition(s("current"), second.clone())
        .unwrap();
    assert_eq!(input.design_variable_conditions("current"), &[first, second]);
    assert!(input.design_variable_conditions("other").is_empty());
    assert_eq!(
        input.register_design_variable_condition(s(""), MacroDesignVariableCondition::range(None, None)),
        Err(MacroExplorationInputRegistrationError::EmptyDesignVariable)
    );
}

#[test]
fn reports_invalid_and_conflicting_effective_bounds() {
    let macro_ = macro_with_specification();

    let mut conflicting: MacroExplorationInput<(), ()> = MacroExplorationInput::new();
    conflicting
        .register_inherited_specification_bounds(s("gain"), between(200.0, 300.0))
        .unwrap();
    assert_eq!(
        conflicting.effective_specification_bounds(&macro_),
        Err(MacroExplorationInputValidationError::ConflictingSpecificationBounds {
            macro_name: s("defaults"),
            specification: s("gain"),
        })
    );

    let mut invalid: MacroExplorationInput<(), ()> = MacroExplorationInput::new();
    invalid
        .register_specification_override(s("gain"), between(5.0, 1.0))
        .unwrap();
    assert_eq!(
        invalid.effective_specification_bounds(&macro_),
        Err(MacroExplorationInputValidationError::InvalidSpecificationBounds {
            macro_name: s("defaults"),
            specification: s("gain"),
        })
    );

    let plain: MacroExplorationInput<(), ()> = MacroExplorationInput::new();
    assert_eq!(
        plain.effective_specification_bounds(&macro_).unwrap(),
        vec![between(0.0, 100.0)]
    );
}

#[test]
fn registration_errors_read_as_sentences() {
    assert_eq!(
        MacroExplorationInputRegistrationError::DuplicateInstanceInput {
            instance_path: s("x1"),
        }
        .to_string(),
        "exploration input for instance 'x1' is already registered"
    );
    assert_eq!(
        MacroExplorationInputRegistrationError::DuplicatePhysicalLut.to_string(),
        "a physical LUT is already registered"
    );
    assert_eq!(
        MacroExplorationInputRegistrationError::DuplicateInheritedSpecificationBounds {
            specification: s("gain"),
        }
        .to_string(),
        "specification 'gain' already has inherited bounds"
    );
}

#[test]
fn pruned_child_input_has_no_candidates_and_the_bound_ports() {
    let child = Macro::new(s("child"), Vec::new(), Circuit::default(), Circuit::default())
        .with_interface_binding(MacroInterfaceBinding::new(
            s("OUT"),
            MacroOutputSource::candidate_column(s("x1"), s("out")),
        ));
    let input = CompactMacroInstanceExplorationInput::empty_for_pruned_child(&child, s("xchild"));
    assert_eq!(input.candidates().name, "xchild");
    assert!(input.candidates().points.is_empty());
    assert!(input.filters().is_empty());
    assert_eq!(input.interface_ports(), &[s("OUT")]);
}

#[test]
fn primitive_defaults_are_found_by_instance_path() {
    let filter = CandidateFilter::at_least(s("x1.width"), 1.0f64.to_bits()).unwrap();
    let default = MacroPrimitiveDefault::new(
        s("x1"),
        PrimitiveBuildInput::new(vec![(s("current"), PrimitiveBuildValue::Scalar(1.0f64.to_bits()))]),
        vec![filter],
    );
    let macro_ = macro_with_specification().with_primitive_default(default);
    let found = macro_.exploration().primitive_default("x1").unwrap();
    assert_eq!(found.instance_path(), "x1");
    assert_eq!(found.filters().len(), 1);
    assert_eq!(
        found.build_input().value("current"),
        Some(&PrimitiveBuildValue::Scalar(1.0f64.to_bits()))
    );
    assert!(macro_.exploration().primitive_default("x2").is_none());
    assert_eq!(macro_.exploration().primitive_defaults().len(), 1);
}

fn scalar(value: f64) -> PrimitiveBuildValue {
    PrimitiveBuildValue::Scalar(value.to_bits())
}

fn macro_with_defaults_and_design_variable() -> Macro {
    let default_input = |current: f64| {
        PrimitiveBuildInput::new(vec![
            (s("current"), scalar(current)),
            (
                s("vout"),
                PrimitiveBuildValue::Vector(vec![0.5f64.to_bits(), 1.0f64.to_bits()]),
            ),
        ])
    };
    Macro::new(
        s("defaults"),
        Vec::new(),
        Circuit::builder()
            .primitive(s("x1"), s("device"), vec![(s("OUT"), s("N1"))])
            .primitive(s("x2"), s("device"), vec![(s("OUT"), s("N2"))])
            .build(),
        Circuit::builder()
            .resistor(s("r"), s("N1"), s("0"), CircuitValue::Constant(1.0f64.to_bits()))
            .build(),
    )
    .with_primitive_default(MacroPrimitiveDefault::new(
        s("x1"),
        default_input(1.0),
        vec![CandidateFilter::at_least(s("x1.width"), 1.0f64.to_bits()).unwrap()],
    ))
    .with_primitive_default(MacroPrimitiveDefault::new(s("x2"), default_input(1.0), Vec::new()))
    .with_design_variable(MacroDesignVariable::new(
        s("current"),
        PrimitiveBuildInputKind::Scalar,
        vec![
            MacroDesignVariableBinding::new(s("x1"), s("current")),
            MacroDesignVariableBinding::new(s("x2"), s("current")),
        ],
    ))
}

#[test]
fn resolves_defaults_design_variables_and_direct_overrides_by_precedence() {
    let macro_ = macro_with_defaults_and_design_variable();
    let mut input: MacroExplorationInput<(), ()> = MacroExplorationInput::new();
    input
        .register_design_variable_override(s("current"), scalar(2.0))
        .unwrap();
    input
        .register_design_variable_condition(
            s("current"),
            MacroDesignVariableCondition::range(Some(1.0f64.to_bits()), Some(4.0f64.to_bits())),
        )
        .unwrap();
    input
        .register_primitive_instance(
            s("x1"),
            PrimitiveInstanceExplorationInput::new(
                PrimitiveBuildInput::new(vec![(s("current"), scalar(3.0))]),
                vec![CandidateFilter::at_most(s("x1.width"), 10.0f64.to_bits()).unwrap()],
            ),
        )
        .unwrap();

    input.resolve_primitive_defaults(&macro_);

    let x1 = input.primitive_instance("x1").unwrap();
    let x2 = input.primitive_instance("x2").unwrap();
    assert_eq!(x1.build_input().value("current"), Some(&scalar(3.0)));
    assert_eq!(x2.build_input().value("current"), Some(&scalar(2.0)));
    assert_eq!(
        x1.build_input().value("vout"),
        Some(&PrimitiveBuildValue::Vector(vec![0.5f64.to_bits(), 1.0f64.to_bits()]))
    );
    assert_eq!(x1.filters().len(), 2);
    assert_eq!(x1.prebuild_conditions().get("current").unwrap().len(), 1);
    assert_eq!(x2.prebuild_conditions().get("current").unwrap().len(), 1);
}

#[test]
fn runtime_only_instances_are_resolved_without_defaults() {
    let macro_ = macro_with_defaults_and_design_variable();
    let mut input: MacroExplorationInput<(), ()> = MacroExplorationInput::new();
    input
        .register_primitive_instance(
            s("x3"),
            PrimitiveInstanceExplorationInput::new(
                PrimitiveBuildInput::new(vec![(s("bias"), scalar(0.5))]),
                Vec::new(),
            ),
        )
        .unwrap();
    input.resolve_primitive_defaults(&macro_);

    let x3 = input.primitive_instance("x3").unwrap();
    assert_eq!(x3.build_input().value("bias"), Some(&scalar(0.5)));
    assert_eq!(x3.build_input().value("current"), None);
    assert!(x3.prebuild_conditions().is_empty());
    let x2 = input.primitive_instance("x2").unwrap();
    assert_eq!(x2.build_input().value("current"), Some(&scalar(1.0)));
    assert!(x2.filters().is_empty());
}
