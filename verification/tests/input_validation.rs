use shapeic_core::analysis::{
    AcMetricSet, AdaptiveAcConfig, AdaptiveAcPolicy, AnalysisMode, AnalysisTargets,
};
use shapeic_core::circuit::{Circuit, CircuitValue};
use shapeic_core::exploration::candidate::{CandidatePoint, CandidateSet};
use shapeic_core::exploration::filter::CandidateFilter;
use shapeic_core::macro_model::input::{
    CompactMacroInstanceExplorationInput, MacroExplorationInput,
    MacroExplorationInputValidationError, MacroExplorationInstanceKind,
    PrimitiveInstanceExplorationInput,
};
use shapeic_core::macro_model::input_validation::validate_macro_exploration_input;
use shapeic_core::macro_model::model::{
    Macro, MacroAcTestbench, MacroAnalysisDomain, MacroDesignVariable, MacroDesignVariableBinding,
    MacroDesignVariableCondition, MacroPrimitiveDefault, MacroSpecification,
    MacroSpecificationBounds, MacroSpecificationSource,
};
use shapeic_core::primitive::{
    PrimitiveBuildInput, PrimitiveBuildInputKind, PrimitiveBuildInputSpec, PrimitiveBuildSpec,
    PrimitiveBuildValue, PrimitiveCatalog, PrimitiveManifest, SweepMode,
};
use shapeic_core::testbench::{AcAnalysis, TransferFunction};

fn s(text: &str) -> String {
    text.to_owned()
}

fn bits(value: f64) -> u64 {
    value.to_bits()
}

fn scalar(value: f64) -> PrimitiveBuildValue {
    PrimitiveBuildValue::Scalar(bits(value))
}

fn between(minimum: f64, maximum: f64) -> MacroSpecificationBounds {
    MacroSpecificationBounds::between(bits(minimum), bits(maximum))
}

fn primitive(name: &str, device_type: Option<&str>) -> PrimitiveManifest {
    PrimitiveManifest {
        name: s(name),
        transistor_type: device_type.map(s),
        build: None,
    }
}

fn catalog(primitives: Vec<PrimitiveManifest>) -> PrimitiveCatalog {
    PrimitiveCatalog { primitives }
}

fn input_spec(name: &str, kind: PrimitiveBuildInputKind, required: bool) -> PrimitiveBuildInputSpec {
    PrimitiveBuildInputSpec {
        name: s(name),
        kind,
        required,
        source: None,
    }
}

fn macro_with_primitive_and_submacro() -> Macro {
    Macro::new(
        s("ota"),
        Vec::new(),
        Circuit::builder()
            .primitive(s("xdp"), s("diffpair"), vec![(s("OUT"), s("VOUT"))])
            .macro_instance(s("xload"), s("active_load"), vec![(s("OUT"), s("VOUT"))])
            .resistor(s("rout"), s("VOUT"), s("0"), CircuitValue::Constant(bits(1.0e6)))
            .build(),
        Circuit::builder()
            .resistor(s("rout"), s("VOUT"), s("0"), CircuitValue::Constant(bits(1.0e6)))
            .build(),
    )
}

fn ac_analysis() -> AcAnalysis {
    AcAnalysis::new(
        TransferFunction::new(s("VIN"), s("VOUT")),
        AdaptiveAcConfig {
            min_frequency_hz: bits(1.0),
            max_frequency_hz: bits(1.0e6),
            coarse_points_per_decade: 4,
            crossing_relative_tolerance: bits(1.0e-3),
            max_refinement_steps: 16,
            retain_samples: false,
        },
        AdaptiveAcPolicy {
            mode: AnalysisMode::Prune,
            targets: AnalysisTargets::none(),
            metrics: AcMetricSet::all(),
        },
    )
}

fn one_candidate(name: &str) -> CandidateSet {
    CandidateSet::new(
        s(name),
        vec![CandidatePoint::new(vec![(s("gm"), bits(1.0e-3))])],
    )
}

fn macro_with_defaults_and_design_variable() -> Macro {
    let default_input = |current: f64| {
        PrimitiveBuildInput::new(vec![
            (s("current"), scalar(current)),
            (s("vout"), PrimitiveBuildValue::Vector(vec![bits(0.5), bits(1.0)])),
        ])
    };
    Macro::new(
        s("defaults"),
        Vec::new(),
        Circuit::builder()
            .primitive(s("x1"), s("device"), vec![(s("OUT"), s("N1"))])
            .primitive(s("x2"), s("device"), vec![(s("OUT"), s("N2"))])
            .build(),
        Circuit::builder()
            .resistor(s("r"), s("N1"), s("0"), CircuitValue::Constant(bits(1.0)))
            .build(),
    )
    .with_primitive_default(MacroPrimitiveDefault::new(
        s("x1"),
        default_input(1.0),
        vec![CandidateFilter::at_least(s("x1.width"), bits(1.0)).unwrap()],
    ))
    .with_primitive_default(MacroPrimitiveDefault::new(s("x2"), default_input(1.0), Vec::new()))
    .with_design_variable(MacroDesignVariable::new(
        s("current"),
        PrimitiveBuildInputKind::Scalar,
        vec![
            MacroDesignVariableBinding::new(s("x1"), s("current")),
            MacroDesignVariableBinding::new(s("x2"), s("current")),
        ],
    ))
}

fn macro_with_specification() -> Macro {
    Macro::new(
        s("amp"),
        Vec::new(),
        Circuit::builder()
            .primitive(s("x1"), s("device"), vec![(s("OUT"), s("N1"))])
            .build(),
        Circuit::builder()
            .resistor(s("r"), s("N1"), s("0"), CircuitValue::Constant(bits(1.0)))
            .build(),
    )
    .with_specification(MacroSpecification::new(
        s("gain"),
        MacroSpecificationSource::expression(s("1")),
        between(0.0, 100.0),
    ))
}

#[test]
fn requires_a_physical_lut_for_layout_aware_testbenches() {
    let macro_ = macro_with_primitive_and_submacro().with_ac_testbench(
        MacroAcTestbench::from_spice(s("layout"), s(""), ac_analysis())
            .with_domain(MacroAnalysisDomain::LayoutAware),
    );
    let input: MacroExplorationInput<(), ()> = MacroExplorationInput::new();
    let errors = validate_macro_exploration_input(&macro_, &catalog(Vec::new()), &input);

    assert!(errors.contains(&MacroExplorationInputValidationError::MissingPhysicalLut {
        macro_name: s("ota"),
        testbench: s("layout"),
    }));
}

#[test]
fn electrical_testbenches_need_no_physical_lut() {
    let macro_ = macro_with_primitive_and_submacro().with_ac_testbench(MacroAcTestbench::from_spice(
        s("electrical"),
        s(""),
        ac_analysis(),
    ));
    let input: MacroExplorationInput<(), ()> = MacroExplorationInput::new();
    let errors = validate_macro_exploration_input(&macro_, &catalog(Vec::new()), &input);

    assert!(!errors
        .iter()
        .any(|error| matches!(error, MacroExplorationInputValidationError::MissingPhysicalLut { .. })));
}

#[test]
fn accepts_a_complete_input_for_the_implementation_circuit() {
    let nmos = s("fixture_nmos");
    let macro_ = macro_with_primitive_and_submacro();
    let primitives = catalog(vec![primitive("diffpair", Some("nmos"))]);
    let mut input: MacroExplorationInput<&String, ()> = MacroExplorationInput::new();
    input.register_device_model(s("nmos"), &nmos).unwrap();
    input
        .register_primitive_instance(
            s("xdp"),
            PrimitiveInstanceExplorationInput::new(PrimitiveBuildInput::default(), Vec::new()),
        )
        .unwrap();
    input
        .register_compact_macro_instance(
            s("xload"),
            CompactMacroInstanceExplorationInput::new(one_candidate("active_load"), Vec::new()),
        )
        .unwrap();

    assert!(validate_macro_exploration_input(&macro_, &primitives, &input).is_empty());
}

#[test]
fn reports_all_missing_unknown_and_mistyped_instance_inputs() {
    let macro_ = macro_with_primitive_and_submacro();
    let primitives = catalog(vec![primitive("diffpair", Some("nmos"))]);
    let mut input: MacroExplorationInput<&String, ()> = MacroExplorationInput::new();
    input
        .register_compact_macro_instance(
            s("xdp"),
            CompactMacroInstanceExplorationInput::new(one_candidate("wrong"), Vec::new()),
        )
        .unwrap();
    input
        .register_primitive_instance(
            s("ghost"),
            PrimitiveInstanceExplorationInput::new(PrimitiveBuildInput::default(), Vec::new()),
        )
        .unwrap();

    let errors = validate_macro_exploration_input(&macro_, &primitives, &input);

    assert!(errors.contains(&MacroExplorationInputValidationError::InstanceKindMismatch {
        macro_name: s("ota"),
        instance_path: s("xdp"),
        expected: MacroExplorationInstanceKind::CompactMacro,
        actual: MacroExplorationInstanceKind::Primitive,
    }));
    assert!(errors.contains(&MacroExplorationInputValidationError::UnknownInstance {
        macro_name: s("ota"),
        instance_path: s("ghost"),
    }));
    assert!(errors.contains(&MacroExplorationInputValidationError::MissingPrimitiveInput {
        macro_name: s("ota"),
        instance_path: s("xdp"),
        primitive: s("diffpair"),
    }));
    assert!(errors.contains(&MacroExplorationInputValidationError::MissingDeviceModel {
        macro_name: s("ota"),
        instance_path: s("xdp"),
        primitive: s("diffpair"),
        device_type: s("nmos"),
    }));
    assert!(errors.contains(&MacroExplorationInputValidationError::MissingCompactMacroInput {
        macro_name: s("ota"),
        instance_path: s("xload"),
        referenced_macro: s("active_load"),
    }));
}

#[test]
fn validates_runtime_variable_and_primitive_input_types() {
    let macro_ = macro_with_defaults_and_design_variable();
    let mut device = primitive("device", Some("nmos"));
    device.build = Some(PrimitiveBuildSpec {
        inputs: vec![
            input_spec("current", PrimitiveBuildInputKind::Scalar, true),
            input_spec("vout", PrimitiveBuildInputKind::Vector, true),
        ],
        sweep_mode: SweepMode::Cartesian,
    });
    let primitives = catalog(vec![device]);
    let mut input: MacroExplorationInput<&String, ()> = MacroExplorationInput::new();
    input
        .register_design_variable_override(s("current"), PrimitiveBuildValue::Vector(vec![bits(1.0)]))
        .unwrap();
    input
        .register_design_variable_condition(
            s("current"),
            MacroDesignVariableCondition::range(Some(f64::NAN.to_bits()), None),
        )
        .unwrap();

    let errors = validate_macro_exploration_input(&macro_, &primitives, &input);

    assert!(errors.iter().any(|error| matches!(
        error,
        MacroExplorationInputValidationError::DesignVariableKindMismatch { variable, .. }
            if variable == "current"
    )));
    assert!(errors.iter().any(|error| matches!(
        error,
        MacroExplorationInputValidationError::InvalidDesignVariableCondition { variable, .. }
            if variable == "current"
    )));
}

#[test]
fn reports_every_fault_of_a_primitive_build_input_in_order() {
    let macro_ = macro_with_primitive_and_submacro();
    let mut diffpair = primitive("diffpair", Some("nmos"));
    diffpair.build = Some(PrimitiveBuildSpec {
        inputs: vec![
            input_spec("w", PrimitiveBuildInputKind::Scalar, true),
            input_spec("l", PrimitiveBuildInputKind::Vector, true),
            input_spec("m", PrimitiveBuildInputKind::Scalar, false),
        ],
        sweep_mode: SweepMode::Cartesian,
    });
    let primitives = catalog(vec![diffpair]);
    let mut input: MacroExplorationInput<&String, ()> = MacroExplorationInput::new();
    input
        .register_primitive_instance(
            s("xdp"),
            PrimitiveInstanceExplorationInput::new(
                PrimitiveBuildInput::new(vec![
                    (s("w"), PrimitiveBuildValue::Vector(vec![bits(1.0), f64::INFINITY.to_bits()])),
                    (s("bogus"), PrimitiveBuildValue::Scalar(f64::NAN.to_bits())),
                ]),
                Vec::new(),
            ),
        )
        .unwrap();

    let errors = validate_macro_exploration_input(&macro_, &primitives, &input);

    assert_eq!(
        errors,
        vec![
            MacroExplorationInputValidationError::MissingDeviceModel {
                macro_name: s("ota"),
                instance_path: s("xdp"),
                primitive: s("diffpair"),
                device_type: s("nmos"),
            },
            MacroExplorationInputValidationError::UnknownPrimitiveInput {
                macro_name: s("ota"),
                instance_path: s("xdp"),
                primitive: s("diffpair"),
                input: s("bogus"),
            },
            MacroExplorationInputValidationError::PrimitiveInputKindMismatch {
                macro_name: s("ota"),
                instance_path: s("xdp"),
                primitive: s("diffpair"),
                input: s("w"),
                expected: PrimitiveBuildInputKind::Scalar,
                actual: PrimitiveBuildInputKind::Vector,
            },
            MacroExplorationInputValidationError::NonFinitePrimitiveInput {
                macro_name: s("ota"),
                instance_path: s("xdp"),
                primitive: s("diffpair"),
                input: s("w"),
            },
            MacroExplorationInputValidationError::MissingRequiredPrimitiveInput {
                macro_name: s("ota"),
                instance_path: s("xdp"),
                primitive: s("diffpair"),
                input: s("l"),
            },
            MacroExplorationInputValidationError::MissingCompactMacroInput {
                macro_name: s("ota"),
                instance_path: s("xload"),
                referenced_macro: s("active_load"),
            },
        ]
    );
}

#[test]
fn reports_unknown_primitives_and_blank_device_types() {
    let macro_ = Macro::new(
        s("pair"),
        Vec::new(),
        Circuit::builder()
            .primitive(s("xa"), s("missing"), vec![(s("OUT"), s("N1"))])
            .primitive(s("xb"), s("blank"), vec![(s("OUT"), s("N1"))])
            .build(),
        Circuit::builder()
            .resistor(s("r"), s("N1"), s("0"), CircuitValue::Constant(bits(1.0)))
            .build(),
    );
    let primitives = catalog(vec![primitive("blank", Some("  "))]);
    let input: MacroExplorationInput<&String, ()> = MacroExplorationInput::new();

    let errors = validate_macro_exploration_input(&macro_, &primitives, &input);

    assert_eq!(
        errors,
        vec![
            MacroExplorationInputValidationError::MissingPrimitiveInput {
                macro_name: s("pair"),
                instance_path: s("xa"),
                primitive: s("missing"),
            },
            MacroExplorationInputValidationError::UnknownPrimitive {
                macro_name: s("pair"),
                instance_path: s("xa"),
                primitive: s("missing"),
            },
            MacroExplorationInputValidationError::MissingPrimitiveInput {
                macro_name: s("pair"),
                instance_path: s("xb"),
                primitive: s("blank"),
            },
            MacroExplorationInputValidationError::MissingPrimitiveDeviceType {
                macro_name: s("pair"),
                instance_path: s("xb"),
                primitive: s("blank"),
            },
        ]
    );
}

#[test]
fn reports_an_unknown_design_variable_once() {
    let macro_ = macro_with_defaults_and_design_variable();
    let mut input: MacroExplorationInput<(), ()> = MacroExplorationInput::new();
    input
        .register_design_variable_override(s("bias"), PrimitiveBuildValue::Scalar(f64::NAN.to_bits()))
        .unwrap();
    input
        .register_design_variable_condition(
            s("bias"),
            MacroDesignVariableCondition::range(Some(bits(1.0)), None),
        )
        .unwrap();
    input
        .register_design_variable_condition(
            s("width"),
            MacroDesignVariableCondition::range(Some(bits(1.0)), None),
        )
        .unwrap();

    let errors = validate_macro_exploration_input(&macro_, &catalog(Vec::new()), &input);
    let unknown: Vec<&MacroExplorationInputValidationError> = errors
        .iter()
        .filter(|error| matches!(error, MacroExplorationInputValidationError::UnknownDesignVariable { .. }))
        .collect();

    assert_eq!(
        unknown,
        vec![
            &MacroExplorationInputValidationError::UnknownDesignVariable {
                macro_name: s("defaults"),
                variable: s("bias"),
            },
            &MacroExplorationInputValidationError::UnknownDesignVariable {
                macro_name: s("defaults"),
                variable: s("width"),
            },
        ]
    );
    assert!(!errors
        .iter()
        .any(|error| matches!(error, MacroExplorationInputValidationError::NonFiniteDesignVariable { .. })));
}

#[test]
fn reports_runtime_bound_faults_without_repeating_them() {
    let macro_ = macro_with_specification();
    let mut input: MacroExplorationInput<(), ()> = MacroExplorationInput::new();
    input
        .register_specification_override(s("gain"), between(50.0, 10.0))
        .unwrap();
    input
        .register_specification_override(s("loss"), between(0.0, 1.0))
        .unwrap();
    input
        .register_inherited_specification_bounds(s("gain"), between(20.0, 80.0))
        .unwrap();

    let errors = validate_macro_exploration_input(&macro_, &catalog(Vec::new()), &input);

    assert_eq!(
        errors,
        vec![
            MacroExplorationInputValidationError::InvalidSpecificationBounds {
                macro_name: s("amp"),
                specification: s("gain"),
            },
            MacroExplorationInputValidationError::UnknownSpecificationOverride {
                macro_name: s("amp"),
                specification: s("loss"),
            },
            MacroExplorationInputValidationError::MissingPrimitiveInput {
                macro_name: s("amp"),
                instance_path: s("x1"),
                primitive: s("device"),
            },
            MacroExplorationInputValidationError::UnknownPrimitive {
                macro_name: s("amp"),
                instance_path: s("x1"),
                primitive: s("device"),
            },
        ]
    );
}

#[test]
fn reports_contradictory_inherited_bounds() {
    let macro_ = macro_with_specification();
    let mut input: MacroExplorationInput<(), ()> = MacroExplorationInput::new();
    input
        .register_specification_override(s("gain"), between(0.0, 10.0))
        .unwrap();
    input
        .register_inherited_specification_bounds(s("gain"), between(20.0, 30.0))
        .unwrap();

    let errors = validate_macro_exploration_input(&macro_, &catalog(Vec::new()), &input);

    assert_eq!(
        errors[0],
        MacroExplorationInputValidationError::ConflictingSpecificationBounds {
            macro_name: s("amp"),
            specification: s("gain"),
        }
    );
    assert_eq!(errors.len(), 3);
}

#[test]
fn validation_sees_the_resolved_primitive_defaults() {
    let macro_ = macro_with_defaults_and_design_variable();
    let mut device = primitive("device", Some("nmos"));
    device.build = Some(PrimitiveBuildSpec {
        inputs: vec![
            input_spec("current", PrimitiveBuildInputKind::Scalar, true),
            input_spec("vout", PrimitiveBuildInputKind::Vector, true),
        ],
        sweep_mode: SweepMode::Cartesian,
    });
    let primitives = catalog(vec![device]);
    let nmos = s("nmos model");
    let mut input: MacroExplorationInput<&String, ()> = MacroExplorationInput::new();
    input.register_device_model(s("nmos"), &nmos).unwrap();

    assert!(validate_macro_exploration_input(&macro_, &primitives, &input).is_empty());
}

#[test]
fn validation_errors_read_as_sentences() {
    assert_eq!(
        MacroExplorationInputValidationError::MissingPhysicalLut {
            macro_name: s("ota"),
            testbench: s("layout"),
        }
        .to_string(),
        "macro 'ota' layout-aware testbench 'layout' requires a physical LUT"
    );
    assert_eq!(
        MacroExplorationInputValidationError::InstanceKindMismatch {
            macro_name: s("ota"),
            instance_path: s("xdp"),
            expected: MacroExplorationInstanceKind::CompactMacro,
            actual: MacroExplorationInstanceKind::Primitive,
        }
        .to_string(),
        "macro 'ota' instance 'xdp' is a primitive, but its exploration input expects a compact macro"
    );
    assert_eq!(
        MacroExplorationInputValidationError::PrimitiveInputKindMismatch {
            macro_name: s("ota"),
            instance_path: s("xdp"),
            primitive: s("diffpair"),
            input: s("w"),
            expected: PrimitiveBuildInputKind::Scalar,
            actual: PrimitiveBuildInputKind::Vector,
        }
        .to_string(),
        "macro 'ota' instance 'xdp' primitive 'diffpair' input 'w' expects scalar, found vector"
    );
    assert_eq!(
        MacroExplorationInputValidationError::MissingDeviceModel {
            macro_name: s("ota"),
            instance_path: s("xdp"),
            primitive: s("diffpair"),
            device_type: s("nmos"),
        }
        .to_string(),
        "macro 'ota' instance 'xdp' primitive 'diffpair' requires missing device model 'nmos'"
    );
}
