use shapeic_core::circuit::{Circuit, CircuitValue};
use shapeic_core::macro_model::catalog::MacroCatalog;
use shapeic_core::macro_model::configuration::{
    validate_macro_derivation_targets, MacroExplorationDefinitionError,
};
use shapeic_core::macro_model::definition::validate_macro_exploration_definition;
use shapeic_core::macro_model::model::{
    Macro, MacroDerivationReduction, MacroDerivationRule, MacroDerivationTarget,
    MacroDesignVariable, MacroDesignVariableBinding, MacroPrimitiveDefault, MacroSpecification,
    MacroSpecificationBounds, MacroSpecificationSource,
};
use shapeic_core::primitive::{
    PrimitiveBuildInput, PrimitiveBuildInputKind, PrimitiveBuildInputSpec, PrimitiveBuildSpec,
    PrimitiveBuildValue, PrimitiveCatalog, PrimitiveManifest, SweepMode,
};

fn s(text: &str) -> String {
    text.to_owned()
}

fn scalar(value: f64) -> PrimitiveBuildValue {
    PrimitiveBuildValue::Scalar(value.to_bits())
}

fn primitive_catalog() -> PrimitiveCatalog {
    PrimitiveCatalog {
        primitives: vec![PrimitiveManifest {
            name: s("device"),
            transistor_type: Some(s("nmos")),
            build: Some(PrimitiveBuildSpec {
                inputs: vec![PrimitiveBuildInputSpec {
                    name: s("current"),
                    kind: PrimitiveBuildInputKind::Scalar,
                    required: true,
                    source: None,
                }],
                sweep_mode: SweepMode::Aligned,
            }),
        }],
    }
}

fn stage() -> Macro {
    Macro::new(
        s("stage"),
        Vec::new(),
        Circuit::builder()
            .primitive(s("x1"), s("device"), vec![(s("OUT"), s("OUT"))])
            .build(),
        Circuit::builder()
            .resistor(s("r"), s("OUT"), s("0"), CircuitValue::Constant(1.0f64.to_bits()))
            .build(),
    )
}

#[test]
fn validates_defaults_and_public_variable_bindings() {
    let valid = stage()
        .with_primitive_default(MacroPrimitiveDefault::new(
            s("x1"),
            PrimitiveBuildInput::new(vec![(s("current"), scalar(1.0))]),
            Vec::new(),
        ))
        .with_design_variable(MacroDesignVariable::new(
            s("current"),
            PrimitiveBuildInputKind::Scalar,
            vec![MacroDesignVariableBinding::new(s("x1"), s("current"))],
        ));
    assert!(validate_macro_exploration_definition(&valid, &primitive_catalog()).is_empty());

    let invalid = stage()
        .with_primitive_default(MacroPrimitiveDefault::new(
            s("x1"),
            PrimitiveBuildInput::new(vec![(s("missing"), scalar(1.0))]),
            Vec::new(),
        ))
        .with_design_variable(MacroDesignVariable::new(
            s("bad"),
            PrimitiveBuildInputKind::Vector,
            vec![
                MacroDesignVariableBinding::new(s("x1"), s("current")),
                MacroDesignVariableBinding::new(s("x1"), s("current")),
            ],
        ));
    let errors = validate_macro_exploration_definition(&invalid, &primitive_catalog());
    assert!(errors.iter().any(|error| matches!(
        error,
        MacroExplorationDefinitionError::UnknownPrimitiveDefaultInput { input, .. }
            if input == "missing"
    )));
    assert!(errors.iter().any(|error| matches!(
        error,
        MacroExplorationDefinitionError::DesignVariableInputKindMismatch { .. }
    )));
    assert!(errors.iter().any(|error| matches!(
        error,
        MacroExplorationDefinitionError::DuplicateDesignVariableBinding { .. }
    )));
}

#[test]
fn validates_derivation_shapes_and_resolves_public_child_targets() {
    let child = Macro::new(
        s("child"),
        Vec::new(),
        Circuit::default(),
        Circuit::builder()
            .resistor(s("r"), s("OUT"), s("0"), CircuitValue::Constant(1.0f64.to_bits()))
            .build(),
    )
    .with_specification(MacroSpecification::new(
        s("gain"),
        MacroSpecificationSource::expression(s("1")),
        MacroSpecificationBounds::unbounded(),
    ))
    .with_design_variable(MacroDesignVariable::new(
        s("biases"),
        PrimitiveBuildInputKind::Vector,
        vec![MacroDesignVariableBinding::new(s("x1"), s("current"))],
    ));
    let parent = Macro::new(
        s("parent"),
        Vec::new(),
        Circuit::builder()
            .macro_instance(s("xchild"), s("child"), Vec::new())
            .build(),
        Circuit::builder()
            .resistor(s("r"), s("OUT"), s("0"), CircuitValue::Constant(1.0f64.to_bits()))
            .build(),
    )
    .with_derivation_rule(MacroDerivationRule::new(
        s("xchild"),
        s("parent_gain / 2"),
        MacroDerivationReduction::Minimum,
        MacroDerivationTarget::specification_minimum(s("gain")),
    ))
    .with_derivation_rule(MacroDerivationRule::new(
        s("xchild"),
        s("vout"),
        MacroDerivationReduction::UniqueValues,
        MacroDerivationTarget::design_variable_allowed_values(s("biases")),
    ));
    let catalog = MacroCatalog::from_macros(vec![child]).unwrap();

    assert!(validate_macro_exploration_definition(&parent, &primitive_catalog()).is_empty());
    assert!(validate_macro_derivation_targets(&parent, &catalog).is_empty());

    let invalid = parent.with_derivation_rule(MacroDerivationRule::new(
        s("xchild"),
        s("vout"),
        MacroDerivationReduction::UniqueValues,
        MacroDerivationTarget::specification_range(s("gain")),
    ));
    assert!(validate_macro_exploration_definition(&invalid, &primitive_catalog())
        .iter()
        .any(|error| matches!(
            error,
            MacroExplorationDefinitionError::IncompatibleDerivationTarget { rule_index: 2 }
        )));
}

#[test]
fn reports_every_definition_fault_in_order() {
    let macro_ = Macro::new(
        s("amp"),
        Vec::new(),
        Circuit::builder()
            .primitive(s("x1"), s("device"), vec![(s("OUT"), s("OUT"))])
            .macro_instance(s("xsub"), s("sub"), Vec::new())
            .build(),
        Circuit::default(),
    )
    .with_primitive_default(MacroPrimitiveDefault::new(
        s(" "),
        PrimitiveBuildInput::default(),
        Vec::new(),
    ))
    .with_primitive_default(MacroPrimitiveDefault::new(
        s("x1"),
        PrimitiveBuildInput::new(vec![(
            s("current"),
            PrimitiveBuildValue::Vector(vec![f64::NAN.to_bits()]),
        )]),
        Vec::new(),
    ))
    .with_primitive_default(MacroPrimitiveDefault::new(
        s("x1"),
        PrimitiveBuildInput::default(),
        Vec::new(),
    ))
    .with_primitive_default(MacroPrimitiveDefault::new(
        s("xsub"),
        PrimitiveBuildInput::default(),
        Vec::new(),
    ))
    .with_primitive_default(MacroPrimitiveDefault::new(
        s("ghost"),
        PrimitiveBuildInput::default(),
        Vec::new(),
    ))
    .with_design_variable(MacroDesignVariable::new(
        s(""),
        PrimitiveBuildInputKind::Scalar,
        Vec::new(),
    ))
    .with_design_variable(MacroDesignVariable::new(
        s("bias"),
        PrimitiveBuildInputKind::Scalar,
        vec![
            MacroDesignVariableBinding::new(s(""), s("current")),
            MacroDesignVariableBinding::new(s("x1"), s("")),
            MacroDesignVariableBinding::new(s("ghost"), s("current")),
            MacroDesignVariableBinding::new(s("xsub"), s("current")),
            MacroDesignVariableBinding::new(s("x1"), s("width")),
        ],
    ))
    .with_design_variable(MacroDesignVariable::new(
        s("bias"),
        PrimitiveBuildInputKind::Scalar,
        vec![MacroDesignVariableBinding::new(s("ghost"), s("current"))],
    ))
    .with_derivation_rule(MacroDerivationRule::new(
        s(""),
        s(" "),
        MacroDerivationReduction::Minimum,
        MacroDerivationTarget::specification_minimum(s("")),
    ))
    .with_derivation_rule(MacroDerivationRule::new(
        s("x1"),
        s("1"),
        MacroDerivationReduction::Range,
        MacroDerivationTarget::specification_range(s("gain")),
    ))
    .with_derivation_rule(MacroDerivationRule::new(
        s("missing"),
        s("1"),
        MacroDerivationReduction::Range,
        MacroDerivationTarget::design_variable_allowed_values(s("bias")),
    ));

    let errors = validate_macro_exploration_definition(&macro_, &primitive_catalog());

    assert_eq!(
        errors,
        vec![
            MacroExplorationDefinitionError::EmptyPrimitiveDefaultInstance { index: 0 },
            MacroExplorationDefinitionError::PrimitiveDefaultInputKindMismatch {
                instance_path: s("x1"),
                input: s("current"),
                expected: PrimitiveBuildInputKind::Scalar,
                actual: PrimitiveBuildInputKind::Vector,
            },
            MacroExplorationDefinitionError::NonFinitePrimitiveDefaultInput {
                instance_path: s("x1"),
                input: s("current"),
            },
            MacroExplorationDefinitionError::DuplicatePrimitiveDefault { instance_path: s("x1") },
            MacroExplorationDefinitionError::PrimitiveDefaultTargetsNonPrimitive {
                instance_path: s("xsub"),
            },
            MacroExplorationDefinitionError::UnknownPrimitiveDefaultInstance {
                instance_path: s("ghost"),
            },
            MacroExplorationDefinitionError::EmptyDesignVariable { index: 0 },
            MacroExplorationDefinitionError::EmptyDesignVariableBindings { variable: s("") },
            MacroExplorationDefinitionError::EmptyDesignVariableBinding {
                variable: s("bias"),
                binding_index: 0,
                field: "instance path",
            },
            MacroExplorationDefinitionError::EmptyDesignVariableBinding {
                variable: s("bias"),
                binding_index: 1,
                field: "input name",
            },
            MacroExplorationDefinitionError::UnknownDesignVariableInstance {
                variable: s("bias"),
                instance_path: s("ghost"),
            },
            MacroExplorationDefinitionError::DesignVariableTargetsNonPrimitive {
                variable: s("bias"),
                instance_path: s("xsub"),
            },
            MacroExplorationDefinitionError::UnknownDesignVariableInput {
                variable: s("bias"),
                instance_path: s("x1"),
                input: s("width"),
            },
            MacroExplorationDefinitionError::DuplicateDesignVariable { variable: s("bias") },
            MacroExplorationDefinitionError::DuplicateDesignVariableBinding {
                instance_path: s("ghost"),
                input: s("current"),
            },
            MacroExplorationDefinitionError::EmptyDerivationChild { rule_index: 0 },
            MacroExplorationDefinitionError::EmptyDerivationExpression { rule_index: 0 },
            MacroExplorationDefinitionError::EmptyDerivationTarget { rule_index: 0 },
            MacroExplorationDefinitionError::DerivationTargetsNonMacro {
                rule_index: 1,
                child_instance: s("x1"),
            },
            MacroExplorationDefinitionError::UnknownDerivationChild {
                rule_index: 2,
                child_instance: s("missing"),
            },
            MacroExplorationDefinitionError::IncompatibleDerivationTarget { rule_index: 2 },
        ]
    );
}

#[test]
fn definition_errors_read_as_sentences() {
    assert_eq!(
        MacroExplorationDefinitionError::EmptyPrimitiveDefaultInstance { index: 12 }.to_string(),
        "primitive default at index 12 has an empty instance path"
    );
    assert_eq!(
        MacroExplorationDefinitionError::EmptyDesignVariableBinding {
            variable: s("bias"),
            binding_index: 3,
            field: "input name",
        }
        .to_string(),
        "design variable 'bias' binding 3 has an empty input name"
    );
    assert_eq!(
        MacroExplorationDefinitionError::DesignVariableInputKindMismatch {
            variable: s("bias"),
            instance_path: s("x1"),
            input: s("current"),
            expected: PrimitiveBuildInputKind::Scalar,
            actual: PrimitiveBuildInputKind::Vector,
        }
        .to_string(),
        "design variable 'bias' declares vector, but 'x1.current' expects scalar"
    );
    assert_eq!(
        MacroExplorationDefinitionError::UnknownDerivedSpecification {
            rule_index: 0,
            child_macro: s("child"),
            specification: s("gain"),
        }
        .to_string(),
        "derivation rule 0 targets unknown specification 'gain' in child macro 'child'"
    );
}
