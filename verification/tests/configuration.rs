use shapeic_core::circuit::Circuit;
use shapeic_core::macro_model::catalog::MacroCatalog;
use shapeic_core::macro_model::configuration::{
    derivation_shapes_are_compatible, derivation_target_name, validate_macro_derivation_targets,
    MacroExplorationDefinitionError,
};
use shapeic_core::macro_model::model::{
    Macro, MacroDerivationReduction, MacroDerivationRule, MacroDerivationTarget,
    MacroDesignVariable, MacroDesignVariableBinding, MacroSpecification,
    MacroSpecificationBounds, MacroSpecificationSource,
};
use shapeic_core::primitive::PrimitiveBuildInputKind;

fn target(kind: usize, name: &str) -> MacroDerivationTarget {
    let name = name.to_owned();
    match kind {
        0 => MacroDerivationTarget::specification_minimum(name),
        1 => MacroDerivationTarget::specification_maximum(name),
        2 => MacroDerivationTarget::specification_range(name),
        3 => MacroDerivationTarget::design_variable_range(name),
        _ => MacroDerivationTarget::design_variable_allowed_values(name),
    }
}

#[test]
fn accepts_only_shape_compatible_reduction_targets() {
    let reductions = [
        MacroDerivationReduction::Minimum,
        MacroDerivationReduction::Maximum,
        MacroDerivationReduction::Range,
        MacroDerivationReduction::UniqueValues,
    ];
    let targets = [
        MacroDerivationTarget::specification_minimum("x".to_owned()),
        MacroDerivationTarget::specification_maximum("x".to_owned()),
        MacroDerivationTarget::specification_range("x".to_owned()),
        MacroDerivationTarget::design_variable_range("x".to_owned()),
        MacroDerivationTarget::design_variable_allowed_values("x".to_owned()),
    ];
    let compatible = reductions
        .into_iter()
        .flat_map(|reduction| {
            targets
                .iter()
                .map(move |target| derivation_shapes_are_compatible(reduction, target))
        })
        .filter(|compatible| *compatible)
        .count();

    assert_eq!(compatible, 7);
    assert!(derivation_shapes_are_compatible(
        MacroDerivationReduction::Maximum,
        &MacroDerivationTarget::specification_minimum("x".to_owned()),
    ));
    assert!(!derivation_shapes_are_compatible(
        MacroDerivationReduction::UniqueValues,
        &MacroDerivationTarget::design_variable_range("x".to_owned()),
    ));
}

#[test]
fn names_the_target_of_every_shape() {
    for kind in 0..5 {
        assert_eq!(derivation_target_name(&target(kind, "gain")), "gain");
    }
}

fn child() -> Macro {
    Macro::new(
        "child".to_owned(),
        Vec::new(),
        Circuit::default(),
        Circuit::default(),
    )
    .with_specification(MacroSpecification::new(
        "gain".to_owned(),
        MacroSpecificationSource::expression("1".to_owned()),
        MacroSpecificationBounds::unbounded(),
    ))
    .with_design_variable(MacroDesignVariable::new(
        "biases".to_owned(),
        PrimitiveBuildInputKind::Vector,
        vec![MacroDesignVariableBinding::new(
            "x1".to_owned(),
            "current".to_owned(),
        )],
    ))
}

fn parent(rules: Vec<(&str, MacroDerivationReduction, MacroDerivationTarget)>) -> Macro {
    let mut parent = Macro::new(
        "parent".to_owned(),
        Vec::new(),
        Circuit::builder()
            .macro_instance("xchild".to_owned(), "child".to_owned(), Vec::new())
            .macro_instance("xother".to_owned(), "other".to_owned(), Vec::new())
            .primitive("xprim".to_owned(), "device".to_owned(), Vec::new())
            .build(),
        Circuit::default(),
    );
    for (instance, reduction, target) in rules {
        parent = parent.with_derivation_rule(MacroDerivationRule::new(
            instance.to_owned(),
            "vout".to_owned(),
            reduction,
            target,
        ));
    }
    parent
}

#[test]
fn resolves_derivation_targets_against_child_definitions() {
    let catalog = MacroCatalog::from_macros(vec![child()]).unwrap();
    let valid = parent(vec![
        (
            "xchild",
            MacroDerivationReduction::Minimum,
            MacroDerivationTarget::specification_minimum("gain".to_owned()),
        ),
        (
            "xchild",
            MacroDerivationReduction::UniqueValues,
            MacroDerivationTarget::design_variable_allowed_values("biases".to_owned()),
        ),
    ]);
    assert!(validate_macro_derivation_targets(&valid, &catalog).is_empty());

    let invalid = parent(vec![
        (
            "xchild",
            MacroDerivationReduction::Range,
            MacroDerivationTarget::specification_range("bandwidth".to_owned()),
        ),
        (
            "missing",
            MacroDerivationReduction::Range,
            MacroDerivationTarget::specification_range("gain".to_owned()),
        ),
        (
            "xprim",
            MacroDerivationReduction::Range,
            MacroDerivationTarget::specification_range("gain".to_owned()),
        ),
        (
            "xother",
            MacroDerivationReduction::Range,
            MacroDerivationTarget::design_variable_range("biases".to_owned()),
        ),
        (
            "xchild",
            MacroDerivationReduction::Range,
            MacroDerivationTarget::design_variable_range("width".to_owned()),
        ),
    ]);
    assert_eq!(
        validate_macro_derivation_targets(&invalid, &catalog),
        vec![
            MacroExplorationDefinitionError::UnknownDerivedSpecification {
                rule_index: 0,
                child_macro: "child".to_owned(),
                specification: "bandwidth".to_owned(),
            },
            MacroExplorationDefinitionError::UnknownDerivationChildMacro {
                rule_index: 3,
                child_macro: "other".to_owned(),
            },
            MacroExplorationDefinitionError::UnknownDerivedDesignVariable {
                rule_index: 4,
                child_macro: "child".to_owned(),
                variable: "width".to_owned(),
            },
        ]
    );
}
