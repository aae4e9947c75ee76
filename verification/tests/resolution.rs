use shapeic_core::macro_model::derivation::MacroDerivationReductionError;
use shapeic_core::macro_model::hierarchy::MacroDerivationPruneReason;
use shapeic_core::macro_model::model::{
    MacroDerivationReduction, MacroDerivationRule, MacroDerivationTarget, MacroDerivedValue,
    MacroDesignVariableCondition, MacroSpecificationBounds,
};
use shapeic_core::macro_model::resolution::{
    MacroDerivationResolutionError, MacroResolvedCondition, ResolvedChildConditions,
};

fn bits(values: &[f64]) -> Vec<u64> {
    values.iter().map(|value| value.to_bits()).collect()
}

fn bound(value: f64) -> u64 {
    value.to_bits()
}

fn rule(
    expression: &str,
    reduction: MacroDerivationReduction,
    target: MacroDerivationTarget,
) -> MacroDerivationRule {
    MacroDerivationRule::new("xchild".to_owned(), expression.to_owned(), reduction, target)
}

fn specification<'a>(
    resolved: &'a ResolvedChildConditions,
    name: &str,
) -> Option<&'a MacroSpecificationBounds> {
    resolved
        .specification_bounds()
        .iter()
        .find(|(key, _)| key == name)
        .map(|(_, bounds)| bounds)
}

fn condition<'a>(
    resolved: &'a ResolvedChildConditions,
    name: &str,
) -> Option<&'a MacroDesignVariableCondition> {
    resolved
        .design_variable_conditions()
        .iter()
        .find(|(key, _)| key == name)
        .map(|(_, condition)| condition)
}

#[test]
fn contradictory_derived_bounds_prune_the_child() {
    let mut resolved = ResolvedChildConditions::new();
    resolved.apply_specification("gain", MacroSpecificationBounds::at_least(bound(10.0)));
    let effective =
        resolved.apply_specification("gain", MacroSpecificationBounds::at_most(bound(5.0)));

    assert_eq!(
        effective,
        MacroResolvedCondition::Specification {
            name: "gain".to_owned(),
            bounds: None,
        }
    );
    assert_eq!(
        resolved.prune_reason(),
        Some(&MacroDerivationPruneReason::ConflictingSpecification {
            specification: "gain".to_owned()
        })
    );
    assert_eq!(
        specification(&resolved, "gain"),
        Some(&MacroSpecificationBounds::at_least(bound(10.0)))
    );
}

#[test]
fn records_rules_and_keeps_the_effective_intersection() {
    let mut resolved = ResolvedChildConditions::new();
    resolved
        .record_derivation(
            "parent",
            "xchild",
            0,
            &rule(
                "score + margin",
                MacroDerivationReduction::Minimum,
                MacroDerivationTarget::specification_minimum("gain".to_owned()),
            ),
            bits(&[3.0, 6.0]),
        )
        .unwrap();
    resolved
        .record_derivation(
            "parent",
            "xchild",
            1,
            &rule(
                "score + margin",
                MacroDerivationReduction::Maximum,
                MacroDerivationTarget::specification_maximum("gain".to_owned()),
            ),
            bits(&[3.0, 6.0]),
        )
        .unwrap();
    resolved
        .record_derivation(
            "parent",
            "xchild",
            2,
            &rule(
                "bias",
                MacroDerivationReduction::UniqueValues,
                MacroDerivationTarget::design_variable_allowed_values("bias".to_owned()),
            ),
            bits(&[0.3, 0.7]),
        )
        .unwrap();

    assert_eq!(
        specification(&resolved, "gain"),
        Some(&MacroSpecificationBounds::between(bound(3.0), bound(6.0)))
    );
    assert_eq!(
        condition(&resolved, "bias"),
        Some(&MacroDesignVariableCondition::allowed_values(bits(&[0.3, 0.7])))
    );
    assert_eq!(resolved.audit().len(), 3);
    assert!(resolved.audit().iter().all(|entry| entry.source_rows() == 2));
    assert_eq!(resolved.audit()[1].rule_index(), 1);
    assert_eq!(resolved.audit()[1].expression(), "score + margin");
    assert_eq!(resolved.audit()[1].child_instance(), "xchild");
    assert_eq!(
        resolved.audit()[1].reduced_value(),
        &MacroDerivedValue::Scalar(bound(6.0))
    );
    assert_eq!(
        resolved.audit()[1].effective_condition(),
        &MacroResolvedCondition::Specification {
            name: "gain".to_owned(),
            bounds: Some(MacroSpecificationBounds::between(bound(3.0), bound(6.0))),
        }
    );
    assert!(!resolved.is_pruned());
}

#[test]
fn intersects_design_conditions_and_keeps_the_first_prune_reason() {
    let mut resolved = ResolvedChildConditions::new();
    resolved.apply_design_variable(
        "width",
        MacroDesignVariableCondition::allowed_values(bits(&[1.0, 2.0, 3.0])),
    );
    resolved.apply_design_variable(
        "width",
        MacroDesignVariableCondition::range(Some(bound(1.5)), None),
    );
    assert_eq!(
        condition(&resolved, "width"),
        Some(&MacroDesignVariableCondition::allowed_values(bits(&[2.0, 3.0])))
    );
    resolved.apply_design_variable(
        "length",
        MacroDesignVariableCondition::range(Some(bound(1.0)), Some(bound(2.0))),
    );
    let names = resolved
        .design_variable_conditions()
        .iter()
        .map(|(name, _)| name.as_str())
        .collect::<Vec<_>>();
    assert_eq!(names, ["length", "width"]);

    let effective = resolved.apply_design_variable(
        "width",
        MacroDesignVariableCondition::allowed_values(bits(&[5.0])),
    );
    assert_eq!(
        effective,
        MacroResolvedCondition::DesignVariable {
            name: "width".to_owned(),
            condition: None,
        }
    );
    resolved.apply_specification("gain", MacroSpecificationBounds::at_least(bound(2.0)));
    resolved.apply_specification("gain", MacroSpecificationBounds::at_most(bound(1.0)));
    assert_eq!(
        resolved.prune_reason(),
        Some(&MacroDerivationPruneReason::ConflictingDesignVariable {
            variable: "width".to_owned()
        })
    );
    assert_eq!(
        condition(&resolved, "width"),
        Some(&MacroDesignVariableCondition::allowed_values(bits(&[2.0, 3.0])))
    );
}

#[test]
fn a_reduction_error_is_reported_with_its_rule_and_changes_nothing() {
    let mut resolved = ResolvedChildConditions::new();
    let error = resolved
        .record_derivation(
            "parent",
            "xchild",
            4,
            &rule(
                "vout",
                MacroDerivationReduction::Range,
                MacroDerivationTarget::design_variable_range("bias".to_owned()),
            ),
            bits(&[1.0, f64::NAN]),
        )
        .unwrap_err();
    assert!(matches!(
        error,
        MacroDerivationResolutionError::Reduction {
            rule_index: 4,
            error: MacroDerivationReductionError::NonFiniteSource { index: 1 },
            ..
        }
    ));
    assert!(resolved.audit().is_empty());
    assert!(resolved.design_variable_conditions().is_empty());
}
