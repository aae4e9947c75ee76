use shapeic_core::macro_model::derivation::{
    reduce_derivation_values, MacroDerivationReductionError,
};
use shapeic_core::macro_model::model::{MacroDerivationReduction, MacroDerivedValue};

fn bits(values: &[f64]) -> Vec<u64> {
    values.iter().map(|value| value.to_bits()).collect()
}

#[test]
fn reduces_scalars_ranges_and_stable_unique_values() {
    let values = [3.0, 1.0, 3.0, 2.0];
    assert_eq!(
        reduce_derivation_values(MacroDerivationReduction::Minimum, bits(&values)).unwrap(),
        MacroDerivedValue::Scalar(1.0f64.to_bits())
    );
    assert_eq!(
        reduce_derivation_values(MacroDerivationReduction::Maximum, bits(&values)).unwrap(),
        MacroDerivedValue::Scalar(3.0f64.to_bits())
    );
    assert_eq!(
        reduce_derivation_values(MacroDerivationReduction::Range, bits(&values)).unwrap(),
        MacroDerivedValue::Range {
            minimum: 1.0f64.to_bits(),
            maximum: 3.0f64.to_bits(),
        }
    );
    assert_eq!(
        reduce_derivation_values(MacroDerivationReduction::UniqueValues, bits(&values)).unwrap(),
        MacroDerivedValue::UniqueValues(bits(&[3.0, 1.0, 2.0]))
    );
}

#[test]
fn rejects_empty_and_non_finite_sources() {
    assert_eq!(
        reduce_derivation_values(MacroDerivationReduction::Minimum, Vec::new()).unwrap_err(),
        MacroDerivationReductionError::EmptySource
    );
    assert_eq!(
        reduce_derivation_values(MacroDerivationReduction::Range, bits(&[1.0, f64::NAN]))
            .unwrap_err(),
        MacroDerivationReductionError::NonFiniteSource { index: 1 }
    );
}

#[test]
fn reduction_orders_negative_values_and_merges_signed_zero() {
    let values = [0.5, -2.0, -0.0, 0.0, -2.0];
    assert_eq!(
        reduce_derivation_values(MacroDerivationReduction::Minimum, bits(&values)).unwrap(),
        MacroDerivedValue::Scalar((-2.0f64).to_bits())
    );
    assert_eq!(
        reduce_derivation_values(MacroDerivationReduction::Maximum, bits(&values)).unwrap(),
        MacroDerivedValue::Scalar(0.5f64.to_bits())
    );
    assert_eq!(
        MacroDerivationReduction::UniqueValues.reduce(bits(&values)),
        Ok(MacroDerivedValue::UniqueValues(bits(&[0.5, -2.0, -0.0])))
    );
    assert_eq!(
        reduce_derivation_values(MacroDerivationReduction::Maximum, bits(&[f64::INFINITY]))
            .unwrap_err(),
        MacroDerivationReductionError::NonFiniteSource { index: 0 }
    );
}
