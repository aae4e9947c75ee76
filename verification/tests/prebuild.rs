use shapeic_core::macro_model::model::MacroDesignVariableCondition;
use shapeic_core::macro_model::prebuild::{apply_prebuild_conditions, PrimitiveInputConditions};
use shapeic_core::primitive::{
    PrimitiveBuildInput, PrimitiveBuildInputKind, PrimitiveBuildInputSpec, PrimitiveBuildSpec,
    PrimitiveBuildValue, SweepMode,
};

fn bits(values: &[f64]) -> Vec<u64> {
    values.iter().map(|value| value.to_bits()).collect()
}

fn vector(values: &[f64]) -> PrimitiveBuildValue {
    PrimitiveBuildValue::Vector(bits(values))
}

fn spec(sweep_mode: SweepMode) -> PrimitiveBuildSpec {
    PrimitiveBuildSpec {
        inputs: vec![
            PrimitiveBuildInputSpec {
                name: "x".to_owned(),
                kind: PrimitiveBuildInputKind::Vector,
                required: true,
                source: None,
            },
            PrimitiveBuildInputSpec {
                name: "y".to_owned(),
                kind: PrimitiveBuildInputKind::Vector,
                required: true,
                source: None,
            },
        ],
        sweep_mode,
    }
}

fn input() -> PrimitiveBuildInput {
    PrimitiveBuildInput::new(vec![
        ("x".to_owned(), vector(&[1.0, 2.0, 3.0])),
        ("y".to_owned(), vector(&[10.0, 20.0, 30.0])),
    ])
}

fn conditions(name: &str, list: Vec<MacroDesignVariableCondition>) -> PrimitiveInputConditions {
    let mut conditions = PrimitiveInputConditions::new();
    conditions.add(name.to_owned(), &list);
    conditions
}

fn range(minimum: Option<f64>, maximum: Option<f64>) -> MacroDesignVariableCondition {
    MacroDesignVariableCondition::range(minimum.map(f64::to_bits), maximum.map(f64::to_bits))
}

#[test]
fn cartesian_restricts_only_the_bound_axis() {
    let mut input = input();
    apply_prebuild_conditions(
        &spec(SweepMode::Cartesian),
        &mut input,
        &conditions("x", vec![range(Some(2.0), Some(3.0))]),
    );

    assert_eq!(input.value("x"), Some(&vector(&[2.0, 3.0])));
    assert_eq!(input.value("y"), Some(&vector(&[10.0, 20.0, 30.0])));
}

#[test]
fn aligned_applies_one_common_mask_to_every_vector() {
    let mut input = input();
    apply_prebuild_conditions(
        &spec(SweepMode::Aligned),
        &mut input,
        &conditions(
            "x",
            vec![MacroDesignVariableCondition::allowed_values(bits(&[1.0, 3.0]))],
        ),
    );

    assert_eq!(input.value("x"), Some(&vector(&[1.0, 3.0])));
    assert_eq!(input.value("y"), Some(&vector(&[10.0, 30.0])));
}

#[test]
fn empty_intersection_leaves_zero_aligned_rows() {
    let mut input = input();
    apply_prebuild_conditions(
        &spec(SweepMode::Aligned),
        &mut input,
        &conditions("x", vec![range(Some(2.0), None), range(None, Some(1.0))]),
    );

    assert_eq!(input.value("x"), Some(&vector(&[])));
    assert_eq!(input.value("y"), Some(&vector(&[])));
}

#[test]
fn cartesian_empties_a_rejected_scalar() {
    let mut input = PrimitiveBuildInput::new(vec![
        ("x".to_owned(), PrimitiveBuildValue::Scalar(5.0f64.to_bits())),
        ("y".to_owned(), vector(&[1.0, 2.0])),
    ]);
    apply_prebuild_conditions(
        &spec(SweepMode::Cartesian),
        &mut input,
        &conditions("x", vec![range(None, Some(4.0))]),
    );

    assert_eq!(input.value("x"), Some(&vector(&[])));
    assert_eq!(input.value("y"), Some(&vector(&[1.0, 2.0])));
}

#[test]
fn cartesian_keeps_an_admitted_scalar_and_ignores_unknown_inputs() {
    let mut input = PrimitiveBuildInput::new(vec![(
        "x".to_owned(),
        PrimitiveBuildValue::Scalar(3.0f64.to_bits()),
    )]);
    let mut restrictions = conditions("x", vec![range(Some(1.0), Some(4.0))]);
    restrictions.add("missing".to_owned(), &vec![range(Some(10.0), None)]);
    apply_prebuild_conditions(&spec(SweepMode::Cartesian), &mut input, &restrictions);

    assert_eq!(
        input.value("x"),
        Some(&PrimitiveBuildValue::Scalar(3.0f64.to_bits()))
    );
    assert_eq!(input.value("missing"), None);
}

#[test]
fn aligned_leaves_vectors_of_different_lengths_unchanged() {
    let mut input = PrimitiveBuildInput::new(vec![
        ("x".to_owned(), vector(&[1.0, 2.0, 3.0])),
        ("y".to_owned(), vector(&[10.0, 20.0])),
    ]);
    apply_prebuild_conditions(
        &spec(SweepMode::Aligned),
        &mut input,
        &conditions("x", vec![range(Some(2.0), None)]),
    );

    assert_eq!(input.value("x"), Some(&vector(&[1.0, 2.0, 3.0])));
    assert_eq!(input.value("y"), Some(&vector(&[10.0, 20.0])));
}

#[test]
fn aligned_rejected_scalar_empties_the_first_restricted_input() {
    let mut input = PrimitiveBuildInput::new(vec![
        ("a".to_owned(), PrimitiveBuildValue::Scalar(1.0f64.to_bits())),
        ("b".to_owned(), PrimitiveBuildValue::Scalar(9.0f64.to_bits())),
    ]);
    let mut restrictions = conditions("b", vec![range(None, Some(5.0))]);
    restrictions.add("a".to_owned(), &vec![range(Some(0.0), None)]);
    apply_prebuild_conditions(&spec(SweepMode::Aligned), &mut input, &restrictions);

    assert_eq!(input.value("a"), Some(&vector(&[])));
    assert_eq!(
        input.value("b"),
        Some(&PrimitiveBuildValue::Scalar(9.0f64.to_bits()))
    );
}

#[test]
fn later_values_replace_earlier_ones_under_the_same_name() {
    let mut input = PrimitiveBuildInput::new(vec![
        ("x".to_owned(), PrimitiveBuildValue::Scalar(1.0f64.to_bits())),
        ("x".to_owned(), PrimitiveBuildValue::Scalar(2.0f64.to_bits())),
    ]);
    assert_eq!(
        input.value("x"),
        Some(&PrimitiveBuildValue::Scalar(2.0f64.to_bits()))
    );
    input.insert("x".to_owned(), vector(&[4.0]));
    assert_eq!(input.value("x"), Some(&vector(&[4.0])));
    assert_eq!(PrimitiveBuildInput::default().value("x"), None);
}

#[test]
fn added_conditions_follow_the_existing_ones() {
    let mut restrictions = conditions("x", vec![range(Some(1.0), None)]);
    restrictions.add("x".to_owned(), &vec![range(None, Some(2.0))]);
    assert_eq!(restrictions.get("x").map(Vec::len), Some(2));
    assert_eq!(restrictions.get("x").unwrap()[0], range(Some(1.0), None));
    assert!(restrictions.get("y").is_none());
    assert!(PrimitiveInputConditions::new().is_empty());
    assert!(!restrictions.is_empty());
}
