use shapeic_core::exploration::candidate::{CandidatePoint, CandidateSet};
use shapeic_core::exploration::combination::{
    CandidateCombinationEquality, CandidateCombinationJoin, CandidateCombinationJoinError,
};

fn point(values: &[(&str, f64)]) -> CandidatePoint {
    CandidatePoint::new(
        values
            .iter()
            .map(|(name, value)| ((*name).to_owned(), value.to_bits()))
            .collect(),
    )
}

fn set(name: &str, points: Vec<CandidatePoint>) -> CandidateSet {
    CandidateSet::new(name.to_owned(), points)
}

fn eq(left_set: usize, left: &str, right_set: usize, right: &str) -> CandidateCombinationEquality {
    CandidateCombinationEquality::new(left_set, left.to_owned(), right_set, right.to_owned())
}

#[test]
fn traverses_only_compatible_selections_across_three_sets() {
    let first = set(
        "first",
        vec![point(&[("first.x", 0.0)]), point(&[("first.x", 1.0)])],
    );
    let second = set(
        "second",
        vec![
            point(&[("second.x", 0.0), ("second.y", 10.0)]),
            point(&[("second.x", 0.0), ("second.y", 20.0)]),
            point(&[("second.x", 1.0), ("second.y", 10.0)]),
        ],
    );
    let third = set(
        "third",
        vec![point(&[("third.y", 10.0)]), point(&[("third.y", 20.0)])],
    );
    let equalities = [
        eq(0, "first.x", 1, "second.x"),
        eq(1, "second.y", 2, "third.y"),
    ];
    let mut join = CandidateCombinationJoin::new(&[&first, &second, &third], &equalities).unwrap();

    assert_eq!(join.selection_len(), 3);
    let mut selections = vec![join.next_selection().unwrap()];
    while let Some(selection) = join.next_selection() {
        selections.push(selection);
    }
    assert_eq!(
        selections,
        vec![vec![0, 0, 0], vec![0, 1, 1], vec![1, 2, 0]]
    );
    assert_eq!(join.next_selection(), None);
}

#[test]
fn falls_back_to_cartesian_dimensions_and_supports_zero_sets() {
    let first = set("first", vec![point(&[("a", 0.0)]), point(&[("a", 1.0)])]);
    let second = set("second", vec![point(&[("b", 0.0)]), point(&[("b", 1.0)])]);
    let mut join = CandidateCombinationJoin::new(&[&first, &second], &[]).unwrap();
    let mut selections = Vec::new();
    while let Some(selection) = join.next_selection() {
        selections.push(selection);
    }
    assert_eq!(
        selections,
        vec![vec![0, 0], vec![0, 1], vec![1, 0], vec![1, 1]]
    );

    let mut empty = CandidateCombinationJoin::new(&[], &[]).unwrap();
    assert_eq!(empty.next_selection(), Some(Vec::new()));
    assert_eq!(empty.next_selection(), None);
}

#[test]
fn validates_equality_set_indices_columns_and_values() {
    let first = set("first", vec![point(&[("x", f64::NAN)])]);
    let second = set("second", vec![point(&[("y", 1.0)])]);

    assert!(matches!(
        CandidateCombinationJoin::new(&[&first, &second], &[eq(0, "x", 2, "y")]),
        Err(CandidateCombinationJoinError::CandidateSetIndexOutOfBounds {
            set_index: 2,
            set_count: 2,
        })
    ));
    assert!(matches!(
        CandidateCombinationJoin::new(&[&first, &second], &[eq(0, "missing", 1, "y")]),
        Err(CandidateCombinationJoinError::MissingColumn { set, column })
            if set == "first" && column == "missing"
    ));
    assert!(matches!(
        CandidateCombinationJoin::new(&[&first, &second], &[eq(0, "x", 1, "y")]),
        Err(CandidateCombinationJoinError::NonFiniteJoinValue {
            set,
            point_index: 0,
            column,
        }) if set == "first" && column == "x"
    ));
}

#[test]
fn rejects_equalities_within_one_set_and_invalid_schemas() {
    let first = set("first", vec![point(&[("x", 1.0), ("y", 1.0)])]);
    let second = set("second", vec![point(&[("y", 1.0)])]);
    assert_eq!(
        CandidateCombinationJoin::new(&[&first, &second], &[eq(0, "x", 0, "y")]).unwrap_err(),
        CandidateCombinationJoinError::SameSetEquality {
            set_index: 0,
            left_column: "x".to_owned(),
            right_column: "y".to_owned(),
        }
    );
    let empty = set("empty", Vec::new());
    assert_eq!(
        CandidateCombinationJoin::new(&[&first, &empty], &[]).unwrap_err(),
        CandidateCombinationJoinError::EmptyCandidateSet {
            set: "empty".to_owned(),
        }
    );
}

#[test]
fn matches_signed_zeros_and_reversed_equalities() {
    let first = set("first", vec![point(&[("v", 0.0)]), point(&[("v", 1.0)])]);
    let second = set("second", vec![point(&[("w", 1.0)]), point(&[("w", -0.0)])]);
    let mut join = CandidateCombinationJoin::new(&[&first, &second], &[eq(1, "w", 0, "v")]).unwrap();
    assert_eq!(join.next_selection(), Some(vec![0, 1]));
    assert_eq!(join.next_selection(), Some(vec![1, 0]));
    assert_eq!(join.next_selection(), None);
    assert_eq!(join.next_selection(), None);
}
