use shapeic_core::exploration::candidate::{
    candidate_column_indices, candidate_column_name, candidate_set_from_columns, CandidateEquality,
    CandidateJoinError, CandidatePairJoin, CandidatePairSelection, CandidatePoint,
    CandidateSchemaError, CandidateSet, CandidateSetBuildError,
};
use shapeic_core::exploration::table::ExplorationColumn;

fn point(values: &[(&str, f64)]) -> CandidatePoint {
    CandidatePoint::new(
        values
            .iter()
            .map(|(name, value)| ((*name).to_owned(), value.to_bits()))
            .collect(),
    )
}

fn get(point: &CandidatePoint, name: &str) -> Option<f64> {
    point.get(name).map(f64::from_bits)
}

fn voltage_length_candidates(
    name: &str,
    voltage_column: &str,
    length_column: &str,
    voltages: &[f64],
    lengths: &[f64],
) -> CandidateSet {
    let points = voltages
        .iter()
        .flat_map(|voltage| {
            lengths.iter().map(|length| {
                CandidatePoint::new(vec![
                    (voltage_column.to_owned(), voltage.to_bits()),
                    (length_column.to_owned(), length.to_bits()),
                ])
            })
        })
        .collect();
    CandidateSet::new(name.to_owned(), points)
}

#[test]
fn accesses_candidate_values_by_name() {
    let candidate = point(&[("width__xdp__m1", 4.0e-6), ("xdp.voutp", 1.0)]);

    assert_eq!(get(&candidate, "width__xdp__m1"), Some(4.0e-6));
    assert_eq!(get(&candidate, "xdp.voutp"), Some(1.0));
    assert_eq!(get(&candidate, "missing"), None);
}

#[test]
fn preserves_original_pair_indices() {
    let selection = CandidatePairSelection::new(3, 7);

    assert_eq!(selection.left_index, 3);
    assert_eq!(selection.right_index, 7);
}

#[test]
fn streams_the_cartesian_product_in_left_major_order() {
    let left = CandidateSet::new(
        "xdp".to_owned(),
        vec![point(&[("xdp.voutp", 0.8)]), point(&[("xdp.voutp", 1.0)])],
    );
    let right = CandidateSet::new(
        "xcm".to_owned(),
        vec![
            point(&[("xcm.voutp", 0.8)]),
            point(&[("xcm.voutp", 0.9)]),
            point(&[("xcm.voutp", 1.0)]),
        ],
    );

    let mut pairs = CandidatePairJoin::cartesian(&left, &right).unwrap();
    assert_eq!(pairs.len(), 6);
    assert_eq!(pairs.size_hint(), (6, Some(6)));
    assert_eq!(
        pairs.remaining_selections(),
        vec![
            CandidatePairSelection::new(0, 0),
            CandidatePairSelection::new(0, 1),
            CandidatePairSelection::new(0, 2),
            CandidatePairSelection::new(1, 0),
            CandidatePairSelection::new(1, 1),
            CandidatePairSelection::new(1, 2),
        ]
    );
    assert_eq!(pairs.len(), 0);
    assert_eq!(pairs.next(), None);
    assert_eq!(pairs.next(), None);
}

#[test]
fn cartesian_selections_resolve_original_candidate_values() {
    let left = CandidateSet::new(
        "xdp".to_owned(),
        vec![point(&[("width__xdp__m1", 4.0e-6), ("xdp.voutp", 0.9)])],
    );
    let right = CandidateSet::new(
        "xcm".to_owned(),
        vec![point(&[("length__xcm__m1", 0.8e-6), ("xcm.voutp", 0.9)])],
    );
    let selection = CandidatePairJoin::cartesian(&left, &right)
        .unwrap()
        .next()
        .unwrap();

    assert_eq!(
        get(&left.points[selection.left_index], "width__xdp__m1"),
        Some(4.0e-6)
    );
    assert_eq!(
        get(&right.points[selection.right_index], "length__xcm__m1"),
        Some(0.8e-6)
    );
}

#[test]
fn indexed_join_reduces_four_voltages_and_three_lengths_to_compatible_pairs() {
    let voltages = [0.8, 0.9, 1.0, 1.1];
    let lengths = [0.4e-6, 0.8e-6, 1.6e-6];
    let left =
        voltage_length_candidates("xdp", "xdp.voutp", "length__xdp__m1", &voltages, &lengths);
    let right =
        voltage_length_candidates("xcm", "xcm.voutp", "length__xcm__m1", &voltages, &lengths);
    let equality = CandidateEquality::new("xdp.voutp".to_owned(), "xcm.voutp".to_owned());
    let mut join = CandidatePairJoin::new(&left, &right, &[equality]).unwrap();

    assert_eq!(left.points.len() * right.points.len(), 144);
    assert_eq!(join.len(), 36);
    let selections = join.remaining_selections();
    assert_eq!(join.next(), None);
    for selection in &selections {
        assert_eq!(
            get(&left.points[selection.left_index], "xdp.voutp"),
            get(&right.points[selection.right_index], "xcm.voutp")
        );
    }
    for voltage in voltages {
        assert_eq!(
            selections
                .iter()
                .filter(|selection| {
                    get(&left.points[selection.left_index], "xdp.voutp") == Some(voltage)
                })
                .count(),
            9
        );
    }
}

#[test]
fn indexed_join_uses_a_composite_key_for_multiple_shared_nodes() {
    let left = CandidateSet::new(
        "xdp".to_owned(),
        vec![
            point(&[("xdp.voutp", 0.8), ("xdp.voutn", 0.4)]),
            point(&[("xdp.voutp", 0.8), ("xdp.voutn", 0.5)]),
            point(&[("xdp.voutp", 0.9), ("xdp.voutn", 0.4)]),
        ],
    );
    let right = CandidateSet::new(
        "xcm".to_owned(),
        vec![
            point(&[("xcm.voutp", 0.8), ("xcm.vinp", 0.4)]),
            point(&[("xcm.voutp", 0.8), ("xcm.vinp", 0.6)]),
            point(&[("xcm.voutp", 0.9), ("xcm.vinp", 0.4)]),
        ],
    );
    let equalities = [
        CandidateEquality::new("xdp.voutp".to_owned(), "xcm.voutp".to_owned()),
        CandidateEquality::new("xdp.voutn".to_owned(), "xcm.vinp".to_owned()),
    ];

    assert_eq!(
        CandidatePairJoin::new(&left, &right, &equalities)
            .unwrap()
            .remaining_selections(),
        vec![
            CandidatePairSelection::new(0, 0),
            CandidatePairSelection::new(2, 2),
        ]
    );
}

#[test]
fn indexed_join_preserves_selection_orientation_when_the_left_set_is_indexed() {
    let left = CandidateSet::new("xdp".to_owned(), vec![point(&[("xdp.voutp", 1.0)])]);
    let right = CandidateSet::new(
        "xcm".to_owned(),
        vec![point(&[("xcm.voutp", 1.0)]), point(&[("xcm.voutp", 1.0)])],
    );

    assert_eq!(
        CandidatePairJoin::new(
            &left,
            &right,
            &[CandidateEquality::new("xdp.voutp".to_owned(), "xcm.voutp".to_owned())],
        )
        .unwrap()
        .remaining_selections(),
        vec![
            CandidatePairSelection::new(0, 0),
            CandidatePairSelection::new(0, 1),
        ]
    );
}

#[test]
fn indexed_join_canonicalizes_signed_zero_and_can_produce_no_matches() {
    let left = CandidateSet::new(
        "xdp".to_owned(),
        vec![point(&[("xdp.voutp", -0.0)]), point(&[("xdp.voutp", 1.0)])],
    );
    let right = CandidateSet::new(
        "xcm".to_owned(),
        vec![point(&[("xcm.voutp", 0.0)]), point(&[("xcm.voutp", 2.0)])],
    );
    let equality = CandidateEquality::new("xdp.voutp".to_owned(), "xcm.voutp".to_owned());

    assert_eq!(
        CandidatePairJoin::new(&left, &right, &[equality])
            .unwrap()
            .remaining_selections(),
        vec![CandidatePairSelection::new(0, 0)]
    );

    let unmatched_left = CandidateSet::new("a".to_owned(), vec![point(&[("a.v", 1.0)])]);
    let unmatched_right = CandidateSet::new("b".to_owned(), vec![point(&[("b.v", 2.0)])]);
    let no_matches = CandidatePairJoin::new(
        &unmatched_left,
        &unmatched_right,
        &[CandidateEquality::new("a.v".to_owned(), "b.v".to_owned())],
    )
    .unwrap();
    assert_eq!(no_matches.len(), 0);
}

#[test]
fn indexed_join_rejects_missing_or_non_finite_shared_node_columns() {
    let left = CandidateSet::new("xdp".to_owned(), vec![point(&[("xdp.voutp", f64::NAN)])]);
    let right = CandidateSet::new("xcm".to_owned(), vec![point(&[("xcm.voutp", 1.0)])]);

    assert_eq!(
        CandidatePairJoin::new(
            &left,
            &right,
            &[CandidateEquality::new("xdp.missing".to_owned(), "xcm.voutp".to_owned())],
        )
        .unwrap_err(),
        CandidateJoinError::MissingColumn {
            set: "xdp".to_owned(),
            column: "xdp.missing".to_owned(),
        }
    );
    assert_eq!(
        CandidatePairJoin::new(
            &left,
            &right,
            &[CandidateEquality::new("xdp.voutp".to_owned(), "xcm.voutp".to_owned())],
        )
        .unwrap_err(),
        CandidateJoinError::NonFiniteJoinValue {
            set: "xdp".to_owned(),
            point_index: 0,
            column: "xdp.voutp".to_owned(),
        }
    );
}

#[test]
fn rejects_empty_candidate_sets_before_cartesian_iteration() {
    let empty = CandidateSet::new("xdp".to_owned(), Vec::new());
    let populated = CandidateSet::new("xcm".to_owned(), vec![point(&[("xcm.voutp", 1.0)])]);

    assert_eq!(
        CandidatePairJoin::cartesian(&empty, &populated).unwrap_err(),
        CandidateJoinError::EmptyCandidateSet {
            set: "xdp".to_owned(),
        }
    );
    assert_eq!(
        CandidatePairJoin::cartesian(&populated, &empty).unwrap_err(),
        CandidateJoinError::EmptyCandidateSet {
            set: "xdp".to_owned(),
        }
    );
}

#[test]
fn reports_invalid_candidate_schemas_before_cartesian_iteration() {
    let invalid = CandidateSet::new(
        "xdp".to_owned(),
        vec![
            point(&[("xdp.voutp", 0.8), ("length__xdp__m1", 0.4e-6)]),
            point(&[("length__xdp__m1", 0.8e-6), ("xdp.voutp", 1.0)]),
        ],
    );
    let valid = CandidateSet::new("xcm".to_owned(), vec![point(&[("xcm.voutp", 1.0)])]);

    assert_eq!(
        CandidatePairJoin::cartesian(&invalid, &valid).unwrap_err(),
        CandidateJoinError::ColumnNameMismatch {
            set: "xdp".to_owned(),
            point_index: 1,
            column_index: 0,
            expected: "xdp.voutp".to_owned(),
            actual: "length__xdp__m1".to_owned(),
        }
    );
}

#[test]
fn resolves_stable_candidate_column_indices() {
    let candidates = CandidateSet::new(
        "xdp".to_owned(),
        vec![
            point(&[("xdp.voutp", 0.8), ("length__xdp__m1", 0.4e-6)]),
            point(&[("xdp.voutp", 1.0), ("length__xdp__m1", 0.8e-6)]),
        ],
    );

    let indices = candidate_column_indices(&candidates).unwrap();

    assert_eq!(indices.get("xdp.voutp"), Some(0));
    assert_eq!(indices.get("length__xdp__m1"), Some(1));
    assert_eq!(indices.get("missing"), None);
}

#[test]
fn rejects_candidate_points_with_inconsistent_column_order() {
    let candidates = CandidateSet::new(
        "xdp".to_owned(),
        vec![
            point(&[("xdp.voutp", 0.8), ("length__xdp__m1", 0.4e-6)]),
            point(&[("length__xdp__m1", 0.8e-6), ("xdp.voutp", 1.0)]),
        ],
    );

    assert_eq!(
        candidate_column_indices(&candidates),
        Err(CandidateSchemaError::ColumnNameMismatch {
            set: "xdp".to_owned(),
            point_index: 1,
            column_index: 0,
            expected: "xdp.voutp".to_owned(),
            actual: "length__xdp__m1".to_owned(),
        })
    );
}

#[test]
fn rejects_duplicate_candidate_columns() {
    let candidates = CandidateSet::new(
        "xcm".to_owned(),
        vec![point(&[("xcm.voutp", 0.8), ("xcm.voutp", 1.0)])],
    );

    assert_eq!(
        candidate_column_indices(&candidates),
        Err(CandidateSchemaError::DuplicateColumn {
            set: "xcm".to_owned(),
            point_index: 0,
            column: "xcm.voutp".to_owned(),
        })
    );
}

#[test]
fn names_instance_columns_with_a_dot() {
    assert_eq!(candidate_column_name("xdp", "voutp"), "xdp.voutp");
    assert_eq!(candidate_column_name("", "v"), ".v");
}

#[test]
fn builds_candidate_points_row_by_row_from_equal_columns() {
    let columns = [
        ExplorationColumn::new("w".to_owned(), vec![1.0f64.to_bits(), 2.0f64.to_bits()]),
        ExplorationColumn::new("l".to_owned(), vec![3.0f64.to_bits(), 4.0f64.to_bits()]),
    ];
    let set = candidate_set_from_columns("stage".to_owned(), &columns).unwrap();
    assert_eq!(set.name, "stage");
    assert_eq!(set.points.len(), 2);
    assert_eq!(get(&set.points[1], "w"), Some(2.0));
    assert_eq!(get(&set.points[1], "l"), Some(4.0));
    assert_eq!(candidate_column_indices(&set).unwrap().len(), 2);

    assert_eq!(
        candidate_set_from_columns("stage".to_owned(), &[]),
        Err(CandidateSetBuildError::EmptyColumns)
    );
    let ragged = [
        ExplorationColumn::new("w".to_owned(), vec![1.0f64.to_bits()]),
        ExplorationColumn::new("l".to_owned(), vec![]),
    ];
    assert_eq!(
        candidate_set_from_columns("stage".to_owned(), &ragged),
        Err(CandidateSetBuildError::ColumnLengthMismatch {
            column: "l".to_owned(),
            expected: 1,
            actual: 0,
        })
    );
}
