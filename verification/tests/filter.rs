use shapeic_core::exploration::candidate::{
    CandidateEquality, CandidatePairJoin, CandidatePairSelection, CandidatePoint, CandidateSet,
};
use shapeic_core::exploration::filter::{
    retain_candidate_set, retain_candidate_set_with_indices, CandidateFilter, CandidateFilterError,
    CandidateFilterReport, InvalidCandidateFilter,
};

fn bits(value: f64) -> u64 {
    value.to_bits()
}

fn candidate(width: f64, length: f64) -> CandidatePoint {
    CandidatePoint::new(vec![
        ("width".to_string(), width.to_bits()),
        ("length".to_string(), length.to_bits()),
    ])
}

fn candidates() -> CandidateSet {
    CandidateSet::new(
        "x1".to_owned(),
        vec![
            candidate(2.0, 1.0),
            candidate(5.0, 2.0),
            candidate(10.0, 3.0),
            candidate(12.0, 4.0),
        ],
    )
}

fn at_most(column: &str, maximum: f64) -> Result<CandidateFilter, InvalidCandidateFilter> {
    CandidateFilter::at_most(column.to_owned(), bits(maximum))
}

fn at_least(column: &str, minimum: f64) -> Result<CandidateFilter, InvalidCandidateFilter> {
    CandidateFilter::at_least(column.to_owned(), bits(minimum))
}

fn between(column: &str, minimum: f64, maximum: f64) -> Result<CandidateFilter, InvalidCandidateFilter> {
    CandidateFilter::between(column.to_owned(), bits(minimum), bits(maximum))
}

fn candidate_value_bits(candidates: &CandidateSet) -> Vec<Vec<(String, u64)>> {
    candidates
        .points
        .iter()
        .map(|point| point.values.clone())
        .collect()
}

#[test]
fn at_most_is_inclusive_and_does_not_use_absolute_values() {
    let filter = at_most("width", 10.0).unwrap();

    assert!(filter.accepts_value(bits(-20.0)));
    assert!(filter.accepts_value(bits(10.0)));
    assert!(!filter.accepts_value(bits(10.1)));
    assert!(!filter.accepts_value(bits(f64::NAN)));
    assert!(!filter.accepts_value(bits(f64::NEG_INFINITY)));
    assert_eq!(filter.column(), "width");
    assert_eq!(filter.minimum(), None);
    assert_eq!(filter.maximum(), Some(bits(10.0)));
}

#[test]
fn at_least_is_inclusive() {
    let filter = at_least("length", -2.0).unwrap();

    assert!(!filter.accepts_value(bits(-2.1)));
    assert!(filter.accepts_value(bits(-2.0)));
    assert!(filter.accepts_value(bits(3.0)));
}

#[test]
fn between_accepts_both_boundaries() {
    let filter = between("voltage", -1.0, 1.0).unwrap();

    assert!(!filter.accepts_value(bits(-1.1)));
    assert!(filter.accepts_value(bits(-1.0)));
    assert!(filter.accepts_value(bits(0.0)));
    assert!(filter.accepts_value(bits(-0.0)));
    assert!(filter.accepts_value(bits(1.0)));
    assert!(!filter.accepts_value(bits(1.1)));
}

#[test]
fn rejects_invalid_filter_definitions() {
    assert_eq!(at_most("", 1.0), Err(InvalidCandidateFilter::EmptyColumn));
    assert_eq!(
        CandidateFilter::new("width".to_owned(), None, None),
        Err(InvalidCandidateFilter::MissingBounds {
            column: "width".to_string(),
        })
    );
    assert_eq!(
        at_least("width", f64::NAN),
        Err(InvalidCandidateFilter::NonFiniteMinimum {
            column: "width".to_string(),
        })
    );
    assert_eq!(
        at_most("width", f64::INFINITY),
        Err(InvalidCandidateFilter::NonFiniteMaximum {
            column: "width".to_string(),
        })
    );
    assert_eq!(
        between("width", 2.0, 1.0),
        Err(InvalidCandidateFilter::InvertedRange {
            column: "width".to_string(),
        })
    );
}

#[test]
fn retains_candidates_in_place_with_an_inclusive_maximum() {
    let mut candidates = candidates();
    let report = retain_candidate_set(&mut candidates, &[at_most("width", 10.0).unwrap()]).unwrap();

    assert_eq!(
        report,
        CandidateFilterReport {
            input_count: 4,
            retained_count: 3,
        }
    );
    assert_eq!(report.rejected_count(), 1);
    assert_eq!(
        candidates
            .points
            .iter()
            .map(|point| f64::from_bits(point.get("width").unwrap()))
            .collect::<Vec<_>>(),
        vec![2.0, 5.0, 10.0]
    );
}

#[test]
fn combines_multiple_filters_with_logical_and() {
    let mut candidates = candidates();
    let report = retain_candidate_set(
        &mut candidates,
        &[
            at_least("width", 5.0).unwrap(),
            between("length", 2.0, 3.0).unwrap(),
        ],
    )
    .unwrap();

    assert_eq!(report.retained_count(), 2);
    assert_eq!(
        candidates.points,
        vec![candidate(5.0, 2.0), candidate(10.0, 3.0)]
    );
}

#[test]
fn can_reject_every_candidate() {
    let mut candidates = candidates();
    let report = retain_candidate_set(&mut candidates, &[at_most("width", 1.0).unwrap()]).unwrap();

    assert_eq!(report.input_count(), 4);
    assert_eq!(report.retained_count(), 0);
    assert_eq!(report.rejected_count(), 4);
    assert!(candidates.points.is_empty());
}

#[test]
fn empty_inputs_are_no_op_operations() {
    let mut candidates = candidates();
    let unchanged = retain_candidate_set(&mut candidates, &[]).unwrap();
    assert_eq!(unchanged.input_count(), 4);
    assert_eq!(unchanged.retained_count(), 4);

    let mut empty = CandidateSet::new("empty".to_owned(), Vec::new());
    let empty_report =
        retain_candidate_set(&mut empty, &[at_most("missing", 1.0).unwrap()]).unwrap();
    assert_eq!(empty_report, CandidateFilterReport::default());
}

#[test]
fn missing_columns_leave_the_candidate_set_unchanged() {
    let mut candidates = candidates();
    let original = candidates.clone();

    assert_eq!(
        retain_candidate_set(&mut candidates, &[at_most("missing", 10.0).unwrap()]),
        Err(CandidateFilterError::MissingColumn {
            set: "x1".to_string(),
            column: "missing".to_string(),
        })
    );
    assert_eq!(candidates, original);
}

#[test]
fn non_finite_values_leave_the_candidate_set_unchanged() {
    let mut candidates = candidates();
    candidates.points[2].values[0].1 = f64::NAN.to_bits();
    let original = candidate_value_bits(&candidates);

    assert_eq!(
        retain_candidate_set(&mut candidates, &[at_most("width", 10.0).unwrap()]),
        Err(CandidateFilterError::NonFiniteValue {
            set: "x1".to_string(),
            point_index: 2,
            column: "width".to_string(),
        })
    );
    assert_eq!(candidate_value_bits(&candidates), original);
}

#[test]
fn inconsistent_schemas_leave_the_candidate_set_unchanged() {
    let mut candidates = candidates();
    candidates.points[2].values[1].0 = "other".to_string();
    let original = candidates.clone();

    assert_eq!(
        retain_candidate_set(&mut candidates, &[at_most("width", 10.0).unwrap()]),
        Err(CandidateFilterError::ColumnNameMismatch {
            set: "x1".to_string(),
            point_index: 2,
            column_index: 1,
            expected: "length".to_string(),
            actual: "other".to_string(),
        })
    );
    assert_eq!(candidates, original);
}

#[test]
fn filtered_candidate_indices_are_used_by_the_indexed_join() {
    let point = |voltage_column: &str, voltage: f64, width: f64| {
        CandidatePoint::new(vec![
            (voltage_column.to_string(), voltage.to_bits()),
            ("width".to_string(), width.to_bits()),
        ])
    };
    let mut left = CandidateSet::new(
        "xdp".to_owned(),
        vec![
            point("xdp.voutp", 0.8, 12.0),
            point("xdp.voutp", 0.8, 5.0),
            point("xdp.voutp", 0.9, 6.0),
            point("xdp.voutp", 1.0, 15.0),
        ],
    );
    let mut right = CandidateSet::new(
        "xcm".to_owned(),
        vec![
            point("xcm.voutp", 0.7, 4.0),
            point("xcm.voutp", 0.8, 11.0),
            point("xcm.voutp", 0.8, 8.0),
            point("xcm.voutp", 0.9, 9.0),
        ],
    );

    let maximum_width = at_most("width", 10.0).unwrap();
    assert_eq!(
        retain_candidate_set(&mut left, std::slice::from_ref(&maximum_width))
            .unwrap()
            .retained_count(),
        2
    );
    assert_eq!(
        retain_candidate_set(&mut right, &[maximum_width])
            .unwrap()
            .retained_count(),
        3
    );

    let selections = CandidatePairJoin::new(
        &left,
        &right,
        &[CandidateEquality::new("xdp.voutp".to_owned(), "xcm.voutp".to_owned())],
    )
    .unwrap()
    .remaining_selections();

    assert_eq!(
        selections,
        vec![
            CandidatePairSelection::new(0, 1),
            CandidatePairSelection::new(1, 2),
        ]
    );
    for selection in selections {
        assert_eq!(
            left.points[selection.left_index].get("xdp.voutp"),
            right.points[selection.right_index].get("xcm.voutp")
        );
        assert!(f64::from_bits(left.points[selection.left_index].get("width").unwrap()) <= 10.0);
        assert!(f64::from_bits(right.points[selection.right_index].get("width").unwrap()) <= 10.0);
    }
}

#[test]
fn reports_the_original_indices_of_retained_candidates() {
    let mut candidates = candidates();
    let (report, indices) =
        retain_candidate_set_with_indices(&mut candidates, &[at_least("width", 5.0).unwrap()]).unwrap();
    assert_eq!(report.retained_count(), 3);
    assert_eq!(indices, vec![1, 2, 3]);

    let mut untouched = candidates.clone();
    let (_, all) = retain_candidate_set_with_indices(&mut untouched, &[]).unwrap();
    assert_eq!(all, vec![0, 1, 2]);
}
