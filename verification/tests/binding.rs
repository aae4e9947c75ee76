use shapeic_core::exploration::binding::{
    CandidateCapacitanceBindingError, CandidateParameterBinder, CandidateParameterBindingError,
};
use shapeic_core::exploration::candidate::{CandidatePoint, CandidateSet};

fn point(values: &[(&str, f64)]) -> CandidatePoint {
    CandidatePoint::new(
        values
            .iter()
            .map(|(name, value)| ((*name).to_owned(), value.to_bits()))
            .collect(),
    )
}

fn names(names: &[&str]) -> Vec<String> {
    names.iter().map(|name| (*name).to_owned()).collect()
}

fn floats(values: &[u64]) -> Vec<f64> {
    values.iter().map(|value| f64::from_bits(*value)).collect()
}

#[test]
fn binds_multiple_candidate_sets_in_requested_parameter_order() {
    let diff_pair = CandidateSet::new(
        "xdp".to_owned(),
        vec![
            point(&[("gm__xdp__m1", 1.0), ("ro__xdp__m1", 10.0)]),
            point(&[("gm__xdp__m1", 2.0), ("ro__xdp__m1", 20.0)]),
        ],
    );
    let mirror = CandidateSet::new(
        "xcm".to_owned(),
        vec![point(&[("gm__xcm__m1", 3.0), ("ro__xcm__m1", 30.0)])],
    );
    let order = names(&["gm__xcm__m1", "ro__xdp__m1", "gm__xdp__m1"]);
    let binder = CandidateParameterBinder::new(&order, &[&diff_pair, &mirror]).unwrap();

    assert_eq!(floats(&binder.bind(&[1, 0]).unwrap()), [3.0, 20.0, 2.0]);
    assert_eq!(binder.parameter_names(), order);
}

#[test]
fn binds_into_a_reusable_buffer_without_allocation() {
    let candidates = CandidateSet::new(
        "stage".to_owned(),
        vec![point(&[("gm", 1.0), ("ro", 2.0)])],
    );
    let binder = CandidateParameterBinder::new(&names(&["ro", "gm"]), &[&candidates]).unwrap();
    let mut output = vec![0.0f64.to_bits(); 2];

    binder.bind_into(&[0], &mut output).unwrap();

    assert_eq!(floats(&output), [2.0, 1.0]);
}

#[test]
fn rejects_missing_and_ambiguous_parameter_sources() {
    let left = CandidateSet::new("left".to_owned(), vec![point(&[("gm", 1.0)])]);
    let right = CandidateSet::new("right".to_owned(), vec![point(&[("gm", 2.0)])]);

    assert_eq!(
        CandidateParameterBinder::new(&names(&["ro"]), &[&left]).unwrap_err(),
        CandidateParameterBindingError::MissingParameter {
            parameter: "ro".to_owned(),
        }
    );
    assert_eq!(
        CandidateParameterBinder::new(&names(&["gm"]), &[&left, &right]).unwrap_err(),
        CandidateParameterBindingError::AmbiguousParameter {
            parameter: "gm".to_owned(),
            candidate_sets: vec!["left".to_owned(), "right".to_owned()],
        }
    );
}

#[test]
fn rejects_invalid_selection_buffers_indices_and_values() {
    let candidates = CandidateSet::new("stage".to_owned(), vec![point(&[("gm", f64::NAN)])]);
    let binder = CandidateParameterBinder::new(&names(&["gm"]), &[&candidates]).unwrap();

    assert!(matches!(
        binder.bind(&[]),
        Err(CandidateParameterBindingError::SelectionCountMismatch { .. })
    ));
    assert!(matches!(
        binder.bind(&[1]),
        Err(CandidateParameterBindingError::CandidateIndexOutOfBounds { .. })
    ));
    assert!(matches!(
        binder.bind(&[0]),
        Err(CandidateParameterBindingError::NonFiniteParameter { .. })
    ));
    assert!(matches!(
        binder.bind_into(&[0], &mut Vec::new()),
        Err(CandidateParameterBindingError::OutputLengthMismatch { .. })
    ));
}

#[test]
fn rejects_duplicate_parameters_and_invalid_sets() {
    let candidates = CandidateSet::new("stage".to_owned(), vec![point(&[("gm", 1.0)])]);
    assert_eq!(
        CandidateParameterBinder::new(&names(&["gm", "ro", "gm"]), &[&candidates]).unwrap_err(),
        CandidateParameterBindingError::DuplicateParameter {
            parameter: "gm".to_owned(),
        }
    );
    let empty = CandidateSet::new("empty".to_owned(), Vec::new());
    assert_eq!(
        CandidateParameterBinder::new(&names(&["gm"]), &[&candidates, &empty]).unwrap_err(),
        CandidateParameterBindingError::EmptyCandidateSet {
            candidate_set: "empty".to_owned(),
        }
    );
}

#[test]
fn wraps_parameter_errors_for_capacitance_bindings() {
    let error = CandidateParameterBindingError::MissingParameter {
        parameter: "cgs".to_owned(),
    };
    assert_eq!(
        CandidateCapacitanceBindingError::from_parameter(error.clone()),
        CandidateCapacitanceBindingError::Parameter(error)
    );
}

#[test]
fn partial_writes_stop_at_the_first_non_finite_parameter() {
    let candidates = CandidateSet::new(
        "stage".to_owned(),
        vec![point(&[("gm", 1.0), ("ro", f64::INFINITY)])],
    );
    let binder = CandidateParameterBinder::new(&names(&["gm", "ro"]), &[&candidates]).unwrap();
    let mut output = vec![7.0f64.to_bits(); 2];
    assert_eq!(
        binder.bind_into(&[0], &mut output),
        Err(CandidateParameterBindingError::NonFiniteParameter {
            parameter: "ro".to_owned(),
            candidate_set: "stage".to_owned(),
            candidate_index: 0,
        })
    );
    assert_eq!(floats(&output), [1.0, 7.0]);
}
