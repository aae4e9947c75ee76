use shapeic_core::analysis::InvalidAdaptiveAcConfig;
use shapeic_core::exploration::binding::{
    CandidateCapacitanceBindingError, CandidateParameterBindingError,
};
use shapeic_core::exploration::candidate::CandidateJoinError;
use shapeic_core::exploration::combination::CandidateCombinationJoinError;
use shapeic_core::exploration::filter::{CandidateFilterError, InvalidCandidateFilter};
use shapeic_core::macro_model::catalog::MacroCatalogError;
use shapeic_core::macro_model::combination::MacroCandidateCombinationError;
use shapeic_core::macro_model::derivation::MacroDerivationReductionError;
use shapeic_core::macro_model::execution::MacroExecutionConfigError;
use shapeic_core::macro_model::hierarchy::{
    MacroHierarchyInputRegistrationError, MacroHierarchyPath, MacroHierarchyPathError,
};
use shapeic_core::macro_model::hierarchy_selection::{
    MacroHierarchyInstancePathError, MacroHierarchySelectionError,
};
use shapeic_core::macro_model::input::MacroExplorationInstanceKind;
use shapeic_core::macro_model::resolution::MacroDerivationResolutionError;

fn s(text: &str) -> String {
    text.to_owned()
}

#[test]
fn numbers_are_written_in_decimal() {
    assert_eq!(
        MacroDerivationReductionError::NonFiniteSource { index: 0 }.to_string(),
        "derivation source row 0 is not finite"
    );
    assert_eq!(
        MacroDerivationReductionError::NonFiniteSource { index: 1207 }.to_string(),
        "derivation source row 1207 is not finite"
    );
    assert_eq!(
        MacroExecutionConfigError::ElectricalBatchSizeOverflow { workers: usize::MAX }.to_string(),
        format!("default electrical analysis batch size overflows for {} workers", usize::MAX)
    );
    assert_eq!(
        CandidateJoinError::PairCountOverflow {
            left_count: 10,
            right_count: 90
        }
        .to_string(),
        "candidate pair count overflows usize: 10 * 90"
    );
}

#[test]
fn filter_and_join_errors_name_the_set_point_and_column() {
    assert_eq!(
        CandidateFilterError::ColumnNameMismatch {
            set: s("xa"),
            point_index: 3,
            column_index: 1,
            expected: s("xa.w"),
            actual: s("xa.l"),
        }
        .to_string(),
        "candidate set 'xa' point 3 column 1 is 'xa.l', expected 'xa.w'"
    );
    assert_eq!(
        InvalidCandidateFilter::InvertedRange { column: s("gm") }.to_string(),
        "candidate filter for 'gm' has a minimum greater than its maximum"
    );
    assert_eq!(
        CandidateCombinationJoinError::SameSetEquality {
            set_index: 2,
            left_column: s("a"),
            right_column: s("b"),
        }
        .to_string(),
        "candidate equality cannot compare 'a' and 'b' within set 2"
    );
    assert_eq!(
        InvalidAdaptiveAcConfig.to_string(),
        "invalid adaptive AC configuration"
    );
}

#[test]
fn binding_errors_join_candidate_sets_and_nest_messages() {
    let ambiguous = CandidateParameterBindingError::AmbiguousParameter {
        parameter: s("gm"),
        candidate_sets: vec![s("xa"), s("xb"), s("xc")],
    };
    assert_eq!(
        ambiguous.to_string(),
        "parameter 'gm' is supplied by multiple candidate sets: xa, xb, xc"
    );
    assert_eq!(
        CandidateCapacitanceBindingError::Parameter(ambiguous).to_string(),
        "could not bind capacitances: parameter 'gm' is supplied by multiple candidate sets: xa, xb, xc"
    );
    assert_eq!(
        CandidateParameterBindingError::AmbiguousParameter {
            parameter: s("gm"),
            candidate_sets: Vec::new(),
        }
        .to_string(),
        "parameter 'gm' is supplied by multiple candidate sets: "
    );
}

#[test]
fn macro_errors_name_the_macro_and_its_instances() {
    assert_eq!(
        MacroCatalogError::DuplicateMacro { name: s("stage") }.to_string(),
        "macro 'stage' is already registered"
    );
    assert_eq!(
        MacroCandidateCombinationError::CandidateInstanceKindMismatch {
            macro_name: s("top"),
            instance_path: s("xm"),
            expected: MacroExplorationInstanceKind::CompactMacro,
            actual: MacroExplorationInstanceKind::LinearElement,
        }
        .to_string(),
        "macro 'top' candidate instance 'xm' is a linear element, expected a compact macro"
    );
    assert_eq!(
        MacroCandidateCombinationError::CandidateJoin(
            CandidateCombinationJoinError::EmptyCandidateSet { set: s("xa") }
        )
        .to_string(),
        "could not prepare the indexed macro candidate join: candidate set 'xa' is empty"
    );
    assert_eq!(
        MacroDerivationResolutionError::Reduction {
            parent: s("top"),
            child_instance: s("xchild"),
            rule_index: 4,
            error: MacroDerivationReductionError::EmptySource,
        }
        .to_string(),
        "macro 'top' derivation rule 4 for child 'xchild' cannot reduce its values: derivation reduction has no source rows"
    );
}

#[test]
fn hierarchy_errors_render_paths_with_dots() {
    let path = MacroHierarchyPath::root(s("ota"))
        .unwrap()
        .child(s("xstage"))
        .unwrap();
    assert_eq!(
        MacroHierarchyInputRegistrationError::DuplicatePath { path: path.clone() }.to_string(),
        "hierarchy path 'ota.xstage' is already configured"
    );
    assert_eq!(
        MacroHierarchySelectionError::CandidateIndexOutOfRange {
            path,
            instance: s("x1"),
            index: 7,
            candidate_count: 3,
        }
        .to_string(),
        "selected candidate index 7 for 'ota.xstage::x1' is outside 0..3"
    );
    assert_eq!(
        MacroHierarchyPathError::AmbiguousComponent {
            index: 2,
            component: s("x.bad"),
        }
        .to_string(),
        "hierarchy path component 2 ('x.bad') contains '.'"
    );
    assert_eq!(
        MacroHierarchyInstancePathError::AmbiguousInstance { instance: s("a::b") }.to_string(),
        "hierarchical instance name 'a::b' contains the reserved '::' separator"
    );
}
