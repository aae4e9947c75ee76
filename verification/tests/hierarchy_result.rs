use std::time::Duration;

use shapeic_core::macro_model::hierarchy::MacroDerivationPruneReason;
use shapeic_core::macro_model::hierarchy_result::{
    MacroHierarchyNodeCounts, MacroHierarchyNodeStatus, MacroHierarchyRetentionPolicy,
    MacroHierarchyStatistics,
};

fn node(
    status: MacroHierarchyNodeStatus,
    preview: Option<usize>,
    result: Option<usize>,
) -> MacroHierarchyNodeCounts {
    MacroHierarchyNodeCounts {
        status,
        preview_frequency_evaluations: preview,
        result_frequency_evaluations: result,
    }
}

#[test]
fn summarizes_every_final_node_status() {
    let nodes = [
        node(MacroHierarchyNodeStatus::ExploredLeaf, None, Some(10)),
        node(MacroHierarchyNodeStatus::Refreshed, Some(4), Some(6)),
        node(MacroHierarchyNodeStatus::PreviewFinalized, Some(3), Some(100)),
        node(MacroHierarchyNodeStatus::PreviewRejected, Some(2), None),
        node(MacroHierarchyNodeStatus::BlackBox { candidates: 3 }, None, Some(50)),
        node(
            MacroHierarchyNodeStatus::DerivationPruned {
                reason: MacroDerivationPruneReason::ConflictingDesignVariable {
                    variable: "bias".to_owned(),
                },
            },
            None,
            None,
        ),
        node(MacroHierarchyNodeStatus::NotReached { blocked_by: None }, None, None),
    ];
    let statistics = MacroHierarchyStatistics::from_nodes(&nodes, Duration::from_millis(5));

    assert_eq!(statistics.total_paths(), 7);
    assert_eq!(statistics.explored_leaves(), 1);
    assert_eq!(statistics.refreshed_parents(), 1);
    assert_eq!(statistics.finalized_previews(), 1);
    assert_eq!(statistics.preview_rejections(), 1);
    assert_eq!(statistics.blackboxes(), 1);
    assert_eq!(statistics.derivation_pruned(), 1);
    assert_eq!(statistics.not_reached(), 1);
    assert_eq!(statistics.previews_executed(), 3);
    assert_eq!(statistics.definitive_evaluations(), 3);
    assert_eq!(statistics.frequency_evaluations(), 25);
    assert_eq!(statistics.total_duration(), Duration::from_millis(5));
}

#[test]
fn an_empty_traversal_has_no_counts_and_summaries_are_the_default_retention() {
    let statistics = MacroHierarchyStatistics::from_nodes(&[], Duration::ZERO);
    assert_eq!(statistics.total_paths(), 0);
    assert_eq!(statistics.frequency_evaluations(), 0);
    assert_eq!(
        MacroHierarchyRetentionPolicy::default(),
        MacroHierarchyRetentionPolicy::Summaries
    );
}
