use shapeic_core::macro_model::hierarchy::{
    MacroDerivationPruneReason, MacroHierarchyPath, MacroHierarchyPathError,
};
use shapeic_core::macro_model::hierarchy_result::MacroHierarchyNodeStatus;
use shapeic_core::macro_model::traversal::{
    HierarchyAction, HierarchyTraversal, MacroHierarchyExplorationStage,
};

fn path(components: &[&str]) -> MacroHierarchyPath {
    let mut current = MacroHierarchyPath::root(components[0].to_owned()).unwrap();
    for component in &components[1..] {
        current = current.child((*component).to_owned()).unwrap();
    }
    current
}

fn names(items: &[&str]) -> Vec<String> {
    items.iter().map(|item| (*item).to_owned()).collect()
}

fn pending() -> MacroHierarchyNodeStatus {
    MacroHierarchyNodeStatus::NotReached { blocked_by: None }
}

fn expect_explore(action: &HierarchyAction, at: &[&str], stage: MacroHierarchyExplorationStage) {
    match action {
        HierarchyAction::Explore { path: p, stage: s } => {
            assert_eq!(p, &path(at));
            assert_eq!(*s, stage);
        }
        _ => panic!("expected an exploration of {:?}", at),
    }
}

fn expect_derive(action: &HierarchyAction, parent: &[&str], instance: &str) {
    match action {
        HierarchyAction::Derive { parent: p, child_instance, child } => {
            assert_eq!(p, &path(parent));
            assert_eq!(child_instance, instance);
            let mut full = parent.to_vec();
            full.push(instance);
            assert_eq!(child, &path(&full));
        }
        _ => panic!("expected a derivation of {}", instance),
    }
}

fn status_of(traversal: &HierarchyTraversal, at: &[&str]) -> MacroHierarchyNodeStatus {
    let target = path(at);
    traversal
        .nodes()
        .iter()
        .find(|(p, _)| *p == target)
        .map(|(_, status)| status.clone())
        .unwrap()
}

#[test]
fn traversal_is_depth_first_with_preview_and_refresh() {
    let nodes = vec![
        (path(&["top"]), pending()),
        (path(&["top", "a"]), pending()),
        (path(&["top", "b"]), pending()),
        (path(&["top", "b", "c"]), pending()),
    ];
    let mut traversal = HierarchyTraversal::new(nodes, path(&["top"]), names(&["a", "b"]));
    let action = traversal.next_action();
    expect_explore(&action, &["top"], MacroHierarchyExplorationStage::Preview);
    let action = traversal.explored(true);
    expect_derive(&action, &["top"], "a");
    let action = traversal.derived(None, Vec::new());
    expect_explore(&action, &["top", "a"], MacroHierarchyExplorationStage::Leaf);
    let action = traversal.explored(false);
    expect_derive(&action, &["top"], "b");
    let action = traversal.derived(None, names(&["c"]));
    expect_explore(&action, &["top", "b"], MacroHierarchyExplorationStage::Preview);
    let action = traversal.explored(true);
    expect_derive(&action, &["top", "b"], "c");
    let action = traversal.derived(Some(MacroDerivationPruneReason::NoAcceptedParentCandidates), Vec::new());
    expect_explore(&action, &["top", "b"], MacroHierarchyExplorationStage::Refresh);
    let action = traversal.explored(true);
    expect_explore(&action, &["top"], MacroHierarchyExplorationStage::Refresh);
    let action = traversal.explored(true);
    assert!(matches!(action, HierarchyAction::Done));

    assert_eq!(status_of(&traversal, &["top"]), MacroHierarchyNodeStatus::Refreshed);
    assert_eq!(status_of(&traversal, &["top", "a"]), MacroHierarchyNodeStatus::ExploredLeaf);
    assert_eq!(status_of(&traversal, &["top", "b"]), MacroHierarchyNodeStatus::Refreshed);
    assert_eq!(
        status_of(&traversal, &["top", "b", "c"]),
        MacroHierarchyNodeStatus::DerivationPruned {
            reason: MacroDerivationPruneReason::NoAcceptedParentCandidates
        }
    );
    assert_eq!(traversal.into_nodes().len(), 4);
}

#[test]
fn a_rejected_preview_blocks_every_descendant() {
    let nodes = vec![
        (path(&["top"]), pending()),
        (path(&["top", "a"]), pending()),
        (path(&["top", "a", "x"]), pending()),
    ];
    let mut traversal = HierarchyTraversal::new(nodes, path(&["top"]), names(&["a"]));
    let action = traversal.explored(false);
    assert!(matches!(action, HierarchyAction::Done));
    assert_eq!(status_of(&traversal, &["top"]), MacroHierarchyNodeStatus::PreviewRejected);
    let blocked = MacroHierarchyNodeStatus::NotReached { blocked_by: Some(path(&["top"])) };
    assert_eq!(status_of(&traversal, &["top", "a"]), blocked);
    assert_eq!(status_of(&traversal, &["top", "a", "x"]), blocked);
}

#[test]
fn a_pruned_child_blocks_its_own_descendants_only() {
    let nodes = vec![
        (path(&["top"]), pending()),
        (path(&["top", "a"]), pending()),
        (path(&["top", "a", "x"]), pending()),
        (path(&["top", "b"]), pending()),
    ];
    let mut traversal = HierarchyTraversal::new(nodes, path(&["top"]), names(&["a", "b"]));
    traversal.explored(true);
    let reason = MacroDerivationPruneReason::ConflictingSpecification { specification: "gain".to_owned() };
    let action = traversal.derived(Some(reason.clone()), names(&["x"]));
    expect_derive(&action, &["top"], "b");
    assert_eq!(
        status_of(&traversal, &["top", "a"]),
        MacroHierarchyNodeStatus::DerivationPruned { reason }
    );
    assert_eq!(
        status_of(&traversal, &["top", "a", "x"]),
        MacroHierarchyNodeStatus::NotReached { blocked_by: Some(path(&["top", "a"])) }
    );
    assert_eq!(status_of(&traversal, &["top", "b"]), pending());
}

#[test]
fn a_root_without_submacros_is_explored_once_as_a_leaf() {
    let mut traversal = HierarchyTraversal::new(vec![(path(&["leaf"]), pending())], path(&["leaf"]), Vec::new());
    expect_explore(&traversal.next_action(), &["leaf"], MacroHierarchyExplorationStage::Leaf);
    assert!(matches!(traversal.explored(true), HierarchyAction::Done));
    assert_eq!(status_of(&traversal, &["leaf"]), MacroHierarchyNodeStatus::ExploredLeaf);
}

#[test]
fn an_invalid_child_name_is_reported_with_its_position() {
    let mut traversal = HierarchyTraversal::new(vec![(path(&["top"]), pending())], path(&["top"]), names(&["x.y"]));
    match traversal.explored(true) {
        HierarchyAction::InvalidChild { parent, child_instance, error } => {
            assert_eq!(parent, path(&["top"]));
            assert_eq!(child_instance, "x.y");
            assert_eq!(
                error,
                MacroHierarchyPathError::AmbiguousComponent { index: 1, component: "x.y".to_owned() }
            );
        }
        _ => panic!("expected an invalid child"),
    }
    assert_eq!(status_of(&traversal, &["top"]), pending());
}

#[test]
fn exploration_stages_read_as_words() {
    assert_eq!(MacroHierarchyExplorationStage::Preview.to_string(), "preview");
    assert_eq!(MacroHierarchyExplorationStage::Leaf.to_string(), "leaf exploration");
    assert_eq!(MacroHierarchyExplorationStage::Refresh.to_string(), "parent refresh");
}
