//! Traversal summary of a hierarchical exploration.
use vstd::prelude::*;

use crate::macro_model::hierarchy::{MacroDerivationPruneReason, MacroHierarchyPath};

verus! {

/// Whether complete provisional parent results are kept.
#[derive(Debug, Clone, Copy, PartialEq, Eq, Structural)]
pub enum MacroHierarchyRetentionPolicy {
    Summaries,
    FullPreviews,
}

impl Default for MacroHierarchyRetentionPolicy {
    fn default() -> (policy: Self)
        ensures
            policy == MacroHierarchyRetentionPolicy::Summaries,
    {
        MacroHierarchyRetentionPolicy::Summaries
    }
}

/// Final execution state of one macro occurrence.
#[derive(Debug, Clone, PartialEq, Eq)]
pub enum MacroHierarchyNodeStatus {
    NotReached { blocked_by: Option<MacroHierarchyPath> },
    ExploredLeaf,
    BlackBox { candidates: usize },
    PreviewRejected,
    DerivationPruned { reason: MacroDerivationPruneReason },
    Refreshed,
    PreviewFinalized,
}

/// What the traversal summary reads of one node: its status and the
/// frequency evaluations of its preview and of its definitive result, when it
/// has them.
#[derive(Debug, Clone, PartialEq, Eq)]
pub struct MacroHierarchyNodeCounts {
    pub status: MacroHierarchyNodeStatus,
    pub preview_frequency_evaluations: Option<usize>,
    pub result_frequency_evaluations: Option<usize>,
}

/// Frequency evaluations a node contributes: its preview's, and its result's
/// when it is an explored leaf or a refreshed parent.
pub open spec fn node_frequency(node: MacroHierarchyNodeCounts) -> nat {
    let preview: nat = match node.preview_frequency_evaluations {
        Some(n) => n as nat,
        None => 0,
    };
    let result: nat = match node.status {
        MacroHierarchyNodeStatus::ExploredLeaf | MacroHierarchyNodeStatus::Refreshed => match node.result_frequency_evaluations {
            Some(n) => n as nat,
            None => 0,
        },
        _ => 0,
    };
    preview + result
}

/// Total frequency evaluations of the first `n` nodes.
pub open spec fn frequency_sum(nodes: Seq<MacroHierarchyNodeCounts>, n: int) -> nat
    decreases n,
{
    if n <= 0 {
        0
    } else {
        frequency_sum(nodes, n - 1) + node_frequency(nodes[n - 1])
    }
}

/// Number of the first `n` nodes satisfying `pred`.
pub open spec fn count_nodes(nodes: Seq<MacroHierarchyNodeCounts>, pred: spec_fn(MacroHierarchyNodeCounts) -> bool, n: int) -> nat
    decreases n,
{
    if n <= 0 {
        0
    } else {
        count_nodes(nodes, pred, n - 1) + if pred(nodes[n - 1]) {
            1nat
        } else {
            0nat
        }
    }
}

/// Aggregate traversal counts and wall-clock time of a hierarchy run.
#[derive(Debug, PartialEq, Eq)]
pub struct MacroHierarchyStatistics {
    total_paths: usize,
    explored_leaves: usize,
    refreshed_parents: usize,
    blackboxes: usize,
    finalized_previews: usize,
    preview_rejections: usize,
    derivation_pruned: usize,
    not_reached: usize,
    previews_executed: usize,
    definitive_evaluations: usize,
    frequency_evaluations: usize,
    total_duration: std::time::Duration,
}

/// The node has the given status kind.
pub open spec fn is_not_reached(node: MacroHierarchyNodeCounts) -> bool {
    node.status is NotReached
}

/// The node is an explored leaf.
pub open spec fn is_explored_leaf(node: MacroHierarchyNodeCounts) -> bool {
    node.status is ExploredLeaf
}

/// The node is a blackbox.
pub open spec fn is_blackbox(node: MacroHierarchyNodeCounts) -> bool {
    node.status is BlackBox
}

/// The node's preview accepted nothing.
pub open spec fn is_preview_rejected(node: MacroHierarchyNodeCounts) -> bool {
    node.status is PreviewRejected
}

/// The node was pruned by derived conditions.
pub open spec fn is_derivation_pruned(node: MacroHierarchyNodeCounts) -> bool {
    node.status is DerivationPruned
}

/// The node is a refreshed parent.
pub open spec fn is_refreshed(node: MacroHierarchyNodeCounts) -> bool {
    node.status is Refreshed
}

/// The node's preview was final.
pub open spec fn is_preview_finalized(node: MacroHierarchyNodeCounts) -> bool {
    node.status is PreviewFinalized
}

/// The node ran a preview.
pub open spec fn has_preview(node: MacroHierarchyNodeCounts) -> bool {
    node.preview_frequency_evaluations is Some
}

impl MacroHierarchyStatistics {
    /// Every planned path has exactly one status, the definitive
    /// evaluations are the leaves, refreshed parents and finalized previews,
    /// and no more previews ran than there are paths.
    #[verifier::type_invariant]
    spec fn balanced(self) -> bool {
        &&& self.explored_leaves + self.refreshed_parents + self.blackboxes + self.finalized_previews
            + self.preview_rejections + self.derivation_pruned + self.not_reached == self.total_paths
        &&& self.definitive_evaluations == self.explored_leaves + self.refreshed_parents + self.finalized_previews
        &&& self.previews_executed <= self.total_paths
    }

    /// Every count and the duration, as a tuple of views.
    pub closed spec fn counts(&self) -> (nat, nat, nat, nat, nat, nat, nat, nat, nat, nat, nat) {
        (
            self.total_paths as nat,
            self.explored_leaves as nat,
            self.refreshed_parents as nat,
            self.blackboxes as nat,
            self.finalized_previews as nat,
            self.preview_rejections as nat,
            self.derivation_pruned as nat,
            self.not_reached as nat,
            self.previews_executed as nat,
            self.definitive_evaluations as nat,
            self.frequency_evaluations as nat,
        )
    }

    /// The duration.
    pub closed spec fn duration_view(&self) -> std::time::Duration {
        self.total_duration
    }

    /// Summarizes the nodes of a traversal: one count per final status,
    /// previews executed, definitive evaluations (leaves, refreshed parents,
    /// finalized previews) and every frequency evaluation.
    pub fn from_nodes(nodes: &[MacroHierarchyNodeCounts], total_duration: std::time::Duration) -> (statistics: Self)
        requires
            frequency_sum(nodes@, nodes@.len() as int) <= usize::MAX,
        ensures
            statistics.counts().0 == nodes@.len(),
            statistics.counts().1 == count_nodes(nodes@, |n| is_explored_leaf(n), nodes@.len() as int),
            statistics.counts().2 == count_nodes(nodes@, |n| is_refreshed(n), nodes@.len() as int),
            statistics.counts().3 == count_nodes(nodes@, |n| is_blackbox(n), nodes@.len() as int),
            statistics.counts().4 == count_nodes(nodes@, |n| is_preview_finalized(n), nodes@.len() as int),
            statistics.counts().5 == count_nodes(nodes@, |n| is_preview_rejected(n), nodes@.len() as int),
            statistics.counts().6 == count_nodes(nodes@, |n| is_derivation_pruned(n), nodes@.len() as int),
            statistics.counts().7 == count_nodes(nodes@, |n| is_not_reached(n), nodes@.len() as int),
            statistics.counts().8 == count_nodes(nodes@, |n| has_preview(n), nodes@.len() as int),
            statistics.counts().9 == statistics.counts().1 + statistics.counts().2 + statistics.counts().4,
            statistics.counts().10 == frequency_sum(nodes@, nodes@.len() as int),
            statistics.counts().1 + statistics.counts().2 + statistics.counts().3 + statistics.counts().4
                + statistics.counts().5 + statistics.counts().6 + statistics.counts().7 == statistics.counts().0,
            statistics.duration_view() == total_duration,
    {
        let ghost s = nodes@;
        let n = nodes.len();
        let mut explored_leaves: usize = 0;
        let mut refreshed_parents: usize = 0;
        let mut blackboxes: usize = 0;
        let mut finalized_previews: usize = 0;
        let mut preview_rejections: usize = 0;
        let mut derivation_pruned: usize = 0;
        let mut not_reached: usize = 0;
        let mut previews_executed: usize = 0;
        let mut definitive_evaluations: usize = 0;
        let mut frequency_evaluations: usize = 0;
        let mut i: usize = 0;
        while i < n
            invariant
                n == s.len(),
                s == nodes@,
                i <= n,
                frequency_sum(s, n as int) <= usize::MAX,
                explored_leaves == count_nodes(s, |x| is_explored_leaf(x), i as int),
                refreshed_parents == count_nodes(s, |x| is_refreshed(x), i as int),
                blackboxes == count_nodes(s, |x| is_blackbox(x), i as int),
                finalized_previews == count_nodes(s, |x| is_preview_finalized(x), i as int),
                preview_rejections == count_nodes(s, |x| is_preview_rejected(x), i as int),
                derivation_pruned == count_nodes(s, |x| is_derivation_pruned(x), i as int),
                not_reached == count_nodes(s, |x| is_not_reached(x), i as int),
                previews_executed == count_nodes(s, |x| has_preview(x), i as int),
                definitive_evaluations == explored_leaves + refreshed_parents
                    + finalized_previews,
                frequency_evaluations == frequency_sum(s, i as int),
                explored_leaves + refreshed_parents + blackboxes
                    + finalized_previews + preview_rejections + derivation_pruned
                    + not_reached == i,
                previews_executed <= i,
            decreases n - i,
        {
            proof {
                lemma_frequency_sum_monotone(s, i + 1, n as int);
            }
            let node = &nodes[i];
            if let Some(preview) = node.preview_frequency_evaluations {
                previews_executed = previews_executed + 1;
                frequency_evaluations = frequency_evaluations + preview;
            }
            match &node.status {
                MacroHierarchyNodeStatus::NotReached { .. } => {
                    not_reached = not_reached + 1;
                },
                MacroHierarchyNodeStatus::ExploredLeaf => {
                    explored_leaves = explored_leaves + 1;
                    definitive_evaluations = definitive_evaluations + 1;
                    if let Some(result) = node.result_frequency_evaluations {
                        frequency_evaluations = frequency_evaluations + result;
                    }
                },
                MacroHierarchyNodeStatus::BlackBox { .. } => {
                    blackboxes = blackboxes + 1;
                },
                MacroHierarchyNodeStatus::PreviewRejected => {
                    preview_rejections = preview_rejections + 1;
                },
                MacroHierarchyNodeStatus::DerivationPruned { .. } => {
                    derivation_pruned = derivation_pruned + 1;
                },
                MacroHierarchyNodeStatus::Refreshed => {
                    refreshed_parents = refreshed_parents + 1;
                    definitive_evaluations = definitive_evaluations + 1;
                    if let Some(result) = node.result_frequency_evaluations {
                        frequency_evaluations = frequency_evaluations + result;
                    }
                },
                MacroHierarchyNodeStatus::PreviewFinalized => {
                    finalized_previews = finalized_previews + 1;
                    definitive_evaluations = definitive_evaluations + 1;
                },
            }
            i = i + 1;
        }
        MacroHierarchyStatistics {
            total_paths: n,
            explored_leaves,
            refreshed_parents,
            blackboxes,
            finalized_previews,
            preview_rejections,
            derivation_pruned,
            not_reached,
            previews_executed,
            definitive_evaluations,
            frequency_evaluations,
            total_duration,
        }
    }

    /// Returns every planned occurrence, reached or not.
    pub fn total_paths(&self) -> (n: usize)
        ensures
            n == self.counts().0,
            n == self.counts().1 + self.counts().2 + self.counts().3 + self.counts().4 + self.counts().5
                + self.counts().6 + self.counts().7,
    {
        proof {
            use_type_invariant(self);
        }
        self.total_paths
    }

    /// Returns the leaves evaluated definitively.
    pub fn explored_leaves(&self) -> (n: usize)
        ensures
            n == self.counts().1,
    {
        self.explored_leaves
    }

    /// Returns the parents evaluated again with projected children.
    pub fn refreshed_parents(&self) -> (n: usize)
        ensures
            n == self.counts().2,
    {
        self.refreshed_parents
    }

    /// Returns the children treated as compact blackboxes.
    pub fn blackboxes(&self) -> (n: usize)
        ensures
            n == self.counts().3,
    {
        self.blackboxes
    }

    /// Returns the previews reused as definitive results.
    pub fn finalized_previews(&self) -> (n: usize)
        ensures
            n == self.counts().4,
    {
        self.finalized_previews
    }

    /// Returns the previews that accepted nothing.
    pub fn preview_rejections(&self) -> (n: usize)
        ensures
            n == self.counts().5,
    {
        self.preview_rejections
    }

    /// Returns the children pruned by contradictory derived conditions.
    pub fn derivation_pruned(&self) -> (n: usize)
        ensures
            n == self.counts().6,
    {
        self.derivation_pruned
    }

    /// Returns the occurrences the traversal never reached.
    pub fn not_reached(&self) -> (n: usize)
        ensures
            n == self.counts().7,
    {
        self.not_reached
    }

    /// Returns the previews executed.
    pub fn previews_executed(&self) -> (n: usize)
        ensures
            n == self.counts().8,
            n <= self.counts().0,
    {
        proof {
            use_type_invariant(self);
        }
        self.previews_executed
    }

    /// Returns the definitive evaluations.
    pub fn definitive_evaluations(&self) -> (n: usize)
        ensures
            n == self.counts().9,
            n == self.counts().1 + self.counts().2 + self.counts().4,
            n <= self.counts().0,
    {
        proof {
            use_type_invariant(self);
        }
        self.definitive_evaluations
    }

    /// Returns the frequency evaluations of previews and definitive results.
    pub fn frequency_evaluations(&self) -> (n: usize)
        ensures
            n == self.counts().10,
    {
        self.frequency_evaluations
    }

    /// Returns the wall-clock time of the run.
    pub fn total_duration(&self) -> (duration: std::time::Duration)
        ensures
            duration == self.duration_view(),
    {
        self.total_duration
    }
}

/// A longer prefix has at least the frequency evaluations of a shorter one.
proof fn lemma_frequency_sum_monotone(nodes: Seq<MacroHierarchyNodeCounts>, a: int, b: int)
    requires
        0 <= a <= b,
    ensures
        frequency_sum(nodes, a) <= frequency_sum(nodes, b),
    decreases b - a,
{
    if a < b {
        lemma_frequency_sum_monotone(nodes, a, b - 1);
    }
}

} // verus!
