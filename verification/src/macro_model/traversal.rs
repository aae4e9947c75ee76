//! The decisions of a one-pass, depth-first hierarchical exploration: which
//! occurrence to explore, preview or refresh next, which child to derive
//! conditions for, and the final status of each planned occurrence. The
//! explorations and derivations themselves are run by the caller, which
//! reports their outcome back.
use vstd::prelude::*;

use crate::macro_model::hierarchy::{
    component_rejected, component_valid, components_equal, MacroDerivationPruneReason, MacroHierarchyPath,
    MacroHierarchyPathError,
};
use crate::macro_model::hierarchy_result::MacroHierarchyNodeStatus;
use crate::text::{clone_strings, string_views};

verus! {

/// What the status of an occurrence says, with paths as their components.
pub enum StatusView {
    NotReached { blocked_by: Option<Seq<Seq<char>>> },
    ExploredLeaf,
    BlackBox { candidates: usize },
    PreviewRejected,
    DerivationPruned { reason: MacroDerivationPruneReason },
    Refreshed,
    PreviewFinalized,
}

/// What a status says.
pub open spec fn status_view(status: MacroHierarchyNodeStatus) -> StatusView {
    match status {
        MacroHierarchyNodeStatus::NotReached { blocked_by } => StatusView::NotReached {
            blocked_by: match blocked_by {
                Some(path) => Some(path.view()),
                None => None,
            },
        },
        MacroHierarchyNodeStatus::ExploredLeaf => StatusView::ExploredLeaf,
        MacroHierarchyNodeStatus::BlackBox { candidates } => StatusView::BlackBox { candidates },
        MacroHierarchyNodeStatus::PreviewRejected => StatusView::PreviewRejected,
        MacroHierarchyNodeStatus::DerivationPruned { reason } => StatusView::DerivationPruned { reason },
        MacroHierarchyNodeStatus::Refreshed => StatusView::Refreshed,
        MacroHierarchyNodeStatus::PreviewFinalized => StatusView::PreviewFinalized,
    }
}

/// The planned occurrences and their statuses.
pub open spec fn nodes_view(nodes: Seq<(MacroHierarchyPath, MacroHierarchyNodeStatus)>) -> Seq<(Seq<Seq<char>>, StatusView)> {
    nodes.map_values(|n: (MacroHierarchyPath, MacroHierarchyNodeStatus)| (n.0.view(), status_view(n.1)))
}

/// Every occurrence at `path` takes `status`.
pub open spec fn with_status(
    nodes: Seq<(Seq<Seq<char>>, StatusView)>,
    path: Seq<Seq<char>>,
    status: StatusView,
) -> Seq<(Seq<Seq<char>>, StatusView)> {
    Seq::new(nodes.len(), |i: int| if nodes[i].0 == path { (nodes[i].0, status) } else { nodes[i] })
}

/// `path` lies strictly below `ancestor`.
pub open spec fn strictly_below(path: Seq<Seq<char>>, ancestor: Seq<Seq<char>>) -> bool {
    path.len() > ancestor.len() && path.take(ancestor.len() as int) == ancestor
}

/// Every occurrence strictly below `ancestor` that was not reached is now
/// blocked by `by`.
pub open spec fn blocked_below(
    nodes: Seq<(Seq<Seq<char>>, StatusView)>,
    ancestor: Seq<Seq<char>>,
    by: Seq<Seq<char>>,
) -> Seq<(Seq<Seq<char>>, StatusView)> {
    Seq::new(
        nodes.len(),
        |i: int|
            if strictly_below(nodes[i].0, ancestor) && nodes[i].1 is NotReached {
                (nodes[i].0, StatusView::NotReached { blocked_by: Some(by) })
            } else {
                nodes[i]
            },
    )
}

/// Copies a prune reason.
fn copy_reason(reason: &MacroDerivationPruneReason) -> (copy: MacroDerivationPruneReason)
    ensures
        copy == *reason,
{
    match reason {
        MacroDerivationPruneReason::NoAcceptedParentCandidates => MacroDerivationPruneReason::NoAcceptedParentCandidates,
        MacroDerivationPruneReason::ConflictingSpecification { specification } => {
            MacroDerivationPruneReason::ConflictingSpecification { specification: specification.clone() }
        },
        MacroDerivationPruneReason::ConflictingDesignVariable { variable } => {
            MacroDerivationPruneReason::ConflictingDesignVariable { variable: variable.clone() }
        },
    }
}

/// Copies a status.
fn copy_status(status: &MacroHierarchyNodeStatus) -> (copy: MacroHierarchyNodeStatus)
    ensures
        status_view(copy) == status_view(*status),
{
    match status {
        MacroHierarchyNodeStatus::NotReached { blocked_by } => MacroHierarchyNodeStatus::NotReached {
            blocked_by: match blocked_by {
                Some(path) => Some(path.copy()),
                None => None,
            },
        },
        MacroHierarchyNodeStatus::ExploredLeaf => MacroHierarchyNodeStatus::ExploredLeaf,
        MacroHierarchyNodeStatus::BlackBox { candidates } => MacroHierarchyNodeStatus::BlackBox { candidates: *candidates },
        MacroHierarchyNodeStatus::PreviewRejected => MacroHierarchyNodeStatus::PreviewRejected,
        MacroHierarchyNodeStatus::DerivationPruned { reason } => MacroHierarchyNodeStatus::DerivationPruned {
            reason: copy_reason(reason),
        },
        MacroHierarchyNodeStatus::Refreshed => MacroHierarchyNodeStatus::Refreshed,
        MacroHierarchyNodeStatus::PreviewFinalized => MacroHierarchyNodeStatus::PreviewFinalized,
    }
}

/// Gives every occurrence at `path` the status `status`.
fn set_status(
    nodes: &mut Vec<(MacroHierarchyPath, MacroHierarchyNodeStatus)>,
    path: &MacroHierarchyPath,
    status: &MacroHierarchyNodeStatus,
)
    ensures
        nodes_view(final(nodes)@) == with_status(nodes_view(old(nodes)@), path.view(), status_view(*status)),
{
    let ghost start = nodes_view(nodes@);
    let ghost target = with_status(start, path.view(), status_view(*status));
    let n = nodes.len();
    let mut i: usize = 0;
    while i < n
        invariant
            n == nodes@.len(),
            start.len() == n,
            target == with_status(start, path.view(), status_view(*status)),
            i <= n,
            forall|k: int| 0 <= k < i ==> #[trigger] nodes_view(nodes@)[k] == target[k],
            forall|k: int| i <= k < n ==> #[trigger] nodes_view(nodes@)[k] == start[k],
        decreases n - i,
    {
        let ghost before = nodes@;
        assert(nodes_view(before)[i as int] == start[i as int]);
        if components_equal(nodes[i].0.components(), path.components()) {
            let kept = nodes[i].0.copy();
            let entry = (kept, copy_status(status));
            nodes.set(i, entry);
        }
        proof {
            assert(nodes_view(nodes@)[i as int] == target[i as int]);
            assert forall|k: int| 0 <= k < i + 1 implies #[trigger] nodes_view(nodes@)[k] == target[k] by {
                if k < i {
                    assert(nodes@[k] == before[k]);
                    assert(nodes_view(before)[k] == target[k]);
                }
            }
            assert forall|k: int| i + 1 <= k < n implies #[trigger] nodes_view(nodes@)[k] == start[k] by {
                assert(nodes@[k] == before[k]);
                assert(nodes_view(before)[k] == start[k]);
            }
        }
        i = i + 1;
    }
    assert(nodes_view(nodes@) =~= target);
}

/// Returns whether `path` lies strictly below `ancestor`.
fn is_strictly_below(path: &MacroHierarchyPath, ancestor: &MacroHierarchyPath) -> (below: bool)
    ensures
        below == strictly_below(path.view(), ancestor.view()),
{
    let p = path.components();
    let a = ancestor.components();
    if p.len() <= a.len() {
        return false;
    }
    let prefix = clone_strings(&p[0..a.len()]);
    proof {
        assert(string_views(p@.subrange(0, a@.len() as int)) =~= path.view().take(a@.len() as int));
    }
    components_equal(prefix.as_slice(), a)
}

/// Blocks, by `by`, every occurrence strictly below `ancestor` that was not
/// reached.
fn block_below(
    nodes: &mut Vec<(MacroHierarchyPath, MacroHierarchyNodeStatus)>,
    ancestor: &MacroHierarchyPath,
    by: &MacroHierarchyPath,
)
    ensures
        nodes_view(final(nodes)@) == blocked_below(nodes_view(old(nodes)@), ancestor.view(), by.view()),
{
    let ghost start = nodes_view(nodes@);
    let ghost target = blocked_below(start, ancestor.view(), by.view());
    let n = nodes.len();
    let mut i: usize = 0;
    while i < n
        invariant
            n == nodes@.len(),
            start.len() == n,
            target == blocked_below(start, ancestor.view(), by.view()),
            i <= n,
            forall|k: int| 0 <= k < i ==> #[trigger] nodes_view(nodes@)[k] == target[k],
            forall|k: int| i <= k < n ==> #[trigger] nodes_view(nodes@)[k] == start[k],
        decreases n - i,
    {
        let ghost before = nodes@;
        assert(nodes_view(before)[i as int] == start[i as int]);
        let pending = match &nodes[i].1 {
            MacroHierarchyNodeStatus::NotReached { .. } => true,
            _ => false,
        };
        if pending && is_strictly_below(&nodes[i].0, ancestor) {
            let kept = nodes[i].0.copy();
            let entry = (kept, MacroHierarchyNodeStatus::NotReached { blocked_by: Some(by.copy()) });
            nodes.set(i, entry);
        }
        proof {
            assert(nodes_view(nodes@)[i as int] == target[i as int]);
            assert forall|k: int| 0 <= k < i + 1 implies #[trigger] nodes_view(nodes@)[k] == target[k] by {
                if k < i {
                    assert(nodes@[k] == before[k]);
                    assert(nodes_view(before)[k] == target[k]);
                }
            }
            assert forall|k: int| i + 1 <= k < n implies #[trigger] nodes_view(nodes@)[k] == start[k] by {
                assert(nodes@[k] == before[k]);
                assert(nodes_view(before)[k] == start[k]);
            }
        }
        i = i + 1;
    }
    assert(nodes_view(nodes@) =~= target);
}

/// Stage of one path-local exploration.
#[derive(Debug, Clone, Copy, PartialEq, Eq, Structural)]
pub enum MacroHierarchyExplorationStage {
    /// Provisional parent evaluation using nominal child seeds.
    Preview,
    /// Single definitive evaluation of a macro without submacros.
    Leaf,
    /// Definitive parent evaluation using explored child projections.
    Refresh,
}

impl MacroHierarchyExplorationStage {
    /// How the stage reads.
    pub open spec fn message(&self) -> Seq<char> {
        match self {
            MacroHierarchyExplorationStage::Preview => "preview"@,
            MacroHierarchyExplorationStage::Leaf => "leaf exploration"@,
            MacroHierarchyExplorationStage::Refresh => "parent refresh"@,
        }
    }

    /// The stage as text.
    pub fn to_string(&self) -> (text: String)
        ensures
            text@ == self.message(),
    {
        match self {
            MacroHierarchyExplorationStage::Preview => String::from_str("preview"),
            MacroHierarchyExplorationStage::Leaf => String::from_str("leaf exploration"),
            MacroHierarchyExplorationStage::Refresh => String::from_str("parent refresh"),
        }
    }
}

/// One occurrence on the depth-first stack, by its components.
pub struct FrameView {
    pub path: Seq<Seq<char>>,
    /// Instance names of its direct submacros, in circuit order.
    pub children: Seq<Seq<char>>,
    /// How many children have been handed to derivation.
    pub next: int,
    /// Whether its preview has been accepted.
    pub previewed: bool,
}

/// One occurrence on the depth-first stack.
pub struct TraversalFrame {
    path: MacroHierarchyPath,
    children: Vec<String>,
    next: usize,
    previewed: bool,
}

impl TraversalFrame {
    /// What the frame says.
    pub closed spec fn view(&self) -> FrameView {
        FrameView {
            path: self.path.view(),
            children: string_views(self.children@),
            next: self.next as int,
            previewed: self.previewed,
        }
    }

    /// The path is valid, derivation has not run past the children, and only
    /// an occurrence with children is previewed.
    pub closed spec fn ok(&self) -> bool {
        &&& self.path.wf()
        &&& self.next <= self.children@.len()
        &&& !self.previewed ==> self.next == 0
        &&& self.previewed ==> self.children@.len() > 0
    }
}

/// What a stack says.
pub open spec fn frames_view(frames: Seq<TraversalFrame>) -> Seq<FrameView> {
    frames.map_values(|f: TraversalFrame| f.view())
}

/// What the caller is asked to do next, by components.
pub enum ActionView {
    Explore { path: Seq<Seq<char>>, stage: MacroHierarchyExplorationStage },
    Derive { parent: Seq<Seq<char>>, child_instance: Seq<char> },
    InvalidChild { parent: Seq<Seq<char>>, child_instance: Seq<char> },
    Done,
}

/// The next step of a depth-first exploration with stack `frames`: an
/// occurrence without submacros is explored once as a leaf; one with
/// submacros is previewed, then each child is derived in order, and then the
/// parent is refreshed; an empty stack is done.
pub open spec fn pending_action(frames: Seq<FrameView>) -> ActionView {
    if frames.len() == 0 {
        ActionView::Done
    } else {
        let top = frames.last();
        if !top.previewed {
            if top.children.len() == 0 {
                ActionView::Explore { path: top.path, stage: MacroHierarchyExplorationStage::Leaf }
            } else {
                ActionView::Explore { path: top.path, stage: MacroHierarchyExplorationStage::Preview }
            }
        } else if top.next < top.children.len() {
            if component_valid(top.children[top.next]) {
                ActionView::Derive { parent: top.path, child_instance: top.children[top.next] }
            } else {
                ActionView::InvalidChild { parent: top.path, child_instance: top.children[top.next] }
            }
        } else {
            ActionView::Explore { path: top.path, stage: MacroHierarchyExplorationStage::Refresh }
        }
    }
}

/// What the caller is asked to do next.
pub enum HierarchyAction {
    /// Assemble the local input of `path` and explore it at `stage`.
    Explore { path: MacroHierarchyPath, stage: MacroHierarchyExplorationStage },
    /// Derive, from the accepted preview of `parent`, the conditions of its
    /// child instance `child_instance`, whose path is `child`.
    Derive { parent: MacroHierarchyPath, child_instance: String, child: MacroHierarchyPath },
    /// The child instance name cannot extend the parent path.
    InvalidChild { parent: MacroHierarchyPath, child_instance: String, error: MacroHierarchyPathError },
    /// Every planned occurrence has been handled.
    Done,
}

impl HierarchyAction {
    /// What the action says.
    pub open spec fn view(&self) -> ActionView {
        match self {
            HierarchyAction::Explore { path, stage } => ActionView::Explore { path: path.view(), stage: *stage },
            HierarchyAction::Derive { parent, child_instance, .. } => ActionView::Derive {
                parent: parent.view(),
                child_instance: child_instance@,
            },
            HierarchyAction::InvalidChild { parent, child_instance, .. } => ActionView::InvalidChild {
                parent: parent.view(),
                child_instance: child_instance@,
            },
            HierarchyAction::Done => ActionView::Done,
        }
    }
}

/// `action` is the next step for `frames`, with valid paths, the child path
/// of a derivation, and the error of an invalid child name.
pub open spec fn action_fits(action: HierarchyAction, frames: Seq<FrameView>) -> bool {
    &&& action.view() == pending_action(frames)
    &&& match action {
        HierarchyAction::Explore { path, .. } => path.wf(),
        HierarchyAction::Derive { parent, child_instance, child } => {
            &&& parent.wf()
            &&& child.wf()
            &&& child.view() == parent.view().push(child_instance@)
        },
        HierarchyAction::InvalidChild { parent, child_instance, error } => component_rejected(
            child_instance@,
            parent.view().len() as usize,
            error,
        ),
        HierarchyAction::Done => true,
    }
}

/// The stack and statuses after the exploration asked for at the top of
/// `frames`, where `accepted_any` says whether it accepted a candidate: a
/// leaf is explored and a refreshed parent is done; an accepted preview goes
/// on to its children; a preview that accepted nothing is final and blocks
/// every occurrence below it.
pub open spec fn explored_step(
    frames: Seq<FrameView>,
    nodes: Seq<(Seq<Seq<char>>, StatusView)>,
    accepted_any: bool,
) -> (Seq<FrameView>, Seq<(Seq<Seq<char>>, StatusView)>) {
    let top = frames.last();
    let rest = frames.drop_last();
    if top.previewed {
        (rest, with_status(nodes, top.path, StatusView::Refreshed))
    } else if top.children.len() == 0 {
        (rest, with_status(nodes, top.path, StatusView::ExploredLeaf))
    } else if accepted_any {
        (rest.push(FrameView { path: top.path, children: top.children, next: top.next, previewed: true }), nodes)
    } else {
        (rest, blocked_below(with_status(nodes, top.path, StatusView::PreviewRejected), top.path, top.path))
    }
}

/// The stack and statuses after the derivation asked for at the top of
/// `frames`: a child pruned for `reason` takes that status and blocks every
/// occurrence below it; any other child, with direct submacros
/// `grandchildren`, is explored next.
pub open spec fn derived_step(
    frames: Seq<FrameView>,
    nodes: Seq<(Seq<Seq<char>>, StatusView)>,
    pruned: Option<MacroDerivationPruneReason>,
    grandchildren: Seq<Seq<char>>,
) -> (Seq<FrameView>, Seq<(Seq<Seq<char>>, StatusView)>) {
    let top = frames.last();
    let child = top.path.push(top.children[top.next]);
    let advanced = frames.drop_last().push(
        FrameView { path: top.path, children: top.children, next: top.next + 1, previewed: top.previewed },
    );
    match pruned {
        Some(reason) => (
            advanced,
            blocked_below(with_status(nodes, child, StatusView::DerivationPruned { reason }), child, child),
        ),
        None => (advanced.push(FrameView { path: child, children: grandchildren, next: 0, previewed: false }), nodes),
    }
}

/// Computes the next step for a stack.
fn pending(frames: &Vec<TraversalFrame>) -> (action: HierarchyAction)
    requires
        forall|i: int| 0 <= i < frames@.len() ==> (#[trigger] frames@[i]).ok(),
    ensures
        action_fits(action, frames_view(frames@)),
{
    if frames.len() == 0 {
        return HierarchyAction::Done;
    }
    let last = frames.len() - 1;
    let top = &frames[last];
    assert(top.ok());
    assert(frames_view(frames@).last() == top.view());
    if !top.previewed {
        let stage = if top.children.len() == 0 {
            MacroHierarchyExplorationStage::Leaf
        } else {
            MacroHierarchyExplorationStage::Preview
        };
        HierarchyAction::Explore { path: top.path.copy(), stage }
    } else if top.next < top.children.len() {
        let instance = top.children[top.next].clone();
        assert(top.view().children[top.next as int] == instance@);
        match top.path.child(instance.clone()) {
            Ok(child) => HierarchyAction::Derive { parent: top.path.copy(), child_instance: instance, child },
            Err(error) => HierarchyAction::InvalidChild { parent: top.path.copy(), child_instance: instance, error },
        }
    } else {
        HierarchyAction::Explore { path: top.path.copy(), stage: MacroHierarchyExplorationStage::Refresh }
    }
}

/// The state of a one-pass, depth-first hierarchical exploration: the status
/// of each planned occurrence and the stack of occurrences in progress.
pub struct HierarchyTraversal {
    nodes: Vec<(MacroHierarchyPath, MacroHierarchyNodeStatus)>,
    frames: Vec<TraversalFrame>,
}

impl HierarchyTraversal {
    /// The planned occurrences and their statuses.
    pub closed spec fn nodes_spec(&self) -> Seq<(Seq<Seq<char>>, StatusView)> {
        nodes_view(self.nodes@)
    }

    /// The stack, bottom first.
    pub closed spec fn frames_spec(&self) -> Seq<FrameView> {
        frames_view(self.frames@)
    }

    #[verifier::type_invariant]
    spec fn frames_ok(self) -> bool {
        forall|i: int| 0 <= i < self.frames@.len() ==> (#[trigger] self.frames@[i]).ok()
    }

    /// Starts at `root`, whose direct submacro instances are `root_children`,
    /// with the planned occurrences `nodes`.
    pub fn new(
        nodes: Vec<(MacroHierarchyPath, MacroHierarchyNodeStatus)>,
        root: MacroHierarchyPath,
        root_children: Vec<String>,
    ) -> (traversal: Self)
        requires
            root.wf(),
        ensures
            traversal.nodes_spec() == nodes_view(nodes@),
            traversal.frames_spec() == seq![
                FrameView { path: root.view(), children: string_views(root_children@), next: 0, previewed: false },
            ],
    {
        let frame = TraversalFrame { path: root, children: root_children, next: 0, previewed: false };
        let mut frames: Vec<TraversalFrame> = Vec::new();
        frames.push(frame);
        assert(frames_view(frames@) =~= seq![frame.view()]);
        HierarchyTraversal { nodes, frames }
    }

    /// What the caller is asked to do next.
    pub fn next_action(&self) -> (action: HierarchyAction)
        ensures
            action_fits(action, self.frames_spec()),
    {
        proof {
            use_type_invariant(self);
        }
        pending(&self.frames)
    }

    /// The planned occurrences and their statuses.
    pub fn nodes(&self) -> (nodes: &Vec<(MacroHierarchyPath, MacroHierarchyNodeStatus)>)
        ensures
            nodes_view(nodes@) == self.nodes_spec(),
    {
        &self.nodes
    }

    /// Ends the traversal, giving back the statuses.
    pub fn into_nodes(self) -> (nodes: Vec<(MacroHierarchyPath, MacroHierarchyNodeStatus)>)
        ensures
            nodes_view(nodes@) == self.nodes_spec(),
    {
        self.nodes
    }
}

impl HierarchyTraversal {
    /// Reports the outcome of the exploration asked for: whether it accepted
    /// any candidate. Returns the next step.
    pub fn explored(&mut self, accepted_any: bool) -> (action: HierarchyAction)
        requires
            pending_action(old(self).frames_spec()) is Explore,
        ensures
            (final(self).frames_spec(), final(self).nodes_spec()) == explored_step(
                old(self).frames_spec(),
                old(self).nodes_spec(),
                accepted_any,
            ),
            action_fits(action, final(self).frames_spec()),
    {
        proof {
            use_type_invariant(&*self);
        }
        let mut frames: Vec<TraversalFrame> = Vec::new();
        std::mem::swap(&mut frames, &mut self.frames);
        let mut nodes: Vec<(MacroHierarchyPath, MacroHierarchyNodeStatus)> = Vec::new();
        std::mem::swap(&mut nodes, &mut self.nodes);
        let ghost start = frames@;
        let top = frames.pop().unwrap();
        proof {
            assert(frames@ =~= start.drop_last());
            assert(frames_view(frames@) =~= frames_view(start).drop_last());
            assert(frames_view(start).last() == top.view());
            assert(top.ok());
        }
        if top.previewed {
            set_status(&mut nodes, &top.path, &MacroHierarchyNodeStatus::Refreshed);
        } else if top.children.len() == 0 {
            set_status(&mut nodes, &top.path, &MacroHierarchyNodeStatus::ExploredLeaf);
        } else if accepted_any {
            let ghost rest = frames@;
            let frame = TraversalFrame { path: top.path, children: top.children, next: top.next, previewed: true };
            frames.push(frame);
            assert(frames_view(frames@) =~= frames_view(rest).push(frame.view()));
        } else {
            set_status(&mut nodes, &top.path, &MacroHierarchyNodeStatus::PreviewRejected);
            block_below(&mut nodes, &top.path, &top.path);
        }
        let action = pending(&frames);
        self.frames = frames;
        self.nodes = nodes;
        action
    }

    /// Reports the outcome of the derivation asked for: the prune reason when
    /// the derived conditions contradict each other, and the direct submacro
    /// instances of the child. Returns the next step.
    pub fn derived(
        &mut self,
        pruned: Option<MacroDerivationPruneReason>,
        grandchildren: Vec<String>,
    ) -> (action: HierarchyAction)
        requires
            pending_action(old(self).frames_spec()) is Derive,
        ensures
            (final(self).frames_spec(), final(self).nodes_spec()) == derived_step(
                old(self).frames_spec(),
                old(self).nodes_spec(),
                pruned,
                string_views(grandchildren@),
            ),
            action_fits(action, final(self).frames_spec()),
    {
        proof {
            use_type_invariant(&*self);
        }
        let mut frames: Vec<TraversalFrame> = Vec::new();
        std::mem::swap(&mut frames, &mut self.frames);
        let mut nodes: Vec<(MacroHierarchyPath, MacroHierarchyNodeStatus)> = Vec::new();
        std::mem::swap(&mut nodes, &mut self.nodes);
        let ghost start = frames@;
        let top = frames.pop().unwrap();
        proof {
            assert(frames@ =~= start.drop_last());
            assert(frames_view(frames@) =~= frames_view(start).drop_last());
            assert(frames_view(start).last() == top.view());
            assert(top.ok());
        }
        assert(top.view().children.len() == top.children@.len());
        assert(top.next < top.children.len());
        let instance = top.children[top.next].clone();
        assert(top.view().children[top.next as int] == instance@);
        let child = match top.path.child(instance) {
            Ok(path) => path,
            Err(_) => {
                proof {
                    assert(false);
                }
                return HierarchyAction::Done;
            },
        };
        let ghost rest = frames@;
        let advanced = TraversalFrame {
            path: top.path,
            children: top.children,
            next: top.next + 1,
            previewed: top.previewed,
        };
        frames.push(advanced);
        assert(frames_view(frames@) =~= frames_view(rest).push(advanced.view()));
        match pruned {
            Some(reason) => {
                let status = MacroHierarchyNodeStatus::DerivationPruned { reason };
                set_status(&mut nodes, &child, &status);
                block_below(&mut nodes, &child, &child);
            },
            None => {
                let ghost with_parent = frames@;
                let frame = TraversalFrame { path: child, children: grandchildren, next: 0, previewed: false };
                frames.push(frame);
                assert(frames_view(frames@) =~= frames_view(with_parent).push(frame.view()));
            },
        }
        let action = pending(&frames);
        self.frames = frames;
        self.nodes = nodes;
        action
    }
}

/// The frame at `i` is a previewed parent whose most recently derived child
/// is the frame just above it.
pub open spec fn chain_link(frames: Seq<FrameView>, i: int) -> bool {
    &&& frames[i].previewed
    &&& 1 <= frames[i].next <= frames[i].children.len()
    &&& frames[i + 1].path == frames[i].path.push(frames[i].children[frames[i].next - 1])
}

/// The stack is one branch of the hierarchy: each frame is the child being
/// explored of the frame below it.
pub open spec fn stack_is_chain(frames: Seq<FrameView>) -> bool {
    forall|i: int| 0 <= i < frames.len() - 1 ==> #[trigger] chain_link(frames, i)
}

/// The stack stays one branch of the hierarchy across an exploration step.
pub proof fn lemma_explored_keeps_chain(
    frames: Seq<FrameView>,
    nodes: Seq<(Seq<Seq<char>>, StatusView)>,
    accepted_any: bool,
)
    requires
        stack_is_chain(frames),
        pending_action(frames) is Explore,
    ensures
        stack_is_chain(explored_step(frames, nodes, accepted_any).0),
{
    let after = explored_step(frames, nodes, accepted_any).0;
    assert forall|i: int| 0 <= i < after.len() - 1 implies #[trigger] chain_link(after, i) by {
        assert(chain_link(frames, i));
        assert(after[i] == frames[i]);
        assert(after[i + 1].path == frames[i + 1].path);
    }
}

/// The stack stays one branch of the hierarchy across a derivation step.
pub proof fn lemma_derived_keeps_chain(
    frames: Seq<FrameView>,
    nodes: Seq<(Seq<Seq<char>>, StatusView)>,
    pruned: Option<MacroDerivationPruneReason>,
    grandchildren: Seq<Seq<char>>,
)
    requires
        stack_is_chain(frames),
        pending_action(frames) is Derive,
        0 <= frames.last().next,
    ensures
        stack_is_chain(derived_step(frames, nodes, pruned, grandchildren).0),
{
    let after = derived_step(frames, nodes, pruned, grandchildren).0;
    let top = frames.len() - 1;
    assert forall|i: int| 0 <= i < after.len() - 1 implies #[trigger] chain_link(after, i) by {
        let last = frames.last();
        if i < top {
            assert(chain_link(frames, i));
            assert(after[i] == frames[i]);
            assert(after[i + 1].path == frames[i + 1].path);
        } else {
            assert(i == top);
            assert(after[i] == FrameView {
                path: last.path,
                children: last.children,
                next: last.next + 1,
                previewed: last.previewed,
            });
            assert(after[i + 1].path == last.path.push(last.children[last.next]));
        }
    }
}

/// A step changes statuses only: the planned occurrences, in their order,
/// keep their paths.
pub proof fn lemma_steps_keep_paths(
    nodes: Seq<(Seq<Seq<char>>, StatusView)>,
    path: Seq<Seq<char>>,
    status: StatusView,
    ancestor: Seq<Seq<char>>,
    by: Seq<Seq<char>>,
)
    ensures
        with_status(nodes, path, status).len() == nodes.len(),
        blocked_below(nodes, ancestor, by).len() == nodes.len(),
        forall|i: int| 0 <= i < nodes.len() ==> (#[trigger] with_status(nodes, path, status)[i]).0 == nodes[i].0,
        forall|i: int| 0 <= i < nodes.len() ==> (#[trigger] blocked_below(nodes, ancestor, by)[i]).0 == nodes[i].0,
{
}

/// Blocking reaches only occurrences that were not reached: a finished
/// occurrence keeps its status.
pub proof fn lemma_blocking_keeps_finished(
    nodes: Seq<(Seq<Seq<char>>, StatusView)>,
    ancestor: Seq<Seq<char>>,
    by: Seq<Seq<char>>,
    i: int,
)
    requires
        0 <= i < nodes.len(),
        !(nodes[i].1 is NotReached),
    ensures
        blocked_below(nodes, ancestor, by)[i] == nodes[i],
{
}

} // verus!
