//! What holds of every selection of gate targets.
use super::changes::{
    RefineChangedFileKind, RefineChangedFileModel, RefineContextInvalidationModel,
    RefineStructuralChangeModel,
};
use super::gate_targets::{
    frontier_index_from, handoff_parent, leaf_index_from, removed_paths_from, structural_reason,
    with_frontier, with_leaf, with_leaves_at, with_leaves_at_all, with_leaves_below, with_reason,
    SelectedTargets,
};
use super::registration_types::RefineGateTargetReason;
use super::rewrite_laws::taken_up_texts_stay_unique;
use super::rewrite_types::RefineRewriteResultModel;
use super::runtime_state::{
    RefineRuntimeNodeSnapshotModel, RefineStaleGateClassification, RefineStaleResultHandoffModel,
    StaleGateTargetKind,
};
use super::selection_types::{
    RefineFrontierGateTargetModel, RefineLeafGateTargetModel, SelectRefineGateTargetsRequestModel,
};
use crate::api::NodeKind;
use crate::text::trimmed;
use vstd::prelude::*;

verus! {

// ---------------------------------------------------------------------
// Targets
// ---------------------------------------------------------------------
/// There is a reason, and none stands twice.
pub open spec fn are_tidy_reasons(reasons: Seq<RefineGateTargetReason>) -> bool {
    reasons.len() > 0 && reasons.no_duplicates()
}

/// No leaf has two targets, and each has its reasons.
pub open spec fn are_tidy_leaves(targets: Seq<RefineLeafGateTargetModel>) -> bool {
    &&& forall|k: int| 0 <= k < targets.len() ==> are_tidy_reasons((#[trigger] targets[k]).reasons)
    &&& forall|k: int, m: int|
        0 <= k < m < targets.len() ==> (#[trigger] targets[k]).relative_path != (
        #[trigger] targets[m]).relative_path
}

/// No parent has two targets, and each has its reasons and names each child
/// once.
pub open spec fn are_tidy_frontiers(targets: Seq<RefineFrontierGateTargetModel>) -> bool {
    &&& forall|k: int|
        0 <= k < targets.len() ==> are_tidy_reasons((#[trigger] targets[k]).reasons)
            && targets[k].changed_child_relative_paths.no_duplicates()
            && targets[k].removed_child_relative_paths.no_duplicates()
    &&& forall|k: int, m: int|
        0 <= k < m < targets.len() ==> (#[trigger] targets[k]).parent_relative_path != (
        #[trigger] targets[m]).parent_relative_path
}

/// The leaf is to be reviewed for this reason.
pub open spec fn has_leaf(
    targets: Seq<RefineLeafGateTargetModel>,
    path: Seq<char>,
    reason: RefineGateTargetReason,
) -> bool {
    exists|k: int|
        0 <= k < targets.len() && (#[trigger] targets[k]).relative_path == path
            && targets[k].reasons.contains(reason)
}

/// The parent is to be reviewed for this reason.
pub open spec fn has_frontier(
    targets: Seq<RefineFrontierGateTargetModel>,
    path: Seq<char>,
    reason: RefineGateTargetReason,
) -> bool {
    exists|k: int|
        0 <= k < targets.len() && (#[trigger] targets[k]).parent_relative_path == path
            && targets[k].reasons.contains(reason)
}

/// No leaf that was to be reviewed is lost, nor a reason.
pub open spec fn leaves_grow(
    before: Seq<RefineLeafGateTargetModel>,
    after: Seq<RefineLeafGateTargetModel>,
) -> bool {
    forall|path: Seq<char>, reason: RefineGateTargetReason|
        #![trigger has_leaf(before, path, reason)]
        #![trigger has_leaf(after, path, reason)]
        has_leaf(before, path, reason) ==> has_leaf(after, path, reason)
}

/// No parent that was to be reviewed is lost, nor a reason.
pub open spec fn frontiers_grow(
    before: Seq<RefineFrontierGateTargetModel>,
    after: Seq<RefineFrontierGateTargetModel>,
) -> bool {
    forall|path: Seq<char>, reason: RefineGateTargetReason|
        #![trigger has_frontier(before, path, reason)]
        #![trigger has_frontier(after, path, reason)]
        has_frontier(before, path, reason) ==> has_frontier(after, path, reason)
}

proof fn reasons_stay_tidy(
    reasons: Seq<RefineGateTargetReason>,
    reason: RefineGateTargetReason,
)
    requires
        are_tidy_reasons(reasons),
    ensures
        are_tidy_reasons(with_reason(reasons, reason)),
        with_reason(reasons, reason).contains(reason),
        forall|other: RefineGateTargetReason|
            #![trigger with_reason(reasons, reason).contains(other)]
            reasons.contains(other) ==> with_reason(reasons, reason).contains(other),
{
    let more = with_reason(reasons, reason);
    if !reasons.contains(reason) {
        assert(more[reasons.len() as int] == reason);
        assert forall|other: RefineGateTargetReason| reasons.contains(other) implies
            more.contains(other) by {
            let k = choose|k: int| 0 <= k < reasons.len() && reasons[k] == other;
            assert(more[k] == other);
        }
        assert forall|i: int, j: int| 0 <= i < more.len() && 0 <= j < more.len() && i != j implies
            more[i] != more[j] by {
            if i < reasons.len() && j < reasons.len() {
                assert(reasons[i] != reasons[j]);
            } else if i < reasons.len() {
                assert(reasons.contains(reasons[i]));
            } else {
                assert(reasons.contains(reasons[j]));
            }
        }
    }
}

/// A leaf target is found by its path exactly where there is one.
pub proof fn leaf_index_is_found(targets: Seq<RefineLeafGateTargetModel>, path: Seq<char>, i: int)
    requires
        0 <= i <= targets.len(),
    ensures
        match leaf_index_from(targets, path, i) {
            Some(k) => i <= k < targets.len() && targets[k].relative_path == path,
            None => forall|k: int|
                i <= k < targets.len() ==> (#[trigger] targets[k]).relative_path != path,
        },
    decreases targets.len() - i,
{
    if i < targets.len() && targets[i].relative_path != path {
        leaf_index_is_found(targets, path, i + 1);
    }
}

/// A frontier target is found by its path exactly where there is one.
pub proof fn frontier_index_is_found(
    targets: Seq<RefineFrontierGateTargetModel>,
    path: Seq<char>,
    i: int,
)
    requires
        0 <= i <= targets.len(),
    ensures
        match frontier_index_from(targets, path, i) {
            Some(k) => i <= k < targets.len() && targets[k].parent_relative_path == path,
            None => forall|k: int|
                i <= k < targets.len() ==> (#[trigger] targets[k]).parent_relative_path != path,
        },
    decreases targets.len() - i,
{
    if i < targets.len() && targets[i].parent_relative_path != path {
        frontier_index_is_found(targets, path, i + 1);
    }
}

/// Asking for the review of a leaf gives it a target with this reason, and
/// keeps what was asked before.
pub proof fn leaf_is_taken_up(
    targets: Seq<RefineLeafGateTargetModel>,
    snapshot: RefineRuntimeNodeSnapshotModel,
    path: Seq<char>,
    node_id: Option<Seq<char>>,
    parent: Option<Seq<char>>,
    reason: RefineGateTargetReason,
)
    requires
        are_tidy_leaves(targets),
    ensures
        are_tidy_leaves(with_leaf(targets, snapshot, path, node_id, parent, reason)),
        leaves_grow(targets, with_leaf(targets, snapshot, path, node_id, parent, reason)),
        has_leaf(with_leaf(targets, snapshot, path, node_id, parent, reason), path, reason),
{
    let next = with_leaf(targets, snapshot, path, node_id, parent, reason);
    leaf_index_is_found(targets, path, 0);
    let at = match leaf_index_from(targets, path, 0) {
        Some(k) => k,
        None => targets.len() as int,
    };
    if at < targets.len() {
        reasons_stay_tidy(targets[at].reasons, reason);
    } else {
        assert(next[at].reasons =~= seq![reason]);
        assert(next[at].reasons[0] == reason);
    }
    assert(next[at].relative_path == path && next[at].reasons.contains(reason));
    assert forall|k: int| 0 <= k < next.len() implies are_tidy_reasons(
        (#[trigger] next[k]).reasons,
    ) by {
        if k != at {
            assert(next[k] == targets[k]);
        }
    }
    assert forall|k: int, m: int| 0 <= k < m < next.len() implies (
    #[trigger] next[k]).relative_path != (#[trigger] next[m]).relative_path by {
        if k < targets.len() {
            assert(next[k].relative_path == targets[k].relative_path);
        }
        if m < targets.len() {
            assert(next[m].relative_path == targets[m].relative_path);
        }
    }
    assert forall|other: Seq<char>, why: RefineGateTargetReason|
        #![trigger has_leaf(next, other, why)]
        has_leaf(targets, other, why) implies has_leaf(next, other, why) by {
        let k = choose|k: int|
            0 <= k < targets.len() && (#[trigger] targets[k]).relative_path == other
                && targets[k].reasons.contains(why);
        assert(next[k].relative_path == other && next[k].reasons.contains(why));
    }
}

/// Asking for the review of a parent gives it a target with this reason, and
/// keeps what was asked before.
pub proof fn frontier_is_taken_up(
    targets: Seq<RefineFrontierGateTargetModel>,
    snapshot: RefineRuntimeNodeSnapshotModel,
    parent: Seq<char>,
    changed: Seq<Seq<char>>,
    removed: Seq<Seq<char>>,
    reason: RefineGateTargetReason,
)
    requires
        are_tidy_frontiers(targets),
    ensures
        are_tidy_frontiers(with_frontier(targets, snapshot, parent, changed, removed, reason)),
        frontiers_grow(targets, with_frontier(targets, snapshot, parent, changed, removed, reason)),
        has_frontier(
            with_frontier(targets, snapshot, parent, changed, removed, reason),
            parent,
            reason,
        ),
{
    let next = with_frontier(targets, snapshot, parent, changed, removed, reason);
    let none = Seq::<Seq<char>>::empty();
    frontier_index_is_found(targets, parent, 0);
    let at = match frontier_index_from(targets, parent, 0) {
        Some(k) => k,
        None => targets.len() as int,
    };
    if at < targets.len() {
        reasons_stay_tidy(targets[at].reasons, reason);
        taken_up_texts_stay_unique(targets[at].changed_child_relative_paths, changed, 0);
        taken_up_texts_stay_unique(targets[at].removed_child_relative_paths, removed, 0);
    } else {
        taken_up_texts_stay_unique(none, changed, 0);
        taken_up_texts_stay_unique(none, removed, 0);
        assert(next[at].reasons =~= seq![reason]);
        assert(next[at].reasons[0] == reason);
    }
    assert(next[at].parent_relative_path == parent && next[at].reasons.contains(reason));
    assert forall|k: int| 0 <= k < next.len() implies are_tidy_reasons(
        (#[trigger] next[k]).reasons,
    ) && next[k].changed_child_relative_paths.no_duplicates()
        && next[k].removed_child_relative_paths.no_duplicates() by {
        if k != at {
            assert(next[k] == targets[k]);
        }
    }
    assert forall|k: int, m: int| 0 <= k < m < next.len() implies (
    #[trigger] next[k]).parent_relative_path != (#[trigger] next[m]).parent_relative_path by {
        if k < targets.len() {
            assert(next[k].parent_relative_path == targets[k].parent_relative_path);
        }
        if m < targets.len() {
            assert(next[m].parent_relative_path == targets[m].parent_relative_path);
        }
    }
    assert forall|other: Seq<char>, why: RefineGateTargetReason|
        #![trigger has_frontier(next, other, why)]
        has_frontier(targets, other, why) implies has_frontier(next, other, why) by {
        let k = choose|k: int|
            0 <= k < targets.len() && (#[trigger] targets[k]).parent_relative_path == other
                && targets[k].reasons.contains(why);
        assert(next[k].parent_relative_path == other && next[k].reasons.contains(why));
    }
}

// ---------------------------------------------------------------------
// Leaves below a parent
// ---------------------------------------------------------------------
proof fn leaves_at_grow(
    targets: Seq<RefineLeafGateTargetModel>,
    snapshot: RefineRuntimeNodeSnapshotModel,
    path: Seq<char>,
    removed: Seq<Seq<char>>,
    reason: RefineGateTargetReason,
    depth: nat,
)
    requires
        are_tidy_leaves(targets),
    ensures
        are_tidy_leaves(with_leaves_at(targets, snapshot, path, removed, reason, depth)),
        leaves_grow(targets, with_leaves_at(targets, snapshot, path, removed, reason, depth)),
    decreases depth, 0nat,
{
    if !removed.contains(path) {
        if let Some(node) = snapshot.node_at(path) {
            match node.node_kind {
                NodeKind::Leaf => {
                    leaf_is_taken_up(
                        targets,
                        snapshot,
                        node.relative_path,
                        Some(node.node_id),
                        None,
                        reason,
                    );
                },
                NodeKind::Parent => {
                    if depth > 0 {
                        leaves_at_all_grow(
                            targets,
                            snapshot,
                            node.child_relative_paths,
                            0,
                            removed,
                            reason,
                            (depth - 1) as nat,
                        );
                    }
                },
            }
        }
    }
}

proof fn leaves_at_all_grow(
    targets: Seq<RefineLeafGateTargetModel>,
    snapshot: RefineRuntimeNodeSnapshotModel,
    paths: Seq<Seq<char>>,
    i: nat,
    removed: Seq<Seq<char>>,
    reason: RefineGateTargetReason,
    depth: nat,
)
    requires
        are_tidy_leaves(targets),
    ensures
        are_tidy_leaves(with_leaves_at_all(targets, snapshot, paths, i, removed, reason, depth)),
        leaves_grow(
            targets,
            with_leaves_at_all(targets, snapshot, paths, i, removed, reason, depth),
        ),
    decreases depth, paths.len() - i,
{
    if i < paths.len() {
        leaves_at_grow(targets, snapshot, paths[i as int], removed, reason, depth);
        leaves_at_all_grow(
            with_leaves_at(targets, snapshot, paths[i as int], removed, reason, depth),
            snapshot,
            paths,
            i + 1,
            removed,
            reason,
            depth,
        );
    }
}

proof fn leaves_below_grow(
    targets: Seq<RefineLeafGateTargetModel>,
    snapshot: RefineRuntimeNodeSnapshotModel,
    parent: Seq<char>,
    removed: Seq<Seq<char>>,
    reason: RefineGateTargetReason,
)
    requires
        are_tidy_leaves(targets),
    ensures
        are_tidy_leaves(with_leaves_below(targets, snapshot, parent, removed, reason)),
        leaves_grow(targets, with_leaves_below(targets, snapshot, parent, removed, reason)),
{
    if let Some(node) = snapshot.node_at(parent) {
        leaves_at_all_grow(
            targets,
            snapshot,
            node.child_relative_paths,
            0,
            removed,
            reason,
            snapshot.nodes.len(),
        );
    }
}

/// The nodes form a tree whose nodes have these ranks: a parent has a higher
/// rank than its children.
pub open spec fn is_ranked(
    snapshot: RefineRuntimeNodeSnapshotModel,
    rank: spec_fn(Seq<char>) -> nat,
) -> bool {
    forall|path: Seq<char>, k: int|
        #![trigger snapshot.node_at(path)->0.child_relative_paths[k]]
        snapshot.node_at(path) is Some && 0 <= k < snapshot.node_at(
            path,
        )->0.child_relative_paths.len() ==> rank(
            snapshot.node_at(path)->0.child_relative_paths[k],
        ) < rank(path)
}

/// How deep the tree is searched makes no difference as soon as it is searched
/// down to the leaves.
pub proof fn depth_is_no_limit_at(
    targets: Seq<RefineLeafGateTargetModel>,
    snapshot: RefineRuntimeNodeSnapshotModel,
    path: Seq<char>,
    removed: Seq<Seq<char>>,
    reason: RefineGateTargetReason,
    rank: spec_fn(Seq<char>) -> nat,
    depth: nat,
    deeper: nat,
)
    requires
        is_ranked(snapshot, rank),
        rank(path) < depth <= deeper,
    ensures
        with_leaves_at(targets, snapshot, path, removed, reason, depth) == with_leaves_at(
            targets,
            snapshot,
            path,
            removed,
            reason,
            deeper,
        ),
    decreases depth, 0nat,
{
    if !removed.contains(path) {
        if let Some(node) = snapshot.node_at(path) {
            if node.node_kind == NodeKind::Parent {
                assert forall|k: int| 0 <= k < node.child_relative_paths.len() implies rank(
                    #[trigger] node.child_relative_paths[k],
                ) < depth - 1 by {
                    assert(node == snapshot.node_at(path)->0);
                    assert(rank(snapshot.node_at(path)->0.child_relative_paths[k]) < rank(path));
                }
                depth_is_no_limit_among(
                    targets,
                    snapshot,
                    node.child_relative_paths,
                    0,
                    removed,
                    reason,
                    rank,
                    (depth - 1) as nat,
                    (deeper - 1) as nat,
                );
            }
        }
    }
}

proof fn depth_is_no_limit_among(
    targets: Seq<RefineLeafGateTargetModel>,
    snapshot: RefineRuntimeNodeSnapshotModel,
    paths: Seq<Seq<char>>,
    i: nat,
    removed: Seq<Seq<char>>,
    reason: RefineGateTargetReason,
    rank: spec_fn(Seq<char>) -> nat,
    depth: nat,
    deeper: nat,
)
    requires
        is_ranked(snapshot, rank),
        forall|k: int| 0 <= k < paths.len() ==> rank(#[trigger] paths[k]) < depth,
        depth <= deeper,
    ensures
        with_leaves_at_all(targets, snapshot, paths, i, removed, reason, depth)
            == with_leaves_at_all(targets, snapshot, paths, i, removed, reason, deeper),
    decreases depth, paths.len() - i,
{
    if i < paths.len() {
        let path = paths[i as int];
        assert(rank(path) < depth);
        depth_is_no_limit_at(
            targets,
            snapshot,
            path,
            removed,
            reason,
            rank,
            depth,
            deeper,
        );
        depth_is_no_limit_among(
            with_leaves_at(targets, snapshot, path, removed, reason, depth),
            snapshot,
            paths,
            i + 1,
            removed,
            reason,
            rank,
            depth,
            deeper,
        );
    }
}

// ---------------------------------------------------------------------
// The selection
// ---------------------------------------------------------------------
/// The targets are tidy.
pub open spec fn is_tidy(state: SelectedTargets) -> bool {
    are_tidy_leaves(state.leaf) && are_tidy_frontiers(state.frontier)
}

/// No target is lost, nor a reason.
pub open spec fn grows(before: SelectedTargets, after: SelectedTargets) -> bool {
    leaves_grow(before.leaf, after.leaf) && frontiers_grow(before.frontier, after.frontier)
}

impl SelectRefineGateTargetsRequestModel {
    /// What a changed file asks for is there.
    pub open spec fn covers_file(self, file: RefineChangedFileModel, state: SelectedTargets) -> bool {
        let path = file.relative_path;
        match file.change_kind {
            RefineChangedFileKind::TextUpdated => if self.is_parent_target(path) {
                self.is_link_only(path) || has_frontier(
                    state.frontier,
                    path,
                    RefineGateTargetReason::ParentContractChanged,
                )
            } else {
                has_leaf(state.leaf, path, RefineGateTargetReason::TextChanged)
            },
            RefineChangedFileKind::Created => if self.is_parent_target(path) {
                has_frontier(state.frontier, path, RefineGateTargetReason::NewParent)
            } else {
                has_leaf(state.leaf, path, RefineGateTargetReason::NewLeaf)
            },
            RefineChangedFileKind::Regenerated => has_leaf(
                state.leaf,
                path,
                RefineGateTargetReason::RegeneratedLeaf,
            ),
            RefineChangedFileKind::StaleMarked => true,
            RefineChangedFileKind::ExplicitlyRemoved => true,
        }
    }

    /// What a handoff asks for is there.
    pub open spec fn covers_handoff(
        self,
        handoff: RefineStaleResultHandoffModel,
        state: SelectedTargets,
    ) -> bool {
        handoff.classification == RefineStaleGateClassification::Stale && trimmed(
            handoff.invalidation_reason,
        ).len() > 0 ==> match handoff.target_kind {
            StaleGateTargetKind::Leaf => has_leaf(
                state.leaf,
                handoff.relative_path,
                RefineGateTargetReason::StaleDescendant,
            ),
            StaleGateTargetKind::Frontier => has_frontier(
                state.frontier,
                handoff_parent(handoff),
                RefineGateTargetReason::StaleDescendant,
            ),
        }
    }
}

proof fn files_are_covered(
    request: SelectRefineGateTargetsRequestModel,
    removed: Seq<Seq<char>>,
    i: int,
    state: SelectedTargets,
)
    requires
        0 <= i <= request.rewrite_result.changed_files.len(),
        is_tidy(state),
    ensures
        is_tidy(request.with_files_from(removed, i, state)),
        grows(state, request.with_files_from(removed, i, state)),
        forall|k: int|
            i <= k < request.rewrite_result.changed_files.len() ==> request.covers_file(
                #[trigger] request.rewrite_result.changed_files[k],
                request.with_files_from(removed, i, state),
            ),
    decreases request.rewrite_result.changed_files.len() - i,
{
    if i < request.rewrite_result.changed_files.len() {
        let file = request.rewrite_result.changed_files[i];
        let next = request.with_file(removed, file, state);
        file_is_covered(request, removed, file, state);
        files_are_covered(request, removed, i + 1, next);
        let out = request.with_files_from(removed, i, state);
        assert(out == request.with_files_from(removed, i + 1, next));
        assert(request.covers_file(file, out));
        assert forall|k: int| i <= k < request.rewrite_result.changed_files.len() implies
            request.covers_file(#[trigger] request.rewrite_result.changed_files[k], out) by {}
    }
}

proof fn file_is_covered(
    request: SelectRefineGateTargetsRequestModel,
    removed: Seq<Seq<char>>,
    file: RefineChangedFileModel,
    state: SelectedTargets,
)
    requires
        is_tidy(state),
    ensures
        is_tidy(request.with_file(removed, file, state)),
        grows(state, request.with_file(removed, file, state)),
        request.covers_file(file, request.with_file(removed, file, state)),
{
    let path = file.relative_path;
    let snapshot = request.runtime_snapshot;
    let none = Seq::<Seq<char>>::empty();
    match file.change_kind {
        RefineChangedFileKind::TextUpdated => {
            frontier_is_taken_up(
                state.frontier,
                snapshot,
                path,
                none,
                none,
                RefineGateTargetReason::ParentContractChanged,
            );
            leaves_below_grow(
                state.leaf,
                snapshot,
                path,
                removed,
                RefineGateTargetReason::ParentContractChanged,
            );
            leaf_is_taken_up(
                state.leaf,
                snapshot,
                path,
                file.node_id,
                None,
                RefineGateTargetReason::TextChanged,
            );
        },
        RefineChangedFileKind::Created => {
            frontier_is_taken_up(
                state.frontier,
                snapshot,
                path,
                none,
                none,
                RefineGateTargetReason::NewParent,
            );
            leaf_is_taken_up(
                state.leaf,
                snapshot,
                path,
                None,
                None,
                RefineGateTargetReason::NewLeaf,
            );
        },
        RefineChangedFileKind::Regenerated => {
            leaf_is_taken_up(
                state.leaf,
                snapshot,
                path,
                file.node_id,
                None,
                RefineGateTargetReason::RegeneratedLeaf,
            );
        },
        RefineChangedFileKind::StaleMarked => {},
        RefineChangedFileKind::ExplicitlyRemoved => {},
    }
}

proof fn contexts_are_covered(
    request: SelectRefineGateTargetsRequestModel,
    i: int,
    state: SelectedTargets,
)
    requires
        0 <= i <= request.rewrite_result.context_invalidations.len(),
        is_tidy(state),
    ensures
        is_tidy(request.with_contexts_from(i, state)),
        grows(state, request.with_contexts_from(i, state)),
        forall|k: int|
            i <= k < request.rewrite_result.context_invalidations.len() ==> has_leaf(
                request.with_contexts_from(i, state).leaf,
                (#[trigger] request.rewrite_result.context_invalidations[k]).relative_path,
                RefineGateTargetReason::ContextInvalidated,
            ),
    decreases request.rewrite_result.context_invalidations.len() - i,
{
    if i < request.rewrite_result.context_invalidations.len() {
        let invalidation = request.rewrite_result.context_invalidations[i];
        leaf_is_taken_up(
            state.leaf,
            request.runtime_snapshot,
            invalidation.relative_path,
            invalidation.node_id,
            None,
            RefineGateTargetReason::ContextInvalidated,
        );
        let next = SelectedTargets {
            leaf: with_leaf(
                state.leaf,
                request.runtime_snapshot,
                invalidation.relative_path,
                invalidation.node_id,
                None,
                RefineGateTargetReason::ContextInvalidated,
            ),
            ..state
        };
        contexts_are_covered(request, i + 1, next);
        assert(has_leaf(
            next.leaf,
            invalidation.relative_path,
            RefineGateTargetReason::ContextInvalidated,
        ));
    }
}

proof fn added_children_grow(
    request: SelectRefineGateTargetsRequestModel,
    change: RefineStructuralChangeModel,
    i: int,
    targets: Seq<RefineLeafGateTargetModel>,
)
    requires
        0 <= i,
        are_tidy_leaves(targets),
    ensures
        are_tidy_leaves(request.with_added_children_from(change, i, targets)),
        leaves_grow(targets, request.with_added_children_from(change, i, targets)),
    decreases change.added_child_relative_paths.len() - i,
{
    if i < change.added_child_relative_paths.len() {
        let child = change.added_child_relative_paths[i];
        let snapshot = request.runtime_snapshot;
        let reason = structural_reason(change.change_kind);
        match snapshot.node_at(child) {
            Some(node) => match node.node_kind {
                NodeKind::Leaf => {
                    let home = Some(change.parent_relative_path);
                    leaf_is_taken_up(targets, snapshot, child, None, home, reason);
                    added_children_grow(
                        request,
                        change,
                        i + 1,
                        with_leaf(targets, snapshot, child, None, home, reason),
                    );
                },
                NodeKind::Parent => {
                    leaves_below_grow(targets, snapshot, child, Seq::empty(), reason);
                    added_children_grow(
                        request,
                        change,
                        i + 1,
                        with_leaves_below(targets, snapshot, child, Seq::empty(), reason),
                    );
                },
            },
            None => {
                added_children_grow(request, change, i + 1, targets);
            },
        }
    }
}

proof fn structure_is_covered(
    request: SelectRefineGateTargetsRequestModel,
    i: int,
    state: SelectedTargets,
)
    requires
        0 <= i <= request.rewrite_result.structural_changes.len(),
        is_tidy(state),
    ensures
        is_tidy(request.with_structure_from(i, state)),
        grows(state, request.with_structure_from(i, state)),
        forall|k: int|
            i <= k < request.rewrite_result.structural_changes.len() ==> has_frontier(
                request.with_structure_from(i, state).frontier,
                (#[trigger] request.rewrite_result.structural_changes[k]).parent_relative_path,
                structural_reason(request.rewrite_result.structural_changes[k].change_kind),
            ),
    decreases request.rewrite_result.structural_changes.len() - i,
{
    if i < request.rewrite_result.structural_changes.len() {
        let change = request.rewrite_result.structural_changes[i];
        let changed = change.added_child_relative_paths + change.removed_child_relative_paths;
        let reason = structural_reason(change.change_kind);
        frontier_is_taken_up(
            state.frontier,
            request.runtime_snapshot,
            change.parent_relative_path,
            changed,
            change.removed_child_relative_paths,
            reason,
        );
        added_children_grow(request, change, 0, state.leaf);
        let next = SelectedTargets {
            frontier: with_frontier(
                state.frontier,
                request.runtime_snapshot,
                change.parent_relative_path,
                changed,
                change.removed_child_relative_paths,
                reason,
            ),
            leaf: request.with_added_children_from(change, 0, state.leaf),
            ..state
        };
        structure_is_covered(request, i + 1, next);
        assert(has_frontier(next.frontier, change.parent_relative_path, reason));
    }
}

proof fn handoff_is_covered(
    request: SelectRefineGateTargetsRequestModel,
    handoff: RefineStaleResultHandoffModel,
    state: SelectedTargets,
)
    requires
        is_tidy(state),
    ensures
        is_tidy(request.with_handoff(handoff, state)),
        grows(state, request.with_handoff(handoff, state)),
        request.covers_handoff(handoff, request.with_handoff(handoff, state)),
{
    leaf_is_taken_up(
        state.leaf,
        request.runtime_snapshot,
        handoff.relative_path,
        handoff.node_id,
        None,
        RefineGateTargetReason::StaleDescendant,
    );
    frontier_is_taken_up(
        state.frontier,
        request.runtime_snapshot,
        handoff_parent(handoff),
        match handoff.regenerated_child_relative_path {
            Some(child) => seq![child],
            None => Seq::empty(),
        },
        Seq::empty(),
        RefineGateTargetReason::StaleDescendant,
    );
}

proof fn handoffs_are_covered(
    request: SelectRefineGateTargetsRequestModel,
    i: int,
    state: SelectedTargets,
)
    requires
        0 <= i <= request.stale_result_handoff.len(),
        is_tidy(state),
    ensures
        is_tidy(request.with_handoffs_from(i, state)),
        grows(state, request.with_handoffs_from(i, state)),
        forall|k: int|
            i <= k < request.stale_result_handoff.len() ==> request.covers_handoff(
                #[trigger] request.stale_result_handoff[k],
                request.with_handoffs_from(i, state),
            ),
    decreases request.stale_result_handoff.len() - i,
{
    if i < request.stale_result_handoff.len() {
        let handoff = request.stale_result_handoff[i];
        let next = request.with_handoff(handoff, state);
        handoff_is_covered(request, handoff, state);
        handoffs_are_covered(request, i + 1, next);
        let out = request.with_handoffs_from(i, state);
        assert(out == request.with_handoffs_from(i + 1, next));
        assert(request.covers_handoff(handoff, out));
    }
}

/// A selection holds no node twice, each of its targets has its reasons, and
/// nothing that changed is left without its review: no file, no context, no
/// parent and no handoff.
pub proof fn selection_covers_every_change(request: SelectRefineGateTargetsRequestModel)
    ensures
        is_tidy(request.selected()),
        forall|k: int|
            0 <= k < request.rewrite_result.changed_files.len() ==> request.covers_file(
                #[trigger] request.rewrite_result.changed_files[k],
                request.selected(),
            ),
        forall|k: int|
            0 <= k < request.rewrite_result.context_invalidations.len() ==> has_leaf(
                request.selected().leaf,
                (#[trigger] request.rewrite_result.context_invalidations[k]).relative_path,
                RefineGateTargetReason::ContextInvalidated,
            ),
        forall|k: int|
            0 <= k < request.rewrite_result.structural_changes.len() ==> has_frontier(
                request.selected().frontier,
                (#[trigger] request.rewrite_result.structural_changes[k]).parent_relative_path,
                structural_reason(request.rewrite_result.structural_changes[k].change_kind),
            ),
        forall|k: int|
            0 <= k < request.stale_result_handoff.len() ==> request.covers_handoff(
                #[trigger] request.stale_result_handoff[k],
                request.selected(),
            ),
{
    let removed = removed_paths_from(request.rewrite_result.changed_files, 0, Seq::empty());
    let start = SelectedTargets {
        leaf: Seq::empty(),
        frontier: Seq::empty(),
        stale_leaf: Seq::empty(),
        stale_frontier: Seq::empty(),
    };
    let files = request.with_files_from(removed, 0, start);
    let contexts = request.with_contexts_from(0, files);
    let structure = request.with_structure_from(0, contexts);
    files_are_covered(request, removed, 0, start);
    contexts_are_covered(request, 0, files);
    structure_is_covered(request, 0, contexts);
    handoffs_are_covered(request, 0, structure);
    let out = request.selected();
    assert forall|k: int| 0 <= k < request.rewrite_result.changed_files.len() implies
        request.covers_file(#[trigger] request.rewrite_result.changed_files[k], out) by {
        assert(request.covers_file(request.rewrite_result.changed_files[k], files));
        coverage_stays(request, request.rewrite_result.changed_files[k], files, contexts);
        coverage_stays(request, request.rewrite_result.changed_files[k], contexts, structure);
        coverage_stays(request, request.rewrite_result.changed_files[k], structure, out);
    }
}

proof fn coverage_stays(
    request: SelectRefineGateTargetsRequestModel,
    file: RefineChangedFileModel,
    before: SelectedTargets,
    after: SelectedTargets,
)
    requires
        grows(before, after),
        request.covers_file(file, before),
    ensures
        request.covers_file(file, after),
{
}

// ---------------------------------------------------------------------
// Contexts that changed
// ---------------------------------------------------------------------
/// There is a target for the leaf at this path.
pub open spec fn has_leaf_at(targets: Seq<RefineLeafGateTargetModel>, path: Seq<char>) -> bool {
    exists|k: int| 0 <= k < targets.len() && (#[trigger] targets[k]).relative_path == path
}

/// The leaves of `more` are those of `less` and those at the other paths.
pub open spec fn leaves_differ_by(
    more: Seq<RefineLeafGateTargetModel>,
    less: Seq<RefineLeafGateTargetModel>,
    others: Seq<Seq<char>>,
) -> bool {
    forall|path: Seq<char>|
        #![trigger has_leaf_at(more, path)]
        #![trigger has_leaf_at(less, path)]
        has_leaf_at(more, path) <==> has_leaf_at(less, path) || others.contains(path)
}

/// The same targets are selected but for the leaves at the other paths.
pub open spec fn targets_differ_by(
    more: SelectedTargets,
    less: SelectedTargets,
    others: Seq<Seq<char>>,
) -> bool {
    &&& more.frontier == less.frontier
    &&& more.stale_frontier == less.stale_frontier
    &&& leaves_differ_by(more.leaf, less.leaf, others)
}

proof fn leaf_is_the_only_new_one(
    targets: Seq<RefineLeafGateTargetModel>,
    snapshot: RefineRuntimeNodeSnapshotModel,
    path: Seq<char>,
    node_id: Option<Seq<char>>,
    parent: Option<Seq<char>>,
    reason: RefineGateTargetReason,
)
    ensures
        forall|other: Seq<char>|
            #[trigger] has_leaf_at(
                with_leaf(targets, snapshot, path, node_id, parent, reason),
                other,
            ) <==> has_leaf_at(targets, other) || other == path,
{
    let next = with_leaf(targets, snapshot, path, node_id, parent, reason);
    leaf_index_is_found(targets, path, 0);
    let at = match leaf_index_from(targets, path, 0) {
        Some(k) => k,
        None => targets.len() as int,
    };
    assert(next[at].relative_path == path);
    assert forall|other: Seq<char>| #[trigger] has_leaf_at(next, other) <==> has_leaf_at(
        targets,
        other,
    ) || other == path by {
        if has_leaf_at(targets, other) {
            let k = choose|k: int|
                0 <= k < targets.len() && (#[trigger] targets[k]).relative_path == other;
            assert(next[k].relative_path == other);
        }
        if has_leaf_at(next, other) && other != path {
            let k = choose|k: int|
                0 <= k < next.len() && (#[trigger] next[k]).relative_path == other;
            assert(targets[k].relative_path == other);
        }
    }
}

proof fn leaf_keeps_difference(
    more: Seq<RefineLeafGateTargetModel>,
    less: Seq<RefineLeafGateTargetModel>,
    others: Seq<Seq<char>>,
    snapshot: RefineRuntimeNodeSnapshotModel,
    path: Seq<char>,
    node_id: Option<Seq<char>>,
    parent: Option<Seq<char>>,
    reason: RefineGateTargetReason,
)
    requires
        leaves_differ_by(more, less, others),
    ensures
        leaves_differ_by(
            with_leaf(more, snapshot, path, node_id, parent, reason),
            with_leaf(less, snapshot, path, node_id, parent, reason),
            others,
        ),
{
    leaf_is_the_only_new_one(more, snapshot, path, node_id, parent, reason);
    leaf_is_the_only_new_one(less, snapshot, path, node_id, parent, reason);
    let with_more = with_leaf(more, snapshot, path, node_id, parent, reason);
    let with_less = with_leaf(less, snapshot, path, node_id, parent, reason);
    assert forall|other: Seq<char>|
        #![trigger has_leaf_at(with_more, other)]
        #![trigger has_leaf_at(with_less, other)]
        has_leaf_at(with_more, other) <==> has_leaf_at(with_less, other) || others.contains(
            other,
        ) by {
        assert(has_leaf_at(more, other) <==> has_leaf_at(less, other) || others.contains(other));
    }
}

proof fn leaves_at_keep_difference(
    more: Seq<RefineLeafGateTargetModel>,
    less: Seq<RefineLeafGateTargetModel>,
    others: Seq<Seq<char>>,
    snapshot: RefineRuntimeNodeSnapshotModel,
    path: Seq<char>,
    removed: Seq<Seq<char>>,
    reason: RefineGateTargetReason,
    depth: nat,
)
    requires
        leaves_differ_by(more, less, others),
    ensures
        leaves_differ_by(
            with_leaves_at(more, snapshot, path, removed, reason, depth),
            with_leaves_at(less, snapshot, path, removed, reason, depth),
            others,
        ),
    decreases depth, 0nat,
{
    if !removed.contains(path) {
        if let Some(node) = snapshot.node_at(path) {
            match node.node_kind {
                NodeKind::Leaf => {
                    leaf_keeps_difference(
                        more,
                        less,
                        others,
                        snapshot,
                        node.relative_path,
                        Some(node.node_id),
                        None,
                        reason,
                    );
                },
                NodeKind::Parent => {
                    if depth > 0 {
                        leaves_at_all_keep_difference(
                            more,
                            less,
                            others,
                            snapshot,
                            node.child_relative_paths,
                            0,
                            removed,
                            reason,
                            (depth - 1) as nat,
                        );
                    }
                },
            }
        }
    }
}

proof fn leaves_at_all_keep_difference(
    more: Seq<RefineLeafGateTargetModel>,
    less: Seq<RefineLeafGateTargetModel>,
    others: Seq<Seq<char>>,
    snapshot: RefineRuntimeNodeSnapshotModel,
    paths: Seq<Seq<char>>,
    i: nat,
    removed: Seq<Seq<char>>,
    reason: RefineGateTargetReason,
    depth: nat,
)
    requires
        leaves_differ_by(more, less, others),
    ensures
        leaves_differ_by(
            with_leaves_at_all(more, snapshot, paths, i, removed, reason, depth),
            with_leaves_at_all(less, snapshot, paths, i, removed, reason, depth),
            others,
        ),
    decreases depth, paths.len() - i,
{
    if i < paths.len() {
        let path = paths[i as int];
        leaves_at_keep_difference(more, less, others, snapshot, path, removed, reason, depth);
        leaves_at_all_keep_difference(
            with_leaves_at(more, snapshot, path, removed, reason, depth),
            with_leaves_at(less, snapshot, path, removed, reason, depth),
            others,
            snapshot,
            paths,
            i + 1,
            removed,
            reason,
            depth,
        );
    }
}

impl SelectRefineGateTargetsRequestModel {
    /// The request as if no context had changed.
    pub open spec fn without_contexts(self) -> SelectRefineGateTargetsRequestModel {
        SelectRefineGateTargetsRequestModel {
            rewrite_result: RefineRewriteResultModel {
                context_invalidations: Seq::empty(),
                ..self.rewrite_result
            },
            ..self
        }
    }

    /// The paths of the leaves whose context changed.
    pub open spec fn context_paths(self) -> Seq<Seq<char>> {
        self.rewrite_result.context_invalidations.map_values(
            |context: RefineContextInvalidationModel| context.relative_path,
        )
    }
}

proof fn files_do_not_see_contexts(
    request: SelectRefineGateTargetsRequestModel,
    removed: Seq<Seq<char>>,
    i: int,
    state: SelectedTargets,
)
    requires
        0 <= i,
    ensures
        request.with_files_from(removed, i, state) == request.without_contexts().with_files_from(
            removed,
            i,
            state,
        ),
    decreases request.rewrite_result.changed_files.len() - i,
{
    let files = request.rewrite_result.changed_files;
    if i < files.len() {
        let less = request.without_contexts();
        assert(less.is_parent_target(files[i].relative_path) == request.is_parent_target(
            files[i].relative_path,
        ));
        assert(less.is_link_only(files[i].relative_path) == request.is_link_only(
            files[i].relative_path,
        ));
        assert(less.with_file(removed, files[i], state) == request.with_file(
            removed,
            files[i],
            state,
        ));
        files_do_not_see_contexts(
            request,
            removed,
            i + 1,
            request.with_file(removed, files[i], state),
        );
    }
}

proof fn contexts_add_their_leaves(
    request: SelectRefineGateTargetsRequestModel,
    start: SelectedTargets,
    i: int,
    state: SelectedTargets,
)
    requires
        0 <= i <= request.context_paths().len(),
        targets_differ_by(state, start, request.context_paths().take(i)),
    ensures
        targets_differ_by(
            request.with_contexts_from(i, state),
            start,
            request.context_paths(),
        ),
    decreases request.context_paths().len() - i,
{
    let paths = request.context_paths();
    let contexts = request.rewrite_result.context_invalidations;
    if i < contexts.len() {
        let context = contexts[i];
        let next = SelectedTargets {
            leaf: with_leaf(
                state.leaf,
                request.runtime_snapshot,
                context.relative_path,
                context.node_id,
                None,
                RefineGateTargetReason::ContextInvalidated,
            ),
            ..state
        };
        leaf_is_the_only_new_one(
            state.leaf,
            request.runtime_snapshot,
            context.relative_path,
            context.node_id,
            None,
            RefineGateTargetReason::ContextInvalidated,
        );
        assert(paths[i] == context.relative_path);
        assert(paths.take(i + 1) =~= paths.take(i).push(paths[i]));
        assert forall|path: Seq<char>|
            #![trigger has_leaf_at(next.leaf, path)]
            #![trigger has_leaf_at(start.leaf, path)]
            has_leaf_at(next.leaf, path) <==> has_leaf_at(start.leaf, path) || paths.take(
                i + 1,
            ).contains(path) by {
            let known = paths.take(i);
            let told = known.push(paths[i]);
            assert(has_leaf_at(state.leaf, path) <==> has_leaf_at(start.leaf, path)
                || known.contains(path));
            assert(told.contains(path) <==> known.contains(path) || path == paths[i]) by {
                assert(told[i] == paths[i]);
                if known.contains(path) {
                    let k = choose|k: int| 0 <= k < known.len() && known[k] == path;
                    assert(told[k] == path);
                }
                if told.contains(path) && path != paths[i] {
                    let k = choose|k: int| 0 <= k < told.len() && told[k] == path;
                    assert(known[k] == path);
                }
            }
        }
        contexts_add_their_leaves(request, start, i + 1, next);
    } else {
        assert(paths.take(i) =~= paths);
    }
}

proof fn added_children_keep_difference(
    request: SelectRefineGateTargetsRequestModel,
    change: RefineStructuralChangeModel,
    others: Seq<Seq<char>>,
    i: int,
    more: Seq<RefineLeafGateTargetModel>,
    less: Seq<RefineLeafGateTargetModel>,
)
    requires
        0 <= i,
        leaves_differ_by(more, less, others),
    ensures
        leaves_differ_by(
            request.with_added_children_from(change, i, more),
            request.without_contexts().with_added_children_from(change, i, less),
            others,
        ),
    decreases change.added_child_relative_paths.len() - i,
{
    if i < change.added_child_relative_paths.len() {
        let child = change.added_child_relative_paths[i];
        let snapshot = request.runtime_snapshot;
        let reason = structural_reason(change.change_kind);
        match snapshot.node_at(child) {
            None => {
                added_children_keep_difference(request, change, others, i + 1, more, less);
            },
            Some(node) => match node.node_kind {
                NodeKind::Leaf => {
                    let parent = Some(change.parent_relative_path);
                    leaf_keeps_difference(
                        more,
                        less,
                        others,
                        snapshot,
                        child,
                        None,
                        parent,
                        reason,
                    );
                    added_children_keep_difference(
                        request,
                        change,
                        others,
                        i + 1,
                        with_leaf(more, snapshot, child, None, parent, reason),
                        with_leaf(less, snapshot, child, None, parent, reason),
                    );
                },
                NodeKind::Parent => {
                    leaves_at_all_keep_difference(
                        more,
                        less,
                        others,
                        snapshot,
                        node.child_relative_paths,
                        0,
                        Seq::empty(),
                        reason,
                        snapshot.nodes.len(),
                    );
                    added_children_keep_difference(
                        request,
                        change,
                        others,
                        i + 1,
                        with_leaves_below(more, snapshot, child, Seq::empty(), reason),
                        with_leaves_below(less, snapshot, child, Seq::empty(), reason),
                    );
                },
            },
        }
    }
}

proof fn structure_keeps_difference(
    request: SelectRefineGateTargetsRequestModel,
    others: Seq<Seq<char>>,
    i: int,
    more: SelectedTargets,
    less: SelectedTargets,
)
    requires
        0 <= i,
        targets_differ_by(more, less, others),
    ensures
        targets_differ_by(
            request.with_structure_from(i, more),
            request.without_contexts().with_structure_from(i, less),
            others,
        ),
    decreases request.rewrite_result.structural_changes.len() - i,
{
    if i < request.rewrite_result.structural_changes.len() {
        let change = request.rewrite_result.structural_changes[i];
        let plain = request.without_contexts();
        let frontier = with_frontier(
            more.frontier,
            request.runtime_snapshot,
            change.parent_relative_path,
            change.added_child_relative_paths + change.removed_child_relative_paths,
            change.removed_child_relative_paths,
            structural_reason(change.change_kind),
        );
        added_children_keep_difference(request, change, others, 0, more.leaf, less.leaf);
        structure_keeps_difference(
            request,
            others,
            i + 1,
            SelectedTargets {
                frontier,
                leaf: request.with_added_children_from(change, 0, more.leaf),
                ..more
            },
            SelectedTargets {
                frontier,
                leaf: plain.with_added_children_from(change, 0, less.leaf),
                ..less
            },
        );
    }
}

proof fn handoffs_keep_difference(
    request: SelectRefineGateTargetsRequestModel,
    others: Seq<Seq<char>>,
    i: int,
    more: SelectedTargets,
    less: SelectedTargets,
)
    requires
        0 <= i,
        targets_differ_by(more, less, others),
    ensures
        targets_differ_by(
            request.with_handoffs_from(i, more),
            request.without_contexts().with_handoffs_from(i, less),
            others,
        ),
    decreases request.stale_result_handoff.len() - i,
{
    if i < request.stale_result_handoff.len() {
        let handoff = request.stale_result_handoff[i];
        let plain = request.without_contexts();
        if handoff.target_kind == StaleGateTargetKind::Leaf {
            leaf_keeps_difference(
                more.leaf,
                less.leaf,
                others,
                request.runtime_snapshot,
                handoff.relative_path,
                handoff.node_id,
                None,
                RefineGateTargetReason::StaleDescendant,
            );
        }
        handoffs_keep_difference(
            request,
            others,
            i + 1,
            request.with_handoff(handoff, more),
            plain.with_handoff(handoff, less),
        );
    }
}

/// A context that changed asks for the review of its own leaf and of nothing
/// else: without the changed contexts the same parents are selected, and the
/// same leaves but for those whose context changed.
pub proof fn contexts_select_leaves_only(request: SelectRefineGateTargetsRequestModel)
    ensures
        request.selection().frontier_targets
            == request.without_contexts().selection().frontier_targets,
        request.selection().stale_frontier_approvals
            == request.without_contexts().selection().stale_frontier_approvals,
        forall|path: Seq<char>|
            #[trigger] has_leaf_at(request.selection().leaf_targets, path) <==> has_leaf_at(
                request.without_contexts().selection().leaf_targets,
                path,
            ) || request.context_paths().contains(path),
        forall|k: int|
            0 <= k < request.rewrite_result.context_invalidations.len() ==> has_leaf(
                request.selection().leaf_targets,
                (#[trigger] request.rewrite_result.context_invalidations[k]).relative_path,
                RefineGateTargetReason::ContextInvalidated,
            ),
{
    let plain = request.without_contexts();
    let removed = removed_paths_from(request.rewrite_result.changed_files, 0, Seq::empty());
    let start = SelectedTargets {
        leaf: Seq::empty(),
        frontier: Seq::empty(),
        stale_leaf: Seq::empty(),
        stale_frontier: Seq::empty(),
    };
    let files = request.with_files_from(removed, 0, start);
    let contexts = request.with_contexts_from(0, files);
    let others = request.context_paths();
    files_do_not_see_contexts(request, removed, 0, start);
    contexts_add_their_leaves(request, files, 0, files);
    assert(plain.with_contexts_from(0, files) == files);
    structure_keeps_difference(request, others, 0, contexts, files);
    handoffs_keep_difference(
        request,
        others,
        0,
        request.with_structure_from(0, contexts),
        plain.with_structure_from(0, files),
    );
    selection_covers_every_change(request);
}

} // verus!
