//! Which gates a rewrite calls for, and for which reasons: those that the
//! changes, the contexts, the parents and the stale reviews ask for, and no
//! other.
use super::changes::{
    RefineChangedFileKind, RefineChangedFileModel, RefineStructuralChangeKind,
    RefineStructuralChangeModel,
};
use super::gate_targets::{
    frontier_index_from, handoff_parent, leaf_index_from, removed_paths_from, snapshot_node_from,
    text_updates_from, with_frontier, with_leaf, with_leaves_at, with_leaves_at_all,
    with_leaves_below, with_reason, SelectedTargets,
};
use super::registration_types::RefineGateTargetReason;
use super::runtime_state::{
    RefineRuntimeNodeSnapshotModel, RefineRuntimeNodeSummaryModel, RefineStaleGateClassification,
    RefineStaleResultHandoffModel, StaleGateTargetKind,
};
use super::selection_laws::{frontier_index_is_found, has_frontier, has_leaf, leaf_index_is_found};
use super::selection_types::{
    RefineFrontierGateTargetModel, RefineLeafGateTargetModel, SelectRefineGateTargetsRequestModel,
};
use crate::api::NodeKind;
use crate::paths::{file_stem, parent_name};
use crate::runtime::review_laws::{holds_words, words_are_left};
use crate::text::{is_space, trimmed};
use vstd::prelude::*;

verus! {

// ---------------------------------------------------------------------
// What the snapshot tracks
// ---------------------------------------------------------------------
/// The snapshot tracks this node at the path: it is the first one there.
pub open spec fn tracks(
    snapshot: RefineRuntimeNodeSnapshotModel,
    path: Seq<char>,
    node: RefineRuntimeNodeSummaryModel,
) -> bool {
    exists|k: int|
        0 <= k < snapshot.nodes.len() && #[trigger] snapshot.nodes[k] == node && node.relative_path
            == path && forall|j: int|
            0 <= j < k ==> (#[trigger] snapshot.nodes[j]).relative_path != path
}

/// The node of a snapshot at a path is the first one that stands there.
pub proof fn tracked_nodes_are_found(
    snapshot: RefineRuntimeNodeSnapshotModel,
    path: Seq<char>,
)
    ensures
        match snapshot.node_at(path) {
            Some(node) => tracks(snapshot, path, node),
            None => forall|k: int|
                0 <= k < snapshot.nodes.len() ==> (#[trigger] snapshot.nodes[k]).relative_path
                    != path,
        },
{
    first_node_is_found(snapshot, path, 0);
}

proof fn first_node_is_found(snapshot: RefineRuntimeNodeSnapshotModel, path: Seq<char>, i: int)
    requires
        0 <= i <= snapshot.nodes.len(),
        forall|j: int| 0 <= j < i ==> (#[trigger] snapshot.nodes[j]).relative_path != path,
    ensures
        match snapshot_node_from(snapshot.nodes, path, i) {
            Some(node) => tracks(snapshot, path, node),
            None => forall|k: int|
                0 <= k < snapshot.nodes.len() ==> (#[trigger] snapshot.nodes[k]).relative_path
                    != path,
        },
    decreases snapshot.nodes.len() - i,
{
    if i < snapshot.nodes.len() {
        if snapshot.nodes[i].relative_path != path {
            first_node_is_found(snapshot, path, i + 1);
        } else {
            assert(tracks(snapshot, path, snapshot.nodes[i]));
        }
    }
}

/// A tracked leaf is reached from a path: it stands there, or is reached from a
/// child of the tracked parent there. What was removed is not passed, and at most
/// `depth` parents are.
pub open spec fn reaches(
    snapshot: RefineRuntimeNodeSnapshotModel,
    removed: Seq<Seq<char>>,
    from: Seq<char>,
    leaf: Seq<char>,
    depth: nat,
) -> bool
    decreases depth,
{
    &&& !removed.contains(from)
    &&& snapshot.node_at(from) is Some
    &&& match snapshot.node_at(from)->0.node_kind {
        NodeKind::Leaf => leaf == from,
        NodeKind::Parent => depth > 0 && exists|k: int|
            0 <= k < snapshot.node_at(from)->0.child_relative_paths.len() && reaches(
                snapshot,
                removed,
                #[trigger] snapshot.node_at(from)->0.child_relative_paths[k],
                leaf,
                (depth - 1) as nat,
            ),
    }
}

/// A tracked leaf is reached from a child of the node at a path.
pub open spec fn stands_below(
    snapshot: RefineRuntimeNodeSnapshotModel,
    removed: Seq<Seq<char>>,
    parent: Seq<char>,
    leaf: Seq<char>,
) -> bool {
    snapshot.node_at(parent) is Some && exists|k: int|
        0 <= k < snapshot.node_at(parent)->0.child_relative_paths.len() && reaches(
            snapshot,
            removed,
            #[trigger] snapshot.node_at(parent)->0.child_relative_paths[k],
            leaf,
            snapshot.nodes.len(),
        )
}

// ---------------------------------------------------------------------
// One target more
// ---------------------------------------------------------------------
proof fn one_leaf_more(
    targets: Seq<RefineLeafGateTargetModel>,
    snapshot: RefineRuntimeNodeSnapshotModel,
    path: Seq<char>,
    node_id: Option<Seq<char>>,
    parent: Option<Seq<char>>,
    reason: RefineGateTargetReason,
    other: Seq<char>,
    why: RefineGateTargetReason,
)
    ensures
        has_leaf(with_leaf(targets, snapshot, path, node_id, parent, reason), other, why)
            <==> has_leaf(targets, other, why) || (other == path && why == reason),
{
    let next = with_leaf(targets, snapshot, path, node_id, parent, reason);
    leaf_index_is_found(targets, path, 0);
    let at = match leaf_index_from(targets, path, 0) {
        Some(k) => k,
        None => targets.len() as int,
    };
    if at < targets.len() {
        let old_reasons = targets[at].reasons;
        let reasons = with_reason(old_reasons, reason);
        assert(reasons.contains(why) <==> old_reasons.contains(why) || why == reason) by {
            reason_is_added(old_reasons, reason, why);
        }
    } else {
        assert(next[at].reasons =~= seq![reason]);
        assert(seq![reason].contains(why) <==> why == reason) by {
            assert(seq![reason][0] == reason);
        }
    }
    if has_leaf(targets, other, why) {
        let k = choose|k: int|
            0 <= k < targets.len() && (#[trigger] targets[k]).relative_path == other
                && targets[k].reasons.contains(why);
        assert(next[k].relative_path == other && next[k].reasons.contains(why));
    }
    if other == path && why == reason {
        assert(next[at].relative_path == path && next[at].reasons.contains(why));
    }
    if has_leaf(next, other, why) {
        let k = choose|k: int|
            0 <= k < next.len() && (#[trigger] next[k]).relative_path == other
                && next[k].reasons.contains(why);
        if k < targets.len() {
            assert(targets[k].relative_path == other);
        }
    }
}

proof fn reason_is_added(
    reasons: Seq<RefineGateTargetReason>,
    reason: RefineGateTargetReason,
    why: RefineGateTargetReason,
)
    ensures
        with_reason(reasons, reason).contains(why) <==> reasons.contains(why) || why == reason,
{
    if !reasons.contains(reason) {
        let more = reasons.push(reason);
        assert(more[reasons.len() as int] == reason);
        if reasons.contains(why) {
            let k = choose|k: int| 0 <= k < reasons.len() && reasons[k] == why;
            assert(more[k] == why);
        }
        if more.contains(why) {
            let k = choose|k: int| 0 <= k < more.len() && more[k] == why;
            if k < reasons.len() {
                assert(reasons[k] == why);
            }
        }
    }
}

proof fn one_frontier_more(
    targets: Seq<RefineFrontierGateTargetModel>,
    snapshot: RefineRuntimeNodeSnapshotModel,
    parent: Seq<char>,
    changed: Seq<Seq<char>>,
    removed: Seq<Seq<char>>,
    reason: RefineGateTargetReason,
    other: Seq<char>,
    why: RefineGateTargetReason,
)
    ensures
        has_frontier(
            with_frontier(targets, snapshot, parent, changed, removed, reason),
            other,
            why,
        ) <==> has_frontier(targets, other, why) || (other == parent && why == reason),
{
    let next = with_frontier(targets, snapshot, parent, changed, removed, reason);
    frontier_index_is_found(targets, parent, 0);
    let at = match frontier_index_from(targets, parent, 0) {
        Some(k) => k,
        None => targets.len() as int,
    };
    if at < targets.len() {
        reason_is_added(targets[at].reasons, reason, why);
    } else {
        assert(next[at].reasons =~= seq![reason]);
        assert(seq![reason].contains(why) <==> why == reason) by {
            assert(seq![reason][0] == reason);
        }
    }
    if has_frontier(targets, other, why) {
        let k = choose|k: int|
            0 <= k < targets.len() && (#[trigger] targets[k]).parent_relative_path == other
                && targets[k].reasons.contains(why);
        assert(next[k].parent_relative_path == other && next[k].reasons.contains(why));
    }
    if other == parent && why == reason {
        assert(next[at].parent_relative_path == parent && next[at].reasons.contains(why));
    }
    if has_frontier(next, other, why) {
        let k = choose|k: int|
            0 <= k < next.len() && (#[trigger] next[k]).parent_relative_path == other
                && next[k].reasons.contains(why);
        if k < targets.len() {
            assert(targets[k].parent_relative_path == other);
        }
    }
}

proof fn leaves_from_path(
    targets: Seq<RefineLeafGateTargetModel>,
    snapshot: RefineRuntimeNodeSnapshotModel,
    path: Seq<char>,
    removed: Seq<Seq<char>>,
    reason: RefineGateTargetReason,
    depth: nat,
    other: Seq<char>,
    why: RefineGateTargetReason,
)
    ensures
        has_leaf(with_leaves_at(targets, snapshot, path, removed, reason, depth), other, why)
            <==> has_leaf(targets, other, why) || (why == reason && reaches(
            snapshot,
            removed,
            path,
            other,
            depth,
        )),
    decreases depth, 0nat,
{
    if !removed.contains(path) {
        tracked_nodes_are_found(snapshot, path);
        if let Some(node) = snapshot.node_at(path) {
            match node.node_kind {
                NodeKind::Leaf => {
                    one_leaf_more(
                        targets,
                        snapshot,
                        node.relative_path,
                        Some(node.node_id),
                        None,
                        reason,
                        other,
                        why,
                    );
                },
                NodeKind::Parent => {
                    if depth > 0 {
                        leaves_from_paths(
                            targets,
                            snapshot,
                            node.child_relative_paths,
                            0,
                            removed,
                            reason,
                            (depth - 1) as nat,
                            other,
                            why,
                        );
                    }
                },
            }
        }
    }
}

proof fn leaves_from_paths(
    targets: Seq<RefineLeafGateTargetModel>,
    snapshot: RefineRuntimeNodeSnapshotModel,
    paths: Seq<Seq<char>>,
    i: nat,
    removed: Seq<Seq<char>>,
    reason: RefineGateTargetReason,
    depth: nat,
    other: Seq<char>,
    why: RefineGateTargetReason,
)
    ensures
        has_leaf(
            with_leaves_at_all(targets, snapshot, paths, i, removed, reason, depth),
            other,
            why,
        ) <==> has_leaf(targets, other, why) || (why == reason && exists|k: int|
            i <= k < paths.len() && reaches(snapshot, removed, #[trigger] paths[k], other, depth)),
    decreases depth, paths.len() - i,
{
    if i < paths.len() {
        let path = paths[i as int];
        let next = with_leaves_at(targets, snapshot, path, removed, reason, depth);
        leaves_from_path(targets, snapshot, path, removed, reason, depth, other, why);
        leaves_from_paths(
            next,
            snapshot,
            paths,
            i + 1,
            removed,
            reason,
            depth,
            other,
            why,
        );
        if why == reason && exists|k: int|
            i <= k < paths.len() && reaches(snapshot, removed, #[trigger] paths[k], other, depth) {
            let k = choose|k: int|
                i <= k < paths.len() && reaches(
                    snapshot,
                    removed,
                    #[trigger] paths[k],
                    other,
                    depth,
                );
            if k == i {
                assert(reaches(snapshot, removed, path, other, depth));
            } else {
                assert(reaches(snapshot, removed, paths[k], other, depth));
            }
        }
        if reaches(snapshot, removed, path, other, depth) {
            assert(reaches(snapshot, removed, paths[i as int], other, depth));
        }
    }
}

proof fn leaves_from_parent(
    targets: Seq<RefineLeafGateTargetModel>,
    snapshot: RefineRuntimeNodeSnapshotModel,
    parent: Seq<char>,
    removed: Seq<Seq<char>>,
    reason: RefineGateTargetReason,
    other: Seq<char>,
    why: RefineGateTargetReason,
)
    ensures
        has_leaf(with_leaves_below(targets, snapshot, parent, removed, reason), other, why)
            <==> has_leaf(targets, other, why) || (why == reason && stands_below(
            snapshot,
            removed,
            parent,
            other,
        )),
{
    if let Some(node) = snapshot.node_at(parent) {
        leaves_from_paths(
            targets,
            snapshot,
            node.child_relative_paths,
            0,
            removed,
            reason,
            snapshot.nodes.len(),
            other,
            why,
        );
    }
}

// ---------------------------------------------------------------------
// What calls for a target
// ---------------------------------------------------------------------
/// The reason that a change of a parent gives.
pub open spec fn is_reason_of(
    reason: RefineGateTargetReason,
    kind: RefineStructuralChangeKind,
) -> bool {
    match kind {
        RefineStructuralChangeKind::ChangedChildSet => reason
            == RefineGateTargetReason::ChangedChildSet,
        RefineStructuralChangeKind::ParentContractChanged => reason
            == RefineGateTargetReason::ParentContractChanged,
    }
}

/// File `i` is the text at this path, updated.
pub open spec fn is_text_update(
    files: Seq<RefineChangedFileModel>,
    path: Seq<char>,
    i: int,
) -> bool {
    0 <= i < files.len() && files[i].relative_path == path && files[i].change_kind
        == RefineChangedFileKind::TextUpdated
}

/// The parent at this path changed in this way.
pub open spec fn changed_as(
    changes: Seq<RefineStructuralChangeModel>,
    path: Seq<char>,
    kind: RefineStructuralChangeKind,
) -> bool {
    exists|i: int|
        0 <= i < changes.len() && (#[trigger] changes[i]).parent_relative_path == path
            && changes[i].change_kind == kind
}

impl SelectRefineGateTargetsRequestModel {
    /// A parent stands at this path: the snapshot tracks one there, or the file
    /// has the name of its directory, or the rewrite changed its children or its
    /// contract.
    pub open spec fn is_parent_path(self, path: Seq<char>) -> bool {
        ||| self.runtime_snapshot.node_at(path) matches Some(node) && node.node_kind
            == NodeKind::Parent
        ||| file_stem(path) is Some && parent_name(path) == file_stem(path)
        ||| exists|i: int|
            0 <= i < self.rewrite_result.structural_changes.len() && (
            #[trigger] self.rewrite_result.structural_changes[i]).parent_relative_path == path
    }

    /// The text at this path was updated once, for its links alone: the children
    /// of the parent changed, and its contract did not.
    pub open spec fn only_links_changed(self, path: Seq<char>) -> bool {
        let files = self.rewrite_result.changed_files;
        let changes = self.rewrite_result.structural_changes;
        &&& exists|i: int| #[trigger] is_text_update(files, path, i)
        &&& forall|i: int, j: int|
            #[trigger] is_text_update(files, path, i) && #[trigger] is_text_update(files, path, j)
                ==> i == j
        &&& changed_as(changes, path, RefineStructuralChangeKind::ChangedChildSet)
        &&& !changed_as(changes, path, RefineStructuralChangeKind::ParentContractChanged)
    }

    /// The rewrite removed this path.
    pub open spec fn removes(self, path: Seq<char>) -> bool {
        exists|i: int|
            0 <= i < self.rewrite_result.changed_files.len() && (
            #[trigger] self.rewrite_result.changed_files[i]).relative_path == path
                && self.rewrite_result.changed_files[i].change_kind
                == RefineChangedFileKind::ExplicitlyRemoved
    }

    /// The paths are those that the rewrite removed.
    pub open spec fn are_removed(self, paths: Seq<Seq<char>>) -> bool {
        forall|path: Seq<char>| #[trigger] paths.contains(path) <==> self.removes(path)
    }

    /// A changed file calls for the review of a leaf: of itself, where it is no
    /// parent, and of each tracked leaf below it, where it is one whose contract
    /// changed.
    pub open spec fn file_calls_for_leaf(
        self,
        removed: Seq<Seq<char>>,
        file: RefineChangedFileModel,
        path: Seq<char>,
        reason: RefineGateTargetReason,
    ) -> bool {
        match file.change_kind {
            RefineChangedFileKind::TextUpdated => if self.is_parent_path(file.relative_path) {
                &&& !self.only_links_changed(file.relative_path)
                &&& reason == RefineGateTargetReason::ParentContractChanged
                &&& stands_below(self.runtime_snapshot, removed, file.relative_path, path)
            } else {
                path == file.relative_path && reason == RefineGateTargetReason::TextChanged
            },
            RefineChangedFileKind::Created => !self.is_parent_path(file.relative_path) && path
                == file.relative_path && reason == RefineGateTargetReason::NewLeaf,
            RefineChangedFileKind::Regenerated => path == file.relative_path && reason
                == RefineGateTargetReason::RegeneratedLeaf,
            RefineChangedFileKind::StaleMarked => false,
            RefineChangedFileKind::ExplicitlyRemoved => false,
        }
    }

    /// A changed file calls for the review of a parent.
    pub open spec fn file_calls_for_frontier(
        self,
        file: RefineChangedFileModel,
        path: Seq<char>,
        reason: RefineGateTargetReason,
    ) -> bool {
        &&& path == file.relative_path
        &&& self.is_parent_path(path)
        &&& match file.change_kind {
            RefineChangedFileKind::TextUpdated => !self.only_links_changed(path) && reason
                == RefineGateTargetReason::ParentContractChanged,
            RefineChangedFileKind::Created => reason == RefineGateTargetReason::NewParent,
            _ => false,
        }
    }

    /// A child that a parent gained calls for the review of a leaf: of itself,
    /// where it is tracked as a leaf, and of each tracked leaf below it, where it
    /// is tracked as a parent.
    pub open spec fn child_calls_for_leaf(self, child: Seq<char>, path: Seq<char>) -> bool {
        self.runtime_snapshot.node_at(child) matches Some(node) && match node.node_kind {
            NodeKind::Leaf => path == child,
            NodeKind::Parent => stands_below(self.runtime_snapshot, Seq::empty(), child, path),
        }
    }

    /// A changed parent calls for the review of a leaf.
    pub open spec fn change_calls_for_leaf(
        self,
        change: RefineStructuralChangeModel,
        path: Seq<char>,
        reason: RefineGateTargetReason,
    ) -> bool {
        is_reason_of(reason, change.change_kind) && exists|c: int|
            0 <= c < change.added_child_relative_paths.len() && self.child_calls_for_leaf(
                #[trigger] change.added_child_relative_paths[c],
                path,
            )
    }

    /// The review of this leaf is called for, for this reason.
    pub open spec fn calls_for_leaf(
        self,
        removed: Seq<Seq<char>>,
        path: Seq<char>,
        reason: RefineGateTargetReason,
    ) -> bool {
        let result = self.rewrite_result;
        ||| exists|i: int|
            0 <= i < result.changed_files.len() && self.file_calls_for_leaf(
                removed,
                #[trigger] result.changed_files[i],
                path,
                reason,
            )
        ||| reason == RefineGateTargetReason::ContextInvalidated && exists|i: int|
            0 <= i < result.context_invalidations.len() && (
            #[trigger] result.context_invalidations[i]).relative_path == path
        ||| exists|i: int|
            0 <= i < result.structural_changes.len() && self.change_calls_for_leaf(
                #[trigger] result.structural_changes[i],
                path,
                reason,
            )
        ||| reason == RefineGateTargetReason::StaleDescendant && exists|i: int|
            0 <= i < self.stale_result_handoff.len() && is_stale_review(
                #[trigger] self.stale_result_handoff[i],
                StaleGateTargetKind::Leaf,
            ) && self.stale_result_handoff[i].relative_path == path
    }

    /// The review of this parent is called for, for this reason.
    pub open spec fn calls_for_frontier(
        self,
        path: Seq<char>,
        reason: RefineGateTargetReason,
    ) -> bool {
        let result = self.rewrite_result;
        ||| exists|i: int|
            0 <= i < result.changed_files.len() && self.file_calls_for_frontier(
                #[trigger] result.changed_files[i],
                path,
                reason,
            )
        ||| exists|i: int|
            0 <= i < result.structural_changes.len() && (
            #[trigger] result.structural_changes[i]).parent_relative_path == path && is_reason_of(
                reason,
                result.structural_changes[i].change_kind,
            )
        ||| reason == RefineGateTargetReason::StaleDescendant && exists|i: int|
            0 <= i < self.stale_result_handoff.len() && is_stale_review(
                #[trigger] self.stale_result_handoff[i],
                StaleGateTargetKind::Frontier,
            ) && path == parent_of_review(self.stale_result_handoff[i])
    }
}

/// The handoff says that a review of this kind is stale, and why.
pub open spec fn is_stale_review(
    handoff: RefineStaleResultHandoffModel,
    kind: StaleGateTargetKind,
) -> bool {
    &&& handoff.target_kind == kind
    &&& handoff.classification == RefineStaleGateClassification::Stale
    &&& holds_words(Some(handoff.invalidation_reason))
}

/// The parent that a stale review is about: the one that is named, or else the
/// node itself.
pub open spec fn parent_of_review(handoff: RefineStaleResultHandoffModel) -> Seq<char> {
    match handoff.parent_relative_path {
        Some(path) => path,
        None => handoff.relative_path,
    }
}

// ---------------------------------------------------------------------
// The parts of the selection
// ---------------------------------------------------------------------
proof fn updates_are_counted(files: Seq<RefineChangedFileModel>, path: Seq<char>, i: int)
    requires
        0 <= i <= files.len(),
    ensures
        text_updates_from(files, path, i) == 0 <==> forall|j: int|
            i <= j ==> !#[trigger] is_text_update(files, path, j),
        text_updates_from(files, path, i) == 1 <==> {
            &&& exists|j: int| i <= j && #[trigger] is_text_update(files, path, j)
            &&& forall|j: int, k: int|
                i <= j && i <= k && #[trigger] is_text_update(files, path, j)
                    && #[trigger] is_text_update(files, path, k) ==> j == k
        },
    decreases files.len() - i,
{
    if i < files.len() {
        updates_are_counted(files, path, i + 1);
        if is_text_update(files, path, i) {
            assert(text_updates_from(files, path, i) == text_updates_from(files, path, i + 1) + 1);
            if text_updates_from(files, path, i + 1) > 0 {
                let j = choose|j: int| i + 1 <= j && #[trigger] is_text_update(files, path, j);
                assert(is_text_update(files, path, j) && is_text_update(files, path, i));
            }
        } else {
            assert(text_updates_from(files, path, i) == text_updates_from(files, path, i + 1));
        }
    }
}

proof fn links_alone(request: SelectRefineGateTargetsRequestModel, path: Seq<char>)
    ensures
        request.is_link_only(path) == request.only_links_changed(path),
{
    let files = request.rewrite_result.changed_files;
    updates_are_counted(files, path, 0);
    assert forall|i: int| #[trigger] is_text_update(files, path, i) implies 0 <= i by {}
}

proof fn removed_paths_are_found(files: Seq<RefineChangedFileModel>, i: int, acc: Seq<Seq<char>>, path: Seq<char>)
    requires
        0 <= i <= files.len(),
    ensures
        removed_paths_from(files, i, acc).contains(path) <==> acc.contains(path) || exists|k: int|
            i <= k < files.len() && (#[trigger] files[k]).relative_path == path
                && files[k].change_kind == RefineChangedFileKind::ExplicitlyRemoved,
    decreases files.len() - i,
{
    if i < files.len() {
        if files[i].change_kind == RefineChangedFileKind::ExplicitlyRemoved {
            let more = acc.push(files[i].relative_path);
            removed_paths_are_found(files, i + 1, more, path);
            assert(more.contains(path) <==> acc.contains(path) || path == files[i].relative_path)
                by {
                assert(more[acc.len() as int] == files[i].relative_path);
                if acc.contains(path) {
                    let k = choose|k: int| 0 <= k < acc.len() && acc[k] == path;
                    assert(more[k] == path);
                }
                if more.contains(path) {
                    let k = choose|k: int| 0 <= k < more.len() && more[k] == path;
                    if k < acc.len() {
                        assert(acc[k] == path);
                    }
                }
            }
        } else {
            removed_paths_are_found(files, i + 1, acc, path);
        }
    }
}

proof fn files_call(
    request: SelectRefineGateTargetsRequestModel,
    removed: Seq<Seq<char>>,
    i: int,
    state: SelectedTargets,
    path: Seq<char>,
    reason: RefineGateTargetReason,
)
    requires
        0 <= i <= request.rewrite_result.changed_files.len(),
    ensures
        ({
            let out = request.with_files_from(removed, i, state);
            let files = request.rewrite_result.changed_files;
            &&& has_leaf(out.leaf, path, reason) <==> has_leaf(state.leaf, path, reason) || exists|
                k: int,
            |
                i <= k < files.len() && request.file_calls_for_leaf(
                    removed,
                    #[trigger] files[k],
                    path,
                    reason,
                )
            &&& has_frontier(out.frontier, path, reason) <==> has_frontier(
                state.frontier,
                path,
                reason,
            ) || exists|k: int|
                i <= k < files.len() && request.file_calls_for_frontier(
                    #[trigger] files[k],
                    path,
                    reason,
                )
        }),
    decreases request.rewrite_result.changed_files.len() - i,
{
    let files = request.rewrite_result.changed_files;
    if i < files.len() {
        let file = files[i];
        let next = request.with_file(removed, file, state);
        file_calls(request, removed, file, state, path, reason);
        files_call(request, removed, i + 1, next, path, reason);
        if exists|k: int|
            i <= k < files.len() && request.file_calls_for_leaf(
                removed,
                #[trigger] files[k],
                path,
                reason,
            ) {
            let k = choose|k: int|
                i <= k < files.len() && request.file_calls_for_leaf(
                    removed,
                    #[trigger] files[k],
                    path,
                    reason,
                );
            if k == i {
                assert(has_leaf(next.leaf, path, reason));
            } else {
                assert(request.file_calls_for_leaf(removed, files[k], path, reason));
            }
        }
        if exists|k: int|
            i <= k < files.len() && request.file_calls_for_frontier(
                #[trigger] files[k],
                path,
                reason,
            ) {
            let k = choose|k: int|
                i <= k < files.len() && request.file_calls_for_frontier(
                    #[trigger] files[k],
                    path,
                    reason,
                );
            if k == i {
                assert(has_frontier(next.frontier, path, reason));
            } else {
                assert(request.file_calls_for_frontier(files[k], path, reason));
            }
        }
    }
}

proof fn file_calls(
    request: SelectRefineGateTargetsRequestModel,
    removed: Seq<Seq<char>>,
    file: RefineChangedFileModel,
    state: SelectedTargets,
    path: Seq<char>,
    reason: RefineGateTargetReason,
)
    ensures
        ({
            let next = request.with_file(removed, file, state);
            &&& has_leaf(next.leaf, path, reason) <==> has_leaf(state.leaf, path, reason)
                || request.file_calls_for_leaf(removed, file, path, reason)
            &&& has_frontier(next.frontier, path, reason) <==> has_frontier(
                state.frontier,
                path,
                reason,
            ) || request.file_calls_for_frontier(file, path, reason)
            &&& next.stale_leaf == state.stale_leaf
            &&& next.stale_frontier == state.stale_frontier
        }),
{
    let at = file.relative_path;
    let snapshot = request.runtime_snapshot;
    let none = Seq::<Seq<char>>::empty();
    links_alone(request, at);
    assert(request.is_parent_target(at) == request.is_parent_path(at));
    one_frontier_more(
        state.frontier,
        snapshot,
        at,
        none,
        none,
        RefineGateTargetReason::ParentContractChanged,
        path,
        reason,
    );
    one_frontier_more(
        state.frontier,
        snapshot,
        at,
        none,
        none,
        RefineGateTargetReason::NewParent,
        path,
        reason,
    );
    leaves_from_parent(
        state.leaf,
        snapshot,
        at,
        removed,
        RefineGateTargetReason::ParentContractChanged,
        path,
        reason,
    );
    one_leaf_more(
        state.leaf,
        snapshot,
        at,
        file.node_id,
        None,
        RefineGateTargetReason::TextChanged,
        path,
        reason,
    );
    one_leaf_more(
        state.leaf,
        snapshot,
        at,
        None,
        None,
        RefineGateTargetReason::NewLeaf,
        path,
        reason,
    );
    one_leaf_more(
        state.leaf,
        snapshot,
        at,
        file.node_id,
        None,
        RefineGateTargetReason::RegeneratedLeaf,
        path,
        reason,
    );
}

proof fn contexts_call(
    request: SelectRefineGateTargetsRequestModel,
    i: int,
    state: SelectedTargets,
    path: Seq<char>,
    reason: RefineGateTargetReason,
)
    requires
        0 <= i <= request.rewrite_result.context_invalidations.len(),
    ensures
        ({
            let out = request.with_contexts_from(i, state);
            let contexts = request.rewrite_result.context_invalidations;
            &&& has_leaf(out.leaf, path, reason) <==> has_leaf(state.leaf, path, reason) || (reason
                == RefineGateTargetReason::ContextInvalidated && exists|k: int|
                i <= k < contexts.len() && (#[trigger] contexts[k]).relative_path == path)
            &&& out.frontier == state.frontier
        }),
    decreases request.rewrite_result.context_invalidations.len() - i,
{
    let contexts = request.rewrite_result.context_invalidations;
    if i < contexts.len() {
        let context = contexts[i];
        one_leaf_more(
            state.leaf,
            request.runtime_snapshot,
            context.relative_path,
            context.node_id,
            None,
            RefineGateTargetReason::ContextInvalidated,
            path,
            reason,
        );
        let next = SelectedTargets {
            leaf: with_leaf(
                state.leaf,
                request.runtime_snapshot,
                context.relative_path,
                context.node_id,
                None,
                RefineGateTargetReason::ContextInvalidated,
            ),
            ..state
        };
        contexts_call(request, i + 1, next, path, reason);
        if exists|k: int| i <= k < contexts.len() && (#[trigger] contexts[k]).relative_path == path {
            let k = choose|k: int|
                i <= k < contexts.len() && (#[trigger] contexts[k]).relative_path == path;
            if k > i {
                assert(contexts[k].relative_path == path);
            }
        }
    }
}

proof fn children_call(
    request: SelectRefineGateTargetsRequestModel,
    change: RefineStructuralChangeModel,
    i: int,
    targets: Seq<RefineLeafGateTargetModel>,
    path: Seq<char>,
    reason: RefineGateTargetReason,
)
    requires
        0 <= i <= change.added_child_relative_paths.len(),
    ensures
        ({
            let children = change.added_child_relative_paths;
            has_leaf(request.with_added_children_from(change, i, targets), path, reason)
                <==> has_leaf(targets, path, reason) || (is_reason_of(reason, change.change_kind)
                && exists|c: int|
                i <= c < children.len() && request.child_calls_for_leaf(
                    #[trigger] children[c],
                    path,
                ))
        }),
    decreases change.added_child_relative_paths.len() - i,
{
    let children = change.added_child_relative_paths;
    if i < children.len() {
        let child = children[i];
        let snapshot = request.runtime_snapshot;
        let why = super::gate_targets::structural_reason(change.change_kind);
        let home = Some(change.parent_relative_path);
        let next = match snapshot.node_at(child) {
            Some(node) => match node.node_kind {
                NodeKind::Leaf => with_leaf(targets, snapshot, child, None, home, why),
                NodeKind::Parent => with_leaves_below(targets, snapshot, child, Seq::empty(), why),
            },
            None => targets,
        };
        one_leaf_more(targets, snapshot, child, None, home, why, path, reason);
        leaves_from_parent(targets, snapshot, child, Seq::empty(), why, path, reason);
        children_call(request, change, i + 1, next, path, reason);
        if is_reason_of(reason, change.change_kind) && exists|c: int|
            i <= c < children.len() && request.child_calls_for_leaf(#[trigger] children[c], path) {
            let c = choose|c: int|
                i <= c < children.len() && request.child_calls_for_leaf(
                    #[trigger] children[c],
                    path,
                );
            if c > i {
                assert(request.child_calls_for_leaf(children[c], path));
            } else {
                assert(has_leaf(next, path, reason));
            }
        }
    }
}

proof fn structure_calls(
    request: SelectRefineGateTargetsRequestModel,
    i: int,
    state: SelectedTargets,
    path: Seq<char>,
    reason: RefineGateTargetReason,
)
    requires
        0 <= i <= request.rewrite_result.structural_changes.len(),
    ensures
        ({
            let out = request.with_structure_from(i, state);
            let changes = request.rewrite_result.structural_changes;
            &&& has_leaf(out.leaf, path, reason) <==> has_leaf(state.leaf, path, reason) || exists|
                k: int,
            |
                i <= k < changes.len() && request.change_calls_for_leaf(
                    #[trigger] changes[k],
                    path,
                    reason,
                )
            &&& has_frontier(out.frontier, path, reason) <==> has_frontier(
                state.frontier,
                path,
                reason,
            ) || exists|k: int|
                i <= k < changes.len() && (#[trigger] changes[k]).parent_relative_path == path
                    && is_reason_of(reason, changes[k].change_kind)
        }),
    decreases request.rewrite_result.structural_changes.len() - i,
{
    let changes = request.rewrite_result.structural_changes;
    if i < changes.len() {
        let change = changes[i];
        let why = super::gate_targets::structural_reason(change.change_kind);
        let changed = change.added_child_relative_paths + change.removed_child_relative_paths;
        one_frontier_more(
            state.frontier,
            request.runtime_snapshot,
            change.parent_relative_path,
            changed,
            change.removed_child_relative_paths,
            why,
            path,
            reason,
        );
        children_call(request, change, 0, state.leaf, path, reason);
        let next = SelectedTargets {
            frontier: with_frontier(
                state.frontier,
                request.runtime_snapshot,
                change.parent_relative_path,
                changed,
                change.removed_child_relative_paths,
                why,
            ),
            leaf: request.with_added_children_from(change, 0, state.leaf),
            ..state
        };
        structure_calls(request, i + 1, next, path, reason);
        if exists|k: int|
            i <= k < changes.len() && request.change_calls_for_leaf(
                #[trigger] changes[k],
                path,
                reason,
            ) {
            let k = choose|k: int|
                i <= k < changes.len() && request.change_calls_for_leaf(
                    #[trigger] changes[k],
                    path,
                    reason,
                );
            if k > i {
                assert(request.change_calls_for_leaf(changes[k], path, reason));
            } else {
                assert(has_leaf(next.leaf, path, reason));
            }
        }
        if request.change_calls_for_leaf(change, path, reason) {
            assert(request.change_calls_for_leaf(changes[i], path, reason));
        }
    }
}

/// Something is left of a reason exactly where it holds more than white space.
pub proof fn reasons_hold_words(text: Seq<char>)
    ensures
        holds_words(Some(text)) <==> trimmed(text).len() > 0,
{
    words_are_left(text);
    let held: Option<Seq<char>> = Some(text);
    if trimmed(text).len() > 0 {
        let i = choose|i: int| 0 <= i < text.len() && !is_space(#[trigger] text[i]);
        assert(!is_space(held->0[i]));
        assert(holds_words(held));
    } else if holds_words(held) {
        let i = choose|i: int| 0 <= i < held->0.len() && !is_space(#[trigger] held->0[i]);
        assert(!is_space(text[i]));
        assert(false);
    }
}

proof fn handoffs_call(
    request: SelectRefineGateTargetsRequestModel,
    i: int,
    state: SelectedTargets,
    path: Seq<char>,
    reason: RefineGateTargetReason,
)
    requires
        0 <= i <= request.stale_result_handoff.len(),
    ensures
        ({
            let out = request.with_handoffs_from(i, state);
            let handoffs = request.stale_result_handoff;
            &&& has_leaf(out.leaf, path, reason) <==> has_leaf(state.leaf, path, reason) || (reason
                == RefineGateTargetReason::StaleDescendant && exists|k: int|
                i <= k < handoffs.len() && is_stale_review(
                    #[trigger] handoffs[k],
                    StaleGateTargetKind::Leaf,
                ) && handoffs[k].relative_path == path)
            &&& has_frontier(out.frontier, path, reason) <==> has_frontier(
                state.frontier,
                path,
                reason,
            ) || (reason == RefineGateTargetReason::StaleDescendant && exists|k: int|
                i <= k < handoffs.len() && is_stale_review(
                    #[trigger] handoffs[k],
                    StaleGateTargetKind::Frontier,
                ) && path == parent_of_review(handoffs[k]))
        }),
    decreases request.stale_result_handoff.len() - i,
{
    let handoffs = request.stale_result_handoff;
    if i < handoffs.len() {
        let handoff = handoffs[i];
        let snapshot = request.runtime_snapshot;
        let next = request.with_handoff(handoff, state);
        reasons_hold_words(handoff.invalidation_reason);
        one_leaf_more(
            state.leaf,
            snapshot,
            handoff.relative_path,
            handoff.node_id,
            None,
            RefineGateTargetReason::StaleDescendant,
            path,
            reason,
        );
        one_frontier_more(
            state.frontier,
            snapshot,
            handoff_parent(handoff),
            match handoff.regenerated_child_relative_path {
                Some(child) => seq![child],
                None => Seq::empty(),
            },
            Seq::empty(),
            RefineGateTargetReason::StaleDescendant,
            path,
            reason,
        );
        handoffs_call(request, i + 1, next, path, reason);
        assert(handoff_parent(handoff) == parent_of_review(handoff));
        assert(has_leaf(next.leaf, path, reason) <==> has_leaf(state.leaf, path, reason) || (reason
            == RefineGateTargetReason::StaleDescendant && is_stale_review(
            handoff,
            StaleGateTargetKind::Leaf,
        ) && handoff.relative_path == path));
        assert(has_frontier(next.frontier, path, reason) <==> has_frontier(
            state.frontier,
            path,
            reason,
        ) || (reason == RefineGateTargetReason::StaleDescendant && is_stale_review(
            handoff,
            StaleGateTargetKind::Frontier,
        ) && path == parent_of_review(handoff)));
        if exists|k: int|
            i <= k < handoffs.len() && is_stale_review(
                #[trigger] handoffs[k],
                StaleGateTargetKind::Leaf,
            ) && handoffs[k].relative_path == path {
            let k = choose|k: int|
                i <= k < handoffs.len() && is_stale_review(
                    #[trigger] handoffs[k],
                    StaleGateTargetKind::Leaf,
                ) && handoffs[k].relative_path == path;
            if k > i {
                assert(is_stale_review(handoffs[k], StaleGateTargetKind::Leaf));
            }
        }
        if exists|k: int|
            i <= k < handoffs.len() && is_stale_review(
                #[trigger] handoffs[k],
                StaleGateTargetKind::Frontier,
            ) && path == parent_of_review(handoffs[k]) {
            let k = choose|k: int|
                i <= k < handoffs.len() && is_stale_review(
                    #[trigger] handoffs[k],
                    StaleGateTargetKind::Frontier,
                ) && path == parent_of_review(handoffs[k]);
            if k > i {
                assert(is_stale_review(handoffs[k], StaleGateTargetKind::Frontier));
            }
        }
    }
}

// ---------------------------------------------------------------------
// The laws
// ---------------------------------------------------------------------
/// A leaf is to be reviewed for a reason exactly where the changes call for
/// that: for the new text of a leaf, a new leaf or one that was made anew; for a
/// context that changed; for a parent whose contract changed, where the leaf is
/// tracked below it and was not removed; for a parent that gained the leaf or a
/// parent above it; and for a review of the leaf that is stale.
pub proof fn leaf_targets_are_those_called_for(
    request: SelectRefineGateTargetsRequestModel,
    removed: Seq<Seq<char>>,
    path: Seq<char>,
    reason: RefineGateTargetReason,
)
    requires
        request.are_removed(removed),
    ensures
        has_leaf(request.selection().leaf_targets, path, reason) <==> request.calls_for_leaf(
            removed,
            path,
            reason,
        ),
{
    targets_are_those_called_for(request, path, reason);
    let found = removed_paths_from(request.rewrite_result.changed_files, 0, Seq::empty());
    assert forall|other: Seq<char>| found.contains(other) <==> removed.contains(other) by {
        removed_paths_are_found(request.rewrite_result.changed_files, 0, Seq::empty(), other);
        assert(!Seq::<Seq<char>>::empty().contains(other));
        assert(removed.contains(other) <==> request.removes(other));
    }
    let files = request.rewrite_result.changed_files;
    assert forall|i: int| 0 <= i < files.len() implies request.file_calls_for_leaf(
        found,
        #[trigger] files[i],
        path,
        reason,
    ) == request.file_calls_for_leaf(removed, files[i], path, reason) by {
        removals_decide(request.runtime_snapshot, found, removed, files[i].relative_path, path);
    }
    if request.calls_for_leaf(found, path, reason) {
        assert(request.calls_for_leaf(removed, path, reason)) by {
            if exists|i: int|
                0 <= i < files.len() && request.file_calls_for_leaf(
                    found,
                    #[trigger] files[i],
                    path,
                    reason,
                ) {
                let i = choose|i: int|
                    0 <= i < files.len() && request.file_calls_for_leaf(
                        found,
                        #[trigger] files[i],
                        path,
                        reason,
                    );
                assert(request.file_calls_for_leaf(removed, files[i], path, reason));
            }
        }
    }
    if request.calls_for_leaf(removed, path, reason) {
        assert(request.calls_for_leaf(found, path, reason)) by {
            if exists|i: int|
                0 <= i < files.len() && request.file_calls_for_leaf(
                    removed,
                    #[trigger] files[i],
                    path,
                    reason,
                ) {
                let i = choose|i: int|
                    0 <= i < files.len() && request.file_calls_for_leaf(
                        removed,
                        #[trigger] files[i],
                        path,
                        reason,
                    );
                assert(request.file_calls_for_leaf(found, files[i], path, reason));
            }
        }
    }
}

proof fn removals_decide(
    snapshot: RefineRuntimeNodeSnapshotModel,
    a: Seq<Seq<char>>,
    b: Seq<Seq<char>>,
    parent: Seq<char>,
    leaf: Seq<char>,
)
    requires
        forall|other: Seq<char>| a.contains(other) <==> b.contains(other),
    ensures
        stands_below(snapshot, a, parent, leaf) == stands_below(snapshot, b, parent, leaf),
{
    if let Some(node) = snapshot.node_at(parent) {
        let children = node.child_relative_paths;
        assert forall|k: int| 0 <= k < children.len() implies reaches(
            snapshot,
            a,
            #[trigger] children[k],
            leaf,
            snapshot.nodes.len(),
        ) == reaches(snapshot, b, children[k], leaf, snapshot.nodes.len()) by {
            removals_decide_at(snapshot, a, b, children[k], leaf, snapshot.nodes.len());
        }
        if stands_below(snapshot, a, parent, leaf) {
            let k = choose|k: int|
                0 <= k < children.len() && reaches(
                    snapshot,
                    a,
                    #[trigger] children[k],
                    leaf,
                    snapshot.nodes.len(),
                );
            assert(reaches(snapshot, b, children[k], leaf, snapshot.nodes.len()));
        }
        if stands_below(snapshot, b, parent, leaf) {
            let k = choose|k: int|
                0 <= k < children.len() && reaches(
                    snapshot,
                    b,
                    #[trigger] children[k],
                    leaf,
                    snapshot.nodes.len(),
                );
            assert(reaches(snapshot, a, children[k], leaf, snapshot.nodes.len()));
        }
    }
}

proof fn removals_decide_at(
    snapshot: RefineRuntimeNodeSnapshotModel,
    a: Seq<Seq<char>>,
    b: Seq<Seq<char>>,
    from: Seq<char>,
    leaf: Seq<char>,
    depth: nat,
)
    requires
        forall|other: Seq<char>| a.contains(other) <==> b.contains(other),
    ensures
        reaches(snapshot, a, from, leaf, depth) == reaches(snapshot, b, from, leaf, depth),
    decreases depth,
{
    assert(a.contains(from) <==> b.contains(from));
    if depth > 0 && snapshot.node_at(from) is Some {
        let children = snapshot.node_at(from)->0.child_relative_paths;
        let less = (depth - 1) as nat;
        assert forall|k: int| 0 <= k < children.len() implies reaches(
            snapshot,
            a,
            #[trigger] children[k],
            leaf,
            less,
        ) == reaches(snapshot, b, children[k], leaf, less) by {
            removals_decide_at(snapshot, a, b, children[k], leaf, less);
        }
        if exists|k: int|
            0 <= k < children.len() && reaches(snapshot, a, #[trigger] children[k], leaf, less) {
            let k = choose|k: int|
                0 <= k < children.len() && reaches(snapshot, a, #[trigger] children[k], leaf, less);
            assert(reaches(snapshot, b, children[k], leaf, less));
        }
        if exists|k: int|
            0 <= k < children.len() && reaches(snapshot, b, #[trigger] children[k], leaf, less) {
            let k = choose|k: int|
                0 <= k < children.len() && reaches(snapshot, b, #[trigger] children[k], leaf, less);
            assert(reaches(snapshot, a, children[k], leaf, less));
        }
    }
}

proof fn targets_are_those_called_for(
    request: SelectRefineGateTargetsRequestModel,
    path: Seq<char>,
    reason: RefineGateTargetReason,
)
    ensures
        has_leaf(request.selection().leaf_targets, path, reason) <==> request.calls_for_leaf(
            removed_paths_from(request.rewrite_result.changed_files, 0, Seq::empty()),
            path,
            reason,
        ),
        has_frontier(request.selection().frontier_targets, path, reason)
            <==> request.calls_for_frontier(path, reason),
{
    let removed = removed_paths_from(request.rewrite_result.changed_files, 0, Seq::empty());
    let start = SelectedTargets {
        leaf: Seq::empty(),
        frontier: Seq::empty(),
        stale_leaf: Seq::empty(),
        stale_frontier: Seq::empty(),
    };
    let files = request.with_files_from(removed, 0, start);
    let contexts = request.with_contexts_from(0, files);
    let structure = request.with_structure_from(0, contexts);
    files_call(request, removed, 0, start, path, reason);
    contexts_call(request, 0, files, path, reason);
    structure_calls(request, 0, contexts, path, reason);
    handoffs_call(request, 0, structure, path, reason);
    assert(!has_leaf(start.leaf, path, reason));
    assert(!has_frontier(start.frontier, path, reason));
}

/// A parent is to be reviewed for a reason exactly where the changes call for
/// that: for its new text, unless only its links changed; for a new parent; for
/// a change of its children or of its contract; and for a review of the parent
/// that is stale.
pub proof fn frontier_targets_are_those_called_for(
    request: SelectRefineGateTargetsRequestModel,
    path: Seq<char>,
    reason: RefineGateTargetReason,
)
    ensures
        has_frontier(request.selection().frontier_targets, path, reason)
            <==> request.calls_for_frontier(path, reason),
{
    targets_are_those_called_for(request, path, reason);
}

/// A tracked leaf that a parent gained is reviewed again, for the reason of the
/// change, and so is each tracked leaf below a parent that it gained.
pub proof fn gained_children_are_reviewed(
    request: SelectRefineGateTargetsRequestModel,
    k: int,
    c: int,
    path: Seq<char>,
    reason: RefineGateTargetReason,
)
    requires
        0 <= k < request.rewrite_result.structural_changes.len(),
        0 <= c < request.rewrite_result.structural_changes[k].added_child_relative_paths.len(),
        is_reason_of(reason, request.rewrite_result.structural_changes[k].change_kind),
        request.child_calls_for_leaf(
            request.rewrite_result.structural_changes[k].added_child_relative_paths[c],
            path,
        ),
    ensures
        has_leaf(request.selection().leaf_targets, path, reason),
{
    targets_are_those_called_for(request, path, reason);
    assert(request.change_calls_for_leaf(
        request.rewrite_result.structural_changes[k],
        path,
        reason,
    ));
}

} // verus!
