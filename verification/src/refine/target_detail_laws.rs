//! What the gates that a rewrite calls for are told of their nodes, and which
//! approvals do not hold any more.
use super::gate_targets::{
    frontier_index_from, leaf_index_from, parent_of, prior_frontier_from, prior_leaf_from,
    removed_paths_from, structural_reason, with_all_unique, with_all_unique_from, with_frontier,
    with_leaf, with_leaves_at, with_leaves_at_all, with_leaves_below, SelectedTargets,
};
use super::registration_types::{
    RefineGateTargetReason, RefineParentRegistrationCandidateModel,
};
use super::runtime_state::{
    RefinePriorFrontierGateSummaryModel, RefinePriorLeafGateSummaryModel,
    RefineRuntimeNodeSnapshotModel, RefineStaleResultHandoffModel, StaleGateTargetKind,
};
use super::selection_laws::{
    frontier_index_is_found, leaf_index_is_found, selection_covers_every_change,
};
use super::selection_types::{
    RefineFrontierGateTargetModel, RefineGateTargetSelectionModel, RefineLeafGateTargetModel,
    SelectRefineGateTargetsRequestModel, StaleGateApprovalModel,
};
use super::target_laws::{
    is_stale_review, parent_of_review, reasons_hold_words, tracked_nodes_are_found,
};
use crate::api::NodeKind;
use crate::text::with_unique;
use vstd::prelude::*;

verus! {

// ---------------------------------------------------------------------
// The children of a parent
// ---------------------------------------------------------------------
/// The target of the parent names the child as changed.
pub open spec fn names_changed(
    targets: Seq<RefineFrontierGateTargetModel>,
    parent: Seq<char>,
    child: Seq<char>,
) -> bool {
    exists|k: int|
        0 <= k < targets.len() && (#[trigger] targets[k]).parent_relative_path == parent
            && targets[k].changed_child_relative_paths.contains(child)
}

/// The target of the parent names the child as removed.
pub open spec fn names_removed(
    targets: Seq<RefineFrontierGateTargetModel>,
    parent: Seq<char>,
    child: Seq<char>,
) -> bool {
    exists|k: int|
        0 <= k < targets.len() && (#[trigger] targets[k]).parent_relative_path == parent
            && targets[k].removed_child_relative_paths.contains(child)
}

/// The ids of the parents are those that the snapshot knows.
pub open spec fn have_tracked_ids(
    targets: Seq<RefineFrontierGateTargetModel>,
    snapshot: RefineRuntimeNodeSnapshotModel,
) -> bool {
    forall|k: int|
        0 <= k < targets.len() ==> (#[trigger] targets[k]).parent_node_id == match snapshot.node_at(
            targets[k].parent_relative_path,
        ) {
            Some(node) => Some(node.node_id),
            None => None,
        }
}

proof fn members_taken_up(list: Seq<Seq<char>>, texts: Seq<Seq<char>>, i: int, one: Seq<char>)
    requires
        0 <= i <= texts.len(),
    ensures
        with_all_unique_from(list, texts, i).contains(one) <==> list.contains(one) || (exists|k: int|
            i <= k < texts.len() && #[trigger] texts[k] == one),
    decreases texts.len() - i,
{
    if i < texts.len() {
        let next = with_unique(list, texts[i]);
        members_taken_up(next, texts, i + 1, one);
        assert(next.contains(one) <==> list.contains(one) || one == texts[i]) by {
            if !list.contains(texts[i]) {
                let more = list.push(texts[i]);
                assert(more[list.len() as int] == texts[i]);
                if list.contains(one) {
                    let k = choose|k: int| 0 <= k < list.len() && list[k] == one;
                    assert(more[k] == one);
                }
                if more.contains(one) {
                    let k = choose|k: int| 0 <= k < more.len() && more[k] == one;
                    if k < list.len() {
                        assert(list[k] == one);
                    }
                }
            }
        }
        if exists|k: int| i <= k < texts.len() && #[trigger] texts[k] == one {
            let k = choose|k: int| i <= k < texts.len() && #[trigger] texts[k] == one;
            if k > i {
                assert(texts[k] == one);
            }
        }
    }
}

proof fn all_members_taken_up(list: Seq<Seq<char>>, texts: Seq<Seq<char>>, one: Seq<char>)
    ensures
        with_all_unique(list, texts).contains(one) <==> list.contains(one) || texts.contains(one),
{
    members_taken_up(list, texts, 0, one);
    if texts.contains(one) {
        let k = choose|k: int| 0 <= k < texts.len() && texts[k] == one;
        assert(texts[k] == one);
    }
}

proof fn one_parent_more(
    targets: Seq<RefineFrontierGateTargetModel>,
    snapshot: RefineRuntimeNodeSnapshotModel,
    parent: Seq<char>,
    changed: Seq<Seq<char>>,
    removed: Seq<Seq<char>>,
    reason: RefineGateTargetReason,
    other: Seq<char>,
    child: Seq<char>,
)
    ensures
        ({
            let next = with_frontier(targets, snapshot, parent, changed, removed, reason);
            &&& names_changed(next, other, child) <==> names_changed(targets, other, child) || (other
                == parent && changed.contains(child))
            &&& names_removed(next, other, child) <==> names_removed(targets, other, child) || (other
                == parent && removed.contains(child))
            &&& have_tracked_ids(targets, snapshot) ==> have_tracked_ids(next, snapshot)
        }),
{
    let next = with_frontier(targets, snapshot, parent, changed, removed, reason);
    frontier_index_is_found(targets, parent, 0);
    let at = match frontier_index_from(targets, parent, 0) {
        Some(k) => k,
        None => targets.len() as int,
    };
    let none = Seq::<Seq<char>>::empty();
    assert(!none.contains(child));
    if at < targets.len() {
        all_members_taken_up(targets[at].changed_child_relative_paths, changed, child);
        all_members_taken_up(targets[at].removed_child_relative_paths, removed, child);
    } else {
        all_members_taken_up(none, changed, child);
        all_members_taken_up(none, removed, child);
    }
    if names_changed(targets, other, child) {
        let k = choose|k: int|
            0 <= k < targets.len() && (#[trigger] targets[k]).parent_relative_path == other
                && targets[k].changed_child_relative_paths.contains(child);
        assert(next[k].parent_relative_path == other);
    }
    if names_removed(targets, other, child) {
        let k = choose|k: int|
            0 <= k < targets.len() && (#[trigger] targets[k]).parent_relative_path == other
                && targets[k].removed_child_relative_paths.contains(child);
        assert(next[k].parent_relative_path == other);
    }
    if other == parent {
        assert(next[at].parent_relative_path == other);
    }
    if names_changed(next, other, child) {
        let k = choose|k: int|
            0 <= k < next.len() && (#[trigger] next[k]).parent_relative_path == other
                && next[k].changed_child_relative_paths.contains(child);
        if k < targets.len() {
            assert(targets[k].parent_relative_path == other);
        }
    }
    if names_removed(next, other, child) {
        let k = choose|k: int|
            0 <= k < next.len() && (#[trigger] next[k]).parent_relative_path == other
                && next[k].removed_child_relative_paths.contains(child);
        if k < targets.len() {
            assert(targets[k].parent_relative_path == other);
        }
    }
    if have_tracked_ids(targets, snapshot) {
        assert forall|k: int| 0 <= k < next.len() implies (#[trigger] next[k]).parent_node_id
            == match snapshot.node_at(next[k].parent_relative_path) {
            Some(node) => Some(node.node_id),
            None => None,
        } by {
            if k < targets.len() {
                assert(next[k].parent_node_id == targets[k].parent_node_id);
                assert(next[k].parent_relative_path == targets[k].parent_relative_path);
            }
        }
    }
}

impl SelectRefineGateTargetsRequestModel {
    /// A changed parent gained or lost the child.
    pub open spec fn changes_child(self, parent: Seq<char>, child: Seq<char>, from: int) -> bool {
        exists|i: int|
            from <= i < self.rewrite_result.structural_changes.len() && (
            #[trigger] self.rewrite_result.structural_changes[i]).parent_relative_path == parent && (
            self.rewrite_result.structural_changes[i].added_child_relative_paths.contains(child)
                || self.rewrite_result.structural_changes[i].removed_child_relative_paths.contains(
                child,
            ))
    }

    /// A changed parent lost the child.
    pub open spec fn loses_child(self, parent: Seq<char>, child: Seq<char>, from: int) -> bool {
        exists|i: int|
            from <= i < self.rewrite_result.structural_changes.len() && (
            #[trigger] self.rewrite_result.structural_changes[i]).parent_relative_path == parent
                && self.rewrite_result.structural_changes[i].removed_child_relative_paths.contains(
                child,
            )
    }

    /// A stale review of the parent speaks of the child as made anew.
    pub open spec fn regenerates_child(
        self,
        parent: Seq<char>,
        child: Seq<char>,
        from: int,
    ) -> bool {
        exists|i: int|
            from <= i < self.stale_result_handoff.len() && is_stale_review(
                #[trigger] self.stale_result_handoff[i],
                StaleGateTargetKind::Frontier,
            ) && parent_of_review(self.stale_result_handoff[i]) == parent
                && self.stale_result_handoff[i].regenerated_child_relative_path == Some(child)
    }
}

proof fn files_name_no_child(
    request: SelectRefineGateTargetsRequestModel,
    removed: Seq<Seq<char>>,
    i: int,
    state: SelectedTargets,
    parent: Seq<char>,
    child: Seq<char>,
)
    requires
        0 <= i <= request.rewrite_result.changed_files.len(),
        have_tracked_ids(state.frontier, request.runtime_snapshot),
    ensures
        ({
            let out = request.with_files_from(removed, i, state);
            &&& names_changed(out.frontier, parent, child) == names_changed(
                state.frontier,
                parent,
                child,
            )
            &&& names_removed(out.frontier, parent, child) == names_removed(
                state.frontier,
                parent,
                child,
            )
            &&& have_tracked_ids(out.frontier, request.runtime_snapshot)
            &&& out.stale_leaf == state.stale_leaf
            &&& out.stale_frontier == state.stale_frontier
        }),
    decreases request.rewrite_result.changed_files.len() - i,
{
    let files = request.rewrite_result.changed_files;
    if i < files.len() {
        let file = files[i];
        let none = Seq::<Seq<char>>::empty();
        assert(!none.contains(child));
        one_parent_more(
            state.frontier,
            request.runtime_snapshot,
            file.relative_path,
            none,
            none,
            RefineGateTargetReason::ParentContractChanged,
            parent,
            child,
        );
        one_parent_more(
            state.frontier,
            request.runtime_snapshot,
            file.relative_path,
            none,
            none,
            RefineGateTargetReason::NewParent,
            parent,
            child,
        );
        let next = request.with_file(removed, file, state);
        files_name_no_child(request, removed, i + 1, next, parent, child);
    }
}

proof fn contexts_name_no_parent(
    request: SelectRefineGateTargetsRequestModel,
    i: int,
    state: SelectedTargets,
)
    requires
        0 <= i <= request.rewrite_result.context_invalidations.len(),
    ensures
        request.with_contexts_from(i, state).frontier == state.frontier,
        request.with_contexts_from(i, state).stale_leaf == state.stale_leaf,
        request.with_contexts_from(i, state).stale_frontier == state.stale_frontier,
    decreases request.rewrite_result.context_invalidations.len() - i,
{
    let contexts = request.rewrite_result.context_invalidations;
    if i < contexts.len() {
        let context = contexts[i];
        let next = SelectedTargets {
            leaf: with_leaf(
                state.leaf,
                request.runtime_snapshot,
                context.relative_path,
                context.node_id,
                None,
                RefineGateTargetReason::ContextInvalidated,
            ),
            ..state
        };
        contexts_name_no_parent(request, i + 1, next);
    }
}

proof fn structure_names_children(
    request: SelectRefineGateTargetsRequestModel,
    i: int,
    state: SelectedTargets,
    parent: Seq<char>,
    child: Seq<char>,
)
    requires
        0 <= i <= request.rewrite_result.structural_changes.len(),
        have_tracked_ids(state.frontier, request.runtime_snapshot),
    ensures
        ({
            let out = request.with_structure_from(i, state);
            &&& names_changed(out.frontier, parent, child) <==> names_changed(
                state.frontier,
                parent,
                child,
            ) || request.changes_child(parent, child, i)
            &&& names_removed(out.frontier, parent, child) <==> names_removed(
                state.frontier,
                parent,
                child,
            ) || request.loses_child(parent, child, i)
            &&& have_tracked_ids(out.frontier, request.runtime_snapshot)
            &&& out.stale_leaf == state.stale_leaf
            &&& out.stale_frontier == state.stale_frontier
        }),
    decreases request.rewrite_result.structural_changes.len() - i,
{
    let changes = request.rewrite_result.structural_changes;
    if i < changes.len() {
        let change = changes[i];
        let adds = change.added_child_relative_paths;
        let removes = change.removed_child_relative_paths;
        let changed = adds + removes;
        let why = structural_reason(change.change_kind);
        one_parent_more(
            state.frontier,
            request.runtime_snapshot,
            change.parent_relative_path,
            changed,
            removes,
            why,
            parent,
            child,
        );
        assert(changed.contains(child) <==> adds.contains(child) || removes.contains(child)) by {
            if adds.contains(child) {
                let k = choose|k: int| 0 <= k < adds.len() && adds[k] == child;
                assert(changed[k] == child);
            }
            if removes.contains(child) {
                let k = choose|k: int| 0 <= k < removes.len() && removes[k] == child;
                assert(changed[adds.len() + k] == child);
            }
            if changed.contains(child) {
                let k = choose|k: int| 0 <= k < changed.len() && changed[k] == child;
                if k < adds.len() {
                    assert(adds[k] == child);
                } else {
                    assert(removes[k - adds.len()] == child);
                }
            }
        }
        let next = SelectedTargets {
            frontier: with_frontier(
                state.frontier,
                request.runtime_snapshot,
                change.parent_relative_path,
                changed,
                removes,
                why,
            ),
            leaf: request.with_added_children_from(change, 0, state.leaf),
            ..state
        };
        structure_names_children(request, i + 1, next, parent, child);
        if request.changes_child(parent, child, i) {
            let k = choose|k: int|
                i <= k < changes.len() && (#[trigger] changes[k]).parent_relative_path == parent && (
                changes[k].added_child_relative_paths.contains(child)
                    || changes[k].removed_child_relative_paths.contains(child));
            if k > i {
                assert(changes[k].parent_relative_path == parent);
                assert(request.changes_child(parent, child, i + 1));
            }
        }
        if request.changes_child(parent, child, i + 1) {
            assert(request.changes_child(parent, child, i));
        }
        if request.loses_child(parent, child, i) {
            let k = choose|k: int|
                i <= k < changes.len() && (#[trigger] changes[k]).parent_relative_path == parent
                    && changes[k].removed_child_relative_paths.contains(child);
            if k > i {
                assert(changes[k].parent_relative_path == parent);
                assert(request.loses_child(parent, child, i + 1));
            }
        }
    }
}

proof fn handoffs_name_children(
    request: SelectRefineGateTargetsRequestModel,
    i: int,
    state: SelectedTargets,
    parent: Seq<char>,
    child: Seq<char>,
)
    requires
        0 <= i <= request.stale_result_handoff.len(),
        have_tracked_ids(state.frontier, request.runtime_snapshot),
    ensures
        ({
            let out = request.with_handoffs_from(i, state);
            &&& names_changed(out.frontier, parent, child) <==> names_changed(
                state.frontier,
                parent,
                child,
            ) || request.regenerates_child(parent, child, i)
            &&& names_removed(out.frontier, parent, child) == names_removed(
                state.frontier,
                parent,
                child,
            )
            &&& have_tracked_ids(out.frontier, request.runtime_snapshot)
        }),
    decreases request.stale_result_handoff.len() - i,
{
    let handoffs = request.stale_result_handoff;
    if i < handoffs.len() {
        let handoff = handoffs[i];
        let next = request.with_handoff(handoff, state);
        let none = Seq::<Seq<char>>::empty();
        let changed = match handoff.regenerated_child_relative_path {
            Some(one) => seq![one],
            None => Seq::empty(),
        };
        reasons_hold_words(handoff.invalidation_reason);
        assert(!none.contains(child));
        assert(changed.contains(child) <==> handoff.regenerated_child_relative_path == Some(child))
            by {
            if let Some(one) = handoff.regenerated_child_relative_path {
                assert(changed[0] == one);
            }
        }
        one_parent_more(
            state.frontier,
            request.runtime_snapshot,
            parent_of_review(handoff),
            changed,
            none,
            RefineGateTargetReason::StaleDescendant,
            parent,
            child,
        );
        handoffs_name_children(request, i + 1, next, parent, child);
        if request.regenerates_child(parent, child, i) {
            let k = choose|k: int|
                i <= k < handoffs.len() && is_stale_review(
                    #[trigger] handoffs[k],
                    StaleGateTargetKind::Frontier,
                ) && parent_of_review(handoffs[k]) == parent
                    && handoffs[k].regenerated_child_relative_path == Some(child);
            if k > i {
                assert(is_stale_review(handoffs[k], StaleGateTargetKind::Frontier));
                assert(request.regenerates_child(parent, child, i + 1));
            }
        }
        if request.regenerates_child(parent, child, i + 1) {
            assert(request.regenerates_child(parent, child, i));
        }
    }
}

/// The target of a parent has the id that the snapshot knows, and names as
/// changed the children that the parent gained or lost or that a stale review of
/// it speaks of as made anew, and as removed those that it lost.
pub proof fn frontier_targets_name_their_children(
    request: SelectRefineGateTargetsRequestModel,
    parent: Seq<char>,
    child: Seq<char>,
)
    ensures
        have_tracked_ids(request.selection().frontier_targets, request.runtime_snapshot),
        names_changed(request.selection().frontier_targets, parent, child)
            <==> request.changes_child(parent, child, 0) || request.regenerates_child(
            parent,
            child,
            0,
        ),
        names_removed(request.selection().frontier_targets, parent, child)
            <==> request.loses_child(parent, child, 0),
{
    let removed = removed_paths_from(request.rewrite_result.changed_files, 0, Seq::empty());
    let start = SelectedTargets {
        leaf: Seq::empty(),
        frontier: Seq::empty(),
        stale_leaf: Seq::empty(),
        stale_frontier: Seq::empty(),
    };
    let files = request.with_files_from(removed, 0, start);
    let contexts = request.with_contexts_from(0, files);
    let structure = request.with_structure_from(0, contexts);
    files_name_no_child(request, removed, 0, start, parent, child);
    contexts_name_no_parent(request, 0, files);
    structure_names_children(request, 0, contexts, parent, child);
    handoffs_name_children(request, 0, structure, parent, child);
}

// ---------------------------------------------------------------------
// The leaves
// ---------------------------------------------------------------------
impl SelectRefineGateTargetsRequestModel {
    /// The id is one by which the node at the path is known: to the snapshot, to a
    /// changed file, to a context or to a stale review.
    pub open spec fn knows_id(self, path: Seq<char>, id: Seq<char>) -> bool {
        ||| self.runtime_snapshot.node_at(path) matches Some(node) && node.node_id == id
        ||| exists|i: int|
            0 <= i < self.rewrite_result.changed_files.len() && (
            #[trigger] self.rewrite_result.changed_files[i]).relative_path == path
                && self.rewrite_result.changed_files[i].node_id == Some(id)
        ||| exists|i: int|
            0 <= i < self.rewrite_result.context_invalidations.len() && (
            #[trigger] self.rewrite_result.context_invalidations[i]).relative_path == path
                && self.rewrite_result.context_invalidations[i].node_id == Some(id)
        ||| exists|i: int|
            0 <= i < self.stale_result_handoff.len() && (
            #[trigger] self.stale_result_handoff[i]).relative_path == path
                && self.stale_result_handoff[i].node_id == Some(id)
    }

    /// The parent gained the leaf that is tracked at the path.
    pub open spec fn is_new_home(self, path: Seq<char>, parent: Seq<char>) -> bool {
        &&& self.runtime_snapshot.node_at(path) matches Some(node) && node.node_kind
            == NodeKind::Leaf
        &&& exists|i: int|
            0 <= i < self.rewrite_result.structural_changes.len() && (
            #[trigger] self.rewrite_result.structural_changes[i]).parent_relative_path == parent
                && self.rewrite_result.structural_changes[i].added_child_relative_paths.contains(
                path,
            )
    }

    /// The parent is the one that the snapshot knows for the node at the path, or
    /// else the one that the path shows.
    pub open spec fn is_old_home(self, path: Seq<char>, parent: Option<Seq<char>>) -> bool {
        match self.runtime_snapshot.node_at(path) {
            Some(node) => if node.parent_relative_path is Some {
                parent == node.parent_relative_path
            } else {
                parent == parent_of(self.runtime_snapshot, path)
            },
            None => parent == parent_of(self.runtime_snapshot, path),
        }
    }

    /// The target of a leaf says what is known of its node.
    pub open spec fn is_well_told(self, target: RefineLeafGateTargetModel) -> bool {
        &&& match target.node_id {
            Some(id) => self.knows_id(target.relative_path, id),
            None => self.runtime_snapshot.node_at(target.relative_path) is None,
        }
        &&& self.is_old_home(target.relative_path, target.parent_relative_path) || (
        target.parent_relative_path matches Some(parent) && self.is_new_home(
            target.relative_path,
            parent,
        ))
    }

    /// The target of the leaf at the path names a parent that gained it.
    pub open spec fn is_moved(
        self,
        targets: Seq<RefineLeafGateTargetModel>,
        path: Seq<char>,
    ) -> bool {
        exists|k: int|
            0 <= k < targets.len() && (#[trigger] targets[k]).relative_path == path
                && targets[k].parent_relative_path is Some && self.is_new_home(
                path,
                targets[k].parent_relative_path->0,
            )
    }

    spec fn are_well_told(self, targets: Seq<RefineLeafGateTargetModel>) -> bool {
        forall|k: int| 0 <= k < targets.len() ==> self.is_well_told(#[trigger] targets[k])
    }

    spec fn stay_moved(
        self,
        before: Seq<RefineLeafGateTargetModel>,
        after: Seq<RefineLeafGateTargetModel>,
    ) -> bool {
        forall|path: Seq<char>| #[trigger]
            self.is_moved(before, path) ==> self.is_moved(after, path)
    }
}

proof fn one_leaf_told(
    request: SelectRefineGateTargetsRequestModel,
    targets: Seq<RefineLeafGateTargetModel>,
    path: Seq<char>,
    node_id: Option<Seq<char>>,
    parent: Option<Seq<char>>,
    reason: RefineGateTargetReason,
)
    requires
        request.are_well_told(targets),
        node_id matches Some(id) ==> request.knows_id(path, id),
        parent matches Some(home) ==> request.is_new_home(path, home),
    ensures
        ({
            let next = with_leaf(
                targets,
                request.runtime_snapshot,
                path,
                node_id,
                parent,
                reason,
            );
            &&& request.are_well_told(next)
            &&& request.stay_moved(targets, next)
            &&& parent is Some ==> request.is_moved(next, path)
        }),
{
    let next = with_leaf(targets, request.runtime_snapshot, path, node_id, parent, reason);
    leaf_index_is_found(targets, path, 0);
    let at = match leaf_index_from(targets, path, 0) {
        Some(k) => k,
        None => targets.len() as int,
    };
    assert(next[at].relative_path == path);
    assert(request.is_well_told(next[at])) by {
        if at < targets.len() {
            assert(request.is_well_told(targets[at]));
        }
    }
    assert forall|k: int| 0 <= k < next.len() implies request.is_well_told(#[trigger] next[k]) by {
        if k != at {
            assert(next[k] == targets[k]);
        }
    }
    assert forall|other: Seq<char>| #[trigger]
        request.is_moved(targets, other) implies request.is_moved(next, other) by {
        let k = choose|k: int|
            0 <= k < targets.len() && (#[trigger] targets[k]).relative_path == other
                && targets[k].parent_relative_path is Some && request.is_new_home(
                other,
                targets[k].parent_relative_path->0,
            );
        assert(next[k].relative_path == other);
    }
}

proof fn leaves_told_at(
    request: SelectRefineGateTargetsRequestModel,
    targets: Seq<RefineLeafGateTargetModel>,
    path: Seq<char>,
    removed: Seq<Seq<char>>,
    reason: RefineGateTargetReason,
    depth: nat,
)
    requires
        request.are_well_told(targets),
    ensures
        ({
            let next = with_leaves_at(
                targets,
                request.runtime_snapshot,
                path,
                removed,
                reason,
                depth,
            );
            request.are_well_told(next) && request.stay_moved(targets, next)
        }),
    decreases depth, 0nat,
{
    if !removed.contains(path) {
        tracked_nodes_are_found(request.runtime_snapshot, path);
        if let Some(node) = request.runtime_snapshot.node_at(path) {
            match node.node_kind {
                NodeKind::Leaf => {
                    one_leaf_told(request, targets, path, Some(node.node_id), None, reason);
                },
                NodeKind::Parent => {
                    if depth > 0 {
                        leaves_told_at_all(
                            request,
                            targets,
                            node.child_relative_paths,
                            0,
                            removed,
                            reason,
                            (depth - 1) as nat,
                        );
                    }
                },
            }
        }
    }
}

proof fn leaves_told_at_all(
    request: SelectRefineGateTargetsRequestModel,
    targets: Seq<RefineLeafGateTargetModel>,
    paths: Seq<Seq<char>>,
    i: nat,
    removed: Seq<Seq<char>>,
    reason: RefineGateTargetReason,
    depth: nat,
)
    requires
        request.are_well_told(targets),
    ensures
        ({
            let next = with_leaves_at_all(
                targets,
                request.runtime_snapshot,
                paths,
                i,
                removed,
                reason,
                depth,
            );
            request.are_well_told(next) && request.stay_moved(targets, next)
        }),
    decreases depth, paths.len() - i,
{
    if i < paths.len() {
        leaves_told_at(request, targets, paths[i as int], removed, reason, depth);
        let next = with_leaves_at(
            targets,
            request.runtime_snapshot,
            paths[i as int],
            removed,
            reason,
            depth,
        );
        leaves_told_at_all(request, next, paths, i + 1, removed, reason, depth);
    }
}

proof fn leaves_told_below(
    request: SelectRefineGateTargetsRequestModel,
    targets: Seq<RefineLeafGateTargetModel>,
    parent: Seq<char>,
    removed: Seq<Seq<char>>,
    reason: RefineGateTargetReason,
)
    requires
        request.are_well_told(targets),
    ensures
        ({
            let next = with_leaves_below(
                targets,
                request.runtime_snapshot,
                parent,
                removed,
                reason,
            );
            request.are_well_told(next) && request.stay_moved(targets, next)
        }),
{
    if let Some(node) = request.runtime_snapshot.node_at(parent) {
        leaves_told_at_all(
            request,
            targets,
            node.child_relative_paths,
            0,
            removed,
            reason,
            request.runtime_snapshot.nodes.len(),
        );
    }
}

proof fn leaves_told_for_files(
    request: SelectRefineGateTargetsRequestModel,
    removed: Seq<Seq<char>>,
    i: int,
    state: SelectedTargets,
)
    requires
        0 <= i <= request.rewrite_result.changed_files.len(),
        request.are_well_told(state.leaf),
    ensures
        request.are_well_told(request.with_files_from(removed, i, state).leaf),
    decreases request.rewrite_result.changed_files.len() - i,
{
    let files = request.rewrite_result.changed_files;
    if i < files.len() {
        let file = files[i];
        let at = file.relative_path;
        let next = request.with_file(removed, file, state);
        if let Some(id) = file.node_id {
            assert(files[i].relative_path == at && files[i].node_id == Some(id));
            assert(request.knows_id(at, id));
        }
        one_leaf_told(
            request,
            state.leaf,
            at,
            file.node_id,
            None,
            RefineGateTargetReason::TextChanged,
        );
        one_leaf_told(request, state.leaf, at, None, None, RefineGateTargetReason::NewLeaf);
        one_leaf_told(
            request,
            state.leaf,
            at,
            file.node_id,
            None,
            RefineGateTargetReason::RegeneratedLeaf,
        );
        leaves_told_below(
            request,
            state.leaf,
            at,
            removed,
            RefineGateTargetReason::ParentContractChanged,
        );
        leaves_told_for_files(request, removed, i + 1, next);
    }
}

proof fn leaves_told_for_contexts(
    request: SelectRefineGateTargetsRequestModel,
    i: int,
    state: SelectedTargets,
)
    requires
        0 <= i <= request.rewrite_result.context_invalidations.len(),
        request.are_well_told(state.leaf),
    ensures
        request.are_well_told(request.with_contexts_from(i, state).leaf),
    decreases request.rewrite_result.context_invalidations.len() - i,
{
    let contexts = request.rewrite_result.context_invalidations;
    if i < contexts.len() {
        let context = contexts[i];
        let why = RefineGateTargetReason::ContextInvalidated;
        if let Some(id) = context.node_id {
            assert(contexts[i].relative_path == context.relative_path && contexts[i].node_id
                == Some(id));
            assert(request.knows_id(context.relative_path, id));
        }
        one_leaf_told(request, state.leaf, context.relative_path, context.node_id, None, why);
        let next = SelectedTargets {
            leaf: with_leaf(
                state.leaf,
                request.runtime_snapshot,
                context.relative_path,
                context.node_id,
                None,
                why,
            ),
            ..state
        };
        leaves_told_for_contexts(request, i + 1, next);
    }
}

proof fn leaves_told_for_children(
    request: SelectRefineGateTargetsRequestModel,
    k: int,
    i: int,
    targets: Seq<RefineLeafGateTargetModel>,
)
    requires
        0 <= k < request.rewrite_result.structural_changes.len(),
        0 <= i <= request.rewrite_result.structural_changes[k].added_child_relative_paths.len(),
        request.are_well_told(targets),
    ensures
        ({
            let change = request.rewrite_result.structural_changes[k];
            let children = change.added_child_relative_paths;
            let next = request.with_added_children_from(change, i, targets);
            &&& request.are_well_told(next)
            &&& request.stay_moved(targets, next)
            &&& forall|c: int|
                i <= c < children.len() && is_tracked_leaf(
                    request.runtime_snapshot,
                    #[trigger] children[c],
                ) ==> request.is_moved(next, children[c])
        }),
    decreases request.rewrite_result.structural_changes[k].added_child_relative_paths.len() - i,
{
    let change = request.rewrite_result.structural_changes[k];
    let children = change.added_child_relative_paths;
    if i < children.len() {
        let child = children[i];
        let snapshot = request.runtime_snapshot;
        let why = structural_reason(change.change_kind);
        let home = Some(change.parent_relative_path);
        match snapshot.node_at(child) {
            Some(node) => match node.node_kind {
                NodeKind::Leaf => {
                    assert(request.rewrite_result.structural_changes[k].parent_relative_path
                        == change.parent_relative_path);
                    assert(children.contains(child));
                    assert(request.is_new_home(child, change.parent_relative_path));
                    one_leaf_told(request, targets, child, None, home, why);
                    let next = with_leaf(targets, snapshot, child, None, home, why);
                    leaves_told_for_children(request, k, i + 1, next);
                },
                NodeKind::Parent => {
                    leaves_told_below(request, targets, child, Seq::empty(), why);
                    let next = with_leaves_below(targets, snapshot, child, Seq::empty(), why);
                    leaves_told_for_children(request, k, i + 1, next);
                },
            },
            None => {
                leaves_told_for_children(request, k, i + 1, targets);
            },
        }
    }
}

/// The snapshot tracks a leaf at the path.
pub open spec fn is_tracked_leaf(
    snapshot: RefineRuntimeNodeSnapshotModel,
    path: Seq<char>,
) -> bool {
    snapshot.node_at(path) matches Some(node) && node.node_kind == NodeKind::Leaf
}

proof fn leaves_told_for_structure(
    request: SelectRefineGateTargetsRequestModel,
    i: int,
    state: SelectedTargets,
)
    requires
        0 <= i <= request.rewrite_result.structural_changes.len(),
        request.are_well_told(state.leaf),
    ensures
        ({
            let next = request.with_structure_from(i, state);
            &&& request.are_well_told(next.leaf)
            &&& request.stay_moved(state.leaf, next.leaf)
            &&& forall|k: int, c: int|
                #![trigger request.rewrite_result.structural_changes[k].added_child_relative_paths[c]]
                i <= k < request.rewrite_result.structural_changes.len() && 0 <= c
                    < request.rewrite_result.structural_changes[k].added_child_relative_paths.len()
                    && is_tracked_leaf(
                    request.runtime_snapshot,
                    request.rewrite_result.structural_changes[k].added_child_relative_paths[c],
                ) ==> request.is_moved(
                    next.leaf,
                    request.rewrite_result.structural_changes[k].added_child_relative_paths[c],
                )
        }),
    decreases request.rewrite_result.structural_changes.len() - i,
{
    let changes = request.rewrite_result.structural_changes;
    if i < changes.len() {
        let change = changes[i];
        let why = structural_reason(change.change_kind);
        let next = SelectedTargets {
            frontier: with_frontier(
                state.frontier,
                request.runtime_snapshot,
                change.parent_relative_path,
                change.added_child_relative_paths + change.removed_child_relative_paths,
                change.removed_child_relative_paths,
                why,
            ),
            leaf: request.with_added_children_from(change, 0, state.leaf),
            ..state
        };
        leaves_told_for_children(request, i, 0, state.leaf);
        leaves_told_for_structure(request, i + 1, next);
    }
}

proof fn leaves_told_for_handoffs(
    request: SelectRefineGateTargetsRequestModel,
    i: int,
    state: SelectedTargets,
)
    requires
        0 <= i <= request.stale_result_handoff.len(),
        request.are_well_told(state.leaf),
    ensures
        request.are_well_told(request.with_handoffs_from(i, state).leaf),
        request.stay_moved(state.leaf, request.with_handoffs_from(i, state).leaf),
    decreases request.stale_result_handoff.len() - i,
{
    let handoffs = request.stale_result_handoff;
    if i < handoffs.len() {
        let handoff = handoffs[i];
        if let Some(id) = handoff.node_id {
            assert(handoffs[i].relative_path == handoff.relative_path && handoffs[i].node_id
                == Some(id));
            assert(request.knows_id(handoff.relative_path, id));
        }
        one_leaf_told(
            request,
            state.leaf,
            handoff.relative_path,
            handoff.node_id,
            None,
            RefineGateTargetReason::StaleDescendant,
        );
        leaves_told_for_handoffs(request, i + 1, request.with_handoff(handoff, state));
    }
}

/// The target of a leaf has an id by which its node is known, and none only where
/// the snapshot tracks none; and its parent is the one that it had, unless another
/// one gained it: then it is one that did.
pub proof fn leaf_targets_know_their_nodes(request: SelectRefineGateTargetsRequestModel)
    ensures
        forall|k: int|
            0 <= k < request.selection().leaf_targets.len() ==> request.is_well_told(
                #[trigger] request.selection().leaf_targets[k],
            ),
        forall|k: int, c: int|
            #![trigger request.rewrite_result.structural_changes[k].added_child_relative_paths[c]]
            0 <= k < request.rewrite_result.structural_changes.len() && 0 <= c
                < request.rewrite_result.structural_changes[k].added_child_relative_paths.len()
                && is_tracked_leaf(
                request.runtime_snapshot,
                request.rewrite_result.structural_changes[k].added_child_relative_paths[c],
            ) ==> request.is_moved(
                request.selection().leaf_targets,
                request.rewrite_result.structural_changes[k].added_child_relative_paths[c],
            ),
        forall|k: int, m: int|
            0 <= k < m < request.selection().leaf_targets.len() ==> (
            #[trigger] request.selection().leaf_targets[k]).relative_path != (
            #[trigger] request.selection().leaf_targets[m]).relative_path,
        forall|k: int, m: int|
            0 <= k < m < request.selection().frontier_targets.len() ==> (
            #[trigger] request.selection().frontier_targets[k]).parent_relative_path != (
            #[trigger] request.selection().frontier_targets[m]).parent_relative_path,
{
    let removed = removed_paths_from(request.rewrite_result.changed_files, 0, Seq::empty());
    let start = SelectedTargets {
        leaf: Seq::empty(),
        frontier: Seq::empty(),
        stale_leaf: Seq::empty(),
        stale_frontier: Seq::empty(),
    };
    let files = request.with_files_from(removed, 0, start);
    let contexts = request.with_contexts_from(0, files);
    let structure = request.with_structure_from(0, contexts);
    leaves_told_for_files(request, removed, 0, start);
    leaves_told_for_contexts(request, 0, files);
    leaves_told_for_structure(request, 0, contexts);
    leaves_told_for_handoffs(request, 0, structure);
    selection_covers_every_change(request);
}

// ---------------------------------------------------------------------
// Approvals that do not hold any more
// ---------------------------------------------------------------------
/// The approval of a leaf is the one that a stale review is about.
pub open spec fn is_about_leaf(
    handoff: RefineStaleResultHandoffModel,
    prior: RefinePriorLeafGateSummaryModel,
) -> bool {
    &&& prior.relative_path == handoff.relative_path
    &&& handoff.node_id matches Some(id) ==> id == prior.node_id
}

/// The approval of a parent is the one that a stale review is about.
pub open spec fn is_about_frontier(
    handoff: RefineStaleResultHandoffModel,
    prior: RefinePriorFrontierGateSummaryModel,
) -> bool {
    &&& prior.parent_relative_path == parent_of_review(handoff)
    &&& match handoff.parent_node_id {
        Some(id) => id == prior.parent_node_id,
        None => handoff.node_id matches Some(id) ==> id == prior.parent_node_id,
    }
}

/// Approval `p` is the first that a stale review is about.
pub open spec fn is_first_leaf_approval(
    priors: Seq<RefinePriorLeafGateSummaryModel>,
    handoff: RefineStaleResultHandoffModel,
    p: int,
) -> bool {
    &&& 0 <= p < priors.len()
    &&& is_about_leaf(handoff, priors[p])
    &&& forall|q: int| 0 <= q < p ==> !is_about_leaf(handoff, #[trigger] priors[q])
}

/// Approval `p` is the first of a parent that a stale review is about.
pub open spec fn is_first_frontier_approval(
    priors: Seq<RefinePriorFrontierGateSummaryModel>,
    handoff: RefineStaleResultHandoffModel,
    p: int,
) -> bool {
    &&& 0 <= p < priors.len()
    &&& is_about_frontier(handoff, priors[p])
    &&& forall|q: int| 0 <= q < p ==> !is_about_frontier(handoff, #[trigger] priors[q])
}

proof fn leaf_approval_is_found(
    priors: Seq<RefinePriorLeafGateSummaryModel>,
    handoff: RefineStaleResultHandoffModel,
    i: int,
)
    requires
        0 <= i <= priors.len(),
        forall|q: int| 0 <= q < i ==> !is_about_leaf(handoff, #[trigger] priors[q]),
    ensures
        match prior_leaf_from(priors, handoff, i) {
            Some(prior) => exists|p: int| #[trigger]
                is_first_leaf_approval(priors, handoff, p) && priors[p] == prior,
            None => forall|p: int| !#[trigger] is_first_leaf_approval(priors, handoff, p),
        },
    decreases priors.len() - i,
{
    if i < priors.len() {
        if is_about_leaf(handoff, priors[i]) {
            assert(is_first_leaf_approval(priors, handoff, i));
        } else {
            leaf_approval_is_found(priors, handoff, i + 1);
        }
    } else {
        assert forall|p: int| !#[trigger] is_first_leaf_approval(priors, handoff, p) by {
            if 0 <= p < priors.len() {
                assert(!is_about_leaf(handoff, priors[p]));
            }
        }
    }
}

proof fn frontier_approval_is_found(
    priors: Seq<RefinePriorFrontierGateSummaryModel>,
    handoff: RefineStaleResultHandoffModel,
    i: int,
)
    requires
        0 <= i <= priors.len(),
        forall|q: int| 0 <= q < i ==> !is_about_frontier(handoff, #[trigger] priors[q]),
    ensures
        match prior_frontier_from(priors, handoff, i) {
            Some(prior) => exists|p: int| #[trigger]
                is_first_frontier_approval(priors, handoff, p) && priors[p] == prior,
            None => forall|p: int| !#[trigger] is_first_frontier_approval(priors, handoff, p),
        },
    decreases priors.len() - i,
{
    if i < priors.len() {
        if is_about_frontier(handoff, priors[i]) {
            assert(is_first_frontier_approval(priors, handoff, i));
        } else {
            frontier_approval_is_found(priors, handoff, i + 1);
        }
    } else {
        assert forall|p: int| !#[trigger] is_first_frontier_approval(priors, handoff, p) by {
            if 0 <= p < priors.len() {
                assert(!is_about_frontier(handoff, priors[p]));
            }
        }
    }
}

impl SelectRefineGateTargetsRequestModel {
    /// A stale review of a leaf is about approval `p`.
    pub open spec fn withdraws_leaf(self, handoff: RefineStaleResultHandoffModel, p: int) -> bool {
        &&& is_stale_review(handoff, StaleGateTargetKind::Leaf)
        &&& is_first_leaf_approval(self.prior_gate_summaries.leaf, handoff, p)
    }

    /// A stale review of a parent is about approval `p`.
    pub open spec fn withdraws_frontier(
        self,
        handoff: RefineStaleResultHandoffModel,
        p: int,
    ) -> bool {
        &&& is_stale_review(handoff, StaleGateTargetKind::Frontier)
        &&& is_first_frontier_approval(self.prior_gate_summaries.frontier, handoff, p)
    }

    /// The approval of a leaf that is withdrawn is told so.
    pub open spec fn is_withdrawn_leaf(self, told: StaleGateApprovalModel, p: int) -> bool {
        let prior = self.prior_gate_summaries.leaf[p];
        &&& told.target_kind == StaleGateTargetKind::Leaf
        &&& told.node_id == prior.node_id
        &&& told.relative_path == prior.relative_path
        &&& told.gate_run_id == prior.summary.gate_run_id
        &&& told.stale_reasons.contains(RefineGateTargetReason::StaleDescendant)
    }

    /// The approval of a parent that is withdrawn is told so.
    pub open spec fn is_withdrawn_frontier(self, told: StaleGateApprovalModel, p: int) -> bool {
        let prior = self.prior_gate_summaries.frontier[p];
        &&& told.target_kind == StaleGateTargetKind::Frontier
        &&& told.node_id == prior.parent_node_id
        &&& told.relative_path == prior.parent_relative_path
        &&& told.gate_run_id == prior.summary.gate_run_id
        &&& told.stale_reasons.contains(RefineGateTargetReason::StaleDescendant)
    }

    /// The stale reviews of leaves that are about an approval.
    pub open spec fn withdrawing_leaf(
        self,
        handoffs: Seq<RefineStaleResultHandoffModel>,
    ) -> Seq<RefineStaleResultHandoffModel> {
        handoffs.filter(
            |handoff: RefineStaleResultHandoffModel|
                exists|p: int| #[trigger] self.withdraws_leaf(handoff, p),
        )
    }

    /// The stale reviews of parents that are about an approval.
    pub open spec fn withdrawing_frontier(
        self,
        handoffs: Seq<RefineStaleResultHandoffModel>,
    ) -> Seq<RefineStaleResultHandoffModel> {
        handoffs.filter(
            |handoff: RefineStaleResultHandoffModel|
                exists|p: int| #[trigger] self.withdraws_frontier(handoff, p),
        )
    }

    /// The approval of a leaf is the one that a stale review is about.
    pub open spec fn tells_withdrawn_leaf(
        self,
        told: StaleGateApprovalModel,
        handoff: RefineStaleResultHandoffModel,
    ) -> bool {
        exists|p: int| #[trigger]
            self.withdraws_leaf(handoff, p) && self.is_withdrawn_leaf(told, p)
    }

    /// One approval of a leaf is told for each of the stale reviews, in their
    /// order.
    pub open spec fn tells_withdrawn_leaves(
        self,
        told: Seq<StaleGateApprovalModel>,
        handoffs: Seq<RefineStaleResultHandoffModel>,
    ) -> bool {
        &&& told.len() == handoffs.len()
        &&& forall|k: int|
            0 <= k < told.len() ==> self.tells_withdrawn_leaf(#[trigger] told[k], handoffs[k])
    }

    /// The approval of a parent is the one that a stale review is about.
    pub open spec fn tells_withdrawn_frontier(
        self,
        told: StaleGateApprovalModel,
        handoff: RefineStaleResultHandoffModel,
    ) -> bool {
        exists|p: int| #[trigger]
            self.withdraws_frontier(handoff, p) && self.is_withdrawn_frontier(told, p)
    }

    /// One approval of a parent is told for each of the stale reviews, in their
    /// order.
    pub open spec fn tells_withdrawn_frontiers(
        self,
        told: Seq<StaleGateApprovalModel>,
        handoffs: Seq<RefineStaleResultHandoffModel>,
    ) -> bool {
        &&& told.len() == handoffs.len()
        &&& forall|k: int|
            0 <= k < told.len() ==> self.tells_withdrawn_frontier(#[trigger] told[k], handoffs[k])
    }
}

proof fn one_withdrawal_more(
    request: SelectRefineGateTargetsRequestModel,
    i: int,
    state: SelectedTargets,
)
    requires
        0 <= i < request.stale_result_handoff.len(),
        request.tells_withdrawn_leaves(
            state.stale_leaf,
            request.withdrawing_leaf(request.stale_result_handoff.take(i)),
        ),
        request.tells_withdrawn_frontiers(
            state.stale_frontier,
            request.withdrawing_frontier(request.stale_result_handoff.take(i)),
        ),
    ensures
        ({
            let next = request.with_handoff(request.stale_result_handoff[i], state);
            let handoffs = request.stale_result_handoff.take(i + 1);
            &&& request.tells_withdrawn_leaves(next.stale_leaf, request.withdrawing_leaf(handoffs))
            &&& request.tells_withdrawn_frontiers(
                next.stale_frontier,
                request.withdrawing_frontier(handoffs),
            )
        }),
{
    reveal(Seq::filter);
    let handoff = request.stale_result_handoff[i];
    let before = request.stale_result_handoff.take(i);
    let after = request.stale_result_handoff.take(i + 1);
    let next = request.with_handoff(handoff, state);
    let leaf_before = request.withdrawing_leaf(before);
    let leaf_after = request.withdrawing_leaf(after);
    let frontier_before = request.withdrawing_frontier(before);
    let frontier_after = request.withdrawing_frontier(after);
    assert(after.drop_last() =~= before);
    assert(after.last() == handoff);
    reasons_hold_words(handoff.invalidation_reason);
    leaf_approval_is_found(request.prior_gate_summaries.leaf, handoff, 0);
    frontier_approval_is_found(request.prior_gate_summaries.frontier, handoff, 0);
    let leaf_prior = prior_leaf_from(request.prior_gate_summaries.leaf, handoff, 0);
    let frontier_prior = prior_frontier_from(request.prior_gate_summaries.frontier, handoff, 0);
    if is_stale_review(handoff, StaleGateTargetKind::Leaf) && leaf_prior is Some {
        let p = choose|p: int| #[trigger]
            is_first_leaf_approval(request.prior_gate_summaries.leaf, handoff, p)
                && request.prior_gate_summaries.leaf[p] == leaf_prior->0;
        assert(request.withdraws_leaf(handoff, p));
        assert(leaf_after == leaf_before.push(handoff));
        let told = next.stale_leaf.last();
        assert(next.stale_leaf == state.stale_leaf.push(told));
        stale_leaves_have_the_reason(request, handoff, state);
        assert(request.is_withdrawn_leaf(told, p));
        assert(request.tells_withdrawn_leaf(told, handoff));
        assert forall|k: int| 0 <= k < next.stale_leaf.len() implies request.tells_withdrawn_leaf(
            #[trigger] next.stale_leaf[k],
            leaf_after[k],
        ) by {
            if k < state.stale_leaf.len() {
                assert(next.stale_leaf[k] == state.stale_leaf[k]);
                assert(leaf_after[k] == leaf_before[k]);
            }
        }
        assert(request.tells_withdrawn_leaves(next.stale_leaf, leaf_after));
    } else {
        assert forall|p: int| !#[trigger] request.withdraws_leaf(handoff, p) by {
            if request.withdraws_leaf(handoff, p) {
                assert(is_first_leaf_approval(request.prior_gate_summaries.leaf, handoff, p));
            }
        }
        assert(leaf_after == leaf_before);
        assert(next.stale_leaf == state.stale_leaf);
    }
    if is_stale_review(handoff, StaleGateTargetKind::Frontier) && frontier_prior is Some {
        let p = choose|p: int| #[trigger]
            is_first_frontier_approval(request.prior_gate_summaries.frontier, handoff, p)
                && request.prior_gate_summaries.frontier[p] == frontier_prior->0;
        assert(request.withdraws_frontier(handoff, p));
        assert(frontier_after == frontier_before.push(handoff));
        let told = next.stale_frontier.last();
        assert(next.stale_frontier == state.stale_frontier.push(told));
        stale_frontiers_have_the_reason(request, handoff, state);
        assert(request.is_withdrawn_frontier(told, p));
        assert(request.tells_withdrawn_frontier(told, handoff));
        assert forall|k: int| 0 <= k < next.stale_frontier.len() implies request.tells_withdrawn_frontier(
            #[trigger] next.stale_frontier[k],
            frontier_after[k],
        ) by {
            if k < state.stale_frontier.len() {
                assert(next.stale_frontier[k] == state.stale_frontier[k]);
                assert(frontier_after[k] == frontier_before[k]);
            }
        }
        assert(request.tells_withdrawn_frontiers(next.stale_frontier, frontier_after));
    } else {
        assert forall|p: int| !#[trigger] request.withdraws_frontier(handoff, p) by {
            if request.withdraws_frontier(handoff, p) {
                assert(is_first_frontier_approval(
                    request.prior_gate_summaries.frontier,
                    handoff,
                    p,
                ));
            }
        }
        assert(frontier_after == frontier_before);
        assert(next.stale_frontier == state.stale_frontier);
    }
}

proof fn stale_leaves_have_the_reason(
    request: SelectRefineGateTargetsRequestModel,
    handoff: RefineStaleResultHandoffModel,
    state: SelectedTargets,
)
    ensures
        ({
            let stale = RefineGateTargetReason::StaleDescendant;
            let leaf = with_leaf(
                state.leaf,
                request.runtime_snapshot,
                handoff.relative_path,
                handoff.node_id,
                None,
                stale,
            );
            super::gate_targets::leaf_reasons(leaf, handoff.relative_path).contains(stale)
        }),
{
    let stale = RefineGateTargetReason::StaleDescendant;
    let path = handoff.relative_path;
    let leaf = with_leaf(
        state.leaf,
        request.runtime_snapshot,
        path,
        handoff.node_id,
        None,
        stale,
    );
    leaf_index_is_found(state.leaf, path, 0);
    assert(seq![stale][0] == stale);
    match leaf_index_from(state.leaf, path, 0) {
        Some(k) => {
            let reasons = state.leaf[k].reasons;
            assert(reasons.push(stale)[reasons.len() as int] == stale);
            first_leaf_stays_first(state.leaf, leaf, path, 0, k);
        },
        None => {
            leaf_index_is_found(leaf, path, 0);
        },
    }
}

proof fn first_leaf_stays_first(
    a: Seq<RefineLeafGateTargetModel>,
    b: Seq<RefineLeafGateTargetModel>,
    path: Seq<char>,
    i: int,
    k: int,
)
    requires
        0 <= i <= k < a.len(),
        a.len() == b.len(),
        leaf_index_from(a, path, i) == Some(k),
        forall|m: int| 0 <= m < a.len() ==> (#[trigger] b[m]).relative_path == a[m].relative_path,
    ensures
        leaf_index_from(b, path, i) == Some(k),
    decreases k - i,
{
    assert(b[i].relative_path == a[i].relative_path);
    if a[i].relative_path != path {
        leaf_index_is_found(a, path, i + 1);
        first_leaf_stays_first(a, b, path, i + 1, k);
    }
}

proof fn stale_frontiers_have_the_reason(
    request: SelectRefineGateTargetsRequestModel,
    handoff: RefineStaleResultHandoffModel,
    state: SelectedTargets,
)
    ensures
        ({
            let stale = RefineGateTargetReason::StaleDescendant;
            let parent = parent_of_review(handoff);
            let frontier = with_frontier(
                state.frontier,
                request.runtime_snapshot,
                parent,
                match handoff.regenerated_child_relative_path {
                    Some(child) => seq![child],
                    None => Seq::empty(),
                },
                Seq::empty(),
                stale,
            );
            super::gate_targets::frontier_reasons(frontier, parent).contains(stale)
        }),
{
    let stale = RefineGateTargetReason::StaleDescendant;
    let parent = parent_of_review(handoff);
    let frontier = with_frontier(
        state.frontier,
        request.runtime_snapshot,
        parent,
        match handoff.regenerated_child_relative_path {
            Some(child) => seq![child],
            None => Seq::empty(),
        },
        Seq::empty(),
        stale,
    );
    frontier_index_is_found(state.frontier, parent, 0);
    assert(seq![stale][0] == stale);
    match frontier_index_from(state.frontier, parent, 0) {
        Some(k) => {
            let reasons = state.frontier[k].reasons;
            assert(reasons.push(stale)[reasons.len() as int] == stale);
            first_frontier_stays_first(state.frontier, frontier, parent, 0, k);
        },
        None => {
            frontier_index_is_found(frontier, parent, 0);
        },
    }
}

proof fn first_frontier_stays_first(
    a: Seq<RefineFrontierGateTargetModel>,
    b: Seq<RefineFrontierGateTargetModel>,
    path: Seq<char>,
    i: int,
    k: int,
)
    requires
        0 <= i <= k < a.len(),
        a.len() == b.len(),
        frontier_index_from(a, path, i) == Some(k),
        forall|m: int|
            0 <= m < a.len() ==> (#[trigger] b[m]).parent_relative_path
                == a[m].parent_relative_path,
    ensures
        frontier_index_from(b, path, i) == Some(k),
    decreases k - i,
{
    assert(b[i].parent_relative_path == a[i].parent_relative_path);
    if a[i].parent_relative_path != path {
        frontier_index_is_found(a, path, i + 1);
        first_frontier_stays_first(a, b, path, i + 1, k);
    }
}

proof fn withdrawals_are_told_from(
    request: SelectRefineGateTargetsRequestModel,
    i: int,
    state: SelectedTargets,
)
    requires
        0 <= i <= request.stale_result_handoff.len(),
        request.tells_withdrawn_leaves(
            state.stale_leaf,
            request.withdrawing_leaf(request.stale_result_handoff.take(i)),
        ),
        request.tells_withdrawn_frontiers(
            state.stale_frontier,
            request.withdrawing_frontier(request.stale_result_handoff.take(i)),
        ),
    ensures
        ({
            let out = request.with_handoffs_from(i, state);
            let handoffs = request.stale_result_handoff;
            &&& request.tells_withdrawn_leaves(out.stale_leaf, request.withdrawing_leaf(handoffs))
            &&& request.tells_withdrawn_frontiers(
                out.stale_frontier,
                request.withdrawing_frontier(handoffs),
            )
        }),
    decreases request.stale_result_handoff.len() - i,
{
    let handoffs = request.stale_result_handoff;
    if i < handoffs.len() {
        one_withdrawal_more(request, i, state);
        withdrawals_are_told_from(request, i + 1, request.with_handoff(handoffs[i], state));
    } else {
        assert(handoffs.take(i) =~= handoffs);
    }
}

/// The approvals that do not hold any more are those that the stale reviews are
/// about: one for each such review, in their order, with the run that gave it.
pub proof fn withdrawn_approvals_are_told(request: SelectRefineGateTargetsRequestModel)
    ensures
        request.tells_withdrawn_leaves(
            request.selection().stale_leaf_approvals,
            request.withdrawing_leaf(request.stale_result_handoff),
        ),
        request.tells_withdrawn_frontiers(
            request.selection().stale_frontier_approvals,
            request.withdrawing_frontier(request.stale_result_handoff),
        ),
{
    let removed = removed_paths_from(request.rewrite_result.changed_files, 0, Seq::empty());
    let start = SelectedTargets {
        leaf: Seq::empty(),
        frontier: Seq::empty(),
        stale_leaf: Seq::empty(),
        stale_frontier: Seq::empty(),
    };
    let none = Seq::<char>::empty();
    let files = request.with_files_from(removed, 0, start);
    let contexts = request.with_contexts_from(0, files);
    let structure = request.with_structure_from(0, contexts);
    files_name_no_child(request, removed, 0, start, none, none);
    contexts_name_no_parent(request, 0, files);
    structure_names_children(request, 0, contexts, none, none);
    let first = request.stale_result_handoff.take(0);
    assert(first =~= Seq::empty());
    assert(request.withdrawing_leaf(first).len() == 0 && request.withdrawing_frontier(first).len()
        == 0) by {
        reveal(Seq::filter);
    }
    withdrawals_are_told_from(request, 0, structure);
}

// ---------------------------------------------------------------------
// What is expected, and what is to be tracked
// ---------------------------------------------------------------------
/// What is expected of a selection is its targets, one by one.
pub proof fn expected_targets_are_the_targets(request: SelectRefineGateTargetsRequestModel)
    ensures
        ({
            let selection = request.selection();
            let leaves = selection.expected_target_summary.leaf_targets;
            let frontiers = selection.expected_target_summary.frontier_targets;
            &&& leaves.len() == selection.leaf_targets.len()
            &&& frontiers.len() == selection.frontier_targets.len()
            &&& forall|k: int|
                0 <= k < leaves.len() ==> {
                    let target = selection.leaf_targets[k];
                    &&& (#[trigger] leaves[k]).node_id == target.node_id
                    &&& leaves[k].relative_path == target.relative_path
                    &&& leaves[k].parent_relative_path == target.parent_relative_path
                    &&& leaves[k].reasons == target.reasons
                }
            &&& forall|k: int|
                0 <= k < frontiers.len() ==> {
                    let target = selection.frontier_targets[k];
                    &&& (#[trigger] frontiers[k]).parent_node_id == target.parent_node_id
                    &&& frontiers[k].parent_relative_path == target.parent_relative_path
                    &&& frontiers[k].changed_child_relative_paths
                        == target.changed_child_relative_paths
                    &&& frontiers[k].removed_child_relative_paths
                        == target.removed_child_relative_paths
                    &&& frontiers[k].reasons == target.reasons
                }
        }),
{
}

/// The parents that are to be tracked: those without an id and those that are
/// new.
pub open spec fn parents_to_track(targets: Seq<RefineFrontierGateTargetModel>) -> Seq<
    RefineFrontierGateTargetModel,
> {
    targets.filter(
        |target: RefineFrontierGateTargetModel|
            target.parent_node_id is None || target.reasons.contains(
                RefineGateTargetReason::NewParent,
            ),
    )
}

spec fn are_candidates_of(
    candidates: Seq<RefineParentRegistrationCandidateModel>,
    targets: Seq<RefineFrontierGateTargetModel>,
) -> bool {
    &&& candidates.len() == targets.len()
    &&& forall|k: int|
        0 <= k < candidates.len() ==> (#[trigger] candidates[k]).relative_path
            == targets[k].parent_relative_path && candidates[k].reasons == targets[k].reasons
}

proof fn candidates_from(
    selection: RefineGateTargetSelectionModel,
    i: int,
    acc: Seq<RefineParentRegistrationCandidateModel>,
)
    requires
        0 <= i <= selection.frontier_targets.len(),
        are_candidates_of(acc, parents_to_track(selection.frontier_targets.take(i))),
    ensures
        are_candidates_of(
            selection.parent_candidates_from(i, acc),
            parents_to_track(selection.frontier_targets),
        ),
    decreases selection.frontier_targets.len() - i,
{
    let targets = selection.frontier_targets;
    if i < targets.len() {
        reveal(Seq::filter);
        let before = targets.take(i);
        let after = targets.take(i + 1);
        assert(after.drop_last() =~= before);
        assert(after.last() == targets[i]);
        let target = targets[i];
        if target.parent_node_id is None || target.reasons.contains(
            RefineGateTargetReason::NewParent,
        ) {
            assert(parents_to_track(after) == parents_to_track(before).push(target));
            let more = acc.push(
                RefineParentRegistrationCandidateModel {
                    relative_path: target.parent_relative_path,
                    parent_relative_path: selection.ancestor_of(target.parent_relative_path),
                    reasons: target.reasons,
                },
            );
            candidates_from(selection, i + 1, more);
        } else {
            assert(parents_to_track(after) == parents_to_track(before));
            candidates_from(selection, i + 1, acc);
        }
    } else {
        assert(targets.take(i) =~= targets);
    }
}

/// The request that a selection be tracked holds each of its targets with its
/// reasons, and first the parents that have no id or are new.
pub proof fn selections_are_tracked_whole(
    selection: RefineGateTargetSelectionModel,
    plan_id: Seq<char>,
)
    ensures
        ({
            let request = selection.registration_request(plan_id);
            let parents = parents_to_track(selection.frontier_targets);
            &&& request.plan_id == plan_id
            &&& request.parent_candidates.len() == parents.len()
            &&& forall|k: int|
                0 <= k < parents.len() ==> (
                #[trigger] request.parent_candidates[k]).relative_path
                    == parents[k].parent_relative_path && request.parent_candidates[k].reasons
                    == parents[k].reasons
            &&& request.leaf_candidates.len() == selection.leaf_targets.len()
            &&& forall|k: int|
                0 <= k < selection.leaf_targets.len() ==> {
                    let target = selection.leaf_targets[k];
                    let candidate = #[trigger] request.leaf_candidates[k];
                    &&& candidate.relative_path == target.relative_path
                    &&& candidate.parent_relative_path == target.parent_relative_path
                    &&& candidate.reasons == target.reasons
                }
            &&& request.frontier_candidates.len() == selection.frontier_targets.len()
            &&& forall|k: int|
                0 <= k < selection.frontier_targets.len() ==> {
                    let target = selection.frontier_targets[k];
                    let candidate = #[trigger] request.frontier_candidates[k];
                    &&& candidate.parent_relative_path == target.parent_relative_path
                    &&& candidate.changed_child_relative_paths
                        == target.changed_child_relative_paths
                    &&& candidate.removed_child_relative_paths
                        == target.removed_child_relative_paths
                    &&& candidate.reasons == target.reasons
                }
        }),
{
    let targets = selection.frontier_targets;
    assert(targets.take(0) =~= Seq::empty());
    assert(parents_to_track(targets.take(0)).len() == 0) by {
        reveal(Seq::filter);
    }
    candidates_from(selection, 0, Seq::empty());
}

} // verus!
