//! What a selection of gates starts from: what is remembered of every node that
//! the rewrite speaks of, and of no other.
use super::changes::{RefineChangedFileKind, RefineStructuralChangeModel};
use super::rewrite_types::RefineRewriteResultModel;
use super::runtime_state::{
    context_targets_from, created_paths_from, file_targets_from, handoff_mismatch, handoff_targets,
    handoffs_mismatch_from, handoffs_targets_from, load_targets, put_target, rewrite_targets_of,
    stale_targets_from, state_paths_problem_from, structure_targets_from, unchanged_targets_from,
    BuildRefineGateSelectionInputsRequestModel, LoadTargetModel, LoadedState,
    RefinePriorFrontierGateSummaryModel, RefinePriorLeafGateSummaryModel,
    RefineRuntimeNodeSummaryModel, RefineStaleGateClassification, RefineStaleResultHandoffModel,
    StaleGateTargetKind,
};
use crate::api::{
    GateSummaryModel, InspectNodeRequestModel, InspectNodeResponseModel, ListChildrenRequestModel,
    NodeKind,
};
use crate::paths::is_plan_markdown;
use crate::runtime::inspection_laws::{
    inspections_show_what_is_remembered, is_latest_frontier_review, is_latest_leaf_review,
    is_of_kind, is_shown, is_summary_of, listings_show_all_children, shows_child,
};
use crate::runtime::store::RuntimeModel;
use vstd::prelude::*;

verus! {

// ---------------------------------------------------------------------
// Which nodes are looked up
// ---------------------------------------------------------------------
/// The rewrite made the file at the path.
pub open spec fn is_made(result: RefineRewriteResultModel, path: Seq<char>) -> bool {
    exists|i: int|
        0 <= i < result.changed_files.len() && (#[trigger] result.changed_files[i]).relative_path
            == path && result.changed_files[i].change_kind == RefineChangedFileKind::Created
}

impl BuildRefineGateSelectionInputsRequestModel {
    /// A changed file that was not just made is at the path, under this id.
    pub open spec fn file_looks_up(self, i: int, path: Seq<char>, id: Option<Seq<char>>) -> bool {
        let files = self.rewrite_result.changed_files;
        &&& 0 <= i < files.len()
        &&& files[i].relative_path == path
        &&& files[i].node_id == id
        &&& files[i].change_kind != RefineChangedFileKind::Created
    }

    /// A changed parent is at the path, under this id: one that was just made
    /// only where it has an id.
    pub open spec fn change_looks_up(self, i: int, path: Seq<char>, id: Option<Seq<char>>) -> bool {
        let changes = self.rewrite_result.structural_changes;
        &&& 0 <= i < changes.len()
        &&& changes[i].parent_relative_path == path
        &&& changes[i].parent_node_id == id
        &&& id is Some || !is_made(self.rewrite_result, path)
    }

    /// A stale node is at the path, under this id.
    pub open spec fn stale_looks_up(self, i: int, path: Seq<char>, id: Option<Seq<char>>) -> bool {
        let nodes = self.rewrite_result.stale_nodes;
        0 <= i < nodes.len() && nodes[i].relative_path == path && nodes[i].node_id == id
    }

    /// A node with a changed context is at the path, under this id.
    pub open spec fn context_looks_up(
        self,
        i: int,
        path: Seq<char>,
        id: Option<Seq<char>>,
    ) -> bool {
        let contexts = self.rewrite_result.context_invalidations;
        0 <= i < contexts.len() && contexts[i].relative_path == path && contexts[i].node_id == id
    }

    /// An unchanged node is at the path, under this id.
    pub open spec fn unchanged_looks_up(
        self,
        i: int,
        path: Seq<char>,
        id: Option<Seq<char>>,
    ) -> bool {
        let nodes = self.rewrite_result.unchanged_nodes;
        0 <= i < nodes.len() && nodes[i].relative_path == path && nodes[i].node_id == id
    }

    /// The node of a handoff, or its parent, is at the path, under this id, and
    /// was not just made.
    pub open spec fn handoff_looks_up(
        self,
        i: int,
        path: Seq<char>,
        id: Option<Seq<char>>,
    ) -> bool {
        let handoffs = self.stale_result_handoff;
        &&& 0 <= i < handoffs.len()
        &&& !is_made(self.rewrite_result, path)
        &&& (handoffs[i].relative_path == path && handoffs[i].node_id == id) || (
        handoffs[i].parent_relative_path == Some(path) && handoffs[i].parent_node_id == id)
    }

    /// The node at the path is to be looked up under this id.
    pub open spec fn looks_up(self, path: Seq<char>, id: Option<Seq<char>>) -> bool {
        exists|i: int|
            #![trigger self.file_looks_up(i, path, id)]
            #![trigger self.change_looks_up(i, path, id)]
            #![trigger self.stale_looks_up(i, path, id)]
            #![trigger self.context_looks_up(i, path, id)]
            #![trigger self.unchanged_looks_up(i, path, id)]
            #![trigger self.handoff_looks_up(i, path, id)]
            {
                ||| self.file_looks_up(i, path, id)
                ||| self.change_looks_up(i, path, id)
                ||| self.stale_looks_up(i, path, id)
                ||| self.context_looks_up(i, path, id)
                ||| self.unchanged_looks_up(i, path, id)
                ||| self.handoff_looks_up(i, path, id)
            }
    }

    /// Every path that is spoken of is that of a markdown file of the plan.
    pub open spec fn has_plan_paths(self) -> bool {
        let result = self.rewrite_result;
        &&& forall|k: int|
            0 <= k < result.changed_files.len() ==> is_plan_markdown(
                (#[trigger] result.changed_files[k]).relative_path,
            )
        &&& forall|k: int|
            0 <= k < result.structural_changes.len() ==> has_plan_ends(
                #[trigger] result.structural_changes[k],
            )
        &&& forall|k: int|
            0 <= k < result.stale_nodes.len() ==> is_plan_markdown(
                (#[trigger] result.stale_nodes[k]).relative_path,
            )
        &&& forall|k: int|
            0 <= k < result.context_invalidations.len() ==> is_plan_markdown(
                (#[trigger] result.context_invalidations[k]).relative_path,
            )
        &&& forall|k: int|
            0 <= k < result.unchanged_nodes.len() ==> is_plan_markdown(
                (#[trigger] result.unchanged_nodes[k]).relative_path,
            )
        &&& forall|k: int|
            0 <= k < self.stale_result_handoff.len() ==> has_plan_places(
                #[trigger] self.stale_result_handoff[k],
            )
    }

    spec fn are_looked_up(self, targets: Seq<LoadTargetModel>) -> bool {
        forall|k: int|
            0 <= k < targets.len() ==> self.looks_up(
                (#[trigger] targets[k]).path,
                targets[k].node_id,
            )
    }
}

/// The parent of a change and the children that it gains and loses are at paths
/// of the plan.
pub open spec fn has_plan_ends(change: RefineStructuralChangeModel) -> bool {
    &&& is_plan_markdown(change.parent_relative_path)
    &&& forall|c: int|
        0 <= c < change.added_child_relative_paths.len() ==> is_plan_markdown(
            #[trigger] change.added_child_relative_paths[c],
        )
    &&& forall|c: int|
        0 <= c < change.removed_child_relative_paths.len() ==> is_plan_markdown(
            #[trigger] change.removed_child_relative_paths[c],
        )
}

/// The paths of a handoff are paths of the plan.
pub open spec fn has_plan_places(handoff: RefineStaleResultHandoffModel) -> bool {
    &&& is_plan_markdown(handoff.relative_path)
    &&& handoff.parent_relative_path matches Some(path) ==> is_plan_markdown(path)
    &&& handoff.regenerated_child_relative_path matches Some(path) ==> is_plan_markdown(path)
}

/// The path is among those that are looked up.
spec fn has_path(targets: Seq<LoadTargetModel>, path: Seq<char>) -> bool {
    exists|k: int| 0 <= k < targets.len() && (#[trigger] targets[k]).path == path
}

spec fn paths_stay(a: Seq<LoadTargetModel>, b: Seq<LoadTargetModel>) -> bool {
    forall|path: Seq<char>| #[trigger] has_path(a, path) ==> has_path(b, path)
}

proof fn one_target_more(
    request: BuildRefineGateSelectionInputsRequestModel,
    targets: Seq<LoadTargetModel>,
    path: Seq<char>,
    id: Option<Seq<char>>,
)
    requires
        request.are_looked_up(targets),
        request.looks_up(path, id),
    ensures
        request.are_looked_up(put_target(targets, path, id)),
        paths_stay(targets, put_target(targets, path, id)),
        has_path(put_target(targets, path, id), path),
    decreases targets.len(),
{
    let next = put_target(targets, path, id);
    let entry = LoadTargetModel { path, node_id: id };
    if targets.len() > 0 && crate::text::text_before(path, targets.last().path) {
        let front = targets.drop_last();
        assert forall|k: int| 0 <= k < front.len() implies request.looks_up(
            (#[trigger] front[k]).path,
            front[k].node_id,
        ) by {
            assert(front[k] == targets[k]);
        }
        one_target_more(request, front, path, id);
        let inner = put_target(front, path, id);
        assert(next == inner.push(targets.last()));
        assert forall|k: int| 0 <= k < next.len() implies request.looks_up(
            (#[trigger] next[k]).path,
            next[k].node_id,
        ) by {
            if k < inner.len() {
                assert(next[k] == inner[k]);
            } else {
                assert(next[k] == targets[targets.len() - 1]);
            }
        }
        assert forall|other: Seq<char>| #[trigger] has_path(targets, other) implies has_path(
            next,
            other,
        ) by {
            let k = choose|k: int| 0 <= k < targets.len() && (#[trigger] targets[k]).path == other;
            if k < front.len() {
                assert(front[k].path == other);
                assert(has_path(front, other));
                let m = choose|m: int| 0 <= m < inner.len() && (#[trigger] inner[m]).path == other;
                assert(next[m].path == other);
            } else {
                assert(next[inner.len() as int].path == other);
            }
        }
        let m = choose|m: int| 0 <= m < inner.len() && (#[trigger] inner[m]).path == path;
        assert(next[m].path == path);
    } else if targets.len() > 0 && targets.last().path == path {
        let n = targets.len() - 1;
        assert(next[n] == entry);
        assert forall|k: int| 0 <= k < next.len() implies request.looks_up(
            (#[trigger] next[k]).path,
            next[k].node_id,
        ) by {
            if k < n {
                assert(next[k] == targets[k]);
            }
        }
        assert forall|other: Seq<char>| #[trigger] has_path(targets, other) implies has_path(
            next,
            other,
        ) by {
            let k = choose|k: int| 0 <= k < targets.len() && (#[trigger] targets[k]).path == other;
            assert(next[k].path == other);
        }
    } else {
        let n = targets.len() as int;
        assert(next[n] == entry);
        assert forall|k: int| 0 <= k < next.len() implies request.looks_up(
            (#[trigger] next[k]).path,
            next[k].node_id,
        ) by {
            if k < n {
                assert(next[k] == targets[k]);
            }
        }
        assert forall|other: Seq<char>| #[trigger] has_path(targets, other) implies has_path(
            next,
            other,
        ) by {
            let k = choose|k: int| 0 <= k < targets.len() && (#[trigger] targets[k]).path == other;
            assert(next[k].path == other);
        }
    }
}

proof fn made_paths_are_found(
    request: BuildRefineGateSelectionInputsRequestModel,
    i: int,
    acc: Seq<Seq<char>>,
    path: Seq<char>,
)
    requires
        0 <= i <= request.rewrite_result.changed_files.len(),
    ensures
        created_paths_from(request.rewrite_result.changed_files, i, acc).contains(path)
            <==> acc.contains(path) || (exists|k: int|
            i <= k < request.rewrite_result.changed_files.len() && (
            #[trigger] request.rewrite_result.changed_files[k]).relative_path == path
                && request.rewrite_result.changed_files[k].change_kind
                == RefineChangedFileKind::Created),
    decreases request.rewrite_result.changed_files.len() - i,
{
    let files = request.rewrite_result.changed_files;
    if i < files.len() {
        if files[i].change_kind == RefineChangedFileKind::Created {
            let more = acc.push(files[i].relative_path);
            made_paths_are_found(request, i + 1, more, path);
            assert(more.contains(path) <==> acc.contains(path) || path == files[i].relative_path)
                by {
                assert(more[acc.len() as int] == files[i].relative_path);
                if acc.contains(path) {
                    let k = choose|k: int| 0 <= k < acc.len() && acc[k] == path;
                    assert(more[k] == path);
                }
                if more.contains(path) {
                    let k = choose|k: int| 0 <= k < more.len() && more[k] == path;
                    if k < acc.len() {
                        assert(acc[k] == path);
                    }
                }
            }
        } else {
            made_paths_are_found(request, i + 1, acc, path);
        }
    }
}

/// These are the paths of the files that the rewrite made.
spec fn are_made(
    request: BuildRefineGateSelectionInputsRequestModel,
    created: Seq<Seq<char>>,
) -> bool {
    forall|path: Seq<char>| #[trigger]
        created.contains(path) <==> is_made(request.rewrite_result, path)
}

proof fn files_are_looked_up(
    request: BuildRefineGateSelectionInputsRequestModel,
    i: int,
    acc: Seq<LoadTargetModel>,
)
    requires
        0 <= i <= request.rewrite_result.changed_files.len(),
        request.are_looked_up(acc),
    ensures
        file_targets_from(request.rewrite_result.changed_files, i, acc) matches Ok(out) ==> {
            &&& request.are_looked_up(out)
            &&& paths_stay(acc, out)
            &&& forall|k: int, path: Seq<char>, id: Option<Seq<char>>|
                i <= k && #[trigger] request.file_looks_up(k, path, id) ==> has_path(out, path)
            &&& forall|k: int|
                i <= k < request.rewrite_result.changed_files.len() ==> is_plan_markdown(
                    (#[trigger] request.rewrite_result.changed_files[k]).relative_path,
                )
        },
    decreases request.rewrite_result.changed_files.len() - i,
{
    let files = request.rewrite_result.changed_files;
    if i < files.len() {
        let file = files[i];
        if file.change_kind == RefineChangedFileKind::Created {
            files_are_looked_up(request, i + 1, acc);
        } else {
            assert(request.file_looks_up(i, file.relative_path, file.node_id));
            one_target_more(request, acc, file.relative_path, file.node_id);
            files_are_looked_up(
                request,
                i + 1,
                put_target(acc, file.relative_path, file.node_id),
            );
        }
    }
}

proof fn paths_are_checked(paths: Seq<Seq<char>>, i: int)
    requires
        0 <= i <= paths.len(),
    ensures
        state_paths_problem_from(paths, i) is None ==> forall|k: int|
            i <= k < paths.len() ==> is_plan_markdown(#[trigger] paths[k]),
    decreases paths.len() - i,
{
    if i < paths.len() {
        paths_are_checked(paths, i + 1);
    }
}

proof fn changes_are_looked_up(
    request: BuildRefineGateSelectionInputsRequestModel,
    created: Seq<Seq<char>>,
    i: int,
    acc: Seq<LoadTargetModel>,
)
    requires
        0 <= i <= request.rewrite_result.structural_changes.len(),
        request.are_looked_up(acc),
        are_made(request, created),
    ensures
        structure_targets_from(
            request.rewrite_result.structural_changes,
            created,
            i,
            acc,
        ) matches Ok(out) ==> {
            &&& request.are_looked_up(out)
            &&& paths_stay(acc, out)
            &&& forall|k: int, path: Seq<char>, id: Option<Seq<char>>|
                i <= k && #[trigger] request.change_looks_up(k, path, id) ==> has_path(out, path)
            &&& forall|k: int|
                i <= k < request.rewrite_result.structural_changes.len() ==> has_plan_ends(
                    #[trigger] request.rewrite_result.structural_changes[k],
                )
        },
    decreases request.rewrite_result.structural_changes.len() - i,
{
    let changes = request.rewrite_result.structural_changes;
    if i < changes.len() {
        let change = changes[i];
        let path = change.parent_relative_path;
        paths_are_checked(change.added_child_relative_paths, 0);
        paths_are_checked(change.removed_child_relative_paths, 0);
        assert(created.contains(path) <==> is_made(request.rewrite_result, path));
        if change.parent_node_id is None && created.contains(path) {
            changes_are_looked_up(request, created, i + 1, acc);
        } else {
            assert(request.change_looks_up(i, path, change.parent_node_id));
            one_target_more(request, acc, path, change.parent_node_id);
            changes_are_looked_up(
                request,
                created,
                i + 1,
                put_target(acc, path, change.parent_node_id),
            );
        }
    }
}

proof fn stale_nodes_are_looked_up(
    request: BuildRefineGateSelectionInputsRequestModel,
    i: int,
    acc: Seq<LoadTargetModel>,
)
    requires
        0 <= i <= request.rewrite_result.stale_nodes.len(),
        request.are_looked_up(acc),
    ensures
        stale_targets_from(request.rewrite_result.stale_nodes, i, acc) matches Ok(out) ==> {
            &&& request.are_looked_up(out)
            &&& paths_stay(acc, out)
            &&& forall|k: int, path: Seq<char>, id: Option<Seq<char>>|
                i <= k && #[trigger] request.stale_looks_up(k, path, id) ==> has_path(out, path)
            &&& forall|k: int|
                i <= k < request.rewrite_result.stale_nodes.len() ==> is_plan_markdown(
                    (#[trigger] request.rewrite_result.stale_nodes[k]).relative_path,
                )
        },
    decreases request.rewrite_result.stale_nodes.len() - i,
{
    let nodes = request.rewrite_result.stale_nodes;
    if i < nodes.len() {
        let node = nodes[i];
        assert(request.stale_looks_up(i, node.relative_path, node.node_id));
        one_target_more(request, acc, node.relative_path, node.node_id);
        stale_nodes_are_looked_up(
            request,
            i + 1,
            put_target(acc, node.relative_path, node.node_id),
        );
    }
}

proof fn contexts_are_looked_up(
    request: BuildRefineGateSelectionInputsRequestModel,
    i: int,
    acc: Seq<LoadTargetModel>,
)
    requires
        0 <= i <= request.rewrite_result.context_invalidations.len(),
        request.are_looked_up(acc),
    ensures
        context_targets_from(request.rewrite_result.context_invalidations, i, acc) matches Ok(out)
            ==> {
            &&& request.are_looked_up(out)
            &&& paths_stay(acc, out)
            &&& forall|k: int, path: Seq<char>, id: Option<Seq<char>>|
                i <= k && #[trigger] request.context_looks_up(k, path, id) ==> has_path(out, path)
            &&& forall|k: int|
                i <= k < request.rewrite_result.context_invalidations.len() ==> is_plan_markdown(
                    (#[trigger] request.rewrite_result.context_invalidations[k]).relative_path,
                )
        },
    decreases request.rewrite_result.context_invalidations.len() - i,
{
    let nodes = request.rewrite_result.context_invalidations;
    if i < nodes.len() {
        let node = nodes[i];
        assert(request.context_looks_up(i, node.relative_path, node.node_id));
        one_target_more(request, acc, node.relative_path, node.node_id);
        contexts_are_looked_up(
            request,
            i + 1,
            put_target(acc, node.relative_path, node.node_id),
        );
    }
}

proof fn unchanged_nodes_are_looked_up(
    request: BuildRefineGateSelectionInputsRequestModel,
    i: int,
    acc: Seq<LoadTargetModel>,
)
    requires
        0 <= i <= request.rewrite_result.unchanged_nodes.len(),
        request.are_looked_up(acc),
    ensures
        unchanged_targets_from(request.rewrite_result.unchanged_nodes, i, acc) matches Ok(out)
            ==> {
            &&& request.are_looked_up(out)
            &&& paths_stay(acc, out)
            &&& forall|k: int, path: Seq<char>, id: Option<Seq<char>>|
                i <= k && #[trigger] request.unchanged_looks_up(k, path, id) ==> has_path(out, path)
            &&& forall|k: int|
                i <= k < request.rewrite_result.unchanged_nodes.len() ==> is_plan_markdown(
                    (#[trigger] request.rewrite_result.unchanged_nodes[k]).relative_path,
                )
        },
    decreases request.rewrite_result.unchanged_nodes.len() - i,
{
    let nodes = request.rewrite_result.unchanged_nodes;
    if i < nodes.len() {
        let node = nodes[i];
        assert(request.unchanged_looks_up(i, node.relative_path, node.node_id));
        one_target_more(request, acc, node.relative_path, node.node_id);
        unchanged_nodes_are_looked_up(
            request,
            i + 1,
            put_target(acc, node.relative_path, node.node_id),
        );
    }
}

proof fn handoffs_are_looked_up(
    request: BuildRefineGateSelectionInputsRequestModel,
    created: Seq<Seq<char>>,
    i: int,
    acc: Seq<LoadTargetModel>,
)
    requires
        0 <= i <= request.stale_result_handoff.len(),
        request.are_looked_up(acc),
        are_made(request, created),
    ensures
        handoffs_targets_from(request.stale_result_handoff, created, i, acc) matches Ok(out) ==> {
            &&& request.are_looked_up(out)
            &&& paths_stay(acc, out)
            &&& forall|k: int, path: Seq<char>, id: Option<Seq<char>>|
                i <= k && #[trigger] request.handoff_looks_up(k, path, id) ==> has_path(out, path)
            &&& forall|k: int|
                i <= k < request.stale_result_handoff.len() ==> has_plan_places(
                    #[trigger] request.stale_result_handoff[k],
                )
        },
    decreases request.stale_result_handoff.len() - i,
{
    let handoffs = request.stale_result_handoff;
    if i < handoffs.len() {
        let handoff = handoffs[i];
        let path = handoff.relative_path;
        assert(created.contains(path) <==> is_made(request.rewrite_result, path));
        if let Ok(next) = handoff_targets(handoff, created, acc) {
            let first = if created.contains(path) {
                acc
            } else {
                assert(request.handoff_looks_up(i, path, handoff.node_id));
                one_target_more(request, acc, path, handoff.node_id);
                put_target(acc, path, handoff.node_id)
            };
            if let Some(parent) = handoff.parent_relative_path {
                assert(created.contains(parent) <==> is_made(request.rewrite_result, parent));
                if !created.contains(parent) {
                    assert(request.handoff_looks_up(i, parent, handoff.parent_node_id));
                    one_target_more(request, first, parent, handoff.parent_node_id);
                }
            }
            handoffs_are_looked_up(request, created, i + 1, next);
        }
    }
}

proof fn all_are_looked_up(request: BuildRefineGateSelectionInputsRequestModel)
    ensures
        load_targets(request) matches Ok(targets) ==> {
            &&& request.are_looked_up(targets)
            &&& forall|path: Seq<char>, id: Option<Seq<char>>| #[trigger]
                request.looks_up(path, id) ==> has_path(targets, path)
            &&& request.has_plan_paths()
        },
{
    let result = request.rewrite_result;
    let created = created_paths_from(result.changed_files, 0, Seq::empty());
    assert forall|path: Seq<char>| #[trigger] created.contains(path) <==> is_made(result, path) by {
        made_paths_are_found(request, 0, Seq::empty(), path);
        assert(!Seq::<Seq<char>>::empty().contains(path));
    }
    files_are_looked_up(request, 0, Seq::empty());
    if let Ok(a) = file_targets_from(result.changed_files, 0, Seq::empty()) {
        changes_are_looked_up(request, created, 0, a);
        if let Ok(b) = structure_targets_from(result.structural_changes, created, 0, a) {
            stale_nodes_are_looked_up(request, 0, b);
            if let Ok(c) = stale_targets_from(result.stale_nodes, 0, b) {
                contexts_are_looked_up(request, 0, c);
                if let Ok(d) = context_targets_from(result.context_invalidations, 0, c) {
                    unchanged_nodes_are_looked_up(request, 0, d);
                    if let Ok(e) = unchanged_targets_from(result.unchanged_nodes, 0, d) {
                        assert(rewrite_targets_of(result, created) is Ok);
                        handoffs_are_looked_up(request, created, 0, e);
                        if let Ok(f) = handoffs_targets_from(
                            request.stale_result_handoff,
                            created,
                            0,
                            e,
                        ) {
                            assert forall|path: Seq<char>, id: Option<Seq<char>>| #[trigger]
                                request.looks_up(path, id) implies has_path(f, path) by {
                                looked_up_in_one_of(request, path, id, a, b, c, d, e, f);
                            }
                        }
                    }
                }
            }
        }
    }
}

proof fn looked_up_in_one_of(
    request: BuildRefineGateSelectionInputsRequestModel,
    path: Seq<char>,
    id: Option<Seq<char>>,
    a: Seq<LoadTargetModel>,
    b: Seq<LoadTargetModel>,
    c: Seq<LoadTargetModel>,
    d: Seq<LoadTargetModel>,
    e: Seq<LoadTargetModel>,
    f: Seq<LoadTargetModel>,
)
    requires
        request.looks_up(path, id),
        paths_stay(a, b),
        paths_stay(b, c),
        paths_stay(c, d),
        paths_stay(d, e),
        paths_stay(e, f),
        forall|k: int| 0 <= k && #[trigger] request.file_looks_up(k, path, id) ==> has_path(a, path),
        forall|k: int|
            0 <= k && #[trigger] request.change_looks_up(k, path, id) ==> has_path(b, path),
        forall|k: int| 0 <= k && #[trigger] request.stale_looks_up(k, path, id) ==> has_path(c, path),
        forall|k: int|
            0 <= k && #[trigger] request.context_looks_up(k, path, id) ==> has_path(d, path),
        forall|k: int|
            0 <= k && #[trigger] request.unchanged_looks_up(k, path, id) ==> has_path(e, path),
        forall|k: int|
            0 <= k && #[trigger] request.handoff_looks_up(k, path, id) ==> has_path(f, path),
    ensures
        has_path(f, path),
{
    let i = choose|i: int|
        #![trigger request.file_looks_up(i, path, id)]
        #![trigger request.change_looks_up(i, path, id)]
        #![trigger request.stale_looks_up(i, path, id)]
        #![trigger request.context_looks_up(i, path, id)]
        #![trigger request.unchanged_looks_up(i, path, id)]
        #![trigger request.handoff_looks_up(i, path, id)]
        {
            ||| request.file_looks_up(i, path, id)
            ||| request.change_looks_up(i, path, id)
            ||| request.stale_looks_up(i, path, id)
            ||| request.context_looks_up(i, path, id)
            ||| request.unchanged_looks_up(i, path, id)
            ||| request.handoff_looks_up(i, path, id)
        };
    if has_path(a, path) {
        assert(has_path(b, path));
    }
    if has_path(b, path) {
        assert(has_path(c, path));
    }
    if has_path(c, path) {
        assert(has_path(d, path));
    }
    if has_path(d, path) {
        assert(has_path(e, path));
    }
    if has_path(e, path) {
        assert(has_path(f, path));
    }
}

// ---------------------------------------------------------------------
// What is found
// ---------------------------------------------------------------------
/// The node of the snapshot says what is remembered of the node with its id.
pub open spec fn is_as_remembered(
    runtime: RuntimeModel,
    plan_id: Seq<char>,
    node: RefineRuntimeNodeSummaryModel,
) -> bool {
    &&& exists|m: int|
        0 <= m < runtime.nodes.len() && (#[trigger] runtime.nodes[m]).plan_id == plan_id
            && runtime.nodes[m].node_id == node.node_id && runtime.nodes[m].relative_path
            == node.relative_path && runtime.nodes[m].parent_node_id == node.parent_node_id
            && is_of_kind(runtime.nodes[m], node.node_kind)
    &&& match node.parent_node_id {
        None => node.parent_relative_path is None,
        Some(parent) => node.parent_relative_path is Some && exists|m: int|
            0 <= m < runtime.nodes.len() && (#[trigger] runtime.nodes[m]).plan_id == plan_id
                && runtime.nodes[m].node_id == parent && runtime.nodes[m].relative_path
                == node.parent_relative_path->0,
    }
    &&& node.node_kind == NodeKind::Leaf ==> node.child_relative_paths.len() == 0
    &&& node.node_kind == NodeKind::Parent ==> forall|path: Seq<char>| #[trigger]
        node.child_relative_paths.contains(path) <==> is_child_path(
            runtime,
            plan_id,
            node.node_id,
            path,
        )
}

/// A node of the plan with this parent is remembered at the path.
pub open spec fn is_child_path(
    runtime: RuntimeModel,
    plan_id: Seq<char>,
    parent_node_id: Seq<char>,
    path: Seq<char>,
) -> bool {
    exists|m: int|
        0 <= m < runtime.nodes.len() && (#[trigger] runtime.nodes[m]).plan_id == plan_id
            && runtime.nodes[m].parent_node_id == Some(parent_node_id)
            && runtime.nodes[m].relative_path == path
}

/// The node is the one that was looked up: under the id that was given, or else
/// at the path.
pub open spec fn answers(
    node: RefineRuntimeNodeSummaryModel,
    path: Seq<char>,
    id: Option<Seq<char>>,
) -> bool {
    match id {
        Some(given) => node.node_id == given,
        None => node.relative_path == path,
    }
}

/// One of the approvals of leaves is that of this node.
pub open spec fn has_leaf_approval(
    priors: Seq<RefinePriorLeafGateSummaryModel>,
    runtime: RuntimeModel,
    plan_id: Seq<char>,
    node: RefineRuntimeNodeSummaryModel,
) -> bool {
    exists|k: int|
        0 <= k < priors.len() && (#[trigger] priors[k]).node_id == node.node_id
            && priors[k].relative_path == node.relative_path && is_latest_leaf_review(
            runtime,
            plan_id,
            node.node_id,
            Some(priors[k].summary),
        )
}

/// One of the approvals of parents is that of this node.
pub open spec fn has_frontier_approval(
    priors: Seq<RefinePriorFrontierGateSummaryModel>,
    runtime: RuntimeModel,
    plan_id: Seq<char>,
    node: RefineRuntimeNodeSummaryModel,
) -> bool {
    exists|k: int|
        0 <= k < priors.len() && (#[trigger] priors[k]).parent_node_id == node.node_id
            && priors[k].parent_relative_path == node.relative_path && is_latest_frontier_review(
            runtime,
            plan_id,
            node.node_id,
            Some(priors[k].summary),
        )
}

/// The approval is the latest one of a leaf of the snapshot.
pub open spec fn is_leaf_approval(
    runtime: RuntimeModel,
    plan_id: Seq<char>,
    nodes: Seq<RefineRuntimeNodeSummaryModel>,
    prior: RefinePriorLeafGateSummaryModel,
) -> bool {
    exists|k: int|
        0 <= k < nodes.len() && (#[trigger] nodes[k]).node_id == prior.node_id
            && nodes[k].relative_path == prior.relative_path && is_latest_leaf_review(
            runtime,
            plan_id,
            prior.node_id,
            Some(prior.summary),
        )
}

/// The approval is the latest one of a parent of the snapshot.
pub open spec fn is_frontier_approval(
    runtime: RuntimeModel,
    plan_id: Seq<char>,
    nodes: Seq<RefineRuntimeNodeSummaryModel>,
    prior: RefinePriorFrontierGateSummaryModel,
) -> bool {
    exists|k: int|
        0 <= k < nodes.len() && (#[trigger] nodes[k]).node_id == prior.parent_node_id
            && nodes[k].relative_path == prior.parent_relative_path && is_latest_frontier_review(
            runtime,
            plan_id,
            prior.parent_node_id,
            Some(prior.summary),
        )
}

/// A leaf of the plan with this id passed a review.
pub open spec fn has_passed(runtime: RuntimeModel, plan_id: Seq<char>, node_id: Seq<char>) -> bool {
    exists|m: int|
        0 <= m < runtime.leaf_gate_runs.len() && (#[trigger] runtime.leaf_gate_runs[m]).plan_id
            == plan_id && runtime.leaf_gate_runs[m].node_id == node_id
            && runtime.leaf_gate_runs[m].passed
}

/// A parent of the plan with this id was reviewed.
pub open spec fn was_reviewed(
    runtime: RuntimeModel,
    plan_id: Seq<char>,
    node_id: Seq<char>,
) -> bool {
    exists|m: int|
        0 <= m < runtime.frontier_gate_runs.len() && (
        #[trigger] runtime.frontier_gate_runs[m]).plan_id == plan_id
            && runtime.frontier_gate_runs[m].parent_node_id == node_id
}

/// The node answers one of the lookups.
pub open spec fn was_looked_up(
    request: BuildRefineGateSelectionInputsRequestModel,
    node: RefineRuntimeNodeSummaryModel,
) -> bool {
    exists|path: Seq<char>, id: Option<Seq<char>>| #[trigger]
        request.looks_up(path, id) && answers(node, path, id)
}

/// One of the nodes answers a lookup at the path.
pub open spec fn is_found(
    request: BuildRefineGateSelectionInputsRequestModel,
    nodes: Seq<RefineRuntimeNodeSummaryModel>,
    path: Seq<char>,
) -> bool {
    exists|k: int, id: Option<Seq<char>>|
        0 <= k < nodes.len() && #[trigger] request.looks_up(path, id) && answers(
            #[trigger] nodes[k],
            path,
            id,
        )
}

spec fn is_true_state(runtime: RuntimeModel, plan_id: Seq<char>, state: LoadedState) -> bool {
    &&& forall|k: int|
        0 <= k < state.nodes.len() ==> {
            &&& is_as_remembered(runtime, plan_id, #[trigger] state.nodes[k])
            &&& has_passed(runtime, plan_id, state.nodes[k].node_id) ==> has_leaf_approval(
                state.leaf,
                runtime,
                plan_id,
                state.nodes[k],
            )
            &&& was_reviewed(runtime, plan_id, state.nodes[k].node_id) ==> has_frontier_approval(
                state.frontier,
                runtime,
                plan_id,
                state.nodes[k],
            )
        }
    &&& forall|k: int|
        0 <= k < state.leaf.len() ==> is_leaf_approval(
            runtime,
            plan_id,
            state.nodes,
            #[trigger] state.leaf[k],
        )
    &&& forall|k: int|
        0 <= k < state.frontier.len() ==> is_frontier_approval(
            runtime,
            plan_id,
            state.nodes,
            #[trigger] state.frontier[k],
        )
}

proof fn leaf_approvals_stay(
    runtime: RuntimeModel,
    plan_id: Seq<char>,
    a: Seq<RefinePriorLeafGateSummaryModel>,
    b: Seq<RefinePriorLeafGateSummaryModel>,
    node: RefineRuntimeNodeSummaryModel,
)
    requires
        a.len() <= b.len(),
        forall|k: int| 0 <= k < a.len() ==> #[trigger] b[k] == a[k],
        has_leaf_approval(a, runtime, plan_id, node),
    ensures
        has_leaf_approval(b, runtime, plan_id, node),
{
    let j = choose|j: int|
        0 <= j < a.len() && (#[trigger] a[j]).node_id == node.node_id && a[j].relative_path
            == node.relative_path && is_latest_leaf_review(
            runtime,
            plan_id,
            node.node_id,
            Some(a[j].summary),
        );
    assert(b[j] == a[j]);
}

proof fn frontier_approvals_stay(
    runtime: RuntimeModel,
    plan_id: Seq<char>,
    a: Seq<RefinePriorFrontierGateSummaryModel>,
    b: Seq<RefinePriorFrontierGateSummaryModel>,
    node: RefineRuntimeNodeSummaryModel,
)
    requires
        a.len() <= b.len(),
        forall|k: int| 0 <= k < a.len() ==> #[trigger] b[k] == a[k],
        has_frontier_approval(a, runtime, plan_id, node),
    ensures
        has_frontier_approval(b, runtime, plan_id, node),
{
    let j = choose|j: int|
        0 <= j < a.len() && (#[trigger] a[j]).parent_node_id == node.node_id
            && a[j].parent_relative_path == node.relative_path && is_latest_frontier_review(
            runtime,
            plan_id,
            node.node_id,
            Some(a[j].summary),
        );
    assert(b[j] == a[j]);
}

proof fn approvals_keep_their_nodes(
    runtime: RuntimeModel,
    plan_id: Seq<char>,
    a: Seq<RefineRuntimeNodeSummaryModel>,
    b: Seq<RefineRuntimeNodeSummaryModel>,
    leaf: RefinePriorLeafGateSummaryModel,
    frontier: RefinePriorFrontierGateSummaryModel,
)
    requires
        a.len() <= b.len(),
        forall|k: int| 0 <= k < a.len() ==> #[trigger] b[k] == a[k],
    ensures
        is_leaf_approval(runtime, plan_id, a, leaf) ==> is_leaf_approval(
            runtime,
            plan_id,
            b,
            leaf,
        ),
        is_frontier_approval(runtime, plan_id, a, frontier) ==> is_frontier_approval(
            runtime,
            plan_id,
            b,
            frontier,
        ),
{
    if is_leaf_approval(runtime, plan_id, a, leaf) {
        let j = choose|j: int|
            0 <= j < a.len() && (#[trigger] a[j]).node_id == leaf.node_id && a[j].relative_path
                == leaf.relative_path && is_latest_leaf_review(
                runtime,
                plan_id,
                leaf.node_id,
                Some(leaf.summary),
            );
        assert(b[j] == a[j]);
    }
    if is_frontier_approval(runtime, plan_id, a, frontier) {
        let j = choose|j: int|
            0 <= j < a.len() && (#[trigger] a[j]).node_id == frontier.parent_node_id
                && a[j].relative_path == frontier.parent_relative_path && is_latest_frontier_review(
                runtime,
                plan_id,
                frontier.parent_node_id,
                Some(frontier.summary),
            );
        assert(b[j] == a[j]);
    }
}

proof fn reviews_are_shown(
    runtime: RuntimeModel,
    plan_id: Seq<char>,
    node_id: Seq<char>,
    leaf: Option<GateSummaryModel>,
    frontier: Option<GateSummaryModel>,
)
    requires
        is_latest_leaf_review(runtime, plan_id, node_id, leaf),
        is_latest_frontier_review(runtime, plan_id, node_id, frontier),
    ensures
        has_passed(runtime, plan_id, node_id) ==> leaf is Some,
        was_reviewed(runtime, plan_id, node_id) ==> frontier is Some,
{
    if has_passed(runtime, plan_id, node_id) {
        let m = choose|m: int|
            0 <= m < runtime.leaf_gate_runs.len() && (
            #[trigger] runtime.leaf_gate_runs[m]).plan_id == plan_id
                && runtime.leaf_gate_runs[m].node_id == node_id
                && runtime.leaf_gate_runs[m].passed;
        assert(runtime.leaf_gate_runs[m].plan_id == plan_id);
    }
    if was_reviewed(runtime, plan_id, node_id) {
        let m = choose|m: int|
            0 <= m < runtime.frontier_gate_runs.len() && (
            #[trigger] runtime.frontier_gate_runs[m]).plan_id == plan_id
                && runtime.frontier_gate_runs[m].parent_node_id == node_id;
        assert(runtime.frontier_gate_runs[m].plan_id == plan_id);
    }
}

/// What is known with one node more that was shown.
spec fn with_node(
    state: LoadedState,
    node: RefineRuntimeNodeSummaryModel,
    leaf: Option<GateSummaryModel>,
    frontier: Option<GateSummaryModel>,
) -> LoadedState {
    LoadedState {
        nodes: state.nodes.push(node),
        leaf: match leaf {
            Some(summary) => state.leaf.push(
                RefinePriorLeafGateSummaryModel {
                    node_id: node.node_id,
                    relative_path: node.relative_path,
                    summary,
                },
            ),
            None => state.leaf,
        },
        frontier: match frontier {
            Some(summary) => state.frontier.push(
                RefinePriorFrontierGateSummaryModel {
                    parent_node_id: node.node_id,
                    parent_relative_path: node.relative_path,
                    summary,
                },
            ),
            None => state.frontier,
        },
    }
}

proof fn one_node_more(
    runtime: RuntimeModel,
    plan_id: Seq<char>,
    state: LoadedState,
    node: RefineRuntimeNodeSummaryModel,
    leaf: Option<GateSummaryModel>,
    frontier: Option<GateSummaryModel>,
)
    requires
        is_true_state(runtime, plan_id, state),
        is_as_remembered(runtime, plan_id, node),
        is_latest_leaf_review(runtime, plan_id, node.node_id, leaf),
        is_latest_frontier_review(runtime, plan_id, node.node_id, frontier),
    ensures
        is_true_state(runtime, plan_id, with_node(state, node, leaf, frontier)),
{
    let next = with_node(state, node, leaf, frontier);
    let n = state.nodes.len() as int;
    reviews_are_shown(runtime, plan_id, node.node_id, leaf, frontier);
    if leaf is Some {
        assert(next.leaf[state.leaf.len() as int].node_id == node.node_id);
        assert(has_leaf_approval(next.leaf, runtime, plan_id, node));
    }
    if frontier is Some {
        assert(next.frontier[state.frontier.len() as int].parent_node_id == node.node_id);
        assert(has_frontier_approval(next.frontier, runtime, plan_id, node));
    }
    assert forall|k: int| 0 <= k < next.nodes.len() implies {
        &&& is_as_remembered(runtime, plan_id, #[trigger] next.nodes[k])
        &&& has_passed(runtime, plan_id, next.nodes[k].node_id) ==> has_leaf_approval(
            next.leaf,
            runtime,
            plan_id,
            next.nodes[k],
        )
        &&& was_reviewed(runtime, plan_id, next.nodes[k].node_id) ==> has_frontier_approval(
            next.frontier,
            runtime,
            plan_id,
            next.nodes[k],
        )
    } by {
        if k < n {
            let old_node = state.nodes[k];
            assert(next.nodes[k] == old_node);
            if has_passed(runtime, plan_id, old_node.node_id) {
                leaf_approvals_stay(runtime, plan_id, state.leaf, next.leaf, old_node);
            }
            if was_reviewed(runtime, plan_id, old_node.node_id) {
                frontier_approvals_stay(
                    runtime,
                    plan_id,
                    state.frontier,
                    next.frontier,
                    old_node,
                );
            }
        }
    }
    assert forall|k: int| 0 <= k < next.leaf.len() implies is_leaf_approval(
        runtime,
        plan_id,
        next.nodes,
        #[trigger] next.leaf[k],
    ) by {
        if k < state.leaf.len() {
            assert(next.leaf[k] == state.leaf[k]);
            approvals_keep_their_nodes(
                runtime,
                plan_id,
                state.nodes,
                next.nodes,
                state.leaf[k],
                arbitrary(),
            );
        } else {
            assert(next.nodes[n].node_id == next.leaf[k].node_id);
        }
    }
    assert forall|k: int| 0 <= k < next.frontier.len() implies is_frontier_approval(
        runtime,
        plan_id,
        next.nodes,
        #[trigger] next.frontier[k],
    ) by {
        if k < state.frontier.len() {
            assert(next.frontier[k] == state.frontier[k]);
            approvals_keep_their_nodes(
                runtime,
                plan_id,
                state.nodes,
                next.nodes,
                arbitrary(),
                state.frontier[k],
            );
        } else {
            assert(next.nodes[n].node_id == next.frontier[k].parent_node_id);
        }
    }
}

proof fn one_node_is_found(
    runtime: RuntimeModel,
    plan_id: Seq<char>,
    target: LoadTargetModel,
    state: LoadedState,
)
    requires
        is_true_state(runtime, plan_id, state),
    ensures
        runtime.loaded(plan_id, target, state) matches Ok(next) ==> {
            &&& is_true_state(runtime, plan_id, next)
            &&& next.nodes.len() == state.nodes.len() + 1
            &&& answers(next.nodes.last(), target.path, target.node_id)
            &&& forall|k: int| 0 <= k < state.nodes.len() ==> #[trigger] next.nodes[k]
                == state.nodes[k]
        },
{
    if let Ok(next) = runtime.loaded(plan_id, target, state) {
        let request = InspectNodeRequestModel {
            plan_id,
            node_id: target.node_id,
            relative_path: match target.node_id {
                Some(_) => None,
                None => Some(target.path),
            },
        };
        let shown = runtime.inspection(request)->Ok_0;
        let node = next.nodes.last();
        let leaf = shown.latest_passed_leaf_gate_summary;
        let frontier = shown.latest_frontier_gate_summary;
        inspections_show_what_is_remembered(runtime, request);
        node_is_as_remembered(runtime, plan_id, request, shown, node);
        assert(next == with_node(state, node, leaf, frontier));
        one_node_more(runtime, plan_id, state, node, leaf, frontier);
    }
}

proof fn node_is_as_remembered(
    runtime: RuntimeModel,
    plan_id: Seq<char>,
    request: InspectNodeRequestModel,
    shown: InspectNodeResponseModel,
    node: RefineRuntimeNodeSummaryModel,
)
    requires
        request.plan_id == plan_id,
        runtime.inspection(request) matches Ok(found) && found == shown,
        runtime.child_paths(plan_id, shown) matches Ok(paths) && paths
            == node.child_relative_paths,
        node.node_id == shown.node_id,
        node.relative_path == shown.relative_path,
        node.node_kind == shown.node_kind,
        node.parent_node_id == shown.parent_node_id,
        node.parent_relative_path == shown.parent_relative_path,
    ensures
        is_as_remembered(runtime, plan_id, node),
{
    inspections_show_what_is_remembered(runtime, request);
    let m = choose|m: int|
        0 <= m < runtime.nodes.len() && (#[trigger] runtime.nodes[m]).plan_id == plan_id
            && crate::runtime::inspection_laws::shows_node(shown, runtime.nodes[m]);
    assert(runtime.nodes[m].node_id == node.node_id);
    if node.node_kind == NodeKind::Parent {
        let asked = ListChildrenRequestModel {
            plan_id,
            parent_node_id: Some(shown.node_id),
            parent_relative_path: None,
        };
        listings_show_all_children(runtime, asked);
        let children = runtime.children_listing(asked)->Ok_0.children;
        let paths = node.child_relative_paths;
        assert forall|path: Seq<char>| #[trigger] paths.contains(path) <==> is_child_path(
            runtime,
            plan_id,
            node.node_id,
            path,
        ) by {
            if paths.contains(path) {
                let k = choose|k: int| 0 <= k < paths.len() && paths[k] == path;
                assert(shows_child(runtime, plan_id, node.node_id, children[k]));
                let j = choose|j: int|
                    0 <= j < runtime.nodes.len() && (#[trigger] runtime.nodes[j]).plan_id == plan_id
                        && runtime.nodes[j].parent_node_id == Some(node.node_id) && is_summary_of(
                        children[k],
                        runtime.nodes[j],
                    );
                assert(runtime.nodes[j].relative_path == path);
            }
            if is_child_path(runtime, plan_id, node.node_id, path) {
                let j = choose|j: int|
                    0 <= j < runtime.nodes.len() && (#[trigger] runtime.nodes[j]).plan_id == plan_id
                        && runtime.nodes[j].parent_node_id == Some(node.node_id)
                        && runtime.nodes[j].relative_path == path;
                assert(is_shown(children, runtime.nodes[j]));
                let k = choose|k: int|
                    0 <= k < children.len() && is_summary_of(
                        #[trigger] children[k],
                        runtime.nodes[j],
                    );
                assert(paths[k] == path);
            }
        }
    }
}

proof fn all_nodes_are_found(
    runtime: RuntimeModel,
    plan_id: Seq<char>,
    targets: Seq<LoadTargetModel>,
    i: int,
    state: LoadedState,
)
    requires
        0 <= i <= targets.len(),
        state.nodes.len() == i,
        is_true_state(runtime, plan_id, state),
        forall|k: int|
            0 <= k < i ==> answers(
                #[trigger] state.nodes[k],
                targets[k].path,
                targets[k].node_id,
            ),
    ensures
        runtime.loaded_from(plan_id, targets, i, state) matches Ok(out) ==> {
            &&& is_true_state(runtime, plan_id, out)
            &&& out.nodes.len() == targets.len()
            &&& forall|k: int|
                0 <= k < targets.len() ==> answers(
                    #[trigger] out.nodes[k],
                    targets[k].path,
                    targets[k].node_id,
                )
        },
    decreases targets.len() - i,
{
    if i < targets.len() {
        one_node_is_found(runtime, plan_id, targets[i], state);
        if let Ok(next) = runtime.loaded(plan_id, targets[i], state) {
            all_nodes_are_found(runtime, plan_id, targets, i + 1, next);
        }
    }
}

/// A handoff that says that a review is stale names a node of the snapshot and
/// an approval of it.
pub open spec fn is_backed(
    nodes: Seq<RefineRuntimeNodeSummaryModel>,
    leaf: Seq<RefinePriorLeafGateSummaryModel>,
    frontier: Seq<RefinePriorFrontierGateSummaryModel>,
    handoff: RefineStaleResultHandoffModel,
) -> bool {
    let path = match handoff.target_kind {
        StaleGateTargetKind::Leaf => handoff.relative_path,
        StaleGateTargetKind::Frontier => match handoff.parent_relative_path {
            Some(parent) => parent,
            None => handoff.relative_path,
        },
    };
    let id = match handoff.target_kind {
        StaleGateTargetKind::Leaf => handoff.node_id,
        StaleGateTargetKind::Frontier => match handoff.parent_node_id {
            Some(parent) => Some(parent),
            None => handoff.node_id,
        },
    };
    let kind = match handoff.target_kind {
        StaleGateTargetKind::Leaf => NodeKind::Leaf,
        StaleGateTargetKind::Frontier => NodeKind::Parent,
    };
    &&& exists|k: int|
        0 <= k < nodes.len() && (#[trigger] nodes[k]).node_kind == kind && nodes[k].relative_path
            == path && (id matches Some(given) ==> nodes[k].node_id == given)
    &&& match handoff.target_kind {
        StaleGateTargetKind::Leaf => exists|k: int|
            0 <= k < leaf.len() && (#[trigger] leaf[k]).relative_path == path && (id matches Some(
                given,
            ) ==> leaf[k].node_id == given),
        StaleGateTargetKind::Frontier => exists|k: int|
            0 <= k < frontier.len() && (#[trigger] frontier[k]).parent_relative_path == path && (
            id matches Some(given) ==> frontier[k].parent_node_id == given),
    }
}

proof fn handoffs_are_backed(
    handoffs: Seq<RefineStaleResultHandoffModel>,
    state: LoadedState,
    i: int,
)
    requires
        0 <= i <= handoffs.len(),
    ensures
        handoffs_mismatch_from(handoffs, state, i) is None <==> forall|k: int|
            i <= k < handoffs.len() && (#[trigger] handoffs[k]).classification
                == RefineStaleGateClassification::Stale ==> is_backed(
                state.nodes,
                state.leaf,
                state.frontier,
                handoffs[k],
            ),
    decreases handoffs.len() - i,
{
    if i < handoffs.len() {
        handoffs_are_backed(handoffs, state, i + 1);
        let handoff = handoffs[i];
        assert(handoff_mismatch(handoff, state) is None <==> (handoff.classification
            == RefineStaleGateClassification::Stale ==> is_backed(
            state.nodes,
            state.leaf,
            state.frontier,
            handoff,
        )));
    }
}

/// What a selection starts from holds the rewrite and the handoffs as they were
/// given, and one node for each path that these speak of, but for those that were
/// just made; each is shown as it is remembered, and with the approvals that it
/// has. Each stale handoff is backed by such a node and such an approval.
pub proof fn inputs_hold_what_is_remembered(
    runtime: RuntimeModel,
    request: BuildRefineGateSelectionInputsRequestModel,
)
    ensures
        runtime.selection_inputs(request) matches Ok(inputs) ==> {
            let nodes = inputs.runtime_snapshot.nodes;
            let leaf = inputs.prior_gate_summaries.leaf;
            let frontier = inputs.prior_gate_summaries.frontier;
            &&& inputs.rewrite_result == request.rewrite_result
            &&& inputs.stale_result_handoff == request.stale_result_handoff
            &&& forall|k: int|
                0 <= k < nodes.len() ==> {
                    &&& is_as_remembered(runtime, request.plan_id, #[trigger] nodes[k])
                    &&& was_looked_up(request, nodes[k])
                    &&& has_passed(runtime, request.plan_id, nodes[k].node_id) ==> has_leaf_approval(
                        leaf,
                        runtime,
                        request.plan_id,
                        nodes[k],
                    )
                    &&& was_reviewed(runtime, request.plan_id, nodes[k].node_id)
                        ==> has_frontier_approval(frontier, runtime, request.plan_id, nodes[k])
                }
            &&& forall|path: Seq<char>, id: Option<Seq<char>>| #[trigger]
                request.looks_up(path, id) ==> is_found(request, nodes, path)
            &&& request.has_plan_paths()
            &&& forall|k: int|
                0 <= k < leaf.len() ==> is_leaf_approval(
                    runtime,
                    request.plan_id,
                    nodes,
                    #[trigger] leaf[k],
                )
            &&& forall|k: int|
                0 <= k < frontier.len() ==> is_frontier_approval(
                    runtime,
                    request.plan_id,
                    nodes,
                    #[trigger] frontier[k],
                )
            &&& forall|k: int|
                0 <= k < request.stale_result_handoff.len() && (
                #[trigger] request.stale_result_handoff[k]).classification
                    == RefineStaleGateClassification::Stale ==> is_backed(
                    nodes,
                    leaf,
                    frontier,
                    request.stale_result_handoff[k],
                )
        },
{
    if let Ok(inputs) = runtime.selection_inputs(request) {
        let empty = LoadedState {
            nodes: Seq::empty(),
            leaf: Seq::empty(),
            frontier: Seq::empty(),
        };
        let plan_id = request.plan_id;
        let targets = load_targets(request)->Ok_0;
        let state = runtime.loaded_from(plan_id, targets, 0, empty)->Ok_0;
        let nodes = inputs.runtime_snapshot.nodes;
        all_are_looked_up(request);
        all_nodes_are_found(runtime, plan_id, targets, 0, empty);
        handoffs_are_backed(request.stale_result_handoff, state, 0);
        assert forall|k: int| 0 <= k < nodes.len() implies was_looked_up(
            request,
            #[trigger] nodes[k],
        ) by {
            assert(request.looks_up(targets[k].path, targets[k].node_id));
            assert(answers(state.nodes[k], targets[k].path, targets[k].node_id));
        }
        assert forall|path: Seq<char>, id: Option<Seq<char>>| #[trigger]
            request.looks_up(path, id) implies is_found(request, nodes, path) by {
            assert(has_path(targets, path));
            let k = choose|k: int| 0 <= k < targets.len() && (#[trigger] targets[k]).path == path;
            assert(request.looks_up(path, targets[k].node_id));
            assert(answers(state.nodes[k], path, targets[k].node_id));
            assert(nodes[k] == state.nodes[k]);
        }
    }
}

} // verus!
