//! Which rewrites are refused before anything is written, and why.
use super::decision::RefineDecisionStatus;
use super::outcome_laws::merged_has_each_parent;
use super::rewrite::{
    is_consistent, is_relinked, link_change_is_plan_local, merged_changes, merged_from,
    sources_are_plan_markdown,
};
use super::rewrite_laws::{
    adds_child, has_addition, has_removal, merging_all_changes, removes_child,
};
use super::rewrite_types::{
    RefineRewriteErrorModel, RefineRewriteRequestModel, RefineRewriteResultModel,
};
use super::scope::is_unconfirmed;
use crate::files::{PlanFilesModel, PlanRootKind};
use crate::paths::is_plan_markdown;
use vstd::prelude::*;

verus! {

impl RefineRewriteRequestModel {
    /// A decision still waits for the user.
    pub open spec fn has_waiting_decision(self) -> bool {
        exists|i: int|
            0 <= i < self.decisions.len() && ((
            #[trigger] self.decisions[i]).confirmation.status
                == RefineDecisionStatus::AwaitingManualConfirmation
                || self.decisions[i].confirmation.status
                == RefineDecisionStatus::UserDecisionBlocked)
    }

    /// Every path of the request is that of a markdown file of the plan.
    pub open spec fn has_plan_paths(self) -> bool {
        let scope = self.rewrite_scope;
        &&& forall|i: int|
            0 <= i < scope.rewrite_targets.len() ==> is_plan_markdown(
                (#[trigger] scope.rewrite_targets[i]).relative_path,
            )
        &&& forall|i: int|
            0 <= i < scope.node_creations.len() ==> is_plan_markdown(
                (#[trigger] scope.node_creations[i]).relative_path,
            )
        &&& forall|i: int|
            0 <= i < scope.node_removals.len() ==> is_plan_markdown(
                (#[trigger] scope.node_removals[i]).relative_path,
            )
        &&& forall|i: int|
            0 <= i < scope.stale_descendants.len() ==> is_plan_markdown(
                (#[trigger] scope.stale_descendants[i]).relative_path,
            )
        &&& forall|i: int, j: int|
            #![trigger self.decisions[i].source_comments[j]]
            0 <= i < self.decisions.len() && 0 <= j < self.decisions[i].source_comments.len()
                ==> is_plan_markdown(self.decisions[i].source_comments[j].source_path)
        &&& forall|i: int|
            0 <= i < scope.link_changes.len() ==> is_plan_markdown(
                (#[trigger] scope.link_changes[i]).parent_relative_path,
            )
        &&& forall|i: int, j: int|
            #![trigger scope.link_changes[i].add_child_relative_paths[j]]
            0 <= i < scope.link_changes.len() && 0 <= j
                < scope.link_changes[i].add_child_relative_paths.len() ==> is_plan_markdown(
                scope.link_changes[i].add_child_relative_paths[j],
            )
        &&& forall|i: int, j: int|
            #![trigger scope.link_changes[i].remove_child_relative_paths[j]]
            0 <= i < scope.link_changes.len() && 0 <= j
                < scope.link_changes[i].remove_child_relative_paths.len() ==> is_plan_markdown(
                scope.link_changes[i].remove_child_relative_paths[j],
            )
    }

    /// No parent is to gain and to lose the same child.
    pub open spec fn has_clear_links(self) -> bool {
        forall|parent: Seq<char>, child: Seq<char>|
            !(#[trigger] adds_child(self.rewrite_scope.link_changes, parent, child, 0)
                && removes_child(self.rewrite_scope.link_changes, parent, child, 0))
    }

    /// A file stands at the path, or the request makes one there.
    pub open spec fn has_or_makes(self, files: PlanFilesModel, path: Seq<char>) -> bool {
        ||| files.is_file(path)
        ||| exists|i: int|
            0 <= i < self.rewrite_scope.node_creations.len() && (
            #[trigger] self.rewrite_scope.node_creations[i]).relative_path == path
    }

    /// Each parent whose links change and each child that it is to gain has a
    /// file or is to be made.
    pub open spec fn has_link_ends(self, files: PlanFilesModel) -> bool {
        let changes = self.rewrite_scope.link_changes;
        &&& forall|i: int|
            0 <= i < changes.len() ==> self.has_or_makes(
                files,
                (#[trigger] changes[i]).parent_relative_path,
            )
        &&& forall|i: int, j: int|
            #![trigger changes[i].add_child_relative_paths[j]]
            0 <= i < changes.len() && 0 <= j < changes[i].add_child_relative_paths.len()
                ==> self.has_or_makes(files, changes[i].add_child_relative_paths[j])
    }

    /// The scope of the rewrite is sound.
    pub open spec fn has_sound_scope(self, files: PlanFilesModel) -> bool {
        &&& self.rewrite_scope.conflicts.len() == 0
        &&& self.has_plan_paths()
        &&& self.has_clear_links()
        &&& self.has_link_ends(files)
    }
}

proof fn paths_are_of_the_plan(request: RefineRewriteRequestModel)
    ensures
        request.has_plan_paths() <==> request.rewrite_scope.paths_are_plan_markdown() && (forall|
            i: int,
        |
            0 <= i < request.decisions.len() ==> sources_are_plan_markdown(
                #[trigger] request.decisions[i],
            )) && (forall|i: int|
            0 <= i < request.rewrite_scope.link_changes.len() ==> link_change_is_plan_local(
                #[trigger] request.rewrite_scope.link_changes[i],
            )),
{
    let changes = request.rewrite_scope.link_changes;
    let decisions = request.decisions;
    if request.has_plan_paths() {
        assert forall|i: int| 0 <= i < decisions.len() implies sources_are_plan_markdown(
            #[trigger] decisions[i],
        ) by {
            assert forall|j: int| 0 <= j < decisions[i].source_comments.len() implies is_plan_markdown(
                (#[trigger] decisions[i].source_comments[j]).source_path,
            ) by {}
        }
        assert forall|i: int| 0 <= i < changes.len() implies link_change_is_plan_local(
            #[trigger] changes[i],
        ) by {
            assert forall|j: int| 0 <= j < changes[i].add_child_relative_paths.len() implies
                is_plan_markdown(#[trigger] changes[i].add_child_relative_paths[j]) by {}
            assert forall|j: int| 0 <= j < changes[i].remove_child_relative_paths.len() implies
                is_plan_markdown(#[trigger] changes[i].remove_child_relative_paths[j]) by {}
        }
    } else {
        if request.rewrite_scope.paths_are_plan_markdown() && (forall|i: int|
            0 <= i < decisions.len() ==> sources_are_plan_markdown(
                #[trigger] decisions[i],
            )) && (forall|i: int|
            0 <= i < changes.len() ==> link_change_is_plan_local(#[trigger] changes[i])) {
            assert forall|i: int, j: int|
                #![trigger decisions[i].source_comments[j]]
                0 <= i < decisions.len() && 0 <= j < decisions[i].source_comments.len() implies
                is_plan_markdown(decisions[i].source_comments[j].source_path) by {
                assert(sources_are_plan_markdown(decisions[i]));
            }
            assert forall|i: int, j: int|
                #![trigger changes[i].add_child_relative_paths[j]]
                0 <= i < changes.len() && 0 <= j < changes[i].add_child_relative_paths.len() implies
                is_plan_markdown(changes[i].add_child_relative_paths[j]) by {
                assert(link_change_is_plan_local(changes[i]));
            }
            assert forall|i: int, j: int|
                #![trigger changes[i].remove_child_relative_paths[j]]
                0 <= i < changes.len() && 0 <= j < changes[i].remove_child_relative_paths.len()
                implies is_plan_markdown(changes[i].remove_child_relative_paths[j]) by {
                assert(link_change_is_plan_local(changes[i]));
            }
            assert(false);
        }
    }
}

proof fn links_are_clear(request: RefineRewriteRequestModel)
    ensures
        request.has_clear_links() <==> forall|k: int|
            0 <= k < merged_from(request.rewrite_scope.link_changes, 0, Seq::empty()).len()
                ==> is_consistent(
                #[trigger] merged_from(request.rewrite_scope.link_changes, 0, Seq::empty())[k],
            ),
{
    let changes = request.rewrite_scope.link_changes;
    let merged = merged_from(changes, 0, Seq::empty());
    merging_all_changes(changes, 0, Seq::empty());
    if request.has_clear_links() {
        assert forall|k: int| 0 <= k < merged.len() implies is_consistent(#[trigger] merged[k]) by {
            let parent = merged[k].parent_relative_path;
            let adds = merged[k].add_child_relative_paths;
            assert forall|i: int| 0 <= i < adds.len() implies
                !merged[k].remove_child_relative_paths.contains(#[trigger] adds[i]) by {
                assert(has_addition(merged, parent, adds[i]));
                assert(adds_child(changes, parent, adds[i], 0));
                if merged[k].remove_child_relative_paths.contains(adds[i]) {
                    assert(has_removal(merged, parent, adds[i]));
                }
            }
        }
    }
    if forall|k: int| 0 <= k < merged.len() ==> is_consistent(#[trigger] merged[k]) {
        assert forall|parent: Seq<char>, child: Seq<char>|
            !(#[trigger] adds_child(changes, parent, child, 0) && removes_child(
                changes,
                parent,
                child,
                0,
            )) by {
            if adds_child(changes, parent, child, 0) && removes_child(changes, parent, child, 0) {
                assert(has_addition(merged, parent, child));
                assert(has_removal(merged, parent, child));
                let k = choose|k: int|
                    0 <= k < merged.len() && (#[trigger] merged[k]).parent_relative_path == parent
                        && merged[k].add_child_relative_paths.contains(child);
                let m = choose|m: int|
                    0 <= m < merged.len() && (#[trigger] merged[m]).parent_relative_path == parent
                        && merged[m].remove_child_relative_paths.contains(child);
                if k < m {
                    assert(merged[k].parent_relative_path != merged[m].parent_relative_path);
                } else if m < k {
                    assert(merged[m].parent_relative_path != merged[k].parent_relative_path);
                }
                assert(is_consistent(merged[k]));
                let adds = merged[k].add_child_relative_paths;
                let i = choose|i: int| 0 <= i < adds.len() && adds[i] == child;
                assert(!merged[k].remove_child_relative_paths.contains(adds[i]));
            }
        }
    }
}

proof fn link_ends_are_there(request: RefineRewriteRequestModel, files: PlanFilesModel)
    ensures
        request.has_link_ends(files) <==> forall|k: int|
            0 <= k < merged_from(request.rewrite_scope.link_changes, 0, Seq::empty()).len()
                ==> request.link_ends_exist(
                files,
                #[trigger] merged_from(request.rewrite_scope.link_changes, 0, Seq::empty())[k],
            ),
{
    let changes = request.rewrite_scope.link_changes;
    let merged = merged_from(changes, 0, Seq::empty());
    merging_all_changes(changes, 0, Seq::empty());
    if request.has_link_ends(files) {
        assert forall|k: int| 0 <= k < merged.len() implies request.link_ends_exist(
            files,
            #[trigger] merged[k],
        ) by {
            let parent = merged[k].parent_relative_path;
            let adds = merged[k].add_child_relative_paths;
            assert(is_relinked(changes, parent));
            let i = choose|i: int|
                0 <= i < changes.len() && (#[trigger] changes[i]).parent_relative_path == parent;
            assert(request.has_or_makes(files, changes[i].parent_relative_path));
            assert forall|j: int| 0 <= j < adds.len() implies request.will_exist(
                files,
                #[trigger] adds[j],
            ) by {
                assert(has_addition(merged, parent, adds[j]));
                assert(adds_child(changes, parent, adds[j], 0));
                let m = choose|m: int|
                    0 <= m < changes.len() && (#[trigger] changes[m]).parent_relative_path == parent
                        && changes[m].add_child_relative_paths.contains(adds[j]);
                let all = changes[m].add_child_relative_paths;
                let n = choose|n: int| 0 <= n < all.len() && all[n] == adds[j];
                assert(request.has_or_makes(files, changes[m].add_child_relative_paths[n]));
            }
        }
    }
    if forall|k: int|
        0 <= k < merged.len() ==> request.link_ends_exist(files, #[trigger] merged[k]) {
        assert forall|i: int| 0 <= i < changes.len() implies request.has_or_makes(
            files,
            (#[trigger] changes[i]).parent_relative_path,
        ) by {
            let parent = changes[i].parent_relative_path;
            merged_has_each_parent(changes, 0, Seq::empty(), parent);
            let k = choose|k: int|
                0 <= k < merged.len() && (#[trigger] merged[k]).parent_relative_path == parent;
            assert(request.link_ends_exist(files, merged[k]));
        }
        assert forall|i: int, j: int|
            #![trigger changes[i].add_child_relative_paths[j]]
            0 <= i < changes.len() && 0 <= j < changes[i].add_child_relative_paths.len() implies
            request.has_or_makes(files, changes[i].add_child_relative_paths[j]) by {
            let parent = changes[i].parent_relative_path;
            let child = changes[i].add_child_relative_paths[j];
            assert(changes[i].add_child_relative_paths.contains(child));
            assert(adds_child(changes, parent, child, 0));
            assert(has_addition(merged, parent, child));
            let k = choose|k: int|
                0 <= k < merged.len() && (#[trigger] merged[k]).parent_relative_path == parent
                    && merged[k].add_child_relative_paths.contains(child);
            let adds = merged[k].add_child_relative_paths;
            let m = choose|m: int| 0 <= m < adds.len() && adds[m] == child;
            assert(request.link_ends_exist(files, merged[k]));
            assert(request.will_exist(files, adds[m]));
        }
    }
}

/// The answer is this error.
pub open spec fn refused_as(
    result: Result<RefineRewriteResultModel, RefineRewriteErrorModel>,
    error: RefineRewriteErrorModel,
) -> bool {
    result matches Err(e) && e == error
}

/// A rewrite is refused, and nothing is written, where a decision still waits for
/// the user, where the plan has no directory, and where its scope is not sound: it
/// holds a conflict or a path that is not one of the plan, lets a parent gain and
/// lose the same child, or links what neither stands there nor is made. A rewrite
/// that is accepted is none of these.
pub proof fn unfit_rewrites_are_refused(
    request: RefineRewriteRequestModel,
    files: PlanFilesModel,
)
    ensures
        ({
            let (next, result) = request.applied(files);
            let fits = !request.has_waiting_decision() && request.plan_root.len() > 0 && files.root
                == PlanRootKind::Directory && request.has_sound_scope(files);
            &&& !fits ==> next == files
            &&& result is Ok ==> fits
            &&& request.has_waiting_decision() ==> refused_as(result, RefineRewriteErrorModel::UnauthorizedDecision)
            &&& !request.has_waiting_decision() && request.plan_root.len() == 0 ==> refused_as(result, RefineRewriteErrorModel::MissingPlanRoot)
            &&& !request.has_waiting_decision() && request.plan_root.len() > 0 && files.root
                != PlanRootKind::Directory ==> refused_as(result, RefineRewriteErrorModel::InvalidPlanRoot)
            &&& !request.has_waiting_decision() && request.plan_root.len() > 0 && files.root
                == PlanRootKind::Directory && !request.has_sound_scope(files) ==> refused_as(result, RefineRewriteErrorModel::InvalidRewriteScope)
        }),
{
    let changes = request.rewrite_scope.link_changes;
    let merged = merged_from(changes, 0, Seq::empty());
    paths_are_of_the_plan(request);
    links_are_clear(request);
    link_ends_are_there(request, files);
    let local = forall|i: int|
        0 <= i < changes.len() ==> link_change_is_plan_local(#[trigger] changes[i]);
    let clear = forall|k: int| 0 <= k < merged.len() ==> is_consistent(#[trigger] merged[k]);
    let ends = forall|k: int|
        0 <= k < merged.len() ==> request.link_ends_exist(files, #[trigger] merged[k]);
    assert(merged_changes(changes) is Some <==> local && clear);
    if local && clear {
        assert(merged_changes(changes) == Some(merged));
        if ends {
            assert forall|k: int| 0 <= k < merged.len() implies request.link_ends_exist(
                files,
                #[trigger] merged[k],
            ) by {}
            assert(request.links_are_sound(files));
        }
        if request.links_are_sound(files) {
            let found = merged_changes(changes)->0;
            assert forall|k: int| 0 <= k < merged.len() implies request.link_ends_exist(
                files,
                #[trigger] merged[k],
            ) by {
                assert(request.link_ends_exist(files, found[k]));
            }
        }
    }
    assert(request.links_are_sound(files) <==> local && clear && ends);
    let sources = forall|i: int|
        0 <= i < request.decisions.len() ==> sources_are_plan_markdown(
            #[trigger] request.decisions[i],
        );
    assert(request.has_plan_paths() <==> request.rewrite_scope.paths_are_plan_markdown() && sources
        && local);
    assert(request.has_sound_scope(files) <==> request.rewrite_scope.conflicts.len() == 0
        && request.rewrite_scope.paths_are_plan_markdown() && sources && request.links_are_sound(
        files,
    ));
    assert(request.has_waiting_decision() <==> request.is_unauthorized()) by {
        if request.has_waiting_decision() {
            let i = choose|i: int|
                0 <= i < request.decisions.len() && ((
                #[trigger] request.decisions[i]).confirmation.status
                    == RefineDecisionStatus::AwaitingManualConfirmation
                    || request.decisions[i].confirmation.status
                    == RefineDecisionStatus::UserDecisionBlocked);
            assert(is_unconfirmed(request.decisions[i].confirmation.status));
        }
    }
}

} // verus!
