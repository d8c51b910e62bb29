//! Applying a rewrite to the files of a plan.
use super::changes::{
    RefineChangedFile, RefineChangedFileKind, RefineChangedFileModel, RefineContextInvalidation,
    RefineContextInvalidationModel, RefineStaleNode, RefineStaleNodeModel, RefineStructuralChange,
    RefineStructuralChangeKind, RefineStructuralChangeModel, RefineUnchangedNode,
    RefineUnchangedNodeModel,
};
use super::decision::{
    ExpectedGateRevalidation, ExpectedGateRevalidationModel, RefineAffectedTrackedNode,
    RefineAffectedTrackedNodeModel, RefineCommentSource, RefineCommentSourceModel, RefineDecision,
    RefineDecisionModel, RefineRewriteAction, RefineRewriteActionKind, RefineRewriteActionModel,
};
use super::gate_targets::{push_all_unique, with_all_unique};
use super::markdown::{
    apply_stale_marker, contains_heading, first_heading_title, has_heading, link_rows,
    marked_stale, normalize_stale_reason, normalized_reason, parse_existing_child_links,
    relative_url, relative_url_from_parent_to_child, remove_comment_blocks, rendered_link,
    rewrite_child_nodes_section, title_from_name, title_from_path, title_of, with_child_section,
    without_comment_blocks, ChildLinkRow, ChildLinkRowModel, PreservedCommentBlock,
};
use super::rewrite_types::{
    RefineRewriteError, RefineRewriteErrorModel, RefineRewriteRequest, RefineRewriteRequestModel,
    RefineRewriteResult, RefineRewriteResultModel,
};
use super::scope::{
    is_unconfirmed, status_is_unconfirmed, RefineLinkChange, RefineLinkChangeModel,
    RefineNodeCreation, RefineNodeCreationModel, RefineNodeRemoval, RefineNodeRemovalModel,
    RefineRewriteScope, RefineRewriteScopeModel, RefineRewriteTarget, RefineRewriteTargetModel,
    RefineStaleDescendant, RefineStaleDescendantModel,
};
use super::summary::{build_refine_rewrite_summary, summary_of, RefineRewriteSummary};
use crate::error::outcome;
use crate::files::{PlanFiles, PlanFilesModel, PlanRootKind};
use crate::paths::{
    file_name, is_plan_markdown, join_path, joined_path, parent_path, path_file_name,
    path_is_plan_markdown, path_parent,
};
use crate::text::{concat2, concat3, concat5, copy_list, is_empty, is_text, list_has, same_text};
use vstd::prelude::*;

verus! {

/// The outcome of a step that may fail.
pub open spec fn step(problem: Option<RefineRewriteErrorModel>) -> Result<
    (),
    RefineRewriteErrorModel,
> {
    match problem {
        Some(error) => Err(error),
        None => Ok(()),
    }
}

// ---------------------------------------------------------------------
// Link changes
// ---------------------------------------------------------------------
/// All link changes of one parent.
struct MergedLinkChange {
    parent_relative_path: String,
    add_child_relative_paths: Vec<String>,
    remove_child_relative_paths: Vec<String>,
}

/// All link changes of one parent.
pub struct MergedLinkChangeModel {
    pub parent_relative_path: Seq<char>,
    pub add_child_relative_paths: Seq<Seq<char>>,
    pub remove_child_relative_paths: Seq<Seq<char>>,
}

impl DeepView for MergedLinkChange {
    type V = MergedLinkChangeModel;

    closed spec fn deep_view(&self) -> MergedLinkChangeModel {
        MergedLinkChangeModel {
            parent_relative_path: self.parent_relative_path@,
            add_child_relative_paths: self.add_child_relative_paths.deep_view(),
            remove_child_relative_paths: self.remove_child_relative_paths.deep_view(),
        }
    }
}

/// Every path is a markdown path of the plan.
pub open spec fn all_plan_markdown(paths: Seq<Seq<char>>) -> bool {
    forall|i: int| 0 <= i < paths.len() ==> is_plan_markdown(#[trigger] paths[i])
}

/// Every path of the change is a markdown path of the plan.
pub open spec fn link_change_is_plan_local(change: RefineLinkChangeModel) -> bool {
    &&& is_plan_markdown(change.parent_relative_path)
    &&& all_plan_markdown(change.add_child_relative_paths)
    &&& all_plan_markdown(change.remove_child_relative_paths)
}

/// The first merged change at or after `i` of this parent.
pub open spec fn merged_index_from(
    merged: Seq<MergedLinkChangeModel>,
    parent: Seq<char>,
    i: int,
) -> Option<int>
    decreases merged.len() - i,
{
    if i >= merged.len() {
        None
    } else if merged[i].parent_relative_path == parent {
        Some(i)
    } else {
        merged_index_from(merged, parent, i + 1)
    }
}

/// The merged changes with one more change: to the end of its parent's lists
/// goes what they do not hold yet.
pub open spec fn with_link_change(
    merged: Seq<MergedLinkChangeModel>,
    change: RefineLinkChangeModel,
) -> Seq<MergedLinkChangeModel> {
    match merged_index_from(merged, change.parent_relative_path, 0) {
        Some(k) => merged.update(
            k,
            MergedLinkChangeModel {
                parent_relative_path: merged[k].parent_relative_path,
                add_child_relative_paths: with_all_unique(
                    merged[k].add_child_relative_paths,
                    change.add_child_relative_paths,
                ),
                remove_child_relative_paths: with_all_unique(
                    merged[k].remove_child_relative_paths,
                    change.remove_child_relative_paths,
                ),
            },
        ),
        None => merged.push(
            MergedLinkChangeModel {
                parent_relative_path: change.parent_relative_path,
                add_child_relative_paths: with_all_unique(
                    Seq::empty(),
                    change.add_child_relative_paths,
                ),
                remove_child_relative_paths: with_all_unique(
                    Seq::empty(),
                    change.remove_child_relative_paths,
                ),
            },
        ),
    }
}

/// The merged changes with the changes from `i` on, parent by parent in the
/// order in which they first come.
pub open spec fn merged_from(
    changes: Seq<RefineLinkChangeModel>,
    i: int,
    acc: Seq<MergedLinkChangeModel>,
) -> Seq<MergedLinkChangeModel>
    decreases changes.len() - i,
{
    if i >= changes.len() {
        acc
    } else {
        merged_from(changes, i + 1, with_link_change(acc, changes[i]))
    }
}

/// No parent gains and loses the same child.
pub open spec fn is_consistent(change: MergedLinkChangeModel) -> bool {
    forall|i: int|
        0 <= i < change.add_child_relative_paths.len()
            ==> !change.remove_child_relative_paths.contains(
            #[trigger] change.add_child_relative_paths[i],
        )
}

/// The changes parent by parent, or nothing where a path is no markdown path
/// of the plan or a parent would gain and lose the same child.
pub open spec fn merged_changes(changes: Seq<RefineLinkChangeModel>) -> Option<
    Seq<MergedLinkChangeModel>,
> {
    let merged = merged_from(changes, 0, Seq::empty());
    if (forall|i: int|
        0 <= i < changes.len() ==> link_change_is_plan_local(#[trigger] changes[i])) && (forall|
        i: int,
    |
        0 <= i < merged.len() ==> is_consistent(#[trigger] merged[i])) {
        Some(merged)
    } else {
        None
    }
}

fn paths_are_plan_markdown(paths: &Vec<String>) -> (r: bool)
    ensures
        r == all_plan_markdown(paths.deep_view()),
{
    let ghost all = paths.deep_view();
    let mut i: usize = 0;
    while i < paths.len()
        invariant
            i <= paths.len(),
            all == paths.deep_view(),
            forall|k: int| 0 <= k < i ==> is_plan_markdown(#[trigger] all[k]),
        decreases paths.len() - i,
    {
        if !path_is_plan_markdown(paths[i].as_str()) {
            assert(!is_plan_markdown(all[i as int]));
            return false;
        }
        i = i + 1;
    }
    true
}

fn find_merged(merged: &Vec<MergedLinkChange>, parent: &str) -> (r: Option<usize>)
    ensures
        match r {
            Some(k) => k < merged.len() && merged_index_from(merged.deep_view(), parent@, 0)
                == Some(k as int),
            None => merged_index_from(merged.deep_view(), parent@, 0) is None,
        },
{
    let ghost all = merged.deep_view();
    let mut i: usize = 0;
    while i < merged.len()
        invariant
            i <= merged.len(),
            all == merged.deep_view(),
            merged_index_from(all, parent@, 0) == merged_index_from(all, parent@, i as int),
        decreases merged.len() - i,
    {
        assert(all[i as int] == merged@[i as int].deep_view());
        if same_text(merged[i].parent_relative_path.as_str(), parent) {
            return Some(i);
        }
        i = i + 1;
    }
    None
}

fn merge_link_change(merged: &mut Vec<MergedLinkChange>, change: &RefineLinkChange)
    ensures
        final(merged).deep_view() == with_link_change(old(merged).deep_view(), change.deep_view()),
{
    let ghost before = merged.deep_view();
    match find_merged(merged, change.parent_relative_path.as_str()) {
        Some(k) => {
            assert(before[k as int] == merged@[k as int].deep_view());
            let mut entry: MergedLinkChange = MergedLinkChange {
                parent_relative_path: merged[k].parent_relative_path.clone(),
                add_child_relative_paths: copy_list(&merged[k].add_child_relative_paths),
                remove_child_relative_paths: copy_list(&merged[k].remove_child_relative_paths),
            };
            push_all_unique(
                &mut entry.add_child_relative_paths,
                &change.add_child_relative_paths,
            );
            push_all_unique(
                &mut entry.remove_child_relative_paths,
                &change.remove_child_relative_paths,
            );
            let ghost model = entry.deep_view();
            merged.set(k, entry);
            assert(merged.deep_view() =~= before.update(k as int, model));
        },
        None => {
            let mut entry: MergedLinkChange = MergedLinkChange {
                parent_relative_path: change.parent_relative_path.clone(),
                add_child_relative_paths: Vec::new(),
                remove_child_relative_paths: Vec::new(),
            };
            assert(entry.add_child_relative_paths.deep_view() =~= Seq::empty());
            assert(entry.remove_child_relative_paths.deep_view() =~= Seq::empty());
            push_all_unique(
                &mut entry.add_child_relative_paths,
                &change.add_child_relative_paths,
            );
            push_all_unique(
                &mut entry.remove_child_relative_paths,
                &change.remove_child_relative_paths,
            );
            let ghost model = entry.deep_view();
            merged.push(entry);
            assert(merged.deep_view() =~= before.push(model));
        },
    }
}

fn change_is_consistent(change: &MergedLinkChange) -> (r: bool)
    ensures
        r == is_consistent(change.deep_view()),
{
    let ghost model = change.deep_view();
    let mut i: usize = 0;
    while i < change.add_child_relative_paths.len()
        invariant
            i <= change.add_child_relative_paths.len(),
            model == change.deep_view(),
            forall|k: int|
                0 <= k < i ==> !model.remove_child_relative_paths.contains(
                    #[trigger] model.add_child_relative_paths[k],
                ),
        decreases change.add_child_relative_paths.len() - i,
    {
        if list_has(
            &change.remove_child_relative_paths,
            change.add_child_relative_paths[i].as_str(),
        ) {
            assert(model.remove_child_relative_paths.contains(
                model.add_child_relative_paths[i as int],
            ));
            return false;
        }
        i = i + 1;
    }
    true
}

spec fn merged_view(r: Option<Vec<MergedLinkChange>>) -> Option<Seq<MergedLinkChangeModel>> {
    match r {
        Some(merged) => Some(merged.deep_view()),
        None => None,
    }
}

fn merge_link_changes(changes: &Vec<RefineLinkChange>) -> (r: Option<Vec<MergedLinkChange>>)
    ensures
        merged_view(r) == merged_changes(changes.deep_view()),
{
    let ghost all = changes.deep_view();
    let mut merged: Vec<MergedLinkChange> = Vec::new();
    let mut i: usize = 0;
    assert(merged.deep_view() =~= Seq::empty());
    while i < changes.len()
        invariant
            i <= changes.len(),
            all == changes.deep_view(),
            forall|k: int| 0 <= k < i ==> link_change_is_plan_local(#[trigger] all[k]),
            merged_from(all, 0, Seq::empty()) == merged_from(all, i as int, merged.deep_view()),
        decreases changes.len() - i,
    {
        let change: &RefineLinkChange = &changes[i];
        assert(all[i as int] == change.deep_view());
        if !(path_is_plan_markdown(change.parent_relative_path.as_str()) && paths_are_plan_markdown(
            &change.add_child_relative_paths,
        ) && paths_are_plan_markdown(&change.remove_child_relative_paths)) {
            assert(!link_change_is_plan_local(all[i as int]));
            return None;
        }
        merge_link_change(&mut merged, change);
        i = i + 1;
    }
    let ghost found = merged.deep_view();
    let mut k: usize = 0;
    while k < merged.len()
        invariant
            k <= merged.len(),
            all == changes.deep_view(),
            found == merged.deep_view(),
            found == merged_from(all, 0, Seq::empty()),
            forall|j: int| 0 <= j < k ==> is_consistent(#[trigger] found[j]),
        decreases merged.len() - k,
    {
        assert(found[k as int] == merged@[k as int].deep_view());
        if !change_is_consistent(&merged[k]) {
            assert(!is_consistent(found[k as int]));
            return None;
        }
        k = k + 1;
    }
    Some(merged)
}

// ---------------------------------------------------------------------
// Looking before anything is written
// ---------------------------------------------------------------------
/// Every source path of the decision is a markdown path of the plan.
pub open spec fn sources_are_plan_markdown(decision: RefineDecisionModel) -> bool {
    forall|i: int|
        0 <= i < decision.source_comments.len() ==> is_plan_markdown(
            (#[trigger] decision.source_comments[i]).source_path,
        )
}

/// A node at this path is to be made.
pub open spec fn is_created(creations: Seq<RefineNodeCreationModel>, path: Seq<char>) -> bool {
    exists|i: int|
        0 <= i < creations.len() && (#[trigger] creations[i]).relative_path == path
}

/// A target of the rewrite stands at this path.
pub open spec fn is_target(targets: Seq<RefineRewriteTargetModel>, path: Seq<char>) -> bool {
    exists|i: int| 0 <= i < targets.len() && (#[trigger] targets[i]).relative_path == path
}

/// A node at this path is to be removed.
pub open spec fn is_removed(removals: Seq<RefineNodeRemovalModel>, path: Seq<char>) -> bool {
    exists|i: int| 0 <= i < removals.len() && (#[trigger] removals[i]).relative_path == path
}

/// A node at this path is to be marked stale.
pub open spec fn is_stale(stale: Seq<RefineStaleDescendantModel>, path: Seq<char>) -> bool {
    exists|i: int| 0 <= i < stale.len() && (#[trigger] stale[i]).relative_path == path
}

/// The links of the parent at this path are to be changed.
pub open spec fn is_relinked(changes: Seq<RefineLinkChangeModel>, path: Seq<char>) -> bool {
    exists|i: int|
        0 <= i < changes.len() && (#[trigger] changes[i]).parent_relative_path == path
}

impl RefineRewriteScopeModel {
    /// Every path of the scope is a markdown path of the plan.
    pub open spec fn paths_are_plan_markdown(self) -> bool {
        &&& forall|i: int|
            0 <= i < self.rewrite_targets.len() ==> is_plan_markdown(
                (#[trigger] self.rewrite_targets[i]).relative_path,
            )
        &&& forall|i: int|
            0 <= i < self.node_creations.len() ==> is_plan_markdown(
                (#[trigger] self.node_creations[i]).relative_path,
            )
        &&& forall|i: int|
            0 <= i < self.node_removals.len() ==> is_plan_markdown(
                (#[trigger] self.node_removals[i]).relative_path,
            )
        &&& forall|i: int|
            0 <= i < self.stale_descendants.len() ==> is_plan_markdown(
                (#[trigger] self.stale_descendants[i]).relative_path,
            )
    }
}

impl RefineRewriteRequestModel {
    /// A file stands at the path, or one is to be made there.
    pub open spec fn will_exist(self, files: PlanFilesModel, path: Seq<char>) -> bool {
        is_created(self.rewrite_scope.node_creations, path) || files.is_file(path)
    }

    /// The parent of a link change and the children that it gains exist or
    /// are to be made.
    pub open spec fn link_ends_exist(self, files: PlanFilesModel, change: MergedLinkChangeModel) -> bool {
        &&& self.will_exist(files, change.parent_relative_path)
        &&& forall|i: int|
            0 <= i < change.add_child_relative_paths.len() ==> self.will_exist(
                files,
                #[trigger] change.add_child_relative_paths[i],
            )
    }

    /// The links can be changed as asked.
    pub open spec fn links_are_sound(self, files: PlanFilesModel) -> bool {
        match merged_changes(self.rewrite_scope.link_changes) {
            None => false,
            Some(merged) => forall|i: int|
                0 <= i < merged.len() ==> self.link_ends_exist(files, #[trigger] merged[i]),
        }
    }

    /// One of the decisions is not cleared.
    pub open spec fn is_unauthorized(self) -> bool {
        exists|i: int|
            0 <= i < self.decisions.len() && is_unconfirmed(
                (#[trigger] self.decisions[i]).confirmation.status,
            )
    }

    /// What speaks against the rewrite before anything is written.
    pub open spec fn problem(self, files: PlanFilesModel) -> Option<RefineRewriteErrorModel> {
        if self.is_unauthorized() {
            Some(RefineRewriteErrorModel::UnauthorizedDecision)
        } else if self.plan_root.len() == 0 {
            Some(RefineRewriteErrorModel::MissingPlanRoot)
        } else if files.root != PlanRootKind::Directory {
            Some(RefineRewriteErrorModel::InvalidPlanRoot)
        } else if self.rewrite_scope.conflicts.len() > 0
            || !self.rewrite_scope.paths_are_plan_markdown() || !(forall|i: int|
            0 <= i < self.decisions.len() ==> sources_are_plan_markdown(
                #[trigger] self.decisions[i],
            )) || !self.links_are_sound(files) {
            Some(RefineRewriteErrorModel::InvalidRewriteScope)
        } else {
            None
        }
    }
}

fn path_is_created(creations: &Vec<RefineNodeCreation>, path: &str) -> (r: bool)
    ensures
        r == is_created(creations.deep_view(), path@),
{
    let ghost all = creations.deep_view();
    let mut i: usize = 0;
    while i < creations.len()
        invariant
            i <= creations.len(),
            all == creations.deep_view(),
            forall|k: int| 0 <= k < i ==> (#[trigger] all[k]).relative_path != path@,
        decreases creations.len() - i,
    {
        assert(all[i as int] == creations@[i as int].deep_view());
        if same_text(creations[i].relative_path.as_str(), path) {
            return true;
        }
        i = i + 1;
    }
    false
}

fn path_is_target(targets: &Vec<RefineRewriteTarget>, path: &str) -> (r: bool)
    ensures
        r == is_target(targets.deep_view(), path@),
{
    let ghost all = targets.deep_view();
    let mut i: usize = 0;
    while i < targets.len()
        invariant
            i <= targets.len(),
            all == targets.deep_view(),
            forall|k: int| 0 <= k < i ==> (#[trigger] all[k]).relative_path != path@,
        decreases targets.len() - i,
    {
        assert(all[i as int] == targets@[i as int].deep_view());
        if same_text(targets[i].relative_path.as_str(), path) {
            return true;
        }
        i = i + 1;
    }
    false
}

fn path_is_removed(removals: &Vec<RefineNodeRemoval>, path: &str) -> (r: bool)
    ensures
        r == is_removed(removals.deep_view(), path@),
{
    let ghost all = removals.deep_view();
    let mut i: usize = 0;
    while i < removals.len()
        invariant
            i <= removals.len(),
            all == removals.deep_view(),
            forall|k: int| 0 <= k < i ==> (#[trigger] all[k]).relative_path != path@,
        decreases removals.len() - i,
    {
        assert(all[i as int] == removals@[i as int].deep_view());
        if same_text(removals[i].relative_path.as_str(), path) {
            return true;
        }
        i = i + 1;
    }
    false
}

fn path_is_stale(stale: &Vec<RefineStaleDescendant>, path: &str) -> (r: bool)
    ensures
        r == is_stale(stale.deep_view(), path@),
{
    let ghost all = stale.deep_view();
    let mut i: usize = 0;
    while i < stale.len()
        invariant
            i <= stale.len(),
            all == stale.deep_view(),
            forall|k: int| 0 <= k < i ==> (#[trigger] all[k]).relative_path != path@,
        decreases stale.len() - i,
    {
        assert(all[i as int] == stale@[i as int].deep_view());
        if same_text(stale[i].relative_path.as_str(), path) {
            return true;
        }
        i = i + 1;
    }
    false
}

fn path_is_relinked(changes: &Vec<RefineLinkChange>, path: &str) -> (r: bool)
    ensures
        r == is_relinked(changes.deep_view(), path@),
{
    let ghost all = changes.deep_view();
    let mut i: usize = 0;
    while i < changes.len()
        invariant
            i <= changes.len(),
            all == changes.deep_view(),
            forall|k: int| 0 <= k < i ==> (#[trigger] all[k]).parent_relative_path != path@,
        decreases changes.len() - i,
    {
        assert(all[i as int] == changes@[i as int].deep_view());
        if same_text(changes[i].parent_relative_path.as_str(), path) {
            return true;
        }
        i = i + 1;
    }
    false
}

fn scope_paths_are_plan_markdown(scope: &RefineRewriteScope) -> (r: bool)
    ensures
        r == scope.deep_view().paths_are_plan_markdown(),
{
    let ghost model = scope.deep_view();
    let mut i: usize = 0;
    while i < scope.rewrite_targets.len()
        invariant
            i <= scope.rewrite_targets.len(),
            model == scope.deep_view(),
            forall|k: int|
                0 <= k < i ==> is_plan_markdown(
                    (#[trigger] model.rewrite_targets[k]).relative_path,
                ),
        decreases scope.rewrite_targets.len() - i,
    {
        assert(model.rewrite_targets[i as int] == scope.rewrite_targets@[i as int].deep_view());
        if !path_is_plan_markdown(scope.rewrite_targets[i].relative_path.as_str()) {
            return false;
        }
        i = i + 1;
    }
    let mut j: usize = 0;
    while j < scope.node_creations.len()
        invariant
            j <= scope.node_creations.len(),
            model == scope.deep_view(),
            forall|k: int|
                0 <= k < j ==> is_plan_markdown((#[trigger] model.node_creations[k]).relative_path),
        decreases scope.node_creations.len() - j,
    {
        assert(model.node_creations[j as int] == scope.node_creations@[j as int].deep_view());
        if !path_is_plan_markdown(scope.node_creations[j].relative_path.as_str()) {
            return false;
        }
        j = j + 1;
    }
    let mut m: usize = 0;
    while m < scope.node_removals.len()
        invariant
            m <= scope.node_removals.len(),
            model == scope.deep_view(),
            forall|k: int|
                0 <= k < m ==> is_plan_markdown((#[trigger] model.node_removals[k]).relative_path),
        decreases scope.node_removals.len() - m,
    {
        assert(model.node_removals[m as int] == scope.node_removals@[m as int].deep_view());
        if !path_is_plan_markdown(scope.node_removals[m].relative_path.as_str()) {
            return false;
        }
        m = m + 1;
    }
    let mut n: usize = 0;
    while n < scope.stale_descendants.len()
        invariant
            n <= scope.stale_descendants.len(),
            model == scope.deep_view(),
            forall|k: int|
                0 <= k < n ==> is_plan_markdown(
                    (#[trigger] model.stale_descendants[k]).relative_path,
                ),
        decreases scope.stale_descendants.len() - n,
    {
        assert(model.stale_descendants[n as int]
            == scope.stale_descendants@[n as int].deep_view());
        if !path_is_plan_markdown(scope.stale_descendants[n].relative_path.as_str()) {
            return false;
        }
        n = n + 1;
    }
    true
}

fn decision_sources_are_plan_markdown(decision: &RefineDecision) -> (r: bool)
    ensures
        r == sources_are_plan_markdown(decision.deep_view()),
{
    let ghost model = decision.deep_view();
    let mut i: usize = 0;
    while i < decision.source_comments.len()
        invariant
            i <= decision.source_comments.len(),
            model == decision.deep_view(),
            forall|k: int|
                0 <= k < i ==> is_plan_markdown((#[trigger] model.source_comments[k]).source_path),
        decreases decision.source_comments.len() - i,
    {
        assert(model.source_comments[i as int]
            == decision.source_comments@[i as int].deep_view());
        if !path_is_plan_markdown(decision.source_comments[i].source_path.as_str()) {
            return false;
        }
        i = i + 1;
    }
    true
}

fn path_exists_or_is_planned_creation(
    request: &RefineRewriteRequest,
    files: &PlanFiles,
    path: &str,
) -> (r: bool)
    ensures
        r == request.deep_view().will_exist(files.deep_view(), path@),
{
    path_is_created(&request.rewrite_scope.node_creations, path) || files.is_file(path)
}

fn merged_ends_exist(
    request: &RefineRewriteRequest,
    files: &PlanFiles,
    change: &MergedLinkChange,
) -> (r: bool)
    ensures
        r == request.deep_view().link_ends_exist(files.deep_view(), change.deep_view()),
{
    let ghost model = change.deep_view();
    if !path_exists_or_is_planned_creation(request, files, change.parent_relative_path.as_str()) {
        return false;
    }
    let mut i: usize = 0;
    while i < change.add_child_relative_paths.len()
        invariant
            i <= change.add_child_relative_paths.len(),
            model == change.deep_view(),
            forall|k: int|
                0 <= k < i ==> request.deep_view().will_exist(
                    files.deep_view(),
                    #[trigger] model.add_child_relative_paths[k],
                ),
        decreases change.add_child_relative_paths.len() - i,
    {
        let child: &str = change.add_child_relative_paths[i].as_str();
        assert(model.add_child_relative_paths[i as int] == child@);
        if !path_exists_or_is_planned_creation(request, files, child) {
            return false;
        }
        i = i + 1;
    }
    true
}

fn prevalidate_rewrite_link_updates(request: &RefineRewriteRequest, files: &PlanFiles) -> (r: bool)
    ensures
        r == request.deep_view().links_are_sound(files.deep_view()),
{
    let merged: Vec<MergedLinkChange> = match merge_link_changes(
        &request.rewrite_scope.link_changes,
    ) {
        Some(merged) => merged,
        None => {
            return false;
        },
    };
    let ghost all = merged.deep_view();
    let mut i: usize = 0;
    while i < merged.len()
        invariant
            i <= merged.len(),
            all == merged.deep_view(),
            merged_changes(request.deep_view().rewrite_scope.link_changes) == Some(all),
            forall|k: int|
                0 <= k < i ==> request.deep_view().link_ends_exist(
                    files.deep_view(),
                    #[trigger] all[k],
                ),
        decreases merged.len() - i,
    {
        assert(all[i as int] == merged@[i as int].deep_view());
        if !merged_ends_exist(request, files, &merged[i]) {
            proof {
                let model = request.deep_view();
                let disk = files.deep_view();
                assert(!model.link_ends_exist(disk, all[i as int]));
                assert(0 <= i < all.len());
                assert(!model.links_are_sound(disk)) by {
                    let found = merged_changes(model.rewrite_scope.link_changes);
                    assert(found == Some(all));
                    if model.links_are_sound(disk) {
                        assert(model.link_ends_exist(disk, found->0[i as int]));
                    }
                }
            }
            return false;
        }
        i = i + 1;
    }
    true
}

fn ensure_rewrite_application_confirmed(request: &RefineRewriteRequest) -> (r: bool)
    ensures
        r == !request.deep_view().is_unauthorized(),
{
    let ghost model = request.deep_view();
    let mut i: usize = 0;
    while i < request.decisions.len()
        invariant
            i <= request.decisions.len(),
            model == request.deep_view(),
            forall|k: int|
                0 <= k < i ==> !is_unconfirmed(
                    (#[trigger] model.decisions[k]).confirmation.status,
                ),
        decreases request.decisions.len() - i,
    {
        assert(model.decisions[i as int] == request.decisions@[i as int].deep_view());
        if status_is_unconfirmed(request.decisions[i].confirmation.status) {
            return false;
        }
        i = i + 1;
    }
    true
}

fn validate_refine_rewrite_request(request: &RefineRewriteRequest, files: &PlanFiles) -> (r: Result<
    (),
    RefineRewriteError,
>)
    ensures
        outcome(r) == step(request.deep_view().problem(files.deep_view())),
{
    if !ensure_rewrite_application_confirmed(request) {
        return Err(RefineRewriteError::UnauthorizedDecision);
    }
    if is_empty(request.plan_root.as_str()) {
        return Err(RefineRewriteError::MissingPlanRoot);
    }
    if files.root_kind() != PlanRootKind::Directory {
        return Err(RefineRewriteError::InvalidPlanRoot);
    }
    if request.rewrite_scope.conflicts.len() > 0 || !scope_paths_are_plan_markdown(
        &request.rewrite_scope,
    ) {
        return Err(RefineRewriteError::InvalidRewriteScope);
    }
    let ghost model = request.deep_view();
    let ghost disk = files.deep_view();
    let mut i: usize = 0;
    while i < request.decisions.len()
        invariant
            i <= request.decisions.len(),
            model == request.deep_view(),
            disk == files.deep_view(),
            !model.is_unauthorized(),
            model.plan_root.len() > 0,
            disk.root == PlanRootKind::Directory,
            forall|k: int|
                0 <= k < i ==> sources_are_plan_markdown(#[trigger] model.decisions[k]),
        decreases request.decisions.len() - i,
    {
        assert(model.decisions[i as int] == request.decisions@[i as int].deep_view());
        if !decision_sources_are_plan_markdown(&request.decisions[i]) {
            assert(!sources_are_plan_markdown(model.decisions[i as int]));
            return Err(RefineRewriteError::InvalidRewriteScope);
        }
        i = i + 1;
    }
    if !prevalidate_rewrite_link_updates(request, files) {
        return Err(RefineRewriteError::InvalidRewriteScope);
    }
    Ok(())
}

// ---------------------------------------------------------------------
// Reading and writing
// ---------------------------------------------------------------------
impl RefineRewriteRequestModel {
    /// The file at the path cannot be read, written or removed.
    pub open spec fn io_error(self, path: Seq<char>, source: Seq<char>) -> RefineRewriteErrorModel {
        RefineRewriteErrorModel::Io { path: joined_path(self.plan_root, path), source }
    }

    /// The text at the path.
    pub open spec fn read(self, files: PlanFilesModel, path: Seq<char>) -> Result<
        Seq<char>,
        RefineRewriteErrorModel,
    > {
        match files.read(path) {
            Ok(text) => Ok(text),
            Err(source) => Err(self.io_error(path, source)),
        }
    }

    /// The error that the system gives for the directory of a path.
    pub open spec fn directory_error(self, path: Seq<char>, source: Seq<char>) -> RefineRewriteErrorModel {
        let full = joined_path(self.plan_root, path);
        RefineRewriteErrorModel::Io {
            path: match parent_path(full) {
                Some(directory) => directory,
                None => full,
            },
            source,
        }
    }

    /// The files after an attempt to write, and why it failed.
    pub open spec fn write(self, files: PlanFilesModel, path: Seq<char>, text: Seq<char>) -> (
        PlanFilesModel,
        Option<RefineRewriteErrorModel>,
    ) {
        if !is_plan_markdown(path) {
            (files, Some(RefineRewriteErrorModel::InvalidRewriteScope))
        } else {
            match files.directory_problem(path) {
                Some(source) => (files, Some(self.directory_error(path, source))),
                None => {
                    let (next, problem) = files.write(path, text);
                    match problem {
                        Some(source) => (next, Some(self.io_error(path, source))),
                        None => (next, None),
                    }
                },
            }
        }
    }
}

fn io_error(request: &RefineRewriteRequest, path: &str, source: String) -> (r: RefineRewriteError)
    ensures
        r.deep_view() == request.deep_view().io_error(path@, source@),
{
    RefineRewriteError::Io { path: join_path(request.plan_root.as_str(), path), source }
}

fn read_plan_markdown(request: &RefineRewriteRequest, files: &PlanFiles, path: &str) -> (r: Result<
    String,
    RefineRewriteError,
>)
    ensures
        outcome(r) == request.deep_view().read(files.deep_view(), path@),
{
    match files.read(path) {
        Ok(text) => Ok(text),
        Err(source) => Err(io_error(request, path, source)),
    }
}

fn write_plan_file(
    request: &RefineRewriteRequest,
    files: &mut PlanFiles,
    path: &str,
    text: &str,
) -> (r: Result<(), RefineRewriteError>)
    ensures
        final(files).deep_view() == request.deep_view().write(
            old(files).deep_view(),
            path@,
            text@,
        ).0,
        outcome(r) == step(
            request.deep_view().write(old(files).deep_view(), path@, text@).1,
        ),
{
    if !path_is_plan_markdown(path) {
        return Err(RefineRewriteError::InvalidRewriteScope);
    }
    match files.directory_problem(path) {
        Some(source) => {
            let full: String = join_path(request.plan_root.as_str(), path);
            let directory: String = match path_parent(full.as_str()) {
                Some(directory) => directory,
                None => full,
            };
            return Err(RefineRewriteError::Io { path: directory, source });
        },
        None => {},
    }
    match files.write(path, text) {
        Some(source) => Err(io_error(request, path, source)),
        None => Ok(()),
    }
}

// ---------------------------------------------------------------------
// Comments that were dealt with
// ---------------------------------------------------------------------
/// The blocks of a file that stay, from source `i` on, after those in `acc`.
pub open spec fn preserved_in_from(
    sources: Seq<RefineCommentSourceModel>,
    path: Seq<char>,
    i: int,
    acc: Seq<(usize, usize)>,
) -> Seq<(usize, usize)>
    decreases sources.len() - i,
{
    if i >= sources.len() {
        acc
    } else if sources[i].source_path == path {
        preserved_in_from(
            sources,
            path,
            i + 1,
            acc.push((sources[i].begin_comment_line, sources[i].end_comment_line)),
        )
    } else {
        preserved_in_from(sources, path, i + 1, acc)
    }
}

/// The blocks of a file that stay for the decisions from `i` on, after those
/// in `acc`.
pub open spec fn preserved_from(
    decisions: Seq<RefineDecisionModel>,
    path: Seq<char>,
    i: int,
    acc: Seq<(usize, usize)>,
) -> Seq<(usize, usize)>
    decreases decisions.len() - i,
{
    if i >= decisions.len() {
        acc
    } else {
        preserved_from(
            decisions,
            path,
            i + 1,
            preserved_in_from(decisions[i].source_comments, path, 0, acc),
        )
    }
}

/// The source paths of the decisions from `i` on, after those in `acc`, each
/// once.
pub open spec fn source_paths_from(
    decisions: Seq<RefineDecisionModel>,
    i: int,
    acc: Seq<Seq<char>>,
) -> Seq<Seq<char>>
    decreases decisions.len() - i,
{
    if i >= decisions.len() {
        acc
    } else {
        source_paths_from(
            decisions,
            i + 1,
            with_all_unique(acc, comment_paths(decisions[i].source_comments)),
        )
    }
}

/// The paths of the sources.
pub open spec fn comment_paths(sources: Seq<RefineCommentSourceModel>) -> Seq<Seq<char>> {
    Seq::new(sources.len(), |i: int| sources[i].source_path)
}

/// The paths of the targets.
pub open spec fn target_paths(targets: Seq<RefineRewriteTargetModel>) -> Seq<Seq<char>> {
    Seq::new(targets.len(), |i: int| targets[i].relative_path)
}

/// The paths of the nodes to mark stale.
pub open spec fn stale_paths(stale: Seq<RefineStaleDescendantModel>) -> Seq<Seq<char>> {
    Seq::new(stale.len(), |i: int| stale[i].relative_path)
}

/// The paths of the parents whose links change.
pub open spec fn relinked_paths(changes: Seq<RefineLinkChangeModel>) -> Seq<Seq<char>> {
    Seq::new(changes.len(), |i: int| changes[i].parent_relative_path)
}

/// The first text at or after `i` for this path.
pub open spec fn payload_from(
    payloads: Seq<(Seq<char>, Seq<char>)>,
    path: Seq<char>,
    i: int,
) -> Option<Seq<char>>
    decreases payloads.len() - i,
{
    if i >= payloads.len() {
        None
    } else if payloads[i].0 == path {
        Some(payloads[i].1)
    } else {
        payload_from(payloads, path, i + 1)
    }
}

impl RefineRewriteRequestModel {
    /// The blocks of a file that stay: those of the decisions that wait.
    pub open spec fn preserved(self, path: Seq<char>) -> Seq<(usize, usize)> {
        preserved_from(self.blocked_follow_ups, path, 0, Seq::empty())
    }

    /// The files that comments are taken out of, each once.
    pub open spec fn cleanup_paths(self) -> Seq<Seq<char>> {
        let scope = self.rewrite_scope;
        source_paths_from(
            self.decisions,
            0,
            with_all_unique(
                with_all_unique(
                    with_all_unique(Seq::empty(), target_paths(scope.rewrite_targets)),
                    stale_paths(scope.stale_descendants),
                ),
                relinked_paths(scope.link_changes),
            ),
        )
    }

    /// A later step writes or removes the file at this path.
    pub open spec fn is_mutated_later(self, path: Seq<char>) -> bool {
        let scope = self.rewrite_scope;
        ||| is_target(scope.rewrite_targets, path)
        ||| is_created(scope.node_creations, path)
        ||| is_removed(scope.node_removals, path)
        ||| is_stale(scope.stale_descendants, path)
        ||| is_relinked(scope.link_changes, path)
    }

    /// The files after comments were taken out of those from `i` on, and the
    /// texts without them, after those in `acc`.
    pub open spec fn cleaned_from(
        self,
        files: PlanFilesModel,
        paths: Seq<Seq<char>>,
        i: int,
        acc: Seq<(Seq<char>, Seq<char>)>,
    ) -> (PlanFilesModel, Result<Seq<(Seq<char>, Seq<char>)>, RefineRewriteErrorModel>)
        decreases paths.len() - i,
    {
        if i >= paths.len() {
            (files, Ok(acc))
        } else if !files.is_file(paths[i]) {
            self.cleaned_from(files, paths, i + 1, acc)
        } else {
            match self.read(files, paths[i]) {
                Err(error) => (files, Err(error)),
                Ok(markdown) => match without_comment_blocks(
                    paths[i],
                    markdown,
                    self.preserved(paths[i]),
                ) {
                    Err(error) => (files, Err(error)),
                    Ok(clean) => if clean != markdown && !self.is_mutated_later(paths[i]) {
                        let (next, problem) = self.write(files, paths[i], clean);
                        match problem {
                            Some(error) => (next, Err(error)),
                            None => self.cleaned_from(next, paths, i + 1, acc.push((paths[i], clean))),
                        }
                    } else {
                        self.cleaned_from(files, paths, i + 1, acc.push((paths[i], clean)))
                    },
                },
            }
        }
    }

    /// The text that the last action with one gives the file at this path,
    /// among the first `n` decisions.
    pub open spec fn replacement(self, path: Seq<char>, n: int) -> Option<Seq<char>>
        decreases n,
    {
        if n <= 0 {
            None
        } else {
            match replacement_in(
                self.decisions[n - 1].rewrite_actions,
                path,
                self.decisions[n - 1].rewrite_actions.len() as int,
            ) {
                Some(text) => Some(text),
                None => self.replacement(path, n - 1),
            }
        }
    }

    /// The new text for the file at this path, without comments.
    pub open spec fn clean_replacement(self, path: Seq<char>) -> Result<
        Option<Seq<char>>,
        RefineRewriteErrorModel,
    > {
        match self.replacement(path, self.decisions.len() as int) {
            None => Ok(None),
            Some(markdown) => match without_comment_blocks(path, markdown, self.preserved(path)) {
                Err(error) => Err(error),
                Ok(clean) => Ok(Some(clean)),
            },
        }
    }

    /// The text at the path without comments, or as it is on disk.
    pub open spec fn clean_or_disk(
        self,
        files: PlanFilesModel,
        payloads: Seq<(Seq<char>, Seq<char>)>,
        path: Seq<char>,
    ) -> Result<Seq<char>, RefineRewriteErrorModel> {
        match payload_from(payloads, path, 0) {
            Some(text) => Ok(text),
            None => self.read(files, path),
        }
    }
}

/// The text that the last of the first `n` actions with one gives the file at
/// this path.
pub open spec fn replacement_in(actions: Seq<RefineRewriteActionModel>, path: Seq<char>, n: int) -> Option<
    Seq<char>,
>
    decreases n,
{
    if n <= 0 {
        None
    } else if actions[n - 1].target_relative_path == Some(path)
        && actions[n - 1].replacement_markdown is Some {
        actions[n - 1].replacement_markdown
    } else {
        replacement_in(actions, path, n - 1)
    }
}

fn preserved_comment_blocks_for_path(request: &RefineRewriteRequest, path: &str) -> (r: Vec<
    PreservedCommentBlock,
>)
    ensures
        r.deep_view() == request.deep_view().preserved(path@),
{
    let ghost all = request.blocked_follow_ups.deep_view();
    let mut out: Vec<PreservedCommentBlock> = Vec::new();
    let mut i: usize = 0;
    assert(out.deep_view() =~= Seq::empty());
    while i < request.blocked_follow_ups.len()
        invariant
            i <= request.blocked_follow_ups.len(),
            all == request.blocked_follow_ups.deep_view(),
            preserved_from(all, path@, 0, Seq::empty()) == preserved_from(
                all,
                path@,
                i as int,
                out.deep_view(),
            ),
        decreases request.blocked_follow_ups.len() - i,
    {
        let decision: &RefineDecision = &request.blocked_follow_ups[i];
        assert(all[i as int] == decision.deep_view());
        let ghost sources = decision.source_comments.deep_view();
        let ghost start = out.deep_view();
        let mut k: usize = 0;
        while k < decision.source_comments.len()
            invariant
                k <= decision.source_comments.len(),
                sources == decision.source_comments.deep_view(),
                preserved_in_from(sources, path@, 0, start) == preserved_in_from(
                    sources,
                    path@,
                    k as int,
                    out.deep_view(),
                ),
            decreases decision.source_comments.len() - k,
        {
            let source: &RefineCommentSource = &decision.source_comments[k];
            assert(sources[k as int] == source.deep_view());
            if same_text(source.source_path.as_str(), path) {
                let ghost before = out.deep_view();
                out.push(
                    PreservedCommentBlock {
                        start_line: source.begin_comment_line,
                        end_line: source.end_comment_line,
                    },
                );
                assert(out.deep_view() =~= before.push(
                    (source.begin_comment_line, source.end_comment_line),
                ));
            }
            k = k + 1;
        }
        i = i + 1;
    }
    out
}

fn comment_cleanup_paths(request: &RefineRewriteRequest) -> (r: Vec<String>)
    ensures
        r.deep_view() == request.deep_view().cleanup_paths(),
{
    let scope: &RefineRewriteScope = &request.rewrite_scope;
    let ghost model = request.deep_view();
    let mut found: Vec<String> = Vec::new();
    assert(found.deep_view() =~= Seq::empty());

    let mut paths: Vec<String> = Vec::new();
    let mut i: usize = 0;
    while i < scope.rewrite_targets.len()
        invariant
            i <= scope.rewrite_targets.len(),
            paths.deep_view() == target_paths(scope.rewrite_targets.deep_view()).take(i as int),
        decreases scope.rewrite_targets.len() - i,
    {
        let ghost before = paths.deep_view();
        paths.push(scope.rewrite_targets[i].relative_path.clone());
        assert(paths.deep_view() =~= before.push(scope.rewrite_targets@[i as int].relative_path@));
        i = i + 1;
        assert(paths.deep_view() =~= target_paths(scope.rewrite_targets.deep_view()).take(
            i as int,
        ));
    }
    assert(paths.deep_view() =~= target_paths(scope.rewrite_targets.deep_view()));
    push_all_unique(&mut found, &paths);

    let mut stale: Vec<String> = Vec::new();
    let mut j: usize = 0;
    while j < scope.stale_descendants.len()
        invariant
            j <= scope.stale_descendants.len(),
            stale.deep_view() == stale_paths(scope.stale_descendants.deep_view()).take(j as int),
        decreases scope.stale_descendants.len() - j,
    {
        let ghost before = stale.deep_view();
        stale.push(scope.stale_descendants[j].relative_path.clone());
        assert(stale.deep_view() =~= before.push(
            scope.stale_descendants@[j as int].relative_path@,
        ));
        j = j + 1;
        assert(stale.deep_view() =~= stale_paths(scope.stale_descendants.deep_view()).take(
            j as int,
        ));
    }
    assert(stale.deep_view() =~= stale_paths(scope.stale_descendants.deep_view()));
    push_all_unique(&mut found, &stale);

    let mut parents: Vec<String> = Vec::new();
    let mut k: usize = 0;
    while k < scope.link_changes.len()
        invariant
            k <= scope.link_changes.len(),
            parents.deep_view() == relinked_paths(scope.link_changes.deep_view()).take(k as int),
        decreases scope.link_changes.len() - k,
    {
        let ghost before = parents.deep_view();
        parents.push(scope.link_changes[k].parent_relative_path.clone());
        assert(parents.deep_view() =~= before.push(
            scope.link_changes@[k as int].parent_relative_path@,
        ));
        k = k + 1;
        assert(parents.deep_view() =~= relinked_paths(scope.link_changes.deep_view()).take(
            k as int,
        ));
    }
    assert(parents.deep_view() =~= relinked_paths(scope.link_changes.deep_view()));
    push_all_unique(&mut found, &parents);

    let mut m: usize = 0;
    while m < request.decisions.len()
        invariant
            m <= request.decisions.len(),
            model == request.deep_view(),
            model.cleanup_paths() == source_paths_from(
                model.decisions,
                m as int,
                found.deep_view(),
            ),
        decreases request.decisions.len() - m,
    {
        let decision: &RefineDecision = &request.decisions[m];
        assert(model.decisions[m as int] == decision.deep_view());
        let mut sources: Vec<String> = Vec::new();
        let mut n: usize = 0;
        while n < decision.source_comments.len()
            invariant
                n <= decision.source_comments.len(),
                sources.deep_view() == comment_paths(decision.source_comments.deep_view()).take(
                    n as int,
                ),
            decreases decision.source_comments.len() - n,
        {
            let ghost before = sources.deep_view();
            sources.push(decision.source_comments[n].source_path.clone());
            assert(sources.deep_view() =~= before.push(
                decision.source_comments@[n as int].source_path@,
            ));
            n = n + 1;
            assert(sources.deep_view() =~= comment_paths(
                decision.source_comments.deep_view(),
            ).take(n as int));
        }
        assert(sources.deep_view() =~= comment_paths(decision.source_comments.deep_view()));
        push_all_unique(&mut found, &sources);
        m = m + 1;
    }
    found
}

fn path_mutated_after_comment_cleanup(request: &RefineRewriteRequest, path: &str) -> (r: bool)
    ensures
        r == request.deep_view().is_mutated_later(path@),
{
    let scope: &RefineRewriteScope = &request.rewrite_scope;
    path_is_target(&scope.rewrite_targets, path) || path_is_created(&scope.node_creations, path)
        || path_is_removed(&scope.node_removals, path) || path_is_stale(
        &scope.stale_descendants,
        path,
    ) || path_is_relinked(&scope.link_changes, path)
}

fn cleanup_processed_comment_blocks(request: &RefineRewriteRequest, files: &mut PlanFiles) -> (r:
    Result<Vec<(String, String)>, RefineRewriteError>)
    ensures
        (final(files).deep_view(), outcome(r)) == request.deep_view().cleaned_from(
            old(files).deep_view(),
            request.deep_view().cleanup_paths(),
            0,
            Seq::empty(),
        ),
{
    let ghost model = request.deep_view();
    let ghost first = files.deep_view();
    let paths: Vec<String> = comment_cleanup_paths(request);
    let ghost all = paths.deep_view();
    let mut payloads: Vec<(String, String)> = Vec::new();
    let mut i: usize = 0;
    assert(payloads.deep_view() =~= Seq::empty());
    while i < paths.len()
        invariant
            i <= paths.len(),
            model == request.deep_view(),
            first == old(files).deep_view(),
            all == paths.deep_view(),
            all == model.cleanup_paths(),
            model.cleaned_from(first, all, 0, Seq::empty()) == model.cleaned_from(
                files.deep_view(),
                all,
                i as int,
                payloads.deep_view(),
            ),
        decreases paths.len() - i,
    {
        let path: &str = paths[i].as_str();
        if files.is_file(path) {
            let markdown: String = read_plan_markdown(request, files, path)?;
            let preserved: Vec<PreservedCommentBlock> = preserved_comment_blocks_for_path(
                request,
                path,
            );
            let clean: String = remove_comment_blocks(path, markdown.as_str(), &preserved)?;
            if !same_text(clean.as_str(), markdown.as_str()) && !path_mutated_after_comment_cleanup(
                request,
                path,
            ) {
                write_plan_file(request, files, path, clean.as_str())?;
            }
            let ghost before = payloads.deep_view();
            let ghost entry = (path@, clean@);
            payloads.push((path.to_owned(), clean));
            assert(payloads.deep_view() =~= before.push(entry));
        }
        i = i + 1;
    }
    Ok(payloads)
}

fn find_payload<'a>(payloads: &'a Vec<(String, String)>, path: &str) -> (r: Option<&'a String>)
    ensures
        match r {
            Some(text) => payload_from(payloads.deep_view(), path@, 0) == Some(text@),
            None => payload_from(payloads.deep_view(), path@, 0) is None,
        },
{
    let ghost all = payloads.deep_view();
    let mut i: usize = 0;
    while i < payloads.len()
        invariant
            i <= payloads.len(),
            all == payloads.deep_view(),
            payload_from(all, path@, 0) == payload_from(all, path@, i as int),
        decreases payloads.len() - i,
    {
        assert(all[i as int] == (payloads@[i as int].0@, payloads@[i as int].1@));
        if same_text(payloads[i].0.as_str(), path) {
            return Some(&payloads[i].1);
        }
        i = i + 1;
    }
    None
}

fn replacement_for_path(request: &RefineRewriteRequest, path: &str) -> (r: Option<String>)
    ensures
        r.deep_view() == request.deep_view().replacement(
            path@,
            request.deep_view().decisions.len() as int,
        ),
{
    let ghost model = request.deep_view();
    let mut n: usize = request.decisions.len();
    while n > 0
        invariant
            n <= request.decisions.len(),
            model == request.deep_view(),
            model.replacement(path@, model.decisions.len() as int) == model.replacement(
                path@,
                n as int,
            ),
        decreases n,
    {
        let decision: &RefineDecision = &request.decisions[n - 1];
        assert(model.decisions[n - 1] == decision.deep_view());
        let ghost actions = decision.rewrite_actions.deep_view();
        let mut k: usize = decision.rewrite_actions.len();
        while k > 0
            invariant
                k <= decision.rewrite_actions.len(),
                0 < n <= request.decisions.len(),
                model == request.deep_view(),
                model.decisions[n - 1] == decision.deep_view(),
                actions == decision.rewrite_actions.deep_view(),
                model.replacement(path@, model.decisions.len() as int) == model.replacement(
                    path@,
                    n as int,
                ),
                replacement_in(actions, path@, actions.len() as int) == replacement_in(
                    actions,
                    path@,
                    k as int,
                ),
            decreases k,
        {
            let action: &RefineRewriteAction = &decision.rewrite_actions[k - 1];
            assert(actions[k - 1] == action.deep_view());
            if is_text(&action.target_relative_path, path) && action.replacement_markdown.is_some() {
                return action.replacement_markdown.clone();
            }
            k = k - 1;
        }
        n = n - 1;
    }
    None
}

fn sanitized_replacement_for_path(request: &RefineRewriteRequest, path: &str) -> (r: Result<
    Option<String>,
    RefineRewriteError,
>)
    ensures
        outcome(r) == request.deep_view().clean_replacement(path@),
{
    match replacement_for_path(request, path) {
        None => Ok(None),
        Some(markdown) => {
            let preserved: Vec<PreservedCommentBlock> = preserved_comment_blocks_for_path(
                request,
                path,
            );
            let clean: String = remove_comment_blocks(path, markdown.as_str(), &preserved)?;
            Ok(Some(clean))
        },
    }
}

fn markdown_from_sanitized_or_disk(
    request: &RefineRewriteRequest,
    files: &PlanFiles,
    payloads: &Vec<(String, String)>,
    path: &str,
) -> (r: Result<String, RefineRewriteError>)
    ensures
        outcome(r) == request.deep_view().clean_or_disk(
            files.deep_view(),
            payloads.deep_view(),
            path@,
        ),
{
    match find_payload(payloads, path) {
        Some(text) => Ok(text.clone()),
        None => read_plan_markdown(request, files, path),
    }
}

// ---------------------------------------------------------------------
// The steps of a rewrite
// ---------------------------------------------------------------------
/// What the rewrite did so far.
pub struct MutationReports {
    pub changed_files: Vec<RefineChangedFile>,
    pub structural_changes: Vec<RefineStructuralChange>,
    pub stale_nodes: Vec<RefineStaleNode>,
    pub context_invalidations: Vec<RefineContextInvalidation>,
    pub unchanged_nodes: Vec<RefineUnchangedNode>,
}

/// What the rewrite did so far.
pub struct MutationReportsModel {
    pub changed_files: Seq<RefineChangedFileModel>,
    pub structural_changes: Seq<RefineStructuralChangeModel>,
    pub stale_nodes: Seq<RefineStaleNodeModel>,
    pub context_invalidations: Seq<RefineContextInvalidationModel>,
    pub unchanged_nodes: Seq<RefineUnchangedNodeModel>,
}

impl DeepView for MutationReports {
    type V = MutationReportsModel;

    open spec fn deep_view(&self) -> MutationReportsModel {
        MutationReportsModel {
            changed_files: self.changed_files.deep_view(),
            structural_changes: self.structural_changes.deep_view(),
            stale_nodes: self.stale_nodes.deep_view(),
            context_invalidations: self.context_invalidations.deep_view(),
            unchanged_nodes: self.unchanged_nodes.deep_view(),
        }
    }
}

impl Default for MutationReports {
    fn default() -> (r: Self)
        ensures
            r.deep_view() == MutationReportsModel::empty(),
    {
        let r: MutationReports = MutationReports {
            changed_files: Vec::new(),
            structural_changes: Vec::new(),
            stale_nodes: Vec::new(),
            context_invalidations: Vec::new(),
            unchanged_nodes: Vec::new(),
        };
        assert(r.changed_files.deep_view() =~= Seq::empty());
        assert(r.structural_changes.deep_view() =~= Seq::empty());
        assert(r.stale_nodes.deep_view() =~= Seq::empty());
        assert(r.context_invalidations.deep_view() =~= Seq::empty());
        assert(r.unchanged_nodes.deep_view() =~= Seq::empty());
        r
    }
}

impl MutationReportsModel {
    /// Nothing was done yet.
    pub open spec fn empty() -> MutationReportsModel {
        MutationReportsModel {
            changed_files: Seq::empty(),
            structural_changes: Seq::empty(),
            stale_nodes: Seq::empty(),
            context_invalidations: Seq::empty(),
            unchanged_nodes: Seq::empty(),
        }
    }

    /// A file changed.
    pub open spec fn with_changed(
        self,
        path: Seq<char>,
        node_id: Option<Seq<char>>,
        change_kind: RefineChangedFileKind,
    ) -> MutationReportsModel {
        MutationReportsModel {
            changed_files: self.changed_files.push(
                RefineChangedFileModel { relative_path: path, node_id, change_kind },
            ),
            ..self
        }
    }

    /// A node was left alone.
    pub open spec fn with_unchanged(
        self,
        path: Seq<char>,
        node_id: Option<Seq<char>>,
    ) -> MutationReportsModel {
        MutationReportsModel {
            unchanged_nodes: self.unchanged_nodes.push(
                RefineUnchangedNodeModel { relative_path: path, node_id },
            ),
            ..self
        }
    }

    /// A node was marked stale.
    pub open spec fn with_stale(
        self,
        path: Seq<char>,
        node_id: Option<Seq<char>>,
        reason: Seq<char>,
    ) -> MutationReportsModel {
        MutationReportsModel {
            stale_nodes: self.stale_nodes.push(
                RefineStaleNodeModel { relative_path: path, node_id, reason },
            ),
            ..self
        }.with_changed(path, node_id, RefineChangedFileKind::StaleMarked)
    }

    /// The children of a parent changed.
    pub open spec fn with_relinked(self, mutation: LinkMutation) -> MutationReportsModel {
        let reported = if mutation.parent_was_created {
            self
        } else {
            self.with_changed(
                mutation.parent_relative_path,
                mutation.parent_node_id,
                RefineChangedFileKind::TextUpdated,
            )
        };
        MutationReportsModel {
            structural_changes: reported.structural_changes.push(
                mutation.report(RefineStructuralChangeKind::ChangedChildSet),
            ).push(mutation.report(RefineStructuralChangeKind::ParentContractChanged)),
            ..reported
        }
    }
}

impl MutationReports {
    fn push_changed(&mut self, path: &str, node_id: &Option<String>, kind: RefineChangedFileKind)
        ensures
            final(self).deep_view() == old(self).deep_view().with_changed(
                path@,
                node_id.deep_view(),
                kind,
            ),
    {
        let ghost before = self.changed_files.deep_view();
        let file: RefineChangedFile = RefineChangedFile {
            relative_path: path.to_owned(),
            node_id: node_id.clone(),
            change_kind: kind,
        };
        let ghost model = file.deep_view();
        self.changed_files.push(file);
        assert(self.changed_files.deep_view() =~= before.push(model));
    }

    fn push_unchanged(&mut self, path: &str, node_id: &Option<String>)
        ensures
            final(self).deep_view() == old(self).deep_view().with_unchanged(
                path@,
                node_id.deep_view(),
            ),
    {
        let ghost before = self.unchanged_nodes.deep_view();
        let node: RefineUnchangedNode = RefineUnchangedNode {
            relative_path: path.to_owned(),
            node_id: node_id.clone(),
        };
        let ghost model = node.deep_view();
        self.unchanged_nodes.push(node);
        assert(self.unchanged_nodes.deep_view() =~= before.push(model));
    }

    fn push_stale(&mut self, path: &str, node_id: &Option<String>, reason: &str)
        ensures
            final(self).deep_view() == old(self).deep_view().with_stale(
                path@,
                node_id.deep_view(),
                reason@,
            ),
    {
        let ghost before = self.stale_nodes.deep_view();
        let node: RefineStaleNode = RefineStaleNode {
            relative_path: path.to_owned(),
            node_id: node_id.clone(),
            reason: reason.to_owned(),
        };
        let ghost model = node.deep_view();
        self.stale_nodes.push(node);
        assert(self.stale_nodes.deep_view() =~= before.push(model));
        self.push_changed(path, node_id, RefineChangedFileKind::StaleMarked);
    }
}

/// How the children of a parent changed.
pub struct LinkMutation {
    pub parent_relative_path: Seq<char>,
    pub parent_node_id: Option<Seq<char>>,
    pub parent_was_created: bool,
    pub added_child_relative_paths: Seq<Seq<char>>,
    pub removed_child_relative_paths: Seq<Seq<char>>,
}

impl LinkMutation {
    /// The report of the change.
    pub open spec fn report(self, change_kind: RefineStructuralChangeKind) -> RefineStructuralChangeModel {
        RefineStructuralChangeModel {
            parent_relative_path: self.parent_relative_path,
            parent_node_id: self.parent_node_id,
            change_kind,
            added_child_relative_paths: self.added_child_relative_paths,
            removed_child_relative_paths: self.removed_child_relative_paths,
        }
    }
}

impl RefineRewriteRequestModel {
    /// The files and the reports after the targets from `i` on were rewritten.
    pub open spec fn rewritten_from(
        self,
        files: PlanFilesModel,
        payloads: Seq<(Seq<char>, Seq<char>)>,
        i: int,
        reports: MutationReportsModel,
    ) -> (PlanFilesModel, Result<MutationReportsModel, RefineRewriteErrorModel>)
        decreases self.rewrite_scope.rewrite_targets.len() - i,
    {
        if i >= self.rewrite_scope.rewrite_targets.len() {
            (files, Ok(reports))
        } else {
            let target = self.rewrite_scope.rewrite_targets[i];
            if target.action_kind != RefineRewriteActionKind::UpdateExistingNode {
                self.rewritten_from(files, payloads, i + 1, reports)
            } else {
                match self.clean_replacement(target.relative_path) {
                    Err(error) => (files, Err(error)),
                    Ok(replacement) => {
                        let text = match replacement {
                            Some(text) => Some(text),
                            None => payload_from(payloads, target.relative_path, 0),
                        };
                        match text {
                            None => self.rewritten_from(
                                files,
                                payloads,
                                i + 1,
                                reports.with_unchanged(target.relative_path, target.node_id),
                            ),
                            Some(markdown) => {
                                let (next, problem) = self.write(
                                    files,
                                    target.relative_path,
                                    markdown,
                                );
                                match problem {
                                    Some(error) => (next, Err(error)),
                                    None => self.rewritten_from(
                                        next,
                                        payloads,
                                        i + 1,
                                        reports.with_changed(
                                            target.relative_path,
                                            target.node_id,
                                            RefineChangedFileKind::TextUpdated,
                                        ),
                                    ),
                                }
                            },
                        }
                    },
                }
            }
        }
    }

    /// The files and the reports after the nodes from `i` on were made.
    pub open spec fn created_from(
        self,
        files: PlanFilesModel,
        i: int,
        reports: MutationReportsModel,
    ) -> (PlanFilesModel, Result<MutationReportsModel, RefineRewriteErrorModel>)
        decreases self.rewrite_scope.node_creations.len() - i,
    {
        if i >= self.rewrite_scope.node_creations.len() {
            (files, Ok(reports))
        } else {
            let path = self.rewrite_scope.node_creations[i].relative_path;
            match self.clean_replacement(path) {
                Err(error) => (files, Err(error)),
                Ok(replacement) => {
                    let markdown = match replacement {
                        Some(text) => text,
                        None => "# "@ + title_from_name(path) + "\n"@,
                    };
                    let (next, problem) = self.write(files, path, markdown);
                    match problem {
                        Some(error) => (next, Err(error)),
                        None => self.created_from(
                            next,
                            i + 1,
                            reports.with_changed(path, None, RefineChangedFileKind::Created),
                        ),
                    }
                },
            }
        }
    }

    /// The files and the reports after the nodes from `i` on were removed.
    pub open spec fn removed_from(
        self,
        files: PlanFilesModel,
        i: int,
        reports: MutationReportsModel,
    ) -> (PlanFilesModel, Result<MutationReportsModel, RefineRewriteErrorModel>)
        decreases self.rewrite_scope.node_removals.len() - i,
    {
        if i >= self.rewrite_scope.node_removals.len() {
            (files, Ok(reports))
        } else {
            let removal = self.rewrite_scope.node_removals[i];
            let path = removal.relative_path;
            let (next, problem) = if files.is_present(path) {
                files.remove(path)
            } else {
                (files, None)
            };
            match problem {
                Some(source) => (next, Err(self.io_error(path, source))),
                None => self.removed_from(
                    next,
                    i + 1,
                    reports.with_changed(
                        path,
                        removal.node_id,
                        RefineChangedFileKind::ExplicitlyRemoved,
                    ),
                ),
            }
        }
    }

    /// The files and the reports after the nodes from `i` on were marked
    /// stale.
    pub open spec fn marked_from(
        self,
        files: PlanFilesModel,
        payloads: Seq<(Seq<char>, Seq<char>)>,
        stale: Seq<RefineStaleDescendantModel>,
        i: int,
        reports: MutationReportsModel,
    ) -> (PlanFilesModel, Result<MutationReportsModel, RefineRewriteErrorModel>)
        decreases stale.len() - i,
    {
        if i >= stale.len() {
            (files, Ok(reports))
        } else {
            let path = stale[i].relative_path;
            if !files.is_file(path) {
                (files, Err(RefineRewriteErrorModel::InvalidRewriteScope))
            } else {
                match self.clean_or_disk(files, payloads, path) {
                    Err(error) => (files, Err(error)),
                    Ok(markdown) => {
                        let (next, problem) = self.write(
                            files,
                            path,
                            marked_stale(markdown, stale[i].reason),
                        );
                        match problem {
                            Some(error) => (next, Err(error)),
                            None => self.marked_from(
                                next,
                                payloads,
                                stale,
                                i + 1,
                                reports.with_stale(path, stale[i].node_id, stale[i].reason),
                            ),
                        }
                    },
                }
            }
        }
    }

    /// The id that the decisions give the parent at this path, from decision
    /// `i` on.
    pub open spec fn parent_id_from(self, path: Seq<char>, i: int) -> Option<Seq<char>>
        decreases self.decisions.len() - i,
    {
        if i >= self.decisions.len() {
            None
        } else {
            match affected_id_from(
                self.decisions[i].affected_scope.affected_tracked_nodes,
                path,
                0,
            ) {
                Some(node_id) => Some(node_id),
                None => self.parent_id_from(path, i + 1),
            }
        }
    }

    /// An earlier step of the rewrite wrote the file at this path.
    pub open spec fn is_mutated_before_links(self, path: Seq<char>) -> bool {
        let scope = self.rewrite_scope;
        ||| is_target(scope.rewrite_targets, path)
        ||| is_created(scope.node_creations, path)
        ||| is_stale(scope.stale_descendants, path)
    }

    /// The list items for the children from `i` on that a parent gains, after
    /// those in `acc`.
    pub open spec fn added_rows_from(
        self,
        files: PlanFilesModel,
        parent: Seq<char>,
        children: Seq<Seq<char>>,
        i: int,
        acc: Seq<Seq<char>>,
    ) -> Result<Seq<Seq<char>>, RefineRewriteErrorModel>
        decreases children.len() - i,
    {
        if i >= children.len() {
            Ok(acc)
        } else {
            match self.read(files, children[i]) {
                Err(error) => Err(error),
                Ok(markdown) => if !is_plan_markdown(parent) || !is_plan_markdown(children[i]) {
                    Err(RefineRewriteErrorModel::InvalidRewriteScope)
                } else {
                    self.added_rows_from(
                        files,
                        parent,
                        children,
                        i + 1,
                        acc.push(
                            rendered_link(
                                title_of(markdown, title_name(children[i])),
                                relative_url(parent, children[i]),
                            ),
                        ),
                    )
                },
            }
        }
    }

    /// The markdown of a parent whose links change.
    pub open spec fn parent_markdown(
        self,
        files: PlanFilesModel,
        payloads: Seq<(Seq<char>, Seq<char>)>,
        path: Seq<char>,
    ) -> Result<Seq<char>, RefineRewriteErrorModel> {
        if self.is_mutated_before_links(path) {
            self.read(files, path)
        } else {
            self.clean_or_disk(files, payloads, path)
        }
    }

    /// The files after the links of one parent changed, and how they changed:
    /// not at all where it links what it should already.
    pub open spec fn relinked(
        self,
        files: PlanFilesModel,
        payloads: Seq<(Seq<char>, Seq<char>)>,
        change: MergedLinkChangeModel,
    ) -> (PlanFilesModel, Result<Option<LinkMutation>, RefineRewriteErrorModel>) {
        let parent = change.parent_relative_path;
        if !files.is_file(parent) || exists|i: int|
            0 <= i < change.add_child_relative_paths.len() && !files.is_file(
                #[trigger] change.add_child_relative_paths[i],
            ) {
            (files, Err(RefineRewriteErrorModel::InvalidRewriteScope))
        } else {
            match self.parent_markdown(files, payloads, parent) {
                Err(error) => (files, Err(error)),
                Ok(markdown) => match link_rows(parent, markdown) {
                    Err(error) => (files, Err(error)),
                    Ok(rows) => {
                        let removed = linked_from(
                            rows,
                            change.remove_child_relative_paths,
                            0,
                            Seq::empty(),
                        );
                        let kept = kept_rows_from(rows, removed, 0, Seq::empty());
                        let added = unlinked_from(
                            row_paths(kept),
                            change.add_child_relative_paths,
                            0,
                            Seq::empty(),
                        );
                        if added.len() == 0 && removed.len() == 0 {
                            (files, Ok(None))
                        } else {
                            match self.added_rows_from(
                                files,
                                parent,
                                added,
                                0,
                                row_lines(kept),
                            ) {
                                Err(error) => (files, Err(error)),
                                Ok(lines) => {
                                    let (next, problem) = self.write(
                                        files,
                                        parent,
                                        with_child_section(markdown, lines),
                                    );
                                    match problem {
                                        Some(error) => (next, Err(error)),
                                        None => (
                                            next,
                                            Ok(
                                                Some(
                                                    LinkMutation {
                                                        parent_relative_path: parent,
                                                        parent_node_id: self.parent_id_from(
                                                            parent,
                                                            0,
                                                        ),
                                                        parent_was_created: is_created(
                                                            self.rewrite_scope.node_creations,
                                                            parent,
                                                        ),
                                                        added_child_relative_paths: added,
                                                        removed_child_relative_paths: removed,
                                                    },
                                                ),
                                            ),
                                        ),
                                    }
                                },
                            }
                        }
                    },
                },
            }
        }
    }

    /// The files and the reports after the links of the parents from `i` on
    /// changed.
    pub open spec fn relinked_from(
        self,
        files: PlanFilesModel,
        payloads: Seq<(Seq<char>, Seq<char>)>,
        merged: Seq<MergedLinkChangeModel>,
        i: int,
        reports: MutationReportsModel,
    ) -> (PlanFilesModel, Result<MutationReportsModel, RefineRewriteErrorModel>)
        decreases merged.len() - i,
    {
        if i >= merged.len() {
            (files, Ok(reports))
        } else {
            let (next, result) = self.relinked(files, payloads, merged[i]);
            match result {
                Err(error) => (next, Err(error)),
                Ok(None) => self.relinked_from(next, payloads, merged, i + 1, reports),
                Ok(Some(mutation)) => self.relinked_from(
                    next,
                    payloads,
                    merged,
                    i + 1,
                    reports.with_relinked(mutation),
                ),
            }
        }
    }

    /// The file at one of the paths from `i` on lost its headings.
    pub open spec fn heading_problem_from(
        self,
        files: PlanFilesModel,
        paths: Seq<Seq<char>>,
        i: int,
    ) -> Option<RefineRewriteErrorModel>
        decreases paths.len() - i,
    {
        if i >= paths.len() {
            None
        } else if !files.is_present(paths[i]) {
            self.heading_problem_from(files, paths, i + 1)
        } else {
            match self.read(files, paths[i]) {
                Err(error) => Some(error),
                Ok(markdown) => if has_heading(markdown) {
                    self.heading_problem_from(files, paths, i + 1)
                } else {
                    Some(
                        RefineRewriteErrorModel::PostWriteStructureViolation {
                            relative_path: paths[i],
                            reason: "required plan headings were lost"@,
                        },
                    )
                },
            }
        }
    }

    /// A link of one of the parents from `i` on leads nowhere.
    pub open spec fn link_problem_from(
        self,
        files: PlanFilesModel,
        parents: Seq<Seq<char>>,
        i: int,
    ) -> Option<RefineRewriteErrorModel>
        decreases parents.len() - i,
    {
        if i >= parents.len() {
            None
        } else if !files.is_file(parents[i]) {
            self.link_problem_from(files, parents, i + 1)
        } else {
            match self.read(files, parents[i]) {
                Err(error) => Some(error),
                Ok(markdown) => match link_rows(parents[i], markdown) {
                    Err(error) => Some(error),
                    Ok(rows) => match broken_row_from(files, rows, 0) {
                        Some(path) => Some(
                            RefineRewriteErrorModel::PostWriteStructureViolation {
                                relative_path: parents[i],
                                reason: "broken child link: "@ + path,
                            },
                        ),
                        None => self.link_problem_from(files, parents, i + 1),
                    },
                },
            }
        }
    }

    /// What is wrong with the files after all was written.
    pub open spec fn written_problem(self, files: PlanFilesModel) -> Option<RefineRewriteErrorModel> {
        let scope = self.rewrite_scope;
        match self.heading_problem_from(
            files,
            target_paths(scope.rewrite_targets) + creation_paths(scope.node_creations),
            0,
        ) {
            Some(error) => Some(error),
            None => self.link_problem_from(files, relinked_paths(scope.link_changes), 0),
        }
    }

    /// The answer for what was done.
    pub open spec fn answer(self, reports: MutationReportsModel) -> RefineRewriteResultModel {
        let targets = expected_targets_from(self.decisions, 0, Seq::empty());
        RefineRewriteResultModel {
            changed_files: reports.changed_files,
            structural_changes: reports.structural_changes,
            stale_nodes: reports.stale_nodes,
            context_invalidations: reports.context_invalidations,
            unchanged_nodes: reports.unchanged_nodes,
            expected_gate_targets: targets,
            unresolved_follow_ups: self.blocked_follow_ups,
            summary: summary_of(
                reports.changed_files,
                reports.structural_changes,
                reports.stale_nodes,
                targets,
                self.blocked_follow_ups,
                reports.context_invalidations.len() as usize,
                reports.unchanged_nodes.len() as usize,
            ),
        }
    }

    /// The files and the reports after all steps.
    pub open spec fn steps(self, files: PlanFilesModel) -> (
        PlanFilesModel,
        Result<MutationReportsModel, RefineRewriteErrorModel>,
    ) {
        let (files1, cleaned) = self.cleaned_from(files, self.cleanup_paths(), 0, Seq::empty());
        match cleaned {
            Err(error) => (files1, Err(error)),
            Ok(payloads) => {
                let (files2, rewritten) = self.rewritten_from(
                    files1,
                    payloads,
                    0,
                    MutationReportsModel::empty(),
                );
                match rewritten {
                    Err(error) => (files2, Err(error)),
                    Ok(reports2) => {
                        let (files3, created) = self.created_from(files2, 0, reports2);
                        match created {
                            Err(error) => (files3, Err(error)),
                            Ok(reports3) => {
                                let (files4, removed) = self.removed_from(files3, 0, reports3);
                                match removed {
                                    Err(error) => (files4, Err(error)),
                                    Ok(reports4) => self.last_steps(files4, payloads, reports4),
                                }
                            },
                        }
                    },
                }
            },
        }
    }

    /// The files and the reports after the last two steps: stale nodes are
    /// marked, then links change.
    pub open spec fn last_steps(
        self,
        files: PlanFilesModel,
        payloads: Seq<(Seq<char>, Seq<char>)>,
        reports: MutationReportsModel,
    ) -> (PlanFilesModel, Result<MutationReportsModel, RefineRewriteErrorModel>) {
        let (files1, marked) = self.marked_from(
            files,
            payloads,
            unique_stale_from(self.rewrite_scope.stale_descendants, 0, Seq::empty()),
            0,
            reports,
        );
        match marked {
            Err(error) => (files1, Err(error)),
            Ok(reports1) => match merged_changes(self.rewrite_scope.link_changes) {
                None => (files1, Err(RefineRewriteErrorModel::InvalidRewriteScope)),
                Some(merged) => self.relinked_from(files1, payloads, merged, 0, reports1),
            },
        }
    }

    /// The files after the rewrite, and the answer.
    pub open spec fn applied(self, files: PlanFilesModel) -> (
        PlanFilesModel,
        Result<RefineRewriteResultModel, RefineRewriteErrorModel>,
    ) {
        match self.problem(files) {
            Some(error) => (files, Err(error)),
            None => {
                let (next, done) = self.steps(files);
                match done {
                    Err(error) => (next, Err(error)),
                    Ok(reports) => match self.written_problem(next) {
                        Some(error) => (next, Err(error)),
                        None => (next, Ok(self.answer(reports))),
                    },
                }
            },
        }
    }
}

/// The name that a file without a title is known by.
pub open spec fn title_name(path: Seq<char>) -> Seq<char> {
    match file_name(path) {
        Some(name) => name,
        None => "node.md"@,
    }
}

/// The id of the first node at or after `i` with this path.
pub open spec fn affected_id_from(
    nodes: Seq<RefineAffectedTrackedNodeModel>,
    path: Seq<char>,
    i: int,
) -> Option<Seq<char>>
    decreases nodes.len() - i,
{
    if i >= nodes.len() {
        None
    } else if nodes[i].relative_path == Some(path) {
        Some(nodes[i].node_id)
    } else {
        affected_id_from(nodes, path, i + 1)
    }
}

/// The paths of the nodes to make.
pub open spec fn creation_paths(creations: Seq<RefineNodeCreationModel>) -> Seq<Seq<char>> {
    Seq::new(creations.len(), |i: int| creations[i].relative_path)
}

/// The paths that the rows link.
pub open spec fn row_paths(rows: Seq<ChildLinkRowModel>) -> Seq<Seq<char>> {
    Seq::new(rows.len(), |i: int| rows[i].canonical_path)
}

/// The rows as list items.
pub open spec fn row_lines(rows: Seq<ChildLinkRowModel>) -> Seq<Seq<char>> {
    Seq::new(rows.len(), |i: int| rows[i].rendered_line)
}

/// Those of the children from `i` on that the rows link, after those in `acc`.
pub open spec fn linked_from(
    rows: Seq<ChildLinkRowModel>,
    children: Seq<Seq<char>>,
    i: int,
    acc: Seq<Seq<char>>,
) -> Seq<Seq<char>>
    decreases children.len() - i,
{
    if i >= children.len() {
        acc
    } else if row_paths(rows).contains(children[i]) {
        linked_from(rows, children, i + 1, acc.push(children[i]))
    } else {
        linked_from(rows, children, i + 1, acc)
    }
}

/// The rows from `i` on whose child is not removed, after those in `acc`.
pub open spec fn kept_rows_from(
    rows: Seq<ChildLinkRowModel>,
    removed: Seq<Seq<char>>,
    i: int,
    acc: Seq<ChildLinkRowModel>,
) -> Seq<ChildLinkRowModel>
    decreases rows.len() - i,
{
    if i >= rows.len() {
        acc
    } else if removed.contains(rows[i].canonical_path) {
        kept_rows_from(rows, removed, i + 1, acc)
    } else {
        kept_rows_from(rows, removed, i + 1, acc.push(rows[i]))
    }
}

/// Those of the children from `i` on that are neither linked nor named before,
/// after those in `acc`.
pub open spec fn unlinked_from(
    linked: Seq<Seq<char>>,
    children: Seq<Seq<char>>,
    i: int,
    acc: Seq<Seq<char>>,
) -> Seq<Seq<char>>
    decreases children.len() - i,
{
    if i >= children.len() {
        acc
    } else if linked.contains(children[i]) || acc.contains(children[i]) {
        unlinked_from(linked, children, i + 1, acc)
    } else {
        unlinked_from(linked, children, i + 1, acc.push(children[i]))
    }
}

/// The path of the first row at or after `i` that leads nowhere.
pub open spec fn broken_row_from(files: PlanFilesModel, rows: Seq<ChildLinkRowModel>, i: int) -> Option<
    Seq<char>,
>
    decreases rows.len() - i,
{
    if i >= rows.len() {
        None
    } else if !files.is_file(rows[i].canonical_path) {
        Some(rows[i].canonical_path)
    } else {
        broken_row_from(files, rows, i + 1)
    }
}

/// The gates that the decisions from `i` on expect to run, after those in
/// `acc`.
pub open spec fn expected_targets_from(
    decisions: Seq<RefineDecisionModel>,
    i: int,
    acc: Seq<ExpectedGateRevalidationModel>,
) -> Seq<ExpectedGateRevalidationModel>
    decreases decisions.len() - i,
{
    if i >= decisions.len() {
        acc
    } else {
        expected_targets_from(decisions, i + 1, acc + decisions[i].expected_gate_revalidation)
    }
}

/// The first node at or after `i` with this path.
pub open spec fn stale_index_from(
    stale: Seq<RefineStaleDescendantModel>,
    path: Seq<char>,
    i: int,
) -> Option<int>
    decreases stale.len() - i,
{
    if i >= stale.len() {
        None
    } else if stale[i].relative_path == path {
        Some(i)
    } else {
        stale_index_from(stale, path, i + 1)
    }
}

/// The nodes to mark with one more: of two for one path the first id and the
/// last reason that is not blank count.
pub open spec fn with_stale_node(
    acc: Seq<RefineStaleDescendantModel>,
    stale: RefineStaleDescendantModel,
) -> Seq<RefineStaleDescendantModel> {
    let reason = normalized_reason(stale.reason);
    match stale_index_from(acc, stale.relative_path, 0) {
        Some(k) => acc.update(
            k,
            RefineStaleDescendantModel {
                relative_path: acc[k].relative_path,
                node_id: match acc[k].node_id {
                    Some(node_id) => Some(node_id),
                    None => stale.node_id,
                },
                reason: if reason.len() > 0 {
                    reason
                } else {
                    acc[k].reason
                },
            },
        ),
        None => acc.push(RefineStaleDescendantModel { reason, ..stale }),
    }
}

/// The nodes to mark, each path once, with those from `i` on.
pub open spec fn unique_stale_from(
    stale: Seq<RefineStaleDescendantModel>,
    i: int,
    acc: Seq<RefineStaleDescendantModel>,
) -> Seq<RefineStaleDescendantModel>
    decreases stale.len() - i,
{
    if i >= stale.len() {
        acc
    } else {
        unique_stale_from(stale, i + 1, with_stale_node(acc, stale[i]))
    }
}

fn apply_in_place_node_rewrites(
    request: &RefineRewriteRequest,
    files: &mut PlanFiles,
    payloads: &Vec<(String, String)>,
    reports: &mut MutationReports,
) -> (r: Result<(), RefineRewriteError>)
    ensures
        ({
            let (next, result) = request.deep_view().rewritten_from(
                old(files).deep_view(),
                payloads.deep_view(),
                0,
                old(reports).deep_view(),
            );
            &&& final(files).deep_view() == next
            &&& match result {
                Ok(done) => r is Ok && final(reports).deep_view() == done,
                Err(error) => outcome(r) == Err::<(), RefineRewriteErrorModel>(error),
            }
        }),
{
    let ghost model = request.deep_view();
    let ghost first = files.deep_view();
    let ghost start = reports.deep_view();
    let ghost texts = payloads.deep_view();
    let targets: &Vec<RefineRewriteTarget> = &request.rewrite_scope.rewrite_targets;
    let mut i: usize = 0;
    while i < targets.len()
        invariant
            i <= targets.len(),
            model == request.deep_view(),
            texts == payloads.deep_view(),
            targets.deep_view() == model.rewrite_scope.rewrite_targets,
            first == old(files).deep_view(),
            start == old(reports).deep_view(),
            model.rewritten_from(first, texts, 0, start) == model.rewritten_from(
                files.deep_view(),
                texts,
                i as int,
                reports.deep_view(),
            ),
        decreases targets.len() - i,
    {
        let target: &RefineRewriteTarget = &targets[i];
        assert(model.rewrite_scope.rewrite_targets[i as int] == target.deep_view());
        if target.action_kind == RefineRewriteActionKind::UpdateExistingNode {
            let path: &str = target.relative_path.as_str();
            let replacement: Option<String> = sanitized_replacement_for_path(request, path)?;
            let text: Option<String> = match replacement {
                Some(text) => Some(text),
                None => match find_payload(payloads, path) {
                    Some(text) => Some(text.clone()),
                    None => None,
                },
            };
            match text {
                None => {
                    reports.push_unchanged(path, &target.node_id);
                },
                Some(markdown) => {
                    write_plan_file(request, files, path, markdown.as_str())?;
                    reports.push_changed(path, &target.node_id, RefineChangedFileKind::TextUpdated);
                },
            }
        }
        i = i + 1;
    }
    Ok(())
}

fn create_new_node_files(
    request: &RefineRewriteRequest,
    files: &mut PlanFiles,
    reports: &mut MutationReports,
) -> (r: Result<(), RefineRewriteError>)
    ensures
        ({
            let (next, result) = request.deep_view().created_from(
                old(files).deep_view(),
                0,
                old(reports).deep_view(),
            );
            &&& final(files).deep_view() == next
            &&& match result {
                Ok(done) => r is Ok && final(reports).deep_view() == done,
                Err(error) => outcome(r) == Err::<(), RefineRewriteErrorModel>(error),
            }
        }),
{
    let ghost model = request.deep_view();
    let ghost first = files.deep_view();
    let ghost start = reports.deep_view();
    let creations: &Vec<RefineNodeCreation> = &request.rewrite_scope.node_creations;
    let mut i: usize = 0;
    while i < creations.len()
        invariant
            i <= creations.len(),
            model == request.deep_view(),
            creations.deep_view() == model.rewrite_scope.node_creations,
            first == old(files).deep_view(),
            start == old(reports).deep_view(),
            model.created_from(first, 0, start) == model.created_from(
                files.deep_view(),
                i as int,
                reports.deep_view(),
            ),
        decreases creations.len() - i,
    {
        assert(model.rewrite_scope.node_creations[i as int] == creations@[i as int].deep_view());
        let path: &str = creations[i].relative_path.as_str();
        let markdown: String = match sanitized_replacement_for_path(request, path)? {
            Some(text) => text,
            None => concat3("# ", title_from_path(path).as_str(), "\n"),
        };
        write_plan_file(request, files, path, markdown.as_str())?;
        reports.push_changed(path, &None, RefineChangedFileKind::Created);
        i = i + 1;
    }
    Ok(())
}

fn apply_explicit_removals(
    request: &RefineRewriteRequest,
    files: &mut PlanFiles,
    reports: &mut MutationReports,
) -> (r: Result<(), RefineRewriteError>)
    ensures
        ({
            let (next, result) = request.deep_view().removed_from(
                old(files).deep_view(),
                0,
                old(reports).deep_view(),
            );
            &&& final(files).deep_view() == next
            &&& match result {
                Ok(done) => r is Ok && final(reports).deep_view() == done,
                Err(error) => outcome(r) == Err::<(), RefineRewriteErrorModel>(error),
            }
        }),
{
    let ghost model = request.deep_view();
    let ghost first = files.deep_view();
    let ghost start = reports.deep_view();
    let removals: &Vec<RefineNodeRemoval> = &request.rewrite_scope.node_removals;
    let mut i: usize = 0;
    while i < removals.len()
        invariant
            i <= removals.len(),
            model == request.deep_view(),
            removals.deep_view() == model.rewrite_scope.node_removals,
            first == old(files).deep_view(),
            start == old(reports).deep_view(),
            model.removed_from(first, 0, start) == model.removed_from(
                files.deep_view(),
                i as int,
                reports.deep_view(),
            ),
        decreases removals.len() - i,
    {
        let removal: &RefineNodeRemoval = &removals[i];
        assert(model.rewrite_scope.node_removals[i as int] == removal.deep_view());
        let path: &str = removal.relative_path.as_str();
        if files.is_present(path) {
            match files.remove(path) {
                Some(source) => {
                    return Err(io_error(request, path, source));
                },
                None => {},
            }
        }
        reports.push_changed(path, &removal.node_id, RefineChangedFileKind::ExplicitlyRemoved);
        i = i + 1;
    }
    Ok(())
}

fn find_stale(stale: &Vec<RefineStaleDescendant>, path: &str) -> (r: Option<usize>)
    ensures
        match r {
            Some(k) => k < stale.len() && stale_index_from(stale.deep_view(), path@, 0) == Some(
                k as int,
            ),
            None => stale_index_from(stale.deep_view(), path@, 0) is None,
        },
{
    let ghost all = stale.deep_view();
    let mut i: usize = 0;
    while i < stale.len()
        invariant
            i <= stale.len(),
            all == stale.deep_view(),
            stale_index_from(all, path@, 0) == stale_index_from(all, path@, i as int),
        decreases stale.len() - i,
    {
        assert(all[i as int] == stale@[i as int].deep_view());
        if same_text(stale[i].relative_path.as_str(), path) {
            return Some(i);
        }
        i = i + 1;
    }
    None
}

fn deduplicate_stale_descendants(stale: &Vec<RefineStaleDescendant>) -> (r: Vec<
    RefineStaleDescendant,
>)
    ensures
        r.deep_view() == unique_stale_from(stale.deep_view(), 0, Seq::empty()),
{
    let ghost all = stale.deep_view();
    let mut out: Vec<RefineStaleDescendant> = Vec::new();
    let mut i: usize = 0;
    assert(out.deep_view() =~= Seq::empty());
    while i < stale.len()
        invariant
            i <= stale.len(),
            all == stale.deep_view(),
            unique_stale_from(all, 0, Seq::empty()) == unique_stale_from(
                all,
                i as int,
                out.deep_view(),
            ),
        decreases stale.len() - i,
    {
        let node: &RefineStaleDescendant = &stale[i];
        assert(all[i as int] == node.deep_view());
        let ghost before = out.deep_view();
        let reason: String = normalize_stale_reason(node.reason.as_str());
        match find_stale(&out, node.relative_path.as_str()) {
            Some(k) => {
                let mut entry: RefineStaleDescendant = out[k].clone();
                assert(entry.deep_view() == before[k as int]);
                if entry.node_id.is_none() {
                    entry.node_id = node.node_id.clone();
                }
                if reason.as_str().unicode_len() > 0 {
                    entry.reason = reason;
                }
                let ghost model = entry.deep_view();
                out.set(k, entry);
                assert(out.deep_view() =~= before.update(k as int, model));
            },
            None => {
                let entry: RefineStaleDescendant = RefineStaleDescendant {
                    relative_path: node.relative_path.clone(),
                    node_id: node.node_id.clone(),
                    reason,
                };
                let ghost model = entry.deep_view();
                out.push(entry);
                assert(out.deep_view() =~= before.push(model));
            },
        }
        i = i + 1;
    }
    out
}

fn mark_stale_nodes(
    request: &RefineRewriteRequest,
    files: &mut PlanFiles,
    payloads: &Vec<(String, String)>,
    reports: &mut MutationReports,
) -> (r: Result<(), RefineRewriteError>)
    ensures
        ({
            let (next, result) = request.deep_view().marked_from(
                old(files).deep_view(),
                payloads.deep_view(),
                unique_stale_from(
                    request.deep_view().rewrite_scope.stale_descendants,
                    0,
                    Seq::empty(),
                ),
                0,
                old(reports).deep_view(),
            );
            &&& final(files).deep_view() == next
            &&& match result {
                Ok(done) => r is Ok && final(reports).deep_view() == done,
                Err(error) => outcome(r) == Err::<(), RefineRewriteErrorModel>(error),
            }
        }),
{
    let ghost model = request.deep_view();
    let ghost first = files.deep_view();
    let ghost start = reports.deep_view();
    let ghost texts = payloads.deep_view();
    let stale: Vec<RefineStaleDescendant> = deduplicate_stale_descendants(
        &request.rewrite_scope.stale_descendants,
    );
    let ghost all = stale.deep_view();
    let mut i: usize = 0;
    while i < stale.len()
        invariant
            i <= stale.len(),
            model == request.deep_view(),
            texts == payloads.deep_view(),
            all == stale.deep_view(),
            all == unique_stale_from(
                model.rewrite_scope.stale_descendants,
                0,
                Seq::empty(),
            ),
            first == old(files).deep_view(),
            start == old(reports).deep_view(),
            model.marked_from(first, texts, all, 0, start) == model.marked_from(
                files.deep_view(),
                texts,
                all,
                i as int,
                reports.deep_view(),
            ),
        decreases stale.len() - i,
    {
        let node: &RefineStaleDescendant = &stale[i];
        assert(all[i as int] == node.deep_view());
        let path: &str = node.relative_path.as_str();
        if !files.is_file(path) {
            return Err(RefineRewriteError::InvalidRewriteScope);
        }
        let markdown: String = markdown_from_sanitized_or_disk(request, files, payloads, path)?;
        let marked: String = apply_stale_marker(markdown.as_str(), node.reason.as_str());
        write_plan_file(request, files, path, marked.as_str())?;
        reports.push_stale(path, &node.node_id, node.reason.as_str());
        i = i + 1;
    }
    Ok(())
}

fn path_mutated_before_link_updates(request: &RefineRewriteRequest, path: &str) -> (r: bool)
    ensures
        r == request.deep_view().is_mutated_before_links(path@),
{
    let scope: &RefineRewriteScope = &request.rewrite_scope;
    path_is_target(&scope.rewrite_targets, path) || path_is_created(&scope.node_creations, path)
        || path_is_stale(&scope.stale_descendants, path)
}

fn parent_node_id_for_path(request: &RefineRewriteRequest, path: &str) -> (r: Option<String>)
    ensures
        r.deep_view() == request.deep_view().parent_id_from(path@, 0),
{
    let ghost model = request.deep_view();
    let mut i: usize = 0;
    while i < request.decisions.len()
        invariant
            i <= request.decisions.len(),
            model == request.deep_view(),
            model.parent_id_from(path@, 0) == model.parent_id_from(path@, i as int),
        decreases request.decisions.len() - i,
    {
        let decision: &RefineDecision = &request.decisions[i];
        assert(model.decisions[i as int] == decision.deep_view());
        let nodes: &Vec<RefineAffectedTrackedNode> = &decision.affected_scope.affected_tracked_nodes;
        let ghost all = nodes.deep_view();
        let mut k: usize = 0;
        while k < nodes.len()
            invariant
                k <= nodes.len(),
                i < request.decisions.len(),
                model == request.deep_view(),
                all == nodes.deep_view(),
                all == model.decisions[i as int].affected_scope.affected_tracked_nodes,
                model.parent_id_from(path@, 0) == model.parent_id_from(path@, i as int),
                affected_id_from(all, path@, 0) == affected_id_from(all, path@, k as int),
            decreases nodes.len() - k,
        {
            assert(all[k as int] == nodes@[k as int].deep_view());
            if is_text(&nodes[k].relative_path, path) {
                return Some(nodes[k].node_id.clone());
            }
            k = k + 1;
        }
        i = i + 1;
    }
    None
}

fn paths_of_rows(rows: &Vec<ChildLinkRow>) -> (r: Vec<String>)
    ensures
        r.deep_view() == row_paths(rows.deep_view()),
{
    let mut out: Vec<String> = Vec::new();
    let mut i: usize = 0;
    while i < rows.len()
        invariant
            i <= rows.len(),
            out.deep_view() == row_paths(rows.deep_view()).take(i as int),
        decreases rows.len() - i,
    {
        let ghost before = out.deep_view();
        out.push(rows[i].canonical_path.clone());
        assert(out.deep_view() =~= before.push(rows@[i as int].canonical_path@));
        i = i + 1;
        assert(out.deep_view() =~= row_paths(rows.deep_view()).take(i as int));
    }
    assert(out.deep_view() =~= row_paths(rows.deep_view()));
    out
}

fn lines_of_rows(rows: &Vec<ChildLinkRow>) -> (r: Vec<String>)
    ensures
        r.deep_view() == row_lines(rows.deep_view()),
{
    let mut out: Vec<String> = Vec::new();
    let mut i: usize = 0;
    while i < rows.len()
        invariant
            i <= rows.len(),
            out.deep_view() == row_lines(rows.deep_view()).take(i as int),
        decreases rows.len() - i,
    {
        let ghost before = out.deep_view();
        out.push(rows[i].rendered_line.clone());
        assert(out.deep_view() =~= before.push(rows@[i as int].rendered_line@));
        i = i + 1;
        assert(out.deep_view() =~= row_lines(rows.deep_view()).take(i as int));
    }
    assert(out.deep_view() =~= row_lines(rows.deep_view()));
    out
}

fn linked_children(rows: &Vec<ChildLinkRow>, children: &Vec<String>) -> (r: Vec<String>)
    ensures
        r.deep_view() == linked_from(
            rows.deep_view(),
            children.deep_view(),
            0,
            Seq::empty(),
        ),
{
    let paths: Vec<String> = paths_of_rows(rows);
    let ghost all = children.deep_view();
    let ghost links = rows.deep_view();
    let mut out: Vec<String> = Vec::new();
    let mut i: usize = 0;
    assert(out.deep_view() =~= Seq::empty());
    while i < children.len()
        invariant
            i <= children.len(),
            all == children.deep_view(),
            links == rows.deep_view(),
            paths.deep_view() == row_paths(links),
            linked_from(links, all, 0, Seq::empty()) == linked_from(
                links,
                all,
                i as int,
                out.deep_view(),
            ),
        decreases children.len() - i,
    {
        if list_has(&paths, children[i].as_str()) {
            let ghost before = out.deep_view();
            out.push(children[i].clone());
            assert(out.deep_view() =~= before.push(children@[i as int]@));
        }
        i = i + 1;
    }
    out
}

fn kept_rows(rows: &Vec<ChildLinkRow>, removed: &Vec<String>) -> (r: Vec<ChildLinkRow>)
    ensures
        r.deep_view() == kept_rows_from(rows.deep_view(), removed.deep_view(), 0, Seq::empty()),
{
    let ghost all = rows.deep_view();
    let ghost gone = removed.deep_view();
    let mut out: Vec<ChildLinkRow> = Vec::new();
    let mut i: usize = 0;
    assert(out.deep_view() =~= Seq::empty());
    while i < rows.len()
        invariant
            i <= rows.len(),
            all == rows.deep_view(),
            gone == removed.deep_view(),
            kept_rows_from(all, gone, 0, Seq::empty()) == kept_rows_from(
                all,
                gone,
                i as int,
                out.deep_view(),
            ),
        decreases rows.len() - i,
    {
        assert(all[i as int] == rows@[i as int].deep_view());
        if !list_has(removed, rows[i].canonical_path.as_str()) {
            let ghost before = out.deep_view();
            let row: ChildLinkRow = ChildLinkRow {
                canonical_path: rows[i].canonical_path.clone(),
                rendered_line: rows[i].rendered_line.clone(),
            };
            let ghost model = row.deep_view();
            out.push(row);
            assert(out.deep_view() =~= before.push(model));
        }
        i = i + 1;
    }
    out
}

fn unlinked_children(linked: &Vec<String>, children: &Vec<String>) -> (r: Vec<String>)
    ensures
        r.deep_view() == unlinked_from(
            linked.deep_view(),
            children.deep_view(),
            0,
            Seq::empty(),
        ),
{
    let ghost all = children.deep_view();
    let ghost links = linked.deep_view();
    let mut out: Vec<String> = Vec::new();
    let mut i: usize = 0;
    assert(out.deep_view() =~= Seq::empty());
    while i < children.len()
        invariant
            i <= children.len(),
            all == children.deep_view(),
            links == linked.deep_view(),
            unlinked_from(links, all, 0, Seq::empty()) == unlinked_from(
                links,
                all,
                i as int,
                out.deep_view(),
            ),
        decreases children.len() - i,
    {
        if !list_has(linked, children[i].as_str()) && !list_has(&out, children[i].as_str()) {
            let ghost before = out.deep_view();
            out.push(children[i].clone());
            assert(out.deep_view() =~= before.push(children@[i as int]@));
        }
        i = i + 1;
    }
    out
}

fn render_added_rows(
    request: &RefineRewriteRequest,
    files: &PlanFiles,
    parent: &str,
    children: &Vec<String>,
    start: Vec<String>,
) -> (r: Result<Vec<String>, RefineRewriteError>)
    ensures
        outcome(r) == request.deep_view().added_rows_from(
            files.deep_view(),
            parent@,
            children.deep_view(),
            0,
            start.deep_view(),
        ),
{
    let ghost model = request.deep_view();
    let ghost disk = files.deep_view();
    let ghost all = children.deep_view();
    let ghost begun = start.deep_view();
    let mut rows: Vec<String> = start;
    let mut i: usize = 0;
    while i < children.len()
        invariant
            i <= children.len(),
            model == request.deep_view(),
            disk == files.deep_view(),
            all == children.deep_view(),
            begun == start.deep_view(),
            model.added_rows_from(disk, parent@, all, 0, begun) == model.added_rows_from(
                disk,
                parent@,
                all,
                i as int,
                rows.deep_view(),
            ),
        decreases children.len() - i,
    {
        let child: &str = children[i].as_str();
        let markdown: String = read_plan_markdown(request, files, child)?;
        let name: String = match path_file_name(child) {
            Some(name) => name,
            None => "node.md".to_owned(),
        };
        let title: String = first_heading_title(markdown.as_str(), name.as_str());
        let url: String = relative_url_from_parent_to_child(parent, child)?;
        let row: String = concat5("- [", title.as_str(), "](", url.as_str(), ")");
        let ghost before = rows.deep_view();
        rows.push(row);
        assert(rows.deep_view() =~= before.push(row@));
        i = i + 1;
    }
    Ok(rows)
}

/// How the children of a parent changed.
struct ParentLinkMutation {
    parent_relative_path: String,
    parent_node_id: Option<String>,
    parent_was_created: bool,
    added_child_relative_paths: Vec<String>,
    removed_child_relative_paths: Vec<String>,
}

impl DeepView for ParentLinkMutation {
    type V = LinkMutation;

    closed spec fn deep_view(&self) -> LinkMutation {
        LinkMutation {
            parent_relative_path: self.parent_relative_path@,
            parent_node_id: self.parent_node_id.deep_view(),
            parent_was_created: self.parent_was_created,
            added_child_relative_paths: self.added_child_relative_paths.deep_view(),
            removed_child_relative_paths: self.removed_child_relative_paths.deep_view(),
        }
    }
}

fn all_are_files(files: &PlanFiles, paths: &Vec<String>) -> (r: bool)
    ensures
        r == !(exists|i: int|
            0 <= i < paths.deep_view().len() && !files.deep_view().is_file(
                #[trigger] paths.deep_view()[i],
            )),
{
    let ghost all = paths.deep_view();
    let mut i: usize = 0;
    while i < paths.len()
        invariant
            i <= paths.len(),
            all == paths.deep_view(),
            forall|k: int| 0 <= k < i ==> files.deep_view().is_file(#[trigger] all[k]),
        decreases paths.len() - i,
    {
        if !files.is_file(paths[i].as_str()) {
            assert(!files.deep_view().is_file(all[i as int]));
            return false;
        }
        i = i + 1;
    }
    true
}

fn apply_single_link_update(
    request: &RefineRewriteRequest,
    files: &mut PlanFiles,
    payloads: &Vec<(String, String)>,
    change: &MergedLinkChange,
) -> (r: Result<Option<ParentLinkMutation>, RefineRewriteError>)
    ensures
        (final(files).deep_view(), outcome(r)) == request.deep_view().relinked(
            old(files).deep_view(),
            payloads.deep_view(),
            change.deep_view(),
        ),
{
    let parent: &str = change.parent_relative_path.as_str();
    let ghost model = change.deep_view();
    assert(model.add_child_relative_paths == change.add_child_relative_paths.deep_view());
    if !files.is_file(parent) || !all_are_files(files, &change.add_child_relative_paths) {
        return Err(RefineRewriteError::InvalidRewriteScope);
    }
    let markdown: String = if path_mutated_before_link_updates(request, parent) {
        read_plan_markdown(request, files, parent)?
    } else {
        markdown_from_sanitized_or_disk(request, files, payloads, parent)?
    };
    let rows: Vec<ChildLinkRow> = parse_existing_child_links(parent, markdown.as_str())?;
    let removed: Vec<String> = linked_children(&rows, &change.remove_child_relative_paths);
    let kept: Vec<ChildLinkRow> = kept_rows(&rows, &removed);
    let added: Vec<String> = unlinked_children(
        &paths_of_rows(&kept),
        &change.add_child_relative_paths,
    );
    if added.len() == 0 && removed.len() == 0 {
        return Ok(None);
    }
    let lines: Vec<String> = render_added_rows(
        request,
        files,
        parent,
        &added,
        lines_of_rows(&kept),
    )?;
    let updated: String = rewrite_child_nodes_section(markdown.as_str(), &lines);
    write_plan_file(request, files, parent, updated.as_str())?;
    Ok(
        Some(
            ParentLinkMutation {
                parent_relative_path: parent.to_owned(),
                parent_node_id: parent_node_id_for_path(request, parent),
                parent_was_created: path_is_created(&request.rewrite_scope.node_creations, parent),
                added_child_relative_paths: added,
                removed_child_relative_paths: removed,
            },
        ),
    )
}

fn report_structural_change(
    mutation: &ParentLinkMutation,
    kind: RefineStructuralChangeKind,
) -> (r: RefineStructuralChange)
    ensures
        r.deep_view() == mutation.deep_view().report(kind),
{
    RefineStructuralChange {
        parent_relative_path: mutation.parent_relative_path.clone(),
        parent_node_id: mutation.parent_node_id.clone(),
        change_kind: kind,
        added_child_relative_paths: copy_list(&mutation.added_child_relative_paths),
        removed_child_relative_paths: copy_list(&mutation.removed_child_relative_paths),
    }
}

fn report_link_mutation(reports: &mut MutationReports, mutation: &ParentLinkMutation)
    ensures
        final(reports).deep_view() == old(reports).deep_view().with_relinked(mutation.deep_view()),
{
    if !mutation.parent_was_created {
        reports.push_changed(
            mutation.parent_relative_path.as_str(),
            &mutation.parent_node_id,
            RefineChangedFileKind::TextUpdated,
        );
    }
    let ghost before = reports.structural_changes.deep_view();
    let first: RefineStructuralChange = report_structural_change(
        mutation,
        RefineStructuralChangeKind::ChangedChildSet,
    );
    let second: RefineStructuralChange = report_structural_change(
        mutation,
        RefineStructuralChangeKind::ParentContractChanged,
    );
    let ghost a = first.deep_view();
    let ghost b = second.deep_view();
    reports.structural_changes.push(first);
    reports.structural_changes.push(second);
    assert(reports.structural_changes.deep_view() =~= before.push(a).push(b));
}

fn apply_rewrite_link_updates(
    request: &RefineRewriteRequest,
    files: &mut PlanFiles,
    payloads: &Vec<(String, String)>,
    merged: &Vec<MergedLinkChange>,
    reports: &mut MutationReports,
) -> (r: Result<(), RefineRewriteError>)
    ensures
        ({
            let (next, result) = request.deep_view().relinked_from(
                old(files).deep_view(),
                payloads.deep_view(),
                merged.deep_view(),
                0,
                old(reports).deep_view(),
            );
            &&& final(files).deep_view() == next
            &&& match result {
                Ok(done) => r is Ok && final(reports).deep_view() == done,
                Err(error) => outcome(r) == Err::<(), RefineRewriteErrorModel>(error),
            }
        }),
{
    let ghost model = request.deep_view();
    let ghost first = files.deep_view();
    let ghost start = reports.deep_view();
    let ghost texts = payloads.deep_view();
    let ghost all = merged.deep_view();
    let mut i: usize = 0;
    while i < merged.len()
        invariant
            i <= merged.len(),
            model == request.deep_view(),
            texts == payloads.deep_view(),
            all == merged.deep_view(),
            first == old(files).deep_view(),
            start == old(reports).deep_view(),
            model.relinked_from(first, texts, all, 0, start) == model.relinked_from(
                files.deep_view(),
                texts,
                all,
                i as int,
                reports.deep_view(),
            ),
        decreases merged.len() - i,
    {
        assert(all[i as int] == merged@[i as int].deep_view());
        match apply_single_link_update(request, files, payloads, &merged[i])? {
            Some(mutation) => {
                report_link_mutation(reports, &mutation);
            },
            None => {},
        }
        i = i + 1;
    }
    Ok(())
}

fn check_heading(request: &RefineRewriteRequest, files: &PlanFiles, path: &str) -> (r: Result<
    (),
    RefineRewriteError,
>)
    ensures
        outcome(r) == step(
            request.deep_view().heading_problem_from(files.deep_view(), seq![path@], 0),
        ),
{
    proof {
        reveal_with_fuel(RefineRewriteRequestModel::heading_problem_from, 2);
    }
    if files.is_present(path) {
        let markdown: String = read_plan_markdown(request, files, path)?;
        if !contains_heading(markdown.as_str()) {
            return Err(
                RefineRewriteError::PostWriteStructureViolation {
                    relative_path: path.to_owned(),
                    reason: "required plan headings were lost".to_owned(),
                },
            );
        }
    }
    Ok(())
}

fn run_post_write_structural_checks(request: &RefineRewriteRequest, files: &PlanFiles) -> (r: Result<
    (),
    RefineRewriteError,
>)
    ensures
        outcome(r) == step(request.deep_view().written_problem(files.deep_view())),
{
    let scope: &RefineRewriteScope = &request.rewrite_scope;
    let ghost model = request.deep_view();
    let ghost disk = files.deep_view();
    let ghost targets = target_paths(model.rewrite_scope.rewrite_targets);
    let ghost creations = creation_paths(model.rewrite_scope.node_creations);
    let ghost paths = targets + creations;
    let mut i: usize = 0;
    while i < scope.rewrite_targets.len()
        invariant
            i <= scope.rewrite_targets.len(),
            model == request.deep_view(),
            disk == files.deep_view(),
            scope.deep_view() == model.rewrite_scope,
            targets == target_paths(model.rewrite_scope.rewrite_targets),
            creations == creation_paths(model.rewrite_scope.node_creations),
            paths == targets + creations,
            model.heading_problem_from(disk, paths, 0) == model.heading_problem_from(
                disk,
                paths,
                i as int,
            ),
        decreases scope.rewrite_targets.len() - i,
    {
        let path: &str = scope.rewrite_targets[i].relative_path.as_str();
        assert(paths[i as int] == path@);
        proof {
            reveal_with_fuel(RefineRewriteRequestModel::heading_problem_from, 2);
        }
        check_heading(request, files, path)?;
        i = i + 1;
    }
    let mut j: usize = 0;
    while j < scope.node_creations.len()
        invariant
            j <= scope.node_creations.len(),
            model == request.deep_view(),
            disk == files.deep_view(),
            scope.deep_view() == model.rewrite_scope,
            targets == target_paths(model.rewrite_scope.rewrite_targets),
            creations == creation_paths(model.rewrite_scope.node_creations),
            paths == targets + creations,
            model.heading_problem_from(disk, paths, 0) == model.heading_problem_from(
                disk,
                paths,
                targets.len() + j,
            ),
        decreases scope.node_creations.len() - j,
    {
        let path: &str = scope.node_creations[j].relative_path.as_str();
        assert(paths[targets.len() + j] == path@);
        proof {
            reveal_with_fuel(RefineRewriteRequestModel::heading_problem_from, 2);
        }
        check_heading(request, files, path)?;
        j = j + 1;
    }
    let ghost parents = relinked_paths(model.rewrite_scope.link_changes);
    let mut k: usize = 0;
    while k < scope.link_changes.len()
        invariant
            k <= scope.link_changes.len(),
            model == request.deep_view(),
            disk == files.deep_view(),
            scope.deep_view() == model.rewrite_scope,
            parents == relinked_paths(model.rewrite_scope.link_changes),
            model.written_problem(disk) == model.link_problem_from(disk, parents, k as int),
        decreases scope.link_changes.len() - k,
    {
        let parent: &str = scope.link_changes[k].parent_relative_path.as_str();
        assert(parents[k as int] == parent@);
        if files.is_file(parent) {
            let markdown: String = read_plan_markdown(request, files, parent)?;
            let rows: Vec<ChildLinkRow> = parse_existing_child_links(parent, markdown.as_str())?;
            let ghost all = rows.deep_view();
            let mut m: usize = 0;
            while m < rows.len()
                invariant
                    m <= rows.len(),
                    all == rows.deep_view(),
                    model == request.deep_view(),
                    disk == files.deep_view(),
                    k < scope.link_changes.len(),
                    scope.deep_view() == model.rewrite_scope,
                    parents == relinked_paths(model.rewrite_scope.link_changes),
                    parents[k as int] == parent@,
                    disk.is_file(parent@),
                    model.read(disk, parent@) == Ok::<Seq<char>, RefineRewriteErrorModel>(
                        markdown@,
                    ),
                    link_rows(parent@, markdown@) == Ok::<
                        Seq<ChildLinkRowModel>,
                        RefineRewriteErrorModel,
                    >(all),
                    model.written_problem(disk) == model.link_problem_from(
                        disk,
                        parents,
                        k as int,
                    ),
                    broken_row_from(disk, all, 0) == broken_row_from(disk, all, m as int),
                decreases rows.len() - m,
            {
                let path: &str = rows[m].canonical_path.as_str();
                assert(all[m as int].canonical_path == path@);
                if !files.is_file(path) {
                    return Err(
                        RefineRewriteError::PostWriteStructureViolation {
                            relative_path: parent.to_owned(),
                            reason: concat2("broken child link: ", path),
                        },
                    );
                }
                m = m + 1;
            }
        }
        k = k + 1;
    }
    Ok(())
}

/// The answer for what was done. There is always one.
pub fn assemble_refine_rewrite_result(
    request: &RefineRewriteRequest,
    reports: MutationReports,
) -> (r: Result<RefineRewriteResult, RefineRewriteError>)
    ensures
        outcome(r) == Ok::<RefineRewriteResultModel, RefineRewriteErrorModel>(
            request.deep_view().answer(reports.deep_view()),
        ),
{
    let ghost model = request.deep_view();
    let mut targets: Vec<ExpectedGateRevalidation> = Vec::new();
    let mut i: usize = 0;
    assert(targets.deep_view() =~= Seq::empty());
    while i < request.decisions.len()
        invariant
            i <= request.decisions.len(),
            model == request.deep_view(),
            expected_targets_from(model.decisions, 0, Seq::empty()) == expected_targets_from(
                model.decisions,
                i as int,
                targets.deep_view(),
            ),
        decreases request.decisions.len() - i,
    {
        assert(model.decisions[i as int] == request.decisions@[i as int].deep_view());
        let ghost before = targets.deep_view();
        let mut more: Vec<ExpectedGateRevalidation> =
            request.decisions[i].expected_gate_revalidation.clone();
        let ghost copied = more.deep_view();
        assert(copied =~= model.decisions[i as int].expected_gate_revalidation);
        targets.append(&mut more);
        assert(targets.deep_view() =~= before + copied);
        i = i + 1;
    }
    let summary: RefineRewriteSummary = build_refine_rewrite_summary(
        &reports.changed_files,
        &reports.structural_changes,
        &reports.stale_nodes,
        &targets,
        &request.blocked_follow_ups,
        reports.context_invalidations.len(),
        reports.unchanged_nodes.len(),
    );
    let unresolved_follow_ups: Vec<RefineDecision> = request.blocked_follow_ups.clone();
    assert(unresolved_follow_ups.deep_view() =~= request.blocked_follow_ups.deep_view());
    Ok(
        RefineRewriteResult {
            changed_files: reports.changed_files,
            structural_changes: reports.structural_changes,
            stale_nodes: reports.stale_nodes,
            context_invalidations: reports.context_invalidations,
            unchanged_nodes: reports.unchanged_nodes,
            expected_gate_targets: targets,
            unresolved_follow_ups,
            summary,
        },
    )
}

/// Applies a rewrite: checks the whole request first, then takes comments out,
/// rewrites, makes and removes files, marks stale nodes and changes links, and
/// checks what was written. It stops at the first error.
pub fn apply_refine_rewrite(request: RefineRewriteRequest, files: &mut PlanFiles) -> (r: Result<
    RefineRewriteResult,
    RefineRewriteError,
>)
    ensures
        (final(files).deep_view(), outcome(r)) == request.deep_view().applied(
            old(files).deep_view(),
        ),
{
    validate_refine_rewrite_request(&request, files)?;
    let payloads: Vec<(String, String)> = cleanup_processed_comment_blocks(&request, files)?;
    let mut reports: MutationReports = MutationReports::default();
    apply_in_place_node_rewrites(&request, files, &payloads, &mut reports)?;
    create_new_node_files(&request, files, &mut reports)?;
    apply_explicit_removals(&request, files, &mut reports)?;
    mark_stale_nodes(&request, files, &payloads, &mut reports)?;
    let merged: Vec<MergedLinkChange> = match merge_link_changes(
        &request.rewrite_scope.link_changes,
    ) {
        Some(merged) => merged,
        None => {
            return Err(RefineRewriteError::InvalidRewriteScope);
        },
    };
    apply_rewrite_link_updates(&request, files, &payloads, &merged, &mut reports)?;
    run_post_write_structural_checks(&request, files)?;
    assemble_refine_rewrite_result(&request, reports)
}

} // verus!
