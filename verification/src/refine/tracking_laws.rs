//! Which candidates for gates are tracked, and what their targets say of them.
use super::gate_registration::{
    at_path, by_depth, candidate_paths, markdown_problem_from, parents_are_ordered_by_depth,
    KnownCandidates, ReconciledParentModel,
};
use super::gate_targets::with_all_unique_from;
use super::registration_laws::{
    covers_request, has_leaf_target, has_node_at, is_frontier_target_of, is_leaf_target_of,
    parent_is_registered, reasons_are_kept_once, registration_tracks_every_target,
};
use super::registration_types::{
    RefineFrontierRegistrationCandidateModel, RefineGateTargetReason,
    RefineLeafRegistrationCandidateModel, RefineParentRegistrationCandidateModel,
    RegisterRefineGateTargetsRequestModel, RegisteredRefineFrontierTargetModel,
    RegisteredRefineGateTargetsModel,
};
use super::rewrite_laws::taken_up_texts_stay_unique;
use crate::api::{InspectNodeRequestModel, NodeKind};
use crate::files::PlanFilesModel;
use crate::paths::{components, file_stem, is_plan_markdown, parent_name};
use crate::runtime::child_links::child_link_paths;
use crate::runtime::store::RuntimeModel;
use vstd::prelude::*;

verus! {

// ---------------------------------------------------------------------
// Fit candidates
// ---------------------------------------------------------------------
/// The file has the name of its directory.
pub open spec fn is_named_as_its_directory(path: Seq<char>) -> bool {
    file_stem(path) is Some && parent_name(path) == file_stem(path)
}

/// The node of the plan at the path can be shown, and is of this kind.
pub open spec fn is_remembered_as(
    runtime: RuntimeModel,
    plan_id: Seq<char>,
    path: Seq<char>,
    kind: NodeKind,
) -> bool {
    runtime.inspection(
        (InspectNodeRequestModel { plan_id, node_id: None, relative_path: Some(path) }),
    ) matches Ok(node) && node.node_kind == kind
}

/// The path is one for a parent: it is a markdown path of the plan, and the file
/// has the name of its directory or stands at the top.
pub open spec fn is_parent_place(path: Seq<char>) -> bool {
    &&& is_plan_markdown(path)
    &&& is_named_as_its_directory(path) || components(path).len() == 1
}

/// The parent is remembered, or is one of those that are to be tracked.
pub open spec fn is_known_parent(
    runtime: RuntimeModel,
    request: RegisterRefineGateTargetsRequestModel,
    path: Seq<char>,
) -> bool {
    ||| is_remembered_as(runtime, request.plan_id, path, NodeKind::Parent)
    ||| exists|k: int|
        0 <= k < request.parent_candidates.len() && (
        #[trigger] request.parent_candidates[k]).relative_path == path
}

/// Nothing of another kind is remembered at the path.
pub open spec fn is_free_for(
    runtime: RuntimeModel,
    plan_id: Seq<char>,
    path: Seq<char>,
    kind: NodeKind,
) -> bool {
    runtime.inspection(
        (InspectNodeRequestModel { plan_id, node_id: None, relative_path: Some(path) }),
    ) matches Ok(node) ==> node.node_kind == kind
}

/// A parent can be tracked.
pub open spec fn is_fit_parent(
    runtime: RuntimeModel,
    request: RegisterRefineGateTargetsRequestModel,
    candidate: RefineParentRegistrationCandidateModel,
) -> bool {
    &&& candidate.reasons.len() > 0
    &&& is_parent_place(candidate.relative_path)
    &&& is_free_for(runtime, request.plan_id, candidate.relative_path, NodeKind::Parent)
    &&& candidate.parent_relative_path matches Some(parent) ==> is_parent_place(parent)
        && is_known_parent(runtime, request, parent)
}

/// A leaf can be tracked.
pub open spec fn is_fit_leaf(
    runtime: RuntimeModel,
    request: RegisterRefineGateTargetsRequestModel,
    candidate: RefineLeafRegistrationCandidateModel,
) -> bool {
    &&& candidate.reasons.len() > 0
    &&& is_plan_markdown(candidate.relative_path)
    &&& !is_named_as_its_directory(candidate.relative_path)
    &&& is_free_for(runtime, request.plan_id, candidate.relative_path, NodeKind::Leaf)
    &&& match candidate.parent_relative_path {
        Some(parent) => is_parent_place(parent) && is_known_parent(runtime, request, parent),
        None => !candidate.relative_path.contains('/'),
    }
}

/// The child belongs to the parent: one of the candidates stands there below it,
/// its file links it, it is remembered below it, or it was removed and is not
/// remembered below another.
pub open spec fn belongs_to(
    runtime: RuntimeModel,
    files: PlanFilesModel,
    request: RegisterRefineGateTargetsRequestModel,
    candidate: RefineFrontierRegistrationCandidateModel,
    child: Seq<char>,
) -> bool {
    let parent = candidate.parent_relative_path;
    ||| exists|k: int|
        0 <= k < request.leaf_candidates.len() && (
        #[trigger] request.leaf_candidates[k]).relative_path == child
            && request.leaf_candidates[k].parent_relative_path == Some(parent)
    ||| exists|k: int|
        0 <= k < request.parent_candidates.len() && (
        #[trigger] request.parent_candidates[k]).relative_path == child
            && request.parent_candidates[k].parent_relative_path == Some(parent)
    ||| files.read(parent) matches Ok(markdown) && (child_link_paths(parent, markdown) matches Ok(
        links,
    ) && links.contains(child))
    ||| match runtime.inspection(
        (InspectNodeRequestModel {
            plan_id: request.plan_id,
            node_id: None,
            relative_path: Some(child),
        }),
    ) {
        Ok(node) => node.parent_relative_path == Some(parent) || (
        node.parent_relative_path is None && candidate.removed_child_relative_paths.contains(
            child,
        )),
        Err(_) => candidate.removed_child_relative_paths.contains(child),
    }
}

/// A frontier can be tracked.
pub open spec fn is_fit_frontier(
    runtime: RuntimeModel,
    files: PlanFilesModel,
    request: RegisterRefineGateTargetsRequestModel,
    candidate: RefineFrontierRegistrationCandidateModel,
) -> bool {
    &&& candidate.reasons.len() > 0
    &&& is_parent_place(candidate.parent_relative_path)
    &&& is_known_parent(runtime, request, candidate.parent_relative_path)
    &&& forall|c: int|
        0 <= c < candidate.changed_child_relative_paths.len() ==> is_plan_markdown(
            #[trigger] candidate.changed_child_relative_paths[c],
        ) && belongs_to(
            runtime,
            files,
            request,
            candidate,
            candidate.changed_child_relative_paths[c],
        )
    &&& forall|c: int|
        0 <= c < candidate.removed_child_relative_paths.len() ==> is_plan_markdown(
            #[trigger] candidate.removed_child_relative_paths[c],
        )
}

proof fn ordered_parents_are_the_parents(
    request: RegisterRefineGateTargetsRequestModel,
    candidate: RefineParentRegistrationCandidateModel,
)
    ensures
        by_depth(
            request.parent_candidates,
            request.parent_candidates.len() as int,
        ).contains(candidate) <==> request.parent_candidates.contains(candidate),
{
    let all = request.parent_candidates;
    let ordered = by_depth(all, all.len() as int);
    parents_are_ordered_by_depth(all);
    ordered.to_multiset_ensures();
    all.to_multiset_ensures();
    assert(ordered.to_multiset().count(candidate) > 0 <==> ordered.contains(candidate));
    assert(all.to_multiset().count(candidate) > 0 <==> all.contains(candidate));
}

proof fn known_parents_are_known(
    runtime: RuntimeModel,
    request: RegisterRefineGateTargetsRequestModel,
    path: Seq<char>,
    parent: Seq<char>,
)
    requires
        runtime.unknown_parent(
            request.plan_id,
            path,
            parent,
            candidate_paths(
                by_depth(request.parent_candidates, request.parent_candidates.len() as int),
            ),
        ) is None,
    ensures
        is_known_parent(runtime, request, parent),
{
    let all = request.parent_candidates;
    let ordered = by_depth(all, all.len() as int);
    let paths = candidate_paths(ordered);
    if paths.contains(parent) {
        let k = choose|k: int| 0 <= k < paths.len() && paths[k] == parent;
        ordered_parents_are_the_parents(request, ordered[k]);
        assert(ordered.contains(ordered[k]));
        let m = choose|m: int| 0 <= m < all.len() && all[m] == ordered[k];
        assert(all[m].relative_path == parent);
    }
}

proof fn parents_are_fit(
    runtime: RuntimeModel,
    files: PlanFilesModel,
    request: RegisterRefineGateTargetsRequestModel,
    i: int,
)
    requires
        ({
            let ordered = by_depth(
                request.parent_candidates,
                request.parent_candidates.len() as int,
            );
            &&& 0 <= i <= ordered.len()
            &&& runtime.parent_candidates_problem_from(files, request.plan_id, ordered, i) is None
        }),
    ensures
        ({
            let ordered = by_depth(
                request.parent_candidates,
                request.parent_candidates.len() as int,
            );
            forall|k: int|
                i <= k < ordered.len() ==> is_fit_parent(runtime, request, #[trigger] ordered[k])
        }),
    decreases
            by_depth(request.parent_candidates, request.parent_candidates.len() as int).len() - i,
{
    let ordered = by_depth(request.parent_candidates, request.parent_candidates.len() as int);
    if i < ordered.len() {
        let candidate = ordered[i];
        if let Some(parent) = candidate.parent_relative_path {
            known_parents_are_known(runtime, request, candidate.relative_path, parent);
        }
        assert(is_fit_parent(runtime, request, candidate));
        parents_are_fit(runtime, files, request, i + 1);
    }
}

proof fn leaves_are_fit(
    runtime: RuntimeModel,
    files: PlanFilesModel,
    request: RegisterRefineGateTargetsRequestModel,
    i: int,
)
    requires
        0 <= i <= request.leaf_candidates.len(),
        runtime.leaf_candidates_problem_from(
            files,
            request.plan_id,
            request.leaf_candidates,
            candidate_paths(
                by_depth(request.parent_candidates, request.parent_candidates.len() as int),
            ),
            i,
        ) is None,
    ensures
        forall|k: int|
            i <= k < request.leaf_candidates.len() ==> is_fit_leaf(
                runtime,
                request,
                #[trigger] request.leaf_candidates[k],
            ),
    decreases request.leaf_candidates.len() - i,
{
    if i < request.leaf_candidates.len() {
        let candidate = request.leaf_candidates[i];
        if let Some(parent) = candidate.parent_relative_path {
            known_parents_are_known(runtime, request, candidate.relative_path, parent);
        }
        assert(is_fit_leaf(runtime, request, candidate));
        leaves_are_fit(runtime, files, request, i + 1);
    }
}

proof fn candidate_below(
    request: RegisterRefineGateTargetsRequestModel,
    known: KnownCandidates,
    child: Seq<char>,
    parent: Seq<char>,
)
    requires
        known.leaves == request.leaf_candidates,
        known.parents == by_depth(
            request.parent_candidates,
            request.parent_candidates.len() as int,
        ),
        known.parent_of(child) == Some(Some(parent)),
    ensures
        (exists|k: int|
            0 <= k < request.leaf_candidates.len() && (
            #[trigger] request.leaf_candidates[k]).relative_path == child
                && request.leaf_candidates[k].parent_relative_path == Some(parent)) || (exists|k: int|
            0 <= k < request.parent_candidates.len() && (
            #[trigger] request.parent_candidates[k]).relative_path == child
                && request.parent_candidates[k].parent_relative_path == Some(parent)),
{
    leaf_below(known, child, known.leaves.len() as int);
    parent_below(known, child, known.parents.len() as int);
    if known.parent_of_leaf(child, known.leaves.len() as int) is None {
        let k = choose|k: int|
            0 <= k < known.parents.len() && (#[trigger] known.parents[k]).relative_path == child
                && Some(known.parents[k].parent_relative_path) == known.parent_of_parent(
                child,
                known.parents.len() as int,
            );
        ordered_parents_are_the_parents(request, known.parents[k]);
        assert(known.parents.contains(known.parents[k]));
        let all = request.parent_candidates;
        let m = choose|m: int| 0 <= m < all.len() && all[m] == known.parents[k];
        assert(all[m].relative_path == child);
    }
}

proof fn leaf_below(known: KnownCandidates, child: Seq<char>, n: int)
    requires
        0 <= n <= known.leaves.len(),
    ensures
        known.parent_of_leaf(child, n) matches Some(parent) ==> exists|k: int|
            0 <= k < known.leaves.len() && (#[trigger] known.leaves[k]).relative_path == child
                && known.leaves[k].parent_relative_path == parent,
    decreases n,
{
    if n > 0 {
        if known.leaves[n - 1].relative_path != child {
            leaf_below(known, child, n - 1);
        }
    }
}

proof fn parent_below(known: KnownCandidates, child: Seq<char>, n: int)
    requires
        0 <= n <= known.parents.len(),
    ensures
        known.parent_of_parent(child, n) matches Some(parent) ==> exists|k: int|
            0 <= k < known.parents.len() && (#[trigger] known.parents[k]).relative_path == child
                && known.parents[k].parent_relative_path == parent,
    decreases n,
{
    if n > 0 {
        if known.parents[n - 1].relative_path != child {
            parent_below(known, child, n - 1);
        }
    }
}

proof fn children_belong(
    runtime: RuntimeModel,
    files: PlanFilesModel,
    request: RegisterRefineGateTargetsRequestModel,
    candidate: RefineFrontierRegistrationCandidateModel,
    links: Seq<Seq<char>>,
    known: KnownCandidates,
    i: int,
    missing: Seq<Seq<char>>,
)
    requires
        0 <= i <= candidate.changed_child_relative_paths.len(),
        known.leaves == request.leaf_candidates,
        known.parents == by_depth(
            request.parent_candidates,
            request.parent_candidates.len() as int,
        ),
        files.read(candidate.parent_relative_path) is Ok,
        child_link_paths(
            candidate.parent_relative_path,
            files.read(candidate.parent_relative_path)->Ok_0,
        ) matches Ok(found) && found == links,
    ensures
        runtime.missing_children_from(
            request.plan_id,
            candidate,
            links,
            Some(known),
            i,
            missing,
        ) matches Ok(out) ==> out.len() >= missing.len() && (out.len() == 0 ==> forall|c: int|
            i <= c < candidate.changed_child_relative_paths.len() ==> is_plan_markdown(
                #[trigger] candidate.changed_child_relative_paths[c],
            ) && belongs_to(
                runtime,
                files,
                request,
                candidate,
                candidate.changed_child_relative_paths[c],
            )),
    decreases candidate.changed_child_relative_paths.len() - i,
{
    if i < candidate.changed_child_relative_paths.len() {
        let child = candidate.changed_child_relative_paths[i];
        let next = if runtime.child_in_scope(
            request.plan_id,
            candidate,
            child,
            links,
            Some(known),
        ) {
            if known.parent_of(child) == Some(Some(candidate.parent_relative_path)) {
                candidate_below(request, known, child, candidate.parent_relative_path);
            }
            assert(belongs_to(runtime, files, request, candidate, child));
            missing
        } else {
            missing.push(child)
        };
        children_belong(runtime, files, request, candidate, links, known, i + 1, next);
    }
}

proof fn removed_paths_are_checked(field: Seq<char>, paths: Seq<Seq<char>>, i: int)
    requires
        0 <= i <= paths.len(),
        markdown_problem_from(field, paths, i) is None,
    ensures
        forall|k: int| i <= k < paths.len() ==> is_plan_markdown(#[trigger] paths[k]),
    decreases paths.len() - i,
{
    if i < paths.len() {
        removed_paths_are_checked(field, paths, i + 1);
    }
}

proof fn frontiers_are_fit(
    runtime: RuntimeModel,
    files: PlanFilesModel,
    request: RegisterRefineGateTargetsRequestModel,
    known: KnownCandidates,
    i: int,
)
    requires
        0 <= i <= request.frontier_candidates.len(),
        known.leaves == request.leaf_candidates,
        known.parents == by_depth(
            request.parent_candidates,
            request.parent_candidates.len() as int,
        ),
        runtime.frontier_candidates_problem_from(
            files,
            request.plan_id,
            request.frontier_candidates,
            known,
            i,
        ) is None,
    ensures
        forall|k: int|
            i <= k < request.frontier_candidates.len() ==> is_fit_frontier(
                runtime,
                files,
                request,
                #[trigger] request.frontier_candidates[k],
            ),
    decreases request.frontier_candidates.len() - i,
{
    if i < request.frontier_candidates.len() {
        let candidate = request.frontier_candidates[i];
        let parent = candidate.parent_relative_path;
        known_parents_are_known(runtime, request, parent, parent);
        removed_paths_are_checked(
            "removed_child_relative_paths"@,
            candidate.removed_child_relative_paths,
            0,
        );
        let links = runtime.linked_paths(files, request.plan_id, parent)->Ok_0;
        children_belong(runtime, files, request, candidate, links, known, 0, Seq::empty());
        assert(is_fit_frontier(runtime, files, request, candidate));
        frontiers_are_fit(runtime, files, request, known, i + 1);
    }
}

/// Only fit candidates are tracked: each has a reason, stands at a place for its
/// kind where nothing of another kind is remembered, and below a parent that is
/// remembered or is to be tracked; and the changed children of a frontier belong
/// to it.
pub proof fn accepted_candidates_are_fit(
    runtime: RuntimeModel,
    files: PlanFilesModel,
    request: RegisterRefineGateTargetsRequestModel,
    new_ids: Seq<Seq<char>>,
    timestamp: Seq<char>,
)
    requires
        runtime.targets_registered(files, request, new_ids, timestamp).1 is Ok,
    ensures
        forall|k: int|
            0 <= k < request.parent_candidates.len() ==> is_fit_parent(
                runtime,
                request,
                #[trigger] request.parent_candidates[k],
            ),
        forall|k: int|
            0 <= k < request.leaf_candidates.len() ==> is_fit_leaf(
                runtime,
                request,
                #[trigger] request.leaf_candidates[k],
            ),
        forall|k: int|
            0 <= k < request.frontier_candidates.len() ==> is_fit_frontier(
                runtime,
                files,
                request,
                #[trigger] request.frontier_candidates[k],
            ),
{
    let all = request.parent_candidates;
    let ordered = by_depth(all, all.len() as int);
    parents_are_fit(runtime, files, request, 0);
    leaves_are_fit(runtime, files, request, 0);
    frontiers_are_fit(
        runtime,
        files,
        request,
        KnownCandidates { parents: ordered, leaves: request.leaf_candidates },
        0,
    );
    assert forall|k: int| 0 <= k < all.len() implies is_fit_parent(
        runtime,
        request,
        #[trigger] all[k],
    ) by {
        ordered_parents_are_the_parents(request, all[k]);
        assert(all.contains(all[k]));
        let m = choose|m: int| 0 <= m < ordered.len() && ordered[m] == all[k];
        assert(is_fit_parent(runtime, request, ordered[m]));
    }
}

// ---------------------------------------------------------------------
// The targets
// ---------------------------------------------------------------------
/// The same reasons, each once.
pub open spec fn are_the_reasons(
    told: Seq<RefineGateTargetReason>,
    reasons: Seq<RefineGateTargetReason>,
) -> bool {
    &&& told.no_duplicates()
    &&& forall|reason: RefineGateTargetReason| #[trigger]
        told.contains(reason) <==> reasons.contains(reason)
}

/// One of the parent targets is that of the candidate: at its path, below its
/// parent, for its reasons, under the id of a node that is remembered there.
pub open spec fn is_parent_tracked(
    runtime: RuntimeModel,
    plan_id: Seq<char>,
    targets: RegisteredRefineGateTargetsModel,
    candidate: RefineParentRegistrationCandidateModel,
) -> bool {
    exists|m: int|
        0 <= m < targets.parent_targets.len() && (
        #[trigger] targets.parent_targets[m]).relative_path == candidate.relative_path
            && targets.parent_targets[m].parent_relative_path == candidate.parent_relative_path
            && are_the_reasons(targets.parent_targets[m].reasons, candidate.reasons) && has_node_at(
            runtime,
            plan_id,
            targets.parent_targets[m].node_id,
            candidate.relative_path,
        )
}

/// One of the leaf targets is that of the candidate.
pub open spec fn is_leaf_tracked(
    runtime: RuntimeModel,
    plan_id: Seq<char>,
    targets: RegisteredRefineGateTargetsModel,
    candidate: RefineLeafRegistrationCandidateModel,
) -> bool {
    exists|m: int|
        0 <= m < targets.leaf_targets.len() && (#[trigger] targets.leaf_targets[m]).relative_path
            == candidate.relative_path && targets.leaf_targets[m].parent_relative_path
            == candidate.parent_relative_path && are_the_reasons(
            targets.leaf_targets[m].reasons,
            candidate.reasons,
        ) && has_node_at(
            runtime,
            plan_id,
            targets.leaf_targets[m].node_id,
            candidate.relative_path,
        )
}

/// The frontier target is that of the candidate.
pub open spec fn is_frontier_tracked(
    runtime: RuntimeModel,
    plan_id: Seq<char>,
    target: RegisteredRefineFrontierTargetModel,
    candidate: RefineFrontierRegistrationCandidateModel,
) -> bool {
    &&& target.parent_relative_path == candidate.parent_relative_path
    &&& are_the_reasons(target.reasons, candidate.reasons)
    &&& has_node_at(runtime, plan_id, target.parent_node_id, candidate.parent_relative_path)
}

/// After an accepted registration each candidate has its target, and there are no
/// others.
pub proof fn each_candidate_has_its_target(
    runtime: RuntimeModel,
    files: PlanFilesModel,
    request: RegisterRefineGateTargetsRequestModel,
    new_ids: Seq<Seq<char>>,
    timestamp: Seq<char>,
)
    requires
        runtime.is_sound(),
        runtime.targets_registered(files, request, new_ids, timestamp).1 is Ok,
    ensures
        ({
            let (next, result) = runtime.targets_registered(files, request, new_ids, timestamp);
            let targets = result->Ok_0;
            &&& targets.parent_targets.len() == request.parent_candidates.len()
            &&& targets.leaf_targets.len() == request.leaf_candidates.len()
            &&& targets.frontier_targets.len() == request.frontier_candidates.len()
            &&& forall|k: int|
                0 <= k < request.parent_candidates.len() ==> is_parent_tracked(
                    next,
                    request.plan_id,
                    targets,
                    #[trigger] request.parent_candidates[k],
                )
            &&& forall|k: int|
                0 <= k < request.leaf_candidates.len() ==> is_leaf_tracked(
                    next,
                    request.plan_id,
                    targets,
                    #[trigger] request.leaf_candidates[k],
                )
            &&& forall|k: int|
                0 <= k < request.frontier_candidates.len() ==> is_frontier_tracked(
                    next,
                    request.plan_id,
                    #[trigger] targets.frontier_targets[k],
                    request.frontier_candidates[k],
                )
        }),
{
    let (next, result) = runtime.targets_registered(files, request, new_ids, timestamp);
    let targets = result->Ok_0;
    let all = request.parent_candidates;
    let ordered = by_depth(all, all.len() as int);
    registration_tracks_every_target(runtime, files, request, new_ids, timestamp);
    parents_are_ordered_by_depth(all);
    assert(covers_request(next, request, targets));
    assert forall|k: int| 0 <= k < all.len() implies is_parent_tracked(
        next,
        request.plan_id,
        targets,
        #[trigger] all[k],
    ) by {
        ordered_parents_are_the_parents(request, all[k]);
        assert(all.contains(all[k]));
        let m = choose|m: int| 0 <= m < ordered.len() && ordered[m] == all[k];
        assert(parent_is_registered(
            next,
            request.plan_id,
            ordered[m],
            targets.parent_targets[m],
        ));
        reasons_are_kept_once(all[k].reasons);
    }
    assert forall|k: int| 0 <= k < request.leaf_candidates.len() implies is_leaf_tracked(
        next,
        request.plan_id,
        targets,
        #[trigger] request.leaf_candidates[k],
    ) by {
        let candidate = request.leaf_candidates[k];
        assert(has_leaf_target(targets.leaf_targets, candidate));
        let m = choose|m: int|
            0 <= m < targets.leaf_targets.len() && is_leaf_target_of(
                candidate,
                #[trigger] targets.leaf_targets[m],
            );
        assert(has_node_at(
            next,
            request.plan_id,
            targets.leaf_targets[m].node_id,
            targets.leaf_targets[m].relative_path,
        ));
        reasons_are_kept_once(candidate.reasons);
    }
    assert forall|k: int| 0 <= k < request.frontier_candidates.len() implies is_frontier_tracked(
        next,
        request.plan_id,
        #[trigger] targets.frontier_targets[k],
        request.frontier_candidates[k],
    ) by {
        let target = targets.frontier_targets[k];
        assert(is_frontier_target_of(
            request.frontier_candidates[k],
            target.parent_node_id,
            target,
        ));
        reasons_are_kept_once(request.frontier_candidates[k].reasons);
    }
}

proof fn named_children(
    runtime: RuntimeModel,
    plan_id: Seq<char>,
    removed: Seq<Seq<char>>,
    children: Seq<Seq<char>>,
    i: int,
    acc: Seq<Seq<char>>,
    child: Seq<char>,
)
    requires
        0 <= i <= children.len(),
    ensures
        runtime.dispatchable_from(plan_id, removed, children, i, acc).contains(child)
            <==> acc.contains(child) || ((!removed.contains(child) || runtime.inspection(
            at_path(plan_id, child),
        ) is Ok) && (exists|k: int| i <= k < children.len() && #[trigger] children[k] == child)),
    decreases children.len() - i,
{
    if i < children.len() {
        let one = children[i];
        if !removed.contains(one) || runtime.inspection(at_path(plan_id, one)) is Ok {
            let more = acc.push(one);
            assert(more.contains(child) <==> acc.contains(child) || child == one) by {
                assert(more[acc.len() as int] == one);
                if acc.contains(child) {
                    let k = choose|k: int| 0 <= k < acc.len() && acc[k] == child;
                    assert(more[k] == child);
                }
                if more.contains(child) {
                    let k = choose|k: int| 0 <= k < more.len() && more[k] == child;
                    if k < acc.len() {
                        assert(acc[k] == child);
                    }
                }
            }
            named_children(runtime, plan_id, removed, children, i + 1, more, child);
        } else {
            named_children(runtime, plan_id, removed, children, i + 1, acc, child);
        }
        if exists|k: int| i <= k < children.len() && #[trigger] children[k] == child {
            let k = choose|k: int| i <= k < children.len() && #[trigger] children[k] == child;
            if k > i {
                assert(children[k] == child);
            }
        }
        if exists|k: int| i + 1 <= k < children.len() && #[trigger] children[k] == child {
            let k = choose|k: int| i + 1 <= k < children.len() && #[trigger] children[k] == child;
            assert(children[k] == child);
        }
    }
}

/// The target names the children that the candidate names as changed or removed,
/// each once, but for the removed ones that are not remembered any more.
pub open spec fn names_its_children(
    runtime: RuntimeModel,
    plan_id: Seq<char>,
    target: RegisteredRefineFrontierTargetModel,
    candidate: RefineFrontierRegistrationCandidateModel,
) -> bool {
    &&& target.changed_child_relative_paths.no_duplicates()
    &&& forall|child: Seq<char>| #[trigger]
        target.changed_child_relative_paths.contains(child) <==> {
            &&& candidate.changed_child_relative_paths.contains(child)
                || candidate.removed_child_relative_paths.contains(child)
            &&& !candidate.removed_child_relative_paths.contains(child) || runtime.inspection(
                (InspectNodeRequestModel {
                    plan_id,
                    node_id: None,
                    relative_path: Some(child),
                }),
            ) is Ok
        }
}

proof fn one_frontier_names_its_children(
    runtime: RuntimeModel,
    plan_id: Seq<char>,
    candidate: RefineFrontierRegistrationCandidateModel,
    parent_node_id: Seq<char>,
    reconciled: Seq<ReconciledParentModel>,
)
    ensures
        runtime.frontier_registered(plan_id, candidate, parent_node_id, reconciled) matches Ok(
            target,
        ) ==> names_its_children(runtime, plan_id, target, candidate),
{
    if let Ok(target) = runtime.frontier_registered(
        plan_id,
        candidate,
        parent_node_id,
        reconciled,
    ) {
        let changed = candidate.changed_child_relative_paths;
        let removed = candidate.removed_child_relative_paths;
        let both = changed + removed;
        let named = runtime.dispatchable_from(plan_id, removed, both, 0, Seq::empty());
        let none = Seq::<Seq<char>>::empty();
        taken_up_texts_stay_unique(none, named, 0);
        assert(named.skip(0) =~= named);
        assert forall|child: Seq<char>| #[trigger]
            target.changed_child_relative_paths.contains(child) <==> {
            &&& changed.contains(child) || removed.contains(child)
            &&& !removed.contains(child) || runtime.inspection(
                (InspectNodeRequestModel {
                    plan_id,
                    node_id: None,
                    relative_path: Some(child),
                }),
            ) is Ok
        } by {
            named_children(runtime, plan_id, removed, both, 0, none, child);
            assert(!none.contains(child));
            assert(target.changed_child_relative_paths == with_all_unique_from(none, named, 0));
            if changed.contains(child) {
                let k = choose|k: int| 0 <= k < changed.len() && changed[k] == child;
                assert(both[k] == child);
            }
            if removed.contains(child) {
                let k = choose|k: int| 0 <= k < removed.len() && removed[k] == child;
                assert(both[changed.len() + k] == child);
            }
            if exists|k: int| 0 <= k < both.len() && #[trigger] both[k] == child {
                let k = choose|k: int| 0 <= k < both.len() && #[trigger] both[k] == child;
                if k < changed.len() {
                    assert(changed[k] == child);
                } else {
                    assert(removed[k - changed.len()] == child);
                }
            }
        }
    }
}

proof fn frontiers_name_their_children(
    runtime: RuntimeModel,
    plan_id: Seq<char>,
    frontiers: Seq<RefineFrontierRegistrationCandidateModel>,
    node_ids: Seq<Seq<char>>,
    reconciled: Seq<ReconciledParentModel>,
    i: int,
    acc: Seq<RegisteredRefineFrontierTargetModel>,
)
    requires
        0 <= i <= frontiers.len(),
        acc.len() == i,
        forall|k: int|
            0 <= k < i ==> names_its_children(runtime, plan_id, #[trigger] acc[k], frontiers[k]),
    ensures
        runtime.frontiers_registered_from(
            plan_id,
            frontiers,
            node_ids,
            reconciled,
            i,
            acc,
        ) matches Ok(targets) ==> targets.len() == frontiers.len() && forall|k: int|
            0 <= k < targets.len() ==> names_its_children(
                runtime,
                plan_id,
                #[trigger] targets[k],
                frontiers[k],
            ),
    decreases frontiers.len() - i,
{
    if i < frontiers.len() {
        one_frontier_names_its_children(
            runtime,
            plan_id,
            frontiers[i],
            node_ids[i],
            reconciled,
        );
        if let Ok(target) = runtime.frontier_registered(
            plan_id,
            frontiers[i],
            node_ids[i],
            reconciled,
        ) {
            frontiers_name_their_children(
                runtime,
                plan_id,
                frontiers,
                node_ids,
                reconciled,
                i + 1,
                acc.push(target),
            );
        }
    }
}

/// After an accepted registration each frontier names its changed children and
/// those of its removed children that are still remembered.
pub proof fn tracked_frontiers_name_their_children(
    runtime: RuntimeModel,
    files: PlanFilesModel,
    request: RegisterRefineGateTargetsRequestModel,
    new_ids: Seq<Seq<char>>,
    timestamp: Seq<char>,
)
    requires
        runtime.targets_registered(files, request, new_ids, timestamp).1 is Ok,
    ensures
        ({
            let (next, result) = runtime.targets_registered(files, request, new_ids, timestamp);
            let targets = result->Ok_0.frontier_targets;
            &&& targets.len() == request.frontier_candidates.len()
            &&& forall|k: int|
                0 <= k < targets.len() ==> names_its_children(
                    next,
                    request.plan_id,
                    #[trigger] targets[k],
                    request.frontier_candidates[k],
                )
        }),
{
    let plan_id = request.plan_id;
    let frontiers = request.frontier_candidates;
    let leaves = request.leaf_candidates;
    let parents = by_depth(
        request.parent_candidates,
        request.parent_candidates.len() as int,
    );
    let (rt1, _) = runtime.parents_registered_from(
        plan_id,
        parents,
        new_ids,
        timestamp,
        0,
        Seq::empty(),
    );
    let leaf_ids = new_ids.skip(parents.len() as int);
    let (rt2, registered) = rt1.leaves_registered_from(
        plan_id,
        leaves,
        candidate_paths(parents),
        leaf_ids,
        timestamp,
        0,
        Seq::empty(),
        Seq::empty(),
    );
    let (first_leaves, later) = registered->Ok_0;
    let node_ids = rt2.frontier_ids_from(plan_id, frontiers, 0, Seq::empty())->Ok_0;
    let (rt3, followed) = rt2.frontiers_reconciled_from(
        files,
        plan_id,
        frontiers,
        timestamp,
        0,
        Seq::empty(),
    );
    let (rt4, _) = rt3.later_leaves_registered_from(
        plan_id,
        leaves,
        leaf_ids,
        timestamp,
        later,
        0,
        first_leaves,
    );
    frontiers_name_their_children(
        rt4,
        plan_id,
        frontiers,
        node_ids,
        followed->Ok_0,
        0,
        Seq::empty(),
    );
}

} // verus!
