//! What holds of every registration of gate targets.
use super::gate_registration::{
    at_path, by_depth, candidate_paths, links_of, needs_links, unique_reasons,
    unique_reasons_from, ReconciledParentModel,
};
use super::registration_types::{
    RefineFrontierRegistrationCandidateModel, RefineGateTargetReason,
    RefineLeafRegistrationCandidateModel, RefineParentRegistrationCandidateModel,
    RegisterRefineGateTargetsRequestModel, RegisteredRefineFrontierTargetModel,
    RegisteredRefineGateTargetsModel, RegisteredRefineLeafTargetModel,
    RegisteredRefineParentTargetModel,
};

use crate::api::{EnsureNodeIdRequestModel, ReconcileParentChildLinksRequestModel};
use crate::files::PlanFilesModel;
use crate::runtime::integrity::{
    ensuring_a_node_id_keeps_soundness, is_same_but_parent, reconciliation_follows_links,
    reconciliation_keeps_soundness,
};
use crate::runtime::laws::node_at_is_found;
use crate::runtime::stability::ensured_node_stands_at_its_path;
use crate::runtime::store::RuntimeModel;
use vstd::prelude::*;

verus! {

// ---------------------------------------------------------------------
// Nodes stay where they are
// ---------------------------------------------------------------------
/// The runtime has a node of this id at this path.
pub open spec fn has_node_at(
    runtime: RuntimeModel,
    plan_id: Seq<char>,
    node_id: Seq<char>,
    path: Seq<char>,
) -> bool {
    exists|k: int|
        0 <= k < runtime.nodes.len() && (#[trigger] runtime.nodes[k]).plan_id == plan_id
            && runtime.nodes[k].node_id == node_id && runtime.nodes[k].relative_path == path
}

/// Every node stays, under its id, at its path and of its kind.
pub open spec fn nodes_stay(before: RuntimeModel, after: RuntimeModel) -> bool {
    before.nodes.len() <= after.nodes.len() && forall|k: int|
        #![trigger before.nodes[k]]
        #![trigger after.nodes[k]]
        0 <= k < before.nodes.len() ==> after.nodes[k].plan_id == before.nodes[k].plan_id
            && after.nodes[k].node_id == before.nodes[k].node_id && after.nodes[k].relative_path
            == before.nodes[k].relative_path && after.nodes[k].node_kind
            == before.nodes[k].node_kind
}

proof fn node_stays(
    before: RuntimeModel,
    after: RuntimeModel,
    plan_id: Seq<char>,
    node_id: Seq<char>,
    path: Seq<char>,
)
    requires
        nodes_stay(before, after),
        has_node_at(before, plan_id, node_id, path),
    ensures
        has_node_at(after, plan_id, node_id, path),
{
    let k = choose|k: int|
        0 <= k < before.nodes.len() && (#[trigger] before.nodes[k]).plan_id == plan_id
            && before.nodes[k].node_id == node_id && before.nodes[k].relative_path == path;
    assert(after.nodes[k].plan_id == plan_id);
}

proof fn nodes_stay_throughout(a: RuntimeModel, b: RuntimeModel, c: RuntimeModel)
    requires
        nodes_stay(a, b),
        nodes_stay(b, c),
    ensures
        nodes_stay(a, c),
{
    assert forall|k: int|
        #![trigger a.nodes[k]]
        #![trigger c.nodes[k]]
        0 <= k < a.nodes.len() implies c.nodes[k].plan_id == a.nodes[k].plan_id
        && c.nodes[k].node_id == a.nodes[k].node_id && c.nodes[k].relative_path
        == a.nodes[k].relative_path && c.nodes[k].node_kind == a.nodes[k].node_kind by {
        assert(b.nodes[k].plan_id == a.nodes[k].plan_id);
    }
}

proof fn ensured_step(
    runtime: RuntimeModel,
    plan_id: Seq<char>,
    path: Seq<char>,
    parent: Option<Seq<char>>,
    new_id: Seq<char>,
    timestamp: Seq<char>,
)
    requires
        runtime.is_sound(),
    ensures
        ({
            let (next, result) = runtime.ensured_for(plan_id, path, parent, new_id, timestamp);
            &&& next.is_sound()
            &&& nodes_stay(runtime, next)
            &&& result matches Ok(node_id) ==> has_node_at(next, plan_id, node_id, path)
        }),
{
    let request = EnsureNodeIdRequestModel {
        plan_id,
        relative_path: path,
        parent_relative_path: parent,
    };
    let (next, result) = runtime.node_id_ensured(request, new_id, timestamp);
    ensuring_a_node_id_keeps_soundness(runtime, request, new_id, timestamp);
    ensured_node_stands_at_its_path(runtime, request, new_id, timestamp);
    if result is Ok {
        node_at_is_found(next.nodes, plan_id, path, 0);
        assert forall|k: int|
            #![trigger runtime.nodes[k]]
            #![trigger next.nodes[k]]
            0 <= k < runtime.nodes.len() implies next.nodes[k] == runtime.nodes[k] by {}
    }
}

proof fn reconciled_step(
    runtime: RuntimeModel,
    files: PlanFilesModel,
    plan_id: Seq<char>,
    path: Seq<char>,
    timestamp: Seq<char>,
)
    requires
        runtime.is_sound(),
    ensures
        ({
            let next = runtime.links_reconciled(
                files,
                (ReconcileParentChildLinksRequestModel { plan_id, parent_relative_path: path }),
                timestamp,
            ).0;
            next.is_sound() && nodes_stay(runtime, next)
        }),
{
    let request = ReconcileParentChildLinksRequestModel { plan_id, parent_relative_path: path };
    let (next, result) = runtime.links_reconciled(files, request, timestamp);
    reconciliation_keeps_soundness(runtime, files, request, timestamp);
    reconciliation_follows_links(runtime, files, request, timestamp);
    if result is Ok {
        assert forall|k: int|
            #![trigger runtime.nodes[k]]
            #![trigger next.nodes[k]]
            0 <= k < runtime.nodes.len() implies is_same_but_parent(
            runtime.nodes[k],
            next.nodes[k],
        ) by {}
    }
}

proof fn inspected_node_is_there(runtime: RuntimeModel, plan_id: Seq<char>, path: Seq<char>)
    ensures
        runtime.inspection(at_path(plan_id, path)) matches Ok(node) ==> has_node_at(
            runtime,
            plan_id,
            node.node_id,
            path,
        ),
{
    node_at_is_found(runtime.nodes, plan_id, path, 0);
}

// ---------------------------------------------------------------------
// Parents
// ---------------------------------------------------------------------
/// The target is the one of the candidate, and the runtime has it.
pub open spec fn parent_is_registered(
    runtime: RuntimeModel,
    plan_id: Seq<char>,
    candidate: RefineParentRegistrationCandidateModel,
    target: RegisteredRefineParentTargetModel,
) -> bool {
    &&& target.relative_path == candidate.relative_path
    &&& target.parent_relative_path == candidate.parent_relative_path
    &&& target.reasons == unique_reasons(candidate.reasons)
    &&& has_node_at(runtime, plan_id, target.node_id, target.relative_path)
}

proof fn parents_step(
    runtime: RuntimeModel,
    plan_id: Seq<char>,
    parents: Seq<RefineParentRegistrationCandidateModel>,
    new_ids: Seq<Seq<char>>,
    timestamp: Seq<char>,
    i: int,
    acc: Seq<RegisteredRefineParentTargetModel>,
)
    requires
        runtime.is_sound(),
        0 <= i <= parents.len(),
        acc.len() == i,
        forall|k: int|
            0 <= k < i ==> parent_is_registered(runtime, plan_id, parents[k], #[trigger] acc[k]),
    ensures
        ({
            let (next, result) = runtime.parents_registered_from(
                plan_id,
                parents,
                new_ids,
                timestamp,
                i,
                acc,
            );
            &&& next.is_sound()
            &&& nodes_stay(runtime, next)
            &&& result matches Ok(targets) ==> targets.len() == parents.len() && forall|k: int|
                0 <= k < parents.len() ==> parent_is_registered(
                    next,
                    plan_id,
                    parents[k],
                    #[trigger] targets[k],
                )
        }),
    decreases parents.len() - i,
{
    if i < parents.len() {
        let candidate = parents[i];
        let (next, result) = runtime.parent_registered(
            plan_id,
            candidate,
            candidate_paths(parents).take(i),
            new_ids[i],
            timestamp,
        );
        ensured_step(
            runtime,
            plan_id,
            candidate.relative_path,
            candidate.parent_relative_path,
            new_ids[i],
            timestamp,
        );
        inspected_node_is_there(runtime, plan_id, candidate.relative_path);
        if let Ok(target) = result {
            let more = acc.push(target);
            assert(parent_is_registered(next, plan_id, candidate, target));
            assert forall|k: int| 0 <= k < i + 1 implies parent_is_registered(
                next,
                plan_id,
                parents[k],
                #[trigger] more[k],
            ) by {
                if k < i {
                    assert(more[k] == acc[k]);
                    node_stays(runtime, next, plan_id, acc[k].node_id, acc[k].relative_path);
                }
            }
            parents_step(next, plan_id, parents, new_ids, timestamp, i + 1, more);
            nodes_stay_throughout(
                runtime,
                next,
                next.parents_registered_from(
                    plan_id,
                    parents,
                    new_ids,
                    timestamp,
                    i + 1,
                    more,
                ).0,
            );
        }
    }
}

// ---------------------------------------------------------------------
// Leaves
// ---------------------------------------------------------------------
/// The target is the one of the candidate.
pub open spec fn is_leaf_target_of(
    candidate: RefineLeafRegistrationCandidateModel,
    target: RegisteredRefineLeafTargetModel,
) -> bool {
    &&& target.relative_path == candidate.relative_path
    &&& target.parent_relative_path == candidate.parent_relative_path
    &&& target.reasons == unique_reasons(candidate.reasons)
}

/// One of the targets is the one of the candidate.
pub open spec fn has_leaf_target(
    targets: Seq<RegisteredRefineLeafTargetModel>,
    candidate: RefineLeafRegistrationCandidateModel,
) -> bool {
    exists|m: int| 0 <= m < targets.len() && is_leaf_target_of(candidate, #[trigger] targets[m])
}

/// The runtime has every leaf target.
pub open spec fn leaf_targets_are_there(
    runtime: RuntimeModel,
    plan_id: Seq<char>,
    targets: Seq<RegisteredRefineLeafTargetModel>,
) -> bool {
    forall|k: int|
        0 <= k < targets.len() ==> has_node_at(
            runtime,
            plan_id,
            (#[trigger] targets[k]).node_id,
            targets[k].relative_path,
        )
}

proof fn leaf_targets_stay(
    before: RuntimeModel,
    after: RuntimeModel,
    plan_id: Seq<char>,
    targets: Seq<RegisteredRefineLeafTargetModel>,
)
    requires
        nodes_stay(before, after),
        leaf_targets_are_there(before, plan_id, targets),
    ensures
        leaf_targets_are_there(after, plan_id, targets),
{
    assert forall|k: int| 0 <= k < targets.len() implies has_node_at(
        after,
        plan_id,
        (#[trigger] targets[k]).node_id,
        targets[k].relative_path,
    ) by {
        node_stays(before, after, plan_id, targets[k].node_id, targets[k].relative_path);
    }
}

proof fn has_leaf_target_stays(
    targets: Seq<RegisteredRefineLeafTargetModel>,
    target: RegisteredRefineLeafTargetModel,
    candidate: RefineLeafRegistrationCandidateModel,
)
    requires
        has_leaf_target(targets, candidate) || is_leaf_target_of(candidate, target),
    ensures
        has_leaf_target(targets.push(target), candidate),
{
    let more = targets.push(target);
    if has_leaf_target(targets, candidate) {
        let m = choose|m: int|
            0 <= m < targets.len() && is_leaf_target_of(candidate, #[trigger] targets[m]);
        assert(more[m] == targets[m]);
    } else {
        assert(more[targets.len() as int] == target);
    }
}

proof fn leaf_step(
    runtime: RuntimeModel,
    plan_id: Seq<char>,
    candidate: RefineLeafRegistrationCandidateModel,
    new_id: Seq<char>,
    timestamp: Seq<char>,
)
    requires
        runtime.is_sound(),
    ensures
        ({
            let (next, result) = runtime.leaf_registered(plan_id, candidate, new_id, timestamp);
            &&& next.is_sound()
            &&& nodes_stay(runtime, next)
            &&& result matches Ok(target) ==> is_leaf_target_of(candidate, target)
                && has_node_at(next, plan_id, target.node_id, target.relative_path)
        }),
{
    ensured_step(
        runtime,
        plan_id,
        candidate.relative_path,
        candidate.parent_relative_path,
        new_id,
        timestamp,
    );
    inspected_node_is_there(runtime, plan_id, candidate.relative_path);
}

/// Every candidate before `i` has a target or waits.
pub open spec fn leaves_are_covered(
    leaves: Seq<RefineLeafRegistrationCandidateModel>,
    targets: Seq<RegisteredRefineLeafTargetModel>,
    later: Seq<int>,
    i: int,
) -> bool {
    &&& targets.len() + later.len() == i
    &&& forall|k: int|
        0 <= k < i ==> has_leaf_target(targets, #[trigger] leaves[k]) || later.contains(k)
    &&& forall|j: int| 0 <= j < later.len() ==> 0 <= #[trigger] later[j] < i
}

proof fn leaves_step(
    runtime: RuntimeModel,
    plan_id: Seq<char>,
    leaves: Seq<RefineLeafRegistrationCandidateModel>,
    settled_parents: Seq<Seq<char>>,
    new_ids: Seq<Seq<char>>,
    timestamp: Seq<char>,
    i: int,
    acc: Seq<RegisteredRefineLeafTargetModel>,
    later: Seq<int>,
)
    requires
        runtime.is_sound(),
        0 <= i <= leaves.len(),
        leaf_targets_are_there(runtime, plan_id, acc),
        leaves_are_covered(leaves, acc, later, i),
    ensures
        ({
            let (next, result) = runtime.leaves_registered_from(
                plan_id,
                leaves,
                settled_parents,
                new_ids,
                timestamp,
                i,
                acc,
                later,
            );
            &&& next.is_sound()
            &&& nodes_stay(runtime, next)
            &&& result matches Ok((targets, waiting)) ==> leaf_targets_are_there(
                next,
                plan_id,
                targets,
            ) && leaves_are_covered(leaves, targets, waiting, leaves.len() as int)
        }),
    decreases leaves.len() - i,
{
    if i < leaves.len() {
        let candidate = leaves[i];
        if runtime.leaf_is_misplaced(plan_id, candidate) {
            let waiting = later.push(i);
            assert forall|k: int| 0 <= k < i + 1 implies has_leaf_target(
                acc,
                #[trigger] leaves[k],
            ) || waiting.contains(k) by {
                if k == i {
                    assert(waiting[later.len() as int] == k);
                } else if later.contains(k) {
                    let j = choose|j: int| 0 <= j < later.len() && later[j] == k;
                    assert(waiting[j] == k);
                }
            }
            leaves_step(
                runtime,
                plan_id,
                leaves,
                settled_parents,
                new_ids,
                timestamp,
                i + 1,
                acc,
                waiting,
            );
        } else {
            leaf_step(runtime, plan_id, candidate, new_ids[i], timestamp);
            let (next, result) = runtime.leaf_registered(
                plan_id,
                candidate,
                new_ids[i],
                timestamp,
            );
            if let Ok(target) = result {
                let more = acc.push(target);
                leaf_targets_stay(runtime, next, plan_id, acc);
                assert forall|k: int| 0 <= k < i + 1 implies has_leaf_target(
                    more,
                    #[trigger] leaves[k],
                ) || later.contains(k) by {
                    if k == i || has_leaf_target(acc, leaves[k]) {
                        has_leaf_target_stays(acc, target, leaves[k]);
                    }
                }
                leaves_step(
                    next,
                    plan_id,
                    leaves,
                    settled_parents,
                    new_ids,
                    timestamp,
                    i + 1,
                    more,
                    later,
                );
                nodes_stay_throughout(
                    runtime,
                    next,
                    next.leaves_registered_from(
                        plan_id,
                        leaves,
                        settled_parents,
                        new_ids,
                        timestamp,
                        i + 1,
                        more,
                        later,
                    ).0,
                );
            }
        }
    }
}

/// Every candidate has a target or waits from `i` on.
pub open spec fn waiting_leaves_are_covered(
    leaves: Seq<RefineLeafRegistrationCandidateModel>,
    targets: Seq<RegisteredRefineLeafTargetModel>,
    later: Seq<int>,
    i: int,
) -> bool {
    &&& targets.len() + later.len() - i == leaves.len()
    &&& forall|k: int|
        0 <= k < leaves.len() ==> has_leaf_target(targets, #[trigger] leaves[k]) || exists|j: int|
            i <= j < later.len() && #[trigger] later[j] == k
}

proof fn later_leaves_step(
    runtime: RuntimeModel,
    plan_id: Seq<char>,
    leaves: Seq<RefineLeafRegistrationCandidateModel>,
    new_ids: Seq<Seq<char>>,
    timestamp: Seq<char>,
    later: Seq<int>,
    i: int,
    acc: Seq<RegisteredRefineLeafTargetModel>,
)
    requires
        runtime.is_sound(),
        0 <= i <= later.len(),
        leaf_targets_are_there(runtime, plan_id, acc),
        waiting_leaves_are_covered(leaves, acc, later, i),
    ensures
        ({
            let (next, result) = runtime.later_leaves_registered_from(
                plan_id,
                leaves,
                new_ids,
                timestamp,
                later,
                i,
                acc,
            );
            &&& next.is_sound()
            &&& nodes_stay(runtime, next)
            &&& result matches Ok(targets) ==> leaf_targets_are_there(next, plan_id, targets)
                && waiting_leaves_are_covered(leaves, targets, later, later.len() as int)
        }),
    decreases later.len() - i,
{
    if i < later.len() {
        let candidate = leaves[later[i]];
        leaf_step(runtime, plan_id, candidate, new_ids[later[i]], timestamp);
        let (next, result) = runtime.leaf_registered(
            plan_id,
            candidate,
            new_ids[later[i]],
            timestamp,
        );
        if let Ok(target) = result {
            let more = acc.push(target);
            leaf_targets_stay(runtime, next, plan_id, acc);
            assert forall|k: int| 0 <= k < leaves.len() implies has_leaf_target(
                more,
                #[trigger] leaves[k],
            ) || exists|j: int| i + 1 <= j < later.len() && #[trigger] later[j] == k by {
                if has_leaf_target(acc, leaves[k]) || k == later[i] {
                    has_leaf_target_stays(acc, target, leaves[k]);
                } else {
                    let j = choose|j: int| i <= j < later.len() && #[trigger] later[j] == k;
                    assert(later[j] == k);
                }
            }
            later_leaves_step(next, plan_id, leaves, new_ids, timestamp, later, i + 1, more);
            nodes_stay_throughout(
                runtime,
                next,
                next.later_leaves_registered_from(
                    plan_id,
                    leaves,
                    new_ids,
                    timestamp,
                    later,
                    i + 1,
                    more,
                ).0,
            );
        }
    }
}

// ---------------------------------------------------------------------
// Frontiers
// ---------------------------------------------------------------------
proof fn frontiers_reconciled_step(
    runtime: RuntimeModel,
    files: PlanFilesModel,
    plan_id: Seq<char>,
    frontiers: Seq<RefineFrontierRegistrationCandidateModel>,
    timestamp: Seq<char>,
    i: int,
    acc: Seq<ReconciledParentModel>,
)
    requires
        runtime.is_sound(),
        0 <= i,
    ensures
        ({
            let next = runtime.frontiers_reconciled_from(
                files,
                plan_id,
                frontiers,
                timestamp,
                i,
                acc,
            ).0;
            next.is_sound() && nodes_stay(runtime, next)
        }),
    decreases frontiers.len() - i,
{
    if i < frontiers.len() {
        let path = frontiers[i].parent_relative_path;
        if !needs_links(frontiers[i]) || links_of(acc, path, 0) is Some {
            frontiers_reconciled_step(
                runtime,
                files,
                plan_id,
                frontiers,
                timestamp,
                i + 1,
                acc,
            );
        } else {
            reconciled_step(runtime, files, plan_id, path, timestamp);
            let (next, result) = runtime.links_reconciled(
                files,
                (ReconcileParentChildLinksRequestModel { plan_id, parent_relative_path: path }),
                timestamp,
            );
            if let Ok(response) = result {
                let more = acc.push(
                    ReconciledParentModel { path, links: response.linked_child_relative_paths },
                );
                frontiers_reconciled_step(
                    next,
                    files,
                    plan_id,
                    frontiers,
                    timestamp,
                    i + 1,
                    more,
                );
                nodes_stay_throughout(
                    runtime,
                    next,
                    next.frontiers_reconciled_from(
                        files,
                        plan_id,
                        frontiers,
                        timestamp,
                        i + 1,
                        more,
                    ).0,
                );
            }
        }
    }
}

proof fn frontier_ids_step(
    runtime: RuntimeModel,
    plan_id: Seq<char>,
    frontiers: Seq<RefineFrontierRegistrationCandidateModel>,
    i: int,
    acc: Seq<Seq<char>>,
)
    requires
        0 <= i <= frontiers.len(),
        acc.len() == i,
        forall|k: int|
            0 <= k < i ==> has_node_at(
                runtime,
                plan_id,
                #[trigger] acc[k],
                frontiers[k].parent_relative_path,
            ),
    ensures
        runtime.frontier_ids_from(plan_id, frontiers, i, acc) matches Ok(ids) ==> ids.len()
            == frontiers.len() && forall|k: int|
            0 <= k < ids.len() ==> has_node_at(
                runtime,
                plan_id,
                #[trigger] ids[k],
                frontiers[k].parent_relative_path,
            ),
    decreases frontiers.len() - i,
{
    if i < frontiers.len() {
        let path = frontiers[i].parent_relative_path;
        inspected_node_is_there(runtime, plan_id, path);
        if let Some(parent) = runtime.parent_at(plan_id, path) {
            frontier_ids_step(runtime, plan_id, frontiers, i + 1, acc.push(parent.node_id));
        }
    }
}

/// The target is the one of the candidate, under the given id.
pub open spec fn is_frontier_target_of(
    candidate: RefineFrontierRegistrationCandidateModel,
    node_id: Seq<char>,
    target: RegisteredRefineFrontierTargetModel,
) -> bool {
    &&& target.parent_node_id == node_id
    &&& target.parent_relative_path == candidate.parent_relative_path
    &&& target.reasons == unique_reasons(candidate.reasons)
}

proof fn frontiers_step(
    runtime: RuntimeModel,
    plan_id: Seq<char>,
    frontiers: Seq<RefineFrontierRegistrationCandidateModel>,
    node_ids: Seq<Seq<char>>,
    reconciled: Seq<ReconciledParentModel>,
    i: int,
    acc: Seq<RegisteredRefineFrontierTargetModel>,
)
    requires
        0 <= i <= frontiers.len(),
        acc.len() == i,
        forall|k: int|
            0 <= k < i ==> is_frontier_target_of(frontiers[k], node_ids[k], #[trigger] acc[k]),
    ensures
        runtime.frontiers_registered_from(
            plan_id,
            frontiers,
            node_ids,
            reconciled,
            i,
            acc,
        ) matches Ok(targets) ==> targets.len() == frontiers.len() && forall|k: int|
            0 <= k < targets.len() ==> is_frontier_target_of(
                frontiers[k],
                node_ids[k],
                #[trigger] targets[k],
            ),
    decreases frontiers.len() - i,
{
    if i < frontiers.len() {
        if let Ok(target) = runtime.frontier_registered(
            plan_id,
            frontiers[i],
            node_ids[i],
            reconciled,
        ) {
            frontiers_step(
                runtime,
                plan_id,
                frontiers,
                node_ids,
                reconciled,
                i + 1,
                acc.push(target),
            );
        }
    }
}

// ---------------------------------------------------------------------
// The laws
// ---------------------------------------------------------------------
/// Each candidate of the request has its target, and the runtime has the node
/// of each target at the target's path.
pub open spec fn covers_request(
    runtime: RuntimeModel,
    request: RegisterRefineGateTargetsRequestModel,
    targets: RegisteredRefineGateTargetsModel,
) -> bool {
    let plan_id = request.plan_id;
    let parents = by_depth(
        request.parent_candidates,
        request.parent_candidates.len() as int,
    );
    let leaves = request.leaf_candidates;
    let frontiers = request.frontier_candidates;
    &&& targets.parent_targets.len() == parents.len()
    &&& forall|k: int|
        0 <= k < parents.len() ==> parent_is_registered(
            runtime,
            plan_id,
            parents[k],
            #[trigger] targets.parent_targets[k],
        )
    &&& targets.leaf_targets.len() == leaves.len()
    &&& leaf_targets_are_there(runtime, plan_id, targets.leaf_targets)
    &&& forall|k: int|
        0 <= k < leaves.len() ==> has_leaf_target(targets.leaf_targets, #[trigger] leaves[k])
    &&& targets.frontier_targets.len() == frontiers.len()
    &&& forall|k: int|
        0 <= k < frontiers.len() ==> {
            let target = #[trigger] targets.frontier_targets[k];
            &&& is_frontier_target_of(frontiers[k], target.parent_node_id, target)
            &&& has_node_at(runtime, plan_id, target.parent_node_id, target.parent_relative_path)
        }
}

/// A registration keeps the runtime sound and every node at its place. If it
/// is accepted, every candidate has its target and every target is tracked.
pub proof fn registration_tracks_every_target(
    runtime: RuntimeModel,
    files: PlanFilesModel,
    request: RegisterRefineGateTargetsRequestModel,
    new_ids: Seq<Seq<char>>,
    timestamp: Seq<char>,
)
    requires
        runtime.is_sound(),
    ensures
        ({
            let (next, result) = runtime.targets_registered(files, request, new_ids, timestamp);
            &&& next.is_sound()
            &&& nodes_stay(runtime, next)
            &&& result matches Ok(targets) ==> covers_request(next, request, targets)
        }),
{
    let plan_id = request.plan_id;
    let parents = by_depth(
        request.parent_candidates,
        request.parent_candidates.len() as int,
    );
    let leaves = request.leaf_candidates;
    let frontiers = request.frontier_candidates;
    if runtime.request_problem(files, plan_id, parents, leaves, frontiers) is None {
        parents_step(runtime, plan_id, parents, new_ids, timestamp, 0, Seq::empty());
        let (rt1, registered_parents) = runtime.parents_registered_from(
            plan_id,
            parents,
            new_ids,
            timestamp,
            0,
            Seq::empty(),
        );
        if registered_parents is Ok && rt1.frontier_problem_from(plan_id, frontiers, 0) is None {
            let parent_targets = registered_parents->Ok_0;
            let leaf_ids = new_ids.skip(parents.len() as int);
            leaves_step(
                rt1,
                plan_id,
                leaves,
                candidate_paths(parents),
                leaf_ids,
                timestamp,
                0,
                Seq::empty(),
                Seq::empty(),
            );
            let (rt2, registered_leaves) = rt1.leaves_registered_from(
                plan_id,
                leaves,
                candidate_paths(parents),
                leaf_ids,
                timestamp,
                0,
                Seq::empty(),
                Seq::empty(),
            );
            nodes_stay_throughout(runtime, rt1, rt2);
            if let Ok((first_leaves, later)) = registered_leaves {
                second_half(
                    rt2,
                    files,
                    plan_id,
                    leaves,
                    frontiers,
                    leaf_ids,
                    timestamp,
                    parent_targets,
                    first_leaves,
                    later,
                );
                let (next, result) = rt2.frontiers_tracked(
                    files,
                    plan_id,
                    leaves,
                    frontiers,
                    leaf_ids,
                    timestamp,
                    parent_targets,
                    first_leaves,
                    later,
                );
                nodes_stay_throughout(runtime, rt2, next);
                nodes_stay_throughout(rt1, rt2, next);
                if let Ok(targets) = result {
                    assert forall|k: int| 0 <= k < parents.len() implies parent_is_registered(
                        next,
                        plan_id,
                        parents[k],
                        #[trigger] targets.parent_targets[k],
                    ) by {
                        let target = parent_targets[k];
                        assert(parent_is_registered(rt1, plan_id, parents[k], target));
                        node_stays(rt1, next, plan_id, target.node_id, target.relative_path);
                    }
                }
            }
        }
    }
}

proof fn second_half(
    runtime: RuntimeModel,
    files: PlanFilesModel,
    plan_id: Seq<char>,
    leaves: Seq<RefineLeafRegistrationCandidateModel>,
    frontiers: Seq<RefineFrontierRegistrationCandidateModel>,
    leaf_ids: Seq<Seq<char>>,
    timestamp: Seq<char>,
    parent_targets: Seq<RegisteredRefineParentTargetModel>,
    first_leaves: Seq<RegisteredRefineLeafTargetModel>,
    later: Seq<int>,
)
    requires
        runtime.is_sound(),
        leaf_targets_are_there(runtime, plan_id, first_leaves),
        leaves_are_covered(leaves, first_leaves, later, leaves.len() as int),
    ensures
        ({
            let (next, result) = runtime.frontiers_tracked(
                files,
                plan_id,
                leaves,
                frontiers,
                leaf_ids,
                timestamp,
                parent_targets,
                first_leaves,
                later,
            );
            &&& next.is_sound()
            &&& nodes_stay(runtime, next)
            &&& result matches Ok(targets) ==> {
                &&& targets.parent_targets == parent_targets
                &&& targets.leaf_targets.len() == leaves.len()
                &&& leaf_targets_are_there(next, plan_id, targets.leaf_targets)
                &&& forall|k: int|
                    0 <= k < leaves.len() ==> has_leaf_target(
                        targets.leaf_targets,
                        #[trigger] leaves[k],
                    )
                &&& targets.frontier_targets.len() == frontiers.len()
                &&& forall|k: int|
                    0 <= k < frontiers.len() ==> {
                        let target = #[trigger] targets.frontier_targets[k];
                        &&& is_frontier_target_of(frontiers[k], target.parent_node_id, target)
                        &&& has_node_at(
                            next,
                            plan_id,
                            target.parent_node_id,
                            target.parent_relative_path,
                        )
                    }
            }
        }),
{
    frontier_ids_step(runtime, plan_id, frontiers, 0, Seq::empty());
    if let Ok(node_ids) = runtime.frontier_ids_from(plan_id, frontiers, 0, Seq::empty()) {
        if runtime.children_problem_from(files, plan_id, frontiers, 0) is None {
            frontiers_reconciled_step(
                runtime,
                files,
                plan_id,
                frontiers,
                timestamp,
                0,
                Seq::empty(),
            );
            let (rt1, followed) = runtime.frontiers_reconciled_from(
                files,
                plan_id,
                frontiers,
                timestamp,
                0,
                Seq::empty(),
            );
            if let Ok(reconciled) = followed {
                leaf_targets_stay(runtime, rt1, plan_id, first_leaves);
                assert forall|k: int| 0 <= k < leaves.len() implies has_leaf_target(
                    first_leaves,
                    #[trigger] leaves[k],
                ) || exists|j: int| 0 <= j < later.len() && #[trigger] later[j] == k by {
                    if later.contains(k) {
                        let j = choose|j: int| 0 <= j < later.len() && later[j] == k;
                        assert(later[j] == k);
                    }
                }
                later_leaves_step(
                    rt1,
                    plan_id,
                    leaves,
                    leaf_ids,
                    timestamp,
                    later,
                    0,
                    first_leaves,
                );
                let (rt2, all_leaves) = rt1.later_leaves_registered_from(
                    plan_id,
                    leaves,
                    leaf_ids,
                    timestamp,
                    later,
                    0,
                    first_leaves,
                );
                nodes_stay_throughout(runtime, rt1, rt2);
                frontiers_step(
                    rt2,
                    plan_id,
                    frontiers,
                    node_ids,
                    reconciled,
                    0,
                    Seq::empty(),
                );
                if all_leaves is Ok {
                    if let Ok(frontier_targets) = rt2.frontiers_registered_from(
                        plan_id,
                        frontiers,
                        node_ids,
                        reconciled,
                        0,
                        Seq::empty(),
                    ) {
                        assert forall|k: int| 0 <= k < frontiers.len() implies ({
                            let target = #[trigger] frontier_targets[k];
                            &&& is_frontier_target_of(frontiers[k], target.parent_node_id, target)
                            &&& has_node_at(
                                rt2,
                                plan_id,
                                target.parent_node_id,
                                target.parent_relative_path,
                            )
                        }) by {
                            let target = frontier_targets[k];
                            assert(is_frontier_target_of(frontiers[k], node_ids[k], target));
                            node_stays(
                                runtime,
                                rt2,
                                plan_id,
                                node_ids[k],
                                frontiers[k].parent_relative_path,
                            );
                        }
                    }
                }
            }
        }
    }
}

proof fn unique_reasons_step(
    reasons: Seq<RefineGateTargetReason>,
    i: int,
    acc: Seq<RefineGateTargetReason>,
)
    requires
        0 <= i <= reasons.len(),
        acc.no_duplicates(),
        forall|r: RefineGateTargetReason|
            #![trigger acc.contains(r)]
            acc.contains(r) <==> exists|k: int| 0 <= k < i && reasons[k] == r,
    ensures
        unique_reasons_from(reasons, i, acc).no_duplicates(),
        forall|r: RefineGateTargetReason|
            #![trigger unique_reasons_from(reasons, i, acc).contains(r)]
            unique_reasons_from(reasons, i, acc).contains(r) <==> reasons.contains(r),
    decreases reasons.len() - i,
{
    if i < reasons.len() {
        let next = if acc.contains(reasons[i]) {
            acc
        } else {
            acc.push(reasons[i])
        };
        assert forall|r: RefineGateTargetReason| next.contains(r) <==> exists|k: int|
            0 <= k < i + 1 && reasons[k] == r by {
            if next.contains(r) {
                let m = choose|m: int| 0 <= m < next.len() && next[m] == r;
                if m < acc.len() {
                    assert(acc[m] == r);
                    assert(acc.contains(r));
                    let k = choose|k: int| 0 <= k < i && reasons[k] == r;
                    assert(reasons[k] == r);
                } else {
                    assert(reasons[i] == r);
                }
            }
            if exists|k: int| 0 <= k < i + 1 && reasons[k] == r {
                let k = choose|k: int| 0 <= k < i + 1 && reasons[k] == r;
                if k < i || acc.contains(reasons[i]) {
                    assert(acc.contains(r));
                    let m = choose|m: int| 0 <= m < acc.len() && acc[m] == r;
                    assert(next[m] == r);
                } else {
                    assert(next[acc.len() as int] == r);
                }
            }
        }
        unique_reasons_step(reasons, i + 1, next);
    } else {
        assert forall|r: RefineGateTargetReason| acc.contains(r) <==> reasons.contains(r) by {
            if reasons.contains(r) {
                let k = choose|k: int| 0 <= k < reasons.len() && reasons[k] == r;
                assert(reasons[k] == r);
            }
        }
    }
}

/// A target has every reason of its candidate, each once.
pub proof fn reasons_are_kept_once(reasons: Seq<RefineGateTargetReason>)
    ensures
        unique_reasons(reasons).no_duplicates(),
        forall|r: RefineGateTargetReason|
            #![trigger unique_reasons(reasons).contains(r)]
            unique_reasons(reasons).contains(r) <==> reasons.contains(r),
{
    unique_reasons_step(reasons, 0, Seq::empty());
}

} // verus!
