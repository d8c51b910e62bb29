//! What a later request finds of an earlier one.
use super::integrity::is_same_node;
use super::laws::{node_at_is_found, node_is_found};
use super::plans::{project_path, repaired_plan};
use super::query::{is_later, latest_frontier_run, latest_leaf_run, named_plan_from, node_at_from};
use super::store::{
    FrontierGateRunModel, LeafGateRunModel, NodeRecordModel, NodeRowModel, PlanRowModel,
    RuntimeModel,
};
use crate::api::{
    EnsureNodeIdRequestModel, EnsureNodeIdResponseModel, EnsurePlanRequestModel,
    EnsurePlanResponseModel, OpenPlanRequestModel,
};
use crate::error::PlanErrorModel;
use crate::text::{order_is_total, order_is_transitive, text_before};
use vstd::prelude::*;

verus! {

// ---------------------------------------------------------------------
// Plans
// ---------------------------------------------------------------------
proof fn named_plan_after_push(
    plans: Seq<PlanRowModel>,
    plan: PlanRowModel,
    workspace_root: Seq<char>,
    plan_name: Seq<char>,
    i: int,
)
    requires
        0 <= i <= plans.len(),
        named_plan_from(plans, workspace_root, plan_name, i) is None,
        plan.workspace_root == workspace_root,
        plan.plan_name == plan_name,
    ensures
        named_plan_from(plans.push(plan), workspace_root, plan_name, i) == Some(plan),
    decreases plans.len() - i,
{
    let all = plans.push(plan);
    if i < plans.len() {
        assert(all[i] == plans[i]);
        named_plan_after_push(plans, plan, workspace_root, plan_name, i + 1);
    } else {
        assert(all[i] == plan);
    }
}

proof fn named_plan_after_repair(
    runtime: RuntimeModel,
    plan_id: Seq<char>,
    project_directory: Seq<char>,
    timestamp: Seq<char>,
    plan_name: Seq<char>,
    i: int,
)
    requires
        0 <= i <= runtime.plans.len(),
    ensures
        named_plan_from(
            runtime.repaired(plan_id, project_directory, timestamp).plans,
            runtime.workspace_root,
            plan_name,
            i,
        ) == match named_plan_from(runtime.plans, runtime.workspace_root, plan_name, i) {
            Some(plan) => Some(repaired_plan(plan, plan_id, project_directory, timestamp)),
            None => None,
        },
    decreases runtime.plans.len() - i,
{
    let next = runtime.repaired(plan_id, project_directory, timestamp);
    if i < runtime.plans.len() {
        assert(next.plans[i] == repaired_plan(
            runtime.plans[i],
            plan_id,
            project_directory,
            timestamp,
        ));
        named_plan_after_repair(
            runtime,
            plan_id,
            project_directory,
            timestamp,
            plan_name,
            i + 1,
        );
    }
}

/// A plan that was asked for can be opened by its name, and is the one that
/// was answered.
pub proof fn ensured_plan_can_be_opened(
    runtime: RuntimeModel,
    request: EnsurePlanRequestModel,
    new_id: Seq<char>,
    timestamp: Seq<char>,
)
    ensures
        ({
            let (next, result) = runtime.plan_ensured(request, new_id, timestamp);
            result matches Ok(answer) ==> {
                let opened = next.plan_opened(
                    OpenPlanRequestModel { plan_name: request.plan_name },
                );
                &&& opened is Ok
                &&& opened->Ok_0.plan_id == answer.plan_id
                &&& opened->Ok_0.plan_root == answer.plan_root
                &&& opened->Ok_0.plan_status == answer.plan_status
            }
        }),
{
    let (next, result) = runtime.plan_ensured(request, new_id, timestamp);
    if result is Ok {
        match runtime.named_plan(request.plan_name) {
            None => {
                named_plan_after_push(
                    runtime.plans,
                    next.plans.last(),
                    runtime.workspace_root,
                    request.plan_name,
                    0,
                );
                assert(next.plans == runtime.plans.push(next.plans.last()));
            },
            Some(plan) => {
                if next != runtime {
                    let directory = project_path(
                        runtime.workspace_root,
                        request.project_directory,
                    )->Ok_0;
                    named_plan_after_repair(
                        runtime,
                        plan.plan_id,
                        directory,
                        timestamp,
                        request.plan_name,
                        0,
                    );
                }
            },
        }
    }
}

/// Asking for a plan again gives the same answer and changes nothing.
pub proof fn ensuring_a_plan_twice_changes_nothing(
    runtime: RuntimeModel,
    request: EnsurePlanRequestModel,
    new_id: Seq<char>,
    timestamp: Seq<char>,
    later_id: Seq<char>,
    later: Seq<char>,
)
    ensures
        ({
            let (next, result) = runtime.plan_ensured(request, new_id, timestamp);
            result matches Ok(answer) ==> next.plan_ensured(request, later_id, later) == (
                next,
                Ok::<EnsurePlanResponseModel, PlanErrorModel>(answer),
            )
        }),
{
    let (next, result) = runtime.plan_ensured(request, new_id, timestamp);
    if result is Ok {
        match runtime.named_plan(request.plan_name) {
            None => {
                named_plan_after_push(
                    runtime.plans,
                    next.plans.last(),
                    runtime.workspace_root,
                    request.plan_name,
                    0,
                );
                assert(next.plans == runtime.plans.push(next.plans.last()));
            },
            Some(plan) => {
                let directory = project_path(
                    runtime.workspace_root,
                    request.project_directory,
                )->Ok_0;
                named_plan_after_repair(
                    runtime,
                    plan.plan_id,
                    directory,
                    timestamp,
                    request.plan_name,
                    0,
                );
            },
        }
    }
}

/// A refused request for a plan changes nothing.
pub proof fn refused_plan_changes_nothing(
    runtime: RuntimeModel,
    request: EnsurePlanRequestModel,
    new_id: Seq<char>,
    timestamp: Seq<char>,
)
    ensures
        runtime.plan_ensured(request, new_id, timestamp).1 is Err ==> runtime.plan_ensured(
            request,
            new_id,
            timestamp,
        ).0 == runtime,
{
}

// ---------------------------------------------------------------------
// Nodes
// ---------------------------------------------------------------------
proof fn node_at_after_push(
    nodes: Seq<NodeRowModel>,
    row: NodeRowModel,
    plan_id: Seq<char>,
    path: Seq<char>,
    i: int,
)
    requires
        0 <= i <= nodes.len(),
    ensures
        node_at_from(nodes.push(row), plan_id, path, i) == match node_at_from(
            nodes,
            plan_id,
            path,
            i,
        ) {
            Some(found) => Some(found),
            None => if row.plan_id == plan_id && row.relative_path == path {
                Some(row)
            } else {
                None
            },
        },
    decreases nodes.len() - i,
{
    let all = nodes.push(row);
    if i < nodes.len() {
        assert(all[i] == nodes[i]);
        node_at_after_push(nodes, row, plan_id, path, i + 1);
    } else {
        assert(all[i] == row);
        assert(node_at_from(all, plan_id, path, i + 1) is None);
    }
}

/// Asking for a node again gives the same id and changes nothing.
pub proof fn ensuring_a_node_twice_changes_nothing(
    runtime: RuntimeModel,
    request: EnsureNodeIdRequestModel,
    new_id: Seq<char>,
    timestamp: Seq<char>,
    later_id: Seq<char>,
    later: Seq<char>,
)
    ensures
        ({
            let (next, result) = runtime.node_id_ensured(request, new_id, timestamp);
            result matches Ok(answer) ==> next.node_id_ensured(request, later_id, later) == (
                next,
                Ok::<EnsureNodeIdResponseModel, PlanErrorModel>(answer),
            )
        }),
{
    let (next, result) = runtime.node_id_ensured(request, new_id, timestamp);
    let plan_id = request.plan_id;
    if result is Ok && next != runtime {
        let row = next.nodes.last();
        assert(next.nodes == runtime.nodes.push(row));
        node_at_after_push(runtime.nodes, row, plan_id, request.relative_path, 0);
        if let Some(parent_path) = request.parent_relative_path {
            node_at_after_push(runtime.nodes, row, plan_id, parent_path, 0);
        }
        reveal_strlit("parent");
        reveal_strlit("leaf");
        assert("parent"@.len() != "leaf"@.len());
    }
}

/// A refused request for a node changes nothing.
pub proof fn refused_node_changes_nothing(
    runtime: RuntimeModel,
    request: EnsureNodeIdRequestModel,
    new_id: Seq<char>,
    timestamp: Seq<char>,
)
    ensures
        runtime.node_id_ensured(request, new_id, timestamp).1 is Err ==> runtime.node_id_ensured(
            request,
            new_id,
            timestamp,
        ).0 == runtime,
{
}

/// A node that was asked for stands at the path it was asked for at, and no
/// node that was there before changes.
pub proof fn ensured_node_stands_at_its_path(
    runtime: RuntimeModel,
    request: EnsureNodeIdRequestModel,
    new_id: Seq<char>,
    timestamp: Seq<char>,
)
    ensures
        ({
            let (next, result) = runtime.node_id_ensured(request, new_id, timestamp);
            result matches Ok(answer) ==> {
                &&& next.node_at(request.plan_id, request.relative_path) is Ok
                &&& next.node_at(request.plan_id, request.relative_path)->Ok_0 is Some
                &&& next.node_at(request.plan_id, request.relative_path)->Ok_0->0.node_id
                    == answer.node_id
                &&& runtime.nodes.is_prefix_of(next.nodes)
                &&& next.nodes.len() <= runtime.nodes.len() + 1
            }
        }),
{
    let (next, result) = runtime.node_id_ensured(request, new_id, timestamp);
    if result is Ok && next != runtime {
        let row = next.nodes.last();
        assert(next.nodes == runtime.nodes.push(row));
        node_at_after_push(runtime.nodes, row, request.plan_id, request.relative_path, 0);
        reveal_strlit("parent");
        reveal_strlit("leaf");
        assert("parent"@.len() != "leaf"@.len());
    }
}

/// A node that is found by its path is the one that is found by its id.
pub proof fn path_and_id_find_the_same_node(
    runtime: RuntimeModel,
    plan_id: Seq<char>,
    path: Seq<char>,
)
    requires
        runtime.is_sound(),
    ensures
        runtime.node_at(plan_id, path) matches Ok(Some(node)) ==> runtime.node(
            plan_id,
            node.node_id,
        ) == Ok::<NodeRecordModel, PlanErrorModel>(node),
{
    if let Some(row) = runtime.node_row_at(plan_id, path) {
        node_at_is_found(runtime.nodes, plan_id, path, 0);
        node_is_found(runtime.nodes, plan_id, row.node_id, 0);
        let k = choose|k: int| 0 <= k < runtime.nodes.len() && runtime.nodes[k] == row;
        let other = runtime.node_row(plan_id, row.node_id);
        assert(runtime.nodes[k].node_id == row.node_id);
        assert(other is Some);
        let m = choose|m: int| 0 <= m < runtime.nodes.len() && runtime.nodes[m] == other->0;
        assert(is_same_node(runtime.nodes[k], runtime.nodes[m]));
        assert(k == m);
    }
}

// ---------------------------------------------------------------------
// Reviews
// ---------------------------------------------------------------------
proof fn later_is_transitive(
    time: i64,
    id: Seq<char>,
    middle_time: i64,
    middle_id: Seq<char>,
    last_time: i64,
    last_id: Seq<char>,
)
    requires
        is_later(last_time, last_id, middle_time, middle_id),
        !is_later(time, id, middle_time, middle_id),
    ensures
        !is_later(time, id, last_time, last_id),
{
    if time == last_time && text_before(last_id, id) {
        assert(middle_time == time);
        order_is_transitive(middle_id, last_id, id);
    }
}

/// The review of a leaf that counts is a passed one of this leaf, and no
/// passed one of this leaf is later.
pub proof fn latest_leaf_review_is_latest(
    runs: Seq<LeafGateRunModel>,
    plan_id: Seq<char>,
    node_id: Seq<char>,
    n: int,
)
    requires
        0 <= n <= runs.len(),
    ensures
        match latest_leaf_run(runs, plan_id, node_id, n) {
            Some(best) => {
                &&& best.plan_id == plan_id
                &&& best.node_id == node_id
                &&& best.passed
                &&& exists|k: int| 0 <= k < n && #[trigger] runs[k] == best
                &&& forall|k: int|
                    0 <= k < n && (#[trigger] runs[k]).plan_id == plan_id && runs[k].node_id
                        == node_id && runs[k].passed ==> !is_later(
                        runs[k].created_at,
                        runs[k].gate_run_id,
                        best.created_at,
                        best.gate_run_id,
                    )
            },
            None => forall|k: int|
                0 <= k < n ==> !((#[trigger] runs[k]).plan_id == plan_id && runs[k].node_id
                    == node_id && runs[k].passed),
        },
    decreases n,
{
    if n > 0 {
        latest_leaf_review_is_latest(runs, plan_id, node_id, n - 1);
        let run = runs[n - 1];
        let before = latest_leaf_run(runs, plan_id, node_id, n - 1);
        let best = latest_leaf_run(runs, plan_id, node_id, n);
        order_is_total(run.gate_run_id, run.gate_run_id);
        if best is Some {
            if before is Some && best != before {
                assert forall|k: int|
                    0 <= k < n && (#[trigger] runs[k]).plan_id == plan_id && runs[k].node_id
                        == node_id && runs[k].passed implies !is_later(
                    runs[k].created_at,
                    runs[k].gate_run_id,
                    run.created_at,
                    run.gate_run_id,
                ) by {
                    if k < n - 1 {
                        later_is_transitive(
                            runs[k].created_at,
                            runs[k].gate_run_id,
                            before->0.created_at,
                            before->0.gate_run_id,
                            run.created_at,
                            run.gate_run_id,
                        );
                    }
                }
            }
            if best == before {
                let k = choose|k: int| 0 <= k < n - 1 && #[trigger] runs[k] == best->0;
                assert(runs[k] == best->0);
            } else {
                assert(runs[n - 1] == best->0);
            }
        }
    }
}

/// The review of a parent that counts is one of this parent, and none of this
/// parent is later.
pub proof fn latest_frontier_review_is_latest(
    runs: Seq<FrontierGateRunModel>,
    plan_id: Seq<char>,
    parent_node_id: Seq<char>,
    n: int,
)
    requires
        0 <= n <= runs.len(),
    ensures
        match latest_frontier_run(runs, plan_id, parent_node_id, n) {
            Some(best) => {
                &&& best.plan_id == plan_id
                &&& best.parent_node_id == parent_node_id
                &&& exists|k: int| 0 <= k < n && #[trigger] runs[k] == best
                &&& forall|k: int|
                    0 <= k < n && (#[trigger] runs[k]).plan_id == plan_id
                        && runs[k].parent_node_id == parent_node_id ==> !is_later(
                        runs[k].created_at,
                        runs[k].gate_run_id,
                        best.created_at,
                        best.gate_run_id,
                    )
            },
            None => forall|k: int|
                0 <= k < n ==> !((#[trigger] runs[k]).plan_id == plan_id
                    && runs[k].parent_node_id == parent_node_id),
        },
    decreases n,
{
    if n > 0 {
        latest_frontier_review_is_latest(runs, plan_id, parent_node_id, n - 1);
        let run = runs[n - 1];
        let before = latest_frontier_run(runs, plan_id, parent_node_id, n - 1);
        let best = latest_frontier_run(runs, plan_id, parent_node_id, n);
        order_is_total(run.gate_run_id, run.gate_run_id);
        if best is Some {
            if before is Some && best != before {
                assert forall|k: int|
                    0 <= k < n && (#[trigger] runs[k]).plan_id == plan_id
                        && runs[k].parent_node_id == parent_node_id implies !is_later(
                    runs[k].created_at,
                    runs[k].gate_run_id,
                    run.created_at,
                    run.gate_run_id,
                ) by {
                    if k < n - 1 {
                        later_is_transitive(
                            runs[k].created_at,
                            runs[k].gate_run_id,
                            before->0.created_at,
                            before->0.gate_run_id,
                            run.created_at,
                            run.gate_run_id,
                        );
                    }
                }
            }
            if best == before {
                let k = choose|k: int| 0 <= k < n - 1 && #[trigger] runs[k] == best->0;
                assert(runs[k] == best->0);
            } else {
                assert(runs[n - 1] == best->0);
            }
        }
    }
}

} // verus!
