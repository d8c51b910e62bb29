//! What holds of every runtime, whatever was asked of it: ids and paths are
//! unique, and a node stands right below its parent.
use super::gates::{FrontierReviewerOutputModel, LeafReviewerOutputModel};
use super::laws::{
    child_listing_is_complete, holds_record, is_child_record, named_plan_is_found, node_at_is_found, node_is_found, plan_is_found,
};
use super::linkage::reparented_row;
use super::node_paths::{is_direct_child, registration_kind};
use super::query::{is_child, kind_of_name, record_of};
use super::store::{
    FrontierGateRunModel, GatePlanContextModel, LeafGateRunModel, NodeRecordModel, NodeRowModel,
    PlanRowModel, RuntimeModel,
};
use crate::api::{
    EnsureNodeIdRequestModel, EnsurePlanRequestModel, NodeKind,
    ReconcileParentChildLinksRequestModel, RunFrontierReviewGateRequestModel,
    RunLeafReviewGateRequestModel,
};
use crate::bundle::ReadingModel;
use crate::error::PlanErrorModel;
use crate::files::PlanFilesModel;
use crate::refine::runtime_state::RefineStaleResultHandoffModel;
use crate::skill::SkillFilesModel;
use vstd::prelude::*;

verus! {

// ---------------------------------------------------------------------
// The invariant
// ---------------------------------------------------------------------
/// No two plans share an id, nor a name within a workspace.
pub open spec fn plans_are_distinct(plans: Seq<PlanRowModel>) -> bool {
    forall|i: int, j: int|
        #![trigger plans[i], plans[j]]
        0 <= i < j < plans.len() ==> plans[i].plan_id != plans[j].plan_id && !(
        plans[i].workspace_root == plans[j].workspace_root && plans[i].plan_name
            == plans[j].plan_name)
}

/// The two rows are of the same node.
pub open spec fn is_same_node(a: NodeRowModel, b: NodeRowModel) -> bool {
    a.plan_id == b.plan_id && (a.node_id == b.node_id || a.relative_path == b.relative_path)
}

/// No two nodes of a plan share an id or a path.
pub open spec fn nodes_are_distinct(nodes: Seq<NodeRowModel>) -> bool {
    forall|i: int, j: int|
        #![trigger nodes[i], nodes[j]]
        0 <= i < j < nodes.len() ==> !is_same_node(nodes[i], nodes[j])
}

/// There is a plan with this id.
pub open spec fn has_plan(plans: Seq<PlanRowModel>, plan_id: Seq<char>) -> bool {
    exists|i: int| 0 <= i < plans.len() && (#[trigger] plans[i]).plan_id == plan_id
}

/// The row is one of the given parent, and the node stands right below it.
pub open spec fn fits_parent(row: NodeRowModel, parent: NodeRowModel) -> bool {
    &&& parent.plan_id == row.plan_id
    &&& Some(parent.node_id) == row.parent_node_id
    &&& parent.node_kind == NodeKind::Parent.name()
    &&& match kind_of_name(row.node_kind) {
        Ok(kind) => is_direct_child(row.relative_path, parent.relative_path, kind),
        Err(_) => false,
    }
}

/// The node is at the top, or right below a parent that is there.
pub open spec fn is_placed(nodes: Seq<NodeRowModel>, row: NodeRowModel) -> bool {
    row.parent_node_id is None || exists|i: int|
        0 <= i < nodes.len() && fits_parent(row, #[trigger] nodes[i])
}

/// Every node is of a plan and stands at its place.
pub open spec fn nodes_are_placed(plans: Seq<PlanRowModel>, nodes: Seq<NodeRowModel>) -> bool {
    forall|i: int|
        0 <= i < nodes.len() ==> has_plan(plans, nodes[i].plan_id) && kind_of_name(
            nodes[i].node_kind,
        ) is Ok && is_placed(nodes, #[trigger] nodes[i])
}

/// No two reviews share an id.
pub open spec fn leaf_runs_are_distinct(runs: Seq<LeafGateRunModel>) -> bool {
    forall|i: int, j: int|
        #![trigger runs[i], runs[j]]
        0 <= i < j < runs.len() ==> runs[i].gate_run_id != runs[j].gate_run_id
}

/// No two reviews share an id.
pub open spec fn frontier_runs_are_distinct(runs: Seq<FrontierGateRunModel>) -> bool {
    forall|i: int, j: int|
        #![trigger runs[i], runs[j]]
        0 <= i < j < runs.len() ==> runs[i].gate_run_id != runs[j].gate_run_id
}

/// A passed review raises no issue.
pub open spec fn leaf_run_is_sound(run: LeafGateRunModel) -> bool {
    run.passed <==> run.issues.len() == 0
}

/// A passed review raises no issue and takes back no approval.
pub open spec fn frontier_run_is_sound(run: FrontierGateRunModel) -> bool {
    &&& run.passed <==> run.issues.len() == 0
    &&& run.passed ==> run.invalidated_leaf_node_ids.len() == 0
}

impl RuntimeModel {
    /// Ids and paths are unique, a node stands right below its parent, and a
    /// review holds what its verdict allows.
    pub open spec fn is_sound(self) -> bool {
        &&& plans_are_distinct(self.plans)
        &&& nodes_are_distinct(self.nodes)
        &&& nodes_are_placed(self.plans, self.nodes)
        &&& leaf_runs_are_distinct(self.leaf_gate_runs)
        &&& frontier_runs_are_distinct(self.frontier_gate_runs)
        &&& forall|i: int|
            0 <= i < self.leaf_gate_runs.len() ==> leaf_run_is_sound(
                #[trigger] self.leaf_gate_runs[i],
            )
        &&& forall|i: int|
            0 <= i < self.frontier_gate_runs.len() ==> frontier_run_is_sound(
                #[trigger] self.frontier_gate_runs[i],
            )
    }
}

/// A runtime that remembers nothing is sound.
pub proof fn empty_runtime_is_sound(workspace_root: Seq<char>)
    ensures
        RuntimeModel::empty(workspace_root).is_sound(),
{
}

/// A request for a plan keeps the runtime sound, whatever comes of it.
pub proof fn ensuring_a_plan_keeps_soundness(
    runtime: RuntimeModel,
    request: EnsurePlanRequestModel,
    new_id: Seq<char>,
    timestamp: Seq<char>,
)
    requires
        runtime.is_sound(),
    ensures
        runtime.plan_ensured(request, new_id, timestamp).0.is_sound(),
{
    let next = runtime.plan_ensured(request, new_id, timestamp).0;
    plan_is_found(runtime.plans, new_id, 0);
    named_plan_is_found(runtime.plans, runtime.workspace_root, request.plan_name, 0);
    assert(next.nodes == runtime.nodes);
    assert(next.plans.len() >= runtime.plans.len());
    assert forall|i: int| 0 <= i < runtime.plans.len() implies (#[trigger] next.plans[i]).plan_id
        == runtime.plans[i].plan_id && next.plans[i].workspace_root
        == runtime.plans[i].workspace_root && next.plans[i].plan_name
        == runtime.plans[i].plan_name by {}
    assert forall|i: int| 0 <= i < next.nodes.len() implies has_plan(
        next.plans,
        next.nodes[i].plan_id,
    ) && kind_of_name(next.nodes[i].node_kind) is Ok && is_placed(
        next.nodes,
        #[trigger] next.nodes[i],
    ) by {
        assert(is_placed(runtime.nodes, runtime.nodes[i]));
        let k = choose|k: int|
            0 <= k < runtime.plans.len() && (#[trigger] runtime.plans[k]).plan_id
                == runtime.nodes[i].plan_id;
        assert(next.plans[k].plan_id == runtime.nodes[i].plan_id);
    }
}

proof fn kind_names_read_back(kind: NodeKind)
    ensures
        kind_of_name(kind.name()) == Ok::<NodeKind, PlanErrorModel>(kind),
{
    reveal_strlit("parent");
    reveal_strlit("leaf");
    assert("parent"@.len() != "leaf"@.len());
}

/// A request for a node keeps the runtime sound, whatever comes of it.
pub proof fn ensuring_a_node_keeps_soundness(
    runtime: RuntimeModel,
    plan_id: Seq<char>,
    path: Seq<char>,
    parent_path: Option<Seq<char>>,
    new_id: Seq<char>,
    timestamp: Seq<char>,
)
    requires
        runtime.is_sound(),
    ensures
        runtime.node_ensured(plan_id, path, parent_path, new_id, timestamp).0.is_sound(),
{
    let next = runtime.node_ensured(plan_id, path, parent_path, new_id, timestamp).0;
    if next != runtime {
        node_at_is_found(runtime.nodes, plan_id, path, 0);
        node_is_found(runtime.nodes, plan_id, new_id, 0);
        plan_is_found(runtime.plans, plan_id, 0);
        let kind = registration_kind(path, parent_path)->Ok_0;
        kind_names_read_back(kind);
        kind_names_read_back(NodeKind::Parent);
        let row = next.nodes.last();
        assert(next.nodes == runtime.nodes.push(row));
        assert(has_plan(next.plans, plan_id));
        if let Some(parent_path) = parent_path {
            node_at_is_found(runtime.nodes, plan_id, parent_path, 0);
            let found = runtime.node_row_at(plan_id, parent_path)->0;
            let k = choose|k: int| 0 <= k < runtime.nodes.len() && runtime.nodes[k] == found;
            assert(next.nodes[k] == found);
            assert(is_placed(runtime.nodes, runtime.nodes[k]));
            assert(fits_parent(row, next.nodes[k]));
        }
        assert(is_placed(next.nodes, row));
        assert forall|i: int| 0 <= i < next.nodes.len() implies has_plan(
            next.plans,
            next.nodes[i].plan_id,
        ) && kind_of_name(next.nodes[i].node_kind) is Ok && is_placed(
            next.nodes,
            #[trigger] next.nodes[i],
        ) by {
            if i < runtime.nodes.len() {
                assert(next.nodes[i] == runtime.nodes[i]);
                assert(is_placed(runtime.nodes, runtime.nodes[i]));
                if runtime.nodes[i].parent_node_id is Some {
                    let k = choose|k: int|
                        0 <= k < runtime.nodes.len() && fits_parent(
                            runtime.nodes[i],
                            #[trigger] runtime.nodes[k],
                        );
                    assert(fits_parent(next.nodes[i], next.nodes[k]));
                }
            }
        }
        assert(nodes_are_distinct(next.nodes)) by {
            assert forall|i: int, j: int|
                #![trigger next.nodes[i], next.nodes[j]]
                0 <= i < j < next.nodes.len() implies !is_same_node(
                next.nodes[i],
                next.nodes[j],
            ) by {
                assert(next.nodes[i] == runtime.nodes[i]);
                if j < runtime.nodes.len() {
                    assert(next.nodes[j] == runtime.nodes[j]);
                }
            }
        }
    }
}

/// A request for a node's id keeps the runtime sound, whatever comes of it.
pub proof fn ensuring_a_node_id_keeps_soundness(
    runtime: RuntimeModel,
    request: EnsureNodeIdRequestModel,
    new_id: Seq<char>,
    timestamp: Seq<char>,
)
    requires
        runtime.is_sound(),
    ensures
        runtime.node_id_ensured(request, new_id, timestamp).0.is_sound(),
{
    ensuring_a_node_keeps_soundness(
        runtime,
        request.plan_id,
        request.relative_path,
        request.parent_relative_path,
        new_id,
        timestamp,
    );
}

/// A review of a leaf keeps the runtime sound, whatever comes of it.
pub proof fn leaf_gates_keep_soundness(
    runtime: RuntimeModel,
    files: PlanFilesModel,
    skill: Result<SkillFilesModel, PlanErrorModel>,
    request: RunLeafReviewGateRequestModel,
    gate_run_id: Seq<char>,
    reply: Result<Seq<char>, PlanErrorModel>,
    readings: Seq<ReadingModel<LeafReviewerOutputModel>>,
    created_at: i64,
)
    requires
        runtime.is_sound(),
    ensures
        runtime.leaf_gate_run(
            files,
            skill,
            request,
            gate_run_id,
            reply,
            readings,
            created_at,
        ).0.is_sound(),
{
    let next = runtime.leaf_gate_run(
        files,
        skill,
        request,
        gate_run_id,
        reply,
        readings,
        created_at,
    ).0;
    if next != runtime {
        let run = next.leaf_gate_runs.last();
        assert(next.leaf_gate_runs == runtime.leaf_gate_runs.push(run));
        assert(leaf_run_is_sound(run));
    }
}

/// A review of a parent keeps the runtime sound, whatever comes of it.
pub proof fn frontier_gates_keep_soundness(
    runtime: RuntimeModel,
    files: PlanFilesModel,
    skill: Result<SkillFilesModel, PlanErrorModel>,
    request: RunFrontierReviewGateRequestModel,
    gate_run_id: Seq<char>,
    reply: Result<Seq<char>, PlanErrorModel>,
    readings: Seq<ReadingModel<FrontierReviewerOutputModel>>,
    handoff_readings: Seq<ReadingModel<Seq<RefineStaleResultHandoffModel>>>,
    created_at: i64,
)
    requires
        runtime.is_sound(),
    ensures
        runtime.frontier_gate_run(
            files,
            skill,
            request,
            gate_run_id,
            reply,
            readings,
            handoff_readings,
            created_at,
        ).0.is_sound(),
{
    let next = runtime.frontier_gate_run(
        files,
        skill,
        request,
        gate_run_id,
        reply,
        readings,
        handoff_readings,
        created_at,
    ).0;
    if next != runtime {
        let run = next.frontier_gate_runs.last();
        assert(next.frontier_gate_runs == runtime.frontier_gate_runs.push(run));
        assert(frontier_run_is_sound(run));
    }
}

// ---------------------------------------------------------------------
// Following the links of a parent
// ---------------------------------------------------------------------
/// The rows differ in nothing but the parent and the time of the change.
pub open spec fn is_same_but_parent(a: NodeRowModel, b: NodeRowModel) -> bool {
    NodeRowModel { parent_node_id: b.parent_node_id, updated_at: b.updated_at, ..a } == b
}

/// One of the children from `i` on is this node and is not linked.
pub open spec fn is_unlinked(
    row: NodeRowModel,
    plan_id: Seq<char>,
    children: Seq<NodeRecordModel>,
    links: Seq<Seq<char>>,
    i: int,
) -> bool {
    row.plan_id == plan_id && exists|j: int|
        i <= j < children.len() && (#[trigger] children[j]).node_id == row.node_id
            && !links.contains(children[j].relative_path)
}

/// One of the children from `i` on is this node and has another parent.
pub open spec fn is_newcomer(
    row: NodeRowModel,
    plan_id: Seq<char>,
    children: Seq<NodeRecordModel>,
    parent_node_id: Seq<char>,
    i: int,
) -> bool {
    row.plan_id == plan_id && exists|j: int|
        i <= j < children.len() && (#[trigger] children[j]).node_id == row.node_id
            && children[j].parent_node_id != Some(parent_node_id)
}

/// The two remember the same but for the parents of nodes.
pub open spec fn differs_in_parents(a: RuntimeModel, b: RuntimeModel) -> bool {
    &&& RuntimeModel { nodes: b.nodes, ..a } == b
    &&& a.nodes.len() == b.nodes.len()
    &&& forall|k: int|
        #![trigger a.nodes[k]]
        #![trigger b.nodes[k]]
        0 <= k < a.nodes.len() ==> is_same_but_parent(a.nodes[k], b.nodes[k])
}

proof fn detached_rows(
    runtime: RuntimeModel,
    plan_id: Seq<char>,
    children: Seq<NodeRecordModel>,
    links: Seq<Seq<char>>,
    timestamp: Seq<char>,
    i: int,
    acc: Seq<Seq<char>>,
)
    requires
        0 <= i,
    ensures
        differs_in_parents(
            runtime,
            runtime.detached_from(plan_id, children, links, timestamp, i, acc).0,
        ),
        forall|k: int|
            0 <= k < runtime.nodes.len() ==> (#[trigger] runtime.detached_from(
                plan_id,
                children,
                links,
                timestamp,
                i,
                acc,
            ).0.nodes[k]).parent_node_id == if is_unlinked(
                runtime.nodes[k],
                plan_id,
                children,
                links,
                i,
            ) {
                None
            } else {
                runtime.nodes[k].parent_node_id
            },
    decreases children.len() - i,
{
    let next = runtime.detached_from(plan_id, children, links, timestamp, i, acc).0;
    if i < children.len() {
        if links.contains(children[i].relative_path) {
            detached_rows(runtime, plan_id, children, links, timestamp, i + 1, acc);
            assert forall|k: int| 0 <= k < runtime.nodes.len() implies is_unlinked(
                #[trigger] runtime.nodes[k],
                plan_id,
                children,
                links,
                i,
            ) == is_unlinked(runtime.nodes[k], plan_id, children, links, i + 1) by {}
        } else {
            let middle = runtime.reparented(plan_id, children[i].node_id, None, timestamp);
            let told = acc.push(children[i].relative_path);
            detached_rows(middle, plan_id, children, links, timestamp, i + 1, told);
            assert forall|k: int| 0 <= k < runtime.nodes.len() implies is_same_but_parent(
                runtime.nodes[k],
                #[trigger] next.nodes[k],
            ) && next.nodes[k].parent_node_id == if is_unlinked(
                runtime.nodes[k],
                plan_id,
                children,
                links,
                i,
            ) {
                None
            } else {
                runtime.nodes[k].parent_node_id
            } by {
                let row = runtime.nodes[k];
                let moved = middle.nodes[k];
                assert(moved == reparented_row(
                    row,
                    plan_id,
                    children[i].node_id,
                    None,
                    timestamp,
                ));
                assert(is_same_but_parent(moved, next.nodes[k]));
                if is_unlinked(row, plan_id, children, links, i) && !is_unlinked(
                    moved,
                    plan_id,
                    children,
                    links,
                    i + 1,
                ) {
                    let j = choose|j: int|
                        i <= j < children.len() && (#[trigger] children[j]).node_id == row.node_id
                            && !links.contains(children[j].relative_path);
                    assert(j == i);
                }
            }
        }
    }
}

proof fn attached_rows(
    runtime: RuntimeModel,
    plan_id: Seq<char>,
    children: Seq<NodeRecordModel>,
    parent_node_id: Seq<char>,
    timestamp: Seq<char>,
    i: int,
    acc: Seq<Seq<char>>,
)
    requires
        0 <= i,
    ensures
        differs_in_parents(
            runtime,
            runtime.attached_from(plan_id, children, parent_node_id, timestamp, i, acc).0,
        ),
        forall|k: int|
            0 <= k < runtime.nodes.len() ==> (#[trigger] runtime.attached_from(
                plan_id,
                children,
                parent_node_id,
                timestamp,
                i,
                acc,
            ).0.nodes[k]).parent_node_id == if is_newcomer(
                runtime.nodes[k],
                plan_id,
                children,
                parent_node_id,
                i,
            ) {
                Some(parent_node_id)
            } else {
                runtime.nodes[k].parent_node_id
            },
    decreases children.len() - i,
{
    let next = runtime.attached_from(plan_id, children, parent_node_id, timestamp, i, acc).0;
    if i < children.len() {
        if children[i].parent_node_id == Some(parent_node_id) {
            attached_rows(runtime, plan_id, children, parent_node_id, timestamp, i + 1, acc);
            assert forall|k: int| 0 <= k < runtime.nodes.len() implies is_newcomer(
                #[trigger] runtime.nodes[k],
                plan_id,
                children,
                parent_node_id,
                i,
            ) == is_newcomer(runtime.nodes[k], plan_id, children, parent_node_id, i + 1) by {}
        } else {
            let middle = runtime.reparented(
                plan_id,
                children[i].node_id,
                Some(parent_node_id),
                timestamp,
            );
            let told = acc.push(children[i].relative_path);
            attached_rows(middle, plan_id, children, parent_node_id, timestamp, i + 1, told);
            assert forall|k: int| 0 <= k < runtime.nodes.len() implies is_same_but_parent(
                runtime.nodes[k],
                #[trigger] next.nodes[k],
            ) && next.nodes[k].parent_node_id == if is_newcomer(
                runtime.nodes[k],
                plan_id,
                children,
                parent_node_id,
                i,
            ) {
                Some(parent_node_id)
            } else {
                runtime.nodes[k].parent_node_id
            } by {
                let row = runtime.nodes[k];
                let moved = middle.nodes[k];
                assert(moved == reparented_row(
                    row,
                    plan_id,
                    children[i].node_id,
                    Some(parent_node_id),
                    timestamp,
                ));
                assert(is_same_but_parent(moved, next.nodes[k]));
                if is_newcomer(row, plan_id, children, parent_node_id, i) && !is_newcomer(
                    moved,
                    plan_id,
                    children,
                    parent_node_id,
                    i + 1,
                ) {
                    let j = choose|j: int|
                        i <= j < children.len() && (#[trigger] children[j]).node_id == row.node_id
                            && children[j].parent_node_id != Some(parent_node_id);
                    assert(j == i);
                }
            }
        }
    }
}

/// The record is that of a tracked node right below the parent.
pub open spec fn is_linked_child(
    runtime: RuntimeModel,
    plan_id: Seq<char>,
    parent: NodeRecordModel,
    path: Seq<char>,
    child: NodeRecordModel,
) -> bool {
    &&& runtime.node_at(plan_id, path) == Ok::<Option<NodeRecordModel>, PlanErrorModel>(
        Some(child),
    )
    &&& is_direct_child(child.relative_path, parent.relative_path, child.node_kind)
}

/// The children that the links lead to stand at the linked paths, one for each
/// link.
pub proof fn linked_children_match_links(
    runtime: RuntimeModel,
    files: PlanFilesModel,
    plan: GatePlanContextModel,
    plan_id: Seq<char>,
    parent: NodeRecordModel,
    links: Seq<Seq<char>>,
    i: int,
    acc: Seq<NodeRecordModel>,
)
    requires
        0 <= i <= links.len(),
        acc.len() == i,
        forall|k: int|
            0 <= k < i ==> is_linked_child(runtime, plan_id, parent, links[k], #[trigger] acc[k]),
    ensures
        runtime.linked_children_from(files, plan, plan_id, parent, links, i, acc) matches Ok(
            children,
        ) ==> children.len() == links.len() && forall|k: int|
            0 <= k < links.len() ==> is_linked_child(
                runtime,
                plan_id,
                parent,
                links[k],
                #[trigger] children[k],
            ),
    decreases links.len() - i,
{
    if i < links.len() {
        match runtime.linked_child(files, plan, plan_id, parent, links[i]) {
            Ok(child) => {
                linked_children_match_links(
                    runtime,
                    files,
                    plan,
                    plan_id,
                    parent,
                    links,
                    i + 1,
                    acc.push(child),
                );
            },
            Err(_) => {},
        }
    }
}

/// Every node of the plan has the parent exactly where the parent links it,
/// and else, unless it had the parent before, the parent that it had.
pub open spec fn follows_links(
    before: RuntimeModel,
    after: RuntimeModel,
    plan_id: Seq<char>,
    parent_node_id: Seq<char>,
    links: Seq<Seq<char>>,
) -> bool {
    forall|k: int|
        #![trigger after.nodes[k]]
        0 <= k < before.nodes.len() ==> after.nodes[k].parent_node_id == if before.nodes[k].plan_id
            != plan_id {
            before.nodes[k].parent_node_id
        } else if links.contains(before.nodes[k].relative_path) {
            Some(parent_node_id)
        } else if before.nodes[k].parent_node_id == Some(parent_node_id) {
            None
        } else {
            before.nodes[k].parent_node_id
        }
}

/// A refused reconciliation changes nothing.
pub proof fn refused_reconciliation_changes_nothing(
    runtime: RuntimeModel,
    files: PlanFilesModel,
    request: ReconcileParentChildLinksRequestModel,
    timestamp: Seq<char>,
)
    ensures
        runtime.links_reconciled(files, request, timestamp).1 is Err ==> runtime.links_reconciled(
            files,
            request,
            timestamp,
        ).0 == runtime,
{
}

/// After a reconciliation the children of the parent are exactly the nodes
/// that its markdown links. Nothing changes but the parents of nodes.
pub proof fn reconciliation_follows_links(
    runtime: RuntimeModel,
    files: PlanFilesModel,
    request: ReconcileParentChildLinksRequestModel,
    timestamp: Seq<char>,
)
    requires
        runtime.is_sound(),
    ensures
        ({
            let (next, result) = runtime.links_reconciled(files, request, timestamp);
            result matches Ok(answer) ==> {
                &&& differs_in_parents(runtime, next)
                &&& follows_links(
                    runtime,
                    next,
                    request.plan_id,
                    answer.parent_node_id,
                    answer.linked_child_relative_paths,
                )
            }
        }),
{
    let (next, result) = runtime.links_reconciled(files, request, timestamp);
    if result is Ok {
        let plan_id = request.plan_id;
        let (plan, parent, links) = runtime.reconciled_parent(files, request)->Ok_0;
        let linked = runtime.linked_children_from(
            files,
            plan,
            plan_id,
            parent,
            links,
            0,
            Seq::empty(),
        )->Ok_0;
        linked_children_match_links(
            runtime,
            files,
            plan,
            plan_id,
            parent,
            links,
            0,
            Seq::empty(),
        );
        let current = runtime.child_nodes(plan_id, Some(parent.node_id))->Ok_0;
        child_listing_is_complete(runtime, plan_id, Some(parent.node_id));
        let without = runtime.detached_from(
            plan_id,
            current,
            links,
            timestamp,
            0,
            Seq::empty(),
        ).0;
        detached_rows(runtime, plan_id, current, links, timestamp, 0, Seq::empty());
        attached_rows(without, plan_id, linked, parent.node_id, timestamp, 0, Seq::empty());
        assert forall|k: int| 0 <= k < runtime.nodes.len() implies is_same_but_parent(
            #[trigger] runtime.nodes[k],
            next.nodes[k],
        ) by {
            assert(is_same_but_parent(without.nodes[k], next.nodes[k]));
        }
        assert forall|k: int|
            #![trigger next.nodes[k]]
            0 <= k < runtime.nodes.len() implies next.nodes[k].parent_node_id == if runtime.nodes[
        k].plan_id != plan_id {
            runtime.nodes[k].parent_node_id
        } else if links.contains(runtime.nodes[k].relative_path) {
            Some(parent.node_id)
        } else if runtime.nodes[k].parent_node_id == Some(parent.node_id) {
            None
        } else {
            runtime.nodes[k].parent_node_id
        } by {
            let row = runtime.nodes[k];
            let freed = without.nodes[k];
            assert(is_same_but_parent(row, freed));
            if row.plan_id == plan_id {
                current_children_are_rows(runtime, plan_id, parent.node_id, links, k);
                linked_children_are_rows(runtime, plan_id, parent, links, linked, k);
                assert(is_newcomer(freed, plan_id, linked, parent.node_id, 0) == is_newcomer(
                    row,
                    plan_id,
                    linked,
                    parent.node_id,
                    0,
                ));
            }
        }
    }
}

proof fn current_children_are_rows(
    runtime: RuntimeModel,
    plan_id: Seq<char>,
    parent_node_id: Seq<char>,
    links: Seq<Seq<char>>,
    k: int,
)
    requires
        runtime.is_sound(),
        0 <= k < runtime.nodes.len(),
        runtime.nodes[k].plan_id == plan_id,
        runtime.child_nodes(plan_id, Some(parent_node_id)) is Ok,
    ensures
        is_unlinked(
            runtime.nodes[k],
            plan_id,
            runtime.child_nodes(plan_id, Some(parent_node_id))->Ok_0,
            links,
            0,
        ) <==> runtime.nodes[k].parent_node_id == Some(parent_node_id) && !links.contains(
            runtime.nodes[k].relative_path,
        ),
{
    let row = runtime.nodes[k];
    let current = runtime.child_nodes(plan_id, Some(parent_node_id))->Ok_0;
    child_listing_is_complete(runtime, plan_id, Some(parent_node_id));
    if is_unlinked(row, plan_id, current, links, 0) {
        let j = choose|j: int|
            0 <= j < current.len() && (#[trigger] current[j]).node_id == row.node_id
                && !links.contains(current[j].relative_path);
        assert(is_child_record(runtime, plan_id, Some(parent_node_id), current[j]));
        let m = choose|m: int|
            0 <= m < runtime.nodes.len() && is_child(
                runtime.nodes[m],
                plan_id,
                Some(parent_node_id),
            ) && record_of(#[trigger] runtime.nodes[m]) == Ok::<NodeRecordModel, PlanErrorModel>(
                current[j],
            );
        assert(is_same_node(runtime.nodes[m], row));
        assert(m == k);
    }
    if row.parent_node_id == Some(parent_node_id) && !links.contains(row.relative_path) {
        assert(is_child(row, plan_id, Some(parent_node_id)));
        assert(holds_record(current, runtime.nodes[k]));
        let j = choose|j: int|
            0 <= j < current.len() && record_of(row) == Ok::<NodeRecordModel, PlanErrorModel>(
                #[trigger] current[j],
            );
        assert(current[j].node_id == row.node_id);
    }
}

proof fn linked_children_are_rows(
    runtime: RuntimeModel,
    plan_id: Seq<char>,
    parent: NodeRecordModel,
    links: Seq<Seq<char>>,
    linked: Seq<NodeRecordModel>,
    k: int,
)
    requires
        runtime.is_sound(),
        0 <= k < runtime.nodes.len(),
        runtime.nodes[k].plan_id == plan_id,
        linked.len() == links.len(),
        forall|j: int|
            0 <= j < links.len() ==> is_linked_child(
                runtime,
                plan_id,
                parent,
                links[j],
                #[trigger] linked[j],
            ),
    ensures
        is_newcomer(runtime.nodes[k], plan_id, linked, parent.node_id, 0) <==> links.contains(
            runtime.nodes[k].relative_path,
        ) && runtime.nodes[k].parent_node_id != Some(parent.node_id),
{
    let row = runtime.nodes[k];
    if is_newcomer(row, plan_id, linked, parent.node_id, 0) {
        let j = choose|j: int|
            0 <= j < linked.len() && (#[trigger] linked[j]).node_id == row.node_id
                && linked[j].parent_node_id != Some(parent.node_id);
        assert(is_linked_child(runtime, plan_id, parent, links[j], linked[j]));
        node_at_is_found(runtime.nodes, plan_id, links[j], 0);
        let found = runtime.node_row_at(plan_id, links[j])->0;
        let m = choose|m: int| 0 <= m < runtime.nodes.len() && runtime.nodes[m] == found;
        assert(is_same_node(runtime.nodes[m], row));
        assert(m == k);
        assert(links.contains(links[j]));
    }
    if links.contains(row.relative_path) && row.parent_node_id != Some(parent.node_id) {
        let j = choose|j: int| 0 <= j < links.len() && links[j] == row.relative_path;
        assert(is_linked_child(runtime, plan_id, parent, links[j], linked[j]));
        node_at_is_found(runtime.nodes, plan_id, links[j], 0);
        let found = runtime.node_row_at(plan_id, links[j])->0;
        let m = choose|m: int| 0 <= m < runtime.nodes.len() && runtime.nodes[m] == found;
        assert(is_same_node(runtime.nodes[m], row));
        assert(m == k);
        assert(linked[j].node_id == row.node_id);
    }
}

/// A reconciliation keeps the runtime sound, whatever comes of it.
pub proof fn reconciliation_keeps_soundness(
    runtime: RuntimeModel,
    files: PlanFilesModel,
    request: ReconcileParentChildLinksRequestModel,
    timestamp: Seq<char>,
)
    requires
        runtime.is_sound(),
    ensures
        runtime.links_reconciled(files, request, timestamp).0.is_sound(),
{
    let (next, result) = runtime.links_reconciled(files, request, timestamp);
    if result is Ok {
        let plan_id = request.plan_id;
        let (plan, parent, links) = runtime.reconciled_parent(files, request)->Ok_0;
        reconciliation_follows_links(runtime, files, request, timestamp);
        let linked = runtime.linked_children_from(
            files,
            plan,
            plan_id,
            parent,
            links,
            0,
            Seq::empty(),
        )->Ok_0;
        linked_children_match_links(
            runtime,
            files,
            plan,
            plan_id,
            parent,
            links,
            0,
            Seq::empty(),
        );
        node_at_is_found(runtime.nodes, plan_id, request.parent_relative_path, 0);
        let home = runtime.node_row_at(plan_id, request.parent_relative_path)->0;
        let p = choose|p: int| 0 <= p < runtime.nodes.len() && runtime.nodes[p] == home;
        kind_names_read_back(NodeKind::Parent);
        assert(is_same_but_parent(runtime.nodes[p], next.nodes[p]));
        assert forall|i: int| 0 <= i < next.nodes.len() implies has_plan(
            next.plans,
            next.nodes[i].plan_id,
        ) && kind_of_name(next.nodes[i].node_kind) is Ok && is_placed(
            next.nodes,
            #[trigger] next.nodes[i],
        ) by {
            let row = runtime.nodes[i];
            assert(is_same_but_parent(row, next.nodes[i]));
            assert(is_placed(runtime.nodes, row));
            if next.nodes[i].parent_node_id is Some {
                if row.plan_id == plan_id && links.contains(row.relative_path) {
                    let j = choose|j: int| 0 <= j < links.len() && links[j] == row.relative_path;
                    assert(is_linked_child(runtime, plan_id, parent, links[j], linked[j]));
                    node_at_is_found(runtime.nodes, plan_id, links[j], 0);
                    let found = runtime.node_row_at(plan_id, links[j])->0;
                    let m = choose|m: int|
                        0 <= m < runtime.nodes.len() && runtime.nodes[m] == found;
                    assert(is_same_node(runtime.nodes[m], row));
                    assert(m == i);
                    assert(fits_parent(next.nodes[i], next.nodes[p]));
                } else {
                    let m = choose|m: int|
                        0 <= m < runtime.nodes.len() && fits_parent(
                            row,
                            #[trigger] runtime.nodes[m],
                        );
                    assert(is_same_but_parent(runtime.nodes[m], next.nodes[m]));
                    assert(fits_parent(next.nodes[i], next.nodes[m]));
                }
            }
        }
        assert(nodes_are_distinct(next.nodes)) by {
            assert forall|i: int, j: int|
                #![trigger next.nodes[i], next.nodes[j]]
                0 <= i < j < next.nodes.len() implies !is_same_node(
                next.nodes[i],
                next.nodes[j],
            ) by {
                assert(is_same_but_parent(runtime.nodes[i], next.nodes[i]));
                assert(is_same_but_parent(runtime.nodes[j], next.nodes[j]));
            }
        }
    }
}

} // verus!
