//! What holds of every review.
use super::gates::{
    unknown_invalidation_from, FrontierReviewerOutputModel, LeafReviewerOutputModel,
};
use super::integrity::{fits_parent, is_placed, is_same_node};
use super::laws::{child_listing_is_complete, is_child_record, node_is_found};
use super::node_paths::child_parents_stand_deeper;
use super::query::{child_rows, is_child, record_of, records_from};
use super::store::{NodeRecordModel, NodeRowModel, RuntimeModel};
use crate::api::{NodeKind, RunFrontierReviewGateRequestModel, RunLeafReviewGateRequestModel};
use crate::bundle::ReadingModel;
use crate::error::PlanErrorModel;
use crate::files::PlanFilesModel;
use crate::paths::components;
use crate::refine::runtime_state::RefineStaleResultHandoffModel;
use crate::skill::SkillFilesModel;
use crate::text::with_unique;
use vstd::prelude::*;

verus! {

// ---------------------------------------------------------------------
// Leaves below a node
// ---------------------------------------------------------------------
/// How many of the first `n` nodes stand deeper than `depth`.
pub open spec fn deeper_count(nodes: Seq<NodeRowModel>, depth: nat, n: int) -> nat
    decreases n,
{
    if n <= 0 {
        0
    } else {
        deeper_count(nodes, depth, n - 1) + (if components(nodes[n - 1].relative_path).len()
            > depth {
            1nat
        } else {
            0nat
        })
    }
}

proof fn deeper_count_shrinks(
    nodes: Seq<NodeRowModel>,
    depth: nat,
    deeper: nat,
    n: int,
    between: int,
)
    requires
        0 <= n <= nodes.len(),
        depth <= deeper,
    ensures
        deeper_count(nodes, deeper, n) <= deeper_count(nodes, depth, n) <= n,
        0 <= between < n && components(nodes[between].relative_path).len() <= deeper && components(
            nodes[between].relative_path,
        ).len() > depth ==> deeper_count(nodes, deeper, n) < deeper_count(nodes, depth, n),
        0 <= between < n && components(nodes[between].relative_path).len() <= depth
            ==> deeper_count(nodes, depth, n) < n,
    decreases n,
{
    if n > 0 {
        deeper_count_shrinks(nodes, depth, deeper, n - 1, between);
    }
}

impl RuntimeModel {
    /// How many nodes stand deeper than this one.
    pub open spec fn rank(self, plan_id: Seq<char>, node_id: Seq<char>) -> nat {
        match self.node_row(plan_id, node_id) {
            Some(row) => deeper_count(
                self.nodes,
                components(row.relative_path).len(),
                self.nodes.len() as int,
            ),
            None => 0,
        }
    }
}

proof fn row_is_found(runtime: RuntimeModel, k: int)
    requires
        runtime.is_sound(),
        0 <= k < runtime.nodes.len(),
    ensures
        runtime.node_row(runtime.nodes[k].plan_id, runtime.nodes[k].node_id) == Some(
            runtime.nodes[k],
        ),
{
    let row = runtime.nodes[k];
    node_is_found(runtime.nodes, row.plan_id, row.node_id, 0);
    let found = runtime.node_row(row.plan_id, row.node_id);
    assert(found is Some);
    let m = choose|m: int| 0 <= m < runtime.nodes.len() && runtime.nodes[m] == found->0;
    assert(is_same_node(runtime.nodes[m], runtime.nodes[k]));
    assert(m == k);
}

proof fn children_rank_lower(
    runtime: RuntimeModel,
    plan_id: Seq<char>,
    node_id: Seq<char>,
    children: Seq<NodeRecordModel>,
    k: int,
)
    requires
        runtime.is_sound(),
        runtime.child_nodes(plan_id, Some(node_id)) == Ok::<Seq<NodeRecordModel>, PlanErrorModel>(
            children,
        ),
        0 <= k < children.len(),
        children[k].node_kind == NodeKind::Parent,
    ensures
        runtime.rank(plan_id, children[k].node_id) < runtime.rank(plan_id, node_id),
{
    child_listing_is_complete(runtime, plan_id, Some(node_id));
    let listed = runtime.child_nodes(plan_id, Some(node_id))->Ok_0;
    let child = listed[k];
    assert(listed == children);
    assert(is_child_record(runtime, plan_id, Some(node_id), child));
    let m = choose|m: int|
        0 <= m < runtime.nodes.len() && is_child(runtime.nodes[m], plan_id, Some(node_id))
            && record_of(#[trigger] runtime.nodes[m]) == Ok::<NodeRecordModel, PlanErrorModel>(
            child,
        );
    let row = runtime.nodes[m];
    assert(is_placed(runtime.nodes, row));
    let p = choose|p: int|
        0 <= p < runtime.nodes.len() && fits_parent(row, #[trigger] runtime.nodes[p]);
    row_is_found(runtime, m);
    row_is_found(runtime, p);
    child_parents_stand_deeper(row.relative_path, runtime.nodes[p].relative_path);
    deeper_count_shrinks(
        runtime.nodes,
        components(runtime.nodes[p].relative_path).len(),
        components(row.relative_path).len(),
        runtime.nodes.len() as int,
        m,
    );
}

proof fn depth_is_no_limit_below(
    runtime: RuntimeModel,
    plan_id: Seq<char>,
    node_id: Seq<char>,
    depth: nat,
    deeper: nat,
    acc: Seq<Seq<char>>,
)
    requires
        runtime.is_sound(),
        runtime.rank(plan_id, node_id) < depth <= deeper,
    ensures
        runtime.leaves_below(plan_id, node_id, depth, acc) == runtime.leaves_below(
            plan_id,
            node_id,
            deeper,
            acc,
        ),
    decreases depth, 0nat,
{
    if let Ok(children) = runtime.child_nodes(plan_id, Some(node_id)) {
        assert forall|k: int|
            0 <= k < children.len() && (#[trigger] children[k]).node_kind
                == NodeKind::Parent implies runtime.rank(plan_id, children[k].node_id) < depth
            - 1 by {
            children_rank_lower(runtime, plan_id, node_id, children, k);
        }
        depth_is_no_limit_among(
            runtime,
            plan_id,
            children,
            0,
            (depth - 1) as nat,
            (deeper - 1) as nat,
            acc,
        );
    }
}

proof fn depth_is_no_limit_among(
    runtime: RuntimeModel,
    plan_id: Seq<char>,
    nodes: Seq<NodeRecordModel>,
    i: nat,
    depth: nat,
    deeper: nat,
    acc: Seq<Seq<char>>,
)
    requires
        runtime.is_sound(),
        forall|k: int|
            0 <= k < nodes.len() && (#[trigger] nodes[k]).node_kind == NodeKind::Parent
                ==> runtime.rank(plan_id, nodes[k].node_id) < depth,
        depth <= deeper,
    ensures
        runtime.leaves_among(plan_id, nodes, i, depth, acc) == runtime.leaves_among(
            plan_id,
            nodes,
            i,
            deeper,
            acc,
        ),
    decreases depth, nodes.len() - i,
{
    if i < nodes.len() {
        let node = nodes[i as int];
        match node.node_kind {
            NodeKind::Leaf => {
                depth_is_no_limit_among(
                    runtime,
                    plan_id,
                    nodes,
                    i + 1,
                    depth,
                    deeper,
                    with_unique(acc, node.node_id),
                );
            },
            NodeKind::Parent => {
                depth_is_no_limit_below(runtime, plan_id, node.node_id, depth, deeper, acc);
                if let Ok(next) = runtime.leaves_below(plan_id, node.node_id, depth, acc) {
                    depth_is_no_limit_among(
                        runtime,
                        plan_id,
                        nodes,
                        i + 1,
                        depth,
                        deeper,
                        next,
                    );
                }
            },
        }
    }
}

/// All leaves below a node are found: looking deeper than there are nodes
/// finds no other leaf.
pub proof fn all_leaves_below_are_found(
    runtime: RuntimeModel,
    plan_id: Seq<char>,
    node_id: Seq<char>,
    deeper: nat,
    acc: Seq<Seq<char>>,
)
    requires
        runtime.is_sound(),
        runtime.nodes.len() <= deeper,
    ensures
        runtime.leaves_below(plan_id, node_id, runtime.nodes.len(), acc) == runtime.leaves_below(
            plan_id,
            node_id,
            deeper,
            acc,
        ),
{
    let n = runtime.nodes.len();
    if n == 0 {
        assert(child_rows(runtime.nodes, plan_id, Some(node_id), 0) =~= Seq::empty());
        assert(records_from(Seq::empty(), 0, Seq::empty()) == Ok::<
            Seq<NodeRecordModel>,
            PlanErrorModel,
        >(Seq::empty()));
        if deeper > 0 {
            assert(runtime.leaves_among(
                plan_id,
                Seq::empty(),
                0,
                (deeper - 1) as nat,
                acc,
            ) == Ok::<Seq<Seq<char>>, PlanErrorModel>(acc));
        }
    } else {
        node_is_found(runtime.nodes, plan_id, node_id, 0);
        if let Some(row) = runtime.node_row(plan_id, node_id) {
            let k = choose|k: int| 0 <= k < runtime.nodes.len() && runtime.nodes[k] == row;
            let depth = components(row.relative_path).len();
            deeper_count_shrinks(runtime.nodes, depth, depth, n as int, k);
        }
        depth_is_no_limit_below(runtime, plan_id, node_id, n, deeper, acc);
    }
}

// ---------------------------------------------------------------------
// What is remembered of a review
// ---------------------------------------------------------------------
/// The answer of a leaf's review is what is remembered of it; a review without
/// an answer is not remembered.
pub proof fn leaf_review_is_remembered(
    runtime: RuntimeModel,
    files: PlanFilesModel,
    skill: Result<SkillFilesModel, PlanErrorModel>,
    request: RunLeafReviewGateRequestModel,
    gate_run_id: Seq<char>,
    reply: Result<Seq<char>, PlanErrorModel>,
    readings: Seq<ReadingModel<LeafReviewerOutputModel>>,
    created_at: i64,
)
    ensures
        ({
            let (next, result) = runtime.leaf_gate_run(
                files,
                skill,
                request,
                gate_run_id,
                reply,
                readings,
                created_at,
            );
            match result {
                Ok(answer) => {
                    let run = next.leaf_gate_runs.last();
                    &&& next.leaf_gate_runs == runtime.leaf_gate_runs.push(run)
                    &&& (RuntimeModel { leaf_gate_runs: runtime.leaf_gate_runs, ..next })
                        == runtime
                    &&& run.gate_run_id == answer.gate_run_id
                    &&& run.plan_id == request.plan_id
                    &&& run.node_id == request.node_id
                    &&& run.passed == answer.passed
                    &&& run.verdict == answer.verdict
                    &&& run.summary == answer.summary
                    &&& run.reviewer_role_id == answer.reviewer_role_id
                    &&& run.issues == answer.issues
                    &&& answer.passed <==> answer.issues.len() == 0
                },
                Err(_) => next == runtime,
            }
        }),
{
    let (next, result) = runtime.leaf_gate_run(
        files,
        skill,
        request,
        gate_run_id,
        reply,
        readings,
        created_at,
    );
    if result is Ok {
        let run = next.leaf_gate_runs.last();
        assert(next.leaf_gate_runs =~= runtime.leaf_gate_runs.push(run));
    }
}

/// No id is unknown exactly where each of them is valid.
pub proof fn invalidations_are_known(
    node_ids: Seq<Seq<char>>,
    valid: Seq<Seq<char>>,
    parent_node_id: Seq<char>,
    i: int,
)
    requires
        0 <= i <= node_ids.len(),
    ensures
        unknown_invalidation_from(node_ids, valid, parent_node_id, i) is None <==> forall|k: int|
            i <= k < node_ids.len() ==> valid.contains(#[trigger] node_ids[k]),
    decreases node_ids.len() - i,
{
    if i < node_ids.len() {
        invalidations_are_known(node_ids, valid, parent_node_id, i + 1);
    }
}

/// The answer of a parent's review is what is remembered of it; a review
/// without an answer is not remembered. It takes back no approval that it may
/// not take back, and none where it passes.
pub proof fn frontier_review_is_remembered(
    runtime: RuntimeModel,
    files: PlanFilesModel,
    skill: Result<SkillFilesModel, PlanErrorModel>,
    request: RunFrontierReviewGateRequestModel,
    gate_run_id: Seq<char>,
    reply: Result<Seq<char>, PlanErrorModel>,
    readings: Seq<ReadingModel<FrontierReviewerOutputModel>>,
    handoff_readings: Seq<ReadingModel<Seq<RefineStaleResultHandoffModel>>>,
    created_at: i64,
)
    ensures
        ({
            let (next, result) = runtime.frontier_gate_run(
                files,
                skill,
                request,
                gate_run_id,
                reply,
                readings,
                handoff_readings,
                created_at,
            );
            match result {
                Ok(answer) => {
                    let run = next.frontier_gate_runs.last();
                    let valid = runtime.invalidatable_ids(request, handoff_readings);
                    &&& next.frontier_gate_runs == runtime.frontier_gate_runs.push(run)
                    &&& (RuntimeModel { frontier_gate_runs: runtime.frontier_gate_runs, ..next })
                        == runtime
                    &&& run.gate_run_id == answer.gate_run_id
                    &&& run.plan_id == request.plan_id
                    &&& run.parent_node_id == request.parent_node_id
                    &&& run.passed == answer.passed
                    &&& run.verdict == answer.verdict
                    &&& run.summary == answer.summary
                    &&& run.reviewer_role_id == answer.reviewer_role_id
                    &&& run.issues == answer.issues
                    &&& run.invalidated_leaf_node_ids == answer.invalidated_leaf_node_ids
                    &&& answer.passed <==> answer.issues.len() == 0
                    &&& answer.passed ==> answer.invalidated_leaf_node_ids.len() == 0
                    &&& valid is Ok
                    &&& forall|k: int|
                        0 <= k < answer.invalidated_leaf_node_ids.len() ==> valid->Ok_0.contains(
                            #[trigger] answer.invalidated_leaf_node_ids[k],
                        )
                },
                Err(_) => next == runtime,
            }
        }),
{
    let (next, result) = runtime.frontier_gate_run(
        files,
        skill,
        request,
        gate_run_id,
        reply,
        readings,
        handoff_readings,
        created_at,
    );
    if let Ok(answer) = result {
        let run = next.frontier_gate_runs.last();
        assert(next.frontier_gate_runs =~= runtime.frontier_gate_runs.push(run));
        invalidations_are_known(
            answer.invalidated_leaf_node_ids,
            runtime.invalidatable_ids(request, handoff_readings)->Ok_0,
            request.parent_node_id,
            0,
        );
    }
}

} // verus!
