//! What an inspection of a node and a list of its children show: what is
//! remembered of them, and all of it.
use super::laws::{
    child_listing_is_complete, children_are_complete_and_sorted, node_at_is_found, node_is_found,
};
use super::node_paths::{local_path_problem, node_path_kind, parent_path_problem};
use super::query::{child_rows, is_child, record_of, records_from};
use super::stability::{latest_frontier_review_is_latest, latest_leaf_review_is_latest};
use super::store::{NodeRecordModel, NodeRowModel, RuntimeModel};
use crate::api::{
    GateSummaryModel, InspectNodeRequestModel, InspectNodeResponseModel, ListChildrenRequestModel,
    NodeKind, NodeSummaryModel,
};
use crate::error::PlanErrorModel;
use crate::text::text_before;
use vstd::prelude::*;

verus! {

/// The row is remembered for a node of this kind.
pub open spec fn is_of_kind(row: NodeRowModel, kind: NodeKind) -> bool {
    match kind {
        NodeKind::Leaf => row.node_kind == "leaf"@,
        NodeKind::Parent => row.node_kind == "parent"@,
    }
}

/// The summary says what the row says.
pub open spec fn is_summary_of(summary: NodeSummaryModel, row: NodeRowModel) -> bool {
    &&& summary.node_id == row.node_id
    &&& summary.relative_path == row.relative_path
    &&& summary.parent_node_id == row.parent_node_id
    &&& is_of_kind(row, summary.node_kind)
}

/// The summary is that of a node of the plan that has this parent.
pub open spec fn shows_child(
    runtime: RuntimeModel,
    plan_id: Seq<char>,
    parent_node_id: Seq<char>,
    summary: NodeSummaryModel,
) -> bool {
    exists|m: int|
        0 <= m < runtime.nodes.len() && (#[trigger] runtime.nodes[m]).plan_id == plan_id
            && runtime.nodes[m].parent_node_id == Some(parent_node_id) && is_summary_of(
            summary,
            runtime.nodes[m],
        )
}

/// One of the summaries is that of the row.
pub open spec fn is_shown(children: Seq<NodeSummaryModel>, row: NodeRowModel) -> bool {
    exists|k: int| 0 <= k < children.len() && is_summary_of(#[trigger] children[k], row)
}

/// The summaries are those of the nodes that have this parent, all of them, in
/// the order of their paths.
pub open spec fn are_all_children(
    runtime: RuntimeModel,
    plan_id: Seq<char>,
    parent_node_id: Seq<char>,
    children: Seq<NodeSummaryModel>,
) -> bool {
    &&& forall|k: int|
        0 <= k < children.len() ==> shows_child(
            runtime,
            plan_id,
            parent_node_id,
            #[trigger] children[k],
        )
    &&& forall|m: int|
        0 <= m < runtime.nodes.len() && (#[trigger] runtime.nodes[m]).plan_id == plan_id
            && runtime.nodes[m].parent_node_id == Some(parent_node_id) ==> is_shown(
            children,
            runtime.nodes[m],
        )
    &&& forall|i: int, j: int|
        0 <= i < j < children.len() ==> !text_before(
            (#[trigger] children[j]).relative_path,
            (#[trigger] children[i]).relative_path,
        )
}

proof fn children_are_shown(
    runtime: RuntimeModel,
    plan_id: Seq<char>,
    parent_node_id: Seq<char>,
    records: Seq<NodeRecordModel>,
)
    requires
        runtime.child_nodes(plan_id, Some(parent_node_id)) == Ok::<_, PlanErrorModel>(records),
    ensures
        are_all_children(
            runtime,
            plan_id,
            parent_node_id,
            super::query::summaries_of(records),
        ),
{
    let children = super::query::summaries_of(records);
    let n = runtime.nodes.len() as int;
    let rows = child_rows(runtime.nodes, plan_id, Some(parent_node_id), n);
    child_listing_is_complete(runtime, plan_id, Some(parent_node_id));
    children_are_complete_and_sorted(runtime.nodes, plan_id, Some(parent_node_id), n);
    records_follow_rows(rows, 0, Seq::empty());
    assert forall|k: int| 0 <= k < children.len() implies shows_child(
        runtime,
        plan_id,
        parent_node_id,
        #[trigger] children[k],
    ) by {
        assert(super::laws::is_child_record(
            runtime,
            plan_id,
            Some(parent_node_id),
            records[k],
        ));
        let m = choose|m: int|
            0 <= m < runtime.nodes.len() && is_child(
                runtime.nodes[m],
                plan_id,
                Some(parent_node_id),
            ) && record_of(#[trigger] runtime.nodes[m]) == Ok::<NodeRecordModel, PlanErrorModel>(
                records[k],
            );
        assert(runtime.nodes[m].plan_id == plan_id);
    }
    assert forall|m: int|
        0 <= m < runtime.nodes.len() && (#[trigger] runtime.nodes[m]).plan_id == plan_id
            && runtime.nodes[m].parent_node_id == Some(parent_node_id) implies is_shown(
        children,
        runtime.nodes[m],
    ) by {
        assert(is_child(runtime.nodes[m], plan_id, Some(parent_node_id)));
        assert(super::laws::holds_record(records, runtime.nodes[m]));
        let k = choose|k: int|
            0 <= k < records.len() && record_of(runtime.nodes[m]) == Ok::<
                NodeRecordModel,
                PlanErrorModel,
            >(#[trigger] records[k]);
        assert(is_summary_of(children[k], runtime.nodes[m]));
    }
    assert forall|i: int, j: int| 0 <= i < j < children.len() implies !text_before(
        (#[trigger] children[j]).relative_path,
        (#[trigger] children[i]).relative_path,
    ) by {
        assert(record_of(rows[i])->Ok_0 == records[i]);
        assert(record_of(rows[j])->Ok_0 == records[j]);
        assert(!super::query::row_before(rows[j], rows[i]));
    }
}

proof fn records_follow_rows(rows: Seq<NodeRowModel>, i: int, acc: Seq<NodeRecordModel>)
    requires
        0 <= i <= rows.len(),
        acc.len() == i,
        forall|k: int|
            0 <= k < i ==> record_of(rows[k]) == Ok::<NodeRecordModel, PlanErrorModel>(
                #[trigger] acc[k],
            ),
    ensures
        records_from(rows, i, acc) matches Ok(records) ==> records.len() == rows.len() && forall|
            k: int,
        |
            0 <= k < rows.len() ==> record_of(rows[k]) == Ok::<NodeRecordModel, PlanErrorModel>(
                #[trigger] records[k],
            ),
        (forall|k: int| i <= k < rows.len() ==> record_of(#[trigger] rows[k]) is Ok)
            ==> records_from(rows, i, acc) is Ok,
    decreases rows.len() - i,
{
    if i < rows.len() {
        if let Ok(record) = record_of(rows[i]) {
            records_follow_rows(rows, i + 1, acc.push(record));
        }
    }
}

/// The summary is that of the latest passed review of a leaf: none passed at a
/// later time, nor at the same time under a later id.
pub open spec fn is_latest_leaf_review(
    runtime: RuntimeModel,
    plan_id: Seq<char>,
    node_id: Seq<char>,
    summary: Option<GateSummaryModel>,
) -> bool {
    let runs = runtime.leaf_gate_runs;
    match summary {
        Some(shown) => exists|k: int|
            0 <= k < runs.len() && (#[trigger] runs[k]).plan_id == plan_id && runs[k].node_id
                == node_id && runs[k].passed && shown.gate_run_id == runs[k].gate_run_id
                && shown.reviewer_role_id == runs[k].reviewer_role_id && shown.summary
                == runs[k].summary && forall|m: int|
                0 <= m < runs.len() && (#[trigger] runs[m]).plan_id == plan_id && runs[m].node_id
                    == node_id && runs[m].passed ==> runs[m].created_at <= runs[k].created_at && (
                runs[m].created_at == runs[k].created_at ==> !text_before(
                    runs[k].gate_run_id,
                    runs[m].gate_run_id,
                )),
        None => forall|m: int|
            0 <= m < runs.len() ==> !((#[trigger] runs[m]).plan_id == plan_id && runs[m].node_id
                == node_id && runs[m].passed),
    }
}

/// The summary is that of the latest review of a parent: there is none at a later
/// time, nor at the same time under a later id.
pub open spec fn is_latest_frontier_review(
    runtime: RuntimeModel,
    plan_id: Seq<char>,
    node_id: Seq<char>,
    summary: Option<GateSummaryModel>,
) -> bool {
    let runs = runtime.frontier_gate_runs;
    match summary {
        Some(shown) => exists|k: int|
            0 <= k < runs.len() && (#[trigger] runs[k]).plan_id == plan_id
                && runs[k].parent_node_id == node_id && shown.gate_run_id == runs[k].gate_run_id
                && shown.reviewer_role_id == runs[k].reviewer_role_id && shown.summary
                == runs[k].summary && forall|m: int|
                0 <= m < runs.len() && (#[trigger] runs[m]).plan_id == plan_id
                    && runs[m].parent_node_id == node_id ==> runs[m].created_at
                    <= runs[k].created_at && (runs[m].created_at == runs[k].created_at
                    ==> !text_before(runs[k].gate_run_id, runs[m].gate_run_id)),
        None => forall|m: int|
            0 <= m < runs.len() ==> !((#[trigger] runs[m]).plan_id == plan_id
                && runs[m].parent_node_id == node_id),
    }
}

proof fn latest_reviews_are_shown(runtime: RuntimeModel, plan_id: Seq<char>, node_id: Seq<char>)
    ensures
        is_latest_leaf_review(
            runtime,
            plan_id,
            node_id,
            runtime.passed_leaf_gate(plan_id, node_id),
        ),
        is_latest_frontier_review(
            runtime,
            plan_id,
            node_id,
            runtime.frontier_gate(plan_id, node_id),
        ),
{
    let leaf_runs = runtime.leaf_gate_runs;
    let frontier_runs = runtime.frontier_gate_runs;
    latest_leaf_review_is_latest(leaf_runs, plan_id, node_id, leaf_runs.len() as int);
    latest_frontier_review_is_latest(frontier_runs, plan_id, node_id, frontier_runs.len() as int);
    if let Some(best) = super::query::latest_leaf_run(
        leaf_runs,
        plan_id,
        node_id,
        leaf_runs.len() as int,
    ) {
        let k = choose|k: int| 0 <= k < leaf_runs.len() && #[trigger] leaf_runs[k] == best;
        assert(leaf_runs[k].plan_id == plan_id);
    }
    if let Some(best) = super::query::latest_frontier_run(
        frontier_runs,
        plan_id,
        node_id,
        frontier_runs.len() as int,
    ) {
        let k = choose|k: int| 0 <= k < frontier_runs.len() && #[trigger] frontier_runs[k] == best;
        assert(frontier_runs[k].plan_id == plan_id);
    }
}

/// The answer shows the node of this row.
pub open spec fn shows_node(shown: InspectNodeResponseModel, row: NodeRowModel) -> bool {
    &&& shown.node_id == row.node_id
    &&& shown.relative_path == row.relative_path
    &&& shown.parent_node_id == row.parent_node_id
    &&& is_of_kind(row, shown.node_kind)
}

/// An inspection is asked by an id or by a path, not both; it shows the node of
/// the plan with that id or path as it is remembered, where its parent stands, all
/// its children and its latest reviews.
pub proof fn inspections_show_what_is_remembered(
    runtime: RuntimeModel,
    request: InspectNodeRequestModel,
)
    ensures
        (request.node_id is Some) == (request.relative_path is Some) ==> runtime.inspection(
            request,
        ) is Err,
        runtime.inspection(request) matches Ok(shown) ==> {
            &&& request.node_id matches Some(id) ==> shown.node_id == id
            &&& request.relative_path matches Some(path) ==> shown.relative_path == path
            &&& exists|m: int|
                0 <= m < runtime.nodes.len() && (#[trigger] runtime.nodes[m]).plan_id
                    == request.plan_id && shows_node(shown, runtime.nodes[m])
            &&& match shown.parent_node_id {
                None => shown.parent_relative_path is None,
                Some(parent) => shown.parent_relative_path is Some && exists|m: int|
                    0 <= m < runtime.nodes.len() && (#[trigger] runtime.nodes[m]).plan_id
                        == request.plan_id && runtime.nodes[m].node_id == parent
                        && runtime.nodes[m].relative_path == shown.parent_relative_path->0,
            }
            &&& are_all_children(runtime, request.plan_id, shown.node_id, shown.children)
            &&& is_latest_leaf_review(
                runtime,
                request.plan_id,
                shown.node_id,
                shown.latest_passed_leaf_gate_summary,
            )
            &&& is_latest_frontier_review(
                runtime,
                request.plan_id,
                shown.node_id,
                shown.latest_frontier_gate_summary,
            )
        },
{
    if let Ok(shown) = runtime.inspection(request) {
        let plan_id = request.plan_id;
        let node = runtime.inspected(request)->Ok_0;
        match request.node_id {
            Some(id) => {
                node_is_found(runtime.nodes, plan_id, id, 0);
                let row = runtime.node_row(plan_id, id)->0;
                let m = choose|m: int|
                    0 <= m < runtime.nodes.len() && #[trigger] runtime.nodes[m] == row;
                assert(shows_node(shown, runtime.nodes[m]));
            },
            None => {
                let path = request.relative_path->0;
                node_at_is_found(runtime.nodes, plan_id, path, 0);
                let row = runtime.node_row_at(plan_id, path)->0;
                let m = choose|m: int|
                    0 <= m < runtime.nodes.len() && #[trigger] runtime.nodes[m] == row;
                assert(shows_node(shown, runtime.nodes[m]));
            },
        }
        if let Some(parent) = shown.parent_node_id {
            node_is_found(runtime.nodes, plan_id, parent, 0);
            let row = runtime.node_row(plan_id, parent)->0;
            let m = choose|m: int|
                0 <= m < runtime.nodes.len() && #[trigger] runtime.nodes[m] == row;
            assert(runtime.nodes[m].node_id == parent);
        }
        let records = runtime.child_nodes(plan_id, Some(node.node_id))->Ok_0;
        children_are_shown(runtime, plan_id, node.node_id, records);
        latest_reviews_are_shown(runtime, plan_id, node.node_id);
    }
}

/// Every node is remembered with a kind that can be read.
pub open spec fn kinds_can_be_read(runtime: RuntimeModel) -> bool {
    forall|m: int|
        0 <= m < runtime.nodes.len() ==> (#[trigger] runtime.nodes[m]).node_kind == "leaf"@
            || runtime.nodes[m].node_kind == "parent"@
}

/// Every parent of a node of the plan is remembered.
pub open spec fn parents_are_remembered(runtime: RuntimeModel, plan_id: Seq<char>) -> bool {
    forall|m: int|
        0 <= m < runtime.nodes.len() && (#[trigger] runtime.nodes[m]).plan_id == plan_id
            && runtime.nodes[m].parent_node_id is Some ==> runtime.node_row(
            plan_id,
            runtime.nodes[m].parent_node_id->0,
        ) is Some
}

/// A node that is remembered can be inspected, by its id and by its path, where
/// that is a path of a plan.
pub proof fn remembered_nodes_can_be_inspected(
    runtime: RuntimeModel,
    request: InspectNodeRequestModel,
    m: int,
)
    requires
        kinds_can_be_read(runtime),
        parents_are_remembered(runtime, request.plan_id),
        0 <= m < runtime.nodes.len(),
        runtime.nodes[m].plan_id == request.plan_id,
        (request.node_id == Some(runtime.nodes[m].node_id) && request.relative_path is None) || (
        request.node_id is None && request.relative_path == Some(runtime.nodes[m].relative_path)
            && local_path_problem("relative_path"@, runtime.nodes[m].relative_path) is None
            && node_path_kind("relative_path"@, runtime.nodes[m].relative_path) is Ok),
    ensures
        runtime.inspection(request) is Ok,
{
    let plan_id = request.plan_id;
    let n = runtime.nodes.len() as int;
    node_is_found(runtime.nodes, plan_id, runtime.nodes[m].node_id, 0);
    node_at_is_found(runtime.nodes, plan_id, runtime.nodes[m].relative_path, 0);
    let row = match request.node_id {
        Some(id) => runtime.node_row(plan_id, id)->0,
        None => runtime.node_row_at(plan_id, runtime.nodes[m].relative_path)->0,
    };
    let k = choose|k: int| 0 <= k < n && #[trigger] runtime.nodes[k] == row;
    assert(runtime.nodes[k].node_kind == "leaf"@ || runtime.nodes[k].node_kind == "parent"@);
    assert(runtime.inspected(request) is Ok);
    let node = runtime.inspected(request)->Ok_0;
    children_can_be_read(runtime, plan_id, node.node_id);
    if let Some(parent) = node.parent_node_id {
        assert(runtime.nodes[k].parent_node_id == Some(parent));
        node_is_found(runtime.nodes, plan_id, parent, 0);
        let above = runtime.node_row(plan_id, parent)->0;
        let j = choose|j: int| 0 <= j < n && #[trigger] runtime.nodes[j] == above;
        assert(runtime.nodes[j].node_kind == "leaf"@ || runtime.nodes[j].node_kind == "parent"@);
    }
}

proof fn children_can_be_read(runtime: RuntimeModel, plan_id: Seq<char>, node_id: Seq<char>)
    requires
        kinds_can_be_read(runtime),
    ensures
        runtime.child_nodes(plan_id, Some(node_id)) is Ok,
{
    let n = runtime.nodes.len() as int;
    let rows = child_rows(runtime.nodes, plan_id, Some(node_id), n);
    children_are_complete_and_sorted(runtime.nodes, plan_id, Some(node_id), n);
    assert forall|k: int| 0 <= k < rows.len() implies record_of(#[trigger] rows[k]) is Ok by {
        assert(rows.contains(rows[k]));
        let j = choose|j: int| 0 <= j < n && runtime.nodes[j] == rows[k];
        assert(runtime.nodes[j].node_kind == "leaf"@ || runtime.nodes[j].node_kind == "parent"@);
    }
    records_follow_rows(rows, 0, Seq::empty());
}

/// A list of children is asked by the id of their parent or by its path, not both;
/// it is given for a parent alone, and holds all its children.
pub proof fn listings_show_all_children(runtime: RuntimeModel, request: ListChildrenRequestModel)
    ensures
        (request.parent_node_id is Some) == (request.parent_relative_path is Some)
            ==> runtime.children_listing(request) is Err,
        runtime.children_listing(request) matches Ok(listing) ==> {
            &&& request.parent_node_id matches Some(id) ==> listing.parent_node_id == id
            &&& request.parent_relative_path matches Some(path) ==> listing.parent_relative_path
                == path
            &&& exists|m: int|
                0 <= m < runtime.nodes.len() && (#[trigger] runtime.nodes[m]).plan_id
                    == request.plan_id && runtime.nodes[m].node_id == listing.parent_node_id
                    && runtime.nodes[m].relative_path == listing.parent_relative_path
                    && runtime.nodes[m].node_kind == "parent"@
            &&& are_all_children(
                runtime,
                request.plan_id,
                listing.parent_node_id,
                listing.children,
            )
        },
{
    if let Ok(listing) = runtime.children_listing(request) {
        let plan_id = request.plan_id;
        let node = runtime.listed_parent(request)->Ok_0;
        match request.parent_node_id {
            Some(id) => {
                node_is_found(runtime.nodes, plan_id, id, 0);
                let row = runtime.node_row(plan_id, id)->0;
                let m = choose|m: int|
                    0 <= m < runtime.nodes.len() && #[trigger] runtime.nodes[m] == row;
                assert(runtime.nodes[m].node_id == listing.parent_node_id);
            },
            None => {
                let path = request.parent_relative_path->0;
                node_at_is_found(runtime.nodes, plan_id, path, 0);
                let row = runtime.node_row_at(plan_id, path)->0;
                let m = choose|m: int|
                    0 <= m < runtime.nodes.len() && #[trigger] runtime.nodes[m] == row;
                assert(runtime.nodes[m].node_id == listing.parent_node_id);
            },
        }
        let records = runtime.child_nodes(plan_id, Some(node.node_id))->Ok_0;
        children_are_shown(runtime, plan_id, node.node_id, records);
    }
}

/// The children of a parent that is remembered can be listed, by its id and by its
/// path, where that is a path of a parent.
pub proof fn remembered_parents_can_be_listed(
    runtime: RuntimeModel,
    request: ListChildrenRequestModel,
    m: int,
)
    requires
        kinds_can_be_read(runtime),
        0 <= m < runtime.nodes.len(),
        runtime.nodes[m].plan_id == request.plan_id,
        runtime.node_row(request.plan_id, runtime.nodes[m].node_id) == Some(runtime.nodes[m]),
        runtime.node_row_at(request.plan_id, runtime.nodes[m].relative_path) == Some(
            runtime.nodes[m],
        ),
        runtime.nodes[m].node_kind == "parent"@,
        (request.parent_node_id == Some(runtime.nodes[m].node_id)
            && request.parent_relative_path is None) || (request.parent_node_id is None
            && request.parent_relative_path == Some(runtime.nodes[m].relative_path)
            && local_path_problem("parent_relative_path"@, runtime.nodes[m].relative_path) is None
            && parent_path_problem("parent_relative_path"@, runtime.nodes[m].relative_path)
            is None),
    ensures
        runtime.children_listing(request) is Ok,
{
    assert(runtime.listed_parent(request) is Ok);
    children_can_be_read(runtime, request.plan_id, runtime.nodes[m].node_id);
}

} // verus!
