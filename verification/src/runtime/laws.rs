//! What holds of the runtime as a whole: what every operation keeps, and what
//! one operation finds of another.
use super::query::{
    child_rows, insert_row, is_child, named_plan_from, node_at_from, node_from, plan_from,
    record_of, records_from, row_before,
};
use super::store::{NodeRecordModel, NodeRowModel, PlanRowModel, RuntimeModel};
use crate::error::PlanErrorModel;
use crate::text::{order_is_total, order_is_transitive, text_before};
use vstd::prelude::*;

verus! {

// ---------------------------------------------------------------------
// Looking rows up
// ---------------------------------------------------------------------
/// A plan is found by its id exactly where there is one with it.
pub proof fn plan_is_found(plans: Seq<PlanRowModel>, plan_id: Seq<char>, i: int)
    requires
        0 <= i,
    ensures
        match plan_from(plans, plan_id, i) {
            Some(plan) => plan.plan_id == plan_id && exists|k: int|
                i <= k < plans.len() && #[trigger] plans[k] == plan,
            None => forall|k: int|
                i <= k < plans.len() ==> (#[trigger] plans[k]).plan_id != plan_id,
        },
    decreases plans.len() - i,
{
    if i < plans.len() {
        if plans[i].plan_id == plan_id {
            assert(plans[i] == plan_from(plans, plan_id, i)->0);
        } else {
            plan_is_found(plans, plan_id, i + 1);
        }
    }
}

/// A plan is found by its name exactly where the workspace has one with it.
pub proof fn named_plan_is_found(
    plans: Seq<PlanRowModel>,
    workspace_root: Seq<char>,
    plan_name: Seq<char>,
    i: int,
)
    requires
        0 <= i,
    ensures
        match named_plan_from(plans, workspace_root, plan_name, i) {
            Some(plan) => plan.workspace_root == workspace_root && plan.plan_name == plan_name
                && exists|k: int| i <= k < plans.len() && #[trigger] plans[k] == plan,
            None => forall|k: int|
                i <= k < plans.len() ==> !((#[trigger] plans[k]).workspace_root == workspace_root
                    && plans[k].plan_name == plan_name),
        },
    decreases plans.len() - i,
{
    if i < plans.len() {
        if plans[i].workspace_root == workspace_root && plans[i].plan_name == plan_name {
            assert(plans[i] == named_plan_from(plans, workspace_root, plan_name, i)->0);
        } else {
            named_plan_is_found(plans, workspace_root, plan_name, i + 1);
        }
    }
}

/// A node is found by its id exactly where there is one with it.
pub proof fn node_is_found(
    nodes: Seq<NodeRowModel>,
    plan_id: Seq<char>,
    node_id: Seq<char>,
    i: int,
)
    requires
        0 <= i,
    ensures
        match node_from(nodes, plan_id, node_id, i) {
            Some(row) => row.plan_id == plan_id && row.node_id == node_id && exists|k: int|
                i <= k < nodes.len() && #[trigger] nodes[k] == row,
            None => forall|k: int|
                i <= k < nodes.len() ==> !((#[trigger] nodes[k]).plan_id == plan_id
                    && nodes[k].node_id == node_id),
        },
    decreases nodes.len() - i,
{
    if i < nodes.len() {
        if nodes[i].plan_id == plan_id && nodes[i].node_id == node_id {
            assert(nodes[i] == node_from(nodes, plan_id, node_id, i)->0);
        } else {
            node_is_found(nodes, plan_id, node_id, i + 1);
        }
    }
}

/// A node is found by its path exactly where there is one at it.
pub proof fn node_at_is_found(
    nodes: Seq<NodeRowModel>,
    plan_id: Seq<char>,
    path: Seq<char>,
    i: int,
)
    requires
        0 <= i,
    ensures
        match node_at_from(nodes, plan_id, path, i) {
            Some(row) => row.plan_id == plan_id && row.relative_path == path && exists|k: int|
                i <= k < nodes.len() && #[trigger] nodes[k] == row,
            None => forall|k: int|
                i <= k < nodes.len() ==> !((#[trigger] nodes[k]).plan_id == plan_id
                    && nodes[k].relative_path == path),
        },
    decreases nodes.len() - i,
{
    if i < nodes.len() {
        if nodes[i].plan_id == plan_id && nodes[i].relative_path == path {
            assert(nodes[i] == node_at_from(nodes, plan_id, path, i)->0);
        } else {
            node_at_is_found(nodes, plan_id, path, i + 1);
        }
    }
}

// ---------------------------------------------------------------------
// Children
// ---------------------------------------------------------------------
/// No row stands behind one that comes after it.
pub open spec fn rows_are_sorted(rows: Seq<NodeRowModel>) -> bool {
    forall|i: int, j: int|
        0 <= i < j < rows.len() ==> !row_before(#[trigger] rows[j], #[trigger] rows[i])
}

proof fn row_order_is_transitive(a: NodeRowModel, b: NodeRowModel, c: NodeRowModel)
    requires
        row_before(a, b),
        !row_before(c, b),
    ensures
        row_before(a, c),
{
    order_is_total(b.relative_path, c.relative_path);
    order_is_total(b.node_id, c.node_id);
    if text_before(a.relative_path, b.relative_path) {
        if text_before(b.relative_path, c.relative_path) {
            order_is_transitive(a.relative_path, b.relative_path, c.relative_path);
        }
    } else {
        if b.relative_path == c.relative_path && text_before(b.node_id, c.node_id) {
            order_is_transitive(a.node_id, b.node_id, c.node_id);
        }
    }
}

proof fn insert_row_keeps_order(rows: Seq<NodeRowModel>, row: NodeRowModel)
    requires
        rows_are_sorted(rows),
    ensures
        rows_are_sorted(insert_row(rows, row)),
        forall|r: NodeRowModel|
            #![trigger insert_row(rows, row).contains(r)]
            insert_row(rows, row).contains(r) <==> rows.contains(r) || r == row,
    decreases rows.len(),
{
    let out = insert_row(rows, row);
    if rows.len() > 0 && row_before(row, rows.last()) {
        let rest = rows.drop_last();
        insert_row_keeps_order(rest, row);
        let inner = insert_row(rest, row);
        assert(out == inner.push(rows.last()));
        assert forall|i: int, j: int| 0 <= i < j < out.len() implies !row_before(
            #[trigger] out[j],
            #[trigger] out[i],
        ) by {
            assert(out[i] == inner[i]);
            if j < inner.len() {
                assert(out[j] == inner[j]);
            } else {
                assert(inner.contains(inner[i]));
                if inner[i] == row {
                    order_is_total(row.relative_path, rows.last().relative_path);
                    order_is_total(row.node_id, rows.last().node_id);
                } else {
                    let k = choose|k: int| 0 <= k < rest.len() && rest[k] == inner[i];
                    assert(!row_before(rows[rows.len() - 1], rows[k]));
                }
            }
        }
        assert forall|r: NodeRowModel| out.contains(r) <==> rows.contains(r) || r == row by {
            if out.contains(r) {
                let k = choose|k: int| 0 <= k < out.len() && out[k] == r;
                if k < inner.len() {
                    assert(inner[k] == r);
                    assert(inner.contains(r));
                    if r != row {
                        let m = choose|m: int| 0 <= m < rest.len() && rest[m] == r;
                        assert(rows[m] == r);
                    }
                } else {
                    assert(rows[rows.len() - 1] == r);
                }
            }
            if rows.contains(r) || r == row {
                if r == row {
                    assert(inner.contains(r));
                } else {
                    let m = choose|m: int| 0 <= m < rows.len() && rows[m] == r;
                    if m < rest.len() {
                        assert(rest[m] == r);
                        assert(inner.contains(r));
                    } else {
                        assert(out[out.len() - 1] == r);
                    }
                }
                if inner.contains(r) {
                    let k = choose|k: int| 0 <= k < inner.len() && inner[k] == r;
                    assert(out[k] == r);
                }
            }
        }
    } else {
        assert(out == rows.push(row));
        assert forall|i: int, j: int| 0 <= i < j < out.len() implies !row_before(
            #[trigger] out[j],
            #[trigger] out[i],
        ) by {
            assert(out[i] == rows[i]);
            if j < rows.len() {
                assert(out[j] == rows[j]);
            } else if row_before(row, rows[i]) {
                if i < rows.len() - 1 {
                    assert(!row_before(rows[rows.len() - 1], rows[i]));
                    row_order_is_transitive(row, rows[i], rows[rows.len() - 1]);
                }
            }
        }
        assert forall|r: NodeRowModel| out.contains(r) <==> rows.contains(r) || r == row by {
            if out.contains(r) {
                let k = choose|k: int| 0 <= k < out.len() && out[k] == r;
                if k < rows.len() {
                    assert(rows[k] == r);
                }
            }
            if rows.contains(r) {
                let k = choose|k: int| 0 <= k < rows.len() && rows[k] == r;
                assert(out[k] == r);
            }
            if r == row {
                assert(out[rows.len() as int] == r);
            }
        }
    }
}

/// The children of a node are listed completely and in order: by their paths,
/// then by their ids.
pub proof fn children_are_complete_and_sorted(
    nodes: Seq<NodeRowModel>,
    plan_id: Seq<char>,
    parent_node_id: Option<Seq<char>>,
    n: int,
)
    requires
        0 <= n <= nodes.len(),
    ensures
        rows_are_sorted(child_rows(nodes, plan_id, parent_node_id, n)),
        forall|r: NodeRowModel|
            #![trigger child_rows(nodes, plan_id, parent_node_id, n).contains(r)]
            child_rows(nodes, plan_id, parent_node_id, n).contains(r) <==> is_child(
                r,
                plan_id,
                parent_node_id,
            ) && exists|k: int| 0 <= k < n && nodes[k] == r,
    decreases n,
{
    let out = child_rows(nodes, plan_id, parent_node_id, n);
    if n > 0 {
        children_are_complete_and_sorted(nodes, plan_id, parent_node_id, n - 1);
        let before = child_rows(nodes, plan_id, parent_node_id, n - 1);
        let row = nodes[n - 1];
        if is_child(row, plan_id, parent_node_id) {
            insert_row_keeps_order(before, row);
        }
        assert forall|r: NodeRowModel| out.contains(r) <==> is_child(r, plan_id, parent_node_id)
            && exists|k: int| 0 <= k < n && nodes[k] == r by {
            if out.contains(r) {
                if before.contains(r) {
                    let k = choose|k: int| 0 <= k < n - 1 && nodes[k] == r;
                    assert(nodes[k] == r);
                } else {
                    assert(r == row);
                    assert(nodes[n - 1] == r);
                }
            }
            if is_child(r, plan_id, parent_node_id) && exists|k: int| 0 <= k < n && nodes[k] == r {
                let k = choose|k: int| 0 <= k < n && nodes[k] == r;
                if k < n - 1 {
                    assert(before.contains(r));
                }
            }
        }
    } else {
        assert(out =~= Seq::empty());
    }
}

proof fn records_match_rows(rows: Seq<NodeRowModel>, i: int, acc: Seq<NodeRecordModel>)
    requires
        0 <= i <= rows.len(),
        acc.len() == i,
        forall|k: int|
            0 <= k < i ==> record_of(rows[k]) == Ok::<NodeRecordModel, PlanErrorModel>(
                #[trigger] acc[k],
            ),
    ensures
        records_from(rows, i, acc) matches Ok(records) ==> records.len() == rows.len() && forall|
            k: int,
        |
            0 <= k < rows.len() ==> record_of(rows[k]) == Ok::<NodeRecordModel, PlanErrorModel>(
                #[trigger] records[k],
            ),
    decreases rows.len() - i,
{
    if i < rows.len() {
        match record_of(rows[i]) {
            Ok(record) => {
                records_match_rows(rows, i + 1, acc.push(record));
            },
            Err(_) => {},
        }
    }
}

/// The record is that of a node that the runtime remembers with this parent.
pub open spec fn is_child_record(
    runtime: RuntimeModel,
    plan_id: Seq<char>,
    parent_node_id: Option<Seq<char>>,
    record: NodeRecordModel,
) -> bool {
    exists|m: int|
        0 <= m < runtime.nodes.len() && is_child(runtime.nodes[m], plan_id, parent_node_id)
            && record_of(#[trigger] runtime.nodes[m]) == Ok::<NodeRecordModel, PlanErrorModel>(
            record,
        )
}

/// The record of the row is among the records.
pub open spec fn holds_record(records: Seq<NodeRecordModel>, row: NodeRowModel) -> bool {
    exists|k: int|
        0 <= k < records.len() && record_of(row) == Ok::<NodeRecordModel, PlanErrorModel>(
            #[trigger] records[k],
        )
}

/// A node that the runtime lists as a child is one that it remembers with this
/// parent, and no such node is left out.
pub proof fn child_listing_is_complete(
    runtime: RuntimeModel,
    plan_id: Seq<char>,
    parent_node_id: Option<Seq<char>>,
)
    ensures
        runtime.child_nodes(plan_id, parent_node_id) matches Ok(children) ==> {
            &&& forall|k: int|
                0 <= k < children.len() ==> is_child_record(
                    runtime,
                    plan_id,
                    parent_node_id,
                    #[trigger] children[k],
                )
            &&& forall|m: int|
                0 <= m < runtime.nodes.len() && is_child(
                    #[trigger] runtime.nodes[m],
                    plan_id,
                    parent_node_id,
                ) ==> holds_record(children, runtime.nodes[m])
        },
{
    let n = runtime.nodes.len() as int;
    let rows = child_rows(runtime.nodes, plan_id, parent_node_id, n);
    children_are_complete_and_sorted(runtime.nodes, plan_id, parent_node_id, n);
    records_match_rows(rows, 0, Seq::empty());
    if let Ok(children) = runtime.child_nodes(plan_id, parent_node_id) {
        assert forall|k: int| 0 <= k < children.len() implies is_child_record(
            runtime,
            plan_id,
            parent_node_id,
            #[trigger] children[k],
        ) by {
            assert(rows.contains(rows[k]));
            let m = choose|m: int| 0 <= m < n && runtime.nodes[m] == rows[k];
            assert(record_of(runtime.nodes[m]) == Ok::<NodeRecordModel, PlanErrorModel>(
                children[k],
            ));
        }
        assert forall|m: int|
            0 <= m < runtime.nodes.len() && is_child(
                #[trigger] runtime.nodes[m],
                plan_id,
                parent_node_id,
            ) implies holds_record(children, runtime.nodes[m]) by {
            assert(rows.contains(runtime.nodes[m]));
            let k = choose|k: int| 0 <= k < rows.len() && rows[k] == runtime.nodes[m];
            assert(record_of(rows[k]) == Ok::<NodeRecordModel, PlanErrorModel>(children[k]));
        }
    }
}

} // verus!
