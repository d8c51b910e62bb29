//! What following the links of a parent tells of its children, and that doing
//! so twice does no more than doing so once.
use super::integrity::{
    differs_in_parents, follows_links, is_linked_child, is_same_but_parent, is_same_node,
    linked_children_match_links, reconciliation_follows_links, reconciliation_keeps_soundness,
};
use super::laws::{
    child_listing_is_complete, children_are_complete_and_sorted, holds_record, is_child_record,
    node_at_is_found,
};
use super::query::{child_rows, is_child, kind_of_name, record_of, records_from};
use super::store::{GatePlanContextModel, NodeRecordModel, NodeRowModel, RuntimeModel};
use crate::api::{ReconcileParentChildLinksRequestModel, ReconcileParentChildLinksResponseModel};
use crate::error::PlanErrorModel;
use crate::files::PlanFilesModel;
use vstd::prelude::*;

verus! {

// ---------------------------------------------------------------------
// What came and what left
// ---------------------------------------------------------------------
/// The paths of the records.
pub open spec fn record_paths(records: Seq<NodeRecordModel>) -> Seq<Seq<char>> {
    records.map_values(|record: NodeRecordModel| record.relative_path)
}

/// Those of the paths that are not among the others, in their order.
pub open spec fn paths_without(paths: Seq<Seq<char>>, others: Seq<Seq<char>>) -> Seq<Seq<char>> {
    paths.filter(|path: Seq<char>| !others.contains(path))
}

proof fn first_path_comes_first(paths: Seq<Seq<char>>, others: Seq<Seq<char>>, i: int)
    requires
        0 <= i < paths.len(),
    ensures
        paths_without(paths.skip(i), others) == if others.contains(paths[i]) {
            paths_without(paths.skip(i + 1), others)
        } else {
            seq![paths[i]] + paths_without(paths.skip(i + 1), others)
        },
{
    let keep = |path: Seq<char>| !others.contains(path);
    let one = seq![paths[i]];
    assert(paths.skip(i) =~= one + paths.skip(i + 1));
    Seq::filter_distributes_over_add(one, paths.skip(i + 1), keep);
    assert(one.drop_last() =~= Seq::empty());
    reveal_with_fuel(Seq::filter, 2);
    assert(one.filter(keep) =~= if others.contains(paths[i]) {
        Seq::empty()
    } else {
        one
    });
    assert(paths.skip(i).filter(keep) =~= if others.contains(paths[i]) {
        paths.skip(i + 1).filter(keep)
    } else {
        one + paths.skip(i + 1).filter(keep)
    });
}

proof fn unlinked_children_leave(
    runtime: RuntimeModel,
    plan_id: Seq<char>,
    children: Seq<NodeRecordModel>,
    links: Seq<Seq<char>>,
    timestamp: Seq<char>,
    i: int,
    acc: Seq<Seq<char>>,
)
    requires
        0 <= i <= children.len(),
    ensures
        runtime.detached_from(plan_id, children, links, timestamp, i, acc).1 == acc
            + paths_without(record_paths(children).skip(i), links),
    decreases children.len() - i,
{
    let paths = record_paths(children);
    if i < children.len() {
        first_path_comes_first(paths, links, i);
        assert(paths[i] == children[i].relative_path);
        if links.contains(children[i].relative_path) {
            unlinked_children_leave(runtime, plan_id, children, links, timestamp, i + 1, acc);
        } else {
            let next = runtime.reparented(plan_id, children[i].node_id, None, timestamp);
            let more = acc.push(children[i].relative_path);
            unlinked_children_leave(next, plan_id, children, links, timestamp, i + 1, more);
            assert(more + paths_without(paths.skip(i + 1), links) =~= acc + (seq![paths[i]]
                + paths_without(paths.skip(i + 1), links)));
        }
    } else {
        assert(paths.skip(i) =~= Seq::empty());
        reveal(Seq::filter);
        assert(acc + paths_without(paths.skip(i), links) =~= acc);
    }
}

proof fn new_children_come(
    runtime: RuntimeModel,
    plan_id: Seq<char>,
    children: Seq<NodeRecordModel>,
    parent_node_id: Seq<char>,
    timestamp: Seq<char>,
    known: Seq<Seq<char>>,
    i: int,
    acc: Seq<Seq<char>>,
)
    requires
        0 <= i <= children.len(),
        forall|k: int|
            0 <= k < children.len() ==> ((#[trigger] children[k]).parent_node_id == Some(
                parent_node_id,
            ) <==> known.contains(children[k].relative_path)),
    ensures
        runtime.attached_from(plan_id, children, parent_node_id, timestamp, i, acc).1 == acc
            + paths_without(record_paths(children).skip(i), known),
    decreases children.len() - i,
{
    let paths = record_paths(children);
    if i < children.len() {
        first_path_comes_first(paths, known, i);
        assert(paths[i] == children[i].relative_path);
        if children[i].parent_node_id == Some(parent_node_id) {
            new_children_come(
                runtime,
                plan_id,
                children,
                parent_node_id,
                timestamp,
                known,
                i + 1,
                acc,
            );
        } else {
            let next = runtime.reparented(
                plan_id,
                children[i].node_id,
                Some(parent_node_id),
                timestamp,
            );
            let more = acc.push(children[i].relative_path);
            new_children_come(
                next,
                plan_id,
                children,
                parent_node_id,
                timestamp,
                known,
                i + 1,
                more,
            );
            assert(more + paths_without(paths.skip(i + 1), known) =~= acc + (seq![paths[i]]
                + paths_without(paths.skip(i + 1), known)));
        }
    } else {
        assert(paths.skip(i) =~= Seq::empty());
        reveal(Seq::filter);
        assert(acc + paths_without(paths.skip(i), known) =~= acc);
    }
}

/// The row at a path is the only one there.
proof fn row_at_path(runtime: RuntimeModel, plan_id: Seq<char>, path: Seq<char>, k: int)
    requires
        runtime.is_sound(),
        0 <= k < runtime.nodes.len(),
        runtime.nodes[k].plan_id == plan_id,
        runtime.nodes[k].relative_path == path,
    ensures
        runtime.node_row_at(plan_id, path) == Some(runtime.nodes[k]),
{
    node_at_is_found(runtime.nodes, plan_id, path, 0);
    let found = runtime.node_row_at(plan_id, path)->0;
    let m = choose|m: int| 0 <= m < runtime.nodes.len() && #[trigger] runtime.nodes[m] == found;
    assert(is_same_node(runtime.nodes[m], runtime.nodes[k]));
    assert(m == k);
}

/// A tracked node has the parent exactly where its path is that of one of the
/// parent's children.
proof fn children_are_known_by_path(
    runtime: RuntimeModel,
    plan_id: Seq<char>,
    parent_node_id: Seq<char>,
    child: NodeRecordModel,
    path: Seq<char>,
)
    requires
        runtime.is_sound(),
        runtime.child_nodes(plan_id, Some(parent_node_id)) is Ok,
        runtime.node_at(plan_id, path) == Ok::<Option<NodeRecordModel>, PlanErrorModel>(
            Some(child),
        ),
    ensures
        child.relative_path == path,
        child.parent_node_id == Some(parent_node_id) <==> record_paths(
            runtime.child_nodes(plan_id, Some(parent_node_id))->Ok_0,
        ).contains(path),
{
    let current = runtime.child_nodes(plan_id, Some(parent_node_id))->Ok_0;
    let paths = record_paths(current);
    child_listing_is_complete(runtime, plan_id, Some(parent_node_id));
    node_at_is_found(runtime.nodes, plan_id, path, 0);
    let row = runtime.node_row_at(plan_id, path)->0;
    let k = choose|k: int| 0 <= k < runtime.nodes.len() && #[trigger] runtime.nodes[k] == row;
    if child.parent_node_id == Some(parent_node_id) {
        assert(is_child(runtime.nodes[k], plan_id, Some(parent_node_id)));
        assert(holds_record(current, runtime.nodes[k]));
        let j = choose|j: int|
            0 <= j < current.len() && record_of(row) == Ok::<NodeRecordModel, PlanErrorModel>(
                #[trigger] current[j],
            );
        assert(paths[j] == path);
    }
    if paths.contains(path) {
        let j = choose|j: int| 0 <= j < paths.len() && #[trigger] paths[j] == path;
        assert(is_child_record(runtime, plan_id, Some(parent_node_id), current[j]));
        let m = choose|m: int|
            0 <= m < runtime.nodes.len() && is_child(
                runtime.nodes[m],
                plan_id,
                Some(parent_node_id),
            ) && record_of(#[trigger] runtime.nodes[m]) == Ok::<NodeRecordModel, PlanErrorModel>(
                current[j],
            );
        row_at_path(runtime, plan_id, path, m);
    }
}

/// A reconciliation tells what it did: the children that left are those that
/// are not linked, in the order of the listing, and those that came are the
/// linked ones that were none, in the order of the links.
pub proof fn reconciliation_tells_what_it_did(
    runtime: RuntimeModel,
    files: PlanFilesModel,
    request: ReconcileParentChildLinksRequestModel,
    timestamp: Seq<char>,
)
    requires
        runtime.is_sound(),
    ensures
        runtime.links_reconciled(files, request, timestamp).1 matches Ok(answer) ==> {
            &&& runtime.child_nodes(request.plan_id, Some(answer.parent_node_id)) is Ok
            &&& ({
                let links = answer.linked_child_relative_paths;
                let children = record_paths(
                    runtime.child_nodes(request.plan_id, Some(answer.parent_node_id))->Ok_0,
                );
                &&& answer.attached_child_relative_paths == paths_without(links, children)
                &&& answer.detached_child_relative_paths == paths_without(children, links)
            })
        },
{
    if runtime.links_reconciled(files, request, timestamp).1 is Ok {
        let plan_id = request.plan_id;
        let (plan, parent, links) = runtime.reconciled_parent(files, request)->Ok_0;
        let linked = runtime.linked_children_from(
            files,
            plan,
            plan_id,
            parent,
            links,
            0,
            Seq::empty(),
        )->Ok_0;
        linked_children_match_links(
            runtime,
            files,
            plan,
            plan_id,
            parent,
            links,
            0,
            Seq::empty(),
        );
        let current = runtime.child_nodes(plan_id, Some(parent.node_id))->Ok_0;
        let known = record_paths(current);
        let none = Seq::<Seq<char>>::empty();
        let without = runtime.detached_from(plan_id, current, links, timestamp, 0, none).0;
        unlinked_children_leave(runtime, plan_id, current, links, timestamp, 0, none);
        assert forall|k: int| 0 <= k < linked.len() implies (linked[k].relative_path == links[k]
            && ((#[trigger] linked[k]).parent_node_id == Some(parent.node_id) <==> known.contains(
            linked[k].relative_path,
        ))) by {
            assert(is_linked_child(runtime, plan_id, parent, links[k], linked[k]));
            children_are_known_by_path(runtime, plan_id, parent.node_id, linked[k], links[k]);
        }
        new_children_come(without, plan_id, linked, parent.node_id, timestamp, known, 0, none);
        assert(record_paths(linked) =~= links);
        assert(links.skip(0) =~= links);
        assert(known.skip(0) =~= known);
        assert(none + paths_without(links, known) =~= paths_without(links, known));
        assert(none + paths_without(known, links) =~= paths_without(known, links));
    }
}

// ---------------------------------------------------------------------
// The second time
// ---------------------------------------------------------------------
proof fn sound_rows_have_records(rows: Seq<NodeRowModel>, i: int, acc: Seq<NodeRecordModel>)
    requires
        forall|k: int|
            0 <= k < rows.len() ==> kind_of_name((#[trigger] rows[k]).node_kind) is Ok,
        0 <= i,
    ensures
        records_from(rows, i, acc) is Ok,
    decreases rows.len() - i,
{
    if i < rows.len() {
        assert(kind_of_name(rows[i].node_kind) is Ok);
        sound_rows_have_records(rows, i + 1, acc.push(record_of(rows[i])->Ok_0));
    }
}

proof fn sound_runtimes_list_children(
    runtime: RuntimeModel,
    plan_id: Seq<char>,
    parent_node_id: Option<Seq<char>>,
)
    requires
        runtime.is_sound(),
    ensures
        runtime.child_nodes(plan_id, parent_node_id) is Ok,
{
    let n = runtime.nodes.len() as int;
    let rows = child_rows(runtime.nodes, plan_id, parent_node_id, n);
    children_are_complete_and_sorted(runtime.nodes, plan_id, parent_node_id, n);
    assert forall|k: int| 0 <= k < rows.len() implies kind_of_name(
        (#[trigger] rows[k]).node_kind,
    ) is Ok by {
        assert(rows.contains(rows[k]));
        let m = choose|m: int| 0 <= m < n && runtime.nodes[m] == rows[k];
        assert(kind_of_name(runtime.nodes[m].node_kind) is Ok);
    }
    sound_rows_have_records(rows, 0, Seq::empty());
}

/// The records differ in nothing but the parent.
pub open spec fn is_same_record_but_parent(a: NodeRecordModel, b: NodeRecordModel) -> bool {
    NodeRecordModel { parent_node_id: b.parent_node_id, ..a } == b
}

/// A node that was there is found again at its path.
proof fn node_at_path_stays(
    before: RuntimeModel,
    after: RuntimeModel,
    plan_id: Seq<char>,
    path: Seq<char>,
    record: NodeRecordModel,
) -> (k: int)
    requires
        after.is_sound(),
        differs_in_parents(before, after),
        before.node_at(plan_id, path) == Ok::<Option<NodeRecordModel>, PlanErrorModel>(
            Some(record),
        ),
    ensures
        0 <= k < after.nodes.len(),
        before.nodes[k].plan_id == plan_id,
        before.nodes[k].relative_path == path,
        after.node_at(plan_id, path) matches Ok(Some(found)) && is_same_record_but_parent(
            record,
            found,
        ) && found.parent_node_id == after.nodes[k].parent_node_id,
{
    node_at_is_found(before.nodes, plan_id, path, 0);
    let row = before.node_row_at(plan_id, path)->0;
    let k = choose|k: int| 0 <= k < before.nodes.len() && #[trigger] before.nodes[k] == row;
    assert(is_same_but_parent(before.nodes[k], after.nodes[k]));
    row_at_path(after, plan_id, path, k);
    k
}

proof fn linked_children_stay(
    before: RuntimeModel,
    after: RuntimeModel,
    files: PlanFilesModel,
    plan: GatePlanContextModel,
    plan_id: Seq<char>,
    parent: NodeRecordModel,
    again: NodeRecordModel,
    links: Seq<Seq<char>>,
    i: int,
    first: Seq<NodeRecordModel>,
    acc: Seq<NodeRecordModel>,
)
    requires
        after.is_sound(),
        differs_in_parents(before, after),
        follows_links(before, after, plan_id, parent.node_id, links),
        is_same_record_but_parent(parent, again),
        0 <= i <= links.len(),
        acc.len() == i,
        forall|k: int| 0 <= k < i ==> (#[trigger] acc[k]).parent_node_id == Some(parent.node_id),
        before.linked_children_from(files, plan, plan_id, parent, links, i, first) is Ok,
    ensures
        after.linked_children_from(files, plan, plan_id, again, links, i, acc) matches Ok(
            children,
        ) && forall|k: int|
            0 <= k < children.len() ==> (#[trigger] children[k]).parent_node_id == Some(
                parent.node_id,
            ),
    decreases links.len() - i,
{
    if i < links.len() {
        let child = before.linked_child(files, plan, plan_id, parent, links[i])->Ok_0;
        let k = node_at_path_stays(before, after, plan_id, links[i], child);
        assert(links.contains(links[i]));
        let found = after.linked_child(files, plan, plan_id, again, links[i]);
        assert(found is Ok);
        assert(after.nodes[k].parent_node_id == Some(parent.node_id));
        assert(found->Ok_0.parent_node_id == Some(parent.node_id));
        linked_children_stay(
            before,
            after,
            files,
            plan,
            plan_id,
            parent,
            again,
            links,
            i + 1,
            first.push(child),
            acc.push(found->Ok_0),
        );
    }
}

proof fn own_children_may_stay(
    runtime: RuntimeModel,
    files: PlanFilesModel,
    plan: GatePlanContextModel,
    plan_id: Seq<char>,
    parent: NodeRecordModel,
    children: Seq<NodeRecordModel>,
    timestamp: Seq<char>,
    i: int,
    acc: Seq<Seq<char>>,
)
    requires
        0 <= i,
        forall|k: int|
            0 <= k < children.len() ==> (#[trigger] children[k]).parent_node_id == Some(
                parent.node_id,
            ),
    ensures
        runtime.still_linked_from(files, plan, plan_id, parent, children, i) is None,
        runtime.attached_from(plan_id, children, parent.node_id, timestamp, i, acc) == (
            runtime,
            acc,
        ),
    decreases children.len() - i,
{
    if i < children.len() {
        assert(children[i].parent_node_id == Some(parent.node_id));
        own_children_may_stay(
            runtime,
            files,
            plan,
            plan_id,
            parent,
            children,
            timestamp,
            i + 1,
            acc,
        );
    }
}

proof fn linked_children_do_not_leave(
    runtime: RuntimeModel,
    plan_id: Seq<char>,
    children: Seq<NodeRecordModel>,
    links: Seq<Seq<char>>,
    timestamp: Seq<char>,
    i: int,
    acc: Seq<Seq<char>>,
)
    requires
        0 <= i,
        forall|k: int|
            0 <= k < children.len() ==> links.contains((#[trigger] children[k]).relative_path),
    ensures
        runtime.detached_from(plan_id, children, links, timestamp, i, acc) == (runtime, acc),
    decreases children.len() - i,
{
    if i < children.len() {
        assert(links.contains(children[i].relative_path));
        linked_children_do_not_leave(runtime, plan_id, children, links, timestamp, i + 1, acc);
    }
}

/// Once the links of a parent were followed, following them again is accepted,
/// attaches nothing, detaches nothing and changes nothing.
pub proof fn second_reconciliation_changes_nothing(
    runtime: RuntimeModel,
    files: PlanFilesModel,
    request: ReconcileParentChildLinksRequestModel,
    first: Seq<char>,
    second: Seq<char>,
)
    requires
        runtime.is_sound(),
    ensures
        ({
            let (next, result) = runtime.links_reconciled(files, request, first);
            result matches Ok(answer) ==> next.links_reconciled(files, request, second) == (
                next,
                Ok::<_, PlanErrorModel>(
                    ReconcileParentChildLinksResponseModel {
                        attached_child_relative_paths: Seq::empty(),
                        detached_child_relative_paths: Seq::empty(),
                        ..answer
                    },
                ),
            )
        }),
{
    let (next, result) = runtime.links_reconciled(files, request, first);
    if result is Ok {
        let plan_id = request.plan_id;
        let (plan, parent, links) = runtime.reconciled_parent(files, request)->Ok_0;
        let none = Seq::<Seq<char>>::empty();
        reconciliation_follows_links(runtime, files, request, first);
        reconciliation_keeps_soundness(runtime, files, request, first);
        let p = node_at_path_stays(runtime, next, plan_id, request.parent_relative_path, parent);
        let again = next.node_at(plan_id, request.parent_relative_path)->Ok_0->Some_0;
        assert(next.gate_plan(plan_id) == runtime.gate_plan(plan_id));
        assert(next.reconciled_parent(files, request) == Ok::<_, PlanErrorModel>(
            (plan, again, links),
        ));
        linked_children_stay(
            runtime,
            next,
            files,
            plan,
            plan_id,
            parent,
            again,
            links,
            0,
            Seq::empty(),
            Seq::empty(),
        );
        let linked = next.linked_children_from(
            files,
            plan,
            plan_id,
            again,
            links,
            0,
            Seq::empty(),
        )->Ok_0;
        own_children_may_stay(next, files, plan, plan_id, again, linked, second, 0, none);
        sound_runtimes_list_children(next, plan_id, Some(again.node_id));
        child_listing_is_complete(next, plan_id, Some(again.node_id));
        let current = next.child_nodes(plan_id, Some(again.node_id))->Ok_0;
        assert forall|k: int| 0 <= k < current.len() implies links.contains(
            (#[trigger] current[k]).relative_path,
        ) by {
            assert(is_child_record(next, plan_id, Some(again.node_id), current[k]));
            let m = choose|m: int|
                0 <= m < next.nodes.len() && is_child(
                    next.nodes[m],
                    plan_id,
                    Some(again.node_id),
                ) && record_of(#[trigger] next.nodes[m]) == Ok::<NodeRecordModel, PlanErrorModel>(
                    current[k],
                );
            assert(is_same_but_parent(runtime.nodes[m], next.nodes[m]));
        }
        linked_children_do_not_leave(next, plan_id, current, links, second, 0, none);
    }
}

} // verus!
