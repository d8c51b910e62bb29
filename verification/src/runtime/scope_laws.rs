//! Which approvals a review of a parent may take back, and what a judge is shown
//! of the nodes around.
use super::gates::{
    childless_from, json_section_of, node_snapshot, snapshot_from, with_stale_leaves_from,
};
use super::laws::{
    child_listing_is_complete, children_are_complete_and_sorted, holds_record, is_child_record,
};
use super::query::{child_rows, is_child, plan_markdown, record_of};
use super::review_laws::holds_words;
use super::store::{NodeRecordModel, NodeRowModel, RuntimeModel};
use crate::api::{GateSummaryModel, NodeKind, RunFrontierReviewGateRequestModel};
use crate::bundle::{reading_from, ReadingModel};
use crate::error::PlanErrorModel;
use crate::files::PlanFilesModel;
use crate::refine::runtime_state::{
    RefineStaleGateClassification, RefineStaleResultHandoffModel, StaleGateTargetKind,
};
use crate::text::{joined, trimmed, with_unique};
use vstd::prelude::*;

verus! {

// ---------------------------------------------------------------------
// Lists
// ---------------------------------------------------------------------
proof fn one_more_is_listed(list: Seq<Seq<char>>, more: Seq<char>, one: Seq<char>)
    ensures
        list.push(more).contains(one) <==> list.contains(one) || one == more,
        with_unique(list, more).contains(one) <==> list.contains(one) || one == more,
{
    let out = list.push(more);
    assert(out[list.len() as int] == more);
    if list.contains(one) {
        let k = choose|k: int| 0 <= k < list.len() && list[k] == one;
        assert(out[k] == one);
    }
    if out.contains(one) {
        let k = choose|k: int| 0 <= k < out.len() && out[k] == one;
        if k < list.len() {
            assert(list[k] == one);
        }
    }
}

// ---------------------------------------------------------------------
// The leaves of a parent
// ---------------------------------------------------------------------
/// The plan remembers a node with this id right below the parent, and none below
/// that node.
pub open spec fn is_childless_child(
    runtime: RuntimeModel,
    plan_id: Seq<char>,
    parent_node_id: Seq<char>,
    node_id: Seq<char>,
) -> bool {
    &&& exists|m: int|
        0 <= m < runtime.nodes.len() && (#[trigger] runtime.nodes[m]).plan_id == plan_id
            && runtime.nodes[m].parent_node_id == Some(parent_node_id) && runtime.nodes[m].node_id
            == node_id
    &&& forall|m: int|
        0 <= m < runtime.nodes.len() && (#[trigger] runtime.nodes[m]).plan_id == plan_id
            ==> runtime.nodes[m].parent_node_id != Some(node_id)
}

proof fn childless_rows_are_found(
    runtime: RuntimeModel,
    plan_id: Seq<char>,
    rows: Seq<NodeRowModel>,
    i: int,
    acc: Seq<Seq<char>>,
    node_id: Seq<char>,
)
    requires
        0 <= i <= rows.len(),
    ensures
        childless_from(runtime, plan_id, rows, i, acc).contains(node_id) <==> acc.contains(node_id)
            || (!runtime.has_children(plan_id, node_id) && exists|k: int|
            i <= k < rows.len() && (#[trigger] rows[k]).node_id == node_id),
    decreases rows.len() - i,
{
    if i < rows.len() {
        let id = rows[i].node_id;
        if runtime.has_children(plan_id, id) {
            childless_rows_are_found(runtime, plan_id, rows, i + 1, acc, node_id);
        } else {
            one_more_is_listed(acc, id, node_id);
            childless_rows_are_found(runtime, plan_id, rows, i + 1, acc.push(id), node_id);
        }
        if exists|k: int| i <= k < rows.len() && (#[trigger] rows[k]).node_id == node_id {
            let k = choose|k: int| i <= k < rows.len() && (#[trigger] rows[k]).node_id == node_id;
            if k > i {
                assert(rows[k].node_id == node_id);
            }
        }
        if exists|k: int| i + 1 <= k < rows.len() && (#[trigger] rows[k]).node_id == node_id {
            let k = choose|k: int|
                i + 1 <= k < rows.len() && (#[trigger] rows[k]).node_id == node_id;
            assert(rows[k].node_id == node_id);
        }
    }
}

proof fn childless_children_are_found(
    runtime: RuntimeModel,
    plan_id: Seq<char>,
    parent_node_id: Seq<char>,
    node_id: Seq<char>,
)
    ensures
        runtime.leaf_child_ids(plan_id, parent_node_id).contains(node_id) <==> is_childless_child(
            runtime,
            plan_id,
            parent_node_id,
            node_id,
        ),
{
    let n = runtime.nodes.len() as int;
    let rows = child_rows(runtime.nodes, plan_id, Some(parent_node_id), n);
    childless_rows_are_found(runtime, plan_id, rows, 0, Seq::empty(), node_id);
    children_are_complete_and_sorted(runtime.nodes, plan_id, Some(parent_node_id), n);
    if exists|k: int| 0 <= k < rows.len() && (#[trigger] rows[k]).node_id == node_id {
        let k = choose|k: int| 0 <= k < rows.len() && (#[trigger] rows[k]).node_id == node_id;
        assert(rows.contains(rows[k]));
        let m = choose|m: int| 0 <= m < n && runtime.nodes[m] == rows[k];
        assert(runtime.nodes[m].node_id == node_id);
    }
    if exists|m: int|
        0 <= m < n && (#[trigger] runtime.nodes[m]).plan_id == plan_id
            && runtime.nodes[m].parent_node_id == Some(parent_node_id) && runtime.nodes[m].node_id
            == node_id {
        let m = choose|m: int|
            0 <= m < n && (#[trigger] runtime.nodes[m]).plan_id == plan_id
                && runtime.nodes[m].parent_node_id == Some(parent_node_id)
                && runtime.nodes[m].node_id == node_id;
        assert(rows.contains(runtime.nodes[m]));
        let k = choose|k: int| 0 <= k < rows.len() && rows[k] == runtime.nodes[m];
        assert(rows[k].node_id == node_id);
    }
    assert(!Seq::<Seq<char>>::empty().contains(node_id));
}

/// The row is remembered right below the node.
pub open spec fn is_row_below(
    runtime: RuntimeModel,
    plan_id: Seq<char>,
    node_id: Seq<char>,
    m: int,
) -> bool {
    &&& 0 <= m < runtime.nodes.len()
    &&& runtime.nodes[m].plan_id == plan_id
    &&& runtime.nodes[m].parent_node_id == Some(node_id)
}

/// The leaf is remembered below the node, at most `depth` steps down.
pub open spec fn is_leaf_below(
    runtime: RuntimeModel,
    plan_id: Seq<char>,
    node_id: Seq<char>,
    leaf_id: Seq<char>,
    depth: nat,
) -> bool
    decreases depth,
{
    depth > 0 && exists|m: int| #[trigger]
        is_row_below(runtime, plan_id, node_id, m) && {
            ||| runtime.nodes[m].node_kind == "leaf"@ && runtime.nodes[m].node_id == leaf_id
            ||| runtime.nodes[m].node_kind == "parent"@ && is_leaf_below(
                runtime,
                plan_id,
                runtime.nodes[m].node_id,
                leaf_id,
                (depth - 1) as nat,
            )
        }
}

/// A node that is listed leads to the leaf: it is the leaf, or the leaf is below
/// it.
spec fn leads_to(
    runtime: RuntimeModel,
    plan_id: Seq<char>,
    node: NodeRecordModel,
    leaf_id: Seq<char>,
    depth: nat,
) -> bool {
    match node.node_kind {
        NodeKind::Leaf => node.node_id == leaf_id,
        NodeKind::Parent => is_leaf_below(runtime, plan_id, node.node_id, leaf_id, depth),
    }
}

proof fn leaves_below_are_found(
    runtime: RuntimeModel,
    plan_id: Seq<char>,
    node_id: Seq<char>,
    depth: nat,
    acc: Seq<Seq<char>>,
    leaf_id: Seq<char>,
)
    ensures
        runtime.leaves_below(plan_id, node_id, depth, acc) matches Ok(ids) ==> (ids.contains(
            leaf_id,
        ) <==> acc.contains(leaf_id) || is_leaf_below(runtime, plan_id, node_id, leaf_id, depth)),
    decreases depth, 0nat,
{
    if depth > 0 {
        if let Ok(children) = runtime.child_nodes(plan_id, Some(node_id)) {
            let less = (depth - 1) as nat;
            leaves_among_are_found(runtime, plan_id, children, 0, less, acc, leaf_id);
            child_listing_is_complete(runtime, plan_id, Some(node_id));
            if exists|k: int|
                0 <= k < children.len() && leads_to(
                    runtime,
                    plan_id,
                    #[trigger] children[k],
                    leaf_id,
                    less,
                ) {
                let k = choose|k: int|
                    0 <= k < children.len() && leads_to(
                        runtime,
                        plan_id,
                        #[trigger] children[k],
                        leaf_id,
                        less,
                    );
                assert(is_child_record(runtime, plan_id, Some(node_id), children[k]));
                let m = choose|m: int|
                    0 <= m < runtime.nodes.len() && is_child(
                        runtime.nodes[m],
                        plan_id,
                        Some(node_id),
                    ) && record_of(#[trigger] runtime.nodes[m]) == Ok::<
                        NodeRecordModel,
                        PlanErrorModel,
                    >(children[k]);
                assert(is_row_below(runtime, plan_id, node_id, m));
            }
            if is_leaf_below(runtime, plan_id, node_id, leaf_id, depth) {
                let m = choose|m: int| #[trigger]
                    is_row_below(runtime, plan_id, node_id, m) && {
                        ||| runtime.nodes[m].node_kind == "leaf"@ && runtime.nodes[m].node_id
                            == leaf_id
                        ||| runtime.nodes[m].node_kind == "parent"@ && is_leaf_below(
                            runtime,
                            plan_id,
                            runtime.nodes[m].node_id,
                            leaf_id,
                            (depth - 1) as nat,
                        )
                    };
                reveal_strlit("parent");
                reveal_strlit("leaf");
                assert("parent"@.len() != "leaf"@.len());
                assert(is_child(runtime.nodes[m], plan_id, Some(node_id)));
                assert(holds_record(children, runtime.nodes[m]));
                let k = choose|k: int|
                    0 <= k < children.len() && record_of(runtime.nodes[m]) == Ok::<
                        NodeRecordModel,
                        PlanErrorModel,
                    >(#[trigger] children[k]);
                assert(leads_to(runtime, plan_id, children[k], leaf_id, less));
            }
        }
    }
}

proof fn leaves_among_are_found(
    runtime: RuntimeModel,
    plan_id: Seq<char>,
    nodes: Seq<NodeRecordModel>,
    i: nat,
    depth: nat,
    acc: Seq<Seq<char>>,
    leaf_id: Seq<char>,
)
    requires
        i <= nodes.len(),
    ensures
        runtime.leaves_among(plan_id, nodes, i, depth, acc) matches Ok(ids) ==> (ids.contains(
            leaf_id,
        ) <==> acc.contains(leaf_id) || exists|k: int|
            i <= k < nodes.len() && leads_to(
                runtime,
                plan_id,
                #[trigger] nodes[k],
                leaf_id,
                depth,
            )),
    decreases depth, nodes.len() - i,
{
    if i < nodes.len() {
        let node = nodes[i as int];
        match node.node_kind {
            NodeKind::Leaf => {
                one_more_is_listed(acc, node.node_id, leaf_id);
                leaves_among_are_found(
                    runtime,
                    plan_id,
                    nodes,
                    i + 1,
                    depth,
                    with_unique(acc, node.node_id),
                    leaf_id,
                );
            },
            NodeKind::Parent => {
                leaves_below_are_found(runtime, plan_id, node.node_id, depth, acc, leaf_id);
                if let Ok(next) = runtime.leaves_below(plan_id, node.node_id, depth, acc) {
                    leaves_among_are_found(
                        runtime,
                        plan_id,
                        nodes,
                        i + 1,
                        depth,
                        next,
                        leaf_id,
                    );
                }
            },
        }
        if exists|k: int|
            i <= k < nodes.len() && leads_to(
                runtime,
                plan_id,
                #[trigger] nodes[k],
                leaf_id,
                depth,
            ) {
            let k = choose|k: int|
                i <= k < nodes.len() && leads_to(
                    runtime,
                    plan_id,
                    #[trigger] nodes[k],
                    leaf_id,
                    depth,
                );
            if k > i {
                assert(leads_to(runtime, plan_id, nodes[k], leaf_id, depth));
            }
        }
        if exists|k: int|
            i + 1 <= k < nodes.len() && leads_to(
                runtime,
                plan_id,
                #[trigger] nodes[k],
                leaf_id,
                depth,
            ) {
            let k = choose|k: int|
                i + 1 <= k < nodes.len() && leads_to(
                    runtime,
                    plan_id,
                    #[trigger] nodes[k],
                    leaf_id,
                    depth,
                );
            assert(leads_to(runtime, plan_id, nodes[k], leaf_id, depth));
        }
    }
}

// ---------------------------------------------------------------------
// Stale handoffs
// ---------------------------------------------------------------------
/// The handoff says, with a reason, that the approval of this leaf of this parent
/// is stale.
pub open spec fn says_stale(
    handoff: RefineStaleResultHandoffModel,
    parent_node_id: Seq<char>,
    parent_path: Seq<char>,
    leaf_id: Seq<char>,
) -> bool {
    &&& handoff.node_id == Some(leaf_id)
    &&& handoff.target_kind == StaleGateTargetKind::Leaf
    &&& handoff.classification == RefineStaleGateClassification::Stale
    &&& holds_words(Some(handoff.invalidation_reason))
    &&& handoff.parent_node_id == Some(parent_node_id) || handoff.parent_relative_path == Some(
        parent_path,
    )
}

proof fn stale_leaves_are_found(
    handoffs: Seq<RefineStaleResultHandoffModel>,
    parent_node_id: Seq<char>,
    parent_path: Seq<char>,
    i: int,
    acc: Seq<Seq<char>>,
    leaf_id: Seq<char>,
)
    requires
        0 <= i <= handoffs.len(),
    ensures
        with_stale_leaves_from(handoffs, parent_node_id, parent_path, i, acc).contains(leaf_id)
            <==> acc.contains(leaf_id) || exists|k: int|
            i <= k < handoffs.len() && says_stale(
                #[trigger] handoffs[k],
                parent_node_id,
                parent_path,
                leaf_id,
            ),
    decreases handoffs.len() - i,
{
    if i < handoffs.len() {
        let handoff = handoffs[i];
        crate::refine::target_laws::reasons_hold_words(handoff.invalidation_reason);
        let next = match handoff.node_id {
            Some(node_id) => if super::gates::is_stale_leaf_of(
                handoff,
                parent_node_id,
                parent_path,
            ) {
                one_more_is_listed(acc, node_id, leaf_id);
                with_unique(acc, node_id)
            } else {
                acc
            },
            None => acc,
        };
        assert(next.contains(leaf_id) <==> acc.contains(leaf_id) || says_stale(
            handoff,
            parent_node_id,
            parent_path,
            leaf_id,
        ));
        stale_leaves_are_found(
            handoffs,
            parent_node_id,
            parent_path,
            i + 1,
            next,
            leaf_id,
        );
        if exists|k: int|
            i <= k < handoffs.len() && says_stale(
                #[trigger] handoffs[k],
                parent_node_id,
                parent_path,
                leaf_id,
            ) {
            let k = choose|k: int|
                i <= k < handoffs.len() && says_stale(
                    #[trigger] handoffs[k],
                    parent_node_id,
                    parent_path,
                    leaf_id,
                );
            if k > i {
                assert(says_stale(handoffs[k], parent_node_id, parent_path, leaf_id));
            }
        }
        if exists|k: int|
            i + 1 <= k < handoffs.len() && says_stale(
                #[trigger] handoffs[k],
                parent_node_id,
                parent_path,
                leaf_id,
            ) {
            let k = choose|k: int|
                i + 1 <= k < handoffs.len() && says_stale(
                    #[trigger] handoffs[k],
                    parent_node_id,
                    parent_path,
                    leaf_id,
                );
            assert(says_stale(handoffs[k], parent_node_id, parent_path, leaf_id));
        }
    }
}

// ---------------------------------------------------------------------
// What may be taken back
// ---------------------------------------------------------------------
/// The context of the request names this leaf among the stale ones.
pub open spec fn is_handed_off(
    runtime: RuntimeModel,
    request: RunFrontierReviewGateRequestModel,
    readings: Seq<ReadingModel<Seq<RefineStaleResultHandoffModel>>>,
    leaf_id: Seq<char>,
) -> bool {
    &&& request.refine_revalidation_context is Some
    &&& json_section_of(request.refine_revalidation_context->0, "Stale Handoff"@) matches Some(json)
        && (reading_from(readings, json, 0) matches Ok(handoffs) && exists|k: int|
        0 <= k < handoffs.len() && says_stale(
            #[trigger] handoffs[k],
            request.parent_node_id,
            runtime.node(request.plan_id, request.parent_node_id)->Ok_0.relative_path,
            leaf_id,
        ))
}

/// The leaf is below the parent, or the context names it as stale.
pub open spec fn is_in_scope(
    runtime: RuntimeModel,
    request: RunFrontierReviewGateRequestModel,
    readings: Seq<ReadingModel<Seq<RefineStaleResultHandoffModel>>>,
    leaf_id: Seq<char>,
) -> bool {
    ||| is_leaf_below(
        runtime,
        request.plan_id,
        request.parent_node_id,
        leaf_id,
        runtime.nodes.len(),
    )
    ||| is_handed_off(runtime, request, readings, leaf_id)
}

/// The plan remembers a leaf with this id.
pub open spec fn is_leaf_of_plan(
    runtime: RuntimeModel,
    plan_id: Seq<char>,
    node_id: Seq<char>,
) -> bool {
    exists|m: int|
        0 <= m < runtime.nodes.len() && (#[trigger] runtime.nodes[m]).plan_id == plan_id
            && runtime.nodes[m].node_kind == "leaf"@ && runtime.nodes[m].node_id == node_id
}

proof fn context_leaves_are_found(
    runtime: RuntimeModel,
    request: RunFrontierReviewGateRequestModel,
    readings: Seq<ReadingModel<Seq<RefineStaleResultHandoffModel>>>,
    leaf_id: Seq<char>,
)
    requires
        request.refine_revalidation_context is Some,
    ensures
        runtime.context_leaf_ids(
            request.plan_id,
            request.parent_node_id,
            request.refine_revalidation_context->0,
            readings,
        ) matches Ok(ids) ==> (ids.contains(leaf_id) <==> is_in_scope(
            runtime,
            request,
            readings,
            leaf_id,
        )),
{
    let plan_id = request.plan_id;
    let parent_id = request.parent_node_id;
    let context = request.refine_revalidation_context->0;
    let none = Seq::<Seq<char>>::empty();
    let n = runtime.nodes.len();
    leaves_below_are_found(runtime, plan_id, parent_id, n, none, leaf_id);
    assert(!none.contains(leaf_id));
    if let Ok(below) = runtime.leaves_below(plan_id, parent_id, n, none) {
        if let Ok(parent) = runtime.node(plan_id, parent_id) {
            if let Some(json) = json_section_of(context, "Stale Handoff"@) {
                if let Ok(handoffs) = reading_from(readings, json, 0) {
                    stale_leaves_are_found(
                        handoffs,
                        parent_id,
                        parent.relative_path,
                        0,
                        below,
                        leaf_id,
                    );
                }
            }
        }
    }
}

proof fn allowed_ids_are_those_asked_for(
    runtime: RuntimeModel,
    plan_id: Seq<char>,
    allowed: Seq<Seq<char>>,
    asked: Seq<Seq<char>>,
    i: int,
    acc: Seq<Seq<char>>,
)
    requires
        0 <= i <= asked.len(),
    ensures
        runtime.allowed_ids_from(plan_id, allowed, asked, i, acc) is Ok <==> forall|k: int|
            i <= k < asked.len() ==> is_leaf_of_plan(runtime, plan_id, #[trigger] asked[k])
                && allowed.contains(asked[k]),
        runtime.allowed_ids_from(plan_id, allowed, asked, i, acc) matches Ok(ids) ==> forall|
            id: Seq<char>,
        | #[trigger]
            ids.contains(id) <==> acc.contains(id) || exists|k: int|
                i <= k < asked.len() && #[trigger] asked[k] == id,
    decreases asked.len() - i,
{
    if i < asked.len() {
        assert(runtime.is_plan_leaf(plan_id, asked[i]) == is_leaf_of_plan(
            runtime,
            plan_id,
            asked[i],
        ));
        if runtime.is_plan_leaf(plan_id, asked[i]) && allowed.contains(asked[i]) {
            let next = with_unique(acc, asked[i]);
            allowed_ids_are_those_asked_for(runtime, plan_id, allowed, asked, i + 1, next);
            if let Ok(ids) = runtime.allowed_ids_from(plan_id, allowed, asked, i, acc) {
                assert forall|id: Seq<char>| #[trigger]
                    ids.contains(id) <==> acc.contains(id) || exists|k: int|
                    i <= k < asked.len() && #[trigger] asked[k] == id by {
                    one_more_is_listed(acc, asked[i], id);
                }
            }
        }
    }
}

/// A review without a context may take back the approvals of the childless
/// children of the parent. One with a context may take back those of the leaves
/// below the parent and of those that the context names as stale; where it names
/// the leaves itself, just these, and it is refused where one of them is no leaf of
/// the plan or is none of the others.
pub proof fn reviews_take_back_what_they_may(
    runtime: RuntimeModel,
    request: RunFrontierReviewGateRequestModel,
    readings: Seq<ReadingModel<Seq<RefineStaleResultHandoffModel>>>,
    leaf_id: Seq<char>,
)
    ensures
        ({
            let found = runtime.invalidatable_ids(request, readings);
            &&& !holds_words(request.refine_revalidation_context) ==> found is Ok
                && (found->Ok_0.contains(leaf_id) <==> is_childless_child(
                runtime,
                request.plan_id,
                request.parent_node_id,
                leaf_id,
            ))
            &&& holds_words(request.refine_revalidation_context) && found is Ok ==> match
                request.refine_invalidatable_leaf_node_ids {
                None => found->Ok_0.contains(leaf_id) <==> is_in_scope(
                    runtime,
                    request,
                    readings,
                    leaf_id,
                ),
                Some(asked) => {
                    &&& found->Ok_0.contains(leaf_id) <==> asked.contains(leaf_id)
                    &&& asked.contains(leaf_id) ==> is_leaf_of_plan(
                        runtime,
                        request.plan_id,
                        leaf_id,
                    ) && is_in_scope(runtime, request, readings, leaf_id)
                },
            }
        }),
{
    childless_children_are_found(runtime, request.plan_id, request.parent_node_id, leaf_id);
    if let Some(context) = request.refine_revalidation_context {
        crate::refine::target_laws::reasons_hold_words(context);
        context_leaves_are_found(runtime, request, readings, leaf_id);
        if trimmed(context).len() > 0 {
            if let Ok(allowed) = runtime.context_leaf_ids(
                request.plan_id,
                request.parent_node_id,
                context,
                readings,
            ) {
                if let Some(asked) = request.refine_invalidatable_leaf_node_ids {
                    let none = Seq::<Seq<char>>::empty();
                    allowed_ids_are_those_asked_for(
                        runtime,
                        request.plan_id,
                        allowed,
                        asked,
                        0,
                        none,
                    );
                    assert(!none.contains(leaf_id));
                    if asked.contains(leaf_id) {
                        let k = choose|k: int| 0 <= k < asked.len() && asked[k] == leaf_id;
                        assert(asked[k] == leaf_id);
                    }
                }
            }
        }
    }
}

// ---------------------------------------------------------------------
// What a judge is shown
// ---------------------------------------------------------------------
/// What is shown of one node: its id, its path and its markdown.
pub open spec fn shown_node(files: PlanFilesModel, plan_root: Seq<char>, node: NodeRecordModel) -> Seq<
    char,
> {
    "### Node `"@ + node.node_id + "` (`"@ + node.relative_path + "`)\n```markdown\n"@
        + plan_markdown(files, plan_root, node.relative_path)->Ok_0 + "\n```"@
}

proof fn sections_are_shown(
    files: PlanFilesModel,
    plan_root: Seq<char>,
    nodes: Seq<NodeRecordModel>,
    i: int,
    acc: Seq<Seq<char>>,
)
    requires
        0 <= i <= nodes.len(),
        acc == nodes.take(i).map_values(
            |node: NodeRecordModel| shown_node(files, plan_root, node),
        ),
    ensures
        match snapshot_from(files, plan_root, nodes, i, acc) {
            Ok(sections) => sections == nodes.map_values(
                |node: NodeRecordModel| shown_node(files, plan_root, node),
            ) && forall|k: int|
                i <= k < nodes.len() ==> plan_markdown(
                    files,
                    plan_root,
                    (#[trigger] nodes[k]).relative_path,
                ) is Ok,
            Err(_) => exists|k: int|
                i <= k < nodes.len() && plan_markdown(
                    files,
                    plan_root,
                    (#[trigger] nodes[k]).relative_path,
                ) is Err,
        },
    decreases nodes.len() - i,
{
    let f = |node: NodeRecordModel| shown_node(files, plan_root, node);
    if i < nodes.len() {
        if let Ok(markdown) = plan_markdown(files, plan_root, nodes[i].relative_path) {
            let more = acc.push(super::gates::snapshot_section(nodes[i], markdown));
            assert(more =~= nodes.take(i + 1).map_values(f));
            sections_are_shown(files, plan_root, nodes, i + 1, more);
        } else {
            assert(plan_markdown(files, plan_root, nodes[i].relative_path) is Err);
        }
    } else {
        assert(nodes.take(i) =~= nodes);
    }
}

/// A judge is shown every node around, in their order, with its markdown; it is not
/// asked where one of them cannot be read.
pub proof fn judges_are_shown_every_node(
    files: PlanFilesModel,
    plan_root: Seq<char>,
    nodes: Seq<NodeRecordModel>,
)
    requires
        nodes.len() > 0,
    ensures
        node_snapshot(files, plan_root, nodes) is Ok <==> forall|k: int|
            0 <= k < nodes.len() ==> plan_markdown(
                files,
                plan_root,
                (#[trigger] nodes[k]).relative_path,
            ) is Ok,
        node_snapshot(files, plan_root, nodes) matches Ok(text) ==> text == joined(
            nodes.map_values(|node: NodeRecordModel| shown_node(files, plan_root, node)),
            "\n\n"@,
        ),
{
    let f = |node: NodeRecordModel| shown_node(files, plan_root, node);
    assert(nodes.take(0).map_values(f) =~= Seq::empty());
    sections_are_shown(files, plan_root, nodes, 0, Seq::empty());
}

/// What is shown of a passed review of a child.
pub open spec fn shown_review(node: NodeRecordModel, summary: GateSummaryModel) -> Seq<char> {
    "- node_id `"@ + node.node_id + "` (`"@ + node.relative_path + "`), gate_run_id `"@
        + summary.gate_run_id + "`, reviewer_role_id `"@ + summary.reviewer_role_id + "`: "@
        + summary.summary
}

/// The children whose passed reviews are shown: those that have no children and
/// passed one.
pub open spec fn passed_children(
    runtime: RuntimeModel,
    plan_id: Seq<char>,
    children: Seq<NodeRecordModel>,
) -> Seq<NodeRecordModel> {
    children.filter(
        |node: NodeRecordModel|
            !runtime.has_children(plan_id, node.node_id) && runtime.passed_leaf_gate(
                plan_id,
                node.node_id,
            ) is Some,
    )
}

/// The passed reviews of the children, as they are shown.
pub open spec fn shown_reviews(
    runtime: RuntimeModel,
    plan_id: Seq<char>,
    children: Seq<NodeRecordModel>,
) -> Seq<Seq<char>> {
    passed_children(runtime, plan_id, children).map_values(
        |node: NodeRecordModel|
            shown_review(node, runtime.passed_leaf_gate(plan_id, node.node_id)->0),
    )
}

proof fn reviews_are_shown_from(
    runtime: RuntimeModel,
    plan_id: Seq<char>,
    children: Seq<NodeRecordModel>,
    i: int,
    acc: Seq<Seq<char>>,
)
    requires
        0 <= i <= children.len(),
        acc == shown_reviews(runtime, plan_id, children.take(i)),
    ensures
        runtime.passed_reviews_from(plan_id, children, i, acc) == shown_reviews(
            runtime,
            plan_id,
            children,
        ),
    decreases children.len() - i,
{
    if i < children.len() {
        reveal(Seq::filter);
        let node = children[i];
        let before = children.take(i);
        let after = children.take(i + 1);
        assert(after.drop_last() =~= before);
        assert(after.last() == node);
        let review = runtime.passed_leaf_gate(plan_id, node.node_id);
        if !runtime.has_children(plan_id, node.node_id) && review is Some {
            assert(passed_children(runtime, plan_id, after) == passed_children(
                runtime,
                plan_id,
                before,
            ).push(node));
            let more = acc.push(shown_review(node, review->0));
            assert(more =~= shown_reviews(runtime, plan_id, after));
            reviews_are_shown_from(runtime, plan_id, children, i + 1, more);
        } else {
            assert(passed_children(runtime, plan_id, after) == passed_children(
                runtime,
                plan_id,
                before,
            ));
            assert(acc =~= shown_reviews(runtime, plan_id, after));
            reviews_are_shown_from(runtime, plan_id, children, i + 1, acc);
        }
    } else {
        assert(children.take(i) =~= children);
    }
}

/// A judge of a parent is shown the latest passed review of each childless child
/// that has one, in the order of the children.
pub proof fn judges_are_shown_passed_reviews(
    runtime: RuntimeModel,
    plan_id: Seq<char>,
    parent_node_id: Seq<char>,
)
    ensures
        runtime.child_nodes(plan_id, Some(parent_node_id)) matches Ok(children) ==> {
            let lines = shown_reviews(runtime, plan_id, children);
            runtime.passed_reviews(plan_id, parent_node_id) matches Ok(text) && text == if lines.len()
                == 0 {
                "- No passed leaf review summaries are currently available."@
            } else {
                joined(lines, "\n"@)
            }
        },
{
    if let Ok(children) = runtime.child_nodes(plan_id, Some(parent_node_id)) {
        assert(children.take(0) =~= Seq::empty());
        assert(shown_reviews(runtime, plan_id, children.take(0)) =~= Seq::empty()) by {
            reveal(Seq::filter);
        }
        reviews_are_shown_from(runtime, plan_id, children, 0, Seq::empty());
    }
}

} // verus!
