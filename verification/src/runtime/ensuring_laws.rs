//! What a request for a plan or for a node comes to: what is remembered after it,
//! and when it is refused.
use super::laws::{node_at_is_found, plan_is_found};
use super::node_paths::{directory_components, node_path_kind};
use super::store::{NodeRowModel, PlanRowModel, RuntimeModel};
use crate::api::{EnsureNodeIdRequestModel, EnsurePlanRequestModel, NodeKind, OpenPlanRequestModel};
use crate::error::PlanErrorModel;
use crate::paths::{
    all_normal, components, file_name, is_absolute, joined_path, parent_name, path_key,
    ComponentModel,
};
use crate::skill::task_type_identifier;
use crate::text::{before_suffix, closes_with};
use vstd::prelude::*;

verus! {

// ---------------------------------------------------------------------
// Plans
// ---------------------------------------------------------------------
/// The text is the name of one directory.
pub open spec fn is_plan_name(name: Seq<char>) -> bool {
    &&& name.len() > 0
    &&& !is_absolute(name)
    &&& components(name).len() == 1
    &&& components(name)[0] == ComponentModel::Normal(name)
}

/// The place of a plan: below the fixed directory of its workspace.
pub open spec fn is_plan_place(
    root: Seq<char>,
    workspace_root: Seq<char>,
    plan_name: Seq<char>,
) -> bool {
    root == joined_path(joined_path(workspace_root, ".loopy/plans"@), plan_name)
}

/// Row `k` is the first of a plan of this workspace with this name.
pub open spec fn is_first_plan(runtime: RuntimeModel, plan_name: Seq<char>, k: int) -> bool {
    &&& 0 <= k < runtime.plans.len()
    &&& runtime.plans[k].workspace_root == runtime.workspace_root
    &&& runtime.plans[k].plan_name == plan_name
    &&& forall|j: int|
        0 <= j < k ==> !((#[trigger] runtime.plans[j]).workspace_root == runtime.workspace_root
            && runtime.plans[j].plan_name == plan_name)
}

proof fn first_plan_is_found(runtime: RuntimeModel, plan_name: Seq<char>, i: int)
    requires
        0 <= i <= runtime.plans.len(),
        forall|j: int|
            0 <= j < i ==> !((#[trigger] runtime.plans[j]).workspace_root == runtime.workspace_root
                && runtime.plans[j].plan_name == plan_name),
    ensures
        match super::query::named_plan_from(
            runtime.plans,
            runtime.workspace_root,
            plan_name,
            i,
        ) {
            Some(plan) => exists|k: int| #[trigger]
                is_first_plan(runtime, plan_name, k) && runtime.plans[k] == plan,
            None => forall|k: int| !#[trigger] is_first_plan(runtime, plan_name, k),
        },
    decreases runtime.plans.len() - i,
{
    if i < runtime.plans.len() {
        if runtime.plans[i].workspace_root == runtime.workspace_root && runtime.plans[i].plan_name
            == plan_name {
            assert(is_first_plan(runtime, plan_name, i));
        } else {
            first_plan_is_found(runtime, plan_name, i + 1);
        }
    } else {
        assert forall|k: int| !#[trigger] is_first_plan(runtime, plan_name, k) by {
            if is_first_plan(runtime, plan_name, k) {
                assert(runtime.plans[k].plan_name == plan_name);
            }
        }
    }
}

proof fn first_plan_is_one(runtime: RuntimeModel, plan_name: Seq<char>, k: int, m: int)
    requires
        is_first_plan(runtime, plan_name, k),
        is_first_plan(runtime, plan_name, m),
    ensures
        k == m,
{
    if k < m {
        assert(runtime.plans[k].plan_name == plan_name);
    } else if m < k {
        assert(runtime.plans[m].plan_name == plan_name);
    }
}

/// A plan that is opened is one of this workspace with this name, at its place;
/// the answer is what is remembered of it. It can be opened where it is at its
/// place and its name is one.
pub proof fn opened_plans_are_remembered(runtime: RuntimeModel, request: OpenPlanRequestModel)
    ensures
        runtime.plan_opened(request) matches Ok(answer) ==> is_plan_name(request.plan_name)
            && exists|k: int| #[trigger]
            is_first_plan(runtime, request.plan_name, k) && is_plan_place(
                runtime.plans[k].plan_root,
                runtime.workspace_root,
                request.plan_name,
            ) && answer.plan_id == runtime.plans[k].plan_id && answer.plan_root
                == runtime.plans[k].plan_root && answer.plan_status
                == runtime.plans[k].plan_status && answer.task_type == runtime.plans[k].task_type,
        forall|k: int|
            is_plan_name(request.plan_name) && #[trigger] is_first_plan(
                runtime,
                request.plan_name,
                k,
            ) && is_plan_place(
                runtime.plans[k].plan_root,
                runtime.workspace_root,
                request.plan_name,
            ) ==> runtime.plan_opened(request) is Ok,
{
    first_plan_is_found(runtime, request.plan_name, 0);
    assert forall|k: int|
        is_plan_name(request.plan_name) && #[trigger] is_first_plan(
            runtime,
            request.plan_name,
            k,
        ) && is_plan_place(
            runtime.plans[k].plan_root,
            runtime.workspace_root,
            request.plan_name,
        ) implies runtime.plan_opened(request) is Ok by {
        let plan = runtime.named_plan(request.plan_name)->0;
        let m = choose|m: int| #[trigger]
            is_first_plan(runtime, request.plan_name, m) && runtime.plans[m] == plan;
        first_plan_is_one(runtime, request.plan_name, k, m);
    }
}

/// The row is that of a new plan as it was asked for.
pub open spec fn is_new_plan(
    runtime: RuntimeModel,
    request: EnsurePlanRequestModel,
    new_id: Seq<char>,
    timestamp: Seq<char>,
    row: PlanRowModel,
) -> bool {
    &&& row.plan_id == new_id
    &&& row.workspace_root == runtime.workspace_root
    &&& row.plan_name == request.plan_name
    &&& is_plan_place(row.plan_root, runtime.workspace_root, request.plan_name)
    &&& row.project_directory == joined_path(runtime.workspace_root, request.project_directory)
    &&& row.project_directory_source == "explicit"@
    &&& task_type_identifier(request.task_type) matches Ok(task_type) && row.task_type == task_type
    &&& row.plan_status == "active"@
    &&& row.created_at == timestamp
    &&& row.updated_at == timestamp
}

/// The row is as before, but for a project directory that was only filled in and
/// is now given.
pub open spec fn is_redirected_plan(
    before: PlanRowModel,
    after: PlanRowModel,
    plan_id: Seq<char>,
    directory: Seq<char>,
    timestamp: Seq<char>,
) -> bool {
    if before.plan_id == plan_id {
        &&& after.plan_id == before.plan_id
        &&& after.workspace_root == before.workspace_root
        &&& after.plan_name == before.plan_name
        &&& after.plan_root == before.plan_root
        &&& after.project_directory == directory
        &&& after.project_directory_source == "explicit"@
        &&& after.task_type == before.task_type
        &&& after.plan_status == before.plan_status
        &&& after.created_at == before.created_at
        &&& after.updated_at == timestamp
    } else {
        after == before
    }
}

/// Nothing but the plans changed.
pub open spec fn only_plans_change(before: RuntimeModel, after: RuntimeModel) -> bool {
    &&& after.workspace_root == before.workspace_root
    &&& after.nodes == before.nodes
    &&& after.leaf_gate_runs == before.leaf_gate_runs
    &&& after.frontier_gate_runs == before.frontier_gate_runs
}

/// A plan that is not there yet is made as it was asked for, under the new id. One
/// that is there is answered as it is; its project directory changes only where it
/// was merely filled in. A request with a bad name, a bad type, no project
/// directory or another one than the plan was given is refused.
pub proof fn plans_are_made_as_asked(
    runtime: RuntimeModel,
    request: EnsurePlanRequestModel,
    new_id: Seq<char>,
    timestamp: Seq<char>,
)
    ensures
        ({
            let (next, result) = runtime.plan_ensured(request, new_id, timestamp);
            let directory = joined_path(runtime.workspace_root, request.project_directory);
            let asked_well = is_plan_name(request.plan_name) && task_type_identifier(
                request.task_type,
            ) is Ok && request.project_directory.len() > 0;
            &&& only_plans_change(runtime, next)
            &&& !asked_well ==> result is Err
            &&& result is Err ==> next == runtime
            &&& (forall|k: int| !#[trigger] is_first_plan(runtime, request.plan_name, k)) ==> {
                &&& result is Ok <==> asked_well && runtime.plan(new_id) is None
                &&& result matches Ok(answer) ==> {
                    &&& next.plans.len() == runtime.plans.len() + 1
                    &&& next.plans.drop_last() == runtime.plans
                    &&& is_new_plan(runtime, request, new_id, timestamp, next.plans.last())
                    &&& answer.plan_id == new_id
                    &&& answer.plan_root == next.plans.last().plan_root
                    &&& answer.plan_status == "active"@
                }
            }
            &&& forall|k: int| #[trigger]
                is_first_plan(runtime, request.plan_name, k) ==> {
                    let plan = runtime.plans[k];
                    &&& result is Ok <==> asked_well && is_plan_place(
                        plan.plan_root,
                        runtime.workspace_root,
                        request.plan_name,
                    ) && (plan.project_directory == directory || plan.project_directory_source
                        == "backfilled_legacy"@)
                    &&& result matches Ok(answer) ==> {
                        &&& answer.plan_id == plan.plan_id
                        &&& answer.plan_root == plan.plan_root
                        &&& answer.plan_status == plan.plan_status
                        &&& plan.project_directory == directory ==> next == runtime
                        &&& plan.project_directory != directory ==> next.plans.len()
                            == runtime.plans.len() && forall|j: int|
                            0 <= j < runtime.plans.len() ==> is_redirected_plan(
                                runtime.plans[j],
                                #[trigger] next.plans[j],
                                plan.plan_id,
                                directory,
                                timestamp,
                            )
                    }
                }
        }),
{
    let (next, result) = runtime.plan_ensured(request, new_id, timestamp);
    first_plan_is_found(runtime, request.plan_name, 0);
    assert forall|k: int| #[trigger]
        is_first_plan(runtime, request.plan_name, k) implies runtime.named_plan(
        request.plan_name,
    ) == Some(runtime.plans[k]) by {
        let plan = runtime.named_plan(request.plan_name)->0;
        let m = choose|m: int| #[trigger]
            is_first_plan(runtime, request.plan_name, m) && runtime.plans[m] == plan;
        first_plan_is_one(runtime, request.plan_name, k, m);
    }
    if runtime.named_plan(request.plan_name) is None && result is Ok {
        assert(next.plans.drop_last() =~= runtime.plans);
    }
}

// ---------------------------------------------------------------------
// Nodes
// ---------------------------------------------------------------------
/// The path is written as the plan writes paths: names with one `/` between each
/// two of them.
pub open spec fn is_clean_path(path: Seq<char>) -> bool {
    &&& path.len() > 0
    &&& !is_absolute(path)
    &&& all_normal(components(path))
    &&& components(path).len() > 0
    &&& path_key(path) == path
}

/// The file at the path is markdown with this name before its ending.
pub open spec fn has_stem(path: Seq<char>, stem: Seq<char>) -> bool {
    stem.len() > 0 && file_name(path) == Some(stem + ".md"@)
}

/// A node of this kind stands at the path: a parent in the directory of its own
/// name, a leaf elsewhere.
pub open spec fn is_place_of(path: Seq<char>, kind: NodeKind) -> bool {
    exists|stem: Seq<char>| #[trigger]
        has_stem(path, stem) && (kind == NodeKind::Parent <==> parent_name(path) == Some(stem))
}

/// How much deeper than the directory of its parent a node stands.
pub open spec fn steps_down(kind: NodeKind) -> int {
    match kind {
        NodeKind::Leaf => 1,
        NodeKind::Parent => 2,
    }
}

/// The node stands right below the parent: in its directory, or in a directory of
/// its own there.
pub open spec fn is_right_below(path: Seq<char>, parent: Seq<char>, kind: NodeKind) -> bool {
    let directory = components(parent).drop_last();
    &&& components(path).len() == directory.len() + steps_down(kind)
    &&& forall|j: int| 0 <= j < directory.len() ==> #[trigger] components(path)[j] == directory[j]
}

/// A parent of the plan is remembered at the path, under this id.
pub open spec fn is_parent_row(
    runtime: RuntimeModel,
    plan_id: Seq<char>,
    path: Seq<char>,
    node_id: Seq<char>,
) -> bool {
    exists|m: int|
        0 <= m < runtime.nodes.len() && (#[trigger] runtime.nodes[m]).plan_id == plan_id
            && runtime.nodes[m].relative_path == path && runtime.nodes[m].node_id == node_id
            && runtime.nodes[m].node_kind == "parent"@
}

/// The row says that a node of this kind, with this parent, stands at the path.
pub open spec fn is_row_for(
    row: NodeRowModel,
    request: EnsureNodeIdRequestModel,
    kind: NodeKind,
    parent_node_id: Option<Seq<char>>,
) -> bool {
    &&& row.plan_id == request.plan_id
    &&& row.relative_path == request.relative_path
    &&& row.node_kind == match kind {
        NodeKind::Leaf => "leaf"@,
        NodeKind::Parent => "parent"@,
    }
    &&& row.parent_node_id == parent_node_id
}

/// The kind that a path tells is that of the node which can stand there.
pub proof fn kinds_follow_places(label: Seq<char>, path: Seq<char>)
    ensures
        node_path_kind(label, path) matches Ok(kind) ==> is_place_of(path, kind),
{
    if let Ok(kind) = node_path_kind(label, path) {
        let name = file_name(path)->0;
        let stem = before_suffix(name, ".md"@)->0;
        assert(name =~= stem + ".md"@);
        assert(has_stem(path, stem));
    }
}

/// A node is tracked only at a clean path that is one for its kind: at the top of
/// the plan, or right below a parent that is remembered. One that is not tracked
/// yet is remembered under the new id, with that parent; one that is keeps its id,
/// and is refused where it is of another kind or has another parent. Nothing else
/// changes.
pub proof fn nodes_are_tracked_as_asked(
    runtime: RuntimeModel,
    request: EnsureNodeIdRequestModel,
    new_id: Seq<char>,
    timestamp: Seq<char>,
)
    ensures
        ({
            let (next, result) = runtime.node_id_ensured(request, new_id, timestamp);
            let path = request.relative_path;
            &&& result is Err ==> next == runtime
            &&& result matches Ok(answer) ==> exists|kind: NodeKind, parent: Option<Seq<char>>|
                #[trigger] is_tracked_so(
                    runtime,
                    next,
                    request,
                    new_id,
                    timestamp,
                    answer.node_id,
                    kind,
                    parent,
                )
        }),
{
    let (next, result) = runtime.node_id_ensured(request, new_id, timestamp);
    if let Ok(answer) = result {
        let path = request.relative_path;
        let plan_id = request.plan_id;
        let kind = node_path_kind("relative_path"@, path)->Ok_0;
        let record = runtime.requested_parent(
            plan_id,
            path,
            request.parent_relative_path,
        )->Ok_0;
        let parent = match record {
            Some(found) => Some(found.node_id),
            None => None,
        };
        kinds_follow_places("relative_path"@, path);
        if let Some(parent_path) = request.parent_relative_path {
            kinds_follow_places("parent_relative_path"@, parent_path);
            node_at_is_found(runtime.nodes, plan_id, parent_path, 0);
            let row = runtime.node_row_at(plan_id, parent_path)->0;
            let m = choose|m: int|
                0 <= m < runtime.nodes.len() && #[trigger] runtime.nodes[m] == row;
            assert(runtime.nodes[m].relative_path == parent_path);
            assert(is_parent_row(runtime, plan_id, parent_path, parent->0));
            let directory = directory_components(parent_path);
            assert(components(path).take(directory.len() as int) == directory);
            assert forall|j: int| 0 <= j < directory.len() implies #[trigger] components(path)[j]
                == directory[j] by {
                assert(components(path).take(directory.len() as int)[j] == directory[j]);
            }
            assert(directory == components(parent_path).drop_last());
            assert(is_right_below(path, parent_path, kind));
        }
        node_at_is_found(runtime.nodes, plan_id, path, 0);
        plan_is_found(runtime.plans, plan_id, 0);
        if let Some(row) = runtime.node_row_at(plan_id, path) {
            let m = choose|m: int|
                0 <= m < runtime.nodes.len() && #[trigger] runtime.nodes[m] == row;
            assert(is_row_for(runtime.nodes[m], request, kind, parent));
        } else {
            assert(next.nodes.drop_last() =~= runtime.nodes);
        }
        assert(is_tracked_so(
            runtime,
            next,
            request,
            new_id,
            timestamp,
            answer.node_id,
            kind,
            parent,
        ));
    }
}

/// The node is tracked as one of this kind with this parent.
pub open spec fn is_tracked_so(
    runtime: RuntimeModel,
    next: RuntimeModel,
    request: EnsureNodeIdRequestModel,
    new_id: Seq<char>,
    timestamp: Seq<char>,
    node_id: Seq<char>,
    kind: NodeKind,
    parent: Option<Seq<char>>,
) -> bool {
    let path = request.relative_path;
    &&& is_clean_path(path)
    &&& is_place_of(path, kind)
    &&& match request.parent_relative_path {
        None => parent is None && components(path).len() == steps_down(kind),
        Some(parent_path) => {
            &&& is_clean_path(parent_path)
            &&& is_place_of(parent_path, NodeKind::Parent)
            &&& parent_path != path
            &&& is_right_below(path, parent_path, kind)
            &&& parent matches Some(id) && is_parent_row(
                runtime,
                request.plan_id,
                parent_path,
                id,
            )
        },
    }
    &&& (exists|m: int|
        0 <= m < runtime.nodes.len() && (#[trigger] runtime.nodes[m]).plan_id == request.plan_id
            && runtime.nodes[m].relative_path == path) ==> next == runtime && exists|m: int|
        0 <= m < runtime.nodes.len() && (#[trigger] runtime.nodes[m]).node_id == node_id
            && is_row_for(runtime.nodes[m], request, kind, parent)
    &&& (forall|m: int|
        0 <= m < runtime.nodes.len() ==> !((#[trigger] runtime.nodes[m]).plan_id
            == request.plan_id && runtime.nodes[m].relative_path == path)) ==> {
        &&& node_id == new_id
        &&& exists|k: int|
            0 <= k < runtime.plans.len() && (#[trigger] runtime.plans[k]).plan_id
                == request.plan_id
        &&& next.plans == runtime.plans
        &&& next.workspace_root == runtime.workspace_root
        &&& next.leaf_gate_runs == runtime.leaf_gate_runs
        &&& next.frontier_gate_runs == runtime.frontier_gate_runs
        &&& next.nodes.len() == runtime.nodes.len() + 1
        &&& next.nodes.drop_last() == runtime.nodes
        &&& next.nodes.last().node_id == new_id
        &&& is_row_for(next.nodes.last(), request, kind, parent)
        &&& Some(next.nodes.last().node_name) == file_name(path)
        &&& next.nodes.last().created_at == timestamp
        &&& next.nodes.last().updated_at == timestamp
    }
}

proof fn places_have_kinds(label: Seq<char>, path: Seq<char>, kind: NodeKind)
    requires
        is_place_of(path, kind),
    ensures
        node_path_kind(label, path) == Ok::<_, PlanErrorModel>(kind),
{
    let stem = choose|stem: Seq<char>| #[trigger]
        has_stem(path, stem) && (kind == NodeKind::Parent <==> parent_name(path) == Some(stem));
    let name = file_name(path)->0;
    reveal_strlit(".md");
    assert(name == stem + ".md"@);
    assert(name.skip(stem.len() as int) =~= ".md"@);
    assert(closes_with(name, ".md"@)) by {
        assert(name.subrange(name.len() - ".md"@.len(), name.len() as int) =~= ".md"@);
    }
    assert(name.take(name.len() - ".md"@.len()) =~= stem);
}

/// A node at a clean path that is one for its kind, at the top of a plan or right
/// below a parent that is remembered, is tracked where it is not yet, the plan is
/// remembered and the new id is not in use.
pub proof fn fit_nodes_are_tracked(
    runtime: RuntimeModel,
    request: EnsureNodeIdRequestModel,
    new_id: Seq<char>,
    timestamp: Seq<char>,
    kind: NodeKind,
)
    requires
        is_clean_path(request.relative_path),
        is_place_of(request.relative_path, kind),
        match request.parent_relative_path {
            None => components(request.relative_path).len() == steps_down(kind),
            Some(parent_path) => {
                &&& is_clean_path(parent_path)
                &&& is_place_of(parent_path, NodeKind::Parent)
                &&& parent_path != request.relative_path
                &&& is_right_below(request.relative_path, parent_path, kind)
                &&& runtime.node_row_at(request.plan_id, parent_path) matches Some(row)
                    && row.node_kind == "parent"@
            },
        },
        runtime.plan(request.plan_id) is Some,
        runtime.node_row_at(request.plan_id, request.relative_path) is None,
        runtime.node_row(request.plan_id, new_id) is None,
    ensures
        runtime.node_id_ensured(request, new_id, timestamp).1 matches Ok(answer) && answer.node_id
            == new_id,
{
    let path = request.relative_path;
    places_have_kinds("relative_path"@, path, kind);
    if let Some(parent_path) = request.parent_relative_path {
        places_have_kinds("parent_relative_path"@, parent_path, NodeKind::Parent);
        let directory = directory_components(parent_path);
        assert(components(parent_path).len() > 0);
        assert(components(parent_path)[components(parent_path).len() - 1] is Normal);
        assert(directory == components(parent_path).drop_last());
        assert(components(path).take(directory.len() as int) =~= directory) by {
            assert forall|j: int| 0 <= j < directory.len() implies #[trigger] components(
                path,
            ).take(directory.len() as int)[j] == directory[j] by {
                assert(components(path)[j] == directory[j]);
            }
        }
    }
}

/// A node that is tracked at the path, of its kind and with the parent that is
/// asked for, is answered.
pub proof fn tracked_nodes_are_answered(
    runtime: RuntimeModel,
    request: EnsureNodeIdRequestModel,
    new_id: Seq<char>,
    timestamp: Seq<char>,
    kind: NodeKind,
)
    requires
        is_clean_path(request.relative_path),
        is_place_of(request.relative_path, kind),
        runtime.node_row_at(request.plan_id, request.relative_path) is Some,
        runtime.node_row_at(request.plan_id, request.relative_path)->0.node_kind == match kind {
            NodeKind::Leaf => "leaf"@,
            NodeKind::Parent => "parent"@,
        },
        match request.parent_relative_path {
            None => {
                &&& components(request.relative_path).len() == steps_down(kind)
                &&& runtime.node_row_at(
                    request.plan_id,
                    request.relative_path,
                )->0.parent_node_id is None
            },
            Some(parent_path) => {
                &&& is_clean_path(parent_path)
                &&& is_place_of(parent_path, NodeKind::Parent)
                &&& parent_path != request.relative_path
                &&& is_right_below(request.relative_path, parent_path, kind)
                &&& runtime.node_row_at(request.plan_id, parent_path) matches Some(row)
                    && row.node_kind == "parent"@ && runtime.node_row_at(
                    request.plan_id,
                    request.relative_path,
                )->0.parent_node_id == Some(row.node_id)
            },
        },
    ensures
        runtime.node_id_ensured(request, new_id, timestamp).1 matches Ok(answer) && answer.node_id
            == runtime.node_row_at(request.plan_id, request.relative_path)->0.node_id,
{
    let path = request.relative_path;
    reveal_strlit("parent");
    reveal_strlit("leaf");
    assert("parent"@.len() != "leaf"@.len());
    places_have_kinds("relative_path"@, path, kind);
    if let Some(parent_path) = request.parent_relative_path {
        places_have_kinds("parent_relative_path"@, parent_path, NodeKind::Parent);
        let directory = directory_components(parent_path);
        assert(components(parent_path)[components(parent_path).len() - 1] is Normal);
        assert(directory == components(parent_path).drop_last());
        assert(components(path).take(directory.len() as int) =~= directory) by {
            assert forall|j: int| 0 <= j < directory.len() implies #[trigger] components(
                path,
            ).take(directory.len() as int)[j] == directory[j] by {
                assert(components(path)[j] == directory[j]);
            }
        }
    }
}

} // verus!
