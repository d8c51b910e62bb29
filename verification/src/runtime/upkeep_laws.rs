//! How what older rows do not hold is filled in, and which children fit their parent.
use super::ensuring_laws::{has_stem, is_right_below};
use super::laws::plan_is_found;
use super::node_paths::directory_components;
use super::plans::{backfilled_plan, backfilled_row, inferred_kind};
use super::query::incoherent_child_from;
use super::store::{NodeRecordModel, NodeRowModel, PlanRowModel};
use crate::paths::{components, file_name, parent_name};
use crate::text::{before_suffix, closes_with};
use vstd::prelude::*;

verus! {

/// A parent stands at the path: at the top under the name of the plan, or in the
/// directory of its own name.
pub open spec fn is_told_parent(path: Seq<char>, plan_name: Seq<char>, stem: Seq<char>) -> bool {
    (components(path).len() == 1 && stem == plan_name) || parent_name(path) == Some(stem)
}

proof fn kinds_are_told_by_paths(path: Seq<char>, plan_name: Seq<char>)
    ensures
        forall|stem: Seq<char>| #[trigger]
            has_stem(path, stem) ==> inferred_kind(path, plan_name) == Some(
                if is_told_parent(path, plan_name, stem) {
                    "parent"@
                } else {
                    "leaf"@
                },
            ),
        (forall|stem: Seq<char>| !#[trigger] has_stem(path, stem)) ==> inferred_kind(
            path,
            plan_name,
        ) is None,
{
    reveal_strlit(".md");
    assert forall|stem: Seq<char>| #[trigger] has_stem(path, stem) implies inferred_kind(
        path,
        plan_name,
    ) == Some(
        if is_told_parent(path, plan_name, stem) {
            "parent"@
        } else {
            "leaf"@
        },
    ) by {
        let name = file_name(path)->0;
        assert(name.subrange(name.len() - ".md"@.len(), name.len() as int) =~= ".md"@);
        assert(closes_with(name, ".md"@));
        assert(name.take(name.len() - ".md"@.len()) =~= stem);
    }
    if inferred_kind(path, plan_name) is Some {
        let name = file_name(path)->0;
        let stem = before_suffix(name, ".md"@)->0;
        assert(name =~= stem + ".md"@);
        assert(has_stem(path, stem));
    }
}

/// A row whose plan is remembered gets the kind that its path tells where it holds
/// none, or where it holds the root of the plan for a leaf; every other row, and all
/// else of this one, stays as it is.
pub proof fn kinds_are_filled_in_from_paths(
    row: NodeRowModel,
    plans: Seq<PlanRowModel>,
    stem: Seq<char>,
)
    ensures
        ({
            let filled = backfilled_row(row, plans);
            let known = row.node_kind == "parent"@ || row.node_kind == "leaf"@;
            &&& filled.plan_id == row.plan_id
            &&& filled.node_id == row.node_id
            &&& filled.relative_path == row.relative_path
            &&& filled.node_name == row.node_name
            &&& filled.parent_node_id == row.parent_node_id
            &&& filled.created_at == row.created_at
            &&& filled.updated_at == row.updated_at
            &&& row.node_kind == "parent"@ ==> filled == row
            &&& (forall|k: int|
                0 <= k < plans.len() ==> (#[trigger] plans[k]).plan_id != row.plan_id) ==> filled
                == row
            &&& super::query::plan_from(plans, row.plan_id, 0) matches Some(plan) ==> {
                &&& row.node_kind == "leaf"@ && row.relative_path != plan.plan_name + ".md"@
                    ==> filled == row
                &&& has_stem(row.relative_path, stem) && (!known || (row.node_kind == "leaf"@
                    && row.relative_path == plan.plan_name + ".md"@)) ==> filled.node_kind
                    == if is_told_parent(row.relative_path, plan.plan_name, stem) {
                    "parent"@
                } else {
                    "leaf"@
                }
            }
        }),
{
    reveal_strlit("parent");
    reveal_strlit("leaf");
    assert("parent"@.len() != "leaf"@.len());
    plan_is_found(plans, row.plan_id, 0);
    if let Some(plan) = super::query::plan_from(plans, row.plan_id, 0) {
        kinds_are_told_by_paths(row.relative_path, plan.plan_name);
    }
}

/// A plan without a project directory gets its workspace, marked as filled in; every
/// other plan stays as it is.
pub proof fn project_directories_are_filled_in(plan: PlanRowModel)
    ensures
        plan.project_directory.len() > 0 ==> backfilled_plan(plan) == plan,
        plan.project_directory.len() == 0 ==> {
            let filled = backfilled_plan(plan);
            &&& filled.project_directory == plan.workspace_root
            &&& filled.project_directory_source == "backfilled_legacy"@
            &&& filled.plan_id == plan.plan_id
            &&& filled.workspace_root == plan.workspace_root
            &&& filled.plan_name == plan.plan_name
            &&& filled.plan_root == plan.plan_root
            &&& filled.task_type == plan.task_type
            &&& filled.plan_status == plan.plan_status
            &&& filled.created_at == plan.created_at
            &&& filled.updated_at == plan.updated_at
        },
{
}

/// The children of a parent fit it exactly where each of them stands right below it.
pub proof fn fitting_children_stand_right_below(
    children: Seq<NodeRecordModel>,
    parent_path: Seq<char>,
    i: int,
)
    requires
        0 <= i <= children.len(),
        components(parent_path).len() > 0,
        components(parent_path).last() is Normal,
    ensures
        incoherent_child_from(children, parent_path, i) is None <==> forall|k: int|
            i <= k < children.len() ==> is_right_below(
                (#[trigger] children[k]).relative_path,
                parent_path,
                children[k].node_kind,
            ),
    decreases children.len() - i,
{
    if i < children.len() {
        fitting_children_stand_right_below(children, parent_path, i + 1);
        let path = children[i].relative_path;
        let directory = directory_components(parent_path);
        assert(directory == components(parent_path).drop_last());
        if is_right_below(path, parent_path, children[i].node_kind) {
            assert(components(path).take(directory.len() as int) =~= directory) by {
                assert forall|j: int| 0 <= j < directory.len() implies #[trigger] components(
                    path,
                ).take(directory.len() as int)[j] == directory[j] by {
                    assert(components(path)[j] == directory[j]);
                }
            }
        }
        if super::node_paths::direct_child_problem(
            path,
            parent_path,
            children[i].node_kind,
        ) is None {
            assert forall|j: int| 0 <= j < directory.len() implies #[trigger] components(path)[j]
                == directory[j] by {
                assert(components(path).take(directory.len() as int)[j] == directory[j]);
            }
            assert(is_right_below(path, parent_path, children[i].node_kind));
        }
    }
}

} // verus!
