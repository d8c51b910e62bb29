//! What following the links of a parent asks of the parent, of its file and of the
//! children that it links.
use super::child_links::child_link_paths;
use super::ensuring_laws::{is_clean_path, is_place_of, is_right_below, kinds_follow_places};
use super::laws::{node_at_is_found, node_is_found};
use super::node_paths::directory_components;
use super::store::{GatePlanContextModel, NodeRecordModel, RuntimeModel};
use crate::api::{NodeKind, ReconcileParentChildLinksRequestModel};
use crate::error::PlanErrorModel;
use crate::files::PlanFilesModel;
use crate::paths::components;
use vstd::prelude::*;

verus! {

proof fn each_link_is_found(
    runtime: RuntimeModel,
    files: PlanFilesModel,
    plan: GatePlanContextModel,
    plan_id: Seq<char>,
    parent: NodeRecordModel,
    links: Seq<Seq<char>>,
    i: int,
    acc: Seq<NodeRecordModel>,
)
    requires
        0 <= i <= links.len(),
        acc.len() == i,
        forall|k: int|
            0 <= k < i ==> runtime.linked_child(files, plan, plan_id, parent, links[k]) == Ok::<
                _,
                PlanErrorModel,
            >(#[trigger] acc[k]),
    ensures
        runtime.linked_children_from(files, plan, plan_id, parent, links, i, acc) matches Ok(found)
            ==> found.len() == links.len() && forall|k: int|
            0 <= k < links.len() ==> runtime.linked_child(
                files,
                plan,
                plan_id,
                parent,
                links[k],
            ) == Ok::<_, PlanErrorModel>(#[trigger] found[k]),
    decreases links.len() - i,
{
    if i < links.len() {
        if let Ok(child) = runtime.linked_child(files, plan, plan_id, parent, links[i]) {
            each_link_is_found(
                runtime,
                files,
                plan,
                plan_id,
                parent,
                links,
                i + 1,
                acc.push(child),
            );
        }
    }
}

proof fn each_child_is_free(
    runtime: RuntimeModel,
    files: PlanFilesModel,
    plan: GatePlanContextModel,
    plan_id: Seq<char>,
    parent: NodeRecordModel,
    children: Seq<NodeRecordModel>,
    i: int,
)
    requires
        0 <= i <= children.len(),
        runtime.still_linked_from(files, plan, plan_id, parent, children, i) is None,
    ensures
        forall|k: int|
            i <= k < children.len() ==> runtime.still_linked_problem(
                files,
                plan,
                plan_id,
                parent,
                #[trigger] children[k],
            ) is None,
    decreases children.len() - i,
{
    if i < children.len() {
        each_child_is_free(runtime, files, plan, plan_id, parent, children, i + 1);
    }
}

/// The child is remembered at the path, its file is there, and it stands right below
/// the parent.
pub open spec fn is_fit_child(
    runtime: RuntimeModel,
    files: PlanFilesModel,
    plan_id: Seq<char>,
    parent_path: Seq<char>,
    path: Seq<char>,
    m: int,
) -> bool {
    &&& 0 <= m < runtime.nodes.len()
    &&& runtime.nodes[m].plan_id == plan_id
    &&& runtime.nodes[m].relative_path == path
    &&& files.is_file(path)
    &&& exists|kind: NodeKind| #[trigger]
        is_place_of(path, kind) && is_right_below(path, parent_path, kind)
}

/// The child has no other parent, or one whose file does not link it.
pub open spec fn is_free_child(
    runtime: RuntimeModel,
    files: PlanFilesModel,
    plan_id: Seq<char>,
    parent_node_id: Seq<char>,
    m: int,
) -> bool {
    let row = runtime.nodes[m];
    ||| row.parent_node_id is None
    ||| row.parent_node_id == Some(parent_node_id)
    ||| exists|n: int|
        0 <= n < runtime.nodes.len() && (#[trigger] runtime.nodes[n]).plan_id == plan_id
            && runtime.nodes[n].node_id == row.parent_node_id->0 && (files.read(
            runtime.nodes[n].relative_path,
        ) matches Ok(markdown) && (child_link_paths(
            runtime.nodes[n].relative_path,
            markdown,
        ) matches Ok(links) && !links.contains(row.relative_path)))
}

/// The child at the path can be linked by the parent.
pub open spec fn can_be_linked(
    runtime: RuntimeModel,
    files: PlanFilesModel,
    plan_id: Seq<char>,
    parent_path: Seq<char>,
    parent_node_id: Seq<char>,
    path: Seq<char>,
) -> bool {
    exists|m: int| #[trigger]
        is_fit_child(runtime, files, plan_id, parent_path, path, m) && is_free_child(
            runtime,
            files,
            plan_id,
            parent_node_id,
            m,
        )
}

/// Links are followed for a parent that is remembered at the path. They are those of
/// its file, and each leads to a child that is remembered, has a file, stands right
/// below the parent, and is not linked by another parent that it has.
pub proof fn followed_links_are_those_of_the_file(
    runtime: RuntimeModel,
    files: PlanFilesModel,
    request: ReconcileParentChildLinksRequestModel,
    timestamp: Seq<char>,
)
    ensures
        runtime.links_reconciled(files, request, timestamp).1 matches Ok(answer) ==> {
            let path = request.parent_relative_path;
            let links = answer.linked_child_relative_paths;
            &&& answer.parent_relative_path == path
            &&& is_clean_path(path)
            &&& is_place_of(path, NodeKind::Parent)
            &&& exists|m: int|
                0 <= m < runtime.nodes.len() && (#[trigger] runtime.nodes[m]).plan_id
                    == request.plan_id && runtime.nodes[m].relative_path == path
                    && runtime.nodes[m].node_id == answer.parent_node_id
                    && runtime.nodes[m].node_kind == "parent"@
            &&& files.read(path) matches Ok(markdown) && child_link_paths(path, markdown) == Ok::<
                _,
                PlanErrorModel,
            >(links)
            &&& forall|k: int|
                0 <= k < links.len() ==> can_be_linked(
                    runtime,
                    files,
                    request.plan_id,
                    path,
                    answer.parent_node_id,
                    #[trigger] links[k],
                )
        },
{
    if let Ok(answer) = runtime.links_reconciled(files, request, timestamp).1 {
        let plan_id = request.plan_id;
        let path = request.parent_relative_path;
        let (plan, parent, links) = runtime.reconciled_parent(files, request)->Ok_0;
        let children = runtime.linked_children_from(
            files,
            plan,
            plan_id,
            parent,
            links,
            0,
            Seq::empty(),
        )->Ok_0;
        kinds_follow_places("parent_relative_path"@, path);
        node_at_is_found(runtime.nodes, plan_id, path, 0);
        let row = runtime.node_row_at(plan_id, path)->0;
        let p = choose|p: int| 0 <= p < runtime.nodes.len() && #[trigger] runtime.nodes[p] == row;
        assert(runtime.nodes[p].relative_path == path);
        each_link_is_found(runtime, files, plan, plan_id, parent, links, 0, Seq::empty());
        each_child_is_free(runtime, files, plan, plan_id, parent, children, 0);
        assert forall|k: int| 0 <= k < links.len() implies can_be_linked(
            runtime,
            files,
            plan_id,
            path,
            answer.parent_node_id,
            #[trigger] links[k],
        ) by {
            let child = children[k];
            let kind = super::node_paths::node_path_kind("child_relative_path"@, links[k])->Ok_0;
            kinds_follow_places("child_relative_path"@, links[k]);
            node_at_is_found(runtime.nodes, plan_id, links[k], 0);
            let child_row = runtime.node_row_at(plan_id, links[k])->0;
            let m = choose|m: int|
                0 <= m < runtime.nodes.len() && #[trigger] runtime.nodes[m] == child_row;
            let directory = directory_components(path);
            assert(directory == components(path).drop_last());
            assert forall|j: int| 0 <= j < directory.len() implies #[trigger] components(
                links[k],
            )[j] == directory[j] by {
                assert(components(links[k]).take(directory.len() as int)[j] == directory[j]);
            }
            assert(is_right_below(links[k], path, kind));
            assert(is_fit_child(runtime, files, plan_id, path, links[k], m));
            assert(runtime.still_linked_problem(files, plan, plan_id, parent, children[k])
                is None);
            if let Some(other) = child.parent_node_id {
                if other != parent.node_id {
                    node_is_found(runtime.nodes, plan_id, other, 0);
                    let other_row = runtime.node_row(plan_id, other)->0;
                    let n = choose|n: int|
                        0 <= n < runtime.nodes.len() && #[trigger] runtime.nodes[n] == other_row;
                    assert(runtime.nodes[n].node_id == other);
                }
            }
            assert(is_free_child(runtime, files, plan_id, answer.parent_node_id, m));
        }
    }
}

} // verus!
