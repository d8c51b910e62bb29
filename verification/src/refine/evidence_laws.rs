//! What a review is of: the content that its fingerprint stands for, and the
//! children that a changed parent has to have.
use super::execution_types::RunRefineGateRevalidationRequestModel;
use super::gate_execution::{
    children_by_id, children_bytes_from, frontier_fingerprint_of, leaf_fingerprint_of,
};
use super::registration_types::RegisteredRefineFrontierTargetModel;
use crate::api::{
    InspectNodeRequestModel, ListChildrenResponseModel, NodeSummaryModel,
};
use crate::digest::fingerprint;
use crate::files::PlanFilesModel;
use crate::paths::is_plan_markdown;
use crate::runtime::child_links::child_link_paths;
use crate::runtime::store::RuntimeModel;
use vstd::prelude::*;
use vstd::utf8::encode_utf8;

verus! {

/// The fingerprint of a leaf stands for its path and for every byte of its file; it
/// can be taken exactly where the file can be read.
pub proof fn leaf_fingerprints_stand_for_the_file(files: PlanFilesModel, path: Seq<char>)
    ensures
        leaf_fingerprint_of(files, path) is Ok <==> is_plan_markdown(path) && files.read_bytes(
            path,
        ) is Ok,
        leaf_fingerprint_of(files, path) matches Ok(taken) ==> taken == fingerprint(
            encode_utf8("leaf\0"@ + path + "\0"@) + files.read_bytes(path)->Ok_0,
        ),
{
}

/// What the fingerprint of a parent holds of one child: its path and its bytes,
/// where its file is there.
pub open spec fn child_evidence(files: PlanFilesModel, child: NodeSummaryModel) -> Seq<u8> {
    if files.is_present(child.relative_path) {
        encode_utf8("child\0"@ + child.relative_path + "\0"@) + files.read_bytes(
            child.relative_path,
        )->Ok_0
    } else {
        Seq::empty()
    }
}

/// What the fingerprint of a parent holds of its children, one after the other.
pub open spec fn children_evidence(
    files: PlanFilesModel,
    children: Seq<NodeSummaryModel>,
) -> Seq<u8> {
    children.map_values(|child: NodeSummaryModel| child_evidence(files, child)).flatten()
}

/// The child is at a path of the plan, and its file can be read where it is there.
pub open spec fn is_readable_child(files: PlanFilesModel, child: NodeSummaryModel) -> bool {
    &&& is_plan_markdown(child.relative_path)
    &&& files.is_present(child.relative_path) ==> files.read_bytes(child.relative_path) is Ok
}

proof fn children_are_gathered(
    files: PlanFilesModel,
    children: Seq<NodeSummaryModel>,
    i: int,
    first: Seq<u8>,
    acc: Seq<u8>,
)
    requires
        0 <= i <= children.len(),
        acc == first + children_evidence(files, children.take(i)),
        forall|k: int| 0 <= k < i ==> is_readable_child(files, #[trigger] children[k]),
    ensures
        match children_bytes_from(files, children, i, acc) {
            Ok(all) => all == first + children_evidence(files, children) && forall|k: int|
                0 <= k < children.len() ==> is_readable_child(files, #[trigger] children[k]),
            Err(_) => exists|k: int|
                0 <= k < children.len() && !is_readable_child(files, #[trigger] children[k]),
        },
    decreases children.len() - i,
{
    let f = |child: NodeSummaryModel| child_evidence(files, child);
    if i < children.len() {
        let child = children[i];
        let before = children.take(i).map_values(f);
        let after = children.take(i + 1).map_values(f);
        assert(after =~= before.push(child_evidence(files, child)));
        before.lemma_flatten_push(child_evidence(files, child));
        if is_readable_child(files, child) {
            if files.is_present(child.relative_path) {
                let bytes = files.read_bytes(child.relative_path)->Ok_0;
                let more = acc + encode_utf8("child\0"@ + child.relative_path + "\0"@) + bytes;
                assert(more =~= first + children_evidence(files, children.take(i + 1)));
                children_are_gathered(files, children, i + 1, first, more);
            } else {
                assert(acc =~= first + children_evidence(files, children.take(i + 1)));
                children_are_gathered(files, children, i + 1, first, acc);
            }
        } else {
            assert(!is_readable_child(files, children[i]));
        }
    } else {
        assert(children.take(i) =~= children);
    }
}

/// The fingerprint of a parent stands for its path, for every byte of its file, and
/// for the paths and the files of all its children.
pub proof fn frontier_fingerprints_stand_for_the_children(
    runtime: RuntimeModel,
    files: PlanFilesModel,
    plan_id: Seq<char>,
    target: RegisteredRefineFrontierTargetModel,
)
    ensures
        ({
            let path = target.parent_relative_path;
            let listing = runtime.children_listing(
                children_by_id(plan_id, target.parent_node_id),
            );
            let taken = frontier_fingerprint_of(runtime, files, plan_id, target);
            &&& taken is Ok <==> is_plan_markdown(path) && files.read_bytes(path) is Ok && listing
                is Ok && forall|k: int|
                0 <= k < listing->Ok_0.children.len() ==> is_readable_child(
                    files,
                    #[trigger] listing->Ok_0.children[k],
                )
            &&& taken matches Ok(text) ==> text == fingerprint(
                encode_utf8("frontier\0"@ + path + "\0"@) + files.read_bytes(path)->Ok_0
                    + children_evidence(files, listing->Ok_0.children),
            )
        }),
{
    let path = target.parent_relative_path;
    if let Ok(listing) = runtime.children_listing(
        children_by_id(plan_id, target.parent_node_id),
    ) {
        let f = |child: NodeSummaryModel| child_evidence(files, child);
        let first = encode_utf8("frontier\0"@ + path + "\0"@) + files.read_bytes(path)->Ok_0;
        assert(listing.children.take(0).map_values(f) =~= Seq::empty());
        assert(listing.children.take(0).map_values(f).flatten() =~= Seq::empty());
        assert(first + children_evidence(files, listing.children.take(0)) =~= first);
        children_are_gathered(files, listing.children, 0, first, first);
    }
}

/// The children that the runtime lists hold one at the path.
pub open spec fn lists_child(listing: ListChildrenResponseModel, path: Seq<char>) -> bool {
    exists|i: int|
        0 <= i < listing.children.len() && (#[trigger] listing.children[i]).relative_path == path
}

/// A changed child is settled: the parent links it and the runtime lists it below
/// the parent; or neither is so, and the runtime still knows it.
pub open spec fn is_settled_child(
    runtime: RuntimeModel,
    plan_id: Seq<char>,
    links: Seq<Seq<char>>,
    listing: ListChildrenResponseModel,
    child: Seq<char>,
) -> bool {
    &&& is_plan_markdown(child)
    &&& links.contains(child) == lists_child(listing, child)
    &&& links.contains(child) || runtime.inspection(
        (InspectNodeRequestModel { plan_id, node_id: None, relative_path: Some(child) }),
    ) is Ok
}

proof fn children_are_settled(
    request: RunRefineGateRevalidationRequestModel,
    runtime: RuntimeModel,
    links: Seq<Seq<char>>,
    listing: ListChildrenResponseModel,
    children: Seq<Seq<char>>,
    i: int,
)
    requires
        0 <= i <= children.len(),
    ensures
        request.changed_children_problem_from(runtime, links, listing, children, i) is None
            <==> forall|k: int|
            i <= k < children.len() ==> is_settled_child(
                runtime,
                request.plan_id,
                links,
                listing,
                #[trigger] children[k],
            ),
    decreases children.len() - i,
{
    if i < children.len() {
        children_are_settled(request, runtime, links, listing, children, i + 1);
        assert(request.changed_child_problem(runtime, links, listing, children[i]) is None
            <==> is_settled_child(runtime, request.plan_id, links, listing, children[i]));
    }
}

/// A frontier target does only where its links can be read and each of its changed
/// children is settled.
pub proof fn changed_children_are_settled(
    request: RunRefineGateRevalidationRequestModel,
    runtime: RuntimeModel,
    files: PlanFilesModel,
    k: int,
)
    requires
        0 <= k < request.registered_targets.frontier_targets.len(),
        request.targets_problem(runtime, files) is None,
    ensures
        ({
            let target = request.registered_targets.frontier_targets[k];
            let path = target.parent_relative_path;
            &&& files.read(path) matches Ok(markdown) && (child_link_paths(path, markdown) matches Ok(
                links,
            ) && (runtime.children_listing(
                children_by_id(request.plan_id, target.parent_node_id),
            ) matches Ok(listing) && forall|c: int|
                0 <= c < target.changed_child_relative_paths.len() ==> is_settled_child(
                    runtime,
                    request.plan_id,
                    links,
                    listing,
                    #[trigger] target.changed_child_relative_paths[c],
                )))
        }),
{
    each_frontier_does(request, runtime, files, 0, k);
    let target = request.registered_targets.frontier_targets[k];
    let path = target.parent_relative_path;
    let links = child_link_paths(path, files.read(path)->Ok_0)->Ok_0;
    let listing = runtime.children_listing(
        children_by_id(request.plan_id, target.parent_node_id),
    )->Ok_0;
    children_are_settled(
        request,
        runtime,
        links,
        listing,
        target.changed_child_relative_paths,
        0,
    );
}

proof fn each_frontier_does(
    request: RunRefineGateRevalidationRequestModel,
    runtime: RuntimeModel,
    files: PlanFilesModel,
    i: int,
    k: int,
)
    requires
        0 <= i <= k < request.registered_targets.frontier_targets.len(),
        request.frontier_targets_problem_from(runtime, files, i) is None,
    ensures
        request.frontier_target_problem(runtime, files, k) is None,
    decreases k - i,
{
    if i < k {
        each_frontier_does(request, runtime, files, i + 1, k);
    }
}

} // verus!
