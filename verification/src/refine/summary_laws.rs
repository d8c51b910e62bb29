//! What the summary of a rewrite tells: every change, and how many there are of
//! each kind.
use super::changes::{
    RefineChangedFileKind, RefineChangedFileModel, RefineStaleNodeModel,
    RefineStructuralChangeModel,
};
use super::decision::{ExpectedGateRevalidationModel, RefineDecisionModel};
use super::planning_laws::{
    entry_has_source, summary_tells_of_every_file_once, summary_tells_of_every_stale_node,
};
use super::rewrite::expected_targets_from;
use super::rewrite_types::{
    RefineRewriteErrorModel, RefineRewriteRequestModel, RefineRewriteResultModel,
};
use super::summary::{
    file_entry, frontier_target_count, leaf_target_count, stale_node_from, summary_of,
    RefineStaleNodeSummaryEntryModel, RefineStaleNodeSummaryKind,
};
use crate::files::PlanFilesModel;
use vstd::prelude::*;

verus! {

/// The kind of an entry is that of the change of its file.
pub open spec fn is_kind_of(
    summary: RefineStaleNodeSummaryKind,
    change: RefineChangedFileKind,
) -> bool {
    match change {
        RefineChangedFileKind::Created => summary == RefineStaleNodeSummaryKind::Created,
        RefineChangedFileKind::ExplicitlyRemoved => summary
            == RefineStaleNodeSummaryKind::ExplicitlyRemoved,
        RefineChangedFileKind::StaleMarked => summary == RefineStaleNodeSummaryKind::StaleMarked,
        RefineChangedFileKind::TextUpdated => false,
        RefineChangedFileKind::Regenerated => false,
    }
}

/// Stale node `k` is the first at the path.
pub open spec fn is_first_stale(
    nodes: Seq<RefineStaleNodeModel>,
    path: Seq<char>,
    k: int,
) -> bool {
    &&& 0 <= k < nodes.len()
    &&& nodes[k].relative_path == path
    &&& forall|j: int| 0 <= j < k ==> (#[trigger] nodes[j]).relative_path != path
}

/// The entry tells of the changed file, with the id and the reason of the stale
/// node at its path where the file has none of its own.
pub open spec fn is_entry_of_file(
    entry: RefineStaleNodeSummaryEntryModel,
    file: RefineChangedFileModel,
    nodes: Seq<RefineStaleNodeModel>,
) -> bool {
    &&& entry.relative_path == file.relative_path
    &&& is_kind_of(entry.summary_kind, file.change_kind)
    &&& file.node_id is Some ==> entry.node_id == file.node_id
    &&& forall|k: int| #[trigger]
        is_first_stale(nodes, file.relative_path, k) ==> entry.reason == Some(nodes[k].reason) && (
        file.node_id is None ==> entry.node_id == nodes[k].node_id)
    &&& (forall|k: int| !#[trigger] is_first_stale(nodes, file.relative_path, k))
        ==> entry.reason is None && entry.node_id == file.node_id
}

/// The entry tells of the stale node.
pub open spec fn is_entry_of_node(
    entry: RefineStaleNodeSummaryEntryModel,
    node: RefineStaleNodeModel,
) -> bool {
    &&& entry.relative_path == node.relative_path
    &&& entry.node_id == node.node_id
    &&& entry.summary_kind == RefineStaleNodeSummaryKind::StaleMarked
    &&& entry.reason == Some(node.reason)
}

proof fn first_stale_is_found(nodes: Seq<RefineStaleNodeModel>, path: Seq<char>, i: int)
    requires
        0 <= i <= nodes.len(),
        forall|j: int| 0 <= j < i ==> (#[trigger] nodes[j]).relative_path != path,
    ensures
        match stale_node_from(nodes, path, i) {
            Some(node) => forall|k: int| #[trigger]
                is_first_stale(nodes, path, k) ==> nodes[k] == node,
            None => forall|k: int| !#[trigger] is_first_stale(nodes, path, k),
        },
        stale_node_from(nodes, path, i) is Some ==> exists|k: int| #[trigger]
            is_first_stale(nodes, path, k),
    decreases nodes.len() - i,
{
    if i < nodes.len() {
        if nodes[i].relative_path == path {
            assert(is_first_stale(nodes, path, i));
            assert forall|k: int| #[trigger] is_first_stale(nodes, path, k) implies nodes[k]
                == nodes[i] by {
                if k < i {
                    assert(nodes[k].relative_path != path);
                } else if i < k {
                    assert(nodes[i].relative_path != path);
                }
            }
        } else {
            first_stale_is_found(nodes, path, i + 1);
        }
    } else {
        assert forall|k: int| !#[trigger] is_first_stale(nodes, path, k) by {
            if 0 <= k < nodes.len() {
                assert(nodes[k].relative_path != path);
            }
        }
    }
}

proof fn entries_are_of_files(
    file: RefineChangedFileModel,
    nodes: Seq<RefineStaleNodeModel>,
)
    ensures
        match file_entry(file, nodes) {
            Some(entry) => is_entry_of_file(entry, file, nodes),
            None => file.change_kind == RefineChangedFileKind::TextUpdated || file.change_kind
                == RefineChangedFileKind::Regenerated,
        },
{
    first_stale_is_found(nodes, file.relative_path, 0);
}

/// The number of leaves that the entries name, all together.
pub open spec fn leaves_named(targets: Seq<ExpectedGateRevalidationModel>) -> int {
    targets.fold_left(0int, |n: int, target: ExpectedGateRevalidationModel|
        n + target.leaf_targets.len())
}

/// The number of parents that the entries name, all together.
pub open spec fn parents_named(targets: Seq<ExpectedGateRevalidationModel>) -> int {
    targets.fold_left(0int, |n: int, target: ExpectedGateRevalidationModel|
        n + target.frontier_targets.len())
}

proof fn targets_are_counted(targets: Seq<ExpectedGateRevalidationModel>, n: int)
    requires
        0 <= n <= targets.len(),
    ensures
        leaf_target_count(targets, n) == leaves_named(targets.take(n)),
        frontier_target_count(targets, n) == parents_named(targets.take(n)),
    decreases n,
{
    if n > 0 {
        targets_are_counted(targets, n - 1);
        let more = targets.take(n);
        assert(more.drop_last() =~= targets.take(n - 1));
        assert(more.last() == targets[n - 1]);
    }
}

/// The number, unless it is too great to be held.
pub open spec fn is_count(held: usize, n: int) -> bool {
    if n <= usize::MAX {
        held == n
    } else {
        held == usize::MAX
    }
}

/// A summary holds what it is made of, and the number of each. It has an entry for
/// each file that was made, removed or marked and for each stale node, no other,
/// and none twice.
pub proof fn summaries_tell_every_change(
    files: Seq<RefineChangedFileModel>,
    structure: Seq<RefineStructuralChangeModel>,
    nodes: Seq<RefineStaleNodeModel>,
    targets: Seq<ExpectedGateRevalidationModel>,
    follow_ups: Seq<RefineDecisionModel>,
    contexts: usize,
    unchanged: usize,
)
    ensures
        ({
            let summary = summary_of(
                files,
                structure,
                nodes,
                targets,
                follow_ups,
                contexts,
                unchanged,
            );
            let entries = summary.stale_node_summary_entries;
            &&& summary.changed_files == files
            &&& summary.structural_changes == structure
            &&& summary.expected_gate_targets == targets
            &&& summary.unresolved_follow_ups == follow_ups
            &&& files.len() <= usize::MAX ==> summary.changed_file_count == files.len()
            &&& structure.len() <= usize::MAX ==> summary.structural_change_count
                == structure.len()
            &&& entries.len() <= usize::MAX ==> summary.stale_node_count == entries.len()
            &&& summary.context_invalidation_count == contexts
            &&& summary.unchanged_node_count == unchanged
            &&& follow_ups.len() <= usize::MAX ==> summary.unresolved_follow_up_count
                == follow_ups.len()
            &&& is_count(summary.expected_leaf_gate_target_count, leaves_named(targets))
            &&& is_count(summary.expected_frontier_gate_target_count, parents_named(targets))
            &&& entries.no_duplicates()
            &&& forall|k: int|
                0 <= k < files.len() && (#[trigger] files[k]).change_kind
                    != RefineChangedFileKind::TextUpdated && files[k].change_kind
                    != RefineChangedFileKind::Regenerated ==> exists|e: int|
                    0 <= e < entries.len() && is_entry_of_file(
                        #[trigger] entries[e],
                        files[k],
                        nodes,
                    )
            &&& forall|k: int|
                0 <= k < nodes.len() ==> exists|e: int|
                    0 <= e < entries.len() && (#[trigger] entries[e]).relative_path == (
                    #[trigger] nodes[k]).relative_path
            &&& forall|e: int|
                0 <= e < entries.len() ==> is_entry_of_some(#[trigger] entries[e], files, nodes)
        }),
{
    let summary = summary_of(files, structure, nodes, targets, follow_ups, contexts, unchanged);
    let entries = summary.stale_node_summary_entries;
    summary_tells_of_every_file_once(files, nodes);
    summary_tells_of_every_stale_node(files, nodes);
    targets_are_counted(targets, targets.len() as int);
    assert(targets.take(targets.len() as int) =~= targets);
    assert forall|k: int|
        0 <= k < files.len() && (#[trigger] files[k]).change_kind
            != RefineChangedFileKind::TextUpdated && files[k].change_kind
            != RefineChangedFileKind::Regenerated implies exists|e: int|
        0 <= e < entries.len() && is_entry_of_file(#[trigger] entries[e], files[k], nodes) by {
        entries_are_of_files(files[k], nodes);
        let entry = file_entry(files[k], nodes)->0;
        assert(entries.contains(entry));
        let e = choose|e: int| 0 <= e < entries.len() && entries[e] == entry;
        assert(is_entry_of_file(entries[e], files[k], nodes));
    }
    assert forall|k: int| 0 <= k < nodes.len() implies exists|e: int|
        0 <= e < entries.len() && (#[trigger] entries[e]).relative_path == (
        #[trigger] nodes[k]).relative_path by {
        assert(super::summary::has_entry(entries, nodes[k].relative_path));
    }
    assert forall|e: int| 0 <= e < entries.len() implies is_entry_of_some(
        #[trigger] entries[e],
        files,
        nodes,
    ) by {
        let entry = entries[e];
        assert(entry_has_source(entry, files, nodes));
        if exists|k: int|
            0 <= k < files.len() && file_entry(#[trigger] files[k], nodes) == Some(entry) {
            let k = choose|k: int|
                0 <= k < files.len() && file_entry(#[trigger] files[k], nodes) == Some(entry);
            entries_are_of_files(files[k], nodes);
            assert(is_entry_of_file(entry, files[k], nodes));
        }
    }
}

/// The entry tells of one of the files or of one of the nodes.
pub open spec fn is_entry_of_some(
    entry: RefineStaleNodeSummaryEntryModel,
    files: Seq<RefineChangedFileModel>,
    nodes: Seq<RefineStaleNodeModel>,
) -> bool {
    ||| exists|k: int|
        0 <= k < files.len() && is_entry_of_file(entry, #[trigger] files[k], nodes)
    ||| exists|k: int| 0 <= k < nodes.len() && is_entry_of_node(entry, #[trigger] nodes[k])
}

proof fn expected_targets_are_flat(
    decisions: Seq<RefineDecisionModel>,
    i: int,
    acc: Seq<ExpectedGateRevalidationModel>,
)
    requires
        0 <= i <= decisions.len(),
        acc == decisions.take(i).map_values(
            |decision: RefineDecisionModel| decision.expected_gate_revalidation,
        ).flatten(),
    ensures
        expected_targets_from(decisions, i, acc) == decisions.map_values(
            |decision: RefineDecisionModel| decision.expected_gate_revalidation,
        ).flatten(),
    decreases decisions.len() - i,
{
    let f = |decision: RefineDecisionModel| decision.expected_gate_revalidation;
    if i < decisions.len() {
        let before = decisions.take(i).map_values(f);
        let after = decisions.take(i + 1).map_values(f);
        assert(after =~= before.push(decisions[i].expected_gate_revalidation));
        before.lemma_flatten_push(decisions[i].expected_gate_revalidation);
        expected_targets_are_flat(
            decisions,
            i + 1,
            acc + decisions[i].expected_gate_revalidation,
        );
    } else {
        assert(decisions.take(i) =~= decisions);
    }
}

/// An accepted rewrite expects the gates that its decisions expect, one decision
/// after the other, and its summary is that of what it tells.
pub proof fn accepted_rewrites_are_summed_up(
    request: RefineRewriteRequestModel,
    files: PlanFilesModel,
    result: RefineRewriteResultModel,
)
    requires
        request.applied(files).1 == Ok::<_, RefineRewriteErrorModel>(result),
    ensures
        result.expected_gate_targets == request.decisions.map_values(
            |decision: RefineDecisionModel| decision.expected_gate_revalidation,
        ).flatten(),
        result.summary == summary_of(
            result.changed_files,
            result.structural_changes,
            result.stale_nodes,
            result.expected_gate_targets,
            request.blocked_follow_ups,
            result.context_invalidations.len() as usize,
            result.unchanged_nodes.len() as usize,
        ),
{
    let f = |decision: RefineDecisionModel| decision.expected_gate_revalidation;
    let none = request.decisions.take(0).map_values(f);
    assert(none =~= Seq::empty());
    assert(none.flatten() =~= Seq::empty());
    expected_targets_are_flat(request.decisions, 0, Seq::empty());
}

} // verus!
