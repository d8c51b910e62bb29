//! What holds of every plan to refine: from comments to decisions, and from
//! decisions to what is rewritten and what is told of it.
use super::changes::{RefineChangedFileModel, RefineStaleNodeModel};
use super::decision::{RefineDecisionModel, RefineRewriteActionModel};
use super::impact::{
    impact_of, mapping_issues_from, RefineImpactAnalysisRequestModel, RefineImpactCategory,
    RefineImpactMappingIssueModel,
};
use super::rewrite_types::{
    RefineRewriteErrorModel, RefineRewriteRequestModel, RefineRewriteResultModel,
};
use super::scope::{is_unconfirmed, RefineRewriteScopeModel};
use super::summary::{
    file_entries_from, file_entry, has_entry, node_entries_from, summary_entries,
    summary_entries_are_distinct, RefineStaleNodeSummaryEntryModel, RefineStaleNodeSummaryKind,
};
use crate::files::PlanFilesModel;
use vstd::prelude::*;

verus! {

// ---------------------------------------------------------------------
// Decisions
// ---------------------------------------------------------------------
/// How many of the comments from `i` on stand in a file that is not known.
pub open spec fn unknown_count(request: RefineImpactAnalysisRequestModel, i: int) -> nat
    decreases request.comments.len() - i,
{
    if i >= request.comments.len() {
        0
    } else {
        unknown_count(request, i + 1) + (if request.known_node_paths.contains(
            request.comments[i].source_path,
        ) {
            0nat
        } else {
            1nat
        })
    }
}

proof fn issues_are_counted(
    request: RefineImpactAnalysisRequestModel,
    i: int,
    acc: Seq<RefineImpactMappingIssueModel>,
)
    requires
        0 <= i <= request.comments.len(),
    ensures
        mapping_issues_from(request, i, acc).len() == acc.len() + unknown_count(request, i),
    decreases request.comments.len() - i,
{
    if i < request.comments.len() {
        if request.known_node_paths.contains(request.comments[i].source_path) {
            issues_are_counted(request, i + 1, acc);
        } else {
            let more = mapping_issues_from(request, i, acc);
            issues_are_counted(
                request,
                i + 1,
                acc.push(
                    RefineImpactMappingIssueModel {
                        source_path: request.comments[i].source_path,
                        category: RefineImpactCategory::AmbiguousMapping,
                        message:
                            "comment source path is not present in the known tracked node paths"@,
                    },
                ),
            );
            assert(more.len() == acc.len() + unknown_count(request, i));
        }
    }
}

/// Every comment has its decision, one for one. A decision waits for the user
/// exactly where the file of its comment is not known, and there are as many
/// issues as decisions that wait.
pub proof fn every_comment_has_its_decision(request: RefineImpactAnalysisRequestModel)
    ensures
        impact_of(request).decisions.len() == request.comments.len(),
        forall|k: int|
            0 <= k < request.comments.len() ==> (
            #[trigger] impact_of(request).decisions[k]).source_comments == seq![
                request.comments[k],
            ] && (is_unconfirmed(impact_of(request).decisions[k].confirmation.status)
                <==> !request.known_node_paths.contains(request.comments[k].source_path)),
        impact_of(request).mapping_issues.len() == unknown_count(request, 0),
{
    issues_are_counted(request, 0, Seq::empty());
}

proof fn waiting_decision_stops_planning(
    scope: RefineRewriteScopeModel,
    decisions: Seq<RefineDecisionModel>,
    i: int,
    waiting: int,
)
    requires
        0 <= i <= waiting < decisions.len(),
        is_unconfirmed(decisions[waiting].confirmation.status),
    ensures
        scope.with_decisions_from(decisions, i) is Err,
    decreases decisions.len() - i,
{
    if !is_unconfirmed(decisions[i].confirmation.status) {
        if let Ok(next) = scope.with_actions_from(decisions[i].rewrite_actions, 0) {
            waiting_decision_stops_planning(next, decisions, i + 1, waiting);
        }
    }
}

/// Nothing is planned and nothing is written as long as one decision is not
/// cleared.
pub proof fn waiting_decisions_stop_the_rewrite(
    scope: RefineRewriteScopeModel,
    request: RefineRewriteRequestModel,
    files: PlanFilesModel,
    waiting: int,
)
    requires
        0 <= waiting < request.decisions.len(),
        is_unconfirmed(request.decisions[waiting].confirmation.status),
    ensures
        scope.with_decisions_from(request.decisions, 0) is Err,
        request.applied(files) == (
            files,
            Err::<RefineRewriteResultModel, RefineRewriteErrorModel>(
                RefineRewriteErrorModel::UnauthorizedDecision,
            ),
        ),
{
    waiting_decision_stops_planning(scope, request.decisions, 0, waiting);
}

/// A comment whose file is not known stops the plan that is made of the
/// analysis.
pub proof fn unknown_files_stop_the_plan(
    request: RefineImpactAnalysisRequestModel,
    comment: int,
)
    requires
        0 <= comment < request.comments.len(),
        !request.known_node_paths.contains(request.comments[comment].source_path),
    ensures
        RefineRewriteScopeModel::empty().with_decisions_from(impact_of(request).decisions, 0)
            is Err,
{
    waiting_decision_stops_planning(
        RefineRewriteScopeModel::empty(),
        impact_of(request).decisions,
        0,
        comment,
    );
}

// ---------------------------------------------------------------------
// Scope
// ---------------------------------------------------------------------
/// How many things the scope touches.
pub open spec fn scope_size(scope: RefineRewriteScopeModel) -> nat {
    scope.rewrite_targets.len() + scope.node_creations.len() + scope.node_removals.len()
        + scope.link_changes.len()
}

/// How many actions the decisions from `i` on ask for.
pub open spec fn action_count(decisions: Seq<RefineDecisionModel>, i: int) -> nat
    decreases decisions.len() - i,
{
    if i >= decisions.len() {
        0
    } else {
        decisions[i].rewrite_actions.len() + action_count(decisions, i + 1)
    }
}

proof fn actions_are_counted(
    scope: RefineRewriteScopeModel,
    actions: Seq<RefineRewriteActionModel>,
    i: int,
)
    requires
        0 <= i <= actions.len(),
    ensures
        scope.with_actions_from(actions, i) matches Ok(next) ==> scope_size(next) == scope_size(
            scope,
        ) + (actions.len() - i) && next.conflicts == scope.conflicts && next.stale_descendants
            == scope.stale_descendants,
    decreases actions.len() - i,
{
    if i < actions.len() {
        if let Ok(next) = scope.with_action(actions[i]) {
            assert(scope_size(next) == scope_size(scope) + 1);
            actions_are_counted(next, actions, i + 1);
        }
    }
}

proof fn decisions_are_counted(
    scope: RefineRewriteScopeModel,
    decisions: Seq<RefineDecisionModel>,
    i: int,
)
    requires
        0 <= i <= decisions.len(),
    ensures
        scope.with_decisions_from(decisions, i) matches Ok(next) ==> scope_size(next)
            == scope_size(scope) + action_count(decisions, i) && next.conflicts == scope.conflicts
            && next.stale_descendants == scope.stale_descendants,
    decreases decisions.len() - i,
{
    if i < decisions.len() && !is_unconfirmed(decisions[i].confirmation.status) {
        actions_are_counted(scope, decisions[i].rewrite_actions, 0);
        if let Ok(next) = scope.with_actions_from(decisions[i].rewrite_actions, 0) {
            decisions_are_counted(next, decisions, i + 1);
        }
    }
}

/// A plan takes up every action once, and marks nothing stale by itself.
pub proof fn every_action_is_planned(decisions: Seq<RefineDecisionModel>)
    ensures
        RefineRewriteScopeModel::empty().with_decisions_from(decisions, 0) matches Ok(scope)
            ==> scope_size(scope) == action_count(decisions, 0) && scope.conflicts.len() == 0
            && scope.stale_descendants.len() == 0,
{
    decisions_are_counted(RefineRewriteScopeModel::empty(), decisions, 0);
}

// ---------------------------------------------------------------------
// Summary
// ---------------------------------------------------------------------
proof fn node_entries_are_complete(
    nodes: Seq<RefineStaleNodeModel>,
    i: int,
    acc: Seq<RefineStaleNodeSummaryEntryModel>,
)
    requires
        0 <= i <= nodes.len(),
    ensures
        acc.is_prefix_of(node_entries_from(nodes, i, acc)),
        forall|k: int|
            i <= k < nodes.len() ==> has_entry(
                node_entries_from(nodes, i, acc),
                (#[trigger] nodes[k]).relative_path,
            ),
    decreases nodes.len() - i,
{
    let out = node_entries_from(nodes, i, acc);
    if i < nodes.len() {
        if has_entry(acc, nodes[i].relative_path) {
            node_entries_are_complete(nodes, i + 1, acc);
            let k = choose|k: int|
                0 <= k < acc.len() && (#[trigger] acc[k]).relative_path == nodes[i].relative_path;
            assert(out[k] == acc[k]);
        } else {
            let entry = RefineStaleNodeSummaryEntryModel {
                relative_path: nodes[i].relative_path,
                node_id: nodes[i].node_id,
                summary_kind: RefineStaleNodeSummaryKind::StaleMarked,
                reason: Some(nodes[i].reason),
            };
            let more = acc.push(entry);
            node_entries_are_complete(nodes, i + 1, more);
            assert(out[acc.len() as int] == more[acc.len() as int]);
            assert(out[acc.len() as int].relative_path == nodes[i].relative_path);
            assert(acc.is_prefix_of(more));
        }
    }
}

/// Every entry was made of a changed file or of a stale node.
pub open spec fn entries_have_sources(
    entries: Seq<RefineStaleNodeSummaryEntryModel>,
    files: Seq<RefineChangedFileModel>,
    nodes: Seq<RefineStaleNodeModel>,
) -> bool {
    forall|e: int|
        0 <= e < entries.len() ==> entry_has_source(#[trigger] entries[e], files, nodes)
}

/// The entry was made of a changed file or of a stale node.
pub open spec fn entry_has_source(
    entry: RefineStaleNodeSummaryEntryModel,
    files: Seq<RefineChangedFileModel>,
    nodes: Seq<RefineStaleNodeModel>,
) -> bool {
    ||| exists|k: int|
        0 <= k < files.len() && file_entry(#[trigger] files[k], nodes) == Some(entry)
    ||| exists|k: int|
        0 <= k < nodes.len() && (#[trigger] nodes[k]).relative_path == entry.relative_path
            && entry.node_id == nodes[k].node_id && entry.reason == Some(nodes[k].reason)
            && entry.summary_kind == RefineStaleNodeSummaryKind::StaleMarked
}

proof fn file_entries_are_complete(
    files: Seq<RefineChangedFileModel>,
    nodes: Seq<RefineStaleNodeModel>,
    i: int,
    acc: Seq<RefineStaleNodeSummaryEntryModel>,
)
    requires
        0 <= i <= files.len(),
        entries_have_sources(acc, files, nodes),
    ensures
        acc.is_prefix_of(file_entries_from(files, nodes, i, acc)),
        entries_have_sources(file_entries_from(files, nodes, i, acc), files, nodes),
        forall|k: int|
            i <= k < files.len() ==> (file_entry(#[trigger] files[k], nodes) matches Some(entry)
                ==> file_entries_from(files, nodes, i, acc).contains(entry)),
    decreases files.len() - i,
{
    let out = file_entries_from(files, nodes, i, acc);
    if i < files.len() {
        match file_entry(files[i], nodes) {
            Some(entry) if !acc.contains(entry) => {
                let more = acc.push(entry);
                assert(entry_has_source(entry, files, nodes));
                file_entries_are_complete(files, nodes, i + 1, more);
                assert(acc.is_prefix_of(more));
                assert(out[acc.len() as int] == more[acc.len() as int]);
                assert(out.contains(entry));
            },
            found => {
                file_entries_are_complete(files, nodes, i + 1, acc);
                if let Some(entry) = found {
                    let k = choose|k: int| 0 <= k < acc.len() && #[trigger] acc[k] == entry;
                    assert(out[k] == acc[k]);
                }
            },
        }
    }
}

proof fn node_entries_have_sources(
    files: Seq<RefineChangedFileModel>,
    nodes: Seq<RefineStaleNodeModel>,
    i: int,
    acc: Seq<RefineStaleNodeSummaryEntryModel>,
)
    requires
        0 <= i <= nodes.len(),
        entries_have_sources(acc, files, nodes),
    ensures
        entries_have_sources(node_entries_from(nodes, i, acc), files, nodes),
    decreases nodes.len() - i,
{
    if i < nodes.len() {
        if has_entry(acc, nodes[i].relative_path) {
            node_entries_have_sources(files, nodes, i + 1, acc);
        } else {
            let entry = RefineStaleNodeSummaryEntryModel {
                relative_path: nodes[i].relative_path,
                node_id: nodes[i].node_id,
                summary_kind: RefineStaleNodeSummaryKind::StaleMarked,
                reason: Some(nodes[i].reason),
            };
            assert(entry_has_source(entry, files, nodes));
            node_entries_have_sources(files, nodes, i + 1, acc.push(entry));
        }
    }
}

/// The summary has the entry of every file that was created, removed or marked
/// stale, and no entry that was not made of such a file or of a stale node. None
/// of them comes twice.
pub proof fn summary_tells_of_every_file_once(
    files: Seq<RefineChangedFileModel>,
    nodes: Seq<RefineStaleNodeModel>,
)
    ensures
        summary_entries(files, nodes).no_duplicates(),
        entries_have_sources(summary_entries(files, nodes), files, nodes),
        forall|k: int|
            0 <= k < files.len() ==> (file_entry(#[trigger] files[k], nodes) matches Some(entry)
                ==> summary_entries(files, nodes).contains(entry)),
{
    let first = file_entries_from(files, nodes, 0, Seq::empty());
    let out = summary_entries(files, nodes);
    summary_entries_are_distinct(files, nodes);
    file_entries_are_complete(files, nodes, 0, Seq::empty());
    node_entries_have_sources(files, nodes, 0, first);
    node_entries_are_complete(nodes, 0, first);
    assert forall|k: int| 0 <= k < files.len() implies (file_entry(#[trigger] files[k], nodes)
        matches Some(entry) ==> out.contains(entry)) by {
        if let Some(entry) = file_entry(files[k], nodes) {
            let e = choose|e: int| 0 <= e < first.len() && #[trigger] first[e] == entry;
            assert(out[e] == first[e]);
        }
    }
}

/// The summary tells of every node that was marked stale, after the files that
/// were created, removed or marked.
pub proof fn summary_tells_of_every_stale_node(
    files: Seq<RefineChangedFileModel>,
    nodes: Seq<RefineStaleNodeModel>,
)
    ensures
        file_entries_from(files, nodes, 0, Seq::empty()).is_prefix_of(
            summary_entries(files, nodes),
        ),
        forall|k: int|
            0 <= k < nodes.len() ==> has_entry(
                summary_entries(files, nodes),
                (#[trigger] nodes[k]).relative_path,
            ),
{
    node_entries_are_complete(nodes, 0, file_entries_from(files, nodes, 0, Seq::empty()));
}

} // verus!
