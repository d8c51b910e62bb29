//! What the answers of gates come to in the report of a run, which gates are
//! run, and on which targets.
use super::execution_types::{
    RefineGateAttemptModel, RefineGateAttemptOutcomeModel, RefineGateExecutionErrorModel,
    RefineGateExecutionReportModel, RefineGateExecutionStatus, RefineGateInvocationFailureModel,
    RefineGateKind, RunRefineGateRevalidationRequestModel,
};
use super::gate_execution::{
    asks_user, by_id, context_text, json_section_text, question_from, ContextTextsModel,
    GateAnswerModel, GateStepModel, RefineGateProgressModel,
};
use super::rewrite_laws::taken_up_texts_stay_unique;
use crate::api::{
    NodeKind, ReviewIssueModel, RunFrontierReviewGateResponseModel, RunLeafReviewGateResponseModel,
};
use crate::error::PlanErrorModel;
use crate::files::{PlanFilesModel, PlanRootKind};
use crate::paths::is_plan_markdown;
use crate::runtime::review_laws::{holds_words, words_are_left};
use crate::runtime::store::RuntimeModel;
use crate::text::{begins_with, has_text, occurs_at};
use vstd::prelude::*;

verus! {

// ---------------------------------------------------------------------
// What a report says after an answer
// ---------------------------------------------------------------------
/// One of the issues asks the user something.
pub open spec fn some_issue_asks(issues: Seq<ReviewIssueModel>) -> bool {
    exists|i: int| 0 <= i < issues.len() && holds_words((#[trigger] issues[i]).question_for_user)
}

/// The text is the first question of the issues.
pub open spec fn is_first_question(issues: Seq<ReviewIssueModel>, text: Option<Seq<char>>) -> bool {
    exists|i: int|
        0 <= i < issues.len() && (#[trigger] issues[i]).question_for_user is Some && text
            == issues[i].question_for_user && forall|j: int|
            0 <= j < i ==> (#[trigger] issues[j]).question_for_user is None
}

/// The report says nothing else than before but for the attempts.
pub open spec fn says_the_same(
    before: RefineGateExecutionReportModel,
    after: RefineGateExecutionReportModel,
) -> bool {
    &&& after.status == before.status
    &&& after.exhausted_invocation_retries == before.exhausted_invocation_retries
    &&& after.blocked_by_review_issues == before.blocked_by_review_issues
    &&& after.paused_for_user_decision == before.paused_for_user_decision
    &&& after.invalidated_leaf_node_ids == before.invalidated_leaf_node_ids
}

/// The report says that the run stopped for these issues: it waits for the user
/// where one of them asks something, and is blocked by all of them where none
/// does.
pub open spec fn says_it_stopped(
    before: RefineGateExecutionReportModel,
    after: RefineGateExecutionReportModel,
    issues: Seq<ReviewIssueModel>,
) -> bool {
    &&& after.exhausted_invocation_retries == before.exhausted_invocation_retries
    &&& if some_issue_asks(issues) {
        &&& after.status == RefineGateExecutionStatus::PausedForUserDecision
        &&& is_first_question(issues, after.paused_for_user_decision)
        &&& after.blocked_by_review_issues == before.blocked_by_review_issues
    } else {
        &&& after.status == RefineGateExecutionStatus::BlockedByReviewIssues
        &&& after.blocked_by_review_issues == before.blocked_by_review_issues + issues
        &&& after.paused_for_user_decision == before.paused_for_user_decision
    }
}

/// The outcome is that of a gate that did not pass for these issues.
pub open spec fn is_stop_outcome(
    outcome: RefineGateAttemptOutcomeModel,
    verdict: Seq<char>,
    summary: Seq<char>,
    issues: Seq<ReviewIssueModel>,
) -> bool {
    if some_issue_asks(issues) {
        outcome == RefineGateAttemptOutcomeModel::PauseForUserDecision { summary, issues }
    } else {
        outcome == RefineGateAttemptOutcomeModel::ReviewIssues { verdict, issues }
    }
}

/// The attempt is this try of a review of this node.
pub open spec fn is_try_of(
    attempt: RefineGateAttemptModel,
    gate_kind: RefineGateKind,
    node_id: Seq<char>,
    path: Seq<char>,
    progress: RefineGateProgressModel,
) -> bool {
    &&& attempt.gate_kind == gate_kind
    &&& attempt.target_node_id == node_id
    &&& attempt.target_relative_path == path
    &&& attempt.attempt_index == progress.attempt_index
    &&& attempt.content_fingerprint == progress.fingerprint
}

/// A review that could not be run is tried once more, or, after the last try
/// that is allowed, given up.
pub open spec fn tries_again_or_gives_up(
    before: RefineGateProgressModel,
    after: RefineGateProgressModel,
    max_retries: u8,
    gate_kind: RefineGateKind,
    node_id: Seq<char>,
    error: Seq<char>,
) -> bool {
    &&& after.leaf_index == before.leaf_index
    &&& after.frontier_index == before.frontier_index
    &&& after.report.blocked_by_review_issues == before.report.blocked_by_review_issues
    &&& after.report.paused_for_user_decision == before.report.paused_for_user_decision
    &&& after.report.invalidated_leaf_node_ids == before.report.invalidated_leaf_node_ids
    &&& if before.attempt_index < max_retries {
        &&& !after.finished
        &&& after.attempt_index == before.attempt_index + 1
        &&& says_the_same(before.report, after.report)
    } else {
        &&& after.finished
        &&& after.report.status == RefineGateExecutionStatus::ExhaustedInvocationRetries
        &&& after.report.exhausted_invocation_retries
            == before.report.exhausted_invocation_retries.push(
            RefineGateInvocationFailureModel {
                gate_kind,
                target_node_id: node_id,
                attempt_index: before.attempt_index,
                error,
                content_fingerprint: before.fingerprint,
            },
        )
    }
}

proof fn questions_are_found(issues: Seq<ReviewIssueModel>)
    ensures
        asks_user(issues) == some_issue_asks(issues),
        some_issue_asks(issues) ==> is_first_question(issues, question_from(issues, 0)),
{
    assert forall|i: int| 0 <= i < issues.len() implies crate::runtime::gates::is_given(
        (#[trigger] issues[i]).question_for_user,
    ) == holds_words(issues[i].question_for_user) by {
        if let Some(text) = issues[i].question_for_user {
            words_are_left(text);
        }
    }
    if asks_user(issues) {
        let i = choose|i: int|
            0 <= i < issues.len() && crate::runtime::gates::is_given(
                (#[trigger] issues[i]).question_for_user,
            );
        assert(holds_words(issues[i].question_for_user));
    }
    if some_issue_asks(issues) {
        let i = choose|i: int|
            0 <= i < issues.len() && holds_words((#[trigger] issues[i]).question_for_user);
        assert(crate::runtime::gates::is_given(issues[i].question_for_user));
        first_question_is_found(issues, 0, i);
    }
}

proof fn first_question_is_found(issues: Seq<ReviewIssueModel>, i: int, k: int)
    requires
        0 <= i <= k < issues.len(),
        issues[k].question_for_user is Some,
        forall|j: int| 0 <= j < i ==> (#[trigger] issues[j]).question_for_user is None,
    ensures
        is_first_question(issues, question_from(issues, i)),
    decreases k - i,
{
    if issues[i].question_for_user is None {
        first_question_is_found(issues, i + 1, k);
    }
}

/// The answer of a leaf's gate is told: the try is added to the attempts, with
/// what the judge said. A leaf that passed is done with, and the report says
/// nothing else than before. One that did not pass stops the run for its issues.
/// A gate that could not be run is tried again as often as is allowed.
pub proof fn leaf_answers_are_told(
    progress: RefineGateProgressModel,
    runtime: RuntimeModel,
    files: PlanFilesModel,
    request: RunRefineGateRevalidationRequestModel,
    context: ContextTextsModel,
    result: Result<RunLeafReviewGateResponseModel, PlanErrorModel>,
)
    requires
        request.registered_targets.leaf_targets.len() <= usize::MAX,
        !progress.finished,
        progress.leaf_index < request.registered_targets.leaf_targets.len(),
    ensures
        ({
            let (next, step) = progress.stepped(
                runtime,
                files,
                request,
                context,
                GateAnswerModel::Leaf(result),
            );
            let target = request.registered_targets.leaf_targets[progress.leaf_index as int];
            let attempts = next.report.leaf_attempts;
            let attempt = attempts.last();
            &&& attempts.len() == progress.report.leaf_attempts.len() + 1
            &&& attempts.drop_last() == progress.report.leaf_attempts
            &&& next.report.frontier_attempts == progress.report.frontier_attempts
            &&& is_try_of(
                attempt,
                RefineGateKind::Leaf,
                target.node_id,
                target.relative_path,
                progress,
            )
            &&& attempt.invalidated_leaf_node_ids.len() == 0
            &&& match result {
                Ok(response) => if response.passed {
                    &&& attempt.outcome == (RefineGateAttemptOutcomeModel::Passed {
                        gate_run_id: response.gate_run_id,
                        verdict: response.verdict,
                        summary: response.summary,
                    })
                    &&& says_the_same(progress.report, next.report)
                    &&& !next.finished
                    &&& next.leaf_index == progress.leaf_index + 1
                    &&& next.frontier_index == progress.frontier_index
                    &&& next.attempt_index == 1
                } else {
                    &&& is_stop_outcome(
                        attempt.outcome,
                        response.verdict,
                        response.summary,
                        response.issues,
                    )
                    &&& says_it_stopped(progress.report, next.report, response.issues)
                    &&& next.report.invalidated_leaf_node_ids
                        == progress.report.invalidated_leaf_node_ids
                    &&& next.finished
                    &&& step == Ok::<GateStepModel, RefineGateExecutionErrorModel>(
                        GateStepModel::Finish(next.report),
                    )
                },
                Err(error) => {
                    &&& attempt.outcome == (RefineGateAttemptOutcomeModel::InvocationFailure {
                        error: error.message,
                    })
                    &&& tries_again_or_gives_up(
                        progress,
                        next,
                        request.retry_policy.max_invocation_retries,
                        RefineGateKind::Leaf,
                        target.node_id,
                        error.message,
                    )
                    &&& next.finished ==> step == Ok::<
                        GateStepModel,
                        RefineGateExecutionErrorModel,
                    >(GateStepModel::Finish(next.report))
                },
            }
        }),
{
    let next = progress.stepped(
        runtime,
        files,
        request,
        context,
        GateAnswerModel::Leaf(result),
    ).0;
    assert(next.report.leaf_attempts.drop_last() =~= progress.report.leaf_attempts);
    if let Ok(response) = result {
        questions_are_found(response.issues);
    }
}

/// The list holds the ids of both lists, and none that was not there before
/// twice.
pub open spec fn is_union_of(
    all: Seq<Seq<char>>,
    before: Seq<Seq<char>>,
    more: Seq<Seq<char>>,
) -> bool {
    &&& forall|id: Seq<char>|
        #[trigger] all.contains(id) <==> before.contains(id) || more.contains(id)
    &&& before.no_duplicates() ==> all.no_duplicates()
}

/// The answer of a parent's gate is told: the try is added to the attempts, with
/// what the judge said. A parent that passed is done with, and the report says
/// nothing else than before; one that passed and takes approvals back is
/// refused. One that did not pass stops the run for its issues, and the report
/// lists every leaf whose approval it takes back, each once, besides those that
/// it listed before. A gate that could not be run is tried again as often as is
/// allowed.
pub proof fn frontier_answers_are_told(
    progress: RefineGateProgressModel,
    runtime: RuntimeModel,
    files: PlanFilesModel,
    request: RunRefineGateRevalidationRequestModel,
    context: ContextTextsModel,
    result: Result<RunFrontierReviewGateResponseModel, PlanErrorModel>,
)
    requires
        request.registered_targets.frontier_targets.len() <= usize::MAX,
        !progress.finished,
        progress.leaf_index >= request.registered_targets.leaf_targets.len(),
        progress.frontier_index < request.registered_targets.frontier_targets.len(),
        progress.report.invalidated_leaf_node_ids.no_duplicates(),
    ensures
        ({
            let (next, step) = progress.stepped(
                runtime,
                files,
                request,
                context,
                GateAnswerModel::Frontier(result),
            );
            let target = request.registered_targets.frontier_targets[progress.frontier_index as int];
            let attempts = next.report.frontier_attempts;
            let attempt = attempts.last();
            let refused = result is Ok && result->Ok_0.passed
                && result->Ok_0.invalidated_leaf_node_ids.len() > 0;
            &&& next.report.leaf_attempts == progress.report.leaf_attempts
            &&& refused ==> next == progress && step is Err
            &&& !refused ==> {
                &&& attempts.len() == progress.report.frontier_attempts.len() + 1
                &&& attempts.drop_last() == progress.report.frontier_attempts
                &&& is_try_of(
                    attempt,
                    RefineGateKind::Frontier,
                    target.parent_node_id,
                    target.parent_relative_path,
                    progress,
                )
                &&& match result {
                    Ok(response) => if response.passed {
                        &&& attempt.outcome == (RefineGateAttemptOutcomeModel::Passed {
                            gate_run_id: response.gate_run_id,
                            verdict: response.verdict,
                            summary: response.summary,
                        })
                        &&& attempt.invalidated_leaf_node_ids.len() == 0
                        &&& says_the_same(progress.report, next.report)
                        &&& !next.finished
                        &&& next.leaf_index == progress.leaf_index
                        &&& next.frontier_index == progress.frontier_index + 1
                        &&& next.attempt_index == 1
                    } else {
                        &&& is_stop_outcome(
                            attempt.outcome,
                            response.verdict,
                            response.summary,
                            response.issues,
                        )
                        &&& attempt.invalidated_leaf_node_ids
                            == response.invalidated_leaf_node_ids
                        &&& says_it_stopped(progress.report, next.report, response.issues)
                        &&& is_union_of(
                            next.report.invalidated_leaf_node_ids,
                            progress.report.invalidated_leaf_node_ids,
                            response.invalidated_leaf_node_ids,
                        )
                        &&& next.finished
                        &&& step == Ok::<GateStepModel, RefineGateExecutionErrorModel>(
                            GateStepModel::Finish(next.report),
                        )
                    },
                    Err(error) => {
                        &&& attempt.outcome == (RefineGateAttemptOutcomeModel::InvocationFailure {
                            error: error.message,
                        })
                        &&& attempt.invalidated_leaf_node_ids.len() == 0
                        &&& tries_again_or_gives_up(
                            progress,
                            next,
                            request.retry_policy.max_invocation_retries,
                            RefineGateKind::Frontier,
                            target.parent_node_id,
                            error.message,
                        )
                        &&& next.finished ==> step == Ok::<
                            GateStepModel,
                            RefineGateExecutionErrorModel,
                        >(GateStepModel::Finish(next.report))
                    },
                }
            }
        }),
{
    let next = progress.stepped(
        runtime,
        files,
        request,
        context,
        GateAnswerModel::Frontier(result),
    ).0;
    if next.report.frontier_attempts != progress.report.frontier_attempts {
        assert(next.report.frontier_attempts.drop_last() =~= progress.report.frontier_attempts);
    }
    if let Ok(response) = result {
        questions_are_found(response.issues);
        taken_up_texts_stay_unique(
            progress.report.invalidated_leaf_node_ids,
            response.invalidated_leaf_node_ids,
            0,
        );
        assert(response.invalidated_leaf_node_ids.skip(0) =~= response.invalidated_leaf_node_ids);
    }
}

/// An answer that no gate is due for changes nothing of the report.
pub proof fn stray_answers_are_not_told(
    progress: RefineGateProgressModel,
    runtime: RuntimeModel,
    files: PlanFilesModel,
    request: RunRefineGateRevalidationRequestModel,
    context: ContextTextsModel,
    answer: GateAnswerModel,
)
    requires
        match answer {
            GateAnswerModel::Started => false,
            GateAnswerModel::Leaf(_) => progress.finished || progress.leaf_index
                >= request.registered_targets.leaf_targets.len(),
            GateAnswerModel::Frontier(_) => progress.finished || progress.leaf_index
                < request.registered_targets.leaf_targets.len() || progress.frontier_index
                >= request.registered_targets.frontier_targets.len(),
        },
    ensures
        progress.stepped(runtime, files, request, context, answer).0.report == progress.report,
{
}

// ---------------------------------------------------------------------
// What a report says of all attempts
// ---------------------------------------------------------------------
/// One of the attempts took back the approval of this leaf.
pub open spec fn some_attempt_invalidates(
    attempts: Seq<RefineGateAttemptModel>,
    node_id: Seq<char>,
) -> bool {
    exists|k: int|
        0 <= k < attempts.len() && (#[trigger] attempts[k]).invalidated_leaf_node_ids.contains(
            node_id,
        )
}

/// The report lists the leaves whose approval its attempts took back, each once,
/// and no other.
pub open spec fn lists_invalidations(report: RefineGateExecutionReportModel) -> bool {
    &&& report.invalidated_leaf_node_ids.no_duplicates()
    &&& forall|id: Seq<char>|
        #[trigger] report.invalidated_leaf_node_ids.contains(id) <==> some_attempt_invalidates(
            report.frontier_attempts,
            id,
        )
}

/// A run starts with nothing to list, and each of its steps keeps the list: the
/// report of a run lists exactly the leaves whose approval its frontier attempts
/// took back, each once.
pub proof fn invalidated_leaves_are_listed(
    progress: RefineGateProgressModel,
    runtime: RuntimeModel,
    files: PlanFilesModel,
    request: RunRefineGateRevalidationRequestModel,
    context: ContextTextsModel,
    answer: GateAnswerModel,
)
    requires
        request.registered_targets.leaf_targets.len() <= usize::MAX,
        request.registered_targets.frontier_targets.len() <= usize::MAX,
        lists_invalidations(progress.report),
    ensures
        lists_invalidations(RefineGateProgressModel::start().report),
        lists_invalidations(progress.stepped(runtime, files, request, context, answer).0.report),
        progress.stepped(runtime, files, request, context, answer).1 matches Ok(
            GateStepModel::Finish(report),
        ) ==> lists_invalidations(report),
{
    let (next, step) = progress.stepped(runtime, files, request, context, answer);
    let none = RefineGateProgressModel::start().report;
    assert(lists_invalidations(none)) by {
        assert forall|id: Seq<char>| !#[trigger] none.invalidated_leaf_node_ids.contains(id) by {}
    }
    match answer {
        GateAnswerModel::Started => {},
        GateAnswerModel::Leaf(result) => {
            if !progress.finished && progress.leaf_index
                < request.registered_targets.leaf_targets.len() {
                leaf_answers_are_told(progress, runtime, files, request, context, result);
            } else {
                stray_answers_are_not_told(progress, runtime, files, request, context, answer);
            }
        },
        GateAnswerModel::Frontier(result) => {
            if !progress.finished && progress.leaf_index
                >= request.registered_targets.leaf_targets.len() && progress.frontier_index
                < request.registered_targets.frontier_targets.len() {
                frontier_answers_are_told(progress, runtime, files, request, context, result);
                let before = progress.report.frontier_attempts;
                let after = next.report.frontier_attempts;
                if next != progress {
                    assert(after =~= before.push(after.last()));
                    assert forall|id: Seq<char>|
                        #[trigger] next.report.invalidated_leaf_node_ids.contains(
                            id,
                        ) <==> some_attempt_invalidates(after, id) by {
                        attempts_invalidate(before, after.last(), id);
                        assert(progress.report.invalidated_leaf_node_ids.contains(id)
                            <==> some_attempt_invalidates(before, id));
                    }
                }
            } else {
                stray_answers_are_not_told(progress, runtime, files, request, context, answer);
            }
        },
    }
}

proof fn attempts_invalidate(
    attempts: Seq<RefineGateAttemptModel>,
    attempt: RefineGateAttemptModel,
    id: Seq<char>,
)
    ensures
        some_attempt_invalidates(attempts.push(attempt), id) <==> some_attempt_invalidates(
            attempts,
            id,
        ) || attempt.invalidated_leaf_node_ids.contains(id),
{
    let more = attempts.push(attempt);
    assert(more[attempts.len() as int] == attempt);
    if some_attempt_invalidates(attempts, id) {
        let k = choose|k: int|
            0 <= k < attempts.len() && (#[trigger] attempts[k]).invalidated_leaf_node_ids.contains(
                id,
            );
        assert(more[k] == attempts[k]);
    }
    if some_attempt_invalidates(more, id) {
        let k = choose|k: int|
            0 <= k < more.len() && (#[trigger] more[k]).invalidated_leaf_node_ids.contains(id);
        if k < attempts.len() {
            assert(attempts[k] == more[k]);
        }
    }
}

// ---------------------------------------------------------------------
// Which gate is run
// ---------------------------------------------------------------------
proof fn part_is_found(before: Seq<char>, part: Seq<char>, after: Seq<char>)
    ensures
        has_text(before + part + after, part),
{
    let all = before + part + after;
    let at = before.len() as int;
    assert(all.subrange(at, at + part.len() as int) =~= part);
    assert(occurs_at(all, part, at));
}

/// What a judge is told names the target and holds the comments that were
/// processed, the stale reviews, and what the rewrite changed.
pub open spec fn tells_the_judge(
    told: Option<Seq<char>>,
    gate_kind: Seq<char>,
    path: Seq<char>,
    node_id: Seq<char>,
    context: ContextTextsModel,
) -> bool {
    &&& told is Some
    &&& begins_with(
        told->0,
        "## Target\n- Gate Kind: "@ + gate_kind + "\n- Target Relative Path: "@ + path
            + "\n- Target Node ID: "@ + node_id + "\n"@,
    )
    &&& has_text(
        told->0,
        "\n## Processed Comment Blocks\n```json\n"@ + context.processed_comment_blocks
            + "\n```\n"@,
    )
    &&& has_text(
        told->0,
        "\n## Stale Handoff\n```json\n"@ + context.stale_result_handoff + "\n```\n"@,
    )
    &&& context.rewrite_result matches Some(rewrite) ==> {
        &&& has_text(
            told->0,
            "\n## Changed Files\n```json\n"@ + rewrite.changed_files + "\n```\n"@,
        )
        &&& has_text(
            told->0,
            "\n## Changed Child Links\n```json\n"@ + rewrite.structural_changes + "\n```\n"@,
        )
        &&& has_text(
            told->0,
            "\n## Context Invalidations\n```json\n"@ + rewrite.context_invalidations + "\n```\n"@,
        )
        &&& has_text(
            told->0,
            "\n## Expected Gate Targets\n```json\n"@ + rewrite.expected_gate_targets + "\n```\n"@,
        )
    }
}

proof fn sections_are_titled(title: Seq<char>, start: Seq<char>, json: Seq<char>)
    requires
        start =~= "\n## "@ + title + "\n```json\n"@,
    ensures
        json_section_text(title, json) == start + json + "\n```\n"@,
{
    assert(json_section_text(title, json) =~= start + json + "\n```\n"@);
}

proof fn judges_are_told(
    gate_kind: Seq<char>,
    path: Seq<char>,
    node_id: Seq<char>,
    parent: Option<Seq<char>>,
    context: ContextTextsModel,
)
    ensures
        tells_the_judge(
            Some(context_text(gate_kind, path, node_id, parent, context)),
            gate_kind,
            path,
            node_id,
            context,
        ),
{
    let all = context_text(gate_kind, path, node_id, parent, context);
    let head = "## Target\n- Gate Kind: "@ + gate_kind + "\n- Target Relative Path: "@ + path
        + "\n- Target Node ID: "@ + node_id + "\n"@;
    let target = match parent {
        Some(parent) => head + "- Target Parent Relative Path: "@ + parent + "\n"@,
        None => head,
    };
    reveal_strlit("\n## ");
    reveal_strlit("\n```json\n");
    reveal_strlit("Processed Comment Blocks");
    reveal_strlit("\n## Processed Comment Blocks\n```json\n");
    reveal_strlit("Stale Handoff");
    reveal_strlit("\n## Stale Handoff\n```json\n");
    reveal_strlit("Changed Files");
    reveal_strlit("\n## Changed Files\n```json\n");
    reveal_strlit("Changed Child Links");
    reveal_strlit("\n## Changed Child Links\n```json\n");
    reveal_strlit("Context Invalidations");
    reveal_strlit("\n## Context Invalidations\n```json\n");
    reveal_strlit("Expected Gate Targets");
    reveal_strlit("\n## Expected Gate Targets\n```json\n");
    let comments = json_section_text(
        "Processed Comment Blocks"@,
        context.processed_comment_blocks,
    );
    let handoff = json_section_text("Stale Handoff"@, context.stale_result_handoff);
    sections_are_titled(
        "Processed Comment Blocks"@,
        "\n## Processed Comment Blocks\n```json\n"@,
        context.processed_comment_blocks,
    );
    sections_are_titled(
        "Stale Handoff"@,
        "\n## Stale Handoff\n```json\n"@,
        context.stale_result_handoff,
    );
    let rest = match context.rewrite_result {
        Some(rewrite) => json_section_text("Changed Files"@, rewrite.changed_files)
            + json_section_text("Changed Child Links"@, rewrite.structural_changes)
            + json_section_text("Context Invalidations"@, rewrite.context_invalidations)
            + json_section_text("Expected Gate Targets"@, rewrite.expected_gate_targets),
        None => "\n## Changed Files\nNone\n"@ + "\n## Changed Child Links\nNone\n"@
            + "\n## Context Invalidations\nNone\n"@ + "\n## Expected Gate Targets\nNone\n"@,
    };
    assert(all =~= target + comments + (handoff + rest));
    part_is_found(target, comments, handoff + rest);
    assert(all =~= (target + comments) + handoff + rest);
    part_is_found(target + comments, handoff, rest);
    assert(all.subrange(0, head.len() as int) =~= head);
    if let Some(rewrite) = context.rewrite_result {
        let told = target + comments + handoff;
        let one = json_section_text("Changed Files"@, rewrite.changed_files);
        let two = json_section_text("Changed Child Links"@, rewrite.structural_changes);
        let three = json_section_text("Context Invalidations"@, rewrite.context_invalidations);
        let four = json_section_text("Expected Gate Targets"@, rewrite.expected_gate_targets);
        sections_are_titled(
            "Changed Files"@,
            "\n## Changed Files\n```json\n"@,
            rewrite.changed_files,
        );
        sections_are_titled(
            "Changed Child Links"@,
            "\n## Changed Child Links\n```json\n"@,
            rewrite.structural_changes,
        );
        sections_are_titled(
            "Context Invalidations"@,
            "\n## Context Invalidations\n```json\n"@,
            rewrite.context_invalidations,
        );
        sections_are_titled(
            "Expected Gate Targets"@,
            "\n## Expected Gate Targets\n```json\n"@,
            rewrite.expected_gate_targets,
        );
        assert(all =~= told + one + (two + three + four));
        part_is_found(told, one, two + three + four);
        assert(all =~= (told + one) + two + (three + four));
        part_is_found(told + one, two, three + four);
        assert(all =~= (told + one + two) + three + four);
        part_is_found(told + one + two, three, four);
        assert(all =~= (told + one + two + three) + four + Seq::empty());
        part_is_found(told + one + two + three, four, Seq::empty());
    }
}

/// After each answer a review that is due is run: the next leaf as long as there
/// is one, then the next parent, each for its own plan and node, with all that
/// the judge has to know. Where none is due, the report is given.
pub proof fn due_gates_are_run(
    progress: RefineGateProgressModel,
    runtime: RuntimeModel,
    files: PlanFilesModel,
    request: RunRefineGateRevalidationRequestModel,
    context: ContextTextsModel,
    answer: GateAnswerModel,
)
    ensures
        ({
            let (next, step) = progress.stepped(runtime, files, request, context, answer);
            let leaves = request.registered_targets.leaf_targets;
            let frontiers = request.registered_targets.frontier_targets;
            step matches Ok(step) ==> if !next.finished && next.leaf_index < leaves.len() {
                let target = leaves[next.leaf_index as int];
                step matches GateStepModel::RunLeaf(gate) && {
                    &&& gate.plan_id == request.plan_id
                    &&& gate.node_id == target.node_id
                    &&& gate.planner_mode == request.planner_mode
                    &&& tells_the_judge(
                        gate.refine_revalidation_context,
                        "leaf"@,
                        target.relative_path,
                        target.node_id,
                        context,
                    )
                }
            } else if !next.finished && next.frontier_index < frontiers.len() {
                let target = frontiers[next.frontier_index as int];
                step matches GateStepModel::RunFrontier(gate) && {
                    &&& gate.plan_id == request.plan_id
                    &&& gate.parent_node_id == target.parent_node_id
                    &&& gate.planner_mode == request.planner_mode
                    &&& gate.refine_invalidatable_leaf_node_ids is None
                    &&& tells_the_judge(
                        gate.refine_revalidation_context,
                        "frontier"@,
                        target.parent_relative_path,
                        target.parent_node_id,
                        context,
                    )
                }
            } else {
                step == GateStepModel::Finish(next.report)
            }
        }),
{
    let (next, step) = progress.stepped(runtime, files, request, context, answer);
    let leaves = request.registered_targets.leaf_targets;
    let frontiers = request.registered_targets.frontier_targets;
    if step is Ok && !next.finished {
        if next.leaf_index < leaves.len() {
            let target = leaves[next.leaf_index as int];
            judges_are_told(
                "leaf"@,
                target.relative_path,
                target.node_id,
                target.parent_relative_path,
                context,
            );
        } else if next.frontier_index < frontiers.len() {
            let target = frontiers[next.frontier_index as int];
            judges_are_told(
                "frontier"@,
                target.parent_relative_path,
                target.parent_node_id,
                next.target_parent,
                context,
            );
        }
    }
}

// ---------------------------------------------------------------------
// On which targets
// ---------------------------------------------------------------------
/// The leaf targets from `i` on can be reviewed: each has an id and a reason, its
/// file is there, and the runtime knows it as a leaf at its path below its
/// parent.
pub open spec fn leaves_can_be_reviewed(
    request: RunRefineGateRevalidationRequestModel,
    runtime: RuntimeModel,
    files: PlanFilesModel,
    i: int,
) -> bool {
    let targets = request.registered_targets.leaf_targets;
    forall|k: int|
        i <= k < targets.len() ==> {
            let target = #[trigger] targets[k];
            &&& target.node_id.len() > 0
            &&& target.reasons.len() > 0
            &&& is_plan_markdown(target.relative_path)
            &&& files.is_file(target.relative_path)
            &&& runtime.inspection(by_id(request.plan_id, target.node_id)) matches Ok(node)
                && node.node_kind == NodeKind::Leaf && node.relative_path == target.relative_path
                && node.parent_relative_path == target.parent_relative_path
            &&& forall|j: int|
                0 <= j < k ==> (#[trigger] targets[j]).node_id != target.node_id
                    && targets[j].relative_path != target.relative_path
        }
}

proof fn fit_leaves_can_be_reviewed(
    request: RunRefineGateRevalidationRequestModel,
    runtime: RuntimeModel,
    files: PlanFilesModel,
    i: int,
)
    requires
        0 <= i <= request.registered_targets.leaf_targets.len(),
    ensures
        request.leaf_targets_problem_from(runtime, files, i) is None <==> leaves_can_be_reviewed(
            request,
            runtime,
            files,
            i,
        ),
    decreases request.registered_targets.leaf_targets.len() - i,
{
    let targets = request.registered_targets.leaf_targets;
    if i < targets.len() {
        fit_leaves_can_be_reviewed(request, runtime, files, i + 1);
        if request.leaf_is_repeated(i) {
            let k = choose|k: int|
                0 <= k < i && ((#[trigger] targets[k]).node_id == targets[i].node_id
                    || targets[k].relative_path == targets[i].relative_path);
            assert(targets[k].node_id == targets[i].node_id || targets[k].relative_path
                == targets[i].relative_path);
            assert(!leaves_can_be_reviewed(request, runtime, files, i)) by {
                let target = targets[i];
            }
        }
        if leaves_can_be_reviewed(request, runtime, files, i) {
            assert(targets[i] == targets[i]);
            assert(!request.leaf_is_repeated(i));
        }
    }
}

/// The frontier targets from `i` on can be reviewed: each has an id and a reason,
/// its file is there, and the runtime knows it as a parent at its path.
pub open spec fn frontiers_can_be_reviewed(
    request: RunRefineGateRevalidationRequestModel,
    runtime: RuntimeModel,
    files: PlanFilesModel,
    i: int,
) -> bool {
    let targets = request.registered_targets.frontier_targets;
    forall|k: int|
        i <= k < targets.len() ==> {
            let target = #[trigger] targets[k];
            &&& target.parent_node_id.len() > 0
            &&& target.reasons.len() > 0
            &&& is_plan_markdown(target.parent_relative_path)
            &&& files.is_file(target.parent_relative_path)
            &&& runtime.inspection(by_id(request.plan_id, target.parent_node_id)) matches Ok(node)
                && node.node_kind == NodeKind::Parent && node.relative_path
                == target.parent_relative_path
            &&& forall|j: int|
                0 <= j < k ==> (#[trigger] targets[j]).parent_node_id != target.parent_node_id
                    && targets[j].parent_relative_path != target.parent_relative_path
        }
}

proof fn fit_frontiers_can_be_reviewed(
    request: RunRefineGateRevalidationRequestModel,
    runtime: RuntimeModel,
    files: PlanFilesModel,
    i: int,
)
    requires
        0 <= i <= request.registered_targets.frontier_targets.len(),
        request.frontier_targets_problem_from(runtime, files, i) is None,
    ensures
        frontiers_can_be_reviewed(request, runtime, files, i),
    decreases request.registered_targets.frontier_targets.len() - i,
{
    if i < request.registered_targets.frontier_targets.len() {
        fit_frontiers_can_be_reviewed(request, runtime, files, i + 1);
        assert(!request.frontier_is_repeated(i));
    }
}

/// A run starts only where at least one try is allowed, the plan root is a
/// directory, and every leaf and every parent that is to be reviewed is what the
/// runtime and the files say it is, and is named once.
pub proof fn runs_start_on_sound_targets(
    progress: RefineGateProgressModel,
    runtime: RuntimeModel,
    files: PlanFilesModel,
    request: RunRefineGateRevalidationRequestModel,
    context: ContextTextsModel,
)
    ensures
        progress.stepped(runtime, files, request, context, GateAnswerModel::Started).1 is Ok ==> {
            &&& request.retry_policy.max_invocation_retries >= 1
            &&& files.root == PlanRootKind::Directory
            &&& leaves_can_be_reviewed(request, runtime, files, 0)
            &&& frontiers_can_be_reviewed(request, runtime, files, 0)
        },
        progress.stepped(
            runtime,
            files,
            request,
            context,
            GateAnswerModel::Started,
        ).0.report.leaf_attempts.len() == 0 || progress.stepped(
            runtime,
            files,
            request,
            context,
            GateAnswerModel::Started,
        ).0 == progress,
{
    fit_leaves_can_be_reviewed(request, runtime, files, 0);
    if request.frontier_targets_problem_from(runtime, files, 0) is None {
        fit_frontiers_can_be_reviewed(request, runtime, files, 0);
    }
}

} // verus!
