//! What holds of every run of the gates of a refinement.
use super::execution_types::{
    RefineGateAttemptModel, RefineGateExecutionErrorModel, RefineGateExecutionReportModel,
    RefineGateExecutionStatus, RefineGateKind, RunRefineGateRevalidationRequestModel,
};
use super::gate_execution::{
    ContextTextsModel, GateAnswerModel, GateStepModel, RefineGateProgressModel,
};
use crate::api::{RunFrontierReviewGateResponseModel, RunLeafReviewGateResponseModel};
use crate::error::PlanErrorModel;
use crate::files::PlanFilesModel;
use crate::runtime::store::RuntimeModel;
use vstd::prelude::*;

verus! {

/// One of the attempts is a passed review of this node.
pub open spec fn has_passed(attempts: Seq<RefineGateAttemptModel>, node_id: Seq<char>) -> bool {
    exists|k: int|
        0 <= k < attempts.len() && (#[trigger] attempts[k]).target_node_id == node_id
            && attempts[k].outcome is Passed
}

/// Every attempt is at a gate of this kind, and none is over the limit.
pub open spec fn attempts_are_bounded(
    attempts: Seq<RefineGateAttemptModel>,
    gate_kind: RefineGateKind,
    max_retries: u8,
) -> bool {
    forall|k: int|
        0 <= k < attempts.len() ==> (#[trigger] attempts[k]).gate_kind == gate_kind && 1
            <= attempts[k].attempt_index <= max_retries
}

impl RunRefineGateRevalidationRequestModel {
    /// The lists of targets fit in memory, and a gate is tried at least once.
    pub open spec fn is_runnable(self) -> bool {
        &&& self.registered_targets.leaf_targets.len() <= usize::MAX
        &&& self.registered_targets.frontier_targets.len() <= usize::MAX
        &&& self.retry_policy.max_invocation_retries >= 1
    }
}

impl RefineGateProgressModel {
    /// The gates before the one that is due have passed, leaves before
    /// frontiers, and the report says why the run ended exactly where it did
    /// before the last gate.
    pub open spec fn is_sound(self, request: RunRefineGateRevalidationRequestModel) -> bool {
        let leaves = request.registered_targets.leaf_targets;
        let frontiers = request.registered_targets.frontier_targets;
        let max = request.retry_policy.max_invocation_retries;
        &&& self.leaf_index <= leaves.len()
        &&& self.frontier_index <= frontiers.len()
        &&& 1 <= self.attempt_index <= max
        &&& self.report.frontier_attempts.len() > 0 ==> self.leaf_index == leaves.len()
        &&& self.frontier_index > 0 ==> self.leaf_index == leaves.len()
        &&& forall|k: int|
            0 <= k < self.leaf_index ==> has_passed(
                self.report.leaf_attempts,
                (#[trigger] leaves[k]).node_id,
            )
        &&& forall|k: int|
            0 <= k < self.frontier_index ==> has_passed(
                self.report.frontier_attempts,
                (#[trigger] frontiers[k]).parent_node_id,
            )
        &&& attempts_are_bounded(self.report.leaf_attempts, RefineGateKind::Leaf, max)
        &&& attempts_are_bounded(self.report.frontier_attempts, RefineGateKind::Frontier, max)
        &&& self.finished <==> self.report.status != RefineGateExecutionStatus::Passed
        &&& !self.finished ==> {
            &&& self.report.exhausted_invocation_retries.len() == 0
            &&& self.report.blocked_by_review_issues.len() == 0
            &&& self.report.paused_for_user_decision is None
            &&& self.report.invalidated_leaf_node_ids.len() == 0
        }
    }

    /// How many tries are left at most.
    pub open spec fn tries_left(self, request: RunRefineGateRevalidationRequestModel) -> int {
        if self.finished {
            0
        } else {
            (request.registered_targets.leaf_targets.len() - self.leaf_index
                + request.registered_targets.frontier_targets.len() - self.frontier_index)
                * request.retry_policy.max_invocation_retries - (self.attempt_index - 1)
        }
    }
}

proof fn passed_stays(
    attempts: Seq<RefineGateAttemptModel>,
    attempt: RefineGateAttemptModel,
    node_id: Seq<char>,
)
    requires
        has_passed(attempts, node_id) || (attempt.target_node_id == node_id
            && attempt.outcome is Passed),
    ensures
        has_passed(attempts.push(attempt), node_id),
{
    let more = attempts.push(attempt);
    if has_passed(attempts, node_id) {
        let k = choose|k: int|
            0 <= k < attempts.len() && (#[trigger] attempts[k]).target_node_id == node_id
                && attempts[k].outcome is Passed;
        assert(more[k] == attempts[k]);
    } else {
        assert(more[attempts.len() as int] == attempt);
    }
}

proof fn bounded_stays(
    attempts: Seq<RefineGateAttemptModel>,
    attempt: RefineGateAttemptModel,
    gate_kind: RefineGateKind,
    max_retries: u8,
)
    requires
        attempts_are_bounded(attempts, gate_kind, max_retries),
        attempt.gate_kind == gate_kind,
        1 <= attempt.attempt_index <= max_retries,
    ensures
        attempts_are_bounded(attempts.push(attempt), gate_kind, max_retries),
{
}

/// The start of a run is sound.
pub proof fn run_starts_sound(request: RunRefineGateRevalidationRequestModel)
    requires
        request.is_runnable(),
    ensures
        RefineGateProgressModel::start().is_sound(request),
{
}

proof fn leaf_answer_keeps_soundness(
    progress: RefineGateProgressModel,
    request: RunRefineGateRevalidationRequestModel,
    answer: Result<RunLeafReviewGateResponseModel, PlanErrorModel>,
)
    requires
        request.is_runnable(),
        progress.is_sound(request),
    ensures
        progress.leaf_answered(request, answer).is_sound(request),
        progress.awaits_leaf(request) ==> progress.leaf_answered(request, answer).tries_left(
            request,
        ) < progress.tries_left(request),
{
    let next = progress.leaf_answered(request, answer);
    if progress.awaits_leaf(request) {
        let leaves = request.registered_targets.leaf_targets;
        let max = request.retry_policy.max_invocation_retries;
        let attempts = progress.report.leaf_attempts;
        let attempt = next.report.leaf_attempts.last();
        assert(next.report.leaf_attempts == attempts.push(attempt));
        bounded_stays(attempts, attempt, RefineGateKind::Leaf, max);
        assert forall|k: int| 0 <= k < next.leaf_index implies has_passed(
            next.report.leaf_attempts,
            (#[trigger] leaves[k]).node_id,
        ) by {
            passed_stays(attempts, attempt, leaves[k].node_id);
        }
        tries_shrink(progress, next, request);
    }
}

/// A gate was answered, so that fewer tries are left.
proof fn tries_shrink(
    before: RefineGateProgressModel,
    after: RefineGateProgressModel,
    request: RunRefineGateRevalidationRequestModel,
)
    requires
        request.is_runnable(),
        before.is_sound(request),
        !before.finished,
        before.leaf_index < request.registered_targets.leaf_targets.len() || before.frontier_index
            < request.registered_targets.frontier_targets.len(),
        after.finished || (after.leaf_index + after.frontier_index == before.leaf_index
            + before.frontier_index + 1 && after.attempt_index == 1) || (after.leaf_index
            == before.leaf_index && after.frontier_index == before.frontier_index
            && after.attempt_index == before.attempt_index + 1),
    ensures
        after.tries_left(request) < before.tries_left(request),
{
    let leaves = request.registered_targets.leaf_targets.len();
    let frontiers = request.registered_targets.frontier_targets.len();
    let max = request.retry_policy.max_invocation_retries as int;
    let left = leaves - before.leaf_index + frontiers - before.frontier_index;
    assert(left >= 1);
    assert(left * max >= max) by (nonlinear_arith)
        requires
            left >= 1,
            max >= 1,
    ;
    assert((left - 1) * max == left * max - max) by (nonlinear_arith);
}

proof fn frontier_answer_keeps_soundness(
    progress: RefineGateProgressModel,
    request: RunRefineGateRevalidationRequestModel,
    answer: Result<RunFrontierReviewGateResponseModel, PlanErrorModel>,
)
    requires
        request.is_runnable(),
        progress.is_sound(request),
    ensures
        progress.frontier_answered(request, answer).0.is_sound(request),
        progress.awaits_frontier(request) && progress.frontier_answered(request, answer).1 is None
            ==> progress.frontier_answered(request, answer).0.tries_left(request)
            < progress.tries_left(request),
{
    let (next, problem) = progress.frontier_answered(request, answer);
    if progress.awaits_frontier(request) && problem is None {
        let frontiers = request.registered_targets.frontier_targets;
        let max = request.retry_policy.max_invocation_retries;
        let attempts = progress.report.frontier_attempts;
        let attempt = next.report.frontier_attempts.last();
        assert(next.report.frontier_attempts == attempts.push(attempt));
        bounded_stays(attempts, attempt, RefineGateKind::Frontier, max);
        assert forall|k: int| 0 <= k < next.frontier_index implies has_passed(
            next.report.frontier_attempts,
            (#[trigger] frontiers[k]).parent_node_id,
        ) by {
            passed_stays(attempts, attempt, frontiers[k].parent_node_id);
        }
        tries_shrink(progress, next, request);
    }
}

proof fn next_keeps_soundness(
    progress: RefineGateProgressModel,
    runtime: RuntimeModel,
    files: PlanFilesModel,
    request: RunRefineGateRevalidationRequestModel,
    context: ContextTextsModel,
)
    requires
        request.is_runnable(),
        progress.is_sound(request),
    ensures
        progress.next(runtime, files, request, context).0.is_sound(request),
        progress.next(runtime, files, request, context).0.tries_left(request)
            == progress.tries_left(request),
        progress.next(runtime, files, request, context).0.report == progress.report,
{
}

/// Every step of a run keeps it sound.
pub proof fn run_stays_sound(
    progress: RefineGateProgressModel,
    runtime: RuntimeModel,
    files: PlanFilesModel,
    request: RunRefineGateRevalidationRequestModel,
    context: ContextTextsModel,
    answer: GateAnswerModel,
)
    requires
        request.is_runnable(),
        progress.is_sound(request),
    ensures
        progress.stepped(runtime, files, request, context, answer).0.is_sound(request),
{
    match answer {
        GateAnswerModel::Started => {
            run_starts_sound(request);
            next_keeps_soundness(
                RefineGateProgressModel::start(),
                runtime,
                files,
                request,
                context,
            );
        },
        GateAnswerModel::Leaf(result) => {
            leaf_answer_keeps_soundness(progress, request, result);
            next_keeps_soundness(
                progress.leaf_answered(request, result),
                runtime,
                files,
                request,
                context,
            );
        },
        GateAnswerModel::Frontier(result) => {
            frontier_answer_keeps_soundness(progress, request, result);
            next_keeps_soundness(
                progress.frontier_answered(request, result).0,
                runtime,
                files,
                request,
                context,
            );
        },
    }
}

/// The answer is of the review that is due.
pub open spec fn answers_due_gate(
    progress: RefineGateProgressModel,
    request: RunRefineGateRevalidationRequestModel,
    answer: GateAnswerModel,
) -> bool {
    match answer {
        GateAnswerModel::Started => false,
        GateAnswerModel::Leaf(_) => progress.awaits_leaf(request),
        GateAnswerModel::Frontier(_) => progress.awaits_frontier(request),
    }
}

/// A run comes to an end: after each answer of the review that was due, fewer
/// tries are left, or the run is given up with an error.
pub proof fn run_comes_to_an_end(
    progress: RefineGateProgressModel,
    runtime: RuntimeModel,
    files: PlanFilesModel,
    request: RunRefineGateRevalidationRequestModel,
    context: ContextTextsModel,
    answer: GateAnswerModel,
)
    requires
        request.is_runnable(),
        progress.is_sound(request),
        answers_due_gate(progress, request, answer),
    ensures
        ({
            let (next, step) = progress.stepped(runtime, files, request, context, answer);
            step is Ok ==> 0 <= next.tries_left(request) < progress.tries_left(request)
        }),
{
    let (next, step) = progress.stepped(runtime, files, request, context, answer);
    match answer {
        GateAnswerModel::Started => {},
        GateAnswerModel::Leaf(result) => {
            leaf_answer_keeps_soundness(progress, request, result);
            next_keeps_soundness(
                progress.leaf_answered(request, result),
                runtime,
                files,
                request,
                context,
            );
        },
        GateAnswerModel::Frontier(result) => {
            frontier_answer_keeps_soundness(progress, request, result);
            next_keeps_soundness(
                progress.frontier_answered(request, result).0,
                runtime,
                files,
                request,
                context,
            );
        },
    }
    if step is Ok && !next.finished {
        let max = request.retry_policy.max_invocation_retries as int;
        let left = request.registered_targets.leaf_targets.len() - next.leaf_index
            + request.registered_targets.frontier_targets.len() - next.frontier_index;
        if left >= 1 {
            assert(left * max >= max) by (nonlinear_arith)
                requires
                    left >= 1,
                    max >= 1,
            ;
        } else {
            assert(left * max == 0) by (nonlinear_arith)
                requires
                    left == 0,
            ;
            last_gate_resets_tries(progress, runtime, files, request, context, answer);
        }
    }
}

proof fn last_gate_resets_tries(
    progress: RefineGateProgressModel,
    runtime: RuntimeModel,
    files: PlanFilesModel,
    request: RunRefineGateRevalidationRequestModel,
    context: ContextTextsModel,
    answer: GateAnswerModel,
)
    requires
        request.is_runnable(),
        progress.is_sound(request),
        answers_due_gate(progress, request, answer),
        ({
            let (next, step) = progress.stepped(runtime, files, request, context, answer);
            &&& step is Ok
            &&& !next.finished
            &&& next.leaf_index == request.registered_targets.leaf_targets.len()
            &&& next.frontier_index == request.registered_targets.frontier_targets.len()
        }),
    ensures
        progress.stepped(runtime, files, request, context, answer).0.attempt_index == 1,
{
}

/// A parent is only reviewed after the reviews of all leaf targets have
/// passed, and it is the parent that is due.
pub proof fn frontiers_wait_for_leaves(
    progress: RefineGateProgressModel,
    runtime: RuntimeModel,
    files: PlanFilesModel,
    request: RunRefineGateRevalidationRequestModel,
    context: ContextTextsModel,
    answer: GateAnswerModel,
)
    requires
        request.is_runnable(),
        progress.is_sound(request),
    ensures
        ({
            let (next, step) = progress.stepped(runtime, files, request, context, answer);
            step matches Ok(GateStepModel::RunFrontier(gate)) ==> {
                &&& forall|k: int|
                    0 <= k < request.registered_targets.leaf_targets.len() ==> has_passed(
                        next.report.leaf_attempts,
                        (#[trigger] request.registered_targets.leaf_targets[k]).node_id,
                    )
                &&& next.awaits_frontier(request)
                &&& gate.parent_node_id
                    == request.registered_targets.frontier_targets[next.frontier_index as int].parent_node_id
            }
        }),
{
    run_stays_sound(progress, runtime, files, request, context, answer);
}

/// A run that ends as passed has passed the review of every target and took back
/// no approval.
pub proof fn passed_run_passed_every_gate(
    progress: RefineGateProgressModel,
    runtime: RuntimeModel,
    files: PlanFilesModel,
    request: RunRefineGateRevalidationRequestModel,
    context: ContextTextsModel,
    answer: GateAnswerModel,
)
    requires
        request.is_runnable(),
        progress.is_sound(request),
    ensures
        progress.stepped(runtime, files, request, context, answer).1 matches Ok(
            GateStepModel::Finish(report),
        ) ==> report.status == RefineGateExecutionStatus::Passed ==> {
            &&& forall|k: int|
                0 <= k < request.registered_targets.leaf_targets.len() ==> has_passed(
                    report.leaf_attempts,
                    (#[trigger] request.registered_targets.leaf_targets[k]).node_id,
                )
            &&& forall|k: int|
                0 <= k < request.registered_targets.frontier_targets.len() ==> has_passed(
                    report.frontier_attempts,
                    (#[trigger] request.registered_targets.frontier_targets[k]).parent_node_id,
                )
            &&& report.invalidated_leaf_node_ids.len() == 0
            &&& report.exhausted_invocation_retries.len() == 0
            &&& report.blocked_by_review_issues.len() == 0
            &&& report.paused_for_user_decision is None
        },
{
    run_stays_sound(progress, runtime, files, request, context, answer);
}

/// No gate is tried more often than the retry policy allows, and a run without
/// a target passes at once.
pub proof fn run_respects_retry_policy(
    progress: RefineGateProgressModel,
    runtime: RuntimeModel,
    files: PlanFilesModel,
    request: RunRefineGateRevalidationRequestModel,
    context: ContextTextsModel,
    answer: GateAnswerModel,
)
    requires
        request.is_runnable(),
        progress.is_sound(request),
    ensures
        progress.stepped(runtime, files, request, context, answer).1 matches Ok(
            GateStepModel::Finish(report),
        ) ==> {
            &&& attempts_are_bounded(
                report.leaf_attempts,
                RefineGateKind::Leaf,
                request.retry_policy.max_invocation_retries,
            )
            &&& attempts_are_bounded(
                report.frontier_attempts,
                RefineGateKind::Frontier,
                request.retry_policy.max_invocation_retries,
            )
        },
        answer is Started && request.targets_problem(runtime, files) is None
            && request.registered_targets.leaf_targets.len() == 0
            && request.registered_targets.frontier_targets.len() == 0 ==> progress.stepped(
            runtime,
            files,
            request,
            context,
            answer,
        ).1 == Ok::<GateStepModel, RefineGateExecutionErrorModel>(
            GateStepModel::Finish(RefineGateExecutionReportModel::empty()),
        ),
{
    run_stays_sound(progress, runtime, files, request, context, answer);
}

/// A gate that could not be run is only tried again on the content that it
/// was first tried on.
pub proof fn retries_see_the_same_content(
    progress: RefineGateProgressModel,
    runtime: RuntimeModel,
    files: PlanFilesModel,
    request: RunRefineGateRevalidationRequestModel,
    context: ContextTextsModel,
    error: PlanErrorModel,
)
    requires
        progress.awaits_leaf(request) || progress.awaits_frontier(request),
    ensures
        ({
            let answer = if progress.awaits_leaf(request) {
                GateAnswerModel::Leaf(Err(error))
            } else {
                GateAnswerModel::Frontier(Err(error))
            };
            let (next, step) = progress.stepped(runtime, files, request, context, answer);
            let first = match progress.first_failure_fingerprint {
                Some(first) => first,
                None => progress.fingerprint,
            };
            step is Ok && !(step->Ok_0 is Finish) ==> next.fingerprint == first
                && next.leaf_index == progress.leaf_index && next.frontier_index
                == progress.frontier_index
        }),
{
}

} // verus!
