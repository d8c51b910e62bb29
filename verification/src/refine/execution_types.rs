//! What is asked and answered when the gates of a rewrite run.
use super::registration_types::{RegisteredRefineGateTargets, RegisteredRefineGateTargetsModel};
use super::rewrite_types::{RefineRewriteResult, RefineRewriteResultModel};
use super::runtime_state::{RefineStaleResultHandoff, RefineStaleResultHandoffModel};
use crate::api::{PlannerMode, ReviewIssue, ReviewIssueModel};
use vstd::prelude::*;

verus! {

/// A comment that was dealt with.
#[derive(Debug, PartialEq, Eq)]
pub struct RefineGateProcessedCommentBlock {
    pub relative_path: String,
    pub begin_comment_line: usize,
    pub end_comment_line: usize,
    pub comment_text: Option<String>,
}

/// The meaning of a [`RefineGateProcessedCommentBlock`].
pub struct RefineGateProcessedCommentBlockModel {
    pub relative_path: Seq<char>,
    pub begin_comment_line: usize,
    pub end_comment_line: usize,
    pub comment_text: Option<Seq<char>>,
}

impl DeepView for RefineGateProcessedCommentBlock {
    type V = RefineGateProcessedCommentBlockModel;

    open spec fn deep_view(&self) -> RefineGateProcessedCommentBlockModel {
        RefineGateProcessedCommentBlockModel {
            relative_path: self.relative_path@,
            begin_comment_line: self.begin_comment_line,
            end_comment_line: self.end_comment_line,
            comment_text: self.comment_text.deep_view(),
        }
    }
}

impl Clone for RefineGateProcessedCommentBlock {
    fn clone(&self) -> (r: Self)
        ensures
            r.deep_view() == self.deep_view(),
    {
        RefineGateProcessedCommentBlock {
            relative_path: self.relative_path.clone(),
            begin_comment_line: self.begin_comment_line,
            end_comment_line: self.end_comment_line,
            comment_text: self.comment_text.clone(),
        }
    }
}

/// What judges are told of a rewrite.
#[derive(Debug, PartialEq, Eq)]
pub struct RefineGateRevalidationContext {
    pub processed_comment_blocks: Vec<RefineGateProcessedCommentBlock>,
    pub stale_result_handoff: Vec<RefineStaleResultHandoff>,
    pub rewrite_result: Option<RefineRewriteResult>,
}

/// The meaning of a [`RefineGateRevalidationContext`].
pub struct RefineGateRevalidationContextModel {
    pub processed_comment_blocks: Seq<RefineGateProcessedCommentBlockModel>,
    pub stale_result_handoff: Seq<RefineStaleResultHandoffModel>,
    pub rewrite_result: Option<RefineRewriteResultModel>,
}

impl DeepView for RefineGateRevalidationContext {
    type V = RefineGateRevalidationContextModel;

    open spec fn deep_view(&self) -> RefineGateRevalidationContextModel {
        RefineGateRevalidationContextModel {
            processed_comment_blocks: self.processed_comment_blocks.deep_view(),
            stale_result_handoff: self.stale_result_handoff.deep_view(),
            rewrite_result: self.rewrite_result.deep_view(),
        }
    }
}

impl Clone for RefineGateRevalidationContext {
    fn clone(&self) -> (r: Self)
        ensures
            r.deep_view() == self.deep_view(),
    {
        let r: RefineGateRevalidationContext = RefineGateRevalidationContext {
            processed_comment_blocks: self.processed_comment_blocks.clone(),
            stale_result_handoff: self.stale_result_handoff.clone(),
            rewrite_result: self.rewrite_result.clone(),
        };
        assert(r.processed_comment_blocks.deep_view() =~= self.processed_comment_blocks.deep_view());
        assert(r.stale_result_handoff.deep_view() =~= self.stale_result_handoff.deep_view());
        r
    }
}

impl RefineGateRevalidationContextModel {
    /// Nothing in any of the lists.
    pub open spec fn empty() -> RefineGateRevalidationContextModel {
        RefineGateRevalidationContextModel {
            processed_comment_blocks: Seq::empty(),
            stale_result_handoff: Seq::empty(),
            rewrite_result: None,
        }
    }
}

impl Default for RefineGateRevalidationContext {
    fn default() -> (r: Self)
        ensures
            r.deep_view() == RefineGateRevalidationContextModel::empty(),
    {
        let r: RefineGateRevalidationContext = RefineGateRevalidationContext {
            processed_comment_blocks: Vec::new(),
            stale_result_handoff: Vec::new(),
            rewrite_result: None,
        };
        assert(r.processed_comment_blocks.deep_view() =~= Seq::empty());
        assert(r.stale_result_handoff.deep_view() =~= Seq::empty());
        r
    }
}

/// How often a gate is tried again when it cannot be run.
#[derive(Debug, Clone, Copy, PartialEq, Eq, Structural)]
pub struct RefineGateRetryPolicy {
    pub max_invocation_retries: u8,
}

impl DeepView for RefineGateRetryPolicy {
    type V = RefineGateRetryPolicy;

    open spec fn deep_view(&self) -> RefineGateRetryPolicy {
        *self
    }
}

impl Default for RefineGateRetryPolicy {
    fn default() -> (r: Self)
        ensures
            r == (RefineGateRetryPolicy { max_invocation_retries: 5 }),
    {
        RefineGateRetryPolicy { max_invocation_retries: 5 }
    }
}

/// Asks that the gates of a rewrite run.
#[derive(Debug, PartialEq, Eq)]
pub struct RunRefineGateRevalidationRequest {
    pub plan_id: String,
    pub plan_root: String,
    pub planner_mode: PlannerMode,
    pub registered_targets: RegisteredRefineGateTargets,
    pub retry_policy: RefineGateRetryPolicy,
    pub refine_context: RefineGateRevalidationContext,
}

/// The meaning of a [`RunRefineGateRevalidationRequest`].
pub struct RunRefineGateRevalidationRequestModel {
    pub plan_id: Seq<char>,
    pub plan_root: Seq<char>,
    pub planner_mode: PlannerMode,
    pub registered_targets: RegisteredRefineGateTargetsModel,
    pub retry_policy: RefineGateRetryPolicy,
    pub refine_context: RefineGateRevalidationContextModel,
}

impl DeepView for RunRefineGateRevalidationRequest {
    type V = RunRefineGateRevalidationRequestModel;

    open spec fn deep_view(&self) -> RunRefineGateRevalidationRequestModel {
        RunRefineGateRevalidationRequestModel {
            plan_id: self.plan_id@,
            plan_root: self.plan_root@,
            planner_mode: self.planner_mode,
            registered_targets: self.registered_targets.deep_view(),
            retry_policy: self.retry_policy,
            refine_context: self.refine_context.deep_view(),
        }
    }
}

impl Clone for RunRefineGateRevalidationRequest {
    fn clone(&self) -> (r: Self)
        ensures
            r.deep_view() == self.deep_view(),
    {
        RunRefineGateRevalidationRequest {
            plan_id: self.plan_id.clone(),
            plan_root: self.plan_root.clone(),
            planner_mode: self.planner_mode,
            registered_targets: self.registered_targets.clone(),
            retry_policy: self.retry_policy,
            refine_context: self.refine_context.clone(),
        }
    }
}

/// How the gates of a rewrite ended.
#[derive(Debug, Clone, Copy, PartialEq, Eq, Structural)]
pub enum RefineGateExecutionStatus {
    Passed,
    BlockedByReviewIssues,
    PausedForUserDecision,
    ExhaustedInvocationRetries,
}

impl DeepView for RefineGateExecutionStatus {
    type V = RefineGateExecutionStatus;

    open spec fn deep_view(&self) -> RefineGateExecutionStatus {
        *self
    }
}

/// The two kinds of gate.
#[derive(Debug, Clone, Copy, PartialEq, Eq, Structural)]
pub enum RefineGateKind {
    Leaf,
    Frontier,
}

impl DeepView for RefineGateKind {
    type V = RefineGateKind;

    open spec fn deep_view(&self) -> RefineGateKind {
        *self
    }
}

/// How one run of a gate ended.
#[derive(Debug, PartialEq, Eq)]
pub enum RefineGateAttemptOutcome {
    Passed { gate_run_id: String, verdict: String, summary: String },
    ReviewIssues { verdict: String, issues: Vec<ReviewIssue> },
    PauseForUserDecision { summary: String, issues: Vec<ReviewIssue> },
    InvocationFailure { error: String },
}

/// The meaning of a [`RefineGateAttemptOutcome`].
pub enum RefineGateAttemptOutcomeModel {
    Passed { gate_run_id: Seq<char>, verdict: Seq<char>, summary: Seq<char> },
    ReviewIssues { verdict: Seq<char>, issues: Seq<ReviewIssueModel> },
    PauseForUserDecision { summary: Seq<char>, issues: Seq<ReviewIssueModel> },
    InvocationFailure { error: Seq<char> },
}

impl DeepView for RefineGateAttemptOutcome {
    type V = RefineGateAttemptOutcomeModel;

    open spec fn deep_view(&self) -> RefineGateAttemptOutcomeModel {
        match self {
            RefineGateAttemptOutcome::Passed { gate_run_id, verdict, summary } => RefineGateAttemptOutcomeModel::Passed {
                gate_run_id: gate_run_id@,
                verdict: verdict@,
                summary: summary@,
            },
            RefineGateAttemptOutcome::ReviewIssues { verdict, issues } => RefineGateAttemptOutcomeModel::ReviewIssues {
                verdict: verdict@,
                issues: issues.deep_view(),
            },
            RefineGateAttemptOutcome::PauseForUserDecision { summary, issues } => RefineGateAttemptOutcomeModel::PauseForUserDecision {
                summary: summary@,
                issues: issues.deep_view(),
            },
            RefineGateAttemptOutcome::InvocationFailure { error } => RefineGateAttemptOutcomeModel::InvocationFailure {
                error: error@,
            },
        }
    }
}

impl Clone for RefineGateAttemptOutcome {
    fn clone(&self) -> (r: Self)
        ensures
            r.deep_view() == self.deep_view(),
    {
        match self {
            RefineGateAttemptOutcome::Passed { gate_run_id, verdict, summary } => RefineGateAttemptOutcome::Passed {
                gate_run_id: gate_run_id.clone(),
                verdict: verdict.clone(),
                summary: summary.clone(),
            },
            RefineGateAttemptOutcome::ReviewIssues { verdict, issues } => {
                let issues_copy = issues.clone();
                assert(issues_copy.deep_view() =~= issues.deep_view());
                RefineGateAttemptOutcome::ReviewIssues {
                    verdict: verdict.clone(),
                    issues: issues_copy,
                }
            },
            RefineGateAttemptOutcome::PauseForUserDecision { summary, issues } => {
                let issues_copy = issues.clone();
                assert(issues_copy.deep_view() =~= issues.deep_view());
                RefineGateAttemptOutcome::PauseForUserDecision {
                    summary: summary.clone(),
                    issues: issues_copy,
                }
            },
            RefineGateAttemptOutcome::InvocationFailure { error } => RefineGateAttemptOutcome::InvocationFailure {
                error: error.clone(),
            },
        }
    }
}

/// One run of a gate.
#[derive(Debug, PartialEq, Eq)]
pub struct RefineGateAttempt {
    pub gate_kind: RefineGateKind,
    pub target_node_id: String,
    pub target_relative_path: String,
    pub attempt_index: u8,
    pub outcome: RefineGateAttemptOutcome,
    pub content_fingerprint: String,
    pub invalidated_leaf_node_ids: Vec<String>,
}

/// The meaning of a [`RefineGateAttempt`].
pub struct RefineGateAttemptModel {
    pub gate_kind: RefineGateKind,
    pub target_node_id: Seq<char>,
    pub target_relative_path: Seq<char>,
    pub attempt_index: u8,
    pub outcome: RefineGateAttemptOutcomeModel,
    pub content_fingerprint: Seq<char>,
    pub invalidated_leaf_node_ids: Seq<Seq<char>>,
}

impl DeepView for RefineGateAttempt {
    type V = RefineGateAttemptModel;

    open spec fn deep_view(&self) -> RefineGateAttemptModel {
        RefineGateAttemptModel {
            gate_kind: self.gate_kind,
            target_node_id: self.target_node_id@,
            target_relative_path: self.target_relative_path@,
            attempt_index: self.attempt_index,
            outcome: self.outcome.deep_view(),
            content_fingerprint: self.content_fingerprint@,
            invalidated_leaf_node_ids: self.invalidated_leaf_node_ids.deep_view(),
        }
    }
}

impl Clone for RefineGateAttempt {
    fn clone(&self) -> (r: Self)
        ensures
            r.deep_view() == self.deep_view(),
    {
        let r: RefineGateAttempt = RefineGateAttempt {
            gate_kind: self.gate_kind,
            target_node_id: self.target_node_id.clone(),
            target_relative_path: self.target_relative_path.clone(),
            attempt_index: self.attempt_index,
            outcome: self.outcome.clone(),
            content_fingerprint: self.content_fingerprint.clone(),
            invalidated_leaf_node_ids: self.invalidated_leaf_node_ids.clone(),
        };
        assert(r.invalidated_leaf_node_ids.deep_view() =~= self.invalidated_leaf_node_ids.deep_view());
        r
    }
}

/// A gate that could not be run.
#[derive(Debug, PartialEq, Eq)]
pub struct RefineGateInvocationFailure {
    pub gate_kind: RefineGateKind,
    pub target_node_id: String,
    pub attempt_index: u8,
    pub error: String,
    pub content_fingerprint: String,
}

/// The meaning of a [`RefineGateInvocationFailure`].
pub struct RefineGateInvocationFailureModel {
    pub gate_kind: RefineGateKind,
    pub target_node_id: Seq<char>,
    pub attempt_index: u8,
    pub error: Seq<char>,
    pub content_fingerprint: Seq<char>,
}

impl DeepView for RefineGateInvocationFailure {
    type V = RefineGateInvocationFailureModel;

    open spec fn deep_view(&self) -> RefineGateInvocationFailureModel {
        RefineGateInvocationFailureModel {
            gate_kind: self.gate_kind,
            target_node_id: self.target_node_id@,
            attempt_index: self.attempt_index,
            error: self.error@,
            content_fingerprint: self.content_fingerprint@,
        }
    }
}

impl Clone for RefineGateInvocationFailure {
    fn clone(&self) -> (r: Self)
        ensures
            r.deep_view() == self.deep_view(),
    {
        RefineGateInvocationFailure {
            gate_kind: self.gate_kind,
            target_node_id: self.target_node_id.clone(),
            attempt_index: self.attempt_index,
            error: self.error.clone(),
            content_fingerprint: self.content_fingerprint.clone(),
        }
    }
}

/// How the gates of a rewrite went.
#[derive(Debug, PartialEq, Eq)]
pub struct RefineGateExecutionReport {
    pub status: RefineGateExecutionStatus,
    pub leaf_attempts: Vec<RefineGateAttempt>,
    pub frontier_attempts: Vec<RefineGateAttempt>,
    pub exhausted_invocation_retries: Vec<RefineGateInvocationFailure>,
    pub blocked_by_review_issues: Vec<ReviewIssue>,
    pub paused_for_user_decision: Option<String>,
    pub invalidated_leaf_node_ids: Vec<String>,
}

/// The meaning of a [`RefineGateExecutionReport`].
pub struct RefineGateExecutionReportModel {
    pub status: RefineGateExecutionStatus,
    pub leaf_attempts: Seq<RefineGateAttemptModel>,
    pub frontier_attempts: Seq<RefineGateAttemptModel>,
    pub exhausted_invocation_retries: Seq<RefineGateInvocationFailureModel>,
    pub blocked_by_review_issues: Seq<ReviewIssueModel>,
    pub paused_for_user_decision: Option<Seq<char>>,
    pub invalidated_leaf_node_ids: Seq<Seq<char>>,
}

impl DeepView for RefineGateExecutionReport {
    type V = RefineGateExecutionReportModel;

    open spec fn deep_view(&self) -> RefineGateExecutionReportModel {
        RefineGateExecutionReportModel {
            status: self.status,
            leaf_attempts: self.leaf_attempts.deep_view(),
            frontier_attempts: self.frontier_attempts.deep_view(),
            exhausted_invocation_retries: self.exhausted_invocation_retries.deep_view(),
            blocked_by_review_issues: self.blocked_by_review_issues.deep_view(),
            paused_for_user_decision: self.paused_for_user_decision.deep_view(),
            invalidated_leaf_node_ids: self.invalidated_leaf_node_ids.deep_view(),
        }
    }
}

impl Clone for RefineGateExecutionReport {
    fn clone(&self) -> (r: Self)
        ensures
            r.deep_view() == self.deep_view(),
    {
        let r: RefineGateExecutionReport = RefineGateExecutionReport {
            status: self.status,
            leaf_attempts: self.leaf_attempts.clone(),
            frontier_attempts: self.frontier_attempts.clone(),
            exhausted_invocation_retries: self.exhausted_invocation_retries.clone(),
            blocked_by_review_issues: self.blocked_by_review_issues.clone(),
            paused_for_user_decision: self.paused_for_user_decision.clone(),
            invalidated_leaf_node_ids: self.invalidated_leaf_node_ids.clone(),
        };
        assert(r.leaf_attempts.deep_view() =~= self.leaf_attempts.deep_view());
        assert(r.frontier_attempts.deep_view() =~= self.frontier_attempts.deep_view());
        assert(r.exhausted_invocation_retries.deep_view() =~= self.exhausted_invocation_retries.deep_view());
        assert(r.blocked_by_review_issues.deep_view() =~= self.blocked_by_review_issues.deep_view());
        assert(r.invalidated_leaf_node_ids.deep_view() =~= self.invalidated_leaf_node_ids.deep_view());
        r
    }
}

/// Why the gates of a rewrite did not run.
#[derive(Debug, PartialEq, Eq)]
pub enum RefineGateExecutionError {
    InvalidRegisteredTargets { reason: String },
}

/// The meaning of a [`RefineGateExecutionError`].
pub enum RefineGateExecutionErrorModel {
    InvalidRegisteredTargets { reason: Seq<char> },
}

impl DeepView for RefineGateExecutionError {
    type V = RefineGateExecutionErrorModel;

    open spec fn deep_view(&self) -> RefineGateExecutionErrorModel {
        match self {
            RefineGateExecutionError::InvalidRegisteredTargets { reason } => RefineGateExecutionErrorModel::InvalidRegisteredTargets {
                reason: reason@,
            },
        }
    }
}

impl Clone for RefineGateExecutionError {
    fn clone(&self) -> (r: Self)
        ensures
            r.deep_view() == self.deep_view(),
    {
        match self {
            RefineGateExecutionError::InvalidRegisteredTargets { reason } => RefineGateExecutionError::InvalidRegisteredTargets {
                reason: reason.clone(),
            },
        }
    }
}

} // verus!
