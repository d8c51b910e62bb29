//! Refining a plan: from comments to decisions, from decisions to rewritten
//! markdown, and from rewritten markdown to the reviews that have to run again.
pub mod changes;
pub mod context_laws;
pub mod decision;
pub mod decision_laws;
pub mod evidence_laws;
pub mod execution_laws;
pub mod execution_types;
pub mod gate_execution;
pub mod gate_registration;
pub mod gate_targets;
pub mod home_laws;
pub mod impact;
pub mod input_laws;
pub mod link_laws;
pub mod markdown;
pub mod markdown_laws;
pub mod outcome_laws;
pub mod planning_laws;
pub mod refusal_laws;
pub mod registration_laws;
pub mod registration_types;
pub mod revalidation_laws;
pub mod rewrite;
pub mod rewrite_laws;
pub mod rewrite_types;
pub mod runtime_state;
pub mod scope;
pub mod selection_laws;
pub mod selection_types;
pub mod summary;
pub mod summary_laws;
pub mod target_detail_laws;
pub mod target_laws;
pub mod tracking_laws;

pub use changes::{
    RefineChangedFile, RefineChangedFileKind, RefineContextInvalidation, RefineLinkUpdateReport,
    RefineStaleMarkReport, RefineStaleNode, RefineStructuralChange, RefineStructuralChangeKind,
    RefineUnchangedNode,
};
pub use decision::{
    ExpectedGateRevalidation, RefineAffectedScope, RefineAffectedTrackedNode, RefineCommentSource,
    RefineDecision, RefineDecisionChangeType, RefineDecisionConfirmation, RefineDecisionStatus,
    RefineRewriteAction, RefineRewriteActionKind, RefineRewriteLinkChangeKind,
};
pub use execution_types::{
    RefineGateAttempt, RefineGateAttemptOutcome, RefineGateExecutionError,
    RefineGateExecutionReport, RefineGateExecutionStatus, RefineGateInvocationFailure,
    RefineGateKind, RefineGateProcessedCommentBlock, RefineGateRetryPolicy,
    RefineGateRevalidationContext, RunRefineGateRevalidationRequest,
};
pub use gate_execution::run_refine_gate_revalidation;
pub use gate_registration::register_refine_gate_targets;
pub use gate_targets::select_refine_gate_targets;
pub use impact::{
    RefineImpactAnalysis, RefineImpactAnalysisRequest, RefineImpactCategory,
    RefineImpactMappingIssue, analyze_refine_comment_impact,
};
pub use registration_types::{
    RefineFrontierRegistrationCandidate, RefineGatePreparationError, RefineGateTargetReason,
    RefineLeafRegistrationCandidate, RefineParentRegistrationCandidate,
    RegisterRefineGateTargetsRequest, RegisteredRefineFrontierTarget, RegisteredRefineGateTargets,
    RegisteredRefineLeafTarget, RegisteredRefineParentTarget,
};
pub use rewrite::apply_refine_rewrite;
pub use rewrite_types::{RefineRewriteError, RefineRewriteRequest, RefineRewriteResult};
pub use runtime_state::{
    BuildRefineGateSelectionInputsRequest, RefineGateSelectionInputs,
    RefinePriorFrontierGateSummary, RefinePriorGateSummaries, RefinePriorLeafGateSummary,
    RefineRuntimeNodeSnapshot, RefineRuntimeNodeSummary, RefineRuntimeStateLoadError,
    RefineStaleGateClassification, RefineStaleResultHandoff, StaleGateTargetKind,
    build_refine_gate_selection_inputs,
};
pub use scope::{
    RefineLinkChange, RefineNodeCreation, RefineNodeCreationRemovalPlan, RefineNodeRemoval,
    RefineRewriteScope, RefineRewriteScopeConflict, RefineRewriteScopeError,
    RefineRewriteScopeRequest, RefineRewriteTarget, RefineStaleDescendant,
    plan_refine_rewrite_scope,
};
pub use selection_types::{
    ExpectedFrontierGateTargetSummary, ExpectedGateTargetSummary, ExpectedLeafGateTargetSummary,
    RefineFrontierGateTarget, RefineGateTargetSelection, RefineLeafGateTarget,
    SelectRefineGateTargetsRequest, StaleGateApproval,
};
pub use summary::{RefineRewriteSummary, RefineStaleNodeSummaryEntry, RefineStaleNodeSummaryKind};
