//! What a rewrite is asked and what it answers.
use super::changes::{
    RefineChangedFile, RefineChangedFileModel, RefineContextInvalidation,
    RefineContextInvalidationModel, RefineStaleNode, RefineStaleNodeModel, RefineStructuralChange,
    RefineStructuralChangeModel, RefineUnchangedNode, RefineUnchangedNodeModel,
};
use super::decision::{
    ExpectedGateRevalidation, ExpectedGateRevalidationModel, RefineDecision, RefineDecisionModel,
};
use super::scope::{RefineRewriteScope, RefineRewriteScopeModel};
use super::summary::{RefineRewriteSummary, RefineRewriteSummaryModel};
use vstd::prelude::*;

verus! {

/// Asks for a rewrite.
#[derive(Debug, PartialEq, Eq)]
pub struct RefineRewriteRequest {
    pub plan_id: String,
    pub plan_root: String,
    pub decisions: Vec<RefineDecision>,
    pub rewrite_scope: RefineRewriteScope,
    pub blocked_follow_ups: Vec<RefineDecision>,
}

/// The meaning of a [`RefineRewriteRequest`].
pub struct RefineRewriteRequestModel {
    pub plan_id: Seq<char>,
    pub plan_root: Seq<char>,
    pub decisions: Seq<RefineDecisionModel>,
    pub rewrite_scope: RefineRewriteScopeModel,
    pub blocked_follow_ups: Seq<RefineDecisionModel>,
}

impl DeepView for RefineRewriteRequest {
    type V = RefineRewriteRequestModel;

    open spec fn deep_view(&self) -> RefineRewriteRequestModel {
        RefineRewriteRequestModel {
            plan_id: self.plan_id@,
            plan_root: self.plan_root@,
            decisions: self.decisions.deep_view(),
            rewrite_scope: self.rewrite_scope.deep_view(),
            blocked_follow_ups: self.blocked_follow_ups.deep_view(),
        }
    }
}

impl Clone for RefineRewriteRequest {
    fn clone(&self) -> (r: Self)
        ensures
            r.deep_view() == self.deep_view(),
    {
        let r: RefineRewriteRequest = RefineRewriteRequest {
            plan_id: self.plan_id.clone(),
            plan_root: self.plan_root.clone(),
            decisions: self.decisions.clone(),
            rewrite_scope: self.rewrite_scope.clone(),
            blocked_follow_ups: self.blocked_follow_ups.clone(),
        };
        assert(r.decisions.deep_view() =~= self.decisions.deep_view());
        assert(r.blocked_follow_ups.deep_view() =~= self.blocked_follow_ups.deep_view());
        r
    }
}

/// What a rewrite did.
#[derive(Debug, PartialEq, Eq)]
pub struct RefineRewriteResult {
    pub changed_files: Vec<RefineChangedFile>,
    pub structural_changes: Vec<RefineStructuralChange>,
    pub stale_nodes: Vec<RefineStaleNode>,
    pub context_invalidations: Vec<RefineContextInvalidation>,
    pub unchanged_nodes: Vec<RefineUnchangedNode>,
    pub expected_gate_targets: Vec<ExpectedGateRevalidation>,
    pub unresolved_follow_ups: Vec<RefineDecision>,
    pub summary: RefineRewriteSummary,
}

/// The meaning of a [`RefineRewriteResult`].
pub struct RefineRewriteResultModel {
    pub changed_files: Seq<RefineChangedFileModel>,
    pub structural_changes: Seq<RefineStructuralChangeModel>,
    pub stale_nodes: Seq<RefineStaleNodeModel>,
    pub context_invalidations: Seq<RefineContextInvalidationModel>,
    pub unchanged_nodes: Seq<RefineUnchangedNodeModel>,
    pub expected_gate_targets: Seq<ExpectedGateRevalidationModel>,
    pub unresolved_follow_ups: Seq<RefineDecisionModel>,
    pub summary: RefineRewriteSummaryModel,
}

impl DeepView for RefineRewriteResult {
    type V = RefineRewriteResultModel;

    open spec fn deep_view(&self) -> RefineRewriteResultModel {
        RefineRewriteResultModel {
            changed_files: self.changed_files.deep_view(),
            structural_changes: self.structural_changes.deep_view(),
            stale_nodes: self.stale_nodes.deep_view(),
            context_invalidations: self.context_invalidations.deep_view(),
            unchanged_nodes: self.unchanged_nodes.deep_view(),
            expected_gate_targets: self.expected_gate_targets.deep_view(),
            unresolved_follow_ups: self.unresolved_follow_ups.deep_view(),
            summary: self.summary.deep_view(),
        }
    }
}

impl Clone for RefineRewriteResult {
    fn clone(&self) -> (r: Self)
        ensures
            r.deep_view() == self.deep_view(),
    {
        let r: RefineRewriteResult = RefineRewriteResult {
            changed_files: self.changed_files.clone(),
            structural_changes: self.structural_changes.clone(),
            stale_nodes: self.stale_nodes.clone(),
            context_invalidations: self.context_invalidations.clone(),
            unchanged_nodes: self.unchanged_nodes.clone(),
            expected_gate_targets: self.expected_gate_targets.clone(),
            unresolved_follow_ups: self.unresolved_follow_ups.clone(),
            summary: self.summary.clone(),
        };
        assert(r.changed_files.deep_view() =~= self.changed_files.deep_view());
        assert(r.structural_changes.deep_view() =~= self.structural_changes.deep_view());
        assert(r.stale_nodes.deep_view() =~= self.stale_nodes.deep_view());
        assert(r.context_invalidations.deep_view() =~= self.context_invalidations.deep_view());
        assert(r.unchanged_nodes.deep_view() =~= self.unchanged_nodes.deep_view());
        assert(r.expected_gate_targets.deep_view() =~= self.expected_gate_targets.deep_view());
        assert(r.unresolved_follow_ups.deep_view() =~= self.unresolved_follow_ups.deep_view());
        r
    }
}

/// Why a rewrite was not done, or not to its end.
#[derive(Debug, PartialEq, Eq)]
pub enum RefineRewriteError {
    MissingPlanRoot,
    InvalidPlanRoot,
    UnauthorizedDecision,
    InvalidRewriteScope,
    Io { path: String, source: String },
    PostWriteStructureViolation { relative_path: String, reason: String },
}

/// The meaning of a [`RefineRewriteError`].
pub enum RefineRewriteErrorModel {
    MissingPlanRoot,
    InvalidPlanRoot,
    UnauthorizedDecision,
    InvalidRewriteScope,
    Io { path: Seq<char>, source: Seq<char> },
    PostWriteStructureViolation { relative_path: Seq<char>, reason: Seq<char> },
}

impl DeepView for RefineRewriteError {
    type V = RefineRewriteErrorModel;

    open spec fn deep_view(&self) -> RefineRewriteErrorModel {
        match self {
            RefineRewriteError::MissingPlanRoot => RefineRewriteErrorModel::MissingPlanRoot,
            RefineRewriteError::InvalidPlanRoot => RefineRewriteErrorModel::InvalidPlanRoot,
            RefineRewriteError::UnauthorizedDecision => RefineRewriteErrorModel::UnauthorizedDecision,
            RefineRewriteError::InvalidRewriteScope => RefineRewriteErrorModel::InvalidRewriteScope,
            RefineRewriteError::Io { path, source } => RefineRewriteErrorModel::Io {
                path: path@,
                source: source@,
            },
            RefineRewriteError::PostWriteStructureViolation { relative_path, reason } => RefineRewriteErrorModel::PostWriteStructureViolation {
                relative_path: relative_path@,
                reason: reason@,
            },
        }
    }
}

impl Clone for RefineRewriteError {
    fn clone(&self) -> (r: Self)
        ensures
            r.deep_view() == self.deep_view(),
    {
        match self {
            RefineRewriteError::MissingPlanRoot => RefineRewriteError::MissingPlanRoot,
            RefineRewriteError::InvalidPlanRoot => RefineRewriteError::InvalidPlanRoot,
            RefineRewriteError::UnauthorizedDecision => RefineRewriteError::UnauthorizedDecision,
            RefineRewriteError::InvalidRewriteScope => RefineRewriteError::InvalidRewriteScope,
            RefineRewriteError::Io { path, source } => RefineRewriteError::Io {
                path: path.clone(),
                source: source.clone(),
            },
            RefineRewriteError::PostWriteStructureViolation { relative_path, reason } => RefineRewriteError::PostWriteStructureViolation {
                relative_path: relative_path.clone(),
                reason: reason.clone(),
            },
        }
    }
}

} // verus!
