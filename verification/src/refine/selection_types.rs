//! What is asked and answered when gates are selected.
use super::registration_types::RefineGateTargetReason;
use super::rewrite_types::{RefineRewriteResult, RefineRewriteResultModel};
use super::runtime_state::{
    RefinePriorGateSummaries, RefinePriorGateSummariesModel, RefineRuntimeNodeSnapshot,
    RefineRuntimeNodeSnapshotModel, RefineStaleResultHandoff, RefineStaleResultHandoffModel,
    StaleGateTargetKind,
};
use vstd::prelude::*;

verus! {

/// Asks which gates run again after a rewrite.
#[derive(Debug, PartialEq, Eq)]
pub struct SelectRefineGateTargetsRequest {
    pub plan_id: String,
    pub rewrite_result: RefineRewriteResult,
    pub runtime_snapshot: RefineRuntimeNodeSnapshot,
    pub prior_gate_summaries: RefinePriorGateSummaries,
    pub stale_result_handoff: Vec<RefineStaleResultHandoff>,
}

/// The meaning of a [`SelectRefineGateTargetsRequest`].
pub struct SelectRefineGateTargetsRequestModel {
    pub plan_id: Seq<char>,
    pub rewrite_result: RefineRewriteResultModel,
    pub runtime_snapshot: RefineRuntimeNodeSnapshotModel,
    pub prior_gate_summaries: RefinePriorGateSummariesModel,
    pub stale_result_handoff: Seq<RefineStaleResultHandoffModel>,
}

impl DeepView for SelectRefineGateTargetsRequest {
    type V = SelectRefineGateTargetsRequestModel;

    open spec fn deep_view(&self) -> SelectRefineGateTargetsRequestModel {
        SelectRefineGateTargetsRequestModel {
            plan_id: self.plan_id@,
            rewrite_result: self.rewrite_result.deep_view(),
            runtime_snapshot: self.runtime_snapshot.deep_view(),
            prior_gate_summaries: self.prior_gate_summaries.deep_view(),
            stale_result_handoff: self.stale_result_handoff.deep_view(),
        }
    }
}

impl Clone for SelectRefineGateTargetsRequest {
    fn clone(&self) -> (r: Self)
        ensures
            r.deep_view() == self.deep_view(),
    {
        let r: SelectRefineGateTargetsRequest = SelectRefineGateTargetsRequest {
            plan_id: self.plan_id.clone(),
            rewrite_result: self.rewrite_result.clone(),
            runtime_snapshot: self.runtime_snapshot.clone(),
            prior_gate_summaries: self.prior_gate_summaries.clone(),
            stale_result_handoff: self.stale_result_handoff.clone(),
        };
        assert(r.stale_result_handoff.deep_view() =~= self.stale_result_handoff.deep_view());
        r
    }
}

/// A leaf whose gate runs again.
#[derive(Debug, PartialEq, Eq)]
pub struct RefineLeafGateTarget {
    pub node_id: Option<String>,
    pub relative_path: String,
    pub parent_relative_path: Option<String>,
    pub reasons: Vec<RefineGateTargetReason>,
}

/// The meaning of a [`RefineLeafGateTarget`].
pub struct RefineLeafGateTargetModel {
    pub node_id: Option<Seq<char>>,
    pub relative_path: Seq<char>,
    pub parent_relative_path: Option<Seq<char>>,
    pub reasons: Seq<RefineGateTargetReason>,
}

impl DeepView for RefineLeafGateTarget {
    type V = RefineLeafGateTargetModel;

    open spec fn deep_view(&self) -> RefineLeafGateTargetModel {
        RefineLeafGateTargetModel {
            node_id: self.node_id.deep_view(),
            relative_path: self.relative_path@,
            parent_relative_path: self.parent_relative_path.deep_view(),
            reasons: self.reasons.deep_view(),
        }
    }
}

impl Clone for RefineLeafGateTarget {
    fn clone(&self) -> (r: Self)
        ensures
            r.deep_view() == self.deep_view(),
    {
        let r: RefineLeafGateTarget = RefineLeafGateTarget {
            node_id: self.node_id.clone(),
            relative_path: self.relative_path.clone(),
            parent_relative_path: self.parent_relative_path.clone(),
            reasons: self.reasons.clone(),
        };
        assert(r.reasons.deep_view() =~= self.reasons.deep_view());
        r
    }
}

/// A parent whose gate runs again.
#[derive(Debug, PartialEq, Eq)]
pub struct RefineFrontierGateTarget {
    pub parent_node_id: Option<String>,
    pub parent_relative_path: String,
    pub changed_child_relative_paths: Vec<String>,
    pub removed_child_relative_paths: Vec<String>,
    pub reasons: Vec<RefineGateTargetReason>,
}

/// The meaning of a [`RefineFrontierGateTarget`].
pub struct RefineFrontierGateTargetModel {
    pub parent_node_id: Option<Seq<char>>,
    pub parent_relative_path: Seq<char>,
    pub changed_child_relative_paths: Seq<Seq<char>>,
    pub removed_child_relative_paths: Seq<Seq<char>>,
    pub reasons: Seq<RefineGateTargetReason>,
}

impl DeepView for RefineFrontierGateTarget {
    type V = RefineFrontierGateTargetModel;

    open spec fn deep_view(&self) -> RefineFrontierGateTargetModel {
        RefineFrontierGateTargetModel {
            parent_node_id: self.parent_node_id.deep_view(),
            parent_relative_path: self.parent_relative_path@,
            changed_child_relative_paths: self.changed_child_relative_paths.deep_view(),
            removed_child_relative_paths: self.removed_child_relative_paths.deep_view(),
            reasons: self.reasons.deep_view(),
        }
    }
}

impl Clone for RefineFrontierGateTarget {
    fn clone(&self) -> (r: Self)
        ensures
            r.deep_view() == self.deep_view(),
    {
        let r: RefineFrontierGateTarget = RefineFrontierGateTarget {
            parent_node_id: self.parent_node_id.clone(),
            parent_relative_path: self.parent_relative_path.clone(),
            changed_child_relative_paths: self.changed_child_relative_paths.clone(),
            removed_child_relative_paths: self.removed_child_relative_paths.clone(),
            reasons: self.reasons.clone(),
        };
        assert(r.changed_child_relative_paths.deep_view() =~= self.changed_child_relative_paths.deep_view());
        assert(r.removed_child_relative_paths.deep_view() =~= self.removed_child_relative_paths.deep_view());
        assert(r.reasons.deep_view() =~= self.reasons.deep_view());
        r
    }
}

/// An approval that does not hold any more.
#[derive(Debug, PartialEq, Eq)]
pub struct StaleGateApproval {
    pub target_kind: StaleGateTargetKind,
    pub node_id: String,
    pub relative_path: String,
    pub gate_run_id: String,
    pub stale_reasons: Vec<RefineGateTargetReason>,
}

/// The meaning of a [`StaleGateApproval`].
pub struct StaleGateApprovalModel {
    pub target_kind: StaleGateTargetKind,
    pub node_id: Seq<char>,
    pub relative_path: Seq<char>,
    pub gate_run_id: Seq<char>,
    pub stale_reasons: Seq<RefineGateTargetReason>,
}

impl DeepView for StaleGateApproval {
    type V = StaleGateApprovalModel;

    open spec fn deep_view(&self) -> StaleGateApprovalModel {
        StaleGateApprovalModel {
            target_kind: self.target_kind,
            node_id: self.node_id@,
            relative_path: self.relative_path@,
            gate_run_id: self.gate_run_id@,
            stale_reasons: self.stale_reasons.deep_view(),
        }
    }
}

impl Clone for StaleGateApproval {
    fn clone(&self) -> (r: Self)
        ensures
            r.deep_view() == self.deep_view(),
    {
        let r: StaleGateApproval = StaleGateApproval {
            target_kind: self.target_kind,
            node_id: self.node_id.clone(),
            relative_path: self.relative_path.clone(),
            gate_run_id: self.gate_run_id.clone(),
            stale_reasons: self.stale_reasons.clone(),
        };
        assert(r.stale_reasons.deep_view() =~= self.stale_reasons.deep_view());
        r
    }
}

/// A leaf whose gate is expected to run.
#[derive(Debug, PartialEq, Eq)]
pub struct ExpectedLeafGateTargetSummary {
    pub node_id: Option<String>,
    pub relative_path: String,
    pub parent_relative_path: Option<String>,
    pub reasons: Vec<RefineGateTargetReason>,
}

/// The meaning of a [`ExpectedLeafGateTargetSummary`].
pub struct ExpectedLeafGateTargetSummaryModel {
    pub node_id: Option<Seq<char>>,
    pub relative_path: Seq<char>,
    pub parent_relative_path: Option<Seq<char>>,
    pub reasons: Seq<RefineGateTargetReason>,
}

impl DeepView for ExpectedLeafGateTargetSummary {
    type V = ExpectedLeafGateTargetSummaryModel;

    open spec fn deep_view(&self) -> ExpectedLeafGateTargetSummaryModel {
        ExpectedLeafGateTargetSummaryModel {
            node_id: self.node_id.deep_view(),
            relative_path: self.relative_path@,
            parent_relative_path: self.parent_relative_path.deep_view(),
            reasons: self.reasons.deep_view(),
        }
    }
}

impl Clone for ExpectedLeafGateTargetSummary {
    fn clone(&self) -> (r: Self)
        ensures
            r.deep_view() == self.deep_view(),
    {
        let r: ExpectedLeafGateTargetSummary = ExpectedLeafGateTargetSummary {
            node_id: self.node_id.clone(),
            relative_path: self.relative_path.clone(),
            parent_relative_path: self.parent_relative_path.clone(),
            reasons: self.reasons.clone(),
        };
        assert(r.reasons.deep_view() =~= self.reasons.deep_view());
        r
    }
}

/// A parent whose gate is expected to run.
#[derive(Debug, PartialEq, Eq)]
pub struct ExpectedFrontierGateTargetSummary {
    pub parent_node_id: Option<String>,
    pub parent_relative_path: String,
    pub changed_child_relative_paths: Vec<String>,
    pub removed_child_relative_paths: Vec<String>,
    pub reasons: Vec<RefineGateTargetReason>,
}

/// The meaning of a [`ExpectedFrontierGateTargetSummary`].
pub struct ExpectedFrontierGateTargetSummaryModel {
    pub parent_node_id: Option<Seq<char>>,
    pub parent_relative_path: Seq<char>,
    pub changed_child_relative_paths: Seq<Seq<char>>,
    pub removed_child_relative_paths: Seq<Seq<char>>,
    pub reasons: Seq<RefineGateTargetReason>,
}

impl DeepView for ExpectedFrontierGateTargetSummary {
    type V = ExpectedFrontierGateTargetSummaryModel;

    open spec fn deep_view(&self) -> ExpectedFrontierGateTargetSummaryModel {
        ExpectedFrontierGateTargetSummaryModel {
            parent_node_id: self.parent_node_id.deep_view(),
            parent_relative_path: self.parent_relative_path@,
            changed_child_relative_paths: self.changed_child_relative_paths.deep_view(),
            removed_child_relative_paths: self.removed_child_relative_paths.deep_view(),
            reasons: self.reasons.deep_view(),
        }
    }
}

impl Clone for ExpectedFrontierGateTargetSummary {
    fn clone(&self) -> (r: Self)
        ensures
            r.deep_view() == self.deep_view(),
    {
        let r: ExpectedFrontierGateTargetSummary = ExpectedFrontierGateTargetSummary {
            parent_node_id: self.parent_node_id.clone(),
            parent_relative_path: self.parent_relative_path.clone(),
            changed_child_relative_paths: self.changed_child_relative_paths.clone(),
            removed_child_relative_paths: self.removed_child_relative_paths.clone(),
            reasons: self.reasons.clone(),
        };
        assert(r.changed_child_relative_paths.deep_view() =~= self.changed_child_relative_paths.deep_view());
        assert(r.removed_child_relative_paths.deep_view() =~= self.removed_child_relative_paths.deep_view());
        assert(r.reasons.deep_view() =~= self.reasons.deep_view());
        r
    }
}

/// The gates that are expected to run.
#[derive(Debug, PartialEq, Eq)]
pub struct ExpectedGateTargetSummary {
    pub leaf_targets: Vec<ExpectedLeafGateTargetSummary>,
    pub frontier_targets: Vec<ExpectedFrontierGateTargetSummary>,
}

/// The meaning of a [`ExpectedGateTargetSummary`].
pub struct ExpectedGateTargetSummaryModel {
    pub leaf_targets: Seq<ExpectedLeafGateTargetSummaryModel>,
    pub frontier_targets: Seq<ExpectedFrontierGateTargetSummaryModel>,
}

impl DeepView for ExpectedGateTargetSummary {
    type V = ExpectedGateTargetSummaryModel;

    open spec fn deep_view(&self) -> ExpectedGateTargetSummaryModel {
        ExpectedGateTargetSummaryModel {
            leaf_targets: self.leaf_targets.deep_view(),
            frontier_targets: self.frontier_targets.deep_view(),
        }
    }
}

impl Clone for ExpectedGateTargetSummary {
    fn clone(&self) -> (r: Self)
        ensures
            r.deep_view() == self.deep_view(),
    {
        let r: ExpectedGateTargetSummary = ExpectedGateTargetSummary {
            leaf_targets: self.leaf_targets.clone(),
            frontier_targets: self.frontier_targets.clone(),
        };
        assert(r.leaf_targets.deep_view() =~= self.leaf_targets.deep_view());
        assert(r.frontier_targets.deep_view() =~= self.frontier_targets.deep_view());
        r
    }
}

impl ExpectedGateTargetSummaryModel {
    /// Nothing in any of the lists.
    pub open spec fn empty() -> ExpectedGateTargetSummaryModel {
        ExpectedGateTargetSummaryModel {
            leaf_targets: Seq::empty(),
            frontier_targets: Seq::empty(),
        }
    }
}

impl Default for ExpectedGateTargetSummary {
    fn default() -> (r: Self)
        ensures
            r.deep_view() == ExpectedGateTargetSummaryModel::empty(),
    {
        let r: ExpectedGateTargetSummary = ExpectedGateTargetSummary {
            leaf_targets: Vec::new(),
            frontier_targets: Vec::new(),
        };
        assert(r.leaf_targets.deep_view() =~= Seq::empty());
        assert(r.frontier_targets.deep_view() =~= Seq::empty());
        r
    }
}

/// The gates that run again after a rewrite.
#[derive(Debug, PartialEq, Eq)]
pub struct RefineGateTargetSelection {
    pub leaf_targets: Vec<RefineLeafGateTarget>,
    pub frontier_targets: Vec<RefineFrontierGateTarget>,
    pub stale_leaf_approvals: Vec<StaleGateApproval>,
    pub stale_frontier_approvals: Vec<StaleGateApproval>,
    pub expected_target_summary: ExpectedGateTargetSummary,
}

/// The meaning of a [`RefineGateTargetSelection`].
pub struct RefineGateTargetSelectionModel {
    pub leaf_targets: Seq<RefineLeafGateTargetModel>,
    pub frontier_targets: Seq<RefineFrontierGateTargetModel>,
    pub stale_leaf_approvals: Seq<StaleGateApprovalModel>,
    pub stale_frontier_approvals: Seq<StaleGateApprovalModel>,
    pub expected_target_summary: ExpectedGateTargetSummaryModel,
}

impl DeepView for RefineGateTargetSelection {
    type V = RefineGateTargetSelectionModel;

    open spec fn deep_view(&self) -> RefineGateTargetSelectionModel {
        RefineGateTargetSelectionModel {
            leaf_targets: self.leaf_targets.deep_view(),
            frontier_targets: self.frontier_targets.deep_view(),
            stale_leaf_approvals: self.stale_leaf_approvals.deep_view(),
            stale_frontier_approvals: self.stale_frontier_approvals.deep_view(),
            expected_target_summary: self.expected_target_summary.deep_view(),
        }
    }
}

impl Clone for RefineGateTargetSelection {
    fn clone(&self) -> (r: Self)
        ensures
            r.deep_view() == self.deep_view(),
    {
        let r: RefineGateTargetSelection = RefineGateTargetSelection {
            leaf_targets: self.leaf_targets.clone(),
            frontier_targets: self.frontier_targets.clone(),
            stale_leaf_approvals: self.stale_leaf_approvals.clone(),
            stale_frontier_approvals: self.stale_frontier_approvals.clone(),
            expected_target_summary: self.expected_target_summary.clone(),
        };
        assert(r.leaf_targets.deep_view() =~= self.leaf_targets.deep_view());
        assert(r.frontier_targets.deep_view() =~= self.frontier_targets.deep_view());
        assert(r.stale_leaf_approvals.deep_view() =~= self.stale_leaf_approvals.deep_view());
        assert(r.stale_frontier_approvals.deep_view() =~= self.stale_frontier_approvals.deep_view());
        r
    }
}

impl RefineGateTargetSelectionModel {
    /// Nothing in any of the lists.
    pub open spec fn empty() -> RefineGateTargetSelectionModel {
        RefineGateTargetSelectionModel {
            leaf_targets: Seq::empty(),
            frontier_targets: Seq::empty(),
            stale_leaf_approvals: Seq::empty(),
            stale_frontier_approvals: Seq::empty(),
            expected_target_summary: ExpectedGateTargetSummaryModel::empty(),
        }
    }
}

impl Default for RefineGateTargetSelection {
    fn default() -> (r: Self)
        ensures
            r.deep_view() == RefineGateTargetSelectionModel::empty(),
    {
        let r: RefineGateTargetSelection = RefineGateTargetSelection {
            leaf_targets: Vec::new(),
            frontier_targets: Vec::new(),
            stale_leaf_approvals: Vec::new(),
            stale_frontier_approvals: Vec::new(),
            expected_target_summary: ExpectedGateTargetSummary::default(),
        };
        assert(r.leaf_targets.deep_view() =~= Seq::empty());
        assert(r.frontier_targets.deep_view() =~= Seq::empty());
        assert(r.stale_leaf_approvals.deep_view() =~= Seq::empty());
        assert(r.stale_frontier_approvals.deep_view() =~= Seq::empty());
        r
    }
}

} // verus!
