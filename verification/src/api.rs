//! The requests and responses of the plan runtime.
use vstd::prelude::*;

verus! {

/// Who takes the decisions that a review leaves open.
#[derive(Debug, Clone, Copy, PartialEq, Eq, Structural)]
pub enum PlannerMode {
    Manual,
    Auto,
}

impl DeepView for PlannerMode {
    type V = PlannerMode;

    open spec fn deep_view(&self) -> PlannerMode {
        *self
    }
}

/// The two kinds of plan node.
#[derive(Debug, Clone, Copy, PartialEq, Eq, Structural)]
pub enum NodeKind {
    Parent,
    Leaf,
}

impl DeepView for NodeKind {
    type V = NodeKind;

    open spec fn deep_view(&self) -> NodeKind {
        *self
    }
}

/// Asks for the plan of this name, made if it is not there yet.
#[derive(Debug, PartialEq, Eq)]
pub struct EnsurePlanRequest {
    pub plan_name: String,
    pub task_type: String,
    pub project_directory: String,
}

/// The meaning of a [`EnsurePlanRequest`].
pub struct EnsurePlanRequestModel {
    pub plan_name: Seq<char>,
    pub task_type: Seq<char>,
    pub project_directory: Seq<char>,
}

impl DeepView for EnsurePlanRequest {
    type V = EnsurePlanRequestModel;

    open spec fn deep_view(&self) -> EnsurePlanRequestModel {
        EnsurePlanRequestModel {
            plan_name: self.plan_name@,
            task_type: self.task_type@,
            project_directory: self.project_directory@,
        }
    }
}

impl Clone for EnsurePlanRequest {
    fn clone(&self) -> (r: Self)
        ensures
            r.deep_view() == self.deep_view(),
    {
        EnsurePlanRequest {
            plan_name: self.plan_name.clone(),
            task_type: self.task_type.clone(),
            project_directory: self.project_directory.clone(),
        }
    }
}

/// The plan that was found or made.
#[derive(Debug, PartialEq, Eq)]
pub struct EnsurePlanResponse {
    pub plan_id: String,
    pub plan_root: String,
    pub plan_status: String,
}

/// The meaning of a [`EnsurePlanResponse`].
pub struct EnsurePlanResponseModel {
    pub plan_id: Seq<char>,
    pub plan_root: Seq<char>,
    pub plan_status: Seq<char>,
}

impl DeepView for EnsurePlanResponse {
    type V = EnsurePlanResponseModel;

    open spec fn deep_view(&self) -> EnsurePlanResponseModel {
        EnsurePlanResponseModel {
            plan_id: self.plan_id@,
            plan_root: self.plan_root@,
            plan_status: self.plan_status@,
        }
    }
}

impl Clone for EnsurePlanResponse {
    fn clone(&self) -> (r: Self)
        ensures
            r.deep_view() == self.deep_view(),
    {
        EnsurePlanResponse {
            plan_id: self.plan_id.clone(),
            plan_root: self.plan_root.clone(),
            plan_status: self.plan_status.clone(),
        }
    }
}

/// Asks for an existing plan.
#[derive(Debug, PartialEq, Eq)]
pub struct OpenPlanRequest {
    pub plan_name: String,
}

/// The meaning of a [`OpenPlanRequest`].
pub struct OpenPlanRequestModel {
    pub plan_name: Seq<char>,
}

impl DeepView for OpenPlanRequest {
    type V = OpenPlanRequestModel;

    open spec fn deep_view(&self) -> OpenPlanRequestModel {
        OpenPlanRequestModel {
            plan_name: self.plan_name@,
        }
    }
}

impl Clone for OpenPlanRequest {
    fn clone(&self) -> (r: Self)
        ensures
            r.deep_view() == self.deep_view(),
    {
        OpenPlanRequest {
            plan_name: self.plan_name.clone(),
        }
    }
}

/// The plan that was found.
#[derive(Debug, PartialEq, Eq)]
pub struct OpenPlanResponse {
    pub plan_id: String,
    pub plan_root: String,
    pub plan_status: String,
    pub task_type: String,
}

/// The meaning of a [`OpenPlanResponse`].
pub struct OpenPlanResponseModel {
    pub plan_id: Seq<char>,
    pub plan_root: Seq<char>,
    pub plan_status: Seq<char>,
    pub task_type: Seq<char>,
}

impl DeepView for OpenPlanResponse {
    type V = OpenPlanResponseModel;

    open spec fn deep_view(&self) -> OpenPlanResponseModel {
        OpenPlanResponseModel {
            plan_id: self.plan_id@,
            plan_root: self.plan_root@,
            plan_status: self.plan_status@,
            task_type: self.task_type@,
        }
    }
}

impl Clone for OpenPlanResponse {
    fn clone(&self) -> (r: Self)
        ensures
            r.deep_view() == self.deep_view(),
    {
        OpenPlanResponse {
            plan_id: self.plan_id.clone(),
            plan_root: self.plan_root.clone(),
            plan_status: self.plan_status.clone(),
            task_type: self.task_type.clone(),
        }
    }
}

/// Asks for the id of the node at a path, tracked from now on if it was not yet.
#[derive(Debug, PartialEq, Eq)]
pub struct EnsureNodeIdRequest {
    pub plan_id: String,
    pub relative_path: String,
    pub parent_relative_path: Option<String>,
}

/// The meaning of a [`EnsureNodeIdRequest`].
pub struct EnsureNodeIdRequestModel {
    pub plan_id: Seq<char>,
    pub relative_path: Seq<char>,
    pub parent_relative_path: Option<Seq<char>>,
}

impl DeepView for EnsureNodeIdRequest {
    type V = EnsureNodeIdRequestModel;

    open spec fn deep_view(&self) -> EnsureNodeIdRequestModel {
        EnsureNodeIdRequestModel {
            plan_id: self.plan_id@,
            relative_path: self.relative_path@,
            parent_relative_path: self.parent_relative_path.deep_view(),
        }
    }
}

impl Clone for EnsureNodeIdRequest {
    fn clone(&self) -> (r: Self)
        ensures
            r.deep_view() == self.deep_view(),
    {
        EnsureNodeIdRequest {
            plan_id: self.plan_id.clone(),
            relative_path: self.relative_path.clone(),
            parent_relative_path: self.parent_relative_path.clone(),
        }
    }
}

/// The id of the node.
#[derive(Debug, PartialEq, Eq)]
pub struct EnsureNodeIdResponse {
    pub node_id: String,
}

/// The meaning of a [`EnsureNodeIdResponse`].
pub struct EnsureNodeIdResponseModel {
    pub node_id: Seq<char>,
}

impl DeepView for EnsureNodeIdResponse {
    type V = EnsureNodeIdResponseModel;

    open spec fn deep_view(&self) -> EnsureNodeIdResponseModel {
        EnsureNodeIdResponseModel {
            node_id: self.node_id@,
        }
    }
}

impl Clone for EnsureNodeIdResponse {
    fn clone(&self) -> (r: Self)
        ensures
            r.deep_view() == self.deep_view(),
    {
        EnsureNodeIdResponse {
            node_id: self.node_id.clone(),
        }
    }
}

/// Asks for one node, by its id or by its path.
#[derive(Debug, PartialEq, Eq)]
pub struct InspectNodeRequest {
    pub plan_id: String,
    pub node_id: Option<String>,
    pub relative_path: Option<String>,
}

/// The meaning of a [`InspectNodeRequest`].
pub struct InspectNodeRequestModel {
    pub plan_id: Seq<char>,
    pub node_id: Option<Seq<char>>,
    pub relative_path: Option<Seq<char>>,
}

impl DeepView for InspectNodeRequest {
    type V = InspectNodeRequestModel;

    open spec fn deep_view(&self) -> InspectNodeRequestModel {
        InspectNodeRequestModel {
            plan_id: self.plan_id@,
            node_id: self.node_id.deep_view(),
            relative_path: self.relative_path.deep_view(),
        }
    }
}

impl Clone for InspectNodeRequest {
    fn clone(&self) -> (r: Self)
        ensures
            r.deep_view() == self.deep_view(),
    {
        InspectNodeRequest {
            plan_id: self.plan_id.clone(),
            node_id: self.node_id.clone(),
            relative_path: self.relative_path.clone(),
        }
    }
}

/// One tracked node.
#[derive(Debug, PartialEq, Eq)]
pub struct NodeSummary {
    pub node_id: String,
    pub relative_path: String,
    pub node_kind: NodeKind,
    pub parent_node_id: Option<String>,
}

/// The meaning of a [`NodeSummary`].
pub struct NodeSummaryModel {
    pub node_id: Seq<char>,
    pub relative_path: Seq<char>,
    pub node_kind: NodeKind,
    pub parent_node_id: Option<Seq<char>>,
}

impl DeepView for NodeSummary {
    type V = NodeSummaryModel;

    open spec fn deep_view(&self) -> NodeSummaryModel {
        NodeSummaryModel {
            node_id: self.node_id@,
            relative_path: self.relative_path@,
            node_kind: self.node_kind,
            parent_node_id: self.parent_node_id.deep_view(),
        }
    }
}

impl Clone for NodeSummary {
    fn clone(&self) -> (r: Self)
        ensures
            r.deep_view() == self.deep_view(),
    {
        NodeSummary {
            node_id: self.node_id.clone(),
            relative_path: self.relative_path.clone(),
            node_kind: self.node_kind,
            parent_node_id: self.parent_node_id.clone(),
        }
    }
}

/// What a gate run left behind.
#[derive(Debug, PartialEq, Eq)]
pub struct GateSummary {
    pub gate_run_id: String,
    pub reviewer_role_id: String,
    pub summary: String,
}

/// The meaning of a [`GateSummary`].
pub struct GateSummaryModel {
    pub gate_run_id: Seq<char>,
    pub reviewer_role_id: Seq<char>,
    pub summary: Seq<char>,
}

impl DeepView for GateSummary {
    type V = GateSummaryModel;

    open spec fn deep_view(&self) -> GateSummaryModel {
        GateSummaryModel {
            gate_run_id: self.gate_run_id@,
            reviewer_role_id: self.reviewer_role_id@,
            summary: self.summary@,
        }
    }
}

impl Clone for GateSummary {
    fn clone(&self) -> (r: Self)
        ensures
            r.deep_view() == self.deep_view(),
    {
        GateSummary {
            gate_run_id: self.gate_run_id.clone(),
            reviewer_role_id: self.reviewer_role_id.clone(),
            summary: self.summary.clone(),
        }
    }
}

/// One tracked node with its surroundings.
#[derive(Debug, PartialEq, Eq)]
pub struct InspectNodeResponse {
    pub node_id: String,
    pub relative_path: String,
    pub node_kind: NodeKind,
    pub parent_node_id: Option<String>,
    pub parent_relative_path: Option<String>,
    pub children: Vec<NodeSummary>,
    pub latest_passed_leaf_gate_summary: Option<GateSummary>,
    pub latest_frontier_gate_summary: Option<GateSummary>,
}

/// The meaning of a [`InspectNodeResponse`].
pub struct InspectNodeResponseModel {
    pub node_id: Seq<char>,
    pub relative_path: Seq<char>,
    pub node_kind: NodeKind,
    pub parent_node_id: Option<Seq<char>>,
    pub parent_relative_path: Option<Seq<char>>,
    pub children: Seq<NodeSummaryModel>,
    pub latest_passed_leaf_gate_summary: Option<GateSummaryModel>,
    pub latest_frontier_gate_summary: Option<GateSummaryModel>,
}

impl DeepView for InspectNodeResponse {
    type V = InspectNodeResponseModel;

    open spec fn deep_view(&self) -> InspectNodeResponseModel {
        InspectNodeResponseModel {
            node_id: self.node_id@,
            relative_path: self.relative_path@,
            node_kind: self.node_kind,
            parent_node_id: self.parent_node_id.deep_view(),
            parent_relative_path: self.parent_relative_path.deep_view(),
            children: self.children.deep_view(),
            latest_passed_leaf_gate_summary: self.latest_passed_leaf_gate_summary.deep_view(),
            latest_frontier_gate_summary: self.latest_frontier_gate_summary.deep_view(),
        }
    }
}

impl Clone for InspectNodeResponse {
    fn clone(&self) -> (r: Self)
        ensures
            r.deep_view() == self.deep_view(),
    {
        let r: InspectNodeResponse = InspectNodeResponse {
            node_id: self.node_id.clone(),
            relative_path: self.relative_path.clone(),
            node_kind: self.node_kind,
            parent_node_id: self.parent_node_id.clone(),
            parent_relative_path: self.parent_relative_path.clone(),
            children: self.children.clone(),
            latest_passed_leaf_gate_summary: self.latest_passed_leaf_gate_summary.clone(),
            latest_frontier_gate_summary: self.latest_frontier_gate_summary.clone(),
        };
        assert(r.children.deep_view() =~= self.children.deep_view());
        r
    }
}

/// Asks for the children of a parent node, by its id or by its path.
#[derive(Debug, PartialEq, Eq)]
pub struct ListChildrenRequest {
    pub plan_id: String,
    pub parent_node_id: Option<String>,
    pub parent_relative_path: Option<String>,
}

/// The meaning of a [`ListChildrenRequest`].
pub struct ListChildrenRequestModel {
    pub plan_id: Seq<char>,
    pub parent_node_id: Option<Seq<char>>,
    pub parent_relative_path: Option<Seq<char>>,
}

impl DeepView for ListChildrenRequest {
    type V = ListChildrenRequestModel;

    open spec fn deep_view(&self) -> ListChildrenRequestModel {
        ListChildrenRequestModel {
            plan_id: self.plan_id@,
            parent_node_id: self.parent_node_id.deep_view(),
            parent_relative_path: self.parent_relative_path.deep_view(),
        }
    }
}

impl Clone for ListChildrenRequest {
    fn clone(&self) -> (r: Self)
        ensures
            r.deep_view() == self.deep_view(),
    {
        ListChildrenRequest {
            plan_id: self.plan_id.clone(),
            parent_node_id: self.parent_node_id.clone(),
            parent_relative_path: self.parent_relative_path.clone(),
        }
    }
}

/// The children of a parent node.
#[derive(Debug, PartialEq, Eq)]
pub struct ListChildrenResponse {
    pub parent_node_id: String,
    pub parent_relative_path: String,
    pub children: Vec<NodeSummary>,
}

/// The meaning of a [`ListChildrenResponse`].
pub struct ListChildrenResponseModel {
    pub parent_node_id: Seq<char>,
    pub parent_relative_path: Seq<char>,
    pub children: Seq<NodeSummaryModel>,
}

impl DeepView for ListChildrenResponse {
    type V = ListChildrenResponseModel;

    open spec fn deep_view(&self) -> ListChildrenResponseModel {
        ListChildrenResponseModel {
            parent_node_id: self.parent_node_id@,
            parent_relative_path: self.parent_relative_path@,
            children: self.children.deep_view(),
        }
    }
}

impl Clone for ListChildrenResponse {
    fn clone(&self) -> (r: Self)
        ensures
            r.deep_view() == self.deep_view(),
    {
        let r: ListChildrenResponse = ListChildrenResponse {
            parent_node_id: self.parent_node_id.clone(),
            parent_relative_path: self.parent_relative_path.clone(),
            children: self.children.clone(),
        };
        assert(r.children.deep_view() =~= self.children.deep_view());
        r
    }
}

/// Asks that the children of a parent node become those that its markdown links.
#[derive(Debug, PartialEq, Eq)]
pub struct ReconcileParentChildLinksRequest {
    pub plan_id: String,
    pub parent_relative_path: String,
}

/// The meaning of a [`ReconcileParentChildLinksRequest`].
pub struct ReconcileParentChildLinksRequestModel {
    pub plan_id: Seq<char>,
    pub parent_relative_path: Seq<char>,
}

impl DeepView for ReconcileParentChildLinksRequest {
    type V = ReconcileParentChildLinksRequestModel;

    open spec fn deep_view(&self) -> ReconcileParentChildLinksRequestModel {
        ReconcileParentChildLinksRequestModel {
            plan_id: self.plan_id@,
            parent_relative_path: self.parent_relative_path@,
        }
    }
}

impl Clone for ReconcileParentChildLinksRequest {
    fn clone(&self) -> (r: Self)
        ensures
            r.deep_view() == self.deep_view(),
    {
        ReconcileParentChildLinksRequest {
            plan_id: self.plan_id.clone(),
            parent_relative_path: self.parent_relative_path.clone(),
        }
    }
}

/// What the markdown links, and what changed for it.
#[derive(Debug, PartialEq, Eq)]
pub struct ReconcileParentChildLinksResponse {
    pub parent_node_id: String,
    pub parent_relative_path: String,
    pub linked_child_relative_paths: Vec<String>,
    pub attached_child_relative_paths: Vec<String>,
    pub detached_child_relative_paths: Vec<String>,
}

/// The meaning of a [`ReconcileParentChildLinksResponse`].
pub struct ReconcileParentChildLinksResponseModel {
    pub parent_node_id: Seq<char>,
    pub parent_relative_path: Seq<char>,
    pub linked_child_relative_paths: Seq<Seq<char>>,
    pub attached_child_relative_paths: Seq<Seq<char>>,
    pub detached_child_relative_paths: Seq<Seq<char>>,
}

impl DeepView for ReconcileParentChildLinksResponse {
    type V = ReconcileParentChildLinksResponseModel;

    open spec fn deep_view(&self) -> ReconcileParentChildLinksResponseModel {
        ReconcileParentChildLinksResponseModel {
            parent_node_id: self.parent_node_id@,
            parent_relative_path: self.parent_relative_path@,
            linked_child_relative_paths: self.linked_child_relative_paths.deep_view(),
            attached_child_relative_paths: self.attached_child_relative_paths.deep_view(),
            detached_child_relative_paths: self.detached_child_relative_paths.deep_view(),
        }
    }
}

impl Clone for ReconcileParentChildLinksResponse {
    fn clone(&self) -> (r: Self)
        ensures
            r.deep_view() == self.deep_view(),
    {
        let r: ReconcileParentChildLinksResponse = ReconcileParentChildLinksResponse {
            parent_node_id: self.parent_node_id.clone(),
            parent_relative_path: self.parent_relative_path.clone(),
            linked_child_relative_paths: self.linked_child_relative_paths.clone(),
            attached_child_relative_paths: self.attached_child_relative_paths.clone(),
            detached_child_relative_paths: self.detached_child_relative_paths.clone(),
        };
        assert(r.linked_child_relative_paths.deep_view() =~= self.linked_child_relative_paths.deep_view());
        assert(r.attached_child_relative_paths.deep_view() =~= self.attached_child_relative_paths.deep_view());
        assert(r.detached_child_relative_paths.deep_view() =~= self.detached_child_relative_paths.deep_view());
        r
    }
}

/// One finding of a judge.
#[derive(Debug, PartialEq, Eq)]
pub struct ReviewIssue {
    pub issue_kind: String,
    pub target_node_id: Option<String>,
    pub target_parent_node_id: Option<String>,
    pub target_node_ids: Option<Vec<String>>,
    pub summary: String,
    pub rationale: String,
    pub expected_revision: String,
    pub question_for_user: Option<String>,
    pub decision_impact: Option<String>,
}

/// The meaning of a [`ReviewIssue`].
pub struct ReviewIssueModel {
    pub issue_kind: Seq<char>,
    pub target_node_id: Option<Seq<char>>,
    pub target_parent_node_id: Option<Seq<char>>,
    pub target_node_ids: Option<Seq<Seq<char>>>,
    pub summary: Seq<char>,
    pub rationale: Seq<char>,
    pub expected_revision: Seq<char>,
    pub question_for_user: Option<Seq<char>>,
    pub decision_impact: Option<Seq<char>>,
}

impl DeepView for ReviewIssue {
    type V = ReviewIssueModel;

    open spec fn deep_view(&self) -> ReviewIssueModel {
        ReviewIssueModel {
            issue_kind: self.issue_kind@,
            target_node_id: self.target_node_id.deep_view(),
            target_parent_node_id: self.target_parent_node_id.deep_view(),
            target_node_ids: self.target_node_ids.deep_view(),
            summary: self.summary@,
            rationale: self.rationale@,
            expected_revision: self.expected_revision@,
            question_for_user: self.question_for_user.deep_view(),
            decision_impact: self.decision_impact.deep_view(),
        }
    }
}

impl Clone for ReviewIssue {
    fn clone(&self) -> (r: Self)
        ensures
            r.deep_view() == self.deep_view(),
    {
        let r: ReviewIssue = ReviewIssue {
            issue_kind: self.issue_kind.clone(),
            target_node_id: self.target_node_id.clone(),
            target_parent_node_id: self.target_parent_node_id.clone(),
            target_node_ids: self.target_node_ids.clone(),
            summary: self.summary.clone(),
            rationale: self.rationale.clone(),
            expected_revision: self.expected_revision.clone(),
            question_for_user: self.question_for_user.clone(),
            decision_impact: self.decision_impact.clone(),
        };
        assert(self.target_node_ids is Some ==> r.target_node_ids->0.deep_view() =~= self.target_node_ids->0.deep_view());
        r
    }
}

/// Asks for the review of a leaf node.
#[derive(Debug, PartialEq, Eq)]
pub struct RunLeafReviewGateRequest {
    pub plan_id: String,
    pub node_id: String,
    pub planner_mode: PlannerMode,
    pub refine_revalidation_context: Option<String>,
}

/// The meaning of a [`RunLeafReviewGateRequest`].
pub struct RunLeafReviewGateRequestModel {
    pub plan_id: Seq<char>,
    pub node_id: Seq<char>,
    pub planner_mode: PlannerMode,
    pub refine_revalidation_context: Option<Seq<char>>,
}

impl DeepView for RunLeafReviewGateRequest {
    type V = RunLeafReviewGateRequestModel;

    open spec fn deep_view(&self) -> RunLeafReviewGateRequestModel {
        RunLeafReviewGateRequestModel {
            plan_id: self.plan_id@,
            node_id: self.node_id@,
            planner_mode: self.planner_mode,
            refine_revalidation_context: self.refine_revalidation_context.deep_view(),
        }
    }
}

impl Clone for RunLeafReviewGateRequest {
    fn clone(&self) -> (r: Self)
        ensures
            r.deep_view() == self.deep_view(),
    {
        RunLeafReviewGateRequest {
            plan_id: self.plan_id.clone(),
            node_id: self.node_id.clone(),
            planner_mode: self.planner_mode,
            refine_revalidation_context: self.refine_revalidation_context.clone(),
        }
    }
}

/// The outcome of the review of a leaf node.
#[derive(Debug, PartialEq, Eq)]
pub struct RunLeafReviewGateResponse {
    pub gate_run_id: String,
    pub passed: bool,
    pub verdict: String,
    pub summary: String,
    pub reviewer_role_id: String,
    pub issues: Vec<ReviewIssue>,
}

/// The meaning of a [`RunLeafReviewGateResponse`].
pub struct RunLeafReviewGateResponseModel {
    pub gate_run_id: Seq<char>,
    pub passed: bool,
    pub verdict: Seq<char>,
    pub summary: Seq<char>,
    pub reviewer_role_id: Seq<char>,
    pub issues: Seq<ReviewIssueModel>,
}

impl DeepView for RunLeafReviewGateResponse {
    type V = RunLeafReviewGateResponseModel;

    open spec fn deep_view(&self) -> RunLeafReviewGateResponseModel {
        RunLeafReviewGateResponseModel {
            gate_run_id: self.gate_run_id@,
            passed: self.passed,
            verdict: self.verdict@,
            summary: self.summary@,
            reviewer_role_id: self.reviewer_role_id@,
            issues: self.issues.deep_view(),
        }
    }
}

impl Clone for RunLeafReviewGateResponse {
    fn clone(&self) -> (r: Self)
        ensures
            r.deep_view() == self.deep_view(),
    {
        let r: RunLeafReviewGateResponse = RunLeafReviewGateResponse {
            gate_run_id: self.gate_run_id.clone(),
            passed: self.passed,
            verdict: self.verdict.clone(),
            summary: self.summary.clone(),
            reviewer_role_id: self.reviewer_role_id.clone(),
            issues: self.issues.clone(),
        };
        assert(r.issues.deep_view() =~= self.issues.deep_view());
        r
    }
}

/// Asks for the review of a parent node and its children.
#[derive(Debug, PartialEq, Eq)]
pub struct RunFrontierReviewGateRequest {
    pub plan_id: String,
    pub parent_node_id: String,
    pub planner_mode: PlannerMode,
    pub refine_revalidation_context: Option<String>,
    pub refine_invalidatable_leaf_node_ids: Option<Vec<String>>,
}

/// The meaning of a [`RunFrontierReviewGateRequest`].
pub struct RunFrontierReviewGateRequestModel {
    pub plan_id: Seq<char>,
    pub parent_node_id: Seq<char>,
    pub planner_mode: PlannerMode,
    pub refine_revalidation_context: Option<Seq<char>>,
    pub refine_invalidatable_leaf_node_ids: Option<Seq<Seq<char>>>,
}

impl DeepView for RunFrontierReviewGateRequest {
    type V = RunFrontierReviewGateRequestModel;

    open spec fn deep_view(&self) -> RunFrontierReviewGateRequestModel {
        RunFrontierReviewGateRequestModel {
            plan_id: self.plan_id@,
            parent_node_id: self.parent_node_id@,
            planner_mode: self.planner_mode,
            refine_revalidation_context: self.refine_revalidation_context.deep_view(),
            refine_invalidatable_leaf_node_ids: self.refine_invalidatable_leaf_node_ids.deep_view(),
        }
    }
}

impl Clone for RunFrontierReviewGateRequest {
    fn clone(&self) -> (r: Self)
        ensures
            r.deep_view() == self.deep_view(),
    {
        let r: RunFrontierReviewGateRequest = RunFrontierReviewGateRequest {
            plan_id: self.plan_id.clone(),
            parent_node_id: self.parent_node_id.clone(),
            planner_mode: self.planner_mode,
            refine_revalidation_context: self.refine_revalidation_context.clone(),
            refine_invalidatable_leaf_node_ids: self.refine_invalidatable_leaf_node_ids.clone(),
        };
        assert(self.refine_invalidatable_leaf_node_ids is Some ==> r.refine_invalidatable_leaf_node_ids->0.deep_view() =~= self.refine_invalidatable_leaf_node_ids->0.deep_view());
        r
    }
}

/// The outcome of the review of a parent node and its children.
#[derive(Debug, PartialEq, Eq)]
pub struct RunFrontierReviewGateResponse {
    pub gate_run_id: String,
    pub passed: bool,
    pub verdict: String,
    pub summary: String,
    pub reviewer_role_id: String,
    pub issues: Vec<ReviewIssue>,
    pub invalidated_leaf_node_ids: Vec<String>,
}

/// The meaning of a [`RunFrontierReviewGateResponse`].
pub struct RunFrontierReviewGateResponseModel {
    pub gate_run_id: Seq<char>,
    pub passed: bool,
    pub verdict: Seq<char>,
    pub summary: Seq<char>,
    pub reviewer_role_id: Seq<char>,
    pub issues: Seq<ReviewIssueModel>,
    pub invalidated_leaf_node_ids: Seq<Seq<char>>,
}

impl DeepView for RunFrontierReviewGateResponse {
    type V = RunFrontierReviewGateResponseModel;

    open spec fn deep_view(&self) -> RunFrontierReviewGateResponseModel {
        RunFrontierReviewGateResponseModel {
            gate_run_id: self.gate_run_id@,
            passed: self.passed,
            verdict: self.verdict@,
            summary: self.summary@,
            reviewer_role_id: self.reviewer_role_id@,
            issues: self.issues.deep_view(),
            invalidated_leaf_node_ids: self.invalidated_leaf_node_ids.deep_view(),
        }
    }
}

impl Clone for RunFrontierReviewGateResponse {
    fn clone(&self) -> (r: Self)
        ensures
            r.deep_view() == self.deep_view(),
    {
        let r: RunFrontierReviewGateResponse = RunFrontierReviewGateResponse {
            gate_run_id: self.gate_run_id.clone(),
            passed: self.passed,
            verdict: self.verdict.clone(),
            summary: self.summary.clone(),
            reviewer_role_id: self.reviewer_role_id.clone(),
            issues: self.issues.clone(),
            invalidated_leaf_node_ids: self.invalidated_leaf_node_ids.clone(),
        };
        assert(r.issues.deep_view() =~= self.issues.deep_view());
        assert(r.invalidated_leaf_node_ids.deep_view() =~= self.invalidated_leaf_node_ids.deep_view());
        r
    }
}

impl PlannerMode {
    /// The name of the mode.
    pub open spec fn name(self) -> Seq<char> {
        match self {
            PlannerMode::Manual => "manual"@,
            PlannerMode::Auto => "auto"@,
        }
    }

    /// The name of the mode.
    pub fn as_str(&self) -> (r: &'static str)
        ensures
            r@ == self.name(),
    {
        match self {
            PlannerMode::Manual => "manual",
            PlannerMode::Auto => "auto",
        }
    }
}

impl NodeKind {
    /// The name of the kind.
    pub open spec fn name(self) -> Seq<char> {
        match self {
            NodeKind::Parent => "parent"@,
            NodeKind::Leaf => "leaf"@,
        }
    }

    /// The name of the kind.
    pub fn as_str(self) -> (r: &'static str)
        ensures
            r@ == self.name(),
    {
        match self {
            NodeKind::Parent => "parent",
            NodeKind::Leaf => "leaf",
        }
    }
}

} // verus!
