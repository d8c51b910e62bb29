//! What the plan runtime remembers: plans, their nodes, and gate runs.
use crate::api::{NodeKind, PlannerMode, ReviewIssue, ReviewIssueModel};
use vstd::prelude::*;

verus! {

/// A plan.
#[derive(Debug, PartialEq, Eq)]
pub struct PlanRow {
    pub plan_id: String,
    pub workspace_root: String,
    pub plan_name: String,
    pub plan_root: String,
    pub project_directory: String,
    pub project_directory_source: String,
    pub task_type: String,
    pub plan_status: String,
    pub created_at: String,
    pub updated_at: String,
}

/// The meaning of a [`PlanRow`].
pub struct PlanRowModel {
    pub plan_id: Seq<char>,
    pub workspace_root: Seq<char>,
    pub plan_name: Seq<char>,
    pub plan_root: Seq<char>,
    pub project_directory: Seq<char>,
    pub project_directory_source: Seq<char>,
    pub task_type: Seq<char>,
    pub plan_status: Seq<char>,
    pub created_at: Seq<char>,
    pub updated_at: Seq<char>,
}

impl DeepView for PlanRow {
    type V = PlanRowModel;

    open spec fn deep_view(&self) -> PlanRowModel {
        PlanRowModel {
            plan_id: self.plan_id@,
            workspace_root: self.workspace_root@,
            plan_name: self.plan_name@,
            plan_root: self.plan_root@,
            project_directory: self.project_directory@,
            project_directory_source: self.project_directory_source@,
            task_type: self.task_type@,
            plan_status: self.plan_status@,
            created_at: self.created_at@,
            updated_at: self.updated_at@,
        }
    }
}

impl Clone for PlanRow {
    fn clone(&self) -> (r: Self)
        ensures
            r.deep_view() == self.deep_view(),
    {
        PlanRow {
            plan_id: self.plan_id.clone(),
            workspace_root: self.workspace_root.clone(),
            plan_name: self.plan_name.clone(),
            plan_root: self.plan_root.clone(),
            project_directory: self.project_directory.clone(),
            project_directory_source: self.project_directory_source.clone(),
            task_type: self.task_type.clone(),
            plan_status: self.plan_status.clone(),
            created_at: self.created_at.clone(),
            updated_at: self.updated_at.clone(),
        }
    }
}

/// A tracked node. Its kind is held by name.
#[derive(Debug, PartialEq, Eq)]
pub struct NodeRow {
    pub plan_id: String,
    pub node_id: String,
    pub relative_path: String,
    pub node_name: String,
    pub node_kind: String,
    pub parent_node_id: Option<String>,
    pub created_at: String,
    pub updated_at: String,
}

/// The meaning of a [`NodeRow`].
pub struct NodeRowModel {
    pub plan_id: Seq<char>,
    pub node_id: Seq<char>,
    pub relative_path: Seq<char>,
    pub node_name: Seq<char>,
    pub node_kind: Seq<char>,
    pub parent_node_id: Option<Seq<char>>,
    pub created_at: Seq<char>,
    pub updated_at: Seq<char>,
}

impl DeepView for NodeRow {
    type V = NodeRowModel;

    open spec fn deep_view(&self) -> NodeRowModel {
        NodeRowModel {
            plan_id: self.plan_id@,
            node_id: self.node_id@,
            relative_path: self.relative_path@,
            node_name: self.node_name@,
            node_kind: self.node_kind@,
            parent_node_id: self.parent_node_id.deep_view(),
            created_at: self.created_at@,
            updated_at: self.updated_at@,
        }
    }
}

impl Clone for NodeRow {
    fn clone(&self) -> (r: Self)
        ensures
            r.deep_view() == self.deep_view(),
    {
        NodeRow {
            plan_id: self.plan_id.clone(),
            node_id: self.node_id.clone(),
            relative_path: self.relative_path.clone(),
            node_name: self.node_name.clone(),
            node_kind: self.node_kind.clone(),
            parent_node_id: self.parent_node_id.clone(),
            created_at: self.created_at.clone(),
            updated_at: self.updated_at.clone(),
        }
    }
}

/// A review of a leaf node.
#[derive(Debug, PartialEq, Eq)]
pub struct LeafGateRun {
    pub gate_run_id: String,
    pub plan_id: String,
    pub node_id: String,
    pub planner_mode: PlannerMode,
    pub reviewer_role_id: String,
    pub passed: bool,
    pub verdict: String,
    pub summary: String,
    pub issues: Vec<ReviewIssue>,
    pub created_at: i64,
}

/// The meaning of a [`LeafGateRun`].
pub struct LeafGateRunModel {
    pub gate_run_id: Seq<char>,
    pub plan_id: Seq<char>,
    pub node_id: Seq<char>,
    pub planner_mode: PlannerMode,
    pub reviewer_role_id: Seq<char>,
    pub passed: bool,
    pub verdict: Seq<char>,
    pub summary: Seq<char>,
    pub issues: Seq<ReviewIssueModel>,
    pub created_at: i64,
}

impl DeepView for LeafGateRun {
    type V = LeafGateRunModel;

    open spec fn deep_view(&self) -> LeafGateRunModel {
        LeafGateRunModel {
            gate_run_id: self.gate_run_id@,
            plan_id: self.plan_id@,
            node_id: self.node_id@,
            planner_mode: self.planner_mode,
            reviewer_role_id: self.reviewer_role_id@,
            passed: self.passed,
            verdict: self.verdict@,
            summary: self.summary@,
            issues: self.issues.deep_view(),
            created_at: self.created_at,
        }
    }
}

impl Clone for LeafGateRun {
    fn clone(&self) -> (r: Self)
        ensures
            r.deep_view() == self.deep_view(),
    {
        let r: LeafGateRun = LeafGateRun {
            gate_run_id: self.gate_run_id.clone(),
            plan_id: self.plan_id.clone(),
            node_id: self.node_id.clone(),
            planner_mode: self.planner_mode,
            reviewer_role_id: self.reviewer_role_id.clone(),
            passed: self.passed,
            verdict: self.verdict.clone(),
            summary: self.summary.clone(),
            issues: self.issues.clone(),
            created_at: self.created_at,
        };
        assert(r.issues.deep_view() =~= self.issues.deep_view());
        r
    }
}

/// A review of a parent node and its children.
#[derive(Debug, PartialEq, Eq)]
pub struct FrontierGateRun {
    pub gate_run_id: String,
    pub plan_id: String,
    pub parent_node_id: String,
    pub planner_mode: PlannerMode,
    pub reviewer_role_id: String,
    pub passed: bool,
    pub verdict: String,
    pub summary: String,
    pub issues: Vec<ReviewIssue>,
    pub invalidated_leaf_node_ids: Vec<String>,
    pub created_at: i64,
}

/// The meaning of a [`FrontierGateRun`].
pub struct FrontierGateRunModel {
    pub gate_run_id: Seq<char>,
    pub plan_id: Seq<char>,
    pub parent_node_id: Seq<char>,
    pub planner_mode: PlannerMode,
    pub reviewer_role_id: Seq<char>,
    pub passed: bool,
    pub verdict: Seq<char>,
    pub summary: Seq<char>,
    pub issues: Seq<ReviewIssueModel>,
    pub invalidated_leaf_node_ids: Seq<Seq<char>>,
    pub created_at: i64,
}

impl DeepView for FrontierGateRun {
    type V = FrontierGateRunModel;

    open spec fn deep_view(&self) -> FrontierGateRunModel {
        FrontierGateRunModel {
            gate_run_id: self.gate_run_id@,
            plan_id: self.plan_id@,
            parent_node_id: self.parent_node_id@,
            planner_mode: self.planner_mode,
            reviewer_role_id: self.reviewer_role_id@,
            passed: self.passed,
            verdict: self.verdict@,
            summary: self.summary@,
            issues: self.issues.deep_view(),
            invalidated_leaf_node_ids: self.invalidated_leaf_node_ids.deep_view(),
            created_at: self.created_at,
        }
    }
}

impl Clone for FrontierGateRun {
    fn clone(&self) -> (r: Self)
        ensures
            r.deep_view() == self.deep_view(),
    {
        let r: FrontierGateRun = FrontierGateRun {
            gate_run_id: self.gate_run_id.clone(),
            plan_id: self.plan_id.clone(),
            parent_node_id: self.parent_node_id.clone(),
            planner_mode: self.planner_mode,
            reviewer_role_id: self.reviewer_role_id.clone(),
            passed: self.passed,
            verdict: self.verdict.clone(),
            summary: self.summary.clone(),
            issues: self.issues.clone(),
            invalidated_leaf_node_ids: self.invalidated_leaf_node_ids.clone(),
            created_at: self.created_at,
        };
        assert(r.issues.deep_view() =~= self.issues.deep_view());
        assert(r.invalidated_leaf_node_ids.deep_view() =~= self.invalidated_leaf_node_ids.deep_view());
        r
    }
}

/// A tracked node with its kind.
#[derive(Debug, PartialEq, Eq)]
pub struct NodeRecord {
    pub node_id: String,
    pub relative_path: String,
    pub node_kind: NodeKind,
    pub parent_node_id: Option<String>,
}

/// The meaning of a [`NodeRecord`].
pub struct NodeRecordModel {
    pub node_id: Seq<char>,
    pub relative_path: Seq<char>,
    pub node_kind: NodeKind,
    pub parent_node_id: Option<Seq<char>>,
}

impl DeepView for NodeRecord {
    type V = NodeRecordModel;

    open spec fn deep_view(&self) -> NodeRecordModel {
        NodeRecordModel {
            node_id: self.node_id@,
            relative_path: self.relative_path@,
            node_kind: self.node_kind,
            parent_node_id: self.parent_node_id.deep_view(),
        }
    }
}

impl Clone for NodeRecord {
    fn clone(&self) -> (r: Self)
        ensures
            r.deep_view() == self.deep_view(),
    {
        NodeRecord {
            node_id: self.node_id.clone(),
            relative_path: self.relative_path.clone(),
            node_kind: self.node_kind,
            parent_node_id: self.parent_node_id.clone(),
        }
    }
}

/// What a gate needs to know of its plan.
#[derive(Debug, PartialEq, Eq)]
pub struct GatePlanContext {
    pub plan_id: String,
    pub task_type: String,
    pub plan_root: String,
    pub project_directory: String,
}

/// The meaning of a [`GatePlanContext`].
pub struct GatePlanContextModel {
    pub plan_id: Seq<char>,
    pub task_type: Seq<char>,
    pub plan_root: Seq<char>,
    pub project_directory: Seq<char>,
}

impl DeepView for GatePlanContext {
    type V = GatePlanContextModel;

    open spec fn deep_view(&self) -> GatePlanContextModel {
        GatePlanContextModel {
            plan_id: self.plan_id@,
            task_type: self.task_type@,
            plan_root: self.plan_root@,
            project_directory: self.project_directory@,
        }
    }
}

impl Clone for GatePlanContext {
    fn clone(&self) -> (r: Self)
        ensures
            r.deep_view() == self.deep_view(),
    {
        GatePlanContext {
            plan_id: self.plan_id.clone(),
            task_type: self.task_type.clone(),
            plan_root: self.plan_root.clone(),
            project_directory: self.project_directory.clone(),
        }
    }
}

/// The plan runtime of a workspace, with all that it remembers.
#[derive(Debug, PartialEq, Eq)]
pub struct Runtime {
    pub workspace_root: String,
    pub plans: Vec<PlanRow>,
    pub nodes: Vec<NodeRow>,
    pub leaf_gate_runs: Vec<LeafGateRun>,
    pub frontier_gate_runs: Vec<FrontierGateRun>,
}

/// The meaning of a [`Runtime`].
pub struct RuntimeModel {
    pub workspace_root: Seq<char>,
    pub plans: Seq<PlanRowModel>,
    pub nodes: Seq<NodeRowModel>,
    pub leaf_gate_runs: Seq<LeafGateRunModel>,
    pub frontier_gate_runs: Seq<FrontierGateRunModel>,
}

impl DeepView for Runtime {
    type V = RuntimeModel;

    open spec fn deep_view(&self) -> RuntimeModel {
        RuntimeModel {
            workspace_root: self.workspace_root@,
            plans: self.plans.deep_view(),
            nodes: self.nodes.deep_view(),
            leaf_gate_runs: self.leaf_gate_runs.deep_view(),
            frontier_gate_runs: self.frontier_gate_runs.deep_view(),
        }
    }
}

impl Clone for Runtime {
    fn clone(&self) -> (r: Self)
        ensures
            r.deep_view() == self.deep_view(),
    {
        let r: Runtime = Runtime {
            workspace_root: self.workspace_root.clone(),
            plans: self.plans.clone(),
            nodes: self.nodes.clone(),
            leaf_gate_runs: self.leaf_gate_runs.clone(),
            frontier_gate_runs: self.frontier_gate_runs.clone(),
        };
        assert(r.plans.deep_view() =~= self.plans.deep_view());
        assert(r.nodes.deep_view() =~= self.nodes.deep_view());
        assert(r.leaf_gate_runs.deep_view() =~= self.leaf_gate_runs.deep_view());
        assert(r.frontier_gate_runs.deep_view() =~= self.frontier_gate_runs.deep_view());
        r
    }
}

} // verus!
