use loopy_gen_plan::api::{
    EnsureNodeIdRequest, EnsurePlanRequest, PlannerMode, RunFrontierReviewGateResponse,
};
use loopy_gen_plan::files::{FileContent, PlanFiles, PlanRootKind};
use loopy_gen_plan::refine::gate_execution::{
    frontier_fingerprint, validate_frontier_response_contract, validate_registered_targets,
};
use loopy_gen_plan::refine::{
    RefineGateRetryPolicy, RefineGateTargetReason, RegisteredRefineFrontierTarget,
    RegisteredRefineGateTargets, RegisteredRefineLeafTarget, RunRefineGateRevalidationRequest,
};
use loopy_gen_plan::runtime::Runtime;

const WORKSPACE: &str = "/workspace";
const NOW: &str = "2026-01-01T00:00:00Z";

fn load(files: &mut PlanFiles, path: &str, text: &str) {
    files.load(
        path.to_owned(),
        FileContent::Text {
            text: text.to_owned(),
        },
    );
}

#[test]
fn frontier_fingerprint_skips_runtime_children_deleted_from_disk() {
    let mut runtime = Runtime::new(WORKSPACE.to_owned());
    let mut files = PlanFiles::new(PlanRootKind::Directory);
    let plan = runtime
        .ensure_plan(
            EnsurePlanRequest {
                plan_name: "deleted-child-refine".to_owned(),
                task_type: "coding-task".to_owned(),
                project_directory: WORKSPACE.to_owned(),
            },
            NOW,
        )
        .expect("plan should be created");
    load(&mut files, "api/api.md", "# API\n\n## Child Nodes\n\n");
    load(&mut files, "api/old-child.md", "# Old Child\n");

    let parent = runtime
        .ensure_node_id(
            EnsureNodeIdRequest {
                plan_id: plan.plan_id.clone(),
                relative_path: "api/api.md".to_owned(),
                parent_relative_path: None,
            },
            NOW,
        )
        .expect("parent should be tracked");
    runtime
        .ensure_node_id(
            EnsureNodeIdRequest {
                plan_id: plan.plan_id.clone(),
                relative_path: "api/old-child.md".to_owned(),
                parent_relative_path: Some("api/api.md".to_owned()),
            },
            NOW,
        )
        .expect("child should be tracked");
    assert_eq!(files.remove("api/old-child.md"), None);

    let request = RunRefineGateRevalidationRequest {
        plan_id: plan.plan_id,
        plan_root: plan.plan_root,
        planner_mode: PlannerMode::Manual,
        registered_targets: RegisteredRefineGateTargets::default(),
        retry_policy: RefineGateRetryPolicy::default(),
        refine_context: Default::default(),
    };
    let target = RegisteredRefineFrontierTarget {
        parent_node_id: parent.node_id,
        parent_relative_path: "api/api.md".to_owned(),
        changed_child_relative_paths: vec!["api/old-child.md".to_owned()],
        reasons: vec![RefineGateTargetReason::ChangedChildSet],
    };

    let fingerprint = frontier_fingerprint(&runtime, &files, &request, &target)
        .expect("deleted children should not abort frontier fingerprinting");
    assert_eq!(fingerprint.len(), 64);
}

#[test]
fn validate_registered_frontier_allows_removed_children_to_be_absent() {
    let mut runtime = Runtime::new(WORKSPACE.to_owned());
    let mut files = PlanFiles::new(PlanRootKind::Directory);
    let plan = runtime
        .ensure_plan(
            EnsurePlanRequest {
                plan_name: "removed-child-refine".to_owned(),
                task_type: "coding-task".to_owned(),
                project_directory: WORKSPACE.to_owned(),
            },
            NOW,
        )
        .expect("plan should be created");
    load(&mut files, "api/api.md", "# API\n\n## Child Nodes\n\n");
    load(&mut files, "api/old-child.md", "# Old Child\n");

    let parent = runtime
        .ensure_node_id(
            EnsureNodeIdRequest {
                plan_id: plan.plan_id.clone(),
                relative_path: "api/api.md".to_owned(),
                parent_relative_path: None,
            },
            NOW,
        )
        .expect("parent should be tracked");
    let child = runtime
        .ensure_node_id(
            EnsureNodeIdRequest {
                plan_id: plan.plan_id.clone(),
                relative_path: "api/old-child.md".to_owned(),
                parent_relative_path: Some("api/api.md".to_owned()),
            },
            NOW,
        )
        .expect("child should be tracked");
    for row in runtime.nodes.iter_mut() {
        if row.plan_id == plan.plan_id && row.node_id == child.node_id {
            row.parent_node_id = None;
        }
    }

    validate_registered_targets(
        &runtime,
        &files,
        &RunRefineGateRevalidationRequest {
            plan_id: plan.plan_id,
            plan_root: plan.plan_root,
            planner_mode: PlannerMode::Manual,
            registered_targets: RegisteredRefineGateTargets {
                frontier_targets: vec![RegisteredRefineFrontierTarget {
                    parent_node_id: parent.node_id,
                    parent_relative_path: "api/api.md".to_owned(),
                    changed_child_relative_paths: vec!["api/old-child.md".to_owned()],
                    reasons: vec![RefineGateTargetReason::ChangedChildSet],
                }],
                ..Default::default()
            },
            retry_policy: RefineGateRetryPolicy::default(),
            refine_context: Default::default(),
        },
    )
    .expect("removed child paths should not have to remain runtime-visible");
}

#[test]
fn validate_registered_frontier_rejects_unknown_changed_child_paths() {
    let mut runtime = Runtime::new(WORKSPACE.to_owned());
    let mut files = PlanFiles::new(PlanRootKind::Directory);
    let plan = runtime
        .ensure_plan(
            EnsurePlanRequest {
                plan_name: "unknown-child-refine".to_owned(),
                task_type: "coding-task".to_owned(),
                project_directory: WORKSPACE.to_owned(),
            },
            NOW,
        )
        .expect("plan should be created");
    load(&mut files, "api/api.md", "# API\n\n## Child Nodes\n\n");

    let parent = runtime
        .ensure_node_id(
            EnsureNodeIdRequest {
                plan_id: plan.plan_id.clone(),
                relative_path: "api/api.md".to_owned(),
                parent_relative_path: None,
            },
            NOW,
        )
        .expect("parent should be tracked");

    let error = validate_registered_targets(
        &runtime,
        &files,
        &RunRefineGateRevalidationRequest {
            plan_id: plan.plan_id,
            plan_root: plan.plan_root,
            planner_mode: PlannerMode::Manual,
            registered_targets: RegisteredRefineGateTargets {
                frontier_targets: vec![RegisteredRefineFrontierTarget {
                    parent_node_id: parent.node_id,
                    parent_relative_path: "api/api.md".to_owned(),
                    changed_child_relative_paths: vec!["api/typo.md".to_owned()],
                    reasons: vec![RefineGateTargetReason::ChangedChildSet],
                }],
                ..Default::default()
            },
            retry_policy: RefineGateRetryPolicy::default(),
            refine_context: Default::default(),
        },
    )
    .expect_err("unknown changed child paths should fail preflight");

    assert!(
        format!("{error:?}").contains(
            "frontier changed child path must be linked, runtime-visible, or tracked"
        ),
        "unexpected error: {error:?}"
    );
}

#[test]
fn validate_registered_leaf_rejects_node_id_path_mismatch() {
    let mut runtime = Runtime::new(WORKSPACE.to_owned());
    let mut files = PlanFiles::new(PlanRootKind::Directory);
    let plan = runtime
        .ensure_plan(
            EnsurePlanRequest {
                plan_name: "mismatched-leaf-refine".to_owned(),
                task_type: "coding-task".to_owned(),
                project_directory: WORKSPACE.to_owned(),
            },
            NOW,
        )
        .expect("plan should be created");
    load(&mut files, "first.md", "# First\n");
    load(&mut files, "second.md", "# Second\n");
    let first = runtime
        .ensure_node_id(
            EnsureNodeIdRequest {
                plan_id: plan.plan_id.clone(),
                relative_path: "first.md".to_owned(),
                parent_relative_path: None,
            },
            NOW,
        )
        .expect("first leaf should be tracked");
    runtime
        .ensure_node_id(
            EnsureNodeIdRequest {
                plan_id: plan.plan_id.clone(),
                relative_path: "second.md".to_owned(),
                parent_relative_path: None,
            },
            NOW,
        )
        .expect("second leaf should be tracked");

    let error = validate_registered_targets(
        &runtime,
        &files,
        &RunRefineGateRevalidationRequest {
            plan_id: plan.plan_id,
            plan_root: plan.plan_root,
            planner_mode: PlannerMode::Manual,
            registered_targets: RegisteredRefineGateTargets {
                leaf_targets: vec![RegisteredRefineLeafTarget {
                    node_id: first.node_id,
                    relative_path: "second.md".to_owned(),
                    parent_relative_path: None,
                    reasons: vec![RefineGateTargetReason::TextChanged],
                }],
                ..Default::default()
            },
            retry_policy: RefineGateRetryPolicy::default(),
            refine_context: Default::default(),
        },
    )
    .expect_err("mismatched leaf node_id and relative_path should fail preflight");

    assert!(
        format!("{error:?}").contains("leaf target node_id must match relative_path"),
        "unexpected error: {error:?}"
    );
}

#[test]
fn validate_registered_frontier_rejects_node_id_path_mismatch() {
    let mut runtime = Runtime::new(WORKSPACE.to_owned());
    let mut files = PlanFiles::new(PlanRootKind::Directory);
    let plan = runtime
        .ensure_plan(
            EnsurePlanRequest {
                plan_name: "mismatched-frontier-refine".to_owned(),
                task_type: "coding-task".to_owned(),
                project_directory: WORKSPACE.to_owned(),
            },
            NOW,
        )
        .expect("plan should be created");
    load(&mut files, "api/api.md", "# API\n");
    load(&mut files, "other/other.md", "# Other\n");
    let api_parent = runtime
        .ensure_node_id(
            EnsureNodeIdRequest {
                plan_id: plan.plan_id.clone(),
                relative_path: "api/api.md".to_owned(),
                parent_relative_path: None,
            },
            NOW,
        )
        .expect("api parent should be tracked");
    runtime
        .ensure_node_id(
            EnsureNodeIdRequest {
                plan_id: plan.plan_id.clone(),
                relative_path: "other/other.md".to_owned(),
                parent_relative_path: None,
            },
            NOW,
        )
        .expect("other parent should be tracked");

    let error = validate_registered_targets(
        &runtime,
        &files,
        &RunRefineGateRevalidationRequest {
            plan_id: plan.plan_id,
            plan_root: plan.plan_root,
            planner_mode: PlannerMode::Manual,
            registered_targets: RegisteredRefineGateTargets {
                frontier_targets: vec![RegisteredRefineFrontierTarget {
                    parent_node_id: api_parent.node_id,
                    parent_relative_path: "other/other.md".to_owned(),
                    changed_child_relative_paths: Vec::new(),
                    reasons: vec![RefineGateTargetReason::ParentContractChanged],
                }],
                ..Default::default()
            },
            retry_policy: RefineGateRetryPolicy::default(),
            refine_context: Default::default(),
        },
    )
    .expect_err("mismatched frontier parent_node_id and path should fail preflight");

    assert!(
        format!("{error:?}")
            .contains("frontier target parent_node_id must match parent_relative_path"),
        "unexpected error: {error:?}"
    );
}

#[test]
fn passed_frontier_response_with_invalidations_is_invalid() {
    let response = RunFrontierReviewGateResponse {
        gate_run_id: "frontier-run-1".to_owned(),
        passed: true,
        verdict: "approved_frontier".to_owned(),
        summary: "approved but contradictory".to_owned(),
        reviewer_role_id: "codex_default".to_owned(),
        issues: Vec::new(),
        invalidated_leaf_node_ids: vec!["leaf-1".to_owned()],
    };

    let error = validate_frontier_response_contract(&response)
        .expect_err("passed frontier responses must not invalidate leaves");
    assert!(
        format!("{error:?}")
            .contains("passed frontier target must not invalidate leaf approvals"),
        "unexpected error: {error:?}"
    );
}
