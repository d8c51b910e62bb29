use loopy_gen_plan::api::{
    EnsureNodeIdRequest, EnsurePlanRequest, InspectNodeRequest, PlannerMode, ReviewIssue,
    RunFrontierReviewGateRequest, RunFrontierReviewGateResponse, RunLeafReviewGateRequest,
    RunLeafReviewGateResponse,
};
use loopy_gen_plan::bundle::{BundleDescriptor, Reading};
use loopy_gen_plan::error::PlanError;
use loopy_gen_plan::files::{FileContent, PlanFiles, PlanRootKind};
use loopy_gen_plan::refine::gate_execution::{
    leaf_fingerprint, ContextTexts, GateAnswer, GateStep, RefineGateProgress,
};
use loopy_gen_plan::refine::gate_registration::register_refine_gate_targets_as;
use loopy_gen_plan::refine::{
    build_refine_gate_selection_inputs,
    run_refine_gate_revalidation, select_refine_gate_targets,
    BuildRefineGateSelectionInputsRequest, RefineChangedFile, RefineChangedFileKind,
    RefineGateAttemptOutcome, RefineGateExecutionError, RefineGateExecutionReport,
    RefineGateExecutionStatus, RefineGatePreparationError, RefineGateRetryPolicy,
    RefineGateTargetReason, RefineParentRegistrationCandidate, RefineRewriteResult,
    RefineRuntimeStateLoadError, RegisterRefineGateTargetsRequest, RegisteredRefineGateTargets,
    RunRefineGateRevalidationRequest, SelectRefineGateTargetsRequest,
};
use loopy_gen_plan::runtime::gates::{
    json_section, FrontierReviewerOutput, LeafReviewerOutput,
};
use loopy_gen_plan::runtime::Runtime;
use loopy_gen_plan::skill::{
    ExecutorEntry, ExecutorProfile, InstallTarget, Manifest, RoleFrontMatter, SkillConfig,
    SkillFiles, TaskTypeConfig,
};

const NOW: &str = "2026-01-01T00:00:00Z";

fn load(files: &mut PlanFiles, path: &str, text: &str) {
    files.load(
        path.to_owned(),
        FileContent::Text {
            text: text.to_owned(),
        },
    );
}

fn executor(name: &str) -> ExecutorEntry {
    ExecutorEntry {
        name: name.to_owned(),
        profile: ExecutorProfile {
            kind: "local_command".to_owned(),
            command: "codex".to_owned(),
            args: Vec::new(),
            cwd: "project".to_owned(),
            timeout_sec: 60,
            transcript_capture: "stdio".to_owned(),
            env_allow: None,
        },
    }
}

fn front_matter(role: &str) -> Reading<RoleFrontMatter> {
    Reading {
        text: format!("\nrole = {role}\n"),
        parsed: Ok(RoleFrontMatter {
            role: role.to_owned(),
            executor: "tool".to_owned(),
        }),
    }
}

fn skill() -> Result<SkillFiles, PlanError> {
    let mut files = PlanFiles::new(PlanRootKind::Directory);
    load(&mut files, "bundle.toml", "bundle");
    load(&mut files, "gen-plan.toml", "manifest");
    load(&mut files, "roles/coding-task/task-type.toml", "task");
    for role in ["leaf_reviewer", "frontier_reviewer"] {
        load(
            &mut files,
            &format!("roles/coding-task/{role}/default.md"),
            &format!("---\nrole = {role}\n---\nRole of {role}\n"),
        );
    }
    load(&mut files, "prompts/domain_contract.md", "Contract");
    load(
        &mut files,
        "prompts/leaf_runtime.md",
        "Node {{node_id}} of {{plan_id}}: {{leaf_node_markdown}}",
    );
    load(
        &mut files,
        "prompts/frontier_runtime.md",
        "Parent {{parent_node_id}} with {{passed_leaf_review_summaries}}",
    );
    Ok(SkillFiles {
        root: "/skills/gen-plan".to_owned(),
        files,
        descriptors: vec![Reading {
            text: "bundle".to_owned(),
            parsed: Ok(BundleDescriptor {
                skill_id: "loopy:gen-plan".to_owned(),
                skill_kind: "plan_generation".to_owned(),
                version: "0.1.0".to_owned(),
                loader_id: "loopy.gen-plan.v1".to_owned(),
                root_entry: "SKILL.md".to_owned(),
                binary_path: "bin/loopy-gen-plan".to_owned(),
                internal_manifest: "gen-plan.toml".to_owned(),
            }),
        }],
        manifests: vec![Reading {
            text: "manifest".to_owned(),
            parsed: Ok(Manifest {
                skill: SkillConfig {
                    name: "loopy:gen-plan".to_owned(),
                    default_install_target: "codex".to_owned(),
                    install_targets: vec![InstallTarget {
                        name: "codex".to_owned(),
                        path: "/skills/gen-plan".to_owned(),
                    }],
                },
                executors: vec![executor("tool")],
            }),
        }],
        task_types: vec![Reading {
            text: "task".to_owned(),
            parsed: Ok(TaskTypeConfig {
                task_type: "coding-task".to_owned(),
                default_leaf_reviewer: "default".to_owned(),
                default_frontier_reviewer: "default".to_owned(),
            }),
        }],
        front_matters: vec![
            front_matter("leaf_reviewer"),
            front_matter("frontier_reviewer"),
        ],
    })
}

fn plan() -> (Runtime, PlanFiles) {
    let mut runtime = Runtime::new("/workspace".to_owned());
    let mut files = PlanFiles::new(PlanRootKind::Directory);
    runtime
        .ensure_plan_as(
            EnsurePlanRequest {
                plan_name: "demo".to_owned(),
                task_type: "coding-task".to_owned(),
                project_directory: "/project".to_owned(),
            },
            "plan-1",
            NOW,
        )
        .expect("plan");
    for (path, parent, id, text) in [
        (
            "api/api.md",
            None,
            "parent-1",
            "# API\n\n## Child Nodes\n\n- [Leaf](./leaf.md)\n",
        ),
        ("api/leaf.md", Some("api/api.md"), "leaf-1", "# Leaf\n"),
    ] {
        load(&mut files, path, text);
        runtime
            .ensure_node_id_as(
                EnsureNodeIdRequest {
                    plan_id: "plan-1".to_owned(),
                    relative_path: path.to_owned(),
                    parent_relative_path: parent.map(|path: &str| path.to_owned()),
                },
                id,
                NOW,
            )
            .expect("node");
    }
    (runtime, files)
}

fn leaf_request() -> RunLeafReviewGateRequest {
    RunLeafReviewGateRequest {
        plan_id: "plan-1".to_owned(),
        node_id: "leaf-1".to_owned(),
        planner_mode: PlannerMode::Manual,
        refine_revalidation_context: None,
    }
}

fn frontier_request() -> RunFrontierReviewGateRequest {
    RunFrontierReviewGateRequest {
        plan_id: "plan-1".to_owned(),
        parent_node_id: "parent-1".to_owned(),
        planner_mode: PlannerMode::Auto,
        refine_revalidation_context: None,
        refine_invalidatable_leaf_node_ids: None,
    }
}

fn issue() -> ReviewIssue {
    ReviewIssue {
        issue_kind: "scope".to_owned(),
        target_node_id: Some("leaf-1".to_owned()),
        target_parent_node_id: None,
        target_node_ids: None,
        summary: "too wide".to_owned(),
        rationale: "because".to_owned(),
        expected_revision: "split".to_owned(),
        question_for_user: None,
        decision_impact: None,
    }
}

fn run_leaf(
    runtime: &mut Runtime,
    files: &PlanFiles,
    verdict: &str,
    issues: Vec<ReviewIssue>,
    run_id: &str,
    created_at: i64,
) -> Result<RunLeafReviewGateResponse, PlanError> {
    let readings = vec![Reading {
        text: "reply".to_owned(),
        parsed: Ok(LeafReviewerOutput {
            verdict: verdict.to_owned(),
            summary: format!("summary of {run_id}"),
            issues,
        }),
    }];
    runtime.run_leaf_review_gate(
        files,
        &skill(),
        leaf_request(),
        run_id,
        Ok("reply".to_owned()),
        &readings,
        created_at,
    )
}

fn run_frontier(
    runtime: &mut Runtime,
    files: &PlanFiles,
    verdict: &str,
    issues: Vec<ReviewIssue>,
    invalidated: Vec<&str>,
) -> Result<RunFrontierReviewGateResponse, PlanError> {
    let readings = vec![Reading {
        text: "reply".to_owned(),
        parsed: Ok(FrontierReviewerOutput {
            verdict: verdict.to_owned(),
            summary: "seen".to_owned(),
            issues,
            invalidated_leaf_node_ids: invalidated.iter().map(|id| id.to_string()).collect(),
        }),
    }];
    runtime.run_frontier_review_gate(
        files,
        &skill(),
        frontier_request(),
        "frontier-run",
        Ok("reply".to_owned()),
        &readings,
        &Vec::new(),
        1,
    )
}

#[test]
fn leaf_prompt_is_filled_in() {
    let (runtime, files) = plan();
    let gate = runtime
        .prepare_leaf_review_gate(&files, &skill(), &leaf_request())
        .expect("gate");
    assert!(gate.prompt.contains("Contract"));
    assert!(gate.prompt.contains("Role of leaf_reviewer"));
    assert!(gate.prompt.contains("Node leaf-1 of plan-1: # Leaf"));
    assert_eq!(gate.reviewer_role_id, "default");
    assert_eq!(gate.project_directory, "/project");
}

#[test]
fn passed_leaf_review_is_remembered() {
    let (mut runtime, files) = plan();
    let answer = run_leaf(&mut runtime, &files, "approved_as_leaf", Vec::new(), "run-1", 5).unwrap();
    assert!(answer.passed);
    assert_eq!(answer.reviewer_role_id, "default");
    let later = run_leaf(&mut runtime, &files, "revise_leaf", vec![issue()], "run-2", 9).unwrap();
    assert!(!later.passed);
    run_leaf(&mut runtime, &files, "approved_as_leaf", Vec::new(), "run-3", 7).unwrap();
    let seen = runtime
        .inspect_node(InspectNodeRequest {
            plan_id: "plan-1".to_owned(),
            node_id: Some("leaf-1".to_owned()),
            relative_path: None,
        })
        .unwrap();
    assert_eq!(
        seen.latest_passed_leaf_gate_summary.unwrap().gate_run_id,
        "run-3"
    );
    let gate = runtime
        .prepare_frontier_review_gate(&files, &skill(), &frontier_request())
        .unwrap();
    assert!(gate.prompt.contains("summary of run-3"));
}

#[test]
fn unsound_leaf_answers_are_not_remembered() {
    let (mut runtime, files) = plan();
    let before = runtime.clone();
    assert_eq!(
        run_leaf(&mut runtime, &files, "approved_as_leaf", vec![issue()], "run-1", 1)
            .unwrap_err()
            .message,
        "approved review results must not include issues"
    );
    assert_eq!(
        run_leaf(&mut runtime, &files, "revise_leaf", Vec::new(), "run-1", 1)
            .unwrap_err()
            .message,
        "non-passing review results must include at least one issue"
    );
    let mut untargeted = issue();
    untargeted.target_node_id = None;
    assert_eq!(
        run_leaf(&mut runtime, &files, "must_expand", vec![untargeted], "run-1", 1)
            .unwrap_err()
            .message,
        "review issues must include an explicit target"
    );
    assert_eq!(
        run_leaf(&mut runtime, &files, "pause_for_user_decision", vec![issue()], "run-1", 1)
            .unwrap_err()
            .message,
        "pause_for_user_decision issues must include non-empty question_for_user and decision_impact"
    );
    assert_eq!(
        run_leaf(&mut runtime, &files, "fine", Vec::new(), "run-1", 1)
            .unwrap_err()
            .message,
        "unsupported leaf review verdict `fine`"
    );
    assert_eq!(runtime, before);
}

#[test]
fn gate_runs_have_their_own_ids() {
    let (mut runtime, files) = plan();
    run_leaf(&mut runtime, &files, "approved_as_leaf", Vec::new(), "run-1", 1).unwrap();
    let before = runtime.clone();
    assert_eq!(
        run_leaf(&mut runtime, &files, "approved_as_leaf", Vec::new(), "run-1", 2)
            .unwrap_err()
            .message,
        "failed to persist leaf gate run"
    );
    assert_eq!(runtime, before);
}

#[test]
fn frontier_review_takes_back_known_leaves_only() {
    let (mut runtime, files) = plan();
    let before = runtime.clone();
    assert_eq!(
        run_frontier(&mut runtime, &files, "revise_frontier", vec![issue()], vec!["other"])
            .unwrap_err()
            .message,
        "frontier review invalidated unknown leaf child `other` for parent `parent-1`"
    );
    assert_eq!(
        run_frontier(&mut runtime, &files, "approved_frontier", Vec::new(), vec!["leaf-1"])
            .unwrap_err()
            .message,
        "approved_frontier must not invalidate leaf approvals"
    );
    assert_eq!(runtime, before);
    let answer =
        run_frontier(&mut runtime, &files, "revise_frontier", vec![issue()], vec!["leaf-1"])
            .unwrap();
    assert_eq!(answer.invalidated_leaf_node_ids, vec!["leaf-1".to_owned()]);
    assert_eq!(runtime.frontier_gate_runs.len(), 1);
}

#[test]
fn failed_replies_are_handed_on() {
    let (mut runtime, files) = plan();
    let error = runtime
        .run_leaf_review_gate(
            &files,
            &skill(),
            leaf_request(),
            "run-1",
            Err(PlanError::new("no reply".to_owned())),
            &Vec::new(),
            1,
        )
        .unwrap_err();
    assert_eq!(error.message, "no reply");
    let unread = vec![Reading {
        text: "{".to_owned(),
        parsed: Err("EOF while parsing".to_owned()),
    }];
    let error = runtime
        .run_leaf_review_gate(
            &files,
            &skill(),
            leaf_request(),
            "run-1",
            Ok("{".to_owned()),
            &unread,
            1,
        )
        .unwrap_err();
    assert_eq!(error.message, "failed to parse leaf review JSON result");
    assert_eq!(error.cause, Some("EOF while parsing".to_owned()));
}

#[test]
fn json_sections_are_cut_out_of_a_context() {
    assert_eq!(json_section("no section", "Stale Handoff"), None);
    assert_eq!(
        json_section(
            "# Context\n## Stale Handoff\n```json\n[1, 2]\n```\nmore",
            "Stale Handoff"
        ),
        Some("[1, 2]".to_owned())
    );
}

fn changed_leaf() -> RefineRewriteResult {
    RefineRewriteResult {
        changed_files: vec![RefineChangedFile {
            relative_path: "api/leaf.md".to_owned(),
            node_id: Some("leaf-1".to_owned()),
            change_kind: RefineChangedFileKind::TextUpdated,
        }],
        structural_changes: Vec::new(),
        stale_nodes: Vec::new(),
        context_invalidations: Vec::new(),
        unchanged_nodes: Vec::new(),
        expected_gate_targets: Vec::new(),
        unresolved_follow_ups: Vec::new(),
        summary: Default::default(),
    }
}

fn changed_parent_and_leaf() -> RefineRewriteResult {
    let mut result = changed_leaf();
    result.changed_files.insert(
        0,
        RefineChangedFile {
            relative_path: "api/api.md".to_owned(),
            node_id: Some("parent-1".to_owned()),
            change_kind: RefineChangedFileKind::TextUpdated,
        },
    );
    result
}

fn targets(runtime: &mut Runtime, files: &PlanFiles, result: RefineRewriteResult) -> RegisteredRefineGateTargets {
    let inputs = build_refine_gate_selection_inputs(
        runtime,
        BuildRefineGateSelectionInputsRequest {
            plan_id: "plan-1".to_owned(),
            rewrite_result: result,
            stale_result_handoff: Vec::new(),
        },
    )
    .expect("inputs");
    let selection = select_refine_gate_targets(SelectRefineGateTargetsRequest {
        plan_id: "plan-1".to_owned(),
        rewrite_result: inputs.rewrite_result,
        runtime_snapshot: inputs.runtime_snapshot,
        prior_gate_summaries: inputs.prior_gate_summaries,
        stale_result_handoff: inputs.stale_result_handoff,
    });
    let request = selection.to_registration_request("plan-1".to_owned());
    let new_ids: Vec<String> = (0..8).map(|n| format!("new-{n}")).collect();
    register_refine_gate_targets_as(runtime, files, request, &new_ids, NOW).expect("targets")
}

fn run_request(registered_targets: RegisteredRefineGateTargets, tries: u8) -> RunRefineGateRevalidationRequest {
    RunRefineGateRevalidationRequest {
        plan_id: "plan-1".to_owned(),
        plan_root: "/workspace/.loopy/plans/demo".to_owned(),
        planner_mode: PlannerMode::Manual,
        registered_targets,
        retry_policy: RefineGateRetryPolicy {
            max_invocation_retries: tries,
        },
        refine_context: Default::default(),
    }
}

fn context() -> ContextTexts {
    ContextTexts {
        processed_comment_blocks: "[]".to_owned(),
        stale_result_handoff: "[]".to_owned(),
        rewrite_result: None,
    }
}

fn passed_leaf() -> GateAnswer {
    GateAnswer::Leaf(Ok(RunLeafReviewGateResponse {
        gate_run_id: "run".to_owned(),
        passed: true,
        verdict: "approved_as_leaf".to_owned(),
        summary: "good".to_owned(),
        reviewer_role_id: "default".to_owned(),
        issues: Vec::new(),
    }))
}

fn passed_frontier() -> GateAnswer {
    GateAnswer::Frontier(Ok(RunFrontierReviewGateResponse {
        gate_run_id: "run".to_owned(),
        passed: true,
        verdict: "approved_frontier".to_owned(),
        summary: "good".to_owned(),
        reviewer_role_id: "default".to_owned(),
        issues: Vec::new(),
        invalidated_leaf_node_ids: Vec::new(),
    }))
}

fn failed_leaf(message: &str) -> GateAnswer {
    GateAnswer::Leaf(Err(PlanError::new(message.to_owned())))
}

fn finished(step: GateStep) -> RefineGateExecutionReport {
    match step {
        GateStep::Finish(report) => report,
        other => panic!("unexpected {other:?}"),
    }
}

#[test]
fn changed_text_selects_its_leaf() {
    let (mut runtime, files) = plan();
    let registered = targets(&mut runtime, &files, changed_leaf());
    assert_eq!(registered.leaf_targets.len(), 1);
    assert_eq!(registered.leaf_targets[0].node_id, "leaf-1");
    assert_eq!(
        registered.leaf_targets[0].parent_relative_path,
        Some("api/api.md".to_owned())
    );
    assert_eq!(
        registered.leaf_targets[0].reasons,
        vec![RefineGateTargetReason::TextChanged]
    );
    assert!(registered.frontier_targets.is_empty());
}

#[test]
fn changed_parent_selects_itself_and_its_leaves() {
    let (mut runtime, files) = plan();
    let registered = targets(&mut runtime, &files, changed_parent_and_leaf());
    assert_eq!(registered.leaf_targets.len(), 1);
    assert_eq!(registered.leaf_targets[0].relative_path, "api/leaf.md");
    assert_eq!(
        registered.leaf_targets[0].reasons,
        vec![
            RefineGateTargetReason::ParentContractChanged,
            RefineGateTargetReason::TextChanged
        ]
    );
    assert_eq!(registered.frontier_targets.len(), 1);
    assert_eq!(registered.frontier_targets[0].parent_node_id, "parent-1");
    assert_eq!(
        registered.frontier_targets[0].reasons,
        vec![RefineGateTargetReason::ParentContractChanged]
    );
}

#[test]
fn unknown_changed_nodes_are_reported() {
    let (runtime, _) = plan();
    let mut result = changed_leaf();
    result.changed_files[0].relative_path = "../x.md".to_owned();
    let error: RefineRuntimeStateLoadError = build_refine_gate_selection_inputs(
        &runtime,
        BuildRefineGateSelectionInputsRequest {
            plan_id: "plan-1".to_owned(),
            rewrite_result: result,
            stale_result_handoff: Vec::new(),
        },
    )
    .unwrap_err();
    assert!(format!("{error:?}").contains("../x.md"));
}

#[test]
fn refused_registration_tracks_nothing() {
    let (mut runtime, files) = plan();
    let before = runtime.clone();
    let error = register_refine_gate_targets_as(
        &mut runtime,
        &files,
        RegisterRefineGateTargetsRequest {
            plan_id: "plan-1".to_owned(),
            parent_candidates: vec![RefineParentRegistrationCandidate {
                relative_path: "web/web.md".to_owned(),
                parent_relative_path: None,
                reasons: Vec::new(),
            }],
            leaf_candidates: Vec::new(),
            frontier_candidates: Vec::new(),
        },
        &vec!["new-0".to_owned()],
        NOW,
    );
    assert_eq!(
        error,
        Err(RefineGatePreparationError::EmptySelectionReasons {
            candidate_kind: "parent".to_owned(),
            relative_path: "web/web.md".to_owned(),
        })
    );
    assert_eq!(runtime, before);
}

#[test]
fn registration_refused_on_the_way_tracks_nothing() {
    let (mut runtime, mut files) = plan();
    let before = runtime.clone();
    load(&mut files, "a/a.md", "# A\n");
    load(&mut files, "b/c/c.md", "# C\n");
    let parent = |path: &str| RefineParentRegistrationCandidate {
        relative_path: path.to_owned(),
        parent_relative_path: None,
        reasons: vec![RefineGateTargetReason::NewParent],
    };
    let request = |paths: &[&str]| RegisterRefineGateTargetsRequest {
        plan_id: "plan-1".to_owned(),
        parent_candidates: paths.iter().map(|path| parent(path)).collect(),
        leaf_candidates: Vec::new(),
        frontier_candidates: Vec::new(),
    };
    let ids = vec!["new-0".to_owned(), "new-1".to_owned()];
    let refused = register_refine_gate_targets_as(
        &mut runtime,
        &files,
        request(&["a/a.md", "b/c/c.md"]),
        &ids,
        NOW,
    );
    match refused {
        Err(RefineGatePreparationError::RegistrationFailed { relative_path, .. }) => {
            assert_eq!(relative_path, "b/c/c.md");
        }
        other => panic!("{other:?}"),
    }
    assert_eq!(runtime, before);
    let taken =
        register_refine_gate_targets_as(&mut runtime, &files, request(&["a/a.md"]), &ids, NOW);
    assert_eq!(taken.unwrap().parent_targets[0].node_id, "new-0");
    assert_eq!(runtime.nodes.len(), before.nodes.len() + 1);
}

#[test]
fn parents_wait_for_their_leaves() {
    let (mut runtime, files) = plan();
    let registered = targets(&mut runtime, &files, changed_parent_and_leaf());
    let request = run_request(registered, 2);
    let mut progress = RefineGateProgress::start();
    let step = |progress: &mut RefineGateProgress, answer: GateAnswer| {
        run_refine_gate_revalidation(&runtime, &files, &request, &context(), progress, &answer)
    };
    match step(&mut progress, GateAnswer::Started).unwrap() {
        GateStep::RunLeaf(gate) => {
            assert_eq!(gate.node_id, "leaf-1");
            assert!(gate.refine_revalidation_context.unwrap().contains("api/leaf.md"));
        }
        other => panic!("unexpected {other:?}"),
    }
    match step(&mut progress, passed_leaf()).unwrap() {
        GateStep::RunFrontier(gate) => assert_eq!(gate.parent_node_id, "parent-1"),
        other => panic!("unexpected {other:?}"),
    }
    let report = finished(step(&mut progress, passed_frontier()).unwrap());
    assert_eq!(report.status, RefineGateExecutionStatus::Passed);
    assert_eq!(report.leaf_attempts.len(), 1);
    assert_eq!(report.frontier_attempts.len(), 1);
    assert!(report.invalidated_leaf_node_ids.is_empty());
    assert_eq!(
        report.leaf_attempts[0].content_fingerprint,
        leaf_fingerprint(&files, "api/leaf.md").unwrap()
    );
}

#[test]
fn failing_gates_are_tried_as_often_as_allowed() {
    let (mut runtime, files) = plan();
    let registered = targets(&mut runtime, &files, changed_leaf());
    let request = run_request(registered, 2);
    let mut progress = RefineGateProgress::start();
    let step = |progress: &mut RefineGateProgress, answer: GateAnswer| {
        run_refine_gate_revalidation(&runtime, &files, &request, &context(), progress, &answer)
    };
    step(&mut progress, GateAnswer::Started).unwrap();
    assert!(matches!(
        step(&mut progress, failed_leaf("first")),
        Ok(GateStep::RunLeaf(_))
    ));
    let report = finished(step(&mut progress, failed_leaf("second")).unwrap());
    assert_eq!(
        report.status,
        RefineGateExecutionStatus::ExhaustedInvocationRetries
    );
    assert_eq!(report.leaf_attempts.len(), 2);
    assert_eq!(report.exhausted_invocation_retries.len(), 1);
    assert_eq!(report.exhausted_invocation_retries[0].error, "second");
    assert!(matches!(
        report.leaf_attempts[0].outcome,
        RefineGateAttemptOutcome::InvocationFailure { .. }
    ));
}

#[test]
fn changed_content_is_not_tried_again() {
    let (mut runtime, mut files) = plan();
    let registered = targets(&mut runtime, &files, changed_leaf());
    let request = run_request(registered, 3);
    let mut progress = RefineGateProgress::start();
    run_refine_gate_revalidation(
        &runtime,
        &files,
        &request,
        &context(),
        &mut progress,
        &GateAnswer::Started,
    )
    .unwrap();
    files.write("api/leaf.md", "# Other\n");
    let error = run_refine_gate_revalidation(
        &runtime,
        &files,
        &request,
        &context(),
        &mut progress,
        &failed_leaf("first"),
    )
    .unwrap_err();
    assert_eq!(
        error,
        RefineGateExecutionError::InvalidRegisteredTargets {
            reason: "content fingerprint changed before retry for api/leaf.md".to_owned(),
        }
    );
}

#[test]
fn open_issues_block_the_run() {
    let (mut runtime, files) = plan();
    let registered = targets(&mut runtime, &files, changed_leaf());
    let request = run_request(registered, 3);
    let mut progress = RefineGateProgress::start();
    let step = |progress: &mut RefineGateProgress, answer: GateAnswer| {
        run_refine_gate_revalidation(&runtime, &files, &request, &context(), progress, &answer)
    };
    step(&mut progress, GateAnswer::Started).unwrap();
    let mut blocked = RunLeafReviewGateResponse {
        gate_run_id: "run".to_owned(),
        passed: false,
        verdict: "revise_leaf".to_owned(),
        summary: "no".to_owned(),
        reviewer_role_id: "default".to_owned(),
        issues: vec![issue()],
    };
    let report = finished(step(&mut progress, GateAnswer::Leaf(Ok(blocked.clone()))).unwrap());
    assert_eq!(report.status, RefineGateExecutionStatus::BlockedByReviewIssues);
    assert_eq!(report.blocked_by_review_issues, vec![issue()]);

    step(&mut progress, GateAnswer::Started).unwrap();
    blocked.issues[0].question_for_user = Some("Which one?".to_owned());
    let report = finished(step(&mut progress, GateAnswer::Leaf(Ok(blocked))).unwrap());
    assert_eq!(report.status, RefineGateExecutionStatus::PausedForUserDecision);
    assert_eq!(report.paused_for_user_decision, Some("Which one?".to_owned()));
}

#[test]
fn gates_are_tried_at_least_once() {
    let (runtime, files) = plan();
    let request = run_request(RegisteredRefineGateTargets::default(), 0);
    assert_eq!(
        run_refine_gate_revalidation(
            &runtime,
            &files,
            &request,
            &context(),
            &mut RefineGateProgress::start(),
            &GateAnswer::Started,
        ),
        Err(RefineGateExecutionError::InvalidRegisteredTargets {
            reason: "retry_policy.max_invocation_retries must be at least 1".to_owned(),
        })
    );
    assert_eq!(RefineGateRetryPolicy::default().max_invocation_retries, 5);
}
