use loopy_gen_plan::api::{
    EnsureNodeIdRequest, EnsurePlanRequest, ListChildrenRequest, PlannerMode,
    RunFrontierReviewGateRequest,
};
use loopy_gen_plan::bundle::{dispatch_loader, LoaderRegistration};
use loopy_gen_plan::files::{FileContent, FileOperation, PlanFiles, PlanRootKind};
use loopy_gen_plan::refine::gate_registration::register_refine_gate_targets_as;
use loopy_gen_plan::refine::markdown::remove_comment_blocks;
use loopy_gen_plan::refine::{
    apply_refine_rewrite, register_refine_gate_targets, select_refine_gate_targets,
    RefineChangedFile, RefineChangedFileKind, RefineContextInvalidation, RefineDecision,
    RefineDecisionConfirmation, RefineDecisionStatus, RefineFrontierRegistrationCandidate,
    RefineGateTargetReason, RefineLeafRegistrationCandidate, RefineLinkChange,
    RefineNodeCreation, RefineParentRegistrationCandidate, RefineRewriteAction,
    RefineRewriteActionKind, RefineRewriteError, RefineRewriteRequest, RefineRewriteResult,
    RefineRewriteScope, RefineRewriteTarget, RefineStructuralChange, RefineStructuralChangeKind,
    RegisterRefineGateTargetsRequest, SelectRefineGateTargetsRequest,
};
use loopy_gen_plan::runtime::Runtime;

const NOW: &str = "1767225600";

fn load(files: &mut PlanFiles, path: &str, text: &str) {
    files.load(
        path.to_owned(),
        FileContent::Text {
            text: text.to_owned(),
        },
    );
}

fn decision(rewrite_actions: Vec<RefineRewriteAction>) -> RefineDecision {
    RefineDecision {
        source_comments: Vec::new(),
        affected_scope: Default::default(),
        change_types: Vec::new(),
        confirmation: RefineDecisionConfirmation {
            status: RefineDecisionStatus::ConfirmationCleared,
            rationale: "confirmed".to_owned(),
            question_for_user: None,
            decision_impact: None,
        },
        rewrite_actions,
        expected_gate_revalidation: Vec::new(),
    }
}

fn replacing(path: &str, text: &str) -> RefineRewriteAction {
    RefineRewriteAction {
        action_kind: RefineRewriteActionKind::UpdateExistingNode,
        target_relative_path: Some(path.to_owned()),
        parent_relative_path: None,
        node_kind: None,
        link_change: None,
        replacement_markdown: Some(text.to_owned()),
        rationale: None,
    }
}

fn rewrite(decisions: Vec<RefineDecision>, rewrite_scope: RefineRewriteScope) -> RefineRewriteRequest {
    RefineRewriteRequest {
        plan_id: "plan-1".to_owned(),
        plan_root: "/plans/demo".to_owned(),
        decisions,
        rewrite_scope,
        blocked_follow_ups: Vec::new(),
    }
}

fn target(path: &str) -> RefineRewriteTarget {
    RefineRewriteTarget {
        relative_path: path.to_owned(),
        node_id: None,
        action_kind: RefineRewriteActionKind::UpdateExistingNode,
    }
}

fn runtime() -> Runtime {
    let mut runtime = Runtime::new("/workspace".to_owned());
    runtime
        .ensure_plan_as(
            EnsurePlanRequest {
                plan_name: "demo".to_owned(),
                task_type: "coding-task".to_owned(),
                project_directory: "/project".to_owned(),
            },
            "plan-1",
            NOW,
        )
        .expect("plan");
    runtime
}

fn node(runtime: &mut Runtime, path: &str, parent: Option<&str>, id: &str) {
    runtime
        .ensure_node_id_as(
            EnsureNodeIdRequest {
                plan_id: "plan-1".to_owned(),
                relative_path: path.to_owned(),
                parent_relative_path: parent.map(|path| path.to_owned()),
            },
            id,
            NOW,
        )
        .expect("node");
}

#[test]
fn rewrite_touches_nothing_but_what_is_named() {
    let mut files = PlanFiles::new(PlanRootKind::Directory);
    load(&mut files, "a.md", "# A\n");
    load(&mut files, "b.md", "# B\nBEGIN_COMMENT\nx\nEND_COMMENT\n");
    apply_refine_rewrite(
        rewrite(
            vec![decision(vec![replacing("a.md", "# A\n\nnew\n")])],
            RefineRewriteScope {
                rewrite_targets: vec![target("a.md")],
                ..Default::default()
            },
        ),
        &mut files,
    )
    .expect("rewrite");
    assert_eq!(
        *files.operations(),
        vec![FileOperation::Write {
            relative_path: "a.md".to_owned(),
            text: "# A\n\nnew\n".to_owned(),
        }]
    );
    assert_eq!(
        files.read("b.md").unwrap(),
        "# B\nBEGIN_COMMENT\nx\nEND_COMMENT\n"
    );
}

#[test]
fn lost_headings_are_reported() {
    let mut files = PlanFiles::new(PlanRootKind::Directory);
    load(&mut files, "a.md", "# A\n");
    let error = apply_refine_rewrite(
        rewrite(
            vec![decision(vec![replacing("a.md", "no title\n")])],
            RefineRewriteScope {
                rewrite_targets: vec![target("a.md")],
                ..Default::default()
            },
        ),
        &mut files,
    )
    .unwrap_err();
    assert_eq!(
        error,
        RefineRewriteError::PostWriteStructureViolation {
            relative_path: "a.md".to_owned(),
            reason: "required plan headings were lost".to_owned(),
        }
    );
}

#[test]
fn broken_links_are_reported() {
    let mut files = PlanFiles::new(PlanRootKind::Directory);
    load(
        &mut files,
        "api/api.md",
        "# API\n## Child Nodes\n- [Gone](./gone.md)\n",
    );
    load(&mut files, "api/new.md", "# New\n");
    let error = apply_refine_rewrite(
        rewrite(
            Vec::new(),
            RefineRewriteScope {
                link_changes: vec![RefineLinkChange {
                    parent_relative_path: "api/api.md".to_owned(),
                    add_child_relative_paths: vec!["api/new.md".to_owned()],
                    remove_child_relative_paths: Vec::new(),
                }],
                ..Default::default()
            },
        ),
        &mut files,
    )
    .unwrap_err();
    assert_eq!(
        error,
        RefineRewriteError::PostWriteStructureViolation {
            relative_path: "api/api.md".to_owned(),
            reason: "broken child link: api/gone.md".to_owned(),
        }
    );
}

#[test]
fn refused_requests_say_why() {
    let mut files = PlanFiles::new(PlanRootKind::Missing);
    assert_eq!(
        apply_refine_rewrite(rewrite(Vec::new(), Default::default()), &mut files),
        Err(RefineRewriteError::InvalidPlanRoot)
    );
    let mut request = rewrite(Vec::new(), Default::default());
    request.plan_root = String::new();
    assert_eq!(
        apply_refine_rewrite(request, &mut files),
        Err(RefineRewriteError::MissingPlanRoot)
    );
    let mut files = PlanFiles::new(PlanRootKind::Directory);
    assert_eq!(
        apply_refine_rewrite(
            rewrite(
                Vec::new(),
                RefineRewriteScope {
                    node_creations: vec![RefineNodeCreation {
                        relative_path: "../x.md".to_owned(),
                        parent_relative_path: None,
                        node_kind: None,
                    }],
                    ..Default::default()
                },
            ),
            &mut files,
        ),
        Err(RefineRewriteError::InvalidRewriteScope)
    );
    load(&mut files, "a.md", "# A\n");
    files.load(
        "b.md".to_owned(),
        FileContent::Unreadable {
            source: "permission denied".to_owned(),
        },
    );
    assert_eq!(
        apply_refine_rewrite(
            rewrite(
                Vec::new(),
                RefineRewriteScope {
                    rewrite_targets: vec![target("b.md")],
                    ..Default::default()
                },
            ),
            &mut files,
        ),
        Err(RefineRewriteError::Io {
            path: "/plans/demo/b.md".to_owned(),
            source: "permission denied".to_owned(),
        })
    );
    assert!(files.operations().is_empty());
}

#[test]
fn new_nodes_without_text_get_a_title() {
    let mut files = PlanFiles::new(PlanRootKind::Directory);
    apply_refine_rewrite(
        rewrite(
            Vec::new(),
            RefineRewriteScope {
                node_creations: vec![RefineNodeCreation {
                    relative_path: "add-auth-tests.md".to_owned(),
                    parent_relative_path: None,
                    node_kind: None,
                }],
                ..Default::default()
            },
        ),
        &mut files,
    )
    .expect("rewrite");
    assert_eq!(files.read("add-auth-tests.md").unwrap(), "# Add Auth Tests\n");
}

#[test]
fn cleaning_twice_is_cleaning_once() {
    let once = remove_comment_blocks("a.md", "x\nBEGIN_COMMENT\ny\nEND_COMMENT\nz", &Vec::new())
        .expect("clean");
    assert_eq!(once, "x\nz");
    assert_eq!(
        remove_comment_blocks("a.md", &once, &Vec::new()),
        Ok("x\nz".to_owned())
    );
}

fn result_of_changes() -> RefineRewriteResult {
    RefineRewriteResult {
        changed_files: vec![
            RefineChangedFile {
                relative_path: "new/new.md".to_owned(),
                node_id: None,
                change_kind: RefineChangedFileKind::Created,
            },
            RefineChangedFile {
                relative_path: "new/leaf.md".to_owned(),
                node_id: None,
                change_kind: RefineChangedFileKind::Created,
            },
            RefineChangedFile {
                relative_path: "new/leaf.md".to_owned(),
                node_id: None,
                change_kind: RefineChangedFileKind::TextUpdated,
            },
        ],
        structural_changes: vec![RefineStructuralChange {
            parent_relative_path: "new/new.md".to_owned(),
            parent_node_id: None,
            change_kind: RefineStructuralChangeKind::ChangedChildSet,
            added_child_relative_paths: vec!["new/leaf.md".to_owned()],
            removed_child_relative_paths: Vec::new(),
        }],
        stale_nodes: Vec::new(),
        context_invalidations: vec![RefineContextInvalidation {
            relative_path: "new/leaf.md".to_owned(),
            node_id: None,
            reason: "parent changed".to_owned(),
        }],
        unchanged_nodes: Vec::new(),
        expected_gate_targets: Vec::new(),
        unresolved_follow_ups: Vec::new(),
        summary: Default::default(),
    }
}

#[test]
fn changed_contexts_select_their_own_leaves_only() {
    let select = |contexts: &[&str]| {
        let mut rewrite_result = result_of_changes();
        rewrite_result.context_invalidations = contexts
            .iter()
            .map(|path| RefineContextInvalidation {
                relative_path: (*path).to_owned(),
                node_id: None,
                reason: "parent changed".to_owned(),
            })
            .collect();
        select_refine_gate_targets(SelectRefineGateTargetsRequest {
            plan_id: "plan-1".to_owned(),
            rewrite_result,
            runtime_snapshot: Default::default(),
            prior_gate_summaries: Default::default(),
            stale_result_handoff: Vec::new(),
        })
    };
    let with = select(&["new/leaf.md", "other/leaf.md"]);
    let without = select(&[]);
    assert_eq!(with.frontier_targets, without.frontier_targets);
    let paths: Vec<&str> = with
        .leaf_targets
        .iter()
        .map(|target| target.relative_path.as_str())
        .collect();
    assert_eq!(paths, vec!["new/leaf.md", "other/leaf.md"]);
    assert_eq!(without.leaf_targets.len(), 1);
    assert_eq!(
        with.leaf_targets[1].reasons,
        vec![RefineGateTargetReason::ContextInvalidated]
    );
}

#[test]
fn selected_targets_are_registered_once_with_their_reasons() {
    let selection = select_refine_gate_targets(SelectRefineGateTargetsRequest {
        plan_id: "plan-1".to_owned(),
        rewrite_result: result_of_changes(),
        runtime_snapshot: Default::default(),
        prior_gate_summaries: Default::default(),
        stale_result_handoff: Vec::new(),
    });
    assert_eq!(selection.leaf_targets.len(), 1);
    assert_eq!(
        selection.leaf_targets[0].reasons,
        vec![
            RefineGateTargetReason::NewLeaf,
            RefineGateTargetReason::TextChanged,
            RefineGateTargetReason::ContextInvalidated,
        ]
    );
    assert_eq!(selection.frontier_targets.len(), 1);
    assert_eq!(
        selection.frontier_targets[0].reasons,
        vec![
            RefineGateTargetReason::NewParent,
            RefineGateTargetReason::ChangedChildSet,
        ]
    );
    let request = selection.to_registration_request("plan-1".to_owned());
    assert_eq!(request.parent_candidates.len(), 1);

    let mut runtime = runtime();
    let mut files = PlanFiles::new(PlanRootKind::Directory);
    load(
        &mut files,
        "new/new.md",
        "# New\n## Child Nodes\n- [Leaf](./leaf.md)\n",
    );
    load(&mut files, "new/leaf.md", "# Leaf\n");
    let registered = register_refine_gate_targets(&mut runtime, &files, request, NOW).expect("targets");
    assert_eq!(registered.parent_targets.len(), 1);
    assert_eq!(registered.leaf_targets.len(), 1);
    assert_eq!(registered.frontier_targets.len(), 1);
    assert_eq!(
        registered.frontier_targets[0].parent_node_id,
        registered.parent_targets[0].node_id
    );
    assert_eq!(registered.parent_targets[0].node_id.len(), 36);
    let children = runtime
        .list_children(ListChildrenRequest {
            plan_id: "plan-1".to_owned(),
            parent_node_id: Some(registered.parent_targets[0].node_id.clone()),
            parent_relative_path: None,
        })
        .unwrap()
        .children;
    assert_eq!(children.len(), 1);
    assert_eq!(children[0].node_id, registered.leaf_targets[0].node_id);
}

#[test]
fn parents_are_registered_before_their_children() {
    let mut runtime = runtime();
    let mut files = PlanFiles::new(PlanRootKind::Directory);
    for path in ["a/a.md", "a/b/b.md", "a/b/leaf.md"] {
        load(&mut files, path, "# Node\n");
    }
    let reasons = vec![
        RefineGateTargetReason::NewParent,
        RefineGateTargetReason::NewParent,
    ];
    let registered = register_refine_gate_targets_as(
        &mut runtime,
        &files,
        RegisterRefineGateTargetsRequest {
            plan_id: "plan-1".to_owned(),
            parent_candidates: vec![
                RefineParentRegistrationCandidate {
                    relative_path: "a/b/b.md".to_owned(),
                    parent_relative_path: Some("a/a.md".to_owned()),
                    reasons: reasons.clone(),
                },
                RefineParentRegistrationCandidate {
                    relative_path: "a/a.md".to_owned(),
                    parent_relative_path: None,
                    reasons: reasons.clone(),
                },
            ],
            leaf_candidates: vec![RefineLeafRegistrationCandidate {
                relative_path: "a/b/leaf.md".to_owned(),
                parent_relative_path: Some("a/b/b.md".to_owned()),
                reasons: vec![RefineGateTargetReason::NewLeaf],
            }],
            frontier_candidates: vec![RefineFrontierRegistrationCandidate {
                parent_relative_path: "a/a.md".to_owned(),
                changed_child_relative_paths: Vec::new(),
                removed_child_relative_paths: Vec::new(),
                reasons,
            }],
        },
        &vec!["n1".to_owned(), "n2".to_owned(), "n3".to_owned()],
        NOW,
    )
    .expect("targets");
    let ids: Vec<&str> = registered
        .parent_targets
        .iter()
        .map(|target| target.node_id.as_str())
        .collect();
    assert_eq!(ids, vec!["n1", "n2"]);
    assert_eq!(registered.parent_targets[0].relative_path, "a/a.md");
    assert_eq!(
        registered.parent_targets[0].reasons,
        vec![RefineGateTargetReason::NewParent]
    );
    assert_eq!(registered.leaf_targets[0].node_id, "n3");
    assert_eq!(registered.frontier_targets[0].parent_node_id, "n1");
}

#[test]
fn missing_parent_file_stops_the_review() {
    let mut runtime = runtime();
    let files = PlanFiles::new(PlanRootKind::Directory);
    node(&mut runtime, "a/a.md", None, "n1");
    let error = runtime
        .prepare_frontier_review_gate(
            &files,
            &Err(loopy_gen_plan::error::PlanError::new("no skill".to_owned())),
            &RunFrontierReviewGateRequest {
                plan_id: "plan-1".to_owned(),
                parent_node_id: "n1".to_owned(),
                planner_mode: PlannerMode::Manual,
                refine_revalidation_context: None,
                refine_invalidatable_leaf_node_ids: None,
            },
        )
        .unwrap_err();
    assert!(error.message.contains("a/a.md"));
}

#[test]
fn loaders_are_found_by_their_id() {
    let registrations = [LoaderRegistration {
        loader_id: "one",
        loader: 1,
    }];
    assert_eq!(dispatch_loader("one", &registrations), Ok(&1));
    assert_eq!(
        dispatch_loader("two", &registrations).unwrap_err().message,
        "no loader registered for two"
    );
}
