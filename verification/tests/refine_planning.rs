use loopy_gen_plan::files::PlanRootKind;
use loopy_gen_plan::refine::{
    analyze_refine_comment_impact, plan_refine_rewrite_scope, ExpectedGateRevalidation,
    RefineAffectedScope, RefineAffectedTrackedNode, RefineCommentSource, RefineDecision,
    RefineDecisionChangeType, RefineDecisionConfirmation, RefineDecisionStatus,
    RefineImpactAnalysisRequest, RefineImpactCategory, RefineRewriteAction,
    RefineRewriteActionKind, RefineRewriteScopeError, RefineRewriteScopeRequest,
};

fn comment(path: &str, text: &str) -> RefineCommentSource {
    RefineCommentSource {
        source_path: path.to_owned(),
        begin_comment_line: 1,
        end_comment_line: 3,
        comment_text: Some(text.to_owned()),
    }
}

fn action(kind: RefineRewriteActionKind, target: Option<&str>, parent: Option<&str>) -> RefineRewriteAction {
    RefineRewriteAction {
        action_kind: kind,
        target_relative_path: target.map(|path| path.to_owned()),
        parent_relative_path: parent.map(|path| path.to_owned()),
        node_kind: None,
        link_change: None,
        replacement_markdown: None,
        rationale: None,
    }
}

fn decision(status: RefineDecisionStatus, rewrite_actions: Vec<RefineRewriteAction>) -> RefineDecision {
    RefineDecision {
        source_comments: Vec::new(),
        affected_scope: Default::default(),
        change_types: Vec::new(),
        confirmation: RefineDecisionConfirmation {
            status,
            rationale: "because".to_owned(),
            question_for_user: None,
            decision_impact: None,
        },
        rewrite_actions,
        expected_gate_revalidation: Vec::new(),
    }
}

fn scope_request(decisions: Vec<RefineDecision>) -> RefineRewriteScopeRequest {
    RefineRewriteScopeRequest {
        plan_id: "plan-1".to_owned(),
        plan_root: "/plans/demo".to_owned(),
        decisions,
    }
}

#[test]
fn refine_decision_records_source_scope_confirmation_and_expected_gates() {
    let decision = RefineDecision {
        source_comments: vec![RefineCommentSource {
            source_path: "api/add-auth-tests.md".to_owned(),
            begin_comment_line: 10,
            end_comment_line: 12,
            comment_text: Some("tighten verification".to_owned()),
        }],
        affected_scope: RefineAffectedScope {
            affected_files: vec!["api/add-auth-tests.md".to_owned()],
            affected_tracked_nodes: vec![RefineAffectedTrackedNode {
                node_id: "leaf-1".to_owned(),
                relative_path: Some("api/add-auth-tests.md".to_owned()),
            }],
            affected_subtree_roots: vec!["api/api.md".to_owned()],
            unresolved_mapping_note: None,
        },
        change_types: vec![RefineDecisionChangeType::InPlaceTextUpdate],
        confirmation: RefineDecisionConfirmation {
            status: RefineDecisionStatus::ConfirmationCleared,
            rationale: "comment maps to one leaf".to_owned(),
            question_for_user: None,
            decision_impact: None,
        },
        rewrite_actions: vec![RefineRewriteAction {
            action_kind: RefineRewriteActionKind::UpdateExistingNode,
            target_relative_path: Some("api/add-auth-tests.md".to_owned()),
            parent_relative_path: Some("api/api.md".to_owned()),
            node_kind: Some("leaf".to_owned()),
            link_change: None,
            replacement_markdown: Some("# Add Auth Tests\n".to_owned()),
            rationale: Some("apply natural-language feedback".to_owned()),
        }],
        expected_gate_revalidation: vec![ExpectedGateRevalidation {
            leaf_targets: vec!["api/add-auth-tests.md".to_owned()],
            frontier_targets: vec!["api/api.md".to_owned()],
            reasons: vec!["text changed".to_owned()],
        }],
    };

    assert_eq!(decision.source_comments[0].begin_comment_line, 10);
    assert_eq!(
        decision.affected_scope.affected_tracked_nodes[0].node_id,
        "leaf-1"
    );
    assert_eq!(
        decision.confirmation.status,
        RefineDecisionStatus::ConfirmationCleared
    );
    assert_eq!(
        decision.expected_gate_revalidation[0].leaf_targets,
        vec!["api/add-auth-tests.md"]
    );
}

#[test]
fn impact_analysis_maps_comments_and_detects_ambiguity() {
    let analysis = analyze_refine_comment_impact(RefineImpactAnalysisRequest {
        plan_id: "plan-1".to_owned(),
        comments: vec![
            RefineCommentSource {
                source_path: "api/add-auth-tests.md".to_owned(),
                begin_comment_line: 1,
                end_comment_line: 3,
                comment_text: Some("tighten content".to_owned()),
            },
            RefineCommentSource {
                source_path: "missing.md".to_owned(),
                begin_comment_line: 5,
                end_comment_line: 7,
                comment_text: Some("add node".to_owned()),
            },
        ],
        known_node_paths: vec!["api/add-auth-tests.md".to_owned()],
    });

    assert_eq!(analysis.decisions.len(), 2);
    assert_eq!(analysis.mapping_issues.len(), 1);
    assert_eq!(
        analysis.decisions[0].change_types,
        vec![RefineDecisionChangeType::InPlaceTextUpdate]
    );
    assert_eq!(
        analysis.decisions[1].confirmation.status,
        RefineDecisionStatus::AwaitingManualConfirmation
    );
}

#[test]
fn comments_are_sorted_by_the_words_they_hold() {
    let analysis = analyze_refine_comment_impact(RefineImpactAnalysisRequest {
        plan_id: "plan-1".to_owned(),
        comments: vec![
            comment("a.md", "Please ADD NODE here"),
            comment("a.md", "delete node b"),
            comment("a.md", "fix the Link"),
            comment("a.md", "the contract is vague"),
            comment("a.md", "user decides"),
            comment("a.md", "reword"),
        ],
        known_node_paths: vec!["a.md".to_owned()],
    });
    let kinds: Vec<RefineDecisionChangeType> = analysis
        .decisions
        .iter()
        .map(|decision| decision.change_types[0])
        .collect();
    assert_eq!(
        kinds,
        vec![
            RefineDecisionChangeType::NodeCreation,
            RefineDecisionChangeType::NodeRemoval,
            RefineDecisionChangeType::LinkChange,
            RefineDecisionChangeType::ParentContractChange,
            RefineDecisionChangeType::ContextInvalidation,
            RefineDecisionChangeType::InPlaceTextUpdate,
        ]
    );
    assert_eq!(
        analysis.decisions[0].confirmation.rationale,
        "mapped natural-language comment to NewNodeRequest"
    );
    assert!(analysis.mapping_issues.is_empty());
    assert_eq!(
        RefineImpactCategory::UserOwnedDecision.as_str(),
        "UserOwnedDecision"
    );
}

#[test]
fn unknown_files_stop_the_scope() {
    let analysis = analyze_refine_comment_impact(RefineImpactAnalysisRequest {
        plan_id: "plan-1".to_owned(),
        comments: vec![comment("a.md", "reword"), comment("lost.md", "reword")],
        known_node_paths: vec!["a.md".to_owned()],
    });
    assert_eq!(
        plan_refine_rewrite_scope(scope_request(analysis.decisions), PlanRootKind::Directory),
        Err(RefineRewriteScopeError::UnconfirmedDecision)
    );
}

#[test]
fn scope_takes_up_every_action() {
    let scope = plan_refine_rewrite_scope(
        scope_request(vec![
            decision(
                RefineDecisionStatus::ConfirmationCleared,
                vec![
                    action(RefineRewriteActionKind::UpdateExistingNode, Some("a.md"), None),
                    action(RefineRewriteActionKind::MarkStale, Some("b.md"), None),
                    action(RefineRewriteActionKind::CreateNode, Some("c.md"), None),
                ],
            ),
            decision(
                RefineDecisionStatus::AutoContinuationCandidate,
                vec![
                    action(RefineRewriteActionKind::RemoveNode, Some("d.md"), Some("p/p.md")),
                    action(RefineRewriteActionKind::UpdateLinks, Some("p/e.md"), Some("p/p.md")),
                ],
            ),
        ]),
        PlanRootKind::Directory,
    )
    .expect("scope");
    assert_eq!(scope.rewrite_targets.len(), 2);
    assert_eq!(scope.rewrite_targets[1].relative_path, "b.md");
    assert_eq!(scope.node_creations.len(), 1);
    assert_eq!(scope.node_removals.len(), 1);
    assert!(scope.node_removals[0].explicit);
    assert_eq!(scope.link_changes.len(), 1);
    assert_eq!(
        scope.link_changes[0].add_child_relative_paths,
        vec!["p/e.md".to_owned()]
    );
    assert!(scope.conflicts.is_empty());
}

#[test]
fn scope_errors_say_what_is_missing() {
    assert_eq!(
        plan_refine_rewrite_scope(scope_request(Vec::new()), PlanRootKind::Missing),
        Err(RefineRewriteScopeError::MissingPlanRoot)
    );
    assert_eq!(
        plan_refine_rewrite_scope(
            scope_request(vec![decision(
                RefineDecisionStatus::ConfirmationCleared,
                vec![action(RefineRewriteActionKind::CreateNode, None, None)],
            )]),
            PlanRootKind::Directory,
        ),
        Err(RefineRewriteScopeError::UnmappedImpact)
    );
    assert_eq!(
        plan_refine_rewrite_scope(
            scope_request(vec![decision(
                RefineDecisionStatus::ConfirmationCleared,
                vec![action(RefineRewriteActionKind::UpdateLinks, Some("a.md"), None)],
            )]),
            PlanRootKind::Directory,
        ),
        Err(RefineRewriteScopeError::MissingLinkedNode)
    );
    assert_eq!(
        plan_refine_rewrite_scope(
            scope_request(vec![decision(
                RefineDecisionStatus::UserDecisionBlocked,
                Vec::new(),
            )]),
            PlanRootKind::Directory,
        ),
        Err(RefineRewriteScopeError::UnconfirmedDecision)
    );
}
