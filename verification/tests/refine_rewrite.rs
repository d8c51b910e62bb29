use loopy_gen_plan::files::{FileContent, PlanFiles, PlanRootKind};
use loopy_gen_plan::refine::rewrite::{assemble_refine_rewrite_result, MutationReports};
use loopy_gen_plan::refine::summary::build_refine_rewrite_summary;
use loopy_gen_plan::refine::{
    apply_refine_rewrite, ExpectedGateRevalidation, RefineAffectedScope, RefineAffectedTrackedNode,
    RefineChangedFile, RefineChangedFileKind, RefineCommentSource, RefineDecision,
    RefineDecisionConfirmation, RefineDecisionStatus, RefineLinkChange, RefineNodeCreation,
    RefineNodeRemoval, RefineRewriteAction, RefineRewriteActionKind, RefineRewriteError,
    RefineRewriteRequest, RefineRewriteScope, RefineRewriteTarget, RefineStaleDescendant,
    RefineStaleNode, RefineStaleNodeSummaryEntry, RefineStaleNodeSummaryKind,
    RefineStructuralChange, RefineStructuralChangeKind,
};

const PLAN_ROOT: &str = "/workspace/.loopy/plans/demo";

#[test]
fn refine_rewrite_orchestration_sequences_mutations_and_result_buckets() {
    let mut files = plan_files();
    load(&mut files, "api.md", "# API\n\nBEGIN_COMMENT\nChange text\nEND_COMMENT\n");
    let decision = RefineDecision {
        source_comments: Vec::new(),
        affected_scope: Default::default(),
        change_types: vec![],
        confirmation: RefineDecisionConfirmation {
            status: RefineDecisionStatus::ConfirmationCleared,
            rationale: "confirmed".to_owned(),
            question_for_user: None,
            decision_impact: None,
        },
        rewrite_actions: vec![RefineRewriteAction {
            action_kind: RefineRewriteActionKind::UpdateExistingNode,
            target_relative_path: Some("api.md".to_owned()),
            parent_relative_path: None,
            node_kind: Some("leaf".to_owned()),
            link_change: None,
            replacement_markdown: Some("# API\n\nUpdated\n".to_owned()),
            rationale: None,
        }],
        expected_gate_revalidation: vec![ExpectedGateRevalidation {
            leaf_targets: vec!["api.md".to_owned()],
            frontier_targets: vec![],
            reasons: vec!["text".to_owned()],
        }],
    };
    let result = apply_refine_rewrite(
        RefineRewriteRequest {
            plan_id: "plan-1".to_owned(),
            plan_root: PLAN_ROOT.to_owned(),
            decisions: vec![decision.clone()],
            rewrite_scope: RefineRewriteScope {
                rewrite_targets: vec![RefineRewriteTarget {
                    relative_path: "api.md".to_owned(),
                    node_id: Some("leaf-1".to_owned()),
                    action_kind: RefineRewriteActionKind::UpdateExistingNode,
                }],
                ..Default::default()
            },
            blocked_follow_ups: vec![decision],
        },
        &mut files,
    )
    .expect("rewrite should pass");

    assert_eq!(
        files.read("api.md").unwrap(),
        "# API\n\nUpdated\n"
    );
    assert_eq!(
        result.changed_files[0].change_kind,
        RefineChangedFileKind::TextUpdated
    );
    assert_eq!(result.unresolved_follow_ups.len(), 1);
    assert_eq!(result.summary.expected_leaf_gate_target_count, 1);

    let blocked = RefineDecision {
        confirmation: RefineDecisionConfirmation {
            status: RefineDecisionStatus::AwaitingManualConfirmation,
            rationale: "manual".to_owned(),
            question_for_user: None,
            decision_impact: None,
        },
        ..result.unresolved_follow_ups[0].clone()
    };
    let error = apply_refine_rewrite(
        RefineRewriteRequest {
            plan_id: "plan-1".to_owned(),
            plan_root: PLAN_ROOT.to_owned(),
            decisions: vec![blocked],
            rewrite_scope: RefineRewriteScope::default(),
            blocked_follow_ups: Vec::new(),
        },
        &mut files,
    )
    .expect_err("unconfirmed decision should fail before mutations");
    assert_eq!(error, RefineRewriteError::UnauthorizedDecision);
}

#[test]
fn refine_rewrite_preserves_unresolved_comment_blocks() {
    let mut files = plan_files();
    load(&mut files, "api.md", "# API\n\nBEGIN_COMMENT\napply this\nEND_COMMENT\n\nBody\n\nBEGIN_COMMENT\nlater\nEND_COMMENT\n");
    let applied = confirmed_decision(
        Vec::new(),
        vec![RefineRewriteAction {
            action_kind: RefineRewriteActionKind::UpdateExistingNode,
            target_relative_path: Some("api.md".to_owned()),
            parent_relative_path: None,
            node_kind: Some("leaf".to_owned()),
            link_change: None,
            replacement_markdown: None,
            rationale: None,
        }],
    );
    let follow_up = RefineDecision {
        source_comments: vec![RefineCommentSource {
            source_path: "api.md".to_owned(),
            begin_comment_line: 9,
            end_comment_line: 11,
            comment_text: Some("later".to_owned()),
        }],
        ..confirmed_decision(Vec::new(), Vec::new())
    };

    let result = apply_refine_rewrite(
        RefineRewriteRequest {
            plan_id: "plan-1".to_owned(),
            plan_root: PLAN_ROOT.to_owned(),
            decisions: vec![applied],
            rewrite_scope: RefineRewriteScope {
                rewrite_targets: vec![RefineRewriteTarget {
                    relative_path: "api.md".to_owned(),
                    node_id: Some("leaf-1".to_owned()),
                    action_kind: RefineRewriteActionKind::UpdateExistingNode,
                }],
                ..Default::default()
            },
            blocked_follow_ups: vec![follow_up],
        },
        &mut files,
    )
    .expect("rewrite should preserve deferred comments");

    let updated = files.read("api.md").unwrap();
    assert!(!updated.contains("apply this"));
    assert!(updated.contains("BEGIN_COMMENT\nlater\nEND_COMMENT"));
    assert_eq!(updated.matches("BEGIN_COMMENT").count(), 1);
    assert_eq!(result.unresolved_follow_ups.len(), 1);
}

#[test]
fn refine_non_text_rewrites_remove_processed_comment_blocks() {
    let mut files = plan_files();
    load(&mut files, "api/api.md", "# API\n\nBEGIN_COMMENT\nremove old child\nEND_COMMENT\n\n## Child Nodes\n\n- [Remove](./remove.md)\n");
    load(&mut files, "api/remove.md", "# Remove\n");
    load(&mut files, "api/stale.md", "# Stale\n\nBEGIN_COMMENT\nstale this node\nEND_COMMENT\n");

    apply_refine_rewrite(
        RefineRewriteRequest {
            plan_id: "plan-1".to_owned(),
            plan_root: PLAN_ROOT.to_owned(),
            decisions: vec![confirmed_decision(Vec::new(), Vec::new())],
            rewrite_scope: RefineRewriteScope {
                stale_descendants: vec![RefineStaleDescendant {
                    relative_path: "api/stale.md".to_owned(),
                    node_id: Some("stale-1".to_owned()),
                    reason: "parent changed".to_owned(),
                }],
                link_changes: vec![RefineLinkChange {
                    parent_relative_path: "api/api.md".to_owned(),
                    add_child_relative_paths: Vec::new(),
                    remove_child_relative_paths: vec!["api/remove.md".to_owned()],
                }],
                ..Default::default()
            },
            blocked_follow_ups: Vec::new(),
        },
        &mut files,
    )
    .expect("link-only and stale-only rewrite should pass");

    let parent_markdown = files.read("api/api.md").unwrap();
    assert!(!parent_markdown.contains("BEGIN_COMMENT"));
    assert!(!parent_markdown.contains("remove old child"));
    assert!(!parent_markdown.contains("remove.md"));

    let stale_markdown = files.read("api/stale.md").unwrap();
    assert!(stale_markdown.starts_with("<!-- loopy-refine-status: stale -->"));
    assert!(!stale_markdown.contains("BEGIN_COMMENT"));
    assert!(!stale_markdown.contains("stale this node"));
}

#[test]
fn refine_side_effect_decisions_remove_processed_source_comment_blocks() {
    let mut files = plan_files();
    load(&mut files, "source.md", "# Source\n\nBEGIN_COMMENT\ncreate the child elsewhere\nEND_COMMENT\n\nBody\n");

    let mut decision = confirmed_decision(
        Vec::new(),
        vec![RefineRewriteAction {
            action_kind: RefineRewriteActionKind::CreateNode,
            target_relative_path: Some("created.md".to_owned()),
            parent_relative_path: None,
            node_kind: Some("leaf".to_owned()),
            link_change: None,
            replacement_markdown: Some("# Created\n".to_owned()),
            rationale: None,
        }],
    );
    decision.source_comments = vec![RefineCommentSource {
        source_path: "source.md".to_owned(),
        begin_comment_line: 3,
        end_comment_line: 5,
        comment_text: Some("create the child elsewhere".to_owned()),
    }];

    apply_refine_rewrite(
        RefineRewriteRequest {
            plan_id: "plan-1".to_owned(),
            plan_root: PLAN_ROOT.to_owned(),
            decisions: vec![decision],
            rewrite_scope: RefineRewriteScope {
                node_creations: vec![RefineNodeCreation {
                    relative_path: "created.md".to_owned(),
                    parent_relative_path: None,
                    node_kind: Some("leaf".to_owned()),
                }],
                ..Default::default()
            },
            blocked_follow_ups: Vec::new(),
        },
        &mut files,
    )
    .expect("side-effect-only rewrite should pass");

    let source_markdown = files.read("source.md").unwrap();
    assert!(!source_markdown.contains("BEGIN_COMMENT"));
    assert!(!source_markdown.contains("create the child elsewhere"));
    assert_eq!(
        files.read("created.md").unwrap(),
        "# Created\n"
    );
}

#[test]
fn refine_prevalidates_link_updates_before_file_mutations() {
    let mut files = plan_files();
    load(&mut files, "stale.md", "# Stale\n");

    let error = apply_refine_rewrite(
        RefineRewriteRequest {
            plan_id: "plan-1".to_owned(),
            plan_root: PLAN_ROOT.to_owned(),
            decisions: vec![confirmed_decision(Vec::new(), Vec::new())],
            rewrite_scope: RefineRewriteScope {
                stale_descendants: vec![RefineStaleDescendant {
                    relative_path: "stale.md".to_owned(),
                    node_id: Some("stale-1".to_owned()),
                    reason: "parent changed".to_owned(),
                }],
                link_changes: vec![RefineLinkChange {
                    parent_relative_path: "api/api.md".to_owned(),
                    add_child_relative_paths: vec!["api/child.md".to_owned()],
                    remove_child_relative_paths: vec!["api/child.md".to_owned()],
                }],
                ..Default::default()
            },
            blocked_follow_ups: Vec::new(),
        },
        &mut files,
    )
    .expect_err("invalid link update should fail before stale mutation");

    assert_eq!(error, RefineRewriteError::InvalidRewriteScope);
    assert_eq!(
        files.read("stale.md").unwrap(),
        "# Stale\n"
    );
}

#[test]
fn refine_replacement_markdown_is_sanitized_before_write() {
    let mut files = plan_files();
    load(&mut files, "api.md", "# API\n");

    apply_refine_rewrite(
        RefineRewriteRequest {
            plan_id: "plan-1".to_owned(),
            plan_root: PLAN_ROOT.to_owned(),
            decisions: vec![confirmed_decision(
                Vec::new(),
                vec![RefineRewriteAction {
                    action_kind: RefineRewriteActionKind::UpdateExistingNode,
                    target_relative_path: Some("api.md".to_owned()),
                    parent_relative_path: None,
                    node_kind: Some("leaf".to_owned()),
                    link_change: None,
                    replacement_markdown: Some(
                        "# API\n\nBEGIN_COMMENT\nprocessed feedback\nEND_COMMENT\n\nUpdated\n"
                            .to_owned(),
                    ),
                    rationale: None,
                }],
            )],
            rewrite_scope: RefineRewriteScope {
                rewrite_targets: vec![RefineRewriteTarget {
                    relative_path: "api.md".to_owned(),
                    node_id: Some("leaf-1".to_owned()),
                    action_kind: RefineRewriteActionKind::UpdateExistingNode,
                }],
                ..Default::default()
            },
            blocked_follow_ups: Vec::new(),
        },
        &mut files,
    )
    .expect("replacement rewrite should pass");

    let updated = files.read("api.md").unwrap();
    assert!(!updated.contains("BEGIN_COMMENT"));
    assert!(!updated.contains("processed feedback"));
    assert!(updated.contains("Updated\n"));
}

#[test]
fn refine_rewrite_uses_later_explicit_replacement_for_duplicate_target_actions() {
    let mut files = plan_files();
    load(&mut files, "api.md", "# API\n\nOriginal\n");

    apply_refine_rewrite(
        RefineRewriteRequest {
            plan_id: "plan-1".to_owned(),
            plan_root: PLAN_ROOT.to_owned(),
            decisions: vec![
                confirmed_decision(
                    Vec::new(),
                    vec![RefineRewriteAction {
                        action_kind: RefineRewriteActionKind::UpdateExistingNode,
                        target_relative_path: Some("api.md".to_owned()),
                        parent_relative_path: None,
                        node_kind: Some("leaf".to_owned()),
                        link_change: None,
                        replacement_markdown: None,
                        rationale: Some("first comment only marks the path".to_owned()),
                    }],
                ),
                confirmed_decision(
                    Vec::new(),
                    vec![RefineRewriteAction {
                        action_kind: RefineRewriteActionKind::UpdateExistingNode,
                        target_relative_path: Some("api.md".to_owned()),
                        parent_relative_path: None,
                        node_kind: Some("leaf".to_owned()),
                        link_change: None,
                        replacement_markdown: Some("# API\n\nSecond replacement\n".to_owned()),
                        rationale: Some("later comment provides the merged rewrite".to_owned()),
                    }],
                ),
            ],
            rewrite_scope: RefineRewriteScope {
                rewrite_targets: vec![RefineRewriteTarget {
                    relative_path: "api.md".to_owned(),
                    node_id: Some("leaf-1".to_owned()),
                    action_kind: RefineRewriteActionKind::UpdateExistingNode,
                }],
                ..Default::default()
            },
            blocked_follow_ups: Vec::new(),
        },
        &mut files,
    )
    .expect("duplicate target rewrite should pass");

    assert_eq!(
        files.read("api.md").unwrap(),
        "# API\n\nSecond replacement\n"
    );
}

#[test]
fn refine_stale_nodes_are_marked_not_deleted() {
    let mut files = plan_files();
    load(&mut files, "stale.md", "<!-- loopy-refine-status: active -->\n<!-- loopy-refine-stale-reason: old -->\n# Stale Leaf\n\nBody stays byte-for-byte.\n");
    load(&mut files, "removed.md", "# Removed\n");

    let result = apply_refine_rewrite(
        RefineRewriteRequest {
            plan_id: "plan-1".to_owned(),
            plan_root: PLAN_ROOT.to_owned(),
            decisions: vec![confirmed_decision(Vec::new(), Vec::new())],
            rewrite_scope: RefineRewriteScope {
                stale_descendants: vec![
                    RefineStaleDescendant {
                        relative_path: "stale.md".to_owned(),
                        node_id: Some("stale-1".to_owned()),
                        reason: "superseded by parent".to_owned(),
                    },
                    RefineStaleDescendant {
                        relative_path: "stale.md".to_owned(),
                        node_id: Some("stale-1".to_owned()),
                        reason: "final reason with --> marker\nand newline".to_owned(),
                    },
                ],
                node_removals: vec![RefineNodeRemoval {
                    relative_path: "removed.md".to_owned(),
                    parent_relative_path: None,
                    node_id: Some("removed-1".to_owned()),
                    explicit: true,
                }],
                ..Default::default()
            },
            blocked_follow_ups: Vec::new(),
        },
        &mut files,
    )
    .expect("stale marking should pass");

    let stale_markdown = files.read("stale.md").unwrap();
    assert!(files.is_file("stale.md"));
    assert!(!files.is_present("removed.md"));
    assert!(stale_markdown.starts_with(
        "<!-- loopy-refine-status: stale -->\n<!-- loopy-refine-stale-reason: final reason with -- > marker and newline -->\n# Stale Leaf\n"
    ));
    assert_eq!(stale_markdown.matches("loopy-refine-status").count(), 1);
    assert_eq!(
        stale_markdown.matches("loopy-refine-stale-reason").count(),
        1
    );
    assert!(stale_markdown.contains("# Stale Leaf\n\nBody stays byte-for-byte.\n"));
    assert_eq!(
        result
            .changed_files
            .iter()
            .filter(|file| file.change_kind == RefineChangedFileKind::StaleMarked)
            .count(),
        1
    );
    assert!(result.changed_files.iter().any(|file| {
        file.relative_path == "removed.md"
            && file.change_kind == RefineChangedFileKind::ExplicitlyRemoved
    }));
    assert_eq!(
        result.stale_nodes,
        vec![RefineStaleNode {
            relative_path: "stale.md".to_owned(),
            node_id: Some("stale-1".to_owned()),
            reason: "final reason with -- > marker and newline".to_owned(),
        }]
    );
    assert_eq!(
        result.summary.stale_node_summary_entries,
        vec![
            RefineStaleNodeSummaryEntry {
                relative_path: "removed.md".to_owned(),
                node_id: Some("removed-1".to_owned()),
                summary_kind: RefineStaleNodeSummaryKind::ExplicitlyRemoved,
                reason: None,
            },
            RefineStaleNodeSummaryEntry {
                relative_path: "stale.md".to_owned(),
                node_id: Some("stale-1".to_owned()),
                summary_kind: RefineStaleNodeSummaryKind::StaleMarked,
                reason: Some("final reason with -- > marker and newline".to_owned()),
            },
        ]
    );
}

#[test]
fn refine_link_updates_own_child_nodes_sections() {
    let mut files = plan_files();
    load(&mut files, "api/api.md", "# API\n\nIntro stays.\n\n## Child Nodes\n\n- [Keep](./keep.md)\n- [Remove](./remove.md)\n\n## Notes\n\nDo not edit.\n");
    load(&mut files, "api/keep.md", "# Keep\n");
    load(&mut files, "api/remove.md", "# Remove\n");
    load(&mut files, "api/add.md", "# Add\n");
    load(&mut files, "api/child/child.md", "# Child\n");

    let decision = confirmed_decision(
        vec![RefineAffectedTrackedNode {
            node_id: "parent-1".to_owned(),
            relative_path: Some("api/api.md".to_owned()),
        }],
        vec![
            RefineRewriteAction {
                action_kind: RefineRewriteActionKind::CreateNode,
                target_relative_path: Some("new/new.md".to_owned()),
                parent_relative_path: None,
                node_kind: Some("parent".to_owned()),
                link_change: None,
                replacement_markdown: Some("# New Parent\n\n## Child Nodes\n\n".to_owned()),
                rationale: None,
            },
            RefineRewriteAction {
                action_kind: RefineRewriteActionKind::CreateNode,
                target_relative_path: Some("new/child/child.md".to_owned()),
                parent_relative_path: Some("new/new.md".to_owned()),
                node_kind: Some("leaf".to_owned()),
                link_change: None,
                replacement_markdown: Some("# New Child\n".to_owned()),
                rationale: None,
            },
        ],
    );

    let result = apply_refine_rewrite(
        RefineRewriteRequest {
            plan_id: "plan-1".to_owned(),
            plan_root: PLAN_ROOT.to_owned(),
            decisions: vec![decision],
            rewrite_scope: RefineRewriteScope {
                node_creations: vec![
                    RefineNodeCreation {
                        relative_path: "new/new.md".to_owned(),
                        parent_relative_path: None,
                        node_kind: Some("parent".to_owned()),
                    },
                    RefineNodeCreation {
                        relative_path: "new/child/child.md".to_owned(),
                        parent_relative_path: Some("new/new.md".to_owned()),
                        node_kind: Some("leaf".to_owned()),
                    },
                ],
                link_changes: vec![
                    RefineLinkChange {
                        parent_relative_path: "api/api.md".to_owned(),
                        add_child_relative_paths: vec![
                            "api/add.md".to_owned(),
                            "api/add.md".to_owned(),
                        ],
                        remove_child_relative_paths: vec![
                            "api/remove.md".to_owned(),
                            "api/missing-removed.md".to_owned(),
                        ],
                    },
                    RefineLinkChange {
                        parent_relative_path: "api/api.md".to_owned(),
                        add_child_relative_paths: vec!["api/child/child.md".to_owned()],
                        remove_child_relative_paths: vec!["api/remove.md".to_owned()],
                    },
                    RefineLinkChange {
                        parent_relative_path: "new/new.md".to_owned(),
                        add_child_relative_paths: vec!["new/child/child.md".to_owned()],
                        remove_child_relative_paths: Vec::new(),
                    },
                ],
                ..Default::default()
            },
            blocked_follow_ups: Vec::new(),
        },
        &mut files,
    )
    .expect("link updates should pass");

    let api_markdown = files.read("api/api.md").unwrap();
    assert!(api_markdown.contains("Intro stays."));
    assert!(api_markdown.contains("## Notes\n\nDo not edit."));
    assert!(api_markdown.contains("- [Keep](./keep.md)"));
    assert!(api_markdown.contains("- [Add](./add.md)"));
    assert!(api_markdown.contains("- [Child](./child/child.md)"));
    assert!(!api_markdown.contains("remove.md"));

    let new_parent_markdown = files.read("new/new.md").unwrap();
    assert!(new_parent_markdown.contains("## Child Nodes\n\n- [New Child](./child/child.md)"));

    assert!(result.changed_files.iter().any(|file| {
        file.relative_path == "api/api.md"
            && file.change_kind == RefineChangedFileKind::TextUpdated
    }));
    assert!(!result.changed_files.iter().any(|file| {
        file.relative_path == "new/new.md"
            && file.change_kind == RefineChangedFileKind::TextUpdated
    }));
    assert_eq!(
        result
            .structural_changes
            .iter()
            .filter(|change| change.parent_relative_path == "api/api.md")
            .map(|change| &change.change_kind)
            .collect::<Vec<_>>(),
        vec![
            &RefineStructuralChangeKind::ChangedChildSet,
            &RefineStructuralChangeKind::ParentContractChanged,
        ]
    );
    let api_change = result
        .structural_changes
        .iter()
        .find(|change| {
            change.parent_relative_path == "api/api.md"
                && change.change_kind == RefineStructuralChangeKind::ChangedChildSet
        })
        .unwrap();
    assert_eq!(api_change.parent_node_id.as_deref(), Some("parent-1"));
    assert_eq!(
        api_change.added_child_relative_paths,
        vec!["api/add.md", "api/child/child.md"]
    );
    assert_eq!(
        api_change.removed_child_relative_paths,
        vec!["api/remove.md"]
    );

    let conflict_error = apply_refine_rewrite(
        RefineRewriteRequest {
            plan_id: "plan-1".to_owned(),
            plan_root: PLAN_ROOT.to_owned(),
            decisions: vec![confirmed_decision(Vec::new(), Vec::new())],
            rewrite_scope: RefineRewriteScope {
                link_changes: vec![RefineLinkChange {
                    parent_relative_path: "api/api.md".to_owned(),
                    add_child_relative_paths: vec!["api/add.md".to_owned()],
                    remove_child_relative_paths: vec!["api/add.md".to_owned()],
                }],
                ..Default::default()
            },
            blocked_follow_ups: Vec::new(),
        },
        &mut files,
    )
    .expect_err("same child add/remove should fail");
    assert_eq!(conflict_error, RefineRewriteError::InvalidRewriteScope);

    let missing_add_error = apply_refine_rewrite(
        RefineRewriteRequest {
            plan_id: "plan-1".to_owned(),
            plan_root: PLAN_ROOT.to_owned(),
            decisions: vec![confirmed_decision(Vec::new(), Vec::new())],
            rewrite_scope: RefineRewriteScope {
                link_changes: vec![RefineLinkChange {
                    parent_relative_path: "api/api.md".to_owned(),
                    add_child_relative_paths: vec!["api/does-not-exist.md".to_owned()],
                    remove_child_relative_paths: Vec::new(),
                }],
                ..Default::default()
            },
            blocked_follow_ups: Vec::new(),
        },
        &mut files,
    )
    .expect_err("missing add target should fail during link update");
    assert_eq!(missing_add_error, RefineRewriteError::InvalidRewriteScope);
}

#[test]
fn refine_rewrite_summary_is_populated_from_result_buckets() {
    let mut files = plan_files();
    let follow_up = confirmed_decision(Vec::new(), Vec::new());
    let request = RefineRewriteRequest {
        plan_id: "plan-1".to_owned(),
        plan_root: PLAN_ROOT.to_owned(),
        decisions: vec![
            confirmed_decision(Vec::new(), Vec::new()).with_expected_gates(
                ExpectedGateRevalidation {
                    leaf_targets: vec!["leaf.md".to_owned()],
                    frontier_targets: vec!["parent/parent.md".to_owned()],
                    reasons: vec!["changed".to_owned()],
                },
            ),
        ],
        rewrite_scope: RefineRewriteScope::default(),
        blocked_follow_ups: vec![follow_up],
    };
    let reports = MutationReports {
        changed_files: vec![
            RefineChangedFile {
                relative_path: "leaf.md".to_owned(),
                node_id: Some("leaf-1".to_owned()),
                change_kind: RefineChangedFileKind::TextUpdated,
            },
            RefineChangedFile {
                relative_path: "created.md".to_owned(),
                node_id: None,
                change_kind: RefineChangedFileKind::Created,
            },
            RefineChangedFile {
                relative_path: "removed.md".to_owned(),
                node_id: Some("removed-1".to_owned()),
                change_kind: RefineChangedFileKind::ExplicitlyRemoved,
            },
            RefineChangedFile {
                relative_path: "stale.md".to_owned(),
                node_id: Some("stale-1".to_owned()),
                change_kind: RefineChangedFileKind::StaleMarked,
            },
        ],
        structural_changes: vec![RefineStructuralChange {
            parent_relative_path: "parent/parent.md".to_owned(),
            parent_node_id: Some("parent-1".to_owned()),
            change_kind: RefineStructuralChangeKind::ParentContractChanged,
            added_child_relative_paths: vec!["leaf.md".to_owned()],
            removed_child_relative_paths: Vec::new(),
        }],
        stale_nodes: vec![RefineStaleNode {
            relative_path: "stale.md".to_owned(),
            node_id: Some("stale-1".to_owned()),
            reason: "invalidated".to_owned(),
        }],
        context_invalidations: Vec::new(),
        unchanged_nodes: Vec::new(),
    };

    let result = assemble_refine_rewrite_result(&request, reports).unwrap();

    assert_eq!(result.summary.changed_files, result.changed_files);
    assert_eq!(result.summary.structural_changes, result.structural_changes);
    assert_eq!(
        result.summary.stale_node_summary_entries,
        vec![
            RefineStaleNodeSummaryEntry {
                relative_path: "created.md".to_owned(),
                node_id: None,
                summary_kind: RefineStaleNodeSummaryKind::Created,
                reason: None,
            },
            RefineStaleNodeSummaryEntry {
                relative_path: "removed.md".to_owned(),
                node_id: Some("removed-1".to_owned()),
                summary_kind: RefineStaleNodeSummaryKind::ExplicitlyRemoved,
                reason: None,
            },
            RefineStaleNodeSummaryEntry {
                relative_path: "stale.md".to_owned(),
                node_id: Some("stale-1".to_owned()),
                summary_kind: RefineStaleNodeSummaryKind::StaleMarked,
                reason: Some("invalidated".to_owned()),
            },
        ]
    );
    assert_eq!(
        result.summary.expected_gate_targets,
        result.expected_gate_targets
    );
    assert_eq!(
        result.summary.unresolved_follow_ups,
        result.unresolved_follow_ups
    );
    assert_eq!(result.summary.changed_file_count, 4);
    assert_eq!(result.summary.stale_node_count, 3);
    assert_eq!(result.summary.expected_leaf_gate_target_count, 1);
    assert_eq!(result.summary.expected_frontier_gate_target_count, 1);

    let empty = assemble_refine_rewrite_result(
        &RefineRewriteRequest {
            plan_id: "plan-1".to_owned(),
            plan_root: PLAN_ROOT.to_owned(),
            decisions: Vec::new(),
            rewrite_scope: RefineRewriteScope::default(),
            blocked_follow_ups: Vec::new(),
        },
        MutationReports::default(),
    )
    .unwrap();
    assert!(empty.summary.changed_files.is_empty());
    assert!(empty.summary.structural_changes.is_empty());
    assert!(empty.summary.stale_node_summary_entries.is_empty());
    assert!(empty.summary.expected_gate_targets.is_empty());
    assert!(empty.summary.unresolved_follow_ups.is_empty());
}

#[test]
fn a_file_in_the_way_of_a_new_node_is_reported() {
    let mut files = plan_files();
    load(&mut files, "api.md", "# API\n");
    let error = apply_refine_rewrite(
        RefineRewriteRequest {
            plan_id: "plan-1".to_owned(),
            plan_root: PLAN_ROOT.to_owned(),
            decisions: vec![confirmed_decision(Vec::new(), Vec::new())],
            rewrite_scope: RefineRewriteScope {
                node_creations: vec![RefineNodeCreation {
                    relative_path: "api.md/x.md".to_owned(),
                    parent_relative_path: None,
                    node_kind: Some("leaf".to_owned()),
                }],
                ..Default::default()
            },
            blocked_follow_ups: Vec::new(),
        },
        &mut files,
    )
    .unwrap_err();
    assert_eq!(
        error,
        RefineRewriteError::Io {
            path: format!("{PLAN_ROOT}/api.md"),
            source: "File exists (os error 17)".to_owned(),
        }
    );
    assert!(files.operations().is_empty());
}

#[test]
fn summary_entries_come_once() {
    let created = || RefineChangedFile {
        relative_path: "new.md".to_owned(),
        node_id: None,
        change_kind: RefineChangedFileKind::Created,
    };
    let stale = || RefineStaleNode {
        relative_path: "old.md".to_owned(),
        node_id: Some("old-1".to_owned()),
        reason: "parent changed".to_owned(),
    };
    let summary = build_refine_rewrite_summary(
        &vec![created(), created()],
        &Vec::new(),
        &vec![stale(), stale()],
        &Vec::new(),
        &Vec::new(),
        0,
        0,
    );
    assert_eq!(summary.changed_file_count, 2);
    assert_eq!(summary.stale_node_count, 2);
    assert_eq!(
        summary.stale_node_summary_entries,
        vec![
            RefineStaleNodeSummaryEntry {
                relative_path: "new.md".to_owned(),
                node_id: None,
                summary_kind: RefineStaleNodeSummaryKind::Created,
                reason: None,
            },
            RefineStaleNodeSummaryEntry {
                relative_path: "old.md".to_owned(),
                node_id: Some("old-1".to_owned()),
                summary_kind: RefineStaleNodeSummaryKind::StaleMarked,
                reason: Some("parent changed".to_owned()),
            },
        ]
    );
}

fn plan_files() -> PlanFiles {
    PlanFiles::new(PlanRootKind::Directory)
}

fn load(files: &mut PlanFiles, path: &str, text: &str) {
    files.load(
        path.to_owned(),
        FileContent::Text {
            text: text.to_owned(),
        },
    );
}

fn confirmed_decision(
    affected_nodes: Vec<RefineAffectedTrackedNode>,
    rewrite_actions: Vec<RefineRewriteAction>,
) -> RefineDecision {
    RefineDecision {
        source_comments: Vec::new(),
        affected_scope: RefineAffectedScope {
            affected_files: Vec::new(),
            affected_tracked_nodes: affected_nodes,
            affected_subtree_roots: Vec::new(),
            unresolved_mapping_note: None,
        },
        change_types: vec![],
        confirmation: RefineDecisionConfirmation {
            status: RefineDecisionStatus::ConfirmationCleared,
            rationale: "confirmed".to_owned(),
            question_for_user: None,
            decision_impact: None,
        },
        rewrite_actions,
        expected_gate_revalidation: Vec::new(),
    }
}

trait DecisionTestExt {
    fn with_expected_gates(self, gate: ExpectedGateRevalidation) -> Self;
}

impl DecisionTestExt for RefineDecision {
    fn with_expected_gates(mut self, gate: ExpectedGateRevalidation) -> Self {
        self.expected_gate_revalidation.push(gate);
        self
    }
}
