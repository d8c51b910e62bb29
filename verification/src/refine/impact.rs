//! What comments touch.
use super::decision::{
    RefineAffectedScope, RefineAffectedScopeModel, RefineCommentSource, RefineCommentSourceModel,
    RefineDecision, RefineDecisionChangeType, RefineDecisionConfirmation,
    RefineDecisionConfirmationModel, RefineDecisionModel, RefineDecisionStatus,
};
use crate::text::{ascii_lowered, concat2, contains_text, has_text, list_has, to_ascii_lower};
use vstd::prelude::*;

verus! {

/// Asks what some comments touch.
#[derive(Debug, PartialEq, Eq)]
pub struct RefineImpactAnalysisRequest {
    pub plan_id: String,
    pub comments: Vec<RefineCommentSource>,
    pub known_node_paths: Vec<String>,
}

/// The meaning of a [`RefineImpactAnalysisRequest`].
pub struct RefineImpactAnalysisRequestModel {
    pub plan_id: Seq<char>,
    pub comments: Seq<RefineCommentSourceModel>,
    pub known_node_paths: Seq<Seq<char>>,
}

impl DeepView for RefineImpactAnalysisRequest {
    type V = RefineImpactAnalysisRequestModel;

    open spec fn deep_view(&self) -> RefineImpactAnalysisRequestModel {
        RefineImpactAnalysisRequestModel {
            plan_id: self.plan_id@,
            comments: self.comments.deep_view(),
            known_node_paths: self.known_node_paths.deep_view(),
        }
    }
}

impl Clone for RefineImpactAnalysisRequest {
    fn clone(&self) -> (r: Self)
        ensures
            r.deep_view() == self.deep_view(),
    {
        let r: RefineImpactAnalysisRequest = RefineImpactAnalysisRequest {
            plan_id: self.plan_id.clone(),
            comments: self.comments.clone(),
            known_node_paths: self.known_node_paths.clone(),
        };
        assert(r.comments.deep_view() =~= self.comments.deep_view());
        assert(r.known_node_paths.deep_view() =~= self.known_node_paths.deep_view());
        r
    }
}

/// What a comment is about.
#[derive(Debug, Clone, Copy, PartialEq, Eq, Structural)]
pub enum RefineImpactCategory {
    NodeContentChange,
    ParentContractChange,
    ChildSetChange,
    NewNodeRequest,
    NodeRemovalRequest,
    AmbiguousMapping,
    UserOwnedDecision,
}

impl DeepView for RefineImpactCategory {
    type V = RefineImpactCategory;

    open spec fn deep_view(&self) -> RefineImpactCategory {
        *self
    }
}

/// A comment whose target is not clear.
#[derive(Debug, PartialEq, Eq)]
pub struct RefineImpactMappingIssue {
    pub source_path: String,
    pub category: RefineImpactCategory,
    pub message: String,
}

/// The meaning of a [`RefineImpactMappingIssue`].
pub struct RefineImpactMappingIssueModel {
    pub source_path: Seq<char>,
    pub category: RefineImpactCategory,
    pub message: Seq<char>,
}

impl DeepView for RefineImpactMappingIssue {
    type V = RefineImpactMappingIssueModel;

    open spec fn deep_view(&self) -> RefineImpactMappingIssueModel {
        RefineImpactMappingIssueModel {
            source_path: self.source_path@,
            category: self.category,
            message: self.message@,
        }
    }
}

impl Clone for RefineImpactMappingIssue {
    fn clone(&self) -> (r: Self)
        ensures
            r.deep_view() == self.deep_view(),
    {
        RefineImpactMappingIssue {
            source_path: self.source_path.clone(),
            category: self.category,
            message: self.message.clone(),
        }
    }
}

/// What some comments touch.
#[derive(Debug, PartialEq, Eq)]
pub struct RefineImpactAnalysis {
    pub decisions: Vec<RefineDecision>,
    pub mapping_issues: Vec<RefineImpactMappingIssue>,
}

/// The meaning of a [`RefineImpactAnalysis`].
pub struct RefineImpactAnalysisModel {
    pub decisions: Seq<RefineDecisionModel>,
    pub mapping_issues: Seq<RefineImpactMappingIssueModel>,
}

impl DeepView for RefineImpactAnalysis {
    type V = RefineImpactAnalysisModel;

    open spec fn deep_view(&self) -> RefineImpactAnalysisModel {
        RefineImpactAnalysisModel {
            decisions: self.decisions.deep_view(),
            mapping_issues: self.mapping_issues.deep_view(),
        }
    }
}

impl Clone for RefineImpactAnalysis {
    fn clone(&self) -> (r: Self)
        ensures
            r.deep_view() == self.deep_view(),
    {
        let r: RefineImpactAnalysis = RefineImpactAnalysis {
            decisions: self.decisions.clone(),
            mapping_issues: self.mapping_issues.clone(),
        };
        assert(r.decisions.deep_view() =~= self.decisions.deep_view());
        assert(r.mapping_issues.deep_view() =~= self.mapping_issues.deep_view());
        r
    }
}

/// What a comment is about, going by the words that it holds.
pub open spec fn category_of(comment: RefineCommentSourceModel) -> RefineImpactCategory {
    let text = ascii_lowered(
        match comment.comment_text {
            Some(text) => text,
            None => Seq::empty(),
        },
    );
    if has_text(text, "new node"@) || has_text(text, "add node"@) {
        RefineImpactCategory::NewNodeRequest
    } else if has_text(text, "remove node"@) || has_text(text, "delete node"@) {
        RefineImpactCategory::NodeRemovalRequest
    } else if has_text(text, "child"@) || has_text(text, "link"@) {
        RefineImpactCategory::ChildSetChange
    } else if has_text(text, "parent"@) || has_text(text, "contract"@) {
        RefineImpactCategory::ParentContractChange
    } else if has_text(text, "ask user"@) || has_text(text, "user decides"@) {
        RefineImpactCategory::UserOwnedDecision
    } else {
        RefineImpactCategory::NodeContentChange
    }
}

impl RefineImpactCategory {
    /// The kind of change that a comment of this category asks for.
    pub open spec fn change_type(self) -> RefineDecisionChangeType {
        match self {
            RefineImpactCategory::NodeContentChange => RefineDecisionChangeType::InPlaceTextUpdate,
            RefineImpactCategory::ParentContractChange =>
                RefineDecisionChangeType::ParentContractChange,
            RefineImpactCategory::ChildSetChange => RefineDecisionChangeType::LinkChange,
            RefineImpactCategory::NewNodeRequest => RefineDecisionChangeType::NodeCreation,
            RefineImpactCategory::NodeRemovalRequest => RefineDecisionChangeType::NodeRemoval,
            RefineImpactCategory::AmbiguousMapping => RefineDecisionChangeType::ContextInvalidation,
            RefineImpactCategory::UserOwnedDecision =>
                RefineDecisionChangeType::ContextInvalidation,
        }
    }

    /// The name of the category.
    pub open spec fn name(self) -> Seq<char> {
        match self {
            RefineImpactCategory::NodeContentChange => "NodeContentChange"@,
            RefineImpactCategory::ParentContractChange => "ParentContractChange"@,
            RefineImpactCategory::ChildSetChange => "ChildSetChange"@,
            RefineImpactCategory::NewNodeRequest => "NewNodeRequest"@,
            RefineImpactCategory::NodeRemovalRequest => "NodeRemovalRequest"@,
            RefineImpactCategory::AmbiguousMapping => "AmbiguousMapping"@,
            RefineImpactCategory::UserOwnedDecision => "UserOwnedDecision"@,
        }
    }

    /// The name of the category.
    pub fn as_str(self) -> (r: &'static str)
        ensures
            r@ == self.name(),
    {
        match self {
            RefineImpactCategory::NodeContentChange => "NodeContentChange",
            RefineImpactCategory::ParentContractChange => "ParentContractChange",
            RefineImpactCategory::ChildSetChange => "ChildSetChange",
            RefineImpactCategory::NewNodeRequest => "NewNodeRequest",
            RefineImpactCategory::NodeRemovalRequest => "NodeRemovalRequest",
            RefineImpactCategory::AmbiguousMapping => "AmbiguousMapping",
            RefineImpactCategory::UserOwnedDecision => "UserOwnedDecision",
        }
    }
}

/// The decision about a comment, which waits where its file is not known.
pub open spec fn decision_for(comment: RefineCommentSourceModel, known: bool) -> RefineDecisionModel {
    RefineDecisionModel {
        source_comments: seq![comment],
        affected_scope: RefineAffectedScopeModel {
            affected_files: seq![comment.source_path],
            affected_tracked_nodes: Seq::empty(),
            affected_subtree_roots: Seq::empty(),
            unresolved_mapping_note: if known {
                None
            } else {
                Some("source comment path has no tracked node match"@)
            },
        },
        change_types: seq![category_of(comment).change_type()],
        confirmation: RefineDecisionConfirmationModel {
            status: if known {
                RefineDecisionStatus::AutoContinuationCandidate
            } else {
                RefineDecisionStatus::AwaitingManualConfirmation
            },
            rationale: "mapped natural-language comment to "@ + category_of(comment).name(),
            question_for_user: if known {
                None
            } else {
                Some("Which tracked plan node should this refine comment modify?"@)
            },
            decision_impact: if known {
                None
            } else {
                Some("Rewrite scope and gate targets cannot be selected safely."@)
            },
        },
        rewrite_actions: Seq::empty(),
        expected_gate_revalidation: Seq::empty(),
    }
}

/// The issues of the comments from `i` on whose file is not known, after
/// those in `acc`.
pub open spec fn mapping_issues_from(
    request: RefineImpactAnalysisRequestModel,
    i: int,
    acc: Seq<RefineImpactMappingIssueModel>,
) -> Seq<RefineImpactMappingIssueModel>
    decreases request.comments.len() - i,
{
    if i >= request.comments.len() {
        acc
    } else if request.known_node_paths.contains(request.comments[i].source_path) {
        mapping_issues_from(request, i + 1, acc)
    } else {
        mapping_issues_from(
            request,
            i + 1,
            acc.push(
                RefineImpactMappingIssueModel {
                    source_path: request.comments[i].source_path,
                    category: RefineImpactCategory::AmbiguousMapping,
                    message:
                        "comment source path is not present in the known tracked node paths"@,
                },
            ),
        )
    }
}

/// What the comments touch: one decision for each, and an issue for each whose
/// file is not known.
pub open spec fn impact_of(request: RefineImpactAnalysisRequestModel) -> RefineImpactAnalysisModel {
    RefineImpactAnalysisModel {
        decisions: Seq::new(
            request.comments.len(),
            |i: int|
                decision_for(
                    request.comments[i],
                    request.known_node_paths.contains(request.comments[i].source_path),
                ),
        ),
        mapping_issues: mapping_issues_from(request, 0, Seq::empty()),
    }
}

fn classify_comment(comment: &RefineCommentSource) -> (r: RefineImpactCategory)
    ensures
        r == category_of(comment.deep_view()),
{
    let text: String = match &comment.comment_text {
        Some(text) => to_ascii_lower(text.as_str()),
        None => {
            let empty: String = String::new();
            assert(empty@ =~= Seq::empty());
            to_ascii_lower(empty.as_str())
        },
    };
    let text: &str = text.as_str();
    if contains_text(text, "new node") || contains_text(text, "add node") {
        RefineImpactCategory::NewNodeRequest
    } else if contains_text(text, "remove node") || contains_text(text, "delete node") {
        RefineImpactCategory::NodeRemovalRequest
    } else if contains_text(text, "child") || contains_text(text, "link") {
        RefineImpactCategory::ChildSetChange
    } else if contains_text(text, "parent") || contains_text(text, "contract") {
        RefineImpactCategory::ParentContractChange
    } else if contains_text(text, "ask user") || contains_text(text, "user decides") {
        RefineImpactCategory::UserOwnedDecision
    } else {
        RefineImpactCategory::NodeContentChange
    }
}

fn change_type_for_category(category: RefineImpactCategory) -> (r: RefineDecisionChangeType)
    ensures
        r == category.change_type(),
{
    match category {
        RefineImpactCategory::NodeContentChange => RefineDecisionChangeType::InPlaceTextUpdate,
        RefineImpactCategory::ParentContractChange =>
            RefineDecisionChangeType::ParentContractChange,
        RefineImpactCategory::ChildSetChange => RefineDecisionChangeType::LinkChange,
        RefineImpactCategory::NewNodeRequest => RefineDecisionChangeType::NodeCreation,
        RefineImpactCategory::NodeRemovalRequest => RefineDecisionChangeType::NodeRemoval,
        RefineImpactCategory::AmbiguousMapping => RefineDecisionChangeType::ContextInvalidation,
        RefineImpactCategory::UserOwnedDecision => RefineDecisionChangeType::ContextInvalidation,
    }
}

fn decide(comment: &RefineCommentSource, known: bool) -> (r: RefineDecision)
    ensures
        r.deep_view() == decision_for(comment.deep_view(), known),
{
    let category: RefineImpactCategory = classify_comment(comment);
    let mut source_comments: Vec<RefineCommentSource> = Vec::new();
    source_comments.push(comment.clone());
    assert(source_comments.deep_view() =~= seq![comment.deep_view()]);
    let mut affected_files: Vec<String> = Vec::new();
    affected_files.push(comment.source_path.clone());
    assert(affected_files.deep_view() =~= seq![comment.source_path@]);
    let mut change_types: Vec<RefineDecisionChangeType> = Vec::new();
    change_types.push(change_type_for_category(category));
    assert(change_types.deep_view() =~= seq![category.change_type()]);
    let r: RefineDecision = RefineDecision {
        source_comments,
        affected_scope: RefineAffectedScope {
            affected_files,
            affected_tracked_nodes: Vec::new(),
            affected_subtree_roots: Vec::new(),
            unresolved_mapping_note: if known {
                None
            } else {
                Some("source comment path has no tracked node match".to_owned())
            },
        },
        change_types,
        confirmation: RefineDecisionConfirmation {
            status: if known {
                RefineDecisionStatus::AutoContinuationCandidate
            } else {
                RefineDecisionStatus::AwaitingManualConfirmation
            },
            rationale: concat2("mapped natural-language comment to ", category.as_str()),
            question_for_user: if known {
                None
            } else {
                Some("Which tracked plan node should this refine comment modify?".to_owned())
            },
            decision_impact: if known {
                None
            } else {
                Some("Rewrite scope and gate targets cannot be selected safely.".to_owned())
            },
        },
        rewrite_actions: Vec::new(),
        expected_gate_revalidation: Vec::new(),
    };
    assert(r.affected_scope.affected_tracked_nodes.deep_view() =~= Seq::empty());
    assert(r.affected_scope.affected_subtree_roots.deep_view() =~= Seq::empty());
    assert(r.rewrite_actions.deep_view() =~= Seq::empty());
    assert(r.expected_gate_revalidation.deep_view() =~= Seq::empty());
    r
}

/// What the comments touch.
pub fn analyze_refine_comment_impact(request: RefineImpactAnalysisRequest) -> (r:
    RefineImpactAnalysis)
    ensures
        r.deep_view() == impact_of(request.deep_view()),
{
    let ghost model = request.deep_view();
    let ghost expected = impact_of(model);
    let mut decisions: Vec<RefineDecision> = Vec::new();
    let mut mapping_issues: Vec<RefineImpactMappingIssue> = Vec::new();
    let mut i: usize = 0;
    assert(decisions.deep_view() =~= expected.decisions.take(0));
    assert(mapping_issues.deep_view() =~= Seq::empty());
    while i < request.comments.len()
        invariant
            i <= request.comments.len(),
            model == request.deep_view(),
            expected == impact_of(model),
            decisions.deep_view() == expected.decisions.take(i as int),
            expected.mapping_issues == mapping_issues_from(
                model,
                i as int,
                mapping_issues.deep_view(),
            ),
        decreases request.comments.len() - i,
    {
        let comment: &RefineCommentSource = &request.comments[i];
        assert(model.comments[i as int] == comment.deep_view());
        let known: bool = list_has(&request.known_node_paths, comment.source_path.as_str());
        if !known {
            let ghost before = mapping_issues.deep_view();
            let issue: RefineImpactMappingIssue = RefineImpactMappingIssue {
                source_path: comment.source_path.clone(),
                category: RefineImpactCategory::AmbiguousMapping,
                message: "comment source path is not present in the known tracked node paths".to_owned(),
            };
            let ghost entry = issue.deep_view();
            mapping_issues.push(issue);
            assert(mapping_issues.deep_view() =~= before.push(entry));
        }
        let ghost before = decisions.deep_view();
        let decision: RefineDecision = decide(comment, known);
        let ghost entry = decision.deep_view();
        assert(expected.decisions[i as int] == entry);
        decisions.push(decision);
        assert(decisions.deep_view() =~= before.push(entry));
        i = i + 1;
        assert(decisions.deep_view() =~= expected.decisions.take(i as int));
    }
    assert(decisions.deep_view() =~= expected.decisions);
    RefineImpactAnalysis { decisions, mapping_issues }
}

} // verus!
