//! Decisions about the comments of a plan.
use vstd::prelude::*;

verus! {

/// The comment that a decision answers.
#[derive(Debug, PartialEq, Eq)]
pub struct RefineCommentSource {
    pub source_path: String,
    pub begin_comment_line: usize,
    pub end_comment_line: usize,
    pub comment_text: Option<String>,
}

/// The meaning of a [`RefineCommentSource`].
pub struct RefineCommentSourceModel {
    pub source_path: Seq<char>,
    pub begin_comment_line: usize,
    pub end_comment_line: usize,
    pub comment_text: Option<Seq<char>>,
}

impl DeepView for RefineCommentSource {
    type V = RefineCommentSourceModel;

    open spec fn deep_view(&self) -> RefineCommentSourceModel {
        RefineCommentSourceModel {
            source_path: self.source_path@,
            begin_comment_line: self.begin_comment_line,
            end_comment_line: self.end_comment_line,
            comment_text: self.comment_text.deep_view(),
        }
    }
}

impl Clone for RefineCommentSource {
    fn clone(&self) -> (r: Self)
        ensures
            r.deep_view() == self.deep_view(),
    {
        RefineCommentSource {
            source_path: self.source_path.clone(),
            begin_comment_line: self.begin_comment_line,
            end_comment_line: self.end_comment_line,
            comment_text: self.comment_text.clone(),
        }
    }
}

/// A tracked node that a decision touches.
#[derive(Debug, PartialEq, Eq)]
pub struct RefineAffectedTrackedNode {
    pub node_id: String,
    pub relative_path: Option<String>,
}

/// The meaning of a [`RefineAffectedTrackedNode`].
pub struct RefineAffectedTrackedNodeModel {
    pub node_id: Seq<char>,
    pub relative_path: Option<Seq<char>>,
}

impl DeepView for RefineAffectedTrackedNode {
    type V = RefineAffectedTrackedNodeModel;

    open spec fn deep_view(&self) -> RefineAffectedTrackedNodeModel {
        RefineAffectedTrackedNodeModel {
            node_id: self.node_id@,
            relative_path: self.relative_path.deep_view(),
        }
    }
}

impl Clone for RefineAffectedTrackedNode {
    fn clone(&self) -> (r: Self)
        ensures
            r.deep_view() == self.deep_view(),
    {
        RefineAffectedTrackedNode {
            node_id: self.node_id.clone(),
            relative_path: self.relative_path.clone(),
        }
    }
}

/// What a decision touches.
#[derive(Debug, PartialEq, Eq)]
pub struct RefineAffectedScope {
    pub affected_files: Vec<String>,
    pub affected_tracked_nodes: Vec<RefineAffectedTrackedNode>,
    pub affected_subtree_roots: Vec<String>,
    pub unresolved_mapping_note: Option<String>,
}

/// The meaning of a [`RefineAffectedScope`].
pub struct RefineAffectedScopeModel {
    pub affected_files: Seq<Seq<char>>,
    pub affected_tracked_nodes: Seq<RefineAffectedTrackedNodeModel>,
    pub affected_subtree_roots: Seq<Seq<char>>,
    pub unresolved_mapping_note: Option<Seq<char>>,
}

impl DeepView for RefineAffectedScope {
    type V = RefineAffectedScopeModel;

    open spec fn deep_view(&self) -> RefineAffectedScopeModel {
        RefineAffectedScopeModel {
            affected_files: self.affected_files.deep_view(),
            affected_tracked_nodes: self.affected_tracked_nodes.deep_view(),
            affected_subtree_roots: self.affected_subtree_roots.deep_view(),
            unresolved_mapping_note: self.unresolved_mapping_note.deep_view(),
        }
    }
}

impl Clone for RefineAffectedScope {
    fn clone(&self) -> (r: Self)
        ensures
            r.deep_view() == self.deep_view(),
    {
        let r: RefineAffectedScope = RefineAffectedScope {
            affected_files: self.affected_files.clone(),
            affected_tracked_nodes: self.affected_tracked_nodes.clone(),
            affected_subtree_roots: self.affected_subtree_roots.clone(),
            unresolved_mapping_note: self.unresolved_mapping_note.clone(),
        };
        assert(r.affected_files.deep_view() =~= self.affected_files.deep_view());
        assert(r.affected_tracked_nodes.deep_view() =~= self.affected_tracked_nodes.deep_view());
        assert(r.affected_subtree_roots.deep_view() =~= self.affected_subtree_roots.deep_view());
        r
    }
}

impl RefineAffectedScopeModel {
    /// Nothing in any of the lists.
    pub open spec fn empty() -> RefineAffectedScopeModel {
        RefineAffectedScopeModel {
            affected_files: Seq::empty(),
            affected_tracked_nodes: Seq::empty(),
            affected_subtree_roots: Seq::empty(),
            unresolved_mapping_note: None,
        }
    }
}

impl Default for RefineAffectedScope {
    fn default() -> (r: Self)
        ensures
            r.deep_view() == RefineAffectedScopeModel::empty(),
    {
        let r: RefineAffectedScope = RefineAffectedScope {
            affected_files: Vec::new(),
            affected_tracked_nodes: Vec::new(),
            affected_subtree_roots: Vec::new(),
            unresolved_mapping_note: None,
        };
        assert(r.affected_files.deep_view() =~= Seq::empty());
        assert(r.affected_tracked_nodes.deep_view() =~= Seq::empty());
        assert(r.affected_subtree_roots.deep_view() =~= Seq::empty());
        r
    }
}

/// What kind of change a decision makes.
#[derive(Debug, Clone, Copy, PartialEq, Eq, Structural)]
pub enum RefineDecisionChangeType {
    InPlaceTextUpdate,
    NodeCreation,
    NodeRemoval,
    LinkChange,
    ParentContractChange,
    ContextInvalidation,
    StaleDescendant,
}

impl DeepView for RefineDecisionChangeType {
    type V = RefineDecisionChangeType;

    open spec fn deep_view(&self) -> RefineDecisionChangeType {
        *self
    }
}

/// How far a decision is cleared.
#[derive(Debug, Clone, Copy, PartialEq, Eq, Structural)]
pub enum RefineDecisionStatus {
    AwaitingManualConfirmation,
    AutoContinuationCandidate,
    UserDecisionBlocked,
    ConfirmationCleared,
}

impl DeepView for RefineDecisionStatus {
    type V = RefineDecisionStatus;

    open spec fn deep_view(&self) -> RefineDecisionStatus {
        *self
    }
}

/// Whether a decision is cleared, and why.
#[derive(Debug, PartialEq, Eq)]
pub struct RefineDecisionConfirmation {
    pub status: RefineDecisionStatus,
    pub rationale: String,
    pub question_for_user: Option<String>,
    pub decision_impact: Option<String>,
}

/// The meaning of a [`RefineDecisionConfirmation`].
pub struct RefineDecisionConfirmationModel {
    pub status: RefineDecisionStatus,
    pub rationale: Seq<char>,
    pub question_for_user: Option<Seq<char>>,
    pub decision_impact: Option<Seq<char>>,
}

impl DeepView for RefineDecisionConfirmation {
    type V = RefineDecisionConfirmationModel;

    open spec fn deep_view(&self) -> RefineDecisionConfirmationModel {
        RefineDecisionConfirmationModel {
            status: self.status,
            rationale: self.rationale@,
            question_for_user: self.question_for_user.deep_view(),
            decision_impact: self.decision_impact.deep_view(),
        }
    }
}

impl Clone for RefineDecisionConfirmation {
    fn clone(&self) -> (r: Self)
        ensures
            r.deep_view() == self.deep_view(),
    {
        RefineDecisionConfirmation {
            status: self.status,
            rationale: self.rationale.clone(),
            question_for_user: self.question_for_user.clone(),
            decision_impact: self.decision_impact.clone(),
        }
    }
}

/// What a rewrite does to a node.
#[derive(Debug, Clone, Copy, PartialEq, Eq, Structural)]
pub enum RefineRewriteActionKind {
    UpdateExistingNode,
    CreateNode,
    RemoveNode,
    MarkStale,
    UpdateLinks,
}

impl DeepView for RefineRewriteActionKind {
    type V = RefineRewriteActionKind;

    open spec fn deep_view(&self) -> RefineRewriteActionKind {
        *self
    }
}

/// What a rewrite does to a link.
#[derive(Debug, Clone, Copy, PartialEq, Eq, Structural)]
pub enum RefineRewriteLinkChangeKind {
    AddChildLink,
    RemoveChildLink,
}

impl DeepView for RefineRewriteLinkChangeKind {
    type V = RefineRewriteLinkChangeKind;

    open spec fn deep_view(&self) -> RefineRewriteLinkChangeKind {
        *self
    }
}

/// One step of a rewrite.
#[derive(Debug, PartialEq, Eq)]
pub struct RefineRewriteAction {
    pub action_kind: RefineRewriteActionKind,
    pub target_relative_path: Option<String>,
    pub parent_relative_path: Option<String>,
    pub node_kind: Option<String>,
    pub link_change: Option<RefineRewriteLinkChangeKind>,
    pub replacement_markdown: Option<String>,
    pub rationale: Option<String>,
}

/// The meaning of a [`RefineRewriteAction`].
pub struct RefineRewriteActionModel {
    pub action_kind: RefineRewriteActionKind,
    pub target_relative_path: Option<Seq<char>>,
    pub parent_relative_path: Option<Seq<char>>,
    pub node_kind: Option<Seq<char>>,
    pub link_change: Option<RefineRewriteLinkChangeKind>,
    pub replacement_markdown: Option<Seq<char>>,
    pub rationale: Option<Seq<char>>,
}

impl DeepView for RefineRewriteAction {
    type V = RefineRewriteActionModel;

    open spec fn deep_view(&self) -> RefineRewriteActionModel {
        RefineRewriteActionModel {
            action_kind: self.action_kind,
            target_relative_path: self.target_relative_path.deep_view(),
            parent_relative_path: self.parent_relative_path.deep_view(),
            node_kind: self.node_kind.deep_view(),
            link_change: self.link_change.deep_view(),
            replacement_markdown: self.replacement_markdown.deep_view(),
            rationale: self.rationale.deep_view(),
        }
    }
}

impl Clone for RefineRewriteAction {
    fn clone(&self) -> (r: Self)
        ensures
            r.deep_view() == self.deep_view(),
    {
        RefineRewriteAction {
            action_kind: self.action_kind,
            target_relative_path: self.target_relative_path.clone(),
            parent_relative_path: self.parent_relative_path.clone(),
            node_kind: self.node_kind.clone(),
            link_change: self.link_change.clone(),
            replacement_markdown: self.replacement_markdown.clone(),
            rationale: self.rationale.clone(),
        }
    }
}

/// The gates that a decision expects to run again.
#[derive(Debug, PartialEq, Eq)]
pub struct ExpectedGateRevalidation {
    pub leaf_targets: Vec<String>,
    pub frontier_targets: Vec<String>,
    pub reasons: Vec<String>,
}

/// The meaning of a [`ExpectedGateRevalidation`].
pub struct ExpectedGateRevalidationModel {
    pub leaf_targets: Seq<Seq<char>>,
    pub frontier_targets: Seq<Seq<char>>,
    pub reasons: Seq<Seq<char>>,
}

impl DeepView for ExpectedGateRevalidation {
    type V = ExpectedGateRevalidationModel;

    open spec fn deep_view(&self) -> ExpectedGateRevalidationModel {
        ExpectedGateRevalidationModel {
            leaf_targets: self.leaf_targets.deep_view(),
            frontier_targets: self.frontier_targets.deep_view(),
            reasons: self.reasons.deep_view(),
        }
    }
}

impl Clone for ExpectedGateRevalidation {
    fn clone(&self) -> (r: Self)
        ensures
            r.deep_view() == self.deep_view(),
    {
        let r: ExpectedGateRevalidation = ExpectedGateRevalidation {
            leaf_targets: self.leaf_targets.clone(),
            frontier_targets: self.frontier_targets.clone(),
            reasons: self.reasons.clone(),
        };
        assert(r.leaf_targets.deep_view() =~= self.leaf_targets.deep_view());
        assert(r.frontier_targets.deep_view() =~= self.frontier_targets.deep_view());
        assert(r.reasons.deep_view() =~= self.reasons.deep_view());
        r
    }
}

impl ExpectedGateRevalidationModel {
    /// Nothing in any of the lists.
    pub open spec fn empty() -> ExpectedGateRevalidationModel {
        ExpectedGateRevalidationModel {
            leaf_targets: Seq::empty(),
            frontier_targets: Seq::empty(),
            reasons: Seq::empty(),
        }
    }
}

impl Default for ExpectedGateRevalidation {
    fn default() -> (r: Self)
        ensures
            r.deep_view() == ExpectedGateRevalidationModel::empty(),
    {
        let r: ExpectedGateRevalidation = ExpectedGateRevalidation {
            leaf_targets: Vec::new(),
            frontier_targets: Vec::new(),
            reasons: Vec::new(),
        };
        assert(r.leaf_targets.deep_view() =~= Seq::empty());
        assert(r.frontier_targets.deep_view() =~= Seq::empty());
        assert(r.reasons.deep_view() =~= Seq::empty());
        r
    }
}

/// What is to be done about some comments.
#[derive(Debug, PartialEq, Eq)]
pub struct RefineDecision {
    pub source_comments: Vec<RefineCommentSource>,
    pub affected_scope: RefineAffectedScope,
    pub change_types: Vec<RefineDecisionChangeType>,
    pub confirmation: RefineDecisionConfirmation,
    pub rewrite_actions: Vec<RefineRewriteAction>,
    pub expected_gate_revalidation: Vec<ExpectedGateRevalidation>,
}

/// The meaning of a [`RefineDecision`].
pub struct RefineDecisionModel {
    pub source_comments: Seq<RefineCommentSourceModel>,
    pub affected_scope: RefineAffectedScopeModel,
    pub change_types: Seq<RefineDecisionChangeType>,
    pub confirmation: RefineDecisionConfirmationModel,
    pub rewrite_actions: Seq<RefineRewriteActionModel>,
    pub expected_gate_revalidation: Seq<ExpectedGateRevalidationModel>,
}

impl DeepView for RefineDecision {
    type V = RefineDecisionModel;

    open spec fn deep_view(&self) -> RefineDecisionModel {
        RefineDecisionModel {
            source_comments: self.source_comments.deep_view(),
            affected_scope: self.affected_scope.deep_view(),
            change_types: self.change_types.deep_view(),
            confirmation: self.confirmation.deep_view(),
            rewrite_actions: self.rewrite_actions.deep_view(),
            expected_gate_revalidation: self.expected_gate_revalidation.deep_view(),
        }
    }
}

impl Clone for RefineDecision {
    fn clone(&self) -> (r: Self)
        ensures
            r.deep_view() == self.deep_view(),
    {
        let r: RefineDecision = RefineDecision {
            source_comments: self.source_comments.clone(),
            affected_scope: self.affected_scope.clone(),
            change_types: self.change_types.clone(),
            confirmation: self.confirmation.clone(),
            rewrite_actions: self.rewrite_actions.clone(),
            expected_gate_revalidation: self.expected_gate_revalidation.clone(),
        };
        assert(r.source_comments.deep_view() =~= self.source_comments.deep_view());
        assert(r.change_types.deep_view() =~= self.change_types.deep_view());
        assert(r.rewrite_actions.deep_view() =~= self.rewrite_actions.deep_view());
        assert(r.expected_gate_revalidation.deep_view() =~= self.expected_gate_revalidation.deep_view());
        r
    }
}

} // verus!
