//! What a rewrite would touch.
use super::decision::{
    RefineDecision, RefineDecisionModel, RefineDecisionStatus, RefineRewriteAction,
    RefineRewriteActionKind, RefineRewriteActionModel,
};
use crate::error::outcome;
use crate::files::PlanRootKind;
use vstd::prelude::*;

verus! {

/// A node that is rewritten.
#[derive(Debug, PartialEq, Eq)]
pub struct RefineRewriteTarget {
    pub relative_path: String,
    pub node_id: Option<String>,
    pub action_kind: RefineRewriteActionKind,
}

/// The meaning of a [`RefineRewriteTarget`].
pub struct RefineRewriteTargetModel {
    pub relative_path: Seq<char>,
    pub node_id: Option<Seq<char>>,
    pub action_kind: RefineRewriteActionKind,
}

impl DeepView for RefineRewriteTarget {
    type V = RefineRewriteTargetModel;

    open spec fn deep_view(&self) -> RefineRewriteTargetModel {
        RefineRewriteTargetModel {
            relative_path: self.relative_path@,
            node_id: self.node_id.deep_view(),
            action_kind: self.action_kind,
        }
    }
}

impl Clone for RefineRewriteTarget {
    fn clone(&self) -> (r: Self)
        ensures
            r.deep_view() == self.deep_view(),
    {
        RefineRewriteTarget {
            relative_path: self.relative_path.clone(),
            node_id: self.node_id.clone(),
            action_kind: self.action_kind,
        }
    }
}

/// A node whose approval does not hold any more.
#[derive(Debug, PartialEq, Eq)]
pub struct RefineStaleDescendant {
    pub relative_path: String,
    pub node_id: Option<String>,
    pub reason: String,
}

/// The meaning of a [`RefineStaleDescendant`].
pub struct RefineStaleDescendantModel {
    pub relative_path: Seq<char>,
    pub node_id: Option<Seq<char>>,
    pub reason: Seq<char>,
}

impl DeepView for RefineStaleDescendant {
    type V = RefineStaleDescendantModel;

    open spec fn deep_view(&self) -> RefineStaleDescendantModel {
        RefineStaleDescendantModel {
            relative_path: self.relative_path@,
            node_id: self.node_id.deep_view(),
            reason: self.reason@,
        }
    }
}

impl Clone for RefineStaleDescendant {
    fn clone(&self) -> (r: Self)
        ensures
            r.deep_view() == self.deep_view(),
    {
        RefineStaleDescendant {
            relative_path: self.relative_path.clone(),
            node_id: self.node_id.clone(),
            reason: self.reason.clone(),
        }
    }
}

/// The children that a parent gains and loses.
#[derive(Debug, PartialEq, Eq)]
pub struct RefineLinkChange {
    pub parent_relative_path: String,
    pub add_child_relative_paths: Vec<String>,
    pub remove_child_relative_paths: Vec<String>,
}

/// The meaning of a [`RefineLinkChange`].
pub struct RefineLinkChangeModel {
    pub parent_relative_path: Seq<char>,
    pub add_child_relative_paths: Seq<Seq<char>>,
    pub remove_child_relative_paths: Seq<Seq<char>>,
}

impl DeepView for RefineLinkChange {
    type V = RefineLinkChangeModel;

    open spec fn deep_view(&self) -> RefineLinkChangeModel {
        RefineLinkChangeModel {
            parent_relative_path: self.parent_relative_path@,
            add_child_relative_paths: self.add_child_relative_paths.deep_view(),
            remove_child_relative_paths: self.remove_child_relative_paths.deep_view(),
        }
    }
}

impl Clone for RefineLinkChange {
    fn clone(&self) -> (r: Self)
        ensures
            r.deep_view() == self.deep_view(),
    {
        let r: RefineLinkChange = RefineLinkChange {
            parent_relative_path: self.parent_relative_path.clone(),
            add_child_relative_paths: self.add_child_relative_paths.clone(),
            remove_child_relative_paths: self.remove_child_relative_paths.clone(),
        };
        assert(r.add_child_relative_paths.deep_view() =~= self.add_child_relative_paths.deep_view());
        assert(r.remove_child_relative_paths.deep_view() =~= self.remove_child_relative_paths.deep_view());
        r
    }
}

/// A node that is made.
#[derive(Debug, PartialEq, Eq)]
pub struct RefineNodeCreation {
    pub relative_path: String,
    pub parent_relative_path: Option<String>,
    pub node_kind: Option<String>,
}

/// The meaning of a [`RefineNodeCreation`].
pub struct RefineNodeCreationModel {
    pub relative_path: Seq<char>,
    pub parent_relative_path: Option<Seq<char>>,
    pub node_kind: Option<Seq<char>>,
}

impl DeepView for RefineNodeCreation {
    type V = RefineNodeCreationModel;

    open spec fn deep_view(&self) -> RefineNodeCreationModel {
        RefineNodeCreationModel {
            relative_path: self.relative_path@,
            parent_relative_path: self.parent_relative_path.deep_view(),
            node_kind: self.node_kind.deep_view(),
        }
    }
}

impl Clone for RefineNodeCreation {
    fn clone(&self) -> (r: Self)
        ensures
            r.deep_view() == self.deep_view(),
    {
        RefineNodeCreation {
            relative_path: self.relative_path.clone(),
            parent_relative_path: self.parent_relative_path.clone(),
            node_kind: self.node_kind.clone(),
        }
    }
}

/// A node that is removed.
#[derive(Debug, PartialEq, Eq)]
pub struct RefineNodeRemoval {
    pub relative_path: String,
    pub parent_relative_path: Option<String>,
    pub node_id: Option<String>,
    pub explicit: bool,
}

/// The meaning of a [`RefineNodeRemoval`].
pub struct RefineNodeRemovalModel {
    pub relative_path: Seq<char>,
    pub parent_relative_path: Option<Seq<char>>,
    pub node_id: Option<Seq<char>>,
    pub explicit: bool,
}

impl DeepView for RefineNodeRemoval {
    type V = RefineNodeRemovalModel;

    open spec fn deep_view(&self) -> RefineNodeRemovalModel {
        RefineNodeRemovalModel {
            relative_path: self.relative_path@,
            parent_relative_path: self.parent_relative_path.deep_view(),
            node_id: self.node_id.deep_view(),
            explicit: self.explicit,
        }
    }
}

impl Clone for RefineNodeRemoval {
    fn clone(&self) -> (r: Self)
        ensures
            r.deep_view() == self.deep_view(),
    {
        RefineNodeRemoval {
            relative_path: self.relative_path.clone(),
            parent_relative_path: self.parent_relative_path.clone(),
            node_id: self.node_id.clone(),
            explicit: self.explicit,
        }
    }
}

/// The nodes that are made and removed.
#[derive(Debug, PartialEq, Eq)]
pub struct RefineNodeCreationRemovalPlan {
    pub node_creations: Vec<RefineNodeCreation>,
    pub node_removals: Vec<RefineNodeRemoval>,
}

/// The meaning of a [`RefineNodeCreationRemovalPlan`].
pub struct RefineNodeCreationRemovalPlanModel {
    pub node_creations: Seq<RefineNodeCreationModel>,
    pub node_removals: Seq<RefineNodeRemovalModel>,
}

impl DeepView for RefineNodeCreationRemovalPlan {
    type V = RefineNodeCreationRemovalPlanModel;

    open spec fn deep_view(&self) -> RefineNodeCreationRemovalPlanModel {
        RefineNodeCreationRemovalPlanModel {
            node_creations: self.node_creations.deep_view(),
            node_removals: self.node_removals.deep_view(),
        }
    }
}

impl Clone for RefineNodeCreationRemovalPlan {
    fn clone(&self) -> (r: Self)
        ensures
            r.deep_view() == self.deep_view(),
    {
        let r: RefineNodeCreationRemovalPlan = RefineNodeCreationRemovalPlan {
            node_creations: self.node_creations.clone(),
            node_removals: self.node_removals.clone(),
        };
        assert(r.node_creations.deep_view() =~= self.node_creations.deep_view());
        assert(r.node_removals.deep_view() =~= self.node_removals.deep_view());
        r
    }
}

impl RefineNodeCreationRemovalPlanModel {
    /// Nothing in any of the lists.
    pub open spec fn empty() -> RefineNodeCreationRemovalPlanModel {
        RefineNodeCreationRemovalPlanModel {
            node_creations: Seq::empty(),
            node_removals: Seq::empty(),
        }
    }
}

impl Default for RefineNodeCreationRemovalPlan {
    fn default() -> (r: Self)
        ensures
            r.deep_view() == RefineNodeCreationRemovalPlanModel::empty(),
    {
        let r: RefineNodeCreationRemovalPlan = RefineNodeCreationRemovalPlan {
            node_creations: Vec::new(),
            node_removals: Vec::new(),
        };
        assert(r.node_creations.deep_view() =~= Seq::empty());
        assert(r.node_removals.deep_view() =~= Seq::empty());
        r
    }
}

/// Two steps of a rewrite that do not go together.
#[derive(Debug, PartialEq, Eq)]
pub struct RefineRewriteScopeConflict {
    pub relative_path: Option<String>,
    pub reason: String,
}

/// The meaning of a [`RefineRewriteScopeConflict`].
pub struct RefineRewriteScopeConflictModel {
    pub relative_path: Option<Seq<char>>,
    pub reason: Seq<char>,
}

impl DeepView for RefineRewriteScopeConflict {
    type V = RefineRewriteScopeConflictModel;

    open spec fn deep_view(&self) -> RefineRewriteScopeConflictModel {
        RefineRewriteScopeConflictModel {
            relative_path: self.relative_path.deep_view(),
            reason: self.reason@,
        }
    }
}

impl Clone for RefineRewriteScopeConflict {
    fn clone(&self) -> (r: Self)
        ensures
            r.deep_view() == self.deep_view(),
    {
        RefineRewriteScopeConflict {
            relative_path: self.relative_path.clone(),
            reason: self.reason.clone(),
        }
    }
}

/// All that a rewrite touches.
#[derive(Debug, PartialEq, Eq)]
pub struct RefineRewriteScope {
    pub rewrite_targets: Vec<RefineRewriteTarget>,
    pub preserved_paths: Vec<String>,
    pub stale_descendants: Vec<RefineStaleDescendant>,
    pub link_changes: Vec<RefineLinkChange>,
    pub node_creations: Vec<RefineNodeCreation>,
    pub node_removals: Vec<RefineNodeRemoval>,
    pub conflicts: Vec<RefineRewriteScopeConflict>,
}

/// The meaning of a [`RefineRewriteScope`].
pub struct RefineRewriteScopeModel {
    pub rewrite_targets: Seq<RefineRewriteTargetModel>,
    pub preserved_paths: Seq<Seq<char>>,
    pub stale_descendants: Seq<RefineStaleDescendantModel>,
    pub link_changes: Seq<RefineLinkChangeModel>,
    pub node_creations: Seq<RefineNodeCreationModel>,
    pub node_removals: Seq<RefineNodeRemovalModel>,
    pub conflicts: Seq<RefineRewriteScopeConflictModel>,
}

impl DeepView for RefineRewriteScope {
    type V = RefineRewriteScopeModel;

    open spec fn deep_view(&self) -> RefineRewriteScopeModel {
        RefineRewriteScopeModel {
            rewrite_targets: self.rewrite_targets.deep_view(),
            preserved_paths: self.preserved_paths.deep_view(),
            stale_descendants: self.stale_descendants.deep_view(),
            link_changes: self.link_changes.deep_view(),
            node_creations: self.node_creations.deep_view(),
            node_removals: self.node_removals.deep_view(),
            conflicts: self.conflicts.deep_view(),
        }
    }
}

impl Clone for RefineRewriteScope {
    fn clone(&self) -> (r: Self)
        ensures
            r.deep_view() == self.deep_view(),
    {
        let r: RefineRewriteScope = RefineRewriteScope {
            rewrite_targets: self.rewrite_targets.clone(),
            preserved_paths: self.preserved_paths.clone(),
            stale_descendants: self.stale_descendants.clone(),
            link_changes: self.link_changes.clone(),
            node_creations: self.node_creations.clone(),
            node_removals: self.node_removals.clone(),
            conflicts: self.conflicts.clone(),
        };
        assert(r.rewrite_targets.deep_view() =~= self.rewrite_targets.deep_view());
        assert(r.preserved_paths.deep_view() =~= self.preserved_paths.deep_view());
        assert(r.stale_descendants.deep_view() =~= self.stale_descendants.deep_view());
        assert(r.link_changes.deep_view() =~= self.link_changes.deep_view());
        assert(r.node_creations.deep_view() =~= self.node_creations.deep_view());
        assert(r.node_removals.deep_view() =~= self.node_removals.deep_view());
        assert(r.conflicts.deep_view() =~= self.conflicts.deep_view());
        r
    }
}

impl RefineRewriteScopeModel {
    /// Nothing in any of the lists.
    pub open spec fn empty() -> RefineRewriteScopeModel {
        RefineRewriteScopeModel {
            rewrite_targets: Seq::empty(),
            preserved_paths: Seq::empty(),
            stale_descendants: Seq::empty(),
            link_changes: Seq::empty(),
            node_creations: Seq::empty(),
            node_removals: Seq::empty(),
            conflicts: Seq::empty(),
        }
    }
}

impl Default for RefineRewriteScope {
    fn default() -> (r: Self)
        ensures
            r.deep_view() == RefineRewriteScopeModel::empty(),
    {
        let r: RefineRewriteScope = RefineRewriteScope {
            rewrite_targets: Vec::new(),
            preserved_paths: Vec::new(),
            stale_descendants: Vec::new(),
            link_changes: Vec::new(),
            node_creations: Vec::new(),
            node_removals: Vec::new(),
            conflicts: Vec::new(),
        };
        assert(r.rewrite_targets.deep_view() =~= Seq::empty());
        assert(r.preserved_paths.deep_view() =~= Seq::empty());
        assert(r.stale_descendants.deep_view() =~= Seq::empty());
        assert(r.link_changes.deep_view() =~= Seq::empty());
        assert(r.node_creations.deep_view() =~= Seq::empty());
        assert(r.node_removals.deep_view() =~= Seq::empty());
        assert(r.conflicts.deep_view() =~= Seq::empty());
        r
    }
}

/// Asks what a rewrite would touch.
#[derive(Debug, PartialEq, Eq)]
pub struct RefineRewriteScopeRequest {
    pub plan_id: String,
    pub plan_root: String,
    pub decisions: Vec<RefineDecision>,
}

/// The meaning of a [`RefineRewriteScopeRequest`].
pub struct RefineRewriteScopeRequestModel {
    pub plan_id: Seq<char>,
    pub plan_root: Seq<char>,
    pub decisions: Seq<RefineDecisionModel>,
}

impl DeepView for RefineRewriteScopeRequest {
    type V = RefineRewriteScopeRequestModel;

    open spec fn deep_view(&self) -> RefineRewriteScopeRequestModel {
        RefineRewriteScopeRequestModel {
            plan_id: self.plan_id@,
            plan_root: self.plan_root@,
            decisions: self.decisions.deep_view(),
        }
    }
}

impl Clone for RefineRewriteScopeRequest {
    fn clone(&self) -> (r: Self)
        ensures
            r.deep_view() == self.deep_view(),
    {
        let r: RefineRewriteScopeRequest = RefineRewriteScopeRequest {
            plan_id: self.plan_id.clone(),
            plan_root: self.plan_root.clone(),
            decisions: self.decisions.clone(),
        };
        assert(r.decisions.deep_view() =~= self.decisions.deep_view());
        r
    }
}

/// Why a rewrite cannot be planned.
#[derive(Debug, Clone, Copy, PartialEq, Eq, Structural)]
pub enum RefineRewriteScopeError {
    MissingPlanRoot,
    UnconfirmedDecision,
    UnmappedImpact,
    ConflictingRewriteTargets,
    MissingLinkedNode,
    InvalidScope,
}

impl DeepView for RefineRewriteScopeError {
    type V = RefineRewriteScopeError;

    open spec fn deep_view(&self) -> RefineRewriteScopeError {
        *self
    }
}

/// A decision with this status is not cleared.
pub open spec fn is_unconfirmed(status: RefineDecisionStatus) -> bool {
    status == RefineDecisionStatus::AwaitingManualConfirmation || status
        == RefineDecisionStatus::UserDecisionBlocked
}

/// Tells whether a decision with this status is not cleared.
pub fn status_is_unconfirmed(status: RefineDecisionStatus) -> (r: bool)
    ensures
        r == is_unconfirmed(status),
{
    match status {
        RefineDecisionStatus::AwaitingManualConfirmation => true,
        RefineDecisionStatus::UserDecisionBlocked => true,
        RefineDecisionStatus::AutoContinuationCandidate => false,
        RefineDecisionStatus::ConfirmationCleared => false,
    }
}

impl RefineRewriteScopeModel {
    /// The scope with what an action touches.
    pub open spec fn with_action(self, action: RefineRewriteActionModel) -> Result<
        RefineRewriteScopeModel,
        RefineRewriteScopeError,
    > {
        match action.action_kind {
            RefineRewriteActionKind::UpdateExistingNode
            | RefineRewriteActionKind::MarkStale => match action.target_relative_path {
                None => Err(RefineRewriteScopeError::UnmappedImpact),
                Some(relative_path) => Ok(
                    RefineRewriteScopeModel {
                        rewrite_targets: self.rewrite_targets.push(
                            RefineRewriteTargetModel {
                                relative_path,
                                node_id: None,
                                action_kind: action.action_kind,
                            },
                        ),
                        ..self
                    },
                ),
            },
            RefineRewriteActionKind::CreateNode => match action.target_relative_path {
                None => Err(RefineRewriteScopeError::UnmappedImpact),
                Some(relative_path) => Ok(
                    RefineRewriteScopeModel {
                        node_creations: self.node_creations.push(
                            RefineNodeCreationModel {
                                relative_path,
                                parent_relative_path: action.parent_relative_path,
                                node_kind: action.node_kind,
                            },
                        ),
                        ..self
                    },
                ),
            },
            RefineRewriteActionKind::RemoveNode => match action.target_relative_path {
                None => Err(RefineRewriteScopeError::UnmappedImpact),
                Some(relative_path) => Ok(
                    RefineRewriteScopeModel {
                        node_removals: self.node_removals.push(
                            RefineNodeRemovalModel {
                                relative_path,
                                parent_relative_path: action.parent_relative_path,
                                node_id: None,
                                explicit: true,
                            },
                        ),
                        ..self
                    },
                ),
            },
            RefineRewriteActionKind::UpdateLinks => match action.parent_relative_path {
                None => Err(RefineRewriteScopeError::MissingLinkedNode),
                Some(parent_relative_path) => Ok(
                    RefineRewriteScopeModel {
                        link_changes: self.link_changes.push(
                            RefineLinkChangeModel {
                                parent_relative_path,
                                add_child_relative_paths: match action.target_relative_path {
                                    Some(target) => seq![target],
                                    None => Seq::empty(),
                                },
                                remove_child_relative_paths: Seq::empty(),
                            },
                        ),
                        ..self
                    },
                ),
            },
        }
    }

    /// The scope with what the actions from `i` on touch.
    pub open spec fn with_actions_from(self, actions: Seq<RefineRewriteActionModel>, i: int) -> Result<
        RefineRewriteScopeModel,
        RefineRewriteScopeError,
    >
        decreases actions.len() - i,
    {
        if i >= actions.len() {
            Ok(self)
        } else {
            match self.with_action(actions[i]) {
                Err(error) => Err(error),
                Ok(next) => next.with_actions_from(actions, i + 1),
            }
        }
    }

    /// The scope with what the decisions from `i` on touch, which must be
    /// cleared.
    pub open spec fn with_decisions_from(self, decisions: Seq<RefineDecisionModel>, i: int) -> Result<
        RefineRewriteScopeModel,
        RefineRewriteScopeError,
    >
        decreases decisions.len() - i,
    {
        if i >= decisions.len() {
            Ok(self)
        } else if is_unconfirmed(decisions[i].confirmation.status) {
            Err(RefineRewriteScopeError::UnconfirmedDecision)
        } else {
            match self.with_actions_from(decisions[i].rewrite_actions, 0) {
                Err(error) => Err(error),
                Ok(next) => next.with_decisions_from(decisions, i + 1),
            }
        }
    }
}

fn plan_action(scope: &mut RefineRewriteScope, action: &RefineRewriteAction) -> (r: Result<
    (),
    RefineRewriteScopeError,
>)
    ensures
        match old(scope).deep_view().with_action(action.deep_view()) {
            Ok(next) => r is Ok && final(scope).deep_view() == next,
            Err(error) => r == Err::<(), RefineRewriteScopeError>(error),
        },
{
    match action.action_kind {
        RefineRewriteActionKind::UpdateExistingNode | RefineRewriteActionKind::MarkStale => {
            match &action.target_relative_path {
                None => {
                    return Err(RefineRewriteScopeError::UnmappedImpact);
                },
                Some(path) => {
                    let ghost before = scope.rewrite_targets.deep_view();
                    let target: RefineRewriteTarget = RefineRewriteTarget {
                        relative_path: path.clone(),
                        node_id: None,
                        action_kind: action.action_kind,
                    };
                    let ghost model = target.deep_view();
                    scope.rewrite_targets.push(target);
                    assert(scope.rewrite_targets.deep_view() =~= before.push(model));
                },
            }
        },
        RefineRewriteActionKind::CreateNode => {
            match &action.target_relative_path {
                None => {
                    return Err(RefineRewriteScopeError::UnmappedImpact);
                },
                Some(path) => {
                    let ghost before = scope.node_creations.deep_view();
                    let creation: RefineNodeCreation = RefineNodeCreation {
                        relative_path: path.clone(),
                        parent_relative_path: action.parent_relative_path.clone(),
                        node_kind: action.node_kind.clone(),
                    };
                    let ghost model = creation.deep_view();
                    scope.node_creations.push(creation);
                    assert(scope.node_creations.deep_view() =~= before.push(model));
                },
            }
        },
        RefineRewriteActionKind::RemoveNode => {
            match &action.target_relative_path {
                None => {
                    return Err(RefineRewriteScopeError::UnmappedImpact);
                },
                Some(path) => {
                    let ghost before = scope.node_removals.deep_view();
                    let removal: RefineNodeRemoval = RefineNodeRemoval {
                        relative_path: path.clone(),
                        parent_relative_path: action.parent_relative_path.clone(),
                        node_id: None,
                        explicit: true,
                    };
                    let ghost model = removal.deep_view();
                    scope.node_removals.push(removal);
                    assert(scope.node_removals.deep_view() =~= before.push(model));
                },
            }
        },
        RefineRewriteActionKind::UpdateLinks => {
            match &action.parent_relative_path {
                None => {
                    return Err(RefineRewriteScopeError::MissingLinkedNode);
                },
                Some(parent) => {
                    let ghost before = scope.link_changes.deep_view();
                    let mut added: Vec<String> = Vec::new();
                    match &action.target_relative_path {
                        Some(target) => {
                            added.push(target.clone());
                            assert(added.deep_view() =~= seq![target@]);
                        },
                        None => {
                            assert(added.deep_view() =~= Seq::empty());
                        },
                    }
                    let change: RefineLinkChange = RefineLinkChange {
                        parent_relative_path: parent.clone(),
                        add_child_relative_paths: added,
                        remove_child_relative_paths: Vec::new(),
                    };
                    assert(change.remove_child_relative_paths.deep_view() =~= Seq::empty());
                    let ghost model = change.deep_view();
                    scope.link_changes.push(change);
                    assert(scope.link_changes.deep_view() =~= before.push(model));
                },
            }
        },
    }
    Ok(())
}

/// What the rewrite of some decisions would touch, given what stands at the
/// plan root.
pub fn plan_refine_rewrite_scope(request: RefineRewriteScopeRequest, plan_root: PlanRootKind) -> (r:
    Result<RefineRewriteScope, RefineRewriteScopeError>)
    ensures
        outcome(r) == (if plan_root != PlanRootKind::Directory {
            Err(RefineRewriteScopeError::MissingPlanRoot)
        } else {
            RefineRewriteScopeModel::empty().with_decisions_from(
                request.deep_view().decisions,
                0,
            )
        }),
{
    if plan_root != PlanRootKind::Directory {
        return Err(RefineRewriteScopeError::MissingPlanRoot);
    }
    let ghost first = RefineRewriteScopeModel::empty();
    let ghost all = request.decisions.deep_view();
    let mut scope: RefineRewriteScope = RefineRewriteScope::default();
    let mut i: usize = 0;
    while i < request.decisions.len()
        invariant
            i <= request.decisions.len(),
            plan_root == PlanRootKind::Directory,
            first == RefineRewriteScopeModel::empty(),
            all == request.deep_view().decisions,
            all == request.decisions.deep_view(),
            first.with_decisions_from(all, 0) == scope.deep_view().with_decisions_from(
                all,
                i as int,
            ),
        decreases request.decisions.len() - i,
    {
        let decision: &RefineDecision = &request.decisions[i];
        assert(all[i as int] == decision.deep_view());
        if status_is_unconfirmed(decision.confirmation.status) {
            return Err(RefineRewriteScopeError::UnconfirmedDecision);
        }
        let ghost actions = decision.rewrite_actions.deep_view();
        let ghost start = scope.deep_view();
        let mut k: usize = 0;
        while k < decision.rewrite_actions.len()
            invariant
                k <= decision.rewrite_actions.len(),
                i < request.decisions.len(),
                plan_root == PlanRootKind::Directory,
                first == RefineRewriteScopeModel::empty(),
                all == request.deep_view().decisions,
                all[i as int] == decision.deep_view(),
                !is_unconfirmed(decision.confirmation.status),
                actions == decision.rewrite_actions.deep_view(),
                first.with_decisions_from(all, 0) == start.with_decisions_from(all, i as int),
                start.with_actions_from(actions, 0) == scope.deep_view().with_actions_from(
                    actions,
                    k as int,
                ),
            decreases decision.rewrite_actions.len() - k,
        {
            assert(actions[k as int] == decision.rewrite_actions@[k as int].deep_view());
            plan_action(&mut scope, &decision.rewrite_actions[k])?;
            k = k + 1;
        }
        i = i + 1;
    }
    Ok(scope)
}

} // verus!
