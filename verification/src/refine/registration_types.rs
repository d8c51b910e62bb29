//! What is asked and answered when the targets of gates are tracked.
use vstd::prelude::*;

verus! {

/// Why a gate runs again.
#[derive(Debug, Clone, Copy, PartialEq, Eq, Structural)]
pub enum RefineGateTargetReason {
    TextChanged,
    ContextInvalidated,
    NewLeaf,
    NewParent,
    RegeneratedLeaf,
    ChangedChildSet,
    ParentContractChanged,
    StaleDescendant,
}

impl DeepView for RefineGateTargetReason {
    type V = RefineGateTargetReason;

    open spec fn deep_view(&self) -> RefineGateTargetReason {
        *self
    }
}

/// A parent to be tracked.
#[derive(Debug, PartialEq, Eq)]
pub struct RefineParentRegistrationCandidate {
    pub relative_path: String,
    pub parent_relative_path: Option<String>,
    pub reasons: Vec<RefineGateTargetReason>,
}

/// The meaning of a [`RefineParentRegistrationCandidate`].
pub struct RefineParentRegistrationCandidateModel {
    pub relative_path: Seq<char>,
    pub parent_relative_path: Option<Seq<char>>,
    pub reasons: Seq<RefineGateTargetReason>,
}

impl DeepView for RefineParentRegistrationCandidate {
    type V = RefineParentRegistrationCandidateModel;

    open spec fn deep_view(&self) -> RefineParentRegistrationCandidateModel {
        RefineParentRegistrationCandidateModel {
            relative_path: self.relative_path@,
            parent_relative_path: self.parent_relative_path.deep_view(),
            reasons: self.reasons.deep_view(),
        }
    }
}

impl Clone for RefineParentRegistrationCandidate {
    fn clone(&self) -> (r: Self)
        ensures
            r.deep_view() == self.deep_view(),
    {
        let r: RefineParentRegistrationCandidate = RefineParentRegistrationCandidate {
            relative_path: self.relative_path.clone(),
            parent_relative_path: self.parent_relative_path.clone(),
            reasons: self.reasons.clone(),
        };
        assert(r.reasons.deep_view() =~= self.reasons.deep_view());
        r
    }
}

/// A leaf to be tracked.
#[derive(Debug, PartialEq, Eq)]
pub struct RefineLeafRegistrationCandidate {
    pub relative_path: String,
    pub parent_relative_path: Option<String>,
    pub reasons: Vec<RefineGateTargetReason>,
}

/// The meaning of a [`RefineLeafRegistrationCandidate`].
pub struct RefineLeafRegistrationCandidateModel {
    pub relative_path: Seq<char>,
    pub parent_relative_path: Option<Seq<char>>,
    pub reasons: Seq<RefineGateTargetReason>,
}

impl DeepView for RefineLeafRegistrationCandidate {
    type V = RefineLeafRegistrationCandidateModel;

    open spec fn deep_view(&self) -> RefineLeafRegistrationCandidateModel {
        RefineLeafRegistrationCandidateModel {
            relative_path: self.relative_path@,
            parent_relative_path: self.parent_relative_path.deep_view(),
            reasons: self.reasons.deep_view(),
        }
    }
}

impl Clone for RefineLeafRegistrationCandidate {
    fn clone(&self) -> (r: Self)
        ensures
            r.deep_view() == self.deep_view(),
    {
        let r: RefineLeafRegistrationCandidate = RefineLeafRegistrationCandidate {
            relative_path: self.relative_path.clone(),
            parent_relative_path: self.parent_relative_path.clone(),
            reasons: self.reasons.clone(),
        };
        assert(r.reasons.deep_view() =~= self.reasons.deep_view());
        r
    }
}

/// A parent whose children changed.
#[derive(Debug, PartialEq, Eq)]
pub struct RefineFrontierRegistrationCandidate {
    pub parent_relative_path: String,
    pub changed_child_relative_paths: Vec<String>,
    pub removed_child_relative_paths: Vec<String>,
    pub reasons: Vec<RefineGateTargetReason>,
}

/// The meaning of a [`RefineFrontierRegistrationCandidate`].
pub struct RefineFrontierRegistrationCandidateModel {
    pub parent_relative_path: Seq<char>,
    pub changed_child_relative_paths: Seq<Seq<char>>,
    pub removed_child_relative_paths: Seq<Seq<char>>,
    pub reasons: Seq<RefineGateTargetReason>,
}

impl DeepView for RefineFrontierRegistrationCandidate {
    type V = RefineFrontierRegistrationCandidateModel;

    open spec fn deep_view(&self) -> RefineFrontierRegistrationCandidateModel {
        RefineFrontierRegistrationCandidateModel {
            parent_relative_path: self.parent_relative_path@,
            changed_child_relative_paths: self.changed_child_relative_paths.deep_view(),
            removed_child_relative_paths: self.removed_child_relative_paths.deep_view(),
            reasons: self.reasons.deep_view(),
        }
    }
}

impl Clone for RefineFrontierRegistrationCandidate {
    fn clone(&self) -> (r: Self)
        ensures
            r.deep_view() == self.deep_view(),
    {
        let r: RefineFrontierRegistrationCandidate = RefineFrontierRegistrationCandidate {
            parent_relative_path: self.parent_relative_path.clone(),
            changed_child_relative_paths: self.changed_child_relative_paths.clone(),
            removed_child_relative_paths: self.removed_child_relative_paths.clone(),
            reasons: self.reasons.clone(),
        };
        assert(r.changed_child_relative_paths.deep_view() =~= self.changed_child_relative_paths.deep_view());
        assert(r.removed_child_relative_paths.deep_view() =~= self.removed_child_relative_paths.deep_view());
        assert(r.reasons.deep_view() =~= self.reasons.deep_view());
        r
    }
}

/// Asks that the targets of gates be tracked.
#[derive(Debug, PartialEq, Eq)]
pub struct RegisterRefineGateTargetsRequest {
    pub plan_id: String,
    pub parent_candidates: Vec<RefineParentRegistrationCandidate>,
    pub leaf_candidates: Vec<RefineLeafRegistrationCandidate>,
    pub frontier_candidates: Vec<RefineFrontierRegistrationCandidate>,
}

/// The meaning of a [`RegisterRefineGateTargetsRequest`].
pub struct RegisterRefineGateTargetsRequestModel {
    pub plan_id: Seq<char>,
    pub parent_candidates: Seq<RefineParentRegistrationCandidateModel>,
    pub leaf_candidates: Seq<RefineLeafRegistrationCandidateModel>,
    pub frontier_candidates: Seq<RefineFrontierRegistrationCandidateModel>,
}

impl DeepView for RegisterRefineGateTargetsRequest {
    type V = RegisterRefineGateTargetsRequestModel;

    open spec fn deep_view(&self) -> RegisterRefineGateTargetsRequestModel {
        RegisterRefineGateTargetsRequestModel {
            plan_id: self.plan_id@,
            parent_candidates: self.parent_candidates.deep_view(),
            leaf_candidates: self.leaf_candidates.deep_view(),
            frontier_candidates: self.frontier_candidates.deep_view(),
        }
    }
}

impl Clone for RegisterRefineGateTargetsRequest {
    fn clone(&self) -> (r: Self)
        ensures
            r.deep_view() == self.deep_view(),
    {
        let r: RegisterRefineGateTargetsRequest = RegisterRefineGateTargetsRequest {
            plan_id: self.plan_id.clone(),
            parent_candidates: self.parent_candidates.clone(),
            leaf_candidates: self.leaf_candidates.clone(),
            frontier_candidates: self.frontier_candidates.clone(),
        };
        assert(r.parent_candidates.deep_view() =~= self.parent_candidates.deep_view());
        assert(r.leaf_candidates.deep_view() =~= self.leaf_candidates.deep_view());
        assert(r.frontier_candidates.deep_view() =~= self.frontier_candidates.deep_view());
        r
    }
}

/// A tracked parent.
#[derive(Debug, PartialEq, Eq)]
pub struct RegisteredRefineParentTarget {
    pub node_id: String,
    pub relative_path: String,
    pub parent_relative_path: Option<String>,
    pub reasons: Vec<RefineGateTargetReason>,
}

/// The meaning of a [`RegisteredRefineParentTarget`].
pub struct RegisteredRefineParentTargetModel {
    pub node_id: Seq<char>,
    pub relative_path: Seq<char>,
    pub parent_relative_path: Option<Seq<char>>,
    pub reasons: Seq<RefineGateTargetReason>,
}

impl DeepView for RegisteredRefineParentTarget {
    type V = RegisteredRefineParentTargetModel;

    open spec fn deep_view(&self) -> RegisteredRefineParentTargetModel {
        RegisteredRefineParentTargetModel {
            node_id: self.node_id@,
            relative_path: self.relative_path@,
            parent_relative_path: self.parent_relative_path.deep_view(),
            reasons: self.reasons.deep_view(),
        }
    }
}

impl Clone for RegisteredRefineParentTarget {
    fn clone(&self) -> (r: Self)
        ensures
            r.deep_view() == self.deep_view(),
    {
        let r: RegisteredRefineParentTarget = RegisteredRefineParentTarget {
            node_id: self.node_id.clone(),
            relative_path: self.relative_path.clone(),
            parent_relative_path: self.parent_relative_path.clone(),
            reasons: self.reasons.clone(),
        };
        assert(r.reasons.deep_view() =~= self.reasons.deep_view());
        r
    }
}

/// A tracked leaf.
#[derive(Debug, PartialEq, Eq)]
pub struct RegisteredRefineLeafTarget {
    pub node_id: String,
    pub relative_path: String,
    pub parent_relative_path: Option<String>,
    pub reasons: Vec<RefineGateTargetReason>,
}

/// The meaning of a [`RegisteredRefineLeafTarget`].
pub struct RegisteredRefineLeafTargetModel {
    pub node_id: Seq<char>,
    pub relative_path: Seq<char>,
    pub parent_relative_path: Option<Seq<char>>,
    pub reasons: Seq<RefineGateTargetReason>,
}

impl DeepView for RegisteredRefineLeafTarget {
    type V = RegisteredRefineLeafTargetModel;

    open spec fn deep_view(&self) -> RegisteredRefineLeafTargetModel {
        RegisteredRefineLeafTargetModel {
            node_id: self.node_id@,
            relative_path: self.relative_path@,
            parent_relative_path: self.parent_relative_path.deep_view(),
            reasons: self.reasons.deep_view(),
        }
    }
}

impl Clone for RegisteredRefineLeafTarget {
    fn clone(&self) -> (r: Self)
        ensures
            r.deep_view() == self.deep_view(),
    {
        let r: RegisteredRefineLeafTarget = RegisteredRefineLeafTarget {
            node_id: self.node_id.clone(),
            relative_path: self.relative_path.clone(),
            parent_relative_path: self.parent_relative_path.clone(),
            reasons: self.reasons.clone(),
        };
        assert(r.reasons.deep_view() =~= self.reasons.deep_view());
        r
    }
}

/// A tracked parent whose children changed.
#[derive(Debug, PartialEq, Eq)]
pub struct RegisteredRefineFrontierTarget {
    pub parent_node_id: String,
    pub parent_relative_path: String,
    pub changed_child_relative_paths: Vec<String>,
    pub reasons: Vec<RefineGateTargetReason>,
}

/// The meaning of a [`RegisteredRefineFrontierTarget`].
pub struct RegisteredRefineFrontierTargetModel {
    pub parent_node_id: Seq<char>,
    pub parent_relative_path: Seq<char>,
    pub changed_child_relative_paths: Seq<Seq<char>>,
    pub reasons: Seq<RefineGateTargetReason>,
}

impl DeepView for RegisteredRefineFrontierTarget {
    type V = RegisteredRefineFrontierTargetModel;

    open spec fn deep_view(&self) -> RegisteredRefineFrontierTargetModel {
        RegisteredRefineFrontierTargetModel {
            parent_node_id: self.parent_node_id@,
            parent_relative_path: self.parent_relative_path@,
            changed_child_relative_paths: self.changed_child_relative_paths.deep_view(),
            reasons: self.reasons.deep_view(),
        }
    }
}

impl Clone for RegisteredRefineFrontierTarget {
    fn clone(&self) -> (r: Self)
        ensures
            r.deep_view() == self.deep_view(),
    {
        let r: RegisteredRefineFrontierTarget = RegisteredRefineFrontierTarget {
            parent_node_id: self.parent_node_id.clone(),
            parent_relative_path: self.parent_relative_path.clone(),
            changed_child_relative_paths: self.changed_child_relative_paths.clone(),
            reasons: self.reasons.clone(),
        };
        assert(r.changed_child_relative_paths.deep_view() =~= self.changed_child_relative_paths.deep_view());
        assert(r.reasons.deep_view() =~= self.reasons.deep_view());
        r
    }
}

/// The tracked targets of gates.
#[derive(Debug, PartialEq, Eq)]
pub struct RegisteredRefineGateTargets {
    pub parent_targets: Vec<RegisteredRefineParentTarget>,
    pub leaf_targets: Vec<RegisteredRefineLeafTarget>,
    pub frontier_targets: Vec<RegisteredRefineFrontierTarget>,
}

/// The meaning of a [`RegisteredRefineGateTargets`].
pub struct RegisteredRefineGateTargetsModel {
    pub parent_targets: Seq<RegisteredRefineParentTargetModel>,
    pub leaf_targets: Seq<RegisteredRefineLeafTargetModel>,
    pub frontier_targets: Seq<RegisteredRefineFrontierTargetModel>,
}

impl DeepView for RegisteredRefineGateTargets {
    type V = RegisteredRefineGateTargetsModel;

    open spec fn deep_view(&self) -> RegisteredRefineGateTargetsModel {
        RegisteredRefineGateTargetsModel {
            parent_targets: self.parent_targets.deep_view(),
            leaf_targets: self.leaf_targets.deep_view(),
            frontier_targets: self.frontier_targets.deep_view(),
        }
    }
}

impl Clone for RegisteredRefineGateTargets {
    fn clone(&self) -> (r: Self)
        ensures
            r.deep_view() == self.deep_view(),
    {
        let r: RegisteredRefineGateTargets = RegisteredRefineGateTargets {
            parent_targets: self.parent_targets.clone(),
            leaf_targets: self.leaf_targets.clone(),
            frontier_targets: self.frontier_targets.clone(),
        };
        assert(r.parent_targets.deep_view() =~= self.parent_targets.deep_view());
        assert(r.leaf_targets.deep_view() =~= self.leaf_targets.deep_view());
        assert(r.frontier_targets.deep_view() =~= self.frontier_targets.deep_view());
        r
    }
}

impl RegisteredRefineGateTargetsModel {
    /// Nothing in any of the lists.
    pub open spec fn empty() -> RegisteredRefineGateTargetsModel {
        RegisteredRefineGateTargetsModel {
            parent_targets: Seq::empty(),
            leaf_targets: Seq::empty(),
            frontier_targets: Seq::empty(),
        }
    }
}

impl Default for RegisteredRefineGateTargets {
    fn default() -> (r: Self)
        ensures
            r.deep_view() == RegisteredRefineGateTargetsModel::empty(),
    {
        let r: RegisteredRefineGateTargets = RegisteredRefineGateTargets {
            parent_targets: Vec::new(),
            leaf_targets: Vec::new(),
            frontier_targets: Vec::new(),
        };
        assert(r.parent_targets.deep_view() =~= Seq::empty());
        assert(r.leaf_targets.deep_view() =~= Seq::empty());
        assert(r.frontier_targets.deep_view() =~= Seq::empty());
        r
    }
}

/// Why the targets of gates cannot be tracked.
#[derive(Debug, PartialEq, Eq)]
pub enum RefineGatePreparationError {
    MissingParentRegistration { child_relative_path: String, parent_relative_path: String },
    InvalidCanonicalPath { field: String, relative_path: String },
    EmptySelectionReasons { candidate_kind: String, relative_path: String },
    IncoherentFrontierChildren { parent_relative_path: String, missing_child_relative_paths: Vec<String> },
    RegistrationFailed { relative_path: String, source: String },
}

/// The meaning of a [`RefineGatePreparationError`].
pub enum RefineGatePreparationErrorModel {
    MissingParentRegistration { child_relative_path: Seq<char>, parent_relative_path: Seq<char> },
    InvalidCanonicalPath { field: Seq<char>, relative_path: Seq<char> },
    EmptySelectionReasons { candidate_kind: Seq<char>, relative_path: Seq<char> },
    IncoherentFrontierChildren { parent_relative_path: Seq<char>, missing_child_relative_paths: Seq<Seq<char>> },
    RegistrationFailed { relative_path: Seq<char>, source: Seq<char> },
}

impl DeepView for RefineGatePreparationError {
    type V = RefineGatePreparationErrorModel;

    open spec fn deep_view(&self) -> RefineGatePreparationErrorModel {
        match self {
            RefineGatePreparationError::MissingParentRegistration { child_relative_path, parent_relative_path } => RefineGatePreparationErrorModel::MissingParentRegistration {
                child_relative_path: child_relative_path@,
                parent_relative_path: parent_relative_path@,
            },
            RefineGatePreparationError::InvalidCanonicalPath { field, relative_path } => RefineGatePreparationErrorModel::InvalidCanonicalPath {
                field: field@,
                relative_path: relative_path@,
            },
            RefineGatePreparationError::EmptySelectionReasons { candidate_kind, relative_path } => RefineGatePreparationErrorModel::EmptySelectionReasons {
                candidate_kind: candidate_kind@,
                relative_path: relative_path@,
            },
            RefineGatePreparationError::IncoherentFrontierChildren { parent_relative_path, missing_child_relative_paths } => RefineGatePreparationErrorModel::IncoherentFrontierChildren {
                parent_relative_path: parent_relative_path@,
                missing_child_relative_paths: missing_child_relative_paths.deep_view(),
            },
            RefineGatePreparationError::RegistrationFailed { relative_path, source } => RefineGatePreparationErrorModel::RegistrationFailed {
                relative_path: relative_path@,
                source: source@,
            },
        }
    }
}

impl Clone for RefineGatePreparationError {
    fn clone(&self) -> (r: Self)
        ensures
            r.deep_view() == self.deep_view(),
    {
        match self {
            RefineGatePreparationError::MissingParentRegistration { child_relative_path, parent_relative_path } => RefineGatePreparationError::MissingParentRegistration {
                child_relative_path: child_relative_path.clone(),
                parent_relative_path: parent_relative_path.clone(),
            },
            RefineGatePreparationError::InvalidCanonicalPath { field, relative_path } => RefineGatePreparationError::InvalidCanonicalPath {
                field: field.clone(),
                relative_path: relative_path.clone(),
            },
            RefineGatePreparationError::EmptySelectionReasons { candidate_kind, relative_path } => RefineGatePreparationError::EmptySelectionReasons {
                candidate_kind: candidate_kind.clone(),
                relative_path: relative_path.clone(),
            },
            RefineGatePreparationError::IncoherentFrontierChildren { parent_relative_path, missing_child_relative_paths } => {
                let missing_child_relative_paths_copy = missing_child_relative_paths.clone();
                assert(missing_child_relative_paths_copy.deep_view() =~= missing_child_relative_paths.deep_view());
                RefineGatePreparationError::IncoherentFrontierChildren {
                    parent_relative_path: parent_relative_path.clone(),
                    missing_child_relative_paths: missing_child_relative_paths_copy,
                }
            },
            RefineGatePreparationError::RegistrationFailed { relative_path, source } => RefineGatePreparationError::RegistrationFailed {
                relative_path: relative_path.clone(),
                source: source.clone(),
            },
        }
    }
}

} // verus!
