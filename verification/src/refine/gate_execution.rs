//! Running the gates of a rewrite: what to run next, and what becomes of each
//! answer.
//!
//! The gates themselves are run elsewhere. One step takes the answer of the
//! last gate and says which gate to run next.
use super::execution_types::{
    RefineGateAttempt, RefineGateAttemptModel, RefineGateAttemptOutcome,
    RefineGateAttemptOutcomeModel, RefineGateExecutionError, RefineGateExecutionErrorModel,
    RefineGateExecutionReport, RefineGateExecutionReportModel, RefineGateExecutionStatus,
    RefineGateInvocationFailure, RefineGateInvocationFailureModel, RefineGateKind,
    RunRefineGateRevalidationRequest, RunRefineGateRevalidationRequestModel,
};
use super::gate_targets::{push_all_unique, with_all_unique};
use super::registration_types::{
    RegisteredRefineFrontierTarget, RegisteredRefineFrontierTargetModel, RegisteredRefineLeafTarget,
    RegisteredRefineLeafTargetModel, RegisteredRefineParentTarget,
};
use crate::api::{
    InspectNodeRequest, InspectNodeRequestModel, InspectNodeResponse, ListChildrenRequest,
    ListChildrenRequestModel, ListChildrenResponse, ListChildrenResponseModel, NodeKind,
    NodeSummary, NodeSummaryModel, ReviewIssue, ReviewIssueModel, RunFrontierReviewGateRequest,
    RunFrontierReviewGateRequestModel, RunFrontierReviewGateResponse,
    RunFrontierReviewGateResponseModel, RunLeafReviewGateRequest, RunLeafReviewGateRequestModel,
    RunLeafReviewGateResponse, RunLeafReviewGateResponseModel,
};
use crate::digest::{fingerprint, sha256_hex};
use crate::error::{outcome, PlanError, PlanErrorModel};
use crate::files::{PlanFiles, PlanFilesModel, PlanRootKind};
use crate::paths::{
    all_normal, components, components_are_normal, extension, is_absolute, path_components,
    path_extension, path_is_absolute,
};
use crate::runtime::child_links::{child_link_paths, parse_child_node_link_paths};
use crate::runtime::gates::{is_given, option_is_given};
use crate::runtime::store::{Runtime, RuntimeModel};
use crate::text::{
    bytes_of, concat2, concat3, concat5, copy_list, is_empty, is_text, list_has,
    same_optional_text, same_text,
};
use vstd::prelude::*;
use vstd::utf8::encode_utf8;

verus! {

/// What a rewrite did, as JSON.
#[derive(Debug, PartialEq, Eq)]
pub struct RewriteTexts {
    pub changed_files: String,
    pub structural_changes: String,
    pub context_invalidations: String,
    pub expected_gate_targets: String,
}

/// The meaning of a [`RewriteTexts`].
pub struct RewriteTextsModel {
    pub changed_files: Seq<char>,
    pub structural_changes: Seq<char>,
    pub context_invalidations: Seq<char>,
    pub expected_gate_targets: Seq<char>,
}

impl DeepView for RewriteTexts {
    type V = RewriteTextsModel;

    open spec fn deep_view(&self) -> RewriteTextsModel {
        RewriteTextsModel {
            changed_files: self.changed_files@,
            structural_changes: self.structural_changes@,
            context_invalidations: self.context_invalidations@,
            expected_gate_targets: self.expected_gate_targets@,
        }
    }
}

impl Clone for RewriteTexts {
    fn clone(&self) -> (r: Self)
        ensures
            r.deep_view() == self.deep_view(),
    {
        RewriteTexts {
            changed_files: self.changed_files.clone(),
            structural_changes: self.structural_changes.clone(),
            context_invalidations: self.context_invalidations.clone(),
            expected_gate_targets: self.expected_gate_targets.clone(),
        }
    }
}

/// What judges are told of a rewrite, as JSON.
#[derive(Debug, PartialEq, Eq)]
pub struct ContextTexts {
    pub processed_comment_blocks: String,
    pub stale_result_handoff: String,
    pub rewrite_result: Option<RewriteTexts>,
}

/// The meaning of a [`ContextTexts`].
pub struct ContextTextsModel {
    pub processed_comment_blocks: Seq<char>,
    pub stale_result_handoff: Seq<char>,
    pub rewrite_result: Option<RewriteTextsModel>,
}

impl DeepView for ContextTexts {
    type V = ContextTextsModel;

    open spec fn deep_view(&self) -> ContextTextsModel {
        ContextTextsModel {
            processed_comment_blocks: self.processed_comment_blocks@,
            stale_result_handoff: self.stale_result_handoff@,
            rewrite_result: self.rewrite_result.deep_view(),
        }
    }
}

impl Clone for ContextTexts {
    fn clone(&self) -> (r: Self)
        ensures
            r.deep_view() == self.deep_view(),
    {
        ContextTexts {
            processed_comment_blocks: self.processed_comment_blocks.clone(),
            stale_result_handoff: self.stale_result_handoff.clone(),
            rewrite_result: self.rewrite_result.clone(),
        }
    }
}

/// How far the gates of a rewrite are.
#[derive(Debug, PartialEq, Eq)]
pub struct RefineGateProgress {
    pub report: RefineGateExecutionReport,
    pub finished: bool,
    pub leaf_index: usize,
    pub frontier_index: usize,
    pub attempt_index: u8,
    pub first_failure_fingerprint: Option<String>,
    pub fingerprint: String,
    pub target_parent: Option<String>,
}

/// The meaning of a [`RefineGateProgress`].
pub struct RefineGateProgressModel {
    pub report: RefineGateExecutionReportModel,
    pub finished: bool,
    pub leaf_index: usize,
    pub frontier_index: usize,
    pub attempt_index: u8,
    pub first_failure_fingerprint: Option<Seq<char>>,
    pub fingerprint: Seq<char>,
    pub target_parent: Option<Seq<char>>,
}

impl DeepView for RefineGateProgress {
    type V = RefineGateProgressModel;

    open spec fn deep_view(&self) -> RefineGateProgressModel {
        RefineGateProgressModel {
            report: self.report.deep_view(),
            finished: self.finished,
            leaf_index: self.leaf_index,
            frontier_index: self.frontier_index,
            attempt_index: self.attempt_index,
            first_failure_fingerprint: self.first_failure_fingerprint.deep_view(),
            fingerprint: self.fingerprint@,
            target_parent: self.target_parent.deep_view(),
        }
    }
}

impl Clone for RefineGateProgress {
    fn clone(&self) -> (r: Self)
        ensures
            r.deep_view() == self.deep_view(),
    {
        RefineGateProgress {
            report: self.report.clone(),
            finished: self.finished,
            leaf_index: self.leaf_index,
            frontier_index: self.frontier_index,
            attempt_index: self.attempt_index,
            first_failure_fingerprint: self.first_failure_fingerprint.clone(),
            fingerprint: self.fingerprint.clone(),
            target_parent: self.target_parent.clone(),
        }
    }
}

/// What happened since the last step.
#[derive(Debug, PartialEq, Eq)]
pub enum GateAnswer {
    Started,
    Leaf(Result<RunLeafReviewGateResponse, PlanError>),
    Frontier(Result<RunFrontierReviewGateResponse, PlanError>),
}

/// The meaning of a [`GateAnswer`].
pub enum GateAnswerModel {
    Started,
    Leaf(Result<RunLeafReviewGateResponseModel, PlanErrorModel>),
    Frontier(Result<RunFrontierReviewGateResponseModel, PlanErrorModel>),
}

impl DeepView for GateAnswer {
    type V = GateAnswerModel;

    open spec fn deep_view(&self) -> GateAnswerModel {
        match self {
            GateAnswer::Started => GateAnswerModel::Started,
            GateAnswer::Leaf(result) => GateAnswerModel::Leaf(outcome(*result)),
            GateAnswer::Frontier(result) => GateAnswerModel::Frontier(outcome(*result)),
        }
    }
}

/// What to do next.
#[derive(Debug, PartialEq, Eq)]
pub enum GateStep {
    RunLeaf(RunLeafReviewGateRequest),
    RunFrontier(RunFrontierReviewGateRequest),
    Finish(RefineGateExecutionReport),
}

/// The meaning of a [`GateStep`].
pub enum GateStepModel {
    RunLeaf(RunLeafReviewGateRequestModel),
    RunFrontier(RunFrontierReviewGateRequestModel),
    Finish(RefineGateExecutionReportModel),
}

impl DeepView for GateStep {
    type V = GateStepModel;

    open spec fn deep_view(&self) -> GateStepModel {
        match self {
            GateStep::RunLeaf(request) => GateStepModel::RunLeaf(request.deep_view()),
            GateStep::RunFrontier(request) => GateStepModel::RunFrontier(request.deep_view()),
            GateStep::Finish(report) => GateStepModel::Finish(report.deep_view()),
        }
    }
}

/// The targets do not do.
pub open spec fn invalid_targets(reason: Seq<char>) -> RefineGateExecutionErrorModel {
    RefineGateExecutionErrorModel::InvalidRegisteredTargets { reason }
}

/// The outcome of a check that may find a problem.
pub open spec fn decided(problem: Option<RefineGateExecutionErrorModel>) -> Result<
    (),
    RefineGateExecutionErrorModel,
> {
    match problem {
        Some(error) => Err(error),
        None => Ok(()),
    }
}

fn invalid(reason: &str) -> (r: RefineGateExecutionError)
    ensures
        r.deep_view() == invalid_targets(reason@),
{
    RefineGateExecutionError::InvalidRegisteredTargets { reason: reason.to_owned() }
}

// ---------------------------------------------------------------------
// Looking before any gate runs
// ---------------------------------------------------------------------
/// The path is no markdown path of the plan.
pub open spec fn target_path_problem(path: Seq<char>) -> Option<RefineGateExecutionErrorModel> {
    if path.len() == 0 || is_absolute(path) || extension(path) != Some("md"@) {
        Some(invalid_targets("target path must be a canonical markdown relative path"@))
    } else if !all_normal(components(path)) {
        Some(invalid_targets("target path must stay inside plan_root"@))
    } else {
        None
    }
}

fn validate_target_path(path: &str) -> (r: Result<(), RefineGateExecutionError>)
    ensures
        outcome(r) == decided(target_path_problem(path@)),
{
    if is_empty(path) || path_is_absolute(path) || !is_text(&path_extension(path), "md") {
        return Err(invalid("target path must be a canonical markdown relative path"));
    }
    if !components_are_normal(&path_components(path)) {
        return Err(invalid("target path must stay inside plan_root"));
    }
    Ok(())
}

/// The node with this id.
pub open spec fn by_id(plan_id: Seq<char>, node_id: Seq<char>) -> InspectNodeRequestModel {
    InspectNodeRequestModel { plan_id, node_id: Some(node_id), relative_path: None }
}

/// The children of the node with this id.
pub open spec fn children_by_id(plan_id: Seq<char>, node_id: Seq<char>) -> ListChildrenRequestModel {
    ListChildrenRequestModel {
        plan_id,
        parent_node_id: Some(node_id),
        parent_relative_path: None,
    }
}

/// A child with this path is listed.
pub open spec fn has_child(listing: ListChildrenResponseModel, path: Seq<char>) -> bool {
    exists|i: int|
        0 <= i < listing.children.len() && (#[trigger] listing.children[i]).relative_path == path
}

impl RunRefineGateRevalidationRequestModel {
    /// One of the leaf targets before `i` has the same id or the same path.
    pub open spec fn leaf_is_repeated(self, i: int) -> bool {
        let targets = self.registered_targets.leaf_targets;
        exists|k: int|
            0 <= k < i && ((#[trigger] targets[k]).node_id == targets[i].node_id
                || targets[k].relative_path == targets[i].relative_path)
    }

    /// One of the frontier targets before `i` has the same id or the same
    /// path.
    pub open spec fn frontier_is_repeated(self, i: int) -> bool {
        let targets = self.registered_targets.frontier_targets;
        exists|k: int|
            0 <= k < i && ((#[trigger] targets[k]).parent_node_id == targets[i].parent_node_id
                || targets[k].parent_relative_path == targets[i].parent_relative_path)
    }

    /// The runtime knows something else of a leaf target.
    pub open spec fn leaf_node_problem(
        self,
        runtime: RuntimeModel,
        target: RegisteredRefineLeafTargetModel,
    ) -> Option<RefineGateExecutionErrorModel> {
        match runtime.inspection(by_id(self.plan_id, target.node_id)) {
            Err(error) => Some(invalid_targets(error.message)),
            Ok(node) => if node.node_kind != NodeKind::Leaf {
                Some(invalid_targets("leaf target node_id must reference a leaf node"@))
            } else if node.relative_path != target.relative_path {
                Some(invalid_targets("leaf target node_id must match relative_path"@))
            } else if node.parent_relative_path != target.parent_relative_path {
                Some(
                    invalid_targets("leaf target parent_relative_path must match runtime parent"@),
                )
            } else {
                None
            },
        }
    }

    /// The leaf target at `i` does not do.
    pub open spec fn leaf_target_problem(
        self,
        runtime: RuntimeModel,
        files: PlanFilesModel,
        i: int,
    ) -> Option<RefineGateExecutionErrorModel> {
        let target = self.registered_targets.leaf_targets[i];
        if target.node_id.len() == 0 || target.reasons.len() == 0 {
            Some(invalid_targets("leaf target node_id and reasons must be non-empty"@))
        } else {
            match target_path_problem(target.relative_path) {
                Some(error) => Some(error),
                None => if self.leaf_is_repeated(i) {
                    Some(invalid_targets("duplicate leaf target node_id or relative_path"@))
                } else if !files.is_file(target.relative_path) {
                    Some(invalid_targets("leaf markdown file must exist under plan_root"@))
                } else {
                    self.leaf_node_problem(runtime, target)
                },
            }
        }
    }

    /// One of the leaf targets from `i` on does not do.
    pub open spec fn leaf_targets_problem_from(
        self,
        runtime: RuntimeModel,
        files: PlanFilesModel,
        i: int,
    ) -> Option<RefineGateExecutionErrorModel>
        decreases self.registered_targets.leaf_targets.len() - i,
    {
        if i >= self.registered_targets.leaf_targets.len() {
            None
        } else {
            match self.leaf_target_problem(runtime, files, i) {
                Some(error) => Some(error),
                None => self.leaf_targets_problem_from(runtime, files, i + 1),
            }
        }
    }

    /// One of the parent targets from `i` on does not do.
    pub open spec fn parent_targets_problem_from(self, i: int) -> Option<
        RefineGateExecutionErrorModel,
    >
        decreases self.registered_targets.parent_targets.len() - i,
    {
        if i >= self.registered_targets.parent_targets.len() {
            None
        } else {
            let parent = self.registered_targets.parent_targets[i];
            if parent.node_id.len() == 0 || parent.relative_path.len() == 0 || parent.reasons.len()
                == 0 {
                Some(
                    invalid_targets(
                        "parent_targets are not dispatched by this API but must be canonical"@,
                    ),
                )
            } else {
                match target_path_problem(parent.relative_path) {
                    Some(error) => Some(error),
                    None => self.parent_targets_problem_from(i + 1),
                }
            }
        }
    }

    /// The runtime knows something else of a frontier target.
    pub open spec fn frontier_node_problem(
        self,
        runtime: RuntimeModel,
        target: RegisteredRefineFrontierTargetModel,
    ) -> Option<RefineGateExecutionErrorModel> {
        match runtime.inspection(by_id(self.plan_id, target.parent_node_id)) {
            Err(error) => Some(invalid_targets(error.message)),
            Ok(node) => if node.node_kind != NodeKind::Parent {
                Some(invalid_targets("frontier target parent_node_id must reference a parent node"@))
            } else if node.relative_path != target.parent_relative_path {
                Some(
                    invalid_targets(
                        "frontier target parent_node_id must match parent_relative_path"@,
                    ),
                )
            } else {
                None
            },
        }
    }

    /// A changed child of a frontier target does not do.
    pub open spec fn changed_child_problem(
        self,
        runtime: RuntimeModel,
        links: Seq<Seq<char>>,
        listing: ListChildrenResponseModel,
        child: Seq<char>,
    ) -> Option<RefineGateExecutionErrorModel> {
        match target_path_problem(child) {
            Some(error) => Some(error),
            None => if links.contains(child) {
                if has_child(listing, child) {
                    None
                } else {
                    Some(invalid_targets("frontier linked child path must be runtime-visible"@))
                }
            } else if has_child(listing, child) {
                Some(invalid_targets("frontier removed child path must not be runtime-visible"@))
            } else if runtime.inspection(
                InspectNodeRequestModel {
                    plan_id: self.plan_id,
                    node_id: None,
                    relative_path: Some(child),
                },
            ) is Err {
                Some(
                    invalid_targets(
                        "frontier changed child path must be linked, runtime-visible, or tracked"@,
                    ),
                )
            } else {
                None
            },
        }
    }

    /// One of the changed children from `i` on does not do.
    pub open spec fn changed_children_problem_from(
        self,
        runtime: RuntimeModel,
        links: Seq<Seq<char>>,
        listing: ListChildrenResponseModel,
        children: Seq<Seq<char>>,
        i: int,
    ) -> Option<RefineGateExecutionErrorModel>
        decreases children.len() - i,
    {
        if i >= children.len() {
            None
        } else {
            match self.changed_child_problem(runtime, links, listing, children[i]) {
                Some(error) => Some(error),
                None => self.changed_children_problem_from(
                    runtime,
                    links,
                    listing,
                    children,
                    i + 1,
                ),
            }
        }
    }

    /// The frontier target at `i` does not do.
    pub open spec fn frontier_target_problem(
        self,
        runtime: RuntimeModel,
        files: PlanFilesModel,
        i: int,
    ) -> Option<RefineGateExecutionErrorModel> {
        let target = self.registered_targets.frontier_targets[i];
        if target.parent_node_id.len() == 0 || target.reasons.len() == 0 {
            Some(invalid_targets("frontier target parent_node_id and reasons must be non-empty"@))
        } else {
            match target_path_problem(target.parent_relative_path) {
                Some(error) => Some(error),
                None => if self.frontier_is_repeated(i) {
                    Some(
                        invalid_targets(
                            "duplicate frontier target parent_node_id or parent_relative_path"@,
                        ),
                    )
                } else if !files.is_file(target.parent_relative_path) {
                    Some(
                        invalid_targets(
                            "frontier parent markdown file must exist under plan_root"@,
                        ),
                    )
                } else {
                    match self.frontier_node_problem(runtime, target) {
                        Some(error) => Some(error),
                        None => match linked_targets(files, target.parent_relative_path) {
                            Err(error) => Some(error),
                            Ok(links) => match runtime.children_listing(
                                children_by_id(self.plan_id, target.parent_node_id),
                            ) {
                                Err(error) => Some(invalid_targets(error.message)),
                                Ok(listing) => self.changed_children_problem_from(
                                    runtime,
                                    links,
                                    listing,
                                    target.changed_child_relative_paths,
                                    0,
                                ),
                            },
                        },
                    }
                },
            }
        }
    }

    /// One of the frontier targets from `i` on does not do.
    pub open spec fn frontier_targets_problem_from(
        self,
        runtime: RuntimeModel,
        files: PlanFilesModel,
        i: int,
    ) -> Option<RefineGateExecutionErrorModel>
        decreases self.registered_targets.frontier_targets.len() - i,
    {
        if i >= self.registered_targets.frontier_targets.len() {
            None
        } else {
            match self.frontier_target_problem(runtime, files, i) {
                Some(error) => Some(error),
                None => self.frontier_targets_problem_from(runtime, files, i + 1),
            }
        }
    }

    /// What speaks against the request before any gate runs.
    pub open spec fn targets_problem(self, runtime: RuntimeModel, files: PlanFilesModel) -> Option<
        RefineGateExecutionErrorModel,
    > {
        if self.retry_policy.max_invocation_retries == 0 {
            Some(invalid_targets("retry_policy.max_invocation_retries must be at least 1"@))
        } else if files.root != PlanRootKind::Directory {
            Some(invalid_targets("plan_root must exist and be a directory"@))
        } else {
            match self.leaf_targets_problem_from(runtime, files, 0) {
                Some(error) => Some(error),
                None => match self.parent_targets_problem_from(0) {
                    Some(error) => Some(error),
                    None => self.frontier_targets_problem_from(runtime, files, 0),
                },
            }
        }
    }
}

/// The paths that the markdown of a parent links.
pub open spec fn linked_targets(files: PlanFilesModel, parent: Seq<char>) -> Result<
    Seq<Seq<char>>,
    RefineGateExecutionErrorModel,
> {
    match files.read(parent) {
        Err(source) => Err(invalid_targets(source)),
        Ok(markdown) => match child_link_paths(parent, markdown) {
            Err(error) => Err(invalid_targets(error.message)),
            Ok(links) => Ok(links),
        },
    }
}

fn linked_child_paths_for_parent(files: &PlanFiles, parent: &str) -> (r: Result<
    Vec<String>,
    RefineGateExecutionError,
>)
    ensures
        outcome(r) == linked_targets(files.deep_view(), parent@),
{
    let markdown: String = match files.read(parent) {
        Ok(markdown) => markdown,
        Err(source) => {
            return Err(RefineGateExecutionError::InvalidRegisteredTargets { reason: source });
        },
    };
    match parse_child_node_link_paths(parent, markdown.as_str()) {
        Ok(links) => Ok(links),
        Err(error) => Err(
            RefineGateExecutionError::InvalidRegisteredTargets { reason: error.message },
        ),
    }
}

fn inspect_by_id(runtime: &Runtime, plan_id: &str, node_id: &str) -> (r: Result<
    InspectNodeResponse,
    PlanError,
>)
    ensures
        outcome(r) == runtime.deep_view().inspection(by_id(plan_id@, node_id@)),
{
    let request: InspectNodeRequest = InspectNodeRequest {
        plan_id: plan_id.to_owned(),
        node_id: Some(node_id.to_owned()),
        relative_path: None,
    };
    runtime.inspect_node(request)
}

fn list_by_id(runtime: &Runtime, plan_id: &str, node_id: &str) -> (r: Result<
    ListChildrenResponse,
    RefineGateExecutionError,
>)
    ensures
        match runtime.deep_view().children_listing(children_by_id(plan_id@, node_id@)) {
            Ok(listing) => outcome(r) == Ok::<
                ListChildrenResponseModel,
                RefineGateExecutionErrorModel,
            >(listing),
            Err(error) => outcome(r) == Err::<
                ListChildrenResponseModel,
                RefineGateExecutionErrorModel,
            >(invalid_targets(error.message)),
        },
{
    let request: ListChildrenRequest = ListChildrenRequest {
        plan_id: plan_id.to_owned(),
        parent_node_id: Some(node_id.to_owned()),
        parent_relative_path: None,
    };
    match runtime.list_children(request) {
        Ok(listing) => Ok(listing),
        Err(error) => Err(
            RefineGateExecutionError::InvalidRegisteredTargets { reason: error.message },
        ),
    }
}

fn validate_leaf_target_node(
    runtime: &Runtime,
    request: &RunRefineGateRevalidationRequest,
    target: &RegisteredRefineLeafTarget,
) -> (r: Result<(), RefineGateExecutionError>)
    ensures
        outcome(r) == decided(
            request.deep_view().leaf_node_problem(runtime.deep_view(), target.deep_view()),
        ),
{
    let node: InspectNodeResponse = match inspect_by_id(
        runtime,
        request.plan_id.as_str(),
        target.node_id.as_str(),
    ) {
        Ok(node) => node,
        Err(error) => {
            return Err(
                RefineGateExecutionError::InvalidRegisteredTargets { reason: error.message },
            );
        },
    };
    if node.node_kind != NodeKind::Leaf {
        return Err(invalid("leaf target node_id must reference a leaf node"));
    }
    if !same_text(node.relative_path.as_str(), target.relative_path.as_str()) {
        return Err(invalid("leaf target node_id must match relative_path"));
    }
    if !same_optional_text(&node.parent_relative_path, &target.parent_relative_path) {
        return Err(invalid("leaf target parent_relative_path must match runtime parent"));
    }
    Ok(())
}

fn validate_frontier_target_node(
    runtime: &Runtime,
    request: &RunRefineGateRevalidationRequest,
    target: &RegisteredRefineFrontierTarget,
) -> (r: Result<(), RefineGateExecutionError>)
    ensures
        outcome(r) == decided(
            request.deep_view().frontier_node_problem(runtime.deep_view(), target.deep_view()),
        ),
{
    let node: InspectNodeResponse = match inspect_by_id(
        runtime,
        request.plan_id.as_str(),
        target.parent_node_id.as_str(),
    ) {
        Ok(node) => node,
        Err(error) => {
            return Err(
                RefineGateExecutionError::InvalidRegisteredTargets { reason: error.message },
            );
        },
    };
    if node.node_kind != NodeKind::Parent {
        return Err(invalid("frontier target parent_node_id must reference a parent node"));
    }
    if !same_text(node.relative_path.as_str(), target.parent_relative_path.as_str()) {
        return Err(invalid("frontier target parent_node_id must match parent_relative_path"));
    }
    Ok(())
}

fn leaf_repeats(request: &RunRefineGateRevalidationRequest, i: usize) -> (r: bool)
    requires
        i < request.registered_targets.leaf_targets.len(),
    ensures
        r == request.deep_view().leaf_is_repeated(i as int),
{
    let targets: &Vec<RegisteredRefineLeafTarget> = &request.registered_targets.leaf_targets;
    let ghost all = targets.deep_view();
    let mut k: usize = 0;
    while k < i
        invariant
            k <= i < targets.len(),
            all == targets.deep_view(),
            all == request.deep_view().registered_targets.leaf_targets,
            forall|j: int|
                0 <= j < k ==> !((#[trigger] all[j]).node_id == all[i as int].node_id
                    || all[j].relative_path == all[i as int].relative_path),
        decreases i - k,
    {
        assert(all[k as int] == targets@[k as int].deep_view());
        assert(all[i as int] == targets@[i as int].deep_view());
        if same_text(targets[k].node_id.as_str(), targets[i].node_id.as_str()) || same_text(
            targets[k].relative_path.as_str(),
            targets[i].relative_path.as_str(),
        ) {
            return true;
        }
        k = k + 1;
    }
    false
}

fn frontier_repeats(request: &RunRefineGateRevalidationRequest, i: usize) -> (r: bool)
    requires
        i < request.registered_targets.frontier_targets.len(),
    ensures
        r == request.deep_view().frontier_is_repeated(i as int),
{
    let targets: &Vec<RegisteredRefineFrontierTarget> =
        &request.registered_targets.frontier_targets;
    let ghost all = targets.deep_view();
    let mut k: usize = 0;
    while k < i
        invariant
            k <= i < targets.len(),
            all == targets.deep_view(),
            all == request.deep_view().registered_targets.frontier_targets,
            forall|j: int|
                0 <= j < k ==> !((#[trigger] all[j]).parent_node_id
                    == all[i as int].parent_node_id || all[j].parent_relative_path
                    == all[i as int].parent_relative_path),
        decreases i - k,
    {
        assert(all[k as int] == targets@[k as int].deep_view());
        assert(all[i as int] == targets@[i as int].deep_view());
        if same_text(targets[k].parent_node_id.as_str(), targets[i].parent_node_id.as_str())
            || same_text(
            targets[k].parent_relative_path.as_str(),
            targets[i].parent_relative_path.as_str(),
        ) {
            return true;
        }
        k = k + 1;
    }
    false
}

fn listing_has(listing: &ListChildrenResponse, path: &str) -> (r: bool)
    ensures
        r == has_child(listing.deep_view(), path@),
{
    let ghost all = listing.children.deep_view();
    let mut i: usize = 0;
    while i < listing.children.len()
        invariant
            i <= listing.children.len(),
            all == listing.children.deep_view(),
            forall|k: int| 0 <= k < i ==> (#[trigger] all[k]).relative_path != path@,
        decreases listing.children.len() - i,
    {
        assert(all[i as int] == listing.children@[i as int].deep_view());
        if same_text(listing.children[i].relative_path.as_str(), path) {
            return true;
        }
        i = i + 1;
    }
    false
}

fn validate_changed_child(
    runtime: &Runtime,
    request: &RunRefineGateRevalidationRequest,
    links: &Vec<String>,
    listing: &ListChildrenResponse,
    child: &str,
) -> (r: Result<(), RefineGateExecutionError>)
    ensures
        outcome(r) == decided(
            request.deep_view().changed_child_problem(
                runtime.deep_view(),
                links.deep_view(),
                listing.deep_view(),
                child@,
            ),
        ),
{
    validate_target_path(child)?;
    let visible: bool = listing_has(listing, child);
    if list_has(links, child) {
        if !visible {
            return Err(invalid("frontier linked child path must be runtime-visible"));
        }
        return Ok(());
    }
    if visible {
        return Err(invalid("frontier removed child path must not be runtime-visible"));
    }
    let inspect: InspectNodeRequest = InspectNodeRequest {
        plan_id: request.plan_id.clone(),
        node_id: None,
        relative_path: Some(child.to_owned()),
    };
    match runtime.inspect_node(inspect) {
        Ok(_) => Ok(()),
        Err(_) => Err(
            invalid("frontier changed child path must be linked, runtime-visible, or tracked"),
        ),
    }
}

#[verifier::loop_isolation(false)]
fn validate_changed_children(
    runtime: &Runtime,
    request: &RunRefineGateRevalidationRequest,
    links: &Vec<String>,
    listing: &ListChildrenResponse,
    children: &Vec<String>,
) -> (r: Result<(), RefineGateExecutionError>)
    ensures
        outcome(r) == decided(
            request.deep_view().changed_children_problem_from(
                runtime.deep_view(),
                links.deep_view(),
                listing.deep_view(),
                children.deep_view(),
                0,
            ),
        ),
{
    let ghost model = request.deep_view();
    let ghost state = runtime.deep_view();
    let ghost all = children.deep_view();
    let mut i: usize = 0;
    while i < children.len()
        invariant
            i <= children.len(),
            model.changed_children_problem_from(
                state,
                links.deep_view(),
                listing.deep_view(),
                all,
                0,
            ) == model.changed_children_problem_from(
                state,
                links.deep_view(),
                listing.deep_view(),
                all,
                i as int,
            ),
        decreases children.len() - i,
    {
        validate_changed_child(runtime, request, links, listing, children[i].as_str())?;
        i = i + 1;
    }
    Ok(())
}

fn validate_leaf_target(
    runtime: &Runtime,
    files: &PlanFiles,
    request: &RunRefineGateRevalidationRequest,
    i: usize,
) -> (r: Result<(), RefineGateExecutionError>)
    requires
        i < request.registered_targets.leaf_targets.len(),
    ensures
        outcome(r) == decided(
            request.deep_view().leaf_target_problem(
                runtime.deep_view(),
                files.deep_view(),
                i as int,
            ),
        ),
{
    let target: &RegisteredRefineLeafTarget = &request.registered_targets.leaf_targets[i];
    assert(request.deep_view().registered_targets.leaf_targets[i as int] == target.deep_view());
    if is_empty(target.node_id.as_str()) || target.reasons.len() == 0 {
        return Err(invalid("leaf target node_id and reasons must be non-empty"));
    }
    validate_target_path(target.relative_path.as_str())?;
    if leaf_repeats(request, i) {
        return Err(invalid("duplicate leaf target node_id or relative_path"));
    }
    if !files.is_file(target.relative_path.as_str()) {
        return Err(invalid("leaf markdown file must exist under plan_root"));
    }
    validate_leaf_target_node(runtime, request, target)
}

fn validate_frontier_target(
    runtime: &Runtime,
    files: &PlanFiles,
    request: &RunRefineGateRevalidationRequest,
    i: usize,
) -> (r: Result<(), RefineGateExecutionError>)
    requires
        i < request.registered_targets.frontier_targets.len(),
    ensures
        outcome(r) == decided(
            request.deep_view().frontier_target_problem(
                runtime.deep_view(),
                files.deep_view(),
                i as int,
            ),
        ),
{
    let target: &RegisteredRefineFrontierTarget = &request.registered_targets.frontier_targets[i];
    assert(request.deep_view().registered_targets.frontier_targets[i as int]
        == target.deep_view());
    if is_empty(target.parent_node_id.as_str()) || target.reasons.len() == 0 {
        return Err(invalid("frontier target parent_node_id and reasons must be non-empty"));
    }
    validate_target_path(target.parent_relative_path.as_str())?;
    if frontier_repeats(request, i) {
        return Err(
            invalid("duplicate frontier target parent_node_id or parent_relative_path"),
        );
    }
    if !files.is_file(target.parent_relative_path.as_str()) {
        return Err(invalid("frontier parent markdown file must exist under plan_root"));
    }
    validate_frontier_target_node(runtime, request, target)?;
    let links: Vec<String> = linked_child_paths_for_parent(
        files,
        target.parent_relative_path.as_str(),
    )?;
    let listing: ListChildrenResponse = list_by_id(
        runtime,
        request.plan_id.as_str(),
        target.parent_node_id.as_str(),
    )?;
    validate_changed_children(
        runtime,
        request,
        &links,
        &listing,
        &target.changed_child_relative_paths,
    )
}

/// Checks the targets before any gate runs.
#[verifier::loop_isolation(false)]
pub fn validate_registered_targets(
    runtime: &Runtime,
    files: &PlanFiles,
    request: &RunRefineGateRevalidationRequest,
) -> (r: Result<(), RefineGateExecutionError>)
    ensures
        outcome(r) == decided(
            request.deep_view().targets_problem(runtime.deep_view(), files.deep_view()),
        ),
{
    if request.retry_policy.max_invocation_retries == 0 {
        return Err(invalid("retry_policy.max_invocation_retries must be at least 1"));
    }
    if files.root_kind() != PlanRootKind::Directory {
        return Err(invalid("plan_root must exist and be a directory"));
    }
    let ghost model = request.deep_view();
    let ghost state = runtime.deep_view();
    let ghost disk = files.deep_view();
    let mut i: usize = 0;
    while i < request.registered_targets.leaf_targets.len()
        invariant
            i <= request.registered_targets.leaf_targets.len(),
            model.leaf_targets_problem_from(state, disk, 0) == model.leaf_targets_problem_from(
                state,
                disk,
                i as int,
            ),
        decreases request.registered_targets.leaf_targets.len() - i,
    {
        validate_leaf_target(runtime, files, request, i)?;
        i = i + 1;
    }
    let mut j: usize = 0;
    while j < request.registered_targets.parent_targets.len()
        invariant
            j <= request.registered_targets.parent_targets.len(),
            model.parent_targets_problem_from(0) == model.parent_targets_problem_from(j as int),
        decreases request.registered_targets.parent_targets.len() - j,
    {
        let parent: &RegisteredRefineParentTarget = &request.registered_targets.parent_targets[j];
        assert(model.registered_targets.parent_targets[j as int] == parent.deep_view());
        if is_empty(parent.node_id.as_str()) || is_empty(parent.relative_path.as_str())
            || parent.reasons.len() == 0 {
            return Err(
                invalid("parent_targets are not dispatched by this API but must be canonical"),
            );
        }
        validate_target_path(parent.relative_path.as_str())?;
        j = j + 1;
    }
    let mut k: usize = 0;
    while k < request.registered_targets.frontier_targets.len()
        invariant
            k <= request.registered_targets.frontier_targets.len(),
            model.frontier_targets_problem_from(state, disk, 0)
                == model.frontier_targets_problem_from(state, disk, k as int),
        decreases request.registered_targets.frontier_targets.len() - k,
    {
        validate_frontier_target(runtime, files, request, k)?;
        k = k + 1;
    }
    Ok(())
}

// ---------------------------------------------------------------------
// Fingerprints
// ---------------------------------------------------------------------
/// The bytes of the file at a path.
pub open spec fn target_bytes(files: PlanFilesModel, path: Seq<char>) -> Result<
    Seq<u8>,
    RefineGateExecutionErrorModel,
> {
    match target_path_problem(path) {
        Some(error) => Err(error),
        None => match files.read_bytes(path) {
            Ok(bytes) => Ok(bytes),
            Err(source) => Err(invalid_targets(source)),
        },
    }
}

/// The fingerprint of a leaf: its path and its bytes.
pub open spec fn leaf_fingerprint_of(files: PlanFilesModel, path: Seq<char>) -> Result<
    Seq<char>,
    RefineGateExecutionErrorModel,
> {
    match target_bytes(files, path) {
        Err(error) => Err(error),
        Ok(bytes) => Ok(
            fingerprint(encode_utf8("leaf\0"@ + path + "\0"@) + bytes),
        ),
    }
}

/// The paths and the bytes of the children from `i` on whose files are there,
/// after what is in `acc`.
pub open spec fn children_bytes_from(
    files: PlanFilesModel,
    children: Seq<NodeSummaryModel>,
    i: int,
    acc: Seq<u8>,
) -> Result<Seq<u8>, RefineGateExecutionErrorModel>
    decreases children.len() - i,
{
    if i >= children.len() {
        Ok(acc)
    } else {
        let path = children[i].relative_path;
        match target_path_problem(path) {
            Some(error) => Err(error),
            None => if !files.is_present(path) {
                children_bytes_from(files, children, i + 1, acc)
            } else {
                match files.read_bytes(path) {
                    Err(source) => Err(invalid_targets(source)),
                    Ok(bytes) => children_bytes_from(
                        files,
                        children,
                        i + 1,
                        acc + encode_utf8("child\0"@ + path + "\0"@) + bytes,
                    ),
                }
            },
        }
    }
}

/// The fingerprint of a parent: its path and its bytes, then those of its
/// children, as far as their files are there.
pub open spec fn frontier_fingerprint_of(
    runtime: RuntimeModel,
    files: PlanFilesModel,
    plan_id: Seq<char>,
    target: RegisteredRefineFrontierTargetModel,
) -> Result<Seq<char>, RefineGateExecutionErrorModel> {
    match target_bytes(files, target.parent_relative_path) {
        Err(error) => Err(error),
        Ok(bytes) => match runtime.children_listing(
            children_by_id(plan_id, target.parent_node_id),
        ) {
            Err(error) => Err(invalid_targets(error.message)),
            Ok(listing) => match children_bytes_from(
                files,
                listing.children,
                0,
                encode_utf8("frontier\0"@ + target.parent_relative_path + "\0"@) + bytes,
            ) {
                Err(error) => Err(error),
                Ok(all) => Ok(fingerprint(all)),
            },
        },
    }
}

spec fn bytes_view(r: Result<Vec<u8>, RefineGateExecutionError>) -> Result<
    Seq<u8>,
    RefineGateExecutionErrorModel,
> {
    match r {
        Ok(bytes) => Ok(bytes@),
        Err(error) => Err(error.deep_view()),
    }
}

fn read_target_bytes(files: &PlanFiles, path: &str) -> (r: Result<
    Vec<u8>,
    RefineGateExecutionError,
>)
    ensures
        bytes_view(r) == target_bytes(files.deep_view(), path@),
{
    validate_target_path(path)?;
    match files.read_bytes(path) {
        Ok(bytes) => Ok(bytes),
        Err(source) => Err(RefineGateExecutionError::InvalidRegisteredTargets { reason: source }),
    }
}

fn join_bytes(head: &str, tail: &Vec<u8>) -> (r: Vec<u8>)
    ensures
        r@ == encode_utf8(head@) + tail@,
{
    let mut out: Vec<u8> = bytes_of(head);
    out.extend_from_slice(tail.as_slice());
    assert(out@ =~= encode_utf8(head@) + tail@);
    out
}

/// The fingerprint of a leaf.
pub fn leaf_fingerprint(files: &PlanFiles, path: &str) -> (r: Result<
    String,
    RefineGateExecutionError,
>)
    ensures
        outcome(r) == leaf_fingerprint_of(files.deep_view(), path@),
{
    let bytes: Vec<u8> = read_target_bytes(files, path)?;
    let head: String = concat3("leaf\0", path, "\0");
    Ok(sha256_hex(&join_bytes(head.as_str(), &bytes)))
}

fn append_children_bytes(files: &PlanFiles, children: &Vec<NodeSummary>, start: Vec<u8>) -> (r:
    Result<Vec<u8>, RefineGateExecutionError>)
    ensures
        bytes_view(r) == children_bytes_from(
            files.deep_view(),
            children.deep_view(),
            0,
            start@,
        ),
{
    let ghost all = children.deep_view();
    let ghost disk = files.deep_view();
    let ghost begun = start@;
    let mut out: Vec<u8> = start;
    let mut i: usize = 0;
    while i < children.len()
        invariant
            i <= children.len(),
            all == children.deep_view(),
            disk == files.deep_view(),
            begun == start@,
            children_bytes_from(disk, all, 0, begun) == children_bytes_from(
                disk,
                all,
                i as int,
                out@,
            ),
        decreases children.len() - i,
    {
        let path: &str = children[i].relative_path.as_str();
        assert(all[i as int].relative_path == path@);
        validate_target_path(path)?;
        if files.is_present(path) {
            let bytes: Vec<u8> = match files.read_bytes(path) {
                Ok(bytes) => bytes,
                Err(source) => {
                    return Err(
                        RefineGateExecutionError::InvalidRegisteredTargets { reason: source },
                    );
                },
            };
            let head: String = concat3("child\0", path, "\0");
            let more: Vec<u8> = join_bytes(head.as_str(), &bytes);
            let ghost before = out@;
            out.extend_from_slice(more.as_slice());
            assert(out@ =~= before + encode_utf8("child\0"@ + path@ + "\0"@) + bytes@);
        }
        i = i + 1;
    }
    Ok(out)
}

/// The fingerprint of a parent and its children.
pub fn frontier_fingerprint(
    runtime: &Runtime,
    files: &PlanFiles,
    request: &RunRefineGateRevalidationRequest,
    target: &RegisteredRefineFrontierTarget,
) -> (r: Result<String, RefineGateExecutionError>)
    ensures
        outcome(r) == frontier_fingerprint_of(
            runtime.deep_view(),
            files.deep_view(),
            request.deep_view().plan_id,
            target.deep_view(),
        ),
{
    let bytes: Vec<u8> = read_target_bytes(files, target.parent_relative_path.as_str())?;
    let listing: ListChildrenResponse = list_by_id(
        runtime,
        request.plan_id.as_str(),
        target.parent_node_id.as_str(),
    )?;
    let head: String = concat3("frontier\0", target.parent_relative_path.as_str(), "\0");
    let all: Vec<u8> = append_children_bytes(
        files,
        &listing.children,
        join_bytes(head.as_str(), &bytes),
    )?;
    Ok(sha256_hex(&all))
}

// ---------------------------------------------------------------------
// What judges are told
// ---------------------------------------------------------------------
/// A section of the context that holds JSON.
pub open spec fn json_section_text(title: Seq<char>, json: Seq<char>) -> Seq<char> {
    "\n## "@ + title + "\n```json\n"@ + json + "\n```\n"@
}

/// What a judge is told of the target and of the rewrite.
pub open spec fn context_text(
    gate_kind: Seq<char>,
    path: Seq<char>,
    node_id: Seq<char>,
    parent: Option<Seq<char>>,
    context: ContextTextsModel,
) -> Seq<char> {
    let head = "## Target\n- Gate Kind: "@ + gate_kind + "\n- Target Relative Path: "@ + path
        + "\n- Target Node ID: "@ + node_id + "\n"@;
    let target = match parent {
        Some(parent) => head + "- Target Parent Relative Path: "@ + parent + "\n"@,
        None => head,
    };
    let told = target + json_section_text(
        "Processed Comment Blocks"@,
        context.processed_comment_blocks,
    ) + json_section_text("Stale Handoff"@, context.stale_result_handoff);
    match context.rewrite_result {
        Some(rewrite) => told + json_section_text("Changed Files"@, rewrite.changed_files)
            + json_section_text("Changed Child Links"@, rewrite.structural_changes)
            + json_section_text("Context Invalidations"@, rewrite.context_invalidations)
            + json_section_text("Expected Gate Targets"@, rewrite.expected_gate_targets),
        None => told + "\n## Changed Files\nNone\n"@ + "\n## Changed Child Links\nNone\n"@
            + "\n## Context Invalidations\nNone\n"@ + "\n## Expected Gate Targets\nNone\n"@,
    }
}

fn render_json_section(title: &str, json: &str) -> (r: String)
    ensures
        r@ == json_section_text(title@, json@),
{
    concat5("\n## ", title, "\n```json\n", json, "\n```\n")
}

/// What a judge is told of the target and of the rewrite.
pub fn render_refine_revalidation_context(
    gate_kind: &str,
    path: &str,
    node_id: &str,
    parent: &Option<String>,
    context: &ContextTexts,
) -> (r: String)
    ensures
        r@ == context_text(
            gate_kind@,
            path@,
            node_id@,
            parent.deep_view(),
            context.deep_view(),
        ),
{
    let start: String = concat5(
        "## Target\n- Gate Kind: ",
        gate_kind,
        "\n- Target Relative Path: ",
        path,
        "\n- Target Node ID: ",
    );
    let mut out: String = concat3(start.as_str(), node_id, "\n");
    match parent {
        Some(parent) => {
            out.append("- Target Parent Relative Path: ");
            out.append(parent.as_str());
            out.append("\n");
        },
        None => {},
    }
    out.append(
        render_json_section(
            "Processed Comment Blocks",
            context.processed_comment_blocks.as_str(),
        ).as_str(),
    );
    out.append(
        render_json_section("Stale Handoff", context.stale_result_handoff.as_str()).as_str(),
    );
    match &context.rewrite_result {
        Some(rewrite) => {
            out.append(
                render_json_section("Changed Files", rewrite.changed_files.as_str()).as_str(),
            );
            out.append(
                render_json_section(
                    "Changed Child Links",
                    rewrite.structural_changes.as_str(),
                ).as_str(),
            );
            out.append(
                render_json_section(
                    "Context Invalidations",
                    rewrite.context_invalidations.as_str(),
                ).as_str(),
            );
            out.append(
                render_json_section(
                    "Expected Gate Targets",
                    rewrite.expected_gate_targets.as_str(),
                ).as_str(),
            );
        },
        None => {
            out.append("\n## Changed Files\nNone\n");
            out.append("\n## Changed Child Links\nNone\n");
            out.append("\n## Context Invalidations\nNone\n");
            out.append("\n## Expected Gate Targets\nNone\n");
        },
    }
    out
}

// ---------------------------------------------------------------------
// What becomes of an answer
// ---------------------------------------------------------------------
/// One of the issues asks the user something.
pub open spec fn asks_user(issues: Seq<ReviewIssueModel>) -> bool {
    exists|i: int| 0 <= i < issues.len() && is_given((#[trigger] issues[i]).question_for_user)
}

/// The question of the first issue at or after `i` that has one.
pub open spec fn question_from(issues: Seq<ReviewIssueModel>, i: int) -> Option<Seq<char>>
    decreases issues.len() - i,
{
    if i >= issues.len() {
        None
    } else if issues[i].question_for_user is Some {
        issues[i].question_for_user
    } else {
        question_from(issues, i + 1)
    }
}

fn issues_ask_user(issues: &Vec<ReviewIssue>) -> (r: bool)
    ensures
        r == asks_user(issues.deep_view()),
{
    let ghost all = issues.deep_view();
    let mut i: usize = 0;
    while i < issues.len()
        invariant
            i <= issues.len(),
            all == issues.deep_view(),
            forall|k: int| 0 <= k < i ==> !is_given((#[trigger] all[k]).question_for_user),
        decreases issues.len() - i,
    {
        assert(all[i as int] == issues@[i as int].deep_view());
        if option_is_given(&issues[i].question_for_user) {
            return true;
        }
        i = i + 1;
    }
    false
}

fn first_question(issues: &Vec<ReviewIssue>) -> (r: Option<String>)
    ensures
        r.deep_view() == question_from(issues.deep_view(), 0),
{
    let ghost all = issues.deep_view();
    let mut i: usize = 0;
    while i < issues.len()
        invariant
            i <= issues.len(),
            all == issues.deep_view(),
            question_from(all, 0) == question_from(all, i as int),
        decreases issues.len() - i,
    {
        assert(all[i as int] == issues@[i as int].deep_view());
        if issues[i].question_for_user.is_some() {
            return issues[i].question_for_user.clone();
        }
        i = i + 1;
    }
    None
}

fn copy_issues(issues: &Vec<ReviewIssue>) -> (r: Vec<ReviewIssue>)
    ensures
        r.deep_view() == issues.deep_view(),
{
    let r: Vec<ReviewIssue> = issues.clone();
    assert(r.deep_view() =~= issues.deep_view());
    r
}

/// How a gate that did not pass ended.
pub open spec fn unpassed_outcome(
    verdict: Seq<char>,
    summary: Seq<char>,
    issues: Seq<ReviewIssueModel>,
) -> RefineGateAttemptOutcomeModel {
    if asks_user(issues) {
        RefineGateAttemptOutcomeModel::PauseForUserDecision { summary, issues }
    } else {
        RefineGateAttemptOutcomeModel::ReviewIssues { verdict, issues }
    }
}

impl RefineGateExecutionReportModel {
    /// Nothing was run yet.
    pub open spec fn empty() -> RefineGateExecutionReportModel {
        RefineGateExecutionReportModel {
            status: RefineGateExecutionStatus::Passed,
            leaf_attempts: Seq::empty(),
            frontier_attempts: Seq::empty(),
            exhausted_invocation_retries: Seq::empty(),
            blocked_by_review_issues: Seq::empty(),
            paused_for_user_decision: None,
            invalidated_leaf_node_ids: Seq::empty(),
        }
    }

    /// The report after a gate that did not pass.
    pub open spec fn stopped_by(self, issues: Seq<ReviewIssueModel>) -> RefineGateExecutionReportModel {
        if asks_user(issues) {
            RefineGateExecutionReportModel {
                status: RefineGateExecutionStatus::PausedForUserDecision,
                paused_for_user_decision: question_from(issues, 0),
                ..self
            }
        } else {
            RefineGateExecutionReportModel {
                status: RefineGateExecutionStatus::BlockedByReviewIssues,
                blocked_by_review_issues: self.blocked_by_review_issues + issues,
                ..self
            }
        }
    }

    /// The report after the last try of a gate that could not be run.
    pub open spec fn exhausted_by(self, failure: RefineGateInvocationFailureModel) -> RefineGateExecutionReportModel {
        RefineGateExecutionReportModel {
            status: RefineGateExecutionStatus::ExhaustedInvocationRetries,
            exhausted_invocation_retries: self.exhausted_invocation_retries.push(failure),
            ..self
        }
    }
}

impl RefineGateProgressModel {
    /// Nothing was run yet.
    pub open spec fn start() -> RefineGateProgressModel {
        RefineGateProgressModel {
            report: RefineGateExecutionReportModel::empty(),
            finished: false,
            leaf_index: 0,
            frontier_index: 0,
            attempt_index: 1,
            first_failure_fingerprint: None,
            fingerprint: Seq::empty(),
            target_parent: None,
        }
    }

    /// The attempt that just ended.
    pub open spec fn attempt(
        self,
        gate_kind: RefineGateKind,
        node_id: Seq<char>,
        path: Seq<char>,
        outcome: RefineGateAttemptOutcomeModel,
        invalidated: Seq<Seq<char>>,
    ) -> RefineGateAttemptModel {
        RefineGateAttemptModel {
            gate_kind,
            target_node_id: node_id,
            target_relative_path: path,
            attempt_index: self.attempt_index,
            outcome,
            content_fingerprint: self.fingerprint,
            invalidated_leaf_node_ids: invalidated,
        }
    }

    /// The progress with an attempt at a leaf gate.
    pub open spec fn with_leaf_attempt(self, attempt: RefineGateAttemptModel) -> RefineGateProgressModel {
        RefineGateProgressModel {
            report: RefineGateExecutionReportModel {
                leaf_attempts: self.report.leaf_attempts.push(attempt),
                ..self.report
            },
            ..self
        }
    }

    /// The progress with an attempt at a frontier gate.
    pub open spec fn with_frontier_attempt(self, attempt: RefineGateAttemptModel) -> RefineGateProgressModel {
        RefineGateProgressModel {
            report: RefineGateExecutionReportModel {
                frontier_attempts: self.report.frontier_attempts.push(attempt),
                ..self.report
            },
            ..self
        }
    }

    /// The progress with the gates stopped by issues.
    pub open spec fn stopped(self, issues: Seq<ReviewIssueModel>) -> RefineGateProgressModel {
        RefineGateProgressModel { report: self.report.stopped_by(issues), finished: true, ..self }
    }

    /// The progress after a gate could not be run: it is tried again, unless
    /// that was the last try.
    pub open spec fn failed(
        self,
        max_retries: u8,
        gate_kind: RefineGateKind,
        node_id: Seq<char>,
        error: Seq<char>,
    ) -> RefineGateProgressModel {
        let noted = RefineGateProgressModel {
            first_failure_fingerprint: match self.first_failure_fingerprint {
                Some(first) => Some(first),
                None => Some(self.fingerprint),
            },
            ..self
        };
        if self.attempt_index >= max_retries {
            RefineGateProgressModel {
                report: self.report.exhausted_by(
                    RefineGateInvocationFailureModel {
                        gate_kind,
                        target_node_id: node_id,
                        attempt_index: self.attempt_index,
                        error,
                        content_fingerprint: self.fingerprint,
                    },
                ),
                finished: true,
                ..noted
            }
        } else {
            RefineGateProgressModel { attempt_index: (self.attempt_index + 1) as u8, ..noted }
        }
    }

    /// A leaf gate is due.
    pub open spec fn awaits_leaf(self, request: RunRefineGateRevalidationRequestModel) -> bool {
        !self.finished && self.leaf_index < request.registered_targets.leaf_targets.len()
    }

    /// A frontier gate is due: every leaf gate has passed.
    pub open spec fn awaits_frontier(self, request: RunRefineGateRevalidationRequestModel) -> bool {
        !self.finished && self.leaf_index >= request.registered_targets.leaf_targets.len()
            && self.frontier_index < request.registered_targets.frontier_targets.len()
    }

    /// The progress after the answer of a leaf gate.
    pub open spec fn leaf_answered(
        self,
        request: RunRefineGateRevalidationRequestModel,
        answer: Result<RunLeafReviewGateResponseModel, PlanErrorModel>,
    ) -> RefineGateProgressModel {
        if !self.awaits_leaf(request) {
            self
        } else {
            let target = request.registered_targets.leaf_targets[self.leaf_index as int];
            let kind = RefineGateKind::Leaf;
            match answer {
                Ok(response) => if response.passed {
                    RefineGateProgressModel {
                        leaf_index: (self.leaf_index + 1) as usize,
                        attempt_index: 1,
                        first_failure_fingerprint: None,
                        ..self.with_leaf_attempt(
                            self.attempt(
                                kind,
                                target.node_id,
                                target.relative_path,
                                RefineGateAttemptOutcomeModel::Passed {
                                    gate_run_id: response.gate_run_id,
                                    verdict: response.verdict,
                                    summary: response.summary,
                                },
                                Seq::empty(),
                            ),
                        )
                    }
                } else {
                    self.with_leaf_attempt(
                        self.attempt(
                            kind,
                            target.node_id,
                            target.relative_path,
                            unpassed_outcome(response.verdict, response.summary, response.issues),
                            Seq::empty(),
                        ),
                    ).stopped(response.issues)
                },
                Err(error) => self.with_leaf_attempt(
                    self.attempt(
                        kind,
                        target.node_id,
                        target.relative_path,
                        RefineGateAttemptOutcomeModel::InvocationFailure { error: error.message },
                        Seq::empty(),
                    ),
                ).failed(
                    request.retry_policy.max_invocation_retries,
                    kind,
                    target.node_id,
                    error.message,
                ),
            }
        }
    }

    /// The progress after the answer of a frontier gate, and why the answer is
    /// not accepted.
    pub open spec fn frontier_answered(
        self,
        request: RunRefineGateRevalidationRequestModel,
        answer: Result<RunFrontierReviewGateResponseModel, PlanErrorModel>,
    ) -> (RefineGateProgressModel, Option<RefineGateExecutionErrorModel>) {
        if !self.awaits_frontier(request) {
            (self, None)
        } else {
            let target = request.registered_targets.frontier_targets[self.frontier_index as int];
            let kind = RefineGateKind::Frontier;
            match answer {
                Ok(response) => if response.passed {
                    match response_problem(response) {
                        Some(error) => (self, Some(error)),
                        None => (
                            RefineGateProgressModel {
                                frontier_index: (self.frontier_index + 1) as usize,
                                attempt_index: 1,
                                first_failure_fingerprint: None,
                                ..self.with_frontier_attempt(
                                    self.attempt(
                                        kind,
                                        target.parent_node_id,
                                        target.parent_relative_path,
                                        RefineGateAttemptOutcomeModel::Passed {
                                            gate_run_id: response.gate_run_id,
                                            verdict: response.verdict,
                                            summary: response.summary,
                                        },
                                        Seq::empty(),
                                    ),
                                )
                            },
                            None,
                        ),
                    }
                } else {
                    let told = self.with_frontier_attempt(
                        self.attempt(
                            kind,
                            target.parent_node_id,
                            target.parent_relative_path,
                            unpassed_outcome(response.verdict, response.summary, response.issues),
                            response.invalidated_leaf_node_ids,
                        ),
                    );
                    (
                        RefineGateProgressModel {
                            report: RefineGateExecutionReportModel {
                                invalidated_leaf_node_ids: with_all_unique(
                                    told.report.invalidated_leaf_node_ids,
                                    response.invalidated_leaf_node_ids,
                                ),
                                ..told.report
                            },
                            ..told
                        }.stopped(response.issues),
                        None,
                    )
                },
                Err(error) => (
                    self.with_frontier_attempt(
                        self.attempt(
                            kind,
                            target.parent_node_id,
                            target.parent_relative_path,
                            RefineGateAttemptOutcomeModel::InvocationFailure {
                                error: error.message,
                            },
                            Seq::empty(),
                        ),
                    ).failed(
                        request.retry_policy.max_invocation_retries,
                        kind,
                        target.parent_node_id,
                        error.message,
                    ),
                    None,
                ),
            }
        }
    }

    /// The content of a target changed since its gate first could not be run.
    pub open spec fn content_changed(self, fingerprint: Seq<char>, path: Seq<char>) -> Option<
        RefineGateExecutionErrorModel,
    > {
        match self.first_failure_fingerprint {
            Some(first) => if first != fingerprint {
                Some(invalid_targets("content fingerprint changed before retry for "@ + path))
            } else {
                None
            },
            None => None,
        }
    }

    /// A leaf is reviewed next.
    pub open spec fn next_leaf(
        self,
        files: PlanFilesModel,
        request: RunRefineGateRevalidationRequestModel,
        context: ContextTextsModel,
    ) -> (RefineGateProgressModel, Result<GateStepModel, RefineGateExecutionErrorModel>) {
        let target = request.registered_targets.leaf_targets[self.leaf_index as int];
        match leaf_fingerprint_of(files, target.relative_path) {
            Err(error) => (self, Err(error)),
            Ok(fingerprint) => match self.content_changed(fingerprint, target.relative_path) {
                Some(error) => (self, Err(error)),
                None => (
                    RefineGateProgressModel { fingerprint, ..self },
                    Ok(
                        GateStepModel::RunLeaf(
                            RunLeafReviewGateRequestModel {
                                plan_id: request.plan_id,
                                node_id: target.node_id,
                                planner_mode: request.planner_mode,
                                refine_revalidation_context: Some(
                                    context_text(
                                        "leaf"@,
                                        target.relative_path,
                                        target.node_id,
                                        target.parent_relative_path,
                                        context,
                                    ),
                                ),
                            },
                        ),
                    ),
                ),
            },
        }
    }

    /// Where the parent of a frontier target stands: looked up before its
    /// first try.
    pub open spec fn parent_of_target(
        self,
        runtime: RuntimeModel,
        request: RunRefineGateRevalidationRequestModel,
    ) -> Result<Option<Seq<char>>, RefineGateExecutionErrorModel> {
        let target = request.registered_targets.frontier_targets[self.frontier_index as int];
        if self.attempt_index == 1 {
            match runtime.inspection(by_id(request.plan_id, target.parent_node_id)) {
                Err(error) => Err(
                    invalid_targets(
                        "failed to inspect frontier target parent `"@ + target.parent_relative_path
                            + "`: "@ + error.message,
                    ),
                ),
                Ok(node) => Ok(node.parent_relative_path),
            }
        } else {
            Ok(self.target_parent)
        }
    }

    /// A parent is reviewed next.
    pub open spec fn next_frontier(
        self,
        runtime: RuntimeModel,
        files: PlanFilesModel,
        request: RunRefineGateRevalidationRequestModel,
        context: ContextTextsModel,
    ) -> (RefineGateProgressModel, Result<GateStepModel, RefineGateExecutionErrorModel>) {
        let target = request.registered_targets.frontier_targets[self.frontier_index as int];
        match self.parent_of_target(runtime, request) {
            Err(error) => (self, Err(error)),
            Ok(target_parent) => match frontier_fingerprint_of(
                runtime,
                files,
                request.plan_id,
                target,
            ) {
                Err(error) => (self, Err(error)),
                Ok(fingerprint) => match self.content_changed(
                    fingerprint,
                    target.parent_relative_path,
                ) {
                    Some(error) => (self, Err(error)),
                    None => (
                        RefineGateProgressModel { fingerprint, target_parent, ..self },
                        Ok(
                            GateStepModel::RunFrontier(
                                RunFrontierReviewGateRequestModel {
                                    plan_id: request.plan_id,
                                    parent_node_id: target.parent_node_id,
                                    planner_mode: request.planner_mode,
                                    refine_revalidation_context: Some(
                                        context_text(
                                            "frontier"@,
                                            target.parent_relative_path,
                                            target.parent_node_id,
                                            target_parent,
                                            context,
                                        ),
                                    ),
                                    refine_invalidatable_leaf_node_ids: None,
                                },
                            ),
                        ),
                    ),
                },
            },
        }
    }

    /// What to do next.
    pub open spec fn next(
        self,
        runtime: RuntimeModel,
        files: PlanFilesModel,
        request: RunRefineGateRevalidationRequestModel,
        context: ContextTextsModel,
    ) -> (RefineGateProgressModel, Result<GateStepModel, RefineGateExecutionErrorModel>) {
        if self.awaits_leaf(request) {
            self.next_leaf(files, request, context)
        } else if self.awaits_frontier(request) {
            self.next_frontier(runtime, files, request, context)
        } else {
            (self, Ok(GateStepModel::Finish(self.report)))
        }
    }

    /// The progress after an answer, and what to do next.
    pub open spec fn stepped(
        self,
        runtime: RuntimeModel,
        files: PlanFilesModel,
        request: RunRefineGateRevalidationRequestModel,
        context: ContextTextsModel,
        answer: GateAnswerModel,
    ) -> (RefineGateProgressModel, Result<GateStepModel, RefineGateExecutionErrorModel>) {
        match answer {
            GateAnswerModel::Started => match request.targets_problem(runtime, files) {
                Some(error) => (self, Err(error)),
                None => RefineGateProgressModel::start().next(runtime, files, request, context),
            },
            GateAnswerModel::Leaf(result) => self.leaf_answered(request, result).next(
                runtime,
                files,
                request,
                context,
            ),
            GateAnswerModel::Frontier(result) => {
                let (told, problem) = self.frontier_answered(request, result);
                match problem {
                    Some(error) => (told, Err(error)),
                    None => told.next(runtime, files, request, context),
                }
            },
        }
    }
}

/// A parent that passed takes back no approval.
pub open spec fn response_problem(response: RunFrontierReviewGateResponseModel) -> Option<
    RefineGateExecutionErrorModel,
> {
    if response.passed && response.invalidated_leaf_node_ids.len() > 0 {
        Some(invalid_targets("passed frontier target must not invalidate leaf approvals"@))
    } else {
        None
    }
}

/// Checks that a parent that passed takes back no approval.
pub fn validate_frontier_response_contract(response: &RunFrontierReviewGateResponse) -> (r: Result<
    (),
    RefineGateExecutionError,
>)
    ensures
        outcome(r) == decided(response_problem(response.deep_view())),
{
    if response.passed && response.invalidated_leaf_node_ids.len() > 0 {
        return Err(invalid("passed frontier target must not invalidate leaf approvals"));
    }
    Ok(())
}

fn no_ids() -> (r: Vec<String>)
    ensures
        r.deep_view() == Seq::<Seq<char>>::empty(),
{
    let out: Vec<String> = Vec::new();
    assert(out.deep_view() =~= Seq::empty());
    out
}

fn outcome_of_unpassed(verdict: &str, summary: &str, issues: &Vec<ReviewIssue>) -> (r:
    RefineGateAttemptOutcome)
    ensures
        r.deep_view() == unpassed_outcome(verdict@, summary@, issues.deep_view()),
{
    if issues_ask_user(issues) {
        RefineGateAttemptOutcome::PauseForUserDecision {
            summary: summary.to_owned(),
            issues: copy_issues(issues),
        }
    } else {
        RefineGateAttemptOutcome::ReviewIssues {
            verdict: verdict.to_owned(),
            issues: copy_issues(issues),
        }
    }
}

impl RefineGateProgress {
    /// Nothing was run yet.
    pub fn start() -> (r: RefineGateProgress)
        ensures
            r.deep_view() == RefineGateProgressModel::start(),
    {
        let r: RefineGateProgress = RefineGateProgress {
            report: RefineGateExecutionReport {
                status: RefineGateExecutionStatus::Passed,
                leaf_attempts: Vec::new(),
                frontier_attempts: Vec::new(),
                exhausted_invocation_retries: Vec::new(),
                blocked_by_review_issues: Vec::new(),
                paused_for_user_decision: None,
                invalidated_leaf_node_ids: Vec::new(),
            },
            finished: false,
            leaf_index: 0,
            frontier_index: 0,
            attempt_index: 1,
            first_failure_fingerprint: None,
            fingerprint: String::new(),
            target_parent: None,
        };
        assert(r.report.leaf_attempts.deep_view() =~= Seq::empty());
        assert(r.report.frontier_attempts.deep_view() =~= Seq::empty());
        assert(r.report.exhausted_invocation_retries.deep_view() =~= Seq::empty());
        assert(r.report.blocked_by_review_issues.deep_view() =~= Seq::empty());
        assert(r.report.invalidated_leaf_node_ids.deep_view() =~= Seq::empty());
        assert(r.fingerprint@ =~= Seq::empty());
        r
    }

    fn make_attempt(
        &self,
        gate_kind: RefineGateKind,
        node_id: &str,
        path: &str,
        outcome: RefineGateAttemptOutcome,
        invalidated: Vec<String>,
    ) -> (r: RefineGateAttempt)
        ensures
            r.deep_view() == self.deep_view().attempt(
                gate_kind,
                node_id@,
                path@,
                outcome.deep_view(),
                invalidated.deep_view(),
            ),
    {
        RefineGateAttempt {
            gate_kind,
            target_node_id: node_id.to_owned(),
            target_relative_path: path.to_owned(),
            attempt_index: self.attempt_index,
            outcome,
            content_fingerprint: self.fingerprint.clone(),
            invalidated_leaf_node_ids: invalidated,
        }
    }

    fn push_leaf_attempt(&mut self, attempt: RefineGateAttempt)
        ensures
            final(self).deep_view() == old(self).deep_view().with_leaf_attempt(attempt.deep_view()),
    {
        let ghost before = self.report.leaf_attempts.deep_view();
        let ghost model = attempt.deep_view();
        self.report.leaf_attempts.push(attempt);
        assert(self.report.leaf_attempts.deep_view() =~= before.push(model));
    }

    fn push_frontier_attempt(&mut self, attempt: RefineGateAttempt)
        ensures
            final(self).deep_view() == old(self).deep_view().with_frontier_attempt(
                attempt.deep_view(),
            ),
    {
        let ghost before = self.report.frontier_attempts.deep_view();
        let ghost model = attempt.deep_view();
        self.report.frontier_attempts.push(attempt);
        assert(self.report.frontier_attempts.deep_view() =~= before.push(model));
    }

    fn stop(&mut self, issues: &Vec<ReviewIssue>)
        ensures
            final(self).deep_view() == old(self).deep_view().stopped(issues.deep_view()),
    {
        if issues_ask_user(issues) {
            self.report.status = RefineGateExecutionStatus::PausedForUserDecision;
            self.report.paused_for_user_decision = first_question(issues);
        } else {
            let ghost before = self.report.blocked_by_review_issues.deep_view();
            let mut more: Vec<ReviewIssue> = copy_issues(issues);
            self.report.status = RefineGateExecutionStatus::BlockedByReviewIssues;
            self.report.blocked_by_review_issues.append(&mut more);
            assert(self.report.blocked_by_review_issues.deep_view() =~= before
                + issues.deep_view());
        }
        self.finished = true;
    }

    fn fail(&mut self, max_retries: u8, gate_kind: RefineGateKind, node_id: &str, error: &str)
        ensures
            final(self).deep_view() == old(self).deep_view().failed(
                max_retries,
                gate_kind,
                node_id@,
                error@,
            ),
    {
        if self.first_failure_fingerprint.is_none() {
            self.first_failure_fingerprint = Some(self.fingerprint.clone());
        }
        if self.attempt_index >= max_retries {
            let ghost before = self.report.exhausted_invocation_retries.deep_view();
            let failure: RefineGateInvocationFailure = RefineGateInvocationFailure {
                gate_kind,
                target_node_id: node_id.to_owned(),
                attempt_index: self.attempt_index,
                error: error.to_owned(),
                content_fingerprint: self.fingerprint.clone(),
            };
            let ghost model = failure.deep_view();
            self.report.exhausted_invocation_retries.push(failure);
            assert(self.report.exhausted_invocation_retries.deep_view() =~= before.push(model));
            self.report.status = RefineGateExecutionStatus::ExhaustedInvocationRetries;
            self.finished = true;
        } else {
            self.attempt_index = self.attempt_index + 1;
        }
    }

    fn answer_leaf(
        &mut self,
        request: &RunRefineGateRevalidationRequest,
        answer: &Result<RunLeafReviewGateResponse, PlanError>,
    )
        ensures
            final(self).deep_view() == old(self).deep_view().leaf_answered(
                request.deep_view(),
                outcome(*answer),
            ),
    {
        if self.finished || self.leaf_index >= request.registered_targets.leaf_targets.len() {
            return;
        }
        let target: &RegisteredRefineLeafTarget =
            &request.registered_targets.leaf_targets[self.leaf_index];
        assert(request.deep_view().registered_targets.leaf_targets[self.leaf_index as int]
            == target.deep_view());
        let node_id: &str = target.node_id.as_str();
        let path: &str = target.relative_path.as_str();
        match answer {
            Ok(response) => {
                if response.passed {
                    let attempt: RefineGateAttempt = self.make_attempt(
                        RefineGateKind::Leaf,
                        node_id,
                        path,
                        RefineGateAttemptOutcome::Passed {
                            gate_run_id: response.gate_run_id.clone(),
                            verdict: response.verdict.clone(),
                            summary: response.summary.clone(),
                        },
                        no_ids(),
                    );
                    self.push_leaf_attempt(attempt);
                    self.leaf_index = self.leaf_index + 1;
                    self.attempt_index = 1;
                    self.first_failure_fingerprint = None;
                } else {
                    let attempt: RefineGateAttempt = self.make_attempt(
                        RefineGateKind::Leaf,
                        node_id,
                        path,
                        outcome_of_unpassed(
                            response.verdict.as_str(),
                            response.summary.as_str(),
                            &response.issues,
                        ),
                        no_ids(),
                    );
                    self.push_leaf_attempt(attempt);
                    self.stop(&response.issues);
                }
            },
            Err(error) => {
                let attempt: RefineGateAttempt = self.make_attempt(
                    RefineGateKind::Leaf,
                    node_id,
                    path,
                    RefineGateAttemptOutcome::InvocationFailure { error: error.message.clone() },
                    no_ids(),
                );
                self.push_leaf_attempt(attempt);
                self.fail(
                    request.retry_policy.max_invocation_retries,
                    RefineGateKind::Leaf,
                    node_id,
                    error.message.as_str(),
                );
            },
        }
    }

    fn answer_frontier(
        &mut self,
        request: &RunRefineGateRevalidationRequest,
        answer: &Result<RunFrontierReviewGateResponse, PlanError>,
    ) -> (r: Result<(), RefineGateExecutionError>)
        ensures
            final(self).deep_view() == old(self).deep_view().frontier_answered(
                request.deep_view(),
                outcome(*answer),
            ).0,
            outcome(r) == decided(
                old(self).deep_view().frontier_answered(request.deep_view(), outcome(*answer)).1,
            ),
    {
        if self.finished || self.leaf_index < request.registered_targets.leaf_targets.len()
            || self.frontier_index >= request.registered_targets.frontier_targets.len() {
            return Ok(());
        }
        let target: &RegisteredRefineFrontierTarget =
            &request.registered_targets.frontier_targets[self.frontier_index];
        assert(request.deep_view().registered_targets.frontier_targets[self.frontier_index as int]
            == target.deep_view());
        let node_id: &str = target.parent_node_id.as_str();
        let path: &str = target.parent_relative_path.as_str();
        match answer {
            Ok(response) => {
                if response.passed {
                    validate_frontier_response_contract(response)?;
                    let attempt: RefineGateAttempt = self.make_attempt(
                        RefineGateKind::Frontier,
                        node_id,
                        path,
                        RefineGateAttemptOutcome::Passed {
                            gate_run_id: response.gate_run_id.clone(),
                            verdict: response.verdict.clone(),
                            summary: response.summary.clone(),
                        },
                        no_ids(),
                    );
                    self.push_frontier_attempt(attempt);
                    self.frontier_index = self.frontier_index + 1;
                    self.attempt_index = 1;
                    self.first_failure_fingerprint = None;
                } else {
                    let attempt: RefineGateAttempt = self.make_attempt(
                        RefineGateKind::Frontier,
                        node_id,
                        path,
                        outcome_of_unpassed(
                            response.verdict.as_str(),
                            response.summary.as_str(),
                            &response.issues,
                        ),
                        copy_list(&response.invalidated_leaf_node_ids),
                    );
                    self.push_frontier_attempt(attempt);
                    push_all_unique(
                        &mut self.report.invalidated_leaf_node_ids,
                        &response.invalidated_leaf_node_ids,
                    );
                    self.stop(&response.issues);
                }
            },
            Err(error) => {
                let attempt: RefineGateAttempt = self.make_attempt(
                    RefineGateKind::Frontier,
                    node_id,
                    path,
                    RefineGateAttemptOutcome::InvocationFailure { error: error.message.clone() },
                    no_ids(),
                );
                self.push_frontier_attempt(attempt);
                self.fail(
                    request.retry_policy.max_invocation_retries,
                    RefineGateKind::Frontier,
                    node_id,
                    error.message.as_str(),
                );
            },
        }
        Ok(())
    }

    fn check_content(&self, fingerprint: &str, path: &str) -> (r: Result<
        (),
        RefineGateExecutionError,
    >)
        ensures
            outcome(r) == decided(self.deep_view().content_changed(fingerprint@, path@)),
    {
        match &self.first_failure_fingerprint {
            Some(first) => {
                if same_text(first.as_str(), fingerprint) {
                    Ok(())
                } else {
                    Err(
                        RefineGateExecutionError::InvalidRegisteredTargets {
                            reason: concat2("content fingerprint changed before retry for ", path),
                        },
                    )
                }
            },
            None => Ok(()),
        }
    }

    fn run_leaf_target(
        &mut self,
        files: &PlanFiles,
        request: &RunRefineGateRevalidationRequest,
        context: &ContextTexts,
    ) -> (r: Result<GateStep, RefineGateExecutionError>)
        requires
            old(self).deep_view().awaits_leaf(request.deep_view()),
        ensures
            (final(self).deep_view(), outcome(r)) == old(self).deep_view().next_leaf(
                files.deep_view(),
                request.deep_view(),
                context.deep_view(),
            ),
    {
        let target: &RegisteredRefineLeafTarget =
            &request.registered_targets.leaf_targets[self.leaf_index];
        assert(request.deep_view().registered_targets.leaf_targets[self.leaf_index as int]
            == target.deep_view());
        let path: &str = target.relative_path.as_str();
        let fingerprint: String = leaf_fingerprint(files, path)?;
        self.check_content(fingerprint.as_str(), path)?;
        self.fingerprint = fingerprint;
        Ok(
            GateStep::RunLeaf(
                RunLeafReviewGateRequest {
                    plan_id: request.plan_id.clone(),
                    node_id: target.node_id.clone(),
                    planner_mode: request.planner_mode,
                    refine_revalidation_context: Some(
                        render_refine_revalidation_context(
                            "leaf",
                            path,
                            target.node_id.as_str(),
                            &target.parent_relative_path,
                            context,
                        ),
                    ),
                },
            ),
        )
    }

    fn run_frontier_target(
        &mut self,
        runtime: &Runtime,
        files: &PlanFiles,
        request: &RunRefineGateRevalidationRequest,
        context: &ContextTexts,
    ) -> (r: Result<GateStep, RefineGateExecutionError>)
        requires
            old(self).deep_view().awaits_frontier(request.deep_view()),
        ensures
            (final(self).deep_view(), outcome(r)) == old(self).deep_view().next_frontier(
                runtime.deep_view(),
                files.deep_view(),
                request.deep_view(),
                context.deep_view(),
            ),
    {
        let target: &RegisteredRefineFrontierTarget =
            &request.registered_targets.frontier_targets[self.frontier_index];
        assert(request.deep_view().registered_targets.frontier_targets[self.frontier_index as int]
            == target.deep_view());
        let path: &str = target.parent_relative_path.as_str();
        let node_id: &str = target.parent_node_id.as_str();
        let target_parent: Option<String> = if self.attempt_index == 1 {
            match inspect_by_id(runtime, request.plan_id.as_str(), node_id) {
                Ok(node) => node.parent_relative_path,
                Err(error) => {
                    let start: String = concat3(
                        "failed to inspect frontier target parent `",
                        path,
                        "`: ",
                    );
                    return Err(
                        RefineGateExecutionError::InvalidRegisteredTargets {
                            reason: concat2(start.as_str(), error.message.as_str()),
                        },
                    );
                },
            }
        } else {
            self.target_parent.clone()
        };
        let fingerprint: String = frontier_fingerprint(runtime, files, request, target)?;
        self.check_content(fingerprint.as_str(), path)?;
        let text: String = render_refine_revalidation_context(
            "frontier",
            path,
            node_id,
            &target_parent,
            context,
        );
        self.fingerprint = fingerprint;
        self.target_parent = target_parent;
        Ok(
            GateStep::RunFrontier(
                RunFrontierReviewGateRequest {
                    plan_id: request.plan_id.clone(),
                    parent_node_id: target.parent_node_id.clone(),
                    planner_mode: request.planner_mode,
                    refine_revalidation_context: Some(text),
                    refine_invalidatable_leaf_node_ids: None,
                },
            ),
        )
    }

    fn run_next(
        &mut self,
        runtime: &Runtime,
        files: &PlanFiles,
        request: &RunRefineGateRevalidationRequest,
        context: &ContextTexts,
    ) -> (r: Result<GateStep, RefineGateExecutionError>)
        ensures
            (final(self).deep_view(), outcome(r)) == old(self).deep_view().next(
                runtime.deep_view(),
                files.deep_view(),
                request.deep_view(),
                context.deep_view(),
            ),
    {
        if !self.finished && self.leaf_index < request.registered_targets.leaf_targets.len() {
            self.run_leaf_target(files, request, context)
        } else if !self.finished && self.frontier_index
            < request.registered_targets.frontier_targets.len() {
            self.run_frontier_target(runtime, files, request, context)
        } else {
            Ok(GateStep::Finish(self.report.clone()))
        }
    }
}

/// One step of running the gates of a rewrite: takes in what the last gate
/// answered, and says which gate to run next, or how it all ended. Leaf gates
/// come first; a frontier gate is run when all leaf gates have passed.
pub fn run_refine_gate_revalidation(
    runtime: &Runtime,
    files: &PlanFiles,
    request: &RunRefineGateRevalidationRequest,
    context: &ContextTexts,
    progress: &mut RefineGateProgress,
    answer: &GateAnswer,
) -> (r: Result<GateStep, RefineGateExecutionError>)
    ensures
        (final(progress).deep_view(), outcome(r)) == old(progress).deep_view().stepped(
            runtime.deep_view(),
            files.deep_view(),
            request.deep_view(),
            context.deep_view(),
            answer.deep_view(),
        ),
{
    match answer {
        GateAnswer::Started => {
            validate_registered_targets(runtime, files, request)?;
            *progress = RefineGateProgress::start();
        },
        GateAnswer::Leaf(result) => {
            progress.answer_leaf(request, result);
        },
        GateAnswer::Frontier(result) => {
            progress.answer_frontier(request, result)?;
        },
    }
    progress.run_next(runtime, files, request, context)
}

} // verus!
