//! Tracking the targets of gates in the runtime.
use super::gate_targets::{
    has_reason, is_parent_shaped, push_all_unique, with_all_unique, with_reason,
};
use super::registration_types::{
    RefineFrontierRegistrationCandidate, RefineFrontierRegistrationCandidateModel,
    RefineGatePreparationError, RefineGatePreparationErrorModel, RefineGateTargetReason,
    RefineLeafRegistrationCandidate, RefineLeafRegistrationCandidateModel,
    RefineParentRegistrationCandidate, RefineParentRegistrationCandidateModel,
    RegisterRefineGateTargetsRequest, RegisterRefineGateTargetsRequestModel,
    RegisteredRefineFrontierTarget, RegisteredRefineFrontierTargetModel,
    RegisteredRefineGateTargets, RegisteredRefineGateTargetsModel, RegisteredRefineLeafTarget,
    RegisteredRefineLeafTargetModel, RegisteredRefineParentTarget,
    RegisteredRefineParentTargetModel,
};
use crate::api::{
    EnsureNodeIdRequest, EnsureNodeIdRequestModel, InspectNodeRequest, InspectNodeRequestModel,
    InspectNodeResponse, InspectNodeResponseModel, ListChildrenRequest, ListChildrenRequestModel,
    ListChildrenResponse, ListChildrenResponseModel, NodeKind, OpenPlanRequest,
    OpenPlanRequestModel, ReconcileParentChildLinksRequest, ReconcileParentChildLinksRequestModel,
};
use crate::error::{outcome, PlanErrorModel};
use crate::ids::{are_random_ids, is_random_id, new_ids};
use crate::files::{PlanFiles, PlanFilesModel};
use crate::paths::{
    components, file_name, file_stem, is_plan_markdown, join_path, joined_path, parent_path,
    path_components, path_file_name, path_file_stem, path_is_plan_markdown, path_parent,
    path_parent_name,
};
use crate::runtime::child_links::{child_link_paths, parse_child_node_link_paths};
use crate::runtime::store::{Runtime, RuntimeModel};
use crate::text::{
    chars_of, concat2, concat5, copy_list, debug_optional, format_optional, is_text, list_has,
    same_optional_text, same_text,
};
use vstd::prelude::*;

verus! {

// ---------------------------------------------------------------------
// Paths
// ---------------------------------------------------------------------
/// The outcome of a check that may find a problem.
pub open spec fn settled(problem: Option<RefineGatePreparationErrorModel>) -> Result<
    (),
    RefineGatePreparationErrorModel,
> {
    match problem {
        Some(error) => Err(error),
        None => Ok(()),
    }
}

/// A candidate without reasons.
pub open spec fn reasons_problem(
    kind: Seq<char>,
    path: Seq<char>,
    reasons: Seq<RefineGateTargetReason>,
) -> Option<RefineGatePreparationErrorModel> {
    if reasons.len() == 0 {
        Some(
            RefineGatePreparationErrorModel::EmptySelectionReasons {
                candidate_kind: kind,
                relative_path: path,
            },
        )
    } else {
        None
    }
}

/// The path is not the one that is wanted.
pub open spec fn invalid_path(field: Seq<char>, path: Seq<char>) -> RefineGatePreparationErrorModel {
    RefineGatePreparationErrorModel::InvalidCanonicalPath { field, relative_path: path }
}

/// The path is no markdown path of the plan.
pub open spec fn markdown_problem(field: Seq<char>, path: Seq<char>) -> Option<
    RefineGatePreparationErrorModel,
> {
    if is_plan_markdown(path) {
        None
    } else {
        Some(invalid_path(field, path))
    }
}

/// The path is not that of a leaf.
pub open spec fn leaf_problem(field: Seq<char>, path: Seq<char>) -> Option<
    RefineGatePreparationErrorModel,
> {
    if is_plan_markdown(path) && !is_parent_shaped(path) {
        None
    } else {
        Some(invalid_path(field, path))
    }
}

/// One of the paths from `i` on is no markdown path of the plan.
pub open spec fn markdown_problem_from(
    field: Seq<char>,
    paths: Seq<Seq<char>>,
    i: int,
) -> Option<RefineGatePreparationErrorModel>
    decreases paths.len() - i,
{
    if i >= paths.len() {
        None
    } else {
        match markdown_problem(field, paths[i]) {
            Some(error) => Some(error),
            None => markdown_problem_from(field, paths, i + 1),
        }
    }
}

/// Where the parent of a leaf would stand.
pub open spec fn expected_parent(path: Seq<char>) -> Seq<char> {
    match parent_path(path) {
        None => Seq::empty(),
        Some(directory) => match file_name(directory) {
            None => Seq::empty(),
            Some(name) => joined_path(directory, name + ".md"@),
        },
    }
}

/// What the runtime knows of the node at a path.
pub open spec fn at_path(plan_id: Seq<char>, path: Seq<char>) -> InspectNodeRequestModel {
    InspectNodeRequestModel { plan_id, node_id: None, relative_path: Some(path) }
}

impl RuntimeModel {
    /// The parent node at a path.
    pub open spec fn parent_at(self, plan_id: Seq<char>, path: Seq<char>) -> Option<
        InspectNodeResponseModel,
    > {
        match self.inspection(at_path(plan_id, path)) {
            Ok(node) => if node.node_kind == NodeKind::Parent {
                Some(node)
            } else {
                None
            },
            Err(_) => None,
        }
    }

    /// The path is that of the root of the plan.
    pub open spec fn is_plan_root_path(self, plan_id: Seq<char>, path: Seq<char>) -> bool {
        match file_stem(path) {
            Some(plan_name) => components(path).len() == 1 && (self.plan_opened(
                OpenPlanRequestModel { plan_name },
            ) matches Ok(plan) && plan.plan_id == plan_id),
            None => false,
        }
    }

    /// The path is not that of a parent.
    pub open spec fn parent_problem(
        self,
        plan_id: Seq<char>,
        field: Seq<char>,
        path: Seq<char>,
    ) -> Option<RefineGatePreparationErrorModel> {
        if is_plan_markdown(path) && (is_parent_shaped(path) || self.is_plan_root_path(
            plan_id,
            path,
        )) {
            None
        } else {
            Some(invalid_path(field, path))
        }
    }

    /// The paths that the markdown of a parent links.
    pub open spec fn linked_paths(
        self,
        files: PlanFilesModel,
        plan_id: Seq<char>,
        parent: Seq<char>,
    ) -> Result<Seq<Seq<char>>, RefineGatePreparationErrorModel> {
        match self.root_of_plan(plan_id) {
            Err(error) => Err(registration_failed(parent, error.message)),
            Ok(_) => match files.read(parent) {
                Err(source) => Err(registration_failed(parent, source)),
                Ok(markdown) => match child_link_paths(parent, markdown) {
                    Err(error) => Err(registration_failed(parent, error.message)),
                    Ok(links) => Ok(links),
                },
            },
        }
    }

    /// The parent that a candidate names is neither tracked nor to be tracked.
    pub open spec fn unknown_parent(
        self,
        plan_id: Seq<char>,
        path: Seq<char>,
        parent: Seq<char>,
        settled_parents: Seq<Seq<char>>,
    ) -> Option<RefineGatePreparationErrorModel> {
        if settled_parents.contains(parent) || self.parent_at(plan_id, parent) is Some {
            None
        } else {
            Some(
                RefineGatePreparationErrorModel::MissingParentRegistration {
                    child_relative_path: path,
                    parent_relative_path: parent,
                },
            )
        }
    }

    /// The parent that a parent candidate names does not do.
    pub open spec fn parent_of_parent_problem(
        self,
        plan_id: Seq<char>,
        path: Seq<char>,
        parent: Option<Seq<char>>,
        settled_parents: Seq<Seq<char>>,
    ) -> Option<RefineGatePreparationErrorModel> {
        match parent {
            None => None,
            Some(parent) => match self.parent_problem(
                plan_id,
                "parent_relative_path"@,
                parent,
            ) {
                Some(error) => Some(error),
                None => self.unknown_parent(plan_id, path, parent, settled_parents),
            },
        }
    }

    /// The parent that a leaf candidate names, or names not, does not do.
    pub open spec fn parent_of_leaf_problem(
        self,
        plan_id: Seq<char>,
        path: Seq<char>,
        parent: Option<Seq<char>>,
        settled_parents: Seq<Seq<char>>,
    ) -> Option<RefineGatePreparationErrorModel> {
        match parent {
            None => if !path.contains('/') {
                None
            } else {
                Some(
                    RefineGatePreparationErrorModel::MissingParentRegistration {
                        child_relative_path: path,
                        parent_relative_path: expected_parent(path),
                    },
                )
            },
            Some(parent) => match self.parent_problem(
                plan_id,
                "parent_relative_path"@,
                parent,
            ) {
                Some(error) => Some(error),
                None => self.unknown_parent(plan_id, path, parent, settled_parents),
            },
        }
    }

    /// The node that a candidate stands for is tracked as something else.
    pub open spec fn existing_problem(
        self,
        files: PlanFilesModel,
        plan_id: Seq<char>,
        path: Seq<char>,
        kind: NodeKind,
        parent: Option<Seq<char>>,
    ) -> Option<RefineGatePreparationErrorModel> {
        match self.inspection(at_path(plan_id, path)) {
            Err(_) => None,
            Ok(existing) => if existing.node_kind != kind {
                Some(
                    registration_failed(
                        path,
                        "existing node is `"@ + existing.node_kind.name()
                            + "`, but registration requested `"@ + kind.name() + "`"@,
                    ),
                )
            } else if existing.parent_relative_path == parent {
                None
            } else {
                let conflict = registration_failed(
                    path,
                    "existing node parent_relative_path "@ + debug_optional(
                        existing.parent_relative_path,
                    ) + " conflicts with requested parent_relative_path "@ + debug_optional(parent),
                );
                match parent {
                    None => Some(conflict),
                    Some(parent) => match self.linked_paths(files, plan_id, parent) {
                        Err(error) => Some(error),
                        Ok(links) => if links.contains(path) {
                            None
                        } else {
                            Some(conflict)
                        },
                    },
                }
            },
        }
    }

    /// A child that a frontier candidate names belongs to its parent: it is a
    /// candidate below it, it is linked there, or it is or was tracked there.
    pub open spec fn child_in_scope(
        self,
        plan_id: Seq<char>,
        candidate: RefineFrontierRegistrationCandidateModel,
        child: Seq<char>,
        links: Seq<Seq<char>>,
        known: Option<KnownCandidates>,
    ) -> bool {
        ||| known matches Some(candidates) && candidates.parent_of(child) == Some(
            Some(candidate.parent_relative_path),
        )
        ||| links.contains(child)
        ||| match self.inspection(at_path(plan_id, child)) {
            Ok(node) => node.parent_relative_path == Some(candidate.parent_relative_path) || (
            candidate.removed_child_relative_paths.contains(child)
                && node.parent_relative_path is None),
            Err(_) => candidate.removed_child_relative_paths.contains(child),
        }
    }

    /// The changed children from `i` on that do not belong to the parent,
    /// after those in `missing`.
    pub open spec fn missing_children_from(
        self,
        plan_id: Seq<char>,
        candidate: RefineFrontierRegistrationCandidateModel,
        links: Seq<Seq<char>>,
        known: Option<KnownCandidates>,
        i: int,
        missing: Seq<Seq<char>>,
    ) -> Result<Seq<Seq<char>>, RefineGatePreparationErrorModel>
        decreases candidate.changed_child_relative_paths.len() - i,
    {
        if i >= candidate.changed_child_relative_paths.len() {
            Ok(missing)
        } else {
            let child = candidate.changed_child_relative_paths[i];
            match markdown_problem("changed_child_relative_paths"@, child) {
                Some(error) => Err(error),
                None => self.missing_children_from(
                    plan_id,
                    candidate,
                    links,
                    known,
                    i + 1,
                    if self.child_in_scope(plan_id, candidate, child, links, known) {
                        missing
                    } else {
                        missing.push(child)
                    },
                ),
            }
        }
    }

    /// The children that a frontier candidate names do not do.
    pub open spec fn changed_children_problem(
        self,
        files: PlanFilesModel,
        plan_id: Seq<char>,
        candidate: RefineFrontierRegistrationCandidateModel,
        known: Option<KnownCandidates>,
    ) -> Option<RefineGatePreparationErrorModel> {
        match markdown_problem_from(
            "removed_child_relative_paths"@,
            candidate.removed_child_relative_paths,
            0,
        ) {
            Some(error) => Some(error),
            None => match self.linked_paths(files, plan_id, candidate.parent_relative_path) {
                Err(error) => Some(error),
                Ok(links) => match self.missing_children_from(
                    plan_id,
                    candidate,
                    links,
                    known,
                    0,
                    Seq::empty(),
                ) {
                    Err(error) => Some(error),
                    Ok(missing) => if missing.len() == 0 {
                        None
                    } else {
                        Some(
                            RefineGatePreparationErrorModel::IncoherentFrontierChildren {
                                parent_relative_path: candidate.parent_relative_path,
                                missing_child_relative_paths: missing,
                            },
                        )
                    },
                },
            },
        }
    }

    /// A frontier candidate has no reasons, or its path is not that of a
    /// parent.
    pub open spec fn frontier_problem(
        self,
        plan_id: Seq<char>,
        candidate: RefineFrontierRegistrationCandidateModel,
    ) -> Option<RefineGatePreparationErrorModel> {
        match reasons_problem("frontier"@, candidate.parent_relative_path, candidate.reasons) {
            Some(error) => Some(error),
            None => self.parent_problem(
                plan_id,
                "parent_relative_path"@,
                candidate.parent_relative_path,
            ),
        }
    }
}

/// The runtime refused a registration.
pub open spec fn registration_failed(
    path: Seq<char>,
    source: Seq<char>,
) -> RefineGatePreparationErrorModel {
    RefineGatePreparationErrorModel::RegistrationFailed { relative_path: path, source }
}

/// The nodes that are to be tracked.
pub struct KnownCandidates {
    pub parents: Seq<RefineParentRegistrationCandidateModel>,
    pub leaves: Seq<RefineLeafRegistrationCandidateModel>,
}

impl KnownCandidates {
    /// What the last of the first `n` parent candidates at a path names as its
    /// parent.
    pub open spec fn parent_of_parent(self, path: Seq<char>, n: int) -> Option<Option<Seq<char>>>
        decreases n,
    {
        if n <= 0 {
            None
        } else if self.parents[n - 1].relative_path == path {
            Some(self.parents[n - 1].parent_relative_path)
        } else {
            self.parent_of_parent(path, n - 1)
        }
    }

    /// What the last of the first `n` leaf candidates at a path names as its
    /// parent.
    pub open spec fn parent_of_leaf(self, path: Seq<char>, n: int) -> Option<Option<Seq<char>>>
        decreases n,
    {
        if n <= 0 {
            None
        } else if self.leaves[n - 1].relative_path == path {
            Some(self.leaves[n - 1].parent_relative_path)
        } else {
            self.parent_of_leaf(path, n - 1)
        }
    }

    /// What the last candidate at a path names as its parent.
    pub open spec fn parent_of(self, path: Seq<char>) -> Option<Option<Seq<char>>> {
        match self.parent_of_leaf(path, self.leaves.len() as int) {
            Some(parent) => Some(parent),
            None => self.parent_of_parent(path, self.parents.len() as int),
        }
    }
}

fn failed(path: &str, source: String) -> (r: RefineGatePreparationError)
    ensures
        r.deep_view() == registration_failed(path@, source@),
{
    RefineGatePreparationError::RegistrationFailed { relative_path: path.to_owned(), source }
}

fn validate_non_empty_reasons(kind: &str, path: &str, reasons: &Vec<RefineGateTargetReason>) -> (r:
    Result<(), RefineGatePreparationError>)
    ensures
        outcome(r) == settled(reasons_problem(kind@, path@, reasons.deep_view())),
{
    if reasons.len() == 0 {
        return Err(
            RefineGatePreparationError::EmptySelectionReasons {
                candidate_kind: kind.to_owned(),
                relative_path: path.to_owned(),
            },
        );
    }
    Ok(())
}

fn invalid(field: &str, path: &str) -> (r: RefineGatePreparationError)
    ensures
        r.deep_view() == invalid_path(field@, path@),
{
    RefineGatePreparationError::InvalidCanonicalPath {
        field: field.to_owned(),
        relative_path: path.to_owned(),
    }
}

fn validate_markdown_path(field: &str, path: &str) -> (r: Result<(), RefineGatePreparationError>)
    ensures
        outcome(r) == settled(markdown_problem(field@, path@)),
{
    if path_is_plan_markdown(path) {
        Ok(())
    } else {
        Err(invalid(field, path))
    }
}

fn validate_markdown_paths(field: &str, paths: &Vec<String>) -> (r: Result<
    (),
    RefineGatePreparationError,
>)
    ensures
        outcome(r) == settled(markdown_problem_from(field@, paths.deep_view(), 0)),
{
    let ghost all = paths.deep_view();
    let mut i: usize = 0;
    while i < paths.len()
        invariant
            i <= paths.len(),
            all == paths.deep_view(),
            markdown_problem_from(field@, all, 0) == markdown_problem_from(
                field@,
                all,
                i as int,
            ),
        decreases paths.len() - i,
    {
        validate_markdown_path(field, paths[i].as_str())?;
        i = i + 1;
    }
    Ok(())
}

fn path_is_parent_shaped(path: &str) -> (r: bool)
    ensures
        r == is_parent_shaped(path@),
{
    let stem: Option<String> = path_file_stem(path);
    let directory: Option<String> = path_parent_name(path);
    stem.is_some() && same_optional_text(&directory, &stem)
}

fn validate_leaf_path(field: &str, path: &str) -> (r: Result<(), RefineGatePreparationError>)
    ensures
        outcome(r) == settled(leaf_problem(field@, path@)),
{
    if path_is_plan_markdown(path) && !path_is_parent_shaped(path) {
        Ok(())
    } else {
        Err(invalid(field, path))
    }
}

fn parent_self_path(path: &str) -> (r: String)
    ensures
        r@ == expected_parent(path@),
{
    match path_parent(path) {
        None => {
            let out: String = String::new();
            assert(out@ =~= Seq::empty());
            out
        },
        Some(directory) => match path_file_name(directory.as_str()) {
            None => {
                let out: String = String::new();
                assert(out@ =~= Seq::empty());
                out
            },
            Some(name) => join_path(directory.as_str(), concat2(name.as_str(), ".md").as_str()),
        },
    }
}

fn inspect_at(runtime: &Runtime, plan_id: &str, path: &str) -> (r: Option<InspectNodeResponse>)
    ensures
        match r {
            Some(node) => runtime.deep_view().inspection(at_path(plan_id@, path@)) == Ok::<
                InspectNodeResponseModel,
                PlanErrorModel,
            >(node.deep_view()),
            None => runtime.deep_view().inspection(at_path(plan_id@, path@)) is Err,
        },
{
    let request: InspectNodeRequest = InspectNodeRequest {
        plan_id: plan_id.to_owned(),
        node_id: None,
        relative_path: Some(path.to_owned()),
    };
    assert(request.deep_view() == at_path(plan_id@, path@));
    match runtime.inspect_node(request) {
        Ok(node) => Some(node),
        Err(_) => None,
    }
}

fn inspect_parent(runtime: &Runtime, plan_id: &str, path: &str) -> (r: Option<InspectNodeResponse>)
    ensures
        r.deep_view() == runtime.deep_view().parent_at(plan_id@, path@),
{
    match inspect_at(runtime, plan_id, path) {
        Some(node) => match node.node_kind {
            NodeKind::Parent => Some(node),
            NodeKind::Leaf => None,
        },
        None => None,
    }
}

fn is_actual_root_plan_parent_path(runtime: &Runtime, plan_id: &str, path: &str) -> (r: bool)
    ensures
        r == runtime.deep_view().is_plan_root_path(plan_id@, path@),
{
    match path_file_stem(path) {
        Some(plan_name) => {
            if path_components(path).len() != 1 {
                return false;
            }
            let request: OpenPlanRequest = OpenPlanRequest { plan_name };
            match runtime.open_plan(request) {
                Ok(plan) => same_text(plan.plan_id.as_str(), plan_id),
                Err(_) => false,
            }
        },
        None => false,
    }
}

fn validate_parent_path(runtime: &Runtime, plan_id: &str, field: &str, path: &str) -> (r: Result<
    (),
    RefineGatePreparationError,
>)
    ensures
        outcome(r) == settled(runtime.deep_view().parent_problem(plan_id@, field@, path@)),
{
    if path_is_plan_markdown(path) && (path_is_parent_shaped(path)
        || is_actual_root_plan_parent_path(runtime, plan_id, path)) {
        Ok(())
    } else {
        Err(invalid(field, path))
    }
}

fn linked_child_paths_for_parent(
    runtime: &Runtime,
    files: &PlanFiles,
    plan_id: &str,
    parent: &str,
) -> (r: Result<Vec<String>, RefineGatePreparationError>)
    ensures
        outcome(r) == runtime.deep_view().linked_paths(files.deep_view(), plan_id@, parent@),
{
    match runtime.persisted_plan_root(plan_id) {
        Err(error) => {
            return Err(failed(parent, error.message));
        },
        Ok(_) => {},
    }
    let markdown: String = match files.read(parent) {
        Ok(markdown) => markdown,
        Err(source) => {
            return Err(failed(parent, source));
        },
    };
    match parse_child_node_link_paths(parent, markdown.as_str()) {
        Ok(links) => Ok(links),
        Err(error) => Err(failed(parent, error.message)),
    }
}

fn require_known_parent(
    runtime: &Runtime,
    plan_id: &str,
    path: &str,
    parent: &str,
    settled_parents: &Vec<String>,
) -> (r: Result<(), RefineGatePreparationError>)
    ensures
        outcome(r) == settled(
            runtime.deep_view().unknown_parent(plan_id@, path@, parent@, settled_parents.deep_view()),
        ),
{
    if list_has(settled_parents, parent) || inspect_parent(runtime, plan_id, parent).is_some() {
        Ok(())
    } else {
        Err(
            RefineGatePreparationError::MissingParentRegistration {
                child_relative_path: path.to_owned(),
                parent_relative_path: parent.to_owned(),
            },
        )
    }
}

fn validate_parent_of_parent(
    runtime: &Runtime,
    plan_id: &str,
    path: &str,
    parent: &Option<String>,
    settled_parents: &Vec<String>,
) -> (r: Result<(), RefineGatePreparationError>)
    ensures
        outcome(r) == settled(
            runtime.deep_view().parent_of_parent_problem(
                plan_id@,
                path@,
                parent.deep_view(),
                settled_parents.deep_view(),
            ),
        ),
{
    match parent {
        None => Ok(()),
        Some(parent) => {
            validate_parent_path(runtime, plan_id, "parent_relative_path", parent.as_str())?;
            require_known_parent(runtime, plan_id, path, parent.as_str(), settled_parents)
        },
    }
}

fn has_slash(path: &str) -> (r: bool)
    ensures
        r == path@.contains('/'),
{
    let chars: Vec<char> = chars_of(path);
    let mut i: usize = 0;
    while i < chars.len()
        invariant
            i <= chars.len(),
            chars@ == path@,
            forall|k: int| 0 <= k < i ==> chars@[k] != '/',
        decreases chars.len() - i,
    {
        if chars[i] == '/' {
            assert(path@[i as int] == '/');
            return true;
        }
        i = i + 1;
    }
    false
}

fn validate_leaf_parent(
    runtime: &Runtime,
    plan_id: &str,
    path: &str,
    parent: &Option<String>,
    settled_parents: &Vec<String>,
) -> (r: Result<(), RefineGatePreparationError>)
    ensures
        outcome(r) == settled(
            runtime.deep_view().parent_of_leaf_problem(
                plan_id@,
                path@,
                parent.deep_view(),
                settled_parents.deep_view(),
            ),
        ),
{
    match parent {
        None => {
            if !has_slash(path) {
                Ok(())
            } else {
                Err(
                    RefineGatePreparationError::MissingParentRegistration {
                        child_relative_path: path.to_owned(),
                        parent_relative_path: parent_self_path(path),
                    },
                )
            }
        },
        Some(parent) => {
            validate_parent_path(runtime, plan_id, "parent_relative_path", parent.as_str())?;
            require_known_parent(runtime, plan_id, path, parent.as_str(), settled_parents)
        },
    }
}

fn prevalidate_existing_candidate_node(
    runtime: &Runtime,
    files: &PlanFiles,
    plan_id: &str,
    path: &str,
    kind: NodeKind,
    parent: &Option<String>,
) -> (r: Result<(), RefineGatePreparationError>)
    ensures
        outcome(r) == settled(
            runtime.deep_view().existing_problem(
                files.deep_view(),
                plan_id@,
                path@,
                kind,
                parent.deep_view(),
            ),
        ),
{
    let existing: InspectNodeResponse = match inspect_at(runtime, plan_id, path) {
        Some(node) => node,
        None => {
            return Ok(());
        },
    };
    if existing.node_kind != kind {
        return Err(
            failed(
                path,
                concat5(
                    "existing node is `",
                    existing.node_kind.as_str(),
                    "`, but registration requested `",
                    kind.as_str(),
                    "`",
                ),
            ),
        );
    }
    if same_optional_text(&existing.parent_relative_path, parent) {
        return Ok(());
    }
    match parent {
        None => {},
        Some(parent) => {
            let links: Vec<String> = linked_child_paths_for_parent(
                runtime,
                files,
                plan_id,
                parent.as_str(),
            )?;
            if list_has(&links, path) {
                return Ok(());
            }
        },
    }
    let start: String = crate::text::concat3(
        "existing node parent_relative_path ",
        format_optional(&existing.parent_relative_path).as_str(),
        " conflicts with requested parent_relative_path ",
    );
    Err(failed(path, concat2(start.as_str(), format_optional(parent).as_str())))
}

/// The candidates, for a look at what they name as their parents.
struct Candidates<'a> {
    parents: &'a Vec<RefineParentRegistrationCandidate>,
    leaves: &'a Vec<RefineLeafRegistrationCandidate>,
}

impl<'a> DeepView for Candidates<'a> {
    type V = KnownCandidates;

    closed spec fn deep_view(&self) -> KnownCandidates {
        KnownCandidates { parents: self.parents.deep_view(), leaves: self.leaves.deep_view() }
    }
}

fn candidate_names_parent(known: &Candidates, child: &str, parent: &str) -> (r: bool)
    ensures
        r == (known.deep_view().parent_of(child@) == Some(Some(parent@))),
{
    let ghost model = known.deep_view();
    let mut n: usize = known.leaves.len();
    while n > 0
        invariant
            n <= known.leaves.len(),
            model == known.deep_view(),
            model.leaves == known.leaves.deep_view(),
            model.parent_of_leaf(child@, model.leaves.len() as int) == model.parent_of_leaf(
                child@,
                n as int,
            ),
        decreases n,
    {
        let candidate: &RefineLeafRegistrationCandidate = &known.leaves[n - 1];
        assert(model.leaves[n - 1] == candidate.deep_view());
        if same_text(candidate.relative_path.as_str(), child) {
            return is_text(&candidate.parent_relative_path, parent);
        }
        n = n - 1;
    }
    let mut m: usize = known.parents.len();
    while m > 0
        invariant
            m <= known.parents.len(),
            model == known.deep_view(),
            model.parents == known.parents.deep_view(),
            model.parent_of(child@) == model.parent_of_parent(child@, m as int),
        decreases m,
    {
        let candidate: &RefineParentRegistrationCandidate = &known.parents[m - 1];
        assert(model.parents[m - 1] == candidate.deep_view());
        if same_text(candidate.relative_path.as_str(), child) {
            return is_text(&candidate.parent_relative_path, parent);
        }
        m = m - 1;
    }
    false
}

fn frontier_child_path_is_in_scope(
    runtime: &Runtime,
    plan_id: &str,
    candidate: &RefineFrontierRegistrationCandidate,
    child: &str,
    links: &Vec<String>,
    known: &Option<Candidates>,
) -> (r: bool)
    ensures
        r == runtime.deep_view().child_in_scope(
            plan_id@,
            candidate.deep_view(),
            child@,
            links.deep_view(),
            known.deep_view(),
        ),
{
    let parent: &str = candidate.parent_relative_path.as_str();
    match known {
        Some(candidates) => {
            if candidate_names_parent(candidates, child, parent) {
                return true;
            }
        },
        None => {},
    }
    if list_has(links, child) {
        return true;
    }
    let removed: bool = list_has(&candidate.removed_child_relative_paths, child);
    match inspect_at(runtime, plan_id, child) {
        Some(node) => is_text(&node.parent_relative_path, parent) || (removed
            && node.parent_relative_path.is_none()),
        None => removed,
    }
}

#[verifier::loop_isolation(false)]
fn validate_frontier_changed_child_paths(
    runtime: &Runtime,
    files: &PlanFiles,
    plan_id: &str,
    candidate: &RefineFrontierRegistrationCandidate,
    known: &Option<Candidates>,
) -> (r: Result<(), RefineGatePreparationError>)
    ensures
        outcome(r) == settled(
            runtime.deep_view().changed_children_problem(
                files.deep_view(),
                plan_id@,
                candidate.deep_view(),
                known.deep_view(),
            ),
        ),
{
    validate_markdown_paths(
        "removed_child_relative_paths",
        &candidate.removed_child_relative_paths,
    )?;
    let links: Vec<String> = linked_child_paths_for_parent(
        runtime,
        files,
        plan_id,
        candidate.parent_relative_path.as_str(),
    )?;
    let ghost model = runtime.deep_view();
    let ghost cand = candidate.deep_view();
    let children: &Vec<String> = &candidate.changed_child_relative_paths;
    let mut missing: Vec<String> = Vec::new();
    let mut i: usize = 0;
    assert(missing.deep_view() =~= Seq::empty());
    while i < children.len()
        invariant
            i <= children.len(),
            model.missing_children_from(
                plan_id@,
                cand,
                links.deep_view(),
                known.deep_view(),
                0,
                Seq::empty(),
            ) == model.missing_children_from(
                plan_id@,
                cand,
                links.deep_view(),
                known.deep_view(),
                i as int,
                missing.deep_view(),
            ),
        decreases children.len() - i,
    {
        let child: &str = children[i].as_str();
        assert(cand.changed_child_relative_paths[i as int] == child@);
        validate_markdown_path("changed_child_relative_paths", child)?;
        if !frontier_child_path_is_in_scope(runtime, plan_id, candidate, child, &links, known) {
            let ghost before = missing.deep_view();
            missing.push(child.to_owned());
            assert(missing.deep_view() =~= before.push(child@));
        }
        i = i + 1;
    }
    if missing.len() == 0 {
        Ok(())
    } else {
        Err(
            RefineGatePreparationError::IncoherentFrontierChildren {
                parent_relative_path: candidate.parent_relative_path.clone(),
                missing_child_relative_paths: missing,
            },
        )
    }
}

fn validate_frontier_candidate(
    runtime: &Runtime,
    plan_id: &str,
    candidate: &RefineFrontierRegistrationCandidate,
) -> (r: Result<(), RefineGatePreparationError>)
    ensures
        outcome(r) == settled(
            runtime.deep_view().frontier_problem(plan_id@, candidate.deep_view()),
        ),
{
    validate_non_empty_reasons(
        "frontier",
        candidate.parent_relative_path.as_str(),
        &candidate.reasons,
    )?;
    validate_parent_path(
        runtime,
        plan_id,
        "parent_relative_path",
        candidate.parent_relative_path.as_str(),
    )
}

// ---------------------------------------------------------------------
// The order of the parents
// ---------------------------------------------------------------------
/// How deep a path stands.
pub open spec fn depth_of(path: Seq<char>) -> nat {
    components(path).len()
}

/// The candidates with one more behind all that do not stand deeper.
pub open spec fn insert_by_depth(
    candidates: Seq<RefineParentRegistrationCandidateModel>,
    candidate: RefineParentRegistrationCandidateModel,
) -> Seq<RefineParentRegistrationCandidateModel>
    decreases candidates.len(),
{
    if candidates.len() > 0 && depth_of(candidate.relative_path) < depth_of(
        candidates.last().relative_path,
    ) {
        insert_by_depth(candidates.drop_last(), candidate).push(candidates.last())
    } else {
        candidates.push(candidate)
    }
}

/// The first `n` candidates by their depth, those of one depth in the order
/// in which they came.
pub open spec fn by_depth(candidates: Seq<RefineParentRegistrationCandidateModel>, n: int) -> Seq<
    RefineParentRegistrationCandidateModel,
>
    decreases n,
{
    if n <= 0 {
        Seq::empty()
    } else {
        insert_by_depth(by_depth(candidates, n - 1), candidates[n - 1])
    }
}

/// No candidate stands behind a deeper one.
pub open spec fn is_by_depth(candidates: Seq<RefineParentRegistrationCandidateModel>) -> bool {
    forall|i: int, j: int|
        0 <= i < j < candidates.len() ==> depth_of((#[trigger] candidates[i]).relative_path)
            <= depth_of((#[trigger] candidates[j]).relative_path)
}

proof fn insert_by_depth_at(
    candidates: Seq<RefineParentRegistrationCandidateModel>,
    candidate: RefineParentRegistrationCandidateModel,
    k: int,
)
    requires
        0 <= k <= candidates.len(),
        forall|j: int|
            k <= j < candidates.len() ==> depth_of(candidate.relative_path) < depth_of(
                (#[trigger] candidates[j]).relative_path,
            ),
        k > 0 ==> depth_of(candidate.relative_path) >= depth_of(
            candidates[k - 1].relative_path,
        ),
    ensures
        insert_by_depth(candidates, candidate) == candidates.insert(k, candidate),
    decreases candidates.len(),
{
    if k < candidates.len() {
        insert_by_depth_at(candidates.drop_last(), candidate, k);
    }
    assert(insert_by_depth(candidates, candidate) =~= candidates.insert(k, candidate));
}

proof fn insert_by_depth_keeps_order(
    candidates: Seq<RefineParentRegistrationCandidateModel>,
    candidate: RefineParentRegistrationCandidateModel,
)
    requires
        is_by_depth(candidates),
    ensures
        is_by_depth(insert_by_depth(candidates, candidate)),
        insert_by_depth(candidates, candidate).to_multiset() == candidates.to_multiset().insert(
            candidate,
        ),
        insert_by_depth(candidates, candidate).len() == candidates.len() + 1,
        forall|i: int|
            0 <= i < insert_by_depth(candidates, candidate).len() ==> (
            #[trigger] insert_by_depth(candidates, candidate)[i]) == candidate
                || candidates.contains(insert_by_depth(candidates, candidate)[i]),
    decreases candidates.len(),
{
    broadcast use vstd::seq_lib::group_to_multiset_ensures;

    let out = insert_by_depth(candidates, candidate);
    if candidates.len() > 0 && depth_of(candidate.relative_path) < depth_of(
        candidates.last().relative_path,
    ) {
        let rest = candidates.drop_last();
        insert_by_depth_keeps_order(rest, candidate);
        let inner = insert_by_depth(rest, candidate);
        assert(candidates =~= rest.push(candidates.last()));
        assert forall|i: int| 0 <= i < out.len() implies (#[trigger] out[i]) == candidate
            || candidates.contains(out[i]) by {
            if i < inner.len() {
                assert(out[i] == inner[i]);
                if inner[i] != candidate {
                    let k = choose|k: int| 0 <= k < rest.len() && rest[k] == inner[i];
                    assert(candidates[k] == out[i]);
                }
            } else {
                assert(out[i] == candidates[candidates.len() - 1]);
            }
        }
        assert forall|i: int, j: int| 0 <= i < j < out.len() implies depth_of(
            (#[trigger] out[i]).relative_path,
        ) <= depth_of((#[trigger] out[j]).relative_path) by {
            if j < inner.len() {
                assert(out[i] == inner[i] && out[j] == inner[j]);
            } else {
                assert(out[i] == inner[i]);
                if inner[i] != candidate {
                    let k = choose|k: int| 0 <= k < rest.len() && rest[k] == inner[i];
                    assert(candidates[k] == out[i]);
                    assert(depth_of(candidates[k].relative_path) <= depth_of(
                        candidates[candidates.len() - 1].relative_path,
                    ));
                }
            }
        }
    } else {
        assert forall|i: int| 0 <= i < out.len() implies (#[trigger] out[i]) == candidate
            || candidates.contains(out[i]) by {
            if i < candidates.len() {
                assert(out[i] == candidates[i]);
            }
        }
        assert forall|i: int, j: int| 0 <= i < j < out.len() implies depth_of(
            (#[trigger] out[i]).relative_path,
        ) <= depth_of((#[trigger] out[j]).relative_path) by {
            if j < candidates.len() {
                assert(out[i] == candidates[i] && out[j] == candidates[j]);
            } else if candidates.len() > 0 {
                assert(out[i] == candidates[i]);
                if i < candidates.len() - 1 {
                    assert(depth_of(candidates[i].relative_path) <= depth_of(
                        candidates[candidates.len() - 1].relative_path,
                    ));
                }
            }
        }
    }
}

proof fn by_depth_is_ordered(candidates: Seq<RefineParentRegistrationCandidateModel>, n: int)
    requires
        0 <= n <= candidates.len(),
    ensures
        is_by_depth(by_depth(candidates, n)),
        by_depth(candidates, n).len() == n,
        by_depth(candidates, n).to_multiset() == candidates.take(n).to_multiset(),
    decreases n,
{
    broadcast use vstd::seq_lib::group_to_multiset_ensures;

    if n > 0 {
        by_depth_is_ordered(candidates, n - 1);
        insert_by_depth_keeps_order(by_depth(candidates, n - 1), candidates[n - 1]);
        assert(candidates.take(n) =~= candidates.take(n - 1).push(candidates[n - 1]));
    } else {
        assert(candidates.take(0) =~= Seq::empty());
    }
}

/// Parents are tracked from the top of the plan downwards, whatever the order
/// in which they are named: the ordered candidates are the given ones, and
/// none stands behind a deeper one.
pub proof fn parents_are_ordered_by_depth(
    candidates: Seq<RefineParentRegistrationCandidateModel>,
)
    ensures
        is_by_depth(by_depth(candidates, candidates.len() as int)),
        by_depth(candidates, candidates.len() as int).len() == candidates.len(),
        by_depth(candidates, candidates.len() as int).to_multiset() == candidates.to_multiset(),
{
    by_depth_is_ordered(candidates, candidates.len() as int);
    assert(candidates.take(candidates.len() as int) =~= candidates);
}

fn ordered_parent_candidates(candidates: &Vec<RefineParentRegistrationCandidate>) -> (r: Vec<
    RefineParentRegistrationCandidate,
>)
    ensures
        r.deep_view() == by_depth(candidates.deep_view(), candidates.len() as int),
        r.len() == candidates.len(),
{
    let ghost all = candidates.deep_view();
    let mut out: Vec<RefineParentRegistrationCandidate> = Vec::new();
    let mut n: usize = 0;
    assert(out.deep_view() =~= Seq::empty());
    while n < candidates.len()
        invariant
            n <= candidates.len(),
            all == candidates.deep_view(),
            out.len() == n,
            out.deep_view() == by_depth(all, n as int),
        decreases candidates.len() - n,
    {
        let ghost before = out.deep_view();
        let candidate: RefineParentRegistrationCandidate = candidates[n].clone();
        assert(all[n as int] == candidate.deep_view());
        let depth: usize = path_components(candidate.relative_path.as_str()).len();
        let mut k: usize = out.len();
        let mut searching: bool = k > 0;
        while searching
            invariant
                k <= out.len(),
                before == out.deep_view(),
                depth == depth_of(candidate.relative_path@),
                searching ==> k > 0,
                !searching && k > 0 ==> depth >= depth_of(before[k - 1].relative_path),
                forall|j: int|
                    k <= j < out.len() ==> depth < depth_of((#[trigger] before[j]).relative_path),
            decreases
                    k + (if searching {
                        1int
                    } else {
                        0int
                    }),
        {
            assert(before[k - 1] == out@[k - 1].deep_view());
            if depth < path_components(out[k - 1].relative_path.as_str()).len() {
                k = k - 1;
                searching = k > 0;
            } else {
                searching = false;
            }
        }
        let ghost model = candidate.deep_view();
        proof {
            insert_by_depth_at(before, model, k as int);
        }
        out.insert(k, candidate);
        assert(out.deep_view() =~= before.insert(k as int, model));
        n = n + 1;
    }
    out
}

// ---------------------------------------------------------------------
// Looking before anything is tracked
// ---------------------------------------------------------------------
/// The paths of the candidates.
pub open spec fn candidate_paths(parents: Seq<RefineParentRegistrationCandidateModel>) -> Seq<
    Seq<char>,
> {
    Seq::new(parents.len(), |i: int| parents[i].relative_path)
}

impl RuntimeModel {
    /// A parent candidate cannot be tracked.
    pub open spec fn parent_candidate_problem(
        self,
        files: PlanFilesModel,
        plan_id: Seq<char>,
        candidate: RefineParentRegistrationCandidateModel,
        paths: Seq<Seq<char>>,
    ) -> Option<RefineGatePreparationErrorModel> {
        match reasons_problem("parent"@, candidate.relative_path, candidate.reasons) {
            Some(error) => Some(error),
            None => match self.parent_problem(
                plan_id,
                "relative_path"@,
                candidate.relative_path,
            ) {
                Some(error) => Some(error),
                None => match self.existing_problem(
                    files,
                    plan_id,
                    candidate.relative_path,
                    NodeKind::Parent,
                    candidate.parent_relative_path,
                ) {
                    Some(error) => Some(error),
                    None => self.parent_of_parent_problem(
                        plan_id,
                        candidate.relative_path,
                        candidate.parent_relative_path,
                        paths,
                    ),
                },
            },
        }
    }

    /// One of the parent candidates from `i` on cannot be tracked.
    pub open spec fn parent_candidates_problem_from(
        self,
        files: PlanFilesModel,
        plan_id: Seq<char>,
        parents: Seq<RefineParentRegistrationCandidateModel>,
        i: int,
    ) -> Option<RefineGatePreparationErrorModel>
        decreases parents.len() - i,
    {
        if i >= parents.len() {
            None
        } else {
            match self.parent_candidate_problem(
                files,
                plan_id,
                parents[i],
                candidate_paths(parents),
            ) {
                Some(error) => Some(error),
                None => self.parent_candidates_problem_from(files, plan_id, parents, i + 1),
            }
        }
    }

    /// A leaf candidate cannot be tracked.
    pub open spec fn leaf_candidate_problem(
        self,
        files: PlanFilesModel,
        plan_id: Seq<char>,
        candidate: RefineLeafRegistrationCandidateModel,
        paths: Seq<Seq<char>>,
    ) -> Option<RefineGatePreparationErrorModel> {
        match reasons_problem("leaf"@, candidate.relative_path, candidate.reasons) {
            Some(error) => Some(error),
            None => match leaf_problem("relative_path"@, candidate.relative_path) {
                Some(error) => Some(error),
                None => match self.parent_of_leaf_problem(
                    plan_id,
                    candidate.relative_path,
                    candidate.parent_relative_path,
                    paths,
                ) {
                    Some(error) => Some(error),
                    None => self.existing_problem(
                        files,
                        plan_id,
                        candidate.relative_path,
                        NodeKind::Leaf,
                        candidate.parent_relative_path,
                    ),
                },
            },
        }
    }

    /// One of the leaf candidates from `i` on cannot be tracked.
    pub open spec fn leaf_candidates_problem_from(
        self,
        files: PlanFilesModel,
        plan_id: Seq<char>,
        leaves: Seq<RefineLeafRegistrationCandidateModel>,
        paths: Seq<Seq<char>>,
        i: int,
    ) -> Option<RefineGatePreparationErrorModel>
        decreases leaves.len() - i,
    {
        if i >= leaves.len() {
            None
        } else {
            match self.leaf_candidate_problem(files, plan_id, leaves[i], paths) {
                Some(error) => Some(error),
                None => self.leaf_candidates_problem_from(files, plan_id, leaves, paths, i + 1),
            }
        }
    }

    /// A frontier candidate cannot be followed.
    pub open spec fn frontier_candidate_problem(
        self,
        files: PlanFilesModel,
        plan_id: Seq<char>,
        candidate: RefineFrontierRegistrationCandidateModel,
        known: KnownCandidates,
    ) -> Option<RefineGatePreparationErrorModel> {
        match self.frontier_problem(plan_id, candidate) {
            Some(error) => Some(error),
            None => match self.unknown_parent(
                plan_id,
                candidate.parent_relative_path,
                candidate.parent_relative_path,
                candidate_paths(known.parents),
            ) {
                Some(error) => Some(error),
                None => self.changed_children_problem(files, plan_id, candidate, Some(known)),
            },
        }
    }

    /// One of the frontier candidates from `i` on cannot be followed.
    pub open spec fn frontier_candidates_problem_from(
        self,
        files: PlanFilesModel,
        plan_id: Seq<char>,
        frontiers: Seq<RefineFrontierRegistrationCandidateModel>,
        known: KnownCandidates,
        i: int,
    ) -> Option<RefineGatePreparationErrorModel>
        decreases frontiers.len() - i,
    {
        if i >= frontiers.len() {
            None
        } else {
            match self.frontier_candidate_problem(files, plan_id, frontiers[i], known) {
                Some(error) => Some(error),
                None => self.frontier_candidates_problem_from(
                    files,
                    plan_id,
                    frontiers,
                    known,
                    i + 1,
                ),
            }
        }
    }

    /// What speaks against a request before anything is tracked.
    pub open spec fn request_problem(
        self,
        files: PlanFilesModel,
        plan_id: Seq<char>,
        parents: Seq<RefineParentRegistrationCandidateModel>,
        leaves: Seq<RefineLeafRegistrationCandidateModel>,
        frontiers: Seq<RefineFrontierRegistrationCandidateModel>,
    ) -> Option<RefineGatePreparationErrorModel> {
        match self.parent_candidates_problem_from(files, plan_id, parents, 0) {
            Some(error) => Some(error),
            None => match self.leaf_candidates_problem_from(
                files,
                plan_id,
                leaves,
                candidate_paths(parents),
                0,
            ) {
                Some(error) => Some(error),
                None => self.frontier_candidates_problem_from(
                    files,
                    plan_id,
                    frontiers,
                    KnownCandidates { parents, leaves },
                    0,
                ),
            },
        }
    }
}

fn paths_of_candidates(parents: &Vec<RefineParentRegistrationCandidate>) -> (r: Vec<String>)
    ensures
        r.deep_view() == candidate_paths(parents.deep_view()),
{
    let mut out: Vec<String> = Vec::new();
    let mut i: usize = 0;
    while i < parents.len()
        invariant
            i <= parents.len(),
            out.deep_view() == candidate_paths(parents.deep_view()).take(i as int),
        decreases parents.len() - i,
    {
        let ghost before = out.deep_view();
        out.push(parents[i].relative_path.clone());
        assert(out.deep_view() =~= before.push(parents@[i as int].relative_path@));
        i = i + 1;
        assert(out.deep_view() =~= candidate_paths(parents.deep_view()).take(i as int));
    }
    assert(out.deep_view() =~= candidate_paths(parents.deep_view()));
    out
}

#[verifier::loop_isolation(false)]
fn prevalidate_registration_request(
    runtime: &Runtime,
    files: &PlanFiles,
    plan_id: &str,
    parents: &Vec<RefineParentRegistrationCandidate>,
    leaves: &Vec<RefineLeafRegistrationCandidate>,
    frontiers: &Vec<RefineFrontierRegistrationCandidate>,
) -> (r: Result<(), RefineGatePreparationError>)
    ensures
        outcome(r) == settled(
            runtime.deep_view().request_problem(
                files.deep_view(),
                plan_id@,
                parents.deep_view(),
                leaves.deep_view(),
                frontiers.deep_view(),
            ),
        ),
{
    let ghost model = runtime.deep_view();
    let ghost disk = files.deep_view();
    let ghost all_parents = parents.deep_view();
    let ghost all_leaves = leaves.deep_view();
    let ghost all_frontiers = frontiers.deep_view();
    let paths: Vec<String> = paths_of_candidates(parents);
    let mut i: usize = 0;
    while i < parents.len()
        invariant
            i <= parents.len(),
            model.parent_candidates_problem_from(disk, plan_id@, all_parents, 0)
                == model.parent_candidates_problem_from(disk, plan_id@, all_parents, i as int),
        decreases parents.len() - i,
    {
        let candidate: &RefineParentRegistrationCandidate = &parents[i];
        assert(all_parents[i as int] == candidate.deep_view());
        let path: &str = candidate.relative_path.as_str();
        validate_non_empty_reasons("parent", path, &candidate.reasons)?;
        validate_parent_path(runtime, plan_id, "relative_path", path)?;
        prevalidate_existing_candidate_node(
            runtime,
            files,
            plan_id,
            path,
            NodeKind::Parent,
            &candidate.parent_relative_path,
        )?;
        validate_parent_of_parent(
            runtime,
            plan_id,
            path,
            &candidate.parent_relative_path,
            &paths,
        )?;
        i = i + 1;
    }
    let mut j: usize = 0;
    while j < leaves.len()
        invariant
            j <= leaves.len(),
            model.leaf_candidates_problem_from(disk, plan_id@, all_leaves, paths.deep_view(), 0)
                == model.leaf_candidates_problem_from(
                disk,
                plan_id@,
                all_leaves,
                paths.deep_view(),
                j as int,
            ),
        decreases leaves.len() - j,
    {
        let candidate: &RefineLeafRegistrationCandidate = &leaves[j];
        assert(all_leaves[j as int] == candidate.deep_view());
        let path: &str = candidate.relative_path.as_str();
        validate_non_empty_reasons("leaf", path, &candidate.reasons)?;
        validate_leaf_path("relative_path", path)?;
        validate_leaf_parent(runtime, plan_id, path, &candidate.parent_relative_path, &paths)?;
        prevalidate_existing_candidate_node(
            runtime,
            files,
            plan_id,
            path,
            NodeKind::Leaf,
            &candidate.parent_relative_path,
        )?;
        j = j + 1;
    }
    let known: Option<Candidates> = Some(Candidates { parents, leaves });
    let ghost candidates = KnownCandidates { parents: all_parents, leaves: all_leaves };
    assert(known.deep_view() == Some(candidates));
    let mut k: usize = 0;
    while k < frontiers.len()
        invariant
            k <= frontiers.len(),
            model.frontier_candidates_problem_from(disk, plan_id@, all_frontiers, candidates, 0)
                == model.frontier_candidates_problem_from(
                disk,
                plan_id@,
                all_frontiers,
                candidates,
                k as int,
            ),
        decreases frontiers.len() - k,
    {
        let candidate: &RefineFrontierRegistrationCandidate = &frontiers[k];
        assert(all_frontiers[k as int] == candidate.deep_view());
        let path: &str = candidate.parent_relative_path.as_str();
        validate_frontier_candidate(runtime, plan_id, candidate)?;
        require_known_parent(runtime, plan_id, path, path, &paths)?;
        validate_frontier_changed_child_paths(runtime, files, plan_id, candidate, &known)?;
        k = k + 1;
    }
    Ok(())
}

// ---------------------------------------------------------------------
// Tracking
// ---------------------------------------------------------------------
/// The reasons, each once, in the order in which they came.
pub open spec fn unique_reasons_from(
    reasons: Seq<RefineGateTargetReason>,
    i: int,
    acc: Seq<RefineGateTargetReason>,
) -> Seq<RefineGateTargetReason>
    decreases reasons.len() - i,
{
    if i >= reasons.len() {
        acc
    } else {
        unique_reasons_from(reasons, i + 1, with_reason(acc, reasons[i]))
    }
}

/// The reasons, each once, in the order in which they came.
pub open spec fn unique_reasons(reasons: Seq<RefineGateTargetReason>) -> Seq<
    RefineGateTargetReason,
> {
    unique_reasons_from(reasons, 0, Seq::empty())
}

fn stable_dedup_reasons(reasons: &Vec<RefineGateTargetReason>) -> (r: Vec<RefineGateTargetReason>)
    ensures
        r.deep_view() == unique_reasons(reasons.deep_view()),
{
    let ghost all = reasons.deep_view();
    let mut out: Vec<RefineGateTargetReason> = Vec::new();
    let mut i: usize = 0;
    assert(out.deep_view() =~= Seq::empty());
    while i < reasons.len()
        invariant
            i <= reasons.len(),
            all == reasons.deep_view(),
            unique_reasons(all) == unique_reasons_from(all, i as int, out.deep_view()),
        decreases reasons.len() - i,
    {
        let reason: RefineGateTargetReason = reasons[i];
        assert(all[i as int] == reason);
        if !has_reason(&out, reason) {
            let ghost before = out.deep_view();
            out.push(reason);
            assert(out.deep_view() =~= before.push(reason));
        }
        i = i + 1;
    }
    out
}

impl RuntimeModel {
    /// The runtime after a node was asked for, and its id, or the error of the
    /// registration.
    pub open spec fn ensured_for(
        self,
        plan_id: Seq<char>,
        path: Seq<char>,
        parent: Option<Seq<char>>,
        new_id: Seq<char>,
        timestamp: Seq<char>,
    ) -> (RuntimeModel, Result<Seq<char>, RefineGatePreparationErrorModel>) {
        let (next, result) = self.node_id_ensured(
            EnsureNodeIdRequestModel { plan_id, relative_path: path, parent_relative_path: parent },
            new_id,
            timestamp,
        );
        match result {
            Ok(response) => (next, Ok(response.node_id)),
            Err(error) => (next, Err(registration_failed(path, error.message))),
        }
    }

    /// The runtime with a parent candidate tracked, and its target.
    pub open spec fn parent_registered(
        self,
        plan_id: Seq<char>,
        candidate: RefineParentRegistrationCandidateModel,
        settled_parents: Seq<Seq<char>>,
        new_id: Seq<char>,
        timestamp: Seq<char>,
    ) -> (RuntimeModel, Result<RegisteredRefineParentTargetModel, RefineGatePreparationErrorModel>) {
        let path = candidate.relative_path;
        let parent = candidate.parent_relative_path;
        match reasons_problem("parent"@, path, candidate.reasons) {
            Some(error) => (self, Err(error)),
            None => match self.parent_problem(plan_id, "relative_path"@, path) {
                Some(error) => (self, Err(error)),
                None => match self.parent_of_parent_problem(
                    plan_id,
                    path,
                    parent,
                    settled_parents,
                ) {
                    Some(error) => (self, Err(error)),
                    None => {
                        let (next, result) = match self.parent_at(plan_id, path) {
                            Some(existing) => if existing.parent_relative_path != parent {
                                (
                                    self,
                                    Err(
                                        registration_failed(
                                            path,
                                            "existing parent target has conflicting parent linkage"@,
                                        ),
                                    ),
                                )
                            } else {
                                (self, Ok(existing.node_id))
                            },
                            None => self.ensured_for(plan_id, path, parent, new_id, timestamp),
                        };
                        match result {
                            Err(error) => (next, Err(error)),
                            Ok(node_id) => (
                                next,
                                Ok(
                                    RegisteredRefineParentTargetModel {
                                        node_id,
                                        relative_path: path,
                                        parent_relative_path: parent,
                                        reasons: unique_reasons(candidate.reasons),
                                    },
                                ),
                            ),
                        }
                    },
                },
            },
        }
    }

    /// The runtime with the parent candidates from `i` on tracked, and their
    /// targets, after those in `acc`.
    pub open spec fn parents_registered_from(
        self,
        plan_id: Seq<char>,
        parents: Seq<RefineParentRegistrationCandidateModel>,
        new_ids: Seq<Seq<char>>,
        timestamp: Seq<char>,
        i: int,
        acc: Seq<RegisteredRefineParentTargetModel>,
    ) -> (
        RuntimeModel,
        Result<Seq<RegisteredRefineParentTargetModel>, RefineGatePreparationErrorModel>,
    )
        decreases parents.len() - i,
    {
        if i >= parents.len() {
            (self, Ok(acc))
        } else {
            let (next, result) = self.parent_registered(
                plan_id,
                parents[i],
                candidate_paths(parents).take(i),
                new_ids[i],
                timestamp,
            );
            match result {
                Err(error) => (next, Err(error)),
                Ok(target) => next.parents_registered_from(
                    plan_id,
                    parents,
                    new_ids,
                    timestamp,
                    i + 1,
                    acc.push(target),
                ),
            }
        }
    }

    /// One of the frontier candidates from `i` on does not do.
    pub open spec fn frontier_problem_from(
        self,
        plan_id: Seq<char>,
        frontiers: Seq<RefineFrontierRegistrationCandidateModel>,
        i: int,
    ) -> Option<RefineGatePreparationErrorModel>
        decreases frontiers.len() - i,
    {
        if i >= frontiers.len() {
            None
        } else {
            match self.frontier_problem(plan_id, frontiers[i]) {
                Some(error) => Some(error),
                None => self.frontier_problem_from(plan_id, frontiers, i + 1),
            }
        }
    }

    /// The runtime with a leaf candidate tracked, and its target.
    pub open spec fn leaf_registered(
        self,
        plan_id: Seq<char>,
        candidate: RefineLeafRegistrationCandidateModel,
        new_id: Seq<char>,
        timestamp: Seq<char>,
    ) -> (RuntimeModel, Result<RegisteredRefineLeafTargetModel, RefineGatePreparationErrorModel>) {
        let path = candidate.relative_path;
        let parent = candidate.parent_relative_path;
        let (next, result) = match self.inspection(at_path(plan_id, path)) {
            Ok(existing) => if existing.node_kind != NodeKind::Leaf {
                (self, Err(registration_failed(path, "existing target path is not a leaf node"@)))
            } else if existing.parent_relative_path == parent {
                (self, Ok(existing.node_id))
            } else {
                self.ensured_for(plan_id, path, parent, new_id, timestamp)
            },
            Err(_) => self.ensured_for(plan_id, path, parent, new_id, timestamp),
        };
        match result {
            Err(error) => (next, Err(error)),
            Ok(node_id) => (
                next,
                Ok(
                    RegisteredRefineLeafTargetModel {
                        node_id,
                        relative_path: path,
                        parent_relative_path: parent,
                        reasons: unique_reasons(candidate.reasons),
                    },
                ),
            ),
        }
    }

    /// The leaf is tracked below another parent than the one it names.
    pub open spec fn leaf_is_misplaced(
        self,
        plan_id: Seq<char>,
        candidate: RefineLeafRegistrationCandidateModel,
    ) -> bool {
        candidate.parent_relative_path is Some && (self.inspection(
            at_path(plan_id, candidate.relative_path),
        ) matches Ok(node) && node.node_kind == NodeKind::Leaf && node.parent_relative_path
            != candidate.parent_relative_path)
    }

    /// The runtime with the leaf candidates from `i` on tracked, their targets
    /// after those in `acc`, and, after those in `later`, the positions of
    /// those that wait until links were followed.
    pub open spec fn leaves_registered_from(
        self,
        plan_id: Seq<char>,
        leaves: Seq<RefineLeafRegistrationCandidateModel>,
        settled_parents: Seq<Seq<char>>,
        new_ids: Seq<Seq<char>>,
        timestamp: Seq<char>,
        i: int,
        acc: Seq<RegisteredRefineLeafTargetModel>,
        later: Seq<int>,
    ) -> (
        RuntimeModel,
        Result<(Seq<RegisteredRefineLeafTargetModel>, Seq<int>), RefineGatePreparationErrorModel>,
    )
        decreases leaves.len() - i,
    {
        if i >= leaves.len() {
            (self, Ok((acc, later)))
        } else {
            let candidate = leaves[i];
            match reasons_problem("leaf"@, candidate.relative_path, candidate.reasons) {
                Some(error) => (self, Err(error)),
                None => match leaf_problem("relative_path"@, candidate.relative_path) {
                    Some(error) => (self, Err(error)),
                    None => match self.parent_of_leaf_problem(
                        plan_id,
                        candidate.relative_path,
                        candidate.parent_relative_path,
                        settled_parents,
                    ) {
                        Some(error) => (self, Err(error)),
                        None => if self.leaf_is_misplaced(plan_id, candidate) {
                            self.leaves_registered_from(
                                plan_id,
                                leaves,
                                settled_parents,
                                new_ids,
                                timestamp,
                                i + 1,
                                acc,
                                later.push(i),
                            )
                        } else {
                            let (next, result) = self.leaf_registered(
                                plan_id,
                                candidate,
                                new_ids[i],
                                timestamp,
                            );
                            match result {
                                Err(error) => (next, Err(error)),
                                Ok(target) => next.leaves_registered_from(
                                    plan_id,
                                    leaves,
                                    settled_parents,
                                    new_ids,
                                    timestamp,
                                    i + 1,
                                    acc.push(target),
                                    later,
                                ),
                            }
                        },
                    },
                },
            }
        }
    }

    /// The ids of the parents of the frontier candidates from `i` on, after
    /// those in `acc`.
    pub open spec fn frontier_ids_from(
        self,
        plan_id: Seq<char>,
        frontiers: Seq<RefineFrontierRegistrationCandidateModel>,
        i: int,
        acc: Seq<Seq<char>>,
    ) -> Result<Seq<Seq<char>>, RefineGatePreparationErrorModel>
        decreases frontiers.len() - i,
    {
        if i >= frontiers.len() {
            Ok(acc)
        } else {
            let path = frontiers[i].parent_relative_path;
            match self.parent_at(plan_id, path) {
                None => Err(
                    RefineGatePreparationErrorModel::MissingParentRegistration {
                        child_relative_path: path,
                        parent_relative_path: path,
                    },
                ),
                Some(parent) => self.frontier_ids_from(
                    plan_id,
                    frontiers,
                    i + 1,
                    acc.push(parent.node_id),
                ),
            }
        }
    }

    /// The children of one of the frontier candidates from `i` on do not do.
    pub open spec fn children_problem_from(
        self,
        files: PlanFilesModel,
        plan_id: Seq<char>,
        frontiers: Seq<RefineFrontierRegistrationCandidateModel>,
        i: int,
    ) -> Option<RefineGatePreparationErrorModel>
        decreases frontiers.len() - i,
    {
        if i >= frontiers.len() {
            None
        } else {
            match self.changed_children_problem(files, plan_id, frontiers[i], None) {
                Some(error) => Some(error),
                None => self.children_problem_from(files, plan_id, frontiers, i + 1),
            }
        }
    }

    /// The runtime after the links of the frontier candidates from `i` on were
    /// followed, and what they link, after what is in `acc`.
    pub open spec fn frontiers_reconciled_from(
        self,
        files: PlanFilesModel,
        plan_id: Seq<char>,
        frontiers: Seq<RefineFrontierRegistrationCandidateModel>,
        timestamp: Seq<char>,
        i: int,
        acc: Seq<ReconciledParentModel>,
    ) -> (RuntimeModel, Result<Seq<ReconciledParentModel>, RefineGatePreparationErrorModel>)
        decreases frontiers.len() - i,
    {
        if i >= frontiers.len() {
            (self, Ok(acc))
        } else {
            let path = frontiers[i].parent_relative_path;
            if !needs_links(frontiers[i]) || links_of(acc, path, 0) is Some {
                self.frontiers_reconciled_from(files, plan_id, frontiers, timestamp, i + 1, acc)
            } else {
                let (next, result) = self.links_reconciled(
                    files,
                    ReconcileParentChildLinksRequestModel { plan_id, parent_relative_path: path },
                    timestamp,
                );
                match result {
                    Err(error) => (next, Err(registration_failed(path, error.message))),
                    Ok(response) => next.frontiers_reconciled_from(
                        files,
                        plan_id,
                        frontiers,
                        timestamp,
                        i + 1,
                        acc.push(
                            ReconciledParentModel {
                                path,
                                links: response.linked_child_relative_paths,
                            },
                        ),
                    ),
                }
            }
        }
    }

    /// The runtime with the leaf candidates that waited, from `i` on, tracked,
    /// and their targets, after those in `acc`.
    pub open spec fn later_leaves_registered_from(
        self,
        plan_id: Seq<char>,
        leaves: Seq<RefineLeafRegistrationCandidateModel>,
        new_ids: Seq<Seq<char>>,
        timestamp: Seq<char>,
        later: Seq<int>,
        i: int,
        acc: Seq<RegisteredRefineLeafTargetModel>,
    ) -> (
        RuntimeModel,
        Result<Seq<RegisteredRefineLeafTargetModel>, RefineGatePreparationErrorModel>,
    )
        decreases later.len() - i,
    {
        if i >= later.len() {
            (self, Ok(acc))
        } else {
            let (next, result) = self.leaf_registered(
                plan_id,
                leaves[later[i]],
                new_ids[later[i]],
                timestamp,
            );
            match result {
                Err(error) => (next, Err(error)),
                Ok(target) => next.later_leaves_registered_from(
                    plan_id,
                    leaves,
                    new_ids,
                    timestamp,
                    later,
                    i + 1,
                    acc.push(target),
                ),
            }
        }
    }

    /// The children from `i` on that can be named to a judge, after those
    /// in `acc`: those that stay, and those of the removed that are still
    /// known.
    pub open spec fn dispatchable_from(
        self,
        plan_id: Seq<char>,
        removed: Seq<Seq<char>>,
        children: Seq<Seq<char>>,
        i: int,
        acc: Seq<Seq<char>>,
    ) -> Seq<Seq<char>>
        decreases children.len() - i,
    {
        if i >= children.len() {
            acc
        } else if !removed.contains(children[i]) || self.inspection(
            at_path(plan_id, children[i]),
        ) is Ok {
            self.dispatchable_from(plan_id, removed, children, i + 1, acc.push(children[i]))
        } else {
            self.dispatchable_from(plan_id, removed, children, i + 1, acc)
        }
    }

    /// The target of a frontier candidate.
    pub open spec fn frontier_registered(
        self,
        plan_id: Seq<char>,
        candidate: RefineFrontierRegistrationCandidateModel,
        parent_node_id: Seq<char>,
        reconciled: Seq<ReconciledParentModel>,
    ) -> Result<RegisteredRefineFrontierTargetModel, RefineGatePreparationErrorModel> {
        let path = candidate.parent_relative_path;
        match self.children_listing(
            ListChildrenRequestModel {
                plan_id,
                parent_node_id: Some(parent_node_id),
                parent_relative_path: None,
            },
        ) {
            Err(error) => Err(registration_failed(path, error.message)),
            Ok(listing) => {
                let links = match links_of(reconciled, path, 0) {
                    Some(links) => links,
                    None => Seq::empty(),
                };
                let missing = unlisted_from(
                    candidate.changed_child_relative_paths,
                    links,
                    listing,
                    0,
                    Seq::empty(),
                );
                if missing.len() > 0 {
                    Err(
                        RefineGatePreparationErrorModel::IncoherentFrontierChildren {
                            parent_relative_path: path,
                            missing_child_relative_paths: missing,
                        },
                    )
                } else {
                    Ok(
                        RegisteredRefineFrontierTargetModel {
                            parent_node_id,
                            parent_relative_path: path,
                            changed_child_relative_paths: with_all_unique(
                                Seq::empty(),
                                self.dispatchable_from(
                                    plan_id,
                                    candidate.removed_child_relative_paths,
                                    candidate.changed_child_relative_paths
                                        + candidate.removed_child_relative_paths,
                                    0,
                                    Seq::empty(),
                                ),
                            ),
                            reasons: unique_reasons(candidate.reasons),
                        },
                    )
                }
            },
        }
    }

    /// The targets of the frontier candidates from `i` on, after those in
    /// `acc`.
    pub open spec fn frontiers_registered_from(
        self,
        plan_id: Seq<char>,
        frontiers: Seq<RefineFrontierRegistrationCandidateModel>,
        node_ids: Seq<Seq<char>>,
        reconciled: Seq<ReconciledParentModel>,
        i: int,
        acc: Seq<RegisteredRefineFrontierTargetModel>,
    ) -> Result<Seq<RegisteredRefineFrontierTargetModel>, RefineGatePreparationErrorModel>
        decreases frontiers.len() - i,
    {
        if i >= frontiers.len() {
            Ok(acc)
        } else {
            match self.frontier_registered(plan_id, frontiers[i], node_ids[i], reconciled) {
                Err(error) => Err(error),
                Ok(target) => self.frontiers_registered_from(
                    plan_id,
                    frontiers,
                    node_ids,
                    reconciled,
                    i + 1,
                    acc.push(target),
                ),
            }
        }
    }

    /// The runtime after the targets of gates were tracked, and the targets. A
    /// request that is refused leaves the runtime as it was. The new ids go to
    /// the parents, ordered by depth, then to the leaves.
    pub open spec fn targets_registered(
        self,
        files: PlanFilesModel,
        request: RegisterRefineGateTargetsRequestModel,
        new_ids: Seq<Seq<char>>,
        timestamp: Seq<char>,
    ) -> (RuntimeModel, Result<RegisteredRefineGateTargetsModel, RefineGatePreparationErrorModel>) {
        let (next, result) = self.targets_tracked(files, request, new_ids, timestamp);
        match result {
            Ok(targets) => (next, Ok(targets)),
            Err(error) => (self, Err(error)),
        }
    }

    /// How far tracking the targets of gates comes: the runtime with the nodes
    /// that were tracked up to the first problem, and the targets or that
    /// problem.
    pub open spec fn targets_tracked(
        self,
        files: PlanFilesModel,
        request: RegisterRefineGateTargetsRequestModel,
        new_ids: Seq<Seq<char>>,
        timestamp: Seq<char>,
    ) -> (RuntimeModel, Result<RegisteredRefineGateTargetsModel, RefineGatePreparationErrorModel>) {
        let plan_id = request.plan_id;
        let parents = by_depth(
            request.parent_candidates,
            request.parent_candidates.len() as int,
        );
        let leaves = request.leaf_candidates;
        let frontiers = request.frontier_candidates;
        match self.request_problem(files, plan_id, parents, leaves, frontiers) {
            Some(error) => (self, Err(error)),
            None => {
                let (rt1, registered_parents) = self.parents_registered_from(
                    plan_id,
                    parents,
                    new_ids,
                    timestamp,
                    0,
                    Seq::empty(),
                );
                match registered_parents {
                    Err(error) => (rt1, Err(error)),
                    Ok(parent_targets) => match rt1.frontier_problem_from(plan_id, frontiers, 0) {
                        Some(error) => (rt1, Err(error)),
                        None => {
                            let leaf_ids = new_ids.skip(parents.len() as int);
                            let (rt2, registered_leaves) = rt1.leaves_registered_from(
                                plan_id,
                                leaves,
                                candidate_paths(parents),
                                leaf_ids,
                                timestamp,
                                0,
                                Seq::empty(),
                                Seq::empty(),
                            );
                            match registered_leaves {
                                Err(error) => (rt2, Err(error)),
                                Ok((first_leaves, later)) => rt2.frontiers_tracked(
                                    files,
                                    plan_id,
                                    leaves,
                                    frontiers,
                                    leaf_ids,
                                    timestamp,
                                    parent_targets,
                                    first_leaves,
                                    later,
                                ),
                            }
                        },
                    },
                }
            },
        }
    }

    /// The second half of tracking: the links of the frontiers are followed,
    /// then come the leaves that waited, then the frontiers.
    pub open spec fn frontiers_tracked(
        self,
        files: PlanFilesModel,
        plan_id: Seq<char>,
        leaves: Seq<RefineLeafRegistrationCandidateModel>,
        frontiers: Seq<RefineFrontierRegistrationCandidateModel>,
        leaf_ids: Seq<Seq<char>>,
        timestamp: Seq<char>,
        parent_targets: Seq<RegisteredRefineParentTargetModel>,
        first_leaves: Seq<RegisteredRefineLeafTargetModel>,
        later: Seq<int>,
    ) -> (RuntimeModel, Result<RegisteredRefineGateTargetsModel, RefineGatePreparationErrorModel>) {
        match self.frontier_ids_from(plan_id, frontiers, 0, Seq::empty()) {
            Err(error) => (self, Err(error)),
            Ok(node_ids) => match self.children_problem_from(files, plan_id, frontiers, 0) {
                Some(error) => (self, Err(error)),
                None => {
                    let (rt1, followed) = self.frontiers_reconciled_from(
                        files,
                        plan_id,
                        frontiers,
                        timestamp,
                        0,
                        Seq::empty(),
                    );
                    match followed {
                        Err(error) => (rt1, Err(error)),
                        Ok(reconciled) => {
                            let (rt2, all_leaves) = rt1.later_leaves_registered_from(
                                plan_id,
                                leaves,
                                leaf_ids,
                                timestamp,
                                later,
                                0,
                                first_leaves,
                            );
                            match all_leaves {
                                Err(error) => (rt2, Err(error)),
                                Ok(leaf_targets) => match rt2.frontiers_registered_from(
                                    plan_id,
                                    frontiers,
                                    node_ids,
                                    reconciled,
                                    0,
                                    Seq::empty(),
                                ) {
                                    Err(error) => (rt2, Err(error)),
                                    Ok(frontier_targets) => (
                                        rt2,
                                        Ok(
                                            RegisteredRefineGateTargetsModel {
                                                parent_targets,
                                                leaf_targets,
                                                frontier_targets,
                                            },
                                        ),
                                    ),
                                },
                            }
                        },
                    }
                },
            },
        }
    }
}

/// A parent whose links were followed, and what it links.
struct ReconciledParent {
    path: String,
    links: Vec<String>,
}

/// A parent whose links were followed, and what it links.
pub struct ReconciledParentModel {
    pub path: Seq<char>,
    pub links: Seq<Seq<char>>,
}

impl DeepView for ReconciledParent {
    type V = ReconciledParentModel;

    closed spec fn deep_view(&self) -> ReconciledParentModel {
        ReconciledParentModel { path: self.path@, links: self.links.deep_view() }
    }
}

/// What the first parent at or after `i` with this path links.
pub open spec fn links_of(reconciled: Seq<ReconciledParentModel>, path: Seq<char>, i: int) -> Option<
    Seq<Seq<char>>,
>
    decreases reconciled.len() - i,
{
    if i >= reconciled.len() {
        None
    } else if reconciled[i].path == path {
        Some(reconciled[i].links)
    } else {
        links_of(reconciled, path, i + 1)
    }
}

/// The links of the parent have to be followed.
pub open spec fn needs_links(candidate: RefineFrontierRegistrationCandidateModel) -> bool {
    ||| candidate.changed_child_relative_paths.len() > 0
    ||| candidate.removed_child_relative_paths.len() > 0
    ||| candidate.reasons.contains(RefineGateTargetReason::ChangedChildSet)
}

/// A child with this path is listed.
pub open spec fn is_listed(listing: ListChildrenResponseModel, path: Seq<char>) -> bool {
    exists|i: int|
        0 <= i < listing.children.len() && (#[trigger] listing.children[i]).relative_path == path
}

/// The children from `i` on that are linked and not listed, after those in
/// `acc`.
pub open spec fn unlisted_from(
    children: Seq<Seq<char>>,
    links: Seq<Seq<char>>,
    listing: ListChildrenResponseModel,
    i: int,
    acc: Seq<Seq<char>>,
) -> Seq<Seq<char>>
    decreases children.len() - i,
{
    if i >= children.len() {
        acc
    } else if links.contains(children[i]) && !is_listed(listing, children[i]) {
        unlisted_from(children, links, listing, i + 1, acc.push(children[i]))
    } else {
        unlisted_from(children, links, listing, i + 1, acc)
    }
}

fn ensure_candidate(
    runtime: &mut Runtime,
    plan_id: &str,
    path: &str,
    parent: &Option<String>,
    new_id: &str,
    timestamp: &str,
) -> (r: Result<String, RefineGatePreparationError>)
    ensures
        (final(runtime).deep_view(), outcome(r)) == old(runtime).deep_view().ensured_for(
            plan_id@,
            path@,
            parent.deep_view(),
            new_id@,
            timestamp@,
        ),
{
    let request: EnsureNodeIdRequest = EnsureNodeIdRequest {
        plan_id: plan_id.to_owned(),
        relative_path: path.to_owned(),
        parent_relative_path: parent.clone(),
    };
    match runtime.ensure_node_id_as(request, new_id, timestamp) {
        Ok(response) => Ok(response.node_id),
        Err(error) => Err(failed(path, error.message)),
    }
}

fn register_parent_candidate(
    runtime: &mut Runtime,
    plan_id: &str,
    candidate: &RefineParentRegistrationCandidate,
    settled_parents: &Vec<String>,
    new_id: &str,
    timestamp: &str,
) -> (r: Result<RegisteredRefineParentTarget, RefineGatePreparationError>)
    ensures
        (final(runtime).deep_view(), outcome(r)) == old(runtime).deep_view().parent_registered(
            plan_id@,
            candidate.deep_view(),
            settled_parents.deep_view(),
            new_id@,
            timestamp@,
        ),
{
    let path: &str = candidate.relative_path.as_str();
    validate_non_empty_reasons("parent", path, &candidate.reasons)?;
    validate_parent_path(runtime, plan_id, "relative_path", path)?;
    validate_parent_of_parent(
        runtime,
        plan_id,
        path,
        &candidate.parent_relative_path,
        settled_parents,
    )?;
    let node_id: String = match inspect_parent(runtime, plan_id, path) {
        Some(existing) => {
            if !same_optional_text(
                &existing.parent_relative_path,
                &candidate.parent_relative_path,
            ) {
                return Err(
                    failed(
                        path,
                        "existing parent target has conflicting parent linkage".to_owned(),
                    ),
                );
            }
            existing.node_id
        },
        None => ensure_candidate(
            runtime,
            plan_id,
            path,
            &candidate.parent_relative_path,
            new_id,
            timestamp,
        )?,
    };
    Ok(
        RegisteredRefineParentTarget {
            node_id,
            relative_path: candidate.relative_path.clone(),
            parent_relative_path: candidate.parent_relative_path.clone(),
            reasons: stable_dedup_reasons(&candidate.reasons),
        },
    )
}

fn register_parent_candidates(
    runtime: &mut Runtime,
    plan_id: &str,
    parents: &Vec<RefineParentRegistrationCandidate>,
    new_ids: &Vec<String>,
    timestamp: &str,
) -> (r: Result<Vec<RegisteredRefineParentTarget>, RefineGatePreparationError>)
    requires
        parents.len() <= new_ids.len(),
    ensures
        (final(runtime).deep_view(), outcome(r)) == old(
            runtime,
        ).deep_view().parents_registered_from(
            plan_id@,
            parents.deep_view(),
            new_ids.deep_view(),
            timestamp@,
            0,
            Seq::empty(),
        ),
{
    let ghost first = runtime.deep_view();
    let ghost all = parents.deep_view();
    let ghost ids = new_ids.deep_view();
    let mut settled_parents: Vec<String> = Vec::new();
    let mut targets: Vec<RegisteredRefineParentTarget> = Vec::new();
    let mut i: usize = 0;
    assert(targets.deep_view() =~= Seq::empty());
    assert(settled_parents.deep_view() =~= candidate_paths(all).take(0));
    while i < parents.len()
        invariant
            i <= parents.len() <= new_ids.len(),
            first == old(runtime).deep_view(),
            all == parents.deep_view(),
            ids == new_ids.deep_view(),
            settled_parents.deep_view() == candidate_paths(all).take(i as int),
            first.parents_registered_from(plan_id@, all, ids, timestamp@, 0, Seq::empty())
                == runtime.deep_view().parents_registered_from(
                plan_id@,
                all,
                ids,
                timestamp@,
                i as int,
                targets.deep_view(),
            ),
        decreases parents.len() - i,
    {
        let candidate: &RefineParentRegistrationCandidate = &parents[i];
        assert(all[i as int] == candidate.deep_view());
        let ghost before = targets.deep_view();
        let ghost paths = settled_parents.deep_view();
        let target: RegisteredRefineParentTarget = register_parent_candidate(
            runtime,
            plan_id,
            candidate,
            &settled_parents,
            new_ids[i].as_str(),
            timestamp,
        )?;
        targets.push(target);
        assert(targets.deep_view() =~= before.push(target.deep_view()));
        settled_parents.push(candidate.relative_path.clone());
        assert(settled_parents.deep_view() =~= paths.push(candidate.relative_path@));
        i = i + 1;
        assert(settled_parents.deep_view() =~= candidate_paths(all).take(i as int));
    }
    Ok(targets)
}

fn validate_frontier_candidates(
    runtime: &Runtime,
    plan_id: &str,
    frontiers: &Vec<RefineFrontierRegistrationCandidate>,
) -> (r: Result<(), RefineGatePreparationError>)
    ensures
        outcome(r) == settled(
            runtime.deep_view().frontier_problem_from(plan_id@, frontiers.deep_view(), 0),
        ),
{
    let ghost all = frontiers.deep_view();
    let mut i: usize = 0;
    while i < frontiers.len()
        invariant
            i <= frontiers.len(),
            all == frontiers.deep_view(),
            runtime.deep_view().frontier_problem_from(plan_id@, all, 0)
                == runtime.deep_view().frontier_problem_from(plan_id@, all, i as int),
        decreases frontiers.len() - i,
    {
        assert(all[i as int] == frontiers@[i as int].deep_view());
        validate_frontier_candidate(runtime, plan_id, &frontiers[i])?;
        i = i + 1;
    }
    Ok(())
}

fn register_leaf_candidate(
    runtime: &mut Runtime,
    plan_id: &str,
    candidate: &RefineLeafRegistrationCandidate,
    new_id: &str,
    timestamp: &str,
) -> (r: Result<RegisteredRefineLeafTarget, RefineGatePreparationError>)
    ensures
        (final(runtime).deep_view(), outcome(r)) == old(runtime).deep_view().leaf_registered(
            plan_id@,
            candidate.deep_view(),
            new_id@,
            timestamp@,
        ),
{
    let path: &str = candidate.relative_path.as_str();
    let known_id: Option<String> = match inspect_at(runtime, plan_id, path) {
        Some(existing) => {
            match existing.node_kind {
                NodeKind::Parent => {
                    return Err(
                        failed(path, "existing target path is not a leaf node".to_owned()),
                    );
                },
                NodeKind::Leaf => {},
            }
            if same_optional_text(
                &existing.parent_relative_path,
                &candidate.parent_relative_path,
            ) {
                Some(existing.node_id)
            } else {
                None
            }
        },
        None => None,
    };
    let node_id: String = match known_id {
        Some(node_id) => node_id,
        None => ensure_candidate(
            runtime,
            plan_id,
            path,
            &candidate.parent_relative_path,
            new_id,
            timestamp,
        )?,
    };
    Ok(
        RegisteredRefineLeafTarget {
            node_id,
            relative_path: candidate.relative_path.clone(),
            parent_relative_path: candidate.parent_relative_path.clone(),
            reasons: stable_dedup_reasons(&candidate.reasons),
        },
    )
}

fn leaf_needs_child_link_reconciliation(
    runtime: &Runtime,
    plan_id: &str,
    candidate: &RefineLeafRegistrationCandidate,
) -> (r: bool)
    ensures
        r == runtime.deep_view().leaf_is_misplaced(plan_id@, candidate.deep_view()),
{
    if candidate.parent_relative_path.is_none() {
        return false;
    }
    match inspect_at(runtime, plan_id, candidate.relative_path.as_str()) {
        Some(node) => match node.node_kind {
            NodeKind::Leaf => !same_optional_text(
                &node.parent_relative_path,
                &candidate.parent_relative_path,
            ),
            NodeKind::Parent => false,
        },
        None => false,
    }
}

/// The positions as integers.
spec fn positions(list: Seq<usize>) -> Seq<int> {
    Seq::new(list.len(), |i: int| list[i] as int)
}

spec fn leaf_phase(r: Result<
    (Vec<RegisteredRefineLeafTarget>, Vec<usize>),
    RefineGatePreparationError,
>) -> Result<
    (Seq<RegisteredRefineLeafTargetModel>, Seq<int>),
    RefineGatePreparationErrorModel,
> {
    match r {
        Ok((targets, later)) => Ok((targets.deep_view(), positions(later@))),
        Err(error) => Err(error.deep_view()),
    }
}

fn register_leaf_candidates(
    runtime: &mut Runtime,
    plan_id: &str,
    leaves: &Vec<RefineLeafRegistrationCandidate>,
    settled_parents: &Vec<String>,
    new_ids: &Vec<String>,
    offset: usize,
    timestamp: &str,
) -> (r: Result<(Vec<RegisteredRefineLeafTarget>, Vec<usize>), RefineGatePreparationError>)
    requires
        offset + leaves.len() <= new_ids.len(),
    ensures
        (final(runtime).deep_view(), leaf_phase(r)) == old(
            runtime,
        ).deep_view().leaves_registered_from(
            plan_id@,
            leaves.deep_view(),
            settled_parents.deep_view(),
            new_ids.deep_view().skip(offset as int),
            timestamp@,
            0,
            Seq::empty(),
            Seq::empty(),
        ),
        r matches Ok((_, later)) ==> forall|k: int|
            0 <= k < later.len() ==> (#[trigger] later@[k]) < leaves.len(),
{
    let ghost first = runtime.deep_view();
    let ghost all = leaves.deep_view();
    let ghost ids = new_ids.deep_view().skip(offset as int);
    let ghost paths = settled_parents.deep_view();
    let mut targets: Vec<RegisteredRefineLeafTarget> = Vec::new();
    let mut later: Vec<usize> = Vec::new();
    let mut i: usize = 0;
    assert(targets.deep_view() =~= Seq::empty());
    assert(positions(later@) =~= Seq::empty());
    while i < leaves.len()
        invariant
            i <= leaves.len(),
            offset + leaves.len() <= new_ids.len(),
            first == old(runtime).deep_view(),
            all == leaves.deep_view(),
            ids == new_ids.deep_view().skip(offset as int),
            paths == settled_parents.deep_view(),
            forall|k: int| 0 <= k < later.len() ==> (#[trigger] later@[k]) < leaves.len(),
            first.leaves_registered_from(
                plan_id@,
                all,
                paths,
                ids,
                timestamp@,
                0,
                Seq::empty(),
                Seq::empty(),
            ) == runtime.deep_view().leaves_registered_from(
                plan_id@,
                all,
                paths,
                ids,
                timestamp@,
                i as int,
                targets.deep_view(),
                positions(later@),
            ),
        decreases leaves.len() - i,
    {
        let candidate: &RefineLeafRegistrationCandidate = &leaves[i];
        assert(all[i as int] == candidate.deep_view());
        let path: &str = candidate.relative_path.as_str();
        validate_non_empty_reasons("leaf", path, &candidate.reasons)?;
        validate_leaf_path("relative_path", path)?;
        validate_leaf_parent(
            runtime,
            plan_id,
            path,
            &candidate.parent_relative_path,
            settled_parents,
        )?;
        if leaf_needs_child_link_reconciliation(runtime, plan_id, candidate) {
            let ghost before = positions(later@);
            later.push(i);
            assert(positions(later@) =~= before.push(i as int));
        } else {
            let ghost before = targets.deep_view();
            assert(ids[i as int] == new_ids@[offset + i]@);
            let target: RegisteredRefineLeafTarget = register_leaf_candidate(
                runtime,
                plan_id,
                candidate,
                new_ids[offset + i].as_str(),
                timestamp,
            )?;
            targets.push(target);
            assert(targets.deep_view() =~= before.push(target.deep_view()));
        }
        i = i + 1;
    }
    Ok((targets, later))
}

fn frontier_parent_node_ids(
    runtime: &Runtime,
    plan_id: &str,
    frontiers: &Vec<RefineFrontierRegistrationCandidate>,
) -> (r: Result<Vec<String>, RefineGatePreparationError>)
    ensures
        outcome(r) == runtime.deep_view().frontier_ids_from(
            plan_id@,
            frontiers.deep_view(),
            0,
            Seq::empty(),
        ),
        r matches Ok(ids) ==> ids.len() == frontiers.len(),
{
    let ghost all = frontiers.deep_view();
    let mut ids: Vec<String> = Vec::new();
    let mut i: usize = 0;
    assert(ids.deep_view() =~= Seq::empty());
    while i < frontiers.len()
        invariant
            i <= frontiers.len(),
            ids.len() == i,
            all == frontiers.deep_view(),
            runtime.deep_view().frontier_ids_from(plan_id@, all, 0, Seq::empty())
                == runtime.deep_view().frontier_ids_from(
                plan_id@,
                all,
                i as int,
                ids.deep_view(),
            ),
        decreases frontiers.len() - i,
    {
        assert(all[i as int] == frontiers@[i as int].deep_view());
        let path: &str = frontiers[i].parent_relative_path.as_str();
        match inspect_parent(runtime, plan_id, path) {
            Some(parent) => {
                let ghost before = ids.deep_view();
                let node_id: String = parent.node_id;
                ids.push(node_id);
                assert(ids.deep_view() =~= before.push(node_id@));
            },
            None => {
                return Err(
                    RefineGatePreparationError::MissingParentRegistration {
                        child_relative_path: path.to_owned(),
                        parent_relative_path: path.to_owned(),
                    },
                );
            },
        }
        i = i + 1;
    }
    Ok(ids)
}

fn validate_all_changed_child_paths(
    runtime: &Runtime,
    files: &PlanFiles,
    plan_id: &str,
    frontiers: &Vec<RefineFrontierRegistrationCandidate>,
) -> (r: Result<(), RefineGatePreparationError>)
    ensures
        outcome(r) == settled(
            runtime.deep_view().children_problem_from(
                files.deep_view(),
                plan_id@,
                frontiers.deep_view(),
                0,
            ),
        ),
{
    let ghost all = frontiers.deep_view();
    let known: Option<Candidates> = None;
    let mut i: usize = 0;
    while i < frontiers.len()
        invariant
            i <= frontiers.len(),
            known is None,
            all == frontiers.deep_view(),
            runtime.deep_view().children_problem_from(files.deep_view(), plan_id@, all, 0)
                == runtime.deep_view().children_problem_from(
                files.deep_view(),
                plan_id@,
                all,
                i as int,
            ),
        decreases frontiers.len() - i,
    {
        assert(all[i as int] == frontiers@[i as int].deep_view());
        validate_frontier_changed_child_paths(runtime, files, plan_id, &frontiers[i], &known)?;
        i = i + 1;
    }
    Ok(())
}

fn frontier_needs_child_link_reconciliation(candidate: &RefineFrontierRegistrationCandidate) -> (r:
    bool)
    ensures
        r == needs_links(candidate.deep_view()),
{
    candidate.changed_child_relative_paths.len() > 0
        || candidate.removed_child_relative_paths.len() > 0 || has_reason(
        &candidate.reasons,
        RefineGateTargetReason::ChangedChildSet,
    )
}

fn find_links<'a>(reconciled: &'a Vec<ReconciledParent>, path: &str) -> (r: Option<&'a Vec<String>>)
    ensures
        match r {
            Some(links) => links_of(reconciled.deep_view(), path@, 0) == Some(links.deep_view()),
            None => links_of(reconciled.deep_view(), path@, 0) is None,
        },
{
    let ghost all = reconciled.deep_view();
    let mut i: usize = 0;
    while i < reconciled.len()
        invariant
            i <= reconciled.len(),
            all == reconciled.deep_view(),
            links_of(all, path@, 0) == links_of(all, path@, i as int),
        decreases reconciled.len() - i,
    {
        assert(all[i as int] == reconciled@[i as int].deep_view());
        if same_text(reconciled[i].path.as_str(), path) {
            return Some(&reconciled[i].links);
        }
        i = i + 1;
    }
    None
}

fn reconcile_frontiers(
    runtime: &mut Runtime,
    files: &PlanFiles,
    plan_id: &str,
    frontiers: &Vec<RefineFrontierRegistrationCandidate>,
    timestamp: &str,
) -> (r: Result<Vec<ReconciledParent>, RefineGatePreparationError>)
    ensures
        (final(runtime).deep_view(), outcome(r)) == old(
            runtime,
        ).deep_view().frontiers_reconciled_from(
            files.deep_view(),
            plan_id@,
            frontiers.deep_view(),
            timestamp@,
            0,
            Seq::empty(),
        ),
{
    let ghost first = runtime.deep_view();
    let ghost all = frontiers.deep_view();
    let ghost disk = files.deep_view();
    let mut reconciled: Vec<ReconciledParent> = Vec::new();
    let mut i: usize = 0;
    assert(reconciled.deep_view() =~= Seq::empty());
    while i < frontiers.len()
        invariant
            i <= frontiers.len(),
            first == old(runtime).deep_view(),
            all == frontiers.deep_view(),
            disk == files.deep_view(),
            first.frontiers_reconciled_from(disk, plan_id@, all, timestamp@, 0, Seq::empty())
                == runtime.deep_view().frontiers_reconciled_from(
                disk,
                plan_id@,
                all,
                timestamp@,
                i as int,
                reconciled.deep_view(),
            ),
        decreases frontiers.len() - i,
    {
        let candidate: &RefineFrontierRegistrationCandidate = &frontiers[i];
        assert(all[i as int] == candidate.deep_view());
        let path: &str = candidate.parent_relative_path.as_str();
        if frontier_needs_child_link_reconciliation(candidate) && find_links(
            &reconciled,
            path,
        ).is_none() {
            let request: ReconcileParentChildLinksRequest = ReconcileParentChildLinksRequest {
                plan_id: plan_id.to_owned(),
                parent_relative_path: path.to_owned(),
            };
            match runtime.reconcile_parent_child_links(files, request, timestamp) {
                Ok(response) => {
                    let ghost before = reconciled.deep_view();
                    let entry: ReconciledParent = ReconciledParent {
                        path: path.to_owned(),
                        links: response.linked_child_relative_paths,
                    };
                    let ghost model = entry.deep_view();
                    reconciled.push(entry);
                    assert(reconciled.deep_view() =~= before.push(model));
                },
                Err(error) => {
                    return Err(failed(path, error.message));
                },
            }
        }
        i = i + 1;
    }
    Ok(reconciled)
}

fn register_later_leaves(
    runtime: &mut Runtime,
    plan_id: &str,
    leaves: &Vec<RefineLeafRegistrationCandidate>,
    new_ids: &Vec<String>,
    offset: usize,
    timestamp: &str,
    later: &Vec<usize>,
    start: Vec<RegisteredRefineLeafTarget>,
) -> (r: Result<Vec<RegisteredRefineLeafTarget>, RefineGatePreparationError>)
    requires
        offset + leaves.len() <= new_ids.len(),
        forall|k: int| 0 <= k < later.len() ==> (#[trigger] later@[k]) < leaves.len(),
    ensures
        (final(runtime).deep_view(), outcome(r)) == old(
            runtime,
        ).deep_view().later_leaves_registered_from(
            plan_id@,
            leaves.deep_view(),
            new_ids.deep_view().skip(offset as int),
            timestamp@,
            positions(later@),
            0,
            start.deep_view(),
        ),
{
    let ghost first = runtime.deep_view();
    let ghost all = leaves.deep_view();
    let ghost ids = new_ids.deep_view().skip(offset as int);
    let ghost waiting = positions(later@);
    let ghost begun = start.deep_view();
    let mut targets: Vec<RegisteredRefineLeafTarget> = start;
    let mut i: usize = 0;
    while i < later.len()
        invariant
            i <= later.len(),
            offset + leaves.len() <= new_ids.len(),
            forall|k: int| 0 <= k < later.len() ==> (#[trigger] later@[k]) < leaves.len(),
            first == old(runtime).deep_view(),
            begun == start.deep_view(),
            all == leaves.deep_view(),
            ids == new_ids.deep_view().skip(offset as int),
            waiting == positions(later@),
            first.later_leaves_registered_from(
                plan_id@,
                all,
                ids,
                timestamp@,
                waiting,
                0,
                begun,
            ) == runtime.deep_view().later_leaves_registered_from(
                plan_id@,
                all,
                ids,
                timestamp@,
                waiting,
                i as int,
                targets.deep_view(),
            ),
        decreases later.len() - i,
    {
        let k: usize = later[i];
        assert(waiting[i as int] == k as int);
        assert(all[k as int] == leaves@[k as int].deep_view());
        assert(ids[k as int] == new_ids@[offset + k]@);
        let ghost before = targets.deep_view();
        let target: RegisteredRefineLeafTarget = register_leaf_candidate(
            runtime,
            plan_id,
            &leaves[k],
            new_ids[offset + k].as_str(),
            timestamp,
        )?;
        targets.push(target);
        assert(targets.deep_view() =~= before.push(target.deep_view()));
        i = i + 1;
    }
    Ok(targets)
}

fn dispatchable_changed_child_relative_paths(
    runtime: &Runtime,
    plan_id: &str,
    candidate: &RefineFrontierRegistrationCandidate,
) -> (r: Vec<String>)
    ensures
        r.deep_view() == runtime.deep_view().dispatchable_from(
            plan_id@,
            candidate.deep_view().removed_child_relative_paths,
            candidate.deep_view().changed_child_relative_paths
                + candidate.deep_view().removed_child_relative_paths,
            0,
            Seq::empty(),
        ),
{
    let removed: &Vec<String> = &candidate.removed_child_relative_paths;
    let mut children: Vec<String> = copy_list(&candidate.changed_child_relative_paths);
    let mut tail: Vec<String> = copy_list(removed);
    let ghost head_view = children.deep_view();
    let ghost tail_view = tail.deep_view();
    children.append(&mut tail);
    let ghost all = children.deep_view();
    assert(all =~= head_view + tail_view);
    let mut out: Vec<String> = Vec::new();
    let mut i: usize = 0;
    assert(out.deep_view() =~= Seq::empty());
    while i < children.len()
        invariant
            i <= children.len(),
            all == children.deep_view(),
            runtime.deep_view().dispatchable_from(
                plan_id@,
                removed.deep_view(),
                all,
                0,
                Seq::empty(),
            ) == runtime.deep_view().dispatchable_from(
                plan_id@,
                removed.deep_view(),
                all,
                i as int,
                out.deep_view(),
            ),
        decreases children.len() - i,
    {
        let child: &str = children[i].as_str();
        if !list_has(removed, child) || inspect_at(runtime, plan_id, child).is_some() {
            let ghost before = out.deep_view();
            out.push(child.to_owned());
            assert(out.deep_view() =~= before.push(child@));
        }
        i = i + 1;
    }
    out
}

fn unlisted_children(
    children: &Vec<String>,
    links: &Vec<String>,
    listing: &ListChildrenResponse,
) -> (r: Vec<String>)
    ensures
        r.deep_view() == unlisted_from(
            children.deep_view(),
            links.deep_view(),
            listing.deep_view(),
            0,
            Seq::empty(),
        ),
{
    let ghost all = children.deep_view();
    let ghost listed_children = listing.deep_view().children;
    let mut out: Vec<String> = Vec::new();
    let mut i: usize = 0;
    assert(out.deep_view() =~= Seq::empty());
    while i < children.len()
        invariant
            i <= children.len(),
            all == children.deep_view(),
            listed_children == listing.deep_view().children,
            unlisted_from(all, links.deep_view(), listing.deep_view(), 0, Seq::empty())
                == unlisted_from(
                all,
                links.deep_view(),
                listing.deep_view(),
                i as int,
                out.deep_view(),
            ),
        decreases children.len() - i,
    {
        let child: &str = children[i].as_str();
        let mut listed: bool = false;
        let mut k: usize = 0;
        while k < listing.children.len()
            invariant
                k <= listing.children.len(),
                listed_children == listing.children.deep_view(),
                listed == exists|j: int|
                    0 <= j < k && (#[trigger] listed_children[j]).relative_path == child@,
            decreases listing.children.len() - k,
        {
            assert(listed_children[k as int] == listing.children@[k as int].deep_view());
            if same_text(listing.children[k].relative_path.as_str(), child) {
                listed = true;
            }
            k = k + 1;
        }
        if list_has(links, child) && !listed {
            let ghost before = out.deep_view();
            out.push(child.to_owned());
            assert(out.deep_view() =~= before.push(child@));
        }
        i = i + 1;
    }
    out
}

fn register_frontier_candidate(
    runtime: &Runtime,
    plan_id: &str,
    candidate: &RefineFrontierRegistrationCandidate,
    parent_node_id: &str,
    reconciled: &Vec<ReconciledParent>,
) -> (r: Result<RegisteredRefineFrontierTarget, RefineGatePreparationError>)
    ensures
        outcome(r) == runtime.deep_view().frontier_registered(
            plan_id@,
            candidate.deep_view(),
            parent_node_id@,
            reconciled.deep_view(),
        ),
{
    let path: &str = candidate.parent_relative_path.as_str();
    let request: ListChildrenRequest = ListChildrenRequest {
        plan_id: plan_id.to_owned(),
        parent_node_id: Some(parent_node_id.to_owned()),
        parent_relative_path: None,
    };
    let listing: ListChildrenResponse = match runtime.list_children(request) {
        Ok(listing) => listing,
        Err(error) => {
            return Err(failed(path, error.message));
        },
    };
    let none: Vec<String> = Vec::new();
    assert(none.deep_view() =~= Seq::empty());
    let links: &Vec<String> = match find_links(reconciled, path) {
        Some(links) => links,
        None => &none,
    };
    let missing: Vec<String> = unlisted_children(
        &candidate.changed_child_relative_paths,
        links,
        &listing,
    );
    if missing.len() > 0 {
        return Err(
            RefineGatePreparationError::IncoherentFrontierChildren {
                parent_relative_path: path.to_owned(),
                missing_child_relative_paths: missing,
            },
        );
    }
    let dispatchable: Vec<String> = dispatchable_changed_child_relative_paths(
        runtime,
        plan_id,
        candidate,
    );
    let mut changed: Vec<String> = Vec::new();
    assert(changed.deep_view() =~= Seq::empty());
    push_all_unique(&mut changed, &dispatchable);
    Ok(
        RegisteredRefineFrontierTarget {
            parent_node_id: parent_node_id.to_owned(),
            parent_relative_path: path.to_owned(),
            changed_child_relative_paths: changed,
            reasons: stable_dedup_reasons(&candidate.reasons),
        },
    )
}

#[verifier::loop_isolation(false)]
fn register_frontier_candidates(
    runtime: &Runtime,
    plan_id: &str,
    frontiers: &Vec<RefineFrontierRegistrationCandidate>,
    node_ids: &Vec<String>,
    reconciled: &Vec<ReconciledParent>,
) -> (r: Result<Vec<RegisteredRefineFrontierTarget>, RefineGatePreparationError>)
    requires
        node_ids.len() == frontiers.len(),
    ensures
        outcome(r) == runtime.deep_view().frontiers_registered_from(
            plan_id@,
            frontiers.deep_view(),
            node_ids.deep_view(),
            reconciled.deep_view(),
            0,
            Seq::empty(),
        ),
{
    let ghost model = runtime.deep_view();
    let ghost all = frontiers.deep_view();
    let ghost ids = node_ids.deep_view();
    let ghost followed = reconciled.deep_view();
    let mut targets: Vec<RegisteredRefineFrontierTarget> = Vec::new();
    let mut i: usize = 0;
    assert(targets.deep_view() =~= Seq::empty());
    while i < frontiers.len()
        invariant
            i <= frontiers.len(),
            model.frontiers_registered_from(plan_id@, all, ids, followed, 0, Seq::empty())
                == model.frontiers_registered_from(
                plan_id@,
                all,
                ids,
                followed,
                i as int,
                targets.deep_view(),
            ),
        decreases frontiers.len() - i,
    {
        assert(all[i as int] == frontiers@[i as int].deep_view());
        let ghost before = targets.deep_view();
        let target: RegisteredRefineFrontierTarget = register_frontier_candidate(
            runtime,
            plan_id,
            &frontiers[i],
            node_ids[i].as_str(),
            reconciled,
        )?;
        targets.push(target);
        assert(targets.deep_view() =~= before.push(target.deep_view()));
        i = i + 1;
    }
    Ok(targets)
}

/// Tracks the targets of gates under new ids: checks the whole request first,
/// then tracks the parents, the leaves, and the children that the frontiers
/// link. A request that is refused on the way tracks nothing.
pub fn register_refine_gate_targets(
    runtime: &mut Runtime,
    files: &PlanFiles,
    request: RegisterRefineGateTargetsRequest,
    timestamp: &str,
) -> (r: Result<RegisteredRefineGateTargets, RefineGatePreparationError>)
    ensures
        exists|ids: Seq<Seq<char>>|
            #[trigger] are_random_ids(ids) && ids.len() == request.parent_candidates.len()
                + request.leaf_candidates.len() && (final(runtime).deep_view(), outcome(r))
                == old(runtime).deep_view().targets_registered(
                files.deep_view(),
                request.deep_view(),
                ids,
                timestamp@,
            ),
        r is Err ==> final(runtime).deep_view() == old(runtime).deep_view(),
{
    let mut ids: Vec<String> = new_ids(request.parent_candidates.len());
    let mut more: Vec<String> = new_ids(request.leaf_candidates.len());
    let ghost first = ids.deep_view();
    let ghost rest = more.deep_view();
    ids.append(&mut more);
    proof {
        assert(ids.deep_view() =~= first + rest);
        assert forall|i: int| 0 <= i < ids.deep_view().len() implies is_random_id(
            #[trigger] ids.deep_view()[i],
        ) by {
            if i < first.len() {
                assert(ids.deep_view()[i] == first[i]);
            } else {
                assert(ids.deep_view()[i] == rest[i - first.len()]);
            }
        }
        assert(are_random_ids(ids.deep_view()));
    }
    register_refine_gate_targets_as(runtime, files, request, &ids, timestamp)
}

/// Tracks the targets of gates under the given ids: checks the whole request
/// first, then tracks the parents, the leaves, and the children that the
/// frontiers link. A request that is refused on the way tracks nothing.
pub fn register_refine_gate_targets_as(
    runtime: &mut Runtime,
    files: &PlanFiles,
    request: RegisterRefineGateTargetsRequest,
    new_ids: &Vec<String>,
    timestamp: &str,
) -> (r: Result<RegisteredRefineGateTargets, RefineGatePreparationError>)
    requires
        new_ids.len() >= request.parent_candidates.len() + request.leaf_candidates.len(),
    ensures
        (final(runtime).deep_view(), outcome(r)) == old(runtime).deep_view().targets_registered(
            files.deep_view(),
            request.deep_view(),
            new_ids.deep_view(),
            timestamp@,
        ),
        r is Err ==> final(runtime).deep_view() == old(runtime).deep_view(),
{
    let mut next: Runtime = runtime.clone();
    let targets: RegisteredRefineGateTargets = track_targets(
        &mut next,
        files,
        request,
        new_ids,
        timestamp,
    )?;
    *runtime = next;
    Ok(targets)
}

fn track_targets(
    runtime: &mut Runtime,
    files: &PlanFiles,
    request: RegisterRefineGateTargetsRequest,
    new_ids: &Vec<String>,
    timestamp: &str,
) -> (r: Result<RegisteredRefineGateTargets, RefineGatePreparationError>)
    requires
        new_ids.len() >= request.parent_candidates.len() + request.leaf_candidates.len(),
    ensures
        (final(runtime).deep_view(), outcome(r)) == old(runtime).deep_view().targets_tracked(
            files.deep_view(),
            request.deep_view(),
            new_ids.deep_view(),
            timestamp@,
        ),
{
    let plan_id: &str = request.plan_id.as_str();
    let parents: Vec<RefineParentRegistrationCandidate> = ordered_parent_candidates(
        &request.parent_candidates,
    );
    let leaves: &Vec<RefineLeafRegistrationCandidate> = &request.leaf_candidates;
    let frontiers: &Vec<RefineFrontierRegistrationCandidate> = &request.frontier_candidates;
    prevalidate_registration_request(runtime, files, plan_id, &parents, leaves, frontiers)?;
    let parent_targets: Vec<RegisteredRefineParentTarget> = register_parent_candidates(
        runtime,
        plan_id,
        &parents,
        new_ids,
        timestamp,
    )?;
    validate_frontier_candidates(runtime, plan_id, frontiers)?;
    let settled_parents: Vec<String> = paths_of_candidates(&parents);
    let offset: usize = parents.len();
    let (first_leaves, later): (Vec<RegisteredRefineLeafTarget>, Vec<usize>) =
        register_leaf_candidates(
        runtime,
        plan_id,
        leaves,
        &settled_parents,
        new_ids,
        offset,
        timestamp,
    )?;
    let node_ids: Vec<String> = frontier_parent_node_ids(runtime, plan_id, frontiers)?;
    validate_all_changed_child_paths(runtime, files, plan_id, frontiers)?;
    let reconciled: Vec<ReconciledParent> = reconcile_frontiers(
        runtime,
        files,
        plan_id,
        frontiers,
        timestamp,
    )?;
    let leaf_targets: Vec<RegisteredRefineLeafTarget> = register_later_leaves(
        runtime,
        plan_id,
        leaves,
        new_ids,
        offset,
        timestamp,
        &later,
        first_leaves,
    )?;
    let frontier_targets: Vec<RegisteredRefineFrontierTarget> = register_frontier_candidates(
        runtime,
        plan_id,
        frontiers,
        &node_ids,
        &reconciled,
    )?;
    Ok(RegisteredRefineGateTargets { parent_targets, leaf_targets, frontier_targets })
}

/// A request that is refused leaves the runtime as it was, whatever it was
/// refused for.
pub proof fn refused_registration_tracks_nothing(
    runtime: RuntimeModel,
    files: PlanFilesModel,
    request: RegisterRefineGateTargetsRequestModel,
    new_ids: Seq<Seq<char>>,
    timestamp: Seq<char>,
)
    requires
        runtime.targets_registered(files, request, new_ids, timestamp).1 is Err,
    ensures
        runtime.targets_registered(files, request, new_ids, timestamp).0 == runtime,
{
}

/// A request with a problem that shows before anything is tracked is refused
/// for that problem.
pub proof fn unfit_registration_is_refused(
    runtime: RuntimeModel,
    files: PlanFilesModel,
    request: RegisterRefineGateTargetsRequestModel,
    new_ids: Seq<Seq<char>>,
    timestamp: Seq<char>,
)
    ensures
        runtime.request_problem(
            files,
            request.plan_id,
            by_depth(request.parent_candidates, request.parent_candidates.len() as int),
            request.leaf_candidates,
            request.frontier_candidates,
        ) matches Some(error) ==> runtime.targets_registered(files, request, new_ids, timestamp)
            == (runtime, Err::<RegisteredRefineGateTargetsModel, _>(error)),
{
}

} // verus!
