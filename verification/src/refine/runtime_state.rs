//! What the runtime knows of the nodes that a rewrite concerns.
use super::changes::{
    RefineChangedFile, RefineChangedFileKind, RefineChangedFileModel, RefineContextInvalidation,
    RefineContextInvalidationModel, RefineStaleNode, RefineStaleNodeModel, RefineStructuralChange,
    RefineStructuralChangeModel, RefineUnchangedNode, RefineUnchangedNodeModel,
};
use super::rewrite_types::{RefineRewriteResult, RefineRewriteResultModel};
use crate::api::{
    GateSummary, GateSummaryModel, InspectNodeRequest, InspectNodeRequestModel, InspectNodeResponse,
    InspectNodeResponseModel, ListChildrenRequest, ListChildrenRequestModel, NodeKind, NodeSummary,
    NodeSummaryModel,
};
use crate::error::outcome;
use crate::paths::{is_plan_markdown, path_is_plan_markdown};
use crate::runtime::store::{Runtime, RuntimeModel};
use crate::text::{
    comes_before, is_text, list_has, order_is_total, order_is_transitive, same_text, text_before,
};
use vstd::prelude::*;

verus! {

/// Whether an approval holds.
#[derive(Debug, Clone, Copy, PartialEq, Eq, Structural)]
pub enum RefineStaleGateClassification {
    Stale,
    NotStale,
}

impl DeepView for RefineStaleGateClassification {
    type V = RefineStaleGateClassification;

    open spec fn deep_view(&self) -> RefineStaleGateClassification {
        *self
    }
}

/// What kind of gate an approval is of.
#[derive(Debug, Clone, Copy, PartialEq, Eq, Structural)]
pub enum StaleGateTargetKind {
    Leaf,
    Frontier,
}

impl DeepView for StaleGateTargetKind {
    type V = StaleGateTargetKind;

    open spec fn deep_view(&self) -> StaleGateTargetKind {
        *self
    }
}

/// What an earlier step says of an approval.
#[derive(Debug, PartialEq, Eq)]
pub struct RefineStaleResultHandoff {
    pub target_kind: StaleGateTargetKind,
    pub node_id: Option<String>,
    pub relative_path: String,
    pub parent_node_id: Option<String>,
    pub parent_relative_path: Option<String>,
    pub regenerated_child_relative_path: Option<String>,
    pub classification: RefineStaleGateClassification,
    pub invalidation_reason: String,
}

/// The meaning of a [`RefineStaleResultHandoff`].
pub struct RefineStaleResultHandoffModel {
    pub target_kind: StaleGateTargetKind,
    pub node_id: Option<Seq<char>>,
    pub relative_path: Seq<char>,
    pub parent_node_id: Option<Seq<char>>,
    pub parent_relative_path: Option<Seq<char>>,
    pub regenerated_child_relative_path: Option<Seq<char>>,
    pub classification: RefineStaleGateClassification,
    pub invalidation_reason: Seq<char>,
}

impl DeepView for RefineStaleResultHandoff {
    type V = RefineStaleResultHandoffModel;

    open spec fn deep_view(&self) -> RefineStaleResultHandoffModel {
        RefineStaleResultHandoffModel {
            target_kind: self.target_kind,
            node_id: self.node_id.deep_view(),
            relative_path: self.relative_path@,
            parent_node_id: self.parent_node_id.deep_view(),
            parent_relative_path: self.parent_relative_path.deep_view(),
            regenerated_child_relative_path: self.regenerated_child_relative_path.deep_view(),
            classification: self.classification,
            invalidation_reason: self.invalidation_reason@,
        }
    }
}

impl Clone for RefineStaleResultHandoff {
    fn clone(&self) -> (r: Self)
        ensures
            r.deep_view() == self.deep_view(),
    {
        RefineStaleResultHandoff {
            target_kind: self.target_kind,
            node_id: self.node_id.clone(),
            relative_path: self.relative_path.clone(),
            parent_node_id: self.parent_node_id.clone(),
            parent_relative_path: self.parent_relative_path.clone(),
            regenerated_child_relative_path: self.regenerated_child_relative_path.clone(),
            classification: self.classification,
            invalidation_reason: self.invalidation_reason.clone(),
        }
    }
}

/// A tracked node and its children.
#[derive(Debug, PartialEq, Eq)]
pub struct RefineRuntimeNodeSummary {
    pub node_id: String,
    pub relative_path: String,
    pub node_kind: NodeKind,
    pub parent_node_id: Option<String>,
    pub parent_relative_path: Option<String>,
    pub child_relative_paths: Vec<String>,
}

/// The meaning of a [`RefineRuntimeNodeSummary`].
pub struct RefineRuntimeNodeSummaryModel {
    pub node_id: Seq<char>,
    pub relative_path: Seq<char>,
    pub node_kind: NodeKind,
    pub parent_node_id: Option<Seq<char>>,
    pub parent_relative_path: Option<Seq<char>>,
    pub child_relative_paths: Seq<Seq<char>>,
}

impl DeepView for RefineRuntimeNodeSummary {
    type V = RefineRuntimeNodeSummaryModel;

    open spec fn deep_view(&self) -> RefineRuntimeNodeSummaryModel {
        RefineRuntimeNodeSummaryModel {
            node_id: self.node_id@,
            relative_path: self.relative_path@,
            node_kind: self.node_kind,
            parent_node_id: self.parent_node_id.deep_view(),
            parent_relative_path: self.parent_relative_path.deep_view(),
            child_relative_paths: self.child_relative_paths.deep_view(),
        }
    }
}

impl Clone for RefineRuntimeNodeSummary {
    fn clone(&self) -> (r: Self)
        ensures
            r.deep_view() == self.deep_view(),
    {
        let r: RefineRuntimeNodeSummary = RefineRuntimeNodeSummary {
            node_id: self.node_id.clone(),
            relative_path: self.relative_path.clone(),
            node_kind: self.node_kind,
            parent_node_id: self.parent_node_id.clone(),
            parent_relative_path: self.parent_relative_path.clone(),
            child_relative_paths: self.child_relative_paths.clone(),
        };
        assert(r.child_relative_paths.deep_view() =~= self.child_relative_paths.deep_view());
        r
    }
}

/// The tracked nodes that a rewrite concerns.
#[derive(Debug, PartialEq, Eq)]
pub struct RefineRuntimeNodeSnapshot {
    pub nodes: Vec<RefineRuntimeNodeSummary>,
}

/// The meaning of a [`RefineRuntimeNodeSnapshot`].
pub struct RefineRuntimeNodeSnapshotModel {
    pub nodes: Seq<RefineRuntimeNodeSummaryModel>,
}

impl DeepView for RefineRuntimeNodeSnapshot {
    type V = RefineRuntimeNodeSnapshotModel;

    open spec fn deep_view(&self) -> RefineRuntimeNodeSnapshotModel {
        RefineRuntimeNodeSnapshotModel {
            nodes: self.nodes.deep_view(),
        }
    }
}

impl Clone for RefineRuntimeNodeSnapshot {
    fn clone(&self) -> (r: Self)
        ensures
            r.deep_view() == self.deep_view(),
    {
        let r: RefineRuntimeNodeSnapshot = RefineRuntimeNodeSnapshot {
            nodes: self.nodes.clone(),
        };
        assert(r.nodes.deep_view() =~= self.nodes.deep_view());
        r
    }
}

impl RefineRuntimeNodeSnapshotModel {
    /// Nothing in any of the lists.
    pub open spec fn empty() -> RefineRuntimeNodeSnapshotModel {
        RefineRuntimeNodeSnapshotModel {
            nodes: Seq::empty(),
        }
    }
}

impl Default for RefineRuntimeNodeSnapshot {
    fn default() -> (r: Self)
        ensures
            r.deep_view() == RefineRuntimeNodeSnapshotModel::empty(),
    {
        let r: RefineRuntimeNodeSnapshot = RefineRuntimeNodeSnapshot {
            nodes: Vec::new(),
        };
        assert(r.nodes.deep_view() =~= Seq::empty());
        r
    }
}

/// The approval of a leaf.
#[derive(Debug, PartialEq, Eq)]
pub struct RefinePriorLeafGateSummary {
    pub node_id: String,
    pub relative_path: String,
    pub summary: GateSummary,
}

/// The meaning of a [`RefinePriorLeafGateSummary`].
pub struct RefinePriorLeafGateSummaryModel {
    pub node_id: Seq<char>,
    pub relative_path: Seq<char>,
    pub summary: GateSummaryModel,
}

impl DeepView for RefinePriorLeafGateSummary {
    type V = RefinePriorLeafGateSummaryModel;

    open spec fn deep_view(&self) -> RefinePriorLeafGateSummaryModel {
        RefinePriorLeafGateSummaryModel {
            node_id: self.node_id@,
            relative_path: self.relative_path@,
            summary: self.summary.deep_view(),
        }
    }
}

impl Clone for RefinePriorLeafGateSummary {
    fn clone(&self) -> (r: Self)
        ensures
            r.deep_view() == self.deep_view(),
    {
        RefinePriorLeafGateSummary {
            node_id: self.node_id.clone(),
            relative_path: self.relative_path.clone(),
            summary: self.summary.clone(),
        }
    }
}

/// The approval of a parent.
#[derive(Debug, PartialEq, Eq)]
pub struct RefinePriorFrontierGateSummary {
    pub parent_node_id: String,
    pub parent_relative_path: String,
    pub summary: GateSummary,
}

/// The meaning of a [`RefinePriorFrontierGateSummary`].
pub struct RefinePriorFrontierGateSummaryModel {
    pub parent_node_id: Seq<char>,
    pub parent_relative_path: Seq<char>,
    pub summary: GateSummaryModel,
}

impl DeepView for RefinePriorFrontierGateSummary {
    type V = RefinePriorFrontierGateSummaryModel;

    open spec fn deep_view(&self) -> RefinePriorFrontierGateSummaryModel {
        RefinePriorFrontierGateSummaryModel {
            parent_node_id: self.parent_node_id@,
            parent_relative_path: self.parent_relative_path@,
            summary: self.summary.deep_view(),
        }
    }
}

impl Clone for RefinePriorFrontierGateSummary {
    fn clone(&self) -> (r: Self)
        ensures
            r.deep_view() == self.deep_view(),
    {
        RefinePriorFrontierGateSummary {
            parent_node_id: self.parent_node_id.clone(),
            parent_relative_path: self.parent_relative_path.clone(),
            summary: self.summary.clone(),
        }
    }
}

/// The approvals that a rewrite concerns.
#[derive(Debug, PartialEq, Eq)]
pub struct RefinePriorGateSummaries {
    pub leaf: Vec<RefinePriorLeafGateSummary>,
    pub frontier: Vec<RefinePriorFrontierGateSummary>,
}

/// The meaning of a [`RefinePriorGateSummaries`].
pub struct RefinePriorGateSummariesModel {
    pub leaf: Seq<RefinePriorLeafGateSummaryModel>,
    pub frontier: Seq<RefinePriorFrontierGateSummaryModel>,
}

impl DeepView for RefinePriorGateSummaries {
    type V = RefinePriorGateSummariesModel;

    open spec fn deep_view(&self) -> RefinePriorGateSummariesModel {
        RefinePriorGateSummariesModel {
            leaf: self.leaf.deep_view(),
            frontier: self.frontier.deep_view(),
        }
    }
}

impl Clone for RefinePriorGateSummaries {
    fn clone(&self) -> (r: Self)
        ensures
            r.deep_view() == self.deep_view(),
    {
        let r: RefinePriorGateSummaries = RefinePriorGateSummaries {
            leaf: self.leaf.clone(),
            frontier: self.frontier.clone(),
        };
        assert(r.leaf.deep_view() =~= self.leaf.deep_view());
        assert(r.frontier.deep_view() =~= self.frontier.deep_view());
        r
    }
}

impl RefinePriorGateSummariesModel {
    /// Nothing in any of the lists.
    pub open spec fn empty() -> RefinePriorGateSummariesModel {
        RefinePriorGateSummariesModel {
            leaf: Seq::empty(),
            frontier: Seq::empty(),
        }
    }
}

impl Default for RefinePriorGateSummaries {
    fn default() -> (r: Self)
        ensures
            r.deep_view() == RefinePriorGateSummariesModel::empty(),
    {
        let r: RefinePriorGateSummaries = RefinePriorGateSummaries {
            leaf: Vec::new(),
            frontier: Vec::new(),
        };
        assert(r.leaf.deep_view() =~= Seq::empty());
        assert(r.frontier.deep_view() =~= Seq::empty());
        r
    }
}

/// Asks for what the selection of gates needs.
#[derive(Debug, PartialEq, Eq)]
pub struct BuildRefineGateSelectionInputsRequest {
    pub plan_id: String,
    pub rewrite_result: RefineRewriteResult,
    pub stale_result_handoff: Vec<RefineStaleResultHandoff>,
}

/// The meaning of a [`BuildRefineGateSelectionInputsRequest`].
pub struct BuildRefineGateSelectionInputsRequestModel {
    pub plan_id: Seq<char>,
    pub rewrite_result: RefineRewriteResultModel,
    pub stale_result_handoff: Seq<RefineStaleResultHandoffModel>,
}

impl DeepView for BuildRefineGateSelectionInputsRequest {
    type V = BuildRefineGateSelectionInputsRequestModel;

    open spec fn deep_view(&self) -> BuildRefineGateSelectionInputsRequestModel {
        BuildRefineGateSelectionInputsRequestModel {
            plan_id: self.plan_id@,
            rewrite_result: self.rewrite_result.deep_view(),
            stale_result_handoff: self.stale_result_handoff.deep_view(),
        }
    }
}

impl Clone for BuildRefineGateSelectionInputsRequest {
    fn clone(&self) -> (r: Self)
        ensures
            r.deep_view() == self.deep_view(),
    {
        let r: BuildRefineGateSelectionInputsRequest = BuildRefineGateSelectionInputsRequest {
            plan_id: self.plan_id.clone(),
            rewrite_result: self.rewrite_result.clone(),
            stale_result_handoff: self.stale_result_handoff.clone(),
        };
        assert(r.stale_result_handoff.deep_view() =~= self.stale_result_handoff.deep_view());
        r
    }
}

/// What the selection of gates needs.
#[derive(Debug, PartialEq, Eq)]
pub struct RefineGateSelectionInputs {
    pub rewrite_result: RefineRewriteResult,
    pub runtime_snapshot: RefineRuntimeNodeSnapshot,
    pub prior_gate_summaries: RefinePriorGateSummaries,
    pub stale_result_handoff: Vec<RefineStaleResultHandoff>,
}

/// The meaning of a [`RefineGateSelectionInputs`].
pub struct RefineGateSelectionInputsModel {
    pub rewrite_result: RefineRewriteResultModel,
    pub runtime_snapshot: RefineRuntimeNodeSnapshotModel,
    pub prior_gate_summaries: RefinePriorGateSummariesModel,
    pub stale_result_handoff: Seq<RefineStaleResultHandoffModel>,
}

impl DeepView for RefineGateSelectionInputs {
    type V = RefineGateSelectionInputsModel;

    open spec fn deep_view(&self) -> RefineGateSelectionInputsModel {
        RefineGateSelectionInputsModel {
            rewrite_result: self.rewrite_result.deep_view(),
            runtime_snapshot: self.runtime_snapshot.deep_view(),
            prior_gate_summaries: self.prior_gate_summaries.deep_view(),
            stale_result_handoff: self.stale_result_handoff.deep_view(),
        }
    }
}

impl Clone for RefineGateSelectionInputs {
    fn clone(&self) -> (r: Self)
        ensures
            r.deep_view() == self.deep_view(),
    {
        let r: RefineGateSelectionInputs = RefineGateSelectionInputs {
            rewrite_result: self.rewrite_result.clone(),
            runtime_snapshot: self.runtime_snapshot.clone(),
            prior_gate_summaries: self.prior_gate_summaries.clone(),
            stale_result_handoff: self.stale_result_handoff.clone(),
        };
        assert(r.stale_result_handoff.deep_view() =~= self.stale_result_handoff.deep_view());
        r
    }
}

/// Why the runtime cannot answer.
#[derive(Debug, PartialEq, Eq)]
pub enum RefineRuntimeStateLoadError {
    InvalidCanonicalPath { relative_path: String },
    MissingTrackedNode { relative_path: String, source: String },
    MissingParentChildSet { parent_relative_path: String, source: String },
    StaleHandoffMismatch { relative_path: String },
}

/// The meaning of a [`RefineRuntimeStateLoadError`].
pub enum RefineRuntimeStateLoadErrorModel {
    InvalidCanonicalPath { relative_path: Seq<char> },
    MissingTrackedNode { relative_path: Seq<char>, source: Seq<char> },
    MissingParentChildSet { parent_relative_path: Seq<char>, source: Seq<char> },
    StaleHandoffMismatch { relative_path: Seq<char> },
}

impl DeepView for RefineRuntimeStateLoadError {
    type V = RefineRuntimeStateLoadErrorModel;

    open spec fn deep_view(&self) -> RefineRuntimeStateLoadErrorModel {
        match self {
            RefineRuntimeStateLoadError::InvalidCanonicalPath { relative_path } => RefineRuntimeStateLoadErrorModel::InvalidCanonicalPath {
                relative_path: relative_path@,
            },
            RefineRuntimeStateLoadError::MissingTrackedNode { relative_path, source } => RefineRuntimeStateLoadErrorModel::MissingTrackedNode {
                relative_path: relative_path@,
                source: source@,
            },
            RefineRuntimeStateLoadError::MissingParentChildSet { parent_relative_path, source } => RefineRuntimeStateLoadErrorModel::MissingParentChildSet {
                parent_relative_path: parent_relative_path@,
                source: source@,
            },
            RefineRuntimeStateLoadError::StaleHandoffMismatch { relative_path } => RefineRuntimeStateLoadErrorModel::StaleHandoffMismatch {
                relative_path: relative_path@,
            },
        }
    }
}

impl Clone for RefineRuntimeStateLoadError {
    fn clone(&self) -> (r: Self)
        ensures
            r.deep_view() == self.deep_view(),
    {
        match self {
            RefineRuntimeStateLoadError::InvalidCanonicalPath { relative_path } => RefineRuntimeStateLoadError::InvalidCanonicalPath {
                relative_path: relative_path.clone(),
            },
            RefineRuntimeStateLoadError::MissingTrackedNode { relative_path, source } => RefineRuntimeStateLoadError::MissingTrackedNode {
                relative_path: relative_path.clone(),
                source: source.clone(),
            },
            RefineRuntimeStateLoadError::MissingParentChildSet { parent_relative_path, source } => RefineRuntimeStateLoadError::MissingParentChildSet {
                parent_relative_path: parent_relative_path.clone(),
                source: source.clone(),
            },
            RefineRuntimeStateLoadError::StaleHandoffMismatch { relative_path } => RefineRuntimeStateLoadError::StaleHandoffMismatch {
                relative_path: relative_path.clone(),
            },
        }
    }
}

// ---------------------------------------------------------------------
// The nodes to look up
// ---------------------------------------------------------------------
/// A node to look up: by its id where that is known, else by its path.
struct LoadTarget {
    path: String,
    node_id: Option<String>,
}

/// A node to look up.
pub struct LoadTargetModel {
    pub path: Seq<char>,
    pub node_id: Option<Seq<char>>,
}

impl DeepView for LoadTarget {
    type V = LoadTargetModel;

    closed spec fn deep_view(&self) -> LoadTargetModel {
        LoadTargetModel { path: self.path@, node_id: self.node_id.deep_view() }
    }
}

/// The nodes to look up with one more at its place; the later of two for one
/// path counts.
pub open spec fn put_target(
    targets: Seq<LoadTargetModel>,
    path: Seq<char>,
    node_id: Option<Seq<char>>,
) -> Seq<LoadTargetModel>
    decreases targets.len(),
{
    let entry = LoadTargetModel { path, node_id };
    if targets.len() > 0 && text_before(path, targets.last().path) {
        put_target(targets.drop_last(), path, node_id).push(targets.last())
    } else if targets.len() > 0 && targets.last().path == path {
        targets.drop_last().push(entry)
    } else {
        targets.push(entry)
    }
}

/// Each path comes before those after it.
pub open spec fn targets_are_sorted(targets: Seq<LoadTargetModel>) -> bool {
    forall|i: int, j: int|
        0 <= i < j < targets.len() ==> text_before(
            (#[trigger] targets[i]).path,
            (#[trigger] targets[j]).path,
        )
}

/// Nodes are looked up in the order of their paths, each path once.
pub proof fn targets_stay_sorted(
    targets: Seq<LoadTargetModel>,
    path: Seq<char>,
    node_id: Option<Seq<char>>,
)
    requires
        targets_are_sorted(targets),
    ensures
        targets_are_sorted(put_target(targets, path, node_id)),
        forall|i: int|
            0 <= i < put_target(targets, path, node_id).len() ==> (
            #[trigger] put_target(targets, path, node_id)[i]).path == path || exists|j: int|
                0 <= j < targets.len() && targets[j] == put_target(targets, path, node_id)[i],
        exists|i: int|
            0 <= i < put_target(targets, path, node_id).len() && put_target(
                targets,
                path,
                node_id,
            )[i] == (LoadTargetModel { path, node_id }),
    decreases targets.len(),
{
    let out = put_target(targets, path, node_id);
    let entry = LoadTargetModel { path, node_id };
    if targets.len() > 0 && text_before(path, targets.last().path) {
        let rest = targets.drop_last();
        targets_stay_sorted(rest, path, node_id);
        let inner = put_target(rest, path, node_id);
        assert forall|i: int| 0 <= i < out.len() implies (#[trigger] out[i]).path == path || exists|
            j: int,
        |
            0 <= j < targets.len() && targets[j] == out[i] by {
            if i < inner.len() {
                assert(out[i] == inner[i]);
                if inner[i].path != path {
                    let j = choose|j: int| 0 <= j < rest.len() && rest[j] == inner[i];
                    assert(targets[j] == out[i]);
                }
            } else {
                assert(targets[targets.len() - 1] == out[i]);
            }
        }
        assert forall|i: int, j: int| 0 <= i < j < out.len() implies text_before(
            (#[trigger] out[i]).path,
            (#[trigger] out[j]).path,
        ) by {
            assert(out[i] == inner[i]);
            if j < inner.len() {
                assert(out[j] == inner[j]);
            } else if inner[i].path != path {
                let k = choose|k: int| 0 <= k < rest.len() && rest[k] == inner[i];
                assert(targets[k] == inner[i]);
                assert(text_before(targets[k].path, targets[targets.len() - 1].path));
            }
        }
        let w = choose|w: int| 0 <= w < inner.len() && inner[w] == entry;
        assert(out[w] == entry);
    } else {
        let kept = if targets.len() > 0 && targets.last().path == path {
            targets.drop_last()
        } else {
            targets
        };
        assert(out == kept.push(entry));
        assert(out[kept.len() as int] == entry);
        assert forall|i: int| 0 <= i < out.len() implies (#[trigger] out[i]).path == path || exists|
            j: int,
        |
            0 <= j < targets.len() && targets[j] == out[i] by {
            if i < kept.len() {
                assert(targets[i] == out[i]);
            }
        }
        assert forall|i: int, j: int| 0 <= i < j < out.len() implies text_before(
            (#[trigger] out[i]).path,
            (#[trigger] out[j]).path,
        ) by {
            assert(out[i] == targets[i]);
            if j < kept.len() {
                assert(out[j] == targets[j]);
            } else {
                let last = targets[targets.len() - 1];
                order_is_total(path, last.path);
                if last.path == path {
                    assert(text_before(targets[i].path, last.path));
                } else if i < targets.len() - 1 {
                    assert(text_before(targets[i].path, last.path));
                    order_is_transitive(targets[i].path, last.path, path);
                }
            }
        }
    }
}

proof fn put_target_at(
    targets: Seq<LoadTargetModel>,
    path: Seq<char>,
    node_id: Option<Seq<char>>,
    k: int,
)
    requires
        0 <= k <= targets.len(),
        forall|j: int|
            k <= j < targets.len() ==> text_before(path, (#[trigger] targets[j]).path),
        k > 0 ==> !text_before(path, targets[k - 1].path),
    ensures
        put_target(targets, path, node_id) == (if k > 0 && targets[k - 1].path == path {
            targets.update(k - 1, LoadTargetModel { path, node_id })
        } else {
            targets.insert(k, LoadTargetModel { path, node_id })
        }),
    decreases targets.len(),
{
    let expected = if k > 0 && targets[k - 1].path == path {
        targets.update(k - 1, LoadTargetModel { path, node_id })
    } else {
        targets.insert(k, LoadTargetModel { path, node_id })
    };
    if k < targets.len() {
        put_target_at(targets.drop_last(), path, node_id, k);
    }
    assert(put_target(targets, path, node_id) =~= expected);
}

fn put(targets: &mut Vec<LoadTarget>, path: &str, node_id: &Option<String>)
    ensures
        final(targets).deep_view() == put_target(
            old(targets).deep_view(),
            path@,
            node_id.deep_view(),
        ),
{
    let ghost before = targets.deep_view();
    let mut k: usize = targets.len();
    while k > 0 && comes_before(path, targets[k - 1].path.as_str())
        invariant
            k <= targets.len(),
            before == targets.deep_view(),
            forall|j: int|
                k <= j < targets.len() ==> text_before(path@, (#[trigger] before[j]).path),
        decreases k,
    {
        k = k - 1;
    }
    proof {
        put_target_at(before, path@, node_id.deep_view(), k as int);
    }
    let entry: LoadTarget = LoadTarget { path: path.to_owned(), node_id: node_id.clone() };
    let ghost model = entry.deep_view();
    if k > 0 && same_text(targets[k - 1].path.as_str(), path) {
        targets.set(k - 1, entry);
        assert(targets.deep_view() =~= before.update(k - 1, model));
    } else {
        targets.insert(k, entry);
        assert(targets.deep_view() =~= before.insert(k as int, model));
    }
}

/// The path is no markdown path of the plan.
pub open spec fn state_path_problem(path: Seq<char>) -> Option<RefineRuntimeStateLoadErrorModel> {
    if is_plan_markdown(path) {
        None
    } else {
        Some(RefineRuntimeStateLoadErrorModel::InvalidCanonicalPath { relative_path: path })
    }
}

fn validate_path(path: &str) -> (r: Result<(), RefineRuntimeStateLoadError>)
    ensures
        match state_path_problem(path@) {
            Some(error) => outcome(r) == Err::<(), RefineRuntimeStateLoadErrorModel>(error),
            None => r is Ok,
        },
{
    if path_is_plan_markdown(path) {
        Ok(())
    } else {
        Err(RefineRuntimeStateLoadError::InvalidCanonicalPath { relative_path: path.to_owned() })
    }
}

/// The paths of the files from `i` on that were created, after those in
/// `acc`.
pub open spec fn created_paths_from(
    files: Seq<RefineChangedFileModel>,
    i: int,
    acc: Seq<Seq<char>>,
) -> Seq<Seq<char>>
    decreases files.len() - i,
{
    if i >= files.len() {
        acc
    } else if files[i].change_kind == RefineChangedFileKind::Created {
        created_paths_from(files, i + 1, acc.push(files[i].relative_path))
    } else {
        created_paths_from(files, i + 1, acc)
    }
}

/// The nodes of the changed files from `i` on, but for the created ones.
pub open spec fn file_targets_from(
    files: Seq<RefineChangedFileModel>,
    i: int,
    acc: Seq<LoadTargetModel>,
) -> Result<Seq<LoadTargetModel>, RefineRuntimeStateLoadErrorModel>
    decreases files.len() - i,
{
    if i >= files.len() {
        Ok(acc)
    } else {
        match state_path_problem(files[i].relative_path) {
            Some(error) => Err(error),
            None => file_targets_from(
                files,
                i + 1,
                if files[i].change_kind == RefineChangedFileKind::Created {
                    acc
                } else {
                    put_target(acc, files[i].relative_path, files[i].node_id)
                },
            ),
        }
    }
}

/// One of the paths from `i` on is no markdown path of the plan.
pub open spec fn state_paths_problem_from(paths: Seq<Seq<char>>, i: int) -> Option<
    RefineRuntimeStateLoadErrorModel,
>
    decreases paths.len() - i,
{
    if i >= paths.len() {
        None
    } else {
        match state_path_problem(paths[i]) {
            Some(error) => Some(error),
            None => state_paths_problem_from(paths, i + 1),
        }
    }
}

/// The parents from `i` on that changed, but for those that were created.
pub open spec fn structure_targets_from(
    changes: Seq<RefineStructuralChangeModel>,
    created: Seq<Seq<char>>,
    i: int,
    acc: Seq<LoadTargetModel>,
) -> Result<Seq<LoadTargetModel>, RefineRuntimeStateLoadErrorModel>
    decreases changes.len() - i,
{
    if i >= changes.len() {
        Ok(acc)
    } else {
        let change = changes[i];
        match state_path_problem(change.parent_relative_path) {
            Some(error) => Err(error),
            None => match state_paths_problem_from(change.added_child_relative_paths, 0) {
                Some(error) => Err(error),
                None => match state_paths_problem_from(change.removed_child_relative_paths, 0) {
                    Some(error) => Err(error),
                    None => structure_targets_from(
                        changes,
                        created,
                        i + 1,
                        if change.parent_node_id is None && created.contains(
                            change.parent_relative_path,
                        ) {
                            acc
                        } else {
                            put_target(acc, change.parent_relative_path, change.parent_node_id)
                        },
                    ),
                },
            },
        }
    }
}

/// The stale nodes from `i` on.
pub open spec fn stale_targets_from(
    nodes: Seq<RefineStaleNodeModel>,
    i: int,
    acc: Seq<LoadTargetModel>,
) -> Result<Seq<LoadTargetModel>, RefineRuntimeStateLoadErrorModel>
    decreases nodes.len() - i,
{
    if i >= nodes.len() {
        Ok(acc)
    } else {
        match state_path_problem(nodes[i].relative_path) {
            Some(error) => Err(error),
            None => stale_targets_from(
                nodes,
                i + 1,
                put_target(acc, nodes[i].relative_path, nodes[i].node_id),
            ),
        }
    }
}

/// The nodes from `i` on whose context changed.
pub open spec fn context_targets_from(
    contexts: Seq<RefineContextInvalidationModel>,
    i: int,
    acc: Seq<LoadTargetModel>,
) -> Result<Seq<LoadTargetModel>, RefineRuntimeStateLoadErrorModel>
    decreases contexts.len() - i,
{
    if i >= contexts.len() {
        Ok(acc)
    } else {
        match state_path_problem(contexts[i].relative_path) {
            Some(error) => Err(error),
            None => context_targets_from(
                contexts,
                i + 1,
                put_target(acc, contexts[i].relative_path, contexts[i].node_id),
            ),
        }
    }
}

/// The nodes from `i` on that were left alone.
pub open spec fn unchanged_targets_from(
    nodes: Seq<RefineUnchangedNodeModel>,
    i: int,
    acc: Seq<LoadTargetModel>,
) -> Result<Seq<LoadTargetModel>, RefineRuntimeStateLoadErrorModel>
    decreases nodes.len() - i,
{
    if i >= nodes.len() {
        Ok(acc)
    } else {
        match state_path_problem(nodes[i].relative_path) {
            Some(error) => Err(error),
            None => unchanged_targets_from(
                nodes,
                i + 1,
                put_target(acc, nodes[i].relative_path, nodes[i].node_id),
            ),
        }
    }
}

/// The nodes that a rewrite concerns.
pub open spec fn rewrite_targets_of(result: RefineRewriteResultModel, created: Seq<Seq<char>>) -> Result<
    Seq<LoadTargetModel>,
    RefineRuntimeStateLoadErrorModel,
> {
    match file_targets_from(result.changed_files, 0, Seq::empty()) {
        Err(error) => Err(error),
        Ok(files) => match structure_targets_from(result.structural_changes, created, 0, files) {
            Err(error) => Err(error),
            Ok(structure) => match stale_targets_from(result.stale_nodes, 0, structure) {
                Err(error) => Err(error),
                Ok(stale) => match context_targets_from(result.context_invalidations, 0, stale) {
                    Err(error) => Err(error),
                    Ok(contexts) => unchanged_targets_from(result.unchanged_nodes, 0, contexts),
                },
            },
        },
    }
}

/// The nodes of a handoff, but for the created ones.
pub open spec fn handoff_targets(
    handoff: RefineStaleResultHandoffModel,
    created: Seq<Seq<char>>,
    acc: Seq<LoadTargetModel>,
) -> Result<Seq<LoadTargetModel>, RefineRuntimeStateLoadErrorModel> {
    match state_path_problem(handoff.relative_path) {
        Some(error) => Err(error),
        None => {
            let first = if created.contains(handoff.relative_path) {
                acc
            } else {
                put_target(acc, handoff.relative_path, handoff.node_id)
            };
            let with_parent = match handoff.parent_relative_path {
                None => Ok(first),
                Some(parent) => match state_path_problem(parent) {
                    Some(error) => Err(error),
                    None => if created.contains(parent) {
                        Ok(first)
                    } else {
                        Ok(put_target(first, parent, handoff.parent_node_id))
                    },
                },
            };
            match with_parent {
                Err(error) => Err(error),
                Ok(targets) => match handoff.regenerated_child_relative_path {
                    None => Ok(targets),
                    Some(child) => match state_path_problem(child) {
                        Some(error) => Err(error),
                        None => Ok(targets),
                    },
                },
            }
        },
    }
}

/// The nodes of the handoffs from `i` on.
pub open spec fn handoffs_targets_from(
    handoffs: Seq<RefineStaleResultHandoffModel>,
    created: Seq<Seq<char>>,
    i: int,
    acc: Seq<LoadTargetModel>,
) -> Result<Seq<LoadTargetModel>, RefineRuntimeStateLoadErrorModel>
    decreases handoffs.len() - i,
{
    if i >= handoffs.len() {
        Ok(acc)
    } else {
        match handoff_targets(handoffs[i], created, acc) {
            Err(error) => Err(error),
            Ok(next) => handoffs_targets_from(handoffs, created, i + 1, next),
        }
    }
}

/// All nodes to look up.
pub open spec fn load_targets(request: BuildRefineGateSelectionInputsRequestModel) -> Result<
    Seq<LoadTargetModel>,
    RefineRuntimeStateLoadErrorModel,
> {
    let created = created_paths_from(request.rewrite_result.changed_files, 0, Seq::empty());
    match rewrite_targets_of(request.rewrite_result, created) {
        Err(error) => Err(error),
        Ok(targets) => handoffs_targets_from(request.stale_result_handoff, created, 0, targets),
    }
}

fn created_pre_registration_paths(files: &Vec<RefineChangedFile>) -> (r: Vec<String>)
    ensures
        r.deep_view() == created_paths_from(files.deep_view(), 0, Seq::empty()),
{
    let ghost all = files.deep_view();
    let mut out: Vec<String> = Vec::new();
    let mut i: usize = 0;
    assert(out.deep_view() =~= Seq::empty());
    while i < files.len()
        invariant
            i <= files.len(),
            all == files.deep_view(),
            created_paths_from(all, 0, Seq::empty()) == created_paths_from(
                all,
                i as int,
                out.deep_view(),
            ),
        decreases files.len() - i,
    {
        assert(all[i as int] == files@[i as int].deep_view());
        if files[i].change_kind == RefineChangedFileKind::Created {
            let ghost before = out.deep_view();
            out.push(files[i].relative_path.clone());
            assert(out.deep_view() =~= before.push(files@[i as int].relative_path@));
        }
        i = i + 1;
    }
    out
}

fn validate_paths(paths: &Vec<String>) -> (r: Result<(), RefineRuntimeStateLoadError>)
    ensures
        match state_paths_problem_from(paths.deep_view(), 0) {
            Some(error) => outcome(r) == Err::<(), RefineRuntimeStateLoadErrorModel>(error),
            None => r is Ok,
        },
{
    let ghost all = paths.deep_view();
    let mut i: usize = 0;
    while i < paths.len()
        invariant
            i <= paths.len(),
            all == paths.deep_view(),
            state_paths_problem_from(all, 0) == state_paths_problem_from(all, i as int),
        decreases paths.len() - i,
    {
        validate_path(paths[i].as_str())?;
        i = i + 1;
    }
    Ok(())
}

fn collect_rewrite_paths(result: &RefineRewriteResult, created: &Vec<String>) -> (r: Result<
    Vec<LoadTarget>,
    RefineRuntimeStateLoadError,
>)
    ensures
        outcome(r) == rewrite_targets_of(result.deep_view(), created.deep_view()),
{
    let ghost model = result.deep_view();
    let ghost known = created.deep_view();
    let mut targets: Vec<LoadTarget> = Vec::new();
    assert(targets.deep_view() =~= Seq::empty());
    let ghost start = targets.deep_view();
    let mut i: usize = 0;
    while i < result.changed_files.len()
        invariant
            i <= result.changed_files.len(),
            model == result.deep_view(),
            known == created.deep_view(),
            start == Seq::<LoadTargetModel>::empty(),
            file_targets_from(model.changed_files, 0, start) == file_targets_from(
                model.changed_files,
                i as int,
                targets.deep_view(),
            ),
        decreases result.changed_files.len() - i,
    {
        let file: &RefineChangedFile = &result.changed_files[i];
        assert(model.changed_files[i as int] == file.deep_view());
        validate_path(file.relative_path.as_str())?;
        if file.change_kind != RefineChangedFileKind::Created {
            put(&mut targets, file.relative_path.as_str(), &file.node_id);
        }
        i = i + 1;
    }
    let ghost files = targets.deep_view();
    let mut j: usize = 0;
    while j < result.structural_changes.len()
        invariant
            j <= result.structural_changes.len(),
            model == result.deep_view(),
            known == created.deep_view(),
            file_targets_from(model.changed_files, 0, Seq::empty()) == Ok::<
                Seq<LoadTargetModel>,
                RefineRuntimeStateLoadErrorModel,
            >(files),
            structure_targets_from(model.structural_changes, known, 0, files)
                == structure_targets_from(
                model.structural_changes,
                known,
                j as int,
                targets.deep_view(),
            ),
        decreases result.structural_changes.len() - j,
    {
        let change: &RefineStructuralChange = &result.structural_changes[j];
        assert(model.structural_changes[j as int] == change.deep_view());
        validate_path(change.parent_relative_path.as_str())?;
        validate_paths(&change.added_child_relative_paths)?;
        validate_paths(&change.removed_child_relative_paths)?;
        if !(change.parent_node_id.is_none() && list_has(
            created,
            change.parent_relative_path.as_str(),
        )) {
            put(&mut targets, change.parent_relative_path.as_str(), &change.parent_node_id);
        }
        j = j + 1;
    }
    let ghost structure = targets.deep_view();
    let mut k: usize = 0;
    while k < result.stale_nodes.len()
        invariant
            k <= result.stale_nodes.len(),
            model == result.deep_view(),
            known == created.deep_view(),
            file_targets_from(model.changed_files, 0, Seq::empty()) == Ok::<
                Seq<LoadTargetModel>,
                RefineRuntimeStateLoadErrorModel,
            >(files),
            structure_targets_from(model.structural_changes, known, 0, files) == Ok::<
                Seq<LoadTargetModel>,
                RefineRuntimeStateLoadErrorModel,
            >(structure),
            stale_targets_from(model.stale_nodes, 0, structure) == stale_targets_from(
                model.stale_nodes,
                k as int,
                targets.deep_view(),
            ),
        decreases result.stale_nodes.len() - k,
    {
        let node: &RefineStaleNode = &result.stale_nodes[k];
        assert(model.stale_nodes[k as int] == node.deep_view());
        validate_path(node.relative_path.as_str())?;
        put(&mut targets, node.relative_path.as_str(), &node.node_id);
        k = k + 1;
    }
    let ghost stale = targets.deep_view();
    let mut m: usize = 0;
    while m < result.context_invalidations.len()
        invariant
            m <= result.context_invalidations.len(),
            model == result.deep_view(),
            known == created.deep_view(),
            file_targets_from(model.changed_files, 0, Seq::empty()) == Ok::<
                Seq<LoadTargetModel>,
                RefineRuntimeStateLoadErrorModel,
            >(files),
            structure_targets_from(model.structural_changes, known, 0, files) == Ok::<
                Seq<LoadTargetModel>,
                RefineRuntimeStateLoadErrorModel,
            >(structure),
            stale_targets_from(model.stale_nodes, 0, structure) == Ok::<
                Seq<LoadTargetModel>,
                RefineRuntimeStateLoadErrorModel,
            >(stale),
            context_targets_from(model.context_invalidations, 0, stale) == context_targets_from(
                model.context_invalidations,
                m as int,
                targets.deep_view(),
            ),
        decreases result.context_invalidations.len() - m,
    {
        let context: &RefineContextInvalidation = &result.context_invalidations[m];
        assert(model.context_invalidations[m as int] == context.deep_view());
        validate_path(context.relative_path.as_str())?;
        put(&mut targets, context.relative_path.as_str(), &context.node_id);
        m = m + 1;
    }
    let ghost contexts = targets.deep_view();
    let mut n: usize = 0;
    while n < result.unchanged_nodes.len()
        invariant
            n <= result.unchanged_nodes.len(),
            model == result.deep_view(),
            rewrite_targets_of(model, created.deep_view()) == unchanged_targets_from(
                model.unchanged_nodes,
                n as int,
                targets.deep_view(),
            ),
        decreases result.unchanged_nodes.len() - n,
    {
        let node: &RefineUnchangedNode = &result.unchanged_nodes[n];
        assert(model.unchanged_nodes[n as int] == node.deep_view());
        validate_path(node.relative_path.as_str())?;
        put(&mut targets, node.relative_path.as_str(), &node.node_id);
        n = n + 1;
    }
    Ok(targets)
}

fn collect_handoff(
    handoff: &RefineStaleResultHandoff,
    created: &Vec<String>,
    targets: &mut Vec<LoadTarget>,
) -> (r: Result<(), RefineRuntimeStateLoadError>)
    ensures
        match handoff_targets(
            handoff.deep_view(),
            created.deep_view(),
            old(targets).deep_view(),
        ) {
            Ok(next) => r is Ok && final(targets).deep_view() == next,
            Err(error) => outcome(r) == Err::<(), RefineRuntimeStateLoadErrorModel>(error),
        },
{
    validate_path(handoff.relative_path.as_str())?;
    if !list_has(created, handoff.relative_path.as_str()) {
        put(targets, handoff.relative_path.as_str(), &handoff.node_id);
    }
    match &handoff.parent_relative_path {
        Some(parent) => {
            validate_path(parent.as_str())?;
            if !list_has(created, parent.as_str()) {
                put(targets, parent.as_str(), &handoff.parent_node_id);
            }
        },
        None => {},
    }
    match &handoff.regenerated_child_relative_path {
        Some(child) => {
            validate_path(child.as_str())?;
        },
        None => {},
    }
    Ok(())
}

fn collect_load_targets(request: &BuildRefineGateSelectionInputsRequest) -> (r: Result<
    Vec<LoadTarget>,
    RefineRuntimeStateLoadError,
>)
    ensures
        outcome(r) == load_targets(request.deep_view()),
{
    let created: Vec<String> = created_pre_registration_paths(
        &request.rewrite_result.changed_files,
    );
    let mut targets: Vec<LoadTarget> = collect_rewrite_paths(&request.rewrite_result, &created)?;
    let ghost known = created.deep_view();
    let ghost all = request.stale_result_handoff.deep_view();
    let mut i: usize = 0;
    while i < request.stale_result_handoff.len()
        invariant
            i <= request.stale_result_handoff.len(),
            known == created.deep_view(),
            all == request.stale_result_handoff.deep_view(),
            load_targets(request.deep_view()) == handoffs_targets_from(
                all,
                known,
                i as int,
                targets.deep_view(),
            ),
        decreases request.stale_result_handoff.len() - i,
    {
        assert(all[i as int] == request.stale_result_handoff@[i as int].deep_view());
        collect_handoff(&request.stale_result_handoff[i], &created, &mut targets)?;
        i = i + 1;
    }
    Ok(targets)
}

// ---------------------------------------------------------------------
// Looking them up
// ---------------------------------------------------------------------
/// What is known of the nodes so far.
pub struct LoadedState {
    pub nodes: Seq<RefineRuntimeNodeSummaryModel>,
    pub leaf: Seq<RefinePriorLeafGateSummaryModel>,
    pub frontier: Seq<RefinePriorFrontierGateSummaryModel>,
}

/// The paths of the children.
pub open spec fn child_paths_of(children: Seq<NodeSummaryModel>) -> Seq<Seq<char>> {
    Seq::new(children.len(), |i: int| children[i].relative_path)
}

impl RuntimeModel {
    /// The paths of the children of a node, none for a leaf.
    pub open spec fn child_paths(self, plan_id: Seq<char>, node: InspectNodeResponseModel) -> Result<
        Seq<Seq<char>>,
        RefineRuntimeStateLoadErrorModel,
    > {
        if node.node_kind == NodeKind::Parent {
            match self.children_listing(
                ListChildrenRequestModel {
                    plan_id,
                    parent_node_id: Some(node.node_id),
                    parent_relative_path: None,
                },
            ) {
                Err(error) => Err(
                    RefineRuntimeStateLoadErrorModel::MissingParentChildSet {
                        parent_relative_path: node.relative_path,
                        source: error.message,
                    },
                ),
                Ok(listing) => Ok(child_paths_of(listing.children)),
            }
        } else {
            Ok(Seq::empty())
        }
    }

    /// What is known with one more node looked up.
    pub open spec fn loaded(
        self,
        plan_id: Seq<char>,
        target: LoadTargetModel,
        state: LoadedState,
    ) -> Result<LoadedState, RefineRuntimeStateLoadErrorModel> {
        match self.inspection(
            InspectNodeRequestModel {
                plan_id,
                node_id: target.node_id,
                relative_path: match target.node_id {
                    Some(_) => None,
                    None => Some(target.path),
                },
            },
        ) {
            Err(error) => Err(
                RefineRuntimeStateLoadErrorModel::MissingTrackedNode {
                    relative_path: target.path,
                    source: error.message,
                },
            ),
            Ok(node) => match self.child_paths(plan_id, node) {
                Err(error) => Err(error),
                Ok(child_relative_paths) => Ok(
                    LoadedState {
                        nodes: state.nodes.push(
                            RefineRuntimeNodeSummaryModel {
                                node_id: node.node_id,
                                relative_path: node.relative_path,
                                node_kind: node.node_kind,
                                parent_node_id: node.parent_node_id,
                                parent_relative_path: node.parent_relative_path,
                                child_relative_paths,
                            },
                        ),
                        leaf: match node.latest_passed_leaf_gate_summary {
                            Some(summary) => state.leaf.push(
                                RefinePriorLeafGateSummaryModel {
                                    node_id: node.node_id,
                                    relative_path: node.relative_path,
                                    summary,
                                },
                            ),
                            None => state.leaf,
                        },
                        frontier: match node.latest_frontier_gate_summary {
                            Some(summary) => state.frontier.push(
                                RefinePriorFrontierGateSummaryModel {
                                    parent_node_id: node.node_id,
                                    parent_relative_path: node.relative_path,
                                    summary,
                                },
                            ),
                            None => state.frontier,
                        },
                    },
                ),
            },
        }
    }

    /// What is known with the nodes from `i` on looked up.
    pub open spec fn loaded_from(
        self,
        plan_id: Seq<char>,
        targets: Seq<LoadTargetModel>,
        i: int,
        state: LoadedState,
    ) -> Result<LoadedState, RefineRuntimeStateLoadErrorModel>
        decreases targets.len() - i,
    {
        if i >= targets.len() {
            Ok(state)
        } else {
            match self.loaded(plan_id, targets[i], state) {
                Err(error) => Err(error),
                Ok(next) => self.loaded_from(plan_id, targets, i + 1, next),
            }
        }
    }

    /// What the selection of gates needs.
    pub open spec fn selection_inputs(self, request: BuildRefineGateSelectionInputsRequestModel) -> Result<
        RefineGateSelectionInputsModel,
        RefineRuntimeStateLoadErrorModel,
    > {
        match load_targets(request) {
            Err(error) => Err(error),
            Ok(targets) => match self.loaded_from(
                request.plan_id,
                targets,
                0,
                LoadedState {
                    nodes: Seq::empty(),
                    leaf: Seq::empty(),
                    frontier: Seq::empty(),
                },
            ) {
                Err(error) => Err(error),
                Ok(state) => match handoffs_mismatch_from(request.stale_result_handoff, state, 0) {
                    Some(error) => Err(error),
                    None => Ok(
                        RefineGateSelectionInputsModel {
                            rewrite_result: request.rewrite_result,
                            runtime_snapshot: RefineRuntimeNodeSnapshotModel { nodes: state.nodes },
                            prior_gate_summaries: RefinePriorGateSummariesModel {
                                leaf: state.leaf,
                                frontier: state.frontier,
                            },
                            stale_result_handoff: request.stale_result_handoff,
                        },
                    ),
                },
            },
        }
    }
}

/// The id is not given, or is this one.
pub open spec fn id_fits(id: Option<Seq<char>>, node_id: Seq<char>) -> bool {
    id is None || id == Some(node_id)
}

/// A node of this kind and path, whose id fits, is known.
pub open spec fn knows_node(
    nodes: Seq<RefineRuntimeNodeSummaryModel>,
    kind: NodeKind,
    path: Seq<char>,
    id: Option<Seq<char>>,
) -> bool {
    exists|i: int|
        0 <= i < nodes.len() && (#[trigger] nodes[i]).node_kind == kind && nodes[i].relative_path
            == path && id_fits(id, nodes[i].node_id)
}

/// An approval of the leaf is known.
pub open spec fn knows_leaf_approval(
    priors: Seq<RefinePriorLeafGateSummaryModel>,
    path: Seq<char>,
    id: Option<Seq<char>>,
) -> bool {
    exists|i: int|
        0 <= i < priors.len() && (#[trigger] priors[i]).relative_path == path && id_fits(
            id,
            priors[i].node_id,
        )
}

/// An approval of the parent is known.
pub open spec fn knows_frontier_approval(
    priors: Seq<RefinePriorFrontierGateSummaryModel>,
    path: Seq<char>,
    id: Option<Seq<char>>,
) -> bool {
    exists|i: int|
        0 <= i < priors.len() && (#[trigger] priors[i]).parent_relative_path == path && id_fits(
            id,
            priors[i].parent_node_id,
        )
}

/// A handoff that says of an approval that it is stale finds no such node or
/// no such approval.
pub open spec fn handoff_mismatch(handoff: RefineStaleResultHandoffModel, state: LoadedState) -> Option<
    RefineRuntimeStateLoadErrorModel,
> {
    if handoff.classification == RefineStaleGateClassification::NotStale {
        None
    } else {
        match handoff.target_kind {
            StaleGateTargetKind::Leaf => if knows_node(
                state.nodes,
                NodeKind::Leaf,
                handoff.relative_path,
                handoff.node_id,
            ) && knows_leaf_approval(state.leaf, handoff.relative_path, handoff.node_id) {
                None
            } else {
                Some(
                    RefineRuntimeStateLoadErrorModel::StaleHandoffMismatch {
                        relative_path: handoff.relative_path,
                    },
                )
            },
            StaleGateTargetKind::Frontier => {
                let path = match handoff.parent_relative_path {
                    Some(path) => path,
                    None => handoff.relative_path,
                };
                let id = match handoff.parent_node_id {
                    Some(id) => Some(id),
                    None => handoff.node_id,
                };
                if knows_node(state.nodes, NodeKind::Parent, path, id) && knows_frontier_approval(
                    state.frontier,
                    path,
                    id,
                ) {
                    None
                } else {
                    Some(
                        RefineRuntimeStateLoadErrorModel::StaleHandoffMismatch {
                            relative_path: path,
                        },
                    )
                }
            },
        }
    }
}

/// One of the handoffs from `i` on finds no such node or no such approval.
pub open spec fn handoffs_mismatch_from(
    handoffs: Seq<RefineStaleResultHandoffModel>,
    state: LoadedState,
    i: int,
) -> Option<RefineRuntimeStateLoadErrorModel>
    decreases handoffs.len() - i,
{
    if i >= handoffs.len() {
        None
    } else {
        match handoff_mismatch(handoffs[i], state) {
            Some(error) => Some(error),
            None => handoffs_mismatch_from(handoffs, state, i + 1),
        }
    }
}

/// What is known of the nodes so far.
struct Loaded {
    nodes: Vec<RefineRuntimeNodeSummary>,
    leaf: Vec<RefinePriorLeafGateSummary>,
    frontier: Vec<RefinePriorFrontierGateSummary>,
}

impl DeepView for Loaded {
    type V = LoadedState;

    closed spec fn deep_view(&self) -> LoadedState {
        LoadedState {
            nodes: self.nodes.deep_view(),
            leaf: self.leaf.deep_view(),
            frontier: self.frontier.deep_view(),
        }
    }
}

fn paths_of_children(children: &Vec<NodeSummary>) -> (r: Vec<String>)
    ensures
        r.deep_view() == child_paths_of(children.deep_view()),
{
    let mut out: Vec<String> = Vec::new();
    let mut i: usize = 0;
    while i < children.len()
        invariant
            i <= children.len(),
            out.deep_view() == child_paths_of(children.deep_view()).take(i as int),
        decreases children.len() - i,
    {
        let ghost before = out.deep_view();
        out.push(children[i].relative_path.clone());
        assert(out.deep_view() =~= before.push(children@[i as int].relative_path@));
        i = i + 1;
        assert(out.deep_view() =~= child_paths_of(children.deep_view()).take(i as int));
    }
    assert(out.deep_view() =~= child_paths_of(children.deep_view()));
    out
}

fn load_child_paths(runtime: &Runtime, plan_id: &str, node: &InspectNodeResponse) -> (r: Result<
    Vec<String>,
    RefineRuntimeStateLoadError,
>)
    ensures
        outcome(r) == runtime.deep_view().child_paths(plan_id@, node.deep_view()),
{
    match node.node_kind {
        NodeKind::Leaf => {
            let out: Vec<String> = Vec::new();
            assert(out.deep_view() =~= Seq::empty());
            Ok(out)
        },
        NodeKind::Parent => {
            let request: ListChildrenRequest = ListChildrenRequest {
                plan_id: plan_id.to_owned(),
                parent_node_id: Some(node.node_id.clone()),
                parent_relative_path: None,
            };
            match runtime.list_children(request) {
                Ok(listing) => Ok(paths_of_children(&listing.children)),
                Err(error) => Err(
                    RefineRuntimeStateLoadError::MissingParentChildSet {
                        parent_relative_path: node.relative_path.clone(),
                        source: error.message,
                    },
                ),
            }
        },
    }
}

fn load_target(runtime: &Runtime, plan_id: &str, target: &LoadTarget, loaded: &mut Loaded) -> (r:
    Result<(), RefineRuntimeStateLoadError>)
    ensures
        match runtime.deep_view().loaded(
            plan_id@,
            target.deep_view(),
            old(loaded).deep_view(),
        ) {
            Ok(next) => r is Ok && final(loaded).deep_view() == next,
            Err(error) => outcome(r) == Err::<(), RefineRuntimeStateLoadErrorModel>(error),
        },
{
    let request: InspectNodeRequest = InspectNodeRequest {
        plan_id: plan_id.to_owned(),
        node_id: target.node_id.clone(),
        relative_path: if target.node_id.is_some() {
            None
        } else {
            Some(target.path.clone())
        },
    };
    let node: InspectNodeResponse = match runtime.inspect_node(request) {
        Ok(node) => node,
        Err(error) => {
            return Err(
                RefineRuntimeStateLoadError::MissingTrackedNode {
                    relative_path: target.path.clone(),
                    source: error.message,
                },
            );
        },
    };
    let child_relative_paths: Vec<String> = load_child_paths(runtime, plan_id, &node)?;
    match &node.latest_passed_leaf_gate_summary {
        Some(summary) => {
            let ghost before = loaded.leaf.deep_view();
            let prior: RefinePriorLeafGateSummary = RefinePriorLeafGateSummary {
                node_id: node.node_id.clone(),
                relative_path: node.relative_path.clone(),
                summary: summary.clone(),
            };
            let ghost model = prior.deep_view();
            loaded.leaf.push(prior);
            assert(loaded.leaf.deep_view() =~= before.push(model));
        },
        None => {},
    }
    match &node.latest_frontier_gate_summary {
        Some(summary) => {
            let ghost before = loaded.frontier.deep_view();
            let prior: RefinePriorFrontierGateSummary = RefinePriorFrontierGateSummary {
                parent_node_id: node.node_id.clone(),
                parent_relative_path: node.relative_path.clone(),
                summary: summary.clone(),
            };
            let ghost model = prior.deep_view();
            loaded.frontier.push(prior);
            assert(loaded.frontier.deep_view() =~= before.push(model));
        },
        None => {},
    }
    let ghost before = loaded.nodes.deep_view();
    let entry: RefineRuntimeNodeSummary = RefineRuntimeNodeSummary {
        node_id: node.node_id,
        relative_path: node.relative_path,
        node_kind: node.node_kind,
        parent_node_id: node.parent_node_id,
        parent_relative_path: node.parent_relative_path,
        child_relative_paths,
    };
    let ghost model = entry.deep_view();
    loaded.nodes.push(entry);
    assert(loaded.nodes.deep_view() =~= before.push(model));
    Ok(())
}

fn option_fits(id: &Option<String>, node_id: &str) -> (r: bool)
    ensures
        r == id_fits(id.deep_view(), node_id@),
{
    id.is_none() || is_text(id, node_id)
}

fn node_is_known(
    nodes: &Vec<RefineRuntimeNodeSummary>,
    kind: NodeKind,
    path: &str,
    id: &Option<String>,
) -> (r: bool)
    ensures
        r == knows_node(nodes.deep_view(), kind, path@, id.deep_view()),
{
    let ghost all = nodes.deep_view();
    let mut i: usize = 0;
    while i < nodes.len()
        invariant
            i <= nodes.len(),
            all == nodes.deep_view(),
            forall|k: int|
                0 <= k < i ==> !((#[trigger] all[k]).node_kind == kind && all[k].relative_path
                    == path@ && id_fits(id.deep_view(), all[k].node_id)),
        decreases nodes.len() - i,
    {
        assert(all[i as int] == nodes@[i as int].deep_view());
        if nodes[i].node_kind == kind && same_text(nodes[i].relative_path.as_str(), path)
            && option_fits(id, nodes[i].node_id.as_str()) {
            return true;
        }
        i = i + 1;
    }
    false
}

fn leaf_approval_is_known(
    priors: &Vec<RefinePriorLeafGateSummary>,
    path: &str,
    id: &Option<String>,
) -> (r: bool)
    ensures
        r == knows_leaf_approval(priors.deep_view(), path@, id.deep_view()),
{
    let ghost all = priors.deep_view();
    let mut i: usize = 0;
    while i < priors.len()
        invariant
            i <= priors.len(),
            all == priors.deep_view(),
            forall|k: int|
                0 <= k < i ==> !((#[trigger] all[k]).relative_path == path@ && id_fits(
                    id.deep_view(),
                    all[k].node_id,
                )),
        decreases priors.len() - i,
    {
        assert(all[i as int] == priors@[i as int].deep_view());
        if same_text(priors[i].relative_path.as_str(), path) && option_fits(
            id,
            priors[i].node_id.as_str(),
        ) {
            return true;
        }
        i = i + 1;
    }
    false
}

fn frontier_approval_is_known(
    priors: &Vec<RefinePriorFrontierGateSummary>,
    path: &str,
    id: &Option<String>,
) -> (r: bool)
    ensures
        r == knows_frontier_approval(priors.deep_view(), path@, id.deep_view()),
{
    let ghost all = priors.deep_view();
    let mut i: usize = 0;
    while i < priors.len()
        invariant
            i <= priors.len(),
            all == priors.deep_view(),
            forall|k: int|
                0 <= k < i ==> !((#[trigger] all[k]).parent_relative_path == path@ && id_fits(
                    id.deep_view(),
                    all[k].parent_node_id,
                )),
        decreases priors.len() - i,
    {
        assert(all[i as int] == priors@[i as int].deep_view());
        if same_text(priors[i].parent_relative_path.as_str(), path) && option_fits(
            id,
            priors[i].parent_node_id.as_str(),
        ) {
            return true;
        }
        i = i + 1;
    }
    false
}

fn validate_handoff(handoff: &RefineStaleResultHandoff, loaded: &Loaded) -> (r: Result<
    (),
    RefineRuntimeStateLoadError,
>)
    ensures
        match handoff_mismatch(handoff.deep_view(), loaded.deep_view()) {
            Some(error) => outcome(r) == Err::<(), RefineRuntimeStateLoadErrorModel>(error),
            None => r is Ok,
        },
{
    if handoff.classification == RefineStaleGateClassification::NotStale {
        return Ok(());
    }
    match handoff.target_kind {
        StaleGateTargetKind::Leaf => {
            let path: &str = handoff.relative_path.as_str();
            if node_is_known(&loaded.nodes, NodeKind::Leaf, path, &handoff.node_id)
                && leaf_approval_is_known(&loaded.leaf, path, &handoff.node_id) {
                Ok(())
            } else {
                Err(
                    RefineRuntimeStateLoadError::StaleHandoffMismatch {
                        relative_path: path.to_owned(),
                    },
                )
            }
        },
        StaleGateTargetKind::Frontier => {
            let path: &str = match &handoff.parent_relative_path {
                Some(path) => path.as_str(),
                None => handoff.relative_path.as_str(),
            };
            let id: &Option<String> = if handoff.parent_node_id.is_some() {
                &handoff.parent_node_id
            } else {
                &handoff.node_id
            };
            if node_is_known(&loaded.nodes, NodeKind::Parent, path, id)
                && frontier_approval_is_known(&loaded.frontier, path, id) {
                Ok(())
            } else {
                Err(
                    RefineRuntimeStateLoadError::StaleHandoffMismatch {
                        relative_path: path.to_owned(),
                    },
                )
            }
        },
    }
}

fn validate_stale_handoff(handoffs: &Vec<RefineStaleResultHandoff>, loaded: &Loaded) -> (r: Result<
    (),
    RefineRuntimeStateLoadError,
>)
    ensures
        match handoffs_mismatch_from(handoffs.deep_view(), loaded.deep_view(), 0) {
            Some(error) => outcome(r) == Err::<(), RefineRuntimeStateLoadErrorModel>(error),
            None => r is Ok,
        },
{
    let ghost all = handoffs.deep_view();
    let ghost state = loaded.deep_view();
    let mut i: usize = 0;
    while i < handoffs.len()
        invariant
            i <= handoffs.len(),
            all == handoffs.deep_view(),
            state == loaded.deep_view(),
            handoffs_mismatch_from(all, state, 0) == handoffs_mismatch_from(
                all,
                state,
                i as int,
            ),
        decreases handoffs.len() - i,
    {
        assert(all[i as int] == handoffs@[i as int].deep_view());
        validate_handoff(&handoffs[i], loaded)?;
        i = i + 1;
    }
    Ok(())
}

/// What the selection of gates needs: the nodes that the rewrite concerns, as
/// the runtime knows them, with their approvals.
pub fn build_refine_gate_selection_inputs(
    runtime: &Runtime,
    request: BuildRefineGateSelectionInputsRequest,
) -> (r: Result<RefineGateSelectionInputs, RefineRuntimeStateLoadError>)
    ensures
        outcome(r) == runtime.deep_view().selection_inputs(request.deep_view()),
{
    let targets: Vec<LoadTarget> = collect_load_targets(&request)?;
    let ghost all = targets.deep_view();
    let ghost model = runtime.deep_view();
    let mut loaded: Loaded = Loaded { nodes: Vec::new(), leaf: Vec::new(), frontier: Vec::new() };
    assert(loaded.nodes.deep_view() =~= Seq::empty());
    assert(loaded.leaf.deep_view() =~= Seq::empty());
    assert(loaded.frontier.deep_view() =~= Seq::empty());
    let ghost first = loaded.deep_view();
    let mut i: usize = 0;
    while i < targets.len()
        invariant
            i <= targets.len(),
            all == targets.deep_view(),
            model == runtime.deep_view(),
            load_targets(request.deep_view()) == Ok::<
                Seq<LoadTargetModel>,
                RefineRuntimeStateLoadErrorModel,
            >(all),
            first == (LoadedState {
                nodes: Seq::empty(),
                leaf: Seq::empty(),
                frontier: Seq::empty(),
            }),
            model.loaded_from(request.plan_id@, all, 0, first) == model.loaded_from(
                request.plan_id@,
                all,
                i as int,
                loaded.deep_view(),
            ),
        decreases targets.len() - i,
    {
        assert(all[i as int] == targets@[i as int].deep_view());
        load_target(runtime, request.plan_id.as_str(), &targets[i], &mut loaded)?;
        i = i + 1;
    }
    validate_stale_handoff(&request.stale_result_handoff, &loaded)?;
    Ok(
        RefineGateSelectionInputs {
            rewrite_result: request.rewrite_result,
            runtime_snapshot: RefineRuntimeNodeSnapshot { nodes: loaded.nodes },
            prior_gate_summaries: RefinePriorGateSummaries {
                leaf: loaded.leaf,
                frontier: loaded.frontier,
            },
            stale_result_handoff: request.stale_result_handoff,
        },
    )
}

} // verus!
