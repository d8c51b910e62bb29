//! Reading what the runtime remembers.
use super::node_paths::{
    checked, direct_child_problem, local_path_problem, node_path_kind, parent_path_problem,
    require_parent_node_path, validate_direct_child_relationship, validate_plan_local_path,
    validate_registered_node_path,
};
use super::store::{
    FrontierGateRun, FrontierGateRunModel, GatePlanContext, GatePlanContextModel, LeafGateRun,
    LeafGateRunModel, NodeRecord, NodeRecordModel, NodeRow, NodeRowModel, PlanRow, PlanRowModel,
    Runtime, RuntimeModel,
};
use crate::api::{
    GateSummary, GateSummaryModel, InspectNodeRequest, InspectNodeRequestModel,
    InspectNodeResponse, InspectNodeResponseModel, ListChildrenRequest, ListChildrenRequestModel,
    ListChildrenResponse, ListChildrenResponseModel, NodeKind, NodeSummary, NodeSummaryModel,
};
use crate::error::{failure, outcome, PlanError, PlanErrorModel};
use crate::files::{FileContent, FileContentModel, PlanFiles, PlanFilesModel};
use crate::paths::{join_path, joined_path};
use crate::text::{
    comes_before, concat2, concat3, concat5, is_text, same_optional_text, same_text, text_before,
};
use vstd::prelude::*;

verus! {

// ---------------------------------------------------------------------
// Single rows
// ---------------------------------------------------------------------
/// The first plan at or after `i` with this id.
pub open spec fn plan_from(plans: Seq<PlanRowModel>, plan_id: Seq<char>, i: int) -> Option<
    PlanRowModel,
>
    decreases plans.len() - i,
{
    if i >= plans.len() {
        None
    } else if plans[i].plan_id == plan_id {
        Some(plans[i])
    } else {
        plan_from(plans, plan_id, i + 1)
    }
}

/// The first plan at or after `i` of this workspace and name.
pub open spec fn named_plan_from(
    plans: Seq<PlanRowModel>,
    workspace_root: Seq<char>,
    plan_name: Seq<char>,
    i: int,
) -> Option<PlanRowModel>
    decreases plans.len() - i,
{
    if i >= plans.len() {
        None
    } else if plans[i].workspace_root == workspace_root && plans[i].plan_name == plan_name {
        Some(plans[i])
    } else {
        named_plan_from(plans, workspace_root, plan_name, i + 1)
    }
}

/// The first node at or after `i` of this plan and id.
pub open spec fn node_from(
    nodes: Seq<NodeRowModel>,
    plan_id: Seq<char>,
    node_id: Seq<char>,
    i: int,
) -> Option<NodeRowModel>
    decreases nodes.len() - i,
{
    if i >= nodes.len() {
        None
    } else if nodes[i].plan_id == plan_id && nodes[i].node_id == node_id {
        Some(nodes[i])
    } else {
        node_from(nodes, plan_id, node_id, i + 1)
    }
}

/// The first node at or after `i` of this plan and path.
pub open spec fn node_at_from(
    nodes: Seq<NodeRowModel>,
    plan_id: Seq<char>,
    path: Seq<char>,
    i: int,
) -> Option<NodeRowModel>
    decreases nodes.len() - i,
{
    if i >= nodes.len() {
        None
    } else if nodes[i].plan_id == plan_id && nodes[i].relative_path == path {
        Some(nodes[i])
    } else {
        node_at_from(nodes, plan_id, path, i + 1)
    }
}

/// The kind with this name.
pub open spec fn kind_of_name(name: Seq<char>) -> Result<NodeKind, PlanErrorModel> {
    if name == "parent"@ {
        Ok(NodeKind::Parent)
    } else if name == "leaf"@ {
        Ok(NodeKind::Leaf)
    } else {
        Err(failure("invalid persisted node_kind `"@ + name + "`"@))
    }
}

/// The record that a row holds.
pub open spec fn record_of(row: NodeRowModel) -> Result<NodeRecordModel, PlanErrorModel> {
    match kind_of_name(row.node_kind) {
        Ok(node_kind) => Ok(
            NodeRecordModel {
                node_id: row.node_id,
                relative_path: row.relative_path,
                node_kind,
                parent_node_id: row.parent_node_id,
            },
        ),
        Err(error) => Err(error),
    }
}

// ---------------------------------------------------------------------
// Children
// ---------------------------------------------------------------------
/// The row is a child of the given parent, or at the top of the plan.
pub open spec fn is_child(
    row: NodeRowModel,
    plan_id: Seq<char>,
    parent_node_id: Option<Seq<char>>,
) -> bool {
    row.plan_id == plan_id && row.parent_node_id == parent_node_id
}

/// Rows go by their path, then by their id.
pub open spec fn row_before(a: NodeRowModel, b: NodeRowModel) -> bool {
    text_before(a.relative_path, b.relative_path) || (a.relative_path == b.relative_path
        && text_before(a.node_id, b.node_id))
}

/// The rows with one more at its place.
pub open spec fn insert_row(rows: Seq<NodeRowModel>, row: NodeRowModel) -> Seq<NodeRowModel>
    decreases rows.len(),
{
    if rows.len() > 0 && row_before(row, rows.last()) {
        insert_row(rows.drop_last(), row).push(rows.last())
    } else {
        rows.push(row)
    }
}

/// The children among the first `n` rows, in order.
pub open spec fn child_rows(
    nodes: Seq<NodeRowModel>,
    plan_id: Seq<char>,
    parent_node_id: Option<Seq<char>>,
    n: int,
) -> Seq<NodeRowModel>
    decreases n,
{
    if n <= 0 {
        Seq::empty()
    } else if is_child(nodes[n - 1], plan_id, parent_node_id) {
        insert_row(child_rows(nodes, plan_id, parent_node_id, n - 1), nodes[n - 1])
    } else {
        child_rows(nodes, plan_id, parent_node_id, n - 1)
    }
}

/// The records of the rows from `i` on, after those in `acc`.
pub open spec fn records_from(
    rows: Seq<NodeRowModel>,
    i: int,
    acc: Seq<NodeRecordModel>,
) -> Result<Seq<NodeRecordModel>, PlanErrorModel>
    decreases rows.len() - i,
{
    if i >= rows.len() {
        Ok(acc)
    } else {
        match record_of(rows[i]) {
            Ok(record) => records_from(rows, i + 1, acc.push(record)),
            Err(error) => Err(error),
        }
    }
}

// ---------------------------------------------------------------------
// Gate runs
// ---------------------------------------------------------------------
/// The latest among the first `n` passed reviews of a leaf.
pub open spec fn latest_leaf_run(
    runs: Seq<LeafGateRunModel>,
    plan_id: Seq<char>,
    node_id: Seq<char>,
    n: int,
) -> Option<LeafGateRunModel>
    decreases n,
{
    if n <= 0 {
        None
    } else {
        let run = runs[n - 1];
        let best = latest_leaf_run(runs, plan_id, node_id, n - 1);
        if run.plan_id == plan_id && run.node_id == node_id && run.passed && (match best {
            Some(other) => is_later(
                run.created_at,
                run.gate_run_id,
                other.created_at,
                other.gate_run_id,
            ),
            None => true,
        }) {
            Some(run)
        } else {
            best
        }
    }
}

/// The latest among the first `n` reviews of a parent.
pub open spec fn latest_frontier_run(
    runs: Seq<FrontierGateRunModel>,
    plan_id: Seq<char>,
    parent_node_id: Seq<char>,
    n: int,
) -> Option<FrontierGateRunModel>
    decreases n,
{
    if n <= 0 {
        None
    } else {
        let run = runs[n - 1];
        let best = latest_frontier_run(runs, plan_id, parent_node_id, n - 1);
        if run.plan_id == plan_id && run.parent_node_id == parent_node_id && (match best {
            Some(other) => is_later(
                run.created_at,
                run.gate_run_id,
                other.created_at,
                other.gate_run_id,
            ),
            None => true,
        }) {
            Some(run)
        } else {
            best
        }
    }
}

/// One run is later than another: by its time, then by its id.
pub open spec fn is_later(
    time: i64,
    id: Seq<char>,
    other_time: i64,
    other_id: Seq<char>,
) -> bool {
    time > other_time || (time == other_time && text_before(other_id, id))
}

/// The summary of a record.
pub open spec fn summary_of(record: NodeRecordModel) -> NodeSummaryModel {
    NodeSummaryModel {
        node_id: record.node_id,
        relative_path: record.relative_path,
        node_kind: record.node_kind,
        parent_node_id: record.parent_node_id,
    }
}

/// The summaries of the records.
pub open spec fn summaries_of(records: Seq<NodeRecordModel>) -> Seq<NodeSummaryModel> {
    Seq::new(records.len(), |i: int| summary_of(records[i]))
}

impl RuntimeModel {
    /// The plan with this id.
    pub open spec fn plan(self, plan_id: Seq<char>) -> Option<PlanRowModel> {
        plan_from(self.plans, plan_id, 0)
    }

    /// The plan of this workspace with this name.
    pub open spec fn named_plan(self, plan_name: Seq<char>) -> Option<PlanRowModel> {
        named_plan_from(self.plans, self.workspace_root, plan_name, 0)
    }

    /// The node with this id.
    pub open spec fn node_row(self, plan_id: Seq<char>, node_id: Seq<char>) -> Option<
        NodeRowModel,
    > {
        node_from(self.nodes, plan_id, node_id, 0)
    }

    /// The node at this path.
    pub open spec fn node_row_at(self, plan_id: Seq<char>, path: Seq<char>) -> Option<
        NodeRowModel,
    > {
        node_at_from(self.nodes, plan_id, path, 0)
    }

    /// What a gate needs to know of a plan.
    pub open spec fn gate_plan(self, plan_id: Seq<char>) -> Result<
        GatePlanContextModel,
        PlanErrorModel,
    > {
        match self.plan(plan_id) {
            Some(plan) => Ok(
                GatePlanContextModel {
                    plan_id: plan.plan_id,
                    task_type: plan.task_type,
                    plan_root: plan.plan_root,
                    project_directory: plan.project_directory,
                },
            ),
            None => Err(failure("plan `"@ + plan_id + "` does not exist"@)),
        }
    }

    /// The record of the node with this id.
    pub open spec fn node(self, plan_id: Seq<char>, node_id: Seq<char>) -> Result<
        NodeRecordModel,
        PlanErrorModel,
    > {
        match self.node_row(plan_id, node_id) {
            Some(row) => record_of(row),
            None => Err(
                failure(
                    "node_id `"@ + node_id + "` does not exist for plan `"@ + plan_id + "`"@,
                ),
            ),
        }
    }

    /// The record of the node at this path, if there is one.
    pub open spec fn node_at(self, plan_id: Seq<char>, path: Seq<char>) -> Result<
        Option<NodeRecordModel>,
        PlanErrorModel,
    > {
        match self.node_row_at(plan_id, path) {
            Some(row) => match record_of(row) {
                Ok(record) => Ok(Some(record)),
                Err(error) => Err(error),
            },
            None => Ok(None),
        }
    }

    /// The children of a node, or the nodes at the top of the plan, in order.
    pub open spec fn child_nodes(self, plan_id: Seq<char>, parent_node_id: Option<Seq<char>>) -> Result<
        Seq<NodeRecordModel>,
        PlanErrorModel,
    > {
        records_from(
            child_rows(self.nodes, plan_id, parent_node_id, self.nodes.len() as int),
            0,
            Seq::empty(),
        )
    }

    /// A node has this one as its parent.
    pub open spec fn has_children(self, plan_id: Seq<char>, node_id: Seq<char>) -> bool {
        exists|i: int|
            0 <= i < self.nodes.len() && is_child(
                #[trigger] self.nodes[i],
                plan_id,
                Some(node_id),
            )
    }

    /// The latest passed review of a leaf.
    pub open spec fn passed_leaf_gate(self, plan_id: Seq<char>, node_id: Seq<char>) -> Option<
        GateSummaryModel,
    > {
        match latest_leaf_run(
            self.leaf_gate_runs,
            plan_id,
            node_id,
            self.leaf_gate_runs.len() as int,
        ) {
            Some(run) => Some(
                GateSummaryModel {
                    gate_run_id: run.gate_run_id,
                    reviewer_role_id: run.reviewer_role_id,
                    summary: run.summary,
                },
            ),
            None => None,
        }
    }

    /// The latest review of a parent.
    pub open spec fn frontier_gate(self, plan_id: Seq<char>, parent_node_id: Seq<char>) -> Option<
        GateSummaryModel,
    > {
        match latest_frontier_run(
            self.frontier_gate_runs,
            plan_id,
            parent_node_id,
            self.frontier_gate_runs.len() as int,
        ) {
            Some(run) => Some(
                GateSummaryModel {
                    gate_run_id: run.gate_run_id,
                    reviewer_role_id: run.reviewer_role_id,
                    summary: run.summary,
                },
            ),
            None => None,
        }
    }

    /// The node that an inspection asks for.
    pub open spec fn inspected(self, request: InspectNodeRequestModel) -> Result<
        NodeRecordModel,
        PlanErrorModel,
    > {
        match (request.node_id, request.relative_path) {
            (Some(node_id), None) => self.node(request.plan_id, node_id),
            (None, Some(path)) => match local_path_problem("relative_path"@, path) {
                Some(text) => Err(failure(text)),
                None => match node_path_kind("relative_path"@, path) {
                    Err(error) => Err(error),
                    Ok(_) => match self.node_at(request.plan_id, path) {
                        Err(error) => Err(error),
                        Ok(Some(node)) => Ok(node),
                        Ok(None) => Err(
                            failure(
                                "relative_path `"@ + path + "` does not exist for plan `"@
                                    + request.plan_id + "`"@,
                            ),
                        ),
                    },
                },
            },
            _ => Err(
                failure(
                    "inspect-node requires exactly one selector: either node_id or relative_path"@,
                ),
            ),
        }
    }

    /// The path of the node's parent.
    pub open spec fn parent_path_of(self, plan_id: Seq<char>, node: NodeRecordModel) -> Result<
        Option<Seq<char>>,
        PlanErrorModel,
    > {
        match node.parent_node_id {
            Some(parent_node_id) => match self.node(plan_id, parent_node_id) {
                Ok(parent) => Ok(Some(parent.relative_path)),
                Err(error) => Err(error),
            },
            None => Ok(None),
        }
    }

    /// What an inspection answers.
    pub open spec fn inspection(self, request: InspectNodeRequestModel) -> Result<
        InspectNodeResponseModel,
        PlanErrorModel,
    > {
        match self.inspected(request) {
            Err(error) => Err(error),
            Ok(node) => match self.child_nodes(request.plan_id, Some(node.node_id)) {
                Err(error) => Err(error),
                Ok(children) => match self.parent_path_of(request.plan_id, node) {
                    Err(error) => Err(error),
                    Ok(parent_relative_path) => Ok(
                        InspectNodeResponseModel {
                            node_id: node.node_id,
                            relative_path: node.relative_path,
                            node_kind: node.node_kind,
                            parent_node_id: node.parent_node_id,
                            parent_relative_path,
                            children: summaries_of(children),
                            latest_passed_leaf_gate_summary: self.passed_leaf_gate(
                                request.plan_id,
                                node.node_id,
                            ),
                            latest_frontier_gate_summary: self.frontier_gate(
                                request.plan_id,
                                node.node_id,
                            ),
                        },
                    ),
                },
            },
        }
    }

    /// The node whose children are asked for.
    pub open spec fn listed_parent(self, request: ListChildrenRequestModel) -> Result<
        NodeRecordModel,
        PlanErrorModel,
    > {
        match (request.parent_node_id, request.parent_relative_path) {
            (Some(node_id), None) => self.node(request.plan_id, node_id),
            (None, Some(path)) => match local_path_problem("parent_relative_path"@, path) {
                Some(text) => Err(failure(text)),
                None => match parent_path_problem("parent_relative_path"@, path) {
                    Some(error) => Err(error),
                    None => match self.node_at(request.plan_id, path) {
                        Err(error) => Err(error),
                        Ok(Some(node)) => Ok(node),
                        Ok(None) => Err(
                            failure(
                                "parent_relative_path `"@ + path + "` does not exist for plan `"@
                                    + request.plan_id + "`"@,
                            ),
                        ),
                    },
                },
            },
            _ => Err(
                failure(
                    "list-children requires exactly one selector: either parent_node_id or parent_relative_path"@,
                ),
            ),
        }
    }

    /// What a request for children answers.
    pub open spec fn children_listing(self, request: ListChildrenRequestModel) -> Result<
        ListChildrenResponseModel,
        PlanErrorModel,
    > {
        match self.listed_parent(request) {
            Err(error) => Err(error),
            Ok(parent) => if parent.node_kind != NodeKind::Parent {
                Err(
                    failure(
                        "list-children requires a parent node target, but `"@
                            + parent.relative_path + "` is `"@ + parent.node_kind.name() + "`"@,
                    ),
                )
            } else {
                match self.child_nodes(request.plan_id, Some(parent.node_id)) {
                    Err(error) => Err(error),
                    Ok(children) => Ok(
                        ListChildrenResponseModel {
                            parent_node_id: parent.node_id,
                            parent_relative_path: parent.relative_path,
                            children: summaries_of(children),
                        },
                    ),
                }
            },
        }
    }
}

/// Why a record is not that of a leaf.
pub open spec fn leaf_record_problem(node: NodeRecordModel) -> Option<PlanErrorModel> {
    match node_path_kind("relative_path"@, node.relative_path) {
        Err(error) => Some(error),
        Ok(_) => if node.node_kind != NodeKind::Leaf {
            Some(
                failure(
                    "leaf review requires a leaf node target, but `"@ + node.relative_path
                        + "` is `"@ + node.node_kind.name() + "`"@,
                ),
            )
        } else {
            None
        },
    }
}

/// Why a record is not that of a parent.
pub open spec fn parent_record_problem(node: NodeRecordModel) -> Option<PlanErrorModel> {
    match parent_path_problem("relative_path"@, node.relative_path) {
        Some(error) => Some(error),
        None => if node.node_kind != NodeKind::Parent {
            Some(
                failure(
                    "frontier review requires a parent node target, but `"@ + node.relative_path
                        + "` is `"@ + node.node_kind.name() + "`"@,
                ),
            )
        } else {
            None
        },
    }
}

/// Why there is no plan markdown at a path.
pub open spec fn markdown_file_problem(
    files: PlanFilesModel,
    plan_root: Seq<char>,
    path: Seq<char>,
) -> Option<PlanErrorModel> {
    match files.content(path) {
        None => Some(
            failure(crate::files::missing_file_text()).under(
                "missing plan markdown "@ + joined_path(plan_root, path),
            ),
        ),
        Some(FileContentModel::Directory { source }) => Some(
            failure(
                "expected plan markdown file at "@ + joined_path(plan_root, path)
                    + ", but found a non-file target"@,
            ),
        ),
        Some(_) => None,
    }
}

/// The plan markdown at a path.
pub open spec fn plan_markdown(
    files: PlanFilesModel,
    plan_root: Seq<char>,
    path: Seq<char>,
) -> Result<Seq<char>, PlanErrorModel> {
    match files.read(path) {
        Ok(text) => Ok(text),
        Err(source) => Err(
            failure(source).under("failed to read plan markdown "@ + joined_path(plan_root, path)),
        ),
    }
}

/// Why one of the children from `i` on does not stand directly below the
/// parent.
pub open spec fn incoherent_child_from(
    children: Seq<NodeRecordModel>,
    parent_path: Seq<char>,
    i: int,
) -> Option<PlanErrorModel>
    decreases children.len() - i,
{
    if i >= children.len() {
        None
    } else {
        match direct_child_problem(children[i].relative_path, parent_path, children[i].node_kind) {
            Some(error) => Some(error),
            None => incoherent_child_from(children, parent_path, i + 1),
        }
    }
}

/// Checks that a record is that of a leaf.
pub fn require_leaf_node_record(node: &NodeRecord) -> (r: Result<(), PlanError>)
    ensures
        outcome(r) == checked(leaf_record_problem(node.deep_view())),
{
    validate_registered_node_path("relative_path", node.relative_path.as_str())?;
    match node.node_kind {
        NodeKind::Leaf => Ok(()),
        NodeKind::Parent => Err(
            PlanError::new(
                concat5(
                    "leaf review requires a leaf node target, but `",
                    node.relative_path.as_str(),
                    "` is `",
                    node.node_kind.as_str(),
                    "`",
                ),
            ),
        ),
    }
}

/// Checks that a record is that of a parent.
pub fn require_parent_node_record(node: &NodeRecord) -> (r: Result<(), PlanError>)
    ensures
        outcome(r) == checked(parent_record_problem(node.deep_view())),
{
    require_parent_node_path("relative_path", node.relative_path.as_str())?;
    match node.node_kind {
        NodeKind::Parent => Ok(()),
        NodeKind::Leaf => Err(
            PlanError::new(
                concat5(
                    "frontier review requires a parent node target, but `",
                    node.relative_path.as_str(),
                    "` is `",
                    node.node_kind.as_str(),
                    "`",
                ),
            ),
        ),
    }
}

/// Checks that there is plan markdown at a path.
pub fn ensure_plan_markdown_file_exists(files: &PlanFiles, plan_root: &str, path: &str) -> (r: Result<
    (),
    PlanError,
>)
    ensures
        outcome(r) == checked(markdown_file_problem(files.deep_view(), plan_root@, path@)),
{
    match files.content(path) {
        None => Err(
            PlanError::caused(
                concat2("missing plan markdown ", join_path(plan_root, path).as_str()),
                "No such file or directory (os error 2)".to_owned(),
            ),
        ),
        Some(FileContent::Directory { .. }) => Err(
            PlanError::new(
                concat3(
                    "expected plan markdown file at ",
                    join_path(plan_root, path).as_str(),
                    ", but found a non-file target",
                ),
            ),
        ),
        Some(_) => Ok(()),
    }
}

/// The plan markdown at a path.
pub fn read_plan_markdown(files: &PlanFiles, plan_root: &str, path: &str) -> (r: Result<
    String,
    PlanError,
>)
    ensures
        outcome(r) == plan_markdown(files.deep_view(), plan_root@, path@),
{
    match files.read(path) {
        Ok(text) => Ok(text),
        Err(source) => Err(
            PlanError::caused(
                concat2("failed to read plan markdown ", join_path(plan_root, path).as_str()),
                source,
            ),
        ),
    }
}

fn parse_node_kind(name: &str) -> (r: Result<NodeKind, PlanError>)
    ensures
        outcome(r) == kind_of_name(name@),
{
    if same_text(name, "parent") {
        Ok(NodeKind::Parent)
    } else if same_text(name, "leaf") {
        Ok(NodeKind::Leaf)
    } else {
        Err(PlanError::new(concat3("invalid persisted node_kind `", name, "`")))
    }
}

fn node_record(row: &NodeRow) -> (r: Result<NodeRecord, PlanError>)
    ensures
        outcome(r) == record_of(row.deep_view()),
{
    let node_kind: NodeKind = parse_node_kind(row.node_kind.as_str())?;
    Ok(
        NodeRecord {
            node_id: row.node_id.clone(),
            relative_path: row.relative_path.clone(),
            node_kind,
            parent_node_id: row.parent_node_id.clone(),
        },
    )
}

/// The summary of a record.
pub fn node_record_to_summary(record: &NodeRecord) -> (r: NodeSummary)
    ensures
        r.deep_view() == summary_of(record.deep_view()),
{
    NodeSummary {
        node_id: record.node_id.clone(),
        relative_path: record.relative_path.clone(),
        node_kind: record.node_kind,
        parent_node_id: record.parent_node_id.clone(),
    }
}

fn node_records_to_summaries(records: &Vec<NodeRecord>) -> (r: Vec<NodeSummary>)
    ensures
        r.deep_view() == summaries_of(records.deep_view()),
{
    let mut out: Vec<NodeSummary> = Vec::new();
    let mut i: usize = 0;
    while i < records.len()
        invariant
            i <= records.len(),
            out.deep_view() == summaries_of(records.deep_view()).take(i as int),
        decreases records.len() - i,
    {
        let ghost before = out.deep_view();
        let summary: NodeSummary = node_record_to_summary(&records[i]);
        out.push(summary);
        assert(out.deep_view() =~= before.push(summary.deep_view()));
        i = i + 1;
        assert(out.deep_view() =~= summaries_of(records.deep_view()).take(i as int));
    }
    assert(out.deep_view() =~= summaries_of(records.deep_view()));
    out
}

fn comes_before_row(a: &NodeRow, b: &NodeRow) -> (r: bool)
    ensures
        r == row_before(a.deep_view(), b.deep_view()),
{
    comes_before(a.relative_path.as_str(), b.relative_path.as_str()) || (same_text(
        a.relative_path.as_str(),
        b.relative_path.as_str(),
    ) && comes_before(a.node_id.as_str(), b.node_id.as_str()))
}

proof fn insert_row_at(rows: Seq<NodeRowModel>, row: NodeRowModel, k: int)
    requires
        0 <= k <= rows.len(),
        forall|j: int| k <= j < rows.len() ==> row_before(row, #[trigger] rows[j]),
        k > 0 ==> !row_before(row, rows[k - 1]),
    ensures
        insert_row(rows, row) == rows.insert(k, row),
    decreases rows.len(),
{
    if k < rows.len() {
        insert_row_at(rows.drop_last(), row, k);
        assert(insert_row(rows, row) =~= rows.insert(k, row));
    } else {
        assert(insert_row(rows, row) =~= rows.insert(k, row));
    }
}

impl Runtime {
    /// The plan with this id.
    pub fn find_plan(&self, plan_id: &str) -> (r: Option<&PlanRow>)
        ensures
            match r {
                Some(plan) => self.deep_view().plan(plan_id@) == Some(plan.deep_view()),
                None => self.deep_view().plan(plan_id@) is None,
            },
    {
        let mut i: usize = 0;
        while i < self.plans.len()
            invariant
                i <= self.plans.len(),
                self.deep_view().plan(plan_id@) == plan_from(
                    self.plans.deep_view(),
                    plan_id@,
                    i as int,
                ),
            decreases self.plans.len() - i,
        {
            if same_text(self.plans[i].plan_id.as_str(), plan_id) {
                return Some(&self.plans[i]);
            }
            i = i + 1;
        }
        None
    }

    /// The plan of this workspace with this name.
    pub fn find_named_plan(&self, plan_name: &str) -> (r: Option<&PlanRow>)
        ensures
            match r {
                Some(plan) => self.deep_view().named_plan(plan_name@) == Some(plan.deep_view()),
                None => self.deep_view().named_plan(plan_name@) is None,
            },
    {
        let mut i: usize = 0;
        while i < self.plans.len()
            invariant
                i <= self.plans.len(),
                self.deep_view().named_plan(plan_name@) == named_plan_from(
                    self.plans.deep_view(),
                    self.workspace_root@,
                    plan_name@,
                    i as int,
                ),
            decreases self.plans.len() - i,
        {
            if same_text(self.plans[i].workspace_root.as_str(), self.workspace_root.as_str())
                && same_text(self.plans[i].plan_name.as_str(), plan_name) {
                return Some(&self.plans[i]);
            }
            i = i + 1;
        }
        None
    }

    /// The node with this id.
    pub fn find_node(&self, plan_id: &str, node_id: &str) -> (r: Option<&NodeRow>)
        ensures
            match r {
                Some(row) => self.deep_view().node_row(plan_id@, node_id@) == Some(
                    row.deep_view(),
                ),
                None => self.deep_view().node_row(plan_id@, node_id@) is None,
            },
    {
        let mut i: usize = 0;
        while i < self.nodes.len()
            invariant
                i <= self.nodes.len(),
                self.deep_view().node_row(plan_id@, node_id@) == node_from(
                    self.nodes.deep_view(),
                    plan_id@,
                    node_id@,
                    i as int,
                ),
            decreases self.nodes.len() - i,
        {
            if same_text(self.nodes[i].plan_id.as_str(), plan_id) && same_text(
                self.nodes[i].node_id.as_str(),
                node_id,
            ) {
                return Some(&self.nodes[i]);
            }
            i = i + 1;
        }
        None
    }

    fn find_node_at(&self, plan_id: &str, path: &str) -> (r: Option<&NodeRow>)
        ensures
            match r {
                Some(row) => self.deep_view().node_row_at(plan_id@, path@) == Some(
                    row.deep_view(),
                ),
                None => self.deep_view().node_row_at(plan_id@, path@) is None,
            },
    {
        let mut i: usize = 0;
        while i < self.nodes.len()
            invariant
                i <= self.nodes.len(),
                self.deep_view().node_row_at(plan_id@, path@) == node_at_from(
                    self.nodes.deep_view(),
                    plan_id@,
                    path@,
                    i as int,
                ),
            decreases self.nodes.len() - i,
        {
            if same_text(self.nodes[i].plan_id.as_str(), plan_id) && same_text(
                self.nodes[i].relative_path.as_str(),
                path,
            ) {
                return Some(&self.nodes[i]);
            }
            i = i + 1;
        }
        None
    }

    /// What a gate needs to know of a plan.
    pub fn load_gate_plan_context(&self, plan_id: &str) -> (r: Result<GatePlanContext, PlanError>)
        ensures
            outcome(r) == self.deep_view().gate_plan(plan_id@),
    {
        match self.find_plan(plan_id) {
            Some(plan) => Ok(
                GatePlanContext {
                    plan_id: plan.plan_id.clone(),
                    task_type: plan.task_type.clone(),
                    plan_root: plan.plan_root.clone(),
                    project_directory: plan.project_directory.clone(),
                },
            ),
            None => Err(PlanError::new(concat3("plan `", plan_id, "` does not exist"))),
        }
    }

    /// The record of the node with this id.
    pub fn load_node_record(&self, plan_id: &str, node_id: &str) -> (r: Result<
        NodeRecord,
        PlanError,
    >)
        ensures
            outcome(r) == self.deep_view().node(plan_id@, node_id@),
    {
        match self.find_node(plan_id, node_id) {
            Some(row) => node_record(row),
            None => Err(
                PlanError::new(
                    concat5("node_id `", node_id, "` does not exist for plan `", plan_id, "`"),
                ),
            ),
        }
    }

    /// The record of the node at this path, if there is one.
    pub fn load_node_record_by_relative_path(&self, plan_id: &str, path: &str) -> (r: Result<
        Option<NodeRecord>,
        PlanError,
    >)
        ensures
            outcome(r) == self.deep_view().node_at(plan_id@, path@),
    {
        match self.find_node_at(plan_id, path) {
            Some(row) => {
                let record: NodeRecord = node_record(row)?;
                Ok(Some(record))
            },
            None => Ok(None),
        }
    }

    /// The rows of the children of a node, or of the nodes at the top of the
    /// plan, in order.
    pub fn load_child_rows(&self, plan_id: &str, parent_node_id: &Option<String>) -> (r: Vec<NodeRow>)
        ensures
            r.deep_view() == child_rows(
                self.deep_view().nodes,
                plan_id@,
                parent_node_id.deep_view(),
                self.nodes.len() as int,
            ),
    {
        let mut rows: Vec<NodeRow> = Vec::new();
        let ghost parent = parent_node_id.deep_view();
        let mut n: usize = 0;
        assert(rows.deep_view() =~= Seq::empty());
        while n < self.nodes.len()
            invariant
                n <= self.nodes.len(),
                parent == parent_node_id.deep_view(),
                rows.deep_view() == child_rows(
                    self.deep_view().nodes,
                    plan_id@,
                    parent,
                    n as int,
                ),
            decreases self.nodes.len() - n,
        {
            let row: &NodeRow = &self.nodes[n];
            assert(self.deep_view().nodes[n as int] == row.deep_view());
            if same_text(row.plan_id.as_str(), plan_id) && same_optional_text(
                &row.parent_node_id,
                parent_node_id,
            ) {
                let ghost before = rows.deep_view();
                let mut k: usize = rows.len();
                while k > 0 && comes_before_row(row, &rows[k - 1])
                    invariant
                        k <= rows.len(),
                        before == rows.deep_view(),
                        forall|j: int|
                            k <= j < rows.len() ==> row_before(
                                row.deep_view(),
                                #[trigger] before[j],
                            ),
                    decreases k,
                {
                    k = k - 1;
                }
                rows.insert(k, row.clone());
                proof {
                    insert_row_at(before, row.deep_view(), k as int);
                    assert(rows.deep_view() =~= before.insert(k as int, row.deep_view()));
                }
            }
            n = n + 1;
        }
        rows
    }

    /// The children of a node, or the nodes at the top of the plan, in order.
    pub fn load_child_nodes(&self, plan_id: &str, parent_node_id: &Option<String>) -> (r: Result<
        Vec<NodeRecord>,
        PlanError,
    >)
        ensures
            outcome(r) == self.deep_view().child_nodes(plan_id@, parent_node_id.deep_view()),
    {
        let rows: Vec<NodeRow> = self.load_child_rows(plan_id, parent_node_id);
        let ghost all = rows.deep_view();
        let mut records: Vec<NodeRecord> = Vec::new();
        let mut i: usize = 0;
        assert(records.deep_view() =~= Seq::empty());
        while i < rows.len()
            invariant
                i <= rows.len(),
                all == rows.deep_view(),
                self.deep_view().child_nodes(plan_id@, parent_node_id.deep_view()) == records_from(
                    all,
                    i as int,
                    records.deep_view(),
                ),
            decreases rows.len() - i,
        {
            let ghost before = records.deep_view();
            let record: NodeRecord = node_record(&rows[i])?;
            records.push(record);
            assert(records.deep_view() =~= before.push(record.deep_view()));
            i = i + 1;
        }
        Ok(records)
    }

    /// Tells whether a node has this one as its parent.
    pub fn node_has_children(&self, plan_id: &str, node_id: &str) -> (r: bool)
        ensures
            r == self.deep_view().has_children(plan_id@, node_id@),
    {
        let mut i: usize = 0;
        while i < self.nodes.len()
            invariant
                i <= self.nodes.len(),
                forall|j: int|
                    0 <= j < i ==> !is_child(
                        #[trigger] self.deep_view().nodes[j],
                        plan_id@,
                        Some(node_id@),
                    ),
            decreases self.nodes.len() - i,
        {
            let row: &NodeRow = &self.nodes[i];
            assert(self.deep_view().nodes[i as int] == row.deep_view());
            if same_text(row.plan_id.as_str(), plan_id) && is_text(&row.parent_node_id, node_id) {
                return true;
            }
            i = i + 1;
        }
        false
    }

    /// The latest passed review of a leaf.
    pub fn load_latest_passed_leaf_gate_summary(&self, plan_id: &str, node_id: &str) -> (r: Option<
        GateSummary,
    >)
        ensures
            r.deep_view() == self.deep_view().passed_leaf_gate(plan_id@, node_id@),
    {
        let ghost runs = self.deep_view().leaf_gate_runs;
        let mut best: Option<usize> = None;
        let mut n: usize = 0;
        while n < self.leaf_gate_runs.len()
            invariant
                n <= self.leaf_gate_runs.len(),
                runs == self.deep_view().leaf_gate_runs,
                match best {
                    Some(k) => k < self.leaf_gate_runs.len() && latest_leaf_run(
                        runs,
                        plan_id@,
                        node_id@,
                        n as int,
                    ) == Some(runs[k as int]),
                    None => latest_leaf_run(runs, plan_id@, node_id@, n as int) is None,
                },
            decreases self.leaf_gate_runs.len() - n,
        {
            let run: &LeafGateRun = &self.leaf_gate_runs[n];
            assert(runs[n as int] == run.deep_view());
            if same_text(run.plan_id.as_str(), plan_id) && same_text(run.node_id.as_str(), node_id)
                && run.passed {
                let later: bool = match best {
                    Some(k) => {
                        let other: &LeafGateRun = &self.leaf_gate_runs[k];
                        assert(runs[k as int] == other.deep_view());
                        run.created_at > other.created_at || (run.created_at == other.created_at
                            && comes_before(
                            other.gate_run_id.as_str(),
                            run.gate_run_id.as_str(),
                        ))
                    },
                    None => true,
                };
                if later {
                    best = Some(n);
                }
            }
            n = n + 1;
        }
        match best {
            Some(k) => {
                let run: &LeafGateRun = &self.leaf_gate_runs[k];
                assert(runs[k as int] == run.deep_view());
                Some(
                    GateSummary {
                        gate_run_id: run.gate_run_id.clone(),
                        reviewer_role_id: run.reviewer_role_id.clone(),
                        summary: run.summary.clone(),
                    },
                )
            },
            None => None,
        }
    }

    /// The latest review of a parent.
    pub fn load_latest_frontier_gate_summary(&self, plan_id: &str, parent_node_id: &str) -> (r:
        Option<GateSummary>)
        ensures
            r.deep_view() == self.deep_view().frontier_gate(plan_id@, parent_node_id@),
    {
        let ghost runs = self.deep_view().frontier_gate_runs;
        let mut best: Option<usize> = None;
        let mut n: usize = 0;
        while n < self.frontier_gate_runs.len()
            invariant
                n <= self.frontier_gate_runs.len(),
                runs == self.deep_view().frontier_gate_runs,
                match best {
                    Some(k) => k < self.frontier_gate_runs.len() && latest_frontier_run(
                        runs,
                        plan_id@,
                        parent_node_id@,
                        n as int,
                    ) == Some(runs[k as int]),
                    None => latest_frontier_run(runs, plan_id@, parent_node_id@, n as int) is None,
                },
            decreases self.frontier_gate_runs.len() - n,
        {
            let run: &FrontierGateRun = &self.frontier_gate_runs[n];
            assert(runs[n as int] == run.deep_view());
            if same_text(run.plan_id.as_str(), plan_id) && same_text(
                run.parent_node_id.as_str(),
                parent_node_id,
            ) {
                let later: bool = match best {
                    Some(k) => {
                        let other: &FrontierGateRun = &self.frontier_gate_runs[k];
                        assert(runs[k as int] == other.deep_view());
                        run.created_at > other.created_at || (run.created_at == other.created_at
                            && comes_before(
                            other.gate_run_id.as_str(),
                            run.gate_run_id.as_str(),
                        ))
                    },
                    None => true,
                };
                if later {
                    best = Some(n);
                }
            }
            n = n + 1;
        }
        match best {
            Some(k) => {
                let run: &FrontierGateRun = &self.frontier_gate_runs[k];
                assert(runs[k as int] == run.deep_view());
                Some(
                    GateSummary {
                        gate_run_id: run.gate_run_id.clone(),
                        reviewer_role_id: run.reviewer_role_id.clone(),
                        summary: run.summary.clone(),
                    },
                )
            },
            None => None,
        }
    }

    fn load_inspected(&self, request: &InspectNodeRequest) -> (r: Result<NodeRecord, PlanError>)
        ensures
            outcome(r) == self.deep_view().inspected(request.deep_view()),
    {
        match (&request.node_id, &request.relative_path) {
            (Some(node_id), None) => self.load_node_record(
                request.plan_id.as_str(),
                node_id.as_str(),
            ),
            (None, Some(path)) => {
                validate_plan_local_path("relative_path", path.as_str())?;
                validate_registered_node_path("relative_path", path.as_str())?;
                match self.load_node_record_by_relative_path(
                    request.plan_id.as_str(),
                    path.as_str(),
                )? {
                    Some(node) => Ok(node),
                    None => Err(
                        PlanError::new(
                            concat5(
                                "relative_path `",
                                path.as_str(),
                                "` does not exist for plan `",
                                request.plan_id.as_str(),
                                "`",
                            ),
                        ),
                    ),
                }
            },
            _ => Err(
                PlanError::new(
                    "inspect-node requires exactly one selector: either node_id or relative_path".to_owned(),
                ),
            ),
        }
    }

    /// One tracked node with its surroundings.
    pub fn inspect_node(&self, request: InspectNodeRequest) -> (r: Result<
        InspectNodeResponse,
        PlanError,
    >)
        ensures
            outcome(r) == self.deep_view().inspection(request.deep_view()),
    {
        let plan_id: &str = request.plan_id.as_str();
        let node: NodeRecord = self.load_inspected(&request)?;
        let children: Vec<NodeRecord> = self.load_child_nodes(
            plan_id,
            &Some(node.node_id.clone()),
        )?;
        let parent_relative_path: Option<String> = match &node.parent_node_id {
            Some(parent_node_id) => {
                let parent: NodeRecord = self.load_node_record(plan_id, parent_node_id.as_str())?;
                Some(parent.relative_path)
            },
            None => None,
        };
        Ok(
            InspectNodeResponse {
                node_id: node.node_id.clone(),
                relative_path: node.relative_path.clone(),
                node_kind: node.node_kind,
                parent_node_id: node.parent_node_id.clone(),
                parent_relative_path,
                children: node_records_to_summaries(&children),
                latest_passed_leaf_gate_summary: self.load_latest_passed_leaf_gate_summary(
                    plan_id,
                    node.node_id.as_str(),
                ),
                latest_frontier_gate_summary: self.load_latest_frontier_gate_summary(
                    plan_id,
                    node.node_id.as_str(),
                ),
            },
        )
    }

    fn load_listed_parent(&self, request: &ListChildrenRequest) -> (r: Result<
        NodeRecord,
        PlanError,
    >)
        ensures
            outcome(r) == self.deep_view().listed_parent(request.deep_view()),
    {
        match (&request.parent_node_id, &request.parent_relative_path) {
            (Some(node_id), None) => self.load_node_record(
                request.plan_id.as_str(),
                node_id.as_str(),
            ),
            (None, Some(path)) => {
                validate_plan_local_path("parent_relative_path", path.as_str())?;
                require_parent_node_path("parent_relative_path", path.as_str())?;
                match self.load_node_record_by_relative_path(
                    request.plan_id.as_str(),
                    path.as_str(),
                )? {
                    Some(node) => Ok(node),
                    None => Err(
                        PlanError::new(
                            concat5(
                                "parent_relative_path `",
                                path.as_str(),
                                "` does not exist for plan `",
                                request.plan_id.as_str(),
                                "`",
                            ),
                        ),
                    ),
                }
            },
            _ => Err(
                PlanError::new(
                    "list-children requires exactly one selector: either parent_node_id or parent_relative_path".to_owned(),
                ),
            ),
        }
    }

    /// The children of a parent node, in order.
    pub fn list_children(&self, request: ListChildrenRequest) -> (r: Result<
        ListChildrenResponse,
        PlanError,
    >)
        ensures
            outcome(r) == self.deep_view().children_listing(request.deep_view()),
    {
        let parent: NodeRecord = self.load_listed_parent(&request)?;
        match parent.node_kind {
            NodeKind::Leaf => {
                return Err(
                    PlanError::new(
                        concat5(
                            "list-children requires a parent node target, but `",
                            parent.relative_path.as_str(),
                            "` is `",
                            parent.node_kind.as_str(),
                            "`",
                        ),
                    ),
                );
            },
            NodeKind::Parent => {},
        }
        let children: Vec<NodeRecord> = self.load_child_nodes(
            request.plan_id.as_str(),
            &Some(parent.node_id.clone()),
        )?;
        Ok(
            ListChildrenResponse {
                parent_node_id: parent.node_id.clone(),
                parent_relative_path: parent.relative_path.clone(),
                children: node_records_to_summaries(&children),
            },
        )
    }

    /// Checks that the children of a parent stand directly below it.
    pub fn ensure_parent_child_runtime_coherence(&self, plan_id: &str, parent: &NodeRecord) -> (r:
        Result<(), PlanError>)
        ensures
            outcome(r) == checked(self.deep_view().coherence_problem(plan_id@, parent.deep_view())),
    {
        require_parent_node_record(parent)?;
        let children: Vec<NodeRecord> = self.load_child_nodes(
            plan_id,
            &Some(parent.node_id.clone()),
        )?;
        let mut i: usize = 0;
        while i < children.len()
            invariant
                i <= children.len(),
                self.deep_view().coherence_problem(plan_id@, parent.deep_view())
                    == incoherent_child_from(
                    children.deep_view(),
                    parent.relative_path@,
                    i as int,
                ),
            decreases children.len() - i,
        {
            validate_direct_child_relationship(
                children[i].relative_path.as_str(),
                parent.relative_path.as_str(),
                children[i].node_kind,
            )?;
            i = i + 1;
        }
        Ok(())
    }
}

impl RuntimeModel {
    /// Why the children of a parent do not stand directly below it.
    pub open spec fn coherence_problem(self, plan_id: Seq<char>, parent: NodeRecordModel) -> Option<
        PlanErrorModel,
    > {
        match parent_record_problem(parent) {
            Some(error) => Some(error),
            None => match self.child_nodes(plan_id, Some(parent.node_id)) {
                Err(error) => Some(error),
                Ok(children) => incoherent_child_from(children, parent.relative_path, 0),
            },
        }
    }
}

} // verus!
