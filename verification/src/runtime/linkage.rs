//! Tracking nodes, and keeping a parent's children in step with the links of
//! its markdown.
use super::child_links::{child_link_paths, parse_child_node_link_paths};
use super::node_paths::{
    checked, direct_child_problem, local_path_problem, node_name, node_path_kind,
    parent_path_problem, registration_kind, require_parent_node_path, stored_name,
    validate_direct_child_relationship, validate_plan_local_path, validate_registered_node_path,
    validate_registration_request,
};
use super::query::{
    ensure_plan_markdown_file_exists, markdown_file_problem, parent_record_problem, plan_markdown,
    read_plan_markdown, require_parent_node_record,
};
use super::store::{
    GatePlanContext, GatePlanContextModel, NodeRecord, NodeRecordModel, NodeRow, NodeRowModel,
    Runtime, RuntimeModel,
};
use crate::api::{
    EnsureNodeIdRequest, EnsureNodeIdRequestModel, EnsureNodeIdResponse, EnsureNodeIdResponseModel,
    NodeKind, ReconcileParentChildLinksRequest, ReconcileParentChildLinksRequestModel,
    ReconcileParentChildLinksResponse, ReconcileParentChildLinksResponseModel,
};
use crate::error::{failure, outcome, PlanError, PlanErrorModel};
use crate::ids::{is_random_id, new_id};
use crate::files::{PlanFiles, PlanFilesModel};
use crate::text::{
    concat3, concat5, concat7, concat9, debug_optional, format_optional, is_text, list_has,
    same_optional_text, same_text,
};
use vstd::prelude::*;

verus! {

// ---------------------------------------------------------------------
// Tracking a node
// ---------------------------------------------------------------------
/// The row for a node that is tracked from now on.
pub open spec fn new_row(
    plan_id: Seq<char>,
    node_id: Seq<char>,
    path: Seq<char>,
    kind: NodeKind,
    parent_node_id: Option<Seq<char>>,
    timestamp: Seq<char>,
) -> NodeRowModel {
    NodeRowModel {
        plan_id,
        node_id,
        relative_path: path,
        node_name: stored_name(path),
        node_kind: kind.name(),
        parent_node_id,
        created_at: timestamp,
        updated_at: timestamp,
    }
}

impl RuntimeModel {
    /// The tracked parent that a registration names.
    pub open spec fn requested_parent(
        self,
        plan_id: Seq<char>,
        path: Seq<char>,
        parent: Option<Seq<char>>,
    ) -> Result<Option<NodeRecordModel>, PlanErrorModel> {
        match parent {
            None => Ok(None),
            Some(parent_path) => if parent_path == path {
                Err(
                    failure(
                        "parent_relative_path must differ from relative_path for `"@ + path + "`"@,
                    ),
                )
            } else {
                match self.node_at(plan_id, parent_path) {
                    Err(error) => Err(error),
                    Ok(None) => Err(
                        failure(
                            "parent_relative_path `"@ + parent_path
                                + "` must reference an existing tracked parent node before registering `"@
                                + path + "`"@,
                        ),
                    ),
                    Ok(Some(record)) => if record.node_kind != NodeKind::Parent {
                        Err(
                            failure(
                                "parent_relative_path `"@ + parent_path
                                    + "` must point to a tracked parent node, but it is `"@
                                    + record.node_kind.name() + "`"@,
                            ),
                        )
                    } else {
                        Ok(Some(record))
                    },
                }
            },
        }
    }

    /// The path that is reported for the parent of a node in conflict.
    pub open spec fn reported_parent_path(
        self,
        plan_id: Seq<char>,
        parent_node_id: Option<Seq<char>>,
    ) -> Option<Seq<char>> {
        match parent_node_id {
            Some(node_id) => match self.node_row(plan_id, node_id) {
                Some(row) => Some(row.relative_path),
                None => Some("<unknown-parent>"@),
            },
            None => None,
        }
    }

    /// Why a tracked node is not the one that a registration asks for.
    pub open spec fn mismatch(
        self,
        plan_id: Seq<char>,
        path: Seq<char>,
        kind: NodeKind,
        parent: Option<NodeRecordModel>,
        existing: NodeRecordModel,
    ) -> Option<PlanErrorModel> {
        let parent_node_id = match parent {
            Some(record) => Some(record.node_id),
            None => None,
        };
        let parent_path = match parent {
            Some(record) => Some(record.relative_path),
            None => None,
        };
        if existing.node_kind != kind {
            Some(
                failure(
                    "requested target path `"@ + path + "` resolves to node kind `"@ + kind.name()
                        + "`, but existing node `"@ + existing.node_id + "` is stored as `"@
                        + existing.node_kind.name() + "`"@,
                ),
            )
        } else if existing.parent_node_id != parent_node_id {
            Some(
                failure(
                    "parent_relative_path conflicts with existing node linkage for `"@ + path
                        + "`: requested_parent_relative_path="@ + debug_optional(parent_path)
                        + ", existing_node_id=`"@ + existing.node_id
                        + "`, existing_parent_node_id="@ + debug_optional(existing.parent_node_id)
                        + ", existing_parent_relative_path="@ + debug_optional(
                        self.reported_parent_path(plan_id, existing.parent_node_id),
                    ) + ", existing_relative_path=`"@ + existing.relative_path + "`"@,
                ),
            )
        } else {
            None
        }
    }

    /// The runtime with one more node.
    pub open spec fn with_node(self, row: NodeRowModel) -> RuntimeModel {
        RuntimeModel { nodes: self.nodes.push(row), ..self }
    }

    /// The runtime after a node was asked for, and its id. The new id is
    /// used where the node was not tracked yet.
    pub open spec fn node_ensured(
        self,
        plan_id: Seq<char>,
        path: Seq<char>,
        parent_path: Option<Seq<char>>,
        new_id: Seq<char>,
        timestamp: Seq<char>,
    ) -> (RuntimeModel, Result<Seq<char>, PlanErrorModel>) {
        match registration_kind(path, parent_path) {
            Err(error) => (self, Err(error)),
            Ok(kind) => match self.requested_parent(plan_id, path, parent_path) {
                Err(error) => (self, Err(error)),
                Ok(parent) => match self.node_at(plan_id, path) {
                    Err(error) => (self, Err(error)),
                    Ok(Some(existing)) => match self.mismatch(
                        plan_id,
                        path,
                        kind,
                        parent,
                        existing,
                    ) {
                        Some(error) => (self, Err(error)),
                        None => (self, Ok(existing.node_id)),
                    },
                    Ok(None) => if self.plan(plan_id) is None || self.node_row(
                        plan_id,
                        new_id,
                    ) is Some {
                        (self, Err(failure("failed to persist node metadata"@)))
                    } else {
                        (
                            self.with_node(
                                new_row(
                                    plan_id,
                                    new_id,
                                    path,
                                    kind,
                                    match parent {
                                        Some(record) => Some(record.node_id),
                                        None => None,
                                    },
                                    timestamp,
                                ),
                            ),
                            Ok(new_id),
                        )
                    },
                },
            },
        }
    }

    /// The runtime after a request for a node's id, and the answer.
    pub open spec fn node_id_ensured(
        self,
        request: EnsureNodeIdRequestModel,
        new_id: Seq<char>,
        timestamp: Seq<char>,
    ) -> (RuntimeModel, Result<EnsureNodeIdResponseModel, PlanErrorModel>) {
        let parent_problem = match request.parent_relative_path {
            Some(path) => local_path_problem("parent_relative_path"@, path),
            None => None,
        };
        match local_path_problem("relative_path"@, request.relative_path) {
            Some(text) => (self, Err(failure(text))),
            None => match parent_problem {
                Some(text) => (self, Err(failure(text))),
                None => {
                    let (next, result) = self.node_ensured(
                        request.plan_id,
                        request.relative_path,
                        request.parent_relative_path,
                        new_id,
                        timestamp,
                    );
                    match result {
                        Ok(node_id) => (next, Ok(EnsureNodeIdResponseModel { node_id })),
                        Err(error) => (next, Err(error)),
                    }
                },
            },
        }
    }
}

impl Runtime {
    fn load_requested_parent(&self, plan_id: &str, path: &str, parent: &Option<String>) -> (r:
        Result<Option<NodeRecord>, PlanError>)
        ensures
            outcome(r) == self.deep_view().requested_parent(plan_id@, path@, parent.deep_view()),
    {
        let parent_path: &str = match parent {
            Some(parent_path) => parent_path.as_str(),
            None => {
                return Ok(None);
            },
        };
        if same_text(parent_path, path) {
            return Err(
                PlanError::new(
                    concat3(
                        "parent_relative_path must differ from relative_path for `",
                        path,
                        "`",
                    ),
                ),
            );
        }
        match self.load_node_record_by_relative_path(plan_id, parent_path)? {
            None => Err(
                PlanError::new(
                    concat5(
                        "parent_relative_path `",
                        parent_path,
                        "` must reference an existing tracked parent node before registering `",
                        path,
                        "`",
                    ),
                ),
            ),
            Some(record) => match record.node_kind {
                NodeKind::Leaf => Err(
                    PlanError::new(
                        concat5(
                            "parent_relative_path `",
                            parent_path,
                            "` must point to a tracked parent node, but it is `",
                            record.node_kind.as_str(),
                            "`",
                        ),
                    ),
                ),
                NodeKind::Parent => Ok(Some(record)),
            },
        }
    }

    fn ensure_existing_node_matches_request(
        &self,
        plan_id: &str,
        path: &str,
        kind: NodeKind,
        parent: &Option<NodeRecord>,
        existing: &NodeRecord,
    ) -> (r: Result<(), PlanError>)
        ensures
            outcome(r) == checked(
                self.deep_view().mismatch(
                    plan_id@,
                    path@,
                    kind,
                    parent.deep_view(),
                    existing.deep_view(),
                ),
            ),
    {
        if existing.node_kind != kind {
            let start: String = concat5(
                "requested target path `",
                path,
                "` resolves to node kind `",
                kind.as_str(),
                "`, but existing node `",
            );
            return Err(
                PlanError::new(
                    concat5(
                        start.as_str(),
                        existing.node_id.as_str(),
                        "` is stored as `",
                        existing.node_kind.as_str(),
                        "`",
                    ),
                ),
            );
        }
        let (parent_node_id, parent_path): (Option<String>, Option<String>) = match parent {
            Some(record) => (Some(record.node_id.clone()), Some(record.relative_path.clone())),
            None => (None, None),
        };
        if same_optional_text(&existing.parent_node_id, &parent_node_id) {
            return Ok(());
        }
        let existing_parent_path: Option<String> = match &existing.parent_node_id {
            Some(node_id) => match self.find_node(plan_id, node_id.as_str()) {
                Some(row) => Some(row.relative_path.clone()),
                None => Some("<unknown-parent>".to_owned()),
            },
            None => None,
        };
        let start: String = concat5(
            "parent_relative_path conflicts with existing node linkage for `",
            path,
            "`: requested_parent_relative_path=",
            format_optional(&parent_path).as_str(),
            ", existing_node_id=`",
        );
        let message: String = concat9(
            start.as_str(),
            existing.node_id.as_str(),
            "`, existing_parent_node_id=",
            format_optional(&existing.parent_node_id).as_str(),
            ", existing_parent_relative_path=",
            format_optional(&existing_parent_path).as_str(),
            ", existing_relative_path=`",
            existing.relative_path.as_str(),
            "`",
        );
        Err(PlanError::new(message))
    }

    /// The id of the node at a path, tracked from now on under the new id if
    /// it was not yet.
    pub fn ensure_node_id_for_path(
        &mut self,
        plan_id: &str,
        path: &str,
        parent_path: &Option<String>,
        new_id: &str,
        timestamp: &str,
    ) -> (r: Result<String, PlanError>)
        ensures
            (final(self).deep_view(), outcome(r)) == old(self).deep_view().node_ensured(
                plan_id@,
                path@,
                parent_path.deep_view(),
                new_id@,
                timestamp@,
            ),
    {
        let kind: NodeKind = validate_registration_request(path, parent_path)?;
        let parent: Option<NodeRecord> = self.load_requested_parent(plan_id, path, parent_path)?;
        match self.load_node_record_by_relative_path(plan_id, path)? {
            Some(existing) => {
                self.ensure_existing_node_matches_request(
                    plan_id,
                    path,
                    kind,
                    &parent,
                    &existing,
                )?;
                return Ok(existing.node_id);
            },
            None => {},
        }
        if self.find_plan(plan_id).is_none() || self.find_node(plan_id, new_id).is_some() {
            return Err(PlanError::new("failed to persist node metadata".to_owned()));
        }
        let row: NodeRow = NodeRow {
            plan_id: plan_id.to_owned(),
            node_id: new_id.to_owned(),
            relative_path: path.to_owned(),
            node_name: node_name(path),
            node_kind: kind.as_str().to_owned(),
            parent_node_id: match &parent {
                Some(record) => Some(record.node_id.clone()),
                None => None,
            },
            created_at: timestamp.to_owned(),
            updated_at: timestamp.to_owned(),
        };
        let ghost model = row.deep_view();
        let ghost before = self.nodes.deep_view();
        self.nodes.push(row);
        assert(self.nodes.deep_view() =~= before.push(model));
        Ok(new_id.to_owned())
    }

    /// The id of the node at a path, tracked from now on under a new id if it
    /// was not yet.
    pub fn ensure_node_id(&mut self, request: EnsureNodeIdRequest, timestamp: &str) -> (r: Result<
        EnsureNodeIdResponse,
        PlanError,
    >)
        ensures
            exists|new_id: Seq<char>|
                #[trigger] is_random_id(new_id) && (final(self).deep_view(), outcome(r)) == old(
                    self,
                ).deep_view().node_id_ensured(request.deep_view(), new_id, timestamp@),
    {
        let id: String = new_id();
        self.ensure_node_id_as(request, id.as_str(), timestamp)
    }

    /// The id of the node at a path, tracked from now on under the given id if
    /// it was not yet.
    pub fn ensure_node_id_as(
        &mut self,
        request: EnsureNodeIdRequest,
        new_id: &str,
        timestamp: &str,
    ) -> (r: Result<EnsureNodeIdResponse, PlanError>)
        ensures
            (final(self).deep_view(), outcome(r)) == old(self).deep_view().node_id_ensured(
                request.deep_view(),
                new_id@,
                timestamp@,
            ),
    {
        validate_plan_local_path("relative_path", request.relative_path.as_str())?;
        match &request.parent_relative_path {
            Some(path) => {
                validate_plan_local_path("parent_relative_path", path.as_str())?;
            },
            None => {},
        }
        let node_id: String = self.ensure_node_id_for_path(
            request.plan_id.as_str(),
            request.relative_path.as_str(),
            &request.parent_relative_path,
            new_id,
            timestamp,
        )?;
        Ok(EnsureNodeIdResponse { node_id })
    }
}

// ---------------------------------------------------------------------
// Following the links of a parent's markdown
// ---------------------------------------------------------------------
/// The row with its parent set, if it is that of the given node.
pub open spec fn reparented_row(
    row: NodeRowModel,
    plan_id: Seq<char>,
    node_id: Seq<char>,
    parent_node_id: Option<Seq<char>>,
    timestamp: Seq<char>,
) -> NodeRowModel {
    if row.plan_id == plan_id && row.node_id == node_id {
        NodeRowModel { parent_node_id, updated_at: timestamp, ..row }
    } else {
        row
    }
}

impl RuntimeModel {
    /// The runtime with the parent of a node set.
    pub open spec fn reparented(
        self,
        plan_id: Seq<char>,
        node_id: Seq<char>,
        parent_node_id: Option<Seq<char>>,
        timestamp: Seq<char>,
    ) -> RuntimeModel {
        RuntimeModel {
            nodes: Seq::new(
                self.nodes.len(),
                |i: int|
                    reparented_row(self.nodes[i], plan_id, node_id, parent_node_id, timestamp),
            ),
            ..self
        }
    }

    /// The tracked child at a linked path.
    pub open spec fn linked_child(
        self,
        files: PlanFilesModel,
        plan: GatePlanContextModel,
        plan_id: Seq<char>,
        parent: NodeRecordModel,
        path: Seq<char>,
    ) -> Result<NodeRecordModel, PlanErrorModel> {
        match node_path_kind("child_relative_path"@, path) {
            Err(error) => Err(error),
            Ok(kind) => match direct_child_problem(path, parent.relative_path, kind) {
                Some(error) => Err(error),
                None => match markdown_file_problem(files, plan.plan_root, path) {
                    Some(error) => Err(error),
                    None => match self.node_at(plan_id, path) {
                        Err(error) => Err(error),
                        Ok(None) => Err(
                            failure(
                                "linked child_relative_path `"@ + path
                                    + "` must be tracked before reconciling parent `"@
                                    + parent.relative_path + "`"@,
                            ),
                        ),
                        Ok(Some(child)) => match direct_child_problem(
                            child.relative_path,
                            parent.relative_path,
                            child.node_kind,
                        ) {
                            Some(error) => Err(error),
                            None => Ok(child),
                        },
                    },
                },
            },
        }
    }

    /// The tracked children at the linked paths from `i` on, after those in
    /// `acc`.
    pub open spec fn linked_children_from(
        self,
        files: PlanFilesModel,
        plan: GatePlanContextModel,
        plan_id: Seq<char>,
        parent: NodeRecordModel,
        links: Seq<Seq<char>>,
        i: int,
        acc: Seq<NodeRecordModel>,
    ) -> Result<Seq<NodeRecordModel>, PlanErrorModel>
        decreases links.len() - i,
    {
        if i >= links.len() {
            Ok(acc)
        } else {
            match self.linked_child(files, plan, plan_id, parent, links[i]) {
                Err(error) => Err(error),
                Ok(child) => self.linked_children_from(
                    files,
                    plan,
                    plan_id,
                    parent,
                    links,
                    i + 1,
                    acc.push(child),
                ),
            }
        }
    }

    /// Why a child cannot leave the parent that it has.
    pub open spec fn still_linked_problem(
        self,
        files: PlanFilesModel,
        plan: GatePlanContextModel,
        plan_id: Seq<char>,
        parent: NodeRecordModel,
        child: NodeRecordModel,
    ) -> Option<PlanErrorModel> {
        match child.parent_node_id {
            None => None,
            Some(node_id) => if node_id == parent.node_id {
                None
            } else {
                match self.node(plan_id, node_id) {
                    Err(error) => Some(
                        error.under(
                            "failed to inspect existing parent `"@ + node_id
                                + "` for linked child `"@ + child.relative_path + "`"@,
                        ),
                    ),
                    Ok(existing) => match parent_record_problem(existing) {
                        Some(error) => Some(error),
                        None => match markdown_file_problem(
                            files,
                            plan.plan_root,
                            existing.relative_path,
                        ) {
                            Some(error) => Some(error),
                            None => match plan_markdown(
                                files,
                                plan.plan_root,
                                existing.relative_path,
                            ) {
                                Err(error) => Some(error),
                                Ok(markdown) => match child_link_paths(
                                    existing.relative_path,
                                    markdown,
                                ) {
                                    Err(error) => Some(error),
                                    Ok(links) => if links.contains(child.relative_path) {
                                        Some(
                                            failure(
                                                "linked child_relative_path `"@
                                                    + child.relative_path
                                                    + "` is still linked from existing parent `"@
                                                    + existing.relative_path
                                                    + "`; reconcile that parent before attaching it to `"@
                                                    + parent.relative_path + "`"@,
                                            ),
                                        )
                                    } else {
                                        None
                                    },
                                },
                            },
                        },
                    },
                }
            },
        }
    }

    /// Why one of the children from `i` on cannot leave the parent that it
    /// has.
    pub open spec fn still_linked_from(
        self,
        files: PlanFilesModel,
        plan: GatePlanContextModel,
        plan_id: Seq<char>,
        parent: NodeRecordModel,
        children: Seq<NodeRecordModel>,
        i: int,
    ) -> Option<PlanErrorModel>
        decreases children.len() - i,
    {
        if i >= children.len() {
            None
        } else {
            match self.still_linked_problem(files, plan, plan_id, parent, children[i]) {
                Some(error) => Some(error),
                None => self.still_linked_from(files, plan, plan_id, parent, children, i + 1),
            }
        }
    }

    /// The runtime without the children from `i` on that are not linked, and
    /// the paths of those that left, after those in `acc`.
    pub open spec fn detached_from(
        self,
        plan_id: Seq<char>,
        children: Seq<NodeRecordModel>,
        links: Seq<Seq<char>>,
        timestamp: Seq<char>,
        i: int,
        acc: Seq<Seq<char>>,
    ) -> (RuntimeModel, Seq<Seq<char>>)
        decreases children.len() - i,
    {
        if i >= children.len() {
            (self, acc)
        } else if links.contains(children[i].relative_path) {
            self.detached_from(plan_id, children, links, timestamp, i + 1, acc)
        } else {
            self.reparented(plan_id, children[i].node_id, None, timestamp).detached_from(
                plan_id,
                children,
                links,
                timestamp,
                i + 1,
                acc.push(children[i].relative_path),
            )
        }
    }

    /// The runtime with the children from `i` on attached to the parent, and
    /// the paths of those that came, after those in `acc`.
    pub open spec fn attached_from(
        self,
        plan_id: Seq<char>,
        children: Seq<NodeRecordModel>,
        parent_node_id: Seq<char>,
        timestamp: Seq<char>,
        i: int,
        acc: Seq<Seq<char>>,
    ) -> (RuntimeModel, Seq<Seq<char>>)
        decreases children.len() - i,
    {
        if i >= children.len() {
            (self, acc)
        } else if children[i].parent_node_id == Some(parent_node_id) {
            self.attached_from(plan_id, children, parent_node_id, timestamp, i + 1, acc)
        } else {
            self.reparented(
                plan_id,
                children[i].node_id,
                Some(parent_node_id),
                timestamp,
            ).attached_from(
                plan_id,
                children,
                parent_node_id,
                timestamp,
                i + 1,
                acc.push(children[i].relative_path),
            )
        }
    }

    /// The parent whose links are followed, its plan, and the links.
    pub open spec fn reconciled_parent(
        self,
        files: PlanFilesModel,
        request: ReconcileParentChildLinksRequestModel,
    ) -> Result<(GatePlanContextModel, NodeRecordModel, Seq<Seq<char>>), PlanErrorModel> {
        let path = request.parent_relative_path;
        match local_path_problem("parent_relative_path"@, path) {
            Some(text) => Err(failure(text)),
            None => match parent_path_problem("parent_relative_path"@, path) {
                Some(error) => Err(error),
                None => match self.gate_plan(request.plan_id) {
                    Err(error) => Err(error),
                    Ok(plan) => match self.node_at(request.plan_id, path) {
                        Err(error) => Err(error),
                        Ok(None) => Err(
                            failure(
                                "parent_relative_path `"@ + path + "` does not exist for plan `"@
                                    + request.plan_id + "`"@,
                            ),
                        ),
                        Ok(Some(parent)) => match parent_record_problem(parent) {
                            Some(error) => Err(error),
                            None => match markdown_file_problem(
                                files,
                                plan.plan_root,
                                parent.relative_path,
                            ) {
                                Some(error) => Err(error),
                                None => match plan_markdown(
                                    files,
                                    plan.plan_root,
                                    parent.relative_path,
                                ) {
                                    Err(error) => Err(error),
                                    Ok(markdown) => match child_link_paths(
                                        parent.relative_path,
                                        markdown,
                                    ) {
                                        Err(error) => Err(error),
                                        Ok(links) => Ok((plan, parent, links)),
                                    },
                                },
                            },
                        },
                    },
                },
            },
        }
    }

    /// The runtime after the links of a parent were followed, and the answer.
    pub open spec fn links_reconciled(
        self,
        files: PlanFilesModel,
        request: ReconcileParentChildLinksRequestModel,
        timestamp: Seq<char>,
    ) -> (RuntimeModel, Result<ReconcileParentChildLinksResponseModel, PlanErrorModel>) {
        let plan_id = request.plan_id;
        match self.reconciled_parent(files, request) {
            Err(error) => (self, Err(error)),
            Ok((plan, parent, links)) => match self.linked_children_from(
                files,
                plan,
                plan_id,
                parent,
                links,
                0,
                Seq::empty(),
            ) {
                Err(error) => (self, Err(error)),
                Ok(linked) => match self.still_linked_from(
                    files,
                    plan,
                    plan_id,
                    parent,
                    linked,
                    0,
                ) {
                    Some(error) => (self, Err(error)),
                    None => match self.child_nodes(plan_id, Some(parent.node_id)) {
                        Err(error) => (self, Err(error)),
                        Ok(current) => {
                            let (without, detached) = self.detached_from(
                                plan_id,
                                current,
                                links,
                                timestamp,
                                0,
                                Seq::empty(),
                            );
                            let (with, attached) = without.attached_from(
                                plan_id,
                                linked,
                                parent.node_id,
                                timestamp,
                                0,
                                Seq::empty(),
                            );
                            (
                                with,
                                Ok(
                                    ReconcileParentChildLinksResponseModel {
                                        parent_node_id: parent.node_id,
                                        parent_relative_path: parent.relative_path,
                                        linked_child_relative_paths: links,
                                        attached_child_relative_paths: attached,
                                        detached_child_relative_paths: detached,
                                    },
                                ),
                            )
                        },
                    },
                },
            },
        }
    }
}

impl Runtime {
    fn set_node_parent(
        &mut self,
        plan_id: &str,
        node_id: &str,
        parent_node_id: &Option<String>,
        timestamp: &str,
    )
        ensures
            final(self).deep_view() == old(self).deep_view().reparented(
                plan_id@,
                node_id@,
                parent_node_id.deep_view(),
                timestamp@,
            ),
    {
        let ghost first = self.deep_view();
        let ghost parent = parent_node_id.deep_view();
        let mut i: usize = 0;
        while i < self.nodes.len()
            invariant
                i <= self.nodes.len(),
                self.nodes.len() == first.nodes.len(),
                parent == parent_node_id.deep_view(),
                self.deep_view() == (RuntimeModel { nodes: self.nodes.deep_view(), ..first }),
                forall|k: int|
                    0 <= k < i ==> (#[trigger] self.nodes.deep_view()[k]) == reparented_row(
                        first.nodes[k],
                        plan_id@,
                        node_id@,
                        parent,
                        timestamp@,
                    ),
                forall|k: int|
                    i <= k < self.nodes.len() ==> (#[trigger] self.nodes.deep_view()[k])
                        == first.nodes[k],
            decreases self.nodes.len() - i,
        {
            assert(self.nodes.deep_view()[i as int] == self.nodes@[i as int].deep_view());
            if same_text(self.nodes[i].plan_id.as_str(), plan_id) && same_text(
                self.nodes[i].node_id.as_str(),
                node_id,
            ) {
                let ghost before = self.nodes.deep_view();
                let mut row: NodeRow = self.nodes[i].clone();
                row.parent_node_id = parent_node_id.clone();
                row.updated_at = timestamp.to_owned();
                let ghost model = row.deep_view();
                self.nodes.set(i, row);
                assert(self.nodes.deep_view() =~= before.update(i as int, model));
            }
            i = i + 1;
        }
        assert(self.deep_view().nodes =~= first.reparented(
            plan_id@,
            node_id@,
            parent,
            timestamp@,
        ).nodes);
    }

    fn load_linked_child(
        &self,
        files: &PlanFiles,
        plan: &GatePlanContext,
        plan_id: &str,
        parent: &NodeRecord,
        path: &str,
    ) -> (r: Result<NodeRecord, PlanError>)
        ensures
            outcome(r) == self.deep_view().linked_child(
                files.deep_view(),
                plan.deep_view(),
                plan_id@,
                parent.deep_view(),
                path@,
            ),
    {
        let kind: NodeKind = validate_registered_node_path("child_relative_path", path)?;
        validate_direct_child_relationship(path, parent.relative_path.as_str(), kind)?;
        ensure_plan_markdown_file_exists(files, plan.plan_root.as_str(), path)?;
        match self.load_node_record_by_relative_path(plan_id, path)? {
            None => Err(
                PlanError::new(
                    concat5(
                        "linked child_relative_path `",
                        path,
                        "` must be tracked before reconciling parent `",
                        parent.relative_path.as_str(),
                        "`",
                    ),
                ),
            ),
            Some(child) => {
                validate_direct_child_relationship(
                    child.relative_path.as_str(),
                    parent.relative_path.as_str(),
                    child.node_kind,
                )?;
                Ok(child)
            },
        }
    }

    #[verifier::loop_isolation(false)]
    fn load_linked_children(
        &self,
        files: &PlanFiles,
        plan: &GatePlanContext,
        plan_id: &str,
        parent: &NodeRecord,
        links: &Vec<String>,
    ) -> (r: Result<Vec<NodeRecord>, PlanError>)
        ensures
            outcome(r) == self.deep_view().linked_children_from(
                files.deep_view(),
                plan.deep_view(),
                plan_id@,
                parent.deep_view(),
                links.deep_view(),
                0,
                Seq::empty(),
            ),
    {
        let ghost all = links.deep_view();
        let mut children: Vec<NodeRecord> = Vec::new();
        let mut i: usize = 0;
        assert(children.deep_view() =~= Seq::empty());
        while i < links.len()
            invariant
                i <= links.len(),
                self.deep_view().linked_children_from(
                    files.deep_view(),
                    plan.deep_view(),
                    plan_id@,
                    parent.deep_view(),
                    all,
                    0,
                    Seq::empty(),
                ) == self.deep_view().linked_children_from(
                    files.deep_view(),
                    plan.deep_view(),
                    plan_id@,
                    parent.deep_view(),
                    all,
                    i as int,
                    children.deep_view(),
                ),
            decreases links.len() - i,
        {
            let ghost before = children.deep_view();
            let child: NodeRecord = self.load_linked_child(
                files,
                plan,
                plan_id,
                parent,
                links[i].as_str(),
            )?;
            children.push(child);
            assert(children.deep_view() =~= before.push(child.deep_view()));
            i = i + 1;
        }
        Ok(children)
    }

    fn reject_still_linked_child(
        &self,
        files: &PlanFiles,
        plan: &GatePlanContext,
        plan_id: &str,
        parent: &NodeRecord,
        child: &NodeRecord,
    ) -> (r: Result<(), PlanError>)
        ensures
            outcome(r) == checked(
                self.deep_view().still_linked_problem(
                    files.deep_view(),
                    plan.deep_view(),
                    plan_id@,
                    parent.deep_view(),
                    child.deep_view(),
                ),
            ),
    {
        let node_id: &str = match &child.parent_node_id {
            Some(node_id) => node_id.as_str(),
            None => {
                return Ok(());
            },
        };
        if same_text(node_id, parent.node_id.as_str()) {
            return Ok(());
        }
        let existing: NodeRecord = match self.load_node_record(plan_id, node_id) {
            Ok(record) => record,
            Err(error) => {
                return Err(
                    error.context(
                        concat5(
                            "failed to inspect existing parent `",
                            node_id,
                            "` for linked child `",
                            child.relative_path.as_str(),
                            "`",
                        ),
                    ),
                );
            },
        };
        require_parent_node_record(&existing)?;
        ensure_plan_markdown_file_exists(
            files,
            plan.plan_root.as_str(),
            existing.relative_path.as_str(),
        )?;
        let markdown: String = read_plan_markdown(
            files,
            plan.plan_root.as_str(),
            existing.relative_path.as_str(),
        )?;
        let links: Vec<String> = parse_child_node_link_paths(
            existing.relative_path.as_str(),
            markdown.as_str(),
        )?;
        if list_has(&links, child.relative_path.as_str()) {
            return Err(
                PlanError::new(
                    concat7(
                        "linked child_relative_path `",
                        child.relative_path.as_str(),
                        "` is still linked from existing parent `",
                        existing.relative_path.as_str(),
                        "`; reconcile that parent before attaching it to `",
                        parent.relative_path.as_str(),
                        "`",
                    ),
                ),
            );
        }
        Ok(())
    }

    #[verifier::loop_isolation(false)]
    fn reject_still_linked_reparent_conflicts(
        &self,
        files: &PlanFiles,
        plan: &GatePlanContext,
        plan_id: &str,
        parent: &NodeRecord,
        children: &Vec<NodeRecord>,
    ) -> (r: Result<(), PlanError>)
        ensures
            outcome(r) == checked(
                self.deep_view().still_linked_from(
                    files.deep_view(),
                    plan.deep_view(),
                    plan_id@,
                    parent.deep_view(),
                    children.deep_view(),
                    0,
                ),
            ),
    {
        let ghost all = children.deep_view();
        let mut i: usize = 0;
        while i < children.len()
            invariant
                i <= children.len(),
                self.deep_view().still_linked_from(
                    files.deep_view(),
                    plan.deep_view(),
                    plan_id@,
                    parent.deep_view(),
                    all,
                    0,
                ) == self.deep_view().still_linked_from(
                    files.deep_view(),
                    plan.deep_view(),
                    plan_id@,
                    parent.deep_view(),
                    all,
                    i as int,
                ),
            decreases children.len() - i,
        {
            assert(all[i as int] == children@[i as int].deep_view());
            self.reject_still_linked_child(files, plan, plan_id, parent, &children[i])?;
            i = i + 1;
        }
        Ok(())
    }

    fn detach_unlinked(
        &mut self,
        plan_id: &str,
        children: &Vec<NodeRecord>,
        links: &Vec<String>,
        timestamp: &str,
    ) -> (r: Vec<String>)
        ensures
            (final(self).deep_view(), r.deep_view()) == old(self).deep_view().detached_from(
                plan_id@,
                children.deep_view(),
                links.deep_view(),
                timestamp@,
                0,
                Seq::empty(),
            ),
    {
        let ghost first = self.deep_view();
        let ghost all = children.deep_view();
        let mut out: Vec<String> = Vec::new();
        let mut i: usize = 0;
        assert(out.deep_view() =~= Seq::empty());
        while i < children.len()
            invariant
                i <= children.len(),
                all == children.deep_view(),
                first.detached_from(plan_id@, all, links.deep_view(), timestamp@, 0, Seq::empty())
                    == self.deep_view().detached_from(
                    plan_id@,
                    all,
                    links.deep_view(),
                    timestamp@,
                    i as int,
                    out.deep_view(),
                ),
            decreases children.len() - i,
        {
            let child: &NodeRecord = &children[i];
            assert(all[i as int] == child.deep_view());
            if !list_has(links, child.relative_path.as_str()) {
                self.set_node_parent(plan_id, child.node_id.as_str(), &None, timestamp);
                let ghost before = out.deep_view();
                out.push(child.relative_path.clone());
                assert(out.deep_view() =~= before.push(child.relative_path@));
            }
            i = i + 1;
        }
        out
    }

    fn attach_linked(
        &mut self,
        plan_id: &str,
        children: &Vec<NodeRecord>,
        parent_node_id: &str,
        timestamp: &str,
    ) -> (r: Vec<String>)
        ensures
            (final(self).deep_view(), r.deep_view()) == old(self).deep_view().attached_from(
                plan_id@,
                children.deep_view(),
                parent_node_id@,
                timestamp@,
                0,
                Seq::empty(),
            ),
    {
        let ghost first = self.deep_view();
        let ghost all = children.deep_view();
        let parent: Option<String> = Some(parent_node_id.to_owned());
        let mut out: Vec<String> = Vec::new();
        let mut i: usize = 0;
        assert(out.deep_view() =~= Seq::empty());
        while i < children.len()
            invariant
                i <= children.len(),
                all == children.deep_view(),
                parent.deep_view() == Some(parent_node_id@),
                first.attached_from(plan_id@, all, parent_node_id@, timestamp@, 0, Seq::empty())
                    == self.deep_view().attached_from(
                    plan_id@,
                    all,
                    parent_node_id@,
                    timestamp@,
                    i as int,
                    out.deep_view(),
                ),
            decreases children.len() - i,
        {
            let child: &NodeRecord = &children[i];
            assert(all[i as int] == child.deep_view());
            if !is_text(&child.parent_node_id, parent_node_id) {
                self.set_node_parent(plan_id, child.node_id.as_str(), &parent, timestamp);
                let ghost before = out.deep_view();
                out.push(child.relative_path.clone());
                assert(out.deep_view() =~= before.push(child.relative_path@));
            }
            i = i + 1;
        }
        out
    }

    fn load_reconciled_parent(
        &self,
        files: &PlanFiles,
        request: &ReconcileParentChildLinksRequest,
    ) -> (r: Result<(GatePlanContext, NodeRecord, Vec<String>), PlanError>)
        ensures
            outcome(r) == self.deep_view().reconciled_parent(
                files.deep_view(),
                request.deep_view(),
            ),
    {
        let path: &str = request.parent_relative_path.as_str();
        validate_plan_local_path("parent_relative_path", path)?;
        require_parent_node_path("parent_relative_path", path)?;
        let plan: GatePlanContext = self.load_gate_plan_context(request.plan_id.as_str())?;
        let parent: NodeRecord = match self.load_node_record_by_relative_path(
            request.plan_id.as_str(),
            path,
        )? {
            Some(parent) => parent,
            None => {
                return Err(
                    PlanError::new(
                        concat5(
                            "parent_relative_path `",
                            path,
                            "` does not exist for plan `",
                            request.plan_id.as_str(),
                            "`",
                        ),
                    ),
                );
            },
        };
        require_parent_node_record(&parent)?;
        ensure_plan_markdown_file_exists(
            files,
            plan.plan_root.as_str(),
            parent.relative_path.as_str(),
        )?;
        let markdown: String = read_plan_markdown(
            files,
            plan.plan_root.as_str(),
            parent.relative_path.as_str(),
        )?;
        let links: Vec<String> = parse_child_node_link_paths(
            parent.relative_path.as_str(),
            markdown.as_str(),
        )?;
        Ok((plan, parent, links))
    }

    /// Makes the children of a parent node those that its markdown links.
    pub fn reconcile_parent_child_links(
        &mut self,
        files: &PlanFiles,
        request: ReconcileParentChildLinksRequest,
        timestamp: &str,
    ) -> (r: Result<ReconcileParentChildLinksResponse, PlanError>)
        ensures
            (final(self).deep_view(), outcome(r)) == old(self).deep_view().links_reconciled(
                files.deep_view(),
                request.deep_view(),
                timestamp@,
            ),
    {
        let plan_id: &str = request.plan_id.as_str();
        let (plan, parent, links): (GatePlanContext, NodeRecord, Vec<String>) =
            self.load_reconciled_parent(files, &request)?;
        let linked: Vec<NodeRecord> = self.load_linked_children(
            files,
            &plan,
            plan_id,
            &parent,
            &links,
        )?;
        self.reject_still_linked_reparent_conflicts(files, &plan, plan_id, &parent, &linked)?;
        let current: Vec<NodeRecord> = self.load_child_nodes(
            plan_id,
            &Some(parent.node_id.clone()),
        )?;
        let detached: Vec<String> = self.detach_unlinked(plan_id, &current, &links, timestamp);
        let attached: Vec<String> = self.attach_linked(
            plan_id,
            &linked,
            parent.node_id.as_str(),
            timestamp,
        );
        Ok(
            ReconcileParentChildLinksResponse {
                parent_node_id: parent.node_id,
                parent_relative_path: parent.relative_path,
                linked_child_relative_paths: links,
                attached_child_relative_paths: attached,
                detached_child_relative_paths: detached,
            },
        )
    }
}

} // verus!
