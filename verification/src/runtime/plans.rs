//! Plans: their names, their places, and how they are found and made.
use super::query::plan_from;
use super::store::{NodeRow, NodeRowModel, PlanRow, PlanRowModel, Runtime, RuntimeModel};
use crate::api::{
    EnsurePlanRequest, EnsurePlanRequestModel, EnsurePlanResponse, EnsurePlanResponseModel,
    OpenPlanRequest, OpenPlanRequestModel, OpenPlanResponse, OpenPlanResponseModel,
};
use crate::error::{failure, outcome, PlanError, PlanErrorModel};
use crate::ids::{is_random_id, new_id};
use crate::paths::{
    components, file_name, is_absolute, join_path, joined_path, parent_name, path_components,
    path_file_name, path_is_absolute, path_parent_name, Component, ComponentModel,
};
use crate::skill::{
    load_manifest, resolve_gate_roles, task_type_identifier, validate_task_type_identifier,
    Manifest, ResolvedGateRoleSelection, ResolvedGateRoleSelectionModel, SkillFiles,
    SkillFilesModel,
};
use crate::text::{
    ascii_lowered, before_suffix, concat2, concat3, concat5, concat7, contains_text, has_text,
    is_empty, is_text, same_text, strip_suffix, to_ascii_lower,
};
use vstd::prelude::*;

verus! {

/// The directory of the runtime in its workspace.
pub const LOOPY_DIRECTORY: &'static str = ".loopy";

/// The directory of the plans in their workspace.
pub const FIXED_PLANS_RELATIVE_PATH: &'static str = ".loopy/plans";

/// The place of the database in its workspace.
pub const FIXED_DB_RELATIVE_PATH: &'static str = ".loopy/loopy.db";

/// The project directory was given.
pub const PROJECT_DIRECTORY_SOURCE_EXPLICIT: &'static str = "explicit";

/// The project directory was filled in for a plan that had none.
pub const PROJECT_DIRECTORY_SOURCE_BACKFILLED_LEGACY: &'static str = "backfilled_legacy";

/// The status of a plan that is worked on.
pub const ACTIVE_PLAN_STATUS: &'static str = "active";

/// Why a text is no name of a plan.
pub open spec fn plan_name_problem(plan_name: Seq<char>) -> Option<Seq<char>> {
    let parts = components(plan_name);
    if plan_name.len() == 0 {
        Some("plan_name must not be empty"@)
    } else if is_absolute(plan_name) {
        Some("plan_name must stay within .loopy/plans/: absolute paths are not allowed"@)
    } else if parts.len() != 1 || !(parts[0] is Normal) {
        Some("plan_name must be a single directory name within .loopy/plans/"@)
    } else if parts[0] != ComponentModel::Normal(plan_name) {
        Some("plan_name must be normalized within .loopy/plans/"@)
    } else {
        None
    }
}

/// Checks the name of a plan.
pub fn validate_plan_name(plan_name: &str) -> (r: Result<(), PlanError>)
    ensures
        match plan_name_problem(plan_name@) {
            Some(text) => outcome(r) == Err::<(), PlanErrorModel>(failure(text)),
            None => r is Ok,
        },
{
    if is_empty(plan_name) {
        return Err(PlanError::new("plan_name must not be empty".to_owned()));
    }
    if path_is_absolute(plan_name) {
        return Err(
            PlanError::new(
                "plan_name must stay within .loopy/plans/: absolute paths are not allowed".to_owned(),
            ),
        );
    }
    let parts: Vec<Component> = path_components(plan_name);
    if parts.len() == 1 {
        assert(components(plan_name@)[0] == parts@[0].deep_view());
        match &parts[0] {
            Component::Normal(name) => {
                if same_text(name.as_str(), plan_name) {
                    return Ok(());
                }
                return Err(
                    PlanError::new("plan_name must be normalized within .loopy/plans/".to_owned()),
                );
            },
            _ => {},
        }
    }
    Err(
        PlanError::new(
            "plan_name must be a single directory name within .loopy/plans/".to_owned(),
        ),
    )
}

/// The project directory, seen from the workspace.
pub open spec fn project_path(workspace_root: Seq<char>, project_directory: Seq<char>) -> Result<
    Seq<char>,
    PlanErrorModel,
> {
    if project_directory.len() == 0 {
        Err(failure("project_directory must not be empty"@))
    } else {
        Ok(joined_path(workspace_root, project_directory))
    }
}

fn normalize_project_directory(workspace_root: &str, project_directory: &str) -> (r: Result<
    String,
    PlanError,
>)
    ensures
        outcome(r) == project_path(workspace_root@, project_directory@),
{
    if is_empty(project_directory) {
        return Err(PlanError::new("project_directory must not be empty".to_owned()));
    }
    Ok(join_path(workspace_root, project_directory))
}

/// The plan with its project directory repaired, if it is the given one.
pub open spec fn repaired_plan(
    plan: PlanRowModel,
    plan_id: Seq<char>,
    project_directory: Seq<char>,
    timestamp: Seq<char>,
) -> PlanRowModel {
    if plan.plan_id == plan_id {
        PlanRowModel {
            project_directory,
            project_directory_source: PROJECT_DIRECTORY_SOURCE_EXPLICIT@,
            updated_at: timestamp,
            ..plan
        }
    } else {
        plan
    }
}

impl RuntimeModel {
    /// A runtime that remembers nothing yet.
    pub open spec fn empty(workspace_root: Seq<char>) -> RuntimeModel {
        RuntimeModel {
            workspace_root,
            plans: Seq::empty(),
            nodes: Seq::empty(),
            leaf_gate_runs: Seq::empty(),
            frontier_gate_runs: Seq::empty(),
        }
    }

    /// The place of a plan.
    pub open spec fn plan_root(self, plan_name: Seq<char>) -> Seq<char> {
        joined_path(joined_path(self.workspace_root, FIXED_PLANS_RELATIVE_PATH@), plan_name)
    }

    /// The plan with this name, which must stand at its place.
    pub open spec fn selected_plan(self, plan_name: Seq<char>) -> Result<
        Option<PlanRowModel>,
        PlanErrorModel,
    > {
        match self.named_plan(plan_name) {
            Some(plan) => if plan.plan_root != self.plan_root(plan_name) {
                Err(
                    failure(
                        "persisted plan_root does not match the fixed plan location for `"@
                            + plan_name + "`"@,
                    ),
                )
            } else {
                Ok(Some(plan))
            },
            None => Ok(None),
        }
    }

    /// What a request for an existing plan answers.
    pub open spec fn plan_opened(self, request: OpenPlanRequestModel) -> Result<
        OpenPlanResponseModel,
        PlanErrorModel,
    > {
        match plan_name_problem(request.plan_name) {
            Some(text) => Err(failure(text)),
            None => match self.selected_plan(request.plan_name) {
                Err(error) => Err(error),
                Ok(None) => Err(failure("plan `"@ + request.plan_name + "` does not exist"@)),
                Ok(Some(plan)) => Ok(
                    OpenPlanResponseModel {
                        plan_id: plan.plan_id,
                        plan_root: plan.plan_root,
                        plan_status: plan.plan_status,
                        task_type: plan.task_type,
                    },
                ),
            },
        }
    }

    /// The runtime with the project directory of a plan repaired.
    pub open spec fn repaired(
        self,
        plan_id: Seq<char>,
        project_directory: Seq<char>,
        timestamp: Seq<char>,
    ) -> RuntimeModel {
        RuntimeModel {
            plans: Seq::new(
                self.plans.len(),
                |i: int| repaired_plan(self.plans[i], plan_id, project_directory, timestamp),
            ),
            ..self
        }
    }

    /// The runtime after a plan was asked for, and the answer. The new id is
    /// used where there was no such plan yet.
    pub open spec fn plan_ensured(
        self,
        request: EnsurePlanRequestModel,
        new_id: Seq<char>,
        timestamp: Seq<char>,
    ) -> (RuntimeModel, Result<EnsurePlanResponseModel, PlanErrorModel>) {
        match plan_name_problem(request.plan_name) {
            Some(text) => (self, Err(failure(text))),
            None => match task_type_identifier(request.task_type) {
                Err(error) => (self, Err(error)),
                Ok(task_type) => match project_path(
                    self.workspace_root,
                    request.project_directory,
                ) {
                    Err(error) => (self, Err(error)),
                    Ok(project_directory) => match self.selected_plan(request.plan_name) {
                        Err(error) => (self, Err(error)),
                        Ok(Some(plan)) => {
                            let answer = EnsurePlanResponseModel {
                                plan_id: plan.plan_id,
                                plan_root: plan.plan_root,
                                plan_status: plan.plan_status,
                            };
                            if plan.project_directory == project_directory {
                                (self, Ok(answer))
                            } else if plan.project_directory_source
                                == PROJECT_DIRECTORY_SOURCE_BACKFILLED_LEGACY@ {
                                (
                                    self.repaired(plan.plan_id, project_directory, timestamp),
                                    Ok(answer),
                                )
                            } else if plan.project_directory_source
                                == PROJECT_DIRECTORY_SOURCE_EXPLICIT@ {
                                (
                                    self,
                                    Err(
                                        failure(
                                            "persisted project_directory for existing plan `"@
                                                + request.plan_name + "` is `"@
                                                + plan.project_directory
                                                + "` and cannot be redirected to `"@
                                                + project_directory + "`"@,
                                        ),
                                    ),
                                )
                            } else {
                                (
                                    self,
                                    Err(
                                        failure(
                                            "persisted project_directory_source `"@
                                                + plan.project_directory_source
                                                + "` for existing plan `"@ + request.plan_name
                                                + "` is invalid"@,
                                        ),
                                    ),
                                )
                            }
                        },
                        Ok(None) => if self.plan(new_id) is Some {
                            (self, Err(failure("failed to persist plan metadata"@)))
                        } else {
                            (
                                RuntimeModel {
                                    plans: self.plans.push(
                                        PlanRowModel {
                                            plan_id: new_id,
                                            workspace_root: self.workspace_root,
                                            plan_name: request.plan_name,
                                            plan_root: self.plan_root(request.plan_name),
                                            project_directory,
                                            project_directory_source:
                                                PROJECT_DIRECTORY_SOURCE_EXPLICIT@,
                                            task_type,
                                            plan_status: ACTIVE_PLAN_STATUS@,
                                            created_at: timestamp,
                                            updated_at: timestamp,
                                        },
                                    ),
                                    ..self
                                },
                                Ok(
                                    EnsurePlanResponseModel {
                                        plan_id: new_id,
                                        plan_root: self.plan_root(request.plan_name),
                                        plan_status: ACTIVE_PLAN_STATUS@,
                                    },
                                ),
                            )
                        },
                    },
                },
            },
        }
    }

    /// The judges of a plan.
    pub open spec fn gate_roles_of(
        self,
        plan_id: Seq<char>,
        skill: Result<SkillFilesModel, PlanErrorModel>,
    ) -> Result<ResolvedGateRoleSelectionModel, PlanErrorModel> {
        match self.plan(plan_id) {
            None => Err(failure("plan `"@ + plan_id + "` does not exist"@)),
            Some(plan) => match skill {
                Err(error) => Err(error),
                Ok(files) => match files.manifest() {
                    Err(error) => Err(error),
                    Ok(manifest) => files.gate_roles(manifest, plan.task_type),
                },
            },
        }
    }
}

impl Runtime {
    /// A runtime that remembers nothing yet.
    pub fn new(workspace_root: String) -> (r: Runtime)
        ensures
            r.deep_view() == RuntimeModel::empty(workspace_root@),
    {
        let r: Runtime = Runtime {
            workspace_root,
            plans: Vec::new(),
            nodes: Vec::new(),
            leaf_gate_runs: Vec::new(),
            frontier_gate_runs: Vec::new(),
        };
        assert(r.plans.deep_view() =~= Seq::empty());
        assert(r.nodes.deep_view() =~= Seq::empty());
        assert(r.leaf_gate_runs.deep_view() =~= Seq::empty());
        assert(r.frontier_gate_runs.deep_view() =~= Seq::empty());
        r
    }

    /// The root of the workspace.
    pub fn workspace_root(&self) -> (r: &str)
        ensures
            r@ == self.deep_view().workspace_root,
    {
        self.workspace_root.as_str()
    }

    /// The directory of the runtime.
    pub fn loopy_directory(&self) -> (r: String)
        ensures
            r@ == joined_path(self.deep_view().workspace_root, LOOPY_DIRECTORY@),
    {
        join_path(self.workspace_root.as_str(), LOOPY_DIRECTORY)
    }

    /// The directory of the plans.
    pub fn plans_directory(&self) -> (r: String)
        ensures
            r@ == joined_path(self.deep_view().workspace_root, FIXED_PLANS_RELATIVE_PATH@),
    {
        join_path(self.workspace_root.as_str(), FIXED_PLANS_RELATIVE_PATH)
    }

    /// The place of the database.
    pub fn db_path(&self) -> (r: String)
        ensures
            r@ == joined_path(self.deep_view().workspace_root, FIXED_DB_RELATIVE_PATH@),
    {
        join_path(self.workspace_root.as_str(), FIXED_DB_RELATIVE_PATH)
    }

    /// The place of a plan.
    pub fn plan_root(&self, plan_name: &str) -> (r: String)
        ensures
            r@ == self.deep_view().plan_root(plan_name@),
    {
        join_path(self.plans_directory().as_str(), plan_name)
    }

    /// The place that a plan has.
    pub fn persisted_plan_root(&self, plan_id: &str) -> (r: Result<String, PlanError>)
        ensures
            outcome(r) == self.deep_view().root_of_plan(plan_id@),
    {
        match self.find_plan(plan_id) {
            Some(plan) => Ok(plan.plan_root.clone()),
            None => Err(PlanError::new(concat3("plan `", plan_id, "` does not exist"))),
        }
    }

    fn select_plan(&self, plan_name: &str) -> (r: Result<Option<PlanRow>, PlanError>)
        ensures
            outcome(r) == self.deep_view().selected_plan(plan_name@),
    {
        match self.find_named_plan(plan_name) {
            Some(plan) => {
                if !same_text(plan.plan_root.as_str(), self.plan_root(plan_name).as_str()) {
                    return Err(
                        PlanError::new(
                            concat3(
                                "persisted plan_root does not match the fixed plan location for `",
                                plan_name,
                                "`",
                            ),
                        ),
                    );
                }
                Ok(Some(plan.clone()))
            },
            None => Ok(None),
        }
    }

    /// An existing plan.
    pub fn open_plan(&self, request: OpenPlanRequest) -> (r: Result<OpenPlanResponse, PlanError>)
        ensures
            outcome(r) == self.deep_view().plan_opened(request.deep_view()),
    {
        validate_plan_name(request.plan_name.as_str())?;
        match self.select_plan(request.plan_name.as_str())? {
            Some(plan) => Ok(
                OpenPlanResponse {
                    plan_id: plan.plan_id,
                    plan_root: plan.plan_root,
                    plan_status: plan.plan_status,
                    task_type: plan.task_type,
                },
            ),
            None => Err(
                PlanError::new(
                    concat3("plan `", request.plan_name.as_str(), "` does not exist"),
                ),
            ),
        }
    }

    fn repair_plan_project_directory(
        &mut self,
        plan_id: &str,
        project_directory: &str,
        timestamp: &str,
    )
        ensures
            final(self).deep_view() == old(self).deep_view().repaired(
                plan_id@,
                project_directory@,
                timestamp@,
            ),
    {
        let ghost first = self.deep_view();
        let mut i: usize = 0;
        while i < self.plans.len()
            invariant
                i <= self.plans.len(),
                self.plans.len() == first.plans.len(),
                self.deep_view() == (RuntimeModel { plans: self.plans.deep_view(), ..first }),
                forall|k: int|
                    0 <= k < i ==> (#[trigger] self.plans.deep_view()[k]) == repaired_plan(
                        first.plans[k],
                        plan_id@,
                        project_directory@,
                        timestamp@,
                    ),
                forall|k: int|
                    i <= k < self.plans.len() ==> (#[trigger] self.plans.deep_view()[k])
                        == first.plans[k],
            decreases self.plans.len() - i,
        {
            assert(self.plans.deep_view()[i as int] == self.plans@[i as int].deep_view());
            if same_text(self.plans[i].plan_id.as_str(), plan_id) {
                let ghost before = self.plans.deep_view();
                let mut plan: PlanRow = self.plans[i].clone();
                plan.project_directory = project_directory.to_owned();
                plan.project_directory_source = PROJECT_DIRECTORY_SOURCE_EXPLICIT.to_owned();
                plan.updated_at = timestamp.to_owned();
                let ghost model = plan.deep_view();
                self.plans.set(i, plan);
                assert(self.plans.deep_view() =~= before.update(i as int, model));
            }
            i = i + 1;
        }
        assert(self.deep_view().plans =~= first.repaired(
            plan_id@,
            project_directory@,
            timestamp@,
        ).plans);
    }

    /// The plan of this name, made under a new id if it is not there yet.
    pub fn ensure_plan(&mut self, request: EnsurePlanRequest, timestamp: &str) -> (r: Result<
        EnsurePlanResponse,
        PlanError,
    >)
        ensures
            exists|new_id: Seq<char>|
                #[trigger] is_random_id(new_id) && (final(self).deep_view(), outcome(r)) == old(
                    self,
                ).deep_view().plan_ensured(request.deep_view(), new_id, timestamp@),
    {
        let id: String = new_id();
        self.ensure_plan_as(request, id.as_str(), timestamp)
    }

    /// The plan of this name, made under the given id if it is not there yet.
    pub fn ensure_plan_as(
        &mut self,
        request: EnsurePlanRequest,
        new_id: &str,
        timestamp: &str,
    ) -> (r: Result<EnsurePlanResponse, PlanError>)
        ensures
            (final(self).deep_view(), outcome(r)) == old(self).deep_view().plan_ensured(
                request.deep_view(),
                new_id@,
                timestamp@,
            ),
    {
        let plan_name: &str = request.plan_name.as_str();
        validate_plan_name(plan_name)?;
        let task_type: String = validate_task_type_identifier(request.task_type.as_str())?;
        let project_directory: String = normalize_project_directory(
            self.workspace_root.as_str(),
            request.project_directory.as_str(),
        )?;
        match self.select_plan(plan_name)? {
            Some(plan) => {
                if !same_text(plan.project_directory.as_str(), project_directory.as_str()) {
                    if same_text(
                        plan.project_directory_source.as_str(),
                        PROJECT_DIRECTORY_SOURCE_BACKFILLED_LEGACY,
                    ) {
                        self.repair_plan_project_directory(
                            plan.plan_id.as_str(),
                            project_directory.as_str(),
                            timestamp,
                        );
                    } else if same_text(
                        plan.project_directory_source.as_str(),
                        PROJECT_DIRECTORY_SOURCE_EXPLICIT,
                    ) {
                        return Err(
                            PlanError::new(
                                concat7(
                                    "persisted project_directory for existing plan `",
                                    plan_name,
                                    "` is `",
                                    plan.project_directory.as_str(),
                                    "` and cannot be redirected to `",
                                    project_directory.as_str(),
                                    "`",
                                ),
                            ),
                        );
                    } else {
                        return Err(
                            PlanError::new(
                                concat5(
                                    "persisted project_directory_source `",
                                    plan.project_directory_source.as_str(),
                                    "` for existing plan `",
                                    plan_name,
                                    "` is invalid",
                                ),
                            ),
                        );
                    }
                }
                return Ok(
                    EnsurePlanResponse {
                        plan_id: plan.plan_id,
                        plan_root: plan.plan_root,
                        plan_status: plan.plan_status,
                    },
                );
            },
            None => {},
        }
        if self.find_plan(new_id).is_some() {
            return Err(PlanError::new("failed to persist plan metadata".to_owned()));
        }
        let plan_root: String = self.plan_root(plan_name);
        let plan: PlanRow = PlanRow {
            plan_id: new_id.to_owned(),
            workspace_root: self.workspace_root.clone(),
            plan_name: plan_name.to_owned(),
            plan_root: plan_root.clone(),
            project_directory,
            project_directory_source: PROJECT_DIRECTORY_SOURCE_EXPLICIT.to_owned(),
            task_type,
            plan_status: ACTIVE_PLAN_STATUS.to_owned(),
            created_at: timestamp.to_owned(),
            updated_at: timestamp.to_owned(),
        };
        let ghost model = plan.deep_view();
        let ghost before = self.plans.deep_view();
        self.plans.push(plan);
        assert(self.plans.deep_view() =~= before.push(model));
        Ok(
            EnsurePlanResponse {
                plan_id: new_id.to_owned(),
                plan_root,
                plan_status: ACTIVE_PLAN_STATUS.to_owned(),
            },
        )
    }

    /// The judges of a plan.
    pub fn resolve_gate_roles(&self, plan_id: &str, skill: &Result<SkillFiles, PlanError>) -> (r:
        Result<ResolvedGateRoleSelection, PlanError>)
        ensures
            outcome(r) == self.deep_view().gate_roles_of(plan_id@, outcome(*skill)),
    {
        match self.find_plan(plan_id) {
            None => Err(PlanError::new(concat3("plan `", plan_id, "` does not exist"))),
            Some(plan) => match skill {
                Err(error) => Err(error.clone()),
                Ok(files) => {
                    let manifest: Manifest = load_manifest(files)?;
                    resolve_gate_roles(files, &manifest, plan.task_type.as_str())
                },
            },
        }
    }
}

impl RuntimeModel {
    /// The place that a plan has.
    pub open spec fn root_of_plan(self, plan_id: Seq<char>) -> Result<Seq<char>, PlanErrorModel> {
        match self.plan(plan_id) {
            Some(plan) => Ok(plan.plan_root),
            None => Err(failure("plan `"@ + plan_id + "` does not exist"@)),
        }
    }
}

// ---------------------------------------------------------------------
// Filling in what older rows do not hold
// ---------------------------------------------------------------------
/// The kind of the node at a path, as far as the path tells.
pub open spec fn inferred_kind(path: Seq<char>, plan_name: Seq<char>) -> Option<Seq<char>> {
    match file_name(path) {
        None => None,
        Some(name) => match before_suffix(name, ".md"@) {
            None => None,
            Some(stem) => if stem.len() == 0 {
                None
            } else if (components(path).len() == 1 && stem == plan_name) || parent_name(path)
                == Some(stem) {
                Some("parent"@)
            } else {
                Some("leaf"@)
            },
        },
    }
}

/// The kind of the node at a path, as far as the path tells.
pub fn infer_node_kind(path: &str, plan_name: &str) -> (r: Option<&'static str>)
    ensures
        match r {
            Some(kind) => inferred_kind(path@, plan_name@) == Some(kind@),
            None => inferred_kind(path@, plan_name@) is None,
        },
{
    let name: String = match path_file_name(path) {
        Some(name) => name,
        None => {
            return None;
        },
    };
    match strip_suffix(name.as_str(), ".md") {
        None => None,
        Some(stem) => {
            if is_empty(stem.as_str()) {
                None
            } else if (path_components(path).len() == 1 && same_text(stem.as_str(), plan_name))
                || is_text(&path_parent_name(path), stem.as_str()) {
                Some("parent")
            } else {
                Some("leaf")
            }
        },
    }
}

/// The row holds no kind, or holds the root of its plan for a leaf.
pub open spec fn lacks_kind(row: NodeRowModel, plan_name: Seq<char>) -> bool {
    ||| row.node_kind != "parent"@ && row.node_kind != "leaf"@
    ||| row.node_kind == "leaf"@ && row.relative_path == plan_name + ".md"@
}

/// The row with its kind filled in.
pub open spec fn backfilled_row(row: NodeRowModel, plans: Seq<PlanRowModel>) -> NodeRowModel {
    match plan_from(plans, row.plan_id, 0) {
        None => row,
        Some(plan) => if lacks_kind(row, plan.plan_name) {
            match inferred_kind(row.relative_path, plan.plan_name) {
                Some(node_kind) => NodeRowModel { node_kind, ..row },
                None => row,
            }
        } else {
            row
        },
    }
}

/// The plan with its project directory filled in.
pub open spec fn backfilled_plan(plan: PlanRowModel) -> PlanRowModel {
    if plan.project_directory.len() == 0 {
        PlanRowModel {
            project_directory: plan.workspace_root,
            project_directory_source: PROJECT_DIRECTORY_SOURCE_BACKFILLED_LEGACY@,
            ..plan
        }
    } else {
        plan
    }
}

impl Runtime {
    fn backfill_row(&self, row: &NodeRow) -> (r: NodeRow)
        ensures
            r.deep_view() == backfilled_row(row.deep_view(), self.deep_view().plans),
    {
        let mut out: NodeRow = row.clone();
        match self.find_plan(row.plan_id.as_str()) {
            None => {},
            Some(plan) => {
                let kind: &str = row.node_kind.as_str();
                let root: String = concat2(plan.plan_name.as_str(), ".md");
                let lacking: bool = (!same_text(kind, "parent") && !same_text(kind, "leaf")) || (
                same_text(kind, "leaf") && same_text(row.relative_path.as_str(), root.as_str()));
                if lacking {
                    match infer_node_kind(row.relative_path.as_str(), plan.plan_name.as_str()) {
                        Some(node_kind) => {
                            out.node_kind = node_kind.to_owned();
                        },
                        None => {},
                    }
                }
            },
        }
        out
    }

    /// Fills in the kinds that older rows do not hold.
    pub fn backfill_node_kinds(&mut self)
        ensures
            final(self).deep_view() == (RuntimeModel {
                nodes: Seq::new(
                    old(self).deep_view().nodes.len(),
                    |i: int|
                        backfilled_row(
                            old(self).deep_view().nodes[i],
                            old(self).deep_view().plans,
                        ),
                ),
                ..old(self).deep_view()
            }),
    {
        let ghost first = self.deep_view();
        let mut i: usize = 0;
        while i < self.nodes.len()
            invariant
                i <= self.nodes.len(),
                self.nodes.len() == first.nodes.len(),
                self.deep_view() == (RuntimeModel { nodes: self.nodes.deep_view(), ..first }),
                forall|k: int|
                    0 <= k < i ==> (#[trigger] self.nodes.deep_view()[k]) == backfilled_row(
                        first.nodes[k],
                        first.plans,
                    ),
                forall|k: int|
                    i <= k < self.nodes.len() ==> (#[trigger] self.nodes.deep_view()[k])
                        == first.nodes[k],
            decreases self.nodes.len() - i,
        {
            let ghost before = self.nodes.deep_view();
            assert(before[i as int] == self.nodes@[i as int].deep_view());
            let row: NodeRow = self.backfill_row(&self.nodes[i]);
            let ghost model = row.deep_view();
            self.nodes.set(i, row);
            assert(self.nodes.deep_view() =~= before.update(i as int, model));
            i = i + 1;
        }
        assert(self.deep_view().nodes =~= Seq::new(
            first.nodes.len(),
            |i: int| backfilled_row(first.nodes[i], first.plans),
        ));
    }

    /// Fills in the project directories that older rows do not hold.
    pub fn backfill_project_directories(&mut self)
        ensures
            final(self).deep_view() == (RuntimeModel {
                plans: Seq::new(
                    old(self).deep_view().plans.len(),
                    |i: int| backfilled_plan(old(self).deep_view().plans[i]),
                ),
                ..old(self).deep_view()
            }),
    {
        let ghost first = self.deep_view();
        let mut i: usize = 0;
        while i < self.plans.len()
            invariant
                i <= self.plans.len(),
                self.plans.len() == first.plans.len(),
                self.deep_view() == (RuntimeModel { plans: self.plans.deep_view(), ..first }),
                forall|k: int|
                    0 <= k < i ==> (#[trigger] self.plans.deep_view()[k]) == backfilled_plan(
                        first.plans[k],
                    ),
                forall|k: int|
                    i <= k < self.plans.len() ==> (#[trigger] self.plans.deep_view()[k])
                        == first.plans[k],
            decreases self.plans.len() - i,
        {
            let ghost before = self.plans.deep_view();
            assert(before[i as int] == self.plans@[i as int].deep_view());
            let mut plan: PlanRow = self.plans[i].clone();
            if is_empty(plan.project_directory.as_str()) {
                plan.project_directory = plan.workspace_root.clone();
                plan.project_directory_source =
                PROJECT_DIRECTORY_SOURCE_BACKFILLED_LEGACY.to_owned();
            }
            let ghost model = plan.deep_view();
            self.plans.set(i, plan);
            assert(self.plans.deep_view() =~= before.update(i as int, model));
            i = i + 1;
        }
        assert(self.deep_view().plans =~= Seq::new(
            first.plans.len(),
            |i: int| backfilled_plan(first.plans[i]),
        ));
    }
}

/// Tells whether the database says that a column is there already.
pub fn is_duplicate_column_message(message: &str) -> (r: bool)
    ensures
        r == has_text(ascii_lowered(message@), "duplicate column name"@),
{
    contains_text(to_ascii_lower(message).as_str(), "duplicate column name")
}

} // verus!
