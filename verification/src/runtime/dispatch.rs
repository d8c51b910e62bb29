//! Handing a prompt to a judge, and finding the skill that names it.
use crate::bundle::{
    bundle_at, bundle_from, bundle_of_binary, default_skill_roots, discover_bundle_from_binary_path,
    discover_installed_skill_in_default_roots, installed_from, places_at,
    registered_development_skill, resolve_development_skill_if_registered, BundleDescriptor,
    BundleDescriptorModel, BundleFiles, BundleFilesModel, DevelopmentRegistry,
    DevelopmentRegistryModel, DiscoveredBundle, InstalledRoot, InstalledRootModel, Reading,
    ReadingModel,
};
use crate::error::{failure, outcome, PlanError, PlanErrorModel};
use crate::files::{FileContent, FileContentModel};
use crate::paths::{join_path, joined_path};
use crate::skill::{
    executor_cwd, filled_command, load_skill_descriptor, resolve_executor_command,
    resolve_executor_cwd, skill_descriptor, ExecutorProfile, ExecutorProfileModel, SKILL_ID,
};
use crate::text::{concat2, concat3, concat5, copy_list, same_text};
use vstd::prelude::*;

verus! {

/// How a prompt is handed to a judge.
#[derive(Debug, PartialEq, Eq)]
pub struct ReviewerDispatch {
    pub artifact_dir: String,
    pub prompt_path: String,
    pub last_message_path: String,
    pub command: Vec<String>,
    pub cwd: String,
    pub timeout_sec: i64,
    pub env_allow: Vec<String>,
}

/// The meaning of a [`ReviewerDispatch`].
pub struct ReviewerDispatchModel {
    pub artifact_dir: Seq<char>,
    pub prompt_path: Seq<char>,
    pub last_message_path: Seq<char>,
    pub command: Seq<Seq<char>>,
    pub cwd: Seq<char>,
    pub timeout_sec: i64,
    pub env_allow: Seq<Seq<char>>,
}

impl DeepView for ReviewerDispatch {
    type V = ReviewerDispatchModel;

    open spec fn deep_view(&self) -> ReviewerDispatchModel {
        ReviewerDispatchModel {
            artifact_dir: self.artifact_dir@,
            prompt_path: self.prompt_path@,
            last_message_path: self.last_message_path@,
            command: self.command.deep_view(),
            cwd: self.cwd@,
            timeout_sec: self.timeout_sec,
            env_allow: self.env_allow.deep_view(),
        }
    }
}

impl Clone for ReviewerDispatch {
    fn clone(&self) -> (r: Self)
        ensures
            r.deep_view() == self.deep_view(),
    {
        let r: ReviewerDispatch = ReviewerDispatch {
            artifact_dir: self.artifact_dir.clone(),
            prompt_path: self.prompt_path.clone(),
            last_message_path: self.last_message_path.clone(),
            command: self.command.clone(),
            cwd: self.cwd.clone(),
            timeout_sec: self.timeout_sec,
            env_allow: self.env_allow.clone(),
        };
        assert(r.command.deep_view() =~= self.command.deep_view());
        assert(r.env_allow.deep_view() =~= self.env_allow.deep_view());
        r
    }
}

/// How a command ended.
#[derive(Debug, PartialEq, Eq)]
pub struct FinishedCommand {
    pub success: bool,
    pub stdout: String,
    pub stderr: String,
}

/// The meaning of a [`FinishedCommand`].
pub struct FinishedCommandModel {
    pub success: bool,
    pub stdout: Seq<char>,
    pub stderr: Seq<char>,
}

impl DeepView for FinishedCommand {
    type V = FinishedCommandModel;

    open spec fn deep_view(&self) -> FinishedCommandModel {
        FinishedCommandModel {
            success: self.success,
            stdout: self.stdout@,
            stderr: self.stderr@,
        }
    }
}

impl Clone for FinishedCommand {
    fn clone(&self) -> (r: Self)
        ensures
            r.deep_view() == self.deep_view(),
    {
        FinishedCommand {
            success: self.success,
            stdout: self.stdout.clone(),
            stderr: self.stderr.clone(),
        }
    }
}

/// The bundle of the skill, and its binary.
#[derive(Debug, PartialEq, Eq)]
pub struct ResolvedSkillBundle {
    pub bundle_root: String,
    pub bundle_bin: String,
}

/// The meaning of a [`ResolvedSkillBundle`].
pub struct ResolvedSkillBundleModel {
    pub bundle_root: Seq<char>,
    pub bundle_bin: Seq<char>,
}

impl DeepView for ResolvedSkillBundle {
    type V = ResolvedSkillBundleModel;

    open spec fn deep_view(&self) -> ResolvedSkillBundleModel {
        ResolvedSkillBundleModel {
            bundle_root: self.bundle_root@,
            bundle_bin: self.bundle_bin@,
        }
    }
}

impl Clone for ResolvedSkillBundle {
    fn clone(&self) -> (r: Self)
        ensures
            r.deep_view() == self.deep_view(),
    {
        ResolvedSkillBundle {
            bundle_root: self.bundle_root.clone(),
            bundle_bin: self.bundle_bin.clone(),
        }
    }
}

/// What is known of the machine when the skill is looked up.
pub struct SkillSurroundings {
    pub current_exe: String,
    pub registry: Option<FileContent>,
    pub registry_readings: Vec<Reading<DevelopmentRegistry>>,
    pub bundles: Vec<BundleFiles>,
    pub readings: Vec<Reading<BundleDescriptor>>,
    pub codex_home: Option<String>,
    pub home: Option<String>,
    pub other_agents: Vec<String>,
    pub places: Vec<InstalledRoot>,
}

/// The meaning of a [`SkillSurroundings`].
pub struct SkillSurroundingsModel {
    pub current_exe: Seq<char>,
    pub registry: Option<FileContentModel>,
    pub registry_readings: Seq<ReadingModel<DevelopmentRegistryModel>>,
    pub bundles: Seq<BundleFilesModel>,
    pub readings: Seq<ReadingModel<BundleDescriptorModel>>,
    pub codex_home: Option<Seq<char>>,
    pub home: Option<Seq<char>>,
    pub other_agents: Seq<Seq<char>>,
    pub places: Seq<InstalledRootModel>,
}

impl DeepView for SkillSurroundings {
    type V = SkillSurroundingsModel;

    open spec fn deep_view(&self) -> SkillSurroundingsModel {
        SkillSurroundingsModel {
            current_exe: self.current_exe@,
            registry: self.registry.deep_view(),
            registry_readings: self.registry_readings.deep_view(),
            bundles: self.bundles.deep_view(),
            readings: self.readings.deep_view(),
            codex_home: self.codex_home.deep_view(),
            home: self.home.deep_view(),
            other_agents: self.other_agents.deep_view(),
            places: self.places.deep_view(),
        }
    }
}

/// How the prompt of a gate is handed to its judge.
pub open spec fn reviewer_dispatch(
    workspace_root: Seq<char>,
    bundle_bin: Seq<char>,
    project_directory: Seq<char>,
    executor: ExecutorProfileModel,
    gate_run_id: Seq<char>,
) -> Result<ReviewerDispatchModel, PlanErrorModel> {
    if executor.kind != "local_command"@ {
        Err(failure("unsupported gen-plan executor kind `"@ + executor.kind + "`"@))
    } else if executor.transcript_capture != "stdio"@ {
        Err(
            failure(
                "unsupported gen-plan transcript_capture `"@ + executor.transcript_capture + "`"@,
            ),
        )
    } else {
        let artifact_dir = joined_path(
            joined_path(joined_path(workspace_root, ".loopy"@), "gate-runs"@),
            gate_run_id,
        );
        let prompt_path = joined_path(artifact_dir, "prompt.md"@);
        let last_message_path = joined_path(artifact_dir, "last-message.json"@);
        Ok(
            ReviewerDispatchModel {
                artifact_dir,
                prompt_path,
                last_message_path,
                command: filled_command(
                    executor,
                    bundle_bin,
                    workspace_root,
                    project_directory,
                    prompt_path,
                    last_message_path,
                ),
                cwd: executor_cwd(executor.cwd, workspace_root, project_directory),
                timeout_sec: executor.timeout_sec,
                env_allow: match executor.env_allow {
                    Some(names) => names,
                    None => Seq::empty(),
                },
            },
        )
    }
}

/// How the prompt of a gate is handed to its judge.
pub fn plan_reviewer_dispatch(
    workspace_root: &str,
    bundle_bin: &str,
    project_directory: &str,
    executor: &ExecutorProfile,
    gate_run_id: &str,
) -> (r: Result<ReviewerDispatch, PlanError>)
    ensures
        outcome(r) == reviewer_dispatch(
            workspace_root@,
            bundle_bin@,
            project_directory@,
            executor.deep_view(),
            gate_run_id@,
        ),
{
    if !same_text(executor.kind.as_str(), "local_command") {
        return Err(
            PlanError::new(
                concat3("unsupported gen-plan executor kind `", executor.kind.as_str(), "`"),
            ),
        );
    }
    if !same_text(executor.transcript_capture.as_str(), "stdio") {
        return Err(
            PlanError::new(
                concat3(
                    "unsupported gen-plan transcript_capture `",
                    executor.transcript_capture.as_str(),
                    "`",
                ),
            ),
        );
    }
    let loopy: String = join_path(workspace_root, ".loopy");
    let runs: String = join_path(loopy.as_str(), "gate-runs");
    let artifact_dir: String = join_path(runs.as_str(), gate_run_id);
    let prompt_path: String = join_path(artifact_dir.as_str(), "prompt.md");
    let last_message_path: String = join_path(artifact_dir.as_str(), "last-message.json");
    let command: Vec<String> = resolve_executor_command(
        executor,
        bundle_bin,
        workspace_root,
        project_directory,
        prompt_path.as_str(),
        last_message_path.as_str(),
    );
    let env_allow: Vec<String> = match &executor.env_allow {
        Some(names) => copy_list(names),
        None => {
            let none: Vec<String> = Vec::new();
            assert(none.deep_view() =~= Seq::empty());
            none
        },
    };
    Ok(
        ReviewerDispatch {
            artifact_dir,
            prompt_path,
            last_message_path,
            command,
            cwd: resolve_executor_cwd(executor.cwd.as_str(), workspace_root, project_directory),
            timeout_sec: executor.timeout_sec,
            env_allow,
        },
    )
}

/// What a judge replied, given how its command ended and what its last
/// message holds.
pub open spec fn reviewer_reply(
    gate_run_id: Seq<char>,
    last_message_path: Seq<char>,
    run: Result<FinishedCommandModel, PlanErrorModel>,
    last_message: Result<Seq<char>, Seq<char>>,
) -> Result<Seq<char>, PlanErrorModel> {
    match run {
        Err(error) => Err(
            error.under("failed to dispatch review for gate run `"@ + gate_run_id + "`"@),
        ),
        Ok(command) => if !command.success {
            Err(
                failure(
                    "review command failed for gate run `"@ + gate_run_id + "`\nstdout:\n"@
                        + command.stdout + "\nstderr:\n"@ + command.stderr,
                ),
            )
        } else {
            match last_message {
                Ok(text) => Ok(text),
                Err(source) => Err(
                    failure(source).under(
                        "failed to read review last-message output "@ + last_message_path,
                    ),
                ),
            }
        },
    }
}

/// What a judge replied.
pub fn finish_reviewer_dispatch(
    gate_run_id: &str,
    last_message_path: &str,
    run: Result<FinishedCommand, PlanError>,
    last_message: Result<String, String>,
) -> (r: Result<String, PlanError>)
    ensures
        outcome(r) == reviewer_reply(
            gate_run_id@,
            last_message_path@,
            outcome(run),
            match last_message {
                Ok(text) => Ok(text@),
                Err(source) => Err(source@),
            },
        ),
{
    let command: FinishedCommand = match run {
        Ok(command) => command,
        Err(error) => {
            return Err(
                error.context(
                    concat3("failed to dispatch review for gate run `", gate_run_id, "`"),
                ),
            );
        },
    };
    if !command.success {
        let start: String = concat5(
            "review command failed for gate run `",
            gate_run_id,
            "`\nstdout:\n",
            command.stdout.as_str(),
            "\nstderr:\n",
        );
        return Err(PlanError::new(concat2(start.as_str(), command.stderr.as_str())));
    }
    match last_message {
        Ok(text) => Ok(text),
        Err(source) => Err(
            PlanError::caused(
                concat2("failed to read review last-message output ", last_message_path),
                source,
            ),
        ),
    }
}

/// The bundle of the skill at a root.
pub open spec fn skill_bundle_at(
    bundle_root: Seq<char>,
    bundle: BundleFilesModel,
    readings: Seq<ReadingModel<BundleDescriptorModel>>,
) -> Result<ResolvedSkillBundleModel, PlanErrorModel> {
    match skill_descriptor(bundle, readings) {
        Err(error) => Err(error),
        Ok(descriptor) => Ok(
            ResolvedSkillBundleModel {
                bundle_root,
                bundle_bin: joined_path(bundle_root, descriptor.binary_path),
            },
        ),
    }
}

/// The bundle of the skill: the one that the running binary belongs to, else
/// the one under development in the workspace, else the installed one.
pub open spec fn skill_bundle(workspace_root: Seq<char>, known: SkillSurroundingsModel) -> Result<
    ResolvedSkillBundleModel,
    PlanErrorModel,
> {
    match bundle_of_binary(known.current_exe, known.bundles, known.readings) {
        Err(error) => Err(error),
        Ok(Some(found)) => skill_bundle_at(
            found.bundle_root,
            bundle_from(known.bundles, found.bundle_root, 0),
            known.readings,
        ),
        Ok(None) => match registered_development_skill(
            workspace_root,
            known.registry,
            known.registry_readings,
            known.bundles,
            known.readings,
            SKILL_ID@,
        ) {
            Err(error) => Err(error),
            Ok(Some(skill)) => skill_bundle_at(
                skill.bundle_root,
                bundle_from(known.bundles, skill.bundle_root, 0),
                known.readings,
            ),
            Ok(None) => match installed_from(
                places_at(
                    known.places,
                    default_skill_roots(known.codex_home, known.home, known.other_agents),
                ),
                known.readings,
                SKILL_ID@,
                0,
            ) {
                Err(error) => Err(error),
                Ok(found) => skill_bundle_at(
                    found.bundle_root,
                    bundle_from(known.bundles, found.bundle_root, 0),
                    known.readings,
                ),
            },
        },
    }
}

fn resolved_bundle_from_root(bundle_root: String, known: &SkillSurroundings) -> (r: Result<
    ResolvedSkillBundle,
    PlanError,
>)
    ensures
        outcome(r) == skill_bundle_at(
            bundle_root@,
            bundle_from(known.deep_view().bundles, bundle_root@, 0),
            known.deep_view().readings,
        ),
{
    let bundle: BundleFiles = bundle_at(&known.bundles, bundle_root.as_str());
    let descriptor: BundleDescriptor = load_skill_descriptor(&bundle, &known.readings)?;
    let bundle_bin: String = join_path(bundle_root.as_str(), descriptor.binary_path.as_str());
    Ok(ResolvedSkillBundle { bundle_root, bundle_bin })
}

/// The bundle of the skill.
pub fn resolved_skill_bundle(workspace_root: &str, known: &SkillSurroundings) -> (r: Result<
    ResolvedSkillBundle,
    PlanError,
>)
    ensures
        outcome(r) == skill_bundle(workspace_root@, known.deep_view()),
{
    match discover_bundle_from_binary_path(
        known.current_exe.as_str(),
        &known.bundles,
        &known.readings,
    )? {
        Some(found) => {
            return resolved_bundle_from_root(found.bundle_root, known);
        },
        None => {},
    }
    match resolve_development_skill_if_registered(
        workspace_root,
        &known.registry,
        &known.registry_readings,
        &known.bundles,
        &known.readings,
        SKILL_ID,
    )? {
        Some(skill) => {
            return resolved_bundle_from_root(skill.bundle_root, known);
        },
        None => {},
    }
    let found: DiscoveredBundle = discover_installed_skill_in_default_roots(
        SKILL_ID,
        &known.codex_home,
        &known.home,
        &known.other_agents,
        &known.places,
        &known.readings,
    )?;
    resolved_bundle_from_root(found.bundle_root, known)
}

} // verus!
