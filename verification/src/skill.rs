//! The gen-plan skill: its manifest, its review roles and its prompts.
use crate::bundle::{
    descriptor_file, descriptor_of, descriptor_path, find_reading, read_descriptor, read_toml, reading_from, toml_value, BundleDescriptor,
    BundleDescriptorModel, BundleFiles, BundleFilesModel, Reading, ReadingModel,
};
use crate::error::{failure, outcome, PlanError, PlanErrorModel};
use crate::files::{FileContent, PlanFiles, PlanFilesModel};
use crate::paths::{
    components, is_absolute, join_path, joined_path, path_components, path_is_absolute, Component,
    ComponentModel,
};
use crate::text::{
    chars_of, concat2, concat3, concat5, concat7, contains_text, cut_at, has_text,
    is_ascii_digit, is_ascii_lower, is_blank, is_empty, replace, replaced, same_text, split_once,
    trim, trimmed,
};
use vstd::prelude::*;

verus! {

/// The id of the skill.
pub const SKILL_ID: &'static str = "loopy:gen-plan";

/// The id of the loader that the skill needs.
pub const LOADER_ID: &'static str = "loopy.gen-plan.v1";

/// How a judge is run.
#[derive(Debug, PartialEq, Eq)]
pub struct ExecutorProfile {
    pub kind: String,
    pub command: String,
    pub args: Vec<String>,
    pub cwd: String,
    pub timeout_sec: i64,
    pub transcript_capture: String,
    pub env_allow: Option<Vec<String>>,
}

/// The meaning of a [`ExecutorProfile`].
pub struct ExecutorProfileModel {
    pub kind: Seq<char>,
    pub command: Seq<char>,
    pub args: Seq<Seq<char>>,
    pub cwd: Seq<char>,
    pub timeout_sec: i64,
    pub transcript_capture: Seq<char>,
    pub env_allow: Option<Seq<Seq<char>>>,
}

impl DeepView for ExecutorProfile {
    type V = ExecutorProfileModel;

    open spec fn deep_view(&self) -> ExecutorProfileModel {
        ExecutorProfileModel {
            kind: self.kind@,
            command: self.command@,
            args: self.args.deep_view(),
            cwd: self.cwd@,
            timeout_sec: self.timeout_sec,
            transcript_capture: self.transcript_capture@,
            env_allow: self.env_allow.deep_view(),
        }
    }
}

impl Clone for ExecutorProfile {
    fn clone(&self) -> (r: Self)
        ensures
            r.deep_view() == self.deep_view(),
    {
        let r: ExecutorProfile = ExecutorProfile {
            kind: self.kind.clone(),
            command: self.command.clone(),
            args: self.args.clone(),
            cwd: self.cwd.clone(),
            timeout_sec: self.timeout_sec,
            transcript_capture: self.transcript_capture.clone(),
            env_allow: self.env_allow.clone(),
        };
        assert(r.args.deep_view() =~= self.args.deep_view());
        assert(self.env_allow is Some ==> r.env_allow->0.deep_view() =~= self.env_allow->0.deep_view());
        r
    }
}

/// A profile and its name.
#[derive(Debug, PartialEq, Eq)]
pub struct ExecutorEntry {
    pub name: String,
    pub profile: ExecutorProfile,
}

/// The meaning of a [`ExecutorEntry`].
pub struct ExecutorEntryModel {
    pub name: Seq<char>,
    pub profile: ExecutorProfileModel,
}

impl DeepView for ExecutorEntry {
    type V = ExecutorEntryModel;

    open spec fn deep_view(&self) -> ExecutorEntryModel {
        ExecutorEntryModel {
            name: self.name@,
            profile: self.profile.deep_view(),
        }
    }
}

impl Clone for ExecutorEntry {
    fn clone(&self) -> (r: Self)
        ensures
            r.deep_view() == self.deep_view(),
    {
        ExecutorEntry {
            name: self.name.clone(),
            profile: self.profile.clone(),
        }
    }
}

/// A place to install the skill at, and its name.
#[derive(Debug, PartialEq, Eq)]
pub struct InstallTarget {
    pub name: String,
    pub path: String,
}

/// The meaning of a [`InstallTarget`].
pub struct InstallTargetModel {
    pub name: Seq<char>,
    pub path: Seq<char>,
}

impl DeepView for InstallTarget {
    type V = InstallTargetModel;

    open spec fn deep_view(&self) -> InstallTargetModel {
        InstallTargetModel {
            name: self.name@,
            path: self.path@,
        }
    }
}

impl Clone for InstallTarget {
    fn clone(&self) -> (r: Self)
        ensures
            r.deep_view() == self.deep_view(),
    {
        InstallTarget {
            name: self.name.clone(),
            path: self.path.clone(),
        }
    }
}

/// What the manifest says of the skill.
#[derive(Debug, PartialEq, Eq)]
pub struct SkillConfig {
    pub name: String,
    pub default_install_target: String,
    pub install_targets: Vec<InstallTarget>,
}

/// The meaning of a [`SkillConfig`].
pub struct SkillConfigModel {
    pub name: Seq<char>,
    pub default_install_target: Seq<char>,
    pub install_targets: Seq<InstallTargetModel>,
}

impl DeepView for SkillConfig {
    type V = SkillConfigModel;

    open spec fn deep_view(&self) -> SkillConfigModel {
        SkillConfigModel {
            name: self.name@,
            default_install_target: self.default_install_target@,
            install_targets: self.install_targets.deep_view(),
        }
    }
}

impl Clone for SkillConfig {
    fn clone(&self) -> (r: Self)
        ensures
            r.deep_view() == self.deep_view(),
    {
        let r: SkillConfig = SkillConfig {
            name: self.name.clone(),
            default_install_target: self.default_install_target.clone(),
            install_targets: self.install_targets.clone(),
        };
        assert(r.install_targets.deep_view() =~= self.install_targets.deep_view());
        r
    }
}

/// The manifest of the skill.
#[derive(Debug, PartialEq, Eq)]
pub struct Manifest {
    pub skill: SkillConfig,
    pub executors: Vec<ExecutorEntry>,
}

/// The meaning of a [`Manifest`].
pub struct ManifestModel {
    pub skill: SkillConfigModel,
    pub executors: Seq<ExecutorEntryModel>,
}

impl DeepView for Manifest {
    type V = ManifestModel;

    open spec fn deep_view(&self) -> ManifestModel {
        ManifestModel {
            skill: self.skill.deep_view(),
            executors: self.executors.deep_view(),
        }
    }
}

impl Clone for Manifest {
    fn clone(&self) -> (r: Self)
        ensures
            r.deep_view() == self.deep_view(),
    {
        let r: Manifest = Manifest {
            skill: self.skill.clone(),
            executors: self.executors.clone(),
        };
        assert(r.executors.deep_view() =~= self.executors.deep_view());
        r
    }
}

/// The judges of a task type.
#[derive(Debug, PartialEq, Eq)]
pub struct TaskTypeConfig {
    pub task_type: String,
    pub default_leaf_reviewer: String,
    pub default_frontier_reviewer: String,
}

/// The meaning of a [`TaskTypeConfig`].
pub struct TaskTypeConfigModel {
    pub task_type: Seq<char>,
    pub default_leaf_reviewer: Seq<char>,
    pub default_frontier_reviewer: Seq<char>,
}

impl DeepView for TaskTypeConfig {
    type V = TaskTypeConfigModel;

    open spec fn deep_view(&self) -> TaskTypeConfigModel {
        TaskTypeConfigModel {
            task_type: self.task_type@,
            default_leaf_reviewer: self.default_leaf_reviewer@,
            default_frontier_reviewer: self.default_frontier_reviewer@,
        }
    }
}

impl Clone for TaskTypeConfig {
    fn clone(&self) -> (r: Self)
        ensures
            r.deep_view() == self.deep_view(),
    {
        TaskTypeConfig {
            task_type: self.task_type.clone(),
            default_leaf_reviewer: self.default_leaf_reviewer.clone(),
            default_frontier_reviewer: self.default_frontier_reviewer.clone(),
        }
    }
}

/// The judges that were found for a task type.
#[derive(Debug, PartialEq, Eq)]
pub struct ResolvedGateRoleSelection {
    pub task_type: String,
    pub leaf_reviewer_role_id: String,
    pub frontier_reviewer_role_id: String,
}

/// The meaning of a [`ResolvedGateRoleSelection`].
pub struct ResolvedGateRoleSelectionModel {
    pub task_type: Seq<char>,
    pub leaf_reviewer_role_id: Seq<char>,
    pub frontier_reviewer_role_id: Seq<char>,
}

impl DeepView for ResolvedGateRoleSelection {
    type V = ResolvedGateRoleSelectionModel;

    open spec fn deep_view(&self) -> ResolvedGateRoleSelectionModel {
        ResolvedGateRoleSelectionModel {
            task_type: self.task_type@,
            leaf_reviewer_role_id: self.leaf_reviewer_role_id@,
            frontier_reviewer_role_id: self.frontier_reviewer_role_id@,
        }
    }
}

impl Clone for ResolvedGateRoleSelection {
    fn clone(&self) -> (r: Self)
        ensures
            r.deep_view() == self.deep_view(),
    {
        ResolvedGateRoleSelection {
            task_type: self.task_type.clone(),
            leaf_reviewer_role_id: self.leaf_reviewer_role_id.clone(),
            frontier_reviewer_role_id: self.frontier_reviewer_role_id.clone(),
        }
    }
}

/// What a role says of itself.
#[derive(Debug, PartialEq, Eq)]
pub struct RoleFrontMatter {
    pub role: String,
    pub executor: String,
}

/// The meaning of a [`RoleFrontMatter`].
pub struct RoleFrontMatterModel {
    pub role: Seq<char>,
    pub executor: Seq<char>,
}

impl DeepView for RoleFrontMatter {
    type V = RoleFrontMatterModel;

    open spec fn deep_view(&self) -> RoleFrontMatterModel {
        RoleFrontMatterModel {
            role: self.role@,
            executor: self.executor@,
        }
    }
}

impl Clone for RoleFrontMatter {
    fn clone(&self) -> (r: Self)
        ensures
            r.deep_view() == self.deep_view(),
    {
        RoleFrontMatter {
            role: self.role.clone(),
            executor: self.executor.clone(),
        }
    }
}

/// The files of the skill, and what a TOML parser makes of their texts.
#[derive(Debug, PartialEq, Eq)]
pub struct SkillFiles {
    pub root: String,
    pub files: PlanFiles,
    pub descriptors: Vec<Reading<BundleDescriptor>>,
    pub manifests: Vec<Reading<Manifest>>,
    pub task_types: Vec<Reading<TaskTypeConfig>>,
    pub front_matters: Vec<Reading<RoleFrontMatter>>,
}

/// The meaning of a [`SkillFiles`].
pub struct SkillFilesModel {
    pub root: Seq<char>,
    pub files: PlanFilesModel,
    pub descriptors: Seq<ReadingModel<BundleDescriptorModel>>,
    pub manifests: Seq<ReadingModel<ManifestModel>>,
    pub task_types: Seq<ReadingModel<TaskTypeConfigModel>>,
    pub front_matters: Seq<ReadingModel<RoleFrontMatterModel>>,
}

impl DeepView for SkillFiles {
    type V = SkillFilesModel;

    open spec fn deep_view(&self) -> SkillFilesModel {
        SkillFilesModel {
            root: self.root@,
            files: self.files.deep_view(),
            descriptors: self.descriptors.deep_view(),
            manifests: self.manifests.deep_view(),
            task_types: self.task_types.deep_view(),
            front_matters: self.front_matters.deep_view(),
        }
    }
}

// ---------------------------------------------------------------------
// Identifiers
// ---------------------------------------------------------------------
/// The character may stand in an identifier with this separator, or these two.
pub open spec fn is_identifier_char(c: char, a: char, b: char) -> bool {
    is_ascii_lower(c) || is_ascii_digit(c) || c == a || c == b
}

/// Lower case letters and digits with single separators between them, a
/// letter first.
pub open spec fn is_safe_identifier(s: Seq<char>, a: char, b: char) -> bool {
    &&& s.len() > 0
    &&& is_ascii_lower(s[0])
    &&& forall|i: int| 0 <= i < s.len() ==> is_identifier_char(#[trigger] s[i], a, b)
    &&& forall|i: int|
        0 < i < s.len() && (s[i - 1] == a || s[i - 1] == b) ==> (#[trigger] s[i]) != a && s[i] != b
    &&& s.last() != a && s.last() != b
}

/// The text that says that an identifier is not safe.
pub open spec fn unsafe_identifier_text(field: Seq<char>) -> Seq<char> {
    field
        + " must be a safe identifier using lowercase ascii letters, digits, and internal separators"@
}

/// The identifier without the white space around it.
pub open spec fn identifier(field: Seq<char>, value: Seq<char>, a: char, b: char) -> Result<
    Seq<char>,
    PlanErrorModel,
> {
    let s = trimmed(value);
    if s.len() == 0 {
        Err(failure(field + " must not be blank"@))
    } else if !is_safe_identifier(s, a, b) {
        Err(failure(unsafe_identifier_text(field)))
    } else {
        Ok(s)
    }
}

/// A task type: an identifier with `-` as its separator.
pub open spec fn task_type_identifier(task_type: Seq<char>) -> Result<Seq<char>, PlanErrorModel> {
    identifier("task_type"@, task_type, '-', '-')
}

/// A role id: an identifier with `_` and `-` as its separators.
pub open spec fn role_identifier(field: Seq<char>, value: Seq<char>) -> Result<
    Seq<char>,
    PlanErrorModel,
> {
    identifier(field, value, '_', '-')
}

/// A template's name: an identifier with `_` as its separator.
pub open spec fn template_identifier(name: Seq<char>) -> Result<Seq<char>, PlanErrorModel> {
    identifier("template_name"@, name, '_', '_')
}

/// An identifier names one file or directory: it holds neither a `/` nor a
/// `.`, so no path made with it leaves the directory it is meant for.
pub proof fn identifiers_hold_no_path(field: Seq<char>, value: Seq<char>, a: char, b: char)
    requires
        a == '-' || a == '_',
        b == '-' || b == '_',
    ensures
        identifier(field, value, a, b) matches Ok(s) ==> s.len() > 0 && !s.contains('/')
            && !s.contains('.') && !s.contains('\\'),
{
    if let Ok(s) = identifier(field, value, a, b) {
        if s.contains('/') {
            let i = choose|i: int| 0 <= i < s.len() && s[i] == '/';
            assert(is_identifier_char(s[i], a, b));
        }
        if s.contains('.') {
            let i = choose|i: int| 0 <= i < s.len() && s[i] == '.';
            assert(is_identifier_char(s[i], a, b));
        }
        if s.contains('\\') {
            let i = choose|i: int| 0 <= i < s.len() && s[i] == '\\';
            assert(is_identifier_char(s[i], a, b));
        }
    }
}

fn chars_are_safe_identifier(s: &Vec<char>, a: char, b: char) -> (r: bool)
    ensures
        r == is_safe_identifier(s@, a, b),
{
    if s.len() == 0 || !('a' <= s[0] && s[0] <= 'z') {
        return false;
    }
    let mut previous: bool = false;
    let mut i: usize = 0;
    while i < s.len()
        invariant
            i <= s.len(),
            s.len() > 0,
            previous == (i > 0 && (s@[i - 1] == a || s@[i - 1] == b)),
            forall|k: int| 0 <= k < i ==> is_identifier_char(#[trigger] s@[k], a, b),
            forall|k: int|
                0 < k < i && (s@[k - 1] == a || s@[k - 1] == b) ==> (#[trigger] s@[k]) != a && s@[k]
                    != b,
        decreases s.len() - i,
    {
        let c: char = s[i];
        if c == a || c == b {
            if previous {
                assert(s@[i as int] == a || s@[i as int] == b);
                return false;
            }
            previous = true;
        } else if ('a' <= c && c <= 'z') || ('0' <= c && c <= '9') {
            previous = false;
        } else {
            assert(!is_identifier_char(s@[i as int], a, b));
            return false;
        }
        i = i + 1;
    }
    !previous
}

fn validate_ascii_identifier_with_separators(field: &str, value: &str, a: char, b: char) -> (r:
    Result<String, PlanError>)
    requires
        !is_ascii_lower(a) && !is_ascii_digit(a) && !is_ascii_lower(b) && !is_ascii_digit(b),
    ensures
        outcome(r) == identifier(field@, value@, a, b),
{
    let s: String = trim(value);
    if is_empty(s.as_str()) {
        return Err(PlanError::new(concat2(field, " must not be blank")));
    }
    if !chars_are_safe_identifier(&chars_of(s.as_str()), a, b) {
        return Err(
            PlanError::new(
                concat2(
                    field,
                    " must be a safe identifier using lowercase ascii letters, digits, and internal separators",
                ),
            ),
        );
    }
    Ok(s)
}

/// The task type without the white space around it.
pub fn validate_task_type_identifier(task_type: &str) -> (r: Result<String, PlanError>)
    ensures
        outcome(r) == task_type_identifier(task_type@),
{
    validate_ascii_identifier_with_separators("task_type", task_type, '-', '-')
}

fn normalize_role_id(field: &str, value: &str) -> (r: Result<String, PlanError>)
    ensures
        outcome(r) == role_identifier(field@, value@),
{
    validate_ascii_identifier_with_separators(field, value, '_', '-')
}

fn validate_template_name(name: &str) -> (r: Result<String, PlanError>)
    ensures
        outcome(r) == template_identifier(name@),
{
    validate_ascii_identifier_with_separators("template_name", name, '_', '_')
}

/// The kinds of role.
pub open spec fn role_kind_problem(role_kind: Seq<char>) -> Option<PlanErrorModel> {
    if role_kind == "leaf_reviewer"@ || role_kind == "frontier_reviewer"@ {
        None
    } else {
        Some(
            failure("role_kind must be one of `leaf_reviewer` or `frontier_reviewer`"@),
        )
    }
}

fn validate_role_kind(role_kind: &str) -> (r: Result<(), PlanError>)
    ensures
        match role_kind_problem(role_kind@) {
            Some(error) => outcome(r) == Err::<(), PlanErrorModel>(error),
            None => r is Ok,
        },
{
    if same_text(role_kind, "leaf_reviewer") || same_text(role_kind, "frontier_reviewer") {
        Ok(())
    } else {
        Err(
            PlanError::new(
                "role_kind must be one of `leaf_reviewer` or `frontier_reviewer`".to_owned(),
            ),
        )
    }
}

// ---------------------------------------------------------------------
// Descriptor and manifest
// ---------------------------------------------------------------------
/// The name of a file in the bundle, without the white space around it.
pub open spec fn bundle_local_name(field: Seq<char>, value: Seq<char>) -> Result<
    Seq<char>,
    PlanErrorModel,
> {
    let name = trimmed(value);
    if name.len() == 0 {
        Err(failure(field + " must not be blank"@))
    } else if has_text(name, "/"@) || has_text(name, "\\"@) {
        Err(failure(field + " must be a bundle-local file name without path separators"@))
    } else if is_absolute(name) || components(name) != seq![ComponentModel::Normal(name)] {
        Err(failure(field + " must be a bundle-local file name"@))
    } else {
        Ok(name)
    }
}

fn validate_bundle_local_file_name(field: &str, value: &str) -> (r: Result<String, PlanError>)
    ensures
        outcome(r) == bundle_local_name(field@, value@),
{
    let name: String = trim(value);
    if is_empty(name.as_str()) {
        return Err(PlanError::new(concat2(field, " must not be blank")));
    }
    if contains_text(name.as_str(), "/") || contains_text(name.as_str(), "\\") {
        return Err(
            PlanError::new(
                concat2(field, " must be a bundle-local file name without path separators"),
            ),
        );
    }
    let parts: Vec<Component> = path_components(name.as_str());
    let plain: bool = parts.len() == 1 && match &parts[0] {
        Component::Normal(part) => same_text(part.as_str(), name.as_str()),
        _ => false,
    };
    proof {
        let expected = seq![ComponentModel::Normal(name@)];
        if plain {
            assert(parts.deep_view() =~= expected);
        } else if parts.len() == 1 {
            assert(parts.deep_view()[0] != expected[0]);
        } else {
            assert(parts.deep_view().len() != expected.len());
        }
    }
    if path_is_absolute(name.as_str()) || !plain {
        return Err(PlanError::new(concat2(field, " must be a bundle-local file name")));
    }
    Ok(name)
}

/// The descriptor of a bundle, which must be that of this skill.
pub open spec fn skill_descriptor(
    bundle: BundleFilesModel,
    readings: Seq<ReadingModel<BundleDescriptorModel>>,
) -> Result<BundleDescriptorModel, PlanErrorModel> {
    match descriptor_of(bundle, readings) {
        Err(error) => Err(error),
        Ok(descriptor) => if descriptor.skill_id != SKILL_ID@ {
            Err(
                failure(
                    "expected skill_id "@ + SKILL_ID@ + " in "@ + descriptor_file(bundle.root)
                        + ", found "@ + descriptor.skill_id,
                ),
            )
        } else if descriptor.loader_id != LOADER_ID@ {
            Err(
                failure(
                    "expected loader_id "@ + LOADER_ID@ + " in "@ + descriptor_file(bundle.root)
                        + ", found "@ + descriptor.loader_id,
                ),
            )
        } else {
            match bundle_local_name("internal_manifest"@, descriptor.internal_manifest) {
                Err(error) => Err(error),
                Ok(internal_manifest) => Ok(
                    BundleDescriptorModel { internal_manifest, ..descriptor },
                ),
            }
        },
    }
}

impl SkillFilesModel {
    /// The skill as a bundle.
    pub open spec fn bundle(self) -> BundleFilesModel {
        BundleFilesModel { root: self.root, descriptor: self.files.content("bundle.toml"@) }
    }

    /// The descriptor, which must be that of this skill.
    pub open spec fn descriptor(self) -> Result<BundleDescriptorModel, PlanErrorModel> {
        skill_descriptor(self.bundle(), self.descriptors)
    }

    /// The manifest, which must be that of this skill.
    pub open spec fn manifest(self) -> Result<ManifestModel, PlanErrorModel> {
        match self.descriptor() {
            Err(error) => Err(error),
            Ok(descriptor) => {
                let path = joined_path(self.root, descriptor.internal_manifest);
                match toml_value(
                    path,
                    self.files.content(descriptor.internal_manifest),
                    self.manifests,
                ) {
                    Err(error) => Err(error),
                    Ok(manifest) => if manifest.skill.name != SKILL_ID@ {
                        Err(
                            failure(
                                "expected manifest skill.name "@ + SKILL_ID@ + " in "@ + path
                                    + ", found "@ + manifest.skill.name,
                            ),
                        )
                    } else if !has_install_target(
                        manifest.skill,
                        manifest.skill.default_install_target,
                    ) {
                        Err(
                            failure(
                                "default_install_target "@ + manifest.skill.default_install_target
                                    + " is not defined in "@ + path,
                            ),
                        )
                    } else {
                        Ok(manifest)
                    },
                }
            },
        }
    }

    /// The judges that a task type names.
    pub open spec fn task_type_config(self, task_type: Seq<char>) -> Result<
        TaskTypeConfigModel,
        PlanErrorModel,
    > {
        match task_type_identifier(task_type) {
            Err(error) => Err(error),
            Ok(name) => {
                let file = task_type_file(name);
                let path = joined_path(self.root, file);
                if !self.files.is_file(file) {
                    Err(failure("unknown task_type "@ + name + ": missing "@ + path))
                } else {
                    match toml_value(path, self.files.content(file), self.task_types) {
                        Err(error) => Err(error),
                        Ok(config) => match task_type_identifier(config.task_type) {
                            Err(error) => Err(error.under("invalid task_type in "@ + path)),
                            Ok(declared) => if declared != name {
                                Err(
                                    failure(
                                        "task_type "@ + name + " does not match "@ + declared
                                            + " in "@ + path,
                                    ),
                                )
                            } else {
                                Ok(config)
                            },
                        },
                    }
                }
            },
        }
    }

    /// What the role in a markdown says of itself.
    pub open spec fn front_matter(self, markdown: Seq<char>) -> Result<
        RoleFrontMatterModel,
        PlanErrorModel,
    > {
        match role_sections(markdown) {
            Err(error) => Err(error),
            Ok((front_matter, _)) => match reading_from(self.front_matters, front_matter, 0) {
                Err(source) => Err(failure(source).under("failed to parse role front matter"@)),
                Ok(value) => Ok(value),
            },
        }
    }

    /// The text of a role's file and what it says of itself.
    pub open spec fn role(self, file: Seq<char>) -> Result<
        (Seq<char>, RoleFrontMatterModel),
        PlanErrorModel,
    > {
        let path = joined_path(self.root, file);
        match self.files.read(file) {
            Err(source) => Err(failure(source).under("failed to read "@ + path)),
            Ok(markdown) => match self.front_matter(markdown) {
                Err(error) => Err(error.under("failed to parse front matter in "@ + path)),
                Ok(front_matter) => Ok((markdown, front_matter)),
            },
        }
    }

    /// Why a role cannot be selected.
    pub open spec fn role_problem(
        self,
        manifest: ManifestModel,
        task_type: Seq<char>,
        role_kind: Seq<char>,
        role_id: Seq<char>,
    ) -> Option<PlanErrorModel> {
        match role_file(task_type, role_kind, role_id) {
            Err(error) => Some(error),
            Ok(file) => {
                let path = joined_path(self.root, file);
                if !self.files.is_file(file) {
                    Some(
                        failure(
                            "missing role file for "@ + role_kind + " "@ + role_id + " at "@ + path,
                        ),
                    )
                } else {
                    match self.role(file) {
                        Err(error) => Some(error),
                        Ok((_, front_matter)) => if front_matter.role != role_kind {
                            Some(role_kind_mismatch(path, role_kind, front_matter.role))
                        } else if executor_from(
                            manifest.executors,
                            front_matter.executor,
                            0,
                        ) is None {
                            Some(
                                failure(
                                    "unknown executor "@ + front_matter.executor
                                        + " declared by "@ + path,
                                ),
                            )
                        } else {
                            None
                        },
                    }
                }
            },
        }
    }

    /// The judges of a task type.
    pub open spec fn gate_roles(self, manifest: ManifestModel, task_type: Seq<char>) -> Result<
        ResolvedGateRoleSelectionModel,
        PlanErrorModel,
    > {
        match task_type_identifier(task_type) {
            Err(error) => Err(error),
            Ok(name) => match self.task_type_config(name) {
                Err(error) => Err(error),
                Ok(config) => match role_identifier(
                    "default_leaf_reviewer"@,
                    config.default_leaf_reviewer,
                ) {
                    Err(error) => Err(error),
                    Ok(leaf) => match role_identifier(
                        "default_frontier_reviewer"@,
                        config.default_frontier_reviewer,
                    ) {
                        Err(error) => Err(error),
                        Ok(frontier) => match self.role_problem(
                            manifest,
                            name,
                            "leaf_reviewer"@,
                            leaf,
                        ) {
                            Some(error) => Err(error),
                            None => match self.role_problem(
                                manifest,
                                name,
                                "frontier_reviewer"@,
                                frontier,
                            ) {
                                Some(error) => Err(error),
                                None => Ok(
                                    ResolvedGateRoleSelectionModel {
                                        task_type: name,
                                        leaf_reviewer_role_id: leaf,
                                        frontier_reviewer_role_id: frontier,
                                    },
                                ),
                            },
                        },
                    },
                },
            },
        }
    }

    /// A role of a task type: its file, its prompt, what it says of itself, and
    /// how it is run.
    pub open spec fn role_definition(
        self,
        manifest: ManifestModel,
        task_type: Seq<char>,
        role_kind: Seq<char>,
        role_id: Seq<char>,
    ) -> Result<
        (Seq<char>, Seq<char>, RoleFrontMatterModel, ExecutorProfileModel),
        PlanErrorModel,
    > {
        match role_file(task_type, role_kind, role_id) {
            Err(error) => Err(error),
            Ok(file) => {
                let path = joined_path(self.root, file);
                match self.role(file) {
                    Err(error) => Err(error),
                    Ok((markdown, front_matter)) => match role_sections(markdown) {
                        Err(error) => Err(error),
                        Ok((_, body)) => if front_matter.role != role_kind {
                            Err(role_kind_mismatch(path, role_kind, front_matter.role))
                        } else {
                            match executor_from(manifest.executors, front_matter.executor, 0) {
                                None => Err(
                                    failure("missing executor profile "@ + front_matter.executor),
                                ),
                                Some(executor) => Ok(
                                    (path, trimmed(body), front_matter, executor),
                                ),
                            }
                        },
                    },
                }
            },
        }
    }

    /// A prompt.
    pub open spec fn prompt(self, name: Seq<char>) -> Result<Seq<char>, PlanErrorModel> {
        match template_identifier(name) {
            Err(error) => Err(error),
            Ok(name) => match self.files.read(prompt_file(name)) {
                Err(source) => Err(
                    failure(source).under(
                        "failed to read "@ + joined_path(self.root, prompt_file(name)),
                    ),
                ),
                Ok(markdown) => Ok(trimmed(markdown)),
            },
        }
    }
}

/// The skill can be installed at a place of this name.
pub open spec fn has_install_target(skill: SkillConfigModel, name: Seq<char>) -> bool {
    exists|i: int|
        0 <= i < skill.install_targets.len() && (#[trigger] skill.install_targets[i]).name == name
}

/// The file of a task type in the skill.
pub open spec fn task_type_file(task_type: Seq<char>) -> Seq<char> {
    "roles/"@ + task_type + "/task-type.toml"@
}

/// The file of a prompt in the skill.
pub open spec fn prompt_file(name: Seq<char>) -> Seq<char> {
    "prompts/"@ + name + ".md"@
}

/// The file of a role in the skill.
pub open spec fn role_file(task_type: Seq<char>, role_kind: Seq<char>, role_id: Seq<char>) -> Result<
    Seq<char>,
    PlanErrorModel,
> {
    match role_kind_problem(role_kind) {
        Some(error) => Err(error),
        None => match role_identifier("role_id"@, role_id) {
            Err(error) => Err(error),
            Ok(id) => match task_type_identifier(task_type) {
                Err(error) => Err(error),
                Ok(name) => Ok(
                    "roles/"@ + name + "/"@ + role_kind + "/"@ + id + ".md"@,
                ),
            },
        },
    }
}

/// The front matter and the body of a role's markdown.
pub open spec fn role_sections(markdown: Seq<char>) -> Result<
    (Seq<char>, Seq<char>),
    PlanErrorModel,
> {
    match cut_at(markdown, "---"@) {
        None => Err(failure("missing role front matter"@)),
        Some((prefix, rest)) => match cut_at(rest, "---"@) {
            None => Err(failure("missing role body after front matter"@)),
            Some((front_matter, body)) => if trimmed(prefix).len() > 0 {
                Err(failure("unexpected content before role front matter"@))
            } else {
                Ok((front_matter, body))
            },
        },
    }
}

/// The first profile at or after `i` with this name.
pub open spec fn executor_from(executors: Seq<ExecutorEntryModel>, name: Seq<char>, i: int) -> Option<
    ExecutorProfileModel,
>
    decreases executors.len() - i,
{
    if i >= executors.len() {
        None
    } else if executors[i].name == name {
        Some(executors[i].profile)
    } else {
        executor_from(executors, name, i + 1)
    }
}

/// A role's file declares another kind of role.
pub open spec fn role_kind_mismatch(
    path: Seq<char>,
    role_kind: Seq<char>,
    found: Seq<char>,
) -> PlanErrorModel {
    failure(
        "role kind mismatch for "@ + path + ": expected "@ + role_kind + ", found "@ + found,
    )
}

fn find_executor<'a>(manifest: &'a Manifest, name: &str) -> (r: Option<&'a ExecutorProfile>)
    ensures
        match r {
            Some(profile) => executor_from(manifest.deep_view().executors, name@, 0) == Some(
                profile.deep_view(),
            ),
            None => executor_from(manifest.deep_view().executors, name@, 0) is None,
        },
{
    let ghost all = manifest.executors.deep_view();
    let mut i: usize = 0;
    while i < manifest.executors.len()
        invariant
            i <= manifest.executors.len(),
            all == manifest.executors.deep_view(),
            executor_from(all, name@, 0) == executor_from(all, name@, i as int),
        decreases manifest.executors.len() - i,
    {
        assert(all[i as int] == manifest.executors@[i as int].deep_view());
        if same_text(manifest.executors[i].name.as_str(), name) {
            return Some(&manifest.executors[i].profile);
        }
        i = i + 1;
    }
    None
}

/// The descriptor of a bundle, which must be that of this skill.
pub fn load_skill_descriptor(bundle: &BundleFiles, readings: &Vec<Reading<BundleDescriptor>>) -> (r:
    Result<BundleDescriptor, PlanError>)
    ensures
        outcome(r) == skill_descriptor(bundle.deep_view(), readings.deep_view()),
{
    let mut descriptor: BundleDescriptor = read_descriptor(bundle, readings)?;
    let path: String = descriptor_path(bundle.root.as_str());
    if !same_text(descriptor.skill_id.as_str(), SKILL_ID) {
        let start: String = concat5(
            "expected skill_id ",
            SKILL_ID,
            " in ",
            path.as_str(),
            ", found ",
        );
        return Err(PlanError::new(concat2(start.as_str(), descriptor.skill_id.as_str())));
    }
    if !same_text(descriptor.loader_id.as_str(), LOADER_ID) {
        let start: String = concat5(
            "expected loader_id ",
            LOADER_ID,
            " in ",
            path.as_str(),
            ", found ",
        );
        return Err(PlanError::new(concat2(start.as_str(), descriptor.loader_id.as_str())));
    }
    descriptor.internal_manifest = validate_bundle_local_file_name(
        "internal_manifest",
        descriptor.internal_manifest.as_str(),
    )?;
    Ok(descriptor)
}

/// The descriptor, which must be that of this skill.
pub fn load_bundle_descriptor(skill: &SkillFiles) -> (r: Result<BundleDescriptor, PlanError>)
    ensures
        outcome(r) == skill.deep_view().descriptor(),
{
    let bundle: BundleFiles = BundleFiles {
        root: skill.root.clone(),
        descriptor: skill.files.content("bundle.toml"),
    };
    load_skill_descriptor(&bundle, &skill.descriptors)
}

/// Checks that the bundle is that of this skill.
pub fn validate_placeholder_bundle(skill: &SkillFiles) -> (r: Result<(), PlanError>)
    ensures
        match skill.deep_view().descriptor() {
            Ok(_) => r is Ok,
            Err(error) => outcome(r) == Err::<(), PlanErrorModel>(error),
        },
{
    match load_bundle_descriptor(skill) {
        Ok(_) => Ok(()),
        Err(error) => Err(error),
    }
}

/// The manifest, which must be that of this skill.
pub fn load_manifest(skill: &SkillFiles) -> (r: Result<Manifest, PlanError>)
    ensures
        outcome(r) == skill.deep_view().manifest(),
{
    let descriptor: BundleDescriptor = load_bundle_descriptor(skill)?;
    let name: &str = descriptor.internal_manifest.as_str();
    let path: String = join_path(skill.root.as_str(), name);
    let content: Option<FileContent> = skill.files.content(name);
    let manifest: &Manifest = read_toml(path.as_str(), &content, &skill.manifests)?;
    if !same_text(manifest.skill.name.as_str(), SKILL_ID) {
        let start: String = concat5(
            "expected manifest skill.name ",
            SKILL_ID,
            " in ",
            path.as_str(),
            ", found ",
        );
        return Err(PlanError::new(concat2(start.as_str(), manifest.skill.name.as_str())));
    }
    let target: &str = manifest.skill.default_install_target.as_str();
    let ghost targets = manifest.deep_view().skill.install_targets;
    let mut found: bool = false;
    let mut i: usize = 0;
    while i < manifest.skill.install_targets.len()
        invariant
            i <= manifest.skill.install_targets.len(),
            targets == manifest.skill.install_targets.deep_view(),
            found == exists|k: int| 0 <= k < i && (#[trigger] targets[k]).name == target@,
        decreases manifest.skill.install_targets.len() - i,
    {
        assert(targets[i as int] == manifest.skill.install_targets@[i as int].deep_view());
        if same_text(manifest.skill.install_targets[i].name.as_str(), target) {
            found = true;
        }
        i = i + 1;
    }
    if !found {
        let start: String = concat3("default_install_target ", target, " is not defined in ");
        return Err(PlanError::new(concat2(start.as_str(), path.as_str())));
    }
    Ok(manifest.clone())
}

/// The judges that a task type names.
pub fn load_task_type_config(skill: &SkillFiles, task_type: &str) -> (r: Result<
    TaskTypeConfig,
    PlanError,
>)
    ensures
        outcome(r) == skill.deep_view().task_type_config(task_type@),
{
    let name: String = validate_task_type_identifier(task_type)?;
    let file: String = concat3("roles/", name.as_str(), "/task-type.toml");
    let path: String = join_path(skill.root.as_str(), file.as_str());
    if !skill.files.is_file(file.as_str()) {
        let start: String = concat3("unknown task_type ", name.as_str(), ": missing ");
        return Err(PlanError::new(concat2(start.as_str(), path.as_str())));
    }
    let content: Option<FileContent> = skill.files.content(file.as_str());
    let config: &TaskTypeConfig = read_toml(path.as_str(), &content, &skill.task_types)?;
    let declared: String = match validate_task_type_identifier(config.task_type.as_str()) {
        Ok(declared) => declared,
        Err(error) => {
            return Err(error.context(concat2("invalid task_type in ", path.as_str())));
        },
    };
    if !same_text(declared.as_str(), name.as_str()) {
        let start: String = concat5(
            "task_type ",
            name.as_str(),
            " does not match ",
            declared.as_str(),
            " in ",
        );
        return Err(PlanError::new(concat2(start.as_str(), path.as_str())));
    }
    Ok(config.clone())
}

/// The front matter and the body of a role's markdown.
pub fn split_role_markdown(markdown: &str) -> (r: Result<(String, String), PlanError>)
    ensures
        outcome(r) == role_sections(markdown@),
{
    match split_once(markdown, "---") {
        None => Err(PlanError::new("missing role front matter".to_owned())),
        Some((prefix, rest)) => match split_once(rest.as_str(), "---") {
            None => Err(PlanError::new("missing role body after front matter".to_owned())),
            Some((front_matter, body)) => {
                if is_blank(prefix.as_str()) {
                    Ok((front_matter, body))
                } else {
                    Err(
                        PlanError::new("unexpected content before role front matter".to_owned()),
                    )
                }
            },
        },
    }
}

fn parse_role_front_matter(skill: &SkillFiles, markdown: &str) -> (r: Result<
    RoleFrontMatter,
    PlanError,
>)
    ensures
        outcome(r) == skill.deep_view().front_matter(markdown@),
{
    let (front_matter, _): (String, String) = split_role_markdown(markdown)?;
    match find_reading(&skill.front_matters, front_matter.as_str()) {
        Ok(value) => Ok(value.clone()),
        Err(source) => Err(
            PlanError::caused("failed to parse role front matter".to_owned(), source),
        ),
    }
}

fn read_role(skill: &SkillFiles, file: &str) -> (r: Result<(String, RoleFrontMatter), PlanError>)
    ensures
        outcome(r) == skill.deep_view().role(file@),
{
    let path: String = join_path(skill.root.as_str(), file);
    let markdown: String = match skill.files.read(file) {
        Ok(markdown) => markdown,
        Err(source) => {
            return Err(PlanError::caused(concat2("failed to read ", path.as_str()), source));
        },
    };
    match parse_role_front_matter(skill, markdown.as_str()) {
        Ok(front_matter) => Ok((markdown, front_matter)),
        Err(error) => Err(
            error.context(concat2("failed to parse front matter in ", path.as_str())),
        ),
    }
}

fn role_path_for(task_type: &str, role_kind: &str, role_id: &str) -> (r: Result<String, PlanError>)
    ensures
        outcome(r) == role_file(task_type@, role_kind@, role_id@),
{
    validate_role_kind(role_kind)?;
    let id: String = normalize_role_id("role_id", role_id)?;
    let name: String = validate_task_type_identifier(task_type)?;
    Ok(concat7("roles/", name.as_str(), "/", role_kind, "/", id.as_str(), ".md"))
}

fn role_mismatch(path: &str, role_kind: &str, found: &str) -> (r: PlanError)
    ensures
        r.deep_view() == role_kind_mismatch(path@, role_kind@, found@),
{
    let start: String = concat5("role kind mismatch for ", path, ": expected ", role_kind, ", found ");
    PlanError::new(concat2(start.as_str(), found))
}

fn validate_selected_role(
    skill: &SkillFiles,
    manifest: &Manifest,
    task_type: &str,
    role_kind: &str,
    role_id: &str,
) -> (r: Result<(), PlanError>)
    ensures
        match skill.deep_view().role_problem(
            manifest.deep_view(),
            task_type@,
            role_kind@,
            role_id@,
        ) {
            Some(error) => outcome(r) == Err::<(), PlanErrorModel>(error),
            None => r is Ok,
        },
{
    let file: String = role_path_for(task_type, role_kind, role_id)?;
    let path: String = join_path(skill.root.as_str(), file.as_str());
    if !skill.files.is_file(file.as_str()) {
        let start: String = concat5("missing role file for ", role_kind, " ", role_id, " at ");
        return Err(PlanError::new(concat2(start.as_str(), path.as_str())));
    }
    let (_, front_matter): (String, RoleFrontMatter) = read_role(skill, file.as_str())?;
    if !same_text(front_matter.role.as_str(), role_kind) {
        return Err(role_mismatch(path.as_str(), role_kind, front_matter.role.as_str()));
    }
    if find_executor(manifest, front_matter.executor.as_str()).is_none() {
        let start: String = concat3(
            "unknown executor ",
            front_matter.executor.as_str(),
            " declared by ",
        );
        return Err(PlanError::new(concat2(start.as_str(), path.as_str())));
    }
    Ok(())
}

/// The judges of a task type.
pub fn resolve_gate_roles(skill: &SkillFiles, manifest: &Manifest, task_type: &str) -> (r: Result<
    ResolvedGateRoleSelection,
    PlanError,
>)
    ensures
        outcome(r) == skill.deep_view().gate_roles(manifest.deep_view(), task_type@),
{
    let name: String = validate_task_type_identifier(task_type)?;
    let config: TaskTypeConfig = load_task_type_config(skill, name.as_str())?;
    let leaf: String = normalize_role_id(
        "default_leaf_reviewer",
        config.default_leaf_reviewer.as_str(),
    )?;
    let frontier: String = normalize_role_id(
        "default_frontier_reviewer",
        config.default_frontier_reviewer.as_str(),
    )?;
    validate_selected_role(skill, manifest, name.as_str(), "leaf_reviewer", leaf.as_str())?;
    validate_selected_role(skill, manifest, name.as_str(), "frontier_reviewer", frontier.as_str())?;
    Ok(
        ResolvedGateRoleSelection {
            task_type: name,
            leaf_reviewer_role_id: leaf,
            frontier_reviewer_role_id: frontier,
        },
    )
}

/// A role of a task type: its file, its prompt, what it says of itself, and
/// how it is run.
pub fn load_task_type_role_definition(
    skill: &SkillFiles,
    manifest: &Manifest,
    task_type: &str,
    role_kind: &str,
    role_id: &str,
) -> (r: Result<(String, String, RoleFrontMatter, ExecutorProfile), PlanError>)
    ensures
        outcome(r) == skill.deep_view().role_definition(
            manifest.deep_view(),
            task_type@,
            role_kind@,
            role_id@,
        ),
{
    let file: String = role_path_for(task_type, role_kind, role_id)?;
    let path: String = join_path(skill.root.as_str(), file.as_str());
    let (markdown, front_matter): (String, RoleFrontMatter) = read_role(skill, file.as_str())?;
    let (_, body): (String, String) = split_role_markdown(markdown.as_str())?;
    if !same_text(front_matter.role.as_str(), role_kind) {
        return Err(role_mismatch(path.as_str(), role_kind, front_matter.role.as_str()));
    }
    match find_executor(manifest, front_matter.executor.as_str()) {
        None => Err(
            PlanError::new(
                concat2("missing executor profile ", front_matter.executor.as_str()),
            ),
        ),
        Some(profile) => {
            let executor: ExecutorProfile = profile.clone();
            Ok((path, trim(body.as_str()), front_matter, executor))
        },
    }
}

/// A prompt, without the white space around it.
pub fn load_prompt_template(skill: &SkillFiles, template_name: &str) -> (r: Result<
    String,
    PlanError,
>)
    ensures
        outcome(r) == skill.deep_view().prompt(template_name@),
{
    let name: String = validate_template_name(template_name)?;
    let file: String = concat3("prompts/", name.as_str(), ".md");
    match skill.files.read(file.as_str()) {
        Ok(markdown) => Ok(trim(markdown.as_str())),
        Err(source) => {
            let path: String = join_path(skill.root.as_str(), file.as_str());
            Err(PlanError::caused(concat2("failed to read ", path.as_str()), source))
        },
    }
}

/// The prompt that states the contract of the domain.
pub fn load_domain_contract_prompt(skill: &SkillFiles) -> (r: Result<String, PlanError>)
    ensures
        outcome(r) == skill.deep_view().prompt("domain_contract"@),
{
    load_prompt_template(skill, "domain_contract")
}

/// The prompt of a leaf review.
pub fn load_leaf_runtime_prompt(skill: &SkillFiles) -> (r: Result<String, PlanError>)
    ensures
        outcome(r) == skill.deep_view().prompt("leaf_runtime"@),
{
    load_prompt_template(skill, "leaf_runtime")
}

/// The prompt of a frontier review.
pub fn load_frontier_runtime_prompt(skill: &SkillFiles) -> (r: Result<String, PlanError>)
    ensures
        outcome(r) == skill.deep_view().prompt("frontier_runtime"@),
{
    load_prompt_template(skill, "frontier_runtime")
}

// ---------------------------------------------------------------------
// The command of a judge
// ---------------------------------------------------------------------
/// A part of a command with its placeholders replaced, one kind after the
/// other.
pub open spec fn filled(
    value: Seq<char>,
    bundle_bin: Seq<char>,
    workspace_root: Seq<char>,
    project_directory: Seq<char>,
    invocation_payload_path: Seq<char>,
    output_last_message_path: Seq<char>,
) -> Seq<char> {
    replaced(
        replaced(
            replaced(
                replaced(
                    replaced(value, "{bundle_bin}"@, bundle_bin),
                    "{workspace_root}"@,
                    workspace_root,
                ),
                "{project_directory}"@,
                project_directory,
            ),
            "{invocation_payload_path}"@,
            invocation_payload_path,
        ),
        "{output_last_message_path}"@,
        output_last_message_path,
    )
}

fn resolve_template_value(
    value: &str,
    bundle_bin: &str,
    workspace_root: &str,
    project_directory: &str,
    invocation_payload_path: &str,
    output_last_message_path: &str,
) -> (r: String)
    ensures
        r@ == filled(
            value@,
            bundle_bin@,
            workspace_root@,
            project_directory@,
            invocation_payload_path@,
            output_last_message_path@,
        ),
{
    proof {
        reveal_strlit("{bundle_bin}");
        reveal_strlit("{workspace_root}");
        reveal_strlit("{project_directory}");
        reveal_strlit("{invocation_payload_path}");
        reveal_strlit("{output_last_message_path}");
    }
    let step1: String = replace(value, "{bundle_bin}", bundle_bin);
    let step2: String = replace(step1.as_str(), "{workspace_root}", workspace_root);
    let step3: String = replace(step2.as_str(), "{project_directory}", project_directory);
    let step4: String = replace(
        step3.as_str(),
        "{invocation_payload_path}",
        invocation_payload_path,
    );
    replace(step4.as_str(), "{output_last_message_path}", output_last_message_path)
}

/// The program of a profile and its arguments, with the placeholders
/// replaced.
pub open spec fn filled_command(
    profile: ExecutorProfileModel,
    bundle_bin: Seq<char>,
    workspace_root: Seq<char>,
    project_directory: Seq<char>,
    invocation_payload_path: Seq<char>,
    output_last_message_path: Seq<char>,
) -> Seq<Seq<char>> {
    Seq::new(
        profile.args.len() + 1,
        |i: int|
            filled(
                if i == 0 {
                    profile.command
                } else {
                    profile.args[i - 1]
                },
                bundle_bin,
                workspace_root,
                project_directory,
                invocation_payload_path,
                output_last_message_path,
            ),
    )
}

/// The program of a profile and its arguments, with the placeholders
/// replaced.
#[verifier::loop_isolation(false)]
pub fn resolve_executor_command(
    executor_profile: &ExecutorProfile,
    bundle_bin: &str,
    workspace_root: &str,
    project_directory: &str,
    invocation_payload_path: &str,
    output_last_message_path: &str,
) -> (r: Vec<String>)
    ensures
        r.deep_view() == filled_command(
            executor_profile.deep_view(),
            bundle_bin@,
            workspace_root@,
            project_directory@,
            invocation_payload_path@,
            output_last_message_path@,
        ),
{
    let ghost all = filled_command(
        executor_profile.deep_view(),
        bundle_bin@,
        workspace_root@,
        project_directory@,
        invocation_payload_path@,
        output_last_message_path@,
    );
    let mut command: Vec<String> = Vec::new();
    command.push(
        resolve_template_value(
            executor_profile.command.as_str(),
            bundle_bin,
            workspace_root,
            project_directory,
            invocation_payload_path,
            output_last_message_path,
        ),
    );
    let mut i: usize = 0;
    assert(command.deep_view() =~= all.take(1));
    while i < executor_profile.args.len()
        invariant
            i <= executor_profile.args.len(),
            command.deep_view() == all.take(i + 1),
        decreases executor_profile.args.len() - i,
    {
        let ghost before = command.deep_view();
        let part: String = resolve_template_value(
            executor_profile.args[i].as_str(),
            bundle_bin,
            workspace_root,
            project_directory,
            invocation_payload_path,
            output_last_message_path,
        );
        command.push(part);
        assert(command.deep_view() =~= before.push(part@));
        assert(command.deep_view() =~= all.take(i + 2));
        i = i + 1;
    }
    assert(command.deep_view() =~= all);
    command
}

/// The directory that a judge runs in.
pub open spec fn executor_cwd(
    cwd: Seq<char>,
    workspace_root: Seq<char>,
    project_directory: Seq<char>,
) -> Seq<char> {
    if cwd == "project"@ {
        project_directory
    } else if cwd == "workspace"@ {
        workspace_root
    } else {
        cwd
    }
}

/// The directory that a judge runs in.
pub fn resolve_executor_cwd(cwd: &str, workspace_root: &str, project_directory: &str) -> (r: String)
    ensures
        r@ == executor_cwd(cwd@, workspace_root@, project_directory@),
{
    if same_text(cwd, "project") {
        project_directory.to_owned()
    } else if same_text(cwd, "workspace") {
        workspace_root.to_owned()
    } else {
        cwd.to_owned()
    }
}

} // verus!
