//! Skill bundles: what a bundle's descriptor says, and where a bundle is
//! found.
//!
//! The descriptor and the registry are TOML files. What a TOML parser makes
//! of their texts is handed in as readings.
use crate::error::{failure, outcome, PlanError, PlanErrorModel};
use crate::files::{missing_file_text, FileContent, FileContentModel};
use crate::paths::{
    components, file_name, join_path, joined_path, parent_path, path_components, path_file_name,
    path_parent, Component,
};
use crate::text::{concat2, concat5, is_text, same_text};
use vstd::prelude::*;

verus! {

/// What a parser makes of a text.
#[derive(Debug, PartialEq, Eq)]
pub struct Reading<T> {
    pub text: String,
    pub parsed: Result<T, String>,
}

/// The meaning of a [`Reading`].
pub struct ReadingModel<M> {
    pub text: Seq<char>,
    pub parsed: Result<M, Seq<char>>,
}

impl<T: DeepView> DeepView for Reading<T> {
    type V = ReadingModel<T::V>;

    open spec fn deep_view(&self) -> ReadingModel<T::V> {
        ReadingModel { text: self.text@, parsed: outcome(self.parsed) }
    }
}

/// What a bundle says of itself.
#[derive(Debug, PartialEq, Eq)]
pub struct BundleDescriptor {
    pub skill_id: String,
    pub skill_kind: String,
    pub version: String,
    pub loader_id: String,
    pub root_entry: String,
    pub binary_path: String,
    pub internal_manifest: String,
}

/// The meaning of a [`BundleDescriptor`].
pub struct BundleDescriptorModel {
    pub skill_id: Seq<char>,
    pub skill_kind: Seq<char>,
    pub version: Seq<char>,
    pub loader_id: Seq<char>,
    pub root_entry: Seq<char>,
    pub binary_path: Seq<char>,
    pub internal_manifest: Seq<char>,
}

impl DeepView for BundleDescriptor {
    type V = BundleDescriptorModel;

    open spec fn deep_view(&self) -> BundleDescriptorModel {
        BundleDescriptorModel {
            skill_id: self.skill_id@,
            skill_kind: self.skill_kind@,
            version: self.version@,
            loader_id: self.loader_id@,
            root_entry: self.root_entry@,
            binary_path: self.binary_path@,
            internal_manifest: self.internal_manifest@,
        }
    }
}

impl Clone for BundleDescriptor {
    fn clone(&self) -> (r: Self)
        ensures
            r.deep_view() == self.deep_view(),
    {
        BundleDescriptor {
            skill_id: self.skill_id.clone(),
            skill_kind: self.skill_kind.clone(),
            version: self.version.clone(),
            loader_id: self.loader_id.clone(),
            root_entry: self.root_entry.clone(),
            binary_path: self.binary_path.clone(),
            internal_manifest: self.internal_manifest.clone(),
        }
    }
}

/// A skill under development.
#[derive(Debug, PartialEq, Eq)]
pub struct DevelopmentSkillRegistration {
    pub skill_id: String,
    pub loader_id: String,
    pub source_root: String,
    pub binary_package: String,
    pub binary_name: String,
    pub internal_manifest: String,
}

/// The meaning of a [`DevelopmentSkillRegistration`].
pub struct DevelopmentSkillRegistrationModel {
    pub skill_id: Seq<char>,
    pub loader_id: Seq<char>,
    pub source_root: Seq<char>,
    pub binary_package: Seq<char>,
    pub binary_name: Seq<char>,
    pub internal_manifest: Seq<char>,
}

impl DeepView for DevelopmentSkillRegistration {
    type V = DevelopmentSkillRegistrationModel;

    open spec fn deep_view(&self) -> DevelopmentSkillRegistrationModel {
        DevelopmentSkillRegistrationModel {
            skill_id: self.skill_id@,
            loader_id: self.loader_id@,
            source_root: self.source_root@,
            binary_package: self.binary_package@,
            binary_name: self.binary_name@,
            internal_manifest: self.internal_manifest@,
        }
    }
}

impl Clone for DevelopmentSkillRegistration {
    fn clone(&self) -> (r: Self)
        ensures
            r.deep_view() == self.deep_view(),
    {
        DevelopmentSkillRegistration {
            skill_id: self.skill_id.clone(),
            loader_id: self.loader_id.clone(),
            source_root: self.source_root.clone(),
            binary_package: self.binary_package.clone(),
            binary_name: self.binary_name.clone(),
            internal_manifest: self.internal_manifest.clone(),
        }
    }
}

/// The skills under development in a workspace.
#[derive(Debug, PartialEq, Eq)]
pub struct DevelopmentRegistry {
    pub skills: Vec<DevelopmentSkillRegistration>,
}

/// The meaning of a [`DevelopmentRegistry`].
pub struct DevelopmentRegistryModel {
    pub skills: Seq<DevelopmentSkillRegistrationModel>,
}

impl DeepView for DevelopmentRegistry {
    type V = DevelopmentRegistryModel;

    open spec fn deep_view(&self) -> DevelopmentRegistryModel {
        DevelopmentRegistryModel {
            skills: self.skills.deep_view(),
        }
    }
}

impl Clone for DevelopmentRegistry {
    fn clone(&self) -> (r: Self)
        ensures
            r.deep_view() == self.deep_view(),
    {
        let r: DevelopmentRegistry = DevelopmentRegistry {
            skills: self.skills.clone(),
        };
        assert(r.skills.deep_view() =~= self.skills.deep_view());
        r
    }
}

/// A bundle that was found.
#[derive(Debug, PartialEq, Eq)]
pub struct DiscoveredBundle {
    pub bundle_root: String,
    pub descriptor: BundleDescriptor,
}

/// The meaning of a [`DiscoveredBundle`].
pub struct DiscoveredBundleModel {
    pub bundle_root: Seq<char>,
    pub descriptor: BundleDescriptorModel,
}

impl DeepView for DiscoveredBundle {
    type V = DiscoveredBundleModel;

    open spec fn deep_view(&self) -> DiscoveredBundleModel {
        DiscoveredBundleModel {
            bundle_root: self.bundle_root@,
            descriptor: self.descriptor.deep_view(),
        }
    }
}

impl Clone for DiscoveredBundle {
    fn clone(&self) -> (r: Self)
        ensures
            r.deep_view() == self.deep_view(),
    {
        DiscoveredBundle {
            bundle_root: self.bundle_root.clone(),
            descriptor: self.descriptor.clone(),
        }
    }
}

/// The bundle of a skill under development.
#[derive(Debug, PartialEq, Eq)]
pub struct ResolvedDevelopmentSkill {
    pub bundle_root: String,
    pub descriptor: BundleDescriptor,
    pub registration: DevelopmentSkillRegistration,
}

/// The meaning of a [`ResolvedDevelopmentSkill`].
pub struct ResolvedDevelopmentSkillModel {
    pub bundle_root: Seq<char>,
    pub descriptor: BundleDescriptorModel,
    pub registration: DevelopmentSkillRegistrationModel,
}

impl DeepView for ResolvedDevelopmentSkill {
    type V = ResolvedDevelopmentSkillModel;

    open spec fn deep_view(&self) -> ResolvedDevelopmentSkillModel {
        ResolvedDevelopmentSkillModel {
            bundle_root: self.bundle_root@,
            descriptor: self.descriptor.deep_view(),
            registration: self.registration.deep_view(),
        }
    }
}

impl Clone for ResolvedDevelopmentSkill {
    fn clone(&self) -> (r: Self)
        ensures
            r.deep_view() == self.deep_view(),
    {
        ResolvedDevelopmentSkill {
            bundle_root: self.bundle_root.clone(),
            descriptor: self.descriptor.clone(),
            registration: self.registration.clone(),
        }
    }
}

/// A directory, and what stands there as the descriptor of a bundle.
#[derive(Debug, PartialEq, Eq)]
pub struct BundleFiles {
    pub root: String,
    pub descriptor: Option<FileContent>,
}

/// The meaning of a [`BundleFiles`].
pub struct BundleFilesModel {
    pub root: Seq<char>,
    pub descriptor: Option<FileContentModel>,
}

impl DeepView for BundleFiles {
    type V = BundleFilesModel;

    open spec fn deep_view(&self) -> BundleFilesModel {
        BundleFilesModel {
            root: self.root@,
            descriptor: self.descriptor.deep_view(),
        }
    }
}

impl Clone for BundleFiles {
    fn clone(&self) -> (r: Self)
        ensures
            r.deep_view() == self.deep_view(),
    {
        BundleFiles {
            root: self.root.clone(),
            descriptor: self.descriptor.clone(),
        }
    }
}

/// An entry of a directory of installed skills.
#[derive(Debug, PartialEq, Eq)]
pub enum InstalledEntry {
    Broken { source: String },
    Bundle { bundle: BundleFiles },
}

/// The meaning of a [`InstalledEntry`].
pub enum InstalledEntryModel {
    Broken { source: Seq<char> },
    Bundle { bundle: BundleFilesModel },
}

impl DeepView for InstalledEntry {
    type V = InstalledEntryModel;

    open spec fn deep_view(&self) -> InstalledEntryModel {
        match self {
            InstalledEntry::Broken { source } => InstalledEntryModel::Broken {
                source: source@,
            },
            InstalledEntry::Bundle { bundle } => InstalledEntryModel::Bundle {
                bundle: bundle.deep_view(),
            },
        }
    }
}

impl Clone for InstalledEntry {
    fn clone(&self) -> (r: Self)
        ensures
            r.deep_view() == self.deep_view(),
    {
        match self {
            InstalledEntry::Broken { source } => InstalledEntry::Broken {
                source: source.clone(),
            },
            InstalledEntry::Bundle { bundle } => InstalledEntry::Bundle {
                bundle: bundle.clone(),
            },
        }
    }
}

/// What a directory of installed skills holds.
#[derive(Debug, PartialEq, Eq)]
pub enum InstalledEntries {
    NoDirectory,
    Unreadable { source: String },
    Listed { entries: Vec<InstalledEntry> },
}

/// The meaning of a [`InstalledEntries`].
pub enum InstalledEntriesModel {
    NoDirectory,
    Unreadable { source: Seq<char> },
    Listed { entries: Seq<InstalledEntryModel> },
}

impl DeepView for InstalledEntries {
    type V = InstalledEntriesModel;

    open spec fn deep_view(&self) -> InstalledEntriesModel {
        match self {
            InstalledEntries::NoDirectory => InstalledEntriesModel::NoDirectory,
            InstalledEntries::Unreadable { source } => InstalledEntriesModel::Unreadable {
                source: source@,
            },
            InstalledEntries::Listed { entries } => InstalledEntriesModel::Listed {
                entries: entries.deep_view(),
            },
        }
    }
}

impl Clone for InstalledEntries {
    fn clone(&self) -> (r: Self)
        ensures
            r.deep_view() == self.deep_view(),
    {
        match self {
            InstalledEntries::NoDirectory => InstalledEntries::NoDirectory,
            InstalledEntries::Unreadable { source } => InstalledEntries::Unreadable {
                source: source.clone(),
            },
            InstalledEntries::Listed { entries } => {
                let entries_copy = entries.clone();
                assert(entries_copy.deep_view() =~= entries.deep_view());
                InstalledEntries::Listed {
                    entries: entries_copy,
                }
            },
        }
    }
}

/// A place where skills may be installed.
#[derive(Debug, PartialEq, Eq)]
pub struct InstalledRoot {
    pub root: String,
    pub entries: InstalledEntries,
}

/// The meaning of a [`InstalledRoot`].
pub struct InstalledRootModel {
    pub root: Seq<char>,
    pub entries: InstalledEntriesModel,
}

impl DeepView for InstalledRoot {
    type V = InstalledRootModel;

    open spec fn deep_view(&self) -> InstalledRootModel {
        InstalledRootModel {
            root: self.root@,
            entries: self.entries.deep_view(),
        }
    }
}

impl Clone for InstalledRoot {
    fn clone(&self) -> (r: Self)
        ensures
            r.deep_view() == self.deep_view(),
    {
        InstalledRoot {
            root: self.root.clone(),
            entries: self.entries.clone(),
        }
    }
}

/// A loader and the id that it answers to.
pub struct LoaderRegistration<T> {
    pub loader_id: &'static str,
    pub loader: T,
}

/// The name of the descriptor in its bundle.
pub const DESCRIPTOR_FILE_NAME: &'static str = "bundle.toml";

/// The place of the registry in its workspace.
pub const DEV_REGISTRY_RELATIVE_PATH: &'static str = "skills/dev-registry.toml";

/// What the readings from `i` on say of a text.
pub open spec fn reading_from<M>(readings: Seq<ReadingModel<M>>, text: Seq<char>, i: int) -> Result<
    M,
    Seq<char>,
>
    decreases readings.len() - i,
{
    if i >= readings.len() {
        Err("not parsed"@)
    } else if readings[i].text == text {
        readings[i].parsed
    } else {
        reading_from(readings, text, i + 1)
    }
}

/// What the readings say of a text.
pub fn find_reading<'a, T: DeepView>(readings: &'a Vec<Reading<T>>, text: &str) -> (r: Result<
    &'a T,
    String,
>)
    ensures
        match r {
            Ok(value) => reading_from(readings.deep_view(), text@, 0) == Ok::<T::V, Seq<char>>(
                value.deep_view(),
            ),
            Err(source) => reading_from(readings.deep_view(), text@, 0) == Err::<T::V, Seq<char>>(
                source@,
            ),
        },
{
    let ghost all = readings.deep_view();
    let mut i: usize = 0;
    while i < readings.len()
        invariant
            i <= readings.len(),
            all == readings.deep_view(),
            reading_from(all, text@, 0) == reading_from(all, text@, i as int),
        decreases readings.len() - i,
    {
        assert(all[i as int] == readings@[i as int].deep_view());
        if same_text(readings[i].text.as_str(), text) {
            return match &readings[i].parsed {
                Ok(value) => Ok(value),
                Err(source) => Err(source.clone()),
            };
        }
        i = i + 1;
    }
    Err("not parsed".to_owned())
}

/// The place of the descriptor of a bundle.
pub open spec fn descriptor_file(bundle_root: Seq<char>) -> Seq<char> {
    joined_path(bundle_root, DESCRIPTOR_FILE_NAME@)
}

/// The place of the registry of a workspace.
pub open spec fn registry_file(workspace_root: Seq<char>) -> Seq<char> {
    joined_path(workspace_root, DEV_REGISTRY_RELATIVE_PATH@)
}

/// The place of the descriptor of a bundle.
pub fn descriptor_path(bundle_root: &str) -> (r: String)
    ensures
        r@ == descriptor_file(bundle_root@),
{
    join_path(bundle_root, DESCRIPTOR_FILE_NAME)
}

/// The place of the registry of a workspace.
pub fn development_registry_path(workspace_root: &str) -> (r: String)
    ensures
        r@ == registry_file(workspace_root@),
{
    join_path(workspace_root, DEV_REGISTRY_RELATIVE_PATH)
}

/// The text of a file, or why it cannot be read.
pub open spec fn file_text(content: Option<FileContentModel>) -> Result<Seq<char>, Seq<char>> {
    match content {
        Some(FileContentModel::Text { text }) => Ok(text),
        Some(FileContentModel::NotText { source, bytes }) => Err(source),
        Some(FileContentModel::Unreadable { source }) => Err(source),
        Some(FileContentModel::Directory { source }) => Err(source),
        None => Err(missing_file_text()),
    }
}

/// The value that a TOML file holds.
pub open spec fn toml_value<M>(
    path: Seq<char>,
    content: Option<FileContentModel>,
    readings: Seq<ReadingModel<M>>,
) -> Result<M, PlanErrorModel> {
    match file_text(content) {
        Err(source) => Err(failure(source).under("failed to read "@ + path)),
        Ok(text) => match reading_from(readings, text, 0) {
            Err(source) => Err(failure(source).under("failed to parse "@ + path)),
            Ok(value) => Ok(value),
        },
    }
}

/// The value that a TOML file holds.
pub fn read_toml<'a, T: DeepView>(
    path: &str,
    content: &Option<FileContent>,
    readings: &'a Vec<Reading<T>>,
) -> (r: Result<&'a T, PlanError>)
    ensures
        match r {
            Ok(value) => toml_value(path@, content.deep_view(), readings.deep_view()) == Ok::<
                T::V,
                PlanErrorModel,
            >(value.deep_view()),
            Err(error) => toml_value(path@, content.deep_view(), readings.deep_view()) == Err::<
                T::V,
                PlanErrorModel,
            >(error.deep_view()),
        },
{
    let text: &str = match content {
        Some(FileContent::Text { text }) => text.as_str(),
        Some(FileContent::NotText { source, bytes: _ }) => {
            return Err(PlanError::caused(concat2("failed to read ", path), source.clone()));
        },
        Some(FileContent::Unreadable { source }) => {
            return Err(PlanError::caused(concat2("failed to read ", path), source.clone()));
        },
        Some(FileContent::Directory { source }) => {
            return Err(PlanError::caused(concat2("failed to read ", path), source.clone()));
        },
        None => {
            return Err(
                PlanError::caused(
                    concat2("failed to read ", path),
                    "No such file or directory (os error 2)".to_owned(),
                ),
            );
        },
    };
    match find_reading(readings, text) {
        Ok(value) => Ok(value),
        Err(source) => Err(PlanError::caused(concat2("failed to parse ", path), source)),
    }
}

/// The descriptor of a bundle.
pub open spec fn descriptor_of(
    bundle: BundleFilesModel,
    readings: Seq<ReadingModel<BundleDescriptorModel>>,
) -> Result<BundleDescriptorModel, PlanErrorModel> {
    toml_value(descriptor_file(bundle.root), bundle.descriptor, readings)
}

/// The descriptor of a bundle.
pub fn read_descriptor(bundle: &BundleFiles, readings: &Vec<Reading<BundleDescriptor>>) -> (r:
    Result<BundleDescriptor, PlanError>)
    ensures
        outcome(r) == descriptor_of(bundle.deep_view(), readings.deep_view()),
{
    let path: String = descriptor_path(bundle.root.as_str());
    match read_toml(path.as_str(), &bundle.descriptor, readings) {
        Ok(descriptor) => Ok(descriptor.clone()),
        Err(error) => Err(error),
    }
}

/// The registry of a workspace.
pub open spec fn registry_of(
    workspace_root: Seq<char>,
    content: Option<FileContentModel>,
    readings: Seq<ReadingModel<DevelopmentRegistryModel>>,
) -> Result<DevelopmentRegistryModel, PlanErrorModel> {
    toml_value(registry_file(workspace_root), content, readings)
}

/// The registry of a workspace, whose file holds `content`.
pub fn read_development_registry(
    workspace_root: &str,
    content: &Option<FileContent>,
    readings: &Vec<Reading<DevelopmentRegistry>>,
) -> (r: Result<DevelopmentRegistry, PlanError>)
    ensures
        outcome(r) == registry_of(workspace_root@, content.deep_view(), readings.deep_view()),
{
    let path: String = development_registry_path(workspace_root);
    match read_toml(path.as_str(), content, readings) {
        Ok(registry) => Ok(registry.clone()),
        Err(error) => Err(error),
    }
}

/// The first registration at or after `i` of this skill.
pub open spec fn registration_from(
    skills: Seq<DevelopmentSkillRegistrationModel>,
    skill_id: Seq<char>,
    i: int,
) -> Option<DevelopmentSkillRegistrationModel>
    decreases skills.len() - i,
{
    if i >= skills.len() {
        None
    } else if skills[i].skill_id == skill_id {
        Some(skills[i])
    } else {
        registration_from(skills, skill_id, i + 1)
    }
}

fn find_registration<'a>(registry: &'a DevelopmentRegistry, skill_id: &str) -> (r: Option<
    &'a DevelopmentSkillRegistration,
>)
    ensures
        match r {
            Some(registration) => registration_from(registry.deep_view().skills, skill_id@, 0)
                == Some(registration.deep_view()),
            None => registration_from(registry.deep_view().skills, skill_id@, 0) is None,
        },
{
    let ghost all = registry.skills.deep_view();
    let mut i: usize = 0;
    while i < registry.skills.len()
        invariant
            i <= registry.skills.len(),
            all == registry.skills.deep_view(),
            registration_from(all, skill_id@, 0) == registration_from(all, skill_id@, i as int),
        decreases registry.skills.len() - i,
    {
        assert(all[i as int] == registry.skills@[i as int].deep_view());
        if same_text(registry.skills[i].skill_id.as_str(), skill_id) {
            return Some(&registry.skills[i]);
        }
        i = i + 1;
    }
    None
}

/// The registration of a skill.
pub fn find_registered_skill<'a>(registry: &'a DevelopmentRegistry, skill_id: &str) -> (r: Result<
    &'a DevelopmentSkillRegistration,
    PlanError,
>)
    ensures
        match r {
            Ok(registration) => registration_from(registry.deep_view().skills, skill_id@, 0)
                == Some(registration.deep_view()),
            Err(error) => registration_from(registry.deep_view().skills, skill_id@, 0) is None
                && error.deep_view() == failure(
                "development registry is missing "@ + skill_id@,
            ),
        },
{
    match find_registration(registry, skill_id) {
        Some(registration) => Ok(registration),
        None => Err(PlanError::new(concat2("development registry is missing ", skill_id))),
    }
}

/// Where the bundle of a registration stands.
pub fn resolve_registered_source_root(
    workspace_root: &str,
    registration: &DevelopmentSkillRegistration,
) -> (r: String)
    ensures
        r@ == joined_path(workspace_root@, registration.source_root@),
{
    join_path(workspace_root, registration.source_root.as_str())
}

/// What stands at a root, going by the bundles from `i` on.
pub open spec fn bundle_from(bundles: Seq<BundleFilesModel>, root: Seq<char>, i: int) -> BundleFilesModel
    decreases bundles.len() - i,
{
    if i >= bundles.len() {
        BundleFilesModel { root, descriptor: None }
    } else if bundles[i].root == root {
        bundles[i]
    } else {
        bundle_from(bundles, root, i + 1)
    }
}

/// What stands at a root.
pub fn bundle_at(bundles: &Vec<BundleFiles>, root: &str) -> (r: BundleFiles)
    ensures
        r.deep_view() == bundle_from(bundles.deep_view(), root@, 0),
{
    let ghost all = bundles.deep_view();
    let mut i: usize = 0;
    while i < bundles.len()
        invariant
            i <= bundles.len(),
            all == bundles.deep_view(),
            bundle_from(all, root@, 0) == bundle_from(all, root@, i as int),
        decreases bundles.len() - i,
    {
        assert(all[i as int] == bundles@[i as int].deep_view());
        if same_text(bundles[i].root.as_str(), root) {
            return bundles[i].clone();
        }
        i = i + 1;
    }
    BundleFiles { root: root.to_owned(), descriptor: None }
}

/// The bundle that a registration leads to, which must say the same.
pub open spec fn development_skill(
    workspace_root: Seq<char>,
    registration: DevelopmentSkillRegistrationModel,
    bundles: Seq<BundleFilesModel>,
    readings: Seq<ReadingModel<BundleDescriptorModel>>,
) -> Result<ResolvedDevelopmentSkillModel, PlanErrorModel> {
    let bundle_root = joined_path(workspace_root, registration.source_root);
    match descriptor_of(bundle_from(bundles, bundle_root, 0), readings) {
        Err(error) => Err(error),
        Ok(descriptor) => if descriptor.skill_id != registration.skill_id {
            Err(
                failure(
                    "development registry maps "@ + registration.skill_id + " to "@ + bundle_root
                        + " but descriptor declares "@ + descriptor.skill_id,
                ),
            )
        } else if descriptor.loader_id != registration.loader_id {
            Err(
                failure(
                    "development registry maps "@ + registration.skill_id + " to loader "@
                        + registration.loader_id + " but descriptor declares "@
                        + descriptor.loader_id,
                ),
            )
        } else if descriptor.internal_manifest != registration.internal_manifest {
            Err(
                failure(
                    "development registry maps "@ + registration.skill_id + " to manifest "@
                        + registration.internal_manifest + " but descriptor declares "@
                        + descriptor.internal_manifest,
                ),
            )
        } else {
            Ok(ResolvedDevelopmentSkillModel { bundle_root, descriptor, registration })
        },
    }
}

fn registry_mismatch(skill_id: &str, link: &str, expected: &str, found: &str) -> (r: PlanError)
    ensures
        r.deep_view() == failure(
            "development registry maps "@ + skill_id@ + link@ + expected@
                + " but descriptor declares "@ + found@,
        ),
{
    let start: String = concat5(
        "development registry maps ",
        skill_id,
        link,
        expected,
        " but descriptor declares ",
    );
    PlanError::new(concat2(start.as_str(), found))
}

fn build_resolved_development_skill(
    workspace_root: &str,
    registration: &DevelopmentSkillRegistration,
    bundles: &Vec<BundleFiles>,
    readings: &Vec<Reading<BundleDescriptor>>,
) -> (r: Result<ResolvedDevelopmentSkill, PlanError>)
    ensures
        outcome(r) == development_skill(
            workspace_root@,
            registration.deep_view(),
            bundles.deep_view(),
            readings.deep_view(),
        ),
{
    let bundle_root: String = resolve_registered_source_root(workspace_root, registration);
    let bundle: BundleFiles = bundle_at(bundles, bundle_root.as_str());
    let descriptor: BundleDescriptor = read_descriptor(&bundle, readings)?;
    if !same_text(descriptor.skill_id.as_str(), registration.skill_id.as_str()) {
        return Err(
            registry_mismatch(
                registration.skill_id.as_str(),
                " to ",
                bundle_root.as_str(),
                descriptor.skill_id.as_str(),
            ),
        );
    }
    if !same_text(descriptor.loader_id.as_str(), registration.loader_id.as_str()) {
        return Err(
            registry_mismatch(
                registration.skill_id.as_str(),
                " to loader ",
                registration.loader_id.as_str(),
                descriptor.loader_id.as_str(),
            ),
        );
    }
    if !same_text(descriptor.internal_manifest.as_str(), registration.internal_manifest.as_str()) {
        return Err(
            registry_mismatch(
                registration.skill_id.as_str(),
                " to manifest ",
                registration.internal_manifest.as_str(),
                descriptor.internal_manifest.as_str(),
            ),
        );
    }
    Ok(ResolvedDevelopmentSkill { bundle_root, descriptor, registration: registration.clone() })
}

/// The bundle of a skill under development.
pub open spec fn development_skill_of(
    workspace_root: Seq<char>,
    registry: Result<DevelopmentRegistryModel, PlanErrorModel>,
    bundles: Seq<BundleFilesModel>,
    readings: Seq<ReadingModel<BundleDescriptorModel>>,
    skill_id: Seq<char>,
) -> Result<ResolvedDevelopmentSkillModel, PlanErrorModel> {
    match registry {
        Err(error) => Err(error),
        Ok(registry) => match registration_from(registry.skills, skill_id, 0) {
            None => Err(failure("development registry is missing "@ + skill_id)),
            Some(registration) => development_skill(
                workspace_root,
                registration,
                bundles,
                readings,
            ),
        },
    }
}

/// The bundle of a skill under development, given what the registry's file
/// holds.
pub fn resolve_development_skill(
    workspace_root: &str,
    registry_content: &Option<FileContent>,
    registry_readings: &Vec<Reading<DevelopmentRegistry>>,
    bundles: &Vec<BundleFiles>,
    readings: &Vec<Reading<BundleDescriptor>>,
    skill_id: &str,
) -> (r: Result<ResolvedDevelopmentSkill, PlanError>)
    ensures
        outcome(r) == development_skill_of(
            workspace_root@,
            registry_of(
                workspace_root@,
                registry_content.deep_view(),
                registry_readings.deep_view(),
            ),
            bundles.deep_view(),
            readings.deep_view(),
            skill_id@,
        ),
{
    let registry: DevelopmentRegistry = read_development_registry(
        workspace_root,
        registry_content,
        registry_readings,
    )?;
    let registration: &DevelopmentSkillRegistration = find_registered_skill(&registry, skill_id)?;
    build_resolved_development_skill(workspace_root, registration, bundles, readings)
}

/// A file, and not a directory, stands there.
pub open spec fn is_plain_file(content: Option<FileContentModel>) -> bool {
    match content {
        Some(FileContentModel::Directory { source }) => false,
        Some(_) => true,
        None => false,
    }
}

/// Tells whether a file, and not a directory, stands there.
pub fn content_is_file(content: &Option<FileContent>) -> (r: bool)
    ensures
        r == is_plain_file(content.deep_view()),
{
    match content {
        Some(FileContent::Directory { .. }) => false,
        Some(_) => true,
        None => false,
    }
}

/// The bundle of a skill under development, if the workspace has a registry
/// that names the skill.
pub open spec fn registered_development_skill(
    workspace_root: Seq<char>,
    registry_content: Option<FileContentModel>,
    registry_readings: Seq<ReadingModel<DevelopmentRegistryModel>>,
    bundles: Seq<BundleFilesModel>,
    readings: Seq<ReadingModel<BundleDescriptorModel>>,
    skill_id: Seq<char>,
) -> Result<Option<ResolvedDevelopmentSkillModel>, PlanErrorModel> {
    if !is_plain_file(registry_content) {
        Ok(None)
    } else {
        match registry_of(workspace_root, registry_content, registry_readings) {
            Err(error) => Err(error),
            Ok(registry) => match registration_from(registry.skills, skill_id, 0) {
                None => Ok(None),
                Some(registration) => match development_skill(
                    workspace_root,
                    registration,
                    bundles,
                    readings,
                ) {
                    Ok(skill) => Ok(Some(skill)),
                    Err(error) => Err(error),
                },
            },
        }
    }
}

/// The bundle of a skill under development, if the workspace has a registry
/// that names the skill.
pub fn resolve_development_skill_if_registered(
    workspace_root: &str,
    registry_content: &Option<FileContent>,
    registry_readings: &Vec<Reading<DevelopmentRegistry>>,
    bundles: &Vec<BundleFiles>,
    readings: &Vec<Reading<BundleDescriptor>>,
    skill_id: &str,
) -> (r: Result<Option<ResolvedDevelopmentSkill>, PlanError>)
    ensures
        outcome(r) == registered_development_skill(
            workspace_root@,
            registry_content.deep_view(),
            registry_readings.deep_view(),
            bundles.deep_view(),
            readings.deep_view(),
            skill_id@,
        ),
{
    if !content_is_file(registry_content) {
        return Ok(None);
    }
    let registry: DevelopmentRegistry = read_development_registry(
        workspace_root,
        registry_content,
        registry_readings,
    )?;
    match find_registration(&registry, skill_id) {
        None => Ok(None),
        Some(registration) => {
            let skill: ResolvedDevelopmentSkill = build_resolved_development_skill(
                workspace_root,
                registration,
                bundles,
                readings,
            )?;
            Ok(Some(skill))
        },
    }
}

/// Two texts are the same path.
pub open spec fn same_path(a: Seq<char>, b: Seq<char>) -> bool {
    components(a) == components(b)
}

/// Tells whether two texts are the same path.
pub fn paths_are_same(a: &str, b: &str) -> (r: bool)
    ensures
        r == same_path(a@, b@),
{
    let x: Vec<Component> = path_components(a);
    let y: Vec<Component> = path_components(b);
    if x.len() != y.len() {
        assert(x.deep_view().len() != y.deep_view().len());
        return false;
    }
    let mut i: usize = 0;
    while i < x.len()
        invariant
            i <= x.len(),
            x.len() == y.len(),
            x.deep_view() == components(a@),
            y.deep_view() == components(b@),
            forall|k: int| 0 <= k < i ==> x.deep_view()[k] == y.deep_view()[k],
        decreases x.len() - i,
    {
        let same: bool = match (&x[i], &y[i]) {
            (Component::RootDir, Component::RootDir) => true,
            (Component::CurDir, Component::CurDir) => true,
            (Component::ParentDir, Component::ParentDir) => true,
            (Component::Normal(p), Component::Normal(q)) => same_text(p.as_str(), q.as_str()),
            _ => false,
        };
        assert(x.deep_view()[i as int] == x@[i as int].deep_view());
        assert(y.deep_view()[i as int] == y@[i as int].deep_view());
        if !same {
            return false;
        }
        i = i + 1;
    }
    assert(x.deep_view() =~= y.deep_view());
    true
}

/// The root of the bundle that a binary may belong to: the directory above
/// the `bin` that it stands in.
pub open spec fn bundle_root_of_binary(binary_path: Seq<char>) -> Option<Seq<char>> {
    match parent_path(binary_path) {
        Some(directory) => if file_name(directory) == Some("bin"@) {
            parent_path(directory)
        } else {
            None
        },
        None => None,
    }
}

/// The root of the bundle that a binary may belong to.
pub fn candidate_bundle_root(binary_path: &str) -> (r: Option<String>)
    ensures
        r.deep_view() == bundle_root_of_binary(binary_path@),
{
    match path_parent(binary_path) {
        Some(directory) => {
            if is_text(&path_file_name(directory.as_str()), "bin") {
                path_parent(directory.as_str())
            } else {
                None
            }
        },
        None => None,
    }
}

/// The bundle that a binary belongs to.
pub open spec fn bundle_of_binary(
    binary_path: Seq<char>,
    bundles: Seq<BundleFilesModel>,
    readings: Seq<ReadingModel<BundleDescriptorModel>>,
) -> Result<Option<DiscoveredBundleModel>, PlanErrorModel> {
    match bundle_root_of_binary(binary_path) {
        None => Ok(None),
        Some(bundle_root) => {
            let bundle = bundle_from(bundles, bundle_root, 0);
            if !is_plain_file(bundle.descriptor) {
                Ok(None)
            } else {
                match descriptor_of(bundle, readings) {
                    Err(error) => Err(error),
                    Ok(descriptor) => if same_path(
                        joined_path(bundle_root, descriptor.binary_path),
                        binary_path,
                    ) {
                        Ok(Some(DiscoveredBundleModel { bundle_root, descriptor }))
                    } else {
                        Ok(None)
                    },
                }
            }
        },
    }
}

/// The bundle that a binary belongs to.
pub fn discover_bundle_from_binary_path(
    binary_path: &str,
    bundles: &Vec<BundleFiles>,
    readings: &Vec<Reading<BundleDescriptor>>,
) -> (r: Result<Option<DiscoveredBundle>, PlanError>)
    ensures
        outcome(r) == bundle_of_binary(binary_path@, bundles.deep_view(), readings.deep_view()),
{
    let bundle_root: String = match candidate_bundle_root(binary_path) {
        Some(root) => root,
        None => {
            return Ok(None);
        },
    };
    let bundle: BundleFiles = bundle_at(bundles, bundle_root.as_str());
    if !content_is_file(&bundle.descriptor) {
        return Ok(None);
    }
    let descriptor: BundleDescriptor = read_descriptor(&bundle, readings)?;
    let expected: String = join_path(bundle_root.as_str(), descriptor.binary_path.as_str());
    if !paths_are_same(expected.as_str(), binary_path) {
        return Ok(None);
    }
    Ok(Some(DiscoveredBundle { bundle_root, descriptor }))
}

/// The bundle of the skill among the entries from `i` on.
pub open spec fn installed_entry_from(
    root: Seq<char>,
    entries: Seq<InstalledEntryModel>,
    readings: Seq<ReadingModel<BundleDescriptorModel>>,
    skill_id: Seq<char>,
    i: int,
) -> Result<Option<DiscoveredBundleModel>, PlanErrorModel>
    decreases entries.len() - i,
{
    if i >= entries.len() {
        Ok(None)
    } else {
        match entries[i] {
            InstalledEntryModel::Broken { source } => Err(failure(source)),
            InstalledEntryModel::Bundle { bundle } => if !is_plain_file(bundle.descriptor) {
                installed_entry_from(root, entries, readings, skill_id, i + 1)
            } else {
                match descriptor_of(bundle, readings) {
                    Err(error) => Err(error),
                    Ok(descriptor) => if descriptor.skill_id == skill_id {
                        Ok(
                            Some(
                                DiscoveredBundleModel { bundle_root: bundle.root, descriptor },
                            ),
                        )
                    } else {
                        installed_entry_from(root, entries, readings, skill_id, i + 1)
                    },
                }
            },
        }
    }
}

/// The bundle of the skill below one place.
pub open spec fn installed_in(
    place: InstalledRootModel,
    readings: Seq<ReadingModel<BundleDescriptorModel>>,
    skill_id: Seq<char>,
) -> Result<Option<DiscoveredBundleModel>, PlanErrorModel> {
    match place.entries {
        InstalledEntriesModel::NoDirectory => Ok(None),
        InstalledEntriesModel::Unreadable { source } => Err(
            failure(source).under("failed to read "@ + place.root),
        ),
        InstalledEntriesModel::Listed { entries } => installed_entry_from(
            place.root,
            entries,
            readings,
            skill_id,
            0,
        ),
    }
}

/// The bundle of the skill below the places from `i` on.
pub open spec fn installed_from(
    places: Seq<InstalledRootModel>,
    readings: Seq<ReadingModel<BundleDescriptorModel>>,
    skill_id: Seq<char>,
    i: int,
) -> Result<DiscoveredBundleModel, PlanErrorModel>
    decreases places.len() - i,
{
    if i >= places.len() {
        Err(failure("failed to discover installed skill "@ + skill_id))
    } else {
        match installed_in(places[i], readings, skill_id) {
            Err(error) => Err(error),
            Ok(Some(bundle)) => Ok(bundle),
            Ok(None) => installed_from(places, readings, skill_id, i + 1),
        }
    }
}

#[verifier::loop_isolation(false)]
fn find_installed_entry(
    place: &InstalledRoot,
    entries: &Vec<InstalledEntry>,
    readings: &Vec<Reading<BundleDescriptor>>,
    skill_id: &str,
) -> (r: Result<Option<DiscoveredBundle>, PlanError>)
    ensures
        outcome(r) == installed_entry_from(
            place.root@,
            entries.deep_view(),
            readings.deep_view(),
            skill_id@,
            0,
        ),
{
    let ghost all = entries.deep_view();
    let ghost read = readings.deep_view();
    let mut i: usize = 0;
    while i < entries.len()
        invariant
            i <= entries.len(),
            installed_entry_from(place.root@, all, read, skill_id@, 0) == installed_entry_from(
                place.root@,
                all,
                read,
                skill_id@,
                i as int,
            ),
        decreases entries.len() - i,
    {
        assert(all[i as int] == entries@[i as int].deep_view());
        match &entries[i] {
            InstalledEntry::Broken { source } => {
                return Err(PlanError::new(source.clone()));
            },
            InstalledEntry::Bundle { bundle } => {
                if content_is_file(&bundle.descriptor) {
                    let descriptor: BundleDescriptor = read_descriptor(bundle, readings)?;
                    if same_text(descriptor.skill_id.as_str(), skill_id) {
                        return Ok(
                            Some(
                                DiscoveredBundle { bundle_root: bundle.root.clone(), descriptor },
                            ),
                        );
                    }
                }
            },
        }
        i = i + 1;
    }
    Ok(None)
}

/// The bundle of an installed skill: the first one below the given places.
#[verifier::loop_isolation(false)]
pub fn discover_installed_skill(
    skill_id: &str,
    places: &Vec<InstalledRoot>,
    readings: &Vec<Reading<BundleDescriptor>>,
) -> (r: Result<DiscoveredBundle, PlanError>)
    ensures
        outcome(r) == installed_from(places.deep_view(), readings.deep_view(), skill_id@, 0),
{
    let ghost all = places.deep_view();
    let ghost read = readings.deep_view();
    let mut i: usize = 0;
    while i < places.len()
        invariant
            i <= places.len(),
            installed_from(all, read, skill_id@, 0) == installed_from(
                all,
                read,
                skill_id@,
                i as int,
            ),
        decreases places.len() - i,
    {
        let place: &InstalledRoot = &places[i];
        assert(all[i as int] == place.deep_view());
        match &place.entries {
            InstalledEntries::NoDirectory => {},
            InstalledEntries::Unreadable { source } => {
                return Err(
                    PlanError::caused(
                        concat2("failed to read ", place.root.as_str()),
                        source.clone(),
                    ),
                );
            },
            InstalledEntries::Listed { entries } => {
                match find_installed_entry(place, entries, readings, skill_id)? {
                    Some(bundle) => {
                        return Ok(bundle);
                    },
                    None => {},
                }
            },
        }
        i = i + 1;
    }
    Err(PlanError::new(concat2("failed to discover installed skill ", skill_id)))
}

/// The paths with one more, unless it is there already.
pub open spec fn with_unique_path(paths: Seq<Seq<char>>, candidate: Seq<char>) -> Seq<Seq<char>> {
    if exists|i: int| 0 <= i < paths.len() && same_path(#[trigger] paths[i], candidate) {
        paths
    } else {
        paths.push(candidate)
    }
}

/// The paths with the skill directories of the agents from `i` on, whose own
/// directories stand below `home`.
pub open spec fn with_agent_roots_from(
    paths: Seq<Seq<char>>,
    home: Seq<char>,
    agents: Seq<Seq<char>>,
    i: int,
) -> Seq<Seq<char>>
    decreases agents.len() - i,
{
    if i >= agents.len() {
        paths
    } else {
        with_agent_roots_from(
            with_unique_path(paths, joined_path(joined_path(home, agents[i]), "skills"@)),
            home,
            agents,
            i + 1,
        )
    }
}

/// The directories that hold installed skills, given the two variables of the
/// environment that lead to them: the one below `CODEX_HOME`, the one of
/// `.codex` below `HOME`, and there those of the other agents.
pub open spec fn default_skill_roots(
    codex_home: Option<Seq<char>>,
    home: Option<Seq<char>>,
    other_agents: Seq<Seq<char>>,
) -> Seq<Seq<char>> {
    let first = match codex_home {
        Some(path) => with_unique_path(Seq::empty(), joined_path(path, "skills"@)),
        None => Seq::empty(),
    };
    match home {
        Some(path) => with_agent_roots_from(
            with_unique_path(first, joined_path(joined_path(path, ".codex"@), "skills"@)),
            path,
            other_agents,
            0,
        ),
        None => first,
    }
}

fn push_unique_path(paths: &mut Vec<String>, candidate: String)
    ensures
        final(paths).deep_view() == with_unique_path(old(paths).deep_view(), candidate@),
{
    let ghost before = paths.deep_view();
    let mut i: usize = 0;
    while i < paths.len()
        invariant
            i <= paths.len(),
            before == paths.deep_view(),
            before == old(paths).deep_view(),
            forall|k: int| 0 <= k < i ==> !same_path(#[trigger] before[k], candidate@),
        decreases paths.len() - i,
    {
        if paths_are_same(paths[i].as_str(), candidate.as_str()) {
            assert(same_path(before[i as int], candidate@));
            return;
        }
        i = i + 1;
    }
    let ghost text = candidate@;
    paths.push(candidate);
    assert(paths.deep_view() =~= before.push(text));
}

/// The directories that hold installed skills, given the values of
/// `CODEX_HOME` and `HOME`, and the directories of the agents other than
/// `.codex` below the latter.
pub fn host_default_installed_skill_roots(
    codex_home: &Option<String>,
    home: &Option<String>,
    other_agents: &Vec<String>,
) -> (r: Vec<String>)
    ensures
        r.deep_view() == default_skill_roots(
            codex_home.deep_view(),
            home.deep_view(),
            other_agents.deep_view(),
        ),
{
    let mut roots: Vec<String> = Vec::new();
    assert(roots.deep_view() =~= Seq::empty());
    match codex_home {
        Some(path) => {
            push_unique_path(&mut roots, join_path(path.as_str(), "skills"));
        },
        None => {},
    }
    match home {
        Some(path) => {
            push_unique_path(
                &mut roots,
                join_path(join_path(path.as_str(), ".codex").as_str(), "skills"),
            );
            let ghost first = roots.deep_view();
            let ghost all = other_agents.deep_view();
            let mut i: usize = 0;
            while i < other_agents.len()
                invariant
                    i <= other_agents.len(),
                    all == other_agents.deep_view(),
                    with_agent_roots_from(first, path@, all, 0) == with_agent_roots_from(
                        roots.deep_view(),
                        path@,
                        all,
                        i as int,
                    ),
                decreases other_agents.len() - i,
            {
                assert(all[i as int] == other_agents@[i as int].deep_view());
                push_unique_path(
                    &mut roots,
                    join_path(
                        join_path(path.as_str(), other_agents[i].as_str()).as_str(),
                        "skills",
                    ),
                );
                i = i + 1;
            }
        },
        None => {},
    }
    roots
}

/// What stands at a place, going by the places from `i` on.
pub open spec fn place_from(places: Seq<InstalledRootModel>, root: Seq<char>, i: int) -> InstalledRootModel
    decreases places.len() - i,
{
    if i >= places.len() {
        InstalledRootModel { root, entries: InstalledEntriesModel::NoDirectory }
    } else if places[i].root == root {
        places[i]
    } else {
        place_from(places, root, i + 1)
    }
}

/// What stands at each of the roots.
pub open spec fn places_at(places: Seq<InstalledRootModel>, roots: Seq<Seq<char>>) -> Seq<
    InstalledRootModel,
> {
    Seq::new(roots.len(), |i: int| place_from(places, roots[i], 0))
}

fn place_at(places: &Vec<InstalledRoot>, root: &str) -> (r: InstalledRoot)
    ensures
        r.deep_view() == place_from(places.deep_view(), root@, 0),
{
    let ghost all = places.deep_view();
    let mut i: usize = 0;
    while i < places.len()
        invariant
            i <= places.len(),
            all == places.deep_view(),
            place_from(all, root@, 0) == place_from(all, root@, i as int),
        decreases places.len() - i,
    {
        assert(all[i as int] == places@[i as int].deep_view());
        if same_text(places[i].root.as_str(), root) {
            return places[i].clone();
        }
        i = i + 1;
    }
    InstalledRoot { root: root.to_owned(), entries: InstalledEntries::NoDirectory }
}

/// The bundle of a skill that is installed where the environment says, given
/// what stands at the places that it may name.
pub fn discover_installed_skill_in_default_roots(
    skill_id: &str,
    codex_home: &Option<String>,
    home: &Option<String>,
    other_agents: &Vec<String>,
    places: &Vec<InstalledRoot>,
    readings: &Vec<Reading<BundleDescriptor>>,
) -> (r: Result<DiscoveredBundle, PlanError>)
    ensures
        outcome(r) == installed_from(
            places_at(
                places.deep_view(),
                default_skill_roots(
                    codex_home.deep_view(),
                    home.deep_view(),
                    other_agents.deep_view(),
                ),
            ),
            readings.deep_view(),
            skill_id@,
            0,
        ),
{
    let roots: Vec<String> = host_default_installed_skill_roots(
        codex_home,
        home,
        other_agents,
    );
    let mut found: Vec<InstalledRoot> = Vec::new();
    let mut i: usize = 0;
    while i < roots.len()
        invariant
            i <= roots.len(),
            found.deep_view() == places_at(places.deep_view(), roots.deep_view()).take(i as int),
        decreases roots.len() - i,
    {
        let ghost before = found.deep_view();
        let place: InstalledRoot = place_at(places, roots[i].as_str());
        found.push(place);
        assert(found.deep_view() =~= before.push(place.deep_view()));
        i = i + 1;
        assert(found.deep_view() =~= places_at(places.deep_view(), roots.deep_view()).take(
            i as int,
        ));
    }
    assert(found.deep_view() =~= places_at(places.deep_view(), roots.deep_view()));
    discover_installed_skill(skill_id, &found, readings)
}

/// The first registration at or after `i` that answers to the id.
pub open spec fn loader_from<T>(
    registrations: Seq<LoaderRegistration<T>>,
    loader_id: Seq<char>,
    i: int,
) -> Option<T>
    decreases registrations.len() - i,
{
    if i >= registrations.len() {
        None
    } else if registrations[i].loader_id@ == loader_id {
        Some(registrations[i].loader)
    } else {
        loader_from(registrations, loader_id, i + 1)
    }
}

/// The loader that answers to an id.
pub fn dispatch_loader<'a, T>(loader_id: &str, registrations: &'a [LoaderRegistration<T>]) -> (r:
    Result<&'a T, PlanError>)
    ensures
        match r {
            Ok(loader) => loader_from(registrations@, loader_id@, 0) == Some(*loader),
            Err(error) => loader_from(registrations@, loader_id@, 0) is None && error.deep_view()
                == failure("no loader registered for "@ + loader_id@),
        },
{
    let mut i: usize = 0;
    while i < registrations.len()
        invariant
            i <= registrations@.len(),
            loader_from(registrations@, loader_id@, 0) == loader_from(
                registrations@,
                loader_id@,
                i as int,
            ),
        decreases registrations@.len() - i,
    {
        if same_text(registrations[i].loader_id, loader_id) {
            return Ok(&registrations[i].loader);
        }
        i = i + 1;
    }
    Err(PlanError::new(concat2("no loader registered for ", loader_id)))
}

} // verus!
