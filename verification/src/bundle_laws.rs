//! Which bundle a skill is run from: one that says that it is that skill, and the
//! first that does.
use crate::bundle::{
    bundle_from, bundle_of_binary, default_skill_roots, descriptor_of, development_skill_of,
    installed_entry_from, installed_from, installed_in, is_plain_file, loader_from, places_at,
    registered_development_skill, registration_from, registry_of, same_path, with_agent_roots_from,
    with_unique_path, BundleDescriptorModel, BundleFilesModel, DevelopmentRegistryModel,
    DevelopmentSkillRegistrationModel, InstalledEntriesModel, InstalledEntryModel,
    InstalledRootModel, LoaderRegistration, ReadingModel,
};
use crate::error::PlanErrorModel;
use crate::files::FileContentModel;
use crate::paths::{components, file_name, joined_path, parent_path};
use crate::runtime::dispatch::{skill_bundle, SkillSurroundingsModel};
use crate::skill::{skill_descriptor, SkillFilesModel};
use vstd::prelude::*;

verus! {

// ---------------------------------------------------------------------
// Bundles under development
// ---------------------------------------------------------------------
/// Registration `k` is the first of the skill.
pub open spec fn is_first_registration(
    skills: Seq<DevelopmentSkillRegistrationModel>,
    skill_id: Seq<char>,
    k: int,
) -> bool {
    &&& 0 <= k < skills.len()
    &&& skills[k].skill_id == skill_id
    &&& forall|j: int| 0 <= j < k ==> (#[trigger] skills[j]).skill_id != skill_id
}

proof fn first_registration_is_found(
    skills: Seq<DevelopmentSkillRegistrationModel>,
    skill_id: Seq<char>,
    i: int,
)
    requires
        0 <= i <= skills.len(),
        forall|j: int| 0 <= j < i ==> (#[trigger] skills[j]).skill_id != skill_id,
    ensures
        match registration_from(skills, skill_id, i) {
            Some(registration) => exists|k: int| #[trigger]
                is_first_registration(skills, skill_id, k) && skills[k] == registration,
            None => forall|k: int|
                0 <= k < skills.len() ==> (#[trigger] skills[k]).skill_id != skill_id,
        },
    decreases skills.len() - i,
{
    if i < skills.len() {
        if skills[i].skill_id == skill_id {
            assert(is_first_registration(skills, skill_id, i));
        } else {
            first_registration_is_found(skills, skill_id, i + 1);
        }
    }
}

/// A bundle under development is the one that the first registration of the skill
/// leads to, below the workspace; its descriptor names the same skill, the same
/// loader and the same manifest. It is refused where one of these differs.
pub proof fn development_bundles_say_the_same(
    workspace_root: Seq<char>,
    registry: DevelopmentRegistryModel,
    bundles: Seq<BundleFilesModel>,
    readings: Seq<ReadingModel<BundleDescriptorModel>>,
    skill_id: Seq<char>,
)
    ensures
        ({
            let found = development_skill_of(
                workspace_root,
                Ok(registry),
                bundles,
                readings,
                skill_id,
            );
            &&& found matches Ok(skill) ==> {
                &&& exists|k: int| #[trigger]
                    is_first_registration(registry.skills, skill_id, k) && registry.skills[k]
                        == skill.registration
                &&& skill.bundle_root == joined_path(
                    workspace_root,
                    skill.registration.source_root,
                )
                &&& descriptor_of(bundle_from(bundles, skill.bundle_root, 0), readings) == Ok::<
                    _,
                    PlanErrorModel,
                >(skill.descriptor)
                &&& skill.descriptor.skill_id == skill_id
                &&& skill.descriptor.loader_id == skill.registration.loader_id
                &&& skill.descriptor.internal_manifest == skill.registration.internal_manifest
            }
            &&& forall|k: int| #[trigger]
                is_first_registration(registry.skills, skill_id, k) ==> {
                    let registration = registry.skills[k];
                    let read = descriptor_of(
                        bundle_from(
                            bundles,
                            joined_path(workspace_root, registration.source_root),
                            0,
                        ),
                        readings,
                    );
                    found is Ok <==> (read matches Ok(descriptor) && descriptor.skill_id == skill_id
                        && descriptor.loader_id == registration.loader_id
                        && descriptor.internal_manifest == registration.internal_manifest)
                }
        }),
{
    first_registration_is_found(registry.skills, skill_id, 0);
    let found = development_skill_of(workspace_root, Ok(registry), bundles, readings, skill_id);
    assert forall|k: int| #[trigger]
        is_first_registration(registry.skills, skill_id, k) implies registration_from(
        registry.skills,
        skill_id,
        0,
    ) == Some(registry.skills[k]) by {
        let registration = registration_from(registry.skills, skill_id, 0)->0;
        let m = choose|m: int| #[trigger]
            is_first_registration(registry.skills, skill_id, m) && registry.skills[m]
                == registration;
        if k < m {
            assert(registry.skills[k].skill_id != skill_id);
        } else if m < k {
            assert(registry.skills[m].skill_id != skill_id);
        }
    }
}

/// A workspace has no bundle under development where its registry is no file or
/// does not name the skill; where it does, it has the one that the registry leads
/// to.
pub proof fn unregistered_skills_have_no_development_bundle(
    workspace_root: Seq<char>,
    content: Option<FileContentModel>,
    registry_readings: Seq<ReadingModel<DevelopmentRegistryModel>>,
    bundles: Seq<BundleFilesModel>,
    readings: Seq<ReadingModel<BundleDescriptorModel>>,
    skill_id: Seq<char>,
)
    ensures
        ({
            let found = registered_development_skill(
                workspace_root,
                content,
                registry_readings,
                bundles,
                readings,
                skill_id,
            );
            let registry = registry_of(workspace_root, content, registry_readings);
            &&& content is None ==> found is Ok && found->Ok_0 is None
            &&& content is Some && content->0 is Directory ==> found is Ok && found->Ok_0 is None
            &&& is_plain_file(content) && registry is Err ==> found is Err
            &&& is_plain_file(content) && (registry matches Ok(known) && forall|k: int|
                0 <= k < known.skills.len() ==> (#[trigger] known.skills[k]).skill_id != skill_id)
                ==> found is Ok && found->Ok_0 is None
            &&& is_plain_file(content) && (registry matches Ok(known) && exists|k: int|
                0 <= k < known.skills.len() && (#[trigger] known.skills[k]).skill_id == skill_id)
                ==> match development_skill_of(
                workspace_root,
                registry,
                bundles,
                readings,
                skill_id,
            ) {
                Ok(skill) => found == Ok::<_, PlanErrorModel>(Some(skill)),
                Err(_) => found is Err,
            }
        }),
{
    if let Ok(known) = registry_of(workspace_root, content, registry_readings) {
        first_registration_is_found(known.skills, skill_id, 0);
    }
}

// ---------------------------------------------------------------------
// The bundle of a binary
// ---------------------------------------------------------------------
/// A binary belongs to a bundle only where it stands in the `bin` of its root and
/// the descriptor of that bundle names just this binary.
pub proof fn binaries_belong_to_the_bundle_that_names_them(
    binary_path: Seq<char>,
    bundles: Seq<BundleFilesModel>,
    readings: Seq<ReadingModel<BundleDescriptorModel>>,
)
    ensures
        bundle_of_binary(binary_path, bundles, readings) matches Ok(Some(found)) ==> {
            &&& parent_path(binary_path) matches Some(directory) && file_name(directory) == Some(
                "bin"@,
            ) && parent_path(directory) == Some(found.bundle_root)
            &&& descriptor_of(bundle_from(bundles, found.bundle_root, 0), readings) == Ok::<
                _,
                PlanErrorModel,
            >(found.descriptor)
            &&& components(joined_path(found.bundle_root, found.descriptor.binary_path))
                == components(binary_path)
        },
        (parent_path(binary_path) matches Some(directory) && file_name(directory) == Some("bin"@)
            && (parent_path(directory) matches Some(root) && is_plain_file(
            bundle_from(bundles, root, 0).descriptor,
        ) && (descriptor_of(bundle_from(bundles, root, 0), readings) matches Ok(descriptor)
            && components(joined_path(root, descriptor.binary_path)) == components(binary_path))))
            ==> bundle_of_binary(binary_path, bundles, readings) is Ok && bundle_of_binary(
            binary_path,
            bundles,
            readings,
        )->Ok_0 is Some,
{
}

// ---------------------------------------------------------------------
// Installed bundles
// ---------------------------------------------------------------------
/// The entry is passed over: it has no descriptor, or one of another skill.
pub open spec fn is_passed_over(
    entry: InstalledEntryModel,
    readings: Seq<ReadingModel<BundleDescriptorModel>>,
    skill_id: Seq<char>,
) -> bool {
    entry matches InstalledEntryModel::Bundle { bundle } && (!is_plain_file(bundle.descriptor) || (
    descriptor_of(bundle, readings) matches Ok(descriptor) && descriptor.skill_id != skill_id))
}

/// The entry is the bundle of the skill.
pub open spec fn is_skill_entry(
    entry: InstalledEntryModel,
    readings: Seq<ReadingModel<BundleDescriptorModel>>,
    skill_id: Seq<char>,
    root: Seq<char>,
    descriptor: BundleDescriptorModel,
) -> bool {
    entry matches InstalledEntryModel::Bundle { bundle } && bundle.root == root && is_plain_file(
        bundle.descriptor,
    ) && descriptor_of(bundle, readings) == Ok::<_, PlanErrorModel>(descriptor)
        && descriptor.skill_id == skill_id
}

proof fn first_entry_is_found(
    root: Seq<char>,
    entries: Seq<InstalledEntryModel>,
    readings: Seq<ReadingModel<BundleDescriptorModel>>,
    skill_id: Seq<char>,
    i: int,
)
    requires
        0 <= i <= entries.len(),
        forall|j: int| 0 <= j < i ==> is_passed_over(#[trigger] entries[j], readings, skill_id),
    ensures
        match installed_entry_from(root, entries, readings, skill_id, i) {
            Ok(Some(found)) => exists|k: int|
                0 <= k < entries.len() && is_skill_entry(
                    #[trigger] entries[k],
                    readings,
                    skill_id,
                    found.bundle_root,
                    found.descriptor,
                ) && forall|j: int|
                    0 <= j < k ==> is_passed_over(#[trigger] entries[j], readings, skill_id),
            Ok(None) => forall|j: int|
                0 <= j < entries.len() ==> is_passed_over(
                    #[trigger] entries[j],
                    readings,
                    skill_id,
                ),
            Err(_) => true,
        },
    decreases entries.len() - i,
{
    if i < entries.len() {
        if is_passed_over(entries[i], readings, skill_id) {
            first_entry_is_found(root, entries, readings, skill_id, i + 1);
        } else if let Ok(Some(found)) = installed_entry_from(root, entries, readings, skill_id, i) {
            assert(is_skill_entry(
                entries[i],
                readings,
                skill_id,
                found.bundle_root,
                found.descriptor,
            ));
        }
    }
}

/// Nothing at the place is the bundle of the skill.
pub open spec fn lacks_skill(
    place: InstalledRootModel,
    readings: Seq<ReadingModel<BundleDescriptorModel>>,
    skill_id: Seq<char>,
) -> bool {
    match place.entries {
        InstalledEntriesModel::NoDirectory => true,
        InstalledEntriesModel::Unreadable { source } => false,
        InstalledEntriesModel::Listed { entries } => forall|j: int|
            0 <= j < entries.len() ==> is_passed_over(#[trigger] entries[j], readings, skill_id),
    }
}

/// The first entry at the place that is not passed over is the bundle of the skill.
pub open spec fn has_skill(
    place: InstalledRootModel,
    readings: Seq<ReadingModel<BundleDescriptorModel>>,
    skill_id: Seq<char>,
    root: Seq<char>,
    descriptor: BundleDescriptorModel,
) -> bool {
    place.entries matches InstalledEntriesModel::Listed { entries } && exists|k: int|
        0 <= k < entries.len() && is_skill_entry(
            #[trigger] entries[k],
            readings,
            skill_id,
            root,
            descriptor,
        ) && forall|j: int|
            0 <= j < k ==> is_passed_over(#[trigger] entries[j], readings, skill_id)
}

proof fn first_place_is_found(
    places: Seq<InstalledRootModel>,
    readings: Seq<ReadingModel<BundleDescriptorModel>>,
    skill_id: Seq<char>,
    i: int,
)
    requires
        0 <= i <= places.len(),
        forall|j: int| 0 <= j < i ==> lacks_skill(#[trigger] places[j], readings, skill_id),
    ensures
        installed_from(places, readings, skill_id, i) matches Ok(found) ==> exists|k: int|
            0 <= k < places.len() && has_skill(
                #[trigger] places[k],
                readings,
                skill_id,
                found.bundle_root,
                found.descriptor,
            ) && forall|j: int|
                0 <= j < k ==> lacks_skill(#[trigger] places[j], readings, skill_id),
    decreases places.len() - i,
{
    if i < places.len() {
        if let InstalledEntriesModel::Listed { entries } = places[i].entries {
            first_entry_is_found(places[i].root, entries, readings, skill_id, 0);
        }
        match installed_in(places[i], readings, skill_id) {
            Ok(Some(found)) => {
                assert(has_skill(
                    places[i],
                    readings,
                    skill_id,
                    found.bundle_root,
                    found.descriptor,
                ));
            },
            Ok(None) => {
                assert(lacks_skill(places[i], readings, skill_id));
                first_place_is_found(places, readings, skill_id, i + 1);
            },
            Err(_) => {},
        }
    }
}

/// An installed skill is the first that says that it is the skill: first by the
/// places, then by what stands there. Where none does, none is found.
pub proof fn installed_skills_are_the_first_that_say_so(
    places: Seq<InstalledRootModel>,
    readings: Seq<ReadingModel<BundleDescriptorModel>>,
    skill_id: Seq<char>,
)
    ensures
        installed_from(places, readings, skill_id, 0) matches Ok(found) ==> {
            &&& found.descriptor.skill_id == skill_id
            &&& exists|k: int|
                0 <= k < places.len() && has_skill(
                    #[trigger] places[k],
                    readings,
                    skill_id,
                    found.bundle_root,
                    found.descriptor,
                ) && forall|j: int|
                    0 <= j < k ==> lacks_skill(#[trigger] places[j], readings, skill_id)
        },
        (forall|k: int|
            0 <= k < places.len() ==> lacks_skill(#[trigger] places[k], readings, skill_id))
            ==> installed_from(places, readings, skill_id, 0) is Err,
{
    first_place_is_found(places, readings, skill_id, 0);
    if let Ok(found) = installed_from(places, readings, skill_id, 0) {
        let k = choose|k: int|
            0 <= k < places.len() && has_skill(
                #[trigger] places[k],
                readings,
                skill_id,
                found.bundle_root,
                found.descriptor,
            ) && forall|j: int|
                0 <= j < k ==> lacks_skill(#[trigger] places[j], readings, skill_id);
        let entries = places[k].entries->entries;
        let e = choose|e: int|
            0 <= e < entries.len() && is_skill_entry(
                #[trigger] entries[e],
                readings,
                skill_id,
                found.bundle_root,
                found.descriptor,
            ) && forall|j: int|
                0 <= j < e ==> is_passed_over(#[trigger] entries[j], readings, skill_id);
        assert(is_skill_entry(
            entries[e],
            readings,
            skill_id,
            found.bundle_root,
            found.descriptor,
        ));
        assert(!is_passed_over(entries[e], readings, skill_id));
        if forall|m: int|
            0 <= m < places.len() ==> lacks_skill(#[trigger] places[m], readings, skill_id) {
            assert(lacks_skill(places[k], readings, skill_id));
        }
    }
}

// ---------------------------------------------------------------------
// Where skills are installed
// ---------------------------------------------------------------------
/// One of the paths is this one.
pub open spec fn has_path(paths: Seq<Seq<char>>, path: Seq<char>) -> bool {
    exists|i: int| 0 <= i < paths.len() && components(#[trigger] paths[i]) == components(path)
}

/// No two of the paths are the same.
pub open spec fn are_distinct_paths(paths: Seq<Seq<char>>) -> bool {
    forall|i: int, j: int|
        0 <= i < j < paths.len() ==> components(#[trigger] paths[i]) != components(
            #[trigger] paths[j],
        )
}

proof fn one_path_more(paths: Seq<Seq<char>>, candidate: Seq<char>, path: Seq<char>)
    requires
        are_distinct_paths(paths),
    ensures
        are_distinct_paths(with_unique_path(paths, candidate)),
        has_path(with_unique_path(paths, candidate), path) <==> has_path(paths, path)
            || components(path) == components(candidate),
{
    let next = with_unique_path(paths, candidate);
    if exists|i: int| 0 <= i < paths.len() && same_path(#[trigger] paths[i], candidate) {
        let i = choose|i: int| 0 <= i < paths.len() && same_path(#[trigger] paths[i], candidate);
        assert(components(paths[i]) == components(candidate));
    } else {
        assert(next[paths.len() as int] == candidate);
        assert forall|i: int, j: int| 0 <= i < j < next.len() implies components(#[trigger] next[i])
            != components(#[trigger] next[j]) by {
            assert(next[i] == paths[i]);
            if j < paths.len() {
                assert(next[j] == paths[j]);
            } else {
                assert(!same_path(paths[i], candidate));
            }
        }
        if has_path(paths, path) {
            let i = choose|i: int|
                0 <= i < paths.len() && components(#[trigger] paths[i]) == components(path);
            assert(components(next[i]) == components(path));
        }
        if has_path(next, path) {
            let i = choose|i: int|
                0 <= i < next.len() && components(#[trigger] next[i]) == components(path);
            if i < paths.len() {
                assert(components(paths[i]) == components(path));
            }
        }
        if components(path) == components(candidate) {
            assert(components(next[paths.len() as int]) == components(path));
        }
    }
}

/// The path is that of the skills of one of the agents from `i` on.
pub open spec fn is_agent_place(
    home: Seq<char>,
    agents: Seq<Seq<char>>,
    i: int,
    path: Seq<char>,
) -> bool {
    exists|k: int|
        i <= k < agents.len() && components(path) == components(
            joined_path(joined_path(home, #[trigger] agents[k]), "skills"@),
        )
}

proof fn agent_places_are_taken_up(
    paths: Seq<Seq<char>>,
    home: Seq<char>,
    agents: Seq<Seq<char>>,
    i: int,
    path: Seq<char>,
)
    requires
        0 <= i <= agents.len(),
        are_distinct_paths(paths),
    ensures
        are_distinct_paths(with_agent_roots_from(paths, home, agents, i)),
        has_path(with_agent_roots_from(paths, home, agents, i), path) <==> has_path(paths, path)
            || is_agent_place(home, agents, i, path),
    decreases agents.len() - i,
{
    if i < agents.len() {
        let place = joined_path(joined_path(home, agents[i]), "skills"@);
        one_path_more(paths, place, path);
        agent_places_are_taken_up(with_unique_path(paths, place), home, agents, i + 1, path);
        if is_agent_place(home, agents, i, path) {
            let k = choose|k: int|
                i <= k < agents.len() && components(path) == components(
                    joined_path(joined_path(home, #[trigger] agents[k]), "skills"@),
                );
            if k > i {
                assert(is_agent_place(home, agents, i + 1, path));
            }
        }
        if is_agent_place(home, agents, i + 1, path) {
            let k = choose|k: int|
                i + 1 <= k < agents.len() && components(path) == components(
                    joined_path(joined_path(home, #[trigger] agents[k]), "skills"@),
                );
            assert(is_agent_place(home, agents, i, path));
        }
        if components(path) == components(place) {
            assert(is_agent_place(home, agents, i, path));
        }
    }
}

/// Skills are looked for below the home of the agent, where one is given, and below
/// the directory of each agent in the home of the user, each place once.
pub proof fn skills_are_looked_for_at_every_agent(
    codex_home: Option<Seq<char>>,
    home: Option<Seq<char>>,
    other_agents: Seq<Seq<char>>,
    path: Seq<char>,
)
    ensures
        ({
            let roots = default_skill_roots(codex_home, home, other_agents);
            &&& are_distinct_paths(roots)
            &&& has_path(roots, path) <==> {
                ||| codex_home matches Some(own) && components(path) == components(
                    joined_path(own, "skills"@),
                )
                ||| home matches Some(user) && (components(path) == components(
                    joined_path(joined_path(user, ".codex"@), "skills"@),
                ) || is_agent_place(user, other_agents, 0, path))
            }
        }),
{
    let none = Seq::<Seq<char>>::empty();
    let first = match codex_home {
        Some(own) => with_unique_path(none, joined_path(own, "skills"@)),
        None => none,
    };
    assert(!has_path(none, path));
    if let Some(own) = codex_home {
        one_path_more(none, joined_path(own, "skills"@), path);
    }
    if let Some(user) = home {
        let place = joined_path(joined_path(user, ".codex"@), "skills"@);
        one_path_more(first, place, path);
        agent_places_are_taken_up(with_unique_path(first, place), user, other_agents, 0, path);
    }
}

// ---------------------------------------------------------------------
// The skill that is run
// ---------------------------------------------------------------------
/// The bundle that is run says that it is the skill and has its loader; the binary
/// is the one that it names. It is the one of the running binary where that belongs
/// to one, else the one under development, else the installed one.
pub proof fn skills_are_run_from_their_bundle(
    workspace_root: Seq<char>,
    known: SkillSurroundingsModel,
)
    ensures
        skill_bundle(workspace_root, known) matches Ok(run) ==> {
            let read = skill_descriptor(
                bundle_from(known.bundles, run.bundle_root, 0),
                known.readings,
            );
            &&& read matches Ok(descriptor) && descriptor.skill_id == "loopy:gen-plan"@
                && descriptor.loader_id == "loopy.gen-plan.v1"@ && run.bundle_bin == joined_path(
                run.bundle_root,
                descriptor.binary_path,
            )
            &&& match bundle_of_binary(known.current_exe, known.bundles, known.readings) {
                Err(_) => false,
                Ok(Some(own)) => run.bundle_root == own.bundle_root,
                Ok(None) => match registered_development_skill(
                    workspace_root,
                    known.registry,
                    known.registry_readings,
                    known.bundles,
                    known.readings,
                    "loopy:gen-plan"@,
                ) {
                    Err(_) => false,
                    Ok(Some(developed)) => run.bundle_root == developed.bundle_root,
                    Ok(None) => installed_from(
                        places_at(
                            known.places,
                            default_skill_roots(
                                known.codex_home,
                                known.home,
                                known.other_agents,
                            ),
                        ),
                        known.readings,
                        "loopy:gen-plan"@,
                        0,
                    ) matches Ok(installed) && run.bundle_root == installed.bundle_root,
                },
            }
        },
{
}

/// The manifest that is read is that of the skill: its descriptor and its manifest
/// say so, and the place that it is installed at by default is one of its places.
pub proof fn manifests_are_those_of_the_skill(skill: SkillFilesModel)
    ensures
        skill.manifest() matches Ok(manifest) ==> {
            &&& skill.descriptor() matches Ok(descriptor) && descriptor.skill_id
                == "loopy:gen-plan"@ && descriptor.loader_id == "loopy.gen-plan.v1"@
            &&& manifest.skill.name == "loopy:gen-plan"@
            &&& exists|k: int|
                0 <= k < manifest.skill.install_targets.len() && (
                #[trigger] manifest.skill.install_targets[k]).name
                    == manifest.skill.default_install_target
        },
{
}

proof fn first_loader_is_found<T>(
    registrations: Seq<LoaderRegistration<T>>,
    loader_id: Seq<char>,
    i: int,
)
    requires
        0 <= i <= registrations.len(),
        forall|j: int| 0 <= j < i ==> (#[trigger] registrations[j]).loader_id@ != loader_id,
    ensures
        match loader_from(registrations, loader_id, i) {
            Some(loader) => exists|k: int|
                0 <= k < registrations.len() && (#[trigger] registrations[k]).loader_id@
                    == loader_id && registrations[k].loader == loader && forall|j: int|
                    0 <= j < k ==> (#[trigger] registrations[j]).loader_id@ != loader_id,
            None => forall|j: int|
                0 <= j < registrations.len() ==> (#[trigger] registrations[j]).loader_id@
                    != loader_id,
        },
    decreases registrations.len() - i,
{
    if i < registrations.len() && registrations[i].loader_id@ != loader_id {
        first_loader_is_found(registrations, loader_id, i + 1);
    }
}

/// The loader that answers to an id is the first that is registered under it, and
/// there is one exactly where one is.
pub proof fn loaders_answer_to_their_id<T>(
    registrations: Seq<LoaderRegistration<T>>,
    loader_id: Seq<char>,
)
    ensures
        match loader_from(registrations, loader_id, 0) {
            Some(loader) => exists|k: int|
                0 <= k < registrations.len() && (#[trigger] registrations[k]).loader_id@
                    == loader_id && registrations[k].loader == loader && forall|j: int|
                    0 <= j < k ==> (#[trigger] registrations[j]).loader_id@ != loader_id,
            None => forall|j: int|
                0 <= j < registrations.len() ==> (#[trigger] registrations[j]).loader_id@
                    != loader_id,
        },
{
    first_loader_is_found(registrations, loader_id, 0);
}

} // verus!
