use loopy_gen_plan::bundle::{BundleDescriptor, Reading};
use loopy_gen_plan::error::PlanError;
use loopy_gen_plan::files::{FileContent, PlanFiles, PlanRootKind};
use loopy_gen_plan::skill::{
    load_bundle_descriptor, load_domain_contract_prompt, load_frontier_runtime_prompt,
    load_leaf_runtime_prompt, load_manifest, load_prompt_template, load_task_type_config,
    load_task_type_role_definition, resolve_executor_command, resolve_executor_cwd,
    resolve_gate_roles, split_role_markdown, validate_placeholder_bundle,
    validate_task_type_identifier, ExecutorEntry, ExecutorProfile, InstallTarget, Manifest,
    RoleFrontMatter, SkillConfig, SkillFiles, TaskTypeConfig,
};

const SKILL_ROOT: &str = "/skills/gen-plan";

fn table_of(text: &str) -> Result<toml::Table, String> {
    toml::from_str::<toml::Table>(text).map_err(|error| error.to_string())
}

fn text_of(table: &toml::Table, key: &str) -> Result<String, String> {
    match table.get(key) {
        Some(toml::Value::String(text)) => Ok(text.clone()),
        _ => Err(format!("missing field `{key}`")),
    }
}

fn list_of(table: &toml::Table, key: &str) -> Result<Vec<String>, String> {
    match table.get(key) {
        Some(toml::Value::Array(values)) => values
            .iter()
            .map(|value| match value {
                toml::Value::String(text) => Ok(text.clone()),
                _ => Err(format!("invalid type in `{key}`")),
            })
            .collect(),
        _ => Err(format!("missing field `{key}`")),
    }
}

fn section_of<'a>(table: &'a toml::Table, key: &str) -> Result<&'a toml::Table, String> {
    match table.get(key) {
        Some(toml::Value::Table(section)) => Ok(section),
        _ => Err(format!("missing field `{key}`")),
    }
}

fn parse_descriptor(text: &str) -> Result<BundleDescriptor, String> {
    let table = table_of(text)?;
    Ok(BundleDescriptor {
        skill_id: text_of(&table, "skill_id")?,
        skill_kind: text_of(&table, "skill_kind")?,
        version: text_of(&table, "version")?,
        loader_id: text_of(&table, "loader_id")?,
        root_entry: text_of(&table, "root_entry")?,
        binary_path: text_of(&table, "binary_path")?,
        internal_manifest: text_of(&table, "internal_manifest")?,
    })
}

fn parse_manifest(text: &str) -> Result<Manifest, String> {
    let table = table_of(text)?;
    let skill = section_of(&table, "skill")?;
    let mut install_targets = Vec::new();
    for (name, value) in section_of(skill, "install_targets")? {
        match value {
            toml::Value::String(path) => install_targets.push(InstallTarget {
                name: name.clone(),
                path: path.clone(),
            }),
            _ => return Err("invalid type in `install_targets`".to_owned()),
        }
    }
    let mut executors = Vec::new();
    for (name, value) in section_of(&table, "executors")? {
        let profile = match value {
            toml::Value::Table(profile) => profile,
            _ => return Err("invalid type in `executors`".to_owned()),
        };
        executors.push(ExecutorEntry {
            name: name.clone(),
            profile: ExecutorProfile {
                kind: text_of(profile, "kind")?,
                command: text_of(profile, "command")?,
                args: list_of(profile, "args")?,
                cwd: text_of(profile, "cwd")?,
                timeout_sec: match profile.get("timeout_sec") {
                    Some(toml::Value::Integer(seconds)) => *seconds,
                    _ => return Err("missing field `timeout_sec`".to_owned()),
                },
                transcript_capture: text_of(profile, "transcript_capture")?,
                env_allow: list_of(profile, "env_allow").ok(),
            },
        });
    }
    Ok(Manifest {
        skill: SkillConfig {
            name: text_of(skill, "name")?,
            default_install_target: text_of(skill, "default_install_target")?,
            install_targets,
        },
        executors,
    })
}

fn parse_task_type(text: &str) -> Result<TaskTypeConfig, String> {
    let table = table_of(text)?;
    Ok(TaskTypeConfig {
        task_type: text_of(&table, "task_type")?,
        default_leaf_reviewer: text_of(&table, "default_leaf_reviewer")?,
        default_frontier_reviewer: text_of(&table, "default_frontier_reviewer")?,
    })
}

fn parse_front_matter(text: &str) -> Result<RoleFrontMatter, String> {
    let table = table_of(text)?;
    Ok(RoleFrontMatter {
        role: text_of(&table, "role")?,
        executor: text_of(&table, "executor")?,
    })
}

fn empty_skill() -> SkillFiles {
    SkillFiles {
        root: SKILL_ROOT.to_owned(),
        files: PlanFiles::new(PlanRootKind::Directory),
        descriptors: Vec::new(),
        manifests: Vec::new(),
        task_types: Vec::new(),
        front_matters: Vec::new(),
    }
}

fn write(skill: &mut SkillFiles, path: &str, text: &str) {
    skill.files.load(
        path.to_owned(),
        FileContent::Text {
            text: text.to_owned(),
        },
    );
    if path == "bundle.toml" {
        skill.descriptors.push(Reading {
            text: text.to_owned(),
            parsed: parse_descriptor(text),
        });
    } else if path.ends_with("task-type.toml") {
        skill.task_types.push(Reading {
            text: text.to_owned(),
            parsed: parse_task_type(text),
        });
    } else if path.ends_with(".toml") {
        skill.manifests.push(Reading {
            text: text.to_owned(),
            parsed: parse_manifest(text),
        });
    } else if path.starts_with("roles/") {
        if let Ok((front_matter, _)) = split_role_markdown(text) {
            let parsed = parse_front_matter(&front_matter);
            skill.front_matters.push(Reading {
                text: front_matter,
                parsed,
            });
        }
    }
}

fn write_valid_bundle(skill: &mut SkillFiles) {
    write(skill, "SKILL.md", "# gen-plan\n");
    write(skill, "bin/loopy-gen-plan", "#!/bin/sh\nexit 0\n");
    write(
        skill,
        "bundle.toml",
        &[
            "skill_id = \"loopy:gen-plan\"",
            "skill_kind = \"plan_generation\"",
            "version = \"0.1.0\"",
            "loader_id = \"loopy.gen-plan.v1\"",
            "root_entry = \"SKILL.md\"",
            "binary_path = \"bin/loopy-gen-plan\"",
            "internal_manifest = \"gen-plan.toml\"",
            "",
        ]
        .join("\n"),
    );
    write(
        skill,
        "gen-plan.toml",
        &[
            "[skill]",
            "name = \"loopy:gen-plan\"",
            "default_install_target = \"codex\"",
            "",
            "[skill.install_targets]",
            "codex = \"$HOME/.codex/skills/loopy-gen-plan\"",
            "",
            "[executors.codex_leaf_reviewer]",
            "kind = \"local_command\"",
            "command = \"codex\"",
            "args = [\"exec\"]",
            "cwd = \"project\"",
            "timeout_sec = 60",
            "transcript_capture = \"stdio\"",
            "",
            "[executors.codex_frontier_reviewer]",
            "kind = \"local_command\"",
            "command = \"codex\"",
            "args = [\"exec\"]",
            "cwd = \"project\"",
            "timeout_sec = 60",
            "transcript_capture = \"stdio\"",
            "",
        ]
        .join("\n"),
    );
    write(skill, "prompts/domain_contract.md", "domain");
    write(skill, "prompts/leaf_runtime.md", "leaf");
    write(skill, "prompts/frontier_runtime.md", "frontier");
}

fn write_task_type_config(
    skill: &mut SkillFiles,
    task_type: &str,
    leaf_reviewer: &str,
    frontier_reviewer: &str,
) {
    write(
        skill,
        &format!("roles/{task_type}/task-type.toml"),
        &format!(
            "task_type = \"{task_type}\"\ndefault_leaf_reviewer = \"{leaf_reviewer}\"\ndefault_frontier_reviewer = \"{frontier_reviewer}\"\n"
        ),
    );
}

fn write_role(
    skill: &mut SkillFiles,
    task_type: &str,
    role_kind: &str,
    role_id: &str,
    markdown: &str,
) {
    write(
        skill,
        &format!("roles/{task_type}/{role_kind}/{role_id}.md"),
        markdown,
    );
}

fn valid_role_markdown(role_kind: &str, executor: &str) -> String {
    format!("---\nrole = \"{role_kind}\"\nexecutor = \"{executor}\"\n---\nbody\n")
}

fn valid_skill() -> SkillFiles {
    let mut skill = empty_skill();
    write_valid_bundle(&mut skill);
    skill
}

fn complete_skill() -> SkillFiles {
    let mut skill = valid_skill();
    write_task_type_config(&mut skill, "coding-task", "codex_default", "codex_default");
    write_role(
        &mut skill,
        "coding-task",
        "leaf_reviewer",
        "codex_default",
        &valid_role_markdown("leaf_reviewer", "codex_leaf_reviewer"),
    );
    write_role(
        &mut skill,
        "coding-task",
        "frontier_reviewer",
        "codex_default",
        &valid_role_markdown("frontier_reviewer", "codex_frontier_reviewer"),
    );
    skill
}

#[test]
fn invalid_task_type_is_rejected_before_role_path_resolution() -> Result<(), PlanError> {
    let skill = valid_skill();

    let manifest = load_manifest(&skill)?;
    let error = resolve_gate_roles(&skill, &manifest, "../coding-task")
        .expect_err("invalid task_type should be rejected");
    assert!(error.chain().contains("task_type"));

    Ok(())
}

#[test]
fn malformed_role_front_matter_is_rejected() -> Result<(), PlanError> {
    let mut skill = valid_skill();
    write_task_type_config(&mut skill, "coding-task", "broken", "codex_default");
    write_role(
        &mut skill,
        "coding-task",
        "leaf_reviewer",
        "broken",
        "---\nrole = \"leaf_reviewer\"\nexecutor = [\n---\nbody\n",
    );

    let manifest = load_manifest(&skill)?;
    let error = load_task_type_role_definition(
        &skill,
        &manifest,
        "coding-task",
        "leaf_reviewer",
        "broken",
    )
    .expect_err("malformed front matter should fail");
    assert!(error.chain().contains("front matter"));

    Ok(())
}

#[test]
fn missing_role_file_is_rejected() -> Result<(), PlanError> {
    let mut skill = valid_skill();
    write_task_type_config(&mut skill, "coding-task", "missing_leaf", "codex_default");
    write_role(
        &mut skill,
        "coding-task",
        "frontier_reviewer",
        "codex_default",
        &valid_role_markdown("frontier_reviewer", "codex_frontier_reviewer"),
    );

    let manifest = load_manifest(&skill)?;
    let error = resolve_gate_roles(&skill, &manifest, "coding-task")
        .expect_err("missing role file should fail");
    assert!(error.chain().contains("missing role file"));

    Ok(())
}

#[test]
fn unknown_executor_profile_is_rejected() -> Result<(), PlanError> {
    let mut skill = valid_skill();
    write_task_type_config(&mut skill, "coding-task", "codex_default", "codex_default");
    write_role(
        &mut skill,
        "coding-task",
        "leaf_reviewer",
        "codex_default",
        &valid_role_markdown("leaf_reviewer", "missing_executor"),
    );
    write_role(
        &mut skill,
        "coding-task",
        "frontier_reviewer",
        "codex_default",
        &valid_role_markdown("frontier_reviewer", "codex_frontier_reviewer"),
    );

    let manifest = load_manifest(&skill)?;
    let error = resolve_gate_roles(&skill, &manifest, "coding-task")
        .expect_err("unknown executor profile should fail");
    assert!(error.chain().contains("unknown executor"));

    Ok(())
}

#[test]
fn missing_prompt_template_is_rejected() {
    let skill = valid_skill();

    let error =
        load_prompt_template(&skill, "missing_prompt").expect_err("missing prompt should fail");
    assert!(error.chain().contains("failed to read"));
}

#[test]
fn role_id_with_path_separator_is_rejected() -> Result<(), PlanError> {
    let mut skill = valid_skill();
    write_task_type_config(&mut skill, "coding-task", "codex_default", "codex_default");

    let manifest = load_manifest(&skill)?;
    let error = load_task_type_role_definition(
        &skill,
        &manifest,
        "coding-task",
        "leaf_reviewer",
        "../codex_default",
    )
    .expect_err("path-bearing role_id should fail");
    assert!(error.chain().contains("role_id"));

    Ok(())
}

#[test]
fn invalid_role_kind_is_rejected() -> Result<(), PlanError> {
    let mut skill = valid_skill();
    write_task_type_config(&mut skill, "coding-task", "codex_default", "codex_default");

    let manifest = load_manifest(&skill)?;
    let error = load_task_type_role_definition(
        &skill,
        &manifest,
        "coding-task",
        "checkpoint_reviewer",
        "codex_default",
    )
    .expect_err("unexpected role_kind should fail");
    assert!(error.chain().contains("role_kind"));

    Ok(())
}

#[test]
fn template_name_with_path_separator_is_rejected() {
    let skill = valid_skill();

    let error = load_prompt_template(&skill, "../leaf_runtime")
        .expect_err("path-bearing template_name should fail");
    assert!(error.chain().contains("template_name"));
}

#[test]
fn bundle_descriptor_rejects_wrong_skill_id() {
    let mut skill = empty_skill();
    write(
        &mut skill,
        "bundle.toml",
        &[
            "skill_id = \"loopy:not-gen-plan\"",
            "skill_kind = \"plan_generation\"",
            "version = \"0.1.0\"",
            "loader_id = \"loopy.gen-plan.v1\"",
            "root_entry = \"SKILL.md\"",
            "binary_path = \"bin/loopy-gen-plan\"",
            "internal_manifest = \"gen-plan.toml\"",
            "",
        ]
        .join("\n"),
    );

    let error = load_bundle_descriptor(&skill).expect_err("wrong skill_id should fail");
    assert!(error.chain().contains("expected skill_id"));
    assert_eq!(validate_placeholder_bundle(&skill), Err(error));
}

#[test]
fn bundle_descriptor_rejects_wrong_loader_id() {
    let mut skill = empty_skill();
    write(
        &mut skill,
        "bundle.toml",
        &[
            "skill_id = \"loopy:gen-plan\"",
            "skill_kind = \"plan_generation\"",
            "version = \"0.1.0\"",
            "loader_id = \"loopy.not-gen-plan.v1\"",
            "root_entry = \"SKILL.md\"",
            "binary_path = \"bin/loopy-gen-plan\"",
            "internal_manifest = \"gen-plan.toml\"",
            "",
        ]
        .join("\n"),
    );

    let error = load_bundle_descriptor(&skill).expect_err("wrong loader_id should fail");
    assert!(error.chain().contains("expected loader_id"));
}

#[test]
fn manifest_loading_rejects_path_bearing_internal_manifest() {
    let mut skill = empty_skill();
    write(&mut skill, "SKILL.md", "# gen-plan\n");
    write(
        &mut skill,
        "bundle.toml",
        &[
            "skill_id = \"loopy:gen-plan\"",
            "skill_kind = \"plan_generation\"",
            "version = \"0.1.0\"",
            "loader_id = \"loopy.gen-plan.v1\"",
            "root_entry = \"SKILL.md\"",
            "binary_path = \"bin/loopy-gen-plan\"",
            "internal_manifest = \"../gen-plan.toml\"",
            "",
        ]
        .join("\n"),
    );

    let error = load_manifest(&skill).expect_err("path-bearing internal_manifest should fail");
    assert!(error.chain().contains("internal_manifest"));
}

#[test]
fn resolve_executor_command_replaces_project_and_last_message_placeholders() {
    let executor_profile = ExecutorProfile {
        kind: "local_command".to_owned(),
        command: "codex".to_owned(),
        args: vec![
            "exec".to_owned(),
            "-C".to_owned(),
            "{project_directory}".to_owned(),
            "-o".to_owned(),
            "{output_last_message_path}".to_owned(),
            "{invocation_payload_path}".to_owned(),
        ],
        cwd: "project".to_owned(),
        timeout_sec: 60,
        transcript_capture: "stdio".to_owned(),
        env_allow: None,
    };

    let command = resolve_executor_command(
        &executor_profile,
        "/tmp/skill/bin/loopy-gen-plan",
        "/tmp/workspace",
        "/tmp/workspace/project",
        "/tmp/workspace/.loopy/gates/gate-1/prompt.md",
        "/tmp/workspace/.loopy/gates/gate-1/last-message.json",
    );

    assert_eq!(command[0], "codex");
    assert_eq!(command[1], "exec");
    assert_eq!(command[3], "/tmp/workspace/project");
    assert_eq!(
        command[5],
        "/tmp/workspace/.loopy/gates/gate-1/last-message.json"
    );
    assert_eq!(command[6], "/tmp/workspace/.loopy/gates/gate-1/prompt.md");
}

#[test]
fn resolve_executor_cwd_maps_project_to_project_directory() {
    assert_eq!(
        resolve_executor_cwd("project", "/tmp/workspace", "/tmp/workspace/project"),
        "/tmp/workspace/project"
    );
    assert_eq!(
        resolve_executor_cwd("workspace", "/tmp/workspace", "/tmp/workspace/project"),
        "/tmp/workspace"
    );
}

#[test]
fn other_working_directories_are_taken_as_they_are() {
    assert_eq!(resolve_executor_cwd("/srv", "/tmp/workspace", "/tmp/p"), "/srv");
}

#[test]
fn complete_bundle_resolves_its_roles() -> Result<(), PlanError> {
    let skill = complete_skill();
    assert_eq!(validate_placeholder_bundle(&skill), Ok(()));
    let manifest = load_manifest(&skill)?;
    assert_eq!(manifest.executors.len(), 2);
    let roles = resolve_gate_roles(&skill, &manifest, "coding-task")?;
    assert_eq!(roles.task_type, "coding-task");
    assert_eq!(roles.leaf_reviewer_role_id, "codex_default");
    assert_eq!(roles.frontier_reviewer_role_id, "codex_default");
    let (_, prompt, front_matter, executor) = load_task_type_role_definition(
        &skill,
        &manifest,
        "coding-task",
        "leaf_reviewer",
        "codex_default",
    )?;
    assert_eq!(prompt, "body");
    assert_eq!(front_matter.executor, "codex_leaf_reviewer");
    assert_eq!(executor.cwd, "project");
    assert_eq!(executor.timeout_sec, 60);
    Ok(())
}

#[test]
fn prompts_are_trimmed() -> Result<(), PlanError> {
    let mut skill = valid_skill();
    write(&mut skill, "prompts/leaf_runtime.md", "\n  leaf \n\n");
    assert_eq!(load_domain_contract_prompt(&skill)?, "domain");
    assert_eq!(load_leaf_runtime_prompt(&skill)?, "leaf");
    assert_eq!(load_frontier_runtime_prompt(&skill)?, "frontier");
    Ok(())
}

#[test]
fn unknown_task_type_is_rejected() {
    let skill = valid_skill();
    let error = load_task_type_config(&skill, "research-task").expect_err("no such task type");
    assert_eq!(
        error.chain(),
        "unknown task_type research-task: missing /skills/gen-plan/roles/research-task/task-type.toml"
    );
}

#[test]
fn task_type_identifiers_are_lowercase_words() {
    assert_eq!(
        validate_task_type_identifier("coding-task"),
        Ok("coding-task".to_owned())
    );
    for text in ["", "Coding", "coding_task", "-coding", "coding-", "a/b", ".."] {
        assert!(validate_task_type_identifier(text).is_err(), "{text}");
    }
}

#[test]
fn role_markdown_is_split_at_its_fences() {
    assert_eq!(
        split_role_markdown("\n---\na = 1\n---\nbody --- more\n"),
        Ok(("\na = 1\n".to_owned(), "\nbody --- more\n".to_owned()))
    );
    assert_eq!(
        split_role_markdown("body").unwrap_err().message,
        "missing role front matter"
    );
    assert_eq!(
        split_role_markdown("--- a").unwrap_err().message,
        "missing role body after front matter"
    );
    assert_eq!(
        split_role_markdown("x --- a --- b").unwrap_err().message,
        "unexpected content before role front matter"
    );
}
