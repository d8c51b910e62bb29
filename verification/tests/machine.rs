use std::cell::RefCell;

use loopy_gen_plan::api::PlannerMode;
use loopy_gen_plan::bundle::{
    candidate_bundle_root, discover_bundle_from_binary_path, discover_installed_skill,
    host_default_installed_skill_roots, resolve_development_skill,
    resolve_development_skill_if_registered, BundleDescriptor, BundleFiles, DevelopmentRegistry,
    DevelopmentSkillRegistration, InstalledEntries, InstalledRoot, Reading,
};
use loopy_gen_plan::cli::{
    extract_prompt_value, mock_frontier_reviewer_output, mock_leaf_reviewer_output,
    parse_planner_mode,
};
use loopy_gen_plan::digest::sha256_hex;
use loopy_gen_plan::error::PlanError;
use loopy_gen_plan::events::{content_ref, replay_event_records, timestamp, EventLog};
use loopy_gen_plan::files::{FileContent, FileOperation, PlanFiles, PlanRootKind};
use loopy_gen_plan::ids::new_gate_run_id;
use loopy_gen_plan::invocation::{
    plan_local_command, poll_local_command, resolve_executable_path, timed_out, CommandPoll,
    SearchDirectory,
};
use loopy_gen_plan::paths::{join_path, key_of_path, path_extension, path_is_plan_markdown};
use loopy_gen_plan::refine::markdown::{
    apply_stale_marker, first_heading_title, normalize_stale_reason,
    relative_url_from_parent_to_child, rewrite_child_nodes_section, title_from_path,
};
use loopy_gen_plan::runtime::child_links::canonical_child_path_from_url;
use loopy_gen_plan::runtime::dispatch::{
    finish_reviewer_dispatch, plan_reviewer_dispatch, FinishedCommand,
};
use loopy_gen_plan::skill::ExecutorProfile;
use loopy_gen_plan::text::{format_optional, number_text, replace, split_lines, trim};

fn text(text: &str) -> FileContent {
    FileContent::Text {
        text: text.to_owned(),
    }
}

fn descriptor(skill_id: &str) -> BundleDescriptor {
    BundleDescriptor {
        skill_id: skill_id.to_owned(),
        skill_kind: "plan_generation".to_owned(),
        version: "0.1.0".to_owned(),
        loader_id: "loopy.gen-plan.v1".to_owned(),
        root_entry: "SKILL.md".to_owned(),
        binary_path: "bin/loopy-gen-plan".to_owned(),
        internal_manifest: "gen-plan.toml".to_owned(),
    }
}

fn profile() -> ExecutorProfile {
    ExecutorProfile {
        kind: "local_command".to_owned(),
        command: "{bundle_bin}".to_owned(),
        args: vec!["{invocation_payload_path}".to_owned()],
        cwd: "project".to_owned(),
        timeout_sec: 30,
        transcript_capture: "stdio".to_owned(),
        env_allow: Some(vec!["HOME".to_owned()]),
    }
}

#[test]
fn digests_are_those_of_sha256() {
    assert_eq!(
        sha256_hex(&Vec::new()),
        "e3b0c44298fc1c149afbf4c8996fb92427ae41e4649b934ca495991b7852b855"
    );
    assert_eq!(
        sha256_hex(&b"abc".to_vec()),
        "ba7816bf8f01cfea414140de5dae2223b00361a396177a9cb410ff61f20015ad"
    );
}

#[test]
fn content_is_stored_once_and_read_back() {
    let mut log = EventLog {
        contents: Vec::new(),
        events: Vec::new(),
        segments: Vec::new(),
    };
    let first = log.store_json_content_at("prompt", "{\"a\":1}", "t1");
    let again = log.store_json_content_at("prompt", "{\"a\":1}", "t2");
    assert_eq!(first, again);
    assert_eq!(first, content_ref("prompt", "{\"a\":1}"));
    assert_eq!(first, sha256_hex(&b"prompt\0{\"a\":1}".to_vec()));
    assert_eq!(log.contents.len(), 1);
    assert_eq!(log.contents[0].created_at, "t1");
    assert_eq!(log.load_json_content(&first), Ok("{\"a\":1}".to_owned()));
    assert_eq!(
        log.load_json_content("nothing").unwrap_err().message,
        "unknown content_ref nothing"
    );
}

#[test]
fn events_are_numbered_by_loop_and_scanned_by_id() {
    let mut log = EventLog {
        contents: Vec::new(),
        events: Vec::new(),
        segments: Vec::new(),
    };
    assert_eq!(log.append_event_at(2, "a", "second", "{}", "t"), 2);
    assert_eq!(log.append_event_at(1, "b", "first", "{}", "t"), 1);
    assert_eq!(log.append_event_at(3, "a", "third", "{}", "t"), 3);
    let numbers: Vec<i64> = log.events.iter().map(|event| event.loop_seq).collect();
    assert_eq!(numbers, vec![1, 1, 2]);
    let names: Vec<String> = log
        .scan_all_event_records()
        .into_iter()
        .map(|record| record.event_name)
        .collect();
    assert_eq!(names, vec!["first", "second", "third"]);
    assert_eq!(log.scan_loop_event_records("a").len(), 2);
    log.append_transcript_segment_at("i", "user", "text", &None, "ref", "t");
    log.append_transcript_segment_at("i", "agent", "text", &None, "ref", "t");
    assert_eq!(log.segments[1].ordinal, 2);
}

#[test]
fn the_answer_of_the_clock_decides_what_is_logged() {
    let mut log = EventLog {
        contents: Vec::new(),
        events: Vec::new(),
        segments: Vec::new(),
    };
    let late = || Err(PlanError::new("late".to_owned()));
    assert_eq!(log.store_json_content_by("prompt", "{}", late()), late());
    assert_eq!(
        log.append_event_by(7, "a", "first", "{}", late()).unwrap_err().message,
        "late"
    );
    assert_eq!(
        log.append_transcript_segment_by("i", "user", "text", &None, "ref", late())
            .unwrap_err()
            .message,
        "late"
    );
    assert_eq!(log.contents.len() + log.events.len() + log.segments.len(), 0);

    let now = || Ok("2024-01-02T03:04:05Z".to_owned());
    let reference = log.store_json_content_by("prompt", "{}", now()).unwrap();
    assert_eq!(reference, content_ref("prompt", "{}"));
    assert_eq!(log.contents[0].created_at, "2024-01-02T03:04:05Z");
    assert_eq!(log.append_event_by(7, "a", "first", "{}", now()), Ok(7));
    assert_eq!(log.events[0].loop_seq, 1);
    assert_eq!(log.events[0].recorded_at, "2024-01-02T03:04:05Z");
    assert_eq!(
        log.append_transcript_segment_by("i", "user", "text", &None, &reference, now()),
        Ok(())
    );
    assert_eq!(log.segments[0].ordinal, 1);

    log.events[0].loop_seq = i64::MAX;
    log.segments[0].ordinal = i64::MAX;
    assert_eq!(
        log.append_event_by(8, "a", "second", "{}", now()).unwrap_err().message,
        "loop has no event number left"
    );
    assert_eq!(
        log.append_transcript_segment_by("i", "user", "text", &None, &reference, late())
            .unwrap_err()
            .message,
        "invocation has no ordinal left"
    );
    assert_eq!(log.events.len() + log.segments.len(), 2);
    assert_eq!(log.append_event_by(8, "b", "second", "{}", now()), Ok(8));
}

#[test]
fn replay_stops_at_the_first_failure() {
    let mut log = EventLog {
        contents: Vec::new(),
        events: Vec::new(),
        segments: Vec::new(),
    };
    for (id, name) in [(1, "ok"), (2, "bad"), (3, "ok")] {
        log.append_event_at(id, "a", name, "{}", "t");
    }
    let seen = RefCell::new(Vec::new());
    let result = replay_event_records(log.scan_all_event_records(), |record| {
        seen.borrow_mut().push(record.event_id);
        if record.event_name == "bad" {
            Err(PlanError::new("bad event".to_owned()))
        } else {
            Ok(())
        }
    });
    assert_eq!(result.unwrap_err().message, "bad event");
    assert_eq!(*seen.borrow(), vec![1, 2]);
}

#[test]
fn programs_are_found_on_the_search_path() {
    let directories = Some(vec![
        SearchDirectory {
            directory: "/usr/local/bin".to_owned(),
            holds_program: false,
        },
        SearchDirectory {
            directory: "/usr/bin".to_owned(),
            holds_program: true,
        },
    ]);
    assert_eq!(
        resolve_executable_path("codex", &directories),
        Ok("/usr/bin/codex".to_owned())
    );
    assert_eq!(
        resolve_executable_path("./codex", &None),
        Ok("./codex".to_owned())
    );
    assert_eq!(
        resolve_executable_path("codex", &None).unwrap_err().message,
        "PATH is not set while resolving executable codex"
    );
    assert_eq!(
        resolve_executable_path("codex", &Some(Vec::new()))
            .unwrap_err()
            .message,
        "failed to resolve executable path for codex"
    );
}

#[test]
fn commands_are_planned_before_they_run() {
    let none = Vec::new();
    let command = vec!["/bin/tool".to_owned(), "-x".to_owned()];
    let planned =
        plan_local_command(&command, &None, 60, "allowlist", &vec!["HOME".to_owned()]).unwrap();
    assert_eq!(planned.resolved_program, "/bin/tool");
    assert_eq!(planned.args, vec!["-x".to_owned()]);
    assert!(planned.clears_environment);
    assert_eq!(
        planned.kept_variables,
        vec!["PATH".to_owned(), "HOME".to_owned()]
    );
    assert_eq!(
        timed_out(&planned, "/work").message,
        "executor /bin/tool timed out after 60s in /work"
    );
    assert_eq!(
        plan_local_command(&Vec::new(), &None, 60, "allowlist", &none)
            .unwrap_err()
            .message,
        "executor command cannot be empty"
    );
    assert_eq!(
        plan_local_command(&command, &None, -1, "allowlist", &none)
            .unwrap_err()
            .message,
        "executor timeout_sec must be non-negative"
    );
    assert_eq!(
        plan_local_command(&command, &None, 1, "open", &none)
            .unwrap_err()
            .message,
        "unsupported executor env_policy open"
    );
    assert_eq!(poll_local_command(true, true), CommandPoll::Collect);
    assert_eq!(poll_local_command(false, true), CommandPoll::Terminate);
    assert_eq!(poll_local_command(false, false), CommandPoll::Wait);
}

#[test]
fn prompts_are_handed_over_below_the_workspace() {
    let dispatch =
        plan_reviewer_dispatch("/w", "/skill/bin/tool", "/w/project", &profile(), "run-1").unwrap();
    assert_eq!(dispatch.prompt_path, "/w/.loopy/gate-runs/run-1/prompt.md");
    assert_eq!(
        dispatch.last_message_path,
        "/w/.loopy/gate-runs/run-1/last-message.json"
    );
    assert_eq!(
        dispatch.command,
        vec![
            "/skill/bin/tool".to_owned(),
            "/w/.loopy/gate-runs/run-1/prompt.md".to_owned()
        ]
    );
    assert_eq!(dispatch.cwd, "/w/project");
    let mut other = profile();
    other.kind = "remote".to_owned();
    assert_eq!(
        plan_reviewer_dispatch("/w", "/b", "/p", &other, "run-1")
            .unwrap_err()
            .message,
        "unsupported gen-plan executor kind `remote`"
    );
    let mut other = profile();
    other.transcript_capture = "none".to_owned();
    assert_eq!(
        plan_reviewer_dispatch("/w", "/b", "/p", &other, "run-1")
            .unwrap_err()
            .message,
        "unsupported gen-plan transcript_capture `none`"
    );
}

#[test]
fn replies_are_read_from_the_last_message() {
    let done = FinishedCommand {
        success: true,
        stdout: String::new(),
        stderr: String::new(),
    };
    assert_eq!(
        finish_reviewer_dispatch("run-1", "/m.json", Ok(done.clone()), Ok("{}".to_owned())),
        Ok("{}".to_owned())
    );
    let unread = finish_reviewer_dispatch("run-1", "/m.json", Ok(done), Err("gone".to_owned()));
    assert_eq!(unread.unwrap_err().cause, Some("gone".to_owned()));
    let failed = FinishedCommand {
        success: false,
        stdout: "out".to_owned(),
        stderr: "err".to_owned(),
    };
    let error =
        finish_reviewer_dispatch("run-1", "/m.json", Ok(failed), Ok("{}".to_owned())).unwrap_err();
    assert!(error.message.ends_with("\nstdout:\nout\nstderr:\nerr"));
    let error = finish_reviewer_dispatch(
        "run-1",
        "/m.json",
        Err(PlanError::new("no program".to_owned())),
        Ok("{}".to_owned()),
    )
    .unwrap_err();
    assert_eq!(error.cause, Some("no program".to_owned()));
}

#[test]
fn planner_modes_are_read_and_written() {
    assert_eq!(parse_planner_mode("manual"), Ok(PlannerMode::Manual));
    assert_eq!(parse_planner_mode("auto"), Ok(PlannerMode::Auto));
    assert_eq!(PlannerMode::Auto.as_str(), "auto");
    assert!(parse_planner_mode("Manual").is_err());
}

#[test]
fn mock_answers_name_their_target() {
    let payload = "Intro\n- Target Node ID: leaf-7 \n- Parent Node ID: parent-3\n";
    assert_eq!(
        extract_prompt_value(payload, "- Target Node ID:"),
        Ok("leaf-7".to_owned())
    );
    let leaf = mock_leaf_reviewer_output(payload).unwrap();
    assert_eq!(leaf.verdict, "revise_leaf");
    assert_eq!(leaf.issues.len(), 1);
    assert_eq!(leaf.issues[0].target_node_id, Some("leaf-7".to_owned()));
    let frontier = mock_frontier_reviewer_output(payload).unwrap();
    assert_eq!(frontier.verdict, "revise_frontier");
    assert_eq!(
        frontier.issues[0].target_parent_node_id,
        Some("parent-3".to_owned())
    );
    assert_eq!(
        mock_leaf_reviewer_output("nothing").unwrap_err().message,
        "invocation payload missing required line `- Target Node ID:`"
    );
}

#[test]
fn skill_directories_are_named_once() {
    let agents = vec![".agent".to_owned()];
    assert_eq!(
        host_default_installed_skill_roots(
            &Some("/home/u/.codex/".to_owned()),
            &Some("/home/u".to_owned()),
            &agents,
        ),
        vec![
            "/home/u/.codex/skills".to_owned(),
            "/home/u/.agent/skills".to_owned()
        ]
    );
    assert_eq!(
        host_default_installed_skill_roots(&None, &None, &agents),
        Vec::<String>::new()
    );
    assert_eq!(
        host_default_installed_skill_roots(&None, &Some("/home/u".to_owned()), &Vec::new()),
        vec!["/home/u/.codex/skills".to_owned()]
    );
}

#[test]
fn installed_skills_are_looked_for_root_by_root() {
    let roots = vec![InstalledRoot {
        root: "/skills".to_owned(),
        entries: InstalledEntries::NoDirectory,
    }];
    assert_eq!(
        discover_installed_skill("loopy:gen-plan", &roots, &Vec::new())
            .unwrap_err()
            .message,
        "failed to discover installed skill loopy:gen-plan"
    );
}

#[test]
fn bundle_stands_above_its_binary() {
    assert_eq!(
        candidate_bundle_root("/skills/gen-plan/bin/loopy-gen-plan"),
        Some("/skills/gen-plan".to_owned())
    );
    let bundles = vec![BundleFiles {
        root: "/skills/gen-plan".to_owned(),
        descriptor: Some(text("D")),
    }];
    let readings = vec![Reading {
        text: "D".to_owned(),
        parsed: Ok(descriptor("loopy:gen-plan")),
    }];
    let found = discover_bundle_from_binary_path(
        "/skills/gen-plan/bin/loopy-gen-plan",
        &bundles,
        &readings,
    )
    .unwrap()
    .expect("bundle");
    assert_eq!(found.bundle_root, "/skills/gen-plan");
    assert_eq!(found.descriptor, descriptor("loopy:gen-plan"));
}

#[test]
fn registered_skills_are_checked_against_their_bundle() {
    let registry_text = Some(text("R"));
    let registration = DevelopmentSkillRegistration {
        skill_id: "loopy:gen-plan".to_owned(),
        loader_id: "loopy.gen-plan.v1".to_owned(),
        source_root: "skills/gen-plan".to_owned(),
        binary_package: "loopy-gen-plan".to_owned(),
        binary_name: "loopy-gen-plan".to_owned(),
        internal_manifest: "gen-plan.toml".to_owned(),
    };
    let registries = vec![Reading {
        text: "R".to_owned(),
        parsed: Ok(DevelopmentRegistry {
            skills: vec![registration.clone()],
        }),
    }];
    let bundles = vec![BundleFiles {
        root: "/w/skills/gen-plan".to_owned(),
        descriptor: Some(text("D")),
    }];
    let readings = vec![Reading {
        text: "D".to_owned(),
        parsed: Ok(descriptor("loopy:gen-plan")),
    }];
    let resolved = resolve_development_skill(
        "/w",
        &registry_text,
        &registries,
        &bundles,
        &readings,
        "loopy:gen-plan",
    )
    .unwrap();
    assert_eq!(resolved.bundle_root, "/w/skills/gen-plan");
    assert_eq!(resolved.registration, registration);
    assert_eq!(
        resolve_development_skill_if_registered(
            "/w",
            &None,
            &registries,
            &bundles,
            &readings,
            "loopy:gen-plan",
        ),
        Ok(None)
    );
}

#[test]
fn what_was_written_is_read_back() {
    let mut files = PlanFiles::new(PlanRootKind::Directory);
    files.load("a.md".to_owned(), text("old"));
    assert_eq!(files.write("a.md", "new"), None);
    assert_eq!(files.read("a.md"), Ok("new".to_owned()));
    assert_eq!(files.read("./b.md"), Err("No such file or directory (os error 2)".to_owned()));
    assert_eq!(files.remove("a.md"), None);
    assert!(!files.is_present("a.md"));
    assert_eq!(
        files.remove("a.md"),
        Some("No such file or directory (os error 2)".to_owned())
    );
    assert_eq!(
        *files.operations(),
        vec![
            FileOperation::Write {
                relative_path: "a.md".to_owned(),
                text: "new".to_owned(),
            },
            FileOperation::Remove {
                relative_path: "a.md".to_owned(),
            },
        ]
    );
}

#[test]
fn directories_are_not_written_over() {
    let mut files = PlanFiles::new(PlanRootKind::Directory);
    files.load(
        "a.md".to_owned(),
        FileContent::Directory {
            source: "Is a directory (os error 21)".to_owned(),
        },
    );
    assert_eq!(
        files.write("a.md", "new"),
        Some("Is a directory (os error 21)".to_owned())
    );
    assert!(files.operations().is_empty());
    assert!(!files.is_file("a.md"));
}

#[test]
fn paths_are_their_components() {
    assert_eq!(key_of_path("a//b/./c.md"), "a/b/c.md");
    assert_eq!(join_path("/w", "a"), "/w/a");
    assert_eq!(join_path("/w/", "a"), "/w/a");
    assert_eq!(join_path("/w", "/a"), "/a");
    assert_eq!(path_extension("a/b.tar.md"), Some("md".to_owned()));
    assert_eq!(path_extension(".md"), None);
    assert!(path_is_plan_markdown("a/b.md"));
    assert!(!path_is_plan_markdown("a/../b.md"));
    assert!(!path_is_plan_markdown("/a/b.md"));
}

#[test]
fn titles_are_read_or_made() {
    assert_eq!(title_from_path("api/add-auth-tests.md"), "Add Auth Tests");
    assert_eq!(title_from_path("\u{e9}tude.md"), "\u{c9}tude");
    assert_eq!(title_from_path("\u{df}.md"), "SS");
    assert_eq!(first_heading_title("text\n# One \n# Two\n", "x.md"), "One");
    assert_eq!(first_heading_title("text\n", "add-one.md"), "Add One");
}

#[test]
fn stale_marker_replaces_the_one_before() {
    let once = apply_stale_marker("# Title\nbody\n", "first");
    assert_eq!(
        once,
        "<!-- loopy-refine-status: stale -->\n<!-- loopy-refine-stale-reason: first -->\n# Title\nbody\n"
    );
    assert_eq!(
        apply_stale_marker(&once, "last"),
        apply_stale_marker("# Title\nbody\n", "last")
    );
    assert_eq!(normalize_stale_reason(" a\n--->  b "), "a --- > b");
}

#[test]
fn stale_marker_is_never_there_twice() {
    let marker = |reason: &str| {
        format!("<!-- loopy-refine-status: stale -->\n<!-- loopy-refine-stale-reason: {reason} -->\n")
    };
    let once = apply_stale_marker("intro\n# H\n", "a");
    assert_eq!(once, format!("intro\n{}# H\n", marker("a")));
    assert_eq!(apply_stale_marker(&once, "b"), format!("intro\n{}# H\n", marker("b")));
    for text in [
        "",
        "no heading",
        "  # H",
        "intro\n\n# H\n# I\n",
        "<!-- loopy-refine-status: stale -->\nintro\n# H\n",
        "<!-- loopy-refine-status: a -->\n<!-- loopy-refine-status: b -->\n# H\n",
        "x\n<!-- loopy-refine-stale-reason: r -->\n# H\n",
    ] {
        assert_eq!(
            apply_stale_marker(&apply_stale_marker(text, "a"), "b"),
            apply_stale_marker(text, "b")
        );
    }
    let three = format!("{0}{0}{0}# H\n", marker("a"));
    assert_eq!(apply_stale_marker(&three, "b"), format!("{}# H\n", marker("b")));
    let apart = format!("{0}intro\n{0}{0}# H\n", marker("a"));
    assert_eq!(apply_stale_marker(&apart, "b"), format!("intro\n{}# H\n", marker("b")));
}

#[test]
fn files_and_directories_stand_in_each_others_way() {
    let mut files = PlanFiles::new(PlanRootKind::Directory);
    files.load("api.md".to_owned(), text("# API\n"));
    assert_eq!(
        files.write("api.md/x.md", "x"),
        Some("File exists (os error 17)".to_owned())
    );
    assert_eq!(
        files.write("api.md/sub/x.md", "x"),
        Some("Not a directory (os error 20)".to_owned())
    );
    assert_eq!(files.operations().len(), 0);
    assert_eq!(files.write("web.md/x.md", "x"), None);
    assert_eq!(
        files.write("web.md", "x"),
        Some("Is a directory (os error 21)".to_owned())
    );
    assert_eq!(files.write("web.m", "x"), None);
    assert_eq!(files.write("api.md", "# New\n"), None);
}

#[test]
fn links_lead_back_to_the_child() {
    for (parent, child, url) in [
        ("api/api.md", "api/leaf.md", "./leaf.md"),
        ("api/api.md", "api/sub/sub.md", "./sub/sub.md"),
        ("api/deep/deep.md", "api/leaf.md", "../leaf.md"),
        ("top.md", "api/api.md", "./api/api.md"),
    ] {
        assert_eq!(
            relative_url_from_parent_to_child(parent, child),
            Ok(url.to_owned())
        );
        assert_eq!(
            canonical_child_path_from_url(parent, url),
            Ok(Some(child.to_owned()))
        );
    }
    assert!(relative_url_from_parent_to_child("api.txt", "a.md").is_err());
}

#[test]
fn section_of_links_is_replaced_in_place() {
    let rows = vec!["- [A](./a.md)".to_owned()];
    assert_eq!(
        rewrite_child_nodes_section("# T\n## Child Nodes\nold\n## Next\n", &rows),
        "# T\n## Child Nodes\n\n- [A](./a.md)\n## Next\n"
    );
    assert_eq!(
        rewrite_child_nodes_section("# T", &rows),
        "# T\n\n## Child Nodes\n\n- [A](./a.md)\n"
    );
}

#[test]
fn texts_are_cut_and_joined() {
    assert_eq!(
        split_lines("a\r\nb\n\nc"),
        vec!["a\r\n".to_owned(), "b\n".to_owned(), "\n".to_owned(), "c".to_owned()]
    );
    assert_eq!(split_lines("a\r\nb\n\nc").concat(), "a\r\nb\n\nc");
    assert_eq!(trim("\u{3000} a b \t"), "a b");
    assert_eq!(replace("aXbX", "X", "--"), "a--b--");
    assert_eq!(number_text(0), "0");
    assert_eq!(number_text(18446744073709551615), "18446744073709551615");
    assert_eq!(
        format_optional(&Some("a\"b\n".to_owned())),
        "Some(\"a\\\"b\\n\")"
    );
    assert_eq!(format_optional(&None), "None");
}

#[test]
fn new_ids_have_the_form_of_a_uuid_and_differ() {
    let first = new_gate_run_id();
    let second = new_gate_run_id();
    assert_ne!(first, second);
    assert_eq!(first.len(), 36);
    assert_eq!(&first[14..15], "4");
    let groups: Vec<usize> = first.split('-').map(|group| group.len()).collect();
    assert_eq!(groups, vec![8, 4, 4, 4, 12]);
}

#[test]
fn events_are_recorded_as_of_now() {
    let mut log = EventLog {
        contents: Vec::new(),
        events: Vec::new(),
        segments: Vec::new(),
    };
    let now = timestamp().unwrap();
    assert_eq!(&now[10..11], "T");
    assert!(now.ends_with('Z'));
    assert!(&now[..4] >= "2024");
    let reference = log.store_json_content("prompt", "{}").unwrap();
    assert_eq!(log.load_json_content(&reference), Ok("{}".to_owned()));
    assert_eq!(log.append_event(7, "a", "first", "{}"), Ok(7));
    assert_eq!(log.events[0].loop_seq, 1);
    assert!(log.events[0].recorded_at.ends_with("Z"));
    log.append_transcript_segment("i", "user", "text", &None, &reference)
        .unwrap();
    assert_eq!(log.segments[0].ordinal, 1);
    log.events[0].loop_seq = i64::MAX;
    assert_eq!(
        log.append_event(8, "a", "second", "{}").unwrap_err().message,
        "loop has no event number left"
    );
    assert_eq!(log.events.len(), 1);
}
