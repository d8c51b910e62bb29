use loopy_gen_plan::api::{
    EnsureNodeIdRequest, EnsurePlanRequest, InspectNodeRequest, ListChildrenRequest, NodeKind,
    OpenPlanRequest, ReconcileParentChildLinksRequest,
};
use loopy_gen_plan::error::PlanError;
use loopy_gen_plan::files::{FileContent, PlanFiles, PlanRootKind};
use loopy_gen_plan::runtime::child_links::parse_child_node_link_paths;
use loopy_gen_plan::runtime::plans::{infer_node_kind, validate_plan_name};
use loopy_gen_plan::runtime::Runtime;

const NOW: &str = "2026-01-01T00:00:00Z";
const LATER: &str = "2026-01-02T00:00:00Z";

fn load(files: &mut PlanFiles, path: &str, text: &str) {
    files.load(
        path.to_owned(),
        FileContent::Text {
            text: text.to_owned(),
        },
    );
}

fn plan_request(name: &str) -> EnsurePlanRequest {
    EnsurePlanRequest {
        plan_name: name.to_owned(),
        task_type: "coding-task".to_owned(),
        project_directory: "project".to_owned(),
    }
}

fn runtime_with_plan() -> Runtime {
    let mut runtime = Runtime::new("/workspace".to_owned());
    runtime
        .ensure_plan_as(plan_request("demo"), "plan-1", NOW)
        .expect("plan");
    runtime
}

fn node(
    runtime: &mut Runtime,
    path: &str,
    parent: Option<&str>,
    new_id: &str,
) -> Result<String, PlanError> {
    runtime
        .ensure_node_id_as(
            EnsureNodeIdRequest {
                plan_id: "plan-1".to_owned(),
                relative_path: path.to_owned(),
                parent_relative_path: parent.map(|path| path.to_owned()),
            },
            new_id,
            NOW,
        )
        .map(|response| response.node_id)
}

fn parent_of(runtime: &Runtime, path: &str) -> Option<String> {
    runtime
        .inspect_node(InspectNodeRequest {
            plan_id: "plan-1".to_owned(),
            node_id: None,
            relative_path: Some(path.to_owned()),
        })
        .expect("node")
        .parent_relative_path
}

#[test]
fn ensured_plan_is_opened_by_its_name() {
    let mut runtime = Runtime::new("/workspace".to_owned());
    let plan = runtime
        .ensure_plan_as(plan_request("demo"), "plan-1", NOW)
        .unwrap();
    assert_eq!(plan.plan_id, "plan-1");
    assert_eq!(plan.plan_root, "/workspace/.loopy/plans/demo");
    assert_eq!(plan.plan_status, "active");
    let opened = runtime
        .open_plan(OpenPlanRequest {
            plan_name: "demo".to_owned(),
        })
        .unwrap();
    assert_eq!(opened.plan_id, plan.plan_id);
    assert_eq!(opened.plan_root, plan.plan_root);
    assert_eq!(opened.task_type, "coding-task");
    assert_eq!(runtime.plans[0].project_directory, "/workspace/project");
}

#[test]
fn ensuring_a_plan_again_changes_nothing() {
    let mut runtime = runtime_with_plan();
    let before = runtime.clone();
    let plan = runtime
        .ensure_plan_as(plan_request("demo"), "plan-2", LATER)
        .unwrap();
    assert_eq!(plan.plan_id, "plan-1");
    assert_eq!(runtime, before);
}

#[test]
fn project_directory_of_a_plan_cannot_be_redirected() {
    let mut runtime = runtime_with_plan();
    let mut request = plan_request("demo");
    request.project_directory = "/elsewhere".to_owned();
    let before = runtime.clone();
    let error = runtime.ensure_plan_as(request, "plan-2", LATER).unwrap_err();
    assert_eq!(
        error.message,
        "persisted project_directory for existing plan `demo` is `/workspace/project` and cannot be redirected to `/elsewhere`"
    );
    assert_eq!(runtime, before);
}

#[test]
fn filled_in_project_directory_is_repaired() {
    let mut runtime = runtime_with_plan();
    runtime.plans[0].project_directory = String::new();
    runtime.backfill_project_directories();
    assert_eq!(runtime.plans[0].project_directory, "/workspace");
    assert_eq!(runtime.plans[0].project_directory_source, "backfilled_legacy");
    runtime
        .ensure_plan_as(plan_request("demo"), "plan-2", LATER)
        .unwrap();
    assert_eq!(runtime.plans[0].project_directory, "/workspace/project");
    assert_eq!(runtime.plans[0].project_directory_source, "explicit");
    assert_eq!(runtime.plans[0].updated_at, LATER);
}

#[test]
fn plan_names_are_single_directories() {
    assert_eq!(validate_plan_name("demo"), Ok(()));
    for (name, message) in [
        ("", "plan_name must not be empty"),
        (
            "/demo",
            "plan_name must stay within .loopy/plans/: absolute paths are not allowed",
        ),
        (
            "a/b",
            "plan_name must be a single directory name within .loopy/plans/",
        ),
        (
            "..",
            "plan_name must be a single directory name within .loopy/plans/",
        ),
        ("demo/", "plan_name must be normalized within .loopy/plans/"),
    ] {
        assert_eq!(validate_plan_name(name).unwrap_err().message, message);
    }
}

#[test]
fn missing_plan_cannot_be_opened() {
    let runtime = runtime_with_plan();
    let error = runtime
        .open_plan(OpenPlanRequest {
            plan_name: "other".to_owned(),
        })
        .unwrap_err();
    assert_eq!(error.message, "plan `other` does not exist");
}

#[test]
fn ensuring_a_node_again_gives_its_id() {
    let mut runtime = runtime_with_plan();
    assert_eq!(node(&mut runtime, "api/api.md", None, "n1").unwrap(), "n1");
    assert_eq!(
        node(&mut runtime, "api/leaf.md", Some("api/api.md"), "n2").unwrap(),
        "n2"
    );
    let before = runtime.clone();
    assert_eq!(
        node(&mut runtime, "api/leaf.md", Some("api/api.md"), "n3").unwrap(),
        "n2"
    );
    assert_eq!(runtime, before);
}

#[test]
fn nodes_stand_right_below_their_parent() {
    let mut runtime = runtime_with_plan();
    node(&mut runtime, "api/api.md", None, "n1").unwrap();
    let before = runtime.clone();
    for (path, parent, message) in [
        (
            "api/deep/leaf.md",
            Some("api/api.md"),
            "relative_path `api/deep/leaf.md` must be a direct child of parent_relative_path `api/api.md`",
        ),
        (
            "web/leaf.md",
            Some("api/api.md"),
            "relative_path `web/leaf.md` must stay within the direct child scope of parent_relative_path `api/api.md`",
        ),
        (
            "web/leaf.md",
            Some("web/web.md"),
            "parent_relative_path `web/web.md` must reference an existing tracked parent node before registering `web/leaf.md`",
        ),
        (
            "../leaf.md",
            None,
            "relative_path must be a normalized plan-local relative path",
        ),
        (
            "/leaf.md",
            None,
            "relative_path must be a plan-local relative path: absolute paths are not allowed",
        ),
        ("", None, "relative_path must not be empty"),
        (
            "leaf.txt",
            None,
            "relative_path must point to a canonical markdown file path ending in `.md`",
        ),
    ] {
        assert_eq!(
            node(&mut runtime, path, parent, "n9").unwrap_err().message,
            message
        );
    }
    assert_eq!(runtime, before);
}

#[test]
fn conflicting_linkage_is_told_with_both_parents() {
    let mut runtime = runtime_with_plan();
    node(&mut runtime, "api/api.md", None, "n1").unwrap();
    node(&mut runtime, "api/sub/sub.md", Some("api/api.md"), "n2").unwrap();
    runtime.nodes[1].parent_node_id = None;
    let error = node(&mut runtime, "api/sub/sub.md", Some("api/api.md"), "n3").unwrap_err();
    assert_eq!(
        error.message,
        "parent_relative_path conflicts with existing node linkage for `api/sub/sub.md`: requested_parent_relative_path=Some(\"api/api.md\"), existing_node_id=`n2`, existing_parent_node_id=None, existing_parent_relative_path=None, existing_relative_path=`api/sub/sub.md`"
    );
}

#[test]
fn inspection_tells_of_parent_and_children() {
    let mut runtime = runtime_with_plan();
    node(&mut runtime, "api/api.md", None, "n1").unwrap();
    node(&mut runtime, "api/b.md", Some("api/api.md"), "n2").unwrap();
    node(&mut runtime, "api/a.md", Some("api/api.md"), "n3").unwrap();
    let seen = runtime
        .inspect_node(InspectNodeRequest {
            plan_id: "plan-1".to_owned(),
            node_id: Some("n1".to_owned()),
            relative_path: None,
        })
        .unwrap();
    assert_eq!(seen.node_kind, NodeKind::Parent);
    let paths: Vec<&str> = seen
        .children
        .iter()
        .map(|child| child.relative_path.as_str())
        .collect();
    assert_eq!(paths, vec!["api/a.md", "api/b.md"]);
    assert_eq!(seen.latest_frontier_gate_summary, None);
    assert_eq!(parent_of(&runtime, "api/a.md"), Some("api/api.md".to_owned()));
    let listing = runtime
        .list_children(ListChildrenRequest {
            plan_id: "plan-1".to_owned(),
            parent_node_id: None,
            parent_relative_path: Some("api/api.md".to_owned()),
        })
        .unwrap();
    assert_eq!(listing.parent_node_id, "n1");
    assert_eq!(listing.children, seen.children);
}

#[test]
fn reconciliation_makes_the_links_the_children() {
    let mut runtime = runtime_with_plan();
    let mut files = PlanFiles::new(PlanRootKind::Directory);
    node(&mut runtime, "api/api.md", None, "n1").unwrap();
    node(&mut runtime, "api/keep.md", Some("api/api.md"), "n2").unwrap();
    node(&mut runtime, "api/drop.md", Some("api/api.md"), "n3").unwrap();
    node(&mut runtime, "api/take.md", Some("api/api.md"), "n4").unwrap();
    runtime.nodes[3].parent_node_id = None;
    load(
        &mut files,
        "api/api.md",
        "# API\n\n## Child Nodes\n\n- [Keep](./keep.md)\n- [Take](take.md#top)\n- [Out](https://x.test/y.md)\n\n## Notes\n- [Drop](./drop.md)\n",
    );
    for path in ["api/keep.md", "api/drop.md", "api/take.md"] {
        load(&mut files, path, "# Leaf\n");
    }
    let answer = runtime
        .reconcile_parent_child_links(
            &files,
            ReconcileParentChildLinksRequest {
                plan_id: "plan-1".to_owned(),
                parent_relative_path: "api/api.md".to_owned(),
            },
            LATER,
        )
        .unwrap();
    assert_eq!(
        answer.linked_child_relative_paths,
        vec!["api/keep.md".to_owned(), "api/take.md".to_owned()]
    );
    assert_eq!(
        answer.attached_child_relative_paths,
        vec!["api/take.md".to_owned()]
    );
    assert_eq!(
        answer.detached_child_relative_paths,
        vec!["api/drop.md".to_owned()]
    );
    assert_eq!(parent_of(&runtime, "api/keep.md"), Some("api/api.md".to_owned()));
    assert_eq!(parent_of(&runtime, "api/take.md"), Some("api/api.md".to_owned()));
    assert_eq!(parent_of(&runtime, "api/drop.md"), None);
    assert_eq!(runtime.nodes[1].updated_at, NOW);
    assert_eq!(runtime.nodes[2].updated_at, LATER);
    let settled = runtime.clone();
    let again = runtime
        .reconcile_parent_child_links(
            &files,
            ReconcileParentChildLinksRequest {
                plan_id: "plan-1".to_owned(),
                parent_relative_path: "api/api.md".to_owned(),
            },
            "2027-01-01T00:00:00Z",
        )
        .unwrap();
    assert_eq!(
        again.linked_child_relative_paths,
        answer.linked_child_relative_paths
    );
    assert!(again.attached_child_relative_paths.is_empty());
    assert!(again.detached_child_relative_paths.is_empty());
    assert_eq!(runtime, settled);
}

#[test]
fn refused_reconciliation_changes_nothing() {
    let mut runtime = runtime_with_plan();
    let mut files = PlanFiles::new(PlanRootKind::Directory);
    node(&mut runtime, "api/api.md", None, "n1").unwrap();
    node(&mut runtime, "api/drop.md", Some("api/api.md"), "n2").unwrap();
    load(
        &mut files,
        "api/api.md",
        "## Child Nodes\n- [New](./new.md)\n",
    );
    load(&mut files, "api/new.md", "# New\n");
    let before = runtime.clone();
    let error = runtime
        .reconcile_parent_child_links(
            &files,
            ReconcileParentChildLinksRequest {
                plan_id: "plan-1".to_owned(),
                parent_relative_path: "api/api.md".to_owned(),
            },
            LATER,
        )
        .unwrap_err();
    assert_eq!(
        error.message,
        "linked child_relative_path `api/new.md` must be tracked before reconciling parent `api/api.md`"
    );
    assert_eq!(runtime, before);
}

#[test]
fn child_links_are_unique_paths_of_the_plan() {
    let markdown = "## Child Nodes\n\n- [A](./a.md)\n- [A again](../api/a.md)\n- [B](sub/b.md?x=1)\n";
    assert_eq!(
        parse_child_node_link_paths("api/api.md", markdown).unwrap(),
        vec!["api/a.md".to_owned(), "api/sub/b.md".to_owned()]
    );
    assert!(parse_child_node_link_paths("api/api.md", "## Child Nodes\n- [A](../../a.md)\n").is_err());
    assert!(parse_child_node_link_paths("api/api.md", "## Child Nodes\n- [A](/a.md)\n").is_err());
    assert!(parse_child_node_link_paths("api/api.md", "## Child Nodes\n- [A](a.txt)\n").is_err());
    assert_eq!(
        parse_child_node_link_paths("api/api.md", "- [A](./a.md)\n").unwrap(),
        Vec::<String>::new()
    );
}

#[test]
fn kinds_are_inferred_from_paths() {
    assert_eq!(infer_node_kind("api/api.md", "demo"), Some("parent"));
    assert_eq!(infer_node_kind("api/leaf.md", "demo"), Some("leaf"));
    assert_eq!(infer_node_kind("demo.md", "demo"), Some("parent"));
    assert_eq!(infer_node_kind("notes.txt", "demo"), None);
    assert_eq!(infer_node_kind(".md", "demo"), None);
}
