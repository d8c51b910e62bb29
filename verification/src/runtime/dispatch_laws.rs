//! Which judge is asked for a review, what it is asked, how it is run, and what
//! its reply is.
use super::dispatch::{reviewer_dispatch, reviewer_reply, FinishedCommandModel};
use super::gates::{gate_role, node_snapshot, PreparedGateModel};
use super::laws::{node_is_found, plan_is_found};
use super::review_laws::{first_word_is_found, last_word_is_found};
use super::store::{NodeRecordModel, RuntimeModel};
use crate::api::{
    NodeKind, RunFrontierReviewGateRequestModel, RunLeafReviewGateRequestModel,
};
use crate::error::PlanErrorModel;
use crate::files::PlanFilesModel;
use crate::paths::joined_path;
use crate::refine::link_laws::{space_bounds, space_start_bounds};
use crate::skill::{
    executor_from, ExecutorEntryModel, ExecutorProfileModel, SkillFilesModel,
};
use crate::text::{is_space, replaced, skip_space, space_start, trimmed};
use vstd::prelude::*;

verus! {

// ---------------------------------------------------------------------
// Which judge
// ---------------------------------------------------------------------
/// The profile is that of the first executor with this name.
pub open spec fn is_first_profile(
    executors: Seq<ExecutorEntryModel>,
    name: Seq<char>,
    profile: ExecutorProfileModel,
) -> bool {
    exists|k: int|
        0 <= k < executors.len() && (#[trigger] executors[k]).name == name && executors[k].profile
            == profile && forall|j: int|
            0 <= j < k ==> (#[trigger] executors[j]).name != name
}

proof fn first_profile_is_found(executors: Seq<ExecutorEntryModel>, name: Seq<char>, i: int)
    requires
        0 <= i <= executors.len(),
        forall|j: int| 0 <= j < i ==> (#[trigger] executors[j]).name != name,
    ensures
        executor_from(executors, name, i) matches Some(profile) ==> is_first_profile(
            executors,
            name,
            profile,
        ),
    decreases executors.len() - i,
{
    if i < executors.len() && executors[i].name != name {
        first_profile_is_found(executors, name, i + 1);
    }
}

/// The name of the kind of a judge.
pub open spec fn judge_kind(kind: NodeKind) -> Seq<char> {
    match kind {
        NodeKind::Leaf => "leaf_reviewer"@,
        NodeKind::Parent => "frontier_reviewer"@,
    }
}

/// The file of a judge: below the type of the task and the kind of the judge,
/// under its id.
pub open spec fn judge_file(task_type: Seq<char>, kind: NodeKind, role_id: Seq<char>) -> Seq<char> {
    "roles/"@ + task_type + "/"@ + judge_kind(kind) + "/"@ + role_id + ".md"@
}

/// The judge is the one that the type of the task names for nodes of this kind; its
/// file says that it is one for them, what it is asked, and how it is run.
pub open spec fn is_judge_of(
    skill: SkillFilesModel,
    task_type: Seq<char>,
    kind: NodeKind,
    role_id: Seq<char>,
    prompt: Seq<char>,
    executor: ExecutorProfileModel,
) -> bool {
    let file = judge_file(trimmed(task_type), kind, role_id);
    &&& skill.manifest() is Ok
    &&& skill.task_type_config(trimmed(task_type)) matches Ok(config) && role_id == trimmed(
        match kind {
            NodeKind::Leaf => config.default_leaf_reviewer,
            NodeKind::Parent => config.default_frontier_reviewer,
        },
    )
    &&& skill.role(file) matches Ok((markdown, front_matter)) && {
        &&& front_matter.role == judge_kind(kind)
        &&& is_first_profile(skill.manifest()->Ok_0.executors, front_matter.executor, executor)
        &&& crate::skill::role_sections(markdown) matches Ok((_, body)) && prompt == trimmed(body)
    }
}

proof fn safe_names_stay(s: Seq<char>)
    ensures
        trimmed(trimmed(s)) == trimmed(s),
{
    let t = trimmed(s);
    let from = skip_space(s, 0);
    let to = space_start(s, s.len() as int);
    space_bounds(s, 0);
    space_start_bounds(s, s.len() as int);
    first_word_is_found(s, 0);
    last_word_is_found(s, s.len() as int);
    if t.len() > 0 {
        assert(t == s.subrange(from, to));
        assert(!is_space(t[0]));
        assert(!is_space(t[t.len() - 1]));
        assert(skip_space(t, 0) == 0);
        assert(space_start(t, t.len() as int) == t.len());
        assert(t.subrange(0, t.len() as int) =~= t);
    } else {
        assert(trimmed(t) =~= t);
    }
}

proof fn judges_are_found(
    skill: SkillFilesModel,
    task_type: Seq<char>,
    kind: NodeKind,
)
    ensures
        gate_role(skill, task_type, kind) matches Ok((role_id, prompt, executor))
            ==> is_judge_of(skill, task_type, kind, role_id, prompt, executor),
{
    if let Ok((role_id, prompt, executor)) = gate_role(skill, task_type, kind) {
        let manifest = skill.manifest()->Ok_0;
        safe_names_stay(task_type);
        let config = skill.task_type_config(trimmed(task_type))->Ok_0;
        safe_names_stay(config.default_leaf_reviewer);
        safe_names_stay(config.default_frontier_reviewer);
        let file = judge_file(trimmed(task_type), kind, role_id);
        let (markdown, front_matter) = skill.role(file)->Ok_0;
        first_profile_is_found(manifest.executors, front_matter.executor, 0);
    }
}

// ---------------------------------------------------------------------
// What it is asked
// ---------------------------------------------------------------------
/// The template with each placeholder filled, one after the other.
pub open spec fn with_all_filled(template: Seq<char>, values: Seq<(Seq<char>, Seq<char>)>) -> Seq<
    char,
>
    decreases values.len(),
{
    if values.len() == 0 {
        template
    } else {
        replaced(
            with_all_filled(template, values.drop_last()),
            "{{"@ + values.last().0 + "}}"@,
            values.last().1,
        )
    }
}

proof fn one_more_filled(
    template: Seq<char>,
    values: Seq<(Seq<char>, Seq<char>)>,
    key: Seq<char>,
    value: Seq<char>,
)
    ensures
        with_all_filled(template, values.push((key, value))) == replaced(
            with_all_filled(template, values),
            "{{"@ + key + "}}"@,
            value,
        ),
{
    assert(values.push((key, value)).drop_last() =~= values);
}

/// The context as a judge reads it.
pub open spec fn shown_context(context: Option<Seq<char>>) -> Seq<char> {
    if context is Some && trimmed(context->0).len() > 0 {
        trimmed(context->0)
    } else {
        "No refine revalidation context supplied."@
    }
}

/// The judge is that of the plan in row `p`, and is asked about the leaf in row `m`.
pub open spec fn asks_about_leaf(
    runtime: RuntimeModel,
    files: PlanFilesModel,
    skill: SkillFilesModel,
    request: RunLeafReviewGateRequestModel,
    gate: PreparedGateModel,
    p: int,
    m: int,
    role_prompt: Seq<char>,
    siblings: Seq<NodeRecordModel>,
    snapshot: Seq<char>,
) -> bool {
    let plan = runtime.plans[p];
    let node = runtime.nodes[m];
    &&& 0 <= p < runtime.plans.len()
    &&& plan.plan_id == request.plan_id
    &&& 0 <= m < runtime.nodes.len()
    &&& node.plan_id == request.plan_id
    &&& node.node_id == request.node_id
    &&& gate.project_directory == plan.project_directory
    &&& is_judge_of(
        skill,
        plan.task_type,
        NodeKind::Leaf,
        gate.reviewer_role_id,
        role_prompt,
        gate.executor,
    )
    &&& is_snapshot_of(
        runtime,
        files,
        request.plan_id,
        plan.plan_root,
        node.parent_node_id,
        siblings,
        snapshot,
    )
    &&& files.read(node.relative_path) is Ok
    &&& skill.prompt("domain_contract"@) is Ok
    &&& skill.prompt("leaf_runtime"@) is Ok
    &&& gate.prompt == with_all_filled(
        skill.prompt("domain_contract"@)->Ok_0 + "\n\n"@ + role_prompt + "\n\n"@
            + skill.prompt("leaf_runtime"@)->Ok_0,
        seq![
            ("planner_mode"@, request.planner_mode.name()),
            ("plan_id"@, request.plan_id),
            ("node_id"@, request.node_id),
            ("plan_root_path"@, plan.plan_root),
            ("project_directory"@, plan.project_directory),
            ("leaf_node_markdown"@, files.read(node.relative_path)->Ok_0),
            ("parent_expansion_snapshot"@, snapshot),
            (
                "refine_revalidation_context"@,
                shown_context(request.refine_revalidation_context),
            ),
        ],
    )
}

/// A judge of a leaf is the one of its task type. It is asked about the leaf: it
/// reads the contract, its own role and what a leaf has to be, with the mode, the
/// plan, the leaf with its markdown, its siblings and the context filled in. It
/// works in the directory of the project.
pub proof fn leaf_judges_are_asked_about_the_leaf(
    runtime: RuntimeModel,
    files: PlanFilesModel,
    skill: SkillFilesModel,
    request: RunLeafReviewGateRequestModel,
)
    ensures
        runtime.leaf_gate(files, Ok(skill), request) matches Ok(gate) ==> exists|
            p: int,
            m: int,
            role_prompt: Seq<char>,
            siblings: Seq<NodeRecordModel>,
            snapshot: Seq<char>,
        | #[trigger]
            asks_about_leaf(
                runtime,
                files,
                skill,
                request,
                gate,
                p,
                m,
                role_prompt,
                siblings,
                snapshot,
            ),
{
    if let Ok(gate) = runtime.leaf_gate(files, Ok(skill), request) {
        let (plan, node) = runtime.leaf_gate_target(files, request)->Ok_0;
        plan_is_found(runtime.plans, request.plan_id, 0);
        node_is_found(runtime.nodes, request.plan_id, request.node_id, 0);
        let plan_row = runtime.plan(request.plan_id)->0;
        let node_row = runtime.node_row(request.plan_id, request.node_id)->0;
        let p = choose|p: int|
            0 <= p < runtime.plans.len() && #[trigger] runtime.plans[p] == plan_row;
        let m = choose|m: int|
            0 <= m < runtime.nodes.len() && #[trigger] runtime.nodes[m] == node_row;
        let (role_id, role_prompt, executor) = gate_role(
            skill,
            plan.task_type,
            NodeKind::Leaf,
        )->Ok_0;
        judges_are_found(skill, plan.task_type, NodeKind::Leaf);
        let siblings = runtime.child_nodes(request.plan_id, node.parent_node_id)->Ok_0;
        let snapshot = node_snapshot(files, plan.plan_root, siblings)->Ok_0;
        let markdown = files.read(node.relative_path)->Ok_0;
        let context = shown_context(request.refine_revalidation_context);
        let template = skill.prompt("domain_contract"@)->Ok_0 + "\n\n"@ + role_prompt + "\n\n"@
            + skill.prompt("leaf_runtime"@)->Ok_0;
        let v0 = Seq::<(Seq<char>, Seq<char>)>::empty();
        let v1 = v0.push(("planner_mode"@, request.planner_mode.name()));
        let v2 = v1.push(("plan_id"@, request.plan_id));
        let v3 = v2.push(("node_id"@, request.node_id));
        let v4 = v3.push(("plan_root_path"@, plan.plan_root));
        let v5 = v4.push(("project_directory"@, plan.project_directory));
        let v6 = v5.push(("leaf_node_markdown"@, markdown));
        let v7 = v6.push(("parent_expansion_snapshot"@, snapshot));
        one_more_filled(template, v0, "planner_mode"@, request.planner_mode.name());
        one_more_filled(template, v1, "plan_id"@, request.plan_id);
        one_more_filled(template, v2, "node_id"@, request.node_id);
        one_more_filled(template, v3, "plan_root_path"@, plan.plan_root);
        one_more_filled(template, v4, "project_directory"@, plan.project_directory);
        one_more_filled(template, v5, "leaf_node_markdown"@, markdown);
        one_more_filled(template, v6, "parent_expansion_snapshot"@, snapshot);
        one_more_filled(template, v7, "refine_revalidation_context"@, context);
        let all = v7.push(("refine_revalidation_context"@, context));
        assert(gate.prompt == with_all_filled(template, all));
        assert(all =~= seq![
            ("planner_mode"@, request.planner_mode.name()),
            ("plan_id"@, request.plan_id),
            ("node_id"@, request.node_id),
            ("plan_root_path"@, plan.plan_root),
            ("project_directory"@, plan.project_directory),
            ("leaf_node_markdown"@, markdown),
            ("parent_expansion_snapshot"@, snapshot),
            ("refine_revalidation_context"@, context),
        ]);
        assert(runtime.plans[p].plan_id == request.plan_id);
        assert(runtime.nodes[m].node_id == request.node_id);
        assert(is_judge_of(
            skill,
            runtime.plans[p].task_type,
            NodeKind::Leaf,
            gate.reviewer_role_id,
            role_prompt,
            gate.executor,
        ));
        assert(is_snapshot_of(
            runtime,
            files,
            request.plan_id,
            runtime.plans[p].plan_root,
            runtime.nodes[m].parent_node_id,
            siblings,
            snapshot,
        ));
        assert(asks_about_leaf(
            runtime,
            files,
            skill,
            request,
            gate,
            p,
            m,
            role_prompt,
            siblings,
            snapshot,
        ));
    }
}

/// The snapshot shows these nodes, which are those with this parent.
pub open spec fn is_snapshot_of(
    runtime: RuntimeModel,
    files: PlanFilesModel,
    plan_id: Seq<char>,
    plan_root: Seq<char>,
    parent_node_id: Option<Seq<char>>,
    nodes: Seq<NodeRecordModel>,
    snapshot: Seq<char>,
) -> bool {
    &&& runtime.child_nodes(plan_id, parent_node_id) == Ok::<_, PlanErrorModel>(nodes)
    &&& node_snapshot(files, plan_root, nodes) == Ok::<_, PlanErrorModel>(snapshot)
}

/// The judge is that of the plan in row `p`, and is asked about the parent in row
/// `m`.
pub open spec fn asks_about_parent(
    runtime: RuntimeModel,
    files: PlanFilesModel,
    skill: SkillFilesModel,
    request: RunFrontierReviewGateRequestModel,
    gate: PreparedGateModel,
    p: int,
    m: int,
    role_prompt: Seq<char>,
    children: Seq<NodeRecordModel>,
    snapshot: Seq<char>,
) -> bool {
    let plan = runtime.plans[p];
    let node = runtime.nodes[m];
    &&& 0 <= p < runtime.plans.len()
    &&& plan.plan_id == request.plan_id
    &&& 0 <= m < runtime.nodes.len()
    &&& node.plan_id == request.plan_id
    &&& node.node_id == request.parent_node_id
    &&& gate.project_directory == plan.project_directory
    &&& is_judge_of(
        skill,
        plan.task_type,
        NodeKind::Parent,
        gate.reviewer_role_id,
        role_prompt,
        gate.executor,
    )
    &&& is_snapshot_of(
        runtime,
        files,
        request.plan_id,
        plan.plan_root,
        Some(request.parent_node_id),
        children,
        snapshot,
    )
    &&& files.read(node.relative_path) is Ok
    &&& skill.prompt("domain_contract"@) is Ok
    &&& skill.prompt("frontier_runtime"@) is Ok
    &&& runtime.passed_reviews(request.plan_id, request.parent_node_id) is Ok
    &&& gate.prompt == with_all_filled(
        skill.prompt("domain_contract"@)->Ok_0 + "\n\n"@ + role_prompt + "\n\n"@
            + skill.prompt("frontier_runtime"@)->Ok_0,
        seq![
            ("planner_mode"@, request.planner_mode.name()),
            ("plan_id"@, request.plan_id),
            ("parent_node_id"@, request.parent_node_id),
            ("plan_root_path"@, plan.plan_root),
            ("project_directory"@, plan.project_directory),
            ("parent_node_markdown"@, files.read(node.relative_path)->Ok_0),
            ("frontier_expansion_snapshot"@, snapshot),
            (
                "passed_leaf_review_summaries"@,
                runtime.passed_reviews(
                    request.plan_id,
                    request.parent_node_id,
                )->Ok_0,
            ),
            (
                "refine_revalidation_context"@,
                shown_context(request.refine_revalidation_context),
            ),
        ],
    )
}

/// A judge of a parent is the one of its task type. It is asked about the parent:
/// it reads the contract, its own role and what a frontier has to be, with the mode,
/// the plan, the parent with its markdown, its children, their passed reviews and
/// the context filled in.
pub proof fn frontier_judges_are_asked_about_the_parent(
    runtime: RuntimeModel,
    files: PlanFilesModel,
    skill: SkillFilesModel,
    request: RunFrontierReviewGateRequestModel,
)
    ensures
        runtime.frontier_review(files, Ok(skill), request) matches Ok(gate) ==> exists|
            p: int,
            m: int,
            role_prompt: Seq<char>,
            children: Seq<NodeRecordModel>,
            snapshot: Seq<char>,
        | #[trigger]
            asks_about_parent(
                runtime,
                files,
                skill,
                request,
                gate,
                p,
                m,
                role_prompt,
                children,
                snapshot,
            ),
{
    if let Ok(gate) = runtime.frontier_review(files, Ok(skill), request) {
        let (plan, node) = runtime.frontier_gate_target(files, request)->Ok_0;
        plan_is_found(runtime.plans, request.plan_id, 0);
        node_is_found(runtime.nodes, request.plan_id, request.parent_node_id, 0);
        let plan_row = runtime.plan(request.plan_id)->0;
        let node_row = runtime.node_row(request.plan_id, request.parent_node_id)->0;
        let p = choose|p: int|
            0 <= p < runtime.plans.len() && #[trigger] runtime.plans[p] == plan_row;
        let m = choose|m: int|
            0 <= m < runtime.nodes.len() && #[trigger] runtime.nodes[m] == node_row;
        let (role_id, role_prompt, executor) = gate_role(
            skill,
            plan.task_type,
            NodeKind::Parent,
        )->Ok_0;
        judges_are_found(skill, plan.task_type, NodeKind::Parent);
        let children = runtime.child_nodes(request.plan_id, Some(request.parent_node_id))->Ok_0;
        let snapshot = node_snapshot(files, plan.plan_root, children)->Ok_0;
        let markdown = files.read(node.relative_path)->Ok_0;
        let reviews = runtime.passed_reviews(request.plan_id, request.parent_node_id)->Ok_0;
        let context = shown_context(request.refine_revalidation_context);
        let template = skill.prompt("domain_contract"@)->Ok_0 + "\n\n"@ + role_prompt + "\n\n"@
            + skill.prompt("frontier_runtime"@)->Ok_0;
        let v0 = Seq::<(Seq<char>, Seq<char>)>::empty();
        let v1 = v0.push(("planner_mode"@, request.planner_mode.name()));
        let v2 = v1.push(("plan_id"@, request.plan_id));
        let v3 = v2.push(("parent_node_id"@, request.parent_node_id));
        let v4 = v3.push(("plan_root_path"@, plan.plan_root));
        let v5 = v4.push(("project_directory"@, plan.project_directory));
        let v6 = v5.push(("parent_node_markdown"@, markdown));
        let v7 = v6.push(("frontier_expansion_snapshot"@, snapshot));
        let v8 = v7.push(("passed_leaf_review_summaries"@, reviews));
        one_more_filled(template, v0, "planner_mode"@, request.planner_mode.name());
        one_more_filled(template, v1, "plan_id"@, request.plan_id);
        one_more_filled(template, v2, "parent_node_id"@, request.parent_node_id);
        one_more_filled(template, v3, "plan_root_path"@, plan.plan_root);
        one_more_filled(template, v4, "project_directory"@, plan.project_directory);
        one_more_filled(template, v5, "parent_node_markdown"@, markdown);
        one_more_filled(template, v6, "frontier_expansion_snapshot"@, snapshot);
        one_more_filled(template, v7, "passed_leaf_review_summaries"@, reviews);
        one_more_filled(template, v8, "refine_revalidation_context"@, context);
        let all = v8.push(("refine_revalidation_context"@, context));
        assert(gate.prompt == with_all_filled(template, all));
        assert(all =~= seq![
            ("planner_mode"@, request.planner_mode.name()),
            ("plan_id"@, request.plan_id),
            ("parent_node_id"@, request.parent_node_id),
            ("plan_root_path"@, plan.plan_root),
            ("project_directory"@, plan.project_directory),
            ("parent_node_markdown"@, markdown),
            ("frontier_expansion_snapshot"@, snapshot),
            ("passed_leaf_review_summaries"@, reviews),
            ("refine_revalidation_context"@, context),
        ]);
        assert(runtime.plans[p].plan_id == request.plan_id);
        assert(runtime.nodes[m].node_id == request.parent_node_id);
        assert(is_judge_of(
            skill,
            runtime.plans[p].task_type,
            NodeKind::Parent,
            gate.reviewer_role_id,
            role_prompt,
            gate.executor,
        ));
        assert(is_snapshot_of(
            runtime,
            files,
            request.plan_id,
            runtime.plans[p].plan_root,
            Some(request.parent_node_id),
            children,
            snapshot,
        ));
        assert(asks_about_parent(
            runtime,
            files,
            skill,
            request,
            gate,
            p,
            m,
            role_prompt,
            children,
            snapshot,
        ));
    }
}

// ---------------------------------------------------------------------
// How it is run
// ---------------------------------------------------------------------
/// A judge is run exactly where it is a local command whose output is captured:
/// with its own directory for the run, in the directory that it names, for the time
/// and with the environment that it is given.
pub proof fn judges_are_run_as_configured(
    workspace_root: Seq<char>,
    bundle_bin: Seq<char>,
    project_directory: Seq<char>,
    executor: ExecutorProfileModel,
    gate_run_id: Seq<char>,
)
    ensures
        ({
            let planned = reviewer_dispatch(
                workspace_root,
                bundle_bin,
                project_directory,
                executor,
                gate_run_id,
            );
            &&& planned is Ok <==> executor.kind == "local_command"@ && executor.transcript_capture
                == "stdio"@
            &&& planned matches Ok(run) ==> {
                &&& run.artifact_dir == joined_path(
                    joined_path(joined_path(workspace_root, ".loopy"@), "gate-runs"@),
                    gate_run_id,
                )
                &&& run.prompt_path == joined_path(run.artifact_dir, "prompt.md"@)
                &&& run.last_message_path == joined_path(run.artifact_dir, "last-message.json"@)
                &&& run.command.len() == executor.args.len() + 1
                &&& run.cwd == if executor.cwd == "project"@ {
                    project_directory
                } else if executor.cwd == "workspace"@ {
                    workspace_root
                } else {
                    executor.cwd
                }
                &&& run.timeout_sec == executor.timeout_sec
                &&& executor.env_allow matches Some(names) ==> run.env_allow == names
                &&& executor.env_allow is None ==> run.env_allow.len() == 0
                &&& forall|k: int|
                    0 <= k < run.command.len() ==> #[trigger] run.command[k] == replaced(
                        replaced(
                            replaced(
                                replaced(
                                    replaced(
                                        if k == 0 {
                                            executor.command
                                        } else {
                                            executor.args[k - 1]
                                        },
                                        "{bundle_bin}"@,
                                        bundle_bin,
                                    ),
                                    "{workspace_root}"@,
                                    workspace_root,
                                ),
                                "{project_directory}"@,
                                project_directory,
                            ),
                            "{invocation_payload_path}"@,
                            run.prompt_path,
                        ),
                        "{output_last_message_path}"@,
                        run.last_message_path,
                    )
            }
        }),
{
}

/// The reply of a judge is its last message, as it stands, and there is one exactly
/// where the command was run and succeeded and the message can be read.
pub proof fn replies_are_the_last_message(
    gate_run_id: Seq<char>,
    last_message_path: Seq<char>,
    run: Result<FinishedCommandModel, PlanErrorModel>,
    last_message: Result<Seq<char>, Seq<char>>,
)
    ensures
        ({
            let reply = reviewer_reply(gate_run_id, last_message_path, run, last_message);
            &&& reply is Ok <==> run is Ok && run->Ok_0.success && last_message is Ok
            &&& reply matches Ok(text) ==> text == last_message->Ok_0
        }),
{
}

} // verus!
