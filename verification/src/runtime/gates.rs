//! Review gates: what a judge is asked, and what becomes of the answer.
use super::node_paths::checked;
use super::query::{
    ensure_plan_markdown_file_exists, leaf_record_problem, markdown_file_problem,
    parent_record_problem, plan_markdown, read_plan_markdown, require_leaf_node_record,
    require_parent_node_record,
};
use super::store::{
    FrontierGateRun, FrontierGateRunModel, GatePlanContext, GatePlanContextModel, LeafGateRun,
    LeafGateRunModel, NodeRecord, NodeRecordModel, Runtime, RuntimeModel,
};
use crate::api::{
    GateSummaryModel, NodeKind, ReviewIssue, ReviewIssueModel, RunFrontierReviewGateRequest,
    RunFrontierReviewGateRequestModel, RunFrontierReviewGateResponse,
    RunFrontierReviewGateResponseModel, RunLeafReviewGateRequest, RunLeafReviewGateRequestModel,
    RunLeafReviewGateResponse, RunLeafReviewGateResponseModel,
};
use crate::bundle::{find_reading, reading_from, Reading, ReadingModel};
use crate::error::{failure, outcome, PlanError, PlanErrorModel};
use crate::files::{PlanFiles, PlanFilesModel};
use crate::refine::runtime_state::{
    RefineStaleGateClassification, RefineStaleResultHandoff, RefineStaleResultHandoffModel,
    StaleGateTargetKind,
};
use crate::skill::{
    load_domain_contract_prompt, load_frontier_runtime_prompt, load_leaf_runtime_prompt,
    load_manifest, load_task_type_role_definition, resolve_gate_roles, ExecutorProfile,
    ExecutorProfileModel, Manifest, ResolvedGateRoleSelection, RoleFrontMatter, SkillFiles,
    SkillFilesModel,
};
use crate::text::{
    after_prefix, concat2, concat3, concat5, concat7, copy_list, cut_at, is_blank, is_text, join,
    joined, list_has, push_unique, replace, replaced, same_text, split_once, strip_prefix, trim,
    trimmed, with_unique,
};
use vstd::prelude::*;

verus! {

/// What the judge of a leaf answers.
#[derive(Debug, PartialEq, Eq)]
pub struct LeafReviewerOutput {
    pub verdict: String,
    pub summary: String,
    pub issues: Vec<ReviewIssue>,
}

/// The meaning of a [`LeafReviewerOutput`].
pub struct LeafReviewerOutputModel {
    pub verdict: Seq<char>,
    pub summary: Seq<char>,
    pub issues: Seq<ReviewIssueModel>,
}

impl DeepView for LeafReviewerOutput {
    type V = LeafReviewerOutputModel;

    open spec fn deep_view(&self) -> LeafReviewerOutputModel {
        LeafReviewerOutputModel {
            verdict: self.verdict@,
            summary: self.summary@,
            issues: self.issues.deep_view(),
        }
    }
}

impl Clone for LeafReviewerOutput {
    fn clone(&self) -> (r: Self)
        ensures
            r.deep_view() == self.deep_view(),
    {
        let r: LeafReviewerOutput = LeafReviewerOutput {
            verdict: self.verdict.clone(),
            summary: self.summary.clone(),
            issues: self.issues.clone(),
        };
        assert(r.issues.deep_view() =~= self.issues.deep_view());
        r
    }
}

/// What the judge of a parent and its children answers.
#[derive(Debug, PartialEq, Eq)]
pub struct FrontierReviewerOutput {
    pub verdict: String,
    pub summary: String,
    pub issues: Vec<ReviewIssue>,
    pub invalidated_leaf_node_ids: Vec<String>,
}

/// The meaning of a [`FrontierReviewerOutput`].
pub struct FrontierReviewerOutputModel {
    pub verdict: Seq<char>,
    pub summary: Seq<char>,
    pub issues: Seq<ReviewIssueModel>,
    pub invalidated_leaf_node_ids: Seq<Seq<char>>,
}

impl DeepView for FrontierReviewerOutput {
    type V = FrontierReviewerOutputModel;

    open spec fn deep_view(&self) -> FrontierReviewerOutputModel {
        FrontierReviewerOutputModel {
            verdict: self.verdict@,
            summary: self.summary@,
            issues: self.issues.deep_view(),
            invalidated_leaf_node_ids: self.invalidated_leaf_node_ids.deep_view(),
        }
    }
}

impl Clone for FrontierReviewerOutput {
    fn clone(&self) -> (r: Self)
        ensures
            r.deep_view() == self.deep_view(),
    {
        let r: FrontierReviewerOutput = FrontierReviewerOutput {
            verdict: self.verdict.clone(),
            summary: self.summary.clone(),
            issues: self.issues.clone(),
            invalidated_leaf_node_ids: self.invalidated_leaf_node_ids.clone(),
        };
        assert(r.issues.deep_view() =~= self.issues.deep_view());
        assert(r.invalidated_leaf_node_ids.deep_view() =~= self.invalidated_leaf_node_ids.deep_view());
        r
    }
}

/// What a judge is asked, and how it is run.
#[derive(Debug, PartialEq, Eq)]
pub struct PreparedGate {
    pub prompt: String,
    pub reviewer_role_id: String,
    pub executor: ExecutorProfile,
    pub project_directory: String,
}

/// The meaning of a [`PreparedGate`].
pub struct PreparedGateModel {
    pub prompt: Seq<char>,
    pub reviewer_role_id: Seq<char>,
    pub executor: ExecutorProfileModel,
    pub project_directory: Seq<char>,
}

impl DeepView for PreparedGate {
    type V = PreparedGateModel;

    open spec fn deep_view(&self) -> PreparedGateModel {
        PreparedGateModel {
            prompt: self.prompt@,
            reviewer_role_id: self.reviewer_role_id@,
            executor: self.executor.deep_view(),
            project_directory: self.project_directory@,
        }
    }
}

impl Clone for PreparedGate {
    fn clone(&self) -> (r: Self)
        ensures
            r.deep_view() == self.deep_view(),
    {
        PreparedGate {
            prompt: self.prompt.clone(),
            reviewer_role_id: self.reviewer_role_id.clone(),
            executor: self.executor.clone(),
            project_directory: self.project_directory.clone(),
        }
    }
}

// ---------------------------------------------------------------------
// Prompts
// ---------------------------------------------------------------------
/// One section of a snapshot.
pub open spec fn snapshot_section(node: NodeRecordModel, markdown: Seq<char>) -> Seq<char> {
    "### Node `"@ + node.node_id + "` (`"@ + node.relative_path + "`)\n```markdown\n"@ + markdown
        + "\n```"@
}

/// The sections of the nodes from `i` on, after those in `acc`.
pub open spec fn snapshot_from(
    files: PlanFilesModel,
    plan_root: Seq<char>,
    nodes: Seq<NodeRecordModel>,
    i: int,
    acc: Seq<Seq<char>>,
) -> Result<Seq<Seq<char>>, PlanErrorModel>
    decreases nodes.len() - i,
{
    if i >= nodes.len() {
        Ok(acc)
    } else {
        match plan_markdown(files, plan_root, nodes[i].relative_path) {
            Err(error) => Err(error),
            Ok(markdown) => snapshot_from(
                files,
                plan_root,
                nodes,
                i + 1,
                acc.push(snapshot_section(nodes[i], markdown)),
            ),
        }
    }
}

/// The nodes with their markdown.
pub open spec fn node_snapshot(
    files: PlanFilesModel,
    plan_root: Seq<char>,
    nodes: Seq<NodeRecordModel>,
) -> Result<Seq<char>, PlanErrorModel> {
    if nodes.len() == 0 {
        Ok("_No nodes currently exist in this scope._"@)
    } else {
        match snapshot_from(files, plan_root, nodes, 0, Seq::empty()) {
            Err(error) => Err(error),
            Ok(sections) => Ok(joined(sections, "\n\n"@)),
        }
    }
}

/// One line of the passed leaf reviews.
pub open spec fn passed_review_line(node: NodeRecordModel, summary: GateSummaryModel) -> Seq<char> {
    "- node_id `"@ + node.node_id + "` (`"@ + node.relative_path + "`), gate_run_id `"@
        + summary.gate_run_id + "`, reviewer_role_id `"@ + summary.reviewer_role_id + "`: "@
        + summary.summary
}

/// The context, without the white space around it, or a line that says that
/// there is none.
pub open spec fn rendered_context(context: Option<Seq<char>>) -> Seq<char> {
    match context {
        Some(text) => if trimmed(text).len() > 0 {
            trimmed(text)
        } else {
            "No refine revalidation context supplied."@
        },
        None => "No refine revalidation context supplied."@,
    }
}

/// The template with one placeholder filled.
pub open spec fn filled_in(template: Seq<char>, key: Seq<char>, value: Seq<char>) -> Seq<char> {
    replaced(template, "{{"@ + key + "}}"@, value)
}

fn fill_in(template: &str, key: &str, value: &str) -> (r: String)
    ensures
        r@ == filled_in(template@, key@, value@),
{
    proof {
        reveal_strlit("{{");
    }
    let placeholder: String = concat3("{{", key, "}}");
    replace(template, placeholder.as_str(), value)
}

/// The three parts of a prompt.
pub open spec fn prompt_template(
    domain_contract: Seq<char>,
    role_prompt: Seq<char>,
    runtime_prompt: Seq<char>,
) -> Seq<char> {
    domain_contract + "\n\n"@ + role_prompt + "\n\n"@ + runtime_prompt
}

/// What a review finds: which verdicts pass, and which the other ones are.
pub open spec fn leaf_verdict(verdict: Seq<char>) -> Result<bool, PlanErrorModel> {
    if verdict == "approved_as_leaf"@ {
        Ok(true)
    } else if verdict == "revise_leaf"@ || verdict == "must_expand"@ || verdict
        == "pause_for_user_decision"@ {
        Ok(false)
    } else {
        Err(failure("unsupported leaf review verdict `"@ + verdict + "`"@))
    }
}

/// What a frontier review finds.
pub open spec fn frontier_verdict(verdict: Seq<char>) -> Result<bool, PlanErrorModel> {
    if verdict == "approved_frontier"@ {
        Ok(true)
    } else if verdict == "revise_frontier"@ || verdict == "reopen_parent_scope"@ || verdict
        == "pause_for_user_decision"@ {
        Ok(false)
    } else {
        Err(failure("unsupported frontier review verdict `"@ + verdict + "`"@))
    }
}

/// The issue names what it is about.
pub open spec fn has_target(issue: ReviewIssueModel) -> bool {
    ||| issue.target_node_id is Some
    ||| issue.target_parent_node_id is Some
    ||| issue.target_node_ids matches Some(ids) && ids.len() > 0
}

/// The text is there and is not blank.
pub open spec fn is_given(text: Option<Seq<char>>) -> bool {
    text matches Some(t) && trimmed(t).len() > 0
}

/// Why the issues of a review do not go with its verdict.
pub open spec fn review_issues_problem(
    verdict: Seq<char>,
    issues: Seq<ReviewIssueModel>,
    passed: bool,
) -> Option<PlanErrorModel> {
    if passed {
        if issues.len() > 0 {
            Some(failure("approved review results must not include issues"@))
        } else {
            None
        }
    } else if issues.len() == 0 {
        Some(failure("non-passing review results must include at least one issue"@))
    } else if exists|i: int| 0 <= i < issues.len() && !has_target(#[trigger] issues[i]) {
        Some(failure("review issues must include an explicit target"@))
    } else if verdict == "pause_for_user_decision"@ && exists|i: int|
        0 <= i < issues.len() && !(is_given((#[trigger] issues[i]).question_for_user) && is_given(
            issues[i].decision_impact,
        )) {
        Some(
            failure(
                "pause_for_user_decision issues must include non-empty question_for_user and decision_impact"@,
            ),
        )
    } else {
        None
    }
}

fn validate_review_issues(verdict: &str, issues: &Vec<ReviewIssue>, passed: bool) -> (r: Result<
    (),
    PlanError,
>)
    ensures
        outcome(r) == checked(
            review_issues_problem(verdict@, issues.deep_view(), passed),
        ),
{
    if passed {
        if issues.len() > 0 {
            return Err(
                PlanError::new("approved review results must not include issues".to_owned()),
            );
        }
        return Ok(());
    }
    if issues.len() == 0 {
        return Err(
            PlanError::new(
                "non-passing review results must include at least one issue".to_owned(),
            ),
        );
    }
    let ghost all = issues.deep_view();
    let mut untargeted: bool = false;
    let mut unanswerable: bool = false;
    let mut i: usize = 0;
    while i < issues.len()
        invariant
            i <= issues.len(),
            all == issues.deep_view(),
            untargeted == exists|k: int| 0 <= k < i && !has_target(#[trigger] all[k]),
            unanswerable == exists|k: int|
                0 <= k < i && !(is_given((#[trigger] all[k]).question_for_user) && is_given(
                    all[k].decision_impact,
                )),
        decreases issues.len() - i,
    {
        let issue: &ReviewIssue = &issues[i];
        assert(all[i as int] == issue.deep_view());
        let listed: bool = match &issue.target_node_ids {
            Some(ids) => ids.len() > 0,
            None => false,
        };
        if issue.target_node_id.is_none() && issue.target_parent_node_id.is_none() && !listed {
            untargeted = true;
        }
        if !option_is_given(&issue.question_for_user) || !option_is_given(&issue.decision_impact) {
            unanswerable = true;
        }
        i = i + 1;
    }
    if untargeted {
        return Err(PlanError::new("review issues must include an explicit target".to_owned()));
    }
    if same_text(verdict, "pause_for_user_decision") && unanswerable {
        return Err(
            PlanError::new(
                "pause_for_user_decision issues must include non-empty question_for_user and decision_impact".to_owned(),
            ),
        );
    }
    Ok(())
}

/// Tells whether the text is there and is not blank.
pub fn option_is_given(text: &Option<String>) -> (r: bool)
    ensures
        r == is_given(text.deep_view()),
{
    match text {
        Some(t) => !is_blank(t.as_str()),
        None => false,
    }
}

// ---------------------------------------------------------------------
// Which approvals a review may take back
// ---------------------------------------------------------------------
/// The JSON that stands below a heading of the context.
pub open spec fn json_section_of(context: Seq<char>, title: Seq<char>) -> Option<Seq<char>> {
    match cut_at(context, "## "@ + title) {
        None => None,
        Some((_, section)) => match cut_at(section, "```json"@) {
            None => None,
            Some((_, json)) => {
                let body = match after_prefix(json, "\n"@) {
                    Some(rest) => rest,
                    None => json,
                };
                match cut_at(body, "```"@) {
                    None => None,
                    Some((text, _)) => Some(trimmed(text)),
                }
            },
        },
    }
}

/// The JSON that stands below a heading of the context.
pub fn json_section(context: &str, title: &str) -> (r: Option<String>)
    ensures
        r.deep_view() == json_section_of(context@, title@),
{
    let marker: String = concat2("## ", title);
    match split_once(context, marker.as_str()) {
        None => None,
        Some((_, section)) => match split_once(section.as_str(), "```json") {
            None => None,
            Some((_, json)) => {
                let body: String = match strip_prefix(json.as_str(), "\n") {
                    Some(rest) => rest,
                    None => json,
                };
                match split_once(body.as_str(), "```") {
                    None => None,
                    Some((text, _)) => Some(trim(text.as_str())),
                }
            },
        },
    }
}

/// The handoff says that the approval of a leaf of this parent is stale.
pub open spec fn is_stale_leaf_of(
    handoff: RefineStaleResultHandoffModel,
    parent_node_id: Seq<char>,
    parent_path: Seq<char>,
) -> bool {
    &&& handoff.target_kind == StaleGateTargetKind::Leaf
    &&& handoff.classification == RefineStaleGateClassification::Stale
    &&& trimmed(handoff.invalidation_reason).len() > 0
    &&& handoff.parent_node_id == Some(parent_node_id) || handoff.parent_relative_path == Some(
        parent_path,
    )
}

/// The ids with those of the stale leaves of this parent among the handoffs
/// from `i` on, each once.
pub open spec fn with_stale_leaves_from(
    handoffs: Seq<RefineStaleResultHandoffModel>,
    parent_node_id: Seq<char>,
    parent_path: Seq<char>,
    i: int,
    acc: Seq<Seq<char>>,
) -> Seq<Seq<char>>
    decreases handoffs.len() - i,
{
    if i >= handoffs.len() {
        acc
    } else {
        let next = match handoffs[i].node_id {
            Some(node_id) => if is_stale_leaf_of(handoffs[i], parent_node_id, parent_path) {
                with_unique(acc, node_id)
            } else {
                acc
            },
            None => acc,
        };
        with_stale_leaves_from(handoffs, parent_node_id, parent_path, i + 1, next)
    }
}

/// The ids, in order, of those of the rows that have no children.
pub open spec fn childless_from(
    runtime: RuntimeModel,
    plan_id: Seq<char>,
    rows: Seq<super::store::NodeRowModel>,
    i: int,
    acc: Seq<Seq<char>>,
) -> Seq<Seq<char>>
    decreases rows.len() - i,
{
    if i >= rows.len() {
        acc
    } else if runtime.has_children(plan_id, rows[i].node_id) {
        childless_from(runtime, plan_id, rows, i + 1, acc)
    } else {
        childless_from(runtime, plan_id, rows, i + 1, acc.push(rows[i].node_id))
    }
}

impl RuntimeModel {
    /// The ids of the leaves below a node, after those in `acc`, each once.
    /// At most `depth` levels are looked at.
    pub open spec fn leaves_below(
        self,
        plan_id: Seq<char>,
        node_id: Seq<char>,
        depth: nat,
        acc: Seq<Seq<char>>,
    ) -> Result<Seq<Seq<char>>, PlanErrorModel>
        decreases depth, 0nat,
    {
        if depth == 0 {
            Ok(acc)
        } else {
            match self.child_nodes(plan_id, Some(node_id)) {
                Err(error) => Err(error),
                Ok(children) => self.leaves_among(
                    plan_id,
                    children,
                    0,
                    (depth - 1) as nat,
                    acc,
                ),
            }
        }
    }

    /// The ids of the leaves among the nodes from `i` on and below them, after
    /// those in `acc`, each once.
    pub open spec fn leaves_among(
        self,
        plan_id: Seq<char>,
        nodes: Seq<NodeRecordModel>,
        i: nat,
        depth: nat,
        acc: Seq<Seq<char>>,
    ) -> Result<Seq<Seq<char>>, PlanErrorModel>
        decreases depth, nodes.len() - i,
    {
        if i >= nodes.len() {
            Ok(acc)
        } else {
            match nodes[i as int].node_kind {
                NodeKind::Leaf => self.leaves_among(
                    plan_id,
                    nodes,
                    i + 1,
                    depth,
                    with_unique(acc, nodes[i as int].node_id),
                ),
                NodeKind::Parent => match self.leaves_below(
                    plan_id,
                    nodes[i as int].node_id,
                    depth,
                    acc,
                ) {
                    Err(error) => Err(error),
                    Ok(next) => self.leaves_among(plan_id, nodes, i + 1, depth, next),
                },
            }
        }
    }

    /// The ids of the children of a node that have no children.
    pub open spec fn leaf_child_ids(self, plan_id: Seq<char>, parent_node_id: Seq<char>) -> Seq<
        Seq<char>,
    > {
        childless_from(
            self,
            plan_id,
            super::query::child_rows(
                self.nodes,
                plan_id,
                Some(parent_node_id),
                self.nodes.len() as int,
            ),
            0,
            Seq::empty(),
        )
    }

    /// The node is a leaf of the plan.
    pub open spec fn is_plan_leaf(self, plan_id: Seq<char>, node_id: Seq<char>) -> bool {
        exists|i: int|
            0 <= i < self.nodes.len() && (#[trigger] self.nodes[i]).plan_id == plan_id
                && self.nodes[i].node_kind == "leaf"@ && self.nodes[i].node_id == node_id
    }

    /// The ids of the leaves whose approval a review with this context may
    /// take back: those below the parent, and those that the context says are
    /// stale.
    pub open spec fn context_leaf_ids(
        self,
        plan_id: Seq<char>,
        parent_node_id: Seq<char>,
        context: Seq<char>,
        readings: Seq<ReadingModel<Seq<RefineStaleResultHandoffModel>>>,
    ) -> Result<Seq<Seq<char>>, PlanErrorModel> {
        match self.leaves_below(plan_id, parent_node_id, self.nodes.len(), Seq::empty()) {
            Err(error) => Err(error),
            Ok(below) => match self.node(plan_id, parent_node_id) {
                Err(error) => Err(error),
                Ok(parent) => match json_section_of(context, "Stale Handoff"@) {
                    None => Ok(below),
                    Some(json) => match reading_from(readings, json, 0) {
                        Err(source) => Err(
                            failure(source).under(
                                "failed to parse Stale Handoff refine context section"@,
                            ),
                        ),
                        Ok(handoffs) => Ok(
                            with_stale_leaves_from(
                                handoffs,
                                parent_node_id,
                                parent.relative_path,
                                0,
                                below,
                            ),
                        ),
                    },
                },
            },
        }
    }

    /// The ids from `i` on, after those in `acc`, each once; each must be a
    /// leaf of the plan and allowed.
    pub open spec fn allowed_ids_from(
        self,
        plan_id: Seq<char>,
        allowed: Seq<Seq<char>>,
        node_ids: Seq<Seq<char>>,
        i: int,
        acc: Seq<Seq<char>>,
    ) -> Result<Seq<Seq<char>>, PlanErrorModel>
        decreases node_ids.len() - i,
    {
        if i >= node_ids.len() {
            Ok(acc)
        } else if !self.is_plan_leaf(plan_id, node_ids[i]) {
            Err(
                failure(
                    "refine invalidatable node_id `"@ + node_ids[i]
                        + "` is not a tracked leaf in this plan"@,
                ),
            )
        } else if !allowed.contains(node_ids[i]) {
            Err(
                failure(
                    "refine invalidatable leaf `"@ + node_ids[i]
                        + "` is outside the reviewed frontier scope"@,
                ),
            )
        } else {
            self.allowed_ids_from(
                plan_id,
                allowed,
                node_ids,
                i + 1,
                with_unique(acc, node_ids[i]),
            )
        }
    }

    /// The ids of the leaves whose approval a frontier review may take back.
    pub open spec fn invalidatable_ids(
        self,
        request: RunFrontierReviewGateRequestModel,
        readings: Seq<ReadingModel<Seq<RefineStaleResultHandoffModel>>>,
    ) -> Result<Seq<Seq<char>>, PlanErrorModel> {
        match request.refine_revalidation_context {
            Some(context) => if trimmed(context).len() == 0 {
                Ok(self.leaf_child_ids(request.plan_id, request.parent_node_id))
            } else {
                match self.context_leaf_ids(
                    request.plan_id,
                    request.parent_node_id,
                    context,
                    readings,
                ) {
                    Err(error) => Err(error),
                    Ok(allowed) => match request.refine_invalidatable_leaf_node_ids {
                        Some(node_ids) => self.allowed_ids_from(
                            request.plan_id,
                            allowed,
                            node_ids,
                            0,
                            Seq::empty(),
                        ),
                        None => Ok(allowed),
                    },
                }
            },
            None => Ok(self.leaf_child_ids(request.plan_id, request.parent_node_id)),
        }
    }

    /// The lines of the passed reviews of the children from `i` on, after
    /// those in `acc`.
    pub open spec fn passed_reviews_from(
        self,
        plan_id: Seq<char>,
        children: Seq<NodeRecordModel>,
        i: int,
        acc: Seq<Seq<char>>,
    ) -> Seq<Seq<char>>
        decreases children.len() - i,
    {
        if i >= children.len() {
            acc
        } else if self.has_children(plan_id, children[i].node_id) {
            self.passed_reviews_from(plan_id, children, i + 1, acc)
        } else {
            match self.passed_leaf_gate(plan_id, children[i].node_id) {
                Some(summary) => self.passed_reviews_from(
                    plan_id,
                    children,
                    i + 1,
                    acc.push(passed_review_line(children[i], summary)),
                ),
                None => self.passed_reviews_from(plan_id, children, i + 1, acc),
            }
        }
    }

    /// The passed reviews of the children of a node.
    pub open spec fn passed_reviews(self, plan_id: Seq<char>, parent_node_id: Seq<char>) -> Result<
        Seq<char>,
        PlanErrorModel,
    > {
        match self.child_nodes(plan_id, Some(parent_node_id)) {
            Err(error) => Err(error),
            Ok(children) => {
                let lines = self.passed_reviews_from(plan_id, children, 0, Seq::empty());
                if lines.len() == 0 {
                    Ok("- No passed leaf review summaries are currently available."@)
                } else {
                    Ok(joined(lines, "\n"@))
                }
            },
        }
    }
}

impl Runtime {
    fn render_node_snapshot(files: &PlanFiles, plan_root: &str, nodes: &Vec<NodeRecord>) -> (r:
        Result<String, PlanError>)
        ensures
            outcome(r) == node_snapshot(files.deep_view(), plan_root@, nodes.deep_view()),
    {
        if nodes.len() == 0 {
            return Ok("_No nodes currently exist in this scope._".to_owned());
        }
        let ghost all = nodes.deep_view();
        let mut sections: Vec<String> = Vec::new();
        let mut i: usize = 0;
        assert(sections.deep_view() =~= Seq::empty());
        while i < nodes.len()
            invariant
                i <= nodes.len(),
                nodes.len() > 0,
                all == nodes.deep_view(),
                snapshot_from(files.deep_view(), plan_root@, all, 0, Seq::empty())
                    == snapshot_from(
                    files.deep_view(),
                    plan_root@,
                    all,
                    i as int,
                    sections.deep_view(),
                ),
            decreases nodes.len() - i,
        {
            let node: &NodeRecord = &nodes[i];
            assert(all[i as int] == node.deep_view());
            let ghost before = sections.deep_view();
            let markdown: String = read_plan_markdown(
                files,
                plan_root,
                node.relative_path.as_str(),
            )?;
            let section: String = concat7(
                "### Node `",
                node.node_id.as_str(),
                "` (`",
                node.relative_path.as_str(),
                "`)\n```markdown\n",
                markdown.as_str(),
                "\n```",
            );
            sections.push(section);
            assert(sections.deep_view() =~= before.push(section@));
            i = i + 1;
        }
        Ok(join(&sections, "\n\n"))
    }

    fn render_passed_leaf_review_summaries(&self, plan_id: &str, parent_node_id: &str) -> (r:
        Result<String, PlanError>)
        ensures
            outcome(r) == self.deep_view().passed_reviews(plan_id@, parent_node_id@),
    {
        let children: Vec<NodeRecord> = self.load_child_nodes(
            plan_id,
            &Some(parent_node_id.to_owned()),
        )?;
        let ghost all = children.deep_view();
        let mut lines: Vec<String> = Vec::new();
        let mut i: usize = 0;
        assert(lines.deep_view() =~= Seq::empty());
        while i < children.len()
            invariant
                i <= children.len(),
                all == children.deep_view(),
                self.deep_view().passed_reviews_from(plan_id@, all, 0, Seq::empty())
                    == self.deep_view().passed_reviews_from(
                    plan_id@,
                    all,
                    i as int,
                    lines.deep_view(),
                ),
            decreases children.len() - i,
        {
            let child: &NodeRecord = &children[i];
            assert(all[i as int] == child.deep_view());
            if !self.node_has_children(plan_id, child.node_id.as_str()) {
                match self.load_latest_passed_leaf_gate_summary(plan_id, child.node_id.as_str()) {
                    Some(summary) => {
                        let ghost before = lines.deep_view();
                        let start: String = concat5(
                            "- node_id `",
                            child.node_id.as_str(),
                            "` (`",
                            child.relative_path.as_str(),
                            "`), gate_run_id `",
                        );
                        let line: String = concat5(
                            start.as_str(),
                            summary.gate_run_id.as_str(),
                            "`, reviewer_role_id `",
                            summary.reviewer_role_id.as_str(),
                            "`: ",
                        );
                        let line: String = concat2(line.as_str(), summary.summary.as_str());
                        lines.push(line);
                        assert(lines.deep_view() =~= before.push(line@));
                    },
                    None => {},
                }
            }
            i = i + 1;
        }
        if lines.len() == 0 {
            Ok("- No passed leaf review summaries are currently available.".to_owned())
        } else {
            Ok(join(&lines, "\n"))
        }
    }

    fn collect_descendant_leaf_node_ids(
        &self,
        plan_id: &str,
        node_id: &str,
        depth: usize,
        node_ids: Vec<String>,
    ) -> (r: Result<Vec<String>, PlanError>)
        ensures
            outcome(r) == self.deep_view().leaves_below(
                plan_id@,
                node_id@,
                depth as nat,
                node_ids.deep_view(),
            ),
        decreases depth,
    {
        if depth == 0 {
            return Ok(node_ids);
        }
        let ghost first = node_ids.deep_view();
        let children: Vec<NodeRecord> = self.load_child_nodes(
            plan_id,
            &Some(node_id.to_owned()),
        )?;
        let ghost all = children.deep_view();
        let mut found: Vec<String> = node_ids;
        let mut i: usize = 0;
        while i < children.len()
            invariant
                i <= children.len(),
                depth > 0,
                all == children.deep_view(),
                self.deep_view().leaves_below(plan_id@, node_id@, depth as nat, first)
                    == self.deep_view().leaves_among(
                    plan_id@,
                    all,
                    i as nat,
                    (depth - 1) as nat,
                    found.deep_view(),
                ),
                first == node_ids.deep_view(),
            decreases children.len() - i,
        {
            let child: &NodeRecord = &children[i];
            assert(all[i as int] == child.deep_view());
            match child.node_kind {
                NodeKind::Leaf => {
                    push_unique(&mut found, child.node_id.as_str());
                },
                NodeKind::Parent => {
                    let start: Vec<String> = copy_list(&found);
                    found = self.collect_descendant_leaf_node_ids(
                        plan_id,
                        child.node_id.as_str(),
                        depth - 1,
                        start,
                    )?;
                },
            }
            i = i + 1;
        }
        Ok(found)
    }

    fn select_leaf_child_node_ids(&self, plan_id: &str, parent_node_id: &str) -> (r: Vec<String>)
        ensures
            r.deep_view() == self.deep_view().leaf_child_ids(plan_id@, parent_node_id@),
    {
        let rows: Vec<super::store::NodeRow> = self.load_child_rows(
            plan_id,
            &Some(parent_node_id.to_owned()),
        );
        let ghost all = rows.deep_view();
        let mut out: Vec<String> = Vec::new();
        let mut i: usize = 0;
        assert(out.deep_view() =~= Seq::empty());
        while i < rows.len()
            invariant
                i <= rows.len(),
                all == rows.deep_view(),
                childless_from(self.deep_view(), plan_id@, all, 0, Seq::empty())
                    == childless_from(
                    self.deep_view(),
                    plan_id@,
                    all,
                    i as int,
                    out.deep_view(),
                ),
            decreases rows.len() - i,
        {
            assert(all[i as int] == rows@[i as int].deep_view());
            if !self.node_has_children(plan_id, rows[i].node_id.as_str()) {
                let ghost before = out.deep_view();
                out.push(rows[i].node_id.clone());
                assert(out.deep_view() =~= before.push(rows@[i as int].node_id@));
            }
            i = i + 1;
        }
        out
    }

    fn node_is_plan_leaf(&self, plan_id: &str, node_id: &str) -> (r: bool)
        ensures
            r == self.deep_view().is_plan_leaf(plan_id@, node_id@),
    {
        let ghost all = self.deep_view().nodes;
        let mut i: usize = 0;
        while i < self.nodes.len()
            invariant
                i <= self.nodes.len(),
                all == self.nodes.deep_view(),
                forall|k: int|
                    0 <= k < i ==> !((#[trigger] all[k]).plan_id == plan_id@ && all[k].node_kind
                        == "leaf"@ && all[k].node_id == node_id@),
            decreases self.nodes.len() - i,
        {
            assert(all[i as int] == self.nodes@[i as int].deep_view());
            if same_text(self.nodes[i].plan_id.as_str(), plan_id) && same_text(
                self.nodes[i].node_kind.as_str(),
                "leaf",
            ) && same_text(self.nodes[i].node_id.as_str(), node_id) {
                return true;
            }
            i = i + 1;
        }
        false
    }

    #[verifier::loop_isolation(false)]
    fn select_refine_context_invalidatable_leaf_node_ids(
        &self,
        plan_id: &str,
        parent_node_id: &str,
        context: &str,
        readings: &Vec<Reading<Vec<RefineStaleResultHandoff>>>,
    ) -> (r: Result<Vec<String>, PlanError>)
        ensures
            outcome(r) == self.deep_view().context_leaf_ids(
                plan_id@,
                parent_node_id@,
                context@,
                readings.deep_view(),
            ),
    {
        let start: Vec<String> = Vec::new();
        assert(start.deep_view() =~= Seq::empty());
        let mut node_ids: Vec<String> = self.collect_descendant_leaf_node_ids(
            plan_id,
            parent_node_id,
            self.nodes.len(),
            start,
        )?;
        let parent: NodeRecord = self.load_node_record(plan_id, parent_node_id)?;
        let json: String = match json_section(context, "Stale Handoff") {
            Some(json) => json,
            None => {
                return Ok(node_ids);
            },
        };
        let handoffs: &Vec<RefineStaleResultHandoff> = match find_reading(
            readings,
            json.as_str(),
        ) {
            Ok(handoffs) => handoffs,
            Err(source) => {
                return Err(
                    PlanError::caused(
                        "failed to parse Stale Handoff refine context section".to_owned(),
                        source,
                    ),
                );
            },
        };
        let ghost all = handoffs.deep_view();
        let ghost below = node_ids.deep_view();
        let parent_path: &str = parent.relative_path.as_str();
        let mut i: usize = 0;
        while i < handoffs.len()
            invariant
                i <= handoffs.len(),
                with_stale_leaves_from(all, parent_node_id@, parent_path@, 0, below)
                    == with_stale_leaves_from(
                    all,
                    parent_node_id@,
                    parent_path@,
                    i as int,
                    node_ids.deep_view(),
                ),
            decreases handoffs.len() - i,
        {
            let handoff: &RefineStaleResultHandoff = &handoffs[i];
            assert(all[i as int] == handoff.deep_view());
            let is_leaf: bool = match handoff.target_kind {
                StaleGateTargetKind::Leaf => true,
                StaleGateTargetKind::Frontier => false,
            };
            let is_stale: bool = match handoff.classification {
                RefineStaleGateClassification::Stale => true,
                RefineStaleGateClassification::NotStale => false,
            };
            if is_leaf && is_stale && !is_blank(handoff.invalidation_reason.as_str()) && (is_text(
                &handoff.parent_node_id,
                parent_node_id,
            ) || is_text(&handoff.parent_relative_path, parent_path)) {
                match &handoff.node_id {
                    Some(node_id) => {
                        push_unique(&mut node_ids, node_id.as_str());
                    },
                    None => {},
                }
            }
            i = i + 1;
        }
        Ok(node_ids)
    }

    #[verifier::loop_isolation(false)]
    fn validate_refine_invalidatable_leaf_node_ids(
        &self,
        plan_id: &str,
        allowed: &Vec<String>,
        node_ids: &Vec<String>,
    ) -> (r: Result<Vec<String>, PlanError>)
        ensures
            outcome(r) == self.deep_view().allowed_ids_from(
                plan_id@,
                allowed.deep_view(),
                node_ids.deep_view(),
                0,
                Seq::empty(),
            ),
    {
        let ghost all = node_ids.deep_view();
        let mut valid: Vec<String> = Vec::new();
        let mut i: usize = 0;
        assert(valid.deep_view() =~= Seq::empty());
        while i < node_ids.len()
            invariant
                i <= node_ids.len(),
                self.deep_view().allowed_ids_from(
                    plan_id@,
                    allowed.deep_view(),
                    all,
                    0,
                    Seq::empty(),
                ) == self.deep_view().allowed_ids_from(
                    plan_id@,
                    allowed.deep_view(),
                    all,
                    i as int,
                    valid.deep_view(),
                ),
            decreases node_ids.len() - i,
        {
            let node_id: &str = node_ids[i].as_str();
            if !self.node_is_plan_leaf(plan_id, node_id) {
                return Err(
                    PlanError::new(
                        concat3(
                            "refine invalidatable node_id `",
                            node_id,
                            "` is not a tracked leaf in this plan",
                        ),
                    ),
                );
            }
            if !list_has(allowed, node_id) {
                return Err(
                    PlanError::new(
                        concat3(
                            "refine invalidatable leaf `",
                            node_id,
                            "` is outside the reviewed frontier scope",
                        ),
                    ),
                );
            }
            push_unique(&mut valid, node_id);
            i = i + 1;
        }
        Ok(valid)
    }

    fn select_invalidatable_ids(
        &self,
        request: &RunFrontierReviewGateRequest,
        readings: &Vec<Reading<Vec<RefineStaleResultHandoff>>>,
    ) -> (r: Result<Vec<String>, PlanError>)
        ensures
            outcome(r) == self.deep_view().invalidatable_ids(
                request.deep_view(),
                readings.deep_view(),
            ),
    {
        let plan_id: &str = request.plan_id.as_str();
        let parent_node_id: &str = request.parent_node_id.as_str();
        match &request.refine_revalidation_context {
            Some(context) => {
                if is_blank(context.as_str()) {
                    return Ok(self.select_leaf_child_node_ids(plan_id, parent_node_id));
                }
                let allowed: Vec<String> = self.select_refine_context_invalidatable_leaf_node_ids(
                    plan_id,
                    parent_node_id,
                    context.as_str(),
                    readings,
                )?;
                match &request.refine_invalidatable_leaf_node_ids {
                    Some(node_ids) => self.validate_refine_invalidatable_leaf_node_ids(
                        plan_id,
                        &allowed,
                        node_ids,
                    ),
                    None => Ok(allowed),
                }
            },
            None => Ok(self.select_leaf_child_node_ids(plan_id, parent_node_id)),
        }
    }
}

// ---------------------------------------------------------------------
// Leaf gates
// ---------------------------------------------------------------------
impl RuntimeModel {
    /// The plan and the leaf that a review is asked for.
    pub open spec fn leaf_gate_target(
        self,
        files: PlanFilesModel,
        request: RunLeafReviewGateRequestModel,
    ) -> Result<(GatePlanContextModel, NodeRecordModel), PlanErrorModel> {
        match self.gate_plan(request.plan_id) {
            Err(error) => Err(error),
            Ok(plan) => match self.node(request.plan_id, request.node_id) {
                Err(error) => Err(error),
                Ok(node) => match leaf_record_problem(node) {
                    Some(error) => Err(error),
                    None => if self.has_children(request.plan_id, request.node_id) {
                        Err(
                            failure(
                                "node_id `"@ + request.node_id
                                    + "` is not eligible for leaf review because it has child nodes"@,
                            ),
                        )
                    } else {
                        match markdown_file_problem(files, plan.plan_root, node.relative_path) {
                            Some(error) => Err(error),
                            None => Ok((plan, node)),
                        }
                    },
                },
            },
        }
    }

    /// What the judge of a leaf is asked, and how it is run.
    pub open spec fn leaf_gate(
        self,
        files: PlanFilesModel,
        skill: Result<SkillFilesModel, PlanErrorModel>,
        request: RunLeafReviewGateRequestModel,
    ) -> Result<PreparedGateModel, PlanErrorModel> {
        match self.leaf_gate_target(files, request) {
            Err(error) => Err(error),
            Ok((plan, node)) => match skill {
                Err(error) => Err(error),
                Ok(skill) => match gate_role(skill, plan.task_type, NodeKind::Leaf) {
                    Err(error) => Err(error),
                    Ok((role_id, role_prompt, executor)) => match skill.prompt(
                        "domain_contract"@,
                    ) {
                        Err(error) => Err(error),
                        Ok(domain_contract) => match skill.prompt("leaf_runtime"@) {
                            Err(error) => Err(error),
                            Ok(runtime_prompt) => match self.child_nodes(
                                request.plan_id,
                                node.parent_node_id,
                            ) {
                                Err(error) => Err(error),
                                Ok(siblings) => match node_snapshot(
                                    files,
                                    plan.plan_root,
                                    siblings,
                                ) {
                                    Err(error) => Err(error),
                                    Ok(snapshot) => match plan_markdown(
                                        files,
                                        plan.plan_root,
                                        node.relative_path,
                                    ) {
                                        Err(error) => Err(error),
                                        Ok(markdown) => Ok(
                                            PreparedGateModel {
                                                prompt: leaf_prompt(
                                                    prompt_template(
                                                        domain_contract,
                                                        role_prompt,
                                                        runtime_prompt,
                                                    ),
                                                    request,
                                                    plan,
                                                    node,
                                                    markdown,
                                                    snapshot,
                                                ),
                                                reviewer_role_id: role_id,
                                                executor,
                                                project_directory: plan.project_directory,
                                            },
                                        ),
                                    },
                                },
                            },
                        },
                    },
                },
            },
        }
    }

    /// The runtime after the review of a leaf, and the answer, given what the
    /// judge replied.
    pub open spec fn leaf_gate_run(
        self,
        files: PlanFilesModel,
        skill: Result<SkillFilesModel, PlanErrorModel>,
        request: RunLeafReviewGateRequestModel,
        gate_run_id: Seq<char>,
        reply: Result<Seq<char>, PlanErrorModel>,
        readings: Seq<ReadingModel<LeafReviewerOutputModel>>,
        created_at: i64,
    ) -> (RuntimeModel, Result<RunLeafReviewGateResponseModel, PlanErrorModel>) {
        match self.leaf_gate(files, skill, request) {
            Err(error) => (self, Err(error)),
            Ok(gate) => match reply {
                Err(error) => (self, Err(error)),
                Ok(text) => match reading_from(readings, text, 0) {
                    Err(source) => (
                        self,
                        Err(
                            failure(source).under("failed to parse leaf review JSON result"@),
                        ),
                    ),
                    Ok(output) => match leaf_verdict(output.verdict) {
                        Err(error) => (self, Err(error)),
                        Ok(passed) => match review_issues_problem(
                            output.verdict,
                            output.issues,
                            passed,
                        ) {
                            Some(error) => (self, Err(error)),
                            None => if has_leaf_run(self.leaf_gate_runs, gate_run_id) {
                                (self, Err(failure("failed to persist leaf gate run"@)))
                            } else {
                                (
                                    RuntimeModel {
                                        leaf_gate_runs: self.leaf_gate_runs.push(
                                            LeafGateRunModel {
                                                gate_run_id,
                                                plan_id: request.plan_id,
                                                node_id: request.node_id,
                                                planner_mode: request.planner_mode,
                                                reviewer_role_id: gate.reviewer_role_id,
                                                passed,
                                                verdict: output.verdict,
                                                summary: output.summary,
                                                issues: output.issues,
                                                created_at,
                                            },
                                        ),
                                        ..self
                                    },
                                    Ok(
                                        RunLeafReviewGateResponseModel {
                                            gate_run_id,
                                            passed,
                                            verdict: output.verdict,
                                            summary: output.summary,
                                            reviewer_role_id: gate.reviewer_role_id,
                                            issues: output.issues,
                                        },
                                    ),
                                )
                            },
                        },
                    },
                },
            },
        }
    }
}

/// A review of a leaf with this id is remembered.
pub open spec fn has_leaf_run(runs: Seq<LeafGateRunModel>, gate_run_id: Seq<char>) -> bool {
    exists|i: int| 0 <= i < runs.len() && (#[trigger] runs[i]).gate_run_id == gate_run_id
}

/// A review of a parent with this id is remembered.
pub open spec fn has_frontier_run(runs: Seq<FrontierGateRunModel>, gate_run_id: Seq<char>) -> bool {
    exists|i: int| 0 <= i < runs.len() && (#[trigger] runs[i]).gate_run_id == gate_run_id
}

/// The judge of a task type: its id, its prompt, and how it is run.
pub open spec fn gate_role(skill: SkillFilesModel, task_type: Seq<char>, kind: NodeKind) -> Result<
    (Seq<char>, Seq<char>, ExecutorProfileModel),
    PlanErrorModel,
> {
    match skill.manifest() {
        Err(error) => Err(error),
        Ok(manifest) => match skill.gate_roles(manifest, task_type) {
            Err(error) => Err(error),
            Ok(roles) => {
                let role_id = match kind {
                    NodeKind::Leaf => roles.leaf_reviewer_role_id,
                    NodeKind::Parent => roles.frontier_reviewer_role_id,
                };
                let role_kind = match kind {
                    NodeKind::Leaf => "leaf_reviewer"@,
                    NodeKind::Parent => "frontier_reviewer"@,
                };
                match skill.role_definition(manifest, task_type, role_kind, role_id) {
                    Err(error) => Err(error),
                    Ok((_, prompt, _, executor)) => Ok((role_id, prompt, executor)),
                }
            },
        },
    }
}

/// The prompt of a leaf review: each placeholder filled, one after the other.
pub open spec fn leaf_prompt(
    template: Seq<char>,
    request: RunLeafReviewGateRequestModel,
    plan: GatePlanContextModel,
    node: NodeRecordModel,
    markdown: Seq<char>,
    snapshot: Seq<char>,
) -> Seq<char> {
    let step1 = filled_in(template, "planner_mode"@, request.planner_mode.name());
    let step2 = filled_in(step1, "plan_id"@, plan.plan_id);
    let step3 = filled_in(step2, "node_id"@, node.node_id);
    let step4 = filled_in(step3, "plan_root_path"@, plan.plan_root);
    let step5 = filled_in(step4, "project_directory"@, plan.project_directory);
    let step6 = filled_in(step5, "leaf_node_markdown"@, markdown);
    let step7 = filled_in(step6, "parent_expansion_snapshot"@, snapshot);
    filled_in(
        step7,
        "refine_revalidation_context"@,
        rendered_context(request.refine_revalidation_context),
    )
}

/// The prompt of a frontier review: each placeholder filled, one after the
/// other.
pub open spec fn frontier_prompt(
    template: Seq<char>,
    request: RunFrontierReviewGateRequestModel,
    plan: GatePlanContextModel,
    node: NodeRecordModel,
    markdown: Seq<char>,
    snapshot: Seq<char>,
    passed_reviews: Seq<char>,
) -> Seq<char> {
    let step1 = filled_in(template, "planner_mode"@, request.planner_mode.name());
    let step2 = filled_in(step1, "plan_id"@, plan.plan_id);
    let step3 = filled_in(step2, "parent_node_id"@, node.node_id);
    let step4 = filled_in(step3, "plan_root_path"@, plan.plan_root);
    let step5 = filled_in(step4, "project_directory"@, plan.project_directory);
    let step6 = filled_in(step5, "parent_node_markdown"@, markdown);
    let step7 = filled_in(step6, "frontier_expansion_snapshot"@, snapshot);
    let step8 = filled_in(step7, "passed_leaf_review_summaries"@, passed_reviews);
    filled_in(
        step8,
        "refine_revalidation_context"@,
        rendered_context(request.refine_revalidation_context),
    )
}

fn render_optional_refine_context(context: &Option<String>) -> (r: String)
    ensures
        r@ == rendered_context(context.deep_view()),
{
    match context {
        Some(text) => {
            let cut: String = trim(text.as_str());
            if cut.as_str().unicode_len() > 0 {
                cut
            } else {
                "No refine revalidation context supplied.".to_owned()
            }
        },
        None => "No refine revalidation context supplied.".to_owned(),
    }
}

fn load_gate_role(skill: &SkillFiles, task_type: &str, kind: NodeKind) -> (r: Result<
    (String, String, ExecutorProfile),
    PlanError,
>)
    ensures
        outcome(r) == gate_role(skill.deep_view(), task_type@, kind),
{
    let manifest: Manifest = load_manifest(skill)?;
    let roles: ResolvedGateRoleSelection = resolve_gate_roles(skill, &manifest, task_type)?;
    let (role_id, role_kind): (String, &str) = match kind {
        NodeKind::Leaf => (roles.leaf_reviewer_role_id, "leaf_reviewer"),
        NodeKind::Parent => (roles.frontier_reviewer_role_id, "frontier_reviewer"),
    };
    let (_, prompt, _, executor): (String, String, RoleFrontMatter, ExecutorProfile) =
        load_task_type_role_definition(
        skill,
        &manifest,
        task_type,
        role_kind,
        role_id.as_str(),
    )?;
    Ok((role_id, prompt, executor))
}

fn concat_prompt(domain_contract: &str, role_prompt: &str, runtime_prompt: &str) -> (r: String)
    ensures
        r@ == prompt_template(domain_contract@, role_prompt@, runtime_prompt@),
{
    concat5(domain_contract, "\n\n", role_prompt, "\n\n", runtime_prompt)
}

fn render_leaf_prompt(
    template: &str,
    request: &RunLeafReviewGateRequest,
    plan: &GatePlanContext,
    node: &NodeRecord,
    markdown: &str,
    snapshot: &str,
) -> (r: String)
    ensures
        r@ == leaf_prompt(
            template@,
            request.deep_view(),
            plan.deep_view(),
            node.deep_view(),
            markdown@,
            snapshot@,
        ),
{
    let step1: String = fill_in(template, "planner_mode", request.planner_mode.as_str());
    let step2: String = fill_in(step1.as_str(), "plan_id", plan.plan_id.as_str());
    let step3: String = fill_in(step2.as_str(), "node_id", node.node_id.as_str());
    let step4: String = fill_in(step3.as_str(), "plan_root_path", plan.plan_root.as_str());
    let step5: String = fill_in(
        step4.as_str(),
        "project_directory",
        plan.project_directory.as_str(),
    );
    let step6: String = fill_in(step5.as_str(), "leaf_node_markdown", markdown);
    let step7: String = fill_in(step6.as_str(), "parent_expansion_snapshot", snapshot);
    let context: String = render_optional_refine_context(&request.refine_revalidation_context);
    fill_in(step7.as_str(), "refine_revalidation_context", context.as_str())
}

fn render_frontier_prompt(
    template: &str,
    request: &RunFrontierReviewGateRequest,
    plan: &GatePlanContext,
    node: &NodeRecord,
    markdown: &str,
    snapshot: &str,
    passed_reviews: &str,
) -> (r: String)
    ensures
        r@ == frontier_prompt(
            template@,
            request.deep_view(),
            plan.deep_view(),
            node.deep_view(),
            markdown@,
            snapshot@,
            passed_reviews@,
        ),
{
    let step1: String = fill_in(template, "planner_mode", request.planner_mode.as_str());
    let step2: String = fill_in(step1.as_str(), "plan_id", plan.plan_id.as_str());
    let step3: String = fill_in(step2.as_str(), "parent_node_id", node.node_id.as_str());
    let step4: String = fill_in(step3.as_str(), "plan_root_path", plan.plan_root.as_str());
    let step5: String = fill_in(
        step4.as_str(),
        "project_directory",
        plan.project_directory.as_str(),
    );
    let step6: String = fill_in(step5.as_str(), "parent_node_markdown", markdown);
    let step7: String = fill_in(step6.as_str(), "frontier_expansion_snapshot", snapshot);
    let step8: String = fill_in(step7.as_str(), "passed_leaf_review_summaries", passed_reviews);
    let context: String = render_optional_refine_context(&request.refine_revalidation_context);
    fill_in(step8.as_str(), "refine_revalidation_context", context.as_str())
}

fn skill_of(skill: &Result<SkillFiles, PlanError>) -> (r: Result<&SkillFiles, PlanError>)
    ensures
        match (skill, r) {
            (Ok(a), Ok(b)) => a == b,
            (Err(a), Err(b)) => a.deep_view() == b.deep_view(),
            _ => false,
        },
{
    match skill {
        Ok(files) => Ok(files),
        Err(error) => Err(error.clone()),
    }
}

impl Runtime {
    fn load_leaf_gate_target(&self, files: &PlanFiles, request: &RunLeafReviewGateRequest) -> (r:
        Result<(GatePlanContext, NodeRecord), PlanError>)
        ensures
            outcome(r) == self.deep_view().leaf_gate_target(
                files.deep_view(),
                request.deep_view(),
            ),
    {
        let plan_id: &str = request.plan_id.as_str();
        let node_id: &str = request.node_id.as_str();
        let plan: GatePlanContext = self.load_gate_plan_context(plan_id)?;
        let node: NodeRecord = self.load_node_record(plan_id, node_id)?;
        require_leaf_node_record(&node)?;
        if self.node_has_children(plan_id, node_id) {
            return Err(
                PlanError::new(
                    concat3(
                        "node_id `",
                        node_id,
                        "` is not eligible for leaf review because it has child nodes",
                    ),
                ),
            );
        }
        ensure_plan_markdown_file_exists(
            files,
            plan.plan_root.as_str(),
            node.relative_path.as_str(),
        )?;
        Ok((plan, node))
    }

    /// What the judge of a leaf is asked, and how it is run.
    pub fn prepare_leaf_review_gate(
        &self,
        files: &PlanFiles,
        skill: &Result<SkillFiles, PlanError>,
        request: &RunLeafReviewGateRequest,
    ) -> (r: Result<PreparedGate, PlanError>)
        ensures
            outcome(r) == self.deep_view().leaf_gate(
                files.deep_view(),
                outcome(*skill),
                request.deep_view(),
            ),
    {
        let (plan, node): (GatePlanContext, NodeRecord) = self.load_leaf_gate_target(
            files,
            request,
        )?;
        let skill: &SkillFiles = skill_of(skill)?;
        let (role_id, role_prompt, executor): (String, String, ExecutorProfile) = load_gate_role(
            skill,
            plan.task_type.as_str(),
            NodeKind::Leaf,
        )?;
        let domain_contract: String = load_domain_contract_prompt(skill)?;
        let runtime_prompt: String = load_leaf_runtime_prompt(skill)?;
        let siblings: Vec<NodeRecord> = self.load_child_nodes(
            request.plan_id.as_str(),
            &node.parent_node_id,
        )?;
        let snapshot: String = Runtime::render_node_snapshot(
            files,
            plan.plan_root.as_str(),
            &siblings,
        )?;
        let markdown: String = read_plan_markdown(
            files,
            plan.plan_root.as_str(),
            node.relative_path.as_str(),
        )?;
        let template: String = concat_prompt(
            domain_contract.as_str(),
            role_prompt.as_str(),
            runtime_prompt.as_str(),
        );
        let prompt: String = render_leaf_prompt(
            template.as_str(),
            request,
            &plan,
            &node,
            markdown.as_str(),
            snapshot.as_str(),
        );
        Ok(
            PreparedGate {
                prompt,
                reviewer_role_id: role_id,
                executor,
                project_directory: plan.project_directory,
            },
        )
    }

    fn leaf_run_is_known(&self, gate_run_id: &str) -> (r: bool)
        ensures
            r == has_leaf_run(self.deep_view().leaf_gate_runs, gate_run_id@),
    {
        let ghost all = self.deep_view().leaf_gate_runs;
        let mut i: usize = 0;
        while i < self.leaf_gate_runs.len()
            invariant
                i <= self.leaf_gate_runs.len(),
                all == self.leaf_gate_runs.deep_view(),
                forall|k: int| 0 <= k < i ==> (#[trigger] all[k]).gate_run_id != gate_run_id@,
            decreases self.leaf_gate_runs.len() - i,
        {
            assert(all[i as int] == self.leaf_gate_runs@[i as int].deep_view());
            if same_text(self.leaf_gate_runs[i].gate_run_id.as_str(), gate_run_id) {
                return true;
            }
            i = i + 1;
        }
        false
    }

    fn frontier_run_is_known(&self, gate_run_id: &str) -> (r: bool)
        ensures
            r == has_frontier_run(self.deep_view().frontier_gate_runs, gate_run_id@),
    {
        let ghost all = self.deep_view().frontier_gate_runs;
        let mut i: usize = 0;
        while i < self.frontier_gate_runs.len()
            invariant
                i <= self.frontier_gate_runs.len(),
                all == self.frontier_gate_runs.deep_view(),
                forall|k: int| 0 <= k < i ==> (#[trigger] all[k]).gate_run_id != gate_run_id@,
            decreases self.frontier_gate_runs.len() - i,
        {
            assert(all[i as int] == self.frontier_gate_runs@[i as int].deep_view());
            if same_text(self.frontier_gate_runs[i].gate_run_id.as_str(), gate_run_id) {
                return true;
            }
            i = i + 1;
        }
        false
    }

    /// The review of a leaf: checks what the judge replied, remembers it,
    /// and answers.
    pub fn run_leaf_review_gate(
        &mut self,
        files: &PlanFiles,
        skill: &Result<SkillFiles, PlanError>,
        request: RunLeafReviewGateRequest,
        gate_run_id: &str,
        reply: Result<String, PlanError>,
        readings: &Vec<Reading<LeafReviewerOutput>>,
        created_at: i64,
    ) -> (r: Result<RunLeafReviewGateResponse, PlanError>)
        ensures
            (final(self).deep_view(), outcome(r)) == old(self).deep_view().leaf_gate_run(
                files.deep_view(),
                outcome(*skill),
                request.deep_view(),
                gate_run_id@,
                outcome(reply),
                readings.deep_view(),
                created_at,
            ),
    {
        let gate: PreparedGate = self.prepare_leaf_review_gate(files, skill, &request)?;
        let text: String = reply?;
        let output: &LeafReviewerOutput = match find_reading(readings, text.as_str()) {
            Ok(output) => output,
            Err(source) => {
                return Err(
                    PlanError::caused(
                        "failed to parse leaf review JSON result".to_owned(),
                        source,
                    ),
                );
            },
        };
        let verdict: &str = output.verdict.as_str();
        let passed: bool = if same_text(verdict, "approved_as_leaf") {
            true
        } else if same_text(verdict, "revise_leaf") || same_text(verdict, "must_expand")
            || same_text(verdict, "pause_for_user_decision") {
            false
        } else {
            return Err(
                PlanError::new(concat3("unsupported leaf review verdict `", verdict, "`")),
            );
        };
        validate_review_issues(verdict, &output.issues, passed)?;
        if self.leaf_run_is_known(gate_run_id) {
            return Err(PlanError::new("failed to persist leaf gate run".to_owned()));
        }
        let copy: LeafReviewerOutput = output.clone();
        let run: LeafGateRun = LeafGateRun {
            gate_run_id: gate_run_id.to_owned(),
            plan_id: request.plan_id,
            node_id: request.node_id,
            planner_mode: request.planner_mode,
            reviewer_role_id: gate.reviewer_role_id.clone(),
            passed,
            verdict: copy.verdict,
            summary: copy.summary,
            issues: copy.issues,
            created_at,
        };
        let ghost model = run.deep_view();
        let ghost before = self.leaf_gate_runs.deep_view();
        self.leaf_gate_runs.push(run);
        assert(self.leaf_gate_runs.deep_view() =~= before.push(model));
        let answer: LeafReviewerOutput = output.clone();
        Ok(
            RunLeafReviewGateResponse {
                gate_run_id: gate_run_id.to_owned(),
                passed,
                verdict: answer.verdict,
                summary: answer.summary,
                reviewer_role_id: gate.reviewer_role_id,
                issues: answer.issues,
            },
        )
    }
}

// ---------------------------------------------------------------------
// Frontier gates
// ---------------------------------------------------------------------
/// Why one of the ids from `i` on may not be taken back.
pub open spec fn unknown_invalidation_from(
    node_ids: Seq<Seq<char>>,
    valid: Seq<Seq<char>>,
    parent_node_id: Seq<char>,
    i: int,
) -> Option<PlanErrorModel>
    decreases node_ids.len() - i,
{
    if i >= node_ids.len() {
        None
    } else if !valid.contains(node_ids[i]) {
        Some(
            failure(
                "frontier review invalidated unknown leaf child `"@ + node_ids[i]
                    + "` for parent `"@ + parent_node_id + "`"@,
            ),
        )
    } else {
        unknown_invalidation_from(node_ids, valid, parent_node_id, i + 1)
    }
}

impl RuntimeModel {
    /// The plan and the parent that a review is asked for.
    pub open spec fn frontier_gate_target(
        self,
        files: PlanFilesModel,
        request: RunFrontierReviewGateRequestModel,
    ) -> Result<(GatePlanContextModel, NodeRecordModel), PlanErrorModel> {
        match self.gate_plan(request.plan_id) {
            Err(error) => Err(error),
            Ok(plan) => match self.node(request.plan_id, request.parent_node_id) {
                Err(error) => Err(error),
                Ok(node) => match parent_record_problem(node) {
                    Some(error) => Err(error),
                    None => match markdown_file_problem(files, plan.plan_root, node.relative_path) {
                        Some(error) => Err(error),
                        None => match self.coherence_problem(request.plan_id, node) {
                            Some(error) => Err(error),
                            None => Ok((plan, node)),
                        },
                    },
                },
            },
        }
    }

    /// What the judge of a parent and its children is asked, and how it is
    /// run.
    pub open spec fn frontier_review(
        self,
        files: PlanFilesModel,
        skill: Result<SkillFilesModel, PlanErrorModel>,
        request: RunFrontierReviewGateRequestModel,
    ) -> Result<PreparedGateModel, PlanErrorModel> {
        match self.frontier_gate_target(files, request) {
            Err(error) => Err(error),
            Ok((plan, node)) => match skill {
                Err(error) => Err(error),
                Ok(skill) => match gate_role(skill, plan.task_type, NodeKind::Parent) {
                    Err(error) => Err(error),
                    Ok((role_id, role_prompt, executor)) => match skill.prompt(
                        "domain_contract"@,
                    ) {
                        Err(error) => Err(error),
                        Ok(domain_contract) => match skill.prompt("frontier_runtime"@) {
                            Err(error) => Err(error),
                            Ok(runtime_prompt) => match self.child_nodes(
                                request.plan_id,
                                Some(request.parent_node_id),
                            ) {
                                Err(error) => Err(error),
                                Ok(children) => match node_snapshot(
                                    files,
                                    plan.plan_root,
                                    children,
                                ) {
                                    Err(error) => Err(error),
                                    Ok(snapshot) => match plan_markdown(
                                        files,
                                        plan.plan_root,
                                        node.relative_path,
                                    ) {
                                        Err(error) => Err(error),
                                        Ok(markdown) => match self.passed_reviews(
                                            request.plan_id,
                                            request.parent_node_id,
                                        ) {
                                            Err(error) => Err(error),
                                            Ok(reviews) => Ok(
                                                PreparedGateModel {
                                                    prompt: frontier_prompt(
                                                        prompt_template(
                                                            domain_contract,
                                                            role_prompt,
                                                            runtime_prompt,
                                                        ),
                                                        request,
                                                        plan,
                                                        node,
                                                        markdown,
                                                        snapshot,
                                                        reviews,
                                                    ),
                                                    reviewer_role_id: role_id,
                                                    executor,
                                                    project_directory: plan.project_directory,
                                                },
                                            ),
                                        },
                                    },
                                },
                            },
                        },
                    },
                },
            },
        }
    }

    /// Why a frontier judge's answer is not accepted, and else whether it
    /// passes.
    pub open spec fn frontier_answer(
        self,
        request: RunFrontierReviewGateRequestModel,
        output: FrontierReviewerOutputModel,
        handoff_readings: Seq<ReadingModel<Seq<RefineStaleResultHandoffModel>>>,
    ) -> Result<bool, PlanErrorModel> {
        match frontier_verdict(output.verdict) {
            Err(error) => Err(error),
            Ok(passed) => match review_issues_problem(output.verdict, output.issues, passed) {
                Some(error) => Err(error),
                None => match self.invalidatable_ids(request, handoff_readings) {
                    Err(error) => Err(error),
                    Ok(valid) => match unknown_invalidation_from(
                        output.invalidated_leaf_node_ids,
                        valid,
                        request.parent_node_id,
                        0,
                    ) {
                        Some(error) => Err(error),
                        None => if passed && output.invalidated_leaf_node_ids.len() > 0 {
                            Err(
                                failure("approved_frontier must not invalidate leaf approvals"@),
                            )
                        } else {
                            Ok(passed)
                        },
                    },
                },
            },
        }
    }

    /// The runtime after the review of a parent and its children, and the
    /// answer, given what the judge replied.
    pub open spec fn frontier_gate_run(
        self,
        files: PlanFilesModel,
        skill: Result<SkillFilesModel, PlanErrorModel>,
        request: RunFrontierReviewGateRequestModel,
        gate_run_id: Seq<char>,
        reply: Result<Seq<char>, PlanErrorModel>,
        readings: Seq<ReadingModel<FrontierReviewerOutputModel>>,
        handoff_readings: Seq<ReadingModel<Seq<RefineStaleResultHandoffModel>>>,
        created_at: i64,
    ) -> (RuntimeModel, Result<RunFrontierReviewGateResponseModel, PlanErrorModel>) {
        match self.frontier_review(files, skill, request) {
            Err(error) => (self, Err(error)),
            Ok(gate) => match reply {
                Err(error) => (self, Err(error)),
                Ok(text) => match reading_from(readings, text, 0) {
                    Err(source) => (
                        self,
                        Err(
                            failure(source).under("failed to parse frontier review JSON result"@),
                        ),
                    ),
                    Ok(output) => match self.frontier_answer(request, output, handoff_readings) {
                        Err(error) => (self, Err(error)),
                        Ok(passed) => if has_frontier_run(self.frontier_gate_runs, gate_run_id) {
                            (self, Err(failure("failed to persist frontier gate run"@)))
                        } else {
                            (
                                RuntimeModel {
                                    frontier_gate_runs: self.frontier_gate_runs.push(
                                        FrontierGateRunModel {
                                            gate_run_id,
                                            plan_id: request.plan_id,
                                            parent_node_id: request.parent_node_id,
                                            planner_mode: request.planner_mode,
                                            reviewer_role_id: gate.reviewer_role_id,
                                            passed,
                                            verdict: output.verdict,
                                            summary: output.summary,
                                            issues: output.issues,
                                            invalidated_leaf_node_ids:
                                                output.invalidated_leaf_node_ids,
                                            created_at,
                                        },
                                    ),
                                    ..self
                                },
                                Ok(
                                    RunFrontierReviewGateResponseModel {
                                        gate_run_id,
                                        passed,
                                        verdict: output.verdict,
                                        summary: output.summary,
                                        reviewer_role_id: gate.reviewer_role_id,
                                        issues: output.issues,
                                        invalidated_leaf_node_ids: output.invalidated_leaf_node_ids,
                                    },
                                ),
                            )
                        },
                    },
                },
            },
        }
    }
}

fn reject_unknown_invalidations(
    node_ids: &Vec<String>,
    valid: &Vec<String>,
    parent_node_id: &str,
) -> (r: Result<(), PlanError>)
    ensures
        outcome(r) == checked(
            unknown_invalidation_from(
                node_ids.deep_view(),
                valid.deep_view(),
                parent_node_id@,
                0,
            ),
        ),
{
    let ghost all = node_ids.deep_view();
    let mut i: usize = 0;
    while i < node_ids.len()
        invariant
            i <= node_ids.len(),
            all == node_ids.deep_view(),
            unknown_invalidation_from(all, valid.deep_view(), parent_node_id@, 0)
                == unknown_invalidation_from(
                all,
                valid.deep_view(),
                parent_node_id@,
                i as int,
            ),
        decreases node_ids.len() - i,
    {
        if !list_has(valid, node_ids[i].as_str()) {
            return Err(
                PlanError::new(
                    concat5(
                        "frontier review invalidated unknown leaf child `",
                        node_ids[i].as_str(),
                        "` for parent `",
                        parent_node_id,
                        "`",
                    ),
                ),
            );
        }
        i = i + 1;
    }
    Ok(())
}

impl Runtime {
    fn load_frontier_gate_target(
        &self,
        files: &PlanFiles,
        request: &RunFrontierReviewGateRequest,
    ) -> (r: Result<(GatePlanContext, NodeRecord), PlanError>)
        ensures
            outcome(r) == self.deep_view().frontier_gate_target(
                files.deep_view(),
                request.deep_view(),
            ),
    {
        let plan_id: &str = request.plan_id.as_str();
        let plan: GatePlanContext = self.load_gate_plan_context(plan_id)?;
        let node: NodeRecord = self.load_node_record(plan_id, request.parent_node_id.as_str())?;
        require_parent_node_record(&node)?;
        ensure_plan_markdown_file_exists(
            files,
            plan.plan_root.as_str(),
            node.relative_path.as_str(),
        )?;
        self.ensure_parent_child_runtime_coherence(plan_id, &node)?;
        Ok((plan, node))
    }

    /// What the judge of a parent and its children is asked, and how it is
    /// run.
    pub fn prepare_frontier_review_gate(
        &self,
        files: &PlanFiles,
        skill: &Result<SkillFiles, PlanError>,
        request: &RunFrontierReviewGateRequest,
    ) -> (r: Result<PreparedGate, PlanError>)
        ensures
            outcome(r) == self.deep_view().frontier_review(
                files.deep_view(),
                outcome(*skill),
                request.deep_view(),
            ),
    {
        let plan_id: &str = request.plan_id.as_str();
        let parent_node_id: &str = request.parent_node_id.as_str();
        let (plan, node): (GatePlanContext, NodeRecord) = self.load_frontier_gate_target(
            files,
            request,
        )?;
        let skill: &SkillFiles = skill_of(skill)?;
        let (role_id, role_prompt, executor): (String, String, ExecutorProfile) = load_gate_role(
            skill,
            plan.task_type.as_str(),
            NodeKind::Parent,
        )?;
        let domain_contract: String = load_domain_contract_prompt(skill)?;
        let runtime_prompt: String = load_frontier_runtime_prompt(skill)?;
        let children: Vec<NodeRecord> = self.load_child_nodes(
            plan_id,
            &Some(parent_node_id.to_owned()),
        )?;
        let snapshot: String = Runtime::render_node_snapshot(
            files,
            plan.plan_root.as_str(),
            &children,
        )?;
        let markdown: String = read_plan_markdown(
            files,
            plan.plan_root.as_str(),
            node.relative_path.as_str(),
        )?;
        let reviews: String = self.render_passed_leaf_review_summaries(plan_id, parent_node_id)?;
        let template: String = concat_prompt(
            domain_contract.as_str(),
            role_prompt.as_str(),
            runtime_prompt.as_str(),
        );
        let prompt: String = render_frontier_prompt(
            template.as_str(),
            request,
            &plan,
            &node,
            markdown.as_str(),
            snapshot.as_str(),
            reviews.as_str(),
        );
        Ok(
            PreparedGate {
                prompt,
                reviewer_role_id: role_id,
                executor,
                project_directory: plan.project_directory,
            },
        )
    }

    fn judge_frontier_answer(
        &self,
        request: &RunFrontierReviewGateRequest,
        output: &FrontierReviewerOutput,
        handoff_readings: &Vec<Reading<Vec<RefineStaleResultHandoff>>>,
    ) -> (r: Result<bool, PlanError>)
        ensures
            outcome(r) == self.deep_view().frontier_answer(
                request.deep_view(),
                output.deep_view(),
                handoff_readings.deep_view(),
            ),
    {
        let verdict: &str = output.verdict.as_str();
        let passed: bool = if same_text(verdict, "approved_frontier") {
            true
        } else if same_text(verdict, "revise_frontier") || same_text(
            verdict,
            "reopen_parent_scope",
        ) || same_text(verdict, "pause_for_user_decision") {
            false
        } else {
            return Err(
                PlanError::new(concat3("unsupported frontier review verdict `", verdict, "`")),
            );
        };
        validate_review_issues(verdict, &output.issues, passed)?;
        let valid: Vec<String> = self.select_invalidatable_ids(request, handoff_readings)?;
        reject_unknown_invalidations(
            &output.invalidated_leaf_node_ids,
            &valid,
            request.parent_node_id.as_str(),
        )?;
        if passed && output.invalidated_leaf_node_ids.len() > 0 {
            return Err(
                PlanError::new("approved_frontier must not invalidate leaf approvals".to_owned()),
            );
        }
        Ok(passed)
    }

    /// The review of a parent and its children: checks what the judge
    /// replied, remembers it, and answers.
    pub fn run_frontier_review_gate(
        &mut self,
        files: &PlanFiles,
        skill: &Result<SkillFiles, PlanError>,
        request: RunFrontierReviewGateRequest,
        gate_run_id: &str,
        reply: Result<String, PlanError>,
        readings: &Vec<Reading<FrontierReviewerOutput>>,
        handoff_readings: &Vec<Reading<Vec<RefineStaleResultHandoff>>>,
        created_at: i64,
    ) -> (r: Result<RunFrontierReviewGateResponse, PlanError>)
        ensures
            (final(self).deep_view(), outcome(r)) == old(self).deep_view().frontier_gate_run(
                files.deep_view(),
                outcome(*skill),
                request.deep_view(),
                gate_run_id@,
                outcome(reply),
                readings.deep_view(),
                handoff_readings.deep_view(),
                created_at,
            ),
    {
        let gate: PreparedGate = self.prepare_frontier_review_gate(files, skill, &request)?;
        let text: String = reply?;
        let output: &FrontierReviewerOutput = match find_reading(readings, text.as_str()) {
            Ok(output) => output,
            Err(source) => {
                return Err(
                    PlanError::caused(
                        "failed to parse frontier review JSON result".to_owned(),
                        source,
                    ),
                );
            },
        };
        let passed: bool = self.judge_frontier_answer(&request, output, handoff_readings)?;
        if self.frontier_run_is_known(gate_run_id) {
            return Err(PlanError::new("failed to persist frontier gate run".to_owned()));
        }
        let copy: FrontierReviewerOutput = output.clone();
        let run: FrontierGateRun = FrontierGateRun {
            gate_run_id: gate_run_id.to_owned(),
            plan_id: request.plan_id,
            parent_node_id: request.parent_node_id,
            planner_mode: request.planner_mode,
            reviewer_role_id: gate.reviewer_role_id.clone(),
            passed,
            verdict: copy.verdict,
            summary: copy.summary,
            issues: copy.issues,
            invalidated_leaf_node_ids: copy.invalidated_leaf_node_ids,
            created_at,
        };
        let ghost model = run.deep_view();
        let ghost before = self.frontier_gate_runs.deep_view();
        self.frontier_gate_runs.push(run);
        assert(self.frontier_gate_runs.deep_view() =~= before.push(model));
        let answer: FrontierReviewerOutput = output.clone();
        Ok(
            RunFrontierReviewGateResponse {
                gate_run_id: gate_run_id.to_owned(),
                passed,
                verdict: answer.verdict,
                summary: answer.summary,
                reviewer_role_id: gate.reviewer_role_id,
                issues: answer.issues,
                invalidated_leaf_node_ids: answer.invalidated_leaf_node_ids,
            },
        )
    }
}

} // verus!
