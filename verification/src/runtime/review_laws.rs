//! What a review comes to: it passes where the judge says so, holds what the
//! judge said, and is asked only of nodes that it is for.
use super::gates::{has_target, is_given, FrontierReviewerOutputModel, LeafReviewerOutputModel};
use super::gate_laws::invalidations_are_known;
use super::laws::{node_is_found, plan_is_found};
use super::query::{is_child, latest_leaf_run};
use super::stability::latest_leaf_review_is_latest;
use super::store::{LeafGateRunModel, NodeRowModel, RuntimeModel};
use crate::api::{
    GateSummaryModel, ReviewIssueModel, RunFrontierReviewGateRequestModel,
    RunFrontierReviewGateResponseModel, RunLeafReviewGateRequestModel,
    RunLeafReviewGateResponseModel,
};
use crate::bundle::{reading_from, ReadingModel};
use crate::error::PlanErrorModel;
use crate::files::PlanFilesModel;
use crate::refine::link_laws::{space_bounds, space_start_bounds};
use crate::refine::runtime_state::RefineStaleResultHandoffModel;
use crate::skill::SkillFilesModel;
use crate::text::{is_space, skip_space, space_start, trimmed};
use vstd::prelude::*;

verus! {

// ---------------------------------------------------------------------
// Replies
// ---------------------------------------------------------------------
/// The reply reads as this value: it is what the first reading of the text
/// gave.
pub open spec fn reads_as<M>(readings: Seq<ReadingModel<M>>, text: Seq<char>, value: M) -> bool {
    exists|k: int|
        0 <= k < readings.len() && (#[trigger] readings[k]).text == text && readings[k].parsed
            == Ok::<M, Seq<char>>(value) && forall|j: int|
            0 <= j < k ==> (#[trigger] readings[j]).text != text
}

proof fn reading_is_first<M>(readings: Seq<ReadingModel<M>>, text: Seq<char>, i: int)
    requires
        0 <= i <= readings.len(),
        forall|j: int| 0 <= j < i ==> (#[trigger] readings[j]).text != text,
    ensures
        forall|value: M|
            #[trigger] reads_as(readings, text, value) <==> reading_from(readings, text, i) == Ok::<
                M,
                Seq<char>,
            >(value),
    decreases readings.len() - i,
{
    if i < readings.len() && readings[i].text != text {
        reading_is_first(readings, text, i + 1);
    } else if i < readings.len() {
        assert forall|value: M|
            #[trigger] reads_as(readings, text, value) <==> reading_from(readings, text, i) == Ok::<
                M,
                Seq<char>,
            >(value) by {
            if reads_as(readings, text, value) {
                let k = choose|k: int|
                    0 <= k < readings.len() && (#[trigger] readings[k]).text == text
                        && readings[k].parsed == Ok::<M, Seq<char>>(value) && forall|j: int|
                        0 <= j < k ==> (#[trigger] readings[j]).text != text;
                assert(k == i);
            }
        }
    } else {
        assert forall|value: M| !#[trigger] reads_as(readings, text, value) by {}
    }
}

/// The text is there and holds more than white space.
pub open spec fn holds_words(text: Option<Seq<char>>) -> bool {
    text matches Some(t) && exists|i: int| 0 <= i < t.len() && !is_space(#[trigger] t[i])
}

/// Something is left of a text without its white space exactly where it holds more
/// than white space.
pub proof fn words_are_left(s: Seq<char>)
    ensures
        trimmed(s).len() > 0 <==> exists|i: int| 0 <= i < s.len() && !is_space(#[trigger] s[i]),
{
    space_bounds(s, 0);
    space_start_bounds(s, s.len() as int);
    first_word_is_found(s, 0);
    last_word_is_found(s, s.len() as int);
    let from = skip_space(s, 0);
    let to = space_start(s, s.len() as int);
    if from < to {
        assert(!is_space(s[from]));
    } else {
        assert forall|i: int| 0 <= i < s.len() implies is_space(#[trigger] s[i]) by {
            if i < from {
            } else {
                assert(i >= to);
            }
        }
    }
}

/// What stands where white space ends is none, and all before it is.
pub proof fn first_word_is_found(s: Seq<char>, i: int)
    requires
        0 <= i <= s.len(),
    ensures
        i <= skip_space(s, i) <= s.len(),
        forall|k: int| i <= k < skip_space(s, i) ==> is_space(#[trigger] s[k]),
        skip_space(s, i) < s.len() ==> !is_space(s[skip_space(s, i)]),
    decreases s.len() - i,
{
    if i < s.len() && is_space(s[i]) {
        first_word_is_found(s, i + 1);
    }
}

/// What stands before the white space at the end is none, and all after it is.
pub proof fn last_word_is_found(s: Seq<char>, n: int)
    requires
        0 <= n <= s.len(),
    ensures
        0 <= space_start(s, n) <= n,
        forall|k: int| space_start(s, n) <= k < n ==> is_space(#[trigger] s[k]),
        space_start(s, n) > 0 ==> !is_space(s[space_start(s, n) - 1]),
    decreases n,
{
    if n > 0 && is_space(s[n - 1]) {
        last_word_is_found(s, n - 1);
    }
}

/// The issue names a node, a parent or some nodes.
pub open spec fn names_a_node(issue: ReviewIssueModel) -> bool {
    issue.target_node_id is Some || issue.target_parent_node_id is Some || (
    issue.target_node_ids is Some && issue.target_node_ids->0.len() > 0)
}

/// The issues go with a verdict that does not pass: there is one, each names a
/// node, and where the user is to decide, each says what is asked and what
/// depends on it.
pub open spec fn issues_explain(verdict: Seq<char>, issues: Seq<ReviewIssueModel>) -> bool {
    &&& issues.len() > 0
    &&& forall|i: int| 0 <= i < issues.len() ==> names_a_node(#[trigger] issues[i])
    &&& verdict == "pause_for_user_decision"@ ==> forall|i: int|
        0 <= i < issues.len() ==> holds_words((#[trigger] issues[i]).question_for_user)
            && holds_words(issues[i].decision_impact)
}

proof fn issues_are_judged(issues: Seq<ReviewIssueModel>)
    ensures
        forall|i: int|
            0 <= i < issues.len() ==> {
                &&& has_target(#[trigger] issues[i]) == names_a_node(issues[i])
                &&& is_given(issues[i].question_for_user) == holds_words(
                    issues[i].question_for_user,
                )
                &&& is_given(issues[i].decision_impact) == holds_words(issues[i].decision_impact)
            },
{
    assert forall|i: int| 0 <= i < issues.len() implies {
        &&& has_target(#[trigger] issues[i]) == names_a_node(issues[i])
        &&& is_given(issues[i].question_for_user) == holds_words(issues[i].question_for_user)
        &&& is_given(issues[i].decision_impact) == holds_words(issues[i].decision_impact)
    } by {
        if let Some(text) = issues[i].question_for_user {
            words_are_left(text);
        }
        if let Some(text) = issues[i].decision_impact {
            words_are_left(text);
        }
    }
}

// ---------------------------------------------------------------------
// Leaf reviews
// ---------------------------------------------------------------------
/// The judge of a leaf may answer so: with the approval and no issue, or with
/// one of the three other verdicts and issues that explain it.
pub open spec fn is_fit_for_leaf(output: LeafReviewerOutputModel) -> bool {
    if output.verdict == "approved_as_leaf"@ {
        output.issues.len() == 0
    } else {
        &&& output.verdict == "revise_leaf"@ || output.verdict == "must_expand"@ || output.verdict
            == "pause_for_user_decision"@
        &&& issues_explain(output.verdict, output.issues)
    }
}

/// The answer of a review says what the judge of a leaf said, and passes
/// exactly where the judge approved.
pub open spec fn tells_leaf_output(
    answer: RunLeafReviewGateResponseModel,
    output: LeafReviewerOutputModel,
) -> bool {
    &&& answer.passed <==> output.verdict == "approved_as_leaf"@
    &&& answer.verdict == output.verdict
    &&& answer.summary == output.summary
    &&& answer.issues == output.issues
}

/// What is remembered of a review is the answer, under the id, the time and the
/// mode that were given.
pub open spec fn remembers_leaf_answer(
    run: LeafGateRunModel,
    request: RunLeafReviewGateRequestModel,
    answer: RunLeafReviewGateResponseModel,
    gate_run_id: Seq<char>,
    created_at: i64,
) -> bool {
    &&& answer.gate_run_id == gate_run_id
    &&& run.gate_run_id == gate_run_id
    &&& run.plan_id == request.plan_id
    &&& run.node_id == request.node_id
    &&& run.planner_mode == request.planner_mode
    &&& run.created_at == created_at
    &&& run.reviewer_role_id == answer.reviewer_role_id
    &&& run.passed == answer.passed
    &&& run.verdict == answer.verdict
    &&& run.summary == answer.summary
    &&& run.issues == answer.issues
}

/// A review of a leaf is accepted exactly where it could be prepared, the judge
/// replied, the reply reads as an answer that the judge may give, and the id is
/// new. It passes exactly where the judge approved the leaf; verdict, summary
/// and issues are those of the reply, and so is what is remembered. A review
/// that is not accepted leaves nothing behind.
pub proof fn leaf_reviews_follow_the_judge(
    runtime: RuntimeModel,
    files: PlanFilesModel,
    skill: Result<SkillFilesModel, PlanErrorModel>,
    request: RunLeafReviewGateRequestModel,
    gate_run_id: Seq<char>,
    reply: Result<Seq<char>, PlanErrorModel>,
    readings: Seq<ReadingModel<LeafReviewerOutputModel>>,
    created_at: i64,
)
    ensures
        ({
            let (next, result) = runtime.leaf_gate_run(
                files,
                skill,
                request,
                gate_run_id,
                reply,
                readings,
                created_at,
            );
            &&& result is Ok <==> {
                &&& runtime.leaf_gate(files, skill, request) is Ok
                &&& reply is Ok
                &&& exists|output: LeafReviewerOutputModel|
                    #[trigger] reads_as(readings, reply->Ok_0, output) && is_fit_for_leaf(output)
                &&& forall|k: int|
                    0 <= k < runtime.leaf_gate_runs.len() ==> (
                    #[trigger] runtime.leaf_gate_runs[k]).gate_run_id != gate_run_id
            }
            &&& match result {
                Ok(answer) => {
                    &&& exists|output: LeafReviewerOutputModel|
                        #[trigger] reads_as(readings, reply->Ok_0, output) && tells_leaf_output(
                            answer,
                            output,
                        )
                    &&& answer.reviewer_role_id == runtime.leaf_gate(
                        files,
                        skill,
                        request,
                    )->Ok_0.reviewer_role_id
                    &&& next.leaf_gate_runs.len() == runtime.leaf_gate_runs.len() + 1
                    &&& next.leaf_gate_runs.drop_last() == runtime.leaf_gate_runs
                    &&& remembers_leaf_answer(
                        next.leaf_gate_runs.last(),
                        request,
                        answer,
                        gate_run_id,
                        created_at,
                    )
                    &&& next.nodes == runtime.nodes
                    &&& next.plans == runtime.plans
                    &&& next.frontier_gate_runs == runtime.frontier_gate_runs
                },
                Err(_) => next == runtime,
            }
        }),
{
    let (next, result) = runtime.leaf_gate_run(
        files,
        skill,
        request,
        gate_run_id,
        reply,
        readings,
        created_at,
    );
    if let Ok(text) = reply {
        reading_is_first(readings, text, 0);
        if let Ok(output) = reading_from(readings, text, 0) {
            assert(reads_as(readings, text, output));
            issues_are_judged(output.issues);
            if exists|i: int| 0 <= i < output.issues.len() && !has_target(
                #[trigger] output.issues[i],
            ) {
                let i = choose|i: int|
                    0 <= i < output.issues.len() && !has_target(#[trigger] output.issues[i]);
                assert(!names_a_node(output.issues[i]));
            }
            if exists|i: int|
                0 <= i < output.issues.len() && !(is_given(
                    (#[trigger] output.issues[i]).question_for_user,
                ) && is_given(output.issues[i].decision_impact)) {
                let i = choose|i: int|
                    0 <= i < output.issues.len() && !(is_given(
                        (#[trigger] output.issues[i]).question_for_user,
                    ) && is_given(output.issues[i].decision_impact));
                assert(!(holds_words(output.issues[i].question_for_user) && holds_words(
                    output.issues[i].decision_impact,
                )));
            }
            reveal_strlit("approved_as_leaf");
            reveal_strlit("pause_for_user_decision");
            reveal_strlit("revise_leaf");
            reveal_strlit("must_expand");
            assert("approved_as_leaf"@.len() != "pause_for_user_decision"@.len());
        }
    }
    if result is Ok {
        assert(next.leaf_gate_runs.drop_last() =~= runtime.leaf_gate_runs);
    }
}

/// The row is that of this node.
pub open spec fn is_row_of(row: NodeRowModel, plan_id: Seq<char>, node_id: Seq<char>) -> bool {
    row.plan_id == plan_id && row.node_id == node_id
}

/// Only a tracked leaf without children whose file is there gets a leaf review,
/// and its plan is there too.
pub proof fn leaf_reviews_are_for_leaves(
    runtime: RuntimeModel,
    files: PlanFilesModel,
    skill: Result<SkillFilesModel, PlanErrorModel>,
    request: RunLeafReviewGateRequestModel,
)
    ensures
        runtime.leaf_gate(files, skill, request) is Ok ==> {
            &&& skill is Ok
            &&& exists|p: int|
                0 <= p < runtime.plans.len() && (#[trigger] runtime.plans[p]).plan_id
                    == request.plan_id
            &&& exists|i: int|
                0 <= i < runtime.nodes.len() && is_row_of(
                    #[trigger] runtime.nodes[i],
                    request.plan_id,
                    request.node_id,
                ) && runtime.nodes[i].node_kind == "leaf"@ && files.is_file(
                    runtime.nodes[i].relative_path,
                )
            &&& forall|i: int|
                0 <= i < runtime.nodes.len() && (#[trigger] runtime.nodes[i]).plan_id
                    == request.plan_id ==> runtime.nodes[i].parent_node_id != Some(request.node_id)
        },
{
    if runtime.leaf_gate(files, skill, request) is Ok {
        plan_is_found(runtime.plans, request.plan_id, 0);
        node_is_found(runtime.nodes, request.plan_id, request.node_id, 0);
        let row = runtime.node_row(request.plan_id, request.node_id)->0;
        let i = choose|i: int| 0 <= i < runtime.nodes.len() && #[trigger] runtime.nodes[i] == row;
        assert(is_row_of(runtime.nodes[i], request.plan_id, request.node_id));
        assert forall|j: int|
            0 <= j < runtime.nodes.len() && (#[trigger] runtime.nodes[j]).plan_id
                == request.plan_id implies runtime.nodes[j].parent_node_id != Some(
            request.node_id,
        ) by {
            assert(!is_child(runtime.nodes[j], request.plan_id, Some(request.node_id)));
        }
    }
}

/// What is shown as the passed review of a leaf is a review of that leaf that
/// passed, and it is shown where there is one.
pub proof fn shown_leaf_reviews_passed(
    runtime: RuntimeModel,
    plan_id: Seq<char>,
    node_id: Seq<char>,
)
    ensures
        match runtime.passed_leaf_gate(plan_id, node_id) {
            Some(shown) => exists|k: int|
                0 <= k < runtime.leaf_gate_runs.len() && is_passed_review_of(
                    #[trigger] runtime.leaf_gate_runs[k],
                    plan_id,
                    node_id,
                ) && shows_leaf_run(shown, runtime.leaf_gate_runs[k]) && forall|j: int|
                    0 <= j < runtime.leaf_gate_runs.len() && is_passed_review_of(
                        #[trigger] runtime.leaf_gate_runs[j],
                        plan_id,
                        node_id,
                    ) ==> runtime.leaf_gate_runs[j].created_at
                        <= runtime.leaf_gate_runs[k].created_at,
            None => forall|k: int|
                0 <= k < runtime.leaf_gate_runs.len() ==> !is_passed_review_of(
                    #[trigger] runtime.leaf_gate_runs[k],
                    plan_id,
                    node_id,
                ),
        },
{
    let runs = runtime.leaf_gate_runs;
    latest_leaf_review_is_latest(runs, plan_id, node_id, runs.len() as int);
    if let Some(best) = latest_leaf_run(runs, plan_id, node_id, runs.len() as int) {
        let k = choose|k: int| 0 <= k < runs.len() && #[trigger] runs[k] == best;
        assert(is_passed_review_of(runs[k], plan_id, node_id));
    }
}

/// The review is one of this leaf, and it passed.
pub open spec fn is_passed_review_of(
    run: LeafGateRunModel,
    plan_id: Seq<char>,
    node_id: Seq<char>,
) -> bool {
    run.plan_id == plan_id && run.node_id == node_id && run.passed
}

/// The summary is that of this review.
pub open spec fn shows_leaf_run(shown: GateSummaryModel, run: LeafGateRunModel) -> bool {
    shown.gate_run_id == run.gate_run_id && shown.reviewer_role_id == run.reviewer_role_id
        && shown.summary == run.summary
}

// ---------------------------------------------------------------------
// Frontier reviews
// ---------------------------------------------------------------------
/// The judge of a parent may answer so: with the approval, no issue and no
/// approval taken back, or with one of the three other verdicts and issues that
/// explain it.
pub open spec fn is_fit_for_frontier(output: FrontierReviewerOutputModel) -> bool {
    if output.verdict == "approved_frontier"@ {
        output.issues.len() == 0 && output.invalidated_leaf_node_ids.len() == 0
    } else {
        &&& output.verdict == "revise_frontier"@ || output.verdict == "reopen_parent_scope"@
            || output.verdict == "pause_for_user_decision"@
        &&& issues_explain(output.verdict, output.issues)
    }
}

/// The answer of a review says what the judge of a parent said, and passes
/// exactly where the judge approved.
pub open spec fn tells_frontier_output(
    answer: RunFrontierReviewGateResponseModel,
    output: FrontierReviewerOutputModel,
) -> bool {
    &&& answer.passed <==> output.verdict == "approved_frontier"@
    &&& answer.verdict == output.verdict
    &&& answer.summary == output.summary
    &&& answer.issues == output.issues
    &&& answer.invalidated_leaf_node_ids == output.invalidated_leaf_node_ids
}

/// A review of a parent is accepted exactly where it could be prepared, the judge
/// replied, the reply reads as an answer that the judge may give and takes back
/// only approvals that it may take back, and the id is new. It passes exactly
/// where the judge approved the parent; verdict, summary, issues and the
/// approvals that are taken back are those of the reply, and so is what is
/// remembered. A review that is not accepted leaves nothing behind.
pub proof fn frontier_reviews_follow_the_judge(
    runtime: RuntimeModel,
    files: PlanFilesModel,
    skill: Result<SkillFilesModel, PlanErrorModel>,
    request: RunFrontierReviewGateRequestModel,
    gate_run_id: Seq<char>,
    reply: Result<Seq<char>, PlanErrorModel>,
    readings: Seq<ReadingModel<FrontierReviewerOutputModel>>,
    handoff_readings: Seq<ReadingModel<Seq<RefineStaleResultHandoffModel>>>,
    created_at: i64,
)
    ensures
        ({
            let (next, result) = runtime.frontier_gate_run(
                files,
                skill,
                request,
                gate_run_id,
                reply,
                readings,
                handoff_readings,
                created_at,
            );
            let allowed = runtime.invalidatable_ids(request, handoff_readings);
            &&& result is Ok <==> {
                &&& runtime.frontier_review(files, skill, request) is Ok
                &&& reply is Ok
                &&& allowed is Ok
                &&& exists|output: FrontierReviewerOutputModel|
                    #[trigger] reads_as(readings, reply->Ok_0, output) && is_fit_for_frontier(
                        output,
                    ) && forall|k: int|
                        0 <= k < output.invalidated_leaf_node_ids.len() ==> allowed->Ok_0.contains(
                            #[trigger] output.invalidated_leaf_node_ids[k],
                        )
                &&& forall|k: int|
                    0 <= k < runtime.frontier_gate_runs.len() ==> (
                    #[trigger] runtime.frontier_gate_runs[k]).gate_run_id != gate_run_id
            }
            &&& match result {
                Ok(answer) => {
                    let run = next.frontier_gate_runs.last();
                    &&& exists|output: FrontierReviewerOutputModel|
                        #[trigger] reads_as(readings, reply->Ok_0, output)
                            && tells_frontier_output(answer, output)
                    &&& answer.gate_run_id == gate_run_id
                    &&& answer.reviewer_role_id == runtime.frontier_review(
                        files,
                        skill,
                        request,
                    )->Ok_0.reviewer_role_id
                    &&& next.frontier_gate_runs.len() == runtime.frontier_gate_runs.len() + 1
                    &&& next.frontier_gate_runs.drop_last() == runtime.frontier_gate_runs
                    &&& run.gate_run_id == gate_run_id
                    &&& run.plan_id == request.plan_id
                    &&& run.parent_node_id == request.parent_node_id
                    &&& run.planner_mode == request.planner_mode
                    &&& run.created_at == created_at
                    &&& run.reviewer_role_id == answer.reviewer_role_id
                    &&& run.passed == answer.passed
                    &&& run.verdict == answer.verdict
                    &&& run.summary == answer.summary
                    &&& run.issues == answer.issues
                    &&& run.invalidated_leaf_node_ids == answer.invalidated_leaf_node_ids
                    &&& next.nodes == runtime.nodes
                    &&& next.plans == runtime.plans
                    &&& next.leaf_gate_runs == runtime.leaf_gate_runs
                },
                Err(_) => next == runtime,
            }
        }),
{
    let (next, result) = runtime.frontier_gate_run(
        files,
        skill,
        request,
        gate_run_id,
        reply,
        readings,
        handoff_readings,
        created_at,
    );
    if let Ok(text) = reply {
        reading_is_first(readings, text, 0);
        if let Ok(output) = reading_from(readings, text, 0) {
            assert(reads_as(readings, text, output));
            issues_are_judged(output.issues);
            if exists|i: int| 0 <= i < output.issues.len() && !has_target(
                #[trigger] output.issues[i],
            ) {
                let i = choose|i: int|
                    0 <= i < output.issues.len() && !has_target(#[trigger] output.issues[i]);
                assert(!names_a_node(output.issues[i]));
            }
            if exists|i: int|
                0 <= i < output.issues.len() && !(is_given(
                    (#[trigger] output.issues[i]).question_for_user,
                ) && is_given(output.issues[i].decision_impact)) {
                let i = choose|i: int|
                    0 <= i < output.issues.len() && !(is_given(
                        (#[trigger] output.issues[i]).question_for_user,
                    ) && is_given(output.issues[i].decision_impact));
                assert(!(holds_words(output.issues[i].question_for_user) && holds_words(
                    output.issues[i].decision_impact,
                )));
            }
            if let Ok(valid) = runtime.invalidatable_ids(request, handoff_readings) {
                invalidations_are_known(
                    output.invalidated_leaf_node_ids,
                    valid,
                    request.parent_node_id,
                    0,
                );
            }
            reveal_strlit("approved_frontier");
            reveal_strlit("pause_for_user_decision");
            assert("approved_frontier"@.len() != "pause_for_user_decision"@.len());
        }
    }
    if result is Ok {
        assert(next.frontier_gate_runs.drop_last() =~= runtime.frontier_gate_runs);
    }
}

/// Only a tracked parent whose file is there gets a frontier review, and its
/// plan is there too.
pub proof fn frontier_reviews_are_for_parents(
    runtime: RuntimeModel,
    files: PlanFilesModel,
    skill: Result<SkillFilesModel, PlanErrorModel>,
    request: RunFrontierReviewGateRequestModel,
)
    ensures
        runtime.frontier_review(files, skill, request) is Ok ==> {
            &&& skill is Ok
            &&& exists|p: int|
                0 <= p < runtime.plans.len() && (#[trigger] runtime.plans[p]).plan_id
                    == request.plan_id
            &&& exists|i: int|
                0 <= i < runtime.nodes.len() && is_row_of(
                    #[trigger] runtime.nodes[i],
                    request.plan_id,
                    request.parent_node_id,
                ) && runtime.nodes[i].node_kind == "parent"@ && files.is_file(
                    runtime.nodes[i].relative_path,
                )
        },
{
    if runtime.frontier_review(files, skill, request) is Ok {
        plan_is_found(runtime.plans, request.plan_id, 0);
        node_is_found(runtime.nodes, request.plan_id, request.parent_node_id, 0);
        let row = runtime.node_row(request.plan_id, request.parent_node_id)->0;
        let i = choose|i: int| 0 <= i < runtime.nodes.len() && #[trigger] runtime.nodes[i] == row;
        assert(is_row_of(runtime.nodes[i], request.plan_id, request.parent_node_id));
    }
}

} // verus!
