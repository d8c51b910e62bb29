//! The command line: its words, and the judges that stand in for real ones.
use crate::api::{PlannerMode, ReviewIssue, ReviewIssueModel};
use crate::error::{failure, outcome, PlanError, PlanErrorModel};
use crate::runtime::gates::{
    FrontierReviewerOutput, FrontierReviewerOutputModel, LeafReviewerOutput,
    LeafReviewerOutputModel,
};
use crate::text::{
    after_prefix, concat3, is_empty, lines_of, same_text, split_lines, strip_line_end,
    strip_prefix, trim, trimmed, without_line_end,
};
use vstd::prelude::*;

verus! {

/// The planner mode with this name.
pub open spec fn planner_mode_of(value: Seq<char>) -> Result<PlannerMode, PlanErrorModel> {
    if value == "manual"@ {
        Ok(PlannerMode::Manual)
    } else if value == "auto"@ {
        Ok(PlannerMode::Auto)
    } else {
        Err(
            failure("invalid planner_mode `"@ + value + "`: expected `manual` or `auto`"@),
        )
    }
}

/// The planner mode with this name.
pub fn parse_planner_mode(value: &str) -> (r: Result<PlannerMode, PlanError>)
    ensures
        outcome(r) == planner_mode_of(value@),
{
    if same_text(value, "manual") {
        Ok(PlannerMode::Manual)
    } else if same_text(value, "auto") {
        Ok(PlannerMode::Auto)
    } else {
        Err(
            PlanError::new(
                concat3("invalid planner_mode `", value, "`: expected `manual` or `auto`"),
            ),
        )
    }
}

/// Reading a mode gives back the mode that was named.
pub proof fn planner_modes_read_back(mode: PlannerMode)
    ensures
        planner_mode_of(mode.name()) == Ok::<PlannerMode, PlanErrorModel>(mode),
{
    reveal_strlit("manual");
    reveal_strlit("auto");
    if mode == PlannerMode::Auto {
        assert("auto"@.len() != "manual"@.len());
    }
}

/// What follows the prefix on the first line at or after `i` that starts with
/// it.
pub open spec fn prefixed_value_from(lines: Seq<Seq<char>>, prefix: Seq<char>, i: int) -> Option<
    Seq<char>,
>
    decreases lines.len() - i,
{
    if i >= lines.len() {
        None
    } else {
        match after_prefix(without_line_end(lines[i]), prefix) {
            Some(rest) => Some(trimmed(rest)),
            None => prefixed_value_from(lines, prefix, i + 1),
        }
    }
}

/// What a prompt gives behind a prefix.
pub open spec fn prompt_value(payload: Seq<char>, prefix: Seq<char>) -> Result<
    Seq<char>,
    PlanErrorModel,
> {
    match prefixed_value_from(lines_of(payload), prefix, 0) {
        Some(value) => if value.len() > 0 {
            Ok(value)
        } else {
            Err(failure("invocation payload missing required line `"@ + prefix + "`"@))
        },
        None => Err(failure("invocation payload missing required line `"@ + prefix + "`"@)),
    }
}

fn find_prefixed_value(lines: &Vec<String>, prefix: &str) -> (r: Option<String>)
    ensures
        r.deep_view() == prefixed_value_from(lines.deep_view(), prefix@, 0),
{
    let ghost all = lines.deep_view();
    let mut i: usize = 0;
    while i < lines.len()
        invariant
            i <= lines.len(),
            all == lines.deep_view(),
            prefixed_value_from(all, prefix@, 0) == prefixed_value_from(
                all,
                prefix@,
                i as int,
            ),
        decreases lines.len() - i,
    {
        match strip_prefix(strip_line_end(lines[i].as_str()).as_str(), prefix) {
            Some(rest) => {
                return Some(trim(rest.as_str()));
            },
            None => {},
        }
        i = i + 1;
    }
    None
}

/// What a prompt gives behind a prefix.
pub fn extract_prompt_value(payload: &str, prefix: &str) -> (r: Result<String, PlanError>)
    ensures
        outcome(r) == prompt_value(payload@, prefix@),
{
    match find_prefixed_value(&split_lines(payload), prefix) {
        Some(value) => {
            if is_empty(value.as_str()) {
                Err(
                    PlanError::new(
                        concat3("invocation payload missing required line `", prefix, "`"),
                    ),
                )
            } else {
                Ok(value)
            }
        },
        None => Err(
            PlanError::new(concat3("invocation payload missing required line `", prefix, "`")),
        ),
    }
}

/// The one issue of a mock judge.
pub open spec fn mock_issue(
    target_node_id: Option<Seq<char>>,
    target_parent_node_id: Option<Seq<char>>,
    summary: Seq<char>,
    expected_revision: Seq<char>,
) -> ReviewIssueModel {
    ReviewIssueModel {
        issue_kind: "mock_reviewer_revision"@,
        target_node_id,
        target_parent_node_id,
        target_node_ids: None,
        summary,
        rationale:
            "The checked-in mock review always returns a deterministic non-pass result."@,
        expected_revision,
        question_for_user: None,
        decision_impact: None,
    }
}

fn make_mock_issue(
    target_node_id: Option<String>,
    target_parent_node_id: Option<String>,
    summary: &str,
    expected_revision: &str,
) -> (r: ReviewIssue)
    ensures
        r.deep_view() == mock_issue(
            target_node_id.deep_view(),
            target_parent_node_id.deep_view(),
            summary@,
            expected_revision@,
        ),
{
    ReviewIssue {
        issue_kind: "mock_reviewer_revision".to_owned(),
        target_node_id,
        target_parent_node_id,
        target_node_ids: None,
        summary: summary.to_owned(),
        rationale: "The checked-in mock review always returns a deterministic non-pass result.".to_owned(),
        expected_revision: expected_revision.to_owned(),
        question_for_user: None,
        decision_impact: None,
    }
}

/// What the mock judge of a leaf answers.
pub open spec fn mock_leaf_answer(payload: Seq<char>) -> Result<
    LeafReviewerOutputModel,
    PlanErrorModel,
> {
    match prompt_value(payload, "- Target Node ID:"@) {
        Err(error) => Err(error),
        Ok(node_id) => Ok(
            LeafReviewerOutputModel {
                verdict: "revise_leaf"@,
                summary: "Mock leaf review requires a deterministic revision."@,
                issues: seq![
                    mock_issue(
                        Some(node_id),
                        None,
                        "Mock leaf review requests a revision."@,
                        "Revise the leaf plan before re-running review."@,
                    ),
                ],
            },
        ),
    }
}

/// What the mock judge of a leaf answers.
pub fn mock_leaf_reviewer_output(payload: &str) -> (r: Result<LeafReviewerOutput, PlanError>)
    ensures
        outcome(r) == mock_leaf_answer(payload@),
{
    let node_id: String = extract_prompt_value(payload, "- Target Node ID:")?;
    let issue: ReviewIssue = make_mock_issue(
        Some(node_id),
        None,
        "Mock leaf review requests a revision.",
        "Revise the leaf plan before re-running review.",
    );
    let ghost model = issue.deep_view();
    let mut issues: Vec<ReviewIssue> = Vec::new();
    issues.push(issue);
    assert(issues.deep_view() =~= seq![model]);
    Ok(
        LeafReviewerOutput {
            verdict: "revise_leaf".to_owned(),
            summary: "Mock leaf review requires a deterministic revision.".to_owned(),
            issues,
        },
    )
}

/// What the mock judge of a parent answers.
pub open spec fn mock_frontier_answer(payload: Seq<char>) -> Result<
    FrontierReviewerOutputModel,
    PlanErrorModel,
> {
    match prompt_value(payload, "- Parent Node ID:"@) {
        Err(error) => Err(error),
        Ok(node_id) => Ok(
            FrontierReviewerOutputModel {
                verdict: "revise_frontier"@,
                summary: "Mock frontier review requires a deterministic revision."@,
                issues: seq![
                    mock_issue(
                        None,
                        Some(node_id),
                        "Mock frontier review requests a revision."@,
                        "Revise the frontier plan before re-running review."@,
                    ),
                ],
                invalidated_leaf_node_ids: Seq::empty(),
            },
        ),
    }
}

/// What the mock judge of a parent answers.
pub fn mock_frontier_reviewer_output(payload: &str) -> (r: Result<
    FrontierReviewerOutput,
    PlanError,
>)
    ensures
        outcome(r) == mock_frontier_answer(payload@),
{
    let node_id: String = extract_prompt_value(payload, "- Parent Node ID:")?;
    let issue: ReviewIssue = make_mock_issue(
        None,
        Some(node_id),
        "Mock frontier review requests a revision.",
        "Revise the frontier plan before re-running review.",
    );
    let ghost model = issue.deep_view();
    let mut issues: Vec<ReviewIssue> = Vec::new();
    issues.push(issue);
    assert(issues.deep_view() =~= seq![model]);
    let invalidated_leaf_node_ids: Vec<String> = Vec::new();
    assert(invalidated_leaf_node_ids.deep_view() =~= Seq::empty());
    Ok(
        FrontierReviewerOutput {
            verdict: "revise_frontier".to_owned(),
            summary: "Mock frontier review requires a deterministic revision.".to_owned(),
            issues,
            invalidated_leaf_node_ids,
        },
    )
}

} // verus!
