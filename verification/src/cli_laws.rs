//! What the command line reads: the mode of the planner, what a prompt gives, and
//! what a mock judge answers to it.
use crate::api::PlannerMode;
use crate::cli::{
    mock_frontier_answer, mock_leaf_answer, planner_mode_of, prefixed_value_from, prompt_value,
};
use crate::error::PlanErrorModel;
use crate::text::{begins_with, lines_of, trimmed, without_line_end};
use vstd::prelude::*;

verus! {

/// There are two modes, and each is read by its name alone.
pub proof fn modes_are_read_by_name(value: Seq<char>)
    ensures
        planner_mode_of(value) == Ok::<_, PlanErrorModel>(PlannerMode::Manual) <==> value
            == "manual"@,
        planner_mode_of(value) == Ok::<_, PlanErrorModel>(PlannerMode::Auto) <==> value == "auto"@,
        planner_mode_of(value) is Ok <==> value == "manual"@ || value == "auto"@,
{
    reveal_strlit("manual");
    reveal_strlit("auto");
    assert("auto"@.len() != "manual"@.len());
}

/// Line `k` of the text is the first that starts with the prefix.
pub open spec fn is_first_with(payload: Seq<char>, prefix: Seq<char>, k: int) -> bool {
    let lines = lines_of(payload);
    &&& 0 <= k < lines.len()
    &&& begins_with(without_line_end(lines[k]), prefix)
    &&& forall|j: int| 0 <= j < k ==> !begins_with(without_line_end(#[trigger] lines[j]), prefix)
}

proof fn first_with_is_found(payload: Seq<char>, prefix: Seq<char>, i: int)
    requires
        0 <= i <= lines_of(payload).len(),
        forall|j: int|
            0 <= j < i ==> !begins_with(
                without_line_end(#[trigger] lines_of(payload)[j]),
                prefix,
            ),
    ensures
        match prefixed_value_from(lines_of(payload), prefix, i) {
            Some(value) => exists|k: int| #[trigger]
                is_first_with(payload, prefix, k) && value == trimmed(
                    without_line_end(lines_of(payload)[k]).skip(prefix.len() as int),
                ),
            None => forall|k: int| !#[trigger] is_first_with(payload, prefix, k),
        },
    decreases lines_of(payload).len() - i,
{
    let lines = lines_of(payload);
    if i < lines.len() {
        if begins_with(without_line_end(lines[i]), prefix) {
            assert(is_first_with(payload, prefix, i));
        } else {
            first_with_is_found(payload, prefix, i + 1);
        }
    } else {
        assert forall|k: int| !#[trigger] is_first_with(payload, prefix, k) by {
            if is_first_with(payload, prefix, k) {
                assert(!begins_with(without_line_end(lines[k]), prefix));
            }
        }
    }
}

/// What a prompt gives behind a prefix is the rest of the first line that starts
/// with it, without the white space around; there has to be such a line, and
/// something on it.
pub proof fn prompts_give_what_follows_the_prefix(payload: Seq<char>, prefix: Seq<char>)
    ensures
        prompt_value(payload, prefix) matches Ok(value) ==> value.len() > 0 && exists|k: int|
            #[trigger] is_first_with(payload, prefix, k) && value == trimmed(
                without_line_end(lines_of(payload)[k]).skip(prefix.len() as int),
            ),
        forall|k: int| #[trigger]
            is_first_with(payload, prefix, k) && trimmed(
                without_line_end(lines_of(payload)[k]).skip(prefix.len() as int),
            ).len() > 0 ==> prompt_value(payload, prefix) is Ok,
{
    first_with_is_found(payload, prefix, 0);
    assert forall|k: int| #[trigger]
        is_first_with(payload, prefix, k) && trimmed(
            without_line_end(lines_of(payload)[k]).skip(prefix.len() as int),
        ).len() > 0 implies prompt_value(payload, prefix) is Ok by {
        let value = prefixed_value_from(lines_of(payload), prefix, 0)->0;
        let m = choose|m: int| #[trigger]
            is_first_with(payload, prefix, m) && value == trimmed(
                without_line_end(lines_of(payload)[m]).skip(prefix.len() as int),
            );
        if k < m {
            assert(!begins_with(without_line_end(lines_of(payload)[k]), prefix));
        } else if m < k {
            assert(!begins_with(without_line_end(lines_of(payload)[m]), prefix));
        }
    }
}

/// A mock judge never lets a node pass: it answers with one issue, about the node
/// that the prompt names, and takes no approval back. It answers wherever the
/// prompt names a node.
pub proof fn mock_judges_ask_for_a_revision(payload: Seq<char>)
    ensures
        mock_leaf_answer(payload) is Ok <==> prompt_value(payload, "- Target Node ID:"@) is Ok,
        mock_leaf_answer(payload) matches Ok(answer) ==> {
            &&& answer.verdict == "revise_leaf"@
            &&& answer.issues.len() == 1
            &&& answer.issues[0].target_node_id is Some
            &&& Ok::<_, PlanErrorModel>(answer.issues[0].target_node_id->0) == prompt_value(
                payload,
                "- Target Node ID:"@,
            )
            &&& answer.issues[0].target_parent_node_id is None
            &&& answer.issues[0].question_for_user is None
        },
        mock_frontier_answer(payload) is Ok <==> prompt_value(
            payload,
            "- Parent Node ID:"@,
        ) is Ok,
        mock_frontier_answer(payload) matches Ok(answer) ==> {
            &&& answer.verdict == "revise_frontier"@
            &&& answer.issues.len() == 1
            &&& answer.issues[0].target_parent_node_id is Some
            &&& Ok::<_, PlanErrorModel>(answer.issues[0].target_parent_node_id->0)
                == prompt_value(payload, "- Parent Node ID:"@)
            &&& answer.issues[0].target_node_id is None
            &&& answer.issues[0].question_for_user is None
            &&& answer.invalidated_leaf_node_ids.len() == 0
        },
{
}

} // verus!
