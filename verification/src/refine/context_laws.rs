//! What a judge is told of a rewrite is what a review reads out of it again.
use super::gate_execution::{context_text, json_section_text, ContextTextsModel};
use super::markdown_laws::line_feed_is_trimmed;
use crate::runtime::gates::json_section_of;
use crate::text::{
    begins_with, cut_at, find_from, find_is_least, has_text, is_space, occurs_at,
};
use vstd::prelude::*;

verus! {

proof fn first_occurrence_is_cut(s: Seq<char>, before: Seq<char>, pat: Seq<char>, after: Seq<char>)
    requires
        s == before + pat + after,
        forall|j: int| 0 <= j < before.len() ==> !occurs_at(s, pat, j),
    ensures
        cut_at(s, pat) == Some((before, after)),
{
    find_is_least(s, pat, 0);
    let k = before.len() as int;
    assert(s.subrange(k, k + pat.len()) =~= pat);
    assert(occurs_at(s, pat, k));
    assert(find_from(s, pat, 0) == Some(k));
    assert(s.take(k) =~= before);
    assert(s.skip(k + pat.len()) =~= after);
}

/// JSON that holds no fence is read out of the section that it is written into: the
/// first with its title.
proof fn sections_read_back(
    context: Seq<char>,
    title: Seq<char>,
    before: Seq<char>,
    json: Seq<char>,
    rest: Seq<char>,
)
    requires
        context == before + json_section_text(title, json) + rest,
        !has_text(json, "```"@),
        json.len() > 0,
        !is_space(json[0]),
        !is_space(json.last()),
        forall|j: int| 0 <= j <= before.len() ==> !occurs_at(context, "## "@ + title, j),
    ensures
        json_section_of(context, title) == Some(json),
{
    reveal_strlit("\n## ");
    reveal_strlit("## ");
    reveal_strlit("\n");
    reveal_strlit("\n```json\n");
    reveal_strlit("```json");
    reveal_strlit("```");
    reveal_strlit("\n```\n");
    let pat = "## "@ + title;
    let first = before + "\n"@;
    let section = "\n```json\n"@ + json + "\n```\n"@ + rest;
    assert(context =~= first + pat + section);
    first_occurrence_is_cut(context, first, pat, section);
    let fence = "```json"@;
    let after_fence = "\n"@ + json + "\n```\n"@ + rest;
    assert(section =~= "\n"@ + fence + after_fence);
    assert(!occurs_at(section, fence, 0)) by {
        if occurs_at(section, fence, 0) {
            assert(section.subrange(0, fence.len() as int)[0] == fence[0]);
        }
    }
    first_occurrence_is_cut(section, "\n"@, fence, after_fence);
    let body = json + "\n```\n"@ + rest;
    assert(after_fence.subrange(0, 1) =~= "\n"@);
    assert(begins_with(after_fence, "\n"@));
    assert(after_fence.skip(1) =~= body);
    let close = "```"@;
    let text = json + "\n"@;
    let tail = "\n"@ + rest;
    assert(body =~= text + close + tail);
    assert forall|j: int| 0 <= j < text.len() implies !occurs_at(body, close, j) by {
        if occurs_at(body, close, j) {
            let found = body.subrange(j, j + close.len());
            if j + close.len() <= json.len() {
                assert(json.subrange(j, j + close.len()) =~= close);
                assert(occurs_at(json, close, j));
            } else {
                let at = json.len() - j;
                assert(found[at] == body[json.len() as int]);
                assert(body[json.len() as int] == '\n');
                assert(close[at] == '`');
            }
        }
    }
    first_occurrence_is_cut(body, text, close, tail);
    line_feed_is_trimmed(json);
    assert(text =~= json.push('\n'));
}

/// What a judge is told before the stale reviews: what it is about, and the comments.
pub open spec fn told_first(
    gate_kind: Seq<char>,
    path: Seq<char>,
    node_id: Seq<char>,
    parent: Option<Seq<char>>,
    comments: Seq<char>,
) -> Seq<char> {
    let head = "## Target\n- Gate Kind: "@ + gate_kind + "\n- Target Relative Path: "@ + path
        + "\n- Target Node ID: "@ + node_id + "\n"@;
    (match parent {
        Some(at) => head + "- Target Parent Relative Path: "@ + at + "\n"@,
        None => head,
    }) + "\n## Processed Comment Blocks\n```json\n"@ + comments + "\n```\n"@
}

/// The stale reviews that a judge is told of are those that a review reads out of what
/// the judge was told, where their text holds no fence and no white space around it, and
/// nothing before it looks like their heading.
pub proof fn stale_handoffs_read_back(
    gate_kind: Seq<char>,
    path: Seq<char>,
    node_id: Seq<char>,
    parent: Option<Seq<char>>,
    context: ContextTextsModel,
)
    requires
        !has_text(context.stale_result_handoff, "```"@),
        context.stale_result_handoff.len() > 0,
        !is_space(context.stale_result_handoff[0]),
        !is_space(context.stale_result_handoff.last()),
        forall|j: int|
            0 <= j <= told_first(
                gate_kind,
                path,
                node_id,
                parent,
                context.processed_comment_blocks,
            ).len() ==> !occurs_at(
                context_text(gate_kind, path, node_id, parent, context),
                "## Stale Handoff"@,
                j,
            ),
    ensures
        json_section_of(
            context_text(gate_kind, path, node_id, parent, context),
            "Stale Handoff"@,
        ) == Some(context.stale_result_handoff),
{
    let told = context_text(gate_kind, path, node_id, parent, context);
    let before = told_first(
        gate_kind,
        path,
        node_id,
        parent,
        context.processed_comment_blocks,
    );
    let section = json_section_text("Stale Handoff"@, context.stale_result_handoff);
    reveal_strlit("\n## Processed Comment Blocks\n```json\n");
    reveal_strlit("\n## ");
    reveal_strlit("Processed Comment Blocks");
    reveal_strlit("\n```json\n");
    reveal_strlit("## Stale Handoff");
    reveal_strlit("## ");
    reveal_strlit("Stale Handoff");
    assert("\n## "@ + "Processed Comment Blocks"@ + "\n```json\n"@
        =~= "\n## Processed Comment Blocks\n```json\n"@);
    assert("## "@ + "Stale Handoff"@ =~= "## Stale Handoff"@);
    let head = "## Target\n- Gate Kind: "@ + gate_kind + "\n- Target Relative Path: "@ + path
        + "\n- Target Node ID: "@ + node_id + "\n"@;
    let target = match parent {
        Some(at) => head + "- Target Parent Relative Path: "@ + at + "\n"@,
        None => head,
    };
    let comments = json_section_text(
        "Processed Comment Blocks"@,
        context.processed_comment_blocks,
    );
    assert(before =~= target + comments);
    let rest = match context.rewrite_result {
        Some(rewrite) => json_section_text("Changed Files"@, rewrite.changed_files)
            + json_section_text("Changed Child Links"@, rewrite.structural_changes)
            + json_section_text("Context Invalidations"@, rewrite.context_invalidations)
            + json_section_text("Expected Gate Targets"@, rewrite.expected_gate_targets),
        None => "\n## Changed Files\nNone\n"@ + "\n## Changed Child Links\nNone\n"@
            + "\n## Context Invalidations\nNone\n"@ + "\n## Expected Gate Targets\nNone\n"@,
    };
    assert(told =~= before + section + rest);
    sections_read_back(told, "Stale Handoff"@, before, context.stale_result_handoff, rest);
}

} // verus!
