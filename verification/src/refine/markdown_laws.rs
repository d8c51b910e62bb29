//! What holds of every change to the markdown of a plan.
use super::link_laws::trimmed_is_part;
use super::markdown::{
    after_markers, before_markers, first_heading_from, has_heading, is_dropped, is_heading,
    is_reason_line, is_status_line, kept_lines_from, lines_before_marker, marked_stale,
    marker_place, normalized_reason, stale_marker, title_from, title_from_name, title_of,
    without_comment_blocks,
};
use super::rewrite_types::RefineRewriteErrorModel;
use crate::line_laws::{
    are_lines, full_line_comes_first, is_full_line, is_line, line_ranges_are_lines, lines_are_lines,
    lines_of_joined_lines, lines_split,
};
use crate::runtime::comments::{
    block_is_delimited, blocks_from, comment_blocks, comment_blocks_match_markers, is_begin, is_end,
    CommentBlockModel, CommentBlockParseError,
};
use crate::text::{
    begins_with, concat_all, has_text, is_space, joined, lines_of, lines_rebuild_text, occurs_at,
    replaced_from, space_start, trimmed, trimmed_start, without_line_end, words_from, words_of,
};
use vstd::prelude::*;

verus! {

// ---------------------------------------------------------------------
// Comments
// ---------------------------------------------------------------------
/// The line is a marker of a comment.
pub open spec fn is_comment_marker(line: Seq<char>) -> bool {
    is_begin(line) || is_end(line)
}

proof fn kept_lines_are_lines(
    lines: Seq<Seq<char>>,
    blocks: Seq<CommentBlockModel>,
    preserved: Seq<(usize, usize)>,
    i: int,
    acc: Seq<Seq<char>>,
)
    requires
        are_lines(lines),
        0 <= i <= lines.len(),
        are_lines(acc),
        i < lines.len() ==> forall|k: int|
            0 <= k < acc.len() ==> is_full_line(#[trigger] acc[k]),
    ensures
        are_lines(kept_lines_from(lines, blocks, preserved, i, acc)),
    decreases lines.len() - i,
{
    if i < lines.len() {
        if is_dropped(blocks, preserved, i) {
            kept_lines_are_lines(lines, blocks, preserved, i + 1, acc);
        } else {
            let next = acc.push(lines[i]);
            assert forall|k: int| 0 <= k < next.len() implies is_line(#[trigger] next[k]) by {
                if k < acc.len() {
                    assert(next[k] == acc[k]);
                }
            }
            assert forall|k: int| 0 <= k < next.len() - 1 implies is_full_line(
                #[trigger] next[k],
            ) by {
                assert(next[k] == acc[k]);
            }
            kept_lines_are_lines(lines, blocks, preserved, i + 1, next);
        }
    }
}

/// One of the lines from `i` on that stay is this one.
pub open spec fn stays(
    lines: Seq<Seq<char>>,
    blocks: Seq<CommentBlockModel>,
    preserved: Seq<(usize, usize)>,
    i: int,
    line: Seq<char>,
) -> bool {
    exists|j: int|
        i <= j < lines.len() && !is_dropped(blocks, preserved, j) && #[trigger] lines[j] == line
}

proof fn kept_lines_come_from_lines(
    lines: Seq<Seq<char>>,
    blocks: Seq<CommentBlockModel>,
    preserved: Seq<(usize, usize)>,
    i: int,
    acc: Seq<Seq<char>>,
    k: int,
)
    requires
        0 <= i <= lines.len(),
        0 <= k < kept_lines_from(lines, blocks, preserved, i, acc).len(),
    ensures
        acc.contains(kept_lines_from(lines, blocks, preserved, i, acc)[k]) || stays(
            lines,
            blocks,
            preserved,
            i,
            kept_lines_from(lines, blocks, preserved, i, acc)[k],
        ),
    decreases lines.len() - i,
{
    let line = kept_lines_from(lines, blocks, preserved, i, acc)[k];
    if i < lines.len() {
        let next = if is_dropped(blocks, preserved, i) {
            acc
        } else {
            acc.push(lines[i])
        };
        kept_lines_come_from_lines(lines, blocks, preserved, i + 1, next, k);
        if stays(lines, blocks, preserved, i + 1, line) {
            let j = choose|j: int|
                i + 1 <= j < lines.len() && !is_dropped(blocks, preserved, j)
                    && #[trigger] lines[j] == line;
            assert(lines[j] == line);
        } else {
            let m = choose|m: int| 0 <= m < next.len() && next[m] == line;
            if m < acc.len() {
                assert(acc[m] == line);
            } else {
                assert(lines[i] == line);
            }
        }
    }
}

proof fn all_lines_are_kept(
    lines: Seq<Seq<char>>,
    blocks: Seq<CommentBlockModel>,
    preserved: Seq<(usize, usize)>,
    i: int,
    acc: Seq<Seq<char>>,
)
    requires
        0 <= i <= lines.len(),
        acc == lines.take(i),
        forall|j: int| i <= j < lines.len() ==> !#[trigger] is_dropped(blocks, preserved, j),
    ensures
        kept_lines_from(lines, blocks, preserved, i, acc) == lines,
    decreases lines.len() - i,
{
    if i < lines.len() {
        assert(!is_dropped(blocks, preserved, i));
        assert(acc.push(lines[i]) =~= lines.take(i + 1));
        all_lines_are_kept(lines, blocks, preserved, i + 1, acc.push(lines[i]));
    } else {
        assert(acc =~= lines);
    }
}

proof fn no_marker_no_block(lines: Seq<Seq<char>>, i: int, acc: Seq<CommentBlockModel>)
    requires
        0 <= i <= lines.len(),
        forall|j: int| i <= j < lines.len() ==> !is_comment_marker(#[trigger] lines[j]),
    ensures
        blocks_from(lines, i, None, acc) == Ok::<Seq<CommentBlockModel>, CommentBlockParseError>(
            acc,
        ),
    decreases lines.len() - i,
{
    if i < lines.len() {
        assert(!is_comment_marker(lines[i]));
        no_marker_no_block(lines, i + 1, acc);
    }
}

/// Taking comments out of a text keeps every other line as it is, in its
/// order.
pub proof fn cleanup_keeps_other_lines(
    path: Seq<char>,
    markdown: Seq<char>,
    preserved: Seq<(usize, usize)>,
)
    ensures
        without_comment_blocks(path, markdown, preserved) matches Ok(clean) ==> lines_of(clean)
            == kept_lines_from(
            lines_of(markdown),
            comment_blocks(markdown)->Ok_0,
            preserved,
            0,
            Seq::empty(),
        ),
{
    if let Ok(blocks) = comment_blocks(markdown) {
        lines_are_lines(markdown);
        kept_lines_are_lines(lines_of(markdown), blocks, preserved, 0, Seq::empty());
        lines_of_joined_lines(
            kept_lines_from(lines_of(markdown), blocks, preserved, 0, Seq::empty()),
        );
    }
}

/// A text without a comment stays as it is.
pub proof fn cleanup_leaves_plain_text(
    path: Seq<char>,
    markdown: Seq<char>,
    preserved: Seq<(usize, usize)>,
)
    requires
        forall|j: int|
            0 <= j < lines_of(markdown).len() ==> !is_comment_marker(
                #[trigger] lines_of(markdown)[j],
            ),
    ensures
        without_comment_blocks(path, markdown, preserved) == Ok::<
            Seq<char>,
            RefineRewriteErrorModel,
        >(markdown),
{
    let lines = lines_of(markdown);
    no_marker_no_block(lines, 0, Seq::empty());
    assert(lines.take(0) =~= Seq::empty());
    all_lines_are_kept(lines, Seq::empty(), preserved, 0, Seq::empty());
    lines_rebuild_text(markdown);
}

/// Where no comment is to stay, none is left, and cleaning once more changes
/// nothing.
pub proof fn cleanup_leaves_no_comment(
    path: Seq<char>,
    markdown: Seq<char>,
    later: Seq<(usize, usize)>,
)
    requires
        lines_of(markdown).len() <= usize::MAX,
    ensures
        without_comment_blocks(path, markdown, Seq::empty()) matches Ok(clean) ==> {
            &&& forall|k: int|
                0 <= k < lines_of(clean).len() ==> !is_comment_marker(
                    #[trigger] lines_of(clean)[k],
                )
            &&& without_comment_blocks(path, clean, later) == Ok::<
                Seq<char>,
                RefineRewriteErrorModel,
            >(clean)
        },
{
    let none = Seq::<(usize, usize)>::empty();
    if let Ok(clean) = without_comment_blocks(path, markdown, none) {
        let lines = lines_of(markdown);
        let blocks = comment_blocks(markdown)->Ok_0;
        cleanup_keeps_other_lines(path, markdown, none);
        comment_blocks_match_markers(markdown);
        let kept = lines_of(clean);
        assert forall|k: int| 0 <= k < kept.len() implies !is_comment_marker(
            #[trigger] kept[k],
        ) by {
            kept_lines_come_from_lines(lines, blocks, none, 0, Seq::empty(), k);
            assert(!Seq::<Seq<char>>::empty().contains(kept[k]));
            let j = choose|j: int|
                0 <= j < lines.len() && !is_dropped(blocks, none, j) && #[trigger] lines[j]
                    == kept[k];
            if is_comment_marker(lines[j]) {
                let b = choose|b: int|
                    0 <= b < blocks.len() && ((#[trigger] blocks[b]).start_line == j + 1
                        || blocks[b].end_line == j + 1);
                assert(block_is_delimited(lines, blocks[b]));
                assert(is_dropped(blocks, none, j));
            }
        }
        cleanup_leaves_plain_text(path, clean, later);
    }
}

/// No line of a comment that is to stay is taken out.
pub proof fn cleanup_keeps_preserved_comments(
    markdown: Seq<char>,
    preserved: Seq<(usize, usize)>,
    block: int,
    line: int,
)
    requires
        lines_of(markdown).len() <= usize::MAX,
        comment_blocks(markdown) is Ok,
        0 <= block < comment_blocks(markdown)->Ok_0.len(),
        preserved.contains(
            (
                comment_blocks(markdown)->Ok_0[block].start_line,
                comment_blocks(markdown)->Ok_0[block].end_line,
            ),
        ),
        comment_blocks(markdown)->Ok_0[block].start_line <= line + 1
            <= comment_blocks(markdown)->Ok_0[block].end_line,
    ensures
        !is_dropped(comment_blocks(markdown)->Ok_0, preserved, line),
{
    let blocks = comment_blocks(markdown)->Ok_0;
    comment_blocks_match_markers(markdown);
    if is_dropped(blocks, preserved, line) {
        let k = choose|k: int|
            0 <= k < blocks.len() && (#[trigger] blocks[k]).start_line <= line + 1
                <= blocks[k].end_line && !preserved.contains(
                (blocks[k].start_line, blocks[k].end_line),
            );
        assert(k != block);
        assert(k < block ==> blocks[k].end_line < blocks[block].start_line);
        assert(block < k ==> blocks[block].end_line < blocks[k].start_line);
    }
}

// ---------------------------------------------------------------------
// Stale markers
// ---------------------------------------------------------------------
/// The first line of a marker.
pub open spec fn status_line() -> Seq<char> {
    "<!-- loopy-refine-status: stale -->\n"@
}

/// The second line of a marker.
pub open spec fn reason_line(reason: Seq<char>) -> Seq<char> {
    "<!-- loopy-refine-stale-reason: "@ + reason + " -->\n"@
}

/// White space at the end of a text does not count.
pub proof fn line_feed_is_trimmed(text: Seq<char>)
    requires
        text.len() > 0,
        !is_space(text[0]),
        !is_space(text.last()),
    ensures
        trimmed(text) == text,
        trimmed(text.push('\n')) == text,
{
    let line = text.push('\n');
    assert(space_start(text, text.len() as int) == text.len());
    assert(text.subrange(0, text.len() as int) =~= text);
    assert(line[text.len() as int] == '\n');
    assert(line[text.len() - 1] == text.last());
    assert(space_start(line, text.len() as int) == text.len());
    assert(space_start(line, line.len() as int) == text.len());
    assert(line[0] == text[0]);
    assert(line.subrange(0, text.len() as int) =~= text);
}

proof fn marker_is_two_lines(reason: Seq<char>)
    ensures
        stale_marker(reason) == status_line() + reason_line(reason),
{
    reveal_strlit("<!-- loopy-refine-status: stale -->\n<!-- loopy-refine-stale-reason: ");
    reveal_strlit("<!-- loopy-refine-status: stale -->\n");
    reveal_strlit("<!-- loopy-refine-stale-reason: ");
    assert("<!-- loopy-refine-status: stale -->\n<!-- loopy-refine-stale-reason: "@
        =~= "<!-- loopy-refine-status: stale -->\n"@ + "<!-- loopy-refine-stale-reason: "@);
    assert(stale_marker(reason) =~= status_line() + reason_line(reason));
}

proof fn status_line_is_known()
    ensures
        is_full_line(status_line()),
        is_status_line(status_line()),
{
    let text = status_line().drop_last();
    reveal_strlit("<!-- loopy-refine-status: stale -->\n");
    reveal_strlit("<!-- loopy-refine-status:");
    reveal_strlit("-->");
    assert(status_line() =~= text.push('\n'));
    line_feed_is_trimmed(text);
    assert(text.subrange(0, "<!-- loopy-refine-status:"@.len() as int)
        =~= "<!-- loopy-refine-status:"@);
    assert(text.subrange(text.len() - 3, text.len() as int) =~= "-->"@);
}

proof fn reason_line_is_known(reason: Seq<char>)
    requires
        !reason.contains('\n'),
    ensures
        is_full_line(reason_line(reason)),
        is_reason_line(reason_line(reason)),
{
    let line = reason_line(reason);
    let text = line.drop_last();
    reveal_strlit("<!-- loopy-refine-stale-reason: ");
    reveal_strlit("<!-- loopy-refine-stale-reason:");
    reveal_strlit(" -->\n");
    reveal_strlit("-->");
    let start = "<!-- loopy-refine-stale-reason: "@;
    assert(line =~= text.push('\n'));
    assert(text[0] == start[0]);
    assert(text.last() == " -->\n"@[3]);
    line_feed_is_trimmed(text);
    assert(text.subrange(0, "<!-- loopy-refine-stale-reason:"@.len() as int)
        =~= "<!-- loopy-refine-stale-reason:"@);
    assert(text.subrange(text.len() - 3, text.len() as int) =~= "-->"@);
    assert forall|i: int| 0 <= i < line.len() - 1 implies #[trigger] line[i] != '\n' by {
        if i < start.len() {
            assert(line[i] == start[i]);
        } else if i < start.len() + reason.len() {
            assert(line[i] == reason[i - start.len()]);
            assert(reason.contains(reason[i - start.len()]));
        } else {
            assert(line[i] == " -->\n"@[i - start.len() - reason.len()]);
        }
    }
}

proof fn heading_is_least(lines: Seq<Seq<char>>, i: int)
    requires
        0 <= i <= lines.len(),
    ensures
        match first_heading_from(lines, i) {
            Some(at) => i <= at < lines.len() && is_heading(lines[at]) && forall|k: int|
                i <= k < at ==> !is_heading(#[trigger] lines[k]),
            None => forall|k: int| i <= k < lines.len() ==> !is_heading(#[trigger] lines[k]),
        },
    decreases lines.len() - i,
{
    if i < lines.len() && !is_heading(lines[i]) {
        heading_is_least(lines, i + 1);
    }
}

proof fn markers_are_skipped(lines: Seq<Seq<char>>, i: int)
    requires
        0 <= i <= lines.len(),
    ensures
        i <= after_markers(lines, i) <= lines.len(),
        after_markers(lines, i) < lines.len() ==> !is_status_line(lines[after_markers(lines, i)]),
    decreases lines.len() - i,
{
    if i < lines.len() && is_status_line(lines[i]) {
        if i + 1 < lines.len() && is_reason_line(lines[i + 1]) {
            markers_are_skipped(lines, i + 2);
        } else {
            markers_are_skipped(lines, i + 1);
        }
    }
}

/// No marker stands right before line `at`, not before line `start`.
pub open spec fn no_marker_before(lines: Seq<Seq<char>>, start: int, at: int) -> bool {
    &&& at > start ==> !is_status_line(lines[at - 1])
    &&& at > start + 1 ==> !(is_reason_line(lines[at - 1]) && is_status_line(lines[at - 2]))
}

proof fn markers_are_cut(lines: Seq<Seq<char>>, start: int, at: int)
    requires
        0 <= start <= at <= lines.len(),
    ensures
        start <= before_markers(lines, start, at) <= at,
        no_marker_before(lines, start, before_markers(lines, start, at)),
    decreases at - start,
{
    if at > start && is_status_line(lines[at - 1]) {
        markers_are_cut(lines, start, at - 1);
    } else if at > start + 1 && is_reason_line(lines[at - 1]) && is_status_line(lines[at - 2]) {
        markers_are_cut(lines, start, at - 2);
    }
}

proof fn marker_place_is_in_range(lines: Seq<Seq<char>>)
    ensures
        0 <= after_markers(lines, 0) <= before_markers(
            lines,
            after_markers(lines, 0),
            marker_place(lines),
        ) <= marker_place(lines) <= lines.len(),
        marker_place(lines) == lines.len() ==> after_markers(lines, 0) == lines.len(),
{
    let start = after_markers(lines, 0);
    markers_are_skipped(lines, 0);
    heading_is_least(lines, start);
    markers_are_cut(lines, start, marker_place(lines));
}

/// Marking a node stale puts two lines in and takes the markers at the start
/// and at the place of the new one out. Every other line stays as it is, in its
/// order.
pub proof fn stale_marker_keeps_other_lines(markdown: Seq<char>, reason: Seq<char>)
    requires
        !reason.contains('\n'),
    ensures
        ({
            let lines = lines_of(markdown);
            lines_of(marked_stale(markdown, reason)) == lines_before_marker(lines) + seq![
                status_line(),
                reason_line(reason),
            ] + lines.subrange(marker_place(lines), lines.len() as int)
        }),
{
    let lines = lines_of(markdown);
    let start = after_markers(lines, 0);
    let at = marker_place(lines);
    let end = before_markers(lines, start, at);
    lines_are_lines(markdown);
    marker_place_is_in_range(lines);
    line_ranges_are_lines(lines, start, end);
    line_ranges_are_lines(lines, at, lines.len() as int);
    let before = concat_all(lines.subrange(start, end));
    let after = concat_all(lines.subrange(at, lines.len() as int));
    marker_is_two_lines(reason);
    status_line_is_known();
    reason_line_is_known(reason);
    if end == lines.len() {
        assert(lines.subrange(start, end) =~= Seq::empty());
    }
    assert(marked_stale(markdown, reason) =~= before + (status_line() + (reason_line(reason)
        + after)));
    lines_split(before, status_line() + (reason_line(reason) + after));
    full_line_comes_first(status_line(), reason_line(reason) + after);
    full_line_comes_first(reason_line(reason), after);
    assert(lines_of(marked_stale(markdown, reason)) =~= lines.subrange(start, end) + seq![
        status_line(),
        reason_line(reason),
    ] + lines.subrange(at, lines.len() as int));
}

proof fn marker_lines_are_no_headings(reason: Seq<char>)
    requires
        !reason.contains('\n'),
    ensures
        !is_heading(status_line()),
        !is_heading(reason_line(reason)),
        !is_status_line(reason_line(reason)),
{
    reveal_strlit("#");
    reveal_strlit("<!-- loopy-refine-status: stale -->\n");
    reveal_strlit("<!-- loopy-refine-stale-reason: ");
    reveal_strlit("<!-- loopy-refine-stale-reason:");
    reveal_strlit("<!-- loopy-refine-status:");
    let status = status_line();
    let line = reason_line(reason);
    let start = "<!-- loopy-refine-stale-reason: "@;
    assert(status[0] == '<');
    assert(line[0] == start[0]);
    assert(trimmed_start(status) =~= status);
    assert(trimmed_start(line) =~= line);
    assert(status.subrange(0, 1)[0] == '<');
    assert(line.subrange(0, 1)[0] == '<');
    assert("#"@[0] == '#');
    reason_line_is_known(reason);
    let cut = trimmed(line);
    if begins_with(cut, "<!-- loopy-refine-status:"@) {
        let a = "<!-- loopy-refine-status:"@;
        let b = "<!-- loopy-refine-stale-reason:"@;
        assert(cut.subrange(0, a.len() as int)[22] == a[22]);
        assert(cut.subrange(0, b.len() as int)[22] == b[22]);
    }
}

proof fn heading_behind_prefix(prefix: Seq<Seq<char>>, lines: Seq<Seq<char>>, i: int)
    requires
        0 <= i <= lines.len(),
    ensures
        first_heading_from(prefix + lines, prefix.len() + i) == match first_heading_from(lines, i) {
            Some(at) => Some(prefix.len() + at),
            None => None,
        },
    decreases lines.len() - i,
{
    let all = prefix + lines;
    if i < lines.len() {
        assert(all[prefix.len() + i] == lines[i]);
        heading_behind_prefix(prefix, lines, i + 1);
    }
}

/// Marking a node stale again replaces the marker: only the last one is left,
/// and the rest of the text is as if it had been the only one.
pub proof fn last_stale_marker_counts(markdown: Seq<char>, first: Seq<char>, last: Seq<char>)
    requires
        !first.contains('\n'),
    ensures
        marked_stale(marked_stale(markdown, first), last) == marked_stale(markdown, last),
{
    let lines = lines_of(markdown);
    let start = after_markers(lines, 0);
    let at = marker_place(lines);
    let end = before_markers(lines, start, at);
    let before = lines_before_marker(lines);
    let rest = lines.subrange(at, lines.len() as int);
    let again = lines_of(marked_stale(markdown, first));
    let marker = seq![status_line(), reason_line(first)];
    stale_marker_keeps_other_lines(markdown, first);
    marker_place_is_in_range(lines);
    markers_are_skipped(lines, 0);
    markers_are_cut(lines, start, at);
    heading_is_least(lines, start);
    status_line_is_known();
    reason_line_is_known(first);
    marker_lines_are_no_headings(first);
    let n = before.len() as int;
    assert(again =~= before + marker + rest);
    assert(again[n] == status_line());
    assert(again[n + 1] == reason_line(first));
    assert(again.subrange(n + 2, again.len() as int) =~= rest);
    assert(again.subrange(0, n) =~= before);
    assert(rest.len() > 0 ==> again[n + 2] == lines[at]);
    if n == 0 {
        assert(rest.len() > 0 ==> !is_status_line(lines[at])) by {
            if rest.len() > 0 && at > start {
                heading_is_no_marker(lines[at]);
            }
        }
        assert(after_markers(again, 2) == 2);
        assert(after_markers(again, 0) == 2);
        heading_behind_prefix(marker, rest, 0);
        assert(marker + rest =~= again);
        heading_behind_prefix(lines.subrange(0, at), rest, 0);
        assert(lines.subrange(0, at) + rest =~= lines);
        heading_is_least(rest, 0);
        heading_is_least(again, 2);
        if let Some(line) = first_heading_from(lines, start) {
            assert(is_heading(again[2]));
        } else {
            assert forall|k: int| 2 <= k < again.len() implies !is_heading(#[trigger] again[k]) by {
                assert(again[k] == lines[at + k - 2]);
            }
        }
        assert(marker_place(again) == 2);
        assert(before_markers(again, 2, 2) == 2);
        assert(lines_before_marker(again) =~= before);
    } else {
        assert(at > start);
        assert(again[0] == before[0]);
        assert(before[0] == lines[start]);
        assert(after_markers(again, 0) == 0);
        heading_is_least(again, 0);
        assert forall|k: int| 0 <= k < n + 2 implies !is_heading(#[trigger] again[k]) by {
            if k < n {
                assert(again[k] == lines[start + k]);
            }
        }
        assert(is_heading(again[n + 2]));
        assert(first_heading_from(again, 0) == Some(n + 2));
        assert(marker_place(again) == n + 2);
        assert(again[n - 1] == lines[end - 1]);
        assert(n > 1 ==> again[n - 2] == lines[end - 2]);
        assert(before_markers(again, 0, n) == n);
        assert(before_markers(again, 0, n + 2) == n);
        assert(lines_before_marker(again) =~= before);
    }
}

proof fn heading_is_no_reason_line(line: Seq<char>)
    requires
        is_heading(line),
    ensures
        !is_reason_line(line),
{
    reveal_strlit("#");
    reveal_strlit("<!-- loopy-refine-stale-reason:");
    let cut = trimmed_start(line);
    assert(cut.subrange(0, 1)[0] == "#"@[0]);
    if is_reason_line(line) {
        let a = "<!-- loopy-refine-stale-reason:"@;
        assert(trimmed(line).subrange(0, a.len() as int)[0] == a[0]);
        assert(trimmed(line)[0] == '<');
        trimmed_is_part(line);
        assert(trimmed(line)[0] == cut[0]);
    }
}

proof fn skipped_markers_hold_no_heading(lines: Seq<Seq<char>>, i: int)
    requires
        0 <= i <= lines.len(),
    ensures
        forall|k: int| i <= k < after_markers(lines, i) ==> !is_heading(#[trigger] lines[k]),
    decreases lines.len() - i,
{
    if i < lines.len() && is_status_line(lines[i]) {
        if is_heading(lines[i]) {
            heading_is_no_marker(lines[i]);
        }
        if i + 1 < lines.len() && is_reason_line(lines[i + 1]) {
            if is_heading(lines[i + 1]) {
                heading_is_no_reason_line(lines[i + 1]);
            }
            skipped_markers_hold_no_heading(lines, i + 2);
        } else {
            skipped_markers_hold_no_heading(lines, i + 1);
        }
    }
}

proof fn heading_is_no_marker(line: Seq<char>)
    requires
        is_heading(line),
    ensures
        !is_status_line(line),
{
    reveal_strlit("#");
    reveal_strlit("<!-- loopy-refine-status:");
    let cut = trimmed_start(line);
    assert(cut.subrange(0, 1)[0] == "#"@[0]);
    if is_status_line(line) {
        let a = "<!-- loopy-refine-status:"@;
        assert(trimmed(line).subrange(0, a.len() as int)[0] == a[0]);
        assert(trimmed(line)[0] == '<');
        trimmed_is_part(line);
        assert(trimmed(line)[0] == cut[0]);
    }
}

/// A marked node keeps its headings.
pub proof fn stale_marker_keeps_headings(markdown: Seq<char>, reason: Seq<char>)
    requires
        !reason.contains('\n'),
        has_heading(markdown),
    ensures
        has_heading(marked_stale(markdown, reason)),
{
    let lines = lines_of(markdown);
    let start = after_markers(lines, 0);
    let at = marker_place(lines);
    let marked = lines_of(marked_stale(markdown, reason));
    stale_marker_keeps_other_lines(markdown, reason);
    marker_place_is_in_range(lines);
    heading_is_least(lines, 0);
    heading_is_least(lines, start);
    heading_is_least(marked, 0);
    skipped_markers_hold_no_heading(lines, 0);
    let h = first_heading_from(lines, 0)->Some_0;
    assert(is_heading(lines[h]));
    assert(marked[lines_before_marker(lines).len() as int + 2] == lines[at]);
}

/// None of the characters is white space.
pub open spec fn is_spaceless(word: Seq<char>) -> bool {
    forall|c: int| 0 <= c < word.len() ==> !is_space(#[trigger] word[c])
}

proof fn words_hold_no_space(s: Seq<char>, start: int, i: int)
    requires
        0 <= start <= i <= s.len(),
        forall|k: int| start <= k < i ==> !is_space(#[trigger] s[k]),
    ensures
        forall|w: int|
            0 <= w < words_from(s, start, i).len() ==> is_spaceless(
                #[trigger] words_from(s, start, i)[w],
            ),
    decreases s.len() - i,
{
    if i < s.len() {
        if is_space(s[i]) {
            words_hold_no_space(s, i + 1, i + 1);
            let rest = words_from(s, i + 1, i + 1);
            if start < i {
                let all = seq![s.subrange(start, i)] + rest;
                assert(is_spaceless(s.subrange(start, i)));
                assert forall|w: int| 0 <= w < all.len() implies is_spaceless(
                    #[trigger] all[w],
                ) by {
                    if w > 0 {
                        assert(all[w] == rest[w - 1]);
                    }
                }
                assert(words_from(s, start, i) == all);
            } else {
                assert(words_from(s, start, i) == rest);
            }
        } else {
            words_hold_no_space(s, start, i + 1);
            assert(words_from(s, start, i) == words_from(s, start, i + 1));
        }
    } else if start < s.len() {
        assert(is_spaceless(s.subrange(start, s.len() as int)));
        assert(words_from(s, start, i) == seq![s.subrange(start, s.len() as int)]);
    } else {
        assert(words_from(s, start, i).len() == 0);
    }
}

proof fn joined_words_are_one_line(words: Seq<Seq<char>>)
    requires
        forall|w: int| 0 <= w < words.len() ==> is_spaceless(#[trigger] words[w]),
    ensures
        forall|c: int|
            0 <= c < joined(words, " "@).len() ==> #[trigger] joined(words, " "@)[c] != '\n',
    decreases words.len(),
{
    reveal_strlit(" ");
    if words.len() == 1 {
        assert forall|c: int| 0 <= c < joined(words, " "@).len() implies #[trigger] joined(
            words,
            " "@,
        )[c] != '\n' by {
            assert(is_spaceless(words[0]));
        }
    } else if words.len() > 1 {
        let front = words.drop_last();
        assert forall|w: int| 0 <= w < front.len() implies is_spaceless(#[trigger] front[w]) by {
            assert(front[w] == words[w]);
        }
        joined_words_are_one_line(front);
        let all = joined(words, " "@);
        let before = joined(front, " "@);
        assert forall|c: int| 0 <= c < all.len() implies #[trigger] all[c] != '\n' by {
            if c < before.len() {
                assert(all[c] == before[c]);
            } else if c > before.len() {
                assert(is_spaceless(words[words.len() - 1]));
                assert(all[c] == words[words.len() - 1][c - before.len() - 1]);
            }
        }
    }
}

proof fn replacing_keeps_one_line(s: Seq<char>, i: int)
    requires
        0 <= i <= s.len(),
        forall|c: int| 0 <= c < s.len() ==> #[trigger] s[c] != '\n',
    ensures
        ({
            let out = replaced_from(s, "-->"@, "-- >"@, i);
            forall|c: int| 0 <= c < out.len() ==> #[trigger] out[c] != '\n'
        }),
    decreases s.len() - i,
{
    reveal_strlit("-->");
    reveal_strlit("-- >");
    let out = replaced_from(s, "-->"@, "-- >"@, i);
    if i < s.len() {
        if occurs_at(s, "-->"@, i) {
            replacing_keeps_one_line(s, i + 3);
            let rest = replaced_from(s, "-->"@, "-- >"@, i + 3);
            assert forall|c: int| 0 <= c < out.len() implies #[trigger] out[c] != '\n' by {
                if c < 4 {
                    assert(out[c] == "-- >"@[c]);
                } else {
                    assert(out[c] == rest[c - 4]);
                }
            }
        } else {
            replacing_keeps_one_line(s, i + 1);
            let rest = replaced_from(s, "-->"@, "-- >"@, i + 1);
            assert forall|c: int| 0 <= c < out.len() implies #[trigger] out[c] != '\n' by {
                if c > 0 {
                    assert(out[c] == rest[c - 1]);
                }
            }
        }
    }
}

/// What the replaced text starts with, the text started with.
proof fn replaced_start(s: Seq<char>, i: int)
    requires
        0 <= i <= s.len(),
    ensures
        ({
            let out = replaced_from(s, "-->"@, "-- >"@, i);
            &&& out.len() > 0 && out[0] == '>' ==> i < s.len() && s[i] == '>'
            &&& out.len() > 1 && out[0] == '-' && out[1] == '>' ==> i + 1 < s.len() && s[i] == '-'
                && s[i + 1] == '>'
        }),
{
    reveal_strlit("-->");
    reveal_strlit("-- >");
    let out = replaced_from(s, "-->"@, "-- >"@, i);
    if i < s.len() && !occurs_at(s, "-->"@, i) {
        let rest = replaced_from(s, "-->"@, "-- >"@, i + 1);
        assert(out[0] == s[i]);
        if out.len() > 1 {
            assert(out[1] == rest[0]);
            if i + 1 < s.len() {
                if occurs_at(s, "-->"@, i + 1) {
                    assert(rest[0] == '-');
                } else {
                    assert(rest[0] == s[i + 1]);
                }
            }
        }
    } else if i < s.len() {
        assert(out[0] == "-- >"@[0]);
        assert(out[1] == "-- >"@[1]);
    }
}

proof fn replaced_text_closes_no_comment(s: Seq<char>, i: int, at: int)
    requires
        0 <= i <= s.len(),
    ensures
        !occurs_at(replaced_from(s, "-->"@, "-- >"@, i), "-->"@, at),
    decreases s.len() - i,
{
    reveal_strlit("-->");
    reveal_strlit("-- >");
    let out = replaced_from(s, "-->"@, "-- >"@, i);
    if occurs_at(out, "-->"@, at) {
        assert(out.subrange(at, at + 3)[0] == '-');
        assert(out.subrange(at, at + 3)[1] == '-');
        assert(out.subrange(at, at + 3)[2] == '>');
        assert(out[at] == '-' && out[at + 1] == '-' && out[at + 2] == '>');
        if i >= s.len() {
            assert(out.len() == 0);
        } else if occurs_at(s, "-->"@, i) {
            let rest = replaced_from(s, "-->"@, "-- >"@, i + 3);
            assert(out[0] == '-' && out[1] == '-' && out[2] == ' ' && out[3] == '>');
            assert(at >= 4);
            assert(out.subrange(at, at + 3) =~= rest.subrange(at - 4, at - 1));
            replaced_text_closes_no_comment(s, i + 3, at - 4);
        } else {
            let rest = replaced_from(s, "-->"@, "-- >"@, i + 1);
            if at > 0 {
                assert(out.subrange(at, at + 3) =~= rest.subrange(at - 1, at + 2));
                replaced_text_closes_no_comment(s, i + 1, at - 1);
            } else {
                replaced_start(s, i + 1);
                assert(rest[0] == out[1] && rest[1] == out[2]);
                assert(s.subrange(i, i + 3) =~= "-->"@);
            }
        }
    }
}

/// A reason stands on one line and does not close the comment that it stands
/// in.
pub proof fn reasons_stay_in_their_comment(reason: Seq<char>)
    ensures
        !normalized_reason(reason).contains('\n'),
        !has_text(normalized_reason(reason), "-->"@),
{
    let text = joined(words_of(reason), " "@);
    words_hold_no_space(reason, 0, 0);
    joined_words_are_one_line(words_of(reason));
    replacing_keeps_one_line(text, 0);
    assert forall|at: int| !occurs_at(normalized_reason(reason), "-->"@, at) by {
        replaced_text_closes_no_comment(text, 0, at);
    }
}

// ---------------------------------------------------------------------
// Titles
// ---------------------------------------------------------------------
/// What the line says behind a single `#`, without the white space around it.
pub open spec fn heading_text(line: Seq<char>) -> Seq<char> {
    trimmed(trimmed_start(without_line_end(line)).skip(2))
}

/// The line is a heading of the first level that says something.
pub open spec fn is_title_line(line: Seq<char>) -> bool {
    begins_with(trimmed_start(without_line_end(line)), "# "@) && heading_text(line).len() > 0
}

proof fn first_title_is_found(lines: Seq<Seq<char>>, i: int)
    requires
        0 <= i <= lines.len(),
        forall|j: int| 0 <= j < i ==> !is_title_line(#[trigger] lines[j]),
    ensures
        match title_from(lines, i) {
            Some(title) => exists|k: int|
                0 <= k < lines.len() && is_title_line(#[trigger] lines[k]) && title == heading_text(
                    lines[k],
                ) && forall|j: int| 0 <= j < k ==> !is_title_line(#[trigger] lines[j]),
            None => forall|j: int| 0 <= j < lines.len() ==> !is_title_line(#[trigger] lines[j]),
        },
    decreases lines.len() - i,
{
    reveal_strlit("# ");
    if i < lines.len() && !is_title_line(lines[i]) {
        first_title_is_found(lines, i + 1);
    }
}

/// The title of a markdown is what its first heading of the first level says, or,
/// where there is none, what its name makes: the words of the stem.
pub proof fn titles_are_the_first_heading(markdown: Seq<char>, name: Seq<char>)
    ensures
        ({
            let lines = lines_of(markdown);
            &&& forall|k: int|
                0 <= k < lines.len() && is_title_line(#[trigger] lines[k]) && (forall|j: int|
                    0 <= j < k ==> !is_title_line(#[trigger] lines[j])) ==> title_of(markdown, name)
                    == heading_text(lines[k])
            &&& (forall|j: int| 0 <= j < lines.len() ==> !is_title_line(#[trigger] lines[j]))
                ==> title_of(markdown, name) == title_from_name(name)
        }),
{
    let lines = lines_of(markdown);
    first_title_is_found(lines, 0);
    assert forall|k: int|
        0 <= k < lines.len() && is_title_line(#[trigger] lines[k]) && (forall|j: int|
            0 <= j < k ==> !is_title_line(#[trigger] lines[j])) implies title_of(markdown, name)
        == heading_text(lines[k]) by {
        let m = choose|m: int|
            0 <= m < lines.len() && is_title_line(#[trigger] lines[m]) && title_from(lines, 0)
                == Some(heading_text(lines[m])) && forall|j: int|
                0 <= j < m ==> !is_title_line(#[trigger] lines[j]);
        if k < m {
            assert(!is_title_line(lines[k]));
        } else if m < k {
            assert(!is_title_line(lines[m]));
        }
    }
}

/// A markdown has a heading exactly where a line of it starts with `#`, but for
/// white space.
pub proof fn headings_start_with_a_hash(markdown: Seq<char>)
    ensures
        has_heading(markdown) <==> exists|k: int|
            0 <= k < lines_of(markdown).len() && begins_with(
                trimmed_start(#[trigger] lines_of(markdown)[k]),
                "#"@,
            ),
{
    first_heading_line_is_found(lines_of(markdown), 0);
}

proof fn first_heading_line_is_found(lines: Seq<Seq<char>>, i: int)
    requires
        0 <= i <= lines.len(),
    ensures
        first_heading_from(lines, i) is Some <==> exists|k: int|
            i <= k < lines.len() && begins_with(trimmed_start(#[trigger] lines[k]), "#"@),
    decreases lines.len() - i,
{
    if i < lines.len() {
        first_heading_line_is_found(lines, i + 1);
        if begins_with(trimmed_start(lines[i]), "#"@) {
            assert(first_heading_from(lines, i) == Some(i));
        } else if exists|k: int|
            i <= k < lines.len() && begins_with(trimmed_start(#[trigger] lines[k]), "#"@) {
            let k = choose|k: int|
                i <= k < lines.len() && begins_with(trimmed_start(#[trigger] lines[k]), "#"@);
            assert(k > i);
            assert(begins_with(trimmed_start(lines[k]), "#"@));
        }
    }
}

} // verus!
