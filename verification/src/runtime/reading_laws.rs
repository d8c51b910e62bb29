//! What is read out of the markdown of a plan: the comments of its files and the
//! children that a parent links.
use super::child_links::{
    child_link_paths, child_section, heading_from, is_next_section, is_section_heading,
    linked_path, linked_paths_from, section_end_from,
};
use super::comments::{
    blocks_from, comment_blocks, comments_from, draft_name, extracted_from, is_begin, is_end,
    CommentBlockModel, CommentBlockParseError, ExtractedCommentModel,
};
use crate::error::PlanErrorModel;
use crate::files::PlanFilesModel;
use crate::paths::{components, extension};
use crate::text::{
    begins_with, joined, lines_of, trimmed, trimmed_start, unique_stays_unique, with_unique,
    without_line_end,
};
use vstd::prelude::*;

verus! {

// ---------------------------------------------------------------------
// Comment blocks
// ---------------------------------------------------------------------
/// The line says, but for white space, that a comment begins.
pub open spec fn opens_comment(line: Seq<char>) -> bool {
    trimmed(without_line_end(line)) == "BEGIN_COMMENT"@
}

/// The line says, but for white space, that a comment ends.
pub open spec fn closes_comment(line: Seq<char>) -> bool {
    trimmed(without_line_end(line)) == "END_COMMENT"@
}

/// The line says neither.
pub open spec fn is_plain(line: Seq<char>) -> bool {
    !opens_comment(line) && !closes_comment(line)
}

/// No line from `from` up to `to` begins or ends a comment.
pub open spec fn are_plain(lines: Seq<Seq<char>>, from: int, to: int) -> bool {
    forall|j: int| from <= j < to ==> is_plain(#[trigger] lines[j])
}

/// A comment stands in lines `start` to `end`: it begins in the first, ends in the
/// last, and neither is said between them.
pub open spec fn is_comment_at(lines: Seq<Seq<char>>, start: int, end: int) -> bool {
    &&& 0 <= start < end < lines.len()
    &&& opens_comment(lines[start])
    &&& closes_comment(lines[end])
    &&& are_plain(lines, start + 1, end)
}

/// The block tells of the comment in lines `start` to `end`: their numbers,
/// counted from one, and the lines between them.
pub open spec fn is_block_of(
    block: CommentBlockModel,
    lines: Seq<Seq<char>>,
    start: int,
    end: int,
) -> bool {
    &&& block.start_line == start + 1
    &&& block.end_line == end + 1
    &&& block.text == joined(
        Seq::new((end - start - 1) as nat, |k: int| without_line_end(lines[start + 1 + k])),
        "\n"@,
    )
}

/// Block `k` tells of a comment among the first `n` lines, and no line from there
/// to the next block, or to the end, begins or ends a comment.
pub open spec fn is_placed(
    blocks: Seq<CommentBlockModel>,
    lines: Seq<Seq<char>>,
    n: int,
    k: int,
) -> bool {
    let block = blocks[k];
    let next = if k + 1 < blocks.len() {
        blocks[k + 1].start_line - 1
    } else {
        n
    };
    &&& is_comment_at(lines, block.start_line - 1, block.end_line - 1)
    &&& is_block_of(block, lines, block.start_line - 1, block.end_line - 1)
    &&& block.end_line <= next
    &&& are_plain(lines, block.end_line as int, next)
}

/// The blocks are those of the comments among the first `n` lines, one after the
/// other, and no other line there begins or ends a comment.
pub open spec fn are_blocks_of(
    blocks: Seq<CommentBlockModel>,
    lines: Seq<Seq<char>>,
    n: int,
) -> bool {
    &&& forall|k: int| 0 <= k < blocks.len() ==> #[trigger] is_placed(blocks, lines, n, k)
    &&& are_plain(
        lines,
        0,
        if blocks.len() > 0 {
            blocks[0].start_line - 1
        } else {
            n
        },
    )
}

/// The line that does not fit: a comment that begins in another, an end without a
/// beginning, or a comment that does not end.
pub open spec fn is_misfit(lines: Seq<Seq<char>>, error: CommentBlockParseError) -> bool {
    match error {
        CommentBlockParseError::NestedBegin { line, open_start_line } => {
            &&& 1 <= open_start_line < line <= lines.len()
            &&& opens_comment(lines[open_start_line - 1])
            &&& opens_comment(lines[line - 1])
            &&& are_plain(lines, open_start_line as int, line - 1)
        },
        CommentBlockParseError::OrphanEnd { line } => {
            &&& 1 <= line <= lines.len()
            &&& closes_comment(lines[line - 1])
            &&& are_plain(lines, 0, line - 1) || exists|j: int|
                0 <= j < line - 1 && closes_comment(#[trigger] lines[j]) && are_plain(
                    lines,
                    j + 1,
                    line - 1,
                )
        },
        CommentBlockParseError::UnclosedBegin { start_line } => {
            &&& 1 <= start_line <= lines.len()
            &&& opens_comment(lines[start_line - 1])
            &&& are_plain(lines, start_line as int, lines.len() as int)
        },
    }
}

proof fn markers_differ(line: Seq<char>)
    ensures
        !(opens_comment(line) && closes_comment(line)),
{
    reveal_strlit("BEGIN_COMMENT");
    reveal_strlit("END_COMMENT");
    assert("BEGIN_COMMENT"@.len() != "END_COMMENT"@.len());
}

proof fn one_block_more(
    lines: Seq<Seq<char>>,
    acc: Seq<CommentBlockModel>,
    start: int,
    end: int,
    block: CommentBlockModel,
)
    requires
        is_comment_at(lines, start, end),
        is_block_of(block, lines, start, end),
        are_blocks_of(acc, lines, start),
    ensures
        are_blocks_of(acc.push(block), lines, end + 1),
{
    let next = acc.push(block);
    assert forall|k: int| 0 <= k < next.len() implies #[trigger] is_placed(
        next,
        lines,
        end + 1,
        k,
    ) by {
        if k < acc.len() {
            assert(is_placed(acc, lines, start, k));
            assert(next[k] == acc[k]);
            if k + 1 < acc.len() {
                assert(next[k + 1] == acc[k + 1]);
            }
        }
    }
}

proof fn one_plain_line_more(lines: Seq<Seq<char>>, acc: Seq<CommentBlockModel>, n: int)
    requires
        0 <= n < lines.len(),
        is_plain(lines[n]),
        are_blocks_of(acc, lines, n),
    ensures
        are_blocks_of(acc, lines, n + 1),
{
    assert forall|k: int| 0 <= k < acc.len() implies #[trigger] is_placed(
        acc,
        lines,
        n + 1,
        k,
    ) by {
        assert(is_placed(acc, lines, n, k));
    }
}

proof fn ends_follow_ends(lines: Seq<Seq<char>>, acc: Seq<CommentBlockModel>, i: int)
    requires
        0 <= i < lines.len(),
        are_blocks_of(acc, lines, i),
    ensures
        are_plain(lines, 0, i) || exists|j: int|
            0 <= j < i && closes_comment(#[trigger] lines[j]) && are_plain(lines, j + 1, i),
{
    if acc.len() > 0 {
        let k = acc.len() - 1;
        assert(is_placed(acc, lines, i, k));
        let j = acc[k].end_line - 1;
        assert(closes_comment(lines[j]));
    }
}

proof fn blocks_are_read(
    lines: Seq<Seq<char>>,
    i: int,
    open: Option<int>,
    acc: Seq<CommentBlockModel>,
)
    requires
        0 <= i <= lines.len() <= usize::MAX,
        match open {
            Some(start) => 0 <= start < i && opens_comment(lines[start]) && are_plain(
                lines,
                start + 1,
                i,
            ) && are_blocks_of(acc, lines, start),
            None => are_blocks_of(acc, lines, i),
        },
    ensures
        match blocks_from(lines, i, open, acc) {
            Ok(blocks) => are_blocks_of(blocks, lines, lines.len() as int),
            Err(error) => is_misfit(lines, error),
        },
    decreases lines.len() - i,
{
    if i < lines.len() {
        let line = lines[i];
        markers_differ(line);
        assert(is_begin(line) == opens_comment(line));
        assert(is_end(line) == closes_comment(line));
        if is_begin(line) {
            if open is None {
                blocks_are_read(lines, i + 1, Some(i), acc);
            }
        } else if is_end(line) {
            match open {
                Some(start) => {
                    let block = super::comments::block_between(lines, start, i);
                    one_block_more(lines, acc, start, i, block);
                    blocks_are_read(lines, i + 1, None, acc.push(block));
                },
                None => {
                    ends_follow_ends(lines, acc, i);
                },
            }
        } else {
            assert(is_plain(lines[i]));
            if open is None {
                one_plain_line_more(lines, acc, i);
            }
            blocks_are_read(lines, i + 1, open, acc);
        }
    }
}

/// The comments of a text are those that its lines begin and end, in their order,
/// each with its lines; and a text is refused only for a line that does not fit.
pub proof fn comments_are_what_stands_between_markers(markdown: Seq<char>)
    requires
        lines_of(markdown).len() <= usize::MAX,
    ensures
        match comment_blocks(markdown) {
            Ok(blocks) => are_blocks_of(
                blocks,
                lines_of(markdown),
                lines_of(markdown).len() as int,
            ),
            Err(error) => is_misfit(lines_of(markdown), error),
        },
{
    blocks_are_read(lines_of(markdown), 0, None, Seq::empty());
}

// ---------------------------------------------------------------------
// The comments of a plan
// ---------------------------------------------------------------------
/// The comments of one file.
pub open spec fn comments_of(files: PlanFilesModel, path: Seq<char>) -> Seq<
    ExtractedCommentModel,
> {
    comment_blocks(files.read(path)->Ok_0)->Ok_0.map_values(
        |block: CommentBlockModel|
            ExtractedCommentModel {
                relative_path: path,
                start_line: block.start_line,
                end_line: block.end_line,
                text: block.text,
            },
    )
}

/// The file can be read, and its comments too.
pub open spec fn has_readable_comments(files: PlanFilesModel, path: Seq<char>) -> bool {
    files.read(path) matches Ok(markdown) && comment_blocks(markdown) is Ok
}

proof fn blocks_are_taken_out(
    path: Seq<char>,
    blocks: Seq<CommentBlockModel>,
    k: int,
    acc: Seq<ExtractedCommentModel>,
)
    requires
        0 <= k <= blocks.len(),
    ensures
        extracted_from(path, blocks, k, acc) == acc + blocks.skip(k).map_values(
            |block: CommentBlockModel|
                ExtractedCommentModel {
                    relative_path: path,
                    start_line: block.start_line,
                    end_line: block.end_line,
                    text: block.text,
                },
        ),
    decreases blocks.len() - k,
{
    let f = |block: CommentBlockModel|
        ExtractedCommentModel {
            relative_path: path,
            start_line: block.start_line,
            end_line: block.end_line,
            text: block.text,
        };
    if k < blocks.len() {
        let more = acc.push(f(blocks[k]));
        blocks_are_taken_out(path, blocks, k + 1, more);
        assert(more + blocks.skip(k + 1).map_values(f) =~= acc + blocks.skip(k).map_values(f));
    } else {
        assert(acc + blocks.skip(k).map_values(f) =~= acc);
    }
}

proof fn comments_are_gathered(
    files: PlanFilesModel,
    list: Seq<Seq<char>>,
    i: int,
    acc: Seq<ExtractedCommentModel>,
)
    requires
        0 <= i <= list.len(),
        forall|k: int| 0 <= k < i ==> has_readable_comments(files, #[trigger] list[k]),
        acc == list.take(i).map_values(|path: Seq<char>| comments_of(files, path)).flatten(),
    ensures
        match comments_from(files, list, i, acc) {
            Ok(comments) => {
                &&& forall|k: int|
                    0 <= k < list.len() ==> has_readable_comments(files, #[trigger] list[k])
                &&& comments == list.map_values(
                    |path: Seq<char>| comments_of(files, path),
                ).flatten()
            },
            Err(_) => exists|k: int|
                0 <= k < list.len() && !has_readable_comments(files, #[trigger] list[k]),
        },
    decreases list.len() - i,
{
    let f = |path: Seq<char>| comments_of(files, path);
    if i < list.len() {
        let path = list[i];
        if has_readable_comments(files, path) {
            let blocks = comment_blocks(files.read(path)->Ok_0)->Ok_0;
            blocks_are_taken_out(path, blocks, 0, acc);
            assert(blocks.skip(0) =~= blocks);
            let before = list.take(i).map_values(f);
            let after = list.take(i + 1).map_values(f);
            assert(after =~= before.push(comments_of(files, path)));
            before.lemma_flatten_push(comments_of(files, path));
            comments_are_gathered(
                files,
                list,
                i + 1,
                extracted_from(path, blocks, 0, acc),
            );
        } else {
            assert(!has_readable_comments(files, list[i]));
        }
    } else {
        assert(list.take(i) =~= list);
    }
}

/// The comments that are found in a list of files are those of its files, one file
/// after the other; it fails exactly where a file or its comments cannot be read.
pub proof fn comments_are_those_of_the_files(files: PlanFilesModel, list: Seq<Seq<char>>)
    ensures
        comments_from(files, list, 0, Seq::empty()) is Ok <==> forall|k: int|
            0 <= k < list.len() ==> has_readable_comments(files, #[trigger] list[k]),
        comments_from(files, list, 0, Seq::empty()) matches Ok(comments) ==> comments
            == list.map_values(|path: Seq<char>| comments_of(files, path)).flatten(),
{
    let f = |path: Seq<char>| comments_of(files, path);
    assert(list.take(0).map_values(f) =~= Seq::empty());
    assert(list.take(0).map_values(f).flatten() =~= Seq::empty());
    comments_are_gathered(files, list, 0, Seq::empty());
}

/// The files of a plan are its markdown files, but for its draft at the top.
pub proof fn plan_files_are_its_markdown_files(
    files: PlanFilesModel,
    list: Seq<Seq<char>>,
    plan_name: Seq<char>,
    key: Seq<char>,
)
    requires
        files.lists_markdown(list, draft_name(plan_name)),
    ensures
        list.contains(key) <==> {
            &&& files.contents.contains_key(key)
            &&& !(files.contents[key] is Directory)
            &&& extension(key) == Some("md"@)
            &&& key != plan_name + "_draft.md"@ || components(key).len() != 1
        },
{
}

// ---------------------------------------------------------------------
// The children that a parent links
// ---------------------------------------------------------------------
/// The line is the heading of the children.
pub open spec fn heads_children(line: Seq<char>) -> bool {
    trimmed(line) == "## Child Nodes"@
}

/// The line is the heading of another section.
pub open spec fn heads_other(line: Seq<char>) -> bool {
    begins_with(trimmed_start(line), "## "@) && trimmed(trimmed_start(line)) != "## Child Nodes"@
}

/// Line `j` stands in the section of the children: below the first heading of
/// them, with no heading of another section between the two.
pub open spec fn is_child_line(lines: Seq<Seq<char>>, j: int) -> bool {
    exists|h: int|
        0 <= h < j < lines.len() && heads_children(#[trigger] lines[h]) && (forall|k: int|
            0 <= k < h ==> !heads_children(#[trigger] lines[k])) && (forall|k: int|
            h < k <= j ==> !heads_other(#[trigger] lines[k]))
}

proof fn links_are_gathered(
    parent: Seq<char>,
    lines: Seq<Seq<char>>,
    i: int,
    end: int,
    acc: Seq<Seq<char>>,
)
    requires
        0 <= i <= end <= lines.len(),
        acc.no_duplicates(),
    ensures
        linked_paths_from(parent, lines, i, end, acc) matches Ok(paths) ==> {
            &&& paths.no_duplicates()
            &&& forall|j: int| i <= j < end ==> linked_path(parent, #[trigger] lines[j]) is Ok
            &&& forall|path: Seq<char>| #[trigger]
                paths.contains(path) <==> acc.contains(path) || exists|j: int|
                    i <= j < end && linked_path(parent, #[trigger] lines[j]) == Ok::<
                        _,
                        PlanErrorModel,
                    >(Some(path))
        },
        linked_paths_from(parent, lines, i, end, acc) is Err ==> exists|j: int|
            i <= j < end && linked_path(parent, #[trigger] lines[j]) is Err,
    decreases end - i,
{
    if i < end {
        match linked_path(parent, lines[i]) {
            Err(_) => {},
            Ok(None) => {
                links_are_gathered(parent, lines, i + 1, end, acc);
            },
            Ok(Some(found)) => {
                let next = with_unique(acc, found);
                unique_stays_unique(acc, found);
                links_are_gathered(parent, lines, i + 1, end, next);
                if let Ok(paths) = linked_paths_from(parent, lines, i, end, acc) {
                    assert forall|path: Seq<char>| #[trigger]
                        paths.contains(path) <==> acc.contains(path) || exists|j: int|
                        i <= j < end && linked_path(parent, #[trigger] lines[j]) == Ok::<
                            _,
                            PlanErrorModel,
                        >(Some(path)) by {
                        assert(next.contains(path) <==> acc.contains(path) || path == found) by {
                            if !acc.contains(found) {
                                assert(next[acc.len() as int] == found);
                                if acc.contains(path) {
                                    let k = choose|k: int| 0 <= k < acc.len() && acc[k] == path;
                                    assert(next[k] == path);
                                }
                                if next.contains(path) {
                                    let k = choose|k: int| 0 <= k < next.len() && next[k] == path;
                                    if k < acc.len() {
                                        assert(acc[k] == path);
                                    }
                                }
                            }
                        }
                    }
                }
            },
        }
    }
}

proof fn section_is_that_of_the_children(lines: Seq<Seq<char>>)
    ensures
        match child_section(lines) {
            Some((h, end)) => 0 <= h < end <= lines.len() && forall|j: int|
                #![trigger lines[j]]
                h + 1 <= j < end <==> is_child_line(lines, j),
            None => forall|j: int| !#[trigger] is_child_line(lines, j),
        },
{
    heading_is_found(lines, 0);
    match heading_from(lines, 0) {
        Some(h) => {
            end_is_found(lines, h + 1);
            let end = section_end_from(lines, h + 1);
            assert forall|j: int|
                #![trigger lines[j]]
                h + 1 <= j < end <==> is_child_line(lines, j) by {
                if h + 1 <= j < end {
                    assert(heads_children(lines[h]));
                    assert(is_child_line(lines, j));
                }
                if is_child_line(lines, j) {
                    let g = choose|g: int|
                        0 <= g < j < lines.len() && heads_children(#[trigger] lines[g]) && (forall|
                            k: int,
                        |
                            0 <= k < g ==> !heads_children(#[trigger] lines[k])) && (forall|k: int|
                            g < k <= j ==> !heads_other(#[trigger] lines[k]));
                    if g < h {
                        assert(!heads_children(lines[g]));
                    } else if h < g {
                        assert(!heads_children(lines[h]));
                    }
                    if end <= j {
                        assert(heads_other(lines[end]));
                    }
                }
            }
        },
        None => {
            assert forall|j: int| !#[trigger] is_child_line(lines, j) by {
                if is_child_line(lines, j) {
                    let g = choose|g: int|
                        0 <= g < j < lines.len() && heads_children(#[trigger] lines[g]) && (forall|
                            k: int,
                        |
                            0 <= k < g ==> !heads_children(#[trigger] lines[k])) && (forall|k: int|
                            g < k <= j ==> !heads_other(#[trigger] lines[k]));
                    assert(!heads_children(lines[g]));
                }
            }
        },
    }
}

proof fn heading_is_found(lines: Seq<Seq<char>>, i: int)
    requires
        0 <= i <= lines.len(),
    ensures
        match heading_from(lines, i) {
            Some(h) => i <= h < lines.len() && heads_children(lines[h]) && forall|k: int|
                i <= k < h ==> !heads_children(#[trigger] lines[k]),
            None => forall|k: int| i <= k < lines.len() ==> !heads_children(#[trigger] lines[k]),
        },
    decreases lines.len() - i,
{
    if i < lines.len() {
        assert(is_section_heading(lines[i]) == heads_children(lines[i]));
        if !is_section_heading(lines[i]) {
            heading_is_found(lines, i + 1);
        }
    }
}

proof fn end_is_found(lines: Seq<Seq<char>>, i: int)
    requires
        0 <= i <= lines.len(),
    ensures
        i <= section_end_from(lines, i) <= lines.len(),
        forall|k: int| i <= k < section_end_from(lines, i) ==> !heads_other(#[trigger] lines[k]),
        section_end_from(lines, i) < lines.len() ==> heads_other(
            lines[section_end_from(lines, i)],
        ),
    decreases lines.len() - i,
{
    if i < lines.len() {
        assert(is_next_section(lines[i]) == heads_other(lines[i]));
        if !is_next_section(lines[i]) {
            end_is_found(lines, i + 1);
        }
    }
}

/// The children that a parent links are those that a line of the section of its
/// children links, each once; it fails exactly where such a line links something
/// that is no path of the plan.
pub proof fn linked_children_stand_in_their_section(parent: Seq<char>, markdown: Seq<char>)
    ensures
        ({
            let lines = lines_of(markdown);
            &&& child_link_paths(parent, markdown) is Ok <==> forall|j: int|
                is_child_line(lines, j) ==> linked_path(parent, #[trigger] lines[j]) is Ok
            &&& child_link_paths(parent, markdown) matches Ok(paths) ==> {
                &&& paths.no_duplicates()
                &&& forall|path: Seq<char>| #[trigger]
                    paths.contains(path) <==> exists|j: int|
                        is_child_line(lines, j) && linked_path(parent, #[trigger] lines[j])
                            == Ok::<_, PlanErrorModel>(Some(path))
            }
        }),
{
    let lines = lines_of(markdown);
    section_is_that_of_the_children(lines);
    match child_section(lines) {
        Some((h, end)) => {
            links_are_gathered(parent, lines, h + 1, end, Seq::empty());
            if let Ok(paths) = child_link_paths(parent, markdown) {
                assert forall|path: Seq<char>| #[trigger]
                    paths.contains(path) <==> exists|j: int|
                    is_child_line(lines, j) && linked_path(parent, #[trigger] lines[j]) == Ok::<
                        _,
                        PlanErrorModel,
                    >(Some(path)) by {
                    assert(!Seq::<Seq<char>>::empty().contains(path));
                    if exists|j: int|
                        h + 1 <= j < end && linked_path(parent, #[trigger] lines[j]) == Ok::<
                            _,
                            PlanErrorModel,
                        >(Some(path)) {
                        let j = choose|j: int|
                            h + 1 <= j < end && linked_path(parent, #[trigger] lines[j]) == Ok::<
                                _,
                                PlanErrorModel,
                            >(Some(path));
                        assert(is_child_line(lines, j));
                    }
                }
            } else {
                let j = choose|j: int|
                    h + 1 <= j < end && linked_path(parent, #[trigger] lines[j]) is Err;
                assert(is_child_line(lines, j));
            }
        },
        None => {
            assert(child_link_paths(parent, markdown)->Ok_0 =~= Seq::<Seq<char>>::empty());
        },
    }
}

} // verus!
