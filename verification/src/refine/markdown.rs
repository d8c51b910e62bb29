//! Plan markdown: stale markers, titles, comment blocks and child links.
use super::rewrite_types::{RefineRewriteError, RefineRewriteErrorModel};
use crate::error::outcome;
use crate::paths::{
    component_names, components, file_stem, is_plan_markdown, names, path_components,
    path_file_stem, path_is_plan_markdown,
};
use crate::runtime::child_links::{
    canonical_child_path_from_url, child_section, child_url_target, find_child_section,
    link_of_line, parse_markdown_child_link,
};
use crate::runtime::comments::{
    file_comment_blocks, parse_comment_blocks_for_file, CommentBlock, CommentBlockModel,
    CommentDiscoveryError, CommentDiscoveryErrorModel,
};
use crate::text::{
    after_prefix, begins_with, chars_of, closes_with, concat2, concat3, concat5, concat_all,
    concat_range, ends_with, join, joined, lines_of, pieces_of, replace, replaced, same_text,
    slice_text, split_char, split_lines, split_words, starts_with, strip_line_end, strip_prefix,
    trim, trim_start, trimmed, trimmed_start, without_line_end, words_of,
};
use vstd::prelude::*;

verus! {

// ---------------------------------------------------------------------
// Stale markers
// ---------------------------------------------------------------------
/// The reason on one line, which does not end the comment that it stands in.
pub open spec fn normalized_reason(reason: Seq<char>) -> Seq<char> {
    replaced(joined(words_of(reason), " "@), "-->"@, "-- >"@)
}

/// The two lines that say that a node is stale.
pub open spec fn stale_marker(reason: Seq<char>) -> Seq<char> {
    "<!-- loopy-refine-status: stale -->\n<!-- loopy-refine-stale-reason: "@ + reason + " -->\n"@
}

/// The line is the first one of a marker.
pub open spec fn is_status_line(line: Seq<char>) -> bool {
    begins_with(trimmed(line), "<!-- loopy-refine-status:"@) && closes_with(trimmed(line), "-->"@)
}

/// The line is the second one of a marker.
pub open spec fn is_reason_line(line: Seq<char>) -> bool {
    begins_with(trimmed(line), "<!-- loopy-refine-stale-reason:"@) && closes_with(
        trimmed(line),
        "-->"@,
    )
}

/// The first line at or after `i` that begins no marker, past the markers that
/// stand there one after the other.
pub open spec fn after_markers(lines: Seq<Seq<char>>, i: int) -> int
    decreases lines.len() - i,
{
    if i >= lines.len() || !is_status_line(lines[i]) {
        i
    } else if i + 1 < lines.len() && is_reason_line(lines[i + 1]) {
        after_markers(lines, i + 2)
    } else {
        after_markers(lines, i + 1)
    }
}

/// The end of the lines from `start` to `at` without the markers that they end
/// with.
pub open spec fn before_markers(lines: Seq<Seq<char>>, start: int, at: int) -> int
    decreases at - start,
{
    if at > start && is_status_line(lines[at - 1]) {
        before_markers(lines, start, at - 1)
    } else if at > start + 1 && is_reason_line(lines[at - 1]) && is_status_line(lines[at - 2]) {
        before_markers(lines, start, at - 2)
    } else {
        at
    }
}

/// The line is a heading.
pub open spec fn is_heading(line: Seq<char>) -> bool {
    begins_with(trimmed_start(line), "#"@)
}

/// The first heading at or after line `i`.
pub open spec fn first_heading_from(lines: Seq<Seq<char>>, i: int) -> Option<int>
    decreases lines.len() - i,
{
    if i >= lines.len() {
        None
    } else if is_heading(lines[i]) {
        Some(i)
    } else {
        first_heading_from(lines, i + 1)
    }
}

/// The markdown holds a heading.
pub open spec fn has_heading(markdown: Seq<char>) -> bool {
    first_heading_from(lines_of(markdown), 0) is Some
}

/// Where a marker goes: before the first heading that follows the markers at
/// the start, or to the start.
pub open spec fn marker_place(lines: Seq<Seq<char>>) -> int {
    let start = after_markers(lines, 0);
    match first_heading_from(lines, start) {
        Some(line) => line,
        None => start,
    }
}

/// The lines before the place of the marker, without the markers that they
/// start and end with.
pub open spec fn lines_before_marker(lines: Seq<Seq<char>>) -> Seq<Seq<char>> {
    let start = after_markers(lines, 0);
    lines.subrange(start, before_markers(lines, start, marker_place(lines)))
}

/// The markdown with a stale marker before its first heading, or at its
/// start. The markers that stood there or at the start are gone; the rest is
/// as it was.
pub open spec fn marked_stale(markdown: Seq<char>, reason: Seq<char>) -> Seq<char> {
    let lines = lines_of(markdown);
    concat_all(lines_before_marker(lines)) + stale_marker(reason) + concat_all(
        lines.subrange(marker_place(lines), lines.len() as int),
    )
}

/// The reason on one line, which does not end the comment that it stands in.
pub fn normalize_stale_reason(reason: &str) -> (r: String)
    ensures
        r@ == normalized_reason(reason@),
{
    proof {
        reveal_strlit("-->");
    }
    let words: Vec<String> = split_words(reason);
    replace(join(&words, " ").as_str(), "-->", "-- >")
}

fn is_stale_status_marker_line(line: &str) -> (r: bool)
    ensures
        r == is_status_line(line@),
{
    let cut: String = trim(line);
    starts_with(cut.as_str(), "<!-- loopy-refine-status:") && ends_with(cut.as_str(), "-->")
}

fn is_stale_reason_marker_line(line: &str) -> (r: bool)
    ensures
        r == is_reason_line(line@),
{
    let cut: String = trim(line);
    starts_with(cut.as_str(), "<!-- loopy-refine-stale-reason:") && ends_with(cut.as_str(), "-->")
}

fn skip_markers(lines: &Vec<String>) -> (r: usize)
    ensures
        r == after_markers(lines.deep_view(), 0),
        r <= lines.len(),
{
    let ghost all = lines.deep_view();
    let mut i: usize = 0;
    while i < lines.len() && is_stale_status_marker_line(lines[i].as_str())
        invariant
            i <= lines.len(),
            all == lines.deep_view(),
            after_markers(all, 0) == after_markers(all, i as int),
        decreases lines.len() - i,
    {
        if i + 1 < lines.len() && is_stale_reason_marker_line(lines[i + 1].as_str()) {
            i = i + 2;
        } else {
            i = i + 1;
        }
    }
    i
}

fn cut_markers(lines: &Vec<String>, start: usize, at: usize) -> (r: usize)
    requires
        start <= at <= lines.len(),
    ensures
        r == before_markers(lines.deep_view(), start as int, at as int),
        start <= r <= at,
{
    let ghost all = lines.deep_view();
    let mut end: usize = at;
    while end > start
        invariant_except_break
            start <= end <= at <= lines.len(),
            all == lines.deep_view(),
            before_markers(all, start as int, at as int) == before_markers(
                all,
                start as int,
                end as int,
            ),
        ensures
            start <= end <= at,
            before_markers(all, start as int, at as int) == end,
        decreases end,
    {
        if is_stale_status_marker_line(lines[end - 1].as_str()) {
            end = end - 1;
        } else if end - start > 1 && is_stale_reason_marker_line(lines[end - 1].as_str())
            && is_stale_status_marker_line(lines[end - 2].as_str()) {
            end = end - 2;
        } else {
            break ;
        }
    }
    end
}

fn find_heading(lines: &Vec<String>, from: usize) -> (r: Option<usize>)
    requires
        from <= lines.len(),
    ensures
        match r {
            Some(k) => from <= k < lines.len() && first_heading_from(
                lines.deep_view(),
                from as int,
            ) == Some(k as int),
            None => first_heading_from(lines.deep_view(), from as int) is None,
        },
{
    let ghost all = lines.deep_view();
    let mut i: usize = from;
    while i < lines.len()
        invariant
            from <= i <= lines.len(),
            all == lines.deep_view(),
            first_heading_from(all, from as int) == first_heading_from(all, i as int),
        decreases lines.len() - i,
    {
        let start: String = trim_start(lines[i].as_str());
        if starts_with(start.as_str(), "#") {
            return Some(i);
        }
        i = i + 1;
    }
    None
}

/// Tells whether the markdown holds a heading.
pub fn contains_heading(markdown: &str) -> (r: bool)
    ensures
        r == has_heading(markdown@),
{
    find_heading(&split_lines(markdown), 0).is_some()
}

/// The markdown with a stale marker before its first heading, or at its
/// start, in place of the markers that stood there or at the start.
pub fn apply_stale_marker(markdown: &str, reason: &str) -> (r: String)
    ensures
        r@ == marked_stale(markdown@, reason@),
{
    let lines: Vec<String> = split_lines(markdown);
    let start: usize = skip_markers(&lines);
    let at: usize = match find_heading(&lines, start) {
        Some(line) => line,
        None => start,
    };
    let end: usize = cut_markers(&lines, start, at);
    let marker: String = concat3(
        "<!-- loopy-refine-status: stale -->\n<!-- loopy-refine-stale-reason: ",
        reason,
        " -->\n",
    );
    concat3(
        concat_range(&lines, start, end).as_str(),
        marker.as_str(),
        concat_range(&lines, at, lines.len()).as_str(),
    )
}

// ---------------------------------------------------------------------
// Titles
// ---------------------------------------------------------------------
/// What a character is in upper case.
pub uninterp spec fn char_uppercase(c: char) -> Seq<char>;

/// `char::to_uppercase`: the upper case of a character, one character or
/// several, by the Unicode tables. What those tables hold is left unsaid.
#[verifier::external_body]
fn to_uppercase(c: char) -> (r: String)
    ensures
        r@ == char_uppercase(c),
{
    c.to_uppercase().collect()
}

/// A character in upper case: `a` to `z` as `A` to `Z`, other ASCII characters
/// as they are.
pub open spec fn upper(c: char) -> Seq<char> {
    if 'a' <= c <= 'z' {
        seq![((c as u32 - 32) as u32) as char]
    } else if c <= '\u{7f}' {
        seq![c]
    } else {
        char_uppercase(c)
    }
}

/// The word with its first character in upper case.
pub open spec fn capitalized(word: Seq<char>) -> Seq<char> {
    if word.len() == 0 {
        word
    } else {
        upper(word[0]) + word.skip(1)
    }
}

/// The title that a file's name makes: its words, which stand between `-`,
/// each with its first character in upper case.
pub open spec fn title_from_name(path: Seq<char>) -> Seq<char> {
    let stem = match file_stem(path) {
        Some(stem) => stem,
        None => "refined-node"@,
    };
    joined(pieces_of(stem, '-').map_values(|word: Seq<char>| capitalized(word)), " "@)
}

fn capitalize(word: &str) -> (r: String)
    ensures
        r@ == capitalized(word@),
{
    let chars: Vec<char> = chars_of(word);
    if chars.len() == 0 {
        return word.to_owned();
    }
    let c: char = chars[0];
    let mut out: String = if 'a' <= c && c <= 'z' {
        let mut first: String = String::new();
        first.push(((c as u8) - 32) as char);
        assert(first@ =~= upper(c));
        first
    } else if c <= '\u{7f}' {
        let mut first: String = String::new();
        first.push(c);
        assert(first@ =~= upper(c));
        first
    } else {
        to_uppercase(c)
    };
    out.append(slice_text(&chars, 1, chars.len()).as_str());
    assert(chars@.subrange(1, chars.len() as int) =~= word@.skip(1));
    out
}

/// The title that a file's name makes.
pub fn title_from_path(path: &str) -> (r: String)
    ensures
        r@ == title_from_name(path@),
{
    let stem: String = match path_file_stem(path) {
        Some(stem) => stem,
        None => "refined-node".to_owned(),
    };
    let words: Vec<String> = split_char(stem.as_str(), '-');
    let ghost all = words.deep_view().map_values(|word: Seq<char>| capitalized(word));
    let mut out: Vec<String> = Vec::new();
    let mut i: usize = 0;
    assert(out.deep_view() =~= all.take(0));
    while i < words.len()
        invariant
            i <= words.len(),
            all == words.deep_view().map_values(|word: Seq<char>| capitalized(word)),
            out.deep_view() == all.take(i as int),
        decreases words.len() - i,
    {
        let ghost before = out.deep_view();
        let word: String = capitalize(words[i].as_str());
        out.push(word);
        assert(all[i as int] == word@);
        assert(out.deep_view() =~= before.push(word@));
        i = i + 1;
        assert(out.deep_view() =~= all.take(i as int));
    }
    assert(out.deep_view() =~= all);
    join(&out, " ")
}

/// The title on the first line at or after `i` that holds one.
pub open spec fn title_from(lines: Seq<Seq<char>>, i: int) -> Option<Seq<char>>
    decreases lines.len() - i,
{
    if i >= lines.len() {
        None
    } else {
        match after_prefix(trimmed_start(without_line_end(lines[i])), "# "@) {
            Some(title) => if trimmed(title).len() > 0 {
                Some(trimmed(title))
            } else {
                title_from(lines, i + 1)
            },
            None => title_from(lines, i + 1),
        }
    }
}

/// The title of a markdown, or the one that its name makes.
pub open spec fn title_of(markdown: Seq<char>, name: Seq<char>) -> Seq<char> {
    match title_from(lines_of(markdown), 0) {
        Some(title) => title,
        None => title_from_name(name),
    }
}

/// The title of a markdown, or the one that its name makes.
pub fn first_heading_title(markdown: &str, name: &str) -> (r: String)
    ensures
        r@ == title_of(markdown@, name@),
{
    let lines: Vec<String> = split_lines(markdown);
    let ghost all = lines.deep_view();
    let mut i: usize = 0;
    while i < lines.len()
        invariant
            i <= lines.len(),
            all == lines.deep_view(),
            all == lines_of(markdown@),
            title_from(all, 0) == title_from(all, i as int),
        decreases lines.len() - i,
    {
        let start: String = trim_start(strip_line_end(lines[i].as_str()).as_str());
        match strip_prefix(start.as_str(), "# ") {
            Some(title) => {
                let cut: String = trim(title.as_str());
                if cut.as_str().unicode_len() > 0 {
                    return cut;
                }
            },
            None => {},
        }
        i = i + 1;
    }
    title_from_path(name)
}

// ---------------------------------------------------------------------
// Comment blocks
// ---------------------------------------------------------------------
/// The first and the last line of a comment block that stays.
pub struct PreservedCommentBlock {
    pub start_line: usize,
    pub end_line: usize,
}

impl DeepView for PreservedCommentBlock {
    type V = (usize, usize);

    open spec fn deep_view(&self) -> (usize, usize) {
        (self.start_line, self.end_line)
    }
}

/// The line belongs to a block that does not stay.
pub open spec fn is_dropped(
    blocks: Seq<CommentBlockModel>,
    preserved: Seq<(usize, usize)>,
    line: int,
) -> bool {
    exists|k: int|
        0 <= k < blocks.len() && (#[trigger] blocks[k]).start_line <= line + 1 <= blocks[k].end_line
            && !preserved.contains((blocks[k].start_line, blocks[k].end_line))
}

/// The lines from `i` on that stay, after those in `acc`.
pub open spec fn kept_lines_from(
    lines: Seq<Seq<char>>,
    blocks: Seq<CommentBlockModel>,
    preserved: Seq<(usize, usize)>,
    i: int,
    acc: Seq<Seq<char>>,
) -> Seq<Seq<char>>
    decreases lines.len() - i,
{
    if i >= lines.len() {
        acc
    } else if is_dropped(blocks, preserved, i) {
        kept_lines_from(lines, blocks, preserved, i + 1, acc)
    } else {
        kept_lines_from(lines, blocks, preserved, i + 1, acc.push(lines[i]))
    }
}

/// The markdown without the comment blocks that do not stay: every other line
/// is kept as it is.
pub open spec fn without_comment_blocks(
    path: Seq<char>,
    markdown: Seq<char>,
    preserved: Seq<(usize, usize)>,
) -> Result<Seq<char>, RefineRewriteErrorModel> {
    match file_comment_blocks(path, markdown) {
        Err(error) => Err(
            RefineRewriteErrorModel::PostWriteStructureViolation {
                relative_path: error.path(),
                reason: error.text(),
            },
        ),
        Ok(blocks) => Ok(
            concat_all(
                kept_lines_from(lines_of(markdown), blocks, preserved, 0, Seq::empty()),
            ),
        ),
    }
}

impl CommentDiscoveryErrorModel {
    /// The path that the error is about.
    pub open spec fn path(self) -> Seq<char> {
        match self {
            CommentDiscoveryErrorModel::InvalidPlanRoot { plan_root } => plan_root,
            CommentDiscoveryErrorModel::Io { relative_path, source } => relative_path,
            CommentDiscoveryErrorModel::MalformedStructure { relative_path, line, kind, message } =>
                relative_path,
        }
    }
}

fn map_comment_error(error: CommentDiscoveryError) -> (r: RefineRewriteError)
    ensures
        r.deep_view() == (RefineRewriteErrorModel::PostWriteStructureViolation {
            relative_path: error.deep_view().path(),
            reason: error.deep_view().text(),
        }),
{
    let reason: String = error.message();
    let relative_path: String = match error {
        CommentDiscoveryError::InvalidPlanRoot { plan_root } => plan_root,
        CommentDiscoveryError::Io { relative_path, source: _ } => relative_path,
        CommentDiscoveryError::MalformedStructure { relative_path, line: _, kind: _, message: _ } =>
            relative_path,
    };
    RefineRewriteError::PostWriteStructureViolation { relative_path, reason }
}

fn block_is_preserved(block: &CommentBlock, preserved: &Vec<PreservedCommentBlock>) -> (r: bool)
    ensures
        r == preserved.deep_view().contains((block.start_line, block.end_line)),
{
    let ghost all = preserved.deep_view();
    let mut i: usize = 0;
    while i < preserved.len()
        invariant
            i <= preserved.len(),
            all == preserved.deep_view(),
            forall|k: int| 0 <= k < i ==> all[k] != (block.start_line, block.end_line),
        decreases preserved.len() - i,
    {
        if preserved[i].start_line == block.start_line && preserved[i].end_line == block.end_line {
            assert(all[i as int] == (block.start_line, block.end_line));
            return true;
        }
        i = i + 1;
    }
    false
}

fn line_is_dropped(
    blocks: &Vec<CommentBlock>,
    preserved: &Vec<PreservedCommentBlock>,
    line: usize,
) -> (r: bool)
    requires
        line < usize::MAX,
    ensures
        r == is_dropped(blocks.deep_view(), preserved.deep_view(), line as int),
{
    let ghost all = blocks.deep_view();
    let mut i: usize = 0;
    while i < blocks.len()
        invariant
            i <= blocks.len(),
            line < usize::MAX,
            all == blocks.deep_view(),
            forall|k: int|
                0 <= k < i ==> !((#[trigger] all[k]).start_line <= line + 1 <= all[k].end_line
                    && !preserved.deep_view().contains((all[k].start_line, all[k].end_line))),
        decreases blocks.len() - i,
    {
        let block: &CommentBlock = &blocks[i];
        assert(all[i as int] == block.deep_view());
        if block.start_line <= line + 1 && line + 1 <= block.end_line && !block_is_preserved(
            block,
            preserved,
        ) {
            return true;
        }
        i = i + 1;
    }
    false
}

/// The markdown without the comment blocks that do not stay.
pub fn remove_comment_blocks(
    path: &str,
    markdown: &str,
    preserved: &Vec<PreservedCommentBlock>,
) -> (r: Result<String, RefineRewriteError>)
    ensures
        outcome(r) == without_comment_blocks(path@, markdown@, preserved.deep_view()),
{
    let blocks: Vec<CommentBlock> = match parse_comment_blocks_for_file(path, markdown) {
        Ok(blocks) => blocks,
        Err(error) => {
            return Err(map_comment_error(error));
        },
    };
    let lines: Vec<String> = split_lines(markdown);
    let ghost all = lines.deep_view();
    let ghost found = blocks.deep_view();
    let ghost stay = preserved.deep_view();
    let mut kept: Vec<String> = Vec::new();
    let mut i: usize = 0;
    assert(kept.deep_view() =~= Seq::empty());
    while i < lines.len()
        invariant
            i <= lines.len(),
            all == lines.deep_view(),
            found == blocks.deep_view(),
            stay == preserved.deep_view(),
            kept_lines_from(all, found, stay, 0, Seq::empty()) == kept_lines_from(
                all,
                found,
                stay,
                i as int,
                kept.deep_view(),
            ),
        decreases lines.len() - i,
    {
        if !line_is_dropped(&blocks, preserved, i) {
            let ghost before = kept.deep_view();
            kept.push(lines[i].clone());
            assert(kept.deep_view() =~= before.push(lines@[i as int]@));
        }
        i = i + 1;
    }
    let out: String = concat_range(&kept, 0, kept.len());
    assert(kept.deep_view().subrange(0, kept.len() as int) =~= kept.deep_view());
    Ok(out)
}

// ---------------------------------------------------------------------
// Child links
// ---------------------------------------------------------------------
/// A line of the `## Child Nodes` section that links a child.
#[derive(Debug, PartialEq, Eq)]
pub struct ChildLinkRow {
    pub canonical_path: String,
    pub rendered_line: String,
}

/// The meaning of a [`ChildLinkRow`].
pub struct ChildLinkRowModel {
    pub canonical_path: Seq<char>,
    pub rendered_line: Seq<char>,
}

impl DeepView for ChildLinkRow {
    type V = ChildLinkRowModel;

    open spec fn deep_view(&self) -> ChildLinkRowModel {
        ChildLinkRowModel {
            canonical_path: self.canonical_path@,
            rendered_line: self.rendered_line@,
        }
    }
}

/// A link as a list item.
pub open spec fn rendered_link(label: Seq<char>, url: Seq<char>) -> Seq<char> {
    "- ["@ + label + "]("@ + url + ")"@
}

/// The child that a line links: none where it is no link into the plan.
pub open spec fn link_row(parent: Seq<char>, line: Seq<char>) -> Result<
    Option<ChildLinkRowModel>,
    RefineRewriteErrorModel,
> {
    match link_of_line(without_line_end(line)) {
        None => Ok(None),
        Some((label, url)) => match child_url_target(parent, url) {
            Err(_) => Err(RefineRewriteErrorModel::InvalidRewriteScope),
            Ok(None) => Ok(None),
            Ok(Some(path)) => if is_plan_markdown(path) {
                Ok(
                    Some(
                        ChildLinkRowModel {
                            canonical_path: path,
                            rendered_line: rendered_link(label, url),
                        },
                    ),
                )
            } else {
                Err(RefineRewriteErrorModel::InvalidRewriteScope)
            },
        },
    }
}

/// The children that the lines from `i` up to `end` link, after those in
/// `acc`.
pub open spec fn link_rows_from(
    parent: Seq<char>,
    lines: Seq<Seq<char>>,
    i: int,
    end: int,
    acc: Seq<ChildLinkRowModel>,
) -> Result<Seq<ChildLinkRowModel>, RefineRewriteErrorModel>
    decreases end - i,
{
    if i >= end {
        Ok(acc)
    } else {
        match link_row(parent, lines[i]) {
            Err(error) => Err(error),
            Ok(None) => link_rows_from(parent, lines, i + 1, end, acc),
            Ok(Some(row)) => link_rows_from(parent, lines, i + 1, end, acc.push(row)),
        }
    }
}

/// The children that the markdown of a parent links.
pub open spec fn link_rows(parent: Seq<char>, markdown: Seq<char>) -> Result<
    Seq<ChildLinkRowModel>,
    RefineRewriteErrorModel,
> {
    let lines = lines_of(markdown);
    match child_section(lines) {
        Some((heading, end)) => link_rows_from(parent, lines, heading + 1, end, Seq::empty()),
        None => Ok(Seq::empty()),
    }
}

fn parse_link_row(parent: &str, line: &str) -> (r: Result<Option<ChildLinkRow>, RefineRewriteError>)
    ensures
        outcome(r) == link_row(parent@, line@),
{
    match parse_markdown_child_link(strip_line_end(line).as_str()) {
        None => Ok(None),
        Some((label, url)) => match canonical_child_path_from_url(parent, url.as_str()) {
            Err(_) => Err(RefineRewriteError::InvalidRewriteScope),
            Ok(None) => Ok(None),
            Ok(Some(path)) => {
                if path_is_plan_markdown(path.as_str()) {
                    Ok(
                        Some(
                            ChildLinkRow {
                                canonical_path: path,
                                rendered_line: concat5(
                                    "- [",
                                    label.as_str(),
                                    "](",
                                    url.as_str(),
                                    ")",
                                ),
                            },
                        ),
                    )
                } else {
                    Err(RefineRewriteError::InvalidRewriteScope)
                }
            },
        },
    }
}

/// The children that the markdown of a parent links.
pub fn parse_existing_child_links(parent: &str, markdown: &str) -> (r: Result<
    Vec<ChildLinkRow>,
    RefineRewriteError,
>)
    ensures
        outcome(r) == link_rows(parent@, markdown@),
{
    let lines: Vec<String> = split_lines(markdown);
    let ghost all = lines.deep_view();
    let mut rows: Vec<ChildLinkRow> = Vec::new();
    assert(rows.deep_view() =~= Seq::empty());
    let (heading, end): (usize, usize) = match find_child_section(&lines) {
        Some(section) => section,
        None => {
            return Ok(rows);
        },
    };
    let mut i: usize = heading + 1;
    while i < end
        invariant
            i <= end <= lines.len(),
            all == lines.deep_view(),
            link_rows(parent@, markdown@) == link_rows_from(
                parent@,
                all,
                i as int,
                end as int,
                rows.deep_view(),
            ),
        decreases end - i,
    {
        match parse_link_row(parent, lines[i].as_str())? {
            Some(row) => {
                let ghost before = rows.deep_view();
                let ghost model = row.deep_view();
                rows.push(row);
                assert(rows.deep_view() =~= before.push(model));
            },
            None => {},
        }
        i = i + 1;
    }
    Ok(rows)
}

/// The texts, each with a line feed, from the first `n`.
pub open spec fn text_lines(rows: Seq<Seq<char>>, n: int) -> Seq<char>
    decreases n,
{
    if n <= 0 {
        Seq::empty()
    } else {
        text_lines(rows, n - 1) + rows[n - 1] + "\n"@
    }
}

/// The `## Child Nodes` section with these list items.
pub open spec fn rendered_section(rows: Seq<Seq<char>>) -> Seq<char> {
    "## Child Nodes\n\n"@ + text_lines(rows, rows.len() as int)
}

/// The markdown with its `## Child Nodes` section replaced, or with one at its
/// end.
pub open spec fn with_child_section(markdown: Seq<char>, rows: Seq<Seq<char>>) -> Seq<char> {
    let lines = lines_of(markdown);
    match child_section(lines) {
        Some((heading, end)) => concat_all(lines.subrange(0, heading)) + rendered_section(rows)
            + concat_all(lines.subrange(end, lines.len() as int)),
        None => if closes_with(markdown, "\n"@) {
            markdown + "\n"@ + rendered_section(rows)
        } else {
            markdown + "\n"@ + "\n"@ + rendered_section(rows)
        },
    }
}

fn render_child_nodes_section(rows: &Vec<String>) -> (r: String)
    ensures
        r@ == rendered_section(rows.deep_view()),
{
    let ghost all = rows.deep_view();
    let mut items: String = String::new();
    let mut n: usize = 0;
    assert(items@ =~= Seq::empty());
    while n < rows.len()
        invariant
            n <= rows.len(),
            all == rows.deep_view(),
            items@ == text_lines(all, n as int),
        decreases rows.len() - n,
    {
        items.append(rows[n].as_str());
        items.append("\n");
        n = n + 1;
    }
    concat2("## Child Nodes\n\n", items.as_str())
}

/// The markdown with its `## Child Nodes` section replaced, or with one at its
/// end.
pub fn rewrite_child_nodes_section(markdown: &str, rows: &Vec<String>) -> (r: String)
    ensures
        r@ == with_child_section(markdown@, rows.deep_view()),
{
    let section: String = render_child_nodes_section(rows);
    let lines: Vec<String> = split_lines(markdown);
    match find_child_section(&lines) {
        Some((heading, end)) => concat3(
            concat_range(&lines, 0, heading).as_str(),
            section.as_str(),
            concat_range(&lines, end, lines.len()).as_str(),
        ),
        None => {
            if ends_with(markdown, "\n") {
                concat3(markdown, "\n", section.as_str())
            } else {
                let start: String = concat3(markdown, "\n", "\n");
                concat2(start.as_str(), section.as_str())
            }
        },
    }
}

/// The number of names at the start that two lists share, from `i` on.
pub open spec fn shared_from(a: Seq<Seq<char>>, b: Seq<Seq<char>>, i: int) -> int
    decreases a.len() - i,
{
    if i < a.len() && i < b.len() && a[i] == b[i] {
        shared_from(a, b, i + 1)
    } else {
        i
    }
}

/// The steps from a directory to a file: up, then down.
pub open spec fn relative_steps(directory: Seq<Seq<char>>, file: Seq<Seq<char>>) -> Seq<Seq<char>> {
    let shared = shared_from(directory, file, 0);
    Seq::new((directory.len() - shared) as nat, |i: int| ".."@) + file.skip(shared)
}

/// The target of a link from a parent's markdown to a child's.
pub open spec fn relative_url(parent: Seq<char>, child: Seq<char>) -> Seq<char> {
    let directory = names(components(parent).drop_last());
    let relative = joined(relative_steps(directory, names(components(child))), "/"@);
    if begins_with(relative, ".."@) {
        relative
    } else {
        "./"@ + relative
    }
}

/// The target of a link from a parent's markdown to a child's.
pub fn relative_url_from_parent_to_child(parent: &str, child: &str) -> (r: Result<
    String,
    RefineRewriteError,
>)
    ensures
        outcome(r) == (if is_plan_markdown(parent@) && is_plan_markdown(child@) {
            Ok(relative_url(parent@, child@))
        } else {
            Err(RefineRewriteErrorModel::InvalidRewriteScope)
        }),
{
    if !path_is_plan_markdown(parent) || !path_is_plan_markdown(child) {
        return Err(RefineRewriteError::InvalidRewriteScope);
    }
    let mut directory: Vec<String> = component_names(&path_components(parent));
    let ghost parts_before = directory@;
    let ghost parent_names = directory.deep_view();
    assert(components(parent@).len() > 0);
    assert(parent_names.len() == components(parent@).len());
    let _ = directory.pop();
    assert(directory@ =~= parts_before.drop_last());
    let file: Vec<String> = component_names(&path_components(child));
    let ghost from = directory.deep_view();
    let ghost to = file.deep_view();
    proof {
        let expected = names(components(parent@).drop_last());
        assert forall|i: int| 0 <= i < from.len() implies from[i] == expected[i] by {
            assert(from[i] == parent_names[i]);
            assert(components(parent@).drop_last()[i] == components(parent@)[i]);
        }
        assert(from =~= expected);
    }
    let mut shared: usize = 0;
    while shared < directory.len() && shared < file.len() && same_text(
        directory[shared].as_str(),
        file[shared].as_str(),
    )
        invariant
            shared <= directory.len(),
            shared <= file.len(),
            from == directory.deep_view(),
            to == file.deep_view(),
            shared_from(from, to, 0) == shared_from(from, to, shared as int),
        decreases directory.len() - shared,
    {
        shared = shared + 1;
    }
    let mut parts: Vec<String> = Vec::new();
    let mut i: usize = shared;
    let ghost up = Seq::new((from.len() - shared) as nat, |i: int| ".."@);
    assert(parts.deep_view() =~= up.take(0));
    while i < directory.len()
        invariant
            shared <= i <= directory.len(),
            from.len() == directory.len(),
            up == Seq::new((from.len() - shared) as nat, |i: int| ".."@),
            parts.deep_view() == up.take(i - shared),
        decreases directory.len() - i,
    {
        let ghost before = parts.deep_view();
        parts.push("..".to_owned());
        assert(parts.deep_view() =~= before.push(".."@));
        i = i + 1;
        assert(parts.deep_view() =~= up.take(i - shared));
    }
    assert(parts.deep_view() =~= up);
    let mut k: usize = shared;
    assert(parts.deep_view() =~= up + to.skip(shared as int).take(0));
    while k < file.len()
        invariant
            shared <= k <= file.len(),
            to == file.deep_view(),
            parts.deep_view() == up + to.skip(shared as int).take(k - shared),
        decreases file.len() - k,
    {
        let ghost before = parts.deep_view();
        parts.push(file[k].clone());
        assert(parts.deep_view() =~= before.push(file@[k as int]@));
        k = k + 1;
        assert(parts.deep_view() =~= up + to.skip(shared as int).take(k - shared));
    }
    assert(parts.deep_view() =~= relative_steps(from, to));
    let relative: String = join(&parts, "/");
    if starts_with(relative.as_str(), "..") {
        Ok(relative)
    } else {
        Ok(concat2("./", relative.as_str()))
    }
}

} // verus!
