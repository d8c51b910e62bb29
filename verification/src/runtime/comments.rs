//! Comments in plan markdown: the blocks between a line `BEGIN_COMMENT` and a
//! line `END_COMMENT`.
use crate::error::{failure, outcome, PlanError, PlanErrorModel};
use crate::files::{missing_file_text, PlanFiles, PlanFilesModel, PlanRootKind};
use crate::text::{
    concat2, concat3, concat5, concat7, decimal, join, joined, lines_of, number_text, same_text,
    split_lines, strip_line_end, trim, trimmed, without_line_end,
};
use vstd::prelude::*;

verus! {

/// A comment block: its first and last line, counted from one, and what stands between them.
#[derive(Debug, PartialEq, Eq)]
pub struct CommentBlock {
    pub start_line: usize,
    pub end_line: usize,
    pub text: String,
}

/// The meaning of a [`CommentBlock`].
pub struct CommentBlockModel {
    pub start_line: usize,
    pub end_line: usize,
    pub text: Seq<char>,
}

impl DeepView for CommentBlock {
    type V = CommentBlockModel;

    open spec fn deep_view(&self) -> CommentBlockModel {
        CommentBlockModel {
            start_line: self.start_line,
            end_line: self.end_line,
            text: self.text@,
        }
    }
}

impl Clone for CommentBlock {
    fn clone(&self) -> (r: Self)
        ensures
            r.deep_view() == self.deep_view(),
    {
        CommentBlock {
            start_line: self.start_line,
            end_line: self.end_line,
            text: self.text.clone(),
        }
    }
}

/// Why the markers of a text do not pair up.
#[derive(Debug, Clone, Copy, PartialEq, Eq, Structural)]
pub enum CommentBlockParseError {
    NestedBegin { line: usize, open_start_line: usize },
    OrphanEnd { line: usize },
    UnclosedBegin { start_line: usize },
}

impl DeepView for CommentBlockParseError {
    type V = CommentBlockParseError;

    open spec fn deep_view(&self) -> CommentBlockParseError {
        *self
    }
}

/// Why the comments of a plan cannot be collected.
#[derive(Debug, PartialEq, Eq)]
pub enum CommentDiscoveryError {
    InvalidPlanRoot { plan_root: String },
    Io { relative_path: String, source: String },
    MalformedStructure { relative_path: String, line: usize, kind: String, message: String },
}

/// The meaning of a [`CommentDiscoveryError`].
pub enum CommentDiscoveryErrorModel {
    InvalidPlanRoot { plan_root: Seq<char> },
    Io { relative_path: Seq<char>, source: Seq<char> },
    MalformedStructure { relative_path: Seq<char>, line: usize, kind: Seq<char>, message: Seq<char> },
}

impl DeepView for CommentDiscoveryError {
    type V = CommentDiscoveryErrorModel;

    open spec fn deep_view(&self) -> CommentDiscoveryErrorModel {
        match self {
            CommentDiscoveryError::InvalidPlanRoot { plan_root } => CommentDiscoveryErrorModel::InvalidPlanRoot {
                plan_root: plan_root@,
            },
            CommentDiscoveryError::Io { relative_path, source } => CommentDiscoveryErrorModel::Io {
                relative_path: relative_path@,
                source: source@,
            },
            CommentDiscoveryError::MalformedStructure { relative_path, line, kind, message } => CommentDiscoveryErrorModel::MalformedStructure {
                relative_path: relative_path@,
                line: *line,
                kind: kind@,
                message: message@,
            },
        }
    }
}

impl Clone for CommentDiscoveryError {
    fn clone(&self) -> (r: Self)
        ensures
            r.deep_view() == self.deep_view(),
    {
        match self {
            CommentDiscoveryError::InvalidPlanRoot { plan_root } => CommentDiscoveryError::InvalidPlanRoot {
                plan_root: plan_root.clone(),
            },
            CommentDiscoveryError::Io { relative_path, source } => CommentDiscoveryError::Io {
                relative_path: relative_path.clone(),
                source: source.clone(),
            },
            CommentDiscoveryError::MalformedStructure { relative_path, line, kind, message } => CommentDiscoveryError::MalformedStructure {
                relative_path: relative_path.clone(),
                line: *line,
                kind: kind.clone(),
                message: message.clone(),
            },
        }
    }
}

/// A comment block and the file that it stands in.
#[derive(Debug, PartialEq, Eq)]
pub struct ExtractedComment {
    pub relative_path: String,
    pub start_line: usize,
    pub end_line: usize,
    pub text: String,
}

/// The meaning of a [`ExtractedComment`].
pub struct ExtractedCommentModel {
    pub relative_path: Seq<char>,
    pub start_line: usize,
    pub end_line: usize,
    pub text: Seq<char>,
}

impl DeepView for ExtractedComment {
    type V = ExtractedCommentModel;

    open spec fn deep_view(&self) -> ExtractedCommentModel {
        ExtractedCommentModel {
            relative_path: self.relative_path@,
            start_line: self.start_line,
            end_line: self.end_line,
            text: self.text@,
        }
    }
}

impl Clone for ExtractedComment {
    fn clone(&self) -> (r: Self)
        ensures
            r.deep_view() == self.deep_view(),
    {
        ExtractedComment {
            relative_path: self.relative_path.clone(),
            start_line: self.start_line,
            end_line: self.end_line,
            text: self.text.clone(),
        }
    }
}

/// The line opens a block.
pub open spec fn is_begin(line: Seq<char>) -> bool {
    trimmed(without_line_end(line)) == "BEGIN_COMMENT"@
}

/// The line closes a block.
pub open spec fn is_end(line: Seq<char>) -> bool {
    trimmed(without_line_end(line)) == "END_COMMENT"@
}

/// The block that the lines after `start` up to `end` make.
pub open spec fn block_between(lines: Seq<Seq<char>>, start: int, end: int) -> CommentBlockModel {
    CommentBlockModel {
        start_line: (start + 1) as usize,
        end_line: (end + 1) as usize,
        text: joined(
            Seq::new((end - start - 1) as nat, |k: int| without_line_end(lines[start + 1 + k])),
            "\n"@,
        ),
    }
}

/// The blocks of the lines from `i` on, after those in `acc`, where `open` is
/// the line that opened a block that is not closed yet.
pub open spec fn blocks_from(
    lines: Seq<Seq<char>>,
    i: int,
    open: Option<int>,
    acc: Seq<CommentBlockModel>,
) -> Result<Seq<CommentBlockModel>, CommentBlockParseError>
    decreases lines.len() - i,
{
    if i >= lines.len() {
        match open {
            Some(start) => Err(
                CommentBlockParseError::UnclosedBegin { start_line: (start + 1) as usize },
            ),
            None => Ok(acc),
        }
    } else if is_begin(lines[i]) {
        match open {
            Some(start) => Err(
                CommentBlockParseError::NestedBegin {
                    line: (i + 1) as usize,
                    open_start_line: (start + 1) as usize,
                },
            ),
            None => blocks_from(lines, i + 1, Some(i), acc),
        }
    } else if is_end(lines[i]) {
        match open {
            Some(start) => blocks_from(
                lines,
                i + 1,
                None,
                acc.push(block_between(lines, start, i)),
            ),
            None => Err(CommentBlockParseError::OrphanEnd { line: (i + 1) as usize }),
        }
    } else {
        blocks_from(lines, i + 1, open, acc)
    }
}

/// The comment blocks of a text.
pub open spec fn comment_blocks(markdown: Seq<char>) -> Result<
    Seq<CommentBlockModel>,
    CommentBlockParseError,
> {
    blocks_from(lines_of(markdown), 0, None, Seq::empty())
}

/// The block stands in its place: from a `BEGIN_COMMENT` line to the next
/// `END_COMMENT` line, with no marker between them.
pub open spec fn block_is_delimited(lines: Seq<Seq<char>>, block: CommentBlockModel) -> bool {
    &&& 1 <= block.start_line < block.end_line <= lines.len()
    &&& is_begin(lines[block.start_line - 1])
    &&& is_end(lines[block.end_line - 1])
    &&& forall|j: int|
        block.start_line <= j < block.end_line - 1 ==> !is_begin(#[trigger] lines[j]) && !is_end(
            lines[j],
        )
    &&& block == block_between(lines, block.start_line - 1, block.end_line - 1)
}

/// The blocks stand in their places, one after the other.
pub open spec fn blocks_are_delimited(lines: Seq<Seq<char>>, blocks: Seq<CommentBlockModel>) -> bool {
    &&& forall|k: int| 0 <= k < blocks.len() ==> block_is_delimited(lines, #[trigger] blocks[k])
    &&& forall|a: int, b: int|
        0 <= a < b < blocks.len() ==> (#[trigger] blocks[a]).end_line < (
        #[trigger] blocks[b]).start_line
}

/// Each marker line before `n` belongs to a block.
pub open spec fn markers_are_covered(
    lines: Seq<Seq<char>>,
    blocks: Seq<CommentBlockModel>,
    open: Option<int>,
    n: int,
) -> bool {
    forall|j: int|
        0 <= j < n && (is_begin(#[trigger] lines[j]) || is_end(lines[j])) ==> open == Some(j)
            || exists|k: int|
            0 <= k < blocks.len() && ((#[trigger] blocks[k]).start_line == j + 1
                || blocks[k].end_line == j + 1)
}

proof fn blocks_from_are_delimited(
    lines: Seq<Seq<char>>,
    i: int,
    open: Option<int>,
    acc: Seq<CommentBlockModel>,
)
    requires
        0 <= i <= lines.len() <= usize::MAX,
        blocks_are_delimited(lines, acc),
        forall|k: int| 0 <= k < acc.len() ==> (#[trigger] acc[k]).end_line <= i,
        open matches Some(start) ==> {
            &&& 0 <= start < i
            &&& is_begin(lines[start])
            &&& forall|j: int|
                start < j < i ==> !is_begin(#[trigger] lines[j]) && !is_end(lines[j])
            &&& forall|k: int| 0 <= k < acc.len() ==> (#[trigger] acc[k]).end_line <= start
        },
    ensures
        blocks_from(lines, i, open, acc) matches Ok(blocks) ==> blocks_are_delimited(lines, blocks),
    decreases lines.len() - i,
{
    if i < lines.len() {
        if is_begin(lines[i]) {
            if open is None {
                blocks_from_are_delimited(lines, i + 1, Some(i), acc);
            }
        } else if is_end(lines[i]) {
            if let Some(start) = open {
                let block = block_between(lines, start, i);
                let next = acc.push(block);
                assert(block_is_delimited(lines, block));
                assert forall|k: int| 0 <= k < next.len() implies block_is_delimited(
                    lines,
                    #[trigger] next[k],
                ) by {
                    if k < acc.len() {
                        assert(next[k] == acc[k]);
                    }
                }
                assert forall|a: int, b: int| 0 <= a < b < next.len() implies (
                #[trigger] next[a]).end_line < (#[trigger] next[b]).start_line by {
                    assert(next[a] == acc[a]);
                    if b < acc.len() {
                        assert(next[b] == acc[b]);
                    }
                }
                assert forall|k: int| 0 <= k < next.len() implies (#[trigger] next[k]).end_line
                    <= i + 1 by {
                    if k < acc.len() {
                        assert(next[k] == acc[k]);
                    }
                }
                blocks_from_are_delimited(lines, i + 1, None, next);
            }
        } else {
            blocks_from_are_delimited(lines, i + 1, open, acc);
        }
    }
}

proof fn blocks_from_cover_markers(
    lines: Seq<Seq<char>>,
    i: int,
    open: Option<int>,
    acc: Seq<CommentBlockModel>,
)
    requires
        0 <= i <= lines.len() <= usize::MAX,
        markers_are_covered(lines, acc, open, i),
        open matches Some(start) ==> 0 <= start < i,
    ensures
        blocks_from(lines, i, open, acc) matches Ok(blocks) ==> markers_are_covered(
            lines,
            blocks,
            None,
            lines.len() as int,
        ),
    decreases lines.len() - i,
{
    if i < lines.len() {
        if is_begin(lines[i]) {
            if open is None {
                blocks_from_cover_markers(lines, i + 1, Some(i), acc);
            }
        } else if is_end(lines[i]) {
            if let Some(start) = open {
                let next = acc.push(block_between(lines, start, i));
                let last = next[acc.len() as int];
                assert(last.start_line == start + 1 && last.end_line == i + 1);
                assert forall|j: int|
                    0 <= j < i + 1 && (is_begin(#[trigger] lines[j]) || is_end(
                        lines[j],
                    )) implies exists|k: int|
                    0 <= k < next.len() && ((#[trigger] next[k]).start_line == j + 1
                        || next[k].end_line == j + 1) by {
                    if j == i || j == start {
                        assert(next[acc.len() as int] == last);
                    } else {
                        let k = choose|k: int|
                            0 <= k < acc.len() && ((#[trigger] acc[k]).start_line == j + 1
                                || acc[k].end_line == j + 1);
                        assert(next[k] == acc[k]);
                    }
                }
                blocks_from_cover_markers(lines, i + 1, None, next);
            }
        } else {
            blocks_from_cover_markers(lines, i + 1, open, acc);
        }
    }
}

/// The blocks of a text stand where its markers stand, in order and apart
/// from each other, and every marker belongs to one of them.
pub proof fn comment_blocks_match_markers(markdown: Seq<char>)
    requires
        lines_of(markdown).len() <= usize::MAX,
    ensures
        comment_blocks(markdown) matches Ok(blocks) ==> blocks_are_delimited(
            lines_of(markdown),
            blocks,
        ) && markers_are_covered(
            lines_of(markdown),
            blocks,
            None,
            lines_of(markdown).len() as int,
        ),
{
    blocks_from_are_delimited(lines_of(markdown), 0, None, Seq::empty());
    blocks_from_cover_markers(lines_of(markdown), 0, None, Seq::empty());
}

impl CommentBlockParseError {
    /// The line of the marker that does not fit.
    pub open spec fn line_number(self) -> usize {
        match self {
            CommentBlockParseError::NestedBegin { line, open_start_line } => line,
            CommentBlockParseError::OrphanEnd { line } => line,
            CommentBlockParseError::UnclosedBegin { start_line } => start_line,
        }
    }

    /// The name of the problem.
    pub open spec fn name(self) -> Seq<char> {
        match self {
            CommentBlockParseError::NestedBegin { line, open_start_line } =>
                "nested_begin_comment"@,
            CommentBlockParseError::OrphanEnd { line } => "orphan_end_comment"@,
            CommentBlockParseError::UnclosedBegin { start_line } => "unclosed_begin_comment"@,
        }
    }

    /// The problem in words.
    pub open spec fn text(self) -> Seq<char> {
        match self {
            CommentBlockParseError::NestedBegin { line, open_start_line } =>
                "nested BEGIN_COMMENT at line "@ + decimal(line as nat) + " while block from line "@
                    + decimal(open_start_line as nat) + " is still open"@,
            CommentBlockParseError::OrphanEnd { line } => "orphan END_COMMENT at line "@ + decimal(
                line as nat,
            ),
            CommentBlockParseError::UnclosedBegin { start_line } =>
                "unclosed BEGIN_COMMENT at line "@ + decimal(start_line as nat),
        }
    }

    /// The line of the marker that does not fit.
    pub fn marker_line(&self) -> (r: usize)
        ensures
            r == self.line_number(),
    {
        match self {
            CommentBlockParseError::NestedBegin { line, .. } => *line,
            CommentBlockParseError::OrphanEnd { line } => *line,
            CommentBlockParseError::UnclosedBegin { start_line } => *start_line,
        }
    }

    /// The name of the problem.
    pub fn kind(&self) -> (r: &'static str)
        ensures
            r@ == self.name(),
    {
        match self {
            CommentBlockParseError::NestedBegin { .. } => "nested_begin_comment",
            CommentBlockParseError::OrphanEnd { .. } => "orphan_end_comment",
            CommentBlockParseError::UnclosedBegin { .. } => "unclosed_begin_comment",
        }
    }

    /// The problem in words.
    pub fn message(&self) -> (r: String)
        ensures
            r@ == self.text(),
    {
        match self {
            CommentBlockParseError::NestedBegin { line, open_start_line } => concat5(
                "nested BEGIN_COMMENT at line ",
                number_text(*line as u64).as_str(),
                " while block from line ",
                number_text(*open_start_line as u64).as_str(),
                " is still open",
            ),
            CommentBlockParseError::OrphanEnd { line } => concat2(
                "orphan END_COMMENT at line ",
                number_text(*line as u64).as_str(),
            ),
            CommentBlockParseError::UnclosedBegin { start_line } => concat2(
                "unclosed BEGIN_COMMENT at line ",
                number_text(*start_line as u64).as_str(),
            ),
        }
    }
}

impl CommentDiscoveryErrorModel {
    /// The error in words.
    pub open spec fn text(self) -> Seq<char> {
        match self {
            CommentDiscoveryErrorModel::InvalidPlanRoot { plan_root } => "invalid plan root `"@
                + plan_root + "`"@,
            CommentDiscoveryErrorModel::Io { relative_path, source } => "failed to read `"@
                + relative_path + "`: "@ + source,
            CommentDiscoveryErrorModel::MalformedStructure { relative_path, line, kind, message } =>
                "malformed refine comment in `"@ + relative_path + "` at line "@ + decimal(
                    line as nat,
                ) + " ("@ + kind + "): "@ + message,
        }
    }
}

impl CommentDiscoveryError {
    /// The error in words.
    pub fn message(&self) -> (r: String)
        ensures
            r@ == self.deep_view().text(),
    {
        match self {
            CommentDiscoveryError::InvalidPlanRoot { plan_root } => concat3(
                "invalid plan root `",
                plan_root.as_str(),
                "`",
            ),
            CommentDiscoveryError::Io { relative_path, source } => {
                let start: String = concat3("failed to read `", relative_path.as_str(), "`: ");
                concat2(start.as_str(), source.as_str())
            },
            CommentDiscoveryError::MalformedStructure { relative_path, line, kind, message } => {
                let start: String = concat7(
                    "malformed refine comment in `",
                    relative_path.as_str(),
                    "` at line ",
                    number_text(*line as u64).as_str(),
                    " (",
                    kind.as_str(),
                    "): ",
                );
                concat2(start.as_str(), message.as_str())
            },
        }
    }
}

fn lines_between(lines: &Vec<String>, start: usize, end: usize) -> (r: Vec<String>)
    requires
        start < end <= lines.len(),
    ensures
        r.deep_view() == Seq::new(
            (end - start - 1) as nat,
            |k: int| without_line_end(lines.deep_view()[start + 1 + k]),
        ),
{
    let mut out: Vec<String> = Vec::new();
    let mut i: usize = start + 1;
    while i < end
        invariant
            start < i <= end <= lines.len(),
            out.deep_view() == Seq::new(
                (i - start - 1) as nat,
                |k: int| without_line_end(lines.deep_view()[start + 1 + k]),
            ),
        decreases end - i,
    {
        let ghost before = out.deep_view();
        let line: String = strip_line_end(lines[i].as_str());
        out.push(line);
        assert(out.deep_view() =~= before.push(line@));
        i = i + 1;
        assert(out.deep_view() =~= Seq::new(
            (i - start - 1) as nat,
            |k: int| without_line_end(lines.deep_view()[start + 1 + k]),
        ));
    }
    assert(out.deep_view() =~= Seq::new(
        (end - start - 1) as nat,
        |k: int| without_line_end(lines.deep_view()[start + 1 + k]),
    ));
    out
}

/// The comment blocks of a text.
#[verifier::loop_isolation(false)]
pub fn parse_comment_blocks(markdown: &str) -> (r: Result<
    Vec<CommentBlock>,
    CommentBlockParseError,
>)
    ensures
        outcome(r) == comment_blocks(markdown@),
{
    let lines: Vec<String> = split_lines(markdown);
    let ghost all = lines.deep_view();
    let mut blocks: Vec<CommentBlock> = Vec::new();
    let mut open: Option<usize> = None;
    let mut i: usize = 0;
    assert(blocks.deep_view() =~= Seq::empty());
    while i < lines.len()
        invariant
            i <= lines.len(),
            open matches Some(start) ==> start < i,
            comment_blocks(markdown@) == blocks_from(
                all,
                i as int,
                match open {
                    Some(start) => Some(start as int),
                    None => None,
                },
                blocks.deep_view(),
            ),
        decreases lines.len() - i,
    {
        let marker: String = trim(strip_line_end(lines[i].as_str()).as_str());
        if same_text(marker.as_str(), "BEGIN_COMMENT") {
            match open {
                Some(start) => {
                    return Err(
                        CommentBlockParseError::NestedBegin {
                            line: i + 1,
                            open_start_line: start + 1,
                        },
                    );
                },
                None => {
                    open = Some(i);
                },
            }
        } else if same_text(marker.as_str(), "END_COMMENT") {
            match open {
                Some(start) => {
                    let ghost before = blocks.deep_view();
                    let block: CommentBlock = CommentBlock {
                        start_line: start + 1,
                        end_line: i + 1,
                        text: join(&lines_between(&lines, start, i), "\n"),
                    };
                    blocks.push(block);
                    assert(blocks.deep_view() =~= before.push(
                        block_between(all, start as int, i as int),
                    ));
                    open = None;
                },
                None => {
                    return Err(CommentBlockParseError::OrphanEnd { line: i + 1 });
                },
            }
        }
        i = i + 1;
    }
    match open {
        Some(start) => Err(CommentBlockParseError::UnclosedBegin { start_line: start + 1 }),
        None => Ok(blocks),
    }
}

/// The comment blocks of a file.
pub open spec fn file_comment_blocks(relative_path: Seq<char>, markdown: Seq<char>) -> Result<
    Seq<CommentBlockModel>,
    CommentDiscoveryErrorModel,
> {
    match comment_blocks(markdown) {
        Ok(blocks) => Ok(blocks),
        Err(error) => Err(
            CommentDiscoveryErrorModel::MalformedStructure {
                relative_path,
                line: error.line_number(),
                kind: error.name(),
                message: error.text(),
            },
        ),
    }
}

/// The comment blocks of a file.
pub fn parse_comment_blocks_for_file(relative_path: &str, markdown: &str) -> (r: Result<
    Vec<CommentBlock>,
    CommentDiscoveryError,
>)
    ensures
        outcome(r) == file_comment_blocks(relative_path@, markdown@),
{
    match parse_comment_blocks(markdown) {
        Ok(blocks) => Ok(blocks),
        Err(error) => Err(
            CommentDiscoveryError::MalformedStructure {
                relative_path: relative_path.to_owned(),
                line: error.marker_line(),
                kind: error.kind().to_owned(),
                message: error.message(),
            },
        ),
    }
}

/// The name of the draft of a plan, which is no plan file.
pub open spec fn draft_name(plan_name: Seq<char>) -> Seq<char> {
    plan_name + "_draft.md"@
}

/// Why the plan root cannot be listed.
pub open spec fn plan_root_problem(plan_root: Seq<char>, root: PlanRootKind) -> Option<
    PlanErrorModel,
> {
    match root {
        PlanRootKind::Directory => None,
        PlanRootKind::Other => Some(
            failure("plan root "@ + plan_root + " is not a directory"@),
        ),
        PlanRootKind::Missing => Some(
            failure(missing_file_text()).under("failed to inspect "@ + plan_root),
        ),
    }
}

/// The markdown files of a plan, in order, without the plan's draft.
pub fn collect_plan_markdown_files(plan_root: &str, files: &PlanFiles, plan_name: &str) -> (r:
    Result<Vec<String>, PlanError>)
    ensures
        match r {
            Ok(list) => plan_root_problem(plan_root@, files.deep_view().root) is None
                && files.deep_view().lists_markdown(list.deep_view(), draft_name(plan_name@)),
            Err(error) => plan_root_problem(plan_root@, files.deep_view().root) == Some(
                error.deep_view(),
            ),
        },
{
    match files.root_kind() {
        PlanRootKind::Missing => {
            return Err(
                PlanError::caused(
                    concat2("failed to inspect ", plan_root),
                    "No such file or directory (os error 2)".to_owned(),
                ),
            );
        },
        PlanRootKind::Other => {
            return Err(
                PlanError::new(concat3("plan root ", plan_root, " is not a directory")),
            );
        },
        PlanRootKind::Directory => {},
    }
    let draft: String = concat2(plan_name, "_draft.md");
    Ok(files.markdown_files(draft.as_str()))
}

/// The comments that the blocks from `k` on make, after those in `acc`.
pub open spec fn extracted_from(
    relative_path: Seq<char>,
    blocks: Seq<CommentBlockModel>,
    k: int,
    acc: Seq<ExtractedCommentModel>,
) -> Seq<ExtractedCommentModel>
    decreases blocks.len() - k,
{
    if k >= blocks.len() {
        acc
    } else {
        extracted_from(
            relative_path,
            blocks,
            k + 1,
            acc.push(
                ExtractedCommentModel {
                    relative_path,
                    start_line: blocks[k].start_line,
                    end_line: blocks[k].end_line,
                    text: blocks[k].text,
                },
            ),
        )
    }
}

/// The comments of the files from position `i` of the list on, after those in
/// `acc`.
pub open spec fn comments_from(
    files: PlanFilesModel,
    list: Seq<Seq<char>>,
    i: int,
    acc: Seq<ExtractedCommentModel>,
) -> Result<Seq<ExtractedCommentModel>, CommentDiscoveryErrorModel>
    decreases list.len() - i,
{
    if i >= list.len() {
        Ok(acc)
    } else {
        match files.read(list[i]) {
            Err(source) => Err(
                CommentDiscoveryErrorModel::Io { relative_path: list[i], source },
            ),
            Ok(markdown) => match file_comment_blocks(list[i], markdown) {
                Err(error) => Err(error),
                Ok(blocks) => comments_from(
                    files,
                    list,
                    i + 1,
                    extracted_from(list[i], blocks, 0, acc),
                ),
            },
        }
    }
}

/// The comments in the given files, in the order of the list.
#[verifier::loop_isolation(false)]
fn extract_comments(files: &PlanFiles, list: &Vec<String>) -> (r: Result<
    Vec<ExtractedComment>,
    CommentDiscoveryError,
>)
    ensures
        outcome(r) == comments_from(files.deep_view(), list.deep_view(), 0, Seq::empty()),
{
    let ghost model = files.deep_view();
    let ghost names = list.deep_view();
    let mut comments: Vec<ExtractedComment> = Vec::new();
    let mut i: usize = 0;
    assert(comments.deep_view() =~= Seq::empty());
    while i < list.len()
        invariant
            i <= list.len(),
            comments_from(model, names, 0, Seq::empty()) == comments_from(
                model,
                names,
                i as int,
                comments.deep_view(),
            ),
        decreases list.len() - i,
    {
        let relative_path: &str = list[i].as_str();
        let markdown: String = match files.read(relative_path) {
            Ok(text) => text,
            Err(source) => {
                return Err(
                    CommentDiscoveryError::Io { relative_path: relative_path.to_owned(), source },
                );
            },
        };
        let blocks: Vec<CommentBlock> = match parse_comment_blocks_for_file(
            relative_path,
            markdown.as_str(),
        ) {
            Ok(blocks) => blocks,
            Err(error) => {
                return Err(error);
            },
        };
        let ghost found = blocks.deep_view();
        let ghost start = comments.deep_view();
        let mut k: usize = 0;
        while k < blocks.len()
            invariant
                k <= blocks.len(),
                extracted_from(names[i as int], found, 0, start) == extracted_from(
                    names[i as int],
                    found,
                    k as int,
                    comments.deep_view(),
                ),
            decreases blocks.len() - k,
        {
            let ghost before = comments.deep_view();
            let block: &CommentBlock = &blocks[k];
            let comment: ExtractedComment = ExtractedComment {
                relative_path: relative_path.to_owned(),
                start_line: block.start_line,
                end_line: block.end_line,
                text: block.text.clone(),
            };
            comments.push(comment);
            assert(comments.deep_view() =~= before.push(comment.deep_view()));
            k = k + 1;
        }
        i = i + 1;
    }
    Ok(comments)
}

/// The comments of a plan, file by file in the order of their paths.
pub fn discover_plan_comments(plan_root: &str, files: &PlanFiles, plan_name: &str) -> (r: Result<
    Vec<ExtractedComment>,
    CommentDiscoveryError,
>)
    ensures
        plan_root_problem(plan_root@, files.deep_view().root) is Some ==> outcome(r) == Err::<
            Seq<ExtractedCommentModel>,
            CommentDiscoveryErrorModel,
        >(CommentDiscoveryErrorModel::InvalidPlanRoot { plan_root: plan_root@ }),
        plan_root_problem(plan_root@, files.deep_view().root) is None ==> exists|
            list: Seq<Seq<char>>,
        |
            #[trigger] files.deep_view().lists_markdown(list, draft_name(plan_name@)) && outcome(r)
                == comments_from(files.deep_view(), list, 0, Seq::empty()),
{
    match collect_plan_markdown_files(plan_root, files, plan_name) {
        Ok(list) => {
            assert(files.deep_view().lists_markdown(list.deep_view(), draft_name(plan_name@)));
            extract_comments(files, &list)
        },
        Err(_) => Err(CommentDiscoveryError::InvalidPlanRoot { plan_root: plan_root.to_owned() }),
    }
}

} // verus!
