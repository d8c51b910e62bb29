//! The links from a parent node's markdown to its children: the lines of its
//! `## Child Nodes` section.
use crate::error::{failure, outcome, PlanError, PlanErrorModel};
use crate::paths::{
    all_normal, components, components_are_normal, extension, is_absolute, parent_components,
    path_components, path_extension, path_is_absolute, Component, ComponentModel,
};
use crate::text::{
    after_prefix, before_char, begins_with, concat3, contains_text, cut_at, has_text, join, joined,
    lines_of, push_unique, same_text, split_lines, split_once, starts_with, strip_line_end,
    strip_prefix, take_before, trim, trim_start, trimmed, trimmed_start, with_unique,
    without_line_end,
};
use vstd::prelude::*;

verus! {

/// Why a link's target is no path of the plan.
#[derive(Debug, Clone, Copy, PartialEq, Eq, Structural)]
pub enum ChildUrlProblem {
    NotPlanLocal,
    ParentOutsidePlan,
    EscapesPlan,
}

impl DeepView for ChildUrlProblem {
    type V = ChildUrlProblem;

    open spec fn deep_view(&self) -> ChildUrlProblem {
        *self
    }
}

/// The line is the heading of the section.
pub open spec fn is_section_heading(line: Seq<char>) -> bool {
    trimmed(line) == "## Child Nodes"@
}

/// The line is the heading of another section of the same level.
pub open spec fn is_next_section(line: Seq<char>) -> bool {
    begins_with(trimmed_start(line), "## "@) && trimmed(trimmed_start(line)) != "## Child Nodes"@
}

/// The first line at or after `i` that is the heading of the section.
pub open spec fn heading_from(lines: Seq<Seq<char>>, i: int) -> Option<int>
    decreases lines.len() - i,
{
    if i >= lines.len() {
        None
    } else if is_section_heading(lines[i]) {
        Some(i)
    } else {
        heading_from(lines, i + 1)
    }
}

/// The first line at or after `i` that starts another section, or the end.
pub open spec fn section_end_from(lines: Seq<Seq<char>>, i: int) -> int
    decreases lines.len() - i,
{
    if i >= lines.len() || is_next_section(lines[i]) {
        i
    } else {
        section_end_from(lines, i + 1)
    }
}

/// The line of the section's heading, and the line after its end.
pub open spec fn child_section(lines: Seq<Seq<char>>) -> Option<(int, int)> {
    match heading_from(lines, 0) {
        Some(heading) => Some((heading, section_end_from(lines, heading + 1))),
        None => None,
    }
}

/// The label and the target of a list item that is a link.
pub open spec fn link_of_line(line: Seq<char>) -> Option<(Seq<char>, Seq<char>)> {
    match after_prefix(trimmed(line), "- ["@) {
        Some(start) => match cut_at(start, "]("@) {
            Some((label, rest)) => match cut_at(rest, ")"@) {
                Some((url, _)) => Some((label, url)),
                None => None,
            },
            None => None,
        },
        None => None,
    }
}

/// The names among the components from `i` on; nothing where one of them is
/// `..` or the root.
pub open spec fn plain_names_from(
    parts: Seq<ComponentModel>,
    i: int,
    acc: Seq<Seq<char>>,
) -> Option<Seq<Seq<char>>>
    decreases parts.len() - i,
{
    if i >= parts.len() {
        Some(acc)
    } else {
        match parts[i] {
            ComponentModel::CurDir => plain_names_from(parts, i + 1, acc),
            ComponentModel::Normal(name) => plain_names_from(parts, i + 1, acc.push(name)),
            _ => None,
        }
    }
}

/// The names of the directory that a path stands in.
pub open spec fn directory_names(path: Seq<char>) -> Option<Seq<Seq<char>>> {
    match parent_components(path) {
        Some(parts) => plain_names_from(parts, 0, Seq::empty()),
        None => Some(Seq::empty()),
    }
}

/// Where the components from `i` on lead, starting in the directory `acc`.
pub open spec fn walk_from(
    parts: Seq<ComponentModel>,
    i: int,
    acc: Seq<Seq<char>>,
) -> Result<Seq<Seq<char>>, ChildUrlProblem>
    decreases parts.len() - i,
{
    if i >= parts.len() {
        Ok(acc)
    } else {
        match parts[i] {
            ComponentModel::CurDir => walk_from(parts, i + 1, acc),
            ComponentModel::Normal(name) => walk_from(parts, i + 1, acc.push(name)),
            ComponentModel::ParentDir => if acc.len() == 0 {
                Err(ChildUrlProblem::EscapesPlan)
            } else {
                walk_from(parts, i + 1, acc.drop_last())
            },
            ComponentModel::RootDir => Err(ChildUrlProblem::NotPlanLocal),
        }
    }
}

/// The target without its fragment and its query.
pub open spec fn url_path(url: Seq<char>) -> Seq<char> {
    before_char(before_char(url, '#'), '?')
}

/// The plan path that a link in `parent` leads to: none where it leads out
/// of the plan by design.
pub open spec fn child_url_target(parent: Seq<char>, url: Seq<char>) -> Result<
    Option<Seq<char>>,
    ChildUrlProblem,
> {
    if begins_with(url, "#"@) || has_text(url, "://"@) {
        Ok(None)
    } else if is_absolute(url_path(url)) {
        Err(ChildUrlProblem::NotPlanLocal)
    } else {
        match directory_names(parent) {
            Some(names) => match walk_from(components(url_path(url)), 0, names) {
                Ok(parts) => Ok(Some(joined(parts, "/"@))),
                Err(problem) => Err(problem),
            },
            None => Err(ChildUrlProblem::ParentOutsidePlan),
        }
    }
}

/// What the runtime says of a target that is no path of the plan.
pub open spec fn url_problem_text(parent: Seq<char>, problem: ChildUrlProblem) -> Seq<char> {
    match problem {
        ChildUrlProblem::NotPlanLocal => "child link target for `"@ + parent
            + "` must be plan-local"@,
        ChildUrlProblem::ParentOutsidePlan => "child link target must stay within the plan"@,
        ChildUrlProblem::EscapesPlan => "child link target for `"@ + parent
            + "` escapes the plan"@,
    }
}

/// Why a path is no markdown path of the plan.
pub open spec fn canonical_path_problem(path: Seq<char>) -> Option<Seq<char>> {
    if path.len() == 0 || is_absolute(path) || extension(path) != Some("md"@) {
        Some("child link target must be a canonical markdown relative path"@)
    } else if !all_normal(components(path)) {
        Some("child link target must stay inside the plan"@)
    } else {
        None
    }
}

/// The plan path that a line links from `parent`: none where the line is no
/// link into the plan.
pub open spec fn linked_path(parent: Seq<char>, line: Seq<char>) -> Result<
    Option<Seq<char>>,
    PlanErrorModel,
> {
    match link_of_line(without_line_end(line)) {
        None => Ok(None),
        Some((_, url)) => match child_url_target(parent, url) {
            Err(problem) => Err(failure(url_problem_text(parent, problem))),
            Ok(None) => Ok(None),
            Ok(Some(path)) => match canonical_path_problem(path) {
                Some(text) => Err(failure(text)),
                None => Ok(Some(path)),
            },
        },
    }
}

/// The plan paths that the lines from `i` up to `end` link, after those in
/// `acc`, each once.
pub open spec fn linked_paths_from(
    parent: Seq<char>,
    lines: Seq<Seq<char>>,
    i: int,
    end: int,
    acc: Seq<Seq<char>>,
) -> Result<Seq<Seq<char>>, PlanErrorModel>
    decreases end - i,
{
    if i >= end {
        Ok(acc)
    } else {
        match linked_path(parent, lines[i]) {
            Err(error) => Err(error),
            Ok(None) => linked_paths_from(parent, lines, i + 1, end, acc),
            Ok(Some(path)) => linked_paths_from(
                parent,
                lines,
                i + 1,
                end,
                with_unique(acc, path),
            ),
        }
    }
}

/// The plan paths that the markdown of `parent` links as its children.
pub open spec fn child_link_paths(parent: Seq<char>, markdown: Seq<char>) -> Result<
    Seq<Seq<char>>,
    PlanErrorModel,
> {
    let lines = lines_of(markdown);
    match child_section(lines) {
        Some((heading, end)) => linked_paths_from(
            parent,
            lines,
            heading + 1,
            end,
            Seq::empty(),
        ),
        None => Ok(Seq::empty()),
    }
}

/// The line of the section's heading, and the line after its end.
pub fn find_child_section(lines: &Vec<String>) -> (r: Option<(usize, usize)>)
    ensures
        match r {
            Some((heading, end)) => child_section(lines.deep_view()) == Some(
                (heading as int, end as int),
            ) && heading < end <= lines.len(),
            None => child_section(lines.deep_view()) is None,
        },
{
    let ghost all = lines.deep_view();
    let mut i: usize = 0;
    while i < lines.len()
        invariant
            i <= lines.len(),
            all == lines.deep_view(),
            heading_from(all, 0) == heading_from(all, i as int),
        decreases lines.len() - i,
    {
        if same_text(trim(lines[i].as_str()).as_str(), "## Child Nodes") {
            let mut end: usize = i + 1;
            while end < lines.len()
                invariant
                    i < end <= lines.len(),
                    all == lines.deep_view(),
                    heading_from(all, 0) == Some(i as int),
                    section_end_from(all, i + 1) == section_end_from(all, end as int),
                decreases lines.len() - end,
            {
                let start: String = trim_start(lines[end].as_str());
                if starts_with(start.as_str(), "## ") && !same_text(
                    trim(start.as_str()).as_str(),
                    "## Child Nodes",
                ) {
                    return Some((i, end));
                }
                end = end + 1;
            }
            return Some((i, end));
        }
        i = i + 1;
    }
    None
}

/// The label and the target of a list item that is a link.
pub fn parse_markdown_child_link(line: &str) -> (r: Option<(String, String)>)
    ensures
        r.deep_view() == link_of_line(line@),
{
    match strip_prefix(trim(line).as_str(), "- [") {
        Some(start) => match split_once(start.as_str(), "](") {
            Some((label, rest)) => match split_once(rest.as_str(), ")") {
                Some((url, _)) => Some((label, url)),
                None => None,
            },
            None => None,
        },
        None => None,
    }
}

/// The names among the first `n` components; nothing where one of them is
/// `..` or the root.
pub fn plain_names(parts: &Vec<Component>, n: usize) -> (r: Option<Vec<String>>)
    requires
        n <= parts.len(),
    ensures
        r.deep_view() == plain_names_from(
            parts.deep_view().take(n as int),
            0,
            Seq::empty(),
        ),
{
    let ghost all = parts.deep_view().take(n as int);
    let mut out: Vec<String> = Vec::new();
    assert(out.deep_view() =~= Seq::empty());
    let mut i: usize = 0;
    while i < n
        invariant
            i <= n <= parts.len(),
            all == parts.deep_view().take(n as int),
            plain_names_from(all, 0, Seq::empty()) == plain_names_from(
                all,
                i as int,
                out.deep_view(),
            ),
        decreases n - i,
    {
        assert(all[i as int] == parts@[i as int].deep_view());
        match &parts[i] {
            Component::CurDir => {},
            Component::Normal(name) => {
                let ghost before = out.deep_view();
                out.push(name.clone());
                assert(out.deep_view() =~= before.push(name@));
            },
            _ => {
                return None;
            },
        }
        i = i + 1;
    }
    Some(out)
}

/// The names of the directory that a path stands in.
pub fn directory_of(path: &str) -> (r: Option<Vec<String>>)
    ensures
        r.deep_view() == directory_names(path@),
{
    let parts: Vec<Component> = path_components(path);
    let top: bool = if parts.len() == 0 {
        true
    } else {
        match &parts[parts.len() - 1] {
            Component::RootDir => true,
            _ => false,
        }
    };
    if top {
        let out: Vec<String> = Vec::new();
        assert(out.deep_view() =~= Seq::empty());
        Some(out)
    } else {
        assert(parts.deep_view().take(parts.len() - 1) =~= parts.deep_view().drop_last());
        plain_names(&parts, parts.len() - 1)
    }
}

fn walk(parts: &Vec<Component>, start: Vec<String>) -> (r: Result<Vec<String>, ChildUrlProblem>)
    ensures
        outcome(r) == walk_from(parts.deep_view(), 0, start.deep_view()),
{
    let ghost all = parts.deep_view();
    let ghost first = start.deep_view();
    let mut out: Vec<String> = start;
    let mut i: usize = 0;
    while i < parts.len()
        invariant
            i <= parts.len(),
            all == parts.deep_view(),
            first == start.deep_view(),
            walk_from(all, 0, first) == walk_from(all, i as int, out.deep_view()),
        decreases parts.len() - i,
    {
        assert(all[i as int] == parts@[i as int].deep_view());
        let ghost before = out.deep_view();
        match &parts[i] {
            Component::CurDir => {},
            Component::Normal(name) => {
                out.push(name.clone());
                assert(out.deep_view() =~= before.push(name@));
            },
            Component::ParentDir => {
                if out.len() == 0 {
                    return Err(ChildUrlProblem::EscapesPlan);
                }
                let _ = out.pop();
                assert(out.deep_view() =~= before.drop_last());
            },
            Component::RootDir => {
                return Err(ChildUrlProblem::NotPlanLocal);
            },
        }
        i = i + 1;
    }
    Ok(out)
}

/// The plan path that a link in `parent` leads to.
pub fn canonical_child_path_from_url(parent: &str, url: &str) -> (r: Result<
    Option<String>,
    ChildUrlProblem,
>)
    ensures
        outcome(r) == child_url_target(parent@, url@),
{
    if starts_with(url, "#") || contains_text(url, "://") {
        return Ok(None);
    }
    let cut: String = take_before(take_before(url, '#').as_str(), '?');
    if path_is_absolute(cut.as_str()) {
        return Err(ChildUrlProblem::NotPlanLocal);
    }
    match directory_of(parent) {
        Some(names) => match walk(&path_components(cut.as_str()), names) {
            Ok(parts) => Ok(Some(join(&parts, "/"))),
            Err(problem) => Err(problem),
        },
        None => Err(ChildUrlProblem::ParentOutsidePlan),
    }
}

fn url_problem_message(parent: &str, problem: ChildUrlProblem) -> (r: String)
    ensures
        r@ == url_problem_text(parent@, problem),
{
    match problem {
        ChildUrlProblem::NotPlanLocal => concat3(
            "child link target for `",
            parent,
            "` must be plan-local",
        ),
        ChildUrlProblem::ParentOutsidePlan => "child link target must stay within the plan".to_owned(),
        ChildUrlProblem::EscapesPlan => concat3(
            "child link target for `",
            parent,
            "` escapes the plan",
        ),
    }
}

fn validate_canonical_markdown_path(path: &str) -> (r: Option<String>)
    ensures
        r.deep_view() == canonical_path_problem(path@),
{
    let is_markdown: bool = match path_extension(path) {
        Some(ext) => same_text(ext.as_str(), "md"),
        None => false,
    };
    if path.unicode_len() == 0 || path_is_absolute(path) || !is_markdown {
        return Some("child link target must be a canonical markdown relative path".to_owned());
    }
    if !components_are_normal(&path_components(path)) {
        return Some("child link target must stay inside the plan".to_owned());
    }
    None
}

fn parse_linked_path(parent: &str, line: &str) -> (r: Result<Option<String>, PlanError>)
    ensures
        outcome(r) == linked_path(parent@, line@),
{
    match parse_markdown_child_link(strip_line_end(line).as_str()) {
        None => Ok(None),
        Some((_, url)) => match canonical_child_path_from_url(parent, url.as_str()) {
            Err(problem) => Err(PlanError::new(url_problem_message(parent, problem))),
            Ok(None) => Ok(None),
            Ok(Some(path)) => match validate_canonical_markdown_path(path.as_str()) {
                Some(text) => Err(PlanError::new(text)),
                None => Ok(Some(path)),
            },
        },
    }
}

/// The plan paths that the markdown of `parent` links as its children, each
/// once, in the order of the lines.
pub fn parse_child_node_link_paths(parent: &str, markdown: &str) -> (r: Result<
    Vec<String>,
    PlanError,
>)
    ensures
        outcome(r) == child_link_paths(parent@, markdown@),
{
    let lines: Vec<String> = split_lines(markdown);
    let mut paths: Vec<String> = Vec::new();
    assert(paths.deep_view() =~= Seq::empty());
    let (heading, end): (usize, usize) = match find_child_section(&lines) {
        Some(section) => section,
        None => {
            return Ok(paths);
        },
    };
    let mut i: usize = heading + 1;
    while i < end
        invariant
            i <= end <= lines.len(),
            linked_paths_from(parent@, lines.deep_view(), heading + 1, end as int, Seq::empty())
                == linked_paths_from(
                parent@,
                lines.deep_view(),
                i as int,
                end as int,
                paths.deep_view(),
            ),
            child_link_paths(parent@, markdown@) == linked_paths_from(
                parent@,
                lines.deep_view(),
                heading + 1,
                end as int,
                Seq::empty(),
            ),
        decreases end - i,
    {
        match parse_linked_path(parent, lines[i].as_str()) {
            Err(error) => {
                return Err(error);
            },
            Ok(None) => {},
            Ok(Some(path)) => {
                push_unique(&mut paths, path.as_str());
            },
        }
        i = i + 1;
    }
    Ok(paths)
}

proof fn linked_paths_are_unique(
    parent: Seq<char>,
    lines: Seq<Seq<char>>,
    i: int,
    end: int,
    acc: Seq<Seq<char>>,
)
    requires
        acc.no_duplicates(),
        forall|k: int| 0 <= k < acc.len() ==> canonical_path_problem(#[trigger] acc[k]) is None,
    ensures
        linked_paths_from(parent, lines, i, end, acc) matches Ok(paths) ==> paths.no_duplicates()
            && forall|k: int|
            0 <= k < paths.len() ==> canonical_path_problem(#[trigger] paths[k]) is None,
    decreases end - i,
{
    if i < end {
        match linked_path(parent, lines[i]) {
            Ok(Some(path)) => {
                crate::text::unique_stays_unique(acc, path);
                linked_paths_are_unique(parent, lines, i + 1, end, with_unique(acc, path));
            },
            Ok(None) => {
                linked_paths_are_unique(parent, lines, i + 1, end, acc);
            },
            Err(_) => {},
        }
    }
}

/// The children that a markdown links are markdown paths of the plan, and no
/// child is named twice.
pub proof fn child_links_are_unique_plan_paths(parent: Seq<char>, markdown: Seq<char>)
    ensures
        child_link_paths(parent, markdown) matches Ok(paths) ==> paths.no_duplicates() && forall|
            k: int,
        |
            0 <= k < paths.len() ==> crate::paths::is_plan_markdown(#[trigger] paths[k]),
{
    let lines = lines_of(markdown);
    match child_section(lines) {
        Some((heading, end)) => {
            linked_paths_are_unique(parent, lines, heading + 1, end, Seq::empty());
        },
        None => {},
    }
}

} // verus!
