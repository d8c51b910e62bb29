//! What holds of every rewrite of a plan.
use super::changes::RefineChangedFileKind;
use super::decision::{RefineDecisionModel, RefineRewriteActionKind};
use super::gate_targets::{with_all_unique, with_all_unique_from};
use super::link_laws::{
    heading_is_first, lacks, links_that_were_read_read_back, new_links_read_back, reads_back,
    section_end_is_first, written_links_are_read, written_rows,
};
use super::markdown::{
    has_heading, link_row, link_rows, link_rows_from, marked_stale, relative_url, rendered_link,
    title_from_name, title_of, with_child_section, without_comment_blocks, ChildLinkRowModel,
};
use super::rewrite::{
    broken_row_from, comment_paths, creation_paths, is_consistent, is_relinked, is_stale,
    kept_rows_from, linked_from, merged_changes, merged_from, merged_index_from, payload_from,
    relinked_paths, row_lines, row_paths, source_paths_from, stale_index_from, stale_paths,
    target_paths, title_name, unique_stale_from, unlinked_from, with_link_change, with_stale_node,
    MergedLinkChangeModel, MutationReportsModel,
};
use super::rewrite_types::{
    RefineRewriteErrorModel, RefineRewriteRequestModel, RefineRewriteResultModel,
};
use super::scope::{RefineLinkChangeModel, RefineStaleDescendantModel};
use crate::files::{
    removals_are_told, writes_are_told, FileContentModel, PlanFilesModel,
};
use crate::line_laws::{is_line, lines_are_lines};
use crate::paths::{is_plan_markdown, path_key};
use crate::runtime::child_links::child_section;
use crate::text::{has_text, lines_of, unique_stays_unique, with_unique};
use vstd::prelude::*;

verus! {

// ---------------------------------------------------------------------
// Lists
// ---------------------------------------------------------------------
/// A list that takes up texts keeps what it held, holds the texts, and
/// nothing else; nothing stands in it twice.
pub proof fn taken_up_texts_stay_unique(list: Seq<Seq<char>>, texts: Seq<Seq<char>>, i: int)
    requires
        0 <= i <= texts.len(),
        list.no_duplicates(),
    ensures
        with_all_unique_from(list, texts, i).no_duplicates(),
        forall|t: Seq<char>|
            #![trigger with_all_unique_from(list, texts, i).contains(t)]
            with_all_unique_from(list, texts, i).contains(t) <==> list.contains(t)
                || texts.skip(i).contains(t),
    decreases texts.len() - i,
{
    let out = with_all_unique_from(list, texts, i);
    if i < texts.len() {
        let next = with_unique(list, texts[i]);
        unique_stays_unique(list, texts[i]);
        taken_up_texts_stay_unique(next, texts, i + 1);
        assert forall|t: Seq<char>| out.contains(t) <==> list.contains(t) || texts.skip(
            i,
        ).contains(t) by {
            assert(texts.skip(i)[0] == texts[i]);
            if next.contains(t) {
                let k = choose|k: int| 0 <= k < next.len() && next[k] == t;
                if k < list.len() {
                    assert(list[k] == t);
                } else {
                    assert(t == texts[i]);
                }
            }
            if list.contains(t) {
                let k = choose|k: int| 0 <= k < list.len() && list[k] == t;
                assert(next[k] == t);
            }
            let rest = texts.skip(i);
            let later = texts.skip(i + 1);
            if later.contains(t) {
                let k = choose|k: int| 0 <= k < later.len() && later[k] == t;
                assert(rest[k + 1] == t);
            }
            if rest.contains(t) {
                let k = choose|k: int| 0 <= k < rest.len() && rest[k] == t;
                if k > 0 {
                    assert(later[k - 1] == t);
                }
            }
        }
    } else {
        assert(texts.skip(i) =~= Seq::empty());
    }
}

proof fn all_taken_up(list: Seq<Seq<char>>, texts: Seq<Seq<char>>)
    requires
        list.no_duplicates(),
    ensures
        with_all_unique(list, texts).no_duplicates(),
        forall|t: Seq<char>|
            #![trigger with_all_unique(list, texts).contains(t)]
            with_all_unique(list, texts).contains(t) <==> list.contains(t) || texts.contains(t),
{
    taken_up_texts_stay_unique(list, texts, 0);
    assert(texts.skip(0) =~= texts);
}

// ---------------------------------------------------------------------
// What a rewrite may touch
// ---------------------------------------------------------------------
/// A comment of one of the decisions stands at this path.
pub open spec fn is_source(decisions: Seq<RefineDecisionModel>, path: Seq<char>) -> bool {
    exists|i: int|
        0 <= i < decisions.len() && comment_paths(
            (#[trigger] decisions[i]).source_comments,
        ).contains(path)
}

impl RefineRewriteRequestModel {
    /// The request speaks of this path.
    pub open spec fn names_path(self, path: Seq<char>) -> bool {
        self.is_mutated_later(path) || is_source(self.decisions, path)
    }

    /// The request speaks of the file that this is the key of.
    pub open spec fn names_key(self, key: Seq<char>) -> bool {
        exists|path: Seq<char>| #[trigger] self.names_path(path) && path_key(path) == key
    }

    /// The files that the request does not speak of stay as they were.
    pub open spec fn leaves_others(self, before: PlanFilesModel, after: PlanFilesModel) -> bool {
        forall|key: Seq<char>|
            #![trigger self.names_key(key)]
            !self.names_key(key) ==> (before.contents.contains_key(key)
                <==> after.contents.contains_key(key)) && before.contents[key]
                == after.contents[key]
    }

    /// The step stays within the request, and the operations tell of it.
    pub open spec fn is_fair_step(
        self,
        start: Map<Seq<char>, FileContentModel>,
        before: PlanFilesModel,
        after: PlanFilesModel,
    ) -> bool {
        &&& after.root == before.root
        &&& self.leaves_others(before, after)
        &&& before.has_grown_from(start) ==> after.has_grown_from(start)
    }
}

proof fn fair_write(
    request: RefineRewriteRequestModel,
    start: Map<Seq<char>, FileContentModel>,
    files: PlanFilesModel,
    path: Seq<char>,
    text: Seq<char>,
)
    requires
        request.names_path(path),
    ensures
        request.is_fair_step(start, files, request.write(files, path, text).0),
{
    let next = request.write(files, path, text).0;
    if files.has_grown_from(start) {
        writes_are_told(files, start, path, text);
    }
    assert forall|key: Seq<char>|
        #![trigger request.names_key(key)]
        !request.names_key(key) implies (files.contents.contains_key(key)
        <==> next.contents.contains_key(key)) && files.contents[key] == next.contents[key] by {
        assert(key != path_key(path));
    }
}

proof fn fair_steps(
    request: RefineRewriteRequestModel,
    start: Map<Seq<char>, FileContentModel>,
    a: PlanFilesModel,
    b: PlanFilesModel,
    c: PlanFilesModel,
)
    requires
        request.is_fair_step(start, a, b),
        request.is_fair_step(start, b, c),
    ensures
        request.is_fair_step(start, a, c),
{
    assert forall|key: Seq<char>|
        #![trigger request.names_key(key)]
        !request.names_key(key) implies (a.contents.contains_key(key)
        <==> c.contents.contains_key(key)) && a.contents[key] == c.contents[key] by {}
}

proof fn source_paths_are_sources(
    decisions: Seq<RefineDecisionModel>,
    i: int,
    acc: Seq<Seq<char>>,
    path: Seq<char>,
)
    requires
        0 <= i <= decisions.len(),
        acc.no_duplicates(),
        source_paths_from(decisions, i, acc).contains(path),
    ensures
        acc.contains(path) || is_source(decisions, path),
    decreases decisions.len() - i,
{
    if i < decisions.len() {
        let sources = comment_paths(decisions[i].source_comments);
        all_taken_up(acc, sources);
        source_paths_are_sources(decisions, i + 1, with_all_unique(acc, sources), path);
    }
}

proof fn cleanup_paths_are_named(request: RefineRewriteRequestModel, path: Seq<char>)
    requires
        request.cleanup_paths().contains(path),
    ensures
        request.names_path(path),
{
    let scope = request.rewrite_scope;
    let none = Seq::<Seq<char>>::empty();
    let a = with_all_unique(none, target_paths(scope.rewrite_targets));
    let b = with_all_unique(a, stale_paths(scope.stale_descendants));
    let c = with_all_unique(b, relinked_paths(scope.link_changes));
    all_taken_up(none, target_paths(scope.rewrite_targets));
    all_taken_up(a, stale_paths(scope.stale_descendants));
    all_taken_up(b, relinked_paths(scope.link_changes));
    source_paths_are_sources(request.decisions, 0, c, path);
    if c.contains(path) {
        let targets = target_paths(scope.rewrite_targets);
        let stale = stale_paths(scope.stale_descendants);
        let relinked = relinked_paths(scope.link_changes);
        if targets.contains(path) {
            let k = choose|k: int| 0 <= k < targets.len() && targets[k] == path;
            assert(scope.rewrite_targets[k].relative_path == path);
        } else if stale.contains(path) {
            let k = choose|k: int| 0 <= k < stale.len() && stale[k] == path;
            assert(scope.stale_descendants[k].relative_path == path);
        } else {
            let k = choose|k: int| 0 <= k < relinked.len() && relinked[k] == path;
            assert(scope.link_changes[k].parent_relative_path == path);
        }
    }
}

proof fn fair_cleanup(
    request: RefineRewriteRequestModel,
    start: Map<Seq<char>, FileContentModel>,
    files: PlanFilesModel,
    i: int,
    acc: Seq<(Seq<char>, Seq<char>)>,
)
    requires
        0 <= i <= request.cleanup_paths().len(),
    ensures
        request.is_fair_step(
            start,
            files,
            request.cleaned_from(files, request.cleanup_paths(), i, acc).0,
        ),
    decreases request.cleanup_paths().len() - i,
{
    let paths = request.cleanup_paths();
    if i < paths.len() {
        let path = paths[i];
        if !files.is_file(path) {
            fair_cleanup(request, start, files, i + 1, acc);
        } else if let Ok(markdown) = request.read(files, path) {
            if let Ok(clean) = without_comment_blocks(
                path,
                markdown,
                request.preserved(path),
            ) {
                if clean != markdown && !request.is_mutated_later(path) {
                    assert(paths.contains(path));
                    cleanup_paths_are_named(request, path);
                    fair_write(request, start, files, path, clean);
                    let (next, problem) = request.write(files, path, clean);
                    if problem is None {
                        let more = acc.push((path, clean));
                        fair_cleanup(request, start, next, i + 1, more);
                        fair_steps(
                            request,
                            start,
                            files,
                            next,
                            request.cleaned_from(next, paths, i + 1, more).0,
                        );
                    }
                } else {
                    fair_cleanup(request, start, files, i + 1, acc.push((path, clean)));
                }
            }
        }
    }
}

proof fn fair_rewrites(
    request: RefineRewriteRequestModel,
    start: Map<Seq<char>, FileContentModel>,
    files: PlanFilesModel,
    payloads: Seq<(Seq<char>, Seq<char>)>,
    i: int,
    reports: MutationReportsModel,
)
    requires
        0 <= i,
    ensures
        request.is_fair_step(
            start,
            files,
            request.rewritten_from(files, payloads, i, reports).0,
        ),
    decreases request.rewrite_scope.rewrite_targets.len() - i,
{
    if i < request.rewrite_scope.rewrite_targets.len() {
        let target = request.rewrite_scope.rewrite_targets[i];
        let path = target.relative_path;
        if target.action_kind != RefineRewriteActionKind::UpdateExistingNode {
            fair_rewrites(request, start, files, payloads, i + 1, reports);
        } else if let Ok(replacement) = request.clean_replacement(path) {
            let text = match replacement {
                Some(text) => Some(text),
                None => payload_from(payloads, path, 0),
            };
            match text {
                None => {
                    fair_rewrites(
                        request,
                        start,
                        files,
                        payloads,
                        i + 1,
                        reports.with_unchanged(path, target.node_id),
                    );
                },
                Some(markdown) => {
                    assert(request.names_path(path));
                    fair_write(request, start, files, path, markdown);
                    let (next, problem) = request.write(files, path, markdown);
                    if problem is None {
                        let told = reports.with_changed(
                            path,
                            target.node_id,
                            RefineChangedFileKind::TextUpdated,
                        );
                        fair_rewrites(request, start, next, payloads, i + 1, told);
                        fair_steps(
                            request,
                            start,
                            files,
                            next,
                            request.rewritten_from(next, payloads, i + 1, told).0,
                        );
                    }
                },
            }
        }
    }
}

proof fn fair_creations(
    request: RefineRewriteRequestModel,
    start: Map<Seq<char>, FileContentModel>,
    files: PlanFilesModel,
    i: int,
    reports: MutationReportsModel,
)
    requires
        0 <= i,
    ensures
        request.is_fair_step(start, files, request.created_from(files, i, reports).0),
    decreases request.rewrite_scope.node_creations.len() - i,
{
    if i < request.rewrite_scope.node_creations.len() {
        let path = request.rewrite_scope.node_creations[i].relative_path;
        if let Ok(replacement) = request.clean_replacement(path) {
            let markdown = match replacement {
                Some(text) => text,
                None => "# "@ + title_from_name(path) + "\n"@,
            };
            assert(request.names_path(path));
            fair_write(request, start, files, path, markdown);
            let (next, problem) = request.write(files, path, markdown);
            if problem is None {
                let told = reports.with_changed(
                    path,
                    None,
                    RefineChangedFileKind::Created,
                );
                fair_creations(request, start, next, i + 1, told);
                fair_steps(
                    request,
                    start,
                    files,
                    next,
                    request.created_from(next, i + 1, told).0,
                );
            }
        }
    }
}

proof fn fair_removals(
    request: RefineRewriteRequestModel,
    start: Map<Seq<char>, FileContentModel>,
    files: PlanFilesModel,
    i: int,
    reports: MutationReportsModel,
)
    requires
        0 <= i,
    ensures
        request.is_fair_step(start, files, request.removed_from(files, i, reports).0),
    decreases request.rewrite_scope.node_removals.len() - i,
{
    if i < request.rewrite_scope.node_removals.len() {
        let removal = request.rewrite_scope.node_removals[i];
        let path = removal.relative_path;
        assert(request.names_path(path));
        if files.has_grown_from(start) {
            removals_are_told(files, start, path);
        }
        let (next, problem) = if files.is_present(path) {
            files.remove(path)
        } else {
            (files, None)
        };
        assert(request.leaves_others(files, next)) by {
            assert forall|key: Seq<char>|
                #![trigger request.names_key(key)]
                !request.names_key(key) implies (files.contents.contains_key(key)
                <==> next.contents.contains_key(key)) && files.contents[key]
                == next.contents[key] by {
                assert(key != path_key(path));
            }
        }
        if problem is None {
            let told = reports.with_changed(
                path,
                removal.node_id,
                RefineChangedFileKind::ExplicitlyRemoved,
            );
            fair_removals(request, start, next, i + 1, told);
            fair_steps(
                request,
                start,
                files,
                next,
                request.removed_from(next, i + 1, told).0,
            );
        }
    }
}

proof fn unique_stale_are_stale(
    all: Seq<RefineStaleDescendantModel>,
    i: int,
    acc: Seq<RefineStaleDescendantModel>,
)
    requires
        0 <= i <= all.len(),
        forall|k: int| 0 <= k < acc.len() ==> is_stale(all, (#[trigger] acc[k]).relative_path),
        forall|k: int, m: int|
            0 <= k < m < acc.len() ==> (#[trigger] acc[k]).relative_path != (
            #[trigger] acc[m]).relative_path,
    ensures
        forall|k: int|
            0 <= k < unique_stale_from(all, i, acc).len() ==> is_stale(
                all,
                (#[trigger] unique_stale_from(all, i, acc)[k]).relative_path,
            ),
        forall|k: int, m: int|
            0 <= k < m < unique_stale_from(all, i, acc).len() ==> (#[trigger] unique_stale_from(
                all,
                i,
                acc,
            )[k]).relative_path != (#[trigger] unique_stale_from(all, i, acc)[m]).relative_path,
    decreases all.len() - i,
{
    if i < all.len() {
        let next = with_stale_node(acc, all[i]);
        stale_index_is_found(acc, all[i].relative_path, 0);
        assert(is_stale(all, all[i].relative_path));
        assert forall|k: int| 0 <= k < next.len() implies is_stale(
            all,
            (#[trigger] next[k]).relative_path,
        ) by {
            if k < acc.len() {
                assert(next[k].relative_path == acc[k].relative_path);
            }
        }
        assert forall|k: int, m: int| 0 <= k < m < next.len() implies (
        #[trigger] next[k]).relative_path != (#[trigger] next[m]).relative_path by {
            assert(next[k].relative_path == acc[k].relative_path);
            if m < acc.len() {
                assert(next[m].relative_path == acc[m].relative_path);
            }
        }
        unique_stale_are_stale(all, i + 1, next);
    }
}

/// A node to mark is found by its path exactly where there is one.
pub proof fn stale_index_is_found(acc: Seq<RefineStaleDescendantModel>, path: Seq<char>, i: int)
    requires
        0 <= i <= acc.len(),
    ensures
        match stale_index_from(acc, path, i) {
            Some(k) => i <= k < acc.len() && acc[k].relative_path == path,
            None => forall|k: int|
                i <= k < acc.len() ==> (#[trigger] acc[k]).relative_path != path,
        },
    decreases acc.len() - i,
{
    if i < acc.len() && acc[i].relative_path != path {
        stale_index_is_found(acc, path, i + 1);
    }
}

/// No node is marked twice, and no node but those that are to be marked.
pub proof fn stale_nodes_are_marked_once(stale: Seq<RefineStaleDescendantModel>)
    ensures
        ({
            let marked = unique_stale_from(stale, 0, Seq::empty());
            &&& forall|k: int|
                0 <= k < marked.len() ==> is_stale(stale, (#[trigger] marked[k]).relative_path)
            &&& forall|k: int, m: int|
                0 <= k < m < marked.len() ==> (#[trigger] marked[k]).relative_path != (
                #[trigger] marked[m]).relative_path
        }),
{
    unique_stale_are_stale(stale, 0, Seq::empty());
}

proof fn fair_marks(
    request: RefineRewriteRequestModel,
    start: Map<Seq<char>, FileContentModel>,
    files: PlanFilesModel,
    payloads: Seq<(Seq<char>, Seq<char>)>,
    stale: Seq<RefineStaleDescendantModel>,
    i: int,
    reports: MutationReportsModel,
)
    requires
        0 <= i,
        forall|k: int|
            0 <= k < stale.len() ==> is_stale(
                request.rewrite_scope.stale_descendants,
                (#[trigger] stale[k]).relative_path,
            ),
    ensures
        request.is_fair_step(
            start,
            files,
            request.marked_from(files, payloads, stale, i, reports).0,
        ),
    decreases stale.len() - i,
{
    if i < stale.len() {
        let path = stale[i].relative_path;
        if files.is_file(path) {
            if let Ok(markdown) = request.clean_or_disk(files, payloads, path) {
                let marked = marked_stale(markdown, stale[i].reason);
                assert(request.names_path(path));
                fair_write(request, start, files, path, marked);
                let (next, problem) = request.write(files, path, marked);
                if problem is None {
                    let told = reports.with_stale(path, stale[i].node_id, stale[i].reason);
                    fair_marks(request, start, next, payloads, stale, i + 1, told);
                    fair_steps(
                        request,
                        start,
                        files,
                        next,
                        request.marked_from(next, payloads, stale, i + 1, told).0,
                    );
                }
            }
        }
    }
}

// ---------------------------------------------------------------------
// Merged link changes
// ---------------------------------------------------------------------
/// The change of a parent is found by its path exactly where there is one.
pub proof fn merged_index_is_found(
    merged: Seq<MergedLinkChangeModel>,
    parent: Seq<char>,
    i: int,
)
    requires
        0 <= i <= merged.len(),
    ensures
        match merged_index_from(merged, parent, i) {
            Some(k) => i <= k < merged.len() && merged[k].parent_relative_path == parent,
            None => forall|k: int|
                i <= k < merged.len() ==> (#[trigger] merged[k]).parent_relative_path != parent,
        },
    decreases merged.len() - i,
{
    if i < merged.len() && merged[i].parent_relative_path != parent {
        merged_index_is_found(merged, parent, i + 1);
    }
}

/// The change is of a parent that the request names, and names no child twice.
pub open spec fn is_tidy_change(
    changes: Seq<RefineLinkChangeModel>,
    change: MergedLinkChangeModel,
) -> bool {
    &&& is_relinked(changes, change.parent_relative_path)
    &&& change.add_child_relative_paths.no_duplicates()
    &&& change.remove_child_relative_paths.no_duplicates()
}

/// The changes are tidy, and none is of the same parent as another.
pub open spec fn are_tidy_changes(
    changes: Seq<RefineLinkChangeModel>,
    merged: Seq<MergedLinkChangeModel>,
) -> bool {
    &&& forall|k: int| 0 <= k < merged.len() ==> is_tidy_change(changes, #[trigger] merged[k])
    &&& forall|k: int, m: int|
        0 <= k < m < merged.len() ==> (#[trigger] merged[k]).parent_relative_path != (
        #[trigger] merged[m]).parent_relative_path
}

/// A child that the parent is to gain stands in the merged changes.
pub open spec fn has_addition(
    merged: Seq<MergedLinkChangeModel>,
    parent: Seq<char>,
    child: Seq<char>,
) -> bool {
    exists|k: int|
        0 <= k < merged.len() && (#[trigger] merged[k]).parent_relative_path == parent
            && merged[k].add_child_relative_paths.contains(child)
}

/// A child that the parent is to lose stands in the merged changes.
pub open spec fn has_removal(
    merged: Seq<MergedLinkChangeModel>,
    parent: Seq<char>,
    child: Seq<char>,
) -> bool {
    exists|k: int|
        0 <= k < merged.len() && (#[trigger] merged[k]).parent_relative_path == parent
            && merged[k].remove_child_relative_paths.contains(child)
}

proof fn merging_one_change(
    changes: Seq<RefineLinkChangeModel>,
    merged: Seq<MergedLinkChangeModel>,
    change: RefineLinkChangeModel,
)
    requires
        are_tidy_changes(changes, merged),
        is_relinked(changes, change.parent_relative_path),
    ensures
        are_tidy_changes(changes, with_link_change(merged, change)),
        forall|parent: Seq<char>, child: Seq<char>|
            #![trigger has_addition(with_link_change(merged, change), parent, child)]
            has_addition(with_link_change(merged, change), parent, child) <==> has_addition(
                merged,
                parent,
                child,
            ) || (parent == change.parent_relative_path
                && change.add_child_relative_paths.contains(child)),
        forall|parent: Seq<char>, child: Seq<char>|
            #![trigger has_removal(with_link_change(merged, change), parent, child)]
            has_removal(with_link_change(merged, change), parent, child) <==> has_removal(
                merged,
                parent,
                child,
            ) || (parent == change.parent_relative_path
                && change.remove_child_relative_paths.contains(child)),
{
    let next = with_link_change(merged, change);
    let home = change.parent_relative_path;
    let none = Seq::<Seq<char>>::empty();
    merged_index_is_found(merged, home, 0);
    all_taken_up(none, change.add_child_relative_paths);
    all_taken_up(none, change.remove_child_relative_paths);
    let at = match merged_index_from(merged, home, 0) {
        Some(k) => k,
        None => merged.len() as int,
    };
    if at < merged.len() {
        assert(is_tidy_change(changes, merged[at]));
        all_taken_up(merged[at].add_child_relative_paths, change.add_child_relative_paths);
        all_taken_up(
            merged[at].remove_child_relative_paths,
            change.remove_child_relative_paths,
        );
    }
    assert(next[at].parent_relative_path == home);
    assert(is_tidy_change(changes, next[at]));
    assert forall|k: int| 0 <= k < next.len() implies is_tidy_change(
        changes,
        #[trigger] next[k],
    ) by {
        if k != at {
            assert(next[k] == merged[k]);
        }
    }
    assert forall|k: int, m: int| 0 <= k < m < next.len() implies (
    #[trigger] next[k]).parent_relative_path != (#[trigger] next[m]).parent_relative_path by {
        if k != at {
            assert(next[k] == merged[k]);
        }
        if m != at {
            assert(next[m] == merged[m]);
        }
        if at < merged.len() {
            assert(merged[k].parent_relative_path != merged[m].parent_relative_path);
        }
    }
    assert forall|parent: Seq<char>, child: Seq<char>|
        #![trigger has_addition(next, parent, child)]
        has_addition(next, parent, child) <==> has_addition(merged, parent, child) || (parent
            == home && change.add_child_relative_paths.contains(child)) by {
        if has_addition(next, parent, child) {
            let k = choose|k: int|
                0 <= k < next.len() && (#[trigger] next[k]).parent_relative_path == parent
                    && next[k].add_child_relative_paths.contains(child);
            if k != at {
                assert(next[k] == merged[k]);
            } else if at < merged.len() && merged[at].add_child_relative_paths.contains(child) {
                assert(merged[at].parent_relative_path == parent);
            }
        }
        if has_addition(merged, parent, child) {
            let k = choose|k: int|
                0 <= k < merged.len() && (#[trigger] merged[k]).parent_relative_path == parent
                    && merged[k].add_child_relative_paths.contains(child);
            assert(next[k].parent_relative_path == parent);
        }
        if parent == home && change.add_child_relative_paths.contains(child) {
            assert(next[at].add_child_relative_paths.contains(child));
        }
    }
    assert forall|parent: Seq<char>, child: Seq<char>|
        #![trigger has_removal(next, parent, child)]
        has_removal(next, parent, child) <==> has_removal(merged, parent, child) || (parent == home
            && change.remove_child_relative_paths.contains(child)) by {
        if has_removal(next, parent, child) {
            let k = choose|k: int|
                0 <= k < next.len() && (#[trigger] next[k]).parent_relative_path == parent
                    && next[k].remove_child_relative_paths.contains(child);
            if k != at {
                assert(next[k] == merged[k]);
            } else if at < merged.len() && merged[at].remove_child_relative_paths.contains(
                child,
            ) {
                assert(merged[at].parent_relative_path == parent);
            }
        }
        if has_removal(merged, parent, child) {
            let k = choose|k: int|
                0 <= k < merged.len() && (#[trigger] merged[k]).parent_relative_path == parent
                    && merged[k].remove_child_relative_paths.contains(child);
            assert(next[k].parent_relative_path == parent);
        }
        if parent == home && change.remove_child_relative_paths.contains(child) {
            assert(next[at].remove_child_relative_paths.contains(child));
        }
    }
}

/// One of the changes from `i` on adds the child to the parent.
pub open spec fn adds_child(
    changes: Seq<RefineLinkChangeModel>,
    parent: Seq<char>,
    child: Seq<char>,
    i: int,
) -> bool {
    exists|k: int|
        i <= k < changes.len() && (#[trigger] changes[k]).parent_relative_path == parent
            && changes[k].add_child_relative_paths.contains(child)
}

/// One of the changes from `i` on takes the child from the parent.
pub open spec fn removes_child(
    changes: Seq<RefineLinkChangeModel>,
    parent: Seq<char>,
    child: Seq<char>,
    i: int,
) -> bool {
    exists|k: int|
        i <= k < changes.len() && (#[trigger] changes[k]).parent_relative_path == parent
            && changes[k].remove_child_relative_paths.contains(child)
}

/// Merging keeps the changes apart by parent, and loses and adds none.
pub proof fn merging_all_changes(
    changes: Seq<RefineLinkChangeModel>,
    i: int,
    acc: Seq<MergedLinkChangeModel>,
)
    requires
        0 <= i <= changes.len(),
        are_tidy_changes(changes, acc),
    ensures
        are_tidy_changes(changes, merged_from(changes, i, acc)),
        forall|parent: Seq<char>, child: Seq<char>|
            #![trigger has_addition(merged_from(changes, i, acc), parent, child)]
            has_addition(merged_from(changes, i, acc), parent, child) <==> has_addition(
                acc,
                parent,
                child,
            ) || adds_child(changes, parent, child, i),
        forall|parent: Seq<char>, child: Seq<char>|
            #![trigger has_removal(merged_from(changes, i, acc), parent, child)]
            has_removal(merged_from(changes, i, acc), parent, child) <==> has_removal(
                acc,
                parent,
                child,
            ) || removes_child(changes, parent, child, i),
    decreases changes.len() - i,
{
    if i < changes.len() {
        let next = with_link_change(acc, changes[i]);
        let out = merged_from(changes, i, acc);
        assert(is_relinked(changes, changes[i].parent_relative_path));
        merging_one_change(changes, acc, changes[i]);
        merging_all_changes(changes, i + 1, next);
        assert(out == merged_from(changes, i + 1, next));
        assert forall|parent: Seq<char>, child: Seq<char>|
            #![trigger has_addition(out, parent, child)]
            has_addition(out, parent, child) <==> has_addition(acc, parent, child) || adds_child(
                changes,
                parent,
                child,
                i,
            ) by {
            assert(has_addition(next, parent, child) <==> has_addition(acc, parent, child) || (
            parent == changes[i].parent_relative_path
                && changes[i].add_child_relative_paths.contains(child)));
            if adds_child(changes, parent, child, i + 1) {
                let k = choose|k: int|
                    i + 1 <= k < changes.len() && (#[trigger] changes[k]).parent_relative_path
                        == parent && changes[k].add_child_relative_paths.contains(child);
                assert(changes[k].parent_relative_path == parent);
            }
        }
        assert forall|parent: Seq<char>, child: Seq<char>|
            #![trigger has_removal(out, parent, child)]
            has_removal(out, parent, child) <==> has_removal(acc, parent, child) || removes_child(
                changes,
                parent,
                child,
                i,
            ) by {
            assert(has_removal(next, parent, child) <==> has_removal(acc, parent, child) || (parent
                == changes[i].parent_relative_path
                && changes[i].remove_child_relative_paths.contains(child)));
            if removes_child(changes, parent, child, i + 1) {
                let k = choose|k: int|
                    i + 1 <= k < changes.len() && (#[trigger] changes[k]).parent_relative_path
                        == parent && changes[k].remove_child_relative_paths.contains(child);
                assert(changes[k].parent_relative_path == parent);
            }
        }
    }
}

/// Merging link changes loses none and adds none: each parent stands once, with
/// each child once that one of the changes gives to it or takes from it, and no
/// parent gains a child that it loses.
pub proof fn merged_changes_are_the_changes(changes: Seq<RefineLinkChangeModel>)
    ensures
        merged_changes(changes) matches Some(merged) ==> {
            &&& are_tidy_changes(changes, merged)
            &&& forall|parent: Seq<char>, child: Seq<char>|
                #![trigger has_addition(merged, parent, child)]
                has_addition(merged, parent, child) <==> adds_child(changes, parent, child, 0)
            &&& forall|parent: Seq<char>, child: Seq<char>|
                #![trigger has_removal(merged, parent, child)]
                has_removal(merged, parent, child) <==> removes_child(changes, parent, child, 0)
            &&& forall|k: int| 0 <= k < merged.len() ==> is_consistent(#[trigger] merged[k])
        },
{
    merging_all_changes(changes, 0, Seq::empty());
}

proof fn fair_relinks(
    request: RefineRewriteRequestModel,
    start: Map<Seq<char>, FileContentModel>,
    files: PlanFilesModel,
    payloads: Seq<(Seq<char>, Seq<char>)>,
    merged: Seq<MergedLinkChangeModel>,
    i: int,
    reports: MutationReportsModel,
)
    requires
        0 <= i,
        are_tidy_changes(request.rewrite_scope.link_changes, merged),
    ensures
        request.is_fair_step(
            start,
            files,
            request.relinked_from(files, payloads, merged, i, reports).0,
        ),
    decreases merged.len() - i,
{
    if i < merged.len() {
        let parent = merged[i].parent_relative_path;
        let (next, result) = request.relinked(files, payloads, merged[i]);
        assert(is_tidy_change(request.rewrite_scope.link_changes, merged[i]));
        assert(request.names_path(parent));
        assert(request.is_fair_step(start, files, next)) by {
            if next != files {
                let markdown = request.parent_markdown(files, payloads, parent)->Ok_0;
                let rows = link_rows(parent, markdown)->Ok_0;
                let removed = linked_from(
                    rows,
                    merged[i].remove_child_relative_paths,
                    0,
                    Seq::empty(),
                );
                let kept = kept_rows_from(rows, removed, 0, Seq::empty());
                let added = unlinked_from(
                    row_paths(kept),
                    merged[i].add_child_relative_paths,
                    0,
                    Seq::empty(),
                );
                let lines = request.added_rows_from(files, parent, added, 0, row_lines(kept))->Ok_0;
                fair_write(request, start, files, parent, with_child_section(markdown, lines));
            }
        }
        if let Ok(mutation) = result {
            let told = match mutation {
                Some(mutation) => reports.with_relinked(mutation),
                None => reports,
            };
            fair_relinks(request, start, next, payloads, merged, i + 1, told);
            fair_steps(
                request,
                start,
                files,
                next,
                request.relinked_from(next, payloads, merged, i + 1, told).0,
            );
        }
    }
}

// ---------------------------------------------------------------------
// The laws
// ---------------------------------------------------------------------
/// A rewrite that is refused writes nothing.
pub proof fn refused_rewrite_writes_nothing(
    request: RefineRewriteRequestModel,
    files: PlanFilesModel,
)
    ensures
        request.problem(files) matches Some(error) ==> request.applied(files) == (
            files,
            Err::<RefineRewriteResultModel, RefineRewriteErrorModel>(error),
        ),
{
}

/// Whatever comes of a rewrite, no file changes that the request does not
/// speak of, and the operations tell of every change.
pub proof fn rewrite_touches_only_named_files(
    request: RefineRewriteRequestModel,
    files: PlanFilesModel,
    start: Map<Seq<char>, FileContentModel>,
)
    ensures
        request.is_fair_step(start, files, request.applied(files).0),
{
    if request.problem(files) is None {
        let paths = request.cleanup_paths();
        fair_cleanup(request, start, files, 0, Seq::empty());
        let (files1, cleaned) = request.cleaned_from(files, paths, 0, Seq::empty());
        if let Ok(payloads) = cleaned {
            let none = MutationReportsModel::empty();
            fair_rewrites(request, start, files1, payloads, 0, none);
            let (files2, rewritten) = request.rewritten_from(files1, payloads, 0, none);
            fair_steps(request, start, files, files1, files2);
            if let Ok(reports2) = rewritten {
                fair_creations(request, start, files2, 0, reports2);
                let (files3, created) = request.created_from(files2, 0, reports2);
                fair_steps(request, start, files, files2, files3);
                if let Ok(reports3) = created {
                    fair_removals(request, start, files3, 0, reports3);
                    let (files4, removed) = request.removed_from(files3, 0, reports3);
                    fair_steps(request, start, files, files3, files4);
                    if let Ok(reports4) = removed {
                        fair_last_steps(request, start, files4, payloads, reports4);
                        fair_steps(
                            request,
                            start,
                            files,
                            files4,
                            request.last_steps(files4, payloads, reports4).0,
                        );
                    }
                }
            }
        }
    }
}

proof fn fair_last_steps(
    request: RefineRewriteRequestModel,
    start: Map<Seq<char>, FileContentModel>,
    files: PlanFilesModel,
    payloads: Seq<(Seq<char>, Seq<char>)>,
    reports: MutationReportsModel,
)
    ensures
        request.is_fair_step(start, files, request.last_steps(files, payloads, reports).0),
{
    let stale = unique_stale_from(request.rewrite_scope.stale_descendants, 0, Seq::empty());
    stale_nodes_are_marked_once(request.rewrite_scope.stale_descendants);
    fair_marks(request, start, files, payloads, stale, 0, reports);
    let (files1, marked) = request.marked_from(files, payloads, stale, 0, reports);
    if let Ok(reports1) = marked {
        merged_changes_are_the_changes(request.rewrite_scope.link_changes);
        if let Some(merged) = merged_changes(request.rewrite_scope.link_changes) {
            fair_relinks(request, start, files1, payloads, merged, 0, reports1);
            fair_steps(
                request,
                start,
                files,
                files1,
                request.relinked_from(files1, payloads, merged, 0, reports1).0,
            );
        }
    }
}

proof fn headings_are_there(
    request: RefineRewriteRequestModel,
    files: PlanFilesModel,
    paths: Seq<Seq<char>>,
    i: int,
)
    requires
        0 <= i <= paths.len(),
        request.heading_problem_from(files, paths, i) is None,
    ensures
        forall|k: int|
            i <= k < paths.len() && files.is_present(#[trigger] paths[k]) ==> files.read(
                paths[k],
            ) is Ok && has_heading(files.read(paths[k])->Ok_0),
    decreases paths.len() - i,
{
    if i < paths.len() {
        headings_are_there(request, files, paths, i + 1);
    }
}

/// Every link of the parent leads to a file.
pub open spec fn links_lead_to_files(files: PlanFilesModel, parent: Seq<char>) -> bool {
    &&& files.read(parent) is Ok
    &&& link_rows(parent, files.read(parent)->Ok_0) is Ok
    &&& forall|k: int|
        0 <= k < link_rows(parent, files.read(parent)->Ok_0)->Ok_0.len() ==> files.is_file(
            (#[trigger] link_rows(parent, files.read(parent)->Ok_0)->Ok_0[k]).canonical_path,
        )
}

proof fn no_broken_row(files: PlanFilesModel, rows: Seq<ChildLinkRowModel>, i: int)
    requires
        0 <= i <= rows.len(),
        broken_row_from(files, rows, i) is None,
    ensures
        forall|k: int| i <= k < rows.len() ==> files.is_file((#[trigger] rows[k]).canonical_path),
    decreases rows.len() - i,
{
    if i < rows.len() {
        no_broken_row(files, rows, i + 1);
    }
}

proof fn links_are_there(
    request: RefineRewriteRequestModel,
    files: PlanFilesModel,
    parents: Seq<Seq<char>>,
    i: int,
)
    requires
        0 <= i <= parents.len(),
        request.link_problem_from(files, parents, i) is None,
    ensures
        forall|k: int|
            i <= k < parents.len() && files.is_file(#[trigger] parents[k]) ==> links_lead_to_files(
                files,
                parents[k],
            ),
    decreases parents.len() - i,
{
    if i < parents.len() {
        links_are_there(request, files, parents, i + 1);
        if files.is_file(parents[i]) {
            let markdown = request.read(files, parents[i])->Ok_0;
            no_broken_row(files, link_rows(parents[i], markdown)->Ok_0, 0);
        }
    }
}

/// After a rewrite that is accepted, every target and every new node that is
/// there has a heading, and every link of a parent whose links were to change
/// leads to a file.
pub proof fn rewritten_plan_is_whole(request: RefineRewriteRequestModel, files: PlanFilesModel)
    ensures
        ({
            let (next, result) = request.applied(files);
            let scope = request.rewrite_scope;
            result is Ok ==> {
                &&& forall|k: int|
                    0 <= k < scope.rewrite_targets.len() && next.is_present(
                        (#[trigger] scope.rewrite_targets[k]).relative_path,
                    ) ==> next.read(scope.rewrite_targets[k].relative_path) is Ok && has_heading(
                        next.read(scope.rewrite_targets[k].relative_path)->Ok_0,
                    )
                &&& forall|k: int|
                    0 <= k < scope.node_creations.len() && next.is_present(
                        (#[trigger] scope.node_creations[k]).relative_path,
                    ) ==> next.read(scope.node_creations[k].relative_path) is Ok && has_heading(
                        next.read(scope.node_creations[k].relative_path)->Ok_0,
                    )
                &&& forall|k: int|
                    0 <= k < scope.link_changes.len() && next.is_file(
                        (#[trigger] scope.link_changes[k]).parent_relative_path,
                    ) ==> links_lead_to_files(next, scope.link_changes[k].parent_relative_path)
            }
        }),
{
    let (next, result) = request.applied(files);
    let scope = request.rewrite_scope;
    if result is Ok {
        let targets = target_paths(scope.rewrite_targets);
        let paths = targets + creation_paths(scope.node_creations);
        let parents = relinked_paths(scope.link_changes);
        headings_are_there(request, next, paths, 0);
        links_are_there(request, next, parents, 0);
        assert forall|k: int|
            0 <= k < scope.rewrite_targets.len() && next.is_present(
                (#[trigger] scope.rewrite_targets[k]).relative_path,
            ) implies next.read(scope.rewrite_targets[k].relative_path) is Ok && has_heading(
            next.read(scope.rewrite_targets[k].relative_path)->Ok_0,
        ) by {
            assert(paths[k] == scope.rewrite_targets[k].relative_path);
        }
        assert forall|k: int|
            0 <= k < scope.node_creations.len() && next.is_present(
                (#[trigger] scope.node_creations[k]).relative_path,
            ) implies next.read(scope.node_creations[k].relative_path) is Ok && has_heading(
            next.read(scope.node_creations[k].relative_path)->Ok_0,
        ) by {
            assert(paths[targets.len() + k] == scope.node_creations[k].relative_path);
        }
        assert forall|k: int|
            0 <= k < scope.link_changes.len() && next.is_file(
                (#[trigger] scope.link_changes[k]).parent_relative_path,
            ) implies links_lead_to_files(next, scope.link_changes[k].parent_relative_path) by {
            assert(parents[k] == scope.link_changes[k].parent_relative_path);
        }
    }
}

// ---------------------------------------------------------------------
// What a parent links after its links changed
// ---------------------------------------------------------------------
/// The title of the child's file stands in a link as it is, and so does the
/// way to the child.
pub open spec fn is_linkable(files: PlanFilesModel, child: Seq<char>) -> bool {
    &&& is_plan_markdown(child)
    &&& lacks(child, '#')
    &&& lacks(child, '?')
    &&& lacks(child, ')')
    &&& lacks(child, '\n')
    &&& files.read(child) matches Ok(markdown) ==> !has_text(
        title_of(markdown, title_name(child)),
        "]("@,
    ) && lacks(title_of(markdown, title_name(child)), '\n')
}

/// The row for a child that a parent gains.
pub open spec fn gained_row(
    files: PlanFilesModel,
    parent: Seq<char>,
    child: Seq<char>,
) -> ChildLinkRowModel {
    ChildLinkRowModel {
        canonical_path: path_key(child),
        rendered_line: rendered_link(
            title_of(files.read(child)->Ok_0, title_name(child)),
            relative_url(parent, child),
        ),
    }
}

/// The rows for the children that a parent gains.
pub open spec fn gained_rows(
    files: PlanFilesModel,
    parent: Seq<char>,
    children: Seq<Seq<char>>,
) -> Seq<ChildLinkRowModel> {
    Seq::new(children.len(), |i: int| gained_row(files, parent, children[i]))
}

proof fn gained_lines(
    request: RefineRewriteRequestModel,
    files: PlanFilesModel,
    parent: Seq<char>,
    children: Seq<Seq<char>>,
    i: int,
    acc: Seq<Seq<char>>,
)
    requires
        0 <= i <= children.len(),
    ensures
        request.added_rows_from(files, parent, children, i, acc) matches Ok(lines) ==> lines == acc
            + written_rows(gained_rows(files, parent, children)).skip(i) && forall|k: int|
            i <= k < children.len() ==> files.read(#[trigger] children[k]) is Ok,
    decreases children.len() - i,
{
    let gained = written_rows(gained_rows(files, parent, children));
    if i < children.len() {
        if let Ok(markdown) = files.read(children[i]) {
            let line = rendered_link(
                title_of(markdown, title_name(children[i])),
                relative_url(parent, children[i]),
            );
            assert(gained[i] == line);
            gained_lines(request, files, parent, children, i + 1, acc.push(line));
            assert(acc.push(line) + gained.skip(i + 1) =~= acc + gained.skip(i));
        }
    } else {
        assert(acc + gained.skip(i) =~= acc);
    }
}

proof fn read_rows_read_back(
    parent: Seq<char>,
    lines: Seq<Seq<char>>,
    i: int,
    end: int,
    acc: Seq<ChildLinkRowModel>,
)
    requires
        0 <= i,
        end <= lines.len(),
        forall|k: int| 0 <= k < lines.len() ==> is_line(#[trigger] lines[k]),
        forall|k: int| 0 <= k < acc.len() ==> reads_back(parent, #[trigger] acc[k]),
    ensures
        link_rows_from(parent, lines, i, end, acc) matches Ok(rows) ==> forall|k: int|
            0 <= k < rows.len() ==> reads_back(parent, #[trigger] rows[k]),
    decreases end - i,
{
    if i < end {
        assert(is_line(lines[i]));
        links_that_were_read_read_back(parent, lines[i]);
        match link_row(parent, lines[i]) {
            Ok(Some(row)) => {
                read_rows_read_back(parent, lines, i + 1, end, acc.push(row));
            },
            Ok(None) => {
                read_rows_read_back(parent, lines, i + 1, end, acc);
            },
            Err(_) => {},
        }
    }
}

proof fn links_of_parent_read_back(parent: Seq<char>, markdown: Seq<char>)
    ensures
        link_rows(parent, markdown) matches Ok(rows) ==> forall|k: int|
            0 <= k < rows.len() ==> reads_back(parent, #[trigger] rows[k]),
{
    let lines = lines_of(markdown);
    lines_are_lines(markdown);
    heading_is_first(lines, 0);
    if let Some((heading, end)) = child_section(lines) {
        section_end_is_first(lines, heading + 1);
        read_rows_read_back(parent, lines, heading + 1, end, Seq::empty());
    }
}

proof fn kept_rows_are_rows(
    rows: Seq<ChildLinkRowModel>,
    removed: Seq<Seq<char>>,
    i: int,
    acc: Seq<ChildLinkRowModel>,
)
    requires
        0 <= i <= rows.len(),
        forall|k: int|
            0 <= k < acc.len() ==> rows.contains(#[trigger] acc[k]) && !removed.contains(
                acc[k].canonical_path,
            ),
    ensures
        forall|k: int|
            0 <= k < kept_rows_from(rows, removed, i, acc).len() ==> rows.contains(
                #[trigger] kept_rows_from(rows, removed, i, acc)[k],
            ) && !removed.contains(kept_rows_from(rows, removed, i, acc)[k].canonical_path),
    decreases rows.len() - i,
{
    if i < rows.len() {
        if removed.contains(rows[i].canonical_path) {
            kept_rows_are_rows(rows, removed, i + 1, acc);
            assert(kept_rows_from(rows, removed, i, acc) == kept_rows_from(
                rows,
                removed,
                i + 1,
                acc,
            ));
        } else {
            let more = acc.push(rows[i]);
            assert forall|k: int| 0 <= k < more.len() implies rows.contains(#[trigger] more[k])
                && !removed.contains(more[k].canonical_path) by {
                if k < acc.len() {
                    assert(more[k] == acc[k]);
                }
            }
            kept_rows_are_rows(rows, removed, i + 1, more);
            assert(kept_rows_from(rows, removed, i, acc) == kept_rows_from(
                rows,
                removed,
                i + 1,
                more,
            ));
        }
    }
}

proof fn linked_children_are_found(
    rows: Seq<ChildLinkRowModel>,
    children: Seq<Seq<char>>,
    i: int,
    acc: Seq<Seq<char>>,
)
    requires
        0 <= i <= children.len(),
    ensures
        forall|k: int|
            0 <= k < acc.len() ==> linked_from(rows, children, i, acc).contains(#[trigger] acc[k]),
        forall|k: int|
            i <= k < children.len() && row_paths(rows).contains(#[trigger] children[k])
                ==> linked_from(rows, children, i, acc).contains(children[k]),
    decreases children.len() - i,
{
    let out = linked_from(rows, children, i, acc);
    if i < children.len() {
        if row_paths(rows).contains(children[i]) {
            let more = acc.push(children[i]);
            linked_children_are_found(rows, children, i + 1, more);
            assert(more[acc.len() as int] == children[i]);
            assert forall|k: int| 0 <= k < acc.len() implies out.contains(#[trigger] acc[k]) by {
                assert(more[k] == acc[k]);
            }
        } else {
            linked_children_are_found(rows, children, i + 1, acc);
        }
    } else {
        assert forall|k: int| 0 <= k < acc.len() implies out.contains(#[trigger] acc[k]) by {}
    }
}

proof fn unlinked_children_are_found(
    linked: Seq<Seq<char>>,
    children: Seq<Seq<char>>,
    i: int,
    acc: Seq<Seq<char>>,
)
    requires
        0 <= i <= children.len(),
        forall|k: int| 0 <= k < acc.len() ==> children.contains(#[trigger] acc[k]),
    ensures
        forall|k: int|
            0 <= k < acc.len() ==> unlinked_from(linked, children, i, acc).contains(
                #[trigger] acc[k],
            ),
        forall|k: int|
            0 <= k < unlinked_from(linked, children, i, acc).len() ==> children.contains(
                #[trigger] unlinked_from(linked, children, i, acc)[k],
            ),
        forall|k: int|
            i <= k < children.len() ==> linked.contains(#[trigger] children[k]) || unlinked_from(
                linked,
                children,
                i,
                acc,
            ).contains(children[k]),
    decreases children.len() - i,
{
    let out = unlinked_from(linked, children, i, acc);
    if i < children.len() {
        if linked.contains(children[i]) || acc.contains(children[i]) {
            unlinked_children_are_found(linked, children, i + 1, acc);
            if acc.contains(children[i]) {
                let k = choose|k: int| 0 <= k < acc.len() && acc[k] == children[i];
                assert(out.contains(acc[k]));
            }
        } else {
            let more = acc.push(children[i]);
            unlinked_children_are_found(linked, children, i + 1, more);
            assert(more[acc.len() as int] == children[i]);
            assert(out.contains(more[acc.len() as int]));
            assert forall|k: int| 0 <= k < acc.len() implies out.contains(#[trigger] acc[k]) by {
                assert(more[k] == acc[k]);
            }
        }
    } else {
        assert forall|k: int| 0 <= k < acc.len() implies out.contains(#[trigger] acc[k]) by {}
    }
}

/// The parent links each child that it was to gain.
pub open spec fn links_additions(rows: Seq<ChildLinkRowModel>, change: MergedLinkChangeModel) -> bool {
    forall|k: int|
        0 <= k < change.add_child_relative_paths.len() ==> row_paths(rows).contains(
            #[trigger] change.add_child_relative_paths[k],
        ) || row_paths(rows).contains(path_key(change.add_child_relative_paths[k]))
}

/// The parent links none of the children that it was to lose.
pub open spec fn links_no_removal(rows: Seq<ChildLinkRowModel>, change: MergedLinkChangeModel) -> bool {
    forall|k: int|
        0 <= k < change.remove_child_relative_paths.len() ==> !row_paths(rows).contains(
            #[trigger] change.remove_child_relative_paths[k],
        )
}

/// A parent whose links changed links every child that it was to gain and, where
/// the paths of those children are written as the plan writes them, none that it
/// was to lose.
#[verifier::spinoff_prover]
#[verifier::rlimit(80)]
pub proof fn changed_parent_links_what_was_asked(
    request: RefineRewriteRequestModel,
    files: PlanFilesModel,
    payloads: Seq<(Seq<char>, Seq<char>)>,
    change: MergedLinkChangeModel,
)
    requires
        is_consistent(change),
        forall|k: int|
            0 <= k < change.add_child_relative_paths.len() ==> is_linkable(
                files,
                #[trigger] change.add_child_relative_paths[k],
            ),
    ensures
        ({
            let (next, result) = request.relinked(files, payloads, change);
            let parent = change.parent_relative_path;
            result matches Ok(Some(mutation)) ==> {
                &&& next.read(parent) is Ok
                &&& link_rows(parent, next.read(parent)->Ok_0) is Ok
                &&& links_additions(link_rows(parent, next.read(parent)->Ok_0)->Ok_0, change)
                &&& (forall|k: int|
                    0 <= k < change.add_child_relative_paths.len() ==> path_key(
                        #[trigger] change.add_child_relative_paths[k],
                    ) == change.add_child_relative_paths[k]) ==> links_no_removal(
                    link_rows(parent, next.read(parent)->Ok_0)->Ok_0,
                    change,
                )
            }
        }),
{
    let (next, result) = request.relinked(files, payloads, change);
    let parent = change.parent_relative_path;
    let adds = change.add_child_relative_paths;
    let removes = change.remove_child_relative_paths;
    if result is Ok && result->Ok_0 is Some {
        let markdown = request.parent_markdown(files, payloads, parent)->Ok_0;
        let rows = link_rows(parent, markdown)->Ok_0;
        let removed = linked_from(rows, removes, 0, Seq::empty());
        let kept = kept_rows_from(rows, removed, 0, Seq::empty());
        let added = unlinked_from(row_paths(kept), adds, 0, Seq::empty());
        let lines = request.added_rows_from(files, parent, added, 0, row_lines(kept))->Ok_0;
        let gained = gained_rows(files, parent, added);
        let all = kept + gained;
        links_of_parent_read_back(parent, markdown);
        kept_rows_are_rows(rows, removed, 0, Seq::empty());
        linked_children_are_found(rows, removes, 0, Seq::empty());
        unlinked_children_are_found(row_paths(kept), adds, 0, Seq::empty());
        gained_lines(request, files, parent, added, 0, row_lines(kept));
        assert(is_plan_markdown(parent));
        assert forall|k: int| 0 <= k < all.len() implies reads_back(parent, #[trigger] all[k]) by {
            if k < kept.len() {
                assert(rows.contains(kept[k]));
                let j = choose|j: int| 0 <= j < rows.len() && rows[j] == kept[k];
                assert(reads_back(parent, rows[j]));
            } else {
                let child = added[k - kept.len()];
                assert(adds.contains(child));
                let j = choose|j: int| 0 <= j < adds.len() && adds[j] == child;
                assert(is_linkable(files, adds[j]));
                assert(files.read(child) is Ok);
                new_links_read_back(
                    parent,
                    child,
                    title_of(files.read(child)->Ok_0, title_name(child)),
                );
                assert(all[k] == gained_row(files, parent, child));
            }
        }
        written_links_are_read(parent, markdown, all);
        assert(written_rows(all) =~= lines);
        assert(next.read(parent) == Ok::<Seq<char>, Seq<char>>(with_child_section(markdown, lines)));
        assert forall|k: int| 0 <= k < adds.len() implies row_paths(all).contains(
            #[trigger] adds[k],
        ) || row_paths(all).contains(path_key(adds[k])) by {
            if row_paths(kept).contains(adds[k]) {
                let old_paths = row_paths(kept);
                let j = choose|j: int| 0 <= j < old_paths.len() && old_paths[j] == adds[k];
                assert(row_paths(all)[j] == adds[k]);
            } else {
                let j = choose|j: int| 0 <= j < added.len() && added[j] == adds[k];
                assert(all[kept.len() + j] == gained_row(files, parent, added[j]));
                assert(row_paths(all)[kept.len() + j] == path_key(adds[k]));
            }
        }
        if forall|k: int| 0 <= k < adds.len() ==> path_key(#[trigger] adds[k]) == adds[k] {
            assert forall|k: int| 0 <= k < removes.len() implies !row_paths(all).contains(
                #[trigger] removes[k],
            ) by {
                let paths = row_paths(all);
                if paths.contains(removes[k]) {
                    let j = choose|j: int| 0 <= j < paths.len() && paths[j] == removes[k];
                    if j < kept.len() {
                        assert(all[j] == kept[j]);
                        assert(rows.contains(kept[j]));
                        let m = choose|m: int| 0 <= m < rows.len() && rows[m] == kept[j];
                        assert(row_paths(rows)[m] == removes[k]);
                        assert(removed.contains(removes[k]));
                    } else {
                        let child = added[j - kept.len()];
                        assert(all[j] == gained_row(files, parent, child));
                        assert(adds.contains(child));
                        let m = choose|m: int| 0 <= m < adds.len() && adds[m] == child;
                        assert(path_key(adds[m]) == removes[k]);
                        assert(removes.contains(adds[m]));
                    }
                }
            }
        }
    }
}

} // verus!
