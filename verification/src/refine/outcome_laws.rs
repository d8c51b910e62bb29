//! What an accepted rewrite comes to: what stands at each path that it speaks
//! of, and what it tells of that.
use super::changes::{
    RefineChangedFileKind, RefineChangedFileModel, RefineStaleNodeModel, RefineStructuralChangeKind,
    RefineStructuralChangeModel, RefineUnchangedNodeModel,
};
use super::decision::{RefineDecisionModel, RefineRewriteActionKind};
use super::gate_targets::with_all_unique;
use super::markdown::{
    link_rows, marked_stale, normalized_reason, title_from_name, without_comment_blocks,
    ChildLinkRowModel,
};
use super::rewrite::{
    comment_paths, is_consistent, is_created, is_relinked, is_removed, is_stale, is_target,
    kept_rows_from, linked_from, merged_changes, merged_from, merged_index_from, payload_from,
    preserved_from, preserved_in_from, relinked_paths, replacement_in, row_paths,
    source_paths_from, stale_index_from, stale_paths, target_paths, unique_stale_from,
    unlinked_from, with_link_change, with_stale_node, MergedLinkChangeModel, MutationReportsModel,
};
use super::rewrite_laws::{
    adds_child, changed_parent_links_what_was_asked, has_addition, has_removal, is_linkable,
    is_source, merged_changes_are_the_changes, merged_index_is_found, removes_child,
    stale_index_is_found, stale_nodes_are_marked_once, taken_up_texts_stay_unique,
};
use super::rewrite_types::{
    RefineRewriteErrorModel, RefineRewriteRequestModel, RefineRewriteResultModel,
};
use super::scope::{
    RefineLinkChangeModel, RefineNodeCreationModel, RefineNodeRemovalModel,
    RefineRewriteTargetModel, RefineStaleDescendantModel,
};
use crate::files::{FileContentModel, PlanFilesModel};
use crate::paths::{is_plan_markdown, path_key};
use vstd::prelude::*;

verus! {

// ---------------------------------------------------------------------
// Places
// ---------------------------------------------------------------------
/// The same stands at the place of a path, or nothing does.
pub open spec fn same_at(a: PlanFilesModel, b: PlanFilesModel, path: Seq<char>) -> bool {
    let key = path_key(path);
    &&& a.contents.contains_key(key) == b.contents.contains_key(key)
    &&& a.contents.contains_key(key) ==> a.contents[key] == b.contents[key]
}

/// The text stands at the place of a path.
pub open spec fn holds(files: PlanFilesModel, path: Seq<char>, text: Seq<char>) -> bool {
    &&& files.contents.contains_key(path_key(path))
    &&& files.contents[path_key(path)] == FileContentModel::Text { text }
}

proof fn writes_hold(
    request: RefineRewriteRequestModel,
    files: PlanFilesModel,
    path: Seq<char>,
    text: Seq<char>,
)
    requires
        request.write(files, path, text).1 is None,
    ensures
        holds(request.write(files, path, text).0, path, text),
        is_plan_markdown(path),
        forall|other: Seq<char>|
            #![trigger path_key(other)]
            path_key(other) != path_key(path) ==> same_at(
                files,
                request.write(files, path, text).0,
                other,
            ),
{
}

// ---------------------------------------------------------------------
// The steps, one by one
// ---------------------------------------------------------------------
/// The target is a node whose text is to change.
pub open spec fn is_update(target: RefineRewriteTargetModel) -> bool {
    target.action_kind == RefineRewriteActionKind::UpdateExistingNode
}

proof fn rewrites_leave(
    request: RefineRewriteRequestModel,
    files: PlanFilesModel,
    payloads: Seq<(Seq<char>, Seq<char>)>,
    i: int,
    reports: MutationReportsModel,
    path: Seq<char>,
)
    requires
        0 <= i,
        request.rewritten_from(files, payloads, i, reports).1 is Ok,
        forall|k: int|
            i <= k < request.rewrite_scope.rewrite_targets.len() && is_update(
                #[trigger] request.rewrite_scope.rewrite_targets[k],
            ) ==> path_key(request.rewrite_scope.rewrite_targets[k].relative_path) != path_key(path),
    ensures
        same_at(files, request.rewritten_from(files, payloads, i, reports).0, path),
    decreases request.rewrite_scope.rewrite_targets.len() - i,
{
    let targets = request.rewrite_scope.rewrite_targets;
    if i < targets.len() {
        let target = targets[i];
        let at = target.relative_path;
        if !is_update(target) {
            rewrites_leave(request, files, payloads, i + 1, reports, path);
        } else {
            let text = match request.clean_replacement(at)->Ok_0 {
                Some(text) => Some(text),
                None => payload_from(payloads, at, 0),
            };
            match text {
                None => {
                    rewrites_leave(
                        request,
                        files,
                        payloads,
                        i + 1,
                        reports.with_unchanged(at, target.node_id),
                        path,
                    );
                },
                Some(markdown) => {
                    let next = request.write(files, at, markdown).0;
                    writes_hold(request, files, at, markdown);
                    rewrites_leave(
                        request,
                        next,
                        payloads,
                        i + 1,
                        reports.with_changed(
                            at,
                            target.node_id,
                            RefineChangedFileKind::TextUpdated,
                        ),
                        path,
                    );
                    assert(same_at(files, next, path));
                },
            }
        }
    }
}

proof fn rewrites_hold(
    request: RefineRewriteRequestModel,
    files: PlanFilesModel,
    payloads: Seq<(Seq<char>, Seq<char>)>,
    i: int,
    reports: MutationReportsModel,
    k: int,
)
    requires
        0 <= i <= k < request.rewrite_scope.rewrite_targets.len(),
        is_update(request.rewrite_scope.rewrite_targets[k]),
        request.rewritten_from(files, payloads, i, reports).1 is Ok,
        forall|m: int|
            k < m < request.rewrite_scope.rewrite_targets.len() && is_update(
                #[trigger] request.rewrite_scope.rewrite_targets[m],
            ) ==> path_key(request.rewrite_scope.rewrite_targets[m].relative_path) != path_key(
                request.rewrite_scope.rewrite_targets[k].relative_path,
            ),
    ensures
        ({
            let path = request.rewrite_scope.rewrite_targets[k].relative_path;
            let next = request.rewritten_from(files, payloads, i, reports).0;
            &&& request.clean_replacement(path) is Ok
            &&& match request.clean_replacement(path)->Ok_0 {
                Some(text) => holds(next, path, text),
                None => match payload_from(payloads, path, 0) {
                    Some(text) => holds(next, path, text),
                    None => true,
                },
            }
        }),
    decreases request.rewrite_scope.rewrite_targets.len() - i,
{
    let targets = request.rewrite_scope.rewrite_targets;
    let target = targets[i];
    let at = target.relative_path;
    if !is_update(target) {
        rewrites_hold(request, files, payloads, i + 1, reports, k);
    } else {
        let text = match request.clean_replacement(at)->Ok_0 {
            Some(text) => Some(text),
            None => payload_from(payloads, at, 0),
        };
        match text {
            None => {
                let told = reports.with_unchanged(at, target.node_id);
                if i < k {
                    rewrites_hold(request, files, payloads, i + 1, told, k);
                }
            },
            Some(markdown) => {
                let next = request.write(files, at, markdown).0;
                let told = reports.with_changed(
                    at,
                    target.node_id,
                    RefineChangedFileKind::TextUpdated,
                );
                writes_hold(request, files, at, markdown);
                if i < k {
                    rewrites_hold(request, next, payloads, i + 1, told, k);
                } else {
                    rewrites_leave(request, next, payloads, i + 1, told, at);
                }
            },
        }
    }
}

proof fn creations_leave(
    request: RefineRewriteRequestModel,
    files: PlanFilesModel,
    i: int,
    reports: MutationReportsModel,
    path: Seq<char>,
)
    requires
        0 <= i,
        request.created_from(files, i, reports).1 is Ok,
        forall|k: int|
            i <= k < request.rewrite_scope.node_creations.len() ==> path_key(
                (#[trigger] request.rewrite_scope.node_creations[k]).relative_path,
            ) != path_key(path),
    ensures
        same_at(files, request.created_from(files, i, reports).0, path),
    decreases request.rewrite_scope.node_creations.len() - i,
{
    let creations = request.rewrite_scope.node_creations;
    if i < creations.len() {
        let at = creations[i].relative_path;
        let markdown = creation_text(request, at);
        let next = request.write(files, at, markdown).0;
        writes_hold(request, files, at, markdown);
        creations_leave(
            request,
            next,
            i + 1,
            reports.with_changed(at, None, RefineChangedFileKind::Created),
            path,
        );
        assert(same_at(files, next, path));
    }
}

spec fn creation_text(request: RefineRewriteRequestModel, path: Seq<char>) -> Seq<char> {
    match request.clean_replacement(path)->Ok_0 {
        Some(text) => text,
        None => "# "@ + title_from_name(path) + "\n"@,
    }
}

proof fn creations_hold(
    request: RefineRewriteRequestModel,
    files: PlanFilesModel,
    i: int,
    reports: MutationReportsModel,
    k: int,
)
    requires
        0 <= i <= k < request.rewrite_scope.node_creations.len(),
        request.created_from(files, i, reports).1 is Ok,
    ensures
        ({
            let path = request.rewrite_scope.node_creations[k].relative_path;
            let next = request.created_from(files, i, reports).0;
            &&& request.clean_replacement(path) is Ok
            &&& next.contents.contains_key(path_key(path))
            &&& (forall|m: int|
                k < m < request.rewrite_scope.node_creations.len() ==> path_key(
                    (#[trigger] request.rewrite_scope.node_creations[m]).relative_path,
                ) == path_key(path) ==> request.rewrite_scope.node_creations[m].relative_path
                    == path) ==> holds(next, path, creation_text(request, path))
        }),
    decreases request.rewrite_scope.node_creations.len() - i,
{
    let creations = request.rewrite_scope.node_creations;
    let at = creations[i].relative_path;
    let markdown = creation_text(request, at);
    let next = request.write(files, at, markdown).0;
    let told = reports.with_changed(at, None, RefineChangedFileKind::Created);
    writes_hold(request, files, at, markdown);
    if i < k {
        creations_hold(request, next, i + 1, told, k);
    } else if exists|m: int|
        i < m < creations.len() && path_key((#[trigger] creations[m]).relative_path) == path_key(
            at,
        ) {
        let m = choose|m: int|
            i < m < creations.len() && path_key((#[trigger] creations[m]).relative_path)
                == path_key(at);
        creations_hold(request, next, i + 1, told, m);
        assert(path_key(creations[m].relative_path) == path_key(at));
    } else {
        creations_leave(request, next, i + 1, told, at);
    }
}

proof fn removals_leave(
    request: RefineRewriteRequestModel,
    files: PlanFilesModel,
    i: int,
    reports: MutationReportsModel,
    path: Seq<char>,
)
    requires
        0 <= i,
        request.removed_from(files, i, reports).1 is Ok,
    ensures
        ({
            let next = request.removed_from(files, i, reports).0;
            let removals = request.rewrite_scope.node_removals;
            let key = path_key(path);
            &&& next.contents.contains_key(key) ==> files.contents.contains_key(key)
            &&& (forall|k: int|
                i <= k < removals.len() ==> path_key((#[trigger] removals[k]).relative_path) != key)
                ==> same_at(files, next, path)
        }),
    decreases request.rewrite_scope.node_removals.len() - i,
{
    let removals = request.rewrite_scope.node_removals;
    if i < removals.len() {
        let removal = removals[i];
        let at = removal.relative_path;
        let next = if files.is_present(at) {
            files.remove(at).0
        } else {
            files
        };
        removals_leave(
            request,
            next,
            i + 1,
            reports.with_changed(
                at,
                removal.node_id,
                RefineChangedFileKind::ExplicitlyRemoved,
            ),
            path,
        );
        if path_key(at) != path_key(path) {
            assert(same_at(files, next, path));
        }
    }
}

proof fn removals_remove(
    request: RefineRewriteRequestModel,
    files: PlanFilesModel,
    i: int,
    reports: MutationReportsModel,
    k: int,
)
    requires
        0 <= i <= k < request.rewrite_scope.node_removals.len(),
        request.removed_from(files, i, reports).1 is Ok,
    ensures
        !request.removed_from(files, i, reports).0.is_present(
            request.rewrite_scope.node_removals[k].relative_path,
        ),
    decreases request.rewrite_scope.node_removals.len() - i,
{
    let removals = request.rewrite_scope.node_removals;
    let removal = removals[i];
    let at = removal.relative_path;
    let next = if files.is_present(at) {
        files.remove(at).0
    } else {
        files
    };
    let told = reports.with_changed(
        at,
        removal.node_id,
        RefineChangedFileKind::ExplicitlyRemoved,
    );
    if i < k {
        removals_remove(request, next, i + 1, told, k);
    } else {
        removals_leave(request, next, i + 1, told, at);
        assert(!next.is_present(at));
    }
}

proof fn marks_leave(
    request: RefineRewriteRequestModel,
    files: PlanFilesModel,
    payloads: Seq<(Seq<char>, Seq<char>)>,
    stale: Seq<RefineStaleDescendantModel>,
    i: int,
    reports: MutationReportsModel,
    path: Seq<char>,
)
    requires
        0 <= i,
        request.marked_from(files, payloads, stale, i, reports).1 is Ok,
    ensures
        ({
            let next = request.marked_from(files, payloads, stale, i, reports).0;
            let key = path_key(path);
            &&& next.contents.contains_key(key) == files.contents.contains_key(key)
            &&& (forall|k: int|
                i <= k < stale.len() ==> path_key((#[trigger] stale[k]).relative_path) != key)
                ==> same_at(files, next, path)
        }),
    decreases stale.len() - i,
{
    if i < stale.len() {
        let at = stale[i].relative_path;
        let markdown = request.clean_or_disk(files, payloads, at)->Ok_0;
        let text = marked_stale(markdown, stale[i].reason);
        let next = request.write(files, at, text).0;
        writes_hold(request, files, at, text);
        marks_leave(
            request,
            next,
            payloads,
            stale,
            i + 1,
            reports.with_stale(at, stale[i].node_id, stale[i].reason),
            path,
        );
        if path_key(at) != path_key(path) {
            assert(same_at(files, next, path));
        }
    }
}

proof fn marks_hold(
    request: RefineRewriteRequestModel,
    files: PlanFilesModel,
    payloads: Seq<(Seq<char>, Seq<char>)>,
    stale: Seq<RefineStaleDescendantModel>,
    i: int,
    reports: MutationReportsModel,
    k: int,
)
    requires
        0 <= i <= k < stale.len(),
        request.marked_from(files, payloads, stale, i, reports).1 is Ok,
        forall|m: int|
            i <= m < stale.len() && m != k ==> path_key((#[trigger] stale[m]).relative_path)
                != path_key(stale[k].relative_path),
    ensures
        ({
            let next = request.marked_from(files, payloads, stale, i, reports).0;
            let path = stale[k].relative_path;
            &&& files.is_file(path)
            &&& request.clean_or_disk(files, payloads, path) is Ok
            &&& holds(
                next,
                path,
                marked_stale(
                    request.clean_or_disk(files, payloads, path)->Ok_0,
                    stale[k].reason,
                ),
            )
        }),
    decreases stale.len() - i,
{
    let at = stale[i].relative_path;
    let markdown = request.clean_or_disk(files, payloads, at)->Ok_0;
    let text = marked_stale(markdown, stale[i].reason);
    let next = request.write(files, at, text).0;
    let told = reports.with_stale(at, stale[i].node_id, stale[i].reason);
    writes_hold(request, files, at, text);
    if i < k {
        assert(path_key(stale[i].relative_path) != path_key(stale[k].relative_path));
        assert(same_at(files, next, stale[k].relative_path));
        marks_hold(request, next, payloads, stale, i + 1, told, k);
    } else {
        marks_leave(request, next, payloads, stale, i + 1, told, at);
    }
}

proof fn one_relink_leaves(
    request: RefineRewriteRequestModel,
    files: PlanFilesModel,
    payloads: Seq<(Seq<char>, Seq<char>)>,
    change: MergedLinkChangeModel,
    path: Seq<char>,
)
    requires
        request.relinked(files, payloads, change).1 is Ok,
    ensures
        ({
            let next = request.relinked(files, payloads, change).0;
            let key = path_key(path);
            &&& next.contents.contains_key(key) == files.contents.contains_key(key)
            &&& path_key(change.parent_relative_path) != key ==> same_at(files, next, path)
        }),
{
}

proof fn relinks_leave(
    request: RefineRewriteRequestModel,
    files: PlanFilesModel,
    payloads: Seq<(Seq<char>, Seq<char>)>,
    merged: Seq<MergedLinkChangeModel>,
    i: int,
    reports: MutationReportsModel,
    path: Seq<char>,
)
    requires
        0 <= i,
        request.relinked_from(files, payloads, merged, i, reports).1 is Ok,
    ensures
        ({
            let next = request.relinked_from(files, payloads, merged, i, reports).0;
            let key = path_key(path);
            &&& next.contents.contains_key(key) == files.contents.contains_key(key)
            &&& (forall|k: int|
                i <= k < merged.len() ==> path_key((#[trigger] merged[k]).parent_relative_path)
                    != key) ==> same_at(files, next, path)
        }),
    decreases merged.len() - i,
{
    if i < merged.len() {
        let (next, result) = request.relinked(files, payloads, merged[i]);
        one_relink_leaves(request, files, payloads, merged[i], path);
        let told = match result->Ok_0 {
            None => reports,
            Some(mutation) => reports.with_relinked(mutation),
        };
        relinks_leave(request, next, payloads, merged, i + 1, told, path);
        if path_key(merged[i].parent_relative_path) != path_key(path) {
            assert(same_at(files, next, path));
        }
    }
}

// ---------------------------------------------------------------------
// Comments
// ---------------------------------------------------------------------
proof fn one_payload_more(
    payloads: Seq<(Seq<char>, Seq<char>)>,
    path: Seq<char>,
    at: Seq<char>,
    text: Seq<char>,
    j: int,
)
    requires
        0 <= j <= payloads.len(),
    ensures
        payload_from(payloads.push((at, text)), path, j) == match payload_from(payloads, path, j) {
            Some(found) => Some(found),
            None => if at == path {
                Some(text)
            } else {
                None
            },
        },
    decreases payloads.len() - j,
{
    let more = payloads.push((at, text));
    if j < payloads.len() {
        assert(more[j] == payloads[j]);
        one_payload_more(payloads, path, at, text, j + 1);
    } else {
        assert(more[j] == (at, text));
        assert(payload_from(more, path, j + 1) is None);
    }
}

/// One of the paths from `i` on is this one.
spec fn is_among(paths: Seq<Seq<char>>, i: int, path: Seq<char>) -> bool {
    exists|k: int| i <= k < paths.len() && #[trigger] paths[k] == path
}

proof fn cleaning_keeps_places(
    request: RefineRewriteRequestModel,
    files: PlanFilesModel,
    paths: Seq<Seq<char>>,
    i: int,
    acc: Seq<(Seq<char>, Seq<char>)>,
    path: Seq<char>,
)
    requires
        0 <= i,
        request.cleaned_from(files, paths, i, acc).1 is Ok,
    ensures
        ({
            let (next, done) = request.cleaned_from(files, paths, i, acc);
            &&& next.contents.contains_key(path_key(path)) == files.contents.contains_key(
                path_key(path),
            )
            &&& next.is_file(path) == files.is_file(path)
            &&& payload_from(done->Ok_0, path, 0) is Some <==> payload_from(acc, path, 0) is Some
                || (is_among(paths, i, path) && files.is_file(path))
        }),
    decreases paths.len() - i,
{
    if i < paths.len() {
        let at = paths[i];
        if !files.is_file(at) {
            cleaning_keeps_places(request, files, paths, i + 1, acc, path);
            if is_among(paths, i, path) && files.is_file(path) {
                let k = choose|k: int| i <= k < paths.len() && #[trigger] paths[k] == path;
                assert(paths[k] == path);
            }
        } else {
            let markdown = request.read(files, at)->Ok_0;
            let clean = without_comment_blocks(at, markdown, request.preserved(at))->Ok_0;
            let more = acc.push((at, clean));
            one_payload_more(acc, path, at, clean, 0);
            let next = if clean != markdown && !request.is_mutated_later(at) {
                writes_hold(request, files, at, clean);
                request.write(files, at, clean).0
            } else {
                files
            };
            if path_key(path) != path_key(at) {
                assert(same_at(files, next, path));
            }
            assert(next.is_file(path) == files.is_file(path));
            cleaning_keeps_places(request, next, paths, i + 1, more, path);
            if is_among(paths, i, path) {
                let k = choose|k: int| i <= k < paths.len() && #[trigger] paths[k] == path;
                if k > i {
                    assert(is_among(paths, i + 1, path));
                }
            }
            if at == path {
                assert(is_among(paths, i, path));
            }
            if is_among(paths, i + 1, path) {
                let k = choose|k: int| i + 1 <= k < paths.len() && #[trigger] paths[k] == path;
                assert(paths[k] == path);
            }
        }
    }
}

proof fn cleaning_leaves(
    request: RefineRewriteRequestModel,
    files: PlanFilesModel,
    paths: Seq<Seq<char>>,
    i: int,
    acc: Seq<(Seq<char>, Seq<char>)>,
    path: Seq<char>,
)
    requires
        0 <= i,
        request.cleaned_from(files, paths, i, acc).1 is Ok,
        forall|k: int|
            i <= k < paths.len() && path_key(#[trigger] paths[k]) == path_key(path)
                ==> request.is_mutated_later(paths[k]),
    ensures
        same_at(files, request.cleaned_from(files, paths, i, acc).0, path),
    decreases paths.len() - i,
{
    if i < paths.len() {
        let at = paths[i];
        if !files.is_file(at) {
            cleaning_leaves(request, files, paths, i + 1, acc, path);
        } else {
            let markdown = request.read(files, at)->Ok_0;
            let clean = without_comment_blocks(at, markdown, request.preserved(at))->Ok_0;
            let more = acc.push((at, clean));
            let next = if clean != markdown && !request.is_mutated_later(at) {
                writes_hold(request, files, at, clean);
                request.write(files, at, clean).0
            } else {
                files
            };
            assert(path_key(paths[i]) == path_key(path) ==> request.is_mutated_later(paths[i]));
            assert(same_at(files, next, path));
            cleaning_leaves(request, next, paths, i + 1, more, path);
        }
    }
}

proof fn cleaning_cleans(
    request: RefineRewriteRequestModel,
    files: PlanFilesModel,
    paths: Seq<Seq<char>>,
    i: int,
    acc: Seq<(Seq<char>, Seq<char>)>,
    path: Seq<char>,
)
    requires
        0 <= i,
        paths.no_duplicates(),
        request.cleaned_from(files, paths, i, acc).1 is Ok,
        is_among(paths, i, path),
        files.is_file(path),
        payload_from(acc, path, 0) is None,
        forall|k: int|
            i <= k < paths.len() && path_key(#[trigger] paths[k]) == path_key(path) ==> paths[k]
                == path,
    ensures
        ({
            let (next, done) = request.cleaned_from(files, paths, i, acc);
            let text = files.read(path)->Ok_0;
            let clean = without_comment_blocks(path, text, request.preserved(path))->Ok_0;
            &&& files.read(path) is Ok
            &&& without_comment_blocks(path, text, request.preserved(path)) is Ok
            &&& payload_from(done->Ok_0, path, 0) == Some(clean)
            &&& holds(
                next,
                path,
                if request.is_mutated_later(path) {
                    text
                } else {
                    clean
                },
            )
        }),
    decreases paths.len() - i,
{
    let at = paths[i];
    let k = choose|k: int| i <= k < paths.len() && #[trigger] paths[k] == path;
    if !files.is_file(at) {
        assert(k > i);
        assert(is_among(paths, i + 1, path));
        cleaning_cleans(request, files, paths, i + 1, acc, path);
    } else {
        let markdown = request.read(files, at)->Ok_0;
        let clean = without_comment_blocks(at, markdown, request.preserved(at))->Ok_0;
        let more = acc.push((at, clean));
        one_payload_more(acc, path, at, clean, 0);
        let next = if clean != markdown && !request.is_mutated_later(at) {
            writes_hold(request, files, at, clean);
            request.write(files, at, clean).0
        } else {
            files
        };
        if at != path {
            assert(paths[i] != path);
            assert(path_key(at) != path_key(path));
            assert(same_at(files, next, path));
            assert(is_among(paths, i + 1, path));
            cleaning_cleans(request, next, paths, i + 1, more, path);
        } else {
            assert forall|m: int| i + 1 <= m < paths.len() implies path_key(#[trigger] paths[m])
                != path_key(path) by {
                assert(paths[m] != paths[i]);
            }
            cleaning_leaves(request, next, paths, i + 1, more, path);
            payloads_stay(request, next, paths, i + 1, more, path);
        }
    }
}

proof fn payloads_stay(
    request: RefineRewriteRequestModel,
    files: PlanFilesModel,
    paths: Seq<Seq<char>>,
    i: int,
    acc: Seq<(Seq<char>, Seq<char>)>,
    path: Seq<char>,
)
    requires
        0 <= i,
        payload_from(acc, path, 0) is Some,
        request.cleaned_from(files, paths, i, acc).1 is Ok,
    ensures
        payload_from(request.cleaned_from(files, paths, i, acc).1->Ok_0, path, 0) == payload_from(
            acc,
            path,
            0,
        ),
    decreases paths.len() - i,
{
    if i < paths.len() {
        let at = paths[i];
        if !files.is_file(at) {
            payloads_stay(request, files, paths, i + 1, acc, path);
        } else {
            let markdown = request.read(files, at)->Ok_0;
            let clean = without_comment_blocks(at, markdown, request.preserved(at))->Ok_0;
            let more = acc.push((at, clean));
            one_payload_more(acc, path, at, clean, 0);
            let next = if clean != markdown && !request.is_mutated_later(at) {
                request.write(files, at, clean).0
            } else {
                files
            };
            payloads_stay(request, next, paths, i + 1, more, path);
        }
    }
}

proof fn sources_are_taken_up(decisions: Seq<RefineDecisionModel>, i: int, acc: Seq<Seq<char>>)
    requires
        0 <= i <= decisions.len(),
        acc.no_duplicates(),
    ensures
        source_paths_from(decisions, i, acc).no_duplicates(),
        forall|t: Seq<char>|
            #[trigger] source_paths_from(decisions, i, acc).contains(t) <==> acc.contains(t) || (
            exists|k: int|
                i <= k < decisions.len() && comment_paths(
                    (#[trigger] decisions[k]).source_comments,
                ).contains(t)),
    decreases decisions.len() - i,
{
    if i < decisions.len() {
        let texts = comment_paths(decisions[i].source_comments);
        let next = with_all_unique(acc, texts);
        taken_up_texts_stay_unique(acc, texts, 0);
        assert(texts.skip(0) =~= texts);
        sources_are_taken_up(decisions, i + 1, next);
        assert forall|t: Seq<char>| #[trigger]
            source_paths_from(decisions, i, acc).contains(t) <==> acc.contains(t) || (exists|k: int|
            i <= k < decisions.len() && comment_paths(
                (#[trigger] decisions[k]).source_comments,
            ).contains(t)) by {
            assert(next.contains(t) <==> acc.contains(t) || texts.contains(t));
            if exists|k: int|
                i <= k < decisions.len() && comment_paths(
                    (#[trigger] decisions[k]).source_comments,
                ).contains(t) {
                let k = choose|k: int|
                    i <= k < decisions.len() && comment_paths(
                        (#[trigger] decisions[k]).source_comments,
                    ).contains(t);
                if k > i {
                    assert(comment_paths(decisions[k].source_comments).contains(t));
                }
            }
            if texts.contains(t) {
                assert(comment_paths(decisions[i].source_comments).contains(t));
            }
        }
    }
}

proof fn cleaned_paths_are_those_named(request: RefineRewriteRequestModel, path: Seq<char>)
    ensures
        request.cleanup_paths().no_duplicates(),
        request.cleanup_paths().contains(path) <==> {
            ||| is_target(request.rewrite_scope.rewrite_targets, path)
            ||| is_stale(request.rewrite_scope.stale_descendants, path)
            ||| is_relinked(request.rewrite_scope.link_changes, path)
            ||| is_source(request.decisions, path)
        },
        request.cleanup_paths().contains(path) <==> is_among(request.cleanup_paths(), 0, path),
{
    let scope = request.rewrite_scope;
    let none = Seq::<Seq<char>>::empty();
    let t = target_paths(scope.rewrite_targets);
    let u = stale_paths(scope.stale_descendants);
    let v = relinked_paths(scope.link_changes);
    let a = with_all_unique(none, t);
    let b = with_all_unique(a, u);
    let c = with_all_unique(b, v);
    assert(t.skip(0) =~= t && u.skip(0) =~= u && v.skip(0) =~= v);
    taken_up_texts_stay_unique(none, t, 0);
    taken_up_texts_stay_unique(a, u, 0);
    taken_up_texts_stay_unique(b, v, 0);
    sources_are_taken_up(request.decisions, 0, c);
    assert(!none.contains(path));
    assert(a.contains(path) <==> t.contains(path));
    assert(b.contains(path) <==> a.contains(path) || u.contains(path));
    assert(c.contains(path) <==> b.contains(path) || v.contains(path));
    if is_target(scope.rewrite_targets, path) {
        let k = choose|k: int|
            0 <= k < scope.rewrite_targets.len() && (
            #[trigger] scope.rewrite_targets[k]).relative_path == path;
        assert(t[k] == path);
    }
    if is_stale(scope.stale_descendants, path) {
        let k = choose|k: int|
            0 <= k < scope.stale_descendants.len() && (
            #[trigger] scope.stale_descendants[k]).relative_path == path;
        assert(u[k] == path);
    }
    if is_relinked(scope.link_changes, path) {
        let k = choose|k: int|
            0 <= k < scope.link_changes.len() && (
            #[trigger] scope.link_changes[k]).parent_relative_path == path;
        assert(v[k] == path);
    }
    assert(request.cleanup_paths() == source_paths_from(request.decisions, 0, c));
}

// ---------------------------------------------------------------------
// New texts
// ---------------------------------------------------------------------
impl RefineRewriteRequestModel {
    /// Action `a` of decision `d` gives the file at the path this text.
    pub open spec fn gives_text(self, d: int, a: int, path: Seq<char>, text: Seq<char>) -> bool {
        &&& 0 <= d < self.decisions.len()
        &&& 0 <= a < self.decisions[d].rewrite_actions.len()
        &&& self.decisions[d].rewrite_actions[a].target_relative_path == Some(path)
        &&& self.decisions[d].rewrite_actions[a].replacement_markdown == Some(text)
    }

    /// The last action that gives the file at the path a text gives it this one.
    pub open spec fn gives_at_last(self, path: Seq<char>, text: Seq<char>) -> bool {
        exists|d: int, a: int| #[trigger]
            self.gives_text(d, a, path, text) && forall|e: int, b: int, other: Seq<char>| #[trigger]
                self.gives_text(e, b, path, other) ==> e < d || (e == d && b <= a)
    }

    /// Some action gives the file at the path a text.
    pub open spec fn gives_any(self, path: Seq<char>) -> bool {
        exists|d: int, a: int, text: Seq<char>| #[trigger] self.gives_text(d, a, path, text)
    }

    /// The path is the only one by which the request names its place.
    pub open spec fn is_sole_name(self, path: Seq<char>) -> bool {
        forall|other: Seq<char>| #[trigger]
            self.names_path(other) && path_key(other) == path_key(path) ==> other == path
    }

    /// Nothing that is to be removed stands at the place of the path.
    pub open spec fn keeps_place(self, path: Seq<char>) -> bool {
        forall|k: int|
            0 <= k < self.rewrite_scope.node_removals.len() ==> path_key(
                (#[trigger] self.rewrite_scope.node_removals[k]).relative_path,
            ) != path_key(path)
    }

    /// No node that is to be made stands at the place of the path.
    pub open spec fn makes_nothing_at(self, path: Seq<char>) -> bool {
        forall|k: int|
            0 <= k < self.rewrite_scope.node_creations.len() ==> path_key(
                (#[trigger] self.rewrite_scope.node_creations[k]).relative_path,
            ) != path_key(path)
    }

    /// No node that is to be marked stands at the place of the path.
    pub open spec fn marks_nothing_at(self, path: Seq<char>) -> bool {
        forall|k: int|
            0 <= k < self.rewrite_scope.stale_descendants.len() ==> path_key(
                (#[trigger] self.rewrite_scope.stale_descendants[k]).relative_path,
            ) != path_key(path)
    }

    /// No parent whose links change stands at the place of the path.
    pub open spec fn links_nothing_at(self, path: Seq<char>) -> bool {
        forall|k: int|
            0 <= k < self.rewrite_scope.link_changes.len() ==> path_key(
                (#[trigger] self.rewrite_scope.link_changes[k]).parent_relative_path,
            ) != path_key(path)
    }
}

proof fn last_text_in(
    request: RefineRewriteRequestModel,
    d: int,
    path: Seq<char>,
    n: int,
)
    requires
        0 <= d < request.decisions.len(),
        0 <= n <= request.decisions[d].rewrite_actions.len(),
    ensures
        match replacement_in(request.decisions[d].rewrite_actions, path, n) {
            Some(text) => exists|a: int|
                a < n && #[trigger] request.gives_text(d, a, path, text) && forall|
                    b: int,
                    other: Seq<char>,
                | #[trigger]
                    request.gives_text(d, b, path, other) && b < n ==> b <= a,
            None => forall|b: int, other: Seq<char>| #[trigger]
                request.gives_text(d, b, path, other) ==> b >= n,
        },
    decreases n,
{
    let actions = request.decisions[d].rewrite_actions;
    if n > 0 {
        last_text_in(request, d, path, n - 1);
        if actions[n - 1].target_relative_path == Some(path)
            && actions[n - 1].replacement_markdown is Some {
            assert(request.gives_text(d, n - 1, path, actions[n - 1].replacement_markdown->0));
        }
    }
}

proof fn last_text_is_found(request: RefineRewriteRequestModel, path: Seq<char>, n: int)
    requires
        0 <= n <= request.decisions.len(),
    ensures
        match request.replacement(path, n) {
            Some(text) => exists|d: int, a: int|
                d < n && #[trigger] request.gives_text(d, a, path, text) && forall|
                    e: int,
                    b: int,
                    other: Seq<char>,
                | #[trigger]
                    request.gives_text(e, b, path, other) && e < n ==> e < d || (e == d && b <= a),
            None => forall|e: int, b: int, other: Seq<char>| #[trigger]
                request.gives_text(e, b, path, other) ==> e >= n,
        },
    decreases n,
{
    if n > 0 {
        let actions = request.decisions[n - 1].rewrite_actions;
        last_text_in(request, n - 1, path, actions.len() as int);
        last_text_is_found(request, path, n - 1);
        match replacement_in(actions, path, actions.len() as int) {
            Some(text) => {
                let a = choose|a: int|
                    a < actions.len() && #[trigger] request.gives_text(n - 1, a, path, text)
                        && forall|b: int, other: Seq<char>| #[trigger]
                        request.gives_text(n - 1, b, path, other) && b < actions.len() ==> b <= a;
                assert(request.gives_text(n - 1, a, path, text));
            },
            None => {},
        }
    }
}

/// The new text of a file is that of the last action that gives it one.
proof fn new_text_is_the_last(request: RefineRewriteRequestModel, path: Seq<char>)
    ensures
        request.replacement(path, request.decisions.len() as int) is Some <==> request.gives_any(
            path,
        ),
        forall|text: Seq<char>| #[trigger]
            request.gives_at_last(path, text) ==> request.replacement(
                path,
                request.decisions.len() as int,
            ) == Some(text),
{
    let n = request.decisions.len() as int;
    last_text_is_found(request, path, n);
    match request.replacement(path, n) {
        Some(found) => {
            let (d, a) = choose|d: int, a: int|
                d < n && #[trigger] request.gives_text(d, a, path, found) && forall|
                    e: int,
                    b: int,
                    other: Seq<char>,
                | #[trigger]
                    request.gives_text(e, b, path, other) && e < n ==> e < d || (e == d && b <= a);
            assert(request.gives_text(d, a, path, found));
            assert forall|text: Seq<char>| #[trigger]
                request.gives_at_last(path, text) implies text == found by {
                let (e, b) = choose|e: int, b: int| #[trigger]
                    request.gives_text(e, b, path, text) && forall|f: int, c: int, other: Seq<char>|
                        #[trigger] request.gives_text(f, c, path, other) ==> f < e || (f == e && c
                            <= b);
                assert(request.gives_text(e, b, path, text));
            }
        },
        None => {
            assert forall|text: Seq<char>| !request.gives_at_last(path, text) by {}
        },
    }
}

// ---------------------------------------------------------------------
// What is told
// ---------------------------------------------------------------------
/// A file that was made, as it is told.
pub open spec fn told_creation(creation: RefineNodeCreationModel) -> RefineChangedFileModel {
    RefineChangedFileModel {
        relative_path: creation.relative_path,
        node_id: None,
        change_kind: RefineChangedFileKind::Created,
    }
}

/// A file that was removed, as it is told.
pub open spec fn told_removal(removal: RefineNodeRemovalModel) -> RefineChangedFileModel {
    RefineChangedFileModel {
        relative_path: removal.relative_path,
        node_id: removal.node_id,
        change_kind: RefineChangedFileKind::ExplicitlyRemoved,
    }
}

/// A file that was marked, as it is told.
pub open spec fn told_mark(node: RefineStaleNodeModel) -> RefineChangedFileModel {
    RefineChangedFileModel {
        relative_path: node.relative_path,
        node_id: node.node_id,
        change_kind: RefineChangedFileKind::StaleMarked,
    }
}

/// A file whose text changed, as it is told.
pub open spec fn told_text(target: RefineRewriteTargetModel) -> RefineChangedFileModel {
    RefineChangedFileModel {
        relative_path: target.relative_path,
        node_id: target.node_id,
        change_kind: RefineChangedFileKind::TextUpdated,
    }
}

/// A node that stays as it is, as it is told.
pub open spec fn told_unchanged(target: RefineRewriteTargetModel) -> RefineUnchangedNodeModel {
    RefineUnchangedNodeModel { relative_path: target.relative_path, node_id: target.node_id }
}

/// A parent whose links changed, as it is told.
pub open spec fn told_relink(change: RefineStructuralChangeModel) -> RefineChangedFileModel {
    RefineChangedFileModel {
        relative_path: change.parent_relative_path,
        node_id: change.parent_node_id,
        change_kind: RefineChangedFileKind::TextUpdated,
    }
}

/// The new texts, as they are told.
pub open spec fn told_texts(
    request: RefineRewriteRequestModel,
    files: PlanFilesModel,
    targets: Seq<RefineRewriteTargetModel>,
) -> Seq<RefineChangedFileModel> {
    targets.filter(
        |target: RefineRewriteTargetModel|
            is_update(target) && (request.gives_any(target.relative_path) || files.is_file(
                target.relative_path,
            )),
    ).map_values(|target: RefineRewriteTargetModel| told_text(target))
}

/// The nodes that no text was found for, as they are told.
pub open spec fn told_left(
    request: RefineRewriteRequestModel,
    files: PlanFilesModel,
    targets: Seq<RefineRewriteTargetModel>,
) -> Seq<RefineUnchangedNodeModel> {
    targets.filter(
        |target: RefineRewriteTargetModel|
            is_update(target) && !request.gives_any(target.relative_path) && !files.is_file(
                target.relative_path,
            ),
    ).map_values(|target: RefineRewriteTargetModel| told_unchanged(target))
}

/// The nodes that are made, as they are told.
pub open spec fn told_creations(creations: Seq<RefineNodeCreationModel>) -> Seq<
    RefineChangedFileModel,
> {
    creations.map_values(|creation: RefineNodeCreationModel| told_creation(creation))
}

/// The nodes that are removed, as they are told.
pub open spec fn told_removals(removals: Seq<RefineNodeRemovalModel>) -> Seq<
    RefineChangedFileModel,
> {
    removals.map_values(|removal: RefineNodeRemovalModel| told_removal(removal))
}

/// The nodes that are marked, as they are told.
pub open spec fn told_marks(nodes: Seq<RefineStaleNodeModel>) -> Seq<RefineChangedFileModel> {
    nodes.map_values(|node: RefineStaleNodeModel| told_mark(node))
}

/// The parents whose links changed, as they are told: those that were not made
/// just now.
pub open spec fn told_relinks(
    creations: Seq<RefineNodeCreationModel>,
    changes: Seq<RefineStructuralChangeModel>,
) -> Seq<RefineChangedFileModel> {
    changes.filter(
        |change: RefineStructuralChangeModel|
            change.change_kind == RefineStructuralChangeKind::ChangedChildSet && !(exists|k: int|
                0 <= k < creations.len() && (#[trigger] creations[k]).relative_path
                    == change.parent_relative_path),
    ).map_values(|change: RefineStructuralChangeModel| told_relink(change))
}

proof fn one_text_more(
    request: RefineRewriteRequestModel,
    files: PlanFilesModel,
    targets: Seq<RefineRewriteTargetModel>,
    i: int,
)
    requires
        0 <= i < targets.len(),
    ensures
        ({
            let target = targets[i];
            let has_text = request.gives_any(target.relative_path) || files.is_file(
                target.relative_path,
            );
            let texts = told_texts(request, files, targets.take(i));
            let left = told_left(request, files, targets.take(i));
            &&& told_texts(request, files, targets.take(i + 1)) == if is_update(target) && has_text {
                texts.push(told_text(target))
            } else {
                texts
            }
            &&& told_left(request, files, targets.take(i + 1)) == if is_update(target) && !has_text {
                left.push(told_unchanged(target))
            } else {
                left
            }
        }),
{
    reveal(Seq::filter);
    let more = targets.take(i + 1);
    assert(more.drop_last() =~= targets.take(i));
    assert(more.last() == targets[i]);
    let target = targets[i];
    let has_text = request.gives_any(target.relative_path) || files.is_file(target.relative_path);
    let texts = told_texts(request, files, targets.take(i));
    let left = told_left(request, files, targets.take(i));
    if is_update(target) && has_text {
        assert(told_texts(request, files, more) =~= texts.push(told_text(target)));
    } else {
        assert(told_texts(request, files, more) =~= texts);
    }
    if is_update(target) && !has_text {
        assert(told_left(request, files, more) =~= left.push(told_unchanged(target)));
    } else {
        assert(told_left(request, files, more) =~= left);
    }
}

proof fn texts_are_told(
    request: RefineRewriteRequestModel,
    start: PlanFilesModel,
    files: PlanFilesModel,
    payloads: Seq<(Seq<char>, Seq<char>)>,
    i: int,
    reports: MutationReportsModel,
)
    requires
        0 <= i <= request.rewrite_scope.rewrite_targets.len(),
        request.rewritten_from(files, payloads, i, reports).1 is Ok,
        forall|k: int|
            0 <= k < request.rewrite_scope.rewrite_targets.len() ==> (payload_from(
                payloads,
                (#[trigger] request.rewrite_scope.rewrite_targets[k]).relative_path,
                0,
            ) is Some <==> start.is_file(request.rewrite_scope.rewrite_targets[k].relative_path)),
        reports.changed_files == told_texts(
            request,
            start,
            request.rewrite_scope.rewrite_targets.take(i),
        ),
        reports.unchanged_nodes == told_left(
            request,
            start,
            request.rewrite_scope.rewrite_targets.take(i),
        ),
    ensures
        ({
            let told = request.rewritten_from(files, payloads, i, reports).1->Ok_0;
            let targets = request.rewrite_scope.rewrite_targets;
            &&& told.changed_files == told_texts(request, start, targets)
            &&& told.unchanged_nodes == told_left(request, start, targets)
            &&& told.structural_changes == reports.structural_changes
            &&& told.stale_nodes == reports.stale_nodes
            &&& told.context_invalidations == reports.context_invalidations
        }),
    decreases request.rewrite_scope.rewrite_targets.len() - i,
{
    let targets = request.rewrite_scope.rewrite_targets;
    if i < targets.len() {
        let target = targets[i];
        let at = target.relative_path;
        one_text_more(request, start, targets, i);
        new_text_is_the_last(request, at);
        if !is_update(target) {
            texts_are_told(request, start, files, payloads, i + 1, reports);
        } else {
            let text = match request.clean_replacement(at)->Ok_0 {
                Some(text) => Some(text),
                None => payload_from(payloads, at, 0),
            };
            assert(payload_from(payloads, targets[i].relative_path, 0) is Some <==> start.is_file(
                at,
            ));
            match text {
                None => {
                    texts_are_told(
                        request,
                        start,
                        files,
                        payloads,
                        i + 1,
                        reports.with_unchanged(at, target.node_id),
                    );
                },
                Some(markdown) => {
                    texts_are_told(
                        request,
                        start,
                        request.write(files, at, markdown).0,
                        payloads,
                        i + 1,
                        reports.with_changed(
                            at,
                            target.node_id,
                            RefineChangedFileKind::TextUpdated,
                        ),
                    );
                },
            }
        }
    } else {
        assert(targets.take(i) =~= targets);
    }
}

proof fn creations_are_told(
    request: RefineRewriteRequestModel,
    files: PlanFilesModel,
    i: int,
    reports: MutationReportsModel,
)
    requires
        0 <= i <= request.rewrite_scope.node_creations.len(),
        request.created_from(files, i, reports).1 is Ok,
    ensures
        ({
            let told = request.created_from(files, i, reports).1->Ok_0;
            let creations = request.rewrite_scope.node_creations;
            told == (MutationReportsModel {
                changed_files: reports.changed_files + told_creations(creations.skip(i)),
                ..reports
            })
        }),
    decreases request.rewrite_scope.node_creations.len() - i,
{
    let creations = request.rewrite_scope.node_creations;
    if i < creations.len() {
        let at = creations[i].relative_path;
        let next = request.write(files, at, creation_text(request, at)).0;
        let more = reports.with_changed(at, None, RefineChangedFileKind::Created);
        creations_are_told(request, next, i + 1, more);
        assert(creations.skip(i).skip(1) =~= creations.skip(i + 1));
        assert(more.changed_files + told_creations(creations.skip(i + 1)) =~= reports.changed_files
            + told_creations(creations.skip(i)));
    } else {
        assert(reports.changed_files + told_creations(creations.skip(i)) =~= reports.changed_files);
    }
}

proof fn removals_are_reported(
    request: RefineRewriteRequestModel,
    files: PlanFilesModel,
    i: int,
    reports: MutationReportsModel,
)
    requires
        0 <= i <= request.rewrite_scope.node_removals.len(),
        request.removed_from(files, i, reports).1 is Ok,
    ensures
        ({
            let told = request.removed_from(files, i, reports).1->Ok_0;
            let removals = request.rewrite_scope.node_removals;
            told == (MutationReportsModel {
                changed_files: reports.changed_files + told_removals(removals.skip(i)),
                ..reports
            })
        }),
    decreases request.rewrite_scope.node_removals.len() - i,
{
    let removals = request.rewrite_scope.node_removals;
    if i < removals.len() {
        let removal = removals[i];
        let at = removal.relative_path;
        let next = if files.is_present(at) {
            files.remove(at).0
        } else {
            files
        };
        let more = reports.with_changed(
            at,
            removal.node_id,
            RefineChangedFileKind::ExplicitlyRemoved,
        );
        removals_are_reported(request, next, i + 1, more);
        assert(more.changed_files + told_removals(removals.skip(i + 1)) =~= reports.changed_files
            + told_removals(removals.skip(i)));
    } else {
        assert(reports.changed_files + told_removals(removals.skip(i)) =~= reports.changed_files);
    }
}

/// A node that was marked, as it is told.
spec fn stale_node_of(stale: RefineStaleDescendantModel) -> RefineStaleNodeModel {
    RefineStaleNodeModel {
        relative_path: stale.relative_path,
        node_id: stale.node_id,
        reason: stale.reason,
    }
}

spec fn stale_nodes_of(stale: Seq<RefineStaleDescendantModel>) -> Seq<RefineStaleNodeModel> {
    stale.map_values(|node: RefineStaleDescendantModel| stale_node_of(node))
}

proof fn marks_are_told(
    request: RefineRewriteRequestModel,
    files: PlanFilesModel,
    payloads: Seq<(Seq<char>, Seq<char>)>,
    stale: Seq<RefineStaleDescendantModel>,
    i: int,
    reports: MutationReportsModel,
)
    requires
        0 <= i <= stale.len(),
        request.marked_from(files, payloads, stale, i, reports).1 is Ok,
    ensures
        ({
            let told = request.marked_from(files, payloads, stale, i, reports).1->Ok_0;
            let nodes = stale_nodes_of(stale.skip(i));
            told == (MutationReportsModel {
                changed_files: reports.changed_files + told_marks(nodes),
                stale_nodes: reports.stale_nodes + nodes,
                ..reports
            })
        }),
    decreases stale.len() - i,
{
    let nodes = stale_nodes_of(stale.skip(i));
    if i < stale.len() {
        let at = stale[i].relative_path;
        let markdown = request.clean_or_disk(files, payloads, at)->Ok_0;
        let next = request.write(files, at, marked_stale(markdown, stale[i].reason)).0;
        let more = reports.with_stale(at, stale[i].node_id, stale[i].reason);
        let rest = stale_nodes_of(stale.skip(i + 1));
        marks_are_told(request, next, payloads, stale, i + 1, more);
        assert(nodes[0] == stale_node_of(stale[i]));
        assert(more.stale_nodes + rest =~= reports.stale_nodes + nodes);
        assert(more.changed_files + told_marks(rest) =~= reports.changed_files + told_marks(nodes));
    } else {
        assert(reports.changed_files + told_marks(nodes) =~= reports.changed_files);
        assert(reports.stale_nodes + nodes =~= reports.stale_nodes);
    }
}

/// The changes of the parents come in pairs, one for the children and one for
/// the contract, and say the same.
pub open spec fn are_pairs(changes: Seq<RefineStructuralChangeModel>) -> bool {
    &&& changes.len() % 2 == 0
    &&& forall|j: int|
        0 <= j < changes.len() && j % 2 == 0 ==> is_pair_at(changes, j)
}

/// Two changes that come one after the other say the same of one parent.
pub open spec fn is_pair_at(changes: Seq<RefineStructuralChangeModel>, j: int) -> bool {
    &&& changes[j].change_kind == RefineStructuralChangeKind::ChangedChildSet
    &&& changes[j + 1].change_kind == RefineStructuralChangeKind::ParentContractChanged
    &&& changes[j].parent_relative_path == changes[j + 1].parent_relative_path
    &&& changes[j].parent_node_id == changes[j + 1].parent_node_id
    &&& changes[j].added_child_relative_paths == changes[j + 1].added_child_relative_paths
    &&& changes[j].removed_child_relative_paths == changes[j + 1].removed_child_relative_paths
}

proof fn relinks_filter_on(
    creations: Seq<RefineNodeCreationModel>,
    changes: Seq<RefineStructuralChangeModel>,
    one: RefineStructuralChangeModel,
)
    ensures
        told_relinks(creations, changes.push(one)) == if one.change_kind
            == RefineStructuralChangeKind::ChangedChildSet && !is_created(
            creations,
            one.parent_relative_path,
        ) {
            told_relinks(creations, changes).push(told_relink(one))
        } else {
            told_relinks(creations, changes)
        },
{
    reveal(Seq::filter);
    let more = changes.push(one);
    assert(more.drop_last() =~= changes);
    assert(more.last() == one);
    if one.change_kind == RefineStructuralChangeKind::ChangedChildSet && !is_created(
        creations,
        one.parent_relative_path,
    ) {
        assert(told_relinks(creations, more) =~= told_relinks(creations, changes).push(
            told_relink(one),
        ));
    } else {
        assert(told_relinks(creations, more) =~= told_relinks(creations, changes));
    }
}

proof fn relinks_are_told(
    request: RefineRewriteRequestModel,
    files: PlanFilesModel,
    payloads: Seq<(Seq<char>, Seq<char>)>,
    merged: Seq<MergedLinkChangeModel>,
    i: int,
    reports: MutationReportsModel,
    before: Seq<RefineChangedFileModel>,
)
    requires
        0 <= i <= merged.len(),
        request.relinked_from(files, payloads, merged, i, reports).1 is Ok,
        are_pairs(reports.structural_changes),
        reports.changed_files == before + told_relinks(
            request.rewrite_scope.node_creations,
            reports.structural_changes,
        ),
    ensures
        ({
            let told = request.relinked_from(files, payloads, merged, i, reports).1->Ok_0;
            &&& are_pairs(told.structural_changes)
            &&& told.changed_files == before + told_relinks(
                request.rewrite_scope.node_creations,
                told.structural_changes,
            )
            &&& told.stale_nodes == reports.stale_nodes
            &&& told.context_invalidations == reports.context_invalidations
            &&& told.unchanged_nodes == reports.unchanged_nodes
        }),
    decreases merged.len() - i,
{
    if i < merged.len() {
        let (next, result) = request.relinked(files, payloads, merged[i]);
        match result->Ok_0 {
            None => {
                relinks_are_told(request, next, payloads, merged, i + 1, reports, before);
            },
            Some(mutation) => {
                let creations = request.rewrite_scope.node_creations;
                let told = reports.with_relinked(mutation);
                let old_changes = reports.structural_changes;
                let one = mutation.report(RefineStructuralChangeKind::ChangedChildSet);
                let two = mutation.report(RefineStructuralChangeKind::ParentContractChanged);
                relinks_filter_on(creations, old_changes, one);
                relinks_filter_on(creations, old_changes.push(one), two);
                assert(told.structural_changes == old_changes.push(one).push(two));
                assert(told.changed_files =~= before + told_relinks(
                    creations,
                    told.structural_changes,
                ));
                assert forall|j: int|
                    0 <= j < told.structural_changes.len() && j % 2 == 0 implies is_pair_at(
                    told.structural_changes,
                    j,
                ) by {
                    if j < old_changes.len() {
                        assert(is_pair_at(old_changes, j));
                    }
                }
                relinks_are_told(request, next, payloads, merged, i + 1, told, before);
            },
        }
    }
}

// ---------------------------------------------------------------------
// The steps together
// ---------------------------------------------------------------------
/// The files and the clean texts after comments were taken out.
spec fn after_cleaning(request: RefineRewriteRequestModel, files: PlanFilesModel) -> (
    PlanFilesModel,
    Seq<(Seq<char>, Seq<char>)>,
) {
    let (next, done) = request.cleaned_from(files, request.cleanup_paths(), 0, Seq::empty());
    (next, done->Ok_0)
}

spec fn after_rewrites(request: RefineRewriteRequestModel, files: PlanFilesModel) -> (
    PlanFilesModel,
    MutationReportsModel,
) {
    let (f, payloads) = after_cleaning(request, files);
    let (next, done) = request.rewritten_from(f, payloads, 0, MutationReportsModel::empty());
    (next, done->Ok_0)
}

spec fn after_creations(request: RefineRewriteRequestModel, files: PlanFilesModel) -> (
    PlanFilesModel,
    MutationReportsModel,
) {
    let (f, reports) = after_rewrites(request, files);
    let (next, done) = request.created_from(f, 0, reports);
    (next, done->Ok_0)
}

spec fn after_removals(request: RefineRewriteRequestModel, files: PlanFilesModel) -> (
    PlanFilesModel,
    MutationReportsModel,
) {
    let (f, reports) = after_creations(request, files);
    let (next, done) = request.removed_from(f, 0, reports);
    (next, done->Ok_0)
}

spec fn to_mark(request: RefineRewriteRequestModel) -> Seq<RefineStaleDescendantModel> {
    unique_stale_from(request.rewrite_scope.stale_descendants, 0, Seq::empty())
}

spec fn after_marks(request: RefineRewriteRequestModel, files: PlanFilesModel) -> (
    PlanFilesModel,
    MutationReportsModel,
) {
    let (f, reports) = after_removals(request, files);
    let payloads = after_cleaning(request, files).1;
    let (next, done) = request.marked_from(f, payloads, to_mark(request), 0, reports);
    (next, done->Ok_0)
}

/// The rewrite is accepted: each step succeeds, and the last ones give the files
/// and the answer.
spec fn succeeds(
    request: RefineRewriteRequestModel,
    files: PlanFilesModel,
    result: RefineRewriteResultModel,
) -> bool {
    let merged = merged_changes(request.rewrite_scope.link_changes)->0;
    let payloads = after_cleaning(request, files).1;
    let marked = after_marks(request, files);
    let last = request.relinked_from(marked.0, payloads, merged, 0, marked.1);
    &&& request.cleaned_from(files, request.cleanup_paths(), 0, Seq::empty()).1 is Ok
    &&& request.rewritten_from(
        after_cleaning(request, files).0,
        payloads,
        0,
        MutationReportsModel::empty(),
    ).1 is Ok
    &&& request.created_from(
        after_rewrites(request, files).0,
        0,
        after_rewrites(request, files).1,
    ).1 is Ok
    &&& request.removed_from(
        after_creations(request, files).0,
        0,
        after_creations(request, files).1,
    ).1 is Ok
    &&& request.marked_from(
        after_removals(request, files).0,
        payloads,
        to_mark(request),
        0,
        after_removals(request, files).1,
    ).1 is Ok
    &&& merged_changes(request.rewrite_scope.link_changes) is Some
    &&& last.1 is Ok
    &&& request.applied(files).0 == last.0
    &&& result == request.answer(last.1->Ok_0)
}

proof fn accepted_rewrites_succeed(
    request: RefineRewriteRequestModel,
    files: PlanFilesModel,
    result: RefineRewriteResultModel,
)
    requires
        request.applied(files).1 == Ok::<_, RefineRewriteErrorModel>(result),
    ensures
        succeeds(request, files, result),
        request.problem(files) is None,
{
}

/// From the removals on nothing comes to be at a place, and only a mark or a
/// change of links changes what stands there.
proof fn last_steps_leave(
    request: RefineRewriteRequestModel,
    files: PlanFilesModel,
    result: RefineRewriteResultModel,
    path: Seq<char>,
)
    requires
        succeeds(request, files, result),
    ensures
        ({
            let before = after_removals(request, files).0;
            let next = request.applied(files).0;
            let key = path_key(path);
            &&& next.contents.contains_key(key) == before.contents.contains_key(key)
            &&& request.marks_nothing_at(path) && request.links_nothing_at(path) ==> same_at(
                before,
                next,
                path,
            )
            &&& request.links_nothing_at(path) ==> same_at(
                after_marks(request, files).0,
                next,
                path,
            )
        }),
{
    let payloads = after_cleaning(request, files).1;
    let merged = merged_changes(request.rewrite_scope.link_changes)->0;
    let removed = after_removals(request, files);
    let marked = after_marks(request, files);
    let stale = request.rewrite_scope.stale_descendants;
    let changes = request.rewrite_scope.link_changes;
    marks_leave(request, removed.0, payloads, to_mark(request), 0, removed.1, path);
    relinks_leave(request, marked.0, payloads, merged, 0, marked.1, path);
    stale_nodes_are_marked_once(stale);
    merged_changes_are_the_changes(changes);
    if request.marks_nothing_at(path) {
        assert forall|k: int| 0 <= k < to_mark(request).len() implies path_key(
            (#[trigger] to_mark(request)[k]).relative_path,
        ) != path_key(path) by {
            let at = to_mark(request)[k].relative_path;
            assert(is_stale(stale, at));
            let m = choose|m: int| 0 <= m < stale.len() && (#[trigger] stale[m]).relative_path == at;
            assert(path_key(stale[m].relative_path) != path_key(path));
        }
    }
    if request.links_nothing_at(path) {
        assert forall|k: int| 0 <= k < merged.len() implies path_key(
            (#[trigger] merged[k]).parent_relative_path,
        ) != path_key(path) by {
            let at = merged[k].parent_relative_path;
            assert(is_relinked(changes, at));
            let m = choose|m: int|
                0 <= m < changes.len() && (#[trigger] changes[m]).parent_relative_path == at;
            assert(path_key(changes[m].parent_relative_path) != path_key(path));
        }
    }
}

// ---------------------------------------------------------------------
// The laws
// ---------------------------------------------------------------------
/// After an accepted rewrite nothing stands where a node was to be removed.
pub proof fn removed_nodes_are_gone(
    request: RefineRewriteRequestModel,
    files: PlanFilesModel,
    result: RefineRewriteResultModel,
    k: int,
)
    requires
        request.applied(files).1 == Ok::<_, RefineRewriteErrorModel>(result),
        0 <= k < request.rewrite_scope.node_removals.len(),
    ensures
        !request.applied(files).0.is_present(request.rewrite_scope.node_removals[k].relative_path),
{
    accepted_rewrites_succeed(request, files, result);
    let created = after_creations(request, files);
    removals_remove(request, created.0, 0, created.1, k);
    last_steps_leave(
        request,
        files,
        result,
        request.rewrite_scope.node_removals[k].relative_path,
    );
}

/// What is told of an accepted rewrite: first the nodes with a new text, that is
/// those that are to be updated and that an action gives a text or that had one;
/// then those that were made, those that were removed and those that were marked;
/// and last the parents whose links changed, but for those that were just made.
/// The nodes to update for which there is no text are told to be unchanged.
pub proof fn changes_are_told(
    request: RefineRewriteRequestModel,
    files: PlanFilesModel,
    result: RefineRewriteResultModel,
)
    requires
        request.applied(files).1 == Ok::<_, RefineRewriteErrorModel>(result),
    ensures
        result.changed_files == told_texts(request, files, request.rewrite_scope.rewrite_targets)
            + told_creations(request.rewrite_scope.node_creations) + told_removals(
            request.rewrite_scope.node_removals,
        ) + told_marks(result.stale_nodes) + told_relinks(
            request.rewrite_scope.node_creations,
            result.structural_changes,
        ),
        result.unchanged_nodes == told_left(request, files, request.rewrite_scope.rewrite_targets),
        result.context_invalidations.len() == 0,
        are_pairs(result.structural_changes),
        result.unresolved_follow_ups == request.blocked_follow_ups,
{
    accepted_rewrites_succeed(request, files, result);
    let scope = request.rewrite_scope;
    let targets = scope.rewrite_targets;
    let merged = merged_changes(scope.link_changes)->0;
    let (f1, payloads) = after_cleaning(request, files);
    let (f2, r2) = after_rewrites(request, files);
    let (f3, r3) = after_creations(request, files);
    let (f4, r4) = after_removals(request, files);
    let (f5, r5) = after_marks(request, files);
    let empty = MutationReportsModel::empty();
    assert forall|k: int| 0 <= k < targets.len() implies (payload_from(
        payloads,
        (#[trigger] targets[k]).relative_path,
        0,
    ) is Some <==> files.is_file(targets[k].relative_path)) by {
        let path = targets[k].relative_path;
        assert(is_target(targets, path));
        cleaned_paths_are_those_named(request, path);
        cleaning_keeps_places(request, files, request.cleanup_paths(), 0, Seq::empty(), path);
    }
    assert(targets.take(0) =~= Seq::empty());
    assert(told_texts(request, files, targets.take(0)) =~= empty.changed_files) by {
        reveal(Seq::filter);
    }
    assert(told_left(request, files, targets.take(0)) =~= empty.unchanged_nodes) by {
        reveal(Seq::filter);
    }
    texts_are_told(request, files, f1, payloads, 0, empty);
    creations_are_told(request, f2, 0, r2);
    removals_are_reported(request, f3, 0, r3);
    marks_are_told(request, f4, payloads, to_mark(request), 0, r4);
    assert(scope.node_creations.skip(0) =~= scope.node_creations);
    assert(scope.node_removals.skip(0) =~= scope.node_removals);
    assert(to_mark(request).skip(0) =~= to_mark(request));
    assert(r5.stale_nodes =~= stale_nodes_of(to_mark(request)));
    assert(told_relinks(scope.node_creations, r5.structural_changes) =~= Seq::empty()) by {
        reveal(Seq::filter);
    }
    assert(r5.changed_files =~= r5.changed_files + told_relinks(
        scope.node_creations,
        r5.structural_changes,
    ));
    relinks_are_told(request, f5, payloads, merged, 0, r5, r5.changed_files);
}

/// Every file that is told to be removed is gone.
pub proof fn told_removals_are_gone(
    request: RefineRewriteRequestModel,
    files: PlanFilesModel,
    result: RefineRewriteResultModel,
    k: int,
)
    requires
        request.applied(files).1 == Ok::<_, RefineRewriteErrorModel>(result),
        0 <= k < result.changed_files.len(),
        result.changed_files[k].change_kind == RefineChangedFileKind::ExplicitlyRemoved,
    ensures
        !request.applied(files).0.is_present(result.changed_files[k].relative_path),
{
    changes_are_told(request, files, result);
    let scope = request.rewrite_scope;
    let texts = told_texts(request, files, scope.rewrite_targets);
    let made = told_creations(scope.node_creations);
    let gone = told_removals(scope.node_removals);
    let marks = told_marks(result.stale_nodes);
    let links = told_relinks(scope.node_creations, result.structural_changes);
    let at = k - texts.len() - made.len();
    if k < texts.len() {
        assert(result.changed_files[k] == texts[k]);
    } else if at < 0 {
        assert(result.changed_files[k] == made[k - texts.len()]);
    } else if at < gone.len() {
        assert(result.changed_files[k] == gone[at]);
        removed_nodes_are_gone(request, files, result, at);
    } else if at < gone.len() + marks.len() {
        assert(result.changed_files[k] == marks[at - gone.len()]);
    } else {
        assert(result.changed_files[k] == links[at - gone.len() - marks.len()]);
    }
}

/// A node that was made holds the last text that an action gives it, without
/// comments, or else its title alone, where it is neither removed nor marked nor
/// given other links.
pub proof fn made_nodes_hold_their_text(
    request: RefineRewriteRequestModel,
    files: PlanFilesModel,
    result: RefineRewriteResultModel,
    k: int,
)
    requires
        request.applied(files).1 == Ok::<_, RefineRewriteErrorModel>(result),
        0 <= k < request.rewrite_scope.node_creations.len(),
        request.is_sole_name(request.rewrite_scope.node_creations[k].relative_path),
        request.keeps_place(request.rewrite_scope.node_creations[k].relative_path),
        request.marks_nothing_at(request.rewrite_scope.node_creations[k].relative_path),
        request.links_nothing_at(request.rewrite_scope.node_creations[k].relative_path),
    ensures
        ({
            let path = request.rewrite_scope.node_creations[k].relative_path;
            let next = request.applied(files).0;
            &&& !request.gives_any(path) ==> holds(
                next,
                path,
                "# "@ + title_from_name(path) + "\n"@,
            )
            &&& forall|text: Seq<char>| #[trigger]
                request.gives_at_last(path, text) ==> without_comment_blocks(
                    path,
                    text,
                    request.preserved(path),
                ) is Ok && holds(
                    next,
                    path,
                    without_comment_blocks(path, text, request.preserved(path))->Ok_0,
                )
        }),
{
    accepted_rewrites_succeed(request, files, result);
    let creations = request.rewrite_scope.node_creations;
    let path = creations[k].relative_path;
    let (f2, r2) = after_rewrites(request, files);
    let (f3, r3) = after_creations(request, files);
    assert forall|m: int|
        k < m < creations.len() && path_key((#[trigger] creations[m]).relative_path) == path_key(
            path,
        ) implies creations[m].relative_path == path by {
        assert(is_created(creations, creations[m].relative_path));
        assert(request.names_path(creations[m].relative_path));
    }
    creations_hold(request, f2, 0, r2, k);
    removals_leave(request, f3, 0, r3, path);
    last_steps_leave(request, files, result, path);
    new_text_is_the_last(request, path);
}

/// A node that was updated holds the last text that an action gives it, without
/// comments, or else the text that it had, without comments, where it is not made
/// anew, removed, marked or given other links.
pub proof fn updated_nodes_hold_their_text(
    request: RefineRewriteRequestModel,
    files: PlanFilesModel,
    result: RefineRewriteResultModel,
    k: int,
)
    requires
        request.applied(files).1 == Ok::<_, RefineRewriteErrorModel>(result),
        0 <= k < request.rewrite_scope.rewrite_targets.len(),
        is_update(request.rewrite_scope.rewrite_targets[k]),
        request.is_sole_name(request.rewrite_scope.rewrite_targets[k].relative_path),
        request.makes_nothing_at(request.rewrite_scope.rewrite_targets[k].relative_path),
        request.keeps_place(request.rewrite_scope.rewrite_targets[k].relative_path),
        request.marks_nothing_at(request.rewrite_scope.rewrite_targets[k].relative_path),
        request.links_nothing_at(request.rewrite_scope.rewrite_targets[k].relative_path),
    ensures
        ({
            let path = request.rewrite_scope.rewrite_targets[k].relative_path;
            let next = request.applied(files).0;
            let old_text = files.read(path)->Ok_0;
            &&& !request.gives_any(path) && files.is_file(path) ==> {
                &&& files.read(path) is Ok
                &&& without_comment_blocks(path, old_text, request.preserved(path)) is Ok
                &&& holds(
                    next,
                    path,
                    without_comment_blocks(path, old_text, request.preserved(path))->Ok_0,
                )
            }
            &&& !request.gives_any(path) && !files.is_file(path) ==> same_at(files, next, path)
            &&& forall|text: Seq<char>| #[trigger]
                request.gives_at_last(path, text) ==> without_comment_blocks(
                    path,
                    text,
                    request.preserved(path),
                ) is Ok && holds(
                    next,
                    path,
                    without_comment_blocks(path, text, request.preserved(path))->Ok_0,
                )
        }),
{
    accepted_rewrites_succeed(request, files, result);
    let targets = request.rewrite_scope.rewrite_targets;
    let path = targets[k].relative_path;
    let paths = request.cleanup_paths();
    let none = Seq::<(Seq<char>, Seq<char>)>::empty();
    let empty = MutationReportsModel::empty();
    let (f1, payloads) = after_cleaning(request, files);
    let (f2, r2) = after_rewrites(request, files);
    let (f3, r3) = after_creations(request, files);
    assert(is_target(targets, path));
    cleaned_paths_are_those_named(request, path);
    sole_names_stand_alone(request, path);
    cleaning_keeps_places(request, files, paths, 0, none, path);
    if files.is_file(path) {
        cleaning_cleans(request, files, paths, 0, none, path);
    }
    let last = last_update_of(request, path, targets.len() as int, k);
    rewrites_hold(request, f1, payloads, 0, empty, last);
    new_text_is_the_last(request, path);
    if !request.gives_any(path) && !files.is_file(path) {
        nothing_is_written(request, f1, payloads, 0, empty, path);
        cleaning_leaves(request, files, paths, 0, none, path);
    }
    creations_leave(request, f2, 0, r2, path);
    removals_leave(request, f3, 0, r3, path);
    last_steps_leave(request, files, result, path);
}

proof fn sole_names_stand_alone(request: RefineRewriteRequestModel, path: Seq<char>)
    requires
        request.is_sole_name(path),
    ensures
        forall|k: int|
            0 <= k < request.cleanup_paths().len() && path_key(
                #[trigger] request.cleanup_paths()[k],
            ) == path_key(path) ==> request.cleanup_paths()[k] == path,
{
    let paths = request.cleanup_paths();
    assert forall|k: int|
        0 <= k < paths.len() && path_key(#[trigger] paths[k]) == path_key(path) implies paths[k]
        == path by {
        cleaned_paths_are_those_named(request, paths[k]);
        assert(paths.contains(paths[k]));
        assert(request.names_path(paths[k]));
    }
}

/// The last target among the first `n` that updates this path.
proof fn last_update_of(request: RefineRewriteRequestModel, path: Seq<char>, n: int, k: int) -> (
last: int)
    requires
        request.is_sole_name(path),
        0 <= k < n <= request.rewrite_scope.rewrite_targets.len(),
        is_update(request.rewrite_scope.rewrite_targets[k]),
        request.rewrite_scope.rewrite_targets[k].relative_path == path,
        forall|m: int|
            n <= m < request.rewrite_scope.rewrite_targets.len() && is_update(
                #[trigger] request.rewrite_scope.rewrite_targets[m],
            ) ==> path_key(request.rewrite_scope.rewrite_targets[m].relative_path) != path_key(path),
    ensures
        0 <= last < request.rewrite_scope.rewrite_targets.len(),
        is_update(request.rewrite_scope.rewrite_targets[last]),
        request.rewrite_scope.rewrite_targets[last].relative_path == path,
        forall|m: int|
            last < m < request.rewrite_scope.rewrite_targets.len() && is_update(
                #[trigger] request.rewrite_scope.rewrite_targets[m],
            ) ==> path_key(request.rewrite_scope.rewrite_targets[m].relative_path) != path_key(path),
    decreases n,
{
    let targets = request.rewrite_scope.rewrite_targets;
    let target = targets[n - 1];
    if is_update(target) && path_key(target.relative_path) == path_key(path) {
        assert(is_target(targets, target.relative_path));
        assert(request.names_path(target.relative_path));
        n - 1
    } else {
        last_update_of(request, path, n - 1, k)
    }
}

proof fn nothing_is_written(
    request: RefineRewriteRequestModel,
    files: PlanFilesModel,
    payloads: Seq<(Seq<char>, Seq<char>)>,
    i: int,
    reports: MutationReportsModel,
    path: Seq<char>,
)
    requires
        0 <= i,
        request.is_sole_name(path),
        request.replacement(path, request.decisions.len() as int) is None,
        payload_from(payloads, path, 0) is None,
        request.rewritten_from(files, payloads, i, reports).1 is Ok,
    ensures
        same_at(files, request.rewritten_from(files, payloads, i, reports).0, path),
    decreases request.rewrite_scope.rewrite_targets.len() - i,
{
    let targets = request.rewrite_scope.rewrite_targets;
    if i < targets.len() {
        let target = targets[i];
        let at = target.relative_path;
        assert(is_target(targets, at));
        assert(request.names_path(at));
        if !is_update(target) {
            nothing_is_written(request, files, payloads, i + 1, reports, path);
        } else {
            let text = match request.clean_replacement(at)->Ok_0 {
                Some(text) => Some(text),
                None => payload_from(payloads, at, 0),
            };
            match text {
                None => {
                    nothing_is_written(
                        request,
                        files,
                        payloads,
                        i + 1,
                        reports.with_unchanged(at, target.node_id),
                        path,
                    );
                },
                Some(markdown) => {
                    let next = request.write(files, at, markdown).0;
                    writes_hold(request, files, at, markdown);
                    assert(path_key(at) != path_key(path));
                    assert(same_at(files, next, path));
                    nothing_is_written(
                        request,
                        next,
                        payloads,
                        i + 1,
                        reports.with_changed(
                            at,
                            target.node_id,
                            RefineChangedFileKind::TextUpdated,
                        ),
                        path,
                    );
                },
            }
        }
    }
}

/// A file that only comments of the decisions stand in loses them, and nothing
/// else.
pub proof fn comments_are_taken_out(
    request: RefineRewriteRequestModel,
    files: PlanFilesModel,
    result: RefineRewriteResultModel,
    path: Seq<char>,
)
    requires
        request.applied(files).1 == Ok::<_, RefineRewriteErrorModel>(result),
        is_source(request.decisions, path),
        files.is_file(path),
        request.is_sole_name(path),
        !is_target(request.rewrite_scope.rewrite_targets, path),
        request.makes_nothing_at(path),
        request.keeps_place(path),
        request.marks_nothing_at(path),
        request.links_nothing_at(path),
    ensures
        files.read(path) is Ok,
        without_comment_blocks(path, files.read(path)->Ok_0, request.preserved(path)) is Ok,
        holds(
            request.applied(files).0,
            path,
            without_comment_blocks(
                path,
                files.read(path)->Ok_0,
                request.preserved(path),
            )->Ok_0,
        ),
{
    accepted_rewrites_succeed(request, files, result);
    let paths = request.cleanup_paths();
    let none = Seq::<(Seq<char>, Seq<char>)>::empty();
    let (f1, payloads) = after_cleaning(request, files);
    let (f2, r2) = after_rewrites(request, files);
    let (f3, r3) = after_creations(request, files);
    let scope = request.rewrite_scope;
    cleaned_paths_are_those_named(request, path);
    sole_names_stand_alone(request, path);
    cleaning_cleans(request, files, paths, 0, none, path);
    assert(!request.is_mutated_later(path)) by {
        if is_created(scope.node_creations, path) {
            let k = choose|k: int|
                0 <= k < scope.node_creations.len() && (
                #[trigger] scope.node_creations[k]).relative_path == path;
            assert(path_key(scope.node_creations[k].relative_path) != path_key(path));
        }
        if is_removed(scope.node_removals, path) {
            let k = choose|k: int|
                0 <= k < scope.node_removals.len() && (
                #[trigger] scope.node_removals[k]).relative_path == path;
            assert(path_key(scope.node_removals[k].relative_path) != path_key(path));
        }
        if is_stale(scope.stale_descendants, path) {
            let k = choose|k: int|
                0 <= k < scope.stale_descendants.len() && (
                #[trigger] scope.stale_descendants[k]).relative_path == path;
            assert(path_key(scope.stale_descendants[k].relative_path) != path_key(path));
        }
        if is_relinked(scope.link_changes, path) {
            let k = choose|k: int|
                0 <= k < scope.link_changes.len() && (
                #[trigger] scope.link_changes[k]).parent_relative_path == path;
            assert(path_key(scope.link_changes[k].parent_relative_path) != path_key(path));
        }
    }
    assert forall|k: int|
        0 <= k < scope.rewrite_targets.len() && is_update(
            #[trigger] scope.rewrite_targets[k],
        ) implies path_key(scope.rewrite_targets[k].relative_path) != path_key(path) by {
        let at = scope.rewrite_targets[k].relative_path;
        assert(is_target(scope.rewrite_targets, at));
        assert(request.names_path(at));
    }
    rewrites_leave(request, f1, payloads, 0, MutationReportsModel::empty(), path);
    creations_leave(request, f2, 0, r2, path);
    removals_leave(request, f3, 0, r3, path);
    last_steps_leave(request, files, result, path);
}

// ---------------------------------------------------------------------
// Stale nodes
// ---------------------------------------------------------------------
/// The reason says something, put on one line.
pub open spec fn is_telling(stale: RefineStaleDescendantModel) -> bool {
    normalized_reason(stale.reason).len() > 0
}

/// The id is the first that one of the first `n` nodes with this path has.
pub open spec fn is_first_id(
    stale: Seq<RefineStaleDescendantModel>,
    n: int,
    path: Seq<char>,
    id: Option<Seq<char>>,
) -> bool {
    match id {
        None => forall|j: int|
            0 <= j < n && (#[trigger] stale[j]).relative_path == path ==> stale[j].node_id is None,
        Some(given) => exists|j: int|
            0 <= j < n && (#[trigger] stale[j]).relative_path == path && stale[j].node_id == Some(
                given,
            ) && forall|m: int|
                0 <= m < j && (#[trigger] stale[m]).relative_path == path ==> stale[m].node_id
                    is None,
    }
}

/// The reason is the last one that says something among those that the first `n`
/// nodes with this path have, put on one line, or empty where none does.
pub open spec fn is_last_reason(
    stale: Seq<RefineStaleDescendantModel>,
    n: int,
    path: Seq<char>,
    reason: Seq<char>,
) -> bool {
    if reason.len() == 0 {
        forall|j: int|
            0 <= j < n && (#[trigger] stale[j]).relative_path == path ==> !is_telling(stale[j])
    } else {
        exists|j: int|
            0 <= j < n && (#[trigger] stale[j]).relative_path == path && normalized_reason(
                stale[j].reason,
            ) == reason && forall|m: int|
                j < m < n && (#[trigger] stale[m]).relative_path == path ==> !is_telling(stale[m])
    }
}

/// The node stands for those of the first `n` that have its path.
spec fn stands_for(
    stale: Seq<RefineStaleDescendantModel>,
    n: int,
    node: RefineStaleDescendantModel,
) -> bool {
    &&& is_first_id(stale, n, node.relative_path, node.node_id)
    &&& is_last_reason(stale, n, node.relative_path, node.reason)
}

spec fn stand_for_all(
    stale: Seq<RefineStaleDescendantModel>,
    n: int,
    acc: Seq<RefineStaleDescendantModel>,
) -> bool {
    &&& forall|k: int| 0 <= k < acc.len() ==> stands_for(stale, n, #[trigger] acc[k])
    &&& forall|k: int, m: int|
        0 <= k < m < acc.len() ==> (#[trigger] acc[k]).relative_path != (
        #[trigger] acc[m]).relative_path
    &&& forall|j: int|
        0 <= j < n ==> is_stale(acc, (#[trigger] stale[j]).relative_path)
    &&& forall|k: int|
        0 <= k < acc.len() ==> exists|j: int|
            0 <= j < n && (#[trigger] stale[j]).relative_path == (#[trigger] acc[k]).relative_path
}

proof fn one_stale_more(
    stale: Seq<RefineStaleDescendantModel>,
    i: int,
    acc: Seq<RefineStaleDescendantModel>,
)
    requires
        0 <= i < stale.len(),
        stand_for_all(stale, i, acc),
    ensures
        stand_for_all(stale, i + 1, with_stale_node(acc, stale[i])),
{
    let one = stale[i];
    let path = one.relative_path;
    let next = with_stale_node(acc, one);
    stale_index_is_found(acc, path, 0);
    let at = match stale_index_from(acc, path, 0) {
        Some(k) => k,
        None => acc.len() as int,
    };
    assert(next[at].relative_path == path);
    if at < acc.len() {
        let old_node = acc[at];
        assert(stands_for(stale, i, old_node));
        match old_node.node_id {
            Some(id) => {
                let j = choose|j: int|
                    0 <= j < i && (#[trigger] stale[j]).relative_path == path && stale[j].node_id
                        == Some(id) && forall|m: int|
                        0 <= m < j && (#[trigger] stale[m]).relative_path == path
                            ==> stale[m].node_id is None;
                assert(stale[j].relative_path == path);
            },
            None => {
                assert(stale[i].relative_path == path);
            },
        }
        assert(is_first_id(stale, i + 1, path, next[at].node_id));
        if is_telling(one) {
            assert(stale[i].relative_path == path);
        } else if old_node.reason.len() > 0 {
            let j = choose|j: int|
                0 <= j < i && (#[trigger] stale[j]).relative_path == path && normalized_reason(
                    stale[j].reason,
                ) == old_node.reason && forall|m: int|
                    j < m < i && (#[trigger] stale[m]).relative_path == path ==> !is_telling(
                        stale[m],
                    );
            assert(stale[j].relative_path == path);
        }
        assert(is_last_reason(stale, i + 1, path, next[at].reason));
    } else {
        assert forall|j: int| 0 <= j < i implies (#[trigger] stale[j]).relative_path != path by {
            assert(is_stale(acc, stale[j].relative_path));
        }
        assert(stale[i].relative_path == path);
        assert(is_first_id(stale, i + 1, path, next[at].node_id));
        assert(is_last_reason(stale, i + 1, path, next[at].reason));
    }
    assert forall|k: int| 0 <= k < next.len() implies stands_for(
        stale,
        i + 1,
        #[trigger] next[k],
    ) by {
        if k != at {
            assert(next[k] == acc[k]);
            assert(acc[k].relative_path != path);
            other_nodes_stand_for_the_same(stale, i, acc[k]);
        }
    }
    assert forall|k: int, m: int| 0 <= k < m < next.len() implies (
    #[trigger] next[k]).relative_path != (#[trigger] next[m]).relative_path by {
        assert(next[k].relative_path == acc[k].relative_path);
        if m < acc.len() {
            assert(next[m].relative_path == acc[m].relative_path);
        }
    }
    assert forall|j: int| 0 <= j < i + 1 implies is_stale(
        next,
        (#[trigger] stale[j]).relative_path,
    ) by {
        if j < i {
            assert(is_stale(acc, stale[j].relative_path));
            let k = choose|k: int|
                0 <= k < acc.len() && (#[trigger] acc[k]).relative_path == stale[j].relative_path;
            assert(next[k].relative_path == stale[j].relative_path);
        } else {
            assert(next[at].relative_path == path);
        }
    }
    assert forall|k: int| 0 <= k < next.len() implies exists|j: int|
        0 <= j < i + 1 && (#[trigger] stale[j]).relative_path == (
        #[trigger] next[k]).relative_path by {
        if k != at {
            assert(next[k].relative_path == acc[k].relative_path);
            let j = choose|j: int|
                0 <= j < i && (#[trigger] stale[j]).relative_path == acc[k].relative_path;
            assert(stale[j].relative_path == next[k].relative_path);
        } else {
            assert(stale[i].relative_path == next[k].relative_path);
        }
    }
}

proof fn other_nodes_stand_for_the_same(
    stale: Seq<RefineStaleDescendantModel>,
    i: int,
    node: RefineStaleDescendantModel,
)
    requires
        0 <= i < stale.len(),
        stands_for(stale, i, node),
        stale[i].relative_path != node.relative_path,
    ensures
        stands_for(stale, i + 1, node),
{
    let path = node.relative_path;
    if let Some(id) = node.node_id {
        let j = choose|j: int|
            0 <= j < i && (#[trigger] stale[j]).relative_path == path && stale[j].node_id == Some(
                id,
            ) && forall|m: int|
                0 <= m < j && (#[trigger] stale[m]).relative_path == path ==> stale[m].node_id
                    is None;
        assert(stale[j].relative_path == path);
    }
    if node.reason.len() > 0 {
        let j = choose|j: int|
            0 <= j < i && (#[trigger] stale[j]).relative_path == path && normalized_reason(
                stale[j].reason,
            ) == node.reason && forall|m: int|
                j < m < i && (#[trigger] stale[m]).relative_path == path ==> !is_telling(stale[m]);
        assert(stale[j].relative_path == path);
    }
}

proof fn unique_stale_stand_for_all(
    stale: Seq<RefineStaleDescendantModel>,
    i: int,
    acc: Seq<RefineStaleDescendantModel>,
)
    requires
        0 <= i <= stale.len(),
        stand_for_all(stale, i, acc),
    ensures
        stand_for_all(stale, stale.len() as int, unique_stale_from(stale, i, acc)),
    decreases stale.len() - i,
{
    if i < stale.len() {
        one_stale_more(stale, i, acc);
        unique_stale_stand_for_all(stale, i + 1, with_stale_node(acc, stale[i]));
    }
}

/// The stale nodes that are told are those that were to be marked, each path
/// once, with the first id that it was given and the last reason that says
/// something.
pub proof fn stale_nodes_are_those_to_mark(
    request: RefineRewriteRequestModel,
    files: PlanFilesModel,
    result: RefineRewriteResultModel,
)
    requires
        request.applied(files).1 == Ok::<_, RefineRewriteErrorModel>(result),
    ensures
        ({
            let stale = request.rewrite_scope.stale_descendants;
            let n = stale.len() as int;
            let nodes = result.stale_nodes;
            &&& forall|k: int|
                0 <= k < nodes.len() ==> is_first_id(
                    stale,
                    n,
                    (#[trigger] nodes[k]).relative_path,
                    nodes[k].node_id,
                ) && is_last_reason(stale, n, nodes[k].relative_path, nodes[k].reason)
            &&& forall|k: int, m: int|
                0 <= k < m < nodes.len() ==> (#[trigger] nodes[k]).relative_path != (
                #[trigger] nodes[m]).relative_path
            &&& forall|j: int|
                0 <= j < n ==> exists|k: int|
                    0 <= k < nodes.len() && (#[trigger] nodes[k]).relative_path == (
                    #[trigger] stale[j]).relative_path
            &&& forall|k: int|
                0 <= k < nodes.len() ==> exists|j: int|
                    0 <= j < n && (#[trigger] stale[j]).relative_path == (
                    #[trigger] nodes[k]).relative_path
        }),
{
    let stale = request.rewrite_scope.stale_descendants;
    let nodes = result.stale_nodes;
    let marked = to_mark(request);
    stale_nodes_are_told(request, files, result);
    unique_stale_stand_for_all(stale, 0, Seq::empty());
    assert forall|k: int| 0 <= k < nodes.len() implies nodes[k] == stale_node_of(marked[k]) by {}
    assert forall|k: int| 0 <= k < nodes.len() implies is_first_id(
        stale,
        stale.len() as int,
        (#[trigger] nodes[k]).relative_path,
        nodes[k].node_id,
    ) && is_last_reason(stale, stale.len() as int, nodes[k].relative_path, nodes[k].reason) by {
        assert(stands_for(stale, stale.len() as int, marked[k]));
    }
    assert forall|k: int, m: int| 0 <= k < m < nodes.len() implies (
    #[trigger] nodes[k]).relative_path != (#[trigger] nodes[m]).relative_path by {
        assert(marked[k].relative_path != marked[m].relative_path);
    }
    assert forall|j: int| 0 <= j < stale.len() implies exists|k: int|
        0 <= k < nodes.len() && (#[trigger] nodes[k]).relative_path == (
        #[trigger] stale[j]).relative_path by {
        assert(is_stale(marked, stale[j].relative_path));
        let k = choose|k: int|
            0 <= k < marked.len() && (#[trigger] marked[k]).relative_path == stale[j].relative_path;
        assert(nodes[k].relative_path == stale[j].relative_path);
    }
    assert forall|k: int| 0 <= k < nodes.len() implies exists|j: int|
        0 <= j < stale.len() && (#[trigger] stale[j]).relative_path == (
        #[trigger] nodes[k]).relative_path by {
        let j = choose|j: int|
            0 <= j < stale.len() && (#[trigger] stale[j]).relative_path == (
            #[trigger] marked[k]).relative_path;
        assert(stale[j].relative_path == nodes[k].relative_path);
    }
}

proof fn stale_nodes_are_told(
    request: RefineRewriteRequestModel,
    files: PlanFilesModel,
    result: RefineRewriteResultModel,
)
    requires
        request.applied(files).1 == Ok::<_, RefineRewriteErrorModel>(result),
    ensures
        result.stale_nodes == stale_nodes_of(to_mark(request)),
{
    accepted_rewrites_succeed(request, files, result);
    let merged = merged_changes(request.rewrite_scope.link_changes)->0;
    let payloads = after_cleaning(request, files).1;
    let (f2, r2) = after_rewrites(request, files);
    let (f3, r3) = after_creations(request, files);
    let (f4, r4) = after_removals(request, files);
    let (f5, r5) = after_marks(request, files);
    rewrites_tell_no_mark(
        request,
        after_cleaning(request, files).0,
        payloads,
        0,
        MutationReportsModel::empty(),
    );
    creations_are_told(request, f2, 0, r2);
    removals_are_reported(request, f3, 0, r3);
    marks_are_told(request, f4, payloads, to_mark(request), 0, r4);
    assert(to_mark(request).skip(0) =~= to_mark(request));
    assert(r5.stale_nodes =~= stale_nodes_of(to_mark(request)));
    relinks_tell_no_mark(request, f5, payloads, merged, 0, r5);
}

proof fn rewrites_tell_no_mark(
    request: RefineRewriteRequestModel,
    files: PlanFilesModel,
    payloads: Seq<(Seq<char>, Seq<char>)>,
    i: int,
    reports: MutationReportsModel,
)
    requires
        request.rewritten_from(files, payloads, i, reports).1 is Ok,
        0 <= i,
    ensures
        request.rewritten_from(files, payloads, i, reports).1->Ok_0.stale_nodes
            == reports.stale_nodes,
        request.rewritten_from(files, payloads, i, reports).1->Ok_0.structural_changes
            == reports.structural_changes,
    decreases request.rewrite_scope.rewrite_targets.len() - i,
{
    let targets = request.rewrite_scope.rewrite_targets;
    if i < targets.len() {
        let target = targets[i];
        let at = target.relative_path;
        if !is_update(target) {
            rewrites_tell_no_mark(request, files, payloads, i + 1, reports);
        } else {
            let text = match request.clean_replacement(at)->Ok_0 {
                Some(text) => Some(text),
                None => payload_from(payloads, at, 0),
            };
            match text {
                None => {
                    let told = reports.with_unchanged(at, target.node_id);
                    rewrites_tell_no_mark(request, files, payloads, i + 1, told);
                },
                Some(markdown) => {
                    let next = request.write(files, at, markdown).0;
                    let told = reports.with_changed(
                        at,
                        target.node_id,
                        RefineChangedFileKind::TextUpdated,
                    );
                    rewrites_tell_no_mark(request, next, payloads, i + 1, told);
                },
            }
        }
    }
}

proof fn relinks_tell_no_mark(
    request: RefineRewriteRequestModel,
    files: PlanFilesModel,
    payloads: Seq<(Seq<char>, Seq<char>)>,
    merged: Seq<MergedLinkChangeModel>,
    i: int,
    reports: MutationReportsModel,
)
    requires
        0 <= i <= merged.len(),
        request.relinked_from(files, payloads, merged, i, reports).1 is Ok,
    ensures
        request.relinked_from(files, payloads, merged, i, reports).1->Ok_0.stale_nodes
            == reports.stale_nodes,
    decreases merged.len() - i,
{
    if i < merged.len() {
        let (next, result) = request.relinked(files, payloads, merged[i]);
        match result->Ok_0 {
            None => {
                relinks_tell_no_mark(request, next, payloads, merged, i + 1, reports);
            },
            Some(mutation) => {
                relinks_tell_no_mark(
                    request,
                    next,
                    payloads,
                    merged,
                    i + 1,
                    reports.with_relinked(mutation),
                );
            },
        }
    }
}

/// A node that is told to be stale holds its text, without comments, with the
/// marker that gives the reason, where its links do not change.
pub proof fn stale_nodes_hold_a_marker(
    request: RefineRewriteRequestModel,
    files: PlanFilesModel,
    result: RefineRewriteResultModel,
    k: int,
)
    requires
        request.applied(files).1 == Ok::<_, RefineRewriteErrorModel>(result),
        0 <= k < result.stale_nodes.len(),
        request.is_sole_name(result.stale_nodes[k].relative_path),
        request.links_nothing_at(result.stale_nodes[k].relative_path),
    ensures
        ({
            let node = result.stale_nodes[k];
            let path = node.relative_path;
            let next = request.applied(files).0;
            let old_text = files.read(path)->Ok_0;
            &&& exists|text: Seq<char>| #[trigger]
                holds(next, path, marked_stale(text, node.reason))
            &&& files.is_file(path) ==> {
                &&& files.read(path) is Ok
                &&& without_comment_blocks(path, old_text, request.preserved(path)) is Ok
                &&& holds(
                    next,
                    path,
                    marked_stale(
                        without_comment_blocks(path, old_text, request.preserved(path))->Ok_0,
                        node.reason,
                    ),
                )
            }
        }),
{
    accepted_rewrites_succeed(request, files, result);
    stale_nodes_are_told(request, files, result);
    let marked = to_mark(request);
    let stale = request.rewrite_scope.stale_descendants;
    let path = marked[k].relative_path;
    assert(result.stale_nodes[k] == stale_node_of(marked[k]));
    let (f1, payloads) = after_cleaning(request, files);
    let (f4, r4) = after_removals(request, files);
    let paths = request.cleanup_paths();
    let none = Seq::<(Seq<char>, Seq<char>)>::empty();
    stale_nodes_are_marked_once(stale);
    assert forall|m: int| 0 <= m < marked.len() && m != k implies path_key(
        (#[trigger] marked[m]).relative_path,
    ) != path_key(marked[k].relative_path) by {
        assert(is_stale(stale, marked[m].relative_path));
        assert(request.names_path(marked[m].relative_path));
        if m < k {
            assert(marked[m].relative_path != marked[k].relative_path);
        } else {
            assert(marked[k].relative_path != marked[m].relative_path);
        }
    }
    marks_hold(request, f4, payloads, marked, 0, r4, k);
    last_steps_leave(request, files, result, path);
    let text = request.clean_or_disk(f4, payloads, path)->Ok_0;
    assert(holds(
        request.applied(files).0,
        path,
        marked_stale(text, result.stale_nodes[k].reason),
    ));
    if files.is_file(path) {
        assert(is_stale(stale, path));
        cleaned_paths_are_those_named(request, path);
        sole_names_stand_alone(request, path);
        cleaning_cleans(request, files, paths, 0, none, path);
    }
}

// ---------------------------------------------------------------------
// Links
// ---------------------------------------------------------------------
proof fn linked_children(
    rows: Seq<ChildLinkRowModel>,
    children: Seq<Seq<char>>,
    i: int,
    acc: Seq<Seq<char>>,
    child: Seq<char>,
)
    requires
        0 <= i <= children.len(),
    ensures
        linked_from(rows, children, i, acc).contains(child) <==> acc.contains(child) || (row_paths(
            rows,
        ).contains(child) && children.skip(i).contains(child)),
    decreases children.len() - i,
{
    if i < children.len() {
        let rest = children.skip(i);
        assert(rest[0] == children[i]);
        assert(rest.contains(child) <==> child == children[i] || children.skip(i + 1).contains(
            child,
        )) by {
            first_or_later(children, i, child);
        }
        if row_paths(rows).contains(children[i]) {
            let more = acc.push(children[i]);
            one_more_is_held(acc, children[i], child);
            linked_children(rows, children, i + 1, more, child);
        } else {
            linked_children(rows, children, i + 1, acc, child);
        }
    } else {
        assert(children.skip(i).len() == 0);
    }
}

proof fn first_or_later(list: Seq<Seq<char>>, i: int, one: Seq<char>)
    requires
        0 <= i < list.len(),
    ensures
        list.skip(i).contains(one) <==> one == list[i] || list.skip(i + 1).contains(one),
{
    let rest = list.skip(i);
    let later = list.skip(i + 1);
    if rest.contains(one) {
        let k = choose|k: int| 0 <= k < rest.len() && rest[k] == one;
        if k > 0 {
            assert(later[k - 1] == one);
        }
    }
    if later.contains(one) {
        let k = choose|k: int| 0 <= k < later.len() && later[k] == one;
        assert(rest[k + 1] == one);
    }
    assert(rest[0] == list[i]);
}

proof fn one_more_is_held(list: Seq<Seq<char>>, more: Seq<char>, one: Seq<char>)
    ensures
        list.push(more).contains(one) <==> list.contains(one) || one == more,
{
    let out = list.push(more);
    assert(out[list.len() as int] == more);
    if list.contains(one) {
        let k = choose|k: int| 0 <= k < list.len() && list[k] == one;
        assert(out[k] == one);
    }
    if out.contains(one) {
        let k = choose|k: int| 0 <= k < out.len() && out[k] == one;
        if k < list.len() {
            assert(list[k] == one);
        }
    }
}

proof fn kept_children(
    rows: Seq<ChildLinkRowModel>,
    removed: Seq<Seq<char>>,
    i: int,
    acc: Seq<ChildLinkRowModel>,
    child: Seq<char>,
)
    requires
        0 <= i <= rows.len(),
    ensures
        row_paths(kept_rows_from(rows, removed, i, acc)).contains(child) <==> row_paths(
            acc,
        ).contains(child) || (!removed.contains(child) && row_paths(rows).skip(i).contains(child)),
    decreases rows.len() - i,
{
    let paths = row_paths(rows);
    if i < rows.len() {
        first_or_later(paths, i, child);
        if removed.contains(rows[i].canonical_path) {
            kept_children(rows, removed, i + 1, acc, child);
        } else {
            let more = acc.push(rows[i]);
            assert(row_paths(more) =~= row_paths(acc).push(rows[i].canonical_path));
            one_more_is_held(row_paths(acc), rows[i].canonical_path, child);
            kept_children(rows, removed, i + 1, more, child);
        }
    } else {
        assert(paths.skip(i).len() == 0);
    }
}

proof fn unlinked_children(
    linked: Seq<Seq<char>>,
    children: Seq<Seq<char>>,
    i: int,
    acc: Seq<Seq<char>>,
    child: Seq<char>,
)
    requires
        0 <= i <= children.len(),
    ensures
        unlinked_from(linked, children, i, acc).contains(child) <==> acc.contains(child) || (
        !linked.contains(child) && children.skip(i).contains(child)),
    decreases children.len() - i,
{
    if i < children.len() {
        first_or_later(children, i, child);
        if linked.contains(children[i]) || acc.contains(children[i]) {
            unlinked_children(linked, children, i + 1, acc, child);
        } else {
            one_more_is_held(acc, children[i], child);
            unlinked_children(linked, children, i + 1, acc.push(children[i]), child);
        }
    } else {
        assert(children.skip(i).len() == 0);
    }
}

/// What a change of a parent adds and removes, where these are its links.
spec fn removed_of(rows: Seq<ChildLinkRowModel>, change: MergedLinkChangeModel) -> Seq<Seq<char>> {
    linked_from(rows, change.remove_child_relative_paths, 0, Seq::empty())
}

spec fn added_of(rows: Seq<ChildLinkRowModel>, change: MergedLinkChangeModel) -> Seq<Seq<char>> {
    unlinked_from(
        row_paths(kept_rows_from(rows, removed_of(rows, change), 0, Seq::empty())),
        change.add_child_relative_paths,
        0,
        Seq::empty(),
    )
}

proof fn changes_of_rows(
    rows: Seq<ChildLinkRowModel>,
    change: MergedLinkChangeModel,
    child: Seq<char>,
)
    requires
        is_consistent(change),
    ensures
        removed_of(rows, change).contains(child) <==> change.remove_child_relative_paths.contains(
            child,
        ) && row_paths(rows).contains(child),
        added_of(rows, change).contains(child) <==> change.add_child_relative_paths.contains(child)
            && !row_paths(rows).contains(child),
{
    let adds = change.add_child_relative_paths;
    let removes = change.remove_child_relative_paths;
    let removed = removed_of(rows, change);
    let kept = kept_rows_from(rows, removed, 0, Seq::empty());
    assert(adds.skip(0) =~= adds && removes.skip(0) =~= removes);
    assert(row_paths(rows).skip(0) =~= row_paths(rows));
    linked_children(rows, removes, 0, Seq::empty(), child);
    kept_children(rows, removed, 0, Seq::empty(), child);
    unlinked_children(row_paths(kept), adds, 0, Seq::empty(), child);
    assert(!Seq::<Seq<char>>::empty().contains(child));
    assert(!row_paths(Seq::<ChildLinkRowModel>::empty()).contains(child));
    if adds.contains(child) {
        let k = choose|k: int| 0 <= k < adds.len() && adds[k] == child;
        assert(!removes.contains(adds[k]));
    }
}

/// The change tells this of the parent.
pub open spec fn tells_of(
    change: RefineStructuralChangeModel,
    parent: Seq<char>,
    added: Seq<Seq<char>>,
    removed: Seq<Seq<char>>,
) -> bool {
    &&& change.parent_relative_path == parent
    &&& change.added_child_relative_paths == added
    &&& change.removed_child_relative_paths == removed
}

proof fn relinks_tell(
    request: RefineRewriteRequestModel,
    files: PlanFilesModel,
    payloads: Seq<(Seq<char>, Seq<char>)>,
    merged: Seq<MergedLinkChangeModel>,
    i: int,
    reports: MutationReportsModel,
    k: int,
    text: Seq<char>,
)
    requires
        0 <= i <= merged.len(),
        0 <= k < merged.len(),
        request.relinked_from(files, payloads, merged, i, reports).1 is Ok,
        forall|m: int|
            0 <= m < merged.len() && m != k ==> (#[trigger] merged[m]).parent_relative_path
                != merged[k].parent_relative_path,
        !request.is_mutated_before_links(merged[k].parent_relative_path),
        payload_from(payloads, merged[k].parent_relative_path, 0) == Some(text),
    ensures
        ({
            let told = request.relinked_from(
                files,
                payloads,
                merged,
                i,
                reports,
            ).1->Ok_0.structural_changes;
            let parent = merged[k].parent_relative_path;
            let rows = link_rows(parent, text)->Ok_0;
            let added = added_of(rows, merged[k]);
            let removed = removed_of(rows, merged[k]);
            let n = reports.structural_changes.len();
            &&& i <= k ==> link_rows(parent, text) is Ok
            &&& told.len() >= n
            &&& forall|j: int| 0 <= j < n ==> #[trigger] told[j] == reports.structural_changes[j]
            &&& forall|j: int|
                n <= j < told.len() && (#[trigger] told[j]).parent_relative_path == parent ==> i <= k
                    && tells_of(told[j], parent, added, removed)
            &&& i <= k && (added.len() > 0 || removed.len() > 0) ==> exists|j: int|
                n <= j < told.len() && tells_of(#[trigger] told[j], parent, added, removed)
        }),
    decreases merged.len() - i,
{
    if i < merged.len() {
        let (next, result) = request.relinked(files, payloads, merged[i]);
        let parent = merged[k].parent_relative_path;
        let rows = link_rows(parent, text)->Ok_0;
        let added = added_of(rows, merged[k]);
        let removed = removed_of(rows, merged[k]);
        match result->Ok_0 {
            None => {
                relinks_tell(request, next, payloads, merged, i + 1, reports, k, text);
            },
            Some(mutation) => {
                let more = reports.with_relinked(mutation);
                let n = reports.structural_changes.len() as int;
                relinks_tell(request, next, payloads, merged, i + 1, more, k, text);
                let told = request.relinked_from(
                    files,
                    payloads,
                    merged,
                    i,
                    reports,
                ).1->Ok_0.structural_changes;
                assert(told[n] == more.structural_changes[n]);
                assert(told[n + 1] == more.structural_changes[n + 1]);
                assert(told[n].parent_relative_path == merged[i].parent_relative_path);
                assert(told[n + 1].parent_relative_path == merged[i].parent_relative_path);
                if i == k {
                    assert(tells_of(told[n], parent, added, removed));
                    assert(tells_of(told[n + 1], parent, added, removed));
                } else {
                    assert(merged[i].parent_relative_path != parent);
                }
                assert forall|j: int| 0 <= j < n implies #[trigger] told[j]
                    == reports.structural_changes[j] by {
                    assert(told[j] == more.structural_changes[j]);
                }
            },
        }
    }
}

/// The text that a parent had, without comments, decides how its links change: it
/// loses those of the children that it was to lose that were linked, and gains
/// those that it was to gain that were not. Nothing else is told of it.
pub proof fn links_change_as_asked(
    request: RefineRewriteRequestModel,
    files: PlanFilesModel,
    result: RefineRewriteResultModel,
    parent: Seq<char>,
    child: Seq<char>,
)
    requires
        request.applied(files).1 == Ok::<_, RefineRewriteErrorModel>(result),
        is_relinked(request.rewrite_scope.link_changes, parent),
        request.is_sole_name(parent),
        files.is_file(parent),
        !request.is_mutated_before_links(parent),
    ensures
        ({
            let old_text = files.read(parent)->Ok_0;
            let clean = without_comment_blocks(
                parent,
                old_text,
                request.preserved(parent),
            )->Ok_0;
            let linked = row_paths(link_rows(parent, clean)->Ok_0);
            let changes = request.rewrite_scope.link_changes;
            &&& files.read(parent) is Ok
            &&& without_comment_blocks(parent, old_text, request.preserved(parent)) is Ok
            &&& link_rows(parent, clean) is Ok
            &&& loses_child(result.structural_changes, parent, child) <==> removes_child(
                changes,
                parent,
                child,
                0,
            ) && linked.contains(child)
            &&& gains_child(result.structural_changes, parent, child) <==> adds_child(
                changes,
                parent,
                child,
                0,
            ) && !linked.contains(child)
        }),
{
    accepted_rewrites_succeed(request, files, result);
    let changes = request.rewrite_scope.link_changes;
    let merged = merged_changes(changes)->0;
    let (f1, payloads) = after_cleaning(request, files);
    let (f5, r5) = after_marks(request, files);
    let paths = request.cleanup_paths();
    let none = Seq::<(Seq<char>, Seq<char>)>::empty();
    let told = result.structural_changes;
    merged_changes_are_the_changes(changes);
    merged_has_each_parent(changes, 0, Seq::empty(), parent);
    let k = choose|k: int|
        0 <= k < merged.len() && (#[trigger] merged[k]).parent_relative_path == parent;
    assert forall|m: int| 0 <= m < merged.len() && m != k implies (
    #[trigger] merged[m]).parent_relative_path != merged[k].parent_relative_path by {
        if m < k {
            assert(merged[m].parent_relative_path != merged[k].parent_relative_path);
        } else {
            assert(merged[k].parent_relative_path != merged[m].parent_relative_path);
        }
    }
    cleaned_paths_are_those_named(request, parent);
    sole_names_stand_alone(request, parent);
    cleaning_cleans(request, files, paths, 0, none, parent);
    let clean = payload_from(payloads, parent, 0)->0;
    let rows = link_rows(parent, clean)->Ok_0;
    no_links_told_yet(request, files, result);
    relinks_tell(request, f5, payloads, merged, 0, r5, k, clean);
    changes_of_rows(rows, merged[k], child);
    let added = added_of(rows, merged[k]);
    let removed = removed_of(rows, merged[k]);
    assert(has_addition(merged, parent, child) <==> adds_child(changes, parent, child, 0));
    assert(has_removal(merged, parent, child) <==> removes_child(changes, parent, child, 0));
    assert(has_addition(merged, parent, child)
        <==> merged[k].add_child_relative_paths.contains(child));
    assert(has_removal(merged, parent, child)
        <==> merged[k].remove_child_relative_paths.contains(child));
    if added.contains(child) || removed.contains(child) {
        assert(added.len() > 0 || removed.len() > 0);
        let j = choose|j: int|
            0 <= j < told.len() && tells_of(#[trigger] told[j], parent, added, removed);
        assert(told[j].parent_relative_path == parent);
    }
}

/// One of the changes tells that the parent lost the child.
pub open spec fn loses_child(
    changes: Seq<RefineStructuralChangeModel>,
    parent: Seq<char>,
    child: Seq<char>,
) -> bool {
    exists|j: int|
        0 <= j < changes.len() && (#[trigger] changes[j]).parent_relative_path == parent
            && changes[j].removed_child_relative_paths.contains(child)
}

/// One of the changes tells that the parent gained the child.
pub open spec fn gains_child(
    changes: Seq<RefineStructuralChangeModel>,
    parent: Seq<char>,
    child: Seq<char>,
) -> bool {
    exists|j: int|
        0 <= j < changes.len() && (#[trigger] changes[j]).parent_relative_path == parent
            && changes[j].added_child_relative_paths.contains(child)
}

/// Each parent of a change stands in the merged changes.
pub proof fn merged_has_each_parent(
    changes: Seq<RefineLinkChangeModel>,
    i: int,
    acc: Seq<MergedLinkChangeModel>,
    parent: Seq<char>,
)
    requires
        0 <= i <= changes.len(),
        (exists|m: int|
            0 <= m < acc.len() && (#[trigger] acc[m]).parent_relative_path == parent) || (exists|
            m: int,
        |
            i <= m < changes.len() && (#[trigger] changes[m]).parent_relative_path == parent),
    ensures
        exists|m: int|
            0 <= m < merged_from(changes, i, acc).len() && (#[trigger] merged_from(
                changes,
                i,
                acc,
            )[m]).parent_relative_path == parent,
    decreases changes.len() - i,
{
    if i < changes.len() {
        let next = with_link_change(acc, changes[i]);
        merged_index_is_found(acc, changes[i].parent_relative_path, 0);
        let at = match merged_index_from(acc, changes[i].parent_relative_path, 0) {
            Some(at) => at,
            None => acc.len() as int,
        };
        assert(next[at].parent_relative_path == changes[i].parent_relative_path);
        if exists|m: int| 0 <= m < acc.len() && (#[trigger] acc[m]).parent_relative_path == parent {
            let m = choose|m: int|
                0 <= m < acc.len() && (#[trigger] acc[m]).parent_relative_path == parent;
            assert(next[m].parent_relative_path == parent);
        } else {
            let m = choose|m: int|
                i <= m < changes.len() && (#[trigger] changes[m]).parent_relative_path == parent;
            if m > i {
                assert(changes[m].parent_relative_path == parent);
            }
        }
        merged_has_each_parent(changes, i + 1, next, parent);
        let out = merged_from(changes, i + 1, next);
        assert(merged_from(changes, i, acc) == out);
        let m = choose|m: int|
            0 <= m < out.len() && (#[trigger] out[m]).parent_relative_path == parent;
        assert(merged_from(changes, i, acc)[m].parent_relative_path == parent);
    } else {
        assert(merged_from(changes, i, acc) == acc);
        let m = choose|m: int|
            0 <= m < acc.len() && (#[trigger] acc[m]).parent_relative_path == parent;
        assert(merged_from(changes, i, acc)[m].parent_relative_path == parent);
    }
}

proof fn no_links_told_yet(
    request: RefineRewriteRequestModel,
    files: PlanFilesModel,
    result: RefineRewriteResultModel,
)
    requires
        request.applied(files).1 == Ok::<_, RefineRewriteErrorModel>(result),
    ensures
        after_marks(request, files).1.structural_changes.len() == 0,
{
    accepted_rewrites_succeed(request, files, result);
    let (f1, payloads) = after_cleaning(request, files);
    let (f2, r2) = after_rewrites(request, files);
    let (f3, r3) = after_creations(request, files);
    let (f4, r4) = after_removals(request, files);
    rewrites_tell_no_mark(request, f1, payloads, 0, MutationReportsModel::empty());
    creations_are_told(request, f2, 0, r2);
    removals_are_reported(request, f3, 0, r3);
    marks_are_told(request, f4, payloads, to_mark(request), 0, r4);
}

proof fn relinks_are_asked_for(
    request: RefineRewriteRequestModel,
    files: PlanFilesModel,
    payloads: Seq<(Seq<char>, Seq<char>)>,
    merged: Seq<MergedLinkChangeModel>,
    i: int,
    reports: MutationReportsModel,
)
    requires
        0 <= i <= merged.len(),
        request.relinked_from(files, payloads, merged, i, reports).1 is Ok,
        forall|m: int| 0 <= m < merged.len() ==> is_consistent(#[trigger] merged[m]),
        forall|j: int|
            0 <= j < reports.structural_changes.len() ==> is_of_merged(
                merged,
                #[trigger] reports.structural_changes[j],
            ),
    ensures
        ({
            let told = request.relinked_from(
                files,
                payloads,
                merged,
                i,
                reports,
            ).1->Ok_0.structural_changes;
            forall|j: int| 0 <= j < told.len() ==> is_of_merged(merged, #[trigger] told[j])
        }),
    decreases merged.len() - i,
{
    if i < merged.len() {
        let change = merged[i];
        let (next, result) = request.relinked(files, payloads, change);
        match result->Ok_0 {
            None => {
                relinks_are_asked_for(request, next, payloads, merged, i + 1, reports);
            },
            Some(mutation) => {
                let more = reports.with_relinked(mutation);
                let markdown = request.parent_markdown(
                    files,
                    payloads,
                    change.parent_relative_path,
                )->Ok_0;
                let rows = link_rows(change.parent_relative_path, markdown)->Ok_0;
                assert(mutation.added_child_relative_paths == added_of(rows, change));
                assert(mutation.removed_child_relative_paths == removed_of(rows, change));
                assert forall|child: Seq<char>| #[trigger]
                    mutation.added_child_relative_paths.contains(
                        child,
                    ) implies change.add_child_relative_paths.contains(child) by {
                    changes_of_rows(rows, change, child);
                }
                assert forall|child: Seq<char>| #[trigger]
                    mutation.removed_child_relative_paths.contains(
                        child,
                    ) implies change.remove_child_relative_paths.contains(child) by {
                    changes_of_rows(rows, change, child);
                }
                let n = reports.structural_changes.len() as int;
                assert forall|j: int| 0 <= j < more.structural_changes.len() implies is_of_merged(
                    merged,
                    #[trigger] more.structural_changes[j],
                ) by {
                    if j < n {
                        assert(more.structural_changes[j] == reports.structural_changes[j]);
                    } else {
                        assert(is_within(change, more.structural_changes[j]));
                        assert(is_within(merged[i], more.structural_changes[j]));
                    }
                }
                relinks_are_asked_for(request, next, payloads, merged, i + 1, more);
            },
        }
    }
}

spec fn is_within(asked: MergedLinkChangeModel, change: RefineStructuralChangeModel) -> bool {
    &&& change.parent_relative_path == asked.parent_relative_path
    &&& change.added_child_relative_paths.len() > 0 || change.removed_child_relative_paths.len()
        > 0
    &&& forall|child: Seq<char>| #[trigger]
        change.added_child_relative_paths.contains(child)
            ==> asked.add_child_relative_paths.contains(child)
    &&& forall|child: Seq<char>| #[trigger]
        change.removed_child_relative_paths.contains(child)
            ==> asked.remove_child_relative_paths.contains(child)
}

spec fn is_of_merged(
    merged: Seq<MergedLinkChangeModel>,
    change: RefineStructuralChangeModel,
) -> bool {
    exists|m: int| 0 <= m < merged.len() && is_within(#[trigger] merged[m], change)
}

/// No change is told of a parent but one that gains or loses a child, and only of
/// children that one of the link changes gives to it or takes from it.
pub proof fn told_links_were_asked_for(
    request: RefineRewriteRequestModel,
    files: PlanFilesModel,
    result: RefineRewriteResultModel,
    j: int,
)
    requires
        request.applied(files).1 == Ok::<_, RefineRewriteErrorModel>(result),
        0 <= j < result.structural_changes.len(),
    ensures
        ({
            let change = result.structural_changes[j];
            let parent = change.parent_relative_path;
            let changes = request.rewrite_scope.link_changes;
            &&& is_relinked(changes, parent)
            &&& change.added_child_relative_paths.len() > 0
                || change.removed_child_relative_paths.len() > 0
            &&& forall|child: Seq<char>| #[trigger]
                change.added_child_relative_paths.contains(child) ==> adds_child(
                    changes,
                    parent,
                    child,
                    0,
                )
            &&& forall|child: Seq<char>| #[trigger]
                change.removed_child_relative_paths.contains(child) ==> removes_child(
                    changes,
                    parent,
                    child,
                    0,
                )
        }),
{
    accepted_rewrites_succeed(request, files, result);
    let change = result.structural_changes[j];
    let parent = change.parent_relative_path;
    let changes = request.rewrite_scope.link_changes;
    let merged = merged_changes(changes)->0;
    let (f5, r5) = after_marks(request, files);
    merged_changes_are_the_changes(changes);
    no_links_told_yet(request, files, result);
    relinks_are_asked_for(request, f5, after_cleaning(request, files).1, merged, 0, r5);
    assert(is_of_merged(merged, result.structural_changes[j]));
    let m = choose|m: int| 0 <= m < merged.len() && is_within(#[trigger] merged[m], change);
    assert forall|child: Seq<char>| #[trigger]
        change.added_child_relative_paths.contains(child) implies adds_child(
        changes,
        parent,
        child,
        0,
    ) by {
        assert(merged[m].parent_relative_path == parent);
        assert(has_addition(merged, parent, child));
    }
    assert forall|child: Seq<char>| #[trigger]
        change.removed_child_relative_paths.contains(child) implies removes_child(
        changes,
        parent,
        child,
        0,
    ) by {
        assert(merged[m].parent_relative_path == parent);
        assert(has_removal(merged, parent, child));
    }
}

/// The files before the links of parent `k` change.
proof fn files_before_relink(
    request: RefineRewriteRequestModel,
    files: PlanFilesModel,
    payloads: Seq<(Seq<char>, Seq<char>)>,
    merged: Seq<MergedLinkChangeModel>,
    i: int,
    reports: MutationReportsModel,
    k: int,
) -> (before: PlanFilesModel)
    requires
        0 <= i <= k < merged.len(),
        request.relinked_from(files, payloads, merged, i, reports).1 is Ok,
        forall|m: int|
            k < m < merged.len() ==> path_key((#[trigger] merged[m]).parent_relative_path)
                != path_key(merged[k].parent_relative_path),
    ensures
        request.relinked(before, payloads, merged[k]).1 is Ok,
        same_at(
            request.relinked(before, payloads, merged[k]).0,
            request.relinked_from(files, payloads, merged, i, reports).0,
            merged[k].parent_relative_path,
        ),
        forall|path: Seq<char>|
            #![trigger path_key(path)]
            (forall|m: int|
                0 <= m < merged.len() ==> path_key((#[trigger] merged[m]).parent_relative_path)
                    != path_key(path)) ==> same_at(
                before,
                request.relinked_from(files, payloads, merged, i, reports).0,
                path,
            ),
    decreases k - i,
{
    let (next, result) = request.relinked(files, payloads, merged[i]);
    let told = match result->Ok_0 {
        None => reports,
        Some(mutation) => reports.with_relinked(mutation),
    };
    if i < k {
        files_before_relink(request, next, payloads, merged, i + 1, told, k)
    } else {
        relinks_leave(
            request,
            next,
            payloads,
            merged,
            i + 1,
            told,
            merged[k].parent_relative_path,
        );
        assert forall|path: Seq<char>|
            #![trigger path_key(path)]
            (forall|m: int|
                0 <= m < merged.len() ==> path_key((#[trigger] merged[m]).parent_relative_path)
                    != path_key(path)) implies same_at(
            files,
            request.relinked_from(files, payloads, merged, i, reports).0,
            path,
        ) by {
            relinks_leave(request, files, payloads, merged, i, reports, path);
        }
        files
    }
}

/// After an accepted rewrite the file of a parent whose links changed links every
/// child that it was to gain, and none that it was to lose, where the paths of the
/// children are written as the plan writes them and their titles can stand in a link.
pub proof fn changed_parents_link_their_children(
    request: RefineRewriteRequestModel,
    files: PlanFilesModel,
    result: RefineRewriteResultModel,
    parent: Seq<char>,
    child: Seq<char>,
)
    requires
        request.applied(files).1 == Ok::<_, RefineRewriteErrorModel>(result),
        is_relinked(request.rewrite_scope.link_changes, parent),
        request.is_sole_name(parent),
        files.is_file(parent),
        !request.is_mutated_before_links(parent),
        gains_any(result.structural_changes, parent),
        forall|other: Seq<char>| #[trigger]
            adds_child(request.rewrite_scope.link_changes, parent, other, 0) ==> {
                &&& path_key(other) == other
                &&& request.links_nothing_at(other)
                &&& is_linkable(request.applied(files).0, other)
            },
    ensures
        ({
            let next = request.applied(files).0;
            let linked = row_paths(link_rows(parent, next.read(parent)->Ok_0)->Ok_0);
            &&& next.read(parent) is Ok
            &&& link_rows(parent, next.read(parent)->Ok_0) is Ok
            &&& adds_child(request.rewrite_scope.link_changes, parent, child, 0)
                ==> linked.contains(child)
            &&& removes_child(request.rewrite_scope.link_changes, parent, child, 0)
                ==> !linked.contains(child)
        }),
{
    accepted_rewrites_succeed(request, files, result);
    let changes = request.rewrite_scope.link_changes;
    let merged = merged_changes(changes)->0;
    let (f1, payloads) = after_cleaning(request, files);
    let (f5, r5) = after_marks(request, files);
    let next = request.applied(files).0;
    merged_changes_are_the_changes(changes);
    merged_has_each_parent(changes, 0, Seq::empty(), parent);
    let k = choose|k: int|
        0 <= k < merged.len() && (#[trigger] merged[k]).parent_relative_path == parent;
    assert forall|m: int| 0 <= m < merged.len() && m != k implies (
    #[trigger] merged[m]).parent_relative_path != parent && path_key(
        merged[m].parent_relative_path,
    ) != path_key(parent) by {
        if m < k {
            assert(merged[m].parent_relative_path != merged[k].parent_relative_path);
        } else {
            assert(merged[k].parent_relative_path != merged[m].parent_relative_path);
        }
        assert(is_relinked(changes, merged[m].parent_relative_path));
        assert(request.names_path(merged[m].parent_relative_path));
    }
    let before = files_before_relink(request, f5, payloads, merged, 0, r5, k);
    let (after, done) = request.relinked(before, payloads, merged[k]);
    let adds = merged[k].add_child_relative_paths;
    assert forall|c: int| 0 <= c < adds.len() implies is_linkable(before, #[trigger] adds[c])
        && path_key(adds[c]) == adds[c] by {
        assert(adds.contains(adds[c]));
        assert(has_addition(merged, parent, adds[c]));
        assert(adds_child(changes, parent, adds[c], 0));
        assert forall|m: int| 0 <= m < merged.len() implies path_key(
            (#[trigger] merged[m]).parent_relative_path,
        ) != path_key(adds[c]) by {
            let at = merged[m].parent_relative_path;
            assert(is_relinked(changes, at));
            let n = choose|n: int|
                0 <= n < changes.len() && (#[trigger] changes[n]).parent_relative_path == at;
            assert(path_key(changes[n].parent_relative_path) != path_key(adds[c]));
        }
        assert(same_at(before, next, adds[c]));
        assert(is_linkable(next, adds[c]));
        assert(before.read(adds[c]) == next.read(adds[c]));
    }
    parents_are_told_once(request, files, result, parent, k);
    changed_parent_links_what_was_asked(request, before, payloads, merged[k]);
    assert(after.read(parent) == next.read(parent));
    let rows = link_rows(parent, next.read(parent)->Ok_0)->Ok_0;
    if adds_child(changes, parent, child, 0) {
        assert(has_addition(merged, parent, child));
        let c = choose|c: int| 0 <= c < adds.len() && adds[c] == child;
        assert(row_paths(rows).contains(adds[c]) || row_paths(rows).contains(path_key(adds[c])));
    }
    if removes_child(changes, parent, child, 0) {
        assert(has_removal(merged, parent, child));
        let removes = merged[k].remove_child_relative_paths;
        let c = choose|c: int| 0 <= c < removes.len() && removes[c] == child;
        assert(!row_paths(rows).contains(removes[c]));
    }
}

/// The changes tell of this parent.
pub open spec fn gains_any(changes: Seq<RefineStructuralChangeModel>, parent: Seq<char>) -> bool {
    exists|j: int| 0 <= j < changes.len() && (#[trigger] changes[j]).parent_relative_path == parent
}

/// Where a parent is told, its links changed when it was its turn.
proof fn parents_are_told_once(
    request: RefineRewriteRequestModel,
    files: PlanFilesModel,
    result: RefineRewriteResultModel,
    parent: Seq<char>,
    k: int,
)
    requires
        request.applied(files).1 == Ok::<_, RefineRewriteErrorModel>(result),
        is_relinked(request.rewrite_scope.link_changes, parent),
        request.is_sole_name(parent),
        files.is_file(parent),
        !request.is_mutated_before_links(parent),
        gains_any(result.structural_changes, parent),
        ({
            let merged = merged_changes(request.rewrite_scope.link_changes)->0;
            &&& 0 <= k < merged.len()
            &&& merged[k].parent_relative_path == parent
            &&& forall|m: int|
                0 <= m < merged.len() && m != k ==> (#[trigger] merged[m]).parent_relative_path
                    != parent
        }),
    ensures
        ({
            let merged = merged_changes(request.rewrite_scope.link_changes)->0;
            let payloads = after_cleaning(request, files).1;
            forall|before: PlanFilesModel|
                (#[trigger] request.relinked(before, payloads, merged[k])).1 is Ok
                    ==> request.relinked(before, payloads, merged[k]).1->Ok_0 is Some
        }),
{
    accepted_rewrites_succeed(request, files, result);
    let merged = merged_changes(request.rewrite_scope.link_changes)->0;
    let (f1, payloads) = after_cleaning(request, files);
    let (f5, r5) = after_marks(request, files);
    let told = result.structural_changes;
    cleaned_paths_are_those_named(request, parent);
    sole_names_stand_alone(request, parent);
    cleaning_cleans(
        request,
        files,
        request.cleanup_paths(),
        0,
        Seq::<(Seq<char>, Seq<char>)>::empty(),
        parent,
    );
    let clean = payload_from(payloads, parent, 0)->0;
    let rows = link_rows(parent, clean)->Ok_0;
    no_links_told_yet(request, files, result);
    relinks_tell(request, f5, payloads, merged, 0, r5, k, clean);
    let j = choose|j: int|
        0 <= j < told.len() && (#[trigger] told[j]).parent_relative_path == parent;
    assert(tells_of(told[j], parent, added_of(rows, merged[k]), removed_of(rows, merged[k])));
    told_links_were_asked_for(request, files, result, j);
}

// ---------------------------------------------------------------------
// Comments that stay
// ---------------------------------------------------------------------
/// Comment `c` of waiting decision `d` stands in the file at the path, in these lines.
pub open spec fn waits_at(
    request: RefineRewriteRequestModel,
    d: int,
    c: int,
    path: Seq<char>,
    lines: (usize, usize),
) -> bool {
    &&& 0 <= d < request.blocked_follow_ups.len()
    &&& 0 <= c < request.blocked_follow_ups[d].source_comments.len()
    &&& request.blocked_follow_ups[d].source_comments[c].source_path == path
    &&& request.blocked_follow_ups[d].source_comments[c].begin_comment_line == lines.0
    &&& request.blocked_follow_ups[d].source_comments[c].end_comment_line == lines.1
}

proof fn waiting_comments_in(
    request: RefineRewriteRequestModel,
    d: int,
    path: Seq<char>,
    i: int,
    acc: Seq<(usize, usize)>,
    lines: (usize, usize),
)
    requires
        0 <= d < request.blocked_follow_ups.len(),
        0 <= i <= request.blocked_follow_ups[d].source_comments.len(),
    ensures
        preserved_in_from(
            request.blocked_follow_ups[d].source_comments,
            path,
            i,
            acc,
        ).contains(lines) <==> acc.contains(lines) || exists|c: int|
            i <= c && #[trigger] waits_at(request, d, c, path, lines),
    decreases request.blocked_follow_ups[d].source_comments.len() - i,
{
    let sources = request.blocked_follow_ups[d].source_comments;
    if i < sources.len() {
        if sources[i].source_path == path {
            let one = (sources[i].begin_comment_line, sources[i].end_comment_line);
            let more = acc.push(one);
            assert(more.contains(lines) <==> acc.contains(lines) || lines == one) by {
                assert(more[acc.len() as int] == one);
                if acc.contains(lines) {
                    let k = choose|k: int| 0 <= k < acc.len() && acc[k] == lines;
                    assert(more[k] == lines);
                }
                if more.contains(lines) {
                    let k = choose|k: int| 0 <= k < more.len() && more[k] == lines;
                    if k < acc.len() {
                        assert(acc[k] == lines);
                    }
                }
            }
            waiting_comments_in(request, d, path, i + 1, more, lines);
            if lines == one {
                assert(waits_at(request, d, i, path, lines));
            }
        } else {
            waiting_comments_in(request, d, path, i + 1, acc, lines);
        }
        if exists|c: int| i <= c && #[trigger] waits_at(request, d, c, path, lines) {
            let c = choose|c: int| i <= c && #[trigger] waits_at(request, d, c, path, lines);
            if c > i {
                assert(i + 1 <= c && waits_at(request, d, c, path, lines));
            }
        }
    }
}

proof fn waiting_comments_from(
    request: RefineRewriteRequestModel,
    path: Seq<char>,
    d: int,
    acc: Seq<(usize, usize)>,
    lines: (usize, usize),
)
    requires
        0 <= d <= request.blocked_follow_ups.len(),
    ensures
        preserved_from(request.blocked_follow_ups, path, d, acc).contains(lines) <==> acc.contains(
            lines,
        ) || exists|e: int, c: int|
            d <= e && 0 <= c && #[trigger] waits_at(request, e, c, path, lines),
    decreases request.blocked_follow_ups.len() - d,
{
    if d < request.blocked_follow_ups.len() {
        let sources = request.blocked_follow_ups[d].source_comments;
        let next = preserved_in_from(sources, path, 0, acc);
        waiting_comments_in(request, d, path, 0, acc, lines);
        waiting_comments_from(request, path, d + 1, next, lines);
        if exists|e: int, c: int|
            d <= e && 0 <= c && #[trigger] waits_at(request, e, c, path, lines) {
            let (e, c) = choose|e: int, c: int|
                d <= e && 0 <= c && #[trigger] waits_at(request, e, c, path, lines);
            if e > d {
                assert(d + 1 <= e && waits_at(request, e, c, path, lines));
            } else {
                assert(waits_at(request, d, c, path, lines));
            }
        }
    }
}

/// The comments that stay in a file are those of the decisions that wait.
pub proof fn waiting_comments_stay(
    request: RefineRewriteRequestModel,
    path: Seq<char>,
    lines: (usize, usize),
)
    ensures
        request.preserved(path).contains(lines) <==> exists|d: int, c: int|
            0 <= d && 0 <= c && #[trigger] waits_at(request, d, c, path, lines),
{
    waiting_comments_from(request, path, 0, Seq::empty(), lines);
    assert(!Seq::<(usize, usize)>::empty().contains(lines));
}

} // verus!
