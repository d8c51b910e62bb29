//! Which gates run again after a rewrite.
use super::changes::{
    RefineChangedFile, RefineChangedFileKind, RefineChangedFileModel, RefineContextInvalidation,
    RefineStructuralChange, RefineStructuralChangeKind, RefineStructuralChangeModel,
};
use super::registration_types::{
    RefineFrontierRegistrationCandidate, RefineFrontierRegistrationCandidateModel,
    RefineGateTargetReason, RefineLeafRegistrationCandidate, RefineLeafRegistrationCandidateModel,
    RefineParentRegistrationCandidate, RefineParentRegistrationCandidateModel,
    RegisterRefineGateTargetsRequest, RegisterRefineGateTargetsRequestModel,
};
use super::runtime_state::{
    RefinePriorFrontierGateSummary, RefinePriorFrontierGateSummaryModel,
    RefinePriorLeafGateSummary, RefinePriorLeafGateSummaryModel, RefineRuntimeNodeSnapshot,
    RefineRuntimeNodeSnapshotModel, RefineRuntimeNodeSummary, RefineRuntimeNodeSummaryModel,
    RefineStaleGateClassification, RefineStaleResultHandoff, RefineStaleResultHandoffModel,
    StaleGateTargetKind,
};
use super::selection_types::{
    ExpectedFrontierGateTargetSummary, ExpectedFrontierGateTargetSummaryModel,
    ExpectedGateTargetSummary, ExpectedGateTargetSummaryModel, ExpectedLeafGateTargetSummary,
    ExpectedLeafGateTargetSummaryModel, RefineFrontierGateTarget, RefineFrontierGateTargetModel,
    RefineGateTargetSelection, RefineGateTargetSelectionModel, RefineLeafGateTarget,
    RefineLeafGateTargetModel, SelectRefineGateTargetsRequest, SelectRefineGateTargetsRequestModel,
    StaleGateApproval, StaleGateApprovalModel,
};
use crate::api::NodeKind;
use crate::paths::{
    components, file_name, file_stem, join_path, joined_path, parent_name, parent_path,
    path_components, path_file_name, path_file_stem, path_parent, path_parent_name, Component,
    ComponentModel,
};
use crate::text::{
    concat2, copy_list, is_blank, is_text, list_has, push_unique, same_optional_text, same_text,
    trimmed, with_unique,
};
use vstd::prelude::*;

verus! {

// ---------------------------------------------------------------------
// Lists
// ---------------------------------------------------------------------
/// The list with those of the texts from `i` on that it does not hold yet.
pub open spec fn with_all_unique_from(
    list: Seq<Seq<char>>,
    texts: Seq<Seq<char>>,
    i: int,
) -> Seq<Seq<char>>
    decreases texts.len() - i,
{
    if i >= texts.len() {
        list
    } else {
        with_all_unique_from(with_unique(list, texts[i]), texts, i + 1)
    }
}

/// The list with those of the texts that it does not hold yet.
pub open spec fn with_all_unique(list: Seq<Seq<char>>, texts: Seq<Seq<char>>) -> Seq<Seq<char>> {
    with_all_unique_from(list, texts, 0)
}

/// Puts those of the texts that the list does not hold yet at its end.
pub fn push_all_unique(list: &mut Vec<String>, texts: &Vec<String>)
    ensures
        final(list).deep_view() == with_all_unique(old(list).deep_view(), texts.deep_view()),
{
    let ghost first = list.deep_view();
    let ghost all = texts.deep_view();
    let mut i: usize = 0;
    while i < texts.len()
        invariant
            i <= texts.len(),
            all == texts.deep_view(),
            with_all_unique(first, all) == with_all_unique_from(list.deep_view(), all, i as int),
        decreases texts.len() - i,
    {
        push_unique(list, texts[i].as_str());
        i = i + 1;
    }
}

/// The reasons with one more, unless it is there already.
pub open spec fn with_reason(
    reasons: Seq<RefineGateTargetReason>,
    reason: RefineGateTargetReason,
) -> Seq<RefineGateTargetReason> {
    if reasons.contains(reason) {
        reasons
    } else {
        reasons.push(reason)
    }
}

/// Tells whether the reason is among the reasons.
pub fn has_reason(reasons: &Vec<RefineGateTargetReason>, reason: RefineGateTargetReason) -> (r: bool)
    ensures
        r == reasons.deep_view().contains(reason),
{
    let ghost all = reasons.deep_view();
    let mut i: usize = 0;
    while i < reasons.len()
        invariant
            i <= reasons.len(),
            all == reasons.deep_view(),
            forall|k: int| 0 <= k < i ==> all[k] != reason,
        decreases reasons.len() - i,
    {
        if reasons[i] == reason {
            assert(all[i as int] == reason);
            return true;
        }
        i = i + 1;
    }
    false
}

fn push_reason(reasons: &mut Vec<RefineGateTargetReason>, reason: RefineGateTargetReason)
    ensures
        final(reasons).deep_view() == with_reason(old(reasons).deep_view(), reason),
{
    if !has_reason(reasons, reason) {
        let ghost before = reasons.deep_view();
        reasons.push(reason);
        assert(reasons.deep_view() =~= before.push(reason));
    }
}

/// A list of one reason.
pub fn one_reason(reason: RefineGateTargetReason) -> (r: Vec<RefineGateTargetReason>)
    ensures
        r.deep_view() == seq![reason],
{
    let mut out: Vec<RefineGateTargetReason> = Vec::new();
    out.push(reason);
    assert(out.deep_view() =~= seq![reason]);
    out
}

/// A copy of the reasons.
pub fn copy_reasons(reasons: &Vec<RefineGateTargetReason>) -> (r: Vec<RefineGateTargetReason>)
    ensures
        r.deep_view() == reasons.deep_view(),
{
    let r: Vec<RefineGateTargetReason> = reasons.clone();
    assert(r.deep_view() =~= reasons.deep_view());
    r
}

// ---------------------------------------------------------------------
// The snapshot
// ---------------------------------------------------------------------
/// The first node at or after `i` with this path.
pub open spec fn snapshot_node_from(
    nodes: Seq<RefineRuntimeNodeSummaryModel>,
    path: Seq<char>,
    i: int,
) -> Option<RefineRuntimeNodeSummaryModel>
    decreases nodes.len() - i,
{
    if i >= nodes.len() {
        None
    } else if nodes[i].relative_path == path {
        Some(nodes[i])
    } else {
        snapshot_node_from(nodes, path, i + 1)
    }
}

impl RefineRuntimeNodeSnapshotModel {
    /// The node at a path.
    pub open spec fn node_at(self, path: Seq<char>) -> Option<RefineRuntimeNodeSummaryModel> {
        snapshot_node_from(self.nodes, path, 0)
    }

    /// A parent node stands at the path.
    pub open spec fn has_parent_at(self, path: Seq<char>) -> bool {
        self.node_at(path) matches Some(node) && node.node_kind == NodeKind::Parent
    }
}

/// The node of the snapshot at a path.
pub fn find_node<'a>(snapshot: &'a RefineRuntimeNodeSnapshot, path: &str) -> (r: Option<
    &'a RefineRuntimeNodeSummary,
>)
    ensures
        match r {
            Some(node) => snapshot.deep_view().node_at(path@) == Some(node.deep_view()),
            None => snapshot.deep_view().node_at(path@) is None,
        },
{
    let ghost all = snapshot.nodes.deep_view();
    let mut i: usize = 0;
    while i < snapshot.nodes.len()
        invariant
            i <= snapshot.nodes.len(),
            all == snapshot.nodes.deep_view(),
            snapshot_node_from(all, path@, 0) == snapshot_node_from(all, path@, i as int),
        decreases snapshot.nodes.len() - i,
    {
        assert(all[i as int] == snapshot.nodes@[i as int].deep_view());
        if same_text(snapshot.nodes[i].relative_path.as_str(), path) {
            return Some(&snapshot.nodes[i]);
        }
        i = i + 1;
    }
    None
}

fn snapshot_has_parent(snapshot: &RefineRuntimeNodeSnapshot, path: &str) -> (r: bool)
    ensures
        r == snapshot.deep_view().has_parent_at(path@),
{
    match find_node(snapshot, path) {
        Some(node) => match node.node_kind {
            NodeKind::Parent => true,
            NodeKind::Leaf => false,
        },
        None => false,
    }
}

// ---------------------------------------------------------------------
// Where the parent of a node stands
// ---------------------------------------------------------------------
/// The names among the components from `i` on, after those in `acc`.
pub open spec fn normal_names_from(
    parts: Seq<ComponentModel>,
    i: int,
    acc: Seq<Seq<char>>,
) -> Seq<Seq<char>>
    decreases parts.len() - i,
{
    if i >= parts.len() {
        acc
    } else {
        match parts[i] {
            ComponentModel::Normal(name) => normal_names_from(parts, i + 1, acc.push(name)),
            _ => normal_names_from(parts, i + 1, acc),
        }
    }
}

/// The parent at the top of the plan for a path with `n` names below the
/// first one.
pub open spec fn root_scope_parent(path: Seq<char>, n: nat) -> Option<Seq<char>> {
    let names = normal_names_from(components(path), 0, Seq::empty());
    if names.len() != n + 1 || names[0] + ".md"@ == path {
        None
    } else {
        Some(names[0] + ".md"@)
    }
}

/// The parent that stands in a directory under the directory's own name.
pub open spec fn self_path_in(directory: Seq<char>, path: Seq<char>) -> Option<Seq<char>> {
    match file_name(directory) {
        None => None,
        Some(name) => {
            let self_path = joined_path(directory, name + ".md"@);
            if self_path != path {
                Some(self_path)
            } else {
                None
            }
        },
    }
}

/// The parent in the same directory.
pub open spec fn scoped_parent(path: Seq<char>) -> Option<Seq<char>> {
    match parent_path(path) {
        None => None,
        Some(directory) => self_path_in(directory, path),
    }
}

/// The parent in the directory above.
pub open spec fn scoped_ancestor(path: Seq<char>) -> Option<Seq<char>> {
    match parent_path(path) {
        None => None,
        Some(directory) => match parent_path(directory) {
            None => None,
            Some(above) => self_path_in(above, path),
        },
    }
}

/// The node is a parent at the top of the plan, other than the one at `path`.
pub open spec fn is_root_parent(node: RefineRuntimeNodeSummaryModel, path: Seq<char>) -> bool {
    &&& node.node_kind == NodeKind::Parent
    &&& node.parent_node_id is None
    &&& components(node.relative_path).len() == 1
    &&& node.relative_path != path
}

/// The paths of the parents at the top of the plan from `i` on, after those
/// in `acc`.
pub open spec fn root_parents_from(
    nodes: Seq<RefineRuntimeNodeSummaryModel>,
    path: Seq<char>,
    i: int,
    acc: Seq<Seq<char>>,
) -> Seq<Seq<char>>
    decreases nodes.len() - i,
{
    if i >= nodes.len() {
        acc
    } else if is_root_parent(nodes[i], path) {
        root_parents_from(nodes, path, i + 1, acc.push(nodes[i].relative_path))
    } else {
        root_parents_from(nodes, path, i + 1, acc)
    }
}

/// The one parent at the top of the plan, for a path at the top.
pub open spec fn top_level_parent(
    snapshot: RefineRuntimeNodeSnapshotModel,
    path: Seq<char>,
) -> Option<Seq<char>> {
    let roots = root_parents_from(snapshot.nodes, path, 0, Seq::empty());
    if components(path).len() == 1 && roots.len() == 1 {
        Some(roots[0])
    } else {
        None
    }
}

/// Where the parent of the node at a path stands.
pub open spec fn parent_of(snapshot: RefineRuntimeNodeSnapshotModel, path: Seq<char>) -> Option<
    Seq<char>,
> {
    match root_scope_parent(path, 1) {
        Some(candidate) => if snapshot.has_parent_at(candidate) {
            Some(candidate)
        } else {
            match top_level_parent(snapshot, path) {
                Some(root) => Some(root),
                None => scoped_parent(path),
            }
        },
        None => match top_level_parent(snapshot, path) {
            Some(root) => Some(root),
            None => scoped_parent(path),
        },
    }
}

fn normal_names(parts: &Vec<Component>) -> (r: Vec<String>)
    ensures
        r.deep_view() == normal_names_from(parts.deep_view(), 0, Seq::empty()),
{
    let ghost all = parts.deep_view();
    let mut out: Vec<String> = Vec::new();
    let mut i: usize = 0;
    assert(out.deep_view() =~= Seq::empty());
    while i < parts.len()
        invariant
            i <= parts.len(),
            all == parts.deep_view(),
            normal_names_from(all, 0, Seq::empty()) == normal_names_from(
                all,
                i as int,
                out.deep_view(),
            ),
        decreases parts.len() - i,
    {
        assert(all[i as int] == parts@[i as int].deep_view());
        match &parts[i] {
            Component::Normal(name) => {
                let ghost before = out.deep_view();
                out.push(name.clone());
                assert(out.deep_view() =~= before.push(name@));
            },
            _ => {},
        }
        i = i + 1;
    }
    out
}

fn root_scope_direct_parent_path(path: &str, n: usize) -> (r: Option<String>)
    requires
        n < usize::MAX,
    ensures
        r.deep_view() == root_scope_parent(path@, n as nat),
{
    let names: Vec<String> = normal_names(&path_components(path));
    if names.len() != n + 1 {
        return None;
    }
    let candidate: String = concat2(names[0].as_str(), ".md");
    if same_text(candidate.as_str(), path) {
        None
    } else {
        Some(candidate)
    }
}

fn parent_self_path_in(directory: &str, path: &str) -> (r: Option<String>)
    ensures
        r.deep_view() == self_path_in(directory@, path@),
{
    match path_file_name(directory) {
        None => None,
        Some(name) => {
            let self_path: String = join_path(directory, concat2(name.as_str(), ".md").as_str());
            if same_text(self_path.as_str(), path) {
                None
            } else {
                Some(self_path)
            }
        },
    }
}

fn scoped_parent_self_path(path: &str) -> (r: Option<String>)
    ensures
        r.deep_view() == scoped_parent(path@),
{
    match path_parent(path) {
        None => None,
        Some(directory) => parent_self_path_in(directory.as_str(), path),
    }
}

fn scoped_ancestor_parent_self_path(path: &str) -> (r: Option<String>)
    ensures
        r.deep_view() == scoped_ancestor(path@),
{
    match path_parent(path) {
        None => None,
        Some(directory) => match path_parent(directory.as_str()) {
            None => None,
            Some(above) => parent_self_path_in(above.as_str(), path),
        },
    }
}

fn top_level_root_parent_path(snapshot: &RefineRuntimeNodeSnapshot, path: &str) -> (r: Option<
    String,
>)
    ensures
        r.deep_view() == top_level_parent(snapshot.deep_view(), path@),
{
    if path_components(path).len() != 1 {
        return None;
    }
    let ghost all = snapshot.nodes.deep_view();
    let mut roots: Vec<String> = Vec::new();
    let mut i: usize = 0;
    assert(roots.deep_view() =~= Seq::empty());
    while i < snapshot.nodes.len()
        invariant
            i <= snapshot.nodes.len(),
            all == snapshot.nodes.deep_view(),
            root_parents_from(all, path@, 0, Seq::empty()) == root_parents_from(
                all,
                path@,
                i as int,
                roots.deep_view(),
            ),
        decreases snapshot.nodes.len() - i,
    {
        let node: &RefineRuntimeNodeSummary = &snapshot.nodes[i];
        assert(all[i as int] == node.deep_view());
        let is_parent: bool = match node.node_kind {
            NodeKind::Parent => true,
            NodeKind::Leaf => false,
        };
        if is_parent && node.parent_node_id.is_none() && path_components(
            node.relative_path.as_str(),
        ).len() == 1 && !same_text(node.relative_path.as_str(), path) {
            let ghost before = roots.deep_view();
            roots.push(node.relative_path.clone());
            assert(roots.deep_view() =~= before.push(node.relative_path@));
        }
        i = i + 1;
    }
    if roots.len() == 1 {
        Some(roots[0].clone())
    } else {
        None
    }
}

fn parent_self_path(snapshot: &RefineRuntimeNodeSnapshot, path: &str) -> (r: Option<String>)
    ensures
        r.deep_view() == parent_of(snapshot.deep_view(), path@),
{
    match root_scope_direct_parent_path(path, 1) {
        Some(candidate) => {
            if snapshot_has_parent(snapshot, candidate.as_str()) {
                return Some(candidate);
            }
        },
        None => {},
    }
    match top_level_root_parent_path(snapshot, path) {
        Some(root) => Some(root),
        None => scoped_parent_self_path(path),
    }
}

/// The path is that of a parent in the directory of its own name.
pub open spec fn is_parent_shaped(path: Seq<char>) -> bool {
    file_stem(path) is Some && parent_name(path) == file_stem(path)
}

fn is_parent_path(path: &str) -> (r: bool)
    ensures
        r == is_parent_shaped(path@),
{
    let stem: Option<String> = path_file_stem(path);
    let directory: Option<String> = path_parent_name(path);
    stem.is_some() && same_optional_text(&directory, &stem)
}

// ---------------------------------------------------------------------
// Leaf targets
// ---------------------------------------------------------------------
/// The first target at or after `i` with this path.
pub open spec fn leaf_index_from(
    targets: Seq<RefineLeafGateTargetModel>,
    path: Seq<char>,
    i: int,
) -> Option<int>
    decreases targets.len() - i,
{
    if i >= targets.len() {
        None
    } else if targets[i].relative_path == path {
        Some(i)
    } else {
        leaf_index_from(targets, path, i + 1)
    }
}

/// The first of two that is there.
pub open spec fn either<T>(a: Option<T>, b: Option<T>) -> Option<T> {
    match a {
        Some(x) => Some(x),
        None => b,
    }
}

/// A target for a leaf that has none yet.
pub open spec fn new_leaf_target(
    snapshot: RefineRuntimeNodeSnapshotModel,
    path: Seq<char>,
    node_id: Option<Seq<char>>,
    parent: Option<Seq<char>>,
    reason: RefineGateTargetReason,
) -> RefineLeafGateTargetModel {
    RefineLeafGateTargetModel {
        node_id: either(
            node_id,
            match snapshot.node_at(path) {
                Some(node) => Some(node.node_id),
                None => None,
            },
        ),
        relative_path: path,
        parent_relative_path: either(
            parent,
            either(
                match snapshot.node_at(path) {
                    Some(node) => node.parent_relative_path,
                    None => None,
                },
                parent_of(snapshot, path),
            ),
        ),
        reasons: seq![reason],
    }
}

/// The targets with one for a leaf: a new one, or the one that is there with
/// one more reason.
pub open spec fn with_leaf(
    targets: Seq<RefineLeafGateTargetModel>,
    snapshot: RefineRuntimeNodeSnapshotModel,
    path: Seq<char>,
    node_id: Option<Seq<char>>,
    parent: Option<Seq<char>>,
    reason: RefineGateTargetReason,
) -> Seq<RefineLeafGateTargetModel> {
    match leaf_index_from(targets, path, 0) {
        Some(k) => targets.update(
            k,
            RefineLeafGateTargetModel {
                parent_relative_path: either(parent, targets[k].parent_relative_path),
                reasons: with_reason(targets[k].reasons, reason),
                ..targets[k]
            },
        ),
        None => targets.push(new_leaf_target(snapshot, path, node_id, parent, reason)),
    }
}

fn find_leaf_target(targets: &Vec<RefineLeafGateTarget>, path: &str) -> (r: Option<usize>)
    ensures
        match r {
            Some(k) => k < targets.len() && leaf_index_from(targets.deep_view(), path@, 0) == Some(
                k as int,
            ),
            None => leaf_index_from(targets.deep_view(), path@, 0) is None,
        },
{
    let ghost all = targets.deep_view();
    let mut i: usize = 0;
    while i < targets.len()
        invariant
            i <= targets.len(),
            all == targets.deep_view(),
            leaf_index_from(all, path@, 0) == leaf_index_from(all, path@, i as int),
        decreases targets.len() - i,
    {
        assert(all[i as int] == targets@[i as int].deep_view());
        if same_text(targets[i].relative_path.as_str(), path) {
            return Some(i);
        }
        i = i + 1;
    }
    None
}

fn upsert_leaf(
    targets: &mut Vec<RefineLeafGateTarget>,
    snapshot: &RefineRuntimeNodeSnapshot,
    path: &str,
    node_id: Option<String>,
    parent: Option<String>,
    reason: RefineGateTargetReason,
)
    ensures
        final(targets).deep_view() == with_leaf(
            old(targets).deep_view(),
            snapshot.deep_view(),
            path@,
            node_id.deep_view(),
            parent.deep_view(),
            reason,
        ),
{
    let ghost before = targets.deep_view();
    match find_leaf_target(targets, path) {
        Some(k) => {
            let mut target: RefineLeafGateTarget = targets[k].clone();
            assert(target.deep_view() == before[k as int]);
            if parent.is_some() {
                target.parent_relative_path = parent;
            }
            push_reason(&mut target.reasons, reason);
            let ghost model = target.deep_view();
            targets.set(k, target);
            assert(targets.deep_view() =~= before.update(k as int, model));
        },
        None => {
            let (known_id, known_parent): (Option<String>, Option<String>) = match find_node(
                snapshot,
                path,
            ) {
                Some(node) => (Some(node.node_id.clone()), node.parent_relative_path.clone()),
                None => (None, None),
            };
            let parent_relative_path: Option<String> = if parent.is_some() {
                parent
            } else if known_parent.is_some() {
                known_parent
            } else {
                parent_self_path(snapshot, path)
            };
            let target: RefineLeafGateTarget = RefineLeafGateTarget {
                node_id: if node_id.is_some() {
                    node_id
                } else {
                    known_id
                },
                relative_path: path.to_owned(),
                parent_relative_path,
                reasons: one_reason(reason),
            };
            let ghost model = target.deep_view();
            targets.push(target);
            assert(targets.deep_view() =~= before.push(model));
        },
    }
}

/// The targets with one for each leaf at the path or below it, without what
/// was removed. At most `depth` parents deep.
pub open spec fn with_leaves_at(
    targets: Seq<RefineLeafGateTargetModel>,
    snapshot: RefineRuntimeNodeSnapshotModel,
    path: Seq<char>,
    removed: Seq<Seq<char>>,
    reason: RefineGateTargetReason,
    depth: nat,
) -> Seq<RefineLeafGateTargetModel>
    decreases depth, 0nat,
{
    if removed.contains(path) {
        targets
    } else {
        match snapshot.node_at(path) {
            None => targets,
            Some(node) => match node.node_kind {
                NodeKind::Leaf => with_leaf(
                    targets,
                    snapshot,
                    node.relative_path,
                    Some(node.node_id),
                    None,
                    reason,
                ),
                NodeKind::Parent => if depth == 0 {
                    targets
                } else {
                    with_leaves_at_all(
                        targets,
                        snapshot,
                        node.child_relative_paths,
                        0,
                        removed,
                        reason,
                        (depth - 1) as nat,
                    )
                },
            },
        }
    }
}

/// The targets with one for each leaf at the paths from `i` on or below them,
/// without what was removed.
pub open spec fn with_leaves_at_all(
    targets: Seq<RefineLeafGateTargetModel>,
    snapshot: RefineRuntimeNodeSnapshotModel,
    paths: Seq<Seq<char>>,
    i: nat,
    removed: Seq<Seq<char>>,
    reason: RefineGateTargetReason,
    depth: nat,
) -> Seq<RefineLeafGateTargetModel>
    decreases depth, paths.len() - i,
{
    if i >= paths.len() {
        targets
    } else {
        with_leaves_at_all(
            with_leaves_at(targets, snapshot, paths[i as int], removed, reason, depth),
            snapshot,
            paths,
            i + 1,
            removed,
            reason,
            depth,
        )
    }
}

/// The targets with one for each leaf below a parent, without what was
/// removed.
pub open spec fn with_leaves_below(
    targets: Seq<RefineLeafGateTargetModel>,
    snapshot: RefineRuntimeNodeSnapshotModel,
    parent: Seq<char>,
    removed: Seq<Seq<char>>,
    reason: RefineGateTargetReason,
) -> Seq<RefineLeafGateTargetModel> {
    match snapshot.node_at(parent) {
        None => targets,
        Some(node) => with_leaves_at_all(
            targets,
            snapshot,
            node.child_relative_paths,
            0,
            removed,
            reason,
            snapshot.nodes.len(),
        ),
    }
}

fn upsert_descendant_leaf_target(
    targets: &mut Vec<RefineLeafGateTarget>,
    snapshot: &RefineRuntimeNodeSnapshot,
    path: &str,
    removed: &Vec<String>,
    reason: RefineGateTargetReason,
    depth: usize,
)
    ensures
        final(targets).deep_view() == with_leaves_at(
            old(targets).deep_view(),
            snapshot.deep_view(),
            path@,
            removed.deep_view(),
            reason,
            depth as nat,
        ),
    decreases depth, 0nat,
{
    if list_has(removed, path) {
        return;
    }
    match find_node(snapshot, path) {
        None => {},
        Some(node) => match node.node_kind {
            NodeKind::Leaf => {
                upsert_leaf(
                    targets,
                    snapshot,
                    node.relative_path.as_str(),
                    Some(node.node_id.clone()),
                    None,
                    reason,
                );
            },
            NodeKind::Parent => {
                if depth > 0 {
                    upsert_all_leaf_targets(
                        targets,
                        snapshot,
                        &node.child_relative_paths,
                        removed,
                        reason,
                        depth - 1,
                    );
                }
            },
        },
    }
}

fn upsert_all_leaf_targets(
    targets: &mut Vec<RefineLeafGateTarget>,
    snapshot: &RefineRuntimeNodeSnapshot,
    paths: &Vec<String>,
    removed: &Vec<String>,
    reason: RefineGateTargetReason,
    depth: usize,
)
    ensures
        final(targets).deep_view() == with_leaves_at_all(
            old(targets).deep_view(),
            snapshot.deep_view(),
            paths.deep_view(),
            0,
            removed.deep_view(),
            reason,
            depth as nat,
        ),
    decreases depth, 1nat,
{
    let ghost first = targets.deep_view();
    let ghost all = paths.deep_view();
    let mut i: usize = 0;
    while i < paths.len()
        invariant
            i <= paths.len(),
            all == paths.deep_view(),
            with_leaves_at_all(
                first,
                snapshot.deep_view(),
                all,
                0,
                removed.deep_view(),
                reason,
                depth as nat,
            ) == with_leaves_at_all(
                targets.deep_view(),
                snapshot.deep_view(),
                all,
                i as nat,
                removed.deep_view(),
                reason,
                depth as nat,
            ),
        decreases paths.len() - i,
    {
        upsert_descendant_leaf_target(
            targets,
            snapshot,
            paths[i].as_str(),
            removed,
            reason,
            depth,
        );
        i = i + 1;
    }
}

fn upsert_descendant_leaf_targets(
    targets: &mut Vec<RefineLeafGateTarget>,
    snapshot: &RefineRuntimeNodeSnapshot,
    parent: &str,
    removed: &Vec<String>,
    reason: RefineGateTargetReason,
)
    ensures
        final(targets).deep_view() == with_leaves_below(
            old(targets).deep_view(),
            snapshot.deep_view(),
            parent@,
            removed.deep_view(),
            reason,
        ),
{
    match find_node(snapshot, parent) {
        None => {},
        Some(node) => {
            upsert_all_leaf_targets(
                targets,
                snapshot,
                &node.child_relative_paths,
                removed,
                reason,
                snapshot.nodes.len(),
            );
        },
    }
}

// ---------------------------------------------------------------------
// Frontier targets
// ---------------------------------------------------------------------
/// The first target at or after `i` of this parent.
pub open spec fn frontier_index_from(
    targets: Seq<RefineFrontierGateTargetModel>,
    path: Seq<char>,
    i: int,
) -> Option<int>
    decreases targets.len() - i,
{
    if i >= targets.len() {
        None
    } else if targets[i].parent_relative_path == path {
        Some(i)
    } else {
        frontier_index_from(targets, path, i + 1)
    }
}

/// The targets with one for a parent: a new one, or the one that is there
/// with what is added to it.
pub open spec fn with_frontier(
    targets: Seq<RefineFrontierGateTargetModel>,
    snapshot: RefineRuntimeNodeSnapshotModel,
    parent: Seq<char>,
    changed: Seq<Seq<char>>,
    removed: Seq<Seq<char>>,
    reason: RefineGateTargetReason,
) -> Seq<RefineFrontierGateTargetModel> {
    match frontier_index_from(targets, parent, 0) {
        Some(k) => targets.update(
            k,
            RefineFrontierGateTargetModel {
                changed_child_relative_paths: with_all_unique(
                    targets[k].changed_child_relative_paths,
                    changed,
                ),
                removed_child_relative_paths: with_all_unique(
                    targets[k].removed_child_relative_paths,
                    removed,
                ),
                reasons: with_reason(targets[k].reasons, reason),
                ..targets[k]
            },
        ),
        None => targets.push(
            RefineFrontierGateTargetModel {
                parent_node_id: match snapshot.node_at(parent) {
                    Some(node) => Some(node.node_id),
                    None => None,
                },
                parent_relative_path: parent,
                changed_child_relative_paths: with_all_unique(Seq::empty(), changed),
                removed_child_relative_paths: with_all_unique(Seq::empty(), removed),
                reasons: seq![reason],
            },
        ),
    }
}

fn find_frontier_target(targets: &Vec<RefineFrontierGateTarget>, path: &str) -> (r: Option<usize>)
    ensures
        match r {
            Some(k) => k < targets.len() && frontier_index_from(targets.deep_view(), path@, 0)
                == Some(k as int),
            None => frontier_index_from(targets.deep_view(), path@, 0) is None,
        },
{
    let ghost all = targets.deep_view();
    let mut i: usize = 0;
    while i < targets.len()
        invariant
            i <= targets.len(),
            all == targets.deep_view(),
            frontier_index_from(all, path@, 0) == frontier_index_from(all, path@, i as int),
        decreases targets.len() - i,
    {
        assert(all[i as int] == targets@[i as int].deep_view());
        if same_text(targets[i].parent_relative_path.as_str(), path) {
            return Some(i);
        }
        i = i + 1;
    }
    None
}

fn upsert_frontier(
    targets: &mut Vec<RefineFrontierGateTarget>,
    snapshot: &RefineRuntimeNodeSnapshot,
    parent: &str,
    changed: &Vec<String>,
    removed: &Vec<String>,
    reason: RefineGateTargetReason,
)
    ensures
        final(targets).deep_view() == with_frontier(
            old(targets).deep_view(),
            snapshot.deep_view(),
            parent@,
            changed.deep_view(),
            removed.deep_view(),
            reason,
        ),
{
    let ghost before = targets.deep_view();
    match find_frontier_target(targets, parent) {
        Some(k) => {
            let mut target: RefineFrontierGateTarget = targets[k].clone();
            assert(target.deep_view() == before[k as int]);
            push_all_unique(&mut target.changed_child_relative_paths, changed);
            push_all_unique(&mut target.removed_child_relative_paths, removed);
            push_reason(&mut target.reasons, reason);
            let ghost model = target.deep_view();
            targets.set(k, target);
            assert(targets.deep_view() =~= before.update(k as int, model));
        },
        None => {
            let mut changed_children: Vec<String> = Vec::new();
            let mut removed_children: Vec<String> = Vec::new();
            assert(changed_children.deep_view() =~= Seq::empty());
            assert(removed_children.deep_view() =~= Seq::empty());
            push_all_unique(&mut changed_children, changed);
            push_all_unique(&mut removed_children, removed);
            let target: RefineFrontierGateTarget = RefineFrontierGateTarget {
                parent_node_id: match find_node(snapshot, parent) {
                    Some(node) => Some(node.node_id.clone()),
                    None => None,
                },
                parent_relative_path: parent.to_owned(),
                changed_child_relative_paths: changed_children,
                removed_child_relative_paths: removed_children,
                reasons: one_reason(reason),
            };
            let ghost model = target.deep_view();
            targets.push(target);
            assert(targets.deep_view() =~= before.push(model));
        },
    }
}

// ---------------------------------------------------------------------
// Selection
// ---------------------------------------------------------------------
/// The targets that are selected so far, and the approvals that do not hold
/// any more.
pub struct SelectedTargets {
    pub leaf: Seq<RefineLeafGateTargetModel>,
    pub frontier: Seq<RefineFrontierGateTargetModel>,
    pub stale_leaf: Seq<StaleGateApprovalModel>,
    pub stale_frontier: Seq<StaleGateApprovalModel>,
}

/// A parent changed in this way.
pub open spec fn has_structural_change(
    changes: Seq<RefineStructuralChangeModel>,
    path: Seq<char>,
    kind: RefineStructuralChangeKind,
) -> bool {
    exists|i: int|
        0 <= i < changes.len() && (#[trigger] changes[i]).parent_relative_path == path
            && changes[i].change_kind == kind
}

/// A parent changed in some way.
pub open spec fn is_structurally_changed(
    changes: Seq<RefineStructuralChangeModel>,
    path: Seq<char>,
) -> bool {
    exists|i: int|
        0 <= i < changes.len() && (#[trigger] changes[i]).parent_relative_path == path
}

/// How often the text at a path was updated, from file `i` on.
pub open spec fn text_updates_from(
    files: Seq<RefineChangedFileModel>,
    path: Seq<char>,
    i: int,
) -> nat
    decreases files.len() - i,
{
    if i >= files.len() {
        0
    } else {
        text_updates_from(files, path, i + 1) + (if files[i].relative_path == path
            && files[i].change_kind == RefineChangedFileKind::TextUpdated {
            1nat
        } else {
            0nat
        })
    }
}

/// The paths of the files from `i` on that were removed, after those in
/// `acc`.
pub open spec fn removed_paths_from(
    files: Seq<RefineChangedFileModel>,
    i: int,
    acc: Seq<Seq<char>>,
) -> Seq<Seq<char>>
    decreases files.len() - i,
{
    if i >= files.len() {
        acc
    } else if files[i].change_kind == RefineChangedFileKind::ExplicitlyRemoved {
        removed_paths_from(files, i + 1, acc.push(files[i].relative_path))
    } else {
        removed_paths_from(files, i + 1, acc)
    }
}

impl SelectRefineGateTargetsRequestModel {
    /// The path is that of a parent.
    pub open spec fn is_parent_target(self, path: Seq<char>) -> bool {
        ||| self.runtime_snapshot.has_parent_at(path)
        ||| is_parent_shaped(path)
        ||| is_structurally_changed(self.rewrite_result.structural_changes, path)
    }

    /// The text of the parent was updated only for its links.
    pub open spec fn is_link_only(self, path: Seq<char>) -> bool {
        &&& text_updates_from(self.rewrite_result.changed_files, path, 0) == 1
        &&& has_structural_change(
            self.rewrite_result.structural_changes,
            path,
            RefineStructuralChangeKind::ChangedChildSet,
        )
        &&& !has_structural_change(
            self.rewrite_result.structural_changes,
            path,
            RefineStructuralChangeKind::ParentContractChanged,
        )
    }

    /// The targets with those for a file that changed.
    pub open spec fn with_file(
        self,
        removed: Seq<Seq<char>>,
        file: RefineChangedFileModel,
        state: SelectedTargets,
    ) -> SelectedTargets {
        let path = file.relative_path;
        let snapshot = self.runtime_snapshot;
        match file.change_kind {
            RefineChangedFileKind::TextUpdated => if self.is_parent_target(path) {
                if self.is_link_only(path) {
                    state
                } else {
                    SelectedTargets {
                        frontier: with_frontier(
                            state.frontier,
                            snapshot,
                            path,
                            Seq::empty(),
                            Seq::empty(),
                            RefineGateTargetReason::ParentContractChanged,
                        ),
                        leaf: with_leaves_below(
                            state.leaf,
                            snapshot,
                            path,
                            removed,
                            RefineGateTargetReason::ParentContractChanged,
                        ),
                        ..state
                    }
                }
            } else {
                SelectedTargets {
                    leaf: with_leaf(
                        state.leaf,
                        snapshot,
                        path,
                        file.node_id,
                        None,
                        RefineGateTargetReason::TextChanged,
                    ),
                    ..state
                }
            },
            RefineChangedFileKind::Created => if self.is_parent_target(path) {
                SelectedTargets {
                    frontier: with_frontier(
                        state.frontier,
                        snapshot,
                        path,
                        Seq::empty(),
                        Seq::empty(),
                        RefineGateTargetReason::NewParent,
                    ),
                    ..state
                }
            } else {
                SelectedTargets {
                    leaf: with_leaf(
                        state.leaf,
                        snapshot,
                        path,
                        None,
                        None,
                        RefineGateTargetReason::NewLeaf,
                    ),
                    ..state
                }
            },
            RefineChangedFileKind::Regenerated => SelectedTargets {
                leaf: with_leaf(
                    state.leaf,
                    snapshot,
                    path,
                    file.node_id,
                    None,
                    RefineGateTargetReason::RegeneratedLeaf,
                ),
                ..state
            },
            RefineChangedFileKind::StaleMarked => state,
            RefineChangedFileKind::ExplicitlyRemoved => state,
        }
    }

    /// The targets with those for the files from `i` on that changed.
    pub open spec fn with_files_from(
        self,
        removed: Seq<Seq<char>>,
        i: int,
        state: SelectedTargets,
    ) -> SelectedTargets
        decreases self.rewrite_result.changed_files.len() - i,
    {
        if i >= self.rewrite_result.changed_files.len() {
            state
        } else {
            self.with_files_from(
                removed,
                i + 1,
                self.with_file(removed, self.rewrite_result.changed_files[i], state),
            )
        }
    }

    /// The targets with those for the contexts from `i` on that changed.
    pub open spec fn with_contexts_from(self, i: int, state: SelectedTargets) -> SelectedTargets
        decreases self.rewrite_result.context_invalidations.len() - i,
    {
        if i >= self.rewrite_result.context_invalidations.len() {
            state
        } else {
            let invalidation = self.rewrite_result.context_invalidations[i];
            self.with_contexts_from(
                i + 1,
                SelectedTargets {
                    leaf: with_leaf(
                        state.leaf,
                        self.runtime_snapshot,
                        invalidation.relative_path,
                        invalidation.node_id,
                        None,
                        RefineGateTargetReason::ContextInvalidated,
                    ),
                    ..state
                },
            )
        }
    }

    /// The leaf targets with those for the children from `i` on that a parent
    /// gained.
    pub open spec fn with_added_children_from(
        self,
        change: RefineStructuralChangeModel,
        i: int,
        targets: Seq<RefineLeafGateTargetModel>,
    ) -> Seq<RefineLeafGateTargetModel>
        decreases change.added_child_relative_paths.len() - i,
    {
        if i >= change.added_child_relative_paths.len() {
            targets
        } else {
            let child = change.added_child_relative_paths[i];
            let next = match self.runtime_snapshot.node_at(child) {
                Some(node) => match node.node_kind {
                    NodeKind::Leaf => with_leaf(
                        targets,
                        self.runtime_snapshot,
                        child,
                        None,
                        Some(change.parent_relative_path),
                        structural_reason(change.change_kind),
                    ),
                    NodeKind::Parent => with_leaves_below(
                        targets,
                        self.runtime_snapshot,
                        child,
                        Seq::empty(),
                        structural_reason(change.change_kind),
                    ),
                },
                None => targets,
            };
            self.with_added_children_from(change, i + 1, next)
        }
    }

    /// The targets with those for the parents from `i` on that changed.
    pub open spec fn with_structure_from(self, i: int, state: SelectedTargets) -> SelectedTargets
        decreases self.rewrite_result.structural_changes.len() - i,
    {
        if i >= self.rewrite_result.structural_changes.len() {
            state
        } else {
            let change = self.rewrite_result.structural_changes[i];
            self.with_structure_from(
                i + 1,
                SelectedTargets {
                    frontier: with_frontier(
                        state.frontier,
                        self.runtime_snapshot,
                        change.parent_relative_path,
                        change.added_child_relative_paths + change.removed_child_relative_paths,
                        change.removed_child_relative_paths,
                        structural_reason(change.change_kind),
                    ),
                    leaf: self.with_added_children_from(change, 0, state.leaf),
                    ..state
                },
            )
        }
    }

    /// The targets with those for a handoff.
    pub open spec fn with_handoff(
        self,
        handoff: RefineStaleResultHandoffModel,
        state: SelectedTargets,
    ) -> SelectedTargets {
        if handoff.classification != RefineStaleGateClassification::Stale || trimmed(
            handoff.invalidation_reason,
        ).len() == 0 {
            state
        } else {
            match handoff.target_kind {
                StaleGateTargetKind::Leaf => {
                    let leaf = with_leaf(
                        state.leaf,
                        self.runtime_snapshot,
                        handoff.relative_path,
                        handoff.node_id,
                        None,
                        RefineGateTargetReason::StaleDescendant,
                    );
                    SelectedTargets {
                        leaf,
                        stale_leaf: match prior_leaf_from(
                            self.prior_gate_summaries.leaf,
                            handoff,
                            0,
                        ) {
                            Some(prior) => state.stale_leaf.push(
                                StaleGateApprovalModel {
                                    target_kind: StaleGateTargetKind::Leaf,
                                    node_id: prior.node_id,
                                    relative_path: prior.relative_path,
                                    gate_run_id: prior.summary.gate_run_id,
                                    stale_reasons: leaf_reasons(leaf, handoff.relative_path),
                                },
                            ),
                            None => state.stale_leaf,
                        },
                        ..state
                    }
                },
                StaleGateTargetKind::Frontier => {
                    let parent = handoff_parent(handoff);
                    let frontier = with_frontier(
                        state.frontier,
                        self.runtime_snapshot,
                        parent,
                        match handoff.regenerated_child_relative_path {
                            Some(child) => seq![child],
                            None => Seq::empty(),
                        },
                        Seq::empty(),
                        RefineGateTargetReason::StaleDescendant,
                    );
                    SelectedTargets {
                        frontier,
                        stale_frontier: match prior_frontier_from(
                            self.prior_gate_summaries.frontier,
                            handoff,
                            0,
                        ) {
                            Some(prior) => state.stale_frontier.push(
                                StaleGateApprovalModel {
                                    target_kind: StaleGateTargetKind::Frontier,
                                    node_id: prior.parent_node_id,
                                    relative_path: prior.parent_relative_path,
                                    gate_run_id: prior.summary.gate_run_id,
                                    stale_reasons: frontier_reasons(frontier, parent),
                                },
                            ),
                            None => state.stale_frontier,
                        },
                        ..state
                    }
                },
            }
        }
    }

    /// The targets with those for the handoffs from `i` on.
    pub open spec fn with_handoffs_from(self, i: int, state: SelectedTargets) -> SelectedTargets
        decreases self.stale_result_handoff.len() - i,
    {
        if i >= self.stale_result_handoff.len() {
            state
        } else {
            self.with_handoffs_from(i + 1, self.with_handoff(self.stale_result_handoff[i], state))
        }
    }

    /// All targets: for the files, the contexts and the parents that changed,
    /// then for the handoffs.
    pub open spec fn selected(self) -> SelectedTargets {
        let removed = removed_paths_from(self.rewrite_result.changed_files, 0, Seq::empty());
        let start = SelectedTargets {
            leaf: Seq::empty(),
            frontier: Seq::empty(),
            stale_leaf: Seq::empty(),
            stale_frontier: Seq::empty(),
        };
        self.with_handoffs_from(
            0,
            self.with_structure_from(
                0,
                self.with_contexts_from(0, self.with_files_from(removed, 0, start)),
            ),
        )
    }

    /// The selection: the targets, what they are expected to be, and the
    /// approvals that do not hold any more.
    pub open spec fn selection(self) -> RefineGateTargetSelectionModel {
        let state = self.selected();
        RefineGateTargetSelectionModel {
            leaf_targets: state.leaf,
            frontier_targets: state.frontier,
            stale_leaf_approvals: state.stale_leaf,
            stale_frontier_approvals: state.stale_frontier,
            expected_target_summary: ExpectedGateTargetSummaryModel {
                leaf_targets: Seq::new(state.leaf.len(), |i: int| expected_leaf(state.leaf[i])),
                frontier_targets: Seq::new(
                    state.frontier.len(),
                    |i: int| expected_frontier(state.frontier[i]),
                ),
            },
        }
    }
}

/// Why a gate runs again when a parent changed.
pub open spec fn structural_reason(kind: RefineStructuralChangeKind) -> RefineGateTargetReason {
    match kind {
        RefineStructuralChangeKind::ChangedChildSet => RefineGateTargetReason::ChangedChildSet,
        RefineStructuralChangeKind::ParentContractChanged =>
            RefineGateTargetReason::ParentContractChanged,
    }
}

/// The parent that a handoff is about.
pub open spec fn handoff_parent(handoff: RefineStaleResultHandoffModel) -> Seq<char> {
    match handoff.parent_relative_path {
        Some(path) => path,
        None => handoff.relative_path,
    }
}

/// The first approval at or after `i` that a handoff is about.
pub open spec fn prior_leaf_from(
    priors: Seq<RefinePriorLeafGateSummaryModel>,
    handoff: RefineStaleResultHandoffModel,
    i: int,
) -> Option<RefinePriorLeafGateSummaryModel>
    decreases priors.len() - i,
{
    if i >= priors.len() {
        None
    } else if priors[i].relative_path == handoff.relative_path && (handoff.node_id is None
        || handoff.node_id == Some(priors[i].node_id)) {
        Some(priors[i])
    } else {
        prior_leaf_from(priors, handoff, i + 1)
    }
}

/// The first approval of a parent at or after `i` that a handoff is about.
pub open spec fn prior_frontier_from(
    priors: Seq<RefinePriorFrontierGateSummaryModel>,
    handoff: RefineStaleResultHandoffModel,
    i: int,
) -> Option<RefinePriorFrontierGateSummaryModel>
    decreases priors.len() - i,
{
    let node_id = either(handoff.parent_node_id, handoff.node_id);
    if i >= priors.len() {
        None
    } else if priors[i].parent_relative_path == handoff_parent(handoff) && (node_id is None
        || node_id == Some(priors[i].parent_node_id)) {
        Some(priors[i])
    } else {
        prior_frontier_from(priors, handoff, i + 1)
    }
}

/// The reasons of the target of a leaf.
pub open spec fn leaf_reasons(targets: Seq<RefineLeafGateTargetModel>, path: Seq<char>) -> Seq<
    RefineGateTargetReason,
> {
    match leaf_index_from(targets, path, 0) {
        Some(k) => targets[k].reasons,
        None => seq![RefineGateTargetReason::StaleDescendant],
    }
}

/// The reasons of the target of a parent.
pub open spec fn frontier_reasons(
    targets: Seq<RefineFrontierGateTargetModel>,
    path: Seq<char>,
) -> Seq<RefineGateTargetReason> {
    match frontier_index_from(targets, path, 0) {
        Some(k) => targets[k].reasons,
        None => seq![RefineGateTargetReason::StaleDescendant],
    }
}

/// What is expected of the target of a leaf.
pub open spec fn expected_leaf(target: RefineLeafGateTargetModel) -> ExpectedLeafGateTargetSummaryModel {
    ExpectedLeafGateTargetSummaryModel {
        node_id: target.node_id,
        relative_path: target.relative_path,
        parent_relative_path: target.parent_relative_path,
        reasons: target.reasons,
    }
}

/// What is expected of the target of a parent.
pub open spec fn expected_frontier(target: RefineFrontierGateTargetModel) -> ExpectedFrontierGateTargetSummaryModel {
    ExpectedFrontierGateTargetSummaryModel {
        parent_node_id: target.parent_node_id,
        parent_relative_path: target.parent_relative_path,
        changed_child_relative_paths: target.changed_child_relative_paths,
        removed_child_relative_paths: target.removed_child_relative_paths,
        reasons: target.reasons,
    }
}

fn structural_change_is_present(
    changes: &Vec<RefineStructuralChange>,
    path: &str,
    kind: RefineStructuralChangeKind,
) -> (r: bool)
    ensures
        r == has_structural_change(changes.deep_view(), path@, kind),
{
    let ghost all = changes.deep_view();
    let mut i: usize = 0;
    while i < changes.len()
        invariant
            i <= changes.len(),
            all == changes.deep_view(),
            forall|k: int|
                0 <= k < i ==> !((#[trigger] all[k]).parent_relative_path == path@
                    && all[k].change_kind == kind),
        decreases changes.len() - i,
    {
        assert(all[i as int] == changes@[i as int].deep_view());
        if same_text(changes[i].parent_relative_path.as_str(), path) && changes[i].change_kind
            == kind {
            return true;
        }
        i = i + 1;
    }
    false
}

fn structural_path_is_present(changes: &Vec<RefineStructuralChange>, path: &str) -> (r: bool)
    ensures
        r == is_structurally_changed(changes.deep_view(), path@),
{
    let ghost all = changes.deep_view();
    let mut i: usize = 0;
    while i < changes.len()
        invariant
            i <= changes.len(),
            all == changes.deep_view(),
            forall|k: int| 0 <= k < i ==> (#[trigger] all[k]).parent_relative_path != path@,
        decreases changes.len() - i,
    {
        assert(all[i as int] == changes@[i as int].deep_view());
        if same_text(changes[i].parent_relative_path.as_str(), path) {
            return true;
        }
        i = i + 1;
    }
    false
}

fn is_parent_target_path(request: &SelectRefineGateTargetsRequest, path: &str) -> (r: bool)
    ensures
        r == request.deep_view().is_parent_target(path@),
{
    snapshot_has_parent(&request.runtime_snapshot, path) || is_parent_path(path)
        || structural_path_is_present(&request.rewrite_result.structural_changes, path)
}

fn is_link_only_parent_text_update(request: &SelectRefineGateTargetsRequest, path: &str) -> (r:
    bool)
    ensures
        r == request.deep_view().is_link_only(path@),
{
    let files: &Vec<RefineChangedFile> = &request.rewrite_result.changed_files;
    let ghost all = files.deep_view();
    let mut count: usize = 0;
    let mut i: usize = 0;
    while i < files.len()
        invariant
            i <= files.len(),
            count <= i,
            all == files.deep_view(),
            text_updates_from(all, path@, 0) == count + text_updates_from(all, path@, i as int),
        decreases files.len() - i,
    {
        assert(all[i as int] == files@[i as int].deep_view());
        if same_text(files[i].relative_path.as_str(), path) && files[i].change_kind
            == RefineChangedFileKind::TextUpdated {
            count = count + 1;
        }
        i = i + 1;
    }
    count == 1 && structural_change_is_present(
        &request.rewrite_result.structural_changes,
        path,
        RefineStructuralChangeKind::ChangedChildSet,
    ) && !structural_change_is_present(
        &request.rewrite_result.structural_changes,
        path,
        RefineStructuralChangeKind::ParentContractChanged,
    )
}

fn explicitly_removed_paths(files: &Vec<RefineChangedFile>) -> (r: Vec<String>)
    ensures
        r.deep_view() == removed_paths_from(files.deep_view(), 0, Seq::empty()),
{
    let ghost all = files.deep_view();
    let mut out: Vec<String> = Vec::new();
    let mut i: usize = 0;
    assert(out.deep_view() =~= Seq::empty());
    while i < files.len()
        invariant
            i <= files.len(),
            all == files.deep_view(),
            removed_paths_from(all, 0, Seq::empty()) == removed_paths_from(
                all,
                i as int,
                out.deep_view(),
            ),
        decreases files.len() - i,
    {
        assert(all[i as int] == files@[i as int].deep_view());
        if files[i].change_kind == RefineChangedFileKind::ExplicitlyRemoved {
            let ghost before = out.deep_view();
            out.push(files[i].relative_path.clone());
            assert(out.deep_view() =~= before.push(files@[i as int].relative_path@));
        }
        i = i + 1;
    }
    out
}

/// The targets in the making.
struct Targets {
    leaf: Vec<RefineLeafGateTarget>,
    frontier: Vec<RefineFrontierGateTarget>,
    stale_leaf: Vec<StaleGateApproval>,
    stale_frontier: Vec<StaleGateApproval>,
}

impl DeepView for Targets {
    type V = SelectedTargets;

    closed spec fn deep_view(&self) -> SelectedTargets {
        SelectedTargets {
            leaf: self.leaf.deep_view(),
            frontier: self.frontier.deep_view(),
            stale_leaf: self.stale_leaf.deep_view(),
            stale_frontier: self.stale_frontier.deep_view(),
        }
    }
}

fn no_paths() -> (r: Vec<String>)
    ensures
        r.deep_view() == Seq::<Seq<char>>::empty(),
{
    let out: Vec<String> = Vec::new();
    assert(out.deep_view() =~= Seq::empty());
    out
}

fn select_for_file(
    request: &SelectRefineGateTargetsRequest,
    removed: &Vec<String>,
    file: &RefineChangedFile,
    targets: &mut Targets,
)
    ensures
        final(targets).deep_view() == request.deep_view().with_file(
            removed.deep_view(),
            file.deep_view(),
            old(targets).deep_view(),
        ),
{
    let path: &str = file.relative_path.as_str();
    let snapshot: &RefineRuntimeNodeSnapshot = &request.runtime_snapshot;
    match file.change_kind {
        RefineChangedFileKind::TextUpdated => {
            if is_parent_target_path(request, path) {
                if !is_link_only_parent_text_update(request, path) {
                    upsert_frontier(
                        &mut targets.frontier,
                        snapshot,
                        path,
                        &no_paths(),
                        &no_paths(),
                        RefineGateTargetReason::ParentContractChanged,
                    );
                    upsert_descendant_leaf_targets(
                        &mut targets.leaf,
                        snapshot,
                        path,
                        removed,
                        RefineGateTargetReason::ParentContractChanged,
                    );
                }
            } else {
                upsert_leaf(
                    &mut targets.leaf,
                    snapshot,
                    path,
                    file.node_id.clone(),
                    None,
                    RefineGateTargetReason::TextChanged,
                );
            }
        },
        RefineChangedFileKind::Created => {
            if is_parent_target_path(request, path) {
                upsert_frontier(
                    &mut targets.frontier,
                    snapshot,
                    path,
                    &no_paths(),
                    &no_paths(),
                    RefineGateTargetReason::NewParent,
                );
            } else {
                upsert_leaf(
                    &mut targets.leaf,
                    snapshot,
                    path,
                    None,
                    None,
                    RefineGateTargetReason::NewLeaf,
                );
            }
        },
        RefineChangedFileKind::Regenerated => {
            upsert_leaf(
                &mut targets.leaf,
                snapshot,
                path,
                file.node_id.clone(),
                None,
                RefineGateTargetReason::RegeneratedLeaf,
            );
        },
        RefineChangedFileKind::StaleMarked => {},
        RefineChangedFileKind::ExplicitlyRemoved => {},
    }
}

fn select_for_added_children(
    request: &SelectRefineGateTargetsRequest,
    change: &RefineStructuralChange,
    reason: RefineGateTargetReason,
    targets: &mut Vec<RefineLeafGateTarget>,
)
    requires
        reason == structural_reason(change.change_kind),
    ensures
        final(targets).deep_view() == request.deep_view().with_added_children_from(
            change.deep_view(),
            0,
            old(targets).deep_view(),
        ),
{
    let ghost first = targets.deep_view();
    let ghost model = request.deep_view();
    let ghost changed = change.deep_view();
    let snapshot: &RefineRuntimeNodeSnapshot = &request.runtime_snapshot;
    let children: &Vec<String> = &change.added_child_relative_paths;
    let mut i: usize = 0;
    while i < children.len()
        invariant
            i <= children.len(),
            model == request.deep_view(),
            changed == change.deep_view(),
            children.deep_view() == changed.added_child_relative_paths,
            snapshot.deep_view() == model.runtime_snapshot,
            reason == structural_reason(changed.change_kind),
            model.with_added_children_from(changed, 0, first) == model.with_added_children_from(
                changed,
                i as int,
                targets.deep_view(),
            ),
        decreases children.len() - i,
    {
        let child: &str = children[i].as_str();
        assert(changed.added_child_relative_paths[i as int] == child@);
        match find_node(snapshot, child) {
            Some(node) => match node.node_kind {
                NodeKind::Leaf => {
                    upsert_leaf(
                        targets,
                        snapshot,
                        child,
                        None,
                        Some(change.parent_relative_path.clone()),
                        reason,
                    );
                },
                NodeKind::Parent => {
                    upsert_descendant_leaf_targets(targets, snapshot, child, &no_paths(), reason);
                },
            },
            None => {},
        }
        i = i + 1;
    }
}

fn select_for_structure(
    request: &SelectRefineGateTargetsRequest,
    change: &RefineStructuralChange,
    targets: &mut Targets,
)
    ensures
        final(targets).deep_view() == (SelectedTargets {
            frontier: with_frontier(
                old(targets).deep_view().frontier,
                request.deep_view().runtime_snapshot,
                change.deep_view().parent_relative_path,
                change.deep_view().added_child_relative_paths
                    + change.deep_view().removed_child_relative_paths,
                change.deep_view().removed_child_relative_paths,
                structural_reason(change.change_kind),
            ),
            leaf: request.deep_view().with_added_children_from(
                change.deep_view(),
                0,
                old(targets).deep_view().leaf,
            ),
            ..old(targets).deep_view()
        }),
{
    let reason: RefineGateTargetReason = match change.change_kind {
        RefineStructuralChangeKind::ChangedChildSet => RefineGateTargetReason::ChangedChildSet,
        RefineStructuralChangeKind::ParentContractChanged =>
            RefineGateTargetReason::ParentContractChanged,
    };
    let mut changed: Vec<String> = copy_list(&change.added_child_relative_paths);
    let mut removed: Vec<String> = copy_list(&change.removed_child_relative_paths);
    let ghost a = changed;
    let ghost b = removed;
    changed.append(&mut removed);
    assert(changed.deep_view() =~= a.deep_view() + b.deep_view());
    upsert_frontier(
        &mut targets.frontier,
        &request.runtime_snapshot,
        change.parent_relative_path.as_str(),
        &changed,
        &change.removed_child_relative_paths,
        reason,
    );
    select_for_added_children(request, change, reason, &mut targets.leaf);
}

fn find_prior_leaf<'a>(
    priors: &'a Vec<RefinePriorLeafGateSummary>,
    handoff: &RefineStaleResultHandoff,
) -> (r: Option<&'a RefinePriorLeafGateSummary>)
    ensures
        match r {
            Some(prior) => prior_leaf_from(priors.deep_view(), handoff.deep_view(), 0) == Some(
                prior.deep_view(),
            ),
            None => prior_leaf_from(priors.deep_view(), handoff.deep_view(), 0) is None,
        },
{
    let ghost all = priors.deep_view();
    let ghost h = handoff.deep_view();
    let mut i: usize = 0;
    while i < priors.len()
        invariant
            i <= priors.len(),
            all == priors.deep_view(),
            h == handoff.deep_view(),
            prior_leaf_from(all, h, 0) == prior_leaf_from(all, h, i as int),
        decreases priors.len() - i,
    {
        let prior: &RefinePriorLeafGateSummary = &priors[i];
        assert(all[i as int] == prior.deep_view());
        if same_text(prior.relative_path.as_str(), handoff.relative_path.as_str()) && (
        handoff.node_id.is_none() || is_text(&handoff.node_id, prior.node_id.as_str())) {
            return Some(prior);
        }
        i = i + 1;
    }
    None
}

fn find_prior_frontier<'a>(
    priors: &'a Vec<RefinePriorFrontierGateSummary>,
    handoff: &RefineStaleResultHandoff,
    parent: &str,
) -> (r: Option<&'a RefinePriorFrontierGateSummary>)
    requires
        parent@ == handoff_parent(handoff.deep_view()),
    ensures
        match r {
            Some(prior) => prior_frontier_from(priors.deep_view(), handoff.deep_view(), 0) == Some(
                prior.deep_view(),
            ),
            None => prior_frontier_from(priors.deep_view(), handoff.deep_view(), 0) is None,
        },
{
    let ghost all = priors.deep_view();
    let ghost h = handoff.deep_view();
    let node_id: &Option<String> = if handoff.parent_node_id.is_some() {
        &handoff.parent_node_id
    } else {
        &handoff.node_id
    };
    let mut i: usize = 0;
    while i < priors.len()
        invariant
            i <= priors.len(),
            all == priors.deep_view(),
            h == handoff.deep_view(),
            parent@ == handoff_parent(h),
            node_id.deep_view() == either(h.parent_node_id, h.node_id),
            prior_frontier_from(all, h, 0) == prior_frontier_from(all, h, i as int),
        decreases priors.len() - i,
    {
        let prior: &RefinePriorFrontierGateSummary = &priors[i];
        assert(all[i as int] == prior.deep_view());
        if same_text(prior.parent_relative_path.as_str(), parent) && (node_id.is_none() || is_text(
            node_id,
            prior.parent_node_id.as_str(),
        )) {
            return Some(prior);
        }
        i = i + 1;
    }
    None
}

fn reasons_for_leaf(targets: &Vec<RefineLeafGateTarget>, path: &str) -> (r: Vec<
    RefineGateTargetReason,
>)
    ensures
        r.deep_view() == leaf_reasons(targets.deep_view(), path@),
{
    match find_leaf_target(targets, path) {
        Some(k) => {
            assert(targets.deep_view()[k as int] == targets@[k as int].deep_view());
            copy_reasons(&targets[k].reasons)
        },
        None => one_reason(RefineGateTargetReason::StaleDescendant),
    }
}

fn reasons_for_frontier(targets: &Vec<RefineFrontierGateTarget>, path: &str) -> (r: Vec<
    RefineGateTargetReason,
>)
    ensures
        r.deep_view() == frontier_reasons(targets.deep_view(), path@),
{
    match find_frontier_target(targets, path) {
        Some(k) => {
            assert(targets.deep_view()[k as int] == targets@[k as int].deep_view());
            copy_reasons(&targets[k].reasons)
        },
        None => one_reason(RefineGateTargetReason::StaleDescendant),
    }
}

fn select_for_handoff(
    request: &SelectRefineGateTargetsRequest,
    handoff: &RefineStaleResultHandoff,
    targets: &mut Targets,
)
    ensures
        final(targets).deep_view() == request.deep_view().with_handoff(
            handoff.deep_view(),
            old(targets).deep_view(),
        ),
{
    if handoff.classification != RefineStaleGateClassification::Stale || is_blank(
        handoff.invalidation_reason.as_str(),
    ) {
        return;
    }
    match handoff.target_kind {
        StaleGateTargetKind::Leaf => {
            let path: &str = handoff.relative_path.as_str();
            upsert_leaf(
                &mut targets.leaf,
                &request.runtime_snapshot,
                path,
                handoff.node_id.clone(),
                None,
                RefineGateTargetReason::StaleDescendant,
            );
            match find_prior_leaf(&request.prior_gate_summaries.leaf, handoff) {
                Some(prior) => {
                    let ghost before = targets.stale_leaf.deep_view();
                    let approval: StaleGateApproval = StaleGateApproval {
                        target_kind: StaleGateTargetKind::Leaf,
                        node_id: prior.node_id.clone(),
                        relative_path: prior.relative_path.clone(),
                        gate_run_id: prior.summary.gate_run_id.clone(),
                        stale_reasons: reasons_for_leaf(&targets.leaf, path),
                    };
                    let ghost model = approval.deep_view();
                    targets.stale_leaf.push(approval);
                    assert(targets.stale_leaf.deep_view() =~= before.push(model));
                },
                None => {},
            }
        },
        StaleGateTargetKind::Frontier => {
            let parent: &str = match &handoff.parent_relative_path {
                Some(path) => path.as_str(),
                None => handoff.relative_path.as_str(),
            };
            let mut changed: Vec<String> = Vec::new();
            match &handoff.regenerated_child_relative_path {
                Some(child) => {
                    changed.push(child.clone());
                    assert(changed.deep_view() =~= seq![child@]);
                },
                None => {
                    assert(changed.deep_view() =~= Seq::empty());
                },
            }
            upsert_frontier(
                &mut targets.frontier,
                &request.runtime_snapshot,
                parent,
                &changed,
                &no_paths(),
                RefineGateTargetReason::StaleDescendant,
            );
            match find_prior_frontier(&request.prior_gate_summaries.frontier, handoff, parent) {
                Some(prior) => {
                    let ghost before = targets.stale_frontier.deep_view();
                    let approval: StaleGateApproval = StaleGateApproval {
                        target_kind: StaleGateTargetKind::Frontier,
                        node_id: prior.parent_node_id.clone(),
                        relative_path: prior.parent_relative_path.clone(),
                        gate_run_id: prior.summary.gate_run_id.clone(),
                        stale_reasons: reasons_for_frontier(&targets.frontier, parent),
                    };
                    let ghost model = approval.deep_view();
                    targets.stale_frontier.push(approval);
                    assert(targets.stale_frontier.deep_view() =~= before.push(model));
                },
                None => {},
            }
        },
    }
}

fn apply_stale_handoff(request: &SelectRefineGateTargetsRequest, targets: &mut Targets)
    ensures
        final(targets).deep_view() == request.deep_view().with_handoffs_from(
            0,
            old(targets).deep_view(),
        ),
{
    let ghost first = targets.deep_view();
    let ghost model = request.deep_view();
    let mut i: usize = 0;
    while i < request.stale_result_handoff.len()
        invariant
            i <= request.stale_result_handoff.len(),
            model == request.deep_view(),
            model.with_handoffs_from(0, first) == model.with_handoffs_from(
                i as int,
                targets.deep_view(),
            ),
        decreases request.stale_result_handoff.len() - i,
    {
        assert(model.stale_result_handoff[i as int]
            == request.stale_result_handoff@[i as int].deep_view());
        select_for_handoff(request, &request.stale_result_handoff[i], targets);
        i = i + 1;
    }
}

fn select_for_files(request: &SelectRefineGateTargetsRequest, targets: &mut Targets)
    ensures
        final(targets).deep_view() == request.deep_view().with_files_from(
            removed_paths_from(
                request.deep_view().rewrite_result.changed_files,
                0,
                Seq::empty(),
            ),
            0,
            old(targets).deep_view(),
        ),
{
    let ghost first = targets.deep_view();
    let ghost model = request.deep_view();
    let files: &Vec<RefineChangedFile> = &request.rewrite_result.changed_files;
    let removed: Vec<String> = explicitly_removed_paths(files);
    let ghost gone = removed.deep_view();
    let mut i: usize = 0;
    while i < files.len()
        invariant
            i <= files.len(),
            model == request.deep_view(),
            files.deep_view() == model.rewrite_result.changed_files,
            gone == removed.deep_view(),
            model.with_files_from(gone, 0, first) == model.with_files_from(
                gone,
                i as int,
                targets.deep_view(),
            ),
        decreases files.len() - i,
    {
        assert(model.rewrite_result.changed_files[i as int] == files@[i as int].deep_view());
        select_for_file(request, &removed, &files[i], targets);
        i = i + 1;
    }
}

fn select_for_contexts(request: &SelectRefineGateTargetsRequest, targets: &mut Targets)
    ensures
        final(targets).deep_view() == request.deep_view().with_contexts_from(
            0,
            old(targets).deep_view(),
        ),
{
    let ghost first = targets.deep_view();
    let ghost model = request.deep_view();
    let contexts: &Vec<RefineContextInvalidation> = &request.rewrite_result.context_invalidations;
    let mut i: usize = 0;
    while i < contexts.len()
        invariant
            i <= contexts.len(),
            model == request.deep_view(),
            contexts.deep_view() == model.rewrite_result.context_invalidations,
            model.with_contexts_from(0, first) == model.with_contexts_from(
                i as int,
                targets.deep_view(),
            ),
        decreases contexts.len() - i,
    {
        let invalidation: &RefineContextInvalidation = &contexts[i];
        assert(model.rewrite_result.context_invalidations[i as int] == invalidation.deep_view());
        upsert_leaf(
            &mut targets.leaf,
            &request.runtime_snapshot,
            invalidation.relative_path.as_str(),
            invalidation.node_id.clone(),
            None,
            RefineGateTargetReason::ContextInvalidated,
        );
        i = i + 1;
    }
}

fn select_for_structures(request: &SelectRefineGateTargetsRequest, targets: &mut Targets)
    ensures
        final(targets).deep_view() == request.deep_view().with_structure_from(
            0,
            old(targets).deep_view(),
        ),
{
    let ghost first = targets.deep_view();
    let ghost model = request.deep_view();
    let changes: &Vec<RefineStructuralChange> = &request.rewrite_result.structural_changes;
    let mut i: usize = 0;
    while i < changes.len()
        invariant
            i <= changes.len(),
            model == request.deep_view(),
            changes.deep_view() == model.rewrite_result.structural_changes,
            model.with_structure_from(0, first) == model.with_structure_from(
                i as int,
                targets.deep_view(),
            ),
        decreases changes.len() - i,
    {
        assert(model.rewrite_result.structural_changes[i as int]
            == changes@[i as int].deep_view());
        select_for_structure(request, &changes[i], targets);
        i = i + 1;
    }
}

fn expected_leaf_targets(targets: &Vec<RefineLeafGateTarget>) -> (r: Vec<
    ExpectedLeafGateTargetSummary,
>)
    ensures
        r.deep_view() == Seq::new(
            targets.deep_view().len(),
            |i: int| expected_leaf(targets.deep_view()[i]),
        ),
{
    let ghost all = Seq::new(
        targets.deep_view().len(),
        |i: int| expected_leaf(targets.deep_view()[i]),
    );
    let mut out: Vec<ExpectedLeafGateTargetSummary> = Vec::new();
    let mut i: usize = 0;
    assert(out.deep_view() =~= all.take(0));
    while i < targets.len()
        invariant
            i <= targets.len(),
            all == Seq::new(
                targets.deep_view().len(),
                |i: int| expected_leaf(targets.deep_view()[i]),
            ),
            out.deep_view() == all.take(i as int),
        decreases targets.len() - i,
    {
        let ghost before = out.deep_view();
        let target: &RefineLeafGateTarget = &targets[i];
        let entry: ExpectedLeafGateTargetSummary = ExpectedLeafGateTargetSummary {
            node_id: target.node_id.clone(),
            relative_path: target.relative_path.clone(),
            parent_relative_path: target.parent_relative_path.clone(),
            reasons: copy_reasons(&target.reasons),
        };
        out.push(entry);
        assert(all[i as int] == entry.deep_view());
        assert(out.deep_view() =~= before.push(entry.deep_view()));
        i = i + 1;
        assert(out.deep_view() =~= all.take(i as int));
    }
    assert(out.deep_view() =~= all);
    out
}

fn expected_frontier_targets(targets: &Vec<RefineFrontierGateTarget>) -> (r: Vec<
    ExpectedFrontierGateTargetSummary,
>)
    ensures
        r.deep_view() == Seq::new(
            targets.deep_view().len(),
            |i: int| expected_frontier(targets.deep_view()[i]),
        ),
{
    let ghost all = Seq::new(
        targets.deep_view().len(),
        |i: int| expected_frontier(targets.deep_view()[i]),
    );
    let mut out: Vec<ExpectedFrontierGateTargetSummary> = Vec::new();
    let mut i: usize = 0;
    assert(out.deep_view() =~= all.take(0));
    while i < targets.len()
        invariant
            i <= targets.len(),
            all == Seq::new(
                targets.deep_view().len(),
                |i: int| expected_frontier(targets.deep_view()[i]),
            ),
            out.deep_view() == all.take(i as int),
        decreases targets.len() - i,
    {
        let ghost before = out.deep_view();
        let target: &RefineFrontierGateTarget = &targets[i];
        let entry: ExpectedFrontierGateTargetSummary = ExpectedFrontierGateTargetSummary {
            parent_node_id: target.parent_node_id.clone(),
            parent_relative_path: target.parent_relative_path.clone(),
            changed_child_relative_paths: copy_list(&target.changed_child_relative_paths),
            removed_child_relative_paths: copy_list(&target.removed_child_relative_paths),
            reasons: copy_reasons(&target.reasons),
        };
        out.push(entry);
        assert(all[i as int] == entry.deep_view());
        assert(out.deep_view() =~= before.push(entry.deep_view()));
        i = i + 1;
        assert(out.deep_view() =~= all.take(i as int));
    }
    assert(out.deep_view() =~= all);
    out
}

/// The gates that run again after a rewrite.
pub fn select_refine_gate_targets(request: SelectRefineGateTargetsRequest) -> (r:
    RefineGateTargetSelection)
    ensures
        r.deep_view() == request.deep_view().selection(),
{
    let mut targets: Targets = Targets {
        leaf: Vec::new(),
        frontier: Vec::new(),
        stale_leaf: Vec::new(),
        stale_frontier: Vec::new(),
    };
    assert(targets.leaf.deep_view() =~= Seq::empty());
    assert(targets.frontier.deep_view() =~= Seq::empty());
    assert(targets.stale_leaf.deep_view() =~= Seq::empty());
    assert(targets.stale_frontier.deep_view() =~= Seq::empty());
    select_for_files(&request, &mut targets);
    select_for_contexts(&request, &mut targets);
    select_for_structures(&request, &mut targets);
    apply_stale_handoff(&request, &mut targets);
    let expected_target_summary: ExpectedGateTargetSummary = ExpectedGateTargetSummary {
        leaf_targets: expected_leaf_targets(&targets.leaf),
        frontier_targets: expected_frontier_targets(&targets.frontier),
    };
    RefineGateTargetSelection {
        leaf_targets: targets.leaf,
        frontier_targets: targets.frontier,
        stale_leaf_approvals: targets.stale_leaf,
        stale_frontier_approvals: targets.stale_frontier,
        expected_target_summary,
    }
}

// ---------------------------------------------------------------------
// Registration
// ---------------------------------------------------------------------
impl RefineGateTargetSelectionModel {
    /// The path is that of a parent that the selection knows of.
    pub open spec fn knows_parent(self, path: Seq<char>) -> bool {
        ||| exists|i: int|
            0 <= i < self.frontier_targets.len() && (
            #[trigger] self.frontier_targets[i]).parent_relative_path == path
        ||| exists|i: int|
            0 <= i < self.leaf_targets.len() && (
            #[trigger] self.leaf_targets[i]).parent_relative_path == Some(path)
    }

    /// Where the parent of a parent stands.
    pub open spec fn ancestor_of(self, path: Seq<char>) -> Option<Seq<char>> {
        match root_scope_parent(path, 2) {
            Some(candidate) => if self.knows_parent(candidate) {
                Some(candidate)
            } else {
                scoped_ancestor(path)
            },
            None => scoped_ancestor(path),
        }
    }

    /// The parents from `i` on that are to be tracked, after those in `acc`:
    /// those without an id and those that are new.
    pub open spec fn parent_candidates_from(
        self,
        i: int,
        acc: Seq<RefineParentRegistrationCandidateModel>,
    ) -> Seq<RefineParentRegistrationCandidateModel>
        decreases self.frontier_targets.len() - i,
    {
        if i >= self.frontier_targets.len() {
            acc
        } else {
            let target = self.frontier_targets[i];
            if target.parent_node_id is None || target.reasons.contains(
                RefineGateTargetReason::NewParent,
            ) {
                self.parent_candidates_from(
                    i + 1,
                    acc.push(
                        RefineParentRegistrationCandidateModel {
                            relative_path: target.parent_relative_path,
                            parent_relative_path: self.ancestor_of(target.parent_relative_path),
                            reasons: target.reasons,
                        },
                    ),
                )
            } else {
                self.parent_candidates_from(i + 1, acc)
            }
        }
    }

    /// The request that the targets be tracked.
    pub open spec fn registration_request(self, plan_id: Seq<char>) -> RegisterRefineGateTargetsRequestModel {
        RegisterRefineGateTargetsRequestModel {
            plan_id,
            parent_candidates: self.parent_candidates_from(0, Seq::empty()),
            leaf_candidates: Seq::new(
                self.leaf_targets.len(),
                |i: int| leaf_candidate(self.leaf_targets[i]),
            ),
            frontier_candidates: Seq::new(
                self.frontier_targets.len(),
                |i: int| frontier_candidate(self.frontier_targets[i]),
            ),
        }
    }
}

/// The leaf that is to be tracked for a target.
pub open spec fn leaf_candidate(target: RefineLeafGateTargetModel) -> RefineLeafRegistrationCandidateModel {
    RefineLeafRegistrationCandidateModel {
        relative_path: target.relative_path,
        parent_relative_path: target.parent_relative_path,
        reasons: target.reasons,
    }
}

/// The frontier that is to be tracked for a target.
pub open spec fn frontier_candidate(target: RefineFrontierGateTargetModel) -> RefineFrontierRegistrationCandidateModel {
    RefineFrontierRegistrationCandidateModel {
        parent_relative_path: target.parent_relative_path,
        changed_child_relative_paths: target.changed_child_relative_paths,
        removed_child_relative_paths: target.removed_child_relative_paths,
        reasons: target.reasons,
    }
}

impl RefineGateTargetSelection {
    fn knows_parent_path(&self, path: &str) -> (r: bool)
        ensures
            r == self.deep_view().knows_parent(path@),
    {
        let ghost frontier = self.frontier_targets.deep_view();
        let mut i: usize = 0;
        while i < self.frontier_targets.len()
            invariant
                i <= self.frontier_targets.len(),
                frontier == self.frontier_targets.deep_view(),
                forall|k: int|
                    0 <= k < i ==> (#[trigger] frontier[k]).parent_relative_path != path@,
            decreases self.frontier_targets.len() - i,
        {
            assert(frontier[i as int] == self.frontier_targets@[i as int].deep_view());
            if same_text(self.frontier_targets[i].parent_relative_path.as_str(), path) {
                return true;
            }
            i = i + 1;
        }
        let ghost leaf = self.leaf_targets.deep_view();
        let mut j: usize = 0;
        while j < self.leaf_targets.len()
            invariant
                j <= self.leaf_targets.len(),
                leaf == self.leaf_targets.deep_view(),
                forall|k: int|
                    0 <= k < j ==> (#[trigger] leaf[k]).parent_relative_path != Some(path@),
            decreases self.leaf_targets.len() - j,
        {
            assert(leaf[j as int] == self.leaf_targets@[j as int].deep_view());
            if is_text(&self.leaf_targets[j].parent_relative_path, path) {
                return true;
            }
            j = j + 1;
        }
        false
    }

    fn ancestor_parent_self_path(&self, path: &str) -> (r: Option<String>)
        ensures
            r.deep_view() == self.deep_view().ancestor_of(path@),
    {
        match root_scope_direct_parent_path(path, 2) {
            Some(candidate) => {
                if self.knows_parent_path(candidate.as_str()) {
                    return Some(candidate);
                }
            },
            None => {},
        }
        scoped_ancestor_parent_self_path(path)
    }

    fn parent_candidates(&self) -> (r: Vec<RefineParentRegistrationCandidate>)
        ensures
            r.deep_view() == self.deep_view().parent_candidates_from(0, Seq::empty()),
    {
        let ghost model = self.deep_view();
        let mut out: Vec<RefineParentRegistrationCandidate> = Vec::new();
        let mut i: usize = 0;
        assert(out.deep_view() =~= Seq::empty());
        while i < self.frontier_targets.len()
            invariant
                i <= self.frontier_targets.len(),
                model == self.deep_view(),
                model.parent_candidates_from(0, Seq::empty()) == model.parent_candidates_from(
                    i as int,
                    out.deep_view(),
                ),
            decreases self.frontier_targets.len() - i,
        {
            let target: &RefineFrontierGateTarget = &self.frontier_targets[i];
            assert(model.frontier_targets[i as int] == target.deep_view());
            if target.parent_node_id.is_none() || has_reason(
                &target.reasons,
                RefineGateTargetReason::NewParent,
            ) {
                let ghost before = out.deep_view();
                let candidate: RefineParentRegistrationCandidate =
                    RefineParentRegistrationCandidate {
                    relative_path: target.parent_relative_path.clone(),
                    parent_relative_path: self.ancestor_parent_self_path(
                        target.parent_relative_path.as_str(),
                    ),
                    reasons: copy_reasons(&target.reasons),
                };
                out.push(candidate);
                assert(out.deep_view() =~= before.push(candidate.deep_view()));
            }
            i = i + 1;
        }
        out
    }

    /// The request that the targets be tracked.
    pub fn to_registration_request(&self, plan_id: String) -> (r: RegisterRefineGateTargetsRequest)
        ensures
            r.deep_view() == self.deep_view().registration_request(plan_id@),
    {
        let ghost request = self.deep_view().registration_request(plan_id@);
        let mut leaf_candidates: Vec<RefineLeafRegistrationCandidate> = Vec::new();
        let mut i: usize = 0;
        assert(leaf_candidates.deep_view() =~= request.leaf_candidates.take(0));
        while i < self.leaf_targets.len()
            invariant
                i <= self.leaf_targets.len(),
                request == self.deep_view().registration_request(plan_id@),
                leaf_candidates.deep_view() == request.leaf_candidates.take(i as int),
            decreases self.leaf_targets.len() - i,
        {
            let ghost before = leaf_candidates.deep_view();
            let target: &RefineLeafGateTarget = &self.leaf_targets[i];
            let candidate: RefineLeafRegistrationCandidate = RefineLeafRegistrationCandidate {
                relative_path: target.relative_path.clone(),
                parent_relative_path: target.parent_relative_path.clone(),
                reasons: copy_reasons(&target.reasons),
            };
            leaf_candidates.push(candidate);
            assert(request.leaf_candidates[i as int] == candidate.deep_view());
            assert(leaf_candidates.deep_view() =~= before.push(candidate.deep_view()));
            i = i + 1;
            assert(leaf_candidates.deep_view() =~= request.leaf_candidates.take(i as int));
        }
        assert(leaf_candidates.deep_view() =~= request.leaf_candidates);
        let mut frontier_candidates: Vec<RefineFrontierRegistrationCandidate> = Vec::new();
        let mut j: usize = 0;
        assert(frontier_candidates.deep_view() =~= request.frontier_candidates.take(0));
        while j < self.frontier_targets.len()
            invariant
                j <= self.frontier_targets.len(),
                request == self.deep_view().registration_request(plan_id@),
                frontier_candidates.deep_view() == request.frontier_candidates.take(j as int),
            decreases self.frontier_targets.len() - j,
        {
            let ghost before = frontier_candidates.deep_view();
            let target: &RefineFrontierGateTarget = &self.frontier_targets[j];
            let candidate: RefineFrontierRegistrationCandidate =
                RefineFrontierRegistrationCandidate {
                parent_relative_path: target.parent_relative_path.clone(),
                changed_child_relative_paths: copy_list(&target.changed_child_relative_paths),
                removed_child_relative_paths: copy_list(&target.removed_child_relative_paths),
                reasons: copy_reasons(&target.reasons),
            };
            frontier_candidates.push(candidate);
            assert(request.frontier_candidates[j as int] == candidate.deep_view());
            assert(frontier_candidates.deep_view() =~= before.push(candidate.deep_view()));
            j = j + 1;
            assert(frontier_candidates.deep_view() =~= request.frontier_candidates.take(j as int));
        }
        assert(frontier_candidates.deep_view() =~= request.frontier_candidates);
        RegisterRefineGateTargetsRequest {
            plan_id,
            parent_candidates: self.parent_candidates(),
            leaf_candidates,
            frontier_candidates,
        }
    }
}

} // verus!
