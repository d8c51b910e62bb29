//! Summaries of a rewrite.
use super::changes::{
    RefineChangedFile, RefineChangedFileKind, RefineChangedFileModel, RefineStaleNode,
    RefineStaleNodeModel, RefineStructuralChange, RefineStructuralChangeModel,
};
use super::decision::{
    ExpectedGateRevalidation, ExpectedGateRevalidationModel, RefineDecision, RefineDecisionModel,
};
use crate::text::{same_optional_text, same_text};
use vstd::prelude::*;

verus! {

/// What happened to a node of a summary.
#[derive(Debug, Clone, Copy, PartialEq, Eq, Structural)]
pub enum RefineStaleNodeSummaryKind {
    Created,
    ExplicitlyRemoved,
    StaleMarked,
}

impl DeepView for RefineStaleNodeSummaryKind {
    type V = RefineStaleNodeSummaryKind;

    open spec fn deep_view(&self) -> RefineStaleNodeSummaryKind {
        *self
    }
}

/// A node of a summary.
#[derive(Debug, PartialEq, Eq)]
pub struct RefineStaleNodeSummaryEntry {
    pub relative_path: String,
    pub node_id: Option<String>,
    pub summary_kind: RefineStaleNodeSummaryKind,
    pub reason: Option<String>,
}

/// The meaning of a [`RefineStaleNodeSummaryEntry`].
pub struct RefineStaleNodeSummaryEntryModel {
    pub relative_path: Seq<char>,
    pub node_id: Option<Seq<char>>,
    pub summary_kind: RefineStaleNodeSummaryKind,
    pub reason: Option<Seq<char>>,
}

impl DeepView for RefineStaleNodeSummaryEntry {
    type V = RefineStaleNodeSummaryEntryModel;

    open spec fn deep_view(&self) -> RefineStaleNodeSummaryEntryModel {
        RefineStaleNodeSummaryEntryModel {
            relative_path: self.relative_path@,
            node_id: self.node_id.deep_view(),
            summary_kind: self.summary_kind,
            reason: self.reason.deep_view(),
        }
    }
}

impl Clone for RefineStaleNodeSummaryEntry {
    fn clone(&self) -> (r: Self)
        ensures
            r.deep_view() == self.deep_view(),
    {
        RefineStaleNodeSummaryEntry {
            relative_path: self.relative_path.clone(),
            node_id: self.node_id.clone(),
            summary_kind: self.summary_kind,
            reason: self.reason.clone(),
        }
    }
}

/// A summary of a rewrite.
#[derive(Debug, PartialEq, Eq)]
pub struct RefineRewriteSummary {
    pub changed_files: Vec<RefineChangedFile>,
    pub structural_changes: Vec<RefineStructuralChange>,
    pub stale_node_summary_entries: Vec<RefineStaleNodeSummaryEntry>,
    pub expected_gate_targets: Vec<ExpectedGateRevalidation>,
    pub unresolved_follow_ups: Vec<RefineDecision>,
    pub changed_file_count: usize,
    pub structural_change_count: usize,
    pub stale_node_count: usize,
    pub context_invalidation_count: usize,
    pub unchanged_node_count: usize,
    pub expected_leaf_gate_target_count: usize,
    pub expected_frontier_gate_target_count: usize,
    pub unresolved_follow_up_count: usize,
}

/// The meaning of a [`RefineRewriteSummary`].
pub struct RefineRewriteSummaryModel {
    pub changed_files: Seq<RefineChangedFileModel>,
    pub structural_changes: Seq<RefineStructuralChangeModel>,
    pub stale_node_summary_entries: Seq<RefineStaleNodeSummaryEntryModel>,
    pub expected_gate_targets: Seq<ExpectedGateRevalidationModel>,
    pub unresolved_follow_ups: Seq<RefineDecisionModel>,
    pub changed_file_count: usize,
    pub structural_change_count: usize,
    pub stale_node_count: usize,
    pub context_invalidation_count: usize,
    pub unchanged_node_count: usize,
    pub expected_leaf_gate_target_count: usize,
    pub expected_frontier_gate_target_count: usize,
    pub unresolved_follow_up_count: usize,
}

impl DeepView for RefineRewriteSummary {
    type V = RefineRewriteSummaryModel;

    open spec fn deep_view(&self) -> RefineRewriteSummaryModel {
        RefineRewriteSummaryModel {
            changed_files: self.changed_files.deep_view(),
            structural_changes: self.structural_changes.deep_view(),
            stale_node_summary_entries: self.stale_node_summary_entries.deep_view(),
            expected_gate_targets: self.expected_gate_targets.deep_view(),
            unresolved_follow_ups: self.unresolved_follow_ups.deep_view(),
            changed_file_count: self.changed_file_count,
            structural_change_count: self.structural_change_count,
            stale_node_count: self.stale_node_count,
            context_invalidation_count: self.context_invalidation_count,
            unchanged_node_count: self.unchanged_node_count,
            expected_leaf_gate_target_count: self.expected_leaf_gate_target_count,
            expected_frontier_gate_target_count: self.expected_frontier_gate_target_count,
            unresolved_follow_up_count: self.unresolved_follow_up_count,
        }
    }
}

impl Clone for RefineRewriteSummary {
    fn clone(&self) -> (r: Self)
        ensures
            r.deep_view() == self.deep_view(),
    {
        let r: RefineRewriteSummary = RefineRewriteSummary {
            changed_files: self.changed_files.clone(),
            structural_changes: self.structural_changes.clone(),
            stale_node_summary_entries: self.stale_node_summary_entries.clone(),
            expected_gate_targets: self.expected_gate_targets.clone(),
            unresolved_follow_ups: self.unresolved_follow_ups.clone(),
            changed_file_count: self.changed_file_count,
            structural_change_count: self.structural_change_count,
            stale_node_count: self.stale_node_count,
            context_invalidation_count: self.context_invalidation_count,
            unchanged_node_count: self.unchanged_node_count,
            expected_leaf_gate_target_count: self.expected_leaf_gate_target_count,
            expected_frontier_gate_target_count: self.expected_frontier_gate_target_count,
            unresolved_follow_up_count: self.unresolved_follow_up_count,
        };
        assert(r.changed_files.deep_view() =~= self.changed_files.deep_view());
        assert(r.structural_changes.deep_view() =~= self.structural_changes.deep_view());
        assert(r.stale_node_summary_entries.deep_view() =~= self.stale_node_summary_entries.deep_view());
        assert(r.expected_gate_targets.deep_view() =~= self.expected_gate_targets.deep_view());
        assert(r.unresolved_follow_ups.deep_view() =~= self.unresolved_follow_ups.deep_view());
        r
    }
}

impl RefineRewriteSummaryModel {
    /// Nothing in any of the lists.
    pub open spec fn empty() -> RefineRewriteSummaryModel {
        RefineRewriteSummaryModel {
            changed_files: Seq::empty(),
            structural_changes: Seq::empty(),
            stale_node_summary_entries: Seq::empty(),
            expected_gate_targets: Seq::empty(),
            unresolved_follow_ups: Seq::empty(),
            changed_file_count: 0,
            structural_change_count: 0,
            stale_node_count: 0,
            context_invalidation_count: 0,
            unchanged_node_count: 0,
            expected_leaf_gate_target_count: 0,
            expected_frontier_gate_target_count: 0,
            unresolved_follow_up_count: 0,
        }
    }
}

impl Default for RefineRewriteSummary {
    fn default() -> (r: Self)
        ensures
            r.deep_view() == RefineRewriteSummaryModel::empty(),
    {
        let r: RefineRewriteSummary = RefineRewriteSummary {
            changed_files: Vec::new(),
            structural_changes: Vec::new(),
            stale_node_summary_entries: Vec::new(),
            expected_gate_targets: Vec::new(),
            unresolved_follow_ups: Vec::new(),
            changed_file_count: 0,
            structural_change_count: 0,
            stale_node_count: 0,
            context_invalidation_count: 0,
            unchanged_node_count: 0,
            expected_leaf_gate_target_count: 0,
            expected_frontier_gate_target_count: 0,
            unresolved_follow_up_count: 0,
        };
        assert(r.changed_files.deep_view() =~= Seq::empty());
        assert(r.structural_changes.deep_view() =~= Seq::empty());
        assert(r.stale_node_summary_entries.deep_view() =~= Seq::empty());
        assert(r.expected_gate_targets.deep_view() =~= Seq::empty());
        assert(r.unresolved_follow_ups.deep_view() =~= Seq::empty());
        r
    }
}

/// The first stale node at or after `i` with this path.
pub open spec fn stale_node_from(nodes: Seq<RefineStaleNodeModel>, path: Seq<char>, i: int) -> Option<
    RefineStaleNodeModel,
>
    decreases nodes.len() - i,
{
    if i >= nodes.len() {
        None
    } else if nodes[i].relative_path == path {
        Some(nodes[i])
    } else {
        stale_node_from(nodes, path, i + 1)
    }
}

/// What happened to the node of a changed file, where the summary tells.
pub open spec fn entry_kind(kind: RefineChangedFileKind) -> Option<RefineStaleNodeSummaryKind> {
    match kind {
        RefineChangedFileKind::Created => Some(RefineStaleNodeSummaryKind::Created),
        RefineChangedFileKind::ExplicitlyRemoved => Some(
            RefineStaleNodeSummaryKind::ExplicitlyRemoved,
        ),
        RefineChangedFileKind::StaleMarked => Some(RefineStaleNodeSummaryKind::StaleMarked),
        RefineChangedFileKind::TextUpdated => None,
        RefineChangedFileKind::Regenerated => None,
    }
}

/// The entry of a changed file, where the summary has one.
pub open spec fn file_entry(
    file: RefineChangedFileModel,
    nodes: Seq<RefineStaleNodeModel>,
) -> Option<RefineStaleNodeSummaryEntryModel> {
    match entry_kind(file.change_kind) {
        None => None,
        Some(summary_kind) => {
            let node = stale_node_from(nodes, file.relative_path, 0);
            Some(
                RefineStaleNodeSummaryEntryModel {
                    relative_path: file.relative_path,
                    node_id: match file.node_id {
                        Some(node_id) => Some(node_id),
                        None => match node {
                            Some(node) => node.node_id,
                            None => None,
                        },
                    },
                    summary_kind,
                    reason: match node {
                        Some(node) => Some(node.reason),
                        None => None,
                    },
                },
            )
        },
    }
}

/// The entries of the changed files from `i` on, after those in `acc`, each
/// one once.
pub open spec fn file_entries_from(
    files: Seq<RefineChangedFileModel>,
    nodes: Seq<RefineStaleNodeModel>,
    i: int,
    acc: Seq<RefineStaleNodeSummaryEntryModel>,
) -> Seq<RefineStaleNodeSummaryEntryModel>
    decreases files.len() - i,
{
    if i >= files.len() {
        acc
    } else {
        match file_entry(files[i], nodes) {
            Some(entry) if !acc.contains(entry) => file_entries_from(
                files,
                nodes,
                i + 1,
                acc.push(entry),
            ),
            _ => file_entries_from(files, nodes, i + 1, acc),
        }
    }
}

/// There is an entry with this path.
pub open spec fn has_entry(entries: Seq<RefineStaleNodeSummaryEntryModel>, path: Seq<char>) -> bool {
    exists|i: int| 0 <= i < entries.len() && (#[trigger] entries[i]).relative_path == path
}

/// The entries with those of the stale nodes from `i` on that have none yet.
pub open spec fn node_entries_from(
    nodes: Seq<RefineStaleNodeModel>,
    i: int,
    acc: Seq<RefineStaleNodeSummaryEntryModel>,
) -> Seq<RefineStaleNodeSummaryEntryModel>
    decreases nodes.len() - i,
{
    if i >= nodes.len() {
        acc
    } else if has_entry(acc, nodes[i].relative_path) {
        node_entries_from(nodes, i + 1, acc)
    } else {
        node_entries_from(
            nodes,
            i + 1,
            acc.push(
                RefineStaleNodeSummaryEntryModel {
                    relative_path: nodes[i].relative_path,
                    node_id: nodes[i].node_id,
                    summary_kind: RefineStaleNodeSummaryKind::StaleMarked,
                    reason: Some(nodes[i].reason),
                },
            ),
        )
    }
}

/// The nodes that were created, removed or marked stale: those of the changed
/// files in their order, then the other stale nodes. No entry comes twice.
pub open spec fn summary_entries(
    files: Seq<RefineChangedFileModel>,
    nodes: Seq<RefineStaleNodeModel>,
) -> Seq<RefineStaleNodeSummaryEntryModel> {
    node_entries_from(nodes, 0, file_entries_from(files, nodes, 0, Seq::empty()))
}

proof fn file_entries_are_distinct(
    files: Seq<RefineChangedFileModel>,
    nodes: Seq<RefineStaleNodeModel>,
    i: int,
    acc: Seq<RefineStaleNodeSummaryEntryModel>,
)
    requires
        acc.no_duplicates(),
    ensures
        file_entries_from(files, nodes, i, acc).no_duplicates(),
    decreases files.len() - i,
{
    if i < files.len() {
        match file_entry(files[i], nodes) {
            Some(entry) if !acc.contains(entry) => {
                file_entries_are_distinct(files, nodes, i + 1, acc.push(entry));
            },
            _ => {
                file_entries_are_distinct(files, nodes, i + 1, acc);
            },
        }
    }
}

proof fn node_entries_are_distinct(
    nodes: Seq<RefineStaleNodeModel>,
    i: int,
    acc: Seq<RefineStaleNodeSummaryEntryModel>,
)
    requires
        acc.no_duplicates(),
    ensures
        node_entries_from(nodes, i, acc).no_duplicates(),
    decreases nodes.len() - i,
{
    if i < nodes.len() {
        if has_entry(acc, nodes[i].relative_path) {
            node_entries_are_distinct(nodes, i + 1, acc);
        } else {
            let entry = RefineStaleNodeSummaryEntryModel {
                relative_path: nodes[i].relative_path,
                node_id: nodes[i].node_id,
                summary_kind: RefineStaleNodeSummaryKind::StaleMarked,
                reason: Some(nodes[i].reason),
            };
            assert(!acc.contains(entry));
            node_entries_are_distinct(nodes, i + 1, acc.push(entry));
        }
    }
}

/// No entry of a summary comes twice.
pub proof fn summary_entries_are_distinct(
    files: Seq<RefineChangedFileModel>,
    nodes: Seq<RefineStaleNodeModel>,
)
    ensures
        summary_entries(files, nodes).no_duplicates(),
{
    file_entries_are_distinct(files, nodes, 0, Seq::empty());
    node_entries_are_distinct(nodes, 0, file_entries_from(files, nodes, 0, Seq::empty()));
}

/// The number of leaf targets that the first `n` entries name.
pub open spec fn leaf_target_count(targets: Seq<ExpectedGateRevalidationModel>, n: int) -> nat
    decreases n,
{
    if n <= 0 {
        0
    } else {
        leaf_target_count(targets, n - 1) + targets[n - 1].leaf_targets.len()
    }
}

/// The number of frontier targets that the first `n` entries name.
pub open spec fn frontier_target_count(targets: Seq<ExpectedGateRevalidationModel>, n: int) -> nat
    decreases n,
{
    if n <= 0 {
        0
    } else {
        frontier_target_count(targets, n - 1) + targets[n - 1].frontier_targets.len()
    }
}

/// The number, or the greatest `usize` where it does not fit.
pub open spec fn capped(n: nat) -> usize {
    if n <= usize::MAX {
        n as usize
    } else {
        usize::MAX
    }
}

/// The summary of a rewrite that did this.
pub open spec fn summary_of(
    files: Seq<RefineChangedFileModel>,
    structure: Seq<RefineStructuralChangeModel>,
    nodes: Seq<RefineStaleNodeModel>,
    targets: Seq<ExpectedGateRevalidationModel>,
    follow_ups: Seq<RefineDecisionModel>,
    context_invalidation_count: usize,
    unchanged_node_count: usize,
) -> RefineRewriteSummaryModel {
    RefineRewriteSummaryModel {
        changed_files: files,
        structural_changes: structure,
        stale_node_summary_entries: summary_entries(files, nodes),
        expected_gate_targets: targets,
        unresolved_follow_ups: follow_ups,
        changed_file_count: files.len() as usize,
        structural_change_count: structure.len() as usize,
        stale_node_count: summary_entries(files, nodes).len() as usize,
        context_invalidation_count,
        unchanged_node_count,
        expected_leaf_gate_target_count: capped(
            leaf_target_count(targets, targets.len() as int),
        ),
        expected_frontier_gate_target_count: capped(
            frontier_target_count(targets, targets.len() as int),
        ),
        unresolved_follow_up_count: follow_ups.len() as usize,
    }
}

fn find_stale_node<'a>(nodes: &'a Vec<RefineStaleNode>, path: &str) -> (r: Option<
    &'a RefineStaleNode,
>)
    ensures
        match r {
            Some(node) => stale_node_from(nodes.deep_view(), path@, 0) == Some(node.deep_view()),
            None => stale_node_from(nodes.deep_view(), path@, 0) is None,
        },
{
    let ghost all = nodes.deep_view();
    let mut i: usize = 0;
    while i < nodes.len()
        invariant
            i <= nodes.len(),
            all == nodes.deep_view(),
            stale_node_from(all, path@, 0) == stale_node_from(all, path@, i as int),
        decreases nodes.len() - i,
    {
        assert(all[i as int] == nodes@[i as int].deep_view());
        if same_text(nodes[i].relative_path.as_str(), path) {
            return Some(&nodes[i]);
        }
        i = i + 1;
    }
    None
}

fn holds_entry(
    entries: &Vec<RefineStaleNodeSummaryEntry>,
    entry: &RefineStaleNodeSummaryEntry,
) -> (r: bool)
    ensures
        r == entries.deep_view().contains(entry.deep_view()),
{
    let ghost all = entries.deep_view();
    let mut i: usize = 0;
    while i < entries.len()
        invariant
            i <= entries.len(),
            all == entries.deep_view(),
            forall|k: int| 0 <= k < i ==> #[trigger] all[k] != entry.deep_view(),
        decreases entries.len() - i,
    {
        let other: &RefineStaleNodeSummaryEntry = &entries[i];
        assert(all[i as int] == other.deep_view());
        if other.summary_kind == entry.summary_kind && same_text(
            other.relative_path.as_str(),
            entry.relative_path.as_str(),
        ) && same_optional_text(&other.node_id, &entry.node_id) && same_optional_text(
            &other.reason,
            &entry.reason,
        ) {
            assert(all.contains(entry.deep_view()));
            return true;
        }
        i = i + 1;
    }
    false
}

fn build_stale_node_summary_entries(
    files: &Vec<RefineChangedFile>,
    nodes: &Vec<RefineStaleNode>,
) -> (r: Vec<RefineStaleNodeSummaryEntry>)
    ensures
        r.deep_view() == summary_entries(files.deep_view(), nodes.deep_view()),
        r.deep_view().no_duplicates(),
{
    let ghost all_files = files.deep_view();
    let ghost all_nodes = nodes.deep_view();
    let mut entries: Vec<RefineStaleNodeSummaryEntry> = Vec::new();
    let mut i: usize = 0;
    assert(entries.deep_view() =~= Seq::empty());
    while i < files.len()
        invariant
            i <= files.len(),
            all_files == files.deep_view(),
            all_nodes == nodes.deep_view(),
            file_entries_from(all_files, all_nodes, 0, Seq::empty()) == file_entries_from(
                all_files,
                all_nodes,
                i as int,
                entries.deep_view(),
            ),
        decreases files.len() - i,
    {
        let file: &RefineChangedFile = &files[i];
        assert(all_files[i as int] == file.deep_view());
        let kind: Option<RefineStaleNodeSummaryKind> = match file.change_kind {
            RefineChangedFileKind::Created => Some(RefineStaleNodeSummaryKind::Created),
            RefineChangedFileKind::ExplicitlyRemoved => Some(
                RefineStaleNodeSummaryKind::ExplicitlyRemoved,
            ),
            RefineChangedFileKind::StaleMarked => Some(RefineStaleNodeSummaryKind::StaleMarked),
            RefineChangedFileKind::TextUpdated => None,
            RefineChangedFileKind::Regenerated => None,
        };
        match kind {
            None => {},
            Some(summary_kind) => {
                let ghost before = entries.deep_view();
                let (known_id, reason): (Option<String>, Option<String>) = match find_stale_node(
                    nodes,
                    file.relative_path.as_str(),
                ) {
                    Some(node) => (node.node_id.clone(), Some(node.reason.clone())),
                    None => (None, None),
                };
                let entry: RefineStaleNodeSummaryEntry = RefineStaleNodeSummaryEntry {
                    relative_path: file.relative_path.clone(),
                    node_id: if file.node_id.is_some() {
                        file.node_id.clone()
                    } else {
                        known_id
                    },
                    summary_kind,
                    reason,
                };
                let ghost model = entry.deep_view();
                assert(file_entry(all_files[i as int], all_nodes) == Some(model));
                if !holds_entry(&entries, &entry) {
                    entries.push(entry);
                    assert(entries.deep_view() =~= before.push(model));
                }
            },
        }
        i = i + 1;
    }
    let ghost first = entries.deep_view();
    let mut k: usize = 0;
    while k < nodes.len()
        invariant
            k <= nodes.len(),
            all_nodes == nodes.deep_view(),
            node_entries_from(all_nodes, 0, first) == node_entries_from(
                all_nodes,
                k as int,
                entries.deep_view(),
            ),
        decreases nodes.len() - k,
    {
        let node: &RefineStaleNode = &nodes[k];
        assert(all_nodes[k as int] == node.deep_view());
        let ghost before = entries.deep_view();
        let mut present: bool = false;
        let mut j: usize = 0;
        while j < entries.len()
            invariant
                j <= entries.len(),
                before == entries.deep_view(),
                present == exists|m: int|
                    0 <= m < j && (#[trigger] before[m]).relative_path == node.relative_path@,
            decreases entries.len() - j,
        {
            assert(before[j as int] == entries@[j as int].deep_view());
            if same_text(entries[j].relative_path.as_str(), node.relative_path.as_str()) {
                present = true;
            }
            j = j + 1;
        }
        if !present {
            let entry: RefineStaleNodeSummaryEntry = RefineStaleNodeSummaryEntry {
                relative_path: node.relative_path.clone(),
                node_id: node.node_id.clone(),
                summary_kind: RefineStaleNodeSummaryKind::StaleMarked,
                reason: Some(node.reason.clone()),
            };
            let ghost model = entry.deep_view();
            entries.push(entry);
            assert(entries.deep_view() =~= before.push(model));
        }
        k = k + 1;
    }
    proof {
        summary_entries_are_distinct(all_files, all_nodes);
    }
    entries
}

fn count_leaf_targets(targets: &Vec<ExpectedGateRevalidation>) -> (r: usize)
    ensures
        r == capped(leaf_target_count(targets.deep_view(), targets.len() as int)),
{
    let ghost all = targets.deep_view();
    let mut total: usize = 0;
    let mut n: usize = 0;
    while n < targets.len()
        invariant
            n <= targets.len(),
            all == targets.deep_view(),
            total == capped(leaf_target_count(all, n as int)),
        decreases targets.len() - n,
    {
        assert(all[n as int] == targets@[n as int].deep_view());
        assert(all[n as int].leaf_targets.len() == targets@[n as int].leaf_targets.len());
        total = total.saturating_add(targets[n].leaf_targets.len());
        n = n + 1;
    }
    total
}

fn count_frontier_targets(targets: &Vec<ExpectedGateRevalidation>) -> (r: usize)
    ensures
        r == capped(frontier_target_count(targets.deep_view(), targets.len() as int)),
{
    let ghost all = targets.deep_view();
    let mut total: usize = 0;
    let mut n: usize = 0;
    while n < targets.len()
        invariant
            n <= targets.len(),
            all == targets.deep_view(),
            total == capped(frontier_target_count(all, n as int)),
        decreases targets.len() - n,
    {
        assert(all[n as int] == targets@[n as int].deep_view());
        assert(all[n as int].frontier_targets.len() == targets@[n as int].frontier_targets.len());
        total = total.saturating_add(targets[n].frontier_targets.len());
        n = n + 1;
    }
    total
}

/// The summary of a rewrite that did this.
pub fn build_refine_rewrite_summary(
    changed_files: &Vec<RefineChangedFile>,
    structural_changes: &Vec<RefineStructuralChange>,
    stale_nodes: &Vec<RefineStaleNode>,
    expected_gate_targets: &Vec<ExpectedGateRevalidation>,
    unresolved_follow_ups: &Vec<RefineDecision>,
    context_invalidation_count: usize,
    unchanged_node_count: usize,
) -> (r: RefineRewriteSummary)
    ensures
        r.deep_view() == summary_of(
            changed_files.deep_view(),
            structural_changes.deep_view(),
            stale_nodes.deep_view(),
            expected_gate_targets.deep_view(),
            unresolved_follow_ups.deep_view(),
            context_invalidation_count,
            unchanged_node_count,
        ),
        r.deep_view().stale_node_summary_entries.no_duplicates(),
{
    let entries: Vec<RefineStaleNodeSummaryEntry> = build_stale_node_summary_entries(
        changed_files,
        stale_nodes,
    );
    let stale_node_count: usize = entries.len();
    let r: RefineRewriteSummary = RefineRewriteSummary {
        changed_files: changed_files.clone(),
        structural_changes: structural_changes.clone(),
        stale_node_summary_entries: entries,
        expected_gate_targets: expected_gate_targets.clone(),
        unresolved_follow_ups: unresolved_follow_ups.clone(),
        changed_file_count: changed_files.len(),
        structural_change_count: structural_changes.len(),
        stale_node_count,
        context_invalidation_count,
        unchanged_node_count,
        expected_leaf_gate_target_count: count_leaf_targets(expected_gate_targets),
        expected_frontier_gate_target_count: count_frontier_targets(expected_gate_targets),
        unresolved_follow_up_count: unresolved_follow_ups.len(),
    };
    assert(r.changed_files.deep_view() =~= changed_files.deep_view());
    assert(r.structural_changes.deep_view() =~= structural_changes.deep_view());
    assert(r.expected_gate_targets.deep_view() =~= expected_gate_targets.deep_view());
    assert(r.unresolved_follow_ups.deep_view() =~= unresolved_follow_ups.deep_view());
    r
}

} // verus!
