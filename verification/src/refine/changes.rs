//! What a rewrite did to the files of a plan.
use vstd::prelude::*;

verus! {

/// What happened to a file.
#[derive(Debug, Clone, Copy, PartialEq, Eq, Structural)]
pub enum RefineChangedFileKind {
    TextUpdated,
    Created,
    Regenerated,
    StaleMarked,
    ExplicitlyRemoved,
}

impl DeepView for RefineChangedFileKind {
    type V = RefineChangedFileKind;

    open spec fn deep_view(&self) -> RefineChangedFileKind {
        *self
    }
}

/// A file that changed.
#[derive(Debug, PartialEq, Eq)]
pub struct RefineChangedFile {
    pub relative_path: String,
    pub node_id: Option<String>,
    pub change_kind: RefineChangedFileKind,
}

/// The meaning of a [`RefineChangedFile`].
pub struct RefineChangedFileModel {
    pub relative_path: Seq<char>,
    pub node_id: Option<Seq<char>>,
    pub change_kind: RefineChangedFileKind,
}

impl DeepView for RefineChangedFile {
    type V = RefineChangedFileModel;

    open spec fn deep_view(&self) -> RefineChangedFileModel {
        RefineChangedFileModel {
            relative_path: self.relative_path@,
            node_id: self.node_id.deep_view(),
            change_kind: self.change_kind,
        }
    }
}

impl Clone for RefineChangedFile {
    fn clone(&self) -> (r: Self)
        ensures
            r.deep_view() == self.deep_view(),
    {
        RefineChangedFile {
            relative_path: self.relative_path.clone(),
            node_id: self.node_id.clone(),
            change_kind: self.change_kind,
        }
    }
}

/// What happened to a parent.
#[derive(Debug, Clone, Copy, PartialEq, Eq, Structural)]
pub enum RefineStructuralChangeKind {
    ChangedChildSet,
    ParentContractChanged,
}

impl DeepView for RefineStructuralChangeKind {
    type V = RefineStructuralChangeKind;

    open spec fn deep_view(&self) -> RefineStructuralChangeKind {
        *self
    }
}

/// A parent that changed.
#[derive(Debug, PartialEq, Eq)]
pub struct RefineStructuralChange {
    pub parent_relative_path: String,
    pub parent_node_id: Option<String>,
    pub change_kind: RefineStructuralChangeKind,
    pub added_child_relative_paths: Vec<String>,
    pub removed_child_relative_paths: Vec<String>,
}

/// The meaning of a [`RefineStructuralChange`].
pub struct RefineStructuralChangeModel {
    pub parent_relative_path: Seq<char>,
    pub parent_node_id: Option<Seq<char>>,
    pub change_kind: RefineStructuralChangeKind,
    pub added_child_relative_paths: Seq<Seq<char>>,
    pub removed_child_relative_paths: Seq<Seq<char>>,
}

impl DeepView for RefineStructuralChange {
    type V = RefineStructuralChangeModel;

    open spec fn deep_view(&self) -> RefineStructuralChangeModel {
        RefineStructuralChangeModel {
            parent_relative_path: self.parent_relative_path@,
            parent_node_id: self.parent_node_id.deep_view(),
            change_kind: self.change_kind,
            added_child_relative_paths: self.added_child_relative_paths.deep_view(),
            removed_child_relative_paths: self.removed_child_relative_paths.deep_view(),
        }
    }
}

impl Clone for RefineStructuralChange {
    fn clone(&self) -> (r: Self)
        ensures
            r.deep_view() == self.deep_view(),
    {
        let r: RefineStructuralChange = RefineStructuralChange {
            parent_relative_path: self.parent_relative_path.clone(),
            parent_node_id: self.parent_node_id.clone(),
            change_kind: self.change_kind,
            added_child_relative_paths: self.added_child_relative_paths.clone(),
            removed_child_relative_paths: self.removed_child_relative_paths.clone(),
        };
        assert(r.added_child_relative_paths.deep_view() =~= self.added_child_relative_paths.deep_view());
        assert(r.removed_child_relative_paths.deep_view() =~= self.removed_child_relative_paths.deep_view());
        r
    }
}

/// A node that was marked stale.
#[derive(Debug, PartialEq, Eq)]
pub struct RefineStaleNode {
    pub relative_path: String,
    pub node_id: Option<String>,
    pub reason: String,
}

/// The meaning of a [`RefineStaleNode`].
pub struct RefineStaleNodeModel {
    pub relative_path: Seq<char>,
    pub node_id: Option<Seq<char>>,
    pub reason: Seq<char>,
}

impl DeepView for RefineStaleNode {
    type V = RefineStaleNodeModel;

    open spec fn deep_view(&self) -> RefineStaleNodeModel {
        RefineStaleNodeModel {
            relative_path: self.relative_path@,
            node_id: self.node_id.deep_view(),
            reason: self.reason@,
        }
    }
}

impl Clone for RefineStaleNode {
    fn clone(&self) -> (r: Self)
        ensures
            r.deep_view() == self.deep_view(),
    {
        RefineStaleNode {
            relative_path: self.relative_path.clone(),
            node_id: self.node_id.clone(),
            reason: self.reason.clone(),
        }
    }
}

/// What marking nodes stale did.
#[derive(Debug, PartialEq, Eq)]
pub struct RefineStaleMarkReport {
    pub changed_files: Vec<RefineChangedFile>,
    pub stale_nodes: Vec<RefineStaleNode>,
}

/// The meaning of a [`RefineStaleMarkReport`].
pub struct RefineStaleMarkReportModel {
    pub changed_files: Seq<RefineChangedFileModel>,
    pub stale_nodes: Seq<RefineStaleNodeModel>,
}

impl DeepView for RefineStaleMarkReport {
    type V = RefineStaleMarkReportModel;

    open spec fn deep_view(&self) -> RefineStaleMarkReportModel {
        RefineStaleMarkReportModel {
            changed_files: self.changed_files.deep_view(),
            stale_nodes: self.stale_nodes.deep_view(),
        }
    }
}

impl Clone for RefineStaleMarkReport {
    fn clone(&self) -> (r: Self)
        ensures
            r.deep_view() == self.deep_view(),
    {
        let r: RefineStaleMarkReport = RefineStaleMarkReport {
            changed_files: self.changed_files.clone(),
            stale_nodes: self.stale_nodes.clone(),
        };
        assert(r.changed_files.deep_view() =~= self.changed_files.deep_view());
        assert(r.stale_nodes.deep_view() =~= self.stale_nodes.deep_view());
        r
    }
}

impl RefineStaleMarkReportModel {
    /// Nothing in any of the lists.
    pub open spec fn empty() -> RefineStaleMarkReportModel {
        RefineStaleMarkReportModel {
            changed_files: Seq::empty(),
            stale_nodes: Seq::empty(),
        }
    }
}

impl Default for RefineStaleMarkReport {
    fn default() -> (r: Self)
        ensures
            r.deep_view() == RefineStaleMarkReportModel::empty(),
    {
        let r: RefineStaleMarkReport = RefineStaleMarkReport {
            changed_files: Vec::new(),
            stale_nodes: Vec::new(),
        };
        assert(r.changed_files.deep_view() =~= Seq::empty());
        assert(r.stale_nodes.deep_view() =~= Seq::empty());
        r
    }
}

/// What changing links did.
#[derive(Debug, PartialEq, Eq)]
pub struct RefineLinkUpdateReport {
    pub changed_parent_files: Vec<RefineChangedFile>,
    pub structural_changes: Vec<RefineStructuralChange>,
}

/// The meaning of a [`RefineLinkUpdateReport`].
pub struct RefineLinkUpdateReportModel {
    pub changed_parent_files: Seq<RefineChangedFileModel>,
    pub structural_changes: Seq<RefineStructuralChangeModel>,
}

impl DeepView for RefineLinkUpdateReport {
    type V = RefineLinkUpdateReportModel;

    open spec fn deep_view(&self) -> RefineLinkUpdateReportModel {
        RefineLinkUpdateReportModel {
            changed_parent_files: self.changed_parent_files.deep_view(),
            structural_changes: self.structural_changes.deep_view(),
        }
    }
}

impl Clone for RefineLinkUpdateReport {
    fn clone(&self) -> (r: Self)
        ensures
            r.deep_view() == self.deep_view(),
    {
        let r: RefineLinkUpdateReport = RefineLinkUpdateReport {
            changed_parent_files: self.changed_parent_files.clone(),
            structural_changes: self.structural_changes.clone(),
        };
        assert(r.changed_parent_files.deep_view() =~= self.changed_parent_files.deep_view());
        assert(r.structural_changes.deep_view() =~= self.structural_changes.deep_view());
        r
    }
}

impl RefineLinkUpdateReportModel {
    /// Nothing in any of the lists.
    pub open spec fn empty() -> RefineLinkUpdateReportModel {
        RefineLinkUpdateReportModel {
            changed_parent_files: Seq::empty(),
            structural_changes: Seq::empty(),
        }
    }
}

impl Default for RefineLinkUpdateReport {
    fn default() -> (r: Self)
        ensures
            r.deep_view() == RefineLinkUpdateReportModel::empty(),
    {
        let r: RefineLinkUpdateReport = RefineLinkUpdateReport {
            changed_parent_files: Vec::new(),
            structural_changes: Vec::new(),
        };
        assert(r.changed_parent_files.deep_view() =~= Seq::empty());
        assert(r.structural_changes.deep_view() =~= Seq::empty());
        r
    }
}

/// A node whose context changed.
#[derive(Debug, PartialEq, Eq)]
pub struct RefineContextInvalidation {
    pub relative_path: String,
    pub node_id: Option<String>,
    pub reason: String,
}

/// The meaning of a [`RefineContextInvalidation`].
pub struct RefineContextInvalidationModel {
    pub relative_path: Seq<char>,
    pub node_id: Option<Seq<char>>,
    pub reason: Seq<char>,
}

impl DeepView for RefineContextInvalidation {
    type V = RefineContextInvalidationModel;

    open spec fn deep_view(&self) -> RefineContextInvalidationModel {
        RefineContextInvalidationModel {
            relative_path: self.relative_path@,
            node_id: self.node_id.deep_view(),
            reason: self.reason@,
        }
    }
}

impl Clone for RefineContextInvalidation {
    fn clone(&self) -> (r: Self)
        ensures
            r.deep_view() == self.deep_view(),
    {
        RefineContextInvalidation {
            relative_path: self.relative_path.clone(),
            node_id: self.node_id.clone(),
            reason: self.reason.clone(),
        }
    }
}

/// A node that a rewrite left alone.
#[derive(Debug, PartialEq, Eq)]
pub struct RefineUnchangedNode {
    pub relative_path: String,
    pub node_id: Option<String>,
}

/// The meaning of a [`RefineUnchangedNode`].
pub struct RefineUnchangedNodeModel {
    pub relative_path: Seq<char>,
    pub node_id: Option<Seq<char>>,
}

impl DeepView for RefineUnchangedNode {
    type V = RefineUnchangedNodeModel;

    open spec fn deep_view(&self) -> RefineUnchangedNodeModel {
        RefineUnchangedNodeModel {
            relative_path: self.relative_path@,
            node_id: self.node_id.deep_view(),
        }
    }
}

impl Clone for RefineUnchangedNode {
    fn clone(&self) -> (r: Self)
        ensures
            r.deep_view() == self.deep_view(),
    {
        RefineUnchangedNode {
            relative_path: self.relative_path.clone(),
            node_id: self.node_id.clone(),
        }
    }
}

} // verus!
