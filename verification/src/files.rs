//! The files below a plan root, held in memory.
//!
//! What is on disk is read into a [`PlanFiles`]; the plan logic reads and
//! changes that value, which keeps the changes in order for the disk.
use crate::paths::{
    all_normal, component_names, components, components_are_normal, extension, is_absolute,
    key_of_path, names, path_components, path_extension, path_is_absolute, path_key,
};
use crate::text::{
    begins_with, bytes_of, concat2, insert_sorted, is_sorted, is_text, join_first, joined, list_has,
    same_text, starts_with,
};
use vstd::prelude::*;
use vstd::utf8::encode_utf8;

verus! {

/// What stands at the plan root.
#[derive(Debug, Clone, Copy, PartialEq, Eq, Structural)]
pub enum PlanRootKind {
    Directory,
    Other,
    Missing,
}

impl DeepView for PlanRootKind {
    type V = PlanRootKind;

    open spec fn deep_view(&self) -> PlanRootKind {
        *self
    }
}

/// What stands at a path below the plan root.
#[derive(Debug, PartialEq, Eq)]
pub enum FileContent {
    Text { text: String },
    NotText { source: String, bytes: Vec<u8> },
    Unreadable { source: String },
    Directory { source: String },
}

/// The meaning of a [`FileContent`].
pub enum FileContentModel {
    Text { text: Seq<char> },
    NotText { source: Seq<char>, bytes: Seq<u8> },
    Unreadable { source: Seq<char> },
    Directory { source: Seq<char> },
}

impl DeepView for FileContent {
    type V = FileContentModel;

    open spec fn deep_view(&self) -> FileContentModel {
        match self {
            FileContent::Text { text } => FileContentModel::Text {
                text: text@,
            },
            FileContent::NotText { source, bytes } => FileContentModel::NotText {
                source: source@,
                bytes: bytes.deep_view(),
            },
            FileContent::Unreadable { source } => FileContentModel::Unreadable {
                source: source@,
            },
            FileContent::Directory { source } => FileContentModel::Directory {
                source: source@,
            },
        }
    }
}

impl Clone for FileContent {
    fn clone(&self) -> (r: Self)
        ensures
            r.deep_view() == self.deep_view(),
    {
        match self {
            FileContent::Text { text } => FileContent::Text {
                text: text.clone(),
            },
            FileContent::NotText { source, bytes } => {
                let copy: Vec<u8> = bytes.clone();
                assert(copy.deep_view() =~= bytes.deep_view());
                FileContent::NotText { source: source.clone(), bytes: copy }
            },
            FileContent::Unreadable { source } => FileContent::Unreadable {
                source: source.clone(),
            },
            FileContent::Directory { source } => FileContent::Directory {
                source: source.clone(),
            },
        }
    }
}

/// A path, with one `/` between each two of its names, and what stands there.
#[derive(Debug, PartialEq, Eq)]
pub struct PlanFile {
    pub relative_path: String,
    pub content: FileContent,
}

/// The meaning of a [`PlanFile`].
pub struct PlanFileModel {
    pub relative_path: Seq<char>,
    pub content: FileContentModel,
}

impl DeepView for PlanFile {
    type V = PlanFileModel;

    open spec fn deep_view(&self) -> PlanFileModel {
        PlanFileModel {
            relative_path: self.relative_path@,
            content: self.content.deep_view(),
        }
    }
}

impl Clone for PlanFile {
    fn clone(&self) -> (r: Self)
        ensures
            r.deep_view() == self.deep_view(),
    {
        PlanFile {
            relative_path: self.relative_path.clone(),
            content: self.content.clone(),
        }
    }
}

/// A change to the disk.
#[derive(Debug, PartialEq, Eq)]
pub enum FileOperation {
    Write { relative_path: String, text: String },
    Remove { relative_path: String },
}

/// The meaning of a [`FileOperation`].
pub enum FileOperationModel {
    Write { relative_path: Seq<char>, text: Seq<char> },
    Remove { relative_path: Seq<char> },
}

impl DeepView for FileOperation {
    type V = FileOperationModel;

    open spec fn deep_view(&self) -> FileOperationModel {
        match self {
            FileOperation::Write { relative_path, text } => FileOperationModel::Write {
                relative_path: relative_path@,
                text: text@,
            },
            FileOperation::Remove { relative_path } => FileOperationModel::Remove {
                relative_path: relative_path@,
            },
        }
    }
}

impl Clone for FileOperation {
    fn clone(&self) -> (r: Self)
        ensures
            r.deep_view() == self.deep_view(),
    {
        match self {
            FileOperation::Write { relative_path, text } => FileOperation::Write {
                relative_path: relative_path.clone(),
                text: text.clone(),
            },
            FileOperation::Remove { relative_path } => FileOperation::Remove {
                relative_path: relative_path.clone(),
            },
        }
    }
}

/// The files below a plan root, and the changes made to them.
#[derive(Debug, PartialEq, Eq)]
pub struct PlanFiles {
    root: PlanRootKind,
    files: Vec<PlanFile>,
    operations: Vec<FileOperation>,
}

/// The meaning of a [`PlanFiles`].
pub struct PlanFilesModel {
    pub root: PlanRootKind,
    pub contents: Map<Seq<char>, FileContentModel>,
    pub operations: Seq<FileOperationModel>,
}

/// The contents that a list of files stands for: of two entries for one path
/// the later one counts.
pub closed spec fn contents_of(files: Seq<PlanFile>) -> Map<Seq<char>, FileContentModel>
    decreases files.len(),
{
    if files.len() == 0 {
        Map::empty()
    } else {
        contents_of(files.drop_last()).insert(
            files.last().relative_path@,
            files.last().content.deep_view(),
        )
    }
}

impl DeepView for PlanFiles {
    type V = PlanFilesModel;

    closed spec fn deep_view(&self) -> PlanFilesModel {
        PlanFilesModel {
            root: self.root,
            contents: contents_of(self.files@),
            operations: self.operations.deep_view(),
        }
    }
}

/// The path is relative and made of names only.
pub open spec fn is_plan_local(path: Seq<char>) -> bool {
    !is_absolute(path) && all_normal(components(path))
}

/// The first `n` names of a path, with one `/` between each two of them.
pub open spec fn path_prefix_key(path: Seq<char>, n: int) -> Seq<char> {
    joined(names(components(path)).take(n), "/"@)
}

/// What the system answers where no file stands.
pub open spec fn missing_file_text() -> Seq<char> {
    "No such file or directory (os error 2)"@
}

impl PlanFilesModel {
    /// What stands at a path.
    pub open spec fn content(self, path: Seq<char>) -> Option<FileContentModel> {
        if is_plan_local(path) && self.contents.contains_key(path_key(path)) {
            Some(self.contents[path_key(path)])
        } else {
            None
        }
    }

    /// Something stands at the path.
    pub open spec fn is_present(self, path: Seq<char>) -> bool {
        self.content(path) is Some
    }

    /// A file stands at the path.
    pub open spec fn is_file(self, path: Seq<char>) -> bool {
        match self.content(path) {
            Some(FileContentModel::Directory { source }) => false,
            Some(_) => true,
            None => false,
        }
    }

    /// The key is that of a markdown file other than the draft at the top.
    pub open spec fn is_listed(self, key: Seq<char>, draft: Seq<char>) -> bool {
        &&& self.contents.contains_key(key)
        &&& !(self.contents[key] is Directory)
        &&& extension(key) == Some("md"@)
        &&& !(key == draft && components(key).len() == 1)
    }

    /// The list holds the markdown files other than the draft, in order.
    pub open spec fn lists_markdown(self, list: Seq<Seq<char>>, draft: Seq<char>) -> bool {
        &&& is_sorted(list)
        &&& forall|key: Seq<char>|
            #![trigger list.contains(key)]
            list.contains(key) <==> self.is_listed(key, draft)
    }

    /// The text at the path, or why it cannot be read.
    pub open spec fn read(self, path: Seq<char>) -> Result<Seq<char>, Seq<char>> {
        match self.content(path) {
            Some(FileContentModel::Text { text }) => Ok(text),
            Some(FileContentModel::NotText { source, bytes }) => Err(source),
            Some(FileContentModel::Unreadable { source }) => Err(source),
            Some(FileContentModel::Directory { source }) => Err(source),
            None => Err(missing_file_text()),
        }
    }

    /// The bytes at the path, or why they cannot be read.
    pub open spec fn read_bytes(self, path: Seq<char>) -> Result<Seq<u8>, Seq<char>> {
        match self.content(path) {
            Some(FileContentModel::Text { text }) => Ok(encode_utf8(text)),
            Some(FileContentModel::NotText { source, bytes }) => Ok(bytes),
            Some(FileContentModel::Unreadable { source }) => Err(source),
            Some(FileContentModel::Directory { source }) => Err(source),
            None => Err(missing_file_text()),
        }
    }

    /// The files with `text` written at the path.
    pub open spec fn written(self, path: Seq<char>, text: Seq<char>) -> PlanFilesModel {
        PlanFilesModel {
            contents: self.contents.insert(path_key(path), FileContentModel::Text { text }),
            operations: self.operations.push(
                FileOperationModel::Write { relative_path: path, text },
            ),
            ..self
        }
    }

    /// A file stands at the first `n` names of the path.
    pub open spec fn is_file_at_prefix(self, path: Seq<char>, n: int) -> bool {
        let key = path_prefix_key(path, n);
        self.contents.contains_key(key) && !(self.contents[key] is Directory)
    }

    /// Why the directory of a path cannot be made: a file stands at it, or at
    /// a directory above it.
    pub open spec fn directory_problem(self, path: Seq<char>) -> Option<Seq<char>> {
        let n = components(path).len() as int;
        if exists|k: int| 0 < k < n - 1 && #[trigger] self.is_file_at_prefix(path, k) {
            Some("Not a directory (os error 20)"@)
        } else if n > 1 && self.is_file_at_prefix(path, n - 1) {
            Some("File exists (os error 17)"@)
        } else {
            None
        }
    }

    /// Something stands below the path.
    pub open spec fn has_content_below(self, path: Seq<char>) -> bool {
        exists|key: Seq<char>|
            #[trigger] self.contents.contains_key(key) && begins_with(key, path_key(path) + "/"@)
    }

    /// The files after an attempt to write `text` at the path, and why it
    /// failed: where a file stands in the way of its directory, or a directory
    /// stands at the path.
    pub open spec fn write(self, path: Seq<char>, text: Seq<char>) -> (
        PlanFilesModel,
        Option<Seq<char>>,
    ) {
        match self.directory_problem(path) {
            Some(source) => (self, Some(source)),
            None => match self.content(path) {
                Some(FileContentModel::Directory { source }) => (self, Some(source)),
                _ => if self.has_content_below(path) {
                    (self, Some("Is a directory (os error 21)"@))
                } else {
                    (self.written(path, text), None)
                },
            },
        }
    }

    /// The files without what stands at the path.
    pub open spec fn removed(self, path: Seq<char>) -> PlanFilesModel {
        PlanFilesModel {
            contents: self.contents.remove(path_key(path)),
            operations: self.operations.push(FileOperationModel::Remove { relative_path: path }),
            ..self
        }
    }

    /// The files after an attempt to remove the file at the path, and why it
    /// failed.
    pub open spec fn remove(self, path: Seq<char>) -> (PlanFilesModel, Option<Seq<char>>) {
        match self.content(path) {
            Some(FileContentModel::Directory { source }) => (self, Some(source)),
            Some(_) => (self.removed(path), None),
            None => (self, Some(missing_file_text())),
        }
    }
}

/// What stands where after an operation.
pub open spec fn after_operation(
    contents: Map<Seq<char>, FileContentModel>,
    operation: FileOperationModel,
) -> Map<Seq<char>, FileContentModel> {
    match operation {
        FileOperationModel::Write { relative_path, text } => contents.insert(
            path_key(relative_path),
            FileContentModel::Text { text },
        ),
        FileOperationModel::Remove { relative_path } => contents.remove(path_key(relative_path)),
    }
}

/// What stands where after the operations, in their order.
pub open spec fn after_operations(
    contents: Map<Seq<char>, FileContentModel>,
    operations: Seq<FileOperationModel>,
) -> Map<Seq<char>, FileContentModel>
    decreases operations.len(),
{
    if operations.len() == 0 {
        contents
    } else {
        after_operation(
            after_operations(contents, operations.drop_last()),
            operations.last(),
        )
    }
}

impl PlanFilesModel {
    /// The operations lead from what stood there at the start to what stands
    /// there now.
    pub open spec fn has_grown_from(self, start: Map<Seq<char>, FileContentModel>) -> bool {
        self.contents == after_operations(start, self.operations)
    }
}

/// Writing a file is told by the operations.
pub proof fn writes_are_told(
    files: PlanFilesModel,
    start: Map<Seq<char>, FileContentModel>,
    path: Seq<char>,
    text: Seq<char>,
)
    requires
        files.has_grown_from(start),
    ensures
        files.write(path, text).0.has_grown_from(start),
{
    let next = files.write(path, text).0;
    if next != files {
        assert(next.operations.drop_last() =~= files.operations);
    }
}

/// Removing a file is told by the operations.
pub proof fn removals_are_told(
    files: PlanFilesModel,
    start: Map<Seq<char>, FileContentModel>,
    path: Seq<char>,
)
    requires
        files.has_grown_from(start),
    ensures
        files.remove(path).0.has_grown_from(start),
{
    let next = files.remove(path).0;
    if next != files {
        assert(next.operations.drop_last() =~= files.operations);
    }
}

proof fn key_has_entry(files: Seq<PlanFile>, key: Seq<char>)
    requires
        contents_of(files).contains_key(key),
    ensures
        exists|j: int| 0 <= j < files.len() && (#[trigger] files[j]).relative_path@ == key,
    decreases files.len(),
{
    if files.len() > 0 {
        if files.last().relative_path@ == key {
            assert(files[files.len() - 1].relative_path@ == key);
        } else {
            key_has_entry(files.drop_last(), key);
            let j = choose|j: int|
                0 <= j < files.drop_last().len() && (
                #[trigger] files.drop_last()[j]).relative_path@ == key;
            assert(files[j].relative_path@ == key);
        }
    }
}

proof fn entry_has_key(files: Seq<PlanFile>, j: int)
    requires
        0 <= j < files.len(),
    ensures
        contents_of(files).contains_key(files[j].relative_path@),
    decreases files.len(),
{
    if j < files.len() - 1 {
        entry_has_key(files.drop_last(), j);
        assert(files.drop_last()[j] == files[j]);
    }
}

/// A read gives back what a write wrote, and other files keep their content.
pub proof fn read_gives_back_what_was_written(
    files: PlanFilesModel,
    path: Seq<char>,
    text: Seq<char>,
    other: Seq<char>,
)
    requires
        is_plan_local(path),
    ensures
        files.written(path, text).read(path) == Ok::<Seq<char>, Seq<char>>(text),
        path_key(other) != path_key(path) ==> files.written(path, text).content(other)
            == files.content(other),
        !files.removed(path).is_present(path),
        path_key(other) != path_key(path) ==> files.removed(path).content(other) == files.content(
            other,
        ),
{
}

/// The files whose path is not `key`.
spec fn files_without(files: Seq<PlanFile>, key: Seq<char>) -> Seq<PlanFile>
    decreases files.len(),
{
    if files.len() == 0 {
        Seq::empty()
    } else if files.last().relative_path@ != key {
        files_without(files.drop_last(), key).push(files.last())
    } else {
        files_without(files.drop_last(), key)
    }
}

proof fn contents_without(files: Seq<PlanFile>, key: Seq<char>)
    ensures
        contents_of(files_without(files, key)) == contents_of(files).remove(key),
    decreases files.len(),
{
    let rest = files_without(files, key);
    if files.len() > 0 {
        contents_without(files.drop_last(), key);
        if files.last().relative_path@ != key {
            assert(rest.drop_last() =~= files_without(files.drop_last(), key));
        }
    }
    assert(contents_of(rest) =~= contents_of(files).remove(key));
}

impl PlanFiles {
    /// No files yet.
    pub fn new(root: PlanRootKind) -> (r: PlanFiles)
        ensures
            r.deep_view() == (PlanFilesModel {
                root,
                contents: Map::empty(),
                operations: Seq::empty(),
            }),
    {
        let r: PlanFiles = PlanFiles { root, files: Vec::new(), operations: Vec::new() };
        assert(r.operations.deep_view() =~= Seq::empty());
        r
    }

    /// Takes in what stands on disk at a path, which has one `/` between each
    /// two of its names.
    pub fn load(&mut self, relative_path: String, content: FileContent)
        ensures
            final(self).deep_view() == (PlanFilesModel {
                contents: old(self).deep_view().contents.insert(
                    relative_path@,
                    content.deep_view(),
                ),
                ..old(self).deep_view()
            }),
    {
        self.files.push(PlanFile { relative_path, content });
        assert(self.files@.drop_last() =~= old(self).files@);
    }

    /// What stands at the plan root.
    pub fn root_kind(&self) -> (r: PlanRootKind)
        ensures
            r == self.deep_view().root,
    {
        self.root
    }

    /// The changes to make on disk, in order.
    pub fn operations(&self) -> (r: &Vec<FileOperation>)
        ensures
            r.deep_view() == self.deep_view().operations,
    {
        &self.operations
    }

    /// The markdown files, in order, without the draft at the top.
    pub fn markdown_files(&self, draft: &str) -> (r: Vec<String>)
        ensures
            self.deep_view().lists_markdown(r.deep_view(), draft@),
    {
        let mut out: Vec<String> = Vec::new();
        let ghost model = self.deep_view();
        let mut i: usize = 0;
        while i < self.files.len()
            invariant
                i <= self.files.len(),
                model == self.deep_view(),
                is_sorted(out.deep_view()),
                forall|key: Seq<char>|
                    #![trigger out.deep_view().contains(key)]
                    out.deep_view().contains(key) <==> model.is_listed(key, draft@) && exists|
                        j: int,
                    |
                        0 <= j < i && (#[trigger] self.files@[j]).relative_path@ == key,
            decreases self.files.len() - i,
        {
            let key: &str = self.files[i].relative_path.as_str();
            let ghost before = out.deep_view();
            let plain: bool = match self.find(key) {
                Some(k) => match &self.files[k].content {
                    FileContent::Directory { .. } => false,
                    _ => true,
                },
                None => false,
            };
            let markdown: bool = is_text(&path_extension(key), "md");
            let is_draft: bool = same_text(key, draft) && path_components(key).len() == 1;
            if plain && markdown && !is_draft && !list_has(&out, key) {
                insert_sorted(&mut out, key);
            }
            proof {
                assert(self.files@[i as int].relative_path@ == key@);
                assert forall|other: Seq<char>| out.deep_view().contains(other) implies
                    model.is_listed(other, draft@) && exists|j: int|
                    0 <= j < i + 1 && (#[trigger] self.files@[j]).relative_path@ == other by {
                    if other != key@ {
                        assert(before.contains(other));
                    }
                }
            }
            i = i + 1;
        }
        proof {
            assert forall|key: Seq<char>| model.is_listed(key, draft@) implies exists|j: int|
                0 <= j < self.files.len() && (#[trigger] self.files@[j]).relative_path@ == key by {
                key_has_entry(self.files@, key);
            }
        }
        out
    }

    fn find(&self, key: &str) -> (r: Option<usize>)
        ensures
            match r {
                Some(i) => i < self.files.len() && contents_of(self.files@).contains_key(key@)
                    && contents_of(self.files@)[key@] == self.files@[i as int].content.deep_view(),
                None => !contents_of(self.files@).contains_key(key@),
            },
    {
        let mut n: usize = self.files.len();
        assert(self.files@.take(n as int) =~= self.files@);
        while n > 0
            invariant
                n <= self.files.len(),
                contents_of(self.files@).contains_key(key@) == contents_of(
                    self.files@.take(n as int),
                ).contains_key(key@),
                contents_of(self.files@).contains_key(key@) ==> contents_of(self.files@)[key@]
                    == contents_of(self.files@.take(n as int))[key@],
            decreases n,
        {
            assert(self.files@.take(n as int).drop_last() =~= self.files@.take(n - 1));
            if same_text(self.files[n - 1].relative_path.as_str(), key) {
                return Some(n - 1);
            }
            n = n - 1;
        }
        None
    }

    /// What stands at a path.
    pub fn content(&self, path: &str) -> (r: Option<FileContent>)
        ensures
            r.deep_view() == self.deep_view().content(path@),
    {
        if path_is_absolute(path) || !components_are_normal(&path_components(path)) {
            return None;
        }
        let key: String = key_of_path(path);
        match self.find(key.as_str()) {
            Some(i) => Some(self.files[i].content.clone()),
            None => None,
        }
    }

    /// Tells whether something stands at the path.
    pub fn is_present(&self, path: &str) -> (r: bool)
        ensures
            r == self.deep_view().is_present(path@),
    {
        self.content(path).is_some()
    }

    /// Tells whether a file stands at the path.
    pub fn is_file(&self, path: &str) -> (r: bool)
        ensures
            r == self.deep_view().is_file(path@),
    {
        match self.content(path) {
            Some(FileContent::Directory { .. }) => false,
            Some(_) => true,
            None => false,
        }
    }

    /// The text at the path, or why it cannot be read.
    pub fn read(&self, path: &str) -> (r: Result<String, String>)
        ensures
            match r {
                Ok(text) => self.deep_view().read(path@) == Ok::<Seq<char>, Seq<char>>(text@),
                Err(source) => self.deep_view().read(path@) == Err::<Seq<char>, Seq<char>>(
                    source@,
                ),
            },
    {
        match self.content(path) {
            Some(FileContent::Text { text }) => Ok(text),
            Some(FileContent::NotText { source, bytes: _ }) => Err(source),
            Some(FileContent::Unreadable { source }) => Err(source),
            Some(FileContent::Directory { source }) => Err(source),
            None => Err("No such file or directory (os error 2)".to_owned()),
        }
    }

    /// The bytes at the path, or why they cannot be read.
    pub fn read_bytes(&self, path: &str) -> (r: Result<Vec<u8>, String>)
        ensures
            match r {
                Ok(bytes) => self.deep_view().read_bytes(path@) == Ok::<Seq<u8>, Seq<char>>(bytes@),
                Err(source) => self.deep_view().read_bytes(path@) == Err::<Seq<u8>, Seq<char>>(
                    source@,
                ),
            },
    {
        match self.content(path) {
            Some(FileContent::Text { text }) => Ok(bytes_of(text.as_str())),
            Some(FileContent::NotText { source: _, bytes }) => {
                assert(bytes.deep_view() =~= bytes@);
                Ok(bytes)
            },
            Some(FileContent::Unreadable { source }) => Err(source),
            Some(FileContent::Directory { source }) => Err(source),
            None => Err("No such file or directory (os error 2)".to_owned()),
        }
    }

    fn drop_key(&mut self, key: &str)
        ensures
            final(self).root == old(self).root,
            final(self).operations == old(self).operations,
            contents_of(final(self).files@) == contents_of(old(self).files@).remove(key@),
    {
        let mut rest: Vec<PlanFile> = Vec::new();
        let mut i: usize = 0;
        let mut all: Vec<PlanFile> = Vec::new();
        let ghost files = self.files@;
        all.append(&mut self.files);
        assert(all@ =~= files);
        while i < all.len()
            invariant
                i <= all.len(),
                all@ == files,
                contents_of(rest@) == contents_of(files_without(files.take(i as int), key@)),
            decreases all.len() - i,
        {
            proof {
                let next = files.take(i + 1);
                assert(next.drop_last() =~= files.take(i as int));
                assert(next.last() == files[i as int]);
            }
            if !same_text(all[i].relative_path.as_str(), key) {
                let ghost before = rest@;
                rest.push(all[i].clone());
                proof {
                    assert(rest@.drop_last() =~= before);
                    let kept = files_without(files.take(i as int), key@);
                    assert(kept.push(files[i as int]).drop_last() =~= kept);
                }
            }
            i = i + 1;
        }
        self.files = rest;
        proof {
            assert(files.take(files.len() as int) =~= files);
            contents_without(files, key@);
        }
    }

    /// Says why the directory of a path cannot be made, where that is so.
    pub fn directory_problem(&self, path: &str) -> (r: Option<String>)
        requires
            is_plan_local(path@),
        ensures
            r.deep_view() == self.deep_view().directory_problem(path@),
    {
        let parts: Vec<String> = component_names(&path_components(path));
        let ghost model = self.deep_view();
        let mut n: usize = 1;
        while n < parts.len()
            invariant
                1 <= n,
                parts.len() >= 1 ==> n <= parts.len(),
                model == self.deep_view(),
                parts.deep_view() == names(components(path@)),
                forall|k: int| 0 < k < n ==> !#[trigger] model.is_file_at_prefix(path@, k),
            decreases parts.len() - n,
        {
            let key: String = join_first(&parts, n, "/");
            let plain: bool = match self.find(key.as_str()) {
                Some(i) => match &self.files[i].content {
                    FileContent::Directory { .. } => false,
                    _ => true,
                },
                None => false,
            };
            assert(plain == model.is_file_at_prefix(path@, n as int));
            if plain {
                if n + 1 < parts.len() {
                    return Some("Not a directory (os error 20)".to_owned());
                }
                return Some("File exists (os error 17)".to_owned());
            }
            n = n + 1;
        }
        assert(parts.deep_view().len() == components(path@).len());
        None
    }

    fn has_content_below(&self, path: &str) -> (r: bool)
        requires
            is_plan_local(path@),
        ensures
            r == self.deep_view().has_content_below(path@),
    {
        let start: String = concat2(key_of_path(path).as_str(), "/");
        let ghost model = self.deep_view();
        let mut i: usize = 0;
        while i < self.files.len()
            invariant
                i <= self.files.len(),
                start@ == path_key(path@) + "/"@,
                model == self.deep_view(),
                forall|j: int|
                    0 <= j < i ==> !begins_with(
                        (#[trigger] self.files@[j]).relative_path@,
                        start@,
                    ),
            decreases self.files.len() - i,
        {
            if starts_with(self.files[i].relative_path.as_str(), start.as_str()) {
                proof {
                    entry_has_key(self.files@, i as int);
                    assert(model.contents.contains_key(self.files@[i as int].relative_path@));
                }
                return true;
            }
            i = i + 1;
        }
        proof {
            assert forall|key: Seq<char>| #[trigger]
                model.contents.contains_key(key) implies !begins_with(key, start@) by {
                key_has_entry(self.files@, key);
            }
        }
        false
    }

    /// Writes `text` at the path; says why where that fails.
    pub fn write(&mut self, path: &str, text: &str) -> (r: Option<String>)
        requires
            is_plan_local(path@),
        ensures
            (final(self).deep_view(), r.deep_view()) == old(self).deep_view().write(path@, text@),
    {
        match self.directory_problem(path) {
            Some(source) => {
                return Some(source);
            },
            None => {},
        }
        match self.content(path) {
            Some(FileContent::Directory { source }) => {
                return Some(source);
            },
            _ => {},
        }
        if self.has_content_below(path) {
            return Some("Is a directory (os error 21)".to_owned());
        }
        let key: String = key_of_path(path);
        self.drop_key(key.as_str());
        let ghost dropped = self.files@;
        self.files.push(
            PlanFile { relative_path: key, content: FileContent::Text { text: text.to_owned() } },
        );
        let ghost done = self.operations.deep_view();
        self.operations.push(
            FileOperation::Write { relative_path: path.to_owned(), text: text.to_owned() },
        );
        proof {
            assert(self.files@.drop_last() =~= dropped);
            let new = FileContentModel::Text { text: text@ };
            assert(contents_of(dropped).insert(key@, new) =~= old(
                self,
            ).deep_view().contents.insert(key@, new));
            assert(self.operations.deep_view() =~= done.push(
                FileOperationModel::Write { relative_path: path@, text: text@ },
            ));
        }
        None
    }

    /// Removes the file at the path; says why where that fails.
    pub fn remove(&mut self, path: &str) -> (r: Option<String>)
        requires
            is_plan_local(path@),
        ensures
            (final(self).deep_view(), r.deep_view()) == old(self).deep_view().remove(path@),
    {
        match self.content(path) {
            Some(FileContent::Directory { source }) => Some(source),
            Some(_) => {
                let key: String = key_of_path(path);
                self.drop_key(key.as_str());
                let ghost done = self.operations.deep_view();
                self.operations.push(FileOperation::Remove { relative_path: path.to_owned() });
                assert(self.operations.deep_view() =~= done.push(
                    FileOperationModel::Remove { relative_path: path@ },
                ));
                None
            },
            None => Some("No such file or directory (os error 2)".to_owned()),
        }
    }
}

} // verus!
