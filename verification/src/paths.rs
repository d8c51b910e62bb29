//! Paths as text, with `/` between their components.
//!
//! A path is its components: a repeated or trailing `/` and a `.` other than
//! the first piece do not count.
use crate::text::{chars_of, join_first, joined, pieces_of, same_text, slice_text, split_char};
use vstd::prelude::*;

verus! {

/// One component of a path.
#[derive(Debug, PartialEq, Eq)]
pub enum Component {
    RootDir,
    CurDir,
    ParentDir,
    Normal(String),
}

/// The meaning of a [`Component`].
pub enum ComponentModel {
    RootDir,
    CurDir,
    ParentDir,
    Normal(Seq<char>),
}

impl DeepView for Component {
    type V = ComponentModel;

    open spec fn deep_view(&self) -> ComponentModel {
        match self {
            Component::RootDir => ComponentModel::RootDir,
            Component::CurDir => ComponentModel::CurDir,
            Component::ParentDir => ComponentModel::ParentDir,
            Component::Normal(name) => ComponentModel::Normal(name@),
        }
    }
}

/// What the piece at position `i` between the `/` of a path stands for, if
/// it counts at all.
pub open spec fn piece_component(piece: Seq<char>, i: int) -> Option<ComponentModel> {
    if piece.len() == 0 {
        None
    } else if piece == "."@ {
        if i == 0 {
            Some(ComponentModel::CurDir)
        } else {
            None
        }
    } else if piece == ".."@ {
        Some(ComponentModel::ParentDir)
    } else {
        Some(ComponentModel::Normal(piece))
    }
}

/// The components that the pieces from position `i` on stand for.
pub open spec fn components_from(pieces: Seq<Seq<char>>, i: int) -> Seq<ComponentModel>
    decreases pieces.len() - i,
{
    if i >= pieces.len() {
        Seq::empty()
    } else {
        match piece_component(pieces[i], i) {
            Some(c) => seq![c] + components_from(pieces, i + 1),
            None => components_from(pieces, i + 1),
        }
    }
}

/// The path starts at the root directory.
pub open spec fn is_absolute(path: Seq<char>) -> bool {
    path.len() > 0 && path[0] == '/'
}

/// The components of a path.
pub open spec fn components(path: Seq<char>) -> Seq<ComponentModel> {
    let named = components_from(pieces_of(path, '/'), 0);
    if is_absolute(path) {
        seq![ComponentModel::RootDir] + named
    } else {
        named
    }
}

proof fn named_is_no_root(pieces: Seq<Seq<char>>, i: int)
    ensures
        forall|k: int|
            0 <= k < components_from(pieces, i).len() ==> !((#[trigger] components_from(
                pieces,
                i,
            )[k]) is RootDir),
    decreases pieces.len() - i,
{
    if i < pieces.len() {
        named_is_no_root(pieces, i + 1);
        let rest = components_from(pieces, i + 1);
        let out = components_from(pieces, i);
        if let Some(c) = piece_component(pieces[i], i) {
            assert forall|k: int| 0 <= k < out.len() implies !((#[trigger] out[k]) is RootDir) by {
                if k > 0 {
                    assert(out[k] == rest[k - 1]);
                }
            }
        }
    }
}

/// The root directory is a component of no path but at its start.
pub proof fn root_comes_first(path: Seq<char>, k: int)
    requires
        0 < k < components(path).len(),
    ensures
        !(components(path)[k] is RootDir),
{
    let named = components_from(pieces_of(path, '/'), 0);
    named_is_no_root(pieces_of(path, '/'), 0);
    if is_absolute(path) {
        assert(components(path)[k] == named[k - 1]);
    } else {
        assert(components(path)[k] == named[k]);
    }
}

/// Every component is a name.
pub open spec fn all_normal(parts: Seq<ComponentModel>) -> bool {
    forall|i: int| 0 <= i < parts.len() ==> (#[trigger] parts[i]) is Normal
}

/// The names of the components, which are all names.
pub open spec fn names(parts: Seq<ComponentModel>) -> Seq<Seq<char>> {
    Seq::new(parts.len(), |i: int| parts[i]->Normal_0)
}

/// The name at the end of a list of components, if it ends in a name.
pub open spec fn last_name(parts: Seq<ComponentModel>) -> Option<Seq<char>> {
    if parts.len() > 0 && parts.last() is Normal {
        Some(parts.last()->Normal_0)
    } else {
        None
    }
}

/// The last component, if it is a name.
pub open spec fn file_name(path: Seq<char>) -> Option<Seq<char>> {
    last_name(components(path))
}

/// The components without the last one: none for the empty path and for the
/// root directory.
pub open spec fn parent_components(path: Seq<char>) -> Option<Seq<ComponentModel>> {
    let parts = components(path);
    if parts.len() == 0 || parts.last() is RootDir {
        None
    } else {
        Some(parts.drop_last())
    }
}

/// The name of the directory that a path stands in.
pub open spec fn parent_name(path: Seq<char>) -> Option<Seq<char>> {
    match parent_components(path) {
        Some(parts) => last_name(parts),
        None => None,
    }
}

/// The position of the last `.` among the first `n` characters, or -1.
pub open spec fn last_dot(name: Seq<char>, n: int) -> int
    decreases n,
{
    if n <= 0 {
        -1
    } else if name[n - 1] == '.' {
        n - 1
    } else {
        last_dot(name, n - 1)
    }
}

/// A file name without its extension.
pub open spec fn name_stem(name: Seq<char>) -> Seq<char> {
    let dot = last_dot(name, name.len() as int);
    if dot > 0 {
        name.take(dot)
    } else {
        name
    }
}

/// What follows the last `.` of a file name, where anything stands before it.
pub open spec fn name_extension(name: Seq<char>) -> Option<Seq<char>> {
    let dot = last_dot(name, name.len() as int);
    if dot > 0 {
        Some(name.skip(dot + 1))
    } else {
        None
    }
}

/// The extension of the last component.
pub open spec fn extension(path: Seq<char>) -> Option<Seq<char>> {
    match file_name(path) {
        Some(name) => name_extension(name),
        None => None,
    }
}

/// The last component without its extension.
pub open spec fn file_stem(path: Seq<char>) -> Option<Seq<char>> {
    match file_name(path) {
        Some(name) => Some(name_stem(name)),
        None => None,
    }
}

/// `path` seen from `base`: an absolute path as it is.
pub open spec fn joined_path(base: Seq<char>, path: Seq<char>) -> Seq<char> {
    if is_absolute(path) {
        path
    } else if base.len() == 0 || base.last() == '/' {
        base + path
    } else {
        base + "/"@ + path
    }
}

/// The path is relative, ends in `.md`, and is made of names only.
pub open spec fn is_plan_markdown(path: Seq<char>) -> bool {
    &&& path.len() > 0
    &&& !is_absolute(path)
    &&& extension(path) == Some("md"@)
    &&& all_normal(components(path))
}

/// The path with one `/` between each two of its names.
pub open spec fn path_key(path: Seq<char>) -> Seq<char> {
    joined(names(components(path)), "/"@)
}

/// The greatest position below `n` whose piece counts as a component, or -1.
pub open spec fn last_counted(pieces: Seq<Seq<char>>, n: int) -> int
    decreases n,
{
    if n <= 0 {
        -1
    } else if piece_component(pieces[n - 1], n - 1) is Some {
        n - 1
    } else {
        last_counted(pieces, n - 1)
    }
}

/// The path that is left when the last component is taken off.
pub open spec fn parent_path(path: Seq<char>) -> Option<Seq<char>> {
    let pieces = pieces_of(path, '/');
    let last = last_counted(pieces, pieces.len() as int);
    if last < 0 {
        None
    } else {
        let previous = last_counted(pieces, last);
        if previous >= 0 {
            Some(joined(pieces.take(previous + 1), "/"@))
        } else if is_absolute(path) {
            Some("/"@)
        } else {
            Some(Seq::empty())
        }
    }
}

/// Tells whether the path starts at the root directory.
pub fn path_is_absolute(path: &str) -> (r: bool)
    ensures
        r == is_absolute(path@),
{
    path.unicode_len() > 0 && path.get_char(0) == '/'
}

fn component_of_piece(piece: &str, i: usize) -> (r: Option<Component>)
    ensures
        r.deep_view() == piece_component(piece@, i as int),
{
    if piece.unicode_len() == 0 {
        None
    } else if same_text(piece, ".") {
        if i == 0 {
            Some(Component::CurDir)
        } else {
            None
        }
    } else if same_text(piece, "..") {
        Some(Component::ParentDir)
    } else {
        Some(Component::Normal(piece.to_owned()))
    }
}

/// The components of a path.
pub fn path_components(path: &str) -> (r: Vec<Component>)
    ensures
        r.deep_view() == components(path@),
{
    let pieces: Vec<String> = split_char(path, '/');
    let mut out: Vec<Component> = Vec::new();
    if path_is_absolute(path) {
        out.push(Component::RootDir);
        assert(out.deep_view() =~= seq![ComponentModel::RootDir]);
    }
    let ghost named = components_from(pieces.deep_view(), 0);
    assert(out.deep_view() + named =~= components(path@));
    let mut i: usize = 0;
    while i < pieces.len()
        invariant
            i <= pieces.len(),
            pieces.deep_view() == pieces_of(path@, '/'),
            out.deep_view() + components_from(pieces.deep_view(), i as int) == components(path@),
        decreases pieces.len() - i,
    {
        let ghost rest = components_from(pieces.deep_view(), i + 1);
        let ghost before = out.deep_view();
        match component_of_piece(pieces[i].as_str(), i) {
            Some(c) => {
                let ghost m = c.deep_view();
                out.push(c);
                assert(out.deep_view() =~= before.push(m));
                assert(before + (seq![m] + rest) =~= out.deep_view() + rest);
            },
            None => {},
        }
        i = i + 1;
    }
    assert(out.deep_view() + Seq::empty() =~= out.deep_view());
    out
}

/// Tells whether every component is a name.
pub fn components_are_normal(parts: &Vec<Component>) -> (r: bool)
    ensures
        r == all_normal(parts.deep_view()),
{
    let mut i: usize = 0;
    while i < parts.len()
        invariant
            i <= parts.len(),
            forall|k: int| 0 <= k < i ==> (#[trigger] parts.deep_view()[k]) is Normal,
        decreases parts.len() - i,
    {
        match &parts[i] {
            Component::Normal(_) => {},
            _ => {
                assert(!(parts.deep_view()[i as int] is Normal));
                return false;
            },
        }
        i = i + 1;
    }
    true
}

/// The names of the components.
pub fn component_names(parts: &Vec<Component>) -> (r: Vec<String>)
    requires
        all_normal(parts.deep_view()),
    ensures
        r.deep_view() == names(parts.deep_view()),
{
    let mut out: Vec<String> = Vec::new();
    let mut i: usize = 0;
    while i < parts.len()
        invariant
            i <= parts.len(),
            all_normal(parts.deep_view()),
            out.deep_view() == names(parts.deep_view()).take(i as int),
        decreases parts.len() - i,
    {
        assert(parts.deep_view()[i as int] is Normal);
        match &parts[i] {
            Component::Normal(name) => {
                let ghost before = out.deep_view();
                out.push(name.clone());
                assert(out.deep_view() =~= before.push(name@));
                assert(out.deep_view() =~= names(parts.deep_view()).take(i + 1));
            },
            _ => {},
        }
        i = i + 1;
    }
    assert(out.deep_view() =~= names(parts.deep_view()));
    out
}

/// The name that the first `n` components end in, if they end in one.
pub fn last_component_name(parts: &Vec<Component>, n: usize) -> (r: Option<String>)
    requires
        n <= parts.len(),
    ensures
        r.deep_view() == last_name(parts.deep_view().take(n as int)),
{
    if n == 0 {
        return None;
    }
    match &parts[n - 1] {
        Component::Normal(name) => Some(name.clone()),
        _ => None,
    }
}

/// The last component, if it is a name.
pub fn path_file_name(path: &str) -> (r: Option<String>)
    ensures
        r.deep_view() == file_name(path@),
{
    let parts: Vec<Component> = path_components(path);
    assert(parts.deep_view().take(parts.len() as int) =~= parts.deep_view());
    last_component_name(&parts, parts.len())
}

/// The name of the directory that a path stands in.
pub fn path_parent_name(path: &str) -> (r: Option<String>)
    ensures
        r.deep_view() == parent_name(path@),
{
    let parts: Vec<Component> = path_components(path);
    if parts.len() == 0 {
        return None;
    }
    match &parts[parts.len() - 1] {
        Component::RootDir => {
            return None;
        },
        _ => {},
    }
    assert(!(parts.deep_view().last() is RootDir));
    assert(parts.deep_view().take(parts.len() - 1) =~= parts.deep_view().drop_last());
    last_component_name(&parts, parts.len() - 1)
}

fn find_last_dot(chars: &Vec<char>) -> (r: Option<usize>)
    ensures
        match r {
            Some(k) => last_dot(chars@, chars.len() as int) == k && k < chars.len(),
            None => last_dot(chars@, chars.len() as int) == -1,
        },
{
    let mut n: usize = chars.len();
    while n > 0
        invariant
            n <= chars.len(),
            last_dot(chars@, chars.len() as int) == last_dot(chars@, n as int),
        decreases n,
    {
        if chars[n - 1] == '.' {
            return Some(n - 1);
        }
        n = n - 1;
    }
    None
}

/// A file name without its extension.
pub fn stem_of_name(name: &str) -> (r: String)
    ensures
        r@ == name_stem(name@),
{
    let chars: Vec<char> = chars_of(name);
    match find_last_dot(&chars) {
        Some(k) => {
            if k > 0 {
                slice_text(&chars, 0, k)
            } else {
                name.to_owned()
            }
        },
        None => name.to_owned(),
    }
}

/// The last component without its extension.
pub fn path_file_stem(path: &str) -> (r: Option<String>)
    ensures
        r.deep_view() == file_stem(path@),
{
    match path_file_name(path) {
        Some(name) => Some(stem_of_name(name.as_str())),
        None => None,
    }
}

/// The extension of the last component.
pub fn path_extension(path: &str) -> (r: Option<String>)
    ensures
        r.deep_view() == extension(path@),
{
    match path_file_name(path) {
        Some(name) => {
            let chars: Vec<char> = chars_of(name.as_str());
            match find_last_dot(&chars) {
                Some(k) => {
                    if k > 0 {
                        Some(slice_text(&chars, k + 1, chars.len()))
                    } else {
                        None
                    }
                },
                None => None,
            }
        },
        None => None,
    }
}

/// `path` seen from `base`: an absolute path as it is.
pub fn join_path(base: &str, path: &str) -> (r: String)
    ensures
        r@ == joined_path(base@, path@),
{
    if path_is_absolute(path) {
        return path.to_owned();
    }
    let n: usize = base.unicode_len();
    let mut out: String = base.to_owned();
    if n > 0 && base.get_char(n - 1) != '/' {
        out.append("/");
    }
    out.append(path);
    out
}

/// Tells whether the path is relative, ends in `.md`, and is made of names
/// only.
pub fn path_is_plan_markdown(path: &str) -> (r: bool)
    ensures
        r == is_plan_markdown(path@),
{
    if path.unicode_len() == 0 || path_is_absolute(path) {
        return false;
    }
    match path_extension(path) {
        Some(ext) => {
            if !same_text(ext.as_str(), "md") {
                return false;
            }
        },
        None => {
            return false;
        },
    }
    components_are_normal(&path_components(path))
}

/// The path with one `/` between each two of its names.
pub fn key_of_path(path: &str) -> (r: String)
    requires
        all_normal(components(path@)),
    ensures
        r@ == path_key(path@),
{
    let parts: Vec<String> = component_names(&path_components(path));
    join_first(&parts, parts.len(), "/")
}

fn find_last_counted(pieces: &Vec<String>, n: usize) -> (r: Option<usize>)
    requires
        n <= pieces.len(),
    ensures
        match r {
            Some(k) => last_counted(pieces.deep_view(), n as int) == k && k < n,
            None => last_counted(pieces.deep_view(), n as int) == -1,
        },
{
    let mut m: usize = n;
    while m > 0
        invariant
            m <= n <= pieces.len(),
            last_counted(pieces.deep_view(), n as int) == last_counted(
                pieces.deep_view(),
                m as int,
            ),
        decreases m,
    {
        if component_of_piece(pieces[m - 1].as_str(), m - 1).is_some() {
            return Some(m - 1);
        }
        m = m - 1;
    }
    None
}

/// The path that is left when the last component is taken off.
pub fn path_parent(path: &str) -> (r: Option<String>)
    ensures
        r.deep_view() == parent_path(path@),
{
    let pieces: Vec<String> = split_char(path, '/');
    match find_last_counted(&pieces, pieces.len()) {
        Some(last) => {
            match find_last_counted(&pieces, last) {
                Some(previous) => Some(join_first(&pieces, previous + 1, "/")),
                None => {
                    if path_is_absolute(path) {
                        Some("/".to_owned())
                    } else {
                        let out: String = String::new();
                        assert(out@ =~= Seq::empty());
                        Some(out)
                    }
                },
            }
        },
        None => None,
    }
}

} // verus!
