//! What the parts of a path are.
use crate::files::{FileContentModel, PlanFilesModel};
use crate::paths::{
    components, extension, file_name, file_stem, is_absolute, joined_path, last_dot,
    name_extension, name_stem, path_key, ComponentModel,
};
use vstd::prelude::*;

verus! {

proof fn last_dot_is_last(name: Seq<char>, n: int)
    requires
        0 <= n <= name.len(),
    ensures
        -1 <= last_dot(name, n) < n || (n == 0 && last_dot(name, n) == -1),
        last_dot(name, n) >= 0 ==> name[last_dot(name, n)] == '.',
        forall|i: int| last_dot(name, n) < i < n ==> name[i] != '.',
    decreases n,
{
    if n > 0 && name[n - 1] != '.' {
        last_dot_is_last(name, n - 1);
    }
}

/// A file name is its stem, a dot and its extension, which holds no dot, or it is
/// its stem alone, with no dot but at its start.
pub proof fn names_are_stems_and_extensions(name: Seq<char>)
    ensures
        match name_extension(name) {
            Some(ext) => name == name_stem(name) + "."@ + ext && name_stem(name).len() > 0
                && !ext.contains('.'),
            None => name_stem(name) == name && forall|i: int|
                0 < i < name.len() ==> name[i] != '.',
        },
{
    reveal_strlit(".");
    let dot = last_dot(name, name.len() as int);
    last_dot_is_last(name, name.len() as int);
    if dot > 0 {
        let ext = name.skip(dot + 1);
        assert("."@ =~= seq!['.']);
        assert(name =~= name.take(dot) + "."@ + ext);
        if ext.contains('.') {
            let i = choose|i: int| 0 <= i < ext.len() && ext[i] == '.';
            assert(name[dot + 1 + i] == '.');
        }
    }
}

/// The name of a file is the last part of its path, where that is a name; its stem
/// and its extension are those of that name.
pub proof fn file_names_are_the_last_part(path: Seq<char>)
    ensures
        match file_name(path) {
            Some(name) => {
                &&& components(path).len() > 0
                &&& components(path).last() == ComponentModel::Normal(name)
                &&& file_stem(path) == Some(name_stem(name))
                &&& extension(path) == name_extension(name)
            },
            None => {
                &&& components(path).len() == 0 || !(components(path).last() is Normal)
                &&& file_stem(path) is None
                &&& extension(path) is None
            },
        },
{
}

/// A path that starts at the root is the same seen from anywhere; another one stands
/// behind the base, with one `/` between them where the base does not end in one.
pub proof fn joined_paths_stand_behind_the_base(base: Seq<char>, path: Seq<char>)
    ensures
        is_absolute(path) ==> joined_path(base, path) == path,
        !is_absolute(path) && base.len() > 0 && base.last() != '/' ==> joined_path(base, path)
            == base.push('/') + path,
        !is_absolute(path) && (base.len() == 0 || base.last() == '/') ==> joined_path(base, path)
            == base + path,
{
    reveal_strlit("/");
    assert(base + "/"@ + path =~= base.push('/') + path);
}

// ---------------------------------------------------------------------
// Files
// ---------------------------------------------------------------------
/// Writing a file puts the text at its place and tells of it, or changes nothing.
pub proof fn writing_changes_one_place(files: PlanFilesModel, path: Seq<char>, text: Seq<char>)
    ensures
        ({
            let (next, problem) = files.write(path, text);
            &&& problem is Some ==> next == files
            &&& problem is None ==> {
                &&& next.root == files.root
                &&& next.contents.contains_key(path_key(path))
                &&& next.contents[path_key(path)] == (FileContentModel::Text { text })
                &&& forall|key: Seq<char>|
                    key != path_key(path) ==> #[trigger] next.contents.contains_key(key)
                        == files.contents.contains_key(key) && next.contents[key]
                        == files.contents[key]
                &&& next.operations.len() == files.operations.len() + 1
            }
        }),
{
}

/// Removing a file takes it from its place and tells of it, or changes nothing; it
/// fails exactly where no file stands there.
pub proof fn removing_changes_one_place(files: PlanFilesModel, path: Seq<char>)
    ensures
        ({
            let (next, problem) = files.remove(path);
            &&& problem is None <==> files.is_file(path)
            &&& problem is Some ==> next == files
            &&& problem is None ==> {
                &&& next.root == files.root
                &&& !next.is_present(path)
                &&& !next.contents.contains_key(path_key(path))
                &&& forall|key: Seq<char>|
                    key != path_key(path) ==> #[trigger] next.contents.contains_key(key)
                        == files.contents.contains_key(key) && next.contents[key]
                        == files.contents[key]
                &&& next.operations.len() == files.operations.len() + 1
            }
        }),
{
}

} // verus!
