//! Where the parent of a node stands, as its path tells.
use super::gate_targets::{
    is_root_parent, normal_names_from, parent_of, root_parents_from, root_scope_parent,
    scoped_parent, self_path_in, top_level_parent,
};
use super::link_laws::{is_name, lacks, pieces_of_joined_names};
use super::runtime_state::RefineRuntimeNodeSnapshotModel;
use crate::api::NodeKind;
use crate::paths::{
    components, components_from, file_name, is_absolute, joined_path, last_counted, parent_path,
    piece_component, ComponentModel,
};
use crate::text::{joined, pieces_of};
use vstd::prelude::*;

verus! {

// ---------------------------------------------------------------------
// Paths made of names
// ---------------------------------------------------------------------
/// The path with these names.
pub open spec fn path_of(parts: Seq<Seq<char>>) -> Seq<char> {
    joined(parts, "/"@)
}

/// Every part is a name, and there is one.
pub open spec fn are_names(parts: Seq<Seq<char>>) -> bool {
    parts.len() > 0 && forall|k: int| 0 <= k < parts.len() ==> is_name(#[trigger] parts[k])
}

/// The names as parts of a path.
pub open spec fn as_components(parts: Seq<Seq<char>>) -> Seq<ComponentModel> {
    parts.map_values(|name: Seq<char>| ComponentModel::Normal(name))
}

proof fn names_count(parts: Seq<Seq<char>>, i: int)
    requires
        are_names(parts),
        0 <= i <= parts.len(),
    ensures
        components_from(parts, i) == as_components(parts.skip(i)),
    decreases parts.len() - i,
{
    if i < parts.len() {
        names_count(parts, i + 1);
        assert(is_name(parts[i]));
        assert(as_components(parts.skip(i)) =~= seq![ComponentModel::Normal(parts[i])]
            + as_components(parts.skip(i + 1)));
    } else {
        assert(as_components(parts.skip(i)) =~= Seq::empty());
    }
}

proof fn paths_start_and_end_with_names(parts: Seq<Seq<char>>)
    requires
        are_names(parts),
    ensures
        path_of(parts).len() > 0,
        path_of(parts)[0] != '/',
        path_of(parts).last() != '/',
    decreases parts.len(),
{
    assert(is_name(parts[0]));
    assert(is_name(parts[parts.len() - 1]));
    assert(!parts[0].contains(parts[0][0]) || parts[0][0] != '/');
    let last = parts.last();
    assert(last[last.len() - 1] != '/');
    if parts.len() > 1 {
        let front = parts.drop_last();
        assert forall|k: int| 0 <= k < front.len() implies is_name(#[trigger] front[k]) by {
            assert(front[k] == parts[k]);
        }
        paths_start_and_end_with_names(front);
        reveal_strlit("/");
        assert(path_of(parts) == path_of(front) + "/"@ + last);
        assert(path_of(parts)[0] == path_of(front)[0]);
        assert(path_of(parts)[path_of(parts).len() - 1] == last[last.len() - 1]);
    }
}

proof fn names_are_the_parts(parts: Seq<Seq<char>>)
    requires
        are_names(parts),
    ensures
        pieces_of(path_of(parts), '/') == parts,
        !is_absolute(path_of(parts)),
        components(path_of(parts)) == as_components(parts),
        file_name(path_of(parts)) == Some(parts.last()),
{
    assert forall|k: int| 0 <= k < parts.len() implies lacks(#[trigger] parts[k], '/') by {
        assert(is_name(parts[k]));
    }
    pieces_of_joined_names(parts);
    paths_start_and_end_with_names(parts);
    names_count(parts, 0);
    assert(parts.skip(0) =~= parts);
    assert(as_components(parts).last() == ComponentModel::Normal(parts.last()));
}

proof fn directories_are_all_but_the_last(parts: Seq<Seq<char>>)
    requires
        are_names(parts),
        parts.len() >= 2,
    ensures
        parent_path(path_of(parts)) == Some(path_of(parts.drop_last())),
{
    names_are_the_parts(parts);
    let n = parts.len() as int;
    assert(is_name(parts[n - 1]));
    assert(is_name(parts[n - 2]));
    assert(piece_component(parts[n - 1], n - 1) is Some);
    assert(piece_component(parts[n - 2], n - 2) is Some);
    assert(last_counted(parts, n) == n - 1);
    assert(last_counted(parts, n - 1) == n - 2);
    assert(parts.take(n - 1) =~= parts.drop_last());
}

// ---------------------------------------------------------------------
// The parent in the same directory
// ---------------------------------------------------------------------
/// The file of the parent of a directory: it stands in it, under its name.
pub open spec fn home_of(directory: Seq<Seq<char>>) -> Seq<char> {
    path_of(directory) + "/"@ + directory.last() + ".md"@
}

/// The parent that a directory tells is the file in it with its name, for every
/// other file there.
pub proof fn parents_have_the_name_of_their_directory(parts: Seq<Seq<char>>)
    requires
        are_names(parts),
        parts.len() >= 2,
    ensures
        scoped_parent(path_of(parts)) == if home_of(parts.drop_last()) == path_of(parts) {
            None
        } else {
            Some(home_of(parts.drop_last()))
        },
{
    let directory = parts.drop_last();
    assert forall|k: int| 0 <= k < directory.len() implies is_name(#[trigger] directory[k]) by {
        assert(directory[k] == parts[k]);
    }
    directories_are_all_but_the_last(parts);
    names_are_the_parts(directory);
    paths_start_and_end_with_names(directory);
    let name = directory.last();
    assert(is_name(directory[directory.len() - 1]));
    reveal_strlit(".md");
    assert((name + ".md"@)[0] == name[0]);
    assert(!is_absolute(name + ".md"@));
    assert(joined_path(path_of(directory), name + ".md"@) =~= home_of(directory));
    assert(self_path_in(path_of(directory), path_of(parts)) == if home_of(directory) == path_of(
        parts,
    ) {
        None
    } else {
        Some(home_of(directory))
    });
}

proof fn names_are_normal(parts: Seq<Seq<char>>, i: int, acc: Seq<Seq<char>>)
    requires
        0 <= i <= parts.len(),
    ensures
        normal_names_from(as_components(parts), i, acc) == acc + parts.skip(i),
    decreases parts.len() - i,
{
    if i < parts.len() {
        assert(as_components(parts)[i] == ComponentModel::Normal(parts[i]));
        names_are_normal(parts, i + 1, acc.push(parts[i]));
        assert(acc.push(parts[i]) + parts.skip(i + 1) =~= acc + parts.skip(i));
    } else {
        assert(acc + parts.skip(i) =~= acc);
    }
}

// ---------------------------------------------------------------------
// The one parent at the top
// ---------------------------------------------------------------------
/// Node `k` of the snapshot is a parent at the top of the plan, other than the one at
/// the path.
pub open spec fn is_top_parent(
    snapshot: RefineRuntimeNodeSnapshotModel,
    path: Seq<char>,
    k: int,
) -> bool {
    &&& 0 <= k < snapshot.nodes.len()
    &&& snapshot.nodes[k].node_kind == NodeKind::Parent
    &&& snapshot.nodes[k].parent_node_id is None
    &&& components(snapshot.nodes[k].relative_path).len() == 1
    &&& snapshot.nodes[k].relative_path != path
}

/// Node `k` is the only parent at the top.
pub open spec fn is_only_top_parent(
    snapshot: RefineRuntimeNodeSnapshotModel,
    path: Seq<char>,
    k: int,
) -> bool {
    is_top_parent(snapshot, path, k) && forall|j: int| #[trigger]
        is_top_parent(snapshot, path, j) ==> j == k
}

/// Node `j` is the only parent at the top from node `i` on.
spec fn is_only_from(
    snapshot: RefineRuntimeNodeSnapshotModel,
    path: Seq<char>,
    i: int,
    j: int,
) -> bool {
    &&& i <= j
    &&& is_top_parent(snapshot, path, j)
    &&& forall|m: int| i <= m && #[trigger] is_top_parent(snapshot, path, m) ==> m == j
}

/// There is no parent at the top from node `i` on.
spec fn is_none_from(snapshot: RefineRuntimeNodeSnapshotModel, path: Seq<char>, i: int) -> bool {
    forall|m: int| i <= m ==> !#[trigger] is_top_parent(snapshot, path, m)
}

proof fn found_parents_stay(
    snapshot: RefineRuntimeNodeSnapshotModel,
    path: Seq<char>,
    i: int,
    acc: Seq<Seq<char>>,
)
    requires
        0 <= i <= snapshot.nodes.len(),
    ensures
        root_parents_from(snapshot.nodes, path, i, acc).len() >= acc.len(),
        forall|k: int|
            0 <= k < acc.len() ==> #[trigger] root_parents_from(snapshot.nodes, path, i, acc)[k]
                == acc[k],
        is_none_from(snapshot, path, i) <==> root_parents_from(
            snapshot.nodes,
            path,
            i,
            acc,
        ).len() == acc.len(),
    decreases snapshot.nodes.len() - i,
{
    if i < snapshot.nodes.len() {
        let node = snapshot.nodes[i];
        assert(is_root_parent(node, path) == is_top_parent(snapshot, path, i));
        if is_root_parent(node, path) {
            let more = acc.push(node.relative_path);
            found_parents_stay(snapshot, path, i + 1, more);
            let found = root_parents_from(snapshot.nodes, path, i, acc);
            assert forall|k: int| 0 <= k < acc.len() implies #[trigger] found[k] == acc[k] by {
                assert(found[k] == more[k]);
            }
        } else {
            found_parents_stay(snapshot, path, i + 1, acc);
            if is_none_from(snapshot, path, i + 1) {
                assert forall|m: int| i <= m implies !#[trigger] is_top_parent(
                    snapshot,
                    path,
                    m,
                ) by {}
            }
            if is_none_from(snapshot, path, i) {
                assert forall|m: int| i + 1 <= m implies !#[trigger] is_top_parent(
                    snapshot,
                    path,
                    m,
                ) by {}
            }
        }
    }
}

proof fn only_parent_is_found(
    snapshot: RefineRuntimeNodeSnapshotModel,
    path: Seq<char>,
    i: int,
    acc: Seq<Seq<char>>,
    j: int,
)
    requires
        0 <= i <= snapshot.nodes.len(),
        is_only_from(snapshot, path, i, j),
    ensures
        root_parents_from(snapshot.nodes, path, i, acc) == acc.push(
            snapshot.nodes[j].relative_path,
        ),
    decreases snapshot.nodes.len() - i,
{
    assert(i < snapshot.nodes.len());
    assert(is_root_parent(snapshot.nodes[i], path) == is_top_parent(snapshot, path, i));
    if is_root_parent(snapshot.nodes[i], path) {
        assert(i == j);
        let more = acc.push(snapshot.nodes[i].relative_path);
        found_parents_stay(snapshot, path, i + 1, more);
        assert(is_none_from(snapshot, path, i + 1));
        assert(root_parents_from(snapshot.nodes, path, i, acc) =~= more);
    } else {
        assert(is_only_from(snapshot, path, i + 1, j));
        only_parent_is_found(snapshot, path, i + 1, acc, j);
    }
}

proof fn one_found_is_the_only_one(
    snapshot: RefineRuntimeNodeSnapshotModel,
    path: Seq<char>,
    i: int,
    acc: Seq<Seq<char>>,
) -> (j: int)
    requires
        0 <= i <= snapshot.nodes.len(),
        root_parents_from(snapshot.nodes, path, i, acc).len() == acc.len() + 1,
    ensures
        is_only_from(snapshot, path, i, j),
    decreases snapshot.nodes.len() - i,
{
    assert(is_root_parent(snapshot.nodes[i], path) == is_top_parent(snapshot, path, i));
    if is_root_parent(snapshot.nodes[i], path) {
        let more = acc.push(snapshot.nodes[i].relative_path);
        found_parents_stay(snapshot, path, i + 1, more);
        assert(is_none_from(snapshot, path, i + 1));
        assert forall|m: int| i <= m && #[trigger] is_top_parent(snapshot, path, m) implies m
            == i by {
            if m > i {
                assert(i + 1 <= m);
            }
        }
        i
    } else {
        let j = one_found_is_the_only_one(snapshot, path, i + 1, acc);
        assert forall|m: int| i <= m && #[trigger] is_top_parent(snapshot, path, m) implies m
            == j by {
            assert(m != i);
        }
        j
    }
}

// ---------------------------------------------------------------------
// The law
// ---------------------------------------------------------------------
/// The parent of a node that is not tracked is told by its path. One step below the
/// top it is the parent with the name of its directory that the snapshot tracks at the
/// top, where there is one. At the top it is the only parent that the snapshot tracks
/// there. Else it is the file in its directory with the directory's name.
pub proof fn paths_tell_the_parent(
    snapshot: RefineRuntimeNodeSnapshotModel,
    parts: Seq<Seq<char>>,
)
    requires
        are_names(parts),
    ensures
        ({
            let path = path_of(parts);
            let top = parts[0] + ".md"@;
            let found = parent_of(snapshot, path);
            &&& parts.len() == 2 && top != path && (snapshot.node_at(top) matches Some(node)
                && node.node_kind == NodeKind::Parent) ==> found == Some(top)
            &&& parts.len() == 2 && !(top != path && (snapshot.node_at(top) matches Some(node)
                && node.node_kind == NodeKind::Parent)) ==> found == scoped_parent(path)
            &&& parts.len() > 2 ==> found == scoped_parent(path)
            &&& forall|k: int|
                parts.len() == 1 && #[trigger] is_only_top_parent(snapshot, path, k) ==> found
                    == Some(snapshot.nodes[k].relative_path)
            &&& parts.len() == 1 && (forall|k: int|
                !#[trigger] is_only_top_parent(snapshot, path, k)) ==> found == scoped_parent(path)
        }),
{
    let path = path_of(parts);
    names_are_the_parts(parts);
    names_are_normal(parts, 0, Seq::empty());
    assert(Seq::<Seq<char>>::empty() + parts.skip(0) =~= parts);
    assert(components(path).len() == parts.len());
    let roots = root_parents_from(snapshot.nodes, path, 0, Seq::empty());
    let none = Seq::<Seq<char>>::empty();
    if parts.len() == 1 {
        assert forall|k: int| #[trigger]
            is_only_top_parent(snapshot, path, k) implies parent_of(snapshot, path) == Some(
            snapshot.nodes[k].relative_path,
        ) by {
            assert(is_only_from(snapshot, path, 0, k));
            only_parent_is_found(snapshot, path, 0, none, k);
        }
        if forall|k: int| !#[trigger] is_only_top_parent(snapshot, path, k) {
            if roots.len() == 1 {
                let j = one_found_is_the_only_one(snapshot, path, 0, none);
                assert(is_only_top_parent(snapshot, path, j));
            }
            assert(top_level_parent(snapshot, path) is None);
        }
    } else {
        assert(top_level_parent(snapshot, path) is None);
    }
    if parts.len() == 2 {
        assert(root_scope_parent(path, 1) == if parts[0] + ".md"@ == path {
            None
        } else {
            Some(parts[0] + ".md"@)
        });
    } else {
        assert(root_scope_parent(path, 1) is None);
    }
}

} // verus!
