//! Which paths a plan node can stand at, and which nodes can be its children.
use crate::api::NodeKind;
use crate::error::{failure, outcome, PlanError, PlanErrorModel};
use crate::paths::{
    all_normal, components, components_are_normal, file_name, is_absolute, key_of_path,
    parent_components, root_comes_first, parent_name, path_components, path_file_name, path_is_absolute, path_key,
    path_parent_name, Component, ComponentModel,
};
use crate::text::{
    before_suffix, concat2, concat3, concat5, is_empty, is_text, same_text, strip_suffix,
};
use vstd::prelude::*;

verus! {

/// Why a text is no normalized path within a plan.
pub open spec fn local_path_problem(label: Seq<char>, input: Seq<char>) -> Option<Seq<char>> {
    if input.len() == 0 {
        Some(label + " must not be empty"@)
    } else if is_absolute(input) {
        Some(label + " must be a plan-local relative path: absolute paths are not allowed"@)
    } else if !all_normal(components(input)) {
        Some(label + " must be a normalized plan-local relative path"@)
    } else if components(input).len() == 0 {
        Some(label + " must not be empty"@)
    } else if path_key(input) != input {
        Some(label + " must be a normalized plan-local relative path"@)
    } else {
        None
    }
}

/// Checks that a text is a normalized path within a plan.
pub fn validate_plan_local_path(label: &str, input: &str) -> (r: Result<(), PlanError>)
    ensures
        match local_path_problem(label@, input@) {
            Some(text) => outcome(r) == Err::<(), PlanErrorModel>(failure(text)),
            None => r is Ok,
        },
{
    if is_empty(input) {
        return Err(PlanError::new(concat2(label, " must not be empty")));
    }
    if path_is_absolute(input) {
        return Err(
            PlanError::new(
                concat2(
                    label,
                    " must be a plan-local relative path: absolute paths are not allowed",
                ),
            ),
        );
    }
    let parts: Vec<Component> = path_components(input);
    if !components_are_normal(&parts) {
        return Err(
            PlanError::new(concat2(label, " must be a normalized plan-local relative path")),
        );
    }
    if parts.len() == 0 {
        return Err(PlanError::new(concat2(label, " must not be empty")));
    }
    if !same_text(key_of_path(input).as_str(), input) {
        return Err(
            PlanError::new(concat2(label, " must be a normalized plan-local relative path")),
        );
    }
    Ok(())
}

/// The kind of node that stands at a path: a parent in the directory of its
/// own name, a leaf elsewhere.
pub open spec fn node_path_kind(label: Seq<char>, path: Seq<char>) -> Result<
    NodeKind,
    PlanErrorModel,
> {
    match file_name(path) {
        None => Err(failure(label + " must point to a canonical markdown file path"@)),
        Some(name) => match before_suffix(name, ".md"@) {
            None => Err(
                failure(label + " must point to a canonical markdown file path ending in `.md`"@),
            ),
            Some(stem) => if stem.len() == 0 {
                Err(
                    failure(
                        label
                            + " must point to a canonical markdown file path with a non-empty stem"@,
                    ),
                )
            } else if parent_name(path) == Some(stem) {
                Ok(NodeKind::Parent)
            } else {
                Ok(NodeKind::Leaf)
            },
        },
    }
}

/// The kind of node that stands at a path.
pub fn validate_registered_node_path(label: &str, path: &str) -> (r: Result<NodeKind, PlanError>)
    ensures
        outcome(r) == node_path_kind(label@, path@),
{
    let name: String = match path_file_name(path) {
        Some(name) => name,
        None => {
            return Err(
                PlanError::new(
                    concat2(label, " must point to a canonical markdown file path"),
                ),
            );
        },
    };
    match strip_suffix(name.as_str(), ".md") {
        None => Err(
            PlanError::new(
                concat2(label, " must point to a canonical markdown file path ending in `.md`"),
            ),
        ),
        Some(stem) => {
            if is_empty(stem.as_str()) {
                Err(
                    PlanError::new(
                        concat2(
                            label,
                            " must point to a canonical markdown file path with a non-empty stem",
                        ),
                    ),
                )
            } else if is_text(&path_parent_name(path), stem.as_str()) {
                Ok(NodeKind::Parent)
            } else {
                Ok(NodeKind::Leaf)
            }
        },
    }
}

/// Why no parent node can stand at a path.
pub open spec fn parent_path_problem(label: Seq<char>, path: Seq<char>) -> Option<PlanErrorModel> {
    match node_path_kind(label, path) {
        Err(error) => Some(error),
        Ok(NodeKind::Leaf) => Some(
            failure(
                label + " must point to a canonical parent markdown path such as `scope/scope.md`"@,
            ),
        ),
        Ok(NodeKind::Parent) => None,
    }
}

/// The outcome of a check that may find a problem.
pub open spec fn checked(problem: Option<PlanErrorModel>) -> Result<(), PlanErrorModel> {
    match problem {
        Some(error) => Err(error),
        None => Ok(()),
    }
}

/// Checks that a parent node can stand at a path.
pub fn require_parent_node_path(label: &str, path: &str) -> (r: Result<(), PlanError>)
    ensures
        outcome(r) == checked(parent_path_problem(label@, path@)),
{
    match validate_registered_node_path(label, path) {
        Err(error) => Err(error),
        Ok(NodeKind::Leaf) => Err(
            PlanError::new(
                concat2(
                    label,
                    " must point to a canonical parent markdown path such as `scope/scope.md`",
                ),
            ),
        ),
        Ok(NodeKind::Parent) => Ok(()),
    }
}

/// The components of the directory that a path stands in.
pub open spec fn directory_components(path: Seq<char>) -> Seq<ComponentModel> {
    match parent_components(path) {
        Some(parts) => parts,
        None => Seq::empty(),
    }
}

/// How many components a child of each kind adds to its parent's directory.
pub open spec fn child_depth(kind: NodeKind) -> int {
    match kind {
        NodeKind::Leaf => 1,
        NodeKind::Parent => 2,
    }
}

/// The path stands in the directory of `parent` or below it.
pub open spec fn is_within(path: Seq<char>, parent: Seq<char>) -> bool {
    let directory = directory_components(parent);
    let parts = components(path);
    directory.len() <= parts.len() && parts.take(directory.len() as int) == directory
}

/// The path is that of a direct child of `parent`, of the given kind.
pub open spec fn is_direct_child(path: Seq<char>, parent: Seq<char>, kind: NodeKind) -> bool {
    is_within(path, parent) && components(path).len() - directory_components(parent).len()
        == child_depth(kind)
}

/// Why the path is not that of a direct child of `parent`.
pub open spec fn direct_child_problem(path: Seq<char>, parent: Seq<char>, kind: NodeKind) -> Option<
    PlanErrorModel,
> {
    if !is_within(path, parent) {
        Some(
            failure(
                "relative_path `"@ + path
                    + "` must stay within the direct child scope of parent_relative_path `"@
                    + parent + "`"@,
            ),
        )
    } else if !is_direct_child(path, parent, kind) {
        Some(
            failure(
                "relative_path `"@ + path
                    + "` must be a direct child of parent_relative_path `"@ + parent + "`"@,
            ),
        )
    } else {
        None
    }
}

fn same_component(a: &Component, b: &Component) -> (r: bool)
    ensures
        r == (a.deep_view() == b.deep_view()),
{
    match (a, b) {
        (Component::RootDir, Component::RootDir) => true,
        (Component::CurDir, Component::CurDir) => true,
        (Component::ParentDir, Component::ParentDir) => true,
        (Component::Normal(x), Component::Normal(y)) => same_text(x.as_str(), y.as_str()),
        _ => false,
    }
}

/// The number of components of the directory that a path stands in, given
/// the components of the path.
pub fn directory_len(parts: &Vec<Component>) -> (r: usize)
    ensures
        r <= parts.len(),
        forall|path: Seq<char>|
            components(path) == parts.deep_view() ==> #[trigger] directory_components(path)
                == parts.deep_view().take(r as int),
{
    if parts.len() == 0 {
        assert(parts.deep_view().take(0) =~= Seq::empty());
        return 0;
    }
    match &parts[parts.len() - 1] {
        Component::RootDir => {
            assert(parts.deep_view().take(0) =~= Seq::empty());
            assert(parts.deep_view().last() is RootDir);
            0
        },
        _ => {
            assert(!(parts.deep_view().last() is RootDir));
            assert(parts.deep_view().take(parts.len() - 1) =~= parts.deep_view().drop_last());
            parts.len() - 1
        },
    }
}

/// Checks that the path is that of a direct child of `parent`.
pub fn validate_direct_child_relationship(path: &str, parent: &str, kind: NodeKind) -> (r: Result<
    (),
    PlanError,
>)
    ensures
        outcome(r) == checked(direct_child_problem(path@, parent@, kind)),
{
    let parent_parts: Vec<Component> = path_components(parent);
    let parts: Vec<Component> = path_components(path);
    let n: usize = directory_len(&parent_parts);
    let ghost directory = directory_components(parent@);
    assert(directory == parent_parts.deep_view().take(n as int));
    let mut within: bool = n <= parts.len();
    let mut i: usize = 0;
    while within && i < n
        invariant
            i <= n,
            n <= parent_parts.len(),
            within ==> n <= parts.len(),
            directory == parent_parts.deep_view().take(n as int),
            within ==> parts.deep_view().take(i as int) == directory.take(i as int),
            !within ==> !(n <= parts.len() && parts.deep_view().take(n as int) == directory),
        decreases
                (n - i) + (if within {
                    1int
                } else {
                    0int
                }),
    {
        assert(directory[i as int] == parent_parts@[i as int].deep_view());
        if same_component(&parent_parts[i], &parts[i]) {
            assert(parts.deep_view().take(i + 1) =~= parts.deep_view().take(i as int).push(
                parts.deep_view()[i as int],
            ));
            assert(directory.take(i + 1) =~= directory.take(i as int).push(directory[i as int]));
            i = i + 1;
        } else {
            assert(parts.deep_view().take(n as int)[i as int] != directory[i as int]);
            within = false;
        }
    }
    assert(directory.take(n as int) =~= directory);
    if !within {
        return Err(
            PlanError::new(
                concat5(
                    "relative_path `",
                    path,
                    "` must stay within the direct child scope of parent_relative_path `",
                    parent,
                    "`",
                ),
            ),
        );
    }
    assert(parts.deep_view().take(n as int) =~= directory);
    let depth: usize = match kind {
        NodeKind::Leaf => 1,
        NodeKind::Parent => 2,
    };
    if parts.len() - n != depth {
        return Err(
            PlanError::new(
                concat5(
                    "relative_path `",
                    path,
                    "` must be a direct child of parent_relative_path `",
                    parent,
                    "`",
                ),
            ),
        );
    }
    Ok(())
}

/// The kind of node that can be registered at a path, below the given parent
/// or at the top of the plan.
pub open spec fn registration_kind(path: Seq<char>, parent: Option<Seq<char>>) -> Result<
    NodeKind,
    PlanErrorModel,
> {
    match node_path_kind("relative_path"@, path) {
        Err(error) => Err(error),
        Ok(kind) => match parent {
            Some(parent) => match parent_path_problem("parent_relative_path"@, parent) {
                Some(error) => Err(error),
                None => match direct_child_problem(path, parent, kind) {
                    Some(error) => Err(error),
                    None => Ok(kind),
                },
            },
            None => if components(path).len() == child_depth(kind) {
                Ok(kind)
            } else {
                match kind {
                    NodeKind::Leaf => Err(
                        failure(
                            "relative_path `"@ + path
                                + "` is a nested leaf and requires parent_relative_path pointing to the tracked parent markdown path"@,
                        ),
                    ),
                    NodeKind::Parent => Err(
                        failure(
                            "relative_path `"@ + path
                                + "` is a nested parent and requires parent_relative_path pointing to the tracked parent markdown path"@,
                        ),
                    ),
                }
            },
        },
    }
}

/// The kind of node that can be registered at a path.
pub fn validate_registration_request(path: &str, parent: &Option<String>) -> (r: Result<
    NodeKind,
    PlanError,
>)
    ensures
        outcome(r) == registration_kind(path@, parent.deep_view()),
{
    let kind: NodeKind = validate_registered_node_path("relative_path", path)?;
    match parent {
        Some(parent) => {
            require_parent_node_path("parent_relative_path", parent.as_str())?;
            validate_direct_child_relationship(path, parent.as_str(), kind)?;
            Ok(kind)
        },
        None => {
            let depth: usize = path_components(path).len();
            match kind {
                NodeKind::Leaf => {
                    if depth == 1 {
                        Ok(kind)
                    } else {
                        Err(
                            PlanError::new(
                                concat3(
                                    "relative_path `",
                                    path,
                                    "` is a nested leaf and requires parent_relative_path pointing to the tracked parent markdown path",
                                ),
                            ),
                        )
                    }
                },
                NodeKind::Parent => {
                    if depth == 2 {
                        Ok(kind)
                    } else {
                        Err(
                            PlanError::new(
                                concat3(
                                    "relative_path `",
                                    path,
                                    "` is a nested parent and requires parent_relative_path pointing to the tracked parent markdown path",
                                ),
                            ),
                        )
                    }
                },
            }
        },
    }
}

/// A direct child that is a parent itself stands deeper than its parent.
pub proof fn child_parents_stand_deeper(path: Seq<char>, parent: Seq<char>)
    requires
        is_direct_child(path, parent, NodeKind::Parent),
    ensures
        components(path).len() > components(parent).len(),
{
    if components(parent).len() > 1 {
        root_comes_first(parent, components(parent).len() - 1);
    }
}

/// The name that a node is stored under.
pub open spec fn stored_name(path: Seq<char>) -> Seq<char> {
    match file_name(path) {
        Some(name) => if name.len() > 0 {
            name
        } else {
            path
        },
        None => path,
    }
}

/// The name that a node is stored under.
pub fn node_name(path: &str) -> (r: String)
    ensures
        r@ == stored_name(path@),
{
    match path_file_name(path) {
        Some(name) => {
            if is_empty(name.as_str()) {
                path.to_owned()
            } else {
                name
            }
        },
        None => path.to_owned(),
    }
}

} // verus!
