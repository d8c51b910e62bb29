//! What is read back of the links that were written.
use super::markdown::{
    link_row, link_rows, link_rows_from, relative_steps, relative_url, rendered_link,
    rendered_section, shared_from, text_lines, with_child_section, ChildLinkRowModel,
};
use super::markdown_laws::line_feed_is_trimmed;
use super::rewrite_types::RefineRewriteErrorModel;
use crate::line_laws::{
    concat_all_splits, full_line_comes_first, is_full_line, is_line, line_ranges_are_lines,
    lines_are_lines, lines_of_joined_lines, lines_split,
};
use crate::paths::{
    all_normal, components, components_from, is_absolute, is_plan_markdown, names,
    piece_component, path_key, ComponentModel,
};
use crate::runtime::child_links::{
    child_section, child_url_target, directory_names, heading_from, is_next_section,
    is_section_heading, link_of_line, plain_names_from, section_end_from, url_path, walk_from,
    ChildUrlProblem,
};
use crate::text::{
    before_char, begins_with, closes_with, concat_all, cut_at, find_from, find_is_least, has_text,
    is_space, joined, lines_of, lines_rebuild_text, occurs_at, pieces_from, pieces_of, skip_space,
    space_start, trimmed, trimmed_start, without_line_end,
};
use vstd::prelude::*;

verus! {

// ---------------------------------------------------------------------
// Names in a path
// ---------------------------------------------------------------------
/// None of the characters is `c`.
pub open spec fn lacks(text: Seq<char>, c: char) -> bool {
    forall|i: int| 0 <= i < text.len() ==> #[trigger] text[i] != c
}

proof fn one_piece(s: Seq<char>, c: char, start: int, i: int)
    requires
        0 <= start <= i <= s.len(),
        forall|k: int| i <= k < s.len() ==> #[trigger] s[k] != c,
    ensures
        pieces_from(s, c, start, i) == seq![s.subrange(start, s.len() as int)],
    decreases s.len() - i,
{
    if i < s.len() {
        one_piece(s, c, start, i + 1);
    }
}

proof fn pieces_with_one_more(a: Seq<char>, b: Seq<char>, c: char, start: int, i: int)
    requires
        0 <= start <= i <= a.len(),
        lacks(b, c),
    ensures
        pieces_from(a + seq![c] + b, c, start, i) == pieces_from(a, c, start, i) + seq![b],
    decreases a.len() - i,
{
    let all = a + seq![c] + b;
    if i < a.len() {
        assert(all[i] == a[i]);
        if a[i] == c {
            pieces_with_one_more(a, b, c, i + 1, i + 1);
            assert(all.subrange(start, i) =~= a.subrange(start, i));
            assert(pieces_from(all, c, start, i) =~= pieces_from(a, c, start, i) + seq![b]);
        } else {
            pieces_with_one_more(a, b, c, start, i + 1);
        }
    } else {
        assert(all[i] == c);
        assert(all.subrange(start, i) =~= a.subrange(start, a.len() as int));
        let n = a.len() + 1;
        assert forall|k: int| n <= k < all.len() implies #[trigger] all[k] != c by {
            assert(all[k] == b[k - n]);
        }
        one_piece(all, c, n as int, n as int);
        assert(all.subrange(n as int, all.len() as int) =~= b);
        assert(pieces_from(all, c, start, i) =~= pieces_from(a, c, start, i) + seq![b]);
    }
}

/// Names that are joined by `/` are what the path is cut into again.
pub proof fn pieces_of_joined_names(parts: Seq<Seq<char>>)
    requires
        parts.len() > 0,
        forall|k: int| 0 <= k < parts.len() ==> lacks(#[trigger] parts[k], '/'),
    ensures
        pieces_of(joined(parts, "/"@), '/') == parts,
    decreases parts.len(),
{
    reveal_strlit("/");
    if parts.len() == 1 {
        one_piece(parts[0], '/', 0, 0);
        assert(parts[0].subrange(0, parts[0].len() as int) =~= parts[0]);
        assert(pieces_of(joined(parts, "/"@), '/') =~= parts);
    } else {
        let front = parts.drop_last();
        assert forall|k: int| 0 <= k < front.len() implies lacks(#[trigger] front[k], '/') by {
            assert(front[k] == parts[k]);
        }
        pieces_of_joined_names(front);
        assert("/"@ =~= seq!['/']);
        assert(lacks(parts[parts.len() - 1], '/'));
        pieces_with_one_more(joined(front, "/"@), parts.last(), '/', 0, 0);
        assert(pieces_of(joined(parts, "/"@), '/') =~= parts);
    }
}

/// The text is the name of a file or directory.
pub open spec fn is_name(text: Seq<char>) -> bool {
    &&& text.len() > 0
    &&& text != "."@
    &&& text != ".."@
    &&& lacks(text, '/')
}

/// The characters of the text are characters of the other.
pub open spec fn is_made_of(text: Seq<char>, other: Seq<char>) -> bool {
    forall|i: int| 0 <= i < text.len() ==> other.contains(#[trigger] text[i])
}

proof fn pieces_hold_no_separator(s: Seq<char>, c: char, start: int, i: int)
    requires
        0 <= start <= i <= s.len(),
        forall|k: int| start <= k < i ==> #[trigger] s[k] != c,
    ensures
        forall|k: int|
            0 <= k < pieces_from(s, c, start, i).len() ==> lacks(
                #[trigger] pieces_from(s, c, start, i)[k],
                c,
            ) && is_made_of(pieces_from(s, c, start, i)[k], s),
    decreases s.len() - i,
{
    let out = pieces_from(s, c, start, i);
    if i < s.len() {
        if s[i] == c {
            pieces_hold_no_separator(s, c, i + 1, i + 1);
            let first = s.subrange(start, i);
            let rest = pieces_from(s, c, i + 1, i + 1);
            assert(out == seq![first] + rest);
            assert forall|k: int| 0 <= k < out.len() implies lacks(#[trigger] out[k], c)
                && is_made_of(out[k], s) by {
                if k > 0 {
                    assert(out[k] == rest[k - 1]);
                } else {
                    assert forall|j: int| 0 <= j < first.len() implies s.contains(
                        #[trigger] first[j],
                    ) by {
                        assert(s[start + j] == first[j]);
                    }
                }
            }
        } else {
            pieces_hold_no_separator(s, c, start, i + 1);
            assert(out == pieces_from(s, c, start, i + 1));
        }
    } else {
        let last = s.subrange(start, s.len() as int);
        assert(out == seq![last]);
        assert forall|j: int| 0 <= j < last.len() implies s.contains(#[trigger] last[j]) by {
            assert(s[start + j] == last[j]);
        }
    }
}

proof fn named_components_are_names(pieces: Seq<Seq<char>>, s: Seq<char>, i: int)
    requires
        0 <= i <= pieces.len(),
        forall|k: int|
            0 <= k < pieces.len() ==> lacks(#[trigger] pieces[k], '/') && is_made_of(pieces[k], s),
    ensures
        forall|k: int|
            0 <= k < components_from(pieces, i).len() && (#[trigger] components_from(
                pieces,
                i,
            )[k]) is Normal ==> is_name(components_from(pieces, i)[k]->Normal_0) && is_made_of(
                components_from(pieces, i)[k]->Normal_0,
                s,
            ),
    decreases pieces.len() - i,
{
    if i < pieces.len() {
        named_components_are_names(pieces, s, i + 1);
        let rest = components_from(pieces, i + 1);
        let out = components_from(pieces, i);
        assert(lacks(pieces[i], '/'));
        if let Some(c) = piece_component(pieces[i], i) {
            assert(out == seq![c] + rest);
            assert forall|k: int| 0 <= k < out.len() && (#[trigger] out[k]) is Normal implies
                is_name(out[k]->Normal_0) && is_made_of(out[k]->Normal_0, s) by {
                if k > 0 {
                    assert(out[k] == rest[k - 1]);
                }
            }
        }
    }
}

/// The components of a path within a plan are names made of its characters.
pub proof fn path_names_are_names(path: Seq<char>)
    requires
        !is_absolute(path),
        all_normal(components(path)),
    ensures
        forall|k: int|
            0 <= k < names(components(path)).len() ==> is_name(
                #[trigger] names(components(path))[k],
            ) && is_made_of(names(components(path))[k], path),
{
    pieces_hold_no_separator(path, '/', 0, 0);
    named_components_are_names(pieces_of(path, '/'), path, 0);
    assert forall|k: int| 0 <= k < names(components(path)).len() implies is_name(
        #[trigger] names(components(path))[k],
    ) && is_made_of(names(components(path))[k], path) by {
        assert(components(path)[k] is Normal);
    }
}

proof fn counted_components(pieces: Seq<Seq<char>>, i: int)
    requires
        0 <= i <= pieces.len(),
        forall|k: int|
            i <= k < pieces.len() ==> piece_component(#[trigger] pieces[k], k) is Some,
    ensures
        components_from(pieces, i) == Seq::new(
            (pieces.len() - i) as nat,
            |k: int| piece_component(pieces[i + k], i + k)->0,
        ),
    decreases pieces.len() - i,
{
    if i < pieces.len() {
        assert(piece_component(pieces[i], i) is Some);
        counted_components(pieces, i + 1);
        assert(components_from(pieces, i) =~= Seq::new(
            (pieces.len() - i) as nat,
            |k: int| piece_component(pieces[i + k], i + k)->0,
        ));
    } else {
        assert(components_from(pieces, i) =~= Seq::new(
            (pieces.len() - i) as nat,
            |k: int| piece_component(pieces[i + k], i + k)->0,
        ));
    }
}

/// A path and its key have the same components, and the key is its own key.
pub proof fn path_key_is_same_path(path: Seq<char>)
    requires
        !is_absolute(path),
        all_normal(components(path)),
        components(path).len() > 0,
    ensures
        components(path_key(path)) == components(path),
        path_key(path_key(path)) == path_key(path),
        is_plan_markdown(path) ==> is_plan_markdown(path_key(path)),
{
    let parts = names(components(path));
    let key = path_key(path);
    path_names_are_names(path);
    assert forall|k: int| 0 <= k < parts.len() implies lacks(#[trigger] parts[k], '/') by {
        assert(is_name(parts[k]));
    }
    pieces_of_joined_names(parts);
    assert forall|k: int| 0 <= k < parts.len() implies piece_component(
        #[trigger] parts[k],
        k,
    ) is Some by {
        assert(is_name(parts[k]));
    }
    counted_components(parts, 0);
    starts_with_first_name(parts);
    assert(is_name(parts[0]));
    assert(key.subrange(0, parts[0].len() as int)[0] == key[0]);
    assert(components(key) =~= components(path)) by {
        assert forall|k: int| 0 <= k < parts.len() implies #[trigger] components(key)[k]
            == components(path)[k] by {
            assert(is_name(parts[k]));
            assert(components(path)[k] is Normal);
        }
    }
}

// ---------------------------------------------------------------------
// The way from a parent to a child
// ---------------------------------------------------------------------
proof fn shared_names_agree(a: Seq<Seq<char>>, b: Seq<Seq<char>>, i: int)
    requires
        0 <= i <= a.len(),
        i <= b.len(),
        forall|k: int| 0 <= k < i ==> a[k] == #[trigger] b[k],
    ensures
        i <= shared_from(a, b, i) <= a.len(),
        shared_from(a, b, i) <= b.len(),
        forall|k: int| 0 <= k < shared_from(a, b, i) ==> a[k] == #[trigger] b[k],
    decreases a.len() - i,
{
    if i < a.len() && i < b.len() && a[i] == b[i] {
        shared_names_agree(a, b, i + 1);
    }
}

proof fn way_up(
    parts: Seq<ComponentModel>,
    offset: int,
    up: int,
    directory: Seq<Seq<char>>,
    i: int,
)
    requires
        0 <= offset,
        0 <= i <= up <= directory.len(),
        offset + up <= parts.len(),
        forall|k: int| offset <= k < offset + up ==> (#[trigger] parts[k]) is ParentDir,
    ensures
        walk_from(parts, offset + i, directory.take(directory.len() - i)) == walk_from(
            parts,
            offset + up,
            directory.take(directory.len() - up),
        ),
    decreases up - i,
{
    if i < up {
        let here = directory.take(directory.len() - i);
        assert(parts[offset + i] is ParentDir);
        assert(here.drop_last() =~= directory.take(directory.len() - (i + 1)));
        way_up(parts, offset, up, directory, i + 1);
    }
}

proof fn way_down(parts: Seq<ComponentModel>, i: int, acc: Seq<Seq<char>>)
    requires
        0 <= i <= parts.len(),
        forall|k: int| i <= k < parts.len() ==> (#[trigger] parts[k]) is Normal,
    ensures
        walk_from(parts, i, acc) == Ok::<Seq<Seq<char>>, ChildUrlProblem>(
            acc + Seq::new((parts.len() - i) as nat, |k: int| parts[i + k]->Normal_0),
        ),
    decreases parts.len() - i,
{
    let rest = Seq::new((parts.len() - i) as nat, |k: int| parts[i + k]->Normal_0);
    if i < parts.len() {
        assert(parts[i] is Normal);
        way_down(parts, i + 1, acc.push(parts[i]->Normal_0));
        let later = Seq::new((parts.len() - (i + 1)) as nat, |k: int| parts[i + 1 + k]->Normal_0);
        assert(acc + rest =~= acc.push(parts[i]->Normal_0) + later);
    } else {
        assert(acc + rest =~= acc);
    }
}

proof fn plain_names_of_normal(parts: Seq<ComponentModel>, i: int, acc: Seq<Seq<char>>)
    requires
        0 <= i <= parts.len(),
        all_normal(parts),
    ensures
        plain_names_from(parts, i, acc) == Some(acc + names(parts).skip(i)),
    decreases parts.len() - i,
{
    if i < parts.len() {
        assert(parts[i] is Normal);
        plain_names_of_normal(parts, i + 1, acc.push(parts[i]->Normal_0));
        assert(acc.push(parts[i]->Normal_0) + names(parts).skip(i + 1) =~= acc + names(parts).skip(
            i,
        ));
    } else {
        assert(acc + names(parts).skip(i) =~= acc);
    }
}

/// Joined names hold no character but theirs and `/`, and no `/` stands at the
/// start, at the end or next to another.
proof fn joined_names_are_tidy(parts: Seq<Seq<char>>, c: char)
    requires
        parts.len() > 0,
        c != '/',
        forall|k: int|
            0 <= k < parts.len() ==> (#[trigger] parts[k]).len() > 0 && lacks(parts[k], '/')
                && lacks(parts[k], c),
    ensures
        joined(parts, "/"@).len() > 0,
        joined(parts, "/"@)[0] == parts[0][0],
        joined(parts, "/"@)[0] != '/',
        joined(parts, "/"@).last() != '/',
        lacks(joined(parts, "/"@), c),
        forall|i: int|
            0 <= i < joined(parts, "/"@).len() - 1 && #[trigger] joined(parts, "/"@)[i] == '/'
                ==> joined(parts, "/"@)[i + 1] != '/',
    decreases parts.len(),
{
    reveal_strlit("/");
    let all = joined(parts, "/"@);
    let last = parts.last();
    assert(parts[parts.len() - 1].len() > 0);
    assert(lacks(parts[parts.len() - 1], '/') && lacks(parts[parts.len() - 1], c));
    if parts.len() == 1 {
        assert(all == parts[0]);
    } else {
        let front = parts.drop_last();
        assert forall|k: int| 0 <= k < front.len() implies (#[trigger] front[k]).len() > 0
            && lacks(front[k], '/') && lacks(front[k], c) by {
            assert(front[k] == parts[k]);
        }
        joined_names_are_tidy(front, c);
        let before = joined(front, "/"@);
        assert(all =~= before + "/"@ + last);
        assert(front[0] == parts[0]);
        assert(all[0] == before[0]);
        assert(all.last() == last.last());
        assert forall|i: int| 0 <= i < all.len() implies #[trigger] all[i] != c by {
            if i < before.len() {
                assert(all[i] == before[i]);
            } else if i > before.len() {
                assert(all[i] == last[i - before.len() - 1]);
            }
        }
        assert forall|i: int| 0 <= i < all.len() - 1 && #[trigger] all[i] == '/' implies all[i + 1]
            != '/' by {
            if i < before.len() {
                assert(all[i] == before[i]);
                if i + 1 < before.len() {
                    assert(all[i + 1] == before[i + 1]);
                } else {
                    assert(before.last() == before[i]);
                }
            } else if i == before.len() {
                assert(all[i + 1] == last[0]);
            } else {
                assert(all[i] == last[i - before.len() - 1]);
            }
        }
    }
}

proof fn nothing_is_cut(s: Seq<char>, c: char)
    requires
        lacks(s, c),
    ensures
        before_char(s, c) == s,
        !begins_with(s, seq![c]),
{
    find_is_least(s, seq![c], 0);
    if let Some(k) = find_from(s, seq![c], 0) {
        assert(s.subrange(k, k + 1)[0] == s[k]);
    }
    if begins_with(s, seq![c]) {
        assert(s.subrange(0, 1)[0] == s[0]);
    }
}

/// The way to a child as it stands in a link: relative, and without a
/// fragment, a query or a scheme.
proof fn url_is_plain(url: Seq<char>)
    requires
        url.len() > 0,
        url[0] != '/',
        lacks(url, '#'),
        lacks(url, '?'),
        forall|i: int|
            0 <= i < url.len() - 1 && #[trigger] url[i] == '/' ==> url[i + 1] != '/',
    ensures
        url_path(url) == url,
        !begins_with(url, "#"@),
        !has_text(url, "://"@),
        !is_absolute(url),
{
    reveal_strlit("#");
    reveal_strlit("://");
    nothing_is_cut(url, '#');
    nothing_is_cut(url, '?');
    assert("#"@ =~= seq!['#']);
    if has_text(url, "://"@) {
        let i = choose|i: int| occurs_at(url, "://"@, i);
        assert(url.subrange(i, i + 3)[1] == url[i + 1]);
        assert(url.subrange(i, i + 3)[2] == url[i + 2]);
        assert(url[i + 1] == '/');
    }
}

/// The components of the way, `offset` components after its start.
proof fn steps_lead_to_file(
    parts: Seq<ComponentModel>,
    offset: int,
    directory: Seq<Seq<char>>,
    file: Seq<Seq<char>>,
)
    requires
        0 <= offset,
        ({
            let steps = relative_steps(directory, file);
            let up = directory.len() - shared_from(directory, file, 0);
            &&& parts.len() == offset + steps.len()
            &&& forall|k: int|
                0 <= k < steps.len() ==> #[trigger] parts[offset + k] == (if k < up {
                    ComponentModel::ParentDir
                } else {
                    ComponentModel::Normal(steps[k])
                })
        }),
    ensures
        walk_from(parts, offset, directory) == Ok::<Seq<Seq<char>>, ChildUrlProblem>(file),
{
    shared_names_agree(directory, file, 0);
    let shared = shared_from(directory, file, 0);
    let up = directory.len() - shared;
    let steps = relative_steps(directory, file);
    assert forall|k: int| offset <= k < offset + up implies (#[trigger] parts[k]) is ParentDir by {
        assert(parts[offset + (k - offset)] is ParentDir);
    }
    way_up(parts, offset, up, directory, 0);
    assert(directory.take(directory.len() as int) =~= directory);
    assert forall|k: int| offset + up <= k < parts.len() implies (#[trigger] parts[k]) is Normal by {
        assert(parts[offset + (k - offset)] is Normal);
    }
    way_down(parts, offset + up, directory.take(shared));
    let tail = Seq::new(
        (parts.len() - (offset + up)) as nat,
        |k: int| parts[offset + up + k]->Normal_0,
    );
    assert forall|k: int| 0 <= k < tail.len() implies tail[k] == file[shared + k] by {
        assert(parts[offset + (up + k)] == ComponentModel::Normal(steps[up + k]));
        assert(steps[up + k] == file.skip(shared)[k]);
    }
    assert(directory.take(shared) + tail =~= file);
}

/// A link from a parent to a child leads to the child. A `#` or `?` in the
/// child's path would end the path in the link.
pub proof fn relative_urls_lead_to_child(parent: Seq<char>, child: Seq<char>)
    requires
        is_plan_markdown(parent),
        is_plan_markdown(child),
        lacks(child, '#'),
        lacks(child, '?'),
    ensures
        child_url_target(parent, relative_url(parent, child)) == Ok::<
            Option<Seq<char>>,
            ChildUrlProblem,
        >(Some(path_key(child))),
        lacks(child, ')') ==> lacks(relative_url(parent, child), ')'),
        lacks(child, '\n') ==> lacks(relative_url(parent, child), '\n'),
{
    reveal_strlit("..");
    let above = components(parent).drop_last();
    let directory = names(above);
    let file = names(components(child));
    let steps = relative_steps(directory, file);
    let relative = joined(steps, "/"@);
    let url = relative_url(parent, child);
    assert(all_normal(above)) by {
        assert forall|k: int| 0 <= k < above.len() implies (#[trigger] above[k]) is Normal by {
            assert(above[k] == components(parent)[k]);
        }
    }
    plain_names_of_normal(above, 0, Seq::empty());
    assert(Seq::<Seq<char>>::empty() + names(above).skip(0) =~= directory);
    assert(components(parent).last() is Normal);
    assert(directory_names(parent) == Some(directory));
    shared_names_agree(directory, file, 0);
    if steps.len() == 0 {
        empty_way_leads_nowhere_else();
        assert(steps =~= Seq::empty());
        assert(!begins_with(relative, ".."@));
        assert(url =~= "./"@);
        assert(directory =~= file);
        assert(walk_from(components(url), 1, directory) == Ok::<Seq<Seq<char>>, ChildUrlProblem>(
            directory,
        ));
    } else {
        steps_are_read_back(parent, child, directory, file);
    }
}

proof fn steps_are_read_back(
    parent: Seq<char>,
    child: Seq<char>,
    directory: Seq<Seq<char>>,
    file: Seq<Seq<char>>,
)
    requires
        is_plan_markdown(parent),
        is_plan_markdown(child),
        lacks(child, '#'),
        lacks(child, '?'),
        directory == names(components(parent).drop_last()),
        directory_names(parent) == Some(directory),
        file == names(components(child)),
        relative_steps(directory, file).len() > 0,
    ensures
        child_url_target(parent, relative_url(parent, child)) == Ok::<
            Option<Seq<char>>,
            ChildUrlProblem,
        >(Some(path_key(child))),
        lacks(child, ')') ==> lacks(relative_url(parent, child), ')'),
        lacks(child, '\n') ==> lacks(relative_url(parent, child), '\n'),
{
    reveal_strlit("..");
    reveal_strlit(".");
    reveal_strlit("./");
    let steps = relative_steps(directory, file);
    let relative = joined(steps, "/"@);
    let url = relative_url(parent, child);
    path_names_are_names(child);
    shared_names_agree(directory, file, 0);
    let shared = shared_from(directory, file, 0);
    let up = directory.len() - shared;
    assert forall|k: int| 0 <= k < steps.len() implies (#[trigger] steps[k]).len() > 0 && lacks(
        steps[k],
        '/',
    ) && steps[k] != "."@ && (if k < up {
        steps[k] == ".."@
    } else {
        is_name(steps[k]) && is_made_of(steps[k], child)
    }) by {
        if k >= up {
            assert(steps[k] == file[shared + (k - up)]);
        }
    }
    steps_lack(steps, child, up, '#');
    steps_lack(steps, child, up, '?');
    joined_names_are_tidy(steps, '#');
    joined_names_are_tidy(steps, '?');
    if lacks(child, ')') {
        steps_lack(steps, child, up, ')');
        joined_names_are_tidy(steps, ')');
    }
    if lacks(child, '\n') {
        steps_lack(steps, child, up, '\n');
        joined_names_are_tidy(steps, '\n');
    }
    pieces_of_joined_names(steps);
    assert forall|k: int| 0 <= k < steps.len() implies piece_component(
        #[trigger] steps[k],
        k,
    ) is Some by {}
    counted_components(steps, 0);
    if begins_with(relative, ".."@) {
        assert(url == relative);
        url_is_plain(url);
        let parts = components(url);
        assert forall|k: int| 0 <= k < steps.len() implies #[trigger] parts[0 + k] == (if k < up {
            ComponentModel::ParentDir
        } else {
            ComponentModel::Normal(steps[k])
        }) by {
            assert(steps[k].len() > 0);
        }
        steps_lead_to_file(parts, 0, directory, file);
    } else {
        let all = seq!["."@] + steps;
        assert(up == 0) by {
            if up > 0 {
                assert(steps[0] == ".."@);
                starts_with_first_name(steps);
            }
        }
        dot_comes_first(steps);
        assert(url =~= joined(all, "/"@));
        assert forall|k: int| 0 <= k < all.len() implies lacks(#[trigger] all[k], '/') by {
            if k > 0 {
                assert(all[k] == steps[k - 1]);
            }
        }
        pieces_of_joined_names(all);
        assert forall|k: int| 0 <= k < all.len() implies piece_component(
            #[trigger] all[k],
            k,
        ) is Some by {
            if k > 0 {
                assert(all[k] == steps[k - 1]);
            }
        }
        counted_components(all, 0);
        assert forall|i: int| 0 <= i < url.len() - 1 && #[trigger] url[i] == '/' implies url[i + 1]
            != '/' by {
            if i >= 2 {
                assert(url[i] == relative[i - 2]);
                assert(url[i + 1] == relative[i - 1]);
            } else if i == 1 {
                assert(url[2] == relative[0]);
            }
        }
        assert(lacks(url, '#') && lacks(url, '?')) by {
            assert forall|i: int| 0 <= i < url.len() implies #[trigger] url[i] != '#' && url[i]
                != '?' by {
                if i >= 2 {
                    assert(url[i] == relative[i - 2]);
                }
            }
        }
        assert(lacks(child, ')') ==> lacks(url, ')')) by {
            if lacks(child, ')') {
                assert forall|i: int| 0 <= i < url.len() implies #[trigger] url[i] != ')' by {
                    if i >= 2 {
                        assert(url[i] == relative[i - 2]);
                    }
                }
            }
        }
        assert(lacks(child, '\n') ==> lacks(url, '\n')) by {
            if lacks(child, '\n') {
                assert forall|i: int| 0 <= i < url.len() implies #[trigger] url[i] != '\n' by {
                    if i >= 2 {
                        assert(url[i] == relative[i - 2]);
                    }
                }
            }
        }
        url_is_plain(url);
        let parts = components(url);
        assert(parts[0] is CurDir);
        assert forall|k: int| 0 <= k < steps.len() implies #[trigger] parts[1 + k] == (if k < up {
            ComponentModel::ParentDir
        } else {
            ComponentModel::Normal(steps[k])
        }) by {
            assert(all[k + 1] == steps[k]);
            assert(steps[k].len() > 0);
        }
        steps_lead_to_file(parts, 1, directory, file);
    }
}

proof fn starts_with_first_name(parts: Seq<Seq<char>>)
    requires
        parts.len() > 0,
    ensures
        begins_with(joined(parts, "/"@), parts[0]),
    decreases parts.len(),
{
    if parts.len() == 1 {
        assert(parts[0].subrange(0, parts[0].len() as int) =~= parts[0]);
    } else {
        let front = parts.drop_last();
        starts_with_first_name(front);
        let before = joined(front, "/"@);
        let n = parts[0].len() as int;
        assert(joined(parts, "/"@).subrange(0, n) =~= before.subrange(0, n));
    }
}

proof fn dot_comes_first(parts: Seq<Seq<char>>)
    requires
        parts.len() > 0,
    ensures
        joined(seq!["."@] + parts, "/"@) == "./"@ + joined(parts, "/"@),
    decreases parts.len(),
{
    reveal_strlit(".");
    reveal_strlit("/");
    reveal_strlit("./");
    let all = seq!["."@] + parts;
    assert("./"@ =~= "."@ + "/"@);
    if parts.len() == 1 {
        assert(all.drop_last() =~= seq!["."@]);
        assert(joined(seq!["."@], "/"@) == "."@);
        assert(joined(all, "/"@) =~= "./"@ + joined(parts, "/"@));
    } else {
        dot_comes_first(parts.drop_last());
        assert(all.drop_last() =~= seq!["."@] + parts.drop_last());
        assert(joined(all, "/"@) =~= "./"@ + joined(parts, "/"@));
    }
}

proof fn empty_way_leads_nowhere_else()
    ensures
        joined(Seq::<Seq<char>>::empty(), "/"@) == Seq::<char>::empty(),
        components("./"@) == seq![ComponentModel::CurDir],
        url_path("./"@) == "./"@,
        !begins_with("./"@, "#"@),
        !has_text("./"@, "://"@),
        !is_absolute("./"@),
        lacks("./"@, ')'),
        lacks("./"@, '\n'),
{
    reveal_strlit("./");
    reveal_strlit("/");
    reveal_strlit(".");
    let all = seq!["."@, Seq::<char>::empty()];
    assert(all.drop_last() =~= seq!["."@]);
    assert(joined(seq!["."@], "/"@) == "."@);
    assert(joined(all, "/"@) =~= "./"@);
    pieces_of_joined_names(all);
    assert(components_from(all, 2) =~= Seq::empty());
    assert(components_from(all, 1) =~= Seq::empty());
    assert(components_from(all, 0) =~= seq![ComponentModel::CurDir]);
    url_is_plain("./"@);
}

proof fn steps_lack(steps: Seq<Seq<char>>, child: Seq<char>, up: int, c: char)
    requires
        c != '/',
        c != '.',
        lacks(child, c),
        forall|k: int|
            0 <= k < steps.len() ==> (#[trigger] steps[k]).len() > 0 && lacks(steps[k], '/') && (
            if k < up {
                steps[k] == ".."@
            } else {
                is_made_of(steps[k], child)
            }),
    ensures
        forall|k: int|
            0 <= k < steps.len() ==> (#[trigger] steps[k]).len() > 0 && lacks(steps[k], '/')
                && lacks(steps[k], c),
{
    reveal_strlit("..");
    assert forall|k: int| 0 <= k < steps.len() implies (#[trigger] steps[k]).len() > 0 && lacks(
        steps[k],
        '/',
    ) && lacks(steps[k], c) by {
        if k >= up {
            let step = steps[k];
            assert forall|i: int| 0 <= i < step.len() implies #[trigger] step[i] != c by {
                assert(child.contains(step[i]));
            }
        }
    }
}

// ---------------------------------------------------------------------
// Links as lines
// ---------------------------------------------------------------------
proof fn first_is_found(s: Seq<char>, pat: Seq<char>, i: int, k: int)
    requires
        0 <= i <= k,
        occurs_at(s, pat, k),
        forall|j: int| i <= j < k ==> !occurs_at(s, pat, j),
    ensures
        find_from(s, pat, i) == Some(k),
    decreases k - i,
{
    if i < k {
        first_is_found(s, pat, i + 1, k);
    }
}

proof fn label_does_not_end_early(label: Seq<char>, rest: Seq<char>, j: int)
    requires
        !has_text(label, "]("@),
        0 <= j < label.len(),
    ensures
        !occurs_at(label + "]("@ + rest, "]("@, j),
{
    reveal_strlit("](");
    let text = label + "]("@ + rest;
    if occurs_at(text, "]("@, j) {
        if j + 2 <= label.len() {
            assert(label.subrange(j, j + 2) =~= text.subrange(j, j + 2));
            assert(occurs_at(label, "]("@, j));
        } else {
            assert(text.subrange(j, j + 2)[1] == text[j + 1]);
            assert(text[label.len() as int] == "]("@[0]);
        }
    }
}

proof fn label_is_cut(label: Seq<char>, rest: Seq<char>)
    requires
        !has_text(label, "]("@),
    ensures
        cut_at(label + "]("@ + rest, "]("@) == Some((label, rest)),
{
    let text = label + "]("@ + rest;
    let k = label.len() as int;
    assert("]("@.len() == 2) by {
        reveal_strlit("](");
    }
    assert(text.subrange(k, k + 2) =~= "]("@);
    assert forall|j: int| 0 <= j < k implies !occurs_at(text, "]("@, j) by {
        label_does_not_end_early(label, rest, j);
    }
    first_is_found(text, "]("@, 0, k);
    assert(text.take(k) =~= label);
    assert(text.skip(k + 2) =~= rest);
}

proof fn target_is_cut(url: Seq<char>)
    requires
        lacks(url, ')'),
    ensures
        cut_at(url + ")"@, ")"@) == Some((url, Seq::<char>::empty())),
{
    reveal_strlit(")");
    let text = url + ")"@;
    let k = url.len() as int;
    assert(text.subrange(k, k + 1) =~= ")"@);
    assert forall|j: int| 0 <= j < k implies !occurs_at(text, ")"@, j) by {
        if occurs_at(text, ")"@, j) {
            assert(text.subrange(j, j + 1)[0] == text[j]);
            assert(text[j] == url[j]);
        }
    }
    first_is_found(text, ")"@, 0, k);
    assert(text.take(k) =~= url);
    assert(text.skip(k + 1) =~= Seq::empty());
}

proof fn rendered_link_is_one_line(label: Seq<char>, url: Seq<char>)
    requires
        lacks(label, '\n'),
        lacks(url, '\n'),
    ensures
        lacks(rendered_link(label, url), '\n'),
{
    reveal_strlit("- [");
    reveal_strlit("](");
    reveal_strlit(")");
    let line = rendered_link(label, url);
    let k = label.len();
    let m = url.len();
    assert forall|i: int| 0 <= i < line.len() implies #[trigger] line[i] != '\n' by {
        if i < 3 {
            assert(line[i] == "- ["@[i]);
        } else if i < 3 + k {
            assert(line[i] == label[i - 3]);
        } else if i < 3 + k + 2 {
            assert(line[i] == "]("@[i - 3 - k]);
        } else if i < 3 + k + 2 + m {
            assert(line[i] == url[i - 3 - k - 2]);
        } else {
            assert(line[i] == ")"@[0]);
        }
    }
}

/// A link that was rendered is read as what it was rendered from. The label
/// may not hold what ends a label, nor the target what ends a target.
pub proof fn rendered_links_read_back(label: Seq<char>, url: Seq<char>)
    requires
        !has_text(label, "]("@),
        lacks(url, ')'),
    ensures
        link_of_line(rendered_link(label, url)) == Some((label, url)),
        without_line_end(rendered_link(label, url).push('\n')) == rendered_link(label, url),
        begins_with(rendered_link(label, url), "- ["@),
{
    reveal_strlit("- [");
    reveal_strlit(")");
    let line = rendered_link(label, url);
    assert(line[0] == '-');
    assert(line.last() == ')');
    line_feed_is_trimmed(line);
    assert(line.push('\n').drop_last() =~= line);
    assert(line.subrange(0, 3) =~= "- ["@);
    assert(line.skip(3) =~= label + "]("@ + (url + ")"@));
    label_is_cut(label, url + ")"@);
    target_is_cut(url);
}

/// The row stands in the markdown of the parent as it was read, and is read
/// so again.
pub open spec fn reads_back(parent: Seq<char>, row: ChildLinkRowModel) -> bool {
    &&& link_row(parent, row.rendered_line.push('\n')) == Ok::<
        Option<ChildLinkRowModel>,
        RefineRewriteErrorModel,
    >(Some(row))
    &&& begins_with(row.rendered_line, "- ["@)
    &&& lacks(row.rendered_line, '\n')
}

/// A link that was read from a line reads back.
pub proof fn links_that_were_read_read_back(parent: Seq<char>, line: Seq<char>)
    requires
        is_line(line),
    ensures
        link_row(parent, line) matches Ok(Some(row)) ==> reads_back(parent, row),
{
    if let Ok(Some(row)) = link_row(parent, line) {
        let bare = without_line_end(line);
        let text = trimmed(bare);
        let (label, url) = link_of_line(bare)->0;
        assert(lacks(bare, '\n'));
        assert(lacks(text, '\n')) by {
            trimmed_is_part(bare);
            let from = skip_space(bare, 0);
            assert forall|i: int| 0 <= i < text.len() implies #[trigger] text[i] != '\n' by {
                assert(text[i] == bare[from + i]);
            }
        }
        reveal_strlit("- [");
        reveal_strlit("](");
        reveal_strlit(")");
        let start = text.skip(3);
        assert(lacks(start, '\n')) by {
            assert forall|i: int| 0 <= i < start.len() implies #[trigger] start[i] != '\n' by {
                assert(start[i] == text[i + 3]);
            }
        }
        find_is_least(start, "]("@, 0);
        let k = find_from(start, "]("@, 0)->0;
        assert(label == start.take(k));
        assert(!has_text(label, "]("@)) by {
            if has_text(label, "]("@) {
                let j = choose|j: int| occurs_at(label, "]("@, j);
                assert(label.subrange(j, j + 2) =~= start.subrange(j, j + 2));
                assert(occurs_at(start, "]("@, j));
            }
        }
        assert(lacks(label, '\n')) by {
            assert forall|i: int| 0 <= i < label.len() implies #[trigger] label[i] != '\n' by {
                assert(label[i] == start[i]);
            }
        }
        let rest = start.skip(k + 2);
        find_is_least(rest, ")"@, 0);
        let m = find_from(rest, ")"@, 0)->0;
        assert(url == rest.take(m));
        assert(lacks(url, ')')) by {
            assert forall|i: int| 0 <= i < url.len() implies #[trigger] url[i] != ')' by {
                if url[i] == ')' {
                    assert(url[i] == rest[i]);
                    assert(rest.subrange(i, i + 1) =~= ")"@);
                    assert(occurs_at(rest, ")"@, i));
                }
            }
        }
        assert(lacks(url, '\n')) by {
            assert forall|i: int| 0 <= i < url.len() implies #[trigger] url[i] != '\n' by {
                assert(url[i] == rest[i]);
                assert(rest[i] == start[i + k + 2]);
            }
        }
        rendered_links_read_back(label, url);
        rendered_link_is_one_line(label, url);
    }
}

/// What is left of a text without its white space is a part of it.
pub proof fn trimmed_is_part(s: Seq<char>)
    ensures
        trimmed(s).len() > 0 ==> trimmed(s) == s.subrange(
            skip_space(s, 0),
            space_start(s, s.len() as int),
        ) && 0 <= skip_space(s, 0) <= space_start(s, s.len() as int) <= s.len(),
{
    space_bounds(s, 0);
    space_start_bounds(s, s.len() as int);
}

/// Skipping white space stays within the text.
pub proof fn space_bounds(s: Seq<char>, i: int)
    requires
        0 <= i <= s.len(),
    ensures
        i <= skip_space(s, i) <= s.len(),
    decreases s.len() - i,
{
    if i < s.len() && is_space(s[i]) {
        space_bounds(s, i + 1);
    }
}

/// Cutting white space off stays within the text.
pub proof fn space_start_bounds(s: Seq<char>, n: int)
    requires
        0 <= n <= s.len(),
    ensures
        0 <= space_start(s, n) <= n,
    decreases n,
{
    if n > 0 && is_space(s[n - 1]) {
        space_start_bounds(s, n - 1);
    }
}

/// A link that is written for a child reads back and leads to the child.
pub proof fn new_links_read_back(parent: Seq<char>, child: Seq<char>, label: Seq<char>)
    requires
        is_plan_markdown(parent),
        is_plan_markdown(child),
        lacks(child, '#'),
        lacks(child, '?'),
        lacks(child, ')'),
        lacks(child, '\n'),
        !has_text(label, "]("@),
        lacks(label, '\n'),
    ensures
        reads_back(
            parent,
            ChildLinkRowModel {
                canonical_path: path_key(child),
                rendered_line: rendered_link(label, relative_url(parent, child)),
            },
        ),
{
    relative_urls_lead_to_child(parent, child);
    path_key_is_same_path(child);
    rendered_links_read_back(label, relative_url(parent, child));
    rendered_link_is_one_line(label, relative_url(parent, child));
}

// ---------------------------------------------------------------------
// The section of links
// ---------------------------------------------------------------------
/// The text with a line feed at its end.
pub open spec fn ended(text: Seq<char>) -> Seq<char> {
    text.push('\n')
}

/// The rows as lines.
pub open spec fn ended_rows(rows: Seq<Seq<char>>) -> Seq<Seq<char>> {
    Seq::new(rows.len(), |i: int| ended(rows[i]))
}

/// The row is a list item on one line.
pub open spec fn is_item(row: Seq<char>) -> bool {
    begins_with(row, "- ["@) && lacks(row, '\n')
}

/// The lines of a section with these rows.
pub open spec fn section_lines(rows: Seq<Seq<char>>) -> Seq<Seq<char>> {
    seq![ended("## Child Nodes"@), ended(Seq::empty())] + ended_rows(rows)
}

proof fn rows_are_text_lines(rows: Seq<Seq<char>>, n: int)
    requires
        0 <= n <= rows.len(),
    ensures
        text_lines(rows, n) == concat_all(ended_rows(rows).take(n)),
    decreases n,
{
    reveal_strlit("\n");
    let all = ended_rows(rows);
    if n > 0 {
        rows_are_text_lines(rows, n - 1);
        assert(all.take(n).drop_last() =~= all.take(n - 1));
        assert(all.take(n).last() == ended(rows[n - 1]));
        assert(text_lines(rows, n) =~= concat_all(all.take(n)));
    } else {
        assert(text_lines(rows, n) =~= concat_all(all.take(n)));
    }
}

proof fn section_is_its_lines(rows: Seq<Seq<char>>)
    requires
        forall|k: int| 0 <= k < rows.len() ==> is_item(#[trigger] rows[k]),
    ensures
        rendered_section(rows) == concat_all(section_lines(rows)),
        lines_of(rendered_section(rows)) == section_lines(rows),
        rendered_section(rows).len() > 0,
        rendered_section(rows).last() == '\n',
{
    reveal_strlit("## Child Nodes");
    reveal_strlit("## Child Nodes\n\n");
    let head = seq![ended("## Child Nodes"@), ended(Seq::empty())];
    let items = ended_rows(rows);
    let all = section_lines(rows);
    rows_are_text_lines(rows, rows.len() as int);
    assert(items.take(rows.len() as int) =~= items);
    concat_all_splits(head, items);
    assert(head.drop_last() =~= seq![ended("## Child Nodes"@)]);
    assert(head.drop_last().drop_last() =~= Seq::empty());
    assert(concat_all(Seq::<Seq<char>>::empty()) == Seq::<char>::empty());
    assert(concat_all(head.drop_last()) =~= ended("## Child Nodes"@));
    assert(concat_all(head) =~= "## Child Nodes\n\n"@);
    assert forall|k: int| 0 <= k < all.len() implies is_full_line(#[trigger] all[k]) by {
        if k >= 2 {
            assert(all[k] == ended(rows[k - 2]));
            assert(is_item(rows[k - 2]));
            let line = ended(rows[k - 2]);
            assert forall|i: int| 0 <= i < line.len() - 1 implies #[trigger] line[i] != '\n' by {
                assert(line[i] == rows[k - 2][i]);
            }
        } else if k == 0 {
            let line = ended("## Child Nodes"@);
            assert forall|i: int| 0 <= i < line.len() - 1 implies #[trigger] line[i] != '\n' by {
                assert(line[i] == "## Child Nodes"@[i]);
            }
        }
    }
    lines_of_joined_lines(all);
    assert(concat_all(all) == concat_all(all.drop_last()) + all.last());
    assert(is_full_line(all[all.len() - 1]));
}

proof fn item_is_no_section(row: Seq<char>)
    requires
        is_item(row),
    ensures
        !is_next_section(ended(row)),
{
    reveal_strlit("- [");
    reveal_strlit("## ");
    let line = ended(row);
    assert(row.subrange(0, 3)[0] == row[0]);
    assert(line[0] == '-');
    assert(trimmed_start(line) =~= line);
    if begins_with(line, "## "@) {
        assert(line.subrange(0, 3)[0] == line[0]);
    }
}

proof fn blank_line_is_no_section()
    ensures
        !is_next_section(ended(Seq::empty())),
        !is_section_heading(ended(Seq::empty())),
        link_of_line(without_line_end(ended(Seq::empty()))) is None,
{
    reveal_strlit("## ");
    reveal_strlit("- [");
    reveal_strlit("## Child Nodes");
    let line = ended(Seq::empty());
    assert(line[0] == '\n');
    assert(skip_space(line, 1) == 1);
    assert(skip_space(line, 0) == 1);
    assert(trimmed_start(line).len() == 0);
    assert(space_start(line, 0) == 0);
    assert(space_start(line, 1) == 0);
    assert(trimmed(line).len() == 0);
    assert(line.drop_last() =~= Seq::empty());
    assert(trimmed(Seq::<char>::empty()).len() == 0);
}

/// The heading of the section is the first line that is one.
pub proof fn heading_is_first(lines: Seq<Seq<char>>, i: int)
    requires
        0 <= i <= lines.len(),
    ensures
        match heading_from(lines, i) {
            Some(h) => i <= h < lines.len() && is_section_heading(lines[h]) && forall|k: int|
                i <= k < h ==> !is_section_heading(#[trigger] lines[k]),
            None => forall|k: int|
                i <= k < lines.len() ==> !is_section_heading(#[trigger] lines[k]),
        },
    decreases lines.len() - i,
{
    if i < lines.len() && !is_section_heading(lines[i]) {
        heading_is_first(lines, i + 1);
    }
}

proof fn heading_is_found(lines: Seq<Seq<char>>, i: int, h: int)
    requires
        0 <= i <= h < lines.len(),
        is_section_heading(lines[h]),
        forall|k: int| i <= k < h ==> !is_section_heading(#[trigger] lines[k]),
    ensures
        heading_from(lines, i) == Some(h),
    decreases h - i,
{
    if i < h {
        assert(!is_section_heading(lines[i]));
        heading_is_found(lines, i + 1, h);
    }
}

/// The section ends before the next one, or with the text.
pub proof fn section_end_is_first(lines: Seq<Seq<char>>, i: int)
    requires
        0 <= i <= lines.len(),
    ensures
        i <= section_end_from(lines, i) <= lines.len(),
        section_end_from(lines, i) < lines.len() ==> is_next_section(
            lines[section_end_from(lines, i)],
        ),
    decreases lines.len() - i,
{
    if i < lines.len() && !is_next_section(lines[i]) {
        section_end_is_first(lines, i + 1);
    }
}

proof fn section_end_is_found(lines: Seq<Seq<char>>, i: int, e: int)
    requires
        0 <= i <= e <= lines.len(),
        e < lines.len() ==> is_next_section(lines[e]),
        forall|k: int| i <= k < e ==> !is_next_section(#[trigger] lines[k]),
    ensures
        section_end_from(lines, i) == e,
    decreases e - i,
{
    if i < e {
        assert(!is_next_section(lines[i]));
        section_end_is_found(lines, i + 1, e);
    }
}

/// The section stands behind lines that hold no heading of it, and before
/// another section or the end.
proof fn section_is_found(
    before: Seq<Seq<char>>,
    rows: Seq<Seq<char>>,
    after: Seq<Seq<char>>,
)
    requires
        forall|k: int| 0 <= k < rows.len() ==> is_item(#[trigger] rows[k]),
        forall|k: int| 0 <= k < before.len() ==> !is_section_heading(#[trigger] before[k]),
        after.len() > 0 ==> is_next_section(after[0]),
    ensures
        child_section(before + section_lines(rows) + after) == Some(
            (before.len() as int, (before.len() + 2 + rows.len()) as int),
        ),
{
    let lines = before + section_lines(rows) + after;
    let h = before.len() as int;
    let e = (h + 2 + rows.len()) as int;
    reveal_strlit("## Child Nodes");
    line_feed_is_trimmed("## Child Nodes"@);
    assert(lines[h] == section_lines(rows)[0]);
    assert forall|k: int| 0 <= k < h implies !is_section_heading(#[trigger] lines[k]) by {
        assert(lines[k] == before[k]);
    }
    heading_is_found(lines, 0, h);
    blank_line_is_no_section();
    assert forall|k: int| h + 1 <= k < e implies !is_next_section(#[trigger] lines[k]) by {
        assert(lines[k] == section_lines(rows)[k - h]);
        if k > h + 1 {
            assert(lines[k] == ended(rows[k - h - 2]));
            item_is_no_section(rows[k - h - 2]);
        }
    }
    if e < lines.len() {
        assert(lines[e] == after[0]);
    }
    section_end_is_found(lines, h + 1, e);
}

/// What stands before the section, as lines.
pub open spec fn lines_before_section(markdown: Seq<char>) -> Seq<Seq<char>> {
    let lines = lines_of(markdown);
    match child_section(lines) {
        Some((heading, end)) => lines.subrange(0, heading),
        None => lines_of(
            if closes_with(markdown, "\n"@) {
                markdown + "\n"@
            } else {
                markdown + "\n"@ + "\n"@
            },
        ),
    }
}

/// What stands behind the section, as lines.
pub open spec fn lines_after_section(markdown: Seq<char>) -> Seq<Seq<char>> {
    let lines = lines_of(markdown);
    match child_section(lines) {
        Some((heading, end)) => lines.subrange(end, lines.len() as int),
        None => Seq::empty(),
    }
}

proof fn trimming_ignores_line_feed(line: Seq<char>)
    ensures
        trimmed(ended(line)) == trimmed(line),
{
    let long = ended(line);
    let n = line.len() as int;
    skip_with_line_feed(line, 0);
    space_start_with_line_feed(line, n);
    space_bounds(line, 0);
    space_start_bounds(line, n);
    assert(long[n] == '\n');
    assert(space_start(long, n + 1) == space_start(line, n));
    let from = skip_space(line, 0);
    let to = space_start(line, n);
    if from < n {
        if from < to {
            assert(long.subrange(from, to) =~= line.subrange(from, to));
        }
    } else {
        all_space(line, 0);
        all_space_back(line, n);
    }
}

proof fn skip_with_line_feed(line: Seq<char>, i: int)
    requires
        0 <= i <= line.len(),
    ensures
        skip_space(ended(line), i) == (if skip_space(line, i) < line.len() {
            skip_space(line, i)
        } else {
            (line.len() + 1) as int
        }),
    decreases line.len() - i,
{
    let long = ended(line);
    if i < line.len() {
        assert(long[i] == line[i]);
        if is_space(line[i]) {
            skip_with_line_feed(line, i + 1);
        }
    } else {
        assert(long[i] == '\n');
        assert(skip_space(long, i + 1) == i + 1);
    }
}

proof fn space_start_with_line_feed(line: Seq<char>, n: int)
    requires
        0 <= n <= line.len(),
    ensures
        space_start(ended(line), n) == space_start(line, n),
    decreases n,
{
    if n > 0 {
        assert(ended(line)[n - 1] == line[n - 1]);
        space_start_with_line_feed(line, n - 1);
    }
}

proof fn all_space(line: Seq<char>, i: int)
    requires
        0 <= i <= line.len(),
        skip_space(line, i) >= line.len(),
    ensures
        forall|k: int| i <= k < line.len() ==> is_space(#[trigger] line[k]),
    decreases line.len() - i,
{
    if i < line.len() {
        assert(is_space(line[i]));
        all_space(line, i + 1);
    }
}

proof fn all_space_back(line: Seq<char>, n: int)
    requires
        0 <= n <= line.len(),
        forall|k: int| 0 <= k < line.len() ==> is_space(#[trigger] line[k]),
    ensures
        space_start(line, n) == 0,
    decreases n,
{
    if n > 0 {
        assert(is_space(line[n - 1]));
        all_space_back(line, n - 1);
    }
}

/// Without a section, none of the lines that a new one comes after is its
/// heading.
proof fn no_heading_before_new_section(markdown: Seq<char>)
    requires
        child_section(lines_of(markdown)) is None,
    ensures
        forall|k: int|
            0 <= k < lines_before_section(markdown).len() ==> !is_section_heading(
                #[trigger] lines_before_section(markdown)[k],
            ),
{
    reveal_strlit("\n");
    let lines = lines_of(markdown);
    heading_is_first(lines, 0);
    blank_line_is_no_section();
    let blank = ended(Seq::empty());
    assert("\n"@ =~= blank);
    full_line_comes_first(blank, Seq::empty());
    assert(blank + Seq::<char>::empty() =~= blank);
    assert(lines_of(Seq::<char>::empty()) =~= Seq::empty());
    assert(lines_of(blank) =~= seq![blank]);
    let before = lines_before_section(markdown);
    if closes_with(markdown, "\n"@) {
        assert(markdown.subrange(markdown.len() - 1, markdown.len() as int)[0] == markdown.last());
        lines_split(markdown, "\n"@);
        assert(before =~= lines + seq![blank]);
        assert forall|k: int| 0 <= k < before.len() implies !is_section_heading(
            #[trigger] before[k],
        ) by {
            if k < lines.len() {
                assert(before[k] == lines[k]);
            }
        }
    } else if markdown.len() == 0 {
        assert(markdown + "\n"@ + "\n"@ =~= blank + blank);
        lines_split(blank, blank);
        assert(before =~= seq![blank, blank]);
    } else {
        let text = markdown + "\n"@;
        lines_are_lines(markdown);
        lines_rebuild_text(markdown);
        assert(lines.len() > 0) by {
            if lines.len() == 0 {
                assert(concat_all(lines) =~= Seq::empty());
            }
        }
        let last = lines.last();
        let front = lines.drop_last();
        assert(last.last() != '\n') by {
            assert(concat_all(lines) == concat_all(front) + last);
            assert(is_line(lines[lines.len() - 1]));
            assert(markdown.last() == last.last());
            if markdown.last() == '\n' {
                assert(markdown.subrange(markdown.len() - 1, markdown.len() as int) =~= "\n"@);
            }
        }
        let closed = front.push(ended(last));
        assert(concat_all(closed) == concat_all(closed.drop_last()) + closed.last());
        assert(closed.drop_last() =~= front);
        assert(concat_all(closed) =~= text);
        assert forall|k: int| 0 <= k < closed.len() implies is_full_line(#[trigger] closed[k]) by {
            if k < front.len() {
                assert(closed[k] == lines[k]);
            } else {
                assert(is_line(lines[lines.len() - 1]));
                let line = ended(last);
                assert forall|i: int| 0 <= i < line.len() - 1 implies #[trigger] line[i]
                    != '\n' by {
                    assert(line[i] == last[i]);
                }
            }
        }
        lines_of_joined_lines(closed);
        assert(text.last() == '\n');
        lines_split(text, "\n"@);
        assert(before =~= closed + seq![blank]);
        assert forall|k: int| 0 <= k < before.len() implies !is_section_heading(
            #[trigger] before[k],
        ) by {
            if k < front.len() {
                assert(before[k] == lines[k]);
            } else if k == front.len() {
                assert(before[k] == ended(last));
                trimming_ignores_line_feed(last);
                assert(!is_section_heading(lines[lines.len() - 1]));
            }
        }
    }
}

/// Rows that were written as the links of a parent stand in its section, and
/// every line outside of the section stays as it is.
pub proof fn section_is_replaced(markdown: Seq<char>, rows: Seq<Seq<char>>)
    requires
        forall|k: int| 0 <= k < rows.len() ==> is_item(#[trigger] rows[k]),
    ensures
        lines_of(with_child_section(markdown, rows)) == lines_before_section(markdown)
            + section_lines(rows) + lines_after_section(markdown),
        child_section(lines_of(with_child_section(markdown, rows))) == Some(
            (
                lines_before_section(markdown).len() as int,
                (lines_before_section(markdown).len() + 2 + rows.len()) as int,
            ),
        ),
{
    let lines = lines_of(markdown);
    let section = rendered_section(rows);
    let before = lines_before_section(markdown);
    let after = lines_after_section(markdown);
    section_is_its_lines(rows);
    heading_is_first(lines, 0);
    match child_section(lines) {
        Some((h, e)) => {
            section_end_is_first(lines, h + 1);
            lines_are_lines(markdown);
            line_ranges_are_lines(lines, 0, h);
            line_ranges_are_lines(lines, e, lines.len() as int);
            let head = concat_all(before);
            let tail = concat_all(after);
            assert(with_child_section(markdown, rows) =~= head + (section + tail));
            lines_split(head, section + tail);
            lines_split(section, tail);
            assert(lines_of(with_child_section(markdown, rows)) =~= before + section_lines(rows)
                + after);
            assert forall|k: int| 0 <= k < before.len() implies !is_section_heading(
                #[trigger] before[k],
            ) by {
                assert(before[k] == lines[k]);
            }
            if after.len() > 0 {
                assert(after[0] == lines[e]);
            }
            section_is_found(before, rows, after);
        },
        None => {
            reveal_strlit("\n");
            no_heading_before_new_section(markdown);
            let head = if closes_with(markdown, "\n"@) {
                markdown + "\n"@
            } else {
                markdown + "\n"@ + "\n"@
            };
            assert(head.last() == '\n');
            assert(with_child_section(markdown, rows) =~= head + section);
            lines_split(head, section);
            assert(lines_of(with_child_section(markdown, rows)) =~= before + section_lines(rows)
                + after);
            section_is_found(before, rows, after);
        },
    }
}

/// The rows as they are written.
pub open spec fn written_rows(rows: Seq<ChildLinkRowModel>) -> Seq<Seq<char>> {
    Seq::new(rows.len(), |i: int| rows[i].rendered_line)
}

proof fn rows_are_read(
    parent: Seq<char>,
    lines: Seq<Seq<char>>,
    rows: Seq<ChildLinkRowModel>,
    start: int,
    i: int,
)
    requires
        0 <= start,
        start + rows.len() <= lines.len(),
        0 <= i <= rows.len(),
        forall|k: int| 0 <= k < rows.len() ==> reads_back(parent, #[trigger] rows[k]),
        forall|k: int|
            0 <= k < rows.len() ==> lines[start + k] == ended(
                (#[trigger] rows[k]).rendered_line,
            ),
    ensures
        link_rows_from(parent, lines, start + i, (start + rows.len()) as int, rows.take(i)) == Ok::<
            Seq<ChildLinkRowModel>,
            RefineRewriteErrorModel,
        >(rows),
    decreases rows.len() - i,
{
    if i < rows.len() {
        assert(reads_back(parent, rows[i]));
        assert(lines[start + i] == ended(rows[i].rendered_line));
        assert(rows.take(i).push(rows[i]) =~= rows.take(i + 1));
        rows_are_read(parent, lines, rows, start, i + 1);
    } else {
        assert(rows.take(i) =~= rows);
    }
}

/// The links that were written are the links that are read.
pub proof fn written_links_are_read(
    parent: Seq<char>,
    markdown: Seq<char>,
    rows: Seq<ChildLinkRowModel>,
)
    requires
        forall|k: int| 0 <= k < rows.len() ==> reads_back(parent, #[trigger] rows[k]),
    ensures
        link_rows(parent, with_child_section(markdown, written_rows(rows))) == Ok::<
            Seq<ChildLinkRowModel>,
            RefineRewriteErrorModel,
        >(rows),
{
    let written = written_rows(rows);
    assert forall|k: int| 0 <= k < written.len() implies is_item(#[trigger] written[k]) by {
        assert(reads_back(parent, rows[k]));
    }
    section_is_replaced(markdown, written);
    blank_line_is_no_section();
    let before = lines_before_section(markdown);
    let lines = lines_of(with_child_section(markdown, written));
    let h = before.len() as int;
    assert(lines[h + 1] == section_lines(written)[1]);
    assert forall|k: int| 0 <= k < rows.len() implies lines[h + 2 + k] == ended(
        (#[trigger] rows[k]).rendered_line,
    ) by {
        assert(lines[h + 2 + k] == section_lines(written)[2 + k]);
        assert(section_lines(written)[2 + k] == ended_rows(written)[k]);
    }
    assert(rows.take(0) =~= Seq::empty());
    rows_are_read(parent, lines, rows, h + 2, 0);
}

} // verus!
