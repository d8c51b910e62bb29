//! How a text and its lines fit together.
use crate::text::{concat_all, concat_all_front, lines_from, lines_of, lines_rebuild_text};
use vstd::prelude::*;

verus! {

/// The text is one line: a line feed stands at its end or nowhere.
pub open spec fn is_line(text: Seq<char>) -> bool {
    text.len() > 0 && forall|i: int| 0 <= i < text.len() - 1 ==> #[trigger] text[i] != '\n'
}

/// The text is one line with the line feed that ends it.
pub open spec fn is_full_line(text: Seq<char>) -> bool {
    is_line(text) && text.last() == '\n'
}

/// The texts are lines, and no line but the last lacks its line feed.
pub open spec fn are_lines(parts: Seq<Seq<char>>) -> bool {
    &&& forall|k: int| 0 <= k < parts.len() ==> is_line(#[trigger] parts[k])
    &&& forall|k: int| 0 <= k < parts.len() - 1 ==> is_full_line(#[trigger] parts[k])
}

proof fn lines_from_are_lines(s: Seq<char>, start: int, i: int)
    requires
        0 <= start <= i <= s.len(),
        forall|k: int| start <= k < i ==> #[trigger] s[k] != '\n',
    ensures
        are_lines(lines_from(s, start, i)),
    decreases s.len() - i,
{
    if i < s.len() {
        if s[i] == '\n' {
            lines_from_are_lines(s, i + 1, i + 1);
            let first = s.subrange(start, i + 1);
            let rest = lines_from(s, i + 1, i + 1);
            let all = seq![first] + rest;
            assert(is_full_line(first));
            assert forall|k: int| 0 <= k < all.len() implies is_line(#[trigger] all[k]) by {
                if k > 0 {
                    assert(all[k] == rest[k - 1]);
                }
            }
            assert forall|k: int| 0 <= k < all.len() - 1 implies is_full_line(
                #[trigger] all[k],
            ) by {
                if k > 0 {
                    assert(all[k] == rest[k - 1]);
                }
            }
        } else {
            lines_from_are_lines(s, start, i + 1);
        }
    }
}

/// What a text is cut into are lines.
pub proof fn lines_are_lines(s: Seq<char>)
    ensures
        are_lines(lines_of(s)),
{
    lines_from_are_lines(s, 0, 0);
}

proof fn lines_behind(first: Seq<char>, s: Seq<char>, start: int, i: int)
    requires
        0 <= start <= i <= s.len(),
    ensures
        lines_from(first + s, first.len() + start, first.len() + i) == lines_from(s, start, i),
    decreases s.len() - i,
{
    let all = first + s;
    let n = first.len();
    if i >= s.len() {
        if start < s.len() {
            assert(all.subrange(n + start, all.len() as int) =~= s.subrange(
                start,
                s.len() as int,
            ));
        }
    } else if s[i] == '\n' {
        assert(all[n + i] == s[i]);
        assert(all.subrange(n + start, n + i + 1) =~= s.subrange(start, i + 1));
        lines_behind(first, s, i + 1, i + 1);
    } else {
        assert(all[n + i] == s[i]);
        lines_behind(first, s, start, i + 1);
    }
}

proof fn first_line_is_cut(first: Seq<char>, s: Seq<char>, i: int)
    requires
        is_full_line(first),
        0 <= i < first.len(),
    ensures
        lines_from(first + s, 0, i) == seq![first] + lines_of(s),
    decreases first.len() - i,
{
    let all = first + s;
    assert(all[i] == first[i]);
    if i == first.len() - 1 {
        assert(all.subrange(0, i + 1) =~= first);
        lines_behind(first, s, 0, 0);
    } else {
        first_line_is_cut(first, s, i + 1);
    }
}

proof fn single_line_is_cut(line: Seq<char>, i: int)
    requires
        is_line(line),
        0 <= i < line.len(),
    ensures
        lines_from(line, 0, i) == seq![line],
    decreases line.len() - i,
{
    assert(line.subrange(0, line.len() as int) =~= line);
    if i == line.len() - 1 {
        if line[i] == '\n' {
            assert(lines_from(line, i + 1, i + 1) =~= Seq::empty());
            assert(seq![line] + lines_from(line, i + 1, i + 1) =~= seq![line]);
        } else {
            assert(lines_from(line, 0, i + 1) == seq![line]);
        }
    } else {
        single_line_is_cut(line, i + 1);
    }
}

/// Lines that are put one after the other are what the text is cut into again.
pub proof fn lines_of_joined_lines(parts: Seq<Seq<char>>)
    requires
        are_lines(parts),
    ensures
        lines_of(concat_all(parts)) == parts,
    decreases parts.len(),
{
    if parts.len() == 0 {
        assert(lines_of(concat_all(parts)) =~= parts);
    } else {
        let first = parts[0];
        let rest = parts.skip(1);
        assert(parts =~= seq![first] + rest);
        concat_all_front(first, rest);
        assert(are_lines(rest)) by {
            assert forall|k: int| 0 <= k < rest.len() implies is_line(#[trigger] rest[k]) by {
                assert(rest[k] == parts[k + 1]);
            }
            assert forall|k: int| 0 <= k < rest.len() - 1 implies is_full_line(
                #[trigger] rest[k],
            ) by {
                assert(rest[k] == parts[k + 1]);
            }
        }
        if rest.len() == 0 {
            assert(concat_all(parts) =~= first);
            single_line_is_cut(first, 0);
        } else {
            lines_of_joined_lines(rest);
            first_line_is_cut(first, concat_all(rest), 0);
        }
    }
}

/// Putting lists of texts one after the other puts their texts one after the
/// other.
pub proof fn concat_all_splits(a: Seq<Seq<char>>, b: Seq<Seq<char>>)
    ensures
        concat_all(a + b) == concat_all(a) + concat_all(b),
    decreases b.len(),
{
    if b.len() == 0 {
        assert(a + b =~= a);
        assert(concat_all(a + b) =~= concat_all(a) + concat_all(b));
    } else {
        concat_all_splits(a, b.drop_last());
        assert((a + b).drop_last() =~= a + b.drop_last());
        assert(concat_all(a + b) =~= concat_all(a) + concat_all(b));
    }
}

/// A text that ends in a line feed, or is empty, is made of full lines.
pub proof fn closed_text_has_full_lines(s: Seq<char>)
    requires
        s.len() == 0 || s.last() == '\n',
    ensures
        forall|k: int| 0 <= k < lines_of(s).len() ==> is_full_line(#[trigger] lines_of(s)[k]),
{
    lines_are_lines(s);
    lines_rebuild_text(s);
    let lines = lines_of(s);
    assert forall|k: int| 0 <= k < lines.len() implies is_full_line(#[trigger] lines[k]) by {
        if k == lines.len() - 1 {
            assert(concat_all(lines) == concat_all(lines.drop_last()) + lines.last());
            assert(s.last() == lines.last().last());
        }
    }
}

/// The lines of two texts, of which the first ends in a line feed or is empty,
/// are the lines of the one and the lines of the other.
pub proof fn lines_split(a: Seq<char>, b: Seq<char>)
    requires
        a.len() == 0 || a.last() == '\n',
    ensures
        lines_of(a + b) == lines_of(a) + lines_of(b),
{
    let all = lines_of(a) + lines_of(b);
    lines_are_lines(a);
    lines_are_lines(b);
    closed_text_has_full_lines(a);
    lines_rebuild_text(a);
    lines_rebuild_text(b);
    concat_all_splits(lines_of(a), lines_of(b));
    assert forall|k: int| 0 <= k < all.len() implies is_line(#[trigger] all[k]) by {
        if k >= lines_of(a).len() {
            assert(all[k] == lines_of(b)[k - lines_of(a).len()]);
        } else {
            assert(all[k] == lines_of(a)[k]);
        }
    }
    assert forall|k: int| 0 <= k < all.len() - 1 implies is_full_line(#[trigger] all[k]) by {
        if k >= lines_of(a).len() {
            assert(all[k] == lines_of(b)[k - lines_of(a).len()]);
        } else {
            assert(all[k] == lines_of(a)[k]);
        }
    }
    lines_of_joined_lines(all);
}

/// A full line in front of a text is its first line.
pub proof fn full_line_comes_first(line: Seq<char>, s: Seq<char>)
    requires
        is_full_line(line),
    ensures
        lines_of(line + s) == seq![line] + lines_of(s),
{
    first_line_is_cut(line, s, 0);
}

/// Some of the lines of a text are lines again.
pub proof fn line_ranges_are_lines(lines: Seq<Seq<char>>, from: int, to: int)
    requires
        are_lines(lines),
        0 <= from <= to <= lines.len(),
    ensures
        are_lines(lines.subrange(from, to)),
        lines_of(concat_all(lines.subrange(from, to))) == lines.subrange(from, to),
        to < lines.len() ==> (concat_all(lines.subrange(from, to)).len() == 0 || concat_all(
            lines.subrange(from, to),
        ).last() == '\n'),
{
    let part = lines.subrange(from, to);
    assert forall|k: int| 0 <= k < part.len() implies is_line(#[trigger] part[k]) by {
        assert(part[k] == lines[from + k]);
    }
    assert forall|k: int| 0 <= k < part.len() - 1 implies is_full_line(#[trigger] part[k]) by {
        assert(part[k] == lines[from + k]);
    }
    lines_of_joined_lines(part);
    if to < lines.len() && part.len() > 0 {
        assert(part.last() == lines[to - 1]);
        assert(is_full_line(lines[to - 1]));
        assert(concat_all(part) == concat_all(part.drop_last()) + part.last());
        assert(concat_all(part).last() == part.last().last());
    }
}

} // verus!
