//! What the operations on texts come to.
use crate::refine::link_laws::{space_bounds, space_start_bounds};
use crate::runtime::review_laws::{first_word_is_found, last_word_is_found};
use crate::text::{
    ascii_lowered, cut_at, decimal, digit_char, find_from, find_is_least, has_text, is_space,
    joined, occurs_at, pieces_from, pieces_of, replaced, replaced_from, skip_space, space_start,
    text_before, trimmed,
};
use vstd::prelude::*;

verus! {

// ---------------------------------------------------------------------
// Letters and white space
// ---------------------------------------------------------------------
/// A text in lower case has the same characters, but for the capital letters of
/// ASCII, which are small.
pub proof fn capitals_become_small(s: Seq<char>)
    ensures
        ascii_lowered(s).len() == s.len(),
        forall|i: int|
            0 <= i < s.len() ==> if 'A' <= s[i] && s[i] <= 'Z' {
                (#[trigger] ascii_lowered(s)[i]) as u32 == s[i] as u32 + 32
            } else {
                ascii_lowered(s)[i] == s[i]
            },
{
}

/// Every character is white space.
pub open spec fn is_all_space(s: Seq<char>) -> bool {
    forall|i: int| 0 <= i < s.len() ==> is_space(#[trigger] s[i])
}

/// A trimmed text is what is left of the text without the white space at its start
/// and at its end; it neither starts nor ends with any.
pub proof fn trimming_takes_white_space_off(s: Seq<char>)
    ensures
        trimmed(s).len() > 0 ==> !is_space(trimmed(s)[0]) && !is_space(trimmed(s).last()),
        exists|before: Seq<char>, after: Seq<char>|
            #![trigger before + trimmed(s) + after]
            s == before + trimmed(s) + after && is_all_space(before) && is_all_space(after),
{
    let from = skip_space(s, 0);
    let to = space_start(s, s.len() as int);
    space_bounds(s, 0);
    space_start_bounds(s, s.len() as int);
    first_word_is_found(s, 0);
    last_word_is_found(s, s.len() as int);
    if from < to {
        let before = s.take(from);
        let after = s.skip(to);
        assert(s =~= before + trimmed(s) + after);
        assert(is_all_space(before));
        assert(is_all_space(after)) by {
            assert forall|i: int| 0 <= i < after.len() implies is_space(#[trigger] after[i]) by {
                assert(is_space(s[to + i]));
            }
        }
    } else {
        let none = Seq::<char>::empty();
        assert(is_all_space(s)) by {
            assert forall|i: int| 0 <= i < s.len() implies is_space(#[trigger] s[i]) by {
                if i >= from {
                    assert(to <= i);
                }
            }
        }
        assert(s =~= s + trimmed(s) + none);
        assert(s == s + trimmed(s) + none && is_all_space(s) && is_all_space(none));
    }
}

// ---------------------------------------------------------------------
// Order
// ---------------------------------------------------------------------
/// The texts agree in their first `k` characters.
pub open spec fn agree_up_to(a: Seq<char>, b: Seq<char>, k: int) -> bool {
    &&& 0 <= k <= a.len()
    &&& k <= b.len()
    &&& forall|i: int| 0 <= i < k ==> #[trigger] a[i] == b[i]
}

/// A text comes before another exactly where, behind what they have in common, it
/// ends or has the smaller character.
pub proof fn order_is_that_of_the_first_difference(a: Seq<char>, b: Seq<char>)
    ensures
        text_before(a, b) <==> exists|k: int| #[trigger]
            agree_up_to(a, b, k) && k < b.len() && (k == a.len() || a[k] < b[k]),
    decreases a.len(),
{
    if b.len() == 0 {
    } else if a.len() == 0 {
        assert(agree_up_to(a, b, 0));
    } else if a[0] != b[0] {
        assert(agree_up_to(a, b, 0));
        if exists|k: int| #[trigger]
            agree_up_to(a, b, k) && k < b.len() && (k == a.len() || a[k] < b[k]) {
            let k = choose|k: int| #[trigger]
                agree_up_to(a, b, k) && k < b.len() && (k == a.len() || a[k] < b[k]);
            if k > 0 {
                assert(a[0] == b[0]);
            }
        }
    } else {
        let x = a.skip(1);
        let y = b.skip(1);
        order_is_that_of_the_first_difference(x, y);
        if text_before(a, b) {
            let k = choose|k: int| #[trigger]
                agree_up_to(x, y, k) && k < y.len() && (k == x.len() || x[k] < y[k]);
            assert(agree_up_to(a, b, k + 1)) by {
                assert forall|i: int| 0 <= i < k + 1 implies #[trigger] a[i] == b[i] by {
                    if i > 0 {
                        assert(x[i - 1] == y[i - 1]);
                    }
                }
            }
            if k < x.len() {
                assert(a[k + 1] == x[k] && b[k + 1] == y[k]);
            }
        }
        if exists|k: int| #[trigger]
            agree_up_to(a, b, k) && k < b.len() && (k == a.len() || a[k] < b[k]) {
            let k = choose|k: int| #[trigger]
                agree_up_to(a, b, k) && k < b.len() && (k == a.len() || a[k] < b[k]);
            if k == 0 {
                assert(a[0] < b[0]);
            }
            assert(agree_up_to(x, y, k - 1)) by {
                assert forall|i: int| 0 <= i < k - 1 implies #[trigger] x[i] == y[i] by {
                    assert(a[i + 1] == b[i + 1]);
                }
            }
            if k < a.len() {
                assert(a[k] == x[k - 1] && b[k] == y[k - 1]);
            }
        }
    }
}

// ---------------------------------------------------------------------
// Replacing
// ---------------------------------------------------------------------
proof fn occurrences_shift(s: Seq<char>, pat: Seq<char>, n: int, i: int)
    requires
        0 <= n <= s.len(),
        0 <= i,
    ensures
        occurs_at(s.skip(n), pat, i) == occurs_at(s, pat, n + i),
{
    if n + i + pat.len() <= s.len() {
        assert(s.skip(n).subrange(i, i + pat.len()) =~= s.subrange(n + i, n + i + pat.len()));
    }
}

proof fn replacing_shifts(s: Seq<char>, pat: Seq<char>, with: Seq<char>, n: int, i: int)
    requires
        0 <= n <= s.len(),
        0 <= i,
        n + i <= s.len(),
        pat.len() > 0,
    ensures
        replaced_from(s.skip(n), pat, with, i) == replaced_from(s, pat, with, n + i),
    decreases s.len() - n - i,
{
    let t = s.skip(n);
    occurrences_shift(s, pat, n, i);
    if n + i >= s.len() {
        assert(t.skip(i) =~= s.skip(n + i));
    } else if occurs_at(s, pat, n + i) {
        replacing_shifts(s, pat, with, n, i + pat.len());
    } else {
        assert(t[i] == s[n + i]);
        replacing_shifts(s, pat, with, n, i + 1);
    }
}

proof fn nothing_is_replaced_before(
    s: Seq<char>,
    pat: Seq<char>,
    with: Seq<char>,
    i: int,
    k: int,
)
    requires
        0 <= i <= k <= s.len(),
        pat.len() > 0,
        forall|j: int| i <= j < k ==> !occurs_at(s, pat, j),
    ensures
        replaced_from(s, pat, with, i) == s.subrange(i, k) + replaced_from(s, pat, with, k),
    decreases k - i,
{
    if i < k {
        nothing_is_replaced_before(s, pat, with, i + 1, k);
        assert(!occurs_at(s, pat, i));
        assert(s.subrange(i, k) =~= seq![s[i]] + s.subrange(i + 1, k));
        assert(replaced_from(s, pat, with, i) =~= s.subrange(i, k) + replaced_from(
            s,
            pat,
            with,
            k,
        ));
    } else {
        assert(s.subrange(i, k) + replaced_from(s, pat, with, k) =~= replaced_from(
            s,
            pat,
            with,
            k,
        ));
    }
}

/// Where the pattern does not occur nothing is replaced. Else what stands before its
/// first occurrence stays, the new text takes its place, and the same is done to
/// what stands behind it.
pub proof fn replacing_goes_by_occurrences(s: Seq<char>, pat: Seq<char>, with: Seq<char>)
    requires
        pat.len() > 0,
    ensures
        !has_text(s, pat) ==> replaced(s, pat, with) == s,
        forall|k: int|
            #![trigger s.take(k)]
            0 <= k && occurs_at(s, pat, k) && (forall|j: int| 0 <= j < k ==> !occurs_at(s, pat, j))
                ==> replaced(s, pat, with) == s.take(k) + with + replaced(
                s.skip(k + pat.len()),
                pat,
                with,
            ),
{
    if !has_text(s, pat) {
        nothing_is_replaced_before(s, pat, with, 0, s.len() as int);
        assert(s.subrange(0, s.len() as int) + replaced_from(s, pat, with, s.len() as int) =~= s);
    }
    assert forall|k: int|
        #![trigger s.take(k)]
        0 <= k && occurs_at(s, pat, k) && (forall|j: int|
            0 <= j < k ==> !occurs_at(s, pat, j)) implies replaced(s, pat, with) == s.take(k) + with
        + replaced(s.skip(k + pat.len()), pat, with) by {
        nothing_is_replaced_before(s, pat, with, 0, k);
        replacing_shifts(s, pat, with, k + pat.len(), 0);
        assert(s.subrange(0, k) =~= s.take(k));
        assert(s.take(k) + with + replaced(s.skip(k + pat.len()), pat, with) =~= s.take(k) + (with
            + replaced(s.skip(k + pat.len()), pat, with)));
    }
}

// ---------------------------------------------------------------------
// Pieces
// ---------------------------------------------------------------------
proof fn joined_from_the_front(first: Seq<char>, rest: Seq<Seq<char>>, sep: Seq<char>)
    requires
        rest.len() > 0,
    ensures
        joined(seq![first] + rest, sep) == first + sep + joined(rest, sep),
    decreases rest.len(),
{
    let all = seq![first] + rest;
    assert(all.last() == rest.last());
    assert(all.drop_last() =~= seq![first] + rest.drop_last());
    if rest.len() == 1 {
        assert(all.drop_last() =~= seq![first]);
        assert(all.drop_last().len() == 1 && all.drop_last()[0] == first);
        assert(joined(all.drop_last(), sep) == first);
        assert(joined(rest, sep) == rest.last());
        assert(joined(all, sep) =~= first + sep + joined(rest, sep));
    } else {
        joined_from_the_front(first, rest.drop_last(), sep);
        assert(joined(all, sep) =~= first + sep + joined(rest, sep));
    }
}

proof fn pieces_make_up_the_rest(s: Seq<char>, c: char, start: int, i: int)
    requires
        0 <= start <= i <= s.len(),
        forall|j: int| start <= j < i ==> s[j] != c,
    ensures
        pieces_from(s, c, start, i).len() > 0,
        joined(pieces_from(s, c, start, i), seq![c]) == s.skip(start),
        forall|k: int|
            0 <= k < pieces_from(s, c, start, i).len() ==> !(#[trigger] pieces_from(
                s,
                c,
                start,
                i,
            )[k]).contains(c),
    decreases s.len() - i,
{
    let out = pieces_from(s, c, start, i);
    if i >= s.len() {
        assert(s.subrange(start, s.len() as int) =~= s.skip(start));
    } else if s[i] == c {
        let first = s.subrange(start, i);
        let rest = pieces_from(s, c, i + 1, i + 1);
        pieces_make_up_the_rest(s, c, i + 1, i + 1);
        joined_from_the_front(first, rest, seq![c]);
        assert(first + seq![c] + s.skip(i + 1) =~= s.skip(start));
        assert forall|k: int| 0 <= k < out.len() implies !(#[trigger] out[k]).contains(c) by {
            if k > 0 {
                assert(out[k] == rest[k - 1]);
            }
        }
    } else {
        pieces_make_up_the_rest(s, c, start, i + 1);
    }
}

/// The pieces of a text hold no separator, and with one between each two of them
/// they make up the text.
pub proof fn pieces_make_up_the_text(s: Seq<char>, c: char)
    ensures
        joined(pieces_of(s, c), seq![c]) == s,
        forall|k: int|
            0 <= k < pieces_of(s, c).len() ==> !(#[trigger] pieces_of(s, c)[k]).contains(c),
{
    pieces_make_up_the_rest(s, c, 0, 0);
    assert(s.skip(0) =~= s);
}

/// A text is cut at the first occurrence of the pattern, and exactly where there is
/// one; the two parts with the pattern between them make up the text.
pub proof fn texts_are_cut_at_the_first_occurrence(s: Seq<char>, pat: Seq<char>)
    ensures
        match cut_at(s, pat) {
            Some((before, after)) => s == before + pat + after && forall|j: int|
                0 <= j < before.len() ==> !occurs_at(s, pat, j),
            None => forall|j: int| 0 <= j ==> !occurs_at(s, pat, j),
        },
{
    find_is_least(s, pat, 0);
    if let Some(k) = find_from(s, pat, 0) {
        assert(s.subrange(k, k + pat.len()) =~= pat);
        assert(s =~= s.take(k) + pat + s.skip(k + pat.len()));
    }
}

// ---------------------------------------------------------------------
// Numbers
// ---------------------------------------------------------------------
/// The number that digits stand for.
pub open spec fn value_of(digits: Seq<char>) -> int
    decreases digits.len(),
{
    if digits.len() == 0 {
        0
    } else {
        value_of(digits.drop_last()) * 10 + (digits.last() as u32 - '0' as u32)
    }
}

/// A number is written with digits alone that stand for it, and with no zero before
/// the others.
pub proof fn numbers_are_written_in_digits(n: nat)
    ensures
        decimal(n).len() > 0,
        forall|i: int| 0 <= i < decimal(n).len() ==> '0' <= #[trigger] decimal(n)[i] <= '9',
        value_of(decimal(n)) == n,
        n > 0 ==> decimal(n)[0] != '0',
    decreases n,
{
    if n < 10 {
        assert(decimal(n).drop_last() =~= Seq::empty());
        assert(value_of(decimal(n).drop_last()) == 0);
    } else {
        numbers_are_written_in_digits(n / 10);
        let front = decimal(n / 10);
        assert(decimal(n).drop_last() =~= front);
        assert(decimal(n).last() == digit_char(n % 10));
        assert(decimal(n)[0] == front[0]);
        assert forall|i: int| 0 <= i < decimal(n).len() implies '0' <= #[trigger] decimal(n)[i]
            <= '9' by {
            if i < front.len() {
                assert(decimal(n)[i] == front[i]);
            }
        }
    }
}

} // verus!
