//! Text as a sequence of characters: the string operations that the plan
//! logic is written in, each with its meaning as a spec function.
use vstd::prelude::*;
use vstd::utf8::encode_utf8;

verus! {

/// `String::push` appends one character to the end of the string.
pub assume_specification[ String::push ](s: &mut String, c: char)
    ensures
        final(s)@ == old(s)@.push(c),
;

// ---------------------------------------------------------------------
// Characters
// ---------------------------------------------------------------------
/// The characters with the Unicode property `White_Space`.
pub open spec fn is_space(c: char) -> bool {
    ||| '\u{9}' <= c <= '\u{d}'
    ||| c == '\u{20}'
    ||| c == '\u{85}'
    ||| c == '\u{a0}'
    ||| c == '\u{1680}'
    ||| '\u{2000}' <= c <= '\u{200a}'
    ||| c == '\u{2028}'
    ||| c == '\u{2029}'
    ||| c == '\u{202f}'
    ||| c == '\u{205f}'
    ||| c == '\u{3000}'
}

/// Tells whether `c` has the Unicode property `White_Space`.
pub fn char_is_space(c: char) -> (r: bool)
    ensures
        r == is_space(c),
{
    ('\u{9}' <= c && c <= '\u{d}') || c == '\u{20}' || c == '\u{85}' || c == '\u{a0}' || c
        == '\u{1680}' || ('\u{2000}' <= c && c <= '\u{200a}') || c == '\u{2028}' || c == '\u{2029}'
        || c == '\u{202f}' || c == '\u{205f}' || c == '\u{3000}'
}

/// The characters `a` to `z`.
pub open spec fn is_ascii_lower(c: char) -> bool {
    'a' <= c <= 'z'
}

/// The characters `0` to `9`.
pub open spec fn is_ascii_digit(c: char) -> bool {
    '0' <= c <= '9'
}

/// `A` to `Z` mapped to `a` to `z`; every other character is kept.
pub open spec fn lower_char(c: char) -> char {
    if 'A' <= c <= 'Z' {
        ((c as u32 + 32) as u32) as char
    } else {
        c
    }
}

/// The text with `A` to `Z` replaced by `a` to `z`.
pub open spec fn ascii_lowered(s: Seq<char>) -> Seq<char> {
    s.map_values(|c: char| lower_char(c))
}

// ---------------------------------------------------------------------
// Between `str`, `String` and `Vec<char>`
// ---------------------------------------------------------------------
/// The characters of `s`, in order.
pub fn chars_of(s: &str) -> (r: Vec<char>)
    ensures
        r@ == s@,
{
    let mut out: Vec<char> = Vec::new();
    for c in it: s.chars()
        invariant
            out@ == it.seq().take(it.index()),
            it.seq() == s@,
    {
        out.push(c);
        assert(it.seq().take(it.index() + 1) =~= it.seq().take(it.index()).push(c));
    }
    assert(s@.take(s@.len() as int) =~= s@);
    out
}

/// The text of the characters from `from` up to, not including, `to`.
pub fn slice_text(chars: &Vec<char>, from: usize, to: usize) -> (r: String)
    requires
        from <= to <= chars.len(),
    ensures
        r@ == chars@.subrange(from as int, to as int),
{
    let mut out: String = String::new();
    let mut i: usize = from;
    while i < to
        invariant
            from <= i <= to <= chars.len(),
            out@ == chars@.subrange(from as int, i as int),
        decreases to - i,
    {
        out.push(chars[i]);
        i = i + 1;
        assert(chars@.subrange(from as int, i as int) =~= chars@.subrange(
            from as int,
            i - 1,
        ).push(chars@[i - 1]));
    }
    out
}

/// The bytes of a text in UTF-8.
pub fn bytes_of(s: &str) -> (r: Vec<u8>)
    ensures
        r@ == encode_utf8(s@),
{
    let mut out: Vec<u8> = Vec::new();
    out.extend_from_slice(s.as_bytes());
    assert(out@ =~= encode_utf8(s@));
    out
}

/// Tells whether two texts are equal.
pub fn same_text(a: &str, b: &str) -> (r: bool)
    ensures
        r == (a@ == b@),
{
    a.to_owned() == b.to_owned()
}

/// One text after the other.
pub fn concat2(a: &str, b: &str) -> (r: String)
    ensures
        r@ == a@ + b@,
{
    let mut out: String = a.to_owned();
    out.append(b);
    out
}

/// Three texts, one after the other.
pub fn concat3(a: &str, b: &str, c: &str) -> (r: String)
    ensures
        r@ == a@ + b@ + c@,
{
    let mut out: String = a.to_owned();
    out.append(b);
    out.append(c);
    out
}

/// Five texts, one after the other.
pub fn concat5(a: &str, b: &str, c: &str, d: &str, e: &str) -> (r: String)
    ensures
        r@ == a@ + b@ + c@ + d@ + e@,
{
    let mut out: String = a.to_owned();
    out.append(b);
    out.append(c);
    out.append(d);
    out.append(e);
    out
}

/// Seven texts, one after the other.
pub fn concat7(a: &str, b: &str, c: &str, d: &str, e: &str, f: &str, g: &str) -> (r: String)
    ensures
        r@ == a@ + b@ + c@ + d@ + e@ + f@ + g@,
{
    let mut out: String = a.to_owned();
    out.append(b);
    out.append(c);
    out.append(d);
    out.append(e);
    out.append(f);
    out.append(g);
    out
}

/// Nine texts, one after the other.
pub fn concat9(a: &str, b: &str, c: &str, d: &str, e: &str, f: &str, g: &str, h: &str, i: &str) -> (r: String)
    ensures
        r@ == a@ + b@ + c@ + d@ + e@ + f@ + g@ + h@ + i@,
{
    let mut out: String = a.to_owned();
    out.append(b);
    out.append(c);
    out.append(d);
    out.append(e);
    out.append(f);
    out.append(g);
    out.append(h);
    out.append(i);
    out
}

/// The given texts one after the other.
pub open spec fn concat_all(parts: Seq<Seq<char>>) -> Seq<char>
    decreases parts.len(),
{
    if parts.len() == 0 {
        Seq::empty()
    } else {
        concat_all(parts.drop_last()) + parts.last()
    }
}

/// The texts at the positions from `from` up to, not including, `to`, one
/// after the other.
pub fn concat_range(parts: &Vec<String>, from: usize, to: usize) -> (r: String)
    requires
        from <= to <= parts.len(),
    ensures
        r@ == concat_all(parts.deep_view().subrange(from as int, to as int)),
{
    let mut out: String = String::new();
    let mut i: usize = from;
    assert(parts.deep_view().subrange(from as int, from as int) =~= Seq::empty());
    while i < to
        invariant
            from <= i <= to <= parts.len(),
            out@ == concat_all(parts.deep_view().subrange(from as int, i as int)),
        decreases to - i,
    {
        out.append(parts[i].as_str());
        proof {
            let next = parts.deep_view().subrange(from as int, i + 1);
            assert(next.drop_last() =~= parts.deep_view().subrange(from as int, i as int));
            assert(next.last() == parts@[i as int]@);
        }
        i = i + 1;
    }
    out
}

// ---------------------------------------------------------------------
// Trimming
// ---------------------------------------------------------------------
/// The first position at or after `i` that holds no white space.
pub open spec fn skip_space(s: Seq<char>, i: int) -> int
    decreases s.len() - i,
{
    if i < s.len() && is_space(s[i]) {
        skip_space(s, i + 1)
    } else {
        i
    }
}

/// The end of what is left of the first `n` characters without the white
/// space at their end.
pub open spec fn space_start(s: Seq<char>, n: int) -> int
    decreases n,
{
    if n > 0 && is_space(s[n - 1]) {
        space_start(s, n - 1)
    } else {
        n
    }
}

/// The text without the white space at its start.
pub open spec fn trimmed_start(s: Seq<char>) -> Seq<char> {
    s.skip(skip_space(s, 0))
}

/// The text without the white space at its start and at its end.
pub open spec fn trimmed(s: Seq<char>) -> Seq<char> {
    let from = skip_space(s, 0);
    let to = space_start(s, s.len() as int);
    if from < to {
        s.subrange(from, to)
    } else {
        Seq::empty()
    }
}

fn skip_space_from(chars: &Vec<char>) -> (r: usize)
    ensures
        r as int == skip_space(chars@, 0),
        r <= chars.len(),
{
    let mut i: usize = 0;
    while i < chars.len() && char_is_space(chars[i])
        invariant
            i <= chars.len(),
            skip_space(chars@, 0) == skip_space(chars@, i as int),
        decreases chars.len() - i,
    {
        i = i + 1;
    }
    i
}

/// The text without the white space at its start.
pub fn trim_start(s: &str) -> (r: String)
    ensures
        r@ == trimmed_start(s@),
{
    let chars: Vec<char> = chars_of(s);
    let from: usize = skip_space_from(&chars);
    slice_text(&chars, from, chars.len())
}

/// The text without the white space at its start and at its end.
pub fn trim(s: &str) -> (r: String)
    ensures
        r@ == trimmed(s@),
{
    let chars: Vec<char> = chars_of(s);
    let from: usize = skip_space_from(&chars);
    let mut to: usize = chars.len();
    while to > 0 && char_is_space(chars[to - 1])
        invariant
            to <= chars.len(),
            space_start(chars@, chars.len() as int) == space_start(chars@, to as int),
        decreases to,
    {
        to = to - 1;
    }
    if from < to {
        slice_text(&chars, from, to)
    } else {
        let out: String = String::new();
        assert(out@ =~= Seq::empty());
        out
    }
}

/// Tells whether a text holds nothing but white space.
pub fn is_blank(s: &str) -> (r: bool)
    ensures
        r == (trimmed(s@).len() == 0),
{
    let t: String = trim(s);
    is_empty(t.as_str())
}

/// Tells whether a text holds no character.
pub fn is_empty(s: &str) -> (r: bool)
    ensures
        r == (s@.len() == 0),
        r == (s@ == Seq::<char>::empty()),
{
    proof {
        assert(s@.len() == 0 ==> s@ =~= Seq::<char>::empty());
    }
    s.unicode_len() == 0
}

// ---------------------------------------------------------------------
// Searching
// ---------------------------------------------------------------------
/// `pat` occurs in `s` at position `i`.
pub open spec fn occurs_at(s: Seq<char>, pat: Seq<char>, i: int) -> bool {
    0 <= i && i + pat.len() <= s.len() && s.subrange(i, i + pat.len() as int) == pat
}

/// The first position at or after `i` at which `pat` occurs in `s`.
pub open spec fn find_from(s: Seq<char>, pat: Seq<char>, i: int) -> Option<int>
    decreases s.len() - i + 1,
{
    if i + pat.len() > s.len() {
        None
    } else if occurs_at(s, pat, i) {
        Some(i)
    } else {
        find_from(s, pat, i + 1)
    }
}

/// `pat` occurs somewhere in `s`.
pub open spec fn has_text(s: Seq<char>, pat: Seq<char>) -> bool {
    exists|i: int| occurs_at(s, pat, i)
}

/// `s` begins with `pat`.
pub open spec fn begins_with(s: Seq<char>, pat: Seq<char>) -> bool {
    occurs_at(s, pat, 0)
}

/// `s` ends with `pat`.
pub open spec fn closes_with(s: Seq<char>, pat: Seq<char>) -> bool {
    occurs_at(s, pat, s.len() - pat.len())
}

/// A search finds nothing exactly where there is no occurrence, and finds
/// the least one otherwise.
pub proof fn find_is_least(s: Seq<char>, pat: Seq<char>, i: int)
    requires
        0 <= i,
    ensures
        match find_from(s, pat, i) {
            Some(k) => i <= k && occurs_at(s, pat, k) && forall|j: int|
                i <= j < k ==> !occurs_at(s, pat, j),
            None => forall|j: int| i <= j ==> !occurs_at(s, pat, j),
        },
    decreases s.len() - i + 1,
{
    if i + pat.len() > s.len() {
    } else if occurs_at(s, pat, i) {
    } else {
        find_is_least(s, pat, i + 1);
    }
}

fn occurs(s: &Vec<char>, pat: &Vec<char>, i: usize) -> (r: bool)
    requires
        i <= s.len(),
    ensures
        r == occurs_at(s@, pat@, i as int),
{
    if pat.len() > s.len() - i {
        return false;
    }
    let mut k: usize = 0;
    while k < pat.len()
        invariant
            k <= pat.len(),
            i + pat.len() <= s.len(),
            forall|j: int| 0 <= j < k ==> s@[i + j] == pat@[j],
        decreases pat.len() - k,
    {
        if s[i + k] != pat[k] {
            assert(s@.subrange(i as int, i + pat.len())[k as int] != pat@[k as int]);
            return false;
        }
        k = k + 1;
    }
    assert(s@.subrange(i as int, i + pat.len()) =~= pat@);
    true
}

/// The first position at or after `from` at which `pat` occurs.
pub fn find_in(s: &Vec<char>, pat: &Vec<char>, from: usize) -> (r: Option<usize>)
    requires
        from <= s.len(),
    ensures
        match r {
            Some(k) => find_from(s@, pat@, from as int) == Some(k as int) && k + pat.len()
                <= s.len(),
            None => find_from(s@, pat@, from as int) is None,
        },
{
    if pat.len() > s.len() - from {
        return None;
    }
    let last: usize = s.len() - pat.len();
    let mut i: usize = from;
    while i <= last
        invariant
            from <= i <= last + 1,
            last == s.len() - pat.len(),
            find_from(s@, pat@, from as int) == find_from(s@, pat@, i as int),
        decreases last + 1 - i,
    {
        if occurs(s, pat, i) {
            return Some(i);
        }
        if i == last {
            assert(find_from(s@, pat@, i + 1) is None);
            return None;
        }
        i = i + 1;
    }
    None
}

/// Tells whether `pat` occurs in `s`.
pub fn contains_text(s: &str, pat: &str) -> (r: bool)
    ensures
        r == has_text(s@, pat@),
{
    proof {
        find_is_least(s@, pat@, 0);
    }
    let found: Option<usize> = find_in(&chars_of(s), &chars_of(pat), 0);
    found.is_some()
}

/// Tells whether `s` begins with `pat`.
pub fn starts_with(s: &str, pat: &str) -> (r: bool)
    ensures
        r == begins_with(s@, pat@),
{
    occurs(&chars_of(s), &chars_of(pat), 0)
}

/// Tells whether `s` ends with `pat`.
pub fn ends_with(s: &str, pat: &str) -> (r: bool)
    ensures
        r == closes_with(s@, pat@),
{
    let all: Vec<char> = chars_of(s);
    let end: Vec<char> = chars_of(pat);
    if end.len() > all.len() {
        return false;
    }
    occurs(&all, &end, all.len() - end.len())
}

/// What follows `pat` at the start of `s`, if `s` begins with it.
pub open spec fn after_prefix(s: Seq<char>, pat: Seq<char>) -> Option<Seq<char>> {
    if begins_with(s, pat) {
        Some(s.skip(pat.len() as int))
    } else {
        None
    }
}

/// What follows `pat` at the start of `s`, if `s` begins with it.
pub fn strip_prefix(s: &str, pat: &str) -> (r: Option<String>)
    ensures
        r.deep_view() == after_prefix(s@, pat@),
{
    let all: Vec<char> = chars_of(s);
    let start: Vec<char> = chars_of(pat);
    if occurs(&all, &start, 0) {
        Some(slice_text(&all, start.len(), all.len()))
    } else {
        None
    }
}

/// What stands before `pat` at the end of `s`, if `s` ends with it.
pub open spec fn before_suffix(s: Seq<char>, pat: Seq<char>) -> Option<Seq<char>> {
    if closes_with(s, pat) {
        Some(s.take(s.len() - pat.len()))
    } else {
        None
    }
}

/// What stands before `pat` at the end of `s`, if `s` ends with it.
pub fn strip_suffix(s: &str, pat: &str) -> (r: Option<String>)
    ensures
        r.deep_view() == before_suffix(s@, pat@),
{
    let all: Vec<char> = chars_of(s);
    let end: Vec<char> = chars_of(pat);
    if end.len() <= all.len() && occurs(&all, &end, all.len() - end.len()) {
        Some(slice_text(&all, 0, all.len() - end.len()))
    } else {
        None
    }
}

/// What stands before and after the first occurrence of `pat` in `s`.
pub open spec fn cut_at(s: Seq<char>, pat: Seq<char>) -> Option<(Seq<char>, Seq<char>)> {
    match find_from(s, pat, 0) {
        Some(k) => Some((s.take(k), s.skip(k + pat.len()))),
        None => None,
    }
}

/// What stands before and after the first occurrence of `pat` in `s`.
pub fn split_once(s: &str, pat: &str) -> (r: Option<(String, String)>)
    ensures
        r.deep_view() == cut_at(s@, pat@),
{
    let all: Vec<char> = chars_of(s);
    let sep: Vec<char> = chars_of(pat);
    match find_in(&all, &sep, 0) {
        Some(k) => Some((slice_text(&all, 0, k), slice_text(&all, k + sep.len(), all.len()))),
        None => None,
    }
}

/// What stands before the first `c` in `s`: all of `s` where there is none.
pub open spec fn before_char(s: Seq<char>, c: char) -> Seq<char> {
    match cut_at(s, seq![c]) {
        Some(parts) => parts.0,
        None => s,
    }
}

/// What stands before the first `c` in `s`: all of `s` where there is none.
pub fn take_before(s: &str, c: char) -> (r: String)
    ensures
        r@ == before_char(s@, c),
{
    let all: Vec<char> = chars_of(s);
    let mut sep: Vec<char> = Vec::new();
    sep.push(c);
    assert(sep@ =~= seq![c]);
    match find_in(&all, &sep, 0) {
        Some(k) => slice_text(&all, 0, k),
        None => s.to_owned(),
    }
}

// ---------------------------------------------------------------------
// Lines and pieces
// ---------------------------------------------------------------------
/// The lines of `s` from `start` on, each with its line feed, where no line
/// feed stands between `start` and `i`.
pub open spec fn lines_from(s: Seq<char>, start: int, i: int) -> Seq<Seq<char>>
    decreases s.len() - i,
{
    if i >= s.len() {
        if start < s.len() {
            seq![s.subrange(start, s.len() as int)]
        } else {
            Seq::empty()
        }
    } else if s[i] == '\n' {
        seq![s.subrange(start, i + 1)] + lines_from(s, i + 1, i + 1)
    } else {
        lines_from(s, start, i + 1)
    }
}

/// The lines of a text, each with the line feed that ends it.
pub open spec fn lines_of(s: Seq<char>) -> Seq<Seq<char>> {
    lines_from(s, 0, 0)
}

/// A line without the line feed at its end, nor the carriage return before
/// that line feed.
pub open spec fn without_line_end(line: Seq<char>) -> Seq<char> {
    if line.len() > 0 && line.last() == '\n' {
        let cut = line.drop_last();
        if cut.len() > 0 && cut.last() == '\r' {
            cut.drop_last()
        } else {
            cut
        }
    } else {
        line
    }
}

/// Appending a text to a list of texts.
pub proof fn push_text(v: Vec<String>, w: Vec<String>, t: String)
    requires
        w@ == v@.push(t),
    ensures
        w.deep_view() == v.deep_view().push(t@),
{
    assert(w.deep_view() =~= v.deep_view().push(t@));
}

/// The lines of a text, each with the line feed that ends it.
pub fn split_lines(s: &str) -> (r: Vec<String>)
    ensures
        r.deep_view() == lines_of(s@),
{
    let chars: Vec<char> = chars_of(s);
    let mut out: Vec<String> = Vec::new();
    let mut start: usize = 0;
    let mut i: usize = 0;
    assert(out.deep_view() + lines_of(s@) =~= lines_of(s@));
    while i < chars.len()
        invariant
            chars@ == s@,
            start <= i <= chars.len(),
            out.deep_view() + lines_from(s@, start as int, i as int) == lines_of(s@),
        decreases chars.len() - i,
    {
        if chars[i] == '\n' {
            let line: String = slice_text(&chars, start, i + 1);
            let ghost before = out;
            out.push(line);
            proof {
                push_text(before, out, line);
                assert(before.deep_view() + (seq![line@] + lines_from(s@, i + 1, i + 1))
                    =~= out.deep_view() + lines_from(s@, i + 1, i + 1));
            }
            start = i + 1;
        }
        i = i + 1;
    }
    if start < chars.len() {
        let line: String = slice_text(&chars, start, chars.len());
        let ghost before = out;
        out.push(line);
        proof {
            push_text(before, out, line);
            assert(before.deep_view() + seq![line@] =~= out.deep_view());
        }
    } else {
        assert(out.deep_view() + Seq::empty() =~= out.deep_view());
    }
    out
}

/// A line without the line feed at its end, nor the carriage return before
/// that line feed.
pub fn strip_line_end(line: &str) -> (r: String)
    ensures
        r@ == without_line_end(line@),
{
    let chars: Vec<char> = chars_of(line);
    let n: usize = chars.len();
    if n > 0 && chars[n - 1] == '\n' {
        if n > 1 && chars[n - 2] == '\r' {
            let out: String = slice_text(&chars, 0, n - 2);
            assert(out@ =~= line@.drop_last().drop_last());
            out
        } else {
            let out: String = slice_text(&chars, 0, n - 1);
            assert(out@ =~= line@.drop_last());
            out
        }
    } else {
        line.to_owned()
    }
}

/// Taking the first line off a list of lines takes it off the text.
pub proof fn concat_all_front(first: Seq<char>, rest: Seq<Seq<char>>)
    ensures
        concat_all(seq![first] + rest) == first + concat_all(rest),
    decreases rest.len(),
{
    let all = seq![first] + rest;
    if rest.len() == 0 {
        assert(all.last() == first);
        assert(concat_all(all.drop_last()) =~= Seq::empty());
        assert(concat_all(all) =~= first + concat_all(rest));
    } else {
        concat_all_front(first, rest.drop_last());
        assert(all.drop_last() =~= seq![first] + rest.drop_last());
        assert(concat_all(all) =~= first + concat_all(rest));
    }
}

proof fn lines_from_rebuild(s: Seq<char>, start: int, i: int)
    requires
        0 <= start <= i <= s.len(),
    ensures
        concat_all(lines_from(s, start, i)) == s.skip(start),
    decreases s.len() - i,
{
    if i >= s.len() {
        if start < s.len() {
            concat_all_front(s.subrange(start, s.len() as int), Seq::empty());
            assert(seq![s.subrange(start, s.len() as int)] + Seq::empty() =~= seq![
                s.subrange(start, s.len() as int),
            ]);
        }
        assert(concat_all(lines_from(s, start, i)) =~= s.skip(start));
    } else if s[i] == '\n' {
        lines_from_rebuild(s, i + 1, i + 1);
        concat_all_front(s.subrange(start, i + 1), lines_from(s, i + 1, i + 1));
        assert(s.subrange(start, i + 1) + s.skip(i + 1) =~= s.skip(start));
    } else {
        lines_from_rebuild(s, start, i + 1);
    }
}

/// A text is its lines one after the other: cutting it into lines loses no
/// character.
pub proof fn lines_rebuild_text(s: Seq<char>)
    ensures
        concat_all(lines_of(s)) == s,
{
    lines_from_rebuild(s, 0, 0);
    assert(s.skip(0) =~= s);
}

/// The pieces of `s` from `start` on between the characters `c`, where no
/// `c` stands between `start` and `i`.
pub open spec fn pieces_from(s: Seq<char>, c: char, start: int, i: int) -> Seq<Seq<char>>
    decreases s.len() - i,
{
    if i >= s.len() {
        seq![s.subrange(start, s.len() as int)]
    } else if s[i] == c {
        seq![s.subrange(start, i)] + pieces_from(s, c, i + 1, i + 1)
    } else {
        pieces_from(s, c, start, i + 1)
    }
}

/// The pieces of a text between the characters `c`: one more than there are
/// such characters.
pub open spec fn pieces_of(s: Seq<char>, c: char) -> Seq<Seq<char>> {
    pieces_from(s, c, 0, 0)
}

/// The pieces of a text between the characters `c`.
pub fn split_char(s: &str, c: char) -> (r: Vec<String>)
    ensures
        r.deep_view() == pieces_of(s@, c),
{
    let chars: Vec<char> = chars_of(s);
    let mut out: Vec<String> = Vec::new();
    let mut start: usize = 0;
    let mut i: usize = 0;
    assert(out.deep_view() + pieces_of(s@, c) =~= pieces_of(s@, c));
    while i < chars.len()
        invariant
            chars@ == s@,
            start <= i <= chars.len(),
            out.deep_view() + pieces_from(s@, c, start as int, i as int) == pieces_of(s@, c),
        decreases chars.len() - i,
    {
        if chars[i] == c {
            let piece: String = slice_text(&chars, start, i);
            let ghost before = out;
            out.push(piece);
            proof {
                push_text(before, out, piece);
                assert(before.deep_view() + (seq![piece@] + pieces_from(s@, c, i + 1, i + 1))
                    =~= out.deep_view() + pieces_from(s@, c, i + 1, i + 1));
            }
            start = i + 1;
        }
        i = i + 1;
    }
    let piece: String = slice_text(&chars, start, chars.len());
    let ghost before = out;
    out.push(piece);
    proof {
        push_text(before, out, piece);
        assert(before.deep_view() + seq![piece@] =~= out.deep_view());
    }
    out
}

/// The words of `s` from `start` on, where no white space stands between
/// `start` and `i`.
pub open spec fn words_from(s: Seq<char>, start: int, i: int) -> Seq<Seq<char>>
    decreases s.len() - i,
{
    if i >= s.len() {
        if start < s.len() {
            seq![s.subrange(start, s.len() as int)]
        } else {
            Seq::empty()
        }
    } else if is_space(s[i]) {
        if start < i {
            seq![s.subrange(start, i)] + words_from(s, i + 1, i + 1)
        } else {
            words_from(s, i + 1, i + 1)
        }
    } else {
        words_from(s, start, i + 1)
    }
}

/// The words of a text: what stands between its white space.
pub open spec fn words_of(s: Seq<char>) -> Seq<Seq<char>> {
    words_from(s, 0, 0)
}

/// The words of a text: what stands between its white space.
pub fn split_words(s: &str) -> (r: Vec<String>)
    ensures
        r.deep_view() == words_of(s@),
{
    let chars: Vec<char> = chars_of(s);
    let mut out: Vec<String> = Vec::new();
    let mut start: usize = 0;
    let mut i: usize = 0;
    assert(out.deep_view() + words_of(s@) =~= words_of(s@));
    while i < chars.len()
        invariant
            chars@ == s@,
            start <= i <= chars.len(),
            out.deep_view() + words_from(s@, start as int, i as int) == words_of(s@),
        decreases chars.len() - i,
    {
        if char_is_space(chars[i]) {
            if start < i {
                let word: String = slice_text(&chars, start, i);
                let ghost before = out;
                out.push(word);
                proof {
                    push_text(before, out, word);
                    assert(before.deep_view() + (seq![word@] + words_from(s@, i + 1, i + 1))
                        =~= out.deep_view() + words_from(s@, i + 1, i + 1));
                }
            }
            start = i + 1;
        }
        i = i + 1;
    }
    if start < chars.len() {
        let word: String = slice_text(&chars, start, chars.len());
        let ghost before = out;
        out.push(word);
        proof {
            push_text(before, out, word);
            assert(before.deep_view() + seq![word@] =~= out.deep_view());
        }
    } else {
        assert(out.deep_view() + Seq::empty() =~= out.deep_view());
    }
    out
}

/// The given texts with `sep` between each two of them.
pub open spec fn joined(parts: Seq<Seq<char>>, sep: Seq<char>) -> Seq<char>
    decreases parts.len(),
{
    if parts.len() == 0 {
        Seq::empty()
    } else if parts.len() == 1 {
        parts[0]
    } else {
        joined(parts.drop_last(), sep) + sep + parts.last()
    }
}

/// The given texts with `sep` between each two of them.
pub fn join(parts: &Vec<String>, sep: &str) -> (r: String)
    ensures
        r@ == joined(parts.deep_view(), sep@),
{
    join_first(parts, parts.len(), sep)
}

/// The first `n` texts with `sep` between each two of them.
pub fn join_first(parts: &Vec<String>, n: usize, sep: &str) -> (r: String)
    requires
        n <= parts.len(),
    ensures
        r@ == joined(parts.deep_view().take(n as int), sep@),
        n == parts.len() ==> r@ == joined(parts.deep_view(), sep@),
{
    let mut out: String = String::new();
    let mut i: usize = 0;
    assert(out@ =~= Seq::empty());
    while i < n
        invariant
            i <= n <= parts.len(),
            out@ == joined(parts.deep_view().take(i as int), sep@),
        decreases n - i,
    {
        if i > 0 {
            out.append(sep);
        }
        out.append(parts[i].as_str());
        proof {
            let next = parts.deep_view().take(i + 1);
            assert(next.drop_last() =~= parts.deep_view().take(i as int));
            assert(next.last() == parts@[i as int]@);
            if i == 0 {
                assert(parts.deep_view().take(0) =~= Seq::empty());
                assert(out@ =~= next[0]);
            }
        }
        i = i + 1;
    }
    assert(parts.deep_view().take(parts.len() as int) =~= parts.deep_view());
    out
}

// ---------------------------------------------------------------------
// Replacing
// ---------------------------------------------------------------------
/// The part of `s` from `i` on, with each occurrence of `pat` replaced.
pub open spec fn replaced_from(s: Seq<char>, pat: Seq<char>, with: Seq<char>, i: int) -> Seq<char>
    decreases s.len() - i,
{
    if i >= s.len() || pat.len() == 0 {
        s.skip(i)
    } else if occurs_at(s, pat, i) {
        with + replaced_from(s, pat, with, i + pat.len())
    } else {
        seq![s[i]] + replaced_from(s, pat, with, i + 1)
    }
}

/// `s` with each occurrence of `pat` replaced by `with`, from left to right.
pub open spec fn replaced(s: Seq<char>, pat: Seq<char>, with: Seq<char>) -> Seq<char> {
    replaced_from(s, pat, with, 0)
}

/// `s` with each occurrence of `pat` replaced by `with`, from left to right.
pub fn replace(s: &str, pat: &str, with: &str) -> (r: String)
    requires
        pat@.len() > 0,
    ensures
        r@ == replaced(s@, pat@, with@),
{
    let chars: Vec<char> = chars_of(s);
    let pattern: Vec<char> = chars_of(pat);
    let mut out: String = String::new();
    let mut i: usize = 0;
    assert(out@ + replaced(s@, pat@, with@) =~= replaced(s@, pat@, with@));
    while i < chars.len()
        invariant
            chars@ == s@,
            pattern@ == pat@,
            pat@.len() > 0,
            i <= chars.len(),
            out@ + replaced_from(s@, pat@, with@, i as int) == replaced(s@, pat@, with@),
        decreases chars.len() - i,
    {
        let ghost before = out@;
        if occurs(&chars, &pattern, i) {
            out.append(with);
            assert(before + (with@ + replaced_from(s@, pat@, with@, i + pat@.len())) =~= out@
                + replaced_from(s@, pat@, with@, i + pat@.len()));
            i = i + pattern.len();
        } else {
            out.push(chars[i]);
            assert(before + (seq![s@[i as int]] + replaced_from(s@, pat@, with@, i + 1)) =~= out@
                + replaced_from(s@, pat@, with@, i + 1));
            i = i + 1;
        }
    }
    assert(out@ + s@.skip(i as int) =~= out@);
    out
}

/// The text with `A` to `Z` replaced by `a` to `z`.
pub fn to_ascii_lower(s: &str) -> (r: String)
    ensures
        r@ == ascii_lowered(s@),
{
    let chars: Vec<char> = chars_of(s);
    let mut out: String = String::new();
    let mut i: usize = 0;
    while i < chars.len()
        invariant
            chars@ == s@,
            i <= chars.len(),
            out@ == ascii_lowered(s@.take(i as int)),
        decreases chars.len() - i,
    {
        let c: char = chars[i];
        let d: char = if 'A' <= c && c <= 'Z' {
            ((c as u8) + 32) as char
        } else {
            c
        };
        out.push(d);
        proof {
            assert(d == lower_char(c));
            assert(ascii_lowered(s@.take(i + 1)) =~= ascii_lowered(s@.take(i as int)).push(d));
        }
        i = i + 1;
    }
    assert(s@.take(s@.len() as int) =~= s@);
    out
}

// ---------------------------------------------------------------------
// Debug form
// ---------------------------------------------------------------------
/// What `{:?}` writes for a text.
pub uninterp spec fn debug_text(s: Seq<char>) -> Seq<char>;

/// The `Debug` impl of `str`, through `format!`: the text in quotes and with
/// its special characters escaped. Which characters are escaped, and how, is
/// left unsaid.
#[verifier::external_body]
fn format_debug(s: &str) -> (r: String)
    ensures
        r@ == debug_text(s@),
{
    format!("{:?}", s)
}

/// What `{:?}` writes for an optional text.
pub open spec fn debug_optional(s: Option<Seq<char>>) -> Seq<char> {
    match s {
        Some(text) => "Some("@ + debug_text(text) + ")"@,
        None => "None"@,
    }
}

/// What `{:?}` writes for an optional text.
pub fn format_optional(s: &Option<String>) -> (r: String)
    ensures
        r@ == debug_optional(s.deep_view()),
{
    match s {
        Some(text) => concat3("Some(", format_debug(text.as_str()).as_str(), ")"),
        None => "None".to_owned(),
    }
}

// ---------------------------------------------------------------------
// Numbers and order
// ---------------------------------------------------------------------
/// The decimal digit for a number below ten.
pub open spec fn digit_char(d: nat) -> char {
    ('0' as u32 + d as u32) as char
}

/// A number in decimal notation.
pub open spec fn decimal(n: nat) -> Seq<char>
    decreases n,
{
    if n < 10 {
        seq![digit_char(n)]
    } else {
        decimal(n / 10).push(digit_char(n % 10))
    }
}

/// A number in decimal notation.
pub fn number_text(n: u64) -> (r: String)
    ensures
        r@ == decimal(n as nat),
    decreases n,
{
    if n < 10 {
        let mut out: String = String::new();
        out.push(((48 + n) as u8) as char);
        assert(out@ =~= seq![digit_char(n as nat)]);
        out
    } else {
        let mut out: String = number_text(n / 10);
        out.push(((48 + n % 10) as u8) as char);
        out
    }
}

/// `a` comes before `b` in the order of their characters, a proper prefix
/// first.
pub open spec fn text_before(a: Seq<char>, b: Seq<char>) -> bool
    decreases a.len(),
{
    if b.len() == 0 {
        false
    } else if a.len() == 0 {
        true
    } else if a[0] != b[0] {
        a[0] < b[0]
    } else {
        text_before(a.skip(1), b.skip(1))
    }
}

/// Tells whether `a` comes before `b`.
pub fn comes_before(a: &str, b: &str) -> (r: bool)
    ensures
        r == text_before(a@, b@),
{
    let x: Vec<char> = chars_of(a);
    let y: Vec<char> = chars_of(b);
    let mut i: usize = 0;
    assert(x@.skip(0) =~= x@);
    assert(y@.skip(0) =~= y@);
    while i < x.len() && i < y.len()
        invariant
            x@ == a@,
            y@ == b@,
            i <= x.len(),
            i <= y.len(),
            text_before(x@, y@) == text_before(x@.skip(i as int), y@.skip(i as int)),
        decreases x.len() - i,
    {
        if x[i] != y[i] {
            return x[i] < y[i];
        }
        i = i + 1;
        assert(x@.skip(i as int) =~= x@.skip(i - 1).skip(1));
        assert(y@.skip(i as int) =~= y@.skip(i - 1).skip(1));
    }
    i < y.len()
}

/// Of two texts one comes before the other, unless they are equal.
pub proof fn order_is_total(a: Seq<char>, b: Seq<char>)
    ensures
        text_before(a, b) || text_before(b, a) || a == b,
        !(text_before(a, b) && text_before(b, a)),
        a == b ==> !text_before(a, b),
    decreases a.len(),
{
    if a.len() > 0 && b.len() > 0 {
        order_is_total(a.skip(1), b.skip(1));
        if a[0] == b[0] && a.skip(1) == b.skip(1) {
            assert forall|i: int| 0 <= i < a.len() implies a[i] == b[i] by {
                if i > 0 {
                    assert(a.skip(1)[i - 1] == b.skip(1)[i - 1]);
                }
            }
            assert(a.len() == a.skip(1).len() + 1);
            assert(b.len() == b.skip(1).len() + 1);
            assert(a =~= b);
        }
    } else if a.len() == 0 && b.len() == 0 {
        assert(a =~= b);
    }
}

/// The order of texts is transitive.
pub proof fn order_is_transitive(a: Seq<char>, b: Seq<char>, c: Seq<char>)
    requires
        text_before(a, b),
        text_before(b, c),
    ensures
        text_before(a, c),
    decreases a.len(),
{
    if a.len() > 0 && b.len() > 0 && c.len() > 0 && a[0] == b[0] && b[0] == c[0] {
        order_is_transitive(a.skip(1), b.skip(1), c.skip(1));
    }
}

/// Each text of the list comes before those after it.
pub open spec fn is_sorted(list: Seq<Seq<char>>) -> bool {
    forall|i: int, j: int|
        0 <= i < j < list.len() ==> text_before(#[trigger] list[i], #[trigger] list[j])
}

/// Puts a text that a sorted list does not hold yet at its place.
pub fn insert_sorted(list: &mut Vec<String>, text: &str)
    requires
        is_sorted(old(list).deep_view()),
        !old(list).deep_view().contains(text@),
    ensures
        is_sorted(final(list).deep_view()),
        forall|t: Seq<char>|
            final(list).deep_view().contains(t) <==> (old(list).deep_view().contains(t) || t
                == text@),
{
    let ghost before = list.deep_view();
    let mut k: usize = 0;
    while k < list.len() && comes_before(list[k].as_str(), text)
        invariant
            k <= list.len(),
            before == list.deep_view(),
            forall|i: int| 0 <= i < k ==> text_before(#[trigger] before[i], text@),
        decreases list.len() - k,
    {
        k = k + 1;
    }
    list.insert(k, text.to_owned());
    proof {
        let after = list.deep_view();
        assert(after =~= before.insert(k as int, text@));
        assert forall|i: int, j: int| 0 <= i < j < after.len() implies text_before(
            #[trigger] after[i],
            #[trigger] after[j],
        ) by {
            let p = if i < k { i } else { i - 1 };
            let q = if j < k { j } else { j - 1 };
            if j == k {
                assert(after[i] == before[i]);
            } else {
                assert(after[j] == before[q]);
                if i == k {
                    order_is_total(before[k as int], text@);
                    assert(before.contains(before[k as int]));
                    if q > k {
                        order_is_transitive(text@, before[k as int], before[q]);
                    }
                } else {
                    assert(after[i] == before[p]);
                }
            }
        }
        assert forall|t: Seq<char>| after.contains(t) <==> (before.contains(t) || t == text@) by {
            if before.contains(t) {
                let w = choose|w: int| 0 <= w < before.len() && before[w] == t;
                assert(after[if w < k { w } else { w + 1 }] == t);
            }
            if t == text@ {
                assert(after[k as int] == t);
            }
            if after.contains(t) {
                let w = choose|w: int| 0 <= w < after.len() && after[w] == t;
                if w != k {
                    assert(before[if w < k { w } else { w - 1 }] == t);
                }
            }
        }
    }
}

// ---------------------------------------------------------------------
// Lists of texts
// ---------------------------------------------------------------------
/// The list with `text` at its end, unless it holds it already.
pub open spec fn with_unique(list: Seq<Seq<char>>, text: Seq<char>) -> Seq<Seq<char>> {
    if list.contains(text) {
        list
    } else {
        list.push(text)
    }
}

/// Adding a text that is not there yet keeps a list free of duplicates, and
/// keeps what the list held, in its order.
pub proof fn unique_stays_unique(list: Seq<Seq<char>>, text: Seq<char>)
    requires
        list.no_duplicates(),
    ensures
        with_unique(list, text).no_duplicates(),
        with_unique(list, text).contains(text),
        with_unique(list, text).take(list.len() as int) == list,
{
    let out = with_unique(list, text);
    assert(out.take(list.len() as int) =~= list);
    if !list.contains(text) {
        assert(out.last() == text);
        assert forall|i: int, j: int| 0 <= i < out.len() && 0 <= j < out.len() && i != j implies
            out[i] != out[j] by {
            if i < list.len() && j < list.len() {
                assert(list[i] != list[j]);
            } else if i < list.len() {
                assert(list.contains(list[i]));
            } else {
                assert(list.contains(list[j]));
            }
        }
    }
}

/// Tells whether the list holds `text`.
pub fn list_has(list: &Vec<String>, text: &str) -> (r: bool)
    ensures
        r == list.deep_view().contains(text@),
{
    let mut i: usize = 0;
    while i < list.len()
        invariant
            i <= list.len(),
            forall|k: int| 0 <= k < i ==> list.deep_view()[k] != text@,
        decreases list.len() - i,
    {
        if same_text(list[i].as_str(), text) {
            assert(list.deep_view()[i as int] == text@);
            return true;
        }
        i = i + 1;
    }
    false
}

/// Puts `text` at the end of the list, unless it holds it already.
pub fn push_unique(list: &mut Vec<String>, text: &str)
    ensures
        final(list).deep_view() == with_unique(old(list).deep_view(), text@),
{
    if !list_has(list, text) {
        let ghost before = *list;
        let copy: String = text.to_owned();
        list.push(copy);
        proof {
            push_text(before, *list, copy);
        }
    }
}

/// A copy of the list.
pub fn copy_list(list: &Vec<String>) -> (r: Vec<String>)
    ensures
        r.deep_view() == list.deep_view(),
{
    let r: Vec<String> = list.clone();
    assert(r.deep_view() =~= list.deep_view());
    r
}

/// Tells whether two optional texts are equal.
pub fn same_optional_text(a: &Option<String>, b: &Option<String>) -> (r: bool)
    ensures
        r == (a.deep_view() == b.deep_view()),
{
    match (a, b) {
        (Some(x), Some(y)) => same_text(x.as_str(), y.as_str()),
        (None, None) => true,
        _ => false,
    }
}

/// Tells whether an optional text is the given one.
pub fn is_text(a: &Option<String>, b: &str) -> (r: bool)
    ensures
        r == (a.deep_view() == Some(b@)),
{
    match a {
        Some(x) => same_text(x.as_str(), b),
        None => false,
    }
}

} // verus!
