//! Splitting and searching text: pieces between separators, lines, trimming
//! and the text around a marker.
use crate::text::{push_text, slice_text, texts, to_chars};
use vstd::prelude::*;
use vstd::string::*;

verus! {

// ---------------------------------------------------------------------------
// Pieces between separators
// ---------------------------------------------------------------------------

/// The pieces of `s` between the separators `sep`: always one more than there
/// are separators.
pub open spec fn split_on(s: Seq<char>, sep: char) -> Seq<Seq<char>>
    decreases s.len(),
{
    if s.len() == 0 {
        seq![Seq::<char>::empty()]
    } else {
        let before = split_on(s.drop_last(), sep);
        if s.last() == sep {
            before.push(Seq::<char>::empty())
        } else {
            before.drop_last().push(before.last().push(s.last()))
        }
    }
}

/// The pieces `list` with `sep` between them.
pub open spec fn joined(list: Seq<Seq<char>>, sep: char) -> Seq<char>
    decreases list.len(),
{
    if list.len() == 0 {
        Seq::empty()
    } else if list.len() == 1 {
        list[0]
    } else {
        joined(list.drop_last(), sep).push(sep) + list.last()
    }
}

/// Splitting loses nothing and leaves no separator in a piece: the pieces,
/// joined by the separator, are the text again.
pub proof fn split_on_joined(s: Seq<char>, sep: char)
    ensures
        split_on(s, sep).len() > 0,
        joined(split_on(s, sep), sep) == s,
        forall|i: int|
            0 <= i < split_on(s, sep).len() ==> !(#[trigger] split_on(s, sep)[i]).contains(sep),
    decreases s.len(),
{
    if s.len() > 0 {
        let before = split_on(s.drop_last(), sep);
        split_on_joined(s.drop_last(), sep);
        let all = split_on(s, sep);
        assert(all.drop_last() =~= if s.last() == sep { before } else { before.drop_last() });
        if s.last() == sep {
            assert(joined(all, sep) =~= s);
        } else {
            assert(s.drop_last().push(s.last()) =~= s);
            assert(joined(all, sep) =~= s);
        }
        assert forall|i: int| 0 <= i < all.len() implies !(#[trigger] all[i]).contains(sep) by {
            if i < all.len() - 1 {
                assert(all[i] == before[i]);
            } else if s.last() != sep {
                let tail = before.last();
                assert(!before[before.len() - 1].contains(sep));
                assert forall|k: int| 0 <= k < tail.push(s.last()).len() implies tail.push(
                    s.last(),
                )[k] != sep by {
                    if k < tail.len() {
                        assert(tail[k] == tail.push(s.last())[k]);
                        assert(tail.contains(tail[k]));
                    }
                }
            }
        }
    }
}

/// Splits `v[from..to]` at each `sep`.
pub fn split_chars(v: &Vec<char>, from: usize, to: usize, sep: char) -> (r: Vec<String>)
    requires
        from <= to <= v@.len(),
    ensures
        texts(r@) == split_on(v@.subrange(from as int, to as int), sep),
{
    let mut r: Vec<String> = Vec::new();
    let mut begin: usize = from;
    let mut i: usize = from;
    proof {
        let start = v@.subrange(from as int, from as int);
        assert(start =~= Seq::<char>::empty());
        assert(split_on(start, sep) =~= texts(r@).push(start));
    }
    while i < to
        invariant
            from <= begin <= i <= to <= v@.len(),
            split_on(v@.subrange(from as int, i as int), sep) == texts(r@).push(
                v@.subrange(begin as int, i as int),
            ),
        decreases to - i,
    {
        assert(v@.subrange(from as int, i + 1).drop_last() == v@.subrange(from as int, i as int));
        let ghost before = split_on(v@.subrange(from as int, i as int), sep);
        assert(before.drop_last() == texts(r@));
        if v[i] == sep {
            r.push(slice_text(v, begin, i));
            begin = i + 1;
            assert(v@.subrange(begin as int, i + 1) == Seq::<char>::empty());
        } else {
            assert(v@.subrange(begin as int, i as int).push(v@[i as int]) == v@.subrange(
                begin as int,
                i + 1,
            ));
        }
        i = i + 1;
    }
    r.push(slice_text(v, begin, to));
    r
}

/// Splits `s` at each `sep`.
pub fn split_text(s: &str, sep: char) -> (r: Vec<String>)
    ensures
        texts(r@) == split_on(s@, sep),
{
    let v = to_chars(s);
    assert(v@.subrange(0, v@.len() as int) == s@);
    split_chars(&v, 0, v.len(), sep)
}

// ---------------------------------------------------------------------------
// Lines
// ---------------------------------------------------------------------------

/// The line without one carriage return at its end.
pub open spec fn strip_cr(line: Seq<char>) -> Seq<char> {
    if line.len() > 0 && line.last() == '\r' {
        line.drop_last()
    } else {
        line
    }
}

/// The lines of a text: a line ends at `\n` or `\r\n`, and the last one may
/// lack its ending.
pub open spec fn lines(s: Seq<char>) -> Seq<Seq<char>> {
    let parts = split_on(s, '\n');
    let ended = parts.drop_last().map_values(|p: Seq<char>| strip_cr(p));
    if parts.last().len() == 0 {
        ended
    } else {
        ended.push(parts.last())
    }
}

/// Splits a text into its lines.
pub fn split_lines(s: &str) -> (r: Vec<String>)
    ensures
        texts(r@) == lines(s@),
{
    let parts = split_text(s, '\n');
    let ghost all = split_on(s@, '\n');
    proof {
        split_on_joined(s@, '\n');
        assert(texts(parts@).len() == parts@.len());
    }
    let ghost ended = all.drop_last().map_values(|p: Seq<char>| strip_cr(p));
    let mut r: Vec<String> = Vec::new();
    let last: usize = parts.len() - 1;
    for i in 0..last
        invariant
            texts(parts@) == all,
            last == parts@.len() - 1,
            ended == all.drop_last().map_values(|p: Seq<char>| strip_cr(p)),
            texts(r@) == ended.take(i as int),
    {
        let chars = to_chars(parts[i].as_str());
        assert(all[i as int] == chars@) by {
            assert(texts(parts@)[i as int] == parts@[i as int]@);
        }
        let n: usize = chars.len();
        assert(chars@.subrange(0, n as int) == chars@);
        assert(n > 0 ==> chars@.subrange(0, n - 1) == chars@.drop_last());
        if n > 0 && chars[n - 1] == '\r' {
            push_text(&mut r, slice_text(&chars, 0, n - 1).as_str());
        } else {
            push_text(&mut r, slice_text(&chars, 0, n).as_str());
        }
        assert(ended[i as int] == strip_cr(all[i as int]));
        assert(texts(r@) == ended.take(i + 1));
    }
    assert(ended.take(last as int) == ended);
    assert(all.last() == parts@[last as int]@) by {
        assert(texts(parts@)[last as int] == parts@[last as int]@);
    }
    let tail = to_chars(parts[last].as_str());
    if tail.len() > 0 {
        push_text(&mut r, slice_text(&tail, 0, tail.len()).as_str());
        assert(tail@.subrange(0, tail@.len() as int) == tail@);
        assert(texts(r@) == ended.push(all.last()));
    }
    r
}

// ---------------------------------------------------------------------------
// Trimming
// ---------------------------------------------------------------------------

/// The characters with the Unicode property White_Space.
pub open spec fn is_white(c: char) -> bool {
    ||| '\u{9}' <= c <= '\u{d}'
    ||| c == ' '
    ||| c == '\u{85}'
    ||| c == '\u{a0}'
    ||| c == '\u{1680}'
    ||| '\u{2000}' <= c <= '\u{200a}'
    ||| c == '\u{2028}'
    ||| c == '\u{2029}'
    ||| c == '\u{202f}'
    ||| c == '\u{205f}'
    ||| c == '\u{3000}'
}

/// Decides whether a character is white space.
pub fn white(c: char) -> (r: bool)
    ensures
        r == is_white(c),
{
    ('\u{9}' <= c && c <= '\u{d}') || c == ' ' || c == '\u{85}' || c == '\u{a0}' || c == '\u{1680}'
        || ('\u{2000}' <= c && c <= '\u{200a}') || c == '\u{2028}' || c == '\u{2029}' || c
        == '\u{202f}' || c == '\u{205f}' || c == '\u{3000}'
}

/// The text from its first character that is not white space.
pub open spec fn trim_start(s: Seq<char>) -> Seq<char>
    decreases s.len(),
{
    if s.len() > 0 && is_white(s[0]) {
        trim_start(s.drop_first())
    } else {
        s
    }
}

/// The text up to its last character that is not white space.
pub open spec fn trim_end(s: Seq<char>) -> Seq<char>
    decreases s.len(),
{
    if s.len() > 0 && is_white(s.last()) {
        trim_end(s.drop_last())
    } else {
        s
    }
}

/// The text without white space at either end.
pub open spec fn trimmed(s: Seq<char>) -> Seq<char> {
    trim_end(trim_start(s))
}

/// Removes white space at both ends.
pub fn trim_text(s: &str) -> (r: String)
    ensures
        r@ == trimmed(s@),
{
    let v = to_chars(s);
    let n: usize = v.len();
    let mut from: usize = 0;
    assert(s@.subrange(0, n as int) == s@);
    while from < n && white(v[from])
        invariant
            v@ == s@,
            n == v@.len(),
            from <= n,
            trim_start(s@) == trim_start(s@.subrange(from as int, n as int)),
        decreases n - from,
    {
        assert(s@.subrange(from as int, n as int).drop_first() == s@.subrange(from + 1, n as int));
        from = from + 1;
    }
    let ghost left = s@.subrange(from as int, n as int);
    assert(trim_start(s@) == left);
    let mut to: usize = n;
    while to > from && white(v[to - 1])
        invariant
            v@ == s@,
            n == v@.len(),
            from <= to <= n,
            trim_end(left) == trim_end(s@.subrange(from as int, to as int)),
        decreases to,
    {
        assert(s@.subrange(from as int, to as int).drop_last() == s@.subrange(from as int, to - 1));
        to = to - 1;
    }
    slice_text(&v, from, to)
}

// ---------------------------------------------------------------------------
// Markers
// ---------------------------------------------------------------------------

/// Whether `p` stands at the start of `s`.
pub open spec fn starts_with(s: Seq<char>, p: Seq<char>) -> bool {
    p.len() <= s.len() && s.take(p.len() as int) == p
}

/// Decides whether `p` stands in `v` at position `at`.
pub fn chars_at(v: &Vec<char>, at: usize, p: &Vec<char>) -> (r: bool)
    requires
        at <= v@.len(),
    ensures
        r == starts_with(v@.skip(at as int), p@),
{
    if p.len() > v.len() - at {
        return false;
    }
    for i in 0..p.len()
        invariant
            at + p@.len() <= v@.len() <= usize::MAX,
            forall|j: int| 0 <= j < i ==> v@[at + j] == p@[j],
    {
        if v[at + i] != p[i] {
            assert(v@.skip(at as int).take(p@.len() as int)[i as int] == v@[at + i]);
            return false;
        }
    }
    assert(v@.skip(at as int).take(p@.len() as int) =~= p@);
    true
}

/// What follows the first occurrence of `marker` in `s`, if there is one.
pub open spec fn after_first(s: Seq<char>, marker: Seq<char>) -> Option<Seq<char>>
    decreases s.len(),
{
    if starts_with(s, marker) {
        Some(s.skip(marker.len() as int))
    } else if s.len() == 0 {
        None
    } else {
        after_first(s.drop_first(), marker)
    }
}

/// Finds where the text after the first occurrence of `marker` begins.
pub fn find_after(v: &Vec<char>, marker: &Vec<char>) -> (r: Option<usize>)
    ensures
        match r {
            Some(i) => i <= v@.len() && after_first(v@, marker@) == Some(v@.skip(i as int)),
            None => after_first(v@, marker@) is None,
        },
{
    let mut at: usize = 0;
    assert(v@.skip(0) == v@);
    while at < v.len()
        invariant
            at <= v@.len(),
            after_first(v@, marker@) == after_first(v@.skip(at as int), marker@),
        decreases v@.len() - at,
    {
        if chars_at(v, at, marker) {
            assert(v@.skip(at as int).skip(marker@.len() as int) == v@.skip(at + marker@.len()));
            return Some(at + marker.len());
        }
        assert(v@.skip(at as int).drop_first() == v@.skip(at + 1));
        at = at + 1;
    }
    if chars_at(v, at, marker) {
        assert(v@.skip(at as int).skip(marker@.len() as int) == v@.skip(at + marker@.len()));
        return Some(at + marker.len());
    }
    None
}

/// The part of `s` before its first `sep`, or all of it.
pub open spec fn before_first(s: Seq<char>, sep: char) -> Seq<char> {
    split_on(s, sep)[0]
}

/// What stands before the first `sep`: the first piece of a split is the text
/// itself where there is no separator.
pub proof fn split_without_separator(s: Seq<char>, sep: char)
    requires
        !s.contains(sep),
    ensures
        split_on(s, sep) == seq![s],
    decreases s.len(),
{
    if s.len() > 0 {
        assert forall|i: int| 0 <= i < s.drop_last().len() implies s.drop_last()[i] != sep by {
            assert(s[i] == s.drop_last()[i]);
            assert(s.contains(s[i]));
        }
        split_without_separator(s.drop_last(), sep);
        assert(s.contains(s.last()));
        assert(split_on(s, sep) =~= seq![s.drop_last().push(s.last())]);
        assert(s.drop_last().push(s.last()) =~= s);
    } else {
        assert(s =~= Seq::<char>::empty());
    }
}

/// Behind a separator, a text without separators is the last piece.
pub proof fn split_after_separator(s: Seq<char>, rest: Seq<char>, sep: char)
    requires
        !rest.contains(sep),
    ensures
        split_on(s + seq![sep] + rest, sep) == split_on(s, sep).push(rest),
    decreases rest.len(),
{
    let all = s + seq![sep] + rest;
    if rest.len() == 0 {
        assert(all.drop_last() =~= s);
        assert(rest =~= Seq::<char>::empty());
    } else {
        assert forall|i: int| 0 <= i < rest.drop_last().len() implies rest.drop_last()[i]
            != sep by {
            assert(rest.contains(rest[i]));
        }
        split_after_separator(s, rest.drop_last(), sep);
        assert(all.drop_last() =~= s + seq![sep] + rest.drop_last());
        assert(rest.contains(rest.last()));
        assert(rest.drop_last().push(rest.last()) =~= rest);
        assert(split_on(s, sep).push(rest.drop_last()).drop_last() =~= split_on(s, sep));
    }
}

} // verus!
