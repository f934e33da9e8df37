//! Lines of a text, and white space at the ends of a line.

use vstd::prelude::*;
use crate::scan::{find_char, lemma_position_of, position_of};

verus! {

/// Whether `c` is white space as Unicode has it.
pub uninterp spec fn white_space(c: char) -> bool;

/// `char::is_whitespace` tells whether the character has the Unicode
/// property White_Space. Which characters have it is not stated here: the
/// result is only given a name.
pub assume_specification[ char::is_whitespace ](c: char) -> (r: bool)
    ensures
        r == white_space(c),
;

/// For every character of `s`, whether it is Unicode white space.
pub open spec fn marks_of(s: Seq<char>) -> Seq<bool> {
    Seq::new(s.len(), |i: int| white_space(s[i]))
}

/// Whether `white` marks the position `i` as white space. A position that
/// `white` does not reach is not marked.
pub open spec fn marked(white: Seq<bool>, i: int) -> bool {
    0 <= i < white.len() && white[i]
}

/// The first position in `from..end` that is not marked; `end` if there is
/// none.
pub open spec fn past_white(white: Seq<bool>, from: int, end: int) -> int
    decreases end - from,
{
    if from < end && marked(white, from) {
        past_white(white, from + 1, end)
    } else {
        from
    }
}

/// The end of `start..end` once the marked positions at its end are cut
/// off.
pub open spec fn before_white(white: Seq<bool>, start: int, end: int) -> int
    decreases end - start,
{
    if start < end && marked(white, end - 1) {
        before_white(white, start, end - 1)
    } else {
        end
    }
}

/// The text `s[from..to]` without the characters at its head and at its
/// end that `white` marks.
pub open spec fn trimmed_part(s: Seq<char>, white: Seq<bool>, from: int, to: int) -> Seq<char> {
    let first = past_white(white, from, to);
    s.subrange(first, before_white(white, first, to))
}

/// `s` without the characters at its head and at its end that `white`
/// marks.
pub open spec fn trimmed_by(s: Seq<char>, white: Seq<bool>) -> Seq<char> {
    trimmed_part(s, white, 0, s.len() as int)
}

/// `s` without the Unicode white space at its head and at its end.
pub open spec fn trimmed(s: Seq<char>) -> Seq<char> {
    trimmed_by(s, marks_of(s))
}

/// Where the line that begins at `from` and has its line feed at `feed`
/// ends: before the line feed, and before a carriage return that stands
/// right before the line feed.
pub open spec fn line_end(s: Seq<char>, from: int, feed: int) -> int {
    if from < feed && s[feed - 1] == '\r' {
        feed - 1
    } else {
        feed
    }
}

/// From where to where the lines of `s` stand, from `from` on. A line ends
/// at a line feed; the line feed, and a carriage return right before it,
/// belong to no line. What stands after the last line feed is a line of its
/// own, as it is, unless it is empty.
pub open spec fn line_bounds_from(s: Seq<char>, from: int) -> Seq<(int, int)>
    decreases s.len() - from,
{
    if from >= s.len() {
        Seq::empty()
    } else {
        let feed = position_of(s, '\n', from);
        if feed >= s.len() {
            seq![(from, s.len() as int)]
        } else {
            proof {
                lemma_position_of(s, '\n', from);
            }
            seq![(from, line_end(s, from, feed))] + line_bounds_from(s, feed + 1)
        }
    }
}

/// From where to where the lines of `s` stand.
pub open spec fn line_bounds(s: Seq<char>) -> Seq<(int, int)> {
    line_bounds_from(s, 0)
}

/// Bounds as a machine holds them, as plain numbers.
pub open spec fn bounds_view(marks: Seq<(usize, usize)>) -> Seq<(int, int)> {
    marks.map_values(|mark: (usize, usize)| (mark.0 as int, mark.1 as int))
}

/// The lines of `s` lie within `s`, each ends where it begins or later,
/// and each begins where the one before it ended or later.
pub proof fn lemma_line_bounds(s: Seq<char>, from: int)
    requires
        0 <= from,
    ensures
        forall|k: int|
            0 <= k < line_bounds_from(s, from).len() ==> from <= (#[trigger] line_bounds_from(
                s,
                from,
            )[k]).0 <= line_bounds_from(s, from)[k].1 <= s.len(),
    decreases s.len() - from,
{
    if from < s.len() {
        let feed = position_of(s, '\n', from);
        lemma_position_of(s, '\n', from);
        if feed < s.len() {
            lemma_line_bounds(s, feed + 1);
            let rest = line_bounds_from(s, feed + 1);
            let all = line_bounds_from(s, from);
            assert forall|k: int| 0 <= k < all.len() implies from <= (#[trigger] all[k]).0
                <= all[k].1 <= s.len() by {
                if k > 0 {
                    assert(all[k] == rest[k - 1]);
                }
            }
        }
    }
}

/// Tells of every character of `s` whether it is Unicode white space.
pub fn white_marks(s: &[char]) -> (out: Vec<bool>)
    ensures
        out@ == marks_of(s@),
{
    let mut out: Vec<bool> = Vec::new();
    let mut i: usize = 0;
    while i < s.len()
        invariant
            i <= s@.len(),
            out@.len() == i,
            forall|k: int| 0 <= k < i ==> out@[k] == white_space(s@[k]),
        decreases s@.len() - i,
    {
        out.push(s[i].is_whitespace());
        i += 1;
    }
    assert(out@ =~= marks_of(s@));
    out
}

/// The text `s[from..to]` without the characters at its head and at its
/// end that `white` marks.
pub(crate) fn trim_part(s: &[char], white: &[bool], from: usize, to: usize) -> (out: Vec<char>)
    requires
        from <= to <= s@.len(),
    ensures
        out@ == trimmed_part(s@, white@, from as int, to as int),
{
    let mut first: usize = from;
    while first < to && first < white.len() && white[first]
        invariant
            from <= first <= to,
            past_white(white@, from as int, to as int) == past_white(
                white@,
                first as int,
                to as int,
            ),
        decreases to - first,
    {
        first += 1;
    }
    let mut end: usize = to;
    while first < end && end - 1 < white.len() && white[end - 1]
        invariant
            first <= end <= to,
            before_white(white@, first as int, to as int) == before_white(
                white@,
                first as int,
                end as int,
            ),
        decreases end - first,
    {
        end -= 1;
    }
    let mut out: Vec<char> = Vec::new();
    let mut i: usize = first;
    while i < end
        invariant
            first <= i <= end <= s@.len(),
            out@ == s@.subrange(first as int, i as int),
        decreases end - i,
    {
        out.push(s[i]);
        i += 1;
    }
    out
}

/// `s` without the characters at its head and at its end that `white`
/// marks.
pub fn trim_marked(s: &[char], white: &[bool]) -> (out: Vec<char>)
    ensures
        out@ == trimmed_by(s@, white@),
{
    trim_part(s, white, 0, s.len())
}

/// `s` without the Unicode white space at its head and at its end.
pub fn trim(s: &[char]) -> (out: Vec<char>)
    ensures
        out@ == trimmed(s@),
{
    let white = white_marks(s);
    trim_marked(s, white.as_slice())
}

/// Where the lines of `s` begin and end: for every line, in order, the
/// positions between which it stands in `s`.
pub fn split_lines(s: &[char]) -> (out: Vec<(usize, usize)>)
    ensures
        bounds_view(out@) == line_bounds(s@),
{
    let mut out: Vec<(usize, usize)> = Vec::new();
    let mut from: usize = 0;
    while from < s.len()
        invariant
            from <= s@.len(),
            line_bounds(s@) == bounds_view(out@) + line_bounds_from(s@, from as int),
        decreases s@.len() - from,
    {
        let feed = find_char(s, '\n', from);
        proof {
            lemma_position_of(s@, '\n', from as int);
        }
        let ghost before = bounds_view(out@);
        let ghost rest = line_bounds_from(s@, from as int);
        if feed >= s.len() {
            out.push((from, s.len()));
            assert(bounds_view(out@) =~= before.push((from as int, s@.len() as int)));
            assert(before + rest =~= bounds_view(out@) + line_bounds_from(s@, s@.len() as int));
            from = s.len();
        } else {
            let end = if feed > from && s[feed - 1] == '\r' {
                feed - 1
            } else {
                feed
            };
            out.push((from, end));
            assert(bounds_view(out@) =~= before.push((from as int, end as int)));
            assert(before + rest =~= bounds_view(out@) + line_bounds_from(s@, feed + 1));
            from = feed + 1;
        }
    }
    assert(bounds_view(out@) + Seq::<(int, int)>::empty() =~= bounds_view(out@));
    out
}

} // verus!
