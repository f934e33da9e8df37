//! Looking for characters and words in a buffer of characters.

use vstd::prelude::*;
use crate::text::{is_blank, blank};

verus! {

/// Where `c` first stands in `s` at or after `from`; `s.len()` if nowhere.
pub open spec fn position_of(s: Seq<char>, c: char, from: int) -> int
    decreases s.len() - from,
{
    if from >= s.len() {
        s.len() as int
    } else if s[from] == c {
        from
    } else {
        position_of(s, c, from + 1)
    }
}

/// Whether `token` stands in `s` at `at`.
pub open spec fn token_at(s: Seq<char>, token: Seq<char>, at: int) -> bool {
    &&& 0 <= at
    &&& at + token.len() <= s.len()
    &&& s.subrange(at, at + token.len()) == token
}

/// Where `token` first stands in `s` at or after `from`; `s.len()` if
/// nowhere.
pub open spec fn position_of_token(s: Seq<char>, token: Seq<char>, from: int) -> int
    decreases s.len() - from,
{
    if from >= s.len() {
        s.len() as int
    } else if token_at(s, token, from) {
        from
    } else {
        position_of_token(s, token, from + 1)
    }
}

/// The first position in `from..end` that holds no white space; `end` if
/// there is none.
pub open spec fn past_blanks(s: Seq<char>, from: int, end: int) -> int
    decreases end - from,
{
    if from < end && is_blank(s[from]) {
        past_blanks(s, from + 1, end)
    } else {
        from
    }
}

/// The end of `start..end` once the white space at its end is cut off.
pub open spec fn before_blanks(s: Seq<char>, start: int, end: int) -> int
    decreases end - start,
{
    if start < end && is_blank(s[end - 1]) {
        before_blanks(s, start, end - 1)
    } else {
        end
    }
}

/// Where the quoted text that opens before `from` closes: the first double
/// quote at or after `from` that no backslash escapes. A backslash escapes
/// the one character after it. `s.len()` if the text never closes.
pub open spec fn closing_quote(s: Seq<char>, from: int) -> int
    decreases s.len() - from,
{
    if from >= s.len() {
        s.len() as int
    } else if s[from] == '"' {
        from
    } else if s[from] == '\\' {
        if from + 1 >= s.len() {
            s.len() as int
        } else {
            closing_quote(s, from + 2)
        }
    } else {
        closing_quote(s, from + 1)
    }
}

/// What `position_of` finds: the place holds `c`, nothing before it does,
/// and it does not lie before `from`.
pub proof fn lemma_position_of(s: Seq<char>, c: char, from: int)
    ensures
        position_of(s, c, from) <= s.len(),
        position_of(s, c, from) < s.len() ==> from <= position_of(s, c, from),
        0 <= from && position_of(s, c, from) < s.len() ==> s[position_of(s, c, from)] == c,
        forall|j: int| 0 <= from <= j < position_of(s, c, from) ==> s[j] != c,
    decreases s.len() - from,
{
    if from < s.len() && s[from] != c {
        lemma_position_of(s, c, from + 1);
    }
}

/// `position_of` is `at` when `c` stands there and nowhere in `from..at`.
pub proof fn lemma_position_of_is(s: Seq<char>, c: char, from: int, at: int)
    requires
        0 <= from <= at < s.len(),
        s[at] == c,
        forall|j: int| from <= j < at ==> s[j] != c,
    ensures
        position_of(s, c, from) == at,
    decreases at - from,
{
    if from < at {
        lemma_position_of_is(s, c, from + 1, at);
    }
}

/// What `position_of_token` finds: the token stands there, and the place
/// does not lie before `from`.
pub proof fn lemma_position_of_token(s: Seq<char>, token: Seq<char>, from: int)
    ensures
        position_of_token(s, token, from) <= s.len(),
        position_of_token(s, token, from) < s.len() ==> from <= position_of_token(s, token, from)
            && token_at(s, token, position_of_token(s, token, from)),
    decreases s.len() - from,
{
    if from < s.len() && !token_at(s, token, from) {
        lemma_position_of_token(s, token, from + 1);
    }
}

/// `past_blanks` stays within `from..end` and stops at what is not white
/// space.
pub proof fn lemma_past_blanks(s: Seq<char>, from: int, end: int)
    ensures
        from <= past_blanks(s, from, end),
        from <= end ==> past_blanks(s, from, end) <= end,
        past_blanks(s, from, end) < end ==> !is_blank(s[past_blanks(s, from, end)]),
        forall|j: int| from <= j < past_blanks(s, from, end) ==> is_blank(s[j]),
    decreases end - from,
{
    if from < end && is_blank(s[from]) {
        lemma_past_blanks(s, from + 1, end);
    }
}

/// `before_blanks` stays within `start..end` and stops after what is not
/// white space.
pub proof fn lemma_before_blanks(s: Seq<char>, start: int, end: int)
    ensures
        before_blanks(s, start, end) <= end,
        start <= end ==> start <= before_blanks(s, start, end),
        start < before_blanks(s, start, end) ==> !is_blank(s[before_blanks(s, start, end) - 1]),
    decreases end - start,
{
    if start < end && is_blank(s[end - 1]) {
        lemma_before_blanks(s, start, end - 1);
    }
}

/// What `closing_quote` finds: a double quote, not before `from`.
pub proof fn lemma_closing_quote(s: Seq<char>, from: int)
    ensures
        closing_quote(s, from) <= s.len(),
        closing_quote(s, from) < s.len() ==> from <= closing_quote(s, from),
        0 <= from && closing_quote(s, from) < s.len() ==> s[closing_quote(s, from)] == '"',
    decreases s.len() - from,
{
    if from < s.len() && s[from] != '"' {
        if s[from] == '\\' {
            if from + 1 < s.len() {
                lemma_closing_quote(s, from + 2);
            }
        } else {
            lemma_closing_quote(s, from + 1);
        }
    }
}

/// Finds `c` in `s` at or after `from`.
pub fn find_char(s: &[char], c: char, from: usize) -> (at: usize)
    ensures
        at == position_of(s@, c, from as int),
        at <= s@.len(),
{
    let mut i: usize = from;
    while i < s.len()
        invariant
            from <= i,
            position_of(s@, c, from as int) == position_of(s@, c, i as int),
        decreases s@.len() - i,
    {
        if s[i] == c {
            return i;
        }
        i += 1;
    }
    s.len()
}

/// Tells whether `token` stands in `s` at `at`.
pub fn has_token_at(s: &[char], token: &[char], at: usize) -> (r: bool)
    ensures
        r == token_at(s@, token@, at as int),
{
    if token.len() > s.len() || at > s.len() - token.len() {
        return false;
    }
    let mut k: usize = 0;
    while k < token.len()
        invariant
            k <= token@.len(),
            at + token.len() <= s.len(),
            s@.subrange(at as int, at + k) == token@.subrange(0, k as int),
        decreases token@.len() - k,
    {
        if s[at + k] != token[k] {
            assert(s@.subrange(at as int, at + token@.len())[k as int] != token@[k as int]);
            return false;
        }
        assert(s@.subrange(at as int, at + k + 1) =~= s@.subrange(at as int, at + k).push(
            s@[at + k],
        ));
        assert(token@.subrange(0, k + 1) =~= token@.subrange(0, k as int).push(token@[k as int]));
        k += 1;
    }
    assert(token@.subrange(0, token@.len() as int) =~= token@);
    true
}

/// Finds `token` in `s` at or after `from`.
pub fn find_token(s: &[char], token: &[char], from: usize) -> (at: usize)
    ensures
        at == position_of_token(s@, token@, from as int),
        at <= s@.len(),
{
    let mut i: usize = from;
    while i < s.len()
        invariant
            from <= i,
            position_of_token(s@, token@, from as int) == position_of_token(
                s@,
                token@,
                i as int,
            ),
        decreases s@.len() - i,
    {
        if has_token_at(s, token, i) {
            return i;
        }
        i += 1;
    }
    s.len()
}

/// Steps over white space from `from`, no further than `end`.
pub(crate) fn skip_blanks(s: &[char], from: usize, end: usize) -> (at: usize)
    requires
        end <= s@.len(),
    ensures
        at == past_blanks(s@, from as int, end as int),
        from <= at,
        at <= end || at == from,
{
    let mut i: usize = from;
    while i < end && blank(s[i])
        invariant
            from <= i,
            i <= end || i == from,
            end <= s@.len(),
            past_blanks(s@, from as int, end as int) == past_blanks(s@, i as int, end as int),
        decreases end - i,
    {
        i += 1;
    }
    i
}

/// Steps back over white space from `end`, no further than `start`.
pub(crate) fn trim_end(s: &[char], start: usize, end: usize) -> (at: usize)
    requires
        end <= s@.len(),
    ensures
        at == before_blanks(s@, start as int, end as int),
        at <= end,
        start <= at || at == end,
{
    let mut j: usize = end;
    while start < j && blank(s[j - 1])
        invariant
            j <= end,
            start <= j || j == end,
            end <= s@.len(),
            before_blanks(s@, start as int, end as int) == before_blanks(s@, start as int, j as int),
        decreases j - start,
    {
        j -= 1;
    }
    j
}

/// Finds the quote that closes the text opened before `from`.
pub fn find_closing_quote(s: &[char], from: usize) -> (at: usize)
    ensures
        at == closing_quote(s@, from as int),
        at <= s@.len(),
{
    let mut i: usize = from;
    while i < s.len()
        invariant
            from <= i,
            closing_quote(s@, from as int) == closing_quote(s@, i as int),
        decreases s@.len() - i,
    {
        let c = s[i];
        if c == '"' {
            return i;
        }
        if c == '\\' {
            if i + 1 >= s.len() {
                return s.len();
            }
            i += 2;
        } else {
            i += 1;
        }
    }
    s.len()
}

} // verus!
