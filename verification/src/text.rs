//! Characters and the cleaning of raw text.

use vstd::prelude::*;
use vstd::string::*;

verus! {

broadcast use vstd::string::group_string_axioms;

/// A character that the text format keeps as it is: visible ASCII.
pub open spec fn is_printable(c: char) -> bool {
    0x21 <= c as u32 <= 0x7E
}

/// White space that may stand between the tokens of a record.
pub open spec fn is_blank(c: char) -> bool {
    c == ' ' || c == '\t' || c == '\n' || c == '\r'
}

/// Whether the character at `i` survives cleaning: visible characters do,
/// and so does a space unless a space stands right before it. Every other
/// character, line breaks and tabs among them, is dropped.
pub open spec fn keeps(s: Seq<char>, i: int) -> bool {
    is_printable(s[i]) || (s[i] == ' ' && (i == 0 || s[i - 1] != ' '))
}

/// The cleaned form of the first `n` characters of `s`.
pub open spec fn sanitized_upto(s: Seq<char>, n: int) -> Seq<char>
    decreases n,
{
    if n <= 0 {
        Seq::empty()
    } else if keeps(s, n - 1) {
        sanitized_upto(s, n - 1).push(s[n - 1])
    } else {
        sanitized_upto(s, n - 1)
    }
}

/// The cleaned form of `s`: its kept characters, in order.
pub open spec fn sanitized(s: Seq<char>) -> Seq<char> {
    sanitized_upto(s, s.len() as int)
}

/// Whether cleaning leaves every character of `s` in place.
pub open spec fn is_clean(s: Seq<char>) -> bool {
    forall|i: int| 0 <= i < s.len() ==> keeps(s, i)
}

/// Cleaning the first `n` characters looks at no character after them.
pub proof fn lemma_sanitized_upto_prefix(a: Seq<char>, b: Seq<char>, n: int)
    requires
        n <= a.len(),
        n <= b.len(),
        forall|i: int| 0 <= i < n ==> a[i] == b[i],
    ensures
        sanitized_upto(a, n) == sanitized_upto(b, n),
    decreases n,
{
    if n > 0 {
        lemma_sanitized_upto_prefix(a, b, n - 1);
    }
}

/// A clean text is its own cleaned form.
pub proof fn lemma_sanitized_clean(s: Seq<char>)
    requires
        is_clean(s),
    ensures
        sanitized(s) == s,
{
    lemma_sanitized_upto_clean(s, s.len() as int);
    assert(s.take(s.len() as int) =~= s);
}

proof fn lemma_sanitized_upto_clean(s: Seq<char>, n: int)
    requires
        is_clean(s),
        0 <= n <= s.len(),
    ensures
        sanitized_upto(s, n) == s.take(n),
    decreases n,
{
    if n > 0 {
        lemma_sanitized_upto_clean(s, n - 1);
        assert(s.take(n - 1).push(s[n - 1]) =~= s.take(n));
    } else {
        assert(s.take(0) =~= Seq::<char>::empty());
    }
}

/// Two texts are cleaned one by one, unless a space at the end of the first
/// meets a space at the head of the second.
pub proof fn lemma_sanitized_concat(a: Seq<char>, b: Seq<char>)
    requires
        a.len() == 0 || b.len() == 0 || a.last() != ' ' || b[0] != ' ',
    ensures
        sanitized(a + b) == sanitized(a) + sanitized(b),
{
    lemma_sanitized_upto_concat(a, b, b.len() as int);
    assert(sanitized(a + b) == sanitized_upto(a + b, (a.len() + b.len()) as int));
}

proof fn lemma_sanitized_upto_concat(a: Seq<char>, b: Seq<char>, n: int)
    requires
        a.len() == 0 || b.len() == 0 || a.last() != ' ' || b[0] != ' ',
        0 <= n <= b.len(),
    ensures
        sanitized_upto(a + b, a.len() + n) == sanitized(a) + sanitized_upto(b, n),
    decreases n,
{
    if n > 0 {
        lemma_sanitized_upto_concat(a, b, n - 1);
        let at = a.len() + n - 1;
        assert((a + b)[at] == b[n - 1]);
        if n > 1 {
            assert((a + b)[at - 1] == b[n - 2]);
        } else if a.len() > 0 {
            assert((a + b)[at - 1] == a.last());
        }
        assert(keeps(a + b, at) == keeps(b, n - 1));
        if keeps(b, n - 1) {
            assert(sanitized(a) + sanitized_upto(b, n - 1).push(b[n - 1]) =~= (sanitized(a)
                + sanitized_upto(b, n - 1)).push(b[n - 1]));
        }
    } else {
        lemma_sanitized_upto_prefix(a + b, a, a.len() as int);
        assert(sanitized(a) + Seq::<char>::empty() =~= sanitized(a));
    }
}

/// A cleaned text holds visible characters and spaces only.
pub proof fn lemma_sanitized_holds_what_is_kept(s: Seq<char>)
    ensures
        forall|i: int|
            0 <= i < sanitized(s).len() ==> is_printable(#[trigger] sanitized(s)[i]) || sanitized(
                s,
            )[i] == ' ',
{
    lemma_sanitized_upto_holds_what_is_kept(s, s.len() as int);
}

proof fn lemma_sanitized_upto_holds_what_is_kept(s: Seq<char>, n: int)
    requires
        n <= s.len(),
    ensures
        forall|i: int|
            0 <= i < sanitized_upto(s, n).len() ==> is_printable(
                #[trigger] sanitized_upto(s, n)[i],
            ) || sanitized_upto(s, n)[i] == ' ',
    decreases n,
{
    if n > 0 {
        lemma_sanitized_upto_holds_what_is_kept(s, n - 1);
        let before = sanitized_upto(s, n - 1);
        let now = sanitized_upto(s, n);
        assert forall|i: int| 0 <= i < now.len() implies is_printable(#[trigger] now[i]) || now[i]
            == ' ' by {
            if i < before.len() {
                assert(now[i] == before[i]);
            }
        }
    }
}

/// `String::push` appends one character to the end of the string.
pub assume_specification[ String::push ](s: &mut String, c: char)
    ensures
        final(s)@ == old(s)@.push(c),
;

/// Tells whether `c` is visible ASCII.
pub fn printable(c: char) -> (r: bool)
    ensures
        r == is_printable(c),
{
    '!' <= c && c <= '~'
}

/// Tells whether `c` is white space.
pub fn blank(c: char) -> (r: bool)
    ensures
        r == is_blank(c),
{
    c == ' ' || c == '\t' || c == '\n' || c == '\r'
}

/// The characters of `s`, in order.
pub fn chars_of(s: &str) -> (out: Vec<char>)
    ensures
        out@ == s@,
{
    let mut out: Vec<char> = Vec::new();
    for c in it: s.chars()
        invariant
            out@ == it.seq().take(it.index()),
            it.seq() == s@,
    {
        out.push(c);
    }
    out
}

/// The string made of `chars[from..to]`.
pub(crate) fn string_of(chars: &[char], from: usize, to: usize) -> (out: String)
    requires
        from <= to <= chars@.len(),
    ensures
        out@ == chars@.subrange(from as int, to as int),
{
    let mut out = String::new();
    let mut i: usize = from;
    while i < to
        invariant
            from <= i <= to <= chars@.len(),
            out@ == chars@.subrange(from as int, i as int),
        decreases to - i,
    {
        out.push(chars[i]);
        i += 1;
    }
    out
}

/// Cleans a buffer of characters.
pub fn sanitize_chars(source: &[char]) -> (out: Vec<char>)
    ensures
        out@ == sanitized(source@),
{
    let mut out: Vec<char> = Vec::new();
    let mut i: usize = 0;
    while i < source.len()
        invariant
            i <= source@.len(),
            out@ == sanitized_upto(source@, i as int),
        decreases source@.len() - i,
    {
        let c = source[i];
        if printable(c) || (c == ' ' && (i == 0 || source[i - 1] != ' ')) {
            out.push(c);
        }
        i += 1;
    }
    out
}

/// Cleans raw text before it is read: keeps visible ASCII, keeps one space
/// of every run of spaces, and drops the rest. No input is refused, and the
/// empty text stays empty.
pub fn sanitize(source: &str) -> (out: String)
    ensures
        out@ == sanitized(source@),
{
    let chars = chars_of(source);
    let clean = sanitize_chars(chars.as_slice());
    string_of(clean.as_slice(), 0, clean.len())
}

} // verus!
