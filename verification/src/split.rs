//! Cutting a sequence of characters into fields, tokens and lines.

use vstd::prelude::*;
use vstd::slice::slice_subrange;
use crate::chars::{is_whitespace, whitespace};

verus! {

/// How many characters of `s` stand before the first `c`: the length of `s`
/// where `c` does not occur in it.
pub open spec fn until(s: Seq<char>, c: char) -> nat
    decreases s.len(),
{
    if s.len() == 0 || s[0] == c {
        0
    } else {
        1 + until(s.skip(1), c)
    }
}

/// How many characters at the start of `s` are all blank (`blank` set) or all
/// not blank (`blank` not set).
pub open spec fn run(s: Seq<char>, blank: bool) -> nat
    decreases s.len(),
{
    if s.len() == 0 || is_whitespace(s[0]) != blank {
        0
    } else {
        1 + run(s.skip(1), blank)
    }
}

/// `until` finds the first occurrence and nothing before it.
pub proof fn law_until_finds_the_first(s: Seq<char>, c: char)
    ensures
        until(s, c) <= s.len(),
        forall|i: int| 0 <= i < until(s, c) ==> s[i] != c,
        until(s, c) < s.len() ==> s[until(s, c) as int] == c,
    decreases s.len(),
{
    if s.len() == 0 || s[0] == c {
    } else {
        law_until_finds_the_first(s.skip(1), c);
        assert forall|i: int| 0 <= i < until(s, c) implies s[i] != c by {
            if i > 0 {
                assert(s.skip(1)[i - 1] == s[i]);
            }
        }
        assert(s.skip(1)[until(s.skip(1), c) as int] == s[until(s, c) as int] || until(s, c)
            >= s.len());
    }
}

/// `run` covers the longest prefix of one kind.
pub proof fn law_run_is_longest(s: Seq<char>, blank: bool)
    ensures
        run(s, blank) <= s.len(),
        forall|i: int| 0 <= i < run(s, blank) ==> is_whitespace(s[i]) == blank,
        run(s, blank) < s.len() ==> is_whitespace(s[run(s, blank) as int]) != blank,
    decreases s.len(),
{
    if s.len() == 0 || is_whitespace(s[0]) != blank {
    } else {
        law_run_is_longest(s.skip(1), blank);
        assert forall|i: int| 0 <= i < run(s, blank) implies is_whitespace(s[i]) == blank by {
            if i > 0 {
                assert(s.skip(1)[i - 1] == s[i]);
            }
        }
        assert(s.skip(1)[run(s.skip(1), blank) as int] == s[run(s, blank) as int] || run(
            s,
            blank,
        ) >= s.len());
    }
}

/// The pieces of `s` between occurrences of `sep`. There is always at least
/// one; a piece is empty where two separators touch or one stands at an end.
pub open spec fn fields(s: Seq<char>, sep: char) -> Seq<Seq<char>>
    decreases s.len(),
{
    let n = until(s, sep);
    if n >= s.len() {
        seq![s]
    } else {
        seq![s.take(n as int)] + fields(s.skip(n as int + 1), sep)
    }
}

/// The tokens of `s`: its longest runs of characters that are not blank, in
/// order.
pub open spec fn tokens(s: Seq<char>) -> Seq<Seq<char>>
    decreases s.len(),
{
    let t = s.skip(run(s, true) as int);
    if run(s, true) >= s.len() {
        Seq::empty()
    } else {
        proof {
            law_run_is_longest(s, true);
            law_run_is_longest(t, false);
        }
        let n = run(t, false);
        seq![t.take(n as int)] + tokens(t.skip(n as int))
    }
}

/// A line without the carriage return that may close it.
pub open spec fn without_cr(l: Seq<char>) -> Seq<char> {
    if l.len() > 0 && l.last() == '\r' {
        l.drop_last()
    } else {
        l
    }
}

/// The lines of `s`. A line ends at a line feed, and a carriage return
/// directly before that line feed belongs to the ending. What follows the last
/// line feed is a line too, unless nothing follows it.
pub open spec fn lines(s: Seq<char>) -> Seq<Seq<char>>
    decreases s.len(),
{
    let n = until(s, '\n');
    if s.len() == 0 {
        Seq::empty()
    } else if n >= s.len() {
        seq![s]
    } else {
        seq![without_cr(s.take(n as int))] + lines(s.skip(n as int + 1))
    }
}

/// What a list of slices holds.
pub open spec fn views(v: Seq<&[char]>) -> Seq<Seq<char>> {
    v.map_values(|p: &[char]| p@)
}

/// Counts the characters before the first `c`.
pub fn scan_until(s: &[char], c: char) -> (n: usize)
    ensures
        n == until(s@, c),
        n <= s@.len(),
{
    let mut i: usize = 0;
    assert(s@.skip(0) =~= s@);
    while i < s.len() && s[i] != c
        invariant
            i <= s@.len(),
            until(s@, c) == i + until(s@.skip(i as int), c),
        decreases s@.len() - i,
    {
        assert(s@.skip(i as int).skip(1) =~= s@.skip(i + 1));
        i += 1;
    }
    i
}

/// Counts the leading characters of one kind.
pub fn scan_run(s: &[char], blank: bool) -> (n: usize)
    ensures
        n == run(s@, blank),
        n <= s@.len(),
{
    let mut i: usize = 0;
    assert(s@.skip(0) =~= s@);
    while i < s.len() && whitespace(s[i]) == blank
        invariant
            i <= s@.len(),
            run(s@, blank) == i + run(s@.skip(i as int), blank),
        decreases s@.len() - i,
    {
        assert(s@.skip(i as int).skip(1) =~= s@.skip(i + 1));
        i += 1;
    }
    i
}

/// Cuts `s` at every `sep`.
pub fn split_fields<'a>(s: &'a [char], sep: char) -> (out: Vec<&'a [char]>)
    ensures
        views(out@) == fields(s@, sep),
{
    let mut out: Vec<&'a [char]> = Vec::new();
    let mut rest: &'a [char] = s;
    loop
        invariant
            views(out@) + fields(rest@, sep) == fields(s@, sep),
        decreases rest@.len(),
    {
        let n = scan_until(rest, sep);
        let ghost before = out@;
        if n >= rest.len() {
            out.push(rest);
            assert(views(out@) =~= views(before) + seq![rest@]);
            return out;
        }
        let piece = slice_subrange(rest, 0, n);
        let tail = slice_subrange(rest, n + 1, rest.len());
        out.push(piece);
        assert(views(out@) + fields(tail@, sep) =~= views(before) + (seq![piece@] + fields(
            tail@,
            sep,
        )));
        rest = tail;
    }
}

/// Cuts `s` into its tokens.
pub fn split_tokens<'a>(s: &'a [char]) -> (out: Vec<&'a [char]>)
    ensures
        views(out@) == tokens(s@),
{
    let mut out: Vec<&'a [char]> = Vec::new();
    let mut rest: &'a [char] = s;
    loop
        invariant
            views(out@) + tokens(rest@) == tokens(s@),
        decreases rest@.len(),
    {
        let b = scan_run(rest, true);
        let ghost before = out@;
        if b >= rest.len() {
            assert(views(out@) + Seq::<Seq<char>>::empty() =~= views(out@));
            return out;
        }
        let t = slice_subrange(rest, b, rest.len());
        let n = scan_run(t, false);
        proof {
            law_run_is_longest(rest@, true);
            law_run_is_longest(t@, false);
        }
        let piece = slice_subrange(t, 0, n);
        let tail = slice_subrange(t, n, t.len());
        out.push(piece);
        assert(views(out@) + tokens(tail@) =~= views(before) + (seq![piece@] + tokens(tail@)));
        rest = tail;
    }
}

/// Cuts `s` into its lines.
pub fn split_lines<'a>(s: &'a [char]) -> (out: Vec<&'a [char]>)
    ensures
        views(out@) == lines(s@),
{
    let mut out: Vec<&'a [char]> = Vec::new();
    let mut rest: &'a [char] = s;
    loop
        invariant
            views(out@) + lines(rest@) == lines(s@),
        decreases rest@.len(),
    {
        let ghost before = out@;
        if rest.len() == 0 {
            assert(views(out@) + Seq::<Seq<char>>::empty() =~= views(out@));
            return out;
        }
        let n = scan_until(rest, '\n');
        if n >= rest.len() {
            out.push(rest);
            assert(views(out@) =~= views(before) + seq![rest@]);
            return out;
        }
        let tail = slice_subrange(rest, n + 1, rest.len());
        let piece = if n > 0 && rest[n - 1] == '\r' {
            slice_subrange(rest, 0, n - 1)
        } else {
            slice_subrange(rest, 0, n)
        };
        assert(piece@ =~= without_cr(rest@.take(n as int)));
        out.push(piece);
        assert(views(out@) + lines(tail@) =~= views(before) + (seq![piece@] + lines(tail@)));
        rest = tail;
    }
}

} // verus!
