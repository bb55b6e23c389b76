//! Putting pieces of text together, and how cutting undoes it.

use vstd::prelude::*;
use crate::chars::is_whitespace;
use crate::split::{
    fields, law_until_finds_the_first, law_run_is_longest, lines, run, tokens, until, without_cr,
};

verus! {

/// The pieces written one after another, with one `sep` between each two.
pub open spec fn joined(pieces: Seq<Seq<char>>, sep: char) -> Seq<char>
    decreases pieces.len(),
{
    if pieces.len() == 0 {
        Seq::empty()
    } else if pieces.len() == 1 {
        pieces[0]
    } else {
        joined(pieces.drop_last(), sep).push(sep) + pieces.last()
    }
}

/// The pieces written one after another, with one `end` after each.
pub open spec fn ended(pieces: Seq<Seq<char>>, end: char) -> Seq<char>
    decreases pieces.len(),
{
    if pieces.len() == 0 {
        Seq::empty()
    } else {
        ended(pieces.drop_last(), end) + pieces.last().push(end)
    }
}

/// No character of `s` is `c`.
pub open spec fn free_of(s: Seq<char>, c: char) -> bool {
    forall|i: int| 0 <= i < s.len() ==> #[trigger] s[i] != c
}

/// No character of `s` is blank.
pub open spec fn no_blank(s: Seq<char>) -> bool {
    forall|i: int| 0 <= i < s.len() ==> !is_whitespace(#[trigger] s[i])
}

/// A word: at least one character, and none of them blank.
pub open spec fn is_word(s: Seq<char>) -> bool {
    s.len() > 0 && no_blank(s)
}

/// Joining from the front: the first piece, a separator, and the others
/// joined.
pub proof fn lemma_joined_first(first: Seq<char>, others: Seq<Seq<char>>, sep: char)
    requires
        others.len() > 0,
    ensures
        joined(seq![first] + others, sep) == first.push(sep) + joined(others, sep),
    decreases others.len(),
{
    let all = seq![first] + others;
    assert(all.drop_last() =~= seq![first] + others.drop_last());
    assert(all.last() == others.last());
    if others.len() == 1 {
        assert(all.drop_last() =~= seq![first]);
        assert(joined(seq![first], sep) == first);
        assert(joined(others, sep) == others[0]);
        assert(joined(all, sep) =~= first.push(sep) + joined(others, sep));
    } else {
        lemma_joined_first(first, others.drop_last(), sep);
        assert(joined(all, sep) =~= first.push(sep) + joined(others, sep));
    }
}

/// Ending from the front: the first piece with its end, and the others with
/// theirs.
pub proof fn lemma_ended_first(first: Seq<char>, others: Seq<Seq<char>>, end: char)
    ensures
        ended(seq![first] + others, end) == first.push(end) + ended(others, end),
    decreases others.len(),
{
    let all = seq![first] + others;
    if others.len() == 0 {
        assert(all.drop_last() =~= Seq::<Seq<char>>::empty());
        assert(ended(all.drop_last(), end) =~= Seq::<char>::empty());
        assert(ended(others, end) =~= Seq::<char>::empty());
        assert(ended(all, end) =~= first.push(end) + ended(others, end));
    } else {
        assert(all.drop_last() =~= seq![first] + others.drop_last());
        assert(all.last() == others.last());
        lemma_ended_first(first, others.drop_last(), end);
        assert(ended(all, end) =~= first.push(end) + ended(others, end));
    }
}

/// Where `c` does not occur in `head`, and `tail` is empty or starts with
/// `c`, the first `c` of the two together stands where `tail` starts.
pub proof fn lemma_until_concat(head: Seq<char>, tail: Seq<char>, c: char)
    requires
        free_of(head, c),
        tail.len() == 0 || tail[0] == c,
    ensures
        until(head + tail, c) == head.len(),
    decreases head.len(),
{
    if head.len() == 0 {
        assert(head + tail =~= tail);
    } else {
        assert((head + tail).skip(1) =~= head.skip(1) + tail);
        assert forall|i: int| 0 <= i < head.skip(1).len() implies #[trigger] head.skip(1)[i]
            != c by {
            assert(head.skip(1)[i] == head[i + 1]);
        }
        lemma_until_concat(head.skip(1), tail, c);
        assert((head + tail)[0] == head[0]);
    }
}

/// Where `head` is all of one kind, and `tail` is empty or starts with a
/// character of the other kind, the run of the two together is `head`.
pub proof fn lemma_run_concat(head: Seq<char>, tail: Seq<char>, blank: bool)
    requires
        forall|i: int| 0 <= i < head.len() ==> is_whitespace(#[trigger] head[i]) == blank,
        tail.len() == 0 || is_whitespace(tail[0]) != blank,
    ensures
        run(head + tail, blank) == head.len(),
    decreases head.len(),
{
    if head.len() == 0 {
        assert(head + tail =~= tail);
    } else {
        assert((head + tail).skip(1) =~= head.skip(1) + tail);
        assert forall|i: int| 0 <= i < head.skip(1).len() implies is_whitespace(
            #[trigger] head.skip(1)[i],
        ) == blank by {
            assert(head.skip(1)[i] == head[i + 1]);
        }
        lemma_run_concat(head.skip(1), tail, blank);
        assert((head + tail)[0] == head[0]);
    }
}

/// A piece without `sep`, then `sep`, then more: the piece is the first
/// field, and the fields of the rest follow.
pub proof fn lemma_fields_first(first: Seq<char>, rest: Seq<char>, sep: char)
    requires
        free_of(first, sep),
    ensures
        fields(first.push(sep) + rest, sep) == seq![first] + fields(rest, sep),
{
    let s = first.push(sep) + rest;
    assert(s =~= first + (seq![sep] + rest));
    lemma_until_concat(first, seq![sep] + rest, sep);
    assert(s.take(first.len() as int) =~= first);
    assert(s.skip(first.len() as int + 1) =~= rest);
}

/// A piece without `sep` is its own only field.
pub proof fn lemma_fields_single(piece: Seq<char>, sep: char)
    requires
        free_of(piece, sep),
    ensures
        fields(piece, sep) == seq![piece],
{
    assert(piece + Seq::<char>::empty() =~= piece);
    lemma_until_concat(piece, Seq::empty(), sep);
}

/// Cutting at `sep` undoes joining with `sep`: pieces without `sep`, and at
/// least one of them, come back as they were.
pub proof fn law_fields_of_joined(pieces: Seq<Seq<char>>, sep: char)
    requires
        pieces.len() > 0,
        forall|i: int| 0 <= i < pieces.len() ==> free_of(#[trigger] pieces[i], sep),
    ensures
        fields(joined(pieces, sep), sep) == pieces,
    decreases pieces.len(),
{
    let first = pieces[0];
    let others = pieces.skip(1);
    assert(pieces =~= seq![first] + others);
    if others.len() == 0 {
        lemma_fields_single(first, sep);
    } else {
        lemma_joined_first(first, others, sep);
        lemma_fields_first(first, joined(others, sep), sep);
        assert forall|i: int| 0 <= i < others.len() implies free_of(#[trigger] others[i], sep) by {
            assert(others[i] == pieces[i + 1]);
        }
        law_fields_of_joined(others, sep);
    }
}

/// Joining with `sep` undoes cutting at `sep`: the fields of a text hold no
/// `sep`, and joined they are the text.
pub proof fn law_joined_of_fields(s: Seq<char>, sep: char)
    ensures
        fields(s, sep).len() > 0,
        forall|i: int| 0 <= i < fields(s, sep).len() ==> free_of(#[trigger] fields(s, sep)[i], sep),
        joined(fields(s, sep), sep) == s,
    decreases s.len(),
{
    let n = until(s, sep);
    law_until_finds_the_first(s, sep);
    if n < s.len() {
        let first = s.take(n as int);
        let rest = s.skip(n as int + 1);
        let others = fields(rest, sep);
        law_joined_of_fields(rest, sep);
        lemma_joined_first(first, others, sep);
        assert(first.push(sep) + rest =~= s);
        assert forall|i: int| 0 <= i < fields(s, sep).len() implies free_of(
            #[trigger] fields(s, sep)[i],
            sep,
        ) by {
            if i > 0 {
                assert(fields(s, sep)[i] == others[i - 1]);
            }
        }
    }
}

/// No line holds a line feed.
pub proof fn law_lines_hold_no_line_feed(s: Seq<char>)
    ensures
        forall|i: int| 0 <= i < lines(s).len() ==> free_of(#[trigger] lines(s)[i], '\n'),
    decreases s.len(),
{
    let n = until(s, '\n');
    law_until_finds_the_first(s, '\n');
    if s.len() > 0 && n < s.len() {
        let rest = s.skip(n as int + 1);
        law_lines_hold_no_line_feed(rest);
        assert forall|i: int| 0 <= i < lines(s).len() implies free_of(
            #[trigger] lines(s)[i],
            '\n',
        ) by {
            if i > 0 {
                assert(lines(s)[i] == lines(rest)[i - 1]);
            }
        }
    }
}

/// A word, then nothing or something that starts with a blank: the word is
/// the first token, and the tokens of the rest follow.
pub proof fn lemma_tokens_first(word: Seq<char>, rest: Seq<char>)
    requires
        is_word(word),
        rest.len() == 0 || is_whitespace(rest[0]),
    ensures
        tokens(word + rest) == seq![word] + tokens(rest),
{
    let s = word + rest;
    assert(s[0] == word[0]);
    assert(run(s, true) == 0);
    assert(s.skip(0) =~= s);
    lemma_run_concat(word, rest, false);
    assert(s.take(word.len() as int) =~= word);
    assert(s.skip(word.len() as int) =~= rest);
}

/// A blank in front changes no token.
pub proof fn lemma_tokens_blank(blank: char, rest: Seq<char>)
    requires
        is_whitespace(blank),
    ensures
        tokens(seq![blank] + rest) == tokens(rest),
{
    let s = seq![blank] + rest;
    assert(s.skip(1) =~= rest);
    assert(run(s, true) == 1 + run(rest, true));
    law_run_is_longest(rest, true);
    if run(rest, true) < rest.len() {
        assert(s.skip(run(s, true) as int) =~= rest.skip(run(rest, true) as int));
    }
}

/// Cutting into tokens undoes joining with spaces: words come back as they
/// were.
pub proof fn law_tokens_of_joined(words: Seq<Seq<char>>)
    requires
        forall|i: int| 0 <= i < words.len() ==> is_word(#[trigger] words[i]),
    ensures
        tokens(joined(words, ' ')) == words,
    decreases words.len(),
{
    if words.len() == 0 {
        assert(tokens(Seq::<char>::empty()) =~= Seq::<Seq<char>>::empty());
        assert(words =~= Seq::<Seq<char>>::empty());
    } else {
        let first = words[0];
        let others = words.skip(1);
        assert(words =~= seq![first] + others);
        assert forall|i: int| 0 <= i < others.len() implies is_word(#[trigger] others[i]) by {
            assert(others[i] == words[i + 1]);
        }
        law_tokens_of_joined(others);
        if others.len() == 0 {
            assert(first + Seq::<char>::empty() =~= first);
            lemma_tokens_first(first, Seq::empty());
            assert(tokens(Seq::<char>::empty()) =~= Seq::<Seq<char>>::empty());
        } else {
            lemma_joined_first(first, others, ' ');
            let rest = seq![' '] + joined(others, ' ');
            assert(first.push(' ') + joined(others, ' ') =~= first + rest);
            lemma_tokens_first(first, rest);
            lemma_tokens_blank(' ', joined(others, ' '));
        }
    }
}

/// A piece without a line feed, then a line feed, then more: the piece is the
/// first line, and the lines of the rest follow.
pub proof fn lemma_lines_first(first: Seq<char>, rest: Seq<char>)
    requires
        free_of(first, '\n'),
    ensures
        lines(first.push('\n') + rest) == seq![without_cr(first)] + lines(rest),
{
    let s = first.push('\n') + rest;
    assert(s =~= first + (seq!['\n'] + rest));
    lemma_until_concat(first, seq!['\n'] + rest, '\n');
    assert(s.take(first.len() as int) =~= first);
    assert(s.skip(first.len() as int + 1) =~= rest);
}

/// Cutting into lines undoes ending each line with a line feed: lines without
/// a line feed, and without a carriage return at their end, come back as they
/// were.
pub proof fn law_lines_of_ended(pieces: Seq<Seq<char>>)
    requires
        forall|i: int|
            0 <= i < pieces.len() ==> free_of(#[trigger] pieces[i], '\n') && without_cr(
                pieces[i],
            ) == pieces[i],
    ensures
        lines(ended(pieces, '\n')) == pieces,
    decreases pieces.len(),
{
    if pieces.len() == 0 {
        assert(pieces =~= Seq::<Seq<char>>::empty());
    } else {
        let first = pieces[0];
        let others = pieces.skip(1);
        assert(pieces =~= seq![first] + others);
        assert forall|i: int| 0 <= i < others.len() implies free_of(#[trigger] others[i], '\n')
            && without_cr(others[i]) == others[i] by {
            assert(others[i] == pieces[i + 1]);
        }
        law_lines_of_ended(others);
        lemma_ended_first(first, others, '\n');
        lemma_lines_first(first, ended(others, '\n'));
    }
}

/// Every token is a word.
pub proof fn law_tokens_are_words(s: Seq<char>)
    ensures
        forall|i: int| 0 <= i < tokens(s).len() ==> is_word(#[trigger] tokens(s)[i]),
    decreases s.len(),
{
    law_run_is_longest(s, true);
    if run(s, true) < s.len() {
        let t = s.skip(run(s, true) as int);
        let n = run(t, false);
        law_run_is_longest(t, false);
        assert(!is_whitespace(t[0]));
        let word = t.take(n as int);
        law_tokens_are_words(t.skip(n as int));
        assert forall|i: int| 0 <= i < tokens(s).len() implies is_word(
            #[trigger] tokens(s)[i],
        ) by {
            if i == 0 {
                assert(tokens(s)[0] == word);
                assert forall|j: int| 0 <= j < word.len() implies !is_whitespace(
                    #[trigger] word[j],
                ) by {
                    assert(word[j] == t[j]);
                }
            } else {
                assert(tokens(s)[i] == tokens(t.skip(n as int))[i - 1]);
            }
        }
    }
}

/// Words joined with spaces make a line: text that is not empty, holds no
/// line feed and does not end in a blank.
pub proof fn lemma_joined_words_make_a_line(words: Seq<Seq<char>>)
    requires
        words.len() > 0,
        forall|i: int| 0 <= i < words.len() ==> is_word(#[trigger] words[i]),
    ensures
        joined(words, ' ').len() > 0,
        free_of(joined(words, ' '), '\n'),
        !is_whitespace(joined(words, ' ').last()),
    decreases words.len(),
{
    let s = joined(words, ' ');
    let word = words.last();
    assert(is_word(word));
    if words.len() == 1 {
        assert forall|i: int| 0 <= i < s.len() implies #[trigger] s[i] != '\n' by {
            assert(!is_whitespace(word[i]));
        }
    } else {
        let front = joined(words.drop_last(), ' ');
        assert forall|i: int| 0 <= i < words.drop_last().len() implies is_word(
            #[trigger] words.drop_last()[i],
        ) by {
            assert(words.drop_last()[i] == words[i]);
        }
        lemma_joined_words_make_a_line(words.drop_last());
        assert(s.last() == word.last());
        assert forall|i: int| 0 <= i < s.len() implies #[trigger] s[i] != '\n' by {
            if i < front.len() {
                assert(s[i] == front[i]);
            } else if i > front.len() {
                assert(s[i] == word[i - front.len() - 1]);
                assert(!is_whitespace(word[i - front.len() - 1]));
            }
        }
    }
}

} // verus!
