//! What holds of the grammar for every token, line and file.

use vstd::prelude::*;
use crate::grammar::{
    CONTEXT, DUE, DateKind, PROJECT, RECURRENCE, THRESHOLD, data_of, date_of, element_of,
    entry_of, recurrence_of,
};
use crate::model::Element;
use crate::split::{lines, tokens};

verus! {

/// The token starts with one of the five sigils.
pub open spec fn has_sigil(t: Seq<char>) -> bool {
    ||| seq![PROJECT].is_prefix_of(t)
    ||| seq![CONTEXT].is_prefix_of(t)
    ||| DUE@.is_prefix_of(t)
    ||| THRESHOLD@.is_prefix_of(t)
    ||| RECURRENCE@.is_prefix_of(t)
}

/// A token without a sigil is plain text, whole.
pub proof fn law_no_sigil_is_text(t: Seq<char>)
    requires
        !has_sigil(t),
    ensures
        element_of(t) == Element::Text(t),
{
    if t.len() > 0 {
        assert(seq![t[0]] =~= t.subrange(0, 1));
    }
}

/// A `+` and then any text, the empty one too, is the project of that name.
pub proof fn law_plus_is_project(name: Seq<char>)
    ensures
        element_of(seq![PROJECT] + name) == Element::Project(name),
{
    assert((seq![PROJECT] + name).skip(1) =~= name);
}

/// An `@` and then any text, the empty one too, is the context of that name.
pub proof fn law_at_is_context(name: Seq<char>)
    ensures
        element_of(seq![CONTEXT] + name) == Element::Context(name),
{
    assert((seq![CONTEXT] + name).skip(1) =~= name);
}

/// The sigil of a kind of date and then a date is that date, of that kind.
pub proof fn law_date_is_read(kind: DateKind, rest: Seq<char>)
    requires
        date_of(rest) is Ok,
    ensures
        element_of(kind.sigil() + rest) == kind.element(date_of(rest)->Ok_0),
{
    reveal_strlit("due:");
    reveal_strlit("t:");
    let t = kind.sigil() + rest;
    assert(t.subrange(0, kind.sigil().len() as int) =~= kind.sigil());
    assert(t.skip(kind.sigil().len() as int) =~= rest);
    assert(t[0] == kind.sigil()[0]);
    if kind == DateKind::Threshold && DUE@.len() <= t.len() {
        assert(t.subrange(0, 4)[0] != DUE@[0]);
    }
}

/// The sigil of a recurrence and then a recurrence is that recurrence.
pub proof fn law_recurrence_is_read(rest: Seq<char>)
    requires
        recurrence_of(rest) is Ok,
    ensures
        element_of(RECURRENCE@ + rest) == recurrence_of(rest)->Ok_0,
{
    reveal_strlit("due:");
    reveal_strlit("t:");
    reveal_strlit("rec:");
    let t = RECURRENCE@ + rest;
    assert(t.subrange(0, 4) =~= RECURRENCE@);
    assert(t.skip(4) =~= rest);
    assert(t[0] == 'r');
    assert(t.subrange(0, 4)[0] != DUE@[0]);
    assert(t.subrange(0, 2)[0] != THRESHOLD@[0]);
}

/// The sigil of a date or of a recurrence and then something else is plain
/// text, the sigil with it.
pub proof fn law_fallback_is_text(t: Seq<char>)
    requires
        DUE@.is_prefix_of(t) && date_of(t.skip(DUE@.len() as int)) is Err
            || THRESHOLD@.is_prefix_of(t) && date_of(t.skip(THRESHOLD@.len() as int)) is Err
            || RECURRENCE@.is_prefix_of(t) && recurrence_of(t.skip(RECURRENCE@.len() as int))
            is Err,
    ensures
        element_of(t) == Element::Text(t),
{
    reveal_strlit("due:");
    reveal_strlit("t:");
    reveal_strlit("rec:");
    if DUE@.is_prefix_of(t) {
        assert(t[0] == t.subrange(0, 4)[0]);
        if THRESHOLD@.is_prefix_of(t) {
            assert(t[0] == t.subrange(0, 2)[0]);
        }
        if RECURRENCE@.is_prefix_of(t) {
            assert(t[0] == t.subrange(0, 4)[0]);
        }
    } else if THRESHOLD@.is_prefix_of(t) {
        assert(t[0] == t.subrange(0, 2)[0]);
        if RECURRENCE@.is_prefix_of(t) {
            assert(t[0] == t.subrange(0, 4)[0]);
        }
    } else {
        assert(t[0] == t.subrange(0, 4)[0]);
    }
}

/// An entry has one element for each token of its line, and each is the
/// meaning of that token alone.
pub proof fn law_one_element_per_token(line: Seq<char>)
    ensures
        entry_of(line).len() == tokens(line).len(),
        forall|i: int|
            0 <= i < tokens(line).len() ==> #[trigger] entry_of(line)[i] == element_of(
                tokens(line)[i],
            ),
{
}

/// Where every line holds a character, none is left out.
pub proof fn lemma_full_lines_are_kept(ls: Seq<Seq<char>>)
    requires
        forall|i: int| 0 <= i < ls.len() ==> (#[trigger] ls[i]).len() > 0,
    ensures
        ls.filter(|l: Seq<char>| l.len() > 0) == ls,
    decreases ls.len(),
{
    reveal(Seq::filter);
    let full = |l: Seq<char>| l.len() > 0;
    if ls.len() > 0 {
        lemma_full_lines_are_kept(ls.drop_last());
    }
    assert(ls.filter(full) =~= ls);
}

/// Where no line of a file is empty, the task list has as many entries as the
/// file has lines, and each is what its line means taken alone.
pub proof fn law_one_entry_per_full_line(file: Seq<char>)
    requires
        forall|i: int| 0 <= i < lines(file).len() ==> (#[trigger] lines(file)[i]).len() > 0,
    ensures
        data_of(file).len() == lines(file).len(),
        forall|i: int|
            0 <= i < lines(file).len() ==> #[trigger] data_of(file)[i] == entry_of(
                lines(file)[i],
            ),
{
    lemma_full_lines_are_kept(lines(file));
}

/// A task list has one entry for each line of its file that is not empty, and
/// never more entries than the file has lines; each entry is what its line
/// means taken alone.
pub proof fn law_one_entry_per_line(file: Seq<char>)
    ensures
        ({
            let kept = lines(file).filter(|l: Seq<char>| l.len() > 0);
            &&& data_of(file).len() == kept.len()
            &&& data_of(file).len() <= lines(file).len()
            &&& forall|i: int|
                0 <= i < kept.len() ==> #[trigger] data_of(file)[i] == entry_of(kept[i])
        }),
{
    lines(file).lemma_filter_len(|l: Seq<char>| l.len() > 0);
}

} // verus!
