//! What is written can be read again.
//!
//! An element, an entry or a task list that is written as text and read
//! again is what it was, unless the text cannot carry it. Plain text that one
//! of the other rules accepts is read as that rule has it; a name or a text
//! that holds a blank, or an empty text, is not one token; an entry without
//! elements is an empty line, which is no entry.

use vstd::prelude::*;
use crate::chars::is_whitespace;
use crate::grammar::{
    DUE, RECURRENCE, THRESHOLD, data_of, date_of, element_of, entry_of, recurrence_of, unit_of,
};
use crate::join::{
    free_of, is_word, joined, law_fields_of_joined, law_lines_of_ended, law_tokens_are_words,
    law_tokens_of_joined, lemma_joined_words_make_a_line, no_blank,
};
use crate::laws::lemma_full_lines_are_kept;
use crate::model::{DateData, Element, RecurrenceTimeUnit};
use crate::number::{all_digits, is_digit, lemma_numeral, lemma_numeral_reads, numeral};
use crate::render::{
    data_text, date_text, element_text, element_texts, entry_text, entry_texts, recurrence_text,
    unit_letter,
};
use crate::split::{lines, tokens, without_cr};

verus! {

/// The elements that are read back from their text: all but plain text that
/// another rule accepts.
pub open spec fn reads_back(e: Element) -> bool {
    e matches Element::Text(content) ==> element_of(content) == e
}

/// The elements that are read back from a line: those that are read back
/// from their text, and whose text is one word.
pub open spec fn writable(e: Element) -> bool {
    reads_back(e) && is_word(element_text(e))
}

/// Every element of the entry is writable.
pub open spec fn all_writable(entry: Seq<Element>) -> bool {
    forall|i: int| 0 <= i < entry.len() ==> writable(#[trigger] entry[i])
}

/// A run of digits holds no blank, no `-` and no `+`.
proof fn lemma_digits_are_plain(s: Seq<char>)
    requires
        all_digits(s),
    ensures
        no_blank(s),
        free_of(s, '-'),
        free_of(s, '+'),
{
    assert forall|i: int| 0 <= i < s.len() implies !is_whitespace(#[trigger] s[i]) && s[i] != '-'
        && s[i] != '+' by {
        assert(is_digit(s[i]));
    }
}

/// A date is written without a blank.
proof fn lemma_date_text_is_plain(date: DateData)
    ensures
        no_blank(date_text(date)),
{
    let year = numeral(date.year as nat, 4);
    let month = numeral(date.month as nat, 2);
    let day = numeral(date.day as nat, 2);
    let s = date_text(date);
    lemma_numeral(date.year as nat, 4);
    lemma_numeral(date.month as nat, 2);
    lemma_numeral(date.day as nat, 2);
    lemma_digits_are_plain(year);
    lemma_digits_are_plain(month);
    lemma_digits_are_plain(day);
    assert forall|i: int| 0 <= i < s.len() implies !is_whitespace(#[trigger] s[i]) by {
        if i < year.len() {
            assert(s[i] == year[i]);
        } else if i == year.len() {
        } else if i < year.len() + 1 + month.len() {
            assert(s[i] == month[i - year.len() - 1]);
        } else if i == year.len() + 1 + month.len() {
        } else {
            assert(s[i] == day[i - year.len() - month.len() - 2]);
        }
    }
}

/// A recurrence is written without a blank.
proof fn lemma_recurrence_text_is_plain(plus: bool, count: u32, unit: RecurrenceTimeUnit)
    ensures
        no_blank(recurrence_text(plus, count, unit)),
{
    let digits = numeral(count as nat, 1);
    let s = recurrence_text(plus, count, unit);
    lemma_numeral(count as nat, 1);
    lemma_digits_are_plain(digits);
    assert forall|i: int| 0 <= i < s.len() implies !is_whitespace(#[trigger] s[i]) by {
        let shift: int = if plus {
            1
        } else {
            0
        };
        if shift <= i < shift + digits.len() {
            assert(s[i] == digits[i - shift]);
        }
    }
}

/// A sigil and then text without a blank is one word.
proof fn lemma_marked_is_word(sigil: Seq<char>, rest: Seq<char>)
    requires
        is_word(sigil),
        no_blank(rest),
    ensures
        is_word(sigil + rest),
{
    let s = sigil + rest;
    assert forall|i: int| 0 <= i < s.len() implies !is_whitespace(#[trigger] s[i]) by {
        if i < sigil.len() {
            assert(s[i] == sigil[i]);
        } else {
            assert(s[i] == rest[i - sigil.len()]);
        }
    }
}

/// The text of an element is one word where the name that it holds is free
/// of blanks or the text that it holds is one word, and only there. Dates and
/// recurrences are always written as one word.
pub proof fn law_text_is_word(e: Element)
    ensures
        is_word(element_text(e)) <==> match e {
            Element::Project(name) => no_blank(name),
            Element::Context(name) => no_blank(name),
            Element::Text(content) => is_word(content),
            _ => true,
        },
{
    reveal_strlit("due:");
    reveal_strlit("t:");
    reveal_strlit("rec:");
    let s = element_text(e);
    match e {
        Element::Project(name) => {
            if no_blank(name) {
                lemma_marked_is_word(seq!['+'], name);
            }
            if is_word(s) {
                assert forall|i: int| 0 <= i < name.len() implies !is_whitespace(
                    #[trigger] name[i],
                ) by {
                    assert(s[i + 1] == name[i]);
                }
            }
        },
        Element::Context(name) => {
            if no_blank(name) {
                lemma_marked_is_word(seq!['@'], name);
            }
            if is_word(s) {
                assert forall|i: int| 0 <= i < name.len() implies !is_whitespace(
                    #[trigger] name[i],
                ) by {
                    assert(s[i + 1] == name[i]);
                }
            }
        },
        Element::Text(content) => {},
        Element::Due(date) => {
            lemma_date_text_is_plain(date);
            lemma_marked_is_word(DUE@, date_text(date));
        },
        Element::Threshold(date) => {
            lemma_date_text_is_plain(date);
            lemma_marked_is_word(THRESHOLD@, date_text(date));
        },
        Element::Recurrence { plus, count, unit } => {
            lemma_recurrence_text_is_plain(plus, count, unit);
            lemma_marked_is_word(RECURRENCE@, recurrence_text(plus, count, unit));
        },
    }
}

/// A date that is written and read again is the same date.
pub proof fn law_date_round_trip(date: DateData)
    ensures
        date_of(date_text(date)) == Ok::<DateData, Seq<char>>(date),
{
    let year = numeral(date.year as nat, 4);
    let month = numeral(date.month as nat, 2);
    let day = numeral(date.day as nat, 2);
    let parts = seq![year, month, day];
    lemma_numeral(date.year as nat, 4);
    lemma_numeral(date.month as nat, 2);
    lemma_numeral(date.day as nat, 2);
    lemma_digits_are_plain(year);
    lemma_digits_are_plain(month);
    lemma_digits_are_plain(day);
    lemma_numeral_reads(date.year as nat, 4, u16::MAX as nat);
    lemma_numeral_reads(date.month as nat, 2, u8::MAX as nat);
    lemma_numeral_reads(date.day as nat, 2, u8::MAX as nat);
    assert(parts.drop_last() =~= seq![year, month]);
    assert(parts.drop_last().drop_last() =~= seq![year]);
    assert(joined(seq![year], '-') == year);
    assert(joined(seq![year, month], '-') == year.push('-') + month);
    assert(joined(parts, '-') =~= date_text(date));
    law_fields_of_joined(parts, '-');
}

/// A recurrence that is written and read again is the same recurrence.
pub proof fn law_recurrence_round_trip(plus: bool, count: u32, unit: RecurrenceTimeUnit)
    ensures
        recurrence_of(recurrence_text(plus, count, unit)) == Ok::<Element, Seq<char>>(
            Element::Recurrence { plus, count, unit },
        ),
{
    let digits = numeral(count as nat, 1);
    let body = digits.push(unit_letter(unit));
    let s = recurrence_text(plus, count, unit);
    lemma_numeral(count as nat, 1);
    lemma_numeral_reads(count as nat, 1, u32::MAX as nat);
    lemma_digits_are_plain(digits);
    assert(is_digit(digits[0]));
    if plus {
        assert(s =~= seq!['+'] + body);
        assert(s.skip(1) =~= body);
    } else {
        assert(s =~= body);
        assert(s[0] == digits[0]);
    }
    assert(body.drop_last() =~= digits);
    assert(unit_of(unit_letter(unit)) == Some(unit));
}

/// An element that is written and read again is the same element, unless it
/// is plain text that another rule accepts.
pub proof fn law_element_round_trip(e: Element)
    requires
        reads_back(e),
    ensures
        element_of(element_text(e)) == e,
{
    reveal_strlit("due:");
    reveal_strlit("t:");
    reveal_strlit("rec:");
    let s = element_text(e);
    match e {
        Element::Project(name) => {
            assert(s.skip(1) =~= name);
        },
        Element::Context(name) => {
            assert(s.skip(1) =~= name);
        },
        Element::Text(content) => {},
        Element::Due(date) => {
            law_date_round_trip(date);
            assert(DUE@.is_prefix_of(s)) by {
                assert(s.subrange(0, 4) =~= DUE@);
            }
            assert(s.skip(4) =~= date_text(date));
            assert(s[0] == 'd');
        },
        Element::Threshold(date) => {
            law_date_round_trip(date);
            assert(THRESHOLD@.is_prefix_of(s)) by {
                assert(s.subrange(0, 2) =~= THRESHOLD@);
            }
            assert(s.skip(2) =~= date_text(date));
            assert(s[0] == 't');
            assert(!DUE@.is_prefix_of(s)) by {
                if DUE@.len() <= s.len() {
                    assert(s.subrange(0, 4)[0] != DUE@[0]);
                }
            }
        },
        Element::Recurrence { plus, count, unit } => {
            law_recurrence_round_trip(plus, count, unit);
            assert(RECURRENCE@.is_prefix_of(s)) by {
                assert(s.subrange(0, 4) =~= RECURRENCE@);
            }
            assert(s.skip(4) =~= recurrence_text(plus, count, unit));
            assert(s[0] == 'r');
            assert(!DUE@.is_prefix_of(s)) by {
                if DUE@.len() <= s.len() {
                    assert(s.subrange(0, 4)[0] != DUE@[0]);
                }
            }
            assert(!THRESHOLD@.is_prefix_of(s)) by {
                if THRESHOLD@.len() <= s.len() {
                    assert(s.subrange(0, 2)[0] != THRESHOLD@[0]);
                }
            }
        },
    }
}

/// An entry of writable elements that is written and read again is the same
/// entry.
pub proof fn law_entry_round_trip(entry: Seq<Element>)
    requires
        all_writable(entry),
    ensures
        entry_of(entry_text(entry)) == entry,
{
    let words = element_texts(entry);
    assert forall|i: int| 0 <= i < words.len() implies is_word(#[trigger] words[i]) by {
        assert(writable(entry[i]));
    }
    law_tokens_of_joined(words);
    assert(entry_of(entry_text(entry)) =~= entry) by {
        assert forall|i: int| 0 <= i < entry.len() implies entry_of(entry_text(entry))[i]
            == entry[i] by {
            law_element_round_trip(entry[i]);
        }
    }
}

/// A task list that is written and read again is the same task list, where
/// every entry holds at least one element and every element is writable.
pub proof fn law_data_round_trip(data: Seq<Seq<Element>>)
    requires
        forall|i: int|
            0 <= i < data.len() ==> (#[trigger] data[i]).len() > 0 && all_writable(data[i]),
    ensures
        data_of(data_text(data)) == data,
{
    let ls = entry_texts(data);
    assert forall|i: int| 0 <= i < ls.len() implies (#[trigger] ls[i]).len() > 0 && free_of(
        ls[i],
        '\n',
    ) && without_cr(ls[i]) == ls[i] by {
        let entry = data[i];
        let words = element_texts(entry);
        assert forall|j: int| 0 <= j < words.len() implies is_word(#[trigger] words[j]) by {
            assert(writable(entry[j]));
        }
        lemma_joined_words_make_a_line(words);
    }
    law_lines_of_ended(ls);
    lemma_full_lines_are_kept(ls);
    assert(data_of(data_text(data)) =~= data) by {
        assert forall|i: int| 0 <= i < data.len() implies data_of(data_text(data))[i]
            == data[i] by {
            law_entry_round_trip(data[i]);
        }
    }
}

/// What a word means is writable.
pub proof fn law_meaning_is_writable(t: Seq<char>)
    requires
        is_word(t),
    ensures
        writable(element_of(t)),
{
    let e = element_of(t);
    law_text_is_word(e);
    match e {
        Element::Project(name) => {
            assert forall|i: int| 0 <= i < name.len() implies !is_whitespace(
                #[trigger] name[i],
            ) by {
                assert(name[i] == t[i + 1]);
            }
        },
        Element::Context(name) => {
            assert forall|i: int| 0 <= i < name.len() implies !is_whitespace(
                #[trigger] name[i],
            ) by {
                assert(name[i] == t[i + 1]);
            }
        },
        _ => {},
    }
}

/// Every element that a line means is writable.
pub proof fn law_entries_are_writable(line: Seq<char>)
    ensures
        all_writable(entry_of(line)),
{
    law_tokens_are_words(line);
    assert forall|i: int| 0 <= i < entry_of(line).len() implies writable(
        #[trigger] entry_of(line)[i],
    ) by {
        law_meaning_is_writable(tokens(line)[i]);
    }
}

/// Writing what a line means and reading it again gives the same entry.
pub proof fn law_entry_is_stable(line: Seq<char>)
    ensures
        entry_of(entry_text(entry_of(line))) == entry_of(line),
{
    law_entries_are_writable(line);
    law_entry_round_trip(entry_of(line));
}

/// Writing what a file means and reading it again gives the same task list,
/// where no line of the file is made of blanks alone.
pub proof fn law_data_is_stable(file: Seq<char>)
    requires
        forall|i: int|
            0 <= i < lines(file).len() && (#[trigger] lines(file)[i]).len() > 0 ==> tokens(
                lines(file)[i],
            ).len() > 0,
    ensures
        data_of(data_text(data_of(file))) == data_of(file),
{
    let kept = lines(file).filter(|l: Seq<char>| l.len() > 0);
    let data = data_of(file);
    assert forall|i: int| 0 <= i < data.len() implies (#[trigger] data[i]).len() > 0
        && all_writable(data[i]) by {
        assert(data[i] == entry_of(kept[i]));
        law_entries_are_writable(kept[i]);
        lines(file).lemma_filter_pred(|l: Seq<char>| l.len() > 0, i);
        assert(lines(file).contains(kept[i])) by {
            lines(file).lemma_filter_contains_rev(|l: Seq<char>| l.len() > 0, kept[i]);
        }
    }
    law_data_round_trip(data);
}

} // verus!
