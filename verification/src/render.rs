//! Writing elements, entries and task lists as text.

use vstd::prelude::*;
use vstd::string::StringExecFns;
use crate::grammar::{CONTEXT, DUE, PROJECT, RECURRENCE, THRESHOLD};
use crate::model::{
    DateData, Element, Model, RecurrenceTimeUnit, TodoData, TodoElement, TodoEntry,
};
use crate::number::{numeral, push_numeral};
use crate::join::{ended, joined};

verus! {

/// The letter that stands for a unit.
pub open spec fn unit_letter(unit: RecurrenceTimeUnit) -> char {
    match unit {
        RecurrenceTimeUnit::D => 'd',
        RecurrenceTimeUnit::B => 'b',
        RecurrenceTimeUnit::W => 'w',
        RecurrenceTimeUnit::M => 'm',
        RecurrenceTimeUnit::Y => 'y',
    }
}

/// A date as text: the year in four digits or more, the month and the day in
/// two or more, with a `-` between them.
pub open spec fn date_text(date: DateData) -> Seq<char> {
    numeral(date.year as nat, 4) + seq!['-'] + numeral(date.month as nat, 2) + seq!['-']
        + numeral(date.day as nat, 2)
}

/// A recurrence as text, without its sigil: a `+` where `plus` is set, the
/// count, and the letter of the unit.
pub open spec fn recurrence_text(plus: bool, count: u32, unit: RecurrenceTimeUnit) -> Seq<char> {
    (if plus {
        seq!['+']
    } else {
        Seq::empty()
    }) + numeral(count as nat, 1) + seq![unit_letter(unit)]
}

/// An element as text: its sigil, then what it holds. Plain text has no sigil.
pub open spec fn element_text(e: Element) -> Seq<char> {
    match e {
        Element::Project(name) => seq![PROJECT] + name,
        Element::Context(name) => seq![CONTEXT] + name,
        Element::Text(content) => content,
        Element::Due(date) => DUE@ + date_text(date),
        Element::Threshold(date) => THRESHOLD@ + date_text(date),
        Element::Recurrence { plus, count, unit } => RECURRENCE@ + recurrence_text(
            plus,
            count,
            unit,
        ),
    }
}

/// The texts of the elements of an entry, in order.
pub open spec fn element_texts(entry: Seq<Element>) -> Seq<Seq<char>> {
    entry.map_values(|e: Element| element_text(e))
}

/// An entry as text: its elements in order, with one space between each two.
pub open spec fn entry_text(entry: Seq<Element>) -> Seq<char> {
    joined(element_texts(entry), ' ')
}

/// The texts of the entries of a task list, in order.
pub open spec fn entry_texts(data: Seq<Seq<Element>>) -> Seq<Seq<char>> {
    data.map_values(|e: Seq<Element>| entry_text(e))
}

/// A task list as text: its entries in order, with a line feed after each.
pub open spec fn data_text(data: Seq<Seq<Element>>) -> Seq<char> {
    ended(entry_texts(data), '\n')
}

/// The letter that stands for a unit.
fn letter_of(unit: RecurrenceTimeUnit) -> (c: char)
    ensures
        c == unit_letter(unit),
{
    match unit {
        RecurrenceTimeUnit::D => 'd',
        RecurrenceTimeUnit::B => 'b',
        RecurrenceTimeUnit::W => 'w',
        RecurrenceTimeUnit::M => 'm',
        RecurrenceTimeUnit::Y => 'y',
    }
}

/// Appends a date to `out`.
fn push_date(out: &mut String, date: &DateData)
    ensures
        final(out)@ == old(out)@ + date_text(*date),
{
    push_numeral(out, date.year as u32, 4);
    out.push('-');
    push_numeral(out, date.month as u32, 2);
    out.push('-');
    push_numeral(out, date.day as u32, 2);
    assert(out@ =~= old(out)@ + date_text(*date));
}

/// Appends an element to `out`.
fn push_element(out: &mut String, e: &TodoElement)
    ensures
        final(out)@ == old(out)@ + element_text(e@),
{
    match e {
        TodoElement::Project(name) => {
            out.push(PROJECT);
            out.append(name.as_str());
        },
        TodoElement::Context(name) => {
            out.push(CONTEXT);
            out.append(name.as_str());
        },
        TodoElement::Text(content) => {
            out.append(content.as_str());
        },
        TodoElement::Due(date) => {
            out.append(DUE);
            push_date(out, date);
        },
        TodoElement::Threshold(date) => {
            out.append(THRESHOLD);
            push_date(out, date);
        },
        TodoElement::Recurrence { plus, count, unit } => {
            out.append(RECURRENCE);
            if *plus {
                out.push('+');
            }
            push_numeral(out, *count, 1);
            out.push(letter_of(*unit));
        },
    }
    assert(out@ =~= old(out)@ + element_text(e@));
}

/// Appends an entry to `out`.
fn push_entry(out: &mut String, entry: &TodoEntry)
    ensures
        final(out)@ == old(out)@ + entry_text(entry@),
{
    let ghost texts = element_texts(entry@);
    let mut i: usize = 0;
    assert(out@ =~= old(out)@ + joined(texts.take(0), ' '));
    while i < entry.parts.len()
        invariant
            i <= entry.parts@.len(),
            texts == element_texts(entry@),
            out@ == old(out)@ + joined(texts.take(i as int), ' '),
        decreases entry.parts@.len() - i,
    {
        let ghost before = out@;
        if i > 0 {
            out.push(' ');
        }
        push_element(out, &entry.parts[i]);
        proof {
            assert(texts.take(i + 1).drop_last() =~= texts.take(i as int));
            assert(texts.take(i + 1).last() == element_text(entry.parts@[i as int]@));
            assert(out@ =~= old(out)@ + joined(texts.take(i + 1), ' '));
        }
        i += 1;
    }
    assert(texts.take(texts.len() as int) =~= texts);
}

impl TodoElement {
    /// The element as text: its sigil, then what it holds.
    pub fn render(&self) -> (s: String)
        ensures
            s@ == element_text(self@),
    {
        let mut out = String::new();
        push_element(&mut out, self);
        assert(out@ =~= element_text(self@));
        out
    }
}

impl TodoEntry {
    /// The entry as a line of text, without a line ending.
    pub fn render(&self) -> (s: String)
        ensures
            s@ == entry_text(self@),
    {
        let mut out = String::new();
        push_entry(&mut out, self);
        assert(out@ =~= entry_text(self@));
        out
    }
}

impl TodoData {
    /// The task list as the text of a file, one line for each entry.
    pub fn render(&self) -> (s: String)
        ensures
            s@ == data_text(self@),
    {
        let ghost texts = entry_texts(self@);
        let mut out = String::new();
        let mut i: usize = 0;
        assert(out@ =~= ended(texts.take(0), '\n'));
        while i < self.entries.len()
            invariant
                i <= self.entries@.len(),
                texts == entry_texts(self@),
                out@ == ended(texts.take(i as int), '\n'),
            decreases self.entries@.len() - i,
        {
            push_entry(&mut out, &self.entries[i]);
            out.push('\n');
            proof {
                assert(texts.take(i + 1).drop_last() =~= texts.take(i as int));
                assert(texts.take(i + 1).last() == entry_text(self.entries@[i as int]@));
                assert(out@ =~= ended(texts.take(i + 1), '\n'));
            }
            i += 1;
        }
        assert(texts.take(texts.len() as int) =~= texts);
        out
    }
}

impl Model {
    /// The text of the two files: first that of the open tasks, then that of
    /// the tasks done.
    pub fn render(&self) -> (texts: (String, String))
        ensures
            texts.0@ == data_text(self.todo_data@),
            texts.1@ == data_text(self.done_data@),
    {
        (self.todo_data.render(), self.done_data.render())
    }
}

} // verus!
