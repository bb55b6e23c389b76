//! The parsers: from text to elements, entries and task lists.

use vstd::prelude::*;
use vstd::slice::slice_subrange;
use vstd::string::StrSliceExecFns;
use crate::common::{NO_COUNT, NO_DATE, NO_DAY, NO_ENTITY, NO_MONTH, NO_UNIT, NO_YEAR, ParsingError};
use crate::grammar::{
    CONTEXT, DUE, DateKind, Outcome, PROJECT, RECURRENCE, THRESHOLD, TextKind, context_rule,
    data_of, date_of, date_rule, due_rule, element_of, entries_of, entry_of, prefix_rule,
    project_rule, recurrence_of, recurrence_rule, text_rule, threshold_rule, unit_of,
};
use crate::model::{
    DateData, Element, Model, RecurrenceTimeUnit, TodoData, TodoElement, TodoEntry,
};
use crate::number::{parse_count, parse_unsigned};
use crate::split::{lines, split_fields, split_lines, split_tokens, tokens, views};
use crate::text::{chars_of, string_of};

verus! {

/// What an executable rule returned, as mathematics.
pub open spec fn outcome(r: Result<TodoElement, ParsingError>) -> Outcome {
    match r {
        Ok(element) => Ok(element@),
        Err(error) => Err(error.message@),
    }
}

/// A parser for the elements that one character announces.
pub struct PrefixParser {
    pub prefix: char,
    pub kind: TextKind,
}

impl TextKind {
    /// The element of this kind that holds `content`.
    pub fn build(self, content: String) -> (e: TodoElement)
        ensures
            e@ == self.element(content@),
    {
        match self {
            TextKind::Project => TodoElement::Project(content),
            TextKind::Context => TodoElement::Context(content),
            TextKind::Text => TodoElement::Text(content),
        }
    }
}

impl DateKind {
    /// The element of this kind that holds `date`.
    pub fn build(self, date: DateData) -> (e: TodoElement)
        ensures
            e@ == self.element(date),
    {
        match self {
            DateKind::Due => TodoElement::Due(date),
            DateKind::Threshold => TodoElement::Threshold(date),
        }
    }

    /// The sigil that announces a date of this kind.
    pub fn mark(self) -> (s: &'static str)
        ensures
            s@ == self.sigil(),
    {
        match self {
            DateKind::Due => DUE,
            DateKind::Threshold => THRESHOLD,
        }
    }
}

/// Takes `sigil` off the front of `t`.
fn strip_sigil<'a>(t: &'a [char], sigil: &str) -> (r: Option<&'a [char]>)
    ensures
        match r {
            Some(rest) => sigil@.is_prefix_of(t@) && rest@ == t@.skip(sigil@.len() as int),
            None => !sigil@.is_prefix_of(t@),
        },
{
    let n = sigil.unicode_len();
    if t.len() < n {
        return None;
    }
    let mut i: usize = 0;
    while i < n
        invariant
            i <= n,
            n == sigil@.len(),
            n <= t@.len(),
            forall|j: int| 0 <= j < i ==> t@[j] == sigil@[j],
        decreases n - i,
    {
        if t[i] != sigil.get_char(i) {
            assert(t@.subrange(0, n as int)[i as int] != sigil@[i as int]);
            return None;
        }
        i += 1;
    }
    assert(sigil@ =~= t@.subrange(0, n as int));
    Some(slice_subrange(t, n, t.len()))
}

/// Reads the three numbers of a date.
fn date_from(s: &[char]) -> (r: Result<DateData, ParsingError>)
    ensures
        match r {
            Ok(date) => date_of(s@) == Ok::<DateData, Seq<char>>(date),
            Err(error) => date_of(s@) == Err::<DateData, Seq<char>>(error.message@),
        },
{
    let parts = split_fields(s, '-');
    if parts.len() != 3 {
        return Err(ParsingError { message: NO_DATE });
    }
    assert(views(parts@)[0] == parts@[0]@);
    assert(views(parts@)[1] == parts@[1]@);
    assert(views(parts@)[2] == parts@[2]@);
    let year: u16 = match parse_unsigned(parts[0], 0xffff) {
        Some(n) => n as u16,
        None => {
            return Err(ParsingError { message: NO_YEAR });
        },
    };
    let month: u8 = match parse_unsigned(parts[1], 0xff) {
        Some(n) => n as u8,
        None => {
            return Err(ParsingError { message: NO_MONTH });
        },
    };
    let day: u8 = match parse_unsigned(parts[2], 0xff) {
        Some(n) => n as u8,
        None => {
            return Err(ParsingError { message: NO_DAY });
        },
    };
    Ok(DateData { year, month, day })
}

/// Applies the rule for a date of one kind.
fn date_element(t: &[char], kind: DateKind) -> (r: Result<TodoElement, ParsingError>)
    ensures
        outcome(r) == date_rule(t@, kind),
{
    match strip_sigil(t, kind.mark()) {
        Some(rest) => match date_from(rest) {
            Ok(date) => Ok(kind.build(date)),
            Err(error) => Err(error),
        },
        None => Err(ParsingError { message: NO_ENTITY }),
    }
}

/// The unit that a letter stands for.
fn unit_from(c: char) -> (r: Option<RecurrenceTimeUnit>)
    ensures
        r == unit_of(c),
{
    if c == 'd' {
        Some(RecurrenceTimeUnit::D)
    } else if c == 'b' {
        Some(RecurrenceTimeUnit::B)
    } else if c == 'w' {
        Some(RecurrenceTimeUnit::W)
    } else if c == 'm' {
        Some(RecurrenceTimeUnit::M)
    } else if c == 'y' {
        Some(RecurrenceTimeUnit::Y)
    } else {
        None
    }
}

/// Reads what follows the sigil of a recurrence.
fn recurrence_from(s: &[char]) -> (r: Result<TodoElement, ParsingError>)
    ensures
        outcome(r) == recurrence_of(s@),
{
    let plus = s.len() > 0 && s[0] == '+';
    let body = if plus {
        slice_subrange(s, 1, s.len())
    } else {
        s
    };
    if body.len() == 0 {
        return Err(ParsingError { message: NO_UNIT });
    }
    let unit = match unit_from(body[body.len() - 1]) {
        Some(unit) => unit,
        None => {
            return Err(ParsingError { message: NO_UNIT });
        },
    };
    let count = match parse_count(slice_subrange(body, 0, body.len() - 1), u32::MAX) {
        Some(count) => count,
        None => {
            return Err(ParsingError { message: NO_COUNT });
        },
    };
    Ok(TodoElement::Recurrence { plus, count, unit })
}

/// Applies the rule for recurrences.
fn recurrence_element(t: &[char]) -> (r: Result<TodoElement, ParsingError>)
    ensures
        outcome(r) == recurrence_rule(t@),
{
    match strip_sigil(t, RECURRENCE) {
        Some(rest) => recurrence_from(rest),
        None => Err(ParsingError { message: NO_ENTITY }),
    }
}

impl PrefixParser {
    /// Applies the rule to a token given as characters.
    fn apply(&self, t: &[char]) -> (r: Result<TodoElement, ParsingError>)
        ensures
            outcome(r) == prefix_rule(t@, self.prefix, self.kind),
    {
        if t.len() > 0 && t[0] == self.prefix {
            Ok(self.kind.build(string_of(slice_subrange(t, 1, t.len()))))
        } else {
            Err(ParsingError { message: NO_ENTITY })
        }
    }

    /// Applies the rule to a token: an element of the parser's kind that holds
    /// what follows the prefix, or an error where the token does not start
    /// with the prefix.
    pub fn parse(&self, input: &str) -> (r: Result<TodoElement, ParsingError>)
        ensures
            outcome(r) == prefix_rule(input@, self.prefix, self.kind),
    {
        let t = chars_of(input);
        self.apply(t.as_slice())
    }
}

/// The meaning of a token given as characters.
fn element_from(t: &[char]) -> (e: TodoElement)
    ensures
        e@ == element_of(t@),
{
    if let Ok(e) = TodoElement::create_prefix_parser(PROJECT, TextKind::Project).apply(t) {
        return e;
    }
    if let Ok(e) = TodoElement::create_prefix_parser(CONTEXT, TextKind::Context).apply(t) {
        return e;
    }
    if let Ok(e) = date_element(t, DateKind::Due) {
        return e;
    }
    if let Ok(e) = date_element(t, DateKind::Threshold) {
        return e;
    }
    if let Ok(e) = recurrence_element(t) {
        return e;
    }
    TodoElement::Text(string_of(t))
}

impl TodoElement {
    /// A project of the given name.
    pub fn project(name: &str) -> (e: TodoElement)
        ensures
            e@ == Element::Project(name@),
    {
        TodoElement::Project(name.to_owned())
    }

    /// A context of the given name.
    pub fn context(name: &str) -> (e: TodoElement)
        ensures
            e@ == Element::Context(name@),
    {
        TodoElement::Context(name.to_owned())
    }

    /// A piece of plain text.
    pub fn text(content: &str) -> (e: TodoElement)
        ensures
            e@ == Element::Text(content@),
    {
        TodoElement::Text(content.to_owned())
    }

    /// A parser that accepts the tokens that start with `prefix` and makes of
    /// each an element of the given kind.
    pub fn create_prefix_parser(prefix: char, kind: TextKind) -> (p: PrefixParser)
        ensures
            p.prefix == prefix,
            p.kind == kind,
    {
        PrefixParser { prefix, kind }
    }

    /// Applies the rule for projects alone.
    pub fn try_parse_project(input: &str) -> (r: Result<TodoElement, ParsingError>)
        ensures
            outcome(r) == project_rule(input@),
    {
        TodoElement::create_prefix_parser(PROJECT, TextKind::Project).parse(input)
    }

    /// Applies the rule for contexts alone.
    pub fn try_parse_context(input: &str) -> (r: Result<TodoElement, ParsingError>)
        ensures
            outcome(r) == context_rule(input@),
    {
        TodoElement::create_prefix_parser(CONTEXT, TextKind::Context).parse(input)
    }

    /// Applies the rule for plain text alone, which accepts every token.
    pub fn try_parse_text(input: &str) -> (r: Result<TodoElement, ParsingError>)
        ensures
            outcome(r) == text_rule(input@),
    {
        Ok(TodoElement::text(input))
    }

    /// Applies the rule for due dates alone.
    pub fn try_parse_due(input: &str) -> (r: Result<TodoElement, ParsingError>)
        ensures
            outcome(r) == due_rule(input@),
    {
        let t = chars_of(input);
        date_element(t.as_slice(), DateKind::Due)
    }

    /// Applies the rule for threshold dates alone.
    pub fn try_parse_threshold(input: &str) -> (r: Result<TodoElement, ParsingError>)
        ensures
            outcome(r) == threshold_rule(input@),
    {
        let t = chars_of(input);
        date_element(t.as_slice(), DateKind::Threshold)
    }

    /// Applies the rule for recurrences alone.
    pub fn try_parse_recurrence(input: &str) -> (r: Result<TodoElement, ParsingError>)
        ensures
            outcome(r) == recurrence_rule(input@),
    {
        let t = chars_of(input);
        recurrence_element(t.as_slice())
    }

    /// The meaning of a token. Every token has one, so the result is never an
    /// error.
    pub fn parse(input: &str) -> (r: Result<TodoElement, ParsingError>)
        ensures
            r is Ok,
            r->Ok_0@ == element_of(input@),
    {
        let t = chars_of(input);
        Ok(element_from(t.as_slice()))
    }
}

/// The meaning of a line given as characters.
fn entry_from(line: &[char]) -> (e: TodoEntry)
    ensures
        e@ == entry_of(line@),
{
    let pieces = split_tokens(line);
    let mut parts: Vec<TodoElement> = Vec::new();
    let mut i: usize = 0;
    while i < pieces.len()
        invariant
            i <= pieces@.len(),
            views(pieces@) == tokens(line@),
            parts@.len() == i,
            forall|j: int| 0 <= j < i ==> (#[trigger] parts@[j])@ == element_of(pieces@[j]@),
        decreases pieces@.len() - i,
    {
        parts.push(element_from(pieces[i]));
        i += 1;
    }
    let entry = TodoEntry { parts };
    assert(entry@ =~= entry_of(line@)) by {
        assert forall|j: int| 0 <= j < entry@.len() implies entry@[j] == entry_of(line@)[j] by {
            assert(views(pieces@)[j] == pieces@[j]@);
        }
    }
    entry
}

/// The meaning of a file given as characters.
fn data_from(file: &[char]) -> (d: TodoData)
    ensures
        d@ == data_of(file@),
{
    let pieces = split_lines(file);
    let mut entries: Vec<TodoEntry> = Vec::new();
    let mut i: usize = 0;
    proof {
        lemma_entries_of_empty();
        assert(views(pieces@).take(0) =~= Seq::<Seq<char>>::empty());
    }
    while i < pieces.len()
        invariant
            i <= pieces@.len(),
            views(pieces@) == lines(file@),
            entries@.map_values(|e: TodoEntry| e@) == entries_of(views(pieces@).take(i as int)),
        decreases pieces@.len() - i,
    {
        let ghost before = entries@;
        let ghost seen = views(pieces@).take(i as int);
        proof {
            assert(views(pieces@)[i as int] == pieces@[i as int]@);
            assert(views(pieces@).take(i + 1) =~= seen.push(pieces@[i as int]@));
            lemma_entries_of_push(seen, pieces@[i as int]@);
        }
        if pieces[i].len() > 0 {
            let entry = entry_from(pieces[i]);
            entries.push(entry);
            assert(entries@.map_values(|e: TodoEntry| e@) =~= before.map_values(
                |e: TodoEntry| e@,
            ).push(entry@));
        }
        i += 1;
    }
    assert(views(pieces@).take(pieces@.len() as int) =~= views(pieces@));
    TodoData { entries }
}

/// No lines, no entries.
proof fn lemma_entries_of_empty()
    ensures
        entries_of(Seq::<Seq<char>>::empty()) == Seq::<Seq<Element>>::empty(),
{
    reveal(Seq::filter);
    assert(entries_of(Seq::<Seq<char>>::empty()) =~= Seq::<Seq<Element>>::empty());
}

/// One more line gives one more entry, unless the line is empty.
proof fn lemma_entries_of_push(ls: Seq<Seq<char>>, l: Seq<char>)
    ensures
        entries_of(ls.push(l)) == if l.len() > 0 {
            entries_of(ls).push(entry_of(l))
        } else {
            entries_of(ls)
        },
{
    reveal(Seq::filter);
    assert(ls.push(l).drop_last() =~= ls);
    if l.len() > 0 {
        assert(entries_of(ls.push(l)) =~= entries_of(ls).push(entry_of(l)));
    }
}

impl TodoEntry {
    /// The task that a line describes: one element for each of its tokens, in
    /// order. Every line describes one, so the result is never an error.
    pub fn parse(data: &str) -> (r: Result<TodoEntry, ParsingError>)
        ensures
            r is Ok,
            r->Ok_0@ == entry_of(data@),
    {
        let line = chars_of(data);
        Ok(entry_from(line.as_slice()))
    }
}

impl TodoData {
    /// The task list that a file describes: one entry for each of its lines
    /// that is not empty, in order. A line of blanks alone gives an entry
    /// without elements. Every file describes a task list, so the result is
    /// never an error.
    pub fn parse(data: &str) -> (r: Result<TodoData, ParsingError>)
        ensures
            r is Ok,
            r->Ok_0@ == data_of(data@),
    {
        let file = chars_of(data);
        Ok(data_from(file.as_slice()))
    }
}

impl Model {
    /// The two task lists that the text of the two files describes. Every
    /// text describes a task list, so the result is never an error.
    pub fn parse(todo: &str, done: &str) -> (r: Result<Model, ParsingError>)
        ensures
            r is Ok,
            r->Ok_0.todo_data@ == data_of(todo@),
            r->Ok_0.done_data@ == data_of(done@),
    {
        let todo_file = chars_of(todo);
        let done_file = chars_of(done);
        Ok(
            Model {
                todo_data: data_from(todo_file.as_slice()),
                done_data: data_from(done_file.as_slice()),
            },
        )
    }
}

} // verus!
