//! The rules that give a token its meaning, as mathematics.
//!
//! A token is tried against the rules in a fixed order and the first rule that
//! accepts it decides. The last rule accepts every token, so every token has a
//! meaning.

use vstd::prelude::*;
use crate::common::{NO_COUNT, NO_DATE, NO_DAY, NO_ENTITY, NO_MONTH, NO_UNIT, NO_YEAR};
use crate::model::{DateData, Element, RecurrenceTimeUnit};
use crate::number::{count_of, unsigned_of};
use crate::split::{fields, lines, tokens};

verus! {

/// The sigil of a project.
pub const PROJECT: char = '+';

/// The sigil of a context.
pub const CONTEXT: char = '@';

/// The sigil of a due date.
pub const DUE: &'static str = "due:";

/// The sigil of a threshold date.
pub const THRESHOLD: &'static str = "t:";

/// The sigil of a recurrence.
pub const RECURRENCE: &'static str = "rec:";

/// The kinds of element that hold a piece of text.
#[derive(Debug, Clone, Copy, PartialEq, Eq, Structural)]
pub enum TextKind {
    Project,
    Context,
    Text,
}

/// The kinds of element that hold a date.
#[derive(Debug, Clone, Copy, PartialEq, Eq, Structural)]
pub enum DateKind {
    Due,
    Threshold,
}

/// What a rule makes of a token: an element, or the message that says why the
/// rule does not accept the token.
pub type Outcome = Result<Element, Seq<char>>;

impl TextKind {
    /// The element of this kind that holds `content`.
    pub open spec fn element(self, content: Seq<char>) -> Element {
        match self {
            TextKind::Project => Element::Project(content),
            TextKind::Context => Element::Context(content),
            TextKind::Text => Element::Text(content),
        }
    }
}

impl DateKind {
    /// The sigil that announces a date of this kind.
    pub open spec fn sigil(self) -> Seq<char> {
        match self {
            DateKind::Due => DUE@,
            DateKind::Threshold => THRESHOLD@,
        }
    }

    /// The element of this kind that holds `date`.
    pub open spec fn element(self, date: DateData) -> Element {
        match self {
            DateKind::Due => Element::Due(date),
            DateKind::Threshold => Element::Threshold(date),
        }
    }
}

/// A rule for a sigil of one character: the token starts with `prefix`, and
/// what follows it, which may be empty, is the content.
pub open spec fn prefix_rule(t: Seq<char>, prefix: char, kind: TextKind) -> Outcome {
    if t.len() > 0 && t[0] == prefix {
        Ok(kind.element(t.skip(1)))
    } else {
        Err(NO_ENTITY@)
    }
}

/// The rule for projects.
pub open spec fn project_rule(t: Seq<char>) -> Outcome {
    prefix_rule(t, PROJECT, TextKind::Project)
}

/// The rule for contexts.
pub open spec fn context_rule(t: Seq<char>) -> Outcome {
    prefix_rule(t, CONTEXT, TextKind::Context)
}

/// The rule for plain text, which accepts every token whole.
pub open spec fn text_rule(t: Seq<char>) -> Outcome {
    Ok(Element::Text(t))
}

/// A date is written as three unsigned integers with a `-` between them: a
/// year of 16 bits, a month and a day of 8 bits each.
pub open spec fn date_of(s: Seq<char>) -> Result<DateData, Seq<char>> {
    let parts = fields(s, '-');
    if parts.len() != 3 {
        Err(NO_DATE@)
    } else {
        match (
            unsigned_of(parts[0], u16::MAX as nat),
            unsigned_of(parts[1], u8::MAX as nat),
            unsigned_of(parts[2], u8::MAX as nat),
        ) {
            (None, _, _) => Err(NO_YEAR@),
            (Some(_), None, _) => Err(NO_MONTH@),
            (Some(_), Some(_), None) => Err(NO_DAY@),
            (Some(year), Some(month), Some(day)) => Ok(
                DateData { year: year as u16, month: month as u8, day: day as u8 },
            ),
        }
    }
}

/// The rule for the two kinds of date: the sigil of the kind, then a date.
pub open spec fn date_rule(t: Seq<char>, kind: DateKind) -> Outcome {
    if kind.sigil().is_prefix_of(t) {
        match date_of(t.skip(kind.sigil().len() as int)) {
            Ok(date) => Ok(kind.element(date)),
            Err(message) => Err(message),
        }
    } else {
        Err(NO_ENTITY@)
    }
}

/// The rule for due dates.
pub open spec fn due_rule(t: Seq<char>) -> Outcome {
    date_rule(t, DateKind::Due)
}

/// The rule for threshold dates.
pub open spec fn threshold_rule(t: Seq<char>) -> Outcome {
    date_rule(t, DateKind::Threshold)
}

/// The unit that a letter stands for.
pub open spec fn unit_of(c: char) -> Option<RecurrenceTimeUnit> {
    if c == 'd' {
        Some(RecurrenceTimeUnit::D)
    } else if c == 'b' {
        Some(RecurrenceTimeUnit::B)
    } else if c == 'w' {
        Some(RecurrenceTimeUnit::W)
    } else if c == 'm' {
        Some(RecurrenceTimeUnit::M)
    } else if c == 'y' {
        Some(RecurrenceTimeUnit::Y)
    } else {
        None
    }
}

/// A recurrence is written as an optional `+`, a count of 32 bits in one or
/// more digits, and one unit letter.
pub open spec fn recurrence_of(s: Seq<char>) -> Outcome {
    let plus = s.len() > 0 && s[0] == '+';
    let body = if plus {
        s.skip(1)
    } else {
        s
    };
    if body.len() == 0 {
        Err(NO_UNIT@)
    } else {
        match (unit_of(body.last()), count_of(body.drop_last(), u32::MAX as nat)) {
            (None, _) => Err(NO_UNIT@),
            (Some(_), None) => Err(NO_COUNT@),
            (Some(unit), Some(count)) => Ok(
                Element::Recurrence { plus, count: count as u32, unit },
            ),
        }
    }
}

/// The rule for recurrences: the sigil, then a recurrence.
pub open spec fn recurrence_rule(t: Seq<char>) -> Outcome {
    if RECURRENCE@.is_prefix_of(t) {
        recurrence_of(t.skip(RECURRENCE@.len() as int))
    } else {
        Err(NO_ENTITY@)
    }
}

/// The meaning of a token: what the first rule that accepts it makes of it.
pub open spec fn element_of(t: Seq<char>) -> Element {
    if project_rule(t) is Ok {
        project_rule(t)->Ok_0
    } else if context_rule(t) is Ok {
        context_rule(t)->Ok_0
    } else if due_rule(t) is Ok {
        due_rule(t)->Ok_0
    } else if threshold_rule(t) is Ok {
        threshold_rule(t)->Ok_0
    } else if recurrence_rule(t) is Ok {
        recurrence_rule(t)->Ok_0
    } else {
        Element::Text(t)
    }
}

/// The meaning of a line: the meanings of its tokens, in order.
pub open spec fn entry_of(line: Seq<char>) -> Seq<Element> {
    tokens(line).map_values(|t: Seq<char>| element_of(t))
}

/// The meanings of those among the given lines that are not empty, in order.
pub open spec fn entries_of(ls: Seq<Seq<char>>) -> Seq<Seq<Element>> {
    ls.filter(|l: Seq<char>| l.len() > 0).map_values(|l: Seq<char>| entry_of(l))
}

/// The meaning of a file: the meanings of its lines that are not empty, in
/// order. A line of blanks alone is not empty: it means an entry without
/// elements.
pub open spec fn data_of(file: Seq<char>) -> Seq<Seq<Element>> {
    entries_of(lines(file))
}

} // verus!
