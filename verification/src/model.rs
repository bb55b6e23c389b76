//! The values that a task list is made of.

use vstd::prelude::*;
use vstd::std_specs::cmp::PartialEqSpecImpl;

verus! {

/// A date as it is written, in three numbers. No calendar is consulted: a
/// month of 13 or a day of 40 is a value like any other.
#[derive(Debug, Clone, Copy, PartialEq, Eq, Structural)]
pub struct DateData {
    pub year: u16,
    pub month: u8,
    pub day: u8,
}

/// The unit of a recurrence: day, business day, week, month or year.
#[derive(Debug, Clone, Copy, PartialEq, Eq, Structural)]
pub enum RecurrenceTimeUnit {
    D,
    B,
    W,
    M,
    Y,
}

/// One token of a task, by its meaning.
#[derive(Debug)]
pub enum TodoElement {
    Project(String),
    Context(String),
    Text(String),
    Due(DateData),
    Threshold(DateData),
    Recurrence { plus: bool, count: u32, unit: RecurrenceTimeUnit },
}

/// What a `TodoElement` stands for.
pub enum Element {
    Project(Seq<char>),
    Context(Seq<char>),
    Text(Seq<char>),
    Due(DateData),
    Threshold(DateData),
    Recurrence { plus: bool, count: u32, unit: RecurrenceTimeUnit },
}

impl View for TodoElement {
    type V = Element;

    open spec fn view(&self) -> Element {
        match *self {
            TodoElement::Project(name) => Element::Project(name@),
            TodoElement::Context(name) => Element::Context(name@),
            TodoElement::Text(content) => Element::Text(content@),
            TodoElement::Due(date) => Element::Due(date),
            TodoElement::Threshold(date) => Element::Threshold(date),
            TodoElement::Recurrence { plus, count, unit } => Element::Recurrence {
                plus,
                count,
                unit,
            },
        }
    }
}

impl PartialEq for TodoElement {
    /// Two elements are equal when they are of one kind and hold the same
    /// values, character for character.
    fn eq(&self, other: &TodoElement) -> (b: bool) {
        match (self, other) {
            (TodoElement::Project(a), TodoElement::Project(b)) => *a == *b,
            (TodoElement::Context(a), TodoElement::Context(b)) => *a == *b,
            (TodoElement::Text(a), TodoElement::Text(b)) => *a == *b,
            (TodoElement::Due(a), TodoElement::Due(b)) => *a == *b,
            (TodoElement::Threshold(a), TodoElement::Threshold(b)) => *a == *b,
            (
                TodoElement::Recurrence { plus: p, count: c, unit: u },
                TodoElement::Recurrence { plus: q, count: d, unit: v },
            ) => *p == *q && *c == *d && *u == *v,
            _ => false,
        }
    }
}

impl PartialEqSpecImpl for TodoElement {
    open spec fn obeys_eq_spec() -> bool {
        true
    }

    open spec fn eq_spec(&self, other: &TodoElement) -> bool {
        self@ == other@
    }
}

/// One task: the elements of a line, in the order in which they are written.
#[derive(Debug)]
pub struct TodoEntry {
    pub parts: Vec<TodoElement>,
}

impl View for TodoEntry {
    type V = Seq<Element>;

    open spec fn view(&self) -> Seq<Element> {
        self.parts@.map_values(|e: TodoElement| e@)
    }
}

impl PartialEq for TodoEntry {
    /// Two entries are equal when they hold equal elements in the same order.
    fn eq(&self, other: &TodoEntry) -> (b: bool) {
        if self.parts.len() != other.parts.len() {
            assert(self@.len() != other@.len());
            return false;
        }
        let mut i: usize = 0;
        while i < self.parts.len()
            invariant
                i <= self.parts@.len(),
                self.parts@.len() == other.parts@.len(),
                forall|j: int| 0 <= j < i ==> self@[j] == other@[j],
            decreases self.parts@.len() - i,
        {
            if self.parts[i] != other.parts[i] {
                assert(self@[i as int] != other@[i as int]);
                return false;
            }
            i += 1;
        }
        assert(self@ =~= other@);
        true
    }
}

impl PartialEqSpecImpl for TodoEntry {
    open spec fn obeys_eq_spec() -> bool {
        true
    }

    open spec fn eq_spec(&self, other: &TodoEntry) -> bool {
        self@ == other@
    }
}

/// A task list: the tasks of a file, in the order in which they are written.
#[derive(Debug)]
pub struct TodoData {
    pub entries: Vec<TodoEntry>,
}

impl View for TodoData {
    type V = Seq<Seq<Element>>;

    open spec fn view(&self) -> Seq<Seq<Element>> {
        self.entries@.map_values(|e: TodoEntry| e@)
    }
}

impl PartialEq for TodoData {
    /// Two task lists are equal when they hold equal entries in the same
    /// order.
    fn eq(&self, other: &TodoData) -> (b: bool) {
        if self.entries.len() != other.entries.len() {
            assert(self@.len() != other@.len());
            return false;
        }
        let mut i: usize = 0;
        while i < self.entries.len()
            invariant
                i <= self.entries@.len(),
                self.entries@.len() == other.entries@.len(),
                forall|j: int| 0 <= j < i ==> self@[j] == other@[j],
            decreases self.entries@.len() - i,
        {
            if self.entries[i] != other.entries[i] {
                assert(self@[i as int] != other@[i as int]);
                return false;
            }
            i += 1;
        }
        assert(self@ =~= other@);
        true
    }
}

impl PartialEqSpecImpl for TodoData {
    open spec fn obeys_eq_spec() -> bool {
        true
    }

    open spec fn eq_spec(&self, other: &TodoData) -> bool {
        self@ == other@
    }
}

/// What a run works on: the list of open tasks and the list of tasks done.
#[derive(Debug)]
pub struct Model {
    pub todo_data: TodoData,
    pub done_data: TodoData,
}

} // verus!
