use todocommander::model::{DateData, Model, RecurrenceTimeUnit, TodoData, TodoElement, TodoEntry};

fn entry(line: &str) -> TodoEntry {
    match TodoEntry::parse(line) {
        Ok(entry) => entry,
        Err(error) => panic!("{:?} was not parsed: {}", line, error.message),
    }
}

fn data(file: &str) -> TodoData {
    match TodoData::parse(file) {
        Ok(data) => data,
        Err(error) => panic!("{:?} was not parsed: {}", file, error.message),
    }
}

fn element(token: &str) -> TodoElement {
    match TodoElement::parse(token) {
        Ok(element) => element,
        Err(error) => panic!("{:?} was not parsed: {}", token, error.message),
    }
}

#[test]
fn element_is_written_with_its_sigil() {
    assert_eq!(TodoElement::project("Project1").render(), "+Project1");
    assert_eq!(TodoElement::project("").render(), "+");
    assert_eq!(TodoElement::context("Site1").render(), "@Site1");
    assert_eq!(TodoElement::context("").render(), "@");
    assert_eq!(TodoElement::text("Foo").render(), "Foo");
    assert_eq!(TodoElement::text("").render(), "");
}

#[test]
fn date_is_written_in_four_and_two_digits() {
    assert_eq!(TodoElement::Due(DateData { year: 2020, month: 7, day: 22 }).render(), "due:2020-07-22");
    assert_eq!(TodoElement::Threshold(DateData { year: 2020, month: 12, day: 1 }).render(), "t:2020-12-01");
    assert_eq!(TodoElement::Due(DateData { year: 0, month: 0, day: 0 }).render(), "due:0000-00-00");
    assert_eq!(TodoElement::Due(DateData { year: 65535, month: 255, day: 255 }).render(), "due:65535-255-255");
    assert_eq!(TodoElement::Threshold(DateData { year: 987, month: 6, day: 5 }).render(), "t:0987-06-05");
}

#[test]
fn recurrence_is_written_with_its_unit() {
    let written = |plus, count, unit| TodoElement::Recurrence { plus, count, unit }.render();
    assert_eq!(written(true, 1, RecurrenceTimeUnit::W), "rec:+1w");
    assert_eq!(written(false, 10, RecurrenceTimeUnit::D), "rec:10d");
    assert_eq!(written(true, 10, RecurrenceTimeUnit::Y), "rec:+10y");
    assert_eq!(written(false, 5, RecurrenceTimeUnit::M), "rec:5m");
    assert_eq!(written(false, 5, RecurrenceTimeUnit::B), "rec:5b");
    assert_eq!(written(false, 0, RecurrenceTimeUnit::B), "rec:0b");
    assert_eq!(written(true, 4294967295, RecurrenceTimeUnit::D), "rec:+4294967295d");
}

#[test]
fn entry_is_written_with_single_spaces() {
    assert_eq!(entry("").render(), "");
    assert_eq!(entry("a").render(), "a");
    assert_eq!(entry("  a \t b  ").render(), "a b");
    assert_eq!(
        entry("+Project1 @Site1 Foo bar due:2020-07-20 t:2020-07-26 rec:+1b").render(),
        "+Project1 @Site1 Foo bar due:2020-07-20 t:2020-07-26 rec:+1b"
    );
    assert_eq!(entry("due:2020-7-2 rec:+007w").render(), "due:2020-07-02 rec:+7w");
}

#[test]
fn data_is_written_one_line_for_each_entry() {
    assert_eq!(data("").render(), "");
    assert_eq!(data("a").render(), "a\n");
    assert_eq!(data("a b\r\n\r\n+c\r\n").render(), "a b\n+c\n");
    assert_eq!(data("a\n \nb").render(), "a\n\nb\n");
}

#[test]
fn model_is_written_as_two_texts() {
    let model = match Model::parse("+a  one\ntwo", "") {
        Ok(model) => model,
        Err(error) => panic!("not parsed: {}", error.message),
    };
    assert_eq!(model.render(), (String::from("+a one\ntwo\n"), String::new()));
}

#[test]
fn written_element_is_read_back() {
    let elements = vec![
        TodoElement::project("Project1"),
        TodoElement::project(""),
        TodoElement::project("+"),
        TodoElement::project("due:2020-07-22"),
        TodoElement::context("Site1"),
        TodoElement::context(""),
        TodoElement::text("Foo"),
        TodoElement::text("due:2020-x-22"),
        TodoElement::text("rec:1"),
        TodoElement::Due(DateData { year: 2020, month: 7, day: 22 }),
        TodoElement::Due(DateData { year: 0, month: 0, day: 0 }),
        TodoElement::Due(DateData { year: 65535, month: 255, day: 255 }),
        TodoElement::Threshold(DateData { year: 1, month: 2, day: 3 }),
        TodoElement::Recurrence { plus: true, count: 1, unit: RecurrenceTimeUnit::W },
        TodoElement::Recurrence { plus: false, count: 0, unit: RecurrenceTimeUnit::D },
        TodoElement::Recurrence { plus: false, count: 4294967295, unit: RecurrenceTimeUnit::Y },
        TodoElement::Recurrence { plus: true, count: 12, unit: RecurrenceTimeUnit::M },
        TodoElement::Recurrence { plus: true, count: 12, unit: RecurrenceTimeUnit::B },
    ];
    for expected in elements {
        assert_eq!(element(&expected.render()), expected);
    }
}

#[test]
fn text_that_a_rule_accepts_is_not_read_back_as_text() {
    assert_eq!(element(&TodoElement::text("+a").render()), TodoElement::project("a"));
    assert_eq!(
        element(&TodoElement::text("due:1-2-3").render()),
        TodoElement::Due(DateData { year: 1, month: 2, day: 3 })
    );
}

#[test]
fn written_entry_is_read_back() {
    let expected = TodoEntry {
        parts: vec![
            TodoElement::project("Project1"),
            TodoElement::context("Site1"),
            TodoElement::text("Foo"),
            TodoElement::text("bar"),
            TodoElement::Due(DateData { year: 2020, month: 7, day: 20 }),
            TodoElement::Threshold(DateData { year: 2020, month: 7, day: 26 }),
            TodoElement::Recurrence { plus: true, count: 1, unit: RecurrenceTimeUnit::B },
        ],
    };
    assert_eq!(entry(&expected.render()), expected);
    for line in ["", "a", " a  b ", "+ @ x", "due:2020-x-22 due:+2020-7-22", "a\u{a0}+b\u{3000}rec:0001d"] {
        let first = entry(line);
        assert_eq!(entry(&first.render()), first, "{:?}", line);
    }
}

#[test]
fn written_data_is_read_back() {
    let expected = TodoData {
        entries: vec![
            TodoEntry {
                parts: vec![
                    TodoElement::project("a"),
                    TodoElement::Due(DateData { year: 2020, month: 7, day: 20 }),
                ],
            },
            TodoEntry { parts: vec![TodoElement::text("b")] },
            TodoEntry {
                parts: vec![
                    TodoElement::context("c"),
                    TodoElement::Recurrence { plus: false, count: 3, unit: RecurrenceTimeUnit::W },
                    TodoElement::Threshold(DateData { year: 1999, month: 12, day: 31 }),
                ],
            },
        ],
    };
    assert_eq!(expected.render(), "+a due:2020-07-20\nb\n@c rec:3w t:1999-12-31\n");
    assert_eq!(data(&expected.render()), expected);
    for file in ["", "a", "a\nb\n", "a b\r\n\r\n+c\r\n", "+p @c due:1-2-3\n\n\nrec:+1w   x\n"] {
        let first = data(file);
        assert_eq!(data(&first.render()), first, "{:?}", file);
    }
}

#[test]
fn entry_without_parts_is_not_read_back() {
    let first = data("a\n \nb");
    assert_eq!(first.entries.len(), 3);
    assert_eq!(data(&first.render()).entries.len(), 2);
}
