use todocommander::model::{DateData, Model, RecurrenceTimeUnit, TodoData, TodoElement, TodoEntry};

fn entry(line: &str) -> TodoEntry {
    match TodoEntry::parse(line) {
        Ok(entry) => entry,
        Err(error) => panic!("{:?} was not parsed: {}", line, error.message),
    }
}

fn data(file: &str) -> TodoData {
    match TodoData::parse(file) {
        Ok(data) => data,
        Err(error) => panic!("{:?} was not parsed: {}", file, error.message),
    }
}

fn element(token: &str) -> TodoElement {
    match TodoElement::parse(token) {
        Ok(element) => element,
        Err(error) => panic!("{:?} was not parsed: {}", token, error.message),
    }
}

#[test]
fn entry_of_an_empty_line_has_no_parts() {
    assert!(entry("").parts.is_empty());
    assert!(entry("   ").parts.is_empty());
    assert!(entry("\t\r\n").parts.is_empty());
}

#[test]
fn entry_keeps_the_order_of_its_tokens() {
    let got = entry("b a b +a @a a");
    assert_eq!(
        got.parts,
        vec![
            TodoElement::text("b"),
            TodoElement::text("a"),
            TodoElement::text("b"),
            TodoElement::project("a"),
            TodoElement::context("a"),
            TodoElement::text("a"),
        ]
    );
}

#[test]
fn entry_takes_runs_of_blanks_as_one() {
    assert_eq!(entry("  a \t  b  ").parts, vec![TodoElement::text("a"), TodoElement::text("b")]);
    assert_eq!(entry("a\u{a0}b\u{3000}c\u{2003}d").parts.len(), 4);
    assert_eq!(entry("a\u{200b}b").parts, vec![TodoElement::text("a\u{200b}b")]);
}

#[test]
fn entry_falls_back_to_text_token_by_token() {
    let got = entry("due:2020-x-22 due:2020-07-22 rec:1 rec:1d");
    assert_eq!(
        got.parts,
        vec![
            TodoElement::text("due:2020-x-22"),
            TodoElement::Due(DateData { year: 2020, month: 7, day: 22 }),
            TodoElement::text("rec:1"),
            TodoElement::Recurrence { plus: false, count: 1, unit: RecurrenceTimeUnit::D },
        ]
    );
}

#[test]
fn entry_has_the_tokens_that_std_finds() {
    for line in ["", " ", "a", " a", "a ", "a b", "a  b", "\ta\u{a0}b\r", "+p @c due:1-2-3 x", "a\u{85}b\u{1680}c\u{2028}d\u{2029}e\u{202f}f\u{205f}g", "a\u{180e}b\u{feff}c"] {
        let expected: Vec<TodoElement> = line.split_whitespace().map(element).collect();
        assert_eq!(entry(line).parts, expected, "{:?}", line);
    }
}

#[test]
fn data_of_an_empty_file_is_empty() {
    assert!(data("").entries.is_empty());
    assert!(data("\n").entries.is_empty());
    assert!(data("\n\n\r\n").entries.is_empty());
}

#[test]
fn data_has_one_entry_for_each_line() {
    let got = data("+a one\n@b two\nthree\n");
    assert_eq!(got.entries.len(), 3);
    assert_eq!(got.entries[0], entry("+a one"));
    assert_eq!(got.entries[1], entry("@b two"));
    assert_eq!(got.entries[2], entry("three"));
}

#[test]
fn data_needs_no_line_ending_after_the_last_line() {
    assert_eq!(data("a\nb"), data("a\nb\n"));
    assert_eq!(data("a\nb").entries.len(), 2);
}

#[test]
fn data_leaves_empty_lines_out() {
    let got = data("\n\na\n\n\nb\n\n");
    assert_eq!(got.entries, vec![entry("a"), entry("b")]);
}

#[test]
fn data_takes_a_carriage_return_with_the_line_feed() {
    let got = data("a b\r\n\r\nc\r\n");
    assert_eq!(got.entries, vec![entry("a b"), entry("c")]);
    assert_eq!(got.entries[0].parts, vec![TodoElement::text("a"), TodoElement::text("b")]);
}

#[test]
fn data_keeps_a_line_of_blanks_as_an_entry_without_parts() {
    let got = data("a\n  \nb\n");
    assert_eq!(got.entries.len(), 3);
    assert!(got.entries[1].parts.is_empty());
    let got = data("a\r\r\nb");
    assert_eq!(got.entries.len(), 2);
    let got = data("a\n\r");
    assert_eq!(got.entries.len(), 2);
    assert!(got.entries[1].parts.is_empty());
}

#[test]
fn data_has_the_lines_that_std_finds() {
    for file in ["", "a", "a\n", "a\nb", "a\r\nb\r\n", "\n", "\n\n", "a\n\nb", " \n\t\n", "a\rb\nc", "a\r\r\nb", "+p @c\ndue:2020-07-22 x\n\nrec:+1w"] {
        let expected: Vec<TodoEntry> =
            file.lines().filter(|line| !line.is_empty()).map(entry).collect();
        assert_eq!(data(file).entries, expected, "{:?}", file);
    }
}

#[test]
fn entries_and_data_are_compared_part_by_part() {
    assert_eq!(entry("a b"), entry(" a   b "));
    assert_ne!(entry("a b"), entry("b a"));
    assert_ne!(entry("a b"), entry("a"));
    assert_ne!(entry("a"), entry("a b"));
    assert_ne!(entry("+a"), entry("@a"));
    assert_eq!(data("a\nb"), data("a\r\nb\r\n"));
    assert_ne!(data("a\nb"), data("b\na"));
    assert_ne!(data("a\nb"), data("a"));
    assert_ne!(data("a\nb"), data("a\nc"));
}

#[test]
fn model_holds_both_lists() {
    let model = match Model::parse("+a one\ntwo\n", "x done\n") {
        Ok(model) => model,
        Err(error) => panic!("not parsed: {}", error.message),
    };
    assert_eq!(model.todo_data, data("+a one\ntwo\n"));
    assert_eq!(model.done_data, data("x done\n"));
    assert_eq!(model.todo_data.entries.len(), 2);
    assert_eq!(model.done_data.entries.len(), 1);
}
