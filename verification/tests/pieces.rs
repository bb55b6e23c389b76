use todocommander::chars::whitespace;
use todocommander::number::{parse_count, parse_unsigned, push_numeral};
use todocommander::split::{scan_run, scan_until, split_fields, split_lines, split_tokens};
use todocommander::text::{chars_of, string_of};

fn strings(pieces: Vec<&[char]>) -> Vec<String> {
    pieces.into_iter().map(string_of).collect()
}

fn numeral(n: u32, width: u8) -> String {
    let mut out = String::from(">");
    push_numeral(&mut out, n, width);
    out
}

#[test]
fn whitespace_is_what_std_calls_whitespace() {
    let mut count = 0;
    for code in 0..=0x10ffffu32 {
        if let Some(c) = char::from_u32(code) {
            assert_eq!(whitespace(c), c.is_whitespace(), "U+{:04X}", code);
            if whitespace(c) {
                count += 1;
            }
        }
    }
    assert_eq!(count, 25);
}

#[test]
fn chars_and_strings_convert_both_ways() {
    assert_eq!(chars_of(""), Vec::<char>::new());
    assert_eq!(chars_of("a\u{e9}\u{3000}\u{1f600}"), vec!['a', '\u{e9}', '\u{3000}', '\u{1f600}']);
    assert_eq!(string_of(&[]), "");
    assert_eq!(string_of(&['a', '\u{e9}', '\u{3000}', '\u{1f600}']), "a\u{e9}\u{3000}\u{1f600}");
    for text in ["", "abc", "due:2020-07-22", "\u{fffd}\u{10ffff}\0"] {
        assert_eq!(string_of(&chars_of(text)), text);
    }
}

#[test]
fn count_is_digits_only() {
    assert_eq!(parse_count(&chars_of("0"), 10), Some(0));
    assert_eq!(parse_count(&chars_of("10"), 10), Some(10));
    assert_eq!(parse_count(&chars_of("11"), 10), None);
    assert_eq!(parse_count(&chars_of("0010"), 10), Some(10));
    assert_eq!(parse_count(&chars_of(""), 10), None);
    assert_eq!(parse_count(&chars_of("+1"), 10), None);
    assert_eq!(parse_count(&chars_of("-1"), 10), None);
    assert_eq!(parse_count(&chars_of("1a"), 10), None);
    assert_eq!(parse_count(&chars_of("a1"), 10), None);
    assert_eq!(parse_count(&chars_of("\u{661}"), 10), None);
    assert_eq!(parse_count(&chars_of("4294967295"), u32::MAX), Some(u32::MAX));
    assert_eq!(parse_count(&chars_of("4294967296"), u32::MAX), None);
    assert_eq!(parse_count(&chars_of("99999999999999999999999"), u32::MAX), None);
    assert_eq!(parse_count(&chars_of("99999999999999999999999x"), u32::MAX), None);
    assert_eq!(parse_count(&chars_of("0"), 0), Some(0));
    assert_eq!(parse_count(&chars_of("1"), 0), None);
}

#[test]
fn unsigned_is_what_std_parses() {
    for text in ["", "+", "-", "0", "+0", "-0", "1", "+1", "++1", "+-1", "255", "256", "+255", "+256", "0255", "+0255", "65535", "65536", "1+", " 1", "1 ", "0x10", "1e3", "4294967295", "4294967296", "+4294967295", "18446744073709551616"] {
        let chars = chars_of(text);
        assert_eq!(parse_unsigned(&chars, 0xff), text.parse::<u8>().ok().map(u32::from), "{:?}", text);
        assert_eq!(parse_unsigned(&chars, 0xffff), text.parse::<u16>().ok().map(u32::from), "{:?}", text);
        assert_eq!(parse_unsigned(&chars, u32::MAX), text.parse::<u32>().ok(), "{:?}", text);
    }
}

#[test]
fn numeral_is_as_wide_as_asked() {
    assert_eq!(numeral(0, 0), ">0");
    assert_eq!(numeral(0, 1), ">0");
    assert_eq!(numeral(0, 2), ">00");
    assert_eq!(numeral(7, 2), ">07");
    assert_eq!(numeral(10, 2), ">10");
    assert_eq!(numeral(123, 2), ">123");
    assert_eq!(numeral(2020, 4), ">2020");
    assert_eq!(numeral(5, 4), ">0005");
    assert_eq!(numeral(65535, 4), ">65535");
    assert_eq!(numeral(4294967295, 1), ">4294967295");
    assert_eq!(numeral(4294967295, 12), ">004294967295");
}

#[test]
fn numeral_reads_as_its_number() {
    for n in [0u32, 1, 9, 10, 11, 99, 100, 255, 256, 65535, 65536, 1000000, 4294967294, 4294967295] {
        for width in 0..6u8 {
            let mut out = String::new();
            push_numeral(&mut out, n, width);
            assert_eq!(out, format!("{:0w$}", n, w = width as usize));
            assert_eq!(parse_count(&chars_of(&out), u32::MAX), Some(n));
            assert_eq!(parse_unsigned(&chars_of(&out), u32::MAX), Some(n));
        }
    }
}

#[test]
fn scans_stop_at_the_first_change() {
    assert_eq!(scan_until(&chars_of(""), '-'), 0);
    assert_eq!(scan_until(&chars_of("abc"), '-'), 3);
    assert_eq!(scan_until(&chars_of("ab-c-"), '-'), 2);
    assert_eq!(scan_until(&chars_of("-ab"), '-'), 0);
    assert_eq!(scan_run(&chars_of("  a "), true), 2);
    assert_eq!(scan_run(&chars_of("  a "), false), 0);
    assert_eq!(scan_run(&chars_of("ab c"), false), 2);
    assert_eq!(scan_run(&chars_of("ab"), false), 2);
    assert_eq!(scan_run(&chars_of(""), true), 0);
}

#[test]
fn fields_are_what_std_splits() {
    for text in ["", "-", "--", "a", "a-b", "a-b-c", "-a", "a-", "a--b", "2020-07-22", "-a-b-"] {
        let expected: Vec<String> = text.split('-').map(String::from).collect();
        assert_eq!(strings(split_fields(&chars_of(text), '-')), expected, "{:?}", text);
    }
    assert_eq!(strings(split_fields(&chars_of("a-b"), '+')), vec!["a-b"]);
}

#[test]
fn tokens_are_what_std_splits() {
    for text in ["", " ", "a", "a b", "  a  b  ", "\ta\nb\r", "a\u{a0}b", "a\u{2000}\u{200a}b\u{200b}c"] {
        let expected: Vec<String> = text.split_whitespace().map(String::from).collect();
        assert_eq!(strings(split_tokens(&chars_of(text))), expected, "{:?}", text);
    }
}

#[test]
fn lines_end_at_line_feeds() {
    assert_eq!(strings(split_lines(&chars_of(""))), Vec::<String>::new());
    assert_eq!(strings(split_lines(&chars_of("a"))), vec!["a"]);
    assert_eq!(strings(split_lines(&chars_of("a\n"))), vec!["a"]);
    assert_eq!(strings(split_lines(&chars_of("a\nb"))), vec!["a", "b"]);
    assert_eq!(strings(split_lines(&chars_of("a\r\nb\r\n"))), vec!["a", "b"]);
    assert_eq!(strings(split_lines(&chars_of("\n"))), vec![""]);
    assert_eq!(strings(split_lines(&chars_of("\n\n"))), vec!["", ""]);
    assert_eq!(strings(split_lines(&chars_of("a\n\nb"))), vec!["a", "", "b"]);
    assert_eq!(strings(split_lines(&chars_of("a\rb\nc"))), vec!["a\rb", "c"]);
    assert_eq!(strings(split_lines(&chars_of("a\r\r\nb"))), vec!["a\r", "b"]);
    assert_eq!(strings(split_lines(&chars_of("a\n\r"))), vec!["a", "\r"]);
    assert_eq!(strings(split_lines(&chars_of("\r\n"))), vec![""]);
}

#[test]
fn lines_are_what_std_splits() {
    for text in ["", "a", "a\n", "a\nb", "a\r\nb\r\n", "\n", "\n\n", "a\n\nb", "a\rb\nc", "a\r\r\nb", "\r\n"] {
        let expected: Vec<String> = text.lines().map(String::from).collect();
        assert_eq!(strings(split_lines(&chars_of(text))), expected, "{:?}", text);
    }
}
