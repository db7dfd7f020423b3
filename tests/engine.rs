use std::io::BufRead;
use trim::prelude::clean;
use trim::trim::{trim_lines, TrimEngine, VisualSpan};
use trim::whitespace::TrailingWhitespace;

fn test_data() -> Vec<(&'static str, &'static str, i32)> {
    vec![
        // empty
        ("", "", 1),
        // nothing to trim
        ("abc", "abc", 1),
        ("\nasd fgh\nabc", "\nasd fgh\nabc", 1),
        // `\r` is not used as a line break
        ("ab \t  \r abc", "ab \t  \r abc", 1),
        // `\r` is a whitespace though
        ("ab \t  \r \nabc", "ab\nabc", 7),
        ("\n \n \n\t\t \t \n \t\r \n\r   \r\r \n     \n \n", "", 33),
        // trailing newlines are removed
        ("ab \ncd \n  \n\n  \n", "ab\ncd", 11),
        // leading newlines are preserved
        ("  \n\t\r \r \n 123 absoi", "\n\n 123 absoi", 8),
        ("abc", "abc", 1),
        ("abc\n", "abc", 1),
        ("abc\n\n", "abc", 3),
        ("abc ", "abc", 2),
        ("abc \n", "abc", 2),
    ]
}

/// The lines of the text as a buffered reader yields them.
fn read_lines(text: &str) -> Vec<String> {
    text.as_bytes().lines().map(|l| l.unwrap()).collect()
}

#[test]
fn parametrized_n_suppress_newline() {
    for (input, expected_raw, savings) in test_data() {
        let t = trim_lines(&read_lines(input), false);
        let expected = format!("{}\n", expected_raw);
        // each count in the table is one above the bytes saved
        assert_eq!(savings as i64 - 1, t.result.bytes_saved, "input {:?}", input);
        assert_eq!(expected, t.output, "input {:?}", input);
    }
}

#[test]
fn parametrized_suppress_newline() {
    for (input, expected_raw, savings) in test_data() {
        let t = trim_lines(&read_lines(input), true);
        // leaving out the final line feed does not change the count
        assert_eq!(savings as i64 - 1, t.result.bytes_saved, "input {:?}", input);
        assert_eq!(expected_raw, t.output, "input {:?}", input);
    }
}

#[test]
fn literal_scenarios() {
    let cases: Vec<(&str, &str, i64)> = vec![
        ("", "\n", 0),
        ("abc", "abc\n", 0),
        ("   absoi ", "   absoi\n", 1),
        ("ab \ncd \n  \n\n  \n", "ab\ncd\n", 10),
        ("ab \t  \r \nabc", "ab\nabc\n", 6),
    ];
    for (input, expected, saved) in cases {
        let t = trim_lines(&read_lines(input), false);
        assert_eq!(expected, t.output, "input {:?}", input);
        assert_eq!(saved, t.result.bytes_saved, "input {:?}", input);
    }
}

#[test]
fn trimmed_text_comes_back_unchanged() {
    for text in ["abc\n", "\nabc\n", "a\n\n\nb c\n", "\n"] {
        let t = trim_lines(&read_lines(text), false);
        assert_eq!(text, t.output);
        assert_eq!(0, t.result.bytes_saved);
    }
    for text in ["", "abc", "\nabc", "a\n\n\nb c"] {
        let t = trim_lines(&read_lines(text), true);
        assert_eq!(text, t.output);
        assert_eq!(0, t.result.bytes_saved);
    }
}

#[test]
fn saved_bytes_never_negative() {
    for text in ["", "\n", "\n\n", " ", "x", "x\n\n\n", "\t\n x \n"] {
        for suppress in [false, true] {
            let t = trim_lines(&read_lines(text), suppress);
            assert!(t.result.bytes_saved >= 0);
        }
    }
}

#[test]
fn final_line_feed_makes_no_difference() {
    for (a, b) in [("abc", "abc\n"), ("x \n\ty", "x \n\ty\n"), ("", "\n")] {
        for suppress in [false, true] {
            let ta = trim_lines(&read_lines(a), suppress);
            let tb = trim_lines(&read_lines(b), suppress);
            assert_eq!(ta.output, tb.output);
            assert_eq!(ta.result.bytes_saved, tb.result.bytes_saved);
        }
    }
}

#[test]
fn trailing_blank_lines_are_dropped() {
    let t = trim_lines(&read_lines("a\n  \n\t\n\n"), false);
    assert_eq!("a\n", t.output);
    let t = trim_lines(&read_lines("a\n  \n\t\n\n"), true);
    assert_eq!("a", t.output);
    let t = trim_lines(&read_lines("  \n\t\n"), true);
    assert_eq!("", t.output);
}

#[test]
fn interior_blank_lines_are_kept() {
    let t = trim_lines(&read_lines("a\n   \n\t\nb"), false);
    assert_eq!("a\n\n\nb\n", t.output);
    let t = trim_lines(&read_lines(" \nb"), true);
    assert_eq!("\nb", t.output);
}

#[test]
fn unicode_whitespace_is_trimmed() {
    let ws = TrailingWhitespace::new();
    assert_eq!("ab", ws.trim("ab \u{3000}\u{a0}\u{2028}\u{85}"));
    assert_eq!("a b", ws.trim("a b"));
    assert_eq!("", ws.trim(" \t\r\u{b}\u{c}"));
    // a zero-width space is not whitespace
    assert_eq!("a\u{200b}", ws.trim("a\u{200b}"));
    // "\u{3000}" takes three bytes
    let t = trim_lines(&vec!["x\u{3000}".to_string(), "y".to_string()], false);
    assert_eq!("x\ny\n", t.output);
    assert_eq!(3, t.result.bytes_saved);
}

#[test]
fn engine_defers_line_feeds() {
    let mut e = TrimEngine::new();
    let first = e.push_line("ab  ");
    assert_eq!("ab", first.text);
    let v = first.visual.unwrap();
    assert_eq!((1, "ab".to_string(), 2), (v.line_number, v.text, v.removed));
    let blank = e.push_line("   ");
    assert_eq!("", blank.text);
    assert_eq!(3, blank.visual.unwrap().removed);
    let empty = e.push_line("");
    assert_eq!("", empty.text);
    assert!(empty.visual.is_none());
    let last = e.push_line("cd");
    assert_eq!("\n\n\ncd", last.text);
    assert!(last.visual.is_none());
    assert!(e.has_room("more"));
    let (tail, result) = e.finish(false);
    assert_eq!("\n", tail);
    assert_eq!(5, result.bytes_saved);
    let (tail, result) = e.finish(true);
    assert_eq!("", tail);
    assert_eq!(5, result.bytes_saved);
}

#[test]
fn blank_lines_at_end_count_their_line_feeds() {
    let mut e = TrimEngine::new();
    e.push_line("abc");
    e.push_line("");
    let (_, result) = e.finish(false);
    assert_eq!(2, result.bytes_saved);
}

#[test]
fn visual_record_format() {
    let v = VisualSpan { line_number: 12, text: "ab".to_string(), removed: 3 };
    assert_eq!("    12|ab\u{1b}[41;37m___\u{1b}[0m\n", v.render());
    let v = VisualSpan { line_number: 1234567, text: String::new(), removed: 1 };
    assert_eq!("1234567|\u{1b}[41;37m_\u{1b}[0m\n", v.render());
}

#[test]
fn visual_report_lists_lines_that_lost_bytes() {
    let t = trim_lines(&read_lines("a \nb\n \n"), false);
    assert_eq!(
        "     1|a\u{1b}[41;37m_\u{1b}[0m\n     3|\u{1b}[41;37m_\u{1b}[0m\n",
        t.visual
    );
}

#[test]
fn clean_trims_whole_buffer() {
    let r = clean(&read_lines("ab \ncd \n  \n\n  \n"));
    assert_eq!("ab\ncd\n", *r.trimmed);
    assert_eq!(10, r.saved_bytes);
    assert_eq!(
        "     1|ab\u{1b}[41;37m_\u{1b}[0m\n     2|cd\u{1b}[41;37m_\u{1b}[0m\n     3|\u{1b}[41;37m__\u{1b}[0m\n     5|\u{1b}[41;37m__\u{1b}[0m\n",
        *r.visualized
    );
    let r = clean(&Vec::new());
    assert_eq!("\n", *r.trimmed);
    assert_eq!("", *r.visualized);
    assert_eq!(0, r.saved_bytes);
}
