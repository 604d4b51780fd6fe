use lint_session::diagnostic::{Position, Range};
use lint_session::render::{
    carets, check_range_fits, cyan, format_diagnostic, join_lines, marker_line, red,
    snippet_lines, spaces,
};
use lint_session::text::decimal_text;

fn range(sl: usize, sc: usize, el: usize, ec: usize) -> Range {
    Range::new(
        Position { line_index: sl, column_index: sc },
        Position { line_index: el, column_index: ec },
    )
}

#[test]
fn single_line_range_is_underlined() {
    let lines = ["let xxx = 1;"];
    let out = snippet_lines(&lines, range(0, 4, 0, 7), false);
    assert_eq!(out, vec!["let xxx = 1;".to_string(), "    ^^^".to_string()]);
}

#[test]
fn single_line_diagnostic_has_all_parts() {
    let lines = ["let xxx = 1;"];
    let text = format_diagnostic(
        "no-unused-vars",
        "(no-unused-vars) `xxx` is never used",
        &lines,
        range(0, 4, 0, 7),
        None,
        "a.ts:1:4",
        false,
    );
    assert_eq!(
        text,
        "(no-unused-vars) `xxx` is never used\nlet xxx = 1;\n    ^^^\n    at a.ts:1:4\n\n    help: for further information visit https://lint.deno.land/#no-unused-vars"
    );
}

#[test]
fn hint_line_stands_before_help_line() {
    let lines = ["let xxx = 1;"];
    let hint = "Remove it".to_string();
    let text = format_diagnostic(
        "c",
        "m",
        &lines,
        range(0, 4, 0, 7),
        Some(&hint),
        "a.ts:1:4",
        false,
    );
    assert_eq!(
        text,
        "m\nlet xxx = 1;\n    ^^^\n    at a.ts:1:4\n\n    hint: Remove it\n    help: for further information visit https://lint.deno.land/#c"
    );
}

#[test]
fn multi_line_range_marks_each_line() {
    let lines = ["zero", "one", "abcdef", "middle", "xy z", "five"];
    let out = snippet_lines(&lines, range(2, 3, 4, 2), false);
    assert_eq!(
        out,
        vec![
            "abcdef".to_string(),
            "   ^^^".to_string(),
            "middle".to_string(),
            "^^^^^^".to_string(),
            "xy z".to_string(),
            "^^".to_string(),
        ]
    );
}

#[test]
fn empty_interior_line_gets_no_marker() {
    let lines = ["abcdef", "", "xy"];
    let out = snippet_lines(&lines, range(0, 1, 2, 1), false);
    assert_eq!(
        out,
        vec![
            "abcdef".to_string(),
            " ^^^^^".to_string(),
            "".to_string(),
            "xy".to_string(),
            "^".to_string(),
        ]
    );
    assert_eq!(marker_line(range(0, 1, 2, 1), 1, "", false), None);
}

#[test]
fn zero_width_range_gives_empty_caret_run() {
    let lines = ["abc"];
    let out = snippet_lines(&lines, range(0, 2, 0, 2), false);
    assert_eq!(out, vec!["abc".to_string(), "  ".to_string()]);
}

#[test]
fn range_past_the_last_line_stops_at_the_last_line() {
    let lines = ["abc", "de"];
    let out = snippet_lines(&lines, range(1, 0, 5, 0), false);
    assert_eq!(out, vec!["de".to_string(), "^^".to_string()]);
    let none = snippet_lines(&lines, range(7, 0, 7, 1), false);
    assert!(none.is_empty());
}

#[test]
fn first_line_length_is_counted_in_bytes() {
    let lines = ["h\u{e9}llo", "x"];
    let out = snippet_lines(&lines, range(0, 1, 1, 1), false);
    assert_eq!(out[1], " ^^^^^");
}

#[test]
fn colours_wrap_the_caret_run() {
    let lines = ["let xxx = 1;"];
    let out = snippet_lines(&lines, range(0, 4, 0, 7), true);
    assert_eq!(out[1], "    \u{1b}[0m\u{1b}[31m^^^\u{1b}[0m");
    assert_eq!(red("x", true), "\u{1b}[0m\u{1b}[31mx\u{1b}[0m");
    assert_eq!(cyan("x", true), "\u{1b}[0m\u{1b}[36mx\u{1b}[0m");
    assert_eq!(red("x", false), "x");
    assert_eq!(cyan("x", false), "x");
}

#[test]
fn range_fit_is_decided() {
    let lines = ["abc", "de"];
    assert!(check_range_fits(range(0, 1, 0, 2), &lines));
    assert!(!check_range_fits(range(0, 2, 0, 1), &lines));
    assert!(!check_range_fits(range(1, 0, 0, 0), &lines));
    assert!(check_range_fits(range(0, 3, 1, 0), &lines));
    assert!(!check_range_fits(range(0, 4, 1, 0), &lines));
    assert!(check_range_fits(range(5, 9, 6, 0), &lines));
}

#[test]
fn lines_are_joined_by_line_feeds() {
    assert_eq!(join_lines(&vec![]), "");
    assert_eq!(join_lines(&vec!["a".to_string()]), "a");
    assert_eq!(join_lines(&vec!["a".to_string(), "".to_string(), "b".to_string()]), "a\n\nb");
}

#[test]
fn runs_of_one_character() {
    assert_eq!(spaces(0), "");
    assert_eq!(spaces(3), "   ");
    assert_eq!(carets(2), "^^");
}

#[test]
fn numbers_are_written_in_decimal() {
    assert_eq!(decimal_text(0), "0");
    assert_eq!(decimal_text(9), "9");
    assert_eq!(decimal_text(10), "10");
    assert_eq!(decimal_text(1234567890), "1234567890");
    assert_eq!(decimal_text(u128::MAX), u128::MAX.to_string());
}
