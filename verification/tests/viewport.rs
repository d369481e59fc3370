use commit_picker::record::CommitRecord;
use commit_picker::viewport::{
    format_row, plain_line, record_body, render, selected_line, short_identifier, window,
};

const ID_A: &str = "a1b2c3d4e5f60718293a4b5c6d7e8f9012345678";
const ID_B: &str = "b2c3d4e5f60718293a4b5c6d7e8f9012345678a1";
const ID_C: &str = "c3d4e5f60718293a4b5c6d7e8f9012345678a1b2";
const DATE: &str = "2024-01-01 00:00:00";

fn margin() -> String {
    " ".repeat(35)
}

fn record(identifier: &str, seconds: i64, message: &str) -> CommitRecord {
    CommitRecord::new(String::from(identifier), String::from(message), seconds).unwrap()
}

fn three() -> Vec<CommitRecord> {
    vec![
        record(ID_A, 1704067200, "fix: bug"),
        record(ID_B, 1704153600, "feat: x"),
        record(ID_C, 1704240000, "feat: y"),
    ]
}

fn by_std(identifier: &str, date: &str, message: &str) -> String {
    let short: String = identifier.chars().take(7).collect();
    let continuation = format!("\n{}", margin());
    let s = format!("  [{}] {}- {}\n", short, date, message)
        .replace("\n\n", "\n")
        .replace("\n", &continuation);
    match s.strip_suffix(continuation.as_str()) {
        Some(body) => String::from(body),
        None => s,
    }
}

#[test]
fn short_identifier_is_the_first_seven_characters() {
    assert_eq!(short_identifier(ID_A), vec!['a', '1', 'b', '2', 'c', '3', 'd']);
    assert_eq!(short_identifier("abc"), vec!['a', 'b', 'c']);
    assert_eq!(short_identifier("1234567"), vec!['1', '2', '3', '4', '5', '6', '7']);
    assert_eq!(short_identifier(""), Vec::<char>::new());
}

#[test]
fn one_line_message_stays_on_one_line() {
    assert_eq!(format_row(ID_A, DATE, "fix: bug"), "  [a1b2c3d] 2024-01-01 00:00:00- fix: bug");
}

#[test]
fn closing_line_break_leaves_no_trace() {
    assert_eq!(
        format_row(ID_A, DATE, "fix: bug\n"),
        "  [a1b2c3d] 2024-01-01 00:00:00- fix: bug"
    );
}

#[test]
fn continuation_lines_stand_under_the_margin() {
    let body = format_row(ID_A, DATE, "first\nsecond\nthird");
    let expected = format!(
        "  [a1b2c3d] 2024-01-01 00:00:00- first\n{}second\n{}third",
        margin(),
        margin()
    );
    assert_eq!(body, expected);
}

#[test]
fn margin_ends_where_the_message_starts() {
    let row = plain_line(format_row(ID_A, DATE, "first\nsecond\nthird").as_str());
    let lines: Vec<&str> = row.lines().collect();
    assert_eq!(lines.len(), 3);
    let column = lines[0].find("first").unwrap();
    assert_eq!(column, 35);
    assert_eq!(lines[1].find("second").unwrap(), column);
    assert_eq!(lines[2].find("third").unwrap(), column);
    assert_eq!(&lines[1][..column], margin());
    assert_eq!(&lines[2][..column], margin());
}

#[test]
fn empty_last_line_leaves_no_margin() {
    let with_empty_line = format_row(ID_A, DATE, "first\nsecond\n");
    let without = format_row(ID_A, DATE, "first\nsecond");
    assert_eq!(with_empty_line, without);
    assert!(!with_empty_line.ends_with(' '));
    assert!(!with_empty_line.ends_with('\n'));
    assert_eq!(
        with_empty_line,
        format!("  [a1b2c3d] 2024-01-01 00:00:00- first\n{}second", margin())
    );
}

#[test]
fn blank_line_between_subject_and_text_is_dropped() {
    assert_eq!(
        format_row(ID_A, DATE, "subject\n\ntext\n"),
        format!("  [a1b2c3d] 2024-01-01 00:00:00- subject\n{}text", margin())
    );
}

#[test]
fn pairs_of_line_breaks_are_collapsed_from_the_left() {
    assert_eq!(
        format_row(ID_A, DATE, "a\n\n\nb"),
        format!("  [a1b2c3d] 2024-01-01 00:00:00- a\n{}\n{}b", margin(), margin())
    );
    assert_eq!(
        format_row(ID_A, DATE, "a\n\n"),
        format!("  [a1b2c3d] 2024-01-01 00:00:00- a\n{}", margin())
    );
}

#[test]
fn short_identifier_and_empty_message_are_shown_as_they_are() {
    assert_eq!(format_row("abc", DATE, ""), "  [abc] 2024-01-01 00:00:00- ");
    assert_eq!(format_row("", "", ""), "  [] - ");
}

#[test]
fn rows_are_formatted_as_std_would() {
    let messages = [
        "", "\n", "\n\n", "\n\n\n", "a", "a\n", "a\n\n", "a\n\n\n", "a\n\n\n\n", "a\nb\nc",
        "a\n\nb\n\nc\n", "\na", "\n\na", "  spaced  \n  out  ", "tab\there\n",
    ];
    for message in messages {
        assert_eq!(format_row(ID_B, DATE, message), by_std(ID_B, DATE, message));
        assert_eq!(format_row("xy", "d\nd", message), by_std("xy", "d\nd", message));
    }
}

#[test]
fn markers_tell_the_selected_row() {
    assert_eq!(selected_line("body"), "->body\n");
    assert_eq!(plain_line("body"), "  body\n");
    assert_eq!(selected_line(""), "->\n");
    assert_eq!(plain_line(""), "  \n");
}

#[test]
fn record_body_expands_emoji() {
    let cat = record(ID_A, 1704067200, ":cat: purrs :smile:");
    assert_eq!(
        record_body(&cat),
        "  [a1b2c3d] 2024-01-01 00:00:00- \u{1F431} purrs \u{1F604}"
    );
    let unknown = record(ID_A, 1704067200, "see :not_emoji_404: and 12:30:45");
    assert_eq!(
        record_body(&unknown),
        "  [a1b2c3d] 2024-01-01 00:00:00- see :not_emoji_404: and 12:30:45"
    );
}

#[test]
fn window_starts_at_the_selection() {
    let history = three();
    let text = window(&history, 0, "PAINTED");
    let expected = String::from("->PAINTED\n")
        + "    [b2c3d4e] 2024-01-02 00:00:00- feat: x\n"
        + "    [c3d4e5f] 2024-01-03 00:00:00- feat: y\n"
        + "\n\n";
    assert_eq!(text, expected);
}

#[test]
fn window_ends_in_empty_rows() {
    let history = three();
    assert_eq!(window(&history, 2, "last"), "->last\n\n\n\n\n");
    assert_eq!(window(&history, 3, "ignored"), "\n\n\n\n\n");
    assert_eq!(window(&history, usize::MAX, "ignored"), "\n\n\n\n\n");
    assert_eq!(window(&Vec::new(), 0, "ignored"), "\n\n\n\n\n");
}

#[test]
fn window_shows_five_rows_at_most() {
    let history: Vec<CommitRecord> = (0..8)
        .map(|n| record(format!("{}000000000", n).as_str(), 86400 * n, format!("c{}", n).as_str()))
        .collect();
    let text = window(&history, 2, "two");
    let expected = String::from("->two\n")
        + "    [3000000] 1970-01-04 00:00:00- c3\n"
        + "    [4000000] 1970-01-05 00:00:00- c4\n"
        + "    [5000000] 1970-01-06 00:00:00- c5\n"
        + "    [6000000] 1970-01-07 00:00:00- c6\n";
    assert_eq!(text, expected);
}

#[test]
fn three_line_message_below_the_selection() {
    let history =
        vec![record(ID_A, 1704067200, "top"), record(ID_B, 1704153600, "one\ntwo\nthree\n")];
    let text = window(&history, 0, "top");
    let expected = String::from("->top\n")
        + "    [b2c3d4e] 2024-01-02 00:00:00- one\n"
        + &margin()
        + "two\n"
        + &margin()
        + "three\n"
        + "\n\n\n";
    assert_eq!(text, expected);
    for line in text.lines() {
        assert!(line.is_empty() || !line.trim().is_empty());
    }
}

#[test]
fn render_without_colour_is_the_plain_window() {
    colored::control::set_override(false);
    let history = three();
    let expected = String::from("->  [a1b2c3d] 2024-01-01 00:00:00- fix: bug\n")
        + "    [b2c3d4e] 2024-01-02 00:00:00- feat: x\n"
        + "    [c3d4e5f] 2024-01-03 00:00:00- feat: y\n"
        + "\n\n";
    assert_eq!(render(&history, 0), expected);
    let expected = String::from("->  [b2c3d4e] 2024-01-02 00:00:00- feat: x\n")
        + "    [c3d4e5f] 2024-01-03 00:00:00- feat: y\n"
        + "\n\n\n";
    assert_eq!(render(&history, 1), expected);
    assert_eq!(render(&history, 7), "\n\n\n\n\n");
}

#[test]
fn render_gives_the_same_text_for_the_same_arguments() {
    colored::control::set_override(false);
    let history = three();
    for index in 0..4 {
        assert_eq!(render(&history, index), render(&history, index));
    }
}

#[test]
fn render_expands_emoji_in_every_row() {
    colored::control::set_override(false);
    let history =
        vec![record(ID_A, 1704067200, ":cat: one"), record(ID_B, 1704153600, "two :smile:")];
    let expected = String::from("->  [a1b2c3d] 2024-01-01 00:00:00- \u{1F431} one\n")
        + "    [b2c3d4e] 2024-01-02 00:00:00- two \u{1F604}\n"
        + "\n\n\n";
    assert_eq!(render(&history, 0), expected);
}
