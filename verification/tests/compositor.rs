use commit_picker::compositor::pad;

const FOOTER: &str = "Use UP/DOWN to move, ENTER to confirm\n";

#[test]
fn short_frame_is_padded_to_the_height() {
    assert_eq!(pad("a\nb\n", 5), format!("\n\n\n{}{}", "a\nb\n", FOOTER));
}

#[test]
fn five_rows_on_a_terminal_of_twenty_four() {
    let frame = "r1\nr2\nr3\n\n\n";
    let padded = pad(frame, 24);
    assert_eq!(padded, format!("{}{}{}", "\n".repeat(19), frame, FOOTER));
}

#[test]
fn frame_of_the_terminals_height_gets_no_padding() {
    assert_eq!(pad("1\n2\n", 2), format!("1\n2\n{}", FOOTER));
}

#[test]
fn taller_frame_is_padded_by_the_excess() {
    assert_eq!(pad("1\n2\n3\n", 1), format!("\n\n1\n2\n3\n{}", FOOTER));
}

#[test]
fn empty_frame_is_all_padding() {
    assert_eq!(pad("", 3), format!("\n\n\n{}", FOOTER));
    assert_eq!(pad("", 0), FOOTER);
}

#[test]
fn only_line_breaks_count() {
    assert_eq!(pad("no break", 2), format!("\n\nno break{}", FOOTER));
    assert_eq!(pad("wide \u{1F431} row\n", 2), format!("\nwide \u{1F431} row\n{}", FOOTER));
}

#[test]
fn padding_is_the_same_on_every_call() {
    assert_eq!(pad("x\ny\n", 40), pad("x\ny\n", 40));
}

#[test]
fn padded_frame_has_a_line_for_every_row_and_the_footer() {
    for height in 5..60u16 {
        let padded = pad("r1\nr2\nr3\n\n\n", height);
        assert_eq!(padded.matches('\n').count(), usize::from(height) + 1);
    }
}
