//! The compositor: pads a rendered window to the height of the terminal and
//! closes it with the footer.

use vstd::prelude::*;
use crate::text::{
    chars_of, count_char, lemma_occurrences_add, lemma_occurrences_in_run,
    lemma_occurrences_of_absent, occurrences, run_of,
};

verus! {

/// The instruction shown under every frame.
pub open spec fn footer() -> Seq<char> {
    "Use UP/DOWN to move, ENTER to confirm"@
}

/// The number of line breaks in `frame`.
pub open spec fn line_breaks(frame: Seq<char>) -> nat {
    occurrences(frame, '\n')
}

/// The number of blank lines put in front of `frame` on a terminal of
/// `height` rows: the distance between the height and the frame's line
/// breaks, whichever of the two is larger.
pub open spec fn padding(frame: Seq<char>, height: int) -> nat {
    if height >= line_breaks(frame) {
        (height - line_breaks(frame)) as nat
    } else {
        (line_breaks(frame) - height) as nat
    }
}

/// `frame` behind its blank lines and in front of the footer line.
pub open spec fn padded(frame: Seq<char>, height: int) -> Seq<char> {
    run_of('\n', padding(frame, height)) + frame + footer() + seq!['\n']
}

/// Pads `frame` for a terminal of `height` rows and adds the footer.
pub fn pad(frame: &str, height: u16) -> (text: String)
    ensures
        text@ == padded(frame@, height as int),
{
    let frame_chars = chars_of(frame);
    let breaks = count_char(&frame_chars, '\n');
    let rows: usize = height as usize;
    let blank: usize = if rows >= breaks {
        rows - breaks
    } else {
        breaks - rows
    };
    let mut text = String::new();
    let mut i: usize = 0;
    while i < blank
        invariant
            i <= blank,
            text@ == run_of('\n', i as nat),
        decreases blank - i,
    {
        text.push('\n');
        i += 1;
    }
    text.append(frame);
    text.append("Use UP/DOWN to move, ENTER to confirm");
    text.push('\n');
    text
}

/// A frame that is not taller than the terminal fills it exactly: padded, it
/// has one line for each row of the terminal, and the footer line.
pub proof fn lemma_padded_frame_fills_the_terminal(frame: Seq<char>, height: int)
    requires
        line_breaks(frame) <= height,
    ensures
        line_breaks(padded(frame, height)) == height + 1,
{
    let blank = run_of('\n', padding(frame, height));
    lemma_occurrences_in_run('\n', padding(frame, height));
    assert(occurrences(footer(), '\n') == 0) by {
        reveal_strlit("Use UP/DOWN to move, ENTER to confirm");
        lemma_occurrences_of_absent(footer(), '\n');
    }
    assert(occurrences(seq!['\n'], '\n') == 1) by {
        assert(seq!['\n'] == run_of('\n', 1));
        lemma_occurrences_in_run('\n', 1);
    }
    lemma_occurrences_add(blank, frame, '\n');
    lemma_occurrences_add(blank + frame, footer(), '\n');
    lemma_occurrences_add(blank + frame + footer(), seq!['\n'], '\n');
}

} // verus!
