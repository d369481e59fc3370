//! The viewport: a window of five rows that starts at the selected commit.

use vstd::prelude::*;
use colored::Colorize;
use crate::record::{CommitRecord, RecordView};
use crate::text::{
    append_chars, append_run, chars_of, ends_with, has_suffix, lemma_replaced_pair_keeps_end,
    lemma_replaced_pair_splits, lemma_replaced_single_splits, lemma_single_occurs, occurs_at,
    replace_all, replaced, run_of, string_of,
};

verus! {

/// Rows shown at a time.
pub const WINDOW_ROWS: usize = 5;

/// Characters of the identifier that a row shows.
pub const SHORT_ID_LEN: usize = 7;

/// Width of the left margin under which continuation lines are aligned.
pub const INDENT_WIDTH: usize = 35;

/// The message with every `:name:` shorthand that `gh_emoji` knows replaced
/// by its glyph.
pub uninterp spec fn emoji_expanded(message: Seq<char>) -> Seq<char>;

/// The escape sequence that switches the foreground to green.
pub open spec fn green_on() -> Seq<char> {
    seq!['\x1b', '[', '3', '2', 'm']
}

/// The escape sequence that switches all styling off.
pub open spec fn style_off() -> Seq<char> {
    seq!['\x1b', '[', '0', 'm']
}

/// `text` shown in green: the colour is switched on in front, off behind, and
/// on again after every place where the text itself switches styling off.
pub open spec fn in_green(text: Seq<char>) -> Seq<char> {
    green_on() + replaced(text, style_off(), style_off() + green_on()) + style_off()
}

/// `text` as the selected row shows it, with or without colour.
pub open spec fn highlighted(text: Seq<char>, colour: bool) -> Seq<char> {
    if colour {
        in_green(text)
    } else {
        text
    }
}

/// The first characters of an identifier, at most [`SHORT_ID_LEN`] of them.
pub open spec fn short_id(identifier: Seq<char>) -> Seq<char> {
    if identifier.len() <= SHORT_ID_LEN {
        identifier
    } else {
        identifier.take(SHORT_ID_LEN as int)
    }
}

/// A line break followed by the left margin.
pub open spec fn continuation() -> Seq<char> {
    seq!['\n'] + run_of(' ', INDENT_WIDTH as nat)
}

/// What stands in front of the message on the first line of a row.
pub open spec fn row_header(identifier: Seq<char>, date: Seq<char>) -> Seq<char> {
    seq![' ', ' ', '['] + short_id(identifier) + seq![']', ' '] + date + seq!['-', ' ']
}

/// Header and message on one line, closed by a line break.
pub open spec fn row_line(identifier: Seq<char>, date: Seq<char>, message: Seq<char>) -> Seq<
    char,
> {
    row_header(identifier, date) + message + seq!['\n']
}

/// `text` with each pair of line breaks collapsed into one.
pub open spec fn collapsed(text: Seq<char>) -> Seq<char> {
    replaced(text, seq!['\n', '\n'], seq!['\n'])
}

/// `text` with every line break followed by the left margin.
pub open spec fn indented(text: Seq<char>) -> Seq<char> {
    replaced(text, seq!['\n'], continuation())
}

/// `line` with blank lines collapsed and continuation lines under the margin.
pub open spec fn aligned(line: Seq<char>) -> Seq<char> {
    indented(collapsed(line))
}

/// `text` without a closing line break and margin, if it has one.
pub open spec fn trimmed(text: Seq<char>) -> Seq<char> {
    if has_suffix(text, continuation()) {
        text.take(text.len() - continuation().len())
    } else {
        text
    }
}

/// The text of a row between its marker and its closing line break.
pub open spec fn row_body(identifier: Seq<char>, date: Seq<char>, message: Seq<char>) -> Seq<
    char,
> {
    trimmed(aligned(row_line(identifier, date, message)))
}

/// The row of the selected commit, given its body as it was highlighted.
pub open spec fn selected_row(painted: Seq<char>) -> Seq<char> {
    seq!['-', '>'] + painted + seq!['\n']
}

/// The row of a commit that is not selected.
pub open spec fn plain_row(body: Seq<char>) -> Seq<char> {
    seq![' ', ' '] + body + seq!['\n']
}

/// The body of the row that shows `record`.
pub open spec fn body_of(record: RecordView) -> Seq<char> {
    row_body(record.identifier, record.date, emoji_expanded(record.message))
}

/// The text of row number `slot` of the window that starts at `index`, where
/// `painted` is the body of the selected row as it was highlighted. Rows past
/// the end of the history are empty.
pub open spec fn slot_text(history: Seq<RecordView>, index: int, slot: int, painted: Seq<char>) -> Seq<
    char,
> {
    if index + slot >= history.len() {
        seq!['\n']
    } else if slot == 0 {
        selected_row(painted)
    } else {
        plain_row(body_of(history[index + slot]))
    }
}

/// The first `rows` rows of the window that starts at `index`.
pub open spec fn window_text(
    history: Seq<RecordView>,
    index: int,
    rows: nat,
    painted: Seq<char>,
) -> Seq<char>
    decreases rows,
{
    if rows == 0 {
        Seq::empty()
    } else {
        window_text(history, index, (rows - 1) as nat, painted) + slot_text(
            history,
            index,
            rows - 1,
            painted,
        )
    }
}

/// The body of the selected row, with or without colour. Past the end of the
/// history there is no such row, and the text is empty.
pub open spec fn selection_text(history: Seq<RecordView>, index: int, colour: bool) -> Seq<char> {
    if 0 <= index < history.len() {
        highlighted(body_of(history[index]), colour)
    } else {
        Seq::empty()
    }
}

/// The whole window for a selection at `index`.
pub open spec fn frame_text(history: Seq<RecordView>, index: int, colour: bool) -> Seq<char> {
    window_text(history, index, WINDOW_ROWS as nat, selection_text(history, index, colour))
}

/// Whether `text` is the window for a selection at `index`, in one of the two
/// ways in which the selected row can come out.
pub open spec fn is_frame(text: Seq<char>, history: Seq<RecordView>, index: int) -> bool {
    text == frame_text(history, index, false) || text == frame_text(history, index, true)
}

/// Calls `gh_emoji::Replacer::replace_all` on `message`, with a replacer
/// fresh from `gh_emoji::Replacer::new`. Believed without proof: what comes
/// back depends on the message alone. A replacer holds a fixed pattern and
/// looks names up in a fixed table.
#[verifier::external_body]
fn expand_emoji(message: &str) -> (expanded: String)
    ensures
        expanded@ == emoji_expanded(message@),
{
    gh_emoji::Replacer::new().replace_all(message).into_owned()
}

/// Calls `colored::Colorize::green` on `text` and formats the result with the
/// `Display` of `ColoredString`. Believed without proof: the outcome is one of
/// two. Where `colored` finds that colour is wanted (it looks at the
/// environment, at the terminal and at its own override), it writes the green
/// code, the text with that code repeated after every reset inside it, and a
/// reset; otherwise it writes the text as it is. The override is taken not to
/// change while the text is being formatted.
#[verifier::external_body]
fn paint_green(text: &str) -> (painted: String)
    ensures
        painted@ == highlighted(text@, false) || painted@ == highlighted(text@, true),
{
    text.green().to_string()
}

/// The part of `identifier` that a row shows.
pub fn short_identifier(identifier: &str) -> (short: Vec<char>)
    ensures
        short@ == short_id(identifier@),
{
    let mut short = chars_of(identifier);
    if short.len() > SHORT_ID_LEN {
        short.truncate(SHORT_ID_LEN);
    }
    short
}

/// Formats the body of one row: `  [<identifier>] <date>- <message>`, with
/// pairs of line breaks collapsed, the message's continuation lines moved
/// under the margin, and the margin that the closing line break leaves taken
/// off again.
pub fn format_row(identifier: &str, date: &str, message: &str) -> (body: String)
    ensures
        body@ == row_body(identifier@, date@, message@),
{
    let mut line: Vec<char> = vec![' ', ' ', '['];
    let short = short_identifier(identifier);
    append_chars(&mut line, &short);
    line.push(']');
    line.push(' ');
    let date_chars = chars_of(date);
    append_chars(&mut line, &date_chars);
    line.push('-');
    line.push(' ');
    let message_chars = chars_of(message);
    append_chars(&mut line, &message_chars);
    line.push('\n');
    assert(line@ == row_line(identifier@, date@, message@));

    let pair: Vec<char> = vec!['\n', '\n'];
    let single: Vec<char> = vec!['\n'];
    let mut margin: Vec<char> = vec!['\n'];
    append_run(&mut margin, ' ', INDENT_WIDTH);
    assert(pair@ == seq!['\n', '\n']);
    assert(single@ == seq!['\n']);
    assert(margin@ == continuation());
    let collapsed = replace_all(&line, &pair, &single);
    let mut text = replace_all(&collapsed, &single, &margin);
    assert(text@ == aligned(line@));
    if ends_with(&text, &margin) {
        let keep = text.len() - margin.len();
        text.truncate(keep);
    }
    string_of(&text)
}

/// The selected row around its highlighted body.
pub fn selected_line(painted: &str) -> (row: String)
    ensures
        row@ == selected_row(painted@),
{
    let mut row: Vec<char> = vec!['-', '>'];
    let inner = chars_of(painted);
    append_chars(&mut row, &inner);
    row.push('\n');
    string_of(&row)
}

/// A row that is not selected.
pub fn plain_line(body: &str) -> (row: String)
    ensures
        row@ == plain_row(body@),
{
    let mut row: Vec<char> = vec![' ', ' '];
    let inner = chars_of(body);
    append_chars(&mut row, &inner);
    row.push('\n');
    string_of(&row)
}

/// Formats the body of the row that shows `record`.
pub fn record_body(record: &CommitRecord) -> (body: String)
    ensures
        body@ == body_of(record@),
{
    let message = expand_emoji(record.message().as_str());
    format_row(record.identifier().as_str(), record.date().as_str(), message.as_str())
}

/// Lays out the window that starts at `index` around a selected row whose
/// highlighted body is `painted`: that row first, with its marker, then the
/// commits that follow it, then empty rows where the history has ended.
pub fn window(history: &Vec<CommitRecord>, index: usize, painted: &str) -> (text: String)
    ensures
        text@ == window_text(history.deep_view(), index as int, WINDOW_ROWS as nat, painted@),
{
    let ghost records = history.deep_view();
    let mut text = String::new();
    let mut slot: usize = 0;
    while slot < WINDOW_ROWS
        invariant
            slot <= WINDOW_ROWS,
            records == history.deep_view(),
            text@ == window_text(records, index as int, slot as nat, painted@),
        decreases WINDOW_ROWS - slot,
    {
        let ghost before = text@;
        if index >= history.len() || slot >= history.len() - index {
            text.push('\n');
        } else if slot == 0 {
            let row = selected_line(painted);
            text.append(row.as_str());
        } else {
            assert(records[index + slot] == history[index + slot]@);
            let body = record_body(&history[index + slot]);
            let row = plain_line(body.as_str());
            text.append(row.as_str());
        }
        assert(text@ == before + slot_text(records, index as int, slot as int, painted@));
        slot += 1;
    }
    text
}

/// Renders the window for a selection at `index`, with the selected row
/// highlighted in green where the terminal takes colour.
pub fn render(history: &Vec<CommitRecord>, index: usize) -> (text: String)
    ensures
        is_frame(text@, history.deep_view(), index as int),
{
    if index < history.len() {
        assert(history.deep_view()[index as int] == history[index as int]@);
        let body = record_body(&history[index]);
        let painted = paint_green(body.as_str());
        window(history, index, painted.as_str())
    } else {
        let nothing = String::new();
        window(history, index, nothing.as_str())
    }
}

/// Whether the margin follows every line break of `text`.
pub open spec fn breaks_are_indented(text: Seq<char>) -> bool {
    forall|i: int| 0 <= i < text.len() && text[i] == '\n' ==> occurs_at(text, continuation(), i)
}

/// After indenting, the margin follows every line break.
pub proof fn lemma_margin_follows_breaks(text: Seq<char>)
    ensures
        breaks_are_indented(indented(text)),
    decreases text.len(),
{
    let margin = continuation();
    let whole = indented(text);
    if text.len() > 0 {
        let rest = indented(text.skip(1));
        lemma_margin_follows_breaks(text.skip(1));
        lemma_single_occurs(text, '\n');
        let lead = if text[0] == '\n' {
            margin
        } else {
            seq![text[0]]
        };
        assert(whole == lead + rest);
        assert forall|i: int| 0 <= i < whole.len() && whole[i] == '\n' implies occurs_at(
            whole,
            margin,
            i,
        ) by {
            if i >= lead.len() {
                let j = i - lead.len();
                assert(rest[j] == '\n');
                assert(occurs_at(rest, margin, j));
                assert(whole.subrange(i, i + margin.len()) == rest.subrange(j, j + margin.len()));
            } else {
                assert(whole[i] == lead[i]);
                assert(i == 0 && text[0] == '\n');
                assert(whole.subrange(0, margin.len() as int) == margin);
            }
        }
    }
}

/// In the body of a row, the margin follows every line break: each
/// continuation line starts in the column in which the margin ends.
pub proof fn lemma_continuation_lines_are_indented(
    identifier: Seq<char>,
    date: Seq<char>,
    message: Seq<char>,
)
    ensures
        breaks_are_indented(row_body(identifier, date, message)),
{
    let margin = continuation();
    let whole = aligned(row_line(identifier, date, message));
    let body = trimmed(whole);
    lemma_margin_follows_breaks(collapsed(row_line(identifier, date, message)));
    if has_suffix(whole, margin) {
        let end = whole.len() - margin.len();
        assert(whole.subrange(end, end + margin.len())[0] == '\n');
        assert forall|i: int| 0 <= i < body.len() && body[i] == '\n' implies occurs_at(
            body,
            margin,
            i,
        ) by {
            assert(whole[i] == '\n');
            assert(occurs_at(whole, margin, i));
            if i + margin.len() > end {
                assert(whole.subrange(i, i + margin.len())[end - i] == whole[end]);
                assert(margin[end - i] == ' ');
            }
            assert(body.subrange(i, i + margin.len()) == whole.subrange(i, i + margin.len()));
        }
    }
}

/// With an identifier of at least seven characters and a date of nineteen,
/// the message of an emitted row starts in the column in which the margin
/// ends: two characters of marker, then the header.
pub proof fn lemma_margin_matches_header(identifier: Seq<char>, date: Seq<char>)
    requires
        identifier.len() >= SHORT_ID_LEN,
        date.len() == 19,
    ensures
        2 + row_header(identifier, date).len() == INDENT_WIDTH,
        continuation().len() == 1 + INDENT_WIDTH,
{
}

/// A message whose last line is empty is shown like the message without that
/// line, and the body of a row whose message ends in at most one line break
/// does not end in a margin: it is the header and the message, collapsed and
/// indented.
pub proof fn lemma_empty_last_line_leaves_no_margin(
    identifier: Seq<char>,
    date: Seq<char>,
    message: Seq<char>,
)
    requires
        message.len() == 0 || message.last() != '\n',
    ensures
        row_body(identifier, date, message) == aligned(row_header(identifier, date) + message),
        row_body(identifier, date, message + seq!['\n']) == row_body(identifier, date, message),
        !has_suffix(row_body(identifier, date, message), continuation()),
{
    let margin = continuation();
    let first = row_header(identifier, date) + message;
    assert(first.len() > 0 && first.last() != '\n');
    let core = collapsed(first);
    lemma_replaced_pair_keeps_end(first, '\n');
    let body = indented(core);

    // One closing line break, or two, collapse into one, which becomes a margin.
    let one = seq!['\n'];
    let two = seq!['\n', '\n'];
    assert(collapsed(one) == one) by {
        assert(!occurs_at(one, two, 0));
        assert(collapsed(one.skip(1)) == one.skip(1));
        assert(seq![one[0]] + one.skip(1) == one);
    }
    assert(collapsed(two) == one) by {
        assert(two.subrange(0, 2) == two);
        assert(collapsed(two.skip(2)) == two.skip(2));
        assert(one + two.skip(2) == one);
    }
    assert(indented(one) == margin) by {
        lemma_single_occurs(one, '\n');
        assert(indented(one.skip(1)) == one.skip(1));
        assert(margin + one.skip(1) == margin);
    }
    lemma_replaced_pair_splits(first, one, '\n');
    lemma_replaced_pair_splits(first, two, '\n');
    lemma_replaced_single_splits(core, one, '\n', margin);
    assert(row_line(identifier, date, message) == first + one);
    assert(row_line(identifier, date, message + one) == first + two) by {
        assert(one + one == two);
        assert(row_header(identifier, date) + (message + one) + one == first + (one + one));
    }
    assert(aligned(first + one) == body + margin);
    assert(aligned(first + two) == body + margin);
    assert(has_suffix(body + margin, margin)) by {
        assert((body + margin).subrange(body.len() as int, (body + margin).len() as int)
            == margin);
    }
    assert(trimmed(body + margin) == body) by {
        assert((body + margin).take(body.len() as int) == body);
    }

    // The body ends in a character of the message or header, not in a margin.
    let front = core.drop_last();
    assert(core == front + seq![core.last()]);
    lemma_replaced_single_splits(front, seq![core.last()], '\n', margin);
    assert(indented(seq![core.last()]) == seq![core.last()]) by {
        let last = seq![core.last()];
        lemma_single_occurs(last, '\n');
        assert(indented(last.skip(1)) == last.skip(1));
        assert(seq![last[0]] + last.skip(1) == last);
    }
    assert(body == indented(front) + seq![core.last()]);
    if has_suffix(body, margin) {
        let at = body.len() - margin.len();
        assert(body.subrange(at, at + margin.len())[0] == '\n');
        assert(indented(front)[at] == '\n');
        lemma_margin_follows_breaks(front);
        assert(occurs_at(indented(front), margin, at));
        assert(false);
    }
}

/// Rendering has no memory: a window depends on the history, the index and
/// the way the selected row is highlighted, and on nothing else. Two
/// renderings of the same history and index are equal or are the plain and
/// the green form of the same window, and where no row is selected they are
/// equal.
pub proof fn lemma_rendering_is_determined(
    history: Seq<RecordView>,
    index: int,
    first: Seq<char>,
    second: Seq<char>,
)
    requires
        is_frame(first, history, index),
        is_frame(second, history, index),
    ensures
        first == second || (first == frame_text(history, index, false) && second == frame_text(
            history,
            index,
            true,
        )) || (first == frame_text(history, index, true) && second == frame_text(
            history,
            index,
            false,
        )),
        !(0 <= index < history.len()) ==> first == second,
{
}

} // verus!
