//! An editable text buffer, kept in a text-area widget of ratatui-textarea.

use vstd::prelude::*;
use ratatui::style::Style;
use ratatui_textarea::{CursorMove, Input, Key, TextArea, WrapMode};

use crate::text::views;

verus! {

/// A multi-line text buffer with a cursor, kept in a `TextArea`. Its lines
/// are `buffer_lines`, its cursor `buffer_cursor`, and the start of the
/// selection being made `buffer_selection`, whether it wraps lines
/// `buffer_wraps`. The text area is public so that it can be drawn, which
/// sets its block and cursor style; only the functions of this module change
/// its text, cursor, selection or wrap mode.
#[verifier::external_body]
#[derive(Debug)]
pub struct TextBuffer {
    pub area: TextArea<'static>,
}

/// The lines of text held by a buffer.
pub uninterp spec fn buffer_lines(t: TextBuffer) -> Seq<Seq<char>>;

/// The cursor of a buffer: its line, and its column counted in characters.
pub uninterp spec fn buffer_cursor(t: TextBuffer) -> (nat, nat);

/// Where the selection being made started, if one is being made.
pub uninterp spec fn buffer_selection(t: TextBuffer) -> Option<(nat, nat)>;

/// The buffer holds a line, and its cursor stands within the text.
pub open spec fn buffer_well(t: TextBuffer) -> bool {
    let lines = buffer_lines(t);
    let cur = buffer_cursor(t);
    &&& lines.len() > 0
    &&& cur.0 < lines.len()
    &&& cur.1 <= lines[cur.0 as int].len()
}

/// Whether the buffer wraps long lines on screen (its wrap mode is not
/// `WrapMode::None`).
pub uninterp spec fn buffer_wraps(t: TextBuffer) -> bool;

/// A well-formed buffer with no selection under way.
pub open spec fn buffer_ready(t: TextBuffer) -> bool {
    buffer_well(t) && buffer_selection(t) is None
}

/// A fresh buffer: the cursor at the start, nothing selected, and no
/// wrapping.
pub open spec fn buffer_fresh(t: TextBuffer) -> bool {
    &&& buffer_cursor(t) == (0nat, 0nat)
    &&& buffer_selection(t) is None
    &&& buffer_lines(t).len() > 0
    &&& !buffer_wraps(t)
}

/// `TextArea::from` on a list of lines: the buffer holds exactly those lines,
/// or one empty line when the list is empty (as `TextArea::new` makes it),
/// with the cursor at the start and nothing selected.
#[verifier::external_body]
pub(crate) fn buffer_from_lines(lines: Vec<String>) -> (r: TextBuffer)
    ensures
        buffer_lines(r) == (if lines@.len() == 0 {
            seq![Seq::<char>::empty()]
        } else {
            views(lines@)
        }),
        buffer_fresh(r),
{
    TextBuffer { area: TextArea::from(lines) }
}

/// `TextArea::default`: a buffer of one empty line, the cursor at its start.
#[verifier::external_body]
pub(crate) fn buffer_default() -> (r: TextBuffer)
    ensures
        buffer_lines(r) == seq![Seq::<char>::empty()],
        buffer_fresh(r),
{
    TextBuffer { area: TextArea::default() }
}

/// `TextArea::move_cursor` with `CursorMove::End`: moves the cursor to the end
/// of its line, and changes neither the text nor the selection.
#[verifier::external_body]
pub(crate) fn buffer_cursor_to_end(t: &mut TextBuffer)
    requires
        buffer_well(*old(t)),
    ensures
        buffer_lines(*final(t)) == buffer_lines(*old(t)),
        buffer_cursor(*final(t)) == (
            buffer_cursor(*old(t)).0,
            buffer_lines(*old(t))[buffer_cursor(*old(t)).0 as int].len(),
        ),
        buffer_selection(*final(t)) == buffer_selection(*old(t)),
        buffer_wraps(*final(t)) == buffer_wraps(*old(t)),
{
    t.area.move_cursor(CursorMove::End);
}

/// `TextArea::set_cursor_line_style` with the plain style: changes how the
/// cursor line is drawn, not the text, the cursor or the selection.
#[verifier::external_body]
pub(crate) fn buffer_plain_cursor_line(t: &mut TextBuffer)
    ensures
        buffer_lines(*final(t)) == buffer_lines(*old(t)),
        buffer_cursor(*final(t)) == buffer_cursor(*old(t)),
        buffer_selection(*final(t)) == buffer_selection(*old(t)),
        buffer_wraps(*final(t)) == buffer_wraps(*old(t)),
{
    t.area.set_cursor_line_style(Style::default());
}

/// `TextArea::set_wrap_mode` with `WrapMode::WordOrGlyph`: changes how lines
/// are wrapped on screen, not the text, the cursor or the selection.
#[verifier::external_body]
pub(crate) fn buffer_wrap_words(t: &mut TextBuffer)
    ensures
        buffer_lines(*final(t)) == buffer_lines(*old(t)),
        buffer_cursor(*final(t)) == buffer_cursor(*old(t)),
        buffer_selection(*final(t)) == buffer_selection(*old(t)),
        buffer_wraps(*final(t)),
{
    t.area.set_wrap_mode(WrapMode::WordOrGlyph);
}

/// Inputs that `TextArea::input` always answers by inserting text: Enter,
/// Control-M, and a character typed without Control or Alt (a newline for
/// '\n' and '\r', the character itself otherwise).
pub open spec fn input_inserts(i: Input) -> bool {
    ||| i.key == Key::Enter
    ||| (i.key is Char && !i.ctrl && !i.alt)
    ||| (i.key == Key::Char('m') && i.ctrl && !i.alt)
}

/// Inputs that `TextArea::input` never answers by changing the text, whatever
/// the modifiers: cursor moves, scrolling, copying, and keys it has no
/// binding for.
pub open spec fn input_keeps_text(i: Input) -> bool {
    match i.key {
        Key::Left | Key::Right | Key::Up | Key::Down | Key::Home | Key::End | Key::PageUp
        | Key::PageDown | Key::Esc | Key::F(_) | Key::Null | Key::Copy | Key::MouseScrollUp
        | Key::MouseScrollDown => true,
        _ => false,
    }
}

/// Inputs that break the line at the cursor: Enter, Control-M, and a typed
/// '\n' or '\r'.
pub open spec fn is_newline_input(i: Input) -> bool {
    ||| i.key == Key::Enter
    ||| (i.key == Key::Char('m') && i.ctrl && !i.alt)
    ||| ((i.key == Key::Char('\n') || i.key == Key::Char('\r')) && !i.ctrl && !i.alt)
}

/// The character an input types at the cursor, if it types one.
pub open spec fn typed_char(i: Input) -> Option<char> {
    match i.key {
        Key::Char(c) => if !i.ctrl && !i.alt && c != '\n' && c != '\r' {
            Some(c)
        } else {
            None
        },
        _ => None,
    }
}

/// Inputs that delete the character before the cursor: Backspace and
/// Control-H.
pub open spec fn is_backspace_input(i: Input) -> bool {
    ||| (i.key == Key::Backspace && !i.ctrl && !i.alt)
    ||| (i.key == Key::Char('h') && i.ctrl && !i.alt)
}

/// Inputs that paste the yanked text: the Paste key and Control-Y.
pub open spec fn is_paste_input(i: Input) -> bool {
    ||| i.key == Key::Paste
    ||| (i.key == Key::Char('y') && i.ctrl && !i.alt)
}

/// Inputs that move the cursor one character back: Left and Control-B,
/// without Shift.
pub open spec fn is_left_input(i: Input) -> bool {
    &&& !i.shift && !i.alt
    &&& (i.key == Key::Left && !i.ctrl) || (i.key == Key::Char('b') && i.ctrl)
}

/// Inputs that move the cursor one character forward: Right and Control-F,
/// without Shift.
pub open spec fn is_right_input(i: Input) -> bool {
    &&& !i.shift && !i.alt
    &&& (i.key == Key::Right && !i.ctrl) || (i.key == Key::Char('f') && i.ctrl)
}

/// Inputs that move the cursor one line up: Up and Control-P, without Shift.
pub open spec fn is_up_input(i: Input) -> bool {
    &&& !i.shift && !i.alt
    &&& (i.key == Key::Up && !i.ctrl) || (i.key == Key::Char('p') && i.ctrl)
}

/// Inputs that move the cursor one line down: Down and Control-N, without
/// Shift.
pub open spec fn is_down_input(i: Input) -> bool {
    &&& !i.shift && !i.alt
    &&& (i.key == Key::Down && !i.ctrl) || (i.key == Key::Char('n') && i.ctrl)
}

/// Inputs that move the cursor to the start of its line: Home and
/// Control-A, without Shift.
pub open spec fn is_home_input(i: Input) -> bool {
    !i.shift && (i.key == Key::Home || (i.key == Key::Char('a') && i.ctrl && !i.alt))
}

/// Inputs that move the cursor to the end of its line: End and Control-E,
/// without Shift.
pub open spec fn is_end_input(i: Input) -> bool {
    !i.shift && (i.key == Key::End || (i.key == Key::Char('e') && i.ctrl && !i.alt))
}

/// Inputs that delete the character at the cursor: Delete and Control-D.
pub open spec fn is_delete_input(i: Input) -> bool {
    ||| (i.key == Key::Delete && !i.ctrl && !i.alt)
    ||| (i.key == Key::Char('d') && i.ctrl && !i.alt)
}

/// A character that takes screen room: a printable ASCII character or a tab.
pub open spec fn cell_char(c: char) -> bool {
    (' ' <= c && c <= '~') || c == '\t'
}

/// Column `col` moved onto `line`: kept where the line is that long, else
/// the end of the line.
pub open spec fn column_on(line: Seq<char>, col: nat) -> nat {
    if col <= line.len() {
        col
    } else {
        line.len()
    }
}

/// A line of printable ASCII characters, each one screen cell wide.
pub open spec fn ascii_line(s: Seq<char>) -> bool {
    forall|k: int| 0 <= k < s.len() ==> ' ' <= #[trigger] s[k] && s[k] <= '~'
}

/// A line of characters that each take screen room.
pub open spec fn cell_line(s: Seq<char>) -> bool {
    forall|k: int| 0 <= k < s.len() ==> cell_char(#[trigger] s[k])
}

/// What moving and deleting at the cursor do to a buffer with its cursor at
/// (`row`, `col`) and nothing selected. Home and End hold always; Left,
/// Right, Up, Down and Delete, which step through the screen layout of the
/// lines, are stated for a buffer that does not wrap and lines whose
/// characters all take screen room (one cell each, for Up and Down, which
/// keep the screen column).
pub open spec fn cursor_edit(pre: TextBuffer, post: TextBuffer, i: Input, modified: bool) -> bool {
    let lines = buffer_lines(pre);
    let row = buffer_cursor(pre).0;
    let col = buffer_cursor(pre).1;
    let len = lines[row as int].len();
    &&& is_home_input(i) ==> {
        &&& buffer_lines(post) == lines
        &&& buffer_cursor(post) == (row, 0nat)
        &&& buffer_selection(post) is None
    }
    &&& is_end_input(i) ==> {
        &&& buffer_lines(post) == lines
        &&& buffer_cursor(post) == (row, len)
        &&& buffer_selection(post) is None
    }
    &&& is_left_input(i) && !buffer_wraps(pre) ==> {
        &&& buffer_lines(post) == lines
        &&& buffer_selection(post) is None
        &&& col > 0 && cell_line(lines[row as int]) ==> buffer_cursor(post) == (
            row,
            (col - 1) as nat,
        )
        &&& col == 0 && row > 0 && cell_line(lines[row - 1]) ==> buffer_cursor(post) == (
            (row - 1) as nat,
            lines[row - 1].len(),
        )
        &&& col == 0 && row == 0 ==> buffer_cursor(post) == buffer_cursor(pre)
    }
    &&& is_right_input(i) && !buffer_wraps(pre) && cell_line(lines[row as int]) ==> {
        &&& buffer_lines(post) == lines
        &&& buffer_selection(post) is None
        &&& col < len ==> buffer_cursor(post) == (row, (col + 1) as nat)
        &&& col == len && row + 1 < lines.len() ==> buffer_cursor(post) == ((row + 1) as nat, 0nat)
        &&& col == len && row + 1 == lines.len() ==> buffer_cursor(post) == buffer_cursor(pre)
    }
    &&& is_down_input(i) && !buffer_wraps(pre) ==> {
        &&& buffer_lines(post) == lines
        &&& buffer_selection(post) is None
        &&& row + 1 < lines.len() && ascii_line(lines[row as int]) && ascii_line(lines[row + 1int])
            ==> buffer_cursor(post) == ((row + 1) as nat, column_on(lines[row + 1int], col))
        &&& row + 1 == lines.len() ==> buffer_cursor(post) == buffer_cursor(pre)
    }
    &&& is_up_input(i) && !buffer_wraps(pre) ==> {
        &&& buffer_lines(post) == lines
        &&& buffer_selection(post) is None
        &&& row > 0 && ascii_line(lines[row as int]) && ascii_line(lines[row - 1])
            ==> buffer_cursor(post) == ((row - 1) as nat, column_on(lines[row - 1], col))
        &&& row == 0 ==> buffer_cursor(post) == buffer_cursor(pre)
    }
    &&& is_delete_input(i) && !buffer_wraps(pre) && cell_line(lines[row as int]) ==> {
        &&& buffer_selection(post) is None
        &&& modified == (col < len || row + 1 < lines.len())
        &&& col < len ==> {
            &&& buffer_lines(post) == lines.update(row as int, lines[row as int].remove(col as int))
            &&& buffer_cursor(post) == buffer_cursor(pre)
        }
        &&& col == len && row + 1 < lines.len() ==> {
            &&& buffer_lines(post) == line_joined(lines, (row + 1) as int)
            &&& buffer_cursor(post) == buffer_cursor(pre)
        }
        &&& col == len && row + 1 == lines.len() ==> {
            &&& buffer_lines(post) == lines
            &&& buffer_cursor(post) == buffer_cursor(pre)
        }
    }
}

/// The lines with line `row` broken in two before column `col`.
pub open spec fn line_broken(lines: Seq<Seq<char>>, row: int, col: int) -> Seq<Seq<char>> {
    lines.take(row) + seq![lines[row].take(col), lines[row].skip(col)] + lines.skip(row + 1)
}

/// The lines with line `row` joined onto the line before it.
pub open spec fn line_joined(lines: Seq<Seq<char>>, row: int) -> Seq<Seq<char>> {
    lines.take(row - 1) + seq![lines[row - 1] + lines[row]] + lines.skip(row + 1)
}

/// What the basic edits do to a buffer with its cursor at (`row`, `col`) and
/// nothing selected: a line break, a typed character, and Backspace.
pub open spec fn basic_edit(pre: TextBuffer, post: TextBuffer, i: Input, modified: bool) -> bool {
    let lines = buffer_lines(pre);
    let row = buffer_cursor(pre).0;
    let col = buffer_cursor(pre).1;
    &&& is_newline_input(i) ==> {
        &&& buffer_lines(post) == line_broken(lines, row as int, col as int)
        &&& buffer_cursor(post) == ((row + 1) as nat, 0nat)
        &&& buffer_selection(post) is None
    }
    &&& typed_char(i) matches Some(c) ==> {
        &&& buffer_lines(post) == lines.update(row as int, lines[row as int].insert(col as int, c))
        &&& buffer_cursor(post) == (row, (col + 1) as nat)
        &&& buffer_selection(post) is None
    }
    &&& is_backspace_input(i) ==> {
        &&& modified == (row > 0 || col > 0)
        &&& buffer_selection(post) is None
        &&& col > 0 ==> {
            &&& buffer_lines(post) == lines.update(row as int, lines[row as int].remove(col - 1))
            &&& buffer_cursor(post) == (row, (col - 1) as nat)
        }
        &&& col == 0 && row > 0 ==> {
            &&& buffer_lines(post) == line_joined(lines, row as int)
            &&& buffer_cursor(post) == ((row - 1) as nat, lines[row - 1].len())
        }
        &&& col == 0 && row == 0 ==> {
            &&& buffer_lines(post) == lines
            &&& buffer_cursor(post) == buffer_cursor(pre)
        }
    }
}

/// How `TextArea::input` changes a buffer, `modified` being what it returns.
pub open spec fn input_post(pre: TextBuffer, post: TextBuffer, i: Input, modified: bool) -> bool {
    &&& !modified && !is_paste_input(i) ==> buffer_lines(post) == buffer_lines(pre)
    &&& input_inserts(i) ==> modified
    &&& input_keeps_text(i) ==> !modified
    &&& buffer_well(pre) ==> buffer_well(post)
    &&& buffer_wraps(post) == buffer_wraps(pre)
    &&& buffer_ready(pre) ==> basic_edit(pre, post, i, modified)
    &&& buffer_ready(pre) ==> cursor_edit(pre, post, i, modified)
}

/// `TextArea::input`: edits the text at the cursor as the key asks, and
/// returns whether it edited the text. Inserting inputs always do, moving
/// inputs never do, and an input that returns false leaves the lines as they
/// were, but for a paste: it deletes the selection and still returns false
/// when nothing was yanked. A true result does not always mean different
/// lines: typing over a selection of the same character gives the same text.
/// With the cursor in the text and nothing selected, a line break, a typed
/// character and Backspace do what `basic_edit` says, and Home, End, Left,
/// Right, Up, Down and Delete what `cursor_edit` says. Input never changes the wrap
/// mode. What the other edits do (words, lines, undo, cut, paste, tabs), the
/// other cursor moves, and any edit with a selection under way, is not
/// stated.
#[verifier::external_body]
pub(crate) fn buffer_input(t: &mut TextBuffer, input: Input) -> (modified: bool)
    ensures
        input_post(*old(t), *final(t), input, modified),
{
    t.area.input(input)
}

/// Typing a character into a buffer with nothing selected and then pressing
/// Backspace gives back the text and the cursor as they were; both inputs
/// report a change.
pub proof fn lemma_type_then_backspace(
    t0: TextBuffer,
    t1: TextBuffer,
    t2: TextBuffer,
    i1: Input,
    i2: Input,
    m1: bool,
    m2: bool,
)
    requires
        buffer_ready(t0),
        typed_char(i1) is Some,
        is_backspace_input(i2),
        input_post(t0, t1, i1, m1),
        input_post(t1, t2, i2, m2),
    ensures
        m1 && m2,
        buffer_lines(t2) == buffer_lines(t0),
        buffer_cursor(t2) == buffer_cursor(t0),
        buffer_ready(t2),
{
    let lines = buffer_lines(t0);
    let row = buffer_cursor(t0).0 as int;
    let col = buffer_cursor(t0).1 as int;
    let c = typed_char(i1).unwrap();
    assert(lines[row].insert(col, c).remove(col) =~= lines[row]);
    assert(lines.update(row, lines[row].insert(col, c)).update(row, lines[row]) =~= lines);
}

/// Breaking the line at the cursor of a buffer with nothing selected and then
/// pressing Backspace gives back the text and the cursor as they were.
pub proof fn lemma_break_then_backspace(
    t0: TextBuffer,
    t1: TextBuffer,
    t2: TextBuffer,
    i1: Input,
    i2: Input,
    m1: bool,
    m2: bool,
)
    requires
        buffer_ready(t0),
        is_newline_input(i1),
        is_backspace_input(i2),
        input_post(t0, t1, i1, m1),
        input_post(t1, t2, i2, m2),
    ensures
        m1 && m2,
        buffer_lines(t2) == buffer_lines(t0),
        buffer_cursor(t2) == buffer_cursor(t0),
        buffer_ready(t2),
{
    let lines = buffer_lines(t0);
    let row = buffer_cursor(t0).0 as int;
    let col = buffer_cursor(t0).1 as int;
    let broken = line_broken(lines, row, col);
    assert(broken[row] == lines[row].take(col));
    assert(broken[row + 1] == lines[row].skip(col));
    assert(broken.take(row) =~= lines.take(row));
    assert(broken.skip(row + 2) =~= lines.skip(row + 1));
    assert(lines[row].take(col) + lines[row].skip(col) =~= lines[row]);
    assert(line_joined(broken, row + 1) =~= lines);
}

/// `TextArea::into_lines`: the lines the buffer holds.
#[verifier::external_body]
pub(crate) fn buffer_into_lines(t: TextBuffer) -> (r: Vec<String>)
    ensures
        views(r@) == buffer_lines(t),
{
    t.area.into_lines()
}

} // verus!
