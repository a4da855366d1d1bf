//! The fields of the editor: single-line text, multi-line text and a path.

use vstd::prelude::*;

use crate::keys::{text_input, KeyCode, KeyEvent};
use crate::persistence::opt_view;
use crate::text::{join_lines, lines_joined, remove_char, split, split_at_char, trim, trimmed, without_char, lemma_split_nonempty};
use crate::textbuf::{
    buffer_cursor, buffer_cursor_to_end, buffer_default, buffer_from_lines, buffer_input,
    buffer_into_lines, buffer_lines, buffer_plain_cursor_line, buffer_ready, buffer_wrap_words,
    buffer_wraps, input_post, TextBuffer, ascii_line, cell_line, column_on,
};
use crate::keys::text_input_spec;

verus! {

/// The lines a single-line field starts with: the value with its newlines
/// removed, or one empty line.
pub open spec fn single_start(value: Option<Seq<char>>) -> Seq<Seq<char>> {
    match value {
        Some(s) => seq![without_char(s, '\n')],
        None => seq![Seq::<char>::empty()],
    }
}

/// What a single-line field yields: its first line without surrounding white
/// space, or nothing when that is empty.
pub open spec fn single_result(lines: Seq<Seq<char>>) -> Option<Seq<char>> {
    if lines.len() == 0 {
        None
    } else if trim(lines[0]).len() == 0 {
        None
    } else {
        Some(trim(lines[0]))
    }
}

/// The lines a multi-line field starts with: the value split at its newlines,
/// or one empty line.
pub open spec fn multi_start(value: Option<Seq<char>>) -> Seq<Seq<char>> {
    match value {
        Some(s) => split(s, '\n'),
        None => seq![Seq::<char>::empty()],
    }
}

/// A buffer ready for typing, its cursor at the end of its first line.
pub open spec fn at_first_line_end(t: TextBuffer) -> bool {
    &&& buffer_ready(t)
    &&& buffer_cursor(t) == (0nat, buffer_lines(t)[0].len())
}

/// How a key changes a one-line field, whatever it answers: Enter changes
/// nothing, any other key goes to the text.
pub open spec fn single_input_post(pre: SingleLineInput, post: SingleLineInput, key: KeyEvent) -> bool {
    if key.code == KeyCode::Enter {
        post == pre
    } else {
        input_post(pre.input, post.input, text_input_spec(key), true) || input_post(
            pre.input,
            post.input,
            text_input_spec(key),
            false,
        )
    }
}

/// How a key changes a field of several lines, whatever it answers.
pub open spec fn multi_input_post(pre: MultiLineInput, post: MultiLineInput, key: KeyEvent) -> bool {
    input_post(pre.input, post.input, text_input_spec(key), true) || input_post(
        pre.input,
        post.input,
        text_input_spec(key),
        false,
    )
}

/// A one-line text field.
#[derive(Debug)]
pub struct SingleLineInput {
    pub input: TextBuffer,
}

impl SingleLineInput {
    /// A field holding `value` on one line (its newlines dropped), with the
    /// cursor at the end.
    pub fn new(value: Option<String>) -> (r: Self)
        ensures
            buffer_lines(r.input) == single_start(opt_view(value)),
            at_first_line_end(r.input),
            !buffer_wraps(r.input),
    {
        let mut ta = match value {
            Some(s) => {
                let line = remove_char(s.as_str(), '\n');
                let lines = vec![line];
                assert(crate::text::views(lines@) =~= seq![without_char(s@, '\n')]);
                buffer_from_lines(lines)
            },
            None => buffer_default(),
        };
        buffer_cursor_to_end(&mut ta);
        buffer_plain_cursor_line(&mut ta);
        SingleLineInput { input: ta }
    }

    /// Passes a key to the text; Enter is refused (returns false, nothing
    /// changes). Returns whether the text was edited: always for a typed
    /// character, never for a cursor move.
    pub fn input(&mut self, key_event: KeyEvent) -> (r: bool)
        ensures
            key_event.code == KeyCode::Enter ==> !r && *final(self) == *old(self),
            key_event.code != KeyCode::Enter ==> input_post(
                old(self).input,
                final(self).input,
                text_input_spec(key_event),
                r,
            ),
    {
        match key_event.code {
            KeyCode::Enter => false,
            _ => buffer_input(&mut self.input, text_input(key_event)),
        }
    }

    /// The first line without surrounding white space, or `None` when that is
    /// empty.
    pub fn result(self) -> (r: Option<String>)
        ensures
            opt_view(r) == single_result(buffer_lines(self.input)),
    {
        let lines = buffer_into_lines(self.input);
        if lines.len() == 0 {
            return None;
        }
        let s = trimmed(lines[0].as_str());
        if s.as_str().is_empty() {
            None
        } else {
            Some(s)
        }
    }
}

/// A text field of several lines.
#[derive(Debug)]
pub struct MultiLineInput {
    pub input: TextBuffer,
}

impl MultiLineInput {
    /// A field holding the lines of `value`, wrapped at words, with the cursor
    /// at the end.
    pub fn new(value: Option<String>) -> (r: Self)
        ensures
            buffer_lines(r.input) == multi_start(opt_view(value)),
            at_first_line_end(r.input),
            buffer_wraps(r.input),
    {
        let mut ta = match value {
            Some(s) => {
                let lines = split_at_char(s.as_str(), '\n');
                proof {
                    lemma_split_nonempty(s@, '\n');
                }
                buffer_from_lines(lines)
            },
            None => buffer_default(),
        };
        buffer_wrap_words(&mut ta);
        buffer_cursor_to_end(&mut ta);
        buffer_plain_cursor_line(&mut ta);
        MultiLineInput { input: ta }
    }

    /// Passes a key to the text. Returns whether the text was edited: always for
    /// Enter and a typed character, never for a cursor move.
    pub fn input(&mut self, key_event: KeyEvent) -> (r: bool)
        ensures
            input_post(old(self).input, final(self).input, text_input_spec(key_event), r),
    {
        buffer_input(&mut self.input, text_input(key_event))
    }

    /// All lines, each followed by a newline.
    pub fn result(self) -> (r: Option<String>)
        ensures
            r is Some,
            r.unwrap()@ == join_lines(buffer_lines(self.input)),
    {
        let lines = buffer_into_lines(self.input);
        Some(lines_joined(&lines))
    }
}

/// In a field of several lines that does not wrap, with nothing selected and
/// lines of printable ASCII, Down moves the cursor to the next line and Up to
/// the previous one, keeping its column where that line is long enough, and
/// staying put on the last (first) line; neither changes the text or selects
/// anything.
pub proof fn lemma_field_vertical_moves(m0: MultiLineInput, m1: MultiLineInput, key: KeyEvent)
    requires
        buffer_ready(m0.input),
        !buffer_wraps(m0.input),
        forall|k: int|
            0 <= k < buffer_lines(m0.input).len() ==> ascii_line(#[trigger] buffer_lines(m0.input)[k]),
        key.code == KeyCode::Down || key.code == KeyCode::Up,
        !key.modifiers.control && !key.modifiers.alt && !key.modifiers.shift,
        multi_input_post(m0, m1, key),
    ensures
        buffer_lines(m1.input) == buffer_lines(m0.input),
        buffer_ready(m1.input),
        key.code == KeyCode::Down && buffer_cursor(m0.input).0 + 1 < buffer_lines(m0.input).len()
            ==> buffer_cursor(m1.input) == (
            (buffer_cursor(m0.input).0 + 1) as nat,
            column_on(buffer_lines(m0.input)[buffer_cursor(m0.input).0 + 1int], buffer_cursor(m0.input).1),
        ),
        key.code == KeyCode::Down && buffer_cursor(m0.input).0 + 1 == buffer_lines(m0.input).len()
            ==> buffer_cursor(m1.input) == buffer_cursor(m0.input),
        key.code == KeyCode::Up && buffer_cursor(m0.input).0 > 0 ==> buffer_cursor(m1.input) == (
            (buffer_cursor(m0.input).0 - 1) as nat,
            column_on(buffer_lines(m0.input)[buffer_cursor(m0.input).0 - 1], buffer_cursor(m0.input).1),
        ),
        key.code == KeyCode::Up && buffer_cursor(m0.input).0 == 0 ==> buffer_cursor(m1.input)
            == buffer_cursor(m0.input),
{
    let row = buffer_cursor(m0.input).0 as int;
    assert(ascii_line(buffer_lines(m0.input)[row]));
    if row + 1 < buffer_lines(m0.input).len() {
        assert(ascii_line(buffer_lines(m0.input)[row + 1]));
    }
    if row > 0 {
        assert(ascii_line(buffer_lines(m0.input)[row - 1]));
    }
}

/// In a one-line field that does not wrap, with nothing selected and a line
/// of characters that take screen room, Left moves the cursor one character
/// back and Right one forward, Home to the start and End to the end, all
/// within the line; none of them changes the text or selects anything.
pub proof fn lemma_field_horizontal_moves(s0: SingleLineInput, s1: SingleLineInput, key: KeyEvent)
    requires
        buffer_ready(s0.input),
        !buffer_wraps(s0.input),
        buffer_lines(s0.input).len() == 1,
        cell_line(buffer_lines(s0.input)[0]),
        key.code == KeyCode::Left || key.code == KeyCode::Right || key.code == KeyCode::Home
            || key.code == KeyCode::End,
        !key.modifiers.control && !key.modifiers.alt && !key.modifiers.shift,
        single_input_post(s0, s1, key),
    ensures
        buffer_lines(s1.input) == buffer_lines(s0.input),
        buffer_ready(s1.input),
        key.code == KeyCode::Left ==> buffer_cursor(s1.input) == (
            0nat,
            if buffer_cursor(s0.input).1 > 0 {
                (buffer_cursor(s0.input).1 - 1) as nat
            } else {
                0nat
            },
        ),
        key.code == KeyCode::Right ==> buffer_cursor(s1.input) == (
            0nat,
            if buffer_cursor(s0.input).1 < buffer_lines(s0.input)[0].len() {
                (buffer_cursor(s0.input).1 + 1) as nat
            } else {
                buffer_cursor(s0.input).1
            },
        ),
        key.code == KeyCode::Home ==> buffer_cursor(s1.input) == (0nat, 0nat),
        key.code == KeyCode::End ==> buffer_cursor(s1.input) == (0nat, buffer_lines(s0.input)[0].len()),
{
}

/// The state of the path field.
#[derive(Debug)]
pub enum PathInputMode {
    /// The path is shown.
    Normal,
    /// The file explorer is open.
    Explorer,
    /// A name for a new folder is being typed.
    Creating(SingleLineInput),
    /// Something failed; the message says what.
    Error(String),
}

/// Work on the file explorer that the path field asks its owner to do.
#[derive(Debug)]
pub enum PathRequest {
    /// Open the explorer at this path (or at the home folder).
    Open(Option<String>),
    /// Let the explorer handle this key.
    Explorer(KeyEvent),
    /// Create a folder of this name in the explorer's folder and enter it.
    CreateDir(String),
}

/// The path field. The file explorer itself is kept by the owner, who does
/// the work in `request` and reports back the explorer's current path.
#[derive(Debug)]
pub struct PathInput {
    pub mode: PathInputMode,
    /// The path the field was opened with.
    pub original: String,
    /// The path the explorer has selected.
    pub current: String,
    /// Work for the owner to do.
    pub request: Option<PathRequest>,
}

/// The folder the file explorer opens at: the field's path, else the home
/// folder, else "/home/".
pub fn explorer_start(value: Option<String>, home: Option<String>) -> (r: String)
    ensures
        r@ == (match opt_view(value) {
            Some(p) => p,
            None => match opt_view(home) {
                Some(h) => h,
                None => "/home/"@,
            },
        }),
{
    match value {
        Some(p) => p,
        None => match home {
            Some(h) => h,
            None => String::from_str("/home/"),
        },
    }
}

/// Whether the path field takes a key in this mode.
pub open spec fn path_takes(mode: PathInputMode, key: KeyEvent) -> bool {
    match mode {
        PathInputMode::Normal => key.code == KeyCode::Enter,
        PathInputMode::Explorer => true,
        PathInputMode::Creating(_) => true,
        PathInputMode::Error(_) => false,
    }
}

/// Keys that close the explorer.
pub open spec fn closes_explorer(key: KeyEvent) -> bool {
    key.code == KeyCode::Enter || key.code == KeyCode::Esc || key.is_char_in('q', 'Q')
}

/// How a key changes the path field; `r` is whether the field took the key.
pub open spec fn path_input_post(pre: PathInput, post: PathInput, key_event: KeyEvent, r: bool) -> bool {
    &&& r == path_takes(pre.mode, key_event)
    &&& post.original == pre.original
    &&& post.current == pre.current
    &&& !r ==> post == pre
    &&& pre.mode is Normal && r ==> post.mode is Explorer && post.request == pre.request
    &&& pre.mode is Explorer && closes_explorer(key_event) ==> post.mode is Normal && post.request
        == pre.request
    &&& pre.mode is Explorer && !closes_explorer(key_event) && key_event.is_char_in('a', 'A') ==> {
        &&& post.request == pre.request
        &&& post.mode matches PathInputMode::Creating(t)
        &&& buffer_lines(t.input) == seq![Seq::<char>::empty()]
    }
    &&& pre.mode is Explorer && !closes_explorer(key_event) && !key_event.is_char_in('a', 'A') ==> {
        &&& post.mode is Explorer
        &&& post.request == Some(PathRequest::Explorer(key_event))
    }
    &&& pre.mode matches PathInputMode::Creating(t) ==> key_event.code == KeyCode::Enter ==> {
        &&& post.mode is Explorer
        &&& match single_result(buffer_lines(t.input)) {
            Some(name) => post.request matches Some(PathRequest::CreateDir(n)) && n@ == name,
            None => post.request == pre.request,
        }
    }
    &&& pre.mode matches PathInputMode::Creating(t) ==> key_event.code != KeyCode::Enter ==> {
        &&& post.request == pre.request
        &&& post.mode matches PathInputMode::Creating(t2)
        &&& single_input_post(t, t2, key_event)
    }
}

impl PathInput {
    /// A path field for `value`, asking its owner to open the explorer there.
    pub fn new(value: Option<String>) -> (r: Self)
        ensures
            r.mode is Normal,
            r.original@ == (match opt_view(value) {
                Some(p) => p,
                None => Seq::<char>::empty(),
            }),
            r.current@ == r.original@,
            r.request matches Some(PathRequest::Open(p)) && opt_view(p) == opt_view(value),
    {
        let original = match &value {
            Some(p) => p.clone(),
            None => String::new(),
        };
        let current = original.clone();
        PathInput { mode: PathInputMode::Normal, original, current, request: Some(PathRequest::Open(value)) }
    }

    /// Handles a key. Returns whether the field took it.
    pub fn input(&mut self, key_event: KeyEvent) -> (r: bool)
        ensures
            path_input_post(*old(self), *final(self), key_event, r),
    {
        match &mut self.mode {
            PathInputMode::Normal => {
                if key_event.code == KeyCode::Enter {
                    self.mode = PathInputMode::Explorer;
                    true
                } else {
                    false
                }
            },
            PathInputMode::Explorer => match key_event.code {
                KeyCode::Enter | KeyCode::Esc | KeyCode::Char('q') | KeyCode::Char('Q') => {
                    self.mode = PathInputMode::Normal;
                    true
                },
                KeyCode::Char('a') | KeyCode::Char('A') => {
                    self.mode = PathInputMode::Creating(SingleLineInput::new(None));
                    true
                },
                _ => {
                    self.request = Some(PathRequest::Explorer(key_event));
                    true
                },
            },
            PathInputMode::Creating(textarea) => match key_event.code {
                KeyCode::Enter => {
                    self.create_dir();
                    true
                },
                _ => {
                    textarea.input(key_event);
                    true
                },
            },
            _ => false,
        }
    }

    /// Leaves the folder-name prompt for the explorer, asking for a folder of
    /// the typed name when one was typed.
    fn create_dir(&mut self)
        requires
            old(self).mode is Creating,
        ensures
            final(self).mode is Explorer,
            final(self).original == old(self).original,
            final(self).current == old(self).current,
            old(self).mode matches PathInputMode::Creating(t) && match single_result(buffer_lines(t.input)) {
                Some(name) => final(self).request matches Some(PathRequest::CreateDir(n)) && n@ == name,
                None => final(self).request == old(self).request,
            },
    {
        let mode = std::mem::replace(&mut self.mode, PathInputMode::Explorer);
        if let PathInputMode::Creating(textarea) = mode {
            if let Some(foldername) = textarea.result() {
                self.request = Some(PathRequest::CreateDir(foldername));
            }
        }
    }

    /// The path the explorer has selected.
    pub fn result(self) -> (r: String)
        ensures
            r == self.current,
    {
        self.current
    }

    /// Takes the work the field asks for, if any.
    pub fn take_request(&mut self) -> (r: Option<PathRequest>)
        ensures
            r == old(self).request,
            final(self).request is None,
            final(self).mode == old(self).mode,
            final(self).original == old(self).original,
            final(self).current == old(self).current,
    {
        self.request.take()
    }

    /// The explorer was opened at `path` (failed when `!ok`) and has `current`
    /// selected.
    pub fn opened(&mut self, path: String, current: String, ok: bool)
        ensures
            final(self).original == path,
            final(self).current == current,
            final(self).request == old(self).request,
            ok ==> final(self).mode == old(self).mode,
            !ok ==> (final(self).mode matches PathInputMode::Error(m) && m@
                == "The provided Path seems to be invalid!"@),
    {
        self.original = path;
        self.current = current;
        if !ok {
            self.mode = PathInputMode::Error(String::from_str("The provided Path seems to be invalid!"));
        }
    }

    /// The explorer handled a key (failed when `!ok`) and has `current` selected.
    pub fn explorer_done(&mut self, current: String, ok: bool)
        ensures
            final(self).original == old(self).original,
            final(self).current == current,
            final(self).request == old(self).request,
            ok ==> final(self).mode == old(self).mode,
            !ok ==> (final(self).mode matches PathInputMode::Error(m) && m@ == "Something went wrong!"@),
    {
        self.current = current;
        if !ok {
            self.mode = PathInputMode::Error(String::from_str("Something went wrong!"));
        }
    }

    /// The explorer created a folder (or failed to) and has `current` selected.
    pub fn created(&mut self, current: String)
        ensures
            final(self).original == old(self).original,
            final(self).current == current,
            final(self).request == old(self).request,
            final(self).mode == old(self).mode,
    {
        self.current = current;
    }
}

/// Enter opens the explorer from the plain field, and Enter again closes it:
/// the field is back as it was.
pub proof fn lemma_explorer_open_close(
    p0: PathInput,
    p1: PathInput,
    p2: PathInput,
    k1: KeyEvent,
    k2: KeyEvent,
    r1: bool,
    r2: bool,
)
    requires
        p0.mode is Normal,
        k1.code == KeyCode::Enter,
        k2.code == KeyCode::Enter,
        path_input_post(p0, p1, k1, r1),
        path_input_post(p1, p2, k2, r2),
    ensures
        r1 && r2,
        p1.mode is Explorer,
        p2.mode is Normal,
        p2.original == p0.original,
        p2.current == p0.current,
        p2.request == p0.request,
{
}

} // verus!
