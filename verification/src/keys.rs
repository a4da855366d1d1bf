//! Key presses as the library sees them: a key code and the set of held
//! modifier keys.

use vstd::prelude::*;
use ratatui_textarea::{Input, Key};

verus! {

#[verifier::external_type_specification]
pub struct ExTextInput(Input);

#[verifier::external_type_specification]
pub struct ExTextKey(Key);

/// The key that was pressed.
#[derive(Clone, Copy, Debug, PartialEq, Eq, Structural)]
pub enum KeyCode {
    Backspace,
    Enter,
    Left,
    Right,
    Up,
    Down,
    Home,
    End,
    PageUp,
    PageDown,
    Tab,
    BackTab,
    Delete,
    Insert,
    F(u8),
    Char(char),
    Null,
    Esc,
    /// Any key the terminal reports that none of the above names.
    Other,
}

/// The modifier keys held during a key press.
#[derive(Clone, Copy, Debug, PartialEq, Eq, Structural)]
pub struct KeyModifiers {
    pub shift: bool,
    pub control: bool,
    pub alt: bool,
    pub super_key: bool,
    pub hyper: bool,
    pub meta: bool,
}

/// A key press.
#[derive(Clone, Copy, Debug, PartialEq, Eq, Structural)]
pub struct KeyEvent {
    pub code: KeyCode,
    pub modifiers: KeyModifiers,
}

impl KeyModifiers {
    /// No modifier held.
    pub fn none() -> (r: KeyModifiers)
        ensures
            !r.shift && !r.control && !r.alt && !r.super_key && !r.hyper && !r.meta,
    {
        KeyModifiers { shift: false, control: false, alt: false, super_key: false, hyper: false, meta: false }
    }

    /// Control held, and nothing else.
    pub fn control() -> (r: KeyModifiers)
        ensures
            r.control_only(),
    {
        KeyModifiers { shift: false, control: true, alt: false, super_key: false, hyper: false, meta: false }
    }

    pub open spec fn control_only(self) -> bool {
        self.control && !self.shift && !self.alt && !self.super_key && !self.hyper && !self.meta
    }

    /// True when control is held and no other modifier is.
    pub fn is_control_only(&self) -> (r: bool)
        ensures
            r == self.control_only(),
    {
        self.control && !self.shift && !self.alt && !self.super_key && !self.hyper && !self.meta
    }
}

impl KeyEvent {
    /// A key press with the given code and modifiers.
    pub fn new(code: KeyCode, modifiers: KeyModifiers) -> (r: KeyEvent)
        ensures
            r.code == code,
            r.modifiers == modifiers,
    {
        KeyEvent { code, modifiers }
    }

    /// A key press without modifiers.
    pub fn plain(code: KeyCode) -> (r: KeyEvent)
        ensures
            r.code == code,
            r.modifiers == KeyModifiers::none_spec(),
    {
        KeyEvent { code, modifiers: KeyModifiers::none() }
    }

    pub open spec fn is_char_in(self, a: char, b: char) -> bool {
        self.code == KeyCode::Char(a) || self.code == KeyCode::Char(b)
    }
}

impl KeyModifiers {
    pub open spec fn none_spec() -> KeyModifiers {
        KeyModifiers { shift: false, control: false, alt: false, super_key: false, hyper: false, meta: false }
    }
}

/// The key of the text-area input that a key code stands for.
pub open spec fn text_key_spec(code: KeyCode) -> Key {
    match code {
        KeyCode::Char(c) => Key::Char(c),
        KeyCode::Backspace => Key::Backspace,
        KeyCode::Enter => Key::Enter,
        KeyCode::Left => Key::Left,
        KeyCode::Right => Key::Right,
        KeyCode::Up => Key::Up,
        KeyCode::Down => Key::Down,
        KeyCode::Tab => Key::Tab,
        KeyCode::Delete => Key::Delete,
        KeyCode::Home => Key::Home,
        KeyCode::End => Key::End,
        KeyCode::PageUp => Key::PageUp,
        KeyCode::PageDown => Key::PageDown,
        KeyCode::Esc => Key::Esc,
        KeyCode::F(x) => Key::F(x),
        _ => Key::Null,
    }
}

/// The text-area input for a key press: shift-tab becomes tab with shift
/// held; control, alt and shift carry over.
pub open spec fn text_input_spec(key: KeyEvent) -> Input {
    if key.code == KeyCode::BackTab {
        Input { key: Key::Tab, ctrl: key.modifiers.control, alt: key.modifiers.alt, shift: true }
    } else {
        Input {
            key: text_key_spec(key.code),
            ctrl: key.modifiers.control,
            alt: key.modifiers.alt,
            shift: key.modifiers.shift,
        }
    }
}

/// The text-area input for a key press.
pub fn text_input(key: KeyEvent) -> (r: Input)
    ensures
        r == text_input_spec(key),
{
    let ctrl = key.modifiers.control;
    let alt = key.modifiers.alt;
    let shift = key.modifiers.shift;
    let k = match key.code {
        KeyCode::Char(c) => Key::Char(c),
        KeyCode::Backspace => Key::Backspace,
        KeyCode::Enter => Key::Enter,
        KeyCode::Left => Key::Left,
        KeyCode::Right => Key::Right,
        KeyCode::Up => Key::Up,
        KeyCode::Down => Key::Down,
        KeyCode::Tab => Key::Tab,
        KeyCode::BackTab => {
            return Input { key: Key::Tab, ctrl, alt, shift: true };
        },
        KeyCode::Delete => Key::Delete,
        KeyCode::Home => Key::Home,
        KeyCode::End => Key::End,
        KeyCode::PageUp => Key::PageUp,
        KeyCode::PageDown => Key::PageDown,
        KeyCode::Esc => Key::Esc,
        KeyCode::F(x) => Key::F(x),
        _ => Key::Null,
    };
    Input { key: k, ctrl, alt, shift }
}

} // verus!
