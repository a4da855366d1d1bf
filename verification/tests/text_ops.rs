use projektor::keys::{text_input, KeyCode, KeyEvent, KeyModifiers};
use projektor::text::{
    char_is_white, chars_of, contains, items_joined, lines_joined, remove_char, split_at_char,
    string_of, trimmed,
};
use ratatui_textarea::{Input, Key};

#[test]
fn white_space_is_what_std_calls_white_space() {
    for code in 0u32..0x11_0000 {
        if let Some(c) = char::from_u32(code) {
            assert_eq!(char_is_white(c), c.is_whitespace(), "U+{:04X}", code);
        }
    }
}

#[test]
fn trimmed_agrees_with_std_trim() {
    for s in ["", "   ", "abc", "  a b  ", "\t\nx\r\n", "\u{3000}x\u{85}", "\u{a0}y z\u{2028}", " , "] {
        assert_eq!(trimmed(s), s.trim());
    }
}

#[test]
fn split_keeps_empty_pieces() {
    assert_eq!(split_at_char("a,b,,c", ','), vec!["a", "b", "", "c"]);
    assert_eq!(split_at_char("", ','), vec![""]);
    assert_eq!(split_at_char(",", ','), vec!["", ""]);
    assert_eq!(split_at_char("one\ntwo", '\n'), vec!["one", "two"]);
}

#[test]
fn remove_char_drops_every_occurrence() {
    assert_eq!(remove_char("a\nb\n", '\n'), "ab");
    assert_eq!(remove_char("abc", '\n'), "abc");
}

#[test]
fn contains_finds_runs_of_characters() {
    assert!(contains("hello", "ll"));
    assert!(contains("hello", ""));
    assert!(contains("hello", "hello"));
    assert!(!contains("he", "hello"));
    assert!(!contains("hello", "lo!"));
    assert!(contains("Grüße", "üß"));
}

#[test]
fn joins_end_each_item() {
    assert_eq!(lines_joined(&vec!["a".to_string(), "b".to_string()]), "a\nb\n");
    assert_eq!(lines_joined(&vec![]), "");
    assert_eq!(items_joined(&vec!["a".to_string(), "b".to_string()]), "a, b, ");
    assert_eq!(items_joined(&vec![]), "");
}

#[test]
fn chars_and_back() {
    let v = chars_of("häh");
    assert_eq!(v, vec!['h', 'ä', 'h']);
    assert_eq!(string_of(&v, 1, 3), "äh");
}

#[test]
fn back_tab_becomes_shifted_tab_for_text() {
    let key = KeyEvent::new(KeyCode::BackTab, KeyModifiers::none());
    assert_eq!(text_input(key), Input { key: Key::Tab, ctrl: false, alt: false, shift: true });
    let key = KeyEvent::new(KeyCode::Char('x'), KeyModifiers::control());
    assert_eq!(text_input(key), Input { key: Key::Char('x'), ctrl: true, alt: false, shift: false });
    assert_eq!(text_input(KeyEvent::plain(KeyCode::Insert)).key, Key::Null);
    assert_eq!(text_input(KeyEvent::plain(KeyCode::F(3))).key, Key::F(3));
}
