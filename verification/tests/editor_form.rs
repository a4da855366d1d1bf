use projektor::config::Settings;
use projektor::editor::{
    EditorEvent, Fields, MultiLineInput, PathInput, PathInputMode, PathRequest, ProjectEditor,
    SingleLineInput,
};
use projektor::editor::input_fields::explorer_start;
use projektor::keys::{KeyCode, KeyEvent, KeyModifiers};
use projektor::persistence::{Category, Project};

fn key(code: KeyCode) -> KeyEvent {
    KeyEvent::plain(code)
}

fn ctrl(c: char) -> KeyEvent {
    KeyEvent::new(KeyCode::Char(c), KeyModifiers::control())
}

fn type_text(e: &mut ProjectEditor, text: &str) {
    for c in text.chars() {
        assert_eq!(e.handle_key_event(key(KeyCode::Char(c))), None);
    }
}

const ALL: [Fields; 6] = [Fields::Name, Fields::Category, Fields::Path, Fields::Tags, Fields::Lang, Fields::Desc];

#[test]
fn tab_and_back_tab_undo_each_other() {
    for f in ALL {
        assert_eq!(f.next().prev(), f);
        assert_eq!(f.prev().next(), f);
    }
}

#[test]
fn six_tabs_come_back() {
    for f in ALL {
        let mut g = f;
        for step in 1..=6 {
            g = g.next();
            assert_eq!(g == f, step == 6);
        }
    }
    assert_eq!(Fields::Desc.next(), Fields::Name);
    assert_eq!(Fields::Name.prev(), Fields::Desc);
}

#[test]
fn single_line_input_drops_newlines_and_trims() {
    assert_eq!(SingleLineInput::new(Some("a\nb".to_string())).result(), Some("ab".to_string()));
    assert_eq!(SingleLineInput::new(Some("  x  ".to_string())).result(), Some("x".to_string()));
    assert_eq!(SingleLineInput::new(Some("   ".to_string())).result(), None);
    assert_eq!(SingleLineInput::new(None).result(), None);
    assert_eq!(SingleLineInput::new(Some("a\nb\n".to_string())).result(), Some("ab".to_string()));
    let field = SingleLineInput::new(Some("x\ny".to_string()));
    assert_eq!(field.input.area.lines(), ["xy"]);
}

#[test]
fn single_line_input_refuses_enter_and_takes_typing() {
    let mut f = SingleLineInput::new(Some("ab".to_string()));
    assert!(!f.input(key(KeyCode::Enter)));
    assert!(f.input(key(KeyCode::Char('c'))));
    assert!(!f.input(key(KeyCode::Left)));
    assert!(f.input(key(KeyCode::Char('-'))));
    assert_eq!(f.result(), Some("ab-c".to_string()));
}

#[test]
fn multi_line_input_keeps_lines() {
    assert_eq!(MultiLineInput::new(Some("a\nb".to_string())).result(), Some("a\nb\n".to_string()));
    assert_eq!(MultiLineInput::new(None).result(), Some("\n".to_string()));
    let mut f = MultiLineInput::new(Some("a".to_string()));
    assert!(f.input(key(KeyCode::Enter)));
    assert!(f.input(key(KeyCode::Char('b'))));
    assert_eq!(f.result(), Some("a\nb\n".to_string()));
}

#[test]
fn blank_form_saves_defaults() {
    let e = ProjectEditor::default();
    assert_eq!(e.selected, Fields::Name);
    let (cat, p) = e.into_project();
    assert_eq!(cat, "Uncategorized");
    assert_eq!(p.name, "Unnamed");
    assert_eq!(p.path, "");
    assert!(p.tags.is_empty());
    assert_eq!(p.language, None);
    assert_eq!(p.description, Some("\n".to_string()));
}

#[test]
fn new_form_starts_at_default_folder() {
    let settings = Settings { default_folder: Some("/srv/code".to_string()), config_path: "c.toml".to_string() };
    let e = ProjectEditor::new(&settings);
    assert!(matches!(e.path.mode, PathInputMode::Normal));
    assert_eq!(e.path.original, "/srv/code");
    assert!(matches!(&e.path.request, Some(PathRequest::Open(Some(p))) if p == "/srv/code"));
    assert_eq!(e.into_project().1.path, "/srv/code");
}

#[test]
fn editor_keys() {
    let mut e = ProjectEditor::default();
    assert_eq!(e.handle_key_event(key(KeyCode::Esc)), Some(EditorEvent::Cancel));
    assert_eq!(e.handle_key_event(ctrl('s')), Some(EditorEvent::Save));
    assert_eq!(e.handle_key_event(ctrl('S')), Some(EditorEvent::Save));
    let alt_ctrl = KeyModifiers { alt: true, ..KeyModifiers::control() };
    assert_eq!(e.handle_key_event(KeyEvent::new(KeyCode::Char('s'), alt_ctrl)), None);
    type_text(&mut e, "Demo");
    assert_eq!(e.handle_key_event(key(KeyCode::Tab)), None);
    assert_eq!(e.selected, Fields::Category);
    type_text(&mut e, " Tools ");
    e.handle_key_event(key(KeyCode::Tab));
    assert_eq!(e.selected, Fields::Path);
    e.handle_key_event(key(KeyCode::Tab));
    type_text(&mut e, "x, y,,z ");
    e.handle_key_event(key(KeyCode::BackTab));
    assert_eq!(e.selected, Fields::Path);
    e.handle_key_event(key(KeyCode::Tab));
    e.handle_key_event(key(KeyCode::Tab));
    type_text(&mut e, "Rust");
    e.handle_key_event(key(KeyCode::Tab));
    type_text(&mut e, "line");
    let (cat, p) = e.into_project();
    assert_eq!(cat, "Tools");
    assert_eq!(p.name, "Demo");
    assert_eq!(p.tags, vec!["x", "y", "z"]);
    assert_eq!(p.language, Some("Rust".to_string()));
    assert_eq!(p.description, Some("line\n".to_string()));
}

fn sample() -> (Category, Project) {
    let p = Project {
        path: "/p/demo".to_string(),
        name: "Demo".to_string(),
        tags: vec!["Tui".to_string(), "Ricing".to_string()],
        language: Some("Rust".to_string()),
        description: Some("first\nsecond".to_string()),
    };
    (Category { name: "Tools".to_string(), projects: vec![] }, p)
}

#[test]
fn form_round_trip_of_clean_project() {
    let (c, p) = sample();
    let e = ProjectEditor::from((&c, &p));
    let (cat, q) = e.into_project();
    assert_eq!(cat, c.name);
    assert_eq!(q.path, p.path);
    assert_eq!(q.name, p.name);
    assert_eq!(q.tags, p.tags);
    assert_eq!(q.language, p.language);
    assert_eq!(q.description, Some("first\nsecond\n".to_string()));
}

#[test]
fn form_round_trip_cleans_fields() {
    let c = Category { name: "  ".to_string(), projects: vec![] };
    let p = Project {
        path: "/p".to_string(),
        name: " two\nlines ".to_string(),
        tags: vec![" a ".to_string(), "b,c".to_string(), "".to_string()],
        language: Some("".to_string()),
        description: None,
    };
    let (cat, q) = ProjectEditor::from((&c, &p)).into_project();
    assert_eq!(cat, "Uncategorized");
    assert_eq!(q.name, "twolines");
    assert_eq!(q.tags, vec!["a", "b", "c"]);
    assert_eq!(q.language, None);
    assert_eq!(q.description, Some("\n".to_string()));
}

#[test]
fn path_field_explorer_flow() {
    let mut p = PathInput::new(Some("/p".to_string()));
    assert!(matches!(p.take_request(), Some(PathRequest::Open(Some(s))) if s == "/p"));
    assert!(!p.input(key(KeyCode::Char('x'))));
    assert!(p.input(key(KeyCode::Enter)));
    assert!(matches!(p.mode, PathInputMode::Explorer));
    assert!(p.input(key(KeyCode::Down)));
    assert!(matches!(p.take_request(), Some(PathRequest::Explorer(k)) if k.code == KeyCode::Down));
    p.explorer_done("/p/sub".to_string(), true);
    assert_eq!(p.current, "/p/sub");
    assert!(p.input(key(KeyCode::Char('a'))));
    assert!(matches!(p.mode, PathInputMode::Creating(_)));
    for c in "new".chars() {
        assert!(p.input(key(KeyCode::Char(c))));
    }
    assert!(p.input(key(KeyCode::Enter)));
    assert!(matches!(p.mode, PathInputMode::Explorer));
    assert!(matches!(p.take_request(), Some(PathRequest::CreateDir(n)) if n == "new"));
    p.created("/p/sub/new".to_string());
    assert!(p.input(key(KeyCode::Char('q'))));
    assert!(matches!(p.mode, PathInputMode::Normal));
    assert_eq!(p.original, "/p");
    assert_eq!(p.result(), "/p/sub/new");
}

#[test]
fn path_field_enter_twice_is_back_as_before() {
    let mut p = PathInput::new(None);
    p.take_request();
    assert!(p.input(key(KeyCode::Enter)));
    assert!(p.input(key(KeyCode::Enter)));
    assert!(matches!(p.mode, PathInputMode::Normal));
    assert!(p.request.is_none());
}

#[test]
fn path_field_empty_folder_name_asks_nothing() {
    let mut p = PathInput::new(None);
    p.take_request();
    p.input(key(KeyCode::Enter));
    p.input(key(KeyCode::Char('A')));
    p.input(key(KeyCode::Char(' ')));
    p.input(key(KeyCode::Enter));
    assert!(matches!(p.mode, PathInputMode::Explorer));
    assert!(p.request.is_none());
}

#[test]
fn path_field_errors() {
    let mut p = PathInput::new(Some("/nope".to_string()));
    p.opened("/nope".to_string(), "/".to_string(), false);
    assert!(matches!(&p.mode, PathInputMode::Error(m) if m == "The provided Path seems to be invalid!"));
    assert!(!p.input(key(KeyCode::Enter)));
    let mut q = PathInput::new(None);
    q.opened("/home".to_string(), "/home".to_string(), true);
    assert!(matches!(q.mode, PathInputMode::Normal));
    q.input(key(KeyCode::Enter));
    q.explorer_done("/home".to_string(), false);
    assert!(matches!(&q.mode, PathInputMode::Error(m) if m == "Something went wrong!"));
}

#[test]
fn keys_go_to_path_field_only_when_it_takes_them() {
    let mut e = ProjectEditor::default();
    e.handle_key_event(key(KeyCode::Tab));
    e.handle_key_event(key(KeyCode::Tab));
    assert_eq!(e.selected, Fields::Path);
    assert_eq!(e.handle_key_event(key(KeyCode::Enter)), None);
    assert!(matches!(e.path.mode, PathInputMode::Explorer));
    assert_eq!(e.handle_key_event(key(KeyCode::Esc)), None);
    assert!(matches!(e.path.mode, PathInputMode::Normal));
    assert_eq!(e.handle_key_event(key(KeyCode::Esc)), Some(EditorEvent::Cancel));
}

#[test]
fn typing_changes_text_and_moving_does_not() {
    let mut s = SingleLineInput::new(None);
    assert!(s.input(key(KeyCode::Char('\n'))));
    assert!(!s.input(key(KeyCode::Home)));
    assert!(!s.input(key(KeyCode::F(2))));
    assert!(!s.input(KeyEvent::new(KeyCode::Up, KeyModifiers { alt: true, ..KeyModifiers::none() })));
    let mut m = MultiLineInput::new(Some("ab".to_string()));
    assert!(m.input(ctrl('m')));
    assert!(!m.input(key(KeyCode::PageDown)));
    assert!(!m.input(key(KeyCode::Esc)));
    assert!(m.input(key(KeyCode::Char('z'))));
    let text = m.result().unwrap();
    assert_eq!(text.matches('\n').count(), 2);
    assert_eq!(text.chars().filter(|c| *c != '\n').collect::<String>().len(), 3);
    assert!(text.contains('z'));
}

#[test]
fn typed_characters_land_at_the_cursor() {
    let mut s = SingleLineInput::new(Some("ab".to_string()));
    assert!(s.input(key(KeyCode::Char('x'))));
    assert!(s.input(key(KeyCode::Char('y'))));
    assert_eq!(s.input.area.lines(), ["abxy"]);
    assert!(s.input(key(KeyCode::Backspace)));
    assert_eq!(s.input.area.lines(), ["abx"]);
    assert!(s.input(ctrl('h')));
    assert_eq!(s.result(), Some("ab".to_string()));
}

#[test]
fn backspace_at_the_start_changes_nothing() {
    let mut s = SingleLineInput::new(None);
    assert!(!s.input(key(KeyCode::Backspace)));
    assert_eq!(s.input.area.lines(), [""]);
    assert!(s.input(key(KeyCode::Char('q'))));
    assert!(s.input(key(KeyCode::Backspace)));
    assert!(!s.input(key(KeyCode::Backspace)));
    assert_eq!(s.result(), None);
}

#[test]
fn line_breaks_split_and_backspace_joins() {
    let mut m = MultiLineInput::new(Some("ab\ncd".to_string()));
    assert!(m.input(key(KeyCode::Char('x'))));
    assert_eq!(m.input.area.lines(), ["abx", "cd"]);
    assert!(m.input(key(KeyCode::Enter)));
    assert_eq!(m.input.area.lines(), ["abx", "", "cd"]);
    assert!(m.input(key(KeyCode::Char('z'))));
    assert!(m.input(ctrl('m')));
    assert_eq!(m.input.area.lines(), ["abx", "z", "", "cd"]);
    assert!(m.input(key(KeyCode::Backspace)));
    assert!(m.input(key(KeyCode::Backspace)));
    assert_eq!(m.input.area.lines(), ["abx", "", "cd"]);
    assert_eq!(m.result(), Some("abx\n\ncd\n".to_string()));
}

#[test]
fn keys_reach_the_selected_field_only() {
    let (c, p) = sample();
    let mut e = ProjectEditor::from((&c, &p));
    type_text(&mut e, "!");
    assert_eq!(e.handle_key_event(key(KeyCode::Enter)), None);
    assert_eq!(e.handle_key_event(key(KeyCode::Left)), None);
    assert_eq!(e.handle_key_event(key(KeyCode::Tab)), None);
    type_text(&mut e, "?");
    let (cat, proj) = e.into_project();
    assert_eq!(proj.name, format!("{}!", p.name));
    assert_eq!(cat, format!("{}?", c.name));
    assert_eq!(proj.tags, p.tags);
    assert_eq!(proj.language, p.language);
}

#[test]
fn folder_name_prompt_takes_typing_and_backspace() {
    let mut p = PathInput::new(None);
    assert!(p.input(key(KeyCode::Enter)));
    assert!(p.input(key(KeyCode::Char('a'))));
    for c in "dirx".chars() {
        assert!(p.input(key(KeyCode::Char(c))));
    }
    assert!(p.input(key(KeyCode::Backspace)));
    match &p.mode {
        PathInputMode::Creating(t) => assert_eq!(t.input.area.lines(), ["dir"]),
        _ => panic!("not creating"),
    }
    let _ = p.take_request();
    assert!(p.input(key(KeyCode::Enter)));
    assert!(matches!(p.take_request(), Some(PathRequest::CreateDir(n)) if n == "dir"));
}

#[test]
fn explorer_starts_at_path_then_home() {
    assert_eq!(explorer_start(Some("/p".to_string()), Some("/h".to_string())), "/p");
    assert_eq!(explorer_start(None, Some("/h".to_string())), "/h");
    assert_eq!(explorer_start(None, None), "/home/");
}

#[test]
fn break_or_type_then_backspace_restores() {
    let mut m = MultiLineInput::new(Some("hello".to_string()));
    assert!(!m.input(key(KeyCode::Left)));
    assert!(!m.input(key(KeyCode::Left)));
    assert!(m.input(key(KeyCode::Enter)));
    assert_eq!(m.input.area.lines(), ["hel", "lo"]);
    assert!(m.input(key(KeyCode::Backspace)));
    assert_eq!(m.input.area.lines(), ["hello"]);
    assert_eq!(m.input.area.cursor(), (0, 3));
    assert!(m.input(key(KeyCode::Char('X'))));
    assert_eq!(m.input.area.lines(), ["helXlo"]);
    assert!(m.input(key(KeyCode::Backspace)));
    assert_eq!(m.input.area.lines(), ["hello"]);
    assert_eq!(m.input.area.cursor(), (0, 3));
}

#[test]
fn cursor_keys_and_delete_in_a_field() {
    let mut s = SingleLineInput::new(Some("abc".to_string()));
    assert!(!s.input(key(KeyCode::Left)));
    assert_eq!(s.input.area.cursor(), (0, 2));
    assert!(s.input(key(KeyCode::Char('-'))));
    assert_eq!(s.input.area.lines(), ["ab-c"]);
    assert!(!s.input(key(KeyCode::Home)));
    assert_eq!(s.input.area.cursor(), (0, 0));
    assert!(!s.input(key(KeyCode::Left)));
    assert_eq!(s.input.area.cursor(), (0, 0));
    assert!(s.input(key(KeyCode::Delete)));
    assert_eq!(s.input.area.lines(), ["b-c"]);
    assert!(!s.input(key(KeyCode::Right)));
    assert!(s.input(ctrl('d')));
    assert_eq!(s.input.area.lines(), ["bc"]);
    assert!(!s.input(key(KeyCode::End)));
    assert_eq!(s.input.area.cursor(), (0, 2));
    assert!(!s.input(key(KeyCode::Right)));
    assert_eq!(s.input.area.cursor(), (0, 2));
    assert!(!s.input(key(KeyCode::Delete)));
    assert!(!s.input(ctrl('a')));
    assert!(!s.input(ctrl('f')));
    assert!(!s.input(ctrl('e')));
    assert!(!s.input(ctrl('b')));
    assert_eq!(s.input.area.cursor(), (0, 1));
    assert_eq!(s.result(), Some("bc".to_string()));
}

#[test]
fn home_and_end_in_a_wrapped_field() {
    let mut m = MultiLineInput::new(Some("one\ntwo".to_string()));
    assert!(!m.input(key(KeyCode::Home)));
    assert_eq!(m.input.area.cursor(), (0, 0));
    assert!(m.input(key(KeyCode::Char('>'))));
    assert!(!m.input(key(KeyCode::End)));
    assert_eq!(m.input.area.cursor(), (0, 4));
    assert!(m.input(key(KeyCode::Char('<'))));
    assert_eq!(m.input.area.lines(), [">one<", "two"]);
}
