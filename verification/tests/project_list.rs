use projektor::config::Settings;
use projektor::datamodel::{EditMode, Entry, ProjectListView, ViewError};
use projektor::editor::PathInputMode;
use projektor::event::AppEvent;
use projektor::keys::{KeyCode, KeyEvent, KeyModifiers};
use projektor::persistence::{Category, Project};
use projektor::test_config::get_test_config;

fn key(code: KeyCode) -> KeyEvent {
    KeyEvent::plain(code)
}

fn ch(c: char) -> KeyEvent {
    key(KeyCode::Char(c))
}

fn settings() -> Settings {
    Settings { default_folder: None, config_path: "config.toml".to_string() }
}

fn total(v: &ProjectListView) -> usize {
    v.projects.categories.iter().map(|c| c.projects.len()).sum()
}

fn project(name: &str) -> Project {
    Project { path: format!("/p/{name}"), name: name.to_string(), tags: vec![], language: None, description: None }
}

fn p(category: usize, index: usize) -> Entry {
    Entry::Project { category, index }
}

#[test]
fn sample_list() {
    let v = get_test_config();
    let names: Vec<&str> = v.projects.categories.iter().map(|c| c.name.as_str()).collect();
    assert_eq!(names, vec!["Uncategorized", "C", "Empty", "Broken"]);
    assert_eq!(total(&v), 6);
    assert_eq!(v.projects.categories[0].projects[1].tags, vec!["GDM", "Ricing"]);
    assert_eq!(v.selected, None);
}

#[test]
fn entries_without_filter_show_every_project() {
    let v = get_test_config();
    assert_eq!(
        v.entries(),
        vec![Entry::Header(0), p(0, 0), p(0, 1), p(0, 2), p(0, 3), Entry::Header(1), p(1, 0), Entry::Header(3), p(3, 0)]
    );
}

#[test]
fn entries_with_filter() {
    let mut v = get_test_config();
    v.filter = "Rat".to_string();
    assert_eq!(v.entries(), vec![Entry::Header(0), p(0, 2)]);
    v.filter = "Connect".to_string();
    assert_eq!(v.entries(), vec![Entry::Header(1), p(1, 0), Entry::Header(3), p(3, 0)]);
    v.filter = "nothing matches".to_string();
    assert!(v.entries().is_empty());
    v.filter = "projektor".to_string();
    assert!(v.entries().is_empty());
}

#[test]
fn moving_lands_on_projects() {
    let mut v = get_test_config();
    v.next();
    assert_eq!(v.selected, Some(1));
    for _ in 0..3 {
        v.next();
    }
    assert_eq!(v.selected, Some(4));
    v.next();
    assert_eq!(v.selected, Some(6));
    v.next();
    assert_eq!(v.selected, Some(8));
    v.next();
    assert_eq!(v.selected, Some(8));
    v.prev();
    assert_eq!(v.selected, Some(6));
    v.prev();
    assert_eq!(v.selected, Some(4));
    v.selected = Some(1);
    v.prev();
    assert_eq!(v.selected, Some(1));
    v.selected = None;
    v.prev();
    assert_eq!(v.selected, None);
    v.selected = Some(40);
    v.next();
    assert_eq!(v.selected, Some(40));
}

#[test]
fn selected_project() {
    let mut v = get_test_config();
    assert!(v.get_from_rendered().is_none());
    v.selected = Some(0);
    assert!(v.get_from_rendered().is_none());
    v.selected = Some(6);
    let (c, p) = v.get_from_rendered().unwrap();
    assert_eq!(c.name, "C");
    assert_eq!(p.name, "Connect 4 Raylib");
    v.selected = Some(9);
    assert!(v.get_from_rendered().is_none());
}

#[test]
fn insert_appends_to_named_category_or_makes_one() {
    let mut v = get_test_config();
    v.insert(project("new"), "C".to_string());
    assert_eq!(v.projects.categories[1].projects.len(), 2);
    assert_eq!(v.projects.categories[1].projects[1].name, "new");
    assert_eq!(total(&v), 7);
    v.insert(project("other"), "Fresh".to_string());
    assert_eq!(v.projects.categories.len(), 5);
    assert_eq!(v.projects.categories[4].name, "Fresh");
    assert_eq!(v.projects.categories[4].projects, vec![project("other")]);
    assert_eq!(total(&v), 8);
}

#[test]
fn insert_uses_first_category_of_a_name() {
    let mut v = ProjectListView::new(vec![
        Category { name: "A".to_string(), projects: vec![] },
        Category { name: "A".to_string(), projects: vec![] },
    ]);
    v.insert(project("x"), "A".to_string());
    assert_eq!(v.projects.categories[0].projects.len(), 1);
    assert_eq!(v.projects.categories[1].projects.len(), 0);
}

#[test]
fn delete_removes_the_selected_project_only() {
    let mut v = get_test_config();
    v.selected = Some(2);
    assert_eq!(v.del_selected(), Some(()));
    assert_eq!(total(&v), 5);
    let names: Vec<&str> = v.projects.categories[0].projects.iter().map(|p| p.name.as_str()).collect();
    assert_eq!(names, vec!["Projektor", "Ratatui", "Linux Retroism Rice"]);
    v.selected = Some(0);
    assert_eq!(v.del_selected(), None);
    assert_eq!(total(&v), 5);
    v.selected = None;
    assert_eq!(v.del_selected(), None);
}

#[test]
fn update_replaces_the_selected_project() {
    let mut v = get_test_config();
    v.selected = Some(8);
    v.update_selected(project("moved"), "C".to_string());
    assert!(v.projects.categories[3].projects.is_empty());
    assert_eq!(v.projects.categories[1].projects[1].name, "moved");
    assert_eq!(total(&v), 6);
}

#[test]
fn browse_keys() {
    let s = settings();
    let mut v = get_test_config();
    assert_eq!(v.handle_key_event(ch('q'), &s), Ok(Some(AppEvent::Quit)));
    assert_eq!(v.handle_key_event(key(KeyCode::Esc), &s), Ok(Some(AppEvent::Quit)));
    let ctrl_c = KeyEvent::new(KeyCode::Char('c'), KeyModifiers::control());
    assert_eq!(v.handle_key_event(ctrl_c, &s), Ok(Some(AppEvent::Quit)));
    assert_eq!(v.handle_key_event(ch('c'), &s), Ok(None));
    assert_eq!(v.handle_key_event(key(KeyCode::Enter), &s), Ok(Some(AppEvent::QuitWithSelected)));
    assert_eq!(v.handle_key_event(key(KeyCode::Tab), &s), Ok(Some(AppEvent::NextTab)));
    assert_eq!(v.handle_key_event(key(KeyCode::BackTab), &s), Ok(Some(AppEvent::PrevTab)));
    assert_eq!(v.handle_key_event(ch('e'), &s), Err(ViewError::NothingSelected));
    assert_eq!(ViewError::NothingSelected.message(), "Nothing Selected");
    assert_eq!(v.handle_key_event(ch('j'), &s), Ok(None));
    assert_eq!(v.selected, Some(1));
    assert_eq!(v.handle_key_event(key(KeyCode::Down), &s), Ok(None));
    assert_eq!(v.selected, Some(2));
    assert_eq!(v.handle_key_event(ch('K'), &s), Ok(None));
    assert_eq!(v.selected, Some(1));
    assert_eq!(v.handle_key_event(ch('d'), &s), Ok(Some(AppEvent::Save)));
    assert_eq!(total(&v), 5);
    assert_eq!(v.handle_key_event(ch('x'), &s), Ok(None));
    assert!(matches!(v.mode, EditMode::ProjectView));
}

#[test]
fn filter_keys() {
    let s = settings();
    let mut v = get_test_config();
    assert_eq!(v.handle_key_event(ch('f'), &s), Ok(None));
    assert!(matches!(v.mode, EditMode::EditFilter));
    assert_eq!(v.list_title(), "Projects/ ");
    for c in "Rax".chars() {
        assert_eq!(v.handle_key_event(ch(c), &s), Ok(None));
    }
    assert_eq!(v.filter, "Rax");
    assert_eq!(v.handle_key_event(key(KeyCode::Backspace), &s), Ok(None));
    assert_eq!(v.filter, "Ra");
    assert_eq!(v.handle_key_event(key(KeyCode::Down), &s), Ok(None));
    assert_eq!(v.selected, Some(1));
    assert_eq!(v.handle_key_event(key(KeyCode::Enter), &s), Ok(None));
    assert_eq!(v.handle_key_event(key(KeyCode::Tab), &s), Ok(Some(AppEvent::NextTab)));
    let ctrl_c = KeyEvent::new(KeyCode::Char('C'), KeyModifiers::control());
    assert_eq!(v.handle_key_event(ctrl_c, &s), Ok(Some(AppEvent::Quit)));
    assert_eq!(v.handle_key_event(key(KeyCode::Esc), &s), Ok(None));
    assert!(matches!(v.mode, EditMode::ProjectView));
    assert_eq!(v.filter, "Ra");
    assert_eq!(v.list_title(), "Projects/ Ra");
}

#[test]
fn typing_then_erasing_restores_the_filter() {
    let s = settings();
    let mut v = get_test_config();
    v.handle_key_event(ch('f'), &s);
    v.handle_key_event(ch('C'), &s);
    let before = (v.filter.clone(), v.selected);
    assert_eq!(v.handle_key_event(ch('z'), &s), Ok(None));
    assert_eq!(v.handle_key_event(key(KeyCode::Backspace), &s), Ok(None));
    assert_eq!((v.filter.clone(), v.selected), before);
    assert_eq!(total(&v), 6);
    let mut empty = get_test_config();
    empty.handle_key_event(ch('f'), &s);
    assert_eq!(empty.handle_key_event(key(KeyCode::Backspace), &s), Ok(None));
    assert_eq!(empty.filter, "");
}

#[test]
fn editing_and_saving_unchanged_adds_a_newline_to_the_description() {
    let s = settings();
    let mut v = get_test_config();
    v.selected = Some(1);
    assert_eq!(v.handle_key_event(ch('e'), &s), Ok(None));
    assert!(matches!(v.mode, EditMode::EditingProject(_)));
    let save = KeyEvent::new(KeyCode::Char('s'), KeyModifiers::control());
    assert_eq!(v.handle_key_event(save, &s), Ok(Some(AppEvent::Save)));
    assert!(matches!(v.mode, EditMode::ProjectView));
    assert_eq!(total(&v), 6);
    let cat = &v.projects.categories[0];
    let last = cat.projects.last().unwrap();
    assert_eq!(last.name, "Projektor");
    assert_eq!(last.tags, vec!["Tui"]);
    assert_eq!(last.language, Some("Rust".to_string()));
    assert_eq!(
        last.description,
        Some("Utility to keep track of Projects from the commandline.\nTrust me It's very cool. I just don't know what eslse to say about it.\n Bla\n".to_string())
    );
    assert_eq!(cat.projects[0].name, "GDM-wallpaper-compositor");
}

#[test]
fn cancel_leaves_projects_alone() {
    let s = settings();
    let mut v = get_test_config();
    v.selected = Some(6);
    v.handle_key_event(ch('E'), &s);
    for c in "xyz".chars() {
        v.handle_key_event(ch(c), &s);
    }
    assert_eq!(v.handle_key_event(key(KeyCode::Esc), &s), Ok(None));
    assert!(matches!(v.mode, EditMode::ProjectView));
    assert_eq!(v.projects.categories[1].projects[0].name, "Connect 4 Raylib");
}

#[test]
fn creating_a_project() {
    let s = Settings { default_folder: Some("/work".to_string()), config_path: "c".to_string() };
    let mut v = get_test_config();
    assert_eq!(v.handle_key_event(ch('n'), &s), Ok(None));
    match &v.mode {
        EditMode::CreatingProject(e) => {
            assert!(matches!(e.path.mode, PathInputMode::Normal));
            assert_eq!(e.path.current, "/work");
        }
        _ => panic!("no form"),
    }
    for c in "Fresh".chars() {
        v.handle_key_event(ch(c), &s);
    }
    v.handle_key_event(key(KeyCode::Tab), &s);
    for c in "Empty".chars() {
        v.handle_key_event(ch(c), &s);
    }
    let save = KeyEvent::new(KeyCode::Char('S'), KeyModifiers::control());
    assert_eq!(v.handle_key_event(save, &s), Ok(Some(AppEvent::Save)));
    let p = &v.projects.categories[2].projects[0];
    assert_eq!(p.name, "Fresh");
    assert_eq!(p.path, "/work");
    assert_eq!(total(&v), 7);
}

#[test]
fn labels_and_title() {
    let v = get_test_config();
    assert_eq!(v.list_title(), "Projects");
    let labels = v.entry_labels();
    assert_eq!(labels.len(), 9);
    assert_eq!(labels[0], "▼ Uncategorized");
    assert_eq!(labels[1], "  Projektor");
    assert_eq!(labels[7], "▼ Broken");
}

#[test]
fn edit_mode_default_is_browsing() {
    assert!(matches!(EditMode::default(), EditMode::ProjectView));
}

#[test]
fn saving_an_edit_is_delete_then_insert() {
    let s = settings();
    let save = KeyEvent::new(KeyCode::Char('s'), KeyModifiers::control());
    let mut v = get_test_config();
    v.selected = Some(2);
    assert_eq!(v.handle_key_event(ch('e'), &s), Ok(None));
    assert_eq!(v.handle_key_event(ch('!'), &s), Ok(None));
    assert_eq!(v.handle_key_event(save, &s), Ok(Some(AppEvent::Save)));

    let mut w = get_test_config();
    w.selected = Some(2);
    let mut form = {
        let (c, p) = w.get_from_rendered().unwrap();
        projektor::editor::ProjectEditor::from((c, p))
    };
    assert_eq!(form.handle_key_event(ch('!')), None);
    let (cat, proj) = form.into_project();
    assert_eq!(w.del_selected(), Some(()));
    w.insert(proj, cat);
    assert_eq!(v.projects.categories, w.projects.categories);
    assert!(matches!(v.mode, EditMode::ProjectView));
    assert_eq!(v.selected, Some(2));
}
