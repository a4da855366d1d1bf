use projektor::app::{App, AppState, Popup, Tab};
use projektor::config::{Config, Settings};
use projektor::event::AppEvent;
use projektor::keys::{KeyCode, KeyEvent};
use projektor::persistence::Category;
use projektor::test_config::get_test_config;
use projektor::utils::{tag_colors, TagColor};

fn app() -> App {
    let categories: Vec<Category> = get_test_config().projects.categories;
    App::new(Config { categories, settings: Settings { default_folder: None, config_path: "c.toml".to_string() } })
}

#[test]
fn new_app_runs_on_projects() {
    let a = app();
    assert!(matches!(a.state, AppState::Running));
    assert_eq!(a.tab, Tab::Projects);
    assert!(a.popups.is_empty());
    assert_eq!(a.projects.projects.categories.len(), 4);
    assert!(matches!(AppState::default(), AppState::Running));
}

#[test]
fn keys_dismiss_popups_and_errors_pop_up() {
    let mut a = app();
    assert_eq!(a.handle_key_event(KeyEvent::plain(KeyCode::Char('e'))), None);
    assert_eq!(a.popups.len(), 1);
    assert!(matches!(&a.popups[0], Popup::Error(m) if m == "Nothing Selected"));
    assert_eq!(a.handle_key_event(KeyEvent::plain(KeyCode::Char('q'))), Some(AppEvent::Quit));
    assert!(a.popups.is_empty());
    a.tab = Tab::Settings;
    a.error_popup("x".to_string());
    assert_eq!(a.handle_key_event(KeyEvent::plain(KeyCode::Char('q'))), None);
    assert!(a.popups.is_empty());
}

#[test]
fn quitting() {
    let mut a = app();
    assert!(!a.handle_app_event(AppEvent::QuitWithSelected));
    assert!(matches!(a.state, AppState::Exit));
    let mut b = app();
    b.projects.selected = Some(3);
    b.handle_app_event(AppEvent::QuitWithSelected);
    assert!(matches!(&b.state, AppState::Result(p) if p == "/home/fgassmann/Projects/Upstream/ratatui"));
    let mut c = app();
    assert!(!c.handle_app_event(AppEvent::NextTab));
    assert!(matches!(c.state, AppState::Running));
    assert!(!c.handle_app_event(AppEvent::Quit));
    assert!(matches!(c.state, AppState::Exit));
}

#[test]
fn save_event_asks_to_store() {
    let mut a = app();
    assert!(a.handle_app_event(AppEvent::Save));
    assert!(matches!(a.state, AppState::Running));
    let cfg = a.config();
    assert_eq!(cfg.categories, a.projects.projects.categories);
    assert_eq!(cfg.settings.config_path, "c.toml");
}

fn expected(tag: &str) -> (TagColor, TagColor) {
    let hash = tag.bytes().fold(0, |acc: u16, b| acc.wrapping_add(b as u16)) % 5;
    match hash {
        0 => (TagColor::Magenta, TagColor::White),
        1 => (TagColor::Green, TagColor::Black),
        2 => (TagColor::Yellow, TagColor::White),
        3 => (TagColor::Blue, TagColor::Black),
        _ => (TagColor::White, TagColor::Black),
    }
}

#[test]
fn tag_colours_follow_the_byte_sum() {
    assert_eq!(tag_colors(""), (TagColor::Magenta, TagColor::White));
    assert_eq!(tag_colors("a"), (TagColor::Yellow, TagColor::White));
    let long: String = std::iter::repeat('ÿ').take(400).collect();
    for t in ["Tui", "Rust", "Ricing", "Wayland", "äöü", long.as_str()] {
        assert_eq!(tag_colors(t), expected(t), "{t}");
    }
}

#[test]
fn missing_configuration_is_empty() {
    let c = Config::empty("/tmp/none.toml".to_string());
    assert!(c.categories.is_empty());
    assert_eq!(c.settings.default_folder, None);
    assert_eq!(c.settings.config_path, "/tmp/none.toml");
}

#[test]
fn tag_colours_ignore_byte_order() {
    for (a, b) in [("ab", "ba"), ("Rust", "tsuR"), ("äx", "xä"), ("web dev", "dev web")] {
        assert_eq!(tag_colors(a), tag_colors(b), "{a} {b}");
    }
}
