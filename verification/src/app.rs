//! The application state: what runs, which tab shows, the popups, the project
//! list and the settings.

use vstd::prelude::*;

use crate::config::{Config, Settings};
use crate::datamodel::{view_key_post, view_key_result, ProjectListView, ViewError};
use crate::event::AppEvent;
use crate::keys::KeyEvent;
use crate::persistence::{categories_model, copy_categories, opt_view};

verus! {

/// Whether the application keeps running, and how it ends.
#[derive(Debug)]
pub enum AppState {
    Running,
    Exit,
    /// Ends handing out this text (the path of the chosen project).
    Result(String),
}

impl Default for AppState {
    fn default() -> (r: AppState)
        ensures
            r is Running,
    {
        AppState::Running
    }
}

/// A message shown over the application until the next key.
#[derive(Debug)]
pub enum Popup {
    Error(String),
}

/// The tabs of the application.
#[derive(Clone, Copy, Debug, PartialEq, Eq, Structural)]
pub enum Tab {
    Projects,
    Templates,
    Settings,
}

/// The application.
#[derive(Debug)]
pub struct App {
    pub state: AppState,
    pub tab: Tab,
    pub popups: Vec<Popup>,
    pub projects: ProjectListView,
    pub settings: Settings,
}

/// The popups after a key: the newest one is dismissed.
pub open spec fn dismissed(popups: Seq<Popup>) -> Seq<Popup> {
    if popups.len() > 0 {
        popups.drop_last()
    } else {
        popups
    }
}

/// The result of a key for the application: the event to send, if any.
pub open spec fn sent_event(r: Result<Option<AppEvent>, ViewError>) -> Option<AppEvent> {
    match r {
        Ok(e) => e,
        Err(_) => None,
    }
}

impl App {
    /// An application on a configuration: running, on the projects tab, with
    /// no popup and the project list in browsing mode.
    pub fn new(config: Config) -> (r: App)
        ensures
            r.state is Running,
            r.tab == Tab::Projects,
            r.popups@.len() == 0,
            r.projects.projects.categories == config.categories,
            r.projects.selected is None,
            r.projects.mode is ProjectView,
            r.projects.filter@.len() == 0,
            r.settings == config.settings,
    {
        let Config { categories, settings } = config;
        App {
            state: AppState::Running,
            tab: Tab::Projects,
            popups: Vec::new(),
            projects: ProjectListView::new(categories),
            settings,
        }
    }

    /// The configuration to store: the categories and the settings.
    pub fn config(&self) -> (r: Config)
        ensures
            categories_model(r.categories@) == self.projects.projects@,
            opt_view(r.settings.default_folder) == opt_view(self.settings.default_folder),
            r.settings.config_path@ == self.settings.config_path@,
    {
        Config { categories: copy_categories(&self.projects.projects.categories), settings: self.settings.clone() }
    }

    /// Handles a key: dismisses the newest popup, then on the projects tab lets
    /// the project list handle the key; its error becomes a popup. Returns the
    /// event to send to the application.
    pub fn handle_key_event(&mut self, key_event: KeyEvent) -> (r: Option<AppEvent>)
        ensures
            final(self).state == old(self).state,
            final(self).tab == old(self).tab,
            final(self).settings == old(self).settings,
            old(self).tab == Tab::Projects ==> {
                let res = view_key_result(old(self).projects, key_event);
                &&& view_key_post(old(self).projects, final(self).projects, key_event, old(self).settings, res)
                &&& r == sent_event(res)
                &&& res is Ok ==> final(self).popups@ == dismissed(old(self).popups@)
                &&& res is Err ==> {
                    &&& final(self).popups@.len() == dismissed(old(self).popups@).len() + 1
                    &&& final(self).popups@.drop_last() == dismissed(old(self).popups@)
                    &&& final(self).popups@.last() matches Popup::Error(m)
                    &&& m@ == "Nothing Selected"@
                }
            },
            old(self).tab != Tab::Projects ==> {
                &&& r is None
                &&& final(self).projects == old(self).projects
                &&& final(self).popups@ == dismissed(old(self).popups@)
            },
    {
        if !self.popups.is_empty() {
            self.popups.pop();
        }
        match self.tab {
            Tab::Projects => {
                match self.projects.handle_key_event(key_event, &self.settings) {
                    Ok(e) => e,
                    Err(e) => {
                        self.error_popup(e.message());
                        None
                    },
                }
            },
            _ => None,
        }
    }

    /// Handles an event of the application: quitting ends it (with the path of
    /// the selected project, when asked and one is selected). Returns true
    /// when the configuration should be stored.
    pub fn handle_app_event(&mut self, event: AppEvent) -> (save: bool)
        ensures
            save == (event == AppEvent::Save),
            final(self).tab == old(self).tab,
            final(self).popups == old(self).popups,
            final(self).projects == old(self).projects,
            final(self).settings == old(self).settings,
            event == AppEvent::Quit ==> final(self).state is Exit,
            event == AppEvent::QuitWithSelected ==> match old(self).projects.selected_project() {
                Some((c, i)) => final(self).state matches AppState::Result(p) && p@
                    == old(self).projects.projects@[c].projects[i].path,
                None => final(self).state is Exit,
            },
            event != AppEvent::Quit && event != AppEvent::QuitWithSelected ==> final(self).state
                == old(self).state,
    {
        match event {
            AppEvent::Quit => {
                self.state = AppState::Exit;
                false
            },
            AppEvent::QuitWithSelected => {
                if let Some((_, p)) = self.projects.get_from_rendered() {
                    let path = p.path.clone();
                    proof {
                        let (c, i) = self.projects.selected_project().unwrap();
                        crate::datamodel::lemma_selected_model(self.projects, c, i);
                    }
                    self.state = AppState::Result(path);
                } else {
                    self.state = AppState::Exit;
                }
                false
            },
            AppEvent::Save => true,
            _ => false,
        }
    }

    /// Shows an error message.
    pub fn error_popup(&mut self, message: String)
        ensures
            final(self).popups@ == old(self).popups@.push(Popup::Error(message)),
            final(self).state == old(self).state,
            final(self).tab == old(self).tab,
            final(self).projects == old(self).projects,
            final(self).settings == old(self).settings,
    {
        self.popups.push(Popup::Error(message));
    }
}

} // verus!
