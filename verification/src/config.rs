//! The configuration: the categories of projects and the settings.

use vstd::prelude::*;

pub use crate::persistence::{Category, Project};

verus! {

/// Everything that is stored.
#[derive(Debug)]
pub struct Config {
    pub categories: Vec<Category>,
    pub settings: Settings,
}

/// The settings: where new projects start, and where the configuration is stored.
#[derive(Debug)]
pub struct Settings {
    pub default_folder: Option<String>,
    pub config_path: String,
}

impl Config {
    /// The configuration of a file that does not exist yet: no categories and
    /// no default folder.
    pub fn empty(config_path: String) -> (r: Config)
        ensures
            r.categories@.len() == 0,
            r.settings.default_folder is None,
            r.settings.config_path == config_path,
    {
        Config { categories: Vec::new(), settings: Settings { default_folder: None, config_path } }
    }
}

impl Clone for Settings {
    fn clone(&self) -> (r: Self)
        ensures
            crate::persistence::opt_view(r.default_folder) == crate::persistence::opt_view(
                self.default_folder,
            ),
            r.config_path@ == self.config_path@,
    {
        Settings {
            default_folder: crate::persistence::copy_opt(&self.default_folder),
            config_path: self.config_path.clone(),
        }
    }
}

} // verus!
