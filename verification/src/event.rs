//! What the project list asks of the application.

use vstd::prelude::*;

verus! {

/// A request from the project list to the application.
#[derive(Clone, Copy, Debug, PartialEq, Eq, Structural)]
pub enum AppEvent {
    /// Leave without choosing a project.
    Quit,
    /// Leave, handing out the path of the selected project.
    QuitWithSelected,
    NextTab,
    PrevTab,
    /// Store the configuration.
    Save,
}

} // verus!
