//! The project editor: a form of text fields and a path chooser.

use vstd::prelude::*;

pub mod editor;
pub mod input_fields;

pub use editor::{Fields, ProjectEditor};
pub use input_fields::{MultiLineInput, PathInput, PathInputMode, PathRequest, SingleLineInput};

verus! {

/// What the editor asks of its owner.
#[derive(Clone, Copy, Debug, PartialEq, Eq, Structural)]
pub enum EditorEvent {
    Save,
    Cancel,
}

} // verus!
