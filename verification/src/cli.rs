//! The command line.

use vstd::prelude::*;

verus! {

/// The command-line arguments: an optional path to the configuration file.
#[derive(Debug)]
pub struct Args {
    pub config: Option<String>,
}

} // verus!
