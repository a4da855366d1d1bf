//! A terminal project manager: the data model of the project list, the
//! project editor and the key handling that drives them.

use vstd::prelude::*;

pub mod keys;
pub mod text;
pub mod persistence;
pub mod config;
pub mod textbuf;
pub mod editor;
pub mod event;
pub mod datamodel;
pub mod app;
pub mod cli;
pub mod utils;
pub mod test_config;

verus! {

/// `std::mem::replace` puts `src` in `dest` and returns what was there.
pub assume_specification<T>[ std::mem::replace::<T> ](dest: &mut T, src: T) -> (r: T)
    ensures
        r == *old(dest),
        *final(dest) == src,
;

} // verus!
