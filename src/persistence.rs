//! Markers for the loading of saved entities.

use vstd::prelude::*;

verus! {

/// An entity that currently has this is currently in the process of being loaded
#[derive(Debug, Clone, Copy, PartialEq, Eq, Structural)]
pub struct NeedsLoaded;

/// To add your own loading step, run it after `begin_loading` and before the
/// loading markers are cleared.
pub fn begin_loading() {
}

} // verus!
