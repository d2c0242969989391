//! Application-owned Wayland state.
pub mod model;
pub mod protocol;

use vstd::prelude::*;

verus! {

/// A request on a window.
#[derive(Clone, Copy, Debug, PartialEq, Eq, Structural)]
pub enum ToplevelAction {
    Activate,
    Close,
    Maximize,
}

} // verus!
