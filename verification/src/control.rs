//! Steering-mode state: how player input is currently interpreted.

use vstd::prelude::*;

verus! {

/// The three steering modes: looking around freely, driving the ship, or
/// neither (menus and the like).
#[derive(Clone, Copy, Default, Eq, PartialEq, Debug, Hash)]
pub enum ControllerState {
    FreeLook,
    Driving,
    #[default]
    Inactive,
}

} // verus!
