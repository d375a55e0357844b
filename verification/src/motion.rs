//! Motion sensors: the records a transport reports for presence detectors.
//! The engine does not act on them; they are part of the device vocabulary
//! a transport can hand back.

use vstd::prelude::*;

verus! {

/// A motion sensor: a display name and its last-known state.
#[derive(Clone, Debug, PartialEq, Eq)]
pub struct Motion {
    pub name: String,
    pub state: MotionState,
}

/// What a motion sensor reports: whether presence is detected.
#[derive(Clone, Copy, Debug, PartialEq, Eq, Structural)]
pub struct MotionState {
    pub presence: bool,
}

} // verus!
