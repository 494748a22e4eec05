//! Core of a grid-world robot-vacuum simulation: procedural level
//! generation, robot pose and action transitions, collision detection,
//! reward accounting, and a fixed-size numeric state encoding.
//!
//! Rewards are exact hundredths, carried as `i64` counts of 0.01 units,
//! so that reward arithmetic can be verified without floating point.

use vstd::prelude::*;

pub mod encoder;
pub mod engine;
pub mod footprint;
pub mod gen;
mod rng;
pub mod room;

pub use encoder::{SIZE_ACTION, SIZE_STATE};
pub use room::Room;

verus! {

/// The closed set of commands a robot accepts.
#[derive(PartialEq, Eq, Structural, Clone, Copy, Debug)]
pub enum Action {
    FORWARD,
    REVERSE,
    L,
    R,
    SUCK,
}

/// Maps a numeric action code to an `Action`; out-of-range codes
/// deterministically fall back to `FORWARD`.
pub fn i_to_act(i: usize) -> (a: Action)
    ensures
        a == (match i {
            0usize => Action::FORWARD,
            1usize => Action::REVERSE,
            2usize => Action::L,
            3usize => Action::R,
            4usize => Action::SUCK,
            _ => Action::FORWARD,
        }),
{
    match i {
        0 => Action::FORWARD,
        1 => Action::REVERSE,
        2 => Action::L,
        3 => Action::R,
        4 => Action::SUCK,
        _ => Action::FORWARD,
    }
}

} // verus!
