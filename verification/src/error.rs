//! Why a builder cannot make a machine.

use vstd::prelude::*;

verus! {

/// What a builder lacks, or holds wrongly, to make a machine.
#[derive(Debug, Clone, Copy, PartialEq, Eq, Structural)]
pub enum BuildingError {
    MissingInitialState,
    MissingInitialTape,
    MissingMoveType,
    MissingTapeSize,
    MissingAcceptingStates,
    MissingTransitions,
    InvalidTransition,
}

} // verus!
