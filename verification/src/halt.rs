//! The ways in which a machine stops.

use vstd::prelude::*;

use crate::types::Configuration;

verus! {

/// The verdict of a deterministic machine that has stopped.
#[derive(Debug, Clone, Copy, PartialEq, Eq, Structural)]
pub enum HaltingState {
    Accept,
    Reject(HaltingStateReason),
}

/// The verdict of a non-deterministic machine, or the news that it still runs.
#[derive(Debug, Clone)]
pub enum NtmHaltingState {
    Accept(Configuration),
    Reject(HaltingStateReason),
    Running,
}

/// Why a machine rejected.
#[derive(Debug, Clone, Copy, PartialEq, Eq, Structural)]
pub enum HaltingStateReason {
    /// No transition is defined for the current reading.
    NoTransition,
    /// A head tried to move through the wall of a semi-infinite tape.
    HitWall,
    /// The tape reached the size of a finite tape.
    FiniteTapeLimit,
    /// A limit of the simulator, not of the machine, was reached.
    Unexpected(InternalHaltingStateReason),
}

/// Limits of the simulator that stop a machine.
#[derive(Debug, Clone, Copy, PartialEq, Eq, Structural)]
pub enum InternalHaltingStateReason {
    ExceededMaxSteps,
    ExceededMaxTapeSize,
    ExceededMaxTapes,
    /// A strict machine asked a head to stay in place.
    InvalidTransition,
}

} // verus!
