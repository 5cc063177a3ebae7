//! Plain data shared by every machine: symbols, states, transitions and the
//! knobs that shape a tape.

use vstd::prelude::*;

use crate::tape::single::SingleTape;

verus! {

/// Even if the machine is infinite, we need to set a maximum tape size to
/// prevent the simulator from running indefinitely. This is a reasonable
/// limit for most Turing machine simulations, as it allows us to explore a
/// wide range of configurations without risking infinite loops or excessive
/// memory usage.
///
/// Can be overriden by the user.
pub const MAX_TAPE_SIZE: u16 = 5_000;

/// Similarly, we need to set a maximum number of steps to prevent the
/// simulator from running indefinitely. This is especially important for
/// Turing machines that may not halt, as it allows us to limit the
/// execution time and resources used by the simulator.
///
/// Can be overriden by the user.
pub const MAX_STEPS: u16 = 10_000;

/// Default upper bound on the number of tapes of a multi-tape machine.
pub const N_TAPES: u8 = 4;

/// Default upper bound on the number of heads of a multi-head machine.
pub const N_HEADS: u8 = 4;

/// Represents a symbol on the tape. Using `Option<char>` to allow for a blank
/// as None.
pub type Symbol = Option<char>;

/// What a machine looks at before it acts: its state and the symbol(s) under
/// its head(s).
#[derive(Debug, Clone, Copy, PartialEq, Eq, Hash)]
pub struct Reading<S> {
    pub state: State,
    pub symbol: S,
}

/// What a machine does for a reading: the state it enters, the symbol(s) it
/// writes and the way each head moves.
#[derive(Debug, Clone, Copy, PartialEq, Eq)]
pub struct Action<S, D> {
    pub next_state: State,
    pub write_symbol: S,
    pub direction: D,
}

/// How a head moves after writing.
#[derive(Debug, Clone, Copy, PartialEq, Eq, Structural)]
pub enum Direction {
    Left,
    Right,
    Stay,
}

/// A control state of a machine.
#[derive(Debug, Clone, Copy, PartialEq, Eq, Hash, Structural)]
pub struct State(pub u16);

/// Whether a head may stay in place.
#[derive(Debug, Clone, Copy, PartialEq, Eq, Default, Structural)]
pub enum MoveType {
    /// Classical: every transition moves every head.
    #[default]
    Strict,
    /// `Direction::Stay` is allowed.
    NonStrict,
}

/// The family of tape a machine works on.
#[derive(Debug, Clone, Copy, PartialEq, Eq, Default, Structural)]
pub enum TapeType {
    #[default]
    Single,

    MultiTape,

    MultiHead,
}

/// The end of a semi-infinite tape that holds a wall.
#[derive(Debug, Clone, Copy, PartialEq, Eq, Default, Structural)]
pub enum TapeBoundary {
    #[default]
    Left,

    Right,
}

/// The size of the tape in the model of computation being simulated.
#[derive(Debug, Clone, Copy, PartialEq, Eq, Structural)]
pub enum TapeTheoreticalSize {
    Finite(u16),

    SemiInfinite(TapeBoundary),

    Infinite,
}

/// Alternative spelling of [`TapeTheoreticalSize`].
pub type TapeTheoraticalSize = TapeTheoreticalSize;

impl Default for TapeTheoreticalSize {
    fn default() -> (r: Self)
        ensures
            r == TapeTheoreticalSize::SemiInfinite(TapeBoundary::Left),
    {
        TapeTheoreticalSize::SemiInfinite(TapeBoundary::Left)
    }
}

/// Limits that the simulator enforces whatever the theoretical machine is.
#[derive(Debug, Clone, Copy, PartialEq, Eq, Structural)]
pub struct TrueBounds {
    pub true_tape_size: u16,
    pub max_steps: u16,
    pub max_tapes: u8,
    pub max_heads: u8,
}

impl TrueBounds {
    /// The bounds that a freshly made builder starts with.
    pub open spec fn standard() -> TrueBounds {
        TrueBounds {
            true_tape_size: MAX_TAPE_SIZE,
            max_steps: MAX_STEPS,
            max_tapes: N_TAPES,
            max_heads: N_HEADS,
        }
    }
}

impl Default for TrueBounds {
    fn default() -> (r: Self)
        ensures
            r == TrueBounds::standard(),
    {
        TrueBounds {
            true_tape_size: MAX_TAPE_SIZE,
            max_steps: MAX_STEPS,
            max_tapes: N_TAPES,
            max_heads: N_HEADS,
        }
    }
}

/// What a single-tape step overwrote, enough to take the step back.
#[derive(Debug, Clone, Copy, PartialEq, Eq)]
pub struct TapeDelta {
    pub previous_state: State,
    pub overwritten_symbol: Symbol,
    pub direction_moved: Direction,
}

/// What a multi-tape step overwrote, enough to take the step back.
#[derive(Debug, Clone, Copy, PartialEq, Eq)]
pub struct MultiTapeDelta<const TAPES: usize> {
    pub previous_state: State,
    pub overwritten_symbols: [Symbol; TAPES],
    pub directions_moved: [Direction; TAPES],
}

/// A snapshot of a single-tape machine.
#[derive(Debug, Clone)]
pub struct Configuration {
    pub tape: SingleTape,
    pub current_state: State,
    pub history: Vec<TapeDelta>,
}

} // verus!
