//! Deterministic Turing machines on one tape, on several tapes and on one
//! tape with several heads, stepped one transition at a time with bounded
//! resources and with every step undoable.

pub mod error;
pub mod halt;
pub mod machine;
pub mod table;
pub mod tape;
pub mod types;

pub use error::BuildingError;
pub use halt::{HaltingState, HaltingStateReason, InternalHaltingStateReason, NtmHaltingState};
pub use machine::deterministic::multi::{MultiTapeDTM, MultiTapeDTMBuilder};
pub use machine::headd::{MultiHeadDTM, MultiHeadDTMBuilder};
pub use machine::non_deterministic::{
    MultiHeadNTM, MultiHeadNTMBuilder, MultiTapeNTM, MultiTapeNTMBuilder, SingleTapeNTM,
    SingleTapeNTMBuilder,
};
pub use machine::singled::{SingleTapeDTM, SingleTapeDTMBuilder};
pub use machine::{Builder, Computable};
pub use tape::head::MultiHeadTape;
pub use tape::multi::MultiTape;
pub use tape::single::SingleTape;
pub use types::{
    Action, Configuration, Direction, MoveType, MultiTapeDelta, Reading, State, Symbol,
    TapeBoundary, TapeDelta, TapeTheoraticalSize, TapeTheoreticalSize, TapeType, TrueBounds,
    MAX_STEPS, MAX_TAPE_SIZE, N_HEADS, N_TAPES,
};
