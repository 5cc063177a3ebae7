//! Non-deterministic machines; they hold nothing yet.

use vstd::prelude::*;

verus! {

/// A non-deterministic single-tape machine.
pub struct SingleTapeNTM {}

/// Builds a [`SingleTapeNTM`].
pub struct SingleTapeNTMBuilder {}

/// A non-deterministic multi-tape machine.
pub struct MultiTapeNTM<const TAPES: usize> {}

/// Builds a [`MultiTapeNTM`].
pub struct MultiTapeNTMBuilder<const TAPES: usize> {}

/// A non-deterministic multi-head machine.
pub struct MultiHeadNTM<const HEADS: usize> {}

/// Builds a [`MultiHeadNTM`].
pub struct MultiHeadNTMBuilder<const HEADS: usize> {}

} // verus!
