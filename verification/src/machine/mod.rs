//! The machines and the two traits they share: stepping a machine and
//! building one.

use vstd::prelude::*;

use crate::{error::BuildingError, halt::HaltingState};

pub mod deterministic;
pub mod headd;
pub mod non_deterministic;
pub mod singled;

verus! {

/// A machine that can be stepped, run to a verdict, taken back a step and
/// reset to where it started.
pub trait Computable {
    /// What every operation keeps true of the machine.
    spec fn well_formed(&self) -> bool;

    /// How many more steps the machine may take before its step limit stops it.
    spec fn steps_left(&self) -> nat;

    /// What a step from this configuration gives: `None` when the machine
    /// moves on, its verdict when it stops here.
    spec fn verdict(&self) -> Option<HaltingState>;

    /// The verdict that stepping from this configuration ends with.
    spec fn outcome(&self) -> HaltingState;

    /// Runs the Turing machine until it halts, returning the halting state:
    /// the verdict that stepping from the start ends with, given in the
    /// configuration where the machine is left.
    fn run(&mut self) -> (r: HaltingState)
        requires
            old(self).well_formed(),
        ensures
            final(self).well_formed(),
            r == old(self).outcome(),
            final(self).verdict() == Some(r),
    {
        loop
            invariant
                self.well_formed(),
                self.outcome() == old(self).outcome(),
            decreases self.steps_left(),
        {
            if let Some(halt_state) = self.run_once() {
                return halt_state;
            }
        }
    }

    /// Takes one step; `None` when the machine moved and may go on, the
    /// verdict when it stopped.
    fn run_once(&mut self) -> (r: Option<HaltingState>)
        requires
            old(self).well_formed(),
        ensures
            final(self).well_formed(),
            r == old(self).verdict(),
            r is None ==> final(self).steps_left() < old(self).steps_left(),
            r is None ==> final(self).outcome() == old(self).outcome(),
            r matches Some(h) ==> old(self).outcome() == h && final(self).verdict() == r,
    ;

    /// The verdict that the machine's limits and accepting states impose
    /// before any transition is looked up, if any.
    fn check_bounds(&self) -> (r: Option<HaltingState>);

    /// Puts the machine back in its initial configuration.
    fn reset(&mut self)
        requires
            old(self).well_formed(),
        ensures
            final(self).well_formed(),
    ;

    /// Takes back the last step, if any.
    fn back(&mut self)
        requires
            old(self).well_formed(),
        ensures
            final(self).well_formed(),
    ;
}

/// Something that makes a machine once it has been given what it needs.
pub trait Builder {
    /// The machine that comes out.
    type Machine: Computable;

    /// An empty builder: what `Default::default` gives.
    fn new() -> (r: Self) where Self: Sized + Default
        ensures
            call_ensures(Self::default, (), r),
    {
        Self::default()
    }

    /// The machine, or what is missing to make it.
    fn build(&mut self) -> Result<Self::Machine, BuildingError> where Self: Sized;
}

} // verus!
