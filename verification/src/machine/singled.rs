//! The deterministic single-tape machine and its builder.

use vstd::prelude::*;

use crate::{
    halt::{HaltingState, HaltingStateReason, InternalHaltingStateReason},
    machine::Computable,
    table::{
        insert_absent, insert_all_absent, single_table_contains, single_table_get,
        single_table_insert, SingleTable,
    },
    tape::single::{lemma_shift_is_write_then_move, writes_then_moves, SingleTape, TapeView},
    types::{
        Action, Direction, MoveType, Reading, State, Symbol, TapeBoundary, TapeTheoreticalSize,
        TrueBounds,
    },
};

verus! {

/// Whether `state` occurs in `states`.
pub fn contains_state(states: &Vec<State>, state: State) -> (r: bool)
    ensures
        r == states@.contains(state),
{
    let mut i: usize = 0;
    while i < states.len()
        invariant
            i <= states.len(),
            forall|j: int| 0 <= j < i ==> states@[j] != state,
        decreases states.len() - i,
    {
        if states[i] == state {
            assert(states@[i as int] == state);
            return true;
        }
        i = i + 1;
    }
    false
}

/// The mathematical content of a [`SingleTapeDTMBuilder`].
#[verifier::ext_equal]
pub struct SingleBuilderView {
    pub transitions: Map<Reading<Symbol>, Action<Symbol, Direction>>,
    pub initial_state: Option<State>,
    pub initial_tape: Option<TapeView>,
    pub accepting_states: Seq<State>,
    pub tape: Option<TapeView>,
    pub current_state: Option<State>,
    pub move_type: Option<MoveType>,
    pub tape_size: Option<TapeTheoreticalSize>,
    pub true_bounds: TrueBounds,
}

/// The view of an optional tape.
pub open spec fn tape_view_of(t: Option<SingleTape>) -> Option<TapeView> {
    match t {
        Some(t) => Some(t@),
        None => None,
    }
}

/// Allows building incrementally, which is useful for the UI, where the user
/// will start with an empty machine.
#[derive(Debug, Clone)]
pub struct SingleTapeDTMBuilder {
    transitions: SingleTable,
    initial_state: Option<State>,
    initial_tape: Option<SingleTape>,
    accepting_states: Vec<State>,
    tape: Option<SingleTape>,
    current_state: Option<State>,
    move_type: Option<MoveType>,
    tape_size: Option<TapeTheoreticalSize>,
    true_bounds: TrueBounds,
}

impl View for SingleTapeDTMBuilder {
    type V = SingleBuilderView;

    closed spec fn view(&self) -> SingleBuilderView {
        SingleBuilderView {
            transitions: self.transitions@,
            initial_state: self.initial_state,
            initial_tape: tape_view_of(self.initial_tape),
            accepting_states: self.accepting_states@,
            tape: tape_view_of(self.tape),
            current_state: self.current_state,
            move_type: self.move_type,
            tape_size: self.tape_size,
            true_bounds: self.true_bounds,
        }
    }
}

impl SingleBuilderView {
    /// The view of a builder that has been given nothing yet.
    pub open spec fn empty() -> SingleBuilderView {
        SingleBuilderView {
            transitions: Map::empty(),
            initial_state: None,
            initial_tape: None,
            accepting_states: Seq::empty(),
            tape: None,
            current_state: None,
            move_type: None,
            tape_size: None,
            true_bounds: TrueBounds::standard(),
        }
    }

    /// Everything that `build` needs is there.
    pub open spec fn complete(self) -> bool {
        &&& self.initial_state is Some
        &&& self.initial_tape is Some
        &&& self.move_type is Some
        &&& self.tape_size is Some
    }

    /// The machine that `build` makes of a complete builder: it starts in
    /// the initial state on the initial tape, with no steps taken.
    pub open spec fn machine(self) -> SingleMachineView {
        SingleMachineView {
            transitions: self.transitions,
            initial_state: self.initial_state.unwrap(),
            initial_tape: self.initial_tape.unwrap(),
            accepting_states: self.accepting_states,
            tape: self.initial_tape.unwrap(),
            current_state: self.initial_state.unwrap(),
            move_type: self.move_type.unwrap(),
            tape_size: self.tape_size.unwrap(),
            history: Seq::empty(),
            true_bounds: self.true_bounds,
        }
    }
}

impl Default for SingleTapeDTMBuilder {
    fn default() -> (r: Self)
        ensures
            r@ == SingleBuilderView::empty(),
    {
        Self {
            transitions: SingleTable::default(),
            initial_state: None,
            initial_tape: None,
            accepting_states: Vec::new(),
            tape: None,
            current_state: None,
            move_type: None,
            tape_size: None,
            true_bounds: TrueBounds::default(),
        }
    }
}

impl SingleTapeDTMBuilder {
    /// A builder that has been given nothing yet.
    pub fn new() -> (r: Self)
        ensures
            r@ == SingleBuilderView::empty(),
    {
        Self::default()
    }

    /// The machine, when the initial state, the initial tape, the move type
    /// and the tape size have been given; `None` otherwise.
    pub fn build(self) -> (r: Option<SingleTapeDTM>)
        ensures
            r is Some <==> self@.complete(),
            r matches Some(m) ==> m@ == self@.machine(),
    {
        let initial_state = match self.initial_state {
            Some(s) => s,
            None => return None,
        };
        let initial_tape = match &self.initial_tape {
            Some(t) => t.clone(),
            None => return None,
        };
        let tape = match self.initial_tape {
            Some(t) => t,
            None => return None,
        };
        let move_type = match self.move_type {
            Some(m) => m,
            None => return None,
        };
        let tape_size = match self.tape_size {
            Some(s) => s,
            None => return None,
        };
        Some(
            SingleTapeDTM {
                transitions: self.transitions,
                initial_state,
                initial_tape,
                accepting_states: self.accepting_states,
                tape,
                current_state: initial_state,
                move_type,
                tape_size,
                history: Vec::new(),
                true_bounds: self.true_bounds,
            },
        )
    }

    /// Adds a transition, unless one is already there for the reading: the
    /// first transition given for a reading is the one that stays.
    pub fn insert_transition(
        &mut self,
        reading_state: Reading<Symbol>,
        transition: Action<Symbol, Direction>,
    ) -> (r: &mut Self)
        ensures
            r@ == (SingleBuilderView {
                transitions: insert_absent(old(self)@.transitions, reading_state, transition),
                ..old(self)@
            }),
            final(self)@ == final(r)@,
    {
        if single_table_contains(&self.transitions, &reading_state) {
            return self;
        }
        single_table_insert(&mut self.transitions, reading_state, transition);
        self
    }

    /// Adds each transition in turn, as [`Self::insert_transition`] does.
    pub fn insert_transitions(
        &mut self,
        transitions: Vec<(Reading<Symbol>, Action<Symbol, Direction>)>,
    ) -> (r: &mut Self)
        ensures
            r@ == (SingleBuilderView {
                transitions: insert_all_absent(old(self)@.transitions, transitions@),
                ..old(self)@
            }),
            final(self)@ == final(r)@,
    {
        let ghost start = self@;
        let mut i: usize = 0;
        assert(transitions@.skip(0) =~= transitions@);
        while i < transitions.len()
            invariant
                i <= transitions.len(),
                self@ == (SingleBuilderView {
                    transitions: self@.transitions,
                    ..start
                }),
                insert_all_absent(self@.transitions, transitions@.skip(i as int))
                    == insert_all_absent(start.transitions, transitions@),
            decreases transitions.len() - i,
        {
            let (reading_state, transition) = transitions[i];
            assert(transitions@.skip(i as int).drop_first() =~= transitions@.skip(i + 1));
            if !single_table_contains(&self.transitions, &reading_state) {
                single_table_insert(&mut self.transitions, reading_state, transition);
            }
            i = i + 1;
        }
        self
    }

    /// Sets the initial state.
    pub fn with_initial_state(&mut self, initial_state: State) -> (r: &mut Self)
        ensures
            r@ == (SingleBuilderView {
                initial_state: Some(initial_state),
                current_state: Some(initial_state),
                ..old(self)@
            }),
            final(self)@ == final(r)@,
    {
        self.initial_state = Some(initial_state);
        self.current_state = Some(initial_state);

        self
    }

    /// Sets the initial tape.
    pub fn with_tape(&mut self, initial_tape: SingleTape) -> (r: &mut Self)
        ensures
            r@ == (SingleBuilderView {
                initial_tape: Some(initial_tape@),
                tape: Some(initial_tape@),
                ..old(self)@
            }),
            final(self)@ == final(r)@,
    {
        self.initial_tape = Some(initial_tape.clone());
        self.tape = Some(initial_tape);

        self
    }

    /// Sets the accepting states.
    pub fn with_accepting_states(&mut self, accepting_states: Vec<State>) -> (r: &mut Self)
        ensures
            r@ == (SingleBuilderView { accepting_states: accepting_states@, ..old(self)@ }),
            final(self)@ == final(r)@,
    {
        self.accepting_states = accepting_states;

        self
    }

    /// Sets whether heads may stay in place.
    pub fn with_move_type(&mut self, move_type: MoveType) -> (r: &mut Self)
        ensures
            r@ == (SingleBuilderView { move_type: Some(move_type), ..old(self)@ }),
            final(self)@ == final(r)@,
    {
        self.move_type = Some(move_type);

        self
    }

    /// Sets the theoretical size of the tape.
    pub fn with_tape_size(&mut self, tape_size: TapeTheoreticalSize) -> (r: &mut Self)
        ensures
            r@ == (SingleBuilderView { tape_size: Some(tape_size), ..old(self)@ }),
            final(self)@ == final(r)@,
    {
        self.tape_size = Some(tape_size);

        self
    }

    /// Sets the limits of the simulator.
    pub fn with_bounds(&mut self, bounds: TrueBounds) -> (r: &mut Self)
        ensures
            r@ == (SingleBuilderView { true_bounds: bounds, ..old(self)@ }),
            final(self)@ == final(r)@,
    {
        self.true_bounds = bounds;

        self
    }
}

/// The mathematical content of a [`SingleTapeDTM`].
#[verifier::ext_equal]
pub struct SingleMachineView {
    pub transitions: Map<Reading<Symbol>, Action<Symbol, Direction>>,
    pub initial_state: State,
    pub initial_tape: TapeView,
    pub accepting_states: Seq<State>,
    pub tape: TapeView,
    pub current_state: State,
    pub move_type: MoveType,
    pub tape_size: TapeTheoreticalSize,
    /// The configurations before each step taken, oldest first.
    pub history: Seq<(TapeView, State)>,
    pub true_bounds: TrueBounds,
}

impl SingleMachineView {
    /// The verdict that the accepting states and the limits impose before a
    /// transition is looked up: accept in an accepting state, otherwise
    /// reject once the step limit is used up, once the tape is larger than
    /// the simulator allows, or once it reaches the size of a finite tape.
    pub open spec fn bounds_verdict(self) -> Option<HaltingState> {
        if self.accepting_states.contains(self.current_state) {
            Some(HaltingState::Accept)
        } else if self.history.len() >= self.true_bounds.max_steps {
            Some(
                HaltingState::Reject(
                    HaltingStateReason::Unexpected(InternalHaltingStateReason::ExceededMaxSteps),
                ),
            )
        } else if self.tape.size() > self.true_bounds.true_tape_size {
            Some(
                HaltingState::Reject(
                    HaltingStateReason::Unexpected(InternalHaltingStateReason::ExceededMaxTapeSize),
                ),
            )
        } else if self.tape_size matches TapeTheoreticalSize::Finite(max_limit) && self.tape.size()
            >= max_limit {
            Some(HaltingState::Reject(HaltingStateReason::FiniteTapeLimit))
        } else {
            None
        }
    }

    /// The current state and the symbol under the head.
    pub open spec fn reading(self) -> Reading<Symbol> {
        Reading { state: self.current_state, symbol: self.tape.head }
    }

    /// The machine after taking `a`: the old configuration goes on the
    /// history, the tape is written and moved, the state changes.
    pub open spec fn advanced(self, a: Action<Symbol, Direction>) -> SingleMachineView {
        SingleMachineView {
            tape: self.tape.shifted(a.write_symbol, a.direction),
            current_state: a.next_state,
            history: self.history.push((self.tape, self.current_state)),
            ..self
        }
    }

    /// One step: the verdict, if the machine stops, and the machine after
    /// the step. A machine that stops is left as it was.
    pub open spec fn step(self) -> (Option<HaltingState>, SingleMachineView) {
        if self.bounds_verdict() is Some {
            (self.bounds_verdict(), self)
        } else if !self.transitions.contains_key(self.reading()) {
            (Some(HaltingState::Reject(HaltingStateReason::NoTransition)), self)
        } else {
            let a = self.transitions[self.reading()];
            if self.tape.hits_wall(a.direction, self.tape_size) {
                (Some(HaltingState::Reject(HaltingStateReason::HitWall)), self)
            } else if a.direction == Direction::Stay && self.move_type == MoveType::Strict {
                (
                    Some(
                        HaltingState::Reject(
                            HaltingStateReason::Unexpected(
                                InternalHaltingStateReason::InvalidTransition,
                            ),
                        ),
                    ),
                    self,
                )
            } else {
                (None, self.advanced(a))
            }
        }
    }

    /// The machine with its last step taken back; unchanged with no history.
    pub open spec fn undone(self) -> SingleMachineView {
        if self.history.len() == 0 {
            self
        } else {
            SingleMachineView {
                tape: self.history.last().0,
                current_state: self.history.last().1,
                history: self.history.drop_last(),
                ..self
            }
        }
    }

    /// The machine back in its initial configuration with no history.
    pub open spec fn restarted(self) -> SingleMachineView {
        SingleMachineView {
            tape: self.initial_tape,
            current_state: self.initial_state,
            history: Seq::empty(),
            ..self
        }
    }

    /// Steps that the step limit still allows.
    pub open spec fn steps_left(self) -> nat {
        if self.history.len() <= self.true_bounds.max_steps {
            (self.true_bounds.max_steps - self.history.len()) as nat
        } else {
            0
        }
    }

    /// The verdict of a run, and the configuration in which the run stopped.
    pub open spec fn run_outcome(self) -> (HaltingState, SingleMachineView)
        decreases self.steps_left(),
    {
        let (verdict, next) = self.step();
        match verdict {
            Some(h) => (h, self),
            None => next.run_outcome(),
        }
    }
}

/// A deterministic Turing machine on one tape.
pub struct SingleTapeDTM {
    transitions: SingleTable,
    initial_state: State,
    initial_tape: SingleTape,
    accepting_states: Vec<State>,
    tape: SingleTape,
    current_state: State,
    move_type: MoveType,
    tape_size: TapeTheoreticalSize,
    history: Vec<(SingleTape, State)>,
    true_bounds: TrueBounds,
}

/// The views of the configurations on a history.
pub open spec fn history_view(h: Seq<(SingleTape, State)>) -> Seq<(TapeView, State)> {
    h.map_values(|p: (SingleTape, State)| (p.0@, p.1))
}

impl View for SingleTapeDTM {
    type V = SingleMachineView;

    closed spec fn view(&self) -> SingleMachineView {
        SingleMachineView {
            transitions: self.transitions@,
            initial_state: self.initial_state,
            initial_tape: self.initial_tape@,
            accepting_states: self.accepting_states@,
            tape: self.tape@,
            current_state: self.current_state,
            move_type: self.move_type,
            tape_size: self.tape_size,
            history: history_view(self.history@),
            true_bounds: self.true_bounds,
        }
    }
}

impl SingleTapeDTM {
    /// The state the machine is in.
    pub fn current_state(&self) -> (r: State)
        ensures
            r == self@.current_state,
    {
        self.current_state
    }

    /// The tape as it is now.
    pub fn tape(&self) -> (r: &SingleTape)
        ensures
            r@ == self@.tape,
    {
        &self.tape
    }

    /// The number of steps taken and not taken back.
    pub fn steps_taken(&self) -> (r: usize)
        ensures
            r == self@.history.len(),
    {
        self.history.len()
    }
}

impl Computable for SingleTapeDTM {
    open spec fn well_formed(&self) -> bool {
        true
    }

    open spec fn steps_left(&self) -> nat {
        self@.steps_left()
    }

    open spec fn verdict(&self) -> Option<HaltingState> {
        self@.step().0
    }

    open spec fn outcome(&self) -> HaltingState {
        self@.run_outcome().0
    }

    fn check_bounds(&self) -> (r: Option<HaltingState>)
        ensures
            r == self@.bounds_verdict(),
    {
        if contains_state(&self.accepting_states, self.current_state) {
            return Some(HaltingState::Accept);
        }
        if self.history.len() >= self.true_bounds.max_steps as usize {
            return Some(
                HaltingState::Reject(
                    HaltingStateReason::Unexpected(InternalHaltingStateReason::ExceededMaxSteps),
                ),
            );
        }
        let current_size = self.tape.left.len().saturating_add(self.tape.right.len()).saturating_add(
            1,
        );
        if current_size > self.true_bounds.true_tape_size as usize {
            return Some(
                HaltingState::Reject(
                    HaltingStateReason::Unexpected(InternalHaltingStateReason::ExceededMaxTapeSize),
                ),
            );
        }
        if let TapeTheoreticalSize::Finite(max_limit) = self.tape_size {
            if current_size >= max_limit as usize {
                return Some(HaltingState::Reject(HaltingStateReason::FiniteTapeLimit));
            }
        }
        None
    }

    fn run_once(&mut self) -> (r: Option<HaltingState>)
        ensures
            (r, final(self)@) == old(self)@.step(),
    {
        if let Some(verdict) = self.check_bounds() {
            return Some(verdict);
        }
        let current_symbol = self.tape.read();
        let reading_state = Reading { state: self.current_state, symbol: current_symbol };

        if let Some(transition) = single_table_get(&self.transitions, &reading_state) {
            let (new_state, new_symbol, direction) = (
                transition.next_state,
                transition.write_symbol,
                transition.direction,
            );
            let ghost before = self@;
            self.history.push((self.tape.clone(), self.current_state));
            assert(history_view(self.history@) =~= before.history.push((before.tape, before.current_state)));

            match direction {
                Direction::Left => {
                    if self.tape.left.len() == 0 {
                        if self.tape_size == TapeTheoreticalSize::SemiInfinite(TapeBoundary::Left) {
                            self.history.pop();
                            assert(history_view(self.history@) =~= before.history);
                            return Some(HaltingState::Reject(HaltingStateReason::HitWall));
                        }
                    }
                    self.tape.shift(new_symbol, direction);
                    self.current_state = new_state;
                    return None;
                },
                Direction::Right => {
                    if self.tape.right.len() == 0 {
                        if self.tape_size == TapeTheoreticalSize::SemiInfinite(TapeBoundary::Right) {
                            self.history.pop();
                            assert(history_view(self.history@) =~= before.history);
                            return Some(HaltingState::Reject(HaltingStateReason::HitWall));
                        }
                    }
                    self.tape.shift(new_symbol, direction);
                    self.current_state = new_state;
                    return None;
                },
                Direction::Stay => {
                    if self.move_type == MoveType::Strict {
                        self.history.pop();
                        assert(history_view(self.history@) =~= before.history);
                        return Some(
                            HaltingState::Reject(
                                HaltingStateReason::Unexpected(
                                    InternalHaltingStateReason::InvalidTransition,
                                ),
                            ),
                        );
                    }
                    self.tape.shift(new_symbol, direction);
                    self.current_state = new_state;
                    return None;
                },
            }
        }
        Some(HaltingState::Reject(HaltingStateReason::NoTransition))
    }

    fn run(&mut self) -> (r: HaltingState)
        ensures
            (r, final(self)@) == old(self)@.run_outcome(),
    {
        loop
            invariant
                self@.run_outcome() == old(self)@.run_outcome(),
            decreases self@.steps_left(),
        {
            let ghost before = self@;
            if let Some(halt_state) = self.run_once() {
                return halt_state;
            }
            assert(before.step().0 is None);
        }
    }

    #[inline]
    fn reset(&mut self)
        ensures
            final(self)@ == old(self)@.restarted(),
    {
        self.tape = self.initial_tape.clone();
        self.current_state = self.initial_state;
        self.history.clear();
        assert(history_view(self.history@) =~= Seq::empty());
    }

    #[inline]
    fn back(&mut self)
        ensures
            final(self)@ == old(self)@.undone(),
    {
        let ghost before = self@;
        if let Some((tape, state)) = self.history.pop() {
            assert(history_view(self.history@) =~= before.history.drop_last());
            self.tape = tape;
            self.current_state = state;
        }
    }
}

/// Taking back a step that the machine took returns it to exactly where it
/// was: `run_once` followed by `back` is the identity on a machine that moved.
pub proof fn lemma_back_undoes_step(v: SingleMachineView)
    requires
        v.step().0 is None,
    ensures
        v.step().1.undone() == v,
{
    let n = v.step().1;
    assert(n.history.drop_last() =~= v.history);
}

/// A step that stops the machine leaves it unchanged.
pub proof fn lemma_stop_changes_nothing(v: SingleMachineView)
    requires
        v.step().0 is Some,
    ensures
        v.step().1 == v,
{
}

/// A machine in an accepting state accepts at once, whatever its limits.
pub proof fn lemma_accepting_state_accepts(v: SingleMachineView)
    requires
        v.accepting_states.contains(v.current_state),
    ensures
        v.step() == (Some(HaltingState::Accept), v),
{
}

/// A step that goes on records exactly one configuration and uses one unit
/// of the step limit; the transitions, the initial configuration, the
/// accepting states and the limits never change.
pub proof fn lemma_step_uses_one_step(v: SingleMachineView)
    requires
        v.step().0 is None,
    ensures
        v.step().1.history == v.history.push((v.tape, v.current_state)),
        v.step().1.steps_left() + 1 == v.steps_left(),
        v.step().1.transitions == v.transitions,
        v.step().1.initial_state == v.initial_state,
        v.step().1.initial_tape == v.initial_tape,
        v.step().1.accepting_states == v.accepting_states,
        v.step().1.true_bounds == v.true_bounds,
{
}

/// Resetting forgets every step: a machine reset after a step, or after a
/// step taken back, is the machine reset before it, and resetting twice is
/// resetting once.
pub proof fn lemma_reset_forgets_steps(v: SingleMachineView)
    ensures
        v.step().1.restarted() == v.restarted(),
        v.undone().restarted() == v.restarted(),
        v.restarted().restarted() == v.restarted(),
{
}

/// Running ends in a configuration whose step gives the verdict that the run
/// returned, reached from the start by steps: the history only grew, and by
/// no more than the step limit allowed.
pub proof fn lemma_run_stops_where_step_stops(v: SingleMachineView)
    ensures
        ({
            let (h, w) = v.run_outcome();
            &&& w.step() == (Some(h), w)
            &&& v.history.len() <= w.history.len() <= v.history.len() + v.steps_left()
            &&& w.history.subrange(0, v.history.len() as int) == v.history
            &&& w.transitions == v.transitions
            &&& w.initial_state == v.initial_state
            &&& w.initial_tape == v.initial_tape
            &&& w.true_bounds == v.true_bounds
        }),
    decreases v.steps_left(),
{
    let (verdict, next) = v.step();
    if verdict is None {
        lemma_run_stops_where_step_stops(next);
        let w = next.run_outcome().1;
        assert(w.history.subrange(0, v.history.len() as int) =~= w.history.subrange(
            0,
            next.history.len() as int,
        ).subrange(0, v.history.len() as int));
        assert(next.history.subrange(0, v.history.len() as int) =~= v.history);
    } else {
        assert(v.history.subrange(0, v.history.len() as int) =~= v.history);
    }
}

/// A step that goes on follows the transition for the current state and the
/// symbol under the head: it writes that transition's symbol in the head's
/// cell, moves the head one cell its way and enters its next state.
pub proof fn lemma_step_follows_transition(v: SingleMachineView)
    requires
        v.step().0 is None,
    ensures
        v.transitions.contains_key(Reading { state: v.current_state, symbol: v.tape.head }),
        ({
            let a = v.transitions[Reading { state: v.current_state, symbol: v.tape.head }];
            &&& writes_then_moves(v.tape, v.step().1.tape, a.write_symbol, a.direction)
            &&& v.step().1.current_state == a.next_state
        }),
{
    let a = v.transitions[v.reading()];
    lemma_shift_is_write_then_move(v.tape, a.write_symbol, a.direction);
}

/// A step hits a wall exactly when the limits let it look up a transition,
/// there is one, and it moves the head off the end of the tape on the side
/// where a semi-infinite tape has its wall; a move away from the wall, or on
/// a tape with no wall, never hits one.
pub proof fn lemma_wall_only_on_walled_side(v: SingleMachineView)
    ensures
        v.step().0 == Some(HaltingState::Reject(HaltingStateReason::HitWall)) <==> ({
            let r = Reading { state: v.current_state, symbol: v.tape.head };
            &&& v.bounds_verdict() is None
            &&& v.transitions.contains_key(r)
            &&& {
                let d = v.transitions[r].direction;
                ||| d == Direction::Left && v.tape_size == TapeTheoreticalSize::SemiInfinite(
                    TapeBoundary::Left,
                ) && v.tape.position() == 0
                ||| d == Direction::Right && v.tape_size == TapeTheoreticalSize::SemiInfinite(
                    TapeBoundary::Right,
                ) && v.tape.position() == v.tape.contents().len() - 1
            }
        }),
{
}

/// Resetting puts the machine in its initial state on its initial tape with
/// no history, keeping everything it was built with; a machine fresh from
/// its builder is already reset.
pub proof fn lemma_reset_restores_start(v: SingleMachineView, b: SingleBuilderView)
    ensures
        v.restarted().current_state == v.initial_state,
        v.restarted().tape == v.initial_tape,
        v.restarted().history.len() == 0,
        v.restarted().transitions == v.transitions,
        v.restarted().accepting_states == v.accepting_states,
        v.restarted().move_type == v.move_type,
        v.restarted().tape_size == v.tape_size,
        v.restarted().true_bounds == v.true_bounds,
        b.complete() ==> b.machine().restarted() == b.machine(),
        b.complete() ==> b.machine().current_state == b.initial_state.unwrap(),
{
}

} // verus!
