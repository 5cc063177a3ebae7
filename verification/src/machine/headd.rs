//! The deterministic multi-head machine and its builder.

use vstd::prelude::*;

use crate::{
    halt::{HaltingState, HaltingStateReason, InternalHaltingStateReason},
    machine::{deterministic::multi::array_of, singled::contains_state, Computable},
    table::{
        array_table_contains, array_table_get, array_table_insert, insert_absent,
        insert_all_absent, ArrayTable,
    },
    tape::head::{lemma_written_keeps_shape, HeadTapeView, MultiHeadTape},
    types::{
        Action, Direction, MoveType, Reading, State, Symbol, TapeBoundary, TapeTheoreticalSize,
        TrueBounds,
    },
};

verus! {

/// The tape after heads `0..k` moved as `dirs` asks, one after the other,
/// or the verdict of the first head that may not move: the wall of a
/// semi-infinite tape, or a strict machine asked to stay.
pub open spec fn move_heads(
    t: HeadTapeView,
    dirs: Seq<Direction>,
    tape_size: TapeTheoreticalSize,
    strict: bool,
    k: nat,
) -> Result<HeadTapeView, HaltingState>
    decreases k,
{
    if k == 0 {
        Ok(t)
    } else {
        match move_heads(t, dirs, tape_size, strict, (k - 1) as nat) {
            Err(e) => Err(e),
            Ok(u) => if u.move_blocked(k - 1, dirs[k - 1], tape_size, strict) {
                if dirs[k - 1] == Direction::Stay {
                    Err(
                        HaltingState::Reject(
                            HaltingStateReason::Unexpected(
                                InternalHaltingStateReason::InvalidTransition,
                            ),
                        ),
                    )
                } else {
                    Err(HaltingState::Reject(HaltingStateReason::HitWall))
                }
            } else {
                Ok(u.moved(k - 1, dirs[k - 1]))
            },
        }
    }
}

/// Once a head among the first `k` may not move, its verdict is the
/// verdict for any longer prefix.
pub proof fn lemma_move_heads_error_sticks(
    t: HeadTapeView,
    dirs: Seq<Direction>,
    tape_size: TapeTheoreticalSize,
    strict: bool,
    k: nat,
    m: nat,
)
    requires
        k <= m,
        move_heads(t, dirs, tape_size, strict, k) is Err,
    ensures
        move_heads(t, dirs, tape_size, strict, m) == move_heads(t, dirs, tape_size, strict, k),
    decreases m,
{
    if k < m {
        lemma_move_heads_error_sticks(t, dirs, tape_size, strict, k, (m - 1) as nat);
    }
}

/// A tape that a machine with `heads` heads may run on for `steps` more
/// steps: every head is on the tape, and the offset has room for a blank
/// cell put in front by every head on every step.
pub open spec fn head_tape_fits(t: HeadTapeView, heads: int, steps: int) -> bool {
    &&& t.head_positions.len() == heads
    &&& t.heads_in_bounds()
    &&& t.offset >= isize::MIN + heads * steps
}

/// The mathematical content of a [`MultiHeadDTMBuilder`].
#[verifier::ext_equal]
#[verifier::reject_recursive_types(HEADS)]
pub struct HeadBuilderView<const HEADS: usize> {
    pub transitions: Map<Reading<[Symbol; HEADS]>, Action<[Symbol; HEADS], [Direction; HEADS]>>,
    pub initial_state: Option<State>,
    pub initial_tape: Option<HeadTapeView>,
    pub accepting_states: Seq<State>,
    pub tape: Option<HeadTapeView>,
    pub current_state: Option<State>,
    pub move_type: Option<MoveType>,
    pub tape_size: Option<TapeTheoreticalSize>,
    pub true_bounds: TrueBounds,
}

/// The view of an optional tape.
pub open spec fn head_tape_view_of<const HEADS: usize>(t: Option<MultiHeadTape<HEADS>>) -> Option<
    HeadTapeView,
> {
    match t {
        Some(t) => Some(t@),
        None => None,
    }
}

/// Builds a [`MultiHeadDTM`] step by step.
pub struct MultiHeadDTMBuilder<const HEADS: usize> {
    transitions: ArrayTable<HEADS>,
    initial_state: Option<State>,
    initial_tape: Option<MultiHeadTape<HEADS>>,
    accepting_states: Vec<State>,
    tape: Option<MultiHeadTape<HEADS>>,
    current_state: Option<State>,
    move_type: Option<MoveType>,
    tape_size: Option<TapeTheoreticalSize>,
    true_bounds: TrueBounds,
}

impl<const HEADS: usize> View for MultiHeadDTMBuilder<HEADS> {
    type V = HeadBuilderView<HEADS>;

    closed spec fn view(&self) -> HeadBuilderView<HEADS> {
        HeadBuilderView {
            transitions: self.transitions@,
            initial_state: self.initial_state,
            initial_tape: head_tape_view_of(self.initial_tape),
            accepting_states: self.accepting_states@,
            tape: head_tape_view_of(self.tape),
            current_state: self.current_state,
            move_type: self.move_type,
            tape_size: self.tape_size,
            true_bounds: self.true_bounds,
        }
    }
}

impl<const HEADS: usize> HeadBuilderView<HEADS> {
    /// The view of a builder that has been given nothing yet.
    pub open spec fn empty() -> HeadBuilderView<HEADS> {
        HeadBuilderView {
            transitions: Map::empty(),
            initial_state: None,
            initial_tape: None,
            accepting_states: Seq::empty(),
            tape: None,
            current_state: None,
            move_type: None,
            tape_size: None,
            true_bounds: TrueBounds::standard(),
        }
    }

    /// Everything that `build` needs is there.
    pub open spec fn complete(self) -> bool {
        &&& self.initial_state is Some
        &&& self.initial_tape is Some
        &&& self.move_type is Some
        &&& self.tape_size is Some
    }

    /// The machine that `build` makes of a complete builder: it starts in
    /// the initial state on the initial tape, with no steps taken.
    pub open spec fn machine(self) -> HeadMachineView<HEADS> {
        HeadMachineView {
            transitions: self.transitions,
            initial_state: self.initial_state.unwrap(),
            initial_tape: self.initial_tape.unwrap(),
            accepting_states: self.accepting_states,
            tape: self.initial_tape.unwrap(),
            current_state: self.initial_state.unwrap(),
            move_type: self.move_type.unwrap(),
            tape_size: self.tape_size.unwrap(),
            history: Seq::empty(),
            true_bounds: self.true_bounds,
        }
    }
}

impl<const HEADS: usize> MultiHeadDTMBuilder<HEADS> {
    /// A builder that has been given nothing yet.
    pub fn new() -> (r: Self)
        ensures
            r@ == HeadBuilderView::<HEADS>::empty(),
    {
        Self {
            transitions: ArrayTable::<HEADS>::default(),
            initial_state: None,
            initial_tape: None,
            accepting_states: Vec::new(),
            tape: None,
            current_state: None,
            move_type: None,
            tape_size: None,
            true_bounds: TrueBounds::default(),
        }
    }

    /// The machine, when the initial state, the initial tape, the move type
    /// and the tape size have been given; `None` otherwise.
    pub fn build(self) -> (r: Option<MultiHeadDTM<HEADS>>)
        ensures
            r is Some <==> self@.complete(),
            r matches Some(m) ==> m@ == self@.machine(),
    {
        let initial_state = match self.initial_state {
            Some(s) => s,
            None => return None,
        };
        let initial_tape = match &self.initial_tape {
            Some(t) => t.clone(),
            None => return None,
        };
        let tape = match self.initial_tape {
            Some(t) => t,
            None => return None,
        };
        let move_type = match self.move_type {
            Some(m) => m,
            None => return None,
        };
        let tape_size = match self.tape_size {
            Some(s) => s,
            None => return None,
        };
        Some(
            MultiHeadDTM {
                transitions: self.transitions,
                initial_state,
                initial_tape,
                accepting_states: self.accepting_states,
                tape,
                current_state: initial_state,
                move_type,
                tape_size,
                history: Vec::new(),
                true_bounds: self.true_bounds,
            },
        )
    }

    /// Adds a transition, unless one is already there for the reading: the
    /// first transition given for a reading is the one that stays.
    pub fn insert_transition(
        &mut self,
        reading_state: Reading<[Symbol; HEADS]>,
        transition: Action<[Symbol; HEADS], [Direction; HEADS]>,
    ) -> (r: &mut Self)
        ensures
            r@ == (HeadBuilderView {
                transitions: insert_absent(old(self)@.transitions, reading_state, transition),
                ..old(self)@
            }),
            final(self)@ == final(r)@,
    {
        if !array_table_contains(&self.transitions, &reading_state) {
            array_table_insert(&mut self.transitions, reading_state, transition);
        }

        self
    }

    /// Adds each transition in turn, as [`Self::insert_transition`] does.
    pub fn insert_transitions(
        &mut self,
        transitions: Vec<(Reading<[Symbol; HEADS]>, Action<[Symbol; HEADS], [Direction; HEADS]>)>,
    ) -> (r: &mut Self)
        ensures
            r@ == (HeadBuilderView {
                transitions: insert_all_absent(old(self)@.transitions, transitions@),
                ..old(self)@
            }),
            final(self)@ == final(r)@,
    {
        let ghost start = self@;
        let mut i: usize = 0;
        assert(transitions@.skip(0) =~= transitions@);
        while i < transitions.len()
            invariant
                i <= transitions.len(),
                self@ == (HeadBuilderView { transitions: self@.transitions, ..start }),
                insert_all_absent(self@.transitions, transitions@.skip(i as int))
                    == insert_all_absent(start.transitions, transitions@),
            decreases transitions.len() - i,
        {
            let (reading_state, transition) = transitions[i];
            assert(transitions@.skip(i as int).drop_first() =~= transitions@.skip(i + 1));
            self.insert_transition(reading_state, transition);
            i = i + 1;
        }

        self
    }

    /// Sets the initial state.
    pub fn with_initial_state(&mut self, initial_state: State) -> (r: &mut Self)
        ensures
            r@ == (HeadBuilderView {
                initial_state: Some(initial_state),
                current_state: Some(initial_state),
                ..old(self)@
            }),
            final(self)@ == final(r)@,
    {
        self.initial_state = Some(initial_state);
        self.current_state = Some(initial_state);

        self
    }

    /// Sets the initial tape.
    pub fn with_tape(&mut self, initial_tape: MultiHeadTape<HEADS>) -> (r: &mut Self)
        ensures
            r@ == (HeadBuilderView {
                initial_tape: Some(initial_tape@),
                tape: Some(initial_tape@),
                ..old(self)@
            }),
            final(self)@ == final(r)@,
    {
        self.initial_tape = Some(initial_tape.clone());
        self.tape = Some(initial_tape);

        self
    }

    /// Sets the accepting states.
    pub fn with_accepting_states(&mut self, accepting_states: Vec<State>) -> (r: &mut Self)
        ensures
            r@ == (HeadBuilderView { accepting_states: accepting_states@, ..old(self)@ }),
            final(self)@ == final(r)@,
    {
        self.accepting_states = accepting_states;

        self
    }

    /// Sets whether heads may stay in place.
    pub fn with_move_type(&mut self, move_type: MoveType) -> (r: &mut Self)
        ensures
            r@ == (HeadBuilderView { move_type: Some(move_type), ..old(self)@ }),
            final(self)@ == final(r)@,
    {
        self.move_type = Some(move_type);

        self
    }

    /// Sets the theoretical size of the tape.
    pub fn with_tape_size(&mut self, tape_size: TapeTheoreticalSize) -> (r: &mut Self)
        ensures
            r@ == (HeadBuilderView { tape_size: Some(tape_size), ..old(self)@ }),
            final(self)@ == final(r)@,
    {
        self.tape_size = Some(tape_size);

        self
    }

    /// Sets the limits of the simulator.
    pub fn with_bounds(&mut self, bounds: TrueBounds) -> (r: &mut Self)
        ensures
            r@ == (HeadBuilderView { true_bounds: bounds, ..old(self)@ }),
            final(self)@ == final(r)@,
    {
        self.true_bounds = bounds;

        self
    }
}

/// The mathematical content of a [`MultiHeadDTM`].
#[verifier::ext_equal]
#[verifier::reject_recursive_types(HEADS)]
pub struct HeadMachineView<const HEADS: usize> {
    pub transitions: Map<Reading<[Symbol; HEADS]>, Action<[Symbol; HEADS], [Direction; HEADS]>>,
    pub initial_state: State,
    pub initial_tape: HeadTapeView,
    pub accepting_states: Seq<State>,
    pub tape: HeadTapeView,
    pub current_state: State,
    pub move_type: MoveType,
    pub tape_size: TapeTheoreticalSize,
    /// The configurations before each step taken, oldest first.
    pub history: Seq<(HeadTapeView, State)>,
    pub true_bounds: TrueBounds,
}

impl<const HEADS: usize> HeadMachineView<HEADS> {
    /// The verdict that the accepting states and the limits impose before a
    /// transition is looked up: accept in an accepting state, otherwise
    /// reject once the step limit is used up, once the tape is larger than
    /// the simulator allows, or once it reaches the size of a finite tape.
    pub open spec fn bounds_verdict(self) -> Option<HaltingState> {
        if self.accepting_states.contains(self.current_state) {
            Some(HaltingState::Accept)
        } else if self.history.len() >= self.true_bounds.max_steps {
            Some(
                HaltingState::Reject(
                    HaltingStateReason::Unexpected(InternalHaltingStateReason::ExceededMaxSteps),
                ),
            )
        } else if self.tape.memory.len() > self.true_bounds.true_tape_size {
            Some(
                HaltingState::Reject(
                    HaltingStateReason::Unexpected(InternalHaltingStateReason::ExceededMaxTapeSize),
                ),
            )
        } else if self.tape_size matches TapeTheoreticalSize::Finite(max_limit)
            && self.tape.memory.len() >= max_limit {
            Some(HaltingState::Reject(HaltingStateReason::FiniteTapeLimit))
        } else {
            None
        }
    }

    /// The current state and the symbols under the heads.
    pub open spec fn reading(self) -> Reading<[Symbol; HEADS]> {
        Reading { state: self.current_state, symbol: array_of(self.tape.heads()) }
    }

    /// One step: the verdict, if the machine stops, and the machine after
    /// the step. Every head writes first, in order; then the heads move in
    /// order, and the first head that may not move stops the machine, which
    /// is then left as it was.
    pub open spec fn step(self) -> (Option<HaltingState>, HeadMachineView<HEADS>) {
        if self.bounds_verdict() is Some {
            (self.bounds_verdict(), self)
        } else if !self.transitions.contains_key(self.reading()) {
            (Some(HaltingState::Reject(HaltingStateReason::NoTransition)), self)
        } else {
            let a = self.transitions[self.reading()];
            let written = self.tape.written(a.write_symbol@, HEADS as nat);
            match move_heads(
                written,
                a.direction@,
                self.tape_size,
                self.move_type == MoveType::Strict,
                HEADS as nat,
            ) {
                Err(e) => (Some(e), self),
                Ok(t) => (
                    None,
                    HeadMachineView {
                        tape: t,
                        current_state: a.next_state,
                        history: self.history.push((self.tape, self.current_state)),
                        ..self
                    },
                ),
            }
        }
    }

    /// The machine with its last step taken back; unchanged with no history.
    pub open spec fn undone(self) -> HeadMachineView<HEADS> {
        if self.history.len() == 0 {
            self
        } else {
            HeadMachineView {
                tape: self.history.last().0,
                current_state: self.history.last().1,
                history: self.history.drop_last(),
                ..self
            }
        }
    }

    /// The machine back in its initial configuration with no history.
    pub open spec fn restarted(self) -> HeadMachineView<HEADS> {
        HeadMachineView {
            tape: self.initial_tape,
            current_state: self.initial_state,
            history: Seq::empty(),
            ..self
        }
    }

    /// Steps that the step limit still allows.
    pub open spec fn steps_left(self) -> nat {
        if self.history.len() <= self.true_bounds.max_steps {
            (self.true_bounds.max_steps - self.history.len()) as nat
        } else {
            0
        }
    }

    /// Every tape the machine holds, now, at its start and on its history,
    /// has its heads on the tape and room in its offset for the steps it may
    /// still take.
    pub open spec fn well_formed(self) -> bool {
        &&& self.history.len() <= self.true_bounds.max_steps
        &&& head_tape_fits(self.tape, HEADS as int, self.steps_left() as int)
        &&& head_tape_fits(self.initial_tape, HEADS as int, self.true_bounds.max_steps as int)
        &&& forall|j: int|
            0 <= j < self.history.len() ==> head_tape_fits(
                #[trigger] self.history[j].0,
                HEADS as int,
                self.true_bounds.max_steps - j,
            )
    }

    /// The verdict of a run, and the configuration in which the run stopped.
    pub open spec fn run_outcome(self) -> (HaltingState, HeadMachineView<HEADS>)
        decreases self.steps_left(),
    {
        let (verdict, next) = self.step();
        match verdict {
            Some(h) => (h, self),
            None => next.run_outcome(),
        }
    }
}

/// A deterministic Turing machine on one tape with `HEADS` heads.
pub struct MultiHeadDTM<const HEADS: usize> {
    transitions: ArrayTable<HEADS>,
    initial_state: State,
    initial_tape: MultiHeadTape<HEADS>,
    accepting_states: Vec<State>,
    tape: MultiHeadTape<HEADS>,
    current_state: State,
    move_type: MoveType,
    tape_size: TapeTheoreticalSize,
    history: Vec<(MultiHeadTape<HEADS>, State)>,
    true_bounds: TrueBounds,
}

/// The views of the configurations on a history.
pub open spec fn head_history_view<const HEADS: usize>(h: Seq<(MultiHeadTape<HEADS>, State)>) -> Seq<
    (HeadTapeView, State),
> {
    h.map_values(|p: (MultiHeadTape<HEADS>, State)| (p.0@, p.1))
}

impl<const HEADS: usize> View for MultiHeadDTM<HEADS> {
    type V = HeadMachineView<HEADS>;

    closed spec fn view(&self) -> HeadMachineView<HEADS> {
        HeadMachineView {
            transitions: self.transitions@,
            initial_state: self.initial_state,
            initial_tape: self.initial_tape@,
            accepting_states: self.accepting_states@,
            tape: self.tape@,
            current_state: self.current_state,
            move_type: self.move_type,
            tape_size: self.tape_size,
            history: head_history_view(self.history@),
            true_bounds: self.true_bounds,
        }
    }
}

impl<const HEADS: usize> MultiHeadDTM<HEADS> {
    /// The state the machine is in.
    pub fn current_state(&self) -> (r: State)
        ensures
            r == self@.current_state,
    {
        self.current_state
    }

    /// The tape as it is now.
    pub fn tape(&self) -> (r: &MultiHeadTape<HEADS>)
        ensures
            r@ == self@.tape,
    {
        &self.tape
    }

    /// The number of steps taken and not taken back.
    pub fn steps_taken(&self) -> (r: usize)
        ensures
            r == self@.history.len(),
    {
        self.history.len()
    }

    /// Abandons a step under way: the tape goes back to the last recorded
    /// one, which leaves the history.
    fn drop_step(&mut self)
        requires
            old(self)@.history.len() > 0,
        ensures
            final(self)@ == (HeadMachineView {
                tape: old(self)@.history.last().0,
                history: old(self)@.history.drop_last(),
                ..old(self)@
            }),
    {
        let ghost before = self@;
        let (old_tape, _) = self.history.pop().unwrap();
        assert(head_history_view(self.history@) =~= before.history.drop_last());
        self.tape = old_tape;
    }
}

impl<const HEADS: usize> Computable for MultiHeadDTM<HEADS> {
    open spec fn well_formed(&self) -> bool {
        self@.well_formed()
    }

    open spec fn steps_left(&self) -> nat {
        self@.steps_left()
    }

    open spec fn verdict(&self) -> Option<HaltingState> {
        self@.step().0
    }

    open spec fn outcome(&self) -> HaltingState {
        self@.run_outcome().0
    }

    fn check_bounds(&self) -> (r: Option<HaltingState>)
        ensures
            r == self@.bounds_verdict(),
    {
        if contains_state(&self.accepting_states, self.current_state) {
            return Some(HaltingState::Accept);
        }

        if self.history.len() >= self.true_bounds.max_steps as usize {
            return Some(
                HaltingState::Reject(
                    HaltingStateReason::Unexpected(InternalHaltingStateReason::ExceededMaxSteps),
                ),
            );
        }

        let current_size = self.tape.memory.len();

        if current_size > self.true_bounds.true_tape_size as usize {
            return Some(
                HaltingState::Reject(
                    HaltingStateReason::Unexpected(InternalHaltingStateReason::ExceededMaxTapeSize),
                ),
            );
        }

        if let TapeTheoreticalSize::Finite(max_limit) = self.tape_size {
            if current_size >= max_limit as usize {
                return Some(HaltingState::Reject(HaltingStateReason::FiniteTapeLimit));
            }
        }
        None
    }

    fn run_once(&mut self) -> (r: Option<HaltingState>)
        ensures
            (r, final(self)@) == old(self)@.step(),
    {
        if let Some(verdict) = self.check_bounds() {
            return Some(verdict);
        }

        let current_symbols = self.tape.read();
        let reading_state = Reading { state: self.current_state, symbol: current_symbols };
        proof {
            let chosen = array_of::<HEADS>(self@.tape.heads());
            assert(chosen@ == self@.tape.heads());
            assert(chosen =~= current_symbols);
        }

        if let Some(transition) = array_table_get(&self.transitions, &reading_state) {
            let ghost before = self@;
            let ghost sl = before.steps_left() as int;
            let ghost strict = before.move_type == MoveType::Strict;
            let ghost pushed = before.history.push((before.tape, before.current_state));
            self.history.push((self.tape.clone(), self.current_state));
            assert(head_history_view(self.history@) =~= pushed);

            let mut i: usize = 0;
            while i < HEADS
                invariant
                    i <= HEADS,
                    before == old(self)@,
                    before.well_formed(),
                    before.tape.head_positions.len() == HEADS,
                    self@ == (HeadMachineView {
                        tape: before.tape.written(transition.write_symbol@, i as nat),
                        history: pushed,
                        ..before
                    }),
                decreases HEADS - i,
            {
                proof {
                    lemma_written_keeps_shape(before.tape, transition.write_symbol@, i as nat);
                }
                self.tape.write_head(i, transition.write_symbol[i]);
                i = i + 1;
            }

            proof {
                lemma_written_keeps_shape(before.tape, transition.write_symbol@, HEADS as nat);
            }
            let ghost written = self@.tape;
            let directions = transition.direction;
            assert(written.heads_in_bounds());
            assert(sl >= 1);
            assert((HEADS as int) * sl >= HEADS as int) by (nonlinear_arith)
                requires
                    sl >= 1,
            ;

            let mut i: usize = 0;
            while i < HEADS
                invariant
                    i <= HEADS,
                    before == old(self)@,
                    before.well_formed(),
                    before.bounds_verdict() is None,
                    before.transitions.contains_key(before.reading()),
                    before.transitions[before.reading()] == transition,
                    directions == transition.direction,
                    written == before.tape.written(transition.write_symbol@, HEADS as nat),
                    strict == (before.move_type == MoveType::Strict),
                    (HEADS as int) * sl >= HEADS as int,
                    move_heads(written, directions@, before.tape_size, strict, i as nat) == Ok::<
                        HeadTapeView,
                        HaltingState,
                    >(self@.tape),
                    self@.tape.heads_in_bounds(),
                    self@.tape.head_positions.len() == HEADS,
                    self@.tape.offset >= isize::MIN + (HEADS as int) * sl - i,
                    self@ == (HeadMachineView { tape: self@.tape, history: pushed, ..before }),
                    pushed.len() > 0,
                    pushed.drop_last() == before.history,
                    pushed.last().0 == before.tape,
                decreases HEADS - i,
            {
                let direction = directions[i];
                match direction {
                    Direction::Left => {
                        if self.tape.head_positions[i] == 0 {
                            if self.tape_size == TapeTheoreticalSize::SemiInfinite(
                                TapeBoundary::Left,
                            ) {
                                proof {
                                    lemma_move_heads_error_sticks(
                                        written,
                                        directions@,
                                        before.tape_size,
                                        strict,
                                        (i + 1) as nat,
                                        HEADS as nat,
                                    );
                                }
                                self.drop_step();
                                return Some(HaltingState::Reject(HaltingStateReason::HitWall));
                            }
                        }
                    },
                    Direction::Right => {
                        if self.tape.head_positions[i] == self.tape.memory.len() - 1 {
                            if self.tape_size == TapeTheoreticalSize::SemiInfinite(
                                TapeBoundary::Right,
                            ) {
                                proof {
                                    lemma_move_heads_error_sticks(
                                        written,
                                        directions@,
                                        before.tape_size,
                                        strict,
                                        (i + 1) as nat,
                                        HEADS as nat,
                                    );
                                }
                                self.drop_step();
                                return Some(HaltingState::Reject(HaltingStateReason::HitWall));
                            }
                        }
                    },
                    Direction::Stay => {
                        if self.move_type == MoveType::Strict {
                            proof {
                                lemma_move_heads_error_sticks(
                                    written,
                                    directions@,
                                    before.tape_size,
                                    strict,
                                    (i + 1) as nat,
                                    HEADS as nat,
                                );
                            }
                            self.drop_step();
                            return Some(
                                HaltingState::Reject(
                                    HaltingStateReason::Unexpected(
                                        InternalHaltingStateReason::InvalidTransition,
                                    ),
                                ),
                            );
                        }
                    },
                }
                self.tape.move_head(i, direction);
                i = i + 1;
            }

            self.current_state = transition.next_state;
            assert((HEADS as int) * sl - HEADS == (HEADS as int) * (sl - 1)) by (nonlinear_arith);
            return None;
        }

        Some(HaltingState::Reject(HaltingStateReason::NoTransition))
    }

    fn run(&mut self) -> (r: HaltingState)
        ensures
            (r, final(self)@) == old(self)@.run_outcome(),
    {
        loop
            invariant
                self@.well_formed(),
                self@.run_outcome() == old(self)@.run_outcome(),
            decreases self@.steps_left(),
        {
            let ghost before = self@;
            if let Some(halt_state) = self.run_once() {
                return halt_state;
            }
            assert(before.step().0 is None);
        }
    }

    #[inline]
    fn reset(&mut self)
        ensures
            final(self)@ == old(self)@.restarted(),
    {
        self.tape = self.initial_tape.clone();
        self.current_state = self.initial_state;
        self.history.clear();
        assert(head_history_view(self.history@) =~= Seq::empty());
    }

    #[inline]
    fn back(&mut self)
        ensures
            final(self)@ == old(self)@.undone(),
    {
        let ghost before = self@;
        if let Some((tape, state)) = self.history.pop() {
            assert(head_history_view(self.history@) =~= before.history.drop_last());
            self.tape = tape;
            self.current_state = state;
        }
    }
}

/// Taking back a step that the machine took returns it to exactly where it
/// was: `run_once` followed by `back` is the identity on a machine that moved.
pub proof fn lemma_back_undoes_step<const HEADS: usize>(v: HeadMachineView<HEADS>)
    requires
        v.step().0 is None,
    ensures
        v.step().1.undone() == v,
{
    let n = v.step().1;
    assert(n.history.drop_last() =~= v.history);
}

/// A step that stops the machine leaves it unchanged.
pub proof fn lemma_stop_changes_nothing<const HEADS: usize>(v: HeadMachineView<HEADS>)
    requires
        v.step().0 is Some,
    ensures
        v.step().1 == v,
{
}

/// A machine in an accepting state accepts at once, whatever its limits.
pub proof fn lemma_accepting_state_accepts<const HEADS: usize>(v: HeadMachineView<HEADS>)
    requires
        v.accepting_states.contains(v.current_state),
    ensures
        v.step() == (Some(HaltingState::Accept), v),
{
}

/// A step that goes on records exactly one configuration and uses one unit
/// of the step limit; the transitions, the initial configuration, the
/// accepting states and the limits never change.
pub proof fn lemma_step_uses_one_step<const HEADS: usize>(v: HeadMachineView<HEADS>)
    requires
        v.step().0 is None,
    ensures
        v.step().1.history == v.history.push((v.tape, v.current_state)),
        v.step().1.steps_left() + 1 == v.steps_left(),
        v.step().1.transitions == v.transitions,
        v.step().1.initial_state == v.initial_state,
        v.step().1.initial_tape == v.initial_tape,
        v.step().1.accepting_states == v.accepting_states,
        v.step().1.true_bounds == v.true_bounds,
{
}

/// Resetting forgets every step: a machine reset after a step, or after a
/// step taken back, is the machine reset before it, and resetting twice is
/// resetting once.
pub proof fn lemma_reset_forgets_steps<const HEADS: usize>(v: HeadMachineView<HEADS>)
    ensures
        v.step().1.restarted() == v.restarted(),
        v.undone().restarted() == v.restarted(),
        v.restarted().restarted() == v.restarted(),
{
}

/// Running ends in a configuration whose step gives the verdict that the run
/// returned, reached from the start by steps: the history only grew, and by
/// no more than the step limit allowed.
pub proof fn lemma_run_stops_where_step_stops<const HEADS: usize>(v: HeadMachineView<HEADS>)
    ensures
        ({
            let (h, w) = v.run_outcome();
            &&& w.step() == (Some(h), w)
            &&& v.history.len() <= w.history.len() <= v.history.len() + v.steps_left()
            &&& w.history.subrange(0, v.history.len() as int) == v.history
            &&& w.transitions == v.transitions
            &&& w.initial_state == v.initial_state
            &&& w.initial_tape == v.initial_tape
            &&& w.true_bounds == v.true_bounds
        }),
    decreases v.steps_left(),
{
    let (verdict, next) = v.step();
    if verdict is None {
        lemma_run_stops_where_step_stops(next);
        let w = next.run_outcome().1;
        assert(w.history.subrange(0, v.history.len() as int) =~= w.history.subrange(
            0,
            next.history.len() as int,
        ).subrange(0, v.history.len() as int));
        assert(next.history.subrange(0, v.history.len() as int) =~= v.history);
    } else {
        assert(v.history.subrange(0, v.history.len() as int) =~= v.history);
    }
}

/// Resetting puts the machine in its initial state on its initial tape with
/// no history, keeping everything it was built with; a machine fresh from
/// its builder is already reset.
pub proof fn lemma_reset_restores_start<const HEADS: usize>(
    v: HeadMachineView<HEADS>,
    b: HeadBuilderView<HEADS>,
)
    ensures
        v.restarted().current_state == v.initial_state,
        v.restarted().tape == v.initial_tape,
        v.restarted().history.len() == 0,
        v.restarted().transitions == v.transitions,
        v.restarted().accepting_states == v.accepting_states,
        v.restarted().move_type == v.move_type,
        v.restarted().tape_size == v.tape_size,
        v.restarted().true_bounds == v.true_bounds,
        b.complete() ==> b.machine().restarted() == b.machine(),
        b.complete() ==> b.machine().current_state == b.initial_state.unwrap(),
{
}

} // verus!
