//! The deterministic multi-tape machine and its builder.

use vstd::prelude::*;

use rustc_hash::FxHashSet;

use crate::{
    halt::{HaltingState, HaltingStateReason, InternalHaltingStateReason},
    machine::Computable,
    table::{
        array_table_contains, array_table_get, array_table_insert, insert_absent,
        insert_all_absent, state_set_contains, state_set_from, ArrayTable,
    },
    tape::{
        multi::{heads_of, shift_all, MultiTape},
        single::{lemma_shift_is_write_then_move, writes_then_moves, TapeView},
    },
    types::{
        Action, Direction, MoveType, Reading, State, Symbol, TapeBoundary, TapeTheoreticalSize,
        TrueBounds,
    },
};

verus! {

/// The array whose elements are `s`, for a sequence of length `N`.
pub open spec fn array_of<const N: usize>(s: Seq<Symbol>) -> [Symbol; N] {
    choose|a: [Symbol; N]| a@ == s
}

/// The largest size among `tapes`, 0 for no tape.
pub open spec fn max_size(tapes: Seq<TapeView>) -> int
    decreases tapes.len(),
{
    if tapes.len() == 0 {
        0
    } else {
        let rest = max_size(tapes.drop_last());
        if tapes.last().size() > rest {
            tapes.last().size()
        } else {
            rest
        }
    }
}

/// `x`, or `usize::MAX` when `x` is larger.
pub open spec fn saturated(x: int) -> int {
    if x > usize::MAX {
        usize::MAX as int
    } else {
        x
    }
}

/// Why a head may not move as asked: the wall of a semi-infinite tape, or a
/// strict machine asked to stay.
pub open spec fn move_fault(
    t: TapeView,
    dir: Direction,
    tape_size: TapeTheoreticalSize,
    move_type: MoveType,
) -> Option<HaltingState> {
    if t.hits_wall(dir, tape_size) {
        Some(HaltingState::Reject(HaltingStateReason::HitWall))
    } else if dir == Direction::Stay && move_type == MoveType::Strict {
        Some(
            HaltingState::Reject(
                HaltingStateReason::Unexpected(InternalHaltingStateReason::InvalidTransition),
            ),
        )
    } else {
        None
    }
}

/// The fault of the first of the first `k` tapes that may not move as asked.
pub open spec fn first_fault(
    tapes: Seq<TapeView>,
    dirs: Seq<Direction>,
    tape_size: TapeTheoreticalSize,
    move_type: MoveType,
    k: nat,
) -> Option<HaltingState>
    decreases k,
{
    if k == 0 {
        None
    } else {
        let earlier = first_fault(tapes, dirs, tape_size, move_type, (k - 1) as nat);
        if earlier is Some {
            earlier
        } else {
            move_fault(tapes[k - 1], dirs[k - 1], tape_size, move_type)
        }
    }
}

/// Once one of the first `k` tapes may not move, the first such tape gives
/// the fault among any longer prefix.
pub proof fn lemma_first_fault_sticks(
    tapes: Seq<TapeView>,
    dirs: Seq<Direction>,
    tape_size: TapeTheoreticalSize,
    move_type: MoveType,
    k: nat,
    m: nat,
)
    requires
        k <= m,
        first_fault(tapes, dirs, tape_size, move_type, k) is Some,
    ensures
        first_fault(tapes, dirs, tape_size, move_type, m) == first_fault(
            tapes,
            dirs,
            tape_size,
            move_type,
            k,
        ),
    decreases m,
{
    if k < m {
        lemma_first_fault_sticks(tapes, dirs, tape_size, move_type, k, (m - 1) as nat);
    }
}

/// The mathematical content of a [`MultiTapeDTMBuilder`].
#[verifier::ext_equal]
#[verifier::reject_recursive_types(TAPES)]
pub struct MultiBuilderView<const TAPES: usize> {
    pub transitions: Map<Reading<[Symbol; TAPES]>, Action<[Symbol; TAPES], [Direction; TAPES]>>,
    pub initial_state: Option<State>,
    pub initial_tape: Option<Seq<TapeView>>,
    pub accepting_states: Set<State>,
    pub tape: Option<Seq<TapeView>>,
    pub current_state: Option<State>,
    pub move_type: Option<MoveType>,
    pub tape_size: Option<TapeTheoreticalSize>,
    pub true_bounds: TrueBounds,
}

/// The view of optional tapes.
pub open spec fn tapes_view_of<const TAPES: usize>(t: Option<MultiTape<TAPES>>) -> Option<
    Seq<TapeView>,
> {
    match t {
        Some(t) => Some(t@),
        None => None,
    }
}

/// Builds a [`MultiTapeDTM`] step by step.
pub struct MultiTapeDTMBuilder<const TAPES: usize> {
    transitions: ArrayTable<TAPES>,
    initial_state: Option<State>,
    initial_tape: Option<MultiTape<TAPES>>,
    accepting_states: FxHashSet<State>,
    tape: Option<MultiTape<TAPES>>,
    current_state: Option<State>,
    move_type: Option<MoveType>,
    tape_size: Option<TapeTheoreticalSize>,
    true_bounds: TrueBounds,
}

impl<const TAPES: usize> View for MultiTapeDTMBuilder<TAPES> {
    type V = MultiBuilderView<TAPES>;

    closed spec fn view(&self) -> MultiBuilderView<TAPES> {
        MultiBuilderView {
            transitions: self.transitions@,
            initial_state: self.initial_state,
            initial_tape: tapes_view_of(self.initial_tape),
            accepting_states: self.accepting_states@,
            tape: tapes_view_of(self.tape),
            current_state: self.current_state,
            move_type: self.move_type,
            tape_size: self.tape_size,
            true_bounds: self.true_bounds,
        }
    }
}

impl<const TAPES: usize> MultiBuilderView<TAPES> {
    /// The view of a builder that has been given nothing yet.
    pub open spec fn empty() -> MultiBuilderView<TAPES> {
        MultiBuilderView {
            transitions: Map::empty(),
            initial_state: None,
            initial_tape: None,
            accepting_states: Set::empty(),
            tape: None,
            current_state: None,
            move_type: None,
            tape_size: None,
            true_bounds: TrueBounds::standard(),
        }
    }

    /// Everything that `build` needs is there.
    pub open spec fn complete(self) -> bool {
        &&& self.initial_state is Some
        &&& self.initial_tape is Some
        &&& self.move_type is Some
        &&& self.tape_size is Some
    }

    /// The machine that `build` makes of a complete builder: it starts in
    /// the initial state on the initial tapes, with no steps taken.
    pub open spec fn machine(self) -> MultiMachineView<TAPES> {
        MultiMachineView {
            transitions: self.transitions,
            initial_state: self.initial_state.unwrap(),
            initial_tape: self.initial_tape.unwrap(),
            accepting_states: self.accepting_states,
            tape: self.initial_tape.unwrap(),
            current_state: self.initial_state.unwrap(),
            move_type: self.move_type.unwrap(),
            tape_size: self.tape_size.unwrap(),
            history: Seq::empty(),
            true_bounds: self.true_bounds,
        }
    }
}

impl<const TAPES: usize> MultiTapeDTMBuilder<TAPES> {
    /// A builder that has been given nothing yet.
    pub fn new() -> (r: Self)
        ensures
            r@ == MultiBuilderView::<TAPES>::empty(),
    {
        Self {
            transitions: ArrayTable::<TAPES>::default(),
            initial_state: None,
            initial_tape: None,
            accepting_states: FxHashSet::default(),
            tape: None,
            current_state: None,
            move_type: None,
            tape_size: None,
            true_bounds: TrueBounds::default(),
        }
    }

    /// The machine, when the initial state, the initial tapes, the move type
    /// and the tape size have been given; `None` otherwise.
    pub fn build(self) -> (r: Option<MultiTapeDTM<TAPES>>)
        ensures
            r is Some <==> self@.complete(),
            r matches Some(m) ==> m@ == self@.machine(),
    {
        let initial_state = match self.initial_state {
            Some(s) => s,
            None => return None,
        };
        let initial_tape = match &self.initial_tape {
            Some(t) => t.clone(),
            None => return None,
        };
        let tape = match self.initial_tape {
            Some(t) => t,
            None => return None,
        };
        let move_type = match self.move_type {
            Some(m) => m,
            None => return None,
        };
        let tape_size = match self.tape_size {
            Some(s) => s,
            None => return None,
        };
        Some(
            MultiTapeDTM {
                transitions: self.transitions,
                initial_state,
                initial_tape,
                accepting_states: self.accepting_states,
                tape,
                current_state: initial_state,
                move_type,
                tape_size,
                history: Vec::new(),
                true_bounds: self.true_bounds,
            },
        )
    }

    /// Adds a transition, unless one is already there for the reading: the
    /// first transition given for a reading is the one that stays.
    pub fn insert_transition(
        &mut self,
        reading_state: Reading<[Symbol; TAPES]>,
        transition: Action<[Symbol; TAPES], [Direction; TAPES]>,
    ) -> (r: &mut Self)
        ensures
            r@ == (MultiBuilderView {
                transitions: insert_absent(old(self)@.transitions, reading_state, transition),
                ..old(self)@
            }),
            final(self)@ == final(r)@,
    {
        if !array_table_contains(&self.transitions, &reading_state) {
            array_table_insert(&mut self.transitions, reading_state, transition);
        }
        self
    }

    /// Adds each transition in turn, as [`Self::insert_transition`] does.
    pub fn insert_transitions(
        &mut self,
        transitions: Vec<(Reading<[Symbol; TAPES]>, Action<[Symbol; TAPES], [Direction; TAPES]>)>,
    ) -> (r: &mut Self)
        ensures
            r@ == (MultiBuilderView {
                transitions: insert_all_absent(old(self)@.transitions, transitions@),
                ..old(self)@
            }),
            final(self)@ == final(r)@,
    {
        let ghost start = self@;
        let mut i: usize = 0;
        assert(transitions@.skip(0) =~= transitions@);
        while i < transitions.len()
            invariant
                i <= transitions.len(),
                self@ == (MultiBuilderView { transitions: self@.transitions, ..start }),
                insert_all_absent(self@.transitions, transitions@.skip(i as int))
                    == insert_all_absent(start.transitions, transitions@),
            decreases transitions.len() - i,
        {
            let (reading_state, transition) = transitions[i];
            assert(transitions@.skip(i as int).drop_first() =~= transitions@.skip(i + 1));
            self.insert_transition(reading_state, transition);
            i = i + 1;
        }
        self
    }

    /// Sets the initial state.
    pub fn with_initial_state(&mut self, initial_state: State) -> (r: &mut Self)
        ensures
            r@ == (MultiBuilderView {
                initial_state: Some(initial_state),
                current_state: Some(initial_state),
                ..old(self)@
            }),
            final(self)@ == final(r)@,
    {
        self.initial_state = Some(initial_state);
        self.current_state = Some(initial_state);

        self
    }

    /// Sets the initial tapes.
    pub fn with_tapes(&mut self, initial_tape: MultiTape<TAPES>) -> (r: &mut Self)
        ensures
            r@ == (MultiBuilderView {
                initial_tape: Some(initial_tape@),
                tape: Some(initial_tape@),
                ..old(self)@
            }),
            final(self)@ == final(r)@,
    {
        self.initial_tape = Some(initial_tape.clone());
        self.tape = Some(initial_tape);

        self
    }

    /// Sets the accepting states.
    pub fn with_accepting_states(&mut self, accepting_states: Vec<State>) -> (r: &mut Self)
        ensures
            r@ == (MultiBuilderView {
                accepting_states: accepting_states@.to_set(),
                ..old(self)@
            }),
            final(self)@ == final(r)@,
    {
        self.accepting_states = state_set_from(accepting_states);

        self
    }

    /// Sets whether heads may stay in place.
    pub fn with_move_type(&mut self, move_type: MoveType) -> (r: &mut Self)
        ensures
            r@ == (MultiBuilderView { move_type: Some(move_type), ..old(self)@ }),
            final(self)@ == final(r)@,
    {
        self.move_type = Some(move_type);

        self
    }

    /// Sets the theoretical size of the tapes.
    pub fn with_tape_size(&mut self, tape_size: TapeTheoreticalSize) -> (r: &mut Self)
        ensures
            r@ == (MultiBuilderView { tape_size: Some(tape_size), ..old(self)@ }),
            final(self)@ == final(r)@,
    {
        self.tape_size = Some(tape_size);

        self
    }

    /// Sets the limits of the simulator.
    pub fn with_bounds(&mut self, bounds: TrueBounds) -> (r: &mut Self)
        ensures
            r@ == (MultiBuilderView { true_bounds: bounds, ..old(self)@ }),
            final(self)@ == final(r)@,
    {
        self.true_bounds = bounds;

        self
    }
}

/// The mathematical content of a [`MultiTapeDTM`].
#[verifier::ext_equal]
#[verifier::reject_recursive_types(TAPES)]
pub struct MultiMachineView<const TAPES: usize> {
    pub transitions: Map<Reading<[Symbol; TAPES]>, Action<[Symbol; TAPES], [Direction; TAPES]>>,
    pub initial_state: State,
    pub initial_tape: Seq<TapeView>,
    pub accepting_states: Set<State>,
    pub tape: Seq<TapeView>,
    pub current_state: State,
    pub move_type: MoveType,
    pub tape_size: TapeTheoreticalSize,
    /// The configurations before each step taken, oldest first.
    pub history: Seq<(Seq<TapeView>, State)>,
    pub true_bounds: TrueBounds,
}

impl<const TAPES: usize> MultiMachineView<TAPES> {
    /// The verdict that the limits and the accepting states impose before a
    /// transition is looked up: reject a machine with more tapes than the
    /// simulator allows, accept in an accepting state, otherwise reject once
    /// the step limit is used up, once the largest tape is larger than the
    /// simulator allows, or once it reaches the size of a finite tape.
    pub open spec fn bounds_verdict(self) -> Option<HaltingState> {
        if (self.true_bounds.max_tapes as int) < (TAPES as int) {
            Some(
                HaltingState::Reject(
                    HaltingStateReason::Unexpected(InternalHaltingStateReason::ExceededMaxTapes),
                ),
            )
        } else if self.accepting_states.contains(self.current_state) {
            Some(HaltingState::Accept)
        } else if self.history.len() >= self.true_bounds.max_steps {
            Some(
                HaltingState::Reject(
                    HaltingStateReason::Unexpected(InternalHaltingStateReason::ExceededMaxSteps),
                ),
            )
        } else if max_size(self.tape) > self.true_bounds.true_tape_size {
            Some(
                HaltingState::Reject(
                    HaltingStateReason::Unexpected(InternalHaltingStateReason::ExceededMaxTapeSize),
                ),
            )
        } else if self.tape_size matches TapeTheoreticalSize::Finite(max_limit) && max_size(
            self.tape,
        ) >= max_limit {
            Some(HaltingState::Reject(HaltingStateReason::FiniteTapeLimit))
        } else {
            None
        }
    }

    /// The current state and the symbols under the heads.
    pub open spec fn reading(self) -> Reading<[Symbol; TAPES]> {
        Reading { state: self.current_state, symbol: array_of(heads_of(self.tape)) }
    }

    /// The machine after taking `a`: the old configuration goes on the
    /// history, every tape is written and moved, the state changes.
    pub open spec fn advanced(self, a: Action<[Symbol; TAPES], [Direction; TAPES]>) -> MultiMachineView<
        TAPES,
    > {
        MultiMachineView {
            tape: shift_all(self.tape, a.write_symbol@, a.direction@),
            current_state: a.next_state,
            history: self.history.push((self.tape, self.current_state)),
            ..self
        }
    }

    /// One step: the verdict, if the machine stops, and the machine after
    /// the step. A machine that stops is left as it was; when several heads
    /// may not move, the first of them gives the verdict.
    pub open spec fn step(self) -> (Option<HaltingState>, MultiMachineView<TAPES>) {
        if self.bounds_verdict() is Some {
            (self.bounds_verdict(), self)
        } else if !self.transitions.contains_key(self.reading()) {
            (Some(HaltingState::Reject(HaltingStateReason::NoTransition)), self)
        } else {
            let a = self.transitions[self.reading()];
            let fault = first_fault(
                self.tape,
                a.direction@,
                self.tape_size,
                self.move_type,
                TAPES as nat,
            );
            if fault is Some {
                (fault, self)
            } else {
                (None, self.advanced(a))
            }
        }
    }

    /// The machine with its last step taken back; unchanged with no history.
    pub open spec fn undone(self) -> MultiMachineView<TAPES> {
        if self.history.len() == 0 {
            self
        } else {
            MultiMachineView {
                tape: self.history.last().0,
                current_state: self.history.last().1,
                history: self.history.drop_last(),
                ..self
            }
        }
    }

    /// The machine back in its initial configuration with no history.
    pub open spec fn restarted(self) -> MultiMachineView<TAPES> {
        MultiMachineView {
            tape: self.initial_tape,
            current_state: self.initial_state,
            history: Seq::empty(),
            ..self
        }
    }

    /// Steps that the step limit still allows.
    pub open spec fn steps_left(self) -> nat {
        if self.history.len() <= self.true_bounds.max_steps {
            (self.true_bounds.max_steps - self.history.len()) as nat
        } else {
            0
        }
    }

    /// The verdict of a run, and the configuration in which the run stopped.
    pub open spec fn run_outcome(self) -> (HaltingState, MultiMachineView<TAPES>)
        decreases self.steps_left(),
    {
        let (verdict, next) = self.step();
        match verdict {
            Some(h) => (h, self),
            None => next.run_outcome(),
        }
    }
}

/// A deterministic Turing machine on `TAPES` tapes.
pub struct MultiTapeDTM<const TAPES: usize> {
    transitions: ArrayTable<TAPES>,
    initial_state: State,
    initial_tape: MultiTape<TAPES>,
    accepting_states: FxHashSet<State>,
    tape: MultiTape<TAPES>,
    current_state: State,
    move_type: MoveType,
    tape_size: TapeTheoreticalSize,
    history: Vec<(MultiTape<TAPES>, State)>,
    true_bounds: TrueBounds,
}

/// The views of the configurations on a history.
pub open spec fn multi_history_view<const TAPES: usize>(h: Seq<(MultiTape<TAPES>, State)>) -> Seq<
    (Seq<TapeView>, State),
> {
    h.map_values(|p: (MultiTape<TAPES>, State)| (p.0@, p.1))
}

impl<const TAPES: usize> View for MultiTapeDTM<TAPES> {
    type V = MultiMachineView<TAPES>;

    closed spec fn view(&self) -> MultiMachineView<TAPES> {
        MultiMachineView {
            transitions: self.transitions@,
            initial_state: self.initial_state,
            initial_tape: self.initial_tape@,
            accepting_states: self.accepting_states@,
            tape: self.tape@,
            current_state: self.current_state,
            move_type: self.move_type,
            tape_size: self.tape_size,
            history: multi_history_view(self.history@),
            true_bounds: self.true_bounds,
        }
    }
}

impl<const TAPES: usize> MultiTapeDTM<TAPES> {
    /// The state the machine is in.
    pub fn current_state(&self) -> (r: State)
        ensures
            r == self@.current_state,
    {
        self.current_state
    }

    /// The tapes as they are now.
    pub fn tape(&self) -> (r: &MultiTape<TAPES>)
        ensures
            r@ == self@.tape,
    {
        &self.tape
    }

    /// The number of steps taken and not taken back.
    pub fn steps_taken(&self) -> (r: usize)
        ensures
            r == self@.history.len(),
    {
        self.history.len()
    }

    /// Writes and moves the head of tape `i`.
    fn shift_tape(&mut self, i: usize, write: Symbol, dir: Direction)
        requires
            i < TAPES,
        ensures
            final(self)@ == (MultiMachineView {
                tape: old(self)@.tape.update(i as int, old(self)@.tape[i as int].shifted(write, dir)),
                ..old(self)@
            }),
    {
        let ghost before = self@;
        self.tape.0[i].shift(write, dir);
        assert(self@.tape =~= before.tape.update(i as int, before.tape[i as int].shifted(write, dir)));
    }

    /// Abandons a step under way: the tapes go back to the last recorded
    /// ones, which leave the history.
    fn drop_step(&mut self)
        requires
            old(self)@.history.len() > 0,
        ensures
            final(self)@ == (MultiMachineView {
                tape: old(self)@.history.last().0,
                history: old(self)@.history.drop_last(),
                ..old(self)@
            }),
    {
        let ghost before = self@;
        let (old_tape, _) = self.history.pop().unwrap();
        assert(multi_history_view(self.history@) =~= before.history.drop_last());
        self.tape = old_tape;
    }
}

impl<const TAPES: usize> Computable for MultiTapeDTM<TAPES> {
    open spec fn well_formed(&self) -> bool {
        true
    }

    open spec fn steps_left(&self) -> nat {
        self@.steps_left()
    }

    open spec fn verdict(&self) -> Option<HaltingState> {
        self@.step().0
    }

    open spec fn outcome(&self) -> HaltingState {
        self@.run_outcome().0
    }

    fn check_bounds(&self) -> (r: Option<HaltingState>)
        ensures
            r == self@.bounds_verdict(),
    {
        if (self.true_bounds.max_tapes as usize) < TAPES {
            return Some(
                HaltingState::Reject(
                    HaltingStateReason::Unexpected(InternalHaltingStateReason::ExceededMaxTapes),
                ),
            );
        }

        if state_set_contains(&self.accepting_states, &self.current_state) {
            return Some(HaltingState::Accept);
        }

        if self.history.len() >= self.true_bounds.max_steps as usize {
            return Some(
                HaltingState::Reject(
                    HaltingStateReason::Unexpected(InternalHaltingStateReason::ExceededMaxSteps),
                ),
            );
        }

        let mut max_current_size: usize = 0;
        let mut i: usize = 0;
        while i < TAPES
            invariant
                i <= TAPES,
                self.tape@.len() == TAPES,
                max_current_size as int == saturated(max_size(self.tape@.take(i as int))),
            decreases TAPES - i,
        {
            let t = &self.tape.0[i];
            let size = t.left.len().saturating_add(t.right.len()).saturating_add(1);
            assert(self.tape@.take(i + 1).drop_last() =~= self.tape@.take(i as int));
            assert(self.tape@[i as int] == t@);
            if size > max_current_size {
                max_current_size = size;
            }
            i = i + 1;
        }
        assert(self.tape@.take(TAPES as int) =~= self.tape@);

        if max_current_size > self.true_bounds.true_tape_size as usize {
            return Some(
                HaltingState::Reject(
                    HaltingStateReason::Unexpected(InternalHaltingStateReason::ExceededMaxTapeSize),
                ),
            );
        }

        if let TapeTheoreticalSize::Finite(max_limit) = self.tape_size {
            if max_current_size >= max_limit as usize {
                return Some(HaltingState::Reject(HaltingStateReason::FiniteTapeLimit));
            }
        }
        None
    }

    fn run_once(&mut self) -> (r: Option<HaltingState>)
        ensures
            (r, final(self)@) == old(self)@.step(),
    {
        if let Some(verdict) = self.check_bounds() {
            return Some(verdict);
        }

        let current_symbols = self.tape.read();
        let reading_state = Reading { state: self.current_state, symbol: current_symbols };
        proof {
            let chosen = array_of::<TAPES>(heads_of(self@.tape));
            assert(chosen@ == heads_of(self@.tape));
            assert(chosen =~= current_symbols);
        }

        if let Some(transition) = array_table_get(&self.transitions, &reading_state) {
            let next_state = transition.next_state;
            let write_symbols = transition.write_symbol;
            let directions = transition.direction;
            let ghost before = self@;

            self.history.push((self.tape.clone(), self.current_state));
            assert(multi_history_view(self.history@) =~= before.history.push(
                (before.tape, before.current_state),
            ));

            let mut i: usize = 0;
            while i < TAPES
                invariant
                    i <= TAPES,
                    before.tape.len() == TAPES,
                    before == old(self)@,
                    before.bounds_verdict() is None,
                    before.transitions.contains_key(before.reading()),
                    before.transitions[before.reading()] == transition,
                    directions == transition.direction,
                    write_symbols == transition.write_symbol,
                    multi_history_view(self.history@) == before.history.push(
                        (before.tape, before.current_state),
                    ),
                    first_fault(before.tape, directions@, before.tape_size, before.move_type, i as nat)
                        is None,
                    self@ == (MultiMachineView {
                        tape: Seq::new(
                            TAPES as nat,
                            |j: int|
                                if j < i {
                                    before.tape[j].shifted(write_symbols@[j], directions@[j])
                                } else {
                                    before.tape[j]
                                },
                        ),
                        history: before.history.push((before.tape, before.current_state)),
                        ..before
                    }),
                decreases TAPES - i,
            {
                let new_symbol = write_symbols[i];
                let direction = directions[i];
                assert(self.tape@[i as int] == before.tape[i as int]);

                match direction {
                    Direction::Left => {
                        if self.tape.0[i].left.len() == 0 {
                            assert(before.tape[i as int].left.len() == 0) by {
                                assert(self.tape@[i as int] == self.tape.0@[i as int]@);
                            }
                            if self.tape_size == TapeTheoreticalSize::SemiInfinite(
                                TapeBoundary::Left,
                            ) {
                                proof {
                                    lemma_first_fault_sticks(
                                        before.tape,
                                        directions@,
                                        before.tape_size,
                                        before.move_type,
                                        (i + 1) as nat,
                                        TAPES as nat,
                                    );
                                }
                                self.drop_step();
                                return Some(HaltingState::Reject(HaltingStateReason::HitWall));
                            }
                        }
                    },
                    Direction::Right => {
                        if self.tape.0[i].right.len() == 0 {
                            assert(before.tape[i as int].right.len() == 0) by {
                                assert(self.tape@[i as int] == self.tape.0@[i as int]@);
                            }
                            if self.tape_size == TapeTheoreticalSize::SemiInfinite(
                                TapeBoundary::Right,
                            ) {
                                proof {
                                    lemma_first_fault_sticks(
                                        before.tape,
                                        directions@,
                                        before.tape_size,
                                        before.move_type,
                                        (i + 1) as nat,
                                        TAPES as nat,
                                    );
                                }
                                self.drop_step();
                                return Some(HaltingState::Reject(HaltingStateReason::HitWall));
                            }
                        }
                    },
                    Direction::Stay => {
                        if self.move_type == MoveType::Strict {
                            proof {
                                lemma_first_fault_sticks(
                                    before.tape,
                                    directions@,
                                    before.tape_size,
                                    before.move_type,
                                    (i + 1) as nat,
                                    TAPES as nat,
                                );
                            }
                            self.drop_step();
                            return Some(
                                HaltingState::Reject(
                                    HaltingStateReason::Unexpected(
                                        InternalHaltingStateReason::InvalidTransition,
                                    ),
                                ),
                            );
                        }
                    },
                }
                self.shift_tape(i, new_symbol, direction);
                assert(self@.tape =~= Seq::new(
                    TAPES as nat,
                    |j: int|
                        if j < i + 1 {
                            before.tape[j].shifted(write_symbols@[j], directions@[j])
                        } else {
                            before.tape[j]
                        },
                ));
                i = i + 1;
            }

            self.current_state = next_state;
            assert(self@.tape =~= shift_all(before.tape, write_symbols@, directions@));
            return None;
        }

        Some(HaltingState::Reject(HaltingStateReason::NoTransition))
    }

    fn run(&mut self) -> (r: HaltingState)
        ensures
            (r, final(self)@) == old(self)@.run_outcome(),
    {
        loop
            invariant
                self@.run_outcome() == old(self)@.run_outcome(),
            decreases self@.steps_left(),
        {
            let ghost before = self@;
            if let Some(halt_state) = self.run_once() {
                return halt_state;
            }
            assert(before.step().0 is None);
        }
    }

    #[inline]
    fn reset(&mut self)
        ensures
            final(self)@ == old(self)@.restarted(),
    {
        self.tape = self.initial_tape.clone();
        self.current_state = self.initial_state;
        self.history.clear();
        assert(multi_history_view(self.history@) =~= Seq::empty());
    }

    #[inline]
    fn back(&mut self)
        ensures
            final(self)@ == old(self)@.undone(),
    {
        let ghost before = self@;
        if let Some((tape, state)) = self.history.pop() {
            assert(multi_history_view(self.history@) =~= before.history.drop_last());
            self.tape = tape;
            self.current_state = state;
        }
    }
}

/// Taking back a step that the machine took returns it to exactly where it
/// was: `run_once` followed by `back` is the identity on a machine that moved.
pub proof fn lemma_back_undoes_step<const TAPES: usize>(v: MultiMachineView<TAPES>)
    requires
        v.step().0 is None,
    ensures
        v.step().1.undone() == v,
{
    let n = v.step().1;
    assert(n.history.drop_last() =~= v.history);
}

/// A step that stops the machine leaves it unchanged.
pub proof fn lemma_stop_changes_nothing<const TAPES: usize>(v: MultiMachineView<TAPES>)
    requires
        v.step().0 is Some,
    ensures
        v.step().1 == v,
{
}

/// A machine in an accepting state accepts at once, once the simulator allows its number of tapes.
pub proof fn lemma_accepting_state_accepts<const TAPES: usize>(v: MultiMachineView<TAPES>)
    requires
        v.accepting_states.contains(v.current_state),
        v.true_bounds.max_tapes as int >= TAPES as int,
    ensures
        v.step() == (Some(HaltingState::Accept), v),
{
}

/// A step that goes on records exactly one configuration and uses one unit
/// of the step limit; the transitions, the initial configuration, the
/// accepting states and the limits never change.
pub proof fn lemma_step_uses_one_step<const TAPES: usize>(v: MultiMachineView<TAPES>)
    requires
        v.step().0 is None,
    ensures
        v.step().1.history == v.history.push((v.tape, v.current_state)),
        v.step().1.steps_left() + 1 == v.steps_left(),
        v.step().1.transitions == v.transitions,
        v.step().1.initial_state == v.initial_state,
        v.step().1.initial_tape == v.initial_tape,
        v.step().1.accepting_states == v.accepting_states,
        v.step().1.true_bounds == v.true_bounds,
{
}

/// Resetting forgets every step: a machine reset after a step, or after a
/// step taken back, is the machine reset before it, and resetting twice is
/// resetting once.
pub proof fn lemma_reset_forgets_steps<const TAPES: usize>(v: MultiMachineView<TAPES>)
    ensures
        v.step().1.restarted() == v.restarted(),
        v.undone().restarted() == v.restarted(),
        v.restarted().restarted() == v.restarted(),
{
}

/// Running ends in a configuration whose step gives the verdict that the run
/// returned, reached from the start by steps: the history only grew, and by
/// no more than the step limit allowed.
pub proof fn lemma_run_stops_where_step_stops<const TAPES: usize>(v: MultiMachineView<TAPES>)
    ensures
        ({
            let (h, w) = v.run_outcome();
            &&& w.step() == (Some(h), w)
            &&& v.history.len() <= w.history.len() <= v.history.len() + v.steps_left()
            &&& w.history.subrange(0, v.history.len() as int) == v.history
            &&& w.transitions == v.transitions
            &&& w.initial_state == v.initial_state
            &&& w.initial_tape == v.initial_tape
            &&& w.true_bounds == v.true_bounds
        }),
    decreases v.steps_left(),
{
    let (verdict, next) = v.step();
    if verdict is None {
        lemma_run_stops_where_step_stops(next);
        let w = next.run_outcome().1;
        assert(w.history.subrange(0, v.history.len() as int) =~= w.history.subrange(
            0,
            next.history.len() as int,
        ).subrange(0, v.history.len() as int));
        assert(next.history.subrange(0, v.history.len() as int) =~= v.history);
    } else {
        assert(v.history.subrange(0, v.history.len() as int) =~= v.history);
    }
}

/// The size that the limits are held against is the size of the largest
/// tape: no tape is larger, and some tape has it (0 when there is none).
pub proof fn lemma_max_size_is_largest(tapes: Seq<TapeView>)
    ensures
        forall|i: int| 0 <= i < tapes.len() ==> #[trigger] tapes[i].size() <= max_size(tapes),
        tapes.len() == 0 ==> max_size(tapes) == 0,
        tapes.len() > 0 ==> exists|i: int|
            0 <= i < tapes.len() && max_size(tapes) == #[trigger] tapes[i].size(),
    decreases tapes.len(),
{
    if tapes.len() > 0 {
        let rest = tapes.drop_last();
        lemma_max_size_is_largest(rest);
        assert forall|i: int| 0 <= i < tapes.len() implies #[trigger] tapes[i].size() <= max_size(
            tapes,
        ) by {
            if i < rest.len() {
                assert(rest[i] == tapes[i]);
            }
        }
        if max_size(tapes) != tapes.last().size() {
            let k = choose|i: int| 0 <= i < rest.len() && max_size(rest) == #[trigger] rest[i].size();
            assert(rest[k] == tapes[k]);
        }
    }
}

/// The tape limits judge every tape: once the tape count, the accepting
/// states and the step limit let a step go on, a tape larger than the
/// simulator allows rejects it; failing that, a tape that reaches the size
/// of a finite tape rejects it; and with tapes within both limits the
/// limits let it go on.
pub proof fn lemma_limits_judge_every_tape<const TAPES: usize>(v: MultiMachineView<TAPES>)
    requires
        v.true_bounds.max_tapes as int >= TAPES as int,
        !v.accepting_states.contains(v.current_state),
        v.history.len() < v.true_bounds.max_steps,
    ensures
        (exists|i: int| 0 <= i < v.tape.len() && #[trigger] v.tape[i].size() > v.true_bounds.true_tape_size)
            ==> v.bounds_verdict() == Some(
            HaltingState::Reject(
                HaltingStateReason::Unexpected(InternalHaltingStateReason::ExceededMaxTapeSize),
            ),
        ),
        (forall|i: int| 0 <= i < v.tape.len() ==> #[trigger] v.tape[i].size() <= v.true_bounds.true_tape_size)
            ==> ((v.tape_size matches TapeTheoreticalSize::Finite(l) && exists|i: int|
            0 <= i < v.tape.len() && #[trigger] v.tape[i].size() >= l) ==> v.bounds_verdict() == Some(
            HaltingState::Reject(HaltingStateReason::FiniteTapeLimit),
        )),
        v.tape.len() > 0 && (forall|i: int|
            0 <= i < v.tape.len() ==> #[trigger] v.tape[i].size() <= v.true_bounds.true_tape_size
                && !(v.tape_size matches TapeTheoreticalSize::Finite(l) && v.tape[i].size() >= l))
            ==> v.bounds_verdict() is None,
{
    lemma_max_size_is_largest(v.tape);
}

/// A step that goes on follows the transition for the current state and the
/// symbols under the heads: tape `i` gets that transition's `i`-th symbol in
/// its head's cell and its head moved the `i`-th way; the machine enters the
/// transition's next state.
pub proof fn lemma_step_follows_transition<const TAPES: usize>(v: MultiMachineView<TAPES>)
    requires
        v.step().0 is None,
        v.tape.len() == TAPES,
    ensures
        v.transitions.contains_key(v.reading()),
        ({
            let a = v.transitions[v.reading()];
            &&& v.step().1.tape.len() == TAPES
            &&& forall|i: int|
                0 <= i < TAPES ==> writes_then_moves(
                    v.tape[i],
                    #[trigger] v.step().1.tape[i],
                    a.write_symbol@[i],
                    a.direction@[i],
                )
            &&& v.step().1.current_state == a.next_state
        }),
{
    let a = v.transitions[v.reading()];
    assert forall|i: int| 0 <= i < TAPES implies writes_then_moves(
        v.tape[i],
        #[trigger] v.step().1.tape[i],
        a.write_symbol@[i],
        a.direction@[i],
    ) by {
        lemma_shift_is_write_then_move(v.tape[i], a.write_symbol@[i], a.direction@[i]);
    }
}

/// Resetting puts the machine in its initial state on its initial tapes with
/// no history, keeping everything it was built with; a machine fresh from
/// its builder is already reset.
pub proof fn lemma_reset_restores_start<const TAPES: usize>(
    v: MultiMachineView<TAPES>,
    b: MultiBuilderView<TAPES>,
)
    ensures
        v.restarted().current_state == v.initial_state,
        v.restarted().tape == v.initial_tape,
        v.restarted().history.len() == 0,
        v.restarted().transitions == v.transitions,
        v.restarted().accepting_states == v.accepting_states,
        v.restarted().move_type == v.move_type,
        v.restarted().tape_size == v.tape_size,
        v.restarted().true_bounds == v.true_bounds,
        b.complete() ==> b.machine().restarted() == b.machine(),
        b.complete() ==> b.machine().current_state == b.initial_state.unwrap(),
{
}

} // verus!
