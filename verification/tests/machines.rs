use std::collections::VecDeque;

use tm_core::{
    Action, Computable, Direction, HaltingState, HaltingStateReason, InternalHaltingStateReason,
    MoveType, MultiHeadDTM, MultiHeadDTMBuilder, MultiHeadTape, MultiTape, MultiTapeDTMBuilder,
    Reading, SingleTape, SingleTapeDTM, SingleTapeDTMBuilder, State, TapeBoundary,
    TapeTheoraticalSize, TrueBounds, MAX_STEPS, MAX_TAPE_SIZE, N_HEADS, N_TAPES,
};

fn run_until_halt(tm: &mut SingleTapeDTM) -> HaltingState {
    loop {
        if let Some(halt_state) = tm.run_once() {
            return halt_state;
        }
    }
}

#[test]
fn test_bit_inverter_acceptance() {
    let state_0 = State(0);
    let accept_state = State(99);

    let initial_tape = SingleTape {
        left: vec![],
        head: Some('1'),
        right: vec![Some('1'), Some('0')],
    };

    let mut builder = SingleTapeDTMBuilder::new();
    builder
        .with_initial_state(state_0)
        .with_accepting_states(vec![accept_state])
        .with_tape(initial_tape)
        .with_move_type(MoveType::Strict)
        .with_tape_size(TapeTheoraticalSize::SemiInfinite(TapeBoundary::Left))
        .insert_transition(
            Reading {
                state: state_0,
                symbol: Some('1'),
            },
            Action {
                next_state: state_0,
                write_symbol: Some('0'),
                direction: Direction::Right,
            },
        )
        .insert_transition(
            Reading {
                state: state_0,
                symbol: Some('0'),
            },
            Action {
                next_state: state_0,
                write_symbol: Some('1'),
                direction: Direction::Right,
            },
        )
        .insert_transition(
            Reading {
                state: state_0,
                symbol: None,
            },
            Action {
                next_state: accept_state,
                write_symbol: None,
                direction: Direction::Right,
            },
        );

    let mut tm = builder.build().expect("Failed to build Turing machine");
    let result = run_until_halt(&mut tm);

    assert_eq!(result, HaltingState::Accept);
    assert_eq!(tm.current_state(), accept_state);

    let final_tape_visual = tm.tape().to_vec();
    assert_eq!(
        final_tape_visual,
        vec![Some('0'), Some('1'), Some('0'), None, None]
    );
}

fn blank_machine(
    tape: SingleTape,
    move_type: MoveType,
    size: TapeTheoraticalSize,
    transitions: Vec<(Reading<Option<char>>, Action<Option<char>, Direction>)>,
    accepting: Vec<State>,
) -> SingleTapeDTM {
    let mut builder = SingleTapeDTMBuilder::new();
    builder
        .with_initial_state(State(0))
        .with_accepting_states(accepting)
        .with_tape(tape)
        .with_move_type(move_type)
        .with_tape_size(size)
        .insert_transitions(transitions);
    builder.build().expect("complete builder")
}

fn tape(left: Vec<Option<char>>, head: Option<char>, right: Vec<Option<char>>) -> SingleTape {
    SingleTape { left, head, right }
}

fn act(next: u16, write: Option<char>, direction: Direction) -> Action<Option<char>, Direction> {
    Action { next_state: State(next), write_symbol: write, direction }
}

fn at(state: u16, symbol: Option<char>) -> Reading<Option<char>> {
    Reading { state: State(state), symbol }
}

#[test]
fn single_tape_to_vec_reads_left_to_right() {
    let t = tape(vec![Some('a'), Some('b')], Some('c'), vec![Some('e'), Some('d')]);
    assert_eq!(t.read(), Some('c'));
    assert_eq!(
        t.to_vec(),
        vec![Some('a'), Some('b'), Some('c'), Some('d'), Some('e')]
    );
}

#[test]
fn build_needs_state_tape_move_type_and_size() {
    assert!(SingleTapeDTMBuilder::new().build().is_none());
    let mut b = SingleTapeDTMBuilder::new();
    b.with_initial_state(State(0))
        .with_tape(tape(vec![], None, vec![]))
        .with_move_type(MoveType::Strict);
    assert!(b.clone().build().is_none());
    b.with_tape_size(TapeTheoraticalSize::Infinite);
    assert!(b.build().is_some());
}

#[test]
fn accepting_state_accepts_before_any_transition() {
    let mut tm = blank_machine(
        tape(vec![], None, vec![]),
        MoveType::Strict,
        TapeTheoraticalSize::Infinite,
        vec![],
        vec![State(0)],
    );
    assert_eq!(tm.check_bounds(), Some(HaltingState::Accept));
    assert_eq!(tm.run_once(), Some(HaltingState::Accept));
    assert_eq!(tm.steps_taken(), 0);
}

#[test]
fn missing_transition_rejects() {
    let mut tm = blank_machine(
        tape(vec![], Some('x'), vec![]),
        MoveType::Strict,
        TapeTheoraticalSize::Infinite,
        vec![(at(0, Some('y')), act(0, None, Direction::Right))],
        vec![],
    );
    assert_eq!(
        tm.run(),
        HaltingState::Reject(HaltingStateReason::NoTransition)
    );
}

#[test]
fn left_wall_rejects_and_changes_nothing() {
    let mut tm = blank_machine(
        tape(vec![], Some('x'), vec![Some('y')]),
        MoveType::Strict,
        TapeTheoraticalSize::SemiInfinite(TapeBoundary::Left),
        vec![(at(0, Some('x')), act(1, Some('z'), Direction::Left))],
        vec![],
    );
    assert_eq!(
        tm.run_once(),
        Some(HaltingState::Reject(HaltingStateReason::HitWall))
    );
    assert_eq!(tm.current_state(), State(0));
    assert_eq!(tm.tape().to_vec(), vec![Some('x'), Some('y')]);
    assert_eq!(tm.steps_taken(), 0);
}

#[test]
fn right_wall_rejects() {
    let mut tm = blank_machine(
        tape(vec![Some('w')], Some('x'), vec![]),
        MoveType::Strict,
        TapeTheoraticalSize::SemiInfinite(TapeBoundary::Right),
        vec![(at(0, Some('x')), act(1, Some('z'), Direction::Right))],
        vec![],
    );
    assert_eq!(
        tm.run(),
        HaltingState::Reject(HaltingStateReason::HitWall)
    );
    assert_eq!(tm.tape().to_vec(), vec![Some('w'), Some('x')]);
}

#[test]
fn moving_off_an_infinite_tape_brings_a_blank() {
    let mut tm = blank_machine(
        tape(vec![], Some('x'), vec![]),
        MoveType::Strict,
        TapeTheoraticalSize::Infinite,
        vec![(at(0, Some('x')), act(1, Some('z'), Direction::Left))],
        vec![State(1)],
    );
    assert_eq!(tm.run_once(), None);
    assert_eq!(tm.tape().to_vec(), vec![None, Some('z')]);
    assert_eq!(tm.tape().read(), None);
    assert_eq!(tm.current_state(), State(1));
    assert_eq!(tm.run_once(), Some(HaltingState::Accept));
}

#[test]
fn strict_machine_may_not_stay() {
    let transitions = vec![(at(0, Some('x')), act(1, Some('z'), Direction::Stay))];
    let mut strict = blank_machine(
        tape(vec![], Some('x'), vec![]),
        MoveType::Strict,
        TapeTheoraticalSize::Infinite,
        transitions.clone(),
        vec![State(1)],
    );
    assert_eq!(
        strict.run(),
        HaltingState::Reject(HaltingStateReason::Unexpected(
            InternalHaltingStateReason::InvalidTransition
        ))
    );
    assert_eq!(strict.tape().to_vec(), vec![Some('x')]);

    let mut relaxed = blank_machine(
        tape(vec![], Some('x'), vec![]),
        MoveType::NonStrict,
        TapeTheoraticalSize::Infinite,
        transitions,
        vec![State(1)],
    );
    assert_eq!(relaxed.run(), HaltingState::Accept);
    assert_eq!(relaxed.tape().to_vec(), vec![Some('z')]);
}

#[test]
fn finite_tape_limit_rejects() {
    let mut tm = blank_machine(
        tape(vec![Some('a')], Some('b'), vec![Some('c')]),
        MoveType::Strict,
        TapeTheoraticalSize::Finite(3),
        vec![(at(0, Some('b')), act(0, Some('b'), Direction::Right))],
        vec![],
    );
    assert_eq!(
        tm.run_once(),
        Some(HaltingState::Reject(HaltingStateReason::FiniteTapeLimit))
    );
}

#[test]
fn simulator_tape_limit_rejects() {
    let mut builder = SingleTapeDTMBuilder::new();
    builder
        .with_initial_state(State(0))
        .with_tape(tape(vec![Some('a')], Some('b'), vec![Some('c')]))
        .with_move_type(MoveType::Strict)
        .with_tape_size(TapeTheoraticalSize::Infinite)
        .with_bounds(TrueBounds {
            true_tape_size: 2,
            max_steps: 10,
            max_tapes: 1,
            max_heads: 1,
        });
    let mut tm = builder.build().unwrap();
    assert_eq!(
        tm.run(),
        HaltingState::Reject(HaltingStateReason::Unexpected(
            InternalHaltingStateReason::ExceededMaxTapeSize
        ))
    );
}

#[test]
fn step_limit_stops_a_looping_machine() {
    let mut builder = SingleTapeDTMBuilder::new();
    builder
        .with_initial_state(State(0))
        .with_tape(tape(vec![], None, vec![]))
        .with_move_type(MoveType::NonStrict)
        .with_tape_size(TapeTheoraticalSize::Infinite)
        .with_bounds(TrueBounds {
            true_tape_size: 100,
            max_steps: 5,
            max_tapes: 1,
            max_heads: 1,
        })
        .insert_transition(at(0, None), act(0, None, Direction::Stay));
    let mut tm = builder.build().unwrap();
    assert_eq!(
        tm.run(),
        HaltingState::Reject(HaltingStateReason::Unexpected(
            InternalHaltingStateReason::ExceededMaxSteps
        ))
    );
    assert_eq!(tm.steps_taken(), 5);
}

#[test]
fn back_takes_a_step_back_and_reset_starts_over() {
    let mut tm = blank_machine(
        tape(vec![], Some('1'), vec![Some('0')]),
        MoveType::Strict,
        TapeTheoraticalSize::Infinite,
        vec![
            (at(0, Some('1')), act(1, Some('0'), Direction::Right)),
            (at(1, Some('0')), act(2, Some('1'), Direction::Right)),
        ],
        vec![],
    );
    assert_eq!(tm.run_once(), None);
    assert_eq!(tm.run_once(), None);
    assert_eq!(tm.steps_taken(), 2);
    assert_eq!(tm.tape().to_vec(), vec![Some('0'), Some('1'), None]);
    tm.back();
    assert_eq!(tm.current_state(), State(1));
    assert_eq!(tm.tape().to_vec(), vec![Some('0'), Some('0')]);
    assert_eq!(tm.steps_taken(), 1);
    tm.reset();
    assert_eq!(tm.current_state(), State(0));
    assert_eq!(tm.tape().to_vec(), vec![Some('1'), Some('0')]);
    assert_eq!(tm.steps_taken(), 0);
    tm.back();
    assert_eq!(tm.current_state(), State(0));
    assert_eq!(tm.steps_taken(), 0);
}

#[test]
fn first_transition_for_a_reading_stays() {
    let mut builder = SingleTapeDTMBuilder::new();
    builder
        .with_initial_state(State(0))
        .with_tape(tape(vec![], Some('a'), vec![]))
        .with_move_type(MoveType::Strict)
        .with_tape_size(TapeTheoraticalSize::Infinite)
        .with_accepting_states(vec![State(1), State(2)])
        .insert_transition(at(0, Some('a')), act(1, Some('x'), Direction::Right))
        .insert_transition(at(0, Some('a')), act(2, Some('y'), Direction::Right))
        .insert_transitions(vec![(at(0, Some('a')), act(2, Some('y'), Direction::Left))]);
    let mut tm = builder.build().unwrap();
    assert_eq!(tm.run(), HaltingState::Accept);
    assert_eq!(tm.current_state(), State(1));
    assert_eq!(tm.tape().to_vec(), vec![Some('x'), None]);
}

#[test]
fn defaults() {
    let b = TrueBounds::default();
    assert_eq!(b.true_tape_size, MAX_TAPE_SIZE);
    assert_eq!(b.max_steps, MAX_STEPS);
    assert_eq!(b.max_tapes, N_TAPES);
    assert_eq!(b.max_heads, N_HEADS);
    assert_eq!(
        TapeTheoraticalSize::default(),
        TapeTheoraticalSize::SemiInfinite(TapeBoundary::Left)
    );
    assert_eq!(MAX_TAPE_SIZE, 5_000);
    assert_eq!(MAX_STEPS, 10_000);
}

#[test]
fn two_tapes_copy_and_accept() {
    let mut builder = MultiTapeDTMBuilder::<2>::new();
    builder
        .with_initial_state(State(0))
        .with_tapes(MultiTape([
            tape(vec![], Some('a'), vec![Some('b')]),
            tape(vec![], None, vec![]),
        ]))
        .with_accepting_states(vec![State(1)])
        .with_move_type(MoveType::Strict)
        .with_tape_size(TapeTheoraticalSize::Infinite)
        .insert_transitions(vec![
            (
                Reading { state: State(0), symbol: [Some('a'), None] },
                Action {
                    next_state: State(0),
                    write_symbol: [Some('a'), Some('a')],
                    direction: [Direction::Right, Direction::Right],
                },
            ),
            (
                Reading { state: State(0), symbol: [Some('b'), None] },
                Action {
                    next_state: State(0),
                    write_symbol: [Some('b'), Some('b')],
                    direction: [Direction::Right, Direction::Right],
                },
            ),
            (
                Reading { state: State(0), symbol: [None, None] },
                Action {
                    next_state: State(1),
                    write_symbol: [None, None],
                    direction: [Direction::Left, Direction::Left],
                },
            ),
        ]);
    let mut tm = builder.build().unwrap();
    assert_eq!(tm.tape().read(), [Some('a'), None]);
    assert_eq!(tm.run(), HaltingState::Accept);
    assert_eq!(tm.current_state(), State(1));
    assert_eq!(tm.tape().read(), [Some('b'), Some('b')]);
    assert_eq!(
        tm.tape().to_vecs(),
        vec![
            vec![Some('a'), Some('b'), None],
            vec![Some('a'), Some('b'), None],
        ]
    );
    assert_eq!(tm.steps_taken(), 3);
    tm.back();
    assert_eq!(tm.current_state(), State(0));
    assert_eq!(tm.tape().read(), [None, None]);
    tm.reset();
    assert_eq!(tm.tape().read(), [Some('a'), None]);
    assert_eq!(tm.steps_taken(), 0);
}

#[test]
fn too_many_tapes_are_refused() {
    let mut builder = MultiTapeDTMBuilder::<2>::new();
    builder
        .with_initial_state(State(0))
        .with_tapes(MultiTape([tape(vec![], None, vec![]), tape(vec![], None, vec![])]))
        .with_accepting_states(vec![State(0)])
        .with_move_type(MoveType::Strict)
        .with_tape_size(TapeTheoraticalSize::Infinite)
        .with_bounds(TrueBounds {
            true_tape_size: 10,
            max_steps: 10,
            max_tapes: 1,
            max_heads: 1,
        });
    let mut tm = builder.build().unwrap();
    assert_eq!(
        tm.run(),
        HaltingState::Reject(HaltingStateReason::Unexpected(
            InternalHaltingStateReason::ExceededMaxTapes
        ))
    );
}

#[test]
fn a_blocked_second_tape_undoes_the_first() {
    let mut builder = MultiTapeDTMBuilder::<2>::new();
    builder
        .with_initial_state(State(0))
        .with_tapes(MultiTape([
            tape(vec![], Some('a'), vec![Some('b')]),
            tape(vec![], Some('c'), vec![]),
        ]))
        .with_move_type(MoveType::Strict)
        .with_tape_size(TapeTheoraticalSize::SemiInfinite(TapeBoundary::Right))
        .insert_transition(
            Reading { state: State(0), symbol: [Some('a'), Some('c')] },
            Action {
                next_state: State(5),
                write_symbol: [Some('x'), Some('y')],
                direction: [Direction::Right, Direction::Right],
            },
        );
    let mut tm = builder.build().unwrap();
    assert_eq!(
        tm.run_once(),
        Some(HaltingState::Reject(HaltingStateReason::HitWall))
    );
    assert_eq!(tm.current_state(), State(0));
    assert_eq!(
        tm.tape().to_vecs(),
        vec![vec![Some('a'), Some('b')], vec![Some('c')]]
    );
    assert_eq!(tm.steps_taken(), 0);
}

#[test]
fn multi_head_tape_reads_blank_beyond_the_tape() {
    let t = MultiHeadTape::<3> {
        memory: VecDeque::from(vec![Some('a'), Some('b')]),
        head_positions: [1, 0, 7],
        offset: 0,
    };
    assert_eq!(t.read(), [Some('b'), Some('a'), None]);
    assert_eq!(t.to_vec(), VecDeque::from(vec![Some('a'), Some('b')]));
}

fn head_machine(
    t: MultiHeadTape<2>,
    size: TapeTheoraticalSize,
    move_type: MoveType,
    reading: [Option<char>; 2],
    action: Action<[Option<char>; 2], [Direction; 2]>,
) -> MultiHeadDTM<2> {
    let mut builder = MultiHeadDTMBuilder::<2>::new();
    builder
        .with_initial_state(State(0))
        .with_tape(t)
        .with_accepting_states(vec![State(9)])
        .with_move_type(move_type)
        .with_tape_size(size)
        .insert_transitions(vec![(Reading { state: State(0), symbol: reading }, action)]);
    builder.build().unwrap()
}

#[test]
fn multi_head_step_writes_then_moves() {
    let t = MultiHeadTape::<2> {
        memory: VecDeque::from(vec![Some('a'), Some('b')]),
        head_positions: [0, 1],
        offset: 0,
    };
    let mut tm = head_machine(
        t,
        TapeTheoraticalSize::Infinite,
        MoveType::Strict,
        [Some('a'), Some('b')],
        Action {
            next_state: State(9),
            write_symbol: [Some('x'), Some('y')],
            direction: [Direction::Left, Direction::Right],
        },
    );
    assert_eq!(tm.run_once(), None);
    assert_eq!(tm.current_state(), State(9));
    assert_eq!(
        tm.tape().to_vec(),
        VecDeque::from(vec![None, Some('x'), Some('y'), None])
    );
    assert_eq!(tm.tape().head_positions, [0, 3]);
    assert_eq!(tm.tape().offset, -1);
    assert_eq!(tm.run(), HaltingState::Accept);
    tm.back();
    assert_eq!(tm.current_state(), State(0));
    assert_eq!(tm.tape().head_positions, [0, 1]);
    assert_eq!(tm.tape().to_vec(), VecDeque::from(vec![Some('a'), Some('b')]));
    tm.reset();
    assert_eq!(tm.steps_taken(), 0);
}

#[test]
fn multi_head_wall_undoes_the_writes() {
    let t = MultiHeadTape::<2> {
        memory: VecDeque::from(vec![Some('a'), Some('b')]),
        head_positions: [0, 1],
        offset: 0,
    };
    let mut tm = head_machine(
        t,
        TapeTheoraticalSize::SemiInfinite(TapeBoundary::Right),
        MoveType::Strict,
        [Some('a'), Some('b')],
        Action {
            next_state: State(9),
            write_symbol: [Some('x'), Some('y')],
            direction: [Direction::Right, Direction::Right],
        },
    );
    assert_eq!(
        tm.run_once(),
        Some(HaltingState::Reject(HaltingStateReason::HitWall))
    );
    assert_eq!(tm.tape().to_vec(), VecDeque::from(vec![Some('a'), Some('b')]));
    assert_eq!(tm.tape().head_positions, [0, 1]);
    assert_eq!(tm.current_state(), State(0));
}

#[test]
fn multi_head_strict_stay_and_finite_limit() {
    let t = || MultiHeadTape::<2> {
        memory: VecDeque::from(vec![Some('a'), Some('b')]),
        head_positions: [0, 1],
        offset: 0,
    };
    let action = Action {
        next_state: State(9),
        write_symbol: [Some('a'), Some('b')],
        direction: [Direction::Right, Direction::Stay],
    };
    let mut strict = head_machine(
        t(),
        TapeTheoraticalSize::Infinite,
        MoveType::Strict,
        [Some('a'), Some('b')],
        action,
    );
    assert_eq!(
        strict.run(),
        HaltingState::Reject(HaltingStateReason::Unexpected(
            InternalHaltingStateReason::InvalidTransition
        ))
    );
    let mut finite = head_machine(
        t(),
        TapeTheoraticalSize::Finite(2),
        MoveType::NonStrict,
        [Some('a'), Some('b')],
        action,
    );
    assert_eq!(
        finite.run(),
        HaltingState::Reject(HaltingStateReason::FiniteTapeLimit)
    );
    let mut relaxed = head_machine(
        t(),
        TapeTheoraticalSize::Infinite,
        MoveType::NonStrict,
        [Some('a'), Some('b')],
        action,
    );
    assert_eq!(relaxed.run(), HaltingState::Accept);
    assert_eq!(relaxed.tape().head_positions, [1, 1]);
}

#[test]
fn a_finished_run_stays_finished() {
    let mut tm = blank_machine(
        tape(vec![], Some('1'), vec![Some('1')]),
        MoveType::Strict,
        TapeTheoraticalSize::Infinite,
        vec![(at(0, Some('1')), act(0, Some('0'), Direction::Right))],
        vec![],
    );
    let verdict = tm.run();
    assert_eq!(verdict, HaltingState::Reject(HaltingStateReason::NoTransition));
    assert_eq!(tm.steps_taken(), 2);
    assert_eq!(tm.run_once(), Some(verdict));
    assert_eq!(tm.steps_taken(), 2);
    assert_eq!(tm.tape().to_vec(), vec![Some('0'), Some('0'), None]);
}

#[test]
fn moving_a_head_off_the_front_keeps_what_others_read() {
    let t = MultiHeadTape::<2> {
        memory: VecDeque::from(vec![Some('a'), Some('b')]),
        head_positions: [0, 1],
        offset: 0,
    };
    let mut tm = head_machine(
        t,
        TapeTheoraticalSize::Infinite,
        MoveType::NonStrict,
        [Some('a'), Some('b')],
        Action {
            next_state: State(9),
            write_symbol: [Some('a'), Some('b')],
            direction: [Direction::Left, Direction::Stay],
        },
    );
    assert_eq!(tm.run_once(), None);
    assert_eq!(tm.tape().read(), [None, Some('b')]);
    assert_eq!(tm.tape().head_positions, [0, 2]);
    assert_eq!(tm.tape().offset, -1);
}
