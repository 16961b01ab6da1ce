use turing_toy::machine::{
    tm_head, tm_is_halted, tm_new, tm_run, tm_state, tm_step, tm_steps_taken, tm_tape_at,
    tm_with_head, transition_rule, OutOfBounds, State, TapeSymbol, TAPE_LEN,
};

#[test]
fn fresh_machine_configuration() {
    let tm = tm_new();
    assert!(!tm_is_halted(&tm));
    assert_eq!(tm_state(&tm), State::A);
    assert_eq!(tm_head(&tm), TAPE_LEN / 2);
    assert_eq!(tm_steps_taken(&tm), 0);
    for i in 0..TAPE_LEN {
        assert_eq!(tm_tape_at(&tm, i), TapeSymbol::Zero);
    }
}

#[test]
fn transition_table_rows() {
    let r = transition_rule(State::A, TapeSymbol::Zero);
    assert_eq!((r.write, r.mv, r.next), (TapeSymbol::One, 1, State::B));
    let r = transition_rule(State::A, TapeSymbol::One);
    assert_eq!((r.write, r.mv, r.next), (TapeSymbol::Zero, -1, State::B));
    let r = transition_rule(State::B, TapeSymbol::Zero);
    assert_eq!((r.write, r.mv, r.next), (TapeSymbol::One, -1, State::A));
    let r = transition_rule(State::B, TapeSymbol::One);
    assert_eq!((r.write, r.mv, r.next), (TapeSymbol::One, 1, State::Halt));
}

#[test]
fn step_by_step_trace_to_halt() {
    let mut tm = tm_new();
    let expected = [
        (State::B, 51, 1),
        (State::A, 50, 2),
        (State::B, 49, 3),
        (State::A, 48, 4),
        (State::B, 49, 5),
        (State::Halt, 50, 6),
    ];
    for (state, head, steps) in expected {
        assert_eq!(tm_step(&mut tm), Ok(()));
        assert_eq!(tm_state(&tm), state);
        assert_eq!(tm_head(&tm), head);
        assert_eq!(tm_steps_taken(&tm), steps);
    }
    assert!(tm_is_halted(&tm));
    // a step on a halted machine changes nothing
    assert_eq!(tm_step(&mut tm), Ok(()));
    assert_eq!(tm_steps_taken(&tm), 6);
    assert_eq!(tm_head(&tm), 50);
}

#[test]
fn run_halts_after_six_transitions() {
    let mut tm = tm_new();
    assert_eq!(tm_run(&mut tm, 100), Ok(6));
    assert!(tm_is_halted(&tm));
    assert_eq!(tm_steps_taken(&tm), 6);
    // final tape: ones written at 48, 49 and 51, a zero written back at 50
    assert_eq!(tm_tape_at(&tm, 47), TapeSymbol::Zero);
    assert_eq!(tm_tape_at(&tm, 48), TapeSymbol::One);
    assert_eq!(tm_tape_at(&tm, 49), TapeSymbol::One);
    assert_eq!(tm_tape_at(&tm, 50), TapeSymbol::Zero);
    assert_eq!(tm_tape_at(&tm, 51), TapeSymbol::One);
    assert_eq!(tm_tape_at(&tm, 52), TapeSymbol::Zero);
}

#[test]
fn run_is_idempotent_once_halted() {
    let mut tm = tm_new();
    let first = tm_run(&mut tm, 100);
    assert_eq!(first, Ok(6));
    for _ in 0..5 {
        assert_eq!(tm_run(&mut tm, 100), Ok(6));
        assert!(tm_is_halted(&tm));
        assert_eq!(tm_steps_taken(&tm), 6);
        assert_eq!(tm_head(&tm), 50);
    }
}

#[test]
fn run_with_zero_budget_does_nothing() {
    let mut tm = tm_new();
    assert_eq!(tm_run(&mut tm, 0), Ok(0));
    assert_eq!(tm_steps_taken(&tm), 0);
    assert_eq!(tm_state(&tm), State::A);
    // a negative budget grants no steps either
    assert_eq!(tm_run(&mut tm, -7), Ok(0));
    assert_eq!(tm_steps_taken(&tm), 0);
}

#[test]
fn run_stops_at_the_budget() {
    let mut tm = tm_new();
    assert_eq!(tm_run(&mut tm, 3), Ok(3));
    assert!(!tm_is_halted(&tm));
    assert_eq!(tm_state(&tm), State::B);
    assert_eq!(tm_run(&mut tm, 100), Ok(6));
    assert!(tm_is_halted(&tm));
}

#[test]
fn step_off_the_edge_is_refused() {
    let mut tm = tm_with_head(TAPE_LEN - 1);
    // state A over a zero writes and moves right, off the tape
    assert_eq!(tm_step(&mut tm), Err(OutOfBounds));
    // the refused transition was not applied at all
    assert_eq!(tm_state(&tm), State::A);
    assert_eq!(tm_head(&tm), TAPE_LEN - 1);
    assert_eq!(tm_steps_taken(&tm), 0);
    assert_eq!(tm_tape_at(&tm, TAPE_LEN - 1), TapeSymbol::Zero);
}

#[test]
fn run_surfaces_the_refusal() {
    let mut tm = tm_with_head(TAPE_LEN - 1);
    assert_eq!(tm_run(&mut tm, 10), Err(OutOfBounds));
    assert_eq!(tm_steps_taken(&tm), 0);
    assert_eq!(tm_head(&tm), TAPE_LEN - 1);
}
