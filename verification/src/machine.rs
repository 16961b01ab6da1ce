//! A minimal single-tape, two-state machine: a fixed-length tape of
//! binary symbols, a head starting at the midpoint, a hard-coded
//! transition table, and a step-budgeted run loop. A transition that
//! would push the head off the tape is refused with `OutOfBounds` and
//! leaves the machine untouched; reaching `Halt` freezes the machine
//! for good.

use vstd::prelude::*;

verus! {

/// Number of cells on the tape.
pub const TAPE_LEN: usize = 100;

#[derive(Clone, Copy, Debug, PartialEq, Eq, Structural)]
pub enum TapeSymbol {
    Zero,
    One,
}

#[derive(Clone, Copy, Debug, PartialEq, Eq, Structural)]
pub enum State {
    A,
    B,
    Halt,
}

/// The recoverable signal that a transition would move the head
/// outside the tape.
#[derive(Clone, Copy, Debug, PartialEq, Eq, Structural)]
pub struct OutOfBounds;

/// One row of the transition table: the symbol to write, the head
/// movement, and the next control state.
#[derive(Clone, Copy, Debug, PartialEq, Eq, Structural)]
pub struct Rule {
    pub write: TapeSymbol,
    pub mv: i32,
    pub next: State,
}

/// The transition table as a total mapping of (control state, symbol
/// under head) to (symbol to write, head delta, next state). The
/// halting state has no transition of its own; its row is never
/// consulted and reads as a do-nothing self-loop.
pub open spec fn transition(state: State, symbol: TapeSymbol) -> (TapeSymbol, int, State) {
    match (state, symbol) {
        (State::A, TapeSymbol::Zero) => (TapeSymbol::One, 1, State::B),
        (State::A, TapeSymbol::One) => (TapeSymbol::Zero, -1, State::B),
        (State::B, TapeSymbol::Zero) => (TapeSymbol::One, -1, State::A),
        (State::B, TapeSymbol::One) => (TapeSymbol::One, 1, State::Halt),
        (State::Halt, _) => (symbol, 0, State::Halt),
    }
}

/// The transition table, queryable as data.
pub fn transition_rule(state: State, symbol: TapeSymbol) -> (r: Rule)
    ensures
        (r.write, r.mv as int, r.next) == transition(state, symbol),
        -1 <= r.mv <= 1,
{
    match (state, symbol) {
        (State::A, TapeSymbol::Zero) => Rule { write: TapeSymbol::One, mv: 1, next: State::B },
        (State::A, TapeSymbol::One) => Rule { write: TapeSymbol::Zero, mv: -1, next: State::B },
        (State::B, TapeSymbol::Zero) => Rule { write: TapeSymbol::One, mv: -1, next: State::A },
        (State::B, TapeSymbol::One) => Rule { write: TapeSymbol::One, mv: 1, next: State::Halt },
        (State::Halt, _) => Rule { write: symbol, mv: 0, next: State::Halt },
    }
}

/// The mathematical configuration of a machine: everything a step
/// depends on and everything it may change.
#[verifier::ext_equal]
pub ghost struct Config {
    pub tape: Seq<TapeSymbol>,
    pub head: int,
    pub state: State,
    pub steps: int,
}

impl Config {
    pub open spec fn wf(self) -> bool {
        self.tape.len() == TAPE_LEN && 0 <= self.head < TAPE_LEN && 0 <= self.steps <= i32::MAX
    }
}

/// One transition of a non-halted configuration: writes, moves,
/// switches state and counts the step — or refuses with `None` when
/// the move would leave the tape.
pub open spec fn spec_step(c: Config) -> Option<Config> {
    let t = transition(c.state, c.tape[c.head]);
    let h2 = c.head + t.1;
    if 0 <= h2 < c.tape.len() {
        Some(
            Config {
                tape: c.tape.update(c.head, t.0),
                head: h2,
                state: t.2,
                steps: c.steps + 1,
            },
        )
    } else {
        None
    }
}

/// Up to `budget` transitions from `c`: the configuration reached,
/// and whether a transition was refused for leaving the tape.
pub open spec fn spec_run(c: Config, budget: nat) -> (Config, bool)
    decreases budget,
{
    if c.state == State::Halt || budget == 0 {
        (c, false)
    } else {
        match spec_step(c) {
            Some(c2) => spec_run(c2, (budget - 1) as nat),
            None => (c, true),
        }
    }
}

/// The step budget a run call grants: a negative budget grants none.
pub open spec fn budget_of(max_steps: i32) -> nat {
    if max_steps >= 0 {
        max_steps as nat
    } else {
        0
    }
}

/// The configuration every machine starts from: tape all zero, head
/// at the midpoint, control state `A`, no steps taken.
pub open spec fn initial_config() -> Config {
    Config {
        tape: Seq::new(TAPE_LEN as nat, |i: int| TapeSymbol::Zero),
        head: (TAPE_LEN / 2) as int,
        state: State::A,
        steps: 0,
    }
}

pub struct TuringMachine {
    tape: Vec<TapeSymbol>,
    head: usize,
    state: State,
    steps: i32,
}

impl TuringMachine {
    pub closed spec fn view(self) -> Config {
        Config {
            tape: self.tape@,
            head: self.head as int,
            state: self.state,
            steps: self.steps as int,
        }
    }

    pub open spec fn wf(self) -> bool {
        self@.wf()
    }
}

pub fn tm_new() -> (tm: TuringMachine)
    ensures
        tm.wf(),
        tm@ == initial_config(),
{
    let tm = tm_with_head(TAPE_LEN / 2);
    proof {
        assert(tm@ =~= initial_config());
    }
    tm
}

/// A machine as freshly created, except that the head starts on the
/// given cell: the hook tests use to drive the head toward an edge.
pub fn tm_with_head(head: usize) -> (tm: TuringMachine)
    requires
        head < TAPE_LEN,
    ensures
        tm.wf(),
        tm@ == (Config { head: head as int, ..initial_config() }),
{
    let mut tape: Vec<TapeSymbol> = Vec::new();
    let mut i: usize = 0;
    while i < TAPE_LEN
        invariant
            i <= TAPE_LEN,
            tape@.len() == i,
            forall|j: int| 0 <= j < i ==> tape@[j] == TapeSymbol::Zero,
        decreases TAPE_LEN - i,
    {
        tape.push(TapeSymbol::Zero);
        i = i + 1;
    }
    let tm = TuringMachine { tape, head, state: State::A, steps: 0 };
    proof {
        assert(tm@ =~= Config { head: head as int, ..initial_config() });
    }
    tm
}

pub fn tm_is_halted(tm: &TuringMachine) -> (r: bool)
    ensures
        r == (tm@.state == State::Halt),
{
    match tm.state {
        State::Halt => true,
        _ => false,
    }
}

pub fn tm_state(tm: &TuringMachine) -> (r: State)
    ensures
        r == tm@.state,
{
    tm.state
}

pub fn tm_steps_taken(tm: &TuringMachine) -> (r: i32)
    ensures
        r == tm@.steps,
{
    tm.steps
}

pub fn tm_head(tm: &TuringMachine) -> (r: usize)
    ensures
        r == tm@.head,
{
    tm.head
}

pub fn tm_tape_at(tm: &TuringMachine, i: usize) -> (r: TapeSymbol)
    requires
        tm.wf(),
        i < TAPE_LEN,
    ensures
        r == tm@.tape[i as int],
{
    tm.tape[i]
}

/// The step counter never falls during a run, and grows by at most
/// the budget.
pub proof fn lemma_spec_run_steps(c: Config, budget: nat)
    ensures
        c.steps <= spec_run(c, budget).0.steps <= c.steps + budget,
    decreases budget,
{
    if c.state != State::Halt && budget > 0 {
        match spec_step(c) {
            Some(c2) => {
                lemma_spec_run_steps(c2, (budget - 1) as nat);
            },
            None => {},
        }
    }
}

/// Applies at most one transition. A halted machine is left alone; a
/// transition whose move would leave the tape is refused whole — no
/// write, no move, no state change, no counted step.
pub fn tm_step(tm: &mut TuringMachine) -> (r: Result<(), OutOfBounds>)
    requires
        old(tm).wf(),
        old(tm)@.state != State::Halt && spec_step(old(tm)@) is Some ==> old(tm)@.steps
            < i32::MAX,
    ensures
        final(tm).wf(),
        old(tm)@.state == State::Halt ==> r == Ok::<(), OutOfBounds>(()) && final(tm)@ == old(
            tm,
        )@,
        old(tm)@.state != State::Halt ==> match spec_step(old(tm)@) {
            Some(c) => r == Ok::<(), OutOfBounds>(()) && final(tm)@ == c,
            None => r == Err::<(), OutOfBounds>(OutOfBounds) && final(tm)@ == old(tm)@,
        },
{
    match tm.state {
        State::Halt => {
            return Ok(());
        },
        _ => {},
    }
    let symbol = tm.tape[tm.head];
    let rule = transition_rule(tm.state, symbol);
    let new_head: usize;
    if rule.mv >= 0 {
        let nh = tm.head + (rule.mv as usize);
        if nh >= TAPE_LEN {
            return Err(OutOfBounds);
        }
        new_head = nh;
    } else {
        if tm.head == 0 {
            return Err(OutOfBounds);
        }
        new_head = tm.head - 1;
    }
    tm.tape.set(tm.head, rule.write);
    tm.head = new_head;
    tm.state = rule.next;
    tm.steps = tm.steps + 1;
    proof {
        let c = spec_step(old(tm)@).unwrap();
        assert(tm@ =~= c);
    }
    Ok(())
}

/// Invokes `tm_step` until the machine halts or the budget is spent,
/// and returns the machine's running total of transitions. A refused
/// transition surfaces as `OutOfBounds` with the machine as the
/// preceding steps left it. Run on a halted machine, this changes
/// nothing and returns the total unchanged.
pub fn tm_run(tm: &mut TuringMachine, max_steps: i32) -> (r: Result<i32, OutOfBounds>)
    requires
        old(tm).wf(),
        spec_run(old(tm)@, budget_of(max_steps)).0.steps <= i32::MAX,
    ensures
        final(tm).wf(),
        final(tm)@ == spec_run(old(tm)@, budget_of(max_steps)).0,
        spec_run(old(tm)@, budget_of(max_steps)).1 ==> r == Err::<i32, OutOfBounds>(OutOfBounds),
        !spec_run(old(tm)@, budget_of(max_steps)).1 ==> r == Ok::<i32, OutOfBounds>(
            spec_run(old(tm)@, budget_of(max_steps)).0.steps as i32,
        ),
{
    let ghost target = spec_run(old(tm)@, budget_of(max_steps));
    let mut i: i32 = 0;
    while i < max_steps
        invariant_except_break
            tm.wf(),
            0 <= i,
            i <= (if max_steps > 0 { max_steps as int } else { 0 }),
            target == spec_run(old(tm)@, budget_of(max_steps)),
            target.0.steps <= i32::MAX,
            spec_run(tm@, (budget_of(max_steps) - i) as nat) == target,
        ensures
            tm.wf(),
            target == (tm@, false),
        decreases max_steps - i,
    {
        if tm_is_halted(tm) {
            break;
        }
        proof {
            let rem = (budget_of(max_steps) - i) as nat;
            if let Some(c2) = spec_step(tm@) {
                lemma_spec_run_steps(c2, (rem - 1) as nat);
            }
        }
        match tm_step(tm) {
            Ok(()) => {},
            Err(e) => {
                return Err(e);
            },
        }
        i = i + 1;
    }
    Ok(tm.steps)
}

/// Once a machine has halted, any further run leaves its
/// configuration untouched and reports no refusal: repeated run calls
/// after halting keep returning the same step total.
pub proof fn lemma_run_after_halt(c: Config, budget: nat)
    requires
        c.state == State::Halt,
    ensures
        spec_run(c, budget) == (c, false),
{
}

/// A run with an empty budget applies no transition: the
/// configuration, and with it the step total, stays as it was.
pub proof fn lemma_run_zero_budget(c: Config)
    ensures
        spec_run(c, 0) == (c, false),
{
}

} // verus!
