//! A Collatz step counter with a give-up limit: it follows the
//! halve-or-triple orbit of its argument and reports how many steps
//! reach one, or a sentinel when the limit is spent — or when the
//! next value would not fit the machine word, the one departure from
//! unbounded arithmetic.

use vstd::prelude::*;

verus! {

/// Steps granted before the counter gives up.
pub const COLLATZ_STEP_LIMIT: i32 = 10000;

/// The count an orbit starting at `c` with `s` steps already taken
/// ends with: the final tally when one is reached, minus one when the
/// step limit is spent or the next tripled value would leave the
/// `i32` range.
pub open spec fn collatz_count(c: int, s: int) -> int
    decreases COLLATZ_STEP_LIMIT - s,
{
    if c == 1 {
        s
    } else if s >= COLLATZ_STEP_LIMIT {
        -1
    } else if c % 2 == 0 {
        collatz_count(c / 2, s + 1)
    } else if 3 * c + 1 > i32::MAX || 3 * c + 1 < i32::MIN {
        -1
    } else {
        collatz_count(3 * c + 1, s + 1)
    }
}

pub fn collatz_steps(n: i32) -> (r: i32)
    ensures
        r == collatz_count(n as int, 0),
{
    let mut steps: i32 = 0;
    let mut current: i32 = n;
    while current != 1
        invariant_except_break
            0 <= steps <= COLLATZ_STEP_LIMIT,
            collatz_count(current as int, steps as int) == collatz_count(n as int, 0),
        ensures
            current == 1,
            collatz_count(current as int, steps as int) == collatz_count(n as int, 0),
        decreases COLLATZ_STEP_LIMIT - steps,
    {
        if current % 2 == 0 {
            current = current / 2;
        } else {
            let tripled: i64 = 3 * (current as i64) + 1;
            if tripled > i32::MAX as i64 || tripled < i32::MIN as i64 {
                return -1;
            }
            current = tripled as i32;
        }
        steps = steps + 1;
        if steps > COLLATZ_STEP_LIMIT {
            return -1;
        }
    }
    steps
}

} // verus!
