//! A small verified playground of computation primitives: arithmetic
//! helpers, array folds, a Collatz step counter, an explicit counter
//! object, a fixed-capacity saturating stack, and a bounded-tape
//! two-state machine with a step-budgeted run loop.

pub mod arith;
pub mod arrays;
pub mod collatz;
pub mod counter;
pub mod machine;
pub mod stack;
