//! A counter incrementable from many call sites, as an explicit
//! value the caller owns and threads through, never a process-wide
//! mutable global.

use vstd::prelude::*;

verus! {

pub struct Counter {
    value: i32,
}

impl Counter {
    /// The tally so far.
    pub closed spec fn spec_value(self) -> int {
        self.value as int
    }
}

pub fn counter_new() -> (c: Counter)
    ensures
        c.spec_value() == 0,
{
    Counter { value: 0 }
}

pub fn counter_increment(c: &mut Counter)
    requires
        old(c).spec_value() < i32::MAX,
    ensures
        final(c).spec_value() == old(c).spec_value() + 1,
{
    c.value = c.value + 1;
}

pub fn counter_get(c: &Counter) -> (r: i32)
    ensures
        r == c.spec_value(),
{
    c.value
}

} // verus!
