//! A fixed-capacity LIFO store of integers with saturating behavior:
//! a push onto a full stack silently drops the value, a pop from an
//! empty stack returns a sentinel zero. Neither is an error.

use vstd::prelude::*;

verus! {

/// Number of slots a stack owns.
pub const STACK_CAPACITY: usize = 256;

/// A bounded stack. `top` counts the occupied slots and always
/// indexes the first free one; slots at or above `top` are stale and
/// never read through the public operations.
pub struct Stack {
    data: Vec<i32>,
    top: usize,
}

impl Stack {
    /// The slots a stack must keep allocated and the range of `top`.
    pub closed spec fn wf(self) -> bool {
        self.data@.len() == STACK_CAPACITY && self.top <= STACK_CAPACITY
    }

    /// The live contents, bottom first.
    pub closed spec fn view(self) -> Seq<i32> {
        self.data@.take(self.top as int)
    }
}

/// A push onto contents `s`: appended below capacity, dropped at it.
pub open spec fn spec_push(s: Seq<i32>, value: i32) -> Seq<i32> {
    if s.len() < STACK_CAPACITY {
        s.push(value)
    } else {
        s
    }
}

/// What a pop returns for contents `s`: the newest value, or the
/// sentinel zero when there is none.
pub open spec fn spec_pop_value(s: Seq<i32>) -> i32 {
    if s.len() > 0 {
        s.last()
    } else {
        0
    }
}

/// The contents a pop leaves behind.
pub open spec fn spec_pop_rest(s: Seq<i32>) -> Seq<i32> {
    if s.len() > 0 {
        s.drop_last()
    } else {
        s
    }
}

pub fn stack_new() -> (stack: Stack)
    ensures
        stack.wf(),
        stack@ == Seq::<i32>::empty(),
{
    let mut data: Vec<i32> = Vec::new();
    let mut i: usize = 0;
    while i < STACK_CAPACITY
        invariant
            i <= STACK_CAPACITY,
            data@.len() == i,
        decreases STACK_CAPACITY - i,
    {
        data.push(0);
        i = i + 1;
    }
    let stack = Stack { data, top: 0 };
    proof {
        assert(stack@ =~= Seq::<i32>::empty());
    }
    stack
}

pub fn stack_push(stack: &mut Stack, value: i32)
    requires
        old(stack).wf(),
    ensures
        final(stack).wf(),
        final(stack)@ == spec_push(old(stack)@, value),
{
    if stack.top < STACK_CAPACITY {
        stack.data.set(stack.top, value);
        stack.top = stack.top + 1;
        proof {
            assert(stack@ =~= spec_push(old(stack)@, value));
        }
    }
}

pub fn stack_pop(stack: &mut Stack) -> (value: i32)
    requires
        old(stack).wf(),
    ensures
        final(stack).wf(),
        value == spec_pop_value(old(stack)@),
        final(stack)@ == spec_pop_rest(old(stack)@),
{
    if stack.top > 0 {
        stack.top = stack.top - 1;
        let value = stack.data[stack.top];
        proof {
            assert(stack@ =~= spec_pop_rest(old(stack)@));
        }
        value
    } else {
        0
    }
}

pub fn stack_is_empty(stack: &Stack) -> (r: bool)
    requires
        stack.wf(),
    ensures
        r == (stack@.len() == 0),
{
    stack.top == 0
}

/// Pushing a whole sequence of values, oldest first.
pub open spec fn spec_push_all(s: Seq<i32>, vs: Seq<i32>) -> Seq<i32>
    decreases vs.len(),
{
    if vs.len() == 0 {
        s
    } else {
        spec_push_all(spec_push(s, vs.first()), vs.drop_first())
    }
}

/// The values that popping a stack dry returns, newest first.
pub open spec fn spec_pop_all(s: Seq<i32>) -> Seq<i32>
    decreases s.len(),
{
    if s.len() == 0 {
        Seq::empty()
    } else {
        seq![spec_pop_value(s)] + spec_pop_all(spec_pop_rest(s))
    }
}

/// While there is room, pushes simply append.
proof fn lemma_push_all_appends(s: Seq<i32>, vs: Seq<i32>)
    requires
        s.len() + vs.len() <= STACK_CAPACITY,
    ensures
        spec_push_all(s, vs) == s + vs,
    decreases vs.len(),
{
    if vs.len() == 0 {
        assert(spec_push_all(s, vs) =~= s + vs);
    } else {
        lemma_push_all_appends(s.push(vs.first()), vs.drop_first());
        assert(s.push(vs.first()) + vs.drop_first() =~= s + vs);
    }
}

/// Popping a stack dry returns its contents newest first.
proof fn lemma_pop_all_reverses(s: Seq<i32>)
    ensures
        spec_pop_all(s) == s.reverse(),
    decreases s.len(),
{
    if s.len() > 0 {
        lemma_pop_all_reverses(s.drop_last());
        assert(seq![s.last()] + s.drop_last().reverse() =~= s.reverse());
    } else {
        assert(spec_pop_all(s) =~= s.reverse());
    }
}

/// The LIFO law: pushing `vs` (no more than the capacity) onto an
/// empty stack stores exactly `vs`, and popping until empty hands the
/// values back newest first.
pub proof fn lemma_stack_lifo(vs: Seq<i32>)
    requires
        vs.len() <= STACK_CAPACITY,
    ensures
        spec_push_all(Seq::empty(), vs) == vs,
        spec_pop_all(vs) == vs.reverse(),
{
    lemma_push_all_appends(Seq::empty(), vs);
    assert(Seq::empty() + vs =~= vs);
    lemma_pop_all_reverses(vs);
}

/// Saturation: pushing one value more than the capacity silently
/// drops the overflowing newest value, so the stack holds the first
/// `STACK_CAPACITY` values and pops return those newest first.
pub proof fn lemma_stack_saturates(vs: Seq<i32>)
    requires
        vs.len() == STACK_CAPACITY + 1,
    ensures
        spec_push_all(Seq::empty(), vs) == vs.drop_last(),
        spec_pop_all(vs.drop_last()) == vs.drop_last().reverse(),
{
    lemma_push_all_appends(Seq::empty(), vs.drop_last());
    assert(Seq::empty() + vs.drop_last() =~= vs.drop_last());
    lemma_push_all_unrolls_to_last(vs);
    lemma_pop_all_reverses(vs.drop_last());
}

/// Pushing a nonempty sequence is pushing all but the last value,
/// then the last.
proof fn lemma_push_all_unrolls_to_last(vs: Seq<i32>)
    requires
        vs.len() == STACK_CAPACITY + 1,
    ensures
        spec_push_all(Seq::empty(), vs) == spec_push_all(Seq::empty(), vs.drop_last()),
{
    lemma_push_all_snoc(Seq::empty(), vs);
    lemma_push_all_appends(Seq::empty(), vs.drop_last());
    assert(Seq::empty() + vs.drop_last() =~= vs.drop_last());
}

/// Splitting the last value off a pushed sequence.
proof fn lemma_push_all_snoc(s: Seq<i32>, vs: Seq<i32>)
    requires
        vs.len() > 0,
    ensures
        spec_push_all(s, vs) == spec_push(spec_push_all(s, vs.drop_last()), vs.last()),
    decreases vs.len(),
{
    if vs.len() == 1 {
        let s1 = spec_push(s, vs.first());
        assert(vs.drop_first() =~= Seq::<i32>::empty());
        assert(vs.drop_last() =~= Seq::<i32>::empty());
        assert(spec_push_all(s, vs) == spec_push_all(s1, vs.drop_first()));
        assert(spec_push_all(s1, vs.drop_first()) == s1);
        assert(spec_push_all(s, vs.drop_last()) == s);
        assert(vs.first() == vs.last());
    } else {
        let s1 = spec_push(s, vs.first());
        let tail = vs.drop_first();
        lemma_push_all_snoc(s1, tail);
        assert(spec_push_all(s, vs) == spec_push_all(s1, tail));
        assert(tail.drop_last() =~= vs.drop_last().drop_first());
        assert(tail.last() == vs.last());
        assert(vs.drop_last().first() == vs.first());
        assert(spec_push_all(s, vs.drop_last()) == spec_push_all(
            spec_push(s, vs.drop_last().first()),
            vs.drop_last().drop_first(),
        ));
        assert(spec_push_all(s, vs.drop_last()) == spec_push_all(s1, tail.drop_last()));
    }
}

} // verus!
