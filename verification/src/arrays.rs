//! Indexed-storage exercises: summing a prefix of a vector and
//! filling one with a value, both driven by an explicit length.

use vstd::prelude::*;

verus! {

/// The sum of the first n elements; zero when n is not positive.
pub open spec fn prefix_sum(s: Seq<i32>, n: int) -> int
    decreases n,
{
    if n <= 0 {
        0
    } else {
        prefix_sum(s, n - 1) + s[n - 1]
    }
}

pub fn array_sum(arr: &Vec<i32>, length: i32) -> (r: i32)
    requires
        length <= arr@.len(),
        forall|k: int|
            0 <= k <= length ==> i32::MIN <= #[trigger] prefix_sum(arr@, k) <= i32::MAX,
    ensures
        r == prefix_sum(arr@, length as int),
{
    let mut sum: i32 = 0;
    let mut i: i32 = 0;
    while i < length
        invariant
            0 <= i,
            i <= (if length >= 0 { length as int } else { 0 }),
            length <= arr@.len(),
            sum == prefix_sum(arr@, i as int),
            forall|k: int|
                0 <= k <= length ==> i32::MIN <= #[trigger] prefix_sum(arr@, k) <= i32::MAX,
        decreases length - i,
    {
        proof {
            assert(prefix_sum(arr@, i + 1) == prefix_sum(arr@, i as int) + arr@[i as int]);
        }
        sum = sum + arr[i as usize];
        i = i + 1;
    }
    sum
}

pub fn array_fill(arr: &mut Vec<i32>, length: i32, value: i32)
    requires
        length <= old(arr)@.len(),
    ensures
        final(arr)@.len() == old(arr)@.len(),
        forall|k: int| 0 <= k < length ==> final(arr)@[k] == value,
        forall|k: int| length <= k < old(arr)@.len() && 0 <= k ==> final(arr)@[k] == old(arr)@[k],
{
    let mut i: i32 = 0;
    while i < length
        invariant
            0 <= i,
            i <= (if length >= 0 { length as int } else { 0 }),
            length <= arr@.len(),
            arr@.len() == old(arr)@.len(),
            forall|k: int| 0 <= k < i ==> arr@[k] == value,
            forall|k: int| i <= k < arr@.len() ==> arr@[k] == old(arr)@[k],
        decreases length - i,
    {
        arr.set(i as usize, value);
        i = i + 1;
    }
}

} // verus!
