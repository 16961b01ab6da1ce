//! Pure arithmetic helpers: the basic operators with overflow ruled
//! out by precondition, truncating division with a zero-divisor
//! guard, and the classic loop/recursion exercises (triangular sums,
//! factorials, Fibonacci numbers).

use vstd::prelude::*;

verus! {

/// Truncating (round-toward-zero) division, the division the machine
/// performs on signed integers; `/` on `int` in specifications is
/// Euclidean, so the negative cases are spelled out.
pub open spec fn trunc_div(a: int, b: int) -> int {
    if a == 0 {
        0
    } else if a > 0 && b > 0 {
        a / b
    } else if a < 0 && b < 0 {
        (a * -1) / (b * -1)
    } else if a < 0 {
        ((a * -1) / b) * -1
    } else {
        (a / (b * -1)) * -1
    }
}

pub fn add(a: i32, b: i32) -> (r: i32)
    requires
        i32::MIN <= a + b <= i32::MAX,
    ensures
        r == a + b,
{
    a + b
}

pub fn subtract(a: i32, b: i32) -> (r: i32)
    requires
        i32::MIN <= a - b <= i32::MAX,
    ensures
        r == a - b,
{
    a - b
}

pub fn multiply(a: i32, b: i32) -> (r: i32)
    requires
        i32::MIN <= a * b <= i32::MAX,
    ensures
        r == a * b,
{
    a * b
}

/// The quotient of two `i32` values stays inside the `i32` range, as
/// long as the one overflowing pair (the minimum divided by minus
/// one) is excluded.
proof fn lemma_trunc_div_in_range(a: int, b: int)
    requires
        i32::MIN <= a <= i32::MAX,
        i32::MIN <= b <= i32::MAX,
        b != 0,
        !(a == i32::MIN && b == -1),
    ensures
        i32::MIN <= trunc_div(a, b) <= i32::MAX,
{
    if a == 0 {
    } else if a > 0 && b > 0 {
        vstd::arithmetic::div_mod::lemma_div_pos_is_pos(a, b);
        vstd::arithmetic::div_mod::lemma_div_nonincreasing(a, b);
    } else if a < 0 && b < 0 {
        let x = a * -1;
        let d = b * -1;
        vstd::arithmetic::div_mod::lemma_div_pos_is_pos(x, d);
        if a == i32::MIN {
            vstd::arithmetic::div_mod::lemma_div_is_ordered_by_denominator(x, 2, d);
            assert(x / 2 == 0x4000_0000);
        } else {
            vstd::arithmetic::div_mod::lemma_div_nonincreasing(x, d);
        }
    } else if a < 0 {
        let x = a * -1;
        vstd::arithmetic::div_mod::lemma_div_pos_is_pos(x, b);
        vstd::arithmetic::div_mod::lemma_div_nonincreasing(x, b);
    } else {
        let d = b * -1;
        vstd::arithmetic::div_mod::lemma_div_pos_is_pos(a, d);
        vstd::arithmetic::div_mod::lemma_div_nonincreasing(a, d);
    }
}

/// Division that treats a zero divisor as zero instead of failing.
pub fn divide(a: i32, b: i32) -> (r: i32)
    requires
        !(a == i32::MIN && b == -1),
    ensures
        b == 0 ==> r == 0,
        b != 0 ==> r == trunc_div(a as int, b as int),
{
    if b == 0 {
        return 0;
    }
    proof {
        lemma_trunc_div_in_range(a as int, b as int);
    }
    match a.checked_div(b) {
        Some(q) => q,
        None => 0,
    }
}

pub fn absolute(x: i32) -> (r: i32)
    requires
        x != i32::MIN,
    ensures
        r == (if x < 0 { -(x as int) } else { x as int }),
{
    if x < 0 {
        -x
    } else {
        x
    }
}

pub fn max(a: i32, b: i32) -> (r: i32)
    ensures
        r == (if a > b { a as int } else { b as int }),
{
    if a > b {
        a
    } else {
        b
    }
}

/// The sum 1 + 2 + ... + n; zero when n is not positive.
pub open spec fn sum_up_to(n: int) -> int
    decreases n,
{
    if n <= 0 {
        0
    } else {
        n + sum_up_to(n - 1)
    }
}

pub proof fn lemma_sum_up_to_nonneg(n: int)
    ensures
        sum_up_to(n) >= 0,
    decreases n,
{
    if n > 0 {
        lemma_sum_up_to_nonneg(n - 1);
    }
}

pub proof fn lemma_sum_up_to_monotone(i: int, n: int)
    requires
        i <= n,
    ensures
        sum_up_to(i) <= sum_up_to(n),
    decreases n - i,
{
    if i < n {
        lemma_sum_up_to_monotone(i, n - 1);
    }
}

/// Beyond rank two the triangular sum outgrows its own rank.
proof fn lemma_sum_up_to_exceeds(n: int)
    requires
        n >= 2,
    ensures
        sum_up_to(n) > n,
{
    lemma_sum_up_to_nonneg(n - 2);
    assert(sum_up_to(n - 1) == (n - 1) + sum_up_to(n - 2));
    assert(sum_up_to(n) == n + sum_up_to(n - 1));
}

pub fn sum_to_n(n: i32) -> (r: i32)
    requires
        sum_up_to(n as int) <= i32::MAX,
    ensures
        r == sum_up_to(n as int),
{
    proof {
        if n == i32::MAX {
            lemma_sum_up_to_exceeds(n as int);
        }
    }
    let mut sum: i32 = 0;
    let mut i: i32 = 1;
    while i <= n
        invariant
            1 <= i,
            n < i32::MAX,
            i <= (if n >= 0 { n + 1 } else { 1 }),
            sum == sum_up_to(i - 1),
            sum_up_to(n as int) <= i32::MAX,
        decreases n + 1 - i,
    {
        proof {
            lemma_sum_up_to_nonneg(i - 1);
            lemma_sum_up_to_monotone(i as int, n as int);
        }
        sum = sum + i;
        i = i + 1;
    }
    sum
}

/// The factorial of n; one when n is below two.
pub open spec fn fact(n: int) -> int
    decreases n,
{
    if n <= 1 {
        1
    } else {
        n * fact(n - 1)
    }
}

pub proof fn lemma_fact_pos(n: int)
    ensures
        fact(n) >= 1,
    decreases n,
{
    if n > 1 {
        lemma_fact_pos(n - 1);
        let f = fact(n - 1);
        assert(n * f >= 1) by (nonlinear_arith)
            requires
                n >= 2,
                f >= 1,
        ;
    }
}

pub proof fn lemma_fact_monotone(i: int, n: int)
    requires
        i <= n,
    ensures
        fact(i) <= fact(n),
    decreases n - i,
{
    if i < n {
        lemma_fact_monotone(i, n - 1);
        if n > 1 {
            lemma_fact_pos(n - 1);
            let f = fact(n - 1);
            assert(n * f >= f) by (nonlinear_arith)
                requires
                    n >= 2,
                    f >= 1,
            ;
        }
    }
}

/// Beyond rank two the factorial outgrows its own rank.
proof fn lemma_fact_exceeds(n: int)
    requires
        n >= 3,
    ensures
        fact(n) > n,
{
    assert(fact(1) == 1);
    assert(fact(2) == 2);
    lemma_fact_monotone(2, n - 1);
    let f = fact(n - 1);
    assert(n * f > n) by (nonlinear_arith)
        requires
            n >= 3,
            f >= 2,
    ;
}

pub fn factorial_iterative(n: i32) -> (r: i32)
    requires
        fact(n as int) <= i32::MAX,
    ensures
        r == fact(n as int),
{
    proof {
        if n == i32::MAX {
            lemma_fact_exceeds(n as int);
        }
    }
    let mut result: i32 = 1;
    let mut i: i32 = 1;
    while i <= n
        invariant
            1 <= i,
            n < i32::MAX,
            i <= (if n >= 1 { n + 1 } else { 1 }),
            result == fact(i - 1),
            fact(n as int) <= i32::MAX,
        decreases n + 1 - i,
    {
        proof {
            lemma_fact_pos(i - 1);
            lemma_fact_monotone(i as int, n as int);
            assert(fact(i as int) == i * fact(i - 1));
        }
        result = result * i;
        i = i + 1;
    }
    result
}

pub fn factorial_recursive(n: i32) -> (r: i32)
    requires
        fact(n as int) <= i32::MAX,
    ensures
        r == fact(n as int),
    decreases n,
{
    if n <= 1 {
        return 1;
    }
    proof {
        lemma_fact_pos(n - 1);
        lemma_fact_monotone(n - 1, n as int);
    }
    let rest = factorial_recursive(n - 1);
    n * rest
}

/// The Fibonacci number of rank n, extended below rank two by
/// returning the rank itself (so rank zero gives zero and negative
/// ranks give themselves).
pub open spec fn fib(n: int) -> int
    decreases n,
{
    if n <= 1 {
        n
    } else {
        fib(n - 1) + fib(n - 2)
    }
}

pub proof fn lemma_fib_nonneg(n: int)
    requires
        n >= 0,
    ensures
        fib(n) >= 0,
    decreases n,
{
    if n > 1 {
        lemma_fib_nonneg(n - 1);
        lemma_fib_nonneg(n - 2);
    }
}

pub proof fn lemma_fib_step_up(n: int)
    requires
        n >= 1,
    ensures
        fib(n - 1) <= fib(n),
    decreases n,
{
    if n > 1 {
        lemma_fib_nonneg(n - 2);
    }
}

pub proof fn lemma_fib_monotone(i: int, n: int)
    requires
        0 <= i <= n,
    ensures
        fib(i) <= fib(n),
    decreases n - i,
{
    if i < n {
        lemma_fib_monotone(i, n - 1);
        lemma_fib_step_up(n);
    }
}

pub fn fibonacci(n: i32) -> (r: i32)
    requires
        fib(n as int) <= i32::MAX,
    ensures
        r == fib(n as int),
    decreases n,
{
    if n <= 1 {
        return n;
    }
    proof {
        lemma_fib_monotone(n - 2, n - 1);
        lemma_fib_step_up(n as int);
        lemma_fib_nonneg(n - 2);
        lemma_fib_nonneg(n - 1);
    }
    let a = fibonacci(n - 1);
    let b = fibonacci(n - 2);
    a + b
}

/// Every Fibonacci number that fits in `u128`, in order of rank: the
/// longest prefix of the sequence the type can hold.
pub fn fibonacci_sequence() -> (r: Vec<u128>)
    ensures
        r@.len() >= 2,
        forall|i: int| 0 <= i < r@.len() ==> r@[i] == fib(i),
        fib(r@.len() as int) > u128::MAX,
{
    let mut list: Vec<u128> = Vec::new();
    list.push(0);
    list.push(1);
    let mut a: u128 = 0;
    let mut b: u128 = 1;
    while a <= u128::MAX - b
        invariant
            list@.len() >= 2,
            a == fib(list@.len() - 2),
            b == fib(list@.len() - 1),
            forall|i: int| 0 <= i < list@.len() ==> list@[i] == fib(i),
        decreases u128::MAX - b, u128::MAX - a,
    {
        proof {
            let len = list@.len() as int;
            lemma_fib_monotone(len - 2, len - 1);
            if a == 0 && len > 3 {
                lemma_fib_monotone(1, len - 2);
                assert(false);
            }
        }
        let t = a + b;
        list.push(t);
        a = b;
        b = t;
    }
    list
}

} // verus!
