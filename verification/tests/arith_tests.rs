use turing_toy::arith::{
    absolute, add, divide, factorial_iterative, factorial_recursive, fibonacci,
    fibonacci_sequence, max, multiply, subtract, sum_to_n,
};

#[test]
fn adds_and_subtracts() {
    assert_eq!(add(5, 3), 8);
    assert_eq!(add(-5, 3), -2);
    assert_eq!(subtract(10, 4), 6);
    assert_eq!(subtract(4, 10), -6);
    assert_eq!(multiply(6, 7), 42);
    assert_eq!(multiply(-6, 7), -42);
}

#[test]
fn divides_toward_zero() {
    assert_eq!(divide(20, 4), 5);
    assert_eq!(divide(7, 2), 3);
    assert_eq!(divide(-7, 2), -3);
    assert_eq!(divide(7, -2), -3);
    assert_eq!(divide(-7, -2), 3);
}

#[test]
fn divide_by_zero_yields_zero() {
    assert_eq!(divide(5, 0), 0);
    assert_eq!(divide(0, 0), 0);
    assert_eq!(divide(i32::MAX, 0), 0);
}

#[test]
fn absolute_and_max() {
    assert_eq!(absolute(-42), 42);
    assert_eq!(absolute(42), 42);
    assert_eq!(absolute(0), 0);
    assert_eq!(max(15, 23), 23);
    assert_eq!(max(23, 15), 23);
    assert_eq!(max(-5, -9), -5);
}

#[test]
fn sums_to_n() {
    assert_eq!(sum_to_n(10), 55);
    assert_eq!(sum_to_n(1), 1);
    assert_eq!(sum_to_n(0), 0);
    assert_eq!(sum_to_n(-5), 0);
    assert_eq!(sum_to_n(100), 5050);
}

#[test]
fn factorials_agree() {
    assert_eq!(factorial_iterative(5), 120);
    assert_eq!(factorial_recursive(5), 120);
    assert_eq!(factorial_iterative(0), 1);
    assert_eq!(factorial_recursive(0), 1);
    assert_eq!(factorial_iterative(1), 1);
    assert_eq!(factorial_recursive(6), 720);
    assert_eq!(factorial_iterative(12), 479_001_600);
    assert_eq!(factorial_recursive(12), 479_001_600);
}

#[test]
fn fibonacci_values() {
    assert_eq!(fibonacci(0), 0);
    assert_eq!(fibonacci(1), 1);
    assert_eq!(fibonacci(2), 1);
    assert_eq!(fibonacci(10), 55);
    assert_eq!(fibonacci(-3), -3);
}

#[test]
fn fibonacci_sequence_fills_the_type() {
    let seq = fibonacci_sequence();
    assert_eq!(seq.len(), 187);
    assert_eq!(&seq[..8], &[0, 1, 1, 2, 3, 5, 8, 13]);
    for i in 2..seq.len() {
        assert_eq!(seq[i], seq[i - 1] + seq[i - 2]);
    }
    let last = seq[seq.len() - 1];
    assert_eq!(last, 332825110087067562321196029789634457848u128);
    let previous = seq[seq.len() - 2];
    assert!(previous > u128::MAX - last);
}
