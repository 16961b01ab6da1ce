use turing_toy::collatz::collatz_steps;

#[test]
fn collatz_small_orbits() {
    assert_eq!(collatz_steps(1), 0);
    assert_eq!(collatz_steps(2), 1);
    assert_eq!(collatz_steps(4), 2);
    assert_eq!(collatz_steps(6), 8);
}

#[test]
fn collatz_twenty_seven() {
    assert_eq!(collatz_steps(27), 111);
}

#[test]
fn collatz_gives_up_when_one_is_never_reached() {
    // zero halves to itself forever
    assert_eq!(collatz_steps(0), -1);
    // negative values cycle below zero and never reach one
    assert_eq!(collatz_steps(-1), -1);
    assert_eq!(collatz_steps(-5), -1);
}
