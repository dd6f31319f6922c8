use factorial::{factorial, NEGATIVE_INPUT_MESSAGE};

#[test]
fn negative_inputs_are_rejected() {
    for n in [-1, -2, -5, -100, i32::MIN] {
        assert_eq!(factorial(n), Err(NEGATIVE_INPUT_MESSAGE));
    }
    assert_eq!(NEGATIVE_INPUT_MESSAGE, "Input must be non-negative");
}

#[test]
fn zero_gives_one() {
    assert_eq!(factorial(0), Ok(1));
}

#[test]
fn one_gives_one() {
    assert_eq!(factorial(1), Ok(1));
}

#[test]
fn five_gives_120() {
    assert_eq!(factorial(5), Ok(120));
}

#[test]
fn ten_gives_3628800() {
    assert_eq!(factorial(10), Ok(3628800));
}

#[test]
fn twelve_is_the_largest_exact_result() {
    assert_eq!(factorial(12), Ok(479001600));
    let exact: i64 = (1..=13).product();
    assert!(exact > i32::MAX as i64);
}

#[test]
fn step_law_holds_without_overflow() {
    for n in 1..=12 {
        let current = factorial(n).unwrap();
        let previous = factorial(n - 1).unwrap();
        assert_eq!(current, n * previous);
    }
}

#[test]
fn thirteen_wraps() {
    // 13! = 6227020800, which is 1932053504 modulo 2^32.
    assert_eq!(factorial(13), Ok(1932053504));
}

#[test]
fn twenty_wraps() {
    // 20! = 2432902008176640000, which wraps to -2102132736 in i32.
    assert_eq!(factorial(20), Ok(-2102132736));
}

#[test]
fn wrapping_step_law_holds_past_overflow() {
    for n in 1..=40 {
        let current = factorial(n).unwrap();
        let previous = factorial(n - 1).unwrap();
        assert_eq!(current, previous.wrapping_mul(n));
    }
}

#[test]
fn results_match_wide_arithmetic_reduced_to_i32() {
    let mut exact: i128 = 1;
    for n in 0..=30 {
        if n > 0 {
            exact = (exact * n as i128) % (1i128 << 64);
        }
        assert_eq!(factorial(n), Ok(exact as i32));
    }
}

#[test]
fn largest_input_wraps_to_zero() {
    // The product contains more than 32 factors of two, so it wraps to zero.
    assert_eq!(factorial(34), Ok(0));
    assert_eq!(factorial(1000), Ok(0));
}
