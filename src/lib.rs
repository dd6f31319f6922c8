//! Factorial of a 32-bit signed integer, with an error for negative input.
//!
//! The product is formed in `i32` arithmetic that wraps on overflow: for
//! inputs whose factorial exceeds `i32::MAX` (from 13 on) the result is the
//! true factorial reduced into the `i32` range, as two's complement
//! multiplication gives it.
use vstd::arithmetic::div_mod::lemma_mul_mod_noop_left;
use vstd::prelude::*;

verus! {

/// The message carried by the error for a negative input.
pub const NEGATIVE_INPUT_MESSAGE: &'static str = "Input must be non-negative";

/// Number of distinct `i32` values.
pub open spec fn i32_modulus() -> int {
    0x1_0000_0000
}

/// The product of the integers from 1 through `n`; 1 when `n` is 0.
pub open spec fn factorial_spec(n: nat) -> nat
    decreases n,
{
    if n == 0 {
        1
    } else {
        n * factorial_spec((n - 1) as nat)
    }
}

/// The `i32` value congruent to `x` modulo 2^32: what two's complement
/// arithmetic of that width leaves of `x`.
pub open spec fn wrap_i32(x: int) -> int {
    let m = x % i32_modulus();
    if m > i32::MAX {
        m - i32_modulus()
    } else {
        m
    }
}

/// The value `factorial` returns for `n`: the factorial of `n` when `n` is
/// not negative, wrapped into `i32`.
pub open spec fn factorial_result(n: int) -> Result<i32, &'static str> {
    if n < 0 {
        Err(NEGATIVE_INPUT_MESSAGE)
    } else {
        Ok(wrap_i32(factorial_spec(n as nat) as int) as i32)
    }
}

proof fn lemma_wrap_i32_range(x: int)
    ensures
        i32::MIN <= wrap_i32(x) <= i32::MAX,
{
}

proof fn lemma_wrap_i32_small(x: int)
    requires
        0 <= x <= i32::MAX,
    ensures
        wrap_i32(x) == x,
{
    vstd::arithmetic::div_mod::lemma_small_mod(x as nat, i32_modulus() as nat);
}

/// Multiplying the wrapped value by `k` and wrapping again gives the same as
/// wrapping the exact product.
proof fn lemma_wrap_i32_mul(x: int, k: int)
    ensures
        wrap_i32(wrap_i32(x) * k) == wrap_i32(x * k),
{
    let m = i32_modulus();
    let w = wrap_i32(x);
    assert((w * k) % m == (x * k) % m) by {
        lemma_mul_mod_noop_left(x, k, m);
        if w != x % m {
            lemma_mul_mod_noop_left(w, k, m);
            assert(w % m == x % m) by {
                vstd::arithmetic::div_mod::lemma_mod_sub_multiples_vanish(x % m, m);
                vstd::arithmetic::div_mod::lemma_mod_twice(x, m);
            }
        }
    }
}

proof fn lemma_factorial_monotonic(a: nat, b: nat)
    requires
        a <= b,
    ensures
        factorial_spec(a) <= factorial_spec(b),
    decreases b,
{
    if a < b {
        lemma_factorial_monotonic(a, (b - 1) as nat);
        let prev = factorial_spec((b - 1) as nat);
        assert(prev <= b * prev) by (nonlinear_arith)
            requires
                1 <= b,
        ;
    }
}

/// Step law: for `n >= 1` whose factorial fits in `i32`, `factorial(n)`
/// equals `n * factorial(n - 1)`, both succeeding.
pub proof fn lemma_factorial_step(n: i32)
    requires
        1 <= n,
        factorial_spec(n as nat) <= i32::MAX,
    ensures
        factorial_result(n as int) is Ok,
        factorial_result(n - 1) is Ok,
        factorial_result(n as int)->Ok_0 == n * factorial_result(n - 1)->Ok_0,
{
    let prev = factorial_spec((n - 1) as nat);
    lemma_factorial_monotonic((n - 1) as nat, n as nat);
    lemma_wrap_i32_small(factorial_spec(n as nat) as int);
    lemma_wrap_i32_small(prev as int);
}

/// Overflow law: for every `n >= 1`, `factorial(n)` is `factorial(n - 1)`
/// multiplied by `n` in wrapping `i32` arithmetic.
pub proof fn lemma_factorial_wrapping_step(n: i32)
    requires
        1 <= n,
    ensures
        factorial_result(n as int) == Ok::<i32, &'static str>(
            (factorial_result(n - 1)->Ok_0).wrapping_mul(n),
        ),
{
    let prev = factorial_spec((n - 1) as nat) as int;
    lemma_wrap_i32_mul(prev, n as int);
    assert(factorial_spec(n as nat) == prev * n) by (nonlinear_arith)
        requires
            factorial_spec(n as nat) == n * prev,
    ;
    lemma_wrap_i32_range(prev);
    lemma_wrap_i32_range(factorial_spec(n as nat) as int);
}

/// The factorials of 0 through 12 fit in `i32`, so `factorial` returns them
/// exactly; the factorial of 13 does not fit.
pub proof fn lemma_factorial_exact_through_twelve(n: i32)
    requires
        0 <= n <= 12,
    ensures
        factorial_result(n as int) == Ok::<i32, &'static str>(factorial_spec(n as nat) as i32),
        factorial_spec(13) > i32::MAX,
{
    assert(factorial_spec(0) == 1);
    assert(factorial_spec(1) == 1);
    assert(factorial_spec(2) == 2);
    assert(factorial_spec(3) == 6);
    assert(factorial_spec(4) == 24);
    assert(factorial_spec(5) == 120);
    assert(factorial_spec(6) == 720);
    assert(factorial_spec(7) == 5040);
    assert(factorial_spec(8) == 40320);
    assert(factorial_spec(9) == 362880);
    assert(factorial_spec(10) == 3628800);
    assert(factorial_spec(11) == 39916800);
    assert(factorial_spec(12) == 479001600);
    assert(factorial_spec(13) == 6227020800);
    lemma_factorial_monotonic(n as nat, 12);
    lemma_wrap_i32_small(factorial_spec(n as nat) as int);
}

/// Computes the factorial of `n`, wrapping on `i32` overflow; fails with
/// `NEGATIVE_INPUT_MESSAGE` when `n` is negative.
pub fn factorial(n: i32) -> (r: Result<i32, &'static str>)
    ensures
        r == factorial_result(n as int),
        r is Err <==> n < 0,
{
    if n < 0 {
        return Err(NEGATIVE_INPUT_MESSAGE);
    }
    let mut result: i32 = 1;
    let mut i: i32 = 0;
    while i < n
        invariant
            0 <= i <= n,
            factorial_result(i as int) == Ok::<i32, &'static str>(result),
        decreases n - i,
    {
        i = i + 1;
        proof {
            lemma_factorial_wrapping_step(i);
        }
        result = result.wrapping_mul(i);
    }
    Ok(result)
}

} // verus!
