//! Small integer facts shared by the sizing and geometry modules.

use vstd::prelude::*;

verus! {

/// The smallest whole number of `divisor`-sized steps that covers `value`.
pub open spec fn ceil_div_spec(value: int, divisor: int) -> int {
    (value + divisor - 1) / divisor
}

/// Division that rounds toward zero, as Rust's integer `/` does, for a
/// positive divisor.
pub open spec fn trunc_div_spec(value: int, divisor: int) -> int {
    if value >= 0 {
        value / divisor
    } else {
        -((-value) / divisor)
    }
}

/// Rounding toward zero never moves a quotient past zero or past its
/// dividend.
pub proof fn lemma_trunc_div_between(value: int, divisor: int)
    requires
        divisor >= 1,
    ensures
        value >= 0 ==> 0 <= trunc_div_spec(value, divisor) <= value,
        value < 0 ==> value <= trunc_div_spec(value, divisor) <= 0,
{
    if value >= 0 {
        assert(0 <= value / divisor <= value) by (nonlinear_arith)
            requires
                value >= 0,
                divisor >= 1,
        ;
    } else {
        let m = -value;
        assert(0 <= m / divisor <= m) by (nonlinear_arith)
            requires
                m >= 0,
                divisor >= 1,
        ;
    }
}

/// Euclid's greatest common divisor.
pub open spec fn gcd_spec(a: nat, b: nat) -> nat
    decreases b,
{
    if b == 0 {
        a
    } else {
        gcd_spec(b, a % b)
    }
}

/// Integer division brackets its dividend.
pub proof fn lemma_div_bounds(x: int, d: int)
    requires
        0 <= x,
        0 < d,
    ensures
        0 <= x / d,
        (x / d) * d <= x,
        x < (x / d) * d + d,
        x % d == x - (x / d) * d,
{
    vstd::arithmetic::div_mod::lemma_fundamental_div_mod(x, d);
    vstd::arithmetic::div_mod::lemma_mod_bound(x, d);
    vstd::arithmetic::div_mod::lemma_div_pos_is_pos(x, d);
    assert((x / d) * d == d * (x / d)) by (nonlinear_arith);
}

/// `x / d` is the largest `q` with `q * d <= x`.
pub proof fn lemma_div_is_largest(x: int, d: int, q: int)
    requires
        0 <= x,
        0 < d,
        0 <= q,
    ensures
        q * d <= x <==> q <= x / d,
{
    lemma_div_bounds(x, d);
    if q <= x / d {
        assert(q * d <= (x / d) * d) by (nonlinear_arith)
            requires
                q <= x / d,
                0 < d,
        ;
    } else {
        assert(q * d >= (x / d + 1) * d) by (nonlinear_arith)
            requires
                q >= x / d + 1,
                0 < d,
        ;
        assert((x / d + 1) * d == (x / d) * d + d) by (nonlinear_arith);
    }
}

/// The ceiling quotient is the smallest `q` with `q * d >= x`.
pub proof fn lemma_ceil_div_is_smallest(x: int, d: int, q: int)
    requires
        0 <= x,
        0 < d,
        0 <= q,
    ensures
        0 <= ceil_div_spec(x, d),
        q * d >= x <==> q >= ceil_div_spec(x, d),
{
    let c = ceil_div_spec(x, d);
    lemma_div_bounds(x + d - 1, d);
    // c * d <= x + d - 1 < c * d + d, hence c * d >= x and (c - 1) * d < x.
    assert((c - 1) * d == c * d - d) by (nonlinear_arith);
    if q >= c {
        assert(q * d >= c * d) by (nonlinear_arith)
            requires
                q >= c,
                0 < d,
        ;
    } else {
        assert(q * d <= (c - 1) * d) by (nonlinear_arith)
            requires
                q <= c - 1,
                0 < d,
        ;
    }
}

/// Multiplying then dividing by a positive factor is the identity.
pub proof fn lemma_mul_div_cancel(k: int, d: int)
    requires
        0 <= k,
        0 < d,
    ensures
        (d * k) / d == k,
        (k * d) / d == k,
{
    vstd::arithmetic::div_mod::lemma_div_multiples_vanish(k, d);
    assert(k * d == d * k) by (nonlinear_arith);
}

/// The greatest common divisor of two numbers, not both zero, is positive
/// and divides both.
pub proof fn lemma_gcd_divides(a: nat, b: nat)
    requires
        a > 0 || b > 0,
    ensures
        gcd_spec(a, b) > 0,
        a % gcd_spec(a, b) == 0,
        b % gcd_spec(a, b) == 0,
    decreases b,
{
    if b == 0 {
        vstd::arithmetic::div_mod::lemma_mod_multiples_basic(1, a as int);
        vstd::arithmetic::div_mod::lemma_mod_multiples_basic(0, a as int);
    } else {
        let r = a % b;
        lemma_gcd_divides(b, r);
        let g = gcd_spec(b, r);
        assert(gcd_spec(a, b) == g);
        lemma_div_bounds(b as int, g as int);
        lemma_div_bounds(r as int, g as int);
        lemma_div_bounds(a as int, b as int);
        let k1 = (b as int) / (g as int);
        let k2 = (r as int) / (g as int);
        let q = (a as int) / (b as int);
        assert(b as int == k1 * g);
        assert(r as int == k2 * g);
        assert(a as int == q * b + r);
        assert(a as int == (k1 * q + k2) * g) by (nonlinear_arith)
            requires
                b as int == k1 * g,
                r as int == k2 * g,
                a as int == q * b + r,
        ;
        vstd::arithmetic::div_mod::lemma_mod_multiples_basic(k1 * q + k2, g as int);
    }
}

/// Bézout's identity: the greatest common divisor is an integer
/// combination of its arguments.
pub proof fn lemma_bezout(a: nat, b: nat) -> (xy: (int, int))
    ensures
        a * xy.0 + b * xy.1 == gcd_spec(a, b),
    decreases b,
{
    if b == 0 {
        (1, 0)
    } else {
        let r = a % b;
        let q = a / b;
        vstd::arithmetic::div_mod::lemma_fundamental_div_mod(a as int, b as int);
        let (x, y) = lemma_bezout(b, r);
        assert(a * y + b * (x - q * y) == b * x + r * y) by (nonlinear_arith)
            requires
                a == b * q + r,
        ;
        (y, x - q * y)
    }
}

} // verus!
