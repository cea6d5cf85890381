//! Fixed-point helpers: the scale shared by lengths and time, and the integer
//! square root on which both normalisations of this crate rest.

use vstd::prelude::*;

verus! {

/// Thousandths in one world unit, and milliseconds in one second.
pub const UNIT: i64 = 1_000;

/// `r` is the square root of `n`, rounded down.
pub open spec fn is_floor_sqrt(n: nat, r: nat) -> bool {
    r * r <= n < (r + 1) * (r + 1)
}

/// The square root of `n`, rounded down.
pub open spec fn floor_sqrt(n: nat) -> nat {
    choose|r: nat| is_floor_sqrt(n, r)
}

/// Squaring keeps the order of natural numbers.
pub proof fn lemma_square_monotonic(a: nat, b: nat)
    requires
        a <= b,
    ensures
        a * a <= b * b,
{
    assert(a * a <= b * b) by (nonlinear_arith)
        requires
            a <= b,
    ;
}

/// Every natural number has a rounded-down square root.
pub proof fn lemma_floor_sqrt_exists(n: nat)
    ensures
        exists|r: nat| is_floor_sqrt(n, r),
    decreases n,
{
    if n == 0 {
        assert(is_floor_sqrt(0, 0)) by (nonlinear_arith);
    } else {
        let m: nat = (n - 1) as nat;
        lemma_floor_sqrt_exists(m);
        let r: nat = choose|r: nat| is_floor_sqrt(m, r);
        if (r + 1) * (r + 1) <= n {
            assert((r + 2) * (r + 2) > (r + 1) * (r + 1)) by (nonlinear_arith);
            assert(is_floor_sqrt(n, r + 1));
        } else {
            assert(is_floor_sqrt(n, r));
        }
    }
}

/// A number has only one rounded-down square root.
pub proof fn lemma_floor_sqrt_unique(n: nat, r: nat, s: nat)
    requires
        is_floor_sqrt(n, r),
        is_floor_sqrt(n, s),
    ensures
        r == s,
{
    if r < s {
        lemma_square_monotonic(r + 1, s);
    } else if s < r {
        lemma_square_monotonic(s + 1, r);
    }
}

/// Whatever meets the two bounds is the rounded-down square root.
pub proof fn lemma_floor_sqrt_is(n: nat, r: nat)
    requires
        is_floor_sqrt(n, r),
    ensures
        floor_sqrt(n) == r,
{
    lemma_floor_sqrt_unique(n, r, floor_sqrt(n));
}

/// The rounded-down square root meets its two bounds.
pub proof fn lemma_floor_sqrt_bounds(n: nat)
    ensures
        is_floor_sqrt(n, floor_sqrt(n)),
{
    lemma_floor_sqrt_exists(n);
}

/// Computes the square root of `n`, rounded down, by bisection.
pub fn isqrt(n: u128) -> (r: u64)
    ensures
        r == floor_sqrt(n as nat),
{
    let mut low: u128 = 0;
    let mut high: u128 = 0x1_0000_0000_0000_0000;
    assert(0x1_0000_0000_0000_0000u128 * 0x1_0000_0000_0000_0000u128 > u128::MAX)
        by (nonlinear_arith);
    while high - low > 1
        invariant
            low < high <= 0x1_0000_0000_0000_0000,
            low * low <= n < high * high,
        decreases high - low,
    {
        let mid: u128 = low + (high - low) / 2;
        assert(mid * mid <= u128::MAX) by (nonlinear_arith)
            requires
                mid < 0x1_0000_0000_0000_0000,
        ;
        if mid * mid <= n {
            low = mid;
        } else {
            high = mid;
        }
    }
    proof {
        lemma_floor_sqrt_is(n as nat, low as nat);
    }
    low as u64
}

/// The length of each side of a square whose diagonal is `a`, rounded down:
/// `a / sqrt(2)`.
pub open spec fn diagonal_part(a: nat) -> nat {
    floor_sqrt(a * a / 2)
}

/// `diagonal_part(a)` is the largest `c` with `c * c + c * c <= a * a`.
pub proof fn lemma_diagonal_part(a: nat)
    ensures
        diagonal_part(a) <= a,
        0 < a ==> diagonal_part(a) < a,
        2 * (diagonal_part(a) * diagonal_part(a)) <= a * a,
        a * a < 2 * ((diagonal_part(a) + 1) * (diagonal_part(a) + 1)),
{
    let c = diagonal_part(a);
    lemma_floor_sqrt_bounds(a * a / 2);
    if c >= a && 0 < a {
        lemma_square_monotonic(a, c);
        assert(0 < a * a) by (nonlinear_arith)
            requires
                0 < a,
        ;
    }
    if a == 0 {
        assert(c == 0) by (nonlinear_arith)
            requires
                2 * (c * c) <= a * a,
                a == 0,
        ;
    }
}

/// Computes `diagonal_part`.
pub fn diagonal(a: u64) -> (c: u64)
    ensures
        c == diagonal_part(a as nat),
        c <= a,
{
    assert(a * a <= u128::MAX) by (nonlinear_arith)
        requires
            a <= u64::MAX,
    ;
    let square: u128 = (a as u128) * (a as u128);
    proof {
        lemma_diagonal_part(a as nat);
    }
    isqrt(square / 2)
}

/// The share `a / sqrt(n)` of one whole (`UNIT`), rounded down: the largest
/// `c` with `c * c * n <= UNIT * UNIT * a * a`.
pub open spec fn unit_part(a: nat, n: nat) -> nat {
    floor_sqrt(((UNIT * UNIT * (a * a)) / (n as int)) as nat)
}

/// The two bounds that pin `unit_part(a, n)` down.
pub proof fn lemma_unit_part(a: nat, n: nat)
    requires
        0 < n,
    ensures
        unit_part(a, n) * unit_part(a, n) * n <= UNIT * UNIT * (a * a),
        UNIT * UNIT * (a * a) < (unit_part(a, n) + 1) * (unit_part(a, n) + 1) * n,
{
    let whole: nat = (UNIT * UNIT * (a * a)) as nat;
    let q: nat = (whole as int / n as int) as nat;
    let c: nat = unit_part(a, n);
    lemma_floor_sqrt_bounds(q);
    assert(q * n <= whole && whole < (q + 1) * n) by (nonlinear_arith)
        requires
            q == whole as int / n as int,
            0 < n,
    ;
    assert(c * c * n <= q * n) by (nonlinear_arith)
        requires
            c * c <= q,
    ;
    assert((q + 1) * n <= (c + 1) * (c + 1) * n) by (nonlinear_arith)
        requires
            q + 1 <= (c + 1) * (c + 1),
    ;
}

} // verus!
