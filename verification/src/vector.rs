//! Two-dimensional vectors with integer components.

use vstd::prelude::*;
use crate::fixed::{isqrt, lemma_unit_part, unit_part, UNIT};

verus! {

/// A vector, or a position, in thousandths of a world unit.
#[derive(Clone, Copy, Debug, PartialEq, Eq, Structural)]
pub struct Vec2 {
    pub x: i64,
    pub y: i64,
}

/// The distance of `v` from zero.
pub open spec fn magnitude(v: int) -> nat {
    if v < 0 {
        (-v) as nat
    } else {
        v as nat
    }
}

/// `-1`, `0` or `1`, as `v` is below, at or above zero.
pub open spec fn signum(v: int) -> int {
    if v < 0 {
        -1
    } else if v > 0 {
        1
    } else {
        0
    }
}

/// One component of the vector of length `UNIT` that points the way of
/// `(x, y)`: `UNIT * a / sqrt(x * x + y * y)`, rounded towards zero, where
/// `a` is the component of `(x, y)` on the same axis.
pub open spec fn unit_component(a: int, x: int, y: int) -> int {
    signum(a) * unit_part(magnitude(a), (x * x + y * y) as nat)
}

impl Vec2 {
    /// The square of the vector's length.
    pub open spec fn length_squared(self) -> int {
        self.x * self.x + self.y * self.y
    }

    /// The vector with the components `x` and `y`.
    pub fn new(x: i64, y: i64) -> (v: Vec2)
        ensures
            v == (Vec2 { x, y }),
    {
        Vec2 { x, y }
    }

    /// The vector of length `UNIT` that points the way of `(x, y)`, each
    /// component rounded towards zero; `None` where `(x, y)` is zero and
    /// points nowhere.
    pub fn unit(x: i32, y: i32) -> (r: Option<Vec2>)
        ensures
            r is None <==> x == 0 && y == 0,
            r matches Some(v) ==> v.x == unit_component(x as int, x as int, y as int) && v.y
                == unit_component(y as int, x as int, y as int),
    {
        if x == 0 && y == 0 {
            return None;
        }
        let ax: u128 = if x < 0 {
            (-(x as i64)) as u128
        } else {
            x as u128
        };
        let ay: u128 = if y < 0 {
            (-(y as i64)) as u128
        } else {
            y as u128
        };
        assert(ax * ax <= 0x4000_0000_0000_0000 && ax * ax == x * x) by (nonlinear_arith)
            requires
                ax <= 0x8000_0000,
                ax == x || ax == -x,
        ;
        assert(ay * ay <= 0x4000_0000_0000_0000 && ay * ay == y * y) by (nonlinear_arith)
            requires
                ay <= 0x8000_0000,
                ay == y || ay == -y,
        ;
        assert(0 < ax * ax + ay * ay) by (nonlinear_arith)
            requires
                ax > 0 || ay > 0,
        ;
        let sx: u128 = ax * ax;
        let sy: u128 = ay * ay;
        let n: u128 = sx + sy;
        proof {
            lemma_unit_part_small(ax as nat, n as nat);
            lemma_unit_part_small(ay as nat, n as nat);
        }
        let cx: u64 = isqrt(1_000_000 * sx / n);
        let cy: u64 = isqrt(1_000_000 * sy / n);
        let vx: i64 = if x < 0 {
            -(cx as i64)
        } else {
            cx as i64
        };
        let vy: i64 = if y < 0 {
            -(cy as i64)
        } else {
            cy as i64
        };
        proof {
            if x == 0 {
                lemma_unit_part_of_zero(n as nat);
            }
            if y == 0 {
                lemma_unit_part_of_zero(n as nat);
            }
        }
        Some(Vec2 { x: vx, y: vy })
    }
}

/// A component that is no longer than the whole vector has at most `UNIT`
/// as its share.
pub proof fn lemma_unit_part_small(a: nat, n: nat)
    requires
        0 < n,
        a * a <= n,
    ensures
        unit_part(a, n) <= UNIT,
{
    let c: nat = unit_part(a, n);
    lemma_unit_part(a, n);
    assert(c <= 1_000) by (nonlinear_arith)
        requires
            c * c * n <= 1_000 * 1_000 * (a * a),
            a * a <= n,
            0 < n,
    ;
}

/// A component of zero has a share of zero.
pub proof fn lemma_unit_part_of_zero(n: nat)
    requires
        0 < n,
    ensures
        unit_part(0, n) == 0,
{
    let c: nat = unit_part(0, n);
    lemma_unit_part(0, n);
    assert(c == 0) by (nonlinear_arith)
        requires
            c * c * n <= 1_000 * 1_000 * (0 * 0),
            0 < n,
    ;
}

/// A vector made by `Vec2::unit` is one whole long, as nearly as integer
/// components allow: it is not longer than `UNIT`, and adding one to the
/// size of both components would make it longer.
pub proof fn lemma_unit_vector_length(x: int, y: int)
    requires
        x != 0 || y != 0,
    ensures
        ({
            let vx = unit_component(x, x, y);
            let vy = unit_component(y, x, y);
            &&& vx * vx + vy * vy <= UNIT * UNIT
            &&& UNIT * UNIT < (magnitude(vx) + 1) * (magnitude(vx) + 1) + (magnitude(vy) + 1) * (
            magnitude(vy) + 1)
        }),
{
    let a: nat = magnitude(x);
    let b: nat = magnitude(y);
    assert(a * a == x * x && b * b == y * y && 0 < a * a + b * b) by (nonlinear_arith)
        requires
            a == x || a == -x,
            b == y || b == -y,
            a > 0 || b > 0,
    ;
    let n: nat = (x * x + y * y) as nat;
    let cx: nat = unit_part(a, n);
    let cy: nat = unit_part(b, n);
    lemma_unit_part(a, n);
    lemma_unit_part(b, n);
    let vx = unit_component(x, x, y);
    let vy = unit_component(y, x, y);
    assert(vx * vx == cx * cx || (vx == 0 && x == 0)) by (nonlinear_arith)
        requires
            vx == signum(x) * cx,
            signum(x) == 1 || signum(x) == -1 || (signum(x) == 0 && x == 0),
    ;
    assert(vy * vy == cy * cy || (vy == 0 && y == 0)) by (nonlinear_arith)
        requires
            vy == signum(y) * cy,
            signum(y) == 1 || signum(y) == -1 || (signum(y) == 0 && y == 0),
    ;
    if x == 0 {
        lemma_unit_part_of_zero(n);
    }
    if y == 0 {
        lemma_unit_part_of_zero(n);
    }
    assert(magnitude(vx) == cx) by (nonlinear_arith)
        requires
            vx == signum(x) * cx,
            signum(x) == 1 || signum(x) == -1 || (signum(x) == 0 && cx == 0),
            magnitude(vx) == vx || magnitude(vx) == -vx,
            magnitude(vx) >= 0,
    ;
    assert(magnitude(vy) == cy) by (nonlinear_arith)
        requires
            vy == signum(y) * cy,
            signum(y) == 1 || signum(y) == -1 || (signum(y) == 0 && cy == 0),
            magnitude(vy) == vy || magnitude(vy) == -vy,
            magnitude(vy) >= 0,
    ;
    assert(cx * cx + cy * cy <= 1_000 * 1_000 && 1_000 * 1_000 < (cx + 1) * (cx + 1) + (cy + 1)
        * (cy + 1)) by (nonlinear_arith)
        requires
            cx * cx * n <= 1_000 * 1_000 * (a * a),
            cy * cy * n <= 1_000 * 1_000 * (b * b),
            1_000 * 1_000 * (a * a) < (cx + 1) * (cx + 1) * n,
            1_000 * 1_000 * (b * b) < (cy + 1) * (cy + 1) * n,
            n == a * a + b * b,
            0 < n,
    ;
}

} // verus!
