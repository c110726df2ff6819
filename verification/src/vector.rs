//! Points and vectors of the plane, in fixed-point coordinates.

use vstd::prelude::*;
use crate::fixed::{
    clamp, difference, is_root, isqrt, lemma_floor_square, minus, plus, product, root, sum, times,
    trunc_div,
};
use crate::trig::{cos, cosine, lemma_near_unit, lemma_unit_range, sin, sine};

verus! {

/// A point or a vector of the plane.
#[derive(Clone, Copy, Debug, PartialEq, Eq, Structural)]
pub struct Vec2 {
    pub x: i64,
    pub y: i64,
}

impl Vec2 {
    /// The origin.
    pub open spec fn origin() -> Vec2 {
        Vec2 { x: 0, y: 0 }
    }

    /// Sum of two vectors, coordinate by coordinate.
    pub open spec fn added(self, other: Vec2) -> Vec2 {
        Vec2 { x: sum(self.x, other.x), y: sum(self.y, other.y) }
    }

    /// Difference of two vectors, coordinate by coordinate.
    pub open spec fn subtracted(self, other: Vec2) -> Vec2 {
        Vec2 { x: difference(self.x, other.x), y: difference(self.y, other.y) }
    }

    /// The vector stretched by the fixed-point factor `k`.
    pub open spec fn scaled(self, k: i64) -> Vec2 {
        Vec2 { x: product(self.x, k), y: product(self.y, k) }
    }

    /// The vector of the given length that points along `angle`.
    pub open spec fn polar(angle: i64, length: i64) -> Vec2 {
        Vec2 {
            x: product(cosine(angle as int), length),
            y: product(sine(angle as int), length),
        }
    }

    /// The vector turned about the origin by `angle`.
    pub open spec fn turned(self, angle: i64) -> Vec2 {
        let c = cosine(angle as int);
        let s = sine(angle as int);
        Vec2 {
            x: difference(product(self.x, c), product(self.y, s)),
            y: sum(product(self.x, s), product(self.y, c)),
        }
    }

    /// Square of the vector's length, exact.
    pub open spec fn norm_squared(self) -> int {
        self.x * self.x + self.y * self.y
    }

    /// Length of the vector, rounded down to a whole number of units.
    pub open spec fn norm(self) -> i64 {
        clamp(root(self.norm_squared()))
    }

    /// Whether the distance between the two points is less than `reach`.
    /// The comparison is exact: nothing is rounded and nothing saturates.
    pub open spec fn near(self, other: Vec2, reach: i64) -> bool {
        let dx = self.x - other.x;
        let dy = self.y - other.y;
        reach > 0 && dx * dx + dy * dy < reach * reach
    }

    /// The vector with the given coordinates.
    pub fn new(x: i64, y: i64) -> (v: Vec2)
        ensures
            v == (Vec2 { x, y }),
    {
        Vec2 { x, y }
    }

    /// The origin.
    pub fn zero() -> (v: Vec2)
        ensures
            v == Vec2::origin(),
    {
        Vec2 { x: 0, y: 0 }
    }

    /// Sum of two vectors.
    pub fn plus(self, other: Vec2) -> (v: Vec2)
        ensures
            v == self.added(other),
    {
        Vec2 { x: plus(self.x, other.x), y: plus(self.y, other.y) }
    }

    /// Difference of two vectors.
    pub fn minus(self, other: Vec2) -> (v: Vec2)
        ensures
            v == self.subtracted(other),
    {
        Vec2 { x: minus(self.x, other.x), y: minus(self.y, other.y) }
    }

    /// The vector stretched by the fixed-point factor `k`.
    pub fn times(self, k: i64) -> (v: Vec2)
        ensures
            v == self.scaled(k),
    {
        Vec2 { x: times(self.x, k), y: times(self.y, k) }
    }

    /// The vector of the given length that points along `angle`.
    pub fn from_polar(angle: i64, length: i64) -> (v: Vec2)
        ensures
            v == Vec2::polar(angle, length),
    {
        Vec2 { x: times(cos(angle), length), y: times(sin(angle), length) }
    }

    /// The vector turned about the origin by `angle`.
    pub fn rotated(self, angle: i64) -> (v: Vec2)
        ensures
            v == self.turned(angle),
    {
        let c: i64 = cos(angle);
        let s: i64 = sin(angle);
        Vec2 {
            x: minus(times(self.x, c), times(self.y, s)),
            y: plus(times(self.x, s), times(self.y, c)),
        }
    }

    /// Length of the vector, rounded down.
    pub fn length(self) -> (len: i64)
        ensures
            len == self.norm(),
            len >= 0,
            is_root(root(self.norm_squared()), self.norm_squared()),
    {
        let ax: u128 = magnitude(self.x);
        let ay: u128 = magnitude(self.y);
        proof {
            lemma_square_bound(ax as int, 0x8000_0000_0000_0000);
            lemma_square_bound(ay as int, 0x8000_0000_0000_0000);
            assert(ax * ax == self.x * self.x) by (nonlinear_arith)
                requires
                    ax == self.x || ax == -self.x,
            ;
            assert(ay * ay == self.y * self.y) by (nonlinear_arith)
                requires
                    ay == self.y || ay == -self.y,
            ;
        }
        let r: u64 = isqrt(ax * ax + ay * ay);
        if r > i64::MAX as u64 {
            i64::MAX
        } else {
            r as i64
        }
    }

    /// Whether the distance between the two points is less than `reach`.
    pub fn within(self, other: Vec2, reach: i64) -> (hit: bool)
        ensures
            hit == self.near(other, reach),
    {
        if reach <= 0 {
            return false;
        }
        let dx: i128 = self.x as i128 - other.x as i128;
        let dy: i128 = self.y as i128 - other.y as i128;
        let ax: i128 = if dx < 0 { -dx } else { dx };
        let ay: i128 = if dy < 0 { -dy } else { dy };
        let limit: i128 = reach as i128;
        proof {
            assert(ax * ax == dx * dx) by (nonlinear_arith)
                requires
                    ax == dx || ax == -dx,
            ;
            assert(ay * ay == dy * dy) by (nonlinear_arith)
                requires
                    ay == dy || ay == -dy,
            ;
            assert(0 <= ay * ay) by (nonlinear_arith);
            assert(0 <= ax * ax) by (nonlinear_arith);
        }
        if ax >= limit {
            proof {
                assert(ax * ax >= limit * limit) by (nonlinear_arith)
                    requires
                        ax >= limit > 0,
                ;
            }
            return false;
        }
        if ay >= limit {
            proof {
                assert(ay * ay >= limit * limit) by (nonlinear_arith)
                    requires
                        ay >= limit > 0,
                ;
            }
            return false;
        }
        proof {
            lemma_square_bound(ax as int, 0x7fff_ffff_ffff_ffff);
            lemma_square_bound(ay as int, 0x7fff_ffff_ffff_ffff);
            lemma_square_bound(limit as int, 0x7fff_ffff_ffff_ffff);
            assert(0x7fff_ffff_ffff_ffffint * 0x7fff_ffff_ffff_ffffint
                == 0x3fff_ffff_ffff_ffff_0000_0000_0000_0001);
        }
        ax * ax + ay * ay < limit * limit
    }
}

/// One coordinate of a vector built from a direction and a length: its
/// square, against the square of the exact product.
proof fn lemma_polar_coordinate(c: i64, length: i64)
    requires
        -1000 <= c <= 1000,
        0 <= length,
    ensures
        (c * c) * (length * length) - 2_000_000 * length <= 1_000_000 * (product(c, length)
            * product(c, length)) <= (c * c) * (length * length),
{
    let m = c * length;
    let am = if m >= 0 {
        m
    } else {
        -m
    };
    let q = am / 1000;
    assert(0 <= am <= 1000 * length && am * am == (c * c) * (length * length)) by (nonlinear_arith)
        requires
            -1000 <= c <= 1000,
            0 <= length,
            m == c * length,
            am == m || am == -m,
            0 <= am,
    ;
    assert(0 <= q <= length && 0 <= q * 1000 <= am < q * 1000 + 1000);
    let t = trunc_div(m, 1000);
    assert(t == q || t == -q);
    assert(product(c, length) == t);
    assert(t * t == q * q) by (nonlinear_arith)
        requires
            t == q || t == -q,
    ;
    lemma_floor_square(am, 1000, q);
    assert((q * 1000) * (q * 1000) == 1_000_000 * (q * q)) by (nonlinear_arith);
    assert(2 * am * 1000 <= 2_000_000 * length);
}

/// The vector built from a direction and a length has that length, to
/// within one part in a hundred and the rounding of its coordinates.
pub proof fn lemma_polar_length(angle: i64, length: i64)
    requires
        0 <= length,
    ensures
        990_000 * (length * length) - 4_000_000 * length <= 1_000_000 * Vec2::polar(
            angle,
            length,
        ).norm_squared() <= 1_006_000 * (length * length),
{
    let c = cosine(angle as int);
    let s = sine(angle as int);
    lemma_unit_range(angle as int);
    lemma_near_unit(angle as int);
    lemma_polar_coordinate(c, length);
    lemma_polar_coordinate(s, length);
    let ll = length * length;
    let x = product(c, length);
    let y = product(s, length);
    assert((c * c) * ll + (s * s) * ll == (s * s + c * c) * ll) by (nonlinear_arith);
    assert(990_000 * ll <= (s * s + c * c) * ll <= 1_006_000 * ll) by (nonlinear_arith)
        requires
            990_000 <= s * s + c * c <= 1_006_000,
            ll == length * length,
    {
        assert(length * length >= 0);
    }
    assert(Vec2::polar(angle, length).norm_squared() == x * x + y * y);
}

/// Absolute value of a coordinate.
fn magnitude(v: i64) -> (m: u128)
    ensures
        m == v || m == -v,
        0 <= m <= 0x8000_0000_0000_0000,
{
    if v < 0 {
        (-(v as i128)) as u128
    } else {
        v as u128
    }
}

/// A square grows with its side.
proof fn lemma_square_bound(a: int, bound: int)
    requires
        0 <= a <= bound,
    ensures
        0 <= a * a <= bound * bound,
{
    assert(0 <= a * a <= bound * bound) by (nonlinear_arith)
        requires
            0 <= a <= bound,
    ;
}

} // verus!
