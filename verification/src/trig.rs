//! Sine and cosine on fixed-point angles.
//!
//! An angle counts thousandths of a radian.  A full turn is taken as 6284
//! thousandths, so that the half and the quarter turn are whole numbers of
//! units.  Within a half turn the sine follows Bhaskara's rational
//! approximation.
//!
//! Proved of it here: sine and cosine lie between minus one and one, they
//! repeat after a full turn, they are exact along the axes, and the sum of
//! their squares is one to within one part in a hundred.  How close each
//! is to the true sine and cosine is not proved.

use vstd::prelude::*;
use vstd::arithmetic::div_mod::lemma_remainder;
use crate::fixed::{lemma_floor_square, ONE};

verus! {

/// A full turn.
pub const TURN: i64 = 6284;

/// Half a turn.
pub const HALF_TURN: i64 = 3142;

/// A quarter of a turn.
pub const QUARTER_TURN: i64 = 1571;

/// The angle in `[0, TURN)` that points the same way as `a`.
pub open spec fn reduced(a: int) -> int {
    a % (TURN as int)
}

/// Height of the sine's arch over `x`, for `x` within the first half turn.
pub open spec fn arch(x: int) -> int
    recommends
        0 <= x <= HALF_TURN,
{
    let p = x * (HALF_TURN - x);
    (16 * ONE * p) / (5 * HALF_TURN * HALF_TURN - 4 * p)
}

/// Sine of the angle `a`.
pub open spec fn sine(a: int) -> i64 {
    let r = reduced(a);
    if r < HALF_TURN {
        arch(r) as i64
    } else {
        (-arch(r - HALF_TURN)) as i64
    }
}

/// Cosine of the angle `a`: the sine a quarter turn further on.
pub open spec fn cosine(a: int) -> i64 {
    sine(a + QUARTER_TURN)
}

/// The arch rises from zero to one and never leaves that range.
pub proof fn lemma_arch_bounds(x: int)
    requires
        0 <= x <= HALF_TURN,
    ensures
        0 <= x * (HALF_TURN - x) <= 2468041,
        5 * HALF_TURN * HALF_TURN - 4 * (x * (HALF_TURN - x)) >= 39488656,
        0 <= arch(x) <= ONE,
{
    let p = x * (HALF_TURN - x);
    assert(0 <= p <= 2468041) by (nonlinear_arith)
        requires
            0 <= x <= 3142,
            p == x * (3142 - x),
    {
        assert((x - 1571) * (x - 1571) >= 0);
        assert(x * (3142 - x) == 2468041 - (x - 1571) * (x - 1571));
    }
    let d = 5 * HALF_TURN * HALF_TURN - 4 * p;
    assert(d == 49360820 - 4 * p);
    let n = 16 * ONE * p;
    assert(n == 16000 * p);
    assert(0 <= n / d <= 1000) by (nonlinear_arith)
        requires
            0 <= n <= 1000 * d,
            d > 0,
    ;
}

/// Sine and cosine lie between minus one and one.
pub proof fn lemma_unit_range(a: int)
    ensures
        -ONE <= sine(a) <= ONE,
        -ONE <= cosine(a) <= ONE,
{
    lemma_sine_range(a);
    lemma_sine_range(a + QUARTER_TURN);
}

/// The sine lies between minus one and one.
proof fn lemma_sine_range(a: int)
    ensures
        -ONE <= sine(a) <= ONE,
{
    let r = reduced(a);
    if r < HALF_TURN {
        lemma_arch_bounds(r);
    } else {
        lemma_arch_bounds(r - HALF_TURN);
    }
}

/// What the sum of the squares of two arches comes to, where `u` and `v`
/// are the products under the arches, `g` is the square of the quarter
/// turn, and `w` ties `u` and `v` together.
proof fn lemma_pair_bounds(g: int, w: int, u: int, v: int, s: int, c: int)
    requires
        0 < g,
        0 <= w,
        4 * w <= g,
        0 <= u <= g,
        0 <= v <= g,
        u + v == g + 2 * w,
        u * v == 2 * g * w + w * w,
        0 <= s * (5 * g - u) <= 4000 * u < s * (5 * g - u) + (5 * g - u),
        0 <= c * (5 * g - v) <= 4000 * v < c * (5 * g - v) + (5 * g - v),
    ensures
        990_000 <= s * s + c * c <= 1_006_000,
{
    let a = 5 * g - u;
    let b = 5 * g - v;
    let ns = 4000 * u;
    let nc = 4000 * v;
    let sa = s * a;
    let cb = c * b;
    let aa = a * a;
    let bb = b * b;
    let k = a * b;
    let kk = aa * bb;
    let e = u * v;
    let l = u * b + v * a;
    lemma_floor_square(ns, a, s);
    lemma_floor_square(nc, b, c);
    // the squares of the arches, brought over the common divisor
    let t = (sa * sa) * bb + (cb * cb) * aa;
    let ss = s * s;
    let cc = c * c;
    assert(sa * sa == ss * aa) by (nonlinear_arith)
        requires
            sa == s * a,
            ss == s * s,
            aa == a * a,
    ;
    assert(cb * cb == cc * bb) by (nonlinear_arith)
        requires
            cb == c * b,
            cc == c * c,
            bb == b * b,
    ;
    assert((ss * aa) * bb == ss * kk && (cc * bb) * aa == cc * kk) by (nonlinear_arith)
        requires
            kk == aa * bb,
    ;
    assert(t == (ss + cc) * kk) by (nonlinear_arith)
        requires
            t == ss * kk + cc * kk,
    ;
    // the same without the rounding
    let big = (ns * ns) * bb + (nc * nc) * aa;
    assert(aa >= 0 && bb >= 0) by (nonlinear_arith)
        requires
            aa == a * a,
            bb == b * b,
    ;
    assert((sa * sa) * bb <= (ns * ns) * bb) by (nonlinear_arith)
        requires
            sa * sa <= ns * ns,
            bb >= 0,
    ;
    assert((cb * cb) * aa <= (nc * nc) * aa) by (nonlinear_arith)
        requires
            cb * cb <= nc * nc,
            aa >= 0,
    ;
    assert(2 * ns * a <= 2000 * aa) by (nonlinear_arith)
        requires
            0 <= ns <= 1000 * a,
            aa == a * a,
            a > 0,
    ;
    assert(2 * nc * b <= 2000 * bb) by (nonlinear_arith)
        requires
            0 <= nc <= 1000 * b,
            bb == b * b,
            b > 0,
    ;
    assert((sa * sa) * bb >= (ns * ns) * bb - 2000 * kk) by (nonlinear_arith)
        requires
            sa * sa >= ns * ns - 2000 * aa,
            bb >= 0,
            kk == aa * bb,
    ;
    assert((cb * cb) * aa >= (nc * nc) * aa - 2000 * kk) by (nonlinear_arith)
        requires
            cb * cb >= nc * nc - 2000 * bb,
            aa >= 0,
            kk == aa * bb,
    ;
    assert(big - 4000 * kk <= t <= big);
    // what it comes to, in `g` and `w`
    let gg = g * g;
    let gw = g * w;
    let ww = w * w;
    assert(e == 2 * gw + ww) by (nonlinear_arith)
        requires
            e == 2 * g * w + w * w,
            gw == g * w,
            ww == w * w,
    ;
    assert(k == 20 * gg - 8 * gw + ww) by (nonlinear_arith)
        requires
            k == (5 * g - u) * (5 * g - v),
            u + v == g + 2 * w,
            u * v == 2 * gw + ww,
            gg == g * g,
            gw == g * w,
    ;
    assert(l == 5 * gg + 6 * gw - 2 * ww) by (nonlinear_arith)
        requires
            l == u * (5 * g - v) + v * (5 * g - u),
            u + v == g + 2 * w,
            u * v == 2 * gw + ww,
            gg == g * g,
            gw == g * w,
    ;
    let ub = u * b;
    let va = v * a;
    assert(l * l == ub * ub + 2 * (ub * va) + va * va) by (nonlinear_arith)
        requires
            l == ub + va,
    ;
    assert(ub * ub == (u * u) * bb) by (nonlinear_arith)
        requires
            ub == u * b,
            bb == b * b,
    ;
    assert(va * va == (v * v) * aa) by (nonlinear_arith)
        requires
            va == v * a,
            aa == a * a,
    ;
    assert(ub * va == e * k) by (nonlinear_arith)
        requires
            ub == u * b,
            va == v * a,
            e == u * v,
            k == a * b,
    ;
    assert((u * u) * bb + (v * v) * aa == l * l - 2 * (e * k));
    assert(big == 16_000_000 * ((u * u) * bb + (v * v) * aa)) by (nonlinear_arith)
        requires
            big == (ns * ns) * bb + (nc * nc) * aa,
            ns == 4000 * u,
            nc == 4000 * v,
    ;
    assert(kk == k * k) by (nonlinear_arith)
        requires
            k == a * b,
            aa == a * a,
            bb == b * b,
            kk == aa * bb,
    ;
    let rest = 24 * gg - 176 * gw + 31 * ww;
    let p = ww * rest;
    assert(16 * (l * l - 2 * (e * k)) - k * k == 1024 * (gw * gw) + 31 * (ww * ww) - 1000 * (gg * ww)
        - 176 * (gw * ww)) by (nonlinear_arith)
        requires
            k == 20 * gg - 8 * gw + ww,
            l == 5 * gg + 6 * gw - 2 * ww,
            e == 2 * gw + ww,
    ;
    assert(gw * gw == gg * ww) by (nonlinear_arith)
        requires
            gg == g * g,
            gw == g * w,
            ww == w * w,
    ;
    assert(p == 24 * (gg * ww) + 31 * (ww * ww) - 176 * (gw * ww)) by (nonlinear_arith)
        requires
            p == ww * (24 * gg - 176 * gw + 31 * ww),
    ;
    assert(16 * (l * l - 2 * (e * k)) - k * k == p);
    assert(big == 1_000_000 * (kk + p));
    // how far it can be from one
    assert(0 <= 16 * ww <= gg) by (nonlinear_arith)
        requires
            0 <= w,
            4 * w <= g,
            ww == w * w,
            gg == g * g,
    ;
    assert(-20 * gg <= rest <= 24 * gg) by (nonlinear_arith)
        requires
            0 <= w,
            4 * w <= g,
            0 < g,
            ww == w * w,
            gw == g * w,
            gg == g * g,
            rest == 24 * gg - 176 * gw + 31 * ww,
    ;
    assert(gg > 0) by (nonlinear_arith)
        requires
            gg == g * g,
            g > 0,
    ;
    let g4 = gg * gg;
    assert(-20 * g4 <= 16 * p <= 24 * g4) by (nonlinear_arith)
        requires
            0 <= 16 * ww <= gg,
            -20 * gg <= rest <= 24 * gg,
            p == ww * rest,
            g4 == gg * gg,
            gg >= 0,
    ;
    assert(k >= 16 * gg) by (nonlinear_arith)
        requires
            k == a * b,
            a >= 4 * g,
            b >= 4 * g,
            g > 0,
            gg == g * g,
    ;
    assert(kk >= 256 * g4 && kk > 0) by (nonlinear_arith)
        requires
            kk == k * k,
            k >= 16 * gg,
            gg > 0,
            g4 == gg * gg,
    {
        assert(gg * gg > 0);
    }
    let n = s * s + c * c;
    assert(1024 * (n * kk) >= 1_014_904_000 * kk);
    assert(512 * (n * kk) <= 515_000_000 * kk);
    assert(n >= 990_000) by (nonlinear_arith)
        requires
            1024 * (n * kk) >= 1_014_904_000 * kk,
            kk > 0,
    ;
    assert(n <= 1_006_000) by (nonlinear_arith)
        requires
            512 * (n * kk) <= 515_000_000 * kk,
            kk > 0,
    ;
}

/// The squares of two arches a quarter turn apart come to one, to within
/// one part in a hundred.
proof fn lemma_arch_pair(x: int)
    requires
        0 <= x <= QUARTER_TURN,
    ensures
        990_000 <= arch(x) * arch(x) + arch(x + QUARTER_TURN) * arch(x + QUARTER_TURN)
            <= 1_006_000,
{
    let h: int = 1571;
    let g: int = 2468041;
    let y = x + QUARTER_TURN;
    let w = x * (h - x);
    let u = x * (HALF_TURN - x);
    let v = y * (HALF_TURN - y);
    assert(0 <= w && 4 * w <= g && u == h * x + w && v == g - h * x + w && 0 <= h * x <= g) by (nonlinear_arith)
        requires
            0 <= x <= 1571,
            h == 1571,
            g == 2468041,
            w == x * (h - x),
            u == x * (3142 - x),
            v == (x + 1571) * (3142 - (x + 1571)),
    ;
    assert(u * v == 2 * g * w + w * w) by (nonlinear_arith)
        requires
            0 <= x <= 1571,
            g == 2468041,
            w == x * (1571 - x),
            u == x * (3142 - x),
            v == (x + 1571) * (3142 - (x + 1571)),
    ;
    lemma_arch_bounds(x);
    lemma_arch_bounds(y);
    let s = arch(x);
    let c = arch(y);
    let a = 5 * g - u;
    let b = 5 * g - v;
    assert(5 * HALF_TURN * HALF_TURN - 4 * u == 4 * a);
    assert(5 * HALF_TURN * HALF_TURN - 4 * v == 4 * b);
    assert(16 * ONE * u == 16000 * u && 16 * ONE * v == 16000 * v);
    lemma_remainder(16000 * u, 4 * a);
    lemma_remainder(16000 * v, 4 * b);
    assert(s == (16000 * u) / (4 * a));
    assert(c == (16000 * v) / (4 * b));
    assert(s * (4 * a) == 4 * (s * a) && c * (4 * b) == 4 * (c * b)) by (nonlinear_arith);
    assert(s * (4 * a) == (16000 * u) / (4 * a) * (4 * a));
    assert(c * (4 * b) == (16000 * v) / (4 * b) * (4 * b));
    assert(0 <= s * a) by (nonlinear_arith)
        requires
            0 <= s,
            0 < a,
    ;
    assert(0 <= c * b) by (nonlinear_arith)
        requires
            0 <= c,
            0 < b,
    ;
    lemma_pair_bounds(g, w, u, v, s, c);
}

/// Sine and cosine together make a vector of length one, to within one
/// part in a hundred: the sum of their squares lies between 0.99 and
/// 1.006.
pub proof fn lemma_near_unit(a: int)
    ensures
        990_000 <= sine(a) * sine(a) + cosine(a) * cosine(a) <= 1_006_000,
{
    let r = reduced(a);
    let q = reduced(a + QUARTER_TURN);
    let x = if r < QUARTER_TURN {
        r
    } else if r < HALF_TURN {
        r - QUARTER_TURN
    } else if r < HALF_TURN + QUARTER_TURN {
        r - HALF_TURN
    } else {
        r - HALF_TURN - QUARTER_TURN
    };
    lemma_arch_pair(x);
    lemma_arch_bounds(x);
    lemma_arch_bounds(x + QUARTER_TURN);
    let s = arch(x);
    let c = arch(x + QUARTER_TURN);
    assert((-s) * (-s) == s * s && (-c) * (-c) == c * c) by (nonlinear_arith);
    if r < QUARTER_TURN {
        assert(q == r + QUARTER_TURN);
        assert(sine(a) == s && cosine(a) == c);
    } else if r < HALF_TURN {
        assert(q == r + QUARTER_TURN);
        assert(sine(a) == c && cosine(a) == -s);
    } else if r < HALF_TURN + QUARTER_TURN {
        assert(q == r + QUARTER_TURN);
        assert(sine(a) == -s && cosine(a) == -c);
    } else {
        assert(q == r + QUARTER_TURN - TURN);
        assert(sine(a) == -c && cosine(a) == s);
    }
}

/// Along the axes sine and cosine are exact.
pub proof fn lemma_axes()
    ensures
        sine(0) == 0,
        cosine(0) == ONE,
        sine(QUARTER_TURN as int) == ONE,
        cosine(QUARTER_TURN as int) == 0,
        sine(HALF_TURN as int) == 0,
        cosine(HALF_TURN as int) == -ONE,
        sine(HALF_TURN + QUARTER_TURN) == -ONE,
        cosine(HALF_TURN + QUARTER_TURN) == 0,
{
    assert(1571int * (3142int - 1571int) == 2468041);
    assert(5 * HALF_TURN * HALF_TURN - 4 * 2468041 == 39488656);
    assert(16 * ONE * 2468041 == 39488656000int);
    assert(39488656000int / 39488656int == 1000);
    assert(arch(1571) == 1000);
    assert(0int * (3142int - 0int) == 0);
    assert(arch(0) == 0);
    assert(reduced(0) == 0);
    assert(reduced(1571) == 1571);
    assert(reduced(3142) == 3142);
    assert(reduced(4713) == 4713);
    assert(reduced(6284) == 0);
}

/// Turning by a full turn changes neither sine nor cosine.
pub proof fn lemma_periodic(a: int)
    ensures
        sine(a + TURN) == sine(a),
        cosine(a + TURN) == cosine(a),
{
}

/// Brings an angle into `[0, TURN)`.
pub fn reduce(a: i64) -> (r: i64)
    ensures
        r == reduced(a as int),
        0 <= r < TURN,
{
    let t: i64 = a % TURN;
    if t < 0 {
        t + TURN
    } else {
        t
    }
}

/// Height of the arch over `x`.
fn arch_of(x: i64) -> (h: i64)
    requires
        0 <= x <= HALF_TURN,
    ensures
        h == arch(x as int),
        0 <= h <= ONE,
{
    proof {
        lemma_arch_bounds(x as int);
    }
    let p: i64 = x * (HALF_TURN - x);
    (16 * ONE * p) / (5 * HALF_TURN * HALF_TURN - 4 * p)
}

/// Sine of an angle within the first turn.
fn sin_reduced(r: i64) -> (s: i64)
    requires
        0 <= r < TURN,
    ensures
        s == sine(r as int),
{
    if r < HALF_TURN {
        arch_of(r)
    } else {
        -arch_of(r - HALF_TURN)
    }
}

/// Sine of the angle `a`.
pub fn sin(a: i64) -> (s: i64)
    ensures
        s == sine(a as int),
        -ONE <= s <= ONE,
{
    proof {
        lemma_unit_range(a as int);
    }
    sin_reduced(reduce(a))
}

/// Cosine of the angle `a`.
pub fn cos(a: i64) -> (c: i64)
    ensures
        c == cosine(a as int),
        -ONE <= c <= ONE,
{
    proof {
        lemma_unit_range(a as int);
    }
    let r: i64 = reduce(a);
    sin_reduced(reduce(r + QUARTER_TURN))
}

} // verus!
