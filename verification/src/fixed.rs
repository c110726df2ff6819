//! Fixed-point scalars: an `i64` that counts thousandths.

use vstd::prelude::*;

verus! {

/// Raw value of the number one.
pub const ONE: i64 = 1000;

/// The nearest value that an `i64` can hold.
pub open spec fn clamp(x: int) -> i64 {
    if x < i64::MIN {
        i64::MIN
    } else if x > i64::MAX {
        i64::MAX
    } else {
        x as i64
    }
}

/// Quotient rounded toward zero.
pub open spec fn trunc_div(x: int, d: int) -> int
    recommends
        d > 0,
{
    if x >= 0 {
        x / d
    } else {
        -((-x) / d)
    }
}

/// Saturating sum.
pub open spec fn sum(a: i64, b: i64) -> i64 {
    clamp(a + b)
}

/// Saturating difference.
pub open spec fn difference(a: i64, b: i64) -> i64 {
    clamp(a - b)
}

/// Saturating fixed-point product: both factors count thousandths, and so
/// does the result, which is rounded toward zero.
pub open spec fn product(a: i64, b: i64) -> i64 {
    clamp(trunc_div(a * b, ONE as int))
}

/// `n` is a whole number, `r` its square root rounded down.
pub open spec fn is_root(r: int, n: int) -> bool {
    0 <= r && r * r <= n < (r + 1) * (r + 1)
}

/// Square root of a natural number, rounded down.
pub open spec fn root(n: int) -> int
    recommends
        n >= 0,
{
    choose|r: int| is_root(r, n)
}

/// Saturating sum.
pub fn plus(a: i64, b: i64) -> (r: i64)
    ensures
        r == sum(a, b),
{
    match a.checked_add(b) {
        Some(v) => v,
        None => if b > 0 {
            i64::MAX
        } else {
            i64::MIN
        },
    }
}

/// Saturating difference.
pub fn minus(a: i64, b: i64) -> (r: i64)
    ensures
        r == difference(a, b),
{
    match a.checked_sub(b) {
        Some(v) => v,
        None => if b < 0 {
            i64::MAX
        } else {
            i64::MIN
        },
    }
}

/// Narrows a wide intermediate result to the range of `i64`.
pub(crate) fn narrow(x: i128) -> (r: i64)
    ensures
        r == clamp(x as int),
{
    if x < i64::MIN as i128 {
        i64::MIN
    } else if x > i64::MAX as i128 {
        i64::MAX
    } else {
        x as i64
    }
}

/// Divides a wide value by a positive divisor, rounding toward zero.
pub(crate) fn wide_trunc_div(x: i128, d: i128) -> (r: i128)
    requires
        d > 0,
        x > i128::MIN,
    ensures
        r == trunc_div(x as int, d as int),
{
    if x >= 0 {
        x / d
    } else {
        let m: i128 = -x;
        let q: i128 = m / d;
        -q
    }
}

/// Saturating fixed-point product, rounded toward zero.
pub fn times(a: i64, b: i64) -> (r: i64)
    ensures
        r == product(a, b),
{
    proof {
        lemma_product_bound(a as int, b as int);
    }
    let wide: i128 = (a as i128) * (b as i128);
    narrow(wide_trunc_div(wide, ONE as i128))
}

/// Square root of `n`, rounded down.
pub fn isqrt(n: u128) -> (r: u64)
    ensures
        is_root(r as int, n as int),
        r == root(n as int),
{
    let mut low: u128 = 0;
    let mut high: u128 = 0x1_0000_0000_0000_0000;
    assert(0x1_0000_0000_0000_0000int * 0x1_0000_0000_0000_0000int > u128::MAX);
    while high - low > 1
        invariant
            low < high <= 0x1_0000_0000_0000_0000,
            low * low <= n < high * high,
        decreases high - low,
    {
        let mid: u128 = low + (high - low) / 2;
        assert(mid * mid <= 0xffff_ffff_ffff_ffff * 0xffff_ffff_ffff_ffff) by (nonlinear_arith)
            requires
                0 <= mid <= 0xffff_ffff_ffff_ffff,
        ;
        assert(0xffff_ffff_ffff_ffffint * 0xffff_ffff_ffff_ffffint <= u128::MAX);
        if mid * mid <= n {
            low = mid;
        } else {
            high = mid;
        }
    }
    proof {
        assert(high == low + 1);
        lemma_root_unique(low as int, root(n as int), n as int);
    }
    low as u64
}

/// The product of two `i64` values stays far inside the range of `i128`.
pub proof fn lemma_product_bound(a: int, b: int)
    requires
        i64::MIN <= a <= i64::MAX,
        i64::MIN <= b <= i64::MAX,
    ensures
        -0x4000_0000_0000_0000_0000_0000_0000_0000 <= a * b
            <= 0x4000_0000_0000_0000_0000_0000_0000_0000,
{
    assert(-0x4000_0000_0000_0000_0000_0000_0000_0000 <= a * b
        <= 0x4000_0000_0000_0000_0000_0000_0000_0000) by (nonlinear_arith)
        requires
            -0x8000_0000_0000_0000 <= a <= 0x8000_0000_0000_0000,
            -0x8000_0000_0000_0000 <= b <= 0x8000_0000_0000_0000,
    ;
}

/// A square grows with its side.
pub proof fn lemma_square_order(a: int, b: int)
    requires
        0 <= a <= b,
    ensures
        a * a <= b * b,
{
    assert(a * a <= b * b) by (nonlinear_arith)
        requires
            0 <= a <= b,
    ;
}

/// The square of a quotient rounded down, times the square of the
/// divisor, falls short of the square of the dividend by less than twice
/// their product.
pub proof fn lemma_floor_square(n: int, d: int, q: int)
    requires
        0 < d,
        0 <= q * d <= n < q * d + d,
    ensures
        n * n - 2 * n * d <= (q * d) * (q * d) <= n * n,
{
    let r = q * d;
    lemma_square_order(r, n);
    if n >= d {
        lemma_square_order(n - d, r);
        assert((n - d) * (n - d) == n * n - 2 * n * d + d * d) by (nonlinear_arith);
        assert(d * d >= 0) by (nonlinear_arith);
    } else {
        assert(n * n - 2 * n * d <= 0) by (nonlinear_arith)
            requires
                0 <= n < d,
        ;
        assert(r * r >= 0) by (nonlinear_arith);
    }
}

/// A natural number has at most one rounded-down square root.
pub proof fn lemma_root_unique(r: int, s: int, n: int)
    requires
        is_root(r, n),
    ensures
        is_root(root(n), n),
        is_root(s, n) ==> s == r,
{
    if is_root(s, n) && s != r {
        if s < r {
            assert((s + 1) * (s + 1) <= r * r) by (nonlinear_arith)
                requires
                    0 <= s,
                    s + 1 <= r,
            ;
        } else {
            assert((r + 1) * (r + 1) <= s * s) by (nonlinear_arith)
                requires
                    0 <= r,
                    r + 1 <= s,
            ;
        }
    }
}

} // verus!
