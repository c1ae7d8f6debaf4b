//! Fixed-point scalar arithmetic.
//!
//! Every scalar in the library is an `i64` counting 1/`SCALE` units (its
//! "raw" value), so the real number `1.0` is represented by `SCALE`.
//! Multiplication and division of two fixed-point scalars therefore rescale
//! by `SCALE`, rounding toward zero as hardware signed division does.

use vstd::prelude::*;

verus! {

/// Raw units per 1.0.
pub const SCALE: i64 = 65536;

/// pi in raw units (round(pi * SCALE)).
pub const PI_FIX: i64 = 205887;

/// pi/2 in raw units.
pub const HALF_PI_FIX: i64 = 102944;

/// 2*pi in raw units.
pub const TWO_PI_FIX: i64 = 411775;

/// Division rounding toward zero (the rounding of hardware signed division),
/// defined for positive divisors.
pub open spec fn tdiv(x: int, d: int) -> int {
    if x >= 0 {
        x / d
    } else {
        -((-x) / d)
    }
}

/// `r` is the floor square root of `n`.
pub open spec fn is_sqrt(n: int, r: int) -> bool {
    0 <= r && r * r <= n && n < (r + 1) * (r + 1)
}

/// Floor square root of a non-negative integer.
pub open spec fn usqrt(n: int) -> int {
    choose|r: int| is_sqrt(n, r)
}

/// The floor square root is unique, so any witness pins `usqrt` down.
pub proof fn lemma_usqrt_is(n: int, r: int)
    requires
        is_sqrt(n, r),
    ensures
        usqrt(n) == r,
{
    assert(exists|q: int| is_sqrt(n, q));
    let c = usqrt(n);
    assert(is_sqrt(n, c));
    assert(c == r) by (nonlinear_arith)
        requires
            is_sqrt(n, c),
            is_sqrt(n, r),
    {
        if c < r {
            assert((c + 1) * (c + 1) <= r * r);
        }
        if r < c {
            assert((r + 1) * (r + 1) <= c * c);
        }
    }
}

/// Truncating division stays within `b` when the dividend is within `b * d`.
pub proof fn lemma_tdiv_le(x: int, d: int, b: int)
    requires
        1 <= d,
        0 <= b,
        -(b * d) <= x <= b * d,
    ensures
        -b <= tdiv(x, d) <= b,
{
    if x >= 0 {
        assert(x / d <= b) by (nonlinear_arith)
            requires
                1 <= d,
                0 <= b,
                0 <= x <= b * d,
        {
        }
        assert(x / d >= 0) by (nonlinear_arith)
            requires
                1 <= d,
                0 <= x,
        {
        }
    } else {
        assert((-x) / d <= b) by (nonlinear_arith)
            requires
                1 <= d,
                0 <= b,
                0 < -x <= b * d,
        {
        }
        assert((-x) / d >= 0) by (nonlinear_arith)
            requires
                1 <= d,
                0 < -x,
        {
        }
    }
}

/// Truncating division never grows the magnitude of the dividend.
pub proof fn lemma_tdiv_shrinks(x: int, d: int)
    requires
        1 <= d,
    ensures
        -x <= tdiv(x, d) <= x || x <= tdiv(x, d) <= -x,
        x >= 0 ==> 0 <= tdiv(x, d) <= x,
        x < 0 ==> x <= tdiv(x, d) <= 0,
{
    if x >= 0 {
        assert(x <= x * d) by (nonlinear_arith)
            requires
                0 <= x,
                1 <= d,
        {
        }
        lemma_tdiv_le(x, d, x);
    } else {
        assert(-x <= (-x) * d) by (nonlinear_arith)
            requires
                x < 0,
                1 <= d,
        {
        }
        lemma_tdiv_le(x, d, -x);
    }
}

/// Sign and remainder facts of truncating division: the remainder has the
/// dividend's sign and magnitude below the divisor.
pub proof fn lemma_tdiv_rem(x: int, d: int)
    requires
        1 <= d,
    ensures
        x >= 0 ==> tdiv(x, d) >= 0 && 0 <= x - d * tdiv(x, d) <= d - 1,
        x < 0 ==> tdiv(x, d) <= 0 && -(d - 1) <= x - d * tdiv(x, d) <= 0,
{
    if x >= 0 {
        vstd::arithmetic::div_mod::lemma_fundamental_div_mod(x, d);
        vstd::arithmetic::div_mod::lemma_div_is_ordered(0, x, d);
        assert(x % d == x - d * (x / d));
    } else {
        vstd::arithmetic::div_mod::lemma_fundamental_div_mod(-x, d);
        vstd::arithmetic::div_mod::lemma_div_is_ordered(0, -x, d);
        assert((-x) % d == -x - d * ((-x) / d));
        assert(x - d * tdiv(x, d) == -((-x) - d * ((-x) / d))) by (nonlinear_arith)
            requires
                tdiv(x, d) == -((-x) / d),
        {
        }
    }
}

/// Squaring truncating division: `(d*q)^2` is at most `x^2`, which is below
/// `(d*(|q|+1))^2`.
pub proof fn lemma_tdiv_sq_bounds(x: int, d: int)
    requires
        1 <= d,
    ensures
        d * d * (tdiv(x, d) * tdiv(x, d)) <= x * x,
        x * x < d * d * ((vstd::math::abs(tdiv(x, d)) + 1) * (vstd::math::abs(tdiv(x, d)) + 1)),
{
    let q = tdiv(x, d);
    lemma_tdiv_rem(x, d);
    let r = x - d * q;
    assert(d * d * (q * q) <= x * x && x * x < d * d * ((vstd::math::abs(q) + 1) * (
    vstd::math::abs(q) + 1))) by (nonlinear_arith)
        requires
            1 <= d,
            r == x - d * q,
            x >= 0 ==> q >= 0 && 0 <= r <= d - 1,
            x < 0 ==> q <= 0 && -(d - 1) <= r <= 0,
            vstd::math::abs(q) == if q >= 0 { q } else { -q },
    {
        if x >= 0 {
            assert(x == d * q + r);
            assert(d * q <= x);
            assert(x < d * (q + 1));
        } else {
            assert(-x == d * (-q) + (-r));
            assert(d * (-q) <= -x);
            assert(-x < d * ((-q) + 1));
        }
    }
}

/// Every non-negative integer has a floor square root, so `usqrt` of it
/// satisfies `is_sqrt`.
pub proof fn lemma_usqrt_exists(n: int)
    requires
        0 <= n,
    ensures
        is_sqrt(n, usqrt(n)),
    decreases n,
{
    if n == 0 {
        assert(is_sqrt(0, 0));
    } else {
        lemma_usqrt_exists(n - 1);
        let r = usqrt(n - 1);
        assert(is_sqrt(n - 1, r));
        if (r + 1) * (r + 1) <= n {
            assert(is_sqrt(n, r + 1)) by (nonlinear_arith)
                requires
                    is_sqrt(n - 1, r),
                    (r + 1) * (r + 1) <= n,
            {
            }
        } else {
            assert(is_sqrt(n, r));
        }
    }
    assert(exists|q: int| is_sqrt(n, q));
    assert(is_sqrt(n, usqrt(n)));
}

/// Division of `x` by a positive `d`, rounding toward zero.
///
/// This is the one scalar division primitive: both fixed-point
/// multiplication and fixed-point division are built on it.
pub fn div_trunc(x: i64, d: i64) -> (r: i64)
    requires
        1 <= d,
        i64::MIN < x,
    ensures
        r == tdiv(x as int, d as int),
{
    if x >= 0 {
        let q: u64 = (x as u64) / (d as u64);
        assert(q <= x as u64) by (nonlinear_arith)
            requires
                q == (x as u64) / (d as u64),
                1 <= d as u64,
        {
        }
        q as i64
    } else {
        let m: u64 = (-x) as u64;
        let q: u64 = m / (d as u64);
        assert(q <= m) by (nonlinear_arith)
            requires
                q == m / (d as u64),
                1 <= d as u64,
        {
        }
        -(q as i64)
    }
}

/// Fixed-point product: `a * b` rescaled back down by `SCALE`.
pub fn fmul(a: i64, b: i64) -> (r: i64)
    requires
        -0x2000_0000_0000_0000 <= a * b <= 0x2000_0000_0000_0000,
    ensures
        r == tdiv(a * b, SCALE as int),
{
    div_trunc(a * b, SCALE)
}

/// Fixed-point quotient: `a / b` for a positive `b`, rescaled up by `SCALE`
/// before the division so the result is again in raw units.
pub fn fdiv(a: i64, b: i64) -> (r: i64)
    requires
        1 <= b,
        -0x2000_0000_0000_0000 <= a * (SCALE as int) <= 0x2000_0000_0000_0000,
    ensures
        r == tdiv(a * (SCALE as int), b as int),
{
    div_trunc(a * SCALE, b)
}

/// Clamp `x` into `[lo, hi]`.
pub open spec fn clamp_s(x: int, lo: int, hi: int) -> int {
    if x < lo {
        lo
    } else if x > hi {
        hi
    } else {
        x
    }
}

/// Fixed-point product in specifications: `a * b` rescaled down by `SCALE`.
pub open spec fn fmul_s(a: int, b: int) -> int {
    tdiv(a * b, SCALE as int)
}

/// Odd polynomial approximation of sin on `[0, pi/2]`, clamped to
/// `[0, SCALE]`: `sin(a) ~ a - a^3/6 + a^5/120`.
pub open spec fn sin_quarter_s(a: int) -> int {
    let a2 = fmul_s(a, a);
    let a3 = fmul_s(a2, a);
    let a5 = fmul_s(a3, a2);
    clamp_s(a - tdiv(a3, 6) + tdiv(a5, 120), 0, SCALE as int)
}

/// sin over a full turn: the argument is reduced into `[0, 2*pi)` and folded
/// by quadrant onto `sin_quarter_s`.
pub open spec fn sin_s(x: int) -> int {
    let r = x % (TWO_PI_FIX as int);
    if r <= HALF_PI_FIX {
        sin_quarter_s(r)
    } else if r <= PI_FIX {
        sin_quarter_s(PI_FIX - r)
    } else if r <= PI_FIX + HALF_PI_FIX {
        -sin_quarter_s(r - PI_FIX)
    } else {
        -sin_quarter_s(TWO_PI_FIX - r)
    }
}

/// cos as the quarter-turn shift of sin.
pub open spec fn cos_s(x: int) -> int {
    sin_s(x + HALF_PI_FIX as int)
}

/// Coefficients of the acos approximation
/// `acos(c) ~ sqrt(1 - c) * (c0 - c1*c + c2*c^2 - c3*c^3)` on `[0, 1]`,
/// all in raw units.
pub const ACOS_C0: i64 = 102940;

pub const ACOS_C1: i64 = 13901;

pub const ACOS_C2: i64 = 4867;

pub const ACOS_C3: i64 = 1228;

/// The acos approximation on `[0, SCALE]`, clamped into `[0, PI_FIX]`.
pub open spec fn acos_half_s(c: int) -> int {
    let s = usqrt((SCALE as int - c) * SCALE as int);
    let c2 = fmul_s(c, c);
    let c3 = fmul_s(c2, c);
    let p = ACOS_C0 - fmul_s(ACOS_C1 as int, c) + fmul_s(ACOS_C2 as int, c2) - fmul_s(
        ACOS_C3 as int,
        c3,
    );
    clamp_s(fmul_s(s, p), 0, PI_FIX as int)
}

/// acos over `[-SCALE, SCALE]`, in `[0, PI_FIX]`. The argument is clamped
/// first, so a dot product of unit-scale vectors that truncation pushed
/// slightly out of range is treated as +-1.
pub open spec fn acos_s(c0: int) -> int {
    let c = clamp_s(c0, -(SCALE as int), SCALE as int);
    if c >= 0 {
        acos_half_s(c)
    } else {
        PI_FIX - acos_half_s(-c)
    }
}

/// Floor square root of a `u64`, by binary search.
pub fn isqrt(n: u64) -> (r: u64)
    ensures
        is_sqrt(n as int, r as int),
        r == usqrt(n as int),
        r <= 0xffff_ffff,
{
    let mut lo: u64 = 0;
    let mut hi: u64 = 0x1_0000_0000;
    while lo + 1 < hi
        invariant
            lo < hi <= 0x1_0000_0000,
            lo * lo <= n,
            (n as int) < (hi as int) * (hi as int),
        decreases hi - lo,
    {
        let mid: u64 = lo + (hi - lo) / 2;
        assert(mid * mid <= 0xffff_ffff_ffff_ffff) by (nonlinear_arith)
            requires
                mid < 0x1_0000_0000,
        {
        }
        if mid * mid <= n {
            lo = mid;
        } else {
            hi = mid;
        }
    }
    proof {
        assert(is_sqrt(n as int, lo as int));
        lemma_usqrt_is(n as int, lo as int);
    }
    lo
}

/// Euclidean remainder of an angle into `[0, 2*pi)` raw units.
pub fn angle_mod(x: i64) -> (r: i64)
    requires
        i64::MIN < x,
    ensures
        r == (x as int) % (TWO_PI_FIX as int),
        0 <= r < TWO_PI_FIX,
{
    if x >= 0 {
        ((x as u64) % (TWO_PI_FIX as u64)) as i64
    } else {
        let m: u64 = ((-x) as u64) % (TWO_PI_FIX as u64);
        if m == 0 {
            0
        } else {
            TWO_PI_FIX - (m as i64)
        }
    }
}

/// The sin polynomial on `[0, pi/2]` raw units.
fn sin_quarter(a: i64) -> (r: i64)
    requires
        0 <= a <= HALF_PI_FIX,
    ensures
        r == sin_quarter_s(a as int),
        0 <= r <= SCALE,
{
    assert(a * a <= HALF_PI_FIX * HALF_PI_FIX) by (nonlinear_arith)
        requires
            0 <= a <= HALF_PI_FIX,
    {
    }
    let a2 = fmul(a, a);
    proof {
        lemma_tdiv_le(a as int * a as int, SCALE as int, 161705);
        lemma_tdiv_shrinks(a as int * a as int, SCALE as int);
    }
    assert(a2 * a <= 161705 * HALF_PI_FIX) by (nonlinear_arith)
        requires
            0 <= a2 <= 161705,
            0 <= a <= HALF_PI_FIX,
    {
    }
    let a3 = fmul(a2, a);
    proof {
        lemma_tdiv_le(a2 as int * a as int, SCALE as int, 254100);
        lemma_tdiv_shrinks(a2 as int * a as int, SCALE as int);
    }
    assert(a3 * a2 <= 254100 * 161705) by (nonlinear_arith)
        requires
            0 <= a3 <= 254100,
            0 <= a2 <= 161705,
    {
    }
    let a5 = fmul(a3, a2);
    proof {
        lemma_tdiv_le(a3 as int * a2 as int, SCALE as int, 627100);
        lemma_tdiv_shrinks(a3 as int * a2 as int, SCALE as int);
    }
    let t3 = div_trunc(a3, 6);
    let t5 = div_trunc(a5, 120);
    proof {
        lemma_tdiv_shrinks(a3 as int, 6);
        lemma_tdiv_shrinks(a5 as int, 120);
    }
    let s = a - t3 + t5;
    if s < 0 {
        0
    } else if s > SCALE {
        SCALE
    } else {
        s
    }
}

/// Fixed-point sin of an angle in raw radian units.
pub fn sin_fix(x: i64) -> (r: i64)
    requires
        -0x200_0000_0000 <= x <= 0x200_0000_0000,
    ensures
        r == sin_s(x as int),
        -SCALE <= r <= SCALE,
{
    let a = angle_mod(x);
    if a <= HALF_PI_FIX {
        sin_quarter(a)
    } else if a <= PI_FIX {
        sin_quarter(PI_FIX - a)
    } else if a <= PI_FIX + HALF_PI_FIX {
        -sin_quarter(a - PI_FIX)
    } else {
        -sin_quarter(TWO_PI_FIX - a)
    }
}

/// Fixed-point cos of an angle in raw radian units.
pub fn cos_fix(x: i64) -> (r: i64)
    requires
        -0x100_0000_0000 <= x <= 0x100_0000_0000,
    ensures
        r == cos_s(x as int),
        -SCALE <= r <= SCALE,
{
    sin_fix(x + HALF_PI_FIX)
}

/// The acos approximation on `[0, SCALE]`.
fn acos_half(c: i64) -> (r: i64)
    requires
        0 <= c <= SCALE,
    ensures
        r == acos_half_s(c as int),
        0 <= r <= PI_FIX,
{
    let n: i64 = (SCALE - c) * SCALE;
    let s: u64 = isqrt(n as u64);
    proof {
        assert(s <= 65536) by (nonlinear_arith)
            requires
                is_sqrt(n as int, s as int),
                n <= 0x1_0000_0000,
        {
            if s > 65536 {
                assert(s * s >= 65537 * 65537);
            }
        }
    }
    assert(c * c <= SCALE * SCALE) by (nonlinear_arith)
        requires
            0 <= c <= SCALE,
    {
    }
    let c2 = fmul(c, c);
    proof {
        lemma_tdiv_le(c as int * c as int, SCALE as int, SCALE as int);
        lemma_tdiv_shrinks(c as int * c as int, SCALE as int);
    }
    assert(c2 * c <= SCALE * SCALE) by (nonlinear_arith)
        requires
            0 <= c2 <= SCALE,
            0 <= c <= SCALE,
    {
    }
    let c3 = fmul(c2, c);
    proof {
        lemma_tdiv_le(c2 as int * c as int, SCALE as int, SCALE as int);
        lemma_tdiv_shrinks(c2 as int * c as int, SCALE as int);
    }
    proof {
        lemma_tdiv_le(ACOS_C1 as int * c as int, SCALE as int, ACOS_C1 as int);
        lemma_tdiv_le(ACOS_C2 as int * c2 as int, SCALE as int, ACOS_C2 as int);
        lemma_tdiv_le(ACOS_C3 as int * c3 as int, SCALE as int, ACOS_C3 as int);
        lemma_tdiv_shrinks(ACOS_C1 as int * c as int, SCALE as int);
        lemma_tdiv_shrinks(ACOS_C2 as int * c2 as int, SCALE as int);
        lemma_tdiv_shrinks(ACOS_C3 as int * c3 as int, SCALE as int);
    }
    let p = ACOS_C0 - fmul(ACOS_C1, c) + fmul(ACOS_C2, c2) - fmul(ACOS_C3, c3);
    assert((s as i64) * p <= 65536 * 107807 && 0 <= (s as i64) * p) by (nonlinear_arith)
        requires
            0 <= s <= 65536,
            0 <= p <= 107807,
    {
    }
    let r0 = fmul(s as i64, p);
    proof {
        lemma_tdiv_shrinks(s as int * p as int, SCALE as int);
    }
    if r0 < 0 {
        0
    } else if r0 > PI_FIX {
        PI_FIX
    } else {
        r0
    }
}

/// Fixed-point acos: total, clamping its argument into `[-SCALE, SCALE]`.
pub fn acos_fix(c0: i64) -> (r: i64)
    ensures
        r == acos_s(c0 as int),
        0 <= r <= PI_FIX,
{
    let c = if c0 < -SCALE {
        -SCALE
    } else if c0 > SCALE {
        SCALE
    } else {
        c0
    };
    if c >= 0 {
        acos_half(c)
    } else {
        PI_FIX - acos_half(-c)
    }
}

} // verus!
