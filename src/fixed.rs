//! Fixed-point arithmetic shared by the camera rig.
//!
//! Every fractional quantity is an integer count of millionths: `ONE` stands for `1.0`.
//! Lengths are millionths of a world unit, angles are microradians, times are microseconds.
use vstd::prelude::*;

verus! {

/// The fixed-point representation of `1.0`.
pub const ONE: i64 = 1_000_000;

/// Whether an integer can be held by an `i64`.
pub open spec fn fits(v: int) -> bool {
    i64::MIN <= v <= i64::MAX
}

/// Division that rounds toward zero, as Rust's integer `/` does.
pub open spec fn trunc_div(n: int, d: int) -> int {
    if n >= 0 {
        n / d
    } else {
        -((-n) / d)
    }
}

/// Division of a non-negative numerator that rounds up.
pub open spec fn ceil_div(n: int, d: int) -> int {
    (n + d - 1) / d
}

/// Linear interpolation from `a` toward `b` by the fraction `t / ONE`.
///
/// The step is rounded up, away from `a`: for `t > 0` the result moves at least one
/// step whenever `a != b`, and it never passes `b` while `t <= ONE`.
pub open spec fn lerp(a: int, b: int, t: int) -> int {
    if a <= b {
        a + ceil_div((b - a) * t, ONE as int)
    } else {
        a - ceil_div((a - b) * t, ONE as int)
    }
}

/// `r` is the integer square root of `n`, rounded down.
pub open spec fn is_floor_sqrt(n: int, r: int) -> bool {
    0 <= r && r * r <= n < (r + 1) * (r + 1)
}

/// The integer square root of a non-negative `n`, rounded down.
pub open spec fn floor_sqrt(n: int) -> int {
    choose|r: int| is_floor_sqrt(n, r)
}

/// The step of `lerp` never exceeds the distance it covers.
pub proof fn lemma_ceil_step_bounded(d: int, t: int)
    requires
        0 <= d,
        0 <= t <= ONE,
    ensures
        0 <= ceil_div(d * t, ONE as int) <= d,
        t == 0 ==> ceil_div(d * t, ONE as int) == 0,
        t == ONE ==> ceil_div(d * t, ONE as int) == d,
        t > 0 && d > 0 ==> ceil_div(d * t, ONE as int) >= 1,
{
    assert(0 <= d * t <= d * ONE) by (nonlinear_arith)
        requires
            0 <= d,
            0 <= t <= ONE,
    ;
    assert(t > 0 && d > 0 ==> d * t >= 1) by (nonlinear_arith);
    if t == ONE {
        assert(d * t == d * ONE);
    }
}

/// The result of `lerp` lies between its end points and is no farther from `b` than `a` is.
pub proof fn lemma_lerp_between(a: int, b: int, t: int)
    requires
        0 <= t <= ONE,
    ensures
        a <= b ==> a <= lerp(a, b, t) <= b,
        b <= a ==> b <= lerp(a, b, t) <= a,
        t == 0 ==> lerp(a, b, t) == a,
        t == ONE ==> lerp(a, b, t) == b,
        a == b ==> lerp(a, b, t) == a,
        t > 0 && a != b ==> abs_diff(lerp(a, b, t), b) < abs_diff(a, b),
{
    if a <= b {
        lemma_ceil_step_bounded(b - a, t);
    } else {
        lemma_ceil_step_bounded(a - b, t);
    }
}

/// The distance between two integers.
pub open spec fn abs_diff(a: int, b: int) -> int {
    if a <= b {
        b - a
    } else {
        a - b
    }
}

/// Two square roots rounded down of the same number are equal.
proof fn lemma_floor_sqrt_unique(n: int, r: int, s: int)
    requires
        is_floor_sqrt(n, r),
        is_floor_sqrt(n, s),
    ensures
        r == s,
{
    if r < s {
        assert((r + 1) * (r + 1) <= s * s) by (nonlinear_arith)
            requires
                0 <= r < s,
        ;
    } else if s < r {
        assert((s + 1) * (s + 1) <= r * r) by (nonlinear_arith)
            requires
                0 <= s < r,
        ;
    }
}

/// A witness of `is_floor_sqrt` is the value of `floor_sqrt`.
pub proof fn lemma_floor_sqrt_is(n: int, r: int)
    requires
        is_floor_sqrt(n, r),
    ensures
        floor_sqrt(n) == r,
{
    let s = floor_sqrt(n);
    assert(is_floor_sqrt(n, s));
    lemma_floor_sqrt_unique(n, r, s);
}

/// Integer square root, rounded down.
pub fn isqrt(n: u128) -> (r: u64)
    ensures
        is_floor_sqrt(n as int, r as int),
        r == floor_sqrt(n as int),
{
    let mut lo: u128 = 0;
    let mut hi: u128 = 0x1_0000_0000_0000_0000;
    assert(n < hi * hi);
    while hi - lo > 1
        invariant
            lo < hi <= 0x1_0000_0000_0000_0000,
            lo * lo <= n,
            n < hi * hi,
        decreases hi - lo,
    {
        let mid: u128 = lo + (hi - lo) / 2;
        assert(mid * mid < 0x1_0000_0000_0000_0000_0000_0000_0000_0000) by (nonlinear_arith)
            requires
                mid < 0x1_0000_0000_0000_0000,
        ;
        if mid * mid <= n {
            lo = mid;
        } else {
            hi = mid;
        }
    }
    assert(hi == lo + 1);
    proof {
        lemma_floor_sqrt_is(n as int, lo as int);
    }
    lo as u64
}

/// `a * b / d`, with the division rounded toward zero.
pub fn mul_div(a: i64, b: i64, d: i64) -> (r: i128)
    requires
        d > 0,
    ensures
        r == trunc_div(a * b, d as int),
        -0x4000_0000_0000_0000_0000_0000_0000_0000 <= r <= 0x4000_0000_0000_0000_0000_0000_0000_0000,
{
    assert(-0x4000_0000_0000_0000_0000_0000_0000_0000 <= a * b <= 0x4000_0000_0000_0000_0000_0000_0000_0000)
        by (nonlinear_arith)
        requires
            i64::MIN <= a <= i64::MAX,
            i64::MIN <= b <= i64::MAX,
    ;
    let p: i128 = a as i128 * b as i128;
    if p >= 0 {
        ((p as u128) / (d as u128)) as i128
    } else {
        let q: u128 = ((-p) as u128) / (d as u128);
        assert(q <= (-p));
        -(q as i128)
    }
}

/// Exact `lerp` on 64-bit integers.
pub fn lerp_i64(a: i64, b: i64, t: i64) -> (r: i64)
    requires
        0 <= t <= ONE,
    ensures
        r == lerp(a as int, b as int, t as int),
{
    proof {
        lemma_lerp_between(a as int, b as int, t as int);
    }
    if a <= b {
        let d: u128 = (b as i128 - a as i128) as u128;
        assert(d * t <= d * ONE) by (nonlinear_arith)
            requires
                0 <= t <= ONE,
                0 <= d,
        ;
        let step: u128 = (d * (t as u128) + (ONE as u128 - 1)) / (ONE as u128);
        (a as i128 + step as i128) as i64
    } else {
        let d: u128 = (a as i128 - b as i128) as u128;
        assert(d * t <= d * ONE) by (nonlinear_arith)
            requires
                0 <= t <= ONE,
                0 <= d,
        ;
        let step: u128 = (d * (t as u128) + (ONE as u128 - 1)) / (ONE as u128);
        (a as i128 - step as i128) as i64
    }
}

/// `v` as an `i64`, when it fits.
pub fn to_i64(v: i128) -> (r: Option<i64>)
    ensures
        r is Some <==> fits(v as int),
        r is Some ==> r->Some_0 == v,
{
    if i64::MIN as i128 <= v && v <= i64::MAX as i128 {
        Some(v as i64)
    } else {
        None
    }
}

} // verus!
