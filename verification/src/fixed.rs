//! Integer arithmetic shared by the vector and steering code: rounding
//! division, integer square roots and the affine map.

use vstd::prelude::*;

verus! {

/// The representation of the real number 1: sixteen fractional bits.
pub const ONE: i64 = 65536;

/// Absolute value.
pub open spec fn abs(a: int) -> int {
    if a >= 0 {
        a
    } else {
        -a
    }
}

/// The quotient of `a` by `b`, rounded toward zero.
pub open spec fn trunc_div(a: int, b: int) -> int {
    if b > 0 {
        if a >= 0 {
            a / b
        } else {
            -((-a) / b)
        }
    } else {
        if a >= 0 {
            -(a / (-b))
        } else {
            (-a) / (-b)
        }
    }
}

/// `r` is the greatest integer whose square does not exceed `n`.
pub open spec fn is_floor_sqrt(n: int, r: int) -> bool {
    0 <= r && r * r <= n && n < (r + 1) * (r + 1)
}

/// The integer square root of `n`, rounded down.
pub open spec fn floor_sqrt(n: int) -> int {
    choose|r: int| is_floor_sqrt(n, r)
}

/// The integer square root of `n`, rounded up.
pub open spec fn ceil_sqrt(n: int) -> int {
    let f = floor_sqrt(n);
    if f * f == n {
        f
    } else {
        f + 1
    }
}

/// Squaring is monotone on the non-negative integers.
pub proof fn lemma_square_monotone(a: int, b: int)
    requires
        0 <= a <= b,
    ensures
        a * a <= b * b,
{
    assert(a * a <= b * b) by (nonlinear_arith)
        requires
            0 <= a <= b,
    ;
}

/// A non-negative integer has at most one rounded-down square root.
pub proof fn lemma_floor_sqrt_unique(n: int, r1: int, r2: int)
    requires
        is_floor_sqrt(n, r1),
        is_floor_sqrt(n, r2),
    ensures
        r1 == r2,
{
    if r1 < r2 {
        lemma_square_monotone(r1 + 1, r2);
    } else if r2 < r1 {
        lemma_square_monotone(r2 + 1, r1);
    }
}

proof fn lemma_floor_sqrt_witness(n: int) -> (r: int)
    requires
        n >= 0,
    ensures
        is_floor_sqrt(n, r),
    decreases n,
{
    if n == 0 {
        assert(is_floor_sqrt(0, 0)) by (nonlinear_arith);
        0
    } else {
        let p = lemma_floor_sqrt_witness(n - 1);
        let q = p + 1;
        assert(n - 1 < q * q);
        if q * q <= n {
            assert((q + 1) * (q + 1) > q * q) by (nonlinear_arith)
                requires
                    q >= 0,
            ;
            q
        } else {
            p
        }
    }
}

/// Every non-negative integer has a rounded-down square root, and
/// `floor_sqrt` names it.
pub proof fn lemma_floor_sqrt(n: int)
    requires
        n >= 0,
    ensures
        is_floor_sqrt(n, floor_sqrt(n)),
{
    let r = lemma_floor_sqrt_witness(n);
    assert(is_floor_sqrt(n, r));
}

/// Whatever passes for the rounded-down root of `n` is `floor_sqrt(n)`.
pub proof fn lemma_floor_sqrt_is(n: int, r: int)
    requires
        is_floor_sqrt(n, r),
    ensures
        floor_sqrt(n) == r,
{
    lemma_floor_sqrt(n);
    lemma_floor_sqrt_unique(n, r, floor_sqrt(n));
}

/// The least non-negative integer whose square reaches `n` is
/// `ceil_sqrt(n)`.
pub proof fn lemma_ceil_sqrt_is(n: int, r: int)
    requires
        0 <= r,
        0 <= n <= r * r,
        r == 0 || (r - 1) * (r - 1) < n,
    ensures
        ceil_sqrt(n) == r,
{
    if r == 0 {
        assert(r * r == 0);
        assert(is_floor_sqrt(0, 0)) by (nonlinear_arith);
        lemma_floor_sqrt_is(0, 0);
    } else if r * r == n {
        assert((r + 1) * (r + 1) > r * r) by (nonlinear_arith)
            requires
                r >= 0,
        ;
        lemma_floor_sqrt_is(n, r);
    } else {
        let f = r - 1;
        assert(f * f >= 0) by (nonlinear_arith);
        assert((f + 1) * (f + 1) == r * r);
        lemma_floor_sqrt_is(n, f);
    }
}

/// The rounded-up root is the least integer whose square reaches `n`.
pub proof fn lemma_ceil_sqrt(n: int)
    requires
        n >= 0,
    ensures
        0 <= ceil_sqrt(n),
        ceil_sqrt(n) * ceil_sqrt(n) >= n,
        ceil_sqrt(n) > 0 ==> (ceil_sqrt(n) - 1) * (ceil_sqrt(n) - 1) < n,
        n > 0 ==> ceil_sqrt(n) > 0,
{
    lemma_floor_sqrt(n);
    let f = floor_sqrt(n);
    let c = ceil_sqrt(n);
    if f * f != n {
        assert(c - 1 == f);
        assert((c - 1) * (c - 1) == f * f);
        assert(c * c == (f + 1) * (f + 1));
    } else if f > 0 {
        assert((f - 1) * (f - 1) < f * f) by (nonlinear_arith)
            requires
                f > 0,
        ;
    }
}

/// Computes the rounded-down square root by bisection.
pub fn floor_sqrt_of(n: u128) -> (r: u64)
    ensures
        r == floor_sqrt(n as int),
        is_floor_sqrt(n as int, r as int),
{
    let mut lo: u128 = 0;
    let mut hi: u128 = 0x1_0000_0000_0000_0000;
    assert(0x1_0000_0000_0000_0000int * 0x1_0000_0000_0000_0000int
        == 0x1_0000_0000_0000_0000_0000_0000_0000_0000int);
    while hi - lo > 1
        invariant
            lo < hi <= 0x1_0000_0000_0000_0000,
            lo * lo <= n,
            n < hi * hi,
        decreases hi - lo,
    {
        let mid: u128 = lo + (hi - lo) / 2;
        assert(mid * mid <= 0xffff_ffff_ffff_ffff * 0xffff_ffff_ffff_ffff) by (nonlinear_arith)
            requires
                0 <= mid <= 0xffff_ffff_ffff_ffff,
        ;
        if mid * mid <= n {
            lo = mid;
        } else {
            hi = mid;
        }
    }
    proof {
        assert(hi == lo + 1);
        lemma_floor_sqrt_is(n as int, lo as int);
    }
    lo as u64
}

/// Computes the rounded-up square root.
pub fn ceil_sqrt_of(n: u128) -> (r: u128)
    ensures
        r == ceil_sqrt(n as int),
        r <= 0x1_0000_0000_0000_0000,
{
    let f: u128 = floor_sqrt_of(n) as u128;
    assert(f * f <= 0xffff_ffff_ffff_ffff * 0xffff_ffff_ffff_ffff) by (nonlinear_arith)
        requires
            0 <= f <= 0xffff_ffff_ffff_ffff,
    ;
    if f * f == n {
        f
    } else {
        f + 1
    }
}

/// The image of `value` under the affine map that sends `from_min` to
/// `to_min` and `from_max` to `to_max`, rounded toward `to_min`.
pub open spec fn affine(value: int, from_min: int, from_max: int, to_min: int, to_max: int) -> int {
    to_min + trunc_div((value - from_min) * (to_max - to_min), from_max - from_min)
}

/// Divides a signed numerator by a positive divisor, rounding toward zero.
pub fn div_toward_zero(a: i128, b: u128) -> (q: i128)
    requires
        0 < b <= i128::MAX,
    ensures
        q == trunc_div(a as int, b as int),
        abs(q as int) <= abs(a as int),
{
    let d: i128 = b as i128;
    let q = a / d;
    proof {
        let m = abs(a as int);
        assert(m / (b as int) <= m) by (nonlinear_arith)
            requires
                m >= 0,
                b > 0,
        ;
        assert(m / (b as int) >= 0) by (nonlinear_arith)
            requires
                m >= 0,
                b > 0,
        ;
    }
    q
}

/// The absolute value of the difference of two numbers.
pub fn span(from: i64, to: i64) -> (d: u128)
    ensures
        d == abs(to - from),
        d <= 0xffff_ffff_ffff_ffff,
{
    let wide: i128 = to as i128 - from as i128;
    if wide >= 0 {
        wide as u128
    } else {
        (-wide) as u128
    }
}

/// Maps `value` from the range `from_min..from_max` onto `to_min..to_max`.
/// The ranges may be given in either direction, and `value` may lie outside
/// of its range; the result must be representable.
pub fn affine_transform(value: i64, from_min: i64, from_max: i64, to_min: i64, to_max: i64) -> (r:
    i64)
    requires
        from_min != from_max,
        i64::MIN <= affine(
            value as int,
            from_min as int,
            from_max as int,
            to_min as int,
            to_max as int,
        ) <= i64::MAX,
    ensures
        r == affine(value as int, from_min as int, from_max as int, to_min as int, to_max as int),
{
    let offset = span(from_min, value);
    let to_span = span(to_min, to_max);
    let from_span = span(from_min, from_max);
    assert(offset * to_span <= 0xffff_ffff_ffff_ffff * 0xffff_ffff_ffff_ffff) by (nonlinear_arith)
        requires
            0 <= offset <= 0xffff_ffff_ffff_ffff,
            0 <= to_span <= 0xffff_ffff_ffff_ffff,
    ;
    let quotient: u128 = (offset * to_span) / from_span;
    let upward = ((value >= from_min) == (to_max >= to_min)) == (from_max > from_min);
    proof {
        let p = (value - from_min) * (to_max - to_min);
        assert(abs(p) == offset * to_span && (p >= 0 <==> (value >= from_min) == (to_max >= to_min)
            || p == 0)) by (nonlinear_arith)
            requires
                p == (value - from_min) * (to_max - to_min),
                offset == abs(value - from_min),
                to_span == abs(to_max - to_min),
        ;
        assert(p == 0 ==> quotient == 0);
        assert(quotient == abs(trunc_div(p, from_max - from_min)));
    }
    if upward {
        (to_min as i128 + quotient as i128) as i64
    } else {
        (to_min as i128 - quotient as i128) as i64
    }
}

} // verus!
