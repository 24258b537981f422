//! Points and vectors of the plane with fixed-point coordinates, and the
//! mathematical vectors that their contracts speak of.

use crate::fixed::{abs, ceil_sqrt, ceil_sqrt_of, div_toward_zero, lemma_ceil_sqrt, trunc_div, ONE};
use vstd::prelude::*;

verus! {

/// A vector of the integer plane: what a `Point2` or a `Vector2` stands for.
pub struct Vec2 {
    pub x: int,
    pub y: int,
}

impl Vec2 {
    pub open spec fn zero() -> Vec2 {
        Vec2 { x: 0, y: 0 }
    }

    pub open spec fn is_zero(self) -> bool {
        self.x == 0 && self.y == 0
    }

    pub open spec fn plus(self, other: Vec2) -> Vec2 {
        Vec2 { x: self.x + other.x, y: self.y + other.y }
    }

    pub open spec fn minus(self, other: Vec2) -> Vec2 {
        Vec2 { x: self.x - other.x, y: self.y - other.y }
    }

    /// The square of the Euclidean length.
    pub open spec fn magnitude2(self) -> int {
        self.x * self.x + self.y * self.y
    }

    /// The vector of the same direction whose length is `len`: each
    /// coordinate times `len`, divided by the length of the vector.  That
    /// length is taken as its root rounded up and the quotient is rounded
    /// toward zero, so that the result is never longer than `len`.  The zero
    /// vector has no direction and stays zero.
    pub open spec fn with_length(self, len: int) -> Vec2 {
        if self.is_zero() {
            Vec2::zero()
        } else {
            let m = ceil_sqrt(self.magnitude2());
            Vec2 { x: trunc_div(self.x * len, m), y: trunc_div(self.y * len, m) }
        }
    }

    /// The vector itself where it is no longer than `limit`, else the vector
    /// of the same direction and of length `limit`.
    pub open spec fn limited(self, limit: int) -> Vec2 {
        if self.magnitude2() <= limit * limit {
            self
        } else {
            self.with_length(limit)
        }
    }

    /// The product with the fixed-point scalar `factor`, rounded toward zero.
    pub open spec fn scaled(self, factor: int) -> Vec2 {
        Vec2 {
            x: trunc_div(self.x * factor, ONE as int),
            y: trunc_div(self.y * factor, ONE as int),
        }
    }

    /// The quotient by the whole number `count`, rounded toward zero.
    pub open spec fn divided(self, count: int) -> Vec2 {
        Vec2 { x: trunc_div(self.x, count), y: trunc_div(self.y, count) }
    }

    /// Both coordinates are representable in a `Vector2`.
    pub open spec fn fits_vector(self) -> bool {
        i64::MIN <= self.x <= i64::MAX && i64::MIN <= self.y <= i64::MAX
    }

    /// Both coordinates are representable in a `Point2`.
    pub open spec fn fits_point(self) -> bool {
        i32::MIN <= self.x <= i32::MAX && i32::MIN <= self.y <= i32::MAX
    }
}

/// A coordinate rescaled by `len / m` is at most `len` in absolute value
/// when it was at most `m`.
pub proof fn lemma_rescaled_coordinate(x: int, len: int, m: int)
    requires
        len >= 0,
        m > 0,
        abs(x) <= m,
    ensures
        abs(trunc_div(x * len, m)) <= len,
        abs(trunc_div(x * len, m)) == (abs(x) * len) / m,
        ((abs(x) * len) / m) * m <= abs(x) * len,
{
    let a = abs(x) * len;
    assert(a >= 0) by (nonlinear_arith)
        requires
            a == abs(x) * len,
            abs(x) >= 0,
            len >= 0,
    ;
    assert(abs(x * len) == a) by (nonlinear_arith)
        requires
            a == abs(x) * len,
            len >= 0,
    ;
    assert(a <= m * len) by (nonlinear_arith)
        requires
            a == abs(x) * len,
            0 <= abs(x) <= m,
            len >= 0,
    ;
    assert(0 <= a / m <= len && (a / m) * m <= a) by (nonlinear_arith)
        requires
            0 <= a <= m * len,
            m > 0,
    ;
}

/// Rescaling never yields more than the length asked for.
pub proof fn lemma_with_length_bound(v: Vec2, len: int)
    requires
        len >= 0,
    ensures
        v.with_length(len).magnitude2() <= len * len,
        abs(v.with_length(len).x) <= len,
        abs(v.with_length(len).y) <= len,
{
    assert(len * len >= 0) by (nonlinear_arith);
    if !v.is_zero() {
        let n = v.magnitude2();
        lemma_coordinates_below_root(v);
        let m = ceil_sqrt(n);
        lemma_rescaled_coordinate(v.x, len, m);
        lemma_rescaled_coordinate(v.y, len, m);
        let r = v.with_length(len);
        let qa = abs(r.x);
        let qb = abs(r.y);
        let ax = abs(v.x);
        let ay = abs(v.y);
        assert(qa * qa * (m * m) <= ax * ax * (len * len)) by (nonlinear_arith)
            requires
                0 <= qa * m <= ax * len,
                qa >= 0,
                m > 0,
        ;
        assert(qb * qb * (m * m) <= ay * ay * (len * len)) by (nonlinear_arith)
            requires
                0 <= qb * m <= ay * len,
                qb >= 0,
                m > 0,
        ;
        assert(ax * ax + ay * ay == n) by (nonlinear_arith)
            requires
                n == v.x * v.x + v.y * v.y,
                ax == abs(v.x),
                ay == abs(v.y),
        ;
        assert(qa * qa + qb * qb <= len * len) by (nonlinear_arith)
            requires
                qa * qa * (m * m) <= ax * ax * (len * len),
                qb * qb * (m * m) <= ay * ay * (len * len),
                ax * ax + ay * ay == n,
                n <= m * m,
                m > 0,
                len * len >= 0,
        ;
        assert(r.magnitude2() == qa * qa + qb * qb) by (nonlinear_arith)
            requires
                qa == abs(r.x),
                qb == abs(r.y),
                r.magnitude2() == r.x * r.x + r.y * r.y,
        ;
    }
}

/// A limited vector is no longer than the limit.
pub proof fn lemma_limited_bound(v: Vec2, limit: int)
    requires
        limit >= 0,
    ensures
        v.limited(limit).magnitude2() <= limit * limit,
        v.limited(limit).magnitude2() <= v.magnitude2(),
        abs(v.limited(limit).x) <= limit,
        abs(v.limited(limit).y) <= limit,
{
    lemma_with_length_bound(v, limit);
    let r = v.limited(limit);
    assert(abs(r.x) <= limit && abs(r.y) <= limit) by (nonlinear_arith)
        requires
            r.x * r.x + r.y * r.y <= limit * limit,
            limit >= 0,
    ;
}

/// `r` lies between zero and `x`: it has the sign of `x`, or is zero, and
/// is no larger in absolute value.
pub open spec fn within(r: int, x: int) -> bool {
    (0 <= r <= x) || (x <= r <= 0)
}

/// Rescaling to a length that is not above the vector's own turns no
/// coordinate and lengthens none.
pub proof fn lemma_with_length_within(v: Vec2, len: int)
    requires
        0 <= len,
        len * len <= v.magnitude2(),
    ensures
        within(v.with_length(len).x, v.x),
        within(v.with_length(len).y, v.y),
{
    if !v.is_zero() {
        let n = v.magnitude2();
        lemma_coordinates_below_root(v);
        let m = ceil_sqrt(n);
        assert(len <= m) by (nonlinear_arith)
            requires
                0 <= len,
                len * len <= n,
                n <= m * m,
                m > 0,
        ;
        lemma_rescaled_within(v.x, len, m);
        lemma_rescaled_within(v.y, len, m);
    }
}

/// A coordinate rescaled by `len / m`, with `len` no more than `m`, lies
/// between zero and the coordinate.
pub proof fn lemma_rescaled_within(x: int, len: int, m: int)
    requires
        0 <= len <= m,
        m > 0,
    ensures
        within(trunc_div(x * len, m), x),
{
    let a = abs(x) * len;
    assert(abs(x * len) == a && 0 <= a <= abs(x) * m && (x >= 0 ==> x * len >= 0) && (x <= 0 ==> x
        * len <= 0)) by (nonlinear_arith)
        requires
            a == abs(x) * len,
            0 <= len <= m,
    ;
    assert(0 <= a / m <= abs(x)) by (nonlinear_arith)
        requires
            0 <= a <= abs(x) * m,
            m > 0,
    ;
}

/// Limiting turns no coordinate and lengthens none.
pub proof fn lemma_limited_within(v: Vec2, limit: int)
    requires
        0 <= limit,
    ensures
        within(v.limited(limit).x, v.x),
        within(v.limited(limit).y, v.y),
{
    if v.magnitude2() > limit * limit {
        lemma_with_length_within(v, limit);
    }
}

/// A location of the plane.
#[derive(Clone, Copy, Debug, PartialEq, Eq, Structural)]
pub struct Point2 {
    pub x: i32,
    pub y: i32,
}

/// A displacement, a velocity or a force.
#[derive(Clone, Copy, Debug, PartialEq, Eq, Structural)]
pub struct Vector2 {
    pub x: i64,
    pub y: i64,
}

impl View for Point2 {
    type V = Vec2;

    open spec fn view(&self) -> Vec2 {
        Vec2 { x: self.x as int, y: self.y as int }
    }
}

impl View for Vector2 {
    type V = Vec2;

    open spec fn view(&self) -> Vec2 {
        Vec2 { x: self.x as int, y: self.y as int }
    }
}

/// The absolute value of a coordinate.
pub fn magnitude_of(x: i64) -> (m: u64)
    ensures
        m == abs(x as int),
{
    if x >= 0 {
        x as u64
    } else {
        (-(x as i128)) as u64
    }
}

/// The sum of the squares of two coordinates.
pub fn sum_of_squares(x: i64, y: i64) -> (n: u128)
    ensures
        n == x * x + y * y,
        n == 0 <==> (x == 0 && y == 0),
{
    let a: u128 = magnitude_of(x) as u128;
    let b: u128 = magnitude_of(y) as u128;
    assert(a * a <= 0x8000_0000_0000_0000 * 0x8000_0000_0000_0000 && a * a == x * x && (a * a == 0
        <==> x == 0)) by (nonlinear_arith)
        requires
            a == abs(x as int),
            0 <= a <= 0x8000_0000_0000_0000,
    ;
    assert(b * b <= 0x8000_0000_0000_0000 * 0x8000_0000_0000_0000 && b * b == y * y && (b * b == 0
        <==> y == 0)) by (nonlinear_arith)
        requires
            b == abs(y as int),
            0 <= b <= 0x8000_0000_0000_0000,
    ;
    a * a + b * b
}

/// One coordinate of a vector of length `m` (rounded up) brought to the
/// length `len`.
pub fn rescale(x: i64, len: u128, m: u128) -> (q: i128)
    requires
        0 < m <= i128::MAX,
        abs(x as int) <= m,
        abs(x as int) * len <= i128::MAX,
    ensures
        q == trunc_div(x * len, m as int),
        abs(q as int) <= len,
{
    if x == 0 {
        assert(x * len == 0) by (nonlinear_arith)
            requires
                x == 0,
        ;
        return 0;
    }
    assert(len <= i128::MAX) by (nonlinear_arith)
        requires
            abs(x as int) * len <= i128::MAX,
            abs(x as int) >= 1,
            len >= 0,
    ;
    let wide: i128 = x as i128;
    let factor: i128 = len as i128;
    assert(-i128::MAX <= wide * factor <= i128::MAX) by (nonlinear_arith)
        requires
            abs(wide as int) * factor <= i128::MAX,
            factor >= 0,
    ;
    proof {
        lemma_rescaled_coordinate(x as int, len as int, m as int);
    }
    div_toward_zero(wide * factor, m)
}

impl Point2 {
    pub fn new(x: i32, y: i32) -> (p: Point2)
        ensures
            p.x == x,
            p.y == y,
    {
        Point2 { x, y }
    }

    /// The displacement that leads from `self` to `target`.
    pub fn toward(self, target: Point2) -> (v: Vector2)
        ensures
            v@ == target@.minus(self@),
    {
        Vector2 { x: target.x as i64 - self.x as i64, y: target.y as i64 - self.y as i64 }
    }

    /// The square of the distance to `other`.
    pub fn distance2(self, other: Point2) -> (n: u128)
        ensures
            n == other@.minus(self@).magnitude2(),
    {
        self.toward(other).magnitude2()
    }

    /// The point reached from `self` by the displacement `v`.
    pub fn displaced(self, v: Vector2) -> (p: Point2)
        requires
            self@.plus(v@).fits_point(),
        ensures
            p@ == self@.plus(v@),
    {
        Point2 { x: (self.x as i64 + v.x) as i32, y: (self.y as i64 + v.y) as i32 }
    }
}

impl Vector2 {
    pub fn new(x: i64, y: i64) -> (v: Vector2)
        ensures
            v.x == x,
            v.y == y,
    {
        Vector2 { x, y }
    }

    pub fn zero() -> (v: Vector2)
        ensures
            v@ == Vec2::zero(),
    {
        Vector2 { x: 0, y: 0 }
    }

    pub fn is_zero(self) -> (b: bool)
        ensures
            b == self@.is_zero(),
    {
        self.x == 0 && self.y == 0
    }

    /// The square of the Euclidean length.
    pub fn magnitude2(self) -> (n: u128)
        ensures
            n == self@.magnitude2(),
    {
        sum_of_squares(self.x, self.y)
    }

    pub fn plus(self, other: Vector2) -> (v: Vector2)
        requires
            self@.plus(other@).fits_vector(),
        ensures
            v@ == self@.plus(other@),
    {
        Vector2 { x: self.x + other.x, y: self.y + other.y }
    }

    pub fn minus(self, other: Vector2) -> (v: Vector2)
        requires
            self@.minus(other@).fits_vector(),
        ensures
            v@ == self@.minus(other@),
    {
        Vector2 { x: self.x - other.x, y: self.y - other.y }
    }

    /// The vector of the same direction and of length `len`; the zero
    /// vector stays zero.
    pub fn with_length(self, len: u32) -> (v: Vector2)
        ensures
            v@ == self@.with_length(len as int),
            v@.magnitude2() <= len * len,
            abs(v.x as int) <= len,
            abs(v.y as int) <= len,
    {
        proof {
            lemma_with_length_bound(self@, len as int);
        }
        if self.is_zero() {
            return Vector2::zero();
        }
        let n = self.magnitude2();
        let m = ceil_sqrt_of(n);
        proof {
            lemma_coordinates_below_root(self@);
            lemma_product_fits(self.x, len);
            lemma_product_fits(self.y, len);
        }
        let x = rescale(self.x, len as u128, m);
        let y = rescale(self.y, len as u128, m);
        Vector2 { x: x as i64, y: y as i64 }
    }

    /// The product with the fixed-point scalar `factor`.
    pub fn scaled(self, factor: u32) -> (v: Vector2)
        requires
            self@.scaled(factor as int).fits_vector(),
        ensures
            v@ == self@.scaled(factor as int),
    {
        let x: i128 = scale_coordinate(self.x, factor);
        let y: i128 = scale_coordinate(self.y, factor);
        Vector2 { x: x as i64, y: y as i64 }
    }
}

/// The product of a coordinate of a `Vector2` and a `u32` fits an `i128`.
pub proof fn lemma_product_fits(x: i64, len: u32)
    ensures
        abs(x as int) * len <= i128::MAX,
{
    assert(abs(x as int) * len <= 0x8000_0000_0000_0000 * 0xffff_ffff) by (nonlinear_arith)
        requires
            0 <= abs(x as int) <= 0x8000_0000_0000_0000,
            0 <= len <= 0xffff_ffff,
    ;
}

/// The product of a coordinate with the fixed-point scalar `factor`.
pub fn scale_coordinate(x: i64, factor: u32) -> (q: i128)
    ensures
        q == trunc_div(x * factor, ONE as int),
{
    let wide: i128 = x as i128;
    let f: i128 = factor as i128;
    assert(-0x7fff_ffff_ffff_ffff_ffff_ffff_ffff_ffff <= wide * f
        <= 0x7fff_ffff_ffff_ffff_ffff_ffff_ffff_ffff) by (nonlinear_arith)
        requires
            -0x8000_0000_0000_0000 <= wide <= 0x7fff_ffff_ffff_ffff,
            0 <= f <= 0xffff_ffff,
    ;
    div_toward_zero(wide * f, 65536)
}

/// No coordinate of a vector exceeds its length, rounded up.
pub proof fn lemma_coordinates_below_root(v: Vec2)
    ensures
        0 <= v.magnitude2() <= ceil_sqrt(v.magnitude2()) * ceil_sqrt(v.magnitude2()),
        abs(v.x) <= ceil_sqrt(v.magnitude2()),
        abs(v.y) <= ceil_sqrt(v.magnitude2()),
        !v.is_zero() ==> ceil_sqrt(v.magnitude2()) > 0,
{
    let n = v.magnitude2();
    assert(n >= 0 && abs(v.x) * abs(v.x) <= n && abs(v.y) * abs(v.y) <= n && (n == 0 ==> v.x == 0
        && v.y == 0)) by (nonlinear_arith)
        requires
            n == v.x * v.x + v.y * v.y,
    ;
    lemma_ceil_sqrt(n);
    let m = ceil_sqrt(n);
    assert(abs(v.x) <= m && abs(v.y) <= m) by (nonlinear_arith)
        requires
            abs(v.x) * abs(v.x) <= n,
            abs(v.y) * abs(v.y) <= n,
            n <= m * m,
            m >= 0,
            abs(v.x) >= 0,
            abs(v.y) >= 0,
    ;
}

/// Bounds the length of `vector` by `limit`: a vector that is longer keeps
/// its direction and gets the length `limit`.
pub fn limit_vector2(limit: u32, vector: Vector2) -> (v: Vector2)
    ensures
        v@ == vector@.limited(limit as int),
        v@.magnitude2() <= limit * limit,
        abs(v.x as int) <= limit,
        abs(v.y as int) <= limit,
{
    proof {
        lemma_limited_bound(vector@, limit as int);
    }
    let bound: u128 = limit as u128;
    assert(bound * bound <= 0xffff_ffff * 0xffff_ffff) by (nonlinear_arith)
        requires
            0 <= bound <= 0xffff_ffff,
    ;
    if vector.magnitude2() <= bound * bound {
        vector
    } else {
        vector.with_length(limit)
    }
}

} // verus!
