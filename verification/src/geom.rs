//! Three-component vectors over fixed-point scalars.
use vstd::prelude::*;
use crate::fixed::{
    is_sqrt_floor, isqrt, lemma_div_lower, lemma_mul_bound, lemma_sqrt_floor_exists,
    lemma_trunc_div_bound, magnitude, spec_fx_mul, sqrt_floor, trunc_div, wide_mul, ONE,
};

verus! {

/// The largest magnitude of a component for which a dot product is formed
/// without overflow.
pub const DOT_MAX: i64 = 0x4000_0000_0000_0000;

/// The mathematical model of a vector: three unbounded integers, each a
/// fixed-point number.
pub struct Vector {
    pub x: int,
    pub y: int,
    pub z: int,
}

impl Vector {
    /// The vector whose components are all zero.
    pub open spec fn zero() -> Vector {
        Vector { x: 0, y: 0, z: 0 }
    }

    /// The componentwise sum.
    pub open spec fn plus(self, o: Vector) -> Vector {
        Vector { x: self.x + o.x, y: self.y + o.y, z: self.z + o.z }
    }

    /// The componentwise difference.
    pub open spec fn minus(self, o: Vector) -> Vector {
        Vector { x: self.x - o.x, y: self.y - o.y, z: self.z - o.z }
    }

    /// The opposite vector.
    pub open spec fn negated(self) -> Vector {
        Vector { x: -self.x, y: -self.y, z: -self.z }
    }

    /// The vector multiplied by the fixed-point scalar `k`.
    pub open spec fn scaled(self, k: int) -> Vector {
        Vector { x: spec_fx_mul(self.x, k), y: spec_fx_mul(self.y, k), z: spec_fx_mul(self.z, k) }
    }

    /// The exact dot product of the stored integers. Its scale is the square
    /// of the scale of the components.
    pub open spec fn dot(self, o: Vector) -> int {
        self.x * o.x + self.y * o.y + self.z * o.z
    }

    /// The Euclidean length, rounded down to the scale of the components.
    pub open spec fn norm(self) -> int {
        sqrt_floor(self.dot(self))
    }

    /// The vector divided by its length; the zero vector is left as it is.
    pub open spec fn normalized(self) -> Vector {
        if self.norm() == 0 {
            self
        } else {
            Vector {
                x: trunc_div(self.x * ONE, self.norm()),
                y: trunc_div(self.y * ONE, self.norm()),
                z: trunc_div(self.z * ONE, self.norm()),
            }
        }
    }

    /// Whether every component has magnitude at most `m`.
    pub open spec fn within(self, m: int) -> bool {
        &&& -m <= self.x <= m
        &&& -m <= self.y <= m
        &&& -m <= self.z <= m
    }

    /// Whether the vector can serve as the direction of a ray: no component
    /// exceeds one, and the length is at least one half.
    pub open spec fn is_direction(self) -> bool {
        &&& self.within(ONE as int)
        &&& 4 * self.dot(self) >= ONE * ONE
    }
}

/// A vector of three fixed-point components.
#[derive(Clone, Copy, Debug, PartialEq, Eq, Structural)]
pub struct Vec3 {
    pub x: i64,
    pub y: i64,
    pub z: i64,
}

impl View for Vec3 {
    type V = Vector;

    open spec fn view(&self) -> Vector {
        Vector { x: self.x as int, y: self.y as int, z: self.z as int }
    }
}

/// The square of a number is at least the square of a smaller magnitude.
proof fn lemma_square_monotone(a: int, b: int)
    by (nonlinear_arith)
    requires
        0 <= a <= b,
    ensures
        a * a <= b * b,
{
}

/// Squares are not negative, and a square is the square of the magnitude.
proof fn lemma_square_magnitude(a: int)
    by (nonlinear_arith)
    ensures
        a * a >= 0,
        a * a == magnitude(a) * magnitude(a),
{
}

/// No component of a vector is longer than the vector, and one component is
/// at least half as long.
pub proof fn lemma_norm_components(v: Vector, n: int)
    requires
        is_sqrt_floor(v.dot(v), n),
    ensures
        v.within(n),
        n > 0 ==> 2 * magnitude(v.x) >= n || 2 * magnitude(v.y) >= n || 2 * magnitude(v.z) >= n,
        n == 0 ==> v == Vector::zero(),
{
    let ax = magnitude(v.x);
    let ay = magnitude(v.y);
    let az = magnitude(v.z);
    lemma_square_magnitude(v.x);
    lemma_square_magnitude(v.y);
    lemma_square_magnitude(v.z);
    let d = v.dot(v);
    assert(d == ax * ax + ay * ay + az * az);
    if ax > n {
        lemma_square_monotone(n + 1, ax);
    }
    if ay > n {
        lemma_square_monotone(n + 1, ay);
    }
    if az > n {
        lemma_square_monotone(n + 1, az);
    }
    if n > 0 && 2 * ax < n && 2 * ay < n && 2 * az < n {
        lemma_square_monotone(2 * ax, n - 1);
        lemma_square_monotone(2 * ay, n - 1);
        lemma_square_monotone(2 * az, n - 1);
        assert((2 * ax) * (2 * ax) == 4 * (ax * ax)) by (nonlinear_arith);
        assert((2 * ay) * (2 * ay) == 4 * (ay * ay)) by (nonlinear_arith);
        assert((2 * az) * (2 * az) == 4 * (az * az)) by (nonlinear_arith);
        assert((n - 1) * (n - 1) < n * n) by (nonlinear_arith)
            requires
                n > 0,
        ;
        assert(4 * d <= 3 * ((n - 1) * (n - 1)));
    }
    if n == 0 {
        assert((n + 1) * (n + 1) == 1) by (nonlinear_arith)
            requires
                n == 0,
        ;
        if ax > 0 {
            lemma_square_monotone(1, ax);
        }
        if ay > 0 {
            lemma_square_monotone(1, ay);
        }
        if az > 0 {
            lemma_square_monotone(1, az);
        }
    }
}

/// A vector is at most twice as long as its longest component.
pub proof fn lemma_norm_within(v: Vector, n: int, m: int)
    requires
        is_sqrt_floor(v.dot(v), n),
        v.within(m),
    ensures
        0 <= n <= 2 * m,
{
    let ax = magnitude(v.x);
    let ay = magnitude(v.y);
    let az = magnitude(v.z);
    lemma_square_magnitude(v.x);
    lemma_square_magnitude(v.y);
    lemma_square_magnitude(v.z);
    lemma_square_monotone(ax, m);
    lemma_square_monotone(ay, m);
    lemma_square_monotone(az, m);
    if n > 2 * m {
        lemma_square_monotone(2 * m + 1, n);
        assert((2 * m + 1) * (2 * m + 1) > 3 * (m * m)) by (nonlinear_arith)
            requires
                m >= 0,
        ;
    }
}

/// One component of a normalised vector: it keeps the sign, has magnitude at
/// most one, and at least one half where the component is at least half the
/// length.
proof fn lemma_unit_component(c: int, n: int)
    requires
        n > 0,
        -n <= c <= n,
    ensures
        -(ONE as int) <= trunc_div(c * ONE, n) <= ONE as int,
        2 * magnitude(c) >= n ==> 2 * magnitude(trunc_div(c * ONE, n)) >= ONE,
{
    lemma_trunc_div_bound(c * ONE, n, ONE as int);
    if 2 * magnitude(c) >= n {
        lemma_div_lower(magnitude(c) * ONE, n, ONE as int / 2);
    }
}

/// A normalised vector is a direction, unless it is the zero vector.
pub proof fn lemma_normalized_is_direction(v: Vector)
    ensures
        v.normalized().within(ONE as int),
        v != Vector::zero() ==> v.normalized().is_direction(),
{
    let d = v.dot(v);
    lemma_square_magnitude(v.x);
    lemma_square_magnitude(v.y);
    lemma_square_magnitude(v.z);
    lemma_sqrt_floor_exists(d);
    let n = v.norm();
    lemma_norm_components(v, n);
    if n == 0 {
    } else {
        let u = v.normalized();
        lemma_unit_component(v.x, n);
        lemma_unit_component(v.y, n);
        lemma_unit_component(v.z, n);
        lemma_square_magnitude(u.x);
        lemma_square_magnitude(u.y);
        lemma_square_magnitude(u.z);
        let h = ONE as int / 2;
        if 2 * magnitude(v.x) >= n {
            lemma_square_monotone(h, magnitude(u.x));
        } else if 2 * magnitude(v.y) >= n {
            lemma_square_monotone(h, magnitude(u.y));
        } else {
            lemma_square_monotone(h, magnitude(u.z));
        }
    }
}

/// Builds a vector from its three components.
pub fn vec3(x: i64, y: i64, z: i64) -> (v: Vec3)
    ensures
        v@ == (Vector { x: x as int, y: y as int, z: z as int }),
        v.x == x,
        v.y == y,
        v.z == z,
{
    Vec3 { x, y, z }
}

impl Vec3 {
    /// The componentwise sum.
    pub fn plus(self, o: Vec3) -> (r: Vec3)
        requires
            self@.plus(o@).within(i64::MAX as int),
        ensures
            r@ == self@.plus(o@),
    {
        Vec3 { x: self.x + o.x, y: self.y + o.y, z: self.z + o.z }
    }

    /// The componentwise difference.
    pub fn minus(self, o: Vec3) -> (r: Vec3)
        requires
            self@.minus(o@).within(i64::MAX as int),
        ensures
            r@ == self@.minus(o@),
    {
        Vec3 { x: self.x - o.x, y: self.y - o.y, z: self.z - o.z }
    }

    /// The opposite vector.
    pub fn negated(self) -> (r: Vec3)
        requires
            self@.within(i64::MAX as int),
        ensures
            r@ == self@.negated(),
    {
        Vec3 { x: -self.x, y: -self.y, z: -self.z }
    }

    /// The vector multiplied by the fixed-point scalar `k`.
    pub fn scaled(self, k: i64) -> (r: Vec3)
        requires
            self@.scaled(k as int).within(i64::MAX as int),
        ensures
            r@ == self@.scaled(k as int),
    {
        let x: i128 = wide_mul(self.x, k) / 1_000_000;
        let y: i128 = wide_mul(self.y, k) / 1_000_000;
        let z: i128 = wide_mul(self.z, k) / 1_000_000;
        Vec3 { x: x as i64, y: y as i64, z: z as i64 }
    }

    /// The exact dot product of the stored integers.
    pub fn dot(self, o: Vec3) -> (r: i128)
        requires
            self@.within(DOT_MAX as int),
            o@.within(DOT_MAX as int),
        ensures
            r == self@.dot(o@),
    {
        proof {
            lemma_mul_bound(self.x as int, o.x as int, DOT_MAX as int, DOT_MAX as int);
            lemma_mul_bound(self.y as int, o.y as int, DOT_MAX as int, DOT_MAX as int);
            lemma_mul_bound(self.z as int, o.z as int, DOT_MAX as int, DOT_MAX as int);
        }
        wide_mul(self.x, o.x) + wide_mul(self.y, o.y) + wide_mul(self.z, o.z)
    }

    /// The Euclidean length, rounded down.
    pub fn norm(self) -> (r: u64)
        ensures
            r == self@.norm(),
            is_sqrt_floor(self@.dot(self@), r as int),
    {
        proof {
            lemma_square_magnitude(self.x as int);
            lemma_square_magnitude(self.y as int);
            lemma_square_magnitude(self.z as int);
        }
        let sx: u128 = wide_mul(self.x, self.x) as u128;
        let sy: u128 = wide_mul(self.y, self.y) as u128;
        let sz: u128 = wide_mul(self.z, self.z) as u128;
        isqrt(sx + sy + sz)
    }

    /// The vector divided by its length. The zero vector has no direction and
    /// is returned as it is.
    pub fn normalize(self) -> (r: Vec3)
        ensures
            r@ == self@.normalized(),
            r@.within(ONE as int),
            self@ != Vector::zero() ==> r@.is_direction(),
    {
        let n: u64 = self.norm();
        proof {
            lemma_normalized_is_direction(self@);
            lemma_norm_components(self@, n as int);
        }
        if n == 0 {
            return self;
        }
        let d: i128 = n as i128;
        let x: i128 = (self.x as i128 * 1_000_000) / d;
        let y: i128 = (self.y as i128 * 1_000_000) / d;
        let z: i128 = (self.z as i128 * 1_000_000) / d;
        Vec3 { x: x as i64, y: y as i64, z: z as i64 }
    }
}

} // verus!
