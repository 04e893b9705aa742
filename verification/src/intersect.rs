//! Where a ray meets a sphere, and where it meets a ring.
use vstd::prelude::*;
use crate::fixed::{
    isqrt, lemma_fx_mul_unit, lemma_mul_bound, lemma_sqrt_floor_exists, lemma_trunc_div_bound,
    lemma_trunc_div_monotone, magnitude, sqrt_floor, trunc_div, ONE,
};
use crate::geom::{Vec3, Vector};
use crate::ring::{radial_distance, spec_radial_distance, Ring};

verus! {

/// The largest magnitude of a coordinate of a ray's origin or of a centre.
pub const COORD_MAX: i64 = 10_000_000_000;

/// The largest distance along a ray at which a hit is reported.
pub const DISTANCE_MAX: i64 = 1_000_000_000_000_000;

/// A ray counts as parallel to a plane where the dot product of the plane's
/// unit normal and the ray's direction has a magnitude below this: one ten
/// thousandth, on the scale of a product.
pub const PARALLEL: i64 = 100_000_000;

/// The point at the distance `t` along the ray.
pub open spec fn spec_point_at(origin: Vector, dir: Vector, t: int) -> Vector {
    origin.plus(dir.scaled(t))
}

/// The vector `v` divided by the positive fixed-point number `r`.
pub open spec fn spec_over(v: Vector, r: int) -> Vector {
    Vector { x: trunc_div(v.x * ONE, r), y: trunc_div(v.y * ONE, r), z: trunc_div(v.z * ONE, r) }
}

/// The outward normal of a sphere at the point at the distance `t` along the
/// ray: the vector from the centre to the point, over the radius.
pub open spec fn spec_sphere_normal(
    origin: Vector,
    dir: Vector,
    center: Vector,
    radius: int,
    t: int,
) -> Vector {
    spec_over(spec_point_at(origin, dir, t).minus(center), radius)
}

/// The discriminant of the quadratic `a t^2 + b t + c = 0` whose roots are
/// the distances at which the ray meets the sphere.
pub open spec fn spec_discriminant(origin: Vector, dir: Vector, center: Vector, radius: int) -> int {
    let oc = origin.minus(center);
    let a = dir.dot(dir);
    let b = 2 * oc.dot(dir);
    let c = oc.dot(oc) - radius * radius;
    b * b - 4 * a * c
}

/// The nearer of the two distances at which the ray meets the sphere.
pub open spec fn spec_near_root(origin: Vector, dir: Vector, center: Vector, radius: int) -> int {
    let b = 2 * origin.minus(center).dot(dir);
    let s = sqrt_floor(spec_discriminant(origin, dir, center, radius));
    trunc_div((-b - s) * ONE, 2 * dir.dot(dir))
}

/// The farther of the two distances at which the ray meets the sphere.
pub open spec fn spec_far_root(origin: Vector, dir: Vector, center: Vector, radius: int) -> int {
    let b = 2 * origin.minus(center).dot(dir);
    let s = sqrt_floor(spec_discriminant(origin, dir, center, radius));
    trunc_div((-b + s) * ONE, 2 * dir.dot(dir))
}

/// Where the ray meets the sphere: the smallest positive distance and the
/// outward normal there. A ray that starts inside the sphere meets it where
/// it leaves; a sphere behind the ray is not met.
pub open spec fn spec_sphere_hit(origin: Vector, dir: Vector, center: Vector, radius: int) -> Option<
    (int, Vector),
> {
    if spec_discriminant(origin, dir, center, radius) < 0 {
        None
    } else {
        let t1 = spec_near_root(origin, dir, center, radius);
        let t2 = spec_far_root(origin, dir, center, radius);
        if t1 > 0 {
            Some((t1, spec_sphere_normal(origin, dir, center, radius, t1)))
        } else if t2 > 0 {
            Some((t2, spec_sphere_normal(origin, dir, center, radius, t2)))
        } else {
            None
        }
    }
}

/// The distance along the ray at which it meets the plane through `center`
/// with the unit normal `n`, for a ray that is not parallel to the plane.
pub open spec fn spec_plane_distance(origin: Vector, dir: Vector, center: Vector, n: Vector) -> int {
    let denom = n.dot(dir);
    let num = n.dot(center.minus(origin));
    if denom > 0 {
        trunc_div(num * ONE, denom)
    } else {
        trunc_div(-num * ONE, -denom)
    }
}

/// Where the ray meets the ring: the distance, and the unit normal of the
/// ring's plane on the side that the ray comes from. The ray misses if it is
/// parallel to the plane, if the plane is behind it, or if it meets the plane
/// nearer to the axis than the inner radius or farther than the outer one.
pub open spec fn spec_ring_hit(
    origin: Vector,
    dir: Vector,
    center: Vector,
    normal: Vector,
    inner_radius: int,
    outer_radius: int,
) -> Option<(int, Vector)> {
    let n = normal.normalized();
    let denom = n.dot(dir);
    if magnitude(denom) < PARALLEL {
        None
    } else {
        let t = spec_plane_distance(origin, dir, center, n);
        let r = spec_radial_distance(spec_point_at(origin, dir, t), normal, center);
        if t <= 0 || r < inner_radius || r > outer_radius {
            None
        } else if denom > 0 {
            Some((t, n.negated()))
        } else {
            Some((t, n))
        }
    }
}

/// The exec form of a hit.
pub open spec fn hit_view(hit: Option<(i64, Vec3)>) -> Option<(int, Vector)> {
    match hit {
        Some((t, n)) => Some((t as int, n@)),
        None => None,
    }
}

/// Of the two distances at which a ray meets a sphere, the nearer is not
/// larger than the farther, so that the first positive one is the smallest.
pub proof fn lemma_near_root_is_nearer(origin: Vector, dir: Vector, center: Vector, radius: int)
    requires
        dir.dot(dir) > 0,
        spec_discriminant(origin, dir, center, radius) >= 0,
    ensures
        spec_near_root(origin, dir, center, radius) <= spec_far_root(origin, dir, center, radius),
{
    let b = 2 * origin.minus(center).dot(dir);
    let disc = spec_discriminant(origin, dir, center, radius);
    lemma_sqrt_floor_exists(disc);
    let s = sqrt_floor(disc);
    lemma_trunc_div_monotone((-b - s) * ONE, (-b + s) * ONE, 2 * dir.dot(dir));
}

/// A number whose square is at most the square of `m` is at most `m`.
proof fn lemma_root_bound(s: int, d: int, m: int)
    by (nonlinear_arith)
    requires
        0 <= s,
        0 <= m,
        s * s <= d,
        d <= m * m,
    ensures
        s <= m,
{
    if s > m {
        assert(s * s >= (m + 1) * (m + 1));
    }
}

/// A quotient by a divisor of at least `dmin` is bounded by `m` where the
/// dividend is bounded by `m * dmin`.
proof fn lemma_quotient_bound(n: int, d: int, dmin: int, m: int)
    requires
        0 < dmin <= d,
        0 <= m,
        -(m * dmin) <= n <= m * dmin,
    ensures
        -m <= trunc_div(n, d) <= m,
        n > 0 ==> trunc_div(n, d) >= 0,
        n <= 0 ==> trunc_div(n, d) <= 0,
{
    assert(m * dmin <= m * d) by (nonlinear_arith)
        requires
            0 <= m,
            dmin <= d,
    ;
    lemma_trunc_div_bound(n, d, m);
}

/// The point at the distance `t` along a ray.
pub fn point_at(origin: Vec3, dir: Vec3, t: i64) -> (p: Vec3)
    requires
        origin@.within(COORD_MAX as int),
        dir@.within(ONE as int),
        -DISTANCE_MAX <= t <= DISTANCE_MAX,
    ensures
        p@ == spec_point_at(origin@, dir@, t as int),
        p@.within(COORD_MAX + magnitude(t as int)),
{
    proof {
        lemma_fx_mul_unit(t as int, dir.x as int, magnitude(t as int));
        lemma_fx_mul_unit(t as int, dir.y as int, magnitude(t as int));
        lemma_fx_mul_unit(t as int, dir.z as int, magnitude(t as int));
        assert(dir.x * t == t * dir.x) by (nonlinear_arith);
        assert(dir.y * t == t * dir.y) by (nonlinear_arith);
        assert(dir.z * t == t * dir.z) by (nonlinear_arith);
    }
    origin.plus(dir.scaled(t))
}

/// The vector `v` divided by the positive fixed-point number `r`.
fn over(v: Vec3, r: i64) -> (n: Vec3)
    requires
        v@.within(4_000_000_000_000 as int),
        r > 0,
    ensures
        n@ == spec_over(v@, r as int),
{
    proof {
        lemma_trunc_div_bound(v.x * ONE, r as int, 4_000_000_000_000_000_000);
        lemma_trunc_div_bound(v.y * ONE, r as int, 4_000_000_000_000_000_000);
        lemma_trunc_div_bound(v.z * ONE, r as int, 4_000_000_000_000_000_000);
        assert(4_000_000_000_000_000_000 * r >= 4_000_000_000_000_000_000) by (nonlinear_arith)
            requires
                r >= 1,
        ;
    }
    let d: i128 = r as i128;
    let x: i128 = (v.x as i128 * 1_000_000) / d;
    let y: i128 = (v.y as i128 * 1_000_000) / d;
    let z: i128 = (v.z as i128 * 1_000_000) / d;
    Vec3 { x: x as i64, y: y as i64, z: z as i64 }
}

/// Where a ray meets a sphere: the smallest positive distance along the ray
/// and the outward normal there, or nothing if the ray misses the sphere or
/// the sphere lies behind it.
pub fn intersect_sphere(ray_origin: Vec3, ray_dir: Vec3, center: Vec3, radius: i64) -> (hit: Option<
    (i64, Vec3),
>)
    requires
        ray_origin@.within(COORD_MAX as int),
        center@.within(COORD_MAX as int),
        ray_dir@.is_direction(),
        0 < radius <= COORD_MAX,
    ensures
        hit_view(hit) == spec_sphere_hit(ray_origin@, ray_dir@, center@, radius as int),
        hit matches Some((t, _)) ==> 0 < t <= 1_000_000_000_000,
{
    let oc: Vec3 = ray_origin.minus(center);
    let a: i128 = ray_dir.dot(ray_dir);
    let half_b: i128 = oc.dot(ray_dir);
    let oc2: i128 = oc.dot(oc);
    proof {
        lemma_mul_bound(ray_dir.x as int, ray_dir.x as int, ONE as int, ONE as int);
        lemma_mul_bound(ray_dir.y as int, ray_dir.y as int, ONE as int, ONE as int);
        lemma_mul_bound(ray_dir.z as int, ray_dir.z as int, ONE as int, ONE as int);
        lemma_mul_bound(oc.x as int, ray_dir.x as int, 2 * COORD_MAX, ONE as int);
        lemma_mul_bound(oc.y as int, ray_dir.y as int, 2 * COORD_MAX, ONE as int);
        lemma_mul_bound(oc.z as int, ray_dir.z as int, 2 * COORD_MAX, ONE as int);
        lemma_mul_bound(oc.x as int, oc.x as int, 2 * COORD_MAX, 2 * COORD_MAX);
        lemma_mul_bound(oc.y as int, oc.y as int, 2 * COORD_MAX, 2 * COORD_MAX);
        lemma_mul_bound(oc.z as int, oc.z as int, 2 * COORD_MAX, 2 * COORD_MAX);
        lemma_mul_bound(radius as int, radius as int, COORD_MAX as int, COORD_MAX as int);
        assert(ONE * ONE == 1_000_000_000_000) by (nonlinear_arith);
        assert((2 * COORD_MAX) * ONE == 20_000_000_000_000_000) by (nonlinear_arith);
        assert((2 * COORD_MAX) * (2 * COORD_MAX) == 400_000_000_000_000_000_000)
            by (nonlinear_arith);
        assert(COORD_MAX * COORD_MAX == 100_000_000_000_000_000_000) by (nonlinear_arith);
    }
    let b: i128 = 2 * half_b;
    let c: i128 = oc2 - (radius as i128) * (radius as i128);
    assert(250_000_000_000 <= a <= 3_000_000_000_000);
    assert(-120_000_000_000_000_000 <= b <= 120_000_000_000_000_000);
    assert(-1_300_000_000_000_000_000_000 <= c <= 1_300_000_000_000_000_000_000);
    proof {
        lemma_mul_bound(b as int, b as int, 120_000_000_000_000_000, 120_000_000_000_000_000);
        lemma_mul_bound(a as int, c as int, 3_000_000_000_000, 1_300_000_000_000_000_000_000);
        assert(b * b >= 0) by (nonlinear_arith);
        assert(4 * a * c == 4 * (a * c)) by (nonlinear_arith);
    }
    let disc: i128 = b * b - 4 * (a * c);
    if disc < 0 {
        return None;
    }
    let s: i128 = isqrt(disc as u128) as i128;
    proof {
        lemma_root_bound(s as int, disc as int, 200_000_000_000_000_000);
        lemma_quotient_bound((-b - s) * ONE, 2 * a, 500_000_000_000, 1_000_000_000_000);
        lemma_quotient_bound((-b + s) * ONE, 2 * a, 500_000_000_000, 1_000_000_000_000);
    }
    let t1: i128 = (-b - s) * 1_000_000 / (2 * a);
    let t2: i128 = (-b + s) * 1_000_000 / (2 * a);
    let t: i64 = if t1 > 0 {
        t1 as i64
    } else if t2 > 0 {
        t2 as i64
    } else {
        return None;
    };
    let p: Vec3 = point_at(ray_origin, ray_dir, t);
    let normal: Vec3 = over(p.minus(center), radius);
    Some((t, normal))
}

/// Where a ray meets a ring: the distance along the ray and the unit normal
/// of the ring's plane on the side that the ray comes from, or nothing if the
/// ray misses the ring.
pub fn intersect_ring(ray_origin: Vec3, ray_dir: Vec3, ring: &Ring) -> (hit: Option<(i64, Vec3)>)
    requires
        ray_origin@.within(COORD_MAX as int),
        ring.center@.within(COORD_MAX as int),
        ray_dir@.is_direction(),
    ensures
        hit_view(hit) == spec_ring_hit(
            ray_origin@,
            ray_dir@,
            ring.center@,
            ring.normal@,
            ring.inner_radius as int,
            ring.outer_radius as int,
        ),
        hit matches Some((t, n)) ==> 0 < t <= DISTANCE_MAX && n@.within(ONE as int),
{
    let n: Vec3 = ring.normal.normalize();
    let denom: i128 = n.dot(ray_dir);
    let to_center: Vec3 = ring.center.minus(ray_origin);
    let num: i128 = n.dot(to_center);
    proof {
        lemma_mul_bound(n.x as int, ray_dir.x as int, ONE as int, ONE as int);
        lemma_mul_bound(n.y as int, ray_dir.y as int, ONE as int, ONE as int);
        lemma_mul_bound(n.z as int, ray_dir.z as int, ONE as int, ONE as int);
        assert(ONE * ONE == 1_000_000_000_000) by (nonlinear_arith);
        lemma_mul_bound(n.x as int, to_center.x as int, ONE as int, 2 * COORD_MAX);
        lemma_mul_bound(n.y as int, to_center.y as int, ONE as int, 2 * COORD_MAX);
        lemma_mul_bound(n.z as int, to_center.z as int, ONE as int, 2 * COORD_MAX);
        assert(ONE * (2 * COORD_MAX) == 20_000_000_000_000_000) by (nonlinear_arith);
    }
    assert(-60_000_000_000_000_000 <= num <= 60_000_000_000_000_000);
    if denom > -100_000_000 && denom < 100_000_000 {
        return None;
    }
    let wide: i128 = if denom > 0 {
        proof {
            lemma_quotient_bound(num * ONE, denom as int, PARALLEL as int, DISTANCE_MAX as int);
        }
        num * 1_000_000 / denom
    } else {
        proof {
            lemma_quotient_bound(-num * ONE, -denom as int, PARALLEL as int, DISTANCE_MAX as int);
        }
        (-num) * 1_000_000 / (-denom)
    };
    if wide <= 0 {
        return None;
    }
    let t: i64 = wide as i64;
    let p: Vec3 = point_at(ray_origin, ray_dir, t);
    let r: i64 = radial_distance(p, ring.normal, ring.center);
    if r < ring.inner_radius || r > ring.outer_radius {
        return None;
    }
    if denom > 0 {
        Some((t, n.negated()))
    } else {
        Some((t, n))
    }
}

} // verus!
