//! A flat ring: the region of a plane between two circles around one centre.
use vstd::prelude::*;
use crate::fixed::{
    lemma_fx_mul_unit, lemma_mul_bound, lemma_trunc_div_bound, trunc_div, ONE,
};
use crate::geom::{lemma_norm_within, Vec3, Vector};

verus! {

/// The largest magnitude of a coordinate of a point on a ray that hits
/// something.
pub const REACH: i64 = 2_000_000_000_000_000;

/// A ring. The normal of its plane need not have unit length.
#[derive(Clone, Copy, Debug, PartialEq, Eq, Structural)]
pub struct Ring {
    pub center: Vec3,
    pub normal: Vec3,
    pub inner_radius: i64,
    pub outer_radius: i64,
}

/// The distance of the point `pos` from the axis through `center` along
/// `normal`: the length of what is left of `pos - center` when its part
/// along the unit normal is taken away.
pub open spec fn spec_radial_distance(pos: Vector, normal: Vector, center: Vector) -> int {
    let n = normal.normalized();
    let v = pos.minus(center);
    let along = trunc_div(v.dot(n), ONE as int);
    v.minus(n.scaled(along)).norm()
}

/// The distance of the point `pos` from the axis through `center` along
/// `normal`.
pub fn radial_distance(pos: Vec3, normal: Vec3, center: Vec3) -> (r: i64)
    requires
        pos@.within(REACH as int),
        center@.within(REACH as int),
    ensures
        r == spec_radial_distance(pos@, normal@, center@),
        0 <= r <= 16 * REACH,
{
    let n: Vec3 = normal.normalize();
    let v: Vec3 = pos.minus(center);
    proof {
        lemma_mul_bound(v.x as int, n.x as int, 2 * REACH, ONE as int);
        lemma_mul_bound(v.y as int, n.y as int, 2 * REACH, ONE as int);
        lemma_mul_bound(v.z as int, n.z as int, 2 * REACH, ONE as int);
        lemma_trunc_div_bound(v@.dot(n@), ONE as int, 6 * REACH);
    }
    let along: i64 = (v.dot(n) / 1_000_000) as i64;
    proof {
        lemma_fx_mul_unit(along as int, n.x as int, 6 * REACH);
        lemma_fx_mul_unit(along as int, n.y as int, 6 * REACH);
        lemma_fx_mul_unit(along as int, n.z as int, 6 * REACH);
        assert(n.x * along == along * n.x) by (nonlinear_arith);
        assert(n.y * along == along * n.y) by (nonlinear_arith);
        assert(n.z * along == along * n.z) by (nonlinear_arith);
    }
    let flat: Vec3 = v.minus(n.scaled(along));
    let r: u64 = flat.norm();
    proof {
        lemma_norm_within(flat@, r as int, 8 * REACH);
    }
    r as i64
}

} // verus!
