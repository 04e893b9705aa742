//! The bodies of the scene.
use vstd::prelude::*;
use crate::geom::Vec3;

verus! {

/// The surface appearance of a body.
#[derive(Clone, Copy, Debug, PartialEq, Eq, Structural)]
pub enum BodyShader {
    Sun,
    Earth,
    Mars,
    Mercury,
    Saturn,
}

/// A spherical body: where its centre is, how large it is, and how its
/// surface looks.
#[derive(Clone, Copy, Debug, PartialEq, Eq, Structural)]
pub struct CelestialBody {
    pub center: Vec3,
    pub radius: i64,
    pub shader: BodyShader,
}

impl CelestialBody {
    /// A body from its centre, its radius and its surface appearance.
    pub fn new(center: Vec3, radius: i64, shader: BodyShader) -> (body: CelestialBody)
        ensures
            body == (CelestialBody { center, radius, shader }),
    {
        CelestialBody { center, radius, shader }
    }
}

} // verus!
