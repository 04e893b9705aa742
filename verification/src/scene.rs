//! The scene: a central body, the bodies that circle it, and the rings that
//! follow their bodies.
use vstd::prelude::*;
use crate::body::{BodyShader, CelestialBody};
use crate::fixed::{
    fx_mul, lemma_fx_mul_unit, lemma_mul_bound, lemma_sqrt_floor_is, lemma_trunc_div_bound,
    lemma_trunc_div_exact, magnitude, spec_fx_mul, ONE,
};
use crate::geom::{lemma_norm_within, vec3, Vec3, Vector};
use crate::intersect::COORD_MAX;
use crate::ring::Ring;
use crate::shaders::TIME_MAX;
use crate::tables::Tables;

verus! {

/// The largest magnitude of a coordinate of a configured position: a
/// thousand units.
pub const POSITION_MAX: i64 = 1_000_000_000;

/// The largest magnitude of an angular speed, in radians per second.
pub const SPEED_MAX: i64 = 1_000_000_000;

/// The largest radius of a ring, as a multiple of the radius of its body.
pub const SCALE_MAX: i64 = 1_000_000_000;

/// A circular orbit around the central body, in a plane of constant height.
#[derive(Clone, Copy, Debug, PartialEq, Eq, Structural)]
pub struct Orbit {
    /// The distance from the central body.
    pub radius: i64,
    /// The height of the orbit's plane.
    pub base_height: i64,
    /// The angle covered per second, in radians.
    pub angular_speed: i64,
}

/// A body that circles the central body: where it starts, and how fast it
/// goes round.
#[derive(Clone, Copy, Debug, PartialEq, Eq, Structural)]
pub struct Planet {
    pub body: CelestialBody,
    pub angular_speed: i64,
}

/// A ring to attach to a body. The body is named by its place in the scene:
/// zero is the central body, one the first planet. The two radii are
/// multiples of the radius of the body.
#[derive(Clone, Copy, Debug, PartialEq, Eq, Structural)]
pub struct RingConfig {
    pub owner: usize,
    pub normal: Vec3,
    pub inner_scale: i64,
    pub outer_scale: i64,
}

/// Where a body on an orbit is at a time: on a circle around the central
/// body's `x` and `z`, at the orbit's height, at the angle that the time and
/// the angular speed give.
pub open spec fn spec_orbit_position(
    t: Tables,
    sun: Vector,
    radius: int,
    base_height: int,
    angular_speed: int,
    time: int,
) -> Vector {
    let angle = spec_fx_mul(time, angular_speed);
    Vector {
        x: sun.x + spec_fx_mul(radius, t.spec_cos(angle)),
        y: base_height,
        z: sun.z + spec_fx_mul(radius, t.spec_sin(angle)),
    }
}

/// Whether a body can be configured: a position within the limit, and a
/// positive radius.
pub open spec fn valid_body(b: CelestialBody) -> bool {
    &&& b.center@.within(POSITION_MAX as int)
    &&& 0 < b.radius <= COORD_MAX
}

/// Whether a planet can be configured.
pub open spec fn valid_planet(p: Planet) -> bool {
    &&& valid_body(p.body)
    &&& -SPEED_MAX <= p.angular_speed <= SPEED_MAX
}

/// The body at the place `k` of a configuration.
pub open spec fn config_body(sun: CelestialBody, planets: Seq<Planet>, k: int) -> CelestialBody {
    if k == 0 {
        sun
    } else {
        planets[k - 1].body
    }
}

/// Whether a ring can be attached: its body exists, and its inner radius is
/// smaller than its outer radius.
pub open spec fn valid_ring(sun: CelestialBody, planets: Seq<Planet>, r: RingConfig) -> bool {
    &&& r.owner <= planets.len()
    &&& 0 <= r.inner_scale <= SCALE_MAX
    &&& 0 <= r.outer_scale <= SCALE_MAX
    &&& spec_fx_mul(config_body(sun, planets, r.owner as int).radius as int, r.inner_scale as int)
        < spec_fx_mul(
        config_body(sun, planets, r.owner as int).radius as int,
        r.outer_scale as int,
    )
}

/// Whether a scene can be made of these parts.
pub open spec fn valid_config(sun: CelestialBody, planets: Seq<Planet>, rings: Seq<RingConfig>) -> bool {
    &&& valid_body(sun)
    &&& forall|i: int| 0 <= i < planets.len() ==> valid_planet(#[trigger] planets[i])
    &&& forall|j: int| 0 <= j < rings.len() ==> valid_ring(sun, planets, #[trigger] rings[j])
}

/// The orbit of a body that starts at `initial`: as far from the central
/// body as the start is, at the height of the start.
pub open spec fn is_orbit_from(o: Orbit, sun: Vector, initial: Vector, angular_speed: int) -> bool {
    &&& o.radius == initial.minus(sun).norm()
    &&& o.base_height == initial.y
    &&& o.angular_speed == angular_speed
}

/// The ring that a configuration asks for, around a body.
pub open spec fn is_ring_from(ring: Ring, body: CelestialBody, r: RingConfig) -> bool {
    &&& ring.center == body.center
    &&& ring.normal == r.normal
    &&& ring.inner_radius == spec_fx_mul(body.radius as int, r.inner_scale as int)
    &&& ring.outer_radius == spec_fx_mul(body.radius as int, r.outer_scale as int)
}

/// Whether a body is where a ray can be tested against it.
pub open spec fn placed_body(b: CelestialBody) -> bool {
    &&& b.center@.within(COORD_MAX as int)
    &&& 0 < b.radius <= COORD_MAX
}

/// Whether an orbit keeps its body where a ray can be tested against it.
pub open spec fn valid_orbit(o: Orbit) -> bool {
    &&& 0 <= o.radius <= 4 * POSITION_MAX
    &&& -POSITION_MAX <= o.base_height <= POSITION_MAX
    &&& -SPEED_MAX <= o.angular_speed <= SPEED_MAX
}

/// The invariant of a scene, over its parts: there is a central body, well
/// within the limits; every other body has an orbit; every ring has a body,
/// is centred on it, and has an inner radius smaller than its outer radius.
pub open spec fn scene_wf(
    bodies: Seq<CelestialBody>,
    orbits: Seq<Orbit>,
    rings: Seq<Ring>,
    owners: Seq<usize>,
) -> bool {
    &&& bodies.len() == orbits.len() + 1
    &&& rings.len() == owners.len()
    &&& bodies[0].center@.within(POSITION_MAX as int)
    &&& forall|i: int| 0 <= i < bodies.len() ==> placed_body(#[trigger] bodies[i])
    &&& forall|i: int| 0 <= i < orbits.len() ==> valid_orbit(#[trigger] orbits[i])
    &&& forall|j: int|
        0 <= j < rings.len() ==> {
            &&& (#[trigger] owners[j]) < bodies.len()
            &&& rings[j].center == bodies[owners[j] as int].center
            &&& rings[j].inner_radius < rings[j].outer_radius
        }
}

/// A body whose start lies level with the central body, straight along the
/// positive `x` axis from it, is at its start at the time zero.
pub proof fn lemma_orbit_starts_at_initial_position(
    t: Tables,
    sun: Vector,
    initial: Vector,
    angular_speed: int,
)
    requires
        t.wf(),
        initial.x >= sun.x,
        initial.y == sun.y,
        initial.z == sun.z,
    ensures
        spec_orbit_position(
            t,
            sun,
            initial.minus(sun).norm(),
            initial.y,
            angular_speed,
            0,
        ) == initial,
{
    let dx = initial.x - sun.x;
    let v = initial.minus(sun);
    assert(v.dot(v) == dx * dx) by (nonlinear_arith)
        requires
            v.x == dx,
            v.y == 0,
            v.z == 0,
    ;
    assert(dx * dx < (dx + 1) * (dx + 1)) by (nonlinear_arith)
        requires
            dx >= 0,
    ;
    lemma_sqrt_floor_is(dx * dx, dx);
    assert(0 * angular_speed == 0) by (nonlinear_arith);
    t.lemma_angle_zero();
    lemma_trunc_div_exact(dx, ONE as int);
    assert(dx * 0 == 0) by (nonlinear_arith);
}

/// A scene that has just been made, brought to the time zero, has every
/// planet at its start whose start lies level with the central body,
/// straight along the positive `x` axis from it.
pub proof fn lemma_update_at_zero_keeps_the_start(
    after: Scene,
    before: Scene,
    sun: CelestialBody,
    planets: Seq<Planet>,
    rings: Seq<RingConfig>,
    t: Tables,
    i: int,
)
    requires
        t.wf(),
        before.is_made_of(sun, planets, rings),
        after.is_update_of(before, t, 0),
        0 <= i < planets.len(),
        planets[i].body.center.x >= sun.center.x,
        planets[i].body.center.y == sun.center.y,
        planets[i].body.center.z == sun.center.z,
    ensures
        after.body_seq()[i + 1] == planets[i].body,
{
    let start = planets[i].body;
    let o = before.orbit_seq()[i];
    assert(before.body_seq()[0] == config_body(sun, planets, 0));
    assert(before.body_seq()[i + 1] == config_body(sun, planets, i + 1));
    assert(is_orbit_from(o, sun.center@, start.center@, planets[i].angular_speed as int));
    lemma_orbit_starts_at_initial_position(
        t,
        sun.center@,
        start.center@,
        planets[i].angular_speed as int,
    );
    let moved = after.body_seq()[i + 1];
    assert(moved.center@ == start.center@);
    assert(moved.center == start.center);
}

/// The orbit of a body that starts at `initial` around a central body at
/// `sun`.
pub fn orbit_from(sun: Vec3, initial: Vec3, angular_speed: i64) -> (o: Orbit)
    requires
        sun@.within(POSITION_MAX as int),
        initial@.within(POSITION_MAX as int),
    ensures
        is_orbit_from(o, sun@, initial@, angular_speed as int),
        0 <= o.radius <= 4 * POSITION_MAX,
{
    let d: Vec3 = initial.minus(sun);
    let r: u64 = d.norm();
    proof {
        lemma_norm_within(d@, r as int, 2 * POSITION_MAX);
    }
    Orbit { radius: r as i64, base_height: initial.y, angular_speed }
}

/// Where a body on the orbit `o` around a central body at `sun` is at a time.
pub fn orbit_position(tables: &Tables, sun: Vec3, o: Orbit, time: i64) -> (p: Vec3)
    requires
        sun@.within(POSITION_MAX as int),
        valid_orbit(o),
        0 <= time <= TIME_MAX,
    ensures
        p@ == spec_orbit_position(
            *tables,
            sun@,
            o.radius as int,
            o.base_height as int,
            o.angular_speed as int,
            time as int,
        ),
        p@.within(5 * POSITION_MAX),
{
    proof {
        lemma_mul_bound(time as int, o.angular_speed as int, TIME_MAX as int, SPEED_MAX as int);
        assert(TIME_MAX * SPEED_MAX == 1_000_000_000_000_000_000 * ONE) by (nonlinear_arith);
        lemma_trunc_div_bound(time * o.angular_speed, ONE as int, 1_000_000_000_000_000_000);
    }
    let angle: i64 = fx_mul(time, o.angular_speed);
    let c: i64 = tables.cos(angle);
    let s: i64 = tables.sin(angle);
    proof {
        lemma_fx_mul_unit(o.radius as int, c as int, 4 * POSITION_MAX);
        lemma_fx_mul_unit(o.radius as int, s as int, 4 * POSITION_MAX);
    }
    Vec3 { x: sun.x + fx_mul(o.radius, c), y: o.base_height, z: sun.z + fx_mul(o.radius, s) }
}

/// A scene.
pub struct Scene {
    bodies: Vec<CelestialBody>,
    orbits: Vec<Orbit>,
    rings: Vec<Ring>,
    owners: Vec<usize>,
}

impl Scene {
    /// The bodies in the order in which rays are tested against them. The
    /// first is the central body, which lights the others and does not move.
    pub closed spec fn body_seq(&self) -> Seq<CelestialBody> {
        self.bodies@
    }

    /// The orbits: the first belongs to the second body.
    pub closed spec fn orbit_seq(&self) -> Seq<Orbit> {
        self.orbits@
    }

    /// The rings in the order in which rays are tested against them.
    pub closed spec fn ring_seq(&self) -> Seq<Ring> {
        self.rings@
    }

    /// For each ring, the place of its body among the bodies.
    pub closed spec fn owner_seq(&self) -> Seq<usize> {
        self.owners@
    }

    /// The invariant of the scene.
    pub open spec fn wf(&self) -> bool {
        scene_wf(self.body_seq(), self.orbit_seq(), self.ring_seq(), self.owner_seq())
    }

    /// Whether `self` is the scene that `before` becomes at a time: the
    /// central body has not moved, every other body is where its orbit puts
    /// it, every ring is centred on its body, and nothing else has changed.
    pub open spec fn is_update_of(&self, before: Scene, t: Tables, time: int) -> bool {
        &&& self.orbit_seq() == before.orbit_seq()
        &&& self.owner_seq() == before.owner_seq()
        &&& self.body_seq().len() == before.body_seq().len()
        &&& self.ring_seq().len() == before.ring_seq().len()
        &&& self.body_seq()[0] == before.body_seq()[0]
        &&& forall|i: int|
            1 <= i < self.body_seq().len() ==> {
                &&& (#[trigger] self.body_seq()[i]).radius == before.body_seq()[i].radius
                &&& self.body_seq()[i].shader == before.body_seq()[i].shader
                &&& self.body_seq()[i].center@ == spec_orbit_position(
                    t,
                    before.body_seq()[0].center@,
                    before.orbit_seq()[i - 1].radius as int,
                    before.orbit_seq()[i - 1].base_height as int,
                    before.orbit_seq()[i - 1].angular_speed as int,
                    time,
                )
            }
        &&& forall|j: int|
            0 <= j < self.ring_seq().len() ==> {
                &&& (#[trigger] self.ring_seq()[j]).center
                    == self.body_seq()[before.owner_seq()[j] as int].center
                &&& self.ring_seq()[j].normal == before.ring_seq()[j].normal
                &&& self.ring_seq()[j].inner_radius == before.ring_seq()[j].inner_radius
                &&& self.ring_seq()[j].outer_radius == before.ring_seq()[j].outer_radius
            }
    }

    /// Whether the scene is the one that a configuration asks for: the
    /// central body first, then the planets at their starts, each on the
    /// orbit that passes through its start, and each ring around its body.
    pub open spec fn is_made_of(
        &self,
        sun: CelestialBody,
        planets: Seq<Planet>,
        rings: Seq<RingConfig>,
    ) -> bool {
        &&& self.body_seq().len() == planets.len() + 1
        &&& self.ring_seq().len() == rings.len()
        &&& forall|k: int|
            0 <= k <= planets.len() ==> #[trigger] self.body_seq()[k] == config_body(
                sun,
                planets,
                k,
            )
        &&& forall|i: int|
            0 <= i < planets.len() ==> is_orbit_from(
                #[trigger] self.orbit_seq()[i],
                sun.center@,
                planets[i].body.center@,
                planets[i].angular_speed as int,
            )
        &&& forall|j: int|
            0 <= j < rings.len() ==> {
                &&& (#[trigger] self.owner_seq()[j]) == rings[j].owner
                &&& is_ring_from(
                    self.ring_seq()[j],
                    config_body(sun, planets, rings[j].owner as int),
                    rings[j],
                )
            }
    }

    /// Makes a scene of a central body, the planets at their starts and the
    /// rings, if the parts are valid. Each planet gets the orbit that passes
    /// through its start.
    pub fn new(sun: CelestialBody, planets: Vec<Planet>, rings: Vec<RingConfig>) -> (r: Option<
        Scene,
    >)
        ensures
            r is Some <==> valid_config(sun, planets@, rings@),
            r matches Some(s) ==> s.wf() && s.is_made_of(sun, planets@, rings@),
    {
        if !is_valid_body(&sun) {
            return None;
        }
        let mut bodies: Vec<CelestialBody> = Vec::new();
        let mut orbits: Vec<Orbit> = Vec::new();
        bodies.push(sun);
        let mut i: usize = 0;
        while i < planets.len()
            invariant
                i <= planets.len(),
                valid_body(sun),
                bodies.len() == i + 1,
                orbits.len() == i,
                forall|k: int| 0 <= k < i ==> valid_planet(#[trigger] planets[k]),
                forall|k: int| 0 <= k <= i ==> #[trigger] bodies[k] == config_body(sun, planets@, k),
                forall|k: int| 0 <= k < i ==> valid_orbit(#[trigger] orbits[k]),
                forall|k: int|
                    0 <= k < i ==> is_orbit_from(
                        #[trigger] orbits[k],
                        sun.center@,
                        planets[k].body.center@,
                        planets[k].angular_speed as int,
                    ),
            decreases planets.len() - i,
        {
            let p: Planet = planets[i];
            if !is_valid_body(&p.body) || p.angular_speed < -SPEED_MAX || p.angular_speed
                > SPEED_MAX {
                return None;
            }
            bodies.push(p.body);
            orbits.push(orbit_from(sun.center, p.body.center, p.angular_speed));
            i = i + 1;
        }
        let mut placed: Vec<Ring> = Vec::new();
        let mut owners: Vec<usize> = Vec::new();
        let mut j: usize = 0;
        while j < rings.len()
            invariant
                j <= rings.len(),
                bodies.len() == planets.len() + 1,
                placed.len() == j,
                owners.len() == j,
                forall|k: int|
                    0 <= k <= planets.len() ==> #[trigger] bodies[k] == config_body(
                        sun,
                        planets@,
                        k,
                    ),
                forall|k: int| 0 <= k < bodies.len() ==> 0 < (#[trigger] bodies[k]).radius <= COORD_MAX,
                forall|k: int| 0 <= k < j ==> valid_ring(sun, planets@, #[trigger] rings[k]),
                forall|k: int|
                    0 <= k < j ==> {
                        &&& (#[trigger] owners@[k]) == rings@[k].owner
                        &&& is_ring_from(
                            placed@[k],
                            config_body(sun, planets@, rings@[k].owner as int),
                            rings@[k],
                        )
                        &&& placed@[k].inner_radius < placed@[k].outer_radius
                    },
            decreases rings.len() - j,
        {
            let r: RingConfig = rings[j];
            if r.owner >= bodies.len() || r.inner_scale < 0 || r.inner_scale > SCALE_MAX
                || r.outer_scale < 0 || r.outer_scale > SCALE_MAX {
                return None;
            }
            let body: CelestialBody = bodies[r.owner];
            proof {
                lemma_mul_bound(
                    body.radius as int,
                    r.inner_scale as int,
                    COORD_MAX as int,
                    SCALE_MAX as int,
                );
                lemma_mul_bound(
                    body.radius as int,
                    r.outer_scale as int,
                    COORD_MAX as int,
                    SCALE_MAX as int,
                );
                assert(COORD_MAX * SCALE_MAX == 10_000_000_000_000 * ONE) by (nonlinear_arith);
                lemma_trunc_div_bound(
                    body.radius * r.inner_scale,
                    ONE as int,
                    10_000_000_000_000,
                );
                lemma_trunc_div_bound(
                    body.radius * r.outer_scale,
                    ONE as int,
                    10_000_000_000_000,
                );
            }
            let inner_radius: i64 = fx_mul(body.radius, r.inner_scale);
            let outer_radius: i64 = fx_mul(body.radius, r.outer_scale);
            if inner_radius >= outer_radius {
                return None;
            }
            assert(body == config_body(sun, planets@, r.owner as int));
            let ghost placed_before = placed@;
            let ghost owners_before = owners@;
            placed.push(Ring { center: body.center, normal: r.normal, inner_radius, outer_radius });
            owners.push(r.owner);
            assert forall|k: int| 0 <= k <= j implies {
                &&& (#[trigger] owners@[k]) == rings@[k].owner
                &&& is_ring_from(
                    placed@[k],
                    config_body(sun, planets@, rings@[k].owner as int),
                    rings@[k],
                )
                &&& placed@[k].inner_radius < placed@[k].outer_radius
            } by {
                if k < j {
                    assert(owners@[k] == owners_before[k]);
                    assert(placed@[k] == placed_before[k]);
                }
            }
            j = j + 1;
        }
        let scene = Scene { bodies, orbits, rings: placed, owners };
        assert(scene.wf());
        assert(scene.is_made_of(sun, planets@, rings@));
        Some(scene)
    }

    /// The number of bodies, the central body included.
    pub fn body_count(&self) -> (n: usize)
        ensures
            n == self.body_seq().len(),
    {
        self.bodies.len()
    }

    /// The body at the place `k`.
    pub fn body(&self, k: usize) -> (b: CelestialBody)
        requires
            k < self.body_seq().len(),
        ensures
            b == self.body_seq()[k as int],
    {
        self.bodies[k]
    }

    /// The number of rings.
    pub fn ring_count(&self) -> (n: usize)
        ensures
            n == self.ring_seq().len(),
    {
        self.rings.len()
    }

    /// The ring at the place `j`.
    pub fn ring(&self, j: usize) -> (r: Ring)
        requires
            j < self.ring_seq().len(),
        ensures
            r == self.ring_seq()[j as int],
    {
        self.rings[j]
    }

    /// The orbit of the body at the place `k`, which is not the central body.
    pub fn orbit(&self, k: usize) -> (o: Orbit)
        requires
            1 <= k <= self.orbit_seq().len(),
        ensures
            o == self.orbit_seq()[k - 1],
    {
        self.orbits[k - 1]
    }

    /// Moves every body but the central one to where its orbit puts it at
    /// the time, and then centres every ring on its body.
    pub fn update(&mut self, tables: &Tables, time: i64)
        requires
            old(self).wf(),
            0 <= time <= TIME_MAX,
        ensures
            final(self).wf(),
            final(self).is_update_of(*old(self), *tables, time as int),
    {
        let sun: Vec3 = self.bodies[0].center;
        let mut i: usize = 1;
        while i < self.bodies.len()
            invariant
                1 <= i <= self.bodies.len(),
                old(self).wf(),
                0 <= time <= TIME_MAX,
                sun == old(self).bodies@[0].center,
                self.orbits@ == old(self).orbits@,
                self.owners@ == old(self).owners@,
                self.rings@ == old(self).rings@,
                self.bodies@.len() == old(self).bodies@.len(),
                self.bodies@[0] == old(self).bodies@[0],
                forall|k: int| i <= k < self.bodies@.len() ==> self.bodies@[k] == old(self).bodies@[k],
                forall|k: int|
                    1 <= k < i ==> {
                        &&& (#[trigger] self.bodies@[k]).radius == old(self).bodies@[k].radius
                        &&& self.bodies@[k].shader == old(self).bodies@[k].shader
                        &&& self.bodies@[k].center@.within(5 * POSITION_MAX)
                        &&& self.bodies@[k].center@ == spec_orbit_position(
                            *tables,
                            sun@,
                            self.orbits@[k - 1].radius as int,
                            self.orbits@[k - 1].base_height as int,
                            self.orbits@[k - 1].angular_speed as int,
                            time as int,
                        )
                    },
            decreases self.bodies.len() - i,
        {
            let o: Orbit = self.orbits[i - 1];
            let b: CelestialBody = self.bodies[i];
            assert(valid_orbit(old(self).orbits@[i - 1]));
            let center: Vec3 = orbit_position(tables, sun, o, time);
            self.bodies.set(i, CelestialBody { center, radius: b.radius, shader: b.shader });
            i = i + 1;
        }
        let ghost moved = self.bodies@;
        let mut j: usize = 0;
        while j < self.rings.len()
            invariant
                j <= self.rings.len(),
                old(self).wf(),
                self.orbits@ == old(self).orbits@,
                self.owners@ == old(self).owners@,
                self.rings@.len() == old(self).rings@.len(),
                self.bodies@ == moved,
                moved.len() == old(self).bodies@.len(),
                forall|k: int| j <= k < self.rings@.len() ==> self.rings@[k] == old(self).rings@[k],
                forall|k: int|
                    0 <= k < j ==> {
                        &&& (#[trigger] self.rings@[k]).center
                            == self.bodies@[self.owners@[k] as int].center
                        &&& self.rings@[k].normal == old(self).rings@[k].normal
                        &&& self.rings@[k].inner_radius == old(self).rings@[k].inner_radius
                        &&& self.rings@[k].outer_radius == old(self).rings@[k].outer_radius
                    },
            decreases self.rings.len() - j,
        {
            let ring: Ring = self.rings[j];
            assert(old(self).owners@[j as int] < old(self).bodies@.len());
            let owner: usize = self.owners[j];
            let center: Vec3 = self.bodies[owner].center;
            self.rings.set(
                j,
                Ring {
                    center,
                    normal: ring.normal,
                    inner_radius: ring.inner_radius,
                    outer_radius: ring.outer_radius,
                },
            );
            j = j + 1;
        }
        proof {
            assert forall|k: int| 0 <= k < self.bodies@.len() implies placed_body(
                #[trigger] self.bodies@[k],
            ) by {
                assert(placed_body(old(self).bodies@[k]));
            }
            assert forall|k: int| 0 <= k < self.rings@.len() implies {
                &&& (#[trigger] self.owners@[k]) < self.bodies@.len()
                &&& self.rings@[k].center == self.bodies@[self.owners@[k] as int].center
                &&& self.rings@[k].inner_radius < self.rings@[k].outer_radius
            } by {
                assert(old(self).owners@[k] < old(self).bodies@.len());
            }
        }
    }
}

/// The central body of the reference scene.
pub open spec fn reference_sun() -> CelestialBody {
    CelestialBody {
        center: Vec3 { x: 0, y: 0, z: 6_000_000 },
        radius: 1_610_000,
        shader: BodyShader::Sun,
    }
}

/// The planets of the reference scene: on a line from the central body, the
/// farther the slower.
pub open spec fn reference_planets() -> Seq<Planet> {
    seq![
        Planet {
            body: CelestialBody {
                center: Vec3 { x: 2_200_000, y: 0, z: 6_000_000 },
                radius: 400_000,
                shader: BodyShader::Mercury,
            },
            angular_speed: 900_000,
        },
        Planet {
            body: CelestialBody {
                center: Vec3 { x: 3_200_000, y: 0, z: 6_000_000 },
                radius: 700_000,
                shader: BodyShader::Earth,
            },
            angular_speed: 400_000,
        },
        Planet {
            body: CelestialBody {
                center: Vec3 { x: 4_400_000, y: 0, z: 6_000_000 },
                radius: 500_000,
                shader: BodyShader::Mars,
            },
            angular_speed: 250_000,
        },
        Planet {
            body: CelestialBody {
                center: Vec3 { x: 6_000_000, y: 0, z: 6_000_000 },
                radius: 900_000,
                shader: BodyShader::Saturn,
            },
            angular_speed: 180_000,
        },
    ]
}

/// The one ring of the reference scene, around the last planet, tilted.
pub open spec fn reference_rings() -> Seq<RingConfig> {
    seq![
        RingConfig {
            owner: 4,
            normal: Vec3 { x: 0, y: 1_000_000, z: 300_000 },
            inner_scale: 1_800_000,
            outer_scale: 3_000_000,
        },
    ]
}

/// The reference scene: a sun, four planets and a ring around the last.
pub fn reference_scene() -> (s: Scene)
    ensures
        s.wf(),
        s.is_made_of(reference_sun(), reference_planets(), reference_rings()),
{
    let z: i64 = 6_000_000;
    let sun = CelestialBody::new(vec3(0, 0, z), 1_610_000, BodyShader::Sun);
    let mut planets: Vec<Planet> = Vec::new();
    planets.push(
        Planet {
            body: CelestialBody::new(vec3(2_200_000, 0, z), 400_000, BodyShader::Mercury),
            angular_speed: 900_000,
        },
    );
    planets.push(
        Planet {
            body: CelestialBody::new(vec3(3_200_000, 0, z), 700_000, BodyShader::Earth),
            angular_speed: 400_000,
        },
    );
    planets.push(
        Planet {
            body: CelestialBody::new(vec3(4_400_000, 0, z), 500_000, BodyShader::Mars),
            angular_speed: 250_000,
        },
    );
    planets.push(
        Planet {
            body: CelestialBody::new(vec3(6_000_000, 0, z), 900_000, BodyShader::Saturn),
            angular_speed: 180_000,
        },
    );
    let mut rings: Vec<RingConfig> = Vec::new();
    rings.push(
        RingConfig {
            owner: 4,
            normal: vec3(0, 1_000_000, 300_000),
            inner_scale: 1_800_000,
            outer_scale: 3_000_000,
        },
    );
    proof {
        assert(sun == reference_sun());
        assert(planets@ =~= reference_planets());
        assert(rings@ =~= reference_rings());
        assert(900_000int * 1_800_000 == 1_620_000 * ONE) by (nonlinear_arith);
        assert(900_000int * 3_000_000 == 2_700_000 * ONE) by (nonlinear_arith);
        assert(valid_ring(reference_sun(), reference_planets(), reference_rings()[0]));
    }
    Scene::new(sun, planets, rings).unwrap()
}

/// Whether a body can be configured.
fn is_valid_body(b: &CelestialBody) -> (ok: bool)
    ensures
        ok == valid_body(*b),
{
    let c: Vec3 = b.center;
    -POSITION_MAX <= c.x && c.x <= POSITION_MAX && -POSITION_MAX <= c.y && c.y <= POSITION_MAX
        && -POSITION_MAX <= c.z && c.z <= POSITION_MAX && 0 < b.radius && b.radius <= COORD_MAX
}

} // verus!
