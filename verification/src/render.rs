//! The frame: one ray per pixel from a camera at the origin, tested against
//! every body and every ring, coloured by the nearest thing it hits.
use vstd::prelude::*;
use crate::body::{BodyShader, CelestialBody};
use crate::color::{rgb, Color, Rgb};
use crate::fixed::{fx_mul, lemma_fx_mul_unit, lemma_trunc_div_bound, spec_fx_mul, trunc_div, ONE};
use crate::geom::{vec3, Vec3, Vector};
use crate::intersect::{
    hit_view, intersect_ring, intersect_sphere, point_at, spec_point_at, spec_ring_hit,
    spec_sphere_hit, DISTANCE_MAX,
};
use crate::ring::Ring;
use crate::scene::{placed_body, Scene};
use crate::shaders::{
    shade_body, shade_saturn_rings, spec_shade_body, spec_shade_rings, TIME_MAX,
};
use crate::tables::Tables;

verus! {

/// One of the things a ray can hit: a body or a ring, by its place in the
/// scene.
#[derive(Clone, Copy, Debug, PartialEq, Eq, Structural)]
pub enum Primitive {
    Body(usize),
    Ring(usize),
}

/// The nearest thing on a ray: what it is, how far along the ray, and the
/// normal of the surface there.
#[derive(Clone, Copy, Debug, PartialEq, Eq, Structural)]
pub struct Hit {
    pub primitive: Primitive,
    pub distance: i64,
    pub normal: Vec3,
}

/// Whether a primitive names a body or a ring that a scene of so many
/// bodies and rings has.
pub open spec fn primitive_in(p: Primitive, bodies: int, rings: int) -> bool {
    match p {
        Primitive::Body(i) => i < bodies,
        Primitive::Ring(j) => j < rings,
    }
}

/// The place of a primitive in the order in which rays are tested: the
/// bodies first, then the rings.
pub open spec fn primitive_index(p: Primitive, bodies: int) -> int {
    match p {
        Primitive::Body(i) => i as int,
        Primitive::Ring(j) => bodies + j,
    }
}

/// The number of primitives of a scene.
pub open spec fn primitive_count(bodies: Seq<CelestialBody>, rings: Seq<Ring>) -> int {
    (bodies.len() + rings.len()) as int
}

/// The direction of the ray through the pixel in the column `x` and the row
/// `y` of a frame: both are mapped to the interval from minus one to one,
/// with the first row at the top, the column is widened by the aspect, and
/// the focal length is one and a half.
pub open spec fn spec_primary_ray(x: int, y: int, width: int, height: int) -> Vector {
    let nx = 2 * trunc_div(x * ONE, width) - ONE;
    let ny = ONE - 2 * trunc_div(y * ONE, height);
    (Vector { x: spec_fx_mul(nx, 1_200_000), y: ny, z: 1_500_000 }).normalized()
}

/// Where the ray from the origin in the direction `dir` meets the primitive
/// at the place `k`.
pub open spec fn spec_primitive_hit(
    bodies: Seq<CelestialBody>,
    rings: Seq<Ring>,
    dir: Vector,
    k: int,
) -> Option<(int, Vector)> {
    if k < bodies.len() {
        spec_sphere_hit(Vector::zero(), dir, bodies[k].center@, bodies[k].radius as int)
    } else {
        let r = rings[k - bodies.len()];
        spec_ring_hit(
            Vector::zero(),
            dir,
            r.center@,
            r.normal@,
            r.inner_radius as int,
            r.outer_radius as int,
        )
    }
}

/// The distance of a hit, or zero where there is none.
pub open spec fn hit_distance(h: Option<(int, Vector)>) -> int {
    match h {
        Some(hit) => hit.0,
        None => 0,
    }
}

/// Whether the hit `h` of the primitive at the place `j` leaves a hit at the
/// distance `t` of the primitive at the place `k` in front: it is no nearer,
/// and farther if `j` comes before `k`.
pub open spec fn yields_to(h: Option<(int, Vector)>, j: int, t: int, k: int) -> bool {
    h matches Some(hit) ==> t <= hit.0 && (j < k ==> t < hit.0)
}

/// Whether the primitive at the place `k` is the nearest that the ray hits
/// among the first `n`: the ray hits it, nothing is hit at a smaller
/// distance, and nothing before it is hit at the same distance.
pub open spec fn is_nearest_of_first(
    bodies: Seq<CelestialBody>,
    rings: Seq<Ring>,
    dir: Vector,
    n: int,
    k: int,
) -> bool {
    &&& 0 <= k < n
    &&& spec_primitive_hit(bodies, rings, dir, k) is Some
    &&& forall|j: int|
        0 <= j < n ==> yields_to(
            #[trigger] spec_primitive_hit(bodies, rings, dir, j),
            j,
            hit_distance(spec_primitive_hit(bodies, rings, dir, k)),
            k,
        )
}

/// Whether the ray hits none of the first `n` primitives.
pub open spec fn none_of_first(
    bodies: Seq<CelestialBody>,
    rings: Seq<Ring>,
    dir: Vector,
    n: int,
) -> bool {
    forall|j: int| 0 <= j < n ==> (#[trigger] spec_primitive_hit(bodies, rings, dir, j)) is None
}

/// Whether the primitive at the place `k` is the nearest that the ray hits.
pub open spec fn is_nearest(
    bodies: Seq<CelestialBody>,
    rings: Seq<Ring>,
    dir: Vector,
    k: int,
) -> bool {
    is_nearest_of_first(bodies, rings, dir, primitive_count(bodies, rings), k)
}

/// The place of the nearest primitive that the ray hits, if it hits any.
pub open spec fn spec_nearest(bodies: Seq<CelestialBody>, rings: Seq<Ring>, dir: Vector) -> Option<
    int,
> {
    if exists|k: int| is_nearest(bodies, rings, dir, k) {
        Some(choose|k: int| is_nearest(bodies, rings, dir, k))
    } else {
        None
    }
}

/// The direction of the light at the point `p`: toward the central body, or,
/// on the central body itself, away from its centre.
pub open spec fn spec_light_direction(kind: BodyShader, sun: Vector, p: Vector) -> Vector {
    if kind is Sun {
        p.minus(sun).normalized()
    } else {
        sun.minus(p).normalized()
    }
}

/// The colour of the point where the ray meets the primitive at the place
/// `k`, which it hits.
pub open spec fn spec_primitive_color(
    t: Tables,
    bodies: Seq<CelestialBody>,
    rings: Seq<Ring>,
    dir: Vector,
    k: int,
    time: int,
) -> Rgb {
    let hit = spec_primitive_hit(bodies, rings, dir, k)->0;
    let p = spec_point_at(Vector::zero(), dir, hit.0);
    let sun = bodies[0].center@;
    if k < bodies.len() {
        spec_shade_body(
            t,
            bodies[k].shader,
            hit.1,
            spec_light_direction(bodies[k].shader, sun, p),
            time,
        )
    } else {
        let r = rings[k - bodies.len()];
        spec_shade_rings(
            t,
            p,
            hit.1,
            sun.minus(p).normalized(),
            r.center@,
            r.inner_radius as int,
            r.outer_radius as int,
        )
    }
}

/// The colour that a ray brings back: that of the nearest thing it hits, or
/// black if it hits nothing.
pub open spec fn spec_ray_color(
    t: Tables,
    bodies: Seq<CelestialBody>,
    rings: Seq<Ring>,
    dir: Vector,
    time: int,
) -> Rgb {
    match spec_nearest(bodies, rings, dir) {
        Some(k) => spec_primitive_color(t, bodies, rings, dir, k, time),
        None => Rgb { r: 0, g: 0, b: 0 },
    }
}

/// Whether `pixels` is the frame of the given width and height: row after
/// row from the top, each pixel opaque and of the colour that its ray brings
/// back.
pub open spec fn is_frame(
    pixels: Seq<Color>,
    t: Tables,
    bodies: Seq<CelestialBody>,
    rings: Seq<Ring>,
    time: int,
    width: int,
    height: int,
) -> bool {
    &&& pixels.len() == width * height
    &&& forall|i: int|
        0 <= i < pixels.len() ==> {
            &&& (#[trigger] pixels[i])@ == spec_ray_color(
                t,
                bodies,
                rings,
                spec_primary_ray(i % width, i / width, width, height),
                time,
            )
            &&& pixels[i].a == 255
        }
}

/// At most one primitive is the nearest that a ray hits.
pub proof fn lemma_nearest_unique(
    bodies: Seq<CelestialBody>,
    rings: Seq<Ring>,
    dir: Vector,
    k1: int,
    k2: int,
)
    requires
        is_nearest(bodies, rings, dir, k1),
        is_nearest(bodies, rings, dir, k2),
    ensures
        k1 == k2,
{
    let h1 = spec_primitive_hit(bodies, rings, dir, k1);
    let h2 = spec_primitive_hit(bodies, rings, dir, k2);
    assert(yields_to(h1, k1, hit_distance(h2), k2));
    assert(yields_to(h2, k2, hit_distance(h1), k1));
}

/// A ray that hits two primitives brings back the colour of the one at the
/// smaller distance, and at equal distances that of the one that comes
/// first: the colour of a ray is the colour of the primitive that no other
/// hit is nearer than, and that no earlier hit is as near as.
pub proof fn lemma_nearest_hit_wins(
    t: Tables,
    bodies: Seq<CelestialBody>,
    rings: Seq<Ring>,
    dir: Vector,
    time: int,
    k: int,
)
    requires
        is_nearest(bodies, rings, dir, k),
    ensures
        spec_nearest(bodies, rings, dir) == Some(k),
        spec_ray_color(t, bodies, rings, dir, time) == spec_primitive_color(
            t,
            bodies,
            rings,
            dir,
            k,
            time,
        ),
{
    let c = choose|c: int| is_nearest(bodies, rings, dir, c);
    lemma_nearest_unique(bodies, rings, dir, k, c);
}

/// Among the first `n` primitives either none is hit or one is the nearest.
pub proof fn lemma_nearest_exists(
    bodies: Seq<CelestialBody>,
    rings: Seq<Ring>,
    dir: Vector,
    n: int,
)
    requires
        n >= 0,
    ensures
        none_of_first(bodies, rings, dir, n) || exists|k: int|
            is_nearest_of_first(bodies, rings, dir, n, k),
    decreases n,
{
    if n > 0 {
        let m = n - 1;
        lemma_nearest_exists(bodies, rings, dir, m);
        let last = spec_primitive_hit(bodies, rings, dir, m);
        if none_of_first(bodies, rings, dir, m) {
            if last is Some {
                assert(is_nearest_of_first(bodies, rings, dir, n, m));
            }
        } else {
            let k = choose|k: int| is_nearest_of_first(bodies, rings, dir, m, k);
            let best = hit_distance(spec_primitive_hit(bodies, rings, dir, k));
            if last is Some && hit_distance(last) < best {
                assert(is_nearest_of_first(bodies, rings, dir, n, m));
            } else {
                assert(is_nearest_of_first(bodies, rings, dir, n, k));
            }
        }
    }
}

/// Of two primitives that a ray hits, the one at the larger distance, or at
/// the same distance and later in the order, does not give the ray its
/// colour.
pub proof fn lemma_farther_hit_loses(
    bodies: Seq<CelestialBody>,
    rings: Seq<Ring>,
    dir: Vector,
    i: int,
    j: int,
)
    requires
        0 <= i < primitive_count(bodies, rings),
        0 <= j < primitive_count(bodies, rings),
        spec_primitive_hit(bodies, rings, dir, i) is Some,
        spec_primitive_hit(bodies, rings, dir, j) is Some,
        hit_distance(spec_primitive_hit(bodies, rings, dir, i)) < hit_distance(
            spec_primitive_hit(bodies, rings, dir, j),
        ) || (hit_distance(spec_primitive_hit(bodies, rings, dir, i)) == hit_distance(
            spec_primitive_hit(bodies, rings, dir, j),
        ) && i < j),
    ensures
        !is_nearest(bodies, rings, dir, j),
        spec_nearest(bodies, rings, dir) is Some,
        spec_nearest(bodies, rings, dir) != Some(j),
{
    if is_nearest(bodies, rings, dir, j) {
        assert(yields_to(
            spec_primitive_hit(bodies, rings, dir, i),
            i,
            hit_distance(spec_primitive_hit(bodies, rings, dir, j)),
            j,
        ));
    }
    let total = primitive_count(bodies, rings);
    lemma_nearest_exists(bodies, rings, dir, total);
    assert(!none_of_first(bodies, rings, dir, total));
    let k = choose|k: int| is_nearest_of_first(bodies, rings, dir, total, k);
    assert(is_nearest(bodies, rings, dir, k));
}

/// A ray that hits nothing brings back black.
pub proof fn lemma_nothing_hit_is_black(
    t: Tables,
    bodies: Seq<CelestialBody>,
    rings: Seq<Ring>,
    dir: Vector,
    time: int,
)
    requires
        none_of_first(bodies, rings, dir, primitive_count(bodies, rings)),
    ensures
        spec_nearest(bodies, rings, dir) is None,
        spec_ray_color(t, bodies, rings, dir, time) == (Rgb { r: 0, g: 0, b: 0 }),
{
    if exists|k: int| is_nearest(bodies, rings, dir, k) {
        let k = choose|k: int| is_nearest(bodies, rings, dir, k);
        assert(spec_primitive_hit(bodies, rings, dir, k) is None);
    }
}

/// Two frames of one scene at one time and of one size are equal, pixel for
/// pixel.
pub proof fn lemma_frame_unique(
    first: Seq<Color>,
    second: Seq<Color>,
    t: Tables,
    bodies: Seq<CelestialBody>,
    rings: Seq<Ring>,
    time: int,
    width: int,
    height: int,
)
    requires
        is_frame(first, t, bodies, rings, time, width, height),
        is_frame(second, t, bodies, rings, time, width, height),
    ensures
        first == second,
{
    assert forall|i: int| 0 <= i < first.len() implies first[i] == second[i] by {
        assert(first[i]@ == second[i]@);
        assert(first[i].a == second[i].a);
    }
    assert(first =~= second);
}

/// Two updates of one scene to one time place every body and every ring
/// alike, so that the frames of the two are equal.
pub proof fn lemma_update_unique(a: Scene, b: Scene, before: Scene, t: Tables, time: int)
    requires
        a.is_update_of(before, t, time),
        b.is_update_of(before, t, time),
    ensures
        a.body_seq() == b.body_seq(),
        a.ring_seq() == b.ring_seq(),
        a.orbit_seq() == b.orbit_seq(),
        a.owner_seq() == b.owner_seq(),
{
    assert forall|i: int| 0 <= i < a.body_seq().len() implies a.body_seq()[i] == b.body_seq()[i] by {
        if i >= 1 {
            assert(a.body_seq()[i].center@ == b.body_seq()[i].center@);
        }
    }
    assert(a.body_seq() =~= b.body_seq());
    assert forall|j: int| 0 <= j < a.ring_seq().len() implies a.ring_seq()[j] == b.ring_seq()[j] by {
        assert(a.ring_seq()[j].center == b.ring_seq()[j].center);
    }
    assert(a.ring_seq() =~= b.ring_seq());
}

/// Two frames of one size, rendered from one scene at one time, are equal,
/// pixel for pixel, whatever was rendered before.
pub proof fn lemma_render_frame_deterministic(
    before: Scene,
    after_first: Scene,
    after_second: Scene,
    first: Seq<Color>,
    second: Seq<Color>,
    t: Tables,
    time: int,
    width: int,
    height: int,
)
    requires
        after_first.is_update_of(before, t, time),
        after_second.is_update_of(before, t, time),
        is_frame(first, t, after_first.body_seq(), after_first.ring_seq(), time, width, height),
        is_frame(second, t, after_second.body_seq(), after_second.ring_seq(), time, width, height),
    ensures
        first == second,
{
    lemma_update_unique(after_first, after_second, before, t, time);
    lemma_frame_unique(
        first,
        second,
        t,
        after_first.body_seq(),
        after_first.ring_seq(),
        time,
        width,
        height,
    );
}

/// The direction of the ray through the pixel in the column `x` and the row
/// `y` of a frame of the given width and height.
pub fn primary_ray(x: u32, y: u32, width: u32, height: u32) -> (d: Vec3)
    requires
        x < width,
        y < height,
    ensures
        d@ == spec_primary_ray(x as int, y as int, width as int, height as int),
        d@.is_direction(),
{
    proof {
        lemma_trunc_div_bound(x * ONE, width as int, ONE as int);
        lemma_trunc_div_bound(y * ONE, height as int, ONE as int);
        assert(x * ONE <= ONE * width) by (nonlinear_arith)
            requires
                x < width,
        ;
        assert(y * ONE <= ONE * height) by (nonlinear_arith)
            requires
                y < height,
        ;
    }
    let nx: i64 = 2 * (x as i64 * 1_000_000 / width as i64) - ONE;
    let ny: i64 = ONE - 2 * (y as i64 * 1_000_000 / height as i64);
    proof {
        lemma_fx_mul_unit(1_200_000, nx as int, 1_200_000);
        assert(nx * 1_200_000 == 1_200_000 * nx) by (nonlinear_arith);
    }
    let v: Vec3 = Vec3 { x: fx_mul(nx, 1_200_000), y: ny, z: 1_500_000 };
    v.normalize()
}

/// The nearest thing that the ray from the origin in the direction `dir`
/// hits. Bodies are tested before rings, each kind in the order of the
/// scene, and of two hits at one distance the earlier stays.
pub fn nearest_hit(scene: &Scene, dir: Vec3) -> (r: Option<Hit>)
    requires
        scene.wf(),
        dir@.is_direction(),
    ensures
        r matches Some(h) ==> {
            &&& primitive_in(
                h.primitive,
                scene.body_seq().len() as int,
                scene.ring_seq().len() as int,
            )
            &&& is_nearest(
                scene.body_seq(),
                scene.ring_seq(),
                dir@,
                primitive_index(h.primitive, scene.body_seq().len() as int),
            )
            &&& spec_primitive_hit(
                scene.body_seq(),
                scene.ring_seq(),
                dir@,
                primitive_index(h.primitive, scene.body_seq().len() as int),
            ) == Some((h.distance as int, h.normal@))
            &&& 0 < h.distance <= DISTANCE_MAX
        },
        r is None ==> none_of_first(
            scene.body_seq(),
            scene.ring_seq(),
            dir@,
            primitive_count(scene.body_seq(), scene.ring_seq()),
        ),
{
    let origin: Vec3 = vec3(0, 0, 0);
    let ghost bodies = scene.body_seq();
    let ghost rings = scene.ring_seq();
    let body_count: usize = scene.body_count();
    let ring_count: usize = scene.ring_count();
    let mut best: Option<Hit> = None;
    let mut i: usize = 0;
    while i < body_count
        invariant
            i <= body_count,
            body_count == bodies.len(),
            bodies == scene.body_seq(),
            rings == scene.ring_seq(),
            scene.wf(),
            dir@.is_direction(),
            origin@ == Vector::zero(),
            best is None ==> none_of_first(bodies, rings, dir@, i as int),
            best matches Some(h) ==> {
                &&& primitive_in(h.primitive, i as int, 0)
                &&& is_nearest_of_first(
                    bodies,
                    rings,
                    dir@,
                    i as int,
                    primitive_index(h.primitive, bodies.len() as int),
                )
                &&& spec_primitive_hit(
                    bodies,
                    rings,
                    dir@,
                    primitive_index(h.primitive, bodies.len() as int),
                ) == Some((h.distance as int, h.normal@))
                &&& 0 < h.distance <= DISTANCE_MAX
            },
        decreases body_count - i,
    {
        let body: CelestialBody = scene.body(i);
        assert(placed_body(bodies[i as int]));
        let found: Option<(i64, Vec3)> = intersect_sphere(origin, dir, body.center, body.radius);
        assert(hit_view(found) == spec_primitive_hit(
            bodies,
            rings,
            dir@,
            i as int,
        ));
        match found {
            Some((t, normal)) => {
                let nearer: bool = match best {
                    Some(h) => t < h.distance,
                    None => true,
                };
                if nearer {
                    best = Some(Hit { primitive: Primitive::Body(i), distance: t, normal });
                }
            },
            None => {},
        }
        i = i + 1;
    }
    let mut j: usize = 0;
    while j < ring_count
        invariant
            j <= ring_count,
            ring_count == rings.len(),
            body_count == bodies.len(),
            bodies == scene.body_seq(),
            rings == scene.ring_seq(),
            scene.wf(),
            dir@.is_direction(),
            origin@ == Vector::zero(),
            best is None ==> none_of_first(bodies, rings, dir@, bodies.len() + j),
            best matches Some(h) ==> {
                &&& primitive_in(h.primitive, bodies.len() as int, j as int)
                &&& is_nearest_of_first(
                    bodies,
                    rings,
                    dir@,
                    bodies.len() + j,
                    primitive_index(h.primitive, bodies.len() as int),
                )
                &&& spec_primitive_hit(
                    bodies,
                    rings,
                    dir@,
                    primitive_index(h.primitive, bodies.len() as int),
                ) == Some((h.distance as int, h.normal@))
                &&& 0 < h.distance <= DISTANCE_MAX
            },
        decreases ring_count - j,
    {
        let ring: Ring = scene.ring(j);
        assert(scene.owner_seq()[j as int] < bodies.len());
        assert(placed_body(bodies[scene.owner_seq()[j as int] as int]));
        let found: Option<(i64, Vec3)> = intersect_ring(origin, dir, &ring);
        assert(hit_view(found) == spec_primitive_hit(
            bodies,
            rings,
            dir@,
            bodies.len() + j,
        ));
        match found {
            Some((t, normal)) => {
                let nearer: bool = match best {
                    Some(h) => t < h.distance,
                    None => true,
                };
                if nearer {
                    best = Some(Hit { primitive: Primitive::Ring(j), distance: t, normal });
                }
            },
            None => {},
        }
        j = j + 1;
    }
    best
}

/// The colour that the ray from the origin in the direction `dir` brings
/// back at a time: that of the nearest thing it hits, lit from the central
/// body, or black if it hits nothing.
pub fn ray_color(scene: &Scene, tables: &Tables, dir: Vec3, time: i64) -> (c: Color)
    requires
        scene.wf(),
        dir@.is_direction(),
        0 <= time <= TIME_MAX,
    ensures
        c@ == spec_ray_color(*tables, scene.body_seq(), scene.ring_seq(), dir@, time as int),
        c@.in_gamut(),
        c.a == 255,
{
    let origin: Vec3 = vec3(0, 0, 0);
    match nearest_hit(scene, dir) {
        None => {
            proof {
                lemma_nothing_hit_is_black(
                    *tables,
                    scene.body_seq(),
                    scene.ring_seq(),
                    dir@,
                    time as int,
                );
            }
            rgb(0, 0, 0)
        },
        Some(h) => {
            proof {
                lemma_nearest_hit_wins(
                    *tables,
                    scene.body_seq(),
                    scene.ring_seq(),
                    dir@,
                    time as int,
                    primitive_index(h.primitive, scene.body_seq().len() as int),
                );
            }
            let sun: Vec3 = scene.body(0).center;
            assert(placed_body(scene.body_seq()[0]));
            let p: Vec3 = point_at(origin, dir, h.distance);
            match h.primitive {
                Primitive::Body(i) => {
                    let body: CelestialBody = scene.body(i);
                    let light: Vec3 = match body.shader {
                        BodyShader::Sun => p.minus(sun).normalize(),
                        _ => sun.minus(p).normalize(),
                    };
                    shade_body(tables, body.shader, p, h.normal, light, time)
                },
                Primitive::Ring(j) => {
                    let ring: Ring = scene.ring(j);
                    assert(scene.owner_seq()[j as int] < scene.body_seq().len());
                    assert(placed_body(
                        scene.body_seq()[scene.owner_seq()[j as int] as int],
                    ));
                    let light: Vec3 = sun.minus(p).normalize();
                    shade_saturn_rings(
                        tables,
                        p,
                        h.normal,
                        light,
                        time,
                        ring.center,
                        ring.inner_radius,
                        ring.outer_radius,
                    )
                },
            }
        },
    }
}

/// The frame of the scene as it stands, at a time: `width * height` pixels,
/// row after row from the top.
pub fn render_scene(scene: &Scene, tables: &Tables, time: i64, width: u32, height: u32) -> (pixels:
    Vec<Color>)
    requires
        scene.wf(),
        0 <= time <= TIME_MAX,
        width * height <= usize::MAX,
    ensures
        is_frame(
            pixels@,
            *tables,
            scene.body_seq(),
            scene.ring_seq(),
            time as int,
            width as int,
            height as int,
        ),
{
    let mut pixels: Vec<Color> = Vec::new();
    if width == 0 || height == 0 {
        assert(width * height == 0) by (nonlinear_arith)
            requires
                width == 0 || height == 0,
        ;
        return pixels;
    }
    assert(width * height <= 0xFFFF_FFFF_FFFF_FFFF) by (nonlinear_arith)
        requires
            width <= 0xFFFF_FFFF,
            height <= 0xFFFF_FFFF,
    ;
    let total: u64 = width as u64 * height as u64;
    let mut i: u64 = 0;
    while i < total
        invariant
            i <= total,
            total == width * height,
            total <= usize::MAX,
            width > 0,
            height > 0,
            scene.wf(),
            0 <= time <= TIME_MAX,
            pixels.len() == i,
            forall|k: int|
                0 <= k < i ==> {
                    &&& (#[trigger] pixels[k])@ == spec_ray_color(
                        *tables,
                        scene.body_seq(),
                        scene.ring_seq(),
                        spec_primary_ray(k % width as int, k / width as int, width as int, height as int),
                        time as int,
                    )
                    &&& pixels[k].a == 255
                },
        decreases total - i,
    {
        let x: u32 = (i % width as u64) as u32;
        let y: u64 = i / width as u64;
        assert(y < height) by (nonlinear_arith)
            requires
                i < width * height,
                y == i as int / width as int,
                width > 0,
        ;
        let dir: Vec3 = primary_ray(x, y as u32, width, height);
        let c: Color = ray_color(scene, tables, dir, time);
        pixels.push(c);
        i = i + 1;
    }
    pixels
}

/// One frame: the scene is brought to the time, and then drawn as
/// `width * height` pixels, row after row from the top. The frame depends on
/// nothing but the scene's configuration, the sampled curves, the time and
/// the size.
pub fn render_frame(scene: &mut Scene, tables: &Tables, time: i64, width: u32, height: u32) -> (pixels:
    Vec<Color>)
    requires
        old(scene).wf(),
        0 <= time <= TIME_MAX,
        width * height <= usize::MAX,
    ensures
        final(scene).wf(),
        final(scene).is_update_of(*old(scene), *tables, time as int),
        is_frame(
            pixels@,
            *tables,
            final(scene).body_seq(),
            final(scene).ring_seq(),
            time as int,
            width as int,
            height as int,
        ),
{
    scene.update(tables, time);
    render_scene(scene, tables, time, width, height)
}

} // verus!
