//! A ray tracer for a small solar system, in fixed-point arithmetic.
//!
//! A sun, the planets that circle it and a ring around one of them are drawn
//! without textures or meshes: a ray through each pixel is tested against
//! every sphere and every ring, and the nearest hit is coloured by a formula
//! of the surface normal, the direction to the sun and the time.
//!
//! - `fixed`: the scalars, their products and the integer square root.
//! - `geom`: vectors.
//! - `color`: colours, blending and dimming.
//! - `tables`: the sampled sine, arctangent and power curves.
//! - `body`, `ring`: the things that are drawn.
//! - `intersect`: where a ray meets a sphere or a ring.
//! - `shaders`: the colour of a surface point of each kind of body.
//! - `scene`: the bodies on their orbits.
//! - `render`: the nearest hit of a ray, and the frame.
pub mod body;
pub mod color;
pub mod fixed;
pub mod geom;
pub mod intersect;
pub mod render;
pub mod ring;
pub mod scene;
pub mod shaders;
pub mod tables;
