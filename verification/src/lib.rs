//! A Monte-Carlo ray tracer for sphere scenes with diffuse, metallic and
//! dielectric materials.
//!
//! Every scalar of the rendering pipeline is a fixed-point number: an `i64`
//! holding the value times [`fixed::SCALE`]. All geometry, intersection,
//! scattering and camera arithmetic is exact integer computation, so every
//! function of the pipeline carries a contract that pins its result down to
//! the last raw unit.

pub mod fixed;
pub mod random;
pub mod vector3;
pub mod point;
pub mod color;
pub mod ray;
pub mod interval;
pub mod hit_record;
pub mod material;
pub mod geometry;
pub mod camera;
pub mod scenes;
