//! A Monte Carlo path tracer over fixed-point arithmetic, with verified
//! contracts on every stage of the pipeline.
//!
//! Rays are cast from a camera through a scene of spheres; materials scatter
//! them recursively, and many noisy samples per pixel average into a final
//! color.  Scalars are `i64` values scaled by 2^16 (`fx`), so every geometric
//! and color computation has an exact mathematical statement, and a whole
//! render is a stated function of the camera, the scene and a seed.  Worker
//! threads, image encoding and scene construction live with the caller: the
//! library computes row bands (`camera::Camera::render_rows`) and quantizes
//! colors (`camera::Camera::write_color`); the caller owns the image sink.

pub mod fx;
pub mod util;
pub mod random;
pub mod hittable;
pub mod material;
pub mod camera;
