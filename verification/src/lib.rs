//! A small ray tracer built on exact fixed-point arithmetic.
//!
//! Scalars are `i64` values counting steps of `1/SCALE`; every arithmetic
//! operation saturates at the `i64` range instead of overflowing, and every
//! executable operation is specified exactly against a mathematical mirror.

pub mod bounds;
pub mod bvh;
pub mod camera;
pub mod combinators;
pub mod fixed;
pub mod lightsource;
pub mod material;
pub mod pixel;
pub mod queue_systems;
pub mod ray;
pub mod render_config;
pub mod sampler;
pub mod scene;
pub mod shape;
pub mod skybox;
pub mod texture_map;
pub mod utils;
pub mod vectors;
