//! A progressive Monte-Carlo path tracer with a verified core.
//!
//! Geometry, shading and coordination are carried out in fixed-point
//! arithmetic: a scalar is an `i64` counting millionths of a
//! world-space unit, so every computation is exact and every contract
//! can pin its result down.
//!
//! - [`fixed`]: the saturating fixed-point scalar operations;
//! - [`rng`]: a deterministic, explicitly seeded generator;
//! - [`vec3`]: vector, point and colour algebra;
//! - [`ray`], [`object`], [`world`]: rays, the sphere primitive with
//!   its quadratic intersection, and the closest-hit scene query;
//! - [`material`]: diffuse, metal and dielectric scattering;
//! - [`camera`]: viewpoint, viewport and lens sampling;
//! - [`worker`]: per-band progressive rendering and accumulation;
//! - [`raytracer`]: the frame buffer, the band partition, and the
//!   Idle/Working coordinator that merges band snapshots.
//!
//! Threads, channels and display belong to the embedding application:
//! workers here are plain values whose passes are driven from
//! outside, and the coordinator consumes snapshots handed to it.

pub mod fixed;
pub mod rng;
pub mod vec3;
pub mod ray;
pub mod material;
pub mod object;
pub mod world;
pub mod camera;
pub mod worker;
pub mod raytracer;
