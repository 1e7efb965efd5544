//! The verified core of a Monte Carlo path tracer.
//!
//! Numbers cross this crate's boundary as IEEE 754 bit patterns.  The caller
//! does the arithmetic: it implements the surfaces and hands the crate small
//! kernels of numeric functions.  The crate holds everything that follows
//! from the numbers, with proof:
//!
//! - `scalar`: classification and comparison of bit patterns, specified
//!   against the numbers they denote;
//! - `vector`: points, directions, colors and rays;
//! - `surface`: the surface interface, and which terms of a ray–rectangle or
//!   ray–sphere test are a hit, at what distance and on which side;
//! - `nearest`: the nearest of many hits, ties to the first;
//! - `sampling`: rejection sampling that stops after a fixed number of draws;
//! - `bsdf`: reflectance models as a tree of lobes, the mixture rule of a sum
//!   and resampling while a sample is black;
//! - `texture`, `material`, `light`: what a surface is made of;
//! - `scene`: the scene, its nearest-hit query and the path integrator with
//!   its bound on the number of bounces.

pub mod scalar;
pub mod vector;
pub mod surface;
pub mod nearest;
pub mod sampling;
pub mod bsdf;
pub mod texture;
pub mod material;
pub mod light;
pub mod scene;
