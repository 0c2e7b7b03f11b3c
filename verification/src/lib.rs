//! Integer core of a procedural cloud skybox renderer: the per-slice random
//! source, the lattice hash and octave schedule of the cloud noise, colour
//! byte formats, raster layout of slices, and seed scheduling.

pub mod fast_rng;
pub mod noise;
pub mod color;
pub mod raster;
pub mod plan;
pub mod seeding;
pub mod faces;
