//! Discrete core of a small ray tracer.
//!
//! A renderer of this kind spends most of its time in real-valued algebra:
//! affine transforms, quadratic root finding, Phong shading. That arithmetic
//! is carried out in floating point by the surrounding application and is
//! beyond what the verifier can reason about. What *can* be pinned down
//! exactly is the discrete skeleton that the arithmetic feeds:
//!
//! - which hit candidates a ray keeps, and in which order they come back
//!   (`intersection`): hit times are carried as IEEE-754 double bit patterns,
//!   whose unsigned order agrees with numeric order for the positive times
//!   the collection retains;
//! - which cell of a stripe, ring or checker pattern a point falls in, once
//!   the point's cell coordinates are known (`pattern`);
//! - the affine law of the ray's motion, stated over exact integer
//!   vectors (`algebra`);
//! - the image grid and its plain-text pixel encoding, byte for byte
//!   (`canvas`);
//! - the closed set of primitive forms a scene object can take (`geometry`).
//!
//! The contracts pin results down exactly, and the laws the components
//! obey (positive-time retention, min-first order, pattern periodicity,
//! affinity in the ray parameter) are stated and proved alongside them.

pub mod algebra;
pub mod canvas;
pub mod geometry;
pub mod intersection;
pub mod pattern;
