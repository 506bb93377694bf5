//! Verified core of a Gray-Scott reaction-diffusion simulation on a
//! toroidal two-dimensional grid.
//!
//! Field values are fixed-point numbers: an `i64` holding the real value
//! multiplied by [`fixed::SCALE`]. All arithmetic is exact integer
//! arithmetic, so every contract pins results down to the bit: the
//! toroidal shift and the five-point Laplacian ([`grid`], [`laplacian`]),
//! the forward Euler reaction-diffusion step ([`step`]), the batched
//! simulation state with its generation-tagged snapshot handoff
//! ([`state`]), and the display adapter's clamping ([`render`]). The
//! engine's general laws are proved in [`laws`] over the mathematical
//! model of [`model`].

pub mod fixed;
pub mod grid;
pub mod laplacian;
pub mod laws;
pub mod model;
pub mod noise;
pub mod params;
pub mod render;
pub mod state;
pub mod step;
