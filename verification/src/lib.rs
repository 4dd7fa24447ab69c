//! Core math for a small 2D sprite game: affine stamp transforms with exact
//! rational coordinates, and a segment-versus-level collision engine with a
//! memoized geometry cache.
//!
//! Scalars are exact rationals (see [`rational::Rat`]); rotations are carried
//! as a (cosine, sine) pair so that every transform step is exact integer
//! arithmetic. Computations whose intermediate values leave the machine range
//! report [`GeometryError::NumericOverflow`] instead of silently losing
//! precision.

use vstd::prelude::*;

pub mod engine_laws;
pub mod geometry;
pub mod rational;
pub mod scene;
pub mod transform;
pub mod transform_laws;

pub use geometry::{GeomCache, Stamp, Svg, is_significant};
pub use rational::Rat;
pub use scene::{Key, KeysDown, SceneState, mouse_move};
pub use transform::{RatPoint, Transform, compose, ftransform, itransform};

verus! {

/// A typed failure of the geometry core. Degenerate input and machine-range
/// exhaustion are surfaced to the caller; they never panic the process.
#[derive(Clone, Copy, Debug, PartialEq, Eq, Structural)]
pub enum GeometryError {
    /// An intermediate product or sum left the 128-bit machine range.
    NumericOverflow,
    /// The probe segment has zero length, so no crossing direction exists.
    DegenerateProbe,
}

/// An RGB fill color attached to a placed stamp.
#[derive(Debug, Default, Copy, Clone, Eq, PartialEq, Structural)]
pub struct Color {
    pub r: u8,
    pub g: u8,
    pub b: u8,
}

} // verus!
