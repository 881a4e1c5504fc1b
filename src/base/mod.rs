//! Input normalization, seed derivation, random draws, colors, geometry and
//! typography.

pub mod geometry;
pub mod palette;
pub mod random;
pub mod seed;
pub mod typography;
