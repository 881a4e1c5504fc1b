//! Vector and raster renderers.

pub mod canvas;
pub mod png;
pub mod svg;
