//! Geometry, rendering and batch planning for ring-and-spoke reticles.
//!
//! Lengths and coordinates are fixed-point integers, [`fixed::UNIT`] to the
//! pixel. A spoke's direction is a vector of two integers, [`fixed::DIR_ONE`]
//! to the unit length.

pub mod fixed;
pub mod outline;
pub mod text;
pub mod config;
pub mod vector;
pub mod color;
pub mod pairs;
pub mod batch;
pub mod paths;
pub mod raster;
pub mod preview;
pub mod names;
