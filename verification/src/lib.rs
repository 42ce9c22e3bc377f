//! Rasterization of a battleplanes board into a ten-by-ten grid of display cells.
//!
//! A board snapshot lists the live planes, the hits, the misses and the destroyed
//! planes. Four layers are painted in that order onto a blank grid, a later layer
//! overriding an earlier one cell by cell.

pub mod board;
pub mod decimal;
pub mod grid;
pub mod raster;
pub mod laws;
pub mod data;
