//! Escape-time rendering of Julia sets on a fixed raster.
//!
//! The crate holds the exact parts of a Julia-set renderer: the navigation
//! state, the sample grid of each pixel, the escape-time loop with its
//! iteration cap, the averaging of the samples of a pixel, the filling of the
//! iteration grid row by row (in sequence, by a work-stealing pool or by one
//! thread per row) and the colouring of the grid into an RGBA byte buffer.
//!
//! The arithmetic of the complex plane is not part of the crate. A caller
//! hands it in as three closures over a point type of its choice: one that
//! places a sample in the plane, one that tests whether a point is still
//! inside the escape radius, and one that advances a point by one step of the
//! recurrence. Every contract below holds for whatever these closures do.

use vstd::prelude::*;

pub mod fractals;
pub mod kernel;
pub mod grid;
pub mod laws;
pub mod palette;
pub mod rayonfractal;
pub mod threadfractal;
pub mod controls;

verus! {

/// The iteration budget of one sample: an orbit that has not escaped after
/// this many steps is taken to be bounded.
pub const MAX_ITERATION: u16 = 500;

/// The samples of a pixel form a square grid with this many samples a side.
pub const SAMPLES_PER_LINE: u8 = 2;

/// The number of samples that are averaged into one pixel.
pub const SAMPLES_PER_PIXEL: u8 = SAMPLES_PER_LINE * SAMPLES_PER_LINE;

} // verus!
