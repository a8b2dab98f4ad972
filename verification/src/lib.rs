//! Verified building blocks of a Mandelbrot-set explorer.
//!
//! The crate holds the discrete side of the renderer: colours and their
//! textual form, gradients and their definitions, the raster, the
//! escape-time loop, and the rules by which a view is fitted to a raster and
//! carried from one resolution to another. The arithmetic on the plane is
//! left to the caller, who hands it in as functions.
//!
//! Every function has a contract that Verus proves. The raster keeps its
//! cells in an `ndarray` array; what is taken on trust of that array is said
//! where the raster calls it.

pub mod colour;
pub mod config;
pub mod definition;
pub mod gradient;
pub mod mandelbrot;
pub mod raster;
pub mod viewport;
