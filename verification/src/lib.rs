//! The timing core of a scanline toy: a lit cell sweeps across a rectangular
//! grid in row-major order, and how long it dwells on a cell is given by an
//! easing, the pointwise maximum of the curves of all marked pixels.
//!
//! The library is generic in the number type of the clock and of the curves:
//! it asks of it only the conversions, operators and comparisons that it
//! calls, and its contracts relate results to what those calls return.

pub mod easings;
pub mod grid;
pub mod pixels;
pub mod scenes;
pub mod utils;
