//! Turns toolpath commands of a photoplot drawing into outline primitives.
//!
//! Coordinates are integers in millionths of the drawing unit. Every offset and every arc bound is
//! kept as an exact direction vector; scaling it to the pen radius and turning
//! it into an angle is left to the writer of the output format.
pub mod vector;
pub mod stroke;
pub mod dispatch;
pub mod naming;
