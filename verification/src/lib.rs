//! Winding order of closed outlines.
//!
//! An outline is a list of closed contours whose points have integer
//! coordinates, with the Y axis pointing down. Its winding order is the sign
//! of the area it encloses, computed exactly by the shoelace sum over every
//! edge of every contour.

pub mod area;
pub mod geometry;
pub mod orientation;
pub mod transform;
