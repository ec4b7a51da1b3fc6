//! A software triangle rasterizer, verified.
//!
//! The core works on integer pixel coordinates, where the edge-function and
//! barycentric-weight arithmetic is exact: each barycentric weight is the
//! rational `w_i = e_i / area`, carried around as its numerator together with
//! the shared denominator, and the inside test is a sign test on those
//! numerators against the sign of the signed area.
//!
//! `geometry` holds the edge function and the barycentric computation,
//! `raster` the bounding-box pixel scan, and `events` the frame-loop
//! dispatch policy. Window setup and the actual pixel writes are left to the
//! surrounding program, which feeds fragments to a display surface.

pub mod events;
pub mod geometry;
pub mod raster;
