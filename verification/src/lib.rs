//! Interactive 2D line-scene viewer, modelled in fixed-point arithmetic.
//!
//! World coordinates, zoom factors and colors are carried as signed
//! integers counting subunits (`fixed::UNIT` subunits per world unit), so
//! that every camera and batch computation has an exact contract.

pub mod camera;
pub mod draw_lines;
pub mod fixed;
pub mod scene;
