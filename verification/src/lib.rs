//! The exact core of a small ray tracer.
//!
//! A renderer casts one ray per pixel, tests it against every shape of a
//! scene, and colours the pixel by the shape that is met first. The
//! arithmetic on real numbers that this takes (building the ray, solving for
//! the point where it meets a surface, turning a surface normal into a
//! colour) is left to the caller. This library holds what is decided from the
//! results, and proves it:
//!
//! - `ieee`: comparing real quantities that are given as bit patterns, and
//!   cutting one down to a byte;
//! - `intersect`: whether the terms computed for a sphere or a triangle make
//!   a hit;
//! - `trace`: which hit is the nearest, and what the material of its shape
//!   says about the pixel;
//! - `render`: the scan over the pixels of an image;
//! - `color`, `math`: colours and a helper.

pub mod color;
pub mod ieee;
pub mod intersect;
pub mod math;
pub mod render;
pub mod trace;
