//! Conway's Game of Life on a toroidal grid.
//!
//! A `Universe` owns a bit-packed cell buffer of `width * height` flags in
//! row-major order. It can advance one generation at a time under the
//! standard B3/S23 rule, be edited cell by cell, be resized (destructively),
//! and have named patterns stamped onto it with toroidal wrapping.

pub mod bits;
pub mod pattern;
pub mod rules;
pub mod universe;

pub use pattern::Pattern;
pub use universe::GridModel;
pub use universe::Universe;
