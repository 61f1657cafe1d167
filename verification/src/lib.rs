//! Two-dimensional collision support on the integer lattice: vectors and
//! matrices, the exact intersection of two segments, the outlines of shapes
//! and where they meet, a spatial hash grid and collision layers, beside a
//! small pixel canvas.

use vstd::prelude::*;

pub mod buffer;
pub mod canvas;
pub mod color;
pub mod math_2d;
pub mod physics_2d;
pub mod position;
pub mod spatial_hashgrid;
pub mod text;
pub mod world;

verus! {

/// A width and a height in one unit, as a pair.
#[derive(Debug, Clone, Copy)]
pub struct PhysicalSize<P> {
    pub width: P,
    pub height: P,
}

impl<P> PhysicalSize<P> {
    pub fn new(width: P, height: P) -> (size: Self)
        ensures
            size.width == width,
            size.height == height,
    {
        Self { width, height }
    }
}

} // verus!
