//! Verified geometry for a Sierpinski-triangle renderer.
//!
//! The library computes everything a drawing surface needs: the equilateral
//! outline of the fractal, the full list of leaf triangles produced by
//! midpoint subdivision at a requested depth, and a one-shot plan for
//! overlaying an image once its asset has loaded. Coordinates are integers
//! in caller-chosen subpixel units, so every result is stated and proved
//! exactly; a host program converts them to surface pixels when it draws.

pub mod geometry;
pub mod overlay;
pub mod sierpinski;
