//! A paragraph layout engine: greedy, per-glyph line wrapping over
//! fixed-point glyph metrics.
//!
//! Coordinates and metrics are integers in caller-chosen subpixel units
//! (for example 1/64 of a pixel). A caller supplies a [`font::ScaledFont`]
//! holding the vertical metrics, the per-character glyph table and the
//! kerning table of a font at a fixed scale, and receives the positioned
//! glyph placements ready for rasterisation.

pub mod chars;
pub mod font;
pub mod laws;
pub mod layout;
