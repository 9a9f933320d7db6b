//! Renders raster images as coloured text, one glyph for each pair of
//! vertically stacked pixels.
//!
//! The work is done in three steps: [`size::resolve`] settles how many
//! character columns and rows the picture gets, [`resample::resample`] brings
//! the picture to that many pixels, and [`render::render`] writes the escape
//! sequences. [`draw::draw`] takes the three in one.

pub mod args;
pub mod draw;
pub mod pixels;
pub mod render;
pub mod resample;
pub mod single;
pub mod size;
pub mod terminal;
