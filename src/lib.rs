//! A frame buffer that collects RGBA camera frames and composes them into one
//! panorama raster, encoded as PNG.
//!
//! The composition is a plain horizontal layout: every frame gets a slot as
//! wide as the first frame, placed left to right in insertion order.

mod encode;
mod frame;
mod laws;
mod stitcher;

pub use encode::{png_of, StitchError};
pub use frame::{frame_of, Frame, FrameModel};

pub use stitcher::{canvas_byte, composed, encoded, reports, stitch_outcome, PanoramaStitcher, StoreModel};
pub use laws::{
    after_adds, lemma_add_after_clear, lemma_count_after_adds, lemma_stitch_empty,
    lemma_stitch_pair, lemma_stitch_repeatable, lemma_stitch_single,
};
