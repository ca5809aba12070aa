//! A verified core for a scene-cut video segmenter.
//!
//! Decoded frames stream in, consecutive frames are compared with a coarse
//! pixel-change metric, and maximal runs of similar frames ("segments") are
//! flushed once a scene transition is detected.  Flushed segments are
//! normalized (channel reorder plus linear resampling) and encoded as
//! animated GIF byte streams.  Decoding and file output live outside this
//! library; it works on plain pixel buffers.

pub mod emit;
pub mod engine;
pub mod metric;
pub mod pixel;
pub mod transform;
