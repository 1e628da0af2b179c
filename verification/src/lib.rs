//! Renders grayscale video frames as ASCII art in a terminal.
//!
//! The renderer downsamples a grayscale image with nearest-neighbor
//! sampling at a uniform, aspect-preserving scale and dithers each cell
//! against a 2x2 ordered-dither matrix, drawing from a fixed character
//! ramp.  A pacing helper computes the per-frame sleep that holds a
//! fixed frame interval, and a playback planner orders frames by name
//! and steps through them in order.

pub mod decode;
pub mod dither;
pub mod gray;
pub mod order;
pub mod pacing;
pub mod playback;
pub mod render;
