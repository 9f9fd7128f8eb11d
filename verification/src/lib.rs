//! A console renderer core: RGB colors with Manhattan-distance palette
//! quantization, the fixed 16-entry terminal color tables, sparse texture
//! overlay cells, and a framebuffer that stores per-cell glyph and color
//! state and serializes a frame into a diff-aware terminal escape-sequence
//! stream.

pub mod color;
pub mod csi_color;
pub mod framebuffer;
pub mod texture;
