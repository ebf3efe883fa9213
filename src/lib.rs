//! Planning and table logic for a block-transform image compressor: block
//! addressing for tiling and reassembling color planes, quality-scaled
//! quantization tables held exactly as integers, and luma/chroma conversion
//! in exact fixed point.

pub mod error;
pub mod blocks;
pub mod quantization;
pub mod pixel_unit;
pub mod transform;
