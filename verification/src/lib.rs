//! Core of a VP9 stream viewer: container demuxing, the decode-session
//! protocol and conversion of planar YUV images to packed RGBA.

pub mod common;
pub mod ivf;
pub mod vpx;
