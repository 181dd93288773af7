//! Conversion of per-frame animation streams into compact per-object
//! animation clips, with a bit-exact big-endian binary codec for both
//! formats, a curve builder with lossy quantization, and a splitter that
//! extracts the damage sub-skeleton into an independent clip.
//!
//! Floating-point samples are carried throughout as raw IEEE-754 bit
//! patterns (`u32`); the only numeric transformation ever applied to them
//! is the integer quantizer in [`quant`].

pub mod aggregate;
pub mod anm;
pub mod anmstrm;
pub mod build_page;
pub mod bytes;
pub mod codec;
pub mod codec_strm;
pub mod convert;
pub mod page;
pub mod quant;
pub mod split;
pub mod strings;
