//! Least-significant-bit steganography over raster channel bytes.
//!
//! A payload is cut into bits, the most significant bit of each byte first,
//! and each bit replaces the lowest bit of one channel byte of an image.
//! Reading the lowest bits back and regrouping them by eight recovers the
//! payload, followed by whatever the rest of the image happens to hold: the
//! format records no length.

pub mod bits;
pub mod channel;
pub mod error;
pub mod payload;
pub mod raster;
