//! PNG candidate builders: the strict lossless baseline and the palette quantizer's
//! decision logic.

pub mod lossless;
pub mod lossy;
