//! Domain model shared by the probe, codecs, batch and import layers.

pub mod cancel;
pub mod compression;
pub mod metadata;
pub mod quality;

pub use cancel::CancellationToken;
pub use compression::{
    ByteCount, ImageInfo, OutputPolicy, PngColorType, PngRequest, ProcessingError,
    ProcessingOutcome, ProcessingReport, ProcessingStage, ResourceLimits,
};
pub use metadata::{ContentCredentialsSource, PngMetadataPolicy};
pub use quality::{
    InvalidQuality, LossyFallbackReason, PngMode, PngProcessing, PngQualityMapping, QualityValue,
};

use vstd::prelude::*;

verus! {

/// Image formats planned for support; listing one promises no encoder yet.
#[derive(Debug, Clone, Copy, PartialEq, Eq, Structural)]
pub enum ImageFormat {
    Png,
    Jpeg,
    Gif,
    Apng,
}

impl ImageFormat {
    /// The lower-case wire name of the format.
    pub fn name(self) -> (r: &'static str)
        ensures
            r == (match self {
                    ImageFormat::Png => "png",
                    ImageFormat::Jpeg => "jpeg",
                    ImageFormat::Gif => "gif",
                    ImageFormat::Apng => "apng",
                }),
    {
        match self {
            ImageFormat::Png => "png",
            ImageFormat::Jpeg => "jpeg",
            ImageFormat::Gif => "gif",
            ImageFormat::Apng => "apng",
        }
    }
}

/// Build and capability information, with no task state and no private paths.
/// `compression_available` is reported as the front-end contract states it.
#[derive(Debug, PartialEq, Eq)]
pub struct AppInfo {
    pub name: String,
    pub version: String,
    pub planned_formats: Vec<ImageFormat>,
    pub compression_available: bool,
}

} // verus!
