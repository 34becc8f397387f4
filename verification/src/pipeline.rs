//! Decisions of the single-file pipeline. The application reads the source,
//! runs the codecs, writes and commits through the output layer; these
//! functions decide what happens to content credentials, whether a candidate
//! is worth committing, and what the report says.

use crate::model::{
    ByteCount, ContentCredentialsSource, ImageInfo, PngMetadataPolicy, PngProcessing,
    ProcessingError, ProcessingOutcome, ProcessingReport,
};
use std::time::Duration;
use vstd::prelude::*;

verus! {

/// What happens to the source's metadata before optimizing.
#[derive(Debug, Clone, Copy, PartialEq, Eq, Structural)]
pub enum MetadataAction {
    /// Work on the source bytes as they are.
    Keep,
    /// Work on a copy without the content credentials, as consented.
    RemoveContentCredentials,
}

/// Content credentials are never dropped silently: without consent they stop
/// the file and name the inspected version; consent given for credentials
/// that are no longer there means the source changed.
pub fn metadata_action(policy: &PngMetadataPolicy, has_credentials: bool, version: ContentCredentialsSource) -> (r: Result<MetadataAction, ProcessingError>)
    ensures
        match (policy, has_credentials) {
            (PngMetadataPolicy::Preserve, true) => r matches Err(ProcessingError::ContentCredentialsRequireConsent(v)) && v == version,
            (PngMetadataPolicy::Preserve, false) => r == Ok::<MetadataAction, ProcessingError>(MetadataAction::Keep),
            (PngMetadataPolicy::RemoveContentCredentials(_), true) => r == Ok::<MetadataAction, ProcessingError>(MetadataAction::RemoveContentCredentials),
            (PngMetadataPolicy::RemoveContentCredentials(_), false) => r matches Err(e) && e is SourceChanged,
        },
{
    match policy {
        PngMetadataPolicy::Preserve => {
            if has_credentials {
                Err(ProcessingError::ContentCredentialsRequireConsent(version))
            } else {
                Ok(MetadataAction::Keep)
            }
        },
        PngMetadataPolicy::RemoveContentCredentials(_) => {
            if has_credentials {
                Ok(MetadataAction::RemoveContentCredentials)
            } else {
                Err(ProcessingError::SourceChanged)
            }
        },
    }
}

/// What the stored candidate is checked against.
#[derive(Debug, Clone, Copy, PartialEq, Eq, Structural)]
pub enum ValidationReference {
    /// The candidate's own bytes and decoding: a quantized image has new pixels.
    Candidate,
    /// The working bytes and the source's decoding, whose pixels a lossless
    /// candidate must keep.
    Working,
}

/// Only an adopted quantization is checked against itself; every lossless
/// result, fallbacks included, must reproduce the source's pixels.
pub fn validation_reference(processing: &PngProcessing) -> (r: ValidationReference)
    ensures
        r == (if processing is Lossy { ValidationReference::Candidate } else { ValidationReference::Working }),
{
    match processing {
        PngProcessing::Lossy { .. } => ValidationReference::Candidate,
        _ => ValidationReference::Working,
    }
}

/// A validated candidate is committed only when it is strictly smaller.
pub fn is_gain(output_bytes: u64, input_bytes: u64) -> (r: bool)
    ensures
        r == (output_bytes < input_bytes),
{
    output_bytes < input_bytes
}

/// The report of a finished file. With no gain the output size is the input
/// size; credentials count as removed only when a smaller file was committed.
pub fn finish_report(
    image: ImageInfo,
    output_image: ImageInfo,
    processing: PngProcessing,
    has_credentials: bool,
    input_bytes: u64,
    candidate_bytes: u64,
    elapsed: Duration,
    outcome: ProcessingOutcome,
) -> (r: ProcessingReport)
    ensures
        r.image == image,
        r.output_image == output_image,
        r.processing == processing,
        r.content_credentials_removed == (has_credentials && outcome is Optimized),
        r.input_bytes.0 == input_bytes,
        r.output_bytes.0 == (if outcome is NoGain { input_bytes } else { candidate_bytes }),
        r.elapsed == elapsed,
        r.outcome == outcome,
{
    let removed = has_credentials && matches!(outcome, ProcessingOutcome::Optimized { .. });
    let output_bytes = if matches!(outcome, ProcessingOutcome::NoGain) { input_bytes } else { candidate_bytes };
    ProcessingReport {
        image,
        output_image,
        processing,
        content_credentials_removed: removed,
        input_bytes: ByteCount(input_bytes),
        output_bytes: ByteCount(output_bytes),
        elapsed,
        outcome,
    }
}

} // verus!
