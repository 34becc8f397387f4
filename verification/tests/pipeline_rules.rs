use pixofold_core::model::{
    ImageInfo, PngColorType, PngMetadataPolicy, PngProcessing, ProcessingError, ProcessingOutcome,
};
use pixofold_core::model::{LossyFallbackReason, QualityValue};
use pixofold_core::pipeline::{
    finish_report, is_gain, metadata_action, validation_reference, MetadataAction, ValidationReference,
};
use pixofold_core::quality::png_quality;
use std::time::Duration;

fn info() -> ImageInfo {
    ImageInfo { width: 3, height: 2, bit_depth: 8, color_type: PngColorType::Rgba, interlaced: false }
}

#[test]
fn only_strictly_smaller_candidates_are_committed() {
    assert!(is_gain(99, 100));
    assert!(!is_gain(100, 100));
    assert!(!is_gain(101, 100));
}

#[test]
fn reports_count_credentials_removed_only_for_committed_files() {
    let optimized = ProcessingOutcome::Optimized { output: "/a.png".to_string(), backup: Some("/b.png".to_string()) };
    let report = finish_report(info(), info(), PngProcessing::Lossless, true, 100, 60, Duration::from_millis(5), optimized);
    assert!(report.content_credentials_removed);
    assert_eq!((report.input_bytes.0, report.output_bytes.0), (100, 60));
    let none = finish_report(info(), info(), PngProcessing::Lossless, true, 100, 120, Duration::from_millis(5), ProcessingOutcome::NoGain);
    assert!(!none.content_credentials_removed);
    assert_eq!(none.output_bytes.0, 100);
}

#[test]
fn credentials_without_consent_stop_the_file() {
    assert_eq!(metadata_action(&PngMetadataPolicy::Preserve, false, dummy()).unwrap(), MetadataAction::Keep);
    assert!(matches!(
        metadata_action(&PngMetadataPolicy::Preserve, true, dummy()),
        Err(ProcessingError::ContentCredentialsRequireConsent(_))
    ));
    let consent = PngMetadataPolicy::RemoveContentCredentials(dummy());
    assert_eq!(metadata_action(&consent, true, dummy()).unwrap(), MetadataAction::RemoveContentCredentials);
    assert!(matches!(metadata_action(&consent, false, dummy()), Err(ProcessingError::SourceChanged)));
}

fn dummy() -> pixofold_core::model::ContentCredentialsSource {
    pixofold_core::model::ContentCredentialsSource::new("/a.png".to_string(), 10, std::time::UNIX_EPOCH, None, false)
}

#[test]
fn only_an_adopted_quantization_is_validated_against_itself() {
    let mapping = png_quality(QualityValue::new(80).unwrap());
    assert_eq!(validation_reference(&PngProcessing::Lossless), ValidationReference::Working);
    assert_eq!(
        validation_reference(&PngProcessing::Lossy { mapping, measured_quality: 90 }),
        ValidationReference::Candidate
    );
    assert_eq!(
        validation_reference(&PngProcessing::LosslessFallback { mapping, reason: LossyFallbackReason::NoSizeBenefit }),
        ValidationReference::Working
    );
}
