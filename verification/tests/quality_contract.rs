use pixofold_core::model::{PngMode, PngRequest, QualityValue};
use pixofold_core::quality::png_quality;

#[test]
fn all_integer_quality_values_map_without_clamping_or_native_minimum_leakage() {
    for value in 0..=100 {
        let quality = QualityValue::new(value).unwrap();
        let mapping = png_quality(quality);
        assert_eq!(mapping.version, 1);
        assert_eq!(mapping.quality.get(), value as u8);
        assert_eq!(mapping.minimum, 0);
        assert_eq!(mapping.target, value as u8);
    }
    for value in [i32::MIN, -1, 101, i32::MAX] {
        assert!(QualityValue::new(value).is_err());
    }
    assert_eq!(QualityValue::default().get(), 80);
}

#[test]
fn existing_request_constructor_remains_explicitly_lossless() {
    let request = PngRequest::new("sample.png".to_string());
    assert_eq!(request.mode, PngMode::Lossless);
    assert_eq!(PngMode::default(), PngMode::Lossless);
}

#[test]
fn invalid_quality_keeps_the_rejected_value() {
    let error = QualityValue::new(150).unwrap_err();
    assert_eq!(error.0, 150);
    assert_eq!(QualityValue::new(0).unwrap().get(), 0);
    assert_eq!(QualityValue::new(100).unwrap().get(), 100);
}
