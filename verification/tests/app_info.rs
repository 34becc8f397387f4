use pixofold_core::app_info;
use pixofold_core::model::ImageFormat;

#[test]
fn app_info_serializes_the_frontend_contract_without_claiming_compression() {
    let info = app_info();
    assert_eq!(info.name, "PixoFold");
    assert_eq!(info.version, "0.1.0");
    assert_eq!(info.version, pixofold_core::VERSION);
    assert_eq!(
        info.planned_formats,
        vec![ImageFormat::Png, ImageFormat::Jpeg, ImageFormat::Gif, ImageFormat::Apng]
    );
    let names: Vec<&str> = info.planned_formats.iter().map(|f| f.name()).collect();
    assert_eq!(names, vec!["png", "jpeg", "gif", "apng"]);
    assert!(!info.compression_available);
}
