use pixofold_core::codecs::lossless::{
    check_candidate, optimize, strict_settings, validate, RecompressionSettings, StripPolicy,
};
use pixofold_core::model::cancel::cancelled_error;
use pixofold_core::model::ProcessingError;
use pixofold_core::codecs::lossy::{
    conclude_quantization, encode_palette, finish_quantization, quantize, rgba8, Attempt, QuantizerOutput, Rgba,
};
use pixofold_core::model::{CancellationToken, LossyFallbackReason, QualityValue};
use pixofold_core::quality::png_quality;
use std::cell::Cell;
use pixofold_core::model::{ImageInfo, PngColorType, ResourceLimits};
use pixofold_core::probe::{decode, inspect_png, parse_chunks};

fn chunk(name: &[u8; 4], data: &[u8]) -> Vec<u8> {
    let mut out = Vec::new();
    out.extend_from_slice(&(data.len() as u32).to_be_bytes());
    out.extend_from_slice(name);
    out.extend_from_slice(data);
    let mut hasher = crc32fast::Hasher::new();
    hasher.update(name);
    hasher.update(data);
    out.extend_from_slice(&hasher.finalize().to_be_bytes());
    out
}

fn zlib_stored(raw: &[u8]) -> Vec<u8> {
    let mut out = vec![0x78, 0x01, 0x01];
    let len = raw.len() as u16;
    out.extend_from_slice(&len.to_le_bytes());
    out.extend_from_slice(&(!len).to_le_bytes());
    out.extend_from_slice(raw);
    let (mut a, mut b) = (1u32, 0u32);
    for byte in raw {
        a = (a + *byte as u32) % 65521;
        b = (b + a) % 65521;
    }
    out.extend_from_slice(&((b << 16) | a).to_be_bytes());
    out
}

/// A 4x4 8-bit RGB picture with a text chunk before its single stored IDAT.
fn rgb_png() -> Vec<u8> {
    let mut png = b"\x89PNG\r\n\x1a\n".to_vec();
    let mut ihdr = Vec::new();
    ihdr.extend_from_slice(&4u32.to_be_bytes());
    ihdr.extend_from_slice(&4u32.to_be_bytes());
    ihdr.extend_from_slice(&[8, 2, 0, 0, 0]);
    png.extend(chunk(b"IHDR", &ihdr));
    png.extend(chunk(b"tEXt", b"Comment\0kept"));
    let mut raw = Vec::new();
    for _ in 0..4 {
        raw.push(0u8);
        for _ in 0..4 {
            raw.extend_from_slice(&[200, 100, 50]);
        }
    }
    png.extend(chunk(b"IDAT", &zlib_stored(&raw)));
    png.extend(chunk(b"IEND", &[]));
    png
}

fn names(png: &[u8]) -> Vec<[u8; 4]> {
    parse_chunks(png)
        .unwrap()
        .iter()
        .map(|c| {
            let n = &png[c.start + 4..c.start + 8];
            [n[0], n[1], n[2], n[3]]
        })
        .collect()
}

#[test]
fn a_palette_encoding_decodes_to_its_indices_with_transparency() {
    let info = ImageInfo { width: 2, height: 2, bit_depth: 8, color_type: PngColorType::Rgba, interlaced: false };
    let palette = vec![Rgba { r: 255, g: 0, b: 0, a: 255 }, Rgba { r: 0, g: 0, b: 255, a: 128 }];
    let indices = vec![0u8, 1, 1, 0];
    let png = encode_palette(info, &palette, &indices).unwrap();
    let found = inspect_png(&png, ResourceLimits::default()).unwrap();
    assert_eq!((found.width, found.height, found.color_type), (2, 2, PngColorType::Indexed));
    let chunks = names(&png);
    assert!(chunks.contains(b"PLTE") && chunks.contains(b"tRNS"));
    assert_eq!(decode(&png, ResourceLimits::default()).unwrap().pixels, indices);
}

#[test]
fn lossless_recompression_keeps_pixels_and_every_other_chunk() {
    let png = rgb_png();
    let original = decode(&png, ResourceLimits::default()).unwrap();
    let candidate = optimize(&png, 64 * 1024 * 1024).unwrap();
    assert!(candidate.len() < png.len());
    assert_eq!(names(&candidate), names(&png));
    assert_eq!(decode(&candidate, ResourceLimits::default()).unwrap().pixels, original.pixels);
    assert!(validate(&png, &original, &candidate, ResourceLimits::default()).is_ok());
}

#[test]
fn a_changed_pixel_or_chunk_list_is_refused_after_decoding() {
    let png = rgb_png();
    let original = decode(&png, ResourceLimits::default()).unwrap();
    let mut changed = decode(&png, ResourceLimits::default()).unwrap();
    assert!(check_candidate(&png, &original, &png, &changed).is_ok());
    changed.pixels[0] ^= 1;
    assert!(matches!(
        check_candidate(&png, &original, &png, &changed),
        Err(ProcessingError::ValidationFailed(_))
    ));
    let same = decode(&png, ResourceLimits::default()).unwrap();
    let mut truncated = png.clone();
    truncated.truncate(20);
    assert!(check_candidate(&png, &original, &truncated, &same).is_err());
    assert!(validate(&png, &original, &truncated, ResourceLimits::default()).is_err());
}

#[test]
fn a_reading_of_the_flag_decides_the_cancellation_error() {
    assert!(matches!(cancelled_error(true), Err(ProcessingError::Cancelled)));
    assert!(cancelled_error(false).is_ok());
}

#[test]
fn the_lossless_settings_keep_every_chunk_interlacing_and_sample_format() {
    let expected = RecompressionSettings {
        preset: 1,
        interlace: None,
        strip: StripPolicy::KeepAll,
        timeout_seconds: 30,
        max_decompressed_size: 4096,
        fix_errors: false,
        force: false,
        optimize_alpha: false,
        bit_depth_reduction: false,
        color_type_reduction: false,
        palette_reduction: false,
        grayscale_reduction: false,
        scale_16: false,
    };
    assert_eq!(strict_settings(4096), expected);
}

#[test]
fn an_rgb_picture_expands_to_opaque_rgba_pixels() {
    let png = rgb_png();
    let info = inspect_png(&png, ResourceLimits::default()).unwrap();
    let pixels = rgba8(&png, info, ResourceLimits::default()).unwrap();
    assert_eq!(pixels.len(), 16);
    assert!(pixels.iter().all(|p| *p == Rgba { r: 200, g: 100, b: 50, a: 255 }));
}

#[test]
fn an_rgba_buffer_over_the_decode_budget_is_refused_before_decoding() {
    let png = rgb_png();
    let info = inspect_png(&png, ResourceLimits::default()).unwrap();
    let mut limits = ResourceLimits::default();
    limits.max_decoded_bytes.0 = 63;
    assert!(matches!(
        rgba8(&png, info, limits),
        Err(ProcessingError::ResourceLimit("量化 RGBA 缓冲区"))
    ));
}

#[test]
fn the_quantizer_gets_the_expanded_pixels_size_and_gamma_and_its_palette_is_kept() {
    let png = rgb_png();
    let info = inspect_png(&png, ResourceLimits::default()).unwrap();
    let mapping = png_quality(QualityValue::new(80).unwrap());
    let seen = Cell::new((0u32, 0u32, 0u32, 0usize, false));
    let quantizer = |p: &Vec<Rgba>, w: u32, h: u32, g: u32, _m| {
        let uniform = p.iter().all(|x| *x == Rgba { r: 200, g: 100, b: 50, a: 255 });
        seen.set((w, h, g, p.len(), uniform));
        Ok(QuantizerOutput {
            palette: vec![Rgba { r: 200, g: 100, b: 50, a: 255 }],
            indices: vec![0u8; 16],
            measured_quality: Some(100),
        })
    };
    let attempt = quantize(&png, info, mapping, ResourceLimits::default(), &CancellationToken::new(), &quantizer).unwrap();
    assert_eq!(seen.get(), (4, 4, 45455, 16, true));
    match attempt {
        Attempt::Quantized { bytes, measured_quality } => {
            assert_eq!(measured_quality, 100);
            assert!(bytes.len() < png.len());
            let out = inspect_png(&bytes, ResourceLimits::default()).unwrap();
            assert_eq!((out.width, out.height, out.color_type), (4, 4, PngColorType::Indexed));
            let pixels = rgba8(&bytes, out, ResourceLimits::default()).unwrap();
            assert_eq!(pixels.len(), 16);
            assert!(pixels.iter().all(|x| *x == Rgba { r: 200, g: 100, b: 50, a: 255 }));
        }
        Attempt::Fallback(reason) => panic!("unexpected fallback {:?}", reason),
    }
}

fn answer(palette: Vec<Rgba>, indices: Vec<u8>, score: Option<u8>) -> QuantizerOutput {
    QuantizerOutput { palette, indices, measured_quality: score }
}

#[test]
fn the_first_failing_pixel_decides_between_the_guard_fallback_and_an_index_error() {
    let png = rgb_png();
    let info = inspect_png(&png, ResourceLimits::default()).unwrap();
    let mapping = png_quality(QualityValue::new(80).unwrap());
    let pixels = vec![Rgba { r: 200, g: 100, b: 50, a: 255 }; 16];
    let cancel = CancellationToken::new();
    let opaque = Rgba { r: 200, g: 100, b: 50, a: 255 };
    let translucent = Rgba { r: 200, g: 100, b: 50, a: 250 };
    // A palette entry that makes an opaque pixel translucent trips the guard.
    let mut indices = vec![0u8; 16];
    indices[3] = 1;
    indices[7] = 5;
    let guard = finish_quantization(&png, info, &pixels, mapping, ResourceLimits::default(), &cancel,
        answer(vec![opaque, translucent], indices.clone(), Some(95)));
    assert!(matches!(guard, Ok(Attempt::Fallback(LossyFallbackReason::TransparencyGuard))));
    // An out-of-range index before any guard failure is an error.
    indices[3] = 0;
    let out_of_range = finish_quantization(&png, info, &pixels, mapping, ResourceLimits::default(), &cancel,
        answer(vec![opaque, translucent], indices, Some(95)));
    assert!(matches!(out_of_range, Err(ProcessingError::ValidationFailed("量化索引越界"))));
    // A score below the target falls back before anything else is looked at.
    let low = finish_quantization(&png, info, &pixels, mapping, ResourceLimits::default(), &cancel,
        answer(vec![], vec![], Some(10)));
    assert!(matches!(low, Ok(Attempt::Fallback(LossyFallbackReason::QualityBelowTarget { measured: Some(10) }))));
    // A bad shape is an error.
    let shape = finish_quantization(&png, info, &pixels, mapping, ResourceLimits::default(), &cancel,
        answer(vec![opaque], vec![0u8; 15], Some(95)));
    assert!(matches!(shape, Err(ProcessingError::ValidationFailed("量化结果长度无效"))));
}

#[test]
fn a_recompressed_palette_image_no_smaller_than_the_source_is_no_benefit() {
    let png = rgb_png();
    let info = inspect_png(&png, ResourceLimits::default()).unwrap();
    let pixels = vec![Rgba { r: 200, g: 100, b: 50, a: 255 }; 16];
    let palette = vec![Rgba { r: 200, g: 100, b: 50, a: 255 }];
    let indices = vec![0u8; 16];
    let same_size = conclude_quantization(&png, info, &pixels, &palette, &indices, 90, ResourceLimits::default(), Ok(png.clone()));
    assert!(matches!(same_size, Ok(Attempt::Fallback(LossyFallbackReason::NoSizeBenefit))));
    let failed = conclude_quantization(&png, info, &pixels, &palette, &indices, 90, ResourceLimits::default(),
        Err(ProcessingError::Encode("x".to_string())));
    assert!(matches!(failed, Err(ProcessingError::Encode(m)) if m == "x"));
}
