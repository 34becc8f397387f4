use pixofold_core::codecs::lossless::{check_metadata, remove_content_credentials};
use pixofold_core::model::{PngColorType, ProcessingError, ResourceLimits};
use pixofold_core::probe::{inspect_png, inspect_structure, parse_chunks, PngFault};

fn chunk(name: &[u8; 4], data: &[u8]) -> Vec<u8> {
    let mut out = Vec::new();
    out.extend_from_slice(&(data.len() as u32).to_be_bytes());
    out.extend_from_slice(name);
    out.extend_from_slice(data);
    let mut hasher = crc32fast::Hasher::new();
    hasher.update(name);
    hasher.update(data);
    out.extend_from_slice(&hasher.finalize().to_be_bytes());
    out
}

fn zlib_stored(raw: &[u8]) -> Vec<u8> {
    let mut out = vec![0x78, 0x01, 0x01];
    let len = raw.len() as u16;
    out.extend_from_slice(&len.to_le_bytes());
    out.extend_from_slice(&(!len).to_le_bytes());
    out.extend_from_slice(raw);
    let (mut a, mut b) = (1u32, 0u32);
    for byte in raw {
        a = (a + *byte as u32) % 65521;
        b = (b + a) % 65521;
    }
    out.extend_from_slice(&((b << 16) | a).to_be_bytes());
    out
}

/// A 2x2 8-bit RGB picture with the given extra chunks before IDAT.
fn rgb_png(extra: &[Vec<u8>]) -> Vec<u8> {
    let mut png = b"\x89PNG\r\n\x1a\n".to_vec();
    let mut ihdr = Vec::new();
    ihdr.extend_from_slice(&2u32.to_be_bytes());
    ihdr.extend_from_slice(&2u32.to_be_bytes());
    ihdr.extend_from_slice(&[8, 2, 0, 0, 0]);
    png.extend(chunk(b"IHDR", &ihdr));
    for c in extra {
        png.extend_from_slice(c);
    }
    let raw = [0u8, 255, 0, 0, 0, 255, 0, 0, 0, 0, 255, 255, 255, 255];
    png.extend(chunk(b"IDAT", &zlib_stored(&raw)));
    png.extend(chunk(b"IEND", &[]));
    png
}

#[test]
fn a_well_formed_png_is_inspected_and_decoded() {
    let png = rgb_png(&[]);
    let info = inspect_png(&png, ResourceLimits::default()).unwrap();
    assert_eq!((info.width, info.height, info.bit_depth), (2, 2, 8));
    assert_eq!(info.color_type, PngColorType::Rgb);
    assert!(!info.interlaced);
    assert_eq!(inspect_structure(&png, ResourceLimits::default()).unwrap(), info);
    let chunks = parse_chunks(&png).unwrap();
    assert_eq!(chunks.len(), 3);
}

#[test]
fn bounded_parser_handles_all_truncations_and_invalid_header_combinations() {
    let png = rgb_png(&[]);
    for end in 0..png.len() {
        assert!(inspect_png(&png[..end], ResourceLimits::default()).is_err(), "length {end}");
    }
    // Colour type 2 with bit depth 4 is not a valid combination.
    let mut bad = png.clone();
    bad[24] = 4;
    let crc = crc32fast::hash(&bad[12..29]);
    bad[29..33].copy_from_slice(&crc.to_be_bytes());
    assert!(matches!(inspect_png(&bad, ResourceLimits::default()), Err(ProcessingError::InvalidPng(_))));
    // A broken checksum is refused.
    let mut broken = png.clone();
    broken[16] ^= 1;
    assert_eq!(parse_chunks(&broken).unwrap_err(), PngFault::CrcMismatch);
    assert_eq!(parse_chunks(b"not a png").unwrap_err(), PngFault::MissingSignature);
}

#[test]
fn limits_are_checked_before_decoding() {
    let png = rgb_png(&[]);
    let mut limits = ResourceLimits::default();
    limits.max_input_bytes.0 = 10;
    assert!(matches!(inspect_png(&png, limits), Err(ProcessingError::ResourceLimit(_))));
    let mut limits = ResourceLimits::default();
    limits.max_dimension = 1;
    assert!(matches!(inspect_png(&png, limits), Err(ProcessingError::ResourceLimit(_))));
    let mut limits = ResourceLimits::default();
    limits.max_pixels = 0;
    assert!(matches!(inspect_png(&png, limits), Err(ProcessingError::InvalidLimits)));
}

#[test]
fn animation_and_unknown_critical_chunks_are_refused() {
    let actl = chunk(b"acTL", &[0, 0, 0, 1, 0, 0, 0, 0]);
    assert!(matches!(
        inspect_png(&rgb_png(&[actl]), ResourceLimits::default()),
        Err(ProcessingError::UnsupportedAnimation)
    ));
    let critical = chunk(b"ZZZZ", &[1, 2, 3]);
    assert!(inspect_png(&rgb_png(&[critical]), ResourceLimits::default()).is_err());
}

#[test]
fn content_credentials_are_detected_and_removed_with_nothing_else() {
    let text = chunk(b"tEXt", b"Title\0pic");
    let cabx = chunk(b"caBX", b"credentials");
    let with = rgb_png(&[text.clone(), cabx]);
    assert_eq!(check_metadata(&with).unwrap(), true);
    assert_eq!(check_metadata(&rgb_png(&[text.clone()])).unwrap(), false);
    let removed = remove_content_credentials(&with).unwrap();
    assert_eq!(removed, rgb_png(&[text]));
    let unknown = chunk(b"abCD", b"x");
    assert!(matches!(
        check_metadata(&rgb_png(&[unknown])),
        Err(ProcessingError::UnsupportedMetadata(_))
    ));
}
