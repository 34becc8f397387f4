//! Calls into the `png` crate: frame decoding with a bounded allocation budget,
//! and indexed-colour encoding. Everything around the calls is verified code.

use crate::model::PngColorType;
use std::io::Cursor;
use vstd::prelude::*;

verus! {

/// A `png::Reader` over an in-memory buffer: the decoder state after the
/// header has been read. Opaque; only the calls below use it.
#[verifier::external_body]
pub struct FrameReader<'a> {
    reader: png::Reader<Cursor<&'a [u8]>>,
}

/// Why the `png` decoder stopped.
#[derive(Debug, Clone, PartialEq, Eq)]
pub enum DecodeFault {
    /// The decoder's allocation budget would be exceeded.
    LimitsExceeded,
    /// Any other decoder error, by its message.
    Other(String),
}

/// What the decoder reports of a decoded frame.
#[derive(Debug, Clone, Copy, PartialEq, Eq, Structural)]
pub struct FrameInfo {
    pub width: u32,
    pub height: u32,
    pub color_type: PngColorType,
    pub bit_depth: u8,
    /// How many leading bytes of the buffer hold the frame.
    pub buffer_size: usize,
}

/// `png::Decoder::new` + `read_info`, with the given byte budget, no sample
/// transformation (packed low-bit samples and big-endian 16-bit samples are
/// kept), and text and ICC chunks left undecoded. Nothing is stated of the
/// decoder's state; its later calls report what it found.
#[verifier::external_body]
pub(crate) fn open_identity<'a>(data: &'a [u8], budget: usize) -> (r: Result<FrameReader<'a>, DecodeFault>) {
    let mut decoder = png::Decoder::new(Cursor::new(data));
    decoder.set_limits(png::Limits { bytes: budget });
    decoder.set_transformations(png::Transformations::IDENTITY);
    decoder.set_ignore_text_chunk(true);
    decoder.set_ignore_iccp_chunk(true);
    let reader = decoder.read_info().map_err(|e| match e {
        png::DecodingError::LimitsExceeded => DecodeFault::LimitsExceeded,
        other => DecodeFault::Other(other.to_string()),
    })?;
    Ok(FrameReader { reader })
}

/// As `open_identity`, but with `png::Transformations::EXPAND`: palettes,
/// low bit depths and `tRNS` are expanded to 8-bit grey/RGB samples with or
/// without alpha.
#[verifier::external_body]
pub(crate) fn open_expanded<'a>(data: &'a [u8], budget: usize) -> (r: Result<FrameReader<'a>, DecodeFault>) {
    let mut decoder = png::Decoder::new(Cursor::new(data));
    decoder.set_limits(png::Limits { bytes: budget });
    decoder.set_transformations(png::Transformations::EXPAND);
    decoder.set_ignore_text_chunk(true);
    decoder.set_ignore_iccp_chunk(true);
    let reader = decoder.read_info().map_err(|e| match e {
        png::DecodingError::LimitsExceeded => DecodeFault::LimitsExceeded,
        other => DecodeFault::Other(other.to_string()),
    })?;
    Ok(FrameReader { reader })
}

/// The colour type and samples of the first frame that the `png` crate's
/// decoder yields for these bytes when set up as [`open_expanded`] sets it up
/// (`Transformations::EXPAND`, text and ICC chunks ignored). The decoder is
/// deterministic, so this is a function of the bytes; the byte budget only
/// decides whether decoding succeeds.
pub uninterp spec fn png_expanded_frame(data: Seq<u8>) -> (PngColorType, Seq<u8>);

/// A reader opened by [`open_expanded`] on `source`, before any frame was read.
pub struct ExpandedReader<'a> {
    reader: FrameReader<'a>,
    source: Ghost<Seq<u8>>,
}

impl<'a> ExpandedReader<'a> {
    /// The bytes the reader decodes.
    pub closed spec fn source(&self) -> Seq<u8> {
        self.source@
    }

    /// The bytes one frame needs, as [`output_buffer_size`] reports them.
    pub(crate) fn buffer_size(&self) -> (r: Option<usize>) {
        output_buffer_size(&self.reader)
    }
}

/// Opens an expanding reader on `data`, remembering the bytes it decodes.
pub(crate) fn expanded_reader<'a>(data: &'a [u8], budget: usize) -> (r: Result<ExpandedReader<'a>, DecodeFault>)
    ensures
        r matches Ok(reader) ==> reader.source() == data@,
{
    match open_expanded(data, budget) {
        Ok(reader) => Ok(ExpandedReader { reader, source: Ghost(data@) }),
        Err(fault) => Err(fault),
    }
}

/// `png::Reader::next_frame` on a fresh expanding reader: the first frame,
/// whose samples fill the first `buffer_size` bytes of the buffer and whose
/// colour type is the expanded one; the buffer keeps its length. The reader
/// is handed back for [`finish`].
#[verifier::external_body]
pub(crate) fn next_expanded_frame<'a>(reader: ExpandedReader<'a>, buffer: &mut Vec<u8>) -> (r: (
    Result<FrameInfo, DecodeFault>,
    FrameReader<'a>,
))
    ensures
        final(buffer)@.len() == old(buffer)@.len(),
        r.0 matches Ok(f) ==> (f.buffer_size <= old(buffer)@.len() ==> {
            &&& final(buffer)@.subrange(0, f.buffer_size as int) == png_expanded_frame(reader.source()).1
            &&& f.color_type == png_expanded_frame(reader.source()).0
        }),
{
    let mut reader = reader.reader;
    let frame = match reader.reader.next_frame(buffer.as_mut_slice()) {
        Ok(frame) => frame,
        Err(png::DecodingError::LimitsExceeded) => return (Err(DecodeFault::LimitsExceeded), reader),
        Err(e) => return (Err(DecodeFault::Other(e.to_string())), reader),
    };
    let color_type = match frame.color_type {
        png::ColorType::Grayscale => PngColorType::Grayscale,
        png::ColorType::Rgb => PngColorType::Rgb,
        png::ColorType::Indexed => PngColorType::Indexed,
        png::ColorType::GrayscaleAlpha => PngColorType::GrayscaleAlpha,
        png::ColorType::Rgba => PngColorType::Rgba,
    };
    (Ok(FrameInfo { width: frame.width, height: frame.height, color_type, bit_depth: frame.bit_depth as u8, buffer_size: frame.buffer_size() }), reader)
}

/// `png::Reader::output_buffer_size`: the bytes one deinterlaced frame needs,
/// `None` when that does not fit the address space. The value depends on the
/// header the reader holds, which is not stated here.
#[verifier::external_body]
pub(crate) fn output_buffer_size(reader: &FrameReader) -> (r: Option<usize>) {
    reader.reader.output_buffer_size()
}

/// `png::Reader::next_frame` into the buffer; the buffer keeps its length.
/// The frame's samples written into it are not stated.
#[verifier::external_body]
pub(crate) fn next_frame(reader: &mut FrameReader, buffer: &mut Vec<u8>) -> (r: Result<
    FrameInfo,
    DecodeFault,
>)
    ensures
        final(buffer)@.len() == old(buffer)@.len(),
{
    let frame = reader.reader.next_frame(buffer.as_mut_slice()).map_err(|e| match e {
        png::DecodingError::LimitsExceeded => DecodeFault::LimitsExceeded,
        other => DecodeFault::Other(other.to_string()),
    })?;
    let color_type = match frame.color_type {
        png::ColorType::Grayscale => PngColorType::Grayscale,
        png::ColorType::Rgb => PngColorType::Rgb,
        png::ColorType::Indexed => PngColorType::Indexed,
        png::ColorType::GrayscaleAlpha => PngColorType::GrayscaleAlpha,
        png::ColorType::Rgba => PngColorType::Rgba,
    };
    let (width, height, bit_depth) = (frame.width, frame.height, frame.bit_depth as u8);
    Ok(FrameInfo { width, height, color_type, bit_depth, buffer_size: frame.buffer_size() })
}

/// `png::Reader::finish`: reads the rest of the stream up to IEND.
#[verifier::external_body]
pub(crate) fn finish(reader: &mut FrameReader) -> (r: Result<(), DecodeFault>) {
    reader.reader.finish().map_err(|e| match e {
        png::DecodingError::LimitsExceeded => DecodeFault::LimitsExceeded,
        other => DecodeFault::Other(other.to_string()),
    })
}

/// `Vec::try_reserve_exact`: whether the allocator granted room for `additional`
/// more items; the contents are unchanged either way. The answer depends on the
/// allocator and is not stated.
#[verifier::external_body]
pub(crate) fn try_reserve_exact(v: &mut Vec<u8>, additional: usize) -> (r: bool)
    ensures
        final(v)@ == old(v)@,
{
    v.try_reserve_exact(additional).is_ok()
}

} // verus!

verus! {

/// The bytes the `png` crate's encoder writes for an 8-bit indexed image with
/// the given size, RGB palette, optional alpha table (`tRNS`) and row-major
/// indices, using `Compression::Balanced`; `None` when the encoder refuses.
/// The encoder is deterministic, so this is a function of its arguments.
pub uninterp spec fn png_indexed_encoding(
    width: u32,
    height: u32,
    palette: Seq<u8>,
    alpha: Option<Seq<u8>>,
    indices: Seq<u8>,
) -> Option<Seq<u8>>;

/// `png::Encoder` for an 8-bit indexed image without an alpha table.
#[verifier::external_body]
pub(crate) fn encode_indexed(width: u32, height: u32, palette: &[u8], indices: &[u8]) -> (r: Result<
    Vec<u8>,
    String,
>)
    ensures
        r is Ok <==> png_indexed_encoding(width, height, palette@, None, indices@) is Some,
        r matches Ok(v) ==> png_indexed_encoding(width, height, palette@, None, indices@) == Some(
            v@,
        ),
{
    let mut bytes = Vec::new();
    let mut encoder = png::Encoder::new(&mut bytes, width, height);
    encoder.set_depth(png::BitDepth::Eight);
    encoder.set_color(png::ColorType::Indexed);
    encoder.set_compression(png::Compression::Balanced);
    encoder.set_palette(palette);
    let mut writer = encoder.write_header().map_err(|e| e.to_string())?;
    writer.write_image_data(indices).map_err(|e| e.to_string())?;
    writer.finish().map_err(|e| e.to_string())?;
    Ok(bytes)
}

/// `png::Encoder` for an 8-bit indexed image with an alpha table (`tRNS`).
#[verifier::external_body]
pub(crate) fn encode_indexed_alpha(
    width: u32,
    height: u32,
    palette: &[u8],
    alpha: &[u8],
    indices: &[u8],
) -> (r: Result<Vec<u8>, String>)
    ensures
        r is Ok <==> png_indexed_encoding(width, height, palette@, Some(alpha@), indices@) is Some,
        r matches Ok(v) ==> png_indexed_encoding(width, height, palette@, Some(alpha@), indices@)
            == Some(v@),
{
    let mut bytes = Vec::new();
    let mut encoder = png::Encoder::new(&mut bytes, width, height);
    encoder.set_depth(png::BitDepth::Eight);
    encoder.set_color(png::ColorType::Indexed);
    encoder.set_compression(png::Compression::Balanced);
    encoder.set_palette(palette);
    encoder.set_trns(alpha);
    let mut writer = encoder.write_header().map_err(|e| e.to_string())?;
    writer.write_image_data(indices).map_err(|e| e.to_string())?;
    writer.finish().map_err(|e| e.to_string())?;
    Ok(bytes)
}

} // verus!
