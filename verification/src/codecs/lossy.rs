//! PNG palette quantization: builds an in-memory candidate and asks for the
//! lossless fallback when colour or transparency boundaries are not met. ICC/HDR
//! conversion and high-bit-depth reduction are not done; the colour meaning of
//! such inputs is never changed implicitly.

use super::lossless::{
    append_range, bytes_equal, encoded_of, has_idat, lemma_has_idat_push,
    optimize, spec_splice_idat,
};
use crate::model::{
    CancellationToken, ImageInfo, LossyFallbackReason, PngColorType, PngMode, PngProcessing,
    PngQualityMapping, ProcessingError, ResourceLimits,
};
use crate::pngcodec::{
    encode_indexed, encode_indexed_alpha, expanded_reader, finish, next_expanded_frame, png_expanded_frame,
    png_indexed_encoding, try_reserve_exact, DecodeFault,
};
use crate::probe::{
    be_u32, chunks, chunks_placed, idat, ihdr, iend, inspect_png, plte, spec_chunks,
    spec_inspect_structure, Chunk, ChunkName, DecodedPng,
};
use crate::quality::{png_quality, spec_png_quality};
use vstd::prelude::*;

verus! {

/// Largest alpha error a quantized pixel may have; the quality scale allows colour
/// loss but alpha is bounded separately so a low quality cannot flatten transparency.
pub const MAX_ALPHA_ERROR: u8 = 8;

/// An 8-bit RGBA pixel.
#[derive(Debug, Clone, Copy, PartialEq, Eq, Structural)]
pub struct Rgba {
    pub r: u8,
    pub g: u8,
    pub b: u8,
    pub a: u8,
}

/// The transparency guard: fully transparent and fully opaque pixels keep their
/// exact alpha; partial alpha stays partial and within `MAX_ALPHA_ERROR`.
pub open spec fn spec_alpha_acceptable(source: u8, output: u8) -> bool {
    if source == 0 {
        output == 0
    } else if source == 255 {
        output == 255
    } else {
        0 < output < 255 && (if source >= output {
            source - output
        } else {
            output - source
        }) <= 8
    }
}

/// Whether a quantized alpha value passes the transparency guard.
pub fn alpha_acceptable(source: u8, output: u8) -> (r: bool)
    ensures
        r == spec_alpha_acceptable(source, output),
{
    if source == 0 {
        output == 0
    } else if source == 255 {
        output == 255
    } else {
        let diff = if source >= output {
            source - output
        } else {
            output - source
        };
        output > 0 && output < 255 && diff <= MAX_ALPHA_ERROR
    }
}

/// The default transfer exponent, 0.45455, scaled by 100000.
pub open spec fn default_gamma() -> int {
    45455
}

/// Colour-management chunks whose conversion is not implemented.
pub open spec fn color_metadata_chunk(n: ChunkName) -> bool {
    ||| n == ChunkName(105, 67, 67, 80)  // iCCP
    ||| n == ChunkName(99, 72, 82, 77)  // cHRM
    ||| n == ChunkName(99, 73, 67, 80)  // cICP
    ||| n == ChunkName(109, 68, 67, 86)  // mDCV
    ||| n == ChunkName(99, 76, 76, 73)  // cLLI
}

/// Chunks that describe the original sample representation.
pub open spec fn representation_chunk(n: ChunkName) -> bool {
    ||| n == ChunkName(115, 66, 73, 84)  // sBIT
    ||| n == ChunkName(98, 75, 71, 68)  // bKGD
    ||| n == ChunkName(104, 73, 83, 84)  // hIST
    ||| n == ChunkName(115, 80, 76, 84)  // sPLT
}

pub open spec fn srgb() -> ChunkName {
    ChunkName(115, 82, 71, 66)
}

pub open spec fn gama() -> ChunkName {
    ChunkName(103, 65, 77, 65)
}

/// Reads the colour chunks in order, carrying the gamma so far (scaled by 100000)
/// and whether sRGB was seen; the first disqualifying chunk decides.
pub open spec fn gamma_scan(data: Seq<u8>, cs: Seq<Chunk>, gamma: int, has_srgb: bool) -> Result<
    int,
    LossyFallbackReason,
>
    decreases cs.len(),
{
    if cs.len() == 0 {
        if has_srgb && gamma != default_gamma() {
            Err(LossyFallbackReason::ColorMetadata)
        } else {
            Ok(gamma)
        }
    } else {
        let c = cs[0];
        let rest = cs.drop_first();
        if color_metadata_chunk(c.name) {
            Err(LossyFallbackReason::ColorMetadata)
        } else if representation_chunk(c.name) {
            Err(LossyFallbackReason::RepresentationMetadata)
        } else if c.name == srgb() {
            if c.length != 1 || data[c.start + 8] > 3 {
                Err(LossyFallbackReason::ColorMetadata)
            } else {
                gamma_scan(data, rest, gamma, true)
            }
        } else if c.name == gama() {
            if c.length != 4 {
                Err(LossyFallbackReason::ColorMetadata)
            } else {
                let g = be_u32(data, c.start + 8);
                if g == 0 || g >= 100000 {
                    Err(LossyFallbackReason::ColorMetadata)
                } else {
                    gamma_scan(data, rest, g, has_srgb)
                }
            }
        } else {
            gamma_scan(data, rest, gamma, has_srgb)
        }
    }
}

/// A chunk whose colour information a quantization can honour with the default
/// gamma 0.45455: a well-formed sRGB chunk (one byte, rendering intent 0 to 3), a
/// gAMA chunk of 45455, or any chunk that is none of iCCP, cHRM, cICP, mDCV,
/// cLLI, sBIT, bKGD, hIST, sPLT, sRGB or gAMA.
pub open spec fn default_gamma_chunk(data: Seq<u8>, c: Chunk) -> bool {
    let ChunkName(a, b, x, d) = c.name;
    let n = (a, b, x, d);
    if n == (115u8, 82u8, 71u8, 66u8) {
        c.length == 1 && data[c.start + 8] <= 3
    } else if n == (103u8, 65u8, 77u8, 65u8) {
        c.length == 4 && data[c.start + 8] as int * 0x100_0000 + data[c.start + 9] as int * 0x1_0000
            + data[c.start + 10] as int * 0x100 + data[c.start + 11] as int == 45455
    } else {
        n != (105u8, 67u8, 67u8, 80u8) && n != (99u8, 72u8, 82u8, 77u8) && n != (99u8, 73u8, 67u8, 80u8)
            && n != (109u8, 68u8, 67u8, 86u8) && n != (99u8, 76u8, 76u8, 73u8) && n != (115u8, 66u8, 73u8, 84u8)
            && n != (98u8, 75u8, 71u8, 68u8) && n != (104u8, 73u8, 83u8, 84u8) && n != (115u8, 80u8, 76u8, 84u8)
    }
}

/// A stream whose colour information is at most well-formed sRGB chunks and
/// gAMA chunks of 45455 is quantized with the gamma 0.45455, whether or not an
/// sRGB chunk was already seen.
pub proof fn law_srgb_streams_keep_the_default_gamma(data: Seq<u8>, cs: Seq<Chunk>, has_srgb: bool)
    requires
        forall|i: int| 0 <= i < cs.len() ==> default_gamma_chunk(data, #[trigger] cs[i]),
    ensures
        gamma_scan(data, cs, 45455, has_srgb) == Ok::<int, LossyFallbackReason>(45455),
    decreases cs.len(),
{
    if cs.len() > 0 {
        assert(default_gamma_chunk(data, cs[0]));
        assert forall|i: int| 0 <= i < cs.drop_first().len() implies default_gamma_chunk(
            data,
            #[trigger] cs.drop_first()[i],
        ) by {
            assert(cs.drop_first()[i] == cs[i + 1]);
        }
        law_srgb_streams_keep_the_default_gamma(data, cs.drop_first(), true);
        law_srgb_streams_keep_the_default_gamma(data, cs.drop_first(), has_srgb);
    }
}

/// An sRGB chunk that is not one byte long or names a rendering intent above 3
/// makes the quantization fall back as colour-managed when it is reached.
pub proof fn law_malformed_srgb_falls_back(data: Seq<u8>, cs: Seq<Chunk>, gamma: int, has_srgb: bool)
    requires
        cs.len() > 0,
        cs[0].name == ChunkName(115, 82, 71, 66),
        cs[0].length != 1 || data[cs[0].start + 8] > 3,
    ensures
        gamma_scan(data, cs, gamma, has_srgb) == Err::<int, LossyFallbackReason>(LossyFallbackReason::ColorMetadata),
{
}

fn is_color_metadata_chunk(n: ChunkName) -> (r: bool)
    ensures
        r == color_metadata_chunk(n),
{
    n.is_type(105, 67, 67, 80) || n.is_type(99, 72, 82, 77) || n.is_type(99, 73, 67, 80)
        || n.is_type(109, 68, 67, 86) || n.is_type(99, 76, 76, 73)
}

fn is_representation_chunk(n: ChunkName) -> (r: bool)
    ensures
        r == representation_chunk(n),
{
    n.is_type(115, 66, 73, 84) || n.is_type(98, 75, 71, 68) || n.is_type(104, 73, 83, 84)
        || n.is_type(115, 80, 76, 84)
}

/// The input transfer exponent, scaled by 100000 (gAMA, default 0.45455), or
/// the reason the image must fall back: colour-managed or representation
/// metadata, a malformed sRGB/gAMA, an exponent outside (0, 1), or sRGB with a
/// gamma other than 0.45455.
pub fn input_gamma(data: &[u8]) -> (r: Result<Result<u32, LossyFallbackReason>, ProcessingError>)
    ensures
        spec_chunks(data@) matches Err(f) ==> r matches Err(e) && e
            == crate::probe::spec_fault_error(f),
        spec_chunks(data@) matches Ok(cs) ==> r matches Ok(g) && match gamma_scan(
            data@,
            cs,
            default_gamma(),
            false,
        ) {
            Ok(v) => g matches Ok(x) && x as int == v,
            Err(reason) => g == Err::<u32, LossyFallbackReason>(reason),
        },
        match spec_chunks(data@) {
            Ok(cs) => (forall|i: int| 0 <= i < cs.len() ==> default_gamma_chunk(data@, #[trigger] cs[i]))
                ==> r == Ok::<Result<u32, LossyFallbackReason>, ProcessingError>(Ok(45455)),
            Err(_) => true,
        },
{
    proof {
        if spec_chunks(data@) is Ok {
            let cs = spec_chunks(data@)->Ok_0;
            if forall|i: int| 0 <= i < cs.len() ==> default_gamma_chunk(data@, #[trigger] cs[i]) {
                law_srgb_streams_keep_the_default_gamma(data@, cs, false);
            }
        }
    }
    let cs = chunks(data)?;
    let mut gamma: u32 = 45455;
    let mut has_srgb = false;
    let mut i: usize = 0;
    assert(cs@.skip(0) =~= cs@);
    while i < cs.len()
        invariant
            chunks_placed(data@, cs@),
            spec_chunks(data@) == Ok::<Seq<Chunk>, crate::probe::PngFault>(cs@),
            0 <= i <= cs@.len(),
            gamma_scan(data@, cs@, default_gamma(), false) == gamma_scan(
                data@,
                cs@.skip(i as int),
                gamma as int,
                has_srgb,
            ),
        decreases cs@.len() - i,
    {
        let c = cs[i];
        proof {
            assert(cs@.skip(i as int)[0] == cs@[i as int]);
            assert(cs@.skip(i as int).drop_first() =~= cs@.skip(i + 1));
            assert(8 <= cs@[i as int].start && cs@[i as int].end() <= data@.len());
            assert(c == cs@[i as int]);
            assert(data@.len() == data.len());
        }
        if is_color_metadata_chunk(c.name) {
            return Ok(Err(LossyFallbackReason::ColorMetadata));
        } else if is_representation_chunk(c.name) {
            return Ok(Err(LossyFallbackReason::RepresentationMetadata));
        } else if c.name.is_type(115, 82, 71, 66) {
            if c.length != 1 || data[c.start + 8] > 3 {
                return Ok(Err(LossyFallbackReason::ColorMetadata));
            }
            has_srgb = true;
        } else if c.name.is_type(103, 65, 77, 65) {
            if c.length != 4 {
                return Ok(Err(LossyFallbackReason::ColorMetadata));
            }
            let g = crate::probe::read_be_u32(data, c.start + 8);
            if g == 0 || g >= 100000 {
                return Ok(Err(LossyFallbackReason::ColorMetadata));
            }
            gamma = g;
        }
        i += 1;
    }
    if has_srgb && gamma != 45455 {
        return Ok(Err(LossyFallbackReason::ColorMetadata));
    }
    Ok(Ok(gamma))
}

/// Samples per pixel of an expanded frame's colour type; indexed frames are not expanded.
pub open spec fn expanded_channels(t: PngColorType) -> int {
    match t {
        PngColorType::Grayscale => 1,
        PngColorType::GrayscaleAlpha => 2,
        PngColorType::Rgb => 3,
        PngColorType::Rgba => 4,
        PngColorType::Indexed => 0,
    }
}

/// The pixel at `i` of expanded 8-bit samples of the given colour type.
pub open spec fn expanded_pixel(raw: Seq<u8>, t: PngColorType, i: int) -> Rgba {
    let c = expanded_channels(t);
    let p = i * c;
    match t {
        PngColorType::Grayscale => Rgba { r: raw[p], g: raw[p], b: raw[p], a: 255 },
        PngColorType::GrayscaleAlpha => Rgba { r: raw[p], g: raw[p], b: raw[p], a: raw[p + 1] },
        PngColorType::Rgb => Rgba { r: raw[p], g: raw[p + 1], b: raw[p + 2], a: 255 },
        _ => Rgba { r: raw[p], g: raw[p + 1], b: raw[p + 2], a: raw[p + 3] },
    }
}

/// Pixel `i` of 8-bit samples of colour type `t` is `p`: grey is copied into
/// red, green and blue; colour samples are copied in order; the alpha is the
/// frame's alpha sample when the colour type carries one, and opaque otherwise.
pub open spec fn samples_kept(raw: Seq<u8>, t: PngColorType, i: int, p: Rgba) -> bool {
    match t {
        PngColorType::Grayscale => p.r == raw[i] && p.g == raw[i] && p.b == raw[i] && p.a == 255,
        PngColorType::GrayscaleAlpha => p.r == raw[2 * i] && p.g == raw[2 * i] && p.b == raw[2 * i]
            && p.a == raw[2 * i + 1],
        PngColorType::Rgb => p.r == raw[3 * i] && p.g == raw[3 * i + 1] && p.b == raw[3 * i + 2] && p.a == 255,
        PngColorType::Rgba => p.r == raw[4 * i] && p.g == raw[4 * i + 1] && p.b == raw[4 * i + 2]
            && p.a == raw[4 * i + 3],
        PngColorType::Indexed => true,
    }
}

/// Expanding keeps every sample: the colour samples of pixel `i` and, for the
/// colour types with alpha, its alpha sample; only alpha-free types become opaque.
pub proof fn law_expanded_pixel_keeps_samples(raw: Seq<u8>, t: PngColorType, i: int)
    ensures
        samples_kept(raw, t, i, expanded_pixel(raw, t, i)),
{
}

/// The RGBA pixels of a PNG's first frame: its expanded 8-bit samples, one
/// pixel per whole group of samples.
pub open spec fn source_pixels(data: Seq<u8>) -> Seq<Rgba> {
    let (t, raw) = png_expanded_frame(data);
    Seq::new((raw.len() as int / expanded_channels(t)) as nat, |i: int| expanded_pixel(raw, t, i))
}

/// The pixels handed to the quantizer keep the decoded frame's samples,
/// alpha included, pixel by pixel.
pub proof fn law_source_pixels_keep_samples(data: Seq<u8>)
    ensures
        forall|i: int| 0 <= i < source_pixels(data).len() ==> samples_kept(
            png_expanded_frame(data).1,
            png_expanded_frame(data).0,
            i,
            #[trigger] source_pixels(data)[i],
        ),
{
    let (t, raw) = png_expanded_frame(data);
    assert forall|i: int| 0 <= i < source_pixels(data).len() implies samples_kept(
        raw,
        t,
        i,
        #[trigger] source_pixels(data)[i],
    ) by {
        law_expanded_pixel_keeps_samples(raw, t, i);
    }
}

/// Expands 8-bit grey/RGB samples with or without alpha into RGBA pixels, one
/// per whole group of samples (a trailing partial group is ignored).
pub fn expand_samples(raw: &[u8], t: PngColorType) -> (r: Vec<Rgba>)
    requires
        t != PngColorType::Indexed,
    ensures
        r@.len() == raw@.len() as int / expanded_channels(t),
        forall|i: int| 0 <= i < r@.len() ==> #[trigger] r@[i] == expanded_pixel(raw@, t, i),
        forall|i: int| 0 <= i < r@.len() ==> samples_kept(raw@, t, i, #[trigger] r@[i]),
{
    proof {
        assert forall|i: int| 0 <= i < raw@.len() as int / expanded_channels(t) implies samples_kept(
            raw@,
            t,
            i,
            expanded_pixel(raw@, t, i),
        ) by {
            law_expanded_pixel_keeps_samples(raw@, t, i);
        }
    }
    let channels: usize = match t {
        PngColorType::Grayscale => 1,
        PngColorType::GrayscaleAlpha => 2,
        PngColorType::Rgb => 3,
        _ => 4,
    };
    let count = raw.len() / channels;
    assert(raw@.len() == raw.len());
    let mut pixels: Vec<Rgba> = Vec::new();
    let mut i: usize = 0;
    while i < count
        invariant
            channels as int == expanded_channels(t),
            1 <= channels <= 4,
            raw@.len() <= usize::MAX,
            count == raw@.len() as int / channels as int,
            0 <= i <= count,
            pixels@.len() == i,
            forall|k: int| 0 <= k < i ==> #[trigger] pixels@[k] == expanded_pixel(raw@, t, k),
        decreases count - i,
    {
        assert((i as int) * (channels as int) + (channels as int) <= raw@.len()) by (nonlinear_arith)
            requires
                i < count,
                count == raw@.len() as int / channels as int,
                1 <= channels,
        ;
        let p = i * channels;
        let pixel = match t {
            PngColorType::Grayscale => Rgba { r: raw[p], g: raw[p], b: raw[p], a: 255 },
            PngColorType::GrayscaleAlpha => Rgba {
                r: raw[p],
                g: raw[p],
                b: raw[p],
                a: raw[p + 1],
            },
            PngColorType::Rgb => Rgba { r: raw[p], g: raw[p + 1], b: raw[p + 2], a: 255 },
            _ => Rgba { r: raw[p], g: raw[p + 1], b: raw[p + 2], a: raw[p + 3] },
        };
        pixels.push(pixel);
        i += 1;
    }
    pixels
}

} // verus!

verus! {

pub open spec fn trns() -> ChunkName {
    ChunkName(116, 82, 78, 83)
}

/// Source chunks before the IDAT run, without the colour-type-bound IHDR/PLTE/tRNS.
pub open spec fn kept_before(data: Seq<u8>, cs: Seq<Chunk>) -> Seq<u8>
    decreases cs.len(),
{
    if cs.len() == 0 {
        Seq::empty()
    } else {
        let n = cs.last().name;
        kept_before(data, cs.drop_last()) + if !has_idat(cs) && n != ihdr() && n != plte() && n
            != trns() {
            cs.last().encoded(data)
        } else {
            Seq::empty()
        }
    }
}

/// Source chunks from the IDAT run on, without IDAT/IEND/PLTE/tRNS.
pub open spec fn kept_after(data: Seq<u8>, cs: Seq<Chunk>) -> Seq<u8>
    decreases cs.len(),
{
    if cs.len() == 0 {
        Seq::empty()
    } else {
        let n = cs.last().name;
        kept_after(data, cs.drop_last()) + if has_idat(cs) && n != idat() && n != iend() && n
            != plte() && n != trns() {
            cs.last().encoded(data)
        } else {
            Seq::empty()
        }
    }
}

/// The palette image's chunks other than IHDR and IEND.
pub open spec fn palette_body(data: Seq<u8>, cs: Seq<Chunk>) -> Seq<u8>
    decreases cs.len(),
{
    if cs.len() == 0 {
        Seq::empty()
    } else {
        let n = cs.last().name;
        palette_body(data, cs.drop_last()) + if n != ihdr() && n != iend() {
            cs.last().encoded(data)
        } else {
            Seq::empty()
        }
    }
}

/// The palette image with the source's metadata: the palette image's signature
/// and IHDR, the source's chunks that preceded its IDAT run, the palette image's
/// PLTE/tRNS/IDAT, the source's chunks after its IDAT run, and IEND. PLTE and
/// tRNS always come from the quantizer.
pub open spec fn spec_merge_metadata(original: Seq<u8>, encoded: Seq<u8>) -> Result<
    Seq<u8>,
    ProcessingError,
> {
    match spec_chunks(original) {
        Err(f) => Err(crate::probe::spec_fault_error(f)),
        Ok(src) => match spec_chunks(encoded) {
            Err(f) => Err(crate::probe::spec_fault_error(f)),
            Ok(pal) => Ok(
                encoded.subrange(0, 8) + pal[0].encoded(encoded) + kept_before(original, src)
                    + palette_body(encoded, pal) + kept_after(original, src) + pal.last().encoded(
                    encoded,
                ),
            ),
        },
    }
}

fn is_plte_or_trns(n: ChunkName) -> (r: bool)
    ensures
        r == (n == plte() || n == trns()),
{
    n.is_type(80, 76, 84, 69) || n.is_type(116, 82, 78, 83)
}

/// Re-attaches the source's metadata to the quantizer's palette image.
pub fn merge_metadata(original: &[u8], encoded: &[u8]) -> (r: Result<Vec<u8>, ProcessingError>)
    ensures
        r matches Ok(v) ==> spec_merge_metadata(original@, encoded@) == Ok::<
            Seq<u8>,
            ProcessingError,
        >(v@),
        r matches Err(e) ==> spec_merge_metadata(original@, encoded@) == Err::<
            Seq<u8>,
            ProcessingError,
        >(e),
{
    let source = chunks(original)?;
    let palette_png = chunks(encoded)?;
    let mut output: Vec<u8> = Vec::new();
    append_range(&mut output, encoded, 0, 8);
    output.extend_from_slice(encoded_of(encoded, &palette_png, 0));
    let ghost head = output@;
    let mut past_idat = false;
    let mut i: usize = 0;
    while i < source.len()
        invariant
            chunks_placed(original@, source@),
            0 <= i <= source@.len(),
            past_idat == has_idat(source@.take(i as int)),
            output@ == head + kept_before(original@, source@.take(i as int)),
        decreases source@.len() - i,
    {
        let ghost prefix = source@.take(i as int);
        proof {
            assert(source@.take(i + 1).drop_last() =~= prefix);
            assert(source@.take(i + 1) =~= prefix.push(source@[i as int]));
            lemma_has_idat_push(prefix, source@[i as int]);
        }
        let name = source[i].name;
        if name.is_type(73, 68, 65, 84) {
            past_idat = true;
        }
        if !past_idat && !name.is_type(73, 72, 68, 82) && !is_plte_or_trns(name) {
            output.extend_from_slice(encoded_of(original, &source, i));
        }
        proof {
            assert(output@ =~= head + kept_before(original@, source@.take(i + 1)));
        }
        i += 1;
    }
    assert(source@.take(source@.len() as int) =~= source@);
    let ghost mid = output@;
    let mut j: usize = 0;
    while j < palette_png.len()
        invariant
            chunks_placed(encoded@, palette_png@),
            0 <= j <= palette_png@.len(),
            output@ == mid + palette_body(encoded@, palette_png@.take(j as int)),
        decreases palette_png@.len() - j,
    {
        proof {
            assert(palette_png@.take(j + 1).drop_last() =~= palette_png@.take(j as int));
        }
        let name = palette_png[j].name;
        if !name.is_type(73, 72, 68, 82) && !name.is_type(73, 69, 78, 68) {
            output.extend_from_slice(encoded_of(encoded, &palette_png, j));
        }
        proof {
            assert(output@ =~= mid + palette_body(encoded@, palette_png@.take(j + 1)));
        }
        j += 1;
    }
    assert(palette_png@.take(palette_png@.len() as int) =~= palette_png@);
    let ghost tail_start = output@;
    past_idat = false;
    i = 0;
    while i < source.len()
        invariant
            chunks_placed(original@, source@),
            0 <= i <= source@.len(),
            past_idat == has_idat(source@.take(i as int)),
            output@ == tail_start + kept_after(original@, source@.take(i as int)),
        decreases source@.len() - i,
    {
        let ghost prefix = source@.take(i as int);
        proof {
            assert(source@.take(i + 1).drop_last() =~= prefix);
            assert(source@.take(i + 1) =~= prefix.push(source@[i as int]));
            lemma_has_idat_push(prefix, source@[i as int]);
        }
        let name = source[i].name;
        if name.is_type(73, 68, 65, 84) {
            past_idat = true;
        }
        if past_idat && !name.is_type(73, 68, 65, 84) && !name.is_type(73, 69, 78, 68)
            && !is_plte_or_trns(name) {
            output.extend_from_slice(encoded_of(original, &source, i));
        }
        proof {
            assert(output@ =~= tail_start + kept_after(original@, source@.take(i + 1)));
        }
        i += 1;
    }
    let last = palette_png.len() - 1;
    output.extend_from_slice(encoded_of(encoded, &palette_png, last));
    assert(output@ =~= encoded@.subrange(0, 8) + palette_png@[0].encoded(encoded@) + kept_before(
        original@,
        source@,
    ) + palette_body(encoded@, palette_png@) + kept_after(original@, source@)
        + palette_png@.last().encoded(encoded@));
    Ok(output)
}

} // verus!

verus! {

/// The palette's RGB triples, flattened.
pub open spec fn palette_rgb(p: Seq<Rgba>) -> Seq<u8>
    decreases p.len(),
{
    if p.len() == 0 {
        Seq::empty()
    } else {
        palette_rgb(p.drop_last()) + seq![p.last().r, p.last().g, p.last().b]
    }
}

/// The palette's alpha values.
pub open spec fn palette_alpha(p: Seq<Rgba>) -> Seq<u8> {
    Seq::new(p.len(), |i: int| p[i].a)
}

/// Some palette entry is not fully opaque.
pub open spec fn has_translucent(p: Seq<Rgba>) -> bool {
    exists|i: int| 0 <= i < p.len() && #[trigger] p[i].a != 255
}

/// The palette image the encoder yields: an alpha table only when an entry is translucent.
pub open spec fn spec_palette_encoding(info: ImageInfo, p: Seq<Rgba>, indices: Seq<u8>) -> Option<
    Seq<u8>,
> {
    png_indexed_encoding(
        info.width,
        info.height,
        palette_rgb(p),
        if has_translucent(p) {
            Some(palette_alpha(p))
        } else {
            None
        },
        indices,
    )
}

/// Encodes the quantized palette and indices as an 8-bit indexed PNG.
pub fn encode_palette(info: ImageInfo, palette: &Vec<Rgba>, indices: &Vec<u8>) -> (r: Result<
    Vec<u8>,
    ProcessingError,
>)
    ensures
        r matches Ok(v) ==> spec_palette_encoding(info, palette@, indices@) == Some(v@),
        r matches Err(e) ==> e is Encode && spec_palette_encoding(info, palette@, indices@) is None,
{
    let mut rgb: Vec<u8> = Vec::new();
    let mut alpha: Vec<u8> = Vec::new();
    let mut translucent = false;
    let mut i: usize = 0;
    while i < palette.len()
        invariant
            0 <= i <= palette@.len(),
            rgb@ == palette_rgb(palette@.take(i as int)),
            alpha@ =~= palette_alpha(palette@.take(i as int)),
            translucent == has_translucent(palette@.take(i as int)),
        decreases palette@.len() - i,
    {
        let p = palette[i];
        proof {
            assert(palette@.take(i + 1).drop_last() =~= palette@.take(i as int));
            assert(palette@.take(i + 1).last() == palette@[i as int]);
            if has_translucent(palette@.take(i + 1)) {
                let k = choose|k: int|
                    0 <= k < i + 1 && #[trigger] palette@.take(i + 1)[k].a != 255;
                if k < i {
                    assert(palette@.take(i as int)[k] == palette@[k]);
                }
            }
            if translucent {
                let k = choose|k: int| 0 <= k < i && #[trigger] palette@.take(i as int)[k].a != 255;
                assert(palette@.take(i + 1)[k] == palette@[k]);
            }
            if p.a != 255 {
                assert(palette@.take(i + 1)[i as int] == palette@[i as int]);
            }
        }
        rgb.push(p.r);
        rgb.push(p.g);
        rgb.push(p.b);
        alpha.push(p.a);
        if p.a != 255 {
            translucent = true;
        }
        proof {
            assert(rgb@ =~= palette_rgb(palette@.take(i + 1)));
        }
        i += 1;
    }
    assert(palette@.take(palette@.len() as int) =~= palette@);
    let encoded = if translucent {
        encode_indexed_alpha(info.width, info.height, rgb.as_slice(), alpha.as_slice(), indices.as_slice())
    } else {
        encode_indexed(info.width, info.height, rgb.as_slice(), indices.as_slice())
    };
    match encoded {
        Ok(bytes) => Ok(bytes),
        Err(message) => Err(ProcessingError::Encode(message)),
    }
}

fn quantize_decode_error(f: DecodeFault) -> (r: ProcessingError)
    ensures
        f is LimitsExceeded ==> r == ProcessingError::ResourceLimit("量化解码器"),
        f matches DecodeFault::Other(m) ==> r == ProcessingError::Decode(m),
{
    match f {
        DecodeFault::LimitsExceeded => ProcessingError::ResourceLimit("量化解码器"),
        DecodeFault::Other(message) => ProcessingError::Decode(message),
    }
}

/// Decodes a PNG expanded to 8-bit RGBA pixels for the quantizer, within the
/// decode budget: the RGBA buffer, the expanded frame and its allocation are
/// each bounded; the frame must be 8-bit, non-indexed and of the expected size.
pub fn rgba8(data: &[u8], info: ImageInfo, limits: ResourceLimits) -> (r: Result<
    Vec<Rgba>,
    ProcessingError,
>)
    requires
        limits.spec_valid(),
    ensures
        r matches Ok(v) ==> info.width * info.height * 4 <= limits.max_decoded_bytes.0
            && v@.len() <= limits.max_decoded_bytes.0,
        r matches Ok(v) ==> v@ == source_pixels(data@),
        info.width * info.height * 4 > limits.max_decoded_bytes.0 ==> (r matches Err(e) && e
            == ProcessingError::ResourceLimit("量化 RGBA 缓冲区")),
{
    assert(info.width as int * info.height as int <= 0xffff_ffff * 0xffff_ffff) by (nonlinear_arith)
        requires
            info.width <= 0xffff_ffff,
            info.height <= 0xffff_ffff,
    ;
    let area = info.width as u64 * info.height as u64;
    if area > limits.max_decoded_bytes.0 / 4 {
        return Err(ProcessingError::ResourceLimit("量化 RGBA 缓冲区"));
    }
    let budget = limits.max_decoded_bytes.0 as usize;
    let opened = match expanded_reader(data, budget) {
        Ok(reader) => reader,
        Err(fault) => return Err(quantize_decode_error(fault)),
    };
    let size = match opened.buffer_size() {
        Some(size) => size,
        None => return Err(ProcessingError::ResourceLimit("展开 PNG 缓冲区")),
    };
    if size as u64 > limits.max_decoded_bytes.0 {
        return Err(ProcessingError::ResourceLimit("展开 PNG 缓冲区"));
    }
    let mut raw: Vec<u8> = Vec::new();
    if !try_reserve_exact(&mut raw, size) {
        return Err(ProcessingError::ResourceLimit("展开 PNG 内存"));
    }
    raw.resize(size, 0);
    let (read, mut reader) = next_expanded_frame(opened, &mut raw);
    let frame = match read {
        Ok(frame) => frame,
        Err(fault) => return Err(quantize_decode_error(fault)),
    };
    if let Err(fault) = finish(&mut reader) {
        return Err(quantize_decode_error(fault));
    }
    if frame.bit_depth != 8 || frame.width != info.width || frame.height != info.height
        || frame.buffer_size > raw.len() {
        return Err(ProcessingError::ValidationFailed("展开 PNG 格式不符合量化边界"));
    }
    if frame.color_type == PngColorType::Indexed {
        return Err(ProcessingError::ValidationFailed("PNG 索引色未展开"));
    }
    raw.truncate(frame.buffer_size);
    let pixels = expand_samples(raw.as_slice(), frame.color_type);
    assert(pixels@ =~= source_pixels(data@));
    assert(pixels@.len() <= limits.max_decoded_bytes.0) by (nonlinear_arith)
        requires
            pixels@.len() == raw@.len() as int / expanded_channels(frame.color_type),
            1 <= expanded_channels(frame.color_type) <= 4,
            raw@.len() <= size,
            size <= limits.max_decoded_bytes.0,
    {
    }
    Ok(pixels)
}

} // verus!

verus! {

/// What the palette quantizer produced: the palette, one index per pixel, and its
/// own remapping score if it computed one.
pub struct QuantizerOutput {
    pub palette: Vec<Rgba>,
    pub indices: Vec<u8>,
    pub measured_quality: Option<u8>,
}

/// The outcome of a quantization attempt.
pub enum Attempt {
    Quantized { bytes: Vec<u8>, measured_quality: u8 },
    Fallback(LossyFallbackReason),
}

/// The candidate handed to validation: its bytes and the path actually taken.
pub struct Candidate {
    pub bytes: Vec<u8>,
    pub processing: PngProcessing,
}

/// The quantizer's score reached the mapping's target.
pub open spec fn quality_met(measured: Option<u8>, target: u8) -> bool {
    measured matches Some(m) && m >= target
}

/// Pixel `k` has an in-range index whose palette entry passes the transparency guard.
pub open spec fn guard_ok(pixels: Seq<Rgba>, palette: Seq<Rgba>, indices: Seq<u8>, k: int) -> bool {
    indices[k] < palette.len() && spec_alpha_acceptable(pixels[k].a, palette[indices[k] as int].a)
}

/// Every pixel passes up to `n`.
pub open spec fn guard_ok_upto(pixels: Seq<Rgba>, palette: Seq<Rgba>, indices: Seq<u8>, n: int) -> bool {
    forall|k: int| 0 <= k < n ==> #[trigger] guard_ok(pixels, palette, indices, k)
}

/// Pixel `k` is the first pixel that fails: its index is out of range or its
/// palette entry fails the transparency guard, while every earlier pixel passes.
pub open spec fn first_failure(pixels: Seq<Rgba>, palette: Seq<Rgba>, indices: Seq<u8>, k: int) -> bool {
    &&& 0 <= k < pixels.len()
    &&& guard_ok_upto(pixels, palette, indices, k)
    &&& !guard_ok(pixels, palette, indices, k)
}

/// The quantizer's output has a usable shape.
pub open spec fn shape_ok(pixels: Seq<Rgba>, q: QuantizerOutput) -> bool {
    0 < q.palette@.len() <= 256 && q.indices@.len() == pixels.len()
}

/// A lossless recompression of `source` (see `optimize`).
pub open spec fn recompression_of(source: Seq<u8>, out: Seq<u8>) -> bool {
    exists|enc: Seq<u8>| spec_splice_idat(source, enc) == Ok::<Seq<u8>, ProcessingError>(out)
}

/// Checks every quantized pixel in order: the first pixel with an out-of-range
/// index is an error; the first whose palette alpha fails the transparency guard
/// gives `false`; `true` when all pass.
pub fn check_quantized(pixels: &Vec<Rgba>, palette: &Vec<Rgba>, indices: &Vec<u8>) -> (r: Result<
    bool,
    ProcessingError,
>)
    requires
        indices@.len() == pixels@.len(),
    ensures
        r matches Ok(true) ==> guard_ok_upto(pixels@, palette@, indices@, pixels@.len() as int),
        r matches Ok(false) ==> exists|k: int|
            0 <= k < pixels@.len() && guard_ok_upto(pixels@, palette@, indices@, k)
                && indices@[k] < palette@.len() && !guard_ok(pixels@, palette@, indices@, k),
        r matches Err(e) ==> e == ProcessingError::ValidationFailed("量化索引越界") && exists|k: int|
            0 <= k < pixels@.len() && guard_ok_upto(pixels@, palette@, indices@, k) && indices@[k]
                >= palette@.len(),
{
    let mut k: usize = 0;
    while k < pixels.len()
        invariant
            indices@.len() == pixels@.len(),
            0 <= k <= pixels@.len(),
            guard_ok_upto(pixels@, palette@, indices@, k as int),
        decreases pixels@.len() - k,
    {
        let index = indices[k] as usize;
        if index >= palette.len() {
            return Err(ProcessingError::ValidationFailed("量化索引越界"));
        }
        if !alpha_acceptable(pixels[k].a, palette[index].a) {
            return Ok(false);
        }
        proof {
            assert(guard_ok(pixels@, palette@, indices@, k as int));
            assert forall|j: int| 0 <= j < k + 1 implies #[trigger] guard_ok(
                pixels@,
                palette@,
                indices@,
                j,
            ) by {
                if j < k {
                    assert(guard_ok(pixels@, palette@, indices@, j));
                }
            }
        }
        k += 1;
    }
    Ok(true)
}

/// The palette image that a quantization is recompressed from: the palette
/// encoding of the indices with the source's metadata merged in.
pub open spec fn merged_palette_image(data: Seq<u8>, info: ImageInfo, q: QuantizerOutput) -> Option<Seq<u8>> {
    match spec_palette_encoding(info, q.palette@, q.indices@) {
        Some(encoded) => match spec_merge_metadata(data, encoded) {
            Ok(merged) => Some(merged),
            Err(_) => None,
        },
        None => None,
    }
}

/// What an adopted quantization of `data` with the output `q` is: the
/// recompressed palette image, smaller than the source, that inspects as an
/// indexed image of the source's size and decodes to exactly the quantized pixels.
pub open spec fn adopted(
    data: Seq<u8>,
    info: ImageInfo,
    pixels: Seq<Rgba>,
    limits: ResourceLimits,
    q: QuantizerOutput,
    bytes: Seq<u8>,
) -> bool {
    &&& bytes.len() < data.len()
    &&& merged_palette_image(data, info, q) matches Some(merged) && recompression_of(merged, bytes)
    &&& spec_inspect_structure(bytes, limits) matches Ok(out) && out.width == info.width
        && out.height == info.height && out.color_type == PngColorType::Indexed
    &&& source_pixels(bytes).len() == pixels.len()
    &&& forall|k: int| 0 <= k < pixels.len() ==> #[trigger] source_pixels(bytes)[k]
        == q.palette@[q.indices@[k] as int]
    &&& forall|k: int| 0 <= k < pixels.len() ==> spec_alpha_acceptable(
        pixels[k].a,
        #[trigger] source_pixels(bytes)[k].a,
    )
}

/// How a quantizer output `q` for `pixels` ends, decided in this order: a score
/// below the target falls back; a bad shape is an error; the first failing pixel
/// decides between an out-of-range index (an error) and the transparency guard (a
/// fallback); a passing output is encoded, recompressed and either adopted, found
/// no smaller than the source, or refused with an error.
pub open spec fn finish_outcome(
    data: Seq<u8>,
    info: ImageInfo,
    pixels: Seq<Rgba>,
    mapping: PngQualityMapping,
    limits: ResourceLimits,
    q: QuantizerOutput,
    r: Result<Attempt, ProcessingError>,
) -> bool {
    let met = quality_met(q.measured_quality, mapping.target);
    let sane = shape_ok(pixels, q);
    let passed = guard_ok_upto(pixels, q.palette@, q.indices@, pixels.len() as int);
    &&& !met ==> r == Ok::<Attempt, ProcessingError>(
        Attempt::Fallback(LossyFallbackReason::QualityBelowTarget { measured: q.measured_quality }),
    )
    &&& met && !sane ==> r == Err::<Attempt, ProcessingError>(ProcessingError::ValidationFailed("量化结果长度无效"))
    &&& met && sane && (exists|k: int| #[trigger] first_failure(pixels, q.palette@, q.indices@, k)
        && q.indices@[k] >= q.palette@.len()) ==> r == Err::<Attempt, ProcessingError>(
        ProcessingError::ValidationFailed("量化索引越界"),
    )
    &&& met && sane && (exists|k: int| #[trigger] first_failure(pixels, q.palette@, q.indices@, k)
        && q.indices@[k] < q.palette@.len()) ==> r == Ok::<Attempt, ProcessingError>(
        Attempt::Fallback(LossyFallbackReason::TransparencyGuard),
    )
    &&& met && sane && passed && spec_palette_encoding(info, q.palette@, q.indices@) is None
        ==> (r matches Err(e) && e is Encode)
    &&& met && sane && passed && (spec_palette_encoding(info, q.palette@, q.indices@) matches Some(encoded)
        && spec_merge_metadata(data, encoded) is Err) ==> r == Err::<Attempt, ProcessingError>(
        spec_merge_metadata(data, spec_palette_encoding(info, q.palette@, q.indices@)->Some_0)->Err_0,
    )
    &&& met && sane && passed ==> (r is Err || r matches Ok(Attempt::Quantized { .. }) || r == Ok::<
        Attempt,
        ProcessingError,
    >(Attempt::Fallback(LossyFallbackReason::NoSizeBenefit)))
    &&& r matches Ok(Attempt::Fallback(reason)) ==> match reason {
        LossyFallbackReason::QualityBelowTarget { measured } => !met && measured == q.measured_quality,
        LossyFallbackReason::TransparencyGuard => met && sane && !passed,
        LossyFallbackReason::NoSizeBenefit => met && sane && passed && (merged_palette_image(data, info, q)
            matches Some(merged) && exists|b: Seq<u8>| recompression_of(merged, b) && b.len() >= data.len()),
        _ => false,
    }
    &&& r matches Ok(Attempt::Quantized { bytes, measured_quality }) ==> {
        &&& q.measured_quality == Some(measured_quality)
        &&& measured_quality >= mapping.target
        &&& sane && passed
        &&& adopted(data, info, pixels, limits, q, bytes@)
    }
}

/// Concludes a passing quantization from the recompressed palette image: an
/// error is passed on; an image no smaller than the source is a `NoSizeBenefit`
/// fallback; otherwise the image must inspect as an indexed image of the source's
/// size and decode to exactly the quantized pixels to be adopted.
#[verifier::loop_isolation(false)]
pub fn conclude_quantization(
    data: &[u8],
    info: ImageInfo,
    pixels: &Vec<Rgba>,
    palette: &Vec<Rgba>,
    indices: &Vec<u8>,
    measured_quality: u8,
    limits: ResourceLimits,
    recompressed: Result<Vec<u8>, ProcessingError>,
) -> (r: Result<Attempt, ProcessingError>)
    requires
        limits.spec_valid(),
        indices@.len() == pixels@.len(),
        guard_ok_upto(pixels@, palette@, indices@, pixels@.len() as int),
    ensures
        match recompressed {
            Err(e) => r == Err::<Attempt, ProcessingError>(e),
            Ok(b) => if b@.len() >= data@.len() {
                r == Ok::<Attempt, ProcessingError>(Attempt::Fallback(LossyFallbackReason::NoSizeBenefit))
            } else {
                match spec_inspect_structure(b@, limits) {
                    Err(e) => r == Err::<Attempt, ProcessingError>(e),
                    Ok(out) => if out.width == info.width && out.height == info.height
                        && out.color_type == PngColorType::Indexed && source_pixels(b@).len() == pixels@.len()
                        && forall|k: int| 0 <= k < pixels@.len() ==> #[trigger] source_pixels(b@)[k]
                            == palette@[indices@[k] as int] {
                        r is Err || r == Ok::<Attempt, ProcessingError>(Attempt::Quantized { bytes: b, measured_quality })
                    } else {
                        r is Err
                    },
                }
            },
        },
        r matches Ok(Attempt::Quantized { bytes, measured_quality: m }) ==> {
            &&& recompressed == Ok::<Vec<u8>, ProcessingError>(bytes)
            &&& m == measured_quality
            &&& bytes@.len() < data@.len()
            &&& spec_inspect_structure(bytes@, limits) matches Ok(out) && out.width == info.width
                && out.height == info.height && out.color_type == PngColorType::Indexed
            &&& source_pixels(bytes@).len() == pixels@.len()
            &&& forall|k: int| 0 <= k < pixels@.len() ==> #[trigger] source_pixels(bytes@)[k]
                == palette@[indices@[k] as int]
            &&& forall|k: int| 0 <= k < pixels@.len() ==> spec_alpha_acceptable(
                pixels@[k].a,
                #[trigger] source_pixels(bytes@)[k].a,
            )
        },
        r matches Ok(Attempt::Fallback(reason)) ==> reason == LossyFallbackReason::NoSizeBenefit
            && (recompressed matches Ok(b) && b@.len() >= data@.len()),
{
    let bytes = match recompressed {
        Ok(bytes) => bytes,
        Err(e) => return Err(e),
    };
    if bytes.len() >= data.len() {
        return Ok(Attempt::Fallback(LossyFallbackReason::NoSizeBenefit));
    }
    let output_info = inspect_png(bytes.as_slice(), limits)?;
    let actual = rgba8(bytes.as_slice(), output_info, limits)?;
    if output_info.width != info.width || output_info.height != info.height
        || output_info.color_type != PngColorType::Indexed || actual.len() != indices.len() {
        return Err(ProcessingError::ValidationFailed("调色板 PNG 编码与量化像素不一致"));
    }
    let mut m: usize = 0;
    while m < actual.len()
        invariant
            actual@ == source_pixels(bytes@),
            actual@.len() == indices@.len(),
            indices@.len() == pixels@.len(),
            guard_ok_upto(pixels@, palette@, indices@, pixels@.len() as int),
            0 <= m <= actual@.len(),
            forall|k: int| 0 <= k < m ==> #[trigger] actual@[k] == palette@[indices@[k] as int],
        decreases actual@.len() - m,
    {
        assert(guard_ok(pixels@, palette@, indices@, m as int));
        if actual[m] != palette[indices[m] as usize] {
            return Err(ProcessingError::ValidationFailed("调色板 PNG 编码与量化像素不一致"));
        }
        m += 1;
    }
    assert forall|k: int| 0 <= k < pixels@.len() implies spec_alpha_acceptable(
        pixels@[k].a,
        #[trigger] source_pixels(bytes@)[k].a,
    ) by {
        assert(guard_ok(pixels@, palette@, indices@, k));
        assert(actual@[k] == palette@[indices@[k] as int]);
    }
    Ok(Attempt::Quantized { bytes, measured_quality })
}

/// Turns the quantizer's output into an attempt (see [`finish_outcome`]): the
/// measured score must reach the target, the shape must be sane, every index must
/// be in range and every pixel must pass the transparency guard (the first failing
/// pixel decides); the palette image then gets the source's metadata, is
/// recompressed losslessly and is concluded by [`conclude_quantization`].
pub fn finish_quantization(
    data: &[u8],
    info: ImageInfo,
    pixels: &Vec<Rgba>,
    mapping: PngQualityMapping,
    limits: ResourceLimits,
    cancel: &CancellationToken,
    q: QuantizerOutput,
) -> (r: Result<Attempt, ProcessingError>)
    requires
        limits.spec_valid(),
    ensures
        finish_outcome(data@, info, pixels@, mapping, limits, q, r),
{
    let ghost q0 = q;
    let measured = q.measured_quality;
    let measured_quality = match measured {
        Some(score) if score >= mapping.target => score,
        _ => {
            return Ok(Attempt::Fallback(LossyFallbackReason::QualityBelowTarget { measured }));
        },
    };
    let palette = q.palette;
    let indices = q.indices;
    if palette.len() == 0 || palette.len() > 256 || indices.len() != pixels.len() {
        return Err(ProcessingError::ValidationFailed("量化结果长度无效"));
    }
    let checked = check_quantized(pixels, &palette, &indices);
    proof {
        lemma_first_failure_unique(pixels@, palette@, indices@);
    }
    match checked {
        Err(e) => {
            proof {
                let k0 = choose|k: int| 0 <= k < pixels@.len() && guard_ok_upto(pixels@, palette@, indices@, k)
                    && indices@[k] >= palette@.len();
                assert(first_failure(pixels@, palette@, indices@, k0));
            }
            return Err(e);
        },
        Ok(false) => {
            proof {
                let k0 = choose|k: int| 0 <= k < pixels@.len() && guard_ok_upto(pixels@, palette@, indices@, k)
                    && indices@[k] < palette@.len() && !guard_ok(pixels@, palette@, indices@, k);
                assert(first_failure(pixels@, palette@, indices@, k0));
            }
            return Ok(Attempt::Fallback(LossyFallbackReason::TransparencyGuard));
        },
        Ok(true) => {},
    }
    let encoded = encode_palette(info, &palette, &indices)?;
    let merged = merge_metadata(data, encoded.as_slice())?;
    let recompressed = optimize(merged.as_slice(), limits.max_decoded_bytes.0 as usize);
    if recompressed.is_ok() {
        cancel.check()?;
    }
    let ghost rec = recompressed;
    let r = conclude_quantization(data, info, pixels, &palette, &indices, measured_quality, limits, recompressed);
    proof {
        assert(merged_palette_image(data@, info, q0) == Some(merged@));
        assert(palette@ == q0.palette@ && indices@ == q0.indices@);
        if r is Ok && r->Ok_0 is Quantized {
            assert(adopted(data@, info, pixels@, limits, q0, r->Ok_0->Quantized_bytes@));
        }
        if r matches Ok(Attempt::Fallback(_)) {
            assert(recompression_of(merged_palette_image(data@, info, q0)->Some_0, rec->Ok_0@));
        }
    }
    r
}

/// Two first failures are the same pixel.
proof fn lemma_first_failure_unique(pixels: Seq<Rgba>, palette: Seq<Rgba>, indices: Seq<u8>)
    ensures
        forall|a: int, b: int| #[trigger] first_failure(pixels, palette, indices, a)
            && #[trigger] first_failure(pixels, palette, indices, b) ==> a == b,
        forall|a: int| #[trigger] first_failure(pixels, palette, indices, a)
            ==> !guard_ok_upto(pixels, palette, indices, pixels.len() as int),
{
    assert forall|a: int, b: int| #[trigger] first_failure(pixels, palette, indices, a)
        && #[trigger] first_failure(pixels, palette, indices, b) implies a == b by {
        if a < b {
            assert(guard_ok(pixels, palette, indices, a));
        } else if b < a {
            assert(guard_ok(pixels, palette, indices, b));
        }
    }
    assert forall|a: int| #[trigger] first_failure(pixels, palette, indices, a)
        implies !guard_ok_upto(pixels, palette, indices, pixels.len() as int) by {
        if guard_ok_upto(pixels, palette, indices, pixels.len() as int) {
            assert(guard_ok(pixels, palette, indices, a));
        }
    }
}

/// The input gamma of a parseable PNG without fallback metadata (see
/// [`input_gamma`]); `None` otherwise.
pub open spec fn input_gamma_of(data: Seq<u8>) -> Option<int> {
    match spec_chunks(data) {
        Ok(cs) => match gamma_scan(data, cs, default_gamma(), false) {
            Ok(v) => Some(v),
            Err(_) => None,
        },
        Err(_) => None,
    }
}

/// `r` is how an answer of the quantizer ends (see [`finish_outcome`]), the
/// quantizer having been called with the source's expanded pixels, the image's
/// width and height, the source's input gamma and the mapping.
pub open spec fn answered<Q>(
    quantizer: &Q,
    data: Seq<u8>,
    info: ImageInfo,
    mapping: PngQualityMapping,
    limits: ResourceLimits,
    r: Result<Attempt, ProcessingError>,
) -> bool
    where
        Q: Fn(&Vec<Rgba>, u32, u32, u32, PngQualityMapping) -> Result<QuantizerOutput, ProcessingError>,
{
    exists|p: &Vec<Rgba>, g: u32, q: QuantizerOutput|
        #![trigger quantizer.ensures((p, info.width, info.height, g, mapping), Ok::<QuantizerOutput, ProcessingError>(q))]
        {
            &&& p@ == source_pixels(data)
            &&& input_gamma_of(data) == Some(g as int)
            &&& quantizer.ensures((p, info.width, info.height, g, mapping), Ok::<QuantizerOutput, ProcessingError>(q))
            &&& finish_outcome(data, info, p@, mapping, limits, q, r)
        }
}

/// The quantization attempt for an image: 16-bit input and colour-managed or
/// representation metadata fall back first; otherwise the pixels are expanded,
/// handed to the quantizer with the input gamma (scaled by 100000), and its output
/// is checked by `finish_quantization`.
pub fn quantize<Q>(
    data: &[u8],
    info: ImageInfo,
    mapping: PngQualityMapping,
    limits: ResourceLimits,
    cancel: &CancellationToken,
    quantizer: &Q,
) -> (r: Result<Attempt, ProcessingError>)
    where
        Q: Fn(&Vec<Rgba>, u32, u32, u32, PngQualityMapping) -> Result<QuantizerOutput, ProcessingError>,
    requires
        limits.spec_valid(),
        forall|p: &Vec<Rgba>, w: u32, h: u32, g: u32, m: PngQualityMapping| #[trigger]
            quantizer.requires((p, w, h, g, m)),
    ensures
        info.bit_depth == 16 ==> (r matches Ok(Attempt::Fallback(reason)) && reason
            == LossyFallbackReason::HighBitDepth),
        info.bit_depth != 16 ==> match spec_chunks(data@) {
            Err(f) => r matches Err(e) && e == crate::probe::spec_fault_error(f),
            Ok(cs) => match gamma_scan(data@, cs, default_gamma(), false) {
                Err(reason) => r matches Ok(Attempt::Fallback(x)) && x == reason,
                Ok(_) => true,
            },
        },
        info.bit_depth != 16 && input_gamma_of(data@) is Some
            && info.width * info.height * 4 > limits.max_decoded_bytes.0 ==> (r matches Err(e)
            && e == ProcessingError::ResourceLimit("量化 RGBA 缓冲区")),
        r matches Ok(Attempt::Quantized { bytes, measured_quality }) ==> {
            &&& info.bit_depth != 16
            &&& measured_quality >= mapping.target
            &&& bytes@.len() < data@.len()
            &&& spec_inspect_structure(bytes@, limits) matches Ok(out) && out.width == info.width
                && out.height == info.height && out.color_type == PngColorType::Indexed
            &&& source_pixels(bytes@).len() == source_pixels(data@).len()
            &&& forall|k: int| 0 <= k < source_pixels(data@).len() ==> spec_alpha_acceptable(
                source_pixels(data@)[k].a,
                #[trigger] source_pixels(bytes@)[k].a,
            )
        },
        info.bit_depth != 16 && input_gamma_of(data@) is Some && r is Ok
            ==> answered(quantizer, data@, info, mapping, limits, r),
{
    if info.bit_depth == 16 {
        return Ok(Attempt::Fallback(LossyFallbackReason::HighBitDepth));
    }
    let gamma = match input_gamma(data)? {
        Ok(gamma) => gamma,
        Err(reason) => return Ok(Attempt::Fallback(reason)),
    };
    let pixels = rgba8(data, info, limits)?;
    cancel.check()?;
    let answer = quantizer(&pixels, info.width, info.height, gamma, mapping);
    let output = match answer {
        Ok(output) => output,
        Err(e) => return Err(e),
    };
    let ghost q = output;
    let result = finish_quantization(data, info, &pixels, mapping, limits, cancel, output);
    proof {
        if result is Ok {
            assert(quantizer.ensures((&pixels, info.width, info.height, gamma, mapping), Ok::<QuantizerOutput, ProcessingError>(q)));
        }
    }
    result
}

/// Builds the candidate for a request: always the strict lossless recompression
/// first; in lossy mode also a quantization attempt, adopted only when it is
/// smaller than the lossless candidate, otherwise reported as a fallback with its
/// reason (`NoSizeBenefit` when it was not smaller).
pub fn prepare<Q>(
    data: &[u8],
    original: &DecodedPng,
    mode: PngMode,
    limits: ResourceLimits,
    cancel: &CancellationToken,
    quantizer: &Q,
) -> (r: Result<Candidate, ProcessingError>)
    where
        Q: Fn(&Vec<Rgba>, u32, u32, u32, PngQualityMapping) -> Result<QuantizerOutput, ProcessingError>,
    requires
        forall|p: &Vec<Rgba>, w: u32, h: u32, g: u32, m: PngQualityMapping| #[trigger]
            quantizer.requires((p, w, h, g, m)),
    ensures
        !limits.spec_valid() ==> (r matches Err(e) && e is InvalidLimits),
        r matches Ok(c) ==> match c.processing {
            PngProcessing::Lossless => mode == PngMode::Lossless && recompression_of(data@, c.bytes@),
            PngProcessing::Lossy { mapping, measured_quality } => mode matches PngMode::Lossy {
                quality,
            } && mapping == spec_png_quality(quality) && measured_quality >= mapping.target
                && c.bytes@.len() < data@.len() && (exists|lossless: Seq<u8>|
                recompression_of(data@, lossless) && c.bytes@.len() < lossless.len())
                && (spec_inspect_structure(c.bytes@, limits) matches Ok(out) && out.width == original.info.width
                    && out.height == original.info.height && out.color_type == PngColorType::Indexed)
                && source_pixels(c.bytes@).len() == source_pixels(data@).len()
                && (forall|k: int| 0 <= k < source_pixels(data@).len() ==> spec_alpha_acceptable(
                    source_pixels(data@)[k].a,
                    #[trigger] source_pixels(c.bytes@)[k].a,
                ))
                && answered(quantizer, data@, original.info, mapping, limits, Ok::<Attempt, ProcessingError>(
                    Attempt::Quantized { bytes: c.bytes, measured_quality },
                )),
            PngProcessing::LosslessFallback { mapping, reason } => mode matches PngMode::Lossy {
                quality,
            } && mapping == spec_png_quality(quality) && recompression_of(data@, c.bytes@)
                && (original.info.bit_depth == 16 ==> reason == LossyFallbackReason::HighBitDepth)
                && (original.info.bit_depth != 16 ==> match spec_chunks(data@) {
                    Ok(cs) => match gamma_scan(data@, cs, default_gamma(), false) {
                        Err(metadata) => reason == metadata,
                        Ok(_) => true,
                    },
                    Err(_) => true,
                })
                && (original.info.bit_depth != 16 && input_gamma_of(data@) is Some ==> match reason {
                    LossyFallbackReason::NoSizeBenefit => answered(quantizer, data@, original.info, mapping, limits,
                        Ok::<Attempt, ProcessingError>(Attempt::Fallback(LossyFallbackReason::NoSizeBenefit)))
                        || exists|bytes: Vec<u8>, m: u8| #[trigger] answered(quantizer, data@, original.info, mapping,
                        limits, Ok::<Attempt, ProcessingError>(Attempt::Quantized { bytes, measured_quality: m }))
                        && bytes@.len() >= c.bytes@.len(),
                    _ => answered(quantizer, data@, original.info, mapping, limits,
                        Ok::<Attempt, ProcessingError>(Attempt::Fallback(reason))),
                }),
        },
{
    limits.validate()?;
    let lossless = optimize(data, limits.max_decoded_bytes.0 as usize)?;
    cancel.check()?;
    let quality = match mode {
        PngMode::Lossless => {
            return Ok(Candidate { bytes: lossless, processing: PngProcessing::Lossless });
        },
        PngMode::Lossy { quality } => quality,
    };
    let mapping = png_quality(quality);
    let attempt = quantize(data, original.info, mapping, limits, cancel, quantizer)?;
    let reason = match attempt {
        Attempt::Quantized { bytes, measured_quality } => {
            if bytes.len() < lossless.len() {
                assert(recompression_of(data@, lossless@));
                return Ok(
                    Candidate {
                        bytes,
                        processing: PngProcessing::Lossy { mapping, measured_quality },
                    },
                );
            }
            LossyFallbackReason::NoSizeBenefit
        },
        Attempt::Fallback(reason) => reason,
    };
    Ok(Candidate { bytes: lossless, processing: PngProcessing::LosslessFallback { mapping, reason } })
}

} // verus!
