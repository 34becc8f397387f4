//! Strict lossless PNG baseline: only the compressed representation changes; bit
//! depth, colour type, hidden RGB and every non-IDAT chunk are kept.

use crate::model::ProcessingError;
use crate::probe::{
    chunks, decode, idat, png_signature, spec_chunks, chunks_placed, Chunk, ChunkName,
    DecodedPng,
};
use vstd::prelude::*;

verus! {

/// Ancillary chunks that are unsafe to copy but whose meaning does not depend on
/// the compressed image data, so they may be kept across a recompression.
pub open spec fn known_unsafe_ancillary(n: ChunkName) -> bool {
    ||| n == ChunkName(99, 72, 82, 77)  // cHRM
    ||| n == ChunkName(103, 65, 77, 65)  // gAMA
    ||| n == ChunkName(105, 67, 67, 80)  // iCCP
    ||| n == ChunkName(115, 66, 73, 84)  // sBIT
    ||| n == ChunkName(115, 82, 71, 66)  // sRGB
    ||| n == ChunkName(99, 73, 67, 80)  // cICP
    ||| n == ChunkName(109, 68, 67, 86)  // mDCV
    ||| n == ChunkName(99, 76, 76, 73)  // cLLI
    ||| n == ChunkName(116, 82, 78, 83)  // tRNS
    ||| n == ChunkName(98, 75, 71, 68)  // bKGD
    ||| n == ChunkName(104, 73, 83, 84)  // hIST
    ||| n == ChunkName(112, 72, 89, 115)  // pHYs
    ||| n == ChunkName(115, 80, 76, 84)  // sPLT
    ||| n == ChunkName(116, 73, 77, 69)  // tIME
}

/// An ancillary, unsafe-to-copy chunk not known to survive a recompression.
pub open spec fn blocks_rewrite(n: ChunkName) -> bool {
    !n.critical() && !n.safe_to_copy() && !known_unsafe_ancillary(n)
}

/// The ancillary chunks of the PNG standard and its colour extensions that
/// describe colour, transparency, background, histogram, physical size,
/// suggested palettes and time: cHRM, gAMA, iCCP, sBIT, sRGB, cICP, mDCV,
/// cLLI, tRNS, bKGD, hIST, pHYs, sPLT, tIME.
pub open spec fn standard_ancillary(n: ChunkName) -> bool {
    let ChunkName(a, b, c, d) = n;
    ||| (a, b, c, d) == (99u8, 72u8, 82u8, 77u8)
    ||| (a, b, c, d) == (103u8, 65u8, 77u8, 65u8)
    ||| (a, b, c, d) == (105u8, 67u8, 67u8, 80u8)
    ||| (a, b, c, d) == (115u8, 66u8, 73u8, 84u8)
    ||| (a, b, c, d) == (115u8, 82u8, 71u8, 66u8)
    ||| (a, b, c, d) == (99u8, 73u8, 67u8, 80u8)
    ||| (a, b, c, d) == (109u8, 68u8, 67u8, 86u8)
    ||| (a, b, c, d) == (99u8, 76u8, 76u8, 73u8)
    ||| (a, b, c, d) == (116u8, 82u8, 78u8, 83u8)
    ||| (a, b, c, d) == (98u8, 75u8, 71u8, 68u8)
    ||| (a, b, c, d) == (104u8, 73u8, 83u8, 84u8)
    ||| (a, b, c, d) == (112u8, 72u8, 89u8, 115u8)
    ||| (a, b, c, d) == (115u8, 80u8, 76u8, 84u8)
    ||| (a, b, c, d) == (116u8, 73u8, 77u8, 69u8)
}

/// A chunk a rewrite carries over as it is: critical, safe to copy, or one of
/// the standard ancillary chunks.
pub open spec fn carried_over(n: ChunkName) -> bool {
    n.critical() || n.safe_to_copy() || standard_ancillary(n)
}

/// Exactly the unsafe-to-copy ancillary chunks outside the standard set block
/// a rewrite; the standard ones (sRGB, gAMA, iCCP, ...) never do.
pub proof fn law_only_foreign_chunks_block(n: ChunkName)
    ensures
        blocks_rewrite(n) <==> !carried_over(n),
{
}

/// A stream of carried-over chunks has nothing that blocks a rewrite, and no
/// chunk that the metadata check refuses.
pub proof fn law_standard_streams_are_rewritable(cs: Seq<Chunk>)
    requires
        forall|i: int| 0 <= i < cs.len() ==> carried_over(#[trigger] cs[i].name),
    ensures
        !has_rewrite_blocker(cs),
        first_foreign_blocker(cs) is None,
    decreases cs.len(),
{
    if cs.len() > 0 {
        law_only_foreign_chunks_block(cs[0].name);
        assert forall|i: int| 0 <= i < cs.drop_first().len() implies carried_over(
            #[trigger] cs.drop_first()[i].name,
        ) by {
            assert(cs.drop_first()[i] == cs[i + 1]);
        }
        law_standard_streams_are_rewritable(cs.drop_first());
    }
    assert forall|i: int| 0 <= i < cs.len() implies !blocks_rewrite(#[trigger] cs[i].name) by {
        law_only_foreign_chunks_block(cs[i].name);
    }
}

/// The content-credentials container chunk `caBX`.
pub open spec fn cabx() -> ChunkName {
    ChunkName(99, 97, 66, 88)
}

fn is_known_unsafe_ancillary(n: ChunkName) -> (r: bool)
    ensures
        r == known_unsafe_ancillary(n),
{
    n.is_type(99, 72, 82, 77) || n.is_type(103, 65, 77, 65) || n.is_type(105, 67, 67, 80)
        || n.is_type(115, 66, 73, 84) || n.is_type(115, 82, 71, 66) || n.is_type(99, 73, 67, 80)
        || n.is_type(109, 68, 67, 86) || n.is_type(99, 76, 76, 73) || n.is_type(116, 82, 78, 83)
        || n.is_type(98, 75, 71, 68) || n.is_type(104, 73, 83, 84) || n.is_type(112, 72, 89, 115)
        || n.is_type(115, 80, 76, 84) || n.is_type(116, 73, 77, 69)
}

/// Whether the chunk would block a recompression.
pub fn blocks_rewrite_exec(n: ChunkName) -> (r: bool)
    ensures
        r == blocks_rewrite(n),
{
    !(n.0 >= 65 && n.0 <= 90) && n.3 >= 65 && n.3 <= 90 && !is_known_unsafe_ancillary(n)
}

/// Byte-wise equality of two slices.
pub fn bytes_equal(a: &[u8], b: &[u8]) -> (r: bool)
    ensures
        r == (a@ == b@),
{
    if a.len() != b.len() {
        return false;
    }
    let mut i: usize = 0;
    while i < a.len()
        invariant
            a@.len() == b@.len(),
            0 <= i <= a@.len(),
            forall|k: int| 0 <= k < i ==> a@[k] == b@[k],
        decreases a@.len() - i,
    {
        if a[i] != b[i] {
            return false;
        }
        i += 1;
    }
    assert(a@ =~= b@);
    true
}

/// Appends `data[start..end]` to `out`.
pub fn append_range(out: &mut Vec<u8>, data: &[u8], start: usize, end: usize)
    requires
        start <= end <= data@.len(),
    ensures
        final(out)@ == old(out)@ + data@.subrange(start as int, end as int),
{
    out.extend_from_slice(&data[start..end]);
}

/// The encoded chunk at index `i` of a parsed stream, as a slice.
pub fn encoded_of<'a>(data: &'a [u8], cs: &Vec<Chunk>, i: usize) -> (r: &'a [u8])
    requires
        chunks_placed(data@, cs@),
        i < cs@.len(),
    ensures
        r@ == cs@[i as int].encoded(data@),
{
    let c = cs[i];
    let n = data.len();
    assert(8 <= cs@[i as int].start && cs@[i as int].end() <= data@.len());
    assert(c == cs@[i as int] && n == data@.len());
    &data[c.start..c.start + 12 + c.length]
}

/// Encodings of the IDAT chunks, in order.
pub open spec fn idat_encodings(data: Seq<u8>, cs: Seq<Chunk>) -> Seq<u8>
    decreases cs.len(),
{
    if cs.len() == 0 {
        Seq::empty()
    } else {
        idat_encodings(data, cs.drop_last()) + if cs.last().name == idat() {
            cs.last().encoded(data)
        } else {
            Seq::empty()
        }
    }
}

/// Whether any chunk is an IDAT.
pub open spec fn has_idat(cs: Seq<Chunk>) -> bool {
    exists|i: int| 0 <= i < cs.len() && #[trigger] cs[i].name == idat()
}

/// The original chunks in order, with the first IDAT replaced by `idats` and the
/// other IDATs dropped.
pub open spec fn spliced(data: Seq<u8>, cs: Seq<Chunk>, idats: Seq<u8>) -> Seq<u8>
    decreases cs.len(),
{
    if cs.len() == 0 {
        Seq::empty()
    } else {
        let prev = spliced(data, cs.drop_last(), idats);
        if cs.last().name == idat() {
            if has_idat(cs.drop_last()) {
                prev
            } else {
                prev + idats
            }
        } else {
            prev + cs.last().encoded(data)
        }
    }
}

/// What splicing an encoder's output into the original yields: the original's
/// signature and chunks with the encoder's IDAT run in place of the original's,
/// provided the encoder's stream parses and kept the original IHDR byte for byte.
pub open spec fn spec_splice_idat(data: Seq<u8>, encoded: Seq<u8>) -> Result<
    Seq<u8>,
    ProcessingError,
> {
    match spec_chunks(data) {
        Err(f) => Err(crate::probe::spec_fault_error(f)),
        Ok(original) => match spec_chunks(encoded) {
            Err(f) => Err(crate::probe::spec_fault_error(f)),
            Ok(recoded) => if recoded[0].encoded(encoded) != original[0].encoded(data) {
                Err(ProcessingError::ValidationFailed("编码器改变了 IHDR"))
            } else {
                Ok(
                    png_signature() + spliced(
                        data,
                        original,
                        idat_encodings(encoded, recoded),
                    ),
                )
            },
        },
    }
}

pub proof fn lemma_has_idat_push(cs: Seq<Chunk>, c: Chunk)
    ensures
        has_idat(cs.push(c)) == (has_idat(cs) || c.name == idat()),
{
    let p = cs.push(c);
    assert(p.drop_last() =~= cs);
    if has_idat(cs) {
        let i = choose|i: int| 0 <= i < cs.len() && #[trigger] cs[i].name == idat();
        assert(p[i] == cs[i]);
    }
    if c.name == idat() {
        assert(p[cs.len() as int] == c);
    }
    if has_idat(p) {
        let i = choose|i: int| 0 <= i < p.len() && #[trigger] p[i].name == idat();
        if i < cs.len() {
            assert(p[i] == cs[i]);
        }
    }
}

/// Keeps the original's IHDR, palette and metadata and takes only the encoder's
/// IDAT chunks, at the position of the original IDAT run.
pub fn splice_idat(data: &[u8], encoded: &[u8]) -> (r: Result<Vec<u8>, ProcessingError>)
    ensures
        r matches Ok(v) ==> spec_splice_idat(data@, encoded@) == Ok::<Seq<u8>, ProcessingError>(
            v@,
        ),
        r matches Err(e) ==> spec_splice_idat(data@, encoded@) == Err::<Seq<u8>, ProcessingError>(
            e,
        ),
{
    let original = chunks(data)?;
    let recoded = chunks(encoded)?;
    if !bytes_equal(encoded_of(encoded, &recoded, 0), encoded_of(data, &original, 0)) {
        return Err(ProcessingError::ValidationFailed("编码器改变了 IHDR"));
    }
    let mut idats: Vec<u8> = Vec::new();
    let mut j: usize = 0;
    while j < recoded.len()
        invariant
            chunks_placed(encoded@, recoded@),
            0 <= j <= recoded@.len(),
            idats@ == idat_encodings(encoded@, recoded@.take(j as int)),
        decreases recoded@.len() - j,
    {
        proof {
            assert(recoded@.take(j + 1).drop_last() =~= recoded@.take(j as int));
        }
        if recoded[j].name.is_type(73, 68, 65, 84) {
            let bytes = encoded_of(encoded, &recoded, j);
            idats.extend_from_slice(bytes);
        }
        j += 1;
    }
    assert(recoded@.take(recoded@.len() as int) =~= recoded@);
    let mut output: Vec<u8> = Vec::new();
    append_range(&mut output, data, 0, 8);
    proof {
        assert(data@.subrange(0, 8) == png_signature());
    }
    let mut wrote_idat = false;
    let mut i: usize = 0;
    while i < original.len()
        invariant
            chunks_placed(data@, original@),
            0 <= i <= original@.len(),
            wrote_idat == has_idat(original@.take(i as int)),
            output@ == png_signature() + spliced(data@, original@.take(i as int), idats@),
        decreases original@.len() - i,
    {
        let ghost prefix = original@.take(i as int);
        proof {
            assert(original@.take(i + 1).drop_last() =~= prefix);
            assert(original@.take(i + 1) =~= prefix.push(original@[i as int]));
            lemma_has_idat_push(prefix, original@[i as int]);
        }
        if original[i].name.is_type(73, 68, 65, 84) {
            if !wrote_idat {
                output.extend_from_slice(idats.as_slice());
                wrote_idat = true;
            }
        } else {
            let bytes = encoded_of(data, &original, i);
            output.extend_from_slice(bytes);
        }
        proof {
            assert(output@ =~= png_signature() + spliced(data@, original@.take(i + 1), idats@));
        }
        i += 1;
    }
    assert(original@.take(original@.len() as int) =~= original@);
    Ok(output)
}

} // verus!

verus! {

/// Which ancillary chunks `oxipng` may drop.
#[derive(Debug, Clone, Copy, PartialEq, Eq, Structural)]
pub enum StripPolicy {
    /// Keep every chunk.
    KeepAll,
    /// Drop the chunks that do not affect how the image displays.
    Safe,
    /// Drop every ancillary chunk.
    All,
}

/// The recompression settings handed to `oxipng`, field for field.
#[derive(Debug, Clone, Copy, PartialEq, Eq, Structural)]
pub struct RecompressionSettings {
    pub preset: u8,
    /// `None` keeps the source's interlacing; `Some(on)` sets it.
    pub interlace: Option<bool>,
    pub strip: StripPolicy,
    pub timeout_seconds: u64,
    pub max_decompressed_size: usize,
    pub fix_errors: bool,
    pub force: bool,
    pub optimize_alpha: bool,
    pub bit_depth_reduction: bool,
    pub color_type_reduction: bool,
    pub palette_reduction: bool,
    pub grayscale_reduction: bool,
    pub scale_16: bool,
}

/// `oxipng::optimize_from_memory` with the given preset and options. Its soft
/// time limit makes the output depend on the machine's speed, so nothing is
/// stated of it; a failure is reported by message.
#[verifier::external_body]
fn oxipng_recompress(data: &[u8], s: RecompressionSettings) -> (r: Result<Vec<u8>, String>) {
    let strip = match s.strip {
        StripPolicy::KeepAll => oxipng::StripChunks::None, StripPolicy::Safe => oxipng::StripChunks::Safe,
        StripPolicy::All => oxipng::StripChunks::All,
    };
    let options = oxipng::Options {
        fix_errors: s.fix_errors, force: s.force, interlace: s.interlace,
        optimize_alpha: s.optimize_alpha, bit_depth_reduction: s.bit_depth_reduction,
        color_type_reduction: s.color_type_reduction, palette_reduction: s.palette_reduction,
        grayscale_reduction: s.grayscale_reduction, scale_16: s.scale_16, strip,
        timeout: Some(std::time::Duration::from_secs(s.timeout_seconds)),
        max_decompressed_size: Some(s.max_decompressed_size),
        ..oxipng::Options::from_preset(s.preset)
    };
    oxipng::optimize_from_memory(data, &options).map_err(|e| e.to_string())
}

/// Some chunk of the stream blocks a recompression.
pub open spec fn has_rewrite_blocker(cs: Seq<Chunk>) -> bool {
    exists|i: int| 0 <= i < cs.len() && blocks_rewrite(#[trigger] cs[i].name)
}

/// Finds a chunk that blocks a recompression.
pub fn find_rewrite_blocker(cs: &Vec<Chunk>) -> (r: bool)
    ensures
        r == has_rewrite_blocker(cs@),
{
    let mut i: usize = 0;
    while i < cs.len()
        invariant
            0 <= i <= cs@.len(),
            forall|k: int| 0 <= k < i ==> !blocks_rewrite(#[trigger] cs@[k].name),
        decreases cs@.len() - i,
    {
        if blocks_rewrite_exec(cs[i].name) {
            return true;
        }
        i += 1;
    }
    false
}

/// The strict lossless settings: preset 1, a 30-second soft limit, the given
/// decompression bound, the source's interlacing and every chunk kept, and no
/// reduction of bit depth, colour type, palette, grey or 16-bit samples and no
/// change to transparent pixels.
pub open spec fn spec_strict_settings(max_decoded: usize) -> RecompressionSettings {
    RecompressionSettings {
        preset: 1,
        interlace: None,
        strip: StripPolicy::KeepAll,
        timeout_seconds: 30,
        max_decompressed_size: max_decoded,
        fix_errors: false,
        force: false,
        optimize_alpha: false,
        bit_depth_reduction: false,
        color_type_reduction: false,
        palette_reduction: false,
        grayscale_reduction: false,
        scale_16: false,
    }
}

/// The settings the lossless path hands to `oxipng`.
pub fn strict_settings(max_decoded: usize) -> (r: RecompressionSettings)
    ensures
        r == spec_strict_settings(max_decoded),
{
    RecompressionSettings {
        preset: 1,
        interlace: None,
        strip: StripPolicy::KeepAll,
        timeout_seconds: 30,
        max_decompressed_size: max_decoded,
        fix_errors: false,
        force: false,
        optimize_alpha: false,
        bit_depth_reduction: false,
        color_type_reduction: false,
        palette_reduction: false,
        grayscale_reduction: false,
        scale_16: false,
    }
}

/// Recompresses the IDAT data of a PNG without changing anything else: unknown
/// unsafe-to-copy metadata is refused first, and the encoder's output only
/// contributes its IDAT chunks, spliced into the original stream.
pub fn optimize(data: &[u8], max_decoded: usize) -> (r: Result<Vec<u8>, ProcessingError>)
    ensures
        spec_chunks(data@) matches Err(f) ==> r matches Err(e) && e
            == crate::probe::spec_fault_error(f),
        spec_chunks(data@) is Ok && has_rewrite_blocker(spec_chunks(data@)->Ok_0) ==> (r matches Err(
            e) && e == ProcessingError::ValidationFailed("含不支持改写的元数据 chunk")),
        r matches Ok(out) ==> (spec_chunks(data@) is Ok && !has_rewrite_blocker(
            spec_chunks(data@)->Ok_0) && exists|enc: Seq<u8>|
            spec_splice_idat(data@, enc) == Ok::<Seq<u8>, ProcessingError>(out@)),
        r matches Err(e) ==> spec_chunks(data@) is Err || has_rewrite_blocker(
            spec_chunks(data@)->Ok_0,
        ) || e is Encode || exists|enc: Seq<u8>|
            spec_splice_idat(data@, enc) == Err::<Seq<u8>, ProcessingError>(e),
        match spec_chunks(data@) {
            Ok(cs) => (forall|i: int| 0 <= i < cs.len() ==> carried_over(#[trigger] cs[i].name))
                ==> r != Err::<Vec<u8>, ProcessingError>(ProcessingError::ValidationFailed("含不支持改写的元数据 chunk")),
            Err(_) => true,
        },
{
    proof {
        if spec_chunks(data@) is Ok {
            let cs = spec_chunks(data@)->Ok_0;
            if forall|i: int| 0 <= i < cs.len() ==> carried_over(#[trigger] cs[i].name) {
                law_standard_streams_are_rewritable(cs);
            }
        }
        reveal_strlit("编码器改变了 IHDR");
        reveal_strlit("含不支持改写的元数据 chunk");
    }
    let original = chunks(data)?;
    if find_rewrite_blocker(&original) {
        return Err(ProcessingError::ValidationFailed("含不支持改写的元数据 chunk"));
    }
    let recompressed = match oxipng_recompress(data, strict_settings(max_decoded)) {
        Ok(bytes) => bytes,
        Err(message) => return Err(ProcessingError::Encode(message)),
    };
    splice_idat(data, recompressed.as_slice())
}

} // verus!

verus! {

/// Encodings of the chunks other than IDAT, in order.
pub open spec fn non_idat(data: Seq<u8>, cs: Seq<Chunk>) -> Seq<Seq<u8>>
    decreases cs.len(),
{
    if cs.len() == 0 {
        Seq::empty()
    } else if cs.last().name == idat() {
        non_idat(data, cs.drop_last())
    } else {
        non_idat(data, cs.drop_last()).push(cs.last().encoded(data))
    }
}

/// Encodings of the chunks not of the given type, concatenated in order.
pub open spec fn without_type(data: Seq<u8>, cs: Seq<Chunk>, n: ChunkName) -> Seq<u8>
    decreases cs.len(),
{
    if cs.len() == 0 {
        Seq::empty()
    } else if cs.last().name == n {
        without_type(data, cs.drop_last(), n)
    } else {
        without_type(data, cs.drop_last(), n) + cs.last().encoded(data)
    }
}

/// The first chunk that blocks a recompression and is not `caBX`.
pub open spec fn first_foreign_blocker(cs: Seq<Chunk>) -> Option<ChunkName>
    decreases cs.len(),
{
    if cs.len() == 0 {
        None
    } else if blocks_rewrite(cs[0].name) && cs[0].name != cabx() {
        Some(cs[0].name)
    } else {
        first_foreign_blocker(cs.drop_first())
    }
}

/// Whether a `caBX` chunk is present.
pub open spec fn has_type(cs: Seq<Chunk>, n: ChunkName) -> bool {
    exists|i: int| 0 <= i < cs.len() && #[trigger] cs[i].name == n
}

fn chunk_bytes(data: &[u8], cs: &Vec<Chunk>, i: usize) -> (r: Vec<u8>)
    requires
        chunks_placed(data@, cs@),
        i < cs@.len(),
    ensures
        r@ == cs@[i as int].encoded(data@),
{
    let mut v: Vec<u8> = Vec::new();
    v.extend_from_slice(encoded_of(data, cs, i));
    v
}

/// The encodings of the non-IDAT chunks, in order.
pub fn non_idat_chunks(data: &[u8], cs: &Vec<Chunk>) -> (r: Vec<Vec<u8>>)
    requires
        chunks_placed(data@, cs@),
    ensures
        r@.len() == non_idat(data@, cs@).len(),
        forall|k: int| 0 <= k < r@.len() ==> #[trigger] r@[k]@ == non_idat(data@, cs@)[k],
{
    let mut out: Vec<Vec<u8>> = Vec::new();
    let mut i: usize = 0;
    while i < cs.len()
        invariant
            chunks_placed(data@, cs@),
            0 <= i <= cs@.len(),
            out@.len() == non_idat(data@, cs@.take(i as int)).len(),
            forall|k: int| 0 <= k < out@.len() ==> #[trigger] out@[k]@ == non_idat(
                data@,
                cs@.take(i as int),
            )[k],
        decreases cs@.len() - i,
    {
        proof {
            assert(cs@.take(i + 1).drop_last() =~= cs@.take(i as int));
        }
        if !cs[i].name.is_type(73, 68, 65, 84) {
            out.push(chunk_bytes(data, cs, i));
        }
        i += 1;
    }
    assert(cs@.take(cs@.len() as int) =~= cs@);
    out
}

/// Whether two lists of byte strings are equal item by item.
pub fn lists_equal(a: &Vec<Vec<u8>>, b: &Vec<Vec<u8>>) -> (r: bool)
    ensures
        r == (a@.len() == b@.len() && forall|k: int| 0 <= k < a@.len() ==> #[trigger] a@[k]@
            == b@[k]@),
{
    if a.len() != b.len() {
        return false;
    }
    let mut i: usize = 0;
    while i < a.len()
        invariant
            a@.len() == b@.len(),
            0 <= i <= a@.len(),
            forall|k: int| 0 <= k < i ==> #[trigger] a@[k]@ == b@[k]@,
        decreases a@.len() - i,
    {
        if !bytes_equal(a[i].as_slice(), b[i].as_slice()) {
            return false;
        }
        i += 1;
    }
    true
}

/// The decoded candidate equals the decoded original: same header and the
/// same pixel bytes.
pub open spec fn same_image(original: DecodedPng, output: DecodedPng) -> bool {
    original.info == output.info && original.pixels@ == output.pixels@
}

/// Compares a decoded candidate with the decoded original: the header and
/// pixels must be equal, then both streams must parse and carry the same
/// non-IDAT chunks, byte for byte and in order.
pub fn check_candidate(
    original: &[u8],
    decoded: &DecodedPng,
    candidate: &[u8],
    output: &DecodedPng,
) -> (r: Result<(), ProcessingError>)
    ensures
        !same_image(*decoded, *output) ==> r == Err::<(), ProcessingError>(
            ProcessingError::ValidationFailed("像素、位深或色型发生变化"),
        ),
        same_image(*decoded, *output) ==> match (spec_chunks(original@), spec_chunks(candidate@)) {
            (Err(f), _) => r == Err::<(), ProcessingError>(crate::probe::spec_fault_error(f)),
            (Ok(_), Err(f)) => r == Err::<(), ProcessingError>(crate::probe::spec_fault_error(f)),
            (Ok(a), Ok(b)) => if non_idat(original@, a) == non_idat(candidate@, b) {
                r is Ok
            } else {
                r == Err::<(), ProcessingError>(ProcessingError::ValidationFailed("非 IDAT chunk 发生变化"))
            },
        },
{
    if output.info != decoded.info || !bytes_equal(output.pixels.as_slice(), decoded.pixels.as_slice()) {
        return Err(ProcessingError::ValidationFailed("像素、位深或色型发生变化"));
    }
    let before = chunks(original)?;
    let after = chunks(candidate)?;
    let a = non_idat_chunks(original, &before);
    let b = non_idat_chunks(candidate, &after);
    if !lists_equal(&a, &b) {
        proof {
            if non_idat(original@, before@) == non_idat(candidate@, after@) {
                assert(a@.len() == b@.len());
                assert forall|k: int| 0 <= k < a@.len() implies #[trigger] a@[k]@ == b@[k]@ by {
                    assert(non_idat(original@, before@)[k] == non_idat(candidate@, after@)[k]);
                }
            }
        }
        return Err(ProcessingError::ValidationFailed("非 IDAT chunk 发生变化"));
    }
    assert forall|k: int| 0 <= k < non_idat(original@, before@).len() implies #[trigger] non_idat(
        original@,
        before@,
    )[k] == non_idat(candidate@, after@)[k] by {
        assert(a@[k]@ == b@[k]@);
    }
    assert(non_idat(original@, before@) =~= non_idat(candidate@, after@));
    Ok(())
}

/// Checks a candidate against the original: it must decode (with the same
/// limits) to the same header and pixels, and keep every non-IDAT chunk. A
/// structural error of the candidate is returned as it is; after decoding,
/// the outcome is [`check_candidate`]'s.
pub fn validate(
    original: &[u8],
    decoded: &DecodedPng,
    candidate: &[u8],
    limits: crate::model::ResourceLimits,
) -> (r: Result<(), ProcessingError>)
    ensures
        r is Ok ==> crate::probe::spec_inspect_structure(candidate@, limits) == Ok::<
            crate::model::ImageInfo,
            ProcessingError,
        >(decoded.info) && spec_chunks(original@) is Ok && spec_chunks(candidate@) is Ok
            && non_idat(original@, spec_chunks(original@)->Ok_0) == non_idat(
            candidate@,
            spec_chunks(candidate@)->Ok_0,
        ),
        crate::probe::spec_inspect_structure(candidate@, limits) matches Err(e)
            ==> r == Err::<(), ProcessingError>(e),
{
    let output = decode(candidate, limits)?;
    check_candidate(original, decoded, candidate, &output)
}

/// Looks for metadata that a rewrite cannot carry: any unknown unsafe-to-copy
/// chunk other than `caBX` is refused by name; otherwise reports whether
/// content credentials (`caBX`) are present.
pub fn check_metadata(data: &[u8]) -> (r: Result<bool, ProcessingError>)
    ensures
        spec_chunks(data@) matches Err(f) ==> r matches Err(e) && e
            == crate::probe::spec_fault_error(f),
        spec_chunks(data@) is Ok ==> match first_foreign_blocker(spec_chunks(data@)->Ok_0) {
            Some(n) => r matches Err(e) && e == ProcessingError::UnsupportedMetadata(n),
            None => r matches Ok(b) && b == has_type(spec_chunks(data@)->Ok_0, cabx()),
        },
        match spec_chunks(data@) {
            Ok(cs) => (forall|i: int| 0 <= i < cs.len() ==> carried_over(#[trigger] cs[i].name))
                ==> r == Ok::<bool, ProcessingError>(has_type(cs, cabx())),
            Err(_) => true,
        },
{
    proof {
        if spec_chunks(data@) is Ok {
            let cs = spec_chunks(data@)->Ok_0;
            if forall|i: int| 0 <= i < cs.len() ==> carried_over(#[trigger] cs[i].name) {
                law_standard_streams_are_rewritable(cs);
            }
        }
    }
    let cs = chunks(data)?;
    let mut found = false;
    let mut i: usize = 0;
    assert(cs@.skip(0) =~= cs@);
    assert(cs@.take(0) =~= Seq::<Chunk>::empty());
    while i < cs.len()
        invariant
            spec_chunks(data@) == Ok::<Seq<Chunk>, crate::probe::PngFault>(cs@),
            0 <= i <= cs@.len(),
            first_foreign_blocker(cs@) == first_foreign_blocker(cs@.skip(i as int)),
            found == has_type(cs@.take(i as int), cabx()),
        decreases cs@.len() - i,
    {
        let name = cs[i].name;
        proof {
            assert(cs@.skip(i as int).drop_first() =~= cs@.skip(i + 1));
            assert(cs@.skip(i as int)[0] == cs@[i as int]);
            assert(cs@.take(i + 1) =~= cs@.take(i as int).push(cs@[i as int]));
            if has_type(cs@.take(i + 1), cabx()) {
                let k = choose|k: int| 0 <= k < i + 1 && #[trigger] cs@.take(i + 1)[k].name == cabx();
                if k < i {
                    assert(cs@.take(i as int)[k] == cs@[k]);
                }
            }
            if found {
                let k = choose|k: int| 0 <= k < i && #[trigger] cs@.take(i as int)[k].name == cabx();
                assert(cs@.take(i + 1)[k] == cs@[k]);
            }
            if name == cabx() {
                assert(cs@.take(i + 1)[i as int] == cs@[i as int]);
            }
        }
        if blocks_rewrite_exec(name) {
            if name.is_type(99, 97, 66, 88) {
                found = true;
            } else {
                return Err(ProcessingError::UnsupportedMetadata(name));
            }
        } else if name.is_type(99, 97, 66, 88) {
            found = true;
        }
        i += 1;
    }
    assert(cs@.skip(cs@.len() as int) =~= Seq::<Chunk>::empty());
    assert(cs@.take(cs@.len() as int) =~= cs@);
    Ok(found)
}

/// Removes every `caBX` chunk, keeping all other chunks byte for byte and in order.
pub fn remove_content_credentials(data: &[u8]) -> (r: Result<Vec<u8>, ProcessingError>)
    ensures
        spec_chunks(data@) matches Err(f) ==> r matches Err(e) && e
            == crate::probe::spec_fault_error(f),
        spec_chunks(data@) matches Ok(cs) ==> r matches Ok(v) && v@ == png_signature()
            + without_type(data@, cs, cabx()),
{
    let cs = chunks(data)?;
    let mut output: Vec<u8> = Vec::new();
    append_range(&mut output, data, 0, 8);
    proof {
        assert(data@.subrange(0, 8) == png_signature());
    }
    let mut i: usize = 0;
    while i < cs.len()
        invariant
            chunks_placed(data@, cs@),
            0 <= i <= cs@.len(),
            output@ == png_signature() + without_type(data@, cs@.take(i as int), cabx()),
        decreases cs@.len() - i,
    {
        proof {
            assert(cs@.take(i + 1).drop_last() =~= cs@.take(i as int));
        }
        if !cs[i].name.is_type(99, 97, 66, 88) {
            output.extend_from_slice(encoded_of(data, &cs, i));
        }
        proof {
            assert(output@ =~= png_signature() + without_type(data@, cs@.take(i + 1), cabx()));
        }
        i += 1;
    }
    assert(cs@.take(cs@.len() as int) =~= cs@);
    Ok(output)
}

} // verus!
