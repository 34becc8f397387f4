//! Content recognition and bounded decoding: the PNG structure, dimensions and
//! animation markers are checked before any decode buffer is allocated.
//! File extensions play no part.

use crate::model::{ImageInfo, PngColorType, ProcessingError, ResourceLimits};
use crate::pngcodec::{finish, next_frame, open_identity, output_buffer_size, try_reserve_exact, DecodeFault};
use vstd::prelude::*;

verus! {

/// Most chunks a PNG may hold.
pub const MAX_CHUNKS: usize = 4096;

/// One bit of the reflected CRC-32 register with the polynomial 0x04C11DB7.
pub open spec fn crc32_shift(c: u32) -> u32 {
    if c & 1 == 1 {
        (c >> 1u32) ^ 0xEDB8_8320u32
    } else {
        c >> 1u32
    }
}

/// The register after one more byte, least significant bit first.
pub open spec fn crc32_step(c: u32, b: u8) -> u32 {
    let x = c ^ (b as u32);
    crc32_shift(crc32_shift(crc32_shift(crc32_shift(crc32_shift(crc32_shift(crc32_shift(crc32_shift(x))))))))
}

/// The register after the bytes, starting from all ones.
pub open spec fn crc32_register(bytes: Seq<u8>) -> u32
    decreases bytes.len(),
{
    if bytes.len() == 0 {
        0xFFFF_FFFFu32
    } else {
        crc32_step(crc32_register(bytes.drop_last()), bytes.last())
    }
}

/// The CRC-32 (ISO-HDLC) of a byte sequence: the final register, inverted.
pub open spec fn crc32_of(bytes: Seq<u8>) -> u32 {
    crc32_register(bytes) ^ 0xFFFF_FFFFu32
}

/// `crc32fast::hash`: the standard CRC-32 of the bytes, as defined above.
#[verifier::external_body]
fn crc32(bytes: &[u8]) -> (r: u32)
    ensures
        r == crc32_of(bytes@),
{
    crc32fast::hash(bytes)
}

/// A four-byte chunk type.
#[derive(Debug, Clone, Copy, PartialEq, Eq, Structural)]
pub struct ChunkName(pub u8, pub u8, pub u8, pub u8);

/// An ASCII letter.
pub open spec fn is_letter(b: u8) -> bool {
    (65 <= b <= 90) || (97 <= b <= 122)
}

/// An ASCII upper-case letter (bit 5 clear).
pub open spec fn is_upper(b: u8) -> bool {
    65 <= b <= 90
}

impl ChunkName {
    /// Four letters, the reserved (third) letter upper-case.
    pub open spec fn well_formed(self) -> bool {
        is_letter(self.0) && is_letter(self.1) && is_letter(self.2) && is_letter(self.3)
            && is_upper(self.2)
    }

    /// Critical chunks have an upper-case first letter.
    pub open spec fn critical(self) -> bool {
        is_upper(self.0)
    }

    /// Safe-to-copy chunks have a lower-case last letter.
    pub open spec fn safe_to_copy(self) -> bool {
        !is_upper(self.3)
    }

    pub open spec fn is(self, a: char, b: char, c: char, d: char) -> bool {
        self.0 as int == a as int && self.1 as int == b as int && self.2 as int == c as int
            && self.3 as int == d as int
    }

    /// Whether this is the named chunk type.
    pub fn is_type(self, a: u8, b: u8, c: u8, d: u8) -> (r: bool)
        ensures
            r == (self == ChunkName(a, b, c, d)),
    {
        self.0 == a && self.1 == b && self.2 == c && self.3 == d
    }
}

pub open spec fn ihdr() -> ChunkName {
    ChunkName(73, 72, 68, 82)
}

pub open spec fn plte() -> ChunkName {
    ChunkName(80, 76, 84, 69)
}

pub open spec fn idat() -> ChunkName {
    ChunkName(73, 68, 65, 84)
}

pub open spec fn iend() -> ChunkName {
    ChunkName(73, 69, 78, 68)
}

pub open spec fn is_animation(n: ChunkName) -> bool {
    n == ChunkName(97, 99, 84, 76) || n == ChunkName(102, 99, 84, 76) || n == ChunkName(102, 100, 65, 84)
}

pub open spec fn is_known_critical(n: ChunkName) -> bool {
    n == ihdr() || n == plte() || n == idat() || n == iend()
}

/// One chunk, located in the parsed buffer: `length` data bytes after an
/// 8-byte header starting at `start`, followed by a 4-byte CRC.
#[derive(Debug, Clone, Copy, PartialEq, Eq, Structural)]
pub struct Chunk {
    pub name: ChunkName,
    pub start: usize,
    pub length: usize,
}

impl Chunk {
    /// One past the chunk's CRC.
    pub open spec fn end(self) -> int {
        self.start + 12 + self.length
    }

    /// The whole encoded chunk: length, type, data and CRC.
    pub open spec fn encoded(self, data: Seq<u8>) -> Seq<u8> {
        data.subrange(self.start as int, self.end())
    }
}

/// Why a byte sequence is not a static PNG chunk stream.
#[derive(Debug, Clone, Copy, PartialEq, Eq, Structural)]
pub enum PngFault {
    MissingSignature,
    TooManyChunks,
    HeaderTruncated,
    InvalidTypeOrLength,
    DataTruncated,
    CrcMismatch,
    FirstNotIhdr,
    DuplicateIhdr,
    Animation,
    UnknownCritical,
    IdatNotContiguous,
    InvalidEnd,
    MissingEnd,
}

/// The 8-byte PNG signature.
pub open spec fn png_signature() -> Seq<u8> {
    seq![137u8, 80u8, 78u8, 71u8, 13u8, 10u8, 26u8, 10u8]
}

/// The unsigned big-endian 32-bit integer at `i`.
pub open spec fn be_u32(s: Seq<u8>, i: int) -> int {
    s[i] as int * 16777216 + s[i + 1] as int * 65536 + s[i + 2] as int * 256 + s[i + 3] as int
}

/// The chunk type at `i`.
pub open spec fn name_at(s: Seq<u8>, i: int) -> ChunkName {
    ChunkName(s[i], s[i + 1], s[i + 2], s[i + 3])
}

/// Reads the chunk stream from `offset`, given the chunks `acc` already read and
/// whether an IDAT run has started / ended; the first violation decides the fault.
pub open spec fn scan_chunks(
    data: Seq<u8>,
    offset: int,
    seen_idat: bool,
    closed_idat: bool,
    acc: Seq<Chunk>,
) -> Result<Seq<Chunk>, PngFault>
    decreases data.len() - offset,
{
    if offset < 0 || offset >= data.len() {
        Err(PngFault::MissingEnd)
    } else if acc.len() >= MAX_CHUNKS {
        Err(PngFault::TooManyChunks)
    } else if offset + 8 > data.len() {
        Err(PngFault::HeaderTruncated)
    } else {
        let len = be_u32(data, offset);
        let name = name_at(data, offset + 4);
        let end = offset + 12 + len;
        if len > 0x7fff_ffff || !name.well_formed() {
            Err(PngFault::InvalidTypeOrLength)
        } else if end > data.len() {
            Err(PngFault::DataTruncated)
        } else if crc32_of(data.subrange(offset + 4, end - 4)) as int != be_u32(data, end - 4) {
            Err(PngFault::CrcMismatch)
        } else if acc.len() == 0 && (name != ihdr() || len != 13) {
            Err(PngFault::FirstNotIhdr)
        } else if name == ihdr() && acc.len() != 0 {
            Err(PngFault::DuplicateIhdr)
        } else if is_animation(name) {
            Err(PngFault::Animation)
        } else if name.critical() && !is_known_critical(name) {
            Err(PngFault::UnknownCritical)
        } else if name == idat() && closed_idat {
            Err(PngFault::IdatNotContiguous)
        } else {
            let next = acc.push(Chunk { name, start: offset as usize, length: len as usize });
            if name == iend() {
                if len != 0 || !seen_idat || end != data.len() {
                    Err(PngFault::InvalidEnd)
                } else {
                    Ok(next)
                }
            } else {
                scan_chunks(
                    data,
                    end,
                    seen_idat || name == idat(),
                    closed_idat || (name != idat() && seen_idat),
                    next,
                )
            }
        }
    }
}

/// Whether the bytes start with the PNG signature.
pub open spec fn has_signature(data: Seq<u8>) -> bool {
    data.len() >= 8 && data.subrange(0, 8) == png_signature()
}

/// The chunk stream of a static PNG, or the first structural fault.
pub open spec fn spec_chunks(data: Seq<u8>) -> Result<Seq<Chunk>, PngFault> {
    if !has_signature(data) {
        Err(PngFault::MissingSignature)
    } else {
        scan_chunks(data, 8, false, false, Seq::empty())
    }
}

/// The error a structural fault is reported as.
pub open spec fn spec_fault_error(f: PngFault) -> ProcessingError {
    match f {
        PngFault::MissingSignature => ProcessingError::UnsupportedFormat,
        PngFault::TooManyChunks => ProcessingError::ResourceLimit("PNG chunk 数量"),
        PngFault::HeaderTruncated => ProcessingError::InvalidPng("chunk 头截断"),
        PngFault::InvalidTypeOrLength => ProcessingError::InvalidPng("chunk 类型或长度无效"),
        PngFault::DataTruncated => ProcessingError::InvalidPng("chunk 数据截断"),
        PngFault::CrcMismatch => ProcessingError::InvalidPng("chunk CRC 不匹配"),
        PngFault::FirstNotIhdr => ProcessingError::InvalidPng("首个 chunk 必须为 IHDR"),
        PngFault::DuplicateIhdr => ProcessingError::InvalidPng("重复 IHDR"),
        PngFault::Animation => ProcessingError::UnsupportedAnimation,
        PngFault::UnknownCritical => ProcessingError::InvalidPng("未知关键 chunk"),
        PngFault::IdatNotContiguous => ProcessingError::InvalidPng("IDAT 必须连续"),
        PngFault::InvalidEnd => ProcessingError::InvalidPng("IEND 无效或含尾随数据"),
        PngFault::MissingEnd => ProcessingError::InvalidPng("缺少 IEND"),
    }
}

/// Maps a structural fault to its processing error.
pub fn fault_error(f: PngFault) -> (r: ProcessingError)
    ensures
        r == spec_fault_error(f),
{
    match f {
        PngFault::MissingSignature => ProcessingError::UnsupportedFormat,
        PngFault::TooManyChunks => ProcessingError::ResourceLimit("PNG chunk 数量"),
        PngFault::HeaderTruncated => ProcessingError::InvalidPng("chunk 头截断"),
        PngFault::InvalidTypeOrLength => ProcessingError::InvalidPng("chunk 类型或长度无效"),
        PngFault::DataTruncated => ProcessingError::InvalidPng("chunk 数据截断"),
        PngFault::CrcMismatch => ProcessingError::InvalidPng("chunk CRC 不匹配"),
        PngFault::FirstNotIhdr => ProcessingError::InvalidPng("首个 chunk 必须为 IHDR"),
        PngFault::DuplicateIhdr => ProcessingError::InvalidPng("重复 IHDR"),
        PngFault::Animation => ProcessingError::UnsupportedAnimation,
        PngFault::UnknownCritical => ProcessingError::InvalidPng("未知关键 chunk"),
        PngFault::IdatNotContiguous => ProcessingError::InvalidPng("IDAT 必须连续"),
        PngFault::InvalidEnd => ProcessingError::InvalidPng("IEND 无效或含尾随数据"),
        PngFault::MissingEnd => ProcessingError::InvalidPng("缺少 IEND"),
    }
}

/// Reads the big-endian `u32` at `i`.
pub fn read_be_u32(data: &[u8], i: usize) -> (r: u32)
    requires
        i + 4 <= data@.len(),
    ensures
        r as int == be_u32(data@, i as int),
{
    data[i] as u32 * 16777216 + data[i + 1] as u32 * 65536 + data[i + 2] as u32 * 256
        + data[i + 3] as u32
}

fn letter(b: u8) -> (r: bool)
    ensures
        r == is_letter(b),
{
    (65 <= b && b <= 90) || (97 <= b && b <= 122)
}

/// Whether the bytes start with the PNG signature.
pub fn starts_with_signature(data: &[u8]) -> (r: bool)
    ensures
        r == has_signature(data@),
{
    if data.len() < 8 {
        return false;
    }
    let r = data[0] == 137 && data[1] == 80 && data[2] == 78 && data[3] == 71 && data[4] == 13
        && data[5] == 10 && data[6] == 26 && data[7] == 10;
    proof {
        if r {
            assert(data@.subrange(0, 8) =~= png_signature());
        } else {
            if data@.subrange(0, 8) == png_signature() {
                assert(data@.subrange(0, 8)[0] == data@[0]);
                assert(data@.subrange(0, 8)[1] == data@[1]);
                assert(data@.subrange(0, 8)[2] == data@[2]);
                assert(data@.subrange(0, 8)[3] == data@[3]);
                assert(data@.subrange(0, 8)[4] == data@[4]);
                assert(data@.subrange(0, 8)[5] == data@[5]);
                assert(data@.subrange(0, 8)[6] == data@[6]);
                assert(data@.subrange(0, 8)[7] == data@[7]);
            }
        }
    }
    r
}

/// Splits a static PNG into its chunks, checking the signature, every CRC, the
/// IHDR/IEND placement, contiguous IDATs and the absence of animation chunks.
pub fn parse_chunks(data: &[u8]) -> (r: Result<Vec<Chunk>, PngFault>)
    ensures
        r matches Ok(v) ==> spec_chunks(data@) == Ok::<Seq<Chunk>, PngFault>(v@),
        r matches Err(f) ==> spec_chunks(data@) == Err::<Seq<Chunk>, PngFault>(f),
{
    if !starts_with_signature(data) {
        return Err(PngFault::MissingSignature);
    }
    let mut result: Vec<Chunk> = Vec::new();
    let mut offset: usize = 8;
    let mut seen_idat = false;
    let mut closed_idat = false;
    while offset < data.len()
        invariant
            0 <= offset <= data@.len(),
            spec_chunks(data@) == scan_chunks(data@, offset as int, seen_idat, closed_idat, result@),
        decreases data@.len() - offset,
    {
        if result.len() >= MAX_CHUNKS {
            return Err(PngFault::TooManyChunks);
        }
        if data.len() - offset < 8 {
            return Err(PngFault::HeaderTruncated);
        }
        let length = read_be_u32(data, offset);
        let name = ChunkName(data[offset + 4], data[offset + 5], data[offset + 6], data[offset + 7]);
        proof {
            assert(name == name_at(data@, offset + 4));
        }
        if length > 0x7fff_ffff || !(letter(name.0) && letter(name.1) && letter(name.2) && letter(
            name.3,
        ) && name.2 >= 65 && name.2 <= 90) {
            return Err(PngFault::InvalidTypeOrLength);
        }
        let len = length as usize;
        if data.len() - offset < 12 || data.len() - offset - 12 < len {
            return Err(PngFault::DataTruncated);
        }
        let end = offset + 12 + len;
        let crc = crc32(&data[offset + 4..end - 4]);
        if crc != read_be_u32(data, end - 4) {
            return Err(PngFault::CrcMismatch);
        }
        let is_ihdr = name.is_type(73, 72, 68, 82);
        let is_idat = name.is_type(73, 68, 65, 84);
        let is_iend = name.is_type(73, 69, 78, 68);
        if result.len() == 0 && (!is_ihdr || len != 13) {
            return Err(PngFault::FirstNotIhdr);
        }
        if is_ihdr && result.len() != 0 {
            return Err(PngFault::DuplicateIhdr);
        }
        if name.is_type(97, 99, 84, 76) || name.is_type(102, 99, 84, 76) || name.is_type(
            102,
            100,
            65,
            84,
        ) {
            return Err(PngFault::Animation);
        }
        if name.0 >= 65 && name.0 <= 90 && !(is_ihdr || name.is_type(80, 76, 84, 69) || is_idat
            || is_iend) {
            return Err(PngFault::UnknownCritical);
        }
        if is_idat {
            if closed_idat {
                return Err(PngFault::IdatNotContiguous);
            }
            seen_idat = true;
        } else if seen_idat {
            closed_idat = true;
        }
        result.push(Chunk { name, start: offset, length: len });
        if is_iend {
            if len != 0 || !seen_idat || end != data.len() {
                return Err(PngFault::InvalidEnd);
            }
            return Ok(result);
        }
        offset = end;
    }
    Err(PngFault::MissingEnd)
}

} // verus!
verus! {

/// A chunk whose header, CRC and type pass the per-chunk checks.
pub open spec fn chunk_valid(data: Seq<u8>, c: Chunk) -> bool {
    &&& 8 <= c.start
    &&& c.end() <= data.len()
    &&& be_u32(data, c.start as int) == c.length
    &&& name_at(data, c.start + 4) == c.name
    &&& c.length <= 0x7fff_ffff
    &&& c.name.well_formed()
    &&& crc32_of(data.subrange(c.start + 4, c.end() - 4)) as int == be_u32(data, c.end() - 4)
    &&& !is_animation(c.name)
    &&& (c.name.critical() ==> is_known_critical(c.name))
}

/// Chunks laid back to back starting at `from`.
pub open spec fn back_to_back(cs: Seq<Chunk>, from: int) -> bool {
    &&& (cs.len() > 0 ==> cs[0].start == from)
    &&& forall|i: int| 0 < i < cs.len() ==> #[trigger] cs[i].start == cs[i - 1].end()
}

/// All IDAT chunks form one uninterrupted run.
pub open spec fn idat_run(cs: Seq<Chunk>) -> bool {
    forall|i: int, j: int, k: int|
        0 <= i <= j <= k < cs.len() && #[trigger] cs[i].name == idat() && #[trigger] cs[k].name
            == idat() ==> #[trigger] cs[j].name == idat()
}

/// The encodings of the chunks, concatenated in order.
pub open spec fn concat_encoded(data: Seq<u8>, cs: Seq<Chunk>) -> Seq<u8>
    decreases cs.len(),
{
    if cs.len() == 0 {
        Seq::empty()
    } else {
        cs[0].encoded(data) + concat_encoded(data, cs.drop_first())
    }
}

/// The structure every successfully parsed static PNG has.
#[verifier::opaque]
pub open spec fn well_formed_stream(data: Seq<u8>, cs: Seq<Chunk>) -> bool {
    &&& has_signature(data)
    &&& 0 < cs.len() <= MAX_CHUNKS
    &&& back_to_back(cs, 8)
    &&& cs.last().end() == data.len()
    &&& forall|i: int| 0 <= i < cs.len() ==> chunk_valid(data, #[trigger] cs[i])
    &&& cs[0].name == ihdr() && cs[0].length == 13
    &&& forall|i: int| 0 < i < cs.len() ==> #[trigger] cs[i].name != ihdr()
    &&& cs.last().name == iend() && cs.last().length == 0
    &&& forall|i: int| 0 <= i < cs.len() - 1 ==> #[trigger] cs[i].name != iend()
    &&& exists|i: int| 0 <= i < cs.len() && #[trigger] cs[i].name == idat()
    &&& idat_run(cs)
}

/// Every chunk lies inside the data, after the signature.
pub open spec fn chunks_placed(data: Seq<u8>, cs: Seq<Chunk>) -> bool {
    forall|i: int| 0 <= i < cs.len() ==> 8 <= #[trigger] cs[i].start && cs[i].end() <= data.len()
}

/// The facts about a parsed stream that byte-level code needs most.
pub proof fn lemma_stream_basics(data: Seq<u8>, cs: Seq<Chunk>)
    requires
        well_formed_stream(data, cs),
    ensures
        chunks_placed(data, cs),
        cs.len() > 0,
        cs[0].start == 8,
        cs[0].name == ihdr(),
        cs[0].length == 13,
        cs.last().end() == data.len(),
        data.len() >= 33,
{
    reveal(well_formed_stream);
    assert forall|i: int| 0 <= i < cs.len() implies 8 <= #[trigger] cs[i].start && cs[i].end()
        <= data.len() by {
        assert(chunk_valid(data, cs[i]));
    }
    assert(chunk_valid(data, cs[0]));
}

/// What holds of the chunks read so far, at `offset`, with the IDAT flags.
pub open spec fn prefix_ok(
    data: Seq<u8>,
    acc: Seq<Chunk>,
    offset: int,
    seen_idat: bool,
    closed_idat: bool,
) -> bool {
    &&& has_signature(data)
    &&& acc.len() <= MAX_CHUNKS
    &&& back_to_back(acc, 8)
    &&& (acc.len() == 0 ==> offset == 8)
    &&& (acc.len() > 0 ==> acc.last().end() == offset)
    &&& forall|i: int| 0 <= i < acc.len() ==> chunk_valid(data, #[trigger] acc[i])
    &&& (acc.len() > 0 ==> acc[0].name == ihdr() && acc[0].length == 13)
    &&& forall|i: int| 0 < i < acc.len() ==> #[trigger] acc[i].name != ihdr()
    &&& forall|i: int| 0 <= i < acc.len() ==> #[trigger] acc[i].name != iend()
    &&& (seen_idat <==> exists|i: int| 0 <= i < acc.len() && #[trigger] acc[i].name == idat())
    &&& (closed_idat <==> exists|i: int, j: int|
        0 <= i < j < acc.len() && #[trigger] acc[i].name == idat() && #[trigger] acc[j].name
            != idat())
    &&& idat_run(acc)
}

#[verifier::rlimit(40)]
proof fn lemma_scan_structure(
    data: Seq<u8>,
    offset: int,
    seen_idat: bool,
    closed_idat: bool,
    acc: Seq<Chunk>,
)
    requires
        data.len() <= usize::MAX,
        prefix_ok(data, acc, offset, seen_idat, closed_idat),
        scan_chunks(data, offset, seen_idat, closed_idat, acc) is Ok,
    ensures
        well_formed_stream(data, scan_chunks(data, offset, seen_idat, closed_idat, acc)->Ok_0),
    decreases data.len() - offset,
{
    reveal(well_formed_stream);
    let len = be_u32(data, offset);
    let name = name_at(data, offset + 4);
    let end = offset + 12 + len;
    let c = Chunk { name, start: offset as usize, length: len as usize };
    let next = acc.push(c);
    assert(offset >= 8) by {
        if acc.len() > 0 {
            assert(chunk_valid(data, acc[acc.len() - 1]));
        }
    }
    assert(c.start == offset && c.length == len);
    assert(next[next.len() - 1] == c);
    assert forall|i: int| 0 <= i < acc.len() implies next[i] == acc[i] by {}
    assert(chunk_valid(data, c));
    assert forall|i: int| 0 <= i < next.len() implies chunk_valid(data, #[trigger] next[i]) by {
        if i < acc.len() {
            assert(next[i] == acc[i]);
        }
    }
    assert(back_to_back(next, 8));
    let seen2 = seen_idat || name == idat();
    let closed2 = closed_idat || (name != idat() && seen_idat);
    assert(idat_run(next)) by {
        assert forall|i: int, j: int, k: int|
            0 <= i <= j <= k < next.len() && #[trigger] next[i].name == idat() && #[trigger] next[k].name
                == idat() implies #[trigger] next[j].name == idat() by {
            if k == next.len() - 1 && j < k {
                if next[j].name != idat() {
                    assert(acc[i].name == idat() && acc[j].name != idat());
                    assert(closed_idat);
                }
            }
        }
    }
    if name == iend() {
        assert(forall|i: int| 0 < i < next.len() ==> #[trigger] next[i].name != ihdr());
        assert(exists|i: int| 0 <= i < acc.len() && #[trigger] acc[i].name == idat());
        let w = choose|i: int| 0 <= i < acc.len() && #[trigger] acc[i].name == idat();
        assert(next[w].name == idat());
    } else {
        assert(seen2 <==> exists|i: int| 0 <= i < next.len() && #[trigger] next[i].name == idat())
            by {
            if name == idat() {
                assert(next[next.len() - 1].name == idat());
            }
            if exists|i: int| 0 <= i < next.len() && #[trigger] next[i].name == idat() {
                let w = choose|i: int| 0 <= i < next.len() && #[trigger] next[i].name == idat();
                if w < acc.len() {
                    assert(acc[w].name == idat());
                }
            }
        }
        assert(closed2 <==> exists|i: int, j: int|
            0 <= i < j < next.len() && #[trigger] next[i].name == idat() && #[trigger] next[j].name
                != idat()) by {
            if closed_idat {
                let (i, j) = choose|i: int, j: int|
                    0 <= i < j < acc.len() && #[trigger] acc[i].name == idat() && #[trigger] acc[j].name
                        != idat();
                assert(next[i].name == idat() && next[j].name != idat());
            } else if name != idat() && seen_idat {
                let i = choose|i: int| 0 <= i < acc.len() && #[trigger] acc[i].name == idat();
                assert(next[i].name == idat() && next[next.len() - 1].name != idat());
            }
            if exists|i: int, j: int|
                0 <= i < j < next.len() && #[trigger] next[i].name == idat() && #[trigger] next[j].name
                    != idat() {
                let (i, j) = choose|i: int, j: int|
                    0 <= i < j < next.len() && #[trigger] next[i].name == idat() && #[trigger] next[j].name
                        != idat();
                assert(acc[i].name == idat());
                if j < acc.len() {
                    assert(acc[j].name != idat());
                }
            }
        }
        assert(prefix_ok(data, next, end, seen2, closed2));
        lemma_scan_structure(data, end, seen2, closed2, next);
    }
}

/// Law: a byte sequence the parser accepts has the full static PNG structure:
/// the signature, an IHDR of 13 bytes first, back-to-back chunks that pass every
/// per-chunk check, one contiguous IDAT run, no further IHDR, and a single empty
/// IEND that ends the data.
pub proof fn lemma_parsed_png_structure(data: Seq<u8>)
    requires
        data.len() <= usize::MAX,
        spec_chunks(data) is Ok,
    ensures
        well_formed_stream(data, spec_chunks(data)->Ok_0),
{
    let empty = Seq::<Chunk>::empty();
    assert(prefix_ok(data, empty, 8, false, false));
    lemma_scan_structure(data, 8, false, false, empty);
}

proof fn lemma_concat_tiles(data: Seq<u8>, cs: Seq<Chunk>, from: int)
    requires
        cs.len() > 0,
        back_to_back(cs, from),
        cs.last().end() == data.len(),
        0 <= from,
        forall|i: int| 0 <= i < cs.len() ==> #[trigger] cs[i].start <= cs[i].end(),
    ensures
        data.subrange(from, data.len() as int) == concat_encoded(data, cs),
    decreases cs.len(),
{
    let rest = cs.drop_first();
    if cs.len() == 1 {
        assert(concat_encoded(data, rest) =~= Seq::<u8>::empty());
        assert(data.subrange(from, data.len() as int) =~= cs[0].encoded(data));
    } else {
        assert forall|i: int| 0 < i < rest.len() implies #[trigger] rest[i].start == rest[i - 1].end() by {
            assert(rest[i] == cs[i + 1]);
            assert(rest[i - 1] == cs[i]);
        }
        assert(rest.last() == cs.last());
        assert forall|i: int| 0 <= i < rest.len() implies #[trigger] rest[i].start <= rest[i].end() by {
            assert(rest[i] == cs[i + 1]);
        }
        assert(rest[0].start == cs[0].end());
        lemma_concat_tiles(data, rest, cs[0].end());
        assert(cs[0].end() <= data.len()) by {
            lemma_back_to_back_bounded(cs, from);
        }
        assert(data.subrange(from, data.len() as int) =~= cs[0].encoded(data) + data.subrange(
            cs[0].end(),
            data.len() as int,
        ));
    }
}

proof fn lemma_back_to_back_bounded(cs: Seq<Chunk>, from: int)
    requires
        cs.len() > 0,
        back_to_back(cs, from),
        forall|i: int| 0 <= i < cs.len() ==> #[trigger] cs[i].start <= cs[i].end(),
    ensures
        forall|i: int| 0 <= i < cs.len() ==> #[trigger] cs[i].end() <= cs.last().end(),
    decreases cs.len(),
{
    assert forall|i: int| 0 <= i < cs.len() implies #[trigger] cs[i].end() <= cs.last().end() by {
        lemma_end_monotone(cs, from, i, cs.len() - 1);
    }
}

proof fn lemma_end_monotone(cs: Seq<Chunk>, from: int, i: int, j: int)
    requires
        0 <= i <= j < cs.len(),
        back_to_back(cs, from),
        forall|k: int| 0 <= k < cs.len() ==> #[trigger] cs[k].start <= cs[k].end(),
    ensures
        cs[i].end() <= cs[j].end(),
    decreases j - i,
{
    if i < j {
        lemma_end_monotone(cs, from, i, j - 1);
        assert(cs[j].start == cs[j - 1].end());
    }
}

/// Law: the parser loses nothing; an accepted PNG is exactly its signature
/// followed by the encodings of its chunks, in order.
pub proof fn lemma_parsed_png_round_trip(data: Seq<u8>)
    requires
        data.len() <= usize::MAX,
        spec_chunks(data) is Ok,
    ensures
        data == png_signature() + concat_encoded(data, spec_chunks(data)->Ok_0),
{
    let cs = spec_chunks(data)->Ok_0;
    lemma_parsed_png_structure(data);
    reveal(well_formed_stream);
    assert forall|i: int| 0 <= i < cs.len() implies #[trigger] cs[i].start <= cs[i].end() by {
        assert(chunk_valid(data, cs[i]));
    }
    lemma_concat_tiles(data, cs, 8);
    assert(data =~= data.subrange(0, 8) + data.subrange(8, data.len() as int));
}

} // verus!

verus! {

/// A fully decoded static PNG: header properties and the untransformed samples.
pub struct DecodedPng {
    pub info: ImageInfo,
    pub pixels: Vec<u8>,
}

/// Colour type byte to colour type and samples per pixel.
pub open spec fn spec_color(b: u8) -> Option<(PngColorType, int)> {
    if b == 0 {
        Some((PngColorType::Grayscale, 1))
    } else if b == 2 {
        Some((PngColorType::Rgb, 3))
    } else if b == 3 {
        Some((PngColorType::Indexed, 1))
    } else if b == 4 {
        Some((PngColorType::GrayscaleAlpha, 2))
    } else if b == 6 {
        Some((PngColorType::Rgba, 4))
    } else {
        None
    }
}

/// Bit depths the PNG standard allows for a colour type byte.
pub open spec fn depth_valid(color: u8, depth: u8) -> bool {
    if color == 0 {
        depth == 1 || depth == 2 || depth == 4 || depth == 8 || depth == 16
    } else if color == 3 {
        depth == 1 || depth == 2 || depth == 4 || depth == 8
    } else {
        depth == 8 || depth == 16
    }
}

/// Bytes of the untransformed frame: whole bytes per row, times the rows.
pub open spec fn spec_decoded_bytes(width: int, height: int, channels: int, depth: int) -> int {
    ((width * channels * depth + 7) / 8) * height
}

/// The header checks of a PNG whose chunk stream is valid; IHDR's data is at 16..29.
pub open spec fn spec_header(data: Seq<u8>, limits: ResourceLimits) -> Result<
    ImageInfo,
    ProcessingError,
> {
    let w = be_u32(data, 16);
    let h = be_u32(data, 20);
    let depth = data[24];
    let color = data[25];
    if w == 0 || h == 0 {
        Err(ProcessingError::InvalidPng("尺寸必须非零"))
    } else if w > limits.max_dimension || h > limits.max_dimension {
        Err(ProcessingError::ResourceLimit("图片单边尺寸"))
    } else if w * h > limits.max_pixels {
        Err(ProcessingError::ResourceLimit("图片像素数"))
    } else {
        match spec_color(color) {
            None => Err(ProcessingError::InvalidPng("色型无效")),
            Some((color_type, channels)) => {
                if !depth_valid(color, depth) || data[26] != 0 || data[27] != 0 || data[28] > 1 {
                    Err(ProcessingError::InvalidPng("位深或编码方法无效"))
                } else if spec_decoded_bytes(w, h, channels, depth as int) > u64::MAX {
                    Err(ProcessingError::ResourceLimit("解码大小溢出"))
                } else if spec_decoded_bytes(w, h, channels, depth as int)
                    > limits.max_decoded_bytes.0 {
                    Err(ProcessingError::ResourceLimit("解码像素字节数"))
                } else {
                    Ok(
                        ImageInfo {
                            width: w as u32,
                            height: h as u32,
                            bit_depth: depth,
                            color_type,
                            interlaced: data[28] == 1,
                        },
                    )
                }
            },
        }
    }
}

/// What a structural inspection reports: limit validity, input size, the chunk
/// stream, then the header checks, in that order.
pub open spec fn spec_inspect_structure(data: Seq<u8>, limits: ResourceLimits) -> Result<
    ImageInfo,
    ProcessingError,
> {
    if !limits.spec_valid() {
        Err(ProcessingError::InvalidLimits)
    } else if data.len() > limits.max_input_bytes.0 {
        Err(ProcessingError::ResourceLimit("输入文件字节数"))
    } else {
        match spec_chunks(data) {
            Err(f) => Err(spec_fault_error(f)),
            Ok(_) => spec_header(data, limits),
        }
    }
}

/// `info` reports the IHDR fields of `data` as they stand: the big-endian width
/// at bytes 16..20, then the height at 20..24, the bit depth at 24, the colour
/// type code at 25 and the interlace method at 28.
pub open spec fn header_fields(data: Seq<u8>, info: ImageInfo) -> bool {
    &&& info.width as int == data[16] as int * 0x100_0000 + data[17] as int * 0x1_0000 + data[18] as int * 0x100
        + data[19] as int
    &&& info.height as int == data[20] as int * 0x100_0000 + data[21] as int * 0x1_0000 + data[22] as int * 0x100
        + data[23] as int
    &&& info.bit_depth == data[24]
    &&& info.interlaced == (data[28] == 1)
    &&& match info.color_type {
        PngColorType::Grayscale => data[25] == 0,
        PngColorType::Rgb => data[25] == 2,
        PngColorType::Indexed => data[25] == 3,
        PngColorType::GrayscaleAlpha => data[25] == 4,
        PngColorType::Rgba => data[25] == 6,
    }
}

/// An accepted image is reported with exactly the size, depth, colour type and
/// interlacing its header declares, width before height.
pub proof fn law_inspection_reports_the_header(data: Seq<u8>, limits: ResourceLimits)
    ensures
        spec_inspect_structure(data, limits) matches Ok(info) ==> header_fields(data, info),
{
}

/// Splits a static PNG into its chunks; structural faults become processing errors.
pub fn chunks(data: &[u8]) -> (r: Result<Vec<Chunk>, ProcessingError>)
    ensures
        r matches Ok(v) ==> spec_chunks(data@) == Ok::<Seq<Chunk>, PngFault>(v@)
            && well_formed_stream(data@, v@) && chunks_placed(data@, v@) && v@.len() > 0 && v@[0].start
            == 8 && v@[0].name == ihdr() && v@[0].length == 13 && data@.len() >= 33,
        r matches Err(e) ==> spec_chunks(data@) is Err && e == spec_fault_error(
            spec_chunks(data@)->Err_0,
        ),
{
    match parse_chunks(data) {
        Ok(v) => {
            proof {
                assert(data@.len() == data.len());
                lemma_parsed_png_structure(data@);
                lemma_stream_basics(data@, v@);
            }
            Ok(v)
        },
        Err(f) => Err(fault_error(f)),
    }
}

fn color_of(b: u8) -> (r: Option<(PngColorType, u64)>)
    ensures
        r matches Some((t, c)) ==> spec_color(b) == Some((t, c as int)),
        r is None <==> spec_color(b) is None,
{
    if b == 0 {
        Some((PngColorType::Grayscale, 1))
    } else if b == 2 {
        Some((PngColorType::Rgb, 3))
    } else if b == 3 {
        Some((PngColorType::Indexed, 1))
    } else if b == 4 {
        Some((PngColorType::GrayscaleAlpha, 2))
    } else if b == 6 {
        Some((PngColorType::Rgba, 4))
    } else {
        None
    }
}

/// Checks the structure and header of a static PNG without decoding samples:
/// limits, input size, chunk stream, dimensions, pixel count, colour type, bit
/// depth, methods and the decoded size, each against `limits`.
pub fn inspect_structure(data: &[u8], limits: ResourceLimits) -> (r: Result<
    ImageInfo,
    ProcessingError,
>)
    ensures
        r == spec_inspect_structure(data@, limits),
        r matches Ok(info) ==> header_fields(data@, info),
{
    proof {
        law_inspection_reports_the_header(data@, limits);
    }
    limits.validate()?;
    if data.len() as u64 > limits.max_input_bytes.0 {
        return Err(ProcessingError::ResourceLimit("输入文件字节数"));
    }
    let parsed = chunks(data)?;
    let width = read_be_u32(data, 16);
    let height = read_be_u32(data, 20);
    let depth = data[24];
    let color = data[25];
    if width == 0 || height == 0 {
        return Err(ProcessingError::InvalidPng("尺寸必须非零"));
    }
    if width > limits.max_dimension || height > limits.max_dimension {
        return Err(ProcessingError::ResourceLimit("图片单边尺寸"));
    }
    assert(width as int * height as int <= 0xffff_ffff * 0xffff_ffff) by (nonlinear_arith)
        requires
            width <= 0xffff_ffff,
            height <= 0xffff_ffff,
    ;
    if width as u64 * height as u64 > limits.max_pixels {
        return Err(ProcessingError::ResourceLimit("图片像素数"));
    }
    let (color_type, channels) = match color_of(color) {
        Some(found) => found,
        None => return Err(ProcessingError::InvalidPng("色型无效")),
    };
    let valid_depth = if color == 0 {
        depth == 1 || depth == 2 || depth == 4 || depth == 8 || depth == 16
    } else if color == 3 {
        depth == 1 || depth == 2 || depth == 4 || depth == 8
    } else {
        depth == 8 || depth == 16
    };
    if !valid_depth || data[26] != 0 || data[27] != 0 || data[28] > 1 {
        return Err(ProcessingError::InvalidPng("位深或编码方法无效"));
    }
    assert(width as int * channels as int <= 0xffff_ffff * 4) by (nonlinear_arith)
        requires
            width <= 0xffff_ffff,
            channels <= 4,
    ;
    let pixel_samples = width as u64 * channels;
    assert(pixel_samples as int * depth as int <= 0xffff_ffff * 4 * 255) by (nonlinear_arith)
        requires
            pixel_samples <= 0xffff_ffff * 4,
            depth <= 255,
    ;
    let row_bits = pixel_samples * depth as u64;
    let row_bytes = (row_bits + 7) / 8;
    let decoded = match row_bytes.checked_mul(height as u64) {
        Some(n) => n,
        None => return Err(ProcessingError::ResourceLimit("解码大小溢出")),
    };
    if decoded > limits.max_decoded_bytes.0 {
        return Err(ProcessingError::ResourceLimit("解码像素字节数"));
    }
    Ok(
        ImageInfo {
            width,
            height,
            bit_depth: depth,
            color_type,
            interlaced: data[28] == 1,
        },
    )
}

} // verus!

verus! {

/// The errors only the sample decoding stage can add.
pub open spec fn decoding_stage_error(e: ProcessingError) -> bool {
    ||| e == ProcessingError::ResourceLimit("PNG 解码器")
    ||| e == ProcessingError::ResourceLimit("解码缓冲区")
    ||| e == ProcessingError::ResourceLimit("解码内存分配")
    ||| e is Decode
}

fn decoder_error(f: DecodeFault) -> (r: ProcessingError)
    ensures
        decoding_stage_error(r),
        f is LimitsExceeded ==> r == ProcessingError::ResourceLimit("PNG 解码器"),
        f matches DecodeFault::Other(m) ==> r == ProcessingError::Decode(m),
{
    match f {
        DecodeFault::LimitsExceeded => ProcessingError::ResourceLimit("PNG 解码器"),
        DecodeFault::Other(message) => ProcessingError::Decode(message),
    }
}

/// Fully decodes a static PNG from memory after the structural inspection;
/// no file or network side effects. Samples keep their original bit depth.
pub fn decode(data: &[u8], limits: ResourceLimits) -> (r: Result<DecodedPng, ProcessingError>)
    ensures
        spec_inspect_structure(data@, limits) matches Err(e) ==> r matches Err(x) && x == e,
        r matches Ok(d) ==> spec_inspect_structure(data@, limits) == Ok::<
            ImageInfo,
            ProcessingError,
        >(d.info) && d.pixels@.len() <= limits.max_decoded_bytes.0,
        r matches Err(e) ==> spec_inspect_structure(data@, limits) is Err || decoding_stage_error(
            e,
        ),
{
    let info = inspect_structure(data, limits)?;
    let budget = limits.max_decoded_bytes.0 as usize;
    let mut reader = match open_identity(data, budget) {
        Ok(reader) => reader,
        Err(fault) => return Err(decoder_error(fault)),
    };
    let size = match output_buffer_size(&reader) {
        Some(size) => size,
        None => return Err(ProcessingError::ResourceLimit("解码缓冲区")),
    };
    if size as u64 > limits.max_decoded_bytes.0 {
        return Err(ProcessingError::ResourceLimit("解码缓冲区"));
    }
    let mut pixels: Vec<u8> = Vec::new();
    if !try_reserve_exact(&mut pixels, size) {
        return Err(ProcessingError::ResourceLimit("解码内存分配"));
    }
    pixels.resize(size, 0);
    let frame = match next_frame(&mut reader, &mut pixels) {
        Ok(frame) => frame,
        Err(fault) => return Err(decoder_error(fault)),
    };
    pixels.truncate(frame.buffer_size);
    if let Err(fault) = finish(&mut reader) {
        return Err(decoder_error(fault));
    }
    Ok(DecodedPng { info, pixels })
}

/// Recognises and fully decodes a static PNG from memory, returning its header
/// properties; the input is not modified and nothing is written anywhere.
/// Non-PNG data, animation, damage and exceeded limits are distinct errors.
pub fn inspect_png(data: &[u8], limits: ResourceLimits) -> (r: Result<ImageInfo, ProcessingError>)
    ensures
        spec_inspect_structure(data@, limits) matches Err(e) ==> r matches Err(x) && x == e,
        r matches Ok(info) ==> spec_inspect_structure(data@, limits) == Ok::<
            ImageInfo,
            ProcessingError,
        >(info),
        r matches Err(e) ==> spec_inspect_structure(data@, limits) is Err || decoding_stage_error(
            e,
        ),
        r matches Ok(info) ==> header_fields(data@, info),
{
    proof {
        law_inspection_reports_the_header(data@, limits);
    }
    Ok(decode(data, limits)?.info)
}

} // verus!
