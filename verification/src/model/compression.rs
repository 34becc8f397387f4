//! Single-file processing contract; lossless and lossy parameters are separate.

use super::metadata::{ContentCredentialsSource, PngMetadataPolicy};
use super::quality::{PngMode, PngProcessing};
use crate::probe::ChunkName;
use std::time::Duration;
use vstd::prelude::*;
use vstd::string::*;

verus! {

/// An operating-system I/O failure carried through unchanged.
#[verifier::external_type_specification]
#[verifier::external_body]
pub struct ExIoError(std::io::Error);

/// `Duration::clone`: `Duration` is `Copy`, so the clone equals the original.
pub assume_specification[ <Duration as Clone>::clone ](d: &Duration) -> (r: Duration)
    ensures
        r == *d,
;

/// File or buffer size in bytes.
#[derive(Debug, Clone, Copy, PartialEq, Eq, PartialOrd, Ord, Structural)]
pub struct ByteCount(pub u64);

/// Colour type of a PNG source or output; lossless keeps it, lossy may index it.
#[derive(Debug, Clone, Copy, PartialEq, Eq, Structural)]
pub enum PngColorType {
    Grayscale,
    Rgb,
    Indexed,
    GrayscaleAlpha,
    Rgba,
}

/// Static PNG properties.
#[derive(Debug, Clone, Copy, PartialEq, Eq, Structural)]
pub struct ImageInfo {
    pub width: u32,
    pub height: u32,
    pub bit_depth: u8,
    pub color_type: PngColorType,
    pub interlaced: bool,
}

/// Per-file resource limits; every value must be non-zero. Not an OS quota.
///
/// Defaults: 64 MiB input, 128 MiB per decode buffer, 16M pixels, 16384 per side.
#[derive(Debug, Clone, Copy, PartialEq, Eq, Structural)]
pub struct ResourceLimits {
    pub max_input_bytes: ByteCount,
    pub max_decoded_bytes: ByteCount,
    pub max_pixels: u64,
    pub max_dimension: u32,
}

impl Default for ResourceLimits {
    fn default() -> (r: Self)
        ensures
            r.max_input_bytes.0 == 64 * 1024 * 1024,
            r.max_decoded_bytes.0 == 128 * 1024 * 1024,
            r.max_pixels == 16 * 1024 * 1024,
            r.max_dimension == 16384,
    {
        ResourceLimits {
            max_input_bytes: ByteCount(64 * 1024 * 1024),
            max_decoded_bytes: ByteCount(128 * 1024 * 1024),
            max_pixels: 16 * 1024 * 1024,
            max_dimension: 16384,
        }
    }
}

impl ResourceLimits {
    /// The default limits: 64 MiB input, 128 MiB per decode buffer, 16M pixels, 16384 per side.
    pub open spec fn spec_default() -> Self {
        ResourceLimits {
            max_input_bytes: ByteCount(67108864u64),
            max_decoded_bytes: ByteCount(134217728u64),
            max_pixels: 16777216u64,
            max_dimension: 16384u32,
        }
    }

    /// All four limits are non-zero and the byte limits stay addressable.
    pub open spec fn spec_valid(self) -> bool {
        &&& self.max_input_bytes.0 != 0
        &&& self.max_decoded_bytes.0 != 0
        &&& self.max_pixels != 0
        &&& self.max_dimension != 0
        &&& self.max_input_bytes.0 < isize::MAX
        &&& self.max_decoded_bytes.0 < isize::MAX
    }

    /// Rejects zero or unaddressable limits with `InvalidLimits`.
    pub fn validate(self) -> (r: Result<(), ProcessingError>)
        ensures
            r is Ok <==> self.spec_valid(),
            r matches Err(e) ==> e is InvalidLimits,
    {
        if self.max_input_bytes.0 == 0 || self.max_decoded_bytes.0 == 0 || self.max_pixels == 0
            || self.max_dimension == 0 || self.max_input_bytes.0 >= isize::MAX as u64
            || self.max_decoded_bytes.0 >= isize::MAX as u64
        {
            return Err(ProcessingError::InvalidLimits);
        }
        Ok(())
    }
}

/// Overwrite keeps a recoverable backup unless explicitly waived; copies only
/// accept a target that does not exist yet.
#[derive(Debug, PartialEq, Eq)]
pub enum OutputPolicy {
    Overwrite,
    /// Only reachable through an explicit confirmation; still validated and replaced safely.
    OverwriteWithoutBackup,
    Copy { destination: String },
    /// Explicitly allows structure directories inside an existing root;
    /// `relative` must be a non-empty plain relative path.
    CopyTree { root: String, relative: String },
}

impl Clone for OutputPolicy {
    fn clone(&self) -> (r: Self)
        ensures
            r == *self,
    {
        match self {
            OutputPolicy::Overwrite => OutputPolicy::Overwrite,
            OutputPolicy::OverwriteWithoutBackup => OutputPolicy::OverwriteWithoutBackup,
            OutputPolicy::Copy { destination } => OutputPolicy::Copy {
                destination: destination.clone(),
            },
            OutputPolicy::CopyTree { root, relative } => OutputPolicy::CopyTree {
                root: root.clone(),
                relative: relative.clone(),
            },
        }
    }
}

impl Default for OutputPolicy {
    fn default() -> (r: Self)
        ensures
            r is Overwrite,
    {
        OutputPolicy::Overwrite
    }
}

/// A static PNG request fixed at start. Paths are validated when it runs;
/// the default is lossless and overwrites the source.
#[derive(Debug)]
pub struct PngRequest {
    pub source: String,
    pub output: OutputPolicy,
    pub limits: ResourceLimits,
    pub mode: PngMode,
    pub metadata: PngMetadataPolicy,
}

impl Clone for PngRequest {
    fn clone(&self) -> (r: Self)
        ensures
            r == *self,
    {
        PngRequest {
            source: self.source.clone(),
            output: self.output.clone(),
            limits: self.limits,
            mode: self.mode,
            metadata: self.metadata.clone(),
        }
    }
}

impl PngRequest {
    /// The default lossless overwrite request for a source; performs no I/O.
    pub fn new(source: String) -> (r: Self)
        ensures
            r.source@ == source@,
            r.output is Overwrite,
            r.limits.max_input_bytes.0 == 64 * 1024 * 1024,
            r.limits.max_decoded_bytes.0 == 128 * 1024 * 1024,
            r.limits.max_pixels == 16 * 1024 * 1024,
            r.limits.max_dimension == 16384,
            r.mode == PngMode::Lossless,
            r.metadata is Preserve,
    {
        PngRequest {
            source,
            output: OutputPolicy::Overwrite,
            limits: ResourceLimits::default(),
            mode: PngMode::Lossless,
            metadata: PngMetadataPolicy::Preserve,
        }
    }
}

/// Real processing stages, not percentages; `BeforeCommit` is the last point
/// at which a cancellation is still honoured.
#[derive(Debug, Clone, Copy, PartialEq, Eq, Structural)]
pub enum ProcessingStage {
    Reading,
    Optimizing,
    Validating,
    BeforeCommit,
}

/// What happened to the file; failures and cancellation are errors instead.
#[derive(Debug, PartialEq, Eq)]
pub enum ProcessingOutcome {
    Optimized {
        output: String,
        /// The backup of the original kept by an overwrite; never deleted by the core.
        backup: Option<String>,
    },
    NoGain,
}

impl Clone for ProcessingOutcome {
    fn clone(&self) -> (r: Self)
        ensures
            r == *self,
    {
        match self {
            ProcessingOutcome::Optimized { output, backup } => ProcessingOutcome::Optimized {
                output: output.clone(),
                backup: match backup {
                    Some(path) => Some(path.clone()),
                    None => None,
                },
            },
            ProcessingOutcome::NoGain => ProcessingOutcome::NoGain,
        }
    }
}

/// Real file sizes and wall time; with no gain `output_bytes == input_bytes`.
#[derive(Debug)]
pub struct ProcessingReport {
    pub image: ImageInfo,
    pub output_image: ImageInfo,
    pub processing: PngProcessing,
    pub content_credentials_removed: bool,
    pub input_bytes: ByteCount,
    pub output_bytes: ByteCount,
    pub elapsed: Duration,
    pub outcome: ProcessingOutcome,
}

impl Clone for ProcessingReport {
    fn clone(&self) -> (r: Self)
        ensures
            r == *self,
    {
        ProcessingReport {
            image: self.image,
            output_image: self.output_image,
            processing: self.processing,
            content_credentials_removed: self.content_credentials_removed,
            input_bytes: self.input_bytes,
            output_bytes: self.output_bytes,
            elapsed: self.elapsed.clone(),
            outcome: self.outcome.clone(),
        }
    }
}

/// Identifiable failures; the underlying I/O cause is kept as `source`.
#[derive(Debug)]
pub enum ProcessingError {
    InvalidLimits,
    InvalidPath,
    UnsupportedFormat,
    UnsupportedAnimation,
    /// An unknown unsafe-to-copy chunk that cannot be carried over a rewritten image.
    UnsupportedMetadata(ChunkName),
    /// Content credentials were found; removal needs consent bound to this source version.
    ContentCredentialsRequireConsent(ContentCredentialsSource),
    InvalidPng(&'static str),
    ResourceLimit(&'static str),
    /// The decoder's message.
    Decode(String),
    /// The encoder's message.
    Encode(String),
    ValidationFailed(&'static str),
    TargetConflict,
    SourceChanged,
    Cancelled,
    Io { operation: &'static str, source: std::io::Error },
    /// Failure after entering the replacement section; the recovery backup is kept.
    CommitFailed { source: std::io::Error, backup: String },
    /// Cleanup failed; the remaining path and the original failure are exposed.
    CleanupFailed {
        original: Option<Box<ProcessingError>>,
        source: std::io::Error,
        temporary: String,
    },
}

impl ProcessingError {
    /// An I/O failure of the named operation.
    pub fn io(operation: &'static str, source: std::io::Error) -> (r: Self)
        ensures
            r matches ProcessingError::Io { operation: o, source: s } && o == operation && s == source,
    {
        ProcessingError::Io { operation, source }
    }

    /// The user-facing message of the error. It names the failed operation
    /// or the broken rule, never a path and never the codec's own text.
    pub fn message(&self) -> (r: String)
        ensures
            r@ == processing_message(*self),
    {
        match self {
            ProcessingError::InvalidLimits => String::from_str("资源上限必须为非零且可寻址的有效值"),
            ProcessingError::InvalidPath => String::from_str("路径必须指向普通文件且不能是符号链接"),
            ProcessingError::UnsupportedFormat => String::from_str("本阶段仅支持真实静态 PNG 文件"),
            ProcessingError::UnsupportedAnimation => String::from_str("本阶段尚不支持 APNG，未修改原图"),
            ProcessingError::UnsupportedMetadata(_) => String::from_str("含不能安全改写的元数据，未修改原图"),
            ProcessingError::ContentCredentialsRequireConsent(_) => String::from_str("含内容凭据，需确认移除后才能处理，未修改原图"),
            ProcessingError::InvalidPng(reason) => String::from_str("PNG 结构无效：").concat(reason),
            ProcessingError::ResourceLimit(resource) => String::from_str("资源超限：").concat(resource),
            ProcessingError::Decode(_) => String::from_str("PNG 解码失败"),
            ProcessingError::Encode(_) => String::from_str("PNG 编码失败"),
            ProcessingError::ValidationFailed(reason) => String::from_str("PNG 产物验证失败：").concat(reason),
            ProcessingError::TargetConflict => String::from_str("副本目标已存在，未覆盖"),
            ProcessingError::SourceChanged => String::from_str("源文件在处理期间发生变化，未提交"),
            ProcessingError::Cancelled => String::from_str("处理已取消，未提交"),
            ProcessingError::Io { operation, .. } => String::from_str("文件操作失败：").concat(operation),
            ProcessingError::CommitFailed { .. } => String::from_str("替换失败，原始备份已保留"),
            ProcessingError::CleanupFailed { .. } => String::from_str("临时文件清理失败，残留路径已保留"),
        }
    }
}

/// The text of a processing error's message.
pub open spec fn processing_message(e: ProcessingError) -> Seq<char> {
    match e {
        ProcessingError::InvalidLimits => "资源上限必须为非零且可寻址的有效值"@,
        ProcessingError::InvalidPath => "路径必须指向普通文件且不能是符号链接"@,
        ProcessingError::UnsupportedFormat => "本阶段仅支持真实静态 PNG 文件"@,
        ProcessingError::UnsupportedAnimation => "本阶段尚不支持 APNG，未修改原图"@,
        ProcessingError::UnsupportedMetadata(_) => "含不能安全改写的元数据，未修改原图"@,
        ProcessingError::ContentCredentialsRequireConsent(_) => "含内容凭据，需确认移除后才能处理，未修改原图"@,
        ProcessingError::InvalidPng(reason) => "PNG 结构无效："@ + reason@,
        ProcessingError::ResourceLimit(resource) => "资源超限："@ + resource@,
        ProcessingError::Decode(_) => "PNG 解码失败"@,
        ProcessingError::Encode(_) => "PNG 编码失败"@,
        ProcessingError::ValidationFailed(reason) => "PNG 产物验证失败："@ + reason@,
        ProcessingError::TargetConflict => "副本目标已存在，未覆盖"@,
        ProcessingError::SourceChanged => "源文件在处理期间发生变化，未提交"@,
        ProcessingError::Cancelled => "处理已取消，未提交"@,
        ProcessingError::Io { operation, .. } => "文件操作失败："@ + operation@,
        ProcessingError::CommitFailed { .. } => "替换失败，原始备份已保留"@,
        ProcessingError::CleanupFailed { .. } => "临时文件清理失败，残留路径已保留"@,
    }
}

} // verus!
