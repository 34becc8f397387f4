//! Import candidates, progress and planning contract. Paths and full errors
//! stay inside the library.

use crate::batch::{BatchError, JobFailure};
use crate::model::{ByteCount, ImageInfo, ResourceLimits};
use vstd::prelude::*;

verus! {

/// Defaults: 1000 files, 10000 entries, 32 directory levels, 1 GiB read in total.
/// Valid: 1..=100000 files, 1..=1000000 entries, depth at most 256 (0 still
/// allows files directly inside a root). `probe_limits` bound each file's
/// compressed bytes and declared decode size; scanning never decodes pixels.
#[derive(Debug, Clone, Copy, PartialEq, Eq, Structural)]
pub struct ScanOptions {
    pub max_files: usize,
    pub max_entries: usize,
    pub max_depth: usize,
    pub max_read_bytes: ByteCount,
    pub probe_limits: ResourceLimits,
    /// Only an explicit `true` includes the library's own temporary and backup
    /// names; ordinary `_compressed` pictures are never excluded.
    pub include_artifacts: bool,
}

impl ScanOptions {
    /// Hard limit on explicit roots, shared by the application and the scan;
    /// the number of roots must also stay within `max_entries`.
    pub const MAX_ROOTS: usize = 1000;

    pub open spec fn spec_valid(self) -> bool {
        &&& 1 <= self.max_files <= 100_000
        &&& 1 <= self.max_entries <= 1_000_000
        &&& self.max_depth <= 256
        &&& self.max_read_bytes.0 != 0
        &&& self.probe_limits.spec_valid()
    }
}

impl Default for ScanOptions {
    fn default() -> (r: Self)
        ensures
            r.max_files == 1000,
            r.max_entries == 10_000,
            r.max_depth == 32,
            r.max_read_bytes.0 == 1024 * 1024 * 1024,
            r.probe_limits == ResourceLimits::spec_default(),
            !r.include_artifacts,
    {
        ScanOptions {
            max_files: 1000,
            max_entries: 10_000,
            max_depth: 32,
            max_read_bytes: ByteCount(1024 * 1024 * 1024),
            probe_limits: ResourceLimits::default(),
            include_artifacts: false,
        }
    }
}

#[derive(Debug, Clone, Copy, PartialEq, Eq, Structural)]
pub enum ScanLimit {
    Entries,
    Files,
    Depth,
    ReadBytes,
}

#[derive(Debug, Clone, Copy, PartialEq, Eq, Structural)]
pub enum ScanStatus {
    Scanning,
    Complete,
    Cancelled,
    Limited(ScanLimit),
}

/// Counts and bytes actually read, not percentages. `discovered` includes
/// directories and explicit roots; `examined` counts entries checked so far.
#[derive(Debug, Clone, Copy, PartialEq, Eq, Structural)]
pub struct ScanProgress {
    pub status: ScanStatus,
    pub discovered: usize,
    pub examined: usize,
    pub accepted: usize,
    pub duplicates: usize,
    pub excluded: usize,
    pub rejected: usize,
    pub read_bytes: ByteCount,
}

#[derive(Debug, Clone, Copy, PartialEq, Eq, Structural)]
pub enum UnsupportedFormat {
    Jpeg,
    Gif,
    WebP,
    Other,
}

#[derive(Debug)]
pub enum ImportIssueKind {
    Failure(JobFailure),
    Unsupported(UnsupportedFormat),
    Duplicate { first: String },
    GeneratedArtifact,
}

impl Clone for ImportIssueKind {
    fn clone(&self) -> (r: Self)
        ensures
            r == *self,
    {
        match self {
            ImportIssueKind::Failure(f) => ImportIssueKind::Failure(f.clone()),
            ImportIssueKind::Unsupported(u) => ImportIssueKind::Unsupported(*u),
            ImportIssueKind::Duplicate { first } => ImportIssueKind::Duplicate { first: first.clone() },
            ImportIssueKind::GeneratedArtifact => ImportIssueKind::GeneratedArtifact,
        }
    }
}

/// One independent piece of feedback; the path is not logged automatically.
#[derive(Debug)]
pub struct ImportIssue {
    pub path: String,
    pub kind: ImportIssueKind,
}

impl Clone for ImportIssue {
    fn clone(&self) -> (r: Self)
        ensures
            r == *self,
    {
        ImportIssue { path: self.path.clone(), kind: self.kind.clone() }
    }
}

/// A structurally valid static PNG candidate. A file with correct checksums
/// but corrupt compressed pixels may still fail to decode in the pipeline.
#[derive(Debug)]
pub struct ImportedFile {
    pub source: String,
    /// The import root that first accepted the file.
    pub root: String,
    pub root_is_directory: bool,
    pub relative_path: String,
    pub input_bytes: ByteCount,
    pub image: ImageInfo,
}

impl Clone for ImportedFile {
    fn clone(&self) -> (r: Self)
        ensures
            r == *self,
    {
        ImportedFile {
            source: self.source.clone(),
            root: self.root.clone(),
            root_is_directory: self.root_is_directory,
            relative_path: self.relative_path.clone(),
            input_bytes: self.input_bytes,
            image: self.image,
        }
    }
}

#[derive(Debug, Clone, Copy, PartialEq, Eq, Structural)]
pub enum CopyLayout {
    Flat,
    PreserveRoots,
}

/// Overwrite by default. Copies are named `stem_compressed.png`; a name clash
/// is refused rather than overwritten or numbered.
#[derive(Debug)]
pub enum ImportOutput {
    Overwrite,
    CopyBeside,
    /// `directory` must exist. Preserving structure maps a directory root to
    /// `root_name/relative path`; single files go to the top.
    CopyTo { directory: String, layout: CopyLayout },
}

impl Default for ImportOutput {
    fn default() -> (r: Self)
        ensures
            r is Overwrite,
    {
        ImportOutput::Overwrite
    }
}

impl Clone for ImportOutput {
    fn clone(&self) -> (r: Self)
        ensures
            r == *self,
    {
        match self {
            ImportOutput::Overwrite => ImportOutput::Overwrite,
            ImportOutput::CopyBeside => ImportOutput::CopyBeside,
            ImportOutput::CopyTo { directory, layout } => ImportOutput::CopyTo {
                directory: directory.clone(),
                layout: *layout,
            },
        }
    }
}

#[derive(Debug)]
pub enum ImportError {
    InvalidOptions,
    TooManyRoots,
    IncompleteScan,
    NoFiles,
    /// Different roots are never merged silently into one target folder, even
    /// when their file names do not overlap yet.
    RootNameConflict { first: String, second: String },
    Batch(BatchError),
    /// A failed pre-check keeps the candidate's zero-based index and cause; the
    /// scan can be planned again with other settings.
    File { index: usize, failure: JobFailure },
}

impl ImportError {
    /// The user-facing message of the error.
    pub fn message(&self) -> (r: &'static str)
        ensures
            r == (match *self {
                    ImportError::InvalidOptions => "导入资源配置无效",
                    ImportError::TooManyRoots => "导入根数量超出上限",
                    ImportError::IncompleteScan => "扫描未完整结束，不能启动部分批次",
                    ImportError::NoFiles => "没有可处理的静态PNG候选",
                    ImportError::RootNameConflict { .. } => "不同导入根映射到同名目标文件夹",
                    ImportError::Batch(_) => "批次参数或路径规划冲突",
                    ImportError::File { .. } => "候选文件或输出路径预检失败",
                }),
    {
        match self {
            ImportError::InvalidOptions => "导入资源配置无效",
            ImportError::TooManyRoots => "导入根数量超出上限",
            ImportError::IncompleteScan => "扫描未完整结束，不能启动部分批次",
            ImportError::NoFiles => "没有可处理的静态PNG候选",
            ImportError::RootNameConflict { .. } => "不同导入根映射到同名目标文件夹",
            ImportError::Batch(_) => "批次参数或路径规划冲突",
            ImportError::File { .. } => "候选文件或输出路径预检失败",
        }
    }
}

} // verus!
