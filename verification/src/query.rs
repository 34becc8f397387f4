//! What one snapshot query shows the web view: a page of rows and the
//! overview, with every count checked against 32 bits, every path reduced to
//! a bounded display name, and errors as stable codes. No full path, image
//! data or low-level error text leaves this module; serialisation is the
//! embedding application's.

use crate::batch::{
    BatchError, BatchPhase, BatchSnapshot, BatchSummary, JobErrorCode, JobFailure, JobSnapshot,
    JobState, PathConflictKind,
};
use crate::import::{ImportError, ImportIssue, ImportIssueKind, ImportedFile, ScanProgress, ScanStatus, UnsupportedFormat};
use crate::model::{PngMode, PngProcessing, ProcessingOutcome, ProcessingReport, ProcessingStage};
use crate::paths::{file_name, parent, spec_file_name, spec_parent};
use crate::tasks::{TaskError, TaskPhase, TaskSnapshot};
use crate::subscriptions::TASK_PROTOCOL_VERSION;
use crate::wire::{
    awaiting_consent, collection_len, consent_rows, count, display_name, is_control, page_error, page_len,
    page_row, page_selection,
    recovery, recovery_of, shown, DisplayName, QueryError, RecoveryCause, TaskCollection, TaskPageRequest,
    MAX_DISPLAY_CHARS,
};
use std::time::Duration;
use vstd::prelude::*;

verus! {

/// `d` is the display name of the last component of `path` (`<root>` when
/// there is none).
pub open spec fn names(path: Seq<char>, d: DisplayName) -> bool {
    match spec_file_name(path) {
        None => d.text@ == "<root>"@ && !d.truncated && !d.lossy && !d.sanitized,
        Some(name) => {
            &&& d.text@ == shown(name)
            &&& d.truncated == (name.len() > MAX_DISPLAY_CHARS)
            &&& !d.lossy
            &&& d.sanitized == exists|i: int| 0 <= i < name.len() && i < MAX_DISPLAY_CHARS && is_control(#[trigger] name[i])
        },
    }
}

/// The display name of a path's last component; never the full path.
pub fn path_name(path: &str) -> (r: DisplayName)
    ensures
        names(path@, r),
{
    match file_name(path) {
        Some(part) => display_name(Some(part.as_str()), false),
        None => display_name(None, false),
    }
}

/// Both absent, or the name shows the path.
pub open spec fn opt_names(path: Option<String>, d: Option<DisplayName>) -> bool {
    match (path, d) {
        (None, None) => true,
        (Some(p), Some(n)) => names(p@, n),
        _ => false,
    }
}

fn opt_path_name(path: &Option<String>) -> (r: Option<DisplayName>)
    ensures
        opt_names(*path, r),
{
    match path {
        Some(p) => Some(path_name(p.as_str())),
        None => None,
    }
}

/// Recovery information as shown: names only.
#[derive(Debug, PartialEq, Eq)]
pub struct RecoveryView {
    pub backup_name: Option<DisplayName>,
    pub temporary_name: Option<DisplayName>,
    pub original_error: Option<RecoveryCause>,
}

/// A row's failure as shown: its stable code and, when something remains to
/// recover, the names of what remains and why the write failed.
#[derive(Debug, PartialEq, Eq)]
pub struct JobFailureView {
    pub code: JobErrorCode,
    pub recovery: Option<RecoveryView>,
}

pub open spec fn failure_shown(f: JobFailure, v: JobFailureView) -> bool {
    &&& v.code == f.code
    &&& match (recovery_of(f), v.recovery) {
        (None, None) => true,
        (Some(r), Some(rv)) => {
            &&& opt_names(r.backup, rv.backup_name)
            &&& opt_names(r.temporary, rv.temporary_name)
            &&& rv.original_error == r.original
        },
        _ => false,
    }
}

/// How a failed row is shown.
pub fn failure_view(f: &JobFailure) -> (r: JobFailureView)
    ensures
        failure_shown(*f, r),
{
    let recovery = match recovery(f) {
        Some(found) => Some(RecoveryView {
            backup_name: opt_path_name(&found.backup),
            temporary_name: opt_path_name(&found.temporary),
            original_error: found.original,
        }),
        None => None,
    };
    JobFailureView { code: f.code, recovery }
}

/// A task's error as a stable code; a row index or identifier travels as a
/// 32-bit number.
#[derive(Debug, PartialEq, Eq)]
pub enum FailureView {
    Busy,
    Closed,
    StaleSelection,
    StaleBatch,
    NotReady,
    TooManyRoots,
    IdExhausted,
    TimedOut,
    ServiceFault,
    WorkerPanicked,
    WorkerStart,
    InvalidConfig,
    EmptyBatch,
    TooManyJobs,
    NoSuchBatch,
    InvalidRetry,
    Cancelled,
    InvalidParameters,
    InvalidOptions,
    IncompleteScan,
    NoFiles,
    RootNameConflict,
    PathConflict { first: u32, second: u32, kind: PathConflictKind },
    File { index: u32, failure: JobFailureView },
}

/// The numbers a batch error carries fit in 32 bits.
pub open spec fn batch_error_fits(e: BatchError) -> bool {
    match e {
        BatchError::PathConflict { first, second, .. } => first.value() <= u32::MAX && second.value() <= u32::MAX,
        _ => true,
    }
}

/// How a batch error is shown.
pub open spec fn batch_error_shown(e: BatchError, v: FailureView) -> bool {
    match e {
        BatchError::InvalidConfig => v == FailureView::InvalidConfig,
        BatchError::EmptyBatch => v == FailureView::EmptyBatch,
        BatchError::TooManyJobs => v == FailureView::TooManyJobs,
        BatchError::Busy => v == FailureView::Busy,
        BatchError::Closed => v == FailureView::Closed,
        BatchError::ServiceFault => v == FailureView::ServiceFault,
        BatchError::NoSuchBatch => v == FailureView::NoSuchBatch,
        BatchError::InvalidRetry => v == FailureView::InvalidRetry,
        BatchError::IdExhausted => v == FailureView::IdExhausted,
        BatchError::TimedOut => v == FailureView::TimedOut,
        BatchError::Cancelled => v == FailureView::Cancelled,
        BatchError::InvalidParameters(_) => v == FailureView::InvalidParameters,
        BatchError::WorkerStart(_) => v == FailureView::WorkerStart,
        BatchError::PathConflict { first, second, kind } => v == (FailureView::PathConflict {
            first: first.value() as u32,
            second: second.value() as u32,
            kind,
        }),
    }
}

/// Shows a batch error; identifiers beyond 32 bits mean a broken snapshot.
pub fn batch_failure(e: &BatchError) -> (r: Result<FailureView, QueryError>)
    ensures
        r is Ok <==> batch_error_fits(*e),
        r matches Ok(v) ==> batch_error_shown(*e, v),
        r matches Err(q) ==> q is InvalidSnapshot,
{
    match e {
        BatchError::InvalidConfig => Ok(FailureView::InvalidConfig),
        BatchError::EmptyBatch => Ok(FailureView::EmptyBatch),
        BatchError::TooManyJobs => Ok(FailureView::TooManyJobs),
        BatchError::Busy => Ok(FailureView::Busy),
        BatchError::Closed => Ok(FailureView::Closed),
        BatchError::ServiceFault => Ok(FailureView::ServiceFault),
        BatchError::NoSuchBatch => Ok(FailureView::NoSuchBatch),
        BatchError::InvalidRetry => Ok(FailureView::InvalidRetry),
        BatchError::IdExhausted => Ok(FailureView::IdExhausted),
        BatchError::TimedOut => Ok(FailureView::TimedOut),
        BatchError::Cancelled => Ok(FailureView::Cancelled),
        BatchError::InvalidParameters(_) => Ok(FailureView::InvalidParameters),
        BatchError::WorkerStart(_) => Ok(FailureView::WorkerStart),
        BatchError::PathConflict { first, second, kind } => {
            let first = match count(first.get()) {
                Ok(n) => n,
                Err(q) => return Err(q),
            };
            let second = match count(second.get()) {
                Ok(n) => n,
                Err(q) => return Err(q),
            };
            Ok(FailureView::PathConflict { first, second, kind: *kind })
        },
    }
}

/// The numbers a task error carries fit in 32 bits.
pub open spec fn task_error_fits(e: TaskError) -> bool {
    match e {
        TaskError::Batch(b) => batch_error_fits(*b),
        TaskError::Import(i) => match *i {
            ImportError::Batch(b) => batch_error_fits(b),
            ImportError::File { index, .. } => index <= u32::MAX,
            _ => true,
        },
        _ => true,
    }
}

/// How a task error is shown.
pub open spec fn task_error_shown(e: TaskError, v: FailureView) -> bool {
    match e {
        TaskError::Busy => v == FailureView::Busy,
        TaskError::Closed => v == FailureView::Closed,
        TaskError::StaleSelection => v == FailureView::StaleSelection,
        TaskError::StaleBatch => v == FailureView::StaleBatch,
        TaskError::NotReady => v == FailureView::NotReady,
        TaskError::TooManyRoots => v == FailureView::TooManyRoots,
        TaskError::IdExhausted => v == FailureView::IdExhausted,
        TaskError::TimedOut => v == FailureView::TimedOut,
        TaskError::ServiceFault => v == FailureView::ServiceFault,
        TaskError::WorkerPanicked => v == FailureView::WorkerPanicked,
        TaskError::WorkerStart(_) => v == FailureView::WorkerStart,
        TaskError::Batch(b) => batch_error_shown(*b, v),
        TaskError::Import(i) => match *i {
            ImportError::InvalidOptions => v == FailureView::InvalidOptions,
            ImportError::TooManyRoots => v == FailureView::TooManyRoots,
            ImportError::IncompleteScan => v == FailureView::IncompleteScan,
            ImportError::NoFiles => v == FailureView::NoFiles,
            ImportError::RootNameConflict { .. } => v == FailureView::RootNameConflict,
            ImportError::Batch(b) => batch_error_shown(b, v),
            ImportError::File { index, failure } => v matches FailureView::File { index: n, failure: fv }
                && n == index && failure_shown(failure, fv),
        },
    }
}

/// Shows a task error as a stable code; numbers beyond 32 bits mean a broken snapshot.
pub fn task_failure(e: &TaskError) -> (r: Result<FailureView, QueryError>)
    ensures
        r is Ok <==> task_error_fits(*e),
        r matches Ok(v) ==> task_error_shown(*e, v),
        r matches Err(q) ==> q is InvalidSnapshot,
{
    match e {
        TaskError::Busy => Ok(FailureView::Busy),
        TaskError::Closed => Ok(FailureView::Closed),
        TaskError::StaleSelection => Ok(FailureView::StaleSelection),
        TaskError::StaleBatch => Ok(FailureView::StaleBatch),
        TaskError::NotReady => Ok(FailureView::NotReady),
        TaskError::TooManyRoots => Ok(FailureView::TooManyRoots),
        TaskError::IdExhausted => Ok(FailureView::IdExhausted),
        TaskError::TimedOut => Ok(FailureView::TimedOut),
        TaskError::ServiceFault => Ok(FailureView::ServiceFault),
        TaskError::WorkerPanicked => Ok(FailureView::WorkerPanicked),
        TaskError::WorkerStart(_) => Ok(FailureView::WorkerStart),
        TaskError::Batch(b) => batch_failure(b),
        TaskError::Import(i) => match &**i {
            ImportError::InvalidOptions => Ok(FailureView::InvalidOptions),
            ImportError::TooManyRoots => Ok(FailureView::TooManyRoots),
            ImportError::IncompleteScan => Ok(FailureView::IncompleteScan),
            ImportError::NoFiles => Ok(FailureView::NoFiles),
            ImportError::RootNameConflict { .. } => Ok(FailureView::RootNameConflict),
            ImportError::Batch(b) => batch_failure(b),
            ImportError::File { index, failure } => {
                let index = match count(*index) {
                    Ok(n) => n,
                    Err(q) => return Err(q),
                };
                Ok(FailureView::File { index, failure: failure_view(failure) })
            },
        },
    }
}

/// Scan counts as shown: each fits in 32 bits.
#[derive(Debug, Clone, Copy, PartialEq, Eq, Structural)]
pub struct ScanProgressView {
    pub status: ScanStatus,
    pub discovered: u32,
    pub examined: u32,
    pub accepted: u32,
    pub duplicates: u32,
    pub excluded: u32,
    pub rejected: u32,
    pub read_bytes: u64,
}

pub open spec fn scan_fits(p: ScanProgress) -> bool {
    &&& p.discovered <= u32::MAX
    &&& p.examined <= u32::MAX
    &&& p.accepted <= u32::MAX
    &&& p.duplicates <= u32::MAX
    &&& p.excluded <= u32::MAX
    &&& p.rejected <= u32::MAX
}

pub open spec fn scan_shown(p: ScanProgress, v: ScanProgressView) -> bool {
    &&& v.status == p.status
    &&& v.discovered == p.discovered
    &&& v.examined == p.examined
    &&& v.accepted == p.accepted
    &&& v.duplicates == p.duplicates
    &&& v.excluded == p.excluded
    &&& v.rejected == p.rejected
    &&& v.read_bytes == p.read_bytes.0
}

/// Shows scan progress; a count beyond 32 bits means a broken snapshot.
pub fn scan_view(p: ScanProgress) -> (r: Result<ScanProgressView, QueryError>)
    ensures
        r is Ok <==> scan_fits(p),
        r matches Ok(v) ==> scan_shown(p, v),
        r matches Err(q) ==> q is InvalidSnapshot,
{
    let discovered = match count(p.discovered) { Ok(n) => n, Err(q) => return Err(q) };
    let examined = match count(p.examined) { Ok(n) => n, Err(q) => return Err(q) };
    let accepted = match count(p.accepted) { Ok(n) => n, Err(q) => return Err(q) };
    let duplicates = match count(p.duplicates) { Ok(n) => n, Err(q) => return Err(q) };
    let excluded = match count(p.excluded) { Ok(n) => n, Err(q) => return Err(q) };
    let rejected = match count(p.rejected) { Ok(n) => n, Err(q) => return Err(q) };
    Ok(ScanProgressView {
        status: p.status,
        discovered,
        examined,
        accepted,
        duplicates,
        excluded,
        rejected,
        read_bytes: p.read_bytes.0,
    })
}

/// A byte count as shown; unknown stays unknown.
pub open spec fn opt_bytes(b: Option<crate::model::ByteCount>) -> Option<u64> {
    match b {
        Some(n) => Some(n.0),
        None => None,
    }
}

fn bytes(b: Option<crate::model::ByteCount>) -> (r: Option<u64>)
    ensures
        r == opt_bytes(b),
{
    match b {
        Some(n) => Some(n.0),
        None => None,
    }
}

/// The batch summary as shown.
#[derive(Debug, Clone, Copy, PartialEq, Eq, Structural)]
pub struct SummaryView {
    pub total: u32,
    pub queued: u32,
    pub running: u32,
    pub succeeded: u32,
    pub no_gain: u32,
    pub failed: u32,
    pub cancelled: u32,
    pub processed: u32,
    pub terminal: u32,
    pub input_bytes: Option<u64>,
    pub current_bytes: Option<u64>,
    pub saved_bytes: Option<u64>,
}

pub open spec fn summary_fits(s: BatchSummary) -> bool {
    &&& s.total <= u32::MAX
    &&& s.queued <= u32::MAX
    &&& s.running <= u32::MAX
    &&& s.succeeded <= u32::MAX
    &&& s.no_gain <= u32::MAX
    &&& s.failed <= u32::MAX
    &&& s.cancelled <= u32::MAX
    &&& s.processed <= u32::MAX
    &&& s.terminal <= u32::MAX
}

pub open spec fn summary_shown(s: BatchSummary, v: SummaryView) -> bool {
    &&& v.total == s.total
    &&& v.queued == s.queued
    &&& v.running == s.running
    &&& v.succeeded == s.succeeded
    &&& v.no_gain == s.no_gain
    &&& v.failed == s.failed
    &&& v.cancelled == s.cancelled
    &&& v.processed == s.processed
    &&& v.terminal == s.terminal
    &&& v.input_bytes == opt_bytes(s.input_bytes)
    &&& v.current_bytes == opt_bytes(s.current_bytes)
    &&& v.saved_bytes == opt_bytes(s.saved_bytes)
}

/// Shows a batch summary; a count beyond 32 bits means a broken snapshot.
pub fn summary_view(s: &BatchSummary) -> (r: Result<SummaryView, QueryError>)
    ensures
        r is Ok <==> summary_fits(*s),
        r matches Ok(v) ==> summary_shown(*s, v),
        r matches Err(q) ==> q is InvalidSnapshot,
{
    let total = match count(s.total) { Ok(n) => n, Err(q) => return Err(q) };
    let queued = match count(s.queued) { Ok(n) => n, Err(q) => return Err(q) };
    let running = match count(s.running) { Ok(n) => n, Err(q) => return Err(q) };
    let succeeded = match count(s.succeeded) { Ok(n) => n, Err(q) => return Err(q) };
    let no_gain = match count(s.no_gain) { Ok(n) => n, Err(q) => return Err(q) };
    let failed = match count(s.failed) { Ok(n) => n, Err(q) => return Err(q) };
    let cancelled = match count(s.cancelled) { Ok(n) => n, Err(q) => return Err(q) };
    let processed = match count(s.processed) { Ok(n) => n, Err(q) => return Err(q) };
    let terminal = match count(s.terminal) { Ok(n) => n, Err(q) => return Err(q) };
    Ok(SummaryView {
        total,
        queued,
        running,
        succeeded,
        no_gain,
        failed,
        cancelled,
        processed,
        terminal,
        input_bytes: bytes(s.input_bytes),
        current_bytes: bytes(s.current_bytes),
        saved_bytes: bytes(s.saved_bytes),
    })
}

/// A file's result as shown: sizes, the wall time, the processing actually
/// taken, and the names of the output and of a kept backup.
#[derive(Debug, PartialEq, Eq)]
pub struct ReportView {
    pub input_bytes: u64,
    pub output_bytes: u64,
    pub elapsed: Duration,
    pub processing: PngProcessing,
    pub output_name: Option<DisplayName>,
    pub backup_name: Option<DisplayName>,
    pub content_credentials_removed: bool,
}

pub open spec fn report_shown(r: ProcessingReport, v: ReportView) -> bool {
    &&& v.input_bytes == r.input_bytes.0
    &&& v.output_bytes == r.output_bytes.0
    &&& v.elapsed == r.elapsed
    &&& v.processing == r.processing
    &&& v.content_credentials_removed == r.content_credentials_removed
    &&& match r.outcome {
        ProcessingOutcome::Optimized { output, backup } => {
            &&& v.output_name matches Some(n) && names(output@, n)
            &&& opt_names(backup, v.backup_name)
        },
        ProcessingOutcome::NoGain => v.output_name is None && v.backup_name is None,
    }
}

/// How a file's result is shown.
pub fn report_view(r: &ProcessingReport) -> (v: ReportView)
    ensures
        report_shown(*r, v),
{
    let (output_name, backup_name) = match &r.outcome {
        ProcessingOutcome::Optimized { output, backup } => (Some(path_name(output.as_str())), opt_path_name(backup)),
        ProcessingOutcome::NoGain => (None, None),
    };
    ReportView {
        input_bytes: r.input_bytes.0,
        output_bytes: r.output_bytes.0,
        elapsed: r.elapsed,
        processing: r.processing,
        output_name,
        backup_name,
        content_credentials_removed: r.content_credentials_removed,
    }
}

/// A row's state as shown.
#[derive(Debug, PartialEq, Eq)]
pub enum JobStateView {
    Queued,
    Running { stage: ProcessingStage, cancel_requested: bool },
    Succeeded { report: ReportView },
    NoGain { report: ReportView },
    Failed { failure: JobFailureView },
    Cancelled,
}

pub open spec fn state_shown(s: JobState, v: JobStateView) -> bool {
    match s {
        JobState::Queued => v is Queued,
        JobState::Running { stage, cancel_requested } => v == (JobStateView::Running { stage, cancel_requested }),
        JobState::Succeeded(r) => v matches JobStateView::Succeeded { report } && report_shown(r, report),
        JobState::NoGain(r) => v matches JobStateView::NoGain { report } && report_shown(r, report),
        JobState::Failed(f) => v matches JobStateView::Failed { failure } && failure_shown(f, failure),
        JobState::Cancelled => v is Cancelled,
    }
}

/// How a row's state is shown.
pub fn state_view(s: &JobState) -> (v: JobStateView)
    ensures
        state_shown(*s, v),
{
    match s {
        JobState::Queued => JobStateView::Queued,
        JobState::Running { stage, cancel_requested } => JobStateView::Running {
            stage: *stage,
            cancel_requested: *cancel_requested,
        },
        JobState::Succeeded(r) => JobStateView::Succeeded { report: report_view(r) },
        JobState::NoGain(r) => JobStateView::NoGain { report: report_view(r) },
        JobState::Failed(f) => JobStateView::Failed { failure: failure_view(f) },
        JobState::Cancelled => JobStateView::Cancelled,
    }
}

/// A batch row as shown: its identifier, attempt, source name, mode, size and state.
#[derive(Debug, PartialEq, Eq)]
pub struct JobView {
    pub id: u32,
    pub attempt: u32,
    pub source_name: DisplayName,
    pub mode: PngMode,
    pub input_bytes: Option<u64>,
    pub state: JobStateView,
}

pub open spec fn job_fits(j: JobSnapshot) -> bool {
    j.id.value() <= u32::MAX
}

pub open spec fn job_shown(j: JobSnapshot, v: JobView) -> bool {
    &&& v.id == j.id.value()
    &&& v.attempt == j.attempt
    &&& names(j.request.source@, v.source_name)
    &&& v.mode == j.request.mode
    &&& v.input_bytes == opt_bytes(j.input_bytes)
    &&& state_shown(j.state, v.state)
}

/// How a batch row is shown; an identifier beyond 32 bits means a broken snapshot.
pub fn job_view(j: &JobSnapshot) -> (r: Result<JobView, QueryError>)
    ensures
        r is Ok <==> job_fits(*j),
        r matches Ok(v) ==> job_shown(*j, v),
        r matches Err(q) ==> q is InvalidSnapshot,
{
    let id = match count(j.id.get()) { Ok(n) => n, Err(q) => return Err(q) };
    Ok(JobView {
        id,
        attempt: j.attempt,
        source_name: path_name(j.request.source.as_str()),
        mode: j.request.mode,
        input_bytes: bytes(j.input_bytes),
        state: state_view(&j.state),
    })
}

/// A scan candidate as shown.
#[derive(Debug, PartialEq, Eq)]
pub struct CandidateView {
    pub index: u32,
    pub source_name: DisplayName,
    pub input_bytes: u64,
    pub width: u32,
    pub height: u32,
}

pub open spec fn candidate_shown(index: int, f: ImportedFile, v: CandidateView) -> bool {
    &&& v.index == index
    &&& names(f.source@, v.source_name)
    &&& v.input_bytes == f.input_bytes.0
    &&& v.width == f.image.width
    &&& v.height == f.image.height
}

/// How the candidate at `index` is shown.
pub fn candidate_view(index: u32, f: &ImportedFile) -> (v: CandidateView)
    ensures
        candidate_shown(index as int, *f, v),
{
    CandidateView {
        index,
        source_name: path_name(f.source.as_str()),
        input_bytes: f.input_bytes.0,
        width: f.image.width,
        height: f.image.height,
    }
}

/// Why a scan entry is not a candidate, as shown.
#[derive(Debug, PartialEq, Eq)]
pub enum IssueKindView {
    Failure { failure: JobFailureView },
    Unsupported { format: UnsupportedFormat },
    Duplicate { first_name: DisplayName },
    GeneratedArtifact,
}

/// A scan issue as shown.
#[derive(Debug, PartialEq, Eq)]
pub struct IssueView {
    pub index: u32,
    pub source_name: DisplayName,
    pub issue: IssueKindView,
}

pub open spec fn issue_shown(index: int, i: ImportIssue, v: IssueView) -> bool {
    &&& v.index == index
    &&& names(i.path@, v.source_name)
    &&& match i.kind {
        ImportIssueKind::Failure(f) => v.issue matches IssueKindView::Failure { failure } && failure_shown(f, failure),
        ImportIssueKind::Unsupported(format) => v.issue == (IssueKindView::Unsupported { format }),
        ImportIssueKind::Duplicate { first } => v.issue matches IssueKindView::Duplicate { first_name } && names(first@, first_name),
        ImportIssueKind::GeneratedArtifact => v.issue is GeneratedArtifact,
    }
}

/// How the issue at `index` is shown.
pub fn issue_view(index: u32, i: &ImportIssue) -> (v: IssueView)
    ensures
        issue_shown(index as int, *i, v),
{
    let issue = match &i.kind {
        ImportIssueKind::Failure(f) => IssueKindView::Failure { failure: failure_view(f) },
        ImportIssueKind::Unsupported(format) => IssueKindView::Unsupported { format: *format },
        ImportIssueKind::Duplicate { first } => IssueKindView::Duplicate { first_name: path_name(first.as_str()) },
        ImportIssueKind::GeneratedArtifact => IssueKindView::GeneratedArtifact,
    };
    IssueView { index, source_name: path_name(i.path.as_str()), issue }
}

/// A row waiting for consent as shown: its identifier, the file's name, the
/// name of its folder, and its size.
#[derive(Debug, PartialEq, Eq)]
pub struct ConfirmationView {
    pub id: u32,
    pub source_name: DisplayName,
    pub source_label: DisplayName,
    pub input_bytes: Option<u64>,
}

/// The folder of a path, or the empty path when it has none.
pub open spec fn folder_of(path: Seq<char>) -> Seq<char> {
    match spec_parent(path) {
        Some(p) => p,
        None => Seq::empty(),
    }
}

pub open spec fn confirmation_shown(j: JobSnapshot, v: ConfirmationView) -> bool {
    &&& v.id == j.id.value()
    &&& names(j.request.source@, v.source_name)
    &&& names(folder_of(j.request.source@), v.source_label)
    &&& v.input_bytes == opt_bytes(j.input_bytes)
}

/// How a row waiting for consent is shown; an identifier beyond 32 bits
/// means a broken snapshot.
pub fn confirmation_view(j: &JobSnapshot) -> (r: Result<ConfirmationView, QueryError>)
    ensures
        r is Ok <==> job_fits(*j),
        r matches Ok(v) ==> confirmation_shown(*j, v),
        r matches Err(q) ==> q is InvalidSnapshot,
{
    let id = match count(j.id.get()) { Ok(n) => n, Err(q) => return Err(q) };
    let source_label = match parent(j.request.source.as_str()) {
        Some(folder) => path_name(folder.as_str()),
        None => path_name(""),
    };
    proof {
        reveal_strlit("");
    }
    Ok(ConfirmationView {
        id,
        source_name: path_name(j.request.source.as_str()),
        source_label,
        input_bytes: bytes(j.input_bytes),
    })
}

/// The batch overview as shown: identity, revision, phase, mode, summary
/// and how many rows wait for consent.
#[derive(Debug, Clone, Copy, PartialEq, Eq, Structural)]
pub struct BatchOverview {
    pub id: u64,
    pub revision: u64,
    pub phase: BatchPhase,
    pub mode: PngMode,
    pub summary: SummaryView,
    pub confirmation_count: u32,
}

pub open spec fn overview_fits(b: BatchSnapshot) -> bool {
    summary_fits(b.summary) && awaiting_consent(b.jobs@).len() <= u32::MAX
}

pub open spec fn overview_shown(b: BatchSnapshot, v: BatchOverview) -> bool {
    &&& v.id == b.id.value()
    &&& v.revision == b.revision
    &&& v.phase == b.phase
    &&& v.mode == b.parameters.mode
    &&& summary_shown(b.summary, v.summary)
    &&& v.confirmation_count == awaiting_consent(b.jobs@).len()
}

/// How a batch is summed up; a count beyond 32 bits means a broken snapshot.
pub fn overview(b: &BatchSnapshot) -> (r: Result<BatchOverview, QueryError>)
    ensures
        r is Ok <==> overview_fits(*b),
        r matches Ok(v) ==> overview_shown(*b, v),
        r matches Err(q) ==> q is InvalidSnapshot,
{
    let summary = match summary_view(&b.summary) { Ok(v) => v, Err(q) => return Err(q) };
    let waiting = consent_rows(b);
    let confirmation_count = match count(waiting.len()) { Ok(n) => n, Err(q) => return Err(q) };
    Ok(BatchOverview {
        id: b.id.get(),
        revision: b.revision,
        phase: b.phase,
        mode: b.parameters.mode,
        summary,
        confirmation_count,
    })
}

/// The page of one collection as shown, with its offset and total.
#[derive(Debug, PartialEq, Eq)]
pub enum PageView {
    Jobs { offset: u32, total: u32, items: Vec<JobView> },
    Candidates { offset: u32, total: u32, items: Vec<CandidateView> },
    Issues { offset: u32, total: u32, items: Vec<IssueView> },
    Confirmations { offset: u32, total: u32, items: Vec<ConfirmationView> },
}

/// One consistent version of the overview and one page of rows.
#[derive(Debug, PartialEq, Eq)]
pub struct SnapshotView {
    pub protocol_version: u32,
    pub revision: u64,
    pub selection_id: Option<u64>,
    pub phase: TaskPhase,
    pub scan: Option<ScanProgressView>,
    pub error: Option<FailureView>,
    pub batch: Option<BatchOverview>,
    pub page: PageView,
}

/// The rows of a page that carry an identifier have one of 32 bits.
pub open spec fn rows_fit(value: TaskSnapshot, request: TaskPageRequest) -> bool {
    match request.collection {
        TaskCollection::Jobs | TaskCollection::Confirmations => forall|k: int|
            0 <= k < page_len(value, request) ==> job_fits(#[trigger] value.batch->0.jobs@[page_row(value, request, k)]),
        _ => true,
    }
}

/// Everything the query shows fits in its wire form.
pub open spec fn view_fits(value: TaskSnapshot, request: TaskPageRequest) -> bool {
    &&& rows_fit(value, request)
    &&& value.scan_progress matches Some(p) ==> scan_fits(p)
    &&& value.error matches Some(e) ==> task_error_fits(e)
    &&& value.batch matches Some(b) ==> overview_fits(*b)
}

pub open spec fn page_shown(value: TaskSnapshot, request: TaskPageRequest, v: PageView) -> bool {
    let n = page_len(value, request);
    let total = collection_len(value, request.collection);
    match request.collection {
        TaskCollection::Jobs => v matches PageView::Jobs { offset, total: t, items } && offset == request.offset
            && t == total && items@.len() == n && forall|k: int| 0 <= k < n ==> job_shown(
            value.batch->0.jobs@[page_row(value, request, k)],
            #[trigger] items@[k],
        ),
        TaskCollection::Candidates => v matches PageView::Candidates { offset, total: t, items } && offset
            == request.offset && t == total && items@.len() == n && forall|k: int| 0 <= k < n ==> candidate_shown(
            page_row(value, request, k),
            value.import->0.spec_files()[page_row(value, request, k)],
            #[trigger] items@[k],
        ),
        TaskCollection::Issues => v matches PageView::Issues { offset, total: t, items } && offset == request.offset
            && t == total && items@.len() == n && forall|k: int| 0 <= k < n ==> issue_shown(
            page_row(value, request, k),
            value.import->0.spec_issues()[page_row(value, request, k)],
            #[trigger] items@[k],
        ),
        TaskCollection::Confirmations => v matches PageView::Confirmations { offset, total: t, items } && offset
            == request.offset && t == total && items@.len() == n && forall|k: int| 0 <= k < n ==> confirmation_shown(
            value.batch->0.jobs@[page_row(value, request, k)],
            #[trigger] items@[k],
        ),
    }
}

pub open spec fn snapshot_shown(value: TaskSnapshot, request: TaskPageRequest, v: SnapshotView) -> bool {
    &&& v.protocol_version == TASK_PROTOCOL_VERSION
    &&& v.revision == value.revision
    &&& v.selection_id == match value.selection {
        Some(s) => Some(s.value()),
        None => None::<u64>,
    }
    &&& v.phase == value.phase
    &&& match (value.scan_progress, v.scan) {
        (None, None) => true,
        (Some(p), Some(sv)) => scan_shown(p, sv),
        _ => false,
    }
    &&& match (value.error, v.error) {
        (None, None) => true,
        (Some(e), Some(f)) => task_error_shown(e, f),
        _ => false,
    }
    &&& match (value.batch, v.batch) {
        (None, None) => true,
        (Some(b), Some(o)) => overview_shown(*b, o),
        _ => false,
    }
    &&& page_shown(value, request, v.page)
}

fn job_rows(jobs: &Vec<JobSnapshot>, rows: &Vec<usize>) -> (r: Result<Vec<JobView>, QueryError>)
    requires
        forall|j: int| 0 <= j < rows@.len() ==> (#[trigger] rows@[j]) < jobs@.len(),
    ensures
        r is Ok <==> forall|j: int| 0 <= j < rows@.len() ==> job_fits(jobs@[#[trigger] rows@[j] as int]),
        r matches Ok(items) ==> items@.len() == rows@.len() && forall|j: int|
            0 <= j < rows@.len() ==> job_shown(jobs@[rows@[j] as int], #[trigger] items@[j]),
        r matches Err(q) ==> q is InvalidSnapshot,
{
    let mut items: Vec<JobView> = Vec::new();
    let mut k: usize = 0;
    while k < rows.len()
        invariant
            k <= rows@.len(),
            forall|j: int| 0 <= j < rows@.len() ==> (#[trigger] rows@[j]) < jobs@.len(),
            items@.len() == k,
            forall|j: int| 0 <= j < k ==> job_fits(jobs@[#[trigger] rows@[j] as int]),
            forall|j: int| 0 <= j < k ==> job_shown(jobs@[rows@[j] as int], #[trigger] items@[j]),
        decreases rows@.len() - k,
    {
        let row = rows[k];
        let view = match job_view(&jobs[row]) {
            Ok(v) => v,
            Err(q) => return Err(q),
        };
        items.push(view);
        k = k + 1;
    }
    Ok(items)
}

fn confirmation_rows(jobs: &Vec<JobSnapshot>, rows: &Vec<usize>) -> (r: Result<Vec<ConfirmationView>, QueryError>)
    requires
        forall|j: int| 0 <= j < rows@.len() ==> (#[trigger] rows@[j]) < jobs@.len(),
    ensures
        r is Ok <==> forall|j: int| 0 <= j < rows@.len() ==> job_fits(jobs@[#[trigger] rows@[j] as int]),
        r matches Ok(items) ==> items@.len() == rows@.len() && forall|j: int|
            0 <= j < rows@.len() ==> confirmation_shown(jobs@[rows@[j] as int], #[trigger] items@[j]),
        r matches Err(q) ==> q is InvalidSnapshot,
{
    let mut items: Vec<ConfirmationView> = Vec::new();
    let mut k: usize = 0;
    while k < rows.len()
        invariant
            k <= rows@.len(),
            forall|j: int| 0 <= j < rows@.len() ==> (#[trigger] rows@[j]) < jobs@.len(),
            items@.len() == k,
            forall|j: int| 0 <= j < k ==> job_fits(jobs@[#[trigger] rows@[j] as int]),
            forall|j: int| 0 <= j < k ==> confirmation_shown(jobs@[rows@[j] as int], #[trigger] items@[j]),
        decreases rows@.len() - k,
    {
        let row = rows[k];
        let view = match confirmation_view(&jobs[row]) {
            Ok(v) => v,
            Err(q) => return Err(q),
        };
        items.push(view);
        k = k + 1;
    }
    Ok(items)
}

fn candidate_rows(files: &[ImportedFile], rows: &Vec<usize>) -> (items: Vec<CandidateView>)
    requires
        forall|j: int| 0 <= j < rows@.len() ==> (#[trigger] rows@[j]) < files@.len() && rows@[j] <= u32::MAX,
    ensures
        items@.len() == rows@.len(),
        forall|j: int| 0 <= j < rows@.len() ==> candidate_shown(rows@[j] as int, files@[rows@[j] as int], #[trigger] items@[j]),
{
    let mut items: Vec<CandidateView> = Vec::new();
    let mut k: usize = 0;
    while k < rows.len()
        invariant
            k <= rows@.len(),
            forall|j: int| 0 <= j < rows@.len() ==> (#[trigger] rows@[j]) < files@.len() && rows@[j] <= u32::MAX,
            items@.len() == k,
            forall|j: int| 0 <= j < k ==> candidate_shown(rows@[j] as int, files@[rows@[j] as int], #[trigger] items@[j]),
        decreases rows@.len() - k,
    {
        let row = rows[k];
        items.push(candidate_view(row as u32, &files[row]));
        k = k + 1;
    }
    items
}

fn issue_rows(issues: &[ImportIssue], rows: &Vec<usize>) -> (items: Vec<IssueView>)
    requires
        forall|j: int| 0 <= j < rows@.len() ==> (#[trigger] rows@[j]) < issues@.len() && rows@[j] <= u32::MAX,
    ensures
        items@.len() == rows@.len(),
        forall|j: int| 0 <= j < rows@.len() ==> issue_shown(rows@[j] as int, issues@[rows@[j] as int], #[trigger] items@[j]),
{
    let mut items: Vec<IssueView> = Vec::new();
    let mut k: usize = 0;
    while k < rows.len()
        invariant
            k <= rows@.len(),
            forall|j: int| 0 <= j < rows@.len() ==> (#[trigger] rows@[j]) < issues@.len() && rows@[j] <= u32::MAX,
            items@.len() == k,
            forall|j: int| 0 <= j < k ==> issue_shown(rows@[j] as int, issues@[rows@[j] as int], #[trigger] items@[j]),
        decreases rows@.len() - k,
    {
        let row = rows[k];
        items.push(issue_view(row as u32, &issues[row]));
        k = k + 1;
    }
    items
}

/// Answers a snapshot query: the request is checked against the snapshot
/// (see [`page_selection`](crate::wire::page_selection)), then one page of the
/// chosen collection and the overview are shown. A count or identifier
/// beyond 32 bits anywhere in what is shown means a broken snapshot.
pub fn snapshot_view(value: &TaskSnapshot, request: &TaskPageRequest) -> (r: Result<SnapshotView, QueryError>)
    ensures
        page_error(*value, *request) matches Some(e) ==> r == Err::<SnapshotView, QueryError>(e),
        page_error(*value, *request) is None ==> (r is Ok <==> view_fits(*value, *request)),
        page_error(*value, *request) is None && r is Err ==> (r matches Err(q) && q is InvalidSnapshot),
        r matches Ok(v) ==> snapshot_shown(*value, *request, v),
{
    let selection = match page_selection(value, request) {
        Ok(p) => p,
        Err(e) => return Err(e),
    };
    let rows = &selection.rows;
    let ghost n = page_len(*value, *request);
    assert(rows@.len() == n);
    let page = match request.collection {
        TaskCollection::Jobs => {
            let items = match &value.batch {
                Some(b) => {
                    assert forall|j: int| 0 <= j < rows@.len() implies (#[trigger] rows@[j]) < b.jobs@.len() by {
                        assert(rows@[j] as int == page_row(*value, *request, j));
                    }
                    match job_rows(&b.jobs, rows) {
                        Ok(items) => {
                            assert forall|k: int| 0 <= k < page_len(*value, *request) implies job_fits(
                                #[trigger] value.batch->0.jobs@[page_row(*value, *request, k)],
                            ) by {
                                assert(rows@[k] as int == page_row(*value, *request, k));
                            }
                            items
                        },
                        Err(q) => {
                            assert(!rows_fit(*value, *request)) by {
                                let j = choose|j: int| 0 <= j < rows@.len() && !job_fits(b.jobs@[#[trigger] rows@[j] as int]);
                                assert(rows@[j] as int == page_row(*value, *request, j));
                            }
                            return Err(q);
                        },
                    }
                },
                None => Vec::new(),
            };
            PageView::Jobs { offset: request.offset, total: selection.total, items }
        },
        TaskCollection::Confirmations => {
            let items = match &value.batch {
                Some(b) => {
                    proof {
                        crate::wire::lemma_awaiting_bounds(b.jobs@);
                    }
                    assert forall|j: int| 0 <= j < rows@.len() implies (#[trigger] rows@[j]) < b.jobs@.len() by {
                        assert(rows@[j] as int == page_row(*value, *request, j));
                        assert(0 <= request.offset + j < awaiting_consent(b.jobs@).len());
                    }
                    match confirmation_rows(&b.jobs, rows) {
                        Ok(items) => {
                            assert forall|k: int| 0 <= k < page_len(*value, *request) implies job_fits(
                                #[trigger] value.batch->0.jobs@[page_row(*value, *request, k)],
                            ) by {
                                assert(rows@[k] as int == page_row(*value, *request, k));
                            }
                            items
                        },
                        Err(q) => {
                            assert(!rows_fit(*value, *request)) by {
                                let j = choose|j: int| 0 <= j < rows@.len() && !job_fits(b.jobs@[#[trigger] rows@[j] as int]);
                                assert(rows@[j] as int == page_row(*value, *request, j));
                            }
                            return Err(q);
                        },
                    }
                },
                None => Vec::new(),
            };
            PageView::Confirmations { offset: request.offset, total: selection.total, items }
        },
        TaskCollection::Candidates => {
            let items = match &value.import {
                Some(scan) => {
                    let files = scan.files();
                    assert forall|j: int| 0 <= j < rows@.len() implies (#[trigger] rows@[j]) < files@.len() && rows@[j] <= u32::MAX by {
                        assert(rows@[j] as int == page_row(*value, *request, j));
                    }
                    candidate_rows(files, rows)
                },
                None => Vec::new(),
            };
            PageView::Candidates { offset: request.offset, total: selection.total, items }
        },
        TaskCollection::Issues => {
            let items = match &value.import {
                Some(scan) => {
                    let issues = scan.issues();
                    assert forall|j: int| 0 <= j < rows@.len() implies (#[trigger] rows@[j]) < issues@.len() && rows@[j] <= u32::MAX by {
                        assert(rows@[j] as int == page_row(*value, *request, j));
                    }
                    issue_rows(issues, rows)
                },
                None => Vec::new(),
            };
            PageView::Issues { offset: request.offset, total: selection.total, items }
        },
    };
    let scan = match value.scan_progress {
        Some(p) => match scan_view(p) {
            Ok(v) => Some(v),
            Err(q) => return Err(q),
        },
        None => None,
    };
    let error = match &value.error {
        Some(e) => match task_failure(e) {
            Ok(v) => Some(v),
            Err(q) => return Err(q),
        },
        None => None,
    };
    let batch = match &value.batch {
        Some(b) => match overview(b) {
            Ok(v) => Some(v),
            Err(q) => return Err(q),
        },
        None => None,
    };
    let selection_id = match value.selection {
        Some(id) => Some(id.get()),
        None => None,
    };
    Ok(SnapshotView {
        protocol_version: TASK_PROTOCOL_VERSION,
        revision: value.revision,
        selection_id,
        phase: value.phase,
        scan,
        error,
        batch,
        page,
    })
}

} // verus!
