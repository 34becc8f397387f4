//! Batch domain contract: identifiers, job states, failures and the summary
//! of a batch. Paths, durations and raw errors stay inside the library.

use crate::model::cancel::share;
use crate::model::{
    ByteCount, ContentCredentialsSource, OutputPolicy, PngMetadataPolicy, PngMode,
    PngQualityMapping, PngRequest, ProcessingError, ProcessingReport, ProcessingStage,
    ResourceLimits,
};
use crate::probe::ChunkName;
use std::sync::Arc;
use vstd::prelude::*;

verus! {

/// Batch identifier, increasing over the service's lifetime; callers cannot forge one.
#[derive(Debug, Clone, Copy, PartialEq, Eq, Structural)]
pub struct BatchId(pub(crate) u64);

impl BatchId {
    pub closed spec fn value(self) -> u64 {
        self.0
    }

    pub(crate) fn new(value: u64) -> (r: Self)
        ensures
            r.value() == value,
    {
        BatchId(value)
    }

    pub fn get(self) -> (r: u64)
        ensures
            r == self.value(),
    {
        self.0
    }
}

/// Stable row identifier inside a batch, starting at 1; a retry keeps it.
#[derive(Debug, Clone, Copy, PartialEq, Eq, Structural)]
pub struct JobId(pub(crate) usize);

impl JobId {
    pub closed spec fn value(self) -> usize {
        self.0
    }

    pub(crate) fn new(value: usize) -> (r: Self)
        ensures
            r.value() == value,
    {
        JobId(value)
    }

    /// Row identifiers with the same number are the same identifier.
    pub proof fn lemma_same_value(a: JobId, b: JobId)
        requires
            a.value() == b.value(),
        ensures
            a == b,
    {
    }

    pub fn get(self) -> (r: usize)
        ensures
            r == self.value(),
    {
        self.0
    }
}

/// Common parameters of one start. The core defaults to lossless.
#[derive(Debug, Clone, Copy, PartialEq, Eq, Structural)]
pub struct BatchParameters {
    pub mode: PngMode,
    pub limits: ResourceLimits,
}

impl Default for BatchParameters {
    fn default() -> (r: Self)
        ensures
            r.mode == PngMode::Lossless,
            r.limits.max_input_bytes.0 == 64 * 1024 * 1024,
            r.limits.max_decoded_bytes.0 == 128 * 1024 * 1024,
            r.limits.max_pixels == 16 * 1024 * 1024,
            r.limits.max_dimension == 16384,
    {
        BatchParameters { mode: PngMode::Lossless, limits: ResourceLimits::default() }
    }
}

/// One selected source and its explicit output policy.
#[derive(Debug)]
pub struct BatchItem {
    pub source: String,
    pub output: OutputPolicy,
}

impl Clone for BatchItem {
    fn clone(&self) -> (r: Self)
        ensures
            r == *self,
    {
        BatchItem { source: self.source.clone(), output: self.output.clone() }
    }
}

#[derive(Debug)]
pub struct BatchRequest {
    pub items: Vec<BatchItem>,
    pub parameters: BatchParameters,
}

/// Selects one failed or cancelled row; the output may change, the source may not.
#[derive(Debug)]
pub struct RetryJob {
    pub id: JobId,
    pub output: OutputPolicy,
    /// `Preserve` for a plain retry; a removal names the inspected source version again.
    pub metadata: PngMetadataPolicy,
}

#[derive(Debug)]
pub struct RetryRequest {
    pub jobs: Vec<RetryJob>,
    pub parameters: BatchParameters,
}

/// Workers, retained rows and the estimated working-set budget (not a process RSS cap).
/// Defaults: 1 worker, 1000 rows, 4 GiB. Valid: 1..=32 workers, 1..=100000 rows.
#[derive(Debug, Clone, Copy, PartialEq, Eq, Structural)]
pub struct BatchConfig {
    pub workers: usize,
    pub max_jobs: usize,
    pub working_set_budget: ByteCount,
}

impl Default for BatchConfig {
    fn default() -> (r: Self)
        ensures
            r.workers == 1,
            r.max_jobs == 1000,
            r.working_set_budget.0 == 4 * 1024 * 1024 * 1024,
    {
        BatchConfig {
            workers: 1,
            max_jobs: 1000,
            working_set_budget: ByteCount(4 * 1024 * 1024 * 1024),
        }
    }
}

impl BatchConfig {
    pub open spec fn spec_valid(self) -> bool {
        &&& 1 <= self.workers <= 32
        &&& 1 <= self.max_jobs <= 100_000
        &&& self.working_set_budget.0 != 0
    }

    /// Rejects a configuration outside the valid ranges with `InvalidConfig`.
    pub fn validate(self) -> (r: Result<(), BatchError>)
        ensures
            r is Ok <==> self.spec_valid(),
            r matches Err(e) ==> e is InvalidConfig,
    {
        if self.workers < 1 || self.workers > 32 || self.max_jobs < 1 || self.max_jobs > 100_000
            || self.working_set_budget.0 == 0
        {
            return Err(BatchError::InvalidConfig);
        }
        Ok(())
    }
}

#[derive(Debug, Clone, Copy, PartialEq, Eq, Structural)]
pub enum BatchPhase {
    Running,
    Cancelling,
    Finished,
}

/// Cancelling is still a running state; only the pipeline's return picks the
/// final state, so a committed success is never overwritten by a cancel request.
#[derive(Debug)]
pub enum JobState {
    Queued,
    Running { stage: ProcessingStage, cancel_requested: bool },
    Succeeded(ProcessingReport),
    NoGain(ProcessingReport),
    Failed(JobFailure),
    Cancelled,
}

impl Clone for JobState {
    fn clone(&self) -> (r: Self)
        ensures
            r == *self,
    {
        match self {
            JobState::Queued => JobState::Queued,
            JobState::Running { stage, cancel_requested } => JobState::Running {
                stage: *stage,
                cancel_requested: *cancel_requested,
            },
            JobState::Succeeded(report) => JobState::Succeeded(report.clone()),
            JobState::NoGain(report) => JobState::NoGain(report.clone()),
            JobState::Failed(failure) => JobState::Failed(failure.clone()),
            JobState::Cancelled => JobState::Cancelled,
        }
    }
}

impl JobState {
    pub open spec fn spec_terminal(self) -> bool {
        !(self is Queued || self is Running)
    }

    pub open spec fn spec_retryable(self) -> bool {
        self is Failed || self is Cancelled
    }

    /// Whether the row reached a final state.
    pub fn is_terminal(&self) -> (r: bool)
        ensures
            r == self.spec_terminal(),
    {
        !matches!(self, JobState::Queued | JobState::Running { .. })
    }

    /// Only failed and cancelled rows may be retried.
    pub fn can_retry(&self) -> (r: bool)
        ensures
            r == self.spec_retryable(),
    {
        matches!(self, JobState::Failed(_) | JobState::Cancelled)
    }
}

/// Stable error categories; the full cause is kept in `JobFailure::cause`.
#[derive(Debug, Clone, Copy, PartialEq, Eq, Structural)]
pub enum JobErrorCode {
    InvalidInput,
    UnsupportedFormat,
    UnsupportedAnimation,
    UnsupportedContentCredentials,
    UnsupportedMetadata,
    ResourceLimit,
    Decode,
    Encode,
    Validation,
    TargetConflict,
    SourceChanged,
    Io,
    CommitFailed,
    CleanupFailed,
    WorkerPanicked,
    ServiceFault,
}

/// The content-credentials chunk type `caBX`.
pub open spec fn is_cabx(name: ChunkName) -> bool {
    name == ChunkName(0x63, 0x61, 0x42, 0x58)
}

/// The category of a processing error.
pub open spec fn error_code(error: ProcessingError) -> JobErrorCode {
    match error {
        ProcessingError::InvalidLimits => JobErrorCode::InvalidInput,
        ProcessingError::InvalidPath => JobErrorCode::InvalidInput,
        ProcessingError::InvalidPng(_) => JobErrorCode::InvalidInput,
        ProcessingError::UnsupportedFormat => JobErrorCode::UnsupportedFormat,
        ProcessingError::UnsupportedAnimation => JobErrorCode::UnsupportedAnimation,
        ProcessingError::UnsupportedMetadata(name) => if is_cabx(name) {
            JobErrorCode::UnsupportedContentCredentials
        } else {
            JobErrorCode::UnsupportedMetadata
        },
        ProcessingError::ContentCredentialsRequireConsent(_) => {
            JobErrorCode::UnsupportedContentCredentials
        },
        ProcessingError::ResourceLimit(_) => JobErrorCode::ResourceLimit,
        ProcessingError::Decode(_) => JobErrorCode::Decode,
        ProcessingError::Encode(_) => JobErrorCode::Encode,
        ProcessingError::ValidationFailed(_) => JobErrorCode::Validation,
        ProcessingError::TargetConflict => JobErrorCode::TargetConflict,
        ProcessingError::SourceChanged => JobErrorCode::SourceChanged,
        ProcessingError::Io { .. } => JobErrorCode::Io,
        ProcessingError::CommitFailed { .. } => JobErrorCode::CommitFailed,
        ProcessingError::CleanupFailed { .. } => JobErrorCode::CleanupFailed,
        ProcessingError::Cancelled => JobErrorCode::ServiceFault,
    }
}

#[derive(Debug)]
pub struct JobFailure {
    pub code: JobErrorCode,
    /// `None` for service faults; a panicked worker's file result is unknown.
    pub cause: Option<Arc<ProcessingError>>,
}

impl Clone for JobFailure {
    fn clone(&self) -> (r: Self)
        ensures
            r == *self,
    {
        JobFailure {
            code: self.code,
            cause: match &self.cause {
                Some(cause) => Some(share(cause)),
                None => None,
            },
        }
    }
}

/// The category of a processing error, as a failed row reports it.
pub fn classify_error(error: &ProcessingError) -> (r: JobErrorCode)
    ensures
        r == error_code(*error),
{
    match error {
        ProcessingError::InvalidLimits
        | ProcessingError::InvalidPath
        | ProcessingError::InvalidPng(_) => JobErrorCode::InvalidInput,
        ProcessingError::UnsupportedFormat => JobErrorCode::UnsupportedFormat,
        ProcessingError::UnsupportedAnimation => JobErrorCode::UnsupportedAnimation,
        ProcessingError::UnsupportedMetadata(name) => {
            if name.is_type(0x63, 0x61, 0x42, 0x58) {
                JobErrorCode::UnsupportedContentCredentials
            } else {
                JobErrorCode::UnsupportedMetadata
            }
        },
        ProcessingError::ContentCredentialsRequireConsent(_) => {
            JobErrorCode::UnsupportedContentCredentials
        },
        ProcessingError::ResourceLimit(_) => JobErrorCode::ResourceLimit,
        ProcessingError::Decode(_) => JobErrorCode::Decode,
        ProcessingError::Encode(_) => JobErrorCode::Encode,
        ProcessingError::ValidationFailed(_) => JobErrorCode::Validation,
        ProcessingError::TargetConflict => JobErrorCode::TargetConflict,
        ProcessingError::SourceChanged => JobErrorCode::SourceChanged,
        ProcessingError::Io { .. } => JobErrorCode::Io,
        ProcessingError::CommitFailed { .. } => JobErrorCode::CommitFailed,
        ProcessingError::CleanupFailed { .. } => JobErrorCode::CleanupFailed,
        ProcessingError::Cancelled => JobErrorCode::ServiceFault,
    }
}

impl JobFailure {
    /// Classifies a processing error and keeps it as the cause.
    pub fn processing(error: ProcessingError) -> (r: Self)
        ensures
            r.code == error_code(error),
            r.cause == Some(Arc::new(error)),
    {
        let code = classify_error(&error);
        JobFailure { code, cause: Some(Arc::new(error)) }
    }

    /// A failure of the service itself, with no processing cause.
    pub fn fault(code: JobErrorCode) -> (r: Self)
        ensures
            r.code == code,
            r.cause is None,
    {
        JobFailure { code, cause: None }
    }
}

#[derive(Debug)]
pub struct JobSnapshot {
    pub id: JobId,
    /// Starts at 1 and grows with each explicit retry.
    pub attempt: u32,
    pub request: PngRequest,
    pub mapping: Option<PngQualityMapping>,
    /// The real size at admission, replaced by the size the pipeline read on success.
    pub input_bytes: Option<ByteCount>,
    pub state: JobState,
}

impl Clone for JobSnapshot {
    fn clone(&self) -> (r: Self)
        ensures
            r == *self,
    {
        JobSnapshot {
            id: self.id,
            attempt: self.attempt,
            request: self.request.clone(),
            mapping: self.mapping,
            input_bytes: self.input_bytes,
            state: self.state.clone(),
        }
    }
}

/// The inspected source version behind a consent failure, if the row holds one.
pub open spec fn consent_source(state: JobState) -> Option<ContentCredentialsSource> {
    match state {
        JobState::Failed(failure) => match failure.cause {
            Some(cause) => match *cause {
                ProcessingError::ContentCredentialsRequireConsent(source) => Some(source),
                _ => None,
            },
            None => None,
        },
        _ => None,
    }
}

impl JobSnapshot {
    /// Only a complete-inspection content-credentials failure, before any write,
    /// may enter the consent flow; nested cleanup failures cannot bypass it.
    pub fn content_credentials_source(&self) -> (r: Option<&ContentCredentialsSource>)
        ensures
            match consent_source(self.state) {
                Some(s) => r matches Some(x) && *x == s,
                None => r is None,
            },
    {
        match &self.state {
            JobState::Failed(failure) => match &failure.cause {
                Some(cause) => match &**cause {
                    ProcessingError::ContentCredentialsRequireConsent(source) => Some(source),
                    _ => None,
                },
                None => None,
            },
            _ => None,
        }
    }
}

/// Counters over a batch. `processed` excludes cancellations, `terminal` includes them.
/// Sizes count gains of successful rows only; an unknown size or an overflow
/// gives `None`, never a made-up zero.
#[derive(Debug, Clone, Copy, PartialEq, Eq, Structural)]
pub struct BatchSummary {
    pub total: usize,
    pub queued: usize,
    pub running: usize,
    pub succeeded: usize,
    pub no_gain: usize,
    pub failed: usize,
    pub cancelled: usize,
    pub processed: usize,
    pub terminal: usize,
    pub input_bytes: Option<ByteCount>,
    pub current_bytes: Option<ByteCount>,
    pub saved_bytes: Option<ByteCount>,
}

impl Default for BatchSummary {
    fn default() -> (r: Self)
        ensures
            r.total == 0 && r.queued == 0 && r.running == 0 && r.succeeded == 0,
            r.no_gain == 0 && r.failed == 0 && r.cancelled == 0,
            r.processed == 0 && r.terminal == 0,
            r.input_bytes is None && r.current_bytes is None && r.saved_bytes is None,
    {
        BatchSummary {
            total: 0,
            queued: 0,
            running: 0,
            succeeded: 0,
            no_gain: 0,
            failed: 0,
            cancelled: 0,
            processed: 0,
            terminal: 0,
            input_bytes: None,
            current_bytes: None,
            saved_bytes: None,
        }
    }
}

/// How many rows satisfy `pred`.
pub open spec fn tally(jobs: Seq<JobSnapshot>, pred: spec_fn(JobState) -> bool) -> nat
    decreases jobs.len(),
{
    if jobs.len() == 0 {
        0
    } else {
        tally(jobs.drop_last(), pred) + if pred(jobs.last().state) {
            1nat
        } else {
            0nat
        }
    }
}

/// The sum of a per-row size, or `None` when any row's size is unknown.
pub open spec fn known_total(jobs: Seq<JobSnapshot>, size: spec_fn(JobSnapshot) -> Option<int>) -> Option<int>
    decreases jobs.len(),
{
    if jobs.len() == 0 {
        Some(0)
    } else {
        match (known_total(jobs.drop_last(), size), size(jobs.last())) {
            (Some(sum), Some(n)) => Some(sum + n),
            _ => None,
        }
    }
}

/// A total as a byte count, or `None` when it is unknown or does not fit in 64 bits.
pub open spec fn as_bytes(total: Option<int>) -> Option<ByteCount> {
    match total {
        Some(t) => if 0 <= t <= u64::MAX {
            Some(ByteCount(t as u64))
        } else {
            None
        },
        None => None,
    }
}

/// The row's size when it was admitted.
pub open spec fn input_size(job: JobSnapshot) -> Option<int> {
    match job.input_bytes {
        Some(b) => Some(b.0 as int),
        None => None,
    }
}

/// The row's size now: the output of a success, otherwise the input.
pub open spec fn current_size(job: JobSnapshot) -> Option<int> {
    match job.state {
        JobState::Succeeded(report) => Some(report.output_bytes.0 as int),
        _ => input_size(job),
    }
}

/// The bytes a success saved; unknown when the output grew, zero for other rows.
pub open spec fn saved_size(job: JobSnapshot) -> Option<int> {
    match job.state {
        JobState::Succeeded(report) => if report.output_bytes.0 <= report.input_bytes.0 {
            Some(report.input_bytes.0 - report.output_bytes.0)
        } else {
            None
        },
        _ => Some(0),
    }
}

/// The summary of a list of rows.
pub open spec fn summary_of(jobs: Seq<JobSnapshot>) -> BatchSummary {
    let succeeded = tally(jobs, |s: JobState| s is Succeeded);
    let no_gain = tally(jobs, |s: JobState| s is NoGain);
    let failed = tally(jobs, |s: JobState| s is Failed);
    let cancelled = tally(jobs, |s: JobState| s is Cancelled);
    BatchSummary {
        total: jobs.len() as usize,
        queued: tally(jobs, |s: JobState| s is Queued) as usize,
        running: tally(jobs, |s: JobState| s is Running) as usize,
        succeeded: succeeded as usize,
        no_gain: no_gain as usize,
        failed: failed as usize,
        cancelled: cancelled as usize,
        processed: (succeeded + no_gain + failed) as usize,
        terminal: (succeeded + no_gain + failed + cancelled) as usize,
        input_bytes: as_bytes(known_total(jobs, |j: JobSnapshot| input_size(j))),
        current_bytes: as_bytes(known_total(jobs, |j: JobSnapshot| current_size(j))),
        saved_bytes: as_bytes(known_total(jobs, |j: JobSnapshot| saved_size(j))),
    }
}

/// Every row is counted in exactly one state, and `terminal` counts the rows
/// that reached a final state.
pub proof fn lemma_summary_partition(jobs: Seq<JobSnapshot>)
    requires
        jobs.len() <= usize::MAX,
    ensures
        summary_of(jobs).queued + summary_of(jobs).running + summary_of(jobs).succeeded
            + summary_of(jobs).no_gain + summary_of(jobs).failed + summary_of(jobs).cancelled == jobs.len(),
        summary_of(jobs).terminal == tally(jobs, |s: JobState| s.spec_terminal()),
        summary_of(jobs).processed + summary_of(jobs).cancelled == summary_of(jobs).terminal,
{
    lemma_tally_bound(jobs);
}

/// The counts of the six states add up to the number of rows.
proof fn lemma_tally_bound(jobs: Seq<JobSnapshot>)
    ensures
        tally(jobs, |s: JobState| s is Queued) + tally(jobs, |s: JobState| s is Running)
            + tally(jobs, |s: JobState| s is Succeeded) + tally(jobs, |s: JobState| s is NoGain)
            + tally(jobs, |s: JobState| s is Failed) + tally(jobs, |s: JobState| s is Cancelled) == jobs.len(),
        tally(jobs, |s: JobState| s.spec_terminal()) == tally(jobs, |s: JobState| s is Succeeded)
            + tally(jobs, |s: JobState| s is NoGain) + tally(jobs, |s: JobState| s is Failed)
            + tally(jobs, |s: JobState| s is Cancelled),
    decreases jobs.len(),
{
    if jobs.len() > 0 {
        lemma_tally_bound(jobs.drop_last());
    }
}

/// Adds a known size to a running total; unknown or overflowing stays unknown.
fn add_known(sum: Option<u64>, n: Option<u64>) -> (r: Option<u64>)
    ensures
        match (sum, n) {
            (Some(a), Some(b)) => if a + b <= u64::MAX {
                r == Some((a + b) as u64)
            } else {
                r is None
            },
            _ => r is None,
        },
{
    match (sum, n) {
        (Some(a), Some(b)) => a.checked_add(b),
        _ => None,
    }
}

/// Splitting off the last row of a prefix.
proof fn lemma_prefix_step(jobs: Seq<JobSnapshot>, i: int)
    requires
        0 <= i < jobs.len(),
    ensures
        jobs.subrange(0, i + 1).drop_last() == jobs.subrange(0, i),
        jobs.subrange(0, i + 1).last() == jobs[i],
{
    assert(jobs.subrange(0, i + 1).drop_last() =~= jobs.subrange(0, i));
}

/// The running total stays equal to the byte count of the prefix total.
proof fn lemma_total_step(
    jobs: Seq<JobSnapshot>,
    i: int,
    size: spec_fn(JobSnapshot) -> Option<int>,
    acc: Option<u64>,
    n: Option<u64>,
    next: Option<u64>,
)
    requires
        0 <= i < jobs.len(),
        forall|j: JobSnapshot| #[trigger] size(j) matches Some(v) ==> v >= 0,
        acc_matches(acc, as_bytes(known_total(jobs.subrange(0, i), size))),
        match size(jobs[i]) {
            Some(v) => n == Some(v as u64) && 0 <= v <= u64::MAX,
            None => n is None,
        },
        match (acc, n) {
            (Some(a), Some(b)) => if a + b <= u64::MAX {
                next == Some((a + b) as u64)
            } else {
                next is None
            },
            _ => next is None,
        },
    ensures
        acc_matches(next, as_bytes(known_total(jobs.subrange(0, i + 1), size))),
{
    lemma_prefix_step(jobs, i);
    let prefix = jobs.subrange(0, i + 1);
    assert(known_total(prefix, size) == match (known_total(jobs.subrange(0, i), size), size(jobs[i])) {
        (Some(sum), Some(v)) => Some(sum + v),
        _ => None,
    });
    lemma_known_total_nonneg(jobs.subrange(0, i), size);
}

/// A running `u64` total agrees with a byte-count total.
pub open spec fn acc_matches(acc: Option<u64>, total: Option<ByteCount>) -> bool {
    match total {
        Some(b) => acc == Some(b.0),
        None => acc is None,
    }
}

/// Sizes are never negative, so neither are their totals.
proof fn lemma_known_total_nonneg(jobs: Seq<JobSnapshot>, size: spec_fn(JobSnapshot) -> Option<int>)
    requires
        forall|j: JobSnapshot| #[trigger] size(j) matches Some(v) ==> v >= 0,
    ensures
        known_total(jobs, size) matches Some(t) ==> t >= 0,
    decreases jobs.len(),
{
    if jobs.len() > 0 {
        lemma_known_total_nonneg(jobs.drop_last(), size);
    }
}

impl BatchSummary {
    /// Counts rows by state and adds up the known sizes.
    pub fn from_jobs(jobs: &[JobSnapshot]) -> (r: Self)
        ensures
            r == summary_of(jobs@),
    {
        let ghost all = jobs@;
        let mut queued: usize = 0;
        let mut running: usize = 0;
        let mut succeeded: usize = 0;
        let mut no_gain: usize = 0;
        let mut failed: usize = 0;
        let mut cancelled: usize = 0;
        let mut input: Option<u64> = Some(0);
        let mut current: Option<u64> = Some(0);
        let mut saved: Option<u64> = Some(0);
        let mut i: usize = 0;
        assert(all.subrange(0, 0) =~= Seq::<JobSnapshot>::empty());
        while i < jobs.len()
            invariant
                all == jobs@,
                0 <= i <= jobs.len(),
                queued == tally(all.subrange(0, i as int), |s: JobState| s is Queued),
                running == tally(all.subrange(0, i as int), |s: JobState| s is Running),
                succeeded == tally(all.subrange(0, i as int), |s: JobState| s is Succeeded),
                no_gain == tally(all.subrange(0, i as int), |s: JobState| s is NoGain),
                failed == tally(all.subrange(0, i as int), |s: JobState| s is Failed),
                cancelled == tally(all.subrange(0, i as int), |s: JobState| s is Cancelled),
                queued + running + succeeded + no_gain + failed + cancelled == i,
                acc_matches(input, as_bytes(known_total(all.subrange(0, i as int), |j: JobSnapshot| input_size(j)))),
                acc_matches(current, as_bytes(known_total(all.subrange(0, i as int), |j: JobSnapshot| current_size(j)))),
                acc_matches(saved, as_bytes(known_total(all.subrange(0, i as int), |j: JobSnapshot| saved_size(j)))),
            decreases jobs.len() - i,
        {
            proof {
                lemma_prefix_step(all, i as int);
            }
            let job = &jobs[i];
            let size = match job.input_bytes {
                Some(b) => Some(b.0),
                None => None,
            };
            let next_input = add_known(input, size);
            proof {
                lemma_total_step(all, i as int, |j: JobSnapshot| input_size(j), input, size, next_input);
            }
            input = next_input;
            let output = match &job.state {
                JobState::Succeeded(report) => {
                    succeeded = succeeded + 1;
                    Some(report.output_bytes.0)
                },
                JobState::NoGain(_) => {
                    no_gain = no_gain + 1;
                    size
                },
                JobState::Queued => {
                    queued = queued + 1;
                    size
                },
                JobState::Running { .. } => {
                    running = running + 1;
                    size
                },
                JobState::Failed(_) => {
                    failed = failed + 1;
                    size
                },
                JobState::Cancelled => {
                    cancelled = cancelled + 1;
                    size
                },
            };
            let next_current = add_known(current, output);
            proof {
                lemma_total_step(all, i as int, |j: JobSnapshot| current_size(j), current, output, next_current);
            }
            current = next_current;
            let gain = match &job.state {
                JobState::Succeeded(report) => report.input_bytes.0.checked_sub(report.output_bytes.0),
                _ => Some(0),
            };
            let next_saved = add_known(saved, gain);
            proof {
                lemma_total_step(all, i as int, |j: JobSnapshot| saved_size(j), saved, gain, next_saved);
            }
            saved = next_saved;
            i = i + 1;
        }
        assert(all.subrange(0, jobs.len() as int) =~= all);
        BatchSummary {
            total: jobs.len(),
            queued,
            running,
            succeeded,
            no_gain,
            failed,
            cancelled,
            processed: succeeded + no_gain + failed,
            terminal: succeeded + no_gain + failed + cancelled,
            input_bytes: match input {
                Some(n) => Some(ByteCount(n)),
                None => None,
            },
            current_bytes: match current {
                Some(n) => Some(ByteCount(n)),
                None => None,
            },
            saved_bytes: match saved {
                Some(n) => Some(ByteCount(n)),
                None => None,
            },
        }
    }
}

#[derive(Debug)]
pub struct BatchSnapshot {
    pub id: BatchId,
    /// Increases within a batch with every stage, cancel and retry change.
    pub revision: u64,
    pub phase: BatchPhase,
    /// The parameters of the latest start; kept finished rows may have older ones.
    pub parameters: BatchParameters,
    pub jobs: Vec<JobSnapshot>,
    pub summary: BatchSummary,
    pub active_workers: usize,
    pub reserved_working_bytes: ByteCount,
}

#[derive(Debug, Clone, Copy, PartialEq, Eq, Structural)]
pub enum PathConflictKind {
    DuplicateSource,
    DuplicateOutput,
    OutputIsInput,
    OutputHierarchy,
}

/// Service or admission failures: no new job was started. Per-file failures
/// stay inside the job states instead.
#[derive(Debug)]
pub enum BatchError {
    InvalidConfig,
    EmptyBatch,
    TooManyJobs,
    Busy,
    Closed,
    ServiceFault,
    NoSuchBatch,
    InvalidRetry,
    IdExhausted,
    TimedOut,
    /// An outside cancellation took effect before admission; nothing was created.
    Cancelled,
    InvalidParameters(ProcessingError),
    PathConflict { first: JobId, second: JobId, kind: PathConflictKind },
    WorkerStart(std::io::Error),
}

impl BatchError {
    /// The user-facing message of the error.
    pub fn message(&self) -> (r: &'static str)
        ensures
            r == (match *self {
                    BatchError::InvalidConfig => "批量配置超出有效范围",
                    BatchError::EmptyBatch => "文件列表不能为空",
                    BatchError::TooManyJobs => "任务数超过队列上限",
                    BatchError::Busy => "批次仍在准备、运行或取消中",
                    BatchError::Closed => "任务服务已关闭",
                    BatchError::ServiceFault => "任务服务内部异常，已停止接纳任务",
                    BatchError::NoSuchBatch => "批次不存在或已替换",
                    BatchError::InvalidRetry => "重试只能选择不重复的失败或取消项",
                    BatchError::IdExhausted => "任务标识或尝试次数已耗尽",
                    BatchError::TimedOut => "等待超时，不代表计算已经停止",
                    BatchError::Cancelled => "准入已取消，未启动新任务",
                    BatchError::InvalidParameters(_) => "批次参数无效",
                    BatchError::PathConflict { .. } => "批量输入或输出路径相互冲突，未启动",
                    BatchError::WorkerStart(_) => "无法创建后台工作线程",
                }),
    {
        match self {
            BatchError::InvalidConfig => "批量配置超出有效范围",
            BatchError::EmptyBatch => "文件列表不能为空",
            BatchError::TooManyJobs => "任务数超过队列上限",
            BatchError::Busy => "批次仍在准备、运行或取消中",
            BatchError::Closed => "任务服务已关闭",
            BatchError::ServiceFault => "任务服务内部异常，已停止接纳任务",
            BatchError::NoSuchBatch => "批次不存在或已替换",
            BatchError::InvalidRetry => "重试只能选择不重复的失败或取消项",
            BatchError::IdExhausted => "任务标识或尝试次数已耗尽",
            BatchError::TimedOut => "等待超时，不代表计算已经停止",
            BatchError::Cancelled => "准入已取消，未启动新任务",
            BatchError::InvalidParameters(_) => "批次参数无效",
            BatchError::PathConflict { .. } => "批量输入或输出路径相互冲突，未启动",
            BatchError::WorkerStart(_) => "无法创建后台工作线程",
        }
    }
}

} // verus!
