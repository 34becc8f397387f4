//! Rules of the front-end protocol that do not depend on a transport: the
//! canonical decimal form of 64-bit numbers, page requests over a snapshot,
//! bounded display names, and the rows a retry request selects.

use crate::batch::{BatchSnapshot, JobErrorCode, JobFailure, JobId, JobSnapshot, RetryJob};
use crate::batch::model::{classify_error, consent_source, error_code};
use crate::tasks::TaskSnapshot;
use crate::import::copy_beside;
use crate::model::{OutputPolicy, PngMetadataPolicy, ProcessingError};
use std::collections::HashSet;
use vstd::prelude::*;
use vstd::std_specs::hash::group_hash_axioms;
use vstd::string::*;

verus! {

broadcast use group_hash_axioms;

/// Largest page a snapshot query may ask for.
pub const MAX_PAGE_SIZE: u16 = 100;

/// Characters of a file name shown at most.
pub const MAX_DISPLAY_CHARS: usize = 240;

/// Rows one retry request may select.
pub const MAX_RETRY_JOBS: usize = 1000;

pub open spec fn is_digit(c: char) -> bool {
    '0' <= c <= '9'
}

/// The number a string of decimal digits denotes.
pub open spec fn digits_value(s: Seq<char>) -> int
    decreases s.len(),
{
    if s.len() == 0 {
        0
    } else {
        digits_value(s.drop_last()) * 10 + (s.last() as int - '0' as int)
    }
}

/// The canonical decimal form: 1 to 20 ASCII digits, no sign, no spaces, no
/// leading zero except for zero itself.
pub open spec fn canonical_decimal(s: Seq<char>) -> bool {
    &&& 1 <= s.len() <= 20
    &&& forall|i: int| 0 <= i < s.len() ==> is_digit(#[trigger] s[i])
    &&& (s.len() > 1 ==> s[0] != '0')
}

proof fn lemma_digits_nonneg(s: Seq<char>)
    requires
        forall|i: int| 0 <= i < s.len() ==> is_digit(#[trigger] s[i]),
    ensures
        digits_value(s) >= 0,
    decreases s.len(),
{
    if s.len() > 0 {
        assert forall|i: int| 0 <= i < s.drop_last().len() implies is_digit(#[trigger] s.drop_last()[i]) by {
            assert(s.drop_last()[i] == s[i]);
        }
        lemma_digits_nonneg(s.drop_last());
    }
}

/// Parses an unsigned 64-bit number in canonical decimal form; anything else,
/// or a value above the 64-bit range, is refused.
pub fn parse_decimal_u64(s: &str) -> (r: Option<u64>)
    ensures
        r is Some <==> canonical_decimal(s@) && digits_value(s@) <= u64::MAX,
        r matches Some(v) ==> v == digits_value(s@),
{
    let n = s.unicode_len();
    if n == 0 || n > 20 {
        return None;
    }
    let first = s.get_char(0);
    if n > 1 && first == '0' {
        return None;
    }
    let mut value: u64 = 0;
    let mut overflow = false;
    let mut i: usize = 0;
    while i < n
        invariant
            n == s@.len(),
            1 <= n <= 20,
            0 <= i <= n,
            forall|k: int| 0 <= k < i ==> is_digit(#[trigger] s@[k]),
            !overflow ==> value == digits_value(s@.subrange(0, i as int)),
            overflow ==> digits_value(s@.subrange(0, i as int)) > u64::MAX,
        decreases n - i,
    {
        let c = s.get_char(i);
        if !('0' <= c && c <= '9') {
            assert(!is_digit(s@[i as int]));
            return None;
        }
        let ghost prefix = s@.subrange(0, i as int);
        let ghost next = s@.subrange(0, i + 1);
        assert(next.drop_last() =~= prefix);
        assert(digits_value(next) == digits_value(prefix) * 10 + (c as int - '0' as int));
        let digit = (c as u32 - '0' as u32) as u64;
        if !overflow {
            match value.checked_mul(10) {
                Some(m) => match m.checked_add(digit) {
                    Some(v) => {
                        value = v;
                    },
                    None => {
                        overflow = true;
                    },
                },
                None => {
                    overflow = true;
                },
            }
        } else {
            proof {
                assert forall|k: int| 0 <= k < prefix.len() implies is_digit(#[trigger] prefix[k]) by {
                    assert(prefix[k] == s@[k]);
                }
                lemma_digits_nonneg(prefix);
            }
        }
        i = i + 1;
    }
    assert(s@.subrange(0, n as int) =~= s@);
    if overflow {
        None
    } else {
        Some(value)
    }
}

/// Which list of a snapshot a page reads.
#[derive(Debug, Clone, Copy, PartialEq, Eq, Structural)]
pub enum TaskCollection {
    Jobs,
    Candidates,
    Issues,
    Confirmations,
}

/// A page of a snapshot. Pages after the first must carry the revision of
/// the first response; without one only the first page of the latest state may be read.
#[derive(Debug, Clone, Copy, PartialEq, Eq, Structural)]
pub struct TaskPageRequest {
    pub expected_revision: Option<u64>,
    pub collection: TaskCollection,
    pub offset: u32,
    pub limit: u16,
}

#[derive(Debug, Clone, Copy, PartialEq, Eq, Structural)]
pub enum QueryError {
    InvalidPage,
    StaleSnapshot { current_revision: u64 },
    InvalidSnapshot,
}

impl TaskPageRequest {
    /// A limit of 1 to 100, and a revision whenever the offset is not zero.
    pub fn validate(&self) -> (r: Result<(), QueryError>)
        ensures
            r is Ok <==> 1 <= self.limit <= MAX_PAGE_SIZE && (self.offset != 0 ==> self.expected_revision is Some),
            r matches Err(e) ==> e is InvalidPage,
    {
        if self.limit < 1 || self.limit > MAX_PAGE_SIZE || (self.offset != 0 && self.expected_revision.is_none()) {
            return Err(QueryError::InvalidPage);
        }
        Ok(())
    }

    /// The request is valid and reads the snapshot at `revision`.
    pub fn check(&self, revision: u64) -> (r: Result<(), QueryError>)
        ensures
            !(1 <= self.limit <= MAX_PAGE_SIZE && (self.offset != 0 ==> self.expected_revision is Some)) ==> r matches Err(QueryError::InvalidPage),
            (1 <= self.limit <= MAX_PAGE_SIZE && (self.offset != 0 ==> self.expected_revision is Some)) ==> match self.expected_revision {
                Some(expected) => if expected == revision {
                    r is Ok
                } else {
                    r == Err::<(), QueryError>(QueryError::StaleSnapshot { current_revision: revision })
                },
                None => r is Ok,
            },
    {
        match self.validate() {
            Ok(()) => {},
            Err(e) => return Err(e),
        }
        match self.expected_revision {
            Some(expected) => {
                if expected != revision {
                    return Err(QueryError::StaleSnapshot { current_revision: revision });
                }
            },
            None => {},
        }
        Ok(())
    }
}

/// The rows of a page over `total` rows: from the offset, at most `limit` of them.
pub fn page_range(total: usize, request: &TaskPageRequest) -> (r: Result<(usize, usize), QueryError>)
    ensures
        r is Ok <==> request.offset <= total,
        r matches Err(e) ==> e is InvalidPage,
        r matches Ok((start, end)) ==> start == request.offset && end == (if request.offset + request.limit <= total {
            request.offset + request.limit
        } else {
            total as int
        }),
{
    let offset = request.offset as usize;
    if offset > total {
        return Err(QueryError::InvalidPage);
    }
    let end = match offset.checked_add(request.limit as usize) {
        Some(e) => {
            if e < total {
                e
            } else {
                total
            }
        },
        None => total,
    };
    Ok((offset, end))
}

/// A count as sent on the wire; one beyond 32 bits means a broken snapshot.
pub fn count(value: usize) -> (r: Result<u32, QueryError>)
    ensures
        r is Ok <==> value <= u32::MAX,
        r matches Ok(n) ==> n == value,
        r matches Err(e) ==> e is InvalidSnapshot,
{
    if value > u32::MAX as usize {
        return Err(QueryError::InvalidSnapshot);
    }
    Ok(value as u32)
}

/// A file name for display: bounded, with control characters replaced, and
/// saying when it was cut short, lossily decoded or cleaned. It never
/// identifies a file.
#[derive(Debug, PartialEq, Eq)]
pub struct DisplayName {
    pub text: String,
    pub truncated: bool,
    pub lossy: bool,
    pub sanitized: bool,
}

/// A Unicode control character (general category Cc).
pub open spec fn is_control(c: char) -> bool {
    (c as u32) <= 0x1f || (0x7f <= (c as u32) && (c as u32) <= 0x9f)
}

/// The replacement character U+FFFD.
pub open spec fn replacement() -> char {
    '\u{fffd}'
}

/// The shown text: the first characters, each control character replaced.
pub open spec fn shown(name: Seq<char>) -> Seq<char> {
    let kept = if name.len() <= MAX_DISPLAY_CHARS {
        name
    } else {
        name.subrange(0, MAX_DISPLAY_CHARS as int)
    };
    kept.map_values(|c: char| if is_control(c) { replacement() } else { c })
}

/// Builds the display name of a path's last component (`None` for a root,
/// shown as `<root>` and never as the full path). `lossy` says the component
/// was not valid UTF-8 and was decoded with replacements.
pub fn display_name(part: Option<&str>, lossy: bool) -> (r: DisplayName)
    ensures
        match part {
            None => r.text@ == "<root>"@ && !r.truncated && !r.lossy && !r.sanitized,
            Some(name) => {
                &&& r.text@ == shown(name@)
                &&& r.truncated == (name@.len() > MAX_DISPLAY_CHARS)
                &&& r.lossy == lossy
                &&& r.sanitized == exists|i: int| 0 <= i < name@.len() && i < MAX_DISPLAY_CHARS && is_control(#[trigger] name@[i])
            },
        },
{
    let name = match part {
        None => {
            return DisplayName { text: String::from_str("<root>"), truncated: false, lossy: false, sanitized: false };
        },
        Some(n) => n,
    };
    let n = name.unicode_len();
    let m = if n <= MAX_DISPLAY_CHARS { n } else { MAX_DISPLAY_CHARS };
    let ghost kept = if name@.len() <= MAX_DISPLAY_CHARS { name@ } else { name@.subrange(0, MAX_DISPLAY_CHARS as int) };
    let mut text = String::new();
    let mut sanitized = false;
    proof {
        reveal_strlit("\u{fffd}");
    }
    let mut i: usize = 0;
    while i < m
        invariant
            n == name@.len(),
            m == kept.len(),
            m <= n,
            kept == (if name@.len() <= MAX_DISPLAY_CHARS { name@ } else { name@.subrange(0, MAX_DISPLAY_CHARS as int) }),
            0 <= i <= m,
            text@ == kept.subrange(0, i as int).map_values(|c: char| if is_control(c) { replacement() } else { c }),
            sanitized == exists|k: int| 0 <= k < i && is_control(#[trigger] name@[k]),
            "\u{fffd}"@ == seq![replacement()],
        decreases m - i,
    {
        let c = name.get_char(i);
        assert(kept[i as int] == c);
        let piece: &str = if (c as u32) <= 0x1f || (0x7f <= (c as u32) && (c as u32) <= 0x9f) {
            sanitized = true;
            "\u{fffd}"
        } else {
            name.substring_char(i, i + 1)
        };
        text = text.concat(piece);
        assert(kept.subrange(0, i + 1).map_values(|c: char| if is_control(c) { replacement() } else { c })
            =~= kept.subrange(0, i as int).map_values(|c: char| if is_control(c) { replacement() } else { c }).push(
            if is_control(c) { replacement() } else { c },
        ));
        i = i + 1;
    }
    assert(kept.subrange(0, m as int) =~= kept);
    DisplayName { text, truncated: n > MAX_DISPLAY_CHARS, lossy, sanitized }
}

/// Why a write that left something to recover failed in the first place.
#[derive(Debug, Clone, Copy, PartialEq, Eq, Structural)]
pub enum RecoveryCause {
    Cancelled,
    Failed { code: JobErrorCode },
}

/// A cancellation is told apart; every other error by its category.
pub open spec fn recovery_cause_of(error: ProcessingError) -> RecoveryCause {
    match error {
        ProcessingError::Cancelled => RecoveryCause::Cancelled,
        other => RecoveryCause::Failed { code: error_code(other) },
    }
}

/// The cause of an error as recovery information reports it.
pub fn recovery_cause(error: &ProcessingError) -> (r: RecoveryCause)
    ensures
        r == recovery_cause_of(*error),
{
    match error {
        ProcessingError::Cancelled => RecoveryCause::Cancelled,
        other => RecoveryCause::Failed { code: classify_error(other) },
    }
}

/// What a user needs after a failed write: the path of a kept recovery
/// backup, the path of a temporary file cleanup left behind, and why the
/// write that cleanup followed failed.
#[derive(Debug, PartialEq, Eq)]
pub struct Recovery {
    pub backup: Option<String>,
    pub temporary: Option<String>,
    pub original: Option<RecoveryCause>,
}

/// Follows a failure's chain of causes: a failed commit names its backup and
/// ends the chain; a failed cleanup names its temporary file (the first one
/// found is kept) and the cause of the failure it cleaned up after, and the
/// chain goes on with that failure; anything else ends it.
pub open spec fn walk_recovery(error: ProcessingError, acc: Recovery) -> Recovery
    decreases error,
{
    match error {
        ProcessingError::CommitFailed { backup, .. } => Recovery { backup: Some(backup), ..acc },
        ProcessingError::CleanupFailed { original, temporary, .. } => {
            let next = Recovery {
                temporary: if acc.temporary is Some { acc.temporary } else { Some(temporary) },
                original: match original {
                    Some(b) => Some(recovery_cause_of(*b)),
                    None => None,
                },
                ..acc
            };
            match original {
                Some(b) => walk_recovery(*b, next),
                None => next,
            }
        },
        _ => acc,
    }
}

/// The recovery information of a failed row: present only when a backup or
/// a temporary file remains.
pub open spec fn recovery_of(failure: JobFailure) -> Option<Recovery> {
    let empty = Recovery { backup: None, temporary: None, original: None };
    let found = match failure.cause {
        Some(e) => walk_recovery(*e, empty),
        None => empty,
    };
    if found.backup is Some || found.temporary is Some {
        Some(found)
    } else {
        None
    }
}

fn walk(error: &ProcessingError, acc: Recovery) -> (r: Recovery)
    ensures
        r == walk_recovery(*error, acc),
    decreases error,
{
    match error {
        ProcessingError::CommitFailed { backup, .. } => Recovery {
            backup: Some(backup.clone()),
            temporary: acc.temporary,
            original: acc.original,
        },
        ProcessingError::CleanupFailed { original, temporary, .. } => {
            let kept = match acc.temporary {
                Some(t) => Some(t),
                None => Some(temporary.clone()),
            };
            let cause = match original {
                Some(b) => Some(recovery_cause(b)),
                None => None,
            };
            let next = Recovery { backup: acc.backup, temporary: kept, original: cause };
            match original {
                Some(b) => walk(b, next),
                None => next,
            }
        },
        _ => acc,
    }
}

/// What a failed row leaves for the user to recover, if anything.
pub fn recovery(failure: &JobFailure) -> (r: Option<Recovery>)
    ensures
        r == recovery_of(*failure),
{
    let empty = Recovery { backup: None, temporary: None, original: None };
    let found = match &failure.cause {
        Some(e) => walk(e, empty),
        None => empty,
    };
    if found.backup.is_some() || found.temporary.is_some() {
        Some(found)
    } else {
        None
    }
}

/// Why the protocol refuses a retry selection.
#[derive(Debug, Clone, Copy, PartialEq, Eq, Structural)]
pub enum RetryRefusal {
    /// Empty, too large, repeated, unknown or not retryable rows.
    InvalidRetry,
}

/// A plain retry keeps the row's output, except that an explicitly waived
/// backup is not inherited: it becomes an ordinary overwrite again.
pub open spec fn plain_output(output: OutputPolicy) -> OutputPolicy {
    match output {
        OutputPolicy::OverwriteWithoutBackup => OutputPolicy::Overwrite,
        other => other,
    }
}

/// The retry job of a selected row in a plain retry.
pub open spec fn plain_retry(job: JobSnapshot) -> RetryJob {
    RetryJob { id: job.id, output: plain_output(job.request.output), metadata: PngMetadataPolicy::Preserve }
}

/// The retry job of a row, when the row is selected.
pub open spec fn plain_choice(ids: Seq<u64>, job: JobSnapshot) -> Option<RetryJob> {
    if selected_by(ids, job) {
        Some(plain_retry(job))
    } else {
        None
    }
}

/// The selected ids are between 1 and 1000 in number and all distinct.
pub open spec fn distinct_ids(ids: Seq<u64>) -> bool {
    &&& 0 < ids.len() <= MAX_RETRY_JOBS
    &&& forall|a: int, b: int| 0 <= a < b < ids.len() ==> ids[a] != ids[b]
}

/// Rows of the batch whose identifier is selected.
pub open spec fn selected_by(ids: Seq<u64>, job: JobSnapshot) -> bool {
    ids.contains(job.id.value() as u64)
}

fn distinct(ids: &[u64]) -> (r: Option<HashSet<u64>>)
    ensures
        r is Some <==> forall|a: int, b: int| 0 <= a < b < ids@.len() ==> ids@[a] != ids@[b],
        r matches Some(set) ==> forall|x: u64| set@.contains(x) <==> ids@.contains(x),
{
    let mut set: HashSet<u64> = HashSet::new();
    let mut i: usize = 0;
    while i < ids.len()
        invariant
            0 <= i <= ids@.len(),
            ids@.len() == ids.len(),
            forall|a: int, b: int| 0 <= a < b < i ==> ids@[a] != ids@[b],
            forall|x: u64| set@.contains(x) <==> ids@.subrange(0, i as int).contains(x),
        decreases ids.len() - i,
    {
        let id = ids[i];
        let fresh = set.insert(id);
        if !fresh {
            proof {
                let j = choose|j: int| 0 <= j < i && #[trigger] ids@.subrange(0, i as int)[j] == id;
                assert(ids@[j] == ids@[i as int]);
            }
            return None;
        }
        proof {
            assert forall|x: u64| set@.contains(x) <==> ids@.subrange(0, i + 1).contains(x) by {
                if ids@.subrange(0, i + 1).contains(x) {
                    let j = choose|j: int| 0 <= j < i + 1 && #[trigger] ids@.subrange(0, i + 1)[j] == x;
                    if j < i {
                        assert(ids@.subrange(0, i as int)[j] == x);
                    }
                }
                if ids@.subrange(0, i as int).contains(x) {
                    let j = choose|j: int| 0 <= j < i && #[trigger] ids@.subrange(0, i as int)[j] == x;
                    assert(ids@.subrange(0, i + 1)[j] == x);
                }
                if x == id {
                    assert(ids@.subrange(0, i + 1)[i as int] == x);
                }
            }
            assert forall|a: int, b: int| 0 <= a < b < i + 1 implies ids@[a] != ids@[b] by {
                if b == i {
                    assert(ids@.subrange(0, i as int)[a] == ids@[a]);
                }
            }
        }
        i = i + 1;
    }
    assert(ids@.subrange(0, ids@.len() as int) =~= ids@);
    Some(set)
}

/// The retry jobs of the selected rows in a plain retry, in row order.
pub open spec fn plain_jobs(batch: BatchSnapshot, ids: Seq<u64>) -> Seq<RetryJob> {
    batch.jobs@.filter_map(|job: JobSnapshot| plain_choice(ids, job))
}

/// A plain retry of these rows is admitted: distinct identifiers, 1 to 1000
/// of them, all present, and every selected row failed or was cancelled.
pub open spec fn plain_admits(batch: BatchSnapshot, ids: Seq<u64>) -> bool {
    &&& distinct_ids(ids)
    &&& forall|j: int| 0 <= j < batch.jobs@.len() && selected_by(ids, #[trigger] batch.jobs@[j])
        ==> batch.jobs@[j].state.spec_retryable()
    &&& plain_jobs(batch, ids).len() == ids.len()
}

/// The retry jobs of a plain retry of the rows with these identifiers, in
/// row order. Refused unless the identifiers are distinct, 1 to 1000 in
/// number, all present, and every selected row failed or was cancelled.
pub fn retry_jobs(batch: &BatchSnapshot, ids: &[u64]) -> (r: Result<Vec<RetryJob>, RetryRefusal>)
    ensures
        r is Ok <==> plain_admits(*batch, ids@),
        r matches Ok(jobs) ==> jobs@ == plain_jobs(*batch, ids@),
{
    if ids.len() == 0 || ids.len() > MAX_RETRY_JOBS {
        return Err(RetryRefusal::InvalidRetry);
    }
    let set = match distinct(ids) {
        Some(s) => s,
        None => return Err(RetryRefusal::InvalidRetry),
    };
    let mut jobs: Vec<RetryJob> = Vec::new();
    let mut matched: usize = 0;
    let mut i: usize = 0;
    while i < batch.jobs.len()
        invariant
            0 <= i <= batch.jobs@.len(),
            forall|x: u64| set@.contains(x) <==> ids@.contains(x),
            distinct_ids(ids@),
            jobs@ == batch.jobs@.subrange(0, i as int).filter_map(|job: JobSnapshot| plain_choice(ids@, job)),
            matched == jobs@.len(),
            matched <= i,
            forall|j: int| 0 <= j < i && selected_by(ids@, #[trigger] batch.jobs@[j]) ==> batch.jobs@[j].state.spec_retryable(),
        decreases batch.jobs@.len() - i,
    {
        let job = &batch.jobs[i];
        let id = job.id.get() as u64;
        proof {
            assert(batch.jobs@.subrange(0, i + 1).drop_last() =~= batch.jobs@.subrange(0, i as int));
        }
        let ghost before = jobs@;
        let chosen = set.contains(&id);
        assert(chosen == selected_by(ids@, batch.jobs@[i as int]));
        if chosen {
            if !job.state.can_retry() {
                return Err(RetryRefusal::InvalidRetry);
            }
            let output = match &job.request.output {
                OutputPolicy::OverwriteWithoutBackup => OutputPolicy::Overwrite,
                other => other.clone(),
            };
            let retry = RetryJob { id: job.id, output, metadata: PngMetadataPolicy::Preserve };
            assert(retry == plain_retry(batch.jobs@[i as int]));
            jobs.push(retry);
            matched = matched + 1;
            proof {
                assert(plain_choice(ids@, batch.jobs@[i as int]) == Some(retry));
                assert(jobs@ =~= before + seq![retry]);
            }
        } else {
            proof {
                assert(plain_choice(ids@, batch.jobs@[i as int]) is None);
            }
        }
        i = i + 1;
    }
    assert(batch.jobs@.subrange(0, batch.jobs@.len() as int) =~= batch.jobs@);
    if matched != ids.len() {
        return Err(RetryRefusal::InvalidRetry);
    }
    Ok(jobs)
}

/// Where files go once their content credentials are removed with consent.
#[derive(Debug, Clone, Copy, PartialEq, Eq, Structural)]
pub enum CredentialsOutput {
    CopyBeside,
    OverwriteWithBackup,
    OverwriteWithoutBackup,
}

/// The output a consented removal writes to, as views; `None` when a copy
/// beside a source without a file name is asked for.
pub open spec fn consent_output(source: Seq<char>, output: CredentialsOutput) -> Option<(int, Seq<char>)> {
    match output {
        CredentialsOutput::OverwriteWithBackup => Some((0, Seq::empty())),
        CredentialsOutput::OverwriteWithoutBackup => Some((1, Seq::empty())),
        CredentialsOutput::CopyBeside => match crate::import::planning::spec_copy_name(source) {
            Some(n) => Some((2, crate::paths::spec_with_file_name(source, n))),
            None => None,
        },
    }
}

/// A policy matches its view: overwrite with or without backup, or a copy to a path.
pub open spec fn output_is(policy: OutputPolicy, view: (int, Seq<char>)) -> bool {
    match policy {
        OutputPolicy::Overwrite => view.0 == 0,
        OutputPolicy::OverwriteWithoutBackup => view.0 == 1,
        OutputPolicy::Copy { destination } => view.0 == 2 && destination@ == view.1,
        OutputPolicy::CopyTree { .. } => false,
    }
}

/// A consented retry of one row: its output as chosen, and removal of the
/// credentials bound to the inspected source version.
pub open spec fn consent_ok(job: JobSnapshot, output: CredentialsOutput, retry: RetryJob) -> bool {
    &&& retry.id == job.id
    &&& crate::batch::model::consent_source(job.state) matches Some(source)
    &&& retry.metadata == PngMetadataPolicy::RemoveContentCredentials(source)
    &&& consent_output(job.request.source@, output) matches Some(v)
    &&& output_is(retry.output, v)
}

/// A consented removal from these rows is admitted: distinct identifiers, 1
/// to 1000 of them, all present, every selected row waiting for that consent,
/// and a requested copy can be named.
pub open spec fn consent_admits(batch: BatchSnapshot, ids: Seq<u64>, output: CredentialsOutput) -> bool {
    &&& distinct_ids(ids)
    &&& forall|j: int| 0 <= j < batch.jobs@.len() && selected_by(ids, #[trigger] batch.jobs@[j]) ==> {
        &&& crate::batch::model::consent_source(batch.jobs@[j].state) is Some
        &&& consent_output(batch.jobs@[j].request.source@, output) is Some
    }
    &&& batch.jobs@.filter(|job: JobSnapshot| selected_by(ids, job)).len() == ids.len()
}

/// The jobs are the consented removals of the selected rows, in row order.
pub open spec fn consent_jobs(batch: BatchSnapshot, ids: Seq<u64>, output: CredentialsOutput, jobs: Seq<RetryJob>) -> bool {
    let chosen = batch.jobs@.filter(|job: JobSnapshot| selected_by(ids, job));
    &&& jobs.len() == chosen.len()
    &&& forall|k: int| 0 <= k < jobs.len() ==> consent_ok(chosen[k], output, #[trigger] jobs[k])
}

/// The retry jobs that remove content credentials from the rows with these
/// identifiers, in row order, once the user consented. Refused unless the
/// identifiers are distinct, 1 to 1000 in number, all present, every selected
/// row is waiting for that consent, and a requested copy can be named.
pub fn credentials_jobs(batch: &BatchSnapshot, ids: &[u64], output: CredentialsOutput) -> (r: Result<Vec<RetryJob>, RetryRefusal>)
    ensures
        r is Ok <==> consent_admits(*batch, ids@, output),
        r matches Ok(jobs) ==> consent_jobs(*batch, ids@, output, jobs@),
{
    if ids.len() == 0 || ids.len() > MAX_RETRY_JOBS {
        return Err(RetryRefusal::InvalidRetry);
    }
    let set = match distinct(ids) {
        Some(s) => s,
        None => return Err(RetryRefusal::InvalidRetry),
    };
    let mut jobs: Vec<RetryJob> = Vec::new();
    let mut i: usize = 0;
    while i < batch.jobs.len()
        invariant
            0 <= i <= batch.jobs@.len(),
            forall|x: u64| set@.contains(x) <==> ids@.contains(x),
            distinct_ids(ids@),
            jobs@.len() == batch.jobs@.subrange(0, i as int).filter(|job: JobSnapshot| selected_by(ids@, job)).len(),
            forall|k: int| 0 <= k < jobs@.len() ==> consent_ok(
                batch.jobs@.subrange(0, i as int).filter(|job: JobSnapshot| selected_by(ids@, job))[k],
                output,
                #[trigger] jobs@[k],
            ),
            forall|j: int| 0 <= j < i && selected_by(ids@, #[trigger] batch.jobs@[j]) ==> {
                &&& crate::batch::model::consent_source(batch.jobs@[j].state) is Some
                &&& consent_output(batch.jobs@[j].request.source@, output) is Some
            },
            jobs@.len() <= i,
        decreases batch.jobs@.len() - i,
    {
        let job = &batch.jobs[i];
        let id = job.id.get() as u64;
        let ghost prefix = batch.jobs@.subrange(0, i as int);
        let ghost next = batch.jobs@.subrange(0, i + 1);
        proof {
            assert(next.drop_last() =~= prefix);
            reveal(Seq::filter);
        }
        let chosen = set.contains(&id);
        assert(chosen == selected_by(ids@, batch.jobs@[i as int]));
        if chosen {
            let source = match job.content_credentials_source() {
                Some(s) => s.clone(),
                None => return Err(RetryRefusal::InvalidRetry),
            };
            let policy = match output {
                CredentialsOutput::OverwriteWithBackup => OutputPolicy::Overwrite,
                CredentialsOutput::OverwriteWithoutBackup => OutputPolicy::OverwriteWithoutBackup,
                CredentialsOutput::CopyBeside => match copy_beside(job.request.source.as_str()) {
                    Ok(p) => p,
                    Err(_) => return Err(RetryRefusal::InvalidRetry),
                },
            };
            let retry = RetryJob {
                id: job.id,
                output: policy,
                metadata: PngMetadataPolicy::RemoveContentCredentials(source),
            };
            let ghost before = jobs@;
            jobs.push(retry);
            proof {
                assert(next.filter(|job: JobSnapshot| selected_by(ids@, job)) == prefix.filter(|job: JobSnapshot| selected_by(ids@, job)).push(batch.jobs@[i as int]));
                assert forall|k: int| 0 <= k < jobs@.len() implies consent_ok(
                    next.filter(|job: JobSnapshot| selected_by(ids@, job))[k],
                    output,
                    #[trigger] jobs@[k],
                ) by {
                    if k < before.len() {
                        assert(jobs@[k] == before[k]);
                    }
                }
            }
        } else {
            proof {
                assert(next.filter(|job: JobSnapshot| selected_by(ids@, job)) == prefix.filter(|job: JobSnapshot| selected_by(ids@, job)));
            }
        }
        i = i + 1;
    }
    assert(batch.jobs@.subrange(0, batch.jobs@.len() as int) =~= batch.jobs@);
    if jobs.len() != ids.len() {
        return Err(RetryRefusal::InvalidRetry);
    }
    Ok(jobs)
}

/// Positions of the rows waiting for a consent to remove content credentials.
pub open spec fn awaiting_consent(jobs: Seq<JobSnapshot>) -> Seq<int>
    decreases jobs.len(),
{
    if jobs.len() == 0 {
        Seq::empty()
    } else if consent_source(jobs.last().state) is Some {
        awaiting_consent(jobs.drop_last()).push(jobs.len() - 1)
    } else {
        awaiting_consent(jobs.drop_last())
    }
}

pub(crate) proof fn lemma_awaiting_bounds(jobs: Seq<JobSnapshot>)
    ensures
        awaiting_consent(jobs).len() <= jobs.len(),
        forall|k: int| 0 <= k < awaiting_consent(jobs).len() ==> 0 <= #[trigger] awaiting_consent(jobs)[k] < jobs.len(),
    decreases jobs.len(),
{
    if jobs.len() > 0 {
        lemma_awaiting_bounds(jobs.drop_last());
    }
}

/// The rows of a batch waiting for consent, in row order.
pub fn consent_rows(batch: &BatchSnapshot) -> (r: Vec<usize>)
    ensures
        r@.len() == awaiting_consent(batch.jobs@).len(),
        forall|k: int| 0 <= k < r@.len() ==> r@[k] as int == #[trigger] awaiting_consent(batch.jobs@)[k],
{
    let mut rows: Vec<usize> = Vec::new();
    let mut i: usize = 0;
    while i < batch.jobs.len()
        invariant
            0 <= i <= batch.jobs@.len(),
            rows@.len() == awaiting_consent(batch.jobs@.subrange(0, i as int)).len(),
            forall|k: int| 0 <= k < rows@.len() ==> rows@[k] as int == #[trigger] awaiting_consent(batch.jobs@.subrange(0, i as int))[k],
        decreases batch.jobs@.len() - i,
    {
        proof {
            assert(batch.jobs@.subrange(0, i + 1).drop_last() =~= batch.jobs@.subrange(0, i as int));
        }
        if batch.jobs[i].content_credentials_source().is_some() {
            rows.push(i);
        }
        i = i + 1;
    }
    assert(batch.jobs@.subrange(0, batch.jobs@.len() as int) =~= batch.jobs@);
    rows
}

/// The number of rows in the collection a page reads.
pub open spec fn collection_len(value: TaskSnapshot, collection: TaskCollection) -> int {
    match collection {
        TaskCollection::Jobs => match value.batch {
            Some(b) => b.jobs@.len() as int,
            None => 0,
        },
        TaskCollection::Candidates => match value.import {
            Some(s) => s.spec_files().len() as int,
            None => 0,
        },
        TaskCollection::Issues => match value.import {
            Some(s) => s.spec_issues().len() as int,
            None => 0,
        },
        TaskCollection::Confirmations => match value.batch {
            Some(b) => awaiting_consent(b.jobs@).len() as int,
            None => 0,
        },
    }
}

/// The error a page request gets against a snapshot, if any: an invalid
/// request, a stale revision, an offset past the end, or a collection too
/// large for the wire.
pub open spec fn page_error(value: TaskSnapshot, request: TaskPageRequest) -> Option<QueryError> {
    let valid = 1 <= request.limit <= MAX_PAGE_SIZE && (request.offset != 0 ==> request.expected_revision is Some);
    let current = match request.expected_revision {
        Some(e) => e == value.revision,
        None => true,
    };
    let total = collection_len(value, request.collection);
    if !valid {
        Some(QueryError::InvalidPage)
    } else if !current {
        Some(QueryError::StaleSnapshot { current_revision: value.revision })
    } else if request.offset > total {
        Some(QueryError::InvalidPage)
    } else if total > u32::MAX {
        Some(QueryError::InvalidSnapshot)
    } else {
        None
    }
}

/// How many rows a page holds: from the offset, at most `limit` of them.
pub open spec fn page_len(value: TaskSnapshot, request: TaskPageRequest) -> int {
    let total = collection_len(value, request.collection);
    let end = if request.offset + request.limit <= total { request.offset + request.limit } else { total };
    end - request.offset
}

/// The `k`-th row of a page: a position in the collection's own list; for
/// confirmations, the position of the waiting row in the batch.
pub open spec fn page_row(value: TaskSnapshot, request: TaskPageRequest, k: int) -> int {
    match request.collection {
        TaskCollection::Confirmations => awaiting_consent(value.batch->0.jobs@)[request.offset + k],
        _ => request.offset + k,
    }
}

/// The rows a page shows: positions in the collection's own list (for
/// confirmations, positions of the waiting rows in the batch) and the total.
#[derive(Debug, PartialEq, Eq)]
pub struct PageSelection {
    pub total: u32,
    pub rows: Vec<usize>,
}

/// Selects a page of a snapshot: the request must be valid and read this
/// revision; the page holds the rows from the offset, at most `limit` of them.
pub fn page_selection(value: &TaskSnapshot, request: &TaskPageRequest) -> (r: Result<PageSelection, QueryError>)
    ensures
        match page_error(*value, *request) {
            Some(e) => r == Err::<PageSelection, QueryError>(e),
            None => r matches Ok(page) && {
                &&& page.total == collection_len(*value, request.collection)
                &&& page.rows@.len() == page_len(*value, *request)
                &&& forall|k: int| 0 <= k < page.rows@.len() ==> (#[trigger] page.rows@[k]) as int == page_row(*value, *request, k)
            },
        },
{
    match request.check(value.revision) {
        Ok(()) => {},
        Err(e) => return Err(e),
    }
    let confirmations: Vec<usize> = match (&request.collection, &value.batch) {
        (TaskCollection::Confirmations, Some(b)) => consent_rows(b),
        _ => Vec::new(),
    };
    let total: usize = match request.collection {
        TaskCollection::Jobs => match &value.batch {
            Some(b) => b.jobs.len(),
            None => 0,
        },
        TaskCollection::Candidates => match &value.import {
            Some(s) => s.files().len(),
            None => 0,
        },
        TaskCollection::Issues => match &value.import {
            Some(s) => s.issues().len(),
            None => 0,
        },
        TaskCollection::Confirmations => confirmations.len(),
    };
    let (start, end) = match page_range(total, request) {
        Ok(range) => range,
        Err(e) => return Err(e),
    };
    let total = match count(total) {
        Ok(n) => n,
        Err(e) => return Err(e),
    };
    let mut rows: Vec<usize> = Vec::new();
    let mut i: usize = start;
    while i < end
        invariant
            start <= i <= end,
            end <= confirmations.len() || !(request.collection is Confirmations),
            rows@.len() == i - start,
            forall|k: int| 0 <= k < rows@.len() ==> (#[trigger] rows@[k]) as int == match request.collection {
                TaskCollection::Confirmations => confirmations@[start + k] as int,
                _ => start + k,
            },
        decreases end - i,
    {
        let row = match request.collection {
            TaskCollection::Confirmations => confirmations[i],
            _ => i,
        };
        rows.push(row);
        i = i + 1;
    }
    Ok(PageSelection { total, rows })
}

} // verus!
