//! Whole-batch admission: working-set estimate and cross-job path conflicts.
//!
//! The embedding layer reads the file system (absolute paths, sizes, existing
//! targets, file identities) and hands each request's findings over as a
//! [`PathCheck`]; path keys and file identities arrive as integers, equal
//! exactly when the paths compare equal or the files are the same.

use super::model::{
    BatchError, BatchParameters, JobFailure, JobId, JobSnapshot, JobState, PathConflictKind,
};
use crate::model::{ByteCount, PngMode, PngRequest, ProcessingError, ResourceLimits};
use crate::quality::{png_quality, spec_png_quality};
use std::collections::HashMap;
use vstd::prelude::*;
use vstd::std_specs::hash::group_hash_axioms;

verus! {

broadcast use group_hash_axioms;

/// Bytes reserved per pixel for RGBA, indices and the quantizer's workspace.
pub const QUANTIZE_BYTES_PER_PIXEL: u64 = 128;

/// Fixed headroom added to every estimate: 16 MiB.
pub const ESTIMATE_HEADROOM: u64 = 16 * 1024 * 1024;

/// The admission estimate in bytes: eight inputs (candidate, read-back,
/// source and backup re-checks), eight decode buffers (two validation rounds
/// and encoder buffers), 128 bytes per pixel when lossy, plus the headroom.
pub open spec fn spec_estimate(parameters: BatchParameters) -> int {
    let limits = parameters.limits;
    limits.max_input_bytes.0 * 8 + limits.max_decoded_bytes.0 * 8 + (if parameters.mode is Lossy {
        limits.max_pixels * 128
    } else {
        0int
    }) + ESTIMATE_HEADROOM
}

/// Charges the request's upper limits, so a picture that grows after admission
/// cannot escape a budget estimated from an older header. This is an admission
/// estimate, not a proof about the encoders' memory use.
pub fn estimate_working_set(parameters: BatchParameters) -> (r: Result<ByteCount, BatchError>)
    ensures
        !parameters.limits.spec_valid() ==> (r matches Err(BatchError::InvalidParameters(e))
            && e is InvalidLimits),
        parameters.limits.spec_valid() && spec_estimate(parameters) <= u64::MAX ==> r
            == Ok::<ByteCount, BatchError>(ByteCount(spec_estimate(parameters) as u64)),
        parameters.limits.spec_valid() && spec_estimate(parameters) > u64::MAX ==> r matches Err(
            BatchError::InvalidConfig,
        ),
{
    match parameters.limits.validate() {
        Ok(()) => {},
        Err(e) => return Err(BatchError::InvalidParameters(e)),
    }
    let limits = parameters.limits;
    let quantization = match parameters.mode {
        PngMode::Lossy { .. } => limits.max_pixels.checked_mul(QUANTIZE_BYTES_PER_PIXEL),
        PngMode::Lossless => Some(0),
    };
    let input = limits.max_input_bytes.0.checked_mul(8);
    let decoded = limits.max_decoded_bytes.0.checked_mul(8);
    let total = match (input, decoded, quantization) {
        (Some(a), Some(b), Some(c)) => match a.checked_add(b) {
            Some(ab) => match ab.checked_add(c) {
                Some(abc) => abc.checked_add(ESTIMATE_HEADROOM),
                None => None,
            },
            None => None,
        },
        _ => None,
    };
    match total {
        Some(n) => Ok(ByteCount(n)),
        None => Err(BatchError::InvalidConfig),
    }
}

/// A queued or finished row with the working-set bytes it reserves while running.
#[derive(Debug)]
pub struct Job {
    pub view: JobSnapshot,
    pub reservation: ByteCount,
}

impl Clone for Job {
    fn clone(&self) -> (r: Self)
        ensures
            r == *self,
    {
        Job { view: self.view.clone(), reservation: self.reservation }
    }
}

/// What the read-only admission check found on disk for one request.
#[derive(Debug)]
pub struct PathCheck {
    /// Key of the absolute source path; `None` when the path was rejected.
    pub source: Option<u64>,
    /// Identity of the source file when it could be opened.
    pub identity: Option<u64>,
    /// Key of the output path (the source itself for an overwrite); `None` when rejected.
    pub target: Option<u64>,
    /// Keys of the target's ancestor directories, nearest first.
    pub target_ancestors: Vec<u64>,
    /// Identity of a file already at a copy target.
    pub copy_identity: Option<u64>,
    /// Whether the output is a new file rather than the source itself.
    pub copy: bool,
    /// The source size when its metadata could be read.
    pub size: Option<ByteCount>,
    /// The first per-file failure: missing source, existing target, I/O error.
    pub failure: Option<JobFailure>,
}

/// The row a request becomes: failed with its first per-file problem, or queued.
pub open spec fn admitted_state(check: PathCheck, reservation: ByteCount, budget: ByteCount) -> JobState {
    match check.failure {
        Some(f) => JobState::Failed(f),
        None => if reservation.0 > budget.0 {
            JobState::Failed(
                JobFailure {
                    code: super::model::JobErrorCode::ResourceLimit,
                    cause: Some(
                        std::sync::Arc::new(ProcessingError::ResourceLimit("批量工作集预算")),
                    ),
                },
            )
        } else {
            JobState::Queued
        },
    }
}

/// The quality mapping recorded for a lossy request.
pub open spec fn mapping_of(mode: PngMode) -> Option<crate::model::PngQualityMapping> {
    match mode {
        PngMode::Lossless => None,
        PngMode::Lossy { quality } => Some(spec_png_quality(quality)),
    }
}

/// The parameters a request runs with.
pub open spec fn parameters_of(request: PngRequest) -> BatchParameters {
    BatchParameters { mode: request.mode, limits: request.limits }
}

/// The request's key at position `i` occurred at an earlier position.
pub open spec fn repeats(keys: Seq<Option<u64>>, i: int) -> bool {
    &&& keys[i] is Some
    &&& exists|j: int| 0 <= j < i && keys[j] == keys[i]
}

pub open spec fn sources(checks: Seq<PathCheck>) -> Seq<Option<u64>> {
    checks.map_values(|c: PathCheck| c.source)
}

pub open spec fn identities(checks: Seq<PathCheck>) -> Seq<Option<u64>> {
    checks.map_values(|c: PathCheck| c.identity)
}

pub open spec fn targets(checks: Seq<PathCheck>) -> Seq<Option<u64>> {
    checks.map_values(|c: PathCheck| c.target)
}

/// Two requests read the same source, or write the same output.
pub open spec fn duplicated_at(checks: Seq<PathCheck>, i: int) -> bool {
    repeats(sources(checks), i) || repeats(identities(checks), i) || repeats(targets(checks), i)
}

/// `key` is the value of some position of `keys`.
pub open spec fn occurs(keys: Seq<Option<u64>>, key: u64) -> bool {
    exists|j: int| 0 <= j < keys.len() && keys[j] == Some(key)
}

/// A copy output lies below another output, or is another request's source.
pub open spec fn crossed_at(checks: Seq<PathCheck>, i: int) -> bool {
    let c = checks[i];
    &&& c.copy
    &&& {
        ||| exists|a: int| 0 <= a < c.target_ancestors.len() && occurs(targets(checks), #[trigger] c.target_ancestors@[a])
        ||| (c.target matches Some(t) && occurs(sources(checks), t))
        ||| (c.copy_identity matches Some(d) && occurs(identities(checks), d))
    }
}

/// The limits of every request are valid and their estimates fit in 64 bits.
pub open spec fn estimates_fit(requests: Seq<PngRequest>) -> bool {
    forall|i: int| 0 <= i < requests.len() ==> {
        &&& (#[trigger] requests[i]).limits.spec_valid()
        &&& spec_estimate(parameters_of(requests[i])) <= u64::MAX
    }
}

/// Every request's estimate fits, and no two checked requests conflict.
pub open spec fn admissible(requests: Seq<PngRequest>, checks: Seq<PathCheck>) -> bool {
    &&& estimates_fit(requests)
    &&& forall|i: int| 0 <= i < checks.len() ==> !duplicated_at(checks, i)
    &&& forall|i: int| 0 <= i < checks.len() ==> !crossed_at(checks, i)
}

/// The conflict reported for the pair `(first, second)` of zero-based positions.
pub open spec fn conflict_is(e: BatchError, first: int, second: int, kind: PathConflictKind) -> bool {
    e matches BatchError::PathConflict { first: f, second: s, kind: k } && f.value() == first + 1
        && s.value() == second + 1 && k == kind
}

/// Checks every request's paths against the others and builds the rows.
/// A per-file problem only fails its row; a conflict between rows rejects the
/// whole batch before anything is written.
pub fn prepare(requests: Vec<PngRequest>, checks: Vec<PathCheck>, budget: ByteCount) -> (r: Result<
    Vec<Job>,
    BatchError,
>)
    requires
        requests.len() == checks.len(),
        requests.len() < usize::MAX,
    ensures
        r is Ok <==> {
            &&& estimates_fit(requests@)
            &&& forall|i: int| 0 <= i < checks.len() ==> !duplicated_at(checks@, i)
            &&& forall|i: int| 0 <= i < checks.len() ==> !crossed_at(checks@, i)
        },
        r matches Ok(jobs) ==> {
            &&& jobs.len() == requests.len()
            &&& forall|i: int| #![trigger jobs@[i]] 0 <= i < jobs.len() ==> {
                let job = jobs@[i];
                let reservation = ByteCount(spec_estimate(parameters_of(requests@[i])) as u64);
                &&& job.view.id.value() == i + 1
                &&& job.view.attempt == 1
                &&& job.view.request == requests@[i]
                &&& job.view.mapping == mapping_of(requests@[i].mode)
                &&& job.view.input_bytes == checks@[i].size
                &&& job.reservation == reservation
                &&& job.view.state == admitted_state(checks@[i], reservation, budget)
            }
        },
        !estimates_fit(requests@) ==> (r matches Err(e) && (e is InvalidParameters
            || e is InvalidConfig)),
        estimates_fit(requests@) && !(r is Ok) ==> (r matches Err(BatchError::PathConflict { .. })),
        r matches Err(BatchError::PathConflict { first, second, kind }) ==> {
            let (f, s) = (first.value() - 1, second.value() - 1);
            &&& 0 <= f < checks.len() && 0 <= s < checks.len()
            &&& (duplicated_at(checks@, s) ==> forall|k: int| 0 <= k < s ==> !duplicated_at(checks@, k))
            &&& (repeats(sources(checks@), s) || repeats(identities(checks@), s)) ==> kind is DuplicateSource
            &&& (kind is DuplicateSource || kind is DuplicateOutput) ==> duplicated_at(checks@, s)
            &&& (kind is OutputHierarchy || kind is OutputIsInput)
                ==> forall|k: int| 0 <= k < checks.len() ==> !duplicated_at(checks@, k)
            &&& (kind is OutputHierarchy || kind is OutputIsInput)
                ==> forall|k: int| 0 <= k < s ==> !crossed_at(checks@, k)
            &&& kind is OutputIsInput ==> forall|a: int| 0 <= a < checks@[s].target_ancestors.len()
                ==> !occurs(targets(checks@), #[trigger] checks@[s].target_ancestors@[a])
            &&& (kind is OutputIsInput && (checks@[s].target matches Some(t) && occurs(sources(checks@), t)))
                ==> sources(checks@)[f] == checks@[s].target
            &&& (kind is DuplicateSource ==> f < s && (
                (sources(checks@)[s] is Some && sources(checks@)[f] == sources(checks@)[s])
                || (identities(checks@)[s] is Some && identities(checks@)[f] == identities(checks@)[s])))
            &&& (kind is DuplicateOutput ==> f < s && targets(checks@)[s] is Some
                && targets(checks@)[f] == targets(checks@)[s])
            &&& (kind is OutputHierarchy ==> crossed_at(checks@, s) && exists|a: int|
                0 <= a < checks@[s].target_ancestors.len() && targets(checks@)[f] == Some(
                    #[trigger] checks@[s].target_ancestors@[a],
                ))
            &&& (kind is OutputIsInput ==> crossed_at(checks@, s) && (
                (checks@[s].target is Some && sources(checks@)[f] == checks@[s].target)
                || (checks@[s].copy_identity is Some && identities(checks@)[f] == checks@[s].copy_identity)))
        },
{
    let n = requests.len();
    let ghost reqs = requests@;
    let ghost all = checks@;
    let mut jobs: Vec<Job> = Vec::new();
    // Build the rows in order; an invalid estimate rejects the batch first.
    let mut i: usize = 0;
    while i < n
        invariant
            n == reqs.len(),
            n == all.len(),
            all == checks@,
            0 <= i <= n,
            jobs.len() == i,
            reqs == requests@,
            forall|k: int| 0 <= k < i ==> {
                &&& (#[trigger] reqs[k]).limits.spec_valid()
                &&& spec_estimate(parameters_of(reqs[k])) <= u64::MAX
            },
            forall|k: int| #![trigger jobs@[k]] 0 <= k < i ==> {
                let job = jobs@[k];
                let reservation = ByteCount(spec_estimate(parameters_of(reqs[k])) as u64);
                &&& job.view.id.value() == k + 1
                &&& job.view.attempt == 1
                &&& job.view.request == reqs[k]
                &&& job.view.mapping == mapping_of(reqs[k].mode)
                &&& job.view.input_bytes == all[k].size
                &&& job.reservation == reservation
                &&& job.view.state == admitted_state(all[k], reservation, budget)
            },
        decreases n - i,
    {
        let request = requests[i].clone();
        assert(request == reqs[i as int]);
        let parameters = BatchParameters { mode: request.mode, limits: request.limits };
        let reservation = match estimate_working_set(parameters) {
            Ok(b) => b,
            Err(e) => {
                proof {
                    assert(!estimates_fit(reqs)) by {
                        assert(!((reqs[i as int]).limits.spec_valid() && spec_estimate(
                            parameters_of(reqs[i as int]),
                        ) <= u64::MAX));
                    }
                }
                return Err(e);
            },
        };
        let check = &checks[i];
        let state = match &check.failure {
            Some(f) => JobState::Failed(f.clone()),
            None => if reservation.0 > budget.0 {
                JobState::Failed(
                    JobFailure::processing(ProcessingError::ResourceLimit("批量工作集预算")),
                )
            } else {
                JobState::Queued
            },
        };
        let mapping = match request.mode {
            PngMode::Lossless => None,
            PngMode::Lossy { quality } => Some(png_quality(quality)),
        };
        let size = check.size;
        jobs.push(
            Job {
                view: JobSnapshot {
                    id: JobId::new(i + 1),
                    attempt: 1,
                    request,
                    mapping,
                    input_bytes: size,
                    state,
                },
                reservation,
            },
        );
        i = i + 1;
    }
    proof {
        assert(estimates_fit(reqs));
    }
    match find_conflict(&checks) {
        Some(e) => Err(e),
        None => Ok(jobs),
    }
}

/// The first conflict between requests, in request order: duplicates first,
/// then copy outputs that nest below another output or hit another input.
#[verifier::loop_isolation(false)]
fn find_conflict(checks: &Vec<PathCheck>) -> (r: Option<BatchError>)
    requires
        checks.len() < usize::MAX,
    ensures
        r is None <==> {
            &&& forall|i: int| 0 <= i < checks.len() ==> !duplicated_at(checks@, i)
            &&& forall|i: int| 0 <= i < checks.len() ==> !crossed_at(checks@, i)
        },
        r matches Some(e) ==> (e matches BatchError::PathConflict { first, second, kind } && {
            let (f, s) = (first.value() - 1, second.value() - 1);
            &&& 0 <= f < checks.len() && 0 <= s < checks.len()
            &&& (duplicated_at(checks@, s) ==> forall|k: int| 0 <= k < s ==> !duplicated_at(checks@, k))
            &&& (repeats(sources(checks@), s) || repeats(identities(checks@), s)) ==> kind is DuplicateSource
            &&& (kind is DuplicateSource || kind is DuplicateOutput) ==> duplicated_at(checks@, s)
            &&& (kind is OutputHierarchy || kind is OutputIsInput)
                ==> forall|k: int| 0 <= k < checks.len() ==> !duplicated_at(checks@, k)
            &&& (kind is OutputHierarchy || kind is OutputIsInput)
                ==> forall|k: int| 0 <= k < s ==> !crossed_at(checks@, k)
            &&& kind is OutputIsInput ==> forall|a: int| 0 <= a < checks@[s].target_ancestors.len()
                ==> !occurs(targets(checks@), #[trigger] checks@[s].target_ancestors@[a])
            &&& (kind is OutputIsInput && (checks@[s].target matches Some(t) && occurs(sources(checks@), t)))
                ==> sources(checks@)[f] == checks@[s].target
            &&& (kind is DuplicateSource ==> f < s && (
                (sources(checks@)[s] is Some && sources(checks@)[f] == sources(checks@)[s])
                || (identities(checks@)[s] is Some && identities(checks@)[f] == identities(checks@)[s])))
            &&& (kind is DuplicateOutput ==> f < s && targets(checks@)[s] is Some
                && targets(checks@)[f] == targets(checks@)[s])
            &&& (kind is OutputHierarchy ==> crossed_at(checks@, s) && exists|a: int|
                0 <= a < checks@[s].target_ancestors.len() && targets(checks@)[f] == Some(
                    #[trigger] checks@[s].target_ancestors@[a],
                ))
            &&& (kind is OutputIsInput ==> crossed_at(checks@, s) && (
                (checks@[s].target is Some && sources(checks@)[f] == checks@[s].target)
                || (checks@[s].copy_identity is Some && identities(checks@)[f] == checks@[s].copy_identity)))
        }),
{
    let ghost all = checks@;
    let n = checks.len();
    let mut by_source: HashMap<u64, usize> = HashMap::new();
    let mut by_identity: HashMap<u64, usize> = HashMap::new();
    let mut by_target: HashMap<u64, usize> = HashMap::new();
    let mut i: usize = 0;
    while i < n
        invariant
            all == checks@,
            n == all.len(),
            n < usize::MAX,
            0 <= i <= n,
            forall|k: int| 0 <= k < i ==> !duplicated_at(all, k),
            index_of(by_source@, sources(all), i as int),
            index_of(by_identity@, identities(all), i as int),
            index_of(by_target@, targets(all), i as int),
        decreases n - i,
    {
        let c = &checks[i];
        proof {
            assert(sources(all)[i as int] == c.source);
            assert(identities(all)[i as int] == c.identity);
            assert(targets(all)[i as int] == c.target);
        }
        match c.source {
            Some(key) => match by_source.get(&key) {
                Some(first) => {
                    proof {
                        assert(sources(all)[*first as int] == sources(all)[i as int]);
                        assert(duplicated_at(all, i as int));
                    }
                    return Some(conflict(*first, i, PathConflictKind::DuplicateSource));
                },
                None => {
                    proof {
                        assert(!repeats(sources(all), i as int));
                    }
                    by_source.insert(key, i);
                },
            },
            None => {},
        }
        match c.identity {
            Some(key) => match by_identity.get(&key) {
                Some(first) => {
                    proof {
                        assert(identities(all)[*first as int] == identities(all)[i as int]);
                        assert(duplicated_at(all, i as int));
                    }
                    return Some(conflict(*first, i, PathConflictKind::DuplicateSource));
                },
                None => {
                    proof {
                        assert(!repeats(identities(all), i as int));
                    }
                    by_identity.insert(key, i);
                },
            },
            None => {},
        }
        match c.target {
            Some(key) => match by_target.get(&key) {
                Some(first) => {
                    proof {
                        assert(targets(all)[*first as int] == targets(all)[i as int]);
                        assert(duplicated_at(all, i as int));
                    }
                    return Some(conflict(*first, i, PathConflictKind::DuplicateOutput));
                },
                None => {
                    by_target.insert(key, i);
                },
            },
            None => {},
        }
        i = i + 1;
    }
    let mut i: usize = 0;
    while i < n
        invariant
            all == checks@,
            n == all.len(),
            n < usize::MAX,
            0 <= i <= n,
            forall|k: int| 0 <= k < n ==> !duplicated_at(all, k),
            forall|k: int| 0 <= k < i ==> !crossed_at(all, k),
            index_of(by_source@, sources(all), n as int),
            index_of(by_identity@, identities(all), n as int),
            index_of(by_target@, targets(all), n as int),
        decreases n - i,
    {
        let c = &checks[i];
        proof {
            assert(!duplicated_at(all, i as int));
        }
        if c.copy {
            let mut a: usize = 0;
            while a < c.target_ancestors.len()
                invariant
                    0 <= a <= c.target_ancestors.len(),
                    index_of(by_target@, targets(all), n as int),
                    forall|b: int| 0 <= b < a ==> !occurs(targets(all), #[trigger] c.target_ancestors@[b]),
                decreases c.target_ancestors.len() - a,
            {
                let key = c.target_ancestors[a];
                match by_target.get(&key) {
                    Some(first) => {
                        proof {
                            assert(targets(all)[*first as int] == Some(c.target_ancestors@[a as int]));
                            assert(occurs(targets(all), c.target_ancestors@[a as int]));
                            assert(crossed_at(all, i as int));
                        }
                        return Some(conflict(*first, i, PathConflictKind::OutputHierarchy));
                    },
                    None => {},
                }
                a = a + 1;
            }
            match c.target {
                Some(key) => match by_source.get(&key) {
                    Some(first) => {
                        proof {
                            assert(sources(all)[*first as int] == Some(key));
                            assert(occurs(sources(all), key));
                            assert(crossed_at(all, i as int));
                        }
                        return Some(conflict(*first, i, PathConflictKind::OutputIsInput));
                    },
                    None => {},
                },
                None => {},
            }
            match c.copy_identity {
                Some(key) => match by_identity.get(&key) {
                    Some(first) => {
                        proof {
                            assert(identities(all)[*first as int] == Some(key));
                            assert(occurs(identities(all), key));
                            assert(crossed_at(all, i as int));
                        }
                        return Some(conflict(*first, i, PathConflictKind::OutputIsInput));
                    },
                    None => {},
                },
                None => {},
            }
        }
        i = i + 1;
    }
    None
}

/// `index` maps each key of the first `count` positions to the position where it
/// occurs (keys are distinct there), and holds no other key.
pub open spec fn index_of(index: Map<u64, usize>, keys: Seq<Option<u64>>, count: int) -> bool {
    &&& forall|k: u64| #[trigger] index.contains_key(k) ==> {
        let j = index[k] as int;
        0 <= j < count && j < keys.len() && keys[j] == Some(k)
    }
    &&& forall|j: int| 0 <= j < count && j < keys.len() && #[trigger] keys[j] is Some ==> index.contains_key(keys[j]->0)
}

/// A conflict between two zero-based positions, reported one-based.
fn conflict(first: usize, second: usize, kind: PathConflictKind) -> (r: BatchError)
    requires
        second < usize::MAX,
        first < usize::MAX,
    ensures
        conflict_is(r, first as int, second as int, kind),
{
    BatchError::PathConflict { first: JobId::new(first + 1), second: JobId::new(second + 1), kind }
}

} // verus!
