//! Admission of the web view's task mutations against a task snapshot: the
//! selection must be current, the batch revision must match, and retry rows
//! must be chosen as the protocol allows. The task owner checks selection and
//! revision again under its own lock; this module decides what is handed to it.

use crate::batch::{BatchParameters, BatchSnapshot, RetryRequest};
use crate::import::{ImportOutput, ScanOptions};
use crate::ingress::{roots_answer, IngressError, NativeImports};
use crate::model::{PngMode, ResourceLimits};
use crate::tasks::{
    accepts_import, Command, SelectionId, TaskError, TaskPhase, TaskSettings, TaskSnapshot, TaskState,
};
use crate::wire::{
    consent_admits, consent_jobs, credentials_jobs, plain_admits, plain_jobs, retry_jobs, CredentialsOutput,
    RetryRefusal, MAX_RETRY_JOBS,
};
use vstd::prelude::*;

verus! {

/// Where the web view asks an import's results to go.
#[derive(Debug, Clone, Copy, PartialEq, Eq, Structural)]
pub enum TaskOutput {
    Overwrite,
    CopyBeside,
}

/// Why a mutation is refused before the task owner sees it.
#[derive(Debug)]
pub enum MutationRefusal {
    /// The task owner's own error: stale selection or batch, not ready, busy or closed.
    Task(TaskError),
    /// Empty, too large, repeated, unknown or unsuitable retry rows.
    InvalidRetry,
    /// The native selection behind an import: closed, stale or expired.
    Ingress(IngressError),
}

/// A task mutation of the web view, decoded from its wire form.
#[derive(Debug)]
pub enum Mutation {
    /// Imports the roots of a granted native selection; with settings a
    /// complete scan starts its batch at once.
    Import { grant: u64, settings: Option<(PngMode, TaskOutput)> },
    Start { selection: u64, mode: PngMode, output: TaskOutput },
    Clear { selection: u64 },
    Retry { selection: u64, expected_revision: u64, ids: Vec<u64>, mode: PngMode, consent: Option<CredentialsOutput> },
}

/// The task settings for a mode and an output, with the default limits.
pub open spec fn spec_task_settings(mode: PngMode, output: TaskOutput) -> TaskSettings {
    TaskSettings {
        parameters: BatchParameters { mode, limits: ResourceLimits::spec_default() },
        output: match output {
            TaskOutput::Overwrite => ImportOutput::Overwrite,
            TaskOutput::CopyBeside => ImportOutput::CopyBeside,
        },
    }
}

/// The optional settings of an import.
pub open spec fn settings_of(settings: Option<(PngMode, TaskOutput)>) -> Option<TaskSettings> {
    match settings {
        Some((mode, output)) => Some(spec_task_settings(mode, output)),
        None => None,
    }
}

/// The rows of a retry suit the batch: retryable rows, or rows whose
/// credentials may be removed with this consent.
pub open spec fn rows_admitted(batch: BatchSnapshot, ids: Seq<u64>, consent: Option<CredentialsOutput>) -> bool {
    match consent {
        None => plain_admits(batch, ids),
        Some(output) => consent_admits(batch, ids, output),
    }
}

/// The task settings for a mode and an output, with the default limits.
pub fn task_settings(mode: PngMode, output: TaskOutput) -> (r: TaskSettings)
    ensures
        r == spec_task_settings(mode, output),
        r.parameters.mode == mode,
        r.parameters.limits == ResourceLimits::spec_default(),
        r.output == match output {
            TaskOutput::Overwrite => ImportOutput::Overwrite,
            TaskOutput::CopyBeside => ImportOutput::CopyBeside,
        },
{
    let mut parameters = BatchParameters::default();
    parameters.mode = mode;
    TaskSettings {
        parameters,
        output: match output {
            TaskOutput::Overwrite => ImportOutput::Overwrite,
            TaskOutput::CopyBeside => ImportOutput::CopyBeside,
        },
    }
}

/// The snapshot's selection has this number.
pub open spec fn is_current(value: TaskSnapshot, id: u64) -> bool {
    value.selection matches Some(s) && s.value() == id
}

/// The snapshot's selection, when it has this number; a stale selection otherwise.
pub fn current_selection(value: &TaskSnapshot, id: u64) -> (r: Result<SelectionId, TaskError>)
    ensures
        is_current(*value, id) ==> r == Ok::<SelectionId, TaskError>(value.selection->0),
        !is_current(*value, id) ==> r == Err::<SelectionId, TaskError>(TaskError::StaleSelection),
{
    match value.selection {
        Some(s) => if s.get() == id {
            Ok(s)
        } else {
            Err(TaskError::StaleSelection)
        },
        None => Err(TaskError::StaleSelection),
    }
}

/// A new import is admitted while nothing runs: from an idle, finished,
/// cancelled or rejected task. A closing application refuses it as closed,
/// any other phase as busy.
pub fn can_import(phase: TaskPhase) -> (r: Result<(), TaskError>)
    ensures
        (phase is Idle || phase is Finished || phase is Cancelled || phase is Rejected) ==> r is Ok,
        (phase is Closing || phase is Closed) ==> r == Err::<(), TaskError>(TaskError::Closed),
        !(phase is Idle || phase is Finished || phase is Cancelled || phase is Rejected || phase is Closing || phase is Closed)
            ==> r == Err::<(), TaskError>(TaskError::Busy),
{
    match phase {
        TaskPhase::Idle | TaskPhase::Finished | TaskPhase::Cancelled | TaskPhase::Rejected => Ok(()),
        TaskPhase::Closing | TaskPhase::Closed => Err(TaskError::Closed),
        _ => Err(TaskError::Busy),
    }
}

/// A consent is only taken from a finished task.
pub open spec fn needs_finish(value: TaskSnapshot, consent: Option<CredentialsOutput>) -> bool {
    consent is Some && value.phase != TaskPhase::Finished
}

/// The checks before the rows: 1 to 1000 rows, a current selection, a
/// finished task for a consent, and a batch at the expected revision.
pub open spec fn passes_checks(
    value: TaskSnapshot,
    selection_id: u64,
    expected_revision: u64,
    ids: Seq<u64>,
    consent: Option<CredentialsOutput>,
) -> bool {
    &&& 0 < ids.len() <= MAX_RETRY_JOBS
    &&& is_current(value, selection_id)
    &&& !needs_finish(value, consent)
    &&& value.batch is Some
    &&& value.batch->0.revision == expected_revision
}

/// Admits a retry of the rows `ids` of the current batch, or, with
/// `consent`, the removal of their content credentials. In order: the row
/// count must be 1 to 1000, the selection current, a consent needs a finished
/// task, a batch must exist at the expected revision, and the rows must suit
/// (see [`retry_jobs`] and [`credentials_jobs`]). The request keeps the
/// batch's limits and takes the new mode.
pub fn retry_mutation(
    value: &TaskSnapshot,
    selection_id: u64,
    expected_revision: u64,
    ids: &[u64],
    mode: PngMode,
    consent: Option<CredentialsOutput>,
) -> (r: Result<(SelectionId, RetryRequest), MutationRefusal>)
    ensures
        ids@.len() == 0 || ids@.len() > MAX_RETRY_JOBS ==> r matches Err(MutationRefusal::InvalidRetry),
        0 < ids@.len() <= MAX_RETRY_JOBS && !is_current(*value, selection_id)
            ==> r matches Err(MutationRefusal::Task(TaskError::StaleSelection)),
        0 < ids@.len() <= MAX_RETRY_JOBS && is_current(*value, selection_id)
            && (needs_finish(*value, consent) || value.batch is None)
            ==> r matches Err(MutationRefusal::Task(TaskError::NotReady)),
        0 < ids@.len() <= MAX_RETRY_JOBS && is_current(*value, selection_id) && !needs_finish(*value, consent)
            && value.batch is Some && value.batch->0.revision != expected_revision
            ==> r matches Err(MutationRefusal::Task(TaskError::StaleBatch)),
        passes_checks(*value, selection_id, expected_revision, ids@, consent) ==> match consent {
            None => if plain_admits(*value.batch->0, ids@) {
                r matches Ok((_, request)) && request.jobs@ == plain_jobs(*value.batch->0, ids@)
            } else {
                r matches Err(MutationRefusal::InvalidRetry)
            },
            Some(output) => if consent_admits(*value.batch->0, ids@, output) {
                r matches Ok((_, request)) && consent_jobs(*value.batch->0, ids@, output, request.jobs@)
            } else {
                r matches Err(MutationRefusal::InvalidRetry)
            },
        },
        r matches Ok((id, request)) ==> {
            &&& passes_checks(*value, selection_id, expected_revision, ids@, consent)
            &&& id == value.selection->0
            &&& request.parameters == (BatchParameters { mode, limits: value.batch->0.parameters.limits })
        },
{
    if ids.len() == 0 || ids.len() > MAX_RETRY_JOBS {
        return Err(MutationRefusal::InvalidRetry);
    }
    let id = match current_selection(value, selection_id) {
        Ok(id) => id,
        Err(e) => return Err(MutationRefusal::Task(e)),
    };
    if consent.is_some() && value.phase != TaskPhase::Finished {
        return Err(MutationRefusal::Task(TaskError::NotReady));
    }
    let batch: &BatchSnapshot = match &value.batch {
        Some(b) => b,
        None => return Err(MutationRefusal::Task(TaskError::NotReady)),
    };
    if batch.revision != expected_revision {
        return Err(MutationRefusal::Task(TaskError::StaleBatch));
    }
    let chosen = match consent {
        None => retry_jobs(batch, ids),
        Some(output) => credentials_jobs(batch, ids, output),
    };
    let jobs = match chosen {
        Ok(jobs) => jobs,
        Err(RetryRefusal::InvalidRetry) => return Err(MutationRefusal::InvalidRetry),
    };
    Ok((id, RetryRequest { jobs, parameters: BatchParameters { mode, limits: batch.parameters.limits } }))
}

/// Applies a mutation of `session` at time `now` to the task owner, inside the
/// owner's lock, and returns the number of the selection it acted on. An import
/// takes the roots of its grant and uses the grant up only once the owner
/// accepted the import, so a refused import can be asked again; start and clear
/// act on the current selection only; a retry is admitted by [`retry_mutation`]
/// before the owner checks selection and revision again.
pub fn mutate(
    tasks: &mut TaskState,
    imports: &mut NativeImports,
    session: u64,
    now: u64,
    mutation: Mutation,
) -> (r: Result<u64, MutationRefusal>)
    requires
        old(tasks).wf(),
    ensures
        final(tasks).wf(),
        r is Err ==> *final(tasks) == *old(tasks),
        !(mutation is Import) ==> *final(imports) == *old(imports),
        final(imports).spec_closed() == old(imports).spec_closed(),
        final(imports).spec_next_id() == old(imports).spec_next_id(),
        mutation matches Mutation::Import { grant, settings } ==> match roots_answer(*old(imports), session, grant, now) {
            Err(e) => r == Err::<u64, MutationRefusal>(MutationRefusal::Ingress(e)) && *final(tasks) == *old(tasks),
            Ok(roots) => {
                &&& r is Ok <==> (roots.len() <= ScanOptions::MAX_ROOTS && !old(tasks).spec_faulted()
                    && !old(tasks).spec_closing() && accepts_import(old(tasks).spec_view().phase)
                    && old(tasks).spec_next_id() < u64::MAX)
                &&& r matches Err(x) ==> x is Task && *final(imports) == *old(imports)
                &&& roots.len() > ScanOptions::MAX_ROOTS ==> (r matches Err(MutationRefusal::Task(TaskError::TooManyRoots)))
                &&& roots.len() <= ScanOptions::MAX_ROOTS && old(tasks).spec_faulted()
                    ==> (r matches Err(MutationRefusal::Task(TaskError::ServiceFault)))
                &&& roots.len() <= ScanOptions::MAX_ROOTS && !old(tasks).spec_faulted() && old(tasks).spec_closing()
                    ==> (r matches Err(MutationRefusal::Task(TaskError::Closed)))
                &&& roots.len() <= ScanOptions::MAX_ROOTS && !old(tasks).spec_faulted() && !old(tasks).spec_closing()
                    && !accepts_import(old(tasks).spec_view().phase) ==> (r matches Err(MutationRefusal::Task(TaskError::Busy)))
                &&& roots.len() <= ScanOptions::MAX_ROOTS && !old(tasks).spec_faulted() && !old(tasks).spec_closing()
                    && accepts_import(old(tasks).spec_view().phase) && old(tasks).spec_next_id() == u64::MAX
                    ==> (r matches Err(MutationRefusal::Task(TaskError::IdExhausted)))
                &&& r matches Ok(n) ==> {
                    &&& n == old(tasks).spec_next_id()
                    &&& final(imports).spec_slot() is None
                    &&& final(tasks).spec_view().selection matches Some(id) && id.value() == n
                    &&& final(tasks).spec_pending() matches Some(Command::Import { roots: v, settings: s })
                        && v@ == roots && s == settings_of(settings)
                }
            },
        },
        mutation matches Mutation::Start { selection, mode, output } ==> if !is_current(old(tasks).spec_view(), selection) {
            r == Err::<u64, MutationRefusal>(MutationRefusal::Task(TaskError::StaleSelection))
        } else {
            &&& r is Ok <==> (!old(tasks).spec_faulted() && !old(tasks).spec_closing()
                && old(tasks).spec_view().phase == TaskPhase::Ready && old(tasks).spec_view().import is Some)
            &&& r matches Err(x) ==> x is Task
            &&& old(tasks).spec_faulted() ==> (r matches Err(MutationRefusal::Task(TaskError::ServiceFault)))
            &&& !old(tasks).spec_faulted() && old(tasks).spec_closing() ==> (r matches Err(MutationRefusal::Task(TaskError::Closed)))
            &&& !old(tasks).spec_faulted() && !old(tasks).spec_closing()
                && !(old(tasks).spec_view().phase == TaskPhase::Ready && old(tasks).spec_view().import is Some)
                ==> (r matches Err(MutationRefusal::Task(TaskError::NotReady)))
            &&& r matches Ok(n) ==> n == selection && final(tasks).spec_pending() == Some(Command::Start {
                scan: old(tasks).spec_view().import->0,
                settings: spec_task_settings(mode, output),
            })
        },
        mutation matches Mutation::Clear { selection } ==> if !is_current(old(tasks).spec_view(), selection) {
            r == Err::<u64, MutationRefusal>(MutationRefusal::Task(TaskError::StaleSelection))
        } else {
            &&& r is Ok <==> (!old(tasks).spec_faulted() && !old(tasks).spec_closing() && {
                let phase = old(tasks).spec_view().phase;
                phase == TaskPhase::Ready || phase == TaskPhase::Finished || phase == TaskPhase::Cancelled
                    || phase == TaskPhase::Rejected
            })
            &&& r matches Err(x) ==> x is Task
            &&& old(tasks).spec_faulted() ==> (r matches Err(MutationRefusal::Task(TaskError::ServiceFault)))
            &&& !old(tasks).spec_faulted() && old(tasks).spec_closing() ==> (r matches Err(MutationRefusal::Task(TaskError::Closed)))
            &&& !old(tasks).spec_faulted() && !old(tasks).spec_closing() && !({
                let phase = old(tasks).spec_view().phase;
                phase == TaskPhase::Ready || phase == TaskPhase::Finished || phase == TaskPhase::Cancelled
                    || phase == TaskPhase::Rejected
            }) ==> (r matches Err(MutationRefusal::Task(TaskError::Busy)))
            &&& r matches Ok(n) ==> n == selection && final(tasks).spec_pending() matches Some(Command::Clear)
        },
        mutation matches Mutation::Retry { selection, expected_revision, ids, mode, consent } ==> {
            let view = old(tasks).spec_view();
            &&& ids@.len() == 0 || ids@.len() > MAX_RETRY_JOBS ==> (r matches Err(MutationRefusal::InvalidRetry))
            &&& 0 < ids@.len() <= MAX_RETRY_JOBS && !is_current(view, selection)
                ==> (r matches Err(MutationRefusal::Task(TaskError::StaleSelection)))
            &&& 0 < ids@.len() <= MAX_RETRY_JOBS && is_current(view, selection)
                && (needs_finish(view, consent) || view.batch is None)
                ==> (r matches Err(MutationRefusal::Task(TaskError::NotReady)))
            &&& 0 < ids@.len() <= MAX_RETRY_JOBS && is_current(view, selection) && !needs_finish(view, consent)
                && view.batch is Some && view.batch->0.revision != expected_revision
                ==> (r matches Err(MutationRefusal::Task(TaskError::StaleBatch)))
            &&& passes_checks(view, selection, expected_revision, ids@, consent) && !rows_admitted(*view.batch->0, ids@, consent)
                ==> (r matches Err(MutationRefusal::InvalidRetry))
            &&& passes_checks(view, selection, expected_revision, ids@, consent) && rows_admitted(*view.batch->0, ids@, consent)
                ==> (r is Ok <==> !old(tasks).spec_faulted() && !old(tasks).spec_closing() && view.phase == TaskPhase::Finished)
            &&& r matches Ok(n) ==> {
                &&& n == selection
                &&& passes_checks(view, selection, expected_revision, ids@, consent)
                &&& final(tasks).spec_pending() matches Some(Command::Retry(request)) && {
                    &&& request.parameters == (BatchParameters { mode, limits: view.batch->0.parameters.limits })
                    &&& consent is None ==> request.jobs@ == plain_jobs(*view.batch->0, ids@)
                    &&& consent matches Some(output) ==> consent_jobs(*view.batch->0, ids@, output, request.jobs@)
                }
            }
        },
{
    match mutation {
        Mutation::Import { grant, settings } => {
            let roots = match imports.grant_roots(session, grant, now) {
                Ok(roots) => roots,
                Err(e) => return Err(MutationRefusal::Ingress(e)),
            };
            let settings = match settings {
                Some((mode, output)) => Some(task_settings(mode, output)),
                None => None,
            };
            match tasks.import(roots, settings) {
                Ok(id) => {
                    imports.consumed(grant);
                    Ok(id.get())
                },
                Err(e) => Err(MutationRefusal::Task(e)),
            }
        },
        Mutation::Start { selection, mode, output } => {
            let id = match current_selection(&tasks.snapshot(), selection) {
                Ok(id) => id,
                Err(e) => return Err(MutationRefusal::Task(e)),
            };
            match tasks.start(id, task_settings(mode, output)) {
                Ok(()) => Ok(selection),
                Err(e) => Err(MutationRefusal::Task(e)),
            }
        },
        Mutation::Clear { selection } => {
            let id = match current_selection(&tasks.snapshot(), selection) {
                Ok(id) => id,
                Err(e) => return Err(MutationRefusal::Task(e)),
            };
            match tasks.clear(id) {
                Ok(_) => Ok(selection),
                Err(e) => Err(MutationRefusal::Task(e)),
            }
        },
        Mutation::Retry { selection, expected_revision, ids, mode, consent } => {
            let (id, request) = match retry_mutation(&tasks.snapshot(), selection, expected_revision, ids.as_slice(), mode, consent) {
                Ok(admitted) => admitted,
                Err(refusal) => return Err(refusal),
            };
            match tasks.retry(id, expected_revision, request) {
                Ok(()) => Ok(selection),
                Err(e) => Err(MutationRefusal::Task(e)),
            }
        },
    }
}

} // verus!
