//! The batch state machine. The embedding service holds a [`ServiceState`]
//! behind its lock and drives it from the caller and worker threads; every
//! decision (admission, scheduling, stage updates, completion, cancel, retry,
//! clear, shutdown) is made here, while the service only waits, runs the
//! pipeline and reads the file system.

use super::model::{
    summary_of, BatchConfig, BatchError, BatchId, BatchParameters, BatchPhase, BatchRequest,
    BatchSnapshot, BatchSummary, JobErrorCode, JobFailure, JobSnapshot, JobState, RetryRequest,
};
use super::planning::{admissible, estimate_working_set, estimates_fit, prepare, Job, PathCheck};
use crate::model::{
    ByteCount, CancellationToken, PngMetadataPolicy, PngRequest, ProcessingError,
    ProcessingOutcome, ProcessingReport, ProcessingStage,
};
use std::collections::VecDeque;
use vstd::prelude::*;

verus! {

/// Rows currently running.
pub open spec fn running_jobs(jobs: Seq<Job>) -> nat
    decreases jobs.len(),
{
    if jobs.len() == 0 {
        0
    } else {
        running_jobs(jobs.drop_last()) + if jobs.last().view.state is Running {
            1nat
        } else {
            0nat
        }
    }
}

/// Working-set bytes reserved by the running rows.
pub open spec fn reserved_by(jobs: Seq<Job>) -> nat
    decreases jobs.len(),
{
    if jobs.len() == 0 {
        0
    } else {
        reserved_by(jobs.drop_last()) + if jobs.last().view.state is Running {
            jobs.last().reservation.0 as nat
        } else {
            0nat
        }
    }
}

/// Replacing one row changes the running count and the reservation by that row alone.
proof fn lemma_update(jobs: Seq<Job>, i: int, job: Job)
    requires
        0 <= i < jobs.len(),
    ensures
        running_jobs(jobs.update(i, job)) + (if jobs[i].view.state is Running { 1int } else { 0int })
            == running_jobs(jobs) + (if job.view.state is Running { 1int } else { 0int }),
        reserved_by(jobs.update(i, job)) + (if jobs[i].view.state is Running {
            jobs[i].reservation.0 as int
        } else {
            0int
        }) == reserved_by(jobs) + (if job.view.state is Running {
            job.reservation.0 as int
        } else {
            0int
        }),
    decreases jobs.len(),
{
    let updated = jobs.update(i, job);
    if i == jobs.len() - 1 {
        assert(updated.drop_last() =~= jobs.drop_last());
    } else {
        lemma_update(jobs.drop_last(), i, job);
        assert(updated.drop_last() =~= jobs.drop_last().update(i, job));
    }
}

/// No more rows run than exist.
proof fn lemma_running_bound(jobs: Seq<Job>)
    ensures
        running_jobs(jobs) <= jobs.len(),
    decreases jobs.len(),
{
    if jobs.len() > 0 {
        lemma_running_bound(jobs.drop_last());
    }
}

/// A running row reserves at most the total.
proof fn lemma_reserved_part(jobs: Seq<Job>, i: int)
    requires
        0 <= i < jobs.len(),
        jobs[i].view.state is Running,
    ensures
        jobs[i].reservation.0 <= reserved_by(jobs),
        running_jobs(jobs) >= 1,
    decreases jobs.len(),
{
    if i < jobs.len() - 1 {
        lemma_reserved_part(jobs.drop_last(), i);
    }
}

/// With no running row, the count and the reservation are zero.
proof fn lemma_none_running(jobs: Seq<Job>)
    requires
        forall|j: int| 0 <= j < jobs.len() ==> !(#[trigger] jobs[j].view.state is Running),
    ensures
        running_jobs(jobs) == 0,
        reserved_by(jobs) == 0,
    decreases jobs.len(),
{
    if jobs.len() > 0 {
        lemma_none_running(jobs.drop_last());
    }
}

/// A running count above zero has a running row.
proof fn lemma_some_running(jobs: Seq<Job>)
    requires
        running_jobs(jobs) > 0,
    ensures
        exists|j: int| 0 <= j < jobs.len() && (#[trigger] jobs[j].view.state is Running),
    decreases jobs.len(),
{
    if !(jobs.last().view.state is Running) {
        lemma_some_running(jobs.drop_last());
        let j = choose|j: int| 0 <= j < jobs.drop_last().len() && (#[trigger] jobs.drop_last()[j].view.state is Running);
        assert(jobs[j] == jobs.drop_last()[j]);
    }
}

/// The order of processing stages; a stage update never goes back.
pub open spec fn stage_rank(stage: ProcessingStage) -> int {
    match stage {
        ProcessingStage::Reading => 0,
        ProcessingStage::Optimizing => 1,
        ProcessingStage::Validating => 2,
        ProcessingStage::BeforeCommit => 3,
    }
}

fn order(stage: ProcessingStage) -> (r: u8)
    ensures
        r == stage_rank(stage),
{
    match stage {
        ProcessingStage::Reading => 0,
        ProcessingStage::Optimizing => 1,
        ProcessingStage::Validating => 2,
        ProcessingStage::BeforeCommit => 3,
    }
}

/// The next revision; it cannot run out in practice (rows, attempts and stage
/// updates are all bounded), and it stays at the maximum rather than wrap.
pub open spec fn next_revision(revision: u64) -> u64 {
    if revision < u64::MAX {
        (revision + 1) as u64
    } else {
        revision
    }
}

fn bump(revision: u64) -> (r: u64)
    ensures
        r == next_revision(revision),
{
    revision.saturating_add(1)
}

/// One claimed row, handed to a worker together with a copy of its request.
#[derive(Debug)]
pub struct Work {
    pub batch: BatchId,
    pub index: usize,
    pub attempt: u32,
    pub request: PngRequest,
    pub cancel: CancellationToken,
    pub reservation: u64,
}

/// The most recent batch: its rows, the queue of waiting rows and the
/// bookkeeping of running rows against the working-set budget.
#[derive(Debug)]
pub struct Batch {
    id: BatchId,
    revision: u64,
    parameters: BatchParameters,
    jobs: Vec<Job>,
    queue: VecDeque<usize>,
    cancel: CancellationToken,
    cancelling: bool,
    running: usize,
    reserved: u64,
    budget: u64,
}

impl Batch {
    pub closed spec fn spec_id(self) -> BatchId {
        self.id
    }

    pub closed spec fn spec_revision(self) -> u64 {
        self.revision
    }

    pub closed spec fn spec_parameters(self) -> BatchParameters {
        self.parameters
    }

    pub closed spec fn rows(self) -> Seq<Job> {
        self.jobs@
    }

    pub closed spec fn waiting(self) -> Seq<usize> {
        self.queue@
    }

    pub closed spec fn spec_cancelling(self) -> bool {
        self.cancelling
    }

    pub closed spec fn spec_running(self) -> usize {
        self.running
    }

    pub closed spec fn spec_reserved(self) -> u64 {
        self.reserved
    }

    pub closed spec fn spec_budget(self) -> u64 {
        self.budget
    }

    /// Some row is still queued or running.
    pub open spec fn spec_active(self) -> bool {
        self.spec_running() != 0 || self.waiting().len() != 0
    }

    /// The queue holds exactly the queued rows, each once and each within the
    /// budget; the counters match the running rows; a cancelled batch queues nothing.
    pub closed spec fn wf(self) -> bool {
        &&& self.jobs.len() < usize::MAX
        &&& self.running == running_jobs(self.jobs@)
        &&& self.reserved == reserved_by(self.jobs@)
        &&& self.reserved <= self.budget
        &&& forall|k: int| #![trigger self.queue@[k]] 0 <= k < self.queue@.len() ==> {
            &&& self.queue@[k] < self.jobs@.len()
            &&& self.jobs@[self.queue@[k] as int].view.state is Queued
        }
        &&& forall|k1: int, k2: int| 0 <= k1 < k2 < self.queue@.len() ==> self.queue@[k1] != self.queue@[k2]
        &&& forall|j: int| #![trigger self.jobs@[j]] 0 <= j < self.jobs@.len() && self.jobs@[j].view.state is Queued ==> {
            &&& exists|k: int| 0 <= k < self.queue@.len() && self.queue@[k] == j
            &&& self.jobs@[j].reservation.0 <= self.budget
        }
        &&& self.cancelling ==> self.queue@.len() == 0
        &&& forall|j: int| 0 <= j < self.jobs@.len() ==> (#[trigger] self.jobs@[j]).view.id.value() == j + 1
    }

    /// A new batch queues its queued rows in order; no row may be running yet,
    /// and every queued row must fit in the budget.
    pub fn new(id: BatchId, revision: u64, parameters: BatchParameters, jobs: Vec<Job>, budget: u64) -> (r: Self)
        requires
            jobs.len() < usize::MAX,
            forall|j: int| 0 <= j < jobs.len() ==> !(#[trigger] jobs@[j].view.state is Running),
            forall|j: int| 0 <= j < jobs.len() && (#[trigger] jobs@[j].view.state is Queued) ==> jobs@[j].reservation.0 <= budget,
            forall|j: int| 0 <= j < jobs.len() ==> (#[trigger] jobs@[j]).view.id.value() == j + 1,
        ensures
            r.wf(),
            r.spec_id() == id,
            r.spec_revision() == revision,
            r.spec_parameters() == parameters,
            r.rows() == jobs@,
            r.spec_budget() == budget,
            !r.spec_cancelling(),
            r.spec_running() == 0,
            r.spec_reserved() == 0,
            forall|k: int| 0 <= k < r.waiting().len() ==> jobs@[#[trigger] r.waiting()[k] as int].view.state is Queued,
    {
        let mut queue: VecDeque<usize> = VecDeque::new();
        let mut i: usize = 0;
        while i < jobs.len()
            invariant
                0 <= i <= jobs.len(),
                forall|k: int| #![trigger queue@[k]] 0 <= k < queue@.len() ==> {
                    &&& queue@[k] < i
                    &&& jobs@[queue@[k] as int].view.state is Queued
                },
                forall|k1: int, k2: int| 0 <= k1 < k2 < queue@.len() ==> queue@[k1] < queue@[k2],
                forall|j: int| #![trigger jobs@[j]] 0 <= j < i && jobs@[j].view.state is Queued ==> exists|k: int| 0 <= k < queue@.len() && queue@[k] == j,
            decreases jobs.len() - i,
        {
            if matches!(jobs[i].view.state, JobState::Queued) {
                let ghost before = queue@;
                queue.push_back(i);
                proof {
                    assert forall|j: int| #![trigger jobs@[j]] 0 <= j < i + 1 && jobs@[j].view.state is Queued implies exists|k: int| 0 <= k < queue@.len() && queue@[k] == j by {
                        if j < i {
                            let k = choose|k: int| 0 <= k < before.len() && before[k] == j;
                            assert(queue@[k] == j);
                        } else {
                            assert(queue@[before.len() as int] == j);
                        }
                    }
                }
            }
            i = i + 1;
        }
        proof {
            lemma_none_running(jobs@);
        }
        Batch {
            id,
            revision,
            parameters,
            jobs,
            queue,
            cancel: CancellationToken::new(),
            cancelling: false,
            running: 0,
            reserved: 0,
            budget,
        }
    }

    pub fn id(&self) -> (r: BatchId)
        ensures
            r == self.spec_id(),
    {
        self.id
    }

    pub fn revision(&self) -> (r: u64)
        ensures
            r == self.spec_revision(),
    {
        self.revision
    }

    /// Some row is still queued or running.
    pub fn active(&self) -> (r: bool)
        ensures
            r == self.spec_active(),
    {
        self.running != 0 || self.queue.len() != 0
    }

    /// A batch is active exactly while some row has not reached a final state.
    pub proof fn lemma_active_iff_unfinished(self)
        requires
            self.wf(),
        ensures
            self.spec_active() <==> exists|j: int| 0 <= j < self.rows().len() && !(#[trigger] self.rows()[j].view.state).spec_terminal(),
    {
        if self.running != 0 {
            lemma_some_running(self.jobs@);
            let j = choose|j: int| 0 <= j < self.jobs@.len() && (#[trigger] self.jobs@[j].view.state is Running);
            assert(!self.rows()[j].view.state.spec_terminal());
        } else if self.queue@.len() != 0 {
            let j = self.queue@[0] as int;
            assert(!self.rows()[j].view.state.spec_terminal());
        } else {
            assert forall|j: int| 0 <= j < self.rows().len() implies (#[trigger] self.rows()[j].view.state).spec_terminal() by {
                if self.jobs@[j].view.state is Queued {
                    let k = choose|k: int| 0 <= k < self.queue@.len() && self.queue@[k] == j;
                }
                if self.jobs@[j].view.state is Running {
                    lemma_reserved_part(self.jobs@, j);
                }
            }
        }
    }

    /// The running rows never reserve more than the working-set budget.
    pub proof fn lemma_reservation_within_budget(self)
        requires
            self.wf(),
        ensures
            self.spec_reserved() <= self.spec_budget(),
            self.spec_running() as nat == running_jobs(self.rows()),
            self.spec_reserved() as nat == reserved_by(self.rows()),
    {
    }

    pub open spec fn spec_phase(self) -> BatchPhase {
        if !self.spec_active() {
            BatchPhase::Finished
        } else if self.spec_cancelling() {
            BatchPhase::Cancelling
        } else {
            BatchPhase::Running
        }
    }

    pub fn phase(&self) -> (r: BatchPhase)
        ensures
            r == self.spec_phase(),
    {
        if !self.active() {
            BatchPhase::Finished
        } else if self.cancelling {
            BatchPhase::Cancelling
        } else {
            BatchPhase::Running
        }
    }

    /// An independent read-only copy of the batch.
    pub fn snapshot(&self) -> (r: BatchSnapshot)
        ensures
            r.id == self.spec_id(),
            r.revision == self.spec_revision(),
            r.phase == self.spec_phase(),
            r.parameters == self.spec_parameters(),
            r.jobs@ == self.rows().map_values(|j: Job| j.view),
            r.summary == summary_of(r.jobs@),
            r.active_workers == self.spec_running(),
            r.reserved_working_bytes.0 == self.spec_reserved(),
    {
        let mut jobs: Vec<JobSnapshot> = Vec::new();
        let mut i: usize = 0;
        while i < self.jobs.len()
            invariant
                0 <= i <= self.jobs.len(),
                jobs@ == self.jobs@.subrange(0, i as int).map_values(|j: Job| j.view),
            decreases self.jobs.len() - i,
        {
            jobs.push(self.jobs[i].view.clone());
            assert(self.jobs@.subrange(0, i + 1).map_values(|j: Job| j.view) =~= self.jobs@.subrange(0, i as int).map_values(|j: Job| j.view).push(self.jobs@[i as int].view));
            i = i + 1;
        }
        assert(self.jobs@.subrange(0, self.jobs.len() as int) =~= self.jobs@);
        let summary = BatchSummary::from_jobs(jobs.as_slice());
        BatchSnapshot {
            id: self.id,
            revision: self.revision,
            phase: self.phase(),
            parameters: self.parameters,
            jobs,
            summary,
            active_workers: self.running,
            reserved_working_bytes: ByteCount(self.reserved),
        }
    }
    /// Requests cancellation of the whole batch: queued rows end at once
    /// (cancelled, or failed with a service fault when the service broke), running
    /// rows are only marked. Cancelling a finished or already cancelling batch changes nothing.
    pub fn cancel(&mut self, fault: bool)
        requires
            old(self).wf(),
        ensures
            final(self).wf(),
            final(self).spec_id() == old(self).spec_id(),
            final(self).spec_parameters() == old(self).spec_parameters(),
            final(self).spec_budget() == old(self).spec_budget(),
            final(self).spec_running() == old(self).spec_running(),
            final(self).spec_reserved() == old(self).spec_reserved(),
            final(self).rows().len() == old(self).rows().len(),
            !old(self).spec_active() || old(self).spec_cancelling() ==> *final(self) == *old(self),
            old(self).spec_active() && !old(self).spec_cancelling() ==> {
                &&& final(self).spec_cancelling()
                &&& final(self).waiting().len() == 0
                &&& final(self).spec_revision() == next_revision(old(self).spec_revision())
                &&& forall|j: int| #![trigger final(self).rows()[j]] 0 <= j < old(self).rows().len() ==> {
                    let before = old(self).rows()[j];
                    let after = final(self).rows()[j];
                    &&& after.reservation == before.reservation
                    &&& after.view.id == before.view.id
                    &&& after.view.attempt == before.view.attempt
                    &&& after.view.request == before.view.request
                    &&& after.view.input_bytes == before.view.input_bytes
                    &&& (before.view.state is Queued ==> if fault {
                        after.view.state matches JobState::Failed(f) && f.code == JobErrorCode::ServiceFault && f.cause is None
                    } else {
                        after.view.state is Cancelled
                    })
                    &&& (before.view.state matches JobState::Running { stage, .. } ==> after.view.state == JobState::Running { stage, cancel_requested: true })
                    &&& (before.view.state.spec_terminal() ==> after.view.state == before.view.state)
                }
            },
    {
        if !self.active() || self.cancelling {
            return;
        }
        self.cancel.cancel();
        self.cancelling = true;
        self.queue.clear();
        let ghost first = self.jobs@;
        let mut i: usize = 0;
        while i < self.jobs.len()
            invariant
                self.id == old(self).id,
                self.parameters == old(self).parameters,
                self.budget == old(self).budget,
                self.revision == old(self).revision,
                self.running == old(self).running,
                self.reserved == old(self).reserved,
                self.cancelling,
                self.queue@.len() == 0,
                self.reserved <= self.budget,
                self.jobs@.len() == first.len(),
                0 <= i <= self.jobs@.len(),
                self.jobs@.len() < usize::MAX,
                self.running == running_jobs(self.jobs@),
                self.reserved == reserved_by(self.jobs@),
                forall|j: int| #![trigger self.jobs@[j]] 0 <= j < i ==> !(self.jobs@[j].view.state is Queued),
                forall|j: int| #![trigger self.jobs@[j]] 0 <= j < self.jobs@.len() ==> self.jobs@[j].view.id == first[j].view.id,
                forall|j: int| #![trigger self.jobs@[j]] i <= j < self.jobs@.len() ==> self.jobs@[j] == first[j],
                forall|j: int| #![trigger self.jobs@[j]] 0 <= j < i ==> {
                    let before = first[j];
                    let after = self.jobs@[j];
                    &&& after.reservation == before.reservation
                    &&& after.view.id == before.view.id
                    &&& after.view.attempt == before.view.attempt
                    &&& after.view.request == before.view.request
                    &&& after.view.input_bytes == before.view.input_bytes
                    &&& (before.view.state is Queued ==> if fault {
                        after.view.state matches JobState::Failed(f) && f.code == JobErrorCode::ServiceFault && f.cause is None
                    } else {
                        after.view.state is Cancelled
                    })
                    &&& (before.view.state matches JobState::Running { stage, .. } ==> after.view.state == JobState::Running { stage, cancel_requested: true })
                    &&& (before.view.state.spec_terminal() ==> after.view.state == before.view.state)
                },
            decreases self.jobs@.len() - i,
        {
            let replacement = match &self.jobs[i].view.state {
                JobState::Queued => Some(if fault {
                    JobState::Failed(JobFailure::fault(JobErrorCode::ServiceFault))
                } else {
                    JobState::Cancelled
                }),
                JobState::Running { stage, .. } => Some(JobState::Running { stage: *stage, cancel_requested: true }),
                _ => None,
            };
            match replacement {
                Some(state) => {
                    let ghost old_jobs = self.jobs@;
                    let mut job = self.jobs[i].clone();
                    job.view.state = state;
                    proof {
                        lemma_update(old_jobs, i as int, job);
                    }
                    self.jobs.set(i, job);
                },
                None => {},
            }
            i = i + 1;
        }
        self.revision = bump(self.revision);
    }

    /// Claims the next queued row if its reservation fits in what the budget has
    /// left; the queue is served in order, so a large row is never overtaken.
    pub fn take_next(&mut self) -> (r: Option<Work>)
        requires
            old(self).wf(),
        ensures
            final(self).wf(),
            final(self).spec_id() == old(self).spec_id(),
            final(self).spec_parameters() == old(self).spec_parameters(),
            final(self).spec_budget() == old(self).spec_budget(),
            final(self).spec_cancelling() == old(self).spec_cancelling(),
            final(self).rows().len() == old(self).rows().len(),
            r is None ==> *final(self) == *old(self),
            r is None ==> old(self).waiting().len() == 0 || old(self).rows()[old(self).waiting()[0] as int].reservation.0 + old(self).spec_reserved() > old(self).spec_budget(),
            old(self).waiting().len() != 0 && old(self).spec_running() == 0 ==> r is Some,
            r matches Some(w) ==> {
                let i = w.index as int;
                let before = old(self).rows()[i];
                let after = final(self).rows()[i];
                &&& old(self).waiting().len() > 0 && w.index == old(self).waiting()[0]
                &&& final(self).waiting() == old(self).waiting().subrange(1, old(self).waiting().len() as int)
                &&& w.batch == old(self).spec_id()
                &&& w.attempt == before.view.attempt
                &&& w.request == before.view.request
                &&& w.reservation == before.reservation.0
                &&& before.view.state is Queued
                &&& after.view.state == (JobState::Running { stage: ProcessingStage::Reading, cancel_requested: false })
                &&& after.view.request == before.view.request && after.view.attempt == before.view.attempt
                &&& after.reservation == before.reservation
                &&& final(self).rows() == old(self).rows().update(i, after)
                &&& final(self).spec_running() == old(self).spec_running() + 1
                &&& final(self).spec_reserved() == old(self).spec_reserved() + before.reservation.0
                &&& final(self).spec_revision() == next_revision(old(self).spec_revision())
            },
    {
        if self.queue.len() == 0 {
            return None;
        }
        let index = self.queue[0];
        assert(index == self.queue@[0]);
        let reservation = self.jobs[index].reservation.0;
        proof {
            if self.running == 0 {
                assert forall|j: int| 0 <= j < self.jobs@.len() implies !(#[trigger] self.jobs@[j].view.state is Running) by {
                    if self.jobs@[j].view.state is Running {
                        lemma_reserved_part(self.jobs@, j);
                    }
                }
                lemma_none_running(self.jobs@);
                assert(self.jobs@[index as int].view.state is Queued);
            }
        }
        if reservation > self.budget - self.reserved {
            return None;
        }
        let ghost old_queue = self.queue@;
        let ghost old_jobs = self.jobs@;
        self.queue.pop_front();
        let mut job = self.jobs[index].clone();
        job.view.state = JobState::Running { stage: ProcessingStage::Reading, cancel_requested: false };
        let attempt = job.view.attempt;
        let request = job.view.request.clone();
        proof {
            lemma_update(old_jobs, index as int, job);
            lemma_reserved_part(old_jobs.update(index as int, job), index as int);
            lemma_running_bound(old_jobs.update(index as int, job));
        }
        self.jobs.set(index, job);
        self.running = self.running + 1;
        self.reserved = self.reserved + reservation;
        self.revision = bump(self.revision);
        proof {
            assert forall|j: int| #![trigger self.jobs@[j]] 0 <= j < self.jobs@.len() && self.jobs@[j].view.state is Queued implies {
                &&& exists|k: int| 0 <= k < self.queue@.len() && self.queue@[k] == j
                &&& self.jobs@[j].reservation.0 <= self.budget
            } by {
                assert(j != index);
                assert(old_jobs[j] == self.jobs@[j]);
                let k = choose|k: int| 0 <= k < old_queue.len() && old_queue[k] == j;
                assert(k != 0);
                assert(self.queue@[k - 1] == j);
            }
            assert forall|k: int| #![trigger self.queue@[k]] 0 <= k < self.queue@.len() implies {
                &&& self.queue@[k] < self.jobs@.len()
                &&& self.jobs@[self.queue@[k] as int].view.state is Queued
            } by {
                assert(self.queue@[k] == old_queue[k + 1]);
                assert(old_queue[k + 1] != old_queue[0]);
            }
        }
        Some(Work {
            batch: self.id,
            index,
            attempt,
            request,
            cancel: self.cancel.clone(),
            reservation,
        })
    }

    /// Moves a running row of the given attempt forward to a later stage; a stale
    /// or backward update changes nothing.
    pub fn advance_stage(&mut self, index: usize, attempt: u32, next: ProcessingStage) -> (changed: bool)
        requires
            old(self).wf(),
        ensures
            final(self).wf(),
            final(self).spec_id() == old(self).spec_id(),
            final(self).spec_parameters() == old(self).spec_parameters(),
            final(self).spec_budget() == old(self).spec_budget(),
            final(self).spec_cancelling() == old(self).spec_cancelling(),
            final(self).spec_running() == old(self).spec_running(),
            final(self).spec_reserved() == old(self).spec_reserved(),
            final(self).waiting() == old(self).waiting(),
            changed <==> {
                &&& index < old(self).rows().len()
                &&& old(self).rows()[index as int].view.attempt == attempt
                &&& old(self).rows()[index as int].view.state matches JobState::Running { stage, .. }
                &&& stage_rank(stage) < stage_rank(next)
            },
            !changed ==> *final(self) == *old(self),
            changed ==> {
                let before = old(self).rows()[index as int];
                &&& before.view.state matches JobState::Running { cancel_requested, .. }
                &&& final(self).rows() == old(self).rows().update(index as int, Job {
                    view: JobSnapshot { state: JobState::Running { stage: next, cancel_requested }, ..before.view },
                    ..before
                })
                &&& final(self).spec_revision() == next_revision(old(self).spec_revision())
            },
    {
        if index >= self.jobs.len() || self.jobs[index].view.attempt != attempt {
            return false;
        }
        let cancel_requested = match &self.jobs[index].view.state {
            JobState::Running { stage, cancel_requested } => {
                if order(next) <= order(*stage) {
                    return false;
                }
                *cancel_requested
            },
            _ => {
                return false;
            },
        };
        let ghost old_jobs = self.jobs@;
        let mut job = self.jobs[index].clone();
        job.view.state = JobState::Running { stage: next, cancel_requested };
        proof {
            lemma_update(old_jobs, index as int, job);
        }
        self.jobs.set(index, job);
        self.revision = bump(self.revision);
        true
    }

    /// Records the final state a worker reached for a running row of the given
    /// attempt and releases its reservation. A success keeps the size the
    /// pipeline actually read. A stale completion changes nothing.
    pub fn complete(&mut self, index: usize, attempt: u32, terminal: JobState) -> (changed: bool)
        requires
            old(self).wf(),
            terminal.spec_terminal(),
        ensures
            final(self).wf(),
            final(self).spec_id() == old(self).spec_id(),
            final(self).spec_parameters() == old(self).spec_parameters(),
            final(self).spec_budget() == old(self).spec_budget(),
            final(self).spec_cancelling() == old(self).spec_cancelling(),
            final(self).waiting() == old(self).waiting(),
            changed <==> {
                &&& index < old(self).rows().len()
                &&& old(self).rows()[index as int].view.attempt == attempt
                &&& old(self).rows()[index as int].view.state is Running
            },
            !changed ==> *final(self) == *old(self),
            changed ==> {
                let before = old(self).rows()[index as int];
                let after = final(self).rows()[index as int];
                &&& final(self).rows() == old(self).rows().update(index as int, after)
                &&& after.view.state == terminal
                &&& after.reservation == before.reservation
                &&& after.view.request == before.view.request
                &&& after.view.attempt == before.view.attempt
                &&& after.view.input_bytes == match terminal {
                    JobState::Succeeded(report) => Some(report.input_bytes),
                    JobState::NoGain(report) => Some(report.input_bytes),
                    _ => before.view.input_bytes,
                }
                &&& final(self).spec_running() == old(self).spec_running() - 1
                &&& final(self).spec_reserved() == old(self).spec_reserved() - before.reservation.0
                &&& final(self).spec_revision() == next_revision(old(self).spec_revision())
            },
    {
        if index >= self.jobs.len() || self.jobs[index].view.attempt != attempt
            || !matches!(self.jobs[index].view.state, JobState::Running { .. })
        {
            return false;
        }
        let ghost old_jobs = self.jobs@;
        proof {
            lemma_reserved_part(old_jobs, index as int);
        }
        let mut job = self.jobs[index].clone();
        let reservation = job.reservation.0;
        match &terminal {
            JobState::Succeeded(report) => {
                job.view.input_bytes = Some(report.input_bytes);
            },
            JobState::NoGain(report) => {
                job.view.input_bytes = Some(report.input_bytes);
            },
            _ => {},
        }
        job.view.state = terminal;
        proof {
            lemma_update(old_jobs, index as int, job);
        }
        self.jobs.set(index, job);
        self.running = self.running - 1;
        self.reserved = self.reserved - reservation;
        self.revision = bump(self.revision);
        proof {
            assert forall|k: int| #![trigger self.queue@[k]] 0 <= k < self.queue@.len() implies {
                &&& self.queue@[k] < self.jobs@.len()
                &&& self.jobs@[self.queue@[k] as int].view.state is Queued
            } by {
                assert(old_jobs[self.queue@[k] as int].view.state is Queued);
            }
        }
        true
    }
}

impl Batch {
    /// After every worker has stopped, any row still queued or running can no
    /// longer finish: it fails with a service fault and the counters reset.
    pub fn fail_unfinished(&mut self)
        requires
            old(self).wf(),
        ensures
            final(self).wf(),
            final(self).spec_id() == old(self).spec_id(),
            final(self).spec_parameters() == old(self).spec_parameters(),
            final(self).spec_budget() == old(self).spec_budget(),
            !final(self).spec_active(),
            final(self).spec_revision() == next_revision(old(self).spec_revision()),
            final(self).rows().len() == old(self).rows().len(),
            forall|j: int| #![trigger final(self).rows()[j]] 0 <= j < old(self).rows().len() ==> {
                let before = old(self).rows()[j];
                let after = final(self).rows()[j];
                &&& after.view.request == before.view.request
                &&& after.view.attempt == before.view.attempt
                &&& (before.view.state.spec_terminal() ==> after.view.state == before.view.state)
                &&& (!before.view.state.spec_terminal() ==> (after.view.state matches JobState::Failed(f)
                    && f.code == JobErrorCode::ServiceFault && f.cause is None))
            },
    {
        let ghost first = self.jobs@;
        self.queue.clear();
        let mut i: usize = 0;
        while i < self.jobs.len()
            invariant
                self.id == old(self).id,
                self.parameters == old(self).parameters,
                self.budget == old(self).budget,
                self.revision == old(self).revision,
                self.queue@.len() == 0,
                self.jobs@.len() == first.len(),
                0 <= i <= self.jobs@.len(),
                self.jobs@.len() < usize::MAX,
                forall|j: int| #![trigger self.jobs@[j]] i <= j < self.jobs@.len() ==> self.jobs@[j] == first[j],
                forall|j: int| #![trigger self.jobs@[j]] 0 <= j < i ==> {
                    let before = first[j];
                    let after = self.jobs@[j];
                    &&& after.view.request == before.view.request
                    &&& after.view.attempt == before.view.attempt
                    &&& after.view.id == before.view.id
                    &&& after.view.state.spec_terminal()
                    &&& (before.view.state.spec_terminal() ==> after.view.state == before.view.state)
                    &&& (!before.view.state.spec_terminal() ==> (after.view.state matches JobState::Failed(f)
                        && f.code == JobErrorCode::ServiceFault && f.cause is None))
                },
            decreases self.jobs@.len() - i,
        {
            if !self.jobs[i].view.state.is_terminal() {
                let mut job = self.jobs[i].clone();
                job.view.state = JobState::Failed(JobFailure::fault(JobErrorCode::ServiceFault));
                self.jobs.set(i, job);
            }
            i = i + 1;
        }
        proof {
            assert forall|j: int| 0 <= j < self.jobs@.len() implies !(#[trigger] self.jobs@[j].view.state is Running) by {
                assert(self.jobs@[j].view.state.spec_terminal());
            }
            lemma_none_running(self.jobs@);
        }
        self.running = 0;
        self.reserved = 0;
        self.revision = bump(self.revision);
    }
}

/// The final state of a row from what the pipeline returned: a success that
/// committed stays a success even if a cancel arrived meanwhile.
pub open spec fn spec_outcome(result: Result<ProcessingReport, ProcessingError>) -> JobState {
    match result {
        Ok(report) => match report.outcome {
            ProcessingOutcome::Optimized { .. } => JobState::Succeeded(report),
            ProcessingOutcome::NoGain => JobState::NoGain(report),
        },
        Err(ProcessingError::Cancelled) => JobState::Cancelled,
        Err(error) => JobState::Failed(
            JobFailure { code: super::model::error_code(error), cause: Some(std::sync::Arc::new(error)) },
        ),
    }
}

pub fn job_outcome(result: Result<ProcessingReport, ProcessingError>) -> (r: JobState)
    ensures
        r == spec_outcome(result),
        r.spec_terminal(),
{
    match result {
        Ok(report) => {
            if matches!(report.outcome, ProcessingOutcome::NoGain) {
                JobState::NoGain(report)
            } else {
                JobState::Succeeded(report)
            }
        },
        Err(ProcessingError::Cancelled) => JobState::Cancelled,
        Err(error) => JobState::Failed(JobFailure::processing(error)),
    }
}

/// The per-row requests of a start: each item with the common parameters,
/// keeping the file's metadata.
pub open spec fn spec_requests(request: BatchRequest) -> Seq<PngRequest> {
    request.items@.map_values(|item: super::model::BatchItem| PngRequest {
        source: item.source,
        output: item.output,
        limits: request.parameters.limits,
        mode: request.parameters.mode,
        metadata: PngMetadataPolicy::Preserve,
    })
}

/// Each row of a start is its item: the same source and the same output
/// policy, with the batch's limits and mode and the metadata kept.
pub open spec fn row_of(item: super::model::BatchItem, parameters: BatchParameters, row: PngRequest) -> bool {
    &&& row.source == item.source
    &&& row.output == item.output
    &&& row.limits == parameters.limits
    &&& row.mode == parameters.mode
    &&& row.metadata == PngMetadataPolicy::Preserve
}

/// The rows of a start are the items in order, each keeping its own source and
/// output (a copy stays a copy, an overwrite an overwrite).
pub proof fn law_start_rows_keep_their_items(request: BatchRequest)
    ensures
        spec_requests(request).len() == request.items@.len(),
        forall|i: int| 0 <= i < request.items@.len() ==> row_of(
            request.items@[i],
            request.parameters,
            #[trigger] spec_requests(request)[i],
        ),
{
}

pub fn requests_of(request: &BatchRequest) -> (r: Vec<PngRequest>)
    ensures
        r@ == spec_requests(*request),
        r@.len() == request.items@.len(),
        forall|i: int| 0 <= i < request.items@.len() ==> row_of(request.items@[i], request.parameters, #[trigger] r@[i]),
{
    proof {
        law_start_rows_keep_their_items(*request);
    }
    let mut out: Vec<PngRequest> = Vec::new();
    let mut i: usize = 0;
    while i < request.items.len()
        invariant
            0 <= i <= request.items.len(),
            out@ == spec_requests(*request).subrange(0, i as int),
        decreases request.items.len() - i,
    {
        let item = &request.items[i];
        out.push(PngRequest {
            source: item.source.clone(),
            output: item.output.clone(),
            limits: request.parameters.limits,
            mode: request.parameters.mode,
            metadata: PngMetadataPolicy::Preserve,
        });
        assert(spec_requests(*request).subrange(0, i + 1) =~= spec_requests(*request).subrange(0, i as int).push(out@[i as int]));
        i = i + 1;
    }
    assert(spec_requests(*request).subrange(0, i as int) =~= spec_requests(*request));
    out
}

/// What a worker does next.
#[derive(Debug)]
pub enum Take {
    /// The service closed: the worker exits.
    Stop,
    /// A claimed row to run through the pipeline.
    Run(Work),
    /// Nothing fits right now: wait for a change.
    Wait,
}

/// A validated retry: the earlier rows, which of them run again, and the
/// requests to re-check (selected rows carry the new output and parameters).
#[derive(Debug)]
pub struct RetryPlan {
    id: BatchId,
    revision: u64,
    parameters: BatchParameters,
    old: Vec<Job>,
    selected: Vec<bool>,
    requests: Vec<PngRequest>,
}

impl RetryPlan {
    /// The earlier rows are all final, and a selected row can still count one more attempt.
    #[verifier::type_invariant]
    spec fn consistent(self) -> bool {
        &&& self.old.len() == self.selected.len()
        &&& self.old.len() == self.requests.len()
        &&& self.old.len() < usize::MAX
        &&& forall|i: int| 0 <= i < self.old.len() ==> (#[trigger] self.old@[i]).view.state.spec_terminal()
        &&& forall|i: int| 0 <= i < self.old.len() && #[trigger] self.selected@[i] ==> self.old@[i].view.attempt < u32::MAX
        &&& forall|i: int| 0 <= i < self.old.len() ==> (#[trigger] self.old@[i]).view.id.value() == i + 1
    }

    pub closed spec fn len(self) -> nat {
        self.old@.len()
    }

    pub closed spec fn spec_id(self) -> BatchId {
        self.id
    }

    pub closed spec fn spec_revision(self) -> u64 {
        self.revision
    }

    pub closed spec fn spec_parameters(self) -> BatchParameters {
        self.parameters
    }

    pub closed spec fn old_rows(self) -> Seq<Job> {
        self.old@
    }

    pub closed spec fn selected_rows(self) -> Seq<bool> {
        self.selected@
    }

    pub closed spec fn spec_requests(self) -> Seq<PngRequest> {
        self.requests@
    }

    /// The requests to re-check, in row order.
    pub fn requests(&self) -> (r: &Vec<PngRequest>)
        ensures
            r.len() == self.len(),
    {
        proof {
            use_type_invariant(self);
        }
        &self.requests
    }
}

/// The service's shared state: whether it still admits work, the next batch
/// identifier and the most recent batch.
#[derive(Debug)]
pub struct ServiceState {
    closed: bool,
    faulted: bool,
    preparing: bool,
    next_id: u64,
    batch: Option<Batch>,
    config: BatchConfig,
}

impl ServiceState {
    pub closed spec fn wf(self) -> bool {
        &&& self.config.spec_valid()
        &&& (self.faulted ==> self.closed)
        &&& (self.batch matches Some(b) ==> b.wf() && b.spec_budget() == self.config.working_set_budget.0)
    }

    pub closed spec fn spec_closed(self) -> bool {
        self.closed
    }

    pub closed spec fn spec_faulted(self) -> bool {
        self.faulted
    }

    pub closed spec fn spec_preparing(self) -> bool {
        self.preparing
    }

    pub closed spec fn spec_next_id(self) -> u64 {
        self.next_id
    }

    pub closed spec fn spec_batch(self) -> Option<Batch> {
        self.batch
    }

    pub closed spec fn spec_config(self) -> BatchConfig {
        self.config
    }

    /// Open for a new start or retry: not closed, not preparing, no active batch.
    pub open spec fn spec_idle(self) -> bool {
        &&& !self.spec_closed()
        &&& !self.spec_preparing()
        &&& !(self.spec_batch() matches Some(b) && b.spec_active())
    }

    /// A fresh service state; the configuration must be in range.
    pub fn new(config: BatchConfig) -> (r: Result<Self, BatchError>)
        ensures
            r is Ok <==> config.spec_valid(),
            r matches Err(e) ==> e is InvalidConfig,
            r matches Ok(s) ==> s.wf() && !s.spec_closed() && !s.spec_faulted() && !s.spec_preparing()
                && s.spec_next_id() == 1 && s.spec_batch() is None && s.spec_config() == config,
    {
        match config.validate() {
            Ok(()) => {},
            Err(e) => return Err(e),
        }
        Ok(ServiceState { closed: false, faulted: false, preparing: false, next_id: 1, batch: None, config })
    }

    pub fn config(&self) -> (r: BatchConfig)
        ensures
            r == self.spec_config(),
    {
        self.config
    }

    pub fn is_closed(&self) -> (r: bool)
        ensures
            r == self.spec_closed(),
    {
        self.closed
    }

    /// Stops admitting work and cancels the current batch; a fault also marks
    /// the service broken and fails the queued rows instead of cancelling them.
    pub fn close(&mut self, fault: bool)
        requires
            old(self).wf(),
        ensures
            final(self).wf(),
            final(self).spec_closed(),
            final(self).spec_faulted() == (old(self).spec_faulted() || fault),
            final(self).spec_preparing() == old(self).spec_preparing(),
            final(self).spec_next_id() == old(self).spec_next_id(),
            final(self).spec_config() == old(self).spec_config(),
            old(self).spec_batch() is None <==> final(self).spec_batch() is None,
            final(self).spec_batch() matches Some(b) ==> b.spec_id() == old(self).spec_batch()->0.spec_id()
                && (!b.spec_active() || b.spec_cancelling()),
    {
        self.closed = true;
        self.faulted = self.faulted || fault;
        match &mut self.batch {
            Some(batch) => {
                batch.cancel(fault);
            },
            None => {},
        }
    }

    /// Whether a new start or retry may begin now.
    pub fn available(&self) -> (r: Result<(), BatchError>)
        requires
            self.wf(),
        ensures
            self.spec_faulted() ==> r matches Err(BatchError::ServiceFault),
            !self.spec_faulted() && self.spec_closed() ==> r matches Err(BatchError::Closed),
            !self.spec_closed() && (self.spec_preparing() || (self.spec_batch() matches Some(b) && b.spec_active()))
                ==> r matches Err(BatchError::Busy),
            !self.spec_closed() && !self.spec_preparing() && !(self.spec_batch() matches Some(b) && b.spec_active())
                ==> r is Ok,
    {
        if self.faulted {
            Err(BatchError::ServiceFault)
        } else if self.closed {
            Err(BatchError::Closed)
        } else if self.preparing || match &self.batch {
            Some(b) => b.active(),
            None => false,
        } {
            Err(BatchError::Busy)
        } else {
            Ok(())
        }
    }

    /// Ends a preparation that did not reach its finishing step.
    pub fn end_preparation(&mut self)
        requires
            old(self).wf(),
        ensures
            final(self).wf(),
            !final(self).spec_preparing(),
            final(self).spec_closed() == old(self).spec_closed(),
            final(self).spec_faulted() == old(self).spec_faulted(),
            final(self).spec_next_id() == old(self).spec_next_id(),
            final(self).spec_batch() == old(self).spec_batch(),
            final(self).spec_config() == old(self).spec_config(),
    {
        self.preparing = false;
    }

    /// Admission checks of a start made before any file is read; on success the
    /// service is marked as preparing and the per-row requests are returned for
    /// the read-only path checks.
    pub fn begin_start(&mut self, request: &BatchRequest) -> (r: Result<Vec<PngRequest>, BatchError>)
        requires
            old(self).wf(),
        ensures
            final(self).wf(),
            final(self).spec_closed() == old(self).spec_closed(),
            final(self).spec_faulted() == old(self).spec_faulted(),
            final(self).spec_next_id() == old(self).spec_next_id(),
            final(self).spec_batch() == old(self).spec_batch(),
            final(self).spec_config() == old(self).spec_config(),
            r is Err ==> final(self).spec_preparing() == old(self).spec_preparing(),
            request.items.len() == 0 ==> r matches Err(BatchError::EmptyBatch),
            request.items.len() > 0 && request.items.len() > old(self).spec_config().max_jobs ==> r matches Err(BatchError::TooManyJobs),
            r matches Ok(requests) ==> {
                &&& requests@ == spec_requests(*request)
                &&& requests@.len() == request.items@.len()
                &&& forall|i: int| 0 <= i < request.items@.len() ==> row_of(
                    request.items@[i],
                    request.parameters,
                    #[trigger] requests@[i],
                )
                &&& 0 < request.items.len() <= old(self).spec_config().max_jobs
                &&& request.parameters.limits.spec_valid()
                &&& super::planning::spec_estimate(request.parameters) <= u64::MAX
                &&& !old(self).spec_closed() && !old(self).spec_preparing()
                &&& !(old(self).spec_batch() matches Some(b) && b.spec_active())
                &&& final(self).spec_preparing()
            },
            r is Err && request.items.len() > 0 && request.items.len() <= old(self).spec_config().max_jobs
                && request.parameters.limits.spec_valid() && super::planning::spec_estimate(request.parameters) <= u64::MAX
                ==> !old(self).spec_idle(),
            0 < request.items.len() <= old(self).spec_config().max_jobs && !request.parameters.limits.spec_valid()
                ==> (r matches Err(BatchError::InvalidParameters(e)) && e is InvalidLimits),
            0 < request.items.len() <= old(self).spec_config().max_jobs && request.parameters.limits.spec_valid()
                && super::planning::spec_estimate(request.parameters) > u64::MAX ==> (r matches Err(BatchError::InvalidConfig)),
            0 < request.items.len() <= old(self).spec_config().max_jobs && request.parameters.limits.spec_valid()
                && super::planning::spec_estimate(request.parameters) <= u64::MAX && !old(self).spec_idle()
                ==> (r matches Err(e) && (e is ServiceFault || e is Closed || e is Busy)),
    {
        if request.items.len() == 0 {
            return Err(BatchError::EmptyBatch);
        }
        if request.items.len() > self.config.max_jobs {
            return Err(BatchError::TooManyJobs);
        }
        match estimate_working_set(request.parameters) {
            Ok(_) => {},
            Err(e) => return Err(e),
        }
        match self.available() {
            Ok(()) => {},
            Err(e) => return Err(e),
        }
        self.preparing = true;
        Ok(requests_of(request))
    }

    /// Builds the rows from the checked requests and installs the new batch
    /// under the next identifier; ends the preparation either way.
    pub fn finish_start(&mut self, parameters: BatchParameters, requests: Vec<PngRequest>, checks: Vec<PathCheck>) -> (r: Result<BatchId, BatchError>)
        requires
            old(self).wf(),
            requests.len() == checks.len(),
            requests.len() <= old(self).spec_config().max_jobs,
        ensures
            final(self).wf(),
            !final(self).spec_preparing(),
            final(self).spec_closed() == old(self).spec_closed(),
            final(self).spec_faulted() == old(self).spec_faulted(),
            final(self).spec_config() == old(self).spec_config(),
            r is Err ==> final(self).spec_batch() == old(self).spec_batch(),
            r is Err ==> final(self).spec_next_id() == old(self).spec_next_id(),
            r matches Ok(id) ==> {
                &&& !old(self).spec_closed()
                &&& old(self).spec_next_id() < u64::MAX
                &&& id.value() == old(self).spec_next_id()
                &&& final(self).spec_next_id() == old(self).spec_next_id() + 1
                &&& final(self).spec_batch() matches Some(b) && b.spec_id() == id && b.spec_revision() == 1
                    && b.spec_parameters() == parameters && b.rows().len() == requests.len()
                    && !b.spec_cancelling()
                    && forall|i: int| 0 <= i < requests.len() ==> (#[trigger] b.rows()[i]).view.request == requests@[i]
                        && b.rows()[i].view.attempt == 1
            },
            old(self).spec_closed() ==> r is Err,
            !old(self).spec_closed() && old(self).spec_next_id() == u64::MAX ==> r is Err,
            r is Ok <==> (admissible(requests@, checks@) && !old(self).spec_closed()
                && old(self).spec_next_id() < u64::MAX),
            !estimates_fit(requests@) ==> (r matches Err(e) && (e is InvalidParameters || e is InvalidConfig)),
            estimates_fit(requests@) && !admissible(requests@, checks@)
                ==> (r matches Err(BatchError::PathConflict { .. })),
            admissible(requests@, checks@) && old(self).spec_closed() ==> (r matches Err(BatchError::Closed)),
            admissible(requests@, checks@) && !old(self).spec_closed() && old(self).spec_next_id() == u64::MAX
                ==> (r matches Err(BatchError::IdExhausted)),
    {
        self.preparing = false;
        let budget = self.config.working_set_budget;
        let jobs = match prepare(requests, checks, budget) {
            Ok(jobs) => jobs,
            Err(e) => return Err(e),
        };
        if self.closed {
            return Err(BatchError::Closed);
        }
        let id = BatchId::new(self.next_id);
        self.next_id = match self.next_id.checked_add(1) {
            Some(n) => n,
            None => return Err(BatchError::IdExhausted),
        };
        proof {
            assert forall|j: int| 0 <= j < jobs.len() implies !(#[trigger] jobs@[j].view.state is Running) by {
                assert(jobs@[j].view.state == super::planning::admitted_state(checks@[j], jobs@[j].reservation, budget));
            }
            assert forall|j: int| 0 <= j < jobs.len() && (#[trigger] jobs@[j].view.state is Queued) implies jobs@[j].reservation.0 <= budget.0 by {
                assert(jobs@[j].view.state == super::planning::admitted_state(checks@[j], jobs@[j].reservation, budget));
            }
        }
        self.batch = Some(Batch::new(id, 1, parameters, jobs, budget.0));
        Ok(id)
    }

    /// An independent copy of the current batch, if any.
    pub fn snapshot(&self) -> (r: Option<BatchSnapshot>)
        requires
            self.wf(),
        ensures
            self.spec_batch() is None <==> r is None,
            r matches Some(s) ==> s.id == self.spec_batch()->0.spec_id()
                && s.revision == self.spec_batch()->0.spec_revision()
                && s.phase == self.spec_batch()->0.spec_phase()
                && s.jobs@ == self.spec_batch()->0.rows().map_values(|j: Job| j.view),
    {
        match &self.batch {
            Some(b) => Some(b.snapshot()),
            None => None,
        }
    }

    /// Cancels the named batch: queued rows end now, running rows are marked.
    pub fn cancel(&mut self, id: BatchId) -> (r: Result<(), BatchError>)
        requires
            old(self).wf(),
        ensures
            final(self).wf(),
            final(self).spec_closed() == old(self).spec_closed(),
            final(self).spec_faulted() == old(self).spec_faulted(),
            final(self).spec_preparing() == old(self).spec_preparing(),
            final(self).spec_next_id() == old(self).spec_next_id(),
            final(self).spec_config() == old(self).spec_config(),
            r is Ok <==> (old(self).spec_batch() matches Some(b) && b.spec_id() == id),
            r matches Err(e) ==> e is NoSuchBatch && final(self).spec_batch() == old(self).spec_batch(),
            r is Ok ==> (final(self).spec_batch() matches Some(b) && b.spec_id() == id
                && (!b.spec_active() || b.spec_cancelling())),
    {
        match &mut self.batch {
            Some(batch) => {
                if batch.id() == id {
                    batch.cancel(false);
                    Ok(())
                } else {
                    Err(BatchError::NoSuchBatch)
                }
            },
            None => Err(BatchError::NoSuchBatch),
        }
    }

    /// The answer a waiter gets now: the final snapshot once the batch has
    /// finished, `None` while it is still active.
    pub fn wait_status(&self, id: BatchId) -> (r: Result<Option<BatchSnapshot>, BatchError>)
        requires
            self.wf(),
        ensures
            self.spec_faulted() ==> r matches Err(BatchError::ServiceFault),
            !self.spec_faulted() && !(self.spec_batch() matches Some(b) && b.spec_id() == id) ==> r matches Err(BatchError::NoSuchBatch),
            !self.spec_faulted() && (self.spec_batch() matches Some(b) && b.spec_id() == id) ==> {
                let b = self.spec_batch()->0;
                &&& (b.spec_active() ==> r matches Ok(None))
                &&& (!b.spec_active() ==> (r matches Ok(Some(s)) && s.id == id && s.phase == BatchPhase::Finished
                    && s.jobs@ == b.rows().map_values(|j: Job| j.view)))
            },
    {
        if self.faulted {
            return Err(BatchError::ServiceFault);
        }
        match &self.batch {
            Some(b) => {
                if b.id() != id {
                    Err(BatchError::NoSuchBatch)
                } else if b.active() {
                    Ok(None)
                } else {
                    Ok(Some(b.snapshot()))
                }
            },
            None => Err(BatchError::NoSuchBatch),
        }
    }

    /// Removes a finished batch and returns its last snapshot; outputs and
    /// backups are left alone.
    pub fn clear(&mut self, id: BatchId) -> (r: Result<BatchSnapshot, BatchError>)
        requires
            old(self).wf(),
        ensures
            final(self).wf(),
            final(self).spec_closed() == old(self).spec_closed(),
            final(self).spec_faulted() == old(self).spec_faulted(),
            final(self).spec_preparing() == old(self).spec_preparing(),
            final(self).spec_next_id() == old(self).spec_next_id(),
            final(self).spec_config() == old(self).spec_config(),
            old(self).spec_preparing() ==> r matches Err(BatchError::Busy),
            !old(self).spec_preparing() && !(old(self).spec_batch() matches Some(b) && b.spec_id() == id) ==> r matches Err(BatchError::NoSuchBatch),
            !old(self).spec_preparing() && (old(self).spec_batch() matches Some(b) && b.spec_id() == id && b.spec_active()) ==> r matches Err(BatchError::Busy),
            r is Err ==> final(self).spec_batch() == old(self).spec_batch(),
            r matches Ok(s) ==> {
                &&& old(self).spec_batch() matches Some(b) && b.spec_id() == id && !b.spec_active()
                &&& s.id == id && s.jobs@ == old(self).spec_batch()->0.rows().map_values(|j: Job| j.view)
                &&& final(self).spec_batch() is None
            },
    {
        if self.preparing {
            return Err(BatchError::Busy);
        }
        let snapshot = match &self.batch {
            Some(b) => {
                if b.id() != id {
                    return Err(BatchError::NoSuchBatch);
                }
                if b.active() {
                    return Err(BatchError::Busy);
                }
                b.snapshot()
            },
            None => return Err(BatchError::NoSuchBatch),
        };
        self.batch = None;
        Ok(snapshot)
    }

    /// A worker's next step: stop once closed, otherwise claim the next row
    /// that fits, or wait.
    pub fn take(&mut self) -> (r: Take)
        requires
            old(self).wf(),
        ensures
            final(self).wf(),
            final(self).spec_closed() == old(self).spec_closed(),
            final(self).spec_faulted() == old(self).spec_faulted(),
            final(self).spec_preparing() == old(self).spec_preparing(),
            final(self).spec_next_id() == old(self).spec_next_id(),
            final(self).spec_config() == old(self).spec_config(),
            old(self).spec_closed() <==> r is Stop,
            !(r is Run) ==> final(self).spec_batch() == old(self).spec_batch(),
            r matches Take::Run(w) ==> (old(self).spec_batch() matches Some(b) && w.batch == b.spec_id()
                && w.index == b.waiting()[0] && final(self).spec_batch() is Some
                && final(self).spec_batch()->0.spec_id() == b.spec_id()),
            !old(self).spec_closed() && (old(self).spec_batch() matches Some(b) && b.waiting().len() > 0 && b.spec_running() == 0) ==> r is Run,
    {
        if self.closed {
            return Take::Stop;
        }
        match &mut self.batch {
            Some(batch) => match batch.take_next() {
                Some(work) => Take::Run(work),
                None => Take::Wait,
            },
            None => Take::Wait,
        }
    }

    /// Records a stage a worker reached; stale or backward updates are ignored.
    pub fn stage(&mut self, work: &Work, next: ProcessingStage) -> (changed: bool)
        requires
            old(self).wf(),
        ensures
            final(self).wf(),
            final(self).spec_closed() == old(self).spec_closed(),
            final(self).spec_faulted() == old(self).spec_faulted(),
            final(self).spec_preparing() == old(self).spec_preparing(),
            final(self).spec_next_id() == old(self).spec_next_id(),
            final(self).spec_config() == old(self).spec_config(),
            !changed ==> final(self).spec_batch() == old(self).spec_batch(),
            changed ==> (old(self).spec_batch() matches Some(b) && b.spec_id() == work.batch
                && final(self).spec_batch() is Some
                && final(self).spec_batch()->0.spec_revision() == next_revision(b.spec_revision())),
            changed <==> (old(self).spec_batch() matches Some(b) && b.spec_id() == work.batch
                && work.index < b.rows().len()
                && b.rows()[work.index as int].view.attempt == work.attempt
                && (b.rows()[work.index as int].view.state matches JobState::Running { stage, .. }
                    && stage_rank(stage) < stage_rank(next))),
            changed ==> ({
                let b = old(self).spec_batch()->0;
                let a = final(self).spec_batch()->0;
                let before = b.rows()[work.index as int];
                &&& before.view.state matches JobState::Running { cancel_requested, .. }
                    && a.rows() == b.rows().update(work.index as int, Job {
                        view: JobSnapshot { state: JobState::Running { stage: next, cancel_requested }, ..before.view },
                        ..before
                    })
                &&& a.spec_id() == b.spec_id()
                &&& a.spec_parameters() == b.spec_parameters()
                &&& a.spec_budget() == b.spec_budget()
                &&& a.spec_cancelling() == b.spec_cancelling()
                &&& a.spec_running() == b.spec_running()
                &&& a.spec_reserved() == b.spec_reserved()
                &&& a.waiting() == b.waiting()
            }),
    {
        match &mut self.batch {
            Some(batch) => {
                if batch.id() == work.batch {
                    batch.advance_stage(work.index, work.attempt, next)
                } else {
                    false
                }
            },
            None => false,
        }
    }

    /// Records a worker's final state for its row and releases the reservation;
    /// a completion for a replaced batch or attempt is ignored.
    pub fn complete(&mut self, work: &Work, terminal: JobState) -> (changed: bool)
        requires
            old(self).wf(),
            terminal.spec_terminal(),
        ensures
            final(self).wf(),
            final(self).spec_closed() == old(self).spec_closed(),
            final(self).spec_faulted() == old(self).spec_faulted(),
            final(self).spec_preparing() == old(self).spec_preparing(),
            final(self).spec_next_id() == old(self).spec_next_id(),
            final(self).spec_config() == old(self).spec_config(),
            !changed ==> final(self).spec_batch() == old(self).spec_batch(),
            changed ==> (old(self).spec_batch() matches Some(b) && b.spec_id() == work.batch
                && final(self).spec_batch() is Some
                && final(self).spec_batch()->0.rows()[work.index as int].view.state == terminal
                && final(self).spec_batch()->0.spec_running() == b.spec_running() - 1),
            changed <==> (old(self).spec_batch() matches Some(b) && b.spec_id() == work.batch
                && work.index < b.rows().len()
                && b.rows()[work.index as int].view.attempt == work.attempt
                && b.rows()[work.index as int].view.state is Running),
            changed ==> ({
                let b = old(self).spec_batch()->0;
                let a = final(self).spec_batch()->0;
                let before = b.rows()[work.index as int];
                let after = a.rows()[work.index as int];
                &&& a.rows() == b.rows().update(work.index as int, after)
                &&& after.reservation == before.reservation
                &&& after.view.request == before.view.request
                &&& after.view.attempt == before.view.attempt
                &&& after.view.input_bytes == match terminal {
                    JobState::Succeeded(report) => Some(report.input_bytes),
                    JobState::NoGain(report) => Some(report.input_bytes),
                    _ => before.view.input_bytes,
                }
                &&& a.spec_reserved() == b.spec_reserved() - before.reservation.0
                &&& a.spec_revision() == next_revision(b.spec_revision())
                &&& a.spec_id() == b.spec_id()
                &&& a.spec_parameters() == b.spec_parameters()
                &&& a.spec_budget() == b.spec_budget()
                &&& a.spec_cancelling() == b.spec_cancelling()
                &&& a.waiting() == b.waiting()
            }),
    {
        match &mut self.batch {
            Some(batch) => {
                if batch.id() == work.batch {
                    batch.complete(work.index, work.attempt, terminal)
                } else {
                    false
                }
            },
            None => false,
        }
    }

    /// After every worker has been joined: a worker that panicked outside the
    /// pipeline breaks the service, and rows left unfinished fail as a fault.
    pub fn finish_shutdown(&mut self, worker_failed: bool) -> (r: Result<(), BatchError>)
        requires
            old(self).wf(),
        ensures
            final(self).wf(),
            final(self).spec_closed() || (!worker_failed && final(self).spec_closed() == old(self).spec_closed()),
            final(self).spec_batch() matches Some(b) ==> !b.spec_active(),
            r is Ok <==> final(self).spec_faulted() == false,
            r matches Err(e) ==> e is ServiceFault,
            !worker_failed && !old(self).spec_faulted() && !(old(self).spec_batch() matches Some(b) && b.spec_active()) ==> r is Ok,
    {
        if worker_failed {
            self.close(true);
        }
        let unfinished = match &self.batch {
            Some(b) => b.active(),
            None => false,
        };
        if unfinished {
            match &mut self.batch {
                Some(batch) => {
                    batch.fail_unfinished();
                },
                None => {},
            }
            self.closed = true;
            self.faulted = true;
        }
        if self.faulted {
            Err(BatchError::ServiceFault)
        } else {
            Ok(())
        }
    }
}

/// The request a selected row runs again with: same source, the retry's
/// output and metadata policy, and the new parameters.
pub open spec fn retried_request(old: PngRequest, job: super::model::RetryJob, parameters: BatchParameters) -> PngRequest {
    PngRequest {
        source: old.source,
        output: job.output,
        limits: parameters.limits,
        mode: parameters.mode,
        metadata: job.metadata,
    }
}

/// Every selected row exists, is failed or cancelled, can count one more
/// attempt, and is selected once.
pub open spec fn retry_selection_valid(rows: Seq<Job>, jobs: Seq<super::model::RetryJob>) -> bool {
    &&& 0 < jobs.len() <= rows.len()
    &&& forall|k: int| 0 <= k < jobs.len() ==> {
        let i = (#[trigger] jobs[k]).id.value() - 1;
        &&& 0 <= i < rows.len()
        &&& rows[i].view.state.spec_retryable()
        &&& rows[i].view.attempt < u32::MAX
    }
    &&& forall|k1: int, k2: int| 0 <= k1 < k2 < jobs.len() ==> (#[trigger] jobs[k1]).id != (#[trigger] jobs[k2]).id
}

impl ServiceState {
    /// Validates a retry of failed or cancelled rows of a finished batch and
    /// marks the service as preparing; the returned plan carries the requests
    /// to re-check. Nothing changes on an error.
    #[verifier::loop_isolation(false)]
    pub fn begin_retry(&mut self, id: BatchId, request: &RetryRequest) -> (r: Result<RetryPlan, BatchError>)
        requires
            old(self).wf(),
        ensures
            final(self).wf(),
            final(self).spec_closed() == old(self).spec_closed(),
            final(self).spec_faulted() == old(self).spec_faulted(),
            final(self).spec_next_id() == old(self).spec_next_id(),
            final(self).spec_batch() == old(self).spec_batch(),
            final(self).spec_config() == old(self).spec_config(),
            r is Err ==> final(self).spec_preparing() == old(self).spec_preparing(),
            !request.parameters.limits.spec_valid() ==> r matches Err(BatchError::InvalidParameters(_)),
            r is Ok <==> {
                &&& request.parameters.limits.spec_valid()
                &&& super::planning::spec_estimate(request.parameters) <= u64::MAX
                &&& old(self).spec_idle()
                &&& old(self).spec_batch() matches Some(b) && b.spec_id() == id
                &&& retry_selection_valid(old(self).spec_batch()->0.rows(), request.jobs@)
            },
            request.parameters.limits.spec_valid() && super::planning::spec_estimate(request.parameters) <= u64::MAX
                && old(self).spec_idle() && (old(self).spec_batch() matches Some(b) && b.spec_id() == id)
                && !retry_selection_valid(old(self).spec_batch()->0.rows(), request.jobs@)
                ==> (r matches Err(e) && (e is InvalidRetry || e is IdExhausted)),
            r matches Ok(plan) ==> {
                let rows = old(self).spec_batch()->0.rows();
                &&& final(self).spec_preparing()
                &&& plan.len() == rows.len()
                &&& plan.spec_id() == id
                &&& plan.spec_revision() == old(self).spec_batch()->0.spec_revision()
                &&& plan.spec_parameters() == request.parameters
                &&& plan.old_rows() == rows
                &&& forall|i: int| 0 <= i < rows.len() ==> (#[trigger] plan.selected_rows()[i]
                    <==> exists|k: int| 0 <= k < request.jobs.len() && request.jobs@[k].id.value() == i + 1)
                &&& forall|k: int| 0 <= k < request.jobs.len() ==> {
                    let i = (#[trigger] request.jobs@[k]).id.value() - 1;
                    plan.spec_requests()[i] == retried_request(rows[i].view.request, request.jobs@[k], request.parameters)
                }
                &&& forall|i: int| 0 <= i < rows.len() && !(#[trigger] plan.selected_rows()[i]) ==> plan.spec_requests()[i] == rows[i].view.request
            },
    {
        match estimate_working_set(request.parameters) {
            Ok(_) => {},
            Err(e) => return Err(e),
        }
        match self.available() {
            Ok(()) => {},
            Err(e) => return Err(e),
        }
        let batch = match &self.batch {
            Some(b) => {
                if b.id() != id {
                    return Err(BatchError::NoSuchBatch);
                }
                b
            },
            None => return Err(BatchError::NoSuchBatch),
        };
        let n = batch.jobs.len();
        let ghost rows = batch.jobs@;
        if request.jobs.len() == 0 || request.jobs.len() > n {
            return Err(BatchError::InvalidRetry);
        }
        proof {
            batch.lemma_active_iff_unfinished();
        }
        let mut kept: Vec<Job> = Vec::new();
        let mut selected: Vec<bool> = Vec::new();
        let mut requests: Vec<PngRequest> = Vec::new();
        let mut i: usize = 0;
        while i < n
            invariant
                n == rows.len(),
                rows == batch.jobs@,
                batch.wf(),
                !batch.spec_active(),
                0 <= i <= n,
                kept@ == rows.subrange(0, i as int),
                selected.len() == i,
                requests.len() == i,
                forall|j: int| 0 <= j < i ==> !(#[trigger] selected@[j]),
                forall|j: int| 0 <= j < i ==> (#[trigger] requests@[j]) == rows[j].view.request,
            decreases n - i,
        {
            kept.push(batch.jobs[i].clone());
            selected.push(false);
            requests.push(batch.jobs[i].view.request.clone());
            assert(rows.subrange(0, i + 1) =~= rows.subrange(0, i as int).push(rows[i as int]));
            i = i + 1;
        }
        assert(rows.subrange(0, n as int) =~= rows);
        let mut k: usize = 0;
        while k < request.jobs.len()
            invariant
                n == rows.len(),
                n < usize::MAX,
                kept@ == rows,
                selected.len() == n,
                requests.len() == n,
                0 <= k <= request.jobs.len(),
                request.jobs.len() <= n,
                forall|m: int| 0 <= m < k ==> {
                    let j = (#[trigger] request.jobs@[m]).id.value() - 1;
                    &&& 0 <= j < n
                    &&& rows[j].view.state.spec_retryable()
                    &&& rows[j].view.attempt < u32::MAX
                    &&& requests@[j] == retried_request(rows[j].view.request, request.jobs@[m], request.parameters)
                },
                forall|m1: int, m2: int| 0 <= m1 < m2 < k ==> (#[trigger] request.jobs@[m1]).id != (#[trigger] request.jobs@[m2]).id,
                forall|j: int| 0 <= j < n ==> (#[trigger] selected@[j] <==> exists|m: int| 0 <= m < k && request.jobs@[m].id.value() == j + 1),
                forall|j: int| 0 <= j < n && !(#[trigger] selected@[j]) ==> requests@[j] == rows[j].view.request,
                forall|j: int| 0 <= j < n && #[trigger] selected@[j] ==> rows[j].view.attempt < u32::MAX,
            decreases request.jobs.len() - k,
        {
            let retry = &request.jobs[k];
            let number = retry.id.get();
            if number == 0 || number > n {
                proof {
                    assert(!retry_selection_valid(rows, request.jobs@)) by {
                        let m = k as int;
                        assert(request.jobs@[m].id.value() - 1 < 0 || request.jobs@[m].id.value() - 1 >= n);
                    }
                }
                return Err(BatchError::InvalidRetry);
            }
            let j = number - 1;
            if selected[j] || !kept[j].view.state.can_retry() {
                proof {
                    assert(!retry_selection_valid(rows, request.jobs@)) by {
                        if selected@[j as int] {
                            let m = choose|m: int| 0 <= m < k && request.jobs@[m].id.value() == j + 1;
                            super::model::JobId::lemma_same_value(request.jobs@[m].id, request.jobs@[k as int].id);
                            assert(request.jobs@[m].id == request.jobs@[k as int].id);
                        } else {
                            let m = k as int;
                            assert(!rows[j as int].view.state.spec_retryable());
                        }
                    }
                }
                return Err(BatchError::InvalidRetry);
            }
            if kept[j].view.attempt == u32::MAX {
                proof {
                    assert(!retry_selection_valid(rows, request.jobs@)) by {
                        let m = k as int;
                        assert(rows[j as int].view.attempt == u32::MAX);
                    }
                }
                return Err(BatchError::IdExhausted);
            }
            let next = PngRequest {
                source: requests[j].source.clone(),
                output: retry.output.clone(),
                limits: request.parameters.limits,
                mode: request.parameters.mode,
                metadata: retry.metadata.clone(),
            };
            let ghost sel_before = selected@;
            requests.set(j, next);
            selected.set(j, true);
            proof {
                assert forall|j2: int| 0 <= j2 < n implies (#[trigger] selected@[j2] <==> exists|m: int| 0 <= m < k + 1 && request.jobs@[m].id.value() == j2 + 1) by {
                    if j2 == j as int {
                        assert(request.jobs@[k as int].id.value() == j2 + 1);
                    } else if selected@[j2] {
                        let m = choose|m: int| 0 <= m < k && request.jobs@[m].id.value() == j2 + 1;
                        assert(0 <= m < k + 1);
                    }
                }
                assert forall|m1: int, m2: int| 0 <= m1 < m2 < k + 1 implies (#[trigger] request.jobs@[m1]).id != (#[trigger] request.jobs@[m2]).id by {
                    if m2 == k {
                        if request.jobs@[m1].id == request.jobs@[m2].id {
                            assert(request.jobs@[m1].id.value() == j + 1);
                            assert(sel_before[j as int]);
                        }
                    }
                }
                assert forall|m: int| 0 <= m < k + 1 implies {
                    let j3 = (#[trigger] request.jobs@[m]).id.value() - 1;
                    &&& 0 <= j3 < n
                    &&& rows[j3].view.state.spec_retryable()
                    &&& rows[j3].view.attempt < u32::MAX
                    &&& requests@[j3] == retried_request(rows[j3].view.request, request.jobs@[m], request.parameters)
                } by {
                    if m < k {
                        let j3 = request.jobs@[m].id.value() - 1;
                        if j3 == j {
                            assert(sel_before[j as int]);
                        }
                    }
                }
            }
            k = k + 1;
        }
        self.preparing = true;
        Ok(RetryPlan { id, revision: batch.revision, parameters: request.parameters, old: kept, selected, requests })
    }

    /// Re-builds the rows from the checked requests: selected rows run again
    /// with one more attempt, the others are kept exactly as they were. The
    /// batch keeps its identifier and moves to the next revision.
    pub fn finish_retry(&mut self, plan: RetryPlan, requests: Vec<PngRequest>, checks: Vec<PathCheck>) -> (r: Result<(), BatchError>)
        requires
            old(self).wf(),
            requests.len() == checks.len(),
            requests.len() == plan.len(),
        ensures
            final(self).wf(),
            !final(self).spec_preparing(),
            final(self).spec_closed() == old(self).spec_closed(),
            final(self).spec_faulted() == old(self).spec_faulted(),
            final(self).spec_next_id() == old(self).spec_next_id(),
            final(self).spec_config() == old(self).spec_config(),
            r is Err ==> final(self).spec_batch() == old(self).spec_batch(),
            old(self).spec_closed() ==> r is Err,
            r is Ok <==> (admissible(requests@, checks@) && !old(self).spec_closed()),
            !estimates_fit(requests@) ==> (r matches Err(e) && (e is InvalidParameters || e is InvalidConfig)),
            estimates_fit(requests@) && !admissible(requests@, checks@)
                ==> (r matches Err(BatchError::PathConflict { .. })),
            admissible(requests@, checks@) && old(self).spec_closed() ==> (r matches Err(BatchError::Closed)),
            r is Ok ==> {
                let b = final(self).spec_batch()->0;
                &&& final(self).spec_batch() is Some
                &&& b.spec_id() == plan.spec_id()
                &&& b.spec_revision() == next_revision(plan.spec_revision())
                &&& b.spec_parameters() == plan.spec_parameters()
                &&& b.rows().len() == plan.len()
                &&& forall|i: int| 0 <= i < plan.len() && !(#[trigger] plan.selected_rows()[i]) ==> b.rows()[i] == plan.old_rows()[i]
                &&& forall|i: int| 0 <= i < plan.len() && #[trigger] plan.selected_rows()[i] ==> {
                    &&& b.rows()[i].view.request == requests@[i]
                    &&& b.rows()[i].view.attempt == plan.old_rows()[i].view.attempt + 1
                }
                &&& forall|i: int| 0 <= i < plan.len() ==> (#[trigger] b.rows()[i]).view.id.value() == i + 1
            },
    {
        proof {
            use_type_invariant(&plan);
        }
        self.preparing = false;
        let budget = self.config.working_set_budget;
        let jobs = match prepare(requests, checks, budget) {
            Ok(jobs) => jobs,
            Err(e) => return Err(e),
        };
        let n = plan.old.len();
        let mut merged: Vec<Job> = Vec::new();
        let mut i: usize = 0;
        while i < n
            invariant
                n == plan.old.len(),
                n == jobs.len(),
                n == plan.selected.len(),
                n < usize::MAX,
                0 <= i <= n,
                merged.len() == i,
                forall|j: int| 0 <= j < n ==> (#[trigger] plan.old@[j]).view.state.spec_terminal(),
                forall|j: int| 0 <= j < n && #[trigger] plan.selected@[j] ==> plan.old@[j].view.attempt < u32::MAX,
                forall|j: int| #![trigger jobs@[j]] 0 <= j < n ==> {
                    &&& jobs@[j].view.id.value() == j + 1
                    &&& jobs@[j].view.request == requests@[j]
                    &&& jobs@[j].view.state == super::planning::admitted_state(checks@[j], jobs@[j].reservation, budget)
                },
                forall|j: int| 0 <= j < n ==> (#[trigger] plan.old@[j]).view.id.value() == j + 1,
                forall|j: int| #![trigger merged@[j]] 0 <= j < i ==> {
                    &&& !plan.selected@[j] ==> merged@[j] == plan.old@[j]
                    &&& plan.selected@[j] ==> merged@[j] == Job {
                        view: JobSnapshot { attempt: (plan.old@[j].view.attempt + 1) as u32, ..jobs@[j].view },
                        ..jobs@[j]
                    }
                },
            decreases n - i,
        {
            if plan.selected[i] {
                let mut job = jobs[i].clone();
                job.view.attempt = plan.old[i].view.attempt + 1;
                merged.push(job);
            } else {
                merged.push(plan.old[i].clone());
            }
            i = i + 1;
        }
        if self.closed {
            return Err(BatchError::Closed);
        }
        proof {
            assert forall|j: int| 0 <= j < merged.len() implies !(#[trigger] merged@[j].view.state is Running) by {
                if plan.selected@[j] {
                    assert(jobs@[j].view.state == super::planning::admitted_state(checks@[j], jobs@[j].reservation, budget));
                } else {
                    assert(plan.old@[j].view.state.spec_terminal());
                }
            }
            assert forall|j: int| 0 <= j < merged.len() && (#[trigger] merged@[j].view.state is Queued) implies merged@[j].reservation.0 <= budget.0 by {
                if plan.selected@[j] {
                    assert(jobs@[j].view.state == super::planning::admitted_state(checks@[j], jobs@[j].reservation, budget));
                } else {
                    assert(plan.old@[j].view.state.spec_terminal());
                }
            }
        }
        self.batch = Some(Batch::new(plan.id, bump(plan.revision), plan.parameters, merged, budget.0));
        Ok(())
    }
}

} // verus!
