//! The application's task coordinator as a state machine: one selection
//! (an import and its batch) at a time, a one-slot command queue for the
//! coordinating thread, and a revision that grows with every published
//! change. The embedding application holds a [`TaskState`] behind its lock,
//! runs the scans, plans and batch calls, and reports their results back.

use crate::batch::{BatchConfig, BatchError, BatchId, BatchParameters, BatchPhase, BatchSnapshot, RetryRequest};
use crate::import::{ImportError, ImportOutput, ImportScan, ScanOptions, ScanProgress, ScanStatus};
use crate::model::cancel::share;
use crate::model::{CancellationToken, PngMode, QualityValue};
use std::sync::Arc;
use vstd::prelude::*;

verus! {

/// Increases over the application's lifetime; after a clear or a new import
/// an old identifier can no longer act on the new selection.
#[derive(Debug, Clone, Copy, PartialEq, Eq, Structural)]
pub struct SelectionId(pub(crate) u64);

impl SelectionId {
    pub closed spec fn value(self) -> u64 {
        self.0
    }

    pub fn get(self) -> (r: u64)
        ensures
            r == self.value(),
    {
        self.0
    }

    /// Selection identifiers with the same number are the same identifier.
    pub proof fn lemma_same_value(a: SelectionId, b: SelectionId)
        requires
            a.value() == b.value(),
        ensures
            a == b,
    {
    }
}

/// The application defaults to lossy quality 80 written over the source; the
/// core request still defaults to lossless, and the two are kept apart.
#[derive(Debug)]
pub struct TaskSettings {
    pub parameters: BatchParameters,
    pub output: ImportOutput,
}

impl Clone for TaskSettings {
    fn clone(&self) -> (r: Self)
        ensures
            r == *self,
    {
        TaskSettings { parameters: self.parameters, output: self.output.clone() }
    }
}

impl Default for TaskSettings {
    fn default() -> (r: Self)
        ensures
            r.parameters.mode matches PngMode::Lossy { quality } && quality.value() == 80,
            r.parameters.limits == crate::model::ResourceLimits::spec_default(),
            r.output is Overwrite,
    {
        TaskSettings {
            parameters: BatchParameters {
                mode: PngMode::Lossy { quality: QualityValue::default() },
                limits: crate::model::ResourceLimits::default(),
            },
            output: ImportOutput::Overwrite,
        }
    }
}

/// The core's own bounds; the coordinator adds no second pool and no larger budget.
#[derive(Debug, Clone, Copy, PartialEq, Eq, Structural)]
pub struct TaskConfig {
    pub batch: BatchConfig,
    pub scan: ScanOptions,
}

impl Default for TaskConfig {
    fn default() -> (r: Self)
        ensures
            r.batch.workers == 1 && r.batch.max_jobs == 1000,
            r.scan.max_files == 1000 && r.scan.max_entries == 10_000,
    {
        TaskConfig { batch: BatchConfig::default(), scan: ScanOptions::default() }
    }
}

#[derive(Debug, Clone, Copy, PartialEq, Eq, Structural)]
pub enum TaskPhase {
    Idle,
    Scanning,
    Ready,
    Preparing,
    Running,
    Cancelling,
    Finished,
    Cancelled,
    Rejected,
    Clearing,
    Closing,
    Closed,
}

/// Errors keep their chain. Accepting a request is not the background
/// operation's success; that shows in the snapshot.
#[derive(Debug)]
pub enum TaskError {
    Busy,
    Closed,
    StaleSelection,
    StaleBatch,
    NotReady,
    TooManyRoots,
    IdExhausted,
    TimedOut,
    ServiceFault,
    WorkerPanicked,
    WorkerStart(Arc<std::io::Error>),
    Import(Arc<ImportError>),
    Batch(Arc<BatchError>),
}

impl Clone for TaskError {
    fn clone(&self) -> (r: Self)
        ensures
            r == *self,
    {
        match self {
            TaskError::Busy => TaskError::Busy,
            TaskError::Closed => TaskError::Closed,
            TaskError::StaleSelection => TaskError::StaleSelection,
            TaskError::StaleBatch => TaskError::StaleBatch,
            TaskError::NotReady => TaskError::NotReady,
            TaskError::TooManyRoots => TaskError::TooManyRoots,
            TaskError::IdExhausted => TaskError::IdExhausted,
            TaskError::TimedOut => TaskError::TimedOut,
            TaskError::ServiceFault => TaskError::ServiceFault,
            TaskError::WorkerPanicked => TaskError::WorkerPanicked,
            TaskError::WorkerStart(e) => TaskError::WorkerStart(share(e)),
            TaskError::Import(e) => TaskError::Import(share(e)),
            TaskError::Batch(e) => TaskError::Batch(share(e)),
        }
    }
}

impl TaskError {
    pub fn import(error: ImportError) -> (r: Self)
        ensures
            r == TaskError::Import(Arc::new(error)),
    {
        TaskError::Import(Arc::new(error))
    }

    pub fn batch(error: BatchError) -> (r: Self)
        ensures
            r == TaskError::Batch(Arc::new(error)),
    {
        TaskError::Batch(Arc::new(error))
    }

    /// The user-facing message of the error; it never prints a path.
    pub fn message(&self) -> (r: &'static str)
        ensures
            r == (match *self {
                    TaskError::Busy => "已有导入、待修正清单或批次，不能重复接纳",
                    TaskError::Closed => "应用任务服务正在关闭或已关闭",
                    TaskError::StaleSelection => "导入标识已失效",
                    TaskError::StaleBatch => "批次版本已变化，请读取新快照",
                    TaskError::NotReady => "当前状态不允许该操作",
                    TaskError::TooManyRoots => "显式导入根超过1000上限",
                    TaskError::IdExhausted => "导入标识已耗尽",
                    TaskError::TimedOut => "等待变化超时，不代表后台计算停止",
                    TaskError::ServiceFault => "应用任务状态锁异常，已停止接纳",
                    TaskError::WorkerPanicked => "后台协调异常，已取消并等待收尾",
                    TaskError::WorkerStart(_) => "无法创建应用协调线程",
                    TaskError::Import(_) => "导入或输出规划失败，请检查反馈",
                    TaskError::Batch(_) => "批次操作失败，请检查反馈",
                }),
    {
        match self {
            TaskError::Busy => "已有导入、待修正清单或批次，不能重复接纳",
            TaskError::Closed => "应用任务服务正在关闭或已关闭",
            TaskError::StaleSelection => "导入标识已失效",
            TaskError::StaleBatch => "批次版本已变化，请读取新快照",
            TaskError::NotReady => "当前状态不允许该操作",
            TaskError::TooManyRoots => "显式导入根超过1000上限",
            TaskError::IdExhausted => "导入标识已耗尽",
            TaskError::TimedOut => "等待变化超时，不代表后台计算停止",
            TaskError::ServiceFault => "应用任务状态锁异常，已停止接纳",
            TaskError::WorkerPanicked => "后台协调异常，已取消并等待收尾",
            TaskError::WorkerStart(_) => "无法创建应用协调线程",
            TaskError::Import(_) => "导入或输出规划失败，请检查反馈",
            TaskError::Batch(_) => "批次操作失败，请检查反馈",
        }
    }
}

/// The latest authoritative view. The shared scan and batch hold no file
/// handles; the revision spans the whole session.
#[derive(Debug)]
pub struct TaskSnapshot {
    pub revision: u64,
    pub selection: Option<SelectionId>,
    pub phase: TaskPhase,
    pub scan_progress: Option<ScanProgress>,
    pub import: Option<Arc<ImportScan>>,
    pub batch: Option<Arc<BatchSnapshot>>,
    pub error: Option<TaskError>,
}

impl Clone for TaskSnapshot {
    fn clone(&self) -> (r: Self)
        ensures
            r == *self,
    {
        TaskSnapshot {
            revision: self.revision,
            selection: self.selection,
            phase: self.phase,
            scan_progress: self.scan_progress,
            import: match &self.import {
                Some(scan) => Some(share(scan)),
                None => None,
            },
            batch: match &self.batch {
                Some(batch) => Some(share(batch)),
                None => None,
            },
            error: match &self.error {
                Some(e) => Some(e.clone()),
                None => None,
            },
        }
    }
}

/// The one pending command of the coordinating thread.
#[derive(Debug)]
pub enum Command {
    Import { roots: Vec<String>, settings: Option<TaskSettings> },
    Start { scan: Arc<ImportScan>, settings: TaskSettings },
    Retry(RetryRequest),
    Clear,
}

/// What the coordinating thread does next.
#[derive(Debug)]
pub enum Step {
    /// Closing: leave the loop.
    Exit,
    /// Run this command with the cancellation token of its request.
    Run(Command, CancellationToken),
    /// A batch is active: refresh it, cancelling it first when asked.
    Sample { cancel_batch: bool },
    /// Nothing to do: wait for a change.
    Idle,
}

/// Phases in which a new import may be accepted.
pub open spec fn accepts_import(phase: TaskPhase) -> bool {
    phase == TaskPhase::Idle || phase == TaskPhase::Finished || phase == TaskPhase::Cancelled
        || phase == TaskPhase::Rejected
}

/// The coordinator's state: the published view and what only it knows.
#[derive(Debug)]
pub struct TaskState {
    view: TaskSnapshot,
    next_id: u64,
    pending: Option<Command>,
    bound_batch: Option<BatchId>,
    cancel: CancellationToken,
    cancel_requested: bool,
    closing: bool,
    faulted: bool,
}

impl TaskState {
    pub closed spec fn spec_view(self) -> TaskSnapshot {
        self.view
    }

    pub closed spec fn spec_next_id(self) -> u64 {
        self.next_id
    }

    pub closed spec fn spec_pending(self) -> Option<Command> {
        self.pending
    }

    pub closed spec fn spec_bound(self) -> Option<BatchId> {
        self.bound_batch
    }

    pub closed spec fn spec_cancel_requested(self) -> bool {
        self.cancel_requested
    }

    pub closed spec fn spec_closing(self) -> bool {
        self.closing
    }

    pub closed spec fn spec_faulted(self) -> bool {
        self.faulted
    }

    /// A fault always closes, and a live selection is older than the next identifier.
    pub closed spec fn wf(self) -> bool {
        &&& self.faulted ==> self.closing
        &&& self.next_id >= 1
        &&& (self.view.selection matches Some(s) ==> s.value() < self.next_id)
    }

    /// An idle coordinator: revision 0, no selection, identifiers from 1.
    pub fn new() -> (r: Self)
        ensures
            r.wf(),
            r.spec_view().revision == 0,
            r.spec_view().phase == TaskPhase::Idle,
            r.spec_view().selection is None,
            r.spec_next_id() == 1,
            r.spec_pending() is None,
            !r.spec_closing() && !r.spec_faulted(),
    {
        TaskState {
            view: TaskSnapshot {
                revision: 0,
                selection: None,
                phase: TaskPhase::Idle,
                scan_progress: None,
                import: None,
                batch: None,
                error: None,
            },
            next_id: 1,
            pending: None,
            bound_batch: None,
            cancel: CancellationToken::new(),
            cancel_requested: false,
            closing: false,
            faulted: false,
        }
    }

    fn available(&self) -> (r: Result<(), TaskError>)
        ensures
            self.faulted ==> r matches Err(TaskError::ServiceFault),
            !self.faulted && self.closing ==> r matches Err(TaskError::Closed),
            !self.faulted && !self.closing ==> r is Ok,
    {
        if self.faulted {
            Err(TaskError::ServiceFault)
        } else if self.closing {
            Err(TaskError::Closed)
        } else {
            Ok(())
        }
    }

    fn selection(&self, id: SelectionId) -> (r: Result<(), TaskError>)
        ensures
            self.faulted ==> r matches Err(TaskError::ServiceFault),
            !self.faulted && self.closing ==> r matches Err(TaskError::Closed),
            !self.faulted && !self.closing && self.view.selection != Some(id) ==> r matches Err(TaskError::StaleSelection),
            r is Ok <==> !self.faulted && !self.closing && self.view.selection == Some(id),
    {
        match self.available() {
            Ok(()) => {},
            Err(e) => return Err(e),
        }
        match self.view.selection {
            Some(current) => {
                if current == id {
                    Ok(())
                } else {
                    Err(TaskError::StaleSelection)
                }
            },
            None => Err(TaskError::StaleSelection),
        }
    }

    fn request_cancel(&mut self)
        ensures
            final(self).cancel_requested,
            final(self).view == old(self).view,
            final(self).next_id == old(self).next_id,
            final(self).closing == old(self).closing,
            final(self).faulted == old(self).faulted,
            final(self).bound_batch == old(self).bound_batch,
            final(self).pending == old(self).pending,
    {
        self.cancel.cancel();
        self.cancel_requested = true;
    }

    fn fresh_cancel(&mut self)
        ensures
            !final(self).cancel_requested,
            final(self).view == old(self).view,
            final(self).next_id == old(self).next_id,
            final(self).closing == old(self).closing,
            final(self).faulted == old(self).faulted,
            final(self).bound_batch == old(self).bound_batch,
            final(self).pending == old(self).pending,
    {
        self.cancel = CancellationToken::new();
        self.cancel_requested = false;
    }

    /// Stops accepting and cancels cooperatively; the view shows closing
    /// until the coordinator has finished.
    fn close(&mut self)
        requires
            old(self).wf(),
        ensures
            final(self).wf(),
            final(self).closing,
            final(self).cancel_requested,
            final(self).faulted == old(self).faulted,
            final(self).view.phase == (if old(self).view.phase == TaskPhase::Closed { TaskPhase::Closed } else { TaskPhase::Closing }),
            final(self).view.revision == old(self).view.revision,
            final(self).view.selection == old(self).view.selection,
            final(self).next_id == old(self).next_id,
            final(self).pending == old(self).pending,
            final(self).bound_batch == old(self).bound_batch,
            final(self).view.error == old(self).view.error,
            final(self).view.batch == old(self).view.batch,
            final(self).view.import == old(self).view.import,
            final(self).view.scan_progress == old(self).view.scan_progress,
    {
        self.closing = true;
        self.request_cancel();
        if self.view.phase != TaskPhase::Closed {
            self.view.phase = TaskPhase::Closing;
        }
    }

    /// A broken lock or an exhausted revision: close for good and say why.
    pub fn fault(&mut self)
        requires
            old(self).wf(),
        ensures
            final(self).wf(),
            final(self).spec_faulted(),
            final(self).spec_closing(),
            final(self).spec_view().error == Some(TaskError::ServiceFault),
            final(self).spec_view().revision == old(self).spec_view().revision,
            final(self).spec_view().selection == old(self).spec_view().selection,
            final(self).spec_view().batch == old(self).spec_view().batch,
            final(self).spec_view().import == old(self).spec_view().import,
            final(self).spec_view().scan_progress == old(self).spec_view().scan_progress,
            final(self).spec_cancel_requested(),
            final(self).spec_next_id() == old(self).spec_next_id(),
            final(self).spec_pending() == old(self).spec_pending(),
            final(self).spec_bound() == old(self).spec_bound(),
    {
        self.close();
        self.faulted = true;
        self.view.error = Some(TaskError::ServiceFault);
    }

    /// Makes a change visible: the revision grows by one; a revision that
    /// would wrap faults the coordinator instead.
    pub fn publish(&mut self)
        requires
            old(self).wf(),
        ensures
            final(self).wf(),
            old(self).spec_view().revision < u64::MAX ==> final(self).spec_view() == (TaskSnapshot {
                revision: (old(self).spec_view().revision + 1) as u64,
                ..old(self).spec_view()
            }) && final(self).spec_faulted() == old(self).spec_faulted()
                && final(self).spec_closing() == old(self).spec_closing(),
            old(self).spec_view().revision == u64::MAX ==> final(self).spec_faulted(),
            final(self).spec_next_id() == old(self).spec_next_id(),
            final(self).spec_pending() == old(self).spec_pending(),
            final(self).spec_bound() == old(self).spec_bound(),
            final(self).spec_view().selection == old(self).spec_view().selection,
            final(self).spec_view().batch == old(self).spec_view().batch,
            final(self).spec_view().import == old(self).spec_view().import,
            final(self).spec_view().scan_progress == old(self).spec_view().scan_progress,
            final(self).spec_view().revision >= old(self).spec_view().revision,
            final(self).spec_cancel_requested() == (old(self).spec_cancel_requested() || old(self).spec_view().revision == u64::MAX),
    {
        match self.view.revision.checked_add(1) {
            Some(next) => {
                self.view.revision = next;
            },
            None => {
                self.fault();
            },
        }
    }

    /// Accepts an import: a new selection identifier, a fresh cancellation,
    /// an empty view in the scanning phase, and the scan queued for the
    /// coordinator. With settings, a complete scan starts its batch at once.
    pub fn import(&mut self, roots: Vec<String>, settings: Option<TaskSettings>) -> (r: Result<SelectionId, TaskError>)
        requires
            old(self).wf(),
        ensures
            final(self).wf(),
            roots.len() > ScanOptions::MAX_ROOTS ==> r matches Err(TaskError::TooManyRoots),
            roots.len() <= ScanOptions::MAX_ROOTS && old(self).spec_faulted() ==> r matches Err(TaskError::ServiceFault),
            roots.len() <= ScanOptions::MAX_ROOTS && !old(self).spec_faulted() && old(self).spec_closing()
                ==> r matches Err(TaskError::Closed),
            roots.len() <= ScanOptions::MAX_ROOTS && !old(self).spec_faulted() && !old(self).spec_closing()
                && !accepts_import(old(self).spec_view().phase) ==> r matches Err(TaskError::Busy),
            roots.len() <= ScanOptions::MAX_ROOTS && !old(self).spec_faulted() && !old(self).spec_closing()
                && accepts_import(old(self).spec_view().phase) && old(self).spec_next_id() == u64::MAX
                ==> r matches Err(TaskError::IdExhausted),
            r is Err ==> *final(self) == *old(self),
            r is Ok <==> (roots.len() <= ScanOptions::MAX_ROOTS && !old(self).spec_faulted() && !old(self).spec_closing()
                && accepts_import(old(self).spec_view().phase) && old(self).spec_next_id() < u64::MAX),
            r matches Ok(id) ==> {
                &&& id.value() == old(self).spec_next_id()
                &&& final(self).spec_next_id() == old(self).spec_next_id() + 1
                &&& final(self).spec_view().selection == Some(id)
                &&& final(self).spec_view().import is None && final(self).spec_view().batch is None
                &&& final(self).spec_view().scan_progress is None
                &&& final(self).spec_bound() is None
                &&& (old(self).spec_view().revision < u64::MAX ==> final(self).spec_view().error is None
                    && !final(self).spec_cancel_requested())
                &&& final(self).spec_pending() == Some(Command::Import { roots, settings })
                &&& (old(self).spec_view().revision < u64::MAX ==> final(self).spec_view().phase == TaskPhase::Scanning
                    && final(self).spec_view().revision == old(self).spec_view().revision + 1)
            },
    {
        if roots.len() > ScanOptions::MAX_ROOTS {
            return Err(TaskError::TooManyRoots);
        }
        match self.available() {
            Ok(()) => {},
            Err(e) => return Err(e),
        }
        if !matches!(self.view.phase, TaskPhase::Idle | TaskPhase::Finished | TaskPhase::Cancelled | TaskPhase::Rejected) {
            return Err(TaskError::Busy);
        }
        let id = SelectionId(self.next_id);
        self.next_id = match self.next_id.checked_add(1) {
            Some(n) => n,
            None => return Err(TaskError::IdExhausted),
        };
        self.fresh_cancel();
        self.view.selection = Some(id);
        self.view.phase = TaskPhase::Scanning;
        self.view.import = None;
        self.view.scan_progress = None;
        self.view.batch = None;
        self.bound_batch = None;
        self.view.error = None;
        self.pending = Some(Command::Import { roots, settings });
        self.publish();
        Ok(id)
    }

    /// Fixes new settings on the same complete scan; only a ready selection starts, once.
    pub fn start(&mut self, id: SelectionId, settings: TaskSettings) -> (r: Result<(), TaskError>)
        requires
            old(self).wf(),
        ensures
            final(self).wf(),
            r is Err ==> *final(self) == *old(self),
            r is Ok <==> (!old(self).spec_faulted() && !old(self).spec_closing() && old(self).spec_view().selection == Some(id)
                && old(self).spec_view().phase == TaskPhase::Ready && old(self).spec_view().import is Some),
            old(self).spec_faulted() ==> r matches Err(TaskError::ServiceFault),
            !old(self).spec_faulted() && old(self).spec_closing() ==> r matches Err(TaskError::Closed),
            !old(self).spec_faulted() && !old(self).spec_closing() && old(self).spec_view().selection != Some(id)
                ==> r matches Err(TaskError::StaleSelection),
            !old(self).spec_faulted() && !old(self).spec_closing() && old(self).spec_view().selection == Some(id)
                && !(old(self).spec_view().phase == TaskPhase::Ready && old(self).spec_view().import is Some)
                ==> r matches Err(TaskError::NotReady),
            r is Ok ==> final(self).spec_pending() == Some(Command::Start { scan: old(self).spec_view().import->0, settings })
                && (old(self).spec_view().revision < u64::MAX ==> final(self).spec_view().phase == TaskPhase::Preparing
                    && !final(self).spec_cancel_requested()),
    {
        match self.selection(id) {
            Ok(()) => {},
            Err(e) => return Err(e),
        }
        if self.view.phase != TaskPhase::Ready {
            return Err(TaskError::NotReady);
        }
        let scan = match &self.view.import {
            Some(scan) => share(scan),
            None => return Err(TaskError::NotReady),
        };
        self.fresh_cancel();
        self.view.phase = TaskPhase::Preparing;
        self.view.error = None;
        self.pending = Some(Command::Start { scan, settings });
        self.publish();
        Ok(())
    }

    /// An explicit retry of a finished batch; the expected revision comes from
    /// the latest batch snapshot, so an old request cannot retry twice.
    pub fn retry(&mut self, id: SelectionId, expected_revision: u64, request: RetryRequest) -> (r: Result<(), TaskError>)
        requires
            old(self).wf(),
        ensures
            final(self).wf(),
            r is Err ==> *final(self) == *old(self),
            r is Ok <==> (!old(self).spec_faulted() && !old(self).spec_closing() && old(self).spec_view().selection == Some(id)
                && old(self).spec_view().phase == TaskPhase::Finished
                && (old(self).spec_view().batch matches Some(b) && b.revision == expected_revision)),
            !old(self).spec_faulted() && !old(self).spec_closing() && old(self).spec_view().selection == Some(id)
                && old(self).spec_view().phase == TaskPhase::Finished
                && !(old(self).spec_view().batch matches Some(b) && b.revision == expected_revision)
                ==> r matches Err(TaskError::StaleBatch),
            old(self).spec_faulted() ==> r matches Err(TaskError::ServiceFault),
            !old(self).spec_faulted() && old(self).spec_closing() ==> r matches Err(TaskError::Closed),
            !old(self).spec_faulted() && !old(self).spec_closing() && old(self).spec_view().selection != Some(id)
                ==> r matches Err(TaskError::StaleSelection),
            !old(self).spec_faulted() && !old(self).spec_closing() && old(self).spec_view().selection == Some(id)
                && old(self).spec_view().phase != TaskPhase::Finished ==> r matches Err(TaskError::NotReady),
            r is Ok ==> final(self).spec_pending() == Some(Command::Retry(request))
                && (old(self).spec_view().revision < u64::MAX ==> final(self).spec_view().phase == TaskPhase::Preparing),
    {
        match self.selection(id) {
            Ok(()) => {},
            Err(e) => return Err(e),
        }
        if self.view.phase != TaskPhase::Finished {
            return Err(TaskError::NotReady);
        }
        let current = match &self.view.batch {
            Some(b) => b.revision == expected_revision,
            None => false,
        };
        if !current {
            return Err(TaskError::StaleBatch);
        }
        self.fresh_cancel();
        self.view.phase = TaskPhase::Preparing;
        self.view.error = None;
        self.pending = Some(Command::Retry(request));
        self.publish();
        Ok(())
    }

    /// Requests cancellation. Work in progress shows cancelling until it
    /// returns; a ready selection becomes cancelled and never starts; a
    /// finished selection is left as it is.
    pub fn cancel(&mut self, id: SelectionId) -> (r: Result<(), TaskError>)
        requires
            old(self).wf(),
        ensures
            final(self).wf(),
            r is Err ==> *final(self) == *old(self),
            old(self).spec_view().revision < u64::MAX ==> final(self).spec_faulted() == old(self).spec_faulted()
                && final(self).spec_closing() == old(self).spec_closing(),
            final(self).spec_next_id() == old(self).spec_next_id(),
            final(self).spec_pending() == old(self).spec_pending(),
            final(self).spec_bound() == old(self).spec_bound(),
            old(self).spec_view().phase == TaskPhase::Clearing && !old(self).spec_faulted() && !old(self).spec_closing()
                && old(self).spec_view().selection == Some(id) ==> r matches Err(TaskError::Busy),
            old(self).spec_faulted() ==> r matches Err(TaskError::ServiceFault),
            !old(self).spec_faulted() && old(self).spec_closing() ==> r matches Err(TaskError::Closed),
            !old(self).spec_faulted() && !old(self).spec_closing() && old(self).spec_view().selection != Some(id)
                ==> r matches Err(TaskError::StaleSelection),
            r is Ok <==> (!old(self).spec_faulted() && !old(self).spec_closing() && old(self).spec_view().selection == Some(id)
                && old(self).spec_view().phase != TaskPhase::Clearing),
            r is Ok && old(self).spec_view().revision < u64::MAX ==> ({
                let before = old(self).spec_view();
                &&& (before.phase == TaskPhase::Scanning || before.phase == TaskPhase::Preparing || before.phase == TaskPhase::Running)
                    ==> final(self).spec_view() == (TaskSnapshot {
                        phase: TaskPhase::Cancelling,
                        revision: (before.revision + 1) as u64,
                        ..before
                    })
                &&& before.phase == TaskPhase::Ready ==> final(self).spec_view() == (TaskSnapshot {
                        phase: TaskPhase::Cancelled,
                        revision: (before.revision + 1) as u64,
                        ..before
                    })
            }),
            r is Ok ==> {
                let before = old(self).spec_view().phase;
                &&& (before == TaskPhase::Scanning || before == TaskPhase::Preparing || before == TaskPhase::Running)
                    ==> final(self).spec_cancel_requested() && (old(self).spec_view().revision < u64::MAX
                        ==> final(self).spec_view().phase == TaskPhase::Cancelling)
                &&& before == TaskPhase::Ready ==> final(self).spec_cancel_requested()
                    && (old(self).spec_view().revision < u64::MAX ==> final(self).spec_view().phase == TaskPhase::Cancelled)
                &&& !(before == TaskPhase::Scanning || before == TaskPhase::Preparing || before == TaskPhase::Running
                    || before == TaskPhase::Ready) ==> final(self).spec_view() == old(self).spec_view()
            },
    {
        match self.selection(id) {
            Ok(()) => {},
            Err(e) => return Err(e),
        }
        match self.view.phase {
            TaskPhase::Scanning | TaskPhase::Preparing | TaskPhase::Running => {
                self.request_cancel();
                self.view.phase = TaskPhase::Cancelling;
            },
            TaskPhase::Ready => {
                self.request_cancel();
                self.view.phase = TaskPhase::Cancelled;
            },
            TaskPhase::Clearing => {
                return Err(TaskError::Busy);
            },
            _ => {
                return Ok(());
            },
        }
        self.publish();
        Ok(())
    }

    /// Clears an inactive selection; outputs and backups stay. The previous
    /// view is returned so its recovery information survives.
    pub fn clear(&mut self, id: SelectionId) -> (r: Result<TaskSnapshot, TaskError>)
        requires
            old(self).wf(),
        ensures
            final(self).wf(),
            r is Err ==> *final(self) == *old(self),
            r is Ok <==> (!old(self).spec_faulted() && !old(self).spec_closing() && old(self).spec_view().selection == Some(id)
                && (old(self).spec_view().phase == TaskPhase::Ready || old(self).spec_view().phase == TaskPhase::Finished
                    || old(self).spec_view().phase == TaskPhase::Cancelled || old(self).spec_view().phase == TaskPhase::Rejected)),
            old(self).spec_faulted() ==> r matches Err(TaskError::ServiceFault),
            !old(self).spec_faulted() && old(self).spec_closing() ==> r matches Err(TaskError::Closed),
            !old(self).spec_faulted() && !old(self).spec_closing() && old(self).spec_view().selection != Some(id)
                ==> r matches Err(TaskError::StaleSelection),
            !old(self).spec_faulted() && !old(self).spec_closing() && old(self).spec_view().selection == Some(id)
                && !(old(self).spec_view().phase == TaskPhase::Ready || old(self).spec_view().phase == TaskPhase::Finished
                    || old(self).spec_view().phase == TaskPhase::Cancelled || old(self).spec_view().phase == TaskPhase::Rejected)
                ==> r matches Err(TaskError::Busy),
            r matches Ok(previous) ==> previous == old(self).spec_view() && (final(self).spec_pending() matches Some(Command::Clear))
                && (old(self).spec_view().revision < u64::MAX ==> final(self).spec_view().phase == TaskPhase::Clearing),
    {
        match self.selection(id) {
            Ok(()) => {},
            Err(e) => return Err(e),
        }
        if !matches!(self.view.phase, TaskPhase::Ready | TaskPhase::Finished | TaskPhase::Cancelled | TaskPhase::Rejected) {
            return Err(TaskError::Busy);
        }
        let previous = self.view.clone();
        self.view.phase = TaskPhase::Clearing;
        self.pending = Some(Command::Clear);
        self.publish();
        Ok(previous)
    }

    /// The current view; it does no I/O.
    pub fn snapshot(&self) -> (r: TaskSnapshot)
        ensures
            r == self.spec_view(),
    {
        self.view.clone()
    }

    /// A view newer than `after`, or the closed view; `None` means keep waiting.
    pub fn changed_since(&self, after: u64) -> (r: Option<TaskSnapshot>)
        ensures
            r is Some <==> (self.spec_view().revision > after || self.spec_view().phase == TaskPhase::Closed),
            r matches Some(v) ==> v == self.spec_view(),
    {
        if self.view.revision > after || self.view.phase == TaskPhase::Closed {
            Some(self.view.clone())
        } else {
            None
        }
    }

    /// Stops accepting and cancels; asking again changes nothing.
    pub fn request_close(&mut self)
        requires
            old(self).wf(),
        ensures
            final(self).wf(),
            final(self).spec_closing(),
            old(self).spec_closing() ==> *final(self) == *old(self),
            !old(self).spec_closing() ==> final(self).spec_cancel_requested(),
            old(self).spec_view().revision < u64::MAX ==> final(self).spec_faulted() == old(self).spec_faulted(),
            !old(self).spec_closing() && old(self).spec_view().revision < u64::MAX ==> final(self).spec_view() == (TaskSnapshot {
                phase: if old(self).spec_view().phase == TaskPhase::Closed { TaskPhase::Closed } else { TaskPhase::Closing },
                revision: (old(self).spec_view().revision + 1) as u64,
                ..old(self).spec_view()
            }),
            final(self).spec_next_id() == old(self).spec_next_id(),
            final(self).spec_pending() == old(self).spec_pending(),
            final(self).spec_bound() == old(self).spec_bound(),
    {
        if !self.closing {
            self.close();
            self.publish();
        }
    }

    /// The coordinator's next step: leave when closing, run the pending
    /// command, refresh an active batch, or wait.
    pub fn next_step(&mut self) -> (r: Step)
        requires
            old(self).wf(),
        ensures
            final(self).wf(),
            final(self).spec_view() == old(self).spec_view(),
            old(self).spec_closing() ==> r is Exit,
            !old(self).spec_closing() && old(self).spec_pending() is Some ==> (r matches Step::Run(c, _)
                && Some(c) == old(self).spec_pending() && final(self).spec_pending() is None),
            !old(self).spec_closing() && old(self).spec_pending() is None ==> final(self).spec_pending() is None
                && ((old(self).spec_view().phase == TaskPhase::Running || old(self).spec_view().phase == TaskPhase::Cancelling)
                    ==> r == (Step::Sample { cancel_batch: old(self).spec_cancel_requested() }))
                && (!(old(self).spec_view().phase == TaskPhase::Running || old(self).spec_view().phase == TaskPhase::Cancelling)
                    ==> r is Idle),
    {
        if self.closing {
            return Step::Exit;
        }
        match self.pending.take() {
            Some(command) => Step::Run(command, self.cancel.clone()),
            None => {
                if matches!(self.view.phase, TaskPhase::Running | TaskPhase::Cancelling) {
                    Step::Sample { cancel_batch: self.cancel_requested }
                } else {
                    Step::Idle
                }
            },
        }
    }

    /// Selection identifiers are never reused: the live selection's number
    /// is below the one the next import is given, so after a clear or a new
    /// import an old identifier cannot name the new selection.
    pub proof fn lemma_selection_ids_fresh(self, old_id: SelectionId)
        requires
            self.wf(),
            self.spec_view().selection == Some(old_id),
        ensures
            old_id.value() < self.spec_next_id(),
    {
    }

    /// Whether the coordinator has something to do without waiting: a
    /// command to run or a close to act on.
    pub fn has_work(&self) -> (r: bool)
        ensures
            r == (self.spec_pending() is Some || self.spec_closing()),
    {
        self.pending.is_some() || self.closing
    }

    /// Publishes scan progress as it arrives.
    pub fn scan_progress(&mut self, progress: ScanProgress)
        requires
            old(self).wf(),
        ensures
            final(self).wf(),
            old(self).spec_view().revision < u64::MAX ==> final(self).spec_view() == (TaskSnapshot {
                scan_progress: Some(progress),
                revision: (old(self).spec_view().revision + 1) as u64,
                ..old(self).spec_view()
            }),
            old(self).spec_view().revision < u64::MAX ==> final(self).spec_faulted() == old(self).spec_faulted()
                && final(self).spec_closing() == old(self).spec_closing(),
            final(self).spec_next_id() == old(self).spec_next_id(),
            final(self).spec_pending() == old(self).spec_pending(),
            final(self).spec_bound() == old(self).spec_bound(),
            final(self).spec_cancel_requested() == (old(self).spec_cancel_requested() || old(self).spec_view().revision == u64::MAX),
    {
        self.view.scan_progress = Some(progress);
        self.publish();
    }

    /// A failed scan: cancelled when asked to, otherwise rejected.
    pub fn scan_failed(&mut self, error: ImportError)
        requires
            old(self).wf(),
        ensures
            final(self).wf(),
            old(self).spec_view().revision < u64::MAX && !old(self).spec_closing() ==> final(self).spec_view().phase == (if old(self).spec_cancel_requested() {
                TaskPhase::Cancelled
            } else {
                TaskPhase::Rejected
            }) && final(self).spec_view().error == Some(TaskError::Import(Arc::new(error))),
            old(self).spec_view().revision < u64::MAX ==> final(self).spec_view() == (TaskSnapshot {
                phase: if old(self).spec_closing() {
                    old(self).spec_view().phase
                } else if old(self).spec_cancel_requested() {
                    TaskPhase::Cancelled
                } else {
                    TaskPhase::Rejected
                },
                error: Some(TaskError::Import(Arc::new(error))),
                revision: (old(self).spec_view().revision + 1) as u64,
                ..old(self).spec_view()
            }),
            old(self).spec_view().revision < u64::MAX ==> final(self).spec_faulted() == old(self).spec_faulted()
                && final(self).spec_closing() == old(self).spec_closing(),
            final(self).spec_next_id() == old(self).spec_next_id(),
            final(self).spec_pending() == old(self).spec_pending(),
            final(self).spec_bound() == old(self).spec_bound(),
    {
        self.view.error = Some(TaskError::import(error));
        if !self.closing {
            self.view.phase = if self.cancel_requested { TaskPhase::Cancelled } else { TaskPhase::Rejected };
        }
        self.publish();
    }

    /// A finished scan. A complete scan with candidates is ready, or, with
    /// settings given at import, preparing its batch without showing a ready
    /// moment; an empty or incomplete one is rejected with the reason, and a
    /// cancelled one is cancelled. Returns whether the batch starts now.
    pub fn scan_finished(&mut self, scan: ImportScan, auto_start: bool) -> (start: bool)
        requires
            old(self).wf(),
        ensures
            final(self).wf(),
            final(self).spec_view().batch == old(self).spec_view().batch,
            final(self).spec_view().selection == old(self).spec_view().selection,
            final(self).spec_bound() == old(self).spec_bound(),
            final(self).spec_pending() == old(self).spec_pending(),
            ({
                let p = scan.spec_progress();
                let ready = p.status is Complete && scan.spec_files().len() > 0;
                &&& start == (ready && auto_start && !old(self).spec_cancel_requested() && !old(self).spec_closing())
                &&& old(self).spec_view().revision < u64::MAX && !old(self).spec_closing() ==> final(self).spec_view().phase == (
                    if old(self).spec_cancel_requested() || p.status is Cancelled {
                        TaskPhase::Cancelled
                    } else if !ready {
                        TaskPhase::Rejected
                    } else if start {
                        TaskPhase::Preparing
                    } else {
                        TaskPhase::Ready
                    })
                &&& old(self).spec_view().revision < u64::MAX ==> final(self).spec_view().scan_progress == Some(p)
                    && final(self).spec_view().import == Some(Arc::new(scan))
                &&& old(self).spec_view().revision < u64::MAX && !ready ==> (final(self).spec_view().error matches Some(TaskError::Import(e))
                    && (if p.status is Complete { *e is NoFiles } else { *e is IncompleteScan }))
            }),
    {
        let progress = scan.progress();
        let ready = matches!(progress.status, ScanStatus::Complete) && scan.files().len() > 0;
        let start = ready && auto_start && !self.cancel_requested && !self.closing;
        self.view.scan_progress = Some(progress);
        self.view.import = Some(Arc::new(scan));
        if !self.closing {
            self.view.phase = if self.cancel_requested || matches!(progress.status, ScanStatus::Cancelled) {
                TaskPhase::Cancelled
            } else if !ready {
                TaskPhase::Rejected
            } else if start {
                TaskPhase::Preparing
            } else {
                TaskPhase::Ready
            };
        }
        if !ready {
            let reason = if matches!(progress.status, ScanStatus::Complete) {
                ImportError::NoFiles
            } else {
                ImportError::IncompleteScan
            };
            self.view.error = Some(TaskError::import(reason));
        }
        self.publish();
        start
    }

    /// Whether a start must give up before planning: the request was cancelled.
    pub fn start_cancelled(&self) -> (r: bool)
        ensures
            r == self.spec_cancel_requested(),
    {
        self.cancel_requested
    }

    /// Binds the batch a start or retry created, so only its snapshots are published.
    pub fn bind(&mut self, id: BatchId)
        requires
            old(self).wf(),
        ensures
            final(self).wf(),
            final(self).spec_bound() == Some(id),
            final(self).spec_view() == old(self).spec_view(),
            final(self).spec_next_id() == old(self).spec_next_id(),
            final(self).spec_pending() == old(self).spec_pending(),
            final(self).spec_faulted() == old(self).spec_faulted(),
            final(self).spec_closing() == old(self).spec_closing(),
            final(self).spec_cancel_requested() == old(self).spec_cancel_requested(),
    {
        self.bound_batch = Some(id);
    }

    /// A start that failed before its batch ran. The service closing or
    /// breaking ends the coordinator (returned as the error); otherwise the
    /// scan stays ready for corrected settings, or cancelled when asked.
    pub fn start_failed(&mut self, error: TaskError) -> (r: Result<(), TaskError>)
        requires
            old(self).wf(),
        ensures
            final(self).wf(),
            (error matches TaskError::Batch(e) && (*e is Closed || *e is ServiceFault)) ==> r == Err::<(), TaskError>(error)
                && *final(self) == *old(self),
            !(error matches TaskError::Batch(e) && (*e is Closed || *e is ServiceFault)) ==> r is Ok
                && (old(self).spec_view().revision < u64::MAX ==> final(self).spec_view().error == Some(error)
                    && (!old(self).spec_closing() ==> final(self).spec_view().phase == (if old(self).spec_cancel_requested() {
                        TaskPhase::Cancelled
                    } else {
                        TaskPhase::Ready
                    }))),
            !(error matches TaskError::Batch(e) && (*e is Closed || *e is ServiceFault))
                && old(self).spec_view().revision < u64::MAX ==> final(self).spec_view() == (TaskSnapshot {
                    phase: if old(self).spec_closing() {
                        old(self).spec_view().phase
                    } else if old(self).spec_cancel_requested() {
                        TaskPhase::Cancelled
                    } else {
                        TaskPhase::Ready
                    },
                    error: Some(error),
                    revision: (old(self).spec_view().revision + 1) as u64,
                    ..old(self).spec_view()
                }) && final(self).spec_faulted() == old(self).spec_faulted()
                && final(self).spec_closing() == old(self).spec_closing(),
            final(self).spec_next_id() == old(self).spec_next_id(),
            final(self).spec_pending() == old(self).spec_pending(),
            final(self).spec_bound() == old(self).spec_bound(),
    {
        let fatal = match &error {
            TaskError::Batch(e) => matches!(**e, BatchError::Closed | BatchError::ServiceFault),
            _ => false,
        };
        if fatal {
            return Err(error);
        }
        if !self.closing {
            self.view.phase = if self.cancel_requested { TaskPhase::Cancelled } else { TaskPhase::Ready };
        }
        self.view.error = Some(error);
        self.publish();
        Ok(())
    }

    /// A retry the core refused: the batch and its attempts stay, the error shows.
    pub fn retry_failed(&mut self, error: BatchError)
        requires
            old(self).wf(),
        ensures
            final(self).wf(),
            old(self).spec_view().revision < u64::MAX ==> final(self).spec_view() == (TaskSnapshot {
                error: Some(TaskError::Batch(Arc::new(error))),
                revision: (old(self).spec_view().revision + 1) as u64,
                ..old(self).spec_view()
            }),
            old(self).spec_view().revision < u64::MAX ==> final(self).spec_faulted() == old(self).spec_faulted()
                && final(self).spec_closing() == old(self).spec_closing(),
            final(self).spec_next_id() == old(self).spec_next_id(),
            final(self).spec_pending() == old(self).spec_pending(),
            final(self).spec_bound() == old(self).spec_bound(),
    {
        self.view.error = Some(TaskError::batch(error));
        self.publish();
    }

    /// Publishes the bound batch's snapshot: finished when the batch is,
    /// cancelling when asked, running otherwise. A snapshot of another batch
    /// is ignored; an unchanged one is not published again.
    pub fn batch_changed(&mut self, batch: BatchSnapshot)
        requires
            old(self).wf(),
        ensures
            final(self).wf(),
            old(self).spec_bound() != Some(batch.id) ==> *final(self) == *old(self),
            old(self).spec_bound() == Some(batch.id) ==> {
                let phase = if batch.phase == BatchPhase::Finished {
                    TaskPhase::Finished
                } else if old(self).spec_cancel_requested() {
                    TaskPhase::Cancelling
                } else {
                    TaskPhase::Running
                };
                &&& final(self).spec_view().batch == Some(Arc::new(batch))
                &&& (!old(self).spec_closing() && old(self).spec_view().revision < u64::MAX ==> final(self).spec_view().phase == phase)
                &&& final(self).spec_view().revision >= old(self).spec_view().revision
            },
    {
        if self.bound_batch != Some(batch.id) {
            return;
        }
        let phase = if batch.phase == BatchPhase::Finished {
            TaskPhase::Finished
        } else if self.cancel_requested {
            TaskPhase::Cancelling
        } else {
            TaskPhase::Running
        };
        let changed = match &self.view.batch {
            Some(old_batch) => old_batch.id != batch.id || old_batch.revision != batch.revision,
            None => true,
        } || (!self.closing && self.view.phase != phase);
        self.view.batch = Some(Arc::new(batch));
        if !self.closing {
            self.view.phase = phase;
        }
        if changed {
            let before = self.view.revision;
            self.publish();
            proof {
                if before < u64::MAX {
                    assert(self.view.batch == Some(Arc::new(batch)));
                }
            }
        }
    }

    /// The selection was cleared: nothing remains but the closing state.
    pub fn cleared(&mut self)
        requires
            old(self).wf(),
        ensures
            final(self).wf(),
            old(self).spec_view().revision < u64::MAX ==> final(self).spec_view().selection is None
                && final(self).spec_view().import is None && final(self).spec_view().batch is None
                && final(self).spec_view().scan_progress is None && final(self).spec_view().error is None
                && (!old(self).spec_closing() ==> final(self).spec_view().phase == TaskPhase::Idle),
            final(self).spec_bound() is None,
            old(self).spec_view().revision < u64::MAX ==> final(self).spec_view() == (TaskSnapshot {
                selection: None,
                phase: if old(self).spec_closing() { old(self).spec_view().phase } else { TaskPhase::Idle },
                scan_progress: None,
                import: None,
                batch: None,
                error: None,
                revision: (old(self).spec_view().revision + 1) as u64,
            }),
            old(self).spec_view().revision < u64::MAX ==> final(self).spec_faulted() == old(self).spec_faulted()
                && final(self).spec_closing() == old(self).spec_closing(),
            final(self).spec_next_id() == old(self).spec_next_id(),
            final(self).spec_pending() == old(self).spec_pending(),
    {
        self.view.selection = None;
        self.view.import = None;
        self.view.scan_progress = None;
        self.view.batch = None;
        self.bound_batch = None;
        self.view.error = None;
        if !self.closing {
            self.view.phase = TaskPhase::Idle;
        }
        self.publish();
    }

    /// The coordinator has stopped and the batch service is shut down: the
    /// view closes, keeps only the bound batch, and shows the first error.
    pub fn finish(&mut self, batch: Option<BatchSnapshot>, error: Option<TaskError>) -> (r: Result<(), TaskError>)
        requires
            old(self).wf(),
        ensures
            final(self).wf(),
            final(self).spec_closing(),
            final(self).spec_pending() is None,
            final(self).spec_view().phase == TaskPhase::Closed,
            error matches Some(e) ==> r == Err::<(), TaskError>(e),
            error is None && old(self).spec_faulted() ==> r matches Err(TaskError::ServiceFault),
            error is None && !old(self).spec_faulted() ==> r is Ok,
    {
        let mut error = error;
        if self.faulted && error.is_none() {
            error = Some(TaskError::ServiceFault);
        }
        self.closing = true;
        self.request_cancel();
        self.pending = None;
        self.view.batch = match batch {
            Some(b) => {
                if self.bound_batch == Some(b.id) {
                    Some(Arc::new(b))
                } else {
                    None
                }
            },
            None => None,
        };
        match &error {
            Some(e) => {
                self.view.error = Some(e.clone());
            },
            None => {},
        }
        self.publish();
        self.view.phase = TaskPhase::Closed;
        match error {
            Some(e) => Err(e),
            None => Ok(()),
        }
    }
}

} // verus!
