use pixofold_core::batch::state::{job_outcome, ServiceState, Take};
use pixofold_core::batch::{
    estimate_working_set, BatchConfig, BatchError, BatchItem, BatchParameters, BatchPhase,
    BatchRequest, BatchSummary, JobErrorCode, JobFailure, JobState, PathCheck, PathConflictKind,
    RetryJob, RetryRequest,
};
use pixofold_core::model::{
    ByteCount, ImageInfo, OutputPolicy, PngColorType, PngMetadataPolicy, PngMode, PngProcessing,
    ProcessingError, ProcessingOutcome, ProcessingReport, ProcessingStage, QualityValue,
};
use std::time::Duration;

fn request(names: &[&str]) -> BatchRequest {
    BatchRequest {
        items: names
            .iter()
            .map(|n| BatchItem { source: format!("/in/{n}.png"), output: OutputPolicy::Overwrite })
            .collect(),
        parameters: BatchParameters::default(),
    }
}

fn checks(n: usize) -> Vec<PathCheck> {
    (0..n)
        .map(|i| PathCheck {
            source: Some(i as u64),
            identity: Some(100 + i as u64),
            target: Some(i as u64),
            target_ancestors: vec![],
            copy_identity: None,
            copy: false,
            size: Some(ByteCount(1000)),
            failure: None,
        })
        .collect()
}

fn info() -> ImageInfo {
    ImageInfo { width: 1, height: 1, bit_depth: 8, color_type: PngColorType::Rgb, interlaced: false }
}

fn report(input: u64, output: u64, gain: bool) -> ProcessingReport {
    ProcessingReport {
        image: info(),
        output_image: info(),
        processing: PngProcessing::Lossless,
        content_credentials_removed: false,
        input_bytes: ByteCount(input),
        output_bytes: ByteCount(output),
        elapsed: Duration::from_millis(1),
        outcome: if gain {
            ProcessingOutcome::Optimized { output: "/in/a.png".to_string(), backup: None }
        } else {
            ProcessingOutcome::NoGain
        },
    }
}

fn started(config: BatchConfig, names: &[&str]) -> (ServiceState, pixofold_core::batch::BatchId) {
    let mut state = ServiceState::new(config).unwrap();
    let req = request(names);
    let requests = state.begin_start(&req).unwrap();
    let id = state.finish_start(req.parameters, requests, checks(names.len())).unwrap();
    (state, id)
}

#[test]
fn config_empty_input_and_estimate_overflow_are_rejected() {
    for config in [
        BatchConfig { workers: 0, ..BatchConfig::default() },
        BatchConfig { workers: 33, ..BatchConfig::default() },
        BatchConfig { max_jobs: 0, ..BatchConfig::default() },
        BatchConfig { max_jobs: 100_001, ..BatchConfig::default() },
        BatchConfig { working_set_budget: ByteCount(0), ..BatchConfig::default() },
    ] {
        assert!(matches!(ServiceState::new(config), Err(BatchError::InvalidConfig)));
    }
    let mut state = ServiceState::new(BatchConfig::default()).unwrap();
    assert!(matches!(state.begin_start(&request(&[])), Err(BatchError::EmptyBatch)));
    let mut params = BatchParameters {
        mode: PngMode::Lossy { quality: QualityValue::default() },
        ..BatchParameters::default()
    };
    params.limits.max_pixels = u64::MAX;
    assert!(estimate_working_set(params).is_err());
    params.limits.max_input_bytes = ByteCount(0);
    assert!(matches!(estimate_working_set(params), Err(BatchError::InvalidParameters(_))));
}

#[test]
fn working_set_estimate_charges_inputs_decodes_pixels_and_headroom() {
    let lossless = estimate_working_set(BatchParameters::default()).unwrap();
    let mib = 1024 * 1024;
    assert_eq!(lossless.0, 64 * mib * 8 + 128 * mib * 8 + 16 * mib);
    let lossy = estimate_working_set(BatchParameters {
        mode: PngMode::Lossy { quality: QualityValue::default() },
        ..BatchParameters::default()
    })
    .unwrap();
    assert_eq!(lossy.0, lossless.0 + 16 * mib * 128);
}

#[test]
fn missing_size_and_sum_overflow_remain_unknown_in_summary() {
    let mut state = ServiceState::new(BatchConfig::default()).unwrap();
    let req = request(&["a", "b"]);
    let requests = state.begin_start(&req).unwrap();
    let mut c = checks(2);
    c[0].size = None;
    c[0].failure = Some(JobFailure::processing(ProcessingError::InvalidPath));
    let id = state.finish_start(req.parameters, requests, c).unwrap();
    let Take::Run(work) = state.take() else { panic!("the second row must run") };
    assert!(state.complete(&work, job_outcome(Ok(report(1000, 1000, false)))));
    let mut finished = state.wait_status(id).unwrap().unwrap();
    assert_eq!(finished.summary.failed, 1);
    assert_eq!(finished.summary.input_bytes, None);
    assert_eq!(finished.summary.current_bytes, None);
    assert_eq!(finished.summary.saved_bytes, Some(ByteCount(0)));
    for job in &mut finished.jobs {
        job.input_bytes = Some(ByteCount(u64::MAX));
    }
    assert_eq!(BatchSummary::from_jobs(&finished.jobs).input_bytes, None);
}

#[test]
fn a_batch_runs_through_its_stages_and_finishes() {
    let (mut state, id) = started(BatchConfig::default(), &["a", "b"]);
    let snapshot = state.snapshot().unwrap();
    assert_eq!(snapshot.phase, BatchPhase::Running);
    assert_eq!(snapshot.summary.queued, 2);
    let Take::Run(first) = state.take() else { panic!() };
    assert_eq!(first.index, 0);
    assert!(state.stage(&first, ProcessingStage::Optimizing));
    assert!(!state.stage(&first, ProcessingStage::Reading));
    assert!(state.stage(&first, ProcessingStage::Validating));
    let before = state.snapshot().unwrap().revision;
    assert!(state.complete(&first, job_outcome(Ok(report(1000, 600, true)))));
    assert!(state.snapshot().unwrap().revision > before);
    assert!(state.wait_status(id).unwrap().is_none());
    let Take::Run(second) = state.take() else { panic!() };
    assert!(state.complete(&second, job_outcome(Err(ProcessingError::SourceChanged))));
    let done = state.wait_status(id).unwrap().unwrap();
    assert_eq!(done.phase, BatchPhase::Finished);
    assert_eq!((done.summary.succeeded, done.summary.failed), (1, 1));
    assert_eq!(done.summary.saved_bytes, Some(ByteCount(400)));
    assert_eq!(done.summary.current_bytes, Some(ByteCount(1600)));
    assert_eq!(done.summary.processed, 2);
    assert_eq!(done.summary.terminal, 2);
    assert_eq!(done.reserved_working_bytes.0, 0);
    assert!(matches!(&done.jobs[1].state, JobState::Failed(f) if f.code == JobErrorCode::SourceChanged));
    assert!(matches!(state.take(), Take::Wait));
}

#[test]
fn memory_reservation_serializes_work_and_oversized_jobs_fail_without_waiting() {
    let budget = estimate_working_set(BatchParameters::default()).unwrap();
    let config = BatchConfig { workers: 2, working_set_budget: ByteCount(budget.0 + 1), ..BatchConfig::default() };
    let (mut state, _) = started(config, &["a", "b"]);
    let Take::Run(first) = state.take() else { panic!() };
    assert!(matches!(state.take(), Take::Wait));
    assert_eq!(state.snapshot().unwrap().reserved_working_bytes, budget);
    assert!(state.complete(&first, JobState::Cancelled));
    assert!(matches!(state.take(), Take::Run(_)));
    let small = BatchConfig { working_set_budget: ByteCount(1), ..BatchConfig::default() };
    let (state, _) = started(small, &["a"]);
    let snapshot = state.snapshot().unwrap();
    assert_eq!(snapshot.phase, BatchPhase::Finished);
    assert!(matches!(&snapshot.jobs[0].state, JobState::Failed(f) if f.code == JobErrorCode::ResourceLimit));
}

#[test]
fn cancel_wait_timeout_and_committed_success_have_distinct_semantics() {
    for succeeded in [false, true] {
        let (mut state, id) = started(BatchConfig::default(), &["a", "b", "c"]);
        let Take::Run(work) = state.take() else { panic!() };
        assert!(state.wait_status(id).unwrap().is_none());
        assert_eq!(state.snapshot().unwrap().phase, BatchPhase::Running);
        state.cancel(id).unwrap();
        let cancelling = state.snapshot().unwrap();
        assert_eq!(cancelling.phase, BatchPhase::Cancelling);
        assert_eq!((cancelling.summary.cancelled, cancelling.summary.processed), (2, 0));
        assert!(matches!(cancelling.jobs[0].state, JobState::Running { cancel_requested: true, .. }));
        assert_eq!(cancelling.active_workers, 1);
        assert!(matches!(state.clear(id), Err(BatchError::Busy)));
        assert!(matches!(
            state.begin_retry(id, &RetryRequest { parameters: BatchParameters::default(), jobs: vec![] }),
            Err(BatchError::Busy)
        ));
        let outcome = if succeeded {
            job_outcome(Ok(report(1000, 500, true)))
        } else {
            job_outcome(Err(ProcessingError::Cancelled))
        };
        assert!(state.complete(&work, outcome));
        let finished = state.wait_status(id).unwrap().unwrap();
        assert_eq!(finished.phase, BatchPhase::Finished);
        assert_eq!(finished.summary.succeeded, usize::from(succeeded));
        assert_eq!(finished.summary.cancelled, if succeeded { 2 } else { 3 });
        assert_eq!(finished.summary.processed, usize::from(succeeded));
        assert_eq!(finished.summary.terminal, 3);
        let revision = finished.revision;
        state.cancel(id).unwrap();
        assert_eq!(state.snapshot().unwrap().revision, revision);
    }
}

#[test]
fn retry_preserves_completed_rows_and_freezes_new_parameters_and_destinations() {
    let (mut state, id) = started(BatchConfig::default(), &["committed", "b", "c"]);
    let Take::Run(a) = state.take() else { panic!() };
    assert!(state.complete(&a, job_outcome(Ok(report(1000, 500, true)))));
    let Take::Run(b) = state.take() else { panic!() };
    state.cancel(id).unwrap();
    assert!(state.complete(&b, job_outcome(Err(ProcessingError::Cancelled))));
    let first = state.wait_status(id).unwrap().unwrap();
    assert_eq!(first.summary.succeeded, 1);
    let mode = PngMode::Lossy { quality: QualityValue::new(40).unwrap() };
    let parameters = BatchParameters { mode, ..BatchParameters::default() };
    let targets = || -> Vec<RetryJob> {
        first.jobs[1..]
            .iter()
            .map(|j| RetryJob {
                id: j.id,
                output: OutputPolicy::Copy { destination: format!("/out/retry-{}.png", j.id.get()) },
                metadata: PngMetadataPolicy::Preserve,
            })
            .collect()
    };
    let retry = RetryRequest { jobs: targets(), parameters };
    let plan = state.begin_retry(id, &retry).unwrap();
    let requests = plan.requests().clone();
    assert!(matches!(&requests[1].output, OutputPolicy::Copy { destination } if destination == "/out/retry-2.png"));
    let mut c = checks(3);
    for (i, target) in [(1, 50), (2, 51)] {
        c[i].target = Some(target);
        c[i].copy = true;
    }
    state.finish_retry(plan, requests, c).unwrap();
    let Take::Run(running) = state.take() else { panic!() };
    assert_eq!(running.request.mode, mode);
    assert!(matches!(running.request.output, OutputPolicy::Copy { .. }));
    assert!(state.complete(&running, job_outcome(Ok(report(1000, 1000, false)))));
    let Take::Run(last) = state.take() else { panic!() };
    assert!(state.complete(&last, job_outcome(Ok(report(1000, 1000, false)))));
    let finished = state.wait_status(id).unwrap().unwrap();
    assert_eq!(finished.id, id);
    assert_eq!(finished.jobs.iter().map(|j| j.attempt).collect::<Vec<_>>(), [1, 2, 2]);
    assert_eq!(finished.jobs[0].request.mode, PngMode::Lossless);
    assert!(matches!(finished.jobs[0].state, JobState::Succeeded(_)));
    assert_eq!(finished.summary.succeeded, 1);
    assert_eq!(finished.summary.no_gain, 2);
    assert!(finished.revision > first.revision);
    let revision = finished.revision;
    assert!(matches!(
        state.begin_retry(id, &RetryRequest { jobs: targets(), parameters }),
        Err(BatchError::InvalidRetry)
    ));
    assert_eq!(state.snapshot().unwrap().revision, revision);
}

#[test]
fn invalid_retries_change_nothing() {
    let (mut state, id) = started(BatchConfig::default(), &["a"]);
    let Take::Run(a) = state.take() else { panic!() };
    let busy = RetryRequest { jobs: vec![], parameters: BatchParameters::default() };
    assert!(matches!(state.begin_retry(id, &busy), Err(BatchError::Busy)));
    state.complete(&a, job_outcome(Ok(report(1000, 500, true))));
    let success = RetryRequest {
        jobs: vec![RetryJob {
            id: state.snapshot().unwrap().jobs[0].id,
            output: OutputPolicy::Overwrite,
            metadata: PngMetadataPolicy::Preserve,
        }],
        parameters: BatchParameters::default(),
    };
    assert!(matches!(state.begin_retry(id, &success), Err(BatchError::InvalidRetry)));
    assert!(matches!(state.begin_retry(id, &busy), Err(BatchError::InvalidRetry)));
    assert_eq!(state.snapshot().unwrap().jobs[0].attempt, 1);
}

#[test]
fn cross_job_conflicts_reject_the_whole_batch() {
    let mut state = ServiceState::new(BatchConfig::default()).unwrap();
    let req = request(&["a", "b"]);
    let requests = state.begin_start(&req).unwrap();
    let mut c = checks(2);
    c[1].source = Some(0);
    assert!(matches!(
        state.finish_start(req.parameters, requests, c),
        Err(BatchError::PathConflict { first, second, kind: PathConflictKind::DuplicateSource })
            if first.get() == 1 && second.get() == 2
    ));
    assert!(state.snapshot().is_none());
    let requests = state.begin_start(&req).unwrap();
    let mut c = checks(2);
    c[1].copy = true;
    c[1].target = Some(0);
    assert!(matches!(
        state.finish_start(req.parameters, requests, c),
        Err(BatchError::PathConflict { kind: PathConflictKind::DuplicateOutput, .. })
    ));
    let requests = state.begin_start(&req).unwrap();
    let mut c = checks(2);
    c[1].copy = true;
    c[1].target = Some(9);
    c[1].target_ancestors = vec![0];
    assert!(matches!(
        state.finish_start(req.parameters, requests, c),
        Err(BatchError::PathConflict { kind: PathConflictKind::OutputHierarchy, .. })
    ));
}

#[test]
fn clear_and_shutdown_follow_the_batch_lifecycle() {
    let (mut state, id) = started(BatchConfig::default(), &["a"]);
    assert!(matches!(state.clear(id), Err(BatchError::Busy)));
    let Take::Run(work) = state.take() else { panic!() };
    state.close(false);
    assert!(matches!(state.take(), Take::Stop));
    assert!(matches!(state.begin_start(&request(&["b"])), Err(BatchError::Closed)));
    assert!(state.complete(&work, JobState::Cancelled));
    assert!(state.finish_shutdown(false).is_ok());
    let last = state.clear(id).unwrap();
    assert_eq!(last.jobs.len(), 1);
    assert!(state.snapshot().is_none());
}

#[test]
fn a_panicked_worker_leaves_a_service_fault_instead_of_running_rows() {
    let (mut state, id) = started(BatchConfig::default(), &["a", "b"]);
    let Take::Run(_work) = state.take() else { panic!() };
    state.close(false);
    assert!(matches!(state.finish_shutdown(true), Err(BatchError::ServiceFault)));
    let snapshot = state.snapshot().unwrap();
    assert_eq!(snapshot.phase, BatchPhase::Finished);
    assert!(matches!(&snapshot.jobs[0].state, JobState::Failed(f) if f.code == JobErrorCode::ServiceFault));
    assert!(matches!(state.wait_status(id), Err(BatchError::ServiceFault)));
}

#[test]
fn cleanup_failure_after_cancel_remains_a_failure_with_recovery_context() {
    let (mut state, id) = started(BatchConfig::default(), &["cleanup", "queued"]);
    let Take::Run(work) = state.take() else { panic!("the first row runs") };
    state.cancel(id).unwrap();
    let temporary = work.request.source.replace(".png", ".tmp");
    let failed = ProcessingError::CleanupFailed {
        original: Some(Box::new(ProcessingError::Cancelled)),
        source: std::io::Error::from(std::io::ErrorKind::PermissionDenied),
        temporary: temporary.clone(),
    };
    state.complete(&work, job_outcome(Err(failed)));
    let finished = state.wait_status(id).unwrap().unwrap();
    assert_eq!((finished.summary.failed, finished.summary.cancelled), (1, 1));
    let JobState::Failed(failure) = &finished.jobs[0].state else {
        panic!("a failed cleanup is not a finished cancellation");
    };
    assert_eq!(failure.code, JobErrorCode::CleanupFailed);
    let Some(ProcessingError::CleanupFailed { original, source, temporary: left }) = failure.cause.as_deref() else {
        panic!("the original error and the leftover path are kept");
    };
    assert!(matches!(original.as_deref(), Some(ProcessingError::Cancelled)));
    assert_eq!(source.kind(), std::io::ErrorKind::PermissionDenied);
    assert_eq!(left, &temporary);
    assert_eq!(finished.reserved_working_bytes.0, 0);
}

#[test]
fn settings_are_copied_and_stage_revision_never_regresses() {
    let mut state = ServiceState::new(BatchConfig::default()).unwrap();
    let mut req = request(&["a", "b"]);
    req.parameters.mode = PngMode::Lossy { quality: QualityValue::new(73).unwrap() };
    let original = req.parameters.mode;
    let requests = state.begin_start(&req).unwrap();
    let id = state.finish_start(req.parameters, requests, checks(2)).unwrap();
    let Take::Run(first) = state.take() else { panic!("the first row runs") };
    assert_eq!(first.request.mode, original);
    // Changing the caller's request or a snapshot changes nothing inside.
    req.parameters.mode = PngMode::Lossless;
    let mut snapshot = state.snapshot().unwrap();
    snapshot.jobs[1].request.mode = PngMode::Lossless;
    assert!(state.stage(&first, ProcessingStage::Optimizing));
    assert!(state.stage(&first, ProcessingStage::BeforeCommit));
    let revision = state.snapshot().unwrap().revision;
    // A stage that would go back is ignored and publishes nothing.
    assert!(!state.stage(&first, ProcessingStage::Reading));
    assert_eq!(state.snapshot().unwrap().revision, revision);
    assert!(matches!(state.snapshot().unwrap().jobs[0].state, JobState::Running { stage: ProcessingStage::BeforeCommit, .. }));
    state.complete(&first, job_outcome(Ok(report(1000, 500, true))));
    let Take::Run(second) = state.take() else { panic!("the second row runs") };
    assert_eq!(second.request.mode, original);
    state.complete(&second, job_outcome(Ok(report(1000, 500, true))));
    let finished = state.wait_status(id).unwrap().unwrap();
    assert!(finished.revision > revision);
    assert_eq!(finished.jobs[1].request.mode, original);
    assert_eq!(finished.jobs[1].mapping.unwrap().target, 73);
}

#[test]
fn per_row_errors_and_panics_release_reservations_and_other_rows_continue() {
    let (mut state, id) = started(BatchConfig::default(), &["fail", "panic", "ok"]);
    let Take::Run(fail) = state.take() else { panic!("the first row runs") };
    state.complete(&fail, job_outcome(Err(ProcessingError::InvalidPng("IHDR"))));
    let Take::Run(panicked) = state.take() else { panic!("the second row runs") };
    // A worker that panicked reports the row as failed by the panic.
    state.complete(&panicked, JobState::Failed(JobFailure::fault(JobErrorCode::WorkerPanicked)));
    let Take::Run(ok) = state.take() else { panic!("the third row runs") };
    state.complete(&ok, job_outcome(Ok(report(1000, 1000, false))));
    let finished = state.wait_status(id).unwrap().unwrap();
    assert_eq!((finished.summary.failed, finished.summary.no_gain), (2, 1));
    for (job, code) in finished.jobs.iter().zip([JobErrorCode::InvalidInput, JobErrorCode::WorkerPanicked]) {
        assert!(matches!(&job.state, JobState::Failed(failure) if failure.code == code));
    }
    assert_eq!(finished.reserved_working_bytes.0, 0);
    state.clear(id).unwrap();
    assert!(state.snapshot().is_none());
    let req = request(&["next"]);
    let requests = state.begin_start(&req).unwrap();
    let next = state.finish_start(req.parameters, requests, checks(1)).unwrap();
    assert_ne!(id, next);
    assert!(matches!(state.cancel(id), Err(BatchError::NoSuchBatch)));
    let Take::Run(last) = state.take() else { panic!("the new row runs") };
    state.complete(&last, job_outcome(Ok(report(1000, 1000, false))));
    assert_eq!(state.wait_status(next).unwrap().unwrap().summary.no_gain, 1);
}

#[test]
fn shutdown_cancels_and_finishes_every_row() {
    let (mut state, id) = started(BatchConfig::default(), &["a", "b"]);
    let Take::Run(running) = state.take() else { panic!("the first row runs") };
    state.cancel(id).unwrap();
    // The worker returns once cancelled; then the service shuts down, twice.
    state.complete(&running, job_outcome(Err(ProcessingError::Cancelled)));
    for _ in 0..2 {
        state.close(false);
        assert!(matches!(state.take(), Take::Stop));
        assert!(state.finish_shutdown(false).is_ok());
    }
    let finished = state.snapshot().unwrap();
    assert_eq!(finished.summary.cancelled, 2);
    assert_eq!(finished.reserved_working_bytes.0, 0);
    assert!(matches!(state.begin_start(&request(&["new"])), Err(BatchError::Closed)));
}
