use pixofold_core::batch::state::ServiceState;
use pixofold_core::batch::{BatchConfig, BatchError, BatchItem, BatchPhase, BatchRequest, PathCheck};
use pixofold_core::import::{scan, ImportError, ImportOutput, Pending, ScanOptions};
use pixofold_core::model::{ByteCount, ImageInfo, OutputPolicy, PngColorType, PngMode};
use pixofold_core::tasks::{Command, Step, TaskError, TaskPhase, TaskSettings, TaskState};

fn complete_scan(files: usize) -> pixofold_core::import::ImportScan {
    let roots: Vec<String> = (0..files).map(|i| format!("/p{i}.png")).collect();
    let mut scanner = scan(&roots, ScanOptions::default()).unwrap();
    for i in 0..files {
        let entry = scanner.next_entry(false).unwrap();
        let path = entry.path.clone();
        let info = ImageInfo { width: 1, height: 1, bit_depth: 8, color_type: PngColorType::Rgb, interlaced: false };
        let entry = Pending { path: entry.path, root: None, relative: String::new(), depth: 0 };
        scanner.accept(entry, path, 10, info, i as u64).unwrap();
    }
    scanner.finish()
}

#[test]
fn settings_default_to_lossy_quality_80_overwrite() {
    let settings = TaskSettings::default();
    assert!(matches!(settings.parameters.mode, PngMode::Lossy { quality } if quality.get() == 80));
    assert!(matches!(settings.output, ImportOutput::Overwrite));
}

#[test]
fn an_import_is_accepted_once_and_scanned_before_it_can_start() {
    let mut state = TaskState::new();
    let id = state.import(vec!["/p".to_string()], None).unwrap();
    assert_eq!(id.get(), 1);
    let view = state.snapshot();
    assert_eq!(view.phase, TaskPhase::Scanning);
    assert_eq!(view.revision, 1);
    assert!(matches!(state.import(vec![], None), Err(TaskError::Busy)));
    assert!(matches!(state.next_step(), Step::Run(Command::Import { .. }, _)));
    assert!(matches!(state.next_step(), Step::Idle));
    assert!(!state.scan_finished(complete_scan(1), false));
    assert_eq!(state.snapshot().phase, TaskPhase::Ready);
    assert!(matches!(state.start(id, TaskSettings::default()), Ok(())));
    assert_eq!(state.snapshot().phase, TaskPhase::Preparing);
    assert!(matches!(state.start(id, TaskSettings::default()), Err(TaskError::NotReady)));
}

#[test]
fn too_many_roots_and_stale_selections_are_refused() {
    let mut state = TaskState::new();
    assert!(matches!(state.import(vec!["x".to_string(); 1001], None), Err(TaskError::TooManyRoots)));
    let id = state.import(vec![], None).unwrap();
    state.next_step();
    state.scan_finished(complete_scan(0), true);
    let view = state.snapshot();
    assert_eq!(view.phase, TaskPhase::Rejected);
    assert!(matches!(&view.error, Some(TaskError::Import(e)) if matches!(**e, ImportError::NoFiles)));
    let next = state.import(vec![], None).unwrap();
    assert_eq!(next.get(), 2);
    assert!(matches!(state.cancel(id), Err(TaskError::StaleSelection)));
}

#[test]
fn a_complete_scan_with_settings_starts_without_a_ready_moment() {
    let mut state = TaskState::new();
    state.import(vec!["/p0.png".to_string()], Some(TaskSettings::default())).unwrap();
    state.next_step();
    assert!(state.scan_finished(complete_scan(1), true));
    assert_eq!(state.snapshot().phase, TaskPhase::Preparing);
}

#[test]
fn cancelling_a_ready_selection_never_starts_it() {
    let mut state = TaskState::new();
    let id = state.import(vec![], None).unwrap();
    state.next_step();
    state.scan_finished(complete_scan(1), false);
    state.cancel(id).unwrap();
    assert_eq!(state.snapshot().phase, TaskPhase::Cancelled);
    assert!(matches!(state.start(id, TaskSettings::default()), Err(TaskError::NotReady)));
    let previous = state.clear(id).unwrap();
    assert_eq!(previous.phase, TaskPhase::Cancelled);
    assert_eq!(state.snapshot().phase, TaskPhase::Clearing);
    state.next_step();
    state.cleared();
    assert_eq!(state.snapshot().phase, TaskPhase::Idle);
    assert!(state.snapshot().selection.is_none());
}

#[test]
fn batch_snapshots_drive_the_phase_and_retry_needs_the_latest_revision() {
    let mut tasks = TaskState::new();
    let id = tasks.import(vec![], None).unwrap();
    tasks.next_step();
    tasks.scan_finished(complete_scan(1), false);
    tasks.start(id, TaskSettings::default()).unwrap();
    tasks.next_step();
    let mut service = ServiceState::new(BatchConfig::default()).unwrap();
    let request = BatchRequest {
        items: vec![BatchItem { source: "/p0.png".to_string(), output: OutputPolicy::Overwrite }],
        parameters: TaskSettings::default().parameters,
    };
    let requests = service.begin_start(&request).unwrap();
    let check = PathCheck {
        source: Some(0),
        identity: Some(0),
        target: Some(0),
        target_ancestors: vec![],
        copy_identity: None,
        copy: false,
        size: Some(ByteCount(10)),
        failure: None,
    };
    let batch = service.finish_start(request.parameters, requests, vec![check]).unwrap();
    tasks.bind(batch);
    tasks.batch_changed(service.snapshot().unwrap());
    assert_eq!(tasks.snapshot().phase, TaskPhase::Running);
    let revision = tasks.snapshot().revision;
    tasks.batch_changed(service.snapshot().unwrap());
    assert_eq!(tasks.snapshot().revision, revision);
    assert!(matches!(tasks.next_step(), Step::Sample { cancel_batch: false }));
    tasks.cancel(id).unwrap();
    assert_eq!(tasks.snapshot().phase, TaskPhase::Cancelling);
    assert!(matches!(tasks.next_step(), Step::Sample { cancel_batch: true }));
    service.cancel(batch).unwrap();
    let finished = service.snapshot().unwrap();
    assert_eq!(finished.phase, BatchPhase::Finished);
    tasks.batch_changed(finished);
    assert_eq!(tasks.snapshot().phase, TaskPhase::Finished);
    let old = tasks.snapshot().batch.unwrap().revision;
    let retry = pixofold_core::batch::RetryRequest { jobs: vec![], parameters: TaskSettings::default().parameters };
    assert!(matches!(tasks.retry(id, old + 1, retry), Err(TaskError::StaleBatch)));
}

#[test]
fn closing_ends_the_coordinator_and_reports_faults() {
    let mut state = TaskState::new();
    state.request_close();
    let revision = state.snapshot().revision;
    state.request_close();
    assert_eq!(state.snapshot().revision, revision);
    assert!(matches!(state.import(vec![], None), Err(TaskError::Closed)));
    assert!(matches!(state.next_step(), Step::Exit));
    assert!(state.finish(None, None).is_ok());
    assert_eq!(state.snapshot().phase, TaskPhase::Closed);
    let mut broken = TaskState::new();
    broken.fault();
    assert!(matches!(broken.import(vec![], None), Err(TaskError::ServiceFault)));
    assert!(matches!(broken.finish(None, None), Err(TaskError::ServiceFault)));
    let mut start = TaskState::new();
    assert!(matches!(
        start.start_failed(TaskError::batch(BatchError::Closed)),
        Err(TaskError::Batch(_))
    ));
}

#[test]
fn a_failed_start_keeps_the_frozen_scan_for_one_corrected_start() {
    let mut state = TaskState::new();
    let id = state.import(vec!["/p0.png".to_string()], None).unwrap();
    state.next_step();
    state.scan_finished(complete_scan(1), false);
    let ready = state.snapshot();
    assert_eq!(ready.phase, TaskPhase::Ready);
    state.start(id, TaskSettings::default()).unwrap();
    assert!(matches!(state.start(id, TaskSettings::default()), Err(TaskError::NotReady)));
    assert!(matches!(state.import(vec![], None), Err(TaskError::Busy)));
    assert!(matches!(state.next_step(), Step::Run(Command::Start { .. }, _)));
    // Invalid settings fail the start; the same frozen scan is ready again.
    assert!(state.start_failed(TaskError::batch(BatchError::InvalidConfig)).is_ok());
    let failed = state.snapshot();
    assert_eq!(failed.phase, TaskPhase::Ready);
    assert!(matches!(&failed.error, Some(TaskError::Batch(e)) if matches!(**e, BatchError::InvalidConfig)));
    assert!(std::sync::Arc::ptr_eq(ready.import.as_ref().unwrap(), failed.import.as_ref().unwrap()));
    state.start(id, TaskSettings::default()).unwrap();
    assert_eq!(state.snapshot().phase, TaskPhase::Preparing);
}

#[test]
fn a_refused_retry_keeps_the_batch_and_shows_the_error() {
    let mut tasks = TaskState::new();
    let id = tasks.import(vec![], None).unwrap();
    tasks.next_step();
    tasks.scan_finished(complete_scan(1), false);
    tasks.start(id, TaskSettings::default()).unwrap();
    tasks.next_step();
    let mut service = ServiceState::new(BatchConfig::default()).unwrap();
    let request = BatchRequest {
        items: vec![BatchItem { source: "/p0.png".to_string(), output: OutputPolicy::Overwrite }],
        parameters: TaskSettings::default().parameters,
    };
    let requests = service.begin_start(&request).unwrap();
    let check = PathCheck {
        source: Some(0),
        identity: Some(0),
        target: Some(0),
        target_ancestors: vec![],
        copy_identity: None,
        copy: false,
        size: Some(ByteCount(10)),
        failure: None,
    };
    let batch = service.finish_start(request.parameters, requests, vec![check]).unwrap();
    tasks.bind(batch);
    service.cancel(batch).unwrap();
    tasks.batch_changed(service.snapshot().unwrap());
    let first = tasks.snapshot().batch.unwrap();
    // A retry that names no row of the batch is refused by the core.
    let retry = pixofold_core::batch::RetryRequest { jobs: vec![], parameters: TaskSettings::default().parameters };
    tasks.retry(id, first.revision, retry).unwrap();
    let command = match tasks.next_step() {
        Step::Run(Command::Retry(request), _) => request,
        _ => panic!("the retry is the pending command"),
    };
    let error = match service.begin_retry(batch, &command) {
        Err(error) => error,
        Ok(_) => panic!("an empty retry is refused"),
    };
    assert!(matches!(error, BatchError::InvalidRetry));
    tasks.retry_failed(error);
    tasks.batch_changed(service.snapshot().unwrap());
    let next = tasks.snapshot();
    assert_eq!(next.phase, TaskPhase::Finished);
    assert!(matches!(&next.error, Some(TaskError::Batch(e)) if matches!(**e, BatchError::InvalidRetry)));
    assert_eq!(next.batch.unwrap().revision, first.revision);
}

#[test]
fn cancelling_a_scan_is_accepted_once_and_repeating_it_changes_nothing() {
    let mut state = TaskState::new();
    let id = state.import(vec!["/p0.png".to_string()], None).unwrap();
    let before = state.snapshot().revision;
    assert!(matches!(state.cancel(id), Ok(())));
    let view = state.snapshot();
    assert_eq!(view.phase, TaskPhase::Cancelling);
    assert_eq!(view.revision, before + 1);
    assert!(matches!(state.cancel(id), Ok(())));
    assert_eq!(state.snapshot().revision, before + 1);
    assert_eq!(state.snapshot().phase, TaskPhase::Cancelling);
}

#[test]
fn closing_cancels_the_running_work_and_publishes_the_closing_phase() {
    let mut state = TaskState::new();
    let id = state.import(vec!["/p0.png".to_string()], None).unwrap();
    let before = state.snapshot();
    state.request_close();
    let view = state.snapshot();
    assert_eq!(view.phase, TaskPhase::Closing);
    assert_eq!(view.revision, before.revision + 1);
    assert_eq!(view.selection, before.selection);
    assert!(state.start_cancelled());
    assert!(matches!(state.import(vec![], None), Err(TaskError::Closed)));
    assert!(matches!(state.cancel(id), Err(TaskError::Closed)));
    state.request_close();
    assert_eq!(state.snapshot().revision, view.revision);
}
