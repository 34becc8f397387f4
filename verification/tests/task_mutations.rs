use pixofold_core::batch::state::ServiceState;
use pixofold_core::batch::{BatchConfig, BatchItem, BatchRequest, PathCheck};
use pixofold_core::import::{scan, ImportOutput, Pending, ScanOptions};
use pixofold_core::model::{
    ByteCount, ImageInfo, OutputPolicy, PngColorType, PngMetadataPolicy, PngMode, QualityValue,
    ResourceLimits,
};
use pixofold_core::ingress::{IngressError, NativeImports, NativeRoot};
use pixofold_core::mutation::{
    can_import, current_selection, mutate, retry_mutation, task_settings, Mutation, MutationRefusal, TaskOutput,
};
use pixofold_core::tasks::{
    Command, SelectionId, Step, TaskError, TaskPhase, TaskSettings, TaskSnapshot, TaskState,
};
use pixofold_core::wire::CredentialsOutput;

fn complete_scan(files: usize) -> pixofold_core::import::ImportScan {
    let roots: Vec<String> = (0..files).map(|i| format!("/p{i}.png")).collect();
    let mut scanner = scan(&roots, ScanOptions::default()).unwrap();
    for i in 0..files {
        let entry = scanner.next_entry(false).unwrap();
        let path = entry.path.clone();
        let info = ImageInfo { width: 1, height: 1, bit_depth: 8, color_type: PngColorType::Rgb, interlaced: false };
        let entry = Pending { path: entry.path, root: None, relative: String::new(), depth: 0 };
        scanner.accept(entry, path, 10, info, i as u64).unwrap();
    }
    scanner.finish()
}

/// A task whose batch of `files` rows was cancelled before any row ran.
fn cancelled_task(files: usize, output: OutputPolicy) -> (TaskState, SelectionId) {
    let mut tasks = TaskState::new();
    let id = tasks.import(vec![], None).unwrap();
    tasks.next_step();
    tasks.scan_finished(complete_scan(files), false);
    tasks.start(id, TaskSettings::default()).unwrap();
    tasks.next_step();
    let mut service = ServiceState::new(BatchConfig::default()).unwrap();
    let request = BatchRequest {
        items: (0..files)
            .map(|i| BatchItem { source: format!("/p{i}.png"), output: output.clone() })
            .collect(),
        parameters: TaskSettings::default().parameters,
    };
    let requests = service.begin_start(&request).unwrap();
    let checks: Vec<PathCheck> = (0..files as u64)
        .map(|i| PathCheck {
            source: Some(i),
            identity: Some(i),
            target: Some(i),
            target_ancestors: vec![],
            copy_identity: None,
            copy: false,
            size: Some(ByteCount(10)),
            failure: None,
        })
        .collect();
    let batch = service.finish_start(request.parameters, requests, checks).unwrap();
    tasks.bind(batch);
    service.cancel(batch).unwrap();
    tasks.batch_changed(service.snapshot().unwrap());
    assert_eq!(tasks.snapshot().phase, TaskPhase::Finished);
    (tasks, id)
}

fn lossy(q: i32) -> PngMode {
    PngMode::Lossy { quality: QualityValue::new(q).unwrap() }
}

#[test]
fn settings_take_the_mode_and_output_with_default_limits() {
    let s = task_settings(lossy(70), TaskOutput::CopyBeside);
    assert_eq!(s.parameters.mode, lossy(70));
    assert_eq!(s.parameters.limits, ResourceLimits::default());
    assert!(matches!(s.output, ImportOutput::CopyBeside));
    assert!(matches!(task_settings(PngMode::Lossless, TaskOutput::Overwrite).output, ImportOutput::Overwrite));
}

#[test]
fn imports_are_admitted_only_while_nothing_runs() {
    for phase in [TaskPhase::Idle, TaskPhase::Finished, TaskPhase::Cancelled, TaskPhase::Rejected] {
        assert!(can_import(phase).is_ok());
    }
    for phase in [TaskPhase::Closing, TaskPhase::Closed] {
        assert!(matches!(can_import(phase), Err(TaskError::Closed)));
    }
    for phase in [TaskPhase::Scanning, TaskPhase::Ready, TaskPhase::Preparing, TaskPhase::Running, TaskPhase::Cancelling, TaskPhase::Clearing] {
        assert!(matches!(can_import(phase), Err(TaskError::Busy)));
    }
}

#[test]
fn only_the_current_selection_is_named() {
    let (tasks, id) = cancelled_task(1, OutputPolicy::Overwrite);
    let snapshot: TaskSnapshot = tasks.snapshot();
    assert_eq!(current_selection(&snapshot, id.get()).unwrap(), id);
    assert!(matches!(current_selection(&snapshot, id.get() + 1), Err(TaskError::StaleSelection)));
    let idle = TaskState::new().snapshot();
    assert!(matches!(current_selection(&idle, 1), Err(TaskError::StaleSelection)));
}

#[test]
fn a_plain_retry_keeps_limits_takes_the_new_mode_and_drops_a_waived_backup() {
    let (tasks, id) = cancelled_task(3, OutputPolicy::OverwriteWithoutBackup);
    let snapshot = tasks.snapshot();
    let revision = snapshot.batch.as_ref().unwrap().revision;
    let (selection, request) =
        retry_mutation(&snapshot, id.get(), revision, &[3, 1], lossy(60), None).unwrap();
    assert_eq!(selection, id);
    assert_eq!(request.parameters.mode, lossy(60));
    assert_eq!(request.parameters.limits, snapshot.batch.as_ref().unwrap().parameters.limits);
    // Row order, not request order (row identifiers start at 1); an explicitly waived backup is not inherited.
    let ids: Vec<usize> = request.jobs.iter().map(|j| j.id.get()).collect();
    assert_eq!(ids, vec![1, 3]);
    for job in &request.jobs {
        assert_eq!(job.output, OutputPolicy::Overwrite);
        assert!(matches!(job.metadata, PngMetadataPolicy::Preserve));
    }
}

#[test]
fn retry_refusals_come_in_the_protocol_order() {
    let (tasks, id) = cancelled_task(2, OutputPolicy::Overwrite);
    let snapshot = tasks.snapshot();
    let revision = snapshot.batch.as_ref().unwrap().revision;
    let too_many: Vec<u64> = (0..1001).collect();
    assert!(matches!(retry_mutation(&snapshot, id.get() + 1, revision, &[], PngMode::Lossless, None), Err(MutationRefusal::InvalidRetry)));
    assert!(matches!(retry_mutation(&snapshot, id.get(), revision, &too_many, PngMode::Lossless, None), Err(MutationRefusal::InvalidRetry)));
    assert!(matches!(
        retry_mutation(&snapshot, id.get() + 1, revision, &[0], PngMode::Lossless, None),
        Err(MutationRefusal::Task(TaskError::StaleSelection))
    ));
    assert!(matches!(
        retry_mutation(&snapshot, id.get(), revision + 1, &[0], PngMode::Lossless, None),
        Err(MutationRefusal::Task(TaskError::StaleBatch))
    ));
    assert!(matches!(retry_mutation(&snapshot, id.get(), revision, &[1, 1], PngMode::Lossless, None), Err(MutationRefusal::InvalidRetry)));
    assert!(matches!(retry_mutation(&snapshot, id.get(), revision, &[1, 7], PngMode::Lossless, None), Err(MutationRefusal::InvalidRetry)));
    assert!(retry_mutation(&snapshot, id.get(), revision, &[2, 1], PngMode::Lossless, None).is_ok());
    // Cancelled rows never waited for a consent.
    assert!(matches!(
        retry_mutation(&snapshot, id.get(), revision, &[1], PngMode::Lossless, Some(CredentialsOutput::CopyBeside)),
        Err(MutationRefusal::InvalidRetry)
    ));
    // Without a batch there is nothing to retry.
    let mut fresh = TaskState::new();
    let other = fresh.import(vec![], None).unwrap();
    assert!(matches!(
        retry_mutation(&fresh.snapshot(), other.get(), 0, &[0], PngMode::Lossless, None),
        Err(MutationRefusal::Task(TaskError::NotReady))
    ));
}

#[test]
fn a_consent_needs_a_finished_task() {
    let mut tasks = TaskState::new();
    let id = tasks.import(vec![], None).unwrap();
    tasks.next_step();
    tasks.scan_finished(complete_scan(1), false);
    assert_eq!(tasks.snapshot().phase, TaskPhase::Ready);
    assert!(matches!(
        retry_mutation(&tasks.snapshot(), id.get(), 0, &[0], PngMode::Lossless, Some(CredentialsOutput::OverwriteWithBackup)),
        Err(MutationRefusal::Task(TaskError::NotReady))
    ));
}

fn native_grant(imports: &mut NativeImports, session: u64) -> u64 {
    let path = String::from("/tmp/picked.png");
    let units = path.len();
    let permit = imports.reserve(session).unwrap();
    imports.complete(permit, session, Some(vec![NativeRoot { path, absolute: true, units }]), 0).unwrap().unwrap().grant_id
}

#[test]
fn an_import_uses_its_grant_only_once_accepted_and_start_needs_the_current_selection() {
    let mut tasks = TaskState::new();
    let mut imports = NativeImports::new();
    let busy = tasks.import(vec!["/busy".to_string()], None).unwrap();
    let grant = native_grant(&mut imports, 7);
    // A refused import keeps the grant.
    assert!(matches!(
        mutate(&mut tasks, &mut imports, 7, 1, Mutation::Import { grant, settings: None }),
        Err(MutationRefusal::Task(TaskError::Busy))
    ));
    assert!(matches!(
        mutate(&mut tasks, &mut imports, 8, 1, Mutation::Import { grant, settings: None }),
        Err(MutationRefusal::Ingress(IngressError::StaleGrant))
    ));
    tasks.cancel(busy).unwrap();
    tasks.next_step();
    tasks.scan_finished(complete_scan(0), true);
    let id = mutate(
        &mut tasks,
        &mut imports,
        7,
        1,
        Mutation::Import { grant, settings: Some((PngMode::Lossless, TaskOutput::CopyBeside)) },
    )
    .unwrap();
    assert_eq!(id, busy.get() + 1);
    assert!(matches!(
        tasks.next_step(),
        Step::Run(Command::Import { roots, settings: Some(s) }, _)
            if roots == vec!["/tmp/picked.png".to_string()] && matches!(s.output, ImportOutput::CopyBeside)
    ));
    assert!(matches!(
        mutate(&mut tasks, &mut imports, 7, 1, Mutation::Import { grant, settings: None }),
        Err(MutationRefusal::Ingress(IngressError::StaleGrant))
    ));
    assert!(matches!(
        mutate(&mut tasks, &mut imports, 7, 1, Mutation::Start { selection: id + 1, mode: PngMode::Lossless, output: TaskOutput::Overwrite }),
        Err(MutationRefusal::Task(TaskError::StaleSelection))
    ));
    assert!(matches!(
        mutate(&mut tasks, &mut imports, 7, 1, Mutation::Clear { selection: id }),
        Err(MutationRefusal::Task(TaskError::Busy))
    ));
}

#[test]
fn a_closing_task_owner_refuses_an_import_as_closed_and_keeps_the_grant() {
    let mut tasks = TaskState::new();
    let mut imports = NativeImports::new();
    let grant = native_grant(&mut imports, 1);
    tasks.request_close();
    assert!(matches!(
        mutate(&mut tasks, &mut imports, 1, 1, Mutation::Import { grant, settings: None }),
        Err(MutationRefusal::Task(TaskError::Closed))
    ));
    assert_eq!(imports.grant_roots(1, grant, 1), Ok(vec!["/tmp/picked.png".to_string()]));
}
