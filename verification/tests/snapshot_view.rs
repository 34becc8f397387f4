use pixofold_core::batch::state::ServiceState;
use pixofold_core::batch::{BatchConfig, BatchError, BatchItem, BatchPhase, BatchRequest, JobErrorCode, PathCheck};
use pixofold_core::import::{scan, Pending, ScanOptions, ScanStatus, UnsupportedFormat};
use pixofold_core::model::{ByteCount, ImageInfo, OutputPolicy, PngColorType, ProcessingError};
use pixofold_core::tasks::{TaskError, TaskPhase, TaskSettings, TaskState};
use pixofold_core::query::{
    path_name, snapshot_view, task_failure, FailureView, IssueKindView, JobStateView, PageView,
};
use pixofold_core::wire::{QueryError, TaskCollection, TaskPageRequest};

fn scanned(files: usize) -> pixofold_core::import::ImportScan {
    let roots: Vec<String> = (0..files).map(|i| format!("/pics/p{i}.png")).collect();
    let mut scanner = scan(&roots, ScanOptions::default()).unwrap();
    for i in 0..files {
        let entry = scanner.next_entry(false).unwrap();
        let path = entry.path.clone();
        let info = ImageInfo { width: 3, height: 2, bit_depth: 8, color_type: PngColorType::Rgb, interlaced: false };
        let entry = Pending { path: entry.path, root: None, relative: String::new(), depth: 0 };
        scanner.accept(entry, path, 10, info, i as u64).unwrap();
    }
    scanner.unsupported("/pics/x.jpg".to_string(), UnsupportedFormat::Jpeg);
    scanner.fail("/pics/broken.png".to_string(), ProcessingError::TargetConflict);
    scanner.finish()
}

/// A task whose batch of `files` rows was cancelled before any row ran.
fn finished_task(files: usize) -> TaskState {
    let mut tasks = TaskState::new();
    let id = tasks.import(vec![], None).unwrap();
    tasks.next_step();
    tasks.scan_finished(scanned(files), false);
    tasks.start(id, TaskSettings::default()).unwrap();
    tasks.next_step();
    let mut service = ServiceState::new(BatchConfig::default()).unwrap();
    let request = BatchRequest {
        items: (0..files)
            .map(|i| BatchItem { source: format!("/pics/p{i}.png"), output: OutputPolicy::Overwrite })
            .collect(),
        parameters: TaskSettings::default().parameters,
    };
    let requests = service.begin_start(&request).unwrap();
    let checks: Vec<PathCheck> = (0..files as u64)
        .map(|i| PathCheck {
            source: Some(i),
            identity: Some(i),
            target: Some(i),
            target_ancestors: vec![],
            copy_identity: None,
            copy: false,
            size: Some(ByteCount(10)),
            failure: None,
        })
        .collect();
    let batch = service.finish_start(request.parameters, requests, checks).unwrap();
    tasks.bind(batch);
    service.cancel(batch).unwrap();
    tasks.batch_changed(service.snapshot().unwrap());
    tasks
}

fn request(collection: TaskCollection, offset: u32, limit: u16, expected: Option<u64>) -> TaskPageRequest {
    TaskPageRequest { expected_revision: expected, collection, offset, limit }
}

#[test]
fn a_jobs_page_shows_names_states_and_the_overview() {
    let tasks = finished_task(3);
    let value = tasks.snapshot();
    let shown = snapshot_view(&value, &request(TaskCollection::Jobs, 0, 2, None)).unwrap();
    assert_eq!(shown.protocol_version, 1);
    assert_eq!(shown.revision, value.revision);
    assert_eq!(shown.selection_id, Some(1));
    assert_eq!(shown.phase, TaskPhase::Finished);
    let scan = shown.scan.unwrap();
    assert_eq!((scan.status, scan.accepted, scan.rejected), (ScanStatus::Complete, 3, 2));
    let overview = shown.batch.unwrap();
    assert_eq!(overview.phase, BatchPhase::Finished);
    assert_eq!((overview.summary.total, overview.summary.cancelled), (3, 3));
    assert_eq!(overview.confirmation_count, 0);
    match shown.page {
        PageView::Jobs { offset, total, items } => {
            assert_eq!((offset, total, items.len()), (0, 3, 2));
            assert_eq!(items[0].id, 1);
            assert_eq!(items[1].id, 2);
            assert_eq!(items[1].source_name.text, "p1.png");
            assert_eq!(items[0].attempt, 1);
            assert_eq!(items[0].state, JobStateView::Cancelled);
        },
        other => panic!("a jobs page, not {other:?}"),
    }
    // The last page is shorter; paging on needs the revision.
    let rest = snapshot_view(&value, &request(TaskCollection::Jobs, 2, 2, Some(value.revision))).unwrap();
    assert!(matches!(rest.page, PageView::Jobs { offset: 2, total: 3, ref items } if items.len() == 1 && items[0].id == 3));
}

#[test]
fn candidate_and_issue_pages_show_indices_and_reasons() {
    let tasks = finished_task(2);
    let value = tasks.snapshot();
    let shown = snapshot_view(&value, &request(TaskCollection::Candidates, 0, 100, None)).unwrap();
    match shown.page {
        PageView::Candidates { total, items, .. } => {
            assert_eq!(total, 2);
            assert_eq!((items[1].index, items[1].width, items[1].height, items[1].input_bytes), (1, 3, 2, 10));
            assert_eq!(items[0].source_name.text, "p0.png");
        },
        other => panic!("a candidates page, not {other:?}"),
    }
    let shown = snapshot_view(&value, &request(TaskCollection::Issues, 0, 100, None)).unwrap();
    match shown.page {
        PageView::Issues { total, items, .. } => {
            assert_eq!(total, 2);
            assert_eq!(items[0].source_name.text, "x.jpg");
            assert_eq!(items[0].issue, IssueKindView::Unsupported { format: UnsupportedFormat::Jpeg });
            assert!(matches!(&items[1].issue, IssueKindView::Failure { failure } if failure.code == JobErrorCode::TargetConflict && failure.recovery.is_none()));
        },
        other => panic!("an issues page, not {other:?}"),
    }
    let shown = snapshot_view(&value, &request(TaskCollection::Confirmations, 0, 100, None)).unwrap();
    assert!(matches!(shown.page, PageView::Confirmations { total: 0, ref items, .. } if items.is_empty()));
}

#[test]
fn refused_queries_say_why() {
    let tasks = finished_task(1);
    let value = tasks.snapshot();
    assert_eq!(snapshot_view(&value, &request(TaskCollection::Jobs, 0, 0, None)), Err(QueryError::InvalidPage));
    assert_eq!(snapshot_view(&value, &request(TaskCollection::Jobs, 1, 10, None)), Err(QueryError::InvalidPage));
    assert_eq!(
        snapshot_view(&value, &request(TaskCollection::Jobs, 0, 10, Some(value.revision + 1))),
        Err(QueryError::StaleSnapshot { current_revision: value.revision })
    );
    assert_eq!(
        snapshot_view(&value, &request(TaskCollection::Jobs, 2, 10, Some(value.revision))),
        Err(QueryError::InvalidPage)
    );
    // An empty task shows an empty first page.
    let idle = TaskState::new().snapshot();
    let shown = snapshot_view(&idle, &request(TaskCollection::Jobs, 0, 10, None)).unwrap();
    assert!(matches!(shown.page, PageView::Jobs { total: 0, ref items, .. } if items.is_empty()));
    assert!(shown.batch.is_none() && shown.scan.is_none() && shown.error.is_none() && shown.selection_id.is_none());
}

#[test]
fn errors_are_shown_as_stable_codes() {
    assert_eq!(task_failure(&TaskError::StaleBatch), Ok(FailureView::StaleBatch));
    assert_eq!(task_failure(&TaskError::batch(BatchError::InvalidRetry)), Ok(FailureView::InvalidRetry));
    assert_eq!(
        task_failure(&TaskError::import(pixofold_core::import::ImportError::NoFiles)),
        Ok(FailureView::NoFiles)
    );
    assert_eq!(path_name("/a/b/c.png").text, "c.png");
    assert_eq!(path_name("/").text, "<root>");
    let long = format!("/d/{}", "x".repeat(300));
    let name = path_name(&long);
    assert!(name.truncated && name.text.chars().count() == 240 && !name.lossy);
    assert!(path_name("/d/a\u{7}b.png").sanitized);
}
