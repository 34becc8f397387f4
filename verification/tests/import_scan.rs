use pixofold_core::import::{
    classify, scan, ImportError, ImportIssueKind, ImportOutput, Pending, ReadStep, ScanLimit,
    ScanOptions, ScanStatus, UnsupportedFormat,
};
use pixofold_core::import::{copy_beside, copy_name, finish_plan, root_name, CopyLayout};
use pixofold_core::import::order::{bytes_not_after, sort_children};
use pixofold_core::batch::{BatchError, BatchParameters, PathCheck, PathConflictKind};
use pixofold_core::model::{
    ByteCount, ImageInfo, OutputPolicy, PngColorType, ProcessingError,
};

fn image() -> ImageInfo {
    ImageInfo { width: 2, height: 2, bit_depth: 8, color_type: PngColorType::Rgb, interlaced: false }
}

#[test]
fn invalid_scan_options_and_root_overflow_fail_before_io() {
    for options in [
        ScanOptions { max_files: 0, ..ScanOptions::default() },
        ScanOptions { max_entries: 1_000_001, ..ScanOptions::default() },
        ScanOptions { max_depth: 257, ..ScanOptions::default() },
        ScanOptions { max_read_bytes: ByteCount(0), ..ScanOptions::default() },
    ] {
        assert!(matches!(scan(&[], options), Err(ImportError::InvalidOptions)));
    }
    let roots = vec!["missing".to_string(); 1001];
    assert!(matches!(scan(&roots, ScanOptions::default()), Err(ImportError::TooManyRoots)));
}

#[test]
fn roots_are_visited_in_order_and_counted_as_discovered() {
    let roots = vec!["/a".to_string(), "/b".to_string()];
    let mut scanner = scan(&roots, ScanOptions::default()).unwrap();
    assert_eq!(scanner.progress().discovered, 2);
    let first = scanner.next_entry(false).unwrap();
    assert_eq!(first.path, "/a");
    assert_eq!(scanner.progress().examined, 1);
    let second = scanner.next_entry(false).unwrap();
    assert_eq!(second.path, "/b");
    assert!(scanner.next_entry(false).is_none());
    let result = scanner.finish();
    assert_eq!(result.progress().status, ScanStatus::Complete);
}

#[test]
fn cancellation_stops_before_the_next_entry() {
    let roots = vec!["/a".to_string()];
    let mut scanner = scan(&roots, ScanOptions::default()).unwrap();
    assert!(scanner.next_entry(true).is_none());
    assert_eq!(scanner.progress().examined, 0);
    assert_eq!(scanner.finish().progress().status, ScanStatus::Cancelled);
}

#[test]
fn duplicates_artifacts_and_limits_are_counted_by_kind() {
    let roots = vec!["/dir".to_string()];
    let options = ScanOptions { max_files: 1, max_entries: 3, ..ScanOptions::default() };
    let mut scanner = scan(&roots, options).unwrap();
    let root = scanner.next_entry(false).unwrap();
    assert!(scanner.visit_path(7, "/dir".to_string()));
    assert!(scanner.enter_directory(root.depth));
    assert!(scanner.discover_child(false));
    assert!(scanner.discover_child(false));
    // The entry limit ends the scan.
    assert!(!scanner.discover_child(false));
    assert_eq!(scanner.progress().status, ScanStatus::Limited(ScanLimit::Entries));
    let mut other = scan(&roots, ScanOptions::default()).unwrap();
    other.next_entry(false).unwrap();
    assert!(other.visit_path(1, "/dir/a.png".to_string()));
    assert!(!other.visit_path(1, "/dir/A.png".to_string()));
    assert!(other.skip_artifact(&"/dir/.pixofold-backup-Ab12xY.png".to_string()));
    assert!(!other.skip_artifact(&"/dir/photo_compressed.png".to_string()));
    other.unsupported("/dir/x.jpg".to_string(), UnsupportedFormat::Jpeg);
    other.fail("/dir/bad.png".to_string(), ProcessingError::InvalidPath);
    let p = other.progress();
    assert_eq!((p.duplicates, p.excluded, p.rejected), (1, 1, 2));
    let result = other.finish();
    assert_eq!(result.issues().len(), 4);
    assert!(matches!(&result.issues()[0].kind, ImportIssueKind::Duplicate { first } if first == "/dir/a.png"));
}

#[test]
fn the_file_limit_ends_the_scan_and_keeps_accepted_files() {
    let roots = vec!["/x.png".to_string(), "/y.png".to_string()];
    let options = ScanOptions { max_files: 1, ..ScanOptions::default() };
    let mut scanner = scan(&roots, options).unwrap();
    let first = scanner.next_entry(false).unwrap();
    assert_eq!(scanner.accept(first, "/x.png".to_string(), 10, image(), 1).unwrap(), true);
    let second = scanner.next_entry(false).unwrap();
    assert_eq!(scanner.accept(second, "/y.png".to_string(), 10, image(), 2).unwrap(), false);
    assert_eq!(scanner.progress().status, ScanStatus::Limited(ScanLimit::Files));
    let result = scanner.finish();
    assert_eq!(result.files().len(), 1);
    assert_eq!(result.files()[0].relative_path, "x.png");
    assert!(!result.files()[0].root_is_directory);
}

#[test]
fn reads_take_the_signature_first_then_chunks_within_the_budget() {
    let roots = vec!["/x.png".to_string()];
    let options = ScanOptions { max_read_bytes: ByteCount(20), ..ScanOptions::default() };
    let mut scanner = scan(&roots, options).unwrap();
    scanner.next_entry(false).unwrap();
    assert_eq!(scanner.read_allowance(1000, true, false), ReadStep::Read(12));
    scanner.record_read(12);
    assert_eq!(scanner.read_allowance(1000, false, false), ReadStep::Read(8));
    scanner.record_read(8);
    assert_eq!(scanner.read_allowance(1000, false, false), ReadStep::Stop);
    assert_eq!(scanner.progress().status, ScanStatus::Limited(ScanLimit::ReadBytes));
    let mut small = scan(&roots, ScanOptions::default()).unwrap();
    assert_eq!(small.read_allowance(5, false, false), ReadStep::Read(5));
    assert_eq!(small.read_allowance(5, false, true), ReadStep::Stop);
    assert_eq!(small.progress().status, ScanStatus::Cancelled);
}

#[test]
fn children_are_visited_in_the_given_order() {
    let roots = vec!["/d".to_string()];
    let mut scanner = scan(&roots, ScanOptions::default()).unwrap();
    scanner.next_entry(false).unwrap();
    assert!(scanner.discover_child(false));
    assert!(scanner.discover_child(false));
    let child = |name: &str| Pending {
        path: format!("/d/{name}"),
        root: Some("/d".to_string()),
        relative: name.to_string(),
        depth: 1,
    };
    scanner.add_children(vec![child("a.png"), child("b.png")]);
    assert_eq!(scanner.next_entry(false).unwrap().path, "/d/a.png");
    assert_eq!(scanner.next_entry(false).unwrap().path, "/d/b.png");
}

#[test]
fn signatures_tell_formats_apart() {
    assert_eq!(classify(b"\x89PNG\r\n\x1a\nrest"), None);
    assert_eq!(classify(&[0xff, 0xd8, 0xff, 0xe0]), Some(UnsupportedFormat::Jpeg));
    assert_eq!(classify(b"GIF89a...."), Some(UnsupportedFormat::Gif));
    assert_eq!(classify(b"GIF87a...."), Some(UnsupportedFormat::Gif));
    assert_eq!(classify(b"RIFF\0\0\0\0WEBPVP8 "), Some(UnsupportedFormat::WebP));
    assert_eq!(classify(b"RIFF\0\0\0\0WAVE"), Some(UnsupportedFormat::Other));
    assert_eq!(classify(b""), Some(UnsupportedFormat::Other));
}

#[test]
fn copy_names_follow_the_stem_rule() {
    assert_eq!(copy_name("/p/photo.png").unwrap(), "photo_compressed.png");
    assert_eq!(copy_name("/p/archive.tar.png").unwrap(), "archive.tar_compressed.png");
    assert_eq!(copy_name("/p/.hidden").unwrap(), ".hidden_compressed.png");
    assert!(matches!(copy_name("/"), Err(ProcessingError::InvalidPath)));
    assert!(matches!(
        copy_beside("/p/photo.png").unwrap(),
        OutputPolicy::Copy { destination } if destination == "/p/photo_compressed.png"
    ));
    assert_eq!(root_name("/pictures/trip"), "trip");
    assert_eq!(root_name("/"), "_root");
}

fn scanned(files: &[(&str, &str, bool, &str)]) -> pixofold_core::import::ImportScan {
    let roots: Vec<String> = files.iter().map(|f| f.0.to_string()).collect();
    let mut scanner = scan(&roots, ScanOptions::default()).unwrap();
    for (i, (source, root, is_dir, relative)) in files.iter().enumerate() {
        let entry = scanner.next_entry(false).unwrap();
        let entry = Pending {
            path: entry.path,
            root: if *is_dir { Some(root.to_string()) } else { None },
            relative: relative.to_string(),
            depth: 0,
        };
        assert!(scanner.accept(entry, source.to_string(), 10, image(), i as u64).unwrap());
    }
    scanner.finish()
}

#[test]
fn plans_map_every_candidate_to_its_output() {
    let found = scanned(&[("/a/x.png", "/a", true, "sub/x.png"), ("/b.png", "/b.png", false, "")]);
    let requests = found.plan(&ImportOutput::CopyBeside, BatchParameters::default()).unwrap();
    assert!(matches!(&requests[0].output, OutputPolicy::Copy { destination } if destination == "/a/x_compressed.png"));
    let tree = ImportOutput::CopyTo { directory: "/out".to_string(), layout: CopyLayout::PreserveRoots };
    let requests = found.plan(&tree, BatchParameters::default()).unwrap();
    assert!(matches!(&requests[0].output, OutputPolicy::CopyTree { root, relative } if root == "/out" && relative == "a/sub/x_compressed.png"));
    assert!(matches!(&requests[1].output, OutputPolicy::CopyTree { relative, .. } if relative == "b_compressed.png"));
    let overwrite = found.plan(&ImportOutput::Overwrite, BatchParameters::default()).unwrap();
    assert!(matches!(overwrite[1].output, OutputPolicy::Overwrite));
}

#[test]
fn roots_with_the_same_folder_name_are_not_merged() {
    let found = scanned(&[("/one/pics/a.png", "/one/pics", true, "a.png"), ("/two/pics/b.png", "/two/pics", true, "b.png")]);
    let tree = ImportOutput::CopyTo { directory: "/out".to_string(), layout: CopyLayout::PreserveRoots };
    assert!(matches!(
        found.plan(&tree, BatchParameters::default()),
        Err(ImportError::RootNameConflict { first, second }) if first == "/one/pics" && second == "/two/pics"
    ));
    let flat = ImportOutput::CopyTo { directory: "/out".to_string(), layout: CopyLayout::Flat };
    assert!(found.plan(&flat, BatchParameters::default()).is_ok());
}

#[test]
fn incomplete_and_empty_scans_never_plan() {
    let roots = vec!["/a".to_string()];
    let mut scanner = scan(&roots, ScanOptions::default()).unwrap();
    scanner.next_entry(true);
    let cancelled = scanner.finish();
    assert!(matches!(cancelled.plan(&ImportOutput::CopyBeside, BatchParameters::default()), Err(ImportError::IncompleteScan)));
    let empty = scan(&[], ScanOptions::default()).unwrap().finish();
    assert!(matches!(empty.plan(&ImportOutput::Overwrite, BatchParameters::default()), Err(ImportError::NoFiles)));
}

fn check(source: u64, target: u64, copy: bool) -> PathCheck {
    PathCheck {
        source: Some(source),
        identity: Some(source),
        target: Some(target),
        target_ancestors: vec![],
        copy_identity: None,
        copy,
        size: Some(ByteCount(10)),
        failure: None,
    }
}

#[test]
fn finishing_a_plan_reports_the_first_failed_candidate() {
    let found = scanned(&[("/a.png", "/a.png", false, ""), ("/b.png", "/b.png", false, "")]);
    let requests = found.plan(&ImportOutput::CopyBeside, BatchParameters::default()).unwrap();
    let ok = finish_plan(requests, vec![check(1, 3, true), check(2, 4, true)], BatchParameters::default()).unwrap();
    assert_eq!(ok.items.len(), 2);
    assert_eq!(ok.items[1].source, "/b.png");
    let requests = found.plan(&ImportOutput::CopyBeside, BatchParameters::default()).unwrap();
    let mut failing = check(2, 4, true);
    failing.failure = Some(pixofold_core::batch::JobFailure::processing(ProcessingError::TargetConflict));
    assert!(matches!(
        finish_plan(requests, vec![check(1, 3, true), failing], BatchParameters::default()),
        Err(ImportError::File { index: 1, .. })
    ));
}

#[test]
fn an_unsupported_file_is_recorded_with_its_format_and_an_empty_stack_ends_the_walk() {
    let roots = vec!["/only".to_string()];
    let mut scanner = scan(&roots, ScanOptions::default()).unwrap();
    assert!(scanner.next_entry(false).is_some());
    assert!(scanner.next_entry(false).is_none());
    assert_eq!(scanner.progress().status, ScanStatus::Scanning);
    scanner.unsupported("/only/x.gif".to_string(), UnsupportedFormat::Gif);
    assert_eq!(scanner.progress().rejected, 1);
    let result = scanner.finish();
    assert_eq!(result.issues()[0].path, "/only/x.gif");
    assert!(matches!(result.issues()[0].kind, ImportIssueKind::Unsupported(UnsupportedFormat::Gif)));
}

#[test]
fn invalid_limits_refuse_the_plan_as_invalid_parameters() {
    let found = scanned(&[("/a.png", "/a.png", false, "")]);
    let mut parameters = BatchParameters::default();
    parameters.limits.max_pixels = 0;
    assert!(matches!(
        found.plan(&ImportOutput::CopyBeside, parameters),
        Err(ImportError::Batch(BatchError::InvalidParameters(ProcessingError::InvalidLimits)))
    ));
    assert!(found.plan(&ImportOutput::CopyBeside, BatchParameters::default()).is_ok());
    assert_eq!(found.files().len(), 1);
}

#[test]
fn a_duplicated_source_in_the_checks_is_a_path_conflict() {
    let found = scanned(&[("/a.png", "/a.png", false, ""), ("/b.png", "/b.png", false, "")]);
    let requests = found.plan(&ImportOutput::CopyBeside, BatchParameters::default()).unwrap();
    match finish_plan(requests, vec![check(1, 3, true), check(1, 4, true)], BatchParameters::default()) {
        Err(ImportError::Batch(BatchError::PathConflict { first, second, kind })) => {
            assert_eq!((first.get(), second.get()), (1, 2));
            assert_eq!(kind, PathConflictKind::DuplicateSource);
        }
        other => panic!("unexpected {:?}", other.map(|r| r.items.len())),
    }
}

#[test]
fn each_accepted_file_keeps_its_own_identity() {
    let roots = vec!["/a.png".to_string(), "/b.png".to_string()];
    let mut scanner = scan(&roots, ScanOptions::default()).unwrap();
    for (i, path) in ["/a.png", "/b.png"].iter().enumerate() {
        let entry = scanner.next_entry(false).unwrap();
        assert!(!scanner.seen_identity(40 + i as u64, &path.to_string()));
        assert!(scanner.accept(entry, path.to_string(), 10, image(), 40 + i as u64).unwrap());
    }
    assert!(scanner.seen_identity(40, &"/c.png".to_string()));
    assert!(scanner.seen_identity(41, &"/d.png".to_string()));
    assert!(!scanner.seen_identity(42, &"/e.png".to_string()));
    let result = scanner.finish();
    assert_eq!(result.files().len(), 2);
    assert_eq!(result.progress().duplicates, 2);
    assert!(matches!(&result.issues()[0].kind, ImportIssueKind::Duplicate { first } if first == "/a.png"));
}

#[test]
fn reaching_each_limit_exactly_without_more_input_still_completes() {
    let roots = vec!["/x.png".to_string()];
    let options = ScanOptions { max_files: 1, max_entries: 1, max_read_bytes: ByteCount(12), ..ScanOptions::default() };
    let mut scanner = scan(&roots, options).unwrap();
    let entry = scanner.next_entry(false).unwrap();
    assert_eq!(scanner.read_allowance(12, true, false), ReadStep::Read(12));
    scanner.record_read(12);
    assert!(!scanner.seen_identity(1, &"/x.png".to_string()));
    assert!(scanner.accept(entry, "/x.png".to_string(), 12, image(), 1).unwrap());
    assert!(scanner.next_entry(false).is_none());
    let p = scanner.progress();
    assert_eq!((p.status, p.discovered, p.accepted, p.read_bytes.0), (ScanStatus::Scanning, 1, 1, 12));
    let result = scanner.finish();
    assert_eq!(result.progress().status, ScanStatus::Complete);
    assert!(result.plan(&ImportOutput::Overwrite, BatchParameters::default()).is_ok());
}

#[test]
fn children_are_ordered_by_the_bytes_of_their_paths() {
    let child = |p: &str| Pending { path: p.to_string(), root: Some("/d".to_string()), relative: p[3..].to_string(), depth: 1 };
    let sorted = sort_children(vec![child("/d/b.png"), child("/d/B.png"), child("/d/a"), child("/d/a.png"), child("/d/ä.png")]);
    let paths: Vec<&str> = sorted.iter().map(|p| p.path.as_str()).collect();
    assert_eq!(paths, ["/d/B.png", "/d/a", "/d/a.png", "/d/b.png", "/d/ä.png"]);
    assert!(bytes_not_after(b"ab", b"abc"));
    assert!(!bytes_not_after(b"b", b"abc"));
    assert!(bytes_not_after(b"", b""));
}
