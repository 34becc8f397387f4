use pixofold_core::paths::{file_name, file_stem, is_artifact, join, parent, with_file_name};
use pixofold_core::wire::{
    count, display_name, page_range, parse_decimal_u64, QueryError, TaskCollection,
    TaskPageRequest,
};

#[test]
fn reserved_artifacts_are_explicit_and_not_all_hidden_or_compressed_images() {
    assert!(is_artifact("/d/.pixofold-backup-Ab12xY.png"));
    assert!(is_artifact("/d/.pixofold-output-Zy98aB.tmp"));
    assert!(!is_artifact("/d/.pixofold-backup-family-photo.png"));
    assert!(!is_artifact("/d/.hidden.png"));
    assert!(!is_artifact("/d/photo_compressed.png"));
    assert!(!is_artifact("/d/rgb8.png"));
    assert!(!is_artifact("/d/.pixofold-output-Zy98aB.png"));
    assert!(!is_artifact("/d/.pixofold-backup-Ab1-xY.png"));
}

#[test]
fn path_components_follow_the_normalized_form() {
    assert_eq!(file_name("/a/b.png").unwrap(), "b.png");
    assert_eq!(file_name("b.png").unwrap(), "b.png");
    assert!(file_name("/").is_none());
    assert!(file_name("/a/..").is_none());
    assert_eq!(file_stem("b.png"), "b");
    assert_eq!(file_stem(".png"), ".png");
    assert_eq!(file_stem(".."), "..");
    assert_eq!(file_stem("noext"), "noext");
    assert_eq!(with_file_name("/a/b.png", "c.png"), "/a/c.png");
    assert_eq!(with_file_name("b.png", "c.png"), "c.png");
    assert_eq!(parent("a/b/c.png").unwrap(), "a/b");
    assert_eq!(parent("c.png").unwrap(), "");
    assert_eq!(parent("/c.png").unwrap(), "/");
    assert!(parent("").is_none());
    assert!(parent("/").is_none());
    assert_eq!(join("a", ""), "a/");
    assert_eq!(join("a/", "b"), "a/b");
    assert_eq!(join("", "b"), "b");
}

#[test]
fn decimal_numbers_are_canonical_and_bounded() {
    assert_eq!(parse_decimal_u64("0"), Some(0));
    assert_eq!(parse_decimal_u64("42"), Some(42));
    assert_eq!(parse_decimal_u64("18446744073709551615"), Some(u64::MAX));
    assert_eq!(parse_decimal_u64("18446744073709551614"), Some(u64::MAX - 1));
    for bad in ["", "00", "01", "-1", "+1", " 1", "1 ", "1.0", "18446744073709551616", "123456789012345678901", "x"] {
        assert_eq!(parse_decimal_u64(bad), None, "{bad}");
    }
}

#[test]
fn pages_need_a_limit_and_a_revision_after_the_first() {
    let first = TaskPageRequest { expected_revision: None, collection: TaskCollection::Jobs, offset: 0, limit: 100 };
    assert!(first.validate().is_ok());
    assert_eq!(TaskPageRequest { limit: 0, ..first }.validate(), Err(QueryError::InvalidPage));
    assert_eq!(TaskPageRequest { limit: 101, ..first }.validate(), Err(QueryError::InvalidPage));
    assert_eq!(TaskPageRequest { offset: 5, ..first }.validate(), Err(QueryError::InvalidPage));
    let later = TaskPageRequest { expected_revision: Some(7), offset: 5, limit: 10, ..first };
    assert!(later.check(7).is_ok());
    assert_eq!(later.check(8), Err(QueryError::StaleSnapshot { current_revision: 8 }));
    assert_eq!(page_range(12, &later), Ok((5, 12)));
    assert_eq!(page_range(100, &later), Ok((5, 15)));
    assert_eq!(page_range(5, &later), Ok((5, 5)));
    assert_eq!(page_range(4, &later), Err(QueryError::InvalidPage));
    assert_eq!(count(3), Ok(3));
    assert_eq!(count(u32::MAX as usize + 1), Err(QueryError::InvalidSnapshot));
}

#[test]
fn display_names_are_bounded_and_cleaned() {
    let root = display_name(None, false);
    assert_eq!(root.text, "<root>");
    assert!(!root.truncated && !root.lossy && !root.sanitized);
    let plain = display_name(Some("photo.png"), false);
    assert_eq!(plain.text, "photo.png");
    assert!(!plain.truncated && !plain.sanitized);
    let control = display_name(Some("a\u{7}b"), true);
    assert_eq!(control.text, "a\u{fffd}b");
    assert!(control.sanitized && control.lossy);
    let long: String = "é".repeat(241);
    let cut = display_name(Some(&long), false);
    assert_eq!(cut.text.chars().count(), 240);
    assert!(cut.truncated);
    let exact: String = "x".repeat(240);
    assert!(!display_name(Some(&exact), false).truncated);
}
