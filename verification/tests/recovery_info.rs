use pixofold_core::batch::model::classify_error;
use pixofold_core::batch::{JobErrorCode, JobFailure};
use pixofold_core::model::ProcessingError;
use pixofold_core::wire::{recovery, recovery_cause, Recovery, RecoveryCause};
use std::io;

fn io_error() -> io::Error {
    io::Error::other("disk")
}

#[test]
fn a_failed_commit_names_its_backup() {
    let failure = JobFailure::processing(ProcessingError::CommitFailed {
        source: io_error(),
        backup: String::from("/d/.pixofold-backup-Ab12xY.png"),
    });
    assert_eq!(failure.code, JobErrorCode::CommitFailed);
    assert_eq!(
        recovery(&failure),
        Some(Recovery { backup: Some(String::from("/d/.pixofold-backup-Ab12xY.png")), temporary: None, original: None })
    );
}

#[test]
fn a_failed_cleanup_names_the_leftover_and_the_original_cause() {
    let failure = JobFailure::processing(ProcessingError::CleanupFailed {
        original: Some(Box::new(ProcessingError::Encode(String::from("bad palette")))),
        source: io_error(),
        temporary: String::from("/d/.pixofold-output-Zy98aB.tmp"),
    });
    assert_eq!(
        recovery(&failure),
        Some(Recovery {
            backup: None,
            temporary: Some(String::from("/d/.pixofold-output-Zy98aB.tmp")),
            original: Some(RecoveryCause::Failed { code: JobErrorCode::Encode }),
        })
    );
}

#[test]
fn a_cleanup_after_a_failed_commit_keeps_the_first_leftover_and_the_backup() {
    let failure = JobFailure::processing(ProcessingError::CleanupFailed {
        original: Some(Box::new(ProcessingError::CleanupFailed {
            original: Some(Box::new(ProcessingError::CommitFailed {
                source: io_error(),
                backup: String::from("/d/backup.png"),
            })),
            source: io_error(),
            temporary: String::from("/d/inner.tmp"),
        })),
        source: io_error(),
        temporary: String::from("/d/outer.tmp"),
    });
    assert_eq!(
        recovery(&failure),
        Some(Recovery {
            backup: Some(String::from("/d/backup.png")),
            temporary: Some(String::from("/d/outer.tmp")),
            original: Some(RecoveryCause::Failed { code: JobErrorCode::CommitFailed }),
        })
    );
}

#[test]
fn a_cancelled_write_is_told_apart_and_plain_failures_need_no_recovery() {
    let failure = JobFailure::processing(ProcessingError::CleanupFailed {
        original: Some(Box::new(ProcessingError::Cancelled)),
        source: io_error(),
        temporary: String::from("/d/x.tmp"),
    });
    assert_eq!(recovery(&failure).unwrap().original, Some(RecoveryCause::Cancelled));
    assert_eq!(recovery(&JobFailure::processing(ProcessingError::TargetConflict)), None);
    assert_eq!(recovery(&JobFailure::fault(JobErrorCode::WorkerPanicked)), None);
    assert_eq!(recovery_cause(&ProcessingError::SourceChanged), RecoveryCause::Failed { code: JobErrorCode::SourceChanged });
    assert_eq!(classify_error(&ProcessingError::Cancelled), JobErrorCode::ServiceFault);
    assert_eq!(classify_error(&ProcessingError::InvalidPng("short")), JobErrorCode::InvalidInput);
}

#[test]
fn processing_errors_have_path_free_messages() {
    assert_eq!(ProcessingError::InvalidPng("IHDR 缺失").message(), "PNG 结构无效：IHDR 缺失");
    assert_eq!(ProcessingError::io("读取源文件", io_error()).message(), "文件操作失败：读取源文件");
    assert_eq!(ProcessingError::TargetConflict.message(), "副本目标已存在，未覆盖");
    let commit = ProcessingError::CommitFailed { source: io_error(), backup: String::from("/secret/b.png") };
    assert!(!commit.message().contains("secret"));
}
