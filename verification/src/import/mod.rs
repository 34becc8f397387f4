//! Read-only import and output planning: only a complete scan may become a
//! batch. The file-system walk belongs to the embedding application, which
//! drives the [`Scanner`] state machine with what it reads.

pub mod model;
pub mod order;
pub mod planning;
pub mod scan;

pub use model::{
    CopyLayout, ImportError, ImportIssue, ImportIssueKind, ImportOutput, ImportedFile,
    ScanLimit, ScanOptions, ScanProgress, ScanStatus, UnsupportedFormat,
};

pub use planning::{copy_beside, copy_name, finish_plan, root_name};
pub use scan::{classify, scan, ImportScan, Pending, ReadStep, Scanner};

use vstd::prelude::*;

verus! {

} // verus!
