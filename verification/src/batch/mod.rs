//! Batch bookkeeping: admission checks, path-conflict planning and the state
//! machine that the embedding service drives from its worker threads.

pub mod model;
pub mod planning;
pub mod state;

pub use model::{
    BatchConfig, BatchError, BatchId, BatchItem, BatchParameters, BatchPhase, BatchRequest,
    BatchSnapshot, BatchSummary, JobErrorCode, JobFailure, JobId, JobSnapshot, JobState,
    PathConflictKind, RetryJob, RetryRequest,
};

pub use planning::{estimate_working_set, prepare, Job, PathCheck};

use vstd::prelude::*;

verus! {

} // verus!
