//! Cooperative cancellation shared between the caller and the worker doing the job.

use super::compression::ProcessingError;
use std::sync::atomic::AtomicBool;
use std::sync::Arc;
use vstd::prelude::*;

verus! {

/// `Arc::clone`: the new handle points at the same value, so it views as equal.
#[verifier::external_body]
pub(crate) fn share<T>(handle: &Arc<T>) -> (r: Arc<T>)
    ensures
        r == *handle,
{
    Arc::clone(handle)
}

/// What a reading of the cancellation flag means for the work in progress:
/// a requested cancellation stops it with `Cancelled`.
pub fn cancelled_error(cancelled: bool) -> (r: Result<(), ProcessingError>)
    ensures
        cancelled ==> r == Err::<(), ProcessingError>(ProcessingError::Cancelled),
        !cancelled ==> r is Ok,
{
    if cancelled {
        Err(ProcessingError::Cancelled)
    } else {
        Ok(())
    }
}

/// A cooperative cancellation token. Cancelling during encoding waits for the
/// encoder to return and discards its product; the commit section no longer
/// reacts to it.
#[derive(Debug)]
pub struct CancellationToken(Arc<AtomicBool>);

impl Clone for CancellationToken {
    /// Another handle to the same request flag.
    fn clone(&self) -> (r: Self) {
        CancellationToken(share(&self.0))
    }
}

impl Default for CancellationToken {
    /// A token that has not been cancelled.
    fn default() -> (r: Self) {
        CancellationToken(Arc::new(AtomicBool::new(false)))
    }
}

impl CancellationToken {
    /// A token that has not been cancelled.
    pub fn new() -> (r: Self) {
        CancellationToken(Arc::new(AtomicBool::new(false)))
    }

    /// Requests cancellation; running encoder work is not stopped by this.
    pub fn cancel(&self) {
        self.0.store(true, std::sync::atomic::Ordering::Release);
    }

    /// Whether cancellation has been requested, by this or any other handle.
    /// The answer depends on other threads, so nothing is stated of it.
    pub fn is_cancelled(&self) -> (r: bool) {
        self.0.load(std::sync::atomic::Ordering::Acquire)
    }

    /// `Err(Cancelled)` when cancellation has been requested, else `Ok(())`.
    /// Whether it has been depends on the other handles; the answer to a
    /// given reading is [`cancelled_error`]'s.
    pub fn check(&self) -> (r: Result<(), ProcessingError>)
        ensures
            r matches Err(e) ==> e is Cancelled,
    {
        cancelled_error(self.is_cancelled())
    }
}

} // verus!
