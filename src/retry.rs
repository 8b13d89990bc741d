//! The retry policy around one call to the service: a rate-limit rejection
//! is retried at once, without limit; success or any other error ends it.

use vstd::prelude::*;
use crate::error::{error_kind, ErrorKind, ServiceError};

verus! {

/// What to do after one attempt.
#[derive(Debug)]
pub enum RetryStep<T> {
    /// The attempt was rate limited: make it again.
    Retry,
    /// The attempt settled the call with this outcome.
    Done(Result<T, ServiceError>),
}

/// Whether an attempt that failed with `e` is made again.
pub fn should_retry(e: &ServiceError) -> (r: bool)
    ensures
        r == (error_kind(*e) == ErrorKind::RateLimited),
{
    match e.kind() {
        ErrorKind::RateLimited => true,
        _ => false,
    }
}

/// Decides, from one attempt's outcome, whether the call is retried or done.
pub fn retry_step<T>(outcome: Result<T, ServiceError>) -> (r: RetryStep<T>)
    ensures
        match outcome {
            Ok(_) => r == RetryStep::Done(outcome),
            Err(e) => if error_kind(e) == ErrorKind::RateLimited {
                r is Retry
            } else {
                r == RetryStep::Done(outcome)
            },
        },
{
    match outcome {
        Ok(v) => RetryStep::Done(Ok(v)),
        Err(e) => {
            if should_retry(&e) {
                RetryStep::Retry
            } else {
                RetryStep::Done(Err(e))
            }
        },
    }
}

} // verus!
