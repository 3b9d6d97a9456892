//! Which failed sends are tried again.
//!
//! The backoff itself, its random delays and its clock belong to the caller.
//! What is decided here is the classification of a failure and, from it,
//! what follows an attempt.

use vstd::prelude::*;
use crate::error::SendError;

verus! {

/// Whether another attempt can help.
#[derive(Debug, Clone, Copy, PartialEq, Eq)]
pub enum RetryClass {
    /// The failure may pass: try again after a pause.
    Transient,
    /// The failure will not pass: report it at once.
    Permanent,
}

/// A lost connection cannot be recovered by sending again; every other
/// failure to send may pass.
pub open spec fn spec_classify(error: SendError) -> RetryClass {
    match error {
        SendError::ConnectionLost(_) => RetryClass::Permanent,
        _ => RetryClass::Transient,
    }
}

/// Classifies a failure to send.
pub fn classify(error: &SendError) -> (class: RetryClass)
    ensures
        class == spec_classify(*error),
{
    match error {
        SendError::ConnectionLost(_) => RetryClass::Permanent,
        _ => RetryClass::Transient,
    }
}

/// The retry policy that a send goes by: the one given with the call, or
/// else the connection's default, or else none.
pub fn effective_policy<P>(given: Option<P>, default: Option<P>) -> (policy: Option<P>)
    ensures
        policy == (match given {
            Some(p) => Some(p),
            None => default,
        }),
{
    match given {
        Some(p) => Some(p),
        None => default,
    }
}

/// What follows one attempt to send.
#[derive(Debug, Clone, PartialEq, Eq)]
pub enum AttemptOutcome {
    /// The message went out.
    Done,
    /// Ask the policy for a delay and go on with `after_backoff`.
    Retry(SendError),
    /// Report the failure.
    Fail(SendError),
}

/// What follows an attempt that ended in `result`: success ends the send; a
/// failure is retried only under a policy, and only where it is transient.
pub open spec fn spec_after_attempt(
    policy_configured: bool,
    result: Result<(), SendError>,
) -> AttemptOutcome {
    match result {
        Ok(_) => AttemptOutcome::Done,
        Err(e) => if policy_configured && spec_classify(e) == RetryClass::Transient {
            AttemptOutcome::Retry(e)
        } else {
            AttemptOutcome::Fail(e)
        },
    }
}

/// Decides what follows one attempt to send.
pub fn after_attempt(policy_configured: bool, result: Result<(), SendError>) -> (outcome:
    AttemptOutcome)
    ensures
        outcome == spec_after_attempt(policy_configured, result),
{
    match result {
        Ok(_) => AttemptOutcome::Done,
        Err(e) => {
            if !policy_configured {
                AttemptOutcome::Fail(e)
            } else {
                match classify(&e) {
                    RetryClass::Transient => AttemptOutcome::Retry(e),
                    RetryClass::Permanent => AttemptOutcome::Fail(e),
                }
            }
        },
    }
}

/// After the policy was asked for the next delay, in milliseconds: wait that
/// long and try again, or, where the policy's time is used up, report the
/// last failure.
pub fn after_backoff(delay_millis: Option<u64>, last: SendError) -> (r: Result<u64, SendError>)
    ensures
        r == (match delay_millis {
            Some(d) => Ok::<u64, SendError>(d),
            None => Err::<u64, SendError>(last),
        }),
{
    match delay_millis {
        Some(d) => Ok(d),
        None => Err(last),
    }
}

} // verus!
