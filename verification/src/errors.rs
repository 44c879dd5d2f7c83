//! The typed failures of the three components.
use vstd::prelude::*;

verus! {

/// Why an authentication request was turned down.
#[derive(Clone, Copy, Debug, PartialEq, Eq, Structural)]
pub enum AuthError {
    /// The password does not match the stored credential.
    InvalidCredentials,
    /// No user carries that name or id.
    NotFound,
    /// The username or the email is already taken.
    Conflict,
    /// The token is malformed or its signature does not match.
    Invalid,
    /// The token was presented at or after its expiry.
    Expired,
    /// The credential could not be produced or kept.
    Storage,
}

/// Why the job store turned a request down.
#[derive(Clone, Copy, Debug, PartialEq, Eq, Structural)]
pub enum StoreError {
    /// The schedule is not a cron expression.
    InvalidSchedule,
    /// The owner is not a known user.
    OwnerNotFound,
    /// No job carries that id.
    NotFound,
    /// The record could not be kept.
    Storage,
}

/// Why the schedule engine turned a request down.
#[derive(Clone, Copy, Debug, PartialEq, Eq, Structural)]
pub enum ScheduleError {
    /// The schedule is not a cron expression; the job was not armed.
    InvalidExpression,
    /// The action of a firing job reported a failure.
    ExecutionFailed,
}

} // verus!
