//! The caller-selected failure policy: what the orchestration loop does with
//! a row that failed to parse. A pure strategy selection, evaluated once per
//! failed row; the parser itself never recovers.

use crate::row::{error_text, ParseError};
use vstd::prelude::*;

verus! {

/// What to do when a row fails to parse.
#[derive(Clone, Copy, Debug, PartialEq, Eq, Structural)]
pub enum OnError {
    /// Stop the whole run and surface the error.
    Fail,
    /// Discard the row silently and continue.
    Skip,
    /// Report the error on the diagnostic channel and continue.
    Log,
}

/// The action the orchestration loop takes for one failed row.
#[derive(Debug)]
pub enum ErrorAction {
    /// Stop the run; the error is the run's final status.
    Halt,
    /// Drop the row, with no record and no report.
    Discard,
    /// Drop the row and emit this description on the diagnostic channel.
    Report(String),
}

/// Decides the action for one failed row under the selected policy.
pub fn apply_policy(policy: &OnError, error: &ParseError) -> (a: ErrorAction)
    ensures
        policy is Fail <==> a is Halt,
        policy is Skip <==> a is Discard,
        policy is Log <==> (a matches ErrorAction::Report(m) && m@ == error_text(error@)),
{
    match policy {
        OnError::Fail => ErrorAction::Halt,
        OnError::Skip => ErrorAction::Discard,
        OnError::Log => ErrorAction::Report(error.describe()),
    }
}

} // verus!
