//! Outcomes, progress updates and errors of cron event handlers.

use vstd::prelude::*;
use crate::cron::CronEventMessage;
use crate::text::{dec, push_str, push_u64};

verus! {

/// Outcome of a successfully handled cron event.
#[derive(Debug)]
pub enum HandlerOutcome {
    /// The handler completed its work, with a summary of what was done.
    Completed { message: String },
}

/// What handles the cron events of a job; implemented by the users of the
/// dispatcher. Handling runs to completion and reports its outcome or an
/// error; nothing is promised of either.
pub trait CronEventHandler {
    /// Handle a cron event.
    fn handle(&self, event: &CronEventMessage) -> Result<HandlerOutcome, CronHandlerError>;
}

/// A progress update published when a handler runs long.
#[derive(Debug, Clone)]
pub struct ProgressUpdate {
    pub job_name: String,
    pub message: String,
    /// Completion percentage (0-100), if known.
    pub percent: Option<u32>,
}

/// Errors of cron event handlers.
#[derive(Debug, Clone, PartialEq, Eq)]
pub enum CronHandlerError {
    /// No handler registered for the job.
    ActionNotFound { job_name: String },
    /// The handler failed; `source` is the underlying error's text.
    ExecutionFailed { job_name: String, source: String },
    /// The handler exceeded its timeout after running `elapsed_secs`.
    Timeout { job_name: String, elapsed_secs: u64 },
}

pub open spec fn handler_error_code(e: CronHandlerError) -> Seq<char> {
    match e {
        CronHandlerError::ActionNotFound { .. } => "ACTION_NOT_FOUND"@,
        CronHandlerError::ExecutionFailed { .. } => "EXECUTION_FAILED"@,
        CronHandlerError::Timeout { .. } => "HANDLER_TIMEOUT"@,
    }
}

/// The display text of a handler error; an elapsed time shows as `{:?}`
/// shows a whole number of seconds, e.g. `60s`.
pub open spec fn handler_error_message(e: CronHandlerError) -> Seq<char> {
    match e {
        CronHandlerError::ActionNotFound { job_name } => "no handler registered for cron job '"@ + job_name@ + "'"@,
        CronHandlerError::ExecutionFailed { job_name, source } => "handler execution failed for cron job '"@
            + job_name@ + "': "@ + source@,
        CronHandlerError::Timeout { job_name, elapsed_secs } => "handler timed out for cron job '"@ + job_name@
            + "' after "@ + dec(elapsed_secs as nat) + "s"@,
    }
}

impl CronHandlerError {
    /// Returns the SCREAMING_SNAKE_CASE error code.
    pub fn code(&self) -> (c: &'static str)
        ensures
            c@ == handler_error_code(*self),
    {
        match self {
            CronHandlerError::ActionNotFound { .. } => "ACTION_NOT_FOUND",
            CronHandlerError::ExecutionFailed { .. } => "EXECUTION_FAILED",
            CronHandlerError::Timeout { .. } => "HANDLER_TIMEOUT",
        }
    }

    /// The display text of the error.
    pub fn message(&self) -> (m: String)
        ensures
            m@ == handler_error_message(*self),
    {
        let mut out = String::new();
        match self {
            CronHandlerError::ActionNotFound { job_name } => {
                push_str(&mut out, "no handler registered for cron job '");
                push_str(&mut out, job_name.as_str());
                push_str(&mut out, "'");
            },
            CronHandlerError::ExecutionFailed { job_name, source } => {
                push_str(&mut out, "handler execution failed for cron job '");
                push_str(&mut out, job_name.as_str());
                push_str(&mut out, "': ");
                push_str(&mut out, source.as_str());
            },
            CronHandlerError::Timeout { job_name, elapsed_secs } => {
                push_str(&mut out, "handler timed out for cron job '");
                push_str(&mut out, job_name.as_str());
                push_str(&mut out, "' after ");
                push_u64(&mut out, *elapsed_secs);
                push_str(&mut out, "s");
            },
        }
        assert(out@ =~= handler_error_message(*self));
        out
    }
}

} // verus!
