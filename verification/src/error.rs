//! Errors of the control socket handlers.

use vstd::prelude::*;
use crate::text::push_str;
use vstd::string::StringExecFns;

verus! {

/// Typed error for control socket handlers.
#[derive(Debug, Clone, PartialEq, Eq)]
pub enum ControlError {
    UnknownCommand(String),
    RateLimited,
    Internal(String),
}

/// The message of a control error.
pub open spec fn control_error_message(e: ControlError) -> Seq<char> {
    match e {
        ControlError::UnknownCommand(c) => "Unknown command: "@ + c@,
        ControlError::RateLimited => "Rate limited"@,
        ControlError::Internal(m) => "Internal error: "@ + m@,
    }
}

impl ControlError {
    /// The message of the error.
    pub fn message(&self) -> (m: String)
        ensures
            m@ == control_error_message(*self),
    {
        match self {
            ControlError::UnknownCommand(c) => {
                let mut m = String::from_str("Unknown command: ");
                push_str(&mut m, c.as_str());
                m
            },
            ControlError::RateLimited => String::from_str("Rate limited"),
            ControlError::Internal(i) => {
                let mut m = String::from_str("Internal error: ");
                push_str(&mut m, i.as_str());
                m
            },
        }
    }
}

} // verus!
