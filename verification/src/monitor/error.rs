//! Errors of the monitor.

use vstd::prelude::*;
use crate::text::push_str;

verus! {

/// Errors that can occur in the monitor.
#[derive(Debug, Clone, PartialEq, Eq)]
pub enum MonitorError {
    /// Invalid timeout string in the `.wh` configuration.
    InvalidTimeout { input: String },
    /// The alert channel was closed.
    ChannelClosed { agent_name: String },
    /// Alert delivery failed; `source` is the underlying error's text.
    AlertFailed { agent_name: String, source: String },
}

pub open spec fn monitor_error_code(e: MonitorError) -> Seq<char> {
    match e {
        MonitorError::InvalidTimeout { .. } => "INVALID_TIMEOUT"@,
        MonitorError::ChannelClosed { .. } => "CHANNEL_CLOSED"@,
        MonitorError::AlertFailed { .. } => "ALERT_FAILED"@,
    }
}

pub open spec fn monitor_error_message(e: MonitorError) -> Seq<char> {
    match e {
        MonitorError::InvalidTimeout { input } => "invalid loop_detection_timeout value: \""@ + input@
            + "\" \u{2014} expected format: \"0\", \"30s\", \"15m\", or \"1h\""@,
        MonitorError::ChannelClosed { agent_name } => "alert channel closed for agent \""@ + agent_name@ + "\""@,
        MonitorError::AlertFailed { agent_name, source } => "alert delivery failed for agent \""@ + agent_name@ + "\": "@
            + source@,
    }
}

impl MonitorError {
    /// Returns the SCREAMING_SNAKE_CASE error code.
    pub fn code(&self) -> (c: &'static str)
        ensures
            c@ == monitor_error_code(*self),
    {
        match self {
            MonitorError::InvalidTimeout { .. } => "INVALID_TIMEOUT",
            MonitorError::ChannelClosed { .. } => "CHANNEL_CLOSED",
            MonitorError::AlertFailed { .. } => "ALERT_FAILED",
        }
    }

    /// The display text of the error.
    pub fn message(&self) -> (m: String)
        ensures
            m@ == monitor_error_message(*self),
    {
        let mut out = String::new();
        match self {
            MonitorError::InvalidTimeout { input } => {
                push_str(&mut out, "invalid loop_detection_timeout value: \"");
                push_str(&mut out, input.as_str());
                push_str(&mut out, "\" \u{2014} expected format: \"0\", \"30s\", \"15m\", or \"1h\"");
            },
            MonitorError::ChannelClosed { agent_name } => {
                push_str(&mut out, "alert channel closed for agent \"");
                push_str(&mut out, agent_name.as_str());
                push_str(&mut out, "\"");
            },
            MonitorError::AlertFailed { agent_name, source } => {
                push_str(&mut out, "alert delivery failed for agent \"");
                push_str(&mut out, agent_name.as_str());
                push_str(&mut out, "\": ");
                push_str(&mut out, source.as_str());
            },
        }
        assert(out@ =~= monitor_error_message(*self));
        out
    }
}

} // verus!
