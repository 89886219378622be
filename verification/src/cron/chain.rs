//! The event log, outcome, errors and operator notifications of the cron to
//! skill invocation chain.

use vstd::prelude::*;
use crate::strmap::StrMap;
use crate::text::push_str;

verus! {

/// Events of the cron to skill invocation chain; each carries its time.
#[derive(Debug, Clone)]
pub enum ChainEvent {
    /// Cron event received from the scheduler.
    CronEventReceived { job_name: String, timestamp_ms: i64 },
    /// Skill invocation published to the stream.
    SkillInvocationPublished { invocation_id: String, skill_name: String, timestamp_ms: i64 },
    /// Skill progress published.
    SkillProgressPublished { invocation_id: String, percent: u32, message: String, timestamp_ms: i64 },
    /// Skill result received.
    SkillResultReceived { invocation_id: String, success: bool, output_or_error: String, timestamp_ms: i64 },
    /// Text message published as chain summary or error report.
    TextMessagePublished { content: String, timestamp_ms: i64 },
}

/// The type name of an event.
pub open spec fn event_type_name(e: ChainEvent) -> Seq<char> {
    match e {
        ChainEvent::CronEventReceived { .. } => "CronEvent"@,
        ChainEvent::SkillInvocationPublished { .. } => "SkillInvocation"@,
        ChainEvent::SkillProgressPublished { .. } => "SkillProgress"@,
        ChainEvent::SkillResultReceived { .. } => "SkillResult"@,
        ChainEvent::TextMessagePublished { .. } => "TextMessage"@,
    }
}

/// The time of an event.
pub open spec fn event_time(e: ChainEvent) -> i64 {
    match e {
        ChainEvent::CronEventReceived { timestamp_ms, .. } => timestamp_ms,
        ChainEvent::SkillInvocationPublished { timestamp_ms, .. } => timestamp_ms,
        ChainEvent::SkillProgressPublished { timestamp_ms, .. } => timestamp_ms,
        ChainEvent::SkillResultReceived { timestamp_ms, .. } => timestamp_ms,
        ChainEvent::TextMessagePublished { timestamp_ms, .. } => timestamp_ms,
    }
}

impl ChainEvent {
    /// The event type name.
    pub fn kind_name(&self) -> (s: &'static str)
        ensures
            s@ == event_type_name(*self),
    {
        match self {
            ChainEvent::CronEventReceived { .. } => "CronEvent",
            ChainEvent::SkillInvocationPublished { .. } => "SkillInvocation",
            ChainEvent::SkillProgressPublished { .. } => "SkillProgress",
            ChainEvent::SkillResultReceived { .. } => "SkillResult",
            ChainEvent::TextMessagePublished { .. } => "TextMessage",
        }
    }

    /// The time of the event in milliseconds.
    pub fn timestamp_ms(&self) -> (t: i64)
        ensures
            t == event_time(*self),
    {
        match self {
            ChainEvent::CronEventReceived { timestamp_ms, .. } => *timestamp_ms,
            ChainEvent::SkillInvocationPublished { timestamp_ms, .. } => *timestamp_ms,
            ChainEvent::SkillProgressPublished { timestamp_ms, .. } => *timestamp_ms,
            ChainEvent::SkillResultReceived { timestamp_ms, .. } => *timestamp_ms,
            ChainEvent::TextMessagePublished { timestamp_ms, .. } => *timestamp_ms,
        }
    }
}

/// Outcome of a chain execution.
#[derive(Debug, Clone)]
pub struct ChainOutcome {
    /// The events of the chain, in order.
    pub events: Vec<ChainEvent>,
    pub success: bool,
    /// Summary for the published text message.
    pub summary_text: String,
}

/// Errors of a chain execution.
#[derive(Debug, Clone, PartialEq, Eq)]
pub enum ChainError {
    DispatchFailed { job_name: String, reason: String },
    InvocationFailed { job_name: String, reason: String },
    ChannelClosed { job_name: String },
}

pub open spec fn chain_error_code(e: ChainError) -> Seq<char> {
    match e {
        ChainError::DispatchFailed { .. } => "CHAIN_DISPATCH_FAILED"@,
        ChainError::InvocationFailed { .. } => "SKILL_INVOCATION_FAILED"@,
        ChainError::ChannelClosed { .. } => "CHAIN_CHANNEL_CLOSED"@,
    }
}

pub open spec fn chain_error_message(e: ChainError) -> Seq<char> {
    match e {
        ChainError::DispatchFailed { job_name, reason } => "chain dispatch failed for job '"@ + job_name@ + "': "@
            + reason@,
        ChainError::InvocationFailed { job_name, reason } => "skill invocation failed for job '"@ + job_name@
            + "': "@ + reason@,
        ChainError::ChannelClosed { job_name } => "channel closed unexpectedly during chain for job '"@ + job_name@
            + "'"@,
    }
}

impl ChainError {
    /// Error code in SCREAMING_SNAKE_CASE.
    pub fn code(&self) -> (c: &'static str)
        ensures
            c@ == chain_error_code(*self),
    {
        match self {
            ChainError::DispatchFailed { .. } => "CHAIN_DISPATCH_FAILED",
            ChainError::InvocationFailed { .. } => "SKILL_INVOCATION_FAILED",
            ChainError::ChannelClosed { .. } => "CHAIN_CHANNEL_CLOSED",
        }
    }

    /// The display text of the error.
    pub fn message(&self) -> (m: String)
        ensures
            m@ == chain_error_message(*self),
    {
        let mut out = String::new();
        match self {
            ChainError::DispatchFailed { job_name, reason } => {
                push_str(&mut out, "chain dispatch failed for job '");
                push_str(&mut out, job_name.as_str());
                push_str(&mut out, "': ");
                push_str(&mut out, reason.as_str());
            },
            ChainError::InvocationFailed { job_name, reason } => {
                push_str(&mut out, "skill invocation failed for job '");
                push_str(&mut out, job_name.as_str());
                push_str(&mut out, "': ");
                push_str(&mut out, reason.as_str());
            },
            ChainError::ChannelClosed { job_name } => {
                push_str(&mut out, "channel closed unexpectedly during chain for job '");
                push_str(&mut out, job_name.as_str());
                push_str(&mut out, "'");
            },
        }
        assert(out@ =~= chain_error_message(*self));
        out
    }
}

/// Type of surface notification.
#[derive(Debug, Clone, Copy, PartialEq, Eq, Structural)]
pub enum NotificationType {
    SkillFailure,
    CronChainError,
}

/// Notification sent to operator surfaces when a chain fails.
#[derive(Debug, Clone)]
pub struct SurfaceNotification {
    pub notification_type: NotificationType,
    pub message: String,
    pub metadata: StrMap<String>,
}

} // verus!
