//! Human approval of autonomous changes that exceed the configured
//! threshold: the request sent to the operator, the reading of the
//! operator's answer, and the expiry of a pending request.

use vstd::prelude::*;
use crate::text::{lowercase, push_str, str_eq, string_of, to_lowercase, trim, trim_str};
use vstd::string::StringExecFns;

verus! {

/// Default approval timeout: 24 hours, in seconds.
pub const DEFAULT_APPROVAL_TIMEOUT_SECS: u64 = 86400;

/// A pending approval request awaiting a human response.
#[derive(Debug)]
pub struct PendingApproval {
    /// Unique identifier for this approval request.
    pub id: String,
    /// Name of the agent that proposed the change.
    pub agent_name: String,
    /// When the approval was requested, in milliseconds since the Unix epoch.
    pub requested_at_ms: u64,
    /// How long to wait for a response before expiring, in seconds.
    pub timeout_secs: u64,
    /// Path of the `.wh` file that would be modified.
    pub wh_path: String,
}

/// A formatted approval request to send to the operator via a surface.
#[derive(Debug, Clone)]
pub struct ApprovalRequest {
    /// What change is being proposed.
    pub what: String,
    /// Why the change is being proposed.
    pub why: String,
    /// The classified impact level (e.g. "High", "Medium").
    pub impact_level: String,
    /// Instructions for the operator on how to respond.
    pub instruction: String,
}

/// The operator's response to an approval request.
#[derive(Debug, Clone, PartialEq, Eq)]
pub enum ApprovalResponse {
    Approved,
    Rejected,
    /// Neither approval nor rejection; holds the text as given.
    Unrecognized(String),
}

/// Errors of the approval process.
#[derive(Debug, Clone, PartialEq, Eq)]
pub enum ApprovalError {
    Timeout(String),
    Rejected(String),
    InvalidResponse(String),
}

pub open spec fn approval_error_code(e: ApprovalError) -> Seq<char> {
    match e {
        ApprovalError::Timeout(_) => "APPROVAL_TIMEOUT"@,
        ApprovalError::Rejected(_) => "APPROVAL_REJECTED"@,
        ApprovalError::InvalidResponse(_) => "INVALID_APPROVAL_RESPONSE"@,
    }
}

pub open spec fn approval_error_message(e: ApprovalError) -> Seq<char> {
    match e {
        ApprovalError::Timeout(m) => "approval request timed out: "@ + m@,
        ApprovalError::Rejected(m) => "approval request rejected: "@ + m@,
        ApprovalError::InvalidResponse(m) => "invalid approval response: "@ + m@,
    }
}

impl ApprovalError {
    /// Returns the error code string in SCREAMING_SNAKE_CASE.
    pub fn code(&self) -> (c: &'static str)
        ensures
            c@ == approval_error_code(*self),
    {
        match self {
            ApprovalError::Timeout(_) => "APPROVAL_TIMEOUT",
            ApprovalError::Rejected(_) => "APPROVAL_REJECTED",
            ApprovalError::InvalidResponse(_) => "INVALID_APPROVAL_RESPONSE",
        }
    }

    /// The display text of the error.
    pub fn message(&self) -> (m: String)
        ensures
            m@ == approval_error_message(*self),
    {
        let mut out = String::new();
        match self {
            ApprovalError::Timeout(m) => {
                push_str(&mut out, "approval request timed out: ");
                push_str(&mut out, m.as_str());
            },
            ApprovalError::Rejected(m) => {
                push_str(&mut out, "approval request rejected: ");
                push_str(&mut out, m.as_str());
            },
            ApprovalError::InvalidResponse(m) => {
                push_str(&mut out, "invalid approval response: ");
                push_str(&mut out, m.as_str());
            },
        }
        assert(out@ =~= approval_error_message(*self));
        out
    }
}

/// The words that approve a change.
pub open spec fn is_approval_word(w: Seq<char>) -> bool {
    w == "yes"@ || w == "approve"@ || w == "approved"@ || w == "ok"@
}

/// The words that reject a change.
pub open spec fn is_rejection_word(w: Seq<char>) -> bool {
    w == "no"@ || w == "reject"@ || w == "rejected"@ || w == "deny"@ || w == "denied"@
}

/// Classify an operator answer given its normalized form (trimmed and
/// lower-cased): an approval word approves, a rejection word rejects,
/// anything else is unrecognized and keeps the original text.
pub fn classify_approval_text(text: &str, normalized: &str) -> (r: ApprovalResponse)
    ensures
        is_approval_word(normalized@) ==> r == ApprovalResponse::Approved,
        !is_approval_word(normalized@) && is_rejection_word(normalized@) ==> r == ApprovalResponse::Rejected,
        !is_approval_word(normalized@) && !is_rejection_word(normalized@) ==> r is Unrecognized
            && r->Unrecognized_0@ == text@,
{
    if str_eq(normalized, "yes") || str_eq(normalized, "approve")
        || str_eq(normalized, "approved") || str_eq(normalized, "ok") {
        return ApprovalResponse::Approved;
    }
    if str_eq(normalized, "no") || str_eq(normalized, "reject")
        || str_eq(normalized, "rejected") || str_eq(normalized, "deny")
        || str_eq(normalized, "denied") {
        return ApprovalResponse::Rejected;
    }
    ApprovalResponse::Unrecognized(String::from_str(text))
}

/// Parse an operator's text response: trimmed of Unicode whitespace and
/// lower-cased, "yes", "approve", "approved" or "ok" approve; "no",
/// "reject", "rejected", "deny" or "denied" reject; anything else is
/// unrecognized.
pub fn parse_approval_response(text: &str) -> (r: ApprovalResponse)
    ensures
        ({
            let n = lowercase(trim(text@));
            &&& is_approval_word(n) ==> r == ApprovalResponse::Approved
            &&& !is_approval_word(n) && is_rejection_word(n) ==> r == ApprovalResponse::Rejected
            &&& !is_approval_word(n) && !is_rejection_word(n) ==> r is Unrecognized && r->Unrecognized_0@ == text@
        }),
{
    let t = trim_str(text);
    let ts = string_of(t.as_slice());
    let normalized = to_lowercase(ts.as_str());
    classify_approval_text(text, normalized.as_str())
}

/// Whether a request made at `requested_at_ms` with a timeout of
/// `timeout_secs` has expired at `now_ms`: the elapsed time (none when the
/// clock reads earlier than the request) has reached the timeout.
pub open spec fn expired_at(requested_at_ms: u64, timeout_secs: u64, now_ms: u64) -> bool {
    let elapsed: int = if now_ms >= requested_at_ms { now_ms - requested_at_ms } else { 0 };
    elapsed >= timeout_secs * 1000
}

/// Whether a pending approval has expired at the given clock reading.
pub fn is_expired_at(pending: &PendingApproval, now_ms: u64) -> (b: bool)
    ensures
        b == expired_at(pending.requested_at_ms, pending.timeout_secs, now_ms),
{
    let elapsed: u64 = if now_ms >= pending.requested_at_ms { now_ms - pending.requested_at_ms } else { 0 };
    (elapsed as u128) >= (pending.timeout_secs as u128) * 1000
}

/// Check whether a pending approval request has expired now. Before the
/// Unix epoch the clock counts as reading zero.
pub fn is_expired(pending: &PendingApproval) -> (b: bool)
    ensures
        exists|now: u64| b == expired_at(pending.requested_at_ms, pending.timeout_secs, now),
{
    let now = crate::cron::proto_bridge::now_ms();
    let now_u: u64 = if now < 0 { 0 } else { now as u64 };
    is_expired_at(pending, now_u)
}

/// The text of an approval request message.
pub open spec fn approval_message(r: ApprovalRequest) -> Seq<char> {
    "APPROVAL REQUIRED\nImpact: "@ + r.impact_level@ + "\nChange: "@ + r.what@ + "\nReason: "@ + r.why@ + "\n\n"@
        + r.instruction@
}

/// Format an approval request as a human-readable text message.
pub fn format_approval_message(request: &ApprovalRequest) -> (s: String)
    ensures
        s@ == approval_message(*request),
{
    let mut s = String::new();
    push_str(&mut s, "APPROVAL REQUIRED\nImpact: ");
    push_str(&mut s, request.impact_level.as_str());
    push_str(&mut s, "\nChange: ");
    push_str(&mut s, request.what.as_str());
    push_str(&mut s, "\nReason: ");
    push_str(&mut s, request.why.as_str());
    push_str(&mut s, "\n\n");
    push_str(&mut s, request.instruction.as_str());
    assert(s@ =~= approval_message(*request));
    s
}

} // verus!
