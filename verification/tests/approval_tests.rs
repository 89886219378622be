use wh_broker::deploy::approval::{
    format_approval_message, is_expired, is_expired_at, parse_approval_response, ApprovalError, ApprovalRequest,
    ApprovalResponse, PendingApproval,
};

fn now_ms() -> u64 {
    std::time::SystemTime::now().duration_since(std::time::UNIX_EPOCH).unwrap().as_millis() as u64
}

#[test]
fn parse_approval_yes_variants() {
    assert_eq!(parse_approval_response("yes"), ApprovalResponse::Approved);
    assert_eq!(parse_approval_response("YES"), ApprovalResponse::Approved);
    assert_eq!(parse_approval_response("approve"), ApprovalResponse::Approved);
    assert_eq!(parse_approval_response("Approved"), ApprovalResponse::Approved);
    assert_eq!(parse_approval_response("ok"), ApprovalResponse::Approved);
    assert_eq!(parse_approval_response("OK"), ApprovalResponse::Approved);
}

#[test]
fn parse_approval_no_variants() {
    assert_eq!(parse_approval_response("no"), ApprovalResponse::Rejected);
    assert_eq!(parse_approval_response("NO"), ApprovalResponse::Rejected);
    assert_eq!(parse_approval_response("reject"), ApprovalResponse::Rejected);
    assert_eq!(parse_approval_response("rejected"), ApprovalResponse::Rejected);
    assert_eq!(parse_approval_response("deny"), ApprovalResponse::Rejected);
    assert_eq!(parse_approval_response("denied"), ApprovalResponse::Rejected);
}

#[test]
fn parse_approval_unrecognized() {
    assert!(matches!(parse_approval_response("maybe later"), ApprovalResponse::Unrecognized(_)));
    assert!(matches!(parse_approval_response("hello world"), ApprovalResponse::Unrecognized(_)));
}

#[test]
fn parse_approval_trims_whitespace() {
    assert_eq!(parse_approval_response("  yes  "), ApprovalResponse::Approved);
    assert_eq!(parse_approval_response("  no  "), ApprovalResponse::Rejected);
}

#[test]
fn is_expired_returns_true_after_timeout() {
    let pending = PendingApproval {
        id: "test-1".to_string(),
        agent_name: "donna".to_string(),
        requested_at_ms: now_ms() - 100_000,
        timeout_secs: 60,
        wh_path: "/tmp/test.wh".to_string(),
    };
    assert!(is_expired(&pending));
}

#[test]
fn is_expired_returns_false_within_timeout() {
    let pending = PendingApproval {
        id: "test-2".to_string(),
        agent_name: "donna".to_string(),
        requested_at_ms: now_ms(),
        timeout_secs: 3600,
        wh_path: "/tmp/test.wh".to_string(),
    };
    assert!(!is_expired(&pending));
}

#[test]
fn approval_error_codes_are_screaming_snake_case() {
    assert_eq!(ApprovalError::Timeout("t".into()).code(), "APPROVAL_TIMEOUT");
    assert_eq!(ApprovalError::Rejected("r".into()).code(), "APPROVAL_REJECTED");
    assert_eq!(ApprovalError::InvalidResponse("i".into()).code(), "INVALID_APPROVAL_RESPONSE");
}

#[test]
fn format_approval_message_includes_all_fields() {
    let request = ApprovalRequest {
        what: "Scale researcher from 1 to 3".to_string(),
        why: "High error rate".to_string(),
        impact_level: "High".to_string(),
        instruction: "Reply 'yes' to approve".to_string(),
    };
    let msg = format_approval_message(&request);
    assert!(msg.contains("High"));
    assert!(msg.contains("Scale researcher"));
    assert!(msg.contains("High error rate"));
    assert!(msg.contains("Reply 'yes'"));
    assert_eq!(
        msg,
        "APPROVAL REQUIRED\nImpact: High\nChange: Scale researcher from 1 to 3\nReason: High error rate\n\nReply 'yes' to approve"
    );
}

#[test]
fn is_expired_at_boundary() {
    let pending = PendingApproval {
        id: "b".to_string(),
        agent_name: "donna".to_string(),
        requested_at_ms: 1_000,
        timeout_secs: 2,
        wh_path: "x.wh".to_string(),
    };
    assert!(!is_expired_at(&pending, 2_999));
    assert!(is_expired_at(&pending, 3_000));
    assert!(!is_expired_at(&pending, 500));
}

#[test]
fn unrecognized_response_keeps_text() {
    match parse_approval_response("  Maybe ") {
        ApprovalResponse::Unrecognized(t) => assert_eq!(t, "  Maybe "),
        other => panic!("unexpected {other:?}"),
    }
}

#[test]
fn approval_error_messages() {
    assert_eq!(ApprovalError::Timeout("t".into()).message(), "approval request timed out: t");
    assert_eq!(ApprovalError::Rejected("r".into()).message(), "approval request rejected: r");
    assert_eq!(ApprovalError::InvalidResponse("i".into()).message(), "invalid approval response: i");
}
