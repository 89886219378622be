use wh_broker::deploy::autonomous::{
    autonomous_commit_summary, classify_impact, evaluate_signal, evaluate_signal_checked, evaluate_threshold, format_notification,
    publish_topology_summary, set_agent_replicas, should_require_approval, smoke_test_read_loop, summarize_topology,
    AutonomousApplyResult, ChangeConfidence, ImpactLevel, ProposedChange, SignalEvaluation, ThresholdDecision,
    TopologySummary,
};
use wh_broker::deploy::{Agent, DeployError, Guardrails, Stream, ThresholdLevel, Topology};

fn make_topology(agents: Vec<Agent>, guardrails: Option<Guardrails>) -> Topology {
    Topology {
        api_version: "wheelhouse.dev/v1".to_string(),
        name: "dev".to_string(),
        broker: None,
        skills_repo: None,
        agents,
        streams: vec![],
        surfaces: vec![],
        guardrails,
        subsystems: vec![],
    }
}

fn make_agent(name: &str, replicas: u32) -> Agent {
    Agent {
        name: name.to_string(),
        image: format!("{name}:latest"),
        replicas,
        streams: vec![],
        persona: None,
        skills: None,
        topology_edit: None,
        volumes: vec![],
        env: None,
    }
}

#[test]
fn evaluate_timeout_signal_proposes_scale_up() {
    let topology = make_topology(vec![make_agent("researcher", 1)], None);
    let eval = evaluate_signal("4 daily timeouts on researcher", &topology);
    assert!(eval.is_some());
    let eval = eval.unwrap();
    assert_eq!(
        eval.proposed_change,
        ProposedChange::ScaleAgent { agent_name: "researcher".to_string(), from_replicas: 1, to_replicas: 2 }
    );
    assert!(!eval.justification.is_empty());
    assert_eq!(eval.confidence, ChangeConfidence::High);
}

#[test]
fn evaluate_low_timeout_count_returns_none() {
    let topology = make_topology(vec![make_agent("researcher", 1)], None);
    let eval = evaluate_signal("2 daily timeouts on researcher", &topology);
    assert!(eval.is_none());
}

#[test]
fn evaluate_high_error_rate_proposes_scale_up() {
    let topology = make_topology(vec![make_agent("researcher", 1)], None);
    let eval = evaluate_signal("high error rate on researcher", &topology);
    assert!(eval.is_some());
    let eval = eval.unwrap();
    match eval.proposed_change {
        ProposedChange::ScaleAgent { to_replicas, .. } => assert_eq!(to_replicas, 2),
    }
}

#[test]
fn evaluate_unrecognized_signal_returns_none() {
    let topology = make_topology(vec![make_agent("researcher", 1)], None);
    let eval = evaluate_signal("hello world nothing to see", &topology);
    assert!(eval.is_none());
}

#[test]
fn evaluate_signal_respects_guardrail() {
    let topology = make_topology(
        vec![make_agent("researcher", 1)],
        Some(Guardrails { max_replicas: Some(1), ..Default::default() }),
    );
    let eval = evaluate_signal("4 daily timeouts on researcher", &topology);
    assert!(eval.is_none());
}

#[test]
fn evaluate_signal_nonexistent_agent_returns_none() {
    let topology = make_topology(vec![make_agent("donna", 1)], None);
    let eval = evaluate_signal("4 daily timeouts on researcher", &topology);
    assert!(eval.is_none());
}

#[test]
fn evaluate_signal_case_insensitive() {
    let topology = make_topology(vec![make_agent("researcher", 1)], None);
    let eval = evaluate_signal("4 Daily Timeouts on researcher", &topology);
    assert!(eval.is_some());
}

fn scale(from: u32, to: u32) -> ProposedChange {
    ProposedChange::ScaleAgent { agent_name: "researcher".to_string(), from_replicas: from, to_replicas: to }
}

#[test]
fn classify_impact_high_for_large_scaling() {
    let topology = make_topology(vec![], None);
    assert_eq!(classify_impact(&scale(1, 3), &topology), ImpactLevel::High);
}

#[test]
fn classify_impact_high_for_doubling() {
    let topology = make_topology(vec![], None);
    assert_eq!(classify_impact(&scale(1, 2), &topology), ImpactLevel::High);
}

#[test]
fn classify_impact_medium_for_50_pct() {
    let topology = make_topology(vec![], None);
    assert_eq!(classify_impact(&scale(2, 3), &topology), ImpactLevel::Medium);
}

#[test]
fn classify_impact_low_for_small_increase() {
    let topology = make_topology(vec![], None);
    assert_eq!(classify_impact(&scale(5, 6), &topology), ImpactLevel::Low);
}

#[test]
fn classify_impact_high_for_large_scale_down() {
    let topology = make_topology(vec![], None);
    assert_eq!(classify_impact(&scale(10, 1), &topology), ImpactLevel::High);
}

#[test]
fn classify_impact_medium_for_small_scale_down() {
    let topology = make_topology(vec![], None);
    assert_eq!(classify_impact(&scale(10, 9), &topology), ImpactLevel::Medium);
}

#[test]
fn classify_impact_high_for_zero_replicas() {
    let topology = make_topology(vec![], None);
    assert_eq!(classify_impact(&scale(0, 1), &topology), ImpactLevel::High);
}

#[test]
fn should_require_approval_false_when_no_threshold() {
    assert!(!should_require_approval(&ImpactLevel::High, &None));
    assert!(!should_require_approval(&ImpactLevel::Medium, &None));
    assert!(!should_require_approval(&ImpactLevel::Low, &None));
}

#[test]
fn should_require_approval_low_threshold() {
    let threshold = Some(ThresholdLevel::Low);
    assert!(!should_require_approval(&ImpactLevel::Low, &threshold));
    assert!(should_require_approval(&ImpactLevel::Medium, &threshold));
    assert!(should_require_approval(&ImpactLevel::High, &threshold));
}

#[test]
fn should_require_approval_medium_threshold() {
    let threshold = Some(ThresholdLevel::Medium);
    assert!(!should_require_approval(&ImpactLevel::Low, &threshold));
    assert!(!should_require_approval(&ImpactLevel::Medium, &threshold));
    assert!(should_require_approval(&ImpactLevel::High, &threshold));
}

#[test]
fn should_require_approval_high_threshold() {
    let threshold = Some(ThresholdLevel::High);
    assert!(!should_require_approval(&ImpactLevel::Low, &threshold));
    assert!(!should_require_approval(&ImpactLevel::Medium, &threshold));
    assert!(!should_require_approval(&ImpactLevel::High, &threshold));
}

fn evaluation(from: u32, to: u32, why: &str) -> SignalEvaluation {
    SignalEvaluation {
        signal_summary: "test".to_string(),
        proposed_change: scale(from, to),
        justification: why.to_string(),
        confidence: ChangeConfidence::High,
    }
}

#[test]
fn evaluate_threshold_proceeds_when_no_guardrails() {
    let topology = make_topology(vec![make_agent("researcher", 1)], None);
    let eval = evaluation(1, 3, "test");
    assert!(matches!(evaluate_threshold(&eval, &topology), ThresholdDecision::ProceedAutonomously));
}

#[test]
fn evaluate_threshold_requires_approval_when_exceeds() {
    let topology = make_topology(
        vec![make_agent("researcher", 1)],
        Some(Guardrails { max_replicas: Some(10), autonomous_apply_threshold: Some(ThresholdLevel::Low), ..Default::default() }),
    );
    let eval = evaluation(1, 2, "Scaling up");
    match evaluate_threshold(&eval, &topology) {
        ThresholdDecision::RequiresApproval { request } => {
            assert!(!request.what.is_empty());
            assert!(!request.instruction.is_empty());
            assert_eq!(request.impact_level, "High");
        }
        other => panic!("Expected RequiresApproval, got {:?}", other),
    }
}

#[test]
fn evaluate_threshold_proceeds_when_within_threshold() {
    let topology = make_topology(
        vec![make_agent("researcher", 5)],
        Some(Guardrails { max_replicas: Some(10), autonomous_apply_threshold: Some(ThresholdLevel::Low), ..Default::default() }),
    );
    let eval = evaluation(5, 6, "Scaling up");
    assert!(matches!(evaluate_threshold(&eval, &topology), ThresholdDecision::ProceedAutonomously));
}

#[test]
fn approval_required_error_code() {
    let err = DeployError::ApprovalRequired("test".to_string());
    assert_eq!(err.code(), "APPROVAL_REQUIRED");
}

#[test]
fn notification_contains_required_fields() {
    let result = AutonomousApplyResult {
        commit_summary: "[donna] apply: scale agent researcher replicas to 2".to_string(),
        plan_hash: "sha256:abc123".to_string(),
        changes: vec![],
    };
    let evaluation = SignalEvaluation {
        signal_summary: "4 daily timeouts on researcher".to_string(),
        proposed_change: scale(1, 2),
        justification: "Recurring timeouts suggest insufficient capacity".to_string(),
        confidence: ChangeConfidence::High,
    };
    let notification = format_notification(&result, &evaluation);
    assert!(!notification.what_changed.is_empty());
    assert!(!notification.why.is_empty());
    assert!(!notification.commit_ref.is_empty());
    assert!(notification.what_changed.contains("researcher"));
    assert_eq!(notification.commit_ref, "sha256:abc123");
    assert_eq!(notification.what_changed, "Scaled agent 'researcher' from 1 to 2 replicas");
}

#[test]
fn publish_topology_summary_contains_agent_attribution() {
    let summary = TopologySummary {
        topology_name: "dev".to_string(),
        agent_count: 1,
        stream_count: 1,
        raw_yaml: "api_version: wheelhouse.dev/v1\nname: dev\n".to_string(),
        summary: "Topology 'dev': 1 agent, 1 stream".to_string(),
    };
    let event = publish_topology_summary(&summary, "donna");
    assert_eq!(event.agent_name, "donna");
    assert!(!event.timestamp.is_empty());
    assert!(event.content.contains("wheelhouse.dev/v1"));
}

#[test]
fn modify_replicas_updates_target_agent() {
    let topo = make_topology(vec![make_agent("researcher", 1)], None);
    let modified = set_agent_replicas(topo, "researcher", 2).unwrap();
    assert_eq!(modified.agents[0].replicas, 2);
}

#[test]
fn modify_replicas_errors_on_nonexistent_agent() {
    let topo = make_topology(vec![make_agent("researcher", 1)], None);
    let result = set_agent_replicas(topo, "nonexistent", 2);
    assert!(result.is_err());
}

#[test]
fn modify_replicas_preserves_other_agents() {
    let mut topo = make_topology(vec![make_agent("researcher", 1), make_agent("donna", 1)], None);
    topo.streams.push(Stream { name: "main".to_string(), retention: None, description: None });
    let modified = set_agent_replicas(topo, "researcher", 3).unwrap();
    let donna = modified.agents.iter().find(|a| a.name == "donna").unwrap();
    assert_eq!(donna.replicas, 1);
    assert_eq!(modified.streams.len(), 1);
    assert_eq!(modified.agents[0].replicas, 3);
}

#[test]
fn topology_summary_format_is_human_readable() {
    let mut topo = make_topology(vec![make_agent("donna", 1), make_agent("researcher", 1)], None);
    topo.streams.push(Stream { name: "main".to_string(), retention: None, description: None });
    let s = summarize_topology(&topo, "raw".to_string());
    assert_eq!(s.summary, "Topology 'dev': 2 agents, 1 stream");
    assert_eq!(s.agent_count, 2);
    assert_eq!(s.stream_count, 1);
}

#[test]
fn topology_summary_singular_agent_singular_stream() {
    let mut topo = make_topology(vec![make_agent("donna", 1)], None);
    topo.streams.push(Stream { name: "main".to_string(), retention: None, description: None });
    assert_eq!(summarize_topology(&topo, String::new()).summary, "Topology 'dev': 1 agent, 1 stream");
}

#[test]
fn topology_summary_no_streams() {
    let topo = make_topology(vec![make_agent("donna", 1), make_agent("r", 1)], None);
    assert_eq!(summarize_topology(&topo, String::new()).summary, "Topology 'dev': 2 agents, 0 streams");
}

#[test]
fn publish_event_attributes_agent_identity() {
    let topo = make_topology(vec![make_agent("donna", 1)], None);
    let event = smoke_test_read_loop(&topo, "api_version: wheelhouse.dev/v1\n".to_string(), "donna");
    assert_eq!(event.agent_name, "donna");
    assert_eq!(event.summary, "Topology 'dev': 1 agent, 0 streams");
    assert_eq!(event.content, "api_version: wheelhouse.dev/v1\n");
    assert!(!event.timestamp.is_empty());
    assert!(event.timestamp.contains('T'));
}

#[test]
fn autonomous_commit_summary_marks_human_approval() {
    assert_eq!(autonomous_commit_summary("donna", "researcher", 2, false), "[donna] apply: scale agent researcher replicas to 2");
    assert_eq!(
        autonomous_commit_summary("donna", "researcher", 2, true),
        "[donna] apply: scale agent researcher replicas to 2 (human-approved)"
    );
}

#[test]
fn evaluate_signal_ignores_other_agents_at_the_maximum() {
    let topology = make_topology(vec![make_agent("big", u32::MAX), make_agent("researcher", 2)], None);
    let eval = evaluate_signal("high error rate on researcher", &topology).unwrap();
    assert_eq!(
        eval.proposed_change,
        ProposedChange::ScaleAgent { agent_name: "researcher".to_string(), from_replicas: 2, to_replicas: 3 }
    );
}

#[test]
fn evaluate_signal_checked_refuses_a_full_agent() {
    let topology = make_topology(vec![make_agent("big", u32::MAX), make_agent("researcher", 2)], None);
    assert!(evaluate_signal_checked("4 daily timeouts on big", &topology).is_none());
    assert!(evaluate_signal_checked("2 daily timeouts on big", &topology).unwrap().is_none());
    let eval = evaluate_signal_checked("4 daily timeouts on researcher", &topology).unwrap().unwrap();
    assert_eq!(
        eval.proposed_change,
        ProposedChange::ScaleAgent { agent_name: "researcher".to_string(), from_replicas: 2, to_replicas: 3 }
    );
}
