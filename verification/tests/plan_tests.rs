use wh_broker::deploy::apply::{
    change_summary, check_staged_secrets, commit_message, destroy_step, git_failed, CommittedPlan, DestroyResult, DestroyStep,
};
use wh_broker::deploy::lint::LintedFile;
use wh_broker::deploy::merge::ComponentSourceMap;
use wh_broker::deploy::plan::{plan, plan_with_options, PlanData, PlanOutput};
use wh_broker::deploy::plan_hash::{canonical_changes_json, compute_plan_hash, plan_hash_of_digest};
use wh_broker::deploy::{Agent, Change, ChangeValue, DeployError, Guardrails, Stream, Topology};

fn agent(name: &str, image: &str, replicas: u32) -> Agent {
    Agent {
        name: name.to_string(),
        image: image.to_string(),
        replicas,
        streams: vec![],
        persona: None,
        skills: None,
        topology_edit: None,
        volumes: vec![],
        env: None,
    }
}

fn stream(name: &str, retention: Option<&str>) -> Stream {
    Stream { name: name.to_string(), retention: retention.map(|r| r.to_string()), description: None }
}

fn topo(agents: Vec<Agent>, streams: Vec<Stream>) -> Topology {
    Topology {
        api_version: "wheelhouse.dev/v1".to_string(),
        name: "dev".to_string(),
        broker: None,
        skills_repo: None,
        agents,
        streams,
        surfaces: vec![],
        guardrails: None,
        subsystems: vec![],
    }
}

fn linted(t: Topology) -> LintedFile {
    let map = ComponentSourceMap::from_topology(&t, "topology.wh");
    LintedFile { topology: t, source_path: "topology.wh".to_string(), source_map: map }
}

fn change(op: &str, component: &str, field: Option<&str>, from: Option<ChangeValue>, to: Option<ChangeValue>) -> Change {
    Change {
        op: op.to_string(),
        component: component.to_string(),
        field: field.map(|f| f.to_string()),
        from,
        to,
        source_file: None,
    }
}

#[test]
fn plan_first_deploy_shows_all_additions() {
    let desired = topo(vec![agent("researcher", "r:latest", 1)], vec![stream("main", None)]);
    let plan_output = plan(linted(desired), None).unwrap();
    assert!(plan_output.has_changes());
    assert!(!plan_output.changes().is_empty());
    assert!(plan_output.plan_hash().starts_with("sha256:"));
    assert_eq!(plan_output.topology_name(), "dev");
}

#[test]
fn plan_no_changes_when_state_matches() {
    let mut a = agent("researcher", "r:latest", 1);
    a.streams = vec!["main".to_string()];
    let current = topo(vec![a.clone()], vec![stream("main", Some("7d"))]);
    let desired = topo(vec![a], vec![stream("main", Some("7d"))]);
    let plan_output = plan(linted(desired), Some(current)).unwrap();
    assert!(!plan_output.has_changes());
    assert!(plan_output.changes().is_empty());
}

#[test]
fn plan_detects_replica_change() {
    let current = topo(vec![agent("researcher", "r:latest", 1)], vec![]);
    let desired = topo(vec![agent("researcher", "r:latest", 2)], vec![]);
    let plan_output = plan(linted(desired), Some(current)).unwrap();
    assert!(plan_output.has_changes());
    assert_eq!(plan_output.changes().len(), 1);
    assert_eq!(plan_output.changes()[0].op, "~");
    assert_eq!(plan_output.changes()[0].component, "agent researcher");
    assert_eq!(plan_output.changes()[0].field.as_deref(), Some("replicas"));
    assert_eq!(plan_output.changes()[0].from, Some(ChangeValue::Count(1)));
    assert_eq!(plan_output.changes()[0].to, Some(ChangeValue::Count(2)));
}

#[test]
fn plan_hash_is_deterministic() {
    let desired = || topo(vec![agent("researcher", "r:latest", 1)], vec![]);
    let plan1 = plan(linted(desired()), None).unwrap();
    let plan2 = plan(linted(desired()), None).unwrap();
    assert_eq!(plan1.plan_hash(), plan2.plan_hash());
}

#[test]
fn plan_hash_canonical_ordering() {
    let t1 = topo(vec![agent("alpha", "a:latest", 1), agent("beta", "b:latest", 1)], vec![]);
    let t2 = topo(vec![agent("beta", "b:latest", 1), agent("alpha", "a:latest", 1)], vec![]);
    let plan1 = plan(linted(t1), None).unwrap();
    let plan2 = plan(linted(t2), None).unwrap();
    assert_eq!(plan1.plan_hash(), plan2.plan_hash());
}

#[test]
fn plan_detects_agent_addition() {
    let current = topo(vec![], vec![]);
    let desired = topo(vec![agent("researcher", "r:latest", 1)], vec![]);
    let plan_output = plan(linted(desired), Some(current)).unwrap();
    assert!(plan_output.has_changes());
    assert_eq!(plan_output.changes()[0].op, "+");
}

#[test]
fn plan_detects_agent_removal() {
    let current = topo(vec![agent("researcher", "r:latest", 1)], vec![]);
    let desired = topo(vec![], vec![]);
    let plan_output = plan_with_options(linted(desired), Some(current), true).unwrap();
    assert!(plan_output.has_changes());
    assert_eq!(plan_output.changes()[0].op, "-");
}

#[test]
fn plan_blocks_self_destruct_without_force_flag() {
    let current = topo(vec![agent("researcher", "r:latest", 1)], vec![]);
    let desired = topo(vec![], vec![]);
    let err = plan(linted(desired), Some(current)).unwrap_err();
    assert!(matches!(err, DeployError::PolicyViolation(_)));
    let msg = err.message();
    assert!(msg.contains("self-destruct"), "error should mention self-destruct: {msg}");
    assert!(msg.contains("--force-destroy-all"), "error should mention --force-destroy-all: {msg}");
}

#[test]
fn plan_self_destruct_with_force_includes_warning() {
    let current = topo(vec![agent("researcher", "r:latest", 1)], vec![]);
    let desired = topo(vec![], vec![]);
    let plan_output = plan_with_options(linted(desired), Some(current), true).unwrap();
    assert!(plan_output.has_changes());
    assert!(!plan_output.warnings().is_empty(), "should have self-destruct warning");
    assert!(plan_output.warnings()[0].contains("destroy"), "warning should mention destroy: {}", plan_output.warnings()[0]);
}

#[test]
fn guardrails_max_replicas_blocks_exceeding_replicas() {
    let mut desired = topo(vec![agent("researcher", "r:latest", 5)], vec![]);
    desired.guardrails = Some(Guardrails { max_replicas: Some(3), ..Default::default() });
    let err = plan(linted(desired), None).unwrap_err();
    match err {
        DeployError::PolicyViolation(m) => assert_eq!(m, "agent 'researcher' requests 5 replicas, exceeds max_replicas 3"),
        other => panic!("unexpected {other:?}"),
    }
}

#[test]
fn guardrails_max_replicas_allows_valid_replicas() {
    let mut desired = topo(vec![agent("researcher", "r:latest", 3)], vec![]);
    desired.guardrails = Some(Guardrails { max_replicas: Some(3), ..Default::default() });
    assert!(plan(linted(desired), None).is_ok());
}

#[test]
fn first_deploy_diff_lists_agents_then_streams_in_name_order() {
    let desired = topo(vec![agent("zed", "z:1", 1), agent("amy", "a:1", 2)], vec![stream("main", None)]);
    let p = plan(linted(desired), None).unwrap();
    let comps: Vec<&str> = p.changes().iter().map(|c| c.component.as_str()).collect();
    assert_eq!(comps, vec!["agent amy", "agent zed", "stream main"]);
    assert_eq!(p.changes()[0].to, Some(ChangeValue::AgentSpec { image: "a:1".to_string(), replicas: 2 }));
    assert_eq!(p.changes()[2].to, Some(ChangeValue::Provider("local".to_string())));
    assert_eq!(p.desired_topology().agents[0].name, "amy");
    assert_eq!(p.source_path(), "topology.wh");
    assert_eq!(p.policy_snapshot_hash(), "");
}

#[test]
fn plan_hash_of_empty_plan_is_sha256_of_empty_array() {
    assert_eq!(canonical_changes_json(&[]), "[]");
    assert_eq!(compute_plan_hash(&[]), "sha256:4f53cda18c2baa0c0354bb5f9a3ecbe5ed12ab4d8e11ba873c2f11161202b945");
    assert_eq!(plan_hash_of_digest(&[0x00, 0xab, 0x0f]), "sha256:00ab0f");
}

#[test]
fn canonical_json_sorts_and_writes_compactly() {
    let changes = vec![
        change("~", "stream main", Some("retention"), Some(ChangeValue::OptText(None)), Some(ChangeValue::OptText(Some("7d".to_string())))),
        change("+", "agent researcher", None, None, Some(ChangeValue::AgentSpec { image: "r:latest".to_string(), replicas: 1 })),
    ];
    assert_eq!(
        canonical_changes_json(&changes),
        "[{\"op\":\"+\",\"component\":\"agent researcher\",\"to\":{\"image\":\"r:latest\",\"replicas\":1}},{\"op\":\"~\",\"component\":\"stream main\",\"field\":\"retention\",\"from\":null,\"to\":\"7d\"}]"
    );
    let single = vec![changes[1].clone()];
    assert_eq!(
        compute_plan_hash(&single),
        "sha256:35e453c0d10cbbe7f6b71b710a96237b1a643e419eb948be5100b4977771ec14"
    );
}

#[test]
fn plan_data_display_shows_new_annotations_and_summary() {
    let plan_data = PlanData {
        has_changes: true,
        changes: vec![
            change("+", "agent researcher", None, None, Some(ChangeValue::AgentSpec { image: "r:latest".to_string(), replicas: 1 })),
            change("+", "stream main", None, None, Some(ChangeValue::Provider("local".to_string()))),
        ],
        plan_hash: "sha256:abc123".to_string(),
        topology_name: "dev".to_string(),
        policy_snapshot_hash: String::new(),
        warnings: vec![],
    };
    let output = plan_data.render();
    assert!(output.contains("+ agent researcher (new)"), "should show (new): {output}");
    assert!(output.contains("+ stream main (new, provider: local)"), "should show stream with provider: {output}");
    assert!(output.contains("2 to create"), "should show create count: {output}");
    assert!(output.contains("0 to update"), "should show update count: {output}");
    assert!(output.contains("0 to destroy"), "should show destroy count: {output}");
}

#[test]
fn plan_data_display_shows_no_changes_message() {
    let plan_data = PlanData {
        has_changes: false,
        changes: vec![],
        plan_hash: "sha256:empty".to_string(),
        topology_name: "dev".to_string(),
        policy_snapshot_hash: String::new(),
        warnings: vec![],
    };
    let output = plan_data.render();
    assert!(output.contains("No changes"), "should show no changes: {output}");
    assert!(output.contains("up-to-date"), "should show up-to-date: {output}");
}

#[test]
fn plan_data_display_shows_destroy_annotation() {
    let plan_data = PlanData {
        has_changes: true,
        changes: vec![change("-", "agent researcher", None, None, None)],
        plan_hash: "sha256:abc".to_string(),
        topology_name: "dev".to_string(),
        policy_snapshot_hash: String::new(),
        warnings: vec![],
    };
    let output = plan_data.render();
    assert!(output.contains("- agent researcher (destroy)"), "should show (destroy): {output}");
    assert!(output.contains("1 to destroy"), "should show destroy count: {output}");
}

#[test]
fn plan_data_display_exact_text() {
    let plan_data = PlanData {
        has_changes: true,
        changes: vec![change("~", "agent r", Some("image"), Some(ChangeValue::Text("a:1".to_string())), Some(ChangeValue::Text("a:2".to_string())))],
        plan_hash: "sha256:h".to_string(),
        topology_name: "dev".to_string(),
        policy_snapshot_hash: String::new(),
        warnings: vec!["careful".to_string()],
    };
    assert_eq!(
        plan_data.render(),
        "Changes detected in topology 'dev':\n\n  ~ agent r image: \"a:1\" -> \"a:2\"\n\n0 to create \u{00B7} 1 to update \u{00B7} 0 to destroy\n\nPlan hash: sha256:h\nWarning: careful\n"
    );
}

fn plan_output(changes: Vec<Change>) -> PlanOutput {
    PlanOutput {
        has_changes: !changes.is_empty(),
        changes,
        plan_hash: "sha256:abc".to_string(),
        topology_name: "dev".to_string(),
        policy_snapshot_hash: String::new(),
        warnings: vec![],
        desired_topology: topo(vec![], vec![]),
        source_path: "test.wh".to_string(),
    }
}

#[test]
fn change_summary_formats_correctly() {
    let p = plan_output(vec![change("~", "agent researcher", Some("replicas"), Some(ChangeValue::Count(1)), Some(ChangeValue::Count(2)))]);
    assert_eq!(change_summary(&p), "update agent researcher replicas");
}

#[test]
fn change_summary_handles_additions() {
    let p = plan_output(vec![change("+", "agent donna", None, None, None)]);
    assert_eq!(change_summary(&p), "add agent donna");
}

#[test]
fn commit_message_follows_adr003() {
    let p = plan_output(vec![change("+", "agent donna", None, None, None), change("-", "stream old", None, None, None)]);
    assert_eq!(commit_message(&p, None), "[operator] apply: add agent donna, remove stream old\n\nPlan: sha256:abc");
    assert_eq!(commit_message(&plan_output(vec![]), Some("donna")), "[donna] apply: no changes\n\nPlan: sha256:abc");
    let committed = CommittedPlan::from_plan(p);
    assert_eq!(committed.plan_hash(), "sha256:abc");
    assert!(committed.result_without_changes().is_none());
    let empty = CommittedPlan::from_plan(plan_output(vec![]));
    assert_eq!(empty.result_without_changes().unwrap().created, 0);
}

#[test]
fn destroy_result_display() {
    let result = DestroyResult { destroyed: 2, streams_removed: 1, surfaces_destroyed: 0 };
    let display = result.render();
    assert!(display.contains("2 destroyed"), "should show destroyed count: {display}");
    assert!(display.contains("1 streams removed"), "should show streams removed: {display}");
    assert_eq!(display, "2 destroyed \u{00B7} 1 streams removed");
}

#[test]
fn destroy_commit_uses_adr003_format() {
    let t = topo(vec![agent("researcher", "r:1", 1), agent("donna", "d:1", 1)], vec![stream("main", None)]);
    match destroy_step(Some(t), Some("donna")) {
        DestroyStep::Teardown { containers, cleared, commit_message, result } => {
            assert!(commit_message.starts_with("[donna] destroy:"), "commit should start with '[donna] destroy:': {commit_message}");
            assert_eq!(commit_message, "[donna] destroy: removed 2 agents, removed 1 stream");
            assert_eq!(containers, vec!["wh-dev-researcher".to_string(), "wh-dev-donna".to_string()]);
            assert!(cleared.agents.is_empty() && cleared.streams.is_empty());
            assert_eq!(cleared.name, "dev");
            assert_eq!(result, DestroyResult { destroyed: 2, streams_removed: 1, surfaces_destroyed: 0 });
        }
        DestroyStep::Nothing => panic!("a deployed topology must be torn down"),
    }
}

#[test]
fn destroy_without_state_is_noop() {
    assert!(matches!(destroy_step(None, None), DestroyStep::Nothing));
    assert!(matches!(destroy_step(Some(topo(vec![], vec![])), None), DestroyStep::Nothing));
    match destroy_step(Some(topo(vec![agent("a", "a:1", 1)], vec![])), None) {
        DestroyStep::Teardown { commit_message, .. } => assert_eq!(commit_message, "[operator] destroy: removed 1 agent"),
        DestroyStep::Nothing => panic!("one agent to remove"),
    }
}

#[test]
fn git_failures_and_secret_checks() {
    match git_failed("commit", "boom") {
        DeployError::GitFailed(m) => assert_eq!(m, "git commit failed: boom"),
        other => panic!("unexpected {other:?}"),
    }
    assert!(check_staged_secrets(vec![]).is_ok());
    assert_eq!(
        check_staged_secrets(vec![".wh/api.token".to_string()]).unwrap_err(),
        DeployError::SecretsDetected(vec![".wh/api.token".to_string()])
    );
}
