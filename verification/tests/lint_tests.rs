use wh_broker::deploy::lint::{lint_topology, validate_volume_mounts};
use wh_broker::deploy::merge::ComponentSourceMap;
use wh_broker::deploy::{Agent, DeployError, SubsystemDecl, Topology, VolumeMount};

fn agent(name: &str, volumes: Vec<VolumeMount>) -> Agent {
    Agent {
        name: name.to_string(),
        image: format!("{name}:latest"),
        replicas: 1,
        streams: vec![],
        persona: None,
        skills: None,
        topology_edit: None,
        volumes,
        env: None,
    }
}

fn vol(name: &str, mount: &str, mode: Option<&str>) -> VolumeMount {
    VolumeMount { name: name.to_string(), mount: mount.to_string(), mount_mode: mode.map(|m| m.to_string()) }
}

fn topology(name: &str, agents: Vec<Agent>) -> Topology {
    Topology {
        api_version: "wheelhouse.dev/v1".to_string(),
        name: name.to_string(),
        broker: None,
        skills_repo: None,
        agents,
        streams: vec![],
        surfaces: vec![],
        guardrails: None,
        subsystems: vec![],
    }
}

#[test]
fn validate_volume_mounts_passes_for_normal_subsystem() {
    let t = topology(
        "lab",
        vec![
            agent("librarian-research", vec![vol("wh-lab-llm-wiki-research", "/workspace/.library", Some("rw"))]),
            agent("agent-a", vec![vol("wh-lab-llm-wiki-research", "/workspace/.library", Some("ro"))]),
        ],
    );
    let result = validate_volume_mounts(&t);
    assert!(result.is_ok(), "expected ok, got: {result:?}");
}

#[test]
fn validate_volume_mounts_rejects_collision_with_standard_volume() {
    let t = topology("lab", vec![agent("librarian", vec![vol("wh-lab-wal", "/data", Some("rw"))])]);
    let err = validate_volume_mounts(&t).unwrap_err();
    let msg = err.message();
    assert!(msg.contains("Duplicate volume name") && msg.contains("wh-lab-wal"), "expected duplicate volume error, got: {msg}");
}

#[test]
fn validate_volume_mounts_rejects_multiple_rw_mounts() {
    let t = topology(
        "lab",
        vec![
            agent("agent-a", vec![vol("shared-vol", "/data", Some("rw"))]),
            agent("agent-b", vec![vol("shared-vol", "/data", Some("rw"))]),
        ],
    );
    let err = validate_volume_mounts(&t).unwrap_err();
    let msg = err.message();
    assert!(
        msg.contains("multiple rw mounts") && msg.contains("agent-a") && msg.contains("agent-b"),
        "expected single-writer violation, got: {msg}"
    );
}

#[test]
fn validate_volume_mounts_default_mode_is_rw() {
    let t = topology(
        "lab",
        vec![agent("agent-a", vec![vol("shared-vol", "/data", None)]), agent("agent-b", vec![vol("shared-vol", "/data", None)])],
    );
    let err = validate_volume_mounts(&t).unwrap_err();
    let msg = err.message();
    assert!(msg.contains("multiple rw mounts"), "expected single-writer violation for default rw, got: {msg}");
}

#[test]
fn validate_volume_mounts_no_volumes_passes() {
    let t = topology("dev", vec![agent("researcher", vec![])]);
    let result = validate_volume_mounts(&t);
    assert!(result.is_ok());
}

#[test]
fn lint_topology_expands_then_validates() {
    let mut t = topology("lab", vec![agent("agent-a", vec![])]);
    t.subsystems.push(SubsystemDecl {
        path: "subsystems/llm-wiki/".to_string(),
        members: vec!["agent-a".to_string()],
        library_name: None,
        locales: None,
        decision_prompt: None,
    });
    let map = ComponentSourceMap::from_topology(&t, "topology.wh");
    let linted = lint_topology(t, "topology.wh".to_string(), map).unwrap();
    assert_eq!(linted.topology().name, "lab");
    assert_eq!(linted.source_path(), "topology.wh");
    assert!(linted.topology().agents.iter().any(|a| a.name == "librarian-lab"));
    assert!(linted.topology().subsystems.is_empty());
}

#[test]
fn lint_topology_reports_expansion_failure() {
    let mut t = topology("lab", vec![agent("agent-a", vec![])]);
    t.subsystems.push(SubsystemDecl {
        path: "subsystems/unknown/".to_string(),
        members: vec!["agent-a".to_string()],
        library_name: None,
        locales: None,
        decision_prompt: None,
    });
    let map = ComponentSourceMap::from_topology(&t, "topology.wh");
    let err = lint_topology(t, "topology.wh".to_string(), map).unwrap_err();
    assert!(matches!(err, DeployError::SubsystemExpansionFailed(_)));
}

use wh_broker::deploy::merge::{merge_topology_files, wh_file_order};

fn file(name: &str, agents: Vec<Agent>, streams: Vec<wh_broker::deploy::Stream>) -> (String, Topology) {
    let mut t = topology("dev", agents);
    t.streams = streams;
    (name.to_string(), t)
}

fn stream(name: &str) -> wh_broker::deploy::Stream {
    wh_broker::deploy::Stream { name: name.to_string(), retention: None, description: None }
}

#[test]
fn lint_folder_merges_multiple_files() {
    let files = vec![file("01-base.wh", vec![agent("researcher", vec![])], vec![]), file("02-streams.wh", vec![], vec![stream("main")])];
    let (t, _) = merge_topology_files("/ws", files).unwrap();
    assert_eq!(t.name, "dev");
    assert_eq!(t.agents.len(), 1);
    assert_eq!(t.streams.len(), 1);
    assert_eq!(t.agents[0].name, "researcher");
    assert_eq!(t.streams[0].name, "main");
}

#[test]
fn lint_folder_detects_duplicate_agent_names() {
    let files = vec![file("a.wh", vec![agent("researcher", vec![])], vec![]), file("b.wh", vec![agent("researcher", vec![])], vec![])];
    let err = merge_topology_files("/ws", files).unwrap_err();
    let msg = err.message();
    assert!(msg.contains("duplicate agent name 'researcher'"), "got: {msg}");
}

#[test]
fn lint_folder_detects_api_version_mismatch() {
    let mut second = file("b.wh", vec![], vec![]);
    second.1.api_version = "wheelhouse.dev/v2".to_string();
    let files = vec![file("a.wh", vec![], vec![]), second];
    let err = merge_topology_files("/ws", files).unwrap_err();
    assert!(err.message().contains("api_version") || err.message().contains("apiVersion"));
}

#[test]
fn lint_folder_empty_directory_errors() {
    let err = merge_topology_files("/ws/empty", vec![]).unwrap_err();
    assert!(err.message().contains("no .wh files found"), "got: {}", err.message());
}

#[test]
fn lint_folder_source_map_populated() {
    let files = vec![file("agents.wh", vec![agent("donna", vec![])], vec![]), file("streams.wh", vec![], vec![stream("main")])];
    let (_, map) = merge_topology_files("/ws", files).unwrap();
    assert_eq!(map.source_file("agent:donna"), Some("agents.wh"));
    assert_eq!(map.source_file("stream:main"), Some("streams.wh"));
}

#[test]
fn wh_file_order_filters_and_sorts() {
    let names: Vec<String> = vec!["b.wh", "notes.md", "a.wh", ".wh", "c.wh.bak", "01-base.wh"].into_iter().map(String::from).collect();
    assert_eq!(wh_file_order(&names), vec!["01-base.wh".to_string(), "a.wh".to_string(), "b.wh".to_string()]);
}

#[test]
fn folder_merge_concatenates_components_in_file_order() {
    let files = vec![
        file("01-a.wh", vec![agent("zeta", vec![]), agent("alpha", vec![])], vec![stream("s2")]),
        file("02-b.wh", vec![agent("mid", vec![])], vec![stream("s1")]),
    ];
    let (t, _) = merge_topology_files("/ws", files).unwrap();
    let names: Vec<&str> = t.agents.iter().map(|a| a.name.as_str()).collect();
    assert_eq!(names, vec!["zeta", "alpha", "mid"]);
    let streams: Vec<&str> = t.streams.iter().map(|s| s.name.as_str()).collect();
    assert_eq!(streams, vec!["s2", "s1"]);
    assert!(t.broker.is_none() && t.guardrails.is_none());
}

#[test]
fn source_map_from_topology_holds_only_component_keys() {
    let mut t = topology("dev", vec![agent("donna", vec![])]);
    t.streams = vec![stream("main")];
    let map = ComponentSourceMap::from_topology(&t, "dev.wh");
    assert_eq!(map.source_file("agent:donna"), Some("dev.wh"));
    assert_eq!(map.source_file("stream:main"), Some("dev.wh"));
    assert_eq!(map.source_file("stream:donna"), None);
    assert_eq!(map.source_file("agent:main"), None);
    assert_eq!(map.source_file("donna"), None);
}

#[test]
fn folder_merge_maps_each_component_to_its_file() {
    let files = vec![
        file("01-a.wh", vec![agent("zeta", vec![]), agent("alpha", vec![])], vec![stream("main")]),
        file("02-b.wh", vec![agent("mid", vec![])], vec![stream("side")]),
    ];
    let (_, map) = merge_topology_files("/ws", files).unwrap();
    assert_eq!(map.source_file("agent:zeta"), Some("01-a.wh"));
    assert_eq!(map.source_file("agent:alpha"), Some("01-a.wh"));
    assert_eq!(map.source_file("agent:mid"), Some("02-b.wh"));
    assert_eq!(map.source_file("stream:side"), Some("02-b.wh"));
    assert_eq!(map.source_file("surface:main"), None);
}

#[test]
fn folder_merge_refuses_a_name_repeated_within_one_file() {
    let files = vec![file("a.wh", vec![agent("x", vec![]), agent("x", vec![])], vec![])];
    let err = merge_topology_files("/ws", files).unwrap_err();
    assert!(err.message().contains("duplicate agent name 'x'"), "got: {}", err.message());
}

#[test]
fn folder_merge_refuses_two_guardrails_sections() {
    let mut a = file("a.wh", vec![], vec![]);
    let mut b = file("b.wh", vec![], vec![]);
    a.1.guardrails = Some(wh_broker::deploy::Guardrails { max_replicas: Some(3), ..Default::default() });
    b.1.guardrails = Some(wh_broker::deploy::Guardrails { max_replicas: Some(4), ..Default::default() });
    let err = merge_topology_files("/ws", vec![a, b]).unwrap_err();
    assert!(err.message().contains("conflicting guardrails sections"), "got: {}", err.message());
}

#[test]
fn validate_volume_mounts_allows_one_writer_with_readers() {
    let t = topology(
        "lab",
        vec![
            agent("writer", vec![vol("shared-vol", "/data", None)]),
            agent("reader-a", vec![vol("shared-vol", "/data", Some("ro"))]),
            agent("reader-b", vec![vol("shared-vol", "/data", Some("ro"))]),
        ],
    );
    assert!(validate_volume_mounts(&t).is_ok());
    let platform = topology("lab", vec![agent("x", vec![vol("wh-lab-platform", "/etc/wh", Some("ro"))])]);
    let msg = validate_volume_mounts(&platform).unwrap_err().message();
    assert!(msg.contains("Duplicate volume name") && msg.contains("wh-lab-platform"), "got: {msg}");
}
