use wh_broker::deploy::persona::validate_persona_path;
use wh_broker::deploy::{canonicalize_topology, validate_topology, Agent, DeployError, Stream, Surface, Topology};

fn agent(name: &str) -> Agent {
    Agent {
        name: name.to_string(),
        image: format!("{name}:latest"),
        replicas: 1,
        streams: vec![],
        persona: None,
        skills: None,
        topology_edit: None,
        volumes: vec![],
        env: None,
    }
}

fn empty(name: &str) -> Topology {
    Topology {
        api_version: "wheelhouse.dev/v1".to_string(),
        name: name.to_string(),
        broker: None,
        skills_repo: None,
        agents: vec![],
        streams: vec![],
        surfaces: vec![],
        guardrails: None,
        subsystems: vec![],
    }
}

#[test]
fn canonicalize_sorts_agents_and_streams() {
    let mut topo = empty("dev");
    topo.agents = vec![agent("zeta"), agent("alpha")];
    topo.streams = vec![
        Stream { name: "z-stream".to_string(), retention: None, description: None },
        Stream { name: "a-stream".to_string(), retention: None, description: None },
    ];
    let canonical = canonicalize_topology(topo);
    assert_eq!(canonical.agents[0].name, "alpha");
    assert_eq!(canonical.streams[0].name, "a-stream");
}

#[test]
fn canonicalize_sorts_surfaces() {
    let mut topo = empty("dev");
    topo.surfaces = vec![
        Surface { name: "zeta-surface".to_string(), kind: "cli".to_string(), stream: "main".to_string(), env: None, chats: None },
        Surface {
            name: "alpha-surface".to_string(),
            kind: "telegram".to_string(),
            stream: "main".to_string(),
            env: None,
            chats: None,
        },
    ];
    let canonical = canonicalize_topology(topo);
    assert_eq!(canonical.surfaces[0].name, "alpha-surface");
    assert_eq!(canonical.surfaces[1].name, "zeta-surface");
}

#[test]
fn canonicalize_orders_equal_names_by_other_fields() {
    let mut topo = empty("dev");
    let mut first = agent("same");
    first.image = "b".to_string();
    let mut second = agent("same");
    second.image = "a".to_string();
    topo.agents = vec![first, agent("b"), second];
    let canonical = canonicalize_topology(topo);
    let names: Vec<&str> = canonical.agents.iter().map(|a| a.name.as_str()).collect();
    assert_eq!(names, vec!["b", "same", "same"]);
    assert_eq!(canonical.agents[1].image, "a");
    assert_eq!(canonical.agents[2].image, "b");
}

#[test]
fn canonicalize_orders_streams_by_retention_after_name() {
    let mut topo = empty("dev");
    topo.streams = vec![
        Stream { name: "main".to_string(), retention: Some("7d".to_string()), description: None },
        Stream { name: "main".to_string(), retention: None, description: None },
        Stream { name: "main".to_string(), retention: Some("1d".to_string()), description: None },
    ];
    let canonical = canonicalize_topology(topo);
    let r: Vec<Option<String>> = canonical.streams.iter().map(|s| s.retention.clone()).collect();
    assert_eq!(r, vec![None, Some("1d".to_string()), Some("7d".to_string())]);
}

#[test]
fn validate_persona_path_rejects_double_dot() {
    assert!(validate_persona_path("agents/../evil").is_err());
    assert!(validate_persona_path("..").is_err());
    assert!(validate_persona_path("foo/../../bar").is_err());
}

#[test]
fn validate_persona_path_accepts_valid_paths() {
    assert!(validate_persona_path("agents/donna").is_ok());
    assert!(validate_persona_path("agents/donna/").is_ok());
    assert!(validate_persona_path("personas/my-agent-1").is_ok());
}

#[test]
fn validate_topology_checks_version_and_name() {
    assert!(validate_topology(empty("dev")).is_ok());
    let mut bad = empty("dev");
    bad.api_version = "v2".to_string();
    match validate_topology(bad) {
        Err(DeployError::InvalidTopology(m)) => assert_eq!(m, "unsupported api_version: 'v2', expected 'wheelhouse.dev/v1'"),
        other => panic!("unexpected {other:?}"),
    }
    match validate_topology(empty("")) {
        Err(DeployError::InvalidTopology(m)) => assert_eq!(m, "topology name must not be empty"),
        other => panic!("unexpected {other:?}"),
    }
}

#[test]
fn deploy_error_codes_and_messages() {
    assert_eq!(DeployError::PolicyViolation("x".to_string()).code(), "POLICY_VIOLATION");
    assert_eq!(DeployError::PersonaLoadFailed("x".to_string()).code(), "PERSONA_LOAD_FAILED");
    assert_eq!(DeployError::GitTimeout(30).message(), "git operation timed out after 30s");
}

use wh_broker::deploy::persona::{persona_from_reads, FileRead};

fn persona(path: &str, dir_exists: bool, soul: FileRead, identity: FileRead, memory: FileRead) -> Result<wh_broker::deploy::persona::PersonaFiles, DeployError> {
    persona_from_reads("/ws", path, dir_exists, soul, identity, memory)
}

#[test]
fn persona_load_persona_rejects_path_traversal() {
    let result = persona("../evil/", true, FileRead::Missing, FileRead::Missing, FileRead::Missing);
    assert!(result.is_err());
    let err = result.unwrap_err();
    assert!(matches!(err, DeployError::PersonaLoadFailed(_)));
    assert!(err.message().contains("path traversal"));
}

#[test]
fn load_persona_rejects_absolute_path() {
    let result = persona("/etc/passwd", true, FileRead::Missing, FileRead::Missing, FileRead::Missing);
    assert!(result.is_err());
    assert!(result.unwrap_err().message().contains("relative"));
}

#[test]
fn load_persona_rejects_empty_path() {
    let result = persona("", true, FileRead::Missing, FileRead::Missing, FileRead::Missing);
    assert!(result.is_err());
}

#[test]
fn load_persona_nonexistent_directory_returns_error() {
    let result = persona("agents/nonexistent", false, FileRead::Missing, FileRead::Missing, FileRead::Missing);
    assert!(result.is_err());
    let err = result.unwrap_err();
    assert!(err.message().contains("does not exist"));
}

#[test]
fn load_persona_requires_soul_and_identity() {
    let err = persona("agents/donna/", true, FileRead::Missing, FileRead::Content("i".into()), FileRead::Missing).unwrap_err();
    assert_eq!(err, DeployError::PersonaLoadFailed("required persona file SOUL.md not found at '/ws/agents/donna/SOUL.md'".into()));
    let err = persona("agents/donna", true, FileRead::Content("s".into()), FileRead::Failed("denied".into()), FileRead::Missing)
        .unwrap_err();
    assert_eq!(err, DeployError::PersonaLoadFailed("failed to read IDENTITY.md at '/ws/agents/donna/IDENTITY.md': denied".into()));
}

#[test]
fn load_persona_missing_memory_is_empty() {
    let p = persona("agents/donna", true, FileRead::Content("soul".into()), FileRead::Content("id".into()), FileRead::Missing).unwrap();
    assert_eq!(p.soul.as_deref(), Some("soul"));
    assert_eq!(p.identity.as_deref(), Some("id"));
    assert_eq!(p.memory.as_deref(), Some(""));
}

#[test]
fn persona_load_failed_error_code() {
    let err = DeployError::PersonaLoadFailed("test".to_string());
    assert_eq!(err.code(), "PERSONA_LOAD_FAILED");
}

#[test]
fn topology_edit_denied_error_code() {
    let err = DeployError::TopologyEditDenied("test".to_string());
    assert_eq!(err.code(), "TOPOLOGY_EDIT_DENIED");
}

#[test]
fn persona_acceptance_load_persona_rejects_path_traversal() {
    let result = persona("../evil/", false, FileRead::Missing, FileRead::Missing, FileRead::Missing);
    assert!(result.is_err(), "Path traversal should be rejected");
}

#[test]
fn canonicalize_twice_changes_nothing_with_repeated_names() {
    let mut topo = empty("dev");
    let mut first = agent("same");
    first.image = "z".to_string();
    let mut second = agent("same");
    second.image = "a".to_string();
    topo.agents = vec![agent("zeta"), first, second, agent("alpha")];
    topo.streams = vec![
        Stream { name: "main".to_string(), retention: Some("7d".to_string()), description: None },
        Stream { name: "main".to_string(), retention: None, description: None },
    ];
    let once = canonicalize_topology(topo);
    let twice = canonicalize_topology(once.clone());
    assert_eq!(once, twice);
    let names: Vec<&str> = twice.agents.iter().map(|a| a.name.as_str()).collect();
    assert_eq!(names, vec!["alpha", "same", "same", "zeta"]);
    assert_eq!(twice.agents[1].image, "a");
}
