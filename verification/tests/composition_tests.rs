use wh_broker::deploy::composition::{expand_subsystems, LIBRARIAN_IMAGE, LIBRARY_MOUNT_PATH};
use wh_broker::deploy::podman::build_volume_mount_args;
use wh_broker::deploy::{Agent, Stream, SubsystemDecl, Topology};

fn make_topology_with_subsystem(library_name: Option<&str>, locales: Option<Vec<String>>, members: Vec<&str>) -> Topology {
    let agents: Vec<Agent> = members
        .iter()
        .map(|name| Agent {
            name: name.to_string(),
            image: "agent-llm:latest".to_string(),
            replicas: 1,
            streams: vec!["main".to_string()],
            persona: None,
            skills: None,
            topology_edit: None,
            volumes: vec![],
            env: None,
        })
        .collect();
    let streams = vec![Stream { name: "main".to_string(), retention: None, description: None }];
    let subsystem = SubsystemDecl {
        path: "subsystems/llm-wiki/".to_string(),
        members: members.iter().map(|s| s.to_string()).collect(),
        library_name: library_name.map(|s| s.to_string()),
        locales,
        decision_prompt: None,
    };
    Topology {
        api_version: "wheelhouse.dev/v1".to_string(),
        name: "lab".to_string(),
        broker: None,
        skills_repo: None,
        agents,
        streams,
        surfaces: vec![],
        guardrails: None,
        subsystems: vec![subsystem],
    }
}

fn env_get<'a>(a: &'a Agent, key: &str) -> Option<&'a str> {
    a.env.as_ref().and_then(|e| e.get(key)).map(|s| s.as_str())
}

#[test]
fn expand_full_subsystem() {
    let topo = make_topology_with_subsystem(Some("research"), None, vec!["agent-a", "agent-b"]);
    let expanded = expand_subsystems(topo).unwrap();

    assert!(expanded.subsystems.is_empty());

    let librarian = expanded.agents.iter().find(|a| a.name == "librarian-research").expect("librarian agent");
    assert_eq!(librarian.image, LIBRARIAN_IMAGE);
    assert_eq!(librarian.volumes.len(), 1);
    assert_eq!(librarian.volumes[0].name, "wh-lab-llm-wiki-research");
    assert_eq!(librarian.volumes[0].mount_mode.as_deref(), Some("rw"));

    assert!(env_get(librarian, "WH_STREAMS").unwrap().contains("eot-agent-a-research"));
    assert!(env_get(librarian, "WH_STREAMS").unwrap().contains("eot-agent-b-research"));
    assert_eq!(env_get(librarian, "WH_LIBRARY_PATH").unwrap(), LIBRARY_MOUNT_PATH);
    assert_eq!(env_get(librarian, "WH_LIBRARY_ID").unwrap(), "research");
    assert_eq!(env_get(librarian, "WH_AGENT_NAME").unwrap(), "librarian-research");

    assert!(expanded.streams.iter().any(|s| s.name == "eot-agent-a-research"));
    assert!(expanded.streams.iter().any(|s| s.name == "eot-agent-b-research"));

    let agent_a = expanded.agents.iter().find(|a| a.name == "agent-a").unwrap();
    let vol = agent_a.volumes.iter().find(|v| v.name == "wh-lab-llm-wiki-research").unwrap();
    assert_eq!(vol.mount_mode.as_deref(), Some("ro"));
    assert_eq!(env_get(agent_a, "WH_LIBRARY_WRITE_STREAM").unwrap(), "eot-agent-a-research");

    let agent_b = expanded.agents.iter().find(|a| a.name == "agent-b").unwrap();
    let vol_b = agent_b.volumes.iter().find(|v| v.name == "wh-lab-llm-wiki-research").unwrap();
    assert_eq!(vol_b.mount_mode.as_deref(), Some("ro"));
}

#[test]
fn default_library_name_to_topology_name() {
    let topo = make_topology_with_subsystem(None, None, vec!["agent-a"]);
    let expanded = expand_subsystems(topo).unwrap();
    assert!(expanded.agents.iter().any(|a| a.name == "librarian-lab"));
    assert!(expanded.streams.iter().any(|s| s.name == "eot-agent-a-lab"));
    let librarian = expanded.agents.iter().find(|a| a.name == "librarian-lab").unwrap();
    assert!(librarian.volumes.iter().any(|v| v.name == "wh-lab-llm-wiki-lab"));
}

#[test]
fn locales_propagated() {
    let topo = make_topology_with_subsystem(
        Some("research"),
        Some(vec!["en".to_string(), "fr".to_string(), "de".to_string()]),
        vec!["agent-a"],
    );
    let expanded = expand_subsystems(topo).unwrap();
    let librarian = expanded.agents.iter().find(|a| a.name == "librarian-research").unwrap();
    assert_eq!(env_get(librarian, "WH_LIBRARIAN_LOCALES").unwrap(), "en,fr,de");
}

#[test]
fn duplicate_agent_name_rejected() {
    let mut topo = make_topology_with_subsystem(Some("research"), None, vec!["agent-a"]);
    topo.agents.push(Agent {
        name: "librarian-research".to_string(),
        image: "some:image".to_string(),
        replicas: 1,
        streams: vec![],
        persona: None,
        skills: None,
        topology_edit: None,
        volumes: vec![],
        env: None,
    });
    let result = expand_subsystems(topo);
    assert!(result.is_err());
    let err = result.unwrap_err().message();
    assert!(err.contains("duplicate agent name"), "error: {err}");
}

#[test]
fn duplicate_stream_name_rejected() {
    let mut topo = make_topology_with_subsystem(Some("research"), None, vec!["agent-a"]);
    topo.streams.push(Stream { name: "eot-agent-a-research".to_string(), retention: None, description: None });
    let result = expand_subsystems(topo);
    assert!(result.is_err());
    let err = result.unwrap_err().message();
    assert!(err.contains("duplicate stream name"), "error: {err}");
}

#[test]
fn unknown_subsystem_path_rejected() {
    let mut topo = make_topology_with_subsystem(Some("research"), None, vec!["agent-a"]);
    topo.subsystems[0].path = "subsystems/unknown/".to_string();
    let result = expand_subsystems(topo);
    assert!(result.is_err());
    let err = result.unwrap_err().message();
    assert!(err.contains("unknown subsystem path"), "error: {err}");
}

#[test]
fn member_not_in_agents_rejected() {
    let topo = Topology {
        api_version: "wheelhouse.dev/v1".to_string(),
        name: "lab".to_string(),
        broker: None,
        skills_repo: None,
        agents: vec![Agent {
            name: "agent-a".to_string(),
            image: "agent-llm:latest".to_string(),
            replicas: 1,
            streams: vec![],
            persona: None,
            skills: None,
            topology_edit: None,
            volumes: vec![],
            env: None,
        }],
        streams: vec![],
        surfaces: vec![],
        guardrails: None,
        subsystems: vec![SubsystemDecl {
            path: "subsystems/llm-wiki/".to_string(),
            members: vec!["agent-a".to_string(), "agent-missing".to_string()],
            library_name: Some("research".to_string()),
            locales: None,
            decision_prompt: None,
        }],
    };
    let result = expand_subsystems(topo);
    assert!(result.is_err());
    let err = result.unwrap_err().message();
    assert!(err.contains("agent-missing"), "error: {err}");
}

#[test]
fn empty_subsystems_is_noop() {
    let topo = Topology {
        api_version: "wheelhouse.dev/v1".to_string(),
        name: "lab".to_string(),
        broker: None,
        skills_repo: None,
        agents: vec![],
        streams: vec![],
        surfaces: vec![],
        guardrails: None,
        subsystems: vec![],
    };
    let expanded = expand_subsystems(topo.clone()).unwrap();
    assert_eq!(expanded.agents.len(), 0);
    assert_eq!(expanded.streams.len(), 0);
    assert_eq!(expanded, topo);
}

#[test]
fn decision_prompt_propagated() {
    let mut topo = make_topology_with_subsystem(Some("research"), None, vec!["agent-a"]);
    topo.subsystems[0].decision_prompt = Some("/custom/prompt.md".to_string());
    let expanded = expand_subsystems(topo).unwrap();
    let librarian = expanded.agents.iter().find(|a| a.name == "librarian-research").unwrap();
    assert_eq!(env_get(librarian, "WH_DECISION_PROMPT").unwrap(), "/custom/prompt.md");
}

#[test]
fn erofs_all_members_ro_librarian_rw() {
    let topo = make_topology_with_subsystem(Some("wiki"), None, vec!["agent-a", "agent-b", "agent-c"]);
    let expanded = expand_subsystems(topo).unwrap();
    for name in &["agent-a", "agent-b", "agent-c"] {
        let agent = expanded.agents.iter().find(|a| a.name == *name).unwrap_or_else(|| panic!("{name} should exist"));
        let vol = agent
            .volumes
            .iter()
            .find(|v| v.name.contains("llm-wiki"))
            .unwrap_or_else(|| panic!("{name} should have library volume"));
        assert_eq!(vol.mount_mode.as_deref(), Some("ro"), "{name} must have RO mount (EROFS enforced)");
    }
    let librarian = expanded.agents.iter().find(|a| a.name == "librarian-wiki").expect("librarian-wiki should exist");
    assert_eq!(librarian.volumes[0].mount_mode.as_deref(), Some("rw"), "librarian must have RW mount");
}

#[test]
fn erofs_mount_args_from_composition() {
    let topo = make_topology_with_subsystem(Some("docs"), None, vec!["reader"]);
    let expanded = expand_subsystems(topo).unwrap();
    let reader = expanded.agents.iter().find(|a| a.name == "reader").unwrap();
    let reader_args = build_volume_mount_args(&reader.volumes);
    assert!(reader_args.iter().any(|a| a.ends_with(":ro")), "reader mount args must include :ro suffix: {reader_args:?}");
    let librarian = expanded.agents.iter().find(|a| a.name.starts_with("librarian")).unwrap();
    let lib_args = build_volume_mount_args(&librarian.volumes);
    assert!(!lib_args.iter().any(|a| a.ends_with(":ro")), "librarian mount args must NOT include :ro suffix: {lib_args:?}");
}

#[test]
fn subsystem_without_members_rejected() {
    let mut topo = make_topology_with_subsystem(Some("research"), None, vec!["alpha"]);
    topo.subsystems[0].members = vec![];
    let err = expand_subsystems(topo).unwrap_err();
    assert!(err.message().contains("at least one member"), "got: {}", err.message());
}

#[test]
fn accepted_subsystem_appends_librarian_and_member_streams() {
    let topo = make_topology_with_subsystem(Some("research"), None, vec!["alpha", "beta"]);
    let expanded = expand_subsystems(topo).unwrap();
    let names: Vec<&str> = expanded.agents.iter().map(|a| a.name.as_str()).collect();
    assert_eq!(names, vec!["alpha", "beta", "librarian-research"]);
    let streams: Vec<&str> = expanded.streams.iter().map(|s| s.name.as_str()).collect();
    assert_eq!(streams, vec!["main", "eot-alpha-research", "eot-beta-research"]);
    assert!(expanded.subsystems.is_empty());
}
