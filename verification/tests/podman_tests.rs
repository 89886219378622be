use wh_broker::deploy::podman::{
    build_ps_args, build_rm_args, build_run_args, build_stop_args, build_surface_run_args, container_name, network_name,
    parse_agent_name, parse_surface_name, plan_provisioning, sanitize_name, surface_image, volume_names, ApplyResult,
    ProvisionAction, BROKER_CONTAINER_NAME, BROKER_DNS_URL, BROKER_IMAGE, HOST_BROKER_URL, VOLUME_SUFFIXES,
};
use wh_broker::deploy::podman::{context_volume_name, helper_container_name, personas_volume_name};
use wh_broker::deploy::volumes::{context_script, personas_script, platform_script, PersonaSource};
use wh_broker::deploy::{Agent, Change, Stream, Surface, SurfaceChatConfig};
use wh_broker::strmap::StrMap;

#[test]
fn container_name_formats_correctly() {
    assert_eq!(container_name("dev", "researcher"), "wh-dev-researcher");
    assert_eq!(container_name("my-app", "donna"), "wh-my-app-donna");
}

#[test]
fn container_name_sanitizes_special_chars() {
    assert_eq!(container_name("my app", "agent.1"), "wh-my-app-agent-1");
    assert_eq!(container_name("dev", "--bad--"), "wh-dev-bad");
}

#[test]
fn sanitize_name_works() {
    assert_eq!(sanitize_name("hello-world"), "hello-world");
    assert_eq!(sanitize_name("hello world"), "hello-world");
    assert_eq!(sanitize_name("--double--dash--"), "double-dash");
    assert_eq!(sanitize_name("abc123"), "abc123");
}

#[test]
fn network_name_formats_correctly() {
    assert_eq!(network_name("dev"), "wh-dev");
    assert_eq!(network_name("my-app"), "wh-my-app");
}

#[test]
fn network_name_sanitizes_special_chars() {
    assert_eq!(network_name("my app"), "wh-my-app");
    assert_eq!(network_name("--bad--"), "wh-bad");
}

#[test]
fn volume_names_formats_correctly() {
    let names = volume_names("dev");
    assert_eq!(names, vec!["wh-dev-wal", "wh-dev-users", "wh-dev-skills", "wh-dev-personas", "wh-dev-context"]);
}

#[test]
fn volume_names_sanitizes_special_chars() {
    let names = volume_names("my app");
    assert_eq!(
        names,
        vec!["wh-my-app-wal", "wh-my-app-users", "wh-my-app-skills", "wh-my-app-personas", "wh-my-app-context"]
    );
}

#[test]
fn volume_names_count() {
    let names = volume_names("dev");
    assert_eq!(names.len(), 5);
}

#[test]
fn volume_suffixes_constant_has_five_entries() {
    assert_eq!(VOLUME_SUFFIXES.len(), 5);
    assert_eq!(VOLUME_SUFFIXES[0], "wal");
    assert_eq!(VOLUME_SUFFIXES[1], "users");
    assert_eq!(VOLUME_SUFFIXES[2], "skills");
    assert_eq!(VOLUME_SUFFIXES[3], "personas");
    assert_eq!(VOLUME_SUFFIXES[4], "context");
}

#[test]
fn build_run_args_correct() {
    let args = build_run_args("dev", "researcher", "researcher:latest", &["main".to_string()], None, false, false, &[], None);
    assert_eq!(args[0], "run");
    assert_eq!(args[1], "-d");
    assert_eq!(args[2], "--name");
    assert_eq!(args[3], "wh-dev-researcher");
    assert_eq!(args[4], "-e");
    assert_eq!(args[5], "WH_URL=tcp://wh-broker:5555");
    assert_eq!(args[6], "-e");
    assert_eq!(args[7], "WH_AGENT_NAME=researcher");
    assert_eq!(args[8], "-e");
    assert_eq!(args[9], "WH_STREAMS=main");
    assert_eq!(args.last().unwrap(), "researcher:latest");
    assert!(!args.iter().any(|a| a == "--network"), "should not have --network without network param");
}

#[test]
fn build_run_args_with_network() {
    let args =
        build_run_args("dev", "researcher", "researcher:latest", &["main".to_string()], None, false, false, &[], Some("wh-dev"));
    let net_idx = args.iter().position(|a| a == "--network").expect("should have --network flag");
    assert_eq!(args[net_idx + 1], "wh-dev");
    assert_eq!(args.last().unwrap(), "researcher:latest");
}

#[test]
fn build_run_args_custom_url() {
    let args = build_run_args(
        "dev",
        "donna",
        "donna:v1",
        &["events".to_string(), "logs".to_string()],
        Some("tcp://10.0.0.1:5555"),
        false,
        false,
        &[],
        None,
    );
    assert_eq!(args[5], "WH_URL=tcp://10.0.0.1:5555");
    assert_eq!(args[9], "WH_STREAMS=events,logs");
}

#[test]
fn build_run_args_with_persona() {
    let args = build_run_args("dev", "donna", "agent:latest", &["main".to_string()], None, true, false, &[], None);
    let v_idx = args.iter().position(|a| a == "-v").expect("should have -v flag");
    assert!(args[v_idx + 1].contains("personas"), "volume mount should reference personas named volume");
    assert!(
        args.iter().any(|a| a == "WH_PERSONA_PATH=/personas/donna"),
        "should have WH_PERSONA_PATH env var with agent subdirectory"
    );
}

#[test]
fn build_run_args_without_persona_has_no_persona_args() {
    let args = build_run_args("dev", "researcher", "r:latest", &["main".to_string()], None, false, false, &[], None);
    assert!(!args.iter().any(|a| a.contains("persona") || a.contains("PERSONA")), "should not have persona args");
}

#[test]
fn parse_agent_name_works() {
    assert_eq!(parse_agent_name("agent researcher").as_deref(), Some("researcher"));
    assert_eq!(parse_agent_name("agent donna").as_deref(), Some("donna"));
    assert_eq!(parse_agent_name("stream main"), None);
    assert_eq!(parse_agent_name("something else"), None);
}

#[test]
fn apply_result_display() {
    let result = ApplyResult {
        created: 1,
        changed: 0,
        destroyed: 2,
        streams_created: 1,
        surfaces_created: 0,
        surfaces_changed: 0,
        surfaces_destroyed: 0,
    };
    assert_eq!(
        result.render(),
        "1 created \u{00B7} 0 changed \u{00B7} 2 destroyed \u{00B7} 1 streams \u{00B7} 0 surfaces created \u{00B7} 0 surfaces changed \u{00B7} 0 surfaces destroyed"
    );
}

#[test]
fn build_stop_args_correct() {
    let args = build_stop_args("wh-dev-researcher");
    assert_eq!(args, vec!["stop", "wh-dev-researcher"]);
}

#[test]
fn build_rm_args_correct() {
    let args = build_rm_args("wh-dev-researcher");
    assert_eq!(args, vec!["rm", "-f", "wh-dev-researcher"]);
}

#[test]
fn build_ps_args_correct() {
    let args = build_ps_args("wh-dev-researcher");
    assert_eq!(args[0], "ps");
    assert_eq!(args[1], "--filter");
    assert_eq!(args[2], "name=wh-dev-researcher");
    assert_eq!(args[3], "--format");
    assert_eq!(args[4], "{{.Status}}");
}

fn change(op: &str, component: &str) -> Change {
    Change { op: op.to_string(), component: component.to_string(), field: None, from: None, to: None, source_file: None }
}

#[test]
fn provision_containers_skips_unknown_agent() {
    let changes = vec![change("+", "agent ghost")];
    let plan = plan_provisioning("dev", &changes, &[], &[], &[], &[]);
    assert!(plan.actions.is_empty());
    assert_eq!(plan.streams_created, 0);
}

#[test]
fn provision_containers_skips_stream_changes() {
    let changes = vec![change("+", "stream main")];
    let streams = vec![Stream { name: "main".to_string(), retention: Some("7d".to_string()), description: None }];
    let plan = plan_provisioning("dev", &changes, &[], &streams, &[], &[]);
    assert_eq!(plan.streams_created, 1);
    assert_eq!(
        plan.actions,
        vec![ProvisionAction::RegisterStream { name: "main".to_string(), retention: Some("7d".to_string()) }]
    );
}

#[test]
fn plan_provisioning_orders_agent_operations() {
    let agent = Agent {
        name: "researcher".to_string(),
        image: "r:latest".to_string(),
        replicas: 1,
        streams: vec!["main".to_string()],
        persona: None,
        skills: None,
        topology_edit: None,
        volumes: vec![],
        env: None,
    };
    let changes = vec![change("+", "agent researcher"), change("-", "agent old"), change("~", "agent researcher")];
    let plan = plan_provisioning("dev", &changes, &[agent], &[], &[], &[]);
    assert_eq!(plan.actions.len(), 3);
    assert!(matches!(&plan.actions[0], ProvisionAction::StartAgent { args } if args.last().unwrap() == "r:latest"));
    assert_eq!(plan.actions[1], ProvisionAction::StopAgent { container: "wh-dev-old".to_string() });
    assert!(matches!(&plan.actions[2], ProvisionAction::RestartAgent { container, .. } if container == "wh-dev-researcher"));
}

#[test]
fn surface_image_formats_correctly() {
    assert_eq!(surface_image("telegram"), "ghcr.io/wheelhouse-paris/wh-telegram:latest");
    assert_eq!(surface_image("discord"), "ghcr.io/wheelhouse-paris/wh-discord:latest");
}

fn telegram(stream: &str, env: Option<StrMap<String>>, chats: Option<Vec<SurfaceChatConfig>>) -> Surface {
    Surface { name: "telegram".to_string(), kind: "telegram".to_string(), stream: stream.to_string(), env, chats }
}

#[test]
fn build_surface_run_args_correct() {
    let mut env = StrMap::new();
    env.insert("TELEGRAM_BOT_TOKEN".to_string(), "tok123".to_string());
    let surface = telegram("main", Some(env), None);
    let args = build_surface_run_args("dev", &surface, &[]);

    assert_eq!(args[0], "run");
    assert_eq!(args[1], "-d");
    assert_eq!(args[2], "--name");
    assert_eq!(args[3], "wh-dev-telegram");
    assert_eq!(args[4], "--network");
    assert_eq!(args[5], "wh-dev");
    assert_eq!(args[6], "-v");
    assert_eq!(args[7], "wh-dev-users:/data/users");
    assert_eq!(args[8], "-e");
    assert_eq!(args[9], "WH_URL=tcp://wh-broker:5555");
    assert_eq!(args[10], "-e");
    assert_eq!(args[11], "WH_SURFACE_NAME=telegram");
    assert_eq!(args[12], "-e");
    assert_eq!(args[13], "WH_STREAM=main");
    assert!(args.iter().any(|a| a == "TELEGRAM_BOT_TOKEN=tok123"), "should include surface spec env");
    assert_eq!(args.last().unwrap(), "ghcr.io/wheelhouse-paris/wh-telegram:latest");
}

#[test]
fn build_surface_run_args_with_extra_env() {
    let surface = telegram("main", None, None);
    let extra = vec![("SECRET_KEY".to_string(), "secret-val".to_string())];
    let args = build_surface_run_args("dev", &surface, &extra);
    assert!(args.iter().any(|a| a == "SECRET_KEY=secret-val"), "should include extra_env");
}

#[test]
fn build_surface_run_args_mounts_routing_file() {
    let surface = telegram("main", None, None);
    let extra = vec![("WH_TELEGRAM_ROUTING_FILE".to_string(), "/host/path/telegram-routing.json".to_string())];
    let args = build_surface_run_args("dev", &surface, &extra);
    assert!(
        args.iter().any(|a| a == "/host/path/telegram-routing.json:/etc/wh/telegram-routing.json:ro"),
        "should bind-mount routing file into container"
    );
    assert!(
        args.iter().any(|a| a == "WH_TELEGRAM_ROUTING_FILE=/etc/wh/telegram-routing.json"),
        "should rewrite env var to container path"
    );
}

#[test]
fn build_surface_run_args_with_chats() {
    let surface = telegram(
        "",
        None,
        Some(vec![SurfaceChatConfig { id: "@user".to_string(), stream: Some("dm-stream".to_string()), threads: None }]),
    );
    let args = build_surface_run_args("dev", &surface, &[]);
    let chats_arg = args.iter().find(|a| a.starts_with("WH_CHATS="));
    assert!(chats_arg.is_some(), "should have WH_CHATS env var for multi-chat config");
    let chats_json = chats_arg.unwrap().strip_prefix("WH_CHATS=").unwrap();
    assert!(chats_json.contains("@user"), "WH_CHATS should contain chat id");
    assert!(!args.iter().any(|a| a == "WH_STREAM="), "should not have empty WH_STREAM");
}

#[test]
fn build_surface_run_args_no_stream_when_empty() {
    let surface = telegram("", None, None);
    let args = build_surface_run_args("dev", &surface, &[]);
    assert!(!args.iter().any(|a| a.starts_with("WH_STREAM=")), "should not inject WH_STREAM when stream is empty");
}

#[test]
fn parse_surface_name_works() {
    assert_eq!(parse_surface_name("surface telegram").as_deref(), Some("telegram"));
    assert_eq!(parse_surface_name("surface cli").as_deref(), Some("cli"));
    assert_eq!(parse_surface_name("agent researcher"), None);
    assert_eq!(parse_surface_name("stream main"), None);
}

#[test]
fn broker_dns_url_uses_container_name() {
    assert_eq!(BROKER_DNS_URL, "tcp://wh-broker:5555");
}

#[test]
fn broker_container_name_constant() {
    assert_eq!(BROKER_CONTAINER_NAME, "wh-broker");
}

#[test]
fn broker_image_constant() {
    assert!(BROKER_IMAGE.starts_with("ghcr.io/wheelhouse-paris/wh-broker:"));
}

#[test]
fn host_broker_url_uses_localhost() {
    assert_eq!(HOST_BROKER_URL, "tcp://127.0.0.1:5555");
}

#[test]
fn apply_result_display_with_surfaces() {
    let result = ApplyResult {
        created: 1,
        changed: 0,
        destroyed: 0,
        streams_created: 1,
        surfaces_created: 2,
        surfaces_changed: 1,
        surfaces_destroyed: 0,
    };
    let display = result.render();
    assert!(display.contains("2 surfaces created"), "should show surfaces_created separately: {display}");
    assert!(display.contains("1 surfaces changed"), "should show surfaces_changed separately: {display}");
    assert!(display.contains("0 surfaces destroyed"), "should show surfaces_destroyed separately: {display}");
}

#[test]
fn surface_env_merge_includes_spec_entries_via_build_args() {
    let extra_env: Vec<(String, String)> = vec![("CLAUDE_CODE_OAUTH_TOKEN".to_string(), "oauth-token-xxx".to_string())];
    let mut env = StrMap::new();
    env.insert("TELEGRAM_BOT_TOKEN".to_string(), "tok123".to_string());
    env.insert("CHAT_ID".to_string(), "456".to_string());
    let surface = telegram("main", Some(env), None);
    let args = build_surface_run_args("dev", &surface, &extra_env);
    assert!(args.iter().any(|a| a == "CLAUDE_CODE_OAUTH_TOKEN=oauth-token-xxx"), "should carry over extra_env");
    assert!(args.iter().any(|a| a == "WH_SURFACE_NAME=telegram"), "should inject WH_SURFACE_NAME");
    assert!(args.iter().any(|a| a == "WH_STREAM=main"), "should inject WH_STREAM");
    assert!(args.iter().any(|a| a == "TELEGRAM_BOT_TOKEN=tok123"), "should include surface spec env");
    assert!(args.iter().any(|a| a == "CHAT_ID=456"), "should include all surface spec env entries");
}

#[test]
fn stream_count_excludes_surface_and_agent_components() {
    let changes = vec![change("+", "stream main"), change("+", "surface telegram"), change("+", "agent researcher")];
    let streams_created = plan_provisioning("dev", &changes, &[], &[], &[], &[]).streams_created;
    assert_eq!(streams_created, 1, "only 'stream main' should count");
}

#[test]
fn build_run_args_excludes_persona_when_not_set() {
    let args = build_run_args("dev", "researcher", "researcher:latest", &["main".to_string()], None, false, false, &[], None);
    let has_persona = args.iter().any(|a| a.contains("persona") || a.contains("PERSONA"));
    assert!(!has_persona, "Should not include persona args when not set: {:?}", args);
}

use wh_broker::deploy::podman::stream_create_request;

#[test]
fn stream_create_request_json() {
    assert_eq!(stream_create_request("main", None), "{\"command\":\"stream_create\",\"name\":\"main\"}");
    assert_eq!(stream_create_request("a\"b", Some("7d")), "{\"command\":\"stream_create\",\"name\":\"a\\\"b\",\"retention\":\"7d\"}");
}

#[test]
fn context_script_writes_each_stream_context() {
    let s = context_script(&[("main".to_string(), "it's here".to_string())]);
    assert_eq!(
        s,
        "mkdir -p /context/main && printf '%s' 'it'\\''s here' > /context/main/CONTEXT.md && echo done"
    );
    assert_eq!(context_script(&[]), "echo done");
}

#[test]
fn personas_script_keeps_existing_memory() {
    let s = personas_script(&[PersonaSource {
        agent: "donna".to_string(),
        soul: Some("soul".to_string()),
        identity: None,
        memory: None,
    }]);
    assert_eq!(
        s,
        "mkdir -p /personas/donna && printf '%s' 'soul' > /personas/donna/SOUL.md && \
[ -f /personas/donna/MEMORY.md ] || touch /personas/donna/MEMORY.md && echo done"
    );
    let t = personas_script(&[PersonaSource {
        agent: "a".to_string(),
        soul: None,
        identity: Some("id".to_string()),
        memory: Some("m".to_string()),
    }]);
    assert_eq!(
        t,
        "mkdir -p /personas/a && printf '%s' 'id' > /personas/a/IDENTITY.md && \
[ -f /personas/a/MEMORY.md ] || printf '%s' 'm' > /personas/a/MEMORY.md && echo done"
    );
}

#[test]
fn platform_script_leaves_out_empty_parts() {
    assert_eq!(platform_script("", ""), "mkdir -p /etc/wh && echo done");
    assert_eq!(
        platform_script("{}", ""),
        "mkdir -p /etc/wh && printf '%s' '{}' > /etc/wh/capabilities.json && echo done"
    );
}

#[test]
fn helper_and_volume_names_follow_topology() {
    assert_eq!(helper_container_name("personas", "my team"), "wh-personas-init-my-team");
    assert_eq!(personas_volume_name("dev"), "wh-dev-personas");
    assert_eq!(context_volume_name("dev"), "wh-dev-context");
}

#[test]
fn sanitize_name_is_idempotent_and_leaves_no_double_dash() {
    for raw in ["--My  App__v2!!--", "a..b", "ok-name", "", "---"] {
        let once = sanitize_name(raw);
        assert_eq!(sanitize_name(&once), once);
        assert!(!once.contains("--"));
        assert!(!once.starts_with('-') && !once.ends_with('-'));
    }
}

#[test]
fn build_run_args_layout_with_env_persona_and_network() {
    let env = vec![("TOKEN".to_string(), "x".to_string())];
    let args = build_run_args("dev", "donna", "donna:v1", &["main".to_string()], None, true, false, &env, Some("wh-dev"));
    assert_eq!(&args[..10], &[
        "run", "-d", "--name", "wh-dev-donna", "-e", "WH_URL=tcp://wh-broker:5555", "-e", "WH_AGENT_NAME=donna", "-e",
        "WH_STREAMS=main",
    ]);
    assert_eq!(&args[10..12], &["-e", "TOKEN=x"]);
    assert_eq!(&args[12..16], &["-v", "wh-dev-personas:/personas", "-e", "WH_PERSONA_PATH=/personas/donna"]);
    let n = args.len();
    assert_eq!(&args[n - 3..], &["--network", "wh-dev", "donna:v1"]);

    let without = build_run_args("dev", "donna", "donna:v1", &["main".to_string()], None, false, true, &[], None);
    assert!(!without.iter().any(|a| a == "WH_PERSONA_PATH=/personas/donna"));
    assert!(!without.iter().any(|a| a == "--network"));
    assert_eq!(without.last().unwrap(), "donna:v1");
}
