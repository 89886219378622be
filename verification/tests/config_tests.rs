use wh_broker::config::BrokerConfig;

#[test]
fn test_config_defaults_container() {
    let config = BrokerConfig::default();
    assert_eq!(config.bind_address(), "0.0.0.0");
    assert_eq!(config.pub_port(), 5555);
    assert_eq!(config.sub_port(), 5556);
    assert_eq!(config.control_port(), 5557);
    assert!(config.pub_endpoint().starts_with("tcp://0.0.0.0:"));
    assert!(config.sub_endpoint().starts_with("tcp://0.0.0.0:"));
    assert!(config.control_endpoint().starts_with("tcp://0.0.0.0:"));
    assert_eq!(config.data_dir(), "/data");
}

#[test]
fn test_config_bind_address_always_all_interfaces() {
    let config = BrokerConfig::default();
    assert_eq!(config.bind_address(), "0.0.0.0");

    let config = BrokerConfig::from_env_values(None, None, None, None, None, None, None, None, None);
    assert_eq!(config.bind_address(), "0.0.0.0");

    let config = BrokerConfig::with_ports(9999, 9998, 9997, None);
    assert_eq!(config.bind_address(), "0.0.0.0");
    assert!(config.pub_endpoint().starts_with("tcp://0.0.0.0:"));
}

#[test]
fn test_config_with_ports() {
    let config = BrokerConfig::with_ports(6000, 6001, 6002, None);
    assert_eq!(config.pub_port(), 6000);
    assert_eq!(config.sub_port(), 6001);
    assert_eq!(config.control_port(), 6002);
    assert_eq!(config.pub_endpoint(), "tcp://0.0.0.0:6000");
    assert_eq!(config.sub_endpoint(), "tcp://0.0.0.0:6001");
    assert_eq!(config.control_endpoint(), "tcp://0.0.0.0:6002");
}

#[test]
fn test_config_default_topology_dir() {
    let config = BrokerConfig::default();
    assert_eq!(config.topology_dir(), "/topology");
}

#[test]
fn test_config_default_agent_permissions_empty() {
    let config = BrokerConfig::default();
    assert!(config.agent_permissions().is_empty());
}

#[test]
fn test_parse_agent_permissions_valid() {
    let perms = BrokerConfig::parse_agent_permissions("donna:true,researcher:false");
    assert_eq!(perms.len(), 2);
    assert_eq!(perms.get("donna"), Some(&true));
    assert_eq!(perms.get("researcher"), Some(&false));
}

#[test]
fn test_parse_agent_permissions_with_spaces() {
    let perms = BrokerConfig::parse_agent_permissions(" donna : true , researcher : false ");
    assert_eq!(perms.len(), 2);
    assert_eq!(perms.get("donna"), Some(&true));
    assert_eq!(perms.get("researcher"), Some(&false));
}

#[test]
fn test_parse_agent_permissions_empty_string() {
    let perms = BrokerConfig::parse_agent_permissions("");
    assert!(perms.is_empty());
}

#[test]
fn test_parse_agent_permissions_invalid_entries_skipped() {
    let perms = BrokerConfig::parse_agent_permissions("donna:true,invalid,researcher:false");
    assert_eq!(perms.len(), 2);
    assert_eq!(perms.get("donna"), Some(&true));
    assert_eq!(perms.get("researcher"), Some(&false));
}

#[test]
fn test_parse_agent_permissions_case_insensitive() {
    let perms = BrokerConfig::parse_agent_permissions("donna:TRUE,bob:True");
    assert_eq!(perms.get("donna"), Some(&true));
    assert_eq!(perms.get("bob"), Some(&true));
}

#[test]
fn from_env_values_reads_each_setting() {
    let config = BrokerConfig::from_env_values(
        Some("7000"),
        Some("not-a-port"),
        Some("7002"),
        Some("/var/wh".to_string()),
        Some("3600"),
        Some("/skills".to_string()),
        Some("a, b,,c"),
        Some("/topo".to_string()),
        Some("donna:true"),
    );
    assert_eq!(config.pub_port(), 7000);
    assert_eq!(config.sub_port(), 5556);
    assert_eq!(config.control_port(), 7002);
    assert_eq!(config.data_dir(), "/var/wh");
    assert_eq!(config.compaction_interval_secs(), 3600);
    assert_eq!(config.skills_path(), Some("/skills"));
    assert_eq!(config.skills_allowlist(), &["a".to_string(), "b".to_string(), "c".to_string()][..]);
    assert_eq!(config.topology_dir(), "/topo");
    assert_eq!(config.agent_permissions().get("donna"), Some(&true));
}

#[test]
fn from_env_values_defaults_when_unset_or_invalid() {
    let config = BrokerConfig::from_env_values(None, None, None, None, Some("soon"), None, None, None, None);
    assert_eq!(config.compaction_interval_secs(), 86400);
    assert_eq!(config.skills_path(), None);
    assert!(config.skills_allowlist().is_empty());
}

#[test]
fn with_ports_takes_the_data_dir_from_the_environment_value() {
    assert_eq!(BrokerConfig::with_ports(1, 2, 3, None).data_dir(), "/data");
    assert_eq!(BrokerConfig::with_ports(1, 2, 3, Some("/tmp/wh".to_string())).data_dir(), "/tmp/wh");
}
