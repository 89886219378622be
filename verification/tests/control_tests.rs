use wh_broker::control::{error_response, handle_request, ControlRequest, RegisterTypeData};
use wh_broker::error::ControlError;
use wh_broker::registry::{RegistryConfig, TypeRegistry};

fn test_registry() -> TypeRegistry {
    TypeRegistry::new("/tmp/type_registry.json".to_string(), RegistryConfig::default())
}

fn register(name: &str, descriptor: Option<&str>) -> Result<ControlRequest, String> {
    Ok(ControlRequest {
        v: 1,
        command: "register_type".to_string(),
        data: Ok(RegisterTypeData { qualified_name: name.to_string(), descriptor_bytes: descriptor.map(|d| d.to_string()) }),
    })
}

fn command(name: &str) -> Result<ControlRequest, String> {
    Ok(ControlRequest { v: 1, command: name.to_string(), data: Err("missing field".to_string()) })
}

fn parse(s: &str) -> serde_json::Value {
    serde_json::from_str(s).unwrap()
}

#[test]
fn register_type_via_control_socket() {
    let mut registry = test_registry();
    let response = parse(&handle_request(&mut registry, register("biotech.MoleculeObject", None)));
    assert_eq!(response["v"], 1);
    assert_eq!(response["status"], "ok");
    assert_eq!(response["data"]["type_name"], "biotech.MoleculeObject");
    assert_eq!(response["data"]["namespace"], "biotech");
    assert!(registry.contains("biotech.MoleculeObject"));
}

#[test]
fn register_type_with_descriptor_bytes() {
    let mut registry = test_registry();
    let response = parse(&handle_request(&mut registry, register("myns.MyType", Some("AQID"))));
    assert_eq!(response["status"], "ok");
    let entry = registry.get("myns.MyType").unwrap();
    assert_eq!(entry.descriptor_bytes.as_deref(), Some("AQID"));
}

#[test]
fn register_type_rejects_reserved_namespace() {
    let mut registry = test_registry();
    let response = parse(&handle_request(&mut registry, register("wheelhouse.Custom", None)));
    assert_eq!(response["v"], 1);
    assert_eq!(response["status"], "error");
    assert_eq!(response["code"], "RESERVED_NAMESPACE");
}

#[test]
fn register_type_rejects_invalid_name() {
    let mut registry = test_registry();
    let response = parse(&handle_request(&mut registry, register("NoNamespace", None)));
    assert_eq!(response["status"], "error");
    assert_eq!(response["code"], "INVALID_TYPE_NAME");
}

#[test]
fn list_types_via_control_socket() {
    let mut registry = test_registry();
    registry.register("biotech.Molecule", None).unwrap();
    registry.register("pharma.Drug", None).unwrap();
    let response = parse(&handle_request(&mut registry, command("list_types")));
    assert_eq!(response["v"], 1);
    assert_eq!(response["status"], "ok");
    assert_eq!(response["data"]["total_count"], 2);
    let types = response["data"]["types"].as_array().unwrap();
    assert_eq!(types.len(), 2);
    assert_eq!(types[0]["short_name"], "Molecule");
}

#[test]
fn list_types_empty_registry() {
    let mut registry = test_registry();
    let response_str = handle_request(&mut registry, command("list_types"));
    assert_eq!(response_str, "{\"v\":1,\"status\":\"ok\",\"data\":{\"total_count\":0,\"types\":[]}}");
    let response = parse(&response_str);
    assert_eq!(response["status"], "ok");
    assert_eq!(response["data"]["total_count"], 0);
}

#[test]
fn unknown_command_returns_error() {
    let mut registry = test_registry();
    let response_str = handle_request(&mut registry, command("nonexistent"));
    assert_eq!(
        response_str,
        "{\"v\":1,\"status\":\"error\",\"code\":\"UNKNOWN_COMMAND\",\"message\":\"Unknown command: nonexistent\"}"
    );
    let response = parse(&response_str);
    assert_eq!(response["status"], "error");
    assert_eq!(response["code"], "UNKNOWN_COMMAND");
}

#[test]
fn invalid_json_returns_error() {
    let mut registry = test_registry();
    let response = parse(&handle_request(&mut registry, Err("expected value at line 1 column 1".to_string())));
    assert_eq!(response["v"], 1);
    assert_eq!(response["status"], "error");
    assert_eq!(response["code"], "INVALID_REQUEST");
    assert_eq!(response["message"], "Invalid JSON: expected value at line 1 column 1");
}

#[test]
fn invalid_register_data_returns_error() {
    let mut registry = test_registry();
    let response = parse(&handle_request(
        &mut registry,
        Ok(ControlRequest { v: 1, command: "register_type".to_string(), data: Err("missing field".to_string()) }),
    ));
    assert_eq!(response["code"], "INVALID_REQUEST");
    assert_eq!(response["message"], "Invalid register_type data: missing field");
    assert!(registry.is_empty());
}

#[test]
fn all_responses_include_v1() {
    let mut registry = test_registry();
    let response = parse(&handle_request(&mut registry, register("ns.Type", None)));
    assert_eq!(response["v"], 1);
    let response = parse(&handle_request(&mut registry, register("bad", None)));
    assert_eq!(response["v"], 1);
    let response = parse(&handle_request(&mut registry, command("list_types")));
    assert_eq!(response["v"], 1);
}

#[test]
fn all_json_fields_are_snake_case() {
    let mut registry = test_registry();
    let response_str = handle_request(&mut registry, register("ns.Type", None));
    assert!(!response_str.contains("typeName"));
    assert!(!response_str.contains("registeredAt"));
    assert!(response_str.contains("type_name"));
    assert!(response_str.contains("registered_at"));
    let response_str = handle_request(&mut registry, command("list_types"));
    assert!(!response_str.contains("totalCount"));
    assert!(!response_str.contains("shortName"));
    assert!(response_str.contains("total_count"));
    assert!(response_str.contains("short_name"));
}

#[test]
fn control_error_messages() {
    assert_eq!(ControlError::UnknownCommand("x".to_string()).message(), "Unknown command: x");
    assert_eq!(ControlError::RateLimited.message(), "Rate limited");
    assert_eq!(ControlError::Internal("boom".to_string()).message(), "Internal error: boom");
}

#[test]
fn error_response_has_version_code_and_message() {
    assert_eq!(
        error_response("STREAM_EXISTS", "Stream 'x' already exists"),
        r#"{"v":1,"status":"error","code":"STREAM_EXISTS","message":"Stream 'x' already exists"}"#
    );
}
