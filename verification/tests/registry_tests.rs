use wh_broker::registry::{chrono_now_iso, iso_from_epoch_secs, RegistryConfig, RegistryError, TypeRegistry};

fn test_registry() -> TypeRegistry {
    TypeRegistry::new("/tmp/type_registry.json".to_string(), RegistryConfig::default())
}

#[test]
fn registers_custom_type_under_namespace() {
    let mut registry = test_registry();
    let entry = registry.register("biotech.MoleculeObject", None).unwrap();
    assert_eq!(entry.namespace, "biotech");
    assert_eq!(entry.short_name, "MoleculeObject");
    assert_eq!(entry.qualified_name, "biotech.MoleculeObject");
    assert!(registry.contains("biotech.MoleculeObject"));
}

#[test]
fn rejects_wheelhouse_namespace() {
    let mut registry = test_registry();
    let result = registry.register("wheelhouse.CustomType", None);
    assert!(result.is_err());
    match result.unwrap_err() {
        RegistryError::ReservedNamespace(ns) => assert_eq!(ns, "wheelhouse"),
        other => panic!("Expected ReservedNamespace, got: {other:?}"),
    }
}

#[test]
fn rejects_invalid_type_name_no_dot() {
    let result = TypeRegistry::parse_type_name("InvalidName");
    assert!(result.is_err());
    match result.unwrap_err() {
        RegistryError::InvalidTypeName(name) => assert_eq!(name, "InvalidName"),
        other => panic!("Expected InvalidTypeName, got: {other:?}"),
    }
}

#[test]
fn rejects_empty_namespace() {
    let result = TypeRegistry::parse_type_name(".TypeName");
    assert!(result.is_err());
}

#[test]
fn rejects_empty_short_name() {
    let result = TypeRegistry::parse_type_name("namespace.");
    assert!(result.is_err());
}

#[test]
fn rejects_nested_dots_in_short_name() {
    let result = TypeRegistry::parse_type_name("ns.Type.Sub");
    assert!(result.is_err());
}

#[test]
fn two_namespaces_same_type_name_coexist() {
    let mut registry = test_registry();
    registry.register("biotech.MoleculeObject", None).unwrap();
    registry.register("pharma.MoleculeObject", None).unwrap();
    assert!(registry.contains("biotech.MoleculeObject"));
    assert!(registry.contains("pharma.MoleculeObject"));
    assert_eq!(registry.len(), 2);
    let biotech = registry.list_by_namespace("biotech");
    assert_eq!(biotech.len(), 1);
    assert_eq!(biotech[0].namespace, "biotech");
    let pharma = registry.list_by_namespace("pharma");
    assert_eq!(pharma.len(), 1);
    assert_eq!(pharma[0].namespace, "pharma");
}

#[test]
fn list_by_namespace_gives_each_entry_of_the_namespace_once() {
    let mut registry = test_registry();
    registry.register("biotech.Zeta", None).unwrap();
    registry.register("pharma.Drug", None).unwrap();
    registry.register("biotech.Alpha", None).unwrap();
    registry.register("biotech.Alpha", None).unwrap();
    let names: Vec<&str> = registry.list_by_namespace("biotech").iter().map(|e| e.qualified_name.as_str()).collect();
    assert_eq!(names, vec!["biotech.Alpha", "biotech.Zeta"]);
    assert!(registry.list_by_namespace("chem").is_empty());
}

#[test]
fn enforces_per_namespace_limit() {
    let config = RegistryConfig { per_namespace_limit: 3, total_limit: 10_000 };
    let mut registry = TypeRegistry::new("/tmp/type_registry.json".to_string(), config);
    registry.register("test.Type1", None).unwrap();
    registry.register("test.Type2", None).unwrap();
    registry.register("test.Type3", None).unwrap();
    let result = registry.register("test.Type4", None);
    assert!(result.is_err());
    match result.unwrap_err() {
        RegistryError::NamespaceFull(ns, limit) => {
            assert_eq!(ns, "test");
            assert_eq!(limit, 3);
        }
        other => panic!("Expected NamespaceFull, got: {other:?}"),
    }
}

#[test]
fn enforces_total_registry_limit() {
    let config = RegistryConfig { per_namespace_limit: 100, total_limit: 3 };
    let mut registry = TypeRegistry::new("/tmp/type_registry.json".to_string(), config);
    registry.register("ns1.Type1", None).unwrap();
    registry.register("ns2.Type2", None).unwrap();
    registry.register("ns3.Type3", None).unwrap();
    let result = registry.register("ns4.Type4", None);
    assert!(result.is_err());
    match result.unwrap_err() {
        RegistryError::TotalLimitReached(limit) => assert_eq!(limit, 3),
        other => panic!("Expected TotalLimitReached, got: {other:?}"),
    }
}

#[test]
fn load_nonexistent_returns_empty() {
    let registry = test_registry();
    assert!(registry.is_empty());
}

#[test]
fn mod_error_codes_are_screaming_snake_case() {
    let err = RegistryError::ReservedNamespace("wheelhouse".to_string());
    assert_eq!(err.error_code(), "RESERVED_NAMESPACE");
    let err = RegistryError::InvalidTypeName("bad".to_string());
    assert_eq!(err.error_code(), "INVALID_TYPE_NAME");
    let err = RegistryError::NamespaceFull("test".to_string(), 100);
    assert_eq!(err.error_code(), "REGISTRY_FULL");
    let err = RegistryError::TotalLimitReached(10_000);
    assert_eq!(err.error_code(), "REGISTRY_FULL");
}

#[test]
fn register_with_descriptor_bytes() {
    let mut registry = test_registry();
    let entry = registry.register("myns.MyType", Some("base64data".to_string())).unwrap();
    assert_eq!(entry.descriptor_bytes.as_deref(), Some("base64data"));
}

#[test]
fn list_returns_all_types() {
    let mut registry = test_registry();
    registry.register("ns1.Type1", None).unwrap();
    registry.register("ns2.Type2", None).unwrap();
    let all = registry.list();
    assert_eq!(all.len(), 2);
}

#[test]
fn re_registration_is_idempotent() {
    let mut registry = test_registry();
    registry.register("ns.MyType", None).unwrap();
    assert_eq!(registry.len(), 1);
    registry.register("ns.MyType", Some("updated_descriptor".to_string())).unwrap();
    assert_eq!(registry.len(), 1);
    let entry = registry.get("ns.MyType").unwrap();
    assert_eq!(entry.descriptor_bytes.as_deref(), Some("updated_descriptor"));
}

#[test]
fn re_registration_does_not_count_against_limit() {
    let config = RegistryConfig { per_namespace_limit: 2, total_limit: 10_000 };
    let mut registry = TypeRegistry::new("/tmp/type_registry.json".to_string(), config);
    registry.register("test.Type1", None).unwrap();
    registry.register("test.Type2", None).unwrap();
    let result = registry.register("test.Type3", None);
    assert!(result.is_err());
    registry.register("test.Type1", None).unwrap();
    assert_eq!(registry.len(), 2);
}

#[test]
fn timestamp_is_iso_format() {
    let ts = chrono_now_iso();
    assert!(ts.ends_with('Z'));
    assert!(ts.contains('T'));
    assert_eq!(ts.len(), 20);
}

#[test]
fn iso_from_epoch_secs_exact_values() {
    assert_eq!(iso_from_epoch_secs(0), "1970-01-01T00:00:00Z");
    assert_eq!(iso_from_epoch_secs(951_782_400), "2000-02-29T00:00:00Z");
    assert_eq!(iso_from_epoch_secs(1_773_311_400), "2026-03-12T10:30:00Z");
}

#[test]
fn registry_error_messages() {
    assert_eq!(
        RegistryError::NamespaceFull("test".to_string(), 3).message(),
        "REGISTRY_FULL: namespace 'test' has reached the per-namespace limit of 3 types"
    );
    assert_eq!(RegistryError::TotalLimitReached(3).message(), "REGISTRY_FULL: total registry limit of 3 types reached");
}
