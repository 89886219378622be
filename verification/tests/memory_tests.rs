use wh_broker::deploy::memory::{
    append_memory_content, memory_commit_message, memory_path, memory_relative, validate_agent_name, MemoryError,
};

#[test]
fn validate_agent_name_rejects_empty() {
    let result = validate_agent_name("");
    assert!(result.is_err());
    let err = result.unwrap_err();
    assert!(matches!(err, MemoryError::InvalidPath(_)));
}

#[test]
fn validate_agent_name_rejects_path_traversal() {
    assert!(validate_agent_name("../evil").is_err());
    assert!(validate_agent_name("foo/bar").is_err());
    assert!(validate_agent_name("foo\\bar").is_err());
    assert!(validate_agent_name("..").is_err());
}

#[test]
fn validate_agent_name_accepts_valid_names() {
    assert!(validate_agent_name("donna").is_ok());
    assert!(validate_agent_name("researcher").is_ok());
    assert!(validate_agent_name("my-agent-1").is_ok());
    assert!(validate_agent_name("Agent2").is_ok());
}

#[test]
fn validate_agent_name_rejects_spaces() {
    assert!(validate_agent_name("my agent").is_err());
}

#[test]
fn validate_agent_name_rejects_leading_trailing_hyphens() {
    assert!(validate_agent_name("-leading").is_err());
    assert!(validate_agent_name("trailing-").is_err());
    assert!(validate_agent_name("-both-").is_err());
}

#[test]
fn memory_path_is_correct() {
    let path = memory_path("/workspace", "donna");
    assert_eq!(path, "/workspace/.wh/agents/donna/MEMORY.md");
}

#[test]
fn memory_error_codes_are_screaming_snake_case() {
    let errors = [MemoryError::InvalidPath("test".to_string()), MemoryError::GitFailed("test".to_string()), MemoryError::GitTimeout(30)];
    for err in &errors {
        let code = err.code();
        assert!(code.chars().all(|c| c.is_uppercase() || c == '_'), "error code should be SCREAMING_SNAKE_CASE: {code}");
    }
}

#[test]
fn append_memory_separates_entries() {
    assert_eq!(append_memory_content(None, "first"), "first");
    assert_eq!(append_memory_content(Some(String::new()), "first"), "first");
    assert_eq!(append_memory_content(Some("old".to_string()), "new"), "old\n\n---\n\nnew");
}

#[test]
fn memory_commit_message_attributes_agent() {
    assert_eq!(
        memory_commit_message("donna", "learned", "2026-01-01T00:00:00Z"),
        "[donna] memory: learned\n\nTimestamp: 2026-01-01T00:00:00Z\nAgent: donna"
    );
    assert_eq!(memory_relative("donna"), ".wh/agents/donna/MEMORY.md");
    assert_eq!(memory_path("/workspace/", "donna"), "/workspace/.wh/agents/donna/MEMORY.md");
}

#[test]
fn memory_error_messages() {
    assert_eq!(MemoryError::GitTimeout(30).message(), "git operation timed out after 30s");
    assert_eq!(MemoryError::InvalidPath("x".to_string()).message(), "invalid path or agent name: x");
    assert_eq!(MemoryError::InvalidPath("x".to_string()).code(), "INVALID_PATH");
}
