use wh_broker::deploy::gitignore::{
    all_required_patterns, check_gitignore_completeness, count_occurrences, gitignore_update_content, history_finding,
    history_search_terms, is_suspicious_filename, suspicious_staged_files,
};

#[test]
fn ensure_gitignore_creates_file_with_all_patterns() {
    let content = gitignore_update_content("").expect("a new file is written");
    for pattern in all_required_patterns() {
        assert!(content.contains(pattern), "gitignore must contain pattern: {pattern}");
    }
}

#[test]
fn ensure_gitignore_preserves_existing_content() {
    let content = gitignore_update_content("# my rule\ncustom_dir/\n").unwrap();
    assert!(content.contains("custom_dir/"), "must preserve user patterns");
    assert!(content.contains("*.db"), "must also add required patterns");
    assert!(content.starts_with("# my rule\ncustom_dir/\n"));
}

#[test]
fn ensure_gitignore_idempotent() {
    let first = gitignore_update_content("");
    assert!(first.is_some(), "first call should modify");
    let second = gitignore_update_content(&first.unwrap());
    assert!(second.is_none(), "second call should not modify (idempotent)");
}

#[test]
fn check_gitignore_completeness_all_missing() {
    let missing = check_gitignore_completeness(None);
    assert_eq!(missing.len(), all_required_patterns().len());
}

#[test]
fn check_gitignore_completeness_all_present() {
    let content = gitignore_update_content("").unwrap();
    let missing = check_gitignore_completeness(Some(&content));
    assert!(missing.is_empty(), "all patterns should be present");
}

#[test]
fn is_suspicious_detects_token_files() {
    assert!(is_suspicious_filename(".wh/api.token"));
    assert!(is_suspicious_filename(".wh/secrets/my_secret.key"));
    assert!(is_suspicious_filename(".wh/cert.pem"));
    assert!(is_suspicious_filename(".wh/.env"));
    assert!(is_suspicious_filename(".wh/.env.production"));
    assert!(is_suspicious_filename(".wh/db_password.txt"));
}

#[test]
fn is_suspicious_allows_normal_files() {
    assert!(!is_suspicious_filename(".wh/state.json"));
    assert!(!is_suspicious_filename(".wh/.gitignore"));
    assert!(!is_suspicious_filename(".wh/agents/donna/SOUL.md"));
    assert!(!is_suspicious_filename(".wh/compaction/main/2026-03-12.md"));
}

#[test]
fn all_required_patterns_covers_wal_secrets_lock() {
    let patterns = all_required_patterns();
    assert!(patterns.contains(&"*.db"));
    assert!(patterns.contains(&"*.db-wal"));
    assert!(patterns.contains(&"*.db-shm"));
    assert!(patterns.contains(&".env"));
    assert!(patterns.contains(&"*.token"));
    assert!(patterns.contains(&"secrets/"));
    assert!(patterns.contains(&"workspace.lock"));
}

#[test]
fn update_adds_only_missing_patterns_after_header() {
    let existing = ".env\n*.db";
    let updated = gitignore_update_content(existing).unwrap();
    assert!(updated.starts_with(".env\n*.db\n\n# Wheelhouse managed \u{2014} do not remove these patterns\n"));
    assert_eq!(updated.matches("\n.env\n").count() + usize::from(updated.starts_with(".env\n")), 1);
    assert!(updated.ends_with("workspace.lock\n"));
    let missing = check_gitignore_completeness(Some(existing));
    assert_eq!(missing.len(), all_required_patterns().len() - 2);
}

#[test]
fn staged_secret_scan_only_flags_wh_files() {
    let staged = ".wh/state.json\n.wh/api.token\nsecret.key\n.wh/SECRETS.md\n";
    assert_eq!(suspicious_staged_files(staged), vec![".wh/api.token".to_string(), ".wh/SECRETS.md".to_string()]);
}

#[test]
fn history_findings_count_commits() {
    assert_eq!(count_occurrences("commit a\ncommit b\n", "commit "), 2);
    assert_eq!(count_occurrences("aaaa", "aa"), 2);
    assert_eq!(history_finding("API_KEY", true, "commit 1\nx\ncommit 2"), Some(("API_KEY".to_string(), 2)));
    assert_eq!(history_finding("API_KEY", true, "   "), None);
    assert_eq!(history_finding("API_KEY", false, "commit 1"), None);
    assert_eq!(history_search_terms(), vec!["API_KEY", "SECRET_KEY", "TOKEN=", "PASSWORD=", "sk-ant-"]);
}

#[test]
fn staged_secret_scan_keeps_listed_order_and_drops_the_rest() {
    let staged = ".wh/b.pem\nnotes.txt\n.wh/api.token\n.wh/state.json\n.wh/.env.local\n.wh/sub/password.txt";
    assert_eq!(
        suspicious_staged_files(staged),
        vec![".wh/b.pem".to_string(), ".wh/api.token".to_string(), ".wh/.env.local".to_string(), ".wh/sub/password.txt".to_string()]
    );
    assert_eq!(suspicious_staged_files(""), Vec::<String>::new());
}
