use wh_broker::builtin_skill::{classify_command, CommandTier, WhCliHandler};
use wh_broker::strmap::StrMap;

#[test]
fn classify_tier1_single_word_commands() {
    assert_eq!(classify_command(&["ps"]), CommandTier::Tier1);
    assert_eq!(classify_command(&["status"]), CommandTier::Tier1);
    assert_eq!(classify_command(&["logs"]), CommandTier::Tier1);
    assert_eq!(classify_command(&["capabilities"]), CommandTier::Tier1);
    assert_eq!(classify_command(&["reference"]), CommandTier::Tier1);
}

#[test]
fn classify_tier1_two_word_commands() {
    assert_eq!(classify_command(&["topology", "plan"]), CommandTier::Tier1);
    assert_eq!(classify_command(&["topology", "lint"]), CommandTier::Tier1);
    assert_eq!(classify_command(&["stream", "tail"]), CommandTier::Tier1);
}

#[test]
fn classify_tier1_with_extra_args() {
    assert_eq!(classify_command(&["topology", "plan", "--format", "json"]), CommandTier::Tier1);
    assert_eq!(classify_command(&["stream", "tail", "--last", "10"]), CommandTier::Tier1);
    assert_eq!(classify_command(&["logs", "agent-1"]), CommandTier::Tier1);
}

#[test]
fn classify_tier2_commands() {
    assert_eq!(classify_command(&["topology", "apply"]), CommandTier::Tier2);
    assert_eq!(classify_command(&["topology", "apply", "--yes"]), CommandTier::Tier2);
    assert_eq!(classify_command(&["topology", "destroy"]), CommandTier::Tier2);
    assert_eq!(classify_command(&["skill", "create"]), CommandTier::Tier2);
}

#[test]
fn classify_blocked_commands() {
    assert_eq!(classify_command(&["secrets"]), CommandTier::Blocked);
    assert_eq!(classify_command(&["secrets", "list"]), CommandTier::Blocked);
    assert_eq!(classify_command(&["completion"]), CommandTier::Blocked);
    assert_eq!(classify_command(&["completion", "bash"]), CommandTier::Blocked);
    assert_eq!(classify_command(&["doctor"]), CommandTier::Blocked);
}

#[test]
fn classify_unknown_command_blocked() {
    assert_eq!(classify_command(&["nonexistent-command"]), CommandTier::Blocked);
    assert_eq!(classify_command(&["deploy"]), CommandTier::Blocked);
    assert_eq!(classify_command(&["init"]), CommandTier::Blocked);
}

#[test]
fn classify_empty_args_blocked() {
    assert_eq!(classify_command(&[]), CommandTier::Blocked);
}

#[test]
fn handler_topology_edit_lookup() {
    let mut perms = StrMap::new();
    perms.insert("donna".to_string(), true);
    perms.insert("researcher".to_string(), false);

    let handler = WhCliHandler::new("/tmp".to_string(), perms);

    assert!(handler.has_topology_edit("donna"));
    assert!(!handler.has_topology_edit("researcher"));
    assert!(!handler.has_topology_edit("unknown-agent"));
}

use wh_broker::builtin_skill::{command_result, CliDecision, CliResult, CommandOutcome};

#[test]
fn plan_execution_denies_tier2_without_topology_edit() {
    let handler = WhCliHandler::new("/tmp".to_string(), StrMap::new());
    let (tokens, decision) = handler.plan_execution("researcher", "topology apply --yes");
    assert_eq!(tokens, vec!["topology".to_string(), "apply".to_string(), "--yes".to_string()]);
    match decision {
        CliDecision::Reject(r) => {
            assert_eq!(r.error_code, "WH_CLI_PERMISSION_DENIED");
            assert_eq!(r.error_message, "command 'topology apply --yes' requires topology_edit capability");
        }
        CliDecision::Run => panic!("tier 2 command must be denied"),
    }
}

#[test]
fn plan_execution_allows_tier2_with_topology_edit() {
    let mut perms = StrMap::new();
    perms.insert("donna".to_string(), true);
    let handler = WhCliHandler::new("/tmp".to_string(), perms);
    let (_, decision) = handler.plan_execution("donna", "topology apply --yes");
    assert_eq!(decision, CliDecision::Run);
}

#[test]
fn plan_execution_blocks_secrets_and_empty() {
    let handler = WhCliHandler::new("/tmp".to_string(), StrMap::new());
    match handler.plan_execution("agent-1", "secrets list").1 {
        CliDecision::Reject(r) => {
            assert_eq!(r.error_code, "WH_CLI_COMMAND_BLOCKED");
            assert_eq!(r.error_message, "command 'secrets' is blocked");
        }
        CliDecision::Run => panic!("blocked command must be rejected"),
    }
    match handler.plan_execution("agent-1", "   ").1 {
        CliDecision::Reject(r) => assert_eq!(r.error_message, "command '(empty)' is blocked"),
        CliDecision::Run => panic!("empty command must be rejected"),
    }
}

#[test]
fn command_result_for_each_outcome() {
    let ok = command_result(&CommandOutcome::Exited {
        success: true,
        code: Some(0),
        output_lines: vec!["a".to_string(), "b".to_string()],
    });
    assert_eq!(ok, CliResult::Success { output: "a\nb".to_string() });
    let failed = command_result(&CommandOutcome::Exited { success: false, code: Some(2), output_lines: vec!["oops".to_string()] });
    assert_eq!(
        failed,
        CliResult::Failure { error_code: "WH_CLI_EXIT_ERROR".to_string(), error_message: "command exited with code 2: oops".to_string() }
    );
    let no_code = command_result(&CommandOutcome::Exited { success: false, code: None, output_lines: vec![] });
    assert_eq!(
        no_code,
        CliResult::Failure { error_code: "WH_CLI_EXIT_ERROR".to_string(), error_message: "command exited with code -1: ".to_string() }
    );
    let timeout = command_result(&CommandOutcome::TimedOut);
    assert_eq!(
        timeout,
        CliResult::Failure { error_code: "WH_CLI_TIMEOUT".to_string(), error_message: "command timed out after 60 seconds".to_string() }
    );
    let spawn = command_result(&CommandOutcome::SpawnFailed { error: "no such file".to_string() });
    assert_eq!(
        spawn,
        CliResult::Failure {
            error_code: "WH_CLI_SPAWN_FAILED".to_string(),
            error_message: "failed to spawn `wh` process: no such file".to_string()
        }
    );
    let wait = command_result(&CommandOutcome::WaitFailed { error: "broken".to_string(), output_lines: vec!["x".to_string()] });
    assert_eq!(
        wait,
        CliResult::Failure {
            error_code: "WH_CLI_EXECUTION_FAILED".to_string(),
            error_message: "command failed: broken. Output: x".to_string()
        }
    );
}
