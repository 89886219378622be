//! Built-in `wh-cli` skill: command classification and the permission
//! decision taken before a `wh` command is run on behalf of an agent.
//!
//! Two-tier permissions: read-only commands (tier 1) are open to any agent
//! holding the skill, write commands (tier 2) need `topology_edit`, and
//! `secrets`, `completion`, `doctor` and every unknown command are blocked.

use vstd::prelude::*;
use crate::strmap::StrMap;
use crate::text::{join, join_strings, push_str, push_i64, dec_signed, split_whitespace, str_eq, string_views, words};
use vstd::string::StringExecFns;

verus! {

/// The well-known skill name for the built-in CLI handler.
pub const WH_CLI_SKILL_NAME: &'static str = "wh-cli";

/// Command permission tier.
#[derive(Debug, Clone, Copy, PartialEq, Eq, Structural)]
pub enum CommandTier {
    /// Read-only commands — any agent with `wh-cli` skill can execute.
    Tier1,
    /// Write commands — requires `topology_edit: true`.
    Tier2,
    /// Unconditionally blocked commands.
    Blocked,
}

/// The tier of a command given as its whitespace-separated tokens.
pub open spec fn command_tier(args: Seq<Seq<char>>) -> CommandTier {
    if args.len() == 0 {
        CommandTier::Blocked
    } else {
        let first = args[0];
        let second = if args.len() > 1 { args[1] } else { ""@ };
        if first == "secrets"@ || first == "completion"@ || first == "doctor"@ {
            CommandTier::Blocked
        } else if (first == "topology"@ && (second == "plan"@ || second == "lint"@)) || (first
            == "stream"@ && second == "tail"@) {
            CommandTier::Tier1
        } else if (first == "topology"@ && (second == "apply"@ || second == "destroy"@)) || (
        first == "skill"@ && second == "create"@) {
            CommandTier::Tier2
        } else if first == "ps"@ || first == "status"@ || first == "logs"@ || first
            == "capabilities"@ || first == "reference"@ {
            CommandTier::Tier1
        } else {
            CommandTier::Blocked
        }
    }
}

/// The fixed allowlist, in terms of tokens: a command is Tier 1 (read-only)
/// exactly when it is `ps`, `status`, `logs`, `capabilities` or `reference`,
/// or starts with `topology plan`, `topology lint` or `stream tail`; Tier 2
/// (write) exactly when it starts with `topology apply`, `topology destroy`
/// or `skill create`; every other command, the empty one included, is
/// blocked. In particular `stream` is allowed only with `tail`.
pub proof fn law_command_allowlist(args: Seq<Seq<char>>)
    ensures
        command_tier(args) == CommandTier::Tier1 <==> args.len() > 0 && ({
            let f = args[0];
            ||| f == "ps"@ || f == "status"@ || f == "logs"@ || f == "capabilities"@ || f == "reference"@
            ||| args.len() > 1 && f == "topology"@ && (args[1] == "plan"@ || args[1] == "lint"@)
            ||| args.len() > 1 && f == "stream"@ && args[1] == "tail"@
        }),
        command_tier(args) == CommandTier::Tier2 <==> args.len() > 1 && ({
            let f = args[0];
            ||| f == "topology"@ && (args[1] == "apply"@ || args[1] == "destroy"@)
            ||| f == "skill"@ && args[1] == "create"@
        }),
        args.len() > 0 && args[0] == "stream"@ && !(args.len() > 1 && args[1] == "tail"@) ==> command_tier(args)
            == CommandTier::Blocked,
{
    reveal_strlit("");
    reveal_strlit("secrets");
    reveal_strlit("completion");
    reveal_strlit("doctor");
    reveal_strlit("topology");
    reveal_strlit("plan");
    reveal_strlit("lint");
    reveal_strlit("stream");
    reveal_strlit("tail");
    reveal_strlit("apply");
    reveal_strlit("destroy");
    reveal_strlit("skill");
    reveal_strlit("create");
    reveal_strlit("ps");
    reveal_strlit("status");
    reveal_strlit("logs");
    reveal_strlit("capabilities");
    reveal_strlit("reference");
    assert("ps"@ != "secrets"@) by {
        assert("ps"@.len() != "secrets"@.len());
    }
    assert("ps"@ != "completion"@) by {
        assert("ps"@.len() != "completion"@.len());
    }
    assert("ps"@ != "doctor"@) by {
        assert("ps"@.len() != "doctor"@.len());
    }
    assert("ps"@ != "topology"@) by {
        assert("ps"@.len() != "topology"@.len());
    }
    assert("ps"@ != "stream"@) by {
        assert("ps"@.len() != "stream"@.len());
    }
    assert("ps"@ != "skill"@) by {
        assert("ps"@.len() != "skill"@.len());
    }
    assert("status"@ != "secrets"@) by {
        assert("status"@.len() != "secrets"@.len());
    }
    assert("status"@ != "completion"@) by {
        assert("status"@.len() != "completion"@.len());
    }
    assert("status"@ != "doctor"@) by {
        assert("status"@[0] != "doctor"@[0]);
    }
    assert("status"@ != "topology"@) by {
        assert("status"@.len() != "topology"@.len());
    }
    assert("status"@ != "stream"@) by {
        assert("status"@[2] != "stream"@[2]);
    }
    assert("status"@ != "skill"@) by {
        assert("status"@.len() != "skill"@.len());
    }
    assert("logs"@ != "secrets"@) by {
        assert("logs"@.len() != "secrets"@.len());
    }
    assert("logs"@ != "completion"@) by {
        assert("logs"@.len() != "completion"@.len());
    }
    assert("logs"@ != "doctor"@) by {
        assert("logs"@.len() != "doctor"@.len());
    }
    assert("logs"@ != "topology"@) by {
        assert("logs"@.len() != "topology"@.len());
    }
    assert("logs"@ != "stream"@) by {
        assert("logs"@.len() != "stream"@.len());
    }
    assert("logs"@ != "skill"@) by {
        assert("logs"@.len() != "skill"@.len());
    }
    assert("capabilities"@ != "secrets"@) by {
        assert("capabilities"@.len() != "secrets"@.len());
    }
    assert("capabilities"@ != "completion"@) by {
        assert("capabilities"@.len() != "completion"@.len());
    }
    assert("capabilities"@ != "doctor"@) by {
        assert("capabilities"@.len() != "doctor"@.len());
    }
    assert("capabilities"@ != "topology"@) by {
        assert("capabilities"@.len() != "topology"@.len());
    }
    assert("capabilities"@ != "stream"@) by {
        assert("capabilities"@.len() != "stream"@.len());
    }
    assert("capabilities"@ != "skill"@) by {
        assert("capabilities"@.len() != "skill"@.len());
    }
    assert("reference"@ != "secrets"@) by {
        assert("reference"@.len() != "secrets"@.len());
    }
    assert("reference"@ != "completion"@) by {
        assert("reference"@.len() != "completion"@.len());
    }
    assert("reference"@ != "doctor"@) by {
        assert("reference"@.len() != "doctor"@.len());
    }
    assert("reference"@ != "topology"@) by {
        assert("reference"@.len() != "topology"@.len());
    }
    assert("reference"@ != "stream"@) by {
        assert("reference"@.len() != "stream"@.len());
    }
    assert("reference"@ != "skill"@) by {
        assert("reference"@.len() != "skill"@.len());
    }
    assert("topology"@ != "secrets"@) by {
        assert("topology"@.len() != "secrets"@.len());
    }
    assert("topology"@ != "completion"@) by {
        assert("topology"@.len() != "completion"@.len());
    }
    assert("topology"@ != "doctor"@) by {
        assert("topology"@.len() != "doctor"@.len());
    }
    assert("stream"@ != "secrets"@) by {
        assert("stream"@.len() != "secrets"@.len());
    }
    assert("stream"@ != "completion"@) by {
        assert("stream"@.len() != "completion"@.len());
    }
    assert("stream"@ != "doctor"@) by {
        assert("stream"@[0] != "doctor"@[0]);
    }
    assert("skill"@ != "secrets"@) by {
        assert("skill"@.len() != "secrets"@.len());
    }
    assert("skill"@ != "completion"@) by {
        assert("skill"@.len() != "completion"@.len());
    }
    assert("skill"@ != "doctor"@) by {
        assert("skill"@.len() != "doctor"@.len());
    }
    assert("topology"@ != "stream"@) by {
        assert("topology"@.len() != "stream"@.len());
    }
    assert("topology"@ != "skill"@) by {
        assert("topology"@.len() != "skill"@.len());
    }
    assert("stream"@ != "skill"@) by {
        assert("stream"@.len() != "skill"@.len());
    }
    assert("plan"@ != "apply"@) by {
        assert("plan"@.len() != "apply"@.len());
    }
    assert("plan"@ != "destroy"@) by {
        assert("plan"@.len() != "destroy"@.len());
    }
    assert("lint"@ != "apply"@) by {
        assert("lint"@.len() != "apply"@.len());
    }
    assert("lint"@ != "destroy"@) by {
        assert("lint"@.len() != "destroy"@.len());
    }
    assert("tail"@ != "create"@) by {
        assert("tail"@.len() != "create"@.len());
    }
    assert(""@ != "plan"@) by {
        assert(""@.len() != "plan"@.len());
    }
    assert(""@ != "lint"@) by {
        assert(""@.len() != "lint"@.len());
    }
    assert(""@ != "tail"@) by {
        assert(""@.len() != "tail"@.len());
    }
    assert(""@ != "apply"@) by {
        assert(""@.len() != "apply"@.len());
    }
    assert(""@ != "destroy"@) by {
        assert(""@.len() != "destroy"@.len());
    }
    assert(""@ != "create"@) by {
        assert(""@.len() != "create"@.len());
    }
}

/// The views of a slice of string slices.
pub open spec fn views(args: Seq<&str>) -> Seq<Seq<char>> {
    args.map_values(|a: &str| a@)
}

/// Classify a command by its first token(s) into a permission tier.
///
/// Multi-word subcommands (`topology plan`, `stream tail`, ...) are checked on
/// the first two tokens, single-word commands on the first. Unknown commands
/// are blocked: the allowlist is fixed.
pub fn classify_command(args: &[&str]) -> (t: CommandTier)
    ensures
        t == command_tier(views(args@)),
{
    if args.len() == 0 {
        return CommandTier::Blocked;
    }
    let first = args[0];
    let second = if args.len() > 1 { args[1] } else { "" };
    assert(views(args@)[0] == first@);
    assert(args.len() > 1 ==> views(args@)[1] == second@);
    if str_eq(first, "secrets") || str_eq(first, "completion") || str_eq(first, "doctor") {
        return CommandTier::Blocked;
    }
    let topology = str_eq(first, "topology");
    if (topology && (str_eq(second, "plan") || str_eq(second, "lint"))) || (str_eq(first, "stream")
        && str_eq(second, "tail")) {
        return CommandTier::Tier1;
    }
    if (topology && (str_eq(second, "apply") || str_eq(second, "destroy"))) || (str_eq(
        first,
        "skill",
    ) && str_eq(second, "create")) {
        return CommandTier::Tier2;
    }
    if str_eq(first, "ps") || str_eq(first, "status") || str_eq(first, "logs") || str_eq(
        first,
        "capabilities",
    ) || str_eq(first, "reference") {
        CommandTier::Tier1
    } else {
        CommandTier::Blocked
    }
}

/// Why a `wh-cli` invocation is refused before anything runs.
#[derive(Debug, Clone, PartialEq, Eq)]
pub struct CliRejection {
    /// Error code carried by the terminal skill result.
    pub error_code: String,
    /// Human-readable message carried by the terminal skill result.
    pub error_message: String,
}

/// What the handler does with an invocation.
#[derive(Debug, Clone, PartialEq, Eq)]
pub enum CliDecision {
    /// Run `wh` with the given tokens.
    Run,
    /// Refuse with a terminal error result.
    Reject(CliRejection),
}

/// Built-in `wh-cli` skill handler: the working directory for `wh` child
/// processes and the per-agent `topology_edit` permissions.
pub struct WhCliHandler {
    /// Working directory for `wh` child processes.
    pub topology_dir: String,
    /// Map of agent id to `topology_edit` permission; absent agents have none.
    pub agent_permissions: StrMap<bool>,
}

impl WhCliHandler {
    /// Create a new handler with the given topology directory and agent permissions.
    pub fn new(topology_dir: String, agent_permissions: StrMap<bool>) -> (h: Self)
        ensures
            h.topology_dir@ == topology_dir@,
            h.agent_permissions == agent_permissions,
    {
        WhCliHandler { topology_dir, agent_permissions }
    }

    /// Check if the given agent has `topology_edit` permission.
    pub fn has_topology_edit(&self, agent_id: &str) -> (b: bool)
        ensures
            b == (self.agent_permissions.lookup(agent_id@) == Some(true)),
    {
        match self.agent_permissions.get(agent_id) {
            Some(p) => *p,
            None => false,
        }
    }

    /// Decide whether `wh <args>` may run for `agent_id`; `args_str` is the
    /// command line the tokens were split from, quoted in the refusal message.
    pub fn decide(&self, agent_id: &str, args: &[&str], args_str: &str) -> (d: CliDecision)
        ensures
            match command_tier(views(args@)) {
                CommandTier::Blocked => d is Reject && d->Reject_0.error_code@ == "WH_CLI_COMMAND_BLOCKED"@
                    && d->Reject_0.error_message@ == "command '"@ + (if args@.len() > 0 {
                    args@[0]@
                } else {
                    "(empty)"@
                }) + "' is blocked"@,
                CommandTier::Tier2 => if self.agent_permissions.lookup(agent_id@) == Some(true) {
                    d == CliDecision::Run
                } else {
                    d is Reject && d->Reject_0.error_code@ == "WH_CLI_PERMISSION_DENIED"@
                        && d->Reject_0.error_message@ == "command '"@ + args_str@
                        + "' requires topology_edit capability"@
                },
                CommandTier::Tier1 => d == CliDecision::Run,
            },
    {
        match classify_command(args) {
            CommandTier::Blocked => {
                let first = if args.len() > 0 { args[0] } else { "(empty)" };
                let mut msg = String::new();
                push_str(&mut msg, "command '");
                push_str(&mut msg, first);
                push_str(&mut msg, "' is blocked");
                CliDecision::Reject(CliRejection {
                    error_code: String::from_str("WH_CLI_COMMAND_BLOCKED"),
                    error_message: msg,
                })
            },
            CommandTier::Tier2 => {
                if self.has_topology_edit(agent_id) {
                    CliDecision::Run
                } else {
                    let mut msg = String::new();
                    push_str(&mut msg, "command '");
                    push_str(&mut msg, args_str);
                    push_str(&mut msg, "' requires topology_edit capability");
                    CliDecision::Reject(CliRejection {
                        error_code: String::from_str("WH_CLI_PERMISSION_DENIED"),
                        error_message: msg,
                    })
                }
            },
            CommandTier::Tier1 => CliDecision::Run,
        }
    }
}

/// Seconds a `wh` command may run before it is killed.
pub const COMMAND_TIMEOUT_SECS: u64 = 60;

impl WhCliHandler {
    /// Split a `wh-cli` command line at whitespace and decide whether it may
    /// run for `agent_id`: the tokens to run `wh` with, and the decision.
    pub fn plan_execution(&self, agent_id: &str, args_str: &str) -> (r: (Vec<String>, CliDecision))
        ensures
            string_views(r.0@) == words(args_str@),
            ({
                let args = words(args_str@);
                match command_tier(args) {
                    CommandTier::Blocked => r.1 is Reject && r.1->Reject_0.error_code@ == "WH_CLI_COMMAND_BLOCKED"@
                        && r.1->Reject_0.error_message@ == "command '"@ + (if args.len() > 0 {
                        args[0]
                    } else {
                        "(empty)"@
                    }) + "' is blocked"@,
                    CommandTier::Tier2 => if self.agent_permissions.lookup(agent_id@) == Some(true) {
                        r.1 == CliDecision::Run
                    } else {
                        r.1 is Reject && r.1->Reject_0.error_code@ == "WH_CLI_PERMISSION_DENIED"@
                            && r.1->Reject_0.error_message@ == "command '"@ + args_str@
                            + "' requires topology_edit capability"@
                    },
                    CommandTier::Tier1 => r.1 == CliDecision::Run,
                }
            }),
    {
        let tokens = split_whitespace(args_str);
        let mut refs: Vec<&str> = Vec::new();
        for i in 0..tokens.len()
            invariant
                refs@.len() == i,
                forall|j: int| 0 <= j < i ==> refs@[j]@ == tokens@[j]@,
        {
            refs.push(tokens[i].as_str());
        }
        assert(views(refs@) =~= string_views(tokens@));
        let d = self.decide(agent_id, refs.as_slice(), args_str);
        (tokens, d)
    }
}

/// How a `wh` child process ended.
#[derive(Debug, Clone, PartialEq, Eq)]
pub enum CommandOutcome {
    /// The process could not be started.
    SpawnFailed { error: String },
    /// The process exited; `code` is its exit code when it had one.
    Exited { success: bool, code: Option<i32>, output_lines: Vec<String> },
    /// Waiting for the process failed after its output was read.
    WaitFailed { error: String, output_lines: Vec<String> },
    /// The process ran past the timeout and was killed.
    TimedOut,
}

/// The terminal result of a `wh-cli` invocation.
#[derive(Debug, Clone, PartialEq, Eq)]
pub enum CliResult {
    Success { output: String },
    Failure { error_code: String, error_message: String },
}

/// The terminal result for how a command ended: success carries the output
/// lines joined by newlines; a failure carries an error code and message.
pub open spec fn command_result_spec(o: CommandOutcome) -> (bool, Seq<char>, Seq<char>) {
    match o {
        CommandOutcome::SpawnFailed { error } => (false, "WH_CLI_SPAWN_FAILED"@, "failed to spawn `wh` process: "@ + error@),
        CommandOutcome::Exited { success, code, output_lines } => {
            let out = join(string_views(output_lines@), "\n"@);
            if success {
                (true, Seq::empty(), out)
            } else {
                (false, "WH_CLI_EXIT_ERROR"@, "command exited with code "@ + dec_signed(
                    match code {
                        Some(c) => c as int,
                        None => -1,
                    },
                ) + ": "@ + out)
            }
        },
        CommandOutcome::WaitFailed { error, output_lines } => (false, "WH_CLI_EXECUTION_FAILED"@, "command failed: "@
            + error@ + ". Output: "@ + join(string_views(output_lines@), "\n"@)),
        CommandOutcome::TimedOut => (false, "WH_CLI_TIMEOUT"@, "command timed out after 60 seconds"@),
    }
}

/// The terminal result of a `wh-cli` invocation from how its command ended.
pub fn command_result(outcome: &CommandOutcome) -> (r: CliResult)
    ensures
        ({
            let (ok, code, text) = command_result_spec(*outcome);
            if ok {
                r is Success && r->Success_output@ == text
            } else {
                r is Failure && r->Failure_error_code@ == code && r->Failure_error_message@ == text
            }
        }),
{
    match outcome {
        CommandOutcome::SpawnFailed { error } => {
            let mut m = String::new();
            push_str(&mut m, "failed to spawn `wh` process: ");
            push_str(&mut m, error.as_str());
            CliResult::Failure { error_code: String::from_str("WH_CLI_SPAWN_FAILED"), error_message: m }
        },
        CommandOutcome::Exited { success, code, output_lines } => {
            let out = join_strings(output_lines.as_slice(), "\n");
            if *success {
                CliResult::Success { output: out }
            } else {
                let c: i64 = match code {
                    Some(c) => *c as i64,
                    None => -1,
                };
                let mut m = String::new();
                push_str(&mut m, "command exited with code ");
                push_i64(&mut m, c);
                push_str(&mut m, ": ");
                push_str(&mut m, out.as_str());
                CliResult::Failure { error_code: String::from_str("WH_CLI_EXIT_ERROR"), error_message: m }
            }
        },
        CommandOutcome::WaitFailed { error, output_lines } => {
            let out = join_strings(output_lines.as_slice(), "\n");
            let mut m = String::new();
            push_str(&mut m, "command failed: ");
            push_str(&mut m, error.as_str());
            push_str(&mut m, ". Output: ");
            push_str(&mut m, out.as_str());
            CliResult::Failure { error_code: String::from_str("WH_CLI_EXECUTION_FAILED"), error_message: m }
        },
        CommandOutcome::TimedOut => CliResult::Failure {
            error_code: String::from_str("WH_CLI_TIMEOUT"),
            error_message: String::from_str("command timed out after 60 seconds"),
        },
    }
}

} // verus!
