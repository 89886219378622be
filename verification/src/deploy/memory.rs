//! An agent's MEMORY.md: the checks on the agent name, the path of the
//! file, the content after appending an entry, and the attributed commit
//! message. Reading and writing the file and running git are left to the
//! caller.

use vstd::prelude::*;
use crate::deploy::{DeployError, deploy_error_message};
use crate::text::{chars_of, dec, push_str, push_u64, str_eq};
use vstd::string::StringExecFns;

verus! {

/// Errors of memory operations.
#[derive(Debug, Clone, PartialEq, Eq)]
pub enum MemoryError {
    /// A read failure, with its text.
    FileRead(String),
    GitFailed(String),
    GitTimeout(u64),
    InvalidPath(String),
}

pub open spec fn memory_error_code(e: MemoryError) -> Seq<char> {
    match e {
        MemoryError::FileRead(_) => "FILE_READ_ERROR"@,
        MemoryError::GitFailed(_) => "GIT_FAILED"@,
        MemoryError::GitTimeout(_) => "GIT_TIMEOUT"@,
        MemoryError::InvalidPath(_) => "INVALID_PATH"@,
    }
}

pub open spec fn memory_error_message(e: MemoryError) -> Seq<char> {
    match e {
        MemoryError::FileRead(m) => "failed to read memory file: "@ + m@,
        MemoryError::GitFailed(m) => "git operation failed: "@ + m@,
        MemoryError::GitTimeout(n) => "git operation timed out after "@ + dec(n as nat) + "s"@,
        MemoryError::InvalidPath(m) => "invalid path or agent name: "@ + m@,
    }
}

impl MemoryError {
    /// Returns the error code string in SCREAMING_SNAKE_CASE.
    pub fn code(&self) -> (c: &'static str)
        ensures
            c@ == memory_error_code(*self),
    {
        match self {
            MemoryError::FileRead(_) => "FILE_READ_ERROR",
            MemoryError::GitFailed(_) => "GIT_FAILED",
            MemoryError::GitTimeout(_) => "GIT_TIMEOUT",
            MemoryError::InvalidPath(_) => "INVALID_PATH",
        }
    }

    /// The display text of the error.
    pub fn message(&self) -> (m: String)
        ensures
            m@ == memory_error_message(*self),
    {
        let mut out = String::new();
        match self {
            MemoryError::FileRead(m) => {
                push_str(&mut out, "failed to read memory file: ");
                push_str(&mut out, m.as_str());
            },
            MemoryError::GitFailed(m) => {
                push_str(&mut out, "git operation failed: ");
                push_str(&mut out, m.as_str());
            },
            MemoryError::GitTimeout(n) => {
                push_str(&mut out, "git operation timed out after ");
                push_u64(&mut out, *n);
                push_str(&mut out, "s");
            },
            MemoryError::InvalidPath(m) => {
                push_str(&mut out, "invalid path or agent name: ");
                push_str(&mut out, m.as_str());
            },
        }
        assert(out@ =~= memory_error_message(*self));
        out
    }

    /// The memory error for a failed git step: a timeout stays a timeout, a
    /// git failure stays a git failure, a read failure stays a read failure,
    /// and anything else is a git failure with its text.
    pub fn from_deploy(err: DeployError) -> (r: MemoryError)
        ensures
            match err {
                DeployError::GitTimeout(secs) => r == MemoryError::GitTimeout(secs),
                DeployError::GitFailed(m) => r == MemoryError::GitFailed(m),
                DeployError::FileRead(m) => r == MemoryError::FileRead(m),
                _ => r is GitFailed && r->GitFailed_0@ == deploy_error_message(err),
            },
    {
        match err {
            DeployError::GitTimeout(secs) => MemoryError::GitTimeout(secs),
            DeployError::GitFailed(m) => MemoryError::GitFailed(m),
            DeployError::FileRead(m) => MemoryError::FileRead(m),
            other => MemoryError::GitFailed(other.message()),
        }
    }
}

/// The result of a successful memory write.
#[derive(Debug, Clone)]
pub struct MemoryUpdateResult {
    /// The git commit hash of the memory update.
    pub commit_hash: String,
    /// The path of the MEMORY.md file.
    pub file_path: String,
    /// RFC 3339 time of the update.
    pub timestamp: String,
}

/// Whether `char::is_alphanumeric` holds of a character: it is alphabetic
/// or numeric in Unicode.
pub uninterp spec fn alphanumeric(c: char) -> bool;

/// `char::is_alphanumeric`, a function of the character alone; the Unicode
/// tables are not restated.
#[verifier::external_body]
fn is_alphanumeric(c: char) -> (b: bool)
    ensures
        b == alphanumeric(c),
{
    c.is_alphanumeric()
}

/// What the agent name check answers: `None` for a valid name, else the
/// reason. A name must be non-empty, consist of alphanumeric characters and
/// hyphens, and neither start nor end with a hyphen.
pub open spec fn agent_name_problem(n: Seq<char>) -> Option<Seq<char>> {
    if n.len() == 0 {
        Some("agent name must not be empty"@)
    } else if exists|i: int| 0 <= i < n.len() && !(alphanumeric(#[trigger] n[i]) || n[i] == '-') {
        Some("agent name '"@ + n + "' contains invalid characters \u{2014} only alphanumeric and hyphens allowed"@)
    } else if n[0] == '-' || n.last() == '-' {
        Some("agent name '"@ + n + "' must not start or end with a hyphen"@)
    } else {
        None
    }
}

/// Validate that an agent name is safe for use as a directory name.
pub fn validate_agent_name(agent_name: &str) -> (r: Result<(), MemoryError>)
    ensures
        match agent_name_problem(agent_name@) {
            None => r is Ok,
            Some(m) => r is Err && r->Err_0 is InvalidPath && r->Err_0->InvalidPath_0@ == m,
        },
{
    let v = chars_of(agent_name);
    if v.len() == 0 {
        return Err(MemoryError::InvalidPath(String::from_str("agent name must not be empty")));
    }
    for i in 0..v.len()
        invariant
            v@ == agent_name@,
            forall|j: int| 0 <= j < i ==> alphanumeric(#[trigger] v@[j]) || v@[j] == '-',
    {
        if !(is_alphanumeric(v[i]) || v[i] == '-') {
            let mut m = String::new();
            push_str(&mut m, "agent name '");
            push_str(&mut m, agent_name);
            push_str(&mut m, "' contains invalid characters \u{2014} only alphanumeric and hyphens allowed");
            return Err(MemoryError::InvalidPath(m));
        }
    }
    if v[0] == '-' || v[v.len() - 1] == '-' {
        let mut m = String::new();
        push_str(&mut m, "agent name '");
        push_str(&mut m, agent_name);
        push_str(&mut m, "' must not start or end with a hyphen");
        return Err(MemoryError::InvalidPath(m));
    }
    Ok(())
}

/// `root` joined with `rest` as `Path::join` does for a relative `rest`: a
/// `/` goes between unless `root` is empty or already ends with one.
pub open spec fn path_join(root: Seq<char>, rest: Seq<char>) -> Seq<char> {
    if root.len() == 0 || root.last() == '/' {
        root + rest
    } else {
        root + "/"@ + rest
    }
}

/// `root` joined with a relative `rest`.
pub fn join_path(root: &str, rest: &str) -> (p: String)
    ensures
        p@ == path_join(root@, rest@),
{
    let v = chars_of(root);
    let mut p = String::from_str(root);
    if !(v.len() == 0 || v[v.len() - 1] == '/') {
        push_str(&mut p, "/");
    }
    push_str(&mut p, rest);
    p
}

/// The MEMORY.md path of an agent relative to the workspace.
pub open spec fn memory_relative_path(agent: Seq<char>) -> Seq<char> {
    ".wh/agents/"@ + agent + "/MEMORY.md"@
}

/// The path of an agent's MEMORY.md relative to the workspace.
pub fn memory_relative(agent_name: &str) -> (p: String)
    ensures
        p@ == memory_relative_path(agent_name@),
{
    let mut p = String::new();
    push_str(&mut p, ".wh/agents/");
    push_str(&mut p, agent_name);
    push_str(&mut p, "/MEMORY.md");
    p
}

/// Resolve the MEMORY.md path of an agent: `.wh/agents/<agent>/MEMORY.md`
/// under the workspace root.
pub fn memory_path(workspace_root: &str, agent_name: &str) -> (p: String)
    ensures
        p@ == path_join(workspace_root@, memory_relative_path(agent_name@)),
{
    let rel = memory_relative(agent_name);
    join_path(workspace_root, rel.as_str())
}

/// The content after appending `entry`: after a `---` separator when there
/// is existing non-empty content, else the entry alone.
pub open spec fn appended(existing: Option<Seq<char>>, entry: Seq<char>) -> Seq<char> {
    match existing {
        Some(e) => if e.len() > 0 {
            e + "\n\n---\n\n"@ + entry
        } else {
            entry
        },
        None => entry,
    }
}

/// The new MEMORY.md content when appending `entry` to what is there.
pub fn append_memory_content(existing: Option<String>, entry: &str) -> (c: String)
    ensures
        c@ == appended(match existing {
            Some(e) => Some(e@),
            None => None,
        }, entry@),
{
    match existing {
        Some(e) => {
            if e.as_str().is_empty() {
                String::from_str(entry)
            } else {
                let mut c = e;
                push_str(&mut c, "\n\n---\n\n");
                push_str(&mut c, entry);
                c
            }
        },
        None => String::from_str(entry),
    }
}

/// The attributed commit message of a memory update.
pub open spec fn memory_commit_text(agent: Seq<char>, reason: Seq<char>, timestamp: Seq<char>) -> Seq<char> {
    "["@ + agent + "] memory: "@ + reason + "\n\nTimestamp: "@ + timestamp + "\nAgent: "@ + agent
}

/// The commit message of a memory update, attributed to the agent.
pub fn memory_commit_message(agent_name: &str, reason: &str, timestamp: &str) -> (m: String)
    ensures
        m@ == memory_commit_text(agent_name@, reason@, timestamp@),
{
    let mut m = String::new();
    push_str(&mut m, "[");
    push_str(&mut m, agent_name);
    push_str(&mut m, "] memory: ");
    push_str(&mut m, reason);
    push_str(&mut m, "\n\nTimestamp: ");
    push_str(&mut m, timestamp);
    push_str(&mut m, "\nAgent: ");
    push_str(&mut m, agent_name);
    m
}

} // verus!
