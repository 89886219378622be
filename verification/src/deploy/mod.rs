//! Deploy pipeline: lint -> plan -> commit -> apply.
//!
//! The topology model of a `.wh` file, its validation, the merge of a folder
//! of `.wh` files, and the canonical ordering used for diffing.

pub mod apply;
pub mod canonical;
pub mod approval;
pub mod autonomous;
pub mod composition;
pub mod gitignore;
pub mod lint;
pub mod memory;
pub mod persona;
pub mod merge;
pub mod plan;
pub mod plan_hash;
pub mod podman;
pub mod volumes;

use vstd::prelude::*;
use crate::strmap::StrMap;
use crate::text::{chars_of, dec, join, push_char, push_str, push_u64, seq_lt, str_eq, str_lt, string_views,
    lemma_seq_lt_irrefl, lemma_seq_lt_trans, lemma_seq_lt_total, lemma_seq_lt_asym};
use crate::deploy::canonical::CanonicalOrder;
use vstd::string::StringExecFns;

verus! {

/// Threshold level for autonomous apply: which impact levels need human approval.
#[derive(Debug, Clone, Copy, PartialEq, Eq, Structural)]
pub enum ThresholdLevel {
    Low,
    Medium,
    High,
}

/// Guardrails for a topology: safety constraints that block deployment if exceeded.
#[derive(Debug, Clone, PartialEq)]
pub struct Guardrails {
    /// Maximum allowed replicas for any single agent in this topology.
    pub max_replicas: Option<u32>,
    /// Threshold level for autonomous apply; `None` lets every change proceed.
    pub autonomous_apply_threshold: Option<ThresholdLevel>,
    /// Timeout in seconds for pending human approval requests.
    pub approval_timeout_secs: Option<u64>,
}

impl Default for Guardrails {
    fn default() -> (g: Self)
        ensures
            g.max_replicas is None,
            g.autonomous_apply_threshold is None,
            g.approval_timeout_secs is None,
    {
        Guardrails { max_replicas: None, autonomous_apply_threshold: None, approval_timeout_secs: None }
    }
}

/// Broker container configuration within a topology.
#[derive(Debug, Clone, PartialEq)]
pub struct BrokerSpec {
    /// Container image for the broker.
    pub image: String,
    /// Port mappings published on the host; the standard ports when empty.
    pub ports: Vec<String>,
}

/// A skill reference in an agent's configuration.
#[derive(Debug, Clone, PartialEq, Eq)]
pub struct SkillRefConfig {
    /// Skill name (a directory in the skills repo).
    pub name: String,
    /// Version pin: bare semver, `"branch:<name>"`, or `"commit:<sha>"`.
    pub version: String,
}

/// A named volume mounted into an agent container.
#[derive(Debug, Clone, PartialEq, Eq)]
pub struct VolumeMount {
    /// Named volume.
    pub name: String,
    /// Mount point inside the container.
    pub mount: String,
    /// `"ro"` or `"rw"`; read-write when absent.
    pub mount_mode: Option<String>,
}

/// An agent declaration within a topology.
#[derive(Debug, Clone, PartialEq)]
pub struct Agent {
    pub name: String,
    pub image: String,
    pub replicas: u32,
    pub streams: Vec<String>,
    /// Optional path to the persona files directory.
    pub persona: Option<String>,
    /// Optional list of skills available to this agent.
    pub skills: Option<Vec<SkillRefConfig>>,
    /// Whether this agent may edit `.wh` files and apply topologies.
    pub topology_edit: Option<bool>,
    /// Volumes mounted into the agent container.
    pub volumes: Vec<VolumeMount>,
    /// Extra environment variables.
    pub env: Option<StrMap<String>>,
}

/// A stream declaration within a topology.
#[derive(Debug, Clone, PartialEq, Eq)]
pub struct Stream {
    pub name: String,
    pub retention: Option<String>,
    /// Optional human-readable description (becomes the stream's CONTEXT.md).
    pub description: Option<String>,
}

/// A thread/topic entry within a chat configuration.
#[derive(Debug, Clone, PartialEq, Eq)]
pub struct SurfaceThreadConfig {
    /// Topic name.
    pub id: String,
    /// Stream name this topic is bridged to.
    pub stream: String,
}

/// A chat entry within a surface's `chats` block.
#[derive(Debug, Clone, PartialEq, Eq)]
pub struct SurfaceChatConfig {
    /// `@username` for DMs, or the group display name for supergroups.
    pub id: String,
    /// Stream name for DM chats.
    pub stream: Option<String>,
    /// Thread (topic) list for supergroup chats.
    pub threads: Option<Vec<SurfaceThreadConfig>>,
}

/// A surface declaration (Telegram, CLI, ...) within a topology.
#[derive(Debug, Clone, PartialEq)]
pub struct Surface {
    pub name: String,
    /// Surface type: "telegram" or "cli".
    pub kind: String,
    /// Stream name this surface connects to (single-stream mode); may be empty.
    pub stream: String,
    /// Optional environment variables passed to the surface process.
    pub env: Option<StrMap<String>>,
    /// Multi-chat configuration (Telegram surfaces only).
    pub chats: Option<Vec<SurfaceChatConfig>>,
}

/// A subsystem declaration, expanded into concrete primitives before validation.
#[derive(Debug, Clone, PartialEq, Eq)]
pub struct SubsystemDecl {
    /// Subsystem template path; `subsystems/llm-wiki/` is the one known.
    pub path: String,
    /// Member agent names.
    pub members: Vec<String>,
    /// Library name; the topology name when absent.
    pub library_name: Option<String>,
    /// Librarian locales.
    pub locales: Option<Vec<String>>,
    /// Path of a custom decision prompt for the librarian.
    pub decision_prompt: Option<String>,
}

/// A parsed and validated `.wh` topology.
#[derive(Debug, Clone, PartialEq)]
pub struct Topology {
    pub api_version: String,
    pub name: String,
    /// Optional broker configuration.
    pub broker: Option<BrokerSpec>,
    /// Optional path or URL to the skills git repository.
    pub skills_repo: Option<String>,
    pub agents: Vec<Agent>,
    pub streams: Vec<Stream>,
    /// Surface declarations (Telegram, CLI, etc.).
    pub surfaces: Vec<Surface>,
    /// Optional guardrails for safety constraints.
    pub guardrails: Option<Guardrails>,
    /// Subsystem declarations, emptied by expansion.
    pub subsystems: Vec<SubsystemDecl>,
}

/// A value recorded in a change: the new agent's image and replicas, a
/// stream's provider, a replica count, an image, or an optional retention.
#[derive(Debug, Clone, PartialEq)]
pub enum ChangeValue {
    AgentSpec { image: String, replicas: u32 },
    Provider(String),
    Count(u32),
    Text(String),
    OptText(Option<String>),
}

/// A single change detected between current and desired topology state.
#[derive(Debug, Clone, PartialEq)]
pub struct Change {
    /// Operation type: "+" (add), "-" (remove), "~" (modify).
    pub op: String,
    /// Component description, e.g. "agent researcher".
    pub component: String,
    /// Field that changed (for modifications).
    pub field: Option<String>,
    /// Previous value (for modifications).
    pub from: Option<ChangeValue>,
    /// New value.
    pub to: Option<ChangeValue>,
    /// Source `.wh` file this component originated from.
    pub source_file: Option<String>,
}

/// Errors that can occur during deploy operations.
#[derive(Debug, Clone, PartialEq, Eq)]
pub enum DeployError {
    FileRead(String),
    InvalidTopology(String),
    YamlParse(String),
    PlanFailed(String),
    ApplyFailed(String),
    GitFailed(String),
    GitTimeout(u64),
    PolicyViolation(String),
    SelfDestructDetected(String),
    PodmanNotFound(String),
    PodmanFailed(String),
    PersonaLoadFailed(String),
    SecretsDetected(Vec<String>),
    ApprovalRequired(String),
    TopologyEditDenied(String),
    SubsystemExpansionFailed(String),
}

/// The error code of each deploy error.
pub open spec fn deploy_error_code(e: DeployError) -> Seq<char> {
    match e {
        DeployError::FileRead(_) => "FILE_READ_ERROR"@,
        DeployError::InvalidTopology(_) => "INVALID_TOPOLOGY"@,
        DeployError::YamlParse(_) => "YAML_PARSE_ERROR"@,
        DeployError::PlanFailed(_) => "PLAN_FAILED"@,
        DeployError::ApplyFailed(_) => "APPLY_FAILED"@,
        DeployError::GitFailed(_) => "GIT_FAILED"@,
        DeployError::GitTimeout(_) => "GIT_TIMEOUT"@,
        DeployError::PolicyViolation(_) => "POLICY_VIOLATION"@,
        DeployError::SelfDestructDetected(_) => "SELF_DESTRUCT_DETECTED"@,
        DeployError::PodmanNotFound(_) => "PODMAN_NOT_FOUND"@,
        DeployError::PodmanFailed(_) => "PODMAN_FAILED"@,
        DeployError::PersonaLoadFailed(_) => "PERSONA_LOAD_FAILED"@,
        DeployError::SecretsDetected(_) => "SECRETS_DETECTED"@,
        DeployError::ApprovalRequired(_) => "APPROVAL_REQUIRED"@,
        DeployError::TopologyEditDenied(_) => "TOPOLOGY_EDIT_DENIED"@,
        DeployError::SubsystemExpansionFailed(_) => "SUBSYSTEM_EXPANSION_FAILED"@,
    }
}

impl DeployError {
    /// Returns the error code string in SCREAMING_SNAKE_CASE.
    pub fn code(&self) -> (c: &'static str)
        ensures
            c@ == deploy_error_code(*self),
    {
        match self {
            DeployError::FileRead(_) => "FILE_READ_ERROR",
            DeployError::InvalidTopology(_) => "INVALID_TOPOLOGY",
            DeployError::YamlParse(_) => "YAML_PARSE_ERROR",
            DeployError::PlanFailed(_) => "PLAN_FAILED",
            DeployError::ApplyFailed(_) => "APPLY_FAILED",
            DeployError::GitFailed(_) => "GIT_FAILED",
            DeployError::GitTimeout(_) => "GIT_TIMEOUT",
            DeployError::PolicyViolation(_) => "POLICY_VIOLATION",
            DeployError::SelfDestructDetected(_) => "SELF_DESTRUCT_DETECTED",
            DeployError::PodmanNotFound(_) => "PODMAN_NOT_FOUND",
            DeployError::PodmanFailed(_) => "PODMAN_FAILED",
            DeployError::PersonaLoadFailed(_) => "PERSONA_LOAD_FAILED",
            DeployError::SecretsDetected(_) => "SECRETS_DETECTED",
            DeployError::ApprovalRequired(_) => "APPROVAL_REQUIRED",
            DeployError::TopologyEditDenied(_) => "TOPOLOGY_EDIT_DENIED",
            DeployError::SubsystemExpansionFailed(_) => "SUBSYSTEM_EXPANSION_FAILED",
        }
    }
}

/// A string as `{:?}` shows it: quoted, with quotes, backslashes and the
/// common control characters escaped.
pub open spec fn debug_quote(s: Seq<char>) -> Seq<char> {
    seq!['"'] + debug_escape(s) + seq!['"']
}

pub open spec fn debug_escape_char(c: char) -> Seq<char> {
    if c == '"' {
        seq!['\\', '"']
    } else if c == '\\' {
        seq!['\\', '\\']
    } else if c == '\n' {
        seq!['\\', 'n']
    } else if c == '\r' {
        seq!['\\', 'r']
    } else if c == '\t' {
        seq!['\\', 't']
    } else if c == '\0' {
        seq!['\\', '0']
    } else {
        seq![c]
    }
}

pub open spec fn debug_escape(s: Seq<char>) -> Seq<char>
    decreases s.len(),
{
    if s.len() == 0 {
        Seq::empty()
    } else {
        debug_escape(s.drop_last()) + debug_escape_char(s.last())
    }
}

/// A list of strings as `{:?}` shows it: `["a", "b"]`.
pub open spec fn debug_list(s: Seq<Seq<char>>) -> Seq<char> {
    seq!['['] + join(s.map_values(|x: Seq<char>| debug_quote(x)), ", "@) + seq![']']
}

/// The display text of each deploy error.
pub open spec fn deploy_error_message(e: DeployError) -> Seq<char> {
    match e {
        DeployError::FileRead(m) => "failed to read topology file: "@ + m@,
        DeployError::InvalidTopology(m) => "invalid topology file: "@ + m@,
        DeployError::YamlParse(m) => "YAML parse error: "@ + m@,
        DeployError::PlanFailed(m) => "plan failed: "@ + m@,
        DeployError::ApplyFailed(m) => "apply failed: "@ + m@,
        DeployError::GitFailed(m) => "git operation failed: "@ + m@,
        DeployError::GitTimeout(n) => "git operation timed out after "@ + dec(n as nat) + "s"@,
        DeployError::PolicyViolation(m) => "policy violation: "@ + m@,
        DeployError::SelfDestructDetected(m) => "self-destruct detected: "@ + m@,
        DeployError::PodmanNotFound(m) => "Podman not found: "@ + m@,
        DeployError::PodmanFailed(m) => "Podman operation failed: "@ + m@,
        DeployError::PersonaLoadFailed(m) => "persona load failed: "@ + m@,
        DeployError::SecretsDetected(v) => "secrets detected in staged files: "@ + debug_list(string_views(v@)),
        DeployError::ApprovalRequired(m) => "approval required: "@ + m@,
        DeployError::TopologyEditDenied(m) => "topology edit denied: "@ + m@,
        DeployError::SubsystemExpansionFailed(m) => "subsystem expansion failed: "@ + m@,
    }
}

fn push_debug_char(out: &mut String, c: char)
    ensures
        final(out)@ == old(out)@ + debug_escape_char(c),
{
    if c == '"' {
        push_str(out, "\\\"");
    } else if c == '\\' {
        push_str(out, "\\\\");
    } else if c == '\n' {
        push_str(out, "\\n");
    } else if c == '\r' {
        push_str(out, "\\r");
    } else if c == '\t' {
        push_str(out, "\\t");
    } else if c == '\0' {
        push_str(out, "\\0");
    } else {
        push_char(out, c);
        return;
    }
    assert(final(out)@ =~= old(out)@ + debug_escape_char(c)) by {
        reveal_strlit("\\\""); reveal_strlit("\\\\"); reveal_strlit("\\n"); reveal_strlit("\\r"); reveal_strlit("\\t"); reveal_strlit("\\0");
    }
}

/// Appends `s` as `{:?}` shows it.
fn push_debug_str(out: &mut String, s: &str)
    ensures
        final(out)@ == old(out)@ + debug_quote(s@),
{
    let v = chars_of(s);
    let ghost o = out@;
    push_char(out, '"');
    for i in 0..v.len()
        invariant
            v@ == s@,
            out@ == o + seq!['"'] + debug_escape(s@.take(i as int)),
    {
        assert(s@.take(i + 1).drop_last() =~= s@.take(i as int));
        push_debug_char(out, v[i]);
        assert(out@ =~= o + seq!['"'] + debug_escape(s@.take(i + 1)));
    }
    assert(s@.take(v@.len() as int) =~= s@);
    push_char(out, '"');
    assert(out@ =~= o + debug_quote(s@));
}

impl DeployError {
    /// The display text of the error.
    pub fn message(&self) -> (m: String)
        ensures
            m@ == deploy_error_message(*self),
    {
        let mut out = String::new();
        match self {
            DeployError::FileRead(m) => { push_str(&mut out, "failed to read topology file: "); push_str(&mut out, m.as_str()); },
            DeployError::InvalidTopology(m) => { push_str(&mut out, "invalid topology file: "); push_str(&mut out, m.as_str()); },
            DeployError::YamlParse(m) => { push_str(&mut out, "YAML parse error: "); push_str(&mut out, m.as_str()); },
            DeployError::PlanFailed(m) => { push_str(&mut out, "plan failed: "); push_str(&mut out, m.as_str()); },
            DeployError::ApplyFailed(m) => { push_str(&mut out, "apply failed: "); push_str(&mut out, m.as_str()); },
            DeployError::GitFailed(m) => { push_str(&mut out, "git operation failed: "); push_str(&mut out, m.as_str()); },
            DeployError::GitTimeout(n) => {
                push_str(&mut out, "git operation timed out after ");
                push_u64(&mut out, *n);
                push_str(&mut out, "s");
            },
            DeployError::PolicyViolation(m) => { push_str(&mut out, "policy violation: "); push_str(&mut out, m.as_str()); },
            DeployError::SelfDestructDetected(m) => { push_str(&mut out, "self-destruct detected: "); push_str(&mut out, m.as_str()); },
            DeployError::PodmanNotFound(m) => { push_str(&mut out, "Podman not found: "); push_str(&mut out, m.as_str()); },
            DeployError::PodmanFailed(m) => { push_str(&mut out, "Podman operation failed: "); push_str(&mut out, m.as_str()); },
            DeployError::PersonaLoadFailed(m) => { push_str(&mut out, "persona load failed: "); push_str(&mut out, m.as_str()); },
            DeployError::SecretsDetected(v) => {
                push_str(&mut out, "secrets detected in staged files: ");
                let ghost o = out@;
                let ghost qs = string_views(v@).map_values(|x: Seq<char>| debug_quote(x));
                push_char(&mut out, '[');
                for i in 0..v.len()
                    invariant
                        qs == string_views(v@).map_values(|x: Seq<char>| debug_quote(x)),
                        out@ == o + seq!['['] + join(qs.take(i as int), ", "@),
                {
                    assert(qs.take(i + 1).drop_last() =~= qs.take(i as int));
                    if i > 0 {
                        push_str(&mut out, ", ");
                    }
                    push_debug_str(&mut out, v[i].as_str());
                    proof {
                        if i == 0 {
                            assert(join(qs.take(1), ", "@) == qs.take(1)[0]);
                        }
                    }
                    assert(out@ =~= o + seq!['['] + join(qs.take(i + 1), ", "@));
                }
                assert(qs.take(v@.len() as int) =~= qs);
                push_char(&mut out, ']');
                assert(out@ =~= o + debug_list(string_views(v@)));
            },
            DeployError::ApprovalRequired(m) => { push_str(&mut out, "approval required: "); push_str(&mut out, m.as_str()); },
            DeployError::TopologyEditDenied(m) => { push_str(&mut out, "topology edit denied: "); push_str(&mut out, m.as_str()); },
            DeployError::SubsystemExpansionFailed(m) => { push_str(&mut out, "subsystem expansion failed: "); push_str(&mut out, m.as_str()); },
        }
        assert(out@ =~= deploy_error_message(*self));
        out
    }
}

/// The only supported `api_version`.
pub const API_VERSION: &'static str = "wheelhouse.dev/v1";

/// What topology validation answers for a parsed file: the api version must
/// be `wheelhouse.dev/v1` and the name non-empty.
pub open spec fn topology_check(api_version: Seq<char>, name: Seq<char>) -> Option<Seq<char>> {
    if api_version != "wheelhouse.dev/v1"@ {
        Some("unsupported api_version: '"@ + api_version + "', expected 'wheelhouse.dev/v1'"@)
    } else if name.len() == 0 {
        Some("topology name must not be empty"@)
    } else {
        None
    }
}

/// Validate a freshly parsed topology: the second half of `parse_topology`,
/// after the YAML has been read into a `Topology`.
pub fn validate_topology(topology: Topology) -> (r: Result<Topology, DeployError>)
    ensures
        match topology_check(topology.api_version@, topology.name@) {
            None => r == Ok::<Topology, DeployError>(topology),
            Some(msg) => r is Err && r->Err_0 is InvalidTopology && r->Err_0->InvalidTopology_0@ == msg,
        },
{
    if !str_eq(topology.api_version.as_str(), API_VERSION) {
        let mut msg = String::new();
        push_str(&mut msg, "unsupported api_version: '");
        push_str(&mut msg, topology.api_version.as_str());
        push_str(&mut msg, "', expected 'wheelhouse.dev/v1'");
        return Err(DeployError::InvalidTopology(msg));
    }
    if topology.name.as_str().is_empty() {
        return Err(DeployError::InvalidTopology(String::from_str("topology name must not be empty")));
    }
    Ok(topology)
}

/// A component known by its name, ordered canonically by its name first.
pub trait Named: CanonicalOrder {
    spec fn name_view(&self) -> Seq<char>;

    fn name_str(&self) -> (s: &str)
        ensures
            s@ == self.name_view(),
    ;

    /// Two components with different names order as their names do.
    proof fn order_name_first(a: Self, b: Self)
        ensures
            a.name_view() != b.name_view() ==> (a.order(&b) < 0 <==> seq_lt(a.name_view(), b.name_view())),
    ;
}

impl Named for Agent {
    open spec fn name_view(&self) -> Seq<char> {
        self.name@
    }

    fn name_str(&self) -> (s: &str) {
        self.name.as_str()
    }

    proof fn order_name_first(a: Self, b: Self) {
        lemma_seq_lt_total(a.name@, b.name@);
        lemma_seq_lt_asym(a.name@, b.name@);
    }
}

impl Named for Stream {
    open spec fn name_view(&self) -> Seq<char> {
        self.name@
    }

    fn name_str(&self) -> (s: &str) {
        self.name.as_str()
    }

    proof fn order_name_first(a: Self, b: Self) {
        lemma_seq_lt_total(a.name@, b.name@);
        lemma_seq_lt_asym(a.name@, b.name@);
    }
}

impl Named for Surface {
    open spec fn name_view(&self) -> Seq<char> {
        self.name@
    }

    fn name_str(&self) -> (s: &str) {
        self.name.as_str()
    }

    proof fn order_name_first(a: Self, b: Self) {
        lemma_seq_lt_total(a.name@, b.name@);
        lemma_seq_lt_asym(a.name@, b.name@);
    }
}

/// `s` with `x` placed after every component whose name does not sort
/// after `x`'s (for `s` sorted by name).
pub open spec fn insert_by_name<T: Named>(s: Seq<T>, x: T) -> Seq<T>
    decreases s.len(),
{
    if s.len() == 0 {
        seq![x]
    } else if !seq_lt(x.name_view(), s.last().name_view()) {
        s.push(x)
    } else {
        insert_by_name(s.drop_last(), x).push(s.last())
    }
}

/// The components in ascending name order, equal names keeping their order.
pub open spec fn sort_by_name<T: Named>(s: Seq<T>) -> Seq<T>
    decreases s.len(),
{
    if s.len() == 0 {
        s
    } else {
        insert_by_name(sort_by_name(s.drop_last()), s.last())
    }
}

/// Whether no two items share a name.
pub open spec fn names_distinct<T: Named>(s: Seq<T>) -> bool {
    forall|i: int, j: int| 0 <= i < j < s.len() ==> #[trigger] s[i].name_view() != #[trigger] s[j].name_view()
}

/// Whether the names ascend strictly.
pub open spec fn names_ascend<T: Named>(s: Seq<T>) -> bool {
    forall|i: int, j: int| 0 <= i < j < s.len() ==> seq_lt(#[trigger] s[i].name_view(), #[trigger] s[j].name_view())
}

/// `s` with `x` placed after every component that does not order after it
/// (for `s` in canonical order).
pub open spec fn insert_canonical<T: Named>(s: Seq<T>, x: T) -> Seq<T>
    decreases s.len(),
{
    if s.len() == 0 {
        seq![x]
    } else if x.order(&s.last()) >= 0 {
        s.push(x)
    } else {
        insert_canonical(s.drop_last(), x).push(s.last())
    }
}

/// The components in canonical order: by name, then by the other fields
/// in declaration order (`CanonicalOrder`), level components keeping their
/// order.
pub open spec fn canonical_sort<T: Named>(s: Seq<T>) -> Seq<T>
    decreases s.len(),
{
    if s.len() == 0 {
        s
    } else {
        insert_canonical(canonical_sort(s.drop_last()), s.last())
    }
}

/// Whether each component orders no later than the next.
pub open spec fn ascending<T: Named>(s: Seq<T>) -> bool {
    forall|i: int, j: int| 0 <= i && j == i + 1 && j < s.len() ==> #[trigger] s[i].order(&s[j]) <= 0
}

proof fn lemma_insert_canonical<T: Named>(s: Seq<T>, x: T)
    requires
        ascending(s),
    ensures
        ascending(insert_canonical(s, x)),
        insert_canonical(s, x).to_multiset() =~= s.to_multiset().insert(x),
        insert_canonical(s, x).len() == s.len() + 1,
        s.len() > 0 ==> insert_canonical(s, x).last() == x || insert_canonical(s, x).last() == s.last(),
    decreases s.len(),
{
    broadcast use vstd::seq_lib::group_to_multiset_ensures;
    broadcast use vstd::multiset::group_multiset_axioms;

    if s.len() == 0 {
        assert(insert_canonical(s, x) =~= s.push(x));
    } else if x.order(&s.last()) >= 0 {
        T::order_antisym(x, s.last());
        let r = s.push(x);
        assert forall|i: int, j: int| 0 <= i && j == i + 1 && j < r.len() implies #[trigger] r[i].order(&r[j]) <= 0 by {
            if j < s.len() {
                assert(r[i] == s[i] && r[j] == s[j]);
            } else {
                assert(r[i] == s.last());
            }
        }
    } else {
        let d = s.drop_last();
        let last = s.last();
        assert forall|i: int, j: int| 0 <= i && j == i + 1 && j < d.len() implies #[trigger] d[i].order(&d[j]) <= 0 by {
            assert(d[i] == s[i] && d[j] == s[j]);
        }
        lemma_insert_canonical(d, x);
        let rd = insert_canonical(d, x);
        let r = rd.push(last);
        assert(insert_canonical(s, x) == r);
        assert(rd.last().order(&last) <= 0) by {
            if d.len() == 0 {
                assert(rd =~= seq![x]);
            } else if rd.last() != x {
                assert(rd.last() == s[s.len() - 2]);
                assert(s[s.len() - 2].order(&s[s.len() - 1]) <= 0);
            }
        }
        assert forall|i: int, j: int| 0 <= i && j == i + 1 && j < r.len() implies #[trigger] r[i].order(&r[j]) <= 0 by {
            if j < rd.len() {
                assert(r[i] == rd[i] && r[j] == rd[j]);
            } else {
                assert(r[i] == rd.last());
            }
        }
        assert(s =~= d.push(last));
        assert(r.to_multiset() =~= rd.to_multiset().insert(last));
        assert(s.to_multiset() =~= d.to_multiset().insert(last));
    }
}

/// The canonical order ascends and keeps every component.
pub proof fn lemma_canonical_sort<T: Named>(s: Seq<T>)
    ensures
        ascending(canonical_sort(s)),
        canonical_sort(s).to_multiset() =~= s.to_multiset(),
        canonical_sort(s).len() == s.len(),
    decreases s.len(),
{
    broadcast use vstd::seq_lib::group_to_multiset_ensures;

    if s.len() > 0 {
        let d = s.drop_last();
        lemma_canonical_sort(d);
        lemma_insert_canonical(canonical_sort(d), s.last());
        assert(s =~= d.push(s.last()));
    }
}

proof fn lemma_insert_agree<T: Named>(t: Seq<T>, x: T)
    requires
        forall|k: int| 0 <= k < t.len() ==> x.name_view() != #[trigger] t[k].name_view(),
    ensures
        insert_canonical(t, x) == insert_by_name(t, x),
    decreases t.len(),
{
    if t.len() > 0 {
        T::order_name_first(x, t.last());
        assert(x.name_view() != t[t.len() - 1].name_view());
        let d = t.drop_last();
        assert forall|k: int| 0 <= k < d.len() implies x.name_view() != #[trigger] d[k].name_view() by {
            assert(d[k] == t[k]);
        }
        lemma_insert_agree(d, x);
    }
}

/// With no name repeated, the canonical order is the order of the names.
proof fn lemma_sorts_agree<T: Named>(s: Seq<T>)
    requires
        names_distinct(s),
    ensures
        canonical_sort(s) == sort_by_name(s),
    decreases s.len(),
{
    if s.len() > 0 {
        let d = s.drop_last();
        assert forall|i: int, j: int| 0 <= i < j < d.len() implies #[trigger] d[i].name_view() != #[trigger] d[j].name_view() by {
            assert(d[i] == s[i] && d[j] == s[j]);
        }
        lemma_sorts_agree(d);
        lemma_sort_by_name_ascends(d);
        let sd = sort_by_name(d);
        assert forall|k: int| 0 <= k < sd.len() implies s.last().name_view() != #[trigger] sd[k].name_view() by {
            assert(sd.contains(sd[k]));
            assert(d.contains(sd[k]));
            let m = choose|m: int| 0 <= m < d.len() && d[m] == sd[k];
            assert(s[m] == sd[k]);
            assert(s[m].name_view() != s[s.len() - 1].name_view());
        }
        lemma_insert_agree(sd, s.last());
    }
}

proof fn lemma_insert_by_name_ascends<T: Named>(s: Seq<T>, x: T)
    requires
        names_ascend(s),
        forall|k: int| 0 <= k < s.len() ==> x.name_view() != #[trigger] s[k].name_view(),
    ensures
        names_ascend(insert_by_name(s, x)),
        forall|y: T| #[trigger] insert_by_name(s, x).contains(y) <==> (y == x || s.contains(y)),
    decreases s.len(),
{
    if s.len() == 0 {
        assert(insert_by_name(s, x) =~= seq![x]);
        assert forall|y: T| #[trigger] insert_by_name(s, x).contains(y) <==> (y == x || s.contains(y)) by {
            if y == x {
                assert(insert_by_name(s, x)[0] == x);
            }
        }
    } else if seq_lt(x.name_view(), s.last().name_view()) {
        let d = s.drop_last();
        let last = s.last();
        assert forall|k: int| 0 <= k < d.len() implies x.name_view() != #[trigger] d[k].name_view() by {
            assert(d[k] == s[k]);
        }
        lemma_insert_by_name_ascends(d, x);
        let r = insert_by_name(d, x);
        let res = r.push(last);
        assert(insert_by_name(s, x) == res);
        assert forall|i: int, j: int| 0 <= i < j < res.len() implies seq_lt(#[trigger] res[i].name_view(), #[trigger] res[j].name_view()) by {
            if j == res.len() - 1 {
                assert(res[j] == last);
                assert(r.contains(res[i]));
                if res[i] != x {
                    assert(d.contains(res[i]));
                    let k = choose|k: int| 0 <= k < d.len() && d[k] == res[i];
                    assert(s[k] == d[k]);
                    assert(seq_lt(s[k].name_view(), s[s.len() - 1].name_view()));
                }
            } else {
                assert(res[i] == r[i] && res[j] == r[j]);
            }
        }
        assert forall|y: T| #[trigger] res.contains(y) <==> (y == x || s.contains(y)) by {
            if res.contains(y) {
                let i = choose|i: int| 0 <= i < res.len() && res[i] == y;
                if i < r.len() {
                    assert(r[i] == y);
                    assert(r.contains(y));
                    if y != x {
                        let k = choose|k: int| 0 <= k < d.len() && d[k] == y;
                        assert(s[k] == y);
                    }
                } else {
                    assert(s[s.len() - 1] == y);
                }
            }
            if y == x {
                assert(r.contains(x));
                let i = choose|i: int| 0 <= i < r.len() && r[i] == x;
                assert(res[i] == x);
            } else if s.contains(y) {
                let k = choose|k: int| 0 <= k < s.len() && s[k] == y;
                if k < s.len() - 1 {
                    assert(d[k] == y);
                    assert(d.contains(y));
                    assert(r.contains(y));
                    let i = choose|i: int| 0 <= i < r.len() && r[i] == y;
                    assert(res[i] == y);
                } else {
                    assert(res[res.len() - 1] == y);
                }
            }
        }
    } else {
        let res = s.push(x);
        assert(insert_by_name(s, x) == res);
        assert(x.name_view() != s[s.len() - 1].name_view());
        lemma_seq_lt_total(x.name_view(), s.last().name_view());
        assert(seq_lt(s.last().name_view(), x.name_view()));
        assert forall|i: int, j: int| 0 <= i < j < res.len() implies seq_lt(#[trigger] res[i].name_view(), #[trigger] res[j].name_view()) by {
            if j == res.len() - 1 {
                if i < s.len() - 1 {
                    assert(seq_lt(s[i].name_view(), s[s.len() - 1].name_view()));
                    lemma_seq_lt_trans(s[i].name_view(), s.last().name_view(), x.name_view());
                }
            } else {
                assert(res[i] == s[i] && res[j] == s[j]);
            }
        }
        assert forall|y: T| #[trigger] res.contains(y) <==> (y == x || s.contains(y)) by {
            if res.contains(y) {
                let i = choose|i: int| 0 <= i < res.len() && res[i] == y;
                if i < s.len() {
                    assert(s[i] == y);
                }
            }
            if y == x {
                assert(res[res.len() - 1] == x);
            } else if s.contains(y) {
                let k = choose|k: int| 0 <= k < s.len() && s[k] == y;
                assert(res[k] == y);
            }
        }
    }
}

proof fn lemma_sort_by_name_ascends<T: Named>(s: Seq<T>)
    requires
        names_distinct(s),
    ensures
        names_ascend(sort_by_name(s)),
        forall|y: T| #[trigger] sort_by_name(s).contains(y) <==> s.contains(y),
    decreases s.len(),
{
    if s.len() > 0 {
        let d = s.drop_last();
        assert forall|i: int, j: int| 0 <= i < j < d.len() implies #[trigger] d[i].name_view() != #[trigger] d[j].name_view() by {
            assert(d[i] == s[i] && d[j] == s[j]);
        }
        lemma_sort_by_name_ascends(d);
        let sd = sort_by_name(d);
        assert forall|k: int| 0 <= k < sd.len() implies s.last().name_view() != #[trigger] sd[k].name_view() by {
            assert(sd.contains(sd[k]));
            assert(d.contains(sd[k]));
            let m = choose|m: int| 0 <= m < d.len() && d[m] == sd[k];
            assert(s[m] == sd[k]);
            assert(s[m].name_view() != s[s.len() - 1].name_view());
        }
        lemma_insert_by_name_ascends(sd, s.last());
        assert forall|y: T| #[trigger] sort_by_name(s).contains(y) <==> s.contains(y) by {
            if s.contains(y) && y != s.last() {
                let k = choose|k: int| 0 <= k < s.len() && s[k] == y;
                assert(k < s.len() - 1);
                assert(d[k] == y);
                assert(d.contains(y));
            }
            if d.contains(y) {
                let k = choose|k: int| 0 <= k < d.len() && d[k] == y;
                assert(s[k] == y);
            }
            if y == s.last() {
                assert(s[s.len() - 1] == y);
            }
        }
    }
}

proof fn lemma_ascending_unique<T: Named>(a: Seq<T>, b: Seq<T>)
    requires
        names_ascend(a),
        names_ascend(b),
        forall|y: T| #[trigger] a.contains(y) <==> b.contains(y),
    ensures
        a == b,
    decreases a.len() + b.len(),
{
    if a.len() == 0 {
        if b.len() > 0 {
            assert(b.contains(b[0]));
            assert(a.contains(b[0]));
        }
        assert(a =~= b);
    } else {
        assert(a.contains(a.last()));
        assert(b.contains(a.last()));
        assert(b.contains(b.last()));
        assert(a.contains(b.last()));
        let j = choose|j: int| 0 <= j < b.len() && b[j] == a.last();
        let i = choose|i: int| 0 <= i < a.len() && a[i] == b.last();
        lemma_seq_lt_irrefl(a.last().name_view());
        lemma_seq_lt_trans(a.last().name_view(), b.last().name_view(), a.last().name_view());
        if j < b.len() - 1 {
            assert(seq_lt(b[j].name_view(), b[b.len() - 1].name_view()));
            if i < a.len() - 1 {
                assert(seq_lt(a[i].name_view(), a[a.len() - 1].name_view()));
            }
        }
        if i < a.len() - 1 {
            assert(seq_lt(a[i].name_view(), a[a.len() - 1].name_view()));
            if j < b.len() - 1 {
                assert(seq_lt(b[j].name_view(), b[b.len() - 1].name_view()));
            }
        }
        assert(a.last() == b.last());
        let da = a.drop_last();
        let db = b.drop_last();
        assert forall|p: int, q: int| 0 <= p < q < da.len() implies seq_lt(#[trigger] da[p].name_view(), #[trigger] da[q].name_view()) by {
            assert(da[p] == a[p] && da[q] == a[q]);
        }
        assert forall|p: int, q: int| 0 <= p < q < db.len() implies seq_lt(#[trigger] db[p].name_view(), #[trigger] db[q].name_view()) by {
            assert(db[p] == b[p] && db[q] == b[q]);
        }
        assert forall|y: T| #[trigger] da.contains(y) <==> db.contains(y) by {
            if da.contains(y) {
                let p = choose|p: int| 0 <= p < da.len() && da[p] == y;
                assert(a[p] == y);
                assert(seq_lt(a[p].name_view(), a[a.len() - 1].name_view()));
                lemma_seq_lt_irrefl(y.name_view());
                assert(y != a.last());
                assert(a.contains(y));
                assert(b.contains(y));
                let q = choose|q: int| 0 <= q < b.len() && b[q] == y;
                assert(q != b.len() - 1);
                assert(db[q] == y);
            }
            if db.contains(y) {
                let q = choose|q: int| 0 <= q < db.len() && db[q] == y;
                assert(b[q] == y);
                assert(seq_lt(b[q].name_view(), b[b.len() - 1].name_view()));
                lemma_seq_lt_irrefl(y.name_view());
                assert(y != b.last());
                assert(b.contains(y));
                assert(a.contains(y));
                let p = choose|p: int| 0 <= p < a.len() && a[p] == y;
                assert(p != a.len() - 1);
                assert(da[p] == y);
            }
        }
        lemma_ascending_unique(da, db);
        assert(a =~= da.push(a.last()));
        assert(b =~= db.push(b.last()));
    }
}

/// Canonical order does not depend on the order of declaration: two lists
/// of the same items, no name repeated, sort to the same list.
pub proof fn law_canonical_order_ignores_declaration_order<T: Named>(s1: Seq<T>, s2: Seq<T>)
    requires
        names_distinct(s1),
        names_distinct(s2),
        forall|y: T| #[trigger] s1.contains(y) <==> s2.contains(y),
    ensures
        canonical_sort(s1) == canonical_sort(s2),
{
    lemma_sorts_agree(s1);
    lemma_sorts_agree(s2);
    lemma_sort_by_name_ascends(s1);
    lemma_sort_by_name_ascends(s2);
    assert forall|y: T| #[trigger] sort_by_name(s1).contains(y) <==> sort_by_name(s2).contains(y) by {
        assert(sort_by_name(s1).contains(y) <==> s1.contains(y));
        assert(sort_by_name(s2).contains(y) <==> s2.contains(y));
    }
    lemma_ascending_unique(sort_by_name(s1), sort_by_name(s2));
}

/// Components already in canonical order stay as they are.
pub proof fn lemma_canonical_sort_fixes_ascending<T: Named>(s: Seq<T>)
    requires
        ascending(s),
    ensures
        canonical_sort(s) == s,
    decreases s.len(),
{
    if s.len() > 0 {
        let d = s.drop_last();
        assert forall|i: int, j: int| 0 <= i && j == i + 1 && j < d.len() implies #[trigger] d[i].order(&d[j]) <= 0 by {
            assert(d[i] == s[i] && d[j] == s[j]);
        }
        lemma_canonical_sort_fixes_ascending(d);
        if d.len() > 0 {
            assert(s[d.len() - 1].order(&s[d.len() as int]) <= 0);
            T::order_antisym(s.last(), d.last());
        }
        assert(s =~= d.push(s.last()));
    }
}

/// Canonical ordering is idempotent, whatever the components (repeated
/// names included): ordering an ordered list again changes nothing.
pub proof fn law_canonical_sort_idempotent<T: Named>(s: Seq<T>)
    ensures
        canonical_sort(canonical_sort(s)) == canonical_sort(s),
{
    lemma_canonical_sort(s);
    lemma_canonical_sort_fixes_ascending(canonical_sort(s));
}

/// What `canonicalize_topology` makes of `t`: its agents, streams and
/// surfaces in canonical order, every other field as it was.
pub open spec fn canonical_form(t: Topology, r: Topology) -> bool {
    &&& r.agents@ == canonical_sort(t.agents@)
    &&& r.streams@ == canonical_sort(t.streams@)
    &&& r.surfaces@ == canonical_sort(t.surfaces@)
    &&& r == (Topology { agents: r.agents, streams: r.streams, surfaces: r.surfaces, ..t })
}

/// Canonicalizing a canonical topology gives it back: the same components
/// in the same order and the same other fields.
pub proof fn law_canonicalize_idempotent(t: Topology, r1: Topology, r2: Topology)
    requires
        canonical_form(t, r1),
        canonical_form(r1, r2),
    ensures
        r2.agents@ == r1.agents@,
        r2.streams@ == r1.streams@,
        r2.surfaces@ == r1.surfaces@,
        r2 == (Topology { agents: r2.agents, streams: r2.streams, surfaces: r2.surfaces, ..r1 }),
{
    law_canonical_sort_idempotent(t.agents@);
    law_canonical_sort_idempotent(t.streams@);
    law_canonical_sort_idempotent(t.surfaces@);
}

fn insert_named<T: Named>(v: &mut Vec<T>, x: T)
    ensures
        final(v)@ == insert_canonical(old(v)@, x),
    decreases old(v)@.len(),
{
    let n = v.len();
    if n == 0 {
        v.push(x);
        assert(v@ =~= seq![x]);
        return;
    }
    if x.order_exec(&v[n - 1]) >= 0 {
        v.push(x);
        return;
    }
    let last = v.pop().unwrap();
    insert_named(v, x);
    v.push(last);
}

/// Sort components in canonical order: by name, then by their other
/// fields in declaration order; level components keep their order.
pub fn sort_named<T: Named>(v: Vec<T>) -> (r: Vec<T>)
    ensures
        r@ == canonical_sort(v@),
        ascending(r@),
        r@.to_multiset() == v@.to_multiset(),
{
    let ghost orig = v@;
    let mut rest = v;
    let total = rest.len();
    let mut out: Vec<T> = Vec::new();
    let mut k: usize = 0;
    while rest.len() > 0
        invariant
            total == orig.len(),
            k <= orig.len(),
            rest@ == orig.skip(k as int),
            out@ == canonical_sort(orig.take(k as int)),
        decreases rest.len(),
    {
        let x = rest.remove(0);
        assert(orig.take(k + 1).drop_last() =~= orig.take(k as int));
        assert(orig.take(k + 1).last() == x);
        insert_named(&mut out, x);
        k = k + 1;
        assert(rest@ =~= orig.skip(k as int));
    }
    assert(orig.take(k as int) =~= orig);
    proof {
        lemma_canonical_sort(orig);
    }
    out
}

/// Canonicalize a topology for deterministic comparison: agents, streams
/// and surfaces sorted in canonical order (by name, then by their other
/// fields in declaration order), each list keeping its components.
pub fn canonicalize_topology(topology: Topology) -> (r: Topology)
    ensures
        r.agents@ == canonical_sort(topology.agents@),
        r.streams@ == canonical_sort(topology.streams@),
        r.surfaces@ == canonical_sort(topology.surfaces@),
        ascending(r.agents@),
        ascending(r.streams@),
        ascending(r.surfaces@),
        r.agents@.to_multiset() == topology.agents@.to_multiset(),
        r.streams@.to_multiset() == topology.streams@.to_multiset(),
        r.surfaces@.to_multiset() == topology.surfaces@.to_multiset(),
        r == (Topology { agents: r.agents, streams: r.streams, surfaces: r.surfaces, ..topology }),
        canonical_form(topology, r),
{
    let Topology { api_version, name, broker, skills_repo, agents, streams, surfaces, guardrails, subsystems } = topology;
    Topology {
        api_version,
        name,
        broker,
        skills_repo,
        agents: sort_named(agents),
        streams: sort_named(streams),
        surfaces: sort_named(surfaces),
        guardrails,
        subsystems,
    }
}

} // verus!
