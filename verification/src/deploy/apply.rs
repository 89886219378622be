//! Apply step of the deploy pipeline: the commit message of a plan, the
//! committed plan, and what a destroy tears down and records. Writing the
//! state file, running git and podman are left to the caller.

use vstd::prelude::*;
use crate::deploy::{Change, DeployError, Topology};
use crate::deploy::plan::{ChangeView, PlanOutput, change_view, changes_view};
use crate::deploy::podman::{ApplyResult, container_name, container_name_spec};
use crate::text::{dec, join, push_str, push_u64, str_eq, string_views};
use vstd::string::StringExecFns;

verus! {

/// A plan whose state was written and committed to git, ready to apply.
pub struct CommittedPlan {
    pub desired_topology: Topology,
    pub source_path: String,
    pub plan_hash: String,
    pub changes: Vec<Change>,
}

impl CommittedPlan {
    /// The hash of the committed plan.
    pub fn plan_hash(&self) -> (r: &str)
        ensures
            r@ == self.plan_hash@,
    {
        self.plan_hash.as_str()
    }

    /// The committed form of a plan, once its commit succeeded.
    pub fn from_plan(plan: PlanOutput) -> (c: CommittedPlan)
        ensures
            c.desired_topology == plan.desired_topology,
            c.source_path == plan.source_path,
            c.plan_hash == plan.plan_hash,
            c.changes == plan.changes,
    {
        let PlanOutput { desired_topology, source_path, plan_hash, changes, .. } = plan;
        CommittedPlan { desired_topology, source_path, plan_hash, changes }
    }

    /// What applying answers without touching a container: nothing to do
    /// when the plan has no change (`None` when containers must be provisioned).
    pub fn result_without_changes(&self) -> (r: Option<ApplyResult>)
        ensures
            r is Some <==> self.changes@.len() == 0,
            r matches Some(a) ==> a.created == 0 && a.changed == 0 && a.destroyed == 0 && a.streams_created == 0
                && a.surfaces_created == 0 && a.surfaces_changed == 0 && a.surfaces_destroyed == 0,
    {
        if self.changes.len() == 0 {
            Some(ApplyResult::with_streams(0))
        } else {
            None
        }
    }
}

/// How one change reads in a commit message.
pub open spec fn summary_part(c: ChangeView) -> Seq<char> {
    if c.op == "+"@ {
        "add "@ + c.component
    } else if c.op == "-"@ {
        "remove "@ + c.component
    } else if c.op == "~"@ {
        match c.field {
            Some(f) => "update "@ + c.component + " "@ + f,
            None => "update "@ + c.component,
        }
    } else {
        c.op + " "@ + c.component
    }
}

/// The summary of a plan's changes: each change's part, joined by commas,
/// or `no changes`.
pub open spec fn summary_text(cs: Seq<ChangeView>) -> Seq<char> {
    if cs.len() == 0 {
        "no changes"@
    } else {
        join(cs.map_values(|c: ChangeView| summary_part(c)), ", "@)
    }
}

fn summary_part_of(c: &Change) -> (r: String)
    ensures
        r@ == summary_part(change_view(*c)),
{
    let op = c.op.as_str();
    let mut r = String::new();
    if str_eq(op, "+") {
        push_str(&mut r, "add ");
        push_str(&mut r, c.component.as_str());
    } else if str_eq(op, "-") {
        push_str(&mut r, "remove ");
        push_str(&mut r, c.component.as_str());
    } else if str_eq(op, "~") {
        push_str(&mut r, "update ");
        push_str(&mut r, c.component.as_str());
        if let Some(f) = &c.field {
            push_str(&mut r, " ");
            push_str(&mut r, f.as_str());
        }
    } else {
        push_str(&mut r, op);
        push_str(&mut r, " ");
        push_str(&mut r, c.component.as_str());
    }
    assert(r@ =~= summary_part(change_view(*c)));
    r
}

/// The summary of a plan's changes for its commit message.
pub fn change_summary(plan: &PlanOutput) -> (r: String)
    ensures
        r@ == summary_text(changes_view(plan.changes@)),
{
    let ghost cs = changes_view(plan.changes@);
    let n = plan.changes.len();
    if n == 0 {
        return String::from_str("no changes");
    }
    let mut parts: Vec<String> = Vec::new();
    for i in 0..n
        invariant
            n == plan.changes@.len(),
            cs == changes_view(plan.changes@),
            string_views(parts@) == cs.take(i as int).map_values(|c: ChangeView| summary_part(c)),
    {
        let p = summary_part_of(&plan.changes[i]);
        let ghost before = parts@;
        parts.push(p);
        assert(parts@ == before.push(p));
        assert(string_views(parts@) =~= string_views(before).push(p@));
        assert(cs.take(i + 1) =~= cs.take(i as int).push(change_view(plan.changes@[i as int])));
        assert(cs.take(i + 1).map_values(|c: ChangeView| summary_part(c)) =~= cs.take(i as int).map_values(
            |c: ChangeView| summary_part(c),
        ).push(summary_part(change_view(plan.changes@[i as int]))));
    }
    assert(cs.take(n as int) =~= cs);
    crate::text::join_strings(parts.as_slice(), ", ")
}

/// The commit message of an apply: `[agent] apply: summary`, a blank line,
/// and `Plan: hash`.
pub open spec fn apply_message(agent: Seq<char>, summary: Seq<char>, hash: Seq<char>) -> Seq<char> {
    "["@ + agent + "] apply: "@ + summary + "\n\nPlan: "@ + hash
}

/// The agent a commit is made for: the operator unless one is named.
pub open spec fn agent_or_operator(agent_name: Option<&str>) -> Seq<char> {
    match agent_name {
        Some(a) => a@,
        None => "operator"@,
    }
}

/// The commit message for applying `plan` on behalf of `agent_name`.
pub fn commit_message(plan: &PlanOutput, agent_name: Option<&str>) -> (r: String)
    ensures
        r@ == apply_message(agent_or_operator(agent_name), summary_text(changes_view(plan.changes@)), plan.plan_hash@),
{
    let agent = match agent_name {
        Some(a) => a,
        None => "operator",
    };
    let summary = change_summary(plan);
    let mut r = String::new();
    push_str(&mut r, "[");
    push_str(&mut r, agent);
    push_str(&mut r, "] apply: ");
    push_str(&mut r, summary.as_str());
    push_str(&mut r, "\n\nPlan: ");
    push_str(&mut r, plan.plan_hash.as_str());
    r
}

/// The error for a git command that failed: `git <command> failed: <stderr>`.
pub fn git_failed(command: &str, stderr: &str) -> (e: DeployError)
    ensures
        e matches DeployError::GitFailed(m) && m@ == "git "@ + command@ + " failed: "@ + stderr@,
{
    let mut m = String::new();
    push_str(&mut m, "git ");
    push_str(&mut m, command);
    push_str(&mut m, " failed: ");
    push_str(&mut m, stderr);
    DeployError::GitFailed(m)
}

/// The pre-commit check: staged files that look like secrets stop the commit.
pub fn check_staged_secrets(suspicious: Vec<String>) -> (r: Result<(), DeployError>)
    ensures
        r is Ok <==> suspicious@.len() == 0,
        r matches Err(DeployError::SecretsDetected(v)) && v == suspicious || r is Ok,
{
    if suspicious.len() == 0 {
        Ok(())
    } else {
        Err(DeployError::SecretsDetected(suspicious))
    }
}

/// The result of a destroy.
#[derive(Debug, Clone, PartialEq, Eq, Structural)]
pub struct DestroyResult {
    /// Number of agent containers destroyed.
    pub destroyed: usize,
    /// Number of streams removed from state.
    pub streams_removed: usize,
    /// Number of surface containers destroyed (a destroy leaves surfaces running).
    pub surfaces_destroyed: usize,
}

/// `N destroyed · M streams removed`.
pub open spec fn destroy_result_text(r: DestroyResult) -> Seq<char> {
    dec(r.destroyed as nat) + " destroyed \u{00B7} "@ + dec(r.streams_removed as nat) + " streams removed"@
}

impl DestroyResult {
    /// The one-line summary of a destroy.
    pub fn render(&self) -> (s: String)
        ensures
            s@ == destroy_result_text(*self),
    {
        let mut s = String::new();
        push_u64(&mut s, self.destroyed as u64);
        push_str(&mut s, " destroyed \u{00B7} ");
        push_u64(&mut s, self.streams_removed as u64);
        push_str(&mut s, " streams removed");
        s
    }
}

/// `removed N agent` or `removed N agents`.
pub open spec fn removed_part(n: nat, noun: Seq<char>) -> Seq<char> {
    "removed "@ + dec(n) + " "@ + noun + if n == 1 {
        Seq::<char>::empty()
    } else {
        "s"@
    }
}

/// The summary of a destroy: the agents removed, then the streams removed,
/// joined by a comma; `no changes` when neither.
pub open spec fn destroy_summary(agents: nat, streams: nat) -> Seq<char> {
    if agents > 0 && streams > 0 {
        removed_part(agents, "agent"@) + ", "@ + removed_part(streams, "stream"@)
    } else if agents > 0 {
        removed_part(agents, "agent"@)
    } else if streams > 0 {
        removed_part(streams, "stream"@)
    } else {
        "no changes"@
    }
}

fn push_removed(out: &mut String, n: usize, noun: &str)
    ensures
        final(out)@ == old(out)@ + removed_part(n as nat, noun@),
{
    let ghost start = out@;
    push_str(out, "removed ");
    push_u64(out, n as u64);
    push_str(out, " ");
    push_str(out, noun);
    if n != 1 {
        push_str(out, "s");
    }
    assert(out@ =~= start + removed_part(n as nat, noun@));
}

/// What a destroy does to a deployed topology.
pub enum DestroyStep {
    /// Nothing is deployed: no container, no commit.
    Nothing,
    /// Stop and remove `containers`, write `cleared` as the new state,
    /// commit with `commit_message`, and report `result`.
    Teardown { containers: Vec<String>, cleared: Topology, commit_message: String, result: DestroyResult },
}

/// What a destroy does given the applied state (`None` when there is no
/// state file): nothing when no agent or stream is deployed; else every
/// agent container goes, the state keeps only the topology's version, name
/// and guardrails, and the commit records how many agents and streams
/// were removed. A container that fails to stop still counts as destroyed.
pub fn destroy_step(current: Option<Topology>, agent_name: Option<&str>) -> (r: DestroyStep)
    ensures
        match current {
            None => r is Nothing,
            Some(t) => if t.agents@.len() == 0 && t.streams@.len() == 0 {
                r is Nothing
            } else {
                r matches DestroyStep::Teardown { containers, cleared, commit_message, result } && {
                    &&& string_views(containers@) == t.agents@.map_values(
                        |a: crate::deploy::Agent| container_name_spec(t.name@, a.name@),
                    )
                    &&& cleared.api_version == t.api_version
                    &&& cleared.name == t.name
                    &&& cleared.guardrails == t.guardrails
                    &&& cleared.agents@.len() == 0
                    &&& cleared.streams@.len() == 0
                    &&& cleared.surfaces@.len() == 0
                    &&& cleared.subsystems@.len() == 0
                    &&& cleared.broker is None
                    &&& cleared.skills_repo is None
                    &&& commit_message@ == "["@ + agent_or_operator(agent_name) + "] destroy: "@ + destroy_summary(
                        t.agents@.len(),
                        t.streams@.len(),
                    )
                    &&& result == (DestroyResult {
                        destroyed: t.agents@.len() as usize,
                        streams_removed: t.streams@.len() as usize,
                        surfaces_destroyed: 0,
                    })
                }
            },
        },
{
    let t = match current {
        Some(t) => t,
        None => return DestroyStep::Nothing,
    };
    if t.agents.len() == 0 && t.streams.len() == 0 {
        return DestroyStep::Nothing;
    }
    let n = t.agents.len();
    let mut containers: Vec<String> = Vec::new();
    for i in 0..n
        invariant
            n == t.agents@.len(),
            string_views(containers@) == t.agents@.take(i as int).map_values(
                |a: crate::deploy::Agent| container_name_spec(t.name@, a.name@),
            ),
    {
        let c = container_name(t.name.as_str(), t.agents[i].name.as_str());
        let ghost before = containers@;
        containers.push(c);
        assert(containers@ == before.push(c));
        assert(string_views(containers@) =~= string_views(before).push(c@));
        assert(t.agents@.take(i + 1) =~= t.agents@.take(i as int).push(t.agents@[i as int]));
        assert(string_views(containers@) =~= t.agents@.take(i + 1).map_values(
            |a: crate::deploy::Agent| container_name_spec(t.name@, a.name@),
        ));
    }
    assert(t.agents@.take(n as int) =~= t.agents@);
    let streams = t.streams.len();
    let agent = match agent_name {
        Some(a) => a,
        None => "operator",
    };
    let mut msg = String::new();
    push_str(&mut msg, "[");
    push_str(&mut msg, agent);
    push_str(&mut msg, "] destroy: ");
    let ghost head = msg@;
    if n > 0 {
        push_removed(&mut msg, n, "agent");
    }
    if n > 0 && streams > 0 {
        push_str(&mut msg, ", ");
    }
    if streams > 0 {
        push_removed(&mut msg, streams, "stream");
    }
    assert(msg@ =~= head + destroy_summary(n as nat, streams as nat));
    let cleared = Topology {
        api_version: t.api_version,
        name: t.name,
        broker: None,
        skills_repo: None,
        agents: Vec::new(),
        streams: Vec::new(),
        surfaces: Vec::new(),
        guardrails: t.guardrails,
        subsystems: Vec::new(),
    };
    DestroyStep::Teardown {
        containers,
        cleared,
        commit_message: msg,
        result: DestroyResult { destroyed: n, streams_removed: streams, surfaces_destroyed: 0 },
    }
}

} // verus!
