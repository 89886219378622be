//! The observe-decide-act loop of an agent that manages its own topology:
//! a stream signal becomes a proposed change, the change is classified by
//! impact and held against the approval threshold, and what was applied is
//! reported back.

use vstd::prelude::*;
use crate::deploy::approval::ApprovalRequest;
use crate::deploy::podman::{find_agent, first_agent};
use crate::deploy::{Agent, Change, DeployError, ThresholdLevel, Topology};
use crate::text::{chars_of, dec, parse_uint, parse_uint_chars, push_str, push_u64};
use crate::cron::proto_bridge::now_ms;
use crate::registry::{iso_from_epoch_secs, iso_utc, lemma_iso_utc_nonempty};
use crate::wal::compaction::{rfc3339_at, rfc3339_of_millis};
use vstd::string::StringExecFns;

verus! {

/// The pattern of a timeout signal: `N daily timeout(s) on AGENT`.
pub const TIMEOUT_PATTERN: &'static str = "(?i)(\\d+)\\s+daily\\s+timeouts?\\s+on\\s+(\\S+)";

/// The pattern of an error-rate signal: `high error rate on AGENT`.
pub const ERROR_RATE_PATTERN: &'static str = "(?i)high\\s+error\\s+rate\\s+on\\s+(\\S+)";

/// Impact level of a proposed topology change.
#[derive(Debug, Clone, Copy, PartialEq, Eq, Structural)]
pub enum ImpactLevel {
    /// Minor change, e.g. scaling by less than 25%.
    Low,
    /// Moderate change, e.g. scaling by 25-50%.
    Medium,
    /// Significant change, e.g. scaling by more than 50%.
    High,
}

/// Confidence level of a proposed change.
#[derive(Debug, Clone, Copy, PartialEq, Eq, Structural)]
pub enum ChangeConfidence {
    High,
    Medium,
    Low,
}

/// A proposed topology change.
#[derive(Debug, Clone, PartialEq, Eq)]
pub enum ProposedChange {
    /// Scale an agent's replica count.
    ScaleAgent { agent_name: String, from_replicas: u32, to_replicas: u32 },
}

/// The result of evaluating a stream signal against the current topology.
#[derive(Debug, Clone)]
pub struct SignalEvaluation {
    /// The signal that triggered the evaluation.
    pub signal_summary: String,
    /// The proposed topology change.
    pub proposed_change: ProposedChange,
    /// Human-readable justification for the change.
    pub justification: String,
    /// Confidence level of the proposed change.
    pub confidence: ChangeConfidence,
}

/// The result of evaluating a change against the configured threshold.
#[derive(Debug, Clone)]
pub enum ThresholdDecision {
    /// Within the threshold: proceed autonomously.
    ProceedAutonomously,
    /// Beyond the threshold: ask the operator first.
    RequiresApproval { request: ApprovalRequest },
}

/// The result of a successful autonomous apply.
#[derive(Debug, Clone)]
pub struct AutonomousApplyResult {
    /// The git commit summary line.
    pub commit_summary: String,
    /// The plan hash from the deploy pipeline.
    pub plan_hash: String,
    /// The changes that were applied.
    pub changes: Vec<Change>,
}

/// What a surface is told after an autonomous apply.
#[derive(Debug, Clone)]
pub struct AutonomousNotification {
    pub what_changed: String,
    pub why: String,
    /// Git commit reference (the plan hash).
    pub commit_ref: String,
}

/// The groups of the first match of `pattern` in `text`, as
/// `regex::Regex::captures` finds them (group 0 is the whole match; a group
/// that took no part is `None`), or `None` when nothing matches or the
/// pattern does not compile.
pub uninterp spec fn regex_captures(pattern: Seq<char>, text: Seq<char>) -> Option<Seq<Option<Seq<char>>>>;

/// The view of captured groups.
pub open spec fn captures_view(c: Option<Vec<Option<String>>>) -> Option<Seq<Option<Seq<char>>>> {
    match c {
        Some(v) => Some(
            v@.map_values(
                |g: Option<String>|
                    match g {
                        Some(s) => Some(s@),
                        None => None,
                    },
            ),
        ),
        None => None,
    }
}

/// `regex::Regex::new(pattern)` then `captures(text)`, each group copied out
/// as a string. The contract names the result as a function of the pattern
/// and the text; what the regex engine matches is not restated.
#[verifier::external_body]
fn captures(pattern: &str, text: &str) -> (r: Option<Vec<Option<String>>>)
    ensures
        captures_view(r) == regex_captures(pattern@, text@),
{
    let re = match regex::Regex::new(pattern) {
        Ok(re) => re,
        Err(_) => return None,
    };
    re.captures(text).map(|c| c.iter().map(|m| m.map(|m| m.as_str().to_string())).collect())
}

/// Group `i` of captured groups, if present.
pub open spec fn group(caps: Seq<Option<Seq<char>>>, i: int) -> Option<Seq<char>> {
    if 0 <= i < caps.len() {
        caps[i]
    } else {
        None
    }
}

/// The view of a signal evaluation.
pub struct EvaluationView {
    pub signal_summary: Seq<char>,
    pub agent_name: Seq<char>,
    pub from_replicas: u32,
    pub to_replicas: u32,
    pub justification: Seq<char>,
    pub confidence: ChangeConfidence,
}

pub open spec fn evaluation_view(e: SignalEvaluation) -> EvaluationView {
    match e.proposed_change {
        ProposedChange::ScaleAgent { agent_name, from_replicas, to_replicas } => EvaluationView {
            signal_summary: e.signal_summary@,
            agent_name: agent_name@,
            from_replicas,
            to_replicas,
            justification: e.justification@,
            confidence: e.confidence,
        },
    }
}

/// The justification of a scale-up for repeated timeouts.
pub open spec fn timeout_justification(count: nat, agent: Seq<char>) -> Seq<char> {
    "Detected "@ + dec(count) + " daily timeouts on agent '"@ + agent
        + "', indicating insufficient capacity. Scaling up by 1 replica."@
}

/// The justification of a scale-up for a high error rate.
pub open spec fn error_rate_justification(agent: Seq<char>) -> Seq<char> {
    "High error rate detected on agent '"@ + agent + "', suggesting resource exhaustion. Scaling up by 1 replica."@
}

/// Whether the first agent named `agent`, if there is one, can take one
/// more replica.
pub open spec fn agent_can_grow(t: Topology, agent: Seq<char>) -> bool {
    match first_agent(t.agents@, agent) {
        Some(a) => a.replicas < u32::MAX,
        None => true,
    }
}

/// The agent that a signal proposes to scale, given what the two patterns
/// captured: the agent of a timeout signal with at least 3 timeouts, else
/// the agent of an error-rate signal; `None` when it proposes nothing.
pub open spec fn signal_target(
    timeout: Option<Seq<Option<Seq<char>>>>,
    error_rate: Option<Seq<Option<Seq<char>>>>,
) -> Option<Seq<char>> {
    match timeout {
        Some(caps) => match (group(caps, 1), group(caps, 2)) {
            (Some(n), Some(agent)) => match parse_uint(n, u32::MAX as nat) {
                Some(count) => if count < 3 {
                    None
                } else {
                    Some(agent)
                },
                None => None,
            },
            _ => None,
        },
        None => match error_rate {
            Some(caps) => group(caps, 1),
            None => None,
        },
    }
}

/// Whether the agent a signal names, if any, can take one more replica.
pub open spec fn target_can_grow(t: Topology, target: Option<Seq<char>>) -> bool {
    match target {
        Some(n) => agent_can_grow(t, n),
        None => true,
    }
}

/// A scale-up of the first agent named `agent` by one replica, unless no
/// agent has that name or the guardrail's maximum would be exceeded.
pub open spec fn scale_up(agent: Seq<char>, t: Topology, signal: Seq<char>, justification: Seq<char>) -> Option<EvaluationView> {
    match first_agent(t.agents@, agent) {
        None => None,
        Some(a) => {
            let to = a.replicas + 1;
            if t.guardrails matches Some(g) && g.max_replicas matches Some(m) && to > m {
                None
            } else {
                Some(EvaluationView {
                    signal_summary: signal,
                    agent_name: agent,
                    from_replicas: a.replicas,
                    to_replicas: to as u32,
                    justification,
                    confidence: ChangeConfidence::High,
                })
            }
        },
    }
}

/// What a signal is evaluated to, given what the two patterns captured in it.
pub open spec fn signal_outcome(
    signal: Seq<char>,
    t: Topology,
    timeout: Option<Seq<Option<Seq<char>>>>,
    error_rate: Option<Seq<Option<Seq<char>>>>,
) -> Option<EvaluationView> {
    match timeout {
        Some(caps) => match (group(caps, 1), group(caps, 2)) {
            (Some(n), Some(agent)) => match parse_uint(n, u32::MAX as nat) {
                Some(count) => if count < 3 {
                    None
                } else {
                    scale_up(agent, t, signal, timeout_justification(count, agent))
                },
                None => None,
            },
            _ => None,
        },
        None => match error_rate {
            Some(caps) => match group(caps, 1) {
                Some(agent) => scale_up(agent, t, signal, error_rate_justification(agent)),
                None => None,
            },
            None => None,
        },
    }
}

/// Whether agent `n` of `t` exists and may take one more replica within
/// the guardrail's maximum, if one is set.
pub open spec fn scale_allowed(t: Topology, n: Seq<char>) -> bool {
    match first_agent(t.agents@, n) {
        Some(a) => !(t.guardrails matches Some(g) && g.max_replicas matches Some(m) && a.replicas + 1 > m),
        None => false,
    }
}

/// A signal proposes a change exactly when it names an agent (a timeout
/// signal with at least 3 timeouts first, else a high error rate signal)
/// that exists and may grow by one replica within the guardrail. The
/// proposal then scales that agent from its replicas to one more, with high
/// confidence, and carries the signal as its summary.
pub proof fn law_signal_outcome(
    signal: Seq<char>,
    t: Topology,
    timeout: Option<Seq<Option<Seq<char>>>>,
    error_rate: Option<Seq<Option<Seq<char>>>>,
)
    requires
        target_can_grow(t, signal_target(timeout, error_rate)),
    ensures
        signal_outcome(signal, t, timeout, error_rate) is Some <==> (signal_target(timeout, error_rate) matches Some(n)
            && scale_allowed(t, n)),
        signal_outcome(signal, t, timeout, error_rate) matches Some(e) ==> {
            &&& signal_target(timeout, error_rate) == Some(e.agent_name)
            &&& e.signal_summary == signal
            &&& e.confidence == ChangeConfidence::High
            &&& first_agent(t.agents@, e.agent_name) matches Some(a) && e.from_replicas == a.replicas && e.to_replicas
                == a.replicas + 1
        },
{
}

pub open spec fn opt_evaluation_view(r: Option<SignalEvaluation>) -> Option<EvaluationView> {
    match r {
        Some(e) => Some(evaluation_view(e)),
        None => None,
    }
}

fn group_of(caps: &Vec<Option<String>>, i: usize) -> (r: Option<&String>)
    ensures
        match r {
            Some(s) => group(captures_view(Some(*caps))->0, i as int) == Some(s@),
            None => group(captures_view(Some(*caps))->0, i as int) is None,
        },
{
    if i < caps.len() {
        match &caps[i] {
            Some(s) => Some(s),
            None => None,
        }
    } else {
        None
    }
}

fn propose_scale_up(agent: &str, topology: &Topology, signal: &str, justification: String) -> (r: Option<SignalEvaluation>)
    requires
        agent_can_grow(*topology, agent@),
    ensures
        opt_evaluation_view(r) == scale_up(agent@, *topology, signal@, justification@),
{
    let a = match find_agent(topology.agents.as_slice(), agent) {
        Some(a) => a,
        None => return None,
    };
    proof { lemma_first_agent_member(topology.agents@, agent@); }
    let to = a.replicas + 1;
    if let Some(g) = &topology.guardrails {
        if let Some(m) = g.max_replicas {
            if to > m {
                return None;
            }
        }
    }
    Some(SignalEvaluation {
        signal_summary: String::from_str(signal),
        proposed_change: ProposedChange::ScaleAgent { agent_name: String::from_str(agent), from_replicas: a.replicas, to_replicas: to },
        justification,
        confidence: ChangeConfidence::High,
    })
}

/// The first agent with a name is one of the agents.
proof fn lemma_first_agent_member(s: Seq<Agent>, n: Seq<char>)
    ensures
        first_agent(s, n) matches Some(a) ==> exists|i: int| 0 <= i < s.len() && s[i] == a,
    decreases s.len(),
{
    if s.len() > 0 {
        lemma_first_agent_member(s.drop_last(), n);
        if first_agent(s.drop_last(), n) is Some {
            let a = first_agent(s.drop_last(), n)->0;
            let i = choose|i: int| 0 <= i < s.drop_last().len() && s.drop_last()[i] == a;
            assert(s[i] == a);
        } else if s.last().name@ == n {
            assert(s[s.len() - 1] == s.last());
        }
    }
}

/// Evaluate a signal given what the timeout pattern and the error-rate
/// pattern captured in it: `N daily timeouts on AGENT` with N at least 3,
/// or `high error rate on AGENT`, proposes scaling AGENT up by one replica,
/// unless no agent has that name or the guardrail's maximum forbids it.
pub fn evaluate_captures(
    signal: &str,
    topology: &Topology,
    timeout: Option<Vec<Option<String>>>,
    error_rate: Option<Vec<Option<String>>>,
) -> (r: Option<SignalEvaluation>)
    requires
        target_can_grow(*topology, signal_target(captures_view(timeout), captures_view(error_rate))),
    ensures
        opt_evaluation_view(r) == signal_outcome(signal@, *topology, captures_view(timeout), captures_view(error_rate)),
{
    match &timeout {
        Some(caps) => {
            let n = match group_of(caps, 1) {
                Some(n) => n,
                None => return None,
            };
            let agent = match group_of(caps, 2) {
                Some(a) => a,
                None => return None,
            };
            let digits = chars_of(n.as_str());
            let count = match parse_uint_chars(digits.as_slice(), 0xffff_ffffu64) {
                Some(c) => c,
                None => return None,
            };
            if count < 3 {
                return None;
            }
            let mut j = String::new();
            push_str(&mut j, "Detected ");
            push_u64(&mut j, count);
            push_str(&mut j, " daily timeouts on agent '");
            push_str(&mut j, agent.as_str());
            push_str(&mut j, "', indicating insufficient capacity. Scaling up by 1 replica.");
            assert(j@ =~= timeout_justification(count as nat, agent@));
            propose_scale_up(agent.as_str(), topology, signal, j)
        },
        None => match &error_rate {
            Some(caps) => {
                let agent = match group_of(caps, 1) {
                    Some(a) => a,
                    None => return None,
                };
                let mut j = String::new();
                push_str(&mut j, "High error rate detected on agent '");
                push_str(&mut j, agent.as_str());
                push_str(&mut j, "', suggesting resource exhaustion. Scaling up by 1 replica.");
                assert(j@ =~= error_rate_justification(agent@));
                propose_scale_up(agent.as_str(), topology, signal, j)
            },
            None => None,
        },
    }
}

/// Evaluate a signal against the current topology to propose a change:
/// `N daily timeouts on AGENT` (N at least 3) or `high error rate on AGENT`,
/// matched without regard to case, proposes scaling AGENT up by one
/// replica. `None` when the signal is not recognized, names no agent of the
/// topology, or the change would exceed the guardrail's maximum.
pub fn evaluate_signal(signal: &str, current_topology: &Topology) -> (r: Option<SignalEvaluation>)
    requires
        target_can_grow(
            *current_topology,
            signal_target(regex_captures(TIMEOUT_PATTERN@, signal@), regex_captures(ERROR_RATE_PATTERN@, signal@)),
        ),
    ensures
        opt_evaluation_view(r) == signal_outcome(
            signal@,
            *current_topology,
            regex_captures(TIMEOUT_PATTERN@, signal@),
            regex_captures(ERROR_RATE_PATTERN@, signal@),
        ),
{
    let timeout = captures(TIMEOUT_PATTERN, signal);
    let error_rate = captures(ERROR_RATE_PATTERN, signal);
    evaluate_captures(signal, current_topology, timeout, error_rate)
}

/// Evaluate a signal, first checking that the agent it names can take one
/// more replica: `None` when that agent already has `u32::MAX` replicas,
/// else `Some` of what `evaluate_signal` answers.
pub fn evaluate_signal_checked(signal: &str, current_topology: &Topology) -> (r: Option<Option<SignalEvaluation>>)
    ensures
        ({
            let target = signal_target(
                regex_captures(TIMEOUT_PATTERN@, signal@),
                regex_captures(ERROR_RATE_PATTERN@, signal@),
            );
            match r {
                None => !target_can_grow(*current_topology, target),
                Some(e) => target_can_grow(*current_topology, target) && opt_evaluation_view(e) == signal_outcome(
                    signal@,
                    *current_topology,
                    regex_captures(TIMEOUT_PATTERN@, signal@),
                    regex_captures(ERROR_RATE_PATTERN@, signal@),
                ),
            }
        }),
{
    let timeout = captures(TIMEOUT_PATTERN, signal);
    let error_rate = captures(ERROR_RATE_PATTERN, signal);
    let target = target_of(&timeout, &error_rate);
    if let Some(name) = target {
        if let Some(a) = find_agent(current_topology.agents.as_slice(), name.as_str()) {
            if a.replicas == u32::MAX {
                return None;
            }
        }
    }
    Some(evaluate_signal(signal, current_topology))
}

/// The agent that the captures name, as `signal_target` says.
fn target_of(timeout: &Option<Vec<Option<String>>>, error_rate: &Option<Vec<Option<String>>>) -> (r: Option<String>)
    ensures
        match r {
            Some(n) => signal_target(captures_view(*timeout), captures_view(*error_rate)) == Some(n@),
            None => signal_target(captures_view(*timeout), captures_view(*error_rate)) is None,
        },
{
    match timeout {
        Some(caps) => {
            let n = match group_of(caps, 1) {
                Some(n) => n,
                None => return None,
            };
            let agent = match group_of(caps, 2) {
                Some(a) => a,
                None => return None,
            };
            let digits = chars_of(n.as_str());
            match parse_uint_chars(digits.as_slice(), 0xffff_ffffu64) {
                Some(c) => if c < 3 {
                    None
                } else {
                    Some(agent.clone())
                },
                None => None,
            }
        },
        None => match error_rate {
            Some(caps) => match group_of(caps, 1) {
                Some(a) => Some(a.clone()),
                None => None,
            },
            None => None,
        },
    }
}

/// The impact of scaling from `from` to `to` replicas: from zero, or by more
/// than half, is high; a scale-down is at least medium; by a quarter to a
/// half is medium; by less than a quarter is low.
pub open spec fn scaling_impact(from: int, to: int) -> ImpactLevel {
    let d = if to >= from { to - from } else { from - to };
    if from == 0 {
        ImpactLevel::High
    } else if to < from && 4 * d < from {
        ImpactLevel::Medium
    } else if 2 * d > from {
        ImpactLevel::High
    } else if 4 * d >= from {
        ImpactLevel::Medium
    } else {
        ImpactLevel::Low
    }
}

/// The impact of a replica change in terms of its relative size, for
/// scale-ups and scale-downs alike: from zero replicas it is high; else,
/// with `d` the number of replicas added or removed, it is high exactly when
/// `d` is more than half of `from`, low exactly when it is a scale-up (or no
/// change) by less than a quarter of `from`, and medium otherwise: a change
/// by a quarter to a half, or a scale-down by less than a quarter.
pub proof fn law_scaling_impact(from: u32, to: u32)
    ensures
        ({
            let d: int = if to >= from { to - from } else { from - to };
            &&& from == 0 ==> scaling_impact(from as int, to as int) == ImpactLevel::High
            &&& from > 0 ==> (scaling_impact(from as int, to as int) == ImpactLevel::High <==> 2 * d > from)
            &&& from > 0 ==> (scaling_impact(from as int, to as int) == ImpactLevel::Low <==> (to >= from && 4 * d < from))
            &&& from > 0 ==> (scaling_impact(from as int, to as int) == ImpactLevel::Medium <==> (2 * d <= from && (4 * d
                >= from || to < from)))
        }),
{
}

/// Classify the impact level of a proposed topology change by the relative
/// size of the replica change: over 50% is high, 25% to 50% medium, under
/// 25% low; a scale-down is at least medium and scaling from zero is high.
pub fn classify_impact(proposed_change: &ProposedChange, _topology: &Topology) -> (r: ImpactLevel)
    ensures
        match proposed_change {
            ProposedChange::ScaleAgent { from_replicas, to_replicas, .. } => r == scaling_impact(
                *from_replicas as int,
                *to_replicas as int,
            ),
        },
{
    match proposed_change {
        ProposedChange::ScaleAgent { from_replicas, to_replicas, .. } => {
            let f = *from_replicas as u64;
            let t = *to_replicas as u64;
            if f == 0 {
                return ImpactLevel::High;
            }
            let d: u64 = if t >= f { t - f } else { f - t };
            if t < f && 4 * d < f {
                ImpactLevel::Medium
            } else if 2 * d > f {
                ImpactLevel::High
            } else if 4 * d >= f {
                ImpactLevel::Medium
            } else {
                ImpactLevel::Low
            }
        },
    }
}

/// Whether an impact needs approval under a threshold: none lets every
/// change proceed, `Low` lets only low-impact changes proceed, `Medium`
/// holds back high-impact changes, `High` lets every change proceed.
pub open spec fn approval_needed(impact: ImpactLevel, threshold: Option<ThresholdLevel>) -> bool {
    match threshold {
        None => false,
        Some(ThresholdLevel::Low) => impact != ImpactLevel::Low,
        Some(ThresholdLevel::Medium) => impact == ImpactLevel::High,
        Some(ThresholdLevel::High) => false,
    }
}

/// The rank of an impact level: low 0, medium 1, high 2.
pub open spec fn impact_rank(i: ImpactLevel) -> int {
    match i {
        ImpactLevel::Low => 0,
        ImpactLevel::Medium => 1,
        ImpactLevel::High => 2,
    }
}

/// The rank of a threshold level: low 0, medium 1, high 2.
pub open spec fn threshold_rank(t: ThresholdLevel) -> int {
    match t {
        ThresholdLevel::Low => 0,
        ThresholdLevel::Medium => 1,
        ThresholdLevel::High => 2,
    }
}

/// A change needs approval exactly when a threshold is set and the change's
/// impact ranks above it; without a threshold every change proceeds.
pub proof fn law_approval_above_threshold(impact: ImpactLevel, threshold: Option<ThresholdLevel>)
    ensures
        approval_needed(impact, threshold) <==> (threshold matches Some(t) && impact_rank(impact) > threshold_rank(t)),
{
}

/// Determine whether a change with the given impact level requires human
/// approval under the configured threshold.
pub fn should_require_approval(impact: &ImpactLevel, threshold: &Option<ThresholdLevel>) -> (b: bool)
    ensures
        b == approval_needed(*impact, *threshold),
{
    match threshold {
        None => false,
        Some(ThresholdLevel::Low) => !matches!(impact, ImpactLevel::Low),
        Some(ThresholdLevel::Medium) => matches!(impact, ImpactLevel::High),
        Some(ThresholdLevel::High) => false,
    }
}

/// The `{:?}` name of an impact level.
pub open spec fn impact_name(i: ImpactLevel) -> Seq<char> {
    match i {
        ImpactLevel::Low => "Low"@,
        ImpactLevel::Medium => "Medium"@,
        ImpactLevel::High => "High"@,
    }
}

/// The `{:?}` name of a threshold level.
pub open spec fn threshold_name(t: ThresholdLevel) -> Seq<char> {
    match t {
        ThresholdLevel::Low => "Low"@,
        ThresholdLevel::Medium => "Medium"@,
        ThresholdLevel::High => "High"@,
    }
}

fn impact_str(i: ImpactLevel) -> (s: &'static str)
    ensures
        s@ == impact_name(i),
{
    match i {
        ImpactLevel::Low => "Low",
        ImpactLevel::Medium => "Medium",
        ImpactLevel::High => "High",
    }
}

fn threshold_str(t: ThresholdLevel) -> (s: &'static str)
    ensures
        s@ == threshold_name(t),
{
    match t {
        ThresholdLevel::Low => "Low",
        ThresholdLevel::Medium => "Medium",
        ThresholdLevel::High => "High",
    }
}

/// The threshold configured in a topology's guardrails.
pub open spec fn configured_threshold(t: Topology) -> Option<ThresholdLevel> {
    match t.guardrails {
        Some(g) => g.autonomous_apply_threshold,
        None => None,
    }
}

/// The "what" line of an approval request for a scaling.
pub open spec fn scale_request_what(agent: Seq<char>, from: u32, to: u32) -> Seq<char> {
    "Scale agent '"@ + agent + "' from "@ + dec(from as nat) + " to "@ + dec(to as nat) + " replicas"@
}

/// The instruction of an approval request.
pub open spec fn approval_instruction(impact: ImpactLevel, threshold: ThresholdLevel) -> Seq<char> {
    "This change is classified as "@ + impact_name(impact) + " impact and exceeds the configured threshold ("@
        + threshold_name(threshold) + "). Reply 'yes' or 'approve' to proceed, or 'no' / 'reject' to deny."@
}

/// Evaluate a proposed change against the topology's configured threshold:
/// proceed, or an approval request naming the change, its justification,
/// its impact and how to answer.
pub fn evaluate_threshold(evaluation: &SignalEvaluation, topology: &Topology) -> (d: ThresholdDecision)
    ensures
        ({
            let impact = match evaluation.proposed_change {
                ProposedChange::ScaleAgent { from_replicas, to_replicas, .. } => scaling_impact(
                    from_replicas as int,
                    to_replicas as int,
                ),
            };
            let threshold = configured_threshold(*topology);
            if approval_needed(impact, threshold) {
                d is RequiresApproval && ({
                    let req = d->request;
                    &&& req.what@ == match evaluation.proposed_change {
                        ProposedChange::ScaleAgent { agent_name, from_replicas, to_replicas } => scale_request_what(
                            agent_name@,
                            from_replicas,
                            to_replicas,
                        ),
                    }
                    &&& req.why@ == evaluation.justification@
                    &&& req.impact_level@ == impact_name(impact)
                    &&& req.instruction@ == approval_instruction(impact, threshold->0)
                })
            } else {
                d is ProceedAutonomously
            }
        }),
{
    let threshold = match &topology.guardrails {
        Some(g) => g.autonomous_apply_threshold,
        None => None,
    };
    let impact = classify_impact(&evaluation.proposed_change, topology);
    if should_require_approval(&impact, &threshold) {
        let t = match threshold {
            Some(t) => t,
            None => return ThresholdDecision::ProceedAutonomously,
        };
        let mut what = String::new();
        match &evaluation.proposed_change {
            ProposedChange::ScaleAgent { agent_name, from_replicas, to_replicas } => {
                push_str(&mut what, "Scale agent '");
                push_str(&mut what, agent_name.as_str());
                push_str(&mut what, "' from ");
                push_u64(&mut what, *from_replicas as u64);
                push_str(&mut what, " to ");
                push_u64(&mut what, *to_replicas as u64);
                push_str(&mut what, " replicas");
            },
        }
        let mut instruction = String::new();
        push_str(&mut instruction, "This change is classified as ");
        push_str(&mut instruction, impact_str(impact));
        push_str(&mut instruction, " impact and exceeds the configured threshold (");
        push_str(&mut instruction, threshold_str(t));
        push_str(&mut instruction, "). Reply 'yes' or 'approve' to proceed, or 'no' / 'reject' to deny.");
        let request = ApprovalRequest {
            what,
            why: evaluation.justification.clone(),
            impact_level: String::from_str(impact_str(impact)),
            instruction,
        };
        assert(request.what@ =~= match evaluation.proposed_change {
            ProposedChange::ScaleAgent { agent_name, from_replicas, to_replicas } => scale_request_what(
                agent_name@,
                from_replicas,
                to_replicas,
            ),
        });
        assert(request.instruction@ =~= approval_instruction(impact, t));
        ThresholdDecision::RequiresApproval { request }
    } else {
        ThresholdDecision::ProceedAutonomously
    }
}

/// The "what changed" line of a notification.
pub open spec fn scaled_text(agent: Seq<char>, from: u32, to: u32) -> Seq<char> {
    "Scaled agent '"@ + agent + "' from "@ + dec(from as nat) + " to "@ + dec(to as nat) + " replicas"@
}

/// Format a notification for a surface after an autonomous apply.
pub fn format_notification(result: &AutonomousApplyResult, evaluation: &SignalEvaluation) -> (n: AutonomousNotification)
    ensures
        n.what_changed@ == match evaluation.proposed_change {
            ProposedChange::ScaleAgent { agent_name, from_replicas, to_replicas } => scaled_text(
                agent_name@,
                from_replicas,
                to_replicas,
            ),
        },
        n.why@ == evaluation.justification@,
        n.commit_ref@ == result.plan_hash@,
{
    let mut what = String::new();
    match &evaluation.proposed_change {
        ProposedChange::ScaleAgent { agent_name, from_replicas, to_replicas } => {
            push_str(&mut what, "Scaled agent '");
            push_str(&mut what, agent_name.as_str());
            push_str(&mut what, "' from ");
            push_u64(&mut what, *from_replicas as u64);
            push_str(&mut what, " to ");
            push_u64(&mut what, *to_replicas as u64);
            push_str(&mut what, " replicas");
            assert(what@ =~= scaled_text(agent_name@, *from_replicas, *to_replicas));
        },
    }
    AutonomousNotification { what_changed: what, why: evaluation.justification.clone(), commit_ref: result.plan_hash.clone() }
}

/// The commit summary of an autonomous apply.
pub open spec fn autonomous_summary(agent: Seq<char>, target: Seq<char>, replicas: u32, approved: bool) -> Seq<char> {
    "["@ + agent + "] apply: scale agent "@ + target + " replicas to "@ + dec(replicas as nat) + if approved {
        " (human-approved)"@
    } else {
        Seq::empty()
    }
}

/// The commit summary of an autonomous apply, marked when a human approved it.
pub fn autonomous_commit_summary(agent_name: &str, target_agent: &str, new_replicas: u32, approved: bool) -> (s: String)
    ensures
        s@ == autonomous_summary(agent_name@, target_agent@, new_replicas, approved),
{
    let mut s = String::new();
    push_str(&mut s, "[");
    push_str(&mut s, agent_name);
    push_str(&mut s, "] apply: scale agent ");
    push_str(&mut s, target_agent);
    push_str(&mut s, " replicas to ");
    push_u64(&mut s, new_replicas as u64);
    if approved {
        push_str(&mut s, " (human-approved)");
    }
    assert(s@ =~= autonomous_summary(agent_name@, target_agent@, new_replicas, approved));
    s
}

/// Set the replicas of the first agent named `agent_name`; an error when no
/// agent has that name.
#[verifier::loop_isolation(false)]
pub fn set_agent_replicas(topology: Topology, agent_name: &str, new_replicas: u32) -> (r: Result<Topology, DeployError>)
    ensures
        match first_agent(topology.agents@, agent_name@) {
            None => r is Err && r->Err_0 is InvalidTopology && r->Err_0->InvalidTopology_0@ == "agent '"@ + agent_name@
                + "' not found in topology"@,
            Some(_) => r is Ok && ({
                let t = r->Ok_0;
                exists|i: int|
                    0 <= i < topology.agents@.len() && topology.agents@[i] == first_agent(topology.agents@, agent_name@)->0
                        && (forall|j: int| 0 <= j < i ==> topology.agents@[j].name@ != agent_name@) && t == Topology {
                        agents: t.agents,
                        ..topology
                    } && t.agents@ == topology.agents@.update(i, Agent { replicas: new_replicas, ..topology.agents@[i] })
            }),
        },
{
    let ghost orig = topology;
    let Topology { api_version, name, broker, skills_repo, mut agents, streams, surfaces, guardrails, subsystems } = topology;
    let n = agents.len();
    let mut i: usize = 0;
    while i < n
        invariant
            n == agents@.len(),
            agents@ == orig.agents@,
            i <= n,
            forall|j: int| 0 <= j < i ==> agents@[j].name@ != agent_name@,
            first_agent(agents@.take(i as int), agent_name@) is None,
        decreases n - i,
    {
        assert(agents@.take(i + 1).drop_last() =~= agents@.take(i as int));
        if crate::text::str_eq(agents[i].name.as_str(), agent_name) {
            proof { lemma_first_agent_at(agents@, agent_name@, i as int); }
            let a = agents.remove(i);
            let ghost a0 = a;
            let Agent { name: an, image, replicas: _, streams: st, persona, skills, topology_edit, volumes, env } = a;
            let b = Agent { name: an, image, replicas: new_replicas, streams: st, persona, skills, topology_edit, volumes, env };
            assert(b == Agent { replicas: new_replicas, ..a0 });
            agents.insert(i, b);
            assert(agents@ =~= orig.agents@.update(i as int, b));
            let t = Topology { api_version, name, broker, skills_repo, agents, streams, surfaces, guardrails, subsystems };
            assert(orig.agents@[i as int] == first_agent(orig.agents@, agent_name@)->0);
            assert(t == Topology { agents: t.agents, ..orig });
            assert(0 <= i < orig.agents@.len() && orig.agents@[i as int] == first_agent(orig.agents@, agent_name@)->0
                && (forall|j: int| 0 <= j < i ==> orig.agents@[j].name@ != agent_name@) && t == Topology {
                agents: t.agents,
                ..orig
            } && t.agents@ == orig.agents@.update(i as int, Agent { replicas: new_replicas, ..orig.agents@[i as int] }));
            return Ok(t);
        }
        i = i + 1;
    }
    assert(agents@.take(n as int) =~= agents@);
    let mut m = String::new();
    push_str(&mut m, "agent '");
    push_str(&mut m, agent_name);
    push_str(&mut m, "' not found in topology");
    assert(m@ =~= "agent '"@ + agent_name@ + "' not found in topology"@);
    Err(DeployError::InvalidTopology(m))
}

/// The first agent is the one at the first index with the name.
proof fn lemma_first_agent_at(s: Seq<Agent>, n: Seq<char>, i: int)
    requires
        0 <= i < s.len(),
        s[i].name@ == n,
        forall|j: int| 0 <= j < i ==> s[j].name@ != n,
    ensures
        first_agent(s, n) == Some(s[i]),
    decreases s.len(),
{
    if i < s.len() - 1 {
        lemma_first_agent_at(s.drop_last(), n, i);
    } else {
        lemma_first_agent_none(s.drop_last(), n);
    }
}

proof fn lemma_first_agent_none(s: Seq<Agent>, n: Seq<char>)
    requires
        forall|j: int| 0 <= j < s.len() ==> s[j].name@ != n,
    ensures
        first_agent(s, n) is None,
    decreases s.len(),
{
    if s.len() > 0 {
        lemma_first_agent_none(s.drop_last(), n);
    }
}

/// A parsed summary of a `.wh` topology file.
#[derive(Debug, Clone, PartialEq)]
pub struct TopologySummary {
    pub topology_name: String,
    pub agent_count: usize,
    pub stream_count: usize,
    /// The raw YAML content of the `.wh` file.
    pub raw_yaml: String,
    /// E.g. "Topology 'dev': 2 agents, 1 stream".
    pub summary: String,
}

/// What an agent publishes of its topology.
#[derive(Debug, Clone, PartialEq)]
pub struct TopologyPublishEvent {
    pub agent_name: String,
    pub summary: String,
    pub content: String,
    /// RFC 3339 timestamp of when the event was created.
    pub timestamp: String,
}

/// The summary line of a topology.
pub open spec fn summary_text(name: Seq<char>, agents: nat, streams: nat) -> Seq<char> {
    "Topology '"@ + name + "': "@ + dec(agents) + (if agents == 1 {
        " agent"@
    } else {
        " agents"@
    }) + ", "@ + dec(streams) + (if streams == 1 {
        " stream"@
    } else {
        " streams"@
    })
}

/// Summarize a parsed topology read from `raw_yaml`.
pub fn summarize_topology(topology: &Topology, raw_yaml: String) -> (s: TopologySummary)
    ensures
        s.topology_name@ == topology.name@,
        s.agent_count == topology.agents@.len(),
        s.stream_count == topology.streams@.len(),
        s.raw_yaml == raw_yaml,
        s.summary@ == summary_text(topology.name@, topology.agents@.len(), topology.streams@.len()),
{
    let ac = topology.agents.len();
    let sc = topology.streams.len();
    let mut s = String::new();
    push_str(&mut s, "Topology '");
    push_str(&mut s, topology.name.as_str());
    push_str(&mut s, "': ");
    push_u64(&mut s, ac as u64);
    push_str(&mut s, if ac == 1 { " agent" } else { " agents" });
    push_str(&mut s, ", ");
    push_u64(&mut s, sc as u64);
    push_str(&mut s, if sc == 1 { " stream" } else { " streams" });
    assert(s@ =~= summary_text(topology.name@, ac as nat, sc as nat));
    TopologySummary { topology_name: topology.name.clone(), agent_count: ac, stream_count: sc, raw_yaml, summary: s }
}

/// The timestamp of an event created at `ms` milliseconds since the epoch:
/// its RFC 3339 text as chrono writes it, or, for a time chrono cannot
/// represent, the UTC second as `YYYY-MM-DDTHH:MM:SSZ`.
pub open spec fn event_timestamp(ms: i64) -> Seq<char> {
    match rfc3339_at(ms) {
        Some(s) => s,
        None => iso_utc((ms / 1000) as nat),
    }
}

/// The RFC 3339 text of the current time, read from the clock (zero when
/// it reads before the epoch).
fn now_rfc3339() -> (s: String)
    ensures
        exists|ms: i64| ms >= 0 && s@ == event_timestamp(ms),
        s@.len() > 0,
{
    let ms = now_ms();
    let r = match rfc3339_of_millis(ms) {
        Some(s) => s,
        None => {
            let secs: u64 = (ms / 1000) as u64;
            proof {
                lemma_iso_utc_nonempty((ms / 1000) as nat);
            }
            iso_from_epoch_secs(secs)
        },
    };
    assert(ms >= 0 && r@ == event_timestamp(ms));
    r
}

/// Format a topology summary into a publish event with agent attribution,
/// stamped with the current time.
pub fn publish_topology_summary(summary: &TopologySummary, agent_name: &str) -> (e: TopologyPublishEvent)
    ensures
        e.agent_name@ == agent_name@,
        e.summary@ == summary.summary@,
        e.content@ == summary.raw_yaml@,
        exists|ms: i64| ms >= 0 && e.timestamp@ == event_timestamp(ms),
        e.timestamp@.len() > 0,
{
    TopologyPublishEvent {
        agent_name: String::from_str(agent_name),
        summary: summary.summary.clone(),
        content: summary.raw_yaml.clone(),
        timestamp: now_rfc3339(),
    }
}

/// The read path of the autonomous loop: summarize the agent's own parsed
/// `.wh` file and produce the event it publishes.
pub fn smoke_test_read_loop(topology: &Topology, raw_yaml: String, agent_name: &str) -> (e: TopologyPublishEvent)
    ensures
        e.agent_name@ == agent_name@,
        e.summary@ == summary_text(topology.name@, topology.agents@.len(), topology.streams@.len()),
        e.content@ == raw_yaml@,
        exists|ms: i64| ms >= 0 && e.timestamp@ == event_timestamp(ms),
        e.timestamp@.len() > 0,
{
    let s = summarize_topology(topology, raw_yaml);
    publish_topology_summary(&s, agent_name)
}

} // verus!
