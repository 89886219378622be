//! Skill routing: which agent pipeline a skill invocation goes to, and the
//! response messages the broker publishes back. Running the pipeline is
//! left to the caller.

use vstd::prelude::*;
use crate::strmap::StrMap;
use crate::text::push_str;
use vstd::string::StringExecFns;

verus! {

/// Type URL for SkillInvocation messages.
pub const TYPE_URL_SKILL_INVOCATION: &'static str = "wheelhouse.v1.SkillInvocation";
/// Type URL for SkillResult messages.
pub const TYPE_URL_SKILL_RESULT: &'static str = "wheelhouse.v1.SkillResult";
/// Type URL for SkillProgress messages.
pub const TYPE_URL_SKILL_PROGRESS: &'static str = "wheelhouse.v1.SkillProgress";
/// Publisher ID for skill results published by the broker.
pub const BROKER_SKILL_PUBLISHER_ID: &'static str = "broker-skill-executor";

/// A response message produced by skill execution: its type URL and the
/// encoded protobuf bytes, ready to be wrapped in a stream envelope.
#[derive(Debug)]
pub struct SkillResponse {
    pub type_url: String,
    pub payload: Vec<u8>,
}

/// The pipeline an invocation from `agent_id` runs on: the agent's own,
/// else the `default` one; `None` when neither is registered.
pub open spec fn pipeline_for<P>(pipelines: StrMap<P>, agent_id: Seq<char>) -> Option<P> {
    match pipelines.lookup(agent_id) {
        Some(p) => Some(p),
        None => pipelines.lookup("default"@),
    }
}

/// The error text when no pipeline serves an agent.
pub open spec fn no_pipeline_message(agent_id: Seq<char>) -> Seq<char> {
    "No skill pipeline configured for agent '"@ + agent_id + "'"@
}

/// Choose the pipeline for an invocation from `agent_id`, or the
/// `SKILL_NOT_PERMITTED` message when none serves it.
pub fn select_pipeline<'a, P>(pipelines: &'a StrMap<P>, agent_id: &str) -> (r: Result<&'a P, String>)
    ensures
        match r {
            Ok(p) => pipeline_for(*pipelines, agent_id@) == Some(*p),
            Err(m) => pipeline_for(*pipelines, agent_id@) is None && m@ == no_pipeline_message(agent_id@),
        },
{
    match pipelines.get(agent_id) {
        Some(p) => Ok(p),
        None => match pipelines.get("default") {
            Some(p) => Ok(p),
            None => {
                let mut m = String::from_str("No skill pipeline configured for agent '");
                push_str(&mut m, agent_id);
                push_str(&mut m, "'");
                Err(m)
            },
        },
    }
}

} // verus!
