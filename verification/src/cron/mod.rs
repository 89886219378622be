//! Cron: the chain of events that a cron trigger sets off, the errors of
//! cron handlers, and the summaries published about them.

pub mod chain;
pub mod dispatcher;
pub mod handler;
pub mod orchestrator;
pub mod proto_bridge;

use vstd::prelude::*;
use crate::strmap::StrMap;

verus! {

/// A cron event as the runtime passes it on.
#[derive(Debug, Clone)]
pub struct CronEventMessage {
    pub job_name: String,
    pub action: String,
    pub schedule: String,
    pub payload: StrMap<String>,
}

} // verus!
