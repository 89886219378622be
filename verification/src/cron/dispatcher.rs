//! The table that sends each cron event to the handler registered for its
//! job. Running the handler, concurrently, is left to the caller.

use vstd::prelude::*;
use crate::strmap::{StrMap, lemma_map_insert_lookup};
use crate::cron::CronEventMessage;

verus! {

/// Cron event handlers by job name.
pub struct CronEventDispatcher<H> {
    handlers: StrMap<H>,
}

impl<H> CronEventDispatcher<H> {
    /// The handler registered for a job name, if any.
    pub open spec fn handler_of(&self, job_name: Seq<char>) -> Option<H> {
        self.handlers_map().lookup(job_name)
    }

    /// The table.
    pub closed spec fn handlers_map(&self) -> StrMap<H> {
        self.handlers
    }

    /// A dispatcher with no handler.
    pub fn new() -> (d: Self)
        ensures
            forall|j: Seq<char>| #[trigger] d.handler_of(j) is None,
    {
        CronEventDispatcher { handlers: StrMap::new() }
    }

    /// Register `handler` for `job_name`, replacing any earlier one; the
    /// other jobs keep theirs.
    pub fn register_handler(&mut self, job_name: &str, handler: H)
        ensures
            final(self).handler_of(job_name@) == Some(handler),
            forall|j: Seq<char>| j != job_name@ ==> #[trigger] final(self).handler_of(j) == old(self).handler_of(j),
    {
        let key = job_name.to_string();
        let ghost before = self.handlers.entries();
        proof {
            lemma_map_insert_lookup(before, key, handler, job_name@);
        }
        let ghost h = handler;
        self.handlers.insert(key, handler);
        proof {
            assert forall|j: Seq<char>| j != job_name@ implies #[trigger] self.handler_of(j) == old(self).handler_of(j) by {
                lemma_map_insert_lookup(before, key, h, j);
            }
        }
    }

    /// The handler an event goes to: the one registered for its job, or
    /// `None` when there is none.
    pub fn dispatch(&self, event: &CronEventMessage) -> (r: Option<&H>)
        ensures
            match r {
                Some(h) => self.handler_of(event.job_name@) == Some(*h),
                None => self.handler_of(event.job_name@) is None,
            },
    {
        self.handlers.get(event.job_name.as_str())
    }
}

} // verus!
