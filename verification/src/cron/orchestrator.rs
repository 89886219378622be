//! The decisions of the cron to skill invocation chain. The caller
//! dispatches the cron event, waits for the handler's invocation event,
//! reads the clock for each step, and hands these to [`chain_outcome`],
//! which builds the event log, the summary and the operator notification.

use vstd::prelude::*;
use crate::cron::chain::{ChainError, ChainEvent, ChainOutcome, NotificationType, SurfaceNotification, event_time,
    event_type_name};
use crate::deploy::podman::{strip_prefix, strip_prefix_spec};
use crate::strmap::{StrMap, pairs_insert};
use crate::text::{dec_signed, push_i64, push_str, string_views};
use vstd::string::StringExecFns;

verus! {

/// Whether a skill is one whose execution is simulated as failing: its name
/// starts with `fail-` or `error-`.
pub open spec fn skill_fails(skill: Seq<char>) -> bool {
    strip_prefix_spec(skill, "fail-"@) is Some || strip_prefix_spec(skill, "error-"@) is Some
}

/// The simulated output, or error, of a skill.
pub open spec fn skill_output(skill: Seq<char>) -> Seq<char> {
    if skill_fails(skill) {
        "simulated failure for skill '"@ + skill + "'"@
    } else {
        "simulated output from skill '"@ + skill + "'"@
    }
}

/// The text published at the end of a chain.
pub open spec fn chain_text(job: Seq<char>, skill: Seq<char>) -> Seq<char> {
    if skill_fails(skill) {
        "[CRON CHAIN FAILED] job="@ + job + " skill="@ + skill + " error=SKILL_RESULT_ERROR: "@ + skill_output(skill)
    } else {
        "[CRON CHAIN OK] job="@ + job + " skill="@ + skill + " output="@ + skill_output(skill)
    }
}

/// The view of a chain event.
pub enum EventView {
    CronEventReceived { job_name: Seq<char>, timestamp_ms: i64 },
    SkillInvocationPublished { invocation_id: Seq<char>, skill_name: Seq<char>, timestamp_ms: i64 },
    SkillProgressPublished { invocation_id: Seq<char>, percent: u32, message: Seq<char>, timestamp_ms: i64 },
    SkillResultReceived { invocation_id: Seq<char>, success: bool, output_or_error: Seq<char>, timestamp_ms: i64 },
    TextMessagePublished { content: Seq<char>, timestamp_ms: i64 },
}

pub open spec fn event_view(e: ChainEvent) -> EventView {
    match e {
        ChainEvent::CronEventReceived { job_name, timestamp_ms } => EventView::CronEventReceived {
            job_name: job_name@,
            timestamp_ms,
        },
        ChainEvent::SkillInvocationPublished { invocation_id, skill_name, timestamp_ms } => EventView::SkillInvocationPublished {
            invocation_id: invocation_id@,
            skill_name: skill_name@,
            timestamp_ms,
        },
        ChainEvent::SkillProgressPublished { invocation_id, percent, message, timestamp_ms } => EventView::SkillProgressPublished {
            invocation_id: invocation_id@,
            percent,
            message: message@,
            timestamp_ms,
        },
        ChainEvent::SkillResultReceived { invocation_id, success, output_or_error, timestamp_ms } => EventView::SkillResultReceived {
            invocation_id: invocation_id@,
            success,
            output_or_error: output_or_error@,
            timestamp_ms,
        },
        ChainEvent::TextMessagePublished { content, timestamp_ms } => EventView::TextMessagePublished {
            content: content@,
            timestamp_ms,
        },
    }
}

/// The event log of a chain for job `job` whose handler published
/// `invocation` for skill `skill`.
pub open spec fn chain_log(
    job: Seq<char>,
    received_ms: i64,
    invocation: ChainEvent,
    id: Seq<char>,
    skill: Seq<char>,
    progress_ms: i64,
    result_ms: i64,
    text_ms: i64,
) -> Seq<EventView> {
    seq![
        EventView::CronEventReceived { job_name: job, timestamp_ms: received_ms },
        event_view(invocation),
        EventView::SkillProgressPublished { invocation_id: id, percent: 0, message: "started"@, timestamp_ms: progress_ms },
        EventView::SkillResultReceived {
            invocation_id: id,
            success: !skill_fails(skill),
            output_or_error: skill_output(skill),
            timestamp_ms: result_ms,
        },
        EventView::TextMessagePublished { content: chain_text(job, skill), timestamp_ms: text_ms },
    ]
}

/// The metadata of a failure notification, in key order.
pub open spec fn failure_metadata(job: Seq<char>, skill: Seq<char>) -> Seq<(Seq<char>, Seq<char>)> {
    pairs_insert(
        pairs_insert(seq![("job_name"@, job)], "skill_name"@, skill),
        "error_code"@,
        "SKILL_RESULT_ERROR"@,
    )
}

fn starts_with(s: &str, prefix: &str) -> (b: bool)
    ensures
        b == (strip_prefix_spec(s@, prefix@) is Some),
{
    strip_prefix(s, prefix).is_some()
}

/// Complete a cron chain once the handler has published its invocation
/// event: the log holds the cron event, the invocation, a "started"
/// progress event, the simulated result (a skill named `fail-…` or
/// `error-…` fails, any other succeeds) and the summary text, stamped with
/// the given times. A failed chain also yields the notification for
/// operator surfaces. An event other than an invocation is an error.
pub fn chain_outcome(
    job_name: &str,
    received_ms: i64,
    invocation: ChainEvent,
    progress_ms: i64,
    result_ms: i64,
    text_ms: i64,
) -> (r: Result<(ChainOutcome, Option<SurfaceNotification>), ChainError>)
    ensures
        match invocation {
            ChainEvent::SkillInvocationPublished { invocation_id, skill_name, .. } => r is Ok && ({
                let (o, n) = r->Ok_0;
                &&& o.events@.map_values(|e: ChainEvent| event_view(e)) == chain_log(
                    job_name@,
                    received_ms,
                    invocation,
                    invocation_id@,
                    skill_name@,
                    progress_ms,
                    result_ms,
                    text_ms,
                )
                &&& o.success == !skill_fails(skill_name@)
                &&& o.summary_text@ == chain_text(job_name@, skill_name@)
                &&& (o.success <==> n is None)
                &&& n matches Some(n) ==> n.notification_type == NotificationType::SkillFailure && n.message@ == chain_text(
                    job_name@,
                    skill_name@,
                ) && n.metadata.pairs() == failure_metadata(job_name@, skill_name@)
            }),
            _ => r is Err && r->Err_0 is InvocationFailed && r->Err_0->InvocationFailed_job_name@ == job_name@
                && r->Err_0->InvocationFailed_reason@ == "unexpected event type from handler"@,
        },
{
    let (invocation_id, skill_name) = match &invocation {
        ChainEvent::SkillInvocationPublished { invocation_id, skill_name, .. } => (invocation_id.clone(), skill_name.clone()),
        _ => {
            return Err(ChainError::InvocationFailed {
                job_name: String::from_str(job_name),
                reason: String::from_str("unexpected event type from handler"),
            });
        },
    };
    let fails = starts_with(skill_name.as_str(), "fail-") || starts_with(skill_name.as_str(), "error-");
    let mut output = String::new();
    if fails {
        push_str(&mut output, "simulated failure for skill '");
    } else {
        push_str(&mut output, "simulated output from skill '");
    }
    push_str(&mut output, skill_name.as_str());
    push_str(&mut output, "'");
    assert(output@ =~= skill_output(skill_name@));
    let mut text = String::new();
    if fails {
        push_str(&mut text, "[CRON CHAIN FAILED] job=");
    } else {
        push_str(&mut text, "[CRON CHAIN OK] job=");
    }
    push_str(&mut text, job_name);
    push_str(&mut text, " skill=");
    push_str(&mut text, skill_name.as_str());
    if fails {
        push_str(&mut text, " error=SKILL_RESULT_ERROR: ");
    } else {
        push_str(&mut text, " output=");
    }
    push_str(&mut text, output.as_str());
    assert(text@ =~= chain_text(job_name@, skill_name@));
    let mut events: Vec<ChainEvent> = Vec::new();
    events.push(ChainEvent::CronEventReceived { job_name: String::from_str(job_name), timestamp_ms: received_ms });
    events.push(invocation);
    events.push(ChainEvent::SkillProgressPublished {
        invocation_id: invocation_id.clone(),
        percent: 0,
        message: String::from_str("started"),
        timestamp_ms: progress_ms,
    });
    events.push(ChainEvent::SkillResultReceived {
        invocation_id,
        success: !fails,
        output_or_error: output,
        timestamp_ms: result_ms,
    });
    events.push(ChainEvent::TextMessagePublished { content: text.clone(), timestamp_ms: text_ms });
    let notification = if fails {
        let mut m: StrMap<String> = StrMap::new();
        assert(m.pairs() =~= Seq::<(Seq<char>, Seq<char>)>::empty());
        m.insert_str(String::from_str("job_name"), String::from_str(job_name));
        assert(m.pairs() =~= seq![("job_name"@, job_name@)]);
        m.insert_str(String::from_str("skill_name"), skill_name.clone());
        m.insert_str(String::from_str("error_code"), String::from_str("SKILL_RESULT_ERROR"));
        Some(SurfaceNotification { notification_type: NotificationType::SkillFailure, message: text.clone(), metadata: m })
    } else {
        None
    };
    let outcome = ChainOutcome { events, success: !fails, summary_text: text };
    assert(outcome.events@.map_values(|e: ChainEvent| event_view(e)) =~= chain_log(
        job_name@,
        received_ms,
        invocation,
        invocation->SkillInvocationPublished_invocation_id@,
        skill_name@,
        progress_ms,
        result_ms,
        text_ms,
    ));
    Ok((outcome, notification))
}

/// The order of a completed chain is always the same: cron event,
/// invocation, progress, result, text message.
pub proof fn law_chain_order(
    job: Seq<char>,
    received_ms: i64,
    invocation: ChainEvent,
    id: Seq<char>,
    skill: Seq<char>,
    progress_ms: i64,
    result_ms: i64,
    text_ms: i64,
)
    requires
        invocation is SkillInvocationPublished,
    ensures
        ({
            let log = chain_log(job, received_ms, invocation, id, skill, progress_ms, result_ms, text_ms);
            &&& log.len() == 5
            &&& log[0] is CronEventReceived
            &&& log[1] is SkillInvocationPublished
            &&& log[2] is SkillProgressPublished
            &&& log[3] is SkillResultReceived
            &&& log[4] is TextMessagePublished
        }),
{
}

/// One entry of a chain's log: `Type (t=timestamp)`.
pub open spec fn log_entry(e: ChainEvent) -> Seq<char> {
    event_type_name(e) + " (t="@ + dec_signed(event_time(e) as int) + ")"@
}

/// The chain's log, one entry per event, in order.
pub fn format_chain_log(events: &[ChainEvent]) -> (r: Vec<String>)
    ensures
        string_views(r@) == events@.map_values(|e: ChainEvent| log_entry(e)),
{
    let mut r: Vec<String> = Vec::new();
    let n = events.len();
    for i in 0..n
        invariant
            n == events@.len(),
            string_views(r@) == events@.take(i as int).map_values(|e: ChainEvent| log_entry(e)),
    {
        let e = &events[i];
        let mut line = String::new();
        push_str(&mut line, e.kind_name());
        push_str(&mut line, " (t=");
        push_i64(&mut line, e.timestamp_ms());
        push_str(&mut line, ")");
        let ghost before = r@;
        r.push(line);
        assert(r@ == before.push(line));
        assert(string_views(r@) =~= string_views(before).push(line@));
        assert(events@.take(i + 1) =~= events@.take(i as int).push(events@[i as int]));
        assert(string_views(r@) =~= events@.take(i + 1).map_values(|e: ChainEvent| log_entry(e)));
    }
    assert(events@.take(n as int) =~= events@);
    r
}

} // verus!
