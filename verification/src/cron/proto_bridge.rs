//! What the cron chain publishes about itself, and the clock that stamps it.

use vstd::prelude::*;
use crate::cron::chain::{ChainEvent, ChainOutcome, event_time, event_type_name};
use crate::text::{dec_signed, join, push_i64, push_str};

verus! {

/// Reads the system clock: milliseconds since the Unix epoch, or `None`
/// when the clock reads earlier than the epoch. The value depends on when
/// it is called, so nothing is stated of it.
#[verifier::external_body]
fn epoch_millis() -> (r: Option<u128>) {
    std::time::SystemTime::now().duration_since(std::time::UNIX_EPOCH).ok().map(|d| d.as_millis())
}

/// Epoch milliseconds from a clock reading: the reading, capped at
/// `i64::MAX`; zero when the clock read earlier than the epoch (`None`).
pub open spec fn epoch_ms(reading: Option<u128>) -> i64 {
    match reading {
        Some(ms) => if ms > 0x7fff_ffff_ffff_ffffu128 {
            i64::MAX
        } else {
            ms as i64
        },
        None => 0,
    }
}

/// The epoch milliseconds of a clock reading, as `epoch_ms` says.
pub fn epoch_ms_of(reading: Option<u128>) -> (r: i64)
    ensures
        r == epoch_ms(reading),
        r >= 0,
{
    match reading {
        Some(ms) => if ms > 0x7fff_ffff_ffff_ffffu128 {
            0x7fff_ffff_ffff_ffffi64
        } else {
            ms as i64
        },
        None => 0,
    }
}

/// Current UTC epoch milliseconds: `epoch_ms` of one reading of the clock
/// (which one depends on when it is called).
pub fn now_ms() -> (r: i64)
    ensures
        exists|reading: Option<u128>| r == epoch_ms(reading),
        r >= 0,
{
    let reading = epoch_millis();
    let r = epoch_ms_of(reading);
    assert(r == epoch_ms(reading));
    r
}

/// One line of the event list of a chain summary.
pub open spec fn event_line(e: ChainEvent) -> Seq<char> {
    "  "@ + event_type_name(e) + " (t="@ + dec_signed(event_time(e) as int) + ")"@
}

/// The summary of a chain outcome: status, summary text, and one line per event.
pub open spec fn chain_summary(o: ChainOutcome) -> Seq<char> {
    "[CRON CHAIN "@ + (if o.success {
        "SUCCESS"@
    } else {
        "FAILED"@
    }) + "] "@ + o.summary_text@ + "\nEvents:\n"@ + join(o.events@.map_values(|e: ChainEvent| event_line(e)), "\n"@)
}

/// Format a chain outcome into a human-readable summary for a text message.
pub fn build_chain_summary(outcome: &ChainOutcome) -> (s: String)
    ensures
        s@ == chain_summary(*outcome),
{
    let mut s = String::new();
    push_str(&mut s, "[CRON CHAIN ");
    push_str(&mut s, if outcome.success { "SUCCESS" } else { "FAILED" });
    push_str(&mut s, "] ");
    push_str(&mut s, outcome.summary_text.as_str());
    push_str(&mut s, "\nEvents:\n");
    let ghost base = s@;
    let ghost lines = outcome.events@.map_values(|e: ChainEvent| event_line(e));
    for i in 0..outcome.events.len()
        invariant
            lines == outcome.events@.map_values(|e: ChainEvent| event_line(e)),
            s@ == base + join(lines.take(i as int), "\n"@),
    {
        assert(lines.take(i + 1).drop_last() =~= lines.take(i as int));
        if i > 0 {
            push_str(&mut s, "\n");
        }
        let e = &outcome.events[i];
        push_str(&mut s, "  ");
        push_str(&mut s, e.kind_name());
        push_str(&mut s, " (t=");
        push_i64(&mut s, e.timestamp_ms());
        push_str(&mut s, ")");
        proof {
            if i == 0 {
                assert(join(lines.take(1), "\n"@) == lines.take(1)[0]);
            }
        }
        assert(s@ =~= base + join(lines.take(i + 1), "\n"@));
    }
    assert(lines.take(outcome.events@.len() as int) =~= lines);
    assert(s@ =~= chain_summary(*outcome));
    s
}

} // verus!
