//! The silence monitor's decisions: an agent silent for its timeout raises
//! one alert, and raises another only after it has published again.
//!
//! The periodic check itself (timers, the activity clock, the alert channel)
//! is run by the caller, which hands each reading to [`silence_tick`].

use vstd::prelude::*;
use crate::monitor::AgentMonitorConfig;
use crate::text::{dec, push_str, push_u64};

verus! {

/// Alert raised when an agent has been silent beyond its timeout.
#[derive(Debug, Clone)]
pub struct SilenceAlert {
    pub agent_name: String,
    pub stream_name: String,
    /// How long the agent has been silent, in milliseconds.
    pub silent_duration_ms: u64,
    pub message: String,
}

/// `n` rounded to the nearest multiple of `unit`, halves rounding up, in units.
pub open spec fn round_div(n: nat, unit: nat) -> nat
    recommends
        unit > 0,
{
    n / unit + if n % unit * 2 >= unit {
        1nat
    } else {
        0nat
    }
}

/// A duration in whole seconds as text: hours from an hour up, minutes from
/// a minute up, seconds below, each rounded to the nearest whole unit.
pub open spec fn human_duration(secs: nat) -> Seq<char> {
    if secs == 0 {
        "0 seconds"@
    } else if secs >= 3600 {
        let h = round_div(secs, 3600);
        if h == 1 {
            "1 hour"@
        } else {
            dec(h) + " hours"@
        }
    } else if secs >= 60 {
        let m = round_div(secs, 60);
        if m == 1 {
            "1 minute"@
        } else {
            dec(m) + " minutes"@
        }
    } else if secs == 1 {
        "1 second"@
    } else {
        dec(secs) + " seconds"@
    }
}

fn rounded(n: u64, unit: u64) -> (r: u64)
    requires
        unit == 60 || unit == 3600,
    ensures
        r == round_div(n as nat, unit as nat),
{
    let q = n / unit;
    let rem = n % unit;
    assert(q <= n / 60) by (nonlinear_arith)
        requires
            unit >= 60,
            q == n / unit,
    ;
    if rem * 2 >= unit {
        q + 1
    } else {
        q
    }
}

/// Format a duration given in seconds as `"X seconds"`, `"X minutes"` or
/// `"X hours"` by magnitude, rounded to the nearest whole unit.
pub fn format_human_duration(total_secs: u64) -> (s: String)
    ensures
        s@ == human_duration(total_secs as nat),
{
    let mut s = String::new();
    if total_secs == 0 {
        push_str(&mut s, "0 seconds");
    } else if total_secs >= 3600 {
        let h = rounded(total_secs, 3600);
        if h == 1 {
            push_str(&mut s, "1 hour");
        } else {
            push_u64(&mut s, h);
            push_str(&mut s, " hours");
        }
    } else if total_secs >= 60 {
        let m = rounded(total_secs, 60);
        if m == 1 {
            push_str(&mut s, "1 minute");
        } else {
            push_u64(&mut s, m);
            push_str(&mut s, " minutes");
        }
    } else if total_secs == 1 {
        push_str(&mut s, "1 second");
    } else {
        push_u64(&mut s, total_secs);
        push_str(&mut s, " seconds");
    }
    assert(s@ =~= human_duration(total_secs as nat));
    s
}

/// The notification text of an alert.
pub open spec fn notification_text(agent: Seq<char>, silent_ms: u64) -> Seq<char> {
    agent + ": no stream output in "@ + human_duration((silent_ms / 1000) as nat) + " \u{2014} possible loop or hang"@
}

fn notification(agent_name: &String, silent_ms: u64) -> (s: String)
    ensures
        s@ == notification_text(agent_name@, silent_ms),
{
    let mut s = String::new();
    push_str(&mut s, agent_name.as_str());
    push_str(&mut s, ": no stream output in ");
    let h = format_human_duration(silent_ms / 1000);
    push_str(&mut s, h.as_str());
    push_str(&mut s, " \u{2014} possible loop or hang");
    assert(s@ =~= notification_text(agent_name@, silent_ms));
    s
}

impl SilenceAlert {
    /// The notification: `"{agent}: no stream output in {duration} — possible loop or hang"`.
    pub fn format_notification(&self) -> (s: String)
        ensures
            s@ == notification_text(self.agent_name@, self.silent_duration_ms),
    {
        notification(&self.agent_name, self.silent_duration_ms)
    }
}

/// What the monitor remembers between checks.
#[derive(Debug, Clone, Copy, PartialEq, Eq, Structural)]
pub struct SilenceState {
    /// Whether an alert was raised and no activity followed it.
    pub alerted: bool,
    /// The activity reading at the last alert.
    pub last_alerted_activity_ms: u64,
}

/// The state of a monitor that has not alerted.
pub fn initial_silence_state() -> (s: SilenceState)
    ensures
        !s.alerted,
        s.last_alerted_activity_ms == u64::MAX,
{
    SilenceState { alerted: false, last_alerted_activity_ms: u64::MAX }
}

/// The check interval of a monitor: half its timeout, at least 10 ms.
pub fn check_interval_ms(timeout_ms: u64) -> (r: u64)
    ensures
        r == if timeout_ms / 2 > 10 { timeout_ms / 2 } else { 10 },
{
    let half = timeout_ms / 2;
    if half > 10 {
        half
    } else {
        10
    }
}

/// The state after activity is seen: new activity since the last alert clears it.
pub open spec fn refreshed(st: SilenceState, activity_ms: u64) -> SilenceState {
    if st.alerted && activity_ms != st.last_alerted_activity_ms {
        SilenceState { alerted: false, ..st }
    } else {
        st
    }
}

/// How long the agent has been silent at `now_ms`.
pub open spec fn silent_for(activity_ms: u64, now_ms: u64) -> u64 {
    if now_ms >= activity_ms {
        (now_ms - activity_ms) as u64
    } else {
        0
    }
}

/// Whether a check raises an alert.
pub open spec fn tick_alerts(timeout_ms: u64, st: SilenceState, activity_ms: u64, now_ms: u64) -> bool {
    !refreshed(st, activity_ms).alerted && silent_for(activity_ms, now_ms) >= timeout_ms
}

/// One periodic check of a monitor with the last activity reading and the
/// current reading of the same clock: new activity since an alert clears
/// it; while alerted nothing more is raised; otherwise a silence of at least
/// the timeout raises an alert and remembers the activity it saw.
pub fn silence_tick(config: &AgentMonitorConfig, state: SilenceState, activity_ms: u64, now_ms: u64) -> (r: (
    SilenceState,
    Option<SilenceAlert>,
))
    ensures
        ({
            let (next, alert) = r;
            let st = refreshed(state, activity_ms);
            if tick_alerts(config.timeout_ms, state, activity_ms, now_ms) {
                &&& next == (SilenceState { alerted: true, last_alerted_activity_ms: activity_ms })
                &&& alert is Some
                &&& alert->0.agent_name@ == config.agent_name@
                &&& alert->0.stream_name@ == config.stream_name@
                &&& alert->0.silent_duration_ms == silent_for(activity_ms, now_ms)
                &&& alert->0.message@ == notification_text(config.agent_name@, silent_for(activity_ms, now_ms))
            } else {
                next == st && alert is None
            }
        }),
{
    let mut st = state;
    if st.alerted && activity_ms != st.last_alerted_activity_ms {
        st.alerted = false;
    }
    if st.alerted {
        return (st, None);
    }
    let silent: u64 = if now_ms >= activity_ms { now_ms - activity_ms } else { 0 };
    if silent >= config.timeout_ms {
        let message = notification(&config.agent_name, silent);
        let alert = SilenceAlert {
            agent_name: config.agent_name.clone(),
            stream_name: config.stream_name.clone(),
            silent_duration_ms: silent,
            message,
        };
        (SilenceState { alerted: true, last_alerted_activity_ms: activity_ms }, Some(alert))
    } else {
        (st, None)
    }
}

/// No alert spam: once a check has alerted, later checks that see the same
/// activity reading raise nothing, however long the silence lasts.
pub proof fn law_alert_once_until_activity(timeout_ms: u64, st: SilenceState, activity_ms: u64, now_ms: u64, later_ms: u64)
    requires
        tick_alerts(timeout_ms, st, activity_ms, now_ms),
    ensures
        !tick_alerts(
            timeout_ms,
            SilenceState { alerted: true, last_alerted_activity_ms: activity_ms },
            activity_ms,
            later_ms,
        ),
{
}

/// Activity resets: after an alert, a check that sees a new activity
/// reading decides as a monitor that never alerted.
pub proof fn law_activity_clears_alert(timeout_ms: u64, last_ms: u64, activity_ms: u64, now_ms: u64)
    requires
        activity_ms != last_ms,
    ensures
        tick_alerts(timeout_ms, SilenceState { alerted: true, last_alerted_activity_ms: last_ms }, activity_ms, now_ms)
            == tick_alerts(timeout_ms, SilenceState { alerted: false, last_alerted_activity_ms: last_ms }, activity_ms, now_ms),
{
}

} // verus!
