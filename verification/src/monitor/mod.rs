//! Agent loop detection: per-agent silence timeouts parsed from the `.wh`
//! file, and the decision of when a silent agent raises an alert.

pub mod error;
pub mod silence;

use vstd::prelude::*;
use crate::monitor::error::MonitorError;
use crate::text::{parse_uint, parse_uint_chars, string_of, trim, trim_str};
use vstd::string::StringExecFns;

verus! {

/// Configuration of an agent's loop detection monitor.
#[derive(Debug, Clone)]
pub struct AgentMonitorConfig {
    /// Agent name as declared in the `.wh` file.
    pub agent_name: String,
    /// Target stream of the agent.
    pub stream_name: String,
    /// Silence timeout in milliseconds; zero disables monitoring.
    pub timeout_ms: u64,
}

impl AgentMonitorConfig {
    /// Whether loop detection is enabled: the timeout is not zero.
    pub fn is_enabled(&self) -> (b: bool)
        ensures
            b == (self.timeout_ms != 0),
    {
        self.timeout_ms != 0
    }
}

/// The seconds a duration string stands for: `"0"`, or a decimal number
/// followed by `s`, `m` or `h`, after trimming whitespace.
pub open spec fn duration_secs(s: Seq<char>) -> Option<nat> {
    let t = trim(s);
    if t == "0"@ {
        Some(0)
    } else if t.len() < 2 {
        None
    } else {
        match parse_uint(t.drop_last(), u64::MAX as nat) {
            None => None,
            Some(n) => if t.last() == 's' {
                Some(n)
            } else if t.last() == 'm' {
                Some(n * 60)
            } else if t.last() == 'h' {
                Some(n * 3600)
            } else {
                None
            },
        }
    }
}

/// The inputs `parse_duration_str` handles: the trimmed string does not end
/// in a multi-byte character, and the seconds fit in a `u64`.
pub open spec fn duration_input_ok(s: Seq<char>) -> bool {
    let t = trim(s);
    &&& (t.len() > 0 ==> (t.last() as u32) < 128)
    &&& (duration_secs(s) matches Some(v) ==> v <= u64::MAX)
}

/// Parse a duration string into seconds: `"0"`, `"30s"`, `"15m"` or `"1h"`.
/// Anything else is an `InvalidTimeout` error holding the trimmed input.
pub fn parse_duration_str(s: &str) -> (r: Result<u64, MonitorError>)
    requires
        duration_input_ok(s@),
    ensures
        match duration_secs(s@) {
            Some(v) => r == Ok::<u64, MonitorError>(v as u64),
            None => r is Err && r->Err_0 is InvalidTimeout && r->Err_0->input@ == trim(s@),
        },
{
    let t = trim_str(s);
    let n = t.len();
    if n == 1 && t[0] == '0' {
        assert(t@ =~= "0"@) by {
            reveal_strlit("0");
        }
        return Ok(0);
    }
    proof {
        reveal_strlit("0");
        if n != 1 {
            assert(t@ != "0"@);
        }
    }
    if n < 2 {
        return Err(MonitorError::InvalidTimeout { input: string_of(t.as_slice()) });
    }
    let mut digits: Vec<char> = Vec::new();
    for i in 0..n - 1
        invariant
            n == t@.len(),
            n >= 2,
            digits@ == t@.subrange(0, i as int),
    {
        digits.push(t[i]);
        assert(digits@ =~= t@.subrange(0, i + 1));
    }
    assert(digits@ =~= t@.drop_last());
    let num = match parse_uint_chars(digits.as_slice(), 0xffff_ffff_ffff_ffffu64) {
        Some(v) => v,
        None => {
            return Err(MonitorError::InvalidTimeout { input: string_of(t.as_slice()) });
        },
    };
    let suffix = t[n - 1];
    if suffix == 's' {
        Ok(num)
    } else if suffix == 'm' {
        Ok(num * 60)
    } else if suffix == 'h' {
        Ok(num * 3600)
    } else {
        Err(MonitorError::InvalidTimeout { input: string_of(t.as_slice()) })
    }
}

} // verus!
