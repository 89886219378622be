//! Stream compaction: the statistics of the records read from the WAL, the
//! Markdown summary written for them, the paths it is written to and the
//! commit message it is committed with, and the errors of the process.
//!
//! Reading the WAL, writing files and running git are left to the caller.

use vstd::prelude::*;
use crate::deploy::{DeployError, deploy_error_message};
use crate::deploy::memory::{join_path, path_join};
use crate::text::{dec, dec_signed, push_i64, push_str, push_u64};
use crate::registry::{iso_utc, padded};
use vstd::string::StringExecFns;

verus! {

/// Errors of compaction.
#[derive(Debug, Clone, PartialEq, Eq)]
pub enum CompactionError {
    MutexBusy(String),
    WalRead(String),
    SummaryFailed(String),
    GitFailed(String),
    GitTimeout(u64),
    /// An I/O error, with its text.
    IoError(String),
    RollbackTriggered(String),
}

pub open spec fn compaction_error_code(e: CompactionError) -> Seq<char> {
    match e {
        CompactionError::MutexBusy(_) => "MUTEX_BUSY"@,
        CompactionError::WalRead(_) => "WAL_READ_ERROR"@,
        CompactionError::SummaryFailed(_) => "SUMMARY_FAILED"@,
        CompactionError::GitFailed(_) => "GIT_FAILED"@,
        CompactionError::GitTimeout(_) => "GIT_TIMEOUT"@,
        CompactionError::IoError(_) => "IO_ERROR"@,
        CompactionError::RollbackTriggered(_) => "ROLLBACK_TRIGGERED"@,
    }
}

pub open spec fn compaction_error_message(e: CompactionError) -> Seq<char> {
    match e {
        CompactionError::MutexBusy(s) => "compaction mutex busy for stream '"@ + s@
            + "' \u{2014} concurrent run dropped (CM-08)"@,
        CompactionError::WalRead(m) => "failed to read WAL records: "@ + m@,
        CompactionError::SummaryFailed(m) => "summary generation failed: "@ + m@,
        CompactionError::GitFailed(m) => "git operation failed: "@ + m@,
        CompactionError::GitTimeout(n) => "git operation timed out after "@ + dec(n as nat) + "s"@,
        CompactionError::IoError(m) => "I/O error: "@ + m@,
        CompactionError::RollbackTriggered(m) => "compaction rolled back: "@ + m@,
    }
}

impl CompactionError {
    /// Returns the error code string in SCREAMING_SNAKE_CASE.
    pub fn code(&self) -> (c: &'static str)
        ensures
            c@ == compaction_error_code(*self),
    {
        match self {
            CompactionError::MutexBusy(_) => "MUTEX_BUSY",
            CompactionError::WalRead(_) => "WAL_READ_ERROR",
            CompactionError::SummaryFailed(_) => "SUMMARY_FAILED",
            CompactionError::GitFailed(_) => "GIT_FAILED",
            CompactionError::GitTimeout(_) => "GIT_TIMEOUT",
            CompactionError::IoError(_) => "IO_ERROR",
            CompactionError::RollbackTriggered(_) => "ROLLBACK_TRIGGERED",
        }
    }

    /// The display text of the error.
    pub fn message(&self) -> (m: String)
        ensures
            m@ == compaction_error_message(*self),
    {
        let mut out = String::new();
        match self {
            CompactionError::MutexBusy(s) => {
                push_str(&mut out, "compaction mutex busy for stream '");
                push_str(&mut out, s.as_str());
                push_str(&mut out, "' \u{2014} concurrent run dropped (CM-08)");
            },
            CompactionError::WalRead(m) => {
                push_str(&mut out, "failed to read WAL records: ");
                push_str(&mut out, m.as_str());
            },
            CompactionError::SummaryFailed(m) => {
                push_str(&mut out, "summary generation failed: ");
                push_str(&mut out, m.as_str());
            },
            CompactionError::GitFailed(m) => {
                push_str(&mut out, "git operation failed: ");
                push_str(&mut out, m.as_str());
            },
            CompactionError::GitTimeout(n) => {
                push_str(&mut out, "git operation timed out after ");
                push_u64(&mut out, *n);
                push_str(&mut out, "s");
            },
            CompactionError::IoError(m) => {
                push_str(&mut out, "I/O error: ");
                push_str(&mut out, m.as_str());
            },
            CompactionError::RollbackTriggered(m) => {
                push_str(&mut out, "compaction rolled back: ");
                push_str(&mut out, m.as_str());
            },
        }
        assert(out@ =~= compaction_error_message(*self));
        out
    }

    /// The compaction error for a failed git step: a timeout stays a
    /// timeout, a git failure stays a git failure, a read failure becomes an
    /// I/O error, and anything else is a git failure with its text.
    pub fn from_deploy(err: DeployError) -> (r: CompactionError)
        ensures
            match err {
                DeployError::GitTimeout(secs) => r == CompactionError::GitTimeout(secs),
                DeployError::GitFailed(m) => r == CompactionError::GitFailed(m),
                DeployError::FileRead(m) => r == CompactionError::IoError(m),
                _ => r is GitFailed && r->GitFailed_0@ == deploy_error_message(err),
            },
    {
        match err {
            DeployError::GitTimeout(secs) => CompactionError::GitTimeout(secs),
            DeployError::GitFailed(m) => CompactionError::GitFailed(m),
            DeployError::FileRead(m) => CompactionError::IoError(m),
            other => CompactionError::GitFailed(other.message()),
        }
    }
}

/// Result of a successful compaction.
#[derive(Debug, Clone)]
pub struct CompactionSummary {
    pub stream_name: String,
    /// Date of the compaction (YYYY-MM-DD).
    pub date: String,
    pub record_count: u64,
    /// Earliest record time, milliseconds since the epoch.
    pub earliest_timestamp_ms: i64,
    /// Latest record time, milliseconds since the epoch.
    pub latest_timestamp_ms: i64,
    pub total_payload_bytes: u64,
    /// Path of the summary file.
    pub summary_path: String,
    /// Git commit hash of the compaction commit.
    pub commit_hash: String,
}

/// The statistics of the records read: their number, the earliest and
/// latest creation time (zero when there are none) and the total payload
/// size.
pub struct RecordStats {
    pub record_count: u64,
    pub earliest_timestamp_ms: i64,
    pub latest_timestamp_ms: i64,
    pub total_payload_bytes: u64,
}

/// The least creation time of records given as `(created_at, payload length)`.
pub open spec fn min_time(r: Seq<(i64, u64)>) -> i64
    decreases r.len(),
{
    if r.len() == 0 {
        0
    } else if r.len() == 1 {
        r[0].0
    } else {
        let m = min_time(r.drop_last());
        if r.last().0 < m {
            r.last().0
        } else {
            m
        }
    }
}

/// The greatest creation time.
pub open spec fn max_time(r: Seq<(i64, u64)>) -> i64
    decreases r.len(),
{
    if r.len() == 0 {
        0
    } else if r.len() == 1 {
        r[0].0
    } else {
        let m = max_time(r.drop_last());
        if r.last().0 > m {
            r.last().0
        } else {
            m
        }
    }
}

/// The total payload size.
pub open spec fn total_size(r: Seq<(i64, u64)>) -> nat
    decreases r.len(),
{
    if r.len() == 0 {
        0
    } else {
        total_size(r.drop_last()) + (r.last().1 as nat)
    }
}

/// The statistics of records given as `(created_at, payload length)`.
pub fn record_stats(records: &[(i64, u64)]) -> (s: RecordStats)
    requires
        total_size(records@) <= u64::MAX,
        records@.len() <= u64::MAX,
    ensures
        s.record_count == records@.len(),
        s.earliest_timestamp_ms == min_time(records@),
        s.latest_timestamp_ms == max_time(records@),
        s.total_payload_bytes == total_size(records@),
{
    let mut lo: i64 = 0;
    let mut hi: i64 = 0;
    let mut total: u64 = 0;
    for i in 0..records.len()
        invariant
            lo == min_time(records@.take(i as int)),
            hi == max_time(records@.take(i as int)),
            total == total_size(records@.take(i as int)),
            total_size(records@) <= u64::MAX,
    {
        let ghost t = records@.take(i + 1);
        assert(t.drop_last() =~= records@.take(i as int));
        proof { lemma_total_size_prefix(records@, i + 1); }
        let (at, len) = records[i];
        if i == 0 {
            lo = at;
            hi = at;
        } else {
            if at < lo {
                lo = at;
            }
            if at > hi {
                hi = at;
            }
        }
        total = total + len;
    }
    assert(records@.take(records@.len() as int) =~= records@);
    RecordStats {
        record_count: records.len() as u64,
        earliest_timestamp_ms: lo,
        latest_timestamp_ms: hi,
        total_payload_bytes: total,
    }
}

/// A prefix's total is at most the whole total.
proof fn lemma_total_size_prefix(r: Seq<(i64, u64)>, k: int)
    requires
        0 <= k <= r.len(),
    ensures
        total_size(r.take(k)) <= total_size(r),
    decreases r.len() - k,
{
    if k < r.len() {
        lemma_total_size_prefix(r, k + 1);
        assert(r.take(k + 1).drop_last() =~= r.take(k));
    } else {
        assert(r.take(k) =~= r);
    }
}

/// The RFC 3339 text of a time in milliseconds since the epoch (UTC), as
/// chrono writes it, or `None` when chrono cannot represent the time.
pub uninterp spec fn rfc3339_millis(ms: i64) -> Option<Seq<char>>;

/// The last millisecond of year 9999, the last time written with a
/// four-digit year.
pub const MAX_FOUR_DIGIT_YEAR_MS: i64 = 253402300799999;

/// The RFC 3339 text of a non-negative time with a four-digit year:
/// `YYYY-MM-DDTHH:MM:SS`, then `.mmm` when the milliseconds are not zero,
/// then the offset `+00:00`.
pub open spec fn rfc3339_text(ms: nat) -> Seq<char> {
    let frac = ms % 1000;
    iso_utc(ms / 1000).drop_last() + (if frac == 0 { Seq::empty() } else { "."@ + padded(frac, 3) }) + "+00:00"@
}

/// The RFC 3339 text of a time: stated from the epoch to the end of year
/// 9999, named otherwise.
pub open spec fn rfc3339_at(ms: i64) -> Option<Seq<char>> {
    if 0 <= ms <= MAX_FOUR_DIGIT_YEAR_MS {
        Some(rfc3339_text(ms as nat))
    } else {
        rfc3339_millis(ms)
    }
}

/// `chrono::DateTime::from_timestamp_millis(ms)` then `to_rfc3339()`: a
/// function of the time alone. From the epoch to the end of year 9999 the
/// text is stated (`write_rfc3339` with `SecondsFormat::AutoSi`: a four-digit
/// year, the milliseconds only when not zero, the UTC offset as `+00:00`);
/// before the epoch and after year 9999 (a signed year, or no date at all
/// out of chrono's range) it is only named. Claimed besides: the text is
/// not empty (`to_rfc3339` always writes the date, the time and the offset).
#[verifier::external_body]
pub(crate) fn rfc3339_of_millis(ms: i64) -> (r: Option<String>)
    ensures
        match r {
            Some(s) => rfc3339_millis(ms) == Some(s@) && s@.len() > 0,
            None => rfc3339_millis(ms) is None,
        },
        0 <= ms <= MAX_FOUR_DIGIT_YEAR_MS ==> r is Some && r->0@ == rfc3339_text(ms as nat),
{
    chrono::DateTime::from_timestamp_millis(ms).map(|dt| dt.to_rfc3339())
}

/// The label of a record time: its RFC 3339 text, `fallback` when chrono
/// cannot represent it, `N/A` when there is no time (zero or less).
pub open spec fn time_label(ms: i64, fallback: Seq<char>) -> Seq<char> {
    if ms > 0 {
        match rfc3339_at(ms) {
            Some(s) => s,
            None => fallback,
        }
    } else {
        "N/A"@
    }
}

fn time_label_of(ms: i64, fallback: &str) -> (s: String)
    ensures
        s@ == time_label(ms, fallback@),
{
    if ms > 0 {
        match rfc3339_of_millis(ms) {
            Some(s) => s,
            None => String::from_str(fallback),
        }
    } else {
        String::from_str("N/A")
    }
}

/// Round-half-to-even of `p / q`.
pub open spec fn round_half_even(p: nat, q: nat) -> nat
    recommends
        q > 0,
{
    let t = p / q;
    let r = p % q;
    if 2 * r > q || (2 * r == q && t % 2 == 1) {
        t + 1
    } else {
        t
    }
}

/// `bytes / unit` with one decimal, as `{:.1}` writes it, then the unit name.
pub open spec fn one_decimal(bytes: nat, unit: nat, name: Seq<char>) -> Seq<char> {
    let tenths = round_half_even(bytes * 10, unit);
    dec(tenths / 10) + "."@ + dec(tenths % 10) + " "@ + name
}

/// A byte count in human units: GB, MB and KB with one decimal, bytes below.
pub open spec fn human_bytes(bytes: nat) -> Seq<char> {
    if bytes >= 1073741824 {
        one_decimal(bytes, 1073741824, "GB"@)
    } else if bytes >= 1048576 {
        one_decimal(bytes, 1048576, "MB"@)
    } else if bytes >= 1024 {
        one_decimal(bytes, 1024, "KB"@)
    } else {
        dec(bytes) + " bytes"@
    }
}

fn push_one_decimal(s: &mut String, bytes: u64, unit: u64, name: &str)
    requires
        bytes < 0x20_0000_0000_0000,
        unit == 1024 || unit == 1048576 || unit == 1073741824,
    ensures
        final(s)@ == old(s)@ + one_decimal(bytes as nat, unit as nat, name@),
{
    let p: u64 = bytes * 10;
    let t = p / unit;
    let r = p % unit;
    let tenths: u64 = if 2 * r > unit || (2 * r == unit && t % 2 == 1) { t + 1 } else { t };
    assert(t <= p) by (nonlinear_arith)
        requires
            t == p / unit,
            unit > 0,
    ;
    push_u64(s, tenths / 10);
    push_str(s, ".");
    push_u64(s, tenths % 10);
    push_str(s, " ");
    push_str(s, name);
    assert(final(s)@ =~= old(s)@ + one_decimal(bytes as nat, unit as nat, name@));
}

/// Format a byte count as human-readable, e.g. "1.2 MB". Counts from
/// 2^53 bytes up, which a 64-bit float does not hold exactly, are outside
/// this function's domain.
pub fn format_bytes(bytes: u64) -> (s: String)
    requires
        bytes < 0x20_0000_0000_0000,
    ensures
        s@ == human_bytes(bytes as nat),
{
    let mut s = String::new();
    if bytes >= 1073741824 {
        push_one_decimal(&mut s, bytes, 1073741824, "GB");
    } else if bytes >= 1048576 {
        push_one_decimal(&mut s, bytes, 1048576, "MB");
    } else if bytes >= 1024 {
        push_one_decimal(&mut s, bytes, 1024, "KB");
    } else {
        push_u64(&mut s, bytes);
        push_str(&mut s, " bytes");
    }
    assert(s@ =~= human_bytes(bytes as nat));
    s
}

/// The Markdown summary of a compaction, with YAML front matter.
pub open spec fn summary_markdown(
    stream: Seq<char>,
    date: Seq<char>,
    count: u64,
    earliest_ms: i64,
    latest_ms: i64,
    total_bytes: u64,
) -> Seq<char> {
    let e = time_label(earliest_ms, "N/A"@);
    let l = time_label(latest_ms, "N/A"@);
    "---\nstream: "@ + stream + "\ndate: \""@ + date + "\"\nrecord_count: "@ + dec(count as nat)
        + "\nearliest_timestamp: \""@ + e + "\"\nlatest_timestamp: \""@ + l + "\"\ntotal_payload_bytes: "@ + dec(
        total_bytes as nat,
    ) + "\n---\n\n# Stream Compaction Summary: "@ + stream + " ("@ + date + ")\n\n- **Records processed:** "@ + dec(
        count as nat,
    ) + "\n- **Time range:** "@ + e + " \u{2014} "@ + l + "\n- **Total payload size:** "@ + human_bytes(
        total_bytes as nat,
    ) + "\n"@
}

/// The label of a record time in terms of its value: `N/A` when it is not
/// positive, its RFC 3339 text up to the end of year 9999.
pub proof fn law_time_label(ms: i64, fallback: Seq<char>)
    ensures
        ms <= 0 ==> time_label(ms, fallback) == "N/A"@,
        0 < ms <= MAX_FOUR_DIGIT_YEAR_MS ==> time_label(ms, fallback) == rfc3339_text(ms as nat),
{
}

/// The summary text, laid out from its pieces.
spec fn summary_layout(
    stream: Seq<char>,
    date: Seq<char>,
    cnt: Seq<char>,
    e: Seq<char>,
    l: Seq<char>,
    tot: Seq<char>,
    human: Seq<char>,
) -> Seq<char> {
    "---\nstream: "@ + stream + "\ndate: \""@ + date + "\"\nrecord_count: "@ + cnt + "\nearliest_timestamp: \""@ + e
        + "\"\nlatest_timestamp: \""@ + l + "\"\ntotal_payload_bytes: "@ + tot + "\n---\n\n# Stream Compaction Summary: "@
        + stream + " ("@ + date + ")\n\n- **Records processed:** "@ + cnt + "\n- **Time range:** "@ + e + " \u{2014} "@ + l
        + "\n- **Total payload size:** "@ + human + "\n"@
}

proof fn lemma_summary_layout(
    stream: Seq<char>,
    date: Seq<char>,
    cnt: Seq<char>,
    e: Seq<char>,
    l: Seq<char>,
    tot: Seq<char>,
    human: Seq<char>,
)
    ensures
        ({
            let s = summary_layout(stream, date, cnt, e, l, tot, human);
            &&& exists|p: Seq<char>, q: Seq<char>| s == p + "earliest_timestamp: \""@ + e + "\""@ + q
            &&& exists|p: Seq<char>, q: Seq<char>| s == p + "latest_timestamp: \""@ + l + "\""@ + q
            &&& exists|p: Seq<char>, q: Seq<char>| s == p + "**Time range:** "@ + e + " \u{2014} "@ + l + "\n"@ + q
        }),
{
    reveal_strlit("\"\nrecord_count: ");
    reveal_strlit("\nearliest_timestamp: \"");
    reveal_strlit("earliest_timestamp: \"");
    reveal_strlit("\n");
    reveal_strlit("\"\nlatest_timestamp: \"");
    reveal_strlit("latest_timestamp: \"");
    reveal_strlit("\nlatest_timestamp: \"");
    reveal_strlit("\"");
    reveal_strlit("\"\n");
    reveal_strlit("\"\ntotal_payload_bytes: ");
    reveal_strlit("\ntotal_payload_bytes: ");
    reveal_strlit("\n- **Time range:** ");
    reveal_strlit("\n- ");
    reveal_strlit("**Time range:** ");
    reveal_strlit("\n- **Total payload size:** ");
    reveal_strlit("- **Total payload size:** ");
    let s = summary_layout(stream, date, cnt, e, l, tot, human);
    let head = "---\nstream: "@ + stream + "\ndate: \""@ + date + "\"\nrecord_count: "@ + cnt;
    let mid = "\ntotal_payload_bytes: "@ + tot + "\n---\n\n# Stream Compaction Summary: "@ + stream + " ("@
        + date + ")\n\n- **Records processed:** "@ + cnt;
    let tail = "- **Total payload size:** "@ + human + "\n"@;
    assert("\nearliest_timestamp: \""@ =~= "\n"@ + "earliest_timestamp: \""@);
    assert("\"\nlatest_timestamp: \""@ =~= "\"\n"@ + "latest_timestamp: \""@);
    assert("\"\ntotal_payload_bytes: "@ =~= "\""@ + "\ntotal_payload_bytes: "@);
    assert("\n- **Time range:** "@ =~= "\n- "@ + "**Time range:** "@);
    assert("\n- **Total payload size:** "@ =~= "\n"@ + "- **Total payload size:** "@);
    let p1 = head + "\n"@;
    assert("\"\nlatest_timestamp: \""@ =~= "\""@ + "\nlatest_timestamp: \""@);
    let q1 = "\nlatest_timestamp: \""@ + l + "\""@ + mid + "\n- **Time range:** "@ + e + " \u{2014} "@ + l + "\n"@ + tail;
    assert(s =~= p1 + "earliest_timestamp: \""@ + e + "\""@ + q1);
    let p2 = head + "\nearliest_timestamp: \""@ + e + "\"\n"@;
    let q2 = mid + "\n- **Time range:** "@ + e + " \u{2014} "@ + l + "\n"@ + tail;
    assert(s =~= p2 + "latest_timestamp: \""@ + l + "\""@ + q2);
    let p3 = head + "\nearliest_timestamp: \""@ + e + "\"\nlatest_timestamp: \""@ + l + "\""@ + mid + "\n- "@;
    assert(s =~= p3 + "**Time range:** "@ + e + " \u{2014} "@ + l + "\n"@ + tail);
}

/// The summary's front matter gives `latest_timestamp` as the label of the
/// latest time and `earliest_timestamp` as that of the earliest, and its time
/// range runs from the earliest's label to the latest's: each label depends
/// on its own time only (with `law_time_label`: the RFC 3339 text, `N/A` when
/// not positive).
pub proof fn law_summary_times(
    stream: Seq<char>,
    date: Seq<char>,
    count: u64,
    earliest_ms: i64,
    latest_ms: i64,
    total_bytes: u64,
)
    ensures
        ({
            let text = summary_markdown(stream, date, count, earliest_ms, latest_ms, total_bytes);
            let first = time_label(earliest_ms, "N/A"@);
            let last = time_label(latest_ms, "N/A"@);
            &&& exists|p: Seq<char>, q: Seq<char>| text == p + "earliest_timestamp: \""@ + first + "\""@ + q
            &&& exists|p: Seq<char>, q: Seq<char>| text == p + "latest_timestamp: \""@ + last + "\""@ + q
            &&& exists|p: Seq<char>, q: Seq<char>| text == p + "**Time range:** "@ + first + " \u{2014} "@ + last + "\n"@ + q
        }),
{
    lemma_summary_layout(
        stream,
        date,
        dec(count as nat),
        time_label(earliest_ms, "N/A"@),
        time_label(latest_ms, "N/A"@),
        dec(total_bytes as nat),
        human_bytes(total_bytes as nat),
    );
}

/// Generate the compaction summary content.
pub fn generate_summary(
    stream_name: &str,
    date: &str,
    record_count: u64,
    earliest_timestamp_ms: i64,
    latest_timestamp_ms: i64,
    total_payload_bytes: u64,
) -> (s: String)
    requires
        total_payload_bytes < 0x20_0000_0000_0000,
    ensures
        s@ == summary_markdown(stream_name@, date@, record_count, earliest_timestamp_ms, latest_timestamp_ms, total_payload_bytes),
{
    let e = time_label_of(earliest_timestamp_ms, "N/A");
    let l = time_label_of(latest_timestamp_ms, "N/A");
    let size = format_bytes(total_payload_bytes);
    let mut s = String::new();
    push_str(&mut s, "---\nstream: ");
    push_str(&mut s, stream_name);
    push_str(&mut s, "\ndate: \"");
    push_str(&mut s, date);
    push_str(&mut s, "\"\nrecord_count: ");
    push_u64(&mut s, record_count);
    push_str(&mut s, "\nearliest_timestamp: \"");
    push_str(&mut s, e.as_str());
    push_str(&mut s, "\"\nlatest_timestamp: \"");
    push_str(&mut s, l.as_str());
    push_str(&mut s, "\"\ntotal_payload_bytes: ");
    push_u64(&mut s, total_payload_bytes);
    push_str(&mut s, "\n---\n\n# Stream Compaction Summary: ");
    push_str(&mut s, stream_name);
    push_str(&mut s, " (");
    push_str(&mut s, date);
    push_str(&mut s, ")\n\n- **Records processed:** ");
    push_u64(&mut s, record_count);
    push_str(&mut s, "\n- **Time range:** ");
    push_str(&mut s, e.as_str());
    push_str(&mut s, " \u{2014} ");
    push_str(&mut s, l.as_str());
    push_str(&mut s, "\n- **Total payload size:** ");
    push_str(&mut s, size.as_str());
    push_str(&mut s, "\n");
    assert(s@ =~= summary_markdown(stream_name@, date@, record_count, earliest_timestamp_ms, latest_timestamp_ms, total_payload_bytes));
    s
}

/// The commit message of a compaction.
pub open spec fn compaction_commit_message(stream: Seq<char>, date: Seq<char>, count: u64, earliest_ms: i64, latest_ms: i64) -> Seq<char> {
    "[compaction] "@ + stream + ": daily summary "@ + date + "\n\nRecords: "@ + dec(count as nat) + "\nTimeRange: "@
        + time_label(earliest_ms, "unknown"@) + " \u{2014} "@ + time_label(latest_ms, "unknown"@)
}

/// The commit message ends with the time range: the label of the earliest
/// time, a dash, and the label of the latest time (`unknown` for a time
/// chrono cannot write), each label depending on its own time only.
pub proof fn law_commit_message_times(stream: Seq<char>, date: Seq<char>, count: u64, earliest_ms: i64, latest_ms: i64)
    ensures
        exists|p: Seq<char>| compaction_commit_message(stream, date, count, earliest_ms, latest_ms) == p + "TimeRange: "@
            + time_label(earliest_ms, "unknown"@) + " \u{2014} "@ + time_label(latest_ms, "unknown"@),
{
    reveal_strlit("\nTimeRange: ");
    reveal_strlit("TimeRange: ");
    reveal_strlit("\n");
    assert("\nTimeRange: "@ =~= "\n"@ + "TimeRange: "@);
    let p = "[compaction] "@ + stream + ": daily summary "@ + date + "\n\nRecords: "@ + dec(count as nat) + "\n"@;
    assert(compaction_commit_message(stream, date, count, earliest_ms, latest_ms) =~= p + "TimeRange: "@ + time_label(
        earliest_ms,
        "unknown"@,
    ) + " \u{2014} "@ + time_label(latest_ms, "unknown"@));
}

/// The commit message of a compaction: stream, date, record count and time range.
pub fn commit_message(stream_name: &str, date: &str, record_count: u64, earliest_timestamp_ms: i64, latest_timestamp_ms: i64) -> (s: String)
    ensures
        s@ == compaction_commit_message(stream_name@, date@, record_count, earliest_timestamp_ms, latest_timestamp_ms),
{
    let e = time_label_of(earliest_timestamp_ms, "unknown");
    let l = time_label_of(latest_timestamp_ms, "unknown");
    let mut s = String::new();
    push_str(&mut s, "[compaction] ");
    push_str(&mut s, stream_name);
    push_str(&mut s, ": daily summary ");
    push_str(&mut s, date);
    push_str(&mut s, "\n\nRecords: ");
    push_u64(&mut s, record_count);
    push_str(&mut s, "\nTimeRange: ");
    push_str(&mut s, e.as_str());
    push_str(&mut s, " \u{2014} ");
    push_str(&mut s, l.as_str());
    assert(s@ =~= compaction_commit_message(stream_name@, date@, record_count, earliest_timestamp_ms, latest_timestamp_ms));
    s
}

/// The path of a stream's summary for a date, relative to the workspace:
/// `.wh/compaction/<stream>/<date>.md`.
pub fn summary_relative_path(stream_name: &str, date: &str) -> (s: String)
    ensures
        s@ == ".wh/compaction/"@ + stream_name@ + "/"@ + date@ + ".md"@,
{
    let mut s = String::new();
    push_str(&mut s, ".wh/compaction/");
    push_str(&mut s, stream_name);
    push_str(&mut s, "/");
    push_str(&mut s, date);
    push_str(&mut s, ".md");
    assert(s@ =~= ".wh/compaction/"@ + stream_name@ + "/"@ + date@ + ".md"@);
    s
}

/// The time before which the WAL is truncated after a compaction committed:
/// just after the latest record, and nothing when no record was compacted.
pub fn truncate_before(record_count: u64, latest_timestamp_ms: i64) -> (r: Option<i64>)
    requires
        record_count > 0 ==> latest_timestamp_ms < i64::MAX,
    ensures
        r == if record_count > 0 {
            Some((latest_timestamp_ms + 1) as i64)
        } else {
            None::<i64>
        },
{
    if record_count > 0 {
        Some(latest_timestamp_ms + 1)
    } else {
        None
    }
}

/// The steps of a compaction once its summary is generated, in the order
/// they run.
#[derive(Debug, Clone, Copy, PartialEq, Eq, Structural)]
pub enum CompactionStep {
    /// Write the summary to the temporary file and check it is not empty.
    WriteSummary,
    /// Rename the temporary file to the summary path.
    Rename,
    /// `git add` the summary.
    GitAdd,
    /// `git commit` it.
    GitCommit,
    /// Read the hash of the commit.
    ReadHead,
    /// Delete the WAL records created before this time.
    DeleteBefore(i64),
    /// The compaction is done.
    Done,
    /// The compaction failed at the step that ran last.
    Failed,
}

/// The step after `step` ran and succeeded (`ok`) or failed. Any failure up
/// to reading the commit hash fails the compaction; the WAL is truncated
/// only once the commit is read back, and only when records were
/// compacted; a failed truncation still leaves the compaction done, its
/// summary being committed.
pub open spec fn next_step_spec(step: CompactionStep, ok: bool, record_count: u64, latest_timestamp_ms: i64) -> CompactionStep {
    match step {
        CompactionStep::WriteSummary => if ok { CompactionStep::Rename } else { CompactionStep::Failed },
        CompactionStep::Rename => if ok { CompactionStep::GitAdd } else { CompactionStep::Failed },
        CompactionStep::GitAdd => if ok { CompactionStep::GitCommit } else { CompactionStep::Failed },
        CompactionStep::GitCommit => if ok { CompactionStep::ReadHead } else { CompactionStep::Failed },
        CompactionStep::ReadHead => if !ok {
            CompactionStep::Failed
        } else if record_count > 0 {
            CompactionStep::DeleteBefore((latest_timestamp_ms + 1) as i64)
        } else {
            CompactionStep::Done
        },
        CompactionStep::DeleteBefore(_) => CompactionStep::Done,
        CompactionStep::Done => CompactionStep::Done,
        CompactionStep::Failed => CompactionStep::Failed,
    }
}

/// The step to run after `step`, given whether it succeeded.
pub fn next_compaction_step(step: CompactionStep, ok: bool, record_count: u64, latest_timestamp_ms: i64) -> (r: CompactionStep)
    requires
        record_count > 0 ==> latest_timestamp_ms < i64::MAX,
    ensures
        r == next_step_spec(step, ok, record_count, latest_timestamp_ms),
{
    match step {
        CompactionStep::WriteSummary => if ok { CompactionStep::Rename } else { CompactionStep::Failed },
        CompactionStep::Rename => if ok { CompactionStep::GitAdd } else { CompactionStep::Failed },
        CompactionStep::GitAdd => if ok { CompactionStep::GitCommit } else { CompactionStep::Failed },
        CompactionStep::GitCommit => if ok { CompactionStep::ReadHead } else { CompactionStep::Failed },
        CompactionStep::ReadHead => if !ok {
            CompactionStep::Failed
        } else {
            match truncate_before(record_count, latest_timestamp_ms) {
                Some(before) => CompactionStep::DeleteBefore(before),
                None => CompactionStep::Done,
            }
        },
        CompactionStep::DeleteBefore(_) => CompactionStep::Done,
        CompactionStep::Done => CompactionStep::Done,
        CompactionStep::Failed => CompactionStep::Failed,
    }
}

/// The step reached after the first `n` outcomes, starting from writing
/// the summary.
pub open spec fn step_after(outcomes: Seq<bool>, n: nat, record_count: u64, latest_timestamp_ms: i64) -> CompactionStep
    decreases n,
{
    if n == 0 || n > outcomes.len() {
        CompactionStep::WriteSummary
    } else {
        next_step_spec(step_after(outcomes, (n - 1) as nat, record_count, latest_timestamp_ms), outcomes[n - 1], record_count, latest_timestamp_ms)
    }
}

/// Whether the first `k` outcomes are all successes.
pub open spec fn all_ok(outcomes: Seq<bool>, k: int) -> bool {
    forall|i: int| 0 <= i < k ==> #[trigger] outcomes[i]
}

/// The step reached after `n` successes.
pub open spec fn step_when_ok(n: nat, record_count: u64, latest_timestamp_ms: i64) -> CompactionStep {
    if n == 0 {
        CompactionStep::WriteSummary
    } else if n == 1 {
        CompactionStep::Rename
    } else if n == 2 {
        CompactionStep::GitAdd
    } else if n == 3 {
        CompactionStep::GitCommit
    } else if n == 4 {
        CompactionStep::ReadHead
    } else if n == 5 && record_count > 0 {
        CompactionStep::DeleteBefore((latest_timestamp_ms + 1) as i64)
    } else {
        CompactionStep::Done
    }
}

proof fn lemma_step_after(outcomes: Seq<bool>, n: nat, record_count: u64, latest_timestamp_ms: i64)
    requires
        n <= outcomes.len(),
    ensures
        step_after(outcomes, n, record_count, latest_timestamp_ms) == if all_ok(outcomes, if n < 5 { n as int } else { 5 }) {
            step_when_ok(n, record_count, latest_timestamp_ms)
        } else {
            CompactionStep::Failed
        },
    decreases n,
{
    if n > 0 {
        let m = (n - 1) as nat;
        lemma_step_after(outcomes, m, record_count, latest_timestamp_ms);
        if n <= 5 {
            assert(all_ok(outcomes, n as int) <==> all_ok(outcomes, m as int) && outcomes[m as int]);
        } else {
            assert(all_ok(outcomes, 5) == all_ok(outcomes, 5));
        }
    }
}

/// The WAL is truncated only after the compaction committed: whatever the
/// outcomes of the steps, the compaction reaches the truncation exactly when
/// writing the summary, renaming it, `git add`, `git commit` and reading the
/// commit hash all succeeded and records were compacted; it then deletes
/// the records created before one millisecond after the latest one.
pub proof fn law_truncation_only_after_commit(outcomes: Seq<bool>, n: nat, record_count: u64, latest_timestamp_ms: i64)
    requires
        n <= outcomes.len(),
        record_count > 0 ==> latest_timestamp_ms < i64::MAX,
    ensures
        step_after(outcomes, n, record_count, latest_timestamp_ms) is DeleteBefore <==> n == 5 && record_count > 0 && all_ok(
            outcomes,
            5,
        ),
        step_after(outcomes, n, record_count, latest_timestamp_ms) matches CompactionStep::DeleteBefore(b) ==> b == latest_timestamp_ms + 1,
        step_after(outcomes, n, record_count, latest_timestamp_ms) is DeleteBefore ==> outcomes[3],
{
    lemma_step_after(outcomes, n, record_count, latest_timestamp_ms);
}

/// The temporary summary file of a compaction and the path it is renamed
/// to once valid. Until committed, the temporary file is to be removed
/// when the compaction is abandoned.
pub struct CompactionTempFile {
    temp_path: String,
    final_path: String,
    committed: bool,
}

impl CompactionTempFile {
    /// A guard for `temp_path`, to become `final_path`, not yet committed.
    pub fn new(temp_path: String, final_path: String) -> (t: Self)
        ensures
            t.temp_view()@ == temp_path@,
            t.final_view()@ == final_path@,
            !t.is_committed(),
    {
        CompactionTempFile { temp_path, final_path, committed: false }
    }

    /// The guard for a day's summary in `dir`: `<date>.tmp.md`, to become
    /// `<date>.md`.
    pub fn for_date(dir: &str, date: &str) -> (t: Self)
        ensures
            t.temp_view()@ == path_join(dir@, date@ + ".tmp.md"@),
            t.final_view()@ == path_join(dir@, date@ + ".md"@),
            !t.is_committed(),
    {
        let mut tmp = String::from_str(date);
        push_str(&mut tmp, ".tmp.md");
        let mut fin = String::from_str(date);
        push_str(&mut fin, ".md");
        CompactionTempFile::new(join_path(dir, tmp.as_str()), join_path(dir, fin.as_str()))
    }

    /// The temporary path.
    pub closed spec fn temp_view(&self) -> String {
        self.temp_path
    }

    /// The final path.
    pub closed spec fn final_view(&self) -> String {
        self.final_path
    }

    /// Whether the rename was done.
    pub closed spec fn is_committed(&self) -> bool {
        self.committed
    }

    /// Get the temp file path.
    pub fn temp_path(&self) -> (p: &str)
        ensures
            p@ == self.temp_view()@,
    {
        self.temp_path.as_str()
    }

    /// Get the final file path.
    pub fn final_path(&self) -> (p: &str)
        ensures
            p@ == self.final_view()@,
    {
        self.final_path.as_str()
    }

    /// Record that the temporary file was renamed to the final path; the
    /// temporary file is then no longer to be removed.
    pub fn mark_committed(&mut self)
        ensures
            final(self).is_committed(),
            final(self).temp_view() == old(self).temp_view(),
            final(self).final_view() == old(self).final_view(),
    {
        self.committed = true;
    }

    /// Whether the temporary file is still to be removed when the guard goes.
    pub fn needs_cleanup(&self) -> (b: bool)
        ensures
            b == !self.is_committed(),
    {
        !self.committed
    }
}

} // verus!
