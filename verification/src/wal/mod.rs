//! The write-ahead log of a stream: the receipt that proves a write, its
//! errors, the checksum stored with every record, and the retention rule
//! that evicts the oldest records when the log outgrows its limit.
//!
//! The SQLite storage itself is driven by the caller.

pub mod compaction;

use vstd::prelude::*;
use crate::text::{dec, push_str, push_u64};

verus! {

/// A receipt proving a WAL write completed: the write must happen before
/// the message is forwarded.
#[derive(Debug)]
pub struct WalReceipt {
    /// The record id assigned by the store.
    pub record_id: i64,
    /// The stream the record belongs to.
    pub stream_name: String,
}

impl WalReceipt {
    /// Consume the receipt, acknowledging the WAL write.
    pub fn acknowledge(self) {
    }
}

/// Errors of WAL operations.
#[derive(Debug, Clone, PartialEq, Eq)]
pub enum WalError {
    Database(String),
    Io(String),
    CrcMismatch { expected: u32, actual: u32 },
    CapacityExceeded { stream_name: String, current_bytes: u64, max_bytes: u64 },
}

pub open spec fn wal_error_message(e: WalError) -> Seq<char> {
    match e {
        WalError::Database(m) => "WAL database error: "@ + m@,
        WalError::Io(m) => "WAL I/O error: "@ + m@,
        WalError::CrcMismatch { expected, actual } => "CRC32 mismatch: expected "@ + dec(expected as nat) + ", got "@
            + dec(actual as nat),
        WalError::CapacityExceeded { stream_name, current_bytes, max_bytes } => "WAL capacity exceeded for stream '"@
            + stream_name@ + "': "@ + dec(current_bytes as nat) + " >= "@ + dec(max_bytes as nat),
    }
}

impl WalError {
    /// The display text of the error.
    pub fn message(&self) -> (m: String)
        ensures
            m@ == wal_error_message(*self),
    {
        let mut out = String::new();
        match self {
            WalError::Database(m) => {
                push_str(&mut out, "WAL database error: ");
                push_str(&mut out, m.as_str());
            },
            WalError::Io(m) => {
                push_str(&mut out, "WAL I/O error: ");
                push_str(&mut out, m.as_str());
            },
            WalError::CrcMismatch { expected, actual } => {
                push_str(&mut out, "CRC32 mismatch: expected ");
                push_u64(&mut out, *expected as u64);
                push_str(&mut out, ", got ");
                push_u64(&mut out, *actual as u64);
            },
            WalError::CapacityExceeded { stream_name, current_bytes, max_bytes } => {
                push_str(&mut out, "WAL capacity exceeded for stream '");
                push_str(&mut out, stream_name.as_str());
                push_str(&mut out, "': ");
                push_u64(&mut out, *current_bytes);
                push_str(&mut out, " >= ");
                push_u64(&mut out, *max_bytes);
            },
        }
        assert(out@ =~= wal_error_message(*self));
        out
    }
}

/// One bit step of the reflected CRC-32 register (polynomial 0xEDB88320).
pub open spec fn crc32_bit(c: u32) -> u32 {
    if c & 1 == 1 {
        (c >> 1u32) ^ 0xEDB8_8320u32
    } else {
        c >> 1u32
    }
}

/// The register after taking in one byte: eight bit steps.
pub open spec fn crc32_byte(c: u32, b: u8) -> u32 {
    let x = c ^ (b as u32);
    crc32_bit(crc32_bit(crc32_bit(crc32_bit(crc32_bit(crc32_bit(crc32_bit(crc32_bit(x))))))))
}

/// The register after taking in `bytes`, starting from all ones.
pub open spec fn crc32_register(bytes: Seq<u8>) -> u32
    decreases bytes.len(),
{
    if bytes.len() == 0 {
        0xFFFF_FFFFu32
    } else {
        crc32_byte(crc32_register(bytes.drop_last()), bytes.last())
    }
}

/// The CRC-32 (IEEE 802.3) checksum of some bytes: the final register with
/// every bit inverted.
pub open spec fn crc32(bytes: Seq<u8>) -> u32 {
    crc32_register(bytes) ^ 0xFFFF_FFFFu32
}

/// `crc32fast::hash`: the CRC-32 (IEEE) checksum of the bytes.
#[verifier::external_body]
fn crc32_hash(bytes: &[u8]) -> (r: u32)
    ensures
        r == crc32(bytes@),
{
    crc32fast::hash(bytes)
}

/// The checksum column stored with a record: the payload's CRC-32 as a
/// signed 64-bit integer.
pub fn record_checksum(payload: &[u8]) -> (r: i64)
    ensures
        r == crc32(payload@) as i64,
        0 <= r < 0x1_0000_0000,
{
    crc32_hash(payload) as i64
}

/// How many of the oldest records to delete to bring the log under its
/// byte limit: none while it fits, otherwise a tenth of the records, at
/// least one.
pub open spec fn eviction_count_spec(current_bytes: u64, max_bytes: u64, total_records: u64) -> u64 {
    if current_bytes <= max_bytes {
        0
    } else if total_records / 10 > 1 {
        total_records / 10
    } else {
        1
    }
}

/// How many of the oldest records to delete to bring the log under its
/// byte limit.
pub fn eviction_count(current_bytes: u64, max_bytes: u64, total_records: u64) -> (n: u64)
    ensures
        n == eviction_count_spec(current_bytes, max_bytes, total_records),
{
    if current_bytes <= max_bytes {
        0
    } else if total_records / 10 > 1 {
        total_records / 10
    } else {
        1
    }
}

/// The time before which records expire under a retention of
/// `retention_ms`, at `now_ms`.
pub fn retention_cutoff(now_ms: i64, retention_ms: u64) -> (c: i64)
    requires
        retention_ms <= i64::MAX,
        now_ms - retention_ms >= i64::MIN,
    ensures
        c == now_ms - retention_ms,
{
    now_ms - (retention_ms as i64)
}

/// Where a periodic compaction starts reading: one interval before `now_ms`.
pub fn compaction_since(now_ms: i64, interval_secs: u64) -> (c: i64)
    requires
        interval_secs * 1000 <= i64::MAX,
        now_ms - interval_secs * 1000 >= i64::MIN,
    ensures
        c == now_ms - interval_secs * 1000,
{
    now_ms - (interval_secs as i64) * 1000
}

} // verus!
