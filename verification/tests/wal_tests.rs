use wh_broker::wal::compaction::{next_compaction_step, CompactionStep};
use wh_broker::wal::compaction::{
    commit_message, format_bytes, generate_summary, record_stats, summary_relative_path, truncate_before, CompactionError,
    CompactionTempFile,
};
use wh_broker::wal::{compaction_since, eviction_count, record_checksum, retention_cutoff, WalError};

#[test]
fn compaction_error_codes_are_screaming_snake_case() {
    let errors = [
        CompactionError::MutexBusy("test".to_string()),
        CompactionError::WalRead("test".to_string()),
        CompactionError::SummaryFailed("test".to_string()),
        CompactionError::GitFailed("test".to_string()),
        CompactionError::GitTimeout(30),
        CompactionError::RollbackTriggered("test".to_string()),
    ];
    for err in &errors {
        let code = err.code();
        assert!(code.chars().all(|c| c.is_uppercase() || c == '_'), "error code should be SCREAMING_SNAKE_CASE: {code}");
    }
}

#[test]
fn generate_summary_produces_valid_markdown() {
    let content = generate_summary("main", "2026-03-12", 847, 1710115200000, 1710201599000, 1234567);
    assert!(content.contains("stream: main"));
    assert!(content.contains("record_count: 847"));
    assert!(content.contains("total_payload_bytes: 1234567"));
    assert!(content.contains("# Stream Compaction Summary: main"));
    assert!(content.contains("847"));
    assert!(content.contains("2024-03-11T00:00:00+00:00"));
}

#[test]
fn generate_summary_handles_zero_records() {
    let content = generate_summary("empty", "2026-03-12", 0, 0, 0, 0);
    assert!(content.contains("record_count: 0"));
    assert!(content.contains("N/A"));
}

#[test]
fn format_bytes_formats_correctly() {
    assert_eq!(format_bytes(0), "0 bytes");
    assert_eq!(format_bytes(500), "500 bytes");
    assert_eq!(format_bytes(1024), "1.0 KB");
    assert_eq!(format_bytes(1_048_576), "1.0 MB");
    assert_eq!(format_bytes(1_073_741_824), "1.0 GB");
}

#[test]
fn format_bytes_rounds_half_to_even() {
    assert_eq!(format_bytes(1536), "1.5 KB");
    assert_eq!(format_bytes(1_234_567), "1.2 MB");
    assert_eq!(format_bytes(1023), "1023 bytes");
}

#[test]
fn summary_path_follows_architecture_spec() {
    assert_eq!(format!("/workspace/{}", summary_relative_path("main", "2026-03-12")), "/workspace/.wh/compaction/main/2026-03-12.md");
}

#[test]
fn compaction_temp_file_paths_and_commit() {
    let mut t = CompactionTempFile::for_date("/ws/.wh/compaction/main", "2026-03-12");
    assert_eq!(t.temp_path(), "/ws/.wh/compaction/main/2026-03-12.tmp.md");
    assert_eq!(t.final_path(), "/ws/.wh/compaction/main/2026-03-12.md");
    assert!(t.needs_cleanup());
    t.mark_committed();
    assert!(!t.needs_cleanup());
}

#[test]
fn record_stats_and_truncation() {
    let s = record_stats(&[(30, 5), (10, 7), (20, 1)]);
    assert_eq!(s.record_count, 3);
    assert_eq!(s.earliest_timestamp_ms, 10);
    assert_eq!(s.latest_timestamp_ms, 30);
    assert_eq!(s.total_payload_bytes, 13);
    let empty = record_stats(&[]);
    assert_eq!(empty.record_count, 0);
    assert_eq!(empty.earliest_timestamp_ms, 0);
    assert_eq!(truncate_before(3, 30), Some(31));
    assert_eq!(truncate_before(0, 30), None);
}

#[test]
fn compaction_commit_message_format() {
    assert_eq!(commit_message("main", "2026-03-12", 0, 0, 0), "[compaction] main: daily summary 2026-03-12\n\nRecords: 0\nTimeRange: N/A \u{2014} N/A");
}

#[test]
fn record_checksum_is_crc32() {
    assert_eq!(record_checksum(b"hello"), 907060870);
    assert_eq!(record_checksum(b""), 0);
}

#[test]
fn eviction_and_cutoffs() {
    assert_eq!(eviction_count(100, 200, 50), 0);
    assert_eq!(eviction_count(300, 200, 50), 5);
    assert_eq!(eviction_count(300, 200, 5), 1);
    assert_eq!(retention_cutoff(10_000, 3_000), 7_000);
    assert_eq!(compaction_since(100_000, 60), 40_000);
}

#[test]
fn compaction_error_messages() {
    assert_eq!(CompactionError::GitTimeout(30).code(), "GIT_TIMEOUT");
    assert!(CompactionError::MutexBusy("main".to_string()).message().contains("main"));
    assert_eq!(WalError::Io("x".to_string()).message(), "WAL I/O error: x");
    assert_eq!(WalError::CrcMismatch { expected: 1, actual: 2 }.message(), "CRC32 mismatch: expected 1, got 2");
}

#[test]
fn record_checksum_matches_crc32_check_value() {
    assert_eq!(record_checksum(b"123456789"), 0xCBF4_3926);
    assert_eq!(record_checksum(b""), 0);
}

#[test]
fn compaction_truncates_only_after_the_commit_is_read_back() {
    let mut step = CompactionStep::WriteSummary;
    let mut seen = vec![step];
    for _ in 0..6 {
        step = next_compaction_step(step, true, 3, 30);
        seen.push(step);
    }
    assert_eq!(seen, vec![
        CompactionStep::WriteSummary,
        CompactionStep::Rename,
        CompactionStep::GitAdd,
        CompactionStep::GitCommit,
        CompactionStep::ReadHead,
        CompactionStep::DeleteBefore(31),
        CompactionStep::Done,
    ]);
    assert_eq!(next_compaction_step(CompactionStep::GitCommit, false, 3, 30), CompactionStep::Failed);
    assert_eq!(next_compaction_step(CompactionStep::ReadHead, true, 0, 0), CompactionStep::Done);
    assert_eq!(next_compaction_step(CompactionStep::DeleteBefore(31), false, 3, 30), CompactionStep::Done);
    assert_eq!(next_compaction_step(CompactionStep::Failed, true, 3, 30), CompactionStep::Failed);
}

#[test]
fn commit_message_writes_record_times_in_rfc3339() {
    let msg = commit_message("main", "2023-11-14", 2, 1_700_000_000_000, 1_700_000_000_123);
    assert_eq!(
        msg,
        "[compaction] main: daily summary 2023-11-14\n\nRecords: 2\nTimeRange: 2023-11-14T22:13:20+00:00 \u{2014} 2023-11-14T22:13:20.123+00:00"
    );
}
