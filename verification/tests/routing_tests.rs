use wh_broker::metrics::{uptime_secs_of, BrokerMetrics};
use wh_broker::cron::proto_bridge::{epoch_ms_of, now_ms};
use wh_broker::routing::{frame_stream_message, split_stream_frame, StreamCounters};
use wh_broker::skill_router::{
    select_pipeline, SkillResponse, BROKER_SKILL_PUBLISHER_ID, TYPE_URL_SKILL_INVOCATION, TYPE_URL_SKILL_PROGRESS,
    TYPE_URL_SKILL_RESULT,
};
use wh_broker::strmap::StrMap;

#[test]
fn type_url_constants_match_proto_package() {
    assert!(TYPE_URL_SKILL_INVOCATION.starts_with("wheelhouse.v1."));
    assert!(TYPE_URL_SKILL_RESULT.starts_with("wheelhouse.v1."));
    assert!(TYPE_URL_SKILL_PROGRESS.starts_with("wheelhouse.v1."));
    assert_eq!(BROKER_SKILL_PUBLISHER_ID, "broker-skill-executor");
}

#[test]
fn new_router_is_empty() {
    let pipelines: StrMap<u32> = StrMap::new();
    assert!(pipelines.is_empty());
    assert_eq!(
        select_pipeline(&pipelines, "donna"),
        Err("No skill pipeline configured for agent 'donna'".to_string())
    );
}

#[test]
fn select_pipeline_falls_back_to_default() {
    let mut pipelines: StrMap<u32> = StrMap::new();
    pipelines.insert("donna".to_string(), 1);
    assert_eq!(select_pipeline(&pipelines, "donna"), Ok(&1));
    assert!(select_pipeline(&pipelines, "researcher").is_err());
    pipelines.insert("default".to_string(), 9);
    assert_eq!(select_pipeline(&pipelines, "researcher"), Ok(&9));
    let r = SkillResponse { type_url: TYPE_URL_SKILL_RESULT.to_string(), payload: vec![1, 2] };
    assert_eq!(r.payload.len(), 2);
}

#[test]
fn frame_then_split_roundtrips() {
    let wire = frame_stream_message(b"main", b"\x01\x00payload");
    assert_eq!(wire, b"main\x00\x01\x00payload".to_vec());
    assert_eq!(split_stream_frame(&wire), Some((b"main".to_vec(), b"\x01\x00payload".to_vec())));
}

#[test]
fn split_without_separator_is_none() {
    assert_eq!(split_stream_frame(b"no stream prefix"), None);
    assert_eq!(split_stream_frame(b"\x00x"), Some((vec![], b"x".to_vec())));
}

#[test]
fn counters_move_only_after_wal_success() {
    let mut c = StreamCounters { message_count: 0, sequence_counter: 10 };
    assert_eq!(c.after_wal_write(false, true), None);
    assert_eq!(c, StreamCounters { message_count: 0, sequence_counter: 10 });
    assert_eq!(c.after_wal_write(true, true), Some(10));
    assert_eq!(c.after_wal_write(true, false), None);
    assert_eq!(c.after_wal_write(true, true), Some(11));
    assert_eq!(c, StreamCounters { message_count: 3, sequence_counter: 12 });
    let mut top = StreamCounters { message_count: u64::MAX, sequence_counter: u64::MAX };
    assert_eq!(top.after_wal_write(true, true), Some(u64::MAX));
    assert_eq!(top, StreamCounters { message_count: 0, sequence_counter: 0 });
}

#[test]
fn metrics_count_panics_and_uptime() {
    let mut m = BrokerMetrics::new();
    m.record_panic();
    m.record_panic();
    assert_eq!(m.get_panic_count(), 2);
    assert_eq!(uptime_secs_of(61_999), 61);
    assert_eq!(uptime_secs_of(999), 0);
    let fresh = BrokerMetrics::default();
    assert_eq!(fresh.get_panic_count(), 0);
    assert!(fresh.uptime_secs() < 5);
}

#[test]
fn epoch_ms_of_caps_and_defaults() {
    assert_eq!(epoch_ms_of(Some(1_700_000_000_123)), 1_700_000_000_123);
    assert_eq!(epoch_ms_of(Some(u128::MAX)), i64::MAX);
    assert_eq!(epoch_ms_of(Some(0x8000_0000_0000_0000)), i64::MAX);
    assert_eq!(epoch_ms_of(None), 0);
    assert!(now_ms() > 1_600_000_000_000);
}
