use wh_broker::monitor::error::MonitorError;
use wh_broker::monitor::silence::{
    check_interval_ms, format_human_duration, initial_silence_state, silence_tick, SilenceAlert,
};
use wh_broker::monitor::{parse_duration_str, AgentMonitorConfig};

#[test]
fn test_parse_duration_15m() {
    assert_eq!(parse_duration_str("15m").unwrap(), 900);
}

#[test]
fn test_parse_duration_1h() {
    assert_eq!(parse_duration_str("1h").unwrap(), 3600);
}

#[test]
fn test_parse_duration_30s() {
    assert_eq!(parse_duration_str("30s").unwrap(), 30);
}

#[test]
fn test_parse_duration_zero() {
    assert_eq!(parse_duration_str("0").unwrap(), 0);
}

#[test]
fn test_parse_duration_zero_disables() {
    let config = AgentMonitorConfig {
        agent_name: "test".to_string(),
        stream_name: "test".to_string(),
        timeout_ms: parse_duration_str("0").unwrap() * 1000,
    };
    assert!(!config.is_enabled());
}

#[test]
fn test_parse_duration_invalid_returns_error() {
    assert!(parse_duration_str("abc").is_err());
}

#[test]
fn test_parse_duration_unknown_suffix() {
    assert!(parse_duration_str("10d").is_err());
}

#[test]
fn test_parse_duration_empty_returns_error() {
    assert!(parse_duration_str("").is_err());
}

#[test]
fn test_is_enabled_with_timeout() {
    let config = AgentMonitorConfig { agent_name: "test".to_string(), stream_name: "test".to_string(), timeout_ms: 60_000 };
    assert!(config.is_enabled());
}

#[test]
fn test_is_enabled_with_zero_timeout() {
    let config = AgentMonitorConfig { agent_name: "test".to_string(), stream_name: "test".to_string(), timeout_ms: 0 };
    assert!(!config.is_enabled());
}

#[test]
fn parse_duration_error_holds_trimmed_input() {
    assert_eq!(parse_duration_str("  10d ").unwrap_err(), MonitorError::InvalidTimeout { input: "10d".to_string() });
    assert_eq!(parse_duration_str(" 2m ").unwrap(), 120);
}

#[test]
fn test_invalid_timeout_display() {
    let err = MonitorError::InvalidTimeout { input: "abc".to_string() };
    assert!(err.message().contains("abc"));
    assert_eq!(err.code(), "INVALID_TIMEOUT");
}

#[test]
fn test_channel_closed_display() {
    let err = MonitorError::ChannelClosed { agent_name: "researcher-2".to_string() };
    assert!(err.message().contains("researcher-2"));
    assert_eq!(err.code(), "CHANNEL_CLOSED");
}

#[test]
fn test_alert_failed_display() {
    let err = MonitorError::AlertFailed { agent_name: "assistant-1".to_string(), source: "test".to_string() };
    assert!(err.message().contains("assistant-1"));
    assert_eq!(err.code(), "ALERT_FAILED");
}

#[test]
fn test_all_codes_are_screaming_snake_case() {
    let codes = [
        MonitorError::InvalidTimeout { input: "x".to_string() }.code(),
        MonitorError::ChannelClosed { agent_name: "a".to_string() }.code(),
        MonitorError::AlertFailed { agent_name: "a".to_string(), source: "t".to_string() }.code(),
    ];
    for code in &codes {
        assert!(code.chars().all(|c| c.is_ascii_uppercase() || c == '_'), "code '{code}' is not SCREAMING_SNAKE_CASE");
    }
}

#[test]
fn test_format_human_duration_seconds() {
    assert_eq!(format_human_duration(30), "30 seconds");
}

#[test]
fn test_format_human_duration_single_second() {
    assert_eq!(format_human_duration(1), "1 second");
}

#[test]
fn test_format_human_duration_minutes() {
    assert_eq!(format_human_duration(900), "15 minutes");
}

#[test]
fn test_format_human_duration_single_hour() {
    assert_eq!(format_human_duration(3600), "1 hour");
}

#[test]
fn test_format_human_duration_rounded_minutes() {
    assert_eq!(format_human_duration(90), "2 minutes");
}

#[test]
fn test_format_human_duration_zero() {
    assert_eq!(format_human_duration(0), "0 seconds");
}

#[test]
fn format_human_duration_hours_and_rounding() {
    assert_eq!(format_human_duration(5400), "2 hours");
    assert_eq!(format_human_duration(7199), "2 hours");
    assert_eq!(format_human_duration(89), "1 minute");
}

#[test]
fn test_alert_format_notification_15m() {
    let alert = SilenceAlert {
        agent_name: "researcher-2".to_string(),
        stream_name: "research-output".to_string(),
        silent_duration_ms: 900_000,
        message: String::new(),
    };
    assert_eq!(alert.format_notification(), "researcher-2: no stream output in 15 minutes \u{2014} possible loop or hang");
}

#[test]
fn test_alert_format_notification_1h() {
    let alert = SilenceAlert {
        agent_name: "assistant-1".to_string(),
        stream_name: "assistant-output".to_string(),
        silent_duration_ms: 3_600_000,
        message: String::new(),
    };
    let notification = alert.format_notification();
    assert!(notification.contains("assistant-1"));
    assert!(notification.contains("1 hour"));
    assert!(notification.contains("possible loop or hang"));
}

#[test]
fn silence_tick_alerts_once_until_activity() {
    let config = AgentMonitorConfig { agent_name: "a".to_string(), stream_name: "s".to_string(), timeout_ms: 1000 };
    let st = initial_silence_state();
    let (st, alert) = silence_tick(&config, st, 0, 500);
    assert!(alert.is_none());
    let (st, alert) = silence_tick(&config, st, 0, 1500);
    let alert = alert.expect("silence past the timeout alerts");
    assert_eq!(alert.silent_duration_ms, 1500);
    assert_eq!(alert.message, "a: no stream output in 1 second \u{2014} possible loop or hang");
    let (st, again) = silence_tick(&config, st, 0, 90_000);
    assert!(again.is_none(), "no repeated alert without new activity");
    let (st, fresh) = silence_tick(&config, st, 2000, 2500);
    assert!(fresh.is_none());
    assert!(!st.alerted, "activity clears the alert");
    assert_eq!(check_interval_ms(1000), 500);
    assert_eq!(check_interval_ms(10), 10);
}
