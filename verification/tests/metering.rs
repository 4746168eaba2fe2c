use herald::env::EnvVars;
use herald::json::{JsonNumber, JsonValue};
use herald::metering::{
    idempotency_key, plan_limits_from_snapshot, quota_check_body, CircuitBreaker, CircuitState,
    IngestEvent, MeteringClient, MeteringConfig, QuotaCheckResponse, QuotaReply, QuotaResult,
    QuotaSnapshotEntry, QuotaStep, SnapshotReply,
};

fn test_config() -> MeteringConfig {
    MeteringConfig {
        enabled: true,
        api_key: "test-key".to_string(),
        base_url: "http://localhost:9999".to_string(),
        flush_interval_secs: 10,
        batch_size: 100,
    }
}

#[test]
fn circuit_breaker_opens_after_threshold() {
    let mut cb = CircuitBreaker::new(3, 30_000);
    assert!(cb.allow_request());

    cb.record_failure();
    cb.record_failure();
    assert!(cb.allow_request());

    cb.record_failure();
    assert!(cb.is_open());
    assert!(!cb.allow_request());
}

#[test]
fn circuit_breaker_resets_on_success() {
    let mut cb = CircuitBreaker::new(2, 0);
    cb.record_failure_at(1_000);
    cb.record_failure_at(1_000);
    assert!(cb.is_open());

    assert!(cb.allow_request_at(1_010));

    cb.record_success();
    assert!(!cb.is_open());
    assert!(cb.allow_request_at(1_011));
}

#[test]
fn breaker_refuses_during_cooldown_and_probes_after() {
    let mut cb = CircuitBreaker::new(1, 30_000);
    cb.record_failure_at(100);
    assert!(!cb.allow_request_at(29_000));
    assert!(cb.allow_request_at(30_100));
    // the probe is in flight: nothing else goes
    assert!(!cb.allow_request_at(30_101));
    cb.record_failure_at(30_200);
    assert!(cb.is_open());
    assert_eq!(cb.failure_count(), 2);
}

#[test]
fn track_buffers_events() {
    let mut client: MeteringClient<f64> = MeteringClient::new(test_config());
    assert_eq!(client.pending_count(), 0);
    assert!(client.track("events_published", "tenant-1", 1.0, None));
    assert!(client.track("webhooks_sent", "tenant-1", 1.0, None));
    assert_eq!(client.pending_count(), 2);
}

#[test]
fn flush_empty_buffer_is_noop() {
    let mut client: MeteringClient<u32> = MeteringClient::new(test_config());
    assert!(client.begin_flush_at(0).is_none());
}

#[test]
fn flush_skips_when_circuit_open() {
    let mut client: MeteringClient<u32> = MeteringClient::new(test_config());
    assert!(client.track_at("events_published", "tenant-1", 7, None, 0));
    for t in 0..5u64 {
        let batch = client.begin_flush_at(t).unwrap();
        client.finish_flush_at(batch, false, t);
    }
    assert!(client.is_open());
    assert!(client.begin_flush_at(10).is_none());
    assert_eq!(client.pending_count(), 1);
}

#[test]
fn flush_takes_batches_and_requeues_failures() {
    let mut cfg = test_config();
    cfg.batch_size = 2;
    let mut client: MeteringClient<u32> = MeteringClient::new(cfg);
    for i in 1..=5u32 {
        assert!(client.track_at("events_published", "tenant-1", i, None, 0));
    }
    let batch = client.begin_flush_at(0).unwrap();
    assert_eq!(batch.iter().map(|e| e.value).collect::<Vec<u32>>(), vec![1, 2]);
    assert_eq!(client.pending_count(), 3);
    client.finish_flush_at(batch, false, 0);
    assert_eq!(client.pending_count(), 5);
    let batch = client.begin_flush_at(1).unwrap();
    assert_eq!(batch.iter().map(|e| e.value).collect::<Vec<u32>>(), vec![1, 2]);
    client.finish_flush_at(batch, true, 1);
    assert_eq!(client.pending_count(), 3);
}

#[test]
fn check_quota_fails_open_when_circuit_open() {
    let mut client: MeteringClient<u32> = MeteringClient::new(test_config());
    for t in 0..5u64 {
        let step = client.begin_quota_check_at("events", "tenant-1", 1, t);
        assert!(matches!(step, QuotaStep::Call { .. }));
        let r = client.finish_quota_check_at(QuotaReply::Unreachable, t);
        assert!(r.allowed);
    }
    assert!(client.is_open());
    let result = match client.begin_quota_check_at("events", "tenant-1", 1, 10) {
        QuotaStep::Answer(r) => r,
        QuotaStep::Call { .. } => panic!("the open breaker makes no call"),
    };
    assert!(result.allowed);
    assert!(!result.soft_overage);
}

#[test]
fn quota_soft_cap_overage_is_allowed_with_warning() {
    let qr = QuotaCheckResponse {
        allowed: false,
        current_usage: Some(120),
        limit: Some(100),
        remaining: Some(0),
        enforcement: Some("soft_cap".to_string()),
    };
    let r = QuotaResult::from_response(&qr);
    assert!(r.allowed);
    assert!(r.soft_overage);
    assert_eq!(r.overage_warning(), "usage 120 of 100 (soft cap)");

    let hard = QuotaCheckResponse {
        allowed: false,
        current_usage: Some(120),
        limit: Some(100),
        remaining: Some(0),
        enforcement: Some("hard_cap".to_string()),
    };
    let r = QuotaResult::from_response(&hard);
    assert!(!r.allowed);
    assert!(!r.soft_overage);
}

#[test]
fn quota_reply_outcomes() {
    let mut client: MeteringClient<u32> = MeteringClient::new(test_config());
    let r = client.finish_quota_check_at(
        QuotaReply::Parsed(QuotaCheckResponse {
            allowed: false,
            current_usage: Some(5),
            limit: Some(5),
            remaining: Some(0),
            enforcement: None,
        }),
        0,
    );
    assert!(!r.allowed);
    assert_eq!(r.limit, Some(5));
    let r = client.finish_quota_check_at(QuotaReply::Unparsable, 0);
    assert!(r.allowed && r.current_usage.is_none());
    let r = client.finish_quota_check_at(QuotaReply::Refused, 0);
    assert!(r.allowed);
}

fn entry(slug: &str, limit: Option<u64>) -> QuotaSnapshotEntry {
    QuotaSnapshotEntry { meter_slug: slug.to_string(), limit }
}

#[test]
fn plan_limits_from_complete_snapshot() {
    let entries = vec![
        entry("max_connections", Some(1_000)),
        entry("max_streams", Some(50)),
        entry("api_rate_limit", Some(600)),
        entry("events_published", Some(1_000_000)),
        entry("retention_days", Some(30)),
        entry("something_else", Some(1)),
    ];
    let limits = plan_limits_from_snapshot(&entries).unwrap();
    assert_eq!(limits.max_connections, 1_000);
    assert_eq!(limits.max_streams, 50);
    assert_eq!(limits.api_rate_limit, 600);
    assert_eq!(limits.events_per_month, 1_000_000);
    assert_eq!(limits.retention_days, 30);
}

#[test]
fn plan_limits_missing_meter_is_none() {
    let entries = vec![
        entry("max_connections", Some(1_000)),
        entry("max_streams", Some(50)),
        entry("api_rate_limit", None),
        entry("events_per_month", Some(10)),
        entry("retention_days", Some(30)),
    ];
    assert!(plan_limits_from_snapshot(&entries).is_none());
}

#[test]
fn plan_limits_truncate_to_32_bits_and_last_wins() {
    let entries = vec![
        entry("max_connections", Some(7)),
        entry("max_connections", Some((1u64 << 32) + 3)),
        entry("max_streams", Some(1)),
        entry("api_rate_limit", Some(2)),
        entry("events_per_month", Some(u64::MAX)),
        entry("retention_days", Some(4)),
    ];
    let limits = plan_limits_from_snapshot(&entries).unwrap();
    assert_eq!(limits.max_connections, 3);
    assert_eq!(limits.events_per_month, u64::MAX);
}

#[test]
fn snapshot_failure_counts_against_breaker() {
    let mut client: MeteringClient<u32> = MeteringClient::new(test_config());
    assert!(client.begin_plan_limits_at(0));
    assert!(client.finish_plan_limits_at(SnapshotReply::Unreachable, 0).is_none());
    assert!(client.can_count_failure());
    assert!(client.finish_plan_limits_at(SnapshotReply::Parsed(vec![]), 0).is_none());
}

#[test]
fn config_from_env_defaults() {
    let env = EnvVars { vars: vec![] };
    let config = MeteringConfig::from_env(&env);
    assert!(!config.enabled);
    assert_eq!(config.base_url, "https://api.meterd.io");
    assert_eq!(config.flush_interval_secs, 10);
    assert_eq!(config.batch_size, 100);
}

#[test]
fn config_from_env_values() {
    let env = EnvVars {
        vars: vec![
            ("HERALD_METERING_ENABLED".to_string(), "1".to_string()),
            ("HERALD_METERING_API_KEY".to_string(), "k".to_string()),
            ("HERALD_METERING_BATCH_SIZE".to_string(), "oops".to_string()),
            ("HERALD_METERING_FLUSH_INTERVAL".to_string(), "3".to_string()),
        ],
    };
    let config = MeteringConfig::from_env(&env);
    assert!(config.enabled);
    assert_eq!(config.api_key, "k");
    assert_eq!(config.batch_size, 100);
    assert_eq!(config.flush_interval_secs, 3);
}

#[test]
fn client_urls_and_header() {
    let client: MeteringClient<u32> = MeteringClient::new(test_config());
    assert_eq!(client.batch_url(), "http://localhost:9999/v1/events/batch");
    assert_eq!(client.quota_check_url(), "http://localhost:9999/v1/quota/check");
    assert_eq!(
        client.snapshot_url("t1"),
        "http://localhost:9999/v1/quota/snapshot?customer=t1"
    );
    assert_eq!(client.authorization(), "Bearer test-key");
    assert_eq!(idempotency_key(1700, "abc"), "herald_1700_abc");
}

#[test]
fn breaker_state_names() {
    let mut cb = CircuitBreaker::new(1, 5);
    cb.record_failure_at(0);
    assert!(cb.is_open());
    assert!(cb.allow_request_at(5));
    assert!(!cb.is_open());
    let _ = CircuitState::HalfOpen;
}

#[test]
fn track_with_properties() {
    let mut client: MeteringClient<f64> = MeteringClient::new(test_config());
    let props = JsonValue::Object(vec![(
        "stream".to_string(),
        JsonValue::Text("chat-general".to_string()),
    )]);
    assert!(client.track("events_published", "tenant-1", 1.0, Some(props)));
    assert_eq!(client.pending_count(), 1);

    let buf = client.begin_flush_at(0).expect("a batch to send");
    assert!(buf[0].properties.is_some());
    assert!(buf[0].idempotency_key.starts_with("herald_"));
}

#[test]
fn usage_event_fields() {
    let e = IngestEvent::new_at("events_published", "tenant-1", 2.5, None, 1_700_000_123_456)
        .expect("the random source works");
    let k = IngestEvent::with_key("events_published", "tenant-1", 2.5, None, 1_700_000_123_456, "r");
    assert_eq!(k.idempotency_key, "herald_1700000123456_r");
    assert_eq!(k.timestamp, 1_700_000_123);
    assert_eq!(e.event_type, "events_published");
    assert_eq!(e.customer_id, "tenant-1");
    assert_eq!(e.value, 2.5);
    assert_eq!(e.timestamp, 1_700_000_123);
    assert!(e.properties.is_none());
    assert!(e.idempotency_key.starts_with("herald_1700000123456_"));
    assert_eq!(e.idempotency_key.len(), "herald_1700000123456_".len() + 36);
}

#[test]
fn quota_check_request() {
    let body = quota_check_body("events", "tenant-1", 3);
    match body {
        JsonValue::Object(members) => {
            assert_eq!(members.len(), 3);
            assert_eq!(members[0].0, "customer_external_id");
            assert!(matches!(&members[0].1, JsonValue::Text(t) if t == "tenant-1"));
            assert_eq!(members[1].0, "meter_slug");
            assert!(matches!(&members[1].1, JsonValue::Text(t) if t == "events"));
            assert_eq!(members[2].0, "requested");
            assert!(matches!(&members[2].1, JsonValue::Number(JsonNumber::PosInt(3))));
        }
        _ => panic!("an object"),
    }
    let mut client: MeteringClient<u32> = MeteringClient::new(test_config());
    match client.begin_quota_check_at("events", "tenant-1", 3, 0) {
        QuotaStep::Call { url, authorization, body } => {
            assert!(url.ends_with("/v1/quota/check"));
            assert_eq!(authorization, "Bearer test-key");
            assert!(matches!(body, JsonValue::Object(m) if m.len() == 3));
        }
        QuotaStep::Answer(_) => panic!("a closed breaker makes the call"),
    }
}
