use herald::admin_events::{ErrorCategory, EventBus, EventKind};
use herald::json::JsonValue;
use herald::latency::Histogram;

#[test]
fn histogram_exposition() {
    let mut h = Histogram::new("herald_req", "Request latency");
    h.observe_us(90);
    h.observe_us(300);
    h.observe_us(2_000_000);
    assert_eq!(h.count(), 3);
    assert_eq!(h.sum_us(), 2_000_390);
    // 90 µs falls in every bucket; 300 µs in all from 500 µs up; 2 s in none
    assert_eq!(h.bucket(0), 1);
    assert_eq!(h.bucket(2), 2);
    assert_eq!(h.bucket(11), 2);
    let mut out = String::new();
    h.format_prometheus(&mut out);
    let lines: Vec<&str> = out.lines().collect();
    assert_eq!(lines[0], "# HELP herald_req Request latency");
    assert_eq!(lines[1], "# TYPE herald_req histogram");
    assert_eq!(lines[2], "herald_req_bucket{le=\"0.000100\"} 1");
    assert_eq!(lines[3], "herald_req_bucket{le=\"0.000250\"} 1");
    assert_eq!(lines[4], "herald_req_bucket{le=\"0.000500\"} 2");
    assert_eq!(lines[13], "herald_req_bucket{le=\"0.500000\"} 2");
    assert_eq!(lines[14], "herald_req_bucket{le=\"+Inf\"} 3");
    assert_eq!(lines[15], "herald_req_sum 2.000390");
    assert_eq!(lines[16], "herald_req_count 3");
}

#[test]
fn single_observation_counts_once_per_bucket() {
    let mut h = Histogram::new("h", "help");
    h.observe_us(50);
    let mut out = String::new();
    h.format_prometheus(&mut out);
    let lines: Vec<&str> = out.lines().collect();
    assert_eq!(lines[0], "# HELP h help");
    assert_eq!(lines[1], "# TYPE h histogram");
    assert_eq!(lines[2], "h_bucket{le=\"0.000100\"} 1");
    assert_eq!(lines[3], "h_bucket{le=\"0.000250\"} 1");
    assert_eq!(lines[13], "h_bucket{le=\"0.500000\"} 1");
    assert_eq!(lines[14], "h_bucket{le=\"+Inf\"} 1");
    assert_eq!(lines[15], "h_sum 0.000050");
    assert_eq!(lines[16], "h_count 1");
}

#[test]
fn event_ring_keeps_newest_thousand() {
    let mut bus = EventBus::new();
    for i in 0..1005i64 {
        bus.push_event_at(EventKind::Message, None, JsonValue::Null, i);
    }
    let recent = bus.recent_events(5000, None);
    assert_eq!(recent.len(), 1000);
    assert_eq!(recent[0].id, 1005);
    assert_eq!(recent[999].id, 6);
    let after = bus.recent_events(2, Some(1000));
    assert_eq!(after.iter().map(|e| e.id).collect::<Vec<_>>(), vec![1005, 1004]);
}

#[test]
fn error_filter_by_category() {
    let mut bus = EventBus::new();
    bus.push_error_at(ErrorCategory::Http, "a".to_string(), JsonValue::Null, 1);
    bus.push_error_at(ErrorCategory::Client, "b".to_string(), JsonValue::Null, 2);
    bus.push_error_at(ErrorCategory::Http, "c".to_string(), JsonValue::Null, 3);
    let http = bus.recent_errors(Some(ErrorCategory::Http), 10);
    assert_eq!(http.iter().map(|e| e.message.as_str()).collect::<Vec<_>>(), vec!["c", "a"]);
    assert_eq!(bus.recent_errors(None, 1)[0].message, "c");
    assert_eq!(EventKind::AuthFailure.name(), "auth_failure");
    assert_eq!(ErrorCategory::Webhook.name(), "webhook");
}

#[test]
fn snapshots_track_the_day() {
    let day = 86_400_000i64;
    let mut bus = EventBus::new();
    bus.increment_webhooks();
    bus.record_snapshot_at(5, 100, 1, 0, day * 10);
    bus.record_snapshot_at(3, 150, 1, 0, day * 10 + 1);
    let s = bus.get_snapshots(0, i64::MAX);
    assert_eq!(s.len(), 2);
    assert_eq!(s[1].peak_connections, 5);
    assert_eq!(s[1].messages_delta, 50);
    let today = bus.today_summary(170);
    assert_eq!(today.peak_connections, 5);
    assert_eq!(today.messages_today, 70);
    // next day resets the peak
    bus.record_snapshot_at(2, 200, 1, 0, day * 11);
    assert_eq!(bus.today_summary(200).peak_connections, 2);
    assert_eq!(bus.get_snapshots(day * 11, day * 11).len(), 1);
}
