use herald::engines::chat::ChatEngine;
use herald::engines::presence::PresenceEngine;
use herald::http::health::{health_report, liveness_report, readiness_report, TenantStatsQuery};
use herald::http::streams::{check_create_stream, stream_limit, CreateStreamRequest};
use herald::integrations::{
    AuditEvent, ChronicleOps, CourierOps, MockChronicleOps, MockCourierOps, MockSentryOps,
    SentryOps,
};

fn create(id: &str, name: &str) -> CreateStreamRequest {
    CreateStreamRequest { id: id.to_string(), name: name.to_string(), meta: None, public: None }
}

#[test]
fn stream_creation_is_checked_in_order() {
    let ok = create("general", "General");
    assert!(check_create_stream(&ok, None, 10, 3, false).is_ok());

    let e = check_create_stream(&create("", "General"), None, 10, 3, false).unwrap_err();
    assert_eq!((e.status, e.message.as_str()), (400, "stream id must not be empty"));

    let e = check_create_stream(&create("general", ""), None, 10, 3, false).unwrap_err();
    assert_eq!((e.status, e.message.as_str()), (400, "stream name must not be empty"));

    let e = check_create_stream(&ok, None, 10, 10, false).unwrap_err();
    assert_eq!((e.status, e.message.as_str()), (403, "stream limit reached (10)"));

    let e = check_create_stream(&ok, None, 10, 3, true).unwrap_err();
    assert_eq!((e.status, e.message.as_str()), (409, "failed to create stream"));
}

#[test]
fn stream_limit_prefers_the_plan() {
    assert_eq!(stream_limit(Some(50), 10_000), 50);
    assert_eq!(stream_limit(None, 10_000), 10_000);
}

#[test]
fn new_streams_are_private_unless_asked() {
    let mut r = create("s", "S");
    assert!(!r.is_public());
    r.public = Some(true);
    assert!(r.is_public());
    r.public = Some(false);
    assert!(!r.is_public());
}

#[test]
fn health_reports_follow_storage() {
    let (code, h) = health_report(true, false, 4, 2, 1, 60);
    assert_eq!((code, h.status.as_str(), h.connections, h.streams), (200, "ok", 4, 2));
    let (code, h) = health_report(false, true, 0, 0, 0, 1);
    assert_eq!((code, h.status.as_str(), h.sentry), (503, "degraded", true));
    assert_eq!(liveness_report().status, "alive");
    let (code, r) = readiness_report(true, false);
    assert_eq!((code, r.status.as_str()), (200, "ready"));
    let (code, r) = readiness_report(false, false);
    assert_eq!((code, r.status.as_str()), (503, "not_ready"));
}

#[test]
fn stats_window_defaults_to_the_last_day() {
    let q = TenantStatsQuery { from: None, to: None };
    assert_eq!(q.window(100_000_000), (13_600_000, 100_000_000));
    let q = TenantStatsQuery { from: Some(5), to: Some(7) };
    assert_eq!(q.window(100_000_000), (5, 7));
}

#[test]
fn engine_timers() {
    let t = ChatEngine::new().timers();
    assert_eq!((t[0].label, t[0].interval_secs), ("chat:typing-ttl", 5));
    let t = PresenceEngine::new().timers();
    assert_eq!((t[0].label, t[0].interval_secs), ("presence:override-expiry", 30));
}

#[test]
fn mocks_through_their_traits() {
    fn permit<S: SentryOps>(s: &S) -> bool {
        s.evaluate("alice", "publish", "stream:general").is_ok()
    }
    assert!(permit(&MockSentryOps));

    let mut courier = MockCourierOps::new();
    assert!(CourierOps::notify(&mut courier, "email", "bob", "hi", "body").is_ok());
    assert_eq!(courier.deliveries(), vec![("bob".to_string(), "hi".to_string(), "body".to_string())]);

    let mut chronicle = MockChronicleOps::new();
    let ev = AuditEvent {
        operation: "stream.create".to_string(),
        resource: "general".to_string(),
        actor: "api".to_string(),
        result: "success".to_string(),
        metadata: vec![],
    };
    assert!(ChronicleOps::ingest(&mut chronicle, ev).is_ok());
    assert_eq!(chronicle.event_count(), 1);
}

use herald::cli::{check_tenant_mode, parse_args};

fn args(v: &[&str]) -> Vec<String> {
    v.iter().map(|s| s.to_string()).collect()
}

#[test]
fn command_line_defaults_to_single_tenant() {
    let a = parse_args(&args(&["herald"]));
    assert!(!a.multi_tenant);
    assert!(a.single_tenant);
    assert_eq!(a.config_path, "herald.toml");
}

#[test]
fn command_line_flags_and_config_path() {
    let a = parse_args(&args(&["herald", "--multi-tenant", "prod.toml"]));
    assert!(a.multi_tenant);
    assert!(!a.single_tenant);
    assert_eq!(a.config_path, "prod.toml");

    let a = parse_args(&args(&["herald", "--multi-tenant", "--single-tenant", "a.toml", "b.toml"]));
    assert!(a.multi_tenant && a.single_tenant);
    assert_eq!(a.config_path, "a.toml");

    let a = parse_args(&args(&["herald", "herald"]));
    assert_eq!(a.config_path, "herald.toml");
}

#[test]
fn multi_tenant_mode_needs_a_super_admin_token() {
    assert!(check_tenant_mode(true, false).is_ok());
    assert!(check_tenant_mode(false, true).is_ok());
    assert_eq!(
        check_tenant_mode(false, false).unwrap_err(),
        "auth.super_admin_token is required in multi-tenant mode"
    );
}

use herald::http::trace_request;
use herald::ids::{fresh_id, id_from_random};
use herald::wasm::keys::{derive_shared_secret, generate_keypair, keypair_from_secret};
use herald::metering::new_idempotency_key;

fn is_uuid_v4(s: &str) -> bool {
    let c: Vec<char> = s.chars().collect();
    c.len() == 36
        && c.iter().enumerate().all(|(i, ch)| {
            if [8, 13, 18, 23].contains(&i) {
                *ch == '-'
            } else {
                ch.is_ascii_digit() || ('a'..='f').contains(ch)
            }
        })
        && c[14] == '4'
        && "89ab".contains(c[19])
}

#[test]
fn fresh_ids_are_version_4_uuids() {
    let a = fresh_id().expect("the random source works");
    let b = fresh_id().expect("the random source works");
    assert!(is_uuid_v4(&a), "{a}");
    assert!(is_uuid_v4(&b), "{b}");
    assert_ne!(a, b);
}

#[test]
fn request_trace_passes_on_or_builds_a_traceparent() {
    let (id, tp) = trace_request(Some("00-abc-def-01")).expect("the random source works");
    assert!(is_uuid_v4(&id.0));
    assert_eq!(tp, "00-abc-def-01");

    let (id, tp) = trace_request(None).expect("the random source works");
    let digits: String = id.0.chars().filter(|c| *c != '-').collect();
    assert_eq!(tp, format!("00-{}-{}-01", digits, &digits[..16]));
}

#[test]
fn idempotency_keys_carry_the_time_and_a_uuid() {
    let k = new_idempotency_key(1_700_000_000_123).expect("the random source works");
    assert!(k.starts_with("herald_1700000000123_"), "{k}");
    assert!(is_uuid_v4(&k["herald_1700000000123_".len()..]));
}

#[test]
fn ids_are_built_from_the_drawn_bytes() {
    let mut random = [0u8; 32];
    for (i, b) in random.iter_mut().enumerate() {
        *b = i as u8;
    }
    assert_eq!(id_from_random(&random), "00010203-0405-4607-8809-0a0b0c0d0e0f");
}

fn hex32(s: &str) -> [u8; 32] {
    let mut out = [0u8; 32];
    for i in 0..32 {
        out[i] = u8::from_str_radix(&s[2 * i..2 * i + 2], 16).unwrap();
    }
    out
}

#[test]
fn key_pairs_follow_x25519() {
    let secret = hex32("77076d0a7318a57d3c16c17251b26645df4c2f87ebc0992ab177fba51db92c2a");
    let kp = keypair_from_secret(secret);
    assert_eq!(kp.secret_key, secret);
    assert_eq!(
        kp.public_key,
        hex32("8520f0098930a754748b7ddcb43ef75a0dbf3a0d26381af4eba4a98eaa9b4e6a")
    );
    let a = generate_keypair().expect("the random source works");
    let b = generate_keypair().expect("the random source works");
    assert_ne!(a.secret_key, b.secret_key);
    assert_eq!(
        derive_shared_secret(&a.secret_key, &b.public_key),
        derive_shared_secret(&b.secret_key, &a.public_key)
    );
}
