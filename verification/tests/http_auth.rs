use herald::http::validation::{
    validate_attachments, validate_body, validate_id, validate_meta, validate_name,
    PaginationQuery,
};
use herald::http::{
    check_admin, check_basic, check_bearer, check_scope, enforce_scope, new_traceparent,
    read_tenant_credentials, response_traceparent, Credentials, RateWindow, TokenLookup,
};
use herald::json::{JsonValue, JsonNumber};

fn msg(r: Result<(), herald::http::Refusal>) -> (u16, String) {
    let e = r.unwrap_err();
    (e.status, e.message)
}

#[test]
fn id_validation() {
    assert!(validate_id("user-1_a.b", "user_id").is_ok());
    assert_eq!(msg(validate_id("", "user_id")), (400, "user_id must not be empty".to_string()));
    assert_eq!(
        msg(validate_id("bad id", "stream id")),
        (400, "stream id contains invalid characters (allowed: alphanumeric, hyphen, underscore, dot)".to_string())
    );
    let long = "a".repeat(256);
    assert_eq!(msg(validate_id(&long, "x")), (400, "x exceeds maximum length (255)".to_string()));
    assert!(validate_id(&"a".repeat(255), "x").is_ok());
    // length is counted in bytes: 128 two-byte characters are 256 bytes
    let wide = "é".repeat(128);
    assert_eq!(msg(validate_id(&wide, "x")), (400, "x exceeds maximum length (255)".to_string()));
}

#[test]
fn name_body_meta_validation() {
    assert!(validate_name("General chat", "stream name").is_ok());
    assert_eq!(msg(validate_name("a\0b", "n")), (400, "n contains null bytes".to_string()));
    assert_eq!(msg(validate_name(&"x".repeat(513), "n")), (400, "n exceeds maximum length (512)".to_string()));
    assert!(validate_body(&"b".repeat(65_536)).is_ok());
    assert_eq!(
        msg(validate_body(&"b".repeat(65_537))),
        (400, "event body exceeds maximum length (65536 bytes)".to_string())
    );
    assert!(validate_meta(None).is_ok());
    assert!(validate_meta(Some("{\"a\":1}")).is_ok());
    let big = format!("\"{}\"", "m".repeat(16_400));
    assert_eq!(
        msg(validate_meta(Some(&big))),
        (400, "meta field exceeds maximum size (16384 bytes)".to_string())
    );
}

fn obj(pairs: Vec<(&str, JsonValue)>) -> JsonValue {
    JsonValue::Object(pairs.into_iter().map(|(k, v)| (k.to_string(), v)).collect())
}

#[test]
fn attachment_validation() {
    let good = obj(vec![("url", JsonValue::Text("https://x".to_string()))]);
    let bad = obj(vec![("name", JsonValue::Text("f".to_string()))]);
    let meta = Some(obj(vec![("attachments", JsonValue::Array(vec![good, bad]))]));
    assert_eq!(
        msg(validate_attachments(&meta)),
        (400, "attachment[1] missing required 'url' field".to_string())
    );
    let many: Vec<JsonValue> = (0..11)
        .map(|_| obj(vec![("url", JsonValue::Text("u".to_string()))]))
        .collect();
    let meta = Some(obj(vec![("attachments", JsonValue::Array(many))]));
    assert_eq!(msg(validate_attachments(&meta)), (400, "maximum 10 attachments per event".to_string()));
    let not_array = Some(obj(vec![("attachments", JsonValue::Number(JsonNumber::PosInt(3)))]));
    assert!(validate_attachments(&not_array).is_ok());
    assert!(validate_attachments(&None).is_ok());
}

#[test]
fn pagination_resolve() {
    assert_eq!(PaginationQuery { limit: None, offset: None }.resolve(), (50, 0));
    assert_eq!(PaginationQuery { limit: Some(1000), offset: Some(7) }.resolve(), (500, 7));
    assert_eq!(PaginationQuery { limit: Some(20), offset: None }.resolve(), (20, 0));
}

#[test]
fn basic_credentials_decode() {
    // "key1:s3cr:et" in base64
    match read_tenant_credentials(Some("Basic a2V5MTpzM2NyOmV0")).ok().unwrap() {
        Credentials::Basic { key, secret } => {
            assert_eq!(key, "key1");
            assert_eq!(secret, "s3cr:et");
        }
        _ => panic!("expected basic credentials"),
    }
    let e = read_tenant_credentials(Some("Basic !!!")).err().unwrap();
    assert_eq!((e.status, e.message.as_str()), (401, "invalid credentials"));
    // "nocolon" has no separator
    let e = read_tenant_credentials(Some("Basic bm9jb2xvbg==")).err().unwrap();
    assert_eq!(e.message, "invalid credentials");
}

#[test]
fn bearer_and_missing_credentials() {
    match read_tenant_credentials(Some("Bearer tok-123")).ok().unwrap() {
        Credentials::Bearer { token } => assert_eq!(token, "tok-123"),
        _ => panic!("expected bearer"),
    }
    let e = read_tenant_credentials(None).err().unwrap();
    assert_eq!((e.status, e.message.as_str()), (401, "missing authorization header"));
    let e = read_tenant_credentials(Some("Digest x")).err().unwrap();
    assert_eq!(e.message, "invalid authorization header");
}

#[test]
fn basic_and_bearer_checks() {
    let ok = check_basic(Some("t1".to_string()), Some("sekret"), "sekret").ok().unwrap();
    assert_eq!(ok.tenant.0, "t1");
    assert!(ok.scope.0.is_none());
    assert_eq!(check_basic(Some("t1".to_string()), Some("sekret"), "wrong").err().unwrap().status, 401);
    assert_eq!(check_basic(None, None, "x").err().unwrap().message, "invalid credentials");
    let a = check_bearer(TokenLookup::Found { tenant_id: "t2".to_string(), scope: Some("read-only".to_string()) })
        .ok()
        .unwrap();
    assert_eq!(a.tenant.0, "t2");
    assert_eq!(a.scope.0.as_deref(), Some("read-only"));
    assert_eq!(check_bearer(TokenLookup::Unknown).err().unwrap().message, "invalid token");
    let e = check_bearer(TokenLookup::Failed).err().unwrap();
    assert_eq!((e.status, e.message.as_str()), (500, "internal error"));
}

#[test]
fn admin_auth() {
    assert!(check_admin(Some("Bearer pw-0123456789abcdef"), Some("pw-0123456789abcdef")).is_ok());
    assert_eq!(msg(check_admin(Some("Bearer nope"), Some("pw"))), (401, "invalid credentials".to_string()));
    assert_eq!(msg(check_admin(Some("Bearer "), Some(""))), (401, "invalid credentials".to_string()));
    assert_eq!(msg(check_admin(Some("Bearer x"), None)), (401, "invalid credentials".to_string()));
    assert_eq!(msg(check_admin(None, Some("pw"))), (401, "missing authorization header".to_string()));
    assert_eq!(msg(check_admin(Some("Basic pw"), Some("pw"))), (401, "missing authorization header".to_string()));
}

#[test]
fn token_scopes() {
    assert!(check_scope(&None, false, "/streams/a"));
    let ro = Some("read-only".to_string());
    assert!(check_scope(&ro, true, "/streams/a"));
    assert!(!check_scope(&ro, false, "/streams/a"));
    let s = Some("stream:chat".to_string());
    assert!(check_scope(&s, false, "/streams/chat/events"));
    assert!(!check_scope(&s, true, "/streams/other/events"));
    assert!(check_scope(&Some("future-scope".to_string()), false, "/x"));
    let e = enforce_scope(&ro, false, "/streams").err().unwrap();
    assert_eq!((e.status, e.message.as_str()), (403, "token scope does not permit this action"));
}

#[test]
fn rate_window_limits_and_resets() {
    let mut w = RateWindow::new(1_000);
    assert!(w.admit_at(1_000, 2).is_ok());
    assert!(w.admit_at(2_000, 2).is_ok());
    let e = w.admit_at(3_000, 2).err().unwrap();
    assert_eq!((e.status, e.message.as_str()), (429, "rate limit exceeded"));
    assert!(w.admit_at(61_000, 2).is_ok());
    assert_eq!(w.count, 1);
    assert_eq!(w.window_start_ms, 61_000);
}

#[test]
fn traceparent_generation() {
    let id = "0af76519-16cd-43dd-8448-eb211c80319c";
    assert_eq!(
        new_traceparent(id),
        "00-0af7651916cd43dd8448eb211c80319c-0af7651916cd43dd-01"
    );
    assert_eq!(response_traceparent(Some("00-abc-def-01"), id), "00-abc-def-01");
}
