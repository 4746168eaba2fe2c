use herald::backplane::{backplane_step, BackplaneAction};
use herald::chat::ws_handler::Fetched;
use herald::config::CorsConfig;
use herald::engine::{default_engines, fanout_filter_step, EngineSet, FilterQuery, FilterStep};
use herald::http::cors_policy;
use herald::http::events::{
    accept_publish, check_edit, check_publish, deliver_publication, finish_delete, finish_edit,
    trigger_ephemeral, EditEventRequest, InjectEventRequest, StoredEvent, TriggerEphemeralRequest,
    EVENT_TTL_MS,
};
use herald::http::openapi::{MemberListResponse, StreamListResponse};
use herald::http::validation::PaginationQuery;
use herald::protocol::ClientMessage;
use herald::http::CorsPolicy;
use herald::metering::QuotaResult;
use herald::protocol::ServerMessage;
use herald::registry::connection::ConnId;
use herald::registry::stream::StreamRegistry;

fn request(sender: &str, body: &str) -> InjectEventRequest {
    InjectEventRequest {
        sender: sender.to_string(),
        body: body.to_string(),
        meta: None,
        exclude_connection: Some(9),
        parent_id: None,
    }
}

fn quota(allowed: bool, soft: bool) -> QuotaResult {
    QuotaResult {
        allowed,
        remaining: None,
        soft_overage: soft,
        current_usage: Some(120),
        limit: Some(100),
    }
}

#[test]
fn publish_takes_the_next_sequence_number() {
    let mut r = StreamRegistry::new();
    r.create_stream("t1", "s1", 4, false);
    let req = request("alice", "hello");
    assert!(check_publish(&mut r, "t1", "s1", &req, None).is_ok());
    let p = accept_publish(&mut r, "t1", "s1", &req, None, "ev-1", 1_000).ok().unwrap();
    assert_eq!(p.event.seq, 5);
    assert_eq!(r.current_seq("t1", "s1"), 5);
    assert_eq!(p.event.id, "ev-1");
    assert_eq!(p.event.sender, "alice");
    assert_eq!(p.event.body, "hello");
    assert_eq!(p.event.sent_at, 1_000);
    assert_eq!(p.expires_at_ms, 1_000 + EVENT_TTL_MS);
    assert!(p.warning.is_none());

    let b = deliver_publication(&mut r, "t1", "s1", &p, req.exclude_connection);
    assert_eq!((b.tenant_id.as_str(), b.stream_id.as_str()), ("t1", "s1"));
    assert_eq!(b.exclude, Some(ConnId(9)));
    assert_eq!(b.sender.as_deref(), Some("alice"));
    match b.message {
        ServerMessage::EventNew { payload } => {
            assert_eq!((payload.seq, payload.body.as_str()), (5, "hello"))
        }
        _ => panic!("an event.new frame"),
    }
    match r.get_last_event("t1", "s1") {
        Some(ServerMessage::EventNew { payload }) => assert_eq!(payload.id, "ev-1"),
        _ => panic!("the frame is cached"),
    }
}

#[test]
fn refused_publish_leaves_the_sequence() {
    let mut r = StreamRegistry::new();
    r.create_stream("t1", "s1", 4, false);
    let req = request("alice", "hello");
    let e = accept_publish(&mut r, "t1", "s1", &req, Some(&quota(false, false)), "ev-1", 1_000)
        .err()
        .unwrap();
    assert_eq!((e.status, e.message.as_str()), (429, "event quota exceeded"));
    assert_eq!(r.current_seq("t1", "s1"), 4);

    let e = check_publish(&mut r, "t1", "nope", &req, None).unwrap_err();
    assert_eq!((e.status, e.message.as_str()), (404, "stream not found"));
    r.set_archived("t1", "s1", true);
    let e = check_publish(&mut r, "t1", "s1", &req, None).unwrap_err();
    assert_eq!((e.status, e.message.as_str()), (400, "stream is archived"));
    assert_eq!(r.current_seq("t1", "s1"), 4);
}

#[test]
fn soft_overage_publishes_with_a_warning() {
    let mut r = StreamRegistry::new();
    r.create_stream("t1", "s1", 0, false);
    let req = request("alice", "hello");
    let p = accept_publish(&mut r, "t1", "s1", &req, Some(&quota(true, true)), "ev-1", 0).ok().unwrap();
    assert_eq!(p.event.seq, 1);
    assert_eq!(p.warning.as_deref(), Some("usage 120 of 100 (soft cap)"));
}

fn stored(sender: &str) -> StoredEvent {
    StoredEvent {
        id: "ev-7".to_string(),
        stream_id: "s1".to_string(),
        seq: 7,
        sender: sender.to_string(),
        body: "hi".to_string(),
        meta: None,
        parent_id: None,
        edited_at: None,
        sent_at: 42,
    }
}

fn key() -> Option<(String, String, u64)> {
    Some(("t1".to_string(), "s1".to_string(), 7))
}

#[test]
fn backplane_fans_out_remote_events() {
    match backplane_step(true, key(), false, Fetched::Found(stored("bob")), 2) {
        BackplaneAction::Fanout { broadcast, cached } => {
            assert_eq!((broadcast.tenant_id.as_str(), broadcast.stream_id.as_str()), ("t1", "s1"));
            assert_eq!(broadcast.exclude, None);
            assert_eq!(broadcast.sender.as_deref(), Some("bob"));
            match (broadcast.message, cached) {
                (ServerMessage::EventNew { payload: a }, ServerMessage::EventNew { payload: b }) => {
                    assert_eq!((a.seq, a.id.as_str(), a.sent_at), (7, "ev-7", 42));
                    assert_eq!((b.seq, b.body.as_str()), (7, "hi"));
                }
                _ => panic!("event.new frames"),
            }
        }
        BackplaneAction::Skip => panic!("a remote event with subscribers is fanned out"),
    }
}

#[test]
fn backplane_skips() {
    let skip = |a: BackplaneAction| matches!(a, BackplaneAction::Skip);
    assert!(skip(backplane_step(false, key(), false, Fetched::Found(stored("bob")), 2)));
    assert!(skip(backplane_step(true, None, false, Fetched::Found(stored("bob")), 2)));
    assert!(skip(backplane_step(true, key(), true, Fetched::Found(stored("bob")), 2)));
    assert!(skip(backplane_step(true, key(), false, Fetched::Missing, 2)));
    assert!(skip(backplane_step(true, key(), false, Fetched::Failed, 2)));
    assert!(skip(backplane_step(true, key(), false, Fetched::Found(stored("bob")), 0)));
}

#[test]
fn engine_filters_are_asked_in_order() {
    let q = FilterQuery {
        tenant_id: "t".to_string(),
        subscriber_id: "alice".to_string(),
        sender_id: "bob".to_string(),
    };
    match fanout_filter_step(2, &q, &vec![]) {
        FilterStep::Ask { engine, query } => {
            assert_eq!(engine, 0);
            assert_eq!(
                (query.tenant_id.as_str(), query.subscriber_id.as_str(), query.sender_id.as_str()),
                ("t", "alice", "bob")
            );
        }
        FilterStep::Verdict(_) => panic!("the first engine is asked"),
    }
    assert!(matches!(fanout_filter_step(2, &q, &vec![true]), FilterStep::Ask { engine: 1, .. }));
    assert!(matches!(fanout_filter_step(2, &q, &vec![true, true]), FilterStep::Verdict(true)));
    assert!(matches!(fanout_filter_step(2, &q, &vec![false]), FilterStep::Verdict(false)));
    assert!(matches!(fanout_filter_step(0, &q, &vec![]), FilterStep::Verdict(true)));
}

#[test]
fn cors_policy_choice() {
    assert!(matches!(cors_policy(&None), CorsPolicy::Any));
    let any = CorsConfig { allowed_origins: vec!["https://a.example".to_string(), "*".to_string()] };
    assert!(matches!(cors_policy(&Some(any)), CorsPolicy::Any));
    let listed = CorsConfig {
        allowed_origins: vec!["https://a.example".to_string(), "https://b.example".to_string()],
    };
    match cors_policy(&Some(listed)) {
        CorsPolicy::Origins(o) => assert_eq!(o, vec!["https://a.example", "https://b.example"]),
        CorsPolicy::Any => panic!("only the listed origins"),
    }
}

#[test]
fn default_engine_set() {
    let engines = default_engines();
    assert_eq!(engines.len(), 2);
    assert_eq!(engines.namespaces(), vec!["herald.blocks", "herald.presence_overrides"]);
    let timers = engines.timers();
    assert_eq!(timers.len(), 2);
    assert_eq!((timers[0].label, timers[0].interval_secs), ("chat:typing-ttl", 5));
    assert_eq!((timers[1].label, timers[1].interval_secs), ("presence:override-expiry", 30));
    let q = FilterQuery {
        tenant_id: "t".to_string(),
        subscriber_id: "alice".to_string(),
        sender_id: "bob".to_string(),
    };
    assert!(matches!(engines.fanout_filter(&q, &vec![true]), FilterStep::Ask { engine: 1, .. }));
    let none = EngineSet::empty();
    assert!(none.namespaces().is_empty());
    assert!(matches!(none.fanout_filter(&q, &vec![]), FilterStep::Verdict(true)));
}

#[test]
fn edits_and_deletions_over_http() {
    let req = EditEventRequest { body: "fixed".to_string() };
    assert!(check_edit(&req).is_ok());
    let long = EditEventRequest { body: "b".repeat(65_537) };
    assert_eq!(check_edit(&long).unwrap_err().status, 400);
    let (status, b) = finish_edit("t1", "s1", "ev-1", &req, Fetched::Found(3), 77).ok().unwrap();
    assert_eq!(status, 200);
    assert_eq!((b.tenant_id.as_str(), b.stream_id.as_str(), b.exclude), ("t1", "s1", None));
    match b.message {
        ServerMessage::EventEdited { payload } => {
            assert_eq!((payload.id.as_str(), payload.seq, payload.body.as_str(), payload.edited_at), ("ev-1", 3, "fixed", 77))
        }
        _ => panic!("an event.edited frame"),
    }
    let e = finish_edit("t1", "s1", "ev-1", &req, Fetched::Missing, 77).err().unwrap();
    assert_eq!((e.status, e.message.as_str()), (404, "event not found"));
    let e = finish_edit("t1", "s1", "ev-1", &req, Fetched::Failed, 77).err().unwrap();
    assert_eq!((e.status, e.message.as_str()), (500, "internal error"));

    let (status, b) = finish_delete("t1", "s1", "ev-1", Fetched::Found(3)).ok().unwrap();
    assert_eq!(status, 204);
    assert!(matches!(b.message, ServerMessage::EventDeleted { payload } if payload.seq == 3 && payload.id == "ev-1"));
    assert_eq!(finish_delete("t1", "s1", "ev-1", Fetched::Missing).err().unwrap().status, 404);
}

#[test]
fn ephemeral_events() {
    let req = TriggerEphemeralRequest { event: "ping".to_string(), data: None, exclude_connection: Some(2) };
    assert_eq!(trigger_ephemeral("t1", "s1", &req, false).err().unwrap().status, 404);
    let (status, b) = trigger_ephemeral("t1", "s1", &req, true).ok().unwrap();
    assert_eq!(status, 204);
    assert_eq!(b.exclude, Some(ConnId(2)));
    match b.message {
        ServerMessage::EventReceived { payload } => {
            assert_eq!((payload.event.as_str(), payload.sender.as_str()), ("ping", "_server"))
        }
        _ => panic!("an event.received frame"),
    }
}

#[test]
fn list_pages() {
    let q = PaginationQuery { limit: Some(2), offset: Some(1) };
    let r = StreamListResponse::page(vec!["a", "b", "c", "d"], &q);
    assert_eq!((r.streams, r.total, r.limit, r.offset), (vec!["b", "c"], 4, 2, 1));
    let q = PaginationQuery { limit: None, offset: Some(9) };
    let r = MemberListResponse::page(vec![1, 2, 3], &q);
    assert_eq!((r.members, r.total, r.limit, r.offset), (vec![], 3, 50, 9));
    let q = PaginationQuery { limit: Some(1000), offset: None };
    let r = MemberListResponse::page(vec![1, 2, 3], &q);
    assert_eq!((r.members, r.limit), (vec![1, 2, 3], 500));
}

#[test]
fn client_message_type_names() {
    assert_eq!(ClientMessage::Ping { ref_: None }.protocol_type_name(), "ping");
    assert_eq!(ClientMessage::TypingStart { stream: "s".to_string() }.protocol_type_name(), "typing.start");
    assert_eq!(
        ClientMessage::EventDelete { ref_: None, stream: "s".to_string(), id: "e".to_string() }.protocol_type_name(),
        "event.delete"
    );
}
