use herald::chat::store_blocks::{block_key, blocked_user_of_key, blocked_users, user_blocks_prefix};
use herald::chat::store_reactions::{group_reactions, msg_reaction_prefix, parse_reaction_key, reaction_key};
use herald::chat::ws_handler::{
    cursor_moved, handle_typing, presence_changed, ChangeAction, ChangeStage, EventChange,
    EventChangeFlow, Fetched, ReactionAction, ReactionFlow,
};
use herald::error::ErrorCode;
use herald::presence::PresenceStatus;
use herald::protocol::ServerMessage;
use herald::registry::connection::ConnId;
use herald::registry::typing::TypingTracker;

fn error_of(a: ChangeAction) -> (Option<String>, ErrorCode, String) {
    match a {
        ChangeAction::Reply(ServerMessage::Error { ref_, payload }) => (ref_, payload.code, payload.message),
        _ => panic!("expected an error reply"),
    }
}

#[test]
fn edit_by_sender_is_applied_and_broadcast() {
    let (mut flow, a) = EventChangeFlow::start(
        Some("r1".to_string()),
        "s1".to_string(),
        "e1".to_string(),
        "alice".to_string(),
        EventChange::Edit { body: "new".to_string() },
        true,
    );
    assert!(matches!(a, ChangeAction::LookUp));
    assert!(matches!(flow.on_lookup(Fetched::Found("alice".to_string())), ChangeAction::Apply));
    match flow.on_applied(Fetched::Found(7), 1_000) {
        ChangeAction::Broadcast { broadcast, ack } => {
            match broadcast {
                ServerMessage::EventEdited { payload } => {
                    assert_eq!((payload.stream.as_str(), payload.id.as_str(), payload.seq), ("s1", "e1", 7));
                    assert_eq!((payload.body.as_str(), payload.edited_at), ("new", 1_000));
                }
                _ => panic!("expected event.edited"),
            }
            match ack {
                ServerMessage::EventAck { ref_, payload } => {
                    assert_eq!(ref_.as_deref(), Some("r1"));
                    assert_eq!((payload.id.as_str(), payload.seq, payload.sent_at), ("e1", 7, 1_000));
                }
                _ => panic!("expected event.ack"),
            }
        }
        _ => panic!("expected a broadcast"),
    }
    assert_eq!(flow.stage(), ChangeStage::Done);
}

#[test]
fn edit_checks_body_then_membership() {
    let (_, a) = EventChangeFlow::start(
        None,
        "s".to_string(),
        "e".to_string(),
        "u".to_string(),
        EventChange::Edit { body: "x".repeat(65_537) },
        false,
    );
    assert_eq!(error_of(a), (None, ErrorCode::BadRequest, "event body exceeds maximum length".to_string()));
    let (_, a) = EventChangeFlow::start(None, "s".to_string(), "e".to_string(), "u".to_string(), EventChange::Delete, false);
    assert_eq!(error_of(a).2, "not a member of this stream");
}

#[test]
fn delete_of_others_event_needs_authorization() {
    let (mut flow, _) = EventChangeFlow::start(
        Some("r".to_string()),
        "s".to_string(),
        "e".to_string(),
        "bob".to_string(),
        EventChange::Delete,
        true,
    );
    match flow.on_lookup(Fetched::Found("alice".to_string())) {
        ChangeAction::Authorize(act) => assert_eq!(act, "event.delete"),
        _ => panic!("expected authorization"),
    }
    let a = flow.on_authorization(Err("access denied: no".to_string()));
    assert_eq!(error_of(a), (Some("r".to_string()), ErrorCode::Unauthorized, "access denied: no".to_string()));
}

#[test]
fn missing_and_failed_lookups() {
    let (mut flow, _) = EventChangeFlow::start(None, "s".to_string(), "e".to_string(), "u".to_string(), EventChange::Delete, true);
    assert_eq!(error_of(flow.on_lookup(Fetched::Missing)).2, "event not found");
    let (mut flow, _) = EventChangeFlow::start(None, "s".to_string(), "e".to_string(), "u".to_string(), EventChange::Delete, true);
    assert_eq!(error_of(flow.on_lookup(Fetched::Failed)).1, ErrorCode::Internal);
    let (mut flow, _) = EventChangeFlow::start(None, "s".to_string(), "e".to_string(), "u".to_string(), EventChange::Delete, true);
    let _ = flow.on_lookup(Fetched::Found("u".to_string()));
    match flow.on_applied(Fetched::Found(3), 9) {
        ChangeAction::Broadcast { broadcast: ServerMessage::EventDeleted { payload }, .. } => {
            assert_eq!(payload.seq, 3)
        }
        _ => panic!("expected event.deleted"),
    }
}

#[test]
fn reactions() {
    let (_, a) = ReactionFlow::start(None, "s".into(), "e".into(), "x".repeat(33), "u".into(), true, true);
    match a {
        ReactionAction::Reply(ServerMessage::Error { payload, .. }) => assert_eq!(payload.message, "emoji too long"),
        _ => panic!("expected refusal"),
    }
    let (flow, a) = ReactionFlow::start(Some("r".into()), "s".into(), "e".into(), "👍".into(), "u".into(), false, true);
    assert!(matches!(a, ReactionAction::Apply));
    match flow.on_applied(true) {
        ReactionAction::Broadcast { broadcast: ServerMessage::ReactionChanged { payload }, ack } => {
            assert_eq!(payload.action, "remove");
            assert_eq!(payload.emoji, "👍");
            assert!(matches!(ack, Some(ServerMessage::Pong { ref_: Some(r) }) if r == "r"));
        }
        _ => panic!("expected reaction.changed"),
    }
    match flow.on_applied(false) {
        ReactionAction::Reply(ServerMessage::Error { payload, .. }) => assert_eq!(payload.code, ErrorCode::Internal),
        _ => panic!("expected internal error"),
    }
}

#[test]
fn frames_and_typing() {
    match cursor_moved("s", "u", 4) {
        ServerMessage::CursorMoved { payload } => assert_eq!((payload.stream.as_str(), payload.seq), ("s", 4)),
        _ => panic!(),
    }
    match presence_changed("u", PresenceStatus::Away) {
        ServerMessage::PresenceChanged { payload } => assert_eq!(payload.presence, PresenceStatus::Away),
        _ => panic!(),
    }
    let mut typing = TypingTracker::new();
    let b = handle_typing(&mut typing, ConnId(7), "t", "u", "s", true, 0);
    assert_eq!((b.tenant_id.as_str(), b.stream_id.as_str()), ("t", "s"));
    assert_eq!(b.exclude, Some(ConnId(7)));
    match b.message {
        ServerMessage::Typing { payload } => {
            assert!(payload.active);
            assert_eq!((payload.stream.as_str(), payload.user_id.as_str()), ("s", "u"));
        }
        _ => panic!(),
    }
    assert_eq!(typing.remove_user("t", "u"), vec!["s".to_string()]);
}

#[test]
fn block_keys() {
    assert_eq!(block_key("t1", "alice", "bob"), "t1/alice/bob");
    assert_eq!(user_blocks_prefix("t1", "alice"), "t1/alice/");
    assert_eq!(blocked_user_of_key("t1/alice/bob"), "bob");
    assert_eq!(blocked_user_of_key("plain"), "plain");
    assert_eq!(blocked_users(&vec!["t/a/x".to_string(), "t/a/y".to_string()]), vec!["x", "y"]);
}

#[test]
fn reaction_keys_and_grouping() {
    assert_eq!(reaction_key("t1", "stream1", "msg1", "thumbsup", "alice"), "t1/stream1/msg1/thumbsup/alice");
    assert_eq!(msg_reaction_prefix("t1", "stream1", "msg1"), "t1/stream1/msg1/");
    assert_eq!(parse_reaction_key("t/s/m/e/u/x"), Some(("e".to_string(), "u/x".to_string())));
    assert_eq!(parse_reaction_key("t/s/m/e"), None);
    let keys = vec![
        "t1/stream1/msg1/thumbsup/alice".to_string(),
        "t1/stream1/msg1/thumbsup/bob".to_string(),
        "t1/stream1/msg1/heart/alice".to_string(),
        "garbage".to_string(),
    ];
    let summaries = group_reactions(&keys);
    assert_eq!(summaries.len(), 2);
    let thumbs = summaries.iter().find(|s| s.emoji == "thumbsup").unwrap();
    assert_eq!(thumbs.count, 2);
    assert_eq!(thumbs.users, vec!["alice", "bob"]);
    let heart = summaries.iter().find(|s| s.emoji == "heart").unwrap();
    assert_eq!(heart.count, 1);
}
