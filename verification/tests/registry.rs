use herald::presence::PresenceStatus;
use herald::registry::presence::{PersistedLastSeen, PersistedOverride, PresenceTracker};
use herald::registry::typing::TypingTracker;

#[test]
fn manual_override_wins_until_cleared() {
    let mut t = PresenceTracker::new();
    t.set_manual("t1", "alice", PresenceStatus::Dnd, None, None);
    let r = t.resolve_at("t1", "alice", 2, 0);
    assert_eq!(r.status, PresenceStatus::Dnd);
    t.set_manual("t1", "alice", PresenceStatus::Online, None, None);
    assert_eq!(t.resolve_at("t1", "alice", 2, 0).status, PresenceStatus::Online);
    assert_eq!(t.resolve_at("t1", "alice", 0, 0).status, PresenceStatus::Offline);
}

#[test]
fn expired_override_falls_back_to_connections() {
    let mut t = PresenceTracker::new();
    t.set_manual(
        "t1",
        "bob",
        PresenceStatus::Away,
        Some(1_000),
        Some("1970-01-01T00:00:01Z".to_string()),
    );
    let before = t.resolve_at("t1", "bob", 1, 999);
    assert_eq!(before.status, PresenceStatus::Away);
    assert_eq!(before.until.as_deref(), Some("1970-01-01T00:00:01Z"));
    assert_eq!(t.resolve_at("t1", "bob", 1, 1_000).status, PresenceStatus::Online);
    let swept = t.sweep_expired_at(1_000);
    assert_eq!(swept, vec![("t1".to_string(), "bob".to_string())]);
    assert!(t.dump_overrides().is_empty());
}

#[test]
fn last_seen_reported_when_offline() {
    let mut t = PresenceTracker::new();
    t.stamp_last_seen("t1", "carol", 42);
    let r = t.resolve_at("t1", "carol", 0, 100);
    assert_eq!(r.status, PresenceStatus::Offline);
    assert_eq!(r.last_seen_at, Some(42));
    assert_eq!(t.get_last_seen("t1", "carol"), Some(42));
    t.clear_last_seen("t1", "carol");
    assert_eq!(t.get_last_seen("t1", "carol"), None);
}

#[test]
fn load_and_dump_overrides() {
    let mut t = PresenceTracker::new();
    t.load_overrides_at(
        vec![
            PersistedOverride {
                tenant_id: "t1".to_string(),
                user_id: "a".to_string(),
                status: PresenceStatus::Away,
                expires_at_ms: Some(10),
                until_iso: None,
            },
            PersistedOverride {
                tenant_id: "t1".to_string(),
                user_id: "b".to_string(),
                status: PresenceStatus::Dnd,
                expires_at_ms: None,
                until_iso: None,
            },
        ],
        50,
    );
    let dumped = t.dump_overrides();
    assert_eq!(dumped.len(), 1);
    assert_eq!(dumped[0].user_id, "b");
    assert_eq!(dumped[0].status, PresenceStatus::Dnd);
}

#[test]
fn load_and_dump_last_seen() {
    let mut t = PresenceTracker::new();
    t.load_last_seen(vec![
        PersistedLastSeen { tenant_id: "t".to_string(), user_id: "u".to_string(), last_seen_at_ms: 1 },
        PersistedLastSeen { tenant_id: "t".to_string(), user_id: "u".to_string(), last_seen_at_ms: 2 },
    ]);
    let d = t.dump_last_seen();
    assert_eq!(d.len(), 1);
    assert_eq!(d[0].last_seen_at_ms, 2);
}

#[test]
fn dumped_state_loads_back() {
    let mut t = PresenceTracker::new();
    t.stamp_last_seen("t1", "carol", 42);
    t.stamp_last_seen("t2", "dave", 7);
    t.set_manual("t1", "alice", PresenceStatus::Dnd, None, None);
    t.set_manual("t1", "bob", PresenceStatus::Away, Some(1_000), None);
    let mut u = PresenceTracker::new();
    u.load_last_seen(t.dump_last_seen());
    u.load_overrides_at(t.dump_overrides(), 500);
    assert_eq!(u.get_last_seen("t1", "carol"), Some(42));
    assert_eq!(u.get_last_seen("t2", "dave"), Some(7));
    assert_eq!(u.dump_last_seen().len(), 2);
    assert_eq!(u.resolve_at("t1", "alice", 1, 500).status, PresenceStatus::Dnd);
    assert_eq!(u.resolve_at("t1", "bob", 1, 500).status, PresenceStatus::Away);
    let mut w = PresenceTracker::new();
    w.load_overrides_at(t.dump_overrides(), 1_000);
    assert_eq!(w.dump_overrides().len(), 1);
    assert_eq!(w.resolve_at("t1", "bob", 1, 1_000).status, PresenceStatus::Online);
}

#[test]
fn set_manual_changes_one_dump_entry() {
    let mut t = PresenceTracker::new();
    t.set_manual("t1", "alice", PresenceStatus::Dnd, None, None);
    t.set_manual("t1", "bob", PresenceStatus::Away, Some(9), None);
    assert_eq!(t.dump_overrides().len(), 2);
    t.set_manual("t1", "alice", PresenceStatus::Offline, None, None);
    let d = t.dump_overrides();
    assert_eq!(d.len(), 2);
    let alice = d.iter().find(|po| po.user_id == "alice").unwrap();
    assert_eq!(alice.status, PresenceStatus::Offline);
    t.set_manual("t1", "alice", PresenceStatus::Online, Some(5), None);
    let d = t.dump_overrides();
    assert_eq!(d.len(), 1);
    assert_eq!((d[0].user_id.as_str(), d[0].status, d[0].expires_at_ms), ("bob", PresenceStatus::Away, Some(9)));
}

#[test]
fn typing_lapses_after_ten_seconds() {
    let mut t = TypingTracker::new();
    t.set_typing_at("t1", "s1", "alice", true, 1_000);
    t.set_typing_at("t1", "s2", "alice", true, 5_000);
    assert!(t.expire_at(10_999).is_empty());
    let expired = t.expire_at(11_000);
    assert_eq!(expired, vec![("t1".to_string(), "s1".to_string(), "alice".to_string())]);
    let streams = t.remove_user("t1", "alice");
    assert_eq!(streams, vec!["s2".to_string()]);
    assert!(t.remove_user("t1", "alice").is_empty());
}

#[test]
fn typing_stop_clears() {
    let mut t = TypingTracker::new();
    t.set_typing_at("t1", "s1", "bob", true, 0);
    t.set_typing_at("t1", "s1", "bob", false, 1);
    assert!(t.expire_at(100_000).is_empty());
}
