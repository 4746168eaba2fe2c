use herald::protocol::{EventNewPayload, ServerMessage};
use herald::registry::connection::{ConnId, ConnIds, ConnectionRegistry};
use herald::registry::stream::StreamRegistry;

fn sorted(mut v: Vec<String>) -> Vec<String> {
    v.sort();
    v
}

#[test]
fn create_stream_keeps_an_existing_stream() {
    let mut r = StreamRegistry::new();
    r.create_stream("t1", "s1", 5, true);
    r.add_member("t1", "s1", "alice");
    r.create_stream("t1", "s1", 0, false);
    assert_eq!(r.current_seq("t1", "s1"), 5);
    assert!(r.is_public("t1", "s1"));
    assert!(r.is_member("t1", "s1", "alice"));
    assert_eq!(r.stream_count(), 1);
}

#[test]
fn streams_are_scoped_by_tenant() {
    let mut r = StreamRegistry::new();
    r.create_stream("t1", "general", 0, false);
    r.create_stream("t2", "general", 0, false);
    r.create_stream("t1", "random", 0, false);
    assert_eq!(r.stream_count(), 3);
    assert_eq!(r.tenant_stream_count("t1"), 2);
    assert_eq!(r.tenant_stream_count("t2"), 1);
    assert_eq!(r.tenant_stream_count("t3"), 0);
    r.add_member("t1", "general", "alice");
    assert!(r.is_member("t1", "general", "alice"));
    assert!(!r.is_member("t2", "general", "alice"));
    assert!(r.stream_exists("t2", "general"));
    r.remove_stream("t2", "general");
    assert!(!r.stream_exists("t2", "general"));
    assert!(r.stream_exists("t1", "general"));
}

#[test]
fn members_are_listed_once() {
    let mut r = StreamRegistry::new();
    r.create_stream("t1", "s1", 0, false);
    r.add_member("t1", "s1", "bob");
    r.add_member("t1", "s1", "alice");
    r.add_member("t1", "s1", "bob");
    assert_eq!(sorted(r.get_members("t1", "s1")), vec!["alice".to_string(), "bob".to_string()]);
    assert!(r.get_members("t1", "missing").is_empty());
    r.remove_member("t1", "s1", "bob");
    assert_eq!(r.get_members("t1", "s1"), vec!["alice".to_string()]);
}

#[test]
fn member_of_a_missing_stream_is_not_recorded() {
    let mut r = StreamRegistry::new();
    r.add_member("t1", "nope", "alice");
    assert!(!r.stream_exists("t1", "nope"));
    assert!(!r.is_member("t1", "nope", "alice"));
}

#[test]
fn subscriptions_count_connections() {
    let mut r = StreamRegistry::new();
    r.create_stream("t1", "s1", 0, false);
    r.subscribe("t1", "s1", "alice", ConnId(1));
    r.subscribe("t1", "s1", "alice", ConnId(2));
    r.subscribe("t1", "s1", "alice", ConnId(2));
    r.subscribe("t1", "s1", "bob", ConnId(3));
    assert_eq!(r.subscriber_count("t1", "s1"), 3);
    let mut subs = r.get_subscriber_conns("t1", "s1");
    subs.sort_by(|a, b| a.0.cmp(&b.0));
    assert_eq!(subs.len(), 2);
    assert_eq!(subs[0].0, "alice");
    let mut alice = subs[0].1.clone();
    alice.sort_by_key(|c| c.0);
    assert_eq!(alice, vec![ConnId(1), ConnId(2)]);
    assert_eq!(subs[1], ("bob".to_string(), vec![ConnId(3)]));
    assert_eq!(r.subscriber_count("t1", "missing"), 0);
}

#[test]
fn unsubscribing_the_last_connection_drops_the_user() {
    let mut r = StreamRegistry::new();
    r.create_stream("t1", "s1", 0, false);
    r.subscribe("t1", "s1", "alice", ConnId(1));
    r.subscribe("t1", "s1", "alice", ConnId(2));
    r.unsubscribe("t1", "s1", "alice", ConnId(1));
    assert_eq!(r.subscriber_count("t1", "s1"), 1);
    r.unsubscribe("t1", "s1", "alice", ConnId(2));
    assert_eq!(r.subscriber_count("t1", "s1"), 0);
    assert!(r.get_subscriber_conns("t1", "s1").is_empty());
}

#[test]
fn removing_a_member_ends_their_subscriptions() {
    let mut r = StreamRegistry::new();
    r.create_stream("t1", "s1", 0, false);
    r.add_member("t1", "s1", "alice");
    r.subscribe("t1", "s1", "alice", ConnId(7));
    r.subscribe("t1", "s1", "bob", ConnId(8));
    r.remove_member("t1", "s1", "alice");
    assert!(!r.is_member("t1", "s1", "alice"));
    assert_eq!(r.get_subscriber_conns("t1", "s1"), vec![("bob".to_string(), vec![ConnId(8)])]);
}

#[test]
fn unsubscribe_from_all_reports_the_streams_left() {
    let mut r = StreamRegistry::new();
    r.create_stream("t1", "a", 0, false);
    r.create_stream("t1", "b", 0, false);
    r.create_stream("t1", "c", 0, false);
    r.create_stream("t2", "a", 0, false);
    r.subscribe("t1", "a", "alice", ConnId(1));
    r.subscribe("t1", "b", "alice", ConnId(1));
    r.subscribe("t1", "b", "alice", ConnId(2));
    r.subscribe("t2", "a", "alice", ConnId(1));
    let left = sorted(r.unsubscribe_conn_from_all(ConnId(1), "t1", "alice"));
    assert_eq!(left, vec!["a".to_string(), "b".to_string()]);
    assert_eq!(r.subscriber_count("t1", "a"), 0);
    assert_eq!(r.subscriber_count("t1", "b"), 1);
    assert_eq!(r.subscriber_count("t2", "a"), 1);
}

#[test]
fn sequence_numbers_increase() {
    let mut r = StreamRegistry::new();
    r.create_stream("t1", "s1", 41, false);
    assert_eq!(r.next_seq("t1", "s1"), 42);
    assert_eq!(r.next_seq("t1", "s1"), 43);
    assert_eq!(r.current_seq("t1", "s1"), 43);
    assert_eq!(r.next_seq("t1", "missing"), 1);
    assert_eq!(r.current_seq("t1", "missing"), 0);
}

#[test]
fn archived_and_public_flags() {
    let mut r = StreamRegistry::new();
    r.create_stream("t1", "s1", 0, false);
    assert!(!r.is_archived("t1", "s1"));
    assert!(!r.is_public("t1", "s1"));
    r.set_archived("t1", "s1", true);
    assert!(r.is_archived("t1", "s1"));
    r.set_archived("t1", "s1", false);
    assert!(!r.is_archived("t1", "s1"));
    r.set_archived("t1", "missing", true);
    assert!(!r.is_archived("t1", "missing"));
}

#[test]
fn member_streams_of_a_user() {
    let mut r = StreamRegistry::new();
    r.create_stream("t1", "a", 0, false);
    r.create_stream("t1", "b", 0, false);
    r.create_stream("t2", "c", 0, false);
    r.add_member("t1", "a", "alice");
    r.add_member("t1", "b", "alice");
    r.add_member("t2", "c", "alice");
    r.add_member("t1", "b", "bob");
    assert_eq!(sorted(r.get_member_streams("t1", "alice")), vec!["a".to_string(), "b".to_string()]);
    assert_eq!(r.get_member_streams("t1", "bob"), vec!["b".to_string()]);
    assert!(r.get_member_streams("t1", "carol").is_empty());
}

#[test]
fn last_event_is_cached() {
    let mut r = StreamRegistry::new();
    r.create_stream("t1", "s1", 0, false);
    assert!(r.get_last_event("t1", "s1").is_none());
    let msg = ServerMessage::EventNew {
        payload: EventNewPayload {
            stream: "s1".to_string(),
            id: "e1".to_string(),
            seq: 1,
            sender: "alice".to_string(),
            body: "hi".to_string(),
            meta: None,
            parent_id: None,
            sent_at: 10,
        },
    };
    r.set_last_event("t1", "s1", msg);
    for _ in 0..2 {
        match r.get_last_event("t1", "s1") {
            Some(ServerMessage::EventNew { payload }) => {
                assert_eq!(payload.id, "e1");
                assert_eq!(payload.body, "hi");
                assert_eq!(payload.seq, 1);
            }
            _ => panic!("expected the cached event"),
        }
    }
    assert!(r.get_last_event("t1", "missing").is_none());
}

#[test]
fn connection_ids_count_up_from_one() {
    let mut ids = ConnIds::new();
    assert_eq!(ConnId::next(&mut ids), ConnId(1));
    assert_eq!(ConnId::next(&mut ids), ConnId(2));
    assert_eq!(ConnId(42).to_display_string(), "conn_42");
}


#[test]
fn connections_are_counted_per_user_and_tenant() {
    let mut r = ConnectionRegistry::new();
    r.register(ConnId(1), "t1".to_string(), "alice".to_string());
    r.register(ConnId(2), "t1".to_string(), "alice".to_string());
    r.register(ConnId(3), "t1".to_string(), "bob".to_string());
    r.register(ConnId(4), "t2".to_string(), "alice".to_string());
    assert_eq!(r.total_connections(), 4);
    assert_eq!(r.user_connection_count("t1", "alice"), 2);
    assert_eq!(r.tenant_connection_count("t1"), 3);
    assert_eq!(r.tenant_connection_count("t2"), 1);
    assert_eq!(r.tenant_connection_count("t3"), 0);
    assert!(r.is_user_online("t1", "bob"));
    assert!(!r.is_user_online("t1", "carol"));
    let mut conns = r.connections_of("t1", "alice");
    conns.sort_by_key(|c| c.0);
    assert_eq!(conns, vec![ConnId(1), ConnId(2)]);
}

#[test]
fn unregister_returns_the_owner_and_drops_empty_users() {
    let mut r = ConnectionRegistry::new();
    r.register(ConnId(1), "t1".to_string(), "alice".to_string());
    r.register(ConnId(2), "t1".to_string(), "alice".to_string());
    assert_eq!(r.unregister(ConnId(1)), Some(("t1".to_string(), "alice".to_string())));
    assert!(r.is_user_online("t1", "alice"));
    assert_eq!(r.unregister(ConnId(2)), Some(("t1".to_string(), "alice".to_string())));
    assert!(!r.is_user_online("t1", "alice"));
    assert_eq!(r.user_connection_count("t1", "alice"), 0);
    assert_eq!(r.unregister(ConnId(2)), None);
    assert_eq!(r.total_connections(), 0);
}

#[test]
fn generations_count_connects() {
    let mut r = ConnectionRegistry::new();
    assert_eq!(r.current_generation("t1", "alice"), 0);
    assert_eq!(r.increment_generation("t1", "alice"), 1);
    assert_eq!(r.increment_generation("t1", "alice"), 2);
    assert_eq!(r.current_generation("t1", "alice"), 2);
    assert_eq!(r.current_generation("t2", "alice"), 0);
}

#[test]
fn watchers_follow_watchlists() {
    let mut r = ConnectionRegistry::new();
    r.set_watchlist("t1", "alice", vec!["bob".to_string(), "carol".to_string()]);
    r.set_watchlist("t1", "dave", vec!["bob".to_string()]);
    assert_eq!(sorted(r.get_watchers("t1", "bob")), vec!["alice".to_string(), "dave".to_string()]);
    assert_eq!(r.get_watchers("t1", "carol"), vec!["alice".to_string()]);
    assert!(r.get_watchers("t2", "bob").is_empty());

    r.set_watchlist("t1", "alice", vec!["erin".to_string()]);
    assert_eq!(r.get_watchers("t1", "bob"), vec!["dave".to_string()]);
    assert!(r.get_watchers("t1", "carol").is_empty());
    assert_eq!(r.get_watchers("t1", "erin"), vec!["alice".to_string()]);

    r.cleanup_watchlist("t1", "dave");
    assert!(r.get_watchers("t1", "bob").is_empty());
    assert_eq!(r.get_watchers("t1", "erin"), vec!["alice".to_string()]);
}

#[test]
fn stream_subscriptions_of_a_connection() {
    let mut r = ConnectionRegistry::new();
    r.register(ConnId(9), "t1".to_string(), "alice".to_string());
    r.add_stream_subscription(ConnId(9), "general");
    r.add_stream_subscription(ConnId(9), "general");
    r.add_stream_subscription(ConnId(9), "random");
    r.remove_stream_subscription(ConnId(9), "general");
    r.add_stream_subscription(ConnId(10), "general");
    assert_eq!(r.total_connections(), 1);
}

#[test]
fn hydrating_a_stored_stream() {
    let mut r = StreamRegistry::new();
    r.hydrate_stream("t1", "s1", 17, true, true, &vec!["bob".to_string(), "alice".to_string()]);
    assert_eq!(r.current_seq("t1", "s1"), 17);
    assert!(r.is_public("t1", "s1"));
    assert!(r.is_archived("t1", "s1"));
    assert_eq!(sorted(r.get_members("t1", "s1")), vec!["alice".to_string(), "bob".to_string()]);

    r.hydrate_stream("t1", "s2", 0, false, false, &vec![]);
    assert!(!r.is_archived("t1", "s2"));
    assert!(r.get_members("t1", "s2").is_empty());
}

use herald::engines::presence::http::{batch_presence, stream_presence, user_presence};
use herald::engines::presence::BatchPresenceQuery;
use herald::presence::PresenceStatus;
use herald::registry::presence::PresenceTracker;

#[test]
fn presence_endpoints_resolve_each_user() {
    let mut tracker = PresenceTracker::new();
    let mut conns = ConnectionRegistry::new();
    let mut streams = StreamRegistry::new();
    conns.register(ConnId(1), "t1".to_string(), "alice".to_string());
    conns.register(ConnId(2), "t1".to_string(), "alice".to_string());
    conns.register(ConnId(3), "t1".to_string(), "carol".to_string());
    tracker.set_manual("t1", "carol", PresenceStatus::Dnd, None, None);
    tracker.stamp_last_seen("t1", "bob", 1234);

    let r = user_presence(&tracker, &mut conns, "t1", "alice", 0);
    assert_eq!((r.user_id.as_str(), r.status, r.connections, r.last_seen_at), ("alice", PresenceStatus::Online, 2, None));
    let r = user_presence(&tracker, &mut conns, "t1", "bob", 0);
    assert_eq!((r.status, r.connections, r.last_seen_at), (PresenceStatus::Offline, 0, Some(1234)));

    streams.create_stream("t1", "s1", 0, false);
    streams.add_member("t1", "s1", "alice");
    streams.add_member("t1", "s1", "carol");
    let mut members = stream_presence(&mut streams, &tracker, &mut conns, "t1", "s1", 0).members;
    members.sort_by(|a, b| a.user_id.cmp(&b.user_id));
    assert_eq!(members.len(), 2);
    assert_eq!((members[0].user_id.as_str(), members[0].status), ("alice", PresenceStatus::Online));
    assert_eq!((members[1].user_id.as_str(), members[1].status), ("carol", PresenceStatus::Dnd));
    assert!(stream_presence(&mut streams, &tracker, &mut conns, "t1", "none", 0).members.is_empty());

    let q = BatchPresenceQuery { user_ids: "bob, alice,,carol".to_string() };
    let users = batch_presence(&tracker, &mut conns, "t1", &q, 0).users;
    let got: Vec<(&str, PresenceStatus, usize)> =
        users.iter().map(|u| (u.user_id.as_str(), u.status, u.connections)).collect();
    assert_eq!(
        got,
        vec![
            ("bob", PresenceStatus::Offline, 0),
            ("alice", PresenceStatus::Online, 2),
            ("carol", PresenceStatus::Dnd, 1)
        ]
    );
}

use herald::engines::presence::lifecycle::{presence_on_connect, presence_on_last_disconnect};

#[test]
fn connect_and_last_disconnect_notices() {
    let mut tracker = PresenceTracker::new();
    let mut conns = ConnectionRegistry::new();

    // bob is online; alice connects watching bob and carol.
    conns.register(ConnId(1), "t1".to_string(), "bob".to_string());
    conns.register(ConnId(2), "t1".to_string(), "alice".to_string());
    let n = presence_on_connect(
        &mut tracker,
        &mut conns,
        "t1",
        "alice",
        vec!["bob".to_string(), "carol".to_string()],
        0,
    );
    match n.to_self {
        Some(ServerMessage::WatchlistOnline { payload }) => assert_eq!(payload.user_ids, vec!["bob".to_string()]),
        _ => panic!("expected the online watched users"),
    }
    assert!(n.to_watchers.is_none());

    // bob reconnects for the first time after alice started watching: alice is told.
    assert_eq!(conns.unregister(ConnId(1)), Some(("t1".to_string(), "bob".to_string())));
    conns.register(ConnId(3), "t1".to_string(), "bob".to_string());
    let n = presence_on_connect(&mut tracker, &mut conns, "t1", "bob", vec![], 0);
    assert!(n.to_self.is_none());
    match n.to_watchers {
        Some((ws, ServerMessage::WatchlistOnline { payload })) => {
            assert_eq!(ws, vec!["alice".to_string()]);
            assert_eq!(payload.user_ids, vec!["bob".to_string()]);
        }
        _ => panic!("expected a notice to alice"),
    }

    // bob's last connection ends: alice is told he went offline.
    assert!(conns.unregister(ConnId(3)).is_some());
    match presence_on_last_disconnect(&mut tracker, &mut conns, "t1", "bob", 99) {
        Some((ws, ServerMessage::WatchlistOffline { payload })) => {
            assert_eq!(ws, vec!["alice".to_string()]);
            assert_eq!(payload.user_ids, vec!["bob".to_string()]);
        }
        _ => panic!("expected an offline notice"),
    }
    assert_eq!(tracker.get_last_seen("t1", "bob"), Some(99));

    // alice leaves: nobody watches her, and her watchlist is dropped.
    assert!(presence_on_last_disconnect(&mut tracker, &mut conns, "t1", "alice", 100).is_none());
    assert!(conns.get_watchers("t1", "bob").is_empty());
}
