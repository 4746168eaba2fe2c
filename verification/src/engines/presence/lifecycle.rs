//! What the presence engine does when a user connects and when their last connection
//! ends: which notices go to whom, and how the watchlists and last-seen times change.
//! Sending the notices is left to the socket layer.
use vstd::prelude::*;
use vstd::string::*;
use crate::engines::presence::{online_watched, filter_online, first_connection_notice, last_disconnect};
use crate::engines::presence::http::connections_of;
use crate::presence::PresenceStatus;
use crate::protocol::{ServerMessage, WatchlistPayload};
use crate::registry::connection::{ConnectionRegistry, holds, listed, distinct_names};
use crate::registry::presence::{PresenceTracker, resolution, user_key};

verus! {

broadcast use vstd::string::group_string_axioms;

/// The connection counts of `users` (tenant `t`) in `c`.
pub open spec fn conn_counts(c: ConnectionRegistry, t: Seq<char>, users: Seq<String>) -> Seq<usize> {
    users.map_values(|w: String| connections_of(c, t, w@) as usize)
}

/// The notices of a connect.
pub struct ConnectNotices {
    /// To the connecting user: the users on their watchlist who are online.
    pub to_self: Option<ServerMessage>,
    /// On the user's first connection, to the users watching them: who they are, and
    /// the notice of the user's presence.
    pub to_watchers: Option<(Vec<String>, ServerMessage)>,
}

/// A user connected (their connection already registered) with the watchlist
/// `watchlist`: a non-empty watchlist is recorded and answered with the watched users
/// who are online; on the user's first connection their last-seen time is cleared and
/// their watchers learn their presence (online, or the manual status that overrides it).
pub fn presence_on_connect(
    tracker: &mut PresenceTracker,
    connections: &mut ConnectionRegistry,
    tenant_id: &str,
    user_id: &str,
    watchlist: Vec<String>,
    now_ms: i64,
) -> (r: ConnectNotices)
    requires
        old(tracker).wf(),
        old(connections).wf(),
    ensures
        final(tracker).wf(),
        final(connections).wf(),
        final(connections).handles() == old(connections).handles(),
        final(connections).user_conns() == old(connections).user_conns(),
        final(connections).generations() == old(connections).generations(),
        watchlist@.len() > 0 ==> final(connections).watchlists() == old(connections).watchlists().insert(
            (tenant_id@, user_id@),
            watchlist,
        ),
        watchlist@.len() == 0 ==> final(connections).watchlists() == old(connections).watchlists(),
        final(tracker).overrides() == old(tracker).overrides(),
        connections_of(*old(connections), tenant_id@, user_id@) == 1 ==> final(tracker).last_seen()
            == old(tracker).last_seen().remove(user_key(tenant_id@, user_id@)),
        connections_of(*old(connections), tenant_id@, user_id@) != 1 ==> final(tracker).last_seen()
            == old(tracker).last_seen(),
        ({
            let online = filter_online(
                old(tracker).overrides(),
                old(tracker).last_seen(),
                tenant_id@,
                watchlist@,
                conn_counts(*old(connections), tenant_id@, watchlist@),
                now_ms,
            );
            match r.to_self {
                Some(m) => online.len() > 0 && (m matches ServerMessage::WatchlistOnline { payload }
                    && payload.user_ids@.map_values(|s: String| s@) == online),
                None => online.len() == 0,
            }
        }),
        match r.to_watchers {
            Some((ws, m)) => {
                let p = resolution(
                    final(tracker).overrides(),
                    final(tracker).last_seen(),
                    user_key(tenant_id@, user_id@),
                    1,
                    now_ms,
                );
                &&& connections_of(*old(connections), tenant_id@, user_id@) == 1
                &&& ws@.len() > 0
                &&& distinct_names(ws)
                &&& forall|w: Seq<char>| #[trigger]
                    listed(ws, w) == holds(final(connections).watchlists(), tenant_id@, w, user_id@)
                &&& p.0 == PresenceStatus::Online ==> (m matches ServerMessage::WatchlistOnline {
                    payload,
                } && payload.user_ids@.len() == 1 && payload.user_ids@[0]@ == user_id@)
                &&& p.0 != PresenceStatus::Online ==> (m matches ServerMessage::PresenceChanged {
                    payload,
                } && payload.user_id@ == user_id@ && payload.presence == p.0)
            },
            None => connections_of(*old(connections), tenant_id@, user_id@) != 1 || forall|w: Seq<char>|
                !#[trigger] holds(final(connections).watchlists(), tenant_id@, w, user_id@),
        },
{
    let mut counts: Vec<usize> = Vec::new();
    let mut i: usize = 0;
    while i < watchlist.len()
        invariant
            connections.wf(),
            connections.same_as(*old(connections)),
            i <= watchlist@.len(),
            counts@.len() == i,
            forall|j: int|
                0 <= j < i ==> #[trigger] counts@[j] == connections_of(
                    *old(connections),
                    tenant_id@,
                    watchlist@[j]@,
                ) as usize,
        decreases watchlist@.len() - i,
    {
        let n = connections.user_connection_count(tenant_id, watchlist[i].as_str());
        counts.push(n);
        i += 1;
    }
    assert(counts@ =~= conn_counts(*old(connections), tenant_id@, watchlist@));
    let online = online_watched(tracker, tenant_id, &watchlist, &counts, now_ms);
    let to_self = if watchlist.len() > 0 && online.len() > 0 {
        Some(ServerMessage::WatchlistOnline { payload: WatchlistPayload { user_ids: online } })
    } else {
        None
    };
    proof {
        if watchlist@.len() == 0 {
            assert(watchlist@ =~= Seq::<String>::empty());
        }
    }
    if watchlist.len() > 0 {
        connections.set_watchlist(tenant_id, user_id, watchlist);
    }
    let own = connections.user_connection_count(tenant_id, user_id);
    let to_watchers = if own == 1 {
        tracker.clear_last_seen(tenant_id, user_id);
        let resolved = tracker.resolve_at(tenant_id, user_id, 1, now_ms);
        let watchers = connections.get_watchers(tenant_id, user_id);
        if watchers.len() > 0 {
            Some((watchers, first_connection_notice(user_id, &resolved)))
        } else {
            proof {
                assert forall|w: Seq<char>|
                    !#[trigger] holds(connections.watchlists(), tenant_id@, w, user_id@) by {
                    if holds(connections.watchlists(), tenant_id@, w, user_id@) {
                        assert(listed(watchers, w));
                    }
                }
            }
            None
        }
    } else {
        None
    };
    ConnectNotices { to_self, to_watchers }
}

/// A user's last connection ended: their last-seen time is stamped `now_ms`, their
/// watchers (if any) are to be told they went offline, and their own watchlist is
/// dropped.
pub fn presence_on_last_disconnect(
    tracker: &mut PresenceTracker,
    connections: &mut ConnectionRegistry,
    tenant_id: &str,
    user_id: &str,
    now_ms: i64,
) -> (r: Option<(Vec<String>, ServerMessage)>)
    requires
        old(tracker).wf(),
        old(connections).wf(),
    ensures
        final(tracker).wf(),
        final(connections).wf(),
        final(tracker).overrides() == old(tracker).overrides(),
        final(tracker).last_seen() == old(tracker).last_seen().insert(
            user_key(tenant_id@, user_id@),
            now_ms,
        ),
        final(connections).handles() == old(connections).handles(),
        final(connections).user_conns() == old(connections).user_conns(),
        final(connections).generations() == old(connections).generations(),
        final(connections).watchlists() == old(connections).watchlists().remove((tenant_id@, user_id@)),
        match r {
            Some((ws, m)) => {
                &&& ws@.len() > 0
                &&& distinct_names(ws)
                &&& forall|w: Seq<char>| #[trigger]
                    listed(ws, w) == holds(old(connections).watchlists(), tenant_id@, w, user_id@)
                &&& m matches ServerMessage::WatchlistOffline { payload } && payload.user_ids@.len() == 1
                    && payload.user_ids@[0]@ == user_id@
            },
            None => forall|w: Seq<char>|
                !#[trigger] holds(old(connections).watchlists(), tenant_id@, w, user_id@),
        },
{
    let msg = last_disconnect(tracker, tenant_id, user_id, now_ms);
    let watchers = connections.get_watchers(tenant_id, user_id);
    connections.cleanup_watchlist(tenant_id, user_id);
    if watchers.len() > 0 {
        Some((watchers, msg))
    } else {
        proof {
            assert forall|w: Seq<char>|
                !#[trigger] holds(old(connections).watchlists(), tenant_id@, w, user_id@) by {
                if holds(old(connections).watchlists(), tenant_id@, w, user_id@) {
                    assert(listed(watchers, w));
                }
            }
        }
        None
    }
}

} // verus!
