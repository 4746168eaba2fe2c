//! The presence engine: manual presence overrides, watchlists, and presence broadcast.
pub mod ws_handler;
pub mod http;
pub mod lifecycle;

use vstd::prelude::*;
use vstd::string::*;
use crate::engine::TimerTask;
use crate::presence::PresenceStatus;
use crate::protocol::{ServerMessage, PresenceChangedPayload, WatchlistPayload};
use crate::registry::presence::{
    PresenceTracker, PersistedOverride, ResolvedPresence, resolution, user_key, opt_text,
    ManualOverride,
};
use crate::text::{
    chars_of, copy_str, range_to_string, trim, trim_bounds, split_on, has_char,
    lemma_split_on_append, lemma_split_on_free,
};
use crate::engines::presence::ws_handler::{parse_iso8601_millis, iso8601_overflows, iso8601_millis};

verus! {

broadcast use vstd::string::group_string_axioms;

/// How often expired overrides are swept, in seconds.
pub const OVERRIDE_SWEEP_SECS: u64 = 30;

/// The presence engine.
pub struct PresenceEngine;

impl PresenceEngine {
    pub fn new() -> (e: PresenceEngine) {
        PresenceEngine
    }

    /// The engine's name.
    pub fn name(&self) -> (s: &'static str)
        ensures
            s@ == "presence"@,
    {
        "presence"
    }

    /// The storage namespaces the engine uses.
    pub fn namespaces(&self) -> (v: Vec<&'static str>)
        ensures
            v@.len() == 1,
            v@[0]@ == "herald.presence_overrides"@,
    {
        vec!["herald.presence_overrides"]
    }

    /// The engine's background task: sweeping expired manual overrides every
    /// `OVERRIDE_SWEEP_SECS` seconds.
    pub fn timers(&self) -> (v: Vec<TimerTask>)
        ensures
            v@.len() == 1,
            v@[0].label@ == "presence:override-expiry"@,
            v@[0].interval_secs == OVERRIDE_SWEEP_SECS,
    {
        vec![TimerTask { label: "presence:override-expiry", interval_secs: OVERRIDE_SWEEP_SECS }]
    }
}

/// The query of `GET /presence`: comma-separated user ids.
pub struct BatchPresenceQuery {
    pub user_ids: String,
}

/// The body of `POST /presence/{user_id}`.
pub struct AdminSetPresenceRequest {
    pub status: PresenceStatus,
}

/// The non-empty pieces of `pieces`, each trimmed, in order.
pub open spec fn nonempty_trimmed(pieces: Seq<Seq<char>>) -> Seq<Seq<char>>
    decreases pieces.len(),
{
    if pieces.len() == 0 {
        Seq::empty()
    } else {
        let r = nonempty_trimmed(pieces.drop_last());
        if pieces.last().len() > 0 {
            r.push(trim(pieces.last()))
        } else {
            r
        }
    }
}

/// The user ids of a batch query: the non-empty comma-separated pieces, trimmed.
pub open spec fn batch_ids(s: Seq<char>) -> Seq<Seq<char>> {
    nonempty_trimmed(split_on(s, ','))
}

proof fn lemma_batch_step(v: Seq<char>, start: int, i: int)
    requires
        0 <= start <= i <= v.len(),
        forall|j: int| start <= j < i ==> v[j] != ',',
        start > 0 ==> v[start - 1] == ',',
    ensures
        nonempty_trimmed(split_on(v.subrange(0, i), ',')) == ({
            let before = if start == 0 {
                Seq::<Seq<char>>::empty()
            } else {
                nonempty_trimmed(split_on(v.subrange(0, start - 1), ','))
            };
            let t = v.subrange(start, i);
            if t.len() > 0 {
                before.push(trim(t))
            } else {
                before
            }
        }),
{
    let t = v.subrange(start, i);
    assert(!has_char(t, ',')) by {
        if has_char(t, ',') {
            let j = choose|j: int| 0 <= j < t.len() && t[j] == ',';
            assert(v[start + j] == ',');
        }
    }
    if start == 0 {
        lemma_split_on_free(t, ',');
        assert(v.subrange(0, i) =~= t);
        assert(seq![t].drop_last() =~= Seq::<Seq<char>>::empty());
        assert(seq![t].last() == t);
        assert(nonempty_trimmed(Seq::<Seq<char>>::empty()) == Seq::<Seq<char>>::empty());
        assert(nonempty_trimmed(seq![t]) == (if t.len() > 0 {
            Seq::<Seq<char>>::empty().push(trim(t))
        } else {
            Seq::<Seq<char>>::empty()
        }));
    } else {
        let a = v.subrange(0, start - 1);
        lemma_split_on_append(a, t, ',');
        assert(v.subrange(0, i) =~= a + seq![','] + t);
        assert((split_on(a, ',') + seq![t]).drop_last() =~= split_on(a, ','));
        assert((split_on(a, ',') + seq![t]).last() == t);
        let x = split_on(a, ',') + seq![t];
        assert(nonempty_trimmed(x) == (if t.len() > 0 {
            nonempty_trimmed(split_on(a, ',')).push(trim(t))
        } else {
            nonempty_trimmed(split_on(a, ','))
        }));
    }
}

impl BatchPresenceQuery {
    /// The user ids asked for.
    pub fn ids(&self) -> (r: Vec<String>)
        ensures
            r@.map_values(|s: String| s@) == batch_ids(self.user_ids@),
    {
        let v = chars_of(self.user_ids.as_str());
        let mut out: Vec<String> = Vec::new();
        let mut start: usize = 0;
        let mut i: usize = 0;
        while i < v.len()
            invariant
                v@ == self.user_ids@,
                0 <= start <= i <= v@.len(),
                forall|j: int| start <= j < i ==> v@[j] != ',',
                start > 0 ==> v@[start - 1] == ',',
                out@.map_values(|s: String| s@) == (if start == 0 {
                    Seq::<Seq<char>>::empty()
                } else {
                    nonempty_trimmed(split_on(v@.subrange(0, start - 1), ','))
                }),
            decreases v@.len() - i,
        {
            if v[i] == ',' {
                proof {
                    lemma_batch_step(v@, start as int, i as int);
                }
                push_piece(&mut out, &v, start, i);
                start = i + 1;
            }
            i += 1;
        }
        proof {
            lemma_batch_step(v@, start as int, v@.len() as int);
        }
        push_piece(&mut out, &v, start, v.len());
        assert(v@.subrange(0, v@.len() as int) =~= v@);
        out
    }
}

fn push_piece(out: &mut Vec<String>, v: &Vec<char>, lo: usize, hi: usize)
    requires
        lo <= hi <= v@.len(),
    ensures
        final(out)@.map_values(|s: String| s@) == if hi > lo {
            old(out)@.map_values(|s: String| s@).push(trim(v@.subrange(lo as int, hi as int)))
        } else {
            old(out)@.map_values(|s: String| s@)
        },
{
    if hi > lo {
        let piece = range_to_string(v, lo, hi);
        let w = chars_of(piece.as_str());
        let (a, b) = trim_bounds(&w);
        let t = range_to_string(&w, a, b);
        let ghost prev = out@;
        out.push(t);
        assert(out@.map_values(|s: String| s@) =~= prev.map_values(|s: String| s@).push(
            trim(v@.subrange(lo as int, hi as int)),
        ));
    }
}

/// What setting a manual status leaves to the handler: the override to persist
/// (`None`: remove the persisted one), and the `presence.changed` frame for watchers.
pub struct PresenceSetOutcome {
    pub persist: Option<PersistedOverride>,
    pub frame: ServerMessage,
}

/// A user sets a manual status, with an optional ISO 8601 expiry `until`: the tracker
/// records it (its expiry read as Unix milliseconds; an unreadable one never expires),
/// a non-`Online` status is persisted and `Online` removes the persisted one.
pub fn presence_set(
    tracker: &mut PresenceTracker,
    tenant_id: &str,
    user_id: &str,
    status: PresenceStatus,
    until: Option<String>,
) -> (r: PresenceSetOutcome)
    requires
        old(tracker).wf(),
        until matches Some(u) ==> !iso8601_overflows(u@),
    ensures
        final(tracker).wf(),
        final(tracker).last_seen() == old(tracker).last_seen(),
        ({
            let until_ms = match until {
                Some(u) => match iso8601_millis(u@) {
                    Some(x) => Some(x as i64),
                    None => None,
                },
                None => None,
            };
            &&& final(tracker).overrides() == if status == PresenceStatus::Online {
                old(tracker).overrides().remove(user_key(tenant_id@, user_id@))
            } else {
                old(tracker).overrides().insert(
                    user_key(tenant_id@, user_id@),
                    ManualOverride { status, expires_at_ms: until_ms, until_iso: until },
                )
            }
            &&& status == PresenceStatus::Online ==> r.persist is None
            &&& status != PresenceStatus::Online ==> (r.persist matches Some(po) && po.tenant_id@
                == tenant_id@ && po.user_id@ == user_id@ && po.status == status && po.expires_at_ms
                == until_ms && opt_text(po.until_iso) == opt_text(until))
        }),
        r.frame matches ServerMessage::PresenceChanged { payload } && payload.user_id@ == user_id@
            && payload.presence == status,
{
    let until_ms = match &until {
        Some(u) => parse_iso8601_millis(u.as_str()),
        None => None,
    };
    let until_copy = match &until {
        Some(u) => Some(copy_str(u.as_str())),
        None => None,
    };
    tracker.set_manual(tenant_id, user_id, status, until_ms, until);
    let persist = if status == PresenceStatus::Online {
        None
    } else {
        Some(
            PersistedOverride {
                tenant_id: copy_str(tenant_id),
                user_id: copy_str(user_id),
                status,
                expires_at_ms: until_ms,
                until_iso: until_copy,
            },
        )
    };
    let frame = ServerMessage::PresenceChanged {
        payload: PresenceChangedPayload { user_id: copy_str(user_id), presence: status },
    };
    PresenceSetOutcome { persist, frame }
}

/// The watched users to report online to a user who just connected: those of
/// `watchlist` whose presence (with `counts[i]` open connections) resolves to `Online`
/// at `now`, in order.
pub fn online_watched(
    tracker: &PresenceTracker,
    tenant_id: &str,
    watchlist: &Vec<String>,
    counts: &Vec<usize>,
    now_ms: i64,
) -> (r: Vec<String>)
    requires
        tracker.wf(),
        counts@.len() == watchlist@.len(),
    ensures
        r@.map_values(|s: String| s@) == filter_online(
            tracker.overrides(),
            tracker.last_seen(),
            tenant_id@,
            watchlist@,
            counts@,
            now_ms,
        ),
{
    let mut out: Vec<String> = Vec::new();
    let mut i: usize = 0;
    while i < watchlist.len()
        invariant
            tracker.wf(),
            counts@.len() == watchlist@.len(),
            i <= watchlist@.len(),
            out@.map_values(|s: String| s@) == filter_online(
                tracker.overrides(),
                tracker.last_seen(),
                tenant_id@,
                watchlist@.take(i as int),
                counts@.take(i as int),
                now_ms,
            ),
        decreases watchlist@.len() - i,
    {
        let uid = watchlist[i].as_str();
        let resolved = tracker.resolve_at(tenant_id, uid, counts[i], now_ms);
        proof {
            assert(watchlist@.take(i + 1).drop_last() =~= watchlist@.take(i as int));
            assert(counts@.take(i + 1).drop_last() =~= counts@.take(i as int));
        }
        let ghost prev = out@;
        if resolved.status == PresenceStatus::Online {
            out.push(copy_str(uid));
            assert(out@.map_values(|s: String| s@) =~= prev.map_values(|s: String| s@).push(uid@));
        }
        i += 1;
    }
    proof {
        assert(watchlist@.take(watchlist@.len() as int) =~= watchlist@);
        assert(counts@.take(counts@.len() as int) =~= counts@);
    }
    out
}

/// The ids of `users` whose presence resolves to `Online`, in order.
pub open spec fn filter_online(
    overrides: Map<Seq<Seq<char>>, ManualOverride>,
    last_seen: Map<Seq<Seq<char>>, i64>,
    tenant_id: Seq<char>,
    users: Seq<String>,
    counts: Seq<usize>,
    now_ms: i64,
) -> Seq<Seq<char>>
    decreases users.len(),
{
    if users.len() == 0 || counts.len() != users.len() {
        Seq::empty()
    } else {
        let r = filter_online(
            overrides,
            last_seen,
            tenant_id,
            users.drop_last(),
            counts.drop_last(),
            now_ms,
        );
        if resolution(
            overrides,
            last_seen,
            user_key(tenant_id, users.last()@),
            counts.last() as nat,
            now_ms,
        ).0 == PresenceStatus::Online {
            r.push(users.last()@)
        } else {
            r
        }
    }
}

/// The frame sent to a user's watchers when the user's first connection opens: online
/// when the user resolves to online, else the resolved status.
pub fn first_connection_notice(user_id: &str, resolved: &ResolvedPresence) -> (m: ServerMessage)
    ensures
        resolved.status == PresenceStatus::Online ==> (m matches ServerMessage::WatchlistOnline {
            payload,
        } && payload.user_ids@.len() == 1 && payload.user_ids@[0]@ == user_id@),
        resolved.status != PresenceStatus::Online ==> (m matches ServerMessage::PresenceChanged {
            payload,
        } && payload.user_id@ == user_id@ && payload.presence == resolved.status),
{
    if resolved.status == PresenceStatus::Online {
        ServerMessage::WatchlistOnline { payload: WatchlistPayload { user_ids: vec![copy_str(user_id)] } }
    } else {
        ServerMessage::PresenceChanged {
            payload: PresenceChangedPayload { user_id: copy_str(user_id), presence: resolved.status },
        }
    }
}

/// A user's last connection closed at `now`: the last-seen time is stamped and the
/// watchers are told the user went offline.
pub fn last_disconnect(tracker: &mut PresenceTracker, tenant_id: &str, user_id: &str, now_ms: i64) -> (m:
    ServerMessage)
    requires
        old(tracker).wf(),
    ensures
        final(tracker).wf(),
        final(tracker).overrides() == old(tracker).overrides(),
        final(tracker).last_seen() == old(tracker).last_seen().insert(
            user_key(tenant_id@, user_id@),
            now_ms,
        ),
        m matches ServerMessage::WatchlistOffline { payload } && payload.user_ids@.len() == 1
            && payload.user_ids@[0]@ == user_id@,
{
    tracker.stamp_last_seen(tenant_id, user_id, now_ms);
    ServerMessage::WatchlistOffline { payload: WatchlistPayload { user_ids: vec![copy_str(user_id)] } }
}

} // verus!
