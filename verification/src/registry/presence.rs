//! Manual presence overrides and last-seen times, per `(tenant, user)`.
//!
//! A manual override (away, do-not-disturb, offline) wins over the presence derived
//! from connections until it expires; setting `online` clears it. A user with no active
//! override is online while connected, else offline with the time of the last disconnect.
use vstd::prelude::*;
use vstd::string::*;
use crate::clock::now_millis;
use crate::presence::PresenceStatus;
use crate::registry::table::{Table, pair_key, key_view, entries_map, keys_unique, lemma_entries_map, lemma_map_len};
use crate::text::copy_str;

verus! {

broadcast use vstd::string::group_string_axioms;

/// A manual presence override, with its expiry (Unix milliseconds; `None`: none) and the
/// ISO 8601 text of that expiry, passed through to clients.
pub struct ManualOverride {
    pub status: PresenceStatus,
    pub expires_at_ms: Option<i64>,
    pub until_iso: Option<String>,
}

/// The view of an optional string.
pub open spec fn opt_text(s: Option<String>) -> Option<Seq<char>> {
    match s {
        Some(s) => Some(s@),
        None => None,
    }
}

/// Whether an override is still in force at `now`.
pub open spec fn override_active(ov: ManualOverride, now_ms: i64) -> bool {
    match ov.expires_at_ms {
        Some(exp) => now_ms < exp,
        None => true,
    }
}

/// The key of `(tenant, user)`.
pub open spec fn user_key(tenant_id: Seq<char>, user_id: Seq<char>) -> Seq<Seq<char>> {
    seq![tenant_id, user_id]
}

/// Whether `r` lists, each once, exactly the `(tenant, user)` pairs of the overrides in
/// `m` that have expired at `now`.
pub open spec fn swept_pairs(
    m: Map<Seq<Seq<char>>, ManualOverride>,
    r: Seq<(String, String)>,
    now_ms: i64,
) -> bool {
    &&& forall|i: int|
        0 <= i < r.len() ==> m.contains_key(user_key(r[i].0@, r[i].1@)) && !override_active(
            m[user_key(r[i].0@, r[i].1@)],
            now_ms,
        )
    &&& forall|k: Seq<Seq<char>>|
        m.contains_key(k) && !override_active(m[k], now_ms) ==> exists|i: int|
            0 <= i < r.len() && user_key(r[i].0@, r[i].1@) == k
    &&& forall|i: int, j: int|
        0 <= i < r.len() && 0 <= j < r.len() && i != j ==> user_key(#[trigger] r[i].0@, r[i].1@)
            != user_key(#[trigger] r[j].0@, r[j].1@)
}

/// The overrides of `m` still in force at `now`.
pub open spec fn unexpired(m: Map<Seq<Seq<char>>, ManualOverride>, now_ms: i64) -> Map<
    Seq<Seq<char>>,
    ManualOverride,
> {
    Map::new(|k: Seq<Seq<char>>| m.contains_key(k) && override_active(m[k], now_ms), |k| m[k])
}

/// Effective presence, with the expiry of an override and the last-seen time of an
/// offline user.
pub struct ResolvedPresence {
    pub status: PresenceStatus,
    pub until: Option<String>,
    pub last_seen_at: Option<i64>,
}

/// The presence of the user with key `k`, who has `connections` open connections, at `now`.
pub open spec fn resolution(
    overrides: Map<Seq<Seq<char>>, ManualOverride>,
    last_seen: Map<Seq<Seq<char>>, i64>,
    k: Seq<Seq<char>>,
    connections: nat,
    now_ms: i64,
) -> (PresenceStatus, Option<Seq<char>>, Option<i64>) {
    if overrides.contains_key(k) && override_active(overrides[k], now_ms) {
        (overrides[k].status, opt_text(overrides[k].until_iso), None)
    } else if connections > 0 {
        (PresenceStatus::Online, None, None)
    } else {
        (
            PresenceStatus::Offline,
            None,
            if last_seen.contains_key(k) {
                Some(last_seen[k])
            } else {
                None
            },
        )
    }
}

/// An override as persisted.
pub struct PersistedOverride {
    pub tenant_id: String,
    pub user_id: String,
    pub status: PresenceStatus,
    pub expires_at_ms: Option<i64>,
    pub until_iso: Option<String>,
}

/// A last-seen time as persisted.
pub struct PersistedLastSeen {
    pub tenant_id: String,
    pub user_id: String,
    pub last_seen_at_ms: i64,
}

/// The user of a persisted override.
pub open spec fn override_user(po: PersistedOverride) -> Seq<Seq<char>> {
    user_key(po.tenant_id@, po.user_id@)
}

/// The user of a persisted last-seen time.
pub open spec fn last_seen_user(e: PersistedLastSeen) -> Seq<Seq<char>> {
    user_key(e.tenant_id@, e.user_id@)
}

/// The override that a persisted one stands for.
pub open spec fn override_of(po: PersistedOverride) -> ManualOverride {
    ManualOverride { status: po.status, expires_at_ms: po.expires_at_ms, until_iso: po.until_iso }
}

/// Whether `r` is a dump of the overrides `m`: one entry per user of `m`, each as `m`
/// holds it.
pub open spec fn override_dump(m: Map<Seq<Seq<char>>, ManualOverride>, r: Seq<PersistedOverride>) -> bool {
    &&& r.len() == m.dom().len()
    &&& forall|i: int|
        #![trigger r[i]]
        0 <= i < r.len() ==> m.contains_key(override_user(r[i])) && m[override_user(r[i])]
            == override_of(r[i])
    &&& forall|i: int, j: int|
        0 <= i < r.len() && 0 <= j < r.len() && i != j ==> override_user(#[trigger] r[i])
            != override_user(#[trigger] r[j])
}

/// Whether `r` is a dump of the last-seen times `m`: one entry per user of `m`, each with
/// the time `m` holds.
pub open spec fn last_seen_dump(m: Map<Seq<Seq<char>>, i64>, r: Seq<PersistedLastSeen>) -> bool {
    &&& r.len() == m.dom().len()
    &&& forall|i: int|
        #![trigger r[i]]
        0 <= i < r.len() ==> m.contains_key(last_seen_user(r[i])) && m[last_seen_user(r[i])]
            == r[i].last_seen_at_ms
    &&& forall|i: int, j: int|
        0 <= i < r.len() && 0 <= j < r.len() && i != j ==> last_seen_user(#[trigger] r[i])
            != last_seen_user(#[trigger] r[j])
}

/// The overrides after setting the manual status of the user `k`: `Online` clears the
/// user's override; the other statuses set it.
pub open spec fn manual_set(
    m: Map<Seq<Seq<char>>, ManualOverride>,
    k: Seq<Seq<char>>,
    status: PresenceStatus,
    expires_at_ms: Option<i64>,
    until_iso: Option<String>,
) -> Map<Seq<Seq<char>>, ManualOverride> {
    if status == PresenceStatus::Online {
        m.remove(k)
    } else {
        m.insert(k, ManualOverride { status, expires_at_ms, until_iso })
    }
}

/// The entries of an override dump as `(user, override)` pairs, counted.
pub open spec fn dump_entries(r: Seq<PersistedOverride>) -> vstd::multiset::Multiset<(Seq<Seq<char>>, ManualOverride)> {
    r.map_values(|po: PersistedOverride| (override_user(po), override_of(po))).to_multiset()
}

/// How often the pair `x` is an entry of the overrides `m`: once if `m` holds it, else never.
pub open spec fn entry_count(m: Map<Seq<Seq<char>>, ManualOverride>, x: (Seq<Seq<char>>, ManualOverride)) -> nat {
    if m.contains_key(x.0) && m[x.0] == x.1 {
        1
    } else {
        0
    }
}

/// The overrides after loading `list` at `now`, in order, skipping the expired ones.
pub open spec fn overrides_after_load(
    m: Map<Seq<Seq<char>>, ManualOverride>,
    list: Seq<PersistedOverride>,
    now_ms: i64,
) -> Map<Seq<Seq<char>>, ManualOverride>
    decreases list.len(),
{
    if list.len() == 0 {
        m
    } else {
        let before = overrides_after_load(m, list.drop_last(), now_ms);
        let po = list.last();
        if po.expires_at_ms matches Some(exp) && now_ms >= exp {
            before
        } else {
            before.insert(
                user_key(po.tenant_id@, po.user_id@),
                ManualOverride {
                    status: po.status,
                    expires_at_ms: po.expires_at_ms,
                    until_iso: po.until_iso,
                },
            )
        }
    }
}

/// The last-seen times after loading `list`, in order.
pub open spec fn last_seen_after_load(
    m: Map<Seq<Seq<char>>, i64>,
    list: Seq<PersistedLastSeen>,
) -> Map<Seq<Seq<char>>, i64>
    decreases list.len(),
{
    if list.len() == 0 {
        m
    } else {
        let e = list.last();
        last_seen_after_load(m, list.drop_last()).insert(
            user_key(e.tenant_id@, e.user_id@),
            e.last_seen_at_ms,
        )
    }
}

/// Whether every key of `m` is a `(tenant, user)` pair.
pub open spec fn pair_keys<V>(m: Map<Seq<Seq<char>>, V>) -> bool {
    forall|k: Seq<Seq<char>>| #[trigger] m.contains_key(k) ==> k.len() == 2
}

/// Overrides and last-seen times of the users of all tenants.
pub struct PresenceTracker {
    overrides: Table<ManualOverride>,
    last_seen: Table<i64>,
}

fn clone_opt(s: &Option<String>) -> (r: Option<String>)
    ensures
        r == *s,
{
    match s {
        Some(s) => Some(s.clone()),
        None => None,
    }
}

fn split_pair(k: &Vec<String>) -> (r: (String, String))
    requires
        key_view(*k).len() == 2,
    ensures
        user_key(r.0@, r.1@) == key_view(*k),
{
    let a = copy_str(k[0].as_str());
    let b = copy_str(k[1].as_str());
    assert(user_key(a@, b@) =~= key_view(*k));
    (a, b)
}

impl PresenceTracker {
    /// The overrides, by `(tenant, user)`.
    pub closed spec fn overrides(&self) -> Map<Seq<Seq<char>>, ManualOverride> {
        self.overrides@
    }

    /// The last-seen times, by `(tenant, user)`.
    pub closed spec fn last_seen(&self) -> Map<Seq<Seq<char>>, i64> {
        self.last_seen@
    }

    pub closed spec fn wf(&self) -> bool {
        &&& self.overrides.wf()
        &&& self.last_seen.wf()
        &&& pair_keys(self.overrides@)
        &&& pair_keys(self.last_seen@)
    }

    pub fn new() -> (t: PresenceTracker)
        ensures
            t.wf(),
            t.overrides() == Map::<Seq<Seq<char>>, ManualOverride>::empty(),
            t.last_seen() == Map::<Seq<Seq<char>>, i64>::empty(),
    {
        PresenceTracker { overrides: Table::new(), last_seen: Table::new() }
    }

    /// Sets a manual override: `Online` clears the user's override; the other statuses
    /// set it, with an optional expiry.
    pub fn set_manual(
        &mut self,
        tenant_id: &str,
        user_id: &str,
        status: PresenceStatus,
        expires_at_ms: Option<i64>,
        until_iso: Option<String>,
    )
        requires
            old(self).wf(),
        ensures
            final(self).wf(),
            final(self).last_seen() == old(self).last_seen(),
            final(self).overrides() == manual_set(
                old(self).overrides(),
                user_key(tenant_id@, user_id@),
                status,
                expires_at_ms,
                until_iso,
            ),
    {
        let key = pair_key(tenant_id, user_id);
        if status == PresenceStatus::Online {
            let _ = self.overrides.remove(&key);
        } else {
            self.overrides.insert(key, ManualOverride { status, expires_at_ms, until_iso });
        }
    }

    /// The effective presence of a user with `connection_count` open connections, at `now`.
    pub fn resolve_at(&self, tenant_id: &str, user_id: &str, connection_count: usize, now_ms: i64) -> (r:
        ResolvedPresence)
        requires
            self.wf(),
        ensures
            (r.status, opt_text(r.until), r.last_seen_at) == resolution(
                self.overrides(),
                self.last_seen(),
                user_key(tenant_id@, user_id@),
                connection_count as nat,
                now_ms,
            ),
    {
        let key = pair_key(tenant_id, user_id);
        match self.overrides.get(&key) {
            Some(ov) => {
                let expired = match ov.expires_at_ms {
                    Some(exp) => now_ms >= exp,
                    None => false,
                };
                if !expired {
                    return ResolvedPresence {
                        status: ov.status,
                        until: clone_opt(&ov.until_iso),
                        last_seen_at: None,
                    };
                }
            },
            None => {},
        }
        if connection_count > 0 {
            ResolvedPresence { status: PresenceStatus::Online, until: None, last_seen_at: None }
        } else {
            let last_seen_at = match self.last_seen.get(&key) {
                Some(t) => Some(*t),
                None => None,
            };
            ResolvedPresence { status: PresenceStatus::Offline, until: None, last_seen_at }
        }
    }

    /// The effective presence on the current clock (`max_ttl_secs` is not used).
    pub fn resolve(&self, tenant_id: &str, user_id: &str, connection_count: usize, max_ttl_secs: u64) -> (r:
        ResolvedPresence)
        requires
            self.wf(),
        ensures
            exists|now_ms: i64|
                (r.status, opt_text(r.until), r.last_seen_at) == resolution(
                    self.overrides(),
                    self.last_seen(),
                    user_key(tenant_id@, user_id@),
                    connection_count as nat,
                    now_ms,
                ),
    {
        let now = now_millis();
        self.resolve_at(tenant_id, user_id, connection_count, now)
    }

    /// The effective status on the current clock.
    pub fn resolve_status(&self, tenant_id: &str, user_id: &str, connection_count: usize, max_ttl_secs: u64) -> (s:
        PresenceStatus)
        requires
            self.wf(),
        ensures
            exists|now_ms: i64|
                s == resolution(
                    self.overrides(),
                    self.last_seen(),
                    user_key(tenant_id@, user_id@),
                    connection_count as nat,
                    now_ms,
                ).0,
    {
        self.resolve(tenant_id, user_id, connection_count, max_ttl_secs).status
    }

    /// Removes the overrides that have expired at `now`, handing back their
    /// `(tenant, user)` pairs.
    pub fn sweep_expired_at(&mut self, now_ms: i64) -> (r: Vec<(String, String)>)
        requires
            old(self).wf(),
        ensures
            final(self).wf(),
            final(self).last_seen() == old(self).last_seen(),
            final(self).overrides() == unexpired(old(self).overrides(), now_ms),
            swept_pairs(old(self).overrides(), r@, now_ms),
    {
        let ghost keep = |k: Seq<Seq<char>>, ov: ManualOverride| override_active(ov, now_ms);
        let mut mask: Vec<bool> = Vec::new();
        let mut m: usize = 0;
        while m < self.overrides.entry_count()
            invariant
                m <= self.overrides.entries().len(),
                mask@.len() == m,
                forall|k: Seq<Seq<char>>, ov: ManualOverride|
                    #[trigger] keep(k, ov) == override_active(ov, now_ms),
                forall|j: int|
                    0 <= j < m ==> mask@[j] == keep(
                        key_view(#[trigger] self.overrides.entries()[j].0),
                        self.overrides.entries()[j].1,
                    ),
            decreases self.overrides.entries().len() - m,
        {
            let e = self.overrides.entry(m);
            let active = match e.1.expires_at_ms {
                Some(exp) => now_ms < exp,
                None => true,
            };
            assert(active == keep(key_view(e.0), e.1));
            mask.push(active);
            m += 1;
        }
        let removed = self.overrides.retain_mask(mask, Ghost(keep));
        let mut out: Vec<(String, String)> = Vec::new();
        let mut i: usize = 0;
        while i < removed.len()
            invariant
                i <= removed@.len(),
                out@.len() == i,
                pair_keys(old(self).overrides()),
                keys_unique(removed@),
                forall|x: (Vec<String>, ManualOverride)|
                    #[trigger] removed@.contains(x) ==> old(self).overrides().contains_key(
                        key_view(x.0),
                    ) && old(self).overrides()[key_view(x.0)] == x.1 && !keep(key_view(x.0), x.1),
                forall|j: int|
                    0 <= j < i ==> user_key(out@[j].0@, out@[j].1@) == key_view(removed@[j].0),
            decreases removed@.len() - i,
        {
            assert(removed@.contains(removed@[i as int]));
            let p = split_pair(&removed[i].0);
            out.push(p);
            i += 1;
        }
        proof {
            assert forall|i: int, j: int|
                0 <= i < out@.len() && 0 <= j < out@.len() && i != j implies user_key(
                    #[trigger] out@[i].0@,
                    out@[i].1@,
                ) != user_key(#[trigger] out@[j].0@, out@[j].1@) by {
                assert(key_view(removed@[i].0) != key_view(removed@[j].0));
            }
            assert(self.overrides() =~= unexpired(old(self).overrides(), now_ms));
            assert forall|j: int| 0 <= j < out@.len() implies old(self).overrides().contains_key(
                user_key(out@[j].0@, out@[j].1@),
            ) && !override_active(old(self).overrides()[user_key(out@[j].0@, out@[j].1@)], now_ms) by {
                assert(removed@.contains(removed@[j]));
            }
            assert forall|k: Seq<Seq<char>>|
                old(self).overrides().contains_key(k) && !override_active(
                    old(self).overrides()[k],
                    now_ms,
                ) implies exists|i: int| 0 <= i < out@.len() && user_key(out@[i].0@, out@[i].1@) == k by {
                assert(!keep(k, old(self).overrides()[k]));
                let x = choose|x: (Vec<String>, ManualOverride)|
                    #[trigger] removed@.contains(x) && key_view(x.0) == k;
                let j = choose|j: int| 0 <= j < removed@.len() && removed@[j] == x;
                assert(user_key(out@[j].0@, out@[j].1@) == k);
            }
        }
        out
    }

    /// Removes the overrides expired on the current clock.
    pub fn sweep_expired(&mut self) -> (r: Vec<(String, String)>)
        requires
            old(self).wf(),
        ensures
            final(self).wf(),
            final(self).last_seen() == old(self).last_seen(),
            exists|now_ms: i64|
                final(self).overrides() == #[trigger] unexpired(old(self).overrides(), now_ms)
                    && swept_pairs(old(self).overrides(), r@, now_ms),
    {
        let now = now_millis();
        self.sweep_expired_at(now)
    }

    /// Loads persisted overrides at `now` (on startup), skipping the expired ones; a later
    /// entry for a user wins.
    pub fn load_overrides_at(&mut self, overrides_list: Vec<PersistedOverride>, now_ms: i64)
        requires
            old(self).wf(),
        ensures
            final(self).wf(),
            final(self).last_seen() == old(self).last_seen(),
            final(self).overrides() == overrides_after_load(
                old(self).overrides(),
                overrides_list@,
                now_ms,
            ),
    {
        let ghost list = overrides_list@;
        let mut rest = overrides_list;
        let n = rest.len();
        let mut i: usize = 0;
        assert(list.skip(0) =~= list);
        assert(list.take(0) =~= Seq::<PersistedOverride>::empty());
        while rest.len() > 0
            invariant
                self.wf(),
                self.last_seen() == old(self).last_seen(),
                list.len() == n,
                i <= n,
                rest@ == list.skip(i as int),
                self.overrides() == overrides_after_load(
                    old(self).overrides(),
                    list.take(i as int),
                    now_ms,
                ),
            decreases rest@.len(),
        {
            let po = rest.remove(0);
            proof {
                assert(list.skip(i as int).remove(0) =~= list.skip(i + 1));
                assert(list.take(i + 1).drop_last() =~= list.take(i as int));
                assert(list.take(i + 1).last() == po);
            }
            let expired = match po.expires_at_ms {
                Some(exp) => now_ms >= exp,
                None => false,
            };
            if !expired {
                let key = pair_key(po.tenant_id.as_str(), po.user_id.as_str());
                self.overrides.insert(
                    key,
                    ManualOverride {
                        status: po.status,
                        expires_at_ms: po.expires_at_ms,
                        until_iso: po.until_iso,
                    },
                );
            }
            i += 1;
        }
        assert(list.take(n as int) =~= list);
    }

    /// Loads persisted overrides on the current clock.
    pub fn load_overrides(&mut self, overrides_list: Vec<PersistedOverride>)
        requires
            old(self).wf(),
        ensures
            final(self).wf(),
            final(self).last_seen() == old(self).last_seen(),
            exists|now_ms: i64|
                final(self).overrides() == overrides_after_load(
                    old(self).overrides(),
                    overrides_list@,
                    now_ms,
                ),
    {
        let now = now_millis();
        self.load_overrides_at(overrides_list, now);
    }

    /// The overrides, one entry per user, for persistence.
    pub fn dump_overrides(&self) -> (r: Vec<PersistedOverride>)
        requires
            self.wf(),
        ensures
            self.overrides().dom().finite(),
            override_dump(self.overrides(), r@),
    {
        proof {
            self.overrides.lemma_view();
            lemma_entries_map(self.overrides.entries());
        }
        let ghost s = self.overrides.entries();
        let mut out: Vec<PersistedOverride> = Vec::new();
        let mut i: usize = 0;
        while i < self.overrides.entry_count()
            invariant
                s == self.overrides.entries(),
                keys_unique(s),
                self.overrides@ == entries_map(s),
                pair_keys(self.overrides@),
                i <= s.len(),
                out@.len() == i,
                forall|j: int|
                    0 <= j < i ==> user_key(out@[j].tenant_id@, out@[j].user_id@) == key_view(
                        s[j].0,
                    ) && out@[j].status == s[j].1.status && out@[j].expires_at_ms
                        == s[j].1.expires_at_ms && out@[j].until_iso == s[j].1.until_iso,
                forall|j: int|
                    0 <= j < s.len() ==> #[trigger] entries_map(s).contains_key(key_view(s[j].0))
                        && entries_map(s)[key_view(s[j].0)] == s[j].1,
            decreases s.len() - i,
        {
            let e = self.overrides.entry(i);
            assert(entries_map(s).contains_key(key_view(s[i as int].0)));
            let (tenant_id, user_id) = split_pair(&e.0);
            out.push(
                PersistedOverride {
                    tenant_id,
                    user_id,
                    status: e.1.status,
                    expires_at_ms: e.1.expires_at_ms,
                    until_iso: clone_opt(&e.1.until_iso),
                },
            );
            i += 1;
        }
        proof {
            assert forall|a: int| #![trigger out@[a]] 0 <= a < out@.len() implies {
                let k = user_key(out@[a].tenant_id@, out@[a].user_id@);
                &&& self.overrides().contains_key(k)
                &&& self.overrides()[k].status == out@[a].status
                &&& self.overrides()[k].expires_at_ms == out@[a].expires_at_ms
                &&& self.overrides()[k].until_iso == out@[a].until_iso
            } by {
                assert(entries_map(s).contains_key(key_view(s[a].0)));
            }
            assert forall|a: int, b: int|
                0 <= a < out@.len() && 0 <= b < out@.len() && a != b implies user_key(
                out@[a].tenant_id@,
                out@[a].user_id@,
            ) != user_key(out@[b].tenant_id@, out@[b].user_id@) by {
                assert(key_view(s[a].0) != key_view(s[b].0));
            }
        }
        out
    }

    /// Records the time of a user's last disconnect.
    pub fn stamp_last_seen(&mut self, tenant_id: &str, user_id: &str, ts_ms: i64)
        requires
            old(self).wf(),
        ensures
            final(self).wf(),
            final(self).overrides() == old(self).overrides(),
            final(self).last_seen() == old(self).last_seen().insert(
                user_key(tenant_id@, user_id@),
                ts_ms,
            ),
    {
        self.last_seen.insert(pair_key(tenant_id, user_id), ts_ms);
    }

    /// Forgets a user's last-seen time (on reconnect).
    pub fn clear_last_seen(&mut self, tenant_id: &str, user_id: &str)
        requires
            old(self).wf(),
        ensures
            final(self).wf(),
            final(self).overrides() == old(self).overrides(),
            final(self).last_seen() == old(self).last_seen().remove(user_key(tenant_id@, user_id@)),
    {
        let key = pair_key(tenant_id, user_id);
        let _ = self.last_seen.remove(&key);
    }

    /// A user's last-seen time, if recorded.
    pub fn get_last_seen(&self, tenant_id: &str, user_id: &str) -> (r: Option<i64>)
        requires
            self.wf(),
        ensures
            r == (if self.last_seen().contains_key(user_key(tenant_id@, user_id@)) {
                Some(self.last_seen()[user_key(tenant_id@, user_id@)])
            } else {
                None
            }),
    {
        let key = pair_key(tenant_id, user_id);
        match self.last_seen.get(&key) {
            Some(t) => Some(*t),
            None => None,
        }
    }

    /// Loads last-seen times (on startup); a later entry for a user wins.
    pub fn load_last_seen(&mut self, entries: Vec<PersistedLastSeen>)
        requires
            old(self).wf(),
        ensures
            final(self).wf(),
            final(self).overrides() == old(self).overrides(),
            final(self).last_seen() == last_seen_after_load(old(self).last_seen(), entries@),
    {
        let mut i: usize = 0;
        while i < entries.len()
            invariant
                self.wf(),
                self.overrides() == old(self).overrides(),
                i <= entries@.len(),
                self.last_seen() == last_seen_after_load(
                    old(self).last_seen(),
                    entries@.take(i as int),
                ),
            decreases entries@.len() - i,
        {
            proof {
                assert(entries@.take(i + 1).drop_last() =~= entries@.take(i as int));
            }
            let e = &entries[i];
            self.last_seen.insert(
                pair_key(e.tenant_id.as_str(), e.user_id.as_str()),
                e.last_seen_at_ms,
            );
            i += 1;
        }
        assert(entries@.take(entries@.len() as int) =~= entries@);
    }

    /// The last-seen times, one entry per user.
    pub fn dump_last_seen(&self) -> (r: Vec<PersistedLastSeen>)
        requires
            self.wf(),
        ensures
            self.last_seen().dom().finite(),
            last_seen_dump(self.last_seen(), r@),
    {
        proof {
            self.last_seen.lemma_view();
            lemma_entries_map(self.last_seen.entries());
        }
        let ghost s = self.last_seen.entries();
        let mut out: Vec<PersistedLastSeen> = Vec::new();
        let mut i: usize = 0;
        while i < self.last_seen.entry_count()
            invariant
                s == self.last_seen.entries(),
                keys_unique(s),
                self.last_seen@ == entries_map(s),
                pair_keys(self.last_seen@),
                i <= s.len(),
                out@.len() == i,
                forall|j: int|
                    0 <= j < i ==> user_key(out@[j].tenant_id@, out@[j].user_id@) == key_view(
                        s[j].0,
                    ) && out@[j].last_seen_at_ms == s[j].1,
                forall|j: int|
                    0 <= j < s.len() ==> #[trigger] entries_map(s).contains_key(key_view(s[j].0))
                        && entries_map(s)[key_view(s[j].0)] == s[j].1,
            decreases s.len() - i,
        {
            let e = self.last_seen.entry(i);
            assert(entries_map(s).contains_key(key_view(s[i as int].0)));
            let (tenant_id, user_id) = split_pair(&e.0);
            out.push(PersistedLastSeen { tenant_id, user_id, last_seen_at_ms: e.1 });
            i += 1;
        }
        proof {
            assert forall|a: int| 0 <= a < out@.len() implies self.last_seen().contains_key(
                user_key(out@[a].tenant_id@, out@[a].user_id@),
            ) && self.last_seen()[user_key(out@[a].tenant_id@, out@[a].user_id@)]
                == out@[a].last_seen_at_ms by {
                assert(entries_map(s).contains_key(key_view(s[a].0)));
            }
            assert forall|a: int, b: int|
                0 <= a < out@.len() && 0 <= b < out@.len() && a != b implies user_key(
                out@[a].tenant_id@,
                out@[a].user_id@,
            ) != user_key(out@[b].tenant_id@, out@[b].user_id@) by {
                assert(key_view(s[a].0) != key_view(s[b].0));
            }
        }
        out
    }
}

/// Loading a list of last-seen times with distinct users into a tracker with none gives
/// each user the time of its entry, and nobody else a time.
proof fn lemma_last_seen_load_fresh(list: Seq<PersistedLastSeen>)
    requires
        forall|i: int, j: int|
            0 <= i < list.len() && 0 <= j < list.len() && i != j ==> last_seen_user(
                #[trigger] list[i],
            ) != last_seen_user(#[trigger] list[j]),
    ensures
        forall|k: Seq<Seq<char>>|
            #[trigger] last_seen_after_load(Map::empty(), list).contains_key(k) <==> exists|i: int|
                0 <= i < list.len() && last_seen_user(list[i]) == k,
        forall|i: int|
            0 <= i < list.len() ==> last_seen_after_load(Map::empty(), list)[last_seen_user(
                #[trigger] list[i],
            )] == list[i].last_seen_at_ms,
    decreases list.len(),
{
    if list.len() > 0 {
        let t = list.drop_last();
        let n = list.len() - 1;
        assert forall|i: int, j: int|
            0 <= i < t.len() && 0 <= j < t.len() && i != j implies last_seen_user(#[trigger] t[i])
            != last_seen_user(#[trigger] t[j]) by {
            assert(t[i] == list[i] && t[j] == list[j]);
        }
        lemma_last_seen_load_fresh(t);
        let before = last_seen_after_load(Map::empty(), t);
        let after = last_seen_after_load(Map::empty(), list);
        assert(after == before.insert(last_seen_user(list[n]), list[n].last_seen_at_ms));
        assert forall|k: Seq<Seq<char>>| #[trigger] after.contains_key(k) <==> exists|i: int|
            0 <= i < list.len() && last_seen_user(list[i]) == k by {
            if after.contains_key(k) && k != last_seen_user(list[n]) {
                let i = choose|i: int| 0 <= i < t.len() && last_seen_user(t[i]) == k;
                assert(list[i] == t[i]);
            }
            if exists|i: int| 0 <= i < list.len() && last_seen_user(list[i]) == k {
                let i = choose|i: int| 0 <= i < list.len() && last_seen_user(list[i]) == k;
                if i < n {
                    assert(t[i] == list[i]);
                    assert(before.contains_key(k));
                }
            }
        }
        assert forall|i: int| 0 <= i < list.len() implies after[last_seen_user(#[trigger] list[i])]
            == list[i].last_seen_at_ms by {
            if i < n {
                assert(t[i] == list[i]);
                assert(last_seen_user(list[i]) != last_seen_user(list[n]));
            }
        }
    }
}

/// Loading at `now` a list of overrides with distinct users into a tracker with none
/// keeps the entries in force at `now`, each as persisted, and nothing else.
proof fn lemma_overrides_load_fresh(list: Seq<PersistedOverride>, now_ms: i64)
    requires
        forall|i: int, j: int|
            0 <= i < list.len() && 0 <= j < list.len() && i != j ==> override_user(
                #[trigger] list[i],
            ) != override_user(#[trigger] list[j]),
    ensures
        forall|k: Seq<Seq<char>>|
            #[trigger] overrides_after_load(Map::empty(), list, now_ms).contains_key(k) <==> exists|
                i: int,
            |
                0 <= i < list.len() && override_user(list[i]) == k && override_active(
                    override_of(list[i]),
                    now_ms,
                ),
        forall|i: int|
            0 <= i < list.len() && override_active(override_of(#[trigger] list[i]), now_ms)
                ==> overrides_after_load(Map::empty(), list, now_ms)[override_user(list[i])]
                == override_of(list[i]),
    decreases list.len(),
{
    if list.len() > 0 {
        let t = list.drop_last();
        let n = list.len() - 1;
        assert forall|i: int, j: int|
            0 <= i < t.len() && 0 <= j < t.len() && i != j implies override_user(#[trigger] t[i])
            != override_user(#[trigger] t[j]) by {
            assert(t[i] == list[i] && t[j] == list[j]);
        }
        lemma_overrides_load_fresh(t, now_ms);
        let before = overrides_after_load(Map::empty(), t, now_ms);
        let after = overrides_after_load(Map::empty(), list, now_ms);
        let active_n = override_active(override_of(list[n]), now_ms);
        assert(active_n ==> after == before.insert(override_user(list[n]), override_of(list[n])));
        assert(!active_n ==> after == before);
        assert forall|k: Seq<Seq<char>>| #[trigger] after.contains_key(k) <==> exists|i: int|
            0 <= i < list.len() && override_user(list[i]) == k && override_active(
                override_of(list[i]),
                now_ms,
            ) by {
            if after.contains_key(k) && !(active_n && k == override_user(list[n])) {
                let i = choose|i: int|
                    0 <= i < t.len() && override_user(t[i]) == k && override_active(
                        override_of(t[i]),
                        now_ms,
                    );
                assert(list[i] == t[i]);
            }
            if exists|i: int|
                0 <= i < list.len() && override_user(list[i]) == k && override_active(
                    override_of(list[i]),
                    now_ms,
                ) {
                let i = choose|i: int|
                    0 <= i < list.len() && override_user(list[i]) == k && override_active(
                        override_of(list[i]),
                        now_ms,
                    );
                if i < n {
                    assert(t[i] == list[i]);
                    assert(before.contains_key(k));
                }
            }
        }
        assert forall|i: int|
            0 <= i < list.len() && override_active(override_of(#[trigger] list[i]), now_ms) implies after[override_user(
            list[i],
        )] == override_of(list[i]) by {
            if i < n {
                assert(t[i] == list[i]);
                assert(override_user(list[i]) != override_user(list[n]));
            }
        }
    }
}

/// The users that the entries of a dump name, as a set.
spec fn dumped_users<T>(r: Seq<T>, user: spec_fn(T) -> Seq<Seq<char>>) -> Set<Seq<Seq<char>>> {
    Seq::new(r.len(), |i: int| user(r[i])).to_set()
}

/// A dump with distinct users, each a user of `m`, and as many entries as `m` has users,
/// names every user of `m`.
proof fn lemma_dump_covers<T, V>(m: Map<Seq<Seq<char>>, V>, r: Seq<T>, user: spec_fn(T) -> Seq<Seq<char>>)
    requires
        m.dom().finite(),
        r.len() == m.dom().len(),
        forall|i: int| 0 <= i < r.len() ==> m.contains_key(#[trigger] user(r[i])),
        forall|i: int, j: int|
            0 <= i < r.len() && 0 <= j < r.len() && i != j ==> user(#[trigger] r[i]) != user(
                #[trigger] r[j],
            ),
    ensures
        forall|k: Seq<Seq<char>>| #[trigger] m.contains_key(k) ==> exists|i: int| 0 <= i < r.len() && user(r[i]) == k,
{
    let ks = Seq::new(r.len(), |i: int| user(r[i]));
    assert(ks.no_duplicates()) by {
        assert forall|i: int, j: int| 0 <= i < ks.len() && 0 <= j < ks.len() && i != j implies ks[i] != ks[j] by {
            assert(ks[i] == user(r[i]) && ks[j] == user(r[j]));
        }
    }
    ks.unique_seq_to_set();
    vstd::seq_lib::seq_to_set_is_finite(ks);
    assert(ks.to_set().subset_of(m.dom())) by {
        assert forall|k: Seq<Seq<char>>| ks.to_set().contains(k) implies m.dom().contains(k) by {
            let i = choose|i: int| 0 <= i < ks.len() && ks[i] == k;
            assert(ks[i] == user(r[i]));
        }
    }
    vstd::set_lib::lemma_subset_equality(ks.to_set(), m.dom());
    assert forall|k: Seq<Seq<char>>| #[trigger] m.contains_key(k) implies exists|i: int|
        0 <= i < r.len() && user(r[i]) == k by {
        assert(ks.to_set().contains(k));
        let i = choose|i: int| 0 <= i < ks.len() && ks[i] == k;
        assert(ks[i] == user(r[i]));
    }
}

/// Loading what was dumped of the last-seen times `m` into a tracker that has none gives
/// them back.
pub proof fn lemma_last_seen_round_trip(m: Map<Seq<Seq<char>>, i64>, dump: Seq<PersistedLastSeen>)
    requires
        m.dom().finite(),
        last_seen_dump(m, dump),
    ensures
        last_seen_after_load(Map::empty(), dump) == m,
{
    lemma_last_seen_load_fresh(dump);
    let user = |e: PersistedLastSeen| last_seen_user(e);
    assert forall|i: int| 0 <= i < dump.len() implies m.contains_key(#[trigger] user(dump[i])) by {
        assert(m.contains_key(last_seen_user(dump[i])));
    }
    assert forall|i: int, j: int|
        0 <= i < dump.len() && 0 <= j < dump.len() && i != j implies user(#[trigger] dump[i]) != user(
        #[trigger] dump[j],
    ) by {
        assert(last_seen_user(dump[i]) != last_seen_user(dump[j]));
    }
    lemma_dump_covers(m, dump, user);
    let after = last_seen_after_load(Map::empty(), dump);
    assert forall|k: Seq<Seq<char>>| after.contains_key(k) <==> m.contains_key(k) by {
        if m.contains_key(k) {
            let i = choose|i: int| 0 <= i < dump.len() && user(dump[i]) == k;
            assert(last_seen_user(dump[i]) == k);
        }
        if after.contains_key(k) {
            let i = choose|i: int| 0 <= i < dump.len() && last_seen_user(dump[i]) == k;
            assert(m.contains_key(last_seen_user(dump[i])));
        }
    }
    assert forall|k: Seq<Seq<char>>| #[trigger] after.contains_key(k) implies after[k] == m[k] by {
        let i = choose|i: int| 0 <= i < dump.len() && last_seen_user(dump[i]) == k;
        assert(after[last_seen_user(dump[i])] == dump[i].last_seen_at_ms);
        assert(m[last_seen_user(dump[i])] == dump[i].last_seen_at_ms);
    }
    assert(after =~= m);
}

/// Loading at `now` what was dumped of the overrides `m` into a tracker that has none
/// gives back the overrides of `m` still in force at `now`.
pub proof fn lemma_overrides_round_trip(
    m: Map<Seq<Seq<char>>, ManualOverride>,
    dump: Seq<PersistedOverride>,
    now_ms: i64,
)
    requires
        m.dom().finite(),
        override_dump(m, dump),
    ensures
        overrides_after_load(Map::empty(), dump, now_ms) == unexpired(m, now_ms),
{
    lemma_overrides_load_fresh(dump, now_ms);
    let user = |po: PersistedOverride| override_user(po);
    assert forall|i: int| 0 <= i < dump.len() implies m.contains_key(#[trigger] user(dump[i])) by {
        assert(m.contains_key(override_user(dump[i])));
    }
    assert forall|i: int, j: int|
        0 <= i < dump.len() && 0 <= j < dump.len() && i != j implies user(#[trigger] dump[i]) != user(
        #[trigger] dump[j],
    ) by {
        assert(override_user(dump[i]) != override_user(dump[j]));
    }
    lemma_dump_covers(m, dump, user);
    let after = overrides_after_load(Map::empty(), dump, now_ms);
    let want = unexpired(m, now_ms);
    assert forall|k: Seq<Seq<char>>| after.contains_key(k) <==> want.contains_key(k) by {
        if want.contains_key(k) {
            let i = choose|i: int| 0 <= i < dump.len() && user(dump[i]) == k;
            assert(override_user(dump[i]) == k);
            assert(m[override_user(dump[i])] == override_of(dump[i]));
        }
        if after.contains_key(k) {
            let i = choose|i: int|
                0 <= i < dump.len() && override_user(dump[i]) == k && override_active(
                    override_of(dump[i]),
                    now_ms,
                );
            assert(m[override_user(dump[i])] == override_of(dump[i]));
        }
    }
    assert forall|k: Seq<Seq<char>>| #[trigger] after.contains_key(k) implies after[k] == want[k] by {
        let i = choose|i: int|
            0 <= i < dump.len() && override_user(dump[i]) == k && override_active(
                override_of(dump[i]),
                now_ms,
            );
        assert(after[override_user(dump[i])] == override_of(dump[i]));
        assert(m[override_user(dump[i])] == override_of(dump[i]));
    }
    assert(after =~= want);
}

/// The last entry of `list` for the user `k` that is in force at `now`, if any.
pub open spec fn last_loaded_override(list: Seq<PersistedOverride>, k: Seq<Seq<char>>, now_ms: i64) -> Option<int>
    decreases list.len(),
{
    if list.len() == 0 {
        None
    } else if override_user(list.last()) == k && override_active(override_of(list.last()), now_ms) {
        Some(list.len() - 1)
    } else {
        last_loaded_override(list.drop_last(), k, now_ms)
    }
}

/// Loading overrides at `now`, user by user: a user with an entry in force at `now` gets
/// the last such entry; any other user keeps what it had. Expired entries are skipped.
pub proof fn lemma_load_overrides_per_user(
    m: Map<Seq<Seq<char>>, ManualOverride>,
    list: Seq<PersistedOverride>,
    now_ms: i64,
    k: Seq<Seq<char>>,
)
    ensures
        match last_loaded_override(list, k, now_ms) {
            Some(i) => {
                &&& 0 <= i < list.len()
                &&& override_user(list[i]) == k
                &&& override_active(override_of(list[i]), now_ms)
                &&& forall|j: int|
                    i < j < list.len() ==> !(override_user(#[trigger] list[j]) == k && override_active(
                        override_of(list[j]),
                        now_ms,
                    ))
                &&& overrides_after_load(m, list, now_ms).contains_key(k)
                &&& overrides_after_load(m, list, now_ms)[k] == override_of(list[i])
            },
            None => {
                &&& forall|j: int|
                    0 <= j < list.len() ==> !(override_user(#[trigger] list[j]) == k && override_active(
                        override_of(list[j]),
                        now_ms,
                    ))
                &&& overrides_after_load(m, list, now_ms).contains_key(k) == m.contains_key(k)
                &&& m.contains_key(k) ==> overrides_after_load(m, list, now_ms)[k] == m[k]
            },
        },
    decreases list.len(),
{
    if list.len() > 0 {
        let t = list.drop_last();
        lemma_load_overrides_per_user(m, t, now_ms, k);
        let po = list.last();
        assert(!(po.expires_at_ms matches Some(exp) && now_ms >= exp) <==> override_active(
            override_of(po),
            now_ms,
        ));
        assert forall|j: int| 0 <= j < t.len() implies #[trigger] list[j] == t[j] by {}
    }
}

/// The last entry of `list` for the user `k`, if any.
pub open spec fn last_loaded_time(list: Seq<PersistedLastSeen>, k: Seq<Seq<char>>) -> Option<int>
    decreases list.len(),
{
    if list.len() == 0 {
        None
    } else if last_seen_user(list.last()) == k {
        Some(list.len() - 1)
    } else {
        last_loaded_time(list.drop_last(), k)
    }
}

/// Loading last-seen times, user by user: a user with an entry gets the time of its last
/// entry; any other user keeps what it had.
pub proof fn lemma_load_last_seen_per_user(
    m: Map<Seq<Seq<char>>, i64>,
    list: Seq<PersistedLastSeen>,
    k: Seq<Seq<char>>,
)
    ensures
        match last_loaded_time(list, k) {
            Some(i) => {
                &&& 0 <= i < list.len()
                &&& last_seen_user(list[i]) == k
                &&& forall|j: int| i < j < list.len() ==> last_seen_user(#[trigger] list[j]) != k
                &&& last_seen_after_load(m, list).contains_key(k)
                &&& last_seen_after_load(m, list)[k] == list[i].last_seen_at_ms
            },
            None => {
                &&& forall|j: int| 0 <= j < list.len() ==> last_seen_user(#[trigger] list[j]) != k
                &&& last_seen_after_load(m, list).contains_key(k) == m.contains_key(k)
                &&& m.contains_key(k) ==> last_seen_after_load(m, list)[k] == m[k]
            },
        },
    decreases list.len(),
{
    if list.len() > 0 {
        let t = list.drop_last();
        lemma_load_last_seen_per_user(m, t, k);
        assert forall|j: int| 0 <= j < t.len() implies #[trigger] list[j] == t[j] by {}
    }
}

/// A dump of the overrides `m` holds each `(user, override)` of `m` once and nothing else.
pub proof fn lemma_dump_entries(m: Map<Seq<Seq<char>>, ManualOverride>, d: Seq<PersistedOverride>)
    requires
        m.dom().finite(),
        override_dump(m, d),
    ensures
        forall|x: (Seq<Seq<char>>, ManualOverride)| #[trigger] dump_entries(d).count(x) == entry_count(m, x),
{
    broadcast use vstd::seq_lib::group_to_multiset_ensures;
    let e = d.map_values(|po: PersistedOverride| (override_user(po), override_of(po)));
    assert(e.no_duplicates()) by {
        assert forall|i: int, j: int| 0 <= i < e.len() && 0 <= j < e.len() && i != j implies e[i] != e[j] by {
            assert(override_user(d[i]) != override_user(d[j]));
        }
    }
    e.lemma_multiset_has_no_duplicates();
    let user = |po: PersistedOverride| override_user(po);
    assert forall|i: int| 0 <= i < d.len() implies m.contains_key(#[trigger] user(d[i])) by {
        assert(m.contains_key(override_user(d[i])));
    }
    assert forall|i: int, j: int|
        0 <= i < d.len() && 0 <= j < d.len() && i != j implies user(#[trigger] d[i]) != user(
        #[trigger] d[j],
    ) by {
        assert(override_user(d[i]) != override_user(d[j]));
    }
    lemma_dump_covers(m, d, user);
    assert forall|x: (Seq<Seq<char>>, ManualOverride)| #[trigger] dump_entries(d).count(x) == entry_count(m, x) by {
        if e.contains(x) {
            let i = choose|i: int| 0 <= i < e.len() && e[i] == x;
            assert(e[i] == (override_user(d[i]), override_of(d[i])));
            assert(m.contains_key(override_user(d[i])));
            assert(e.to_multiset().count(x) > 0);
        } else {
            assert(e.to_multiset().count(x) == 0);
            if m.contains_key(x.0) && m[x.0] == x.1 {
                let i = choose|i: int| 0 <= i < d.len() && user(d[i]) == x.0;
                assert(e[i] == (override_user(d[i]), override_of(d[i])));
                assert(m[override_user(d[i])] == override_of(d[i]));
                assert(e[i] == x);
                assert(e.contains(x));
            }
        }
    }
}

/// Two dumps of the same overrides hold the same entries.
proof fn lemma_dumps_agree(
    m: Map<Seq<Seq<char>>, ManualOverride>,
    d1: Seq<PersistedOverride>,
    d2: Seq<PersistedOverride>,
)
    requires
        m.dom().finite(),
        override_dump(m, d1),
        override_dump(m, d2),
    ensures
        dump_entries(d1) == dump_entries(d2),
{
    lemma_dump_entries(m, d1);
    lemma_dump_entries(m, d2);
    assert(dump_entries(d1) =~= dump_entries(d2));
}

/// Setting a user's status to `Online` takes the user's entry, if any, out of the dump
/// and leaves the other entries; another status puts the new override in the user's
/// entry (added if absent) and leaves the others.
pub proof fn lemma_set_manual_dump(
    m: Map<Seq<Seq<char>>, ManualOverride>,
    before: Seq<PersistedOverride>,
    after: Seq<PersistedOverride>,
    tenant_id: Seq<char>,
    user_id: Seq<char>,
    status: PresenceStatus,
    expires_at_ms: Option<i64>,
    until_iso: Option<String>,
)
    requires
        m.dom().finite(),
        override_dump(m, before),
        override_dump(manual_set(m, user_key(tenant_id, user_id), status, expires_at_ms, until_iso), after),
    ensures
        ({
            let k = user_key(tenant_id, user_id);
            let rest = if m.contains_key(k) {
                dump_entries(before).remove((k, m[k]))
            } else {
                dump_entries(before)
            };
            dump_entries(after) == if status == PresenceStatus::Online {
                rest
            } else {
                rest.insert((k, ManualOverride { status, expires_at_ms, until_iso }))
            }
        }),
{
    let k = user_key(tenant_id, user_id);
    let m2 = manual_set(m, k, status, expires_at_ms, until_iso);
    assert(m2.dom().finite()) by {
        if status == PresenceStatus::Online {
            assert(m2.dom() =~= m.dom().remove(k));
        } else {
            assert(m2.dom() =~= m.dom().insert(k));
        }
    }
    lemma_dump_entries(m, before);
    lemma_dump_entries(m2, after);
    let rest = if m.contains_key(k) {
        dump_entries(before).remove((k, m[k]))
    } else {
        dump_entries(before)
    };
    let want = if status == PresenceStatus::Online {
        rest
    } else {
        rest.insert((k, ManualOverride { status, expires_at_ms, until_iso }))
    };
    assert forall|x: (Seq<Seq<char>>, ManualOverride)| dump_entries(after).count(x) == want.count(x) by {
        assert(dump_entries(after).count(x) == entry_count(m2, x));
        assert(dump_entries(before).count(x) == entry_count(m, x));
        if m.contains_key(k) {
            assert(dump_entries(before).count((k, m[k])) == entry_count(m, (k, m[k])));
        }
    }
    assert(dump_entries(after) =~= want);
}

/// A dump of overrides all in force at `now`, loaded at `now` into a tracker that has
/// none and dumped again, gives back the same entries.
pub proof fn lemma_dump_load_dump(
    m: Map<Seq<Seq<char>>, ManualOverride>,
    d: Seq<PersistedOverride>,
    d2: Seq<PersistedOverride>,
    now_ms: i64,
)
    requires
        m.dom().finite(),
        forall|k: Seq<Seq<char>>| #[trigger] m.contains_key(k) ==> override_active(m[k], now_ms),
        override_dump(m, d),
        override_dump(overrides_after_load(Map::empty(), d, now_ms), d2),
    ensures
        dump_entries(d2) == dump_entries(d),
{
    lemma_overrides_round_trip(m, d, now_ms);
    assert(unexpired(m, now_ms) =~= m);
    lemma_dumps_agree(m, d, d2);
}

/// A manual status set without expiry is what the user resolves to, connected or not;
/// setting `Online` clears it, and the user's connections decide again.
pub proof fn lemma_manual_override_wins(
    t: Map<Seq<Seq<char>>, ManualOverride>,
    ls: Map<Seq<Seq<char>>, i64>,
    k: Seq<Seq<char>>,
    status: PresenceStatus,
    until: Option<String>,
    connections: nat,
    now_ms: i64,
)
    requires
        status != PresenceStatus::Online,
    ensures
        resolution(
            t.insert(k, ManualOverride { status, expires_at_ms: None, until_iso: until }),
            ls,
            k,
            connections,
            now_ms,
        ).0 == status,
        connections > 0 ==> resolution(t.remove(k), ls, k, connections, now_ms).0
            == PresenceStatus::Online,
        connections == 0 ==> resolution(t.remove(k), ls, k, connections, now_ms).0
            == PresenceStatus::Offline,
{
}

/// An override that has expired no longer counts: presence falls back to the
/// connections.
pub proof fn lemma_expired_override_ignored(
    t: Map<Seq<Seq<char>>, ManualOverride>,
    ls: Map<Seq<Seq<char>>, i64>,
    k: Seq<Seq<char>>,
    connections: nat,
    now_ms: i64,
)
    requires
        t.contains_key(k),
        t[k].expires_at_ms matches Some(exp) && now_ms >= exp,
    ensures
        resolution(t, ls, k, connections, now_ms) == resolution(
            t.remove(k),
            ls,
            k,
            connections,
            now_ms,
        ),
{
}

} // verus!
