//! Who is typing in which stream: `(tenant, stream, user)` with the time typing started.
//! An entry lapses 10 seconds after it started.
use vstd::prelude::*;
use vstd::string::*;
use crate::clock::now_millis_u64;
use crate::registry::table::{Table, triple_key, key_view, keys_unique};
use crate::text::copy_str;

verus! {

broadcast use vstd::string::group_string_axioms;

/// How long a typing indicator lasts, in milliseconds.
pub const TYPING_TTL_MS: u64 = 10_000;

/// The key of `(tenant, stream, user)`.
pub open spec fn typing_key(tenant_id: Seq<char>, stream_id: Seq<char>, user_id: Seq<char>) -> Seq<
    Seq<char>,
> {
    seq![tenant_id, stream_id, user_id]
}

/// Whether typing that started at `started` has lapsed at `now` (10 whole seconds).
pub open spec fn lapsed(started_ms: u64, now_ms: u64) -> bool {
    now_ms >= started_ms && now_ms - started_ms >= TYPING_TTL_MS
}

/// The indicators of `m` that have not lapsed at `now`.
pub open spec fn unlapsed(m: Map<Seq<Seq<char>>, u64>, now_ms: u64) -> Map<Seq<Seq<char>>, u64> {
    Map::new(|k: Seq<Seq<char>>| m.contains_key(k) && !lapsed(m[k], now_ms), |k| m[k])
}

/// Whether `r` lists, each once, exactly the `(tenant, stream, user)` triples of the
/// indicators in `m` that have lapsed at `now`.
pub open spec fn lapsed_triples(
    m: Map<Seq<Seq<char>>, u64>,
    r: Seq<(String, String, String)>,
    now_ms: u64,
) -> bool {
    &&& forall|i: int|
        #![trigger r[i]]
        0 <= i < r.len() ==> m.contains_key(typing_key(r[i].0@, r[i].1@, r[i].2@)) && lapsed(
            m[typing_key(r[i].0@, r[i].1@, r[i].2@)],
            now_ms,
        )
    &&& forall|k: Seq<Seq<char>>|
        m.contains_key(k) && lapsed(m[k], now_ms) ==> exists|i: int|
            0 <= i < r.len() && typing_key(r[i].0@, r[i].1@, r[i].2@) == k
    &&& forall|i: int, j: int|
        0 <= i < r.len() && 0 <= j < r.len() && i != j ==> typing_key(
            (#[trigger] r[i]).0@,
            r[i].1@,
            r[i].2@,
        ) != typing_key((#[trigger] r[j]).0@, r[j].1@, r[j].2@)
}

/// Whether every key of `m` is a `(tenant, stream, user)` triple.
pub open spec fn triple_keys(m: Map<Seq<Seq<char>>, u64>) -> bool {
    forall|k: Seq<Seq<char>>| #[trigger] m.contains_key(k) ==> k.len() == 3
}

/// The typing indicators of all streams.
pub struct TypingTracker {
    entries: Table<u64>,
}

impl TypingTracker {
    /// When each `(tenant, stream, user)` started typing.
    pub closed spec fn typing(&self) -> Map<Seq<Seq<char>>, u64> {
        self.entries@
    }

    pub closed spec fn wf(&self) -> bool {
        self.entries.wf() && triple_keys(self.entries@)
    }

    pub fn new() -> (t: TypingTracker)
        ensures
            t.wf(),
            t.typing() == Map::<Seq<Seq<char>>, u64>::empty(),
    {
        TypingTracker { entries: Table::new() }
    }

    /// Records at `now` that a user started (`active`) or stopped typing in a stream.
    pub fn set_typing_at(&mut self, tenant_id: &str, stream_id: &str, user_id: &str, active: bool, now_ms: u64)
        requires
            old(self).wf(),
        ensures
            final(self).wf(),
            final(self).typing() == if active {
                old(self).typing().insert(typing_key(tenant_id@, stream_id@, user_id@), now_ms)
            } else {
                old(self).typing().remove(typing_key(tenant_id@, stream_id@, user_id@))
            },
    {
        let key = triple_key(tenant_id, stream_id, user_id);
        if active {
            self.entries.insert(key, now_ms);
        } else {
            let _ = self.entries.remove(&key);
        }
    }

    /// Records on the current clock that a user started or stopped typing.
    pub fn set_typing(&mut self, tenant_id: &str, stream_id: &str, user_id: &str, active: bool)
        requires
            old(self).wf(),
        ensures
            final(self).wf(),
            !active ==> final(self).typing() == old(self).typing().remove(
                typing_key(tenant_id@, stream_id@, user_id@),
            ),
            active ==> exists|now_ms: u64|
                final(self).typing() == old(self).typing().insert(
                    typing_key(tenant_id@, stream_id@, user_id@),
                    now_ms,
                ),
    {
        let now = now_millis_u64();
        self.set_typing_at(tenant_id, stream_id, user_id, active, now);
    }

    /// Clears every typing indicator of a user in a tenant, handing back the streams in
    /// which the user was typing.
    pub fn remove_user(&mut self, tenant_id: &str, user_id: &str) -> (r: Vec<String>)
        requires
            old(self).wf(),
        ensures
            final(self).wf(),
            forall|k: Seq<Seq<char>>|
                #[trigger] final(self).typing().contains_key(k) <==> old(
                    self,
                ).typing().contains_key(k) && !(k[0] == tenant_id@ && k[2] == user_id@),
            forall|k: Seq<Seq<char>>|
                #[trigger] final(self).typing().contains_key(k) ==> final(self).typing()[k] == old(
                    self,
                ).typing()[k],
            forall|i: int|
                0 <= i < r@.len() ==> old(self).typing().contains_key(
                    typing_key(tenant_id@, #[trigger] r@[i]@, user_id@),
                ),
            forall|s: Seq<char>|
                old(self).typing().contains_key(#[trigger] typing_key(tenant_id@, s, user_id@))
                    ==> exists|i: int| 0 <= i < r@.len() && r@[i]@ == s,
            forall|i: int, j: int|
                0 <= i < r@.len() && 0 <= j < r@.len() && i != j ==> (#[trigger] r@[i])@ != (
                #[trigger] r@[j])@,
    {
        let ghost keep = |k: Seq<Seq<char>>, v: u64| !(k[0] == tenant_id@ && k[2] == user_id@);
        let mut mask: Vec<bool> = Vec::new();
        let mut m: usize = 0;
        while m < self.entries.entry_count()
            invariant
                self.wf(),
                m <= self.entries.entries().len(),
                mask@.len() == m,
                forall|k: Seq<Seq<char>>, v: u64|
                    #[trigger] keep(k, v) == !(k[0] == tenant_id@ && k[2] == user_id@),
                forall|j: int|
                    0 <= j < m ==> mask@[j] == keep(
                        key_view(#[trigger] self.entries.entries()[j].0),
                        self.entries.entries()[j].1,
                    ),
            decreases self.entries.entries().len() - m,
        {
            let e = self.entries.entry(m);
            proof {
                self.entries.lemma_view();
                crate::registry::table::lemma_entries_map(self.entries.entries());
                assert(self.entries@.contains_key(key_view(self.entries.entries()[m as int].0)));
            }
            let k = &e.0;
            let matches = crate::text::str_eq(k[0].as_str(), tenant_id) && crate::text::str_eq(
                k[2].as_str(),
                user_id,
            );
            assert(matches == !keep(key_view(e.0), e.1));
            mask.push(!matches);
            m += 1;
        }
        let removed = self.entries.retain_mask(mask, Ghost(keep));
        let mut out: Vec<String> = Vec::new();
        let mut i: usize = 0;
        while i < removed.len()
            invariant
                i <= removed@.len(),
                out@.len() == i,
                triple_keys(old(self).typing()),
                keys_unique(removed@),
                forall|k: Seq<Seq<char>>, v: u64|
                    #[trigger] keep(k, v) == !(k[0] == tenant_id@ && k[2] == user_id@),
                forall|x: (Vec<String>, u64)|
                    #[trigger] removed@.contains(x) ==> old(self).typing().contains_key(
                        key_view(x.0),
                    ) && old(self).typing()[key_view(x.0)] == x.1 && !keep(key_view(x.0), x.1),
                forall|j: int|
                    0 <= j < i ==> typing_key(tenant_id@, #[trigger] out@[j]@, user_id@) == key_view(
                        removed@[j].0,
                    ),
            decreases removed@.len() - i,
        {
            assert(removed@.contains(removed@[i as int]));
            let k = &removed[i].0;
            let s = copy_str(k[1].as_str());
            proof {
                assert(typing_key(tenant_id@, s@, user_id@) =~= key_view(*k));
            }
            out.push(s);
            i += 1;
        }
        proof {
            assert forall|i: int, j: int|
                0 <= i < out@.len() && 0 <= j < out@.len() && i != j implies (#[trigger] out@[i])@
                != (#[trigger] out@[j])@ by {
                assert(key_view(removed@[i].0) != key_view(removed@[j].0));
            }
            assert forall|j: int| 0 <= j < out@.len() implies old(self).typing().contains_key(
                typing_key(tenant_id@, #[trigger] out@[j]@, user_id@),
            ) by {
                assert(removed@.contains(removed@[j]));
            }
            assert forall|s: Seq<char>|
                old(self).typing().contains_key(
                    #[trigger] typing_key(tenant_id@, s, user_id@),
                ) implies exists|i: int| 0 <= i < out@.len() && out@[i]@ == s by {
                let k = typing_key(tenant_id@, s, user_id@);
                assert(!keep(k, old(self).typing()[k]));
                let x = choose|x: (Vec<String>, u64)|
                    #[trigger] removed@.contains(x) && key_view(x.0) == k;
                let j = choose|j: int| 0 <= j < removed@.len() && removed@[j] == x;
                assert(typing_key(tenant_id@, out@[j]@, user_id@) == k);
                assert(k[1] == s);
            }
        }
        out
    }

    /// Removes the indicators that have lapsed at `now`, handing back their
    /// `(tenant, stream, user)` triples.
    pub fn expire_at(&mut self, now_ms: u64) -> (r: Vec<(String, String, String)>)
        requires
            old(self).wf(),
        ensures
            final(self).wf(),
            final(self).typing() == unlapsed(old(self).typing(), now_ms),
            lapsed_triples(old(self).typing(), r@, now_ms),
    {
        let ghost keep = |k: Seq<Seq<char>>, v: u64| !lapsed(v, now_ms);
        let mut mask: Vec<bool> = Vec::new();
        let mut m: usize = 0;
        while m < self.entries.entry_count()
            invariant
                m <= self.entries.entries().len(),
                mask@.len() == m,
                forall|k: Seq<Seq<char>>, v: u64| #[trigger] keep(k, v) == !lapsed(v, now_ms),
                forall|j: int|
                    0 <= j < m ==> mask@[j] == keep(
                        key_view(#[trigger] self.entries.entries()[j].0),
                        self.entries.entries()[j].1,
                    ),
            decreases self.entries.entries().len() - m,
        {
            let e = self.entries.entry(m);
            let started = e.1;
            let is_lapsed = now_ms >= started && now_ms - started >= TYPING_TTL_MS;
            assert(is_lapsed == !keep(key_view(e.0), e.1));
            mask.push(!is_lapsed);
            m += 1;
        }
        let removed = self.entries.retain_mask(mask, Ghost(keep));
        let mut out: Vec<(String, String, String)> = Vec::new();
        let mut i: usize = 0;
        while i < removed.len()
            invariant
                i <= removed@.len(),
                out@.len() == i,
                triple_keys(old(self).typing()),
                keys_unique(removed@),
                forall|k: Seq<Seq<char>>, v: u64| #[trigger] keep(k, v) == !lapsed(v, now_ms),
                forall|x: (Vec<String>, u64)|
                    #[trigger] removed@.contains(x) ==> old(self).typing().contains_key(
                        key_view(x.0),
                    ) && old(self).typing()[key_view(x.0)] == x.1 && !keep(key_view(x.0), x.1),
                forall|j: int|
                    0 <= j < i ==> typing_key(
                        (#[trigger] out@[j]).0@,
                        out@[j].1@,
                        out@[j].2@,
                    ) == key_view(removed@[j].0),
            decreases removed@.len() - i,
        {
            assert(removed@.contains(removed@[i as int]));
            let k = &removed[i].0;
            let t = (copy_str(k[0].as_str()), copy_str(k[1].as_str()), copy_str(k[2].as_str()));
            proof {
                assert(typing_key(t.0@, t.1@, t.2@) =~= key_view(*k));
            }
            out.push(t);
            i += 1;
        }
        proof {
            assert forall|i: int, j: int|
                0 <= i < out@.len() && 0 <= j < out@.len() && i != j implies typing_key(
                (#[trigger] out@[i]).0@,
                out@[i].1@,
                out@[i].2@,
            ) != typing_key((#[trigger] out@[j]).0@, out@[j].1@, out@[j].2@) by {
                assert(key_view(removed@[i].0) != key_view(removed@[j].0));
            }
            assert(self.typing() =~= unlapsed(old(self).typing(), now_ms));
            assert forall|j: int| #![trigger out@[j]] 0 <= j < out@.len() implies old(
                self,
            ).typing().contains_key(typing_key(out@[j].0@, out@[j].1@, out@[j].2@)) && lapsed(
                old(self).typing()[typing_key(out@[j].0@, out@[j].1@, out@[j].2@)],
                now_ms,
            ) by {
                assert(removed@.contains(removed@[j]));
            }
            assert forall|k: Seq<Seq<char>>|
                old(self).typing().contains_key(k) && lapsed(
                    old(self).typing()[k],
                    now_ms,
                ) implies exists|i: int|
                0 <= i < out@.len() && typing_key(out@[i].0@, out@[i].1@, out@[i].2@) == k by {
                assert(!keep(k, old(self).typing()[k]));
                let x = choose|x: (Vec<String>, u64)|
                    #[trigger] removed@.contains(x) && key_view(x.0) == k;
                let j = choose|j: int| 0 <= j < removed@.len() && removed@[j] == x;
                assert(typing_key(out@[j].0@, out@[j].1@, out@[j].2@) == k);
            }
        }
        out
    }

    /// Removes the indicators lapsed on the current clock.
    pub fn expire(&mut self) -> (r: Vec<(String, String, String)>)
        requires
            old(self).wf(),
        ensures
            final(self).wf(),
            exists|now_ms: u64|
                final(self).typing() == #[trigger] unlapsed(old(self).typing(), now_ms)
                    && lapsed_triples(old(self).typing(), r@, now_ms),
    {
        let now = now_millis_u64();
        self.expire_at(now)
    }
}

/// An indicator set at `now` is kept by an expiry pass before 10 seconds have passed,
/// and removed by one 10 seconds or more later.
pub proof fn lemma_typing_lapses(now_ms: u64, later_ms: u64)
    requires
        now_ms <= later_ms,
    ensures
        later_ms - now_ms < TYPING_TTL_MS ==> !lapsed(now_ms, later_ms),
        later_ms - now_ms >= TYPING_TTL_MS ==> lapsed(now_ms, later_ms),
{
}

} // verus!
