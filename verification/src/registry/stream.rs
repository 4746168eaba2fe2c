//! The streams of each tenant as the server holds them in memory: who is a member,
//! which connections of which users are subscribed, the event sequence counter, the
//! archived and public flags, and the last event published.
use vstd::prelude::*;
use vstd::string::*;
use dashmap::DashMap;
use crate::protocol::{ServerMessage, same_frame};
use crate::registry::connection::{ConnId, has_conn, remove_conn, copy_conns, listed, listed_upto, capped};
use crate::registry::table::{Table, key_view, entries_map, keys_unique, lemma_entries_map};
use crate::text::{copy_str, str_eq};

verus! {

broadcast use vstd::string::group_string_axioms;

/// The table key of one user.
pub open spec fn solo(u: Seq<char>) -> Seq<Seq<char>> {
    seq![u]
}

/// Every key of `m` names exactly one user.
pub open spec fn single_keys<V>(m: Map<Seq<Seq<char>>, V>) -> bool {
    forall|k: Seq<Seq<char>>| #[trigger] m.contains_key(k) ==> k.len() == 1
}

/// The key of the user `u`.
fn solo_key(u: &str) -> (k: Vec<String>)
    ensures
        key_view(k) == solo(u@),
        k@.len() == 1,
{
    let k = vec![copy_str(u)];
    assert(key_view(k) =~= solo(u@));
    k
}

proof fn lemma_solo_injective(a: Seq<char>, b: Seq<char>)
    ensures
        (solo(a) == solo(b)) == (a == b),
{
    if solo(a) == solo(b) {
        assert(solo(a)[0] == a);
        assert(solo(b)[0] == b);
    }
}

/// One stream's state.
pub struct StreamState {
    pub members: Table<()>,
    /// Per user, the connections subscribed (each at most once, never none).
    pub subscribers: Table<Vec<ConnId>>,
    pub sequence: u64,
    pub archived: bool,
    pub public: bool,
    /// The last `event.new` frame published to the stream, handed to late subscribers.
    pub last_event: Option<ServerMessage>,
}

/// How unsubscribing the connection `c` of the user `u` changes the subscriptions: the
/// connection leaves the user's set, and a user left with no connection leaves.
pub open spec fn drop_conn(subs: Map<Seq<char>, Set<ConnId>>, u: Seq<char>, c: ConnId) -> Map<
    Seq<char>,
    Set<ConnId>,
> {
    if subs.contains_key(u) {
        if subs[u].remove(c) == Set::<ConnId>::empty() {
            subs.remove(u)
        } else {
            subs.insert(u, subs[u].remove(c))
        }
    } else {
        subs
    }
}

/// The connections of `u` in `subs` (none if `u` is absent).
pub open spec fn conns_of(subs: Map<Seq<char>, Set<ConnId>>, u: Seq<char>) -> Set<ConnId> {
    if subs.contains_key(u) {
        subs[u]
    } else {
        Set::empty()
    }
}

/// Adds the size of `subs[u]` to `b`.
pub open spec fn add_conns(subs: Map<Seq<char>, Set<ConnId>>) -> spec_fn(nat, Seq<char>) -> nat {
    |b: nat, u: Seq<char>| b + subs[u].len()
}

/// The number of subscribed connections: the sizes of the users' sets, added up.
pub open spec fn conn_count(subs: Map<Seq<char>, Set<ConnId>>) -> nat {
    subs.dom().fold(0nat, add_conns(subs))
}

proof fn lemma_add_conns_commutative(subs: Map<Seq<char>, Set<ConnId>>)
    ensures
        vstd::set::fold::is_fun_commutative(add_conns(subs)),
{
    let f = add_conns(subs);
    assert forall|a1: Seq<char>, a2: Seq<char>, b: nat| #[trigger] f(f(b, a2), a1) == f(f(b, a1), a2) by {}
}

/// `a` and `b` agree on the sequence counter, the flags and the last event.
pub open spec fn same_flags(a: StreamState, b: StreamState) -> bool {
    &&& a.sequence == b.sequence
    &&& a.archived == b.archived
    &&& a.public == b.public
    &&& a.last_event == b.last_event
}

impl StreamState {
    /// The members, by user id.
    pub open spec fn members_of(&self) -> Set<Seq<char>> {
        Set::new(|u: Seq<char>| self.members@.contains_key(solo(u)))
    }

    /// The subscriptions: each subscribed user's set of connections.
    pub open spec fn subs_of(&self) -> Map<Seq<char>, Set<ConnId>> {
        Map::new(
            |u: Seq<char>| self.subscribers@.contains_key(solo(u)),
            |u: Seq<char>| self.subscribers@[solo(u)]@.to_set(),
        )
    }

    pub open spec fn wf(&self) -> bool {
        &&& self.members.wf()
        &&& self.subscribers.wf()
        &&& single_keys(self.members@)
        &&& single_keys(self.subscribers@)
        &&& forall|k: Seq<Seq<char>>| #[trigger]
            self.subscribers@.contains_key(k) ==> self.subscribers@[k]@.len() > 0
                && self.subscribers@[k]@.no_duplicates()
    }

    /// In a well-formed stream every subscribed user has at least one connection.
    pub proof fn lemma_subscribers_nonempty(&self)
        requires
            self.wf(),
        ensures
            forall|v: Seq<char>| #[trigger]
                self.subs_of().contains_key(v) ==> self.subs_of()[v] != Set::<ConnId>::empty(),
    {
        assert forall|v: Seq<char>| #[trigger] self.subs_of().contains_key(v) implies self.subs_of()[v]
            != Set::<ConnId>::empty() by {
            let c = self.subscribers@[solo(v)]@;
            assert(c.len() > 0);
            assert(c.to_set().contains(c[0]));
        }
    }

    /// In a well-formed stream finitely many users are subscribed, each with finitely
    /// many connections.
    pub proof fn lemma_subs_finite(&self)
        requires
            self.wf(),
        ensures
            self.subs_of().dom().finite(),
            forall|v: Seq<char>| #[trigger] self.subs_of().contains_key(v) ==> self.subs_of()[v].finite(),
    {
        self.subscribers.lemma_view();
        crate::registry::table::lemma_map_len(self.subscribers.entries());
        let keys = self.subscribers@.dom();
        let pick = |k: Seq<Seq<char>>| k[0];
        keys.lemma_map_finite(pick);
        assert(self.subs_of().dom() =~= keys.map(pick)) by {
            assert forall|v: Seq<char>| self.subs_of().dom().contains(v) implies keys.map(pick).contains(v) by {
                assert(keys.contains(solo(v)));
                assert(pick(solo(v)) == v);
            }
            assert forall|v: Seq<char>| keys.map(pick).contains(v) implies self.subs_of().dom().contains(v) by {
                let k = choose|k: Seq<Seq<char>>| keys.contains(k) && pick(k) == v;
                assert(k.len() == 1);
                assert(k =~= solo(v));
            }
        }
        assert forall|v: Seq<char>| #[trigger] self.subs_of().contains_key(v) implies self.subs_of()[v].finite() by {
            vstd::seq_lib::seq_to_set_is_finite(self.subscribers@[solo(v)]@);
        }
    }

    /// A new stream: no members, no subscriptions, the counter at `initial_seq`, not
    /// archived, and no last event.
    pub fn new(initial_seq: u64, public: bool) -> (s: StreamState)
        ensures
            s.wf(),
            s.members_of() == Set::<Seq<char>>::empty(),
            s.subs_of() == Map::<Seq<char>, Set<ConnId>>::empty(),
            s.sequence == initial_seq,
            !s.archived,
            s.public == public,
            s.last_event is None,
    {
        let s = StreamState {
            members: Table::new(),
            subscribers: Table::new(),
            sequence: initial_seq,
            archived: false,
            public,
            last_event: None,
        };
        assert(s.members_of() =~= Set::<Seq<char>>::empty());
        assert(s.subs_of() =~= Map::<Seq<char>, Set<ConnId>>::empty());
        s
    }

    /// Makes `user` a member.
    pub fn add_member(&mut self, user: &str)
        requires
            old(self).wf(),
        ensures
            final(self).wf(),
            final(self).members_of() == old(self).members_of().insert(user@),
            final(self).subs_of() == old(self).subs_of(),
            same_flags(*final(self), *old(self)),
    {
        let k = solo_key(user);
        self.members.insert(k, ());
        assert forall|u: Seq<char>|
            self.members_of().contains(u) == old(self).members_of().insert(user@).contains(u) by {
            lemma_solo_injective(u, user@);
        }
        assert(self.members_of() =~= old(self).members_of().insert(user@));
        assert(self.subs_of() =~= old(self).subs_of());
    }

    /// `user` stops being a member, and their subscriptions end.
    pub fn remove_member(&mut self, user: &str)
        requires
            old(self).wf(),
        ensures
            final(self).wf(),
            final(self).members_of() == old(self).members_of().remove(user@),
            final(self).subs_of() == old(self).subs_of().remove(user@),
            same_flags(*final(self), *old(self)),
    {
        let k = solo_key(user);
        let _ = self.members.remove(&k);
        let _ = self.subscribers.remove(&k);
        assert forall|u: Seq<char>|
            self.members_of().contains(u) == old(self).members_of().remove(user@).contains(u) by {
            lemma_solo_injective(u, user@);
        }
        assert(self.members_of() =~= old(self).members_of().remove(user@));
        assert forall|u: Seq<char>|
            self.subs_of().contains_key(u) == old(self).subs_of().remove(user@).contains_key(u) by {
            lemma_solo_injective(u, user@);
        }
        assert(self.subs_of() =~= old(self).subs_of().remove(user@));
    }

    /// Whether `user` is a member.
    pub fn is_member(&self, user: &str) -> (r: bool)
        requires
            self.wf(),
        ensures
            r == self.members_of().contains(user@),
    {
        let k = solo_key(user);
        self.members.get(&k).is_some()
    }

    /// Subscribes the connection `conn` of `user`.
    pub fn subscribe(&mut self, user: &str, conn: ConnId)
        requires
            old(self).wf(),
        ensures
            final(self).wf(),
            final(self).subs_of() == old(self).subs_of().insert(
                user@,
                conns_of(old(self).subs_of(), user@).insert(conn),
            ),
            final(self).members_of() == old(self).members_of(),
            same_flags(*final(self), *old(self)),
    {
        let k = solo_key(user);
        let ghost old_subs = old(self).subs_of();
        let conns = match self.subscribers.remove(&k) {
            Some(mut v) => {
                let ghost before = v@;
                proof {
                    assert(old_subs.contains_key(user@));
                    assert(old_subs[user@] == before.to_set());
                }
                if !has_conn(&v, conn) {
                    v.push(conn);
                    proof {
                        assert forall|a: int, b: int|
                            0 <= a < v@.len() && 0 <= b < v@.len() && a != b implies v@[a]
                            != v@[b] by {
                            if a < before.len() && b < before.len() {
                                assert(v@[a] == before[a] && v@[b] == before[b]);
                            } else if a < before.len() {
                                assert(v@[a] == before[a]);
                                assert(before.contains(before[a]));
                            } else {
                                assert(v@[b] == before[b]);
                                assert(before.contains(before[b]));
                            }
                        }
                        assert(v@ == before.push(conn));
                        before.lemma_push_to_set_commute(conn);
                    }
                } else {
                    proof {
                        assert(before.to_set().insert(conn) =~= before.to_set());
                    }
                }
                v
            },
            None => {
                proof {
                    assert(!old_subs.contains_key(user@));
                }
                let v = vec![conn];
                proof {
                    assert(v@.to_set() =~= Set::<ConnId>::empty().insert(conn));
                }
                v
            },
        };
        let ghost cv = conns@;
        assert(cv.to_set() == conns_of(old_subs, user@).insert(conn));
        self.subscribers.insert(k, conns);
        proof {
            assert forall|u: Seq<char>|
                self.subs_of().contains_key(u) == old_subs.insert(
                    user@,
                    conns_of(old_subs, user@).insert(conn),
                ).contains_key(u) by {
                lemma_solo_injective(u, user@);
            }
            assert forall|u: Seq<char>| #[trigger]
                self.subs_of().contains_key(u) implies self.subs_of()[u] == old_subs.insert(
                user@,
                conns_of(old_subs, user@).insert(conn),
            )[u] by {
                lemma_solo_injective(u, user@);
            }
            assert(self.subs_of() =~= old_subs.insert(user@, conns_of(old_subs, user@).insert(conn)));
            assert(self.members_of() =~= old(self).members_of());
        }
    }

    /// Ends the subscription of the connection `conn` of `user`; whether it was
    /// subscribed.
    pub fn unsubscribe(&mut self, user: &str, conn: ConnId) -> (was: bool)
        requires
            old(self).wf(),
        ensures
            final(self).wf(),
            was == conns_of(old(self).subs_of(), user@).contains(conn),
            final(self).subs_of() == drop_conn(old(self).subs_of(), user@, conn),
            final(self).members_of() == old(self).members_of(),
            same_flags(*final(self), *old(self)),
    {
        let k = solo_key(user);
        let ghost k0 = key_view(k);
        let ghost old_subs = old(self).subs_of();
        match self.subscribers.remove(&k) {
            Some(mut v) => {
                let ghost before = v@;
                assert(old_subs.contains_key(user@));
                assert(old_subs[user@] == before.to_set());
                let was = remove_conn(&mut v, conn);
                if v.len() == 0 {
                    proof {
                        assert(before.to_set().remove(conn) =~= Set::<ConnId>::empty()) by {
                            assert forall|x: ConnId| !before.to_set().remove(conn).contains(x) by {
                                if before.to_set().remove(conn).contains(x) {
                                    assert(v@.to_set().contains(x));
                                }
                            }
                        }
                        assert forall|u: Seq<char>|
                            self.subs_of().contains_key(u) == old_subs.remove(user@).contains_key(
                                u,
                            ) by {
                            lemma_solo_injective(u, user@);
                        }
                        assert(self.subs_of() =~= old_subs.remove(user@));
                    }
                } else {
                    let ghost cv = v@;
                    self.subscribers.insert(k, v);
                    proof {
                        assert(cv.to_set() != Set::<ConnId>::empty()) by {
                            assert(cv.to_set().contains(cv[0]));
                        }
                        assert forall|u: Seq<char>|
                            self.subs_of().contains_key(u) == old_subs.insert(
                                user@,
                                old_subs[user@].remove(conn),
                            ).contains_key(u) by {
                            lemma_solo_injective(u, user@);
                        }
                        assert forall|u: Seq<char>| #[trigger]
                            self.subs_of().contains_key(u) implies self.subs_of()[u]
                            == old_subs.insert(user@, old_subs[user@].remove(conn))[u] by {
                            lemma_solo_injective(u, user@);
                        }
                        assert(self.subs_of() =~= old_subs.insert(
                            user@,
                            old_subs[user@].remove(conn),
                        ));
                    }
                }
                proof {
                    assert(self.members_of() =~= old(self).members_of());
                }
                was
            },
            None => {
                proof {
                    assert(!old_subs.contains_key(user@));
                    assert(self.subs_of() =~= old_subs);
                    assert(self.members_of() =~= old(self).members_of());
                }
                false
            },
        }
    }
}

impl StreamState {
    /// The members, each once, in no particular order.
    pub fn member_list(&self) -> (r: Vec<String>)
        requires
            self.wf(),
        ensures
            forall|i: int| 0 <= i < r@.len() ==> self.members_of().contains(#[trigger] r@[i]@),
            forall|u: Seq<char>| #[trigger]
                self.members_of().contains(u) ==> exists|i: int| 0 <= i < r@.len() && r@[i]@ == u,
            forall|i: int, j: int| 0 <= i < r@.len() && 0 <= j < r@.len() && i != j ==> r@[i]@ != r@[j]@,
    {
        proof {
            self.members.lemma_view();
            lemma_entries_map(self.members.entries());
        }
        let ghost e = self.members.entries();
        let n = self.members.entry_count();
        let mut r: Vec<String> = Vec::new();
        let mut i: usize = 0;
        while i < n
            invariant
                self.wf(),
                e == self.members.entries(),
                self.members@ == entries_map(e),
                keys_unique(e),
                n == e.len(),
                i <= n,
                r@.len() == i,
                forall|j: int| 0 <= j < i ==> solo(#[trigger] r@[j]@) == key_view(e[j].0),
                forall|j: int|
                    0 <= j < e.len() ==> #[trigger] entries_map(e).contains_key(key_view(e[j].0)),
            decreases n - i,
        {
            let entry = self.members.entry(i);
            proof {
                assert(entries_map(e).contains_key(key_view(e[i as int].0)));
                assert(key_view(entry.0).len() == 1);
            }
            let u = copy_str(entry.0[0].as_str());
            proof {
                assert(solo(u@) =~= key_view(entry.0));
            }
            r.push(u);
            i += 1;
        }
        proof {
            assert forall|i: int| 0 <= i < r@.len() implies self.members_of().contains(
                #[trigger] r@[i]@,
            ) by {
                assert(solo(r@[i]@) == key_view(e[i].0));
            }
            assert forall|u: Seq<char>| #[trigger]
                self.members_of().contains(u) implies exists|i: int|
                0 <= i < r@.len() && r@[i]@ == u by {
                assert(entries_map(e).contains_key(solo(u)));
                let j = choose|j: int| 0 <= j < e.len() && key_view(e[j].0) == solo(u);
                assert(solo(r@[j]@) == solo(u));
                lemma_solo_injective(r@[j]@, u);
            }
            assert forall|i: int, j: int|
                0 <= i < r@.len() && 0 <= j < r@.len() && i != j implies r@[i]@ != r@[j]@ by {
                assert(solo(r@[i]@) == key_view(e[i].0));
                assert(solo(r@[j]@) == key_view(e[j].0));
            }
        }
        r
    }

    /// The subscriptions, user by user, each user once, in no particular order.
    pub fn subscriber_list(&self) -> (r: Vec<(String, Vec<ConnId>)>)
        requires
            self.wf(),
        ensures
            forall|i: int|
                0 <= i < r@.len() ==> self.subs_of().contains_key(#[trigger] r@[i].0@)
                    && r@[i].1@.to_set() == self.subs_of()[r@[i].0@] && r@[i].1@.no_duplicates(),
            forall|u: Seq<char>| #[trigger]
                self.subs_of().contains_key(u) ==> exists|i: int| 0 <= i < r@.len() && r@[i].0@ == u,
            forall|i: int, j: int|
                0 <= i < r@.len() && 0 <= j < r@.len() && i != j ==> r@[i].0@ != r@[j].0@,
    {
        proof {
            self.subscribers.lemma_view();
            lemma_entries_map(self.subscribers.entries());
        }
        let ghost e = self.subscribers.entries();
        let n = self.subscribers.entry_count();
        let mut r: Vec<(String, Vec<ConnId>)> = Vec::new();
        let mut i: usize = 0;
        while i < n
            invariant
                self.wf(),
                e == self.subscribers.entries(),
                self.subscribers@ == entries_map(e),
                keys_unique(e),
                n == e.len(),
                i <= n,
                r@.len() == i,
                forall|j: int|
                    0 <= j < i ==> solo(#[trigger] r@[j].0@) == key_view(e[j].0) && r@[j].1@
                        == e[j].1@,
                forall|j: int|
                    0 <= j < e.len() ==> #[trigger] entries_map(e).contains_key(key_view(e[j].0))
                        && entries_map(e)[key_view(e[j].0)] == e[j].1,
            decreases n - i,
        {
            let entry = self.subscribers.entry(i);
            proof {
                assert(entries_map(e).contains_key(key_view(e[i as int].0)));
                assert(key_view(entry.0).len() == 1);
            }
            let u = copy_str(entry.0[0].as_str());
            let conns = copy_conns(&entry.1);
            proof {
                assert(solo(u@) =~= key_view(entry.0));
            }
            r.push((u, conns));
            i += 1;
        }
        proof {
            assert forall|i: int| 0 <= i < r@.len() implies self.subs_of().contains_key(
                #[trigger] r@[i].0@,
            ) && r@[i].1@.to_set() == self.subs_of()[r@[i].0@] && r@[i].1@.no_duplicates() by {
                assert(solo(r@[i].0@) == key_view(e[i].0));
                assert(entries_map(e).contains_key(key_view(e[i].0)));
            }
            assert forall|u: Seq<char>| #[trigger]
                self.subs_of().contains_key(u) implies exists|i: int|
                0 <= i < r@.len() && r@[i].0@ == u by {
                assert(entries_map(e).contains_key(solo(u)));
                let j = choose|j: int| 0 <= j < e.len() && key_view(e[j].0) == solo(u);
                assert(solo(r@[j].0@) == solo(u));
                lemma_solo_injective(r@[j].0@, u);
            }
            assert forall|i: int, j: int|
                0 <= i < r@.len() && 0 <= j < r@.len() && i != j implies r@[i].0@ != r@[j].0@ by {
                assert(solo(r@[i].0@) == key_view(e[i].0));
                assert(solo(r@[j].0@) == key_view(e[j].0));
            }
        }
        r
    }

    /// The number of subscribed connections, counted up to `usize::MAX`.
    pub fn subscriber_count(&self) -> (n: usize)
        requires
            self.wf(),
        ensures
            n == capped(conn_count(self.subs_of())),
    {
        proof {
            self.subscribers.lemma_view();
            lemma_entries_map(self.subscribers.entries());
            lemma_add_conns_commutative(self.subs_of());
        }
        let ghost e = self.subscribers.entries();
        let ghost subs = self.subs_of();
        let ghost f = add_conns(subs);
        let ghost mut seen: Set<Seq<char>> = Set::empty();
        proof {
            vstd::set::fold::lemma_fold_empty(0nat, f);
        }
        let count = self.subscribers.entry_count();
        let mut n: usize = 0;
        let mut i: usize = 0;
        while i < count
            invariant
                self.wf(),
                e == self.subscribers.entries(),
                subs == self.subs_of(),
                f == add_conns(subs),
                vstd::set::fold::is_fun_commutative(f),
                self.subscribers@ == entries_map(e),
                keys_unique(e),
                forall|j: int|
                    0 <= j < e.len() ==> #[trigger] entries_map(e).contains_key(key_view(e[j].0))
                        && entries_map(e)[key_view(e[j].0)] == e[j].1,
                count == e.len(),
                i <= count,
                seen.finite(),
                forall|u: Seq<char>| #[trigger]
                    seen.contains(u) <==> exists|j: int| 0 <= j < i && key_view(e[j].0) == solo(u),
                n == capped(seen.fold(0nat, f)),
            decreases count - i,
        {
            let entry = self.subscribers.entry(i);
            let ghost u = entry.0@[0]@;
            proof {
                assert(entries_map(e).contains_key(key_view(e[i as int].0)));
                assert(key_view(entry.0).len() == 1);
                assert(key_view(entry.0) =~= solo(u));
                assert(!seen.contains(u)) by {
                    if seen.contains(u) {
                        let j = choose|j: int| 0 <= j < i && key_view(e[j].0) == solo(u);
                        assert(key_view(e[j].0) != key_view(e[i as int].0));
                    }
                }
                assert(subs.contains_key(u));
                assert(subs[u] == entry.1@.to_set());
                entry.1@.unique_seq_to_set();
                vstd::set::fold::lemma_fold_insert(seen, 0nat, f, u);
                seen = seen.insert(u);
                assert forall|v: Seq<char>| #[trigger]
                    seen.contains(v) <==> exists|j: int| 0 <= j < i + 1 && key_view(e[j].0) == solo(v) by {
                    if seen.contains(v) && v != u {
                        let j = choose|j: int| 0 <= j < i && key_view(e[j].0) == solo(v);
                        assert(0 <= j < i + 1);
                    }
                    if exists|j: int| 0 <= j < i + 1 && key_view(e[j].0) == solo(v) {
                        let j = choose|j: int| 0 <= j < i + 1 && key_view(e[j].0) == solo(v);
                        if j == i {
                            lemma_solo_injective(u, v);
                        }
                    }
                    if v == u {
                        assert(key_view(e[i as int].0) == solo(v));
                    }
                }
            }
            n = n.saturating_add(entry.1.len());
            i += 1;
        }
        proof {
            assert(seen =~= subs.dom()) by {
                assert forall|u: Seq<char>| seen.contains(u) implies subs.dom().contains(u) by {
                    let j = choose|j: int| 0 <= j < i && key_view(e[j].0) == solo(u);
                    assert(entries_map(e).contains_key(key_view(e[j].0)));
                }
                assert forall|u: Seq<char>| subs.dom().contains(u) implies seen.contains(u) by {
                    assert(entries_map(e).contains_key(solo(u)));
                    let j = choose|j: int| 0 <= j < e.len() && key_view(e[j].0) == solo(u);
                    assert(0 <= j < i);
                }
            }
        }
        n
    }
}

#[verifier::external_type_specification]
#[verifier::external_body]
#[verifier::reject_recursive_types(K)]
#[verifier::reject_recursive_types(V)]
#[verifier::reject_recursive_types(S)]
pub struct ExDashMap<K, V, S>(DashMap<K, V, S>);

/// The streams that a `DashMap` holds, by `(tenant id, stream id)`.
pub uninterp spec fn stream_entries(m: DashMap<(String, String), StreamState>) -> Map<
    (Seq<char>, Seq<char>),
    StreamState,
>;

/// No streams at all.
pub open spec fn no_streams() -> Map<(Seq<char>, Seq<char>), StreamState> {
    Map::empty()
}

/// `DashMap::new`: a map with no entries.
#[verifier::external_body]
fn streams_new() -> (fresh: DashMap<(String, String), StreamState>)
    ensures
        stream_entries(fresh) == no_streams(),
{
    DashMap::new()
}

/// `DashMap::insert`: the key now maps to `v` (keys are equal when their strings are).
#[verifier::external_body]
fn streams_insert(m: &mut DashMap<(String, String), StreamState>, k: (String, String), v: StreamState)
    ensures
        stream_entries(*final(m)) == stream_entries(*old(m)).insert(k@, v),
{
    m.insert(k, v);
}

/// `DashMap::remove`: the key leaves the map, and the value it had, if any, is handed
/// back.
#[verifier::external_body]
fn streams_remove(m: &mut DashMap<(String, String), StreamState>, k: &(String, String)) -> (r: Option<
    StreamState,
>)
    ensures
        stream_entries(*final(m)) == stream_entries(*old(m)).remove(k@),
        match r {
            Some(v) => stream_entries(*old(m)).contains_key(k@) && v == stream_entries(*old(m))[k@],
            None => !stream_entries(*old(m)).contains_key(k@),
        },
{
    m.remove(k).map(|(_, v)| v)
}

/// `DashMap::contains_key`.
#[verifier::external_body]
fn streams_contains(m: &DashMap<(String, String), StreamState>, k: &(String, String)) -> (r: bool)
    ensures
        r == stream_entries(*m).contains_key(k@),
{
    m.contains_key(k)
}

/// `DashMap::len`: the number of entries.
#[verifier::external_body]
fn streams_len(m: &DashMap<(String, String), StreamState>) -> (n: usize)
    ensures
        n == stream_entries(*m).len(),
{
    m.len()
}

/// `DashMap::iter`, keeping the keys: each key of the map once, in an order that the map
/// leaves open.
#[verifier::external_body]
fn streams_keys(m: &DashMap<(String, String), StreamState>) -> (ks: Vec<(String, String)>)
    ensures
        forall|i: int| 0 <= i < ks@.len() ==> stream_entries(*m).contains_key(#[trigger] ks@[i]@),
        forall|k: (Seq<char>, Seq<char>)| #[trigger]
            stream_entries(*m).contains_key(k) ==> exists|i: int| 0 <= i < ks@.len() && ks@[i]@ == k,
        forall|i: int, j: int|
            0 <= i < ks@.len() && 0 <= j < ks@.len() && i != j ==> ks@[i]@ != ks@[j]@,
{
    m.iter().map(|e| e.key().clone()).collect()
}

/// The key of the stream `stream_id` of the tenant `tenant_id`.
fn stream_key(tenant_id: &str, stream_id: &str) -> (k: (String, String))
    ensures
        k@ == (tenant_id@, stream_id@),
{
    (copy_str(tenant_id), copy_str(stream_id))
}

/// `new` is `old` with the entry of `k`, if there is one, replaced by the one in `new`.
pub open spec fn updated(
    old: Map<(Seq<char>, Seq<char>), StreamState>,
    new: Map<(Seq<char>, Seq<char>), StreamState>,
    k: (Seq<char>, Seq<char>),
) -> bool {
    if old.contains_key(k) {
        new == old.insert(k, new[k])
    } else {
        new == old
    }
}

/// A stream just created with `initial_seq` and `public`.
pub open spec fn fresh_stream(s: StreamState, initial_seq: u64, public: bool) -> bool {
    &&& s.members_of() == Set::<Seq<char>>::empty()
    &&& s.subs_of() == Map::<Seq<char>, Set<ConnId>>::empty()
    &&& s.sequence == initial_seq
    &&& !s.archived
    &&& s.public == public
    &&& s.last_event is None
}

/// The keys of the streams of the tenant `t`.
pub open spec fn tenant_keys(m: Map<(Seq<char>, Seq<char>), StreamState>, t: Seq<char>) -> Set<
    (Seq<char>, Seq<char>),
> {
    m.dom().filter(|k: (Seq<char>, Seq<char>)| k.0 == t)
}

/// Unsubscribing a connection undoes subscribing it: when `c` was not among the
/// connections of `u`, subscribing it and then unsubscribing it gives the subscriptions
/// back as they were (every user listed has at least one connection, as in a stream).
pub proof fn lemma_unsubscribe_undoes_subscribe(subs: Map<Seq<char>, Set<ConnId>>, u: Seq<char>, c: ConnId)
    requires
        forall|v: Seq<char>| #[trigger] subs.contains_key(v) ==> subs[v] != Set::<ConnId>::empty(),
        !conns_of(subs, u).contains(c),
    ensures
        drop_conn(subs.insert(u, conns_of(subs, u).insert(c)), u, c) == subs,
{
    let after = subs.insert(u, conns_of(subs, u).insert(c));
    assert(after[u].remove(c) =~= conns_of(subs, u));
    if subs.contains_key(u) {
        assert(after[u].remove(c) != Set::<ConnId>::empty());
        assert(after.insert(u, after[u].remove(c)) =~= subs);
    } else {
        assert(conns_of(subs, u) == Set::<ConnId>::empty());
        assert(after.remove(u) =~= subs);
    }
}

/// Folding with two functions that agree on every element of a finite set gives the
/// same result.
proof fn lemma_fold_congruent(
    s: Set<Seq<char>>,
    f: spec_fn(nat, Seq<char>) -> nat,
    g: spec_fn(nat, Seq<char>) -> nat,
)
    requires
        s.finite(),
        vstd::set::fold::is_fun_commutative(f),
        vstd::set::fold::is_fun_commutative(g),
        forall|b: nat, a: Seq<char>| s.contains(a) ==> #[trigger] f(b, a) == g(b, a),
    ensures
        s.fold(0nat, f) == s.fold(0nat, g),
    decreases s.len(),
{
    if s.len() == 0 {
        assert(s =~= Set::<Seq<char>>::empty());
        vstd::set::fold::lemma_fold_empty(0nat, f);
        vstd::set::fold::lemma_fold_empty(0nat, g);
    } else {
        let a = s.choose();
        let r = s.remove(a);
        assert(r.insert(a) =~= s);
        lemma_fold_congruent(r, f, g);
        vstd::set::fold::lemma_fold_insert(r, 0nat, f, a);
        vstd::set::fold::lemma_fold_insert(r, 0nat, g, a);
        assert(f(r.fold(0nat, f), a) == g(r.fold(0nat, f), a));
    }
}

/// Subscribing a connection that was not subscribed adds one to the number of
/// subscribed connections.
pub proof fn lemma_subscribe_adds_one(a: StreamState, b: StreamState, u: Seq<char>, c: ConnId)
    requires
        a.wf(),
        b.subs_of() == a.subs_of().insert(u, conns_of(a.subs_of(), u).insert(c)),
        !conns_of(a.subs_of(), u).contains(c),
    ensures
        conn_count(b.subs_of()) == conn_count(a.subs_of()) + 1,
{
    let sa = a.subs_of();
    let sb = b.subs_of();
    a.lemma_subs_finite();
    let f = add_conns(sa);
    let g = add_conns(sb);
    lemma_add_conns_commutative(sa);
    lemma_add_conns_commutative(sb);
    let old_set = conns_of(sa, u);
    assert(old_set.finite()) by {
        if sa.contains_key(u) {
            assert(sa[u] == a.subscribers@[solo(u)]@.to_set());
        }
    }
    assert(old_set.insert(c).len() == old_set.len() + 1);
    let rest = sa.dom().remove(u);
    assert forall|bb: nat, x: Seq<char>| rest.contains(x) implies #[trigger] f(bb, x) == g(bb, x) by {
        assert(sb[x] == sa[x]);
    }
    lemma_fold_congruent(rest, f, g);
    vstd::set::fold::lemma_fold_insert(rest, 0nat, f, u);
    vstd::set::fold::lemma_fold_insert(rest, 0nat, g, u);
    if sa.contains_key(u) {
        assert(rest.insert(u) =~= sa.dom());
        assert(sb.dom() =~= sa.dom());
    } else {
        assert(rest =~= sa.dom());
        assert(sb.dom() =~= rest.insert(u));
        assert(old_set == Set::<ConnId>::empty());
    }
}

/// The cache gives back what was put in it: when `set_last_event(t, s, m)` took an
/// existing stream from `s1` to `s2`, a `get_last_event(t, s)` on `s2` that answered `r`
/// hands back a copy of `m`.
pub proof fn lemma_cached_event_read_back(
    s1: StreamRegistry,
    s2: StreamRegistry,
    t: Seq<char>,
    s: Seq<char>,
    m: ServerMessage,
    r: Option<ServerMessage>,
)
    requires
        s1.streams().contains_key((t, s)),
        updated(s1.streams(), s2.streams(), (t, s)),
        s2.streams()[(t, s)].last_event == Some(m),
        match r {
            Some(x) => s2.streams().contains_key((t, s)) && (s2.streams()[(t, s)].last_event matches Some(
                c,
            ) && same_frame(c, x)),
            None => !s2.streams().contains_key((t, s)) || s2.streams()[(t, s)].last_event is None,
        },
    ensures
        r matches Some(x) && same_frame(m, x),
{
    assert(s2.streams().contains_key((t, s)));
}

/// How `unsubscribe_conn_from_all` leaves the stream `a` as `b`, for a stream of the
/// tenant concerned.
pub open spec fn conn_dropped(a: StreamState, b: StreamState, u: Seq<char>, c: ConnId) -> bool {
    &&& b.wf()
    &&& b.subs_of() == drop_conn(a.subs_of(), u, c)
    &&& b.members_of() == a.members_of()
    &&& same_flags(b, a)
}

/// The streams of all tenants: an entry per `(tenant id, stream id)`.
pub struct StreamRegistry {
    streams: DashMap<(String, String), StreamState>,
}

impl StreamRegistry {
    /// The streams, by `(tenant id, stream id)`.
    pub closed spec fn streams(&self) -> Map<(Seq<char>, Seq<char>), StreamState> {
        stream_entries(self.streams)
    }

    /// Every stream held is well formed.
    pub closed spec fn wf(&self) -> bool {
        forall|k: (Seq<char>, Seq<char>)| #[trigger]
            self.streams().contains_key(k) ==> self.streams()[k].wf()
    }

    /// No streams.
    pub fn new() -> (r: StreamRegistry)
        ensures
            r.wf(),
            r.streams() == Map::<(Seq<char>, Seq<char>), StreamState>::empty(),
    {
        StreamRegistry { streams: streams_new() }
    }

    /// Takes the stream `k` out, if it is there.
    fn take(&mut self, k: &(String, String)) -> (r: Option<StreamState>)
        requires
            old(self).wf(),
        ensures
            final(self).wf(),
            final(self).streams() == old(self).streams().remove(k@),
            match r {
                Some(s) => old(self).streams().contains_key(k@) && s == old(self).streams()[k@]
                    && s.wf(),
                None => !old(self).streams().contains_key(k@) && final(self).streams() == old(
                    self,
                ).streams(),
            },
    {
        let r = streams_remove(&mut self.streams, k);
        proof {
            if r is None {
                assert(self.streams() =~= old(self).streams());
            }
        }
        r
    }

    /// Puts the stream `k` back.
    fn put(&mut self, k: (String, String), s: StreamState)
        requires
            old(self).wf(),
            s.wf(),
        ensures
            final(self).wf(),
            final(self).streams() == old(self).streams().insert(k@, s),
    {
        streams_insert(&mut self.streams, k, s);
    }

    /// Creates the stream if it does not exist yet; an existing stream is left as it is.
    pub fn create_stream(&mut self, tenant_id: &str, stream_id: &str, initial_seq: u64, public: bool)
        requires
            old(self).wf(),
        ensures
            final(self).wf(),
            old(self).streams().contains_key((tenant_id@, stream_id@)) ==> final(self).streams()
                == old(self).streams(),
            !old(self).streams().contains_key((tenant_id@, stream_id@)) ==> final(self).streams()
                == old(self).streams().insert(
                (tenant_id@, stream_id@),
                final(self).streams()[(tenant_id@, stream_id@)],
            ) && fresh_stream(
                final(self).streams()[(tenant_id@, stream_id@)],
                initial_seq,
                public,
            ),
    {
        let k = stream_key(tenant_id, stream_id);
        if !streams_contains(&self.streams, &k) {
            let s = StreamState::new(initial_seq, public);
            self.put(k, s);
        }
    }

    /// Loads a stored stream at startup: created (if new) with its latest sequence number
    /// and public flag, archived if it was, and with its members added.
    pub fn hydrate_stream(
        &mut self,
        tenant_id: &str,
        stream_id: &str,
        latest_seq: u64,
        public: bool,
        archived: bool,
        members: &Vec<String>,
    )
        requires
            old(self).wf(),
        ensures
            final(self).wf(),
            final(self).streams() == old(self).streams().insert(
                (tenant_id@, stream_id@),
                final(self).streams()[(tenant_id@, stream_id@)],
            ),
            ({
                let b = final(self).streams()[(tenant_id@, stream_id@)];
                if old(self).streams().contains_key((tenant_id@, stream_id@)) {
                    let a = old(self).streams()[(tenant_id@, stream_id@)];
                    &&& b.members_of() == a.members_of().union(Set::new(|u: Seq<char>| listed(*members, u)))
                    &&& b.subs_of() == a.subs_of()
                    &&& b.sequence == a.sequence
                    &&& b.archived == (a.archived || archived)
                    &&& b.public == a.public
                    &&& b.last_event == a.last_event
                } else {
                    &&& b.members_of() == Set::new(|u: Seq<char>| listed(*members, u))
                    &&& b.subs_of() == Map::<Seq<char>, Set<ConnId>>::empty()
                    &&& b.sequence == latest_seq
                    &&& b.archived == archived
                    &&& b.public == public
                    &&& b.last_event is None
                }
            }),
    {
        let k = stream_key(tenant_id, stream_id);
        let mut s = match self.take(&k) {
            Some(s) => s,
            None => StreamState::new(latest_seq, public),
        };
        let ghost a = s;
        if archived {
            s.archived = true;
        }
        let mut i: usize = 0;
        while i < members.len()
            invariant
                s.wf(),
                i <= members@.len(),
                s.members_of() == a.members_of().union(
                    Set::new(|u: Seq<char>| listed_upto(*members, i as int, u)),
                ),
                s.subs_of() == a.subs_of(),
                s.sequence == a.sequence,
                s.archived == (a.archived || archived),
                s.public == a.public,
                s.last_event == a.last_event,
            decreases members@.len() - i,
        {
            s.add_member(members[i].as_str());
            assert(s.members_of() =~= a.members_of().union(
                Set::new(|u: Seq<char>| listed_upto(*members, i + 1, u)),
            )) by {
                assert forall|u: Seq<char>| #[trigger] listed_upto(*members, i + 1, u) implies listed_upto(
                    *members,
                    i as int,
                    u,
                ) || u == members@[i as int]@ by {
                    let j = choose|j: int| 0 <= j < i + 1 && j < members@.len() && members@[j]@ == u;
                    if j < i {
                        assert(0 <= j < i && members@[j]@ == u);
                    }
                }
                assert forall|u: Seq<char>| #[trigger] listed_upto(*members, i as int, u) implies listed_upto(
                    *members,
                    i + 1,
                    u,
                ) by {
                    let j = choose|j: int| 0 <= j < i && j < members@.len() && members@[j]@ == u;
                    assert(0 <= j < i + 1 && members@[j]@ == u);
                }
                assert(listed_upto(*members, i + 1, members@[i as int]@));
            }
            i += 1;
        }
        assert forall|u: Seq<char>| #[trigger] listed(*members, u) == listed_upto(*members, i as int, u) by {
            if listed(*members, u) {
                let j = choose|j: int| 0 <= j < members@.len() && members@[j]@ == u;
                assert(0 <= j < i && j < members@.len() && members@[j]@ == u);
            }
        }
        assert(s.members_of() =~= a.members_of().union(Set::new(|u: Seq<char>| listed(*members, u))));
        self.put(k, s);
        assert(self.streams() =~= old(self).streams().insert(
            (tenant_id@, stream_id@),
            self.streams()[(tenant_id@, stream_id@)],
        ));
    }

    /// Forgets the stream.
    pub fn remove_stream(&mut self, tenant_id: &str, stream_id: &str)
        requires
            old(self).wf(),
        ensures
            final(self).wf(),
            final(self).streams() == old(self).streams().remove((tenant_id@, stream_id@)),
    {
        let k = stream_key(tenant_id, stream_id);
        let _ = self.take(&k);
    }

    /// Makes `user_id` a member of the stream, if the stream exists.
    pub fn add_member(&mut self, tenant_id: &str, stream_id: &str, user_id: &str)
        requires
            old(self).wf(),
        ensures
            final(self).wf(),
            updated(old(self).streams(), final(self).streams(), (tenant_id@, stream_id@)),
            old(self).streams().contains_key((tenant_id@, stream_id@)) ==> {
                let a = old(self).streams()[(tenant_id@, stream_id@)];
                let b = final(self).streams()[(tenant_id@, stream_id@)];
                &&& b.members_of() == a.members_of().insert(user_id@)
                &&& b.subs_of() == a.subs_of()
                &&& same_flags(b, a)
            },
    {
        let k = stream_key(tenant_id, stream_id);
        if let Some(mut s) = self.take(&k) {
            s.add_member(user_id);
            self.put(k, s);
            assert(self.streams() =~= old(self).streams().insert(
                (tenant_id@, stream_id@),
                self.streams()[(tenant_id@, stream_id@)],
            ));
        }
    }

    /// Ends the membership of `user_id` in the stream, and their subscriptions to it.
    pub fn remove_member(&mut self, tenant_id: &str, stream_id: &str, user_id: &str)
        requires
            old(self).wf(),
        ensures
            final(self).wf(),
            updated(old(self).streams(), final(self).streams(), (tenant_id@, stream_id@)),
            old(self).streams().contains_key((tenant_id@, stream_id@)) ==> {
                let a = old(self).streams()[(tenant_id@, stream_id@)];
                let b = final(self).streams()[(tenant_id@, stream_id@)];
                &&& b.members_of() == a.members_of().remove(user_id@)
                &&& b.subs_of() == a.subs_of().remove(user_id@)
                &&& same_flags(b, a)
            },
    {
        let k = stream_key(tenant_id, stream_id);
        if let Some(mut s) = self.take(&k) {
            s.remove_member(user_id);
            self.put(k, s);
            assert(self.streams() =~= old(self).streams().insert(
                (tenant_id@, stream_id@),
                self.streams()[(tenant_id@, stream_id@)],
            ));
        }
    }

    /// Whether `user_id` is a member of the stream (`false` for a stream that does not
    /// exist).
    pub fn is_member(&mut self, tenant_id: &str, stream_id: &str, user_id: &str) -> (r: bool)
        requires
            old(self).wf(),
        ensures
            final(self).wf(),
            final(self).streams() == old(self).streams(),
            r == (old(self).streams().contains_key((tenant_id@, stream_id@)) && old(
                self,
            ).streams()[(tenant_id@, stream_id@)].members_of().contains(user_id@)),
    {
        let k = stream_key(tenant_id, stream_id);
        match self.take(&k) {
            Some(s) => {
                let r = s.is_member(user_id);
                self.put(k, s);
                assert(self.streams() =~= old(self).streams());
                r
            },
            None => false,
        }
    }

    /// Subscribes the connection `conn_id` of `user_id` to the stream, if it exists.
    pub fn subscribe(&mut self, tenant_id: &str, stream_id: &str, user_id: &str, conn_id: ConnId)
        requires
            old(self).wf(),
        ensures
            final(self).wf(),
            updated(old(self).streams(), final(self).streams(), (tenant_id@, stream_id@)),
            old(self).streams().contains_key((tenant_id@, stream_id@)) ==> {
                let a = old(self).streams()[(tenant_id@, stream_id@)];
                let b = final(self).streams()[(tenant_id@, stream_id@)];
                &&& b.subs_of() == a.subs_of().insert(
                    user_id@,
                    conns_of(a.subs_of(), user_id@).insert(conn_id),
                )
                &&& b.members_of() == a.members_of()
                &&& same_flags(b, a)
            },
    {
        let k = stream_key(tenant_id, stream_id);
        if let Some(mut s) = self.take(&k) {
            s.subscribe(user_id, conn_id);
            self.put(k, s);
            assert(self.streams() =~= old(self).streams().insert(
                (tenant_id@, stream_id@),
                self.streams()[(tenant_id@, stream_id@)],
            ));
        }
    }

    /// Ends the subscription of the connection `conn_id` of `user_id` to the stream.
    pub fn unsubscribe(&mut self, tenant_id: &str, stream_id: &str, user_id: &str, conn_id: ConnId)
        requires
            old(self).wf(),
        ensures
            final(self).wf(),
            updated(old(self).streams(), final(self).streams(), (tenant_id@, stream_id@)),
            old(self).streams().contains_key((tenant_id@, stream_id@)) ==> conn_dropped(
                old(self).streams()[(tenant_id@, stream_id@)],
                final(self).streams()[(tenant_id@, stream_id@)],
                user_id@,
                conn_id,
            ),
    {
        let k = stream_key(tenant_id, stream_id);
        if let Some(mut s) = self.take(&k) {
            let _ = s.unsubscribe(user_id, conn_id);
            self.put(k, s);
            assert(self.streams() =~= old(self).streams().insert(
                (tenant_id@, stream_id@),
                self.streams()[(tenant_id@, stream_id@)],
            ));
        }
    }

    /// The next sequence number of the stream, which the stream's counter then holds
    /// (1 for a stream that does not exist).
    pub fn next_seq(&mut self, tenant_id: &str, stream_id: &str) -> (n: u64)
        requires
            old(self).wf(),
            old(self).streams().contains_key((tenant_id@, stream_id@)) ==> old(
                self,
            ).streams()[(tenant_id@, stream_id@)].sequence < u64::MAX,
        ensures
            final(self).wf(),
            updated(old(self).streams(), final(self).streams(), (tenant_id@, stream_id@)),
            old(self).streams().contains_key((tenant_id@, stream_id@)) ==> {
                let a = old(self).streams()[(tenant_id@, stream_id@)];
                let b = final(self).streams()[(tenant_id@, stream_id@)];
                &&& n == a.sequence + 1
                &&& b.sequence == n
                &&& b.members_of() == a.members_of()
                &&& b.subs_of() == a.subs_of()
                &&& b.archived == a.archived
                &&& b.public == a.public
                &&& b.last_event == a.last_event
            },
            !old(self).streams().contains_key((tenant_id@, stream_id@)) ==> n == 1,
    {
        let k = stream_key(tenant_id, stream_id);
        match self.take(&k) {
            Some(mut s) => {
                s.sequence = s.sequence + 1;
                let n = s.sequence;
                assert(s.members_of() =~= old(self).streams()[(tenant_id@, stream_id@)].members_of());
                assert(s.subs_of() =~= old(self).streams()[(tenant_id@, stream_id@)].subs_of());
                self.put(k, s);
                assert(self.streams() =~= old(self).streams().insert(
                    (tenant_id@, stream_id@),
                    self.streams()[(tenant_id@, stream_id@)],
                ));
                n
            },
            None => 1,
        }
    }

    /// The stream's counter: the last sequence number given out (0 for a stream that does
    /// not exist).
    pub fn current_seq(&mut self, tenant_id: &str, stream_id: &str) -> (n: u64)
        requires
            old(self).wf(),
        ensures
            final(self).wf(),
            final(self).streams() == old(self).streams(),
            n == (if old(self).streams().contains_key((tenant_id@, stream_id@)) {
                old(self).streams()[(tenant_id@, stream_id@)].sequence
            } else {
                0
            }),
    {
        let k = stream_key(tenant_id, stream_id);
        match self.take(&k) {
            Some(s) => {
                let n = s.sequence;
                self.put(k, s);
                assert(self.streams() =~= old(self).streams());
                n
            },
            None => 0,
        }
    }

    /// Sets the archived flag of the stream, if it exists.
    pub fn set_archived(&mut self, tenant_id: &str, stream_id: &str, archived: bool)
        requires
            old(self).wf(),
        ensures
            final(self).wf(),
            updated(old(self).streams(), final(self).streams(), (tenant_id@, stream_id@)),
            old(self).streams().contains_key((tenant_id@, stream_id@)) ==> {
                let a = old(self).streams()[(tenant_id@, stream_id@)];
                let b = final(self).streams()[(tenant_id@, stream_id@)];
                &&& b.archived == archived
                &&& b.members_of() == a.members_of()
                &&& b.subs_of() == a.subs_of()
                &&& b.sequence == a.sequence
                &&& b.public == a.public
                &&& b.last_event == a.last_event
            },
    {
        let k = stream_key(tenant_id, stream_id);
        if let Some(mut s) = self.take(&k) {
            s.archived = archived;
            assert(s.members_of() =~= old(self).streams()[(tenant_id@, stream_id@)].members_of());
            assert(s.subs_of() =~= old(self).streams()[(tenant_id@, stream_id@)].subs_of());
            self.put(k, s);
            assert(self.streams() =~= old(self).streams().insert(
                (tenant_id@, stream_id@),
                self.streams()[(tenant_id@, stream_id@)],
            ));
        }
    }

    /// Whether the stream is archived (`false` for a stream that does not exist).
    pub fn is_archived(&mut self, tenant_id: &str, stream_id: &str) -> (r: bool)
        requires
            old(self).wf(),
        ensures
            final(self).wf(),
            final(self).streams() == old(self).streams(),
            r == (old(self).streams().contains_key((tenant_id@, stream_id@)) && old(
                self,
            ).streams()[(tenant_id@, stream_id@)].archived),
    {
        let k = stream_key(tenant_id, stream_id);
        match self.take(&k) {
            Some(s) => {
                let r = s.archived;
                self.put(k, s);
                assert(self.streams() =~= old(self).streams());
                r
            },
            None => false,
        }
    }

    /// Whether the stream is public (`false` for a stream that does not exist).
    pub fn is_public(&mut self, tenant_id: &str, stream_id: &str) -> (r: bool)
        requires
            old(self).wf(),
        ensures
            final(self).wf(),
            final(self).streams() == old(self).streams(),
            r == (old(self).streams().contains_key((tenant_id@, stream_id@)) && old(
                self,
            ).streams()[(tenant_id@, stream_id@)].public),
    {
        let k = stream_key(tenant_id, stream_id);
        match self.take(&k) {
            Some(s) => {
                let r = s.public;
                self.put(k, s);
                assert(self.streams() =~= old(self).streams());
                r
            },
            None => false,
        }
    }

    /// Caches `msg` as the last event of the stream, if it exists.
    pub fn set_last_event(&mut self, tenant_id: &str, stream_id: &str, msg: ServerMessage)
        requires
            old(self).wf(),
        ensures
            final(self).wf(),
            updated(old(self).streams(), final(self).streams(), (tenant_id@, stream_id@)),
            old(self).streams().contains_key((tenant_id@, stream_id@)) ==> {
                let a = old(self).streams()[(tenant_id@, stream_id@)];
                let b = final(self).streams()[(tenant_id@, stream_id@)];
                &&& b.last_event == Some(msg)
                &&& b.members_of() == a.members_of()
                &&& b.subs_of() == a.subs_of()
                &&& b.sequence == a.sequence
                &&& b.archived == a.archived
                &&& b.public == a.public
            },
    {
        let k = stream_key(tenant_id, stream_id);
        if let Some(mut s) = self.take(&k) {
            s.last_event = Some(msg);
            assert(s.members_of() =~= old(self).streams()[(tenant_id@, stream_id@)].members_of());
            assert(s.subs_of() =~= old(self).streams()[(tenant_id@, stream_id@)].subs_of());
            self.put(k, s);
            assert(self.streams() =~= old(self).streams().insert(
                (tenant_id@, stream_id@),
                self.streams()[(tenant_id@, stream_id@)],
            ));
        }
    }

    /// A copy of the cached last event of the stream (none for a stream that does not
    /// exist or has none cached).
    pub fn get_last_event(&mut self, tenant_id: &str, stream_id: &str) -> (r: Option<ServerMessage>)
        requires
            old(self).wf(),
        ensures
            final(self).wf(),
            final(self).streams() == old(self).streams(),
            match r {
                Some(m) => old(self).streams().contains_key((tenant_id@, stream_id@)) && (old(
                    self,
                ).streams()[(tenant_id@, stream_id@)].last_event matches Some(c) && same_frame(c, m)),
                None => !old(self).streams().contains_key((tenant_id@, stream_id@)) || old(
                    self,
                ).streams()[(tenant_id@, stream_id@)].last_event is None,
            },
    {
        let k = stream_key(tenant_id, stream_id);
        match self.take(&k) {
            Some(s) => {
                let r = match &s.last_event {
                    Some(m) => Some(m.copy_frame()),
                    None => None,
                };
                self.put(k, s);
                assert(self.streams() =~= old(self).streams());
                r
            },
            None => None,
        }
    }

    /// The members of the stream, each once, in no particular order (none for a stream
    /// that does not exist).
    pub fn get_members(&mut self, tenant_id: &str, stream_id: &str) -> (r: Vec<String>)
        requires
            old(self).wf(),
        ensures
            final(self).wf(),
            final(self).streams() == old(self).streams(),
            !old(self).streams().contains_key((tenant_id@, stream_id@)) ==> r@.len() == 0,
            old(self).streams().contains_key((tenant_id@, stream_id@)) ==> {
                let a = old(self).streams()[(tenant_id@, stream_id@)];
                &&& forall|i: int| 0 <= i < r@.len() ==> a.members_of().contains(#[trigger] r@[i]@)
                &&& forall|u: Seq<char>| #[trigger]
                    a.members_of().contains(u) ==> exists|i: int| 0 <= i < r@.len() && r@[i]@ == u
                &&& forall|i: int, j: int|
                    0 <= i < r@.len() && 0 <= j < r@.len() && i != j ==> r@[i]@ != r@[j]@
            },
    {
        let k = stream_key(tenant_id, stream_id);
        match self.take(&k) {
            Some(s) => {
                let r = s.member_list();
                self.put(k, s);
                assert(self.streams() =~= old(self).streams());
                r
            },
            None => Vec::new(),
        }
    }

    /// The subscriptions to the stream, user by user, each user once, in no particular
    /// order (none for a stream that does not exist).
    pub fn get_subscriber_conns(&mut self, tenant_id: &str, stream_id: &str) -> (r: Vec<
        (String, Vec<ConnId>),
    >)
        requires
            old(self).wf(),
        ensures
            final(self).wf(),
            final(self).streams() == old(self).streams(),
            !old(self).streams().contains_key((tenant_id@, stream_id@)) ==> r@.len() == 0,
            old(self).streams().contains_key((tenant_id@, stream_id@)) ==> {
                let a = old(self).streams()[(tenant_id@, stream_id@)];
                &&& forall|i: int|
                    0 <= i < r@.len() ==> a.subs_of().contains_key(#[trigger] r@[i].0@)
                        && r@[i].1@.to_set() == a.subs_of()[r@[i].0@] && r@[i].1@.no_duplicates()
                &&& forall|u: Seq<char>| #[trigger]
                    a.subs_of().contains_key(u) ==> exists|i: int| 0 <= i < r@.len() && r@[i].0@ == u
                &&& forall|i: int, j: int|
                    0 <= i < r@.len() && 0 <= j < r@.len() && i != j ==> r@[i].0@ != r@[j].0@
            },
    {
        let k = stream_key(tenant_id, stream_id);
        match self.take(&k) {
            Some(s) => {
                let r = s.subscriber_list();
                self.put(k, s);
                assert(self.streams() =~= old(self).streams());
                r
            },
            None => Vec::new(),
        }
    }

    /// The number of connections subscribed to the stream, counted up to `usize::MAX`
    /// (0 for a stream that does not exist).
    pub fn subscriber_count(&mut self, tenant_id: &str, stream_id: &str) -> (n: usize)
        requires
            old(self).wf(),
        ensures
            final(self).wf(),
            final(self).streams() == old(self).streams(),
            !old(self).streams().contains_key((tenant_id@, stream_id@)) ==> n == 0,
            old(self).streams().contains_key((tenant_id@, stream_id@)) ==> n == capped(
                conn_count(old(self).streams()[(tenant_id@, stream_id@)].subs_of()),
            ),
    {
        let k = stream_key(tenant_id, stream_id);
        match self.take(&k) {
            Some(s) => {
                let n = s.subscriber_count();
                self.put(k, s);
                assert(self.streams() =~= old(self).streams());
                n
            },
            None => 0,
        }
    }

    /// Whether the stream exists.
    pub fn stream_exists(&self, tenant_id: &str, stream_id: &str) -> (r: bool)
        ensures
            r == self.streams().contains_key((tenant_id@, stream_id@)),
    {
        let k = stream_key(tenant_id, stream_id);
        streams_contains(&self.streams, &k)
    }

    /// The number of streams, of all tenants.
    pub fn stream_count(&self) -> (n: usize)
        ensures
            n == self.streams().len(),
    {
        streams_len(&self.streams)
    }

    /// The number of streams of the tenant.
    pub fn tenant_stream_count(&self, tenant_id: &str) -> (n: usize)
        ensures
            n == tenant_keys(self.streams(), tenant_id@).len(),
    {
        let ks = streams_keys(&self.streams);
        let ghost m = self.streams();
        let ghost mut seen: Set<(Seq<char>, Seq<char>)> = Set::empty();
        let mut n: usize = 0;
        let mut i: usize = 0;
        while i < ks.len()
            invariant
                m == self.streams(),
                forall|j: int| 0 <= j < ks@.len() ==> m.contains_key(#[trigger] ks@[j]@),
                forall|a: int, b: int|
                    0 <= a < ks@.len() && 0 <= b < ks@.len() && a != b ==> ks@[a]@ != ks@[b]@,
                i <= ks@.len(),
                seen.finite(),
                seen.len() == n,
                n <= i,
                forall|k: (Seq<char>, Seq<char>)|
                    #[trigger] seen.contains(k) <==> exists|j: int|
                        0 <= j < i && ks@[j]@ == k && k.0 == tenant_id@,
            decreases ks@.len() - i,
        {
            if str_eq(ks[i].0.as_str(), tenant_id) {
                proof {
                    assert(!seen.contains(ks@[i as int]@)) by {
                        if seen.contains(ks@[i as int]@) {
                            let j = choose|j: int|
                                0 <= j < i && ks@[j]@ == ks@[i as int]@ && ks@[i as int]@.0
                                    == tenant_id@;
                            assert(j != i);
                        }
                    }
                    seen = seen.insert(ks@[i as int]@);
                    assert forall|k: (Seq<char>, Seq<char>)|
                        #[trigger] seen.contains(k) <==> exists|j: int|
                            0 <= j < i + 1 && ks@[j]@ == k && k.0 == tenant_id@ by {
                        if seen.contains(k) && k != ks@[i as int]@ {
                            let j = choose|j: int| 0 <= j < i && ks@[j]@ == k && k.0 == tenant_id@;
                            assert(0 <= j < i + 1);
                        }
                        if k == ks@[i as int]@ {
                            assert(ks@[i as int]@ == k);
                        }
                    }
                }
                n = n + 1;
            } else {
                proof {
                    assert forall|k: (Seq<char>, Seq<char>)|
                        #[trigger] seen.contains(k) <==> exists|j: int|
                            0 <= j < i + 1 && ks@[j]@ == k && k.0 == tenant_id@ by {
                        if exists|j: int| 0 <= j < i + 1 && ks@[j]@ == k && k.0 == tenant_id@ {
                            let j = choose|j: int| 0 <= j < i + 1 && ks@[j]@ == k && k.0 == tenant_id@;
                            assert(j != i);
                        }
                    }
                }
            }
            i += 1;
        }
        proof {
            assert(seen =~= tenant_keys(m, tenant_id@)) by {
                assert forall|k: (Seq<char>, Seq<char>)|
                    tenant_keys(m, tenant_id@).contains(k) implies seen.contains(k) by {
                    let j = choose|j: int| 0 <= j < ks@.len() && ks@[j]@ == k;
                }
            }
        }
        n
    }

    /// The streams of the tenant that `user_id` is a member of, each once, in no
    /// particular order.
    pub fn get_member_streams(&mut self, tenant_id: &str, user_id: &str) -> (r: Vec<String>)
        requires
            old(self).wf(),
        ensures
            final(self).wf(),
            final(self).streams() == old(self).streams(),
            forall|i: int|
                0 <= i < r@.len() ==> old(self).streams().contains_key((tenant_id@, #[trigger] r@[i]@))
                    && old(self).streams()[(tenant_id@, r@[i]@)].members_of().contains(user_id@),
            forall|s: Seq<char>|
                old(self).streams().contains_key((tenant_id@, s)) && #[trigger] old(
                    self,
                ).streams()[(tenant_id@, s)].members_of().contains(user_id@) ==> exists|i: int|
                    0 <= i < r@.len() && r@[i]@ == s,
            forall|i: int, j: int| 0 <= i < r@.len() && 0 <= j < r@.len() && i != j ==> r@[i]@ != r@[j]@,
    {
        let ks = streams_keys(&self.streams);
        let ghost m = old(self).streams();
        let mut r: Vec<String> = Vec::new();
        let ghost mut idx: Seq<int> = Seq::empty();
        let mut i: usize = 0;
        while i < ks.len()
            invariant
                self.wf(),
                m == self.streams(),
                forall|j: int| 0 <= j < ks@.len() ==> m.contains_key(#[trigger] ks@[j]@),
                forall|k: (Seq<char>, Seq<char>)| #[trigger]
                    m.contains_key(k) ==> exists|j: int| 0 <= j < ks@.len() && ks@[j]@ == k,
                forall|a: int, b: int|
                    0 <= a < ks@.len() && 0 <= b < ks@.len() && a != b ==> ks@[a]@ != ks@[b]@,
                i <= ks@.len(),
                idx.len() == r@.len(),
                forall|p: int|
                    0 <= p < idx.len() ==> 0 <= #[trigger] idx[p] < i && ks@[idx[p]]@.0 == tenant_id@
                        && r@[p]@ == ks@[idx[p]]@.1 && m[ks@[idx[p]]@].members_of().contains(user_id@),
                forall|p: int, q: int| 0 <= p < q < idx.len() ==> idx[p] < idx[q],
                forall|j: int|
                    0 <= j < i && ks@[j]@.0 == tenant_id@ && #[trigger] m[ks@[j]@].members_of().contains(
                        user_id@,
                    ) ==> exists|p: int| 0 <= p < idx.len() && idx[p] == j,
            decreases ks@.len() - i,
        {
            if str_eq(ks[i].0.as_str(), tenant_id) {
                let k = stream_key(ks[i].0.as_str(), ks[i].1.as_str());
                if let Some(s) = self.take(&k) {
                    let member = s.is_member(user_id);
                    self.put(k, s);
                    assert(self.streams() =~= m);
                    if member {
                        r.push(copy_str(ks[i].1.as_str()));
                        proof {
                            let ghost old_idx = idx;
                            idx = idx.push(i as int);
                            assert forall|j: int|
                                0 <= j < i + 1 && ks@[j]@.0 == tenant_id@ && #[trigger] m[ks@[j]@].members_of().contains(
                                    user_id@,
                                ) implies exists|p: int| 0 <= p < idx.len() && idx[p] == j by {
                                if j == i {
                                    assert(idx[idx.len() - 1] == j);
                                } else {
                                    let p = choose|p: int| 0 <= p < old_idx.len() && old_idx[p] == j;
                                    assert(idx[p] == old_idx[p]);
                                }
                            }
                        }
                    }
                }
            }
            i += 1;
        }
        proof {
            assert forall|s: Seq<char>|
                m.contains_key((tenant_id@, s)) && #[trigger] m[(tenant_id@, s)].members_of().contains(
                    user_id@,
                ) implies exists|i: int| 0 <= i < r@.len() && r@[i]@ == s by {
                let j = choose|j: int| 0 <= j < ks@.len() && ks@[j]@ == (tenant_id@, s);
                assert(m[ks@[j]@].members_of().contains(user_id@));
                let p = choose|p: int| 0 <= p < idx.len() && idx[p] == j;
                assert(r@[p]@ == s);
            }
            assert forall|a: int, b: int|
                0 <= a < r@.len() && 0 <= b < r@.len() && a != b implies r@[a]@ != r@[b]@ by {
                assert(idx[a] != idx[b]) by {
                    if a < b {
                        assert(idx[a] < idx[b]);
                    } else {
                        assert(idx[b] < idx[a]);
                    }
                }
                assert(ks@[idx[a]]@ != ks@[idx[b]]@);
            }
            assert forall|i: int| 0 <= i < r@.len() implies m.contains_key(
                (tenant_id@, #[trigger] r@[i]@),
            ) && m[(tenant_id@, r@[i]@)].members_of().contains(user_id@) by {
                assert(ks@[idx[i]]@ == (tenant_id@, r@[i]@));
            }
        }
        r
    }

    /// Ends the subscriptions of the connection `conn_id` of `user_id` to all the streams
    /// of the tenant; the streams it was subscribed to, each once, in no particular order.
    pub fn unsubscribe_conn_from_all(&mut self, conn_id: ConnId, tenant_id: &str, user_id: &str) -> (r:
        Vec<String>)
        requires
            old(self).wf(),
        ensures
            final(self).wf(),
            final(self).streams().dom() == old(self).streams().dom(),
            forall|k: (Seq<char>, Seq<char>)| #[trigger]
                old(self).streams().contains_key(k) ==> (if k.0 == tenant_id@ {
                    conn_dropped(old(self).streams()[k], final(self).streams()[k], user_id@, conn_id)
                } else {
                    final(self).streams()[k] == old(self).streams()[k]
                }),
            forall|i: int|
                0 <= i < r@.len() ==> old(self).streams().contains_key((tenant_id@, #[trigger] r@[i]@))
                    && conns_of(old(self).streams()[(tenant_id@, r@[i]@)].subs_of(), user_id@).contains(
                    conn_id,
                ),
            forall|s: Seq<char>|
                old(self).streams().contains_key((tenant_id@, s)) && #[trigger] conns_of(
                    old(self).streams()[(tenant_id@, s)].subs_of(),
                    user_id@,
                ).contains(conn_id) ==> exists|i: int| 0 <= i < r@.len() && r@[i]@ == s,
            forall|i: int, j: int| 0 <= i < r@.len() && 0 <= j < r@.len() && i != j ==> r@[i]@ != r@[j]@,
    {
        let ks = streams_keys(&self.streams);
        let ghost m = old(self).streams();
        let mut r: Vec<String> = Vec::new();
        let ghost mut idx: Seq<int> = Seq::empty();
        let mut i: usize = 0;
        while i < ks.len()
            invariant
                self.wf(),
                forall|k: (Seq<char>, Seq<char>)|
                    #[trigger] self.streams().contains_key(k) == m.contains_key(k),
                forall|j: int| 0 <= j < ks@.len() ==> m.contains_key(#[trigger] ks@[j]@),
                forall|k: (Seq<char>, Seq<char>)| #[trigger]
                    m.contains_key(k) ==> exists|j: int| 0 <= j < ks@.len() && ks@[j]@ == k,
                forall|a: int, b: int|
                    0 <= a < ks@.len() && 0 <= b < ks@.len() && a != b ==> ks@[a]@ != ks@[b]@,
                i <= ks@.len(),
                forall|j: int|
                    0 <= j < i ==> (if (#[trigger] ks@[j])@.0 == tenant_id@ {
                        conn_dropped(m[ks@[j]@], self.streams()[ks@[j]@], user_id@, conn_id)
                    } else {
                        self.streams()[ks@[j]@] == m[ks@[j]@]
                    }),
                forall|j: int| i <= j < ks@.len() ==> self.streams()[(#[trigger] ks@[j])@] == m[ks@[j]@],
                idx.len() == r@.len(),
                forall|p: int|
                    0 <= p < idx.len() ==> 0 <= #[trigger] idx[p] < i && ks@[idx[p]]@.0 == tenant_id@
                        && r@[p]@ == ks@[idx[p]]@.1 && conns_of(m[ks@[idx[p]]@].subs_of(), user_id@).contains(
                        conn_id,
                    ),
                forall|p: int, q: int| 0 <= p < q < idx.len() ==> idx[p] < idx[q],
                forall|j: int|
                    0 <= j < i && ks@[j]@.0 == tenant_id@ && #[trigger] conns_of(
                        m[ks@[j]@].subs_of(),
                        user_id@,
                    ).contains(conn_id) ==> exists|p: int| 0 <= p < idx.len() && idx[p] == j,
            decreases ks@.len() - i,
        {
            let ghost before = self.streams();
            if str_eq(ks[i].0.as_str(), tenant_id) {
                let k = stream_key(ks[i].0.as_str(), ks[i].1.as_str());
                proof {
                    assert(self.streams().contains_key(k@));
                }
                if let Some(mut s) = self.take(&k) {
                    let was = s.unsubscribe(user_id, conn_id);
                    self.put(k, s);
                    proof {
                        assert forall|j: int| 0 <= j < ks@.len() && j != i implies self.streams()[(
                        #[trigger] ks@[j])@] == before[ks@[j]@] by {
                            assert(ks@[j]@ != ks@[i as int]@);
                        }
                    }
                    if was {
                        r.push(copy_str(ks[i].1.as_str()));
                        proof {
                            let ghost old_idx = idx;
                            idx = idx.push(i as int);
                            assert forall|j: int|
                                0 <= j < i + 1 && ks@[j]@.0 == tenant_id@ && #[trigger] conns_of(
                                    m[ks@[j]@].subs_of(),
                                    user_id@,
                                ).contains(conn_id) implies exists|p: int|
                                0 <= p < idx.len() && idx[p] == j by {
                                if j == i {
                                    assert(idx[idx.len() - 1] == j);
                                } else {
                                    let p = choose|p: int| 0 <= p < old_idx.len() && old_idx[p] == j;
                                    assert(idx[p] == old_idx[p]);
                                }
                            }
                        }
                    }
                }
            }
            i += 1;
        }
        proof {
            assert(self.streams().dom() =~= m.dom());
            assert forall|k: (Seq<char>, Seq<char>)| #[trigger] m.contains_key(k) implies (if k.0
                == tenant_id@ {
                conn_dropped(m[k], self.streams()[k], user_id@, conn_id)
            } else {
                self.streams()[k] == m[k]
            }) by {
                let j = choose|j: int| 0 <= j < ks@.len() && ks@[j]@ == k;
                assert(ks@[j]@ == k);
            }
            assert forall|s: Seq<char>|
                m.contains_key((tenant_id@, s)) && #[trigger] conns_of(
                    m[(tenant_id@, s)].subs_of(),
                    user_id@,
                ).contains(conn_id) implies exists|i: int| 0 <= i < r@.len() && r@[i]@ == s by {
                let j = choose|j: int| 0 <= j < ks@.len() && ks@[j]@ == (tenant_id@, s);
                assert(conns_of(m[ks@[j]@].subs_of(), user_id@).contains(conn_id));
                let p = choose|p: int| 0 <= p < idx.len() && idx[p] == j;
                assert(r@[p]@ == s);
            }
            assert forall|a: int, b: int|
                0 <= a < r@.len() && 0 <= b < r@.len() && a != b implies r@[a]@ != r@[b]@ by {
                assert(idx[a] != idx[b]) by {
                    if a < b {
                        assert(idx[a] < idx[b]);
                    } else {
                        assert(idx[b] < idx[a]);
                    }
                }
                assert(ks@[idx[a]]@ != ks@[idx[b]]@);
            }
            assert forall|i: int| 0 <= i < r@.len() implies m.contains_key(
                (tenant_id@, #[trigger] r@[i]@),
            ) && conns_of(m[(tenant_id@, r@[i]@)].subs_of(), user_id@).contains(conn_id) by {
                assert(ks@[idx[i]]@ == (tenant_id@, r@[i]@));
            }
        }
        r
    }
}

} // verus!
