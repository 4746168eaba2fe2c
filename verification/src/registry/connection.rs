//! The live WebSocket connections: their identifiers, which connections each user has,
//! the per-user connection generation, and the watchlists of the presence engine with
//! their reverse index (who is watching whom).
use vstd::prelude::*;
use vstd::string::*;
use dashmap::DashMap;
use crate::text::{decimal, push_decimal, push_str, copy_str, str_eq};

verus! {

broadcast use vstd::string::group_string_axioms;

/// A live connection, by its number.
#[derive(Debug, Clone, Copy, PartialEq, Eq, Hash, Structural)]
pub struct ConnId(pub u64);

/// Where connection numbers come from: each new connection takes the next number,
/// starting at 1.
pub struct ConnIds {
    next: u64,
}

/// A live connection as the registry records it: whose it is, and the streams it is
/// subscribed to (each once). Messages are sent to it by the server's socket layer.
pub struct ConnectionHandle {
    pub conn_id: ConnId,
    pub tenant_id: String,
    pub user_id: String,
    pub streams: Vec<String>,
}

/// `x` is one of the strings of `v`.
pub open spec fn listed(v: Vec<String>, x: Seq<char>) -> bool {
    exists|i: int| 0 <= i < v@.len() && v@[i]@ == x
}

/// `x` is one of the first `n` strings of `v`.
pub open spec fn listed_upto(v: Vec<String>, n: int, x: Seq<char>) -> bool {
    exists|i: int| 0 <= i < n && i < v@.len() && v@[i]@ == x
}

/// No string occurs twice in `v`.
pub open spec fn distinct_names(v: Vec<String>) -> bool {
    forall|i: int, j: int| 0 <= i < v@.len() && 0 <= j < v@.len() && i != j ==> v@[i]@ != v@[j]@
}

/// The list under `(t, a)` in `m` holds `b`.
pub open spec fn holds(m: Map<(Seq<char>, Seq<char>), Vec<String>>, t: Seq<char>, a: Seq<char>, b: Seq<char>) -> bool {
    m.contains_key((t, a)) && listed(m[(t, a)], b)
}

/// `watchers` is the reverse index of `lists`: `u` is listed as a watcher of `w` exactly
/// when `w` is on the watchlist of `u` (in the same tenant).
pub open spec fn index_inverse(
    lists: Map<(Seq<char>, Seq<char>), Vec<String>>,
    watchers: Map<(Seq<char>, Seq<char>), Vec<String>>,
) -> bool {
    forall|t: Seq<char>, u: Seq<char>, w: Seq<char>|
        #![trigger holds(watchers, t, w, u)]
        #![trigger holds(lists, t, u, w)]
        holds(watchers, t, w, u) == holds(lists, t, u, w)
}

/// The connections under `k` in `m` (none if `k` is absent).
pub open spec fn conn_set(m: Map<(Seq<char>, Seq<char>), Vec<ConnId>>, k: (Seq<char>, Seq<char>)) -> Set<ConnId> {
    if m.contains_key(k) {
        m[k]@.to_set()
    } else {
        Set::empty()
    }
}

/// The connections that a `DashMap` holds, by connection number.
pub uninterp spec fn handle_entries(m: DashMap<u64, ConnectionHandle>) -> Map<u64, ConnectionHandle>;

/// The connections of each user that a `DashMap` holds, by `(tenant id, user id)`.
pub uninterp spec fn user_conn_entries(m: DashMap<(String, String), Vec<ConnId>>) -> Map<
    (Seq<char>, Seq<char>),
    Vec<ConnId>,
>;

/// The counters that a `DashMap` holds, by `(tenant id, user id)`.
pub uninterp spec fn generation_entries(m: DashMap<(String, String), u64>) -> Map<
    (Seq<char>, Seq<char>),
    u64,
>;

/// The lists of user ids that a `DashMap` holds, by `(tenant id, user id)`.
pub uninterp spec fn name_list_entries(m: DashMap<(String, String), Vec<String>>) -> Map<
    (Seq<char>, Seq<char>),
    Vec<String>,
>;

pub open spec fn no_handles() -> Map<u64, ConnectionHandle> {
    Map::empty()
}

pub open spec fn no_user_conns() -> Map<(Seq<char>, Seq<char>), Vec<ConnId>> {
    Map::empty()
}

pub open spec fn no_generations() -> Map<(Seq<char>, Seq<char>), u64> {
    Map::empty()
}

pub open spec fn no_name_lists() -> Map<(Seq<char>, Seq<char>), Vec<String>> {
    Map::empty()
}

/// `DashMap::new`: a map with no entries.
#[verifier::external_body]
fn handles_new() -> (fresh: DashMap<u64, ConnectionHandle>)
    ensures
        handle_entries(fresh) == no_handles(),
{
    DashMap::new()
}

/// `DashMap::insert`: the key now maps to `v`.
#[verifier::external_body]
fn handles_insert(m: &mut DashMap<u64, ConnectionHandle>, k: u64, v: ConnectionHandle)
    ensures
        handle_entries(*final(m)) == handle_entries(*old(m)).insert(k, v),
{
    m.insert(k, v);
}

/// `DashMap::remove`: the key leaves the map, and the value it had, if any, is handed
/// back.
#[verifier::external_body]
fn handles_remove(m: &mut DashMap<u64, ConnectionHandle>, k: &u64) -> (r: Option<ConnectionHandle>)
    ensures
        handle_entries(*final(m)) == handle_entries(*old(m)).remove(*k),
        match r {
            Some(v) => handle_entries(*old(m)).contains_key(*k) && v == handle_entries(*old(m))[*k],
            None => !handle_entries(*old(m)).contains_key(*k),
        },
{
    m.remove(k).map(|(_, v)| v)
}

/// `DashMap::new`: a map with no entries.
#[verifier::external_body]
fn user_conns_new() -> (fresh: DashMap<(String, String), Vec<ConnId>>)
    ensures
        user_conn_entries(fresh) == no_user_conns(),
{
    DashMap::new()
}

/// `DashMap::insert`: the key now maps to `v` (keys are equal when their strings are).
#[verifier::external_body]
fn user_conns_insert(m: &mut DashMap<(String, String), Vec<ConnId>>, k: (String, String), v: Vec<ConnId>)
    ensures
        user_conn_entries(*final(m)) == user_conn_entries(*old(m)).insert(k@, v),
{
    m.insert(k, v);
}

/// `DashMap::remove`: the key leaves the map, and the value it had, if any, is handed
/// back.
#[verifier::external_body]
fn user_conns_remove(m: &mut DashMap<(String, String), Vec<ConnId>>, k: &(String, String)) -> (r: Option<Vec<ConnId>>)
    ensures
        user_conn_entries(*final(m)) == user_conn_entries(*old(m)).remove(k@),
        match r {
            Some(v) => user_conn_entries(*old(m)).contains_key(k@) && v == user_conn_entries(*old(m))[k@],
            None => !user_conn_entries(*old(m)).contains_key(k@),
        },
{
    m.remove(k).map(|(_, v)| v)
}

/// `DashMap::new`: a map with no entries.
#[verifier::external_body]
fn generations_new() -> (fresh: DashMap<(String, String), u64>)
    ensures
        generation_entries(fresh) == no_generations(),
{
    DashMap::new()
}

/// `DashMap::insert`: the key now maps to `v` (keys are equal when their strings are).
#[verifier::external_body]
fn generations_insert(m: &mut DashMap<(String, String), u64>, k: (String, String), v: u64)
    ensures
        generation_entries(*final(m)) == generation_entries(*old(m)).insert(k@, v),
{
    m.insert(k, v);
}

/// `DashMap::remove`: the key leaves the map, and the value it had, if any, is handed
/// back.
#[verifier::external_body]
fn generations_remove(m: &mut DashMap<(String, String), u64>, k: &(String, String)) -> (r: Option<u64>)
    ensures
        generation_entries(*final(m)) == generation_entries(*old(m)).remove(k@),
        match r {
            Some(v) => generation_entries(*old(m)).contains_key(k@) && v == generation_entries(*old(m))[k@],
            None => !generation_entries(*old(m)).contains_key(k@),
        },
{
    m.remove(k).map(|(_, v)| v)
}

/// `DashMap::new`: a map with no entries.
#[verifier::external_body]
fn name_lists_new() -> (fresh: DashMap<(String, String), Vec<String>>)
    ensures
        name_list_entries(fresh) == no_name_lists(),
{
    DashMap::new()
}

/// `DashMap::insert`: the key now maps to `v` (keys are equal when their strings are).
#[verifier::external_body]
fn name_lists_insert(m: &mut DashMap<(String, String), Vec<String>>, k: (String, String), v: Vec<String>)
    ensures
        name_list_entries(*final(m)) == name_list_entries(*old(m)).insert(k@, v),
{
    m.insert(k, v);
}

/// `DashMap::remove`: the key leaves the map, and the value it had, if any, is handed
/// back.
#[verifier::external_body]
fn name_lists_remove(m: &mut DashMap<(String, String), Vec<String>>, k: &(String, String)) -> (r: Option<Vec<String>>)
    ensures
        name_list_entries(*final(m)) == name_list_entries(*old(m)).remove(k@),
        match r {
            Some(v) => name_list_entries(*old(m)).contains_key(k@) && v == name_list_entries(*old(m))[k@],
            None => !name_list_entries(*old(m)).contains_key(k@),
        },
{
    m.remove(k).map(|(_, v)| v)
}

/// `DashMap::len`: the number of entries.
#[verifier::external_body]
fn handles_len(m: &DashMap<u64, ConnectionHandle>) -> (n: usize)
    ensures
        n == handle_entries(*m).len(),
{
    m.len()
}

/// `DashMap::iter`, keeping the keys: each key of the map once, in an order that the map
/// leaves open.
#[verifier::external_body]
fn user_conns_keys(m: &DashMap<(String, String), Vec<ConnId>>) -> (ks: Vec<(String, String)>)
    ensures
        forall|i: int| 0 <= i < ks@.len() ==> user_conn_entries(*m).contains_key(#[trigger] ks@[i]@),
        forall|k: (Seq<char>, Seq<char>)| #[trigger]
            user_conn_entries(*m).contains_key(k) ==> exists|i: int| 0 <= i < ks@.len() && ks@[i]@ == k,
        forall|i: int, j: int|
            0 <= i < ks@.len() && 0 <= j < ks@.len() && i != j ==> ks@[i]@ != ks@[j]@,
{
    m.iter().map(|e| e.key().clone()).collect()
}

/// The key `(tenant id, user id)`.
fn user_key_of(tenant_id: &str, user_id: &str) -> (k: (String, String))
    ensures
        k@ == (tenant_id@, user_id@),
{
    (copy_str(tenant_id), copy_str(user_id))
}

/// The counter of a connection source after one connection was taken from it at `u`
/// (wrapping around after `u64::MAX`).
pub open spec fn counter_after(u: u64) -> u64 {
    if u == u64::MAX {
        0
    } else {
        (u + 1) as u64
    }
}

/// The counter after `n` connections were taken from a source at `u`: the number the
/// next one gets.
pub open spec fn counter_after_n(u: u64, n: nat) -> u64
    decreases n,
{
    if n == 0 {
        u
    } else {
        counter_after(counter_after_n(u, (n - 1) as nat))
    }
}

/// Up to `u64::MAX`, taking `n` connections moves the counter on by `n`.
proof fn lemma_counter_after_n(u: u64, n: nat)
    requires
        u + n <= u64::MAX,
    ensures
        counter_after_n(u, n) == u + n,
    decreases n,
{
    if n > 0 {
        lemma_counter_after_n(u, (n - 1) as nat);
    }
}

/// Connection numbers strictly increase over any number of calls: from a source whose
/// counter is `u` (1 for a new one), the call made after `i` others returns
/// `counter_after_n(u, i)` (see [`ConnId::next`]), which is at least `u` and smaller than
/// what any later call, after `j > i` others, returns, as long as fewer than
/// `u64::MAX - u` further numbers are taken.
pub proof fn lemma_conn_ids_increase(u: u64, i: nat, j: nat)
    requires
        i < j,
        u + j <= u64::MAX,
    ensures
        u <= counter_after_n(u, i),
        counter_after_n(u, i) < counter_after_n(u, j),
{
    lemma_counter_after_n(u, i);
    lemma_counter_after_n(u, j);
}

impl ConnIds {
    /// The number the next connection gets.
    pub closed spec fn upcoming(&self) -> u64 {
        self.next
    }

    /// A fresh source; the first connection is number 1.
    pub fn new() -> (ids: ConnIds)
        ensures
            ids.upcoming() == 1,
    {
        ConnIds { next: 1 }
    }
}

impl ConnId {
    /// The next connection number: the source's counter, which then moves on by one
    /// (wrapping around after `u64::MAX`).
    pub fn next(ids: &mut ConnIds) -> (c: ConnId)
        ensures
            c.0 == old(ids).upcoming(),
            final(ids).upcoming() == counter_after(old(ids).upcoming()),
    {
        let c = ConnId(ids.next);
        ids.next = ids.next.wrapping_add(1);
        c
    }

    /// The display form, `conn_<n>`.
    pub fn to_display_string(&self) -> (s: String)
        ensures
            s@ == "conn_"@ + decimal(self.0 as nat),
    {
        let mut v: Vec<char> = Vec::new();
        push_str(&mut v, "conn_");
        push_decimal(&mut v, self.0);
        crate::text::string_from_chars(v.as_slice())
    }
}

/// A copy of a list of connections.
pub(crate) fn copy_conns(v: &Vec<ConnId>) -> (r: Vec<ConnId>)
    ensures
        r@ == v@,
{
    let mut r: Vec<ConnId> = Vec::new();
    let mut i: usize = 0;
    while i < v.len()
        invariant
            i <= v@.len(),
            r@ == v@.take(i as int),
        decreases v@.len() - i,
    {
        r.push(v[i]);
        assert(v@.take(i + 1) =~= v@.take(i as int).push(v@[i as int]));
        i += 1;
    }
    assert(v@.take(v@.len() as int) =~= v@);
    r
}

/// Whether `conn` is in `v`.
pub(crate) fn has_conn(v: &Vec<ConnId>, conn: ConnId) -> (r: bool)
    ensures
        r == v@.contains(conn),
{
    let mut i: usize = 0;
    while i < v.len()
        invariant
            i <= v@.len(),
            forall|j: int| 0 <= j < i ==> v@[j] != conn,
        decreases v@.len() - i,
    {
        if v[i] == conn {
            return true;
        }
        i += 1;
    }
    false
}

/// Removes `conn` from `v`, which holds each connection at most once; whether it was
/// there.
pub(crate) fn remove_conn(v: &mut Vec<ConnId>, conn: ConnId) -> (was: bool)
    requires
        old(v)@.no_duplicates(),
    ensures
        was == old(v)@.contains(conn),
        final(v)@.no_duplicates(),
        final(v)@.to_set() == old(v)@.to_set().remove(conn),
{
    let mut i: usize = 0;
    while i < v.len()
        invariant
            v@ == old(v)@,
            old(v)@.no_duplicates(),
            i <= v@.len(),
            forall|j: int| 0 <= j < i ==> v@[j] != conn,
        decreases v@.len() - i,
    {
        if v[i] == conn {
            let ghost before = v@;
            v.remove(i);
            proof {
                assert forall|a: int, b: int| 0 <= a < b < v@.len() implies v@[a] != v@[b] by {
                    let a1 = if a < i { a } else { a + 1 };
                    let b1 = if b < i { b } else { b + 1 };
                    assert(v@[a] == before[a1] && v@[b] == before[b1]);
                }
                assert forall|x: ConnId|
                    v@.to_set().contains(x) == before.to_set().remove(conn).contains(x) by {
                    if v@.to_set().contains(x) {
                        let j = choose|j: int| 0 <= j < v@.len() && v@[j] == x;
                        let j1 = if j < i { j } else { j + 1 };
                        assert(before[j1] == x);
                        assert(j1 != i);
                    }
                    if before.to_set().remove(conn).contains(x) {
                        let j = choose|j: int| 0 <= j < before.len() && before[j] == x;
                        assert(j != i);
                        if j < i {
                            assert(v@[j] == x);
                        } else {
                            assert(v@[j - 1] == x);
                        }
                    }
                }
                assert(v@.to_set() =~= before.to_set().remove(conn));
            }
            return true;
        }
        i += 1;
    }
    assert(v@.to_set() =~= old(v)@.to_set().remove(conn));
    false
}

/// Whether `x` is one of the strings of `v`.
fn name_listed(v: &Vec<String>, x: &str) -> (r: bool)
    ensures
        r == listed(*v, x@),
{
    let mut i: usize = 0;
    while i < v.len()
        invariant
            i <= v@.len(),
            forall|j: int| 0 <= j < i ==> v@[j]@ != x@,
        decreases v@.len() - i,
    {
        if str_eq(v[i].as_str(), x) {
            return true;
        }
        i += 1;
    }
    false
}

/// Adds `x` to `v` unless it is there.
fn add_name(v: &mut Vec<String>, x: &str)
    requires
        distinct_names(*old(v)),
    ensures
        distinct_names(*final(v)),
        forall|y: Seq<char>| #[trigger] listed(*final(v), y) == (listed(*old(v), y) || y == x@),
{
    if !name_listed(v, x) {
        let ghost before = *v;
        v.push(copy_str(x));
        proof {
            assert forall|y: Seq<char>| #[trigger] listed(*v, y) == (listed(before, y) || y == x@) by {
                if listed(*v, y) {
                    let i = choose|i: int| 0 <= i < v@.len() && v@[i]@ == y;
                    if i < before@.len() {
                        assert(before@[i]@ == y);
                    }
                }
                if listed(before, y) {
                    let i = choose|i: int| 0 <= i < before@.len() && before@[i]@ == y;
                    assert(v@[i]@ == y);
                }
                if y == x@ {
                    assert(v@[before@.len() as int]@ == y);
                }
            }
            assert forall|i: int, j: int|
                0 <= i < v@.len() && 0 <= j < v@.len() && i != j implies v@[i]@ != v@[j]@ by {
                if i < before@.len() && j < before@.len() {
                    assert(v@[i] == before@[i] && v@[j] == before@[j]);
                } else if i < before@.len() {
                    assert(v@[i] == before@[i]);
                } else {
                    assert(v@[j] == before@[j]);
                }
            }
        }
    }
}

/// Removes `x` from `v`.
fn remove_name(v: &mut Vec<String>, x: &str)
    requires
        distinct_names(*old(v)),
    ensures
        distinct_names(*final(v)),
        forall|y: Seq<char>| #[trigger] listed(*final(v), y) == (listed(*old(v), y) && y != x@),
{
    let mut i: usize = 0;
    while i < v.len()
        invariant
            *v == *old(v),
            distinct_names(*old(v)),
            i <= v@.len(),
            forall|j: int| 0 <= j < i ==> v@[j]@ != x@,
        decreases v@.len() - i,
    {
        if str_eq(v[i].as_str(), x) {
            let ghost before = *v;
            v.remove(i);
            proof {
                assert forall|y: Seq<char>| #[trigger] listed(*v, y) == (listed(before, y) && y != x@) by {
                    if listed(*v, y) {
                        let j = choose|j: int| 0 <= j < v@.len() && v@[j]@ == y;
                        let j1 = if j < i { j } else { j + 1 };
                        assert(before@[j1]@ == y);
                        assert(j1 != i);
                    }
                    if listed(before, y) && y != x@ {
                        let j = choose|j: int| 0 <= j < before@.len() && before@[j]@ == y;
                        assert(j != i);
                        if j < i {
                            assert(v@[j]@ == y);
                        } else {
                            assert(v@[j - 1]@ == y);
                        }
                    }
                }
                assert forall|a: int, b: int|
                    0 <= a < v@.len() && 0 <= b < v@.len() && a != b implies v@[a]@ != v@[b]@ by {
                    let a1 = if a < i { a } else { a + 1 };
                    let b1 = if b < i { b } else { b + 1 };
                    assert(v@[a] == before@[a1] && v@[b] == before@[b1]);
                }
            }
            return;
        }
        i += 1;
    }
    assert forall|y: Seq<char>| #[trigger] listed(*v, y) == (listed(*old(v), y) && y != x@) by {
        if listed(*v, y) {
            let j = choose|j: int| 0 <= j < v@.len() && v@[j]@ == y;
        }
    }
}

/// A copy of a list of strings.
fn copy_names(v: &Vec<String>) -> (r: Vec<String>)
    ensures
        r@.len() == v@.len(),
        forall|i: int| 0 <= i < v@.len() ==> #[trigger] r@[i]@ == v@[i]@,
{
    let mut r: Vec<String> = Vec::new();
    let mut i: usize = 0;
    while i < v.len()
        invariant
            i <= v@.len(),
            r@.len() == i,
            forall|j: int| 0 <= j < i ==> #[trigger] r@[j]@ == v@[j]@,
        decreases v@.len() - i,
    {
        r.push(copy_str(v[i].as_str()));
        i += 1;
    }
    r
}

/// Adds `conn` to `v` unless it is there.
pub(crate) fn add_conn(v: &mut Vec<ConnId>, conn: ConnId)
    requires
        old(v)@.no_duplicates(),
    ensures
        final(v)@.no_duplicates(),
        final(v)@.to_set() == old(v)@.to_set().insert(conn),
        final(v)@.len() > 0,
{
    let ghost before = v@;
    if !has_conn(v, conn) {
        v.push(conn);
        proof {
            assert forall|a: int, b: int|
                0 <= a < v@.len() && 0 <= b < v@.len() && a != b implies v@[a] != v@[b] by {
                if a < before.len() && b < before.len() {
                    assert(v@[a] == before[a] && v@[b] == before[b]);
                } else if a < before.len() {
                    assert(v@[a] == before[a]);
                    assert(before.contains(before[a]));
                } else {
                    assert(v@[b] == before[b]);
                    assert(before.contains(before[b]));
                }
            }
            before.lemma_push_to_set_commute(conn);
        }
    } else {
        proof {
            assert(before.to_set().insert(conn) =~= before.to_set());
        }
    }
}

/// `conns` is `old` with the connection `c` of the user `k` left out, and a user left
/// with no connection left out too.
pub open spec fn conn_dropped_from(
    old: Map<(Seq<char>, Seq<char>), Vec<ConnId>>,
    new: Map<(Seq<char>, Seq<char>), Vec<ConnId>>,
    k: (Seq<char>, Seq<char>),
    c: ConnId,
) -> bool {
    if old.contains_key(k) {
        if old[k]@.to_set().remove(c) == Set::<ConnId>::empty() {
            new == old.remove(k)
        } else {
            new.dom() == old.dom() && new.remove(k) == old.remove(k) && new[k]@.to_set()
                == old[k]@.to_set().remove(c)
        }
    } else {
        new == old
    }
}

/// Each user's connections are listed once each, and there is at least one.
pub open spec fn users_ok(m: Map<(Seq<char>, Seq<char>), Vec<ConnId>>) -> bool {
    forall|k: (Seq<char>, Seq<char>)| #[trigger]
        m.contains_key(k) ==> m[k]@.len() > 0 && m[k]@.no_duplicates()
}

/// Each connection's streams are listed once each.
pub open spec fn handles_ok(m: Map<u64, ConnectionHandle>) -> bool {
    forall|c: u64| #[trigger] m.contains_key(c) ==> distinct_names(m[c].streams)
}

/// Each list holds a user id at most once.
pub open spec fn names_ok(m: Map<(Seq<char>, Seq<char>), Vec<String>>) -> bool {
    forall|k: (Seq<char>, Seq<char>)| #[trigger] m.contains_key(k) ==> distinct_names(m[k])
}

proof fn lemma_users_ok(o: Map<(Seq<char>, Seq<char>), Vec<ConnId>>, n: Map<(Seq<char>, Seq<char>), Vec<ConnId>>, k0: (Seq<char>, Seq<char>))
    requires
        users_ok(o),
        n.remove(k0) == o.remove(k0),
        n.contains_key(k0) ==> n[k0]@.len() > 0 && n[k0]@.no_duplicates(),
    ensures
        users_ok(n),
{
    assert forall|k: (Seq<char>, Seq<char>)| #[trigger] n.contains_key(k) implies n[k]@.len() > 0
        && n[k]@.no_duplicates() by {
        if k != k0 {
            assert(n.remove(k0).contains_key(k));
            assert(o.contains_key(k));
            assert(n.remove(k0)[k] == n[k]);
        }
    }
}

proof fn lemma_handles_ok(o: Map<u64, ConnectionHandle>, n: Map<u64, ConnectionHandle>, c0: u64)
    requires
        handles_ok(o),
        n.remove(c0) == o.remove(c0),
        n.contains_key(c0) ==> distinct_names(n[c0].streams),
    ensures
        handles_ok(n),
{
    assert forall|c: u64| #[trigger] n.contains_key(c) implies distinct_names(n[c].streams) by {
        if c != c0 {
            assert(n.remove(c0).contains_key(c));
            assert(o.contains_key(c));
            assert(n.remove(c0)[c] == n[c]);
        }
    }
}

/// Adds the number of connections of the user `k` of `m` to `b`.
pub open spec fn add_user_conns(m: Map<(Seq<char>, Seq<char>), Vec<ConnId>>) -> spec_fn(
    nat,
    (Seq<char>, Seq<char>),
) -> nat {
    |b: nat, k: (Seq<char>, Seq<char>)| b + conn_set(m, k).len()
}

/// The users of the tenant `t` in `m`.
pub open spec fn tenant_users(m: Map<(Seq<char>, Seq<char>), Vec<ConnId>>, t: Seq<char>) -> Set<
    (Seq<char>, Seq<char>),
> {
    m.dom().filter(|k: (Seq<char>, Seq<char>)| k.0 == t)
}

/// The number of connections of the users of the tenant `t`.
pub open spec fn tenant_conn_count(m: Map<(Seq<char>, Seq<char>), Vec<ConnId>>, t: Seq<char>) -> nat {
    tenant_users(m, t).fold(0nat, add_user_conns(m))
}

proof fn lemma_add_user_conns_commutative(m: Map<(Seq<char>, Seq<char>), Vec<ConnId>>)
    ensures
        vstd::set::fold::is_fun_commutative(add_user_conns(m)),
{
    let f = add_user_conns(m);
    assert forall|a1: (Seq<char>, Seq<char>), a2: (Seq<char>, Seq<char>), b: nat| #[trigger]
        f(f(b, a2), a1) == f(f(b, a1), a2) by {}
}

/// `x`, or `usize::MAX` if it is larger.
pub open spec fn capped(x: nat) -> nat {
    if x < usize::MAX {
        x
    } else {
        usize::MAX as nat
    }
}

/// The registry of live connections.
pub struct ConnectionRegistry {
    by_conn: DashMap<u64, ConnectionHandle>,
    by_user: DashMap<(String, String), Vec<ConnId>>,
    /// Per user, a counter moved on at every connect; presence's linger window uses it
    /// to notice a reconnect.
    by_generation: DashMap<(String, String), u64>,
    /// Per user, the users they are watching.
    watchlists: DashMap<(String, String), Vec<String>>,
    /// Per user, the users watching them.
    watchers: DashMap<(String, String), Vec<String>>,
}

impl ConnectionRegistry {
    /// The connections, by number.
    pub closed spec fn handles(&self) -> Map<u64, ConnectionHandle> {
        handle_entries(self.by_conn)
    }

    /// The connections of each user, by `(tenant id, user id)`.
    pub closed spec fn user_conns(&self) -> Map<(Seq<char>, Seq<char>), Vec<ConnId>> {
        user_conn_entries(self.by_user)
    }

    /// The generation counters, by `(tenant id, user id)`.
    pub closed spec fn generations(&self) -> Map<(Seq<char>, Seq<char>), u64> {
        generation_entries(self.by_generation)
    }

    /// The watchlists, by `(tenant id, user id)`.
    pub closed spec fn watchlists(&self) -> Map<(Seq<char>, Seq<char>), Vec<String>> {
        name_list_entries(self.watchlists)
    }

    /// The watchers, by `(tenant id, watched user id)`.
    pub closed spec fn watchers(&self) -> Map<(Seq<char>, Seq<char>), Vec<String>> {
        name_list_entries(self.watchers)
    }

    /// Each user's connections are listed once each and never empty, a connection's
    /// streams once each, each watcher once, and the watchers are the reverse index of
    /// the watchlists.
    pub closed spec fn wf(&self) -> bool {
        &&& users_ok(self.user_conns())
        &&& handles_ok(self.handles())
        &&& names_ok(self.watchers())
        &&& index_inverse(self.watchlists(), self.watchers())
    }

    /// `self` holds what `other` holds.
    pub open spec fn same_as(&self, other: ConnectionRegistry) -> bool {
        &&& self.handles() == other.handles()
        &&& self.user_conns() == other.user_conns()
        &&& self.generations() == other.generations()
        &&& self.watchlists() == other.watchlists()
        &&& self.watchers() == other.watchers()
    }

    /// No connections, counters or watchlists.
    pub fn new() -> (r: ConnectionRegistry)
        ensures
            r.wf(),
            r.handles() == no_handles(),
            r.user_conns() == no_user_conns(),
            r.generations() == no_generations(),
            r.watchlists() == no_name_lists(),
    {
        let r = ConnectionRegistry {
            by_conn: handles_new(),
            by_user: user_conns_new(),
            by_generation: generations_new(),
            watchlists: name_lists_new(),
            watchers: name_lists_new(),
        };
        r
    }

    /// Records the new connection `conn_id` of `user_id`.
    pub fn register(&mut self, conn_id: ConnId, tenant_id: String, user_id: String)
        requires
            old(self).wf(),
        ensures
            final(self).wf(),
            final(self).handles() == old(self).handles().insert(
                conn_id.0,
                final(self).handles()[conn_id.0],
            ),
            final(self).handles()[conn_id.0].conn_id == conn_id,
            final(self).handles()[conn_id.0].tenant_id@ == tenant_id@,
            final(self).handles()[conn_id.0].user_id@ == user_id@,
            final(self).handles()[conn_id.0].streams@.len() == 0,
            final(self).user_conns().dom() == old(self).user_conns().dom().insert(
                (tenant_id@, user_id@),
            ),
            final(self).user_conns().remove((tenant_id@, user_id@)) == old(
                self,
            ).user_conns().remove((tenant_id@, user_id@)),
            conn_set(final(self).user_conns(), (tenant_id@, user_id@)) == conn_set(
                old(self).user_conns(),
                (tenant_id@, user_id@),
            ).insert(conn_id),
            final(self).generations() == old(self).generations(),
            final(self).watchlists() == old(self).watchlists(),
            final(self).watchers() == old(self).watchers(),
    {
        let key = user_key_of(tenant_id.as_str(), user_id.as_str());
        let handle = ConnectionHandle { conn_id, tenant_id, user_id, streams: Vec::new() };
        handles_insert(&mut self.by_conn, conn_id.0, handle);
        let mut conns = match user_conns_remove(&mut self.by_user, &key) {
            Some(v) => v,
            None => Vec::new(),
        };
        let ghost before = conns@;
        assert(old(self).user_conns().contains_key(key@) ==> old(self).user_conns()[key@]@.no_duplicates());
        add_conn(&mut conns, conn_id);
        user_conns_insert(&mut self.by_user, key, conns);
        proof {
            let o = old(self).user_conns();
            let k = (key@.0, key@.1);
            if !o.contains_key(k) {
                assert(before.to_set() =~= Set::<ConnId>::empty());
            }
            assert(self.user_conns().dom() =~= o.dom().insert(k));
            assert(self.user_conns().remove(k) =~= o.remove(k));
            lemma_users_ok(o, self.user_conns(), k);
            assert(self.handles().remove(conn_id.0) =~= old(self).handles().remove(conn_id.0));
            lemma_handles_ok(old(self).handles(), self.handles(), conn_id.0);
        }
    }

    /// Forgets the connection `conn_id`; its tenant and user, if it was registered.
    pub fn unregister(&mut self, conn_id: ConnId) -> (r: Option<(String, String)>)
        requires
            old(self).wf(),
        ensures
            final(self).wf(),
            final(self).handles() == old(self).handles().remove(conn_id.0),
            final(self).generations() == old(self).generations(),
            final(self).watchlists() == old(self).watchlists(),
            final(self).watchers() == old(self).watchers(),
            match r {
                Some(k) => old(self).handles().contains_key(conn_id.0) && k@ == (
                    old(self).handles()[conn_id.0].tenant_id@,
                    old(self).handles()[conn_id.0].user_id@,
                ) && conn_dropped_from(old(self).user_conns(), final(self).user_conns(), k@, conn_id),
                None => !old(self).handles().contains_key(conn_id.0) && final(self).user_conns()
                    == old(self).user_conns(),
            },
    {
        match handles_remove(&mut self.by_conn, &conn_id.0) {
            Some(handle) => {
                proof {
                    assert(self.handles().remove(conn_id.0) =~= old(self).handles().remove(conn_id.0));
                    lemma_handles_ok(old(self).handles(), self.handles(), conn_id.0);
                }
                let key = user_key_of(handle.tenant_id.as_str(), handle.user_id.as_str());
                let ghost k = key@;
                let ghost o = old(self).user_conns();
                match user_conns_remove(&mut self.by_user, &key) {
                    Some(mut conns) => {
                        let ghost before = conns@;
                        assert(o.contains_key(k) ==> o[k]@.no_duplicates());
                        let _ = remove_conn(&mut conns, conn_id);
                        if conns.len() == 0 {
                            proof {
                                assert(before.to_set().remove(conn_id) =~= Set::<ConnId>::empty()) by {
                                    assert forall|x: ConnId|
                                        !before.to_set().remove(conn_id).contains(x) by {
                                        if before.to_set().remove(conn_id).contains(x) {
                                            assert(conns@.to_set().contains(x));
                                        }
                                    }
                                }
                                assert(self.user_conns().remove(k) =~= o.remove(k));
                                lemma_users_ok(o, self.user_conns(), k);
                            }
                        } else {
                            let ghost cv = conns@;
                            user_conns_insert(&mut self.by_user, key, conns);
                            proof {
                                assert(cv.to_set() != Set::<ConnId>::empty()) by {
                                    assert(cv.to_set().contains(cv[0]));
                                }
                                assert(self.user_conns().dom() =~= o.dom());
                                assert(self.user_conns().remove(k) =~= o.remove(k));
                                lemma_users_ok(o, self.user_conns(), k);
                            }
                        }
                    },
                    None => {
                        proof {
                            assert(self.user_conns() =~= o);
                        }
                    },
                }
                Some((handle.tenant_id, handle.user_id))
            },
            None => None,
        }
    }

    /// Records that the connection `conn_id` subscribed to `stream_id`.
    pub fn add_stream_subscription(&mut self, conn_id: ConnId, stream_id: &str)
        requires
            old(self).wf(),
        ensures
            final(self).wf(),
            final(self).user_conns() == old(self).user_conns(),
            final(self).generations() == old(self).generations(),
            final(self).watchlists() == old(self).watchlists(),
            final(self).watchers() == old(self).watchers(),
            !old(self).handles().contains_key(conn_id.0) ==> final(self).handles() == old(self).handles(),
            old(self).handles().contains_key(conn_id.0) ==> {
                let a = old(self).handles()[conn_id.0];
                let b = final(self).handles()[conn_id.0];
                &&& final(self).handles() == old(self).handles().insert(conn_id.0, b)
                &&& b.conn_id == a.conn_id && b.tenant_id == a.tenant_id && b.user_id == a.user_id
                &&& forall|s: Seq<char>| #[trigger] listed(b.streams, s) == (listed(a.streams, s) || s == stream_id@)
            },
    {
        if let Some(mut handle) = handles_remove(&mut self.by_conn, &conn_id.0) {
            assert(old(self).handles().contains_key(conn_id.0) ==> distinct_names(old(self).handles()[conn_id.0].streams));
            add_name(&mut handle.streams, stream_id);
            handles_insert(&mut self.by_conn, conn_id.0, handle);
            proof {
                assert(self.handles() =~= old(self).handles().insert(conn_id.0, self.handles()[conn_id.0]));
                assert(self.handles().remove(conn_id.0) =~= old(self).handles().remove(conn_id.0));
                lemma_handles_ok(old(self).handles(), self.handles(), conn_id.0);
            }
        } else {
            proof {
                assert(self.handles() =~= old(self).handles());
            }
        }
    }

    /// Records that the connection `conn_id` left `stream_id`.
    pub fn remove_stream_subscription(&mut self, conn_id: ConnId, stream_id: &str)
        requires
            old(self).wf(),
        ensures
            final(self).wf(),
            final(self).user_conns() == old(self).user_conns(),
            final(self).generations() == old(self).generations(),
            final(self).watchlists() == old(self).watchlists(),
            final(self).watchers() == old(self).watchers(),
            !old(self).handles().contains_key(conn_id.0) ==> final(self).handles() == old(self).handles(),
            old(self).handles().contains_key(conn_id.0) ==> {
                let a = old(self).handles()[conn_id.0];
                let b = final(self).handles()[conn_id.0];
                &&& final(self).handles() == old(self).handles().insert(conn_id.0, b)
                &&& b.conn_id == a.conn_id && b.tenant_id == a.tenant_id && b.user_id == a.user_id
                &&& forall|s: Seq<char>| #[trigger] listed(b.streams, s) == (listed(a.streams, s) && s != stream_id@)
            },
    {
        if let Some(mut handle) = handles_remove(&mut self.by_conn, &conn_id.0) {
            assert(old(self).handles().contains_key(conn_id.0) ==> distinct_names(old(self).handles()[conn_id.0].streams));
            remove_name(&mut handle.streams, stream_id);
            handles_insert(&mut self.by_conn, conn_id.0, handle);
            proof {
                assert(self.handles() =~= old(self).handles().insert(conn_id.0, self.handles()[conn_id.0]));
                assert(self.handles().remove(conn_id.0) =~= old(self).handles().remove(conn_id.0));
                lemma_handles_ok(old(self).handles(), self.handles(), conn_id.0);
            }
        } else {
            proof {
                assert(self.handles() =~= old(self).handles());
            }
        }
    }

    /// The number of connections of the user.
    pub fn user_connection_count(&mut self, tenant_id: &str, user_id: &str) -> (n: usize)
        requires
            old(self).wf(),
        ensures
            final(self).wf(),
            final(self).same_as(*old(self)),
            n == conn_set(old(self).user_conns(), (tenant_id@, user_id@)).len(),
    {
        let key = user_key_of(tenant_id, user_id);
        match user_conns_remove(&mut self.by_user, &key) {
            Some(conns) => {
                let n = conns.len();
                proof {
                    assert(old(self).user_conns().contains_key(key@) ==> old(self).user_conns()[key@]@.no_duplicates());
                    conns@.unique_seq_to_set();
                }
                user_conns_insert(&mut self.by_user, key, conns);
                proof {
                    assert(self.user_conns() =~= old(self).user_conns());
                }
                n
            },
            None => {
                proof {
                    assert(self.user_conns() =~= old(self).user_conns());
                }
                0
            },
        }
    }

    /// Whether the user has a connection.
    pub fn is_user_online(&mut self, tenant_id: &str, user_id: &str) -> (r: bool)
        requires
            old(self).wf(),
        ensures
            final(self).wf(),
            final(self).same_as(*old(self)),
            r == old(self).user_conns().contains_key((tenant_id@, user_id@)),
    {
        let n = self.user_connection_count(tenant_id, user_id);
        proof {
            let k = (tenant_id@, user_id@);
            if self.user_conns().contains_key(k) {
                let v = self.user_conns()[k]@;
                assert(v.to_set().contains(v[0]));
                v.unique_seq_to_set();
            }
        }
        n > 0
    }

    /// The connections of the user, each once, in no particular order.
    pub fn connections_of(&mut self, tenant_id: &str, user_id: &str) -> (r: Vec<ConnId>)
        requires
            old(self).wf(),
        ensures
            final(self).wf(),
            final(self).same_as(*old(self)),
            r@.no_duplicates(),
            r@.to_set() == conn_set(old(self).user_conns(), (tenant_id@, user_id@)),
    {
        let key = user_key_of(tenant_id, user_id);
        match user_conns_remove(&mut self.by_user, &key) {
            Some(conns) => {
                let r = copy_conns(&conns);
                user_conns_insert(&mut self.by_user, key, conns);
                proof {
                    assert(self.user_conns() =~= old(self).user_conns());
                }
                r
            },
            None => {
                proof {
                    assert(self.user_conns() =~= old(self).user_conns());
                }
                let r: Vec<ConnId> = Vec::new();
                assert(r@.to_set() =~= Set::<ConnId>::empty());
                r
            },
        }
    }

    /// The number of live connections.
    pub fn total_connections(&self) -> (n: usize)
        ensures
            n == self.handles().len(),
    {
        handles_len(&self.by_conn)
    }

    /// Moves the user's generation counter on by one (from 0 for a user without one);
    /// the new value.
    pub fn increment_generation(&mut self, tenant_id: &str, user_id: &str) -> (g: u64)
        requires
            old(self).wf(),
            old(self).generations().contains_key((tenant_id@, user_id@)) ==> old(
                self,
            ).generations()[(tenant_id@, user_id@)] < u64::MAX,
        ensures
            final(self).wf(),
            g == (if old(self).generations().contains_key((tenant_id@, user_id@)) {
                old(self).generations()[(tenant_id@, user_id@)] + 1
            } else {
                1
            }),
            final(self).generations() == old(self).generations().insert((tenant_id@, user_id@), g),
            final(self).handles() == old(self).handles(),
            final(self).user_conns() == old(self).user_conns(),
            final(self).watchlists() == old(self).watchlists(),
            final(self).watchers() == old(self).watchers(),
    {
        let key = user_key_of(tenant_id, user_id);
        let current = match generations_remove(&mut self.by_generation, &key) {
            Some(g) => g,
            None => 0,
        };
        let g = current + 1;
        generations_insert(&mut self.by_generation, key, g);
        proof {
            assert(self.generations() =~= old(self).generations().insert((tenant_id@, user_id@), g));
        }
        g
    }

    /// The user's generation counter (0 for a user without one).
    pub fn current_generation(&mut self, tenant_id: &str, user_id: &str) -> (g: u64)
        requires
            old(self).wf(),
        ensures
            final(self).wf(),
            final(self).same_as(*old(self)),
            g == (if old(self).generations().contains_key((tenant_id@, user_id@)) {
                old(self).generations()[(tenant_id@, user_id@)]
            } else {
                0
            }),
    {
        let key = user_key_of(tenant_id, user_id);
        match generations_remove(&mut self.by_generation, &key) {
            Some(g) => {
                generations_insert(&mut self.by_generation, key, g);
                proof {
                    assert(self.generations() =~= old(self).generations());
                }
                g
            },
            None => {
                proof {
                    assert(self.generations() =~= old(self).generations());
                }
                0
            },
        }
    }
}

impl ConnectionRegistry {
    /// Takes `user_id` off the watcher lists of the users named in `watched`.
    fn unwatch_each(&mut self, tenant_id: &str, user_id: &str, watched: &Vec<String>)
        requires
            names_ok(old(self).watchers()),
        ensures
            names_ok(final(self).watchers()),
            final(self).handles() == old(self).handles(),
            final(self).user_conns() == old(self).user_conns(),
            final(self).generations() == old(self).generations(),
            final(self).watchlists() == old(self).watchlists(),
            forall|t: Seq<char>, a: Seq<char>, b: Seq<char>| #[trigger]
                holds(final(self).watchers(), t, a, b) == (holds(old(self).watchers(), t, a, b) && !(t
                    == tenant_id@ && b == user_id@ && listed(*watched, a))),
    {
        let ghost w0 = old(self).watchers();
        let mut i: usize = 0;
        while i < watched.len()
            invariant
                i <= watched@.len(),
                names_ok(self.watchers()),
                self.handles() == old(self).handles(),
                self.user_conns() == old(self).user_conns(),
                self.generations() == old(self).generations(),
                self.watchlists() == old(self).watchlists(),
                forall|t: Seq<char>, a: Seq<char>, b: Seq<char>| #[trigger]
                    holds(self.watchers(), t, a, b) == (holds(w0, t, a, b) && !(t == tenant_id@ && b
                        == user_id@ && listed_upto(*watched, i as int, a))),
            decreases watched@.len() - i,
        {
            let wkey = user_key_of(tenant_id, watched[i].as_str());
            let ghost before = self.watchers();
            let ghost k = wkey@;
            match name_lists_remove(&mut self.watchers, &wkey) {
                Some(mut ws) => {
                    assert(before.contains_key(k) ==> distinct_names(before[k]));
                    remove_name(&mut ws, user_id);
                    name_lists_insert(&mut self.watchers, wkey, ws);
                    proof {
                        let now = self.watchers();
                        assert(now == before.remove(k).insert(k, now[k]));
                        assert forall|kk: (Seq<char>, Seq<char>)| #[trigger] now.contains_key(kk) implies distinct_names(
                            now[kk],
                        ) by {
                            if kk != k {
                                assert(before.contains_key(kk));
                            }
                        }
                        assert forall|t: Seq<char>, a: Seq<char>, b: Seq<char>| #[trigger]
                            holds(now, t, a, b) == (holds(w0, t, a, b) && !(t == tenant_id@ && b
                                == user_id@ && listed_upto(*watched, i + 1, a))) by {
                            assert(holds(before, t, a, b) == (holds(w0, t, a, b) && !(t == tenant_id@
                                && b == user_id@ && listed_upto(*watched, i as int, a))));
                            if listed_upto(*watched, i + 1, a) && !listed_upto(*watched, i as int, a) {
                                let j = choose|j: int| 0 <= j < i + 1 && j < watched@.len() && watched@[j]@ == a;
                                assert(j == i);
                            }
                            if listed_upto(*watched, i as int, a) {
                                let j = choose|j: int| 0 <= j < i && j < watched@.len() && watched@[j]@ == a;
                                assert(0 <= j < i + 1);
                            }
                            if a == watched@[i as int]@ {
                                assert(listed_upto(*watched, i + 1, a));
                            }
                        }
                    }
                },
                None => {
                    proof {
                        let now = self.watchers();
                        assert(now == before);
                        assert forall|t: Seq<char>, a: Seq<char>, b: Seq<char>| #[trigger]
                            holds(now, t, a, b) == (holds(w0, t, a, b) && !(t == tenant_id@ && b
                                == user_id@ && listed_upto(*watched, i + 1, a))) by {
                            assert(holds(before, t, a, b) == (holds(w0, t, a, b) && !(t == tenant_id@
                                && b == user_id@ && listed_upto(*watched, i as int, a))));
                            if listed_upto(*watched, i + 1, a) && !listed_upto(*watched, i as int, a) {
                                let j = choose|j: int| 0 <= j < i + 1 && j < watched@.len() && watched@[j]@ == a;
                                assert(j == i);
                            }
                            if listed_upto(*watched, i as int, a) {
                                let j = choose|j: int| 0 <= j < i && j < watched@.len() && watched@[j]@ == a;
                                assert(0 <= j < i + 1);
                            }
                            if a == watched@[i as int]@ {
                                assert(listed_upto(*watched, i + 1, a));
                            }
                        }
                    }
                },
            }
            i += 1;
        }
        assert forall|t: Seq<char>, a: Seq<char>, b: Seq<char>| #[trigger]
            holds(self.watchers(), t, a, b) == (holds(w0, t, a, b) && !(t == tenant_id@ && b
                == user_id@ && listed(*watched, a))) by {
            assert(holds(self.watchers(), t, a, b) == (holds(w0, t, a, b) && !(t == tenant_id@ && b
                == user_id@ && listed_upto(*watched, i as int, a))));
            if listed(*watched, a) {
                let j = choose|j: int| 0 <= j < watched@.len() && watched@[j]@ == a;
                assert(listed_upto(*watched, i as int, a));
            }
        }
    }

    /// Adds `user_id` to the watcher lists of the users named in `watched`.
    fn watch_each(&mut self, tenant_id: &str, user_id: &str, watched: &Vec<String>)
        requires
            names_ok(old(self).watchers()),
        ensures
            names_ok(final(self).watchers()),
            final(self).handles() == old(self).handles(),
            final(self).user_conns() == old(self).user_conns(),
            final(self).generations() == old(self).generations(),
            final(self).watchlists() == old(self).watchlists(),
            forall|t: Seq<char>, a: Seq<char>, b: Seq<char>| #[trigger]
                holds(final(self).watchers(), t, a, b) == (holds(old(self).watchers(), t, a, b) || (t
                    == tenant_id@ && b == user_id@ && listed(*watched, a))),
    {
        let ghost w0 = old(self).watchers();
        let mut i: usize = 0;
        while i < watched.len()
            invariant
                i <= watched@.len(),
                names_ok(self.watchers()),
                self.handles() == old(self).handles(),
                self.user_conns() == old(self).user_conns(),
                self.generations() == old(self).generations(),
                self.watchlists() == old(self).watchlists(),
                forall|t: Seq<char>, a: Seq<char>, b: Seq<char>| #[trigger]
                    holds(self.watchers(), t, a, b) == (holds(w0, t, a, b) || (t == tenant_id@ && b
                        == user_id@ && listed_upto(*watched, i as int, a))),
            decreases watched@.len() - i,
        {
            let wkey = user_key_of(tenant_id, watched[i].as_str());
            let ghost before = self.watchers();
            let ghost k = wkey@;
            let mut ws = match name_lists_remove(&mut self.watchers, &wkey) {
                Some(ws) => ws,
                None => Vec::new(),
            };
            let ghost had = ws;
            assert(before.contains_key(k) ==> distinct_names(before[k]));
            assert(!before.contains_key(k) ==> forall|y: Seq<char>| !#[trigger] listed(had, y));
            add_name(&mut ws, user_id);
            name_lists_insert(&mut self.watchers, wkey, ws);
            proof {
                let now = self.watchers();
                assert(now == before.remove(k).insert(k, now[k]));
                assert forall|kk: (Seq<char>, Seq<char>)| #[trigger] now.contains_key(kk) implies distinct_names(
                    now[kk],
                ) by {
                    if kk != k {
                        assert(before.contains_key(kk));
                    }
                }
                assert forall|t: Seq<char>, a: Seq<char>, b: Seq<char>| #[trigger]
                    holds(now, t, a, b) == (holds(w0, t, a, b) || (t == tenant_id@ && b == user_id@
                        && listed_upto(*watched, i + 1, a))) by {
                    assert(holds(before, t, a, b) == (holds(w0, t, a, b) || (t == tenant_id@ && b
                        == user_id@ && listed_upto(*watched, i as int, a))));
                    if listed_upto(*watched, i + 1, a) && !listed_upto(*watched, i as int, a) {
                        let j = choose|j: int| 0 <= j < i + 1 && j < watched@.len() && watched@[j]@ == a;
                        assert(j == i);
                    }
                    if listed_upto(*watched, i as int, a) {
                        let j = choose|j: int| 0 <= j < i && j < watched@.len() && watched@[j]@ == a;
                        assert(0 <= j < i + 1);
                    }
                    if a == watched@[i as int]@ {
                        assert(listed_upto(*watched, i + 1, a));
                    }
                    if (t, a) == k {
                        assert(listed(now[k], b) == (listed(had, b) || b == user_id@));
                    }
                }
            }
            i += 1;
        }
        assert forall|t: Seq<char>, a: Seq<char>, b: Seq<char>| #[trigger]
            holds(self.watchers(), t, a, b) == (holds(w0, t, a, b) || (t == tenant_id@ && b
                == user_id@ && listed(*watched, a))) by {
            assert(holds(self.watchers(), t, a, b) == (holds(w0, t, a, b) || (t == tenant_id@ && b
                == user_id@ && listed_upto(*watched, i as int, a))));
            if listed(*watched, a) {
                let j = choose|j: int| 0 <= j < watched@.len() && watched@[j]@ == a;
                assert(listed_upto(*watched, i as int, a));
            }
        }
    }
}

impl ConnectionRegistry {
    /// Sets the watchlist of `user_id`, keeping the watcher index in step: the user stops
    /// watching those on their old list and watches those on the new one.
    pub fn set_watchlist(&mut self, tenant_id: &str, user_id: &str, watchlist: Vec<String>)
        requires
            old(self).wf(),
        ensures
            final(self).wf(),
            final(self).watchlists() == old(self).watchlists().insert((tenant_id@, user_id@), watchlist),
            final(self).handles() == old(self).handles(),
            final(self).user_conns() == old(self).user_conns(),
            final(self).generations() == old(self).generations(),
    {
        let key = user_key_of(tenant_id, user_id);
        let ghost l0 = old(self).watchlists();
        let ghost w0 = old(self).watchers();
        let ghost k = key@;
        match name_lists_remove(&mut self.watchlists, &key) {
            Some(old_list) => {
                self.unwatch_each(tenant_id, user_id, &old_list);
                proof {
                    assert(l0.contains_key(k) && old_list == l0[k]);
                }
            },
            None => {},
        }
        let ghost l1 = self.watchlists();
        let ghost w1 = self.watchers();
        proof {
            assert(l1 == l0.remove(k));
            assert forall|t: Seq<char>, u: Seq<char>, w: Seq<char>|
                #![trigger holds(w1, t, w, u)]
                #![trigger holds(l1, t, u, w)]
                holds(w1, t, w, u) == holds(l1, t, u, w) by {
                assert(holds(w0, t, w, u) == holds(l0, t, u, w));
                if (t, u) == k {
                    assert(!holds(l1, t, u, w));
                } else {
                    assert(holds(l1, t, u, w) == holds(l0, t, u, w));
                }
            }
        }
        self.watch_each(tenant_id, user_id, &watchlist);
        let ghost w2 = self.watchers();
        name_lists_insert(&mut self.watchlists, key, watchlist);
        proof {
            let l2 = self.watchlists();
            assert(l2 =~= l0.insert(k, watchlist));
            assert forall|t: Seq<char>, u: Seq<char>, w: Seq<char>|
                #![trigger holds(w2, t, w, u)]
                #![trigger holds(l2, t, u, w)]
                holds(w2, t, w, u) == holds(l2, t, u, w) by {
                assert(holds(w1, t, w, u) == holds(l1, t, u, w));
                if (t, u) == k {
                    assert(!holds(l1, t, u, w));
                    assert(holds(l2, t, u, w) == listed(watchlist, w));
                } else {
                    assert(holds(l2, t, u, w) == holds(l1, t, u, w));
                }
            }
        }
    }

    /// Drops the watchlist of `user_id` (when their last connection ends), taking them off
    /// the watcher lists of those they watched.
    pub fn cleanup_watchlist(&mut self, tenant_id: &str, user_id: &str)
        requires
            old(self).wf(),
        ensures
            final(self).wf(),
            final(self).watchlists() == old(self).watchlists().remove((tenant_id@, user_id@)),
            final(self).handles() == old(self).handles(),
            final(self).user_conns() == old(self).user_conns(),
            final(self).generations() == old(self).generations(),
    {
        let key = user_key_of(tenant_id, user_id);
        let ghost l0 = old(self).watchlists();
        let ghost w0 = old(self).watchers();
        let ghost k = key@;
        match name_lists_remove(&mut self.watchlists, &key) {
            Some(old_list) => {
                self.unwatch_each(tenant_id, user_id, &old_list);
                proof {
                    assert(l0.contains_key(k) && old_list == l0[k]);
                }
            },
            None => {},
        }
        proof {
            let l1 = self.watchlists();
            let w1 = self.watchers();
            assert(l1 == l0.remove(k));
            assert forall|t: Seq<char>, u: Seq<char>, w: Seq<char>|
                #![trigger holds(w1, t, w, u)]
                #![trigger holds(l1, t, u, w)]
                holds(w1, t, w, u) == holds(l1, t, u, w) by {
                assert(holds(w0, t, w, u) == holds(l0, t, u, w));
                if (t, u) == k {
                    assert(!holds(l1, t, u, w));
                } else {
                    assert(holds(l1, t, u, w) == holds(l0, t, u, w));
                }
            }
        }
    }

    /// The users watching `user_id`, each once, in no particular order: exactly those whose
    /// watchlist names them.
    pub fn get_watchers(&mut self, tenant_id: &str, user_id: &str) -> (r: Vec<String>)
        requires
            old(self).wf(),
        ensures
            final(self).wf(),
            final(self).same_as(*old(self)),
            forall|u: Seq<char>| #[trigger]
                listed(r, u) == holds(old(self).watchlists(), tenant_id@, u, user_id@),
            distinct_names(r),
    {
        let key = user_key_of(tenant_id, user_id);
        let ghost w0 = old(self).watchers();
        let ghost k = key@;
        match name_lists_remove(&mut self.watchers, &key) {
            Some(ws) => {
                let r = copy_names(&ws);
                name_lists_insert(&mut self.watchers, key, ws);
                proof {
                    assert(self.watchers() =~= w0);
                    assert(w0.contains_key(k) ==> distinct_names(w0[k]));
                    assert forall|u: Seq<char>| #[trigger]
                        listed(r, u) == holds(old(self).watchlists(), tenant_id@, u, user_id@) by {
                        assert(holds(w0, tenant_id@, user_id@, u) == holds(
                            old(self).watchlists(),
                            tenant_id@,
                            u,
                            user_id@,
                        ));
                        if listed(r, u) {
                            let i = choose|i: int| 0 <= i < r@.len() && r@[i]@ == u;
                            assert(w0[k]@[i]@ == u);
                        }
                        if listed(w0[k], u) {
                            let i = choose|i: int| 0 <= i < w0[k]@.len() && w0[k]@[i]@ == u;
                            assert(r@[i]@ == u);
                        }
                    }
                    assert forall|i: int, j: int|
                        0 <= i < r@.len() && 0 <= j < r@.len() && i != j implies r@[i]@ != r@[j]@ by {
                        assert(r@[i]@ == w0[k]@[i]@ && r@[j]@ == w0[k]@[j]@);
                    }
                }
                r
            },
            None => {
                let r: Vec<String> = Vec::new();
                proof {
                    assert(self.watchers() =~= w0);
                    assert forall|u: Seq<char>| #[trigger]
                        listed(r, u) == holds(old(self).watchlists(), tenant_id@, u, user_id@) by {
                        assert(holds(w0, tenant_id@, user_id@, u) == holds(
                            old(self).watchlists(),
                            tenant_id@,
                            u,
                            user_id@,
                        ));
                    }
                }
                r
            },
        }
    }
}

impl ConnectionRegistry {
    /// The number of live connections of the tenant's users, counted up to `usize::MAX`.
    pub fn tenant_connection_count(&mut self, tenant_id: &str) -> (n: usize)
        requires
            old(self).wf(),
        ensures
            final(self).wf(),
            final(self).same_as(*old(self)),
            n == capped(tenant_conn_count(old(self).user_conns(), tenant_id@)),
    {
        let keys = user_conns_keys(&self.by_user);
        let ghost m = old(self).user_conns();
        let ghost f = add_user_conns(m);
        let ghost mut seen: Set<(Seq<char>, Seq<char>)> = Set::empty();
        proof {
            lemma_add_user_conns_commutative(m);
            vstd::set::fold::lemma_fold_empty(0nat, f);
        }
        let mut n: usize = 0;
        let mut i: usize = 0;
        while i < keys.len()
            invariant
                self.wf(),
                self.same_as(*old(self)),
                m == old(self).user_conns(),
                f == add_user_conns(m),
                vstd::set::fold::is_fun_commutative(f),
                forall|j: int| 0 <= j < keys@.len() ==> m.contains_key(#[trigger] keys@[j]@),
                forall|k: (Seq<char>, Seq<char>)| #[trigger]
                    m.contains_key(k) ==> exists|j: int| 0 <= j < keys@.len() && keys@[j]@ == k,
                forall|a: int, b: int|
                    0 <= a < keys@.len() && 0 <= b < keys@.len() && a != b ==> keys@[a]@ != keys@[b]@,
                i <= keys@.len(),
                seen.finite(),
                forall|k: (Seq<char>, Seq<char>)| #[trigger]
                    seen.contains(k) <==> exists|j: int| 0 <= j < i && keys@[j]@ == k && k.0 == tenant_id@,
                n == capped(seen.fold(0nat, f)),
            decreases keys@.len() - i,
        {
            let ghost kk = keys@[i as int]@;
            if str_eq(keys[i].0.as_str(), tenant_id) {
                let k = user_key_of(keys[i].0.as_str(), keys[i].1.as_str());
                proof {
                    assert(m.contains_key(kk));
                    assert(!seen.contains(kk)) by {
                        if seen.contains(kk) {
                            let j = choose|j: int| 0 <= j < i && keys@[j]@ == kk && kk.0 == tenant_id@;
                            assert(keys@[j]@ != keys@[i as int]@);
                        }
                    }
                }
                match user_conns_remove(&mut self.by_user, &k) {
                    Some(conns) => {
                        let c = conns.len();
                        proof {
                            assert(m[kk]@.no_duplicates());
                            conns@.unique_seq_to_set();
                            vstd::set::fold::lemma_fold_insert(seen, 0nat, f, kk);
                        }
                        user_conns_insert(&mut self.by_user, k, conns);
                        proof {
                            assert(self.user_conns() =~= m);
                            seen = seen.insert(kk);
                            assert forall|k2: (Seq<char>, Seq<char>)| #[trigger]
                                seen.contains(k2) <==> exists|j: int|
                                    0 <= j < i + 1 && keys@[j]@ == k2 && k2.0 == tenant_id@ by {
                                if seen.contains(k2) && k2 != kk {
                                    let j = choose|j: int| 0 <= j < i && keys@[j]@ == k2 && k2.0 == tenant_id@;
                                    assert(0 <= j < i + 1);
                                }
                                if k2 == kk {
                                    assert(keys@[i as int]@ == k2);
                                }
                            }
                        }
                        n = n.saturating_add(c);
                    },
                    None => {
                        proof {
                            assert(false);
                        }
                    },
                }
            } else {
                proof {
                    assert forall|k2: (Seq<char>, Seq<char>)| #[trigger]
                        seen.contains(k2) <==> exists|j: int|
                            0 <= j < i + 1 && keys@[j]@ == k2 && k2.0 == tenant_id@ by {
                        if exists|j: int| 0 <= j < i + 1 && keys@[j]@ == k2 && k2.0 == tenant_id@ {
                            let j = choose|j: int| 0 <= j < i + 1 && keys@[j]@ == k2 && k2.0 == tenant_id@;
                            assert(j != i);
                        }
                    }
                }
            }
            i += 1;
        }
        proof {
            assert(seen =~= tenant_users(m, tenant_id@)) by {
                assert forall|k: (Seq<char>, Seq<char>)|
                    tenant_users(m, tenant_id@).contains(k) implies seen.contains(k) by {
                    let j = choose|j: int| 0 <= j < keys@.len() && keys@[j]@ == k;
                }
            }
        }
        n
    }
}

/// The watchers follow the watchlists: once the watchlist of `u` is `list` (as
/// `set_watchlist(t, u, list)` leaves it), `u` is listed among the watchers of exactly the
/// users on `list`.
pub proof fn lemma_watchers_follow_watchlist(
    reg: ConnectionRegistry,
    t: Seq<char>,
    u: Seq<char>,
    list: Vec<String>,
    w: Seq<char>,
)
    requires
        reg.wf(),
        reg.watchlists().contains_key((t, u)),
        reg.watchlists()[(t, u)] == list,
    ensures
        holds(reg.watchers(), t, w, u) == listed(list, w),
{
    assert(holds(reg.watchers(), t, w, u) == holds(reg.watchlists(), t, u, w));
}

/// Unregistering a connection undoes registering it: when `c` was not among the
/// connections of `k`, registering it and then unregistering it leaves every user with
/// the connections they had.
pub proof fn lemma_unregister_undoes_register(
    m0: Map<(Seq<char>, Seq<char>), Vec<ConnId>>,
    m1: Map<(Seq<char>, Seq<char>), Vec<ConnId>>,
    m2: Map<(Seq<char>, Seq<char>), Vec<ConnId>>,
    k: (Seq<char>, Seq<char>),
    c: ConnId,
)
    requires
        users_ok(m0),
        !conn_set(m0, k).contains(c),
        m1.dom() == m0.dom().insert(k),
        m1.remove(k) == m0.remove(k),
        conn_set(m1, k) == conn_set(m0, k).insert(c),
        conn_dropped_from(m1, m2, k, c),
    ensures
        m2.dom() == m0.dom(),
        forall|k2: (Seq<char>, Seq<char>)| #[trigger] conn_set(m2, k2) == conn_set(m0, k2),
{
    assert(m1.contains_key(k));
    assert(conn_set(m1, k).remove(c) =~= conn_set(m0, k));
    if m0.contains_key(k) {
        let v = m0[k]@;
        assert(v.to_set().contains(v[0]));
        assert(conn_set(m0, k) != Set::<ConnId>::empty());
    } else {
        assert(conn_set(m0, k) == Set::<ConnId>::empty());
    }
    assert forall|k2: (Seq<char>, Seq<char>)| #[trigger] conn_set(m2, k2) == conn_set(m0, k2) by {
        if k2 != k {
            assert(m2.remove(k).contains_key(k2) == m2.contains_key(k2));
            assert(m0.remove(k).contains_key(k2) == m0.contains_key(k2));
            if m2.contains_key(k2) {
                assert(m2.remove(k)[k2] == m2[k2]);
            }
            if m0.contains_key(k2) {
                assert(m0.remove(k)[k2] == m0[k2]);
                assert(m1.remove(k)[k2] == m1[k2]);
            }
        }
    }
    assert(m2.dom() =~= m0.dom());
}

} // verus!
