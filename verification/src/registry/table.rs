//! A small table keyed by tuples of strings (`(tenant, user)`, `(tenant, stream, user)`),
//! the in-memory maps of the registries. Each key occurs at most once; the table is
//! seen as a `Map` from the keys' text to the values.
use vstd::prelude::*;
use vstd::string::*;
use crate::text::{str_eq, copy_str};

verus! {

broadcast use vstd::string::group_string_axioms;

/// The text of a key.
pub open spec fn key_view(k: Vec<String>) -> Seq<Seq<char>> {
    k@.map_values(|s: String| s@)
}

/// The key `(a, b)`.
pub fn pair_key(a: &str, b: &str) -> (k: Vec<String>)
    ensures
        key_view(k) == seq![a@, b@],
{
    let k = vec![copy_str(a), copy_str(b)];
    assert(key_view(k) =~= seq![a@, b@]);
    k
}

/// The key `(a, b, c)`.
pub fn triple_key(a: &str, b: &str, c: &str) -> (k: Vec<String>)
    ensures
        key_view(k) == seq![a@, b@, c@],
{
    let k = vec![copy_str(a), copy_str(b), copy_str(c)];
    assert(key_view(k) =~= seq![a@, b@, c@]);
    k
}

/// Whether two keys have the same text.
pub fn same_key(a: &Vec<String>, b: &Vec<String>) -> (r: bool)
    ensures
        r == (key_view(*a) == key_view(*b)),
{
    if a.len() != b.len() {
        proof {
            assert(key_view(*a).len() != key_view(*b).len());
        }
        return false;
    }
    let mut i: usize = 0;
    while i < a.len()
        invariant
            a@.len() == b@.len(),
            i <= a@.len(),
            forall|j: int| 0 <= j < i ==> a@[j]@ == b@[j]@,
        decreases a@.len() - i,
    {
        if !str_eq(a[i].as_str(), b[i].as_str()) {
            proof {
                assert(key_view(*a)[i as int] != key_view(*b)[i as int]);
            }
            return false;
        }
        i += 1;
    }
    assert(key_view(*a) =~= key_view(*b));
    true
}

/// The map that the entries `s` stand for (a later entry for a key wins).
pub open spec fn entries_map<V>(s: Seq<(Vec<String>, V)>) -> Map<Seq<Seq<char>>, V>
    decreases s.len(),
{
    if s.len() == 0 {
        Map::empty()
    } else {
        entries_map(s.drop_last()).insert(key_view(s.last().0), s.last().1)
    }
}

/// No key occurs twice in `s`.
pub open spec fn keys_unique<V>(s: Seq<(Vec<String>, V)>) -> bool {
    forall|i: int, j: int|
        0 <= i < s.len() && 0 <= j < s.len() && i != j ==> key_view(#[trigger] s[i].0)
            != key_view(#[trigger] s[j].0)
}

/// The entries of `s` that `keep` keeps, in order.
pub open spec fn kept<V>(s: Seq<(Vec<String>, V)>, keep: spec_fn(Seq<Seq<char>>, V) -> bool) -> Seq<
    (Vec<String>, V),
>
    decreases s.len(),
{
    if s.len() == 0 {
        s
    } else if keep(key_view(s.last().0), s.last().1) {
        kept(s.drop_last(), keep).push(s.last())
    } else {
        kept(s.drop_last(), keep)
    }
}

/// The entries of `s` that `keep` does not keep, in order.
pub open spec fn dropped<V>(s: Seq<(Vec<String>, V)>, keep: spec_fn(Seq<Seq<char>>, V) -> bool) -> Seq<
    (Vec<String>, V),
>
    decreases s.len(),
{
    if s.len() == 0 {
        s
    } else if keep(key_view(s.last().0), s.last().1) {
        dropped(s.drop_last(), keep)
    } else {
        dropped(s.drop_last(), keep).push(s.last())
    }
}

/// A key is in the map exactly when an entry has it, and with distinct keys the map
/// holds that entry's value.
pub proof fn lemma_entries_map<V>(s: Seq<(Vec<String>, V)>)
    requires
        keys_unique(s),
    ensures
        forall|j: int|
            0 <= j < s.len() ==> #[trigger] entries_map(s).contains_key(key_view(s[j].0))
                && entries_map(s)[key_view(s[j].0)] == s[j].1,
        forall|k: Seq<Seq<char>>|
            #[trigger] entries_map(s).contains_key(k) ==> exists|j: int|
                0 <= j < s.len() && key_view(s[j].0) == k,
    decreases s.len(),
{
    if s.len() > 0 {
        let t = s.drop_last();
        assert(keys_unique(t)) by {
            assert forall|i: int, j: int|
                0 <= i < t.len() && 0 <= j < t.len() && i != j implies key_view(#[trigger] t[i].0)
                != key_view(#[trigger] t[j].0) by {
                assert(t[i] == s[i] && t[j] == s[j]);
            }
        }
        lemma_entries_map(t);
        assert forall|j: int| 0 <= j < s.len() implies #[trigger] entries_map(s).contains_key(
            key_view(s[j].0),
        ) && entries_map(s)[key_view(s[j].0)] == s[j].1 by {
            if j < s.len() - 1 {
                assert(t[j] == s[j]);
                assert(entries_map(t).contains_key(key_view(t[j].0)));
                assert(key_view(s[j].0) != key_view(s[s.len() - 1].0));
            }
        }
        assert forall|k: Seq<Seq<char>>| #[trigger] entries_map(s).contains_key(k) implies exists|
            j: int,
        | 0 <= j < s.len() && key_view(s[j].0) == k by {
            if k == key_view(s.last().0) {
                assert(key_view(s[s.len() - 1].0) == k);
            } else {
                assert(entries_map(t).contains_key(k));
                let j = choose|j: int| 0 <= j < t.len() && key_view(t[j].0) == k;
                assert(t[j] == s[j]);
            }
        }
    }
}

/// With distinct keys, the dropped entries are entries of `s`, and their keys stay
/// distinct.
pub proof fn lemma_dropped_unique<V>(s: Seq<(Vec<String>, V)>, keep: spec_fn(Seq<Seq<char>>, V) -> bool)
    requires
        keys_unique(s),
    ensures
        keys_unique(dropped(s, keep)),
        forall|x: (Vec<String>, V)| #[trigger] dropped(s, keep).contains(x) ==> s.contains(x),
    decreases s.len(),
{
    if s.len() > 0 {
        let t = s.drop_last();
        let e = s.last();
        let last = s.len() - 1;
        assert(keys_unique(t)) by {
            assert forall|i: int, j: int|
                0 <= i < t.len() && 0 <= j < t.len() && i != j implies key_view(#[trigger] t[i].0)
                != key_view(#[trigger] t[j].0) by {
                assert(t[i] == s[i] && t[j] == s[j]);
            }
        }
        lemma_dropped_unique(t, keep);
        let d = dropped(t, keep);
        assert forall|x: (Vec<String>, V)| #[trigger] d.contains(x) implies s.contains(x) && exists|
            j: int,
        | 0 <= j < last && s[j] == x by {
            let j = choose|j: int| 0 <= j < t.len() && t[j] == x;
            assert(s[j] == x);
        }
        if !keep(key_view(e.0), e.1) {
            let d2 = d.push(e);
            assert(dropped(s, keep) == d2);
            assert forall|a: int, b: int|
                0 <= a < d2.len() && 0 <= b < d2.len() && a != b implies key_view(#[trigger] d2[a].0)
                != key_view(#[trigger] d2[b].0) by {
                if a < d.len() && b < d.len() {
                    assert(d2[a] == d[a] && d2[b] == d[b]);
                } else if a < d.len() {
                    assert(d.contains(d[a]));
                    let j = choose|j: int| 0 <= j < last && s[j] == d[a];
                    assert(d2[b] == s[last]);
                } else {
                    assert(d.contains(d[b]));
                    let j = choose|j: int| 0 <= j < last && s[j] == d[b];
                    assert(d2[a] == s[last]);
                }
            }
            assert forall|x: (Vec<String>, V)| #[trigger] d2.contains(x) implies s.contains(x) by {
                let a = choose|a: int| 0 <= a < d2.len() && d2[a] == x;
                if a < d.len() {
                    assert(d[a] == x);
                    assert(d.contains(x));
                } else {
                    assert(s[last] == x);
                }
            }
        }
    }
}

/// With distinct keys, the kept entries stand for the map restricted to the keys whose
/// entries are kept; their keys stay distinct.
pub proof fn lemma_kept<V>(s: Seq<(Vec<String>, V)>, keep: spec_fn(Seq<Seq<char>>, V) -> bool)
    requires
        keys_unique(s),
    ensures
        keys_unique(kept(s, keep)),
        forall|k: Seq<Seq<char>>|
            #[trigger] entries_map(kept(s, keep)).contains_key(k) <==> entries_map(s).contains_key(k)
                && keep(k, entries_map(s)[k]),
        forall|k: Seq<Seq<char>>|
            #[trigger] entries_map(kept(s, keep)).contains_key(k) ==> entries_map(kept(s, keep))[k]
                == entries_map(s)[k],
        forall|e: (Vec<String>, V)| kept(s, keep).contains(e) ==> s.contains(e),
        forall|x: (Vec<String>, V)|
            #[trigger] dropped(s, keep).contains(x) ==> entries_map(s).contains_key(key_view(x.0))
                && entries_map(s)[key_view(x.0)] == x.1 && !keep(key_view(x.0), x.1),
        forall|k: Seq<Seq<char>>|
            entries_map(s).contains_key(k) && !keep(k, entries_map(s)[k]) ==> exists|
                x: (Vec<String>, V),
            | #[trigger] dropped(s, keep).contains(x) && key_view(x.0) == k,
    decreases s.len(),
{
    if s.len() > 0 {
        let t = s.drop_last();
        let e = s.last();
        assert(keys_unique(t)) by {
            assert forall|i: int, j: int|
                0 <= i < t.len() && 0 <= j < t.len() && i != j implies key_view(#[trigger] t[i].0)
                != key_view(#[trigger] t[j].0) by {
                assert(t[i] == s[i] && t[j] == s[j]);
            }
        }
        lemma_kept(t, keep);
        lemma_entries_map(t);
        let ke = key_view(e.0);
        assert(!entries_map(t).contains_key(ke)) by {
            if entries_map(t).contains_key(ke) {
                let j = choose|j: int| 0 <= j < t.len() && key_view(t[j].0) == ke;
                assert(t[j] == s[j]);
                assert(key_view(s[j].0) != key_view(s[s.len() - 1].0));
            }
        }
        let kt = kept(t, keep);
        assert forall|x: (Vec<String>, V)| kept(s, keep).contains(x) implies s.contains(x) by {
            if kt.contains(x) {
                assert(t.contains(x));
                let j = choose|j: int| 0 <= j < t.len() && t[j] == x;
                assert(t[j] == s[j]);
                assert(s[j] == x);
            } else {
                assert(keep(ke, e.1));
                assert(kept(s, keep) == kt.push(e));
                let j = choose|j: int| 0 <= j < kept(s, keep).len() && kept(s, keep)[j] == x;
                assert(j == kt.len());
                assert(s[s.len() - 1] == x);
            }
        }
        if keep(ke, e.1) {
            assert(kept(s, keep) == kt.push(e));
            lemma_push_new(kt, e);
        }
        let dt = dropped(t, keep);
        assert forall|x: (Vec<String>, V)| #[trigger] dropped(s, keep).contains(x) implies entries_map(
            s,
        ).contains_key(key_view(x.0)) && entries_map(s)[key_view(x.0)] == x.1 && !keep(
            key_view(x.0),
            x.1,
        ) by {
            if dt.contains(x) {
                assert(entries_map(t).contains_key(key_view(x.0)));
            } else {
                assert(!keep(ke, e.1));
                assert(dropped(s, keep) == dt.push(e));
                let j = choose|j: int| 0 <= j < dropped(s, keep).len() && dropped(s, keep)[j] == x;
                assert(j == dt.len());
            }
        }
        assert forall|k: Seq<Seq<char>>|
            entries_map(s).contains_key(k) && !keep(k, entries_map(s)[k]) implies exists|
                x: (Vec<String>, V),
            | #[trigger] dropped(s, keep).contains(x) && key_view(x.0) == k by {
            if k == ke {
                assert(dropped(s, keep) == dt.push(e));
                assert(dropped(s, keep)[dt.len() as int] == e);
                assert(dropped(s, keep).contains(e));
            } else {
                assert(entries_map(t).contains_key(k));
                let x = choose|x: (Vec<String>, V)| #[trigger] dt.contains(x) && key_view(x.0) == k;
                let j = choose|j: int| 0 <= j < dt.len() && dt[j] == x;
                if !keep(ke, e.1) {
                    assert(dropped(s, keep) == dt.push(e));
                    assert(dropped(s, keep)[j] == x);
                } else {
                    assert(dropped(s, keep) == dt);
                }
                assert(dropped(s, keep).contains(x));
            }
        }
    }
}

/// One step of a pass over `s`: the entry at `i` joins the kept or the dropped entries,
/// and its key is not among those kept before it.
pub proof fn lemma_kept_step<V>(
    s: Seq<(Vec<String>, V)>,
    i: int,
    keep: spec_fn(Seq<Seq<char>>, V) -> bool,
)
    requires
        keys_unique(s),
        0 <= i < s.len(),
    ensures
        keys_unique(s.take(i)),
        keys_unique(kept(s.take(i), keep)),
        !entries_map(kept(s.take(i), keep)).contains_key(key_view(s[i].0)),
        kept(s.take(i + 1), keep) == (if keep(key_view(s[i].0), s[i].1) {
            kept(s.take(i), keep).push(s[i])
        } else {
            kept(s.take(i), keep)
        }),
        dropped(s.take(i + 1), keep) == (if keep(key_view(s[i].0), s[i].1) {
            dropped(s.take(i), keep)
        } else {
            dropped(s.take(i), keep).push(s[i])
        }),
{
    let p = s.take(i);
    assert(s.take(i + 1).drop_last() =~= p);
    assert(s.take(i + 1).last() == s[i]);
    assert(keys_unique(p)) by {
        assert forall|a: int, b: int|
            0 <= a < p.len() && 0 <= b < p.len() && a != b implies key_view(#[trigger] p[a].0)
            != key_view(#[trigger] p[b].0) by {
            assert(p[a] == s[a] && p[b] == s[b]);
        }
    }
    lemma_kept(p, keep);
    lemma_entries_map(p);
    if entries_map(kept(p, keep)).contains_key(key_view(s[i].0)) {
        assert(entries_map(p).contains_key(key_view(s[i].0)));
        let j = choose|j: int| 0 <= j < p.len() && key_view(p[j].0) == key_view(s[i].0);
        assert(p[j] == s[j]);
    }
}

/// Pushing an entry whose key is new keeps the keys distinct.
pub proof fn lemma_push_new<V>(s: Seq<(Vec<String>, V)>, e: (Vec<String>, V))
    requires
        keys_unique(s),
        !entries_map(s).contains_key(key_view(e.0)),
    ensures
        keys_unique(s.push(e)),
        entries_map(s.push(e)) == entries_map(s).insert(key_view(e.0), e.1),
{
    lemma_entries_map(s);
    let t = s.push(e);
    assert(t.drop_last() =~= s);
    assert forall|i: int, j: int|
        0 <= i < t.len() && 0 <= j < t.len() && i != j implies key_view(#[trigger] t[i].0)
        != key_view(#[trigger] t[j].0) by {
        if i < s.len() && j < s.len() {
            assert(t[i] == s[i] && t[j] == s[j]);
        } else if i < s.len() {
            assert(t[i] == s[i]);
            assert(entries_map(s).contains_key(key_view(s[i].0)));
        } else {
            assert(t[j] == s[j]);
            assert(entries_map(s).contains_key(key_view(s[j].0)));
        }
    }
}

/// Replacing the entry at `i` by one with the same key replaces the key's value.
pub proof fn lemma_update_same_key<V>(s: Seq<(Vec<String>, V)>, i: int, e: (Vec<String>, V))
    requires
        keys_unique(s),
        0 <= i < s.len(),
        key_view(e.0) == key_view(s[i].0),
    ensures
        keys_unique(s.update(i, e)),
        entries_map(s.update(i, e)) == entries_map(s).insert(key_view(e.0), e.1),
{
    let u = s.update(i, e);
    assert forall|a: int, b: int|
        0 <= a < u.len() && 0 <= b < u.len() && a != b implies key_view(#[trigger] u[a].0)
        != key_view(#[trigger] u[b].0) by {
        if a == i {
            assert(key_view(u[a].0) == key_view(s[a].0));
        }
        if b == i {
            assert(key_view(u[b].0) == key_view(s[b].0));
        }
    }
    lemma_entries_map(s);
    lemma_entries_map(u);
    let m1 = entries_map(u);
    let m2 = entries_map(s).insert(key_view(e.0), e.1);
    assert forall|k: Seq<Seq<char>>| m1.contains_key(k) <==> m2.contains_key(k) by {
        if m1.contains_key(k) {
            let j = choose|j: int| 0 <= j < u.len() && key_view(u[j].0) == k;
            if j != i {
                assert(u[j] == s[j]);
            }
        }
        if m2.contains_key(k) && k != key_view(e.0) {
            let j = choose|j: int| 0 <= j < s.len() && key_view(s[j].0) == k;
            assert(j != i);
            assert(u[j] == s[j]);
        }
        if k == key_view(e.0) {
            assert(key_view(u[i].0) == k);
        }
    }
    assert forall|k: Seq<Seq<char>>| m1.contains_key(k) implies m1[k] == m2[k] by {
        let j = choose|j: int| 0 <= j < u.len() && key_view(u[j].0) == k;
        if j != i {
            assert(u[j] == s[j]);
        }
    }
    assert(m1 =~= m2);
}

/// Removing the entry at `i` removes its key.
pub proof fn lemma_remove_at<V>(s: Seq<(Vec<String>, V)>, i: int)
    requires
        keys_unique(s),
        0 <= i < s.len(),
    ensures
        keys_unique(s.remove(i)),
        entries_map(s.remove(i)) == entries_map(s).remove(key_view(s[i].0)),
{
    let u = s.remove(i);
    assert forall|a: int, b: int|
        0 <= a < u.len() && 0 <= b < u.len() && a != b implies key_view(#[trigger] u[a].0)
        != key_view(#[trigger] u[b].0) by {
        let a2 = if a < i {
            a
        } else {
            a + 1
        };
        let b2 = if b < i {
            b
        } else {
            b + 1
        };
        assert(u[a] == s[a2] && u[b] == s[b2]);
    }
    lemma_entries_map(s);
    lemma_entries_map(u);
    let m1 = entries_map(u);
    let m2 = entries_map(s).remove(key_view(s[i].0));
    assert forall|k: Seq<Seq<char>>| m1.contains_key(k) <==> m2.contains_key(k) by {
        if m1.contains_key(k) {
            let j = choose|j: int| 0 <= j < u.len() && key_view(u[j].0) == k;
            let j2 = if j < i {
                j
            } else {
                j + 1
            };
            assert(u[j] == s[j2]);
        }
        if m2.contains_key(k) {
            let j = choose|j: int| 0 <= j < s.len() && key_view(s[j].0) == k;
            assert(j != i);
            let j2 = if j < i {
                j
            } else {
                j - 1
            };
            assert(u[j2] == s[j]);
        }
    }
    assert forall|k: Seq<Seq<char>>| m1.contains_key(k) implies m1[k] == m2[k] by {
        let j = choose|j: int| 0 <= j < u.len() && key_view(u[j].0) == k;
        let j2 = if j < i {
            j
        } else {
            j + 1
        };
        assert(u[j] == s[j2]);
    }
    assert(m1 =~= m2);
}

/// A table with at most one entry per key.
pub struct Table<V> {
    entries: Vec<(Vec<String>, V)>,
}

impl<V> View for Table<V> {
    type V = Map<Seq<Seq<char>>, V>;

    closed spec fn view(&self) -> Map<Seq<Seq<char>>, V> {
        entries_map(self.entries@)
    }
}

impl<V> Table<V> {
    /// The entries, in the table's order.
    pub closed spec fn entries(&self) -> Seq<(Vec<String>, V)> {
        self.entries@
    }

    /// Well-formedness: no key occurs twice.
    pub closed spec fn wf(&self) -> bool {
        keys_unique(self.entries@)
    }

    pub proof fn lemma_view(&self)
        requires
            self.wf(),
        ensures
            self@ == entries_map(self.entries()),
            keys_unique(self.entries()),
            self.entries().len() == self@.dom().len(),
            self@.dom().finite(),
    {
        lemma_map_len(self.entries@);
    }

    pub fn new() -> (t: Table<V>)
        ensures
            t.wf(),
            t@ == Map::<Seq<Seq<char>>, V>::empty(),
            t.entries() == Seq::<(Vec<String>, V)>::empty(),
    {
        Table { entries: Vec::new() }
    }

    /// The number of keys.
    pub fn len(&self) -> (n: usize)
        requires
            self.wf(),
        ensures
            n == self@.dom().len(),
    {
        proof {
            lemma_map_len(self.entries@);
        }
        self.entries.len()
    }

    /// The index of the entry with key `k`.
    fn find(&self, k: &Vec<String>) -> (r: Option<usize>)
        requires
            self.wf(),
        ensures
            match r {
                Some(i) => i < self.entries@.len() && key_view(self.entries@[i as int].0)
                    == key_view(*k),
                None => !self@.contains_key(key_view(*k)),
            },
    {
        proof {
            lemma_entries_map(self.entries@);
        }
        let mut i: usize = 0;
        while i < self.entries.len()
            invariant
                i <= self.entries@.len(),
                forall|j: int| 0 <= j < i ==> key_view(self.entries@[j].0) != key_view(*k),
            decreases self.entries@.len() - i,
        {
            if same_key(&self.entries[i].0, k) {
                return Some(i);
            }
            i += 1;
        }
        None
    }

    /// The value of key `k`.
    pub fn get(&self, k: &Vec<String>) -> (r: Option<&V>)
        requires
            self.wf(),
        ensures
            match r {
                Some(v) => self@.contains_key(key_view(*k)) && *v == self@[key_view(*k)],
                None => !self@.contains_key(key_view(*k)),
            },
    {
        proof {
            lemma_entries_map(self.entries@);
        }
        match self.find(k) {
            Some(i) => {
                assert(entries_map(self.entries@).contains_key(
                    key_view(self.entries@[i as int].0),
                ));
                Some(&self.entries[i].1)
            },
            None => None,
        }
    }

    /// Sets key `k` to `v`.
    pub fn insert(&mut self, k: Vec<String>, v: V)
        requires
            old(self).wf(),
        ensures
            final(self).wf(),
            final(self)@ == old(self)@.insert(key_view(k), v),
    {
        match self.find(&k) {
            Some(i) => {
                proof {
                    lemma_update_same_key(self.entries@, i as int, (k, v));
                }
                self.entries.set(i, (k, v));
            },
            None => {
                proof {
                    lemma_push_new(self.entries@, (k, v));
                }
                self.entries.push((k, v));
            },
        }
    }

    /// Removes key `k`, handing back its value.
    pub fn remove(&mut self, k: &Vec<String>) -> (r: Option<V>)
        requires
            old(self).wf(),
        ensures
            final(self).wf(),
            final(self)@ == old(self)@.remove(key_view(*k)),
            match r {
                Some(v) => old(self)@.contains_key(key_view(*k)) && v == old(self)@[key_view(*k)],
                None => !old(self)@.contains_key(key_view(*k)),
            },
    {
        proof {
            lemma_entries_map(self.entries@);
        }
        match self.find(k) {
            Some(i) => {
                proof {
                    lemma_remove_at(self.entries@, i as int);
                    assert(entries_map(self.entries@).contains_key(
                        key_view(self.entries@[i as int].0),
                    ));
                }
                let e = self.entries.remove(i);
                Some(e.1)
            },
            None => {
                proof {
                    assert(self@.remove(key_view(*k)) =~= self@);
                }
                None
            },
        }
    }

    /// The entry at index `i` of the table's order.
    pub fn entry(&self, i: usize) -> (r: &(Vec<String>, V))
        requires
            i < self.entries().len(),
        ensures
            *r == self.entries()[i as int],
    {
        &self.entries[i]
    }

    /// The number of entries (the number of keys, for a well-formed table).
    pub fn entry_count(&self) -> (n: usize)
        ensures
            n == self.entries().len(),
    {
        self.entries.len()
    }

    /// Empties the table, handing back its entries.
    pub fn take_entries(&mut self) -> (r: Vec<(Vec<String>, V)>)
        ensures
            r@ == old(self).entries(),
            final(self).wf(),
            final(self)@ == Map::<Seq<Seq<char>>, V>::empty(),
            final(self).entries() == Seq::<(Vec<String>, V)>::empty(),
    {
        let mut r: Vec<(Vec<String>, V)> = Vec::new();
        std::mem::swap(&mut r, &mut self.entries);
        r
    }

    /// Keeps the entries whose flag in `mask` is set (`keep` says what the flags are, entry
    /// by entry in table order) and hands back the others, in table order.
    pub fn retain_mask(
        &mut self,
        mask: Vec<bool>,
        Ghost(keep): Ghost<spec_fn(Seq<Seq<char>>, V) -> bool>,
    ) -> (removed: Vec<(Vec<String>, V)>)
        requires
            old(self).wf(),
            mask@.len() == old(self).entries().len(),
            forall|i: int|
                0 <= i < mask@.len() ==> mask@[i] == keep(
                    key_view(#[trigger] old(self).entries()[i].0),
                    old(self).entries()[i].1,
                ),
        ensures
            final(self).wf(),
            keys_unique(removed@),
            forall|k: Seq<Seq<char>>|
                #[trigger] final(self)@.contains_key(k) <==> old(self)@.contains_key(k) && keep(
                    k,
                    old(self)@[k],
                ),
            forall|k: Seq<Seq<char>>|
                #[trigger] final(self)@.contains_key(k) ==> final(self)@[k] == old(self)@[k],
            forall|x: (Vec<String>, V)|
                #[trigger] removed@.contains(x) ==> old(self)@.contains_key(key_view(x.0))
                    && old(self)@[key_view(x.0)] == x.1 && !keep(key_view(x.0), x.1),
            forall|k: Seq<Seq<char>>|
                old(self)@.contains_key(k) && !keep(k, old(self)@[k]) ==> exists|
                    x: (Vec<String>, V),
                | #[trigger] removed@.contains(x) && key_view(x.0) == k,
    {
        let ghost s = self.entries@;
        let mut rest = self.take_entries();
        let mut removed: Vec<(Vec<String>, V)> = Vec::new();
        let n = rest.len();
        let mut i: usize = 0;
        assert(s.take(0) =~= Seq::<(Vec<String>, V)>::empty());
        assert(s.skip(0) =~= s);
        while rest.len() > 0
            invariant
                keys_unique(s),
                s.len() == n,
                mask@.len() == n,
                forall|j: int|
                    0 <= j < mask@.len() ==> mask@[j] == keep(key_view(#[trigger] s[j].0), s[j].1),
                i <= s.len(),
                rest@ == s.skip(i as int),
                self.wf(),
                self.entries() == kept(s.take(i as int), keep),
                removed@ == dropped(s.take(i as int), keep),
            decreases rest@.len(),
        {
            let e = rest.remove(0);
            proof {
                lemma_kept_step(s, i as int, keep);
                assert(s.skip(i as int).remove(0) =~= s.skip(i + 1));
                assert(e == s[i as int]);
            }
            if mask[i] {
                self.push_new(e.0, e.1);
            } else {
                removed.push(e);
            }
            i += 1;
        }
        proof {
            assert(s.take(s.len() as int) =~= s);
            lemma_kept(s, keep);
            lemma_dropped_unique(s, keep);
        }
        removed
    }

    /// Adds an entry whose key is not in the table.
    pub fn push_new(&mut self, k: Vec<String>, v: V)
        requires
            old(self).wf(),
            !old(self)@.contains_key(key_view(k)),
        ensures
            final(self).wf(),
            final(self)@ == old(self)@.insert(key_view(k), v),
            final(self).entries() == old(self).entries().push((k, v)),
    {
        proof {
            lemma_push_new(self.entries@, (k, v));
        }
        self.entries.push((k, v));
    }
}

/// With distinct keys, the map has as many keys as there are entries.
pub proof fn lemma_map_len<V>(s: Seq<(Vec<String>, V)>)
    requires
        keys_unique(s),
    ensures
        entries_map(s).dom().finite(),
        entries_map(s).dom().len() == s.len(),
    decreases s.len(),
{
    if s.len() > 0 {
        let t = s.drop_last();
        assert(keys_unique(t)) by {
            assert forall|i: int, j: int|
                0 <= i < t.len() && 0 <= j < t.len() && i != j implies key_view(#[trigger] t[i].0)
                != key_view(#[trigger] t[j].0) by {
                assert(t[i] == s[i] && t[j] == s[j]);
            }
        }
        lemma_map_len(t);
        lemma_entries_map(t);
        assert(!entries_map(t).contains_key(key_view(s.last().0))) by {
            if entries_map(t).contains_key(key_view(s.last().0)) {
                let j = choose|j: int| 0 <= j < t.len() && key_view(t[j].0) == key_view(s.last().0);
                assert(t[j] == s[j]);
                assert(key_view(s[j].0) != key_view(s[s.len() - 1].0));
            }
        }
    }
}

} // verus!
