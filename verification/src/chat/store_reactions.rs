//! The layout of reactions in the store: one key
//! `{tenant}/{stream}/{event}/{emoji}/{user}` per reaction, listed by the prefix
//! `{tenant}/{stream}/{event}/`, and the summary of an event's reactions by emoji.
use vstd::prelude::*;
use vstd::string::*;
use crate::text::{chars_of, index_of, find_char, range_to_string, copy_str, str_eq};

verus! {

broadcast use vstd::string::group_string_axioms;

/// The key that records `user_id`'s `emoji` reaction to an event.
pub fn reaction_key(tenant_id: &str, stream_id: &str, msg_id: &str, emoji: &str, user_id: &str) -> (k:
    String)
    ensures
        k@ == tenant_id@ + "/"@ + stream_id@ + "/"@ + msg_id@ + "/"@ + emoji@ + "/"@ + user_id@,
{
    let mut k = String::from_str(tenant_id);
    k.append("/");
    k.append(stream_id);
    k.append("/");
    k.append(msg_id);
    k.append("/");
    k.append(emoji);
    k.append("/");
    k.append(user_id);
    k
}

/// The prefix of the keys of an event's reactions.
pub fn msg_reaction_prefix(tenant_id: &str, stream_id: &str, msg_id: &str) -> (k: String)
    ensures
        k@ == tenant_id@ + "/"@ + stream_id@ + "/"@ + msg_id@ + "/"@,
{
    let mut k = String::from_str(tenant_id);
    k.append("/");
    k.append(stream_id);
    k.append("/");
    k.append(msg_id);
    k.append("/");
    k
}

/// What follows the first `n` `/` of `s` (`None` with fewer than `n`).
pub open spec fn after_slashes(s: Seq<char>, n: nat) -> Option<Seq<char>>
    decreases n,
{
    if n == 0 {
        Some(s)
    } else {
        match index_of(s, '/') {
            Some(i) => after_slashes(s.skip(i + 1), (n - 1) as nat),
            None => None,
        }
    }
}

/// The text of `s` before its first `/`.
pub open spec fn first_piece(s: Seq<char>) -> Seq<char> {
    match index_of(s, '/') {
        Some(i) => s.take(i),
        None => s,
    }
}

/// The `(emoji, user)` of a reaction key split in at most five pieces on `/`
/// (`splitn(5, '/')`): the fourth and fifth pieces; `None` with fewer than five.
pub open spec fn reaction_of_key(key: Seq<char>) -> Option<(Seq<char>, Seq<char>)> {
    match after_slashes(key, 4) {
        Some(user) => Some((first_piece(after_slashes(key, 3)->0), user)),
        None => None,
    }
}

proof fn lemma_after_slashes_step(s: Seq<char>, n: nat, i: int)
    requires
        after_slashes(s, n) matches Some(t) && index_of(t, '/') == Some(i),
    ensures
        after_slashes(s, n + 1) == Some(after_slashes(s, n)->0.skip(i + 1)),
    decreases n,
{
    if n > 0 {
        assert(index_of(s, '/') is Some);
        let j = index_of(s, '/')->0;
        assert(after_slashes(s, n + 1) == after_slashes(s.skip(j + 1), n));
        assert(after_slashes(s, n) == after_slashes(s.skip(j + 1), (n - 1) as nat));
        lemma_after_slashes_step(s.skip(j + 1), (n - 1) as nat, i);
    } else {
        assert(after_slashes(s, 0) == Some(s));
        assert(after_slashes(s.skip(i + 1), 0) == Some(s.skip(i + 1)));
    }
}

proof fn lemma_found_slash(v: Seq<char>, start: int, i: int)
    requires
        0 <= start <= i < v.len(),
        v[i] == '/',
        forall|j: int| start <= j < i ==> v[j] != '/',
    ensures
        index_of(v.skip(start), '/') == Some(i - start),
        v.skip(start).skip(i - start + 1) == v.skip(i + 1),
{
    let t = v.skip(start);
    assert forall|j: int| 0 <= j < i - start implies t[j] != '/' by {
        assert(t[j] == v[start + j]);
    }
    assert(t[i - start] == '/');
    assert(t.skip(i - start + 1) =~= v.skip(i + 1));
}

proof fn lemma_no_slash(v: Seq<char>, start: int)
    requires
        0 <= start <= v.len(),
        forall|j: int| start <= j < v.len() ==> v[j] != '/',
    ensures
        index_of(v.skip(start), '/') is None,
{
    let t = v.skip(start);
    assert forall|j: int| 0 <= j < t.len() implies t[j] != '/' by {
        assert(t[j] == v[start + j]);
    }
}

proof fn lemma_after_slashes_none(s: Seq<char>, n: nat)
    requires
        after_slashes(s, n) matches Some(t) && index_of(t, '/') is None,
    ensures
        after_slashes(s, n + 1) is None,
    decreases n,
{
    if n > 0 {
        let j = index_of(s, '/')->0;
        lemma_after_slashes_none(s.skip(j + 1), (n - 1) as nat);
    }
}

proof fn lemma_none_stays(s: Seq<char>, m: nat, k: nat)
    requires
        after_slashes(s, m) is None,
        m <= k,
    ensures
        after_slashes(s, k) is None,
    decreases m,
{
    if m > 0 && index_of(s, '/') is Some {
        let j = index_of(s, '/')->0;
        lemma_none_stays(s.skip(j + 1), (m - 1) as nat, (k - 1) as nat);
    }
}

/// The `(emoji, user)` of a reaction key.
#[verifier::rlimit(40)]
pub fn parse_reaction_key(key: &str) -> (r: Option<(String, String)>)
    ensures
        match reaction_of_key(key@) {
            Some((e, u)) => r matches Some(p) && p.0@ == e && p.1@ == u,
            None => r is None,
        },
{
    let v = chars_of(key);
    let mut start: usize = 0;
    let mut n: usize = 0;
    let mut third: usize = 0;
    let mut emoji_end: usize = 0;
    assert(v@.skip(0) =~= v@);
    while n < 4
        invariant
            v@ == key@,
            start <= v@.len(),
            n <= 4,
            after_slashes(key@, n as nat) == Some(v@.skip(start as int)),
            n >= 3 ==> third <= v@.len() && after_slashes(key@, 3) == Some(v@.skip(third as int)),
            n == 4 ==> third <= emoji_end < v@.len() && index_of(v@.skip(third as int), '/') == Some(
                emoji_end - third,
            ),
        decreases 4 - n,
    {
        match find_char(&v, start, v.len(), '/') {
            Some(i) => {
                proof {
                    lemma_found_slash(v@, start as int, i as int);
                    lemma_after_slashes_step(key@, n as nat, i - start);
                }
                if n == 3 {
                    third = start;
                    emoji_end = i;
                }
                start = i + 1;
                n += 1;
                if n == 3 {
                    third = start;
                }
            },
            None => {
                proof {
                    lemma_no_slash(v@, start as int);
                    lemma_after_slashes_none(key@, n as nat);
                    lemma_none_stays(key@, (n + 1) as nat, 4);
                }
                return None;
            },
        }
    }
    let emoji = range_to_string(&v, third, emoji_end);
    let user = range_to_string(&v, start, v.len());
    proof {
        assert(v@.subrange(start as int, v@.len() as int) =~= v@.skip(start as int));
        assert(v@.subrange(third as int, emoji_end as int) =~= v@.skip(third as int).take(
            emoji_end - third,
        ));
        assert(first_piece(v@.skip(third as int)) == v@.skip(third as int).take(emoji_end - third));
        assert(reaction_of_key(key@) == Some((first_piece(v@.skip(third as int)), v@.skip(start as int))));
    }
    Some((emoji, user))
}

/// An event's reactions with one emoji: the users, in the order listed, and their
/// number.
pub struct ReactionSummary {
    pub emoji: String,
    pub count: usize,
    pub users: Vec<String>,
}

/// The text of each string.
pub open spec fn texts(v: Seq<String>) -> Seq<Seq<char>> {
    v.map_values(|s: String| s@)
}

/// The `(emoji, user)` pairs of the reaction keys among `keys`, in order.
pub open spec fn reactions_of_keys(keys: Seq<Seq<char>>) -> Seq<(Seq<char>, Seq<char>)>
    decreases keys.len(),
{
    if keys.len() == 0 {
        Seq::empty()
    } else {
        let r = reactions_of_keys(keys.drop_last());
        match reaction_of_key(keys.last()) {
            Some(p) => r.push(p),
            None => r,
        }
    }
}

/// The emojis of `pairs`, each once, in the order of first appearance.
pub open spec fn emoji_order(pairs: Seq<(Seq<char>, Seq<char>)>) -> Seq<Seq<char>>
    decreases pairs.len(),
{
    if pairs.len() == 0 {
        Seq::empty()
    } else {
        let o = emoji_order(pairs.drop_last());
        if o.contains(pairs.last().0) {
            o
        } else {
            o.push(pairs.last().0)
        }
    }
}

/// The users of `pairs` that reacted with `emoji`, in order.
pub open spec fn users_for(pairs: Seq<(Seq<char>, Seq<char>)>, emoji: Seq<char>) -> Seq<Seq<char>>
    decreases pairs.len(),
{
    if pairs.len() == 0 {
        Seq::empty()
    } else {
        let u = users_for(pairs.drop_last(), emoji);
        if pairs.last().0 == emoji {
            u.push(pairs.last().1)
        } else {
            u
        }
    }
}

/// An emoji that does not occur has no users, and each emoji occurs once in the order.
pub proof fn lemma_emoji_order(pairs: Seq<(Seq<char>, Seq<char>)>, e: Seq<char>)
    ensures
        !emoji_order(pairs).contains(e) ==> users_for(pairs, e) == Seq::<Seq<char>>::empty(),
        emoji_order(pairs).no_duplicates(),
    decreases pairs.len(),
{
    if pairs.len() > 0 {
        lemma_emoji_order(pairs.drop_last(), e);
        let o = emoji_order(pairs.drop_last());
        if !emoji_order(pairs).contains(e) {
            assert(!o.contains(e)) by {
                if o.contains(e) {
                    let k = choose|k: int| 0 <= k < o.len() && o[k] == e;
                    if o.contains(pairs.last().0) {
                        assert(emoji_order(pairs)[k] == e);
                    } else {
                        assert(o.push(pairs.last().0)[k] == e);
                    }
                }
            }
            if pairs.last().0 == e {
                assert(o.push(e)[o.len() as int] == e);
                assert(!o.contains(e));
            }
        }
        if !o.contains(pairs.last().0) {
            let n = o.push(pairs.last().0);
            assert forall|a: int, b: int| 0 <= a < n.len() && 0 <= b < n.len() && a != b implies n[a]
                != n[b] by {
                if a < o.len() && b < o.len() {
                } else if a < o.len() {
                    assert(o.contains(o[a]));
                } else {
                    assert(o.contains(o[b]));
                }
            }
        }
    }
}

/// Groups the reactions listed under an event's prefix by emoji: one summary per emoji,
/// in the order the emojis first appear, with the users in listed order. Keys that are
/// not reaction keys are skipped.
pub fn group_reactions(keys: &Vec<String>) -> (r: Vec<ReactionSummary>)
    ensures
        ({
            let pairs = reactions_of_keys(texts(keys@));
            let order = emoji_order(pairs);
            &&& r@.len() == order.len()
            &&& forall|i: int|
                #![trigger r@[i]]
                0 <= i < r@.len() ==> r@[i].emoji@ == order[i] && texts(r@[i].users@) == users_for(
                    pairs,
                    order[i],
                ) && r@[i].count == r@[i].users@.len()
        }),
{
    let ghost all = texts(keys@);
    let mut emojis: Vec<String> = Vec::new();
    let mut users: Vec<Vec<String>> = Vec::new();
    let mut i: usize = 0;
    while i < keys.len()
        invariant
            i <= keys@.len(),
            all == texts(keys@),
            emojis@.len() == users@.len(),
            texts(emojis@) == emoji_order(reactions_of_keys(all.take(i as int))),
            forall|j: int|
                #![trigger users@[j]]
                0 <= j < users@.len() ==> texts(users@[j]@) == users_for(
                    reactions_of_keys(all.take(i as int)),
                    texts(emojis@)[j],
                ),
        decreases keys@.len() - i,
    {
        let ghost pre = reactions_of_keys(all.take(i as int));
        proof {
            assert(all.take(i + 1).drop_last() =~= all.take(i as int));
            assert(all.take(i + 1).last() == keys@[i as int]@);
        }
        match parse_reaction_key(keys[i].as_str()) {
            Some((e, u)) => {
                let ghost post = pre.push((e@, u@));
                assert(reactions_of_keys(all.take(i + 1)) == post);
                assert(post.drop_last() =~= pre);
                let mut j: usize = 0;
                while j < emojis.len() && !str_eq(emojis[j].as_str(), e.as_str())
                    invariant
                        j <= emojis@.len(),
                        forall|k: int| 0 <= k < j ==> emojis@[k]@ != e@,
                    decreases emojis@.len() - j,
                {
                    j += 1;
                }
                proof {
                    lemma_emoji_order(pre, e@);
                }
                if j < emojis.len() {
                    let ghost old_users = users@;
                    assert(texts(emojis@).contains(e@)) by {
                        assert(texts(emojis@)[j as int] == emojis@[j as int]@);
                        assert(texts(emojis@)[j as int] == e@);
                    }
                    let mut uv = users.remove(j);
                    uv.push(u);
                    users.insert(j, uv);
                    proof {
                        assert(emoji_order(post) == emoji_order(pre));
                        assert forall|k: int| #![trigger users@[k]] 0 <= k < users@.len() implies texts(
                            users@[k]@,
                        ) == users_for(post, texts(emojis@)[k]) by {
                            if k == j {
                                assert(texts(users@[k]@) =~= texts(old_users[k]@).push(u@));
                            } else {
                                assert(users@[k] == old_users[k]);
                                assert(texts(emojis@)[k] != e@) by {
                                    assert(texts(emojis@).no_duplicates());
                                }
                            }
                        }
                    }
                } else {
                    let ghost old_users = users@;
                    let ghost old_emojis = emojis@;
                    assert(!texts(emojis@).contains(e@)) by {
                        if texts(emojis@).contains(e@) {
                            let k = choose|k: int| 0 <= k < emojis@.len() && texts(emojis@)[k] == e@;
                            assert(emojis@[k]@ == e@);
                        }
                    }
                    let mut uv: Vec<String> = Vec::new();
                    uv.push(u);
                    emojis.push(e);
                    users.push(uv);
                    proof {
                        assert(texts(emojis@) =~= texts(old_emojis).push(e@));
                        assert(emoji_order(post) == emoji_order(pre).push(e@));
                        assert forall|k: int| #![trigger users@[k]] 0 <= k < users@.len() implies texts(
                            users@[k]@,
                        ) == users_for(post, texts(emojis@)[k]) by {
                            if k == old_users.len() {
                                assert(users_for(pre, e@) == Seq::<Seq<char>>::empty());
                                assert(texts(users@[k]@) =~= seq![u@]);
                                assert(users_for(post, e@) =~= seq![u@]);
                            } else {
                                assert(users@[k] == old_users[k]);
                                assert(texts(emojis@)[k] == texts(old_emojis)[k]);
                                assert(texts(old_emojis)[k] != e@) by {
                                    assert(texts(old_emojis).contains(texts(old_emojis)[k]));
                                }
                            }
                        }
                    }
                }
            },
            None => {
                assert(reactions_of_keys(all.take(i + 1)) == pre);
            },
        }
        i += 1;
    }
    proof {
        assert(all.take(keys@.len() as int) =~= all);
    }
    let ghost pairs = reactions_of_keys(all);
    let mut out: Vec<ReactionSummary> = Vec::new();
    let mut k: usize = 0;
    let ghost em = texts(emojis@);
    let ghost us = users@;
    let total = emojis.len();
    while emojis.len() > 0
        invariant
            em.len() == total,
            emojis@.len() == users@.len(),
            k + emojis@.len() == em.len(),
            em.len() == us.len(),
            texts(emojis@) == em.skip(k as int),
            users@ == us.skip(k as int),
            em == emoji_order(pairs),
            forall|j: int| #![trigger us[j]] 0 <= j < us.len() ==> texts(us[j]@) == users_for(pairs, em[j]),
            out@.len() == k,
            forall|j: int|
                #![trigger out@[j]]
                0 <= j < k ==> out@[j].emoji@ == em[j] && texts(out@[j].users@) == users_for(
                    pairs,
                    em[j],
                ) && out@[j].count == out@[j].users@.len(),
        decreases emojis@.len(),
    {
        let ghost ev0 = emojis@;
        let ghost u0 = users@;
        let e = emojis.remove(0);
        let uv = users.remove(0);
        proof {
            assert(texts(ev0)[0] == e@);
            assert(em.skip(k as int)[0] == em[k as int]);
            assert(em[k as int] == e@);
            assert(u0[0] == us[k as int]);
            assert(emojis@ =~= ev0.skip(1));
            assert(texts(emojis@) =~= em.skip(k + 1)) by {
                assert forall|x: int| 0 <= x < texts(emojis@).len() implies texts(emojis@)[x]
                    == em.skip(k + 1)[x] by {
                    assert(texts(emojis@)[x] == emojis@[x]@);
                    assert(emojis@[x] == ev0[x + 1]);
                    assert(texts(ev0)[x + 1] == ev0[x + 1]@);
                    assert(em.skip(k as int)[x + 1] == em[k + 1 + x]);
                }
            }
            assert(users@ =~= us.skip(k + 1));
        }
        let count = uv.len();
        out.push(ReactionSummary { emoji: e, count, users: uv });
        k += 1;
    }
    out
}

} // verus!
