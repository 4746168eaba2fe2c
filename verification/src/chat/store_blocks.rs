//! The layout of user blocks in the store: one key `{tenant}/{blocker}/{blocked}` per
//! block, listed by the prefix `{tenant}/{blocker}/`.
use vstd::prelude::*;
use vstd::string::*;
use crate::text::{chars_of, last_index, rfind_char, range_to_string, lemma_last_index_some, lemma_last_index_none};

verus! {

broadcast use vstd::string::group_string_axioms;

/// The key that records that `blocker` blocked `blocked`.
pub fn block_key(tenant_id: &str, blocker: &str, blocked: &str) -> (k: String)
    ensures
        k@ == tenant_id@ + "/"@ + blocker@ + "/"@ + blocked@,
{
    let mut k = String::from_str(tenant_id);
    k.append("/");
    k.append(blocker);
    k.append("/");
    k.append(blocked);
    k
}

/// The prefix of the keys of the users that `blocker` blocked.
pub fn user_blocks_prefix(tenant_id: &str, blocker: &str) -> (k: String)
    ensures
        k@ == tenant_id@ + "/"@ + blocker@ + "/"@,
{
    let mut k = String::from_str(tenant_id);
    k.append("/");
    k.append(blocker);
    k.append("/");
    k
}

/// The last `/`-separated piece of a key (the whole key when it has no `/`).
pub open spec fn last_piece(key: Seq<char>) -> Seq<char> {
    match last_index(key, '/') {
        Some(i) => key.skip(i + 1),
        None => key,
    }
}

/// The blocked user named by a block key: its last piece.
pub fn blocked_user_of_key(key: &str) -> (u: String)
    ensures
        u@ == last_piece(key@),
{
    let v = chars_of(key);
    match rfind_char(&v, 0, v.len(), '/') {
        Some(i) => {
            proof {
                lemma_last_index_some(key@, '/', i as int);
            }
            let u = range_to_string(&v, i + 1, v.len());
            assert(v@.subrange(i + 1, v@.len() as int) =~= key@.skip(i + 1));
            u
        },
        None => {
            proof {
                lemma_last_index_none(key@, '/');
            }
            let u = range_to_string(&v, 0, v.len());
            assert(v@.subrange(0, v@.len() as int) =~= key@);
            u
        },
    }
}

/// The blocked users named by a page of block keys, in order.
pub fn blocked_users(keys: &Vec<String>) -> (r: Vec<String>)
    ensures
        r@.len() == keys@.len(),
        forall|i: int| 0 <= i < keys@.len() ==> #[trigger] r@[i]@ == last_piece(keys@[i]@),
{
    let mut out: Vec<String> = Vec::new();
    let mut i: usize = 0;
    while i < keys.len()
        invariant
            i <= keys@.len(),
            out@.len() == i,
            forall|j: int| 0 <= j < i ==> #[trigger] out@[j]@ == last_piece(keys@[j]@),
        decreases keys@.len() - i,
    {
        out.push(blocked_user_of_key(keys[i].as_str()));
        i += 1;
    }
    out
}

} // verus!
