//! Fresh identifiers: random version-4 UUIDs, as the server uses them for event ids,
//! tenant ids, API tokens, request ids and metering idempotency keys.
use vstd::prelude::*;
use crate::http::without_char;
use crate::text::{utf8_len, utf8_width};

verus! {

/// `c` is a lower-case hexadecimal digit.
pub open spec fn is_hex_lower(c: char) -> bool {
    ('0' <= c && c <= '9') || ('a' <= c && c <= 'f')
}

/// `s` is the hyphenated lower-case text of a version-4 UUID:
/// `xxxxxxxx-xxxx-4xxx-Yxxx-xxxxxxxxxxxx` with `Y` one of `8`, `9`, `a`, `b`.
pub open spec fn uuid_v4_text(s: Seq<char>) -> bool {
    &&& s.len() == 36
    &&& forall|i: int|
        0 <= i < 36 ==> #[trigger] is_dash_at(i) == (s[i] == '-') && (!is_dash_at(i) ==> is_hex_lower(s[i]))
    &&& s[14] == '4'
    &&& (s[19] == '8' || s[19] == '9' || s[19] == 'a' || s[19] == 'b')
}

/// The hyphens of a UUID's text are at 8, 13, 18 and 23.
pub open spec fn is_dash_at(i: int) -> bool {
    i == 8 || i == 13 || i == 18 || i == 23
}

/// The text of the UUID that `uuid` builds from 16 random bytes
/// (`Builder::from_random_bytes(bytes).into_uuid().to_string()`).
pub uninterp spec fn uuid_v4_text_of(bytes: Seq<u8>) -> Seq<char>;

/// Fills `buf` from the operating system's random source with
/// `getrandom::getrandom`; `false` when the source failed. Nothing is promised of the
/// bytes.
#[verifier::external_body]
pub(crate) fn fill_random(buf: &mut [u8; 32]) -> (ok: bool) {
    getrandom::getrandom(buf).is_ok()
}

/// Calls `uuid`: `Builder::from_random_bytes(bytes).into_uuid().to_string()`, the UUID
/// made of `bytes` with its version (4) and variant (RFC 4122) bits set, written
/// hyphenated in lower case. Its result is named: `uuid_v4_text_of`.
#[verifier::external_body]
fn uuid_from_random_bytes(bytes: [u8; 16]) -> (s: String)
    ensures
        s@ == uuid_v4_text_of(bytes@),
        uuid_v4_text(s@),
{
    uuid::Builder::from_random_bytes(bytes).into_uuid().to_string()
}

/// The identifier made of drawn random bytes: the version-4 UUID of their first 16.
pub fn id_from_random(random: &[u8; 32]) -> (s: String)
    ensures
        s@ == uuid_v4_text_of(random@.take(16)),
        uuid_v4_text(s@),
{
    let mut bytes = [0u8; 16];
    let mut i: usize = 0;
    while i < 16
        invariant
            i <= 16,
            random@.len() == 32,
            bytes@.len() == 16,
            forall|j: int| 0 <= j < i ==> bytes@[j] == random@[j],
        decreases 16 - i,
    {
        bytes[i] = random[i];
        i += 1;
    }
    assert(bytes@ =~= random@.take(16));
    uuid_from_random_bytes(bytes)
}

/// A fresh identifier (event ids, tenant ids, API tokens): a random version-4 UUID;
/// `None` when the random source failed.
pub fn fresh_id() -> (r: Option<String>)
    ensures
        r matches Some(s) ==> uuid_v4_text(s@),
{
    let mut random = [0u8; 32];
    if !fill_random(&mut random) {
        return None;
    }
    Some(id_from_random(&random))
}

/// The characters of `s` other than `-`.
spec fn non_dash_count(s: Seq<char>) -> nat
    decreases s.len(),
{
    if s.len() == 0 {
        0
    } else {
        non_dash_count(s.drop_last()) + if s.last() == '-' {
            0nat
        } else {
            1nat
        }
    }
}

/// The hyphens of a UUID's text before position `n`.
spec fn dashes_before(n: int) -> int {
    (if n > 8 {
        1int
    } else {
        0int
    }) + (if n > 13 {
        1int
    } else {
        0int
    }) + (if n > 18 {
        1int
    } else {
        0int
    }) + (if n > 23 {
        1int
    } else {
        0int
    })
}

proof fn lemma_dash_free(s: Seq<char>)
    requires
        forall|i: int| 0 <= i < s.len() ==> s[i] == '-' || is_hex_lower(#[trigger] s[i]),
    ensures
        without_char(s, '-').len() == non_dash_count(s),
        forall|j: int|
            0 <= j < without_char(s, '-').len() ==> is_hex_lower(#[trigger] without_char(s, '-')[j]),
    decreases s.len(),
{
    if s.len() > 0 {
        let t = s.drop_last();
        assert forall|i: int| 0 <= i < t.len() implies t[i] == '-' || is_hex_lower(#[trigger] t[i]) by {
            assert(t[i] == s[i]);
        }
        lemma_dash_free(t);
        assert(s.last() == s[s.len() - 1]);
    }
}

proof fn lemma_uuid_count(s: Seq<char>, n: int)
    requires
        uuid_v4_text(s),
        0 <= n <= 36,
    ensures
        non_dash_count(s.take(n)) == n - dashes_before(n),
    decreases n,
{
    if n > 0 {
        lemma_uuid_count(s, n - 1);
        assert(s.take(n).drop_last() =~= s.take(n - 1));
        assert(s.take(n).last() == s[n - 1]);
        assert(is_dash_at(n - 1) == (s[n - 1] == '-'));
    }
}

proof fn lemma_ascii_prefix_len(t: Seq<char>, k: int)
    requires
        0 <= k <= t.len(),
        forall|j: int| 0 <= j < t.len() ==> is_hex_lower(#[trigger] t[j]),
    ensures
        utf8_len(t.take(k)) == k,
    decreases k,
{
    if k > 0 {
        lemma_ascii_prefix_len(t, k - 1);
        assert(t.take(k).drop_last() =~= t.take(k - 1));
        assert(t.take(k).last() == t[k - 1]);
        assert(is_hex_lower(t[k - 1]));
        assert(utf8_width(t[k - 1]) == 1);
    }
}

/// The text of a UUID without its hyphens is 32 ASCII digits: each of its prefixes takes
/// as many bytes as it has characters.
pub proof fn lemma_uuid_dash_free(s: Seq<char>)
    requires
        uuid_v4_text(s),
    ensures
        without_char(s, '-').len() == 32,
        forall|k: int| 0 <= k <= 32 ==> #[trigger] utf8_len(without_char(s, '-').take(k)) == k,
{
    assert forall|i: int| 0 <= i < s.len() implies s[i] == '-' || is_hex_lower(#[trigger] s[i]) by {
        assert(is_dash_at(i) == (s[i] == '-'));
    }
    lemma_dash_free(s);
    lemma_uuid_count(s, 36);
    assert(s.take(36) =~= s);
    assert forall|k: int| 0 <= k <= 32 implies #[trigger] utf8_len(without_char(s, '-').take(k)) == k by {
        lemma_ascii_prefix_len(without_char(s, '-'), k);
    }
}

} // verus!
