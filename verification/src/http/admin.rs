//! The admin API's rules: tenant plans and configuration updates, and the limits of
//! its listings.
use vstd::prelude::*;
use vstd::string::*;
use crate::admin_events::ErrorCategory;
use crate::http::{Refusal, refuse, refused};
use crate::http::validation::{validate_name, name_refusal};
use crate::json::{
    JsonValue, JsonData, JsonNumber, member_index, lemma_member_index_spec,
    lemma_member_index_push, lemma_member_index_update,
};
use crate::registry::presence::opt_text;
use crate::text::{copy_str, str_eq};

verus! {

broadcast use vstd::string::group_string_axioms;

/// The body of `POST /admin/tenants`.
pub struct CreateTenantRequest {
    pub name: String,
    pub plan: Option<String>,
}

/// The body of `PATCH /admin/tenants/{id}`.
pub struct UpdateTenantRequest {
    pub name: Option<String>,
    pub plan: Option<String>,
    pub config: Option<JsonValue>,
    pub event_ttl_days: Option<u32>,
}

/// The body of `POST /admin/tenants/{id}/tokens`.
pub struct CreateTokenRequest {
    pub scope: Option<String>,
}

/// The query of `GET /admin/events`.
pub struct EventsQuery {
    pub limit: Option<usize>,
    pub after_id: Option<u64>,
}

/// The query of `GET /admin/errors`.
pub struct ErrorsQuery {
    pub category: Option<String>,
    pub limit: Option<usize>,
}

/// The query of `GET /admin/stats`.
pub struct StatsQuery {
    pub from: Option<i64>,
    pub to: Option<i64>,
}

/// A listing limit: 100 unless asked, at most 500.
pub open spec fn admin_limit(limit: Option<usize>) -> usize {
    match limit {
        Some(l) => if l < 500 {
            l
        } else {
            500
        },
        None => 100,
    }
}

fn limit_of(limit: Option<usize>) -> (n: usize)
    ensures
        n == admin_limit(limit),
{
    match limit {
        Some(l) => if l < 500 {
            l
        } else {
            500
        },
        None => 100,
    }
}

impl EventsQuery {
    pub fn limit(&self) -> (n: usize)
        ensures
            n == admin_limit(self.limit),
    {
        limit_of(self.limit)
    }
}

impl ErrorsQuery {
    pub fn limit(&self) -> (n: usize)
        ensures
            n == admin_limit(self.limit),
    {
        limit_of(self.limit)
    }

    /// The category asked for: `client`, `webhook` or `http`; anything else is none.
    pub fn error_category(&self) -> (c: Option<ErrorCategory>)
        ensures
            c == match self.category {
                Some(s) => if s@ == "client"@ {
                    Some(ErrorCategory::Client)
                } else if s@ == "webhook"@ {
                    Some(ErrorCategory::Webhook)
                } else if s@ == "http"@ {
                    Some(ErrorCategory::Http)
                } else {
                    None
                },
                None => None,
            },
    {
        match &self.category {
            Some(s) => {
                if str_eq(s.as_str(), "client") {
                    Some(ErrorCategory::Client)
                } else if str_eq(s.as_str(), "webhook") {
                    Some(ErrorCategory::Webhook)
                } else if str_eq(s.as_str(), "http") {
                    Some(ErrorCategory::Http)
                } else {
                    None
                }
            },
            None => None,
        }
    }
}

/// The plan of a new tenant: the one asked for, else `free`.
pub fn tenant_plan(plan: &Option<String>) -> (p: String)
    ensures
        p@ == match plan {
            Some(p) => p@,
            None => "free"@,
        },
{
    match plan {
        Some(p) => copy_str(p.as_str()),
        None => String::from_str("free"),
    }
}

/// The checks of a tenant creation: its name, then whether the store took it.
pub fn check_create_tenant(req: &CreateTenantRequest) -> (r: Result<(), Refusal>)
    ensures
        refused(r) == name_refusal(req.name@, "tenant name"@),
{
    validate_name(req.name.as_str(), "tenant name")
}

/// The answer when the store refuses a new tenant.
pub fn tenant_conflict() -> (r: Refusal)
    ensures
        r@ == (409u16, "failed to create tenant"@),
{
    refuse(409, "failed to create tenant")
}

/// The value of key `k` among `pairs` (the first member with that key).
pub open spec fn member_value(pairs: Seq<(String, JsonValue)>, k: Seq<char>) -> Option<JsonData> {
    match member_index(pairs, k) {
        Some(i) => Some(pairs[i].1@),
        None => None,
    }
}

/// The configuration key that holds a tenant's event retention.
pub open spec fn ttl_key() -> Seq<char> {
    "event_ttl_days"@
}

fn has_member(pairs: &Vec<(String, JsonValue)>, k: &str) -> (r: bool)
    ensures
        r == member_index(pairs@, k@) is Some,
{
    proof {
        lemma_member_index_spec(pairs@, k@);
    }
    let mut i: usize = 0;
    while i < pairs.len()
        invariant
            i <= pairs@.len(),
            forall|j: int| 0 <= j < i ==> pairs@[j].0@ != k@,
        decreases pairs@.len() - i,
    {
        if str_eq(pairs[i].0.as_str(), k) {
            proof {
                lemma_member_index_spec(pairs@, k@);
            }
            return true;
        }
        i += 1;
    }
    false
}

/// Sets `k` to `v` among `pairs`: in place when present, else appended.
fn set_member(pairs: &mut Vec<(String, JsonValue)>, k: &str, v: JsonValue)
    ensures
        member_value(final(pairs)@, k@) == Some(v@),
        forall|other: Seq<char>|
            other != k@ ==> #[trigger] member_value(final(pairs)@, other) == member_value(
                old(pairs)@,
                other,
            ),
{
    proof {
        lemma_member_index_spec(pairs@, k@);
    }
    let mut i: usize = 0;
    while i < pairs.len()
        invariant
            i <= pairs@.len(),
            pairs@ == old(pairs)@,
            forall|j: int| 0 <= j < i ==> pairs@[j].0@ != k@,
        decreases pairs@.len() - i,
    {
        if str_eq(pairs[i].0.as_str(), k) {
            let ghost before = pairs@;
            let key = copy_str(k);
            pairs.set(i, (key, v));
            proof {
                crate::json::lemma_member_index(before, k@, i as int);
                assert forall|other: Seq<char>| other != k@ implies #[trigger] member_value(
                    pairs@,
                    other,
                ) == member_value(before, other) by {
                    lemma_member_index_update(before, i as int, pairs@[i as int], other);
                    lemma_member_index_spec(before, other);
                    if member_index(before, other) is Some {
                        assert(member_index(before, other)->0 != i) by {
                            assert(before[i as int].0@ == k@);
                        }
                    }
                }
                lemma_member_index_update(before, i as int, pairs@[i as int], k@);
            }
            return;
        }
        i += 1;
    }
    let ghost before = pairs@;
    let key = copy_str(k);
    pairs.push((key, v));
    proof {
        assert(pairs@ == before.push(pairs@[before.len() as int]));
        lemma_member_index_push(before, pairs@[before.len() as int], k@);
        assert forall|other: Seq<char>| other != k@ implies #[trigger] member_value(pairs@, other)
            == member_value(before, other) by {
            lemma_member_index_push(before, pairs@[before.len() as int], other);
            lemma_member_index_spec(before, other);
        }
    }
}

/// The configuration stored by a tenant update. Without a retention it is the one
/// asked for. With a retention, an object configuration (an empty one when none is
/// asked for) gains the members of the stored configuration that it lacks, and
/// `event_ttl_days` is set; any other configuration is kept as asked.
pub open spec fn merged_config_ok(
    requested: Option<JsonValue>,
    existing: Option<JsonValue>,
    ttl: Option<u32>,
    r: Option<JsonValue>,
) -> bool {
    match ttl {
        None => r == requested,
        Some(t) => {
            let asked: Option<Seq<(String, JsonValue)>> = match requested {
                Some(JsonValue::Object(pairs)) => Some(pairs@),
                None => Some(Seq::empty()),
                _ => None,
            };
            match asked {
                Some(asked) => r matches Some(JsonValue::Object(out)) && member_value(
                    out@,
                    ttl_key(),
                ) == Some(JsonData::Number(JsonNumber::PosInt(t as u64))) && forall|k: Seq<char>|
                    k != ttl_key() ==> #[trigger] member_value(out@, k) == match member_value(
                        asked,
                        k,
                    ) {
                        Some(v) => Some(v),
                        None => match existing {
                            Some(JsonValue::Object(stored)) => member_value(stored@, k),
                            _ => None,
                        },
                    },
                None => r == requested,
            }
        },
    }
}

/// The configuration to store for `PATCH /admin/tenants/{id}`: `requested` is the
/// configuration asked for, `existing` the stored one, `ttl` the retention asked for.
pub fn merge_tenant_config(requested: Option<JsonValue>, existing: &Option<JsonValue>, ttl: Option<u32>) -> (r:
    Option<JsonValue>)
    ensures
        merged_config_ok(requested, *existing, ttl, r),
{
    let t = match ttl {
        Some(t) => t,
        None => {
            return requested;
        },
    };
    let cfg = match requested {
        Some(c) => c,
        None => JsonValue::Object(Vec::new()),
    };
    let ghost cfg0 = cfg;
    match cfg {
        JsonValue::Object(asked) => {
            let ghost asked0 = asked@;
            let mut pairs = asked;
            match existing {
                Some(JsonValue::Object(stored)) => {
                    let mut i: usize = 0;
                    proof {
                        assert forall|k: Seq<char>| #[trigger] member_value(pairs@, k) == match member_value(asked0, k) {
                            Some(v) => Some(v),
                            None => if member_index(stored@, k) matches Some(x) && x < i {
                                member_value(stored@, k)
                            } else {
                                None
                            },
                        } by {
                            assert(pairs@ == asked0);
                            lemma_member_index_spec(stored@, k);
                        }
                    }
                    while i < stored.len()
                        invariant
                            i <= stored@.len(),
                            forall|k: Seq<char>|
                                #[trigger] member_value(pairs@, k) == match member_value(asked0, k) {
                                    Some(v) => Some(v),
                                    None => if member_index(stored@, k) matches Some(x) && x < i {
                                        member_value(stored@, k)
                                    } else {
                                        None
                                    },
                                },
                        decreases stored@.len() - i,
                    {
                        let k = stored[i].0.as_str();
                        proof {
                            lemma_member_index_spec(stored@, k@);
                        }
                        if !has_member(&pairs, k) {
                            let ghost before = pairs@;
                            let v = stored[i].1.duplicate();
                            pairs.push((copy_str(k), v));
                            proof {
                                assert(pairs@ =~= before.push(pairs@[before.len() as int]));
                                assert forall|key: Seq<char>| #[trigger] member_value(pairs@, key) == match member_value(asked0, key) {
                                    Some(v) => Some(v),
                                    None => if member_index(stored@, key) matches Some(x) && x < i + 1 {
                                        member_value(stored@, key)
                                    } else {
                                        None
                                    },
                                } by {
                                    lemma_member_index_push(before, pairs@[before.len() as int], key);
                                    lemma_member_index_spec(stored@, key);
                                    lemma_member_index_spec(before, key);
                                    let mv = member_value(before, key);
                                    if key == k@ {
                                        assert(member_index(stored@, key) is Some);
                                        let x = member_index(stored@, key)->0;
                                        assert(x <= i);
                                        assert(member_index(before, key) is None);
                                        assert(member_value(before, key) is None);
                                        assert(member_value(asked0, key) is None);
                                        assert(x == i);
                                        assert(member_index(pairs@, key) == Some(before.len() as int));
                                        assert(pairs@[before.len() as int].1@ == stored@[i as int].1@);
                                        assert(member_value(pairs@, key) == member_value(stored@, key));
                                    } else {
                                        assert(member_index(pairs@, key) == member_index(before, key));
                                        assert(member_value(pairs@, key) == member_value(before, key));
                                    }
                                }
                            }
                        } else {
                            proof {
                                assert forall|key: Seq<char>| #[trigger] member_value(pairs@, key) == match member_value(asked0, key) {
                                    Some(v) => Some(v),
                                    None => if member_index(stored@, key) matches Some(x) && x < i + 1 {
                                        member_value(stored@, key)
                                    } else {
                                        None
                                    },
                                } by {
                                    lemma_member_index_spec(stored@, key);
                                    lemma_member_index_spec(pairs@, key);
                                    if key == k@ {
                                        let x = member_index(stored@, key)->0;
                                        assert(member_value(pairs@, key) is Some);
                                    }
                                }
                            }
                        }
                        i += 1;
                    }
                    proof {
                        assert forall|k: Seq<char>| #[trigger] member_value(pairs@, k) == match member_value(asked0, k) {
                            Some(v) => Some(v),
                            None => member_value(stored@, k),
                        } by {
                            lemma_member_index_spec(stored@, k);
                        }
                    }
                },
                _ => {},
            }
            let ghost merged = pairs@;
            set_member(&mut pairs, "event_ttl_days", JsonValue::Number(JsonNumber::PosInt(t as u64)));
            proof {
                reveal_strlit("event_ttl_days");
            }
            Some(JsonValue::Object(pairs))
        },
        other => Some(other),
    }
}

/// A tenant's retention as its configuration states it: `event_ttl_days` when it is a
/// non-negative integer, kept to its low 32 bits.
pub fn ttl_of_config(config: &JsonValue) -> (r: Option<u32>)
    ensures
        r == match crate::json::json_get(*config, "event_ttl_days"@) {
            Some(v) => match crate::json::json_as_u64(v) {
                Some(n) => Some(n as u32),
                None => None,
            },
            None => None,
        },
{
    match config.get("event_ttl_days") {
        Some(v) => match v.as_u64() {
            Some(n) => Some(n as u32),
            None => None,
        },
        None => None,
    }
}

/// A page of a listing: `offset` items skipped, then at most `limit`.
pub fn page_window<T>(items: Vec<T>, limit: usize, offset: usize) -> (r: Vec<T>)
    ensures
        r@ == (if offset >= items@.len() {
            Seq::<T>::empty()
        } else {
            let rest = items@.skip(offset as int);
            rest.take(if limit < rest.len() {
                limit as int
            } else {
                rest.len() as int
            })
        }),
{
    let ghost all = items@;
    let mut items = items;
    if offset >= items.len() {
        return Vec::new();
    }
    let mut rest = items.split_off(offset);
    assert(rest@ =~= all.skip(offset as int));
    if limit < rest.len() {
        let _ = rest.split_off(limit);
    } else {
        assert(rest@.take(rest@.len() as int) =~= rest@);
    }
    rest
}

} // verus!
