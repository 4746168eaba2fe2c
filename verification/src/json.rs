//! A JSON document as the library reads it. The wire format is parsed and printed
//! at the edge of the program; inside, values are held in this plain form.
use vstd::prelude::*;
use crate::text::str_eq;

verus! {

/// A JSON number. Non-negative integers are `PosInt`, negative integers `NegInt`,
/// and every other number is `Float`, kept as the bits of its IEEE-754 double so
/// that it passes through the library unchanged.
#[derive(Debug)]
pub enum JsonNumber {
    PosInt(u64),
    NegInt(i64),
    Float(u64),
}

/// A JSON value. Object members keep the order in which they were read; keys are
/// distinct in every object the program builds.
#[derive(Debug)]
pub enum JsonValue {
    Null,
    Bool(bool),
    Number(JsonNumber),
    Text(String),
    Array(Vec<JsonValue>),
    Object(Vec<(String, JsonValue)>),
}

/// The mathematical content of a [`JsonValue`]: strings as character sequences,
/// arrays and objects as sequences.
pub enum JsonData {
    Null,
    Bool(bool),
    Number(JsonNumber),
    Text(Seq<char>),
    Array(Seq<JsonData>),
    Object(Seq<(Seq<char>, JsonData)>),
}

/// The content of a value.
pub open spec fn json_view(v: JsonValue) -> JsonData
    decreases v,
{
    match v {
        JsonValue::Null => JsonData::Null,
        JsonValue::Bool(b) => JsonData::Bool(b),
        JsonValue::Number(n) => JsonData::Number(n),
        JsonValue::Text(s) => JsonData::Text(s@),
        JsonValue::Array(items) => JsonData::Array(json_view_items(items@)),
        JsonValue::Object(pairs) => JsonData::Object(json_view_members(pairs@)),
    }
}

/// The contents of the items of an array.
pub open spec fn json_view_items(items: Seq<JsonValue>) -> Seq<JsonData>
    decreases items,
{
    if items.len() == 0 {
        Seq::empty()
    } else {
        proof {
            assert(decreases_to!(items => items.drop_last()));
            assert(decreases_to!(items => items[items.len() - 1]));
        }
        json_view_items(items.drop_last()).push(json_view(items[items.len() - 1]))
    }
}

/// The contents of the members of an object.
pub open spec fn json_view_members(pairs: Seq<(String, JsonValue)>) -> Seq<(Seq<char>, JsonData)>
    decreases pairs,
{
    if pairs.len() == 0 {
        Seq::empty()
    } else {
        proof {
            assert(decreases_to!(pairs => pairs.drop_last()));
            assert(decreases_to!(pairs => pairs[pairs.len() - 1]));
            assert(decreases_to!(pairs[pairs.len() - 1] => pairs[pairs.len() - 1].1));
        }
        json_view_members(pairs.drop_last()).push(
            (pairs[pairs.len() - 1].0@, json_view(pairs[pairs.len() - 1].1)),
        )
    }
}

impl View for JsonValue {
    type V = JsonData;

    open spec fn view(&self) -> JsonData {
        json_view(*self)
    }
}

/// Index of the first member of `pairs` whose key is `key`.
pub open spec fn member_index(pairs: Seq<(String, JsonValue)>, key: Seq<char>) -> Option<int>
    decreases pairs.len(),
{
    if pairs.len() == 0 {
        None
    } else if pairs[0].0@ == key {
        Some(0)
    } else {
        match member_index(pairs.drop_first(), key) {
            Some(i) => Some(i + 1),
            None => None,
        }
    }
}

pub proof fn lemma_member_index(pairs: Seq<(String, JsonValue)>, key: Seq<char>, i: int)
    requires
        0 <= i <= pairs.len(),
        forall|j: int| 0 <= j < i ==> pairs[j].0@ != key,
        i < pairs.len() ==> pairs[i].0@ == key,
    ensures
        member_index(pairs, key) == (if i < pairs.len() {
            Some(i)
        } else {
            None::<int>
        }),
    decreases i,
{
    if i > 0 {
        lemma_member_index(pairs.drop_first(), key, i - 1);
    } else if pairs.len() == 0 {
    }
}

/// The index found by `member_index` holds the key, and no earlier member does; when
/// none is found, no member holds the key.
pub proof fn lemma_member_index_spec(pairs: Seq<(String, JsonValue)>, key: Seq<char>)
    ensures
        match member_index(pairs, key) {
            Some(i) => 0 <= i < pairs.len() && pairs[i].0@ == key && forall|j: int|
                0 <= j < i ==> pairs[j].0@ != key,
            None => forall|j: int| 0 <= j < pairs.len() ==> pairs[j].0@ != key,
        },
    decreases pairs.len(),
{
    if pairs.len() > 0 {
        lemma_member_index_spec(pairs.drop_first(), key);
        if pairs[0].0@ != key {
            match member_index(pairs.drop_first(), key) {
                Some(i) => {
                    assert forall|j: int| 0 <= j < i + 1 implies pairs[j].0@ != key by {
                        if j > 0 {
                            assert(pairs[j] == pairs.drop_first()[j - 1]);
                        }
                    }
                },
                None => {
                    assert forall|j: int| 0 <= j < pairs.len() implies pairs[j].0@ != key by {
                        if j > 0 {
                            assert(pairs[j] == pairs.drop_first()[j - 1]);
                        }
                    }
                },
            }
        }
    }
}

/// Appending a member changes the lookup of its key only if the key was absent.
pub proof fn lemma_member_index_push(pairs: Seq<(String, JsonValue)>, e: (String, JsonValue), key: Seq<char>)
    ensures
        member_index(pairs.push(e), key) == match member_index(pairs, key) {
            Some(i) => Some(i),
            None => if e.0@ == key {
                Some(pairs.len() as int)
            } else {
                None
            },
        },
{
    lemma_member_index_spec(pairs, key);
    let q = pairs.push(e);
    match member_index(pairs, key) {
        Some(i) => {
            lemma_member_index(q, key, i);
        },
        None => {
            if e.0@ == key {
                lemma_member_index(q, key, pairs.len() as int);
            } else {
                lemma_member_index(q, key, q.len() as int);
            }
        },
    }
}

/// Replacing a member's value keeps every lookup's index.
pub proof fn lemma_member_index_update(pairs: Seq<(String, JsonValue)>, i: int, e: (String, JsonValue), key: Seq<char>)
    requires
        0 <= i < pairs.len(),
        e.0@ == pairs[i].0@,
    ensures
        member_index(pairs.update(i, e), key) == member_index(pairs, key),
{
    lemma_member_index_spec(pairs, key);
    let q = pairs.update(i, e);
    match member_index(pairs, key) {
        Some(k) => {
            lemma_member_index(q, key, k);
        },
        None => {
            lemma_member_index(q, key, q.len() as int);
        },
    }
}

/// The member `key` of an object (`Value::get` with a string index).
pub open spec fn json_get(v: JsonValue, key: Seq<char>) -> Option<JsonValue> {
    match v {
        JsonValue::Object(pairs) => match member_index(pairs@, key) {
            Some(i) => Some(pairs@[i].1),
            None => None,
        },
        _ => None,
    }
}

/// `Value::as_str`.
pub open spec fn json_as_str(v: JsonValue) -> Option<Seq<char>> {
    match v {
        JsonValue::Text(s) => Some(s@),
        _ => None,
    }
}

/// `Value::as_u64`.
pub open spec fn json_as_u64(v: JsonValue) -> Option<u64> {
    match v {
        JsonValue::Number(JsonNumber::PosInt(n)) => Some(n),
        _ => None,
    }
}

/// `Value::as_i64`.
pub open spec fn json_as_i64(v: JsonValue) -> Option<i64> {
    match v {
        JsonValue::Number(JsonNumber::PosInt(n)) => if n <= i64::MAX {
            Some(n as i64)
        } else {
            None
        },
        JsonValue::Number(JsonNumber::NegInt(n)) => Some(n),
        _ => None,
    }
}

/// `Value::as_array`.
pub open spec fn json_as_array(v: JsonValue) -> Option<Seq<JsonValue>> {
    match v {
        JsonValue::Array(items) => Some(items@),
        _ => None,
    }
}

/// The string members of an array, in order, skipping the others.
pub open spec fn string_items(items: Seq<JsonValue>) -> Seq<Seq<char>>
    decreases items.len(),
{
    if items.len() == 0 {
        Seq::empty()
    } else {
        let rest = string_items(items.drop_last());
        match items.last() {
            JsonValue::Text(s) => rest.push(s@),
            _ => rest,
        }
    }
}

impl JsonNumber {
    /// An identical copy of the number.
    pub fn duplicate(&self) -> (r: JsonNumber)
        ensures
            r == *self,
    {
        match self {
            JsonNumber::PosInt(x) => JsonNumber::PosInt(*x),
            JsonNumber::NegInt(x) => JsonNumber::NegInt(*x),
            JsonNumber::Float(x) => JsonNumber::Float(*x),
        }
    }
}

impl JsonValue {
    /// `Value::get(key)`.
    pub fn get(&self, key: &str) -> (r: Option<&JsonValue>)
        ensures
            match json_get(*self, key@) {
                Some(v) => r == Some(&v),
                None => r is None,
            },
    {
        match self {
            JsonValue::Object(pairs) => {
                let mut i: usize = 0;
                while i < pairs.len()
                    invariant
                        0 <= i <= pairs@.len(),
                        *self == JsonValue::Object(*pairs),
                        forall|j: int| 0 <= j < i ==> pairs@[j].0@ != key@,
                    decreases pairs@.len() - i,
                {
                    if str_eq(pairs[i].0.as_str(), key) {
                        proof {
                            lemma_member_index(pairs@, key@, i as int);
                        }
                        return Some(&pairs[i].1);
                    }
                    i += 1;
                }
                proof {
                    lemma_member_index(pairs@, key@, i as int);
                }
                None
            },
            _ => None,
        }
    }

    /// `Value::as_str`.
    pub fn as_str(&self) -> (r: Option<&String>)
        ensures
            match *self {
                JsonValue::Text(s) => r == Some(&s),
                _ => r is None,
            },
    {
        match self {
            JsonValue::Text(s) => Some(s),
            _ => None,
        }
    }

    /// `Value::as_u64`.
    pub fn as_u64(&self) -> (r: Option<u64>)
        ensures
            r == json_as_u64(*self),
    {
        match self {
            JsonValue::Number(JsonNumber::PosInt(n)) => Some(*n),
            _ => None,
        }
    }

    /// `Value::as_i64`.
    pub fn as_i64(&self) -> (r: Option<i64>)
        ensures
            r == json_as_i64(*self),
    {
        match self {
            JsonValue::Number(JsonNumber::PosInt(n)) => if *n <= i64::MAX as u64 {
                Some(*n as i64)
            } else {
                None
            },
            JsonValue::Number(JsonNumber::NegInt(n)) => Some(*n),
            _ => None,
        }
    }

    /// `Value::as_array`.
    pub fn as_array(&self) -> (r: Option<&Vec<JsonValue>>)
        ensures
            match *self {
                JsonValue::Array(items) => r == Some(&items),
                _ => r is None,
            },
    {
        match self {
            JsonValue::Array(items) => Some(items),
            _ => None,
        }
    }

    /// A copy of the value with the same content.
    pub fn duplicate(&self) -> (r: JsonValue)
        ensures
            r@ == self@,
        decreases self,
    {
        match self {
            JsonValue::Null => JsonValue::Null,
            JsonValue::Bool(b) => JsonValue::Bool(*b),
            JsonValue::Number(n) => JsonValue::Number(n.duplicate()),
            JsonValue::Text(s) => JsonValue::Text(s.clone()),
            JsonValue::Array(items) => {
                let mut out: Vec<JsonValue> = Vec::new();
                let mut i: usize = 0;
                while i < items.len()
                    invariant
                        0 <= i <= items@.len(),
                        json_view_items(out@) == json_view_items(items@.take(i as int)),
                        *self == JsonValue::Array(*items),
                    decreases items@.len() - i,
                {
                    assert(decreases_to!(*self => self->Array_0));
                    assert(decreases_to!(self->Array_0 => self->Array_0@));
                    assert(decreases_to!(self->Array_0@ => self->Array_0@[i as int]));
                    let e = items[i].duplicate();
                    let ghost prev = out@;
                    out.push(e);
                    assert(out@.drop_last() =~= prev);
                    assert(items@.take(i + 1).drop_last() =~= items@.take(i as int));
                    i += 1;
                }
                assert(items@.take(i as int) =~= items@);
                JsonValue::Array(out)
            },
            JsonValue::Object(pairs) => {
                let mut out: Vec<(String, JsonValue)> = Vec::new();
                let mut i: usize = 0;
                while i < pairs.len()
                    invariant
                        0 <= i <= pairs@.len(),
                        json_view_members(out@) == json_view_members(pairs@.take(i as int)),
                        *self == JsonValue::Object(*pairs),
                    decreases pairs@.len() - i,
                {
                    assert(decreases_to!(*self => self->Object_0));
                    assert(decreases_to!(self->Object_0 => self->Object_0@));
                    assert(decreases_to!(self->Object_0@ => self->Object_0@[i as int]));
                    assert(decreases_to!(self->Object_0@[i as int] => self->Object_0@[i as int].1));
                    let k = pairs[i].0.clone();
                    let e = pairs[i].1.duplicate();
                    let ghost prev = out@;
                    out.push((k, e));
                    assert(out@.drop_last() =~= prev);
                    assert(pairs@.take(i + 1).drop_last() =~= pairs@.take(i as int));
                    i += 1;
                }
                assert(pairs@.take(i as int) =~= pairs@);
                JsonValue::Object(out)
            },
        }
    }
}

/// The content of an optional value.
pub open spec fn opt_view(v: Option<JsonValue>) -> Option<JsonData> {
    match v {
        Some(x) => Some(x@),
        None => None,
    }
}

/// An optional value, copied.
pub fn duplicate_opt(v: &Option<JsonValue>) -> (r: Option<JsonValue>)
    ensures
        opt_view(r) == opt_view(*v),
{
    match v {
        Some(x) => Some(x.duplicate()),
        None => None,
    }
}

} // verus!
