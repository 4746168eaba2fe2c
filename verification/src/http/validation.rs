//! Validation of what the HTTP API is given: ids, names, event bodies, `meta` fields and
//! their attachments, and pagination. Every refusal is a 400 with a message.
use vstd::prelude::*;
use vstd::string::*;
use crate::http::{Refusal, refused};
use crate::json::{JsonValue, json_get, json_as_str, json_as_array};
use crate::text::{chars_of, utf8_len, utf8_range_longer_than, decimal, u64_to_string};

verus! {

broadcast use vstd::string::group_string_axioms;

/// Longest id, in bytes.
pub const MAX_ID_LEN: usize = 255;

/// Longest event body, in bytes.
pub const MAX_BODY_LEN: usize = 65_536;

/// Largest serialized `meta` field, in bytes.
pub const MAX_META_SIZE: usize = 16_384;

/// Longest display name, in bytes.
pub const MAX_NAME_LEN: usize = 512;

/// Most attachments in one event.
pub const MAX_ATTACHMENTS: usize = 10;

fn bad_request(message: String) -> (r: Result<(), Refusal>)
    ensures
        refused(r) == Some((400u16, message@)),
{
    Err(Refusal { status: 400, message })
}

fn field_message(field: &str, tail: &str) -> (s: String)
    ensures
        s@ == field@ + tail@,
{
    let mut s = String::from_str(field);
    s.append(tail);
    s
}

/// The characters an id may hold: ASCII letters and digits, `-`, `_` and `.`.
pub open spec fn id_char(c: char) -> bool {
    ('a' <= c <= 'z') || ('A' <= c <= 'Z') || ('0' <= c <= '9') || c == '-' || c == '_' || c
        == '.'
}

/// Why the id `id` (named `field` in messages) is refused, if it is.
pub open spec fn id_refusal(id: Seq<char>, field: Seq<char>) -> Option<(u16, Seq<char>)> {
    if id.len() == 0 {
        Some((400u16, field + " must not be empty"@))
    } else if utf8_len(id) > MAX_ID_LEN {
        Some((400u16, field + " exceeds maximum length (255)"@))
    } else if exists|i: int| 0 <= i < id.len() && !id_char(#[trigger] id[i]) {
        Some(
            (
                400u16,
                field
                    + " contains invalid characters (allowed: alphanumeric, hyphen, underscore, dot)"@,
            ),
        )
    } else {
        None
    }
}

/// Ids of 1 to 255 bytes made only of ASCII letters of either case, digits, `-`, `_`
/// and `.` are accepted; an empty id, one longer than 255 bytes, or one holding any
/// other character is refused with a 400.
pub proof fn lemma_id_rules(id: Seq<char>, field: Seq<char>)
    ensures
        0 < id.len() && utf8_len(id) <= 255 && (forall|i: int|
            0 <= i < id.len() ==> {
                let c = #[trigger] id[i];
                ('a' <= c && c <= 'z') || ('A' <= c && c <= 'Z') || ('0' <= c && c <= '9') || c
                    == '-' || c == '_' || c == '.'
            }) ==> id_refusal(id, field) is None,
        id.len() == 0 ==> (id_refusal(id, field) matches Some((status, _)) && status == 400),
        utf8_len(id) > 255 ==> (id_refusal(id, field) matches Some((status, _)) && status == 400),
        (exists|i: int|
            0 <= i < id.len() && {
                let c = #[trigger] id[i];
                !(('a' <= c && c <= 'z') || ('A' <= c && c <= 'Z') || ('0' <= c && c <= '9') || c
                    == '-' || c == '_' || c == '.')
            }) ==> (id_refusal(id, field) matches Some((status, _)) && status == 400),
{
}

/// Display names of 1 to 512 bytes without a NUL character are accepted, and every other
/// name refused with a 400; event bodies of at most 65 536 bytes are accepted and longer
/// ones refused; a `meta` field whose text takes at most 16 384 bytes (or none) is
/// accepted and a larger one refused.
pub proof fn lemma_size_rules(name: Seq<char>, field: Seq<char>, body: Seq<char>, meta: Option<Seq<char>>)
    ensures
        (0 < name.len() && utf8_len(name) <= 512 && forall|i: int|
            0 <= i < name.len() ==> #[trigger] name[i] != '\0') <==> name_refusal(name, field) is None,
        name_refusal(name, field) matches Some((st, _)) ==> st == 400,
        (utf8_len(body) <= 65_536) <==> body_refusal(body) is None,
        body_refusal(body) matches Some((st, _)) ==> st == 400,
        (match meta {
            Some(t) => utf8_len(t) <= 16_384,
            None => true,
        }) <==> meta_refusal(meta) is None,
{
    if name.contains('\0') {
        let i = choose|i: int| 0 <= i < name.len() && name[i] == '\0';
        assert(name[i] == '\0');
    }
}

/// Validates an entity id (tenant, stream, user): 1 to 255 bytes of letters, digits,
/// `-`, `_` and `.`.
pub fn validate_id(id: &str, field: &str) -> (r: Result<(), Refusal>)
    ensures
        refused(r) == id_refusal(id@, field@),
{
    let v = chars_of(id);
    if v.len() == 0 {
        return bad_request(field_message(field, " must not be empty"));
    }
    assert(v@.subrange(0, v@.len() as int) =~= v@);
    if utf8_range_longer_than(&v, 0, v.len(), MAX_ID_LEN) {
        return bad_request(field_message(field, " exceeds maximum length (255)"));
    }
    let mut i: usize = 0;
    while i < v.len()
        invariant
            v@ == id@,
            id@.len() != 0,
            utf8_len(id@) <= MAX_ID_LEN,
            i <= v@.len(),
            forall|j: int| 0 <= j < i ==> id_char(#[trigger] v@[j]),
        decreases v@.len() - i,
    {
        let c = v[i];
        let ok = ('a' <= c && c <= 'z') || ('A' <= c && c <= 'Z') || ('0' <= c && c <= '9') || c
            == '-' || c == '_' || c == '.';
        if !ok {
            assert(!id_char(id@[i as int]));
            return bad_request(
                field_message(
                    field,
                    " contains invalid characters (allowed: alphanumeric, hyphen, underscore, dot)",
                ),
            );
        }
        i += 1;
    }
    Ok(())
}

/// Why the display name `name` is refused, if it is.
pub open spec fn name_refusal(name: Seq<char>, field: Seq<char>) -> Option<(u16, Seq<char>)> {
    if name.len() == 0 {
        Some((400u16, field + " must not be empty"@))
    } else if utf8_len(name) > MAX_NAME_LEN {
        Some((400u16, field + " exceeds maximum length (512)"@))
    } else if name.contains('\0') {
        Some((400u16, field + " contains null bytes"@))
    } else {
        None
    }
}

/// Validates a display name: 1 to 512 bytes, no NUL character.
pub fn validate_name(name: &str, field: &str) -> (r: Result<(), Refusal>)
    ensures
        refused(r) == name_refusal(name@, field@),
{
    let v = chars_of(name);
    if v.len() == 0 {
        return bad_request(field_message(field, " must not be empty"));
    }
    assert(v@.subrange(0, v@.len() as int) =~= v@);
    if utf8_range_longer_than(&v, 0, v.len(), MAX_NAME_LEN) {
        return bad_request(field_message(field, " exceeds maximum length (512)"));
    }
    let mut i: usize = 0;
    while i < v.len()
        invariant
            v@ == name@,
            name@.len() != 0,
            utf8_len(name@) <= MAX_NAME_LEN,
            i <= v@.len(),
            forall|j: int| 0 <= j < i ==> v@[j] != '\0',
        decreases v@.len() - i,
    {
        if v[i] == '\0' {
            assert(name@[i as int] == '\0');
            return bad_request(field_message(field, " contains null bytes"));
        }
        i += 1;
    }
    Ok(())
}

/// Why an event body is refused, if it is.
pub open spec fn body_refusal(body: Seq<char>) -> Option<(u16, Seq<char>)> {
    if utf8_len(body) > MAX_BODY_LEN {
        Some((400u16, "event body exceeds maximum length (65536 bytes)"@))
    } else {
        None
    }
}

/// Validates an event body: at most 64 KiB.
pub fn validate_body(body: &str) -> (r: Result<(), Refusal>)
    ensures
        refused(r) == body_refusal(body@),
{
    let v = chars_of(body);
    assert(v@.subrange(0, v@.len() as int) =~= v@);
    if utf8_range_longer_than(&v, 0, v.len(), MAX_BODY_LEN) {
        return bad_request(String::from_str("event body exceeds maximum length (65536 bytes)"));
    }
    Ok(())
}

/// Why a `meta` field is refused, given its serialized JSON text.
pub open spec fn meta_refusal(meta_json: Option<Seq<char>>) -> Option<(u16, Seq<char>)> {
    match meta_json {
        Some(text) => if utf8_len(text) > MAX_META_SIZE {
            Some((400u16, "meta field exceeds maximum size (16384 bytes)"@))
        } else {
            None
        },
        None => None,
    }
}

/// Validates a `meta` field by the size of its serialized JSON text (`None`: no meta):
/// at most 16 KiB.
pub fn validate_meta(meta_json: Option<&str>) -> (r: Result<(), Refusal>)
    ensures
        refused(r) == meta_refusal(
            match meta_json {
                Some(t) => Some(t@),
                None => None,
            },
        ),
{
    match meta_json {
        Some(text) => {
            let v = chars_of(text);
            assert(v@.subrange(0, v@.len() as int) =~= v@);
            if utf8_range_longer_than(&v, 0, v.len(), MAX_META_SIZE) {
                return bad_request(
                    String::from_str("meta field exceeds maximum size (16384 bytes)"),
                );
            }
            Ok(())
        },
        None => Ok(()),
    }
}

/// Whether an attachment has a string `url`.
pub open spec fn has_url(att: JsonValue) -> bool {
    match json_get(att, "url"@) {
        Some(u) => json_as_str(u) is Some,
        None => false,
    }
}

/// Why the attachments of `meta` are refused, if they are: more than 10, or one without
/// a string `url` (the first such is named by its index).
pub open spec fn attachments_refusal(meta: Option<JsonValue>) -> Option<(u16, Seq<char>)> {
    match meta {
        Some(m) => match json_get(m, "attachments"@) {
            Some(a) => match json_as_array(a) {
                Some(arr) => if arr.len() > MAX_ATTACHMENTS {
                    Some((400u16, "maximum 10 attachments per event"@))
                } else if exists|i: int| 0 <= i < arr.len() && !has_url(#[trigger] arr[i]) {
                    let i = choose|i: int|
                        0 <= i < arr.len() && !has_url(#[trigger] arr[i]) && forall|j: int|
                            0 <= j < i ==> has_url(#[trigger] arr[j]);
                    Some(
                        (
                            400u16,
                            "attachment["@ + decimal(i as nat)
                                + "] missing required 'url' field"@,
                        ),
                    )
                } else {
                    None
                },
                None => None,
            },
            None => None,
        },
        None => None,
    }
}

fn attachment_has_url(att: &JsonValue) -> (r: bool)
    ensures
        r == has_url(*att),
{
    match att.get("url") {
        Some(u) => u.as_str().is_some(),
        None => false,
    }
}

/// Validates the attachments listed in `meta.attachments`.
pub fn validate_attachments(meta: &Option<JsonValue>) -> (r: Result<(), Refusal>)
    ensures
        refused(r) == attachments_refusal(*meta),
{
    let m = match meta {
        Some(m) => m,
        None => {
            return Ok(());
        },
    };
    let a = match m.get("attachments") {
        Some(a) => a,
        None => {
            return Ok(());
        },
    };
    let arr = match a.as_array() {
        Some(arr) => arr,
        None => {
            return Ok(());
        },
    };
    if arr.len() > MAX_ATTACHMENTS {
        return bad_request(String::from_str("maximum 10 attachments per event"));
    }
    let mut i: usize = 0;
    while i < arr.len()
        invariant
            i <= arr@.len(),
            *meta == Some(*m),
            json_get(*m, "attachments"@) == Some(*a),
            json_as_array(*a) == Some(arr@),
            arr@.len() <= MAX_ATTACHMENTS,
            forall|j: int| 0 <= j < i ==> has_url(#[trigger] arr@[j]),
        decreases arr@.len() - i,
    {
        if !attachment_has_url(&arr[i]) {
            let mut s = String::from_str("attachment[");
            let n = u64_to_string(i as u64);
            s.append(n.as_str());
            s.append("] missing required 'url' field");
            proof {
                assert(!has_url(arr@[i as int]));
                let k = choose|k: int|
                    0 <= k < arr@.len() && !has_url(#[trigger] arr@[k]) && forall|j: int|
                        0 <= j < k ==> has_url(#[trigger] arr@[j]);
                assert(k == i) by {
                    if k < i {
                        assert(has_url(arr@[k]));
                    }
                    if k > i {
                        assert(has_url(arr@[i as int]));
                    }
                }
            }
            return bad_request(s);
        }
        i += 1;
    }
    Ok(())
}

/// `?limit=&offset=` of the list endpoints.
pub struct PaginationQuery {
    pub limit: Option<usize>,
    pub offset: Option<usize>,
}

impl PaginationQuery {
    /// `(limit, offset)`: the limit defaults to 50 and is capped at 500, the offset
    /// defaults to 0.
    pub fn resolve(&self) -> (r: (usize, usize))
        ensures
            r.0 == match self.limit {
                Some(l) => if l < 500 {
                    l
                } else {
                    500
                },
                None => 50,
            },
            r.1 == match self.offset {
                Some(o) => o,
                None => 0,
            },
    {
        let limit = match self.limit {
            Some(l) => if l < 500 {
                l
            } else {
                500
            },
            None => 50,
        };
        let offset = match self.offset {
            Some(o) => o,
            None => 0,
        };
        (limit, offset)
    }
}

} // verus!
