//! The stream endpoints of the tenant API: what a stream creation asks for, and when it
//! is refused.
use vstd::prelude::*;
use vstd::string::*;
use crate::http::{Refusal, refuse, refused};
use crate::http::validation::{
    validate_id, validate_name, validate_meta, id_refusal, name_refusal, meta_refusal,
};
use crate::json::JsonValue;
use crate::text::{decimal, push_decimal, push_str, string_from_chars};

verus! {

broadcast use vstd::string::group_string_axioms;

/// The body of `POST /streams`.
pub struct CreateStreamRequest {
    pub id: String,
    pub name: String,
    pub meta: Option<JsonValue>,
    pub public: Option<bool>,
}

/// The body of `PATCH /streams/{id}`.
pub struct UpdateStreamRequest {
    pub name: Option<String>,
    pub meta: Option<JsonValue>,
    pub archived: Option<bool>,
}

impl CreateStreamRequest {
    /// Whether the new stream is public: only when asked.
    pub fn is_public(&self) -> (r: bool)
        ensures
            r == (self.public == Some(true)),
    {
        match self.public {
            Some(p) => p,
            None => false,
        }
    }
}

/// The most streams a tenant may have: its plan's limit when the plan has one, else the
/// server's limit per tenant.
pub fn stream_limit(plan_max: Option<u32>, tenant_default: u32) -> (n: u32)
    ensures
        n == match plan_max {
            Some(m) => m,
            None => tenant_default,
        },
{
    match plan_max {
        Some(m) => m,
        None => tenant_default,
    }
}

/// Why a stream creation is refused, if it is: the id, name and `meta` (by the size of
/// its serialized text) are validated in turn; then a tenant already holding
/// `max_streams` streams is refused with 403, and an id already taken with 409.
pub open spec fn create_stream_refusal(
    req: CreateStreamRequest,
    meta_json: Option<Seq<char>>,
    max_streams: u32,
    existing: nat,
    exists: bool,
) -> Option<(u16, Seq<char>)> {
    if id_refusal(req.id@, "stream id"@) is Some {
        id_refusal(req.id@, "stream id"@)
    } else if name_refusal(req.name@, "stream name"@) is Some {
        name_refusal(req.name@, "stream name"@)
    } else if meta_refusal(meta_json) is Some {
        meta_refusal(meta_json)
    } else if existing >= max_streams {
        Some((403u16, "stream limit reached ("@ + decimal(max_streams as nat) + ")"@))
    } else if exists {
        Some((409u16, "failed to create stream"@))
    } else {
        None
    }
}

/// The checks of a stream creation, given how many streams the tenant has and whether
/// the id is taken.
pub fn check_create_stream(
    req: &CreateStreamRequest,
    meta_json: Option<&str>,
    max_streams: u32,
    existing: usize,
    exists: bool,
) -> (r: Result<(), Refusal>)
    ensures
        refused(r) == create_stream_refusal(
            *req,
            match meta_json {
                Some(t) => Some(t@),
                None => None,
            },
            max_streams,
            existing as nat,
            exists,
        ),
{
    validate_id(req.id.as_str(), "stream id")?;
    validate_name(req.name.as_str(), "stream name")?;
    validate_meta(meta_json)?;
    if existing >= max_streams as usize {
        let mut v: Vec<char> = Vec::new();
        push_str(&mut v, "stream limit reached (");
        push_decimal(&mut v, max_streams as u64);
        push_str(&mut v, ")");
        let msg = string_from_chars(v.as_slice());
        return Err(refuse(403, msg.as_str()));
    }
    if exists {
        return Err(refuse(409, "failed to create stream"));
    }
    Ok(())
}

} // verus!
