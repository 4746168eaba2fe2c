//! The bodies of the stream-membership endpoints.
use vstd::prelude::*;

verus! {

/// The body of `POST /streams/{id}/members`.
pub struct AddMemberRequest {
    pub user_id: String,
    pub role: Option<String>,
}

/// The body of `PATCH /streams/{id}/members/{user_id}`.
pub struct UpdateMemberRequest {
    pub role: String,
}

} // verus!
