//! The bodies and queries of the room-message endpoints.
use vstd::prelude::*;
use crate::json::JsonValue;

verus! {

/// The body of `POST /rooms/{id}/messages`.
pub struct InjectMessageRequest {
    pub sender: String,
    pub body: String,
    pub meta: Option<JsonValue>,
    pub exclude_connection: Option<u64>,
    pub parent_id: Option<String>,
}

/// The query of `GET /rooms/{id}/messages`.
pub struct ListMessagesQuery {
    pub before: Option<u64>,
    pub after: Option<u64>,
    pub limit: Option<u32>,
    pub thread: Option<String>,
}

/// The body of `PATCH /rooms/{id}/messages/{message_id}`.
pub struct EditMessageRequest {
    pub body: String,
}

/// The body of `POST /rooms/{id}/trigger`.
pub struct TriggerEventRequest {
    pub event: String,
    pub data: Option<JsonValue>,
    pub exclude_connection: Option<u64>,
}

} // verus!
