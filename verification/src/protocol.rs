//! The WebSocket protocol: frames that clients send, messages the server sends.
use vstd::prelude::*;
use vstd::string::*;
use crate::error::ErrorCode;
use crate::json::{
    JsonValue, JsonData, json_get, json_as_u64, json_as_i64, string_items, opt_view,
    duplicate_opt,
};
use crate::presence::PresenceStatus;
use crate::text::{str_eq, copy_str};

verus! {

broadcast use vstd::string::group_string_axioms;

/// A raw frame as read off the wire: its `type`, optional `ref`, and payload.
pub struct RawFrame {
    pub type_: String,
    pub ref_: Option<String>,
    pub payload: JsonValue,
}

// ---------------------------------------------------------------------------
// Client → Server
// ---------------------------------------------------------------------------

pub enum ClientMessage {
    Auth { ref_: Option<String>, token: String, last_seen_at: Option<i64> },
    AuthRefresh { ref_: Option<String>, token: String },
    Subscribe { ref_: Option<String>, streams: Vec<String> },
    Unsubscribe { ref_: Option<String>, streams: Vec<String> },
    EventPublish {
        ref_: Option<String>,
        stream: String,
        body: String,
        meta: Option<JsonValue>,
        parent_id: Option<String>,
    },
    EventEdit { ref_: Option<String>, stream: String, id: String, body: String },
    CursorUpdate { stream: String, seq: u64 },
    PresenceSet { ref_: Option<String>, status: PresenceStatus },
    TypingStart { stream: String },
    TypingStop { stream: String },
    EventsFetch {
        ref_: Option<String>,
        stream: String,
        before: Option<u64>,
        after: Option<u64>,
        limit: Option<u32>,
    },
    EventDelete { ref_: Option<String>, stream: String, id: String },
    Ping { ref_: Option<String> },
    EventTrigger { ref_: Option<String>, stream: String, event: String, data: Option<JsonValue> },
    ReactionAdd { ref_: Option<String>, stream: String, event_id: String, emoji: String },
    ReactionRemove { ref_: Option<String>, stream: String, event_id: String, emoji: String },
}

/// The kinds of payload field a message type requires.
pub enum FieldKind {
    Str,
    StrArray,
    U64,
}

/// The string member `key` of `p`.
pub open spec fn field_str(p: JsonValue, key: Seq<char>) -> Option<Seq<char>> {
    match json_get(p, key) {
        Some(JsonValue::Text(s)) => Some(s@),
        _ => None,
    }
}

/// The string items of the array member `key` of `p` (other items are skipped).
pub open spec fn field_str_array(p: JsonValue, key: Seq<char>) -> Option<Seq<Seq<char>>> {
    match json_get(p, key) {
        Some(JsonValue::Array(items)) => Some(string_items(items@)),
        _ => None,
    }
}

/// The non-negative integer member `key` of `p`.
pub open spec fn field_u64(p: JsonValue, key: Seq<char>) -> Option<u64> {
    match json_get(p, key) {
        Some(v) => json_as_u64(v),
        None => None,
    }
}

/// The integer member `key` of `p`, read as `i64`.
pub open spec fn field_i64(p: JsonValue, key: Seq<char>) -> Option<i64> {
    match json_get(p, key) {
        Some(v) => json_as_i64(v),
        None => None,
    }
}

/// The content of the member `key` of `p`.
pub open spec fn field_any(p: JsonValue, key: Seq<char>) -> Option<JsonData> {
    match json_get(p, key) {
        Some(v) => Some(v@),
        None => None,
    }
}

pub open spec fn field_present(p: JsonValue, key: Seq<char>, kind: FieldKind) -> bool {
    match kind {
        FieldKind::Str => field_str(p, key) is Some,
        FieldKind::StrArray => field_str_array(p, key) is Some,
        FieldKind::U64 => field_u64(p, key) is Some,
    }
}

/// The message types of the protocol, with the fields each requires, in the order
/// they are read.
pub open spec fn required_fields(t: Seq<char>) -> Option<Seq<(Seq<char>, FieldKind)>> {
    if t == "auth"@ || t == "auth.refresh"@ {
        Some(seq![("token"@, FieldKind::Str)])
    } else if t == "subscribe"@ || t == "unsubscribe"@ {
        Some(seq![("streams"@, FieldKind::StrArray)])
    } else if t == "event.publish"@ {
        Some(seq![("stream"@, FieldKind::Str), ("body"@, FieldKind::Str)])
    } else if t == "event.edit"@ {
        Some(seq![("stream"@, FieldKind::Str), ("id"@, FieldKind::Str), ("body"@, FieldKind::Str)])
    } else if t == "cursor.update"@ {
        Some(seq![("stream"@, FieldKind::Str), ("seq"@, FieldKind::U64)])
    } else if t == "presence.set"@ {
        Some(seq![("status"@, FieldKind::Str)])
    } else if t == "typing.start"@ || t == "typing.stop"@ || t == "events.fetch"@ {
        Some(seq![("stream"@, FieldKind::Str)])
    } else if t == "event.delete"@ {
        Some(seq![("stream"@, FieldKind::Str), ("id"@, FieldKind::Str)])
    } else if t == "ping"@ {
        Some(Seq::empty())
    } else if t == "event.trigger"@ {
        Some(seq![("stream"@, FieldKind::Str), ("event"@, FieldKind::Str)])
    } else if t == "reaction.add"@ || t == "reaction.remove"@ {
        Some(
            seq![("stream"@, FieldKind::Str), ("event_id"@, FieldKind::Str), ("emoji"@, FieldKind::Str)],
        )
    } else {
        None
    }
}

/// The first of `fields` that `p` lacks.
pub open spec fn first_missing(p: JsonValue, fields: Seq<(Seq<char>, FieldKind)>) -> Option<
    Seq<char>,
>
    decreases fields.len(),
{
    if fields.len() == 0 {
        None
    } else if !field_present(p, fields[0].0, fields[0].1) {
        Some(fields[0].0)
    } else {
        first_missing(p, fields.drop_first())
    }
}

pub open spec fn strings_view(v: Seq<String>) -> Seq<Seq<char>> {
    v.map_values(|s: String| s@)
}

/// What a well-formed frame of type `t` with reference `r` and payload `p` reads as.
pub open spec fn message_matches(t: Seq<char>, r: Option<String>, p: JsonValue, m: ClientMessage) -> bool {
    let s = |k: Seq<char>| field_str(p, k)->0;
    if t == "auth"@ {
        m matches ClientMessage::Auth { ref_, token, last_seen_at } && ref_ == r && token@ == s(
            "token"@,
        ) && last_seen_at == field_i64(p, "last_seen_at"@)
    } else if t == "auth.refresh"@ {
        m matches ClientMessage::AuthRefresh { ref_, token } && ref_ == r && token@ == s("token"@)
    } else if t == "subscribe"@ {
        m matches ClientMessage::Subscribe { ref_, streams } && ref_ == r && strings_view(streams@)
            == field_str_array(p, "streams"@)->0
    } else if t == "unsubscribe"@ {
        m matches ClientMessage::Unsubscribe { ref_, streams } && ref_ == r && strings_view(
            streams@,
        ) == field_str_array(p, "streams"@)->0
    } else if t == "event.publish"@ {
        m matches ClientMessage::EventPublish { ref_, stream, body, meta, parent_id } && ref_ == r
            && stream@ == s("stream"@) && body@ == s("body"@) && opt_view(meta) == field_any(
            p,
            "meta"@,
        ) && match parent_id {
            Some(x) => field_str(p, "parent_id"@) == Some(x@),
            None => field_str(p, "parent_id"@) is None,
        }
    } else if t == "event.edit"@ {
        m matches ClientMessage::EventEdit { ref_, stream, id, body } && ref_ == r && stream@ == s(
            "stream"@,
        ) && id@ == s("id"@) && body@ == s("body"@)
    } else if t == "cursor.update"@ {
        m matches ClientMessage::CursorUpdate { stream, seq } && stream@ == s("stream"@) && seq
            == field_u64(p, "seq"@)->0
    } else if t == "presence.set"@ {
        m matches ClientMessage::PresenceSet { ref_, status } && ref_ == r && Some(status)
            == PresenceStatus::from_wire(s("status"@))
    } else if t == "typing.start"@ {
        m matches ClientMessage::TypingStart { stream } && stream@ == s("stream"@)
    } else if t == "typing.stop"@ {
        m matches ClientMessage::TypingStop { stream } && stream@ == s("stream"@)
    } else if t == "events.fetch"@ {
        m matches ClientMessage::EventsFetch { ref_, stream, before, after, limit } && ref_ == r
            && stream@ == s("stream"@) && before == field_u64(p, "before"@) && after == field_u64(
            p,
            "after"@,
        ) && limit == match field_u64(p, "limit"@) {
            Some(n) => if n <= u32::MAX {
                Some(n as u32)
            } else {
                None
            },
            None => None,
        }
    } else if t == "event.delete"@ {
        m matches ClientMessage::EventDelete { ref_, stream, id } && ref_ == r && stream@ == s(
            "stream"@,
        ) && id@ == s("id"@)
    } else if t == "ping"@ {
        m matches ClientMessage::Ping { ref_ } && ref_ == r
    } else if t == "event.trigger"@ {
        m matches ClientMessage::EventTrigger { ref_, stream, event, data } && ref_ == r
            && stream@ == s("stream"@) && event@ == s("event"@) && opt_view(data) == field_any(
            p,
            "data"@,
        )
    } else if t == "reaction.add"@ {
        m matches ClientMessage::ReactionAdd { ref_, stream, event_id, emoji } && ref_ == r
            && stream@ == s("stream"@) && event_id@ == s("event_id"@) && emoji@ == s("emoji"@)
    } else if t == "reaction.remove"@ {
        m matches ClientMessage::ReactionRemove { ref_, stream, event_id, emoji } && ref_ == r
            && stream@ == s("stream"@) && event_id@ == s("event_id"@) && emoji@ == s("emoji"@)
    } else {
        false
    }
}

/// The outcome of reading a frame: the error text, or that a message is owed.
pub open spec fn frame_error(t: Seq<char>, p: JsonValue) -> Option<Seq<char>> {
    match required_fields(t) {
        None => Some("unknown message type: "@ + t),
        Some(fields) => match first_missing(p, fields) {
            Some(k) => Some("missing or invalid field: "@ + k),
            None => if t == "presence.set"@ && PresenceStatus::from_wire(
                field_str(p, "status"@)->0,
            ) is None {
                Some("invalid presence status: "@ + field_str(p, "status"@)->0)
            } else {
                None
            },
        },
    }
}

fn missing_field(key: &str) -> (e: String)
    ensures
        e@ == "missing or invalid field: "@ + key@,
{
    let mut e = String::from_str("missing or invalid field: ");
    e.append(key);
    e
}

/// The string member `key` of `v`.
fn str_field(v: &JsonValue, key: &str) -> (r: Result<String, String>)
    ensures
        match field_str(*v, key@) {
            Some(s) => r matches Ok(x) && x@ == s,
            None => r matches Err(e) && e@ == "missing or invalid field: "@ + key@,
        },
{
    match v.get(key) {
        Some(x) => match x.as_str() {
            Some(s) => Ok(s.clone()),
            None => Err(missing_field(key)),
        },
        None => Err(missing_field(key)),
    }
}

/// The non-negative integer member `key` of `v`.
fn u64_field(v: &JsonValue, key: &str) -> (r: Result<u64, String>)
    ensures
        match field_u64(*v, key@) {
            Some(n) => r == Ok::<u64, String>(n),
            None => r matches Err(e) && e@ == "missing or invalid field: "@ + key@,
        },
{
    match v.get(key) {
        Some(x) => match x.as_u64() {
            Some(n) => Ok(n),
            None => Err(missing_field(key)),
        },
        None => Err(missing_field(key)),
    }
}

/// The string items of the array member `key` of `v`.
fn str_array_field(v: &JsonValue, key: &str) -> (r: Result<Vec<String>, String>)
    ensures
        match field_str_array(*v, key@) {
            Some(items) => r matches Ok(x) && strings_view(x@) == items,
            None => r matches Err(e) && e@ == "missing or invalid field: "@ + key@,
        },
{
    match v.get(key) {
        Some(x) => match x.as_array() {
            Some(items) => {
                let mut out: Vec<String> = Vec::new();
                let mut i: usize = 0;
                while i < items.len()
                    invariant
                        0 <= i <= items@.len(),
                        strings_view(out@) == string_items(items@.take(i as int)),
                    decreases items@.len() - i,
                {
                    let ghost prev = out@;
                    assert(items@.take(i + 1).drop_last() =~= items@.take(i as int));
                    match items[i].as_str() {
                        Some(s) => {
                            out.push(s.clone());
                            assert(strings_view(out@) =~= strings_view(prev).push(s@));
                        },
                        None => {},
                    }
                    i += 1;
                }
                assert(items@.take(i as int) =~= items@);
                Ok(out)
            },
            None => Err(missing_field(key)),
        },
        None => Err(missing_field(key)),
    }
}

/// The optional string member `key` of `v`.
fn opt_str_field(v: &JsonValue, key: &str) -> (r: Option<String>)
    ensures
        match field_str(*v, key@) {
            Some(s) => r matches Some(x) && x@ == s,
            None => r is None,
        },
{
    match v.get(key) {
        Some(x) => match x.as_str() {
            Some(s) => Some(s.clone()),
            None => None,
        },
        None => None,
    }
}

/// The optional non-negative integer member `key` of `v`.
fn opt_u64_field(v: &JsonValue, key: &str) -> (r: Option<u64>)
    ensures
        r == field_u64(*v, key@),
{
    match v.get(key) {
        Some(x) => x.as_u64(),
        None => None,
    }
}

/// A copy of the member `key` of `v`, if present.
fn opt_any_field(v: &JsonValue, key: &str) -> (r: Option<JsonValue>)
    ensures
        opt_view(r) == field_any(*v, key@),
{
    match v.get(key) {
        Some(x) => Some(x.duplicate()),
        None => None,
    }
}

/// The message type names differ from `presence.set`.
proof fn lemma_type_names_distinct()
    ensures
        "auth"@ != "presence.set"@,
        "auth.refresh"@ != "presence.set"@,
        "subscribe"@ != "presence.set"@,
        "unsubscribe"@ != "presence.set"@,
        "event.publish"@ != "presence.set"@,
        "event.edit"@ != "presence.set"@,
        "cursor.update"@ != "presence.set"@,
        "typing.start"@ != "presence.set"@,
        "typing.stop"@ != "presence.set"@,
        "events.fetch"@ != "presence.set"@,
        "event.delete"@ != "presence.set"@,
        "ping"@ != "presence.set"@,
        "event.trigger"@ != "presence.set"@,
        "reaction.add"@ != "presence.set"@,
        "reaction.remove"@ != "presence.set"@,
{
    reveal_strlit("auth");
    reveal_strlit("auth.refresh");
    reveal_strlit("subscribe");
    reveal_strlit("unsubscribe");
    reveal_strlit("event.publish");
    reveal_strlit("event.edit");
    reveal_strlit("cursor.update");
    reveal_strlit("presence.set");
    reveal_strlit("typing.start");
    reveal_strlit("typing.stop");
    reveal_strlit("events.fetch");
    reveal_strlit("event.delete");
    reveal_strlit("ping");
    reveal_strlit("event.trigger");
    reveal_strlit("reaction.add");
    reveal_strlit("reaction.remove");
    assert("auth"@.len() == 4);
    assert("presence.set"@.len() == 12);
    assert("auth"@ != "presence.set"@);
    assert("auth.refresh"@[0] != "presence.set"@[0]);
    assert("auth.refresh"@ != "presence.set"@);
    assert("subscribe"@ != "presence.set"@);
    assert("unsubscribe"@ != "presence.set"@);
    assert("event.publish"@ != "presence.set"@);
    assert("event.edit"@ != "presence.set"@);
    assert("cursor.update"@ != "presence.set"@);
    assert("typing.start"@ != "presence.set"@);
    assert("typing.stop"@ != "presence.set"@);
    assert("events.fetch"@ != "presence.set"@);
    assert("event.delete"@ != "presence.set"@);
    assert("ping"@ != "presence.set"@);
    assert("event.trigger"@ != "presence.set"@);
    assert("reaction.add"@ != "presence.set"@);
    assert("reaction.remove"@ != "presence.set"@);
}

impl ClientMessage {
    /// The protocol name of the message's type.
    pub open spec fn spec_type_name(self) -> Seq<char> {
        match self {
            ClientMessage::Auth { .. } => "auth"@,
            ClientMessage::AuthRefresh { .. } => "auth.refresh"@,
            ClientMessage::Subscribe { .. } => "subscribe"@,
            ClientMessage::Unsubscribe { .. } => "unsubscribe"@,
            ClientMessage::EventPublish { .. } => "event.publish"@,
            ClientMessage::EventEdit { .. } => "event.edit"@,
            ClientMessage::EventDelete { .. } => "event.delete"@,
            ClientMessage::EventsFetch { .. } => "events.fetch"@,
            ClientMessage::EventTrigger { .. } => "event.trigger"@,
            ClientMessage::CursorUpdate { .. } => "cursor.update"@,
            ClientMessage::PresenceSet { .. } => "presence.set"@,
            ClientMessage::TypingStart { .. } => "typing.start"@,
            ClientMessage::TypingStop { .. } => "typing.stop"@,
            ClientMessage::Ping { .. } => "ping"@,
            ClientMessage::ReactionAdd { .. } => "reaction.add"@,
            ClientMessage::ReactionRemove { .. } => "reaction.remove"@,
        }
    }

    /// Returns the protocol type name for this message (e.g. "subscribe", "event.publish").
    pub fn protocol_type_name(&self) -> (s: &'static str)
        ensures
            s@ == self.spec_type_name(),
    {
        match self {
            ClientMessage::Auth { .. } => "auth",
            ClientMessage::AuthRefresh { .. } => "auth.refresh",
            ClientMessage::Subscribe { .. } => "subscribe",
            ClientMessage::Unsubscribe { .. } => "unsubscribe",
            ClientMessage::EventPublish { .. } => "event.publish",
            ClientMessage::EventEdit { .. } => "event.edit",
            ClientMessage::EventDelete { .. } => "event.delete",
            ClientMessage::EventsFetch { .. } => "events.fetch",
            ClientMessage::EventTrigger { .. } => "event.trigger",
            ClientMessage::CursorUpdate { .. } => "cursor.update",
            ClientMessage::PresenceSet { .. } => "presence.set",
            ClientMessage::TypingStart { .. } => "typing.start",
            ClientMessage::TypingStop { .. } => "typing.stop",
            ClientMessage::Ping { .. } => "ping",
            ClientMessage::ReactionAdd { .. } => "reaction.add",
            ClientMessage::ReactionRemove { .. } => "reaction.remove",
        }
    }

    /// Reads a raw frame as a client message.
    #[verifier::rlimit(60)]
    pub fn from_raw(raw: RawFrame) -> (r: Result<ClientMessage, String>)
        ensures
            match frame_error(raw.type_@, raw.payload) {
                Some(e) => r matches Err(x) && x@ == e,
                None => r matches Ok(m) && message_matches(raw.type_@, raw.ref_, raw.payload, m),
            },
    {
        proof {
            reveal_with_fuel(first_missing, 4);
            lemma_type_names_distinct();
        }
        let p = &raw.payload;
        let t = raw.type_.as_str();
        if str_eq(t, "auth") {
            let token = str_field(p, "token")?;
            let last_seen_at = match p.get("last_seen_at") {
                Some(v) => v.as_i64(),
                None => None,
            };
            Ok(ClientMessage::Auth { ref_: raw.ref_, token, last_seen_at })
        } else if str_eq(t, "auth.refresh") {
            let token = str_field(p, "token")?;
            Ok(ClientMessage::AuthRefresh { ref_: raw.ref_, token })
        } else if str_eq(t, "subscribe") {
            let streams = str_array_field(p, "streams")?;
            Ok(ClientMessage::Subscribe { ref_: raw.ref_, streams })
        } else if str_eq(t, "unsubscribe") {
            let streams = str_array_field(p, "streams")?;
            Ok(ClientMessage::Unsubscribe { ref_: raw.ref_, streams })
        } else if str_eq(t, "event.publish") {
            let stream = str_field(p, "stream")?;
            let body = str_field(p, "body")?;
            let meta = opt_any_field(p, "meta");
            let parent_id = opt_str_field(p, "parent_id");
            Ok(ClientMessage::EventPublish { ref_: raw.ref_, stream, body, meta, parent_id })
        } else if str_eq(t, "event.edit") {
            let stream = str_field(p, "stream")?;
            let id = str_field(p, "id")?;
            let body = str_field(p, "body")?;
            Ok(ClientMessage::EventEdit { ref_: raw.ref_, stream, id, body })
        } else if str_eq(t, "cursor.update") {
            let stream = str_field(p, "stream")?;
            let seq = u64_field(p, "seq")?;
            Ok(ClientMessage::CursorUpdate { stream, seq })
        } else if str_eq(t, "presence.set") {
            let s = str_field(p, "status")?;
            match PresenceStatus::from_str_loose(s.as_str()) {
                Some(status) => Ok(ClientMessage::PresenceSet { ref_: raw.ref_, status }),
                None => {
                    let mut e = String::from_str("invalid presence status: ");
                    e.append(s.as_str());
                    Err(e)
                },
            }
        } else if str_eq(t, "typing.start") {
            let stream = str_field(p, "stream")?;
            Ok(ClientMessage::TypingStart { stream })
        } else if str_eq(t, "typing.stop") {
            let stream = str_field(p, "stream")?;
            Ok(ClientMessage::TypingStop { stream })
        } else if str_eq(t, "events.fetch") {
            let stream = str_field(p, "stream")?;
            let before = opt_u64_field(p, "before");
            let after = opt_u64_field(p, "after");
            let limit = match opt_u64_field(p, "limit") {
                Some(n) => if n <= u32::MAX as u64 {
                    Some(n as u32)
                } else {
                    None
                },
                None => None,
            };
            Ok(ClientMessage::EventsFetch { ref_: raw.ref_, stream, before, after, limit })
        } else if str_eq(t, "event.delete") {
            let stream = str_field(p, "stream")?;
            let id = str_field(p, "id")?;
            Ok(ClientMessage::EventDelete { ref_: raw.ref_, stream, id })
        } else if str_eq(t, "ping") {
            Ok(ClientMessage::Ping { ref_: raw.ref_ })
        } else if str_eq(t, "event.trigger") {
            let stream = str_field(p, "stream")?;
            let event = str_field(p, "event")?;
            let data = opt_any_field(p, "data");
            Ok(ClientMessage::EventTrigger { ref_: raw.ref_, stream, event, data })
        } else if str_eq(t, "reaction.add") {
            let stream = str_field(p, "stream")?;
            let event_id = str_field(p, "event_id")?;
            let emoji = str_field(p, "emoji")?;
            Ok(ClientMessage::ReactionAdd { ref_: raw.ref_, stream, event_id, emoji })
        } else if str_eq(t, "reaction.remove") {
            let stream = str_field(p, "stream")?;
            let event_id = str_field(p, "event_id")?;
            let emoji = str_field(p, "emoji")?;
            Ok(ClientMessage::ReactionRemove { ref_: raw.ref_, stream, event_id, emoji })
        } else {
            let mut e = String::from_str("unknown message type: ");
            e.append(t);
            Err(e)
        }
    }
}


// ---------------------------------------------------------------------------
// Server → Client
// ---------------------------------------------------------------------------

pub struct AuthOkPayload {
    pub user_id: String,
    pub connection_id: u64,
    pub server_time: i64,
    pub heartbeat_interval: u32,
}

pub struct ErrorPayload {
    pub code: ErrorCode,
    pub message: String,
}

pub struct MemberPresence {
    pub user_id: String,
    pub role: String,
    pub presence: PresenceStatus,
}

pub struct SubscribedPayload {
    pub stream: String,
    pub members: Vec<MemberPresence>,
    pub cursor: u64,
    pub latest_seq: u64,
}

pub struct EventNewPayload {
    pub stream: String,
    pub id: String,
    pub seq: u64,
    pub sender: String,
    pub body: String,
    pub meta: Option<JsonValue>,
    pub parent_id: Option<String>,
    pub sent_at: i64,
}

pub struct EventAckPayload {
    pub id: String,
    pub seq: u64,
    pub sent_at: i64,
}

pub struct EventsBatchPayload {
    pub stream: String,
    pub events: Vec<EventNewPayload>,
    pub has_more: bool,
}

pub struct EventEditedPayload {
    pub stream: String,
    pub id: String,
    pub seq: u64,
    pub body: String,
    pub edited_at: i64,
}

pub struct EventDeletedPayload {
    pub stream: String,
    pub id: String,
    pub seq: u64,
}

pub struct PresenceChangedPayload {
    pub user_id: String,
    pub presence: PresenceStatus,
}

pub struct CursorMovedPayload {
    pub stream: String,
    pub user_id: String,
    pub seq: u64,
}

pub struct MemberPayload {
    pub stream: String,
    pub user_id: String,
    pub role: String,
}

pub struct StreamEventPayload {
    pub stream: String,
}

pub struct TokenExpiringPayload {
    pub expires_at: i64,
}

pub struct TypingPayload {
    pub stream: String,
    pub user_id: String,
    pub active: bool,
}

pub struct EventReceivedPayload {
    pub stream: String,
    pub event: String,
    pub sender: String,
    pub data: Option<JsonValue>,
}

pub struct WatchlistPayload {
    pub user_ids: Vec<String>,
}

pub struct StreamSubscriberCountPayload {
    pub stream: String,
    pub count: usize,
}

pub struct ReactionChangedPayload {
    pub stream: String,
    pub event_id: String,
    pub emoji: String,
    pub user_id: String,
    pub action: String,
}

#[allow(inconsistent_fields)]
pub enum ServerMessage {
    AuthOk { ref_: Option<String>, payload: AuthOkPayload },
    AuthError { ref_: Option<String>, payload: ErrorPayload },
    Subscribed { ref_: Option<String>, payload: SubscribedPayload },
    EventNew { payload: EventNewPayload },
    EventAck { ref_: Option<String>, payload: EventAckPayload },
    EventsBatch { ref_: Option<String>, payload: EventsBatchPayload },
    EventEdited { payload: EventEditedPayload },
    EventDeleted { payload: EventDeletedPayload },
    PresenceChanged { payload: PresenceChangedPayload },
    CursorMoved { payload: CursorMovedPayload },
    MemberJoined { payload: MemberPayload },
    MemberLeft { payload: MemberPayload },
    StreamUpdated { payload: StreamEventPayload },
    StreamDeleted { payload: StreamEventPayload },
    TokenExpiring { payload: TokenExpiringPayload },
    Typing { payload: TypingPayload },
    EventReceived { payload: EventReceivedPayload },
    WatchlistOnline { payload: WatchlistPayload },
    WatchlistOffline { payload: WatchlistPayload },
    StreamSubscriberCount { payload: StreamSubscriberCountPayload },
    ReactionChanged { payload: ReactionChangedPayload },
    Error { ref_: Option<String>, payload: ErrorPayload },
    Pong { ref_: Option<String> },
}

impl ServerMessage {
    /// An `error` frame answering the request `ref_`.
    pub fn error(ref_: Option<String>, code: ErrorCode, message: &str) -> (m: ServerMessage)
        ensures
            m matches ServerMessage::Error { ref_: r, payload } && r == ref_ && payload.code == code
                && payload.message@ == message@,
    {
        ServerMessage::Error { ref_, payload: ErrorPayload { code, message: copy_str(message) } }
    }

    /// A `typing` frame.
    pub fn typing(stream: &str, user_id: &str, active: bool) -> (m: ServerMessage)
        ensures
            m matches ServerMessage::Typing { payload } && payload.stream@ == stream@
                && payload.user_id@ == user_id@ && payload.active == active,
    {
        ServerMessage::Typing {
            payload: TypingPayload {
                stream: copy_str(stream),
                user_id: copy_str(user_id),
                active,
            },
        }
    }
}

/// `a` and `b` carry the same event: equal fields, `meta` compared as JSON.
pub open spec fn same_event(a: EventNewPayload, b: EventNewPayload) -> bool {
    &&& a.stream == b.stream
    &&& a.id == b.id
    &&& a.seq == b.seq
    &&& a.sender == b.sender
    &&& a.body == b.body
    &&& opt_view(a.meta) == opt_view(b.meta)
    &&& a.parent_id == b.parent_id
    &&& a.sent_at == b.sent_at
}

/// `b` is a copy of the frame `a`: the same kind of frame with equal fields, lists
/// compared element by element and JSON values as JSON.
pub open spec fn same_frame(a: ServerMessage, b: ServerMessage) -> bool {
    match a {
        ServerMessage::Subscribed { ref_, payload } => (b matches ServerMessage::Subscribed {
            ref_: r2,
            payload: q,
        } && ref_ == r2 && payload.stream == q.stream && payload.members@ == q.members@
            && payload.cursor == q.cursor && payload.latest_seq == q.latest_seq),
        ServerMessage::EventNew { payload } => (b matches ServerMessage::EventNew { payload: q }
            && same_event(payload, q)),
        ServerMessage::EventsBatch { ref_, payload } => (b matches ServerMessage::EventsBatch {
            ref_: r2,
            payload: q,
        } && ref_ == r2 && payload.stream == q.stream && payload.has_more == q.has_more
            && payload.events@.len() == q.events@.len() && forall|i: int|
            0 <= i < payload.events@.len() ==> same_event(
                #[trigger] payload.events@[i],
                q.events@[i],
            )),
        ServerMessage::EventReceived { payload } => (b matches ServerMessage::EventReceived {
            payload: q,
        } && payload.stream == q.stream && payload.event == q.event && payload.sender == q.sender
            && opt_view(payload.data) == opt_view(q.data)),
        ServerMessage::WatchlistOnline { payload } => (b matches ServerMessage::WatchlistOnline {
            payload: q,
        } && payload.user_ids@ == q.user_ids@),
        ServerMessage::WatchlistOffline { payload } => (b matches ServerMessage::WatchlistOffline {
            payload: q,
        } && payload.user_ids@ == q.user_ids@),
        _ => b == a,
    }
}

fn copy_opt_string(o: &Option<String>) -> (r: Option<String>)
    ensures
        r == *o,
{
    match o {
        Some(s) => Some(s.clone()),
        None => None,
    }
}

fn copy_strings(v: &Vec<String>) -> (r: Vec<String>)
    ensures
        r@ == v@,
{
    let mut r: Vec<String> = Vec::new();
    let mut i: usize = 0;
    while i < v.len()
        invariant
            i <= v@.len(),
            r@ == v@.take(i as int),
        decreases v@.len() - i,
    {
        r.push(v[i].clone());
        assert(v@.take(i + 1) =~= v@.take(i as int).push(v@[i as int]));
        i += 1;
    }
    assert(v@.take(v@.len() as int) =~= v@);
    r
}

fn copy_members(v: &Vec<MemberPresence>) -> (r: Vec<MemberPresence>)
    ensures
        r@ == v@,
{
    let mut r: Vec<MemberPresence> = Vec::new();
    let mut i: usize = 0;
    while i < v.len()
        invariant
            i <= v@.len(),
            r@ == v@.take(i as int),
        decreases v@.len() - i,
    {
        let m = &v[i];
        r.push(MemberPresence { user_id: m.user_id.clone(), role: m.role.clone(), presence: m.presence });
        assert(v@.take(i + 1) =~= v@.take(i as int).push(v@[i as int]));
        i += 1;
    }
    assert(v@.take(v@.len() as int) =~= v@);
    r
}

fn copy_event(p: &EventNewPayload) -> (r: EventNewPayload)
    ensures
        same_event(*p, r),
{
    EventNewPayload {
        stream: p.stream.clone(),
        id: p.id.clone(),
        seq: p.seq,
        sender: p.sender.clone(),
        body: p.body.clone(),
        meta: duplicate_opt(&p.meta),
        parent_id: copy_opt_string(&p.parent_id),
        sent_at: p.sent_at,
    }
}

fn copy_events(v: &Vec<EventNewPayload>) -> (r: Vec<EventNewPayload>)
    ensures
        r@.len() == v@.len(),
        forall|i: int| 0 <= i < v@.len() ==> same_event(#[trigger] v@[i], r@[i]),
{
    let mut r: Vec<EventNewPayload> = Vec::new();
    let mut i: usize = 0;
    while i < v.len()
        invariant
            i <= v@.len(),
            r@.len() == i,
            forall|j: int| 0 <= j < i ==> same_event(#[trigger] v@[j], r@[j]),
        decreases v@.len() - i,
    {
        r.push(copy_event(&v[i]));
        i += 1;
    }
    r
}

impl ServerMessage {
    /// A copy of the frame.
    pub fn copy_frame(&self) -> (r: ServerMessage)
        ensures
            same_frame(*self, r),
    {
        match self {
            ServerMessage::AuthOk { ref_, payload } => ServerMessage::AuthOk {
                ref_: copy_opt_string(ref_),
                payload: AuthOkPayload {
                    user_id: payload.user_id.clone(),
                    connection_id: payload.connection_id,
                    server_time: payload.server_time,
                    heartbeat_interval: payload.heartbeat_interval,
                },
            },
            ServerMessage::AuthError { ref_, payload } => ServerMessage::AuthError {
                ref_: copy_opt_string(ref_),
                payload: ErrorPayload { code: payload.code, message: payload.message.clone() },
            },
            ServerMessage::Subscribed { ref_, payload } => ServerMessage::Subscribed {
                ref_: copy_opt_string(ref_),
                payload: SubscribedPayload {
                    stream: payload.stream.clone(),
                    members: copy_members(&payload.members),
                    cursor: payload.cursor,
                    latest_seq: payload.latest_seq,
                },
            },
            ServerMessage::EventNew { payload } => ServerMessage::EventNew {
                payload: copy_event(payload),
            },
            ServerMessage::EventAck { ref_, payload } => ServerMessage::EventAck {
                ref_: copy_opt_string(ref_),
                payload: EventAckPayload {
                    id: payload.id.clone(),
                    seq: payload.seq,
                    sent_at: payload.sent_at,
                },
            },
            ServerMessage::EventsBatch { ref_, payload } => ServerMessage::EventsBatch {
                ref_: copy_opt_string(ref_),
                payload: EventsBatchPayload {
                    stream: payload.stream.clone(),
                    events: copy_events(&payload.events),
                    has_more: payload.has_more,
                },
            },
            ServerMessage::EventEdited { payload } => ServerMessage::EventEdited {
                payload: EventEditedPayload {
                    stream: payload.stream.clone(),
                    id: payload.id.clone(),
                    seq: payload.seq,
                    body: payload.body.clone(),
                    edited_at: payload.edited_at,
                },
            },
            ServerMessage::EventDeleted { payload } => ServerMessage::EventDeleted {
                payload: EventDeletedPayload {
                    stream: payload.stream.clone(),
                    id: payload.id.clone(),
                    seq: payload.seq,
                },
            },
            ServerMessage::PresenceChanged { payload } => ServerMessage::PresenceChanged {
                payload: PresenceChangedPayload {
                    user_id: payload.user_id.clone(),
                    presence: payload.presence,
                },
            },
            ServerMessage::CursorMoved { payload } => ServerMessage::CursorMoved {
                payload: CursorMovedPayload {
                    stream: payload.stream.clone(),
                    user_id: payload.user_id.clone(),
                    seq: payload.seq,
                },
            },
            ServerMessage::MemberJoined { payload } => ServerMessage::MemberJoined {
                payload: MemberPayload {
                    stream: payload.stream.clone(),
                    user_id: payload.user_id.clone(),
                    role: payload.role.clone(),
                },
            },
            ServerMessage::MemberLeft { payload } => ServerMessage::MemberLeft {
                payload: MemberPayload {
                    stream: payload.stream.clone(),
                    user_id: payload.user_id.clone(),
                    role: payload.role.clone(),
                },
            },
            ServerMessage::StreamUpdated { payload } => ServerMessage::StreamUpdated {
                payload: StreamEventPayload { stream: payload.stream.clone() },
            },
            ServerMessage::StreamDeleted { payload } => ServerMessage::StreamDeleted {
                payload: StreamEventPayload { stream: payload.stream.clone() },
            },
            ServerMessage::TokenExpiring { payload } => ServerMessage::TokenExpiring {
                payload: TokenExpiringPayload { expires_at: payload.expires_at },
            },
            ServerMessage::Typing { payload } => ServerMessage::Typing {
                payload: TypingPayload {
                    stream: payload.stream.clone(),
                    user_id: payload.user_id.clone(),
                    active: payload.active,
                },
            },
            ServerMessage::EventReceived { payload } => ServerMessage::EventReceived {
                payload: EventReceivedPayload {
                    stream: payload.stream.clone(),
                    event: payload.event.clone(),
                    sender: payload.sender.clone(),
                    data: duplicate_opt(&payload.data),
                },
            },
            ServerMessage::WatchlistOnline { payload } => ServerMessage::WatchlistOnline {
                payload: WatchlistPayload { user_ids: copy_strings(&payload.user_ids) },
            },
            ServerMessage::WatchlistOffline { payload } => ServerMessage::WatchlistOffline {
                payload: WatchlistPayload { user_ids: copy_strings(&payload.user_ids) },
            },
            ServerMessage::StreamSubscriberCount { payload } => ServerMessage::StreamSubscriberCount {
                payload: StreamSubscriberCountPayload {
                    stream: payload.stream.clone(),
                    count: payload.count,
                },
            },
            ServerMessage::ReactionChanged { payload } => ServerMessage::ReactionChanged {
                payload: ReactionChangedPayload {
                    stream: payload.stream.clone(),
                    event_id: payload.event_id.clone(),
                    emoji: payload.emoji.clone(),
                    user_id: payload.user_id.clone(),
                    action: payload.action.clone(),
                },
            },
            ServerMessage::Error { ref_, payload } => ServerMessage::Error {
                ref_: copy_opt_string(ref_),
                payload: ErrorPayload { code: payload.code, message: payload.message.clone() },
            },
            ServerMessage::Pong { ref_ } => ServerMessage::Pong { ref_: copy_opt_string(ref_) },
        }
    }
}

} // verus!
