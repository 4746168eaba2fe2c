//! The event endpoints of the tenant API: publishing an event into a stream, and listing
//! a stream's events a page at a time.
use vstd::prelude::*;
use vstd::string::*;
use crate::http::{Refusal, refuse, refused};
use crate::http::validation::{
    validate_id, validate_body, validate_meta, validate_attachments, id_refusal, body_refusal,
    meta_refusal, attachments_refusal,
};
use crate::json::{JsonValue, opt_view, duplicate_opt};
use crate::metering::QuotaResult;
use crate::protocol::{ServerMessage, EventNewPayload, EventEditedPayload, EventDeletedPayload, EventReceivedPayload};
use crate::chat::ws_handler::Fetched;
use crate::registry::presence::opt_text;
use crate::text::copy_str;
use crate::fanout::StreamBroadcast;
use crate::registry::connection::ConnId;
use crate::registry::stream::{StreamRegistry, updated};

verus! {

broadcast use vstd::string::group_string_axioms;

/// How long a published event is kept: 7 days, in milliseconds.
pub const EVENT_TTL_MS: i64 = 604_800_000;

/// Most events in one page.
pub const MAX_LIMIT: u32 = 100;

/// The body of `POST /streams/{id}/events`.
pub struct InjectEventRequest {
    pub sender: String,
    pub body: String,
    pub meta: Option<JsonValue>,
    pub exclude_connection: Option<u64>,
    pub parent_id: Option<String>,
}

/// The query of `GET /streams/{id}/events`.
pub struct ListEventsQuery {
    pub before: Option<u64>,
    pub after: Option<u64>,
    pub limit: Option<u32>,
    pub thread: Option<String>,
}

/// The body of `PATCH /streams/{id}/events/{event_id}`.
pub struct EditEventRequest {
    pub body: String,
}

/// Why a publish request is refused before anything is stored, if it is: the sender,
/// body, `meta` (by the size of its serialized text `meta_json`) and attachments are
/// validated in turn, then the stream must exist and not be archived.
pub open spec fn inject_refusal(
    req: InjectEventRequest,
    meta_json: Option<Seq<char>>,
    stream_exists: bool,
    archived: bool,
) -> Option<(u16, Seq<char>)> {
    if id_refusal(req.sender@, "sender"@) is Some {
        id_refusal(req.sender@, "sender"@)
    } else if body_refusal(req.body@) is Some {
        body_refusal(req.body@)
    } else if meta_refusal(meta_json) is Some {
        meta_refusal(meta_json)
    } else if attachments_refusal(req.meta) is Some {
        attachments_refusal(req.meta)
    } else if !stream_exists {
        Some((404u16, "stream not found"@))
    } else if archived {
        Some((400u16, "stream is archived"@))
    } else {
        None
    }
}

/// The checks of a publish request, before the quota.
pub fn check_inject(req: &InjectEventRequest, meta_json: Option<&str>, stream_exists: bool, archived: bool) -> (r:
    Result<(), Refusal>)
    ensures
        refused(r) == inject_refusal(
            *req,
            match meta_json {
                Some(t) => Some(t@),
                None => None,
            },
            stream_exists,
            archived,
        ),
{
    validate_id(req.sender.as_str(), "sender")?;
    validate_body(req.body.as_str())?;
    validate_meta(meta_json)?;
    validate_attachments(&req.meta)?;
    if !stream_exists {
        return Err(refuse(404, "stream not found"));
    }
    if archived {
        return Err(refuse(400, "stream is archived"));
    }
    Ok(())
}

/// The refusal of a publish by the quota answer, if any: 429 when the quota is exceeded.
pub open spec fn quota_refusal(quota: Option<QuotaResult>) -> Option<(u16, Seq<char>)> {
    match quota {
        Some(q) => if !q.allowed {
            Some((429u16, "event quota exceeded"@))
        } else {
            None
        },
        None => None,
    }
}

/// The warning that goes with an allowed publish: the overage message of a soft-cap
/// overage, none otherwise.
pub open spec fn quota_warning(quota: Option<QuotaResult>) -> Option<Seq<char>> {
    match quota {
        Some(q) => if q.allowed && q.soft_overage {
            Some(
                "usage "@ + crate::text::decimal(
                    match q.current_usage {
                        Some(n) => n as nat,
                        None => 0,
                    },
                ) + " of "@ + crate::text::decimal(
                    match q.limit {
                        Some(n) => n as nat,
                        None => 0,
                    },
                ) + " (soft cap)"@,
            )
        } else {
            None
        },
        None => None,
    }
}

/// The quota gate of a publish: with metering (`quota` is its answer), an exceeded quota
/// refuses with 429, and a soft-cap overage lets the event through with a warning.
pub fn quota_gate(quota: Option<&QuotaResult>) -> (r: Result<Option<String>, Refusal>)
    ensures
        refused(r) == quota_refusal(
            match quota {
                Some(q) => Some(*q),
                None => None,
            },
        ),
        r matches Ok(w) ==> opt_text(w) == quota_warning(
            match quota {
                Some(q) => Some(*q),
                None => None,
            },
        ),
{
    match quota {
        None => Ok(None),
        Some(q) => {
            if !q.allowed {
                return Err(refuse(429, "event quota exceeded"));
            }
            if q.soft_overage {
                Ok(Some(q.overage_warning()))
            } else {
                Ok(None)
            }
        },
    }
}

/// When an event stored at `now` expires.
pub fn event_expiry(now_ms: i64) -> (t: i64)
    requires
        now_ms <= i64::MAX - EVENT_TTL_MS,
    ensures
        t == now_ms + EVENT_TTL_MS,
{
    now_ms + EVENT_TTL_MS
}

/// The `event.new` frame of a published event.
pub fn new_event_frame(stream: &str, id: &str, seq: u64, req: &InjectEventRequest, now_ms: i64) -> (m:
    ServerMessage)
    ensures
        m matches ServerMessage::EventNew { payload } && payload.stream@ == stream@ && payload.id@
            == id@ && payload.seq == seq && payload.sender@ == req.sender@ && payload.body@
            == req.body@ && opt_view(payload.meta) == opt_view(req.meta) && opt_text(
            payload.parent_id,
        ) == opt_text(req.parent_id) && payload.sent_at == now_ms,
{
    let parent_id = match &req.parent_id {
        Some(p) => Some(copy_str(p.as_str())),
        None => None,
    };
    ServerMessage::EventNew {
        payload: EventNewPayload {
            stream: copy_str(stream),
            id: copy_str(id),
            seq,
            sender: copy_str(req.sender.as_str()),
            body: copy_str(req.body.as_str()),
            meta: duplicate_opt(&req.meta),
            parent_id,
            sent_at: now_ms,
        },
    }
}

/// Whether `m` is the `event.new` frame of the stored event `e`.
pub open spec fn is_event_frame_of(m: ServerMessage, e: StoredEvent) -> bool {
    m matches ServerMessage::EventNew { payload } && payload.stream@ == e.stream_id@ && payload.id@
        == e.id@ && payload.seq == e.seq && payload.sender@ == e.sender@ && payload.body@
        == e.body@ && opt_view(payload.meta) == opt_view(e.meta) && opt_text(payload.parent_id)
        == opt_text(e.parent_id) && payload.sent_at == e.sent_at
}

/// The `event.new` frame of a stored event.
pub fn stored_event_frame(e: &StoredEvent) -> (m: ServerMessage)
    ensures
        is_event_frame_of(m, *e),
{
    let parent_id = match &e.parent_id {
        Some(p) => Some(copy_str(p.as_str())),
        None => None,
    };
    ServerMessage::EventNew {
        payload: EventNewPayload {
            stream: copy_str(e.stream_id.as_str()),
            id: copy_str(e.id.as_str()),
            seq: e.seq,
            sender: copy_str(e.sender.as_str()),
            body: copy_str(e.body.as_str()),
            meta: duplicate_opt(&e.meta),
            parent_id,
            sent_at: e.sent_at,
        },
    }
}

/// An accepted publish: the event to store, when it expires, and the overage warning to
/// answer with, if any.
pub struct Publication {
    pub event: StoredEvent,
    pub expires_at_ms: i64,
    pub warning: Option<String>,
}

/// The checks of a publish of `req` into `stream_id` of `tenant_id`, before the quota
/// (`meta_json` is the serialized text of `req.meta`): the request, then the stream,
/// which must exist and not be archived. The registry is left as it was.
pub fn check_publish(
    streams: &mut StreamRegistry,
    tenant_id: &str,
    stream_id: &str,
    req: &InjectEventRequest,
    meta_json: Option<&str>,
) -> (r: Result<(), Refusal>)
    requires
        old(streams).wf(),
    ensures
        final(streams).wf(),
        final(streams).streams() == old(streams).streams(),
        refused(r) == inject_refusal(
            *req,
            match meta_json {
                Some(t) => Some(t@),
                None => None,
            },
            old(streams).streams().contains_key((tenant_id@, stream_id@)),
            old(streams).streams().contains_key((tenant_id@, stream_id@)) && old(
                streams,
            ).streams()[(tenant_id@, stream_id@)].archived,
        ),
{
    let exists = streams.stream_exists(tenant_id, stream_id);
    let archived = streams.is_archived(tenant_id, stream_id);
    check_inject(req, meta_json, exists, archived)
}

/// Accepts a checked publish at `now` given the quota answer (`None` without metering):
/// a refused one leaves the registry as it was; an accepted one takes the stream's next
/// sequence number (1 for a stream that is gone) and gives the event `event_id` to store.
pub fn accept_publish(
    streams: &mut StreamRegistry,
    tenant_id: &str,
    stream_id: &str,
    req: &InjectEventRequest,
    quota: Option<&QuotaResult>,
    event_id: &str,
    now_ms: i64,
) -> (r: Result<Publication, Refusal>)
    requires
        old(streams).wf(),
        old(streams).streams().contains_key((tenant_id@, stream_id@)) ==> old(
            streams,
        ).streams()[(tenant_id@, stream_id@)].sequence < u64::MAX,
        now_ms <= i64::MAX - EVENT_TTL_MS,
    ensures
        final(streams).wf(),
        ({
            let q = match quota {
                Some(q) => Some(*q),
                None => None,
            };
            &&& refused(r) == quota_refusal(q)
            &&& r is Err ==> final(streams).streams() == old(streams).streams()
            &&& r matches Ok(p) ==> {
                &&& opt_text(p.warning) == quota_warning(q)
                &&& p.event.id@ == event_id@
                &&& p.event.stream_id@ == stream_id@
                &&& p.event.sender@ == req.sender@
                &&& p.event.body@ == req.body@
                &&& opt_view(p.event.meta) == opt_view(req.meta)
                &&& opt_text(p.event.parent_id) == opt_text(req.parent_id)
                &&& p.event.edited_at is None
                &&& p.event.sent_at == now_ms
                &&& p.expires_at_ms == now_ms + EVENT_TTL_MS
                &&& updated(old(streams).streams(), final(streams).streams(), (tenant_id@, stream_id@))
                &&& if old(streams).streams().contains_key((tenant_id@, stream_id@)) {
                    let a = old(streams).streams()[(tenant_id@, stream_id@)];
                    let b = final(streams).streams()[(tenant_id@, stream_id@)];
                    &&& p.event.seq == a.sequence + 1
                    &&& b.sequence == p.event.seq
                    &&& b.members_of() == a.members_of()
                    &&& b.subs_of() == a.subs_of()
                    &&& b.archived == a.archived
                    &&& b.public == a.public
                    &&& b.last_event == a.last_event
                } else {
                    p.event.seq == 1
                }
            }
        }),
{
    let warning = match quota_gate(quota) {
        Ok(w) => w,
        Err(e) => {
            return Err(e);
        },
    };
    let seq = streams.next_seq(tenant_id, stream_id);
    let parent_id = match &req.parent_id {
        Some(p) => Some(copy_str(p.as_str())),
        None => None,
    };
    let event = StoredEvent {
        id: copy_str(event_id),
        stream_id: copy_str(stream_id),
        seq,
        sender: copy_str(req.sender.as_str()),
        body: copy_str(req.body.as_str()),
        meta: duplicate_opt(&req.meta),
        parent_id,
        edited_at: None,
        sent_at: now_ms,
    };
    Ok(Publication { event, expires_at_ms: event_expiry(now_ms), warning })
}

/// The connection a publish asks to leave out of its fan-out.
pub open spec fn excluded_conn(exclude_connection: Option<u64>) -> Option<ConnId> {
    match exclude_connection {
        Some(c) => Some(ConnId(c)),
        None => None,
    }
}

/// After the event of `p` is stored: caches its frame as the stream's last event and
/// gives the fan-out to the stream's subscribers, leaving out the connection the request
/// names and filtered by the sender.
pub fn deliver_publication(
    streams: &mut StreamRegistry,
    tenant_id: &str,
    stream_id: &str,
    p: &Publication,
    exclude_connection: Option<u64>,
) -> (b: StreamBroadcast)
    requires
        old(streams).wf(),
    ensures
        final(streams).wf(),
        updated(old(streams).streams(), final(streams).streams(), (tenant_id@, stream_id@)),
        old(streams).streams().contains_key((tenant_id@, stream_id@)) ==> {
            let a = old(streams).streams()[(tenant_id@, stream_id@)];
            let c = final(streams).streams()[(tenant_id@, stream_id@)];
            &&& c.last_event matches Some(m) && is_event_frame_of(m, p.event)
            &&& c.members_of() == a.members_of()
            &&& c.subs_of() == a.subs_of()
            &&& c.sequence == a.sequence
            &&& c.archived == a.archived
            &&& c.public == a.public
        },
        b.tenant_id@ == tenant_id@,
        b.stream_id@ == stream_id@,
        is_event_frame_of(b.message, p.event),
        b.exclude == excluded_conn(exclude_connection),
        b.sender matches Some(s) && s@ == p.event.sender@,
{
    streams.set_last_event(tenant_id, stream_id, stored_event_frame(&p.event));
    let exclude = match exclude_connection {
        Some(c) => Some(ConnId(c)),
        None => None,
    };
    StreamBroadcast {
        tenant_id: copy_str(tenant_id),
        stream_id: copy_str(stream_id),
        message: stored_event_frame(&p.event),
        exclude,
        sender: Some(copy_str(p.event.sender.as_str())),
    }
}

/// The body of `POST /streams/{id}/trigger`: an ephemeral event, not stored.
pub struct TriggerEphemeralRequest {
    pub event: String,
    pub data: Option<JsonValue>,
    pub exclude_connection: Option<u64>,
}

/// The check of an edit over HTTP: the new body must be valid.
pub fn check_edit(req: &EditEventRequest) -> (r: Result<(), Refusal>)
    ensures
        refused(r) == body_refusal(req.body@),
{
    validate_body(req.body.as_str())
}

/// The answer to an edit of `event_id` in `stream_id` at `now`, given what the store's
/// edit gave (`Found` with the event's sequence number): 200 and an `event.edited`
/// frame for the stream's subscribers; 404 when the event is not found; 500 when the
/// store failed.
pub fn finish_edit(
    tenant_id: &str,
    stream_id: &str,
    event_id: &str,
    req: &EditEventRequest,
    outcome: Fetched<u64>,
    now_ms: i64,
) -> (r: Result<(u16, StreamBroadcast), Refusal>)
    ensures
        match outcome {
            Fetched::Found(seq) => r matches Ok((status, b)) && status == 200 && b.tenant_id@
                == tenant_id@ && b.stream_id@ == stream_id@ && b.exclude is None && b.sender is None
                && (b.message matches ServerMessage::EventEdited { payload } && payload.stream@
                == stream_id@ && payload.id@ == event_id@ && payload.seq == seq && payload.body@
                == req.body@ && payload.edited_at == now_ms),
            Fetched::Missing => refused(r) == Some((404u16, "event not found"@)),
            Fetched::Failed => refused(r) == Some((500u16, "internal error"@)),
        },
{
    match outcome {
        Fetched::Found(seq) => {
            let message = ServerMessage::EventEdited {
                payload: EventEditedPayload {
                    stream: copy_str(stream_id),
                    id: copy_str(event_id),
                    seq,
                    body: copy_str(req.body.as_str()),
                    edited_at: now_ms,
                },
            };
            Ok(
                (
                    200,
                    StreamBroadcast {
                        tenant_id: copy_str(tenant_id),
                        stream_id: copy_str(stream_id),
                        message,
                        exclude: None,
                        sender: None,
                    },
                ),
            )
        },
        Fetched::Missing => Err(refuse(404, "event not found")),
        Fetched::Failed => Err(refuse(500, "internal error")),
    }
}

/// The answer to a deletion of `event_id` in `stream_id`, given what the store's
/// deletion gave (`Found` with the event's sequence number): 204 and an
/// `event.deleted` frame for the stream's subscribers; 404 when the event is not found;
/// 500 when the store failed.
pub fn finish_delete(tenant_id: &str, stream_id: &str, event_id: &str, outcome: Fetched<u64>) -> (r:
    Result<(u16, StreamBroadcast), Refusal>)
    ensures
        match outcome {
            Fetched::Found(seq) => r matches Ok((status, b)) && status == 204 && b.tenant_id@
                == tenant_id@ && b.stream_id@ == stream_id@ && b.exclude is None && b.sender is None
                && (b.message matches ServerMessage::EventDeleted { payload } && payload.stream@
                == stream_id@ && payload.id@ == event_id@ && payload.seq == seq),
            Fetched::Missing => refused(r) == Some((404u16, "event not found"@)),
            Fetched::Failed => refused(r) == Some((500u16, "internal error"@)),
        },
{
    match outcome {
        Fetched::Found(seq) => {
            let message = ServerMessage::EventDeleted {
                payload: EventDeletedPayload {
                    stream: copy_str(stream_id),
                    id: copy_str(event_id),
                    seq,
                },
            };
            Ok(
                (
                    204,
                    StreamBroadcast {
                        tenant_id: copy_str(tenant_id),
                        stream_id: copy_str(stream_id),
                        message,
                        exclude: None,
                        sender: None,
                    },
                ),
            )
        },
        Fetched::Missing => Err(refuse(404, "event not found")),
        Fetched::Failed => Err(refuse(500, "internal error")),
    }
}

/// The answer to an ephemeral event for `stream_id`: 404 when the stream does not exist;
/// otherwise 204 and an `event.received` frame from `_server` for the stream's
/// subscribers, leaving out the connection the request names.
pub fn trigger_ephemeral(
    tenant_id: &str,
    stream_id: &str,
    req: &TriggerEphemeralRequest,
    stream_exists: bool,
) -> (r: Result<(u16, StreamBroadcast), Refusal>)
    ensures
        !stream_exists ==> refused(r) == Some((404u16, "stream not found"@)),
        stream_exists ==> (r matches Ok((status, b)) && status == 204 && b.tenant_id@ == tenant_id@
            && b.stream_id@ == stream_id@ && b.exclude == excluded_conn(req.exclude_connection)
            && b.sender is None && (b.message matches ServerMessage::EventReceived { payload }
            && payload.stream@ == stream_id@ && payload.event@ == req.event@ && payload.sender@
            == "_server"@ && opt_view(payload.data) == opt_view(req.data))),
{
    if !stream_exists {
        return Err(refuse(404, "stream not found"));
    }
    let exclude = match req.exclude_connection {
        Some(c) => Some(ConnId(c)),
        None => None,
    };
    let message = ServerMessage::EventReceived {
        payload: EventReceivedPayload {
            stream: copy_str(stream_id),
            event: copy_str(req.event.as_str()),
            sender: String::from_str("_server"),
            data: duplicate_opt(&req.data),
        },
    };
    Ok(
        (
            204,
            StreamBroadcast {
                tenant_id: copy_str(tenant_id),
                stream_id: copy_str(stream_id),
                message,
                exclude,
                sender: None,
            },
        ),
    )
}

/// The page size of a listing: 50 unless asked, at most 100.
pub fn page_limit(q: &ListEventsQuery) -> (n: u32)
    ensures
        n == match q.limit {
            Some(l) => if l < MAX_LIMIT {
                l
            } else {
                MAX_LIMIT
            },
            None => 50,
        },
{
    match q.limit {
        Some(l) => if l < MAX_LIMIT {
            l
        } else {
            MAX_LIMIT
        },
        None => 50,
    }
}

/// A stored event, as listed.
pub struct StoredEvent {
    pub id: String,
    pub stream_id: String,
    pub seq: u64,
    pub sender: String,
    pub body: String,
    pub meta: Option<JsonValue>,
    pub parent_id: Option<String>,
    pub edited_at: Option<i64>,
    pub sent_at: i64,
}

/// Whether an event belongs to the thread asked for (every event, when none is).
pub open spec fn in_thread(e: StoredEvent, thread: Option<Seq<char>>) -> bool {
    match thread {
        Some(t) => opt_text(e.parent_id) == Some(t),
        None => true,
    }
}

/// One page of a listing: the store was asked for `limit + 1` events; those of the
/// thread asked for are kept, the first `limit` are the page, and `has_more` tells
/// whether there were more.
pub fn page_of_events(events: Vec<StoredEvent>, thread: &Option<String>, limit: u32) -> (r: (
    Vec<StoredEvent>,
    bool,
))
    ensures
        ({
            let kept = events@.filter(|e: StoredEvent| in_thread(e, opt_text(*thread)));
            &&& r.1 == (kept.len() > limit)
            &&& r.0@ == kept.take(if kept.len() > limit {
                limit as int
            } else {
                kept.len() as int
            })
        }),
{
    let ghost f = |e: StoredEvent| in_thread(e, opt_text(*thread));
    let ghost all = events@;
    let mut kept: Vec<StoredEvent> = Vec::new();
    let mut rest = events;
    let n = rest.len();
    let mut i: usize = 0;
    assert(all.skip(0) =~= all);
    assert(all.take(0) =~= Seq::<StoredEvent>::empty());
    while rest.len() > 0
        invariant
            all.len() == n,
            i <= n,
            rest@ == all.skip(i as int),
            kept@ == all.take(i as int).filter(f),
            forall|e: StoredEvent| #[trigger] f(e) == in_thread(e, opt_text(*thread)),
        decreases rest@.len(),
    {
        let e = rest.remove(0);
        proof {
            assert(all.skip(i as int).remove(0) =~= all.skip(i + 1));
            assert(e == all[i as int]);
            assert(all.take(i + 1) =~= all.take(i as int).push(e));
            all.take(i as int).lemma_filter_push(e, f);
        }
        let keep = match thread {
            Some(t) => match &e.parent_id {
                Some(p) => crate::text::str_eq(p.as_str(), t.as_str()),
                None => false,
            },
            None => true,
        };
        if keep {
            kept.push(e);
        }
        i += 1;
    }
    assert(all.take(n as int) =~= all);
    let has_more = kept.len() > limit as usize;
    if has_more {
        let _ = kept.split_off(limit as usize);
    }
    proof {
        let k = all.filter(f);
        if !has_more {
            assert(k.take(k.len() as int) =~= k);
        }
    }
    (kept, has_more)
}

} // verus!
