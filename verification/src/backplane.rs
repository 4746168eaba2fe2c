//! Cross-instance fan-out. With clustering on, every instance hears of each write to the
//! shared event store; an event written by another instance is read back and fanned out
//! to this instance's subscribers of its stream.
//!
//! The subscription and the store reads are made by the caller; [`backplane_step`]
//! decides what one notification leads to.
use vstd::prelude::*;
use vstd::string::*;
use crate::chat::ws_handler::Fetched;
use crate::fanout::StreamBroadcast;
use crate::http::events::{StoredEvent, is_event_frame_of, stored_event_frame};
use crate::protocol::ServerMessage;
use crate::text::copy_str;

verus! {

broadcast use vstd::string::group_string_axioms;

/// What one store notification leads to.
pub enum BackplaneAction {
    /// Nothing.
    Skip,
    /// Fan the event out to this instance's subscribers, and cache `cached` as the
    /// stream's last event for late subscribers.
    Fanout { broadcast: StreamBroadcast, cached: ServerMessage },
}

/// Whether a notification leads to a fan-out: it is a put, its key names an event
/// (`(tenant, stream, seq)`), the write was not this instance's own, the event could be
/// read back, and this instance has subscribers to the stream.
pub open spec fn backplane_fans_out(
    is_put: bool,
    key: Option<(String, String, u64)>,
    local_write: bool,
    fetched: Fetched<StoredEvent>,
    local_subscribers: usize,
) -> bool {
    &&& is_put
    &&& key is Some
    &&& !local_write
    &&& fetched is Found
    &&& local_subscribers > 0
}

/// The decision on one notification of the shared event store, given what was learnt of
/// it in turn: whether it is a put (`is_put`), the `(tenant, stream, seq)` its key
/// names, if any (`key`), whether this instance made the write (`local_write`), what
/// reading the event back gave (`fetched`), and how many local connections subscribe to
/// the stream. A fan-out sends the event's `event.new` frame to the stream of that
/// tenant, leaving out the subscribers who block its sender.
pub fn backplane_step(
    is_put: bool,
    key: Option<(String, String, u64)>,
    local_write: bool,
    fetched: Fetched<StoredEvent>,
    local_subscribers: usize,
) -> (a: BackplaneAction)
    ensures
        !backplane_fans_out(is_put, key, local_write, fetched, local_subscribers) ==> a is Skip,
        backplane_fans_out(is_put, key, local_write, fetched, local_subscribers) ==> (
        a matches BackplaneAction::Fanout { broadcast, cached } && (match (key, fetched) {
            (Some((t, st, _)), Fetched::Found(e)) => {
                &&& broadcast.tenant_id@ == t@
                &&& broadcast.stream_id@ == st@
                &&& is_event_frame_of(broadcast.message, e)
                &&& broadcast.exclude is None
                &&& broadcast.sender matches Some(s) && s@ == e.sender@
                &&& is_event_frame_of(cached, e)
            },
            _ => false,
        })),
{
    if !is_put {
        return BackplaneAction::Skip;
    }
    let (tenant_id, stream_id) = match key {
        Some((t, s, _)) => (t, s),
        None => {
            return BackplaneAction::Skip;
        },
    };
    if local_write {
        return BackplaneAction::Skip;
    }
    let e = match fetched {
        Fetched::Found(e) => e,
        _ => {
            return BackplaneAction::Skip;
        },
    };
    if local_subscribers == 0 {
        return BackplaneAction::Skip;
    }
    let cached = stored_event_frame(&e);
    BackplaneAction::Fanout {
        broadcast: StreamBroadcast {
            tenant_id,
            stream_id,
            message: stored_event_frame(&e),
            exclude: None,
            sender: Some(copy_str(e.sender.as_str())),
        },
        cached,
    }
}

} // verus!
