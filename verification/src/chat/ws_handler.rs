//! The decisions of the chat WebSocket handlers: editing and deleting events, reactions,
//! cursors, manual presence and typing.
//!
//! A request that needs the store or the authorizer runs as a small state machine: the
//! handler starts it, performs each action it asks for (a lookup, an authorization, the
//! change itself) and hands the outcome back, until the machine answers with the frames
//! to send.
use vstd::prelude::*;
use vstd::string::*;
use crate::error::ErrorCode;
use crate::presence::PresenceStatus;
use crate::protocol::{
    ServerMessage, EventAckPayload, EventEditedPayload, EventDeletedPayload,
    ReactionChangedPayload, CursorMovedPayload, PresenceChangedPayload,
};
use crate::fanout::StreamBroadcast;
use crate::registry::connection::ConnId;
use crate::registry::presence::opt_text;
use crate::registry::typing::{TypingTracker, typing_key};
use crate::text::{copy_str, chars_of, utf8_len, utf8_range_longer_than};

verus! {

broadcast use vstd::string::group_string_axioms;

/// Longest event body accepted over the socket, in bytes.
pub const MAX_WS_BODY_LEN: usize = 65_536;

/// Longest emoji accepted, in bytes.
pub const MAX_EMOJI_LEN: usize = 32;

/// What a store lookup gave.
pub enum Fetched<T> {
    Found(T),
    Missing,
    Failed,
}

/// Whether `m` is an `error` frame answering `r` with `code` and `msg`.
pub open spec fn is_error_frame(m: ServerMessage, r: Option<Seq<char>>, code: ErrorCode, msg: Seq<char>) -> bool {
    m matches ServerMessage::Error { ref_, payload } && opt_text(ref_) == r && payload.code == code
        && payload.message@ == msg
}

/// Whether `m` is an `event.ack` frame answering `r`.
pub open spec fn is_ack_frame(m: ServerMessage, r: Option<Seq<char>>, id: Seq<char>, seq: u64, sent_at: i64) -> bool {
    m matches ServerMessage::EventAck { ref_, payload } && opt_text(ref_) == r && payload.id@ == id
        && payload.seq == seq && payload.sent_at == sent_at
}

fn copy_opt(s: &Option<String>) -> (r: Option<String>)
    ensures
        opt_text(r) == opt_text(*s),
{
    match s {
        Some(s) => Some(copy_str(s.as_str())),
        None => None,
    }
}

fn error_frame(r: &Option<String>, code: ErrorCode, msg: &str) -> (m: ServerMessage)
    ensures
        is_error_frame(m, opt_text(*r), code, msg@),
{
    ServerMessage::error(copy_opt(r), code, msg)
}

// ---------------------------------------------------------------------------
// Editing and deleting events
// ---------------------------------------------------------------------------
/// The change requested on a stored event.
pub enum EventChange {
    Edit { body: String },
    Delete,
}

/// Where an edit or delete stands.
#[derive(Debug, Clone, Copy, PartialEq, Eq, Structural)]
pub enum ChangeStage {
    /// Waiting for the event's lookup.
    LookUp,
    /// Waiting for the authorizer's verdict.
    Authorize,
    /// Waiting for the store's change.
    Apply,
    /// Answered.
    Done,
}

/// What the handler is to do next.
pub enum ChangeAction {
    /// Send this frame to the requester; the request is answered.
    Reply(ServerMessage),
    /// Look the event up by id, for its sender.
    LookUp,
    /// Ask whether the user may perform this action (`event.edit`, `event.delete`) on
    /// someone else's event in the stream.
    Authorize(String),
    /// Apply the change in the store.
    Apply,
    /// Fan `broadcast` out to the stream and send `ack` to the requester; answered.
    Broadcast { broadcast: ServerMessage, ack: ServerMessage },
}

/// An edit or delete of an event, from a WebSocket request.
pub struct EventChangeFlow {
    ref_: Option<String>,
    stream: String,
    id: String,
    user_id: String,
    change: EventChange,
    stage: ChangeStage,
}

/// The authorization action of a change.
pub open spec fn change_action_name(c: EventChange) -> Seq<char> {
    match c {
        EventChange::Edit { .. } => "event.edit"@,
        EventChange::Delete => "event.delete"@,
    }
}

/// Whether `a` answers `r` with the error `code`, `msg`.
pub open spec fn replies_error(a: ChangeAction, r: Option<Seq<char>>, code: ErrorCode, msg: Seq<char>) -> bool {
    a matches ChangeAction::Reply(m) && is_error_frame(m, r, code, msg)
}

impl EventChangeFlow {
    pub closed spec fn spec_ref(&self) -> Option<Seq<char>> {
        opt_text(self.ref_)
    }

    pub closed spec fn spec_stream(&self) -> Seq<char> {
        self.stream@
    }

    pub closed spec fn spec_id(&self) -> Seq<char> {
        self.id@
    }

    pub closed spec fn spec_user(&self) -> Seq<char> {
        self.user_id@
    }

    pub closed spec fn spec_change(&self) -> EventChange {
        self.change
    }

    pub closed spec fn spec_stage(&self) -> ChangeStage {
        self.stage
    }

    /// Starts an edit or delete of event `id` in `stream` by `user_id`, who is
    /// (`is_member`) or is not a member of the stream. An edit's body is checked first.
    pub fn start(
        ref_: Option<String>,
        stream: String,
        id: String,
        user_id: String,
        change: EventChange,
        is_member: bool,
    ) -> (r: (EventChangeFlow, ChangeAction))
        ensures
            r.0.spec_ref() == opt_text(ref_),
            r.0.spec_stream() == stream@,
            r.0.spec_id() == id@,
            r.0.spec_user() == user_id@,
            r.0.spec_change() == change,
            (change matches EventChange::Edit { body } && utf8_len(body@) > MAX_WS_BODY_LEN)
                ==> replies_error(
                r.1,
                opt_text(ref_),
                ErrorCode::BadRequest,
                "event body exceeds maximum length"@,
            ) && r.0.spec_stage() == ChangeStage::Done,
            !(change matches EventChange::Edit { body } && utf8_len(body@) > MAX_WS_BODY_LEN)
                && !is_member ==> replies_error(
                r.1,
                opt_text(ref_),
                ErrorCode::NotSubscribed,
                "not a member of this stream"@,
            ) && r.0.spec_stage() == ChangeStage::Done,
            !(change matches EventChange::Edit { body } && utf8_len(body@) > MAX_WS_BODY_LEN)
                && is_member ==> r.1 is LookUp && r.0.spec_stage() == ChangeStage::LookUp,
    {
        let too_long = match &change {
            EventChange::Edit { body } => {
                let v = chars_of(body.as_str());
                assert(v@.subrange(0, v@.len() as int) =~= v@);
                utf8_range_longer_than(&v, 0, v.len(), MAX_WS_BODY_LEN)
            },
            EventChange::Delete => false,
        };
        let mut flow = EventChangeFlow {
            ref_,
            stream,
            id,
            user_id,
            change,
            stage: ChangeStage::Done,
        };
        if too_long {
            let m = error_frame(&flow.ref_, ErrorCode::BadRequest, "event body exceeds maximum length");
            return (flow, ChangeAction::Reply(m));
        }
        if !is_member {
            let m = error_frame(&flow.ref_, ErrorCode::NotSubscribed, "not a member of this stream");
            return (flow, ChangeAction::Reply(m));
        }
        flow.stage = ChangeStage::LookUp;
        (flow, ChangeAction::LookUp)
    }

    /// Continues with the event's lookup: its sender, if found. The sender may change
    /// their own event; anyone else needs the authorizer's leave.
    pub fn on_lookup(&mut self, sender: Fetched<String>) -> (a: ChangeAction)
        requires
            old(self).spec_stage() == ChangeStage::LookUp,
        ensures
            final(self).spec_ref() == old(self).spec_ref(),
            final(self).spec_stream() == old(self).spec_stream(),
            final(self).spec_id() == old(self).spec_id(),
            final(self).spec_user() == old(self).spec_user(),
            final(self).spec_change() == old(self).spec_change(),
            match sender {
                Fetched::Found(s) => if s@ == old(self).spec_user() {
                    a is Apply && final(self).spec_stage() == ChangeStage::Apply
                } else {
                    a matches ChangeAction::Authorize(act) && act@ == change_action_name(
                        old(self).spec_change(),
                    ) && final(self).spec_stage() == ChangeStage::Authorize
                },
                Fetched::Missing => replies_error(
                    a,
                    old(self).spec_ref(),
                    ErrorCode::BadRequest,
                    "event not found"@,
                ) && final(self).spec_stage() == ChangeStage::Done,
                Fetched::Failed => replies_error(
                    a,
                    old(self).spec_ref(),
                    ErrorCode::Internal,
                    "internal error"@,
                ) && final(self).spec_stage() == ChangeStage::Done,
            },
    {
        match sender {
            Fetched::Found(s) => {
                if crate::text::str_eq(s.as_str(), self.user_id.as_str()) {
                    self.stage = ChangeStage::Apply;
                    ChangeAction::Apply
                } else {
                    self.stage = ChangeStage::Authorize;
                    let act = match &self.change {
                        EventChange::Edit { .. } => String::from_str("event.edit"),
                        EventChange::Delete => String::from_str("event.delete"),
                    };
                    ChangeAction::Authorize(act)
                }
            },
            Fetched::Missing => {
                self.stage = ChangeStage::Done;
                ChangeAction::Reply(error_frame(&self.ref_, ErrorCode::BadRequest, "event not found"))
            },
            Fetched::Failed => {
                self.stage = ChangeStage::Done;
                ChangeAction::Reply(error_frame(&self.ref_, ErrorCode::Internal, "internal error"))
            },
        }
    }

    /// Continues with the authorizer's verdict; a refusal is sent back as `UNAUTHORIZED`
    /// with the authorizer's message.
    pub fn on_authorization(&mut self, verdict: Result<(), String>) -> (a: ChangeAction)
        requires
            old(self).spec_stage() == ChangeStage::Authorize,
        ensures
            final(self).spec_ref() == old(self).spec_ref(),
            final(self).spec_stream() == old(self).spec_stream(),
            final(self).spec_id() == old(self).spec_id(),
            final(self).spec_user() == old(self).spec_user(),
            final(self).spec_change() == old(self).spec_change(),
            match verdict {
                Ok(()) => a is Apply && final(self).spec_stage() == ChangeStage::Apply,
                Err(msg) => replies_error(a, old(self).spec_ref(), ErrorCode::Unauthorized, msg@)
                    && final(self).spec_stage() == ChangeStage::Done,
            },
    {
        match verdict {
            Ok(()) => {
                self.stage = ChangeStage::Apply;
                ChangeAction::Apply
            },
            Err(msg) => {
                self.stage = ChangeStage::Done;
                ChangeAction::Reply(
                    ServerMessage::error(copy_opt(&self.ref_), ErrorCode::Unauthorized, msg.as_str()),
                )
            },
        }
    }

    /// Finishes with the store's change at `now`: the sequence number of the changed
    /// event if it was found. An edit is broadcast as `event.edited` (edited at `now`),
    /// a delete as `event.deleted`; the requester gets an `event.ack` sent at `now`.
    pub fn on_applied(&mut self, outcome: Fetched<u64>, now_ms: i64) -> (a: ChangeAction)
        requires
            old(self).spec_stage() == ChangeStage::Apply,
        ensures
            final(self).spec_stage() == ChangeStage::Done,
            match outcome {
                Fetched::Found(seq) => a matches ChangeAction::Broadcast { broadcast, ack }
                    && is_ack_frame(ack, old(self).spec_ref(), old(self).spec_id(), seq, now_ms)
                    && match old(self).spec_change() {
                    EventChange::Edit { body } => broadcast matches ServerMessage::EventEdited {
                        payload,
                    } && payload.stream@ == old(self).spec_stream() && payload.id@ == old(
                        self,
                    ).spec_id() && payload.seq == seq && payload.body@ == body@
                        && payload.edited_at == now_ms,
                    EventChange::Delete => broadcast matches ServerMessage::EventDeleted {
                        payload,
                    } && payload.stream@ == old(self).spec_stream() && payload.id@ == old(
                        self,
                    ).spec_id() && payload.seq == seq,
                },
                Fetched::Missing => replies_error(
                    a,
                    old(self).spec_ref(),
                    ErrorCode::BadRequest,
                    "event not found"@,
                ),
                Fetched::Failed => replies_error(
                    a,
                    old(self).spec_ref(),
                    ErrorCode::Internal,
                    "internal error"@,
                ),
            },
    {
        self.stage = ChangeStage::Done;
        match outcome {
            Fetched::Found(seq) => {
                let broadcast = match &self.change {
                    EventChange::Edit { body } => ServerMessage::EventEdited {
                        payload: EventEditedPayload {
                            stream: copy_str(self.stream.as_str()),
                            id: copy_str(self.id.as_str()),
                            seq,
                            body: copy_str(body.as_str()),
                            edited_at: now_ms,
                        },
                    },
                    EventChange::Delete => ServerMessage::EventDeleted {
                        payload: EventDeletedPayload {
                            stream: copy_str(self.stream.as_str()),
                            id: copy_str(self.id.as_str()),
                            seq,
                        },
                    },
                };
                let ack = ServerMessage::EventAck {
                    ref_: copy_opt(&self.ref_),
                    payload: EventAckPayload { id: copy_str(self.id.as_str()), seq, sent_at: now_ms },
                };
                ChangeAction::Broadcast { broadcast, ack }
            },
            Fetched::Missing => ChangeAction::Reply(
                error_frame(&self.ref_, ErrorCode::BadRequest, "event not found"),
            ),
            Fetched::Failed => ChangeAction::Reply(
                error_frame(&self.ref_, ErrorCode::Internal, "internal error"),
            ),
        }
    }

    /// Where the request stands.
    pub fn stage(&self) -> (s: ChangeStage)
        ensures
            s == self.spec_stage(),
    {
        self.stage
    }
}

// ---------------------------------------------------------------------------
// Reactions
// ---------------------------------------------------------------------------
/// What the reaction handler is to do next.
pub enum ReactionAction {
    /// Send this frame to the requester; the request is answered.
    Reply(ServerMessage),
    /// Add (or remove) the reaction in the store.
    Apply,
    /// Fan `broadcast` out to the stream, and send `ack` to the requester if there is
    /// one; answered.
    Broadcast { broadcast: ServerMessage, ack: Option<ServerMessage> },
}

/// An added or removed reaction, from a WebSocket request.
pub struct ReactionFlow {
    ref_: Option<String>,
    stream: String,
    event_id: String,
    emoji: String,
    user_id: String,
    add: bool,
}

impl ReactionFlow {
    pub closed spec fn spec_ref(&self) -> Option<Seq<char>> {
        opt_text(self.ref_)
    }

    pub closed spec fn spec_parts(&self) -> (Seq<char>, Seq<char>, Seq<char>, Seq<char>, bool) {
        (self.stream@, self.event_id@, self.emoji@, self.user_id@, self.add)
    }

    /// Starts adding (`add`) or removing a reaction: members only, emoji of at most 32
    /// bytes.
    pub fn start(
        ref_: Option<String>,
        stream: String,
        event_id: String,
        emoji: String,
        user_id: String,
        add: bool,
        is_member: bool,
    ) -> (r: (ReactionFlow, ReactionAction))
        ensures
            r.0.spec_ref() == opt_text(ref_),
            r.0.spec_parts() == (stream@, event_id@, emoji@, user_id@, add),
            !is_member ==> (r.1 matches ReactionAction::Reply(m) && is_error_frame(
                m,
                opt_text(ref_),
                ErrorCode::NotSubscribed,
                "not a member of this stream"@,
            )),
            is_member && utf8_len(emoji@) > MAX_EMOJI_LEN ==> (r.1 matches ReactionAction::Reply(m)
                && is_error_frame(m, opt_text(ref_), ErrorCode::BadRequest, "emoji too long"@)),
            is_member && utf8_len(emoji@) <= MAX_EMOJI_LEN ==> r.1 is Apply,
    {
        let flow = ReactionFlow { ref_, stream, event_id, emoji, user_id, add };
        if !is_member {
            let m = error_frame(&flow.ref_, ErrorCode::NotSubscribed, "not a member of this stream");
            return (flow, ReactionAction::Reply(m));
        }
        let v = chars_of(flow.emoji.as_str());
        assert(v@.subrange(0, v@.len() as int) =~= v@);
        if utf8_range_longer_than(&v, 0, v.len(), MAX_EMOJI_LEN) {
            let m = error_frame(&flow.ref_, ErrorCode::BadRequest, "emoji too long");
            return (flow, ReactionAction::Reply(m));
        }
        (flow, ReactionAction::Apply)
    }

    /// Finishes with whether the store applied the change: a `reaction.changed` frame for
    /// the stream (action `add` or `remove`) and a `pong` for a request with a `ref`, or
    /// an internal error.
    pub fn on_applied(&self, applied: bool) -> (a: ReactionAction)
        ensures
            applied ==> (a matches ReactionAction::Broadcast { broadcast, ack } && (broadcast matches ServerMessage::ReactionChanged {
                payload,
            } && (payload.stream@, payload.event_id@, payload.emoji@, payload.user_id@)
                == (self.spec_parts().0, self.spec_parts().1, self.spec_parts().2, self.spec_parts().3)
                && payload.action@ == (if self.spec_parts().4 {
                "add"@
            } else {
                "remove"@
            })) && match self.spec_ref() {
                Some(r) => (ack matches Some(ServerMessage::Pong { ref_: Some(x) }) && x@ == r),
                None => ack is None,
            }),
            !applied ==> (a matches ReactionAction::Reply(m) && is_error_frame(
                m,
                self.spec_ref(),
                ErrorCode::Internal,
                "internal error"@,
            )),
    {
        if !applied {
            return ReactionAction::Reply(error_frame(&self.ref_, ErrorCode::Internal, "internal error"));
        }
        let action = if self.add {
            String::from_str("add")
        } else {
            String::from_str("remove")
        };
        let broadcast = ServerMessage::ReactionChanged {
            payload: ReactionChangedPayload {
                stream: copy_str(self.stream.as_str()),
                event_id: copy_str(self.event_id.as_str()),
                emoji: copy_str(self.emoji.as_str()),
                user_id: copy_str(self.user_id.as_str()),
                action,
            },
        };
        let ack = match &self.ref_ {
            Some(r) => Some(ServerMessage::Pong { ref_: Some(copy_str(r.as_str())) }),
            None => None,
        };
        ReactionAction::Broadcast { broadcast, ack }
    }
}

// ---------------------------------------------------------------------------
// Cursors, presence, typing
// ---------------------------------------------------------------------------
/// The `cursor.moved` frame fanned out (to the others) when a user's read cursor moves.
pub fn cursor_moved(stream: &str, user_id: &str, seq: u64) -> (m: ServerMessage)
    ensures
        m matches ServerMessage::CursorMoved { payload } && payload.stream@ == stream@
            && payload.user_id@ == user_id@ && payload.seq == seq,
{
    ServerMessage::CursorMoved {
        payload: CursorMovedPayload { stream: copy_str(stream), user_id: copy_str(user_id), seq },
    }
}

/// The `presence.changed` frame fanned out to each of a user's streams when the user
/// sets a status.
pub fn presence_changed(user_id: &str, status: PresenceStatus) -> (m: ServerMessage)
    ensures
        m matches ServerMessage::PresenceChanged { payload } && payload.user_id@ == user_id@
            && payload.presence == status,
{
    ServerMessage::PresenceChanged {
        payload: PresenceChangedPayload { user_id: copy_str(user_id), presence: status },
    }
}

/// A user, on connection `conn_id`, started or stopped typing in a stream at `now`:
/// records it and gives the `typing` frame to fan out to that stream of the tenant, the
/// sender's own connection left out.
pub fn handle_typing(
    typing: &mut TypingTracker,
    conn_id: ConnId,
    tenant_id: &str,
    user_id: &str,
    stream: &str,
    active: bool,
    now_ms: u64,
) -> (b: StreamBroadcast)
    requires
        old(typing).wf(),
    ensures
        final(typing).wf(),
        final(typing).typing() == if active {
            old(typing).typing().insert(typing_key(tenant_id@, stream@, user_id@), now_ms)
        } else {
            old(typing).typing().remove(typing_key(tenant_id@, stream@, user_id@))
        },
        b.tenant_id@ == tenant_id@,
        b.stream_id@ == stream@,
        b.exclude == Some(conn_id),
        b.sender is None,
        b.message matches ServerMessage::Typing { payload } && payload.stream@ == stream@
            && payload.user_id@ == user_id@ && payload.active == active,
{
    typing.set_typing_at(tenant_id, stream, user_id, active, now_ms);
    StreamBroadcast {
        tenant_id: copy_str(tenant_id),
        stream_id: copy_str(stream),
        message: ServerMessage::typing(stream, user_id, active),
        exclude: Some(conn_id),
        sender: None,
    }
}

} // verus!
