//! The admin event bus: the most recent events and errors (bounded ring buffers),
//! periodic stats snapshots, and today's summary.
//!
//! Delivering new events to live subscribers is the caller's part: `push_event_at`
//! hands back the event it recorded.
use vstd::prelude::*;
use vstd::string::*;
use crate::clock::now_millis;
use crate::json::{JsonValue, JsonData};
use crate::registry::presence::opt_text;
use crate::text::copy_str;

verus! {

broadcast use vstd::string::group_string_axioms;

/// Most events kept.
pub const MAX_EVENTS: usize = 1000;

/// Most error entries kept.
pub const MAX_ERRORS: usize = 500;

/// Most stats snapshots kept (about 30 days at one every 5 minutes).
pub const MAX_SNAPSHOTS: usize = 8640;

/// Milliseconds in a day.
pub const DAY_MS: i64 = 86_400_000;

#[derive(Debug, Clone, Copy, PartialEq, Eq, Structural)]
pub enum EventKind {
    Connection,
    Disconnection,
    Message,
    Subscribe,
    Unsubscribe,
    AuthFailure,
    ClientError,
    WebhookError,
    HttpError,
}

impl EventKind {
    pub open spec fn spec_name(self) -> Seq<char> {
        match self {
            EventKind::Connection => "connection"@,
            EventKind::Disconnection => "disconnection"@,
            EventKind::Message => "message"@,
            EventKind::Subscribe => "subscribe"@,
            EventKind::Unsubscribe => "unsubscribe"@,
            EventKind::AuthFailure => "auth_failure"@,
            EventKind::ClientError => "client_error"@,
            EventKind::WebhookError => "webhook_error"@,
            EventKind::HttpError => "http_error"@,
        }
    }

    /// The kind's name, as displayed and serialized.
    pub fn name(&self) -> (s: &'static str)
        ensures
            s@ == self.spec_name(),
    {
        match self {
            EventKind::Connection => "connection",
            EventKind::Disconnection => "disconnection",
            EventKind::Message => "message",
            EventKind::Subscribe => "subscribe",
            EventKind::Unsubscribe => "unsubscribe",
            EventKind::AuthFailure => "auth_failure",
            EventKind::ClientError => "client_error",
            EventKind::WebhookError => "webhook_error",
            EventKind::HttpError => "http_error",
        }
    }
}

#[derive(Debug, Clone, Copy, PartialEq, Eq, Structural)]
pub enum ErrorCategory {
    Client,
    Webhook,
    Http,
}

impl ErrorCategory {
    pub open spec fn spec_name(self) -> Seq<char> {
        match self {
            ErrorCategory::Client => "client"@,
            ErrorCategory::Webhook => "webhook"@,
            ErrorCategory::Http => "http"@,
        }
    }

    /// The category's serialized name.
    pub fn name(&self) -> (s: &'static str)
        ensures
            s@ == self.spec_name(),
    {
        match self {
            ErrorCategory::Client => "client",
            ErrorCategory::Webhook => "webhook",
            ErrorCategory::Http => "http",
        }
    }
}

pub struct AdminEvent {
    pub id: u64,
    pub timestamp: i64,
    pub kind: EventKind,
    pub tenant_id: Option<String>,
    pub details: JsonValue,
}

/// The content of an event.
pub struct AdminEventView {
    pub id: u64,
    pub timestamp: i64,
    pub kind: EventKind,
    pub tenant_id: Option<Seq<char>>,
    pub details: JsonData,
}

impl View for AdminEvent {
    type V = AdminEventView;

    open spec fn view(&self) -> AdminEventView {
        AdminEventView {
            id: self.id,
            timestamp: self.timestamp,
            kind: self.kind,
            tenant_id: opt_text(self.tenant_id),
            details: self.details@,
        }
    }
}

fn clone_opt(s: &Option<String>) -> (r: Option<String>)
    ensures
        opt_text(r) == opt_text(*s),
{
    match s {
        Some(s) => Some(copy_str(s.as_str())),
        None => None,
    }
}

impl AdminEvent {
    pub fn duplicate(&self) -> (r: AdminEvent)
        ensures
            r@ == self@,
    {
        AdminEvent {
            id: self.id,
            timestamp: self.timestamp,
            kind: self.kind,
            tenant_id: clone_opt(&self.tenant_id),
            details: self.details.duplicate(),
        }
    }
}

pub struct ErrorEntry {
    pub timestamp: i64,
    pub category: ErrorCategory,
    pub message: String,
    pub details: JsonValue,
}

/// The content of an error entry.
pub struct ErrorEntryView {
    pub timestamp: i64,
    pub category: ErrorCategory,
    pub message: Seq<char>,
    pub details: JsonData,
}

impl View for ErrorEntry {
    type V = ErrorEntryView;

    open spec fn view(&self) -> ErrorEntryView {
        ErrorEntryView {
            timestamp: self.timestamp,
            category: self.category,
            message: self.message@,
            details: self.details@,
        }
    }
}

impl ErrorEntry {
    pub fn duplicate(&self) -> (r: ErrorEntry)
        ensures
            r@ == self@,
    {
        ErrorEntry {
            timestamp: self.timestamp,
            category: self.category,
            message: copy_str(self.message.as_str()),
            details: self.details.duplicate(),
        }
    }
}

/// The error entry recorded at `now`.
pub open spec fn error_view(
    now_ms: i64,
    category: ErrorCategory,
    message: Seq<char>,
    details: JsonData,
) -> ErrorEntryView {
    ErrorEntryView { timestamp: now_ms, category, message, details }
}

/// Stats at a point in time, recorded periodically.
#[derive(Debug, Clone, Copy)]
pub struct StatsSnapshot {
    pub timestamp: i64,
    pub connections: u64,
    pub peak_connections: u64,
    pub messages_sent: u64,
    pub messages_delta: u64,
    pub webhooks_sent: u64,
    pub webhooks_delta: u64,
    pub rooms: u64,
    pub auth_failures: u64,
}

/// Today's totals.
pub struct TodaySummary {
    pub peak_connections: u64,
    pub messages_today: u64,
    pub webhooks_today: u64,
}

/// `s` with `x` appended, the oldest entry dropped first when `s` already holds `cap`.
pub open spec fn ring_push<T>(s: Seq<T>, x: T, cap: nat) -> Seq<T> {
    if s.len() >= cap {
        s.drop_first().push(x)
    } else {
        s.push(x)
    }
}

/// Up to `limit` of the entries of `s` that `ok` accepts, newest first.
pub open spec fn newest<T>(s: Seq<T>, ok: spec_fn(T) -> bool, limit: nat) -> Seq<T>
    decreases s.len(),
{
    if s.len() == 0 || limit == 0 {
        Seq::empty()
    } else if ok(s.last()) {
        seq![s.last()] + newest(s.drop_last(), ok, (limit - 1) as nat)
    } else {
        newest(s.drop_last(), ok, limit)
    }
}

/// The state of the bus, as its contracts see it.
pub struct BusModel {
    pub events: Seq<AdminEventView>,
    pub errors: Seq<ErrorEntryView>,
    pub snapshots: Seq<StatsSnapshot>,
    pub next_id: u64,
    pub peak_connections_today: u64,
    pub webhooks_sent: u64,
    pub last_messages_total: u64,
    pub last_webhooks_total: u64,
    pub day_start_messages: u64,
    pub day_start_webhooks: u64,
    pub current_day: u32,
}

/// The day number of a time (days since the epoch, in 32 bits).
pub open spec fn day_of(now_ms: i64) -> u32 {
    (now_ms / DAY_MS) as u32
}

/// `a - b`, or 0 when `b > a`.
pub open spec fn sat_sub(a: u64, b: u64) -> u64 {
    if a >= b {
        (a - b) as u64
    } else {
        0
    }
}

impl BusModel {
    /// The bus after recording a snapshot at `now`.
    pub open spec fn after_snapshot(
        self,
        connections: u64,
        messages_total: u64,
        rooms: u64,
        auth_failures: u64,
        now_ms: i64,
    ) -> BusModel {
        let today = day_of(now_ms);
        let new_day = self.current_day != today;
        let peak0 = if new_day {
            0
        } else {
            self.peak_connections_today
        };
        let peak = if connections > peak0 {
            connections
        } else {
            peak0
        };
        let snapshot = StatsSnapshot {
            timestamp: now_ms,
            connections,
            peak_connections: peak,
            messages_sent: messages_total,
            messages_delta: sat_sub(messages_total, self.last_messages_total),
            webhooks_sent: self.webhooks_sent,
            webhooks_delta: sat_sub(self.webhooks_sent, self.last_webhooks_total),
            rooms,
            auth_failures,
        };
        BusModel {
            snapshots: ring_push(self.snapshots, snapshot, MAX_SNAPSHOTS as nat),
            peak_connections_today: peak,
            last_messages_total: messages_total,
            last_webhooks_total: self.webhooks_sent,
            day_start_messages: if new_day {
                messages_total
            } else {
                self.day_start_messages
            },
            day_start_webhooks: if new_day {
                self.webhooks_sent
            } else {
                self.day_start_webhooks
            },
            current_day: today,
            ..self
        }
    }
}

/// The admin event bus.
pub struct EventBus {
    events: Vec<AdminEvent>,
    errors: Vec<ErrorEntry>,
    next_id: u64,
    snapshots: Vec<StatsSnapshot>,
    peak_connections_today: u64,
    webhooks_sent: u64,
    last_messages_total: u64,
    last_webhooks_total: u64,
    day_start_messages: u64,
    day_start_webhooks: u64,
    current_day: u32,
}

impl View for EventBus {
    type V = BusModel;

    closed spec fn view(&self) -> BusModel {
        BusModel {
            events: self.events@.map_values(|e: AdminEvent| e@),
            errors: self.errors@.map_values(|e: ErrorEntry| e@),
            snapshots: self.snapshots@,
            next_id: self.next_id,
            peak_connections_today: self.peak_connections_today,
            webhooks_sent: self.webhooks_sent,
            last_messages_total: self.last_messages_total,
            last_webhooks_total: self.last_webhooks_total,
            day_start_messages: self.day_start_messages,
            day_start_webhooks: self.day_start_webhooks,
            current_day: self.current_day,
        }
    }
}

fn ring_push_vec<T>(v: &mut Vec<T>, x: T, cap: usize)
    requires
        cap > 0,
    ensures
        final(v)@ == ring_push(old(v)@, x, cap as nat),
{
    if v.len() >= cap {
        v.remove(0);
    }
    v.push(x);
    proof {
        if old(v)@.len() >= cap {
            assert(old(v)@.remove(0) =~= old(v)@.drop_first());
        }
    }
}

impl EventBus {
    pub fn new() -> (b: EventBus)
        ensures
            b@.events == Seq::<AdminEventView>::empty(),
            b@.errors == Seq::<ErrorEntryView>::empty(),
            b@.snapshots == Seq::<StatsSnapshot>::empty(),
            b@.next_id == 1,
            b@.peak_connections_today == 0,
            b@.webhooks_sent == 0,
            b@.last_messages_total == 0,
            b@.last_webhooks_total == 0,
            b@.day_start_messages == 0,
            b@.day_start_webhooks == 0,
            b@.current_day == 0,
    {
        let b = EventBus {
            events: Vec::new(),
            errors: Vec::new(),
            next_id: 1,
            snapshots: Vec::new(),
            peak_connections_today: 0,
            webhooks_sent: 0,
            last_messages_total: 0,
            last_webhooks_total: 0,
            day_start_messages: 0,
            day_start_webhooks: 0,
            current_day: 0,
        };
        assert(b@.events =~= Seq::<AdminEventView>::empty());
        assert(b@.errors =~= Seq::<ErrorEntryView>::empty());
        b
    }

    /// Records an event at `now` under the next id, dropping the oldest beyond 1000,
    /// and hands back a copy of it for live subscribers.
    pub fn push_event_at(&mut self, kind: EventKind, tenant_id: Option<String>, details: JsonValue, now_ms: i64) -> (r:
        AdminEvent)
        ensures
            r@ == (AdminEventView {
                id: old(self)@.next_id,
                timestamp: now_ms,
                kind,
                tenant_id: opt_text(tenant_id),
                details: details@,
            }),
            final(self)@ == (BusModel {
                events: ring_push(old(self)@.events, r@, MAX_EVENTS as nat),
                next_id: old(self)@.next_id.wrapping_add(1),
                ..old(self)@
            }),
    {
        let id = self.next_id;
        self.next_id = self.next_id.wrapping_add(1);
        let event = AdminEvent { id, timestamp: now_ms, kind, tenant_id, details };
        let copy = event.duplicate();
        let ghost before = self.events@;
        ring_push_vec(&mut self.events, event, MAX_EVENTS);
        proof {
            let f = |e: AdminEvent| e@;
            if before.len() >= MAX_EVENTS {
                assert(self.events@.map_values(f) =~= before.map_values(f).drop_first().push(
                    copy@,
                ));
            } else {
                assert(self.events@.map_values(f) =~= before.map_values(f).push(copy@));
            }
        }
        copy
    }

    /// Records an event on the current clock.
    pub fn push_event(&mut self, kind: EventKind, tenant_id: Option<String>, details: JsonValue) -> (r:
        AdminEvent)
        ensures
            r@.id == old(self)@.next_id,
            r@.kind == kind,
            final(self)@ == (BusModel {
                events: ring_push(old(self)@.events, r@, MAX_EVENTS as nat),
                next_id: old(self)@.next_id.wrapping_add(1),
                ..old(self)@
            }),
    {
        let now = now_millis();
        self.push_event_at(kind, tenant_id, details, now)
    }

    /// Records an error at `now`, dropping the oldest beyond 500.
    pub fn push_error_at(&mut self, category: ErrorCategory, message: String, details: JsonValue, now_ms: i64)
        ensures
            final(self)@ == (BusModel {
                errors: ring_push(
                    old(self)@.errors,
                    ErrorEntryView {
                        timestamp: now_ms,
                        category,
                        message: message@,
                        details: details@,
                    },
                    MAX_ERRORS as nat,
                ),
                ..old(self)@
            }),
    {
        let entry = ErrorEntry { timestamp: now_ms, category, message, details };
        let ghost ev = entry@;
        let ghost before = self.errors@;
        ring_push_vec(&mut self.errors, entry, MAX_ERRORS);
        proof {
            let f = |e: ErrorEntry| e@;
            if before.len() >= MAX_ERRORS {
                assert(self.errors@.map_values(f) =~= before.map_values(f).drop_first().push(ev));
            } else {
                assert(self.errors@.map_values(f) =~= before.map_values(f).push(ev));
            }
        }
    }

    /// Records an error on the current clock.
    pub fn push_error(&mut self, category: ErrorCategory, message: String, details: JsonValue)
        ensures
            exists|now_ms: i64|
                final(self)@ == (BusModel {
                    errors: ring_push(
                        old(self)@.errors,
                        #[trigger] error_view(now_ms, category, message@, details@),
                        MAX_ERRORS as nat,
                    ),
                    ..old(self)@
                }),
    {
        let now = now_millis();
        let ghost m = message@;
        let ghost d = details@;
        self.push_error_at(category, message, details, now);
        assert(error_view(now, category, m, d) == (ErrorEntryView {
            timestamp: now,
            category,
            message: m,
            details: d,
        }));
    }

    /// Up to `limit` events, newest first; with `after_id`, only those with a larger id.
    pub fn recent_events(&self, limit: usize, after_id: Option<u64>) -> (r: Vec<AdminEvent>)
        ensures
            r@.map_values(|e: AdminEvent| e@) == newest(
                self@.events,
                |e: AdminEventView|
                    match after_id {
                        Some(a) => e.id > a,
                        None => true,
                    },
                limit as nat,
            ),
    {
        let ghost ok = |e: AdminEventView|
            match after_id {
                Some(a) => e.id > a,
                None => true,
            };
        let ghost all = self@.events;
        let mut out: Vec<AdminEvent> = Vec::new();
        let mut i: usize = self.events.len();
        proof {
            assert(all.take(i as int) =~= all);
            assert(out@.map_values(|e: AdminEvent| e@) + newest(all, ok, limit as nat) =~= newest(
                all,
                ok,
                limit as nat,
            ));
        }
        while i > 0 && out.len() < limit
            invariant
                i <= self.events@.len(),
                all == self@.events,
                all == self.events@.map_values(|e: AdminEvent| e@),
                out@.len() <= limit,
                forall|e: AdminEventView|
                    #[trigger] ok(e) == match after_id {
                        Some(a) => e.id > a,
                        None => true,
                    },
                out@.map_values(|e: AdminEvent| e@) + newest(
                    all.take(i as int),
                    ok,
                    (limit - out@.len()) as nat,
                ) == newest(all, ok, limit as nat),
            decreases i,
        {
            let e = &self.events[i - 1];
            let keep = match after_id {
                Some(a) => e.id > a,
                None => true,
            };
            let ghost pre = all.take(i as int);
            proof {
                assert(pre.drop_last() =~= all.take(i - 1));
                assert(pre.last() == e@);
            }
            if keep {
                let ghost prev = out@;
                out.push(e.duplicate());
                proof {
                    assert(out@.map_values(|e: AdminEvent| e@) =~= prev.map_values(
                        |e: AdminEvent| e@,
                    ).push(e@));
                    assert(seq![e@] + newest(
                        all.take(i - 1),
                        ok,
                        (limit - out@.len()) as nat,
                    ) == newest(pre, ok, (limit - prev.len()) as nat));
                    assert(out@.map_values(|e: AdminEvent| e@) + newest(
                        all.take(i - 1),
                        ok,
                        (limit - out@.len()) as nat,
                    ) =~= prev.map_values(|e: AdminEvent| e@) + newest(
                        pre,
                        ok,
                        (limit - prev.len()) as nat,
                    ));
                }
            }
            i -= 1;
        }
        proof {
            if i == 0 {
                assert(all.take(0) =~= Seq::<AdminEventView>::empty());
            }
            assert(newest(all.take(i as int), ok, (limit - out@.len()) as nat) =~= Seq::<
                AdminEventView,
            >::empty());
            assert(out@.map_values(|e: AdminEvent| e@) + Seq::<AdminEventView>::empty()
                =~= out@.map_values(|e: AdminEvent| e@));
        }
        out
    }

    /// Up to `limit` errors, newest first; with `category`, only those of it.
    pub fn recent_errors(&self, category: Option<ErrorCategory>, limit: usize) -> (r: Vec<ErrorEntry>)
        ensures
            r@.map_values(|e: ErrorEntry| e@) == newest(
                self@.errors,
                |e: ErrorEntryView|
                    match category {
                        Some(c) => e.category == c,
                        None => true,
                    },
                limit as nat,
            ),
    {
        let ghost ok = |e: ErrorEntryView|
            match category {
                Some(c) => e.category == c,
                None => true,
            };
        let ghost all = self@.errors;
        let mut out: Vec<ErrorEntry> = Vec::new();
        let mut i: usize = self.errors.len();
        proof {
            assert(all.take(i as int) =~= all);
            assert(out@.map_values(|e: ErrorEntry| e@) + newest(all, ok, limit as nat) =~= newest(
                all,
                ok,
                limit as nat,
            ));
        }
        while i > 0 && out.len() < limit
            invariant
                i <= self.errors@.len(),
                all == self@.errors,
                all == self.errors@.map_values(|e: ErrorEntry| e@),
                out@.len() <= limit,
                forall|e: ErrorEntryView|
                    #[trigger] ok(e) == match category {
                        Some(c) => e.category == c,
                        None => true,
                    },
                out@.map_values(|e: ErrorEntry| e@) + newest(
                    all.take(i as int),
                    ok,
                    (limit - out@.len()) as nat,
                ) == newest(all, ok, limit as nat),
            decreases i,
        {
            let e = &self.errors[i - 1];
            let keep = match category {
                Some(c) => e.category == c,
                None => true,
            };
            let ghost pre = all.take(i as int);
            proof {
                assert(pre.drop_last() =~= all.take(i - 1));
                assert(pre.last() == e@);
            }
            if keep {
                let ghost prev = out@;
                out.push(e.duplicate());
                proof {
                    assert(out@.map_values(|e: ErrorEntry| e@) =~= prev.map_values(
                        |e: ErrorEntry| e@,
                    ).push(e@));
                    assert(seq![e@] + newest(
                        all.take(i - 1),
                        ok,
                        (limit - out@.len()) as nat,
                    ) == newest(pre, ok, (limit - prev.len()) as nat));
                    assert(out@.map_values(|e: ErrorEntry| e@) + newest(
                        all.take(i - 1),
                        ok,
                        (limit - out@.len()) as nat,
                    ) =~= prev.map_values(|e: ErrorEntry| e@) + newest(
                        pre,
                        ok,
                        (limit - prev.len()) as nat,
                    ));
                }
            }
            i -= 1;
        }
        proof {
            if i == 0 {
                assert(all.take(0) =~= Seq::<ErrorEntryView>::empty());
            }
            assert(newest(all.take(i as int), ok, (limit - out@.len()) as nat) =~= Seq::<
                ErrorEntryView,
            >::empty());
            assert(out@.map_values(|e: ErrorEntry| e@) + Seq::<ErrorEntryView>::empty()
                =~= out@.map_values(|e: ErrorEntry| e@));
        }
        out
    }

    /// Counts a delivered webhook.
    pub fn increment_webhooks(&mut self)
        ensures
            final(self)@ == (BusModel {
                webhooks_sent: old(self)@.webhooks_sent.wrapping_add(1),
                ..old(self)@
            }),
    {
        self.webhooks_sent = self.webhooks_sent.wrapping_add(1);
    }

    /// Records a stats snapshot at `now` (every 5 minutes): a new day resets the day's
    /// peak and counters; the oldest snapshot goes beyond 8640.
    pub fn record_snapshot_at(
        &mut self,
        connections: u64,
        messages_total: u64,
        rooms: u64,
        auth_failures: u64,
        now_ms: i64,
    )
        requires
            now_ms >= 0,
        ensures
            final(self)@ == old(self)@.after_snapshot(
                connections,
                messages_total,
                rooms,
                auth_failures,
                now_ms,
            ),
    {
        let today = (now_ms / DAY_MS) as u32;
        if self.current_day != today {
            self.current_day = today;
            self.peak_connections_today = 0;
            self.day_start_messages = messages_total;
            self.day_start_webhooks = self.webhooks_sent;
        }
        if connections > self.peak_connections_today {
            self.peak_connections_today = connections;
        }
        let prev_messages = self.last_messages_total;
        self.last_messages_total = messages_total;
        let webhooks_total = self.webhooks_sent;
        let prev_webhooks = self.last_webhooks_total;
        self.last_webhooks_total = webhooks_total;
        let snapshot = StatsSnapshot {
            timestamp: now_ms,
            connections,
            peak_connections: self.peak_connections_today,
            messages_sent: messages_total,
            messages_delta: messages_total.saturating_sub(prev_messages),
            webhooks_sent: webhooks_total,
            webhooks_delta: webhooks_total.saturating_sub(prev_webhooks),
            rooms,
            auth_failures,
        };
        ring_push_vec(&mut self.snapshots, snapshot, MAX_SNAPSHOTS);
    }

    /// Records a stats snapshot on the current clock.
    pub fn record_snapshot(&mut self, connections: u64, messages_total: u64, rooms: u64, auth_failures: u64)
        ensures
            exists|now_ms: i64|
                now_ms >= 0 && final(self)@ == #[trigger] old(self)@.after_snapshot(
                    connections,
                    messages_total,
                    rooms,
                    auth_failures,
                    now_ms,
                ),
    {
        let t = now_millis();
        let now = if t < 0 {
            0
        } else {
            t
        };
        self.record_snapshot_at(connections, messages_total, rooms, auth_failures, now);
    }

    /// The snapshots taken from `from` to `to` (both included), oldest first.
    pub fn get_snapshots(&self, from: i64, to: i64) -> (r: Vec<StatsSnapshot>)
        ensures
            r@ == self@.snapshots.filter(|s: StatsSnapshot| s.timestamp >= from && s.timestamp <= to),
    {
        let ghost f = |s: StatsSnapshot| s.timestamp >= from && s.timestamp <= to;
        let mut out: Vec<StatsSnapshot> = Vec::new();
        let mut i: usize = 0;
        while i < self.snapshots.len()
            invariant
                i <= self.snapshots@.len(),
                out@ == self.snapshots@.take(i as int).filter(f),
                forall|s: StatsSnapshot| #[trigger] f(s) == (s.timestamp >= from && s.timestamp <= to),
            decreases self.snapshots@.len() - i,
        {
            let s = self.snapshots[i];
            proof {
                assert(self.snapshots@.take(i + 1).drop_last() =~= self.snapshots@.take(i as int));
                self.snapshots@.take(i as int).lemma_filter_push(s, f);
                assert(self.snapshots@.take(i + 1) =~= self.snapshots@.take(i as int).push(s));
            }
            if s.timestamp >= from && s.timestamp <= to {
                out.push(s);
            }
            i += 1;
        }
        assert(self.snapshots@.take(i as int) =~= self.snapshots@);
        out
    }

    /// Today's totals, given the current message total.
    pub fn today_summary(&self, current_messages: u64) -> (r: TodaySummary)
        ensures
            r.peak_connections == self@.peak_connections_today,
            r.messages_today == sat_sub(current_messages, self@.day_start_messages),
            r.webhooks_today == sat_sub(self@.webhooks_sent, self@.day_start_webhooks),
    {
        TodaySummary {
            peak_connections: self.peak_connections_today,
            messages_today: current_messages.saturating_sub(self.day_start_messages),
            webhooks_today: self.webhooks_sent.saturating_sub(self.day_start_webhooks),
        }
    }
}

/// Today's counts start again with each new day: the first snapshot of a day (the day
/// being the whole 86 400 000 ms periods since the epoch) takes the current message and
/// webhook totals as the day's baselines, so right after it today's webhooks are 0 and
/// today's messages are 0 for the total just recorded; a later snapshot of the same day
/// keeps the baselines.
pub proof fn lemma_daily_baselines(
    m: BusModel,
    connections: u64,
    messages_total: u64,
    rooms: u64,
    auth_failures: u64,
    now_ms: i64,
)
    requires
        now_ms >= 0,
    ensures
        ({
            let n = m.after_snapshot(connections, messages_total, rooms, auth_failures, now_ms);
            let today = (now_ms / 86_400_000) as u32;
            &&& n.webhooks_sent == m.webhooks_sent
            &&& m.current_day != today ==> n.day_start_webhooks == m.webhooks_sent
                && n.day_start_messages == messages_total && sat_sub(
                n.webhooks_sent,
                n.day_start_webhooks,
            ) == 0 && sat_sub(messages_total, n.day_start_messages) == 0
            &&& m.current_day == today ==> n.day_start_webhooks == m.day_start_webhooks
                && n.day_start_messages == m.day_start_messages
        }),
{
}

/// The event buffer never holds more than 1000 events, and keeps the newest ones.
pub proof fn lemma_ring_bounded<T>(s: Seq<T>, x: T, cap: nat)
    requires
        s.len() <= cap,
        cap > 0,
    ensures
        ring_push(s, x, cap).len() <= cap,
        ring_push(s, x, cap).last() == x,
        s.len() < cap ==> ring_push(s, x, cap).len() == s.len() + 1,
{
}

/// Within a day the peak only grows and the snapshot reports it; the first snapshot of
/// a new day starts the day's counters from that snapshot's totals.
pub proof fn lemma_snapshot_day(
    m: BusModel,
    connections: u64,
    messages_total: u64,
    rooms: u64,
    auth_failures: u64,
    now_ms: i64,
)
    ensures
        ({
            let n = m.after_snapshot(connections, messages_total, rooms, auth_failures, now_ms);
            &&& n.peak_connections_today >= connections
            &&& m.current_day == day_of(now_ms) ==> n.peak_connections_today
                >= m.peak_connections_today
            &&& m.current_day != day_of(now_ms) ==> n.peak_connections_today == connections
                && n.day_start_messages == messages_total
            &&& n.current_day == day_of(now_ms)
            &&& n.snapshots.last().peak_connections == n.peak_connections_today
        }),
{
}

} // verus!
