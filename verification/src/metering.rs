//! Usage metering against the Meterd service.
//!
//! Usage events are queued locally and flushed in batches; quota checks and plan-limit
//! snapshots are remote calls. Every remote call is gated by a circuit breaker
//! (5 consecutive failures open it, 30 s cooldown). While it is open, quota checks
//! fail open (the request is allowed) and flushes leave the events buffered.
//!
//! The network calls themselves are made by the caller: each operation is split into a
//! `begin_*` step, which decides whether a call is to be made, and a `finish_*` step,
//! which takes what the call returned and updates the client.
use vstd::prelude::*;
use vstd::string::*;
use crate::clock::now_millis_u64;
use crate::config::PlanLimits;
use crate::env::{EnvVars, env_number};
use crate::text::{copy_str, str_eq, u64_to_string, decimal};

use crate::ids::{fresh_id, uuid_v4_text};
use crate::json::{JsonData, JsonNumber, JsonValue};

verus! {

broadcast use vstd::string::group_string_axioms;

/// The states of the metering breaker.
#[derive(Debug, Clone, Copy, PartialEq, Eq, Structural)]
pub enum CircuitState {
    Closed,
    Open,
    HalfOpen,
}

/// The state of a metering breaker, as its contracts see it.
pub struct MeterBreakerModel {
    pub state: CircuitState,
    pub failures: u64,
    pub last_failure_ms: Option<u64>,
    pub threshold: u64,
    pub cooldown_ms: u64,
}

impl MeterBreakerModel {
    /// Whether a request at `now` is let through.
    pub open spec fn allows(self, now: u64) -> bool {
        match self.state {
            CircuitState::Closed => true,
            CircuitState::Open => match self.last_failure_ms {
                Some(t) => now >= t && now - t >= self.cooldown_ms,
                None => false,
            },
            CircuitState::HalfOpen => false,
        }
    }

    /// The state after asking at `now` whether a request may go.
    pub open spec fn after_allow(self, now: u64) -> MeterBreakerModel {
        if self.state == CircuitState::Open && self.allows(now) {
            MeterBreakerModel { state: CircuitState::HalfOpen, ..self }
        } else {
            self
        }
    }

    pub open spec fn after_success(self) -> MeterBreakerModel {
        MeterBreakerModel { state: CircuitState::Closed, failures: 0, ..self }
    }

    pub open spec fn after_failure(self, now: u64) -> MeterBreakerModel {
        let failures = (self.failures + 1) as u64;
        if self.state == CircuitState::HalfOpen || failures >= self.threshold {
            MeterBreakerModel {
                state: CircuitState::Open,
                failures,
                last_failure_ms: Some(now),
                ..self
            }
        } else {
            MeterBreakerModel { failures, last_failure_ms: Some(now), ..self }
        }
    }

    /// The state after `n` failures at `now`.
    pub open spec fn after_failures(self, n: nat, now: u64) -> MeterBreakerModel
        decreases n,
    {
        if n == 0 {
            self
        } else {
            self.after_failures((n - 1) as nat, now).after_failure(now)
        }
    }
}

/// The breaker that gates calls to Meterd.
pub struct CircuitBreaker {
    state: CircuitState,
    failure_count: u64,
    last_failure_ms: Option<u64>,
    threshold: u64,
    cooldown_ms: u64,
}

impl View for CircuitBreaker {
    type V = MeterBreakerModel;

    closed spec fn view(&self) -> MeterBreakerModel {
        MeterBreakerModel {
            state: self.state,
            failures: self.failure_count,
            last_failure_ms: self.last_failure_ms,
            threshold: self.threshold,
            cooldown_ms: self.cooldown_ms,
        }
    }
}

impl CircuitBreaker {
    pub fn new(threshold: u64, cooldown_ms: u64) -> (cb: CircuitBreaker)
        ensures
            cb@ == (MeterBreakerModel {
                state: CircuitState::Closed,
                failures: 0,
                last_failure_ms: None,
                threshold,
                cooldown_ms,
            }),
    {
        CircuitBreaker {
            state: CircuitState::Closed,
            failure_count: 0,
            last_failure_ms: None,
            threshold,
            cooldown_ms,
        }
    }

    /// Whether a request at `now` may go; an open breaker whose cooldown has passed
    /// turns half-open and lets this one probe through.
    pub fn allow_request_at(&mut self, now_ms: u64) -> (r: bool)
        ensures
            r == old(self)@.allows(now_ms),
            final(self)@ == old(self)@.after_allow(now_ms),
    {
        match self.state {
            CircuitState::Closed => true,
            CircuitState::Open => {
                match self.last_failure_ms {
                    Some(t) => {
                        if now_ms >= t && now_ms - t >= self.cooldown_ms {
                            self.state = CircuitState::HalfOpen;
                            true
                        } else {
                            false
                        }
                    },
                    None => false,
                }
            },
            CircuitState::HalfOpen => false,
        }
    }

    /// Whether a request may go now, on the current clock.
    pub fn allow_request(&mut self) -> (r: bool)
        ensures
            exists|now: u64|
                r == old(self)@.allows(now) && final(self)@ == old(self)@.after_allow(now),
    {
        let now = now_millis_u64();
        self.allow_request_at(now)
    }

    pub fn record_success(&mut self)
        ensures
            final(self)@ == old(self)@.after_success(),
    {
        self.state = CircuitState::Closed;
        self.failure_count = 0;
    }

    pub fn record_failure_at(&mut self, now_ms: u64)
        requires
            old(self)@.failures < u64::MAX,
        ensures
            final(self)@ == old(self)@.after_failure(now_ms),
    {
        let count = self.failure_count + 1;
        self.failure_count = count;
        self.last_failure_ms = Some(now_ms);
        if self.state == CircuitState::HalfOpen || count >= self.threshold {
            self.state = CircuitState::Open;
        }
    }

    pub fn record_failure(&mut self)
        requires
            old(self)@.failures < u64::MAX,
        ensures
            exists|now: u64| final(self)@ == old(self)@.after_failure(now),
    {
        let now = now_millis_u64();
        self.record_failure_at(now);
    }

    pub fn is_open(&self) -> (r: bool)
        ensures
            r == (self@.state == CircuitState::Open),
    {
        self.state == CircuitState::Open
    }

    /// Consecutive failures since the last success.
    pub fn failure_count(&self) -> (n: u64)
        ensures
            n == self@.failures,
    {
        self.failure_count
    }
}

/// From a closed breaker with no failures, fewer than `threshold` failures keep it
/// closed and letting requests through; the `threshold`-th failure opens it, and it
/// then refuses every request until the cooldown has passed.
pub proof fn lemma_meter_breaker_opens(m: MeterBreakerModel, k: nat, now: u64, later: u64)
    requires
        m.state == CircuitState::Closed,
        m.failures == 0,
        0 < m.threshold,
        k <= m.threshold,
    ensures
        m.after_failures(k, now).failures == k,
        m.after_failures(k, now).threshold == m.threshold,
        m.after_failures(k, now).cooldown_ms == m.cooldown_ms,
        k > 0 ==> m.after_failures(k, now).last_failure_ms == Some(now),
        k < m.threshold ==> m.after_failures(k, now).state == CircuitState::Closed
            && m.after_failures(k, now).allows(later),
        k == m.threshold ==> m.after_failures(k, now).state == CircuitState::Open,
        k == m.threshold && later >= now && later - now < m.cooldown_ms ==> !m.after_failures(
            k,
            now,
        ).allows(later),
    decreases k,
{
    if k > 0 {
        lemma_meter_breaker_opens(m, (k - 1) as nat, now, later);
    }
}

/// A recorded success closes the breaker and clears its failure count, whatever state it
/// was in; so failures separated by a success never add up: after a success, fewer than
/// `threshold` failures leave the breaker closed, counting only those failures.
pub proof fn lemma_meter_success_resets(m: MeterBreakerModel, k: nat, now: u64)
    requires
        0 < m.threshold,
        k < m.threshold,
    ensures
        m.after_success().state == CircuitState::Closed,
        m.after_success().failures == 0,
        m.after_success().threshold == m.threshold,
        m.after_success().cooldown_ms == m.cooldown_ms,
        m.after_success().after_failures(k, now).state == CircuitState::Closed,
        m.after_success().after_failures(k, now).failures == k,
{
    lemma_meter_breaker_opens(m.after_success(), k, now, now);
}

/// An open breaker whose cooldown has passed lets one probe through; further requests
/// wait for the probe's outcome; a successful probe closes the breaker and a failed one
/// opens it again.
pub proof fn lemma_meter_breaker_probe(m: MeterBreakerModel, now: u64, later: u64)
    requires
        m.state == CircuitState::Open,
        m.last_failure_ms matches Some(t) && t <= now && now - t >= m.cooldown_ms,
    ensures
        m.allows(now),
        m.after_allow(now).state == CircuitState::HalfOpen,
        !m.after_allow(now).allows(later),
        m.after_allow(now).after_success().state == CircuitState::Closed,
        m.after_allow(now).after_success().failures == 0,
        m.after_allow(now).after_success().allows(later),
        m.after_allow(now).after_failure(later).state == CircuitState::Open,
{
}

// ---------------------------------------------------------------------------
// Configuration
// ---------------------------------------------------------------------------
/// Configuration of the Meterd integration.
pub struct MeteringConfig {
    pub enabled: bool,
    pub api_key: String,
    pub base_url: String,
    pub flush_interval_secs: u64,
    pub batch_size: usize,
}

impl MeteringConfig {
    /// Reads `HERALD_METERING_*` from the environment `env`.
    pub fn from_env(env: &EnvVars) -> (c: MeteringConfig)
        ensures
            c.enabled == match env.lookup("HERALD_METERING_ENABLED"@) {
                Some(v) => v == "true"@ || v == "1"@,
                None => false,
            },
            c.api_key@ == match env.lookup("HERALD_METERING_API_KEY"@) {
                Some(v) => v,
                None => Seq::empty(),
            },
            c.base_url@ == match env.lookup("HERALD_METERING_URL"@) {
                Some(v) => v,
                None => "https://api.meterd.io"@,
            },
            c.flush_interval_secs == env_number(
                env.lookup("HERALD_METERING_FLUSH_INTERVAL"@),
                u64::MAX as nat,
                10,
            ),
            c.batch_size == env_number(
                env.lookup("HERALD_METERING_BATCH_SIZE"@),
                usize::MAX as nat,
                100,
            ),
    {
        proof {
            reveal_strlit("");
        }
        MeteringConfig {
            enabled: env.get_flag("HERALD_METERING_ENABLED"),
            api_key: env.get_or("HERALD_METERING_API_KEY", ""),
            base_url: env.get_or("HERALD_METERING_URL", "https://api.meterd.io"),
            flush_interval_secs: env.get_u64_or("HERALD_METERING_FLUSH_INTERVAL", 10),
            batch_size: env.get_usize_or("HERALD_METERING_BATCH_SIZE", 100),
        }
    }
}

// ---------------------------------------------------------------------------
// Quota checks
// ---------------------------------------------------------------------------
/// The body of Meterd's answer to `POST /v1/quota/check`.
pub struct QuotaCheckResponse {
    pub allowed: bool,
    pub current_usage: Option<u64>,
    pub limit: Option<u64>,
    pub remaining: Option<u64>,
    pub enforcement: Option<String>,
}

/// The outcome of a quota check, with the context of an overage.
pub struct QuotaResult {
    pub allowed: bool,
    pub remaining: Option<u64>,
    /// Enforcement is `soft_cap` and usage is over the limit: the request is allowed,
    /// and the caller warns.
    pub soft_overage: bool,
    pub current_usage: Option<u64>,
    pub limit: Option<u64>,
}

/// What came back from the quota-check call.
pub enum QuotaReply {
    /// A success status with a body that parsed.
    Parsed(QuotaCheckResponse),
    /// A success status with a body that did not parse.
    Unparsable,
    /// A status other than success.
    Refused,
    /// The request did not complete.
    Unreachable,
}

/// Whether Meterd's answer is a soft-cap overage.
pub open spec fn is_soft_overage(qr: QuotaCheckResponse) -> bool {
    (qr.enforcement matches Some(e) && e@ == "soft_cap"@) && !qr.allowed
}

impl QuotaResult {
    /// The result of a check that could not be made: allowed, with no usage data.
    pub open spec fn spec_fail_open() -> QuotaResult {
        QuotaResult {
            allowed: true,
            remaining: None,
            soft_overage: false,
            current_usage: None,
            limit: None,
        }
    }

    pub fn fail_open() -> (r: QuotaResult)
        ensures
            r == QuotaResult::spec_fail_open(),
    {
        QuotaResult {
            allowed: true,
            remaining: None,
            soft_overage: false,
            current_usage: None,
            limit: None,
        }
    }

    /// The result that Meterd's answer `qr` stands for.
    pub open spec fn spec_from_response(qr: QuotaCheckResponse) -> QuotaResult {
        QuotaResult {
            allowed: qr.allowed || is_soft_overage(qr),
            remaining: qr.remaining,
            soft_overage: is_soft_overage(qr),
            current_usage: qr.current_usage,
            limit: qr.limit,
        }
    }

    pub fn from_response(qr: &QuotaCheckResponse) -> (r: QuotaResult)
        ensures
            r == QuotaResult::spec_from_response(*qr),
    {
        let soft_overage = match &qr.enforcement {
            Some(e) => str_eq(e.as_str(), "soft_cap"),
            None => false,
        } && !qr.allowed;
        QuotaResult {
            allowed: qr.allowed || soft_overage,
            remaining: qr.remaining,
            soft_overage,
            current_usage: qr.current_usage,
            limit: qr.limit,
        }
    }

    /// The warning sent with a soft-cap overage: `usage {current} of {limit} (soft cap)`,
    /// a missing number written as 0.
    pub fn overage_warning(&self) -> (s: String)
        ensures
            s@ == "usage "@ + decimal(
                match self.current_usage {
                    Some(n) => n as nat,
                    None => 0,
                },
            ) + " of "@ + decimal(
                match self.limit {
                    Some(n) => n as nat,
                    None => 0,
                },
            ) + " (soft cap)"@,
    {
        let usage = match self.current_usage {
            Some(n) => n,
            None => 0,
        };
        let limit = match self.limit {
            Some(n) => n,
            None => 0,
        };
        let mut s = String::from_str("usage ");
        let u = u64_to_string(usage);
        s.append(u.as_str());
        s.append(" of ");
        let l = u64_to_string(limit);
        s.append(l.as_str());
        s.append(" (soft cap)");
        s
    }
}

/// The result of a completed quota-check call.
pub open spec fn quota_reply_result(reply: QuotaReply) -> QuotaResult {
    match reply {
        QuotaReply::Parsed(qr) => QuotaResult::spec_from_response(qr),
        _ => QuotaResult::spec_fail_open(),
    }
}

// ---------------------------------------------------------------------------
// Plan limits
// ---------------------------------------------------------------------------
/// An entry of Meterd's `GET /v1/quota/snapshot` answer.
pub struct QuotaSnapshotEntry {
    pub meter_slug: String,
    pub limit: Option<u64>,
}

/// What came back from the snapshot call.
pub enum SnapshotReply {
    Parsed(Vec<QuotaSnapshotEntry>),
    Unparsable,
    Refused,
    Unreachable,
}

/// The limits found in a snapshot so far, meter by meter.
pub struct SnapshotLimits {
    pub max_connections: Option<u32>,
    pub max_streams: Option<u32>,
    pub api_rate_limit: Option<u32>,
    pub events_per_month: Option<u64>,
    pub retention_days: Option<u32>,
}

/// A limit as the 32-bit field that holds it (the low 32 bits).
pub open spec fn limit_u32(l: Option<u64>) -> Option<u32> {
    match l {
        Some(n) => Some(n as u32),
        None => None,
    }
}

/// The limits after reading entry `e`: a known meter takes the entry's limit.
pub open spec fn snapshot_step(s: SnapshotLimits, e: QuotaSnapshotEntry) -> SnapshotLimits {
    let slug = e.meter_slug@;
    if slug == "max_connections"@ {
        SnapshotLimits { max_connections: limit_u32(e.limit), ..s }
    } else if slug == "max_streams"@ {
        SnapshotLimits { max_streams: limit_u32(e.limit), ..s }
    } else if slug == "api_rate_limit"@ {
        SnapshotLimits { api_rate_limit: limit_u32(e.limit), ..s }
    } else if slug == "events_per_month"@ || slug == "events_published"@ {
        SnapshotLimits { events_per_month: e.limit, ..s }
    } else if slug == "retention_days"@ {
        SnapshotLimits { retention_days: limit_u32(e.limit), ..s }
    } else {
        s
    }
}

/// The limits read from `entries`, in order (a later entry for a meter wins).
pub open spec fn snapshot_limits(entries: Seq<QuotaSnapshotEntry>) -> SnapshotLimits
    decreases entries.len(),
{
    if entries.len() == 0 {
        SnapshotLimits {
            max_connections: None,
            max_streams: None,
            api_rate_limit: None,
            events_per_month: None,
            retention_days: None,
        }
    } else {
        snapshot_step(snapshot_limits(entries.drop_last()), entries.last())
    }
}

/// The plan limits of a snapshot: `None` unless every meter is present with a limit.
pub open spec fn plan_limits_of(entries: Seq<QuotaSnapshotEntry>) -> Option<PlanLimits> {
    let s = snapshot_limits(entries);
    if s.max_connections is Some && s.max_streams is Some && s.api_rate_limit is Some
        && s.events_per_month is Some && s.retention_days is Some {
        Some(
            PlanLimits {
                max_connections: s.max_connections->0,
                max_streams: s.max_streams->0,
                api_rate_limit: s.api_rate_limit->0,
                events_per_month: s.events_per_month->0,
                retention_days: s.retention_days->0,
            },
        )
    } else {
        None
    }
}

fn limit_to_u32(l: Option<u64>) -> (r: Option<u32>)
    ensures
        r == limit_u32(l),
{
    match l {
        Some(n) => Some(n as u32),
        None => None,
    }
}

/// Maps a quota snapshot to plan limits; `None` when a meter is missing.
pub fn plan_limits_from_snapshot(entries: &Vec<QuotaSnapshotEntry>) -> (r: Option<PlanLimits>)
    ensures
        r == plan_limits_of(entries@),
{
    let mut s = SnapshotLimits {
        max_connections: None,
        max_streams: None,
        api_rate_limit: None,
        events_per_month: None,
        retention_days: None,
    };
    let mut i: usize = 0;
    while i < entries.len()
        invariant
            i <= entries.len(),
            s == snapshot_limits(entries@.subrange(0, i as int)),
        decreases entries.len() - i,
    {
        let e = &entries[i];
        proof {
            assert(entries@.subrange(0, i + 1).drop_last() =~= entries@.subrange(0, i as int));
        }
        let slug = e.meter_slug.as_str();
        if str_eq(slug, "max_connections") {
            s.max_connections = limit_to_u32(e.limit);
        } else if str_eq(slug, "max_streams") {
            s.max_streams = limit_to_u32(e.limit);
        } else if str_eq(slug, "api_rate_limit") {
            s.api_rate_limit = limit_to_u32(e.limit);
        } else if str_eq(slug, "events_per_month") || str_eq(slug, "events_published") {
            s.events_per_month = e.limit;
        } else if str_eq(slug, "retention_days") {
            s.retention_days = limit_to_u32(e.limit);
        }
        i = i + 1;
    }
    proof {
        assert(entries@.subrange(0, entries@.len() as int) =~= entries@);
    }
    match (s.max_connections, s.max_streams, s.api_rate_limit, s.events_per_month, s.retention_days) {
        (Some(max_connections), Some(max_streams), Some(api_rate_limit), Some(events_per_month), Some(retention_days)) => Some(
            PlanLimits { max_connections, max_streams, api_rate_limit, events_per_month, retention_days },
        ),
        _ => None,
    }
}

/// The plan limits of a completed snapshot call.
pub open spec fn snapshot_reply_limits(reply: SnapshotReply) -> Option<PlanLimits> {
    match reply {
        SnapshotReply::Parsed(entries) => plan_limits_of(entries@),
        _ => None,
    }
}

// ---------------------------------------------------------------------------
// Client
// ---------------------------------------------------------------------------
/// The key that makes a usage event idempotent: `herald_{millis}_{random}`.
pub fn idempotency_key(now_ms: u64, random: &str) -> (k: String)
    ensures
        k@ == "herald_"@ + decimal(now_ms as nat) + "_"@ + random@,
{
    let mut k = String::from_str("herald_");
    let m = u64_to_string(now_ms);
    k.append(m.as_str());
    k.append("_");
    k.append(random);
    k
}

/// A fresh idempotency key for a usage event recorded at `now_ms`: its random part is a
/// version-4 UUID; `None` when the random source failed.
pub fn new_idempotency_key(now_ms: u64) -> (r: Option<String>)
    ensures
        r matches Some(k) ==> exists|u: Seq<char>|
            #[trigger] uuid_v4_text(u) && k@ == "herald_"@ + decimal(now_ms as nat) + "_"@ + u,
{
    match fresh_id() {
        Some(u) => {
            let k = idempotency_key(now_ms, u.as_str());
            assert(uuid_v4_text(u@));
            Some(k)
        },
        None => None,
    }
}

/// Whether `k` is an idempotency key made at `now_ms`: `herald_{now_ms}_{uuid}`, with a
/// version-4 UUID as its random part.
pub open spec fn is_idempotency_key_at(k: Seq<char>, now_ms: u64) -> bool {
    exists|r: Seq<char>| #[trigger] uuid_v4_text(r) && k == "herald_"@ + decimal(now_ms as nat) + "_"@ + r
}

/// A usage event for Meterd. `V` is how the caller represents the event's numeric value;
/// the library carries it through without reading it.
pub struct IngestEvent<V> {
    pub event_type: String,
    pub customer_id: String,
    pub value: V,
    /// Seconds since the epoch.
    pub timestamp: i64,
    pub idempotency_key: String,
    pub properties: Option<JsonValue>,
}

/// Whether `e` is the usage event `(event_type, customer_id, value, properties)` recorded
/// at `now_ms`.
pub open spec fn usage_event_at<V>(
    e: IngestEvent<V>,
    event_type: Seq<char>,
    customer_id: Seq<char>,
    value: V,
    properties: Option<JsonValue>,
    now_ms: u64,
) -> bool {
    &&& e.event_type@ == event_type
    &&& e.customer_id@ == customer_id
    &&& e.value == value
    &&& e.timestamp == now_ms / 1000
    &&& e.properties == properties
    &&& is_idempotency_key_at(e.idempotency_key@, now_ms)
}

impl<V> IngestEvent<V> {
    /// The usage event recorded at `now_ms` whose idempotency key has the random part
    /// `random`.
    pub fn with_key(
        event_type: &str,
        customer_id: &str,
        value: V,
        properties: Option<JsonValue>,
        now_ms: u64,
        random: &str,
    ) -> (e: IngestEvent<V>)
        ensures
            e.event_type@ == event_type@,
            e.customer_id@ == customer_id@,
            e.value == value,
            e.timestamp == now_ms / 1000,
            e.properties == properties,
            e.idempotency_key@ == "herald_"@ + decimal(now_ms as nat) + "_"@ + random@,
    {
        IngestEvent {
            event_type: copy_str(event_type),
            customer_id: copy_str(customer_id),
            value,
            timestamp: (now_ms / 1000) as i64,
            idempotency_key: idempotency_key(now_ms, random),
            properties,
        }
    }

    /// The usage event recorded at `now_ms`, with a fresh idempotency key; `None` when
    /// the random source failed.
    pub fn new_at(
        event_type: &str,
        customer_id: &str,
        value: V,
        properties: Option<JsonValue>,
        now_ms: u64,
    ) -> (r: Option<IngestEvent<V>>)
        ensures
            r matches Some(e) ==> usage_event_at(e, event_type@, customer_id@, value, properties, now_ms),
    {
        match fresh_id() {
            Some(u) => {
                let e = IngestEvent::with_key(event_type, customer_id, value, properties, now_ms, u.as_str());
                assert(uuid_v4_text(u@));
                Some(e)
            },
            None => None,
        }
    }

    /// The usage event recorded now; `None` when the random source failed.
    pub fn new(event_type: &str, customer_id: &str, value: V, properties: Option<JsonValue>) -> (r:
        Option<IngestEvent<V>>)
        ensures
            r matches Some(e) ==> exists|now_ms: u64|
                #[trigger] usage_event_at(e, event_type@, customer_id@, value, properties, now_ms),
    {
        let now_ms = now_millis_u64();
        IngestEvent::new_at(event_type, customer_id, value, properties, now_ms)
    }
}

/// The content of a quota check's body.
pub open spec fn quota_body_data(meter_slug: Seq<char>, customer_id: Seq<char>, requested: u64) -> JsonData {
    JsonData::Object(
        seq![
            ("customer_external_id"@, JsonData::Text(customer_id)),
            ("meter_slug"@, JsonData::Text(meter_slug)),
            ("requested"@, JsonData::Number(JsonNumber::PosInt(requested))),
        ],
    )
}

/// What a quota check does first: answer at once, or make a call.
pub enum QuotaStep {
    /// The answer; no call is made.
    Answer(QuotaResult),
    /// POST `body` to `url` with the `Authorization` header `authorization`.
    Call { url: String, authorization: String, body: JsonValue },
}

/// The body of a quota check for `requested` units of `meter_slug` by `customer_id`:
/// `{"customer_external_id": .., "meter_slug": .., "requested": ..}`, members in key order.
pub fn quota_check_body(meter_slug: &str, customer_id: &str, requested: u64) -> (b: JsonValue)
    ensures
        b@ == quota_body_data(meter_slug@, customer_id@, requested),
{
    let mut members: Vec<(String, JsonValue)> = Vec::new();
    members.push(
        (String::from_str("customer_external_id"), JsonValue::Text(copy_str(customer_id))),
    );
    members.push((String::from_str("meter_slug"), JsonValue::Text(copy_str(meter_slug))));
    members.push(
        (String::from_str("requested"), JsonValue::Number(JsonNumber::PosInt(requested))),
    );
    proof {
        reveal_with_fuel(crate::json::json_view_members, 4);
        assert(members@.drop_last().drop_last().drop_last() =~= Seq::<(String, JsonValue)>::empty());
        assert(members@.drop_last().drop_last() =~= seq![members@[0]]);
        assert(members@.drop_last() =~= seq![members@[0], members@[1]]);
        assert(crate::json::json_view_members(members@) =~= seq![
            ("customer_external_id"@, JsonData::Text(customer_id@)),
            ("meter_slug"@, JsonData::Text(meter_slug@)),
            ("requested"@, JsonData::Number(JsonNumber::PosInt(requested))),
        ]);
    }
    JsonValue::Object(members)
}

/// The Meterd client's state: its configuration, the usage events not yet delivered
/// (with their values of type `V`), and its breaker.
pub struct MeteringClient<V> {
    config: MeteringConfig,
    buffer: Vec<IngestEvent<V>>,
    breaker: CircuitBreaker,
}

impl<V> MeteringClient<V> {
    pub closed spec fn pending(&self) -> Seq<IngestEvent<V>> {
        self.buffer@
    }

    pub closed spec fn breaker_state(&self) -> MeterBreakerModel {
        self.breaker@
    }

    pub closed spec fn spec_config(&self) -> MeteringConfig {
        self.config
    }

    pub fn new(config: MeteringConfig) -> (c: MeteringClient<V>)
        ensures
            c.pending() == Seq::<IngestEvent<V>>::empty(),
            c.spec_config() == config,
            c.breaker_state() == (MeterBreakerModel {
                state: CircuitState::Closed,
                failures: 0,
                last_failure_ms: None,
                threshold: 5,
                cooldown_ms: 30_000,
            }),
    {
        MeteringClient { config, buffer: Vec::new(), breaker: CircuitBreaker::new(5, 30_000) }
    }

    pub fn config(&self) -> (c: &MeteringConfig)
        ensures
            *c == self.spec_config(),
    {
        &self.config
    }

    /// Queues a usage event for the next flush.
    pub fn push_event(&mut self, e: IngestEvent<V>)
        ensures
            final(self).pending() == old(self).pending().push(e),
            final(self).breaker_state() == old(self).breaker_state(),
            final(self).spec_config() == old(self).spec_config(),
    {
        self.buffer.push(e);
    }

    /// Queues, for the next flush, a usage event recorded at `now_ms`; `false`, with
    /// nothing queued, when the random source for its idempotency key failed.
    pub fn track_at(
        &mut self,
        event_type: &str,
        customer_id: &str,
        value: V,
        properties: Option<JsonValue>,
        now_ms: u64,
    ) -> (queued: bool)
        ensures
            final(self).breaker_state() == old(self).breaker_state(),
            final(self).spec_config() == old(self).spec_config(),
            !queued ==> final(self).pending() == old(self).pending(),
            queued ==> final(self).pending().len() == old(self).pending().len() + 1
                && final(self).pending().drop_last() == old(self).pending() && usage_event_at(
                final(self).pending().last(),
                event_type@,
                customer_id@,
                value,
                properties,
                now_ms,
            ),
    {
        match IngestEvent::new_at(event_type, customer_id, value, properties, now_ms) {
            Some(e) => {
                self.push_event(e);
                assert(self.buffer@.drop_last() =~= old(self).buffer@);
                true
            },
            None => false,
        }
    }

    /// Queues, for the next flush, a usage event recorded now; `false`, with nothing
    /// queued, when the random source for its idempotency key failed.
    pub fn track(&mut self, event_type: &str, customer_id: &str, value: V, properties: Option<
        JsonValue,
    >) -> (queued: bool)
        ensures
            final(self).breaker_state() == old(self).breaker_state(),
            final(self).spec_config() == old(self).spec_config(),
            !queued ==> final(self).pending() == old(self).pending(),
            queued ==> final(self).pending().len() == old(self).pending().len() + 1
                && final(self).pending().drop_last() == old(self).pending() && exists|now_ms: u64|
                #[trigger] usage_event_at(
                final(self).pending().last(),
                event_type@,
                customer_id@,
                value,
                properties,
                now_ms,
            ),
    {
        let now_ms = now_millis_u64();
        self.track_at(event_type, customer_id, value, properties, now_ms)
    }

    /// The number of events waiting to be delivered.
    pub fn pending_count(&self) -> (n: usize)
        ensures
            n == self.pending().len(),
    {
        self.buffer.len()
    }

    /// Starts a flush at `now`: the batch to send (the oldest events, at most
    /// `batch_size` of them), or `None` when the breaker refuses or nothing is pending,
    /// in which case nothing is taken from the buffer.
    pub fn begin_flush_at(&mut self, now_ms: u64) -> (r: Option<Vec<IngestEvent<V>>>)
        ensures
            final(self).breaker_state() == old(self).breaker_state().after_allow(now_ms),
            final(self).spec_config() == old(self).spec_config(),
            ({
                let n = if old(self).pending().len() < old(self).spec_config().batch_size {
                    old(self).pending().len() as int
                } else {
                    old(self).spec_config().batch_size as int
                };
                if !old(self).breaker_state().allows(now_ms) || old(self).pending().len() == 0 {
                    r is None && final(self).pending() == old(self).pending()
                } else {
                    r matches Some(batch) && batch@ == old(self).pending().take(n)
                        && final(self).pending() == old(self).pending().skip(n)
                }
            }),
    {
        if !self.breaker.allow_request_at(now_ms) {
            return None;
        }
        if self.buffer.len() == 0 {
            return None;
        }
        let n = if self.buffer.len() < self.config.batch_size {
            self.buffer.len()
        } else {
            self.config.batch_size
        };
        let mut batch: Vec<IngestEvent<V>> = Vec::new();
        std::mem::swap(&mut batch, &mut self.buffer);
        let rest = batch.split_off(n);
        self.buffer = rest;
        Some(batch)
    }

    /// Ends a flush of `batch` at `now`: a delivered batch closes the breaker; an
    /// undelivered one counts a failure and goes back to the front of the buffer.
    pub fn finish_flush_at(&mut self, batch: Vec<IngestEvent<V>>, delivered: bool, now_ms: u64)
        requires
            old(self).breaker_state().failures < u64::MAX,
        ensures
            final(self).spec_config() == old(self).spec_config(),
            delivered ==> final(self).pending() == old(self).pending()
                && final(self).breaker_state() == old(self).breaker_state().after_success(),
            !delivered ==> final(self).pending() == batch@ + old(self).pending()
                && final(self).breaker_state() == old(self).breaker_state().after_failure(now_ms),
    {
        if delivered {
            self.breaker.record_success();
        } else {
            self.breaker.record_failure_at(now_ms);
            let mut retry = batch;
            let mut rest: Vec<IngestEvent<V>> = Vec::new();
            std::mem::swap(&mut rest, &mut self.buffer);
            retry.append(&mut rest);
            self.buffer = retry;
        }
    }

    /// Starts a quota check at `now` for `requested` units of `meter_slug` by
    /// `customer_id`: the fail-open answer when the breaker refuses (no call is made),
    /// otherwise the request to send.
    pub fn begin_quota_check_at(
        &mut self,
        meter_slug: &str,
        customer_id: &str,
        requested: u64,
        now_ms: u64,
    ) -> (r: QuotaStep)
        ensures
            final(self).breaker_state() == old(self).breaker_state().after_allow(now_ms),
            final(self).pending() == old(self).pending(),
            final(self).spec_config() == old(self).spec_config(),
            old(self).breaker_state().allows(now_ms) ==> (r matches QuotaStep::Call {
                url,
                authorization,
                body,
            } && url@ == old(self).spec_config().base_url@ + "/v1/quota/check"@
                && authorization@ == "Bearer "@ + old(self).spec_config().api_key@
                && body@ == quota_body_data(meter_slug@, customer_id@, requested)),
            !old(self).breaker_state().allows(now_ms) ==> r == QuotaStep::Answer(
                QuotaResult::spec_fail_open(),
            ),
    {
        if self.breaker.allow_request_at(now_ms) {
            QuotaStep::Call {
                url: self.quota_check_url(),
                authorization: self.authorization(),
                body: quota_check_body(meter_slug, customer_id, requested),
            }
        } else {
            QuotaStep::Answer(QuotaResult::fail_open())
        }
    }

    /// Ends a quota check with what the call returned: a success status closes the
    /// breaker, any other outcome counts a failure and fails open.
    pub fn finish_quota_check_at(&mut self, reply: QuotaReply, now_ms: u64) -> (r: QuotaResult)
        requires
            old(self).breaker_state().failures < u64::MAX,
        ensures
            r == quota_reply_result(reply),
            final(self).pending() == old(self).pending(),
            final(self).spec_config() == old(self).spec_config(),
            final(self).breaker_state() == match reply {
                QuotaReply::Parsed(_) | QuotaReply::Unparsable => old(
                    self,
                ).breaker_state().after_success(),
                _ => old(self).breaker_state().after_failure(now_ms),
            },
    {
        match reply {
            QuotaReply::Parsed(qr) => {
                self.breaker.record_success();
                QuotaResult::from_response(&qr)
            },
            QuotaReply::Unparsable => {
                self.breaker.record_success();
                QuotaResult::fail_open()
            },
            _ => {
                self.breaker.record_failure_at(now_ms);
                QuotaResult::fail_open()
            },
        }
    }

    /// Starts a plan-limits fetch at `now`: whether the call is to be made.
    pub fn begin_plan_limits_at(&mut self, now_ms: u64) -> (r: bool)
        ensures
            r == old(self).breaker_state().allows(now_ms),
            final(self).breaker_state() == old(self).breaker_state().after_allow(now_ms),
            final(self).pending() == old(self).pending(),
            final(self).spec_config() == old(self).spec_config(),
    {
        self.breaker.allow_request_at(now_ms)
    }

    /// Ends a plan-limits fetch with what the call returned.
    pub fn finish_plan_limits_at(&mut self, reply: SnapshotReply, now_ms: u64) -> (r: Option<
        PlanLimits,
    >)
        requires
            old(self).breaker_state().failures < u64::MAX,
        ensures
            r == snapshot_reply_limits(reply),
            final(self).pending() == old(self).pending(),
            final(self).spec_config() == old(self).spec_config(),
            final(self).breaker_state() == match reply {
                SnapshotReply::Parsed(_) | SnapshotReply::Unparsable => old(
                    self,
                ).breaker_state().after_success(),
                _ => old(self).breaker_state().after_failure(now_ms),
            },
    {
        match reply {
            SnapshotReply::Parsed(entries) => {
                self.breaker.record_success();
                plan_limits_from_snapshot(&entries)
            },
            SnapshotReply::Unparsable => {
                self.breaker.record_success();
                None
            },
            _ => {
                self.breaker.record_failure_at(now_ms);
                None
            },
        }
    }

    /// Whether the breaker is open.
    pub fn is_open(&self) -> (r: bool)
        ensures
            r == (self.breaker_state().state == CircuitState::Open),
    {
        self.breaker.is_open()
    }

    /// Whether another failure can be counted.
    pub fn can_count_failure(&self) -> (r: bool)
        ensures
            r == (self.breaker_state().failures < u64::MAX),
    {
        self.breaker.failure_count() < u64::MAX
    }

    /// `{base_url}/v1/events/batch`.
    pub fn batch_url(&self) -> (s: String)
        ensures
            s@ == self.spec_config().base_url@ + "/v1/events/batch"@,
    {
        let mut s = copy_str(self.config.base_url.as_str());
        s.append("/v1/events/batch");
        s
    }

    /// `{base_url}/v1/quota/check`.
    pub fn quota_check_url(&self) -> (s: String)
        ensures
            s@ == self.spec_config().base_url@ + "/v1/quota/check"@,
    {
        let mut s = copy_str(self.config.base_url.as_str());
        s.append("/v1/quota/check");
        s
    }

    /// `{base_url}/v1/quota/snapshot?customer={customer_id}`.
    pub fn snapshot_url(&self, customer_id: &str) -> (s: String)
        ensures
            s@ == self.spec_config().base_url@ + "/v1/quota/snapshot?customer="@ + customer_id@,
    {
        let mut s = copy_str(self.config.base_url.as_str());
        s.append("/v1/quota/snapshot?customer=");
        s.append(customer_id);
        s
    }

    /// The `Authorization` header: `Bearer {api_key}`.
    pub fn authorization(&self) -> (s: String)
        ensures
            s@ == "Bearer "@ + self.spec_config().api_key@,
    {
        let mut s = String::from_str("Bearer ");
        s.append(self.config.api_key.as_str());
        s
    }
}

/// A quota check never refuses while the breaker refuses calls: it fails open.
pub proof fn lemma_quota_fails_open(reply: QuotaReply)
    requires
        !(reply is Parsed),
    ensures
        quota_reply_result(reply).allowed,
        !quota_reply_result(reply).soft_overage,
{
}

/// A soft-cap overage is always allowed, and a refusal is never a soft-cap overage.
pub proof fn lemma_soft_overage_allowed(qr: QuotaCheckResponse)
    ensures
        QuotaResult::spec_from_response(qr).soft_overage ==> QuotaResult::spec_from_response(
            qr,
        ).allowed,
        !QuotaResult::spec_from_response(qr).allowed ==> !QuotaResult::spec_from_response(
            qr,
        ).soft_overage,
        qr.allowed ==> QuotaResult::spec_from_response(qr).allowed,
{
}

/// A flush that fails loses no event: the batch taken goes back in front of what
/// remained, so the buffer is as it was before the flush.
pub proof fn lemma_failed_flush_keeps_events<E>(pending: Seq<E>, n: int)
    requires
        0 <= n <= pending.len(),
    ensures
        pending.take(n) + pending.skip(n) == pending,
{
    assert(pending.take(n) + pending.skip(n) =~= pending);
}

} // verus!
