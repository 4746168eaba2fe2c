//! The bodies of the API's responses, as its OpenAPI document describes them.
use vstd::prelude::*;
use crate::json::JsonValue;
use crate::presence::PresenceStatus;
use crate::http::validation::PaginationQuery;

verus! {

/// The body of every refused request.
pub struct ErrorResponse {
    /// Human-readable error message.
    pub error: String,
}

/// The items of `s` that a page with `limit` and `offset` shows: those from `offset` on,
/// at most `limit` of them.
pub open spec fn page_window<T>(s: Seq<T>, limit: int, offset: int) -> Seq<T> {
    if offset >= s.len() {
        Seq::empty()
    } else if limit < s.len() - offset {
        s.skip(offset).take(limit)
    } else {
        s.skip(offset)
    }
}

/// The page of `items` from `offset` on, at most `limit` of them.
pub fn page_items<T>(items: Vec<T>, limit: usize, offset: usize) -> (r: Vec<T>)
    ensures
        r@ == page_window(items@, limit as int, offset as int),
{
    let mut items = items;
    if offset >= items.len() {
        return Vec::new();
    }
    let mut rest = items.split_off(offset);
    if limit < rest.len() {
        let _ = rest.split_off(limit);
    }
    rest
}

/// A page of a tenant's streams (`S` describes a stream, as the store keeps it).
pub struct StreamListResponse<S> {
    pub streams: Vec<S>,
    pub total: usize,
    pub limit: usize,
    pub offset: usize,
}

impl<S> StreamListResponse<S> {
    /// The page that `q` asks for of all the tenant's streams.
    pub fn page(streams: Vec<S>, q: &PaginationQuery) -> (r: StreamListResponse<S>)
        ensures
            r.total == streams@.len(),
            r.limit == match q.limit {
                Some(l) => if l < 500 {
                    l
                } else {
                    500
                },
                None => 50,
            },
            r.offset == match q.offset {
                Some(o) => o,
                None => 0,
            },
            r.streams@ == page_window(streams@, r.limit as int, r.offset as int),
    {
        let (limit, offset) = q.resolve();
        let total = streams.len();
        StreamListResponse { streams: page_items(streams, limit, offset), total, limit, offset }
    }
}

/// A page of a stream's members (`M` describes a member, as the store keeps it).
pub struct MemberListResponse<M> {
    pub members: Vec<M>,
    pub total: usize,
    pub limit: usize,
    pub offset: usize,
}

impl<M> MemberListResponse<M> {
    /// The page that `q` asks for of all the stream's members.
    pub fn page(members: Vec<M>, q: &PaginationQuery) -> (r: MemberListResponse<M>)
        ensures
            r.total == members@.len(),
            r.limit == match q.limit {
                Some(l) => if l < 500 {
                    l
                } else {
                    500
                },
                None => 50,
            },
            r.offset == match q.offset {
                Some(o) => o,
                None => 0,
            },
            r.members@ == page_window(members@, r.limit as int, r.offset as int),
    {
        let (limit, offset) = q.resolve();
        let total = members.len();
        MemberListResponse { members: page_items(members, limit, offset), total, limit, offset }
    }
}

/// An event as listed.
pub struct EventView {
    pub id: String,
    pub stream: String,
    pub seq: u64,
    pub sender: String,
    pub body: String,
    pub meta: Option<JsonValue>,
    pub parent_id: Option<String>,
    pub edited_at: Option<i64>,
    pub sent_at: i64,
}

/// A page of events.
pub struct EventListResponse {
    pub events: Vec<EventView>,
    pub has_more: bool,
}

/// The answer to a published event.
pub struct EventPublishResponse {
    pub id: String,
    pub seq: u64,
    pub sent_at: i64,
}

/// How much a purge deleted.
pub struct PurgeResponse {
    pub deleted: usize,
}

/// A user's presence.
pub struct UserPresenceResponse {
    pub user_id: String,
    pub status: PresenceStatus,
    pub connections: usize,
    /// Unix milliseconds of the last disconnect; none while the user is online.
    pub last_seen_at: Option<i64>,
}

/// A stream member's presence.
pub struct StreamPresenceMember {
    pub user_id: String,
    pub status: PresenceStatus,
    /// Unix milliseconds of the last disconnect; none while the user is online.
    pub last_seen_at: Option<i64>,
}

/// The presence of a stream's members.
pub struct StreamPresenceResponse {
    pub members: Vec<StreamPresenceMember>,
}

/// One user's presence in a batch.
pub struct BatchPresenceUser {
    pub user_id: String,
    pub status: PresenceStatus,
    pub connections: usize,
    /// Unix milliseconds of the last disconnect; none while the user is online.
    pub last_seen_at: Option<i64>,
}

/// The presence of a batch of users.
pub struct BatchPresenceResponse {
    pub users: Vec<BatchPresenceUser>,
}

/// The users a user has blocked.
pub struct BlockListResponse {
    pub blocked: Vec<String>,
}

/// The health report.
pub struct HealthResponse {
    /// `"ok"` or `"degraded"`.
    pub status: String,
    pub connections: usize,
    pub streams: usize,
    pub tenants: usize,
    pub uptime_secs: u64,
    pub storage: bool,
    pub sentry: bool,
}

/// The liveness report.
pub struct LivenessResponse {
    /// Always `"alive"`.
    pub status: String,
}

/// The readiness report.
pub struct ReadinessResponse {
    /// `"ready"` or `"not_ready"`.
    pub status: String,
    pub storage: bool,
    pub sentry: bool,
}

/// A tenant's current counters.
pub struct TenantStatsCurrent {
    pub connections: u64,
    pub events_published: u64,
    pub webhooks_sent: u64,
    pub streams: u64,
}

/// A tenant's counters and its recorded snapshots.
pub struct TenantStatsResponse {
    pub current: TenantStatsCurrent,
    pub snapshots: Vec<JsonValue>,
}

/// Today's totals.
pub struct TodaySummary {
    pub peak_connections: u64,
    pub events_today: u64,
    pub webhooks_today: u64,
}

/// Today's totals and the recorded snapshots.
pub struct AdminStatsResponse {
    pub today: TodaySummary,
    pub snapshots: Vec<JsonValue>,
}

/// A tenant just created, with its credentials.
pub struct TenantCreateResponse {
    pub id: String,
    pub name: String,
    pub plan: String,
    pub key: String,
    pub secret: String,
    pub created_at: i64,
}

/// A tenant as fetched.
pub struct TenantGetResponse {
    pub id: String,
    pub name: String,
    pub plan: String,
    pub key: String,
    pub config: JsonValue,
    pub event_ttl_days: Option<u64>,
    pub created_at: i64,
}

/// A tenant as listed.
pub struct TenantListItem {
    pub id: String,
    pub name: String,
    pub plan: String,
    pub created_at: i64,
}

/// A page of tenants.
pub struct TenantListResponse {
    pub tenants: Vec<TenantListItem>,
    pub total: usize,
    pub limit: usize,
    pub offset: usize,
}

/// An API token just created.
pub struct TokenCreateResponse {
    pub token: String,
    pub scope: Option<String>,
}

/// An API token as listed.
pub struct TokenView {
    pub token: String,
    pub scope: Option<String>,
}

/// A page of API tokens.
pub struct TokenListResponse {
    pub tokens: Vec<TokenView>,
    pub total: usize,
    pub limit: usize,
    pub offset: usize,
}

/// A tenant's own API tokens.
pub struct SelfTokenListResponse {
    pub tokens: Vec<TokenView>,
}

/// The number of live connections of one tenant.
pub struct TenantConnectionCount {
    pub tenant_id: String,
    pub connections: usize,
}

/// The live connections, in all and per tenant.
pub struct ConnectionListResponse {
    pub total: usize,
    pub by_tenant: Vec<TenantConnectionCount>,
}

/// A tenant's own live connections.
pub struct SelfConnectionResponse {
    pub tenant_id: String,
    pub connections: usize,
}

/// Recent admin events.
pub struct AdminEventListResponse {
    pub events: Vec<JsonValue>,
}

/// Recent errors.
pub struct ErrorListResponse {
    pub errors: Vec<JsonValue>,
}

/// A tenant's new credentials.
pub struct RotateSecretResponse {
    pub key: String,
    pub secret: String,
}

/// An audit event as listed.
pub struct AuditEventView {
    pub id: String,
    pub timestamp: u64,
    pub operation: String,
    pub resource_type: String,
    pub resource_id: String,
    pub actor: String,
    pub result: String,
    pub tenant_id: Option<String>,
    pub diff: Option<JsonValue>,
}

/// The audit events matching a query.
pub struct AuditQueryResponse {
    pub events: Vec<AuditEventView>,
    pub matched: usize,
}

/// The number of audit events matching a query.
pub struct AuditCountResponse {
    pub count: usize,
}

/// The API's OpenAPI document; app/ derives its content from the schemas above.
pub struct ApiDoc;

} // verus!
