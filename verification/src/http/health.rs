//! The health, liveness and readiness probes, and the tenant statistics query.
use vstd::prelude::*;
use vstd::string::*;
use crate::http::openapi::{HealthResponse, LivenessResponse, ReadinessResponse};

verus! {

broadcast use vstd::string::group_string_axioms;

/// The span of snapshots shown when none is asked for: one day, in milliseconds.
pub const STATS_WINDOW_MS: i64 = 86_400_000;

/// The query of `GET /stats`: the span of snapshots, in Unix milliseconds.
pub struct TenantStatsQuery {
    pub from: Option<i64>,
    pub to: Option<i64>,
}

impl TenantStatsQuery {
    /// The span asked for: from a day before `now_ms` and up to `now_ms`, unless given.
    pub fn window(&self, now_ms: i64) -> (w: (i64, i64))
        requires
            now_ms >= i64::MIN + STATS_WINDOW_MS,
        ensures
            w.0 == match self.from {
                Some(f) => f as int,
                None => now_ms - STATS_WINDOW_MS,
            },
            w.1 == match self.to {
                Some(t) => t,
                None => now_ms,
            },
    {
        let default_from = now_ms - STATS_WINDOW_MS;
        let from = match self.from {
            Some(f) => f,
            None => default_from,
        };
        let to = match self.to {
            Some(t) => t,
            None => now_ms,
        };
        (from, to)
    }
}

/// The health report and its HTTP status: `ok` with 200 while storage is ready, else
/// `degraded` with 503.
pub fn health_report(
    storage_ok: bool,
    sentry: bool,
    connections: usize,
    streams: usize,
    tenants: usize,
    uptime_secs: u64,
) -> (r: (u16, HealthResponse))
    ensures
        r.0 == (if storage_ok {
            200u16
        } else {
            503u16
        }),
        r.1.status@ == (if storage_ok {
            "ok"@
        } else {
            "degraded"@
        }),
        r.1.connections == connections,
        r.1.streams == streams,
        r.1.tenants == tenants,
        r.1.uptime_secs == uptime_secs,
        r.1.storage == storage_ok,
        r.1.sentry == sentry,
{
    let status = if storage_ok {
        String::from_str("ok")
    } else {
        String::from_str("degraded")
    };
    let code: u16 = if storage_ok {
        200
    } else {
        503
    };
    (code, HealthResponse { status, connections, streams, tenants, uptime_secs, storage: storage_ok, sentry })
}

/// The liveness report: always `alive`.
pub fn liveness_report() -> (r: LivenessResponse)
    ensures
        r.status@ == "alive"@,
{
    LivenessResponse { status: String::from_str("alive") }
}

/// The readiness report and its HTTP status: `ready` with 200 while storage is ready,
/// else `not_ready` with 503.
pub fn readiness_report(storage_ok: bool, sentry: bool) -> (r: (u16, ReadinessResponse))
    ensures
        r.0 == (if storage_ok {
            200u16
        } else {
            503u16
        }),
        r.1.status@ == (if storage_ok {
            "ready"@
        } else {
            "not_ready"@
        }),
        r.1.storage == storage_ok,
        r.1.sentry == sentry,
{
    let status = if storage_ok {
        String::from_str("ready")
    } else {
        String::from_str("not_ready")
    };
    let code: u16 = if storage_ok {
        200
    } else {
        503
    };
    (code, ReadinessResponse { status, storage: storage_ok, sentry })
}

} // verus!
