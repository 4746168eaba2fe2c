//! The integrations behind a circuit breaker (5 consecutive failures, 30 s cooldown)
//! and a 10 s timeout.
//!
//! Each call runs in two steps: `begin_at` asks the breaker whether the call may go,
//! the caller makes it, and `finish_at` takes what came back (or that it timed out),
//! updates the breaker and gives the caller's result. Authorization fails open: while
//! the breaker refuses, and on a timeout, a request is permitted; a denial is a
//! successful answer and does not count against the breaker.
use vstd::prelude::*;
use vstd::string::*;
use crate::integrations::circuit_breaker::{CircuitBreaker, BreakerModel, State, open_message, probe_message};
use crate::integrations::{SentryError, CourierError, ChronicleError, CipherError, VeilError};

verus! {

broadcast use vstd::string::group_string_axioms;

/// Consecutive failures that open a breaker.
pub const DEFAULT_FAILURE_THRESHOLD: u32 = 5;

/// How long an open breaker refuses calls, in milliseconds.
pub const DEFAULT_COOLDOWN_MS: u64 = 30_000;

/// How long a call may take, in milliseconds.
pub const DEFAULT_TIMEOUT_MS: u64 = 10_000;

/// What a guarded call gave: its result, or nothing within the timeout.
pub enum CallOutcome<T, E> {
    Returned(Result<T, E>),
    TimedOut,
}

/// A breaker freshly set up for the service `name`.
pub open spec fn fresh_breaker() -> BreakerModel {
    BreakerModel {
        state: State::Closed,
        failures: 0,
        last_failure_ms: None,
        failure_threshold: DEFAULT_FAILURE_THRESHOLD,
        cooldown_ms: DEFAULT_COOLDOWN_MS,
        probe_in_progress: false,
    }
}

/// The authorization service behind a breaker; it fails open.
pub struct ResilientSentry {
    cb: CircuitBreaker,
}

impl ResilientSentry {
    pub closed spec fn breaker(&self) -> BreakerModel {
        self.cb@
    }

    pub fn new() -> (r: ResilientSentry)
        ensures
            r.breaker() == fresh_breaker(),
    {
        ResilientSentry {
            cb: CircuitBreaker::new("sentry", DEFAULT_FAILURE_THRESHOLD, DEFAULT_COOLDOWN_MS),
        }
    }

    /// How long a call may take, in milliseconds.
    pub fn timeout_ms(&self) -> (t: u64)
        ensures
            t == DEFAULT_TIMEOUT_MS,
    {
        DEFAULT_TIMEOUT_MS
    }

    /// Starts an authorization at `now`: `None` when the service is to be asked, else the
    /// answer without asking, which permits (the breaker refuses calls).
    pub fn begin_at(&mut self, now_ms: u64) -> (r: Option<Result<(), SentryError>>)
        ensures
            old(self).breaker().admits(now_ms) ==> r is None,
            !old(self).breaker().admits(now_ms) ==> r matches Some(Ok(())),
            final(self).breaker() == old(self).breaker().after_check(now_ms),
    {
        if self.cb.check_at(now_ms).is_ok() {
            None
        } else {
            Some(Ok(()))
        }
    }

    /// The authorization given what the service answered at `now`.
    pub fn finish_at(&mut self, outcome: CallOutcome<(), SentryError>, now_ms: u64) -> (r: Result<
        (),
        SentryError,
    >)
        requires
            old(self).breaker().failures < u32::MAX,
        ensures
            match outcome {
                CallOutcome::Returned(Ok(())) => r is Ok && final(self).breaker() == old(self).breaker().after_success(),
                CallOutcome::Returned(Err(SentryError::Denied(m))) => (r matches Err(SentryError::Denied(x)) && x == m)
                    && final(self).breaker() == old(self).breaker().after_success(),
                CallOutcome::Returned(Err(e)) => r == Err::<(), SentryError>(e) && final(self).breaker() == old(self).breaker().after_failure(now_ms),
                CallOutcome::TimedOut => r is Ok && final(self).breaker() == old(self).breaker().after_failure(now_ms),
            },
    {
        match outcome {
            CallOutcome::Returned(Ok(())) => {
                self.cb.record_success();
                Ok(())
            },
            CallOutcome::Returned(Err(SentryError::Denied(m))) => {
                self.cb.record_success();
                Err(SentryError::Denied(m))
            },
            CallOutcome::Returned(Err(e)) => {
                self.cb.record_failure_at(now_ms);
                Err(e)
            },
            CallOutcome::TimedOut => {
                self.cb.record_failure_at(now_ms);
                Ok(())
            },
        }
    }
}

/// A breaker in front of a service whose failures are reported to the caller.
pub struct Guard {
    cb: CircuitBreaker,
}

impl Guard {
    pub closed spec fn breaker(&self) -> BreakerModel {
        self.cb@
    }

    pub closed spec fn service(&self) -> Seq<char> {
        self.cb.spec_name()
    }

    pub fn new(service: &str) -> (g: Guard)
        ensures
            g.breaker() == fresh_breaker(),
            g.service() == service@,
    {
        Guard { cb: CircuitBreaker::new(service, DEFAULT_FAILURE_THRESHOLD, DEFAULT_COOLDOWN_MS) }
    }

    /// Whether a call may go at `now`; the breaker's reason when not.
    pub fn admit_at(&mut self, now_ms: u64) -> (r: Result<(), String>)
        ensures
            r is Ok == old(self).breaker().admits(now_ms),
            final(self).breaker() == old(self).breaker().after_check(now_ms),
            final(self).service() == old(self).service(),
            r matches Err(e) ==> e@ == (if old(self).breaker().state == State::Open {
                open_message(
                    old(self).service(),
                    old(self).breaker().cooldown_ms - old(self).breaker().elapsed(now_ms),
                )
            } else {
                probe_message(old(self).service())
            }),
    {
        self.cb.check_at(now_ms)
    }

    /// The caller's result of a call that came back with `outcome` at `now`: a result
    /// passes through (an error counting as a failure), a timeout is a failure that
    /// gives `timeout_error`.
    pub fn settle_at<T, E>(&mut self, outcome: CallOutcome<T, E>, now_ms: u64, timeout_error: E) -> (r:
        Result<T, E>)
        requires
            old(self).breaker().failures < u32::MAX,
        ensures
            final(self).service() == old(self).service(),
            match outcome {
                CallOutcome::Returned(Ok(v)) => r == Ok::<T, E>(v) && final(self).breaker() == old(self).breaker().after_success(),
                CallOutcome::Returned(Err(e)) => r == Err::<T, E>(e) && final(self).breaker()
                    == old(self).breaker().after_failure(now_ms),
                CallOutcome::TimedOut => r == Err::<T, E>(timeout_error) && final(self).breaker()
                    == old(self).breaker().after_failure(now_ms),
            },
    {
        match outcome {
            CallOutcome::Returned(Ok(v)) => {
                self.cb.record_success();
                Ok(v)
            },
            CallOutcome::Returned(Err(e)) => {
                self.cb.record_failure_at(now_ms);
                Err(e)
            },
            CallOutcome::TimedOut => {
                self.cb.record_failure_at(now_ms);
                Err(timeout_error)
            },
        }
    }
}

/// The notification service behind a breaker.
pub struct ResilientCourier {
    pub guard: Guard,
}

impl ResilientCourier {
    pub fn new() -> (r: ResilientCourier)
        ensures
            r.guard.breaker() == fresh_breaker(),
            r.guard.service() == "courier"@,
    {
        ResilientCourier { guard: Guard::new("courier") }
    }

    /// Whether a notification may go at `now`; `circuit open` when not.
    pub fn begin_at(&mut self, now_ms: u64) -> (r: Result<(), CourierError>)
        ensures
            r is Ok == old(self).guard.breaker().admits(now_ms),
            final(self).guard.breaker() == old(self).guard.breaker().after_check(now_ms),
            final(self).guard.service() == old(self).guard.service(),
            r matches Err(e) ==> (e matches CourierError::Connection(m) && m@ == "circuit open"@),
    {
        match self.guard.admit_at(now_ms) {
            Ok(()) => Ok(()),
            Err(_) => Err(CourierError::Connection(String::from_str("circuit open"))),
        }
    }

    /// The result of a notification that came back with `outcome` at `now`.
    pub fn finish_at(&mut self, outcome: CallOutcome<(), CourierError>, now_ms: u64) -> (r: Result<
        (),
        CourierError,
    >)
        requires
            old(self).guard.breaker().failures < u32::MAX,
        ensures
            final(self).guard.service() == old(self).guard.service(),
            match outcome {
                CallOutcome::Returned(Ok(v)) => r is Ok && final(self).guard.breaker() == old(self).guard.breaker().after_success(),
                CallOutcome::Returned(Err(e)) => r == Err::<(), CourierError>(e) && final(self).guard.breaker() == old(self).guard.breaker().after_failure(now_ms),
                CallOutcome::TimedOut => (r matches Err(CourierError::Connection(m)) && m@
                    == "request timeout"@) && final(self).guard.breaker() == old(self).guard.breaker().after_failure(now_ms),
            },
    {
        let t = CourierError::Connection(String::from_str("request timeout"));
        self.guard.settle_at(outcome, now_ms, t)
    }
}

/// The audit service behind a breaker.
pub struct ResilientChronicle {
    pub guard: Guard,
}

impl ResilientChronicle {
    pub fn new() -> (r: ResilientChronicle)
        ensures
            r.guard.breaker() == fresh_breaker(),
            r.guard.service() == "chronicle"@,
    {
        ResilientChronicle { guard: Guard::new("chronicle") }
    }

    /// Whether an event may go at `now`; `circuit open` when not.
    pub fn begin_at(&mut self, now_ms: u64) -> (r: Result<(), ChronicleError>)
        ensures
            r is Ok == old(self).guard.breaker().admits(now_ms),
            final(self).guard.breaker() == old(self).guard.breaker().after_check(now_ms),
            final(self).guard.service() == old(self).guard.service(),
            r matches Err(e) ==> (e matches ChronicleError::Connection(m) && m@ == "circuit open"@),
    {
        match self.guard.admit_at(now_ms) {
            Ok(()) => Ok(()),
            Err(_) => Err(ChronicleError::Connection(String::from_str("circuit open"))),
        }
    }

    /// The result of an ingestion that came back with `outcome` at `now`.
    pub fn finish_at(&mut self, outcome: CallOutcome<(), ChronicleError>, now_ms: u64) -> (r: Result<
        (),
        ChronicleError,
    >)
        requires
            old(self).guard.breaker().failures < u32::MAX,
        ensures
            final(self).guard.service() == old(self).guard.service(),
            match outcome {
                CallOutcome::Returned(Ok(v)) => r is Ok && final(self).guard.breaker() == old(self).guard.breaker().after_success(),
                CallOutcome::Returned(Err(e)) => r == Err::<(), ChronicleError>(e) && final(self).guard.breaker() == old(self).guard.breaker().after_failure(now_ms),
                CallOutcome::TimedOut => (r matches Err(ChronicleError::Connection(m)) && m@
                    == "request timeout"@) && final(self).guard.breaker() == old(self).guard.breaker().after_failure(now_ms),
            },
    {
        let t = ChronicleError::Connection(String::from_str("request timeout"));
        self.guard.settle_at(outcome, now_ms, t)
    }
}

/// The encryption service behind a breaker; a refusal carries the breaker's reason.
pub struct ResilientCipher {
    pub guard: Guard,
}

impl ResilientCipher {
    pub fn new() -> (r: ResilientCipher)
        ensures
            r.guard.breaker() == fresh_breaker(),
            r.guard.service() == "cipher"@,
    {
        ResilientCipher { guard: Guard::new("cipher") }
    }

    /// Whether a call may go at `now`; the breaker's reason as a connection error when not.
    pub fn begin_at(&mut self, now_ms: u64) -> (r: Result<(), CipherError>)
        ensures
            r is Ok == old(self).guard.breaker().admits(now_ms),
            final(self).guard.breaker() == old(self).guard.breaker().after_check(now_ms),
            final(self).guard.service() == old(self).guard.service(),
    {
        match self.guard.admit_at(now_ms) {
            Ok(()) => Ok(()),
            Err(m) => Err(CipherError::Connection(m)),
        }
    }

    /// The result of a call that came back with `outcome` at `now`.
    pub fn finish_at<T>(&mut self, outcome: CallOutcome<T, CipherError>, now_ms: u64) -> (r: Result<
        T,
        CipherError,
    >)
        requires
            old(self).guard.breaker().failures < u32::MAX,
        ensures
            final(self).guard.service() == old(self).guard.service(),
            match outcome {
                CallOutcome::Returned(Ok(v)) => r == Ok::<T, CipherError>(v) && final(self).guard.breaker() == old(self).guard.breaker().after_success(),
                CallOutcome::Returned(Err(e)) => r == Err::<T, CipherError>(e) && final(self).guard.breaker() == old(self).guard.breaker().after_failure(now_ms),
                CallOutcome::TimedOut => (r matches Err(CipherError::Connection(m)) && m@
                    == "request timeout"@) && final(self).guard.breaker() == old(self).guard.breaker().after_failure(now_ms),
            },
    {
        let t = CipherError::Connection(String::from_str("request timeout"));
        self.guard.settle_at(outcome, now_ms, t)
    }
}

/// The search service behind a breaker; a refusal carries the breaker's reason.
pub struct ResilientVeil {
    pub guard: Guard,
}

impl ResilientVeil {
    pub fn new() -> (r: ResilientVeil)
        ensures
            r.guard.breaker() == fresh_breaker(),
            r.guard.service() == "veil"@,
    {
        ResilientVeil { guard: Guard::new("veil") }
    }

    /// Whether a call may go at `now`; the breaker's reason as a connection error when not.
    pub fn begin_at(&mut self, now_ms: u64) -> (r: Result<(), VeilError>)
        ensures
            r is Ok == old(self).guard.breaker().admits(now_ms),
            final(self).guard.breaker() == old(self).guard.breaker().after_check(now_ms),
            final(self).guard.service() == old(self).guard.service(),
    {
        match self.guard.admit_at(now_ms) {
            Ok(()) => Ok(()),
            Err(m) => Err(VeilError::Connection(m)),
        }
    }

    /// The result of a call that came back with `outcome` at `now`.
    pub fn finish_at<T>(&mut self, outcome: CallOutcome<T, VeilError>, now_ms: u64) -> (r: Result<
        T,
        VeilError,
    >)
        requires
            old(self).guard.breaker().failures < u32::MAX,
        ensures
            final(self).guard.service() == old(self).guard.service(),
            match outcome {
                CallOutcome::Returned(Ok(v)) => r == Ok::<T, VeilError>(v) && final(self).guard.breaker() == old(self).guard.breaker().after_success(),
                CallOutcome::Returned(Err(e)) => r == Err::<T, VeilError>(e) && final(self).guard.breaker() == old(self).guard.breaker().after_failure(now_ms),
                CallOutcome::TimedOut => (r matches Err(VeilError::Connection(m)) && m@
                    == "request timeout"@) && final(self).guard.breaker() == old(self).guard.breaker().after_failure(now_ms),
            },
    {
        let t = VeilError::Connection(String::from_str("request timeout"));
        self.guard.settle_at(outcome, now_ms, t)
    }
}

} // verus!
