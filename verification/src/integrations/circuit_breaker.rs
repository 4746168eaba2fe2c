//! Circuit breaker that trips after consecutive failures and recovers after a cooldown.
//!
//! - **Closed**: all calls pass through. Failures increment counter.
//! - **Open**: all calls rejected immediately. After cooldown, transitions to HalfOpen.
//! - **HalfOpen**: one call allowed through. Success → Closed, failure → Open.
//!
//! Times are milliseconds on the wall clock; the `_at` methods take the current time
//! as an argument and the others read the clock.
use vstd::prelude::*;
use vstd::string::*;
use crate::clock::now_millis_u64;
use crate::text::{copy_str, u64_to_string, decimal};

verus! {

broadcast use vstd::string::group_string_axioms;

#[derive(Debug, Clone, Copy, PartialEq, Eq, Structural)]
pub enum State {
    Closed,
    Open,
    HalfOpen,
}

/// The state of a breaker, as its contracts see it.
pub struct BreakerModel {
    pub state: State,
    pub failures: u32,
    pub last_failure_ms: Option<u64>,
    pub failure_threshold: u32,
    pub cooldown_ms: u64,
    pub probe_in_progress: bool,
}

impl BreakerModel {
    /// Milliseconds since the last failure, at `now` (0 if the clock went back).
    pub open spec fn elapsed(self, now: u64) -> int {
        match self.last_failure_ms {
            Some(last) => if now >= last {
                now - last
            } else {
                0
            },
            None => 0,
        }
    }

    /// Whether a call at `now` is let through.
    pub open spec fn admits(self, now: u64) -> bool {
        match self.state {
            State::Closed => true,
            State::Open => self.last_failure_ms is None || self.elapsed(now) >= self.cooldown_ms,
            State::HalfOpen => !self.probe_in_progress,
        }
    }

    /// The state after a check at `now`.
    pub open spec fn after_check(self, now: u64) -> BreakerModel {
        match self.state {
            State::Closed => self,
            State::Open => if self.admits(now) {
                BreakerModel { state: State::HalfOpen, probe_in_progress: true, ..self }
            } else {
                self
            },
            State::HalfOpen => BreakerModel { probe_in_progress: true, ..self },
        }
    }

    /// The state after a successful call.
    pub open spec fn after_success(self) -> BreakerModel {
        BreakerModel {
            state: State::Closed,
            failures: 0,
            probe_in_progress: if self.state == State::HalfOpen {
                false
            } else {
                self.probe_in_progress
            },
            ..self
        }
    }

    /// The state after a failed call at `now`.
    pub open spec fn after_failure(self, now: u64) -> BreakerModel {
        let failures = (self.failures + 1) as u32;
        if self.state == State::HalfOpen {
            BreakerModel {
                state: State::Open,
                failures,
                last_failure_ms: Some(now),
                probe_in_progress: false,
                ..self
            }
        } else if failures >= self.failure_threshold {
            BreakerModel { state: State::Open, failures, last_failure_ms: Some(now), ..self }
        } else {
            BreakerModel { failures, last_failure_ms: Some(now), ..self }
        }
    }

    /// The state after `n` failed calls at `now`.
    pub open spec fn after_failures(self, n: nat, now: u64) -> BreakerModel
        decreases n,
    {
        if n == 0 {
            self
        } else {
            self.after_failures((n - 1) as nat, now).after_failure(now)
        }
    }
}

pub struct CircuitBreaker {
    name: String,
    state: State,
    failures: u32,
    last_failure_ms: Option<u64>,
    failure_threshold: u32,
    cooldown_ms: u64,
    probe_in_progress: bool,
}

impl View for CircuitBreaker {
    type V = BreakerModel;

    closed spec fn view(&self) -> BreakerModel {
        BreakerModel {
            state: self.state,
            failures: self.failures,
            last_failure_ms: self.last_failure_ms,
            failure_threshold: self.failure_threshold,
            cooldown_ms: self.cooldown_ms,
            probe_in_progress: self.probe_in_progress,
        }
    }
}

/// The message of a rejection while open.
pub open spec fn open_message(name: Seq<char>, remaining_ms: int) -> Seq<char> {
    name + " circuit open ("@ + decimal((remaining_ms / 1000) as nat) + "s remaining)"@
}

/// The message of a rejection while a probe is in flight.
pub open spec fn probe_message(name: Seq<char>) -> Seq<char> {
    name + " circuit half-open (probe in progress)"@
}

impl CircuitBreaker {
    /// The name used in messages.
    pub closed spec fn spec_name(&self) -> Seq<char> {
        self.name@
    }

    pub fn new(name: &str, failure_threshold: u32, cooldown_ms: u64) -> (cb: CircuitBreaker)
        ensures
            cb@ == (BreakerModel {
                state: State::Closed,
                failures: 0,
                last_failure_ms: None,
                failure_threshold,
                cooldown_ms,
                probe_in_progress: false,
            }),
            cb.spec_name() == name@,
    {
        CircuitBreaker {
            name: copy_str(name),
            state: State::Closed,
            failures: 0,
            last_failure_ms: None,
            failure_threshold,
            cooldown_ms,
            probe_in_progress: false,
        }
    }

    /// Checks at `now` whether a call is allowed: `Ok(())` if allowed, the reason if not.
    pub fn check_at(&mut self, now_ms: u64) -> (r: Result<(), String>)
        ensures
            r is Ok == old(self)@.admits(now_ms),
            final(self)@ == old(self)@.after_check(now_ms),
            final(self).spec_name() == old(self).spec_name(),
            r matches Err(e) ==> e@ == (if old(self)@.state == State::Open {
                open_message(
                    old(self).spec_name(),
                    old(self)@.cooldown_ms - old(self)@.elapsed(now_ms),
                )
            } else {
                probe_message(old(self).spec_name())
            }),
    {
        match self.state {
            State::Closed => Ok(()),
            State::Open => {
                match self.last_failure_ms {
                    Some(last) => {
                        let elapsed = if now_ms >= last {
                            now_ms - last
                        } else {
                            0
                        };
                        if elapsed >= self.cooldown_ms {
                            self.state = State::HalfOpen;
                            self.probe_in_progress = true;
                            Ok(())
                        } else {
                            let mut msg = copy_str(self.name.as_str());
                            msg.append(" circuit open (");
                            let secs = u64_to_string((self.cooldown_ms - elapsed) / 1000);
                            msg.append(secs.as_str());
                            msg.append("s remaining)");
                            Err(msg)
                        }
                    },
                    None => {
                        self.state = State::HalfOpen;
                        self.probe_in_progress = true;
                        Ok(())
                    },
                }
            },
            State::HalfOpen => {
                if !self.probe_in_progress {
                    self.probe_in_progress = true;
                    Ok(())
                } else {
                    let mut msg = copy_str(self.name.as_str());
                    msg.append(" circuit half-open (probe in progress)");
                    Err(msg)
                }
            },
        }
    }

    /// Checks, on the current clock, whether a call is allowed.
    pub fn check(&mut self) -> (r: Result<(), String>)
        ensures
            exists|now: u64|
                r is Ok == old(self)@.admits(now) && final(self)@ == old(self)@.after_check(now),
    {
        let now = now_millis_u64();
        self.check_at(now)
    }

    /// Records a successful call.
    pub fn record_success(&mut self)
        ensures
            final(self)@ == old(self)@.after_success(),
            final(self).spec_name() == old(self).spec_name(),
    {
        if self.state == State::HalfOpen {
            self.probe_in_progress = false;
        }
        self.state = State::Closed;
        self.failures = 0;
    }

    /// Records a failed call at `now`.
    pub fn record_failure_at(&mut self, now_ms: u64)
        requires
            old(self)@.failures < u32::MAX,
        ensures
            final(self)@ == old(self)@.after_failure(now_ms),
            final(self).spec_name() == old(self).spec_name(),
    {
        self.failures = self.failures + 1;
        self.last_failure_ms = Some(now_ms);
        if self.state == State::HalfOpen {
            self.state = State::Open;
            self.probe_in_progress = false;
        } else if self.failures >= self.failure_threshold {
            self.state = State::Open;
        }
    }

    /// Records a failed call on the current clock.
    pub fn record_failure(&mut self)
        requires
            old(self)@.failures < u32::MAX,
        ensures
            exists|now: u64| final(self)@ == old(self)@.after_failure(now),
    {
        let now = now_millis_u64();
        self.record_failure_at(now);
    }

    pub fn state(&self) -> (s: State)
        ensures
            s == self@.state,
    {
        self.state
    }

    /// Consecutive failures since the last success.
    pub fn failure_count(&self) -> (n: u32)
        ensures
            n == self@.failures,
    {
        self.failures
    }
}

/// A success always closes the breaker and clears its count.
pub proof fn lemma_success_resets(m: BreakerModel)
    ensures
        m.after_success().state == State::Closed,
        m.after_success().failures == 0,
        m.after_success().admits(0),
{
}

/// From a closed breaker with no failures, `k` failures below the threshold leave it
/// closed with `k` failures, and reaching the threshold opens it.
pub proof fn lemma_consecutive_failures(m: BreakerModel, k: nat, now: u64)
    requires
        m.state == State::Closed,
        m.failures == 0,
        k <= m.failure_threshold,
        m.failure_threshold > 0,
    ensures
        m.after_failures(k, now).failures == k,
        m.after_failures(k, now).failure_threshold == m.failure_threshold,
        k < m.failure_threshold ==> m.after_failures(k, now).state == State::Closed,
        k == m.failure_threshold ==> m.after_failures(k, now).state == State::Open,
    decreases k,
{
    if k > 0 {
        lemma_consecutive_failures(m, (k - 1) as nat, now);
    }
}

/// An open breaker rejects calls until the cooldown has passed since the last failure,
/// and then lets exactly one probe through.
pub proof fn lemma_open_then_single_probe(m: BreakerModel, now: u64, later: u64)
    requires
        m.state == State::Open,
        m.last_failure_ms matches Some(t) && t <= now,
        now - m.last_failure_ms->0 >= m.cooldown_ms,
    ensures
        m.admits(now),
        m.after_check(now).state == State::HalfOpen,
        !m.after_check(now).admits(later),
        m.after_check(now).after_failure(later).state == State::Open,
        m.after_check(now).after_success().state == State::Closed,
{
}

} // verus!
