//! Integrations with the ShroudB services: authorization (Sentry), offline
//! notifications (Courier), audit (Chronicle), encryption (Cipher) and search (Veil),
//! with their errors, in-memory stand-ins, and the breaker that guards them.
pub mod circuit_breaker;
pub mod resilient;

use vstd::prelude::*;
use vstd::string::*;
use crate::text::{copy_str, hex_lower, u64_to_string};

verus! {

broadcast use vstd::string::group_string_axioms;

fn prefixed(prefix: &str, detail: &str) -> (s: String)
    ensures
        s@ == prefix@ + detail@,
{
    let mut s = String::from_str(prefix);
    s.append(detail);
    s
}

/// An error of the authorization service.
pub enum SentryError {
    Connection(String),
    Denied(String),
    Operation(String),
}

impl SentryError {
    pub open spec fn spec_message(&self) -> Seq<char> {
        match self {
            SentryError::Connection(e) => "sentry connection error: "@ + e@,
            SentryError::Denied(r) => "access denied: "@ + r@,
            SentryError::Operation(e) => "sentry operation error: "@ + e@,
        }
    }

    /// The error as displayed.
    pub fn message(&self) -> (s: String)
        ensures
            s@ == self.spec_message(),
    {
        match self {
            SentryError::Connection(e) => prefixed("sentry connection error: ", e.as_str()),
            SentryError::Denied(r) => prefixed("access denied: ", r.as_str()),
            SentryError::Operation(e) => prefixed("sentry operation error: ", e.as_str()),
        }
    }
}

/// An error of the notification service.
pub enum CourierError {
    Connection(String),
    Operation(String),
}

impl CourierError {
    pub open spec fn spec_message(&self) -> Seq<char> {
        match self {
            CourierError::Connection(e) => "courier connection error: "@ + e@,
            CourierError::Operation(e) => "courier operation error: "@ + e@,
        }
    }

    /// The error as displayed.
    pub fn message(&self) -> (s: String)
        ensures
            s@ == self.spec_message(),
    {
        match self {
            CourierError::Connection(e) => prefixed("courier connection error: ", e.as_str()),
            CourierError::Operation(e) => prefixed("courier operation error: ", e.as_str()),
        }
    }
}

/// An error of the audit service.
pub enum ChronicleError {
    Connection(String),
    Operation(String),
}

impl ChronicleError {
    pub open spec fn spec_message(&self) -> Seq<char> {
        match self {
            ChronicleError::Connection(e) => "chronicle connection error: "@ + e@,
            ChronicleError::Operation(e) => "chronicle operation error: "@ + e@,
        }
    }

    /// The error as displayed.
    pub fn message(&self) -> (s: String)
        ensures
            s@ == self.spec_message(),
    {
        match self {
            ChronicleError::Connection(e) => prefixed("chronicle connection error: ", e.as_str()),
            ChronicleError::Operation(e) => prefixed("chronicle operation error: ", e.as_str()),
        }
    }
}

/// An error of the encryption service.
pub enum CipherError {
    Connection(String),
    Operation(String),
}

/// An error of the search service.
pub enum VeilError {
    Connection(String),
    Operation(String),
}

/// An audit event.
pub struct AuditEvent {
    pub operation: String,
    pub resource: String,
    pub actor: String,
    pub result: String,
    pub metadata: Vec<(String, String)>,
}

/// Authorizes requests: `Ok` when the subject may perform the action on the resource.
pub trait SentryOps {
    fn evaluate(&self, subject: &str, action: &str, resource: &str) -> Result<(), SentryError>;
}

/// Delivers notifications to users who are offline.
pub trait CourierOps {
    fn notify(&mut self, channel: &str, recipient: &str, subject: &str, body: &str) -> Result<
        (),
        CourierError,
    >;
}

/// Records audit events.
pub trait ChronicleOps {
    fn ingest(&mut self, event: AuditEvent) -> Result<(), ChronicleError>;
}

/// An authorizer that permits everything.
pub struct MockSentryOps;

impl SentryOps for MockSentryOps {
    fn evaluate(&self, subject: &str, action: &str, resource: &str) -> (r: Result<(), SentryError>)
        ensures
            r is Ok,
    {
        MockSentryOps::evaluate(self, subject, action, resource)
    }
}

impl MockSentryOps {
    pub fn evaluate(&self, subject: &str, action: &str, resource: &str) -> (r: Result<(), SentryError>)
        ensures
            r is Ok,
    {
        Ok(())
    }
}

impl CourierOps for MockCourierOps {
    fn notify(&mut self, channel: &str, recipient: &str, subject: &str, body: &str) -> (r: Result<
        (),
        CourierError,
    >)
        ensures
            r is Ok,
            final(self).recorded() == old(self).recorded().push((recipient@, subject@, body@)),
    {
        MockCourierOps::notify(self, channel, recipient, subject, body)
    }
}

/// A notifier that records each delivery as `(recipient, subject, body)`.
pub struct MockCourierOps {
    deliveries: Vec<(String, String, String)>,
}

/// The text of each delivery.
pub open spec fn deliveries_view(d: Seq<(String, String, String)>) -> Seq<(Seq<char>, Seq<char>, Seq<char>)> {
    d.map_values(|x: (String, String, String)| (x.0@, x.1@, x.2@))
}

impl MockCourierOps {
    pub closed spec fn recorded(&self) -> Seq<(Seq<char>, Seq<char>, Seq<char>)> {
        deliveries_view(self.deliveries@)
    }

    pub fn new() -> (m: MockCourierOps)
        ensures
            m.recorded() == Seq::<(Seq<char>, Seq<char>, Seq<char>)>::empty(),
    {
        let m = MockCourierOps { deliveries: Vec::new() };
        assert(m.recorded() =~= Seq::<(Seq<char>, Seq<char>, Seq<char>)>::empty());
        m
    }

    /// Records a delivery (the channel is not kept).
    pub fn notify(&mut self, channel: &str, recipient: &str, subject: &str, body: &str) -> (r: Result<(), CourierError>)
        ensures
            r is Ok,
            final(self).recorded() == old(self).recorded().push((recipient@, subject@, body@)),
    {
        let ghost before = self.deliveries@;
        self.deliveries.push((copy_str(recipient), copy_str(subject), copy_str(body)));
        assert(deliveries_view(self.deliveries@) =~= deliveries_view(before).push(
            (recipient@, subject@, body@),
        ));
        Ok(())
    }

    /// The deliveries recorded so far, in order.
    pub fn deliveries(&self) -> (r: Vec<(String, String, String)>)
        ensures
            deliveries_view(r@) == self.recorded(),
    {
        let mut out: Vec<(String, String, String)> = Vec::new();
        let mut i: usize = 0;
        while i < self.deliveries.len()
            invariant
                i <= self.deliveries@.len(),
                deliveries_view(out@) == deliveries_view(self.deliveries@.take(i as int)),
            decreases self.deliveries@.len() - i,
        {
            let d = &self.deliveries[i];
            let ghost before = out@;
            out.push((copy_str(d.0.as_str()), copy_str(d.1.as_str()), copy_str(d.2.as_str())));
            proof {
                assert(self.deliveries@.take(i + 1) =~= self.deliveries@.take(i as int).push(*d));
                assert(deliveries_view(out@) =~= deliveries_view(before).push((d.0@, d.1@, d.2@)));
                assert(deliveries_view(self.deliveries@.take(i + 1)) =~= deliveries_view(
                    self.deliveries@.take(i as int),
                ).push((d.0@, d.1@, d.2@)));
            }
            i += 1;
        }
        assert(self.deliveries@.take(i as int) =~= self.deliveries@);
        out
    }
}

/// An audit sink that records the events it is given.
pub struct MockChronicleOps {
    events: Vec<AuditEvent>,
}

impl ChronicleOps for MockChronicleOps {
    fn ingest(&mut self, event: AuditEvent) -> (r: Result<(), ChronicleError>)
        ensures
            r is Ok,
            final(self).recorded() == old(self).recorded().push(event),
    {
        MockChronicleOps::ingest(self, event)
    }
}

impl MockChronicleOps {
    pub closed spec fn recorded(&self) -> Seq<AuditEvent> {
        self.events@
    }

    pub fn new() -> (m: MockChronicleOps)
        ensures
            m.recorded() == Seq::<AuditEvent>::empty(),
    {
        MockChronicleOps { events: Vec::new() }
    }

    pub fn ingest(&mut self, event: AuditEvent) -> (r: Result<(), ChronicleError>)
        ensures
            r is Ok,
            final(self).recorded() == old(self).recorded().push(event),
    {
        self.events.push(event);
        Ok(())
    }

    /// The number of events recorded.
    pub fn event_count(&self) -> (n: usize)
        ensures
            n == self.recorded().len(),
    {
        self.events.len()
    }

    /// The events recorded so far, in order (handing them out empties the sink).
    pub fn events(&mut self) -> (r: Vec<AuditEvent>)
        ensures
            r@ == old(self).recorded(),
            final(self).recorded() == Seq::<AuditEvent>::empty(),
    {
        let mut r: Vec<AuditEvent> = Vec::new();
        std::mem::swap(&mut r, &mut self.events);
        r
    }
}

/// The outcome of a policy evaluation.
pub enum PolicyOutcome {
    Permit,
    /// Denied, by the named policy if one matched.
    Deny { matched_policy: Option<String> },
    /// The evaluation failed, with the engine's message.
    Failed(String),
}

/// Authorization from a policy evaluation: a denial that no policy matched (no
/// policies defined) permits; a matched denial is `Denied("policy={name} denied")`.
pub fn sentry_decision(outcome: PolicyOutcome) -> (r: Result<(), SentryError>)
    ensures
        match outcome {
            PolicyOutcome::Permit => r is Ok,
            PolicyOutcome::Deny { matched_policy: None } => r is Ok,
            PolicyOutcome::Deny { matched_policy: Some(p) } => r matches Err(SentryError::Denied(m))
                && m@ == "policy="@ + p@ + " denied"@,
            PolicyOutcome::Failed(e) => r matches Err(SentryError::Operation(m)) && m@ == e@,
        },
{
    match outcome {
        PolicyOutcome::Permit => Ok(()),
        PolicyOutcome::Deny { matched_policy: None } => Ok(()),
        PolicyOutcome::Deny { matched_policy: Some(p) } => {
            let mut m = String::from_str("policy=");
            m.append(p.as_str());
            m.append(" denied");
            Err(SentryError::Denied(m))
        },
        PolicyOutcome::Failed(e) => Err(SentryError::Operation(e)),
    }
}

/// The key under which one delivery of a notification is claimed across instances:
/// `{recipient}:{hash in lower-case hex}`, where `hash` is the notification's hash of
/// subject and body.
pub fn dedup_key(recipient: &str, hash: u64) -> (k: String)
    ensures
        k@ == recipient@ + ":"@ + hex_lower(hash as nat),
{
    let mut v: Vec<char> = Vec::new();
    crate::text::push_hex(&mut v, hash);
    let h = crate::text::string_from_chars(&v);
    let mut k = String::from_str(recipient);
    k.append(":");
    k.append(h.as_str());
    assert(v@ =~= hex_lower(hash as nat));
    k
}

/// A ShroudB service reached at `addr`, with an optional auth token.
pub struct RemoteEndpoint {
    pub addr: String,
    pub auth_token: Option<String>,
}

impl RemoteEndpoint {
    pub fn new(addr: &str, auth_token: Option<&str>) -> (e: RemoteEndpoint)
        ensures
            e.addr@ == addr@,
            match auth_token {
                Some(t) => e.auth_token matches Some(x) && x@ == t@,
                None => e.auth_token is None,
            },
    {
        RemoteEndpoint {
            addr: copy_str(addr),
            auth_token: match auth_token {
                Some(t) => Some(copy_str(t)),
                None => None,
            },
        }
    }
}

/// The remote authorization service.
pub struct RemoteSentryOps {
    pub endpoint: RemoteEndpoint,
}

/// The remote notification service.
pub struct RemoteCourierOps {
    pub endpoint: RemoteEndpoint,
}

/// The remote audit service.
pub struct RemoteChronicleOps {
    pub endpoint: RemoteEndpoint,
}

/// The remote encryption service.
pub struct RemoteCipherOps {
    pub endpoint: RemoteEndpoint,
}

/// The remote search service.
pub struct RemoteVeilOps {
    pub endpoint: RemoteEndpoint,
}

} // verus!
