//! The HTTP API: the rules behind its middleware (credentials, token scopes, the
//! per-tenant rate limit, request ids) and the types its handlers share.
pub mod validation;
pub mod events;
pub mod admin;
pub mod openapi;
pub mod health;
pub mod streams;
pub mod members;
pub mod messages;

use vstd::prelude::*;
use vstd::string::*;
use base64::Engine;
use subtle::ConstantTimeEq;
use crate::text::{
    chars_of, copy_str, drop_chars, find_char, range_to_string, starts_with_str, trim,
    trim_bounds, contains_seq, contains_str, index_of, utf8_width, utf8_len,
    lemma_utf8_len_prefix_mono, occurs_at,
};

use crate::ids::{fresh_id, uuid_v4_text, lemma_uuid_dash_free};

verus! {

broadcast use vstd::string::group_string_axioms;

/// Tenant ID found by authentication.
pub struct TenantId(pub String);

/// The scope of the API token that authenticated a request (`None`: full access).
pub struct TokenScope(pub Option<String>);

/// The id assigned to a request.
pub struct RequestId(pub String);

impl RequestId {
    /// A fresh request id: a random version-4 UUID; `None` when the random source
    /// failed.
    pub fn generate() -> (r: Option<RequestId>)
        ensures
            r matches Some(id) ==> uuid_v4_text(id.0@),
    {
        match fresh_id() {
            Some(s) => Some(RequestId(s)),
            None => None,
        }
    }
}

/// Which origins the API answers cross-origin requests from.
pub enum CorsPolicy {
    /// Any origin.
    Any,
    /// The origins listed, in order; those that are not valid header values are left out
    /// when the router is built.
    Origins(Vec<String>),
}

/// Whether `*` is among the allowed origins.
pub open spec fn lists_any_origin(c: crate::config::CorsConfig) -> bool {
    exists|i: int| 0 <= i < c.allowed_origins@.len() && (#[trigger] c.allowed_origins@[i])@ == "*"@
}

/// The CORS policy of a configuration: any origin without a CORS section or when `*` is
/// among the allowed origins, otherwise the allowed origins.
pub fn cors_policy(cors: &Option<crate::config::CorsConfig>) -> (p: CorsPolicy)
    ensures
        cors is None ==> p is Any,
        *cors matches Some(c) ==> (lists_any_origin(c) ==> p is Any) && (!lists_any_origin(c) ==> (
        p matches CorsPolicy::Origins(o) && o@.len() == c.allowed_origins@.len() && forall|i: int|
            0 <= i < o@.len() ==> (#[trigger] o@[i])@ == c.allowed_origins@[i]@)),
{
    match cors {
        None => CorsPolicy::Any,
        Some(c) => {
            let origins = &c.allowed_origins;
            let mut out: Vec<String> = Vec::new();
            let mut i: usize = 0;
            while i < origins.len()
                invariant
                    *cors == Some(*c),
                    origins@ == c.allowed_origins@,
                    i <= origins@.len(),
                    out@.len() == i,
                    forall|j: int| 0 <= j < i ==> (#[trigger] origins@[j])@ != "*"@,
                    forall|j: int| 0 <= j < i ==> (#[trigger] out@[j])@ == origins@[j]@,
                decreases origins@.len() - i,
            {
                if crate::text::str_eq(origins[i].as_str(), "*") {
                    assert(c.allowed_origins@[i as int]@ == "*"@);
                    return CorsPolicy::Any;
                }
                out.push(copy_str(origins[i].as_str()));
                i += 1;
            }
            CorsPolicy::Origins(out)
        },
    }
}

/// A refused request: the HTTP status and the message sent with it.
pub struct Refusal {
    pub status: u16,
    pub message: String,
}

impl View for Refusal {
    type V = (u16, Seq<char>);

    open spec fn view(&self) -> (u16, Seq<char>) {
        (self.status, self.message@)
    }
}

/// A refusal with `status` and `message`.
pub fn refuse(status: u16, message: &str) -> (r: Refusal)
    ensures
        r@ == (status, message@),
{
    Refusal { status, message: copy_str(message) }
}

/// The view of a result refused with a `Refusal`.
pub open spec fn refused<T>(r: Result<T, Refusal>) -> Option<(u16, Seq<char>)> {
    match r {
        Ok(_) => None,
        Err(e) => Some(e@),
    }
}

// ---------------------------------------------------------------------------
// Outside decoders
// ---------------------------------------------------------------------------
/// What `base64::engine::general_purpose::STANDARD.decode` gives for the text `input`:
/// the bytes, or `None` where it reports an error.
pub uninterp spec fn base64_standard_decoded(input: Seq<char>) -> Option<Seq<u8>>;

/// What `String::from_utf8` gives for `bytes`: the text, or `None` where the bytes are
/// not UTF-8.
pub uninterp spec fn utf8_decoded(bytes: Seq<u8>) -> Option<Seq<char>>;

/// Calls `base64::engine::general_purpose::STANDARD.decode` (padded standard alphabet).
/// Its result is named, not described: `base64_standard_decoded`.
#[verifier::external_body]
pub(crate) fn base64_decode(input: &str) -> (r: Option<Vec<u8>>)
    ensures
        match r {
            Some(bytes) => base64_standard_decoded(input@) == Some(bytes@),
            None => base64_standard_decoded(input@) is None,
        },
{
    match base64::engine::general_purpose::STANDARD.decode(input) {
        Ok(bytes) => Some(bytes),
        Err(_) => None,
    }
}

/// Calls `String::from_utf8`; its result is named: `utf8_decoded`.
#[verifier::external_body]
pub(crate) fn decode_utf8(bytes: Vec<u8>) -> (r: Option<String>)
    ensures
        match r {
            Some(s) => utf8_decoded(bytes@) == Some(s@),
            None => utf8_decoded(bytes@) is None,
        },
{
    match String::from_utf8(bytes) {
        Ok(s) => Some(s),
        Err(_) => None,
    }
}

/// Compares two strings with `subtle::ConstantTimeEq::ct_eq` on their bytes, which
/// answers 1 exactly when the byte slices have the same length and the same bytes,
/// that is when the strings are equal.
#[verifier::external_body]
fn constant_time_eq(a: &str, b: &str) -> (r: bool)
    ensures
        r == (a@ == b@),
{
    a.as_bytes().ct_eq(b.as_bytes()).unwrap_u8() == 1
}

// ---------------------------------------------------------------------------
// Tenant authentication
// ---------------------------------------------------------------------------
/// Credentials read from an `Authorization` header of the tenant API.
pub enum Credentials {
    /// `Basic` credentials: an API key and its secret.
    Basic { key: String, secret: String },
    /// A `Bearer` API token.
    Bearer { token: String },
}

/// Credentials as the contracts see them.
pub enum CredentialsView {
    Basic(Seq<char>, Seq<char>),
    Bearer(Seq<char>),
}

impl View for Credentials {
    type V = CredentialsView;

    open spec fn view(&self) -> CredentialsView {
        match self {
            Credentials::Basic { key, secret } => CredentialsView::Basic(key@, secret@),
            Credentials::Bearer { token } => CredentialsView::Bearer(token@),
        }
    }
}

pub open spec fn unauthorized(msg: Seq<char>) -> Result<CredentialsView, (u16, Seq<char>)> {
    Err((401u16, msg))
}

/// What the header `h` of a tenant request authenticates with, or why it is refused.
pub open spec fn tenant_credentials(h: Option<Seq<char>>) -> Result<
    CredentialsView,
    (u16, Seq<char>),
> {
    match h {
        None => unauthorized("missing authorization header"@),
        Some(h) => if "Basic "@.is_prefix_of(h) {
            match base64_standard_decoded(trim(h.skip(6))) {
                None => unauthorized("invalid credentials"@),
                Some(bytes) => match utf8_decoded(bytes) {
                    None => unauthorized("invalid credentials"@),
                    Some(text) => match index_of(text, ':') {
                        None => unauthorized("invalid credentials"@),
                        Some(i) => Ok(CredentialsView::Basic(text.take(i), text.skip(i + 1))),
                    },
                },
            }
        } else if "Bearer "@.is_prefix_of(h) {
            Ok(CredentialsView::Bearer(h.skip(7)))
        } else {
            unauthorized("invalid authorization header"@)
        },
    }
}

pub open spec fn credentials_result_view(r: Result<Credentials, Refusal>) -> Result<
    CredentialsView,
    (u16, Seq<char>),
> {
    match r {
        Ok(c) => Ok(c@),
        Err(e) => Err(e@),
    }
}

/// Reads the credentials of a tenant API request from its `Authorization` header
/// (`None` when absent or not visible ASCII): `Basic` base64 `key:secret`, or `Bearer`.
pub fn read_tenant_credentials(header: Option<&str>) -> (r: Result<Credentials, Refusal>)
    ensures
        credentials_result_view(r) == tenant_credentials(
            match header {
                Some(h) => Some(h@),
                None => None,
            },
        ),
{
    let h = match header {
        Some(h) => h,
        None => {
            return Err(refuse(401, "missing authorization header"));
        },
    };
    proof {
        reveal_strlit("Basic ");
        reveal_strlit("Bearer ");
    }
    if starts_with_str(h, "Basic ") {
        let rest = drop_chars(h, 6);
        let v = chars_of(rest.as_str());
        let (lo, hi) = trim_bounds(&v);
        let encoded = range_to_string(&v, lo, hi);
        let bytes = match base64_decode(encoded.as_str()) {
            Some(b) => b,
            None => {
                return Err(refuse(401, "invalid credentials"));
            },
        };
        let text = match decode_utf8(bytes) {
            Some(t) => t,
            None => {
                return Err(refuse(401, "invalid credentials"));
            },
        };
        let t = chars_of(text.as_str());
        match find_char(&t, 0, t.len(), ':') {
            Some(i) => {
                let key = range_to_string(&t, 0, i);
                let secret = range_to_string(&t, i + 1, t.len());
                proof {
                    assert(t@.subrange(0, t@.len() as int) =~= t@);
                    assert(t@.subrange(0, i as int) =~= text@.take(i as int));
                    assert(t@.subrange(i + 1, t@.len() as int) =~= text@.skip(i + 1));
                }
                Ok(Credentials::Basic { key, secret })
            },
            None => {
                proof {
                    assert(t@.subrange(0, t@.len() as int) =~= t@);
                }
                Err(refuse(401, "invalid credentials"))
            },
        }
    } else if starts_with_str(h, "Bearer ") {
        Ok(Credentials::Bearer { token: drop_chars(h, 7) })
    } else {
        Err(refuse(401, "invalid authorization header"))
    }
}

/// The tenant and scope that a request authenticated as.
pub struct TenantAuth {
    pub tenant: TenantId,
    pub scope: TokenScope,
}

/// Checks `Basic` credentials: `tenant` is the tenant that the API key belongs to, if
/// any, and `expected_secret` that tenant's secret, if it is known; the secrets are
/// compared in constant time. Basic credentials carry no scope.
pub fn check_basic(tenant: Option<String>, expected_secret: Option<&str>, provided_secret: &str) -> (r:
    Result<TenantAuth, Refusal>)
    ensures
        match (tenant, expected_secret) {
            (Some(t), Some(s)) if s@ == provided_secret@ => r matches Ok(a) && a.tenant.0@ == t@
                && a.scope.0 is None,
            _ => refused(r) == Some((401u16, "invalid credentials"@)),
        },
{
    let t = match tenant {
        Some(t) => t,
        None => {
            return Err(refuse(401, "invalid credentials"));
        },
    };
    let s = match expected_secret {
        Some(s) => s,
        None => {
            return Err(refuse(401, "invalid credentials"));
        },
    };
    if !constant_time_eq(provided_secret, s) {
        return Err(refuse(401, "invalid credentials"));
    }
    Ok(TenantAuth { tenant: TenantId(t), scope: TokenScope(None) })
}

/// What looking up a bearer token gave.
pub enum TokenLookup {
    Found { tenant_id: String, scope: Option<String> },
    Unknown,
    Failed,
}

/// Decides a bearer-authenticated request from the token lookup.
pub fn check_bearer(lookup: TokenLookup) -> (r: Result<TenantAuth, Refusal>)
    ensures
        match lookup {
            TokenLookup::Found { tenant_id, scope } => r matches Ok(a) && a.tenant.0 == tenant_id
                && a.scope.0 == scope,
            TokenLookup::Unknown => refused(r) == Some((401u16, "invalid token"@)),
            TokenLookup::Failed => refused(r) == Some((500u16, "internal error"@)),
        },
{
    match lookup {
        TokenLookup::Found { tenant_id, scope } => Ok(
            TenantAuth { tenant: TenantId(tenant_id), scope: TokenScope(scope) },
        ),
        TokenLookup::Unknown => Err(refuse(401, "invalid token")),
        TokenLookup::Failed => Err(refuse(500, "internal error")),
    }
}

// ---------------------------------------------------------------------------
// Admin authentication
// ---------------------------------------------------------------------------
/// Whether the admin API lets a request with `header` in, given the configured
/// `password`.
pub open spec fn admin_refusal(header: Option<Seq<char>>, password: Option<Seq<char>>) -> Option<
    (u16, Seq<char>),
> {
    match header {
        Some(h) if "Bearer "@.is_prefix_of(h) => {
            let p = match password {
                Some(p) => p,
                None => Seq::empty(),
            };
            if p.len() == 0 || h.skip(7) != p {
                Some((401u16, "invalid credentials"@))
            } else {
                None
            }
        },
        _ => Some((401u16, "missing authorization header"@)),
    }
}

/// Admin authentication: with a non-empty server password `p`, a `Bearer {token}` header
/// lets the request in exactly when the token is `p`; with no password or an empty one,
/// nobody gets in; every refusal is a 401.
pub proof fn lemma_admin_auth(token: Seq<char>, p: Seq<char>, header: Option<Seq<char>>, password: Option<Seq<char>>)
    ensures
        p.len() > 0 ==> (admin_refusal(Some("Bearer "@ + token), Some(p)) is None <==> token == p),
        (match password {
            Some(q) => q.len() == 0,
            None => true,
        }) ==> admin_refusal(header, password) is Some,
        admin_refusal(header, password) matches Some((st, _)) ==> st == 401,
{
    reveal_strlit("Bearer ");
    let h = "Bearer "@ + token;
    assert("Bearer "@.is_prefix_of(h)) by {
        assert(h.take(7) =~= "Bearer "@);
    }
    assert(h.skip(7) =~= token);
}

/// Admin API authentication: a `Bearer` header holding the server password, compared
/// in constant time; an empty or missing password lets nobody in.
pub fn check_admin(header: Option<&str>, password: Option<&str>) -> (r: Result<(), Refusal>)
    ensures
        refused(r) == admin_refusal(
            match header {
                Some(h) => Some(h@),
                None => None,
            },
            match password {
                Some(p) => Some(p@),
                None => None,
            },
        ),
{
    proof {
        reveal_strlit("Bearer ");
        reveal_strlit("");
    }
    let token = match header {
        Some(h) => {
            if starts_with_str(h, "Bearer ") {
                drop_chars(h, 7)
            } else {
                return Err(refuse(401, "missing authorization header"));
            }
        },
        None => {
            return Err(refuse(401, "missing authorization header"));
        },
    };
    let p = match password {
        Some(p) => p,
        None => "",
    };
    if p.unicode_len() == 0 || !constant_time_eq(token.as_str(), p) {
        return Err(refuse(401, "invalid credentials"));
    }
    Ok(())
}

// ---------------------------------------------------------------------------
// Token scopes
// ---------------------------------------------------------------------------
/// Whether a token with `scope` may make a request (`is_get`: its method is GET) to
/// `path`: no scope and unknown scopes allow everything, `read-only` allows GET, and
/// `stream:{id}` allows paths that hold `/streams/{id}`.
pub open spec fn scope_allows(scope: Option<Seq<char>>, is_get: bool, path: Seq<char>) -> bool {
    match scope {
        None => true,
        Some(s) => if s == "read-only"@ {
            is_get
        } else if "stream:"@.is_prefix_of(s) {
            contains_seq(path, "/streams/"@ + s.skip(7)) || contains_seq(
                path,
                "/streams/"@ + s.skip(7) + "/"@,
            )
        } else {
            true
        },
    }
}

pub fn check_scope(scope: &Option<String>, is_get: bool, path: &str) -> (r: bool)
    ensures
        r == scope_allows(
            match scope {
                Some(s) => Some(s@),
                None => None,
            },
            is_get,
            path@,
        ),
{
    let s = match scope {
        Some(s) => s.as_str(),
        None => {
            return true;
        },
    };
    proof {
        reveal_strlit("stream:");
    }
    if crate::text::str_eq(s, "read-only") {
        return is_get;
    }
    if starts_with_str(s, "stream:") {
        let stream_id = drop_chars(s, 7);
        let mut p = String::from_str("/streams/");
        p.append(stream_id.as_str());
        if contains_str(path, p.as_str()) {
            return true;
        }
        p.append("/");
        return contains_str(path, p.as_str());
    }
    true
}

/// Token scopes: a token without a scope may make any request; a `read-only` token may
/// make GET requests and no other; a token scoped to `stream:{id}` may make any request,
/// whatever its method, whose path holds `/streams/{id}`, and no other; any other scope
/// restricts nothing.
pub proof fn lemma_scope_rules(id: Seq<char>, is_get: bool, path: Seq<char>, other: Seq<char>)
    ensures
        scope_allows(None, is_get, path),
        other != "read-only"@ && !(other.len() >= 7 && other.take(7) == "stream:"@) ==> scope_allows(
            Some(other),
            is_get,
            path,
        ),
        scope_allows(Some("read-only"@), is_get, path) == is_get,
        scope_allows(Some("stream:"@ + id), is_get, path) == contains_seq(path, "/streams/"@ + id),
{
    reveal_strlit("read-only");
    reveal_strlit("stream:");
    reveal_strlit("/streams/");
    reveal_strlit("/");
    if "stream:"@.is_prefix_of(other) {
        assert(other.take(7) =~= "stream:"@);
    }
    let s = "stream:"@ + id;
    assert(s[1] == 't');
    assert(s != "read-only"@);
    assert("stream:"@.is_prefix_of(s)) by {
        assert(s.take(7) =~= "stream:"@);
    }
    assert(s.skip(7) =~= id);
    let n = "/streams/"@ + id;
    if contains_seq(path, n + "/"@) {
        let i = choose|i: int| occurs_at(path, n + "/"@, i);
        assert(path.subrange(i, i + n.len()) =~= (n + "/"@).subrange(0, n.len() as int));
        assert((n + "/"@).subrange(0, n.len() as int) =~= n);
        assert(occurs_at(path, n, i));
    }
}

/// The scope check of the tenant API: 403 when the token's scope does not permit it.
pub fn enforce_scope(scope: &Option<String>, is_get: bool, path: &str) -> (r: Result<(), Refusal>)
    ensures
        r is Ok == scope_allows(
            match scope {
                Some(s) => Some(s@),
                None => None,
            },
            is_get,
            path@,
        ),
        refused(r) is Some ==> refused(r) == Some(
            (403u16, "token scope does not permit this action"@),
        ),
{
    if check_scope(scope, is_get, path) {
        Ok(())
    } else {
        Err(refuse(403, "token scope does not permit this action"))
    }
}

// ---------------------------------------------------------------------------
// Per-tenant rate limit
// ---------------------------------------------------------------------------
/// A tenant's fixed 60-second window of API requests.
pub struct RateWindow {
    pub count: u32,
    pub window_start_ms: u64,
}

/// Milliseconds in a rate-limit window.
pub const RATE_WINDOW_MS: u64 = 60_000;

impl RateWindow {
    /// A window opened at `now`.
    pub fn new(now_ms: u64) -> (w: RateWindow)
        ensures
            w.count == 0,
            w.window_start_ms == now_ms,
    {
        RateWindow { count: 0, window_start_ms: now_ms }
    }

    /// The window after a request at `now` (a window of 60 s or more is restarted).
    pub open spec fn after_request(self, now_ms: u64) -> RateWindow {
        let elapsed = if now_ms >= self.window_start_ms {
            now_ms - self.window_start_ms
        } else {
            0
        };
        if elapsed >= RATE_WINDOW_MS {
            RateWindow { count: 1, window_start_ms: now_ms }
        } else {
            RateWindow { count: (self.count + 1) as u32, ..self }
        }
    }

    /// Counts a request at `now` against `limit`: refused with 429 once more than
    /// `limit` requests fell in the window.
    pub fn admit_at(&mut self, now_ms: u64, limit: u32) -> (r: Result<(), Refusal>)
        requires
            old(self).count < u32::MAX,
        ensures
            *final(self) == old(self).after_request(now_ms),
            r is Ok == (final(self).count <= limit),
            refused(r) is Some ==> refused(r) == Some((429u16, "rate limit exceeded"@)),
    {
        let elapsed = if now_ms >= self.window_start_ms {
            now_ms - self.window_start_ms
        } else {
            0
        };
        if elapsed >= RATE_WINDOW_MS {
            self.window_start_ms = now_ms;
            self.count = 0;
        }
        self.count = self.count + 1;
        if self.count > limit {
            return Err(refuse(429, "rate limit exceeded"));
        }
        Ok(())
    }
}

/// Within one window, the first `limit` requests pass and the next one is refused; a
/// request 60 s or more after the window opened starts a new window and passes
/// (for a positive limit).
pub proof fn lemma_rate_window(w: RateWindow, now: u64, later: u64, limit: u32)
    requires
        w.window_start_ms <= now,
        now - w.window_start_ms < RATE_WINDOW_MS,
        w.count < u32::MAX,
        later >= w.window_start_ms + RATE_WINDOW_MS,
        limit > 0,
    ensures
        w.after_request(now).count == w.count + 1,
        w.after_request(now).count <= limit <==> w.count < limit,
        w.after_request(later).count == 1,
        w.after_request(later).count <= limit,
{
}

// ---------------------------------------------------------------------------
// Request ids and trace context
// ---------------------------------------------------------------------------
/// `s` without the character `c`.
pub open spec fn without_char(s: Seq<char>, c: char) -> Seq<char>
    decreases s.len(),
{
    if s.len() == 0 {
        s
    } else if s.last() == c {
        without_char(s.drop_last(), c)
    } else {
        without_char(s.drop_last(), c).push(s.last())
    }
}

/// The W3C `traceparent` generated for a request: `00-{trace}-{span}-01`, where the
/// trace id is the request id without dashes and the span id its first 16 bytes.
pub open spec fn generated_traceparent(request_id: Seq<char>, k: int) -> Seq<char> {
    let t = without_char(request_id, '-');
    "00-"@ + t + "-"@ + t.take(k) + "-01"@
}

/// Builds the `traceparent` for a request id whose dash-free form has a character
/// boundary at byte 16 (a UUID always has).
pub fn new_traceparent(request_id: &str) -> (r: String)
    requires
        exists|k: int|
            0 <= k <= without_char(request_id@, '-').len() && utf8_len(
                #[trigger] without_char(request_id@, '-').take(k),
            ) == 16,
    ensures
        exists|k: int|
            0 <= k <= without_char(request_id@, '-').len() && utf8_len(
                without_char(request_id@, '-').take(k),
            ) == 16 && r@ == generated_traceparent(request_id@, k),
{
    let v = chars_of(request_id);
    let mut t: Vec<char> = Vec::new();
    let mut i: usize = 0;
    while i < v.len()
        invariant
            v@ == request_id@,
            i <= v@.len(),
            t@ == without_char(v@.take(i as int), '-'),
        decreases v@.len() - i,
    {
        assert(v@.take(i + 1).drop_last() =~= v@.take(i as int));
        if v[i] != '-' {
            t.push(v[i]);
        }
        i += 1;
    }
    assert(v@.take(v@.len() as int) =~= v@);
    let ghost tv = t@;
    let mut k: usize = 0;
    let mut bytes: usize = 0;
    while bytes < 16 && k < t.len()
        invariant
            tv == t@,
            tv == without_char(request_id@, '-'),
            k <= t@.len(),
            bytes == utf8_len(tv.take(k as int)),
            bytes < 16 + 4,
            k > 0 ==> utf8_len(tv.take(k - 1)) < 16,
        decreases t@.len() - k,
    {
        assert(tv.take(k + 1).drop_last() =~= tv.take(k as int));
        assert(tv.take(k + 1).last() == tv[k as int]);
        let u = t[k] as u32;
        let w: usize = if u < 0x80 {
            1
        } else if u < 0x800 {
            2
        } else if u < 0x10000 {
            3
        } else {
            4
        };
        bytes = bytes + w;
        k += 1;
    }
    proof {
        let k0 = choose|k0: int|
            0 <= k0 <= tv.len() && utf8_len(#[trigger] tv.take(k0)) == 16;
        if k0 < k {
            lemma_prefix_len_mono(tv, k0, k - 1);
            lemma_utf8_step(tv, k - 1);
        } else if k0 > k {
            lemma_prefix_len_mono(tv, k as int, k0 - 1);
            lemma_utf8_step(tv, k0 - 1);
            lemma_utf8_step(tv, k as int);
        }
        assert(k0 == k);
    }
    let mut out = String::from_str("00-");
    let trace = crate::text::string_from_chars(t.as_slice());
    out.append(trace.as_str());
    out.append("-");
    let span = range_to_string(&t, 0, k);
    out.append(span.as_str());
    out.append("-01");
    proof {
        assert(t@.subrange(0, k as int) =~= tv.take(k as int));
        assert(utf8_len(tv.take(k as int)) == 16);
        assert(out@ == generated_traceparent(request_id@, k as int));
    }
    out
}

proof fn lemma_utf8_step(s: Seq<char>, k: int)
    requires
        0 <= k < s.len(),
    ensures
        utf8_len(s.take(k + 1)) == utf8_len(s.take(k)) + utf8_width(s[k]),
        utf8_len(s.take(k + 1)) > utf8_len(s.take(k)),
{
    assert(s.take(k + 1).drop_last() =~= s.take(k));
}

proof fn lemma_prefix_len_mono(s: Seq<char>, a: int, b: int)
    requires
        0 <= a <= b <= s.len(),
    ensures
        utf8_len(s.take(a)) <= utf8_len(s.take(b)),
{
    lemma_utf8_len_prefix_mono(s.take(b), a);
    assert(s.take(b).take(a) =~= s.take(a));
}

/// The `traceparent` answered to a request: the incoming one when there is one,
/// else one generated from the request id.
pub fn response_traceparent(incoming: Option<&str>, request_id: &str) -> (r: String)
    requires
        incoming is None ==> exists|k: int|
            0 <= k <= without_char(request_id@, '-').len() && utf8_len(
                #[trigger] without_char(request_id@, '-').take(k),
            ) == 16,
    ensures
        match incoming {
            Some(tp) => r@ == tp@,
            None => exists|k: int|
                0 <= k <= without_char(request_id@, '-').len() && utf8_len(
                    without_char(request_id@, '-').take(k),
                ) == 16 && r@ == generated_traceparent(request_id@, k),
        },
{
    match incoming {
        Some(tp) => copy_str(tp),
        None => new_traceparent(request_id),
    }
}

/// What the request-id layer attaches to a response with the request id `id`: the
/// `traceparent` — the incoming one passed on, or one built from the request id (its
/// 32 digits as the trace id, the first 16 as the span id).
pub fn trace_with_id(incoming: Option<&str>, id: &RequestId) -> (tp: String)
    requires
        uuid_v4_text(id.0@),
    ensures
        match incoming {
            Some(t) => tp@ == t@,
            None => tp@ == generated_traceparent(id.0@, 16),
        },
{
    proof {
        lemma_uuid_dash_free(id.0@);
        assert(utf8_len(without_char(id.0@, '-').take(16)) == 16);
    }
    let tp = response_traceparent(incoming, id.0.as_str());
    proof {
        if incoming is None {
            let k = choose|k: int|
                0 <= k <= without_char(id.0@, '-').len() && utf8_len(
                    without_char(id.0@, '-').take(k),
                ) == 16 && tp@ == generated_traceparent(id.0@, k);
            assert(utf8_len(without_char(id.0@, '-').take(k)) == k);
        }
    }
    tp
}

/// What the request-id layer attaches to a response: a fresh request id and its
/// `traceparent` (see [`trace_with_id`]); `None` when the random source failed.
pub fn trace_request(incoming: Option<&str>) -> (r: Option<(RequestId, String)>)
    ensures
        r matches Some((id, tp)) ==> uuid_v4_text(id.0@) && match incoming {
            Some(t) => tp@ == t@,
            None => tp@ == generated_traceparent(id.0@, 16),
        },
{
    match RequestId::generate() {
        Some(id) => {
            let tp = trace_with_id(incoming, &id);
            Some((id, tp))
        },
        None => None,
    }
}

} // verus!
