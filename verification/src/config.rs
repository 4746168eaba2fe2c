//! Server configuration: its defaults, how it is read from the environment, and the
//! checks it must pass before the server starts.
use vstd::prelude::*;
use vstd::string::*;
use crate::env::{EnvVars, env_number, comma_list, strings_of, split_commas};
use crate::text::{str_eq, copy_str, chars_of, utf8_len, utf8_range_longer_than};
use crate::http::{base64_decode, decode_utf8, base64_standard_decoded, utf8_decoded};

verus! {

broadcast use vstd::string::group_string_axioms;

pub struct HeraldConfig {
    pub server: ServerConfig,
    pub store: StoreConfig,
    pub auth: AuthConfig,
    pub presence: PresenceConfig,
    pub webhook: Option<WebhookConfig>,
    pub shroudb: Option<ShroudbConfig>,
    pub tls: Option<TlsConfig>,
    pub tenant_limits: TenantLimitsConfig,
    pub cors: Option<CorsConfig>,
    pub cluster: ClusterConfig,
}

pub struct TenantLimitsConfig {
    pub max_connections_per_tenant: u32,
    pub max_streams_per_tenant: u32,
}

impl Default for TenantLimitsConfig {
    fn default() -> (c: TenantLimitsConfig)
        ensures
            c.max_connections_per_tenant == 10000,
            c.max_streams_per_tenant == 10000,
    {
        TenantLimitsConfig {
            max_connections_per_tenant: default_max_connections_per_tenant(),
            max_streams_per_tenant: default_max_streams_per_tenant(),
        }
    }
}

pub fn default_max_connections_per_tenant() -> (n: u32)
    ensures
        n == 10000,
{
    10000
}

pub fn default_max_streams_per_tenant() -> (n: u32)
    ensures
        n == 10000,
{
    10000
}

pub struct ShroudbConfig {
    pub sentry_addr: Option<String>,
    pub sentry_token: Option<String>,
    pub courier_addr: Option<String>,
    pub courier_token: Option<String>,
    pub chronicle_addr: Option<String>,
    pub chronicle_token: Option<String>,
    pub auth_token: Option<String>,
}

pub struct ServerConfig {
    pub bind: String,
    pub log_level: String,
    pub max_messages_per_sec: u32,
    pub api_rate_limit: u32,
    pub shutdown_timeout_secs: u64,
    /// Maximum WebSocket message size in bytes. Default: 1MB (1048576).
    pub ws_max_message_size: usize,
    /// WebSocket heartbeat interval in seconds. Clients should ping at this
    /// rate; connections idle for 2× this value are closed. Default: 30.
    pub heartbeat_interval_secs: u64,
}

impl Default for ServerConfig {
    fn default() -> (c: ServerConfig)
        ensures
            c.bind@ == "0.0.0.0:6200"@,
            c.log_level@ == "info"@,
            c.max_messages_per_sec == 10,
            c.api_rate_limit == 100,
            c.shutdown_timeout_secs == 30,
            c.ws_max_message_size == 1_048_576,
            c.heartbeat_interval_secs == 30,
    {
        ServerConfig {
            bind: default_bind(),
            log_level: default_log_level(),
            max_messages_per_sec: default_max_messages_per_sec(),
            api_rate_limit: default_api_rate_limit(),
            shutdown_timeout_secs: default_shutdown_timeout(),
            ws_max_message_size: default_ws_max_message_size(),
            heartbeat_interval_secs: default_heartbeat_interval(),
        }
    }
}

pub fn default_ws_max_message_size() -> (n: usize)
    ensures
        n == 1_048_576,
{
    1_048_576
}

pub fn default_heartbeat_interval() -> (n: u64)
    ensures
        n == 30,
{
    30
}

pub struct StoreConfig {
    /// "embedded" (default) or "remote"
    pub mode: String,
    /// Path for embedded mode. Ignored when mode = "remote".
    pub path: String,
    /// ShroudB server URI for remote mode. Required when mode = "remote".
    pub addr: Option<String>,
    pub event_ttl_days: u32,
}

impl Default for StoreConfig {
    fn default() -> (c: StoreConfig)
        ensures
            c.mode@ == "embedded"@,
            c.path@ == "./herald-data/herald.db"@,
            c.addr is None,
            c.event_ttl_days == 7,
    {
        StoreConfig {
            mode: default_store_mode(),
            path: default_store_path(),
            addr: None,
            event_ttl_days: default_ttl_days(),
        }
    }
}

pub fn default_store_mode() -> (s: String)
    ensures
        s@ == "embedded"@,
{
    String::from_str("embedded")
}

pub struct AuthConfig {
    /// Server admin password. Required. Used for all `/admin/*` endpoints.
    pub password: Option<String>,
    /// Maximum age (seconds) of a signed connection token. Default 300 (5 min).
    pub token_window_secs: u64,
}

pub fn default_token_window() -> (n: u64)
    ensures
        n == 300,
{
    300
}

pub struct PresenceConfig {
    pub linger_secs: u64,
    pub manual_override_ttl_secs: u64,
}

impl Default for PresenceConfig {
    fn default() -> (c: PresenceConfig)
        ensures
            c.linger_secs == 10,
            c.manual_override_ttl_secs == 14400,
    {
        PresenceConfig {
            linger_secs: default_linger_secs(),
            manual_override_ttl_secs: default_manual_override_ttl(),
        }
    }
}

pub struct WebhookConfig {
    pub url: String,
    pub secret: String,
    pub retries: u32,
    /// Event types to deliver. Empty/None = all events.
    pub events: Option<Vec<String>>,
}

pub struct TlsConfig {
    pub cert_path: String,
    pub key_path: String,
}

pub struct ClusterConfig {
    /// Enable cross-instance fanout via ShroudB store subscriptions.
    /// Requires `store.mode = "remote"`.
    pub enabled: bool,
    /// Unique identifier for this instance. Auto-generated UUID if omitted.
    pub instance_id: Option<String>,
}

impl Default for ClusterConfig {
    fn default() -> (c: ClusterConfig)
        ensures
            !c.enabled,
            c.instance_id is None,
    {
        ClusterConfig { enabled: false, instance_id: None }
    }
}

pub struct CorsConfig {
    /// Allowed origins. Use ["*"] for any origin (development only).
    pub allowed_origins: Vec<String>,
}

/// Limits of a tenant's plan.
pub struct PlanLimits {
    pub max_connections: u32,
    pub max_streams: u32,
    pub api_rate_limit: u32,
    pub events_per_month: u64,
    pub retention_days: u32,
}

pub fn default_bind() -> (s: String)
    ensures
        s@ == "0.0.0.0:6200"@,
{
    String::from_str("0.0.0.0:6200")
}

pub fn default_log_level() -> (s: String)
    ensures
        s@ == "info"@,
{
    String::from_str("info")
}

pub fn default_store_path() -> (s: String)
    ensures
        s@ == "./herald-data/herald.db"@,
{
    String::from_str("./herald-data/herald.db")
}

pub fn default_ttl_days() -> (n: u32)
    ensures
        n == 7,
{
    7
}

pub fn default_linger_secs() -> (n: u64)
    ensures
        n == 10,
{
    10
}

pub fn default_manual_override_ttl() -> (n: u64)
    ensures
        n == 14400,
{
    14400
}

pub fn default_webhook_retries() -> (n: u32)
    ensures
        n == 3,
{
    3
}

pub fn default_max_messages_per_sec() -> (n: u32)
    ensures
        n == 10,
{
    10
}

pub fn default_api_rate_limit() -> (n: u32)
    ensures
        n == 100,
{
    100
}

pub fn default_shutdown_timeout() -> (n: u64)
    ensures
        n == 30,
{
    30
}

/// Why a configuration was refused.
pub struct ConfigError {
    pub message: String,
}

pub open spec fn opt_text(o: Option<String>) -> Option<Seq<char>> {
    match o {
        Some(s) => Some(s@),
        None => None,
    }
}

/// What `validate` reports, as the text of its first failed check.
pub open spec fn validation_error(c: HeraldConfig, cert_exists: bool, key_exists: bool) -> Option<
    Seq<char>,
> {
    let password = match c.auth.password {
        Some(p) => p@,
        None => Seq::empty(),
    };
    if c.server.max_messages_per_sec == 0 {
        Some("server.max_messages_per_sec must be > 0"@)
    } else if c.server.api_rate_limit == 0 {
        Some("server.api_rate_limit must be > 0"@)
    } else if c.server.shutdown_timeout_secs == 0 {
        Some("server.shutdown_timeout_secs must be > 0"@)
    } else if c.store.mode@ != "embedded"@ && c.store.mode@ != "remote"@ {
        Some("store.mode must be \"embedded\" or \"remote\", got \""@ + c.store.mode@ + "\""@)
    } else if c.store.mode@ == "remote"@ && (match c.store.addr {
        Some(a) => a@.len() == 0,
        None => true,
    }) {
        Some("store.addr is required when store.mode = \"remote\""@)
    } else if c.store.event_ttl_days == 0 {
        Some("store.event_ttl_days must be > 0"@)
    } else if password.len() == 0 {
        Some("auth.password is required"@)
    } else if utf8_len(password) < 16 {
        Some("auth.password should be at least 16 characters"@)
    } else if c.auth.token_window_secs == 0 {
        Some("auth.token_window_secs must be > 0"@)
    } else if c.tls is Some && c.tls->0.cert_path@.len() == 0 {
        Some("tls.cert_path must not be empty when TLS is configured"@)
    } else if c.tls is Some && c.tls->0.key_path@.len() == 0 {
        Some("tls.key_path must not be empty when TLS is configured"@)
    } else if c.tls is Some && !cert_exists {
        Some("tls.cert_path '"@ + c.tls->0.cert_path@ + "' does not exist"@)
    } else if c.tls is Some && !key_exists {
        Some("tls.key_path '"@ + c.tls->0.key_path@ + "' does not exist"@)
    } else if c.cluster.enabled && c.store.mode@ != "remote"@ {
        Some(
            "cluster.enabled requires store.mode = \"remote\" (shared storage for cross-instance coordination)"@,
        )
    } else if c.webhook is Some && c.webhook->0.url@.len() == 0 {
        Some("webhook.url must not be empty when webhook is configured"@)
    } else if c.webhook is Some && c.webhook->0.secret@.len() == 0 {
        Some(
            "webhook.secret must not be empty when webhook is configured — unsigned webhooks are insecure"@,
        )
    } else {
        None
    }
}

fn config_error(msg: &str) -> (r: Result<(), ConfigError>)
    ensures
        r matches Err(e) && e.message@ == msg@,
{
    Err(ConfigError { message: copy_str(msg) })
}

/// Where the server listens: `HERALD_BIND` when it is set; otherwise all interfaces on
/// the port `PORT` names, or on 6200 when `PORT` is not set either.
pub proof fn lemma_bind_address(e: EnvVars, c: HeraldConfig, p: Seq<char>, i: int)
    requires
        config_from_env(e, c),
    ensures
        (forall|j: int| 0 <= j < e.vars@.len() ==> (#[trigger] e.vars@[j]).0@ != "HERALD_BIND"@)
            && 0 <= i < e.vars@.len() && e.vars@[i].0@ == "PORT"@ && e.vars@[i].1@ == p && (forall|
            j: int,
        | 0 <= j < i ==> (#[trigger] e.vars@[j]).0@ != "PORT"@) ==> c.server.bind@ == "0.0.0.0:"@
            + p,
        (forall|j: int|
            0 <= j < e.vars@.len() ==> (#[trigger] e.vars@[j]).0@ != "HERALD_BIND"@ && e.vars@[j].0@
                != "PORT"@) ==> c.server.bind@ == "0.0.0.0:6200"@,
        0 <= i < e.vars@.len() && e.vars@[i].0@ == "HERALD_BIND"@ && e.vars@[i].1@ == p && (forall|
            j: int,
        | 0 <= j < i ==> (#[trigger] e.vars@[j]).0@ != "HERALD_BIND"@) ==> c.server.bind@ == p,
{
    reveal_strlit("0.0.0.0:");
    reveal_strlit("6200");
    reveal_strlit("0.0.0.0:6200");
    crate::env::lemma_env_lookup(e.vars@, "HERALD_BIND"@, i);
    crate::env::lemma_env_lookup(e.vars@, "PORT"@, i);
    assert("0.0.0.0:"@ + "6200"@ =~= "0.0.0.0:6200"@);
}

/// Every setting whose variable is not set takes its default: log level `info`, 10
/// messages per second, 100 API requests, a 30 s shutdown timeout, 1 MiB WebSocket
/// messages, a 30 s heartbeat, the embedded store in `./herald-data` keeping events 7
/// days, no password, 300 s token windows, 10 s presence linger, 4 h manual overrides,
/// no webhook, no TLS, 10 000 connections and streams per tenant, no CORS section, and
/// clustering off.
pub proof fn lemma_config_defaults(e: EnvVars, c: HeraldConfig)
    requires
        config_from_env(e, c),
    ensures
        e.lookup("HERALD_LOG_LEVEL"@) is None ==> c.server.log_level@ == "info"@,
        e.lookup("HERALD_MAX_MSG_PER_SEC"@) is None ==> c.server.max_messages_per_sec == 10,
        e.lookup("HERALD_API_RATE_LIMIT"@) is None ==> c.server.api_rate_limit == 100,
        e.lookup("HERALD_SHUTDOWN_TIMEOUT"@) is None ==> c.server.shutdown_timeout_secs == 30,
        e.lookup("HERALD_WS_MAX_MESSAGE_SIZE"@) is None ==> c.server.ws_max_message_size
            == 1_048_576,
        e.lookup("HERALD_HEARTBEAT_INTERVAL"@) is None ==> c.server.heartbeat_interval_secs == 30,
        e.lookup("HERALD_STORE_MODE"@) is None ==> c.store.mode@ == "embedded"@,
        e.lookup("HERALD_DATA_DIR"@) is None ==> c.store.path@ == "./herald-data"@,
        e.lookup("HERALD_STORE_ADDR"@) is None ==> c.store.addr is None,
        e.lookup("HERALD_EVENT_TTL_DAYS"@) is None ==> c.store.event_ttl_days == 7,
        e.lookup("HERALD_PASSWORD"@) is None ==> c.auth.password is None,
        e.lookup("HERALD_TOKEN_WINDOW_SECS"@) is None ==> c.auth.token_window_secs == 300,
        e.lookup("HERALD_LINGER_SECS"@) is None ==> c.presence.linger_secs == 10,
        e.lookup("HERALD_PRESENCE_TTL"@) is None ==> c.presence.manual_override_ttl_secs == 14400,
        e.lookup("HERALD_WEBHOOK_URL"@) is None ==> c.webhook is None,
        e.lookup("HERALD_TLS_CERT"@) is None ==> c.tls is None,
        e.lookup("HERALD_SENTRY_ADDR"@) is None ==> c.shroudb is None,
        e.lookup("HERALD_MAX_CONNS_PER_TENANT"@) is None
            ==> c.tenant_limits.max_connections_per_tenant == 10000,
        e.lookup("HERALD_MAX_STREAMS_PER_TENANT"@) is None
            ==> c.tenant_limits.max_streams_per_tenant == 10000,
        e.lookup("HERALD_CORS_ORIGINS"@) is None ==> c.cors is None,
        e.lookup("HERALD_CLUSTER_ENABLED"@) is None ==> !c.cluster.enabled,
        e.lookup("HERALD_CLUSTER_INSTANCE_ID"@) is None ==> c.cluster.instance_id is None,
{
}

/// The configuration that the environment `e` describes.
pub open spec fn config_from_env(e: EnvVars, c: HeraldConfig) -> bool {
    let port = match e.lookup("PORT"@) {
        Some(p) => p,
        None => "6200"@,
    };
    let text_or = |k: Seq<char>, d: Seq<char>| match e.lookup(k) {
        Some(v) => v,
        None => d,
    };
    let flag = |k: Seq<char>| match e.lookup(k) {
        Some(v) => v == "true"@ || v == "1"@,
        None => false,
    };
    &&& c.server.bind@ == text_or("HERALD_BIND"@, "0.0.0.0:"@ + port)
    &&& c.server.log_level@ == text_or("HERALD_LOG_LEVEL"@, "info"@)
    &&& c.server.max_messages_per_sec == env_number(
        e.lookup("HERALD_MAX_MSG_PER_SEC"@),
        u32::MAX as nat,
        10,
    )
    &&& c.server.api_rate_limit == env_number(
        e.lookup("HERALD_API_RATE_LIMIT"@),
        u32::MAX as nat,
        100,
    )
    &&& c.server.shutdown_timeout_secs == env_number(
        e.lookup("HERALD_SHUTDOWN_TIMEOUT"@),
        u64::MAX as nat,
        30,
    )
    &&& c.server.ws_max_message_size == env_number(
        e.lookup("HERALD_WS_MAX_MESSAGE_SIZE"@),
        usize::MAX as nat,
        1_048_576,
    )
    &&& c.server.heartbeat_interval_secs == env_number(
        e.lookup("HERALD_HEARTBEAT_INTERVAL"@),
        u64::MAX as nat,
        30,
    )
    &&& c.store.mode@ == text_or("HERALD_STORE_MODE"@, "embedded"@)
    &&& c.store.path@ == text_or("HERALD_DATA_DIR"@, "./herald-data"@)
    &&& opt_text(c.store.addr) == e.lookup("HERALD_STORE_ADDR"@)
    &&& c.store.event_ttl_days == env_number(
        e.lookup("HERALD_EVENT_TTL_DAYS"@),
        u32::MAX as nat,
        7,
    )
    &&& opt_text(c.auth.password) == e.lookup("HERALD_PASSWORD"@)
    &&& c.auth.token_window_secs == env_number(
        e.lookup("HERALD_TOKEN_WINDOW_SECS"@),
        u64::MAX as nat,
        300,
    )
    &&& c.presence.linger_secs == env_number(e.lookup("HERALD_LINGER_SECS"@), u64::MAX as nat, 10)
    &&& c.presence.manual_override_ttl_secs == env_number(
        e.lookup("HERALD_PRESENCE_TTL"@),
        u64::MAX as nat,
        14400,
    )
    &&& match e.lookup("HERALD_WEBHOOK_URL"@) {
        Some(url) => c.webhook matches Some(w) && w.url@ == url && w.secret@ == text_or(
            "HERALD_WEBHOOK_SECRET"@,
            ""@,
        ) && w.retries == env_number(e.lookup("HERALD_WEBHOOK_RETRIES"@), u32::MAX as nat, 3)
            && match e.lookup("HERALD_WEBHOOK_EVENTS"@) {
            Some(list) => w.events matches Some(v) && strings_of(v@) == comma_list(list),
            None => w.events is None,
        },
        None => c.webhook is None,
    }
    &&& match e.lookup("HERALD_SENTRY_ADDR"@) {
        Some(_) => c.shroudb matches Some(s) && opt_text(s.sentry_addr) == e.lookup(
            "HERALD_SENTRY_ADDR"@,
        ) && opt_text(s.sentry_token) == e.lookup("HERALD_SENTRY_TOKEN"@) && opt_text(
            s.courier_addr,
        ) == e.lookup("HERALD_COURIER_ADDR"@) && opt_text(s.courier_token) == e.lookup(
            "HERALD_COURIER_TOKEN"@,
        ) && opt_text(s.chronicle_addr) == e.lookup("HERALD_CHRONICLE_ADDR"@) && opt_text(
            s.chronicle_token,
        ) == e.lookup("HERALD_CHRONICLE_TOKEN"@) && opt_text(s.auth_token) == e.lookup(
            "HERALD_MOAT_TOKEN"@,
        ),
        None => c.shroudb is None,
    }
    &&& match e.lookup("HERALD_TLS_CERT"@) {
        Some(cert) => c.tls matches Some(t) && t.cert_path@ == cert && t.key_path@ == text_or(
            "HERALD_TLS_KEY"@,
            ""@,
        ),
        None => c.tls is None,
    }
    &&& c.tenant_limits.max_connections_per_tenant == env_number(
        e.lookup("HERALD_MAX_CONNS_PER_TENANT"@),
        u32::MAX as nat,
        10000,
    )
    &&& c.tenant_limits.max_streams_per_tenant == env_number(
        e.lookup("HERALD_MAX_STREAMS_PER_TENANT"@),
        u32::MAX as nat,
        10000,
    )
    &&& match e.lookup("HERALD_CORS_ORIGINS"@) {
        Some(list) => c.cors matches Some(x) && strings_of(x.allowed_origins@) == comma_list(list),
        None => c.cors is None,
    }
    &&& c.cluster.enabled == flag("HERALD_CLUSTER_ENABLED"@)
    &&& opt_text(c.cluster.instance_id) == e.lookup("HERALD_CLUSTER_INSTANCE_ID"@)
}

impl HeraldConfig {
    /// Validates the configuration at startup. `cert_exists` and `key_exists` say whether
    /// the configured TLS certificate and key files exist.
    pub fn validate(&self, cert_exists: bool, key_exists: bool) -> (r: Result<(), ConfigError>)
        ensures
            match validation_error(*self, cert_exists, key_exists) {
                Some(m) => r matches Err(e) && e.message@ == m,
                None => r is Ok,
            },
    {
        if self.server.max_messages_per_sec == 0 {
            return config_error("server.max_messages_per_sec must be > 0");
        }
        if self.server.api_rate_limit == 0 {
            return config_error("server.api_rate_limit must be > 0");
        }
        if self.server.shutdown_timeout_secs == 0 {
            return config_error("server.shutdown_timeout_secs must be > 0");
        }
        let mode = self.store.mode.as_str();
        proof {
            reveal_strlit("embedded");
            reveal_strlit("remote");
            assert("embedded"@.len() != "remote"@.len());
        }
        if str_eq(mode, "embedded") {
        } else if str_eq(mode, "remote") {
            let missing = match &self.store.addr {
                Some(a) => a.as_str().unicode_len() == 0,
                None => true,
            };
            if missing {
                return config_error("store.addr is required when store.mode = \"remote\"");
            }
        } else {
            let mut m = String::from_str("store.mode must be \"embedded\" or \"remote\", got \"");
            m.append(mode);
            m.append("\"");
            return Err(ConfigError { message: m });
        }
        if self.store.event_ttl_days == 0 {
            return config_error("store.event_ttl_days must be > 0");
        }
        let password = match &self.auth.password {
            Some(p) => chars_of(p.as_str()),
            None => Vec::new(),
        };
        proof {
            if self.auth.password is None {
                assert(password@ =~= Seq::<char>::empty());
            }
            assert(password@.subrange(0, password@.len() as int) =~= password@);
        }
        if password.len() == 0 {
            return config_error("auth.password is required");
        }
        if !utf8_range_longer_than(&password, 0, password.len(), 15) {
            return config_error("auth.password should be at least 16 characters");
        }
        if self.auth.token_window_secs == 0 {
            return config_error("auth.token_window_secs must be > 0");
        }
        match &self.tls {
            Some(tls) => {
                if tls.cert_path.as_str().unicode_len() == 0 {
                    return config_error("tls.cert_path must not be empty when TLS is configured");
                }
                if tls.key_path.as_str().unicode_len() == 0 {
                    return config_error("tls.key_path must not be empty when TLS is configured");
                }
                if !cert_exists {
                    let mut m = String::from_str("tls.cert_path '");
                    m.append(tls.cert_path.as_str());
                    m.append("' does not exist");
                    return Err(ConfigError { message: m });
                }
                if !key_exists {
                    let mut m = String::from_str("tls.key_path '");
                    m.append(tls.key_path.as_str());
                    m.append("' does not exist");
                    return Err(ConfigError { message: m });
                }
            },
            None => {},
        }
        if self.cluster.enabled && !str_eq(mode, "remote") {
            return config_error(
                "cluster.enabled requires store.mode = \"remote\" (shared storage for cross-instance coordination)",
            );
        }
        match &self.webhook {
            Some(webhook) => {
                if webhook.url.as_str().unicode_len() == 0 {
                    return config_error(
                        "webhook.url must not be empty when webhook is configured",
                    );
                }
                if webhook.secret.as_str().unicode_len() == 0 {
                    return config_error(
                        "webhook.secret must not be empty when webhook is configured — unsigned webhooks are insecure",
                    );
                }
            },
            None => {},
        }
        Ok(())
    }

    /// Builds the configuration from environment variables (`HERALD_*`, `PORT`).
    pub fn from_env(env: &EnvVars) -> (r: Result<HeraldConfig, ConfigError>)
        ensures
            r matches Ok(c) && config_from_env(*env, c),
    {
        let port = env.get_or("PORT", "6200");
        let bind = match env.get("HERALD_BIND") {
            Some(b) => b,
            None => {
                let mut b = String::from_str("0.0.0.0:");
                b.append(port.as_str());
                b
            },
        };
        let server = ServerConfig {
            bind,
            log_level: env.get_or("HERALD_LOG_LEVEL", "info"),
            max_messages_per_sec: env.get_u32_or("HERALD_MAX_MSG_PER_SEC", 10),
            api_rate_limit: env.get_u32_or("HERALD_API_RATE_LIMIT", 100),
            shutdown_timeout_secs: env.get_u64_or("HERALD_SHUTDOWN_TIMEOUT", 30),
            ws_max_message_size: env.get_usize_or("HERALD_WS_MAX_MESSAGE_SIZE", 1_048_576),
            heartbeat_interval_secs: env.get_u64_or("HERALD_HEARTBEAT_INTERVAL", 30),
        };
        let store = StoreConfig {
            mode: env.get_or("HERALD_STORE_MODE", "embedded"),
            path: env.get_or("HERALD_DATA_DIR", "./herald-data"),
            addr: env.get("HERALD_STORE_ADDR"),
            event_ttl_days: env.get_u32_or("HERALD_EVENT_TTL_DAYS", 7),
        };
        let auth = AuthConfig {
            password: env.get("HERALD_PASSWORD"),
            token_window_secs: env.get_u64_or("HERALD_TOKEN_WINDOW_SECS", 300),
        };
        let presence = PresenceConfig {
            linger_secs: env.get_u64_or("HERALD_LINGER_SECS", 10),
            manual_override_ttl_secs: env.get_u64_or("HERALD_PRESENCE_TTL", 14400),
        };
        let webhook = match env.get("HERALD_WEBHOOK_URL") {
            Some(url) => Some(
                WebhookConfig {
                    url,
                    secret: env.get_or("HERALD_WEBHOOK_SECRET", ""),
                    retries: env.get_u32_or("HERALD_WEBHOOK_RETRIES", 3),
                    events: match env.get("HERALD_WEBHOOK_EVENTS") {
                        Some(s) => Some(split_commas(s.as_str())),
                        None => None,
                    },
                },
            ),
            None => None,
        };
        let shroudb = match env.get("HERALD_SENTRY_ADDR") {
            Some(_) => Some(
                ShroudbConfig {
                    sentry_addr: env.get("HERALD_SENTRY_ADDR"),
                    sentry_token: env.get("HERALD_SENTRY_TOKEN"),
                    courier_addr: env.get("HERALD_COURIER_ADDR"),
                    courier_token: env.get("HERALD_COURIER_TOKEN"),
                    chronicle_addr: env.get("HERALD_CHRONICLE_ADDR"),
                    chronicle_token: env.get("HERALD_CHRONICLE_TOKEN"),
                    auth_token: env.get("HERALD_MOAT_TOKEN"),
                },
            ),
            None => None,
        };
        let tls = match env.get("HERALD_TLS_CERT") {
            Some(cert) => Some(
                TlsConfig { cert_path: cert, key_path: env.get_or("HERALD_TLS_KEY", "") },
            ),
            None => None,
        };
        let tenant_limits = TenantLimitsConfig {
            max_connections_per_tenant: env.get_u32_or("HERALD_MAX_CONNS_PER_TENANT", 10000),
            max_streams_per_tenant: env.get_u32_or("HERALD_MAX_STREAMS_PER_TENANT", 10000),
        };
        let cors = match env.get("HERALD_CORS_ORIGINS") {
            Some(origins) => Some(CorsConfig { allowed_origins: split_commas(origins.as_str()) }),
            None => None,
        };
        let cluster = ClusterConfig {
            enabled: env.get_flag("HERALD_CLUSTER_ENABLED"),
            instance_id: env.get("HERALD_CLUSTER_INSTANCE_ID"),
        };
        Ok(
            HeraldConfig {
                server,
                store,
                auth,
                presence,
                webhook,
                shroudb,
                tls,
                tenant_limits,
                cors,
                cluster,
            },
        )
    }

    /// The configuration read from a file when one exists (`from_file`, already parsed),
    /// otherwise from the environment.
    pub fn load_or_env(from_file: Option<Result<HeraldConfig, ConfigError>>, env: &EnvVars) -> (r:
        Result<HeraldConfig, ConfigError>)
        ensures
            match from_file {
                Some(f) => r == f,
                None => r matches Ok(c) && config_from_env(*env, c),
            },
    {
        match from_file {
            Some(f) => f,
            None => HeraldConfig::from_env(env),
        }
    }
}

/// What a Keep value decodes to: its base64 text decoded, as UTF-8.
pub open spec fn keep_decoded(value: Seq<char>) -> Option<Seq<char>> {
    match base64_standard_decoded(value) {
        Some(bytes) => utf8_decoded(bytes),
        None => None,
    }
}

/// Decodes a value stored in Keep (base64 of UTF-8 text).
pub fn decode_keep_value(value: &str) -> (r: Option<String>)
    ensures
        match keep_decoded(value@) {
            Some(t) => r matches Some(s) && s@ == t,
            None => r is None,
        },
{
    match base64_decode(value) {
        Some(bytes) => decode_utf8(bytes),
        None => None,
    }
}

/// The Keep address to load secrets from (`HERALD_KEEP_ADDR`, when set and not empty).
pub fn keep_address(env: &EnvVars) -> (r: Option<String>)
    ensures
        match env.lookup("HERALD_KEEP_ADDR"@) {
            Some(a) if a.len() > 0 => r matches Some(x) && x@ == a,
            _ => r is None,
        },
{
    match env.get("HERALD_KEEP_ADDR") {
        Some(a) => if a.unicode_len() > 0 {
            Some(a)
        } else {
            None
        },
        None => None,
    }
}

/// Whether the storage master key is to be fetched from Keep: only when
/// `SHROUDB_MASTER_KEY` is not set.
pub fn master_key_wanted(env: &EnvVars) -> (r: bool)
    ensures
        r == env.lookup("SHROUDB_MASTER_KEY"@) is None,
{
    env.get("SHROUDB_MASTER_KEY").is_none()
}

/// The error when the master key is neither in the environment nor in Keep.
pub fn master_key_missing(keep_error: &str) -> (e: ConfigError)
    ensures
        e.message@ == "master key not available: not in env and Keep returned: "@ + keep_error@,
{
    let mut m = String::from_str("master key not available: not in env and Keep returned: ");
    m.append(keep_error);
    ConfigError { message: m }
}

impl HeraldConfig {
    /// Applies the secrets fetched from Keep (`None`: not fetched): the admin password,
    /// and the webhook secret when a webhook is configured. A value that does not
    /// decode leaves the setting as it was.
    pub fn apply_keep_secrets(&mut self, password: Option<&str>, webhook_secret: Option<&str>)
        ensures
            final(self).server == old(self).server,
            final(self).store == old(self).store,
            final(self).tls == old(self).tls,
            final(self).cluster == old(self).cluster,
            opt_text(final(self).auth.password) == match password {
                Some(v) => match keep_decoded(v@) {
                    Some(t) => Some(t),
                    None => opt_text(old(self).auth.password),
                },
                None => opt_text(old(self).auth.password),
            },
            final(self).auth.token_window_secs == old(self).auth.token_window_secs,
            match old(self).webhook {
                Some(w) => final(self).webhook matches Some(fw) && fw.url == w.url && fw.retries
                    == w.retries && fw.events == w.events && fw.secret@ == match webhook_secret {
                    Some(v) => match keep_decoded(v@) {
                        Some(t) => t,
                        None => w.secret@,
                    },
                    None => w.secret@,
                },
                None => final(self).webhook is None,
            },
    {
        match password {
            Some(v) => match decode_keep_value(v) {
                Some(p) => {
                    self.auth.password = Some(p);
                },
                None => {},
            },
            None => {},
        }
        match webhook_secret {
            Some(v) => match decode_keep_value(v) {
                Some(sec) => {
                    match &mut self.webhook {
                        Some(wh) => {
                            wh.secret = sec;
                        },
                        None => {},
                    }
                },
                None => {},
            },
            None => {},
        }
    }
}

} // verus!
