//! Talking to running agents: where their API lives, the session-cookie
//! handshake with them, and how their answers become dashboard replies.
use vstd::prelude::*;
use crate::text::{body_excerpt, decimal, framed, owned, prefixed, push_decimal, push_str};
use vstd::string::StringSliceAdditionalSpecFns;
use crate::slug_map::SlugMap;

verus! {

// ---------------------------------------------------------------------------
// Replies
// ---------------------------------------------------------------------------

/// A reply of the proxy: an HTTP status code, and either data or an error
/// message.
#[derive(Debug)]
pub struct ProxyResponse<T> {
    pub status: u16,
    pub ok: bool,
    pub data: Option<T>,
    pub error: Option<String>,
}

/// HTTP 200.
pub const STATUS_OK: u16 = 200;

/// HTTP 404.
pub const STATUS_NOT_FOUND: u16 = 404;

/// HTTP 500.
pub const STATUS_INTERNAL_SERVER_ERROR: u16 = 500;

/// HTTP 502.
pub const STATUS_BAD_GATEWAY: u16 = 502;

/// A successful reply (200) carrying `data`.
pub fn proxy_ok<T>(data: T) -> (r: ProxyResponse<T>)
    ensures
        r.status == STATUS_OK,
        r.ok,
        r.data == Some(data),
        r.error is None,
{
    ProxyResponse { status: STATUS_OK, ok: true, data: Some(data), error: None }
}

/// A failed reply (502, the agent failed) carrying `msg`.
pub fn proxy_err<T>(msg: String) -> (r: ProxyResponse<T>)
    ensures
        r.status == STATUS_BAD_GATEWAY,
        !r.ok,
        r.data is None,
        r.error == Some(msg),
{
    ProxyResponse { status: STATUS_BAD_GATEWAY, ok: false, data: None, error: Some(msg) }
}

/// A failed reply (404, no such agent) carrying `msg`.
pub fn proxy_not_found<T>(msg: String) -> (r: ProxyResponse<T>)
    ensures
        r.status == STATUS_NOT_FOUND,
        !r.ok,
        r.data is None,
        r.error == Some(msg),
{
    ProxyResponse { status: STATUS_NOT_FOUND, ok: false, data: None, error: Some(msg) }
}

/// A failed reply (500, the dashboard failed) carrying `msg`.
pub fn proxy_internal_error<T>(msg: String) -> (r: ProxyResponse<T>)
    ensures
        r.status == STATUS_INTERNAL_SERVER_ERROR,
        !r.ok,
        r.data is None,
        r.error == Some(msg),
{
    ProxyResponse { status: STATUS_INTERNAL_SERVER_ERROR, ok: false, data: None, error: Some(msg) }
}

/// The reply for a proxied read: the data fetched, or a 502 with the reason
/// it could not be fetched.
pub fn fetch_reply<T>(fetched: Result<T, String>) -> (r: ProxyResponse<T>)
    ensures
        match fetched {
            Ok(d) => r.status == STATUS_OK && r.ok && r.data == Some(d) && r.error is None,
            Err(e) => r.status == STATUS_BAD_GATEWAY && !r.ok && r.data is None && r.error == Some(e),
        },
{
    match fetched {
        Ok(d) => proxy_ok(d),
        Err(e) => proxy_err(e),
    }
}

/// What came back from asking an agent for its health.
pub enum HealthAnswer<T> {
    /// The agent could not be reached; the reason.
    Unreachable(String),
    /// The agent answered something that is not JSON; the reason.
    Unreadable(String),
    /// The agent answered with this data.
    Data(T),
}

/// The reply for a health check.
pub fn health_reply<T>(answer: HealthAnswer<T>) -> (r: ProxyResponse<T>)
    ensures
        match answer {
            HealthAnswer::Unreachable(e) => r.status == STATUS_BAD_GATEWAY && !r.ok && r.data is None
                && (r.error matches Some(m) && m@ == "Agent unreachable: "@ + e@),
            HealthAnswer::Unreadable(e) => r.status == STATUS_BAD_GATEWAY && !r.ok && r.data is None
                && r.error == Some(e),
            HealthAnswer::Data(d) => r.status == STATUS_OK && r.ok && r.data == Some(d)
                && r.error is None,
        },
{
    match answer {
        HealthAnswer::Unreachable(e) => proxy_err(prefixed("Agent unreachable: ", e.as_str())),
        HealthAnswer::Unreadable(e) => proxy_err(e),
        HealthAnswer::Data(d) => proxy_ok(d),
    }
}

/// The reply for reading an agent's configuration from disk: 404 when the
/// agent is unknown, 500 when its configuration cannot be read, else the
/// data.
pub fn config_reply<T>(agent_known: bool, config: Result<T, String>) -> (r: ProxyResponse<T>)
    ensures
        !agent_known ==> r.status == STATUS_NOT_FOUND && !r.ok && r.data is None
            && (r.error matches Some(m) && m@ == "Agent not found"@),
        agent_known ==> match config {
            Ok(d) => r.status == STATUS_OK && r.ok && r.data == Some(d) && r.error is None,
            Err(e) => r.status == STATUS_INTERNAL_SERVER_ERROR && !r.ok && r.data is None
                && r.error == Some(e),
        },
{
    if !agent_known {
        return proxy_not_found(owned("Agent not found"));
    }
    match config {
        Ok(d) => proxy_ok(d),
        Err(e) => proxy_internal_error(e),
    }
}

// ---------------------------------------------------------------------------
// Where an agent's API lives
// ---------------------------------------------------------------------------

/// The address of `path` in the API of an agent listening on `port`.
pub open spec fn agent_url_spec(port: u16, path: Seq<char>) -> Seq<char> {
    "http://127.0.0.1:"@ + decimal(port as nat) + "/api/"@ + path
}

/// `Agent '<slug>' not found`.
pub open spec fn agent_not_found_spec(slug: Seq<char>) -> Seq<char> {
    "Agent '"@ + slug + "' not found"@
}

/// The address of `path` in the API of the agent `slug`, whose port is known
/// when its metadata could be loaded.
pub fn agent_url(port: Option<u16>, slug: &str, path: &str) -> (r: Result<String, String>)
    ensures
        match port {
            Some(p) => r matches Ok(u) && u@ == agent_url_spec(p, path@),
            None => r matches Err(e) && e@ == agent_not_found_spec(slug@),
        },
{
    match port {
        Some(p) => {
            let mut u = owned("http://127.0.0.1:");
            push_decimal(&mut u, p as u64);
            push_str(&mut u, "/api/");
            push_str(&mut u, path);
            Ok(u)
        },
        None => Err(framed("Agent '", slug, "' not found")),
    }
}

/// The reads the proxy forwards to an agent after logging in.
#[derive(Debug, Clone, Copy, PartialEq, Eq, Structural)]
pub enum ProxyEndpoint {
    ConfigSelfCheck,
    Sessions,
    History,
    Audit,
    Usage,
    Skills,
    Metrics,
    MetricsHistory,
    MemoryObservability,
    AuthStatus,
    AgentCard,
}

/// The path in the agent's API that `e` reads.
pub open spec fn upstream_path_spec(e: ProxyEndpoint) -> Seq<char> {
    match e {
        ProxyEndpoint::ConfigSelfCheck => "config/self_check"@,
        ProxyEndpoint::Sessions => "sessions"@,
        ProxyEndpoint::History => "history"@,
        ProxyEndpoint::Audit => "audit"@,
        ProxyEndpoint::Usage => "usage"@,
        ProxyEndpoint::Skills => "skills"@,
        ProxyEndpoint::Metrics => "metrics/summary"@,
        ProxyEndpoint::MetricsHistory => "metrics/history"@,
        ProxyEndpoint::MemoryObservability => "memory_observability"@,
        ProxyEndpoint::AuthStatus => "auth/status"@,
        ProxyEndpoint::AgentCard => "a2a/agent-card"@,
    }
}

/// Law: each endpoint reads the agent's path of the same name (the metrics
/// summary for the metrics route, `a2a/agent-card` for the agent card), and
/// no two endpoints read the same path.
pub proof fn lemma_upstream_paths()
    ensures
        upstream_path_spec(ProxyEndpoint::ConfigSelfCheck) == "config/self_check"@,
        upstream_path_spec(ProxyEndpoint::Sessions) == "sessions"@,
        upstream_path_spec(ProxyEndpoint::History) == "history"@,
        upstream_path_spec(ProxyEndpoint::Audit) == "audit"@,
        upstream_path_spec(ProxyEndpoint::Usage) == "usage"@,
        upstream_path_spec(ProxyEndpoint::Skills) == "skills"@,
        upstream_path_spec(ProxyEndpoint::Metrics) == "metrics/summary"@,
        upstream_path_spec(ProxyEndpoint::MetricsHistory) == "metrics/history"@,
        upstream_path_spec(ProxyEndpoint::MemoryObservability) == "memory_observability"@,
        upstream_path_spec(ProxyEndpoint::AuthStatus) == "auth/status"@,
        upstream_path_spec(ProxyEndpoint::AgentCard) == "a2a/agent-card"@,
        forall|a: ProxyEndpoint, b: ProxyEndpoint|
            a != b ==> #[trigger] upstream_path_spec(a) != #[trigger] upstream_path_spec(b),
{
    reveal_strlit("config/self_check");
    reveal_strlit("sessions");
    reveal_strlit("history");
    reveal_strlit("audit");
    reveal_strlit("usage");
    reveal_strlit("skills");
    reveal_strlit("metrics/summary");
    reveal_strlit("metrics/history");
    reveal_strlit("memory_observability");
    reveal_strlit("auth/status");
    reveal_strlit("a2a/agent-card");
    assert("audit"@[0] != "usage"@[0]);
    assert("metrics/summary"@[8] != "metrics/history"@[8]);
    assert forall|a: ProxyEndpoint, b: ProxyEndpoint|
        a != b implies #[trigger] upstream_path_spec(a) != #[trigger] upstream_path_spec(b) by {
        if upstream_path_spec(a).len() == upstream_path_spec(b).len() {
            if upstream_path_spec(a).len() == 5 {
                assert(upstream_path_spec(a)[0] != upstream_path_spec(b)[0]);
            } else {
                assert(upstream_path_spec(a)[8] != upstream_path_spec(b)[8]);
            }
        }
    }
}

impl ProxyEndpoint {
    /// The path in the agent's API that this endpoint reads.
    pub fn upstream_path(self) -> (p: String)
        ensures
            p@ == upstream_path_spec(self),
    {
        match self {
            ProxyEndpoint::ConfigSelfCheck => owned("config/self_check"),
            ProxyEndpoint::Sessions => owned("sessions"),
            ProxyEndpoint::History => owned("history"),
            ProxyEndpoint::Audit => owned("audit"),
            ProxyEndpoint::Usage => owned("usage"),
            ProxyEndpoint::Skills => owned("skills"),
            ProxyEndpoint::Metrics => owned("metrics/summary"),
            ProxyEndpoint::MetricsHistory => owned("metrics/history"),
            ProxyEndpoint::MemoryObservability => owned("memory_observability"),
            ProxyEndpoint::AuthStatus => owned("auth/status"),
            ProxyEndpoint::AgentCard => owned("a2a/agent-card"),
        }
    }
}

// ---------------------------------------------------------------------------
// Why a proxied read failed
// ---------------------------------------------------------------------------

/// `Connection failed: <reason>`.
pub fn connection_failed_message(reason: &str) -> (m: String)
    ensures
        m@ == "Connection failed: "@ + reason@,
{
    prefixed("Connection failed: ", reason)
}

/// `Parse failed: <reason>`.
pub fn parse_failed_message(reason: &str) -> (m: String)
    ensures
        m@ == "Parse failed: "@ + reason@,
{
    prefixed("Parse failed: ", reason)
}

/// `Agent returned <status>: <body>` with the body cut to its first 200
/// bytes; nothing when that cut falls inside a character.
pub fn agent_returned_message(status: &str, body: &str) -> (r: Option<String>)
    ensures
        ({
            let bytes = body.spec_bytes();
            let cut = if body.len() < 200 { body.len() as int } else { 200 };
            &&& r is Some <==> vstd::utf8::is_char_boundary(bytes, cut)
            &&& r matches Some(m) ==> exists|e: Seq<char>|
                #![trigger vstd::utf8::encode_utf8(e)]
                vstd::utf8::encode_utf8(e) == bytes.subrange(0, cut) && m@ == "Agent returned "@
                    + status@ + ": "@ + e
        }),
{
    match body_excerpt(body) {
        Some(excerpt) => {
            let mut m = framed("Agent returned ", status, ": ");
            push_str(&mut m, excerpt);
            proof {
                assert(vstd::utf8::encode_utf8(excerpt@) == excerpt.spec_bytes());
            }
            Some(m)
        },
        None => None,
    }
}

/// Whether an agent's HTTP status code reports success: it lies in 200–299.
pub fn upstream_succeeded(code: u16) -> (b: bool)
    ensures
        b == (200 <= code && code < 300),
{
    200 <= code && code < 300
}

/// What came back from a proxied read of an agent.
pub enum FetchAnswer<T> {
    /// The request could not be sent or got no answer; the reason.
    Unreachable(String),
    /// The agent answered with a status that is not a success, and this body.
    Refused { status: String, body: String },
    /// The agent answered with success but not with JSON; the reason.
    Unparsable(String),
    /// The agent answered with this data.
    Data(T),
}

/// The result of a proxied read: the data, or why there is none; nothing
/// when a refusal's body cannot be cut at byte 200.
pub fn fetch_result<T>(answer: FetchAnswer<T>) -> (r: Option<Result<T, String>>)
    ensures
        match answer {
            FetchAnswer::Unreachable(e) => r matches Some(Err(m)) && m@ == "Connection failed: "@ + e@,
            FetchAnswer::Refused { status, body } => {
                let bytes = vstd::utf8::encode_utf8(body@);
                let n = bytes.len() as usize;
                let cut = if n < 200 { n as int } else { 200 };
                &&& r is Some <==> vstd::utf8::is_char_boundary(bytes, cut)
                &&& r matches Some(x) ==> (x matches Err(m) && exists|e: Seq<char>|
                    #![trigger vstd::utf8::encode_utf8(e)]
                    vstd::utf8::encode_utf8(e) == bytes.subrange(0, cut) && m@ == "Agent returned "@
                        + status@ + ": "@ + e)
            },
            FetchAnswer::Unparsable(e) => r matches Some(Err(m)) && m@ == "Parse failed: "@ + e@,
            FetchAnswer::Data(d) => r == Some(Ok::<T, String>(d)),
        },
{
    match answer {
        FetchAnswer::Unreachable(e) => Some(Err(connection_failed_message(e.as_str()))),
        FetchAnswer::Refused { status, body } => match agent_returned_message(status.as_str(), body.as_str()) {
            Some(m) => Some(Err(m)),
            None => None,
        },
        FetchAnswer::Unparsable(e) => Some(Err(parse_failed_message(e.as_str()))),
        FetchAnswer::Data(d) => Some(Ok(d)),
    }
}

// ---------------------------------------------------------------------------
// Session cookies
// ---------------------------------------------------------------------------

/// The session cookie held for each agent, at most one per slug.
pub struct CookieJar {
    cookies: SlugMap<String>,
}

impl CookieJar {
    /// The jar as a map from slug to cookie.
    pub closed spec fn cookies(&self) -> Map<Seq<char>, Seq<char>> {
        self.cookies@
    }

    /// An empty jar.
    pub fn new() -> (r: CookieJar)
        ensures
            r@ == Map::<Seq<char>, Seq<char>>::empty(),
    {
        CookieJar { cookies: SlugMap::new() }
    }

    /// The cookie held for `slug`.
    pub fn get(&self, slug: &str) -> (r: Option<String>)
        ensures
            r is Some <==> self@.contains_key(slug@),
            r matches Some(c) ==> c@ == self@[slug@],
    {
        match self.cookies.get(slug) {
            Some(c) => Some(c.clone()),
            None => None,
        }
    }

    /// Holds `cookie` for `slug`, replacing any cookie held for it before.
    pub fn insert(&mut self, slug: &str, cookie: String)
        ensures
            final(self)@ == old(self)@.insert(slug@, cookie@),
    {
        self.cookies.insert(slug, cookie);
    }
}

impl View for CookieJar {
    type V = Map<Seq<char>, Seq<char>>;

    open spec fn view(&self) -> Map<Seq<char>, Seq<char>> {
        self.cookies()
    }
}

// ---------------------------------------------------------------------------
// The login handshake with an agent
// ---------------------------------------------------------------------------

/// The next thing to do to obtain a session cookie for an agent.
#[derive(Debug)]
pub enum AuthStep {
    /// Ask `url` whether `cookie` is still a valid session.
    Verify { url: String, cookie: String },
    /// Log in at `url`.
    Login { url: String },
    /// Finished: the cookie to use, or why there is none.
    Done(Result<String, String>),
}

/// The value of an [`AuthStep`].
pub enum AuthStepView {
    Verify { url: Seq<char>, cookie: Seq<char> },
    Login { url: Seq<char> },
    Done(Result<Seq<char>, Seq<char>>),
}

impl View for AuthStep {
    type V = AuthStepView;

    open spec fn view(&self) -> AuthStepView {
        match self {
            AuthStep::Verify { url, cookie } => AuthStepView::Verify { url: url@, cookie: cookie@ },
            AuthStep::Login { url } => AuthStepView::Login { url: url@ },
            AuthStep::Done(Ok(c)) => AuthStepView::Done(Ok(c@)),
            AuthStep::Done(Err(e)) => AuthStepView::Done(Err(e@)),
        }
    }
}

/// The step that logs in to the agent `slug`, or the failure when its port
/// is unknown.
pub open spec fn login_step(slug: Seq<char>, port: Option<u16>) -> AuthStepView {
    match port {
        Some(p) => AuthStepView::Login { url: agent_url_spec(p, "auth/login"@) },
        None => AuthStepView::Done(Err(agent_not_found_spec(slug))),
    }
}

/// The first step of the handshake with the agent `slug`: check the cookie
/// held for it, if any, else log in.
pub open spec fn auth_begin_spec(jar: Map<Seq<char>, Seq<char>>, slug: Seq<char>, port: Option<u16>) -> AuthStepView {
    if jar.contains_key(slug) {
        match port {
            Some(p) => AuthStepView::Verify { url: agent_url_spec(p, "auth/status"@), cookie: jar[slug] },
            None => AuthStepView::Done(Err(agent_not_found_spec(slug))),
        }
    } else {
        login_step(slug, port)
    }
}

/// The first step of the handshake with the agent `slug`, whose port is
/// known when its metadata could be loaded.
pub fn auth_begin(jar: &CookieJar, slug: &str, port: Option<u16>) -> (r: AuthStep)
    ensures
        r@ == auth_begin_spec(jar.view(), slug@, port),
{
    match jar.get(slug) {
        Some(cookie) => match agent_url(port, slug, "auth/status") {
            Ok(url) => AuthStep::Verify { url, cookie },
            Err(e) => AuthStep::Done(Err(e)),
        },
        None => login(slug, port),
    }
}

/// The step that logs in to the agent `slug`.
fn login(slug: &str, port: Option<u16>) -> (r: AuthStep)
    ensures
        r@ == login_step(slug@, port),
{
    match agent_url(port, slug, "auth/login") {
        Ok(url) => AuthStep::Login { url },
        Err(e) => AuthStep::Done(Err(e)),
    }
}

/// The step after asking whether the held `cookie` is valid: use it when the
/// agent says it is authenticated, else log in.
pub fn auth_after_verify(cookie: String, authenticated: bool, slug: &str, port: Option<u16>) -> (r: AuthStep)
    ensures
        authenticated ==> r@ == AuthStepView::Done(Ok(cookie@)),
        !authenticated ==> r@ == login_step(slug@, port),
{
    if authenticated {
        AuthStep::Done(Ok(cookie))
    } else {
        login(slug, port)
    }
}

/// The password the dashboard logs in to its agents with.
pub fn login_password() -> (p: String)
    ensures
        p@ == "helloworld"@,
{
    owned("helloworld")
}

/// How a login attempt ended.
#[derive(Debug)]
pub enum LoginOutcome {
    /// No HTTP client could be built; the reason.
    ClientBuildFailed(String),
    /// The request failed; the reason.
    RequestFailed(String),
    /// The agent answered, with this `set-cookie` header if it sent a readable one.
    Answered { set_cookie: Option<String> },
}

/// The session cookie a login answer carries: its `set-cookie` header, or
/// nothing when that is absent or empty.
pub open spec fn answered_cookie(set_cookie: Option<String>) -> Option<Seq<char>> {
    match set_cookie {
        Some(c) => if c@.len() > 0 {
            Some(c@)
        } else {
            None
        },
        None => None,
    }
}

/// Law: a login answer carries a session cookie exactly when its
/// `set-cookie` header is present and not empty, and the cookie is then that
/// whole header, attributes included.
pub proof fn lemma_answered_cookie(set_cookie: Option<String>)
    ensures
        forall|c: String| set_cookie == Some(c) && c@.len() > 0 ==> answered_cookie(set_cookie) == Some(c@),
        forall|c: String| set_cookie == Some(c) && c@.len() == 0 ==> answered_cookie(set_cookie) is None,
        set_cookie is None ==> answered_cookie(set_cookie) is None,
{
}

/// The end of the handshake after logging in to `slug`: the new cookie,
/// which the jar then holds for `slug`, or why there is none.
pub fn auth_after_login(jar: &mut CookieJar, slug: &str, outcome: LoginOutcome) -> (r: Result<String, String>)
    ensures
        forall|c: String|
            outcome == (LoginOutcome::Answered { set_cookie: Some(c) }) && c@.len() > 0 ==> r == Ok::<
                String,
                String,
            >(c) && final(jar)@ == old(jar)@.insert(slug@, c@),
        forall|c: String|
            outcome == (LoginOutcome::Answered { set_cookie: Some(c) }) && c@.len() == 0 ==> r is Err
                && final(jar)@ == old(jar)@,
        outcome == (LoginOutcome::Answered { set_cookie: None }) ==> r is Err && final(jar)@ == old(
            jar,
        )@,
        match outcome {
            LoginOutcome::ClientBuildFailed(e) => (r matches Err(m) && m@ == "Client build: "@ + e@)
                && final(jar).view() == old(jar).view(),
            LoginOutcome::RequestFailed(e) => (r matches Err(m) && m@ == "Login failed: "@ + e@)
                && final(jar).view() == old(jar).view(),
            LoginOutcome::Answered { set_cookie } => match answered_cookie(set_cookie) {
                Some(c) => (r matches Ok(got) && got@ == c) && final(jar).view()
                    == old(jar).view().insert(slug@, c),
                None => (r matches Err(m) && m@
                    == "Login failed - no session cookie received"@) && final(jar).view()
                    == old(jar).view(),
            },
        },
{
    match outcome {
        LoginOutcome::ClientBuildFailed(e) => Err(prefixed("Client build: ", e.as_str())),
        LoginOutcome::RequestFailed(e) => Err(prefixed("Login failed: ", e.as_str())),
        LoginOutcome::Answered { set_cookie } => {
            let cookie = match set_cookie {
                Some(c) => c,
                None => String::new(),
            };
            if cookie.as_str().is_empty() {
                Err(owned("Login failed - no session cookie received"))
            } else {
                jar.insert(slug, cookie.clone());
                Ok(cookie)
            }
        },
    }
}

/// Law: a cookie obtained by logging in to an agent is the one the next
/// handshake with that agent checks first.
pub proof fn lemma_login_cookie_is_checked_next(
    jar: Map<Seq<char>, Seq<char>>,
    slug: Seq<char>,
    cookie: Seq<char>,
    port: u16,
)
    ensures
        auth_begin_spec(jar.insert(slug, cookie), slug, Some(port)) == (AuthStepView::Verify {
            url: agent_url_spec(port, "auth/status"@),
            cookie,
        }),
{
}

/// Law: the handshake with an agent for which no cookie is held starts by
/// logging in.
pub proof fn lemma_no_cookie_means_login(
    jar: Map<Seq<char>, Seq<char>>,
    slug: Seq<char>,
    port: Option<u16>,
)
    requires
        !jar.contains_key(slug),
    ensures
        auth_begin_spec(jar, slug, port) == login_step(slug, port),
{
}

} // verus!
