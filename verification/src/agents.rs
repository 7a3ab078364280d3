//! Agents as the dashboard sees them: their metadata, how a new agent is
//! validated and built, how edits apply, and what the listing, detail,
//! dashboard and status views report.
use vstd::prelude::*;
use crate::process::{after_exit, started_state, AgentRegistry, AgentStateView, ProcessStatus};
use crate::text::{
    decimal, decimal_string, framed, join_newlines, last_n, lines_spec, lowercase_of, owned,
    pad_end, pad_end_spec, pad_start, pad_start_spec, push_str, str_eq, tail_lines, to_lowercase,
    trim, trim_spec,
};
use vstd::string::StrSliceExecFns;

verus! {

/// The stored description of one agent.
#[derive(Debug, Clone)]
pub struct AgentMeta {
    pub slug: String,
    pub display_name: String,
    pub description: String,
    pub port: u16,
    pub auto_start: bool,
    pub enabled: bool,
    pub created_at: String,
    pub updated_at: String,
}

impl AgentMeta {
    /// A copy of this metadata.
    pub fn duplicate(&self) -> (r: AgentMeta)
        ensures
            r == *self,
    {
        AgentMeta {
            slug: self.slug.clone(),
            display_name: self.display_name.clone(),
            description: self.description.clone(),
            port: self.port,
            auto_start: self.auto_start,
            enabled: self.enabled,
            created_at: self.created_at.clone(),
            updated_at: self.updated_at.clone(),
        }
    }
}

/// The envelope of every dashboard reply: `ok` with data, or not `ok` with an
/// error message.
#[derive(Debug)]
pub struct ApiResponse<T> {
    pub ok: bool,
    pub data: Option<T>,
    pub error: Option<String>,
}

impl<T> ApiResponse<T> {
    /// A successful reply carrying `data`.
    pub fn success(data: T) -> (r: ApiResponse<T>)
        ensures
            r.ok,
            r.data == Some(data),
            r.error is None,
    {
        ApiResponse { ok: true, data: Some(data), error: None }
    }

    /// A failed reply carrying the message `msg`.
    pub fn error(msg: String) -> (r: ApiResponse<T>)
        ensures
            !r.ok,
            r.data is None,
            r.error == Some(msg),
    {
        ApiResponse { ok: false, data: None, error: Some(msg) }
    }
}

/// What a client sends to create an agent.
#[derive(Debug)]
pub struct CreateAgentRequest {
    pub slug: String,
    pub display_name: String,
    pub description: String,
    pub auto_start: bool,
    pub enabled: bool,
}

/// The value a missing boolean flag of a request takes: `true`.
pub fn default_true() -> (b: bool)
    ensures
        b,
{
    true
}

/// One row of the agent listing.
#[derive(Debug)]
pub struct AgentListItem {
    pub slug: String,
    pub display_name: String,
    pub description: String,
    pub port: u16,
    pub status: ProcessStatus,
    pub enabled: bool,
    pub auto_start: bool,
}

/// One agent with its process status and process id.
#[derive(Debug)]
pub struct AgentDetail {
    pub meta: AgentMeta,
    pub status: ProcessStatus,
    pub pid: Option<u32>,
}

/// The dashboard: every agent, how many there are, how many run.
#[derive(Debug)]
pub struct DashboardData {
    pub agents: Vec<AgentListItem>,
    pub total: usize,
    pub running: usize,
    pub stopped: usize,
}

// ---------------------------------------------------------------------------
// Status of agents
// ---------------------------------------------------------------------------

/// The status reported for `slug`: what the registry holds, `Stopped` when it
/// holds nothing.
pub open spec fn registry_status(m: Map<Seq<char>, AgentStateView>, slug: Seq<char>) -> ProcessStatus {
    if m.contains_key(slug) {
        m[slug].status
    } else {
        ProcessStatus::Stopped
    }
}

/// The process id reported for `slug`.
pub open spec fn registry_pid(m: Map<Seq<char>, AgentStateView>, slug: Seq<char>) -> Option<u32> {
    if m.contains_key(slug) {
        m[slug].pid
    } else {
        None
    }
}

/// Whether the dashboard counts `s` as running: running or starting.
pub open spec fn is_active(s: ProcessStatus) -> bool {
    s == ProcessStatus::Running || s == ProcessStatus::Starting
}

/// How many of `agents` the registry `m` shows as running or starting.
pub open spec fn count_active(agents: Seq<AgentMeta>, m: Map<Seq<char>, AgentStateView>) -> nat
    decreases agents.len(),
{
    if agents.len() == 0 {
        0
    } else {
        count_active(agents.drop_last(), m) + if is_active(registry_status(m, agents.last().slug@)) {
            1nat
        } else {
            0nat
        }
    }
}

/// How many of `agents` the registry `m` shows as running.
pub open spec fn count_running(agents: Seq<AgentMeta>, m: Map<Seq<char>, AgentStateView>) -> nat
    decreases agents.len(),
{
    if agents.len() == 0 {
        0
    } else {
        count_running(agents.drop_last(), m) + if registry_status(m, agents.last().slug@)
            == ProcessStatus::Running {
            1nat
        } else {
            0nat
        }
    }
}

/// Law: the status report never counts more running agents than the
/// dashboard does, since the dashboard also counts starting ones.
pub proof fn lemma_running_at_most_active(agents: Seq<AgentMeta>, m: Map<Seq<char>, AgentStateView>)
    ensures
        count_running(agents, m) <= count_active(agents, m),
        count_active(agents, m) <= agents.len(),
    decreases agents.len(),
{
    if agents.len() > 0 {
        lemma_running_at_most_active(agents.drop_last(), m);
    }
}

/// Law: an agent whose process ended in failure after it was started is
/// listed, and shown on the dashboard, as `Crashed`.
pub proof fn lemma_crashed_agent_listed_crashed(
    m: Map<Seq<char>, AgentStateView>,
    slug: Seq<char>,
    port: u16,
    pid: u32,
)
    ensures
        registry_status(
            after_exit(m.insert(slug, started_state(slug, port, Some(pid))), slug, pid, false),
            slug,
        ) == ProcessStatus::Crashed,
{
}

/// The listing row for `meta` with status `status`.
pub open spec fn list_item_spec(meta: AgentMeta, status: ProcessStatus) -> AgentListItem {
    AgentListItem {
        slug: meta.slug,
        display_name: meta.display_name,
        description: meta.description,
        port: meta.port,
        status,
        enabled: meta.enabled,
        auto_start: meta.auto_start,
    }
}

/// The status the registry reports for `slug`.
pub fn status_of(registry: &AgentRegistry, slug: &str) -> (s: ProcessStatus)
    ensures
        s == registry_status(registry.view(), slug@),
{
    match registry.get_state(slug) {
        Some(st) => st.status,
        None => ProcessStatus::Stopped,
    }
}

/// Whether `row` shows `meta` with status `status`: every field of the row
/// is the same field of the metadata.
pub open spec fn row_copies(row: AgentListItem, meta: AgentMeta, status: ProcessStatus) -> bool {
    &&& row.slug == meta.slug
    &&& row.display_name == meta.display_name
    &&& row.description == meta.description
    &&& row.port == meta.port
    &&& row.status == status
    &&& row.enabled == meta.enabled
    &&& row.auto_start == meta.auto_start
}

/// Law: a listing row copies every field of its agent's metadata and shows
/// the given status.
pub proof fn lemma_row_copies_meta(meta: AgentMeta, status: ProcessStatus)
    ensures
        list_item_spec(meta, status).slug == meta.slug,
        list_item_spec(meta, status).display_name == meta.display_name,
        list_item_spec(meta, status).description == meta.description,
        list_item_spec(meta, status).port == meta.port,
        list_item_spec(meta, status).status == status,
        list_item_spec(meta, status).enabled == meta.enabled,
        list_item_spec(meta, status).auto_start == meta.auto_start,
{
}

/// The listing row for `meta` with status `status`.
pub fn list_item(meta: &AgentMeta, status: ProcessStatus) -> (r: AgentListItem)
    ensures
        r == list_item_spec(*meta, status),
        row_copies(r, *meta, status),
{
    AgentListItem {
        slug: meta.slug.clone(),
        display_name: meta.display_name.clone(),
        description: meta.description.clone(),
        port: meta.port,
        status,
        enabled: meta.enabled,
        auto_start: meta.auto_start,
    }
}

/// The agent listing: one row per agent, in the order given, each with the
/// status the registry reports.
pub fn agent_list(agents: &Vec<AgentMeta>, registry: &AgentRegistry) -> (r: Vec<AgentListItem>)
    ensures
        r.len() == agents.len(),
        forall|i: int|
            0 <= i < r.len() ==> #[trigger] r[i] == list_item_spec(
                agents[i],
                registry_status(registry.view(), agents[i].slug@),
            ),
        forall|i: int|
            0 <= i < r.len() ==> row_copies(
                #[trigger] r[i],
                agents[i],
                registry_status(registry.view(), agents[i].slug@),
            ),
{
    let n = agents.len();
    let mut r: Vec<AgentListItem> = Vec::new();
    let mut i: usize = 0;
    while i < n
        invariant
            n == agents.len(),
            i <= n,
            r.len() == i,
            forall|j: int|
                0 <= j < i ==> #[trigger] r[j] == list_item_spec(
                    agents[j],
                    registry_status(registry.view(), agents[j].slug@),
                ),
        decreases n - i,
    {
        let status = status_of(registry, agents[i].slug.as_str());
        r.push(list_item(&agents[i], status));
        i = i + 1;
    }
    r
}

/// The agent `slug`, described by `meta`, with the status and process id the
/// registry reports for `slug` (`Stopped` and none when it reports nothing).
pub fn agent_detail(slug: &str, meta: AgentMeta, registry: &AgentRegistry) -> (r: AgentDetail)
    ensures
        r.meta == meta,
        r.status == registry_status(registry@, slug@),
        r.pid == registry_pid(registry@, slug@),
{
    match registry.get_state(slug) {
        Some(st) => AgentDetail { meta, status: st.status, pid: st.pid },
        None => AgentDetail { meta, status: ProcessStatus::Stopped, pid: None },
    }
}

/// The dashboard: the listing of `agents`, their number, how many run or
/// start, and how many do neither.
pub fn dashboard(agents: &Vec<AgentMeta>, registry: &AgentRegistry) -> (r: DashboardData)
    ensures
        r.agents.len() == agents.len(),
        forall|i: int|
            0 <= i < r.agents.len() ==> #[trigger] r.agents[i] == list_item_spec(
                agents[i],
                registry_status(registry.view(), agents[i].slug@),
            ),
        forall|i: int|
            0 <= i < r.agents.len() ==> row_copies(
                #[trigger] r.agents[i],
                agents[i],
                registry_status(registry.view(), agents[i].slug@),
            ),
        r.total == agents.len(),
        r.running == count_active(agents@, registry.view()),
        r.stopped == agents.len() - count_active(agents@, registry.view()),
        r.total == r.running + r.stopped,
{
    let n = agents.len();
    let mut items: Vec<AgentListItem> = Vec::new();
    let mut running: usize = 0;
    let mut stopped: usize = 0;
    let mut i: usize = 0;
    while i < n
        invariant
            n == agents.len(),
            i <= n,
            items.len() == i,
            forall|j: int|
                0 <= j < i ==> #[trigger] items[j] == list_item_spec(
                    agents[j],
                    registry_status(registry.view(), agents[j].slug@),
                ),
            running == count_active(agents@.take(i as int), registry.view()),
            running + stopped == i,
        decreases n - i,
    {
        let status = status_of(registry, agents[i].slug.as_str());
        proof {
            assert(agents@.take(i + 1).drop_last() == agents@.take(i as int));
        }
        match status {
            ProcessStatus::Running | ProcessStatus::Starting => running = running + 1,
            _ => stopped = stopped + 1,
        }
        items.push(list_item(&agents[i], status));
        i = i + 1;
    }
    assert(agents@.take(n as int) == agents@);
    DashboardData { total: items.len(), running, stopped, agents: items }
}

/// How many of `agents` the registry shows as running (starting ones are
/// not counted).
pub fn running_count(agents: &Vec<AgentMeta>, registry: &AgentRegistry) -> (r: usize)
    ensures
        r == count_running(agents@, registry.view()),
{
    let n = agents.len();
    let mut running: usize = 0;
    let mut i: usize = 0;
    while i < n
        invariant
            n == agents.len(),
            i <= n,
            running <= i,
            running == count_running(agents@.take(i as int), registry.view()),
        decreases n - i,
    {
        proof {
            assert(agents@.take(i + 1).drop_last() == agents@.take(i as int));
        }
        if let Some(s) = registry.get_state(agents[i].slug.as_str()) {
            if s.status == ProcessStatus::Running {
                running = running + 1;
            }
        }
        i = i + 1;
    }
    assert(agents@.take(n as int) == agents@);
    running
}

// ---------------------------------------------------------------------------
// Creating agents
// ---------------------------------------------------------------------------

/// Characters a slug may hold: lower-case ASCII letters, digits and `-`.
pub open spec fn is_slug_char(c: char) -> bool {
    ('a' <= c && c <= 'z') || ('0' <= c && c <= '9') || c == '-'
}

/// Law: the slug characters are exactly the 26 letters `a`–`z` (code points
/// 97–122), the ten digits `0`–`9` (48–57) and `-` (45).
pub proof fn lemma_slug_alphabet(c: char)
    ensures
        is_slug_char(c) <==> (97 <= c as int <= 122 || 48 <= c as int <= 57 || c as int == 45),
{
}

/// Law: a slug is valid exactly when it has 1 to 32 characters, each with
/// code point 97–122, 48–57 or 45.
pub proof fn lemma_valid_slug_by_code_points(s: Seq<char>)
    ensures
        valid_slug(s) <==> (1 <= s.len() <= 32 && forall|i: int|
            #![trigger s[i]]
            0 <= i < s.len() ==> (97 <= s[i] as int <= 122 || 48 <= s[i] as int <= 57 || s[i] as int
                == 45)),
{
    assert forall|i: int| 0 <= i < s.len() implies (is_slug_char(#[trigger] s[i]) <==> (97
        <= s[i] as int <= 122 || 48 <= s[i] as int <= 57 || s[i] as int == 45)) by {
        lemma_slug_alphabet(s[i]);
    }
}

/// A slug names an agent: one to 32 characters, each a lower-case ASCII
/// letter, a digit or `-`.
pub open spec fn valid_slug(s: Seq<char>) -> bool {
    &&& 0 < s.len() <= 32
    &&& forall|i: int| 0 <= i < s.len() ==> is_slug_char(#[trigger] s[i])
}

/// The slug a request asks for, lower-cased and with surrounding white space
/// removed.
pub open spec fn normalized_slug(raw: Seq<char>) -> Seq<char> {
    trim_spec(lowercase_of(raw))
}

/// Whether some agent of `agents` has the slug `slug`.
pub open spec fn slug_taken(agents: Seq<AgentMeta>, slug: Seq<char>) -> bool {
    exists|i: int| 0 <= i < agents.len() && #[trigger] agents[i].slug@ == slug
}

/// Whether `slug` is taken by one of `existing`, when the existing agents
/// could be listed.
pub open spec fn slug_taken_in(existing: Option<&Vec<AgentMeta>>, slug: Seq<char>) -> bool {
    match existing {
        Some(a) => slug_taken(a@, slug),
        None => false,
    }
}

/// Why a new agent is refused.
#[derive(Debug)]
pub enum CreateRefusal {
    InvalidSlug,
    AlreadyExists { slug: String },
}

impl CreateRefusal {
    /// The message the dashboard shows for this refusal.
    pub fn message(&self) -> (m: String)
        ensures
            match self {
                CreateRefusal::InvalidSlug => m@
                    == "Invalid slug: use lowercase letters, numbers, and hyphens (max 32 chars)"@,
                CreateRefusal::AlreadyExists { slug } => m@ == "Agent '"@ + slug@
                    + "' already exists"@,
            },
    {
        match self {
            CreateRefusal::InvalidSlug => owned(
                "Invalid slug: use lowercase letters, numbers, and hyphens (max 32 chars)",
            ),
            CreateRefusal::AlreadyExists { slug } => framed("Agent '", slug.as_str(), "' already exists"),
        }
    }
}

/// Whether `slug` is a valid slug.
pub fn is_valid_slug(slug: &str) -> (b: bool)
    ensures
        b == valid_slug(slug@),
{
    let n = slug.unicode_len();
    if n == 0 || n > 32 {
        return false;
    }
    let mut i: usize = 0;
    while i < n
        invariant
            n == slug@.len(),
            i <= n,
            forall|j: int| 0 <= j < i ==> is_slug_char(#[trigger] slug@[j]),
        decreases n - i,
    {
        let c = slug.get_char(i);
        if !(('a' <= c && c <= 'z') || ('0' <= c && c <= '9') || c == '-') {
            return false;
        }
        i = i + 1;
    }
    true
}

/// The slug a request asks for, lower-cased and trimmed.
pub fn normalize_slug(raw: &str) -> (s: String)
    ensures
        s@ == normalized_slug(raw@),
{
    let lower = to_lowercase(raw);
    owned(trim(lower.as_str()))
}

/// Whether `slug` may name a new agent: it must be valid, and, when the
/// existing agents could be listed, not taken by one of them.
pub fn check_new_slug(slug: &str, existing: Option<&Vec<AgentMeta>>) -> (r: Result<(), CreateRefusal>)
    ensures
        !valid_slug(slug@) ==> r matches Err(CreateRefusal::InvalidSlug),
        valid_slug(slug@) && slug_taken_in(existing, slug@) ==> (r matches Err(
            CreateRefusal::AlreadyExists { slug: s },
        ) && s@ == slug@),
        valid_slug(slug@) && !slug_taken_in(existing, slug@) ==> r is Ok,
{
    if !is_valid_slug(slug) {
        return Err(CreateRefusal::InvalidSlug);
    }
    if let Some(agents) = existing {
        let n = agents.len();
        let mut i: usize = 0;
        while i < n
            invariant
                n == agents.len(),
                i <= n,
                valid_slug(slug@),
                existing == Some(agents),
                forall|j: int| 0 <= j < i ==> agents[j].slug@ != slug@,
            decreases n - i,
        {
            if str_eq(agents[i].slug.as_str(), slug) {
                return Err(CreateRefusal::AlreadyExists { slug: owned(slug) });
            }
            i = i + 1;
        }
    }
    Ok(())
}

/// The slug for a new agent asked for by `req`: normalized, then checked
/// against `existing` (the agents that could be listed, if any).
pub fn plan_new_agent(req: &CreateAgentRequest, existing: Option<&Vec<AgentMeta>>) -> (r: Result<String, CreateRefusal>)
    ensures
        !valid_slug(normalized_slug(req.slug@)) ==> r matches Err(CreateRefusal::InvalidSlug),
        valid_slug(normalized_slug(req.slug@)) && slug_taken_in(existing, normalized_slug(req.slug@))
            ==> (r matches Err(CreateRefusal::AlreadyExists { slug: s }) && s@ == normalized_slug(
            req.slug@,
        )),
        valid_slug(normalized_slug(req.slug@)) && !slug_taken_in(existing, normalized_slug(req.slug@))
            ==> (r matches Ok(s) && s@ == normalized_slug(req.slug@)),
        r matches Ok(s) ==> valid_slug(s@) && !slug_taken_in(existing, s@),
{
    let slug = normalize_slug(req.slug.as_str());
    match check_new_slug(slug.as_str(), existing) {
        Ok(()) => Ok(slug),
        Err(e) => Err(e),
    }
}

/// The metadata of a new agent named `slug` on `port`, created at `now`.
pub fn new_agent_meta(slug: String, req: CreateAgentRequest, port: u16, now: String) -> (m: AgentMeta)
    ensures
        m == (AgentMeta {
            slug,
            display_name: req.display_name,
            description: req.description,
            port,
            auto_start: req.auto_start,
            enabled: req.enabled,
            created_at: now,
            updated_at: now,
        }),
{
    AgentMeta {
        slug,
        display_name: req.display_name,
        description: req.description,
        port,
        auto_start: req.auto_start,
        enabled: req.enabled,
        created_at: now.clone(),
        updated_at: now,
    }
}

/// The configuration a new agent starts from: a comment naming it, and a
/// web port that is set when the agent starts.
pub fn generate_default_config(slug: &str) -> (s: String)
    ensures
        s@ == "# microclaw configuration for agent '"@ + slug@ + "'\nweb_port: 0\n"@,
{
    framed("# microclaw configuration for agent '", slug, "'\nweb_port: 0\n")
}

/// The first port handed to an agent.
pub const FIRST_AGENT_PORT: u16 = 10961;

/// The port for a new agent: one past the highest port of `used`, and never
/// below the first agent port; nothing when the highest used port is the
/// last one.
pub open spec fn next_port_spec(used: Seq<u16>) -> Option<u16>
    decreases used.len(),
{
    if used.len() == 0 {
        Some(FIRST_AGENT_PORT)
    } else {
        match next_port_spec(used.drop_last()) {
            None => None,
            Some(p) => if used.last() == 65535 {
                None
            } else if used.last() + 1 > p {
                Some((used.last() + 1) as u16)
            } else {
                Some(p)
            },
        }
    }
}

/// The port for a new agent, given the ports of the existing ones.
pub fn next_port(used: &Vec<u16>) -> (r: Option<u16>)
    ensures
        r == next_port_spec(used@),
{
    let n = used.len();
    let mut best: u16 = FIRST_AGENT_PORT;
    let mut i: usize = 0;
    while i < n
        invariant
            n == used.len(),
            i <= n,
            next_port_spec(used@.take(i as int)) == Some(best),
        decreases n - i,
    {
        assert(used@.take(i + 1).drop_last() == used@.take(i as int));
        let p = used[i];
        if p == 65535 {
            proof {
                lemma_next_port_exhausted(used@, i as int + 1);
            }
            return None;
        }
        if p + 1 > best {
            best = p + 1;
        }
        i = i + 1;
    }
    assert(used@.take(n as int) == used@);
    Some(best)
}

/// Law: the port chosen for a new agent is at least the first agent port
/// and above every port already in use, so it collides with none of them.
pub proof fn lemma_next_port_is_fresh(used: Seq<u16>)
    ensures
        next_port_spec(used) matches Some(p) ==> p >= FIRST_AGENT_PORT && forall|i: int|
            0 <= i < used.len() ==> #[trigger] used[i] < p,
    decreases used.len(),
{
    if used.len() > 0 {
        lemma_next_port_is_fresh(used.drop_last());
        if let Some(p) = next_port_spec(used) {
            assert forall|i: int| 0 <= i < used.len() implies #[trigger] used[i] < p by {
                if i < used.len() - 1 {
                    assert(used[i] == used.drop_last()[i]);
                }
            }
        }
    }
}

/// Once a prefix of `used` leaves no port, `used` leaves none.
proof fn lemma_next_port_exhausted(used: Seq<u16>, k: int)
    requires
        0 <= k <= used.len(),
        next_port_spec(used.take(k)) is None,
    ensures
        next_port_spec(used) is None,
    decreases used.len() - k,
{
    if k < used.len() {
        assert(used.take(k + 1).drop_last() == used.take(k));
        lemma_next_port_exhausted(used, k + 1);
    } else {
        assert(used.take(k) == used);
    }
}

// ---------------------------------------------------------------------------
// Editing agents
// ---------------------------------------------------------------------------

/// The fields an edit may change; absent ones stay as they are.
#[derive(Debug)]
pub struct AgentUpdate {
    pub display_name: Option<String>,
    pub description: Option<String>,
    pub port: Option<u64>,
    pub auto_start: Option<bool>,
    pub enabled: Option<bool>,
}

/// `meta` after the edit `upd` made at `now`. A port is kept modulo 65536,
/// as a cast to a 16-bit port keeps it.
pub open spec fn updated_meta(meta: AgentMeta, upd: AgentUpdate, now: String) -> AgentMeta {
    AgentMeta {
        slug: meta.slug,
        display_name: match upd.display_name {
            Some(v) => v,
            None => meta.display_name,
        },
        description: match upd.description {
            Some(v) => v,
            None => meta.description,
        },
        port: match upd.port {
            Some(p) => (p % 65536) as u16,
            None => meta.port,
        },
        auto_start: match upd.auto_start {
            Some(v) => v,
            None => meta.auto_start,
        },
        enabled: match upd.enabled {
            Some(v) => v,
            None => meta.enabled,
        },
        created_at: meta.created_at,
        updated_at: now,
    }
}

/// Law: an edit never renames an agent nor changes when it was created.
pub proof fn lemma_update_keeps_identity(meta: AgentMeta, upd: AgentUpdate, now: String)
    ensures
        updated_meta(meta, upd, now).slug == meta.slug,
        updated_meta(meta, upd, now).created_at == meta.created_at,
        updated_meta(meta, upd, now).updated_at == now,
{
}

/// Law: an edit sets exactly the fields it carries, each to the value it
/// carries (a port kept modulo 65536), and keeps every other field.
pub proof fn lemma_update_sets_carried_fields(meta: AgentMeta, upd: AgentUpdate, now: String)
    ensures
        ({
            let r = updated_meta(meta, upd, now);
            &&& forall|v: String| upd.display_name == Some(v) ==> r.display_name == v
            &&& upd.display_name is None ==> r.display_name == meta.display_name
            &&& forall|v: String| upd.description == Some(v) ==> r.description == v
            &&& upd.description is None ==> r.description == meta.description
            &&& forall|p: u64| upd.port == Some(p) ==> r.port as int == p as int % 65536
            &&& upd.port is None ==> r.port == meta.port
            &&& forall|v: bool| upd.auto_start == Some(v) ==> r.auto_start == v
            &&& upd.auto_start is None ==> r.auto_start == meta.auto_start
            &&& forall|v: bool| upd.enabled == Some(v) ==> r.enabled == v
            &&& upd.enabled is None ==> r.enabled == meta.enabled
            &&& r.slug == meta.slug
            &&& r.created_at == meta.created_at
            &&& r.updated_at == now
        }),
{
}

/// Applies the edit `upd`, made at `now`, to `meta`.
pub fn apply_update(meta: AgentMeta, upd: AgentUpdate, now: String) -> (r: AgentMeta)
    ensures
        r == updated_meta(meta, upd, now),
        r.slug == meta.slug,
        r.display_name == (if upd.display_name is Some { upd.display_name->0 } else { meta.display_name }),
        r.description == (if upd.description is Some { upd.description->0 } else { meta.description }),
        upd.port is Some ==> r.port as int == upd.port->0 as int % 65536,
        upd.port is None ==> r.port == meta.port,
        r.auto_start == (if upd.auto_start is Some { upd.auto_start->0 } else { meta.auto_start }),
        r.enabled == (if upd.enabled is Some { upd.enabled->0 } else { meta.enabled }),
        r.created_at == meta.created_at,
        r.updated_at == now,
{
    let mut m = meta;
    match upd.display_name {
        Some(v) => m.display_name = v,
        None => {},
    }
    match upd.description {
        Some(v) => m.description = v,
        None => {},
    }
    match upd.port {
        Some(p) => m.port = (p % 65536) as u16,
        None => {},
    }
    match upd.auto_start {
        Some(v) => m.auto_start = v,
        None => {},
    }
    match upd.enabled {
        Some(v) => m.enabled = v,
        None => {},
    }
    m.updated_at = now;
    m
}

/// `meta` with auto-start switched on, and whether that changed anything.
pub fn enable_auto_start(meta: AgentMeta) -> (r: (AgentMeta, bool))
    ensures
        r.1 == !meta.auto_start,
        r.0 == (AgentMeta { auto_start: true, ..meta }),
{
    let changed = !meta.auto_start;
    let mut m = meta;
    m.auto_start = true;
    (m, changed)
}

// ---------------------------------------------------------------------------
// Replies and messages
// ---------------------------------------------------------------------------

/// A lifecycle request that the dashboard hands to the background.
#[derive(Debug, Clone, Copy, PartialEq, Eq, Structural)]
pub enum LifecycleAction {
    Start,
    Stop,
    Restart,
}

/// The state the dashboard reports an agent to be in after it accepted
/// `action`.
pub fn lifecycle_status(action: LifecycleAction) -> (s: String)
    ensures
        s@ == match action {
            LifecycleAction::Start => "starting"@,
            LifecycleAction::Stop => "stopping"@,
            LifecycleAction::Restart => "restarting"@,
        },
{
    match action {
        LifecycleAction::Start => owned("starting"),
        LifecycleAction::Stop => owned("stopping"),
        LifecycleAction::Restart => owned("restarting"),
    }
}

/// `Agent '<slug>' deleting`.
pub fn deleting_message(slug: &str) -> (m: String)
    ensures
        m@ == "Agent '"@ + slug@ + "' deleting"@,
{
    framed("Agent '", slug, "' deleting")
}

/// `Config for '<slug>' saved`.
pub fn config_saved_message(slug: &str) -> (m: String)
    ensures
        m@ == "Config for '"@ + slug@ + "' saved"@,
{
    framed("Config for '", slug, "' saved")
}

/// `Agent not found`: the reply about an agent whose metadata is missing.
pub fn agent_not_found_message() -> (m: String)
    ensures
        m@ == "Agent not found"@,
{
    owned("Agent not found")
}

/// `No logs found`: the reply when an agent's log cannot be read.
pub fn no_logs_message() -> (m: String)
    ensures
        m@ == "No logs found"@,
{
    owned("No logs found")
}

/// The number of log lines the dashboard shows.
pub const LOG_TAIL_LINES: usize = 200;

/// The end of an agent's log as the dashboard shows it: its last 200 lines
/// joined with `'\n'`.
pub fn log_tail(content: &str) -> (s: String)
    ensures
        s@ == join_newlines(last_n(lines_spec(content@), LOG_TAIL_LINES as nat)),
{
    tail_lines(content, LOG_TAIL_LINES)
}

/// The address the status report gives for the dashboard.
pub fn dashboard_url() -> (s: String)
    ensures
        s@ == "http://127.0.0.1:9090"@,
{
    owned("http://127.0.0.1:9090")
}

/// One line of the command-line agent list: slug padded to 20 characters,
/// port right-aligned in 5, whether the agent is enabled, and its name.
pub open spec fn status_line_spec(meta: AgentMeta) -> Seq<char> {
    "  "@ + pad_end_spec(meta.slug@, 20) + " port "@ + pad_start_spec(decimal(meta.port as nat), 5)
        + "  "@ + (if meta.enabled { "enabled"@ } else { "disabled"@ }) + "  "@
        + meta.display_name@
}

/// The command-line list line of `meta`.
pub fn status_line(meta: &AgentMeta) -> (s: String)
    ensures
        s@ == status_line_spec(*meta),
{
    let mut s = owned("  ");
    let slug = pad_end(meta.slug.as_str(), 20);
    push_str(&mut s, slug.as_str());
    push_str(&mut s, " port ");
    let digits = decimal_string(meta.port as u64);
    let port = pad_start(digits.as_str(), 5);
    push_str(&mut s, port.as_str());
    push_str(&mut s, "  ");
    if meta.enabled {
        push_str(&mut s, "enabled");
    } else {
        push_str(&mut s, "disabled");
    }
    push_str(&mut s, "  ");
    push_str(&mut s, meta.display_name.as_str());
    s
}

} // verus!
