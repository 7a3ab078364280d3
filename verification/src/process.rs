//! Agent processes: their status, the registry of started agents, the checks
//! made before a start, and rewriting of an agent's configuration so that it
//! listens on the port assigned to it.
use vstd::prelude::*;
use crate::agents::AgentMeta;
use crate::slug_map::SlugMap;
use crate::text::{
    decimal, decimal_string, first_match_from, is_white_space, join_lines, join_newlines,
    lemma_decimal_digits, lemma_first_match_from, lemma_lines_no_newline, lemma_lines_of_join,
    lemma_lines_no_cr, lemma_split_newlines_last, lemma_trim_start_drop_last, lines_spec, no_carriage_return, split_newlines, no_newline, push_str, split_lines, starts_with,
    framed, owned, prefixed, strip_cr, trim_start, trim_start_spec, views,
};

verus! {

/// Lifecycle state of one managed agent process.
#[derive(Debug, Clone, Copy, PartialEq, Eq, Structural)]
pub enum ProcessStatus {
    Running,
    Stopped,
    Crashed,
    Starting,
}

// ---------------------------------------------------------------------------
// Configuration rewriting
// ---------------------------------------------------------------------------

/// Whether a configuration line sets the web port: after leading white
/// space it begins with `web_port:`.
pub open spec fn is_port_line(l: Seq<char>) -> bool {
    "web_port:"@.is_prefix_of(trim_start_spec(l))
}

/// The configuration line that sets the web port to `port`.
pub open spec fn port_line(port: u16) -> Seq<char> {
    "web_port: "@ + decimal(port as nat)
}

/// Index of the first line of `ls` that sets the web port.
pub open spec fn first_port_line(ls: Seq<Seq<char>>) -> Option<int> {
    first_match_from(ls, |l: Seq<char>| is_port_line(l), 0)
}

/// The lines of a configuration after injecting `port`: the first line that
/// sets the web port is replaced, or, when there is none, such a line is
/// appended.
pub open spec fn injected_lines(ls: Seq<Seq<char>>, port: u16) -> Seq<Seq<char>> {
    match first_port_line(ls) {
        Some(i) => ls.update(i, port_line(port)),
        None => ls.push(port_line(port)),
    }
}

/// The configuration text after injecting `port`.
pub open spec fn inject_port_spec(config: Seq<char>, port: u16) -> Seq<char> {
    join_newlines(injected_lines(lines_spec(config), port))
}

/// The line written by an injection sets the web port, holds no `'\n'` and
/// does not end in `'\r'`.
proof fn lemma_port_line_shape(port: u16)
    ensures
        is_port_line(port_line(port)),
        no_newline(port_line(port)),
        port_line(port).len() > 0,
        port_line(port).last() != '\r',
{
    reveal_strlit("web_port: ");
    reveal_strlit("web_port:");
    let d = decimal(port as nat);
    lemma_decimal_digits(port as nat);
    let l = port_line(port);
    assert(l.last() == d.last());
    assert(!is_white_space(l[0]));
    assert(trim_start_spec(l) == l);
    assert("web_port:"@ =~= l.subrange(0, 9));
    assert forall|i: int| 0 <= i < l.len() implies l[i] != '\n' by {
        if i >= 10 {
            assert(l[i] == d[i - 10]);
        }
    }
}

/// A line that does not set the web port still does not once a trailing
/// `'\r'` is removed.
proof fn lemma_strip_cr_keeps_non_port(t: Seq<char>)
    requires
        !is_port_line(t),
    ensures
        !is_port_line(strip_cr(t)),
{
    if t.len() > 0 && t.last() == '\r' {
        lemma_trim_start_drop_last(t);
        let a = trim_start_spec(t.drop_last());
        let b = trim_start_spec(t);
        let p = "web_port:"@;
        if p.is_prefix_of(a) {
            assert(p =~= b.subrange(0, p.len() as int));
        }
    }
}

/// Law: after `port` is injected into any configuration, reading its lines
/// back finds, as the first line that sets the web port, exactly
/// `web_port: <port>`.
pub proof fn lemma_inject_port_reads_back(config: Seq<char>, port: u16)
    ensures
        ({
            let ls = lines_spec(inject_port_spec(config, port));
            first_port_line(ls) matches Some(k) && ls[k] == port_line(port)
        }),
{
    let pred = |l: Seq<char>| is_port_line(l);
    let orig = lines_spec(config);
    lemma_lines_no_newline(config);
    lemma_first_match_from(orig, pred, 0);
    lemma_port_line_shape(port);
    let m = injected_lines(orig, port);
    let k: int = match first_port_line(orig) {
        Some(i) => i,
        None => orig.len() as int,
    };
    assert(0 <= k < m.len());
    assert(m[k] == port_line(port));
    assert forall|j: int| 0 <= j < m.len() implies no_newline(#[trigger] m[j]) by {
        if j != k {
            assert(m[j] == orig[j]);
        }
    }
    assert forall|j: int| 0 <= j < k implies !is_port_line(#[trigger] m[j]) by {
        assert(m[j] == orig[j]);
        assert(!pred(orig[j]));
    }
    lemma_lines_of_join(m);
    let back = lines_spec(join_newlines(m));
    assert(back.len() > k);
    assert(back[k] == port_line(port));
    assert forall|j: int| 0 <= j < k implies !pred(#[trigger] back[j]) by {
        assert(back[j] == strip_cr(m[j]));
        assert(!is_port_line(m[j]));
        lemma_strip_cr_keeps_non_port(m[j]);
    }
    lemma_first_match_from(back, pred, 0);
    assert(pred(back[k]));
    match first_match_from(back, pred, 0) {
        Some(k2) => {
            if k2 < k {
                assert(!pred(back[k2]));
            }
            if k < k2 {
                assert(!pred(back[k]));
            }
        },
        None => {
            assert(!pred(back[k]));
        },
    }
}

/// Law: injecting the same port a second time gives the lines of the first
/// result joined again; so whenever those lines join back to the first
/// result, the second injection changes nothing.
pub proof fn lemma_inject_port_twice(config: Seq<char>, port: u16)
    ensures
        inject_port_spec(inject_port_spec(config, port), port) == join_newlines(
            lines_spec(inject_port_spec(config, port)),
        ),
        join_newlines(lines_spec(inject_port_spec(config, port))) == inject_port_spec(config, port)
            ==> inject_port_spec(inject_port_spec(config, port), port) == inject_port_spec(
            config,
            port,
        ),
{
    let once = inject_port_spec(config, port);
    let ls = lines_spec(once);
    lemma_inject_port_reads_back(config, port);
    lemma_first_match_from(ls, |l: Seq<char>| is_port_line(l), 0);
    let k = first_port_line(ls)->Some_0;
    assert(ls[k] == port_line(port));
    assert(ls.update(k, port_line(port)) =~= ls);
    assert(injected_lines(ls, port) =~= ls);
}

/// Where the port line stands after an injection: where the first port line
/// stood, or at the end when there was none.
pub open spec fn injected_index(ls: Seq<Seq<char>>) -> int {
    match first_port_line(ls) {
        Some(i) => i,
        None => ls.len() as int,
    }
}

/// After an injection, the first line that sets the web port is the
/// injected one.
proof fn lemma_first_port_line_of_injected(ls: Seq<Seq<char>>, port: u16)
    ensures
        0 <= injected_index(ls) < injected_lines(ls, port).len(),
        first_port_line(injected_lines(ls, port)) == Some(injected_index(ls)),
{
    let pred = |l: Seq<char>| is_port_line(l);
    lemma_first_match_from(ls, pred, 0);
    lemma_port_line_shape(port);
    let m = injected_lines(ls, port);
    let k = injected_index(ls);
    assert forall|j: int| 0 <= j < k implies !pred(#[trigger] m[j]) by {
        assert(m[j] == ls[j]);
        assert(!pred(ls[j]));
    }
    assert(pred(m[k]));
    lemma_first_match_from(m, pred, 0);
    match first_match_from(m, pred, 0) {
        Some(k2) => {
            if k2 < k {
                assert(!pred(m[k2]));
            }
            if k < k2 {
                assert(!pred(m[k]));
            }
        },
        None => {
            assert(!pred(m[k]));
        },
    }
}

/// A configuration whose lines survive being rejoined: it holds no `'\r'`
/// and does not end in two `'\n'`.
pub open spec fn plain_config(c: Seq<char>) -> bool {
    &&& no_carriage_return(c)
    &&& !(c.len() >= 2 && c[c.len() - 1] == '\n' && c[c.len() - 2] == '\n')
}

/// The lines of an injected plain configuration read back exactly.
proof fn lemma_injected_lines_read_back(config: Seq<char>, port: u16)
    requires
        plain_config(config),
    ensures
        lines_spec(inject_port_spec(config, port)) == injected_lines(lines_spec(config), port),
{
    let ls = lines_spec(config);
    lemma_lines_no_newline(config);
    lemma_lines_no_cr(config);
    lemma_first_match_from(ls, |l: Seq<char>| is_port_line(l), 0);
    lemma_port_line_shape(port);
    reveal_strlit("web_port: ");
    lemma_decimal_digits(port as nat);
    let m = injected_lines(ls, port);
    let k = injected_index(ls);
    assert(no_carriage_return(port_line(port))) by {
        let d = decimal(port as nat);
        let l = port_line(port);
        assert forall|i: int| 0 <= i < l.len() implies l[i] != '\r' by {
            if i >= 10 {
                assert(l[i] == d[i - 10]);
            }
        }
    }
    assert forall|j: int| 0 <= j < m.len() implies no_newline(#[trigger] m[j]) && no_carriage_return(m[j]) by {
        if j != k {
            assert(m[j] == ls[j]);
        }
    }
    if m.last().len() == 0 {
        assert(k != m.len() - 1);
        assert(m.len() == ls.len());
        assert(m.last() == ls.last());
        assert(config =~= seq!['\n']);
        lemma_split_newlines_last(config);
        assert(config.drop_last() =~= Seq::<char>::empty());
        assert(split_newlines(config).len() == 2);
        assert(ls.len() == 1);
    }
    lemma_lines_of_join(m);
    let back = lines_spec(join_newlines(m));
    assert forall|j: int| 0 <= j < m.len() implies back[j] == m[j] by {
        if j < m.len() - 1 {
            assert(no_carriage_return(m[j]));
            if m[j].len() > 0 {
                assert(m[j].last() != '\r');
            }
        }
    }
    assert(back =~= m);
}

/// Law: injecting the same port into a plain configuration a second time
/// changes nothing.
pub proof fn lemma_inject_port_idempotent(config: Seq<char>, port: u16)
    requires
        plain_config(config),
    ensures
        inject_port_spec(inject_port_spec(config, port), port) == inject_port_spec(config, port),
{
    lemma_injected_lines_read_back(config, port);
    lemma_inject_port_twice(config, port);
}

/// Law: injecting one port into a plain configuration and then another
/// gives the same text as injecting only the second.
pub proof fn lemma_inject_port_last_wins(config: Seq<char>, first: u16, second: u16)
    requires
        plain_config(config),
    ensures
        inject_port_spec(inject_port_spec(config, first), second) == inject_port_spec(config, second),
{
    let ls = lines_spec(config);
    lemma_injected_lines_read_back(config, first);
    lemma_first_port_line_of_injected(ls, first);
    lemma_first_match_from(ls, |l: Seq<char>| is_port_line(l), 0);
    let m = injected_lines(ls, first);
    let k = injected_index(ls);
    assert(injected_lines(m, second) =~= injected_lines(ls, second));
}

/// Whether `line` sets the web port.
fn sets_web_port(line: &str) -> (b: bool)
    ensures
        b == is_port_line(line@),
{
    starts_with(trim_start(line), "web_port:")
}

/// Index of the first of `ls` that sets the web port.
fn find_port_line(ls: &Vec<String>) -> (r: Option<usize>)
    ensures
        r matches Some(j) ==> j < ls@.len() && first_port_line(views(ls@)) == Some(j as int),
        r is None ==> first_port_line(views(ls@)) is None,
{
    proof {
        lemma_first_match_from(views(ls@), |l: Seq<char>| is_port_line(l), 0);
    }
    let n = ls.len();
    let mut i: usize = 0;
    while i < n
        invariant
            n == ls@.len(),
            i <= n,
            first_port_line(views(ls@)) == first_match_from(
                views(ls@),
                |l: Seq<char>| is_port_line(l),
                i as int,
            ),
        decreases n - i,
    {
        if sets_web_port(ls[i].as_str()) {
            return Some(i);
        }
        i = i + 1;
    }
    None
}

/// Rewrites `config` so that it sets the web port to `port`: the first line
/// that sets it is replaced by `web_port: <port>`, or that line is appended
/// when there is none. Lines are read as `str::lines` reads them and joined
/// again with `'\n'`.
pub fn inject_port(config: &str, port: u16) -> (r: String)
    ensures
        r@ == inject_port_spec(config@, port),
{
    let mut ls = split_lines(config);
    let mut line = String::new();
    push_str(&mut line, "web_port: ");
    let digits = decimal_string(port as u64);
    push_str(&mut line, digits.as_str());
    let ghost old_ls = ls@;
    match find_port_line(&ls) {
        Some(i) => {
            ls.set(i, line);
            assert(views(ls@) == views(old_ls).update(i as int, line@));
        },
        None => {
            ls.push(line);
            assert(views(ls@) == views(old_ls).push(line@));
        },
    }
    join_lines(&ls)
}

// ---------------------------------------------------------------------------
// The registry of started agents
// ---------------------------------------------------------------------------

/// What the registry knows of one agent it has started.
#[derive(Debug, Clone)]
pub struct AgentState {
    pub slug: String,
    pub port: u16,
    pub status: ProcessStatus,
    pub pid: Option<u32>,
}

/// The value of an [`AgentState`].
pub struct AgentStateView {
    pub slug: Seq<char>,
    pub port: u16,
    pub status: ProcessStatus,
    pub pid: Option<u32>,
}

impl View for AgentState {
    type V = AgentStateView;

    open spec fn view(&self) -> AgentStateView {
        AgentStateView { slug: self.slug@, port: self.port, status: self.status, pid: self.pid }
    }
}

/// The state recorded for an agent that has just been started.
pub open spec fn started_state(slug: Seq<char>, port: u16, pid: Option<u32>) -> AgentStateView {
    AgentStateView { slug, port, status: ProcessStatus::Running, pid }
}

/// The state recorded for an agent once it has been stopped.
pub open spec fn stopped_state(s: AgentStateView) -> AgentStateView {
    AgentStateView { slug: s.slug, port: s.port, status: ProcessStatus::Stopped, pid: None }
}

/// Refusal to stop an agent that the registry has never started.
#[derive(Debug)]
pub struct NotRunning {
    pub slug: String,
}

impl NotRunning {
    /// `Agent '<slug>' not running`.
    pub fn message(&self) -> (m: String)
        ensures
            m@ == "Agent '"@ + self.slug@ + "' not running"@,
    {
        let mut m = owned("Agent '");
        push_str(&mut m, self.slug.as_str());
        push_str(&mut m, "' not running");
        m
    }
}

/// What the registry holds for one slug: everything of an [`AgentState`]
/// but the slug itself.
#[derive(Debug, Clone, Copy, PartialEq, Eq)]
pub struct ProcRecord {
    pub port: u16,
    pub status: ProcessStatus,
    pub pid: Option<u32>,
}

impl View for ProcRecord {
    type V = ProcRecord;

    open spec fn view(&self) -> ProcRecord {
        *self
    }
}

/// The state of the agent `slug` whose record is `rec`.
pub open spec fn state_of(slug: Seq<char>, rec: ProcRecord) -> AgentStateView {
    AgentStateView { slug, port: rec.port, status: rec.status, pid: rec.pid }
}

/// The state recorded for an agent whose process ended, successfully or
/// not: it is `Stopped` after a successful exit, `Crashed` otherwise, and
/// has no process any more.
pub open spec fn exited_state(s: AgentStateView, success: bool) -> AgentStateView {
    AgentStateView {
        slug: s.slug,
        port: s.port,
        status: if success {
            ProcessStatus::Stopped
        } else {
            ProcessStatus::Crashed
        },
        pid: None,
    }
}

/// The registry `m` after process `pid` of the agent `slug` ended: only when
/// `slug` is still recorded with that very process does its state change.
pub open spec fn after_exit(
    m: Map<Seq<char>, AgentStateView>,
    slug: Seq<char>,
    pid: u32,
    success: bool,
) -> Map<Seq<char>, AgentStateView> {
    if m.contains_key(slug) && m[slug].pid == Some(pid) {
        m.insert(slug, exited_state(m[slug], success))
    } else {
        m
    }
}

/// How spawning an agent's process went.
#[derive(Debug, Clone, Copy, PartialEq, Eq)]
pub enum SpawnOutcome {
    /// The process runs, with this id when the system gave one.
    Spawned(Option<u32>),
    /// The process could not be spawned.
    Failed,
}

/// The states of the agents started so far, one per slug.
pub struct AgentRegistry {
    records: SlugMap<ProcRecord>,
}

impl AgentRegistry {
    /// The registry as a map from slug to state.
    pub closed spec fn states(&self) -> Map<Seq<char>, AgentStateView> {
        Map::new(
            |k: Seq<char>| self.records@.contains_key(k),
            |k: Seq<char>| state_of(k, self.records@[k]),
        )
    }

    /// Inserting a record for `slug` inserts the matching state.
    proof fn lemma_states_after_insert(
        &self,
        before: Self,
        slug: Seq<char>,
        rec: ProcRecord,
    )
        requires
            self.records@ == before.records@.insert(slug, rec),
        ensures
            self.states() == before.states().insert(slug, state_of(slug, rec)),
    {
        assert(self.states() =~= before.states().insert(slug, state_of(slug, rec)));
    }

    /// An empty registry.
    pub fn new() -> (r: AgentRegistry)
        ensures
            r@ == Map::<Seq<char>, AgentStateView>::empty(),
    {
        let r = AgentRegistry { records: SlugMap::new() };
        assert(r.states() =~= Map::<Seq<char>, AgentStateView>::empty());
        r
    }

    /// The state of the agent `slug`, if it was ever started.
    pub fn get_state(&self, slug: &str) -> (r: Option<AgentState>)
        ensures
            r is Some <==> self@.contains_key(slug@),
            r matches Some(s) ==> s@ == self@[slug@],
    {
        match self.records.get(slug) {
            Some(rec) => Some(AgentState { slug: owned(slug), port: rec.port, status: rec.status, pid: rec.pid }),
            None => None,
        }
    }

    /// The states of all agents ever started, one per slug, in no promised
    /// order.
    pub fn all_states(&self) -> (r: Vec<AgentState>)
        ensures
            forall|k: Seq<char>|
                self@.contains_key(k) <==> exists|i: int| 0 <= i < r.len() && r[i].slug@ == k,
            forall|i: int| 0 <= i < r.len() ==> #[trigger] self@[r[i].slug@] == r[i]@,
            forall|i: int, j: int|
                0 <= i < r.len() && 0 <= j < r.len() && i != j ==> r[i].slug@ != r[j].slug@,
    {
        let entries = self.records.entries();
        let n = entries.len();
        let mut r: Vec<AgentState> = Vec::new();
        let mut i: usize = 0;
        while i < n
            invariant
                n == entries.len(),
                i <= n,
                r.len() == i,
                forall|j: int|
                    0 <= j < i ==> #[trigger] r[j]@ == state_of(entries[j].0@, *entries[j].1),
            decreases n - i,
        {
            let (slug, rec) = &entries[i];
            r.push(AgentState { slug: slug.clone(), port: rec.port, status: rec.status, pid: rec.pid });
            i = i + 1;
        }
        assert forall|k: Seq<char>|
            self@.contains_key(k) implies exists|i: int| 0 <= i < r.len() && r[i].slug@ == k by {
            let i = choose|i: int| 0 <= i < entries.len() && entries[i].0@ == k;
            assert(r[i]@ == state_of(entries[i].0@, *entries[i].1));
        }
        assert forall|k: Seq<char>|
            (exists|i: int| 0 <= i < r.len() && r[i].slug@ == k) implies self@.contains_key(k) by {
            let i = choose|i: int| 0 <= i < r.len() && r[i].slug@ == k;
            assert(r[i]@ == state_of(entries[i].0@, *entries[i].1));
            assert(self.records@.contains_key(entries[i].0@));
        }
        assert forall|i: int| 0 <= i < r.len() implies #[trigger] self@[r[i].slug@] == r[i]@ by {
            assert(r[i]@ == state_of(entries[i].0@, *entries[i].1));
            assert(self.records@.contains_key(entries[i].0@));
        }
        assert forall|i: int, j: int|
            0 <= i < r.len() && 0 <= j < r.len() && i != j implies r[i].slug@ != r[j].slug@ by {
            assert(r[i]@ == state_of(entries[i].0@, *entries[i].1));
            assert(r[j]@ == state_of(entries[j].0@, *entries[j].1));
        }
        r
    }

    /// Records that `slug` was started on `port` as process `pid`, replacing
    /// whatever was recorded for it before; returns the recorded state.
    pub fn record_started(&mut self, slug: &str, port: u16, pid: Option<u32>) -> (r: AgentState)
        ensures
            final(self)@ == old(self)@.insert(slug@, started_state(slug@, port, pid)),
            r@ == started_state(slug@, port, pid),
    {
        let ghost before = *self;
        let rec = ProcRecord { port, status: ProcessStatus::Running, pid };
        self.records.insert(slug, rec);
        proof {
            self.lemma_states_after_insert(before, slug@, rec);
        }
        AgentState { slug: owned(slug), port, status: ProcessStatus::Running, pid }
    }

    /// Records the outcome of spawning the agent `slug` on `port`: a spawned
    /// process is recorded as running; a failed spawn records nothing and is
    /// reported as `Failed to start microclaw for agent '<slug>'`.
    pub fn record_spawn(&mut self, slug: &str, port: u16, outcome: SpawnOutcome) -> (r: Result<AgentState, String>)
        ensures
            match outcome {
                SpawnOutcome::Spawned(pid) => (r matches Ok(s) && s@ == started_state(slug@, port, pid))
                    && final(self)@ == old(self)@.insert(slug@, started_state(slug@, port, pid)),
                SpawnOutcome::Failed => (r matches Err(m) && m@ == "Failed to start microclaw for agent '"@
                    + slug@ + "'"@) && final(self)@ == old(self)@,
            },
    {
        match outcome {
            SpawnOutcome::Spawned(pid) => Ok(self.record_started(slug, port, pid)),
            SpawnOutcome::Failed => Err(framed("Failed to start microclaw for agent '", slug, "'")),
        }
    }

    /// Records that `slug` was stopped: its status becomes `Stopped` and it
    /// has no process any more. Refused when `slug` was never started.
    pub fn mark_stopped(&mut self, slug: &str) -> (r: Result<AgentState, NotRunning>)
        ensures
            old(self)@.contains_key(slug@) ==> {
                &&& r matches Ok(s) && s@ == stopped_state(old(self)@[slug@])
                &&& final(self)@ == old(self)@.insert(slug@, stopped_state(old(self)@[slug@]))
            },
            !old(self)@.contains_key(slug@) ==> {
                &&& r matches Err(e) && e.slug@ == slug@
                &&& final(self)@ == old(self)@
            },
    {
        let ghost before = *self;
        let port = match self.records.get(slug) {
            Some(rec) => rec.port,
            None => {
                return Err(NotRunning { slug: owned(slug) });
            },
        };
        let rec = ProcRecord { port, status: ProcessStatus::Stopped, pid: None };
        self.records.insert(slug, rec);
        proof {
            self.lemma_states_after_insert(before, slug@, rec);
            assert(state_of(slug@, rec) == stopped_state(before@[slug@]));
        }
        Ok(AgentState { slug: owned(slug), port, status: ProcessStatus::Stopped, pid: None })
    }

    /// Records that process `pid` of the agent `slug` ended, successfully or
    /// not. When `slug` is recorded with that very process, it becomes
    /// `Stopped` after a successful exit and `Crashed` otherwise, without a
    /// process; otherwise (the agent was stopped or started anew since) the
    /// registry is left as it is.
    pub fn record_exited(&mut self, slug: &str, pid: u32, success: bool)
        ensures
            final(self)@ == after_exit(old(self)@, slug@, pid, success),
    {
        let ghost before = *self;
        let port = match self.records.get(slug) {
            Some(rec) => {
                if rec.pid != Some(pid) {
                    return;
                }
                rec.port
            },
            None => {
                return;
            },
        };
        let status = if success {
            ProcessStatus::Stopped
        } else {
            ProcessStatus::Crashed
        };
        let rec = ProcRecord { port, status, pid: None };
        self.records.insert(slug, rec);
        proof {
            self.lemma_states_after_insert(before, slug@, rec);
            assert(state_of(slug@, rec) == exited_state(before@[slug@], success));
        }
    }
}

impl View for AgentRegistry {
    type V = Map<Seq<char>, AgentStateView>;

    open spec fn view(&self) -> Map<Seq<char>, AgentStateView> {
        self.states()
    }
}

/// Law: once a started agent is stopped, the registry shows it `Stopped`,
/// without a process, on the port it was started on, and shows every other
/// agent as before.
pub proof fn lemma_stop_after_start(
    m: Map<Seq<char>, AgentStateView>,
    slug: Seq<char>,
    port: u16,
    pid: Option<u32>,
)
    ensures
        ({
            let started = m.insert(slug, started_state(slug, port, pid));
            let stopped = started.insert(slug, stopped_state(started[slug]));
            &&& started.contains_key(slug)
            &&& stopped[slug] == (AgentStateView {
                slug,
                port,
                status: ProcessStatus::Stopped,
                pid: None,
            })
            &&& forall|k: Seq<char>| k != slug ==> (#[trigger] stopped.contains_key(k) == m.contains_key(k))
            &&& forall|k: Seq<char>| k != slug && m.contains_key(k) ==> #[trigger] stopped[k] == m[k]
        }),
{
}

/// Law: restarting an agent (stopping it, then starting it again) leaves it
/// running on the port and with the process of the new start.
pub proof fn lemma_restart_runs_again(
    m: Map<Seq<char>, AgentStateView>,
    slug: Seq<char>,
    port: u16,
    pid: Option<u32>,
)
    requires
        m.contains_key(slug),
    ensures
        ({
            let stopped = m.insert(slug, stopped_state(m[slug]));
            let restarted = stopped.insert(slug, started_state(slug, port, pid));
            restarted[slug] == (AgentStateView { slug, port, status: ProcessStatus::Running, pid })
        }),
{
}

/// Law: when the process of a started agent ends in failure, the registry
/// shows the agent `Crashed`, without a process, on the port it was started
/// on; when it ends successfully, `Stopped`.
pub proof fn lemma_exit_after_start(
    m: Map<Seq<char>, AgentStateView>,
    slug: Seq<char>,
    port: u16,
    pid: u32,
    success: bool,
)
    ensures
        ({
            let started = m.insert(slug, started_state(slug, port, Some(pid)));
            let ended = after_exit(started, slug, pid, success);
            &&& ended.contains_key(slug)
            &&& ended[slug] == (AgentStateView {
                slug,
                port,
                status: if success {
                    ProcessStatus::Stopped
                } else {
                    ProcessStatus::Crashed
                },
                pid: None,
            })
        }),
{
}

/// Law: the end of a process the registry no longer records for the agent
/// (it was stopped, or started again as another process) changes nothing.
pub proof fn lemma_stale_exit_ignored(
    m: Map<Seq<char>, AgentStateView>,
    slug: Seq<char>,
    pid: u32,
    success: bool,
)
    requires
        !(m.contains_key(slug) && m[slug].pid == Some(pid)),
    ensures
        after_exit(m, slug, pid, success) == m,
{
}

// ---------------------------------------------------------------------------
// Starting agents
// ---------------------------------------------------------------------------

/// Why an agent is not started.
#[derive(Debug)]
pub enum StartRefusal {
    Disabled { slug: String },
    AutoStartDisabled { slug: String },
}

impl StartRefusal {
    /// The message reported for this refusal.
    pub fn message(&self) -> (m: String)
        ensures
            match self {
                StartRefusal::Disabled { slug } => m@ == "Agent '"@ + slug@ + "' is disabled"@,
                StartRefusal::AutoStartDisabled { slug } => m@ == "Agent '"@ + slug@
                    + "' has auto_start disabled \u{2014} enable it in the dashboard first"@,
            },
    {
        match self {
            StartRefusal::Disabled { slug } => framed("Agent '", slug.as_str(), "' is disabled"),
            StartRefusal::AutoStartDisabled { slug } => framed(
                "Agent '",
                slug.as_str(),
                "' has auto_start disabled \u{2014} enable it in the dashboard first",
            ),
        }
    }
}

/// Whether the agent `slug` described by `meta` may be started: only when
/// it is enabled and set to start automatically.
pub fn check_startable(slug: &str, meta: &AgentMeta) -> (r: Result<(), StartRefusal>)
    ensures
        !meta.enabled ==> (r matches Err(StartRefusal::Disabled { slug: s }) && s@ == slug@),
        meta.enabled && !meta.auto_start ==> (r matches Err(
            StartRefusal::AutoStartDisabled { slug: s },
        ) && s@ == slug@),
        meta.enabled && meta.auto_start ==> r is Ok,
{
    if !meta.enabled {
        return Err(StartRefusal::Disabled { slug: owned(slug) });
    }
    if !meta.auto_start {
        return Err(StartRefusal::AutoStartDisabled { slug: owned(slug) });
    }
    Ok(())
}

/// Where the agent binary is looked for, in order, given the home directory.
pub open spec fn binary_candidates_spec(home: Seq<char>) -> Seq<Seq<char>> {
    seq![
        "/usr/local/bin/microclaw"@,
        home + "/.local/bin/microclaw"@,
        home + "/.cargo/bin/microclaw"@,
        "./microclaw"@,
    ]
}

/// The places where the agent binary is looked for, in order.
pub fn binary_candidates(home: &str) -> (r: Vec<String>)
    ensures
        views(r@) == binary_candidates_spec(home@),
{
    let mut r: Vec<String> = Vec::new();
    r.push(owned("/usr/local/bin/microclaw"));
    r.push(prefixed(home, "/.local/bin/microclaw"));
    r.push(prefixed(home, "/.cargo/bin/microclaw"));
    r.push(owned("./microclaw"));
    proof {
        assert(views(r@) =~= binary_candidates_spec(home@));
    }
    r
}

/// The first of `candidates` whose entry in `exists` is true.
pub fn first_existing(candidates: &Vec<String>, exists: &Vec<bool>) -> (r: Option<String>)
    requires
        candidates.len() == exists.len(),
    ensures
        match first_match_from(exists@, |b: bool| b, 0) {
            Some(i) => r matches Some(s) && s@ == candidates[i]@,
            None => r is None,
        },
{
    let n = candidates.len();
    let mut i: usize = 0;
    while i < n
        invariant
            n == candidates.len(),
            n == exists.len(),
            i <= n,
            forall|j: int| 0 <= j < i ==> !exists[j],
        decreases n - i,
    {
        if exists[i] {
            let found = candidates[i].clone();
            proof {
                lemma_first_match_from(exists@, |b: bool| b, 0);
                match first_match_from(exists@, |b: bool| b, 0) {
                    Some(k) => {
                        if k < i {
                            assert(!exists[k as int]);
                        }
                        if i < k {
                            assert(exists[i as int]);
                        }
                    },
                    None => {
                        assert(exists@[i as int]);
                    },
                }
            }
            return Some(found);
        }
        i = i + 1;
    }
    proof {
        lemma_first_match_from(exists@, |b: bool| b, 0);
    }
    None
}

/// The message reported when the agent binary is nowhere to be found.
pub fn binary_not_found_message() -> (m: String)
    ensures
        m@ == "microclaw binary not found. Install it from https://github.com/HaraldeRoessler/ownify-microclaw"@,
{
    owned("microclaw binary not found. Install it from https://github.com/HaraldeRoessler/ownify-microclaw")
}

} // verus!
