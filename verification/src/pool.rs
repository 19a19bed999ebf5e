//! The pool of browser sessions.
use vstd::prelude::*;
use dashmap::DashMap;
use crate::browser;
use crate::browser::BrowserError;
use crate::browser::ChromeLaunchOptions;
use crate::browser::LaunchedBrowser;
use crate::browser::ShutdownKind;
use crate::config::AppConfig;
use crate::id;
use crate::metrics::PoolMetrics;
use crate::metrics::SessionMetric;
use crate::span;
use crate::span::Now;
use crate::span::Span;
use crate::span::WallClock;
use crate::stealth::StealthProfile;
use crate::text;

verus! {

/// What a session is doing.
#[derive(Clone, Copy, Debug, PartialEq, Eq, Structural)]
pub enum SessionState {
    Launching,
    Ready,
    InUse,
    Draining,
    Killing,
    Dead,
}

/// The name of a state.
pub open spec fn state_name(state: SessionState) -> Seq<char> {
    match state {
        SessionState::Launching => "launching"@,
        SessionState::Ready => "ready"@,
        SessionState::InUse => "in_use"@,
        SessionState::Draining => "draining"@,
        SessionState::Killing => "killing"@,
        SessionState::Dead => "dead"@,
    }
}

impl SessionState {
    /// The name of the state.
    pub fn text(&self) -> (res: &'static str)
        ensures
            res@ == state_name(*self),
    {
        match self {
            SessionState::Launching => "launching",
            SessionState::Ready => "ready",
            SessionState::InUse => "in_use",
            SessionState::Draining => "draining",
            SessionState::Killing => "killing",
            SessionState::Dead => "dead",
        }
    }
}

/// A session of the pool.
#[derive(Debug)]
pub struct SessionEntry {
    pub id: u128,
    pub pid: u32,
    pub browser_ws_url: String,
    pub stealth_enabled: bool,
    pub created_at: WallClock,
    pub created_ticks: u128,
    pub last_used_at: WallClock,
    pub last_used_ticks: u128,
    pub last_cdp_health_check: u128,
    pub state: SessionState,
    pub kill_reason: Option<String>,
}

impl Clone for SessionEntry {
    fn clone(&self) -> (res: SessionEntry)
        ensures
            res == *self,
    {
        SessionEntry {
            id: self.id,
            pid: self.pid,
            browser_ws_url: self.browser_ws_url.clone(),
            stealth_enabled: self.stealth_enabled,
            created_at: self.created_at,
            created_ticks: self.created_ticks,
            last_used_at: self.last_used_at,
            last_used_ticks: self.last_used_ticks,
            last_cdp_health_check: self.last_cdp_health_check,
            state: self.state,
            kill_reason: text::clone_opt(&self.kill_reason),
        }
    }
}

/// The concurrent map `dashmap::DashMap`. What one holds is told by a name alone.
#[verifier::external_type_specification]
#[verifier::external_body]
#[verifier::reject_recursive_types(K)]
#[verifier::reject_recursive_types(V)]
#[verifier::reject_recursive_types(S)]
pub struct ExDashMap<K, V, S>(DashMap<K, V, S>);

/// The sessions that a map holds, by their numbers.
pub uninterp spec fn held_sessions(sessions: DashMap<u128, SessionEntry>) -> Map<u128, SessionEntry>;

/// No sessions.
pub open spec fn no_sessions() -> Map<u128, SessionEntry> {
    Map::empty()
}

/// `DashMap::new` makes an empty map.
#[verifier::external_body]
fn new_map() -> (res: DashMap<u128, SessionEntry>)
    ensures
        held_sessions(res) == no_sessions(),
{
    DashMap::new()
}

/// `DashMap::insert` puts a value under its key, in place of one that was there.
#[verifier::external_body]
fn insert_session(sessions: &mut DashMap<u128, SessionEntry>, id: u128, entry: SessionEntry)
    ensures
        held_sessions(*final(sessions)) == held_sessions(*old(sessions)).insert(id, entry),
{
    sessions.insert(id, entry);
}

/// `DashMap::remove` takes a key and its value out and hands the value back; without
/// the key it changes nothing.
#[verifier::external_body]
fn remove_session(sessions: &mut DashMap<u128, SessionEntry>, id: u128) -> (res: Option<
    SessionEntry,
>)
    ensures
        res == held_sessions(*old(sessions)).get(id),
        held_sessions(*final(sessions)) == held_sessions(*old(sessions)).remove(id),
{
    sessions.remove(&id).map(|removed| removed.1)
}

/// `DashMap::get` finds the value of a key, of which this hands out a copy.
#[verifier::external_body]
fn find_session(sessions: &DashMap<u128, SessionEntry>, id: u128) -> (res: Option<SessionEntry>)
    ensures
        res == held_sessions(*sessions).get(id),
{
    sessions.get(&id).map(|found| found.value().clone())
}

/// `DashMap::len` counts the keys.
#[verifier::external_body]
fn count_sessions(sessions: &DashMap<u128, SessionEntry>) -> (res: usize)
    ensures
        res == held_sessions(*sessions).dom().len(),
{
    sessions.len()
}

/// `DashMap::iter` visits every key once, in no order that is promised; of each key
/// this hands out a copy of its value.
#[verifier::external_body]
fn all_sessions(sessions: &DashMap<u128, SessionEntry>) -> (res: Vec<(u128, SessionEntry)>)
    ensures
        keys_of(res@).no_duplicates(),
        keys_of(res@).to_set() == held_sessions(*sessions).dom(),
        forall|i: int| 0 <= i < res@.len() ==> (#[trigger] res@[i]).1 == held_sessions(*sessions)[res@[i].0],
{
    sessions.iter().map(|held| (*held.key(), held.value().clone())).collect()
}

/// The keys of some pairs.
pub open spec fn keys_of(pairs: Seq<(u128, SessionEntry)>) -> Seq<u128> {
    Seq::new(pairs.len(), |i: int| pairs[i].0)
}

/// What a caller wants of a session otherwise than the pool has it.
#[derive(Clone, Debug)]
pub struct SessionOverrides {
    pub stealth_enabled: Option<bool>,
    pub extra_chrome_args: Vec<String>,
    pub proxy: Option<String>,
    /// Directories of unpacked extensions to load.
    pub extension_paths: Vec<String>,
    /// The profile to use, where it is one that outlives the session.
    pub persistent_profile_id: Option<String>,
}

impl Default for SessionOverrides {
    fn default() -> (res: SessionOverrides)
        ensures
            res.stealth_enabled is None,
            res.extra_chrome_args@.len() == 0,
            res.proxy is None,
            res.extension_paths@.len() == 0,
            res.persistent_profile_id is None,
    {
        SessionOverrides {
            stealth_enabled: None,
            extra_chrome_args: Vec::new(),
            proxy: None,
            extension_paths: Vec::new(),
            persistent_profile_id: None,
        }
    }
}

/// The share of CPU time that a session takes.
#[derive(Debug)]
pub struct CpuReading {
    /// The percentage, with as many digits as it needs.
    pub shown: String,
    /// The percentage, with one digit behind the point.
    pub rounded: String,
}

impl Clone for CpuReading {
    fn clone(&self) -> (res: CpuReading)
        ensures
            res == *self,
    {
        CpuReading { shown: self.shown.clone(), rounded: self.rounded.clone() }
    }
}

/// What the processes of a browser take.
#[derive(Debug)]
pub struct ResourceSample {
    pub rss_bytes: u64,
    pub cpu: CpuReading,
    pub process_count: usize,
}

impl Clone for ResourceSample {
    fn clone(&self) -> (res: ResourceSample)
        ensures
            res == *self,
    {
        ResourceSample {
            rss_bytes: self.rss_bytes,
            cpu: self.cpu.clone(),
            process_count: self.process_count,
        }
    }
}

/// What one can know of a session.
#[derive(Debug)]
pub struct SessionInfo {
    pub id: u128,
    pub state: SessionState,
    pub pid: Option<u32>,
    pub browser_ws_url: Option<String>,
    pub created_at: WallClock,
    pub last_used_at: WallClock,
    pub age_seconds: u64,
    pub idle_seconds: u64,
    pub rss_bytes: Option<u64>,
    pub cpu_percent: Option<CpuReading>,
    pub process_count: Option<usize>,
    pub kill_reason: Option<String>,
}

/// Whether the pool can take a session.
#[derive(Clone, Debug)]
pub struct PoolReadiness {
    pub status: &'static str,
    pub can_accept_sessions: bool,
    pub active_sessions: usize,
    pub max_concurrent_sessions: usize,
    pub available_capacity: usize,
    pub browser_launch_ready: bool,
    pub last_browser_launch_error: Option<String>,
}

/// Why there is no session.
#[derive(Clone, Debug)]
pub enum PoolError {
    AtCapacity,
    CapacityTimeout,
    PersistentProfilesDisabled,
    InvalidPersistentProfileId(String),
    NotFound(u128),
    NotConnectable(u128),
    Browser(BrowserError),
}

impl PoolError {
    /// The error in words.
    pub open spec fn words(self) -> Seq<char> {
        match self {
            PoolError::AtCapacity => "session pool is at capacity"@,
            PoolError::CapacityTimeout => "timed out waiting for browser capacity"@,
            PoolError::PersistentProfilesDisabled =>
                "persistent profiles are disabled; set EIGER_PROFILE_STORAGE_DIR"@,
            PoolError::InvalidPersistentProfileId(id) => "invalid persistent profile id: "@ + id@,
            PoolError::NotFound(id) => "session not found: "@ + id::id_name(id),
            PoolError::NotConnectable(id) => "session is not connectable: "@ + id::id_name(id),
            PoolError::Browser(error) => "browser launch failed: "@ + error.words(),
        }
    }

    /// The error in words.
    pub fn message(&self) -> (res: String)
        ensures
            res@ == self.words(),
    {
        match self {
            PoolError::AtCapacity => "session pool is at capacity".to_owned(),
            PoolError::CapacityTimeout => "timed out waiting for browser capacity".to_owned(),
            PoolError::PersistentProfilesDisabled =>
                "persistent profiles are disabled; set EIGER_PROFILE_STORAGE_DIR".to_owned(),
            PoolError::InvalidPersistentProfileId(id) =>
                "invalid persistent profile id: ".to_owned().concat(id.as_str()),
            PoolError::NotFound(id) => "session not found: ".to_owned().concat(
                id::name_text(*id).as_str(),
            ),
            PoolError::NotConnectable(id) => "session is not connectable: ".to_owned().concat(
                id::name_text(*id).as_str(),
            ),
            PoolError::Browser(error) => "browser launch failed: ".to_owned().concat(
                error.message().as_str(),
            ),
        }
    }
}

/// The limits of the pool.
#[derive(Clone, Debug)]
pub struct PoolOptions {
    pub max_concurrent_sessions: usize,
    pub launch_queue_timeout: Span,
    pub max_session_lifetime: Span,
    pub max_idle_time: Span,
    pub per_session_rss_limit_bytes: u64,
    pub maintenance_interval: Span,
    pub cdp_health_interval: Span,
    pub profile_storage_dir: Option<String>,
}

/// How often things have happened, modulo the largest number of 64 bits.
#[derive(Clone, Copy, Debug, PartialEq, Eq, Structural)]
pub struct Counters {
    pub created: u64,
    pub hard_killed: u64,
    pub rejected: u64,
    pub rss_limit_recycled: u64,
    pub idle_recycled: u64,
    pub lifetime_recycled: u64,
    pub process_exit_recycled: u64,
    pub cdp_unhealthy_recycled: u64,
}

/// The number behind a 64-bit number; zero behind the largest.
pub open spec fn next_count(count: u64) -> u64 {
    if count == u64::MAX {
        0
    } else {
        (count + 1) as u64
    }
}

fn raised(count: u64) -> (res: u64)
    ensures
        res == next_count(count),
{
    count.wrapping_add(1)
}

/// For which of the counted reasons a session was recycled.
#[derive(Clone, Copy, Debug, PartialEq, Eq, Structural)]
pub enum RecycleKind {
    RssLimit,
    Idle,
    Lifetime,
    ProcessExit,
    CdpUnhealthy,
    /// For none of them.
    Other,
}

/// For which of the counted reasons a session was recycled, by how the reason begins.
pub open spec fn recycle_kind(reason: Seq<char>) -> RecycleKind {
    if text::has_prefix(reason, "rss limit exceeded"@) {
        RecycleKind::RssLimit
    } else if text::has_prefix(reason, "max idle time exceeded"@) {
        RecycleKind::Idle
    } else if text::has_prefix(reason, "max session lifetime exceeded"@) {
        RecycleKind::Lifetime
    } else if text::has_prefix(reason, "browser process exited"@) {
        RecycleKind::ProcessExit
    } else if text::has_prefix(reason, "cdp health check failed"@) {
        RecycleKind::CdpUnhealthy
    } else {
        RecycleKind::Other
    }
}

/// The counters after one more session was recycled.
pub open spec fn recycled(counters: Counters, kind: RecycleKind) -> Counters {
    match kind {
        RecycleKind::RssLimit => Counters {
            rss_limit_recycled: next_count(counters.rss_limit_recycled),
            ..counters
        },
        RecycleKind::Idle => Counters {
            idle_recycled: next_count(counters.idle_recycled),
            ..counters
        },
        RecycleKind::Lifetime => Counters {
            lifetime_recycled: next_count(counters.lifetime_recycled),
            ..counters
        },
        RecycleKind::ProcessExit => Counters {
            process_exit_recycled: next_count(counters.process_exit_recycled),
            ..counters
        },
        RecycleKind::CdpUnhealthy => Counters {
            cdp_unhealthy_recycled: next_count(counters.cdp_unhealthy_recycled),
            ..counters
        },
        RecycleKind::Other => counters,
    }
}

/// Counts one more recycled session.
pub fn count_recycle_reason(counters: Counters, reason: &str) -> (res: Counters)
    ensures
        res == recycled(counters, recycle_kind(reason@)),
{
    let mut counted = counters;
    if text::starts_with(reason, "rss limit exceeded") {
        counted.rss_limit_recycled = raised(counters.rss_limit_recycled);
    } else if text::starts_with(reason, "max idle time exceeded") {
        counted.idle_recycled = raised(counters.idle_recycled);
    } else if text::starts_with(reason, "max session lifetime exceeded") {
        counted.lifetime_recycled = raised(counters.lifetime_recycled);
    } else if text::starts_with(reason, "browser process exited") {
        counted.process_exit_recycled = raised(counters.process_exit_recycled);
    } else if text::starts_with(reason, "cdp health check failed") {
        counted.cdp_unhealthy_recycled = raised(counters.cdp_unhealthy_recycled);
    }
    counted
}

/// Whether a profile may have this name: a single name in a directory.
pub open spec fn is_profile_id(id: Seq<char>) -> bool {
    &&& id.len() > 0
    &&& id != "."@
    &&& id != ".."@
    &&& forall|i: int| 0 <= i < id.len() ==> !separates_paths(#[trigger] id[i])
}

/// Whether a character may not stand in the name of a profile.
pub open spec fn separates_paths(c: char) -> bool {
    c == '/' || c == '\\' || c == '\0'
}

fn profile_id_ok(id: &str) -> (res: bool)
    ensures
        res == is_profile_id(id@),
{
    if id.is_empty() || text::str_eq(id, ".") || text::str_eq(id, "..") {
        return false;
    }
    let mut clean = true;
    for c in it: id.chars()
        invariant
            it.seq() == id@,
            clean == forall|i: int| 0 <= i < it.index() ==> !separates_paths(#[trigger] id@[i]),
    {
        if c == '/' || c == '\\' || c == '\0' {
            assert(separates_paths(id@[it.index() as int]));
            clean = false;
        }
    }
    clean
}

/// The directory of a profile that outlives its session.
pub open spec fn profile_path(storage_dir: Seq<char>, id: Seq<char>) -> Seq<char> {
    storage_dir + "/"@ + id
}

/// The directory of the profile that was asked for, none where none was, or why
/// there is none: profiles are not kept, or may not have this name.
pub fn profile_dir(storage_dir: &Option<String>, id: Option<String>) -> (res: Result<
    Option<String>,
    PoolError,
>)
    ensures
        match id {
            None => res == Ok::<Option<String>, PoolError>(None),
            Some(name) => match *storage_dir {
                None => res == Err::<Option<String>, PoolError>(
                    PoolError::PersistentProfilesDisabled,
                ),
                Some(dir) => if is_profile_id(name@) {
                    res matches Ok(Some(path)) && path@ == profile_path(dir@, name@)
                } else {
                    res == Err::<Option<String>, PoolError>(
                        PoolError::InvalidPersistentProfileId(name),
                    )
                },
            },
        },
{
    let name = match id {
        Some(name) => name,
        None => return Ok(None),
    };
    let dir = match storage_dir {
        Some(dir) => dir,
        None => return Err(PoolError::PersistentProfilesDisabled),
    };
    if !profile_id_ok(name.as_str()) {
        return Err(PoolError::InvalidPersistentProfileId(name));
    }
    let mut path = dir.clone();
    path.append("/");
    path.append(name.as_str());
    Ok(Some(path))
}

/// How the wait for room in the pool ended.
#[derive(Clone, Copy, Debug, PartialEq, Eq, Structural)]
pub enum CapacityWait {
    Granted,
    /// Nobody gives out room any more.
    Closed,
    TimedOut,
}

/// How a session is to be launched, and where its profile lies if it is to outlive it.
#[derive(Clone, Debug)]
pub struct LaunchPlan {
    pub options: ChromeLaunchOptions,
    pub profile_dir: Option<String>,
}

/// Whether options are those of the pool, but for what a caller wants otherwise.
pub open spec fn overridden(
    options: ChromeLaunchOptions,
    base: ChromeLaunchOptions,
    wanted: SessionOverrides,
) -> bool {
    &&& options.executable == base.executable
    &&& options.no_sandbox == base.no_sandbox
    &&& options.launch_timeout == base.launch_timeout
    &&& options.close_timeout == base.close_timeout
    &&& options.terminate_timeout == base.terminate_timeout
    &&& text::texts(options.additional_args@) == text::texts(base.additional_args@) + text::texts(
        wanted.extra_chrome_args@,
    )
    &&& options.proxy == wanted.proxy
    &&& options.extension_paths == wanted.extension_paths
    &&& options.stealth == (StealthProfile {
        enabled: match wanted.stealth_enabled {
            Some(enabled) => enabled,
            None => base.stealth.enabled,
        },
        ..base.stealth
    })
}

/// Whether a launch is planned as a caller wants it, or refused for the profile that
/// the caller wants.
pub open spec fn plans(
    outcome: Result<LaunchPlan, PoolError>,
    limits: PoolOptions,
    base: ChromeLaunchOptions,
    wanted: SessionOverrides,
) -> bool {
    let planned = outcome is Ok && overridden(outcome->Ok_0.options, base, wanted);
    match wanted.persistent_profile_id {
        None => planned && outcome->Ok_0.profile_dir is None,
        Some(name) => match limits.profile_storage_dir {
            None => outcome == Err::<LaunchPlan, PoolError>(PoolError::PersistentProfilesDisabled),
            Some(dir) => if is_profile_id(name@) {
                planned && text::opt_text(outcome->Ok_0.profile_dir) == Some(
                    profile_path(dir@, name@),
                )
            } else {
                outcome == Err::<LaunchPlan, PoolError>(PoolError::InvalidPersistentProfileId(name))
            },
        },
    }
}

/// A session that was just launched.
pub open spec fn is_new_entry(
    entry: SessionEntry,
    id: u128,
    stealth_enabled: bool,
    browser: LaunchedBrowser,
    now: Now,
) -> bool {
    &&& entry.id == id
    &&& entry.pid == browser.ready.pid
    &&& entry.browser_ws_url == browser.ready.browser_ws_url
    &&& entry.stealth_enabled == stealth_enabled
    &&& entry.created_at == now.wall
    &&& entry.created_ticks == now.ticks
    &&& entry.last_used_at == now.wall
    &&& entry.last_used_ticks == now.ticks
    &&& entry.last_cdp_health_check == now.ticks
    &&& entry.state is Ready
    &&& entry.kill_reason is None
}

/// A session after it was used.
pub open spec fn touched(entry: SessionEntry, now: Now) -> SessionEntry {
    SessionEntry { last_used_at: now.wall, last_used_ticks: now.ticks, ..entry }
}

/// Whether something is what one can know of a session.
pub open spec fn describes(
    info: SessionInfo,
    entry: SessionEntry,
    sample: Option<ResourceSample>,
    now: Now,
) -> bool {
    &&& info.id == entry.id
    &&& info.state == entry.state
    &&& info.pid == Some(entry.pid)
    &&& info.browser_ws_url == Some(entry.browser_ws_url)
    &&& info.created_at == entry.created_at
    &&& info.last_used_at == entry.last_used_at
    &&& info.age_seconds == span::whole_seconds(entry.created_ticks, now.ticks)
    &&& info.idle_seconds == span::whole_seconds(entry.last_used_ticks, now.ticks)
    &&& info.kill_reason == entry.kill_reason
    &&& match sample {
        Some(taken) => {
            &&& info.rss_bytes == Some(taken.rss_bytes)
            &&& info.cpu_percent == Some(taken.cpu)
            &&& info.process_count == Some(taken.process_count)
        },
        None => info.rss_bytes is None && info.cpu_percent is None && info.process_count is None,
    }
}

fn session_info(entry: SessionEntry, sample: Option<ResourceSample>, now: Now) -> (res: SessionInfo)
    ensures
        describes(res, entry, sample, now),
{
    let (rss_bytes, cpu_percent, process_count) = match sample {
        Some(taken) => (Some(taken.rss_bytes), Some(taken.cpu), Some(taken.process_count)),
        None => (None, None, None),
    };
    SessionInfo {
        id: entry.id,
        state: entry.state,
        pid: Some(entry.pid),
        browser_ws_url: Some(entry.browser_ws_url),
        created_at: entry.created_at,
        last_used_at: entry.last_used_at,
        age_seconds: span::seconds_since(entry.created_ticks, now.ticks),
        idle_seconds: span::seconds_since(entry.last_used_ticks, now.ticks),
        rss_bytes,
        cpu_percent,
        process_count,
        kill_reason: entry.kill_reason,
    }
}

/// The first of some samples that was taken of a process.
pub open spec fn sample_of(samples: Seq<(u32, ResourceSample)>, pid: u32) -> Option<ResourceSample>
    decreases samples.len(),
{
    if samples.len() == 0 {
        None
    } else if samples[0].0 == pid {
        Some(samples[0].1)
    } else {
        sample_of(samples.skip(1), pid)
    }
}

fn find_sample(samples: &Vec<(u32, ResourceSample)>, pid: u32) -> (res: Option<ResourceSample>)
    ensures
        res == sample_of(samples@, pid),
{
    let mut i: usize = 0;
    assert(samples@.skip(0) =~= samples@);
    while i < samples.len()
        invariant
            i <= samples.len(),
            sample_of(samples@, pid) == sample_of(samples@.skip(i as int), pid),
        decreases samples.len() - i,
    {
        assert(samples@.skip(i as int).skip(1) =~= samples@.skip(i + 1));
        if samples[i].0 == pid {
            return Some(samples[i].1.clone());
        }
        i += 1;
    }
    None
}

/// What one who looks after a session has seen.
#[derive(Debug)]
pub enum MaintenanceEvent {
    /// The turn of the session has come.
    Visited(Now),
    /// The memory of its processes was measured; nothing where they are gone.
    Sampled { rss_bytes: Option<u64>, now: Now },
    /// The browser was tried, and did not answer for this reason, or did.
    HealthChecked(Option<BrowserError>),
}

/// What one who looks after a session does next.
#[derive(Debug)]
pub enum MaintenanceStep {
    /// Leave the session alone.
    Keep,
    /// Measure the memory of this process and those below it.
    Sample { pid: u32 },
    /// Try the browser at this address.
    CheckHealth { browser_ws_url: String },
    /// End the session for this reason.
    Recycle(String),
}

/// The words of a memory limit that was exceeded.
pub open spec fn rss_words(rss_bytes: u64, limit: u64) -> Seq<char> {
    "rss limit exceeded: "@ + text::decimal(rss_bytes as nat) + " > "@ + text::decimal(limit as nat)
}

/// The state of the pool.
#[verifier::ext_equal]
pub struct PoolState {
    /// The sessions that can be found.
    pub sessions: Map<u128, SessionEntry>,
    /// How many launches have been let in and are not over.
    pub launching: nat,
    /// How many sessions have been taken out and still take up room.
    pub departing: nat,
    pub counters: Counters,
    /// Whether the last launch succeeded.
    pub launch_ready: bool,
    /// Why the last launch failed.
    pub launch_error: Option<Seq<char>>,
}

/// The pool of sessions.
pub struct SessionPool {
    sessions: DashMap<u128, SessionEntry>,
    launching: usize,
    departing: usize,
    options: PoolOptions,
    browser_options: ChromeLaunchOptions,
    counters: Counters,
    browser_launch_ready: bool,
    last_browser_launch_error: Option<String>,
}

/// What one needs to know to use a session.
#[derive(Clone, Debug)]
pub struct SessionHandle {
    id: u128,
    pid: u32,
    browser_ws_url: String,
    stealth_enabled: bool,
}

/// What a session says to one who uses it.
#[verifier::ext_equal]
pub struct HandleView {
    pub id: u128,
    pub pid: u32,
    pub browser_ws_url: Seq<char>,
    pub stealth_enabled: bool,
}

/// What a session says to one who uses it.
pub open spec fn handle_view(entry: SessionEntry) -> HandleView {
    HandleView {
        id: entry.id,
        pid: entry.pid,
        browser_ws_url: entry.browser_ws_url@,
        stealth_enabled: entry.stealth_enabled,
    }
}

/// Whether some descriptions are those of the sessions, one of each.
pub open spec fn lists(
    infos: Seq<SessionInfo>,
    sessions: Map<u128, SessionEntry>,
    samples: Seq<(u32, ResourceSample)>,
    now: Now,
) -> bool {
    &&& infos.len() == sessions.dom().len()
    &&& forall|i: int, j: int|
        0 <= i < j < infos.len() ==> (#[trigger] infos[i]).id != (#[trigger] infos[j]).id
    &&& forall|i: int|
        0 <= i < infos.len() ==> {
            let entry = sessions[(#[trigger] infos[i]).id];
            &&& sessions.contains_key(infos[i].id)
            &&& describes(infos[i], entry, sample_of(samples, entry.pid), now)
        }
}

/// Whether a metric is that of a session.
pub open spec fn metric_describes(metric: SessionMetric, info: SessionInfo) -> bool {
    &&& metric.id@ == id::id_name(info.id)
    &&& metric.state@ == state_name(info.state)
    &&& metric.pid == info.pid
    &&& metric.rss_bytes == info.rss_bytes
    &&& metric.process_count == info.process_count
    &&& metric.age_seconds == info.age_seconds
    &&& metric.idle_seconds == info.idle_seconds
    &&& match info.cpu_percent {
        Some(cpu) => metric.cpu_percent == Some(cpu.shown),
        None => metric.cpu_percent is None,
    }
}

/// Whether some metrics are those of sessions that were described, in the same order.
pub open spec fn metrics_describe(metrics: Seq<SessionMetric>, infos: Seq<SessionInfo>) -> bool {
    metrics.len() == infos.len() && forall|i: int|
        0 <= i < infos.len() ==> metric_describes(#[trigger] metrics[i], infos[i])
}

/// Whether metrics are those of a pool and of its sessions.
pub open spec fn measures(
    metrics: PoolMetrics,
    state: PoolState,
    limits: PoolOptions,
    samples: Seq<(u32, ResourceSample)>,
    now: Now,
) -> bool {
    &&& metrics.active_sessions == state.sessions.dom().len()
    &&& metrics.max_concurrent_sessions == limits.max_concurrent_sessions
    &&& metrics.sessions_created_total == state.counters.created
    &&& metrics.sessions_hard_killed_total == state.counters.hard_killed
    &&& metrics.sessions_rejected_total == state.counters.rejected
    &&& metrics.sessions_rss_limit_recycled_total == state.counters.rss_limit_recycled
    &&& metrics.sessions_idle_recycled_total == state.counters.idle_recycled
    &&& metrics.sessions_lifetime_recycled_total == state.counters.lifetime_recycled
    &&& metrics.sessions_process_exit_recycled_total == state.counters.process_exit_recycled
    &&& metrics.sessions_cdp_unhealthy_recycled_total == state.counters.cdp_unhealthy_recycled
    &&& exists|infos: Seq<SessionInfo>|
        lists(infos, state.sessions, samples, now) && #[trigger] metrics_describe(
            metrics.sessions@,
            infos,
        )
}

fn session_metric(info: SessionInfo) -> (res: SessionMetric)
    ensures
        metric_describes(res, info),
{
    let cpu_percent = match info.cpu_percent {
        Some(cpu) => Some(cpu.shown),
        None => None,
    };
    SessionMetric {
        id: id::name_text(info.id),
        state: info.state.text().to_owned(),
        pid: info.pid,
        rss_bytes: info.rss_bytes,
        cpu_percent,
        process_count: info.process_count,
        age_seconds: info.age_seconds,
        idle_seconds: info.idle_seconds,
    }
}

/// Why the turn of a session ends it, where it does: it is too old, or nobody has it
/// in use and it was idle for too long.
pub open spec fn overdue(entry: SessionEntry, options: PoolOptions, now: Now) -> Option<Seq<char>> {
    if span::elapsed(entry.created_ticks, now.ticks) > options.max_session_lifetime.total() {
        Some("max session lifetime exceeded"@)
    } else if entry.state is Ready && span::elapsed(entry.last_used_ticks, now.ticks)
        > options.max_idle_time.total() {
        Some("max idle time exceeded"@)
    } else {
        None
    }
}

/// Whether the browser of a session is to be tried again.
pub open spec fn health_due(entry: SessionEntry, options: PoolOptions, now: Now) -> bool {
    span::elapsed(entry.last_cdp_health_check, now.ticks) >= options.cdp_health_interval.total()
}

/// What is done about a session in maintenance.
pub enum MaintenanceView {
    Keep,
    Sample(u32),
    CheckHealth(String),
    Recycle(Seq<char>),
}

/// Whether a step is the one that is meant.
pub open spec fn takes_step(step: MaintenanceStep, view: MaintenanceView) -> bool {
    match step {
        MaintenanceStep::Keep => view is Keep,
        MaintenanceStep::Sample { pid } => view == MaintenanceView::Sample(pid),
        MaintenanceStep::CheckHealth { browser_ws_url } => view == MaintenanceView::CheckHealth(
            browser_ws_url,
        ),
        MaintenanceStep::Recycle(reason) => view == MaintenanceView::Recycle(reason@),
    }
}

/// What is done about a session that is not on its way out.
pub open spec fn upkeep(
    entry: SessionEntry,
    options: PoolOptions,
    event: MaintenanceEvent,
) -> MaintenanceView {
    match event {
        MaintenanceEvent::Visited(now) => match overdue(entry, options, now) {
            Some(words) => MaintenanceView::Recycle(words),
            None => MaintenanceView::Sample(entry.pid),
        },
        MaintenanceEvent::Sampled { rss_bytes, now } => match rss_bytes {
            None => MaintenanceView::Recycle("browser process exited"@),
            Some(rss) => if rss > options.per_session_rss_limit_bytes {
                MaintenanceView::Recycle(rss_words(rss, options.per_session_rss_limit_bytes))
            } else if health_due(entry, options, now) {
                MaintenanceView::CheckHealth(entry.browser_ws_url)
            } else {
                MaintenanceView::Keep
            },
        },
        MaintenanceEvent::HealthChecked(failure) => match failure {
            Some(error) => MaintenanceView::Recycle(
                "cdp health check failed: "@ + error.words(),
            ),
            None => MaintenanceView::Keep,
        },
    }
}

/// What becomes of a pool in the maintenance of a session, and what is done about it.
pub open spec fn maintained(
    state: PoolState,
    id: u128,
    options: PoolOptions,
    event: MaintenanceEvent,
) -> (PoolState, MaintenanceView) {
    match state.sessions.get(id) {
        None => (state, MaintenanceView::Keep),
        Some(entry) => if is_ending(entry.state) {
            (state, MaintenanceView::Keep)
        } else {
            let step = upkeep(entry, options, event);
            match (step, event) {
                (
                    MaintenanceView::CheckHealth(_),
                    MaintenanceEvent::Sampled { rss_bytes, now },
                ) => (after(state, (PoolEvent::Checked { id, now })), step),
                _ => (state, step),
            }
        },
    }
}

/// Whether a pool takes in another session.
pub open spec fn accepts(state: PoolState, limit: nat) -> bool {
    occupied(state) < limit && state.launch_ready
}

/// What someone is told who waited for room.
pub open spec fn admission(wait: CapacityWait) -> Result<(), PoolError> {
    match wait {
        CapacityWait::Granted => Ok(()),
        CapacityWait::Closed => Err(PoolError::AtCapacity),
        CapacityWait::TimedOut => Err(PoolError::CapacityTimeout),
    }
}

/// Whether the limits of a pool, and how it launches browsers, are as configured.
pub open spec fn follows(limits: PoolOptions, base: ChromeLaunchOptions, config: AppConfig) -> bool {
    &&& limits.max_concurrent_sessions == config.pool.max_concurrent_sessions
    &&& limits.launch_queue_timeout == config.pool.launch_queue_timeout
    &&& limits.max_session_lifetime == config.pool.max_session_lifetime
    &&& limits.max_idle_time == config.pool.max_idle_time
    &&& limits.per_session_rss_limit_bytes == config.pool.per_session_rss_limit_bytes
    &&& limits.maintenance_interval == config.pool.maintenance_interval
    &&& limits.cdp_health_interval == config.pool.cdp_health_interval
    &&& limits.profile_storage_dir == config.browser.profile_storage_dir
    &&& base.executable == config.browser.executable
    &&& base.no_sandbox == config.browser.no_sandbox
    &&& base.launch_timeout == config.browser.launch_timeout
    &&& base.close_timeout == config.browser.close_timeout
    &&& base.terminate_timeout == config.browser.terminate_timeout
    &&& text::texts(base.additional_args@) == text::texts(config.browser.additional_args@)
    &&& base.proxy is None
    &&& base.extension_paths@.len() == 0
    &&& base.stealth.enabled == config.stealth.enabled
    &&& base.stealth.user_agent == config.browser.user_agent
    &&& base.stealth.window_width == 1365
    &&& base.stealth.window_height == 768
}

/// Whether a session is being ended.
pub open spec fn is_ending(state: SessionState) -> bool {
    state is Killing || state is Dead
}

impl View for SessionPool {
    type V = PoolState;

    closed spec fn view(&self) -> PoolState {
        PoolState {
            sessions: held_sessions(self.sessions),
            launching: self.launching as nat,
            departing: self.departing as nat,
            counters: self.counters,
            launch_ready: self.browser_launch_ready,
            launch_error: text::opt_text(self.last_browser_launch_error),
        }
    }
}

impl View for SessionHandle {
    type V = HandleView;

    closed spec fn view(&self) -> HandleView {
        HandleView {
            id: self.id,
            pid: self.pid,
            browser_ws_url: self.browser_ws_url@,
            stealth_enabled: self.stealth_enabled,
        }
    }
}

/// What becomes of the wish to connect to a session.
pub enum ConnectOutcome {
    Connected,
    NotConnectable,
    NotFound,
}

/// What becomes of the wish to connect to a session: it can be connected to where
/// it is there and ready.
pub open spec fn connect_outcome(state: PoolState, id: u128) -> ConnectOutcome {
    match state.sessions.get(id) {
        Some(entry) => if entry.state is Ready {
            ConnectOutcome::Connected
        } else {
            ConnectOutcome::NotConnectable
        },
        None => ConnectOutcome::NotFound,
    }
}

/// What someone is told who wishes to connect to a session.
pub open spec fn connect_reply(state: PoolState, id: u128) -> Result<HandleView, PoolError> {
    match connect_outcome(state, id) {
        ConnectOutcome::Connected => Ok(handle_view(state.sessions[id])),
        ConnectOutcome::NotConnectable => Err(PoolError::NotConnectable(id)),
        ConnectOutcome::NotFound => Err(PoolError::NotFound(id)),
    }
}

/// Whether a browser came to its end by being killed.
pub open spec fn was_killed(end: Option<ShutdownKind>) -> bool {
    end == Some(ShutdownKind::Killed)
}

/// The pool after someone wished to connect to a session.
pub open spec fn after_connect(state: PoolState, id: u128, now: Now) -> PoolState {
    if connect_outcome(state, id) is Connected {
        used(state, id, true, now)
    } else {
        state
    }
}

/// The pool after someone wished a session to be ended for a reason: where it is
/// there, it is taken out and counted, and takes up room until it is released.
pub open spec fn after_terminate(state: PoolState, id: u128, reason: Seq<char>) -> PoolState {
    if state.sessions.contains_key(id) {
        PoolState {
            sessions: state.sessions.remove(id),
            departing: state.departing + 1,
            counters: recycled(state.counters, recycle_kind(reason)),
            ..state
        }
    } else {
        state
    }
}

/// What can happen to a pool.
pub enum PoolEvent {
    /// A launch is let in.
    LetIn,
    /// A launch is turned away.
    TurnedAway,
    /// A launch has led to a session with this number.
    Launched { id: u128, entry: SessionEntry },
    /// A launch has failed, for a reason in these words.
    LaunchFailed(Seq<char>),
    /// A launch is given up.
    GivenUp,
    /// Someone wishes to connect to a session.
    Connected { id: u128, now: Now },
    /// A session is used, and taken into use where that is said.
    Used { id: u128, in_use: bool, now: Now },
    /// The health of a session is checked.
    Checked { id: u128, now: Now },
    /// Someone wishes a session to be ended for a reason.
    Ended { id: u128, reason: Seq<char> },
    /// The browser of a session has come to its end, and had to be killed or not.
    Stopped { killed: bool },
    /// A session that was taken out takes up no more room.
    Released,
}

/// The pool after something has happened.
pub open spec fn after(state: PoolState, event: PoolEvent) -> PoolState {
    match event {
        PoolEvent::LetIn => PoolState { launching: state.launching + 1, ..state },
        PoolEvent::TurnedAway => PoolState {
            counters: Counters { rejected: next_count(state.counters.rejected), ..state.counters },
            ..state
        },
        PoolEvent::Launched { id, entry } => PoolState {
            sessions: state.sessions.insert(id, entry),
            launching: (state.launching - 1) as nat,
            counters: Counters { created: next_count(state.counters.created), ..state.counters },
            launch_ready: true,
            launch_error: None,
            ..state
        },
        PoolEvent::LaunchFailed(words) => PoolState {
            launching: (state.launching - 1) as nat,
            launch_ready: false,
            launch_error: Some(words),
            ..state
        },
        PoolEvent::GivenUp => PoolState { launching: (state.launching - 1) as nat, ..state },
        PoolEvent::Connected { id, now } => after_connect(state, id, now),
        PoolEvent::Used { id, in_use, now } => used(state, id, in_use, now),
        PoolEvent::Checked { id, now } => match state.sessions.get(id) {
            Some(entry) => PoolState {
                sessions: state.sessions.insert(
                    id,
                    SessionEntry { last_cdp_health_check: now.ticks, ..entry },
                ),
                ..state
            },
            None => state,
        },
        PoolEvent::Ended { id, reason } => after_terminate(state, id, reason),
        PoolEvent::Stopped { killed } => if killed {
            PoolState {
                counters: Counters {
                    hard_killed: next_count(state.counters.hard_killed),
                    ..state.counters
                },
                ..state
            }
        } else {
            state
        },
        PoolEvent::Released => PoolState { departing: (state.departing - 1) as nat, ..state },
    }
}

/// The pool after some things have happened, in this order.
pub open spec fn after_all(state: PoolState, events: Seq<PoolEvent>) -> PoolState
    decreases events.len(),
{
    if events.len() == 0 {
        state
    } else {
        after(after_all(state, events.drop_last()), events.last())
    }
}

/// A pool to which nothing has happened.
pub open spec fn new_state() -> PoolState {
    PoolState {
        sessions: no_sessions(),
        launching: 0,
        departing: 0,
        counters: no_counts(),
        launch_ready: false,
        launch_error: None,
    }
}

/// No counts.
pub open spec fn no_counts() -> Counters {
    Counters {
        created: 0,
        hard_killed: 0,
        rejected: 0,
        rss_limit_recycled: 0,
        idle_recycled: 0,
        lifetime_recycled: 0,
        process_exit_recycled: 0,
        cdp_unhealthy_recycled: 0,
    }
}

/// How much room a state takes up.
pub open spec fn occupied(state: PoolState) -> nat {
    state.launching + state.sessions.dom().len() + state.departing
}

impl SessionPool {
    /// The limits of the pool.
    pub closed spec fn limits(self) -> PoolOptions {
        self.options
    }

    /// How the pool launches browsers.
    pub closed spec fn launch_base(self) -> ChromeLaunchOptions {
        self.browser_options
    }

    /// Whether every session stands under its number and the room that launches,
    /// sessions and departing sessions take up is within the limit.
    pub open spec fn wf(self) -> bool {
        &&& self@.sessions.dom().finite()
        &&& forall|id: u128| #[trigger]
            self@.sessions.contains_key(id) ==> self@.sessions[id].id == id
        &&& occupied(self@) <= self.limits().max_concurrent_sessions
    }

    /// Whether the limits and the launch options are those of another pool.
    pub open spec fn same_settings(self, other: SessionPool) -> bool {
        self.limits() == other.limits() && self.launch_base() == other.launch_base()
    }

    /// How much room is left.
    pub open spec fn room(self) -> int {
        self.limits().max_concurrent_sessions - occupied(self@)
    }

    /// An empty pool.
    pub fn from_config(config: &AppConfig) -> (res: SessionPool)
        ensures
            res.wf(),
            res@ == new_state(),
            follows(res.limits(), res.launch_base(), *config),
            ({
                let limits = res.limits();
                &&& limits.max_concurrent_sessions == config.pool.max_concurrent_sessions
                &&& limits.launch_queue_timeout == config.pool.launch_queue_timeout
                &&& limits.max_session_lifetime == config.pool.max_session_lifetime
                &&& limits.max_idle_time == config.pool.max_idle_time
                &&& limits.per_session_rss_limit_bytes == config.pool.per_session_rss_limit_bytes
                &&& limits.maintenance_interval == config.pool.maintenance_interval
                &&& limits.cdp_health_interval == config.pool.cdp_health_interval
                &&& limits.profile_storage_dir == config.browser.profile_storage_dir
            }),
            ({
                let base = res.launch_base();
                &&& base.executable == config.browser.executable
                &&& base.no_sandbox == config.browser.no_sandbox
                &&& base.launch_timeout == config.browser.launch_timeout
                &&& base.close_timeout == config.browser.close_timeout
                &&& base.terminate_timeout == config.browser.terminate_timeout
                &&& text::texts(base.additional_args@) == text::texts(
                    config.browser.additional_args@,
                )
                &&& base.proxy is None
                &&& base.extension_paths@.len() == 0
                &&& base.stealth.enabled == config.stealth.enabled
                &&& base.stealth.user_agent == config.browser.user_agent
                &&& base.stealth.window_width == 1365
                &&& base.stealth.window_height == 768
            }),
    {
        SessionPool {
            sessions: new_map(),
            launching: 0,
            departing: 0,
            options: PoolOptions {
                max_concurrent_sessions: config.pool.max_concurrent_sessions,
                launch_queue_timeout: config.pool.launch_queue_timeout,
                max_session_lifetime: config.pool.max_session_lifetime,
                max_idle_time: config.pool.max_idle_time,
                per_session_rss_limit_bytes: config.pool.per_session_rss_limit_bytes,
                maintenance_interval: config.pool.maintenance_interval,
                cdp_health_interval: config.pool.cdp_health_interval,
                profile_storage_dir: text::clone_opt(&config.browser.profile_storage_dir),
            },
            browser_options: ChromeLaunchOptions {
                executable: text::clone_opt(&config.browser.executable),
                no_sandbox: config.browser.no_sandbox,
                launch_timeout: config.browser.launch_timeout,
                close_timeout: config.browser.close_timeout,
                terminate_timeout: config.browser.terminate_timeout,
                additional_args: text::clone_texts(&config.browser.additional_args),
                proxy: None,
                extension_paths: Vec::new(),
                stealth: StealthProfile::new(
                    config.stealth.enabled,
                    text::clone_opt(&config.browser.user_agent),
                ),
            },
            counters: Counters {
                created: 0,
                hard_killed: 0,
                rejected: 0,
                rss_limit_recycled: 0,
                idle_recycled: 0,
                lifetime_recycled: 0,
                process_exit_recycled: 0,
                cdp_unhealthy_recycled: 0,
            },
            browser_launch_ready: false,
            last_browser_launch_error: None,
        }
    }

    /// How long a caller may wait for room.
    pub fn launch_queue_timeout(&self) -> (res: Span)
        ensures
            res == self.limits().launch_queue_timeout,
    {
        self.options.launch_queue_timeout
    }

    /// How long it is from one look at all sessions to the next.
    pub fn maintenance_interval(&self) -> (res: Span)
        ensures
            res == self.limits().maintenance_interval,
    {
        self.options.maintenance_interval
    }

    /// How much room is left.
    pub fn available_capacity(&self) -> (res: usize)
        requires
            self.wf(),
        ensures
            res == self.room(),
    {
        let active: usize = count_sessions(&self.sessions);
        self.options.max_concurrent_sessions - self.launching - active - self.departing
    }

    /// How a session is to be launched, or why it may not be.
    pub fn plan_launch(&self, wanted: SessionOverrides) -> (res: Result<LaunchPlan, PoolError>)
        ensures
            plans(res, self.limits(), self.launch_base(), wanted),
    {
        let profile_dir = match profile_dir(
            &self.options.profile_storage_dir,
            wanted.persistent_profile_id,
        ) {
            Ok(dir) => dir,
            Err(error) => return Err(error),
        };
        let mut options = self.browser_options.copy();
        match wanted.stealth_enabled {
            Some(enabled) => {
                options.stealth.enabled = enabled;
            },
            None => {},
        }
        options.proxy = wanted.proxy;
        options.extension_paths = wanted.extension_paths;
        text::push_texts(&mut options.additional_args, &wanted.extra_chrome_args);
        Ok(LaunchPlan { options, profile_dir })
    }

    /// Lets a launch in, or turns it away.
    pub fn begin_launch(&mut self, wait: CapacityWait) -> (res: Result<(), PoolError>)
        requires
            old(self).wf(),
            wait is Granted ==> old(self).room() > 0,
        ensures
            final(self).wf(),
            final(self).same_settings(*old(self)),
            res == admission(wait),
            match wait {
                CapacityWait::Granted => {
                    &&& res is Ok
                    &&& final(self)@ == after(old(self)@, PoolEvent::LetIn)
                },
                _ => {
                    &&& res == Err::<(), PoolError>(
                        if wait is Closed {
                            PoolError::AtCapacity
                        } else {
                            PoolError::CapacityTimeout
                        },
                    )
                    &&& final(self)@ == after(old(self)@, PoolEvent::TurnedAway)
                },
            },
    {
        match wait {
            CapacityWait::Granted => {
                self.launching = self.launching + 1;
                Ok(())
            },
            CapacityWait::Closed => {
                self.counters.rejected = raised(self.counters.rejected);
                Err(PoolError::AtCapacity)
            },
            CapacityWait::TimedOut => {
                self.counters.rejected = raised(self.counters.rejected);
                Err(PoolError::CapacityTimeout)
            },
        }
    }

    /// Takes in what became of a launch that was let in: a session with this
    /// number, or an error.
    pub fn create_session(
        &mut self,
        id: u128,
        stealth_enabled: bool,
        launched: Result<LaunchedBrowser, BrowserError>,
        now: Now,
    ) -> (res: Result<SessionHandle, PoolError>)
        requires
            old(self).wf(),
            old(self)@.launching > 0,
        ensures
            final(self).wf(),
            final(self).same_settings(*old(self)),
            match launched {
                Ok(browser) => {
                    let entry = final(self)@.sessions[id];
                    &&& is_new_entry(entry, id, stealth_enabled, browser, now)
                    &&& res is Ok
                    &&& res->Ok_0@ == handle_view(entry)
                    &&& final(self)@ == after(old(self)@, (PoolEvent::Launched { id, entry }))
                },
                Err(error) => {
                    &&& res == Err::<SessionHandle, PoolError>(PoolError::Browser(error))
                    &&& final(self)@ == after(old(self)@, PoolEvent::LaunchFailed(error.words()))
                },
            },
    {
        self.launching = self.launching - 1;
        let browser = match launched {
            Ok(browser) => browser,
            Err(error) => {
                self.browser_launch_ready = false;
                self.last_browser_launch_error = Some(error.message());
                return Err(PoolError::Browser(error));
            },
        };
        self.browser_launch_ready = true;
        self.last_browser_launch_error = None;
        let entry = SessionEntry {
            id,
            pid: browser.ready.pid,
            browser_ws_url: browser.ready.browser_ws_url,
            stealth_enabled,
            created_at: now.wall,
            created_ticks: now.ticks,
            last_used_at: now.wall,
            last_used_ticks: now.ticks,
            last_cdp_health_check: now.ticks,
            state: SessionState::Ready,
            kill_reason: None,
        };
        let handle = SessionHandle {
            id,
            pid: entry.pid,
            browser_ws_url: entry.browser_ws_url.clone(),
            stealth_enabled,
        };
        insert_session(&mut self.sessions, id, entry);
        self.counters.created = raised(self.counters.created);
        Ok(handle)
    }

    /// Takes in that a launch that was let in was given up.
    pub fn cancel_launch(&mut self)
        requires
            old(self).wf(),
            old(self)@.launching > 0,
        ensures
            final(self).wf(),
            final(self).same_settings(*old(self)),
            final(self)@ == after(old(self)@, PoolEvent::GivenUp),
    {
        self.launching = self.launching - 1;
    }

    /// Takes a session that nobody uses into use.
    pub fn connect_session(&mut self, id: u128, now: Now) -> (res: Result<SessionHandle, PoolError>)
        requires
            old(self).wf(),
        ensures
            final(self).wf(),
            final(self).same_settings(*old(self)),
            final(self)@ == after(old(self)@, (PoolEvent::Connected { id, now })),
            match res {
                Ok(handle) => connect_reply(old(self)@, id) == Ok::<HandleView, PoolError>(handle@),
                Err(error) => connect_reply(old(self)@, id) == Err::<HandleView, PoolError>(error),
            },
            match connect_outcome(old(self)@, id) {
                ConnectOutcome::Connected => {
                    &&& res is Ok
                    &&& res->Ok_0@ == handle_view(old(self)@.sessions[id])
                },
                ConnectOutcome::NotConnectable => res == Err::<SessionHandle, PoolError>(
                    PoolError::NotConnectable(id),
                ),
                ConnectOutcome::NotFound => res == Err::<SessionHandle, PoolError>(
                    PoolError::NotFound(id),
                ),
            },
    {
        let mut entry = match find_session(&self.sessions, id) {
            Some(entry) => entry,
            None => return Err(PoolError::NotFound(id)),
        };
        match entry.state {
            SessionState::Ready => {},
            _ => return Err(PoolError::NotConnectable(id)),
        }
        let handle = SessionHandle {
            id: entry.id,
            pid: entry.pid,
            browser_ws_url: entry.browser_ws_url.clone(),
            stealth_enabled: entry.stealth_enabled,
        };
        entry.state = SessionState::InUse;
        entry.last_used_at = now.wall;
        entry.last_used_ticks = now.ticks;
        insert_session(&mut self.sessions, id, entry);
        Ok(handle)
    }

    /// Takes a session out of the pool, to be ended for a reason. It takes up room
    /// until it is released.
    pub fn terminate_session(&mut self, id: u128, reason: &str) -> (res: Option<SessionEntry>)
        requires
            old(self).wf(),
        ensures
            final(self).wf(),
            final(self).same_settings(*old(self)),
            match old(self)@.sessions.get(id) {
                Some(entry) => {
                    &&& res is Some
                    &&& ending(entry, res->Some_0, reason@)
                },
                None => res is None,
            },
            final(self)@ == after(old(self)@, (PoolEvent::Ended { id, reason: reason@ })),
    {
        let ghost before = self@.sessions;
        match remove_session(&mut self.sessions, id) {
            Some(entry) => {
                let mut entry = entry;
                entry.state = SessionState::Killing;
                entry.kill_reason = Some(reason.to_owned());
                self.departing = self.departing + 1;
                self.counters = count_recycle_reason(self.counters, reason);
                Some(entry)
            },
            None => {
                assert(before.remove(id) =~= before);
                None
            },
        }
    }

    /// Takes in how the browser of a session that was taken out came to its end,
    /// where it had one.
    pub fn shutdown_entry(&mut self, entry: SessionEntry, end: Option<ShutdownKind>) -> (res:
        SessionEntry)
        requires
            old(self).wf(),
        ensures
            final(self).wf(),
            final(self).same_settings(*old(self)),
            res == (SessionEntry { state: SessionState::Dead, ..entry }),
            final(self)@ == after(old(self)@, (PoolEvent::Stopped { killed: was_killed(end) })),
            final(self)@ == after(
                old(self)@,
                (PoolEvent::Stopped { killed: end == Some(ShutdownKind::Killed) }),
            ),
    {
        match end {
            Some(ShutdownKind::Killed) => {
                self.counters.hard_killed = raised(self.counters.hard_killed);
            },
            _ => {},
        }
        let mut entry = entry;
        entry.state = SessionState::Dead;
        entry
    }

    /// Takes in that a session that was taken out takes up no more room.
    pub fn release(&mut self)
        requires
            old(self).wf(),
            old(self)@.departing > 0,
        ensures
            final(self).wf(),
            final(self).same_settings(*old(self)),
            final(self)@ == after(old(self)@, PoolEvent::Released),
    {
        self.departing = self.departing - 1;
    }

    /// How many launches have been let in and are not over.
    pub fn launches(&self) -> (res: usize)
        ensures
            res == self@.launching,
    {
        self.launching
    }

    /// How many sessions have been taken out and still take up room.
    pub fn departures(&self) -> (res: usize)
        ensures
            res == self@.departing,
    {
        self.departing
    }

    /// What one can know of a session, given what its processes take.
    pub fn get_session(&self, id: u128, sample: Option<ResourceSample>, now: Now) -> (res: Option<
        SessionInfo,
    >)
        ensures
            match self@.sessions.get(id) {
                Some(entry) => res is Some && describes(res->Some_0, entry, sample, now),
                None => res is None,
            },
    {
        match find_session(&self.sessions, id) {
            Some(entry) => Some(session_info(entry, sample, now)),
            None => None,
        }
    }

    /// The process of a session.
    pub fn session_pid(&self, id: u128) -> (res: Option<u32>)
        ensures
            res == match self@.sessions.get(id) {
                Some(entry) => Some(entry.pid),
                None => None,
            },
    {
        match find_session(&self.sessions, id) {
            Some(entry) => Some(entry.pid),
            None => None,
        }
    }

    /// The numbers and processes of all sessions, each once.
    pub fn session_processes(&self) -> (res: Vec<(u128, u32)>)
        requires
            self.wf(),
        ensures
            res@.len() == self@.sessions.dom().len(),
            forall|i: int, j: int|
                0 <= i < j < res@.len() ==> (#[trigger] res@[i]).0 != (#[trigger] res@[j]).0,
            forall|i: int|
                0 <= i < res@.len() ==> self@.sessions.contains_key((#[trigger] res@[i]).0)
                    && res@[i].1 == self@.sessions[res@[i].0].pid,
    {
        let entries = all_sessions(&self.sessions);
        proof {
            lemma_visits(entries@, self@.sessions);
        }
        let mut found: Vec<(u128, u32)> = Vec::new();
        let mut i: usize = 0;
        while i < entries.len()
            invariant
                i <= entries.len(),
                found.len() == i,
                visits(entries@, self@.sessions),
                forall|j: int|
                    0 <= j < found.len() ==> (#[trigger] found@[j]).0 == entries@[j].0
                        && found@[j].1 == entries@[j].1.pid,
            decreases entries.len() - i,
        {
            found.push((entries[i].0, entries[i].1.pid));
            i += 1;
        }
        found
    }

    /// What one can know of all sessions, given what some processes take. In which
    /// order the sessions come is left open.
    pub fn list_sessions(&self, samples: &Vec<(u32, ResourceSample)>, now: Now) -> (res: Vec<
        SessionInfo,
    >)
        requires
            self.wf(),
        ensures
            lists(res@, self@.sessions, samples@, now),
    {
        let entries = all_sessions(&self.sessions);
        proof {
            lemma_visits(entries@, self@.sessions);
        }
        let mut infos: Vec<SessionInfo> = Vec::new();
        for pair in it: entries
            invariant
                it.seq() == entries@,
                infos.len() == it.index(),
                visits(entries@, self@.sessions),
                forall|id: u128| #[trigger]
                    self@.sessions.contains_key(id) ==> self@.sessions[id].id == id,
                forall|j: int|
                    0 <= j < infos.len() ==> describes(
                        #[trigger] infos@[j],
                        entries@[j].1,
                        sample_of(samples@, entries@[j].1.pid),
                        now,
                    ),
        {
            let entry = pair.1;
            let sample = find_sample(samples, entry.pid);
            infos.push(session_info(entry, sample, now));
        }
        assert forall|i: int| 0 <= i < infos@.len() implies {
            let entry = self@.sessions[(#[trigger] infos@[i]).id];
            &&& self@.sessions.contains_key(infos@[i].id)
            &&& describes(infos@[i], entry, sample_of(samples@, entry.pid), now)
        } by {
            assert(self@.sessions.contains_key(entries@[i].0));
            assert(infos@[i].id == entries@[i].0);
        }
        assert forall|i: int, j: int| 0 <= i < j < infos@.len() implies (#[trigger] infos@[i]).id != (
        #[trigger] infos@[j]).id by {
            assert(self@.sessions.contains_key(entries@[i].0));
            assert(self@.sessions.contains_key(entries@[j].0));
        }
        infos
    }

    /// The metrics of the pool and of its sessions, given what some processes take.
    pub fn metrics(&self, samples: &Vec<(u32, ResourceSample)>, now: Now) -> (res: PoolMetrics)
        requires
            self.wf(),
        ensures
            measures(res, self@, self.limits(), samples@, now),
    {
        let infos = self.list_sessions(samples, now);
        let ghost listed = infos@;
        let mut sessions: Vec<SessionMetric> = Vec::new();
        for info in it: infos
            invariant
                it.seq() == listed,
                sessions.len() == it.index(),
                forall|j: int|
                    0 <= j < sessions.len() ==> metric_describes(#[trigger] sessions@[j], listed[j]),
        {
            sessions.push(session_metric(info));
        }
        let metrics = PoolMetrics {
            active_sessions: count_sessions(&self.sessions),
            max_concurrent_sessions: self.options.max_concurrent_sessions,
            sessions_created_total: self.counters.created,
            sessions_hard_killed_total: self.counters.hard_killed,
            sessions_rejected_total: self.counters.rejected,
            sessions_rss_limit_recycled_total: self.counters.rss_limit_recycled,
            sessions_idle_recycled_total: self.counters.idle_recycled,
            sessions_lifetime_recycled_total: self.counters.lifetime_recycled,
            sessions_process_exit_recycled_total: self.counters.process_exit_recycled,
            sessions_cdp_unhealthy_recycled_total: self.counters.cdp_unhealthy_recycled,
            sessions,
        };
        assert(lists(listed, self@.sessions, samples@, now));
        assert(metrics_describe(metrics.sessions@, listed));
        metrics
    }

    /// Whether the pool can take a session: there is room, and the last launch
    /// succeeded.
    pub fn readiness(&self) -> (res: PoolReadiness)
        requires
            self.wf(),
        ensures
            res.can_accept_sessions == (self.room() > 0 && self@.launch_ready),
            res.can_accept_sessions == accepts(
                self@,
                self.limits().max_concurrent_sessions as nat,
            ),
            res.status@ == if res.can_accept_sessions {
                "ready"@
            } else {
                "not_ready"@
            },
            res.active_sessions == self@.sessions.dom().len(),
            res.max_concurrent_sessions == self.limits().max_concurrent_sessions,
            res.available_capacity == self.room(),
            res.browser_launch_ready == self@.launch_ready,
            text::opt_text(res.last_browser_launch_error) == self@.launch_error,
    {
        let available_capacity: usize = self.available_capacity();
        let can_accept_sessions = available_capacity > 0 && self.browser_launch_ready;
        PoolReadiness {
            status: if can_accept_sessions {
                "ready"
            } else {
                "not_ready"
            },
            can_accept_sessions,
            active_sessions: count_sessions(&self.sessions),
            max_concurrent_sessions: self.options.max_concurrent_sessions,
            available_capacity,
            browser_launch_ready: self.browser_launch_ready,
            last_browser_launch_error: text::clone_opt(&self.last_browser_launch_error),
        }
    }

    /// What follows on what was seen while looking after a session. A session that is
    /// not in the pool or is being ended is left alone.
    pub fn kill_reason_for(&mut self, id: u128, event: MaintenanceEvent) -> (res: MaintenanceStep)
        requires
            old(self).wf(),
        ensures
            final(self).wf(),
            final(self).same_settings(*old(self)),
            final(self)@ == maintained(old(self)@, id, old(self).limits(), event).0,
            takes_step(res, maintained(old(self)@, id, old(self).limits(), event).1),
            match old(self)@.sessions.get(id) {
                None => res is Keep && final(self)@ == old(self)@,
                Some(entry) => if is_ending(entry.state) {
                    res is Keep && final(self)@ == old(self)@
                } else {
                    match event {
                        MaintenanceEvent::Visited(now) => {
                            &&& final(self)@ == old(self)@
                            &&& match overdue(entry, old(self).limits(), now) {
                                Some(words) => res is Recycle && res->Recycle_0@ == words,
                                None => res == (MaintenanceStep::Sample { pid: entry.pid }),
                            }
                        },
                        MaintenanceEvent::Sampled { rss_bytes, now } => match rss_bytes {
                            None => {
                                &&& final(self)@ == old(self)@
                                &&& res is Recycle
                                &&& res->Recycle_0@ == "browser process exited"@
                            },
                            Some(rss) => {
                                let limit = old(self).limits().per_session_rss_limit_bytes;
                                if rss > limit {
                                    &&& final(self)@ == old(self)@
                                    &&& res is Recycle
                                    &&& res->Recycle_0@ == rss_words(rss, limit)
                                } else if health_due(entry, old(self).limits(), now) {
                                    &&& res == (MaintenanceStep::CheckHealth {
                                        browser_ws_url: entry.browser_ws_url,
                                    })
                                    &&& final(self)@ == after(
                                        old(self)@,
                                        (PoolEvent::Checked { id, now }),
                                    )
                                } else {
                                    res is Keep && final(self)@ == old(self)@
                                }
                            },
                        },
                        MaintenanceEvent::HealthChecked(failure) => {
                            &&& final(self)@ == old(self)@
                            &&& match failure {
                                Some(error) => res is Recycle && res->Recycle_0@
                                    == "cdp health check failed: "@ + error.words(),
                                None => res is Keep,
                            }
                        },
                    }
                },
            },
    {
        let mut entry = match find_session(&self.sessions, id) {
            Some(entry) => entry,
            None => return MaintenanceStep::Keep,
        };
        match entry.state {
            SessionState::Killing | SessionState::Dead => return MaintenanceStep::Keep,
            _ => {},
        }
        match event {
            MaintenanceEvent::Visited(now) => {
                if span::ticks_since(entry.created_ticks, now.ticks)
                    > self.options.max_session_lifetime.as_nanos() {
                    return MaintenanceStep::Recycle("max session lifetime exceeded".to_owned());
                }
                let ready = match entry.state {
                    SessionState::Ready => true,
                    _ => false,
                };
                if ready && span::ticks_since(entry.last_used_ticks, now.ticks)
                    > self.options.max_idle_time.as_nanos() {
                    return MaintenanceStep::Recycle("max idle time exceeded".to_owned());
                }
                MaintenanceStep::Sample { pid: entry.pid }
            },
            MaintenanceEvent::Sampled { rss_bytes, now } => {
                let rss: u64 = match rss_bytes {
                    Some(rss) => rss,
                    None => return MaintenanceStep::Recycle("browser process exited".to_owned()),
                };
                let limit: u64 = self.options.per_session_rss_limit_bytes;
                if rss > limit {
                    let mut reason = "rss limit exceeded: ".to_owned();
                    text::push_decimal(&mut reason, rss);
                    reason.append(" > ");
                    text::push_decimal(&mut reason, limit);
                    return MaintenanceStep::Recycle(reason);
                }
                if span::ticks_since(entry.last_cdp_health_check, now.ticks)
                    >= self.options.cdp_health_interval.as_nanos() {
                    let browser_ws_url = entry.browser_ws_url.clone();
                    entry.last_cdp_health_check = now.ticks;
                    insert_session(&mut self.sessions, id, entry);
                    return MaintenanceStep::CheckHealth { browser_ws_url };
                }
                MaintenanceStep::Keep
            },
            MaintenanceEvent::HealthChecked(failure) => match failure {
                Some(error) => MaintenanceStep::Recycle(
                    "cdp health check failed: ".to_owned().concat(error.message().as_str()),
                ),
                None => MaintenanceStep::Keep,
            },
        }
    }

    /// Notes that a session was used, and that it is in use where that is said.
    fn note_use(&mut self, id: u128, in_use: bool, now: Now)
        requires
            old(self).wf(),
        ensures
            final(self).wf(),
            final(self).same_settings(*old(self)),
            final(self)@ == used(old(self)@, id, in_use, now),
    {
        match find_session(&self.sessions, id) {
            Some(entry) => {
                let mut entry = entry;
                if in_use {
                    entry.state = SessionState::InUse;
                }
                entry.last_used_at = now.wall;
                entry.last_used_ticks = now.ticks;
                insert_session(&mut self.sessions, id, entry);
            },
            None => {},
        }
    }
}

/// Whether a session is one that was taken out to be ended for a reason.
pub open spec fn ending(entry: SessionEntry, taken: SessionEntry, reason: Seq<char>) -> bool {
    &&& text::opt_text(taken.kill_reason) == Some(reason)
    &&& taken == (SessionEntry {
        state: SessionState::Killing,
        kill_reason: taken.kill_reason,
        ..entry
    })
}

/// The pool after a session was used, and taken into use where that is said.
pub open spec fn used(state: PoolState, id: u128, in_use: bool, now: Now) -> PoolState {
    match state.sessions.get(id) {
        Some(entry) => {
            let kept = if in_use {
                SessionEntry { state: SessionState::InUse, ..entry }
            } else {
                entry
            };
            PoolState { sessions: state.sessions.insert(id, touched(kept, now)), ..state }
        },
        None => state,
    }
}

/// Whether some pairs are the keys and values of a map, one of each.
pub open spec fn visits(pairs: Seq<(u128, SessionEntry)>, sessions: Map<u128, SessionEntry>) -> bool {
    &&& pairs.len() == sessions.dom().len()
    &&& forall|i: int, j: int|
        0 <= i < j < pairs.len() ==> (#[trigger] pairs[i]).0 != (#[trigger] pairs[j]).0
    &&& forall|i: int|
        0 <= i < pairs.len() ==> sessions.contains_key((#[trigger] pairs[i]).0) && pairs[i].1
            == sessions[pairs[i].0]
}

proof fn lemma_visits(pairs: Seq<(u128, SessionEntry)>, sessions: Map<u128, SessionEntry>)
    requires
        keys_of(pairs).no_duplicates(),
        keys_of(pairs).to_set() == sessions.dom(),
        forall|i: int|
            0 <= i < pairs.len() ==> (#[trigger] pairs[i]).1 == sessions[pairs[i].0],
    ensures
        visits(pairs, sessions),
{
    let keys = keys_of(pairs);
    keys.unique_seq_to_set();
    assert forall|i: int| 0 <= i < pairs.len() implies sessions.contains_key(
        (#[trigger] pairs[i]).0,
    ) by {
        assert(keys[i] == pairs[i].0);
        assert(keys.to_set().contains(keys[i]));
    }
    assert forall|i: int, j: int| 0 <= i < j < pairs.len() implies (#[trigger] pairs[i]).0 != (
    #[trigger] pairs[j]).0 by {
        assert(keys[i] == pairs[i].0 && keys[j] == pairs[j].0);
    }
}

impl SessionHandle {
    pub fn id(&self) -> (res: u128)
        ensures
            res == self@.id,
    {
        self.id
    }

    pub fn pid(&self) -> (res: u32)
        ensures
            res == self@.pid,
    {
        self.pid
    }

    pub fn browser_ws_url(&self) -> (res: &str)
        ensures
            res@ == self@.browser_ws_url,
    {
        self.browser_ws_url.as_str()
    }

    pub fn stealth_enabled(&self) -> (res: bool)
        ensures
            res == self@.stealth_enabled,
    {
        self.stealth_enabled
    }

    /// Notes that the session was used.
    pub fn touch(&self, pool: &mut SessionPool, now: Now)
        requires
            old(pool).wf(),
        ensures
            final(pool).wf(),
            final(pool).same_settings(*old(pool)),
            final(pool)@ == after(
                old(pool)@,
                (PoolEvent::Used { id: self@.id, in_use: false, now }),
            ),
    {
        pool.note_use(self.id, false, now);
    }

    /// Notes that the session was used and is in use.
    pub fn mark_in_use(&self, pool: &mut SessionPool, now: Now)
        requires
            old(pool).wf(),
        ensures
            final(pool).wf(),
            final(pool).same_settings(*old(pool)),
            final(pool)@ == after(
                old(pool)@,
                (PoolEvent::Used { id: self@.id, in_use: true, now }),
            ),
    {
        pool.note_use(self.id, true, now);
    }
}

/// There are never more sessions than the limit allows, also together with those
/// that are being launched or ended.
pub proof fn law_sessions_within_limit(pool: SessionPool)
    requires
        pool.wf(),
    ensures
        pool@.sessions.dom().len() + pool@.launching + pool@.departing
            <= pool.limits().max_concurrent_sessions,
{
}

/// Whatever happens to a pool, it is ready only once a launch has succeeded and none has
/// failed since.
pub proof fn law_ready_once_launched(events: Seq<PoolEvent>)
    ensures
        after_all(new_state(), events).launch_ready ==> exists|i: int|
            {
                &&& 0 <= i < events.len()
                &&& (#[trigger] events[i]) is Launched
                &&& forall|j: int| i < j < events.len() ==> !((#[trigger] events[j]) is LaunchFailed)
            },
    decreases events.len(),
{
    if events.len() > 0 && after_all(new_state(), events).launch_ready {
        let last = events.len() - 1;
        let before = events.drop_last();
        if events[last] is Launched {
        } else {
            law_ready_once_launched(before);
            let i = choose|i: int|
                {
                    &&& 0 <= i < before.len()
                    &&& (#[trigger] before[i]) is Launched
                    &&& forall|j: int|
                        i < j < before.len() ==> !((#[trigger] before[j]) is LaunchFailed)
                };
            assert(events[i] is Launched);
            assert forall|j: int| i < j < events.len() implies !((
            #[trigger] events[j]) is LaunchFailed) by {
                if j < last {
                    assert(events[j] == before[j]);
                }
            }
        }
    }
}

/// How many of some events are successful launches.
pub open spec fn launch_count(events: Seq<PoolEvent>) -> nat
    decreases events.len(),
{
    if events.len() == 0 {
        0
    } else {
        launch_count(events.drop_last()) + if events.last() is Launched {
            1nat
        } else {
            0
        }
    }
}

/// How many of some events turn a launch away.
pub open spec fn refusal_count(events: Seq<PoolEvent>) -> nat
    decreases events.len(),
{
    if events.len() == 0 {
        0
    } else {
        refusal_count(events.drop_last()) + if events.last() is TurnedAway {
            1nat
        } else {
            0
        }
    }
}

/// Whatever happens to a pool, its counters say how many sessions were created and how
/// many launches were turned away, until they start again at zero.
pub proof fn law_launches_are_counted(events: Seq<PoolEvent>)
    ensures
        after_all(new_state(), events).counters.created == launch_count(events)
            % 0x1_0000_0000_0000_0000,
        after_all(new_state(), events).counters.rejected == refusal_count(events)
            % 0x1_0000_0000_0000_0000,
    decreases events.len(),
{
    if events.len() > 0 {
        law_launches_are_counted(events.drop_last());
    }
}

/// A session that was launched can be found until it is ended: nothing else that
/// happens takes it out or puts another in its place.
pub proof fn law_sessions_last(state: PoolState, id: u128, event: PoolEvent)
    requires
        state.sessions.contains_key(id),
        event matches PoolEvent::Ended { id: ended, .. } ==> ended != id,
        event matches PoolEvent::Launched { id: new, .. } ==> new != id,
    ensures
        after(state, event).sessions.contains_key(id),
        after(state, event).sessions[id].pid == state.sessions[id].pid,
        after(state, event).sessions[id].browser_ws_url == state.sessions[id].browser_ws_url,
        after(state, event).sessions[id].created_ticks == state.sessions[id].created_ticks,
{
}

/// A session that does not name a profile gets one of its own that ends with it.
pub proof fn law_profiles_are_kept_on_request(
    outcome: Result<LaunchPlan, PoolError>,
    limits: PoolOptions,
    base: ChromeLaunchOptions,
    wanted: SessionOverrides,
)
    requires
        plans(outcome, limits, base, wanted),
        wanted.persistent_profile_id is None,
    ensures
        outcome is Ok,
        outcome->Ok_0.profile_dir is None,
{
}

/// A session is handed to one client: who connects to it after another is refused.
pub proof fn law_one_client_connects(state: PoolState, id: u128, first: Now)
    requires
        connect_outcome(state, id) is Connected,
    ensures
        connect_outcome(after_connect(state, id, first), id) is NotConnectable,
{
}

/// A session that was ended is not found any more: nobody connects to it, and
/// ending it again changes nothing.
pub proof fn law_ended_is_gone(state: PoolState, id: u128, reason: Seq<char>, again: Seq<char>)
    ensures
        connect_outcome(after_terminate(state, id, reason), id) is NotFound,
        after_terminate(after_terminate(state, id, reason), id, again) == after_terminate(
            state,
            id,
            reason,
        ),
{
}

/// To end a session leaves every other session as it is.
pub proof fn law_ending_spares_others(state: PoolState, id: u128, reason: Seq<char>, other: u128)
    requires
        other != id,
    ensures
        after_terminate(state, id, reason).sessions.get(other) == state.sessions.get(other),
{
}

/// To end a session frees no room before it is released.
pub proof fn law_ending_keeps_room(state: PoolState, id: u128, reason: Seq<char>)
    requires
        state.sessions.dom().finite(),
    ensures
        occupied(after_terminate(state, id, reason)) == occupied(state),
{
}

/// A session in use is not recycled for being idle: nothing but its age ends its turn.
pub proof fn law_use_is_not_idle(entry: SessionEntry, options: PoolOptions, now: Now)
    requires
        entry.state is InUse,
    ensures
        overdue(entry, options, now) is Some <==> span::elapsed(entry.created_ticks, now.ticks)
            > options.max_session_lifetime.total(),
{
}

/// Every reason for which maintenance ends a session is counted as what it is.
pub proof fn law_reasons_are_counted(rss: u64, limit: u64, error: BrowserError)
    ensures
        recycle_kind("max session lifetime exceeded"@) is Lifetime,
        recycle_kind("max idle time exceeded"@) is Idle,
        recycle_kind(rss_words(rss, limit)) is RssLimit,
        recycle_kind("browser process exited"@) is ProcessExit,
        recycle_kind("cdp health check failed: "@ + error.words()) is CdpUnhealthy,
{
    reveal_strlit("rss limit exceeded");
    reveal_strlit("max idle time exceeded");
    reveal_strlit("max session lifetime exceeded");
    reveal_strlit("browser process exited");
    reveal_strlit("cdp health check failed");
    reveal_strlit("rss limit exceeded: ");
    reveal_strlit("cdp health check failed: ");
    let life = "max session lifetime exceeded"@;
    let idle = "max idle time exceeded"@;
    let rss_reason = rss_words(rss, limit);
    let exit = "browser process exited"@;
    let sick = "cdp health check failed: "@ + error.words();
    lemma_other_start(life, "rss limit exceeded"@, 0);
    lemma_other_start(life, idle, 4);
    lemma_other_start(idle, "rss limit exceeded"@, 0);
    lemma_other_start(exit, "rss limit exceeded"@, 0);
    lemma_other_start(exit, idle, 0);
    lemma_other_start(exit, life, 0);
    lemma_other_start(sick, "rss limit exceeded"@, 0);
    lemma_other_start(sick, idle, 0);
    lemma_other_start(sick, life, 0);
    lemma_other_start(sick, exit, 0);
    assert(life.take(life.len() as int) =~= life);
    assert(idle.take(idle.len() as int) =~= idle);
    assert(exit.take(exit.len() as int) =~= exit);
    assert(rss_reason.take(18) =~= "rss limit exceeded"@);
    assert(sick.take(23) =~= "cdp health check failed"@);
}

/// A text does not begin with another from which it differs at some place.
proof fn lemma_other_start(whole: Seq<char>, start: Seq<char>, at: int)
    requires
        0 <= at < start.len(),
        at < whole.len(),
        whole[at] != start[at],
    ensures
        !text::has_prefix(whole, start),
{
}

/// The directory of a profile lies right inside the storage directory: behind it
/// comes a single name.
pub proof fn law_profile_stays_in_storage(storage_dir: Seq<char>, id: Seq<char>)
    requires
        is_profile_id(id),
    ensures
        profile_path(storage_dir, id).take(storage_dir.len() as int) == storage_dir,
        profile_path(storage_dir, id)[storage_dir.len() as int] == '/',
        forall|i: int|
            storage_dir.len() < i < profile_path(storage_dir, id).len() ==> !separates_paths(
                #[trigger] profile_path(storage_dir, id)[i],
            ),
{
    reveal_strlit("/");
    let path = profile_path(storage_dir, id);
    assert(path.take(storage_dir.len() as int) =~= storage_dir);
    assert forall|i: int| storage_dir.len() < i < path.len() implies !separates_paths(
        #[trigger] path[i],
    ) by {
        assert(path[i] == id[i - storage_dir.len() - 1]);
    }
}

/// A session for which nothing else is wanted is launched with the pool's own
/// command line.
pub proof fn law_plain_session_is_the_pools(
    dir: Seq<char>,
    options: ChromeLaunchOptions,
    base: ChromeLaunchOptions,
    wanted: SessionOverrides,
)
    requires
        overridden(options, base, wanted),
        wanted.stealth_enabled is None,
        wanted.extra_chrome_args@.len() == 0,
        wanted.proxy == base.proxy,
        wanted.extension_paths == base.extension_paths,
    ensures
        browser::command_line(dir, options) == browser::command_line(dir, base),
{
    assert(text::texts(options.additional_args@) =~= text::texts(base.additional_args@));
}

/// Where a caller wants no disguise, no flag of the disguise is on the command line.
pub proof fn law_disguise_can_be_declined(
    options: ChromeLaunchOptions,
    base: ChromeLaunchOptions,
    wanted: SessionOverrides,
)
    requires
        overridden(options, base, wanted),
        wanted.stealth_enabled == Some(false),
    ensures
        options.stealth.flags().len() == 0,
{
}

/// Every session that is not on its way out, in use or not, has its browser tried after a
/// measurement within the memory limit exactly when the time since its last try has reached
/// the interval; the try is then noted, and nothing else changes.
pub proof fn law_health_is_checked(
    state: PoolState,
    id: u128,
    options: PoolOptions,
    rss: u64,
    now: Now,
)
    requires
        state.sessions.contains_key(id),
        !(state.sessions[id].state is Killing),
        !(state.sessions[id].state is Dead),
        rss <= options.per_session_rss_limit_bytes,
    ensures
        ({
            let entry = state.sessions[id];
            let last = entry.last_cdp_health_check;
            let since: int = if now.ticks >= last {
                now.ticks - last
            } else {
                0
            };
            let done = maintained(
                state,
                id,
                options,
                (MaintenanceEvent::Sampled { rss_bytes: Some(rss), now }),
            );
            if since >= options.cdp_health_interval.total() {
                &&& done.1 == MaintenanceView::CheckHealth(entry.browser_ws_url)
                &&& done.0 == (PoolState {
                    sessions: state.sessions.insert(
                        id,
                        (SessionEntry { last_cdp_health_check: now.ticks, ..entry }),
                    ),
                    ..state
                })
            } else {
                done.1 is Keep && done.0 == state
            }
        }),
{
}

/// What is done about a session after a measurement or a try of its browser does not hang
/// on what the session is doing, unless it is on its way out.
pub proof fn law_upkeep_is_the_same_in_use(
    state: PoolState,
    id: u128,
    options: PoolOptions,
    event: MaintenanceEvent,
    other: SessionState,
)
    requires
        state.sessions.contains_key(id),
        !(state.sessions[id].state is Killing || state.sessions[id].state is Dead),
        !(other is Killing || other is Dead),
        !(event is Visited),
    ensures
        ({
            let changed = PoolState {
                sessions: state.sessions.insert(
                    id,
                    (SessionEntry { state: other, ..state.sessions[id] }),
                ),
                ..state
            };
            maintained(changed, id, options, event).1 == maintained(state, id, options, event).1
        }),
{
}

/// A session whose processes are gone is ended, and so is one that takes more memory than
/// its limit, with both numbers in the reason; the limit itself may be reached.
pub proof fn law_memory_is_limited(
    state: PoolState,
    id: u128,
    options: PoolOptions,
    rss: u64,
    now: Now,
)
    requires
        state.sessions.contains_key(id),
        !(state.sessions[id].state is Killing || state.sessions[id].state is Dead),
    ensures
        maintained(state, id, options, (MaintenanceEvent::Sampled { rss_bytes: None, now })) == (
            state,
            MaintenanceView::Recycle("browser process exited"@),
        ),
        ({
            let limit = options.per_session_rss_limit_bytes;
            let done = maintained(
                state,
                id,
                options,
                (MaintenanceEvent::Sampled { rss_bytes: Some(rss), now }),
            );
            &&& rss > limit ==> done == (
                state,
                MaintenanceView::Recycle(
                    "rss limit exceeded: "@ + text::decimal(rss as nat) + " > "@ + text::decimal(
                        limit as nat,
                    ),
                ),
            )
            &&& rss <= limit ==> !(done.1 is Recycle)
        }),
{
}

/// A session is ended once it is older than it may be, and one that nobody uses once it
/// has been idle for longer than it may be; otherwise its memory is measured.
pub proof fn law_old_and_idle_sessions_are_ended(
    state: PoolState,
    id: u128,
    options: PoolOptions,
    now: Now,
)
    requires
        state.sessions.contains_key(id),
        !(state.sessions[id].state is Killing || state.sessions[id].state is Dead),
        state.sessions[id].created_ticks <= now.ticks,
        state.sessions[id].last_used_ticks <= now.ticks,
    ensures
        ({
            let entry = state.sessions[id];
            let old_age = now.ticks - entry.created_ticks > options.max_session_lifetime.total();
            let idle = entry.state is Ready && now.ticks - entry.last_used_ticks
                > options.max_idle_time.total();
            let done = maintained(state, id, options, MaintenanceEvent::Visited(now));
            &&& done.0 == state
            &&& old_age ==> done.1 == MaintenanceView::Recycle("max session lifetime exceeded"@)
            &&& !old_age && idle ==> done.1 == MaintenanceView::Recycle("max idle time exceeded"@)
            &&& !old_age && !idle ==> done.1 == MaintenanceView::Sample(entry.pid)
        }),
{
}

/// A session whose browser did not answer is ended with the browser's fault as the reason;
/// one whose browser answered is kept.
pub proof fn law_deaf_browsers_are_ended(
    state: PoolState,
    id: u128,
    options: PoolOptions,
    error: BrowserError,
)
    requires
        state.sessions.contains_key(id),
        !(state.sessions[id].state is Killing || state.sessions[id].state is Dead),
    ensures
        maintained(state, id, options, MaintenanceEvent::HealthChecked(Some(error))) == (
            state,
            MaintenanceView::Recycle("cdp health check failed: "@ + error.words()),
        ),
        maintained(state, id, options, MaintenanceEvent::HealthChecked(None)) == (
            state,
            MaintenanceView::Keep,
        ),
{
}

/// Sessions that are not there, and those on their way out, are left alone.
pub proof fn law_ending_sessions_are_left_alone(
    state: PoolState,
    id: u128,
    options: PoolOptions,
    event: MaintenanceEvent,
)
    requires
        !state.sessions.contains_key(id) || state.sessions[id].state is Killing
            || state.sessions[id].state is Dead,
    ensures
        maintained(state, id, options, event) == (state, MaintenanceView::Keep),
{
}

/// A launch takes up room from the moment it is let in until it has led to a session, has
/// failed or is given up; a session takes it up until it was ended and released.
pub proof fn law_room_is_handed_on(state: PoolState, id: u128, entry: SessionEntry, words: Seq<char>)
    requires
        state.sessions.dom().finite(),
        !state.sessions.contains_key(id),
    ensures
        occupied(after(state, PoolEvent::LetIn)) == occupied(state) + 1,
        occupied(after(state, PoolEvent::TurnedAway)) == occupied(state),
        state.launching > 0 ==> {
            &&& occupied(after(state, (PoolEvent::Launched { id, entry }))) == occupied(state)
            &&& occupied(after(state, PoolEvent::LaunchFailed(words))) == occupied(state) - 1
            &&& occupied(after(state, PoolEvent::GivenUp)) == occupied(state) - 1
        },
        state.departing > 0 ==> occupied(after(state, PoolEvent::Released)) == occupied(state) - 1,
        occupied(after(state, (PoolEvent::Stopped { killed: true }))) == occupied(state),
{
}

/// A launch that succeeds puts its session under its number and counts it; the pool is
/// then ready and has no launch error.
pub proof fn law_launches_bring_sessions(state: PoolState, id: u128, entry: SessionEntry, other: u128)
    requires
        state.counters.created < u64::MAX,
    ensures
        ({
            let next = after(state, (PoolEvent::Launched { id, entry }));
            &&& next.sessions.contains_key(id) && next.sessions[id] == entry
            &&& other != id ==> next.sessions.contains_key(other) == state.sessions.contains_key(
                other,
            ) && next.sessions[other] == state.sessions[other]
            &&& next.counters.created == state.counters.created + 1
            &&& next.counters == (Counters {
                created: next.counters.created,
                ..state.counters
            })
            &&& next.launch_ready && next.launch_error is None
            &&& next.departing == state.departing
        }),
{
}

/// A launch that fails leaves the pool not ready, with the reason; one that is given up or
/// let in changes nothing but the number of launches, and one that is turned away is counted.
pub proof fn law_failed_launches_are_told(state: PoolState, words: Seq<char>)
    requires
        state.launching > 0,
        state.counters.rejected < u64::MAX,
    ensures
        ({
            let failed = after(state, PoolEvent::LaunchFailed(words));
            &&& !failed.launch_ready && failed.launch_error == Some(words)
            &&& failed.sessions == state.sessions && failed.counters == state.counters
            &&& failed.launching == state.launching - 1 && failed.departing == state.departing
        }),
        ({
            let given_up = after(state, PoolEvent::GivenUp);
            &&& given_up.launching == state.launching - 1
            &&& after(given_up, PoolEvent::LetIn) == state
        }),
        ({
            let refused = after(state, PoolEvent::TurnedAway);
            &&& refused.counters.rejected == state.counters.rejected + 1
            &&& refused == (PoolState {
                counters: Counters { rejected: refused.counters.rejected, ..state.counters },
                ..state
            })
        }),
{
}

/// Ending a session, stopping its browser and releasing its room: each changes what it
/// says and nothing else, and only a browser that was killed is counted as killed.
pub proof fn law_ends_are_counted(state: PoolState, id: u128, reason: Seq<char>)
    requires
        state.sessions.contains_key(id),
        state.counters.hard_killed < u64::MAX,
    ensures
        ({
            let ended = after(state, (PoolEvent::Ended { id, reason }));
            &&& ended.sessions == state.sessions.remove(id)
            &&& ended.departing == state.departing + 1
            &&& ended.launching == state.launching
            &&& ended.launch_ready == state.launch_ready
            &&& ended.launch_error == state.launch_error
            &&& ended.counters.created == state.counters.created
            &&& ended.counters.hard_killed == state.counters.hard_killed
            &&& ended.counters.rejected == state.counters.rejected
            &&& after(ended, PoolEvent::Released).departing == state.departing
        }),
        after(state, (PoolEvent::Stopped { killed: false })) == state,
        ({
            let killed = after(state, (PoolEvent::Stopped { killed: true }));
            &&& killed.counters.hard_killed == state.counters.hard_killed + 1
            &&& killed == (PoolState {
                counters: Counters { hard_killed: killed.counters.hard_killed, ..state.counters },
                ..state
            })
        }),
{
}

/// A session that is ended for a reason of maintenance is counted once, under that reason;
/// one that is ended for another reason is not counted.
pub proof fn law_each_reason_has_its_count(counters: Counters, kind: RecycleKind)
    requires
        counters.rss_limit_recycled < u64::MAX,
        counters.idle_recycled < u64::MAX,
        counters.lifetime_recycled < u64::MAX,
        counters.process_exit_recycled < u64::MAX,
        counters.cdp_unhealthy_recycled < u64::MAX,
    ensures
        ({
            let next = recycled(counters, kind);
            let one = |here: bool| -> int
                {
                    if here {
                        1
                    } else {
                        0
                    }
                };
            &&& next.rss_limit_recycled == counters.rss_limit_recycled + one(kind is RssLimit)
            &&& next.idle_recycled == counters.idle_recycled + one(kind is Idle)
            &&& next.lifetime_recycled == counters.lifetime_recycled + one(kind is Lifetime)
            &&& next.process_exit_recycled == counters.process_exit_recycled + one(
                kind is ProcessExit,
            )
            &&& next.cdp_unhealthy_recycled == counters.cdp_unhealthy_recycled + one(
                kind is CdpUnhealthy,
            )
            &&& next.created == counters.created && next.hard_killed == counters.hard_killed
                && next.rejected == counters.rejected
        }),
{
}

/// A full counter begins again at zero.
pub proof fn law_counts_go_round(count: u64)
    ensures
        count < u64::MAX ==> next_count(count) == count + 1,
        next_count(u64::MAX) == 0,
{
}

/// The kind of a reason is told by the words that it begins with, whatever follows them.
pub proof fn law_reasons_are_told_by_their_beginning(rest: Seq<char>)
    ensures
        recycle_kind("rss limit exceeded"@ + rest) is RssLimit,
        recycle_kind("max idle time exceeded"@ + rest) is Idle,
        recycle_kind("max session lifetime exceeded"@ + rest) is Lifetime,
        recycle_kind("browser process exited"@ + rest) is ProcessExit,
        recycle_kind("cdp health check failed"@ + rest) is CdpUnhealthy,
        recycle_kind("deleted"@ + rest) is Other,
{
    reveal_strlit("rss limit exceeded");
    reveal_strlit("max idle time exceeded");
    reveal_strlit("max session lifetime exceeded");
    reveal_strlit("browser process exited");
    reveal_strlit("cdp health check failed");
    reveal_strlit("deleted");
    lemma_begins("rss limit exceeded"@, rest);
    lemma_begins("max idle time exceeded"@, rest);
    lemma_begins("max session lifetime exceeded"@, rest);
    lemma_begins("browser process exited"@, rest);
    lemma_begins("cdp health check failed"@, rest);
    let idle = "max idle time exceeded"@ + rest;
    lemma_other_start(idle, "rss limit exceeded"@, 0);
    let lifetime = "max session lifetime exceeded"@ + rest;
    lemma_other_start(lifetime, "rss limit exceeded"@, 0);
    lemma_other_start(lifetime, "max idle time exceeded"@, 4);
    let exit = "browser process exited"@ + rest;
    lemma_other_start(exit, "rss limit exceeded"@, 0);
    lemma_other_start(exit, "max idle time exceeded"@, 0);
    lemma_other_start(exit, "max session lifetime exceeded"@, 0);
    let deaf = "cdp health check failed"@ + rest;
    lemma_other_start(deaf, "rss limit exceeded"@, 0);
    lemma_other_start(deaf, "max idle time exceeded"@, 0);
    lemma_other_start(deaf, "max session lifetime exceeded"@, 0);
    lemma_other_start(deaf, "browser process exited"@, 0);
    let other = "deleted"@ + rest;
    lemma_other_start(other, "rss limit exceeded"@, 0);
    lemma_other_start(other, "max idle time exceeded"@, 0);
    lemma_other_start(other, "max session lifetime exceeded"@, 0);
    lemma_other_start(other, "browser process exited"@, 0);
    lemma_other_start(other, "cdp health check failed"@, 0);
}

proof fn lemma_begins(start: Seq<char>, rest: Seq<char>)
    ensures
        text::has_prefix(start + rest, start),
{
    assert((start + rest).take(start.len() as int) =~= start);
}

/// Connecting to a session takes it into use now; it needs one that waits ready, and leaves
/// every other session, and every session that is not ready, as it was.
pub proof fn law_ready_sessions_are_connected_to(state: PoolState, id: u128, now: Now, other: u128)
    ensures
        ({
            let next = after(state, (PoolEvent::Connected { id, now }));
            let there = state.sessions.contains_key(id);
            let ready = there && state.sessions[id].state is Ready;
            &&& connect_outcome(state, id) is Connected <==> ready
            &&& connect_outcome(state, id) is NotConnectable <==> there && !ready
            &&& connect_outcome(state, id) is NotFound <==> !there
            &&& !ready ==> next == state
            &&& ready ==> {
                &&& next.sessions[id] == (SessionEntry {
                    state: SessionState::InUse,
                    last_used_at: now.wall,
                    last_used_ticks: now.ticks,
                    ..state.sessions[id]
                })
                &&& next.sessions.dom() == state.sessions.dom()
                &&& other != id ==> next.sessions[other] == state.sessions[other]
                &&& next == (PoolState { sessions: next.sessions, ..state })
            }
        }),
{
    let next = after(state, (PoolEvent::Connected { id, now }));
    assert(next.sessions.dom() =~= state.sessions.dom());
}

/// Using a session makes this the time of its last use; it changes what the session is
/// doing only where it is taken into use, and nothing of the other sessions.
pub proof fn law_use_is_noted(state: PoolState, id: u128, in_use: bool, now: Now, other: u128)
    ensures
        ({
            let next = after(state, (PoolEvent::Used { id, in_use, now }));
            &&& !state.sessions.contains_key(id) ==> next == state
            &&& state.sessions.contains_key(id) ==> {
                &&& next.sessions.dom() == state.sessions.dom()
                &&& next.sessions[id] == (SessionEntry {
                    state: if in_use {
                        SessionState::InUse
                    } else {
                        state.sessions[id].state
                    },
                    last_used_at: now.wall,
                    last_used_ticks: now.ticks,
                    ..state.sessions[id]
                })
                &&& other != id ==> next.sessions[other] == state.sessions[other]
                &&& next == (PoolState { sessions: next.sessions, ..state })
            }
        }),
{
    let next = after(state, (PoolEvent::Used { id, in_use, now }));
    if state.sessions.contains_key(id) {
        assert(next.sessions.dom() =~= state.sessions.dom());
    }
}

/// A new session is ready, was made, used and tried now, and has the browser's process and
/// address; its handle says the same.
pub proof fn law_new_sessions_are_ready(
    entry: SessionEntry,
    id: u128,
    stealth_enabled: bool,
    browser: LaunchedBrowser,
    now: Now,
)
    requires
        is_new_entry(entry, id, stealth_enabled, browser, now),
    ensures
        entry.id == id,
        entry.state is Ready,
        entry.kill_reason is None,
        entry.pid == browser.ready.pid,
        entry.browser_ws_url == browser.ready.browser_ws_url,
        entry.stealth_enabled == stealth_enabled,
        entry.created_at == now.wall && entry.last_used_at == now.wall,
        entry.created_ticks == now.ticks && entry.last_used_ticks == now.ticks,
        entry.last_cdp_health_check == now.ticks,
        handle_view(entry) == (HandleView {
            id,
            pid: browser.ready.pid,
            browser_ws_url: browser.ready.browser_ws_url@,
            stealth_enabled,
        }),
{
}

/// A session that is taken out keeps what it was but for its state and the reason.
pub proof fn law_ended_sessions_have_a_reason(
    entry: SessionEntry,
    taken: SessionEntry,
    reason: Seq<char>,
)
    requires
        ending(entry, taken, reason),
    ensures
        taken.state is Killing,
        taken.kill_reason is Some && taken.kill_reason->Some_0@ == reason,
        taken.id == entry.id && taken.pid == entry.pid,
        taken.browser_ws_url == entry.browser_ws_url,
        taken.stealth_enabled == entry.stealth_enabled,
        taken.created_ticks == entry.created_ticks,
        taken.last_used_ticks == entry.last_used_ticks,
{
}

/// What is told of a session is what the pool holds of it, its age and idle time in whole
/// seconds, and the measurement of its processes where there is one.
pub proof fn law_sessions_are_described(
    info: SessionInfo,
    entry: SessionEntry,
    sample: ResourceSample,
    now: Now,
)
    requires
        describes(info, entry, Some(sample), now),
        entry.created_ticks <= now.ticks,
        entry.last_used_ticks <= now.ticks,
        now.ticks < 1_000_000_000 * 0x1_0000_0000_0000_0000,
    ensures
        info.id == entry.id && info.state == entry.state,
        info.pid == Some(entry.pid),
        info.browser_ws_url == Some(entry.browser_ws_url),
        info.created_at == entry.created_at && info.last_used_at == entry.last_used_at,
        info.age_seconds == (now.ticks - entry.created_ticks) / 1_000_000_000,
        info.idle_seconds == (now.ticks - entry.last_used_ticks) / 1_000_000_000,
        info.rss_bytes == Some(sample.rss_bytes),
        info.cpu_percent == Some(sample.cpu),
        info.process_count == Some(sample.process_count),
        info.kill_reason == entry.kill_reason,
{
}

/// A session without a measurement is told of without one.
pub proof fn law_unmeasured_sessions_are_described(info: SessionInfo, entry: SessionEntry, now: Now)
    requires
        describes(info, entry, None, now),
    ensures
        info.rss_bytes is None && info.cpu_percent is None && info.process_count is None,
        info.id == entry.id && info.state == entry.state && info.pid == Some(entry.pid),
{
}

/// The measurement of a process is the first that was taken of it.
pub proof fn law_samples_are_found(samples: Seq<(u32, ResourceSample)>, pid: u32, k: int)
    requires
        0 <= k < samples.len(),
        samples[k].0 == pid,
        forall|i: int| 0 <= i < k ==> (#[trigger] samples[i]).0 != pid,
    ensures
        sample_of(samples, pid) == Some(samples[k].1),
    decreases samples.len(),
{
    if k > 0 {
        let rest = samples.skip(1);
        assert forall|i: int| 0 <= i < k - 1 implies (#[trigger] rest[i]).0 != pid by {
            assert(rest[i] == samples[i + 1]);
        }
        law_samples_are_found(rest, pid, k - 1);
    }
}

/// A process that was not measured has no measurement.
pub proof fn law_unsampled_processes_have_none(samples: Seq<(u32, ResourceSample)>, pid: u32)
    requires
        forall|i: int| 0 <= i < samples.len() ==> (#[trigger] samples[i]).0 != pid,
    ensures
        sample_of(samples, pid) is None,
    decreases samples.len(),
{
    if samples.len() > 0 {
        assert(samples[0].0 != pid);
        let rest = samples.skip(1);
        assert forall|i: int| 0 <= i < rest.len() implies (#[trigger] rest[i]).0 != pid by {
            assert(rest[i] == samples[i + 1]);
        }
        law_unsampled_processes_have_none(rest, pid);
    }
}

/// Every session of a pool is listed, once, with its own measurement.
pub proof fn law_all_sessions_are_listed(
    infos: Seq<SessionInfo>,
    sessions: Map<u128, SessionEntry>,
    samples: Seq<(u32, ResourceSample)>,
    now: Now,
    id: u128,
)
    requires
        lists(infos, sessions, samples, now),
        sessions.dom().finite(),
        sessions.contains_key(id),
    ensures
        exists|i: int|
            0 <= i < infos.len() && (#[trigger] infos[i]).id == id && infos[i].state
                == sessions[id].state && infos[i].pid == Some(sessions[id].pid)
                && infos[i].rss_bytes == match sample_of(samples, sessions[id].pid) {
                Some(sample) => Some(sample.rss_bytes),
                None => None,
            },
{
    let ids = Seq::new(infos.len(), |i: int| infos[i].id);
    assert forall|i: int, j: int| 0 <= i < ids.len() && 0 <= j < ids.len() && i != j implies ids[i]
        != ids[j] by {
        if i < j {
            assert(infos[i].id != infos[j].id);
        } else {
            assert(infos[j].id != infos[i].id);
        }
    }
    assert(ids.no_duplicates());
    ids.unique_seq_to_set();
    assert forall|other: u128| ids.to_set().contains(other) implies sessions.dom().contains(
        other,
    ) by {
        let i = choose|i: int| 0 <= i < ids.len() && ids[i] == other;
        assert(infos[i].id == other);
    }
    vstd::set_lib::lemma_subset_equality(ids.to_set(), sessions.dom());
    assert(ids.to_set().contains(id));
    let i = choose|i: int| 0 <= i < ids.len() && ids[i] == id;
    assert(infos[i].id == id);
}

/// The metrics of a pool are its counts, each under its own name, and those of its sessions.
pub proof fn law_metrics_are_the_counts(
    metrics: PoolMetrics,
    state: PoolState,
    limits: PoolOptions,
    samples: Seq<(u32, ResourceSample)>,
    now: Now,
)
    requires
        measures(metrics, state, limits, samples, now),
    ensures
        metrics.active_sessions == state.sessions.dom().len(),
        metrics.max_concurrent_sessions == limits.max_concurrent_sessions,
        metrics.sessions_created_total == state.counters.created,
        metrics.sessions_hard_killed_total == state.counters.hard_killed,
        metrics.sessions_rejected_total == state.counters.rejected,
        metrics.sessions_rss_limit_recycled_total == state.counters.rss_limit_recycled,
        metrics.sessions_idle_recycled_total == state.counters.idle_recycled,
        metrics.sessions_lifetime_recycled_total == state.counters.lifetime_recycled,
        metrics.sessions_process_exit_recycled_total == state.counters.process_exit_recycled,
        metrics.sessions_cdp_unhealthy_recycled_total == state.counters.cdp_unhealthy_recycled,
        metrics.sessions@.len() == state.sessions.dom().len(),
{
}

/// The metrics of a session are what is told of it, its number and state as texts.
pub proof fn law_session_metrics_are_its_own(metric: SessionMetric, info: SessionInfo)
    requires
        metric_describes(metric, info),
    ensures
        metric.id@ == id::id_name(info.id),
        metric.state@ == state_name(info.state),
        metric.pid == info.pid,
        metric.rss_bytes == info.rss_bytes,
        metric.process_count == info.process_count,
        metric.age_seconds == info.age_seconds,
        metric.idle_seconds == info.idle_seconds,
        info.cpu_percent is None ==> metric.cpu_percent is None,
        info.cpu_percent is Some ==> metric.cpu_percent == Some(info.cpu_percent->Some_0.shown),
{
}

/// The states of a session by name.
pub proof fn law_states_have_names()
    ensures
        state_name(SessionState::Launching) == "launching"@,
        state_name(SessionState::Ready) == "ready"@,
        state_name(SessionState::InUse) == "in_use"@,
        state_name(SessionState::Draining) == "draining"@,
        state_name(SessionState::Killing) == "killing"@,
        state_name(SessionState::Dead) == "dead"@,
{
}

/// The faults of a pool in words.
pub proof fn law_faults_have_words(id: u128, name: String, error: BrowserError)
    ensures
        PoolError::AtCapacity.words() == "session pool is at capacity"@,
        PoolError::CapacityTimeout.words() == "timed out waiting for browser capacity"@,
        PoolError::PersistentProfilesDisabled.words()
            == "persistent profiles are disabled; set EIGER_PROFILE_STORAGE_DIR"@,
        PoolError::InvalidPersistentProfileId(name).words() == "invalid persistent profile id: "@
            + name@,
        PoolError::NotFound(id).words() == "session not found: "@ + id::id_name(id),
        PoolError::NotConnectable(id).words() == "session is not connectable: "@ + id::id_name(id),
        PoolError::Browser(error).words() == "browser launch failed: "@ + error.words(),
{
}

/// A pool takes in another session just while there is room for one beside the sessions,
/// the launches and those not yet released, and the last launch succeeded.
pub proof fn law_pools_take_in_sessions(state: PoolState, limit: nat)
    ensures
        accepts(state, limit) <==> state.launching + state.sessions.dom().len() + state.departing
            < limit && state.launch_ready,
        !accepts(new_state(), limit),
{
}

/// Someone who waited for room is let in where it was granted, and is otherwise told that
/// the pool is full or that the time is over.
pub proof fn law_waits_are_answered()
    ensures
        admission(CapacityWait::Granted) is Ok,
        admission(CapacityWait::Closed) == Err::<(), PoolError>(PoolError::AtCapacity),
        admission(CapacityWait::TimedOut) == Err::<(), PoolError>(PoolError::CapacityTimeout),
{
}

/// A new pool is empty, has counted nothing and has not launched a browser.
pub proof fn law_pools_begin_empty()
    ensures
        new_state().sessions.dom().len() == 0,
        new_state().launching == 0 && new_state().departing == 0,
        !new_state().launch_ready && new_state().launch_error is None,
        new_state().counters.created == 0 && new_state().counters.hard_killed == 0
            && new_state().counters.rejected == 0,
        new_state().counters.rss_limit_recycled == 0 && new_state().counters.idle_recycled == 0
            && new_state().counters.lifetime_recycled == 0,
        new_state().counters.process_exit_recycled == 0
            && new_state().counters.cdp_unhealthy_recycled == 0,
{
    assert(new_state().sessions.dom() =~= Set::<u128>::empty());
}

/// A pool keeps to the limits of its configuration, each under its own name, and its
/// browsers are launched as configured, in a window of fixed size.
pub proof fn law_pools_follow_their_configuration(
    limits: PoolOptions,
    base: ChromeLaunchOptions,
    config: AppConfig,
)
    requires
        follows(limits, base, config),
    ensures
        limits.max_concurrent_sessions == config.pool.max_concurrent_sessions,
        limits.launch_queue_timeout == config.pool.launch_queue_timeout,
        limits.max_session_lifetime == config.pool.max_session_lifetime,
        limits.max_idle_time == config.pool.max_idle_time,
        limits.per_session_rss_limit_bytes == config.pool.per_session_rss_limit_bytes,
        limits.maintenance_interval == config.pool.maintenance_interval,
        limits.cdp_health_interval == config.pool.cdp_health_interval,
        limits.profile_storage_dir == config.browser.profile_storage_dir,
        base.executable == config.browser.executable,
        base.no_sandbox == config.browser.no_sandbox,
        base.launch_timeout == config.browser.launch_timeout,
        base.close_timeout == config.browser.close_timeout,
        base.terminate_timeout == config.browser.terminate_timeout,
        text::texts(base.additional_args@) == text::texts(config.browser.additional_args@),
        base.proxy is None && base.extension_paths@.len() == 0,
        base.stealth.enabled == config.stealth.enabled,
        base.stealth.user_agent == config.browser.user_agent,
        base.stealth.window_width == 1365 && base.stealth.window_height == 768,
{
}

/// A session gets what was wished for it: its disguise, its proxy and its extensions, and
/// its arguments behind those of the pool; all else is the pool's.
pub proof fn law_wishes_are_granted(
    plan: LaunchPlan,
    limits: PoolOptions,
    base: ChromeLaunchOptions,
    wanted: SessionOverrides,
)
    requires
        plans(Ok(plan), limits, base, wanted),
    ensures
        wanted.stealth_enabled is Some ==> plan.options.stealth.enabled
            == wanted.stealth_enabled->Some_0,
        wanted.stealth_enabled is None ==> plan.options.stealth.enabled == base.stealth.enabled,
        plan.options.stealth.user_agent == base.stealth.user_agent,
        plan.options.stealth.window_width == base.stealth.window_width,
        plan.options.stealth.window_height == base.stealth.window_height,
        plan.options.proxy == wanted.proxy,
        plan.options.extension_paths == wanted.extension_paths,
        text::texts(plan.options.additional_args@) == text::texts(base.additional_args@)
            + text::texts(wanted.extra_chrome_args@),
        plan.options.executable == base.executable,
        plan.options.no_sandbox == base.no_sandbox,
        plan.options.launch_timeout == base.launch_timeout,
        plan.options.close_timeout == base.close_timeout,
        plan.options.terminate_timeout == base.terminate_timeout,
        wanted.persistent_profile_id is None ==> plan.profile_dir is None,
        wanted.persistent_profile_id is Some ==> limits.profile_storage_dir is Some
            && plan.profile_dir is Some && plan.profile_dir->Some_0@
            == limits.profile_storage_dir->Some_0@ + "/"@ + wanted.persistent_profile_id->Some_0@,
{
}

/// A launch is planned unless a profile is wished for that cannot be kept: where nothing
/// is stored, or under a name that is no plain name of a directory.
pub proof fn law_profiles_can_be_refused(
    outcome: Result<LaunchPlan, PoolError>,
    limits: PoolOptions,
    base: ChromeLaunchOptions,
    wanted: SessionOverrides,
)
    requires
        plans(outcome, limits, base, wanted),
    ensures
        ({
            let name = wanted.persistent_profile_id->Some_0;
            let plain = name@.len() > 0 && name@ != "."@ && name@ != ".."@ && !name@.contains('/')
                && !name@.contains('\\') && !name@.contains('\0');
            &&& wanted.persistent_profile_id is None ==> outcome is Ok
            &&& wanted.persistent_profile_id is Some && limits.profile_storage_dir is None
                ==> outcome == Err::<LaunchPlan, PoolError>(PoolError::PersistentProfilesDisabled)
            &&& wanted.persistent_profile_id is Some && limits.profile_storage_dir is Some && !plain
                ==> outcome == Err::<LaunchPlan, PoolError>(
                PoolError::InvalidPersistentProfileId(name),
            )
            &&& wanted.persistent_profile_id is Some && limits.profile_storage_dir is Some && plain
                ==> outcome is Ok
        }),
{
    if wanted.persistent_profile_id is Some {
        let name = wanted.persistent_profile_id->Some_0@;
        assert forall|i: int| 0 <= i < name.len() && separates_paths(#[trigger] name[i]) implies (
        name.contains('/') || name.contains('\\') || name.contains('\0')) by {
            assert(name.contains(name[i]));
        }
        if name.contains('/') {
            let i = choose|i: int| 0 <= i < name.len() && name[i] == '/';
            assert(separates_paths(name[i]));
        }
        if name.contains('\\') {
            let i = choose|i: int| 0 <= i < name.len() && name[i] == '\\';
            assert(separates_paths(name[i]));
        }
        if name.contains('\0') {
            let i = choose|i: int| 0 <= i < name.len() && name[i] == '\0';
            assert(separates_paths(name[i]));
        }
    }
}

/// Different profiles are kept in different directories.
pub proof fn law_profiles_are_kept_apart(storage_dir: Seq<char>, one: Seq<char>, other: Seq<char>)
    requires
        one != other,
    ensures
        profile_path(storage_dir, one) != profile_path(storage_dir, other),
{
    let n = (storage_dir + "/"@).len() as int;
    assert(profile_path(storage_dir, one).skip(n) =~= one);
    assert(profile_path(storage_dir, other).skip(n) =~= other);
}

/// A step of maintenance is the one that is meant: of the same kind, for the same process,
/// browser or reason.
pub proof fn law_steps_are_the_ones_meant(step: MaintenanceStep, view: MaintenanceView)
    requires
        takes_step(step, view),
    ensures
        step is Keep <==> view is Keep,
        step is Sample <==> view is Sample,
        step is CheckHealth <==> view is CheckHealth,
        step is Recycle <==> view is Recycle,
        step is Sample ==> step->Sample_pid == view->Sample_0,
        step is CheckHealth ==> step->CheckHealth_browser_ws_url == view->CheckHealth_0,
        step is Recycle ==> step->Recycle_0@ == view->Recycle_0,
{
}

/// Every session of a pool stands under its own number, and the pool keeps its limits.
pub proof fn law_pools_are_kept_in_order(pool: SessionPool, other: SessionPool, id: u128)
    requires
        pool.wf(),
        pool.same_settings(other),
    ensures
        pool@.sessions.contains_key(id) ==> pool@.sessions[id].id == id,
        pool@.launching + pool@.sessions.dom().len() + pool@.departing
            <= pool.limits().max_concurrent_sessions,
        pool.room() == pool.limits().max_concurrent_sessions - pool@.launching
            - pool@.sessions.dom().len() - pool@.departing,
        pool.limits() == other.limits(),
        pool.launch_base() == other.launch_base(),
{
}

/// Who connects to a session that waits ready gets its handle; to one that does not, that
/// it cannot be connected to; and to none, that there is none; each under its number.
pub proof fn law_connections_are_answered(state: PoolState, id: u128)
    ensures
        ({
            let reply = connect_reply(state, id);
            let entry = state.sessions[id];
            let there = state.sessions.contains_key(id);
            &&& there && entry.state is Ready ==> reply == Ok::<HandleView, PoolError>(
                HandleView {
                    id: entry.id,
                    pid: entry.pid,
                    browser_ws_url: entry.browser_ws_url@,
                    stealth_enabled: entry.stealth_enabled,
                },
            )
            &&& there && !(entry.state is Ready) ==> reply == Err::<HandleView, PoolError>(
                PoolError::NotConnectable(id),
            )
            &&& !there ==> reply == Err::<HandleView, PoolError>(PoolError::NotFound(id))
        }),
{
}

/// Only a browser that had to be killed counts as killed: not one that closed, that ended on
/// SIGTERM, that had ended already, or whose end is unknown.
pub proof fn law_only_kills_count()
    ensures
        was_killed(Some(ShutdownKind::Killed)),
        !was_killed(Some(ShutdownKind::Graceful)),
        !was_killed(Some(ShutdownKind::Terminated)),
        !was_killed(Some(ShutdownKind::AlreadyExited)),
        !was_killed(None),
{
}

}
