//! The control core: which torrents exist, which peer belongs to which
//! torrent, the transfer counters, and the decision taken on each event.
//! The event loop performs each decision against the torrents and the
//! I/O subsystems and reports back what they answered.
use std::collections::HashMap;
use vstd::prelude::*;

use crate::hexid::{hex_decode, id_to_hash, ContentHash};
use crate::jobs::{after_tick, due_kinds, JobKind, JobManager, JobSlot};
use crate::server::{sat_add, ServerData};
use crate::table::{AddError, TorrentTable};

verus! {

broadcast use vstd::std_specs::hash::group_hash_axioms;

/// Tracker announce job interval.
pub const TRK_JOB_MS: u64 = 60000;
/// Unchoke rotation job interval.
pub const UNCHK_JOB_MS: u64 = 15000;
/// Session serialization job interval.
pub const SES_JOB_MS: u64 = 60000;
/// Interval of the transfer statistics job.
pub const TX_JOB_MS: u64 = 500;
/// Interval of the job timer, at which all jobs are examined.
pub const JOB_INT_MS: usize = 500;

/// An administrative command, reduced to what the core decides on. Ids
/// are the 40-hex-digit form of a content hash.
#[derive(Clone, Debug)]
pub enum Command {
    UpdateTorrent(String),
    AddTorrent { hash: ContentHash },
    UpdateFile { torrent_id: String },
    /// New rate caps; the id is echoed in the published update.
    UpdateServer { id: String, throttle_up: Option<u32>, throttle_down: Option<u32> },
    RemoveTorrent(String),
    Pause(String),
    Resume(String),
    Validate(Vec<String>),
    RemovePeer { torrent_id: String },
    RemoveTracker { torrent_id: String },
}

/// An event, reduced to what the core decides on.
#[derive(Clone, Debug)]
pub enum Event {
    /// A tracker response for the torrent with this id.
    Tracker(usize),
    TrackerError,
    /// A disk response for the torrent with this id.
    Disk(usize),
    DiskError,
    Rpc(Command),
    RpcError,
    /// An inbound peer asking for the torrent with this hash.
    Listener(ContentHash),
    ListenerError,
    /// A timer tick: the timer's id and the current time in milliseconds.
    Timer(usize, u64),
    /// An event of the peer with this id.
    Peer(usize),
}

/// A published transfer update of the server.
#[derive(Clone, Debug, PartialEq, Eq)]
pub struct TransferReport {
    pub id: String,
    pub rate_up: u64,
    pub rate_down: u64,
    pub transferred_up: u64,
    pub transferred_down: u64,
    pub ses_transferred_up: u64,
    pub ses_transferred_down: u64,
}

/// The server resource announced at start.
#[derive(Clone, Debug, PartialEq, Eq)]
pub struct ServerInfo {
    pub id: String,
    pub rate_up: u64,
    pub rate_down: u64,
    pub throttle_up: u32,
    pub throttle_down: u32,
    pub transferred_up: u64,
    pub transferred_down: u64,
    pub ses_transferred_up: u64,
    pub ses_transferred_down: u64,
    /// Start time, milliseconds since the Unix epoch.
    pub started_ms: i64,
}

/// What the event loop is to do after an event.
#[derive(Clone, Debug, PartialEq, Eq)]
pub enum Action {
    Nothing,
    /// Persist the session and stop.
    Terminate,
    /// Hand the event to the torrent with this id.
    Deliver(usize),
    /// Hand the command to each of these torrents, in order.
    DeliverAll(Vec<usize>),
    /// Build the new torrent under this id; it is already indexed.
    Create(usize),
    /// Delete the data of this torrent, which left both indices, and drop it.
    Delete(usize),
    /// Apply these rate caps and publish them under the id of the command.
    SetThrottle { id: String, up: u32, down: u32 },
    /// Refill the rate limiter and report what it returns to `record_rates`.
    RefreshRates,
    /// Release the peers that the rate limiter had blocked.
    FlushBlocked,
    /// Run these jobs, in order, then publish the report if there is one.
    RunJobs { due: Vec<JobKind>, publish: Option<TransferReport> },
}

pub open spec fn deliver_to(t: Option<usize>) -> Action {
    match t {
        Some(t) => Action::Deliver(t),
        None => Action::Nothing,
    }
}

pub open spec fn or_else(o: Option<u32>, d: u32) -> u32 {
    match o {
        Some(v) => v,
        None => d,
    }
}

/// Relies on `chrono::Utc::now`: the current time, in milliseconds since
/// the Unix epoch.
#[verifier::external_body]
fn now_millis() -> (r: i64) {
    chrono::Utc::now().timestamp_millis()
}

/// Shutting down and restarting keeps the set of torrents: registering,
/// one after another on a core with no torrents, the hashes read back from
/// the session directory gives a table that holds exactly those hashes,
/// one torrent for each where the hashes are distinct.
pub proof fn lemma_restart_keeps_hashes(steps: Seq<Control>, hs: Seq<Seq<u8>>)
    requires
        steps.len() == hs.len() + 1,
        steps[0].torrents() == Map::<usize, Seq<u8>>::empty(),
        steps[0].table().next_id() + hs.len() < usize::MAX,
        forall|i: int| 0 <= i < hs.len() ==> #[trigger] steps[i].restore_step(hs[i], &steps[i + 1]),
    ensures
        steps.last().hashes() == hs.to_set(),
        steps.last().torrents().dom().finite(),
        hs.no_duplicates() ==> steps.last().torrents().len() == hs.len(),
{
    lemma_restore_prefix(steps, hs, hs.len() as int);
    assert(hs.take(hs.len() as int) =~= hs);
}

/// Restoring one torrent with hash `h` into a core with no torrents gives
/// a table that holds just `h`, under the id that the counter stood at.
pub proof fn lemma_restore_one(c: Control, h: Seq<u8>, n: Control)
    requires
        c.torrents() == Map::<usize, Seq<u8>>::empty(),
        c.table().next_id() < usize::MAX,
        c.restore_step(h, &n),
    ensures
        n.torrents() == map![c.table().next_id() => h],
        n.table().next_id() == c.table().next_id() + 1,
        n.hashes() == set![h],
{
    assert(!c.table().contains_hash(h));
    assert(n.torrents() =~= map![c.table().next_id() => h]);
    assert(n.hashes() =~= set![h]) by {
        assert(n.torrents().contains_key(c.table().next_id()));
    }
}

proof fn lemma_restore_prefix(steps: Seq<Control>, hs: Seq<Seq<u8>>, k: int)
    requires
        0 <= k <= hs.len(),
        steps.len() == hs.len() + 1,
        steps[0].torrents() == Map::<usize, Seq<u8>>::empty(),
        steps[0].table().next_id() + hs.len() < usize::MAX,
        forall|i: int| 0 <= i < hs.len() ==> #[trigger] steps[i].restore_step(hs[i], &steps[i + 1]),
    ensures
        steps[k].hashes() == hs.take(k).to_set(),
        steps[k].table().next_id() <= steps[0].table().next_id() + k,
        steps[k].torrents().dom().finite(),
        hs.take(k).no_duplicates() ==> steps[k].torrents().len() == k,
    decreases k,
{
    if k == 0 {
        assert(steps[0].hashes() =~= Set::<Seq<u8>>::empty());
        assert(hs.take(0) =~= Seq::<Seq<u8>>::empty());
        assert(steps[0].torrents().dom() =~= Set::<usize>::empty());
    } else {
        assert(hs.take(k - 1) =~= hs.take(k).drop_last());
        if hs.take(k).no_duplicates() {
            assert(hs.take(k - 1).no_duplicates()) by {
                assert forall|i: int, j: int|
                    0 <= i < hs.take(k - 1).len() && 0 <= j < hs.take(k - 1).len() && i != j
                        implies #[trigger] hs.take(k - 1)[i] != #[trigger] hs.take(k - 1)[j] by {
                    assert(hs.take(k - 1)[i] == hs.take(k)[i]);
                    assert(hs.take(k - 1)[j] == hs.take(k)[j]);
                }
            }
        }
        lemma_restore_prefix(steps, hs, k - 1);
        let i = k - 1;
        assert(steps[i].restore_step(hs[i], &steps[i + 1]));
        assert(i + 1 == k);
        let a = steps[i];
        let b = steps[k];
        let h = hs[i];
        assert(hs.take(k) =~= hs.take(k - 1).push(h));
        hs.take(k - 1).lemma_push_to_set_commute(h);
        if !a.table().contains_hash(h) && a.table().next_id() < usize::MAX {
            let t = a.table().next_id();
            assert(b.torrents().dom() =~= a.torrents().dom().insert(t));
            assert(b.hashes() =~= a.hashes().insert(h)) by {
                assert forall|v: Seq<u8>| b.hashes().contains(v) implies #[trigger] a.hashes().insert(h).contains(v) by {
                    let k2 = choose|k2: usize| b.torrents().contains_key(k2) && b.torrents()[k2] == v;
                    if k2 != t {
                        assert(a.torrents().contains_key(k2) && a.torrents()[k2] == v);
                    }
                }
                assert forall|v: Seq<u8>| a.hashes().insert(h).contains(v) implies #[trigger] b.hashes().contains(v) by {
                    if v == h {
                        assert(b.torrents().contains_key(t) && b.torrents()[t] == v);
                    } else {
                        let k2 = choose|k2: usize| a.torrents().contains_key(k2) && a.torrents()[k2] == v;
                        assert(b.torrents().contains_key(k2) && b.torrents()[k2] == v);
                    }
                }
            }
        } else {
            assert(a.table().next_id() < usize::MAX);
            assert(a.table().contains_hash(h));
            let k2 = choose|k2: usize| a.table().view_map().contains_key(k2) && #[trigger] a.table().view_map()[k2] == h;
            assert(a.hashes().contains(h));
            assert(a.hashes().insert(h) =~= a.hashes());
            assert(b.hashes() =~= a.hashes());
            if hs.take(k).no_duplicates() {
                assert(hs.take(k - 1).to_set().contains(h));
                let j = choose|j: int| 0 <= j < hs.take(k - 1).len() && #[trigger] hs.take(k - 1)[j] == h;
                assert(hs.take(k)[j] == hs.take(k)[k - 1]);
                assert(false);
            }
        }
    }
}

/// The hex id that a command names a single torrent by, if it does.
pub open spec fn command_id(c: Command) -> Option<String> {
    match c {
        Command::UpdateTorrent(id) => Some(id),
        Command::UpdateFile { torrent_id } => Some(torrent_id),
        Command::RemoveTorrent(id) => Some(id),
        Command::Pause(id) => Some(id),
        Command::Resume(id) => Some(id),
        Command::RemovePeer { torrent_id } => Some(torrent_id),
        Command::RemoveTracker { torrent_id } => Some(torrent_id),
        _ => None,
    }
}

/// Whether a session directory entry names a torrent resume file: its
/// name is 40 bytes long, the length of a hex content hash. Any other
/// entry is passed over during recovery.
pub fn is_resume_file(name: &[u8]) -> (r: bool)
    ensures
        r == (name@.len() == 40),
{
    name.len() == 40
}

pub struct Control {
    table: TorrentTable,
    peers: HashMap<usize, usize>,
    throttle_id: usize,
    flush_id: usize,
    job_timer: usize,
    tx_rates: Option<(u64, u64)>,
    last_tx_rates: (u64, u64),
    jobs: JobManager,
    data: ServerData,
    throttle_up: u32,
    throttle_down: u32,
}

impl Control {
    pub closed spec fn table(&self) -> TorrentTable {
        self.table
    }

    /// Peer id to the id of the torrent that owns the peer.
    pub closed spec fn peers(&self) -> Map<usize, usize> {
        self.peers@
    }

    pub closed spec fn data(&self) -> ServerData {
        self.data
    }

    /// Refresh timer, flush timer and job timer ids.
    pub closed spec fn timers(&self) -> (usize, usize, usize) {
        (self.throttle_id, self.flush_id, self.job_timer)
    }

    /// Rates reported by the last refresh and not yet published.
    pub closed spec fn pending_rates(&self) -> Option<(u64, u64)> {
        self.tx_rates
    }

    /// Rates last published.
    pub closed spec fn last_rates(&self) -> (u64, u64) {
        self.last_tx_rates
    }

    pub closed spec fn jobs(&self) -> Seq<JobSlot> {
        self.jobs.slots()
    }

    /// Upload and download caps, in bytes per second.
    pub closed spec fn caps(&self) -> (u32, u32) {
        (self.throttle_up, self.throttle_down)
    }

    pub closed spec fn wf(&self) -> bool {
        self.table.wf() && self.data.wf()
    }

    /// Every hash of the secondary index leads through the primary index
    /// to a torrent with that hash, and no two torrents share a hash.
    pub proof fn lemma_indices_agree(&self, a: usize, b: usize, i: int)
        requires
            self.wf(),
        ensures
            0 <= i < self.table().index().len() ==> self.torrents().contains_key(
                self.table().index()[i].1,
            ) && self.torrents()[self.table().index()[i].1] == self.table().index()[i].0,
            self.torrents().contains_key(a) && self.torrents().contains_key(b) && a != b
                ==> self.torrents()[a] != self.torrents()[b],
    {
        if 0 <= i < self.table().index().len() {
            self.table.lemma_index_resolves(i);
        }
        if self.torrents().contains_key(a) && self.torrents().contains_key(b) && a != b {
            self.table.lemma_hashes_unique(a, b);
        }
    }

    /// Every torrent id in the table lies below the id counter, so the
    /// next id handed out is unused and no id is ever issued twice.
    pub proof fn lemma_ids_below_counter(&self, t: usize)
        requires
            self.wf(),
            self.torrents().contains_key(t),
        ensures
            t < self.table().next_id(),
            !self.torrents().contains_key(self.table().next_id()),
    {
        self.table.lemma_ids_below_counter(t);
    }

    /// The totals over all sessions never fall below this session's totals.
    pub proof fn lemma_counters_bounded(&self)
        requires
            self.wf(),
        ensures
            self.data().ul >= self.data().session_ul,
            self.data().dl >= self.data().session_dl,
    {
    }

    /// A command whose id is not 40 hex digits changes nothing and asks
    /// for nothing.
    pub proof fn lemma_non_hex_id_ignored(&self, c: Command, r: Action, n: &Control)
        requires
            self.rpc_answer(c, r),
            self.rpc_effect(c, n),
            command_id(c) matches Some(id) && hex_decode(id@) is None,
        ensures
            r == Action::Nothing,
            n.torrents() == self.torrents(),
            n.table().next_id() == self.table().next_id(),
            self.same_but_table(n),
    {
    }

    /// Adding a torrent whose hash is already present changes nothing.
    pub proof fn lemma_duplicate_add_ignored(&self, h: ContentHash, r: Action, n: &Control)
        requires
            self.rpc_answer(Command::AddTorrent { hash: h }, r),
            self.rpc_effect(Command::AddTorrent { hash: h }, n),
            self.table().contains_hash(h@),
        ensures
            r == Action::Nothing,
            n.torrents() == self.torrents(),
            n.table().next_id() == self.table().next_id(),
            self.same_but_table(n),
    {
    }

    pub open spec fn torrents(&self) -> Map<usize, Seq<u8>> {
        self.table().view_map()
    }

    /// The torrent that an RPC id names, if it decodes and is indexed.
    pub open spec fn resolve(&self, id: Seq<char>) -> Option<usize> {
        match hex_decode(id) {
            Some(h) => self.table().tid_of(h),
            None => None,
        }
    }

    /// The torrents that a list of RPC ids names, skipping the misses.
    pub open spec fn resolve_all(&self, ids: Seq<String>) -> Seq<usize>
        decreases ids.len(),
    {
        if ids.len() == 0 {
            Seq::empty()
        } else {
            let rest = self.resolve_all(ids.drop_last());
            match self.resolve(ids.last()@) {
                Some(t) => rest.push(t),
                None => rest,
            }
        }
    }

    /// The torrent that owns peer `pid`, where both are still known.
    pub open spec fn owner_of(&self, pid: usize) -> Option<usize> {
        if self.peers().contains_key(pid) && self.torrents().contains_key(self.peers()[pid]) {
            Some(self.peers()[pid])
        } else {
            None
        }
    }

    /// What publishing the pending rates returns and leaves behind.
    pub open spec fn tx_published(&self, r: Option<TransferReport>, n: &Control) -> bool {
        &&& n.pending_rates() is None
        &&& match self.pending_rates() {
            Some((u, d)) => if (u, d) == self.last_rates() {
                r is None && n.last_rates() == self.last_rates()
            } else {
                n.last_rates() == (u, d) && r == Some(
                    TransferReport {
                        id: self.data().id,
                        rate_up: u,
                        rate_down: d,
                        transferred_up: self.data().ul,
                        transferred_down: self.data().dl,
                        ses_transferred_up: self.data().session_ul,
                        ses_transferred_down: self.data().session_dl,
                    },
                )
            },
            None => r is None && n.last_rates() == self.last_rates(),
        }
    }

    /// The answer and the state after a timer tick at `now_ms`.
    pub open spec fn timer_step(&self, t: usize, now_ms: u64, r: Action, n: &Control) -> bool {
        if t == self.timers().0 {
            r == Action::RefreshRates && *n == *self
        } else if t == self.timers().1 {
            r == Action::FlushBlocked && *n == *self
        } else if t == self.timers().2 {
            &&& r matches Action::RunJobs { due, publish } && due@ == due_kinds(self.jobs(), now_ms)
                && self.tx_published(publish, n)
            &&& n.jobs() == self.jobs().map_values(|s: JobSlot| after_tick(s, now_ms))
            &&& n.torrents() == self.torrents()
            &&& n.table().next_id() == self.table().next_id()
            &&& n.peers() == self.peers()
            &&& n.data() == self.data()
            &&& n.timers() == self.timers()
            &&& n.caps() == self.caps()
        } else {
            r == Action::Nothing && *n == *self
        }
    }

    /// The content hashes of the torrents in the table.
    pub open spec fn hashes(&self) -> Set<Seq<u8>> {
        self.torrents().values()
    }

    /// `n` is `self` after registering a restored torrent with hash `h`.
    pub open spec fn restore_step(&self, h: Seq<u8>, n: &Control) -> bool {
        &&& self.same_but_table(n)
        &&& if !self.table().contains_hash(h) && self.table().next_id() < usize::MAX {
            &&& !self.torrents().contains_key(self.table().next_id())
            &&& n.torrents() == self.torrents().insert(self.table().next_id(), h)
            &&& n.table().next_id() == self.table().next_id() + 1
        } else {
            &&& n.torrents() == self.torrents()
            &&& n.table().next_id() == self.table().next_id()
        }
    }

    /// The answer to an event and the state after it.
    pub open spec fn event_step(&self, ev: Event, r: Action, n: &Control) -> bool {
        match ev {
            Event::Tracker(t) => r == (if self.torrents().contains_key(t) {
                Action::Deliver(t)
            } else {
                Action::Nothing
            }) && *n == *self,
            Event::Disk(t) => r == (if self.torrents().contains_key(t) {
                Action::Deliver(t)
            } else {
                Action::Nothing
            }) && *n == *self,
            Event::TrackerError => r == Action::Nothing && *n == *self,
            Event::DiskError => r == Action::Nothing && *n == *self,
            Event::ListenerError => r == Action::Nothing && *n == *self,
            Event::RpcError => r == Action::Terminate && *n == *self,
            Event::Rpc(c) => self.rpc_answer(c, r) && self.rpc_effect(c, n),
            Event::Listener(h) => r == deliver_to(self.table().tid_of(h@)) && *n
                == *self,
            Event::Timer(t, now_ms) => self.timer_step(t, now_ms, r, n),
            Event::Peer(pid) => r == deliver_to(self.owner_of(pid)) && *n
                == *self,
        }
    }

    /// Events never change the transfer counters; only what the rate
    /// limiter reports through `record_rates` adds to them, so this
    /// session's totals never decrease.
    pub proof fn lemma_events_keep_counters(&self, ev: Event, r: Action, n: &Control)
        requires
            self.event_step(ev, r, n),
        ensures
            n.data() == self.data(),
            n.data().session_ul >= self.data().session_ul,
            n.data().session_dl >= self.data().session_dl,
    {
    }

    /// Everything but the torrent table is the same in `o`.
    pub open spec fn same_but_table(&self, o: &Control) -> bool {
        &&& o.peers() == self.peers()
        &&& o.data() == self.data()
        &&& o.timers() == self.timers()
        &&& o.pending_rates() == self.pending_rates()
        &&& o.last_rates() == self.last_rates()
        &&& o.jobs() == self.jobs()
        &&& o.caps() == self.caps()
    }

    /// The answer to an RPC command.
    pub open spec fn rpc_answer(&self, c: Command, r: Action) -> bool {
        match c {
            Command::UpdateTorrent(id) => r == deliver_to(self.resolve(id@)),
            Command::AddTorrent { hash } => if !self.table().contains_hash(hash@)
                && self.table().next_id() < usize::MAX {
                r == Action::Create(self.table().next_id())
            } else {
                r == Action::Nothing
            },
            Command::UpdateFile { torrent_id } => r == deliver_to(self.resolve(torrent_id@)),
            Command::UpdateServer { id, throttle_up, throttle_down } => r == (Action::SetThrottle {
                id,
                up: or_else(throttle_up, self.caps().0),
                down: or_else(throttle_down, self.caps().1),
            }),
            Command::RemoveTorrent(id) => match self.resolve(id@) {
                Some(t) => r == Action::Delete(t),
                None => r == Action::Nothing,
            },
            Command::Pause(id) => r == deliver_to(self.resolve(id@)),
            Command::Resume(id) => r == deliver_to(self.resolve(id@)),
            Command::Validate(ids) => r matches Action::DeliverAll(v) && v@ == self.resolve_all(ids@),
            Command::RemovePeer { torrent_id } => r == deliver_to(self.resolve(torrent_id@)),
            Command::RemoveTracker { torrent_id } => r == deliver_to(self.resolve(torrent_id@)),
        }
    }

    /// The state after an RPC command.
    pub open spec fn rpc_effect(&self, c: Command, n: &Control) -> bool {
        match c {
            Command::AddTorrent { hash } => {
                &&& self.same_but_table(n)
                &&& if !self.table().contains_hash(hash@) && self.table().next_id() < usize::MAX {
                    &&& !self.torrents().contains_key(self.table().next_id())
                    &&& n.torrents() == self.torrents().insert(self.table().next_id(), hash@)
                    &&& n.table().next_id() == self.table().next_id() + 1
                } else {
                    &&& n.torrents() == self.torrents()
                    &&& n.table().next_id() == self.table().next_id()
                }
            },
            Command::UpdateServer { id: _, throttle_up, throttle_down } => {
                &&& n.caps() == (or_else(throttle_up, self.caps().0), or_else(
                    throttle_down,
                    self.caps().1,
                ))
                &&& n.torrents() == self.torrents()
                &&& n.table().next_id() == self.table().next_id()
                &&& n.peers() == self.peers()
                &&& n.data() == self.data()
                &&& n.timers() == self.timers()
                &&& n.pending_rates() == self.pending_rates()
                &&& n.last_rates() == self.last_rates()
                &&& n.jobs() == self.jobs()
            },
            Command::RemoveTorrent(id) => {
                &&& self.same_but_table(n)
                &&& n.table().next_id() == self.table().next_id()
                &&& match self.resolve(id@) {
                    Some(t) => n.torrents() == self.torrents().remove(t),
                    None => n.torrents() == self.torrents(),
                }
            },
            _ => *n == *self,
        }
    }
    /// A core with no torrents and no peers, three registered timers, the
    /// given rate caps and server record, and the four periodic jobs
    /// counted from `now_ms`.
    pub fn new(
        throttle_id: usize,
        flush_id: usize,
        job_timer: usize,
        throttle_up: u32,
        throttle_down: u32,
        data: ServerData,
        now_ms: u64,
    ) -> (r: Control)
        requires
            data.wf(),
        ensures
            r.wf(),
            r.torrents() == Map::<usize, Seq<u8>>::empty(),
            r.table().next_id() == 0,
            r.peers() == Map::<usize, usize>::empty(),
            r.data() == data,
            r.timers() == (throttle_id, flush_id, job_timer),
            r.caps() == (throttle_up, throttle_down),
            r.pending_rates() is None,
            r.last_rates() == (0u64, 0u64),
            r.jobs() == seq![
                JobSlot { kind: JobKind::TrackerUpdate, interval_ms: TRK_JOB_MS, last_run_ms: now_ms },
                JobSlot { kind: JobKind::UnchokeUpdate, interval_ms: UNCHK_JOB_MS, last_run_ms: now_ms },
                JobSlot { kind: JobKind::SessionUpdate, interval_ms: SES_JOB_MS, last_run_ms: now_ms },
                JobSlot { kind: JobKind::TorrentTxUpdate, interval_ms: TX_JOB_MS, last_run_ms: now_ms },
            ],
    {
        let mut jobs = JobManager::new();
        jobs.add_job(JobKind::TrackerUpdate, TRK_JOB_MS, now_ms);
        jobs.add_job(JobKind::UnchokeUpdate, UNCHK_JOB_MS, now_ms);
        jobs.add_job(JobKind::SessionUpdate, SES_JOB_MS, now_ms);
        jobs.add_job(JobKind::TorrentTxUpdate, TX_JOB_MS, now_ms);
        let r = Control {
            table: TorrentTable::new(),
            peers: HashMap::new(),
            throttle_id,
            flush_id,
            job_timer,
            tx_rates: None,
            last_tx_rates: (0, 0),
            jobs,
            data,
            throttle_up,
            throttle_down,
        };
        assert(r.jobs() =~= seq![
            JobSlot { kind: JobKind::TrackerUpdate, interval_ms: TRK_JOB_MS, last_run_ms: now_ms },
            JobSlot { kind: JobKind::UnchokeUpdate, interval_ms: UNCHK_JOB_MS, last_run_ms: now_ms },
            JobSlot { kind: JobKind::SessionUpdate, interval_ms: SES_JOB_MS, last_run_ms: now_ms },
            JobSlot { kind: JobKind::TorrentTxUpdate, interval_ms: TX_JOB_MS, last_run_ms: now_ms },
        ]);
        assert(r.peers() =~= Map::<usize, usize>::empty());
        r
    }

    /// The server record.
    pub fn server_data(&self) -> (r: &ServerData)
        ensures
            *r == self.data(),
    {
        &self.data
    }

    /// Replaces the server record, as read back at start.
    pub fn set_server_data(&mut self, data: ServerData)
        requires
            old(self).wf(),
            data.wf(),
        ensures
            final(self).wf(),
            final(self).data() == data,
            final(self).torrents() == old(self).torrents(),
            final(self).table().next_id() == old(self).table().next_id(),
            final(self).peers() == old(self).peers(),
            final(self).timers() == old(self).timers(),
            final(self).pending_rates() == old(self).pending_rates(),
            final(self).last_rates() == old(self).last_rates(),
            final(self).jobs() == old(self).jobs(),
            final(self).caps() == old(self).caps(),
    {
        self.data = data;
    }

    /// The number of torrents in the table.
    pub fn torrent_count(&self) -> (r: usize)
        ensures
            r == self.torrents().len(),
    {
        self.table.len()
    }

    /// The id that the next added torrent receives.
    pub fn next_tid(&self) -> (r: usize)
        ensures
            r == self.table().next_id(),
    {
        self.table.next_tid()
    }

    /// The torrent indexed under `h`.
    pub fn lookup(&self, h: &ContentHash) -> (r: Option<usize>)
        requires
            self.wf(),
        ensures
            r == self.table().tid_of(h@),
    {
        self.table.lookup(h)
    }

    /// The content hash of torrent `tid`.
    pub fn hash_of(&self, tid: usize) -> (r: Option<ContentHash>)
        ensures
            match r {
                Some(h) => self.torrents().contains_key(tid) && h@ == self.torrents()[tid],
                None => !self.torrents().contains_key(tid),
            },
    {
        self.table.hash_of(tid)
    }

    /// The rate caps, in bytes per second.
    pub fn throttle_caps(&self) -> (r: (u32, u32))
        ensures
            r == self.caps(),
    {
        (self.throttle_up, self.throttle_down)
    }

    /// The torrent that an RPC id names.
    fn resolve_id(&self, id: &String) -> (r: Option<usize>)
        requires
            self.wf(),
        ensures
            r == self.resolve(id@),
    {
        match id_to_hash(id.as_str()) {
            Some(h) => self.table.lookup(&h),
            None => None,
        }
    }

    fn deliver(&self, id: &String) -> (r: Action)
        requires
            self.wf(),
        ensures
            r == deliver_to(self.resolve(id@)),
    {
        match self.resolve_id(id) {
            Some(t) => Action::Deliver(t),
            None => Action::Nothing,
        }
    }

    /// Registers a torrent read back from the session directory under the
    /// next id; a hash already present is refused and leaves the table as
    /// it was.
    pub fn restore_torrent(&mut self, hash: &ContentHash) -> (r: Result<usize, AddError>)
        requires
            old(self).wf(),
        ensures
            final(self).wf(),
            old(self).restore_step(hash@, final(self)),
            old(self).table().contains_hash(hash@) ==> r == Err::<usize, AddError>(
                AddError::Duplicate,
            ),
            !old(self).table().contains_hash(hash@) && old(self).table().next_id() == usize::MAX
                ==> r == Err::<usize, AddError>(AddError::IdsExhausted),
            !old(self).table().contains_hash(hash@) && old(self).table().next_id() < usize::MAX
                ==> r == Ok::<usize, AddError>(old(self).table().next_id()),
    {
        self.table.insert(hash)
    }

    /// Decides on an RPC command and applies it to the tables and caps.
    pub fn handle_rpc_ev(&mut self, req: Command) -> (r: Action)
        requires
            old(self).wf(),
        ensures
            final(self).wf(),
            old(self).rpc_answer(req, r),
            old(self).rpc_effect(req, final(self)),
    {
        match req {
            Command::UpdateTorrent(id) => self.deliver(&id),
            Command::AddTorrent { hash } => {
                match self.table.insert(&hash) {
                    Ok(t) => Action::Create(t),
                    Err(_) => Action::Nothing,
                }
            },
            Command::UpdateFile { torrent_id } => self.deliver(&torrent_id),
            Command::UpdateServer { id, throttle_up, throttle_down } => {
                let up = match throttle_up {
                    Some(v) => v,
                    None => self.throttle_up,
                };
                let down = match throttle_down {
                    Some(v) => v,
                    None => self.throttle_down,
                };
                self.throttle_up = up;
                self.throttle_down = down;
                Action::SetThrottle { id, up, down }
            },
            Command::RemoveTorrent(id) => {
                match id_to_hash(id.as_str()) {
                    Some(h) => match self.table.remove(&h) {
                        Some(t) => Action::Delete(t),
                        None => Action::Nothing,
                    },
                    None => Action::Nothing,
                }
            },
            Command::Pause(id) => self.deliver(&id),
            Command::Resume(id) => self.deliver(&id),
            Command::Validate(ids) => {
                let mut v: Vec<usize> = Vec::new();
                let mut i: usize = 0;
                while i < ids.len()
                    invariant
                        self.wf(),
                        i <= ids@.len(),
                        v@ == self.resolve_all(ids@.take(i as int)),
                    decreases ids@.len() - i,
                {
                    assert(ids@.take(i as int + 1).drop_last() =~= ids@.take(i as int));
                    match self.resolve_id(&ids[i]) {
                        Some(t) => v.push(t),
                        None => {},
                    }
                    i = i + 1;
                }
                assert(ids@.take(ids@.len() as int) =~= ids@);
                Action::DeliverAll(v)
            },
            Command::RemovePeer { torrent_id } => self.deliver(&torrent_id),
            Command::RemoveTracker { torrent_id } => self.deliver(&torrent_id),
        }
    }
    /// Takes what the rate limiter reported for one refresh interval:
    /// `((rate_up, uploaded), (rate_down, downloaded))`. The rates wait to
    /// be published; the bytes go to the counters.
    pub fn record_rates(&mut self, update: Option<((u64, u64), (u64, u64))>)
        requires
            old(self).wf(),
        ensures
            final(self).wf(),
            final(self).torrents() == old(self).torrents(),
            final(self).table().next_id() == old(self).table().next_id(),
            final(self).peers() == old(self).peers(),
            final(self).timers() == old(self).timers(),
            final(self).last_rates() == old(self).last_rates(),
            final(self).jobs() == old(self).jobs(),
            final(self).caps() == old(self).caps(),
            final(self).data().session_ul >= old(self).data().session_ul,
            final(self).data().session_dl >= old(self).data().session_dl,
            final(self).data().id == old(self).data().id,
            match update {
                Some(((ulr, ul), (dlr, dl))) => {
                    &&& final(self).pending_rates() == Some((ulr, dlr))
                    &&& final(self).data().ul == sat_add(old(self).data().ul, ul)
                    &&& final(self).data().dl == sat_add(old(self).data().dl, dl)
                    &&& final(self).data().session_ul == sat_add(old(self).data().session_ul, ul)
                    &&& final(self).data().session_dl == sat_add(old(self).data().session_dl, dl)
                },
                None => final(self).pending_rates() == old(self).pending_rates() && final(self).data() == old(self).data(),
            },
    {
        if let Some(((ulr, ul), (dlr, dl))) = update {
            self.tx_rates = Some((ulr, dlr));
            self.data.record(ul, dl);
        }
    }

    /// Publishes the pending rates if they differ from those last
    /// published. The pending slot is emptied either way.
    pub fn update_rpc_tx(&mut self) -> (r: Option<TransferReport>)
        requires
            old(self).wf(),
        ensures
            final(self).wf(),
            final(self).torrents() == old(self).torrents(),
            final(self).table().next_id() == old(self).table().next_id(),
            final(self).peers() == old(self).peers(),
            final(self).data() == old(self).data(),
            final(self).timers() == old(self).timers(),
            final(self).jobs() == old(self).jobs(),
            final(self).caps() == old(self).caps(),
            old(self).tx_published(r, final(self)),
    {
        match self.tx_rates {
            Some((rate_up, rate_down)) => {
                self.tx_rates = None;
                if rate_up == self.last_tx_rates.0 && rate_down == self.last_tx_rates.1 {
                    return None;
                }
                self.last_tx_rates = (rate_up, rate_down);
                Some(
                    TransferReport {
                        id: self.data.id.clone(),
                        rate_up,
                        rate_down,
                        transferred_up: self.data.ul,
                        transferred_down: self.data.dl,
                        ses_transferred_up: self.data.session_ul,
                        ses_transferred_down: self.data.session_dl,
                    },
                )
            },
            None => None,
        }
    }

    /// Records that torrent `tid` accepted a peer under `pid`; nothing is
    /// recorded when no such torrent exists.
    pub fn add_peer(&mut self, pid: usize, tid: usize) -> (r: bool)
        requires
            old(self).wf(),
        ensures
            final(self).wf(),
            r == old(self).torrents().contains_key(tid),
            r ==> final(self).peers() == old(self).peers().insert(pid, tid),
            !r ==> final(self).peers() == old(self).peers(),
            r ==> final(self).torrents().contains_key(final(self).peers()[pid]),
            final(self).table() == old(self).table(),
            final(self).data() == old(self).data(),
            final(self).timers() == old(self).timers(),
            final(self).pending_rates() == old(self).pending_rates(),
            final(self).last_rates() == old(self).last_rates(),
            final(self).jobs() == old(self).jobs(),
            final(self).caps() == old(self).caps(),
    {
        if self.table.contains(tid) {
            self.peers.insert(pid, tid);
            true
        } else {
            false
        }
    }

    /// Forgets peer `pid` after its torrent reported it failed; returns
    /// whether it was known.
    pub fn remove_peer(&mut self, pid: usize) -> (r: bool)
        requires
            old(self).wf(),
        ensures
            final(self).wf(),
            r == old(self).peers().contains_key(pid),
            final(self).peers() == old(self).peers().remove(pid),
            final(self).table() == old(self).table(),
            final(self).data() == old(self).data(),
            final(self).timers() == old(self).timers(),
            final(self).pending_rates() == old(self).pending_rates(),
            final(self).last_rates() == old(self).last_rates(),
            final(self).jobs() == old(self).jobs(),
            final(self).caps() == old(self).caps(),
    {
        self.peers.remove(&pid).is_some()
    }

    /// The torrent that owns peer `pid`, if both are still known.
    pub fn peer_owner(&self, pid: usize) -> (r: Option<usize>)
        ensures
            r == self.owner_of(pid),
    {
        match self.peers.get(&pid) {
            Some(t) => if self.table.contains(*t) {
                Some(*t)
            } else {
                None
            },
            None => None,
        }
    }

    /// The server resource to announce at start.
    pub fn server_info(&self) -> (r: ServerInfo)
        ensures
            r.id == self.data().id,
            r.rate_up == 0 && r.rate_down == 0,
            r.throttle_up == 0 && r.throttle_down == 0,
            r.transferred_up == self.data().ul,
            r.transferred_down == self.data().dl,
            r.ses_transferred_up == self.data().session_ul,
            r.ses_transferred_down == self.data().session_dl,
    {
        ServerInfo {
            id: self.data.id.clone(),
            rate_up: 0,
            rate_down: 0,
            throttle_up: 0,
            throttle_down: 0,
            transferred_up: self.data.ul,
            transferred_down: self.data.dl,
            ses_transferred_up: self.data.session_ul,
            ses_transferred_down: self.data.session_dl,
            started_ms: now_millis(),
        }
    }
    /// Decides on one event and applies it to the core's state.
    pub fn handle_event(&mut self, ev: Event) -> (r: Action)
        requires
            old(self).wf(),
        ensures
            final(self).wf(),
            old(self).event_step(ev, r, final(self)),
    {
        match ev {
            Event::Tracker(t) => if self.table.contains(t) {
                Action::Deliver(t)
            } else {
                Action::Nothing
            },
            Event::Disk(t) => if self.table.contains(t) {
                Action::Deliver(t)
            } else {
                Action::Nothing
            },
            Event::TrackerError => Action::Nothing,
            Event::DiskError => Action::Nothing,
            Event::ListenerError => Action::Nothing,
            Event::RpcError => Action::Terminate,
            Event::Rpc(c) => self.handle_rpc_ev(c),
            Event::Listener(h) => match self.table.lookup(&h) {
                Some(t) => Action::Deliver(t),
                None => Action::Nothing,
            },
            Event::Timer(t, now_ms) => {
                if t == self.throttle_id {
                    Action::RefreshRates
                } else if t == self.flush_id {
                    Action::FlushBlocked
                } else if t == self.job_timer {
                    let due = self.jobs.update(now_ms);
                    let publish = self.update_rpc_tx();
                    Action::RunJobs { due, publish }
                } else {
                    Action::Nothing
                }
            },
            Event::Peer(pid) => match self.peer_owner(pid) {
                Some(t) => Action::Deliver(t),
                None => Action::Nothing,
            },
        }
    }
}

} // verus!
