//! The periodic jobs and the schedule that says which of them are due.
use vstd::prelude::*;

verus! {

/// A periodic job that the control loop runs against every torrent.
#[derive(Clone, Copy, Debug, PartialEq, Eq, Structural)]
pub enum JobKind {
    /// Announce to trackers where an announce is due.
    TrackerUpdate,
    /// Rotate unchoked peers.
    UnchokeUpdate,
    /// Write each torrent's resume data.
    SessionUpdate,
    /// Publish each torrent's transfer deltas.
    TorrentTxUpdate,
}

/// One registered job: what it is, how often it runs, when it last ran.
#[derive(Clone, Copy, Debug, PartialEq, Eq, Structural)]
pub struct JobSlot {
    pub kind: JobKind,
    pub interval_ms: u64,
    pub last_run_ms: u64,
}

/// A job is due once its interval has passed since it last ran.
pub open spec fn is_due(s: JobSlot, now_ms: u64) -> bool {
    now_ms >= s.last_run_ms && now_ms - s.last_run_ms >= s.interval_ms
}

/// The slot after a tick at `now_ms`.
pub open spec fn after_tick(s: JobSlot, now_ms: u64) -> JobSlot {
    if is_due(s, now_ms) {
        JobSlot { last_run_ms: now_ms, ..s }
    } else {
        s
    }
}

/// The kinds of the due jobs, in registration order.
pub open spec fn due_kinds(jobs: Seq<JobSlot>, now_ms: u64) -> Seq<JobKind>
    decreases jobs.len(),
{
    if jobs.len() == 0 {
        Seq::empty()
    } else {
        let rest = due_kinds(jobs.drop_last(), now_ms);
        if is_due(jobs.last(), now_ms) {
            rest.push(jobs.last().kind)
        } else {
            rest
        }
    }
}

/// The registered jobs, in registration order.
pub struct JobManager {
    jobs: Vec<JobSlot>,
}

impl JobManager {
    pub closed spec fn slots(&self) -> Seq<JobSlot> {
        self.jobs@
    }

    pub fn new() -> (r: JobManager)
        ensures
            r.slots() == Seq::<JobSlot>::empty(),
    {
        JobManager { jobs: Vec::new() }
    }

    /// Registers a job that runs every `interval_ms`, counted from `now_ms`.
    pub fn add_job(&mut self, kind: JobKind, interval_ms: u64, now_ms: u64)
        ensures
            final(self).slots() == old(self).slots().push(
                JobSlot { kind, interval_ms, last_run_ms: now_ms },
            ),
    {
        self.jobs.push(JobSlot { kind, interval_ms, last_run_ms: now_ms });
    }

    /// Marks every due job as run at `now_ms` and returns the kinds of
    /// those jobs, in registration order.
    pub fn update(&mut self, now_ms: u64) -> (r: Vec<JobKind>)
        ensures
            r@ == due_kinds(old(self).slots(), now_ms),
            final(self).slots() == old(self).slots().map_values(|s: JobSlot| after_tick(s, now_ms)),
            forall|i: int|
                0 <= i < old(self).slots().len() && old(self).slots()[i].last_run_ms <= now_ms
                    ==> #[trigger] final(self).slots()[i].last_run_ms <= now_ms,
    {
        let ghost old_jobs = self.jobs@;
        let mut r: Vec<JobKind> = Vec::new();
        let mut i: usize = 0;
        while i < self.jobs.len()
            invariant
                i <= self.jobs@.len(),
                self.jobs@.len() == old_jobs.len(),
                r@ == due_kinds(old_jobs.take(i as int), now_ms),
                forall|k: int| 0 <= k < i ==> #[trigger] self.jobs@[k] == after_tick(old_jobs[k], now_ms),
                forall|k: int| i <= k < self.jobs@.len() ==> #[trigger] self.jobs@[k] == old_jobs[k],
            decreases self.jobs@.len() - i,
        {
            let s = self.jobs[i];
            assert(old_jobs.take(i as int + 1).drop_last() =~= old_jobs.take(i as int));
            if now_ms >= s.last_run_ms && now_ms - s.last_run_ms >= s.interval_ms {
                r.push(s.kind);
                self.jobs.set(i, JobSlot { last_run_ms: now_ms, ..s });
            }
            i = i + 1;
        }
        assert(old_jobs.take(old_jobs.len() as int) =~= old_jobs);
        assert(self.jobs@ =~= old_jobs.map_values(|s: JobSlot| after_tick(s, now_ms)));
        r
    }
}

} // verus!
