//! The server's job manager: the authoritative job store, the worker
//! registry, the FIFO scheduling policy, and the maintenance sweep that
//! repatriates jobs from lost workers.
//!
//! Jobs and workers get ids from monotonic counters; the stores are
//! vectors indexed by id, where a removed entry leaves `None` behind.
//! The waiting list holds exactly the ids of Pending jobs, in ascending
//! order, so the smallest waiting id is the oldest submission.

use vstd::prelude::*;
use vstd::std_specs::vec::spec_vec_len;
use crate::idlist;
use crate::idlist::sorted_strict;
use crate::jobs::{Job, JobInfo, JobStatus};
use crate::resources::Resources;
use crate::workers::{SystemInfo, WorkerInfo};

verus! {

/// Everything the server keeps per connected worker: the handle shown to
/// clients, the connection-alive flag, and the per-session job sets of the
/// offer protocol.
pub struct WorkerEntry {
    pub info: WorkerInfo,
    /// Cleared when the owning connection ends; the next maintenance sweep
    /// reaps the entry and requeues its jobs.
    pub alive: bool,
    /// Jobs in Offered state bound to this worker.
    pub offered_jobs: Vec<u64>,
    /// Jobs in Running state bound to this worker.
    pub running_jobs: Vec<u64>,
    /// Offers the worker deferred; cleared when it reports more resources.
    pub deferred_jobs: Vec<u64>,
    /// Offers the worker rejected; sticky for the whole session.
    pub rejected_jobs: Vec<u64>,
    /// Jobs a client asked to kill; drained into KillJob messages.
    pub kill_jobs: Vec<u64>,
}

impl WorkerEntry {
    /// All per-worker id lists are strictly ascending.
    pub open spec fn lists_sorted(&self) -> bool {
        &&& sorted_strict(self.offered_jobs@)
        &&& sorted_strict(self.running_jobs@)
        &&& sorted_strict(self.deferred_jobs@)
        &&& sorted_strict(self.rejected_jobs@)
        &&& sorted_strict(self.kill_jobs@)
    }

    /// The worker holds this job, as an offer or as a running child.
    pub open spec fn holds(&self, id: u64) -> bool {
        self.offered_jobs@.contains(id) || self.running_jobs@.contains(id)
    }

    /// Jobs this worker must not be offered again right now.
    pub open spec fn excluded(&self, id: u64) -> bool {
        self.deferred_jobs@.contains(id) || self.rejected_jobs@.contains(id)
    }
}

/// The job id is live: inside the store and not removed.
pub open spec fn live(jobs: Seq<Option<Job>>, id: u64) -> bool {
    id < jobs.len() && jobs[id as int] is Some
}

/// Record of a live job.
pub open spec fn record(jobs: Seq<Option<Job>>, id: u64) -> Job {
    jobs[id as int]->Some_0
}

/// Status of a live job.
pub open spec fn status_of(jobs: Seq<Option<Job>>, id: u64) -> JobStatus {
    record(jobs, id).info.status
}

/// Live job entries carry the id they are filed under.
pub open spec fn jobs_ok(jobs: Seq<Option<Job>>) -> bool {
    forall|i: int|
        0 <= i < jobs.len() && #[trigger] jobs[i] is Some ==> jobs[i]->Some_0.info.job_id
            == i as u64
}

/// The waiting list holds exactly the ids of Pending jobs, ascending.
pub open spec fn waiting_ok(jobs: Seq<Option<Job>>, waiting: Seq<u64>) -> bool {
    &&& sorted_strict(waiting)
    &&& forall|k: int|
        0 <= k < waiting.len() ==> live(jobs, #[trigger] waiting[k]) && status_of(
            jobs,
            waiting[k],
        ) is Pending
    &&& forall|i: int|
        0 <= i < jobs.len() && #[trigger] jobs[i] is Some && jobs[i]->Some_0.info.status is Pending
            ==> waiting.contains(i as u64)
}

/// The worker id is live in the registry.
pub open spec fn worker_live(workers: Seq<Option<WorkerEntry>>, id: u64) -> bool {
    id < workers.len() && workers[id as int] is Some
}

/// Entry of a live worker.
pub open spec fn entry_of(workers: Seq<Option<WorkerEntry>>, id: u64) -> WorkerEntry {
    workers[id as int]->Some_0
}

/// Live worker entries carry their id, keep ordered job lists, and every
/// job in an offered/running list is a live job whose status names exactly
/// this worker. This is what makes a job's holder unique.
pub open spec fn workers_ok(jobs: Seq<Option<Job>>, workers: Seq<Option<WorkerEntry>>) -> bool {
    forall|w: int|
        0 <= w < workers.len() && #[trigger] workers[w] is Some ==> {
            let e = workers[w]->Some_0;
            &&& e.info.worker_id == w as u64
            &&& e.lists_sorted()
            &&& forall|id: u64|
                #[trigger] e.offered_jobs@.contains(id) ==> live(jobs, id) && status_of(jobs, id)
                    == (JobStatus::Offered { worker_id: w as u64 })
            &&& forall|id: u64|
                #[trigger] e.running_jobs@.contains(id) ==> live(jobs, id) && (status_of(
                    jobs,
                    id,
                ) matches JobStatus::Running { worker_id, .. } && worker_id == w as u64)
        }
}

/// A job whose status names a holder is listed by that worker.
pub open spec fn holders_ok(jobs: Seq<Option<Job>>, workers: Seq<Option<WorkerEntry>>) -> bool {
    forall|i: int|
        0 <= i < jobs.len() && #[trigger] jobs[i] is Some ==> match jobs[i]->Some_0.info.status {
            JobStatus::Offered { worker_id } => worker_live(workers, worker_id) && entry_of(
                workers,
                worker_id,
            ).offered_jobs@.contains(i as u64),
            JobStatus::Running { worker_id, .. } => worker_live(workers, worker_id) && entry_of(
                workers,
                worker_id,
            ).running_jobs@.contains(i as u64),
            _ => true,
        }
}

/// The character content of an optional text.
pub open spec fn text_view(t: Option<String>) -> Option<Seq<char>> {
    match t {
        Some(s) => Some(s@),
        None => None,
    }
}

/// What a stored output text becomes when a report arrives: absent stays
/// absent only when nothing came, and new text goes after what is there.
pub open spec fn merged_text(cur: Option<Seq<char>>, incoming: Option<Seq<char>>) -> Option<
    Seq<char>,
> {
    match (cur, incoming) {
        (None, v) => v,
        (Some(a), None) => Some(a),
        (Some(a), Some(b)) => Some(a + b),
    }
}

/// Relies on String::push_str: appends the characters of `t` to `s`.
#[verifier::external_body]
fn append_str(s: &mut String, t: &str)
    ensures
        final(s)@ == old(s)@ + t@,
{
    s.push_str(t)
}

/// Appends an incoming text to a stored one, as `merged_text` says.
fn merge_text(slot: &mut Option<String>, incoming: Option<String>)
    ensures
        text_view(*final(slot)) == merged_text(text_view(*old(slot)), text_view(incoming)),
{
    let mut cur: Option<String> = None;
    core::mem::swap(slot, &mut cur);
    let merged: Option<String> = match (cur, incoming) {
        (None, v) => v,
        (Some(a), None) => Some(a),
        (Some(mut a), Some(b)) => {
            append_str(&mut a, b.as_str());
            Some(a)
        },
    };
    *slot = merged;
}

/// Some worker with an id below `bound` is dead and still holds this job.
pub open spec fn held_by_dead_before(
    workers: Seq<Option<WorkerEntry>>,
    id: u64,
    bound: int,
) -> bool {
    exists|w: int|
        0 <= w < bound && #[trigger] workers[w] is Some && !workers[w]->Some_0.alive
            && workers[w]->Some_0.holds(id)
}

/// Some dead worker still holds this job.
pub open spec fn held_by_dead(workers: Seq<Option<WorkerEntry>>, id: u64) -> bool {
    held_by_dead_before(workers, id, workers.len() as int)
}

/// Counts of the live jobs per state, the total runtime of the finished
/// ones, and how many finished. Succeeded means exit code zero; a nonzero
/// exit or a Failed status counts as failed.
#[verifier::ext_equal]
pub ghost struct JobTally {
    pub pending: int,
    pub offered: int,
    pub running: int,
    pub succeeded: int,
    pub failed: int,
    pub canceled: int,
    pub finished_count: int,
    pub finished_runtime_total: int,
}

impl JobTally {
    pub open spec fn zero() -> JobTally {
        JobTally {
            pending: 0,
            offered: 0,
            running: 0,
            succeeded: 0,
            failed: 0,
            canceled: 0,
            finished_count: 0,
            finished_runtime_total: 0,
        }
    }

    /// One more job of this status.
    pub open spec fn plus(self, status: JobStatus) -> JobTally {
        match status {
            JobStatus::Pending => JobTally { pending: self.pending + 1, ..self },
            JobStatus::Offered { .. } => JobTally { offered: self.offered + 1, ..self },
            JobStatus::Running { .. } => JobTally { running: self.running + 1, ..self },
            JobStatus::Finished { return_code, run_time_seconds, .. } => JobTally {
                succeeded: if return_code == 0 {
                    self.succeeded + 1
                } else {
                    self.succeeded
                },
                failed: if return_code != 0 {
                    self.failed + 1
                } else {
                    self.failed
                },
                finished_count: self.finished_count + 1,
                // a nonsense negative runtime report counts as zero
                finished_runtime_total: self.finished_runtime_total + (
                if run_time_seconds >= 0 {
                    run_time_seconds as int
                } else {
                    0
                }),
                ..self
            },
            JobStatus::Canceled { .. } => JobTally { canceled: self.canceled + 1, ..self },
            JobStatus::Failed { .. } => JobTally { failed: self.failed + 1, ..self },
        }
    }
}

/// Tally of the live jobs from index `i` on.
pub open spec fn tally_from(jobs: Seq<Option<Job>>, i: int) -> JobTally
    decreases jobs.len() - i,
{
    if 0 <= i < jobs.len() {
        let rest = tally_from(jobs, i + 1);
        match jobs[i] {
            Some(job) => rest.plus(job.info.status),
            None => rest,
        }
    } else {
        JobTally::zero()
    }
}

/// Every count in a tally of the jobs from `i` on is bounded by the
/// number of slots counted, and the runtime total by that number of
/// maximal runtimes.
pub proof fn lemma_tally_bounds(jobs: Seq<Option<Job>>, i: int)
    requires
        0 <= i <= jobs.len(),
    ensures
        ({
            let t = tally_from(jobs, i);
            let n = jobs.len() - i;
            &&& 0 <= t.pending <= n
            &&& 0 <= t.offered <= n
            &&& 0 <= t.running <= n
            &&& 0 <= t.succeeded <= n
            &&& 0 <= t.failed <= n
            &&& 0 <= t.canceled <= n
            &&& 0 <= t.finished_count <= n
            &&& 0 <= t.finished_runtime_total <= t.finished_count * (i64::MAX as int)
        }),
    decreases jobs.len() - i,
{
    let t = tally_from(jobs, i);
    if i < jobs.len() {
        lemma_tally_bounds(jobs, i + 1);
        let prev = tally_from(jobs, i + 1);
        assert(prev.finished_count * (i64::MAX as int) + i64::MAX as int == (prev.finished_count
            + 1) * (i64::MAX as int)) by (nonlinear_arith);
    }
}

/// What became of a RemoveJob request.
pub enum RemoveOutcome {
    /// No live job has this id.
    NotFound,
    /// The job was deleted from the store.
    Deleted,
    /// The job runs on a worker; a KillJob will go out on that worker's
    /// next turn.
    KillRequested,
    /// The job runs and `kill` was not asked: nothing happened.
    Refused,
}

/// The process-wide scheduler state.
pub struct Manager {
    /// Authoritative job store, indexed by job id; `None` marks a job that
    /// was removed or cleaned.
    pub jobs: Vec<Option<Job>>,
    /// Ids of Pending jobs, ascending (FIFO by submission).
    pub jobs_waiting_for_assignment: Vec<u64>,
    /// Worker registry, indexed by worker id; `None` marks a reaped worker.
    pub workers: Vec<Option<WorkerEntry>>,
}

impl Manager {
    /// The job id is live in the store.
    pub open spec fn has_job(&self, id: u64) -> bool {
        live(self.jobs@, id)
    }

    pub open spec fn job_at(&self, id: u64) -> Job {
        record(self.jobs@, id)
    }

    pub open spec fn job_status(&self, id: u64) -> JobStatus {
        status_of(self.jobs@, id)
    }

    /// The worker id is live in the registry.
    pub open spec fn has_worker(&self, id: u64) -> bool {
        worker_live(self.workers@, id)
    }

    pub open spec fn worker_at(&self, id: u64) -> WorkerEntry {
        entry_of(self.workers@, id)
    }

    /// The scheduler invariant; every operation preserves it.
    pub open spec fn wf(&self) -> bool {
        &&& jobs_ok(self.jobs@)
        &&& waiting_ok(self.jobs@, self.jobs_waiting_for_assignment@)
        &&& workers_ok(self.jobs@, self.workers@)
        &&& holders_ok(self.jobs@, self.workers@)
    }

    /// An empty manager: no jobs, no workers.
    pub fn new() -> (r: Manager)
        ensures
            r.wf(),
            r.jobs@.len() == 0,
            r.jobs_waiting_for_assignment@.len() == 0,
            r.workers@.len() == 0,
    {
        Manager { jobs: Vec::new(), jobs_waiting_for_assignment: Vec::new(), workers: Vec::new() }
    }

    /// Registers a new worker to process jobs and returns its fresh id.
    pub fn add_new_worker(&mut self, name: String, now: i64) -> (r: u64)
        requires
            old(self).wf(),
            old(self).workers@.len() < u64::MAX,
        ensures
            final(self).wf(),
            r == old(self).workers@.len(),
            final(self).has_worker(r),
            final(self).worker_at(r).info.worker_name@ == name@,
            final(self).worker_at(r).alive,
            final(self).worker_at(r).offered_jobs@.len() == 0,
            final(self).worker_at(r).running_jobs@.len() == 0,
            final(self).worker_at(r).deferred_jobs@.len() == 0,
            final(self).worker_at(r).rejected_jobs@.len() == 0,
            final(self).workers@.len() == old(self).workers@.len() + 1,
            forall|w: int| 0 <= w < old(self).workers@.len() ==> final(self).workers@[w] == old(
                self,
            ).workers@[w],
            final(self).jobs@ == old(self).jobs@,
            final(self).jobs_waiting_for_assignment@ == old(self).jobs_waiting_for_assignment@,
    {
        let worker_id = self.workers.len() as u64;
        let entry = WorkerEntry {
            info: WorkerInfo {
                worker_id,
                worker_name: name,
                system_info: SystemInfo::unknown(),
                available_resources: Resources::new(0, 0, 0),
                last_seen_at: now,
            },
            alive: true,
            offered_jobs: Vec::new(),
            running_jobs: Vec::new(),
            deferred_jobs: Vec::new(),
            rejected_jobs: Vec::new(),
            kill_jobs: Vec::new(),
        };
        self.workers.push(Some(entry));
        proof {
            let jobs = self.jobs@;
            let pre = old(self).workers@;
            let post = self.workers@;
            assert(workers_ok(jobs, post)) by {
                assert forall|w: int| 0 <= w < post.len() && #[trigger] post[w] is Some implies {
                    let e = post[w]->Some_0;
                    &&& e.info.worker_id == w as u64
                    &&& e.lists_sorted()
                    &&& forall|id: u64|
                        #[trigger] e.offered_jobs@.contains(id) ==> live(jobs, id) && status_of(
                            jobs,
                            id,
                        ) == (JobStatus::Offered { worker_id: w as u64 })
                    &&& forall|id: u64|
                        #[trigger] e.running_jobs@.contains(id) ==> live(jobs, id) && (status_of(
                            jobs,
                            id,
                        ) matches JobStatus::Running { worker_id, .. } && worker_id == w as u64)
                } by {
                    if w < pre.len() {
                        assert(post[w] == pre[w]);
                    } else {
                        let e = post[w]->Some_0;
                        assert(e.offered_jobs@.len() == 0);
                        assert(forall|id: u64| !e.offered_jobs@.contains(id));
                        assert(forall|id: u64| !e.running_jobs@.contains(id));
                    }
                }
            }
            assert(holders_ok(jobs, post)) by {
                assert forall|i: int|
                    0 <= i < jobs.len() && #[trigger] jobs[i] is Some implies match jobs[i]->Some_0.info.status {
                    JobStatus::Offered { worker_id } => worker_live(post, worker_id) && entry_of(
                        post,
                        worker_id,
                    ).offered_jobs@.contains(i as u64),
                    JobStatus::Running { worker_id, .. } => worker_live(post, worker_id)
                        && entry_of(post, worker_id).running_jobs@.contains(i as u64),
                    _ => true,
                } by {
                    assert(holders_ok(jobs, pre));
                    match jobs[i]->Some_0.info.status {
                        JobStatus::Offered { worker_id } => {
                            assert(post[worker_id as int] == pre[worker_id as int]);
                        }
                        JobStatus::Running { worker_id, .. } => {
                            assert(post[worker_id as int] == pre[worker_id as int]);
                        }
                        _ => {}
                    }
                }
            }
        }
        worker_id
    }

    /// Adds a new job to be processed: a fresh id, a Pending record, and a
    /// seat at the end of the waiting list.
    pub fn add_new_job(
        &mut self,
        cmd: Vec<String>,
        cwd: String,
        required_resources: Resources,
        now: i64,
    ) -> (r: JobInfo)
        requires
            old(self).wf(),
            old(self).jobs@.len() < u64::MAX,
        ensures
            final(self).wf(),
            r.job_id == old(self).jobs@.len(),
            r.status is Pending,
            r.cmd@.map_values(|s: String| s@) == cmd@.map_values(|s: String| s@),
            r.cwd@ == cwd@,
            r.required_resources == required_resources,
            r.issued_at == now,
            final(self).jobs@.len() == old(self).jobs@.len() + 1,
            final(self).has_job(r.job_id),
            final(self).job_status(r.job_id) is Pending,
            forall|i: int| 0 <= i < old(self).jobs@.len() ==> final(self).jobs@[i] == old(
                self,
            ).jobs@[i],
            final(self).jobs_waiting_for_assignment@ == old(
                self,
            ).jobs_waiting_for_assignment@.push(r.job_id),
            final(self).workers@ == old(self).workers@,
    {
        let job_id = self.jobs.len() as u64;
        let info = JobInfo::new(job_id, cmd, cwd, required_resources, now);
        let ret = info.clone();
        let job = Job { info, stdout_text: None, stderr_text: None };
        self.jobs.push(Some(job));
        proof {
            let pre = old(self).jobs@;
            let post = self.jobs@;
            let waiting = self.jobs_waiting_for_assignment@;
            assert forall|y: u64| waiting.contains(y) implies y < job_id by {
                let k = choose|k: int| 0 <= k < waiting.len() && waiting[k] == y;
                assert(live(pre, y));
            }
            assert(!waiting.contains(job_id));
        }
        idlist::insert_id(&mut self.jobs_waiting_for_assignment, job_id);
        proof {
            let pre = old(self).jobs@;
            let post = self.jobs@;
            let wpre = old(self).jobs_waiting_for_assignment@;
            let wpost = self.jobs_waiting_for_assignment@;
            assert(wpost == wpre.push(job_id));
            assert(jobs_ok(post));
            assert(waiting_ok(post, wpost)) by {
                assert forall|k: int|
                    0 <= k < wpost.len() implies live(post, #[trigger] wpost[k]) && status_of(
                    post,
                    wpost[k],
                ) is Pending by {
                    if k < wpre.len() {
                        assert(wpost[k] == wpre[k]);
                        assert(live(pre, wpre[k]));
                        assert(post[wpre[k] as int] == pre[wpre[k] as int]);
                    } else {
                        assert(wpost[k] == job_id);
                    }
                }
                assert forall|i: int|
                    0 <= i < post.len() && #[trigger] post[i] is Some
                        && post[i]->Some_0.info.status is Pending implies wpost.contains(
                    i as u64,
                ) by {
                    if i < pre.len() {
                        assert(post[i] == pre[i]);
                        assert(wpre.contains(i as u64));
                        let k = choose|k: int| 0 <= k < wpre.len() && wpre[k] == i as u64;
                        assert(wpost[k] == i as u64);
                    } else {
                        assert(wpost[wpost.len() - 1] == job_id);
                    }
                }
            }
            assert(workers_ok(post, self.workers@)) by {
                assert forall|w: int|
                    0 <= w < self.workers@.len() && #[trigger] self.workers@[w] is Some implies {
                    let e = self.workers@[w]->Some_0;
                    &&& e.info.worker_id == w as u64
                    &&& e.lists_sorted()
                    &&& forall|id: u64|
                        #[trigger] e.offered_jobs@.contains(id) ==> live(post, id) && status_of(
                            post,
                            id,
                        ) == (JobStatus::Offered { worker_id: w as u64 })
                    &&& forall|id: u64|
                        #[trigger] e.running_jobs@.contains(id) ==> live(post, id) && (status_of(
                            post,
                            id,
                        ) matches JobStatus::Running { worker_id, .. } && worker_id == w as u64)
                } by {
                    let e = self.workers@[w]->Some_0;
                    assert forall|id: u64| #[trigger] e.offered_jobs@.contains(id) implies live(
                        post,
                        id,
                    ) && status_of(post, id) == (JobStatus::Offered { worker_id: w as u64 }) by {
                        assert(live(pre, id));
                        assert(post[id as int] == pre[id as int]);
                    }
                    assert forall|id: u64| #[trigger] e.running_jobs@.contains(id) implies live(
                        post,
                        id,
                    ) && (status_of(post, id) matches JobStatus::Running { worker_id, .. }
                        && worker_id == w as u64) by {
                        assert(live(pre, id));
                        assert(post[id as int] == pre[id as int]);
                    }
                }
            }
            assert(holders_ok(post, self.workers@)) by {
                assert forall|i: int|
                    0 <= i < post.len() && #[trigger] post[i] is Some implies match post[i]->Some_0.info.status {
                    JobStatus::Offered { worker_id } => worker_live(self.workers@, worker_id)
                        && entry_of(self.workers@, worker_id).offered_jobs@.contains(i as u64),
                    JobStatus::Running { worker_id, .. } => worker_live(self.workers@, worker_id)
                        && entry_of(self.workers@, worker_id).running_jobs@.contains(i as u64),
                    _ => true,
                } by {
                    if i < pre.len() {
                        assert(post[i] == pre[i]);
                    }
                }
            }
        }
        ret
    }

    /// Get a copy of the record of the job with this id, if it is live.
    pub fn get_job(&self, id: u64) -> (r: Option<JobInfo>)
        ensures
            match r {
                Some(info) => self.has_job(id) && info@ == self.job_at(id).info@,
                None => !self.has_job(id),
            },
    {
        if id < self.jobs.len() as u64 {
            match &self.jobs[id as usize] {
                Some(job) => Some(job.info.clone()),
                None => None,
            }
        } else {
            None
        }
    }

    /// The output texts the job's worker has reported, if the job is live.
    pub fn get_job_outputs(&self, id: u64) -> (r: Option<(Option<String>, Option<String>)>)
        ensures
            match r {
                Some((out, err)) => {
                    &&& self.has_job(id)
                    &&& (match (out, self.job_at(id).stdout_text) {
                        (Some(a), Some(b)) => a@ == b@,
                        (None, None) => true,
                        _ => false,
                    })
                    &&& (match (err, self.job_at(id).stderr_text) {
                        (Some(a), Some(b)) => a@ == b@,
                        (None, None) => true,
                        _ => false,
                    })
                },
                None => !self.has_job(id),
            },
    {
        if id >= self.jobs.len() as u64 {
            return None;
        }
        match &self.jobs[id as usize] {
            Some(job) => {
                let out = match &job.stdout_text {
                    Some(s) => Some(s.clone()),
                    None => None,
                };
                let err = match &job.stderr_text {
                    Some(s) => Some(s.clone()),
                    None => None,
                };
                Some((out, err))
            }
            None => None,
        }
    }

    /// Copies of all live job records, ascending by id: sound (every entry
    /// mirrors a live job) and complete (every live job appears).
    pub fn get_all_job_infos(&self) -> (r: Vec<JobInfo>)
        requires
            self.wf(),
        ensures
            forall|k: int|
                0 <= k < r@.len() ==> self.has_job(#[trigger] r@[k].job_id) && r@[k]@ == self.job_at(
                    r@[k].job_id,
                ).info@,
            forall|k1: int, k2: int| 0 <= k1 < k2 < r@.len() ==> r@[k1].job_id < r@[k2].job_id,
            forall|i: int|
                0 <= i < self.jobs@.len() && #[trigger] self.jobs@[i] is Some ==> exists|k: int|
                    0 <= k < r@.len() && #[trigger] r@[k].job_id == i as u64,
    {
        let mut r: Vec<JobInfo> = Vec::new();
        let mut i: usize = 0;
        while i < self.jobs.len()
            invariant
                i <= self.jobs@.len(),
                self.wf(),
                forall|k: int|
                    0 <= k < r@.len() ==> self.has_job(#[trigger] r@[k].job_id) && r@[k]@
                        == self.job_at(r@[k].job_id).info@,
                forall|k: int| 0 <= k < r@.len() ==> #[trigger] r@[k].job_id < i,
                forall|k1: int, k2: int| 0 <= k1 < k2 < r@.len() ==> r@[k1].job_id < r@[k2].job_id,
                forall|j: int|
                    0 <= j < i && #[trigger] self.jobs@[j] is Some ==> exists|k: int|
                        0 <= k < r@.len() && #[trigger] r@[k].job_id == j as u64,
            decreases self.jobs.len() - i,
        {
            match &self.jobs[i] {
                Some(job) => {
                    proof {
                        assert(self.jobs@[i as int] is Some);
                        assert(job.info.job_id == i as u64);
                    }
                    let ghost rpre = r@;
                    r.push(job.info.clone());
                    proof {
                        assert(r@[r@.len() - 1].job_id == i as u64);
                        assert forall|j: int|
                            0 <= j < i + 1 && #[trigger] self.jobs@[j] is Some implies exists|
                            k: int,
                        |
                            0 <= k < r@.len() && #[trigger] r@[k].job_id == j as u64 by {
                            if j < i {
                                let k = choose|k: int|
                                    0 <= k < rpre.len() && #[trigger] rpre[k].job_id == j as u64;
                                assert(r@[k].job_id == j as u64);
                            } else {
                                assert(r@[r@.len() - 1].job_id == j as u64);
                            }
                        }
                    }
                }
                None => {}
            }
            i += 1;
        }
        r
    }

    /// Picks the job this worker shall be offered next: the smallest
    /// waiting id not in `exclude`. The removal from the waiting list, the
    /// transition to Offered and the note in the worker's offered list are
    /// one atomic step, so the waiting list never disagrees with the
    /// statuses. Returns `None`, and changes nothing, when every waiting
    /// job is excluded.
    pub fn get_job_waiting_for_assignment(&mut self, worker_id: u64, exclude: &Vec<u64>) -> (r:
        Option<u64>)
        requires
            old(self).wf(),
            old(self).has_worker(worker_id),
        ensures
            final(self).wf(),
            match r {
                Some(id) => {
                    &&& old(self).jobs_waiting_for_assignment@.contains(id)
                    &&& !exclude@.contains(id)
                    &&& forall|y: u64|
                        old(self).jobs_waiting_for_assignment@.contains(y) && y < id
                            ==> exclude@.contains(y)
                    &&& final(self).has_job(id)
                    &&& final(self).job_status(id) == (JobStatus::Offered { worker_id })
                    &&& final(self).job_at(id).info == (JobInfo {
                        status: JobStatus::Offered { worker_id },
                        ..old(self).job_at(id).info
                    })
                    &&& forall|i: int|
                        0 <= i < final(self).jobs@.len() && i != id ==> final(self).jobs@[i] == old(
                            self,
                        ).jobs@[i]
                    &&& final(self).jobs@.len() == old(self).jobs@.len()
                    &&& forall|y: u64|
                        final(self).jobs_waiting_for_assignment@.contains(y) <==> (old(
                            self,
                        ).jobs_waiting_for_assignment@.contains(y) && y != id)
                    &&& forall|w: int|
                        0 <= w < final(self).workers@.len() && w != worker_id
                            ==> final(self).workers@[w] == old(self).workers@[w]
                    &&& final(self).workers@.len() == old(self).workers@.len()
                    &&& final(self).worker_at(worker_id) == (WorkerEntry {
                        offered_jobs: final(self).worker_at(worker_id).offered_jobs,
                        ..old(self).worker_at(worker_id)
                    })
                    &&& forall|y: u64|
                        final(self).worker_at(worker_id).offered_jobs@.contains(y) <==> (old(
                            self,
                        ).worker_at(worker_id).offered_jobs@.contains(y) || y == id)
                },
                None => {
                    &&& *final(self) == *old(self)
                    &&& forall|y: u64|
                        old(self).jobs_waiting_for_assignment@.contains(y) ==> exclude@.contains(y)
                },
            },
    {
        let picked = idlist::first_not_excluded(&self.jobs_waiting_for_assignment, exclude);
        match picked {
            None => None,
            Some(id) => {
                proof {
                    let k = choose|k: int|
                        0 <= k < self.jobs_waiting_for_assignment@.len()
                            && self.jobs_waiting_for_assignment@[k] == id;
                    assert(live(self.jobs@, id));
                    assert(status_of(self.jobs@, id) is Pending);
                }
                let n = self.jobs.len();
                idlist::remove_id(&mut self.jobs_waiting_for_assignment, id);
                match &mut self.jobs[id as usize] {
                    Some(job) => {
                        job.info.status = JobStatus::Offered { worker_id };
                    }
                    None => {}
                }
                proof {
                    // the offered list cannot already hold a job that was
                    // Pending a moment ago
                    let e = entry_of(old(self).workers@, worker_id);
                    if e.offered_jobs@.contains(id) {
                        assert(status_of(old(self).jobs@, id) == (JobStatus::Offered {
                            worker_id,
                        }));
                    }
                    assert(!e.offered_jobs@.contains(id));
                }
                let workers_len = self.workers.len();
                proof {
                    assert(worker_id < workers_len as u64);
                }
                let wi = worker_id as usize;
                match &mut self.workers[wi] {
                    Some(e) => {
                        idlist::insert_id(&mut e.offered_jobs, id);
                    }
                    None => {}
                }
                proof {
                    let pre = old(self);
                    let jpre = pre.jobs@;
                    let jpost = self.jobs@;
                    let wpre = pre.jobs_waiting_for_assignment@;
                    let wpost = self.jobs_waiting_for_assignment@;
                    let rpre = pre.workers@;
                    let rpost = self.workers@;
                    let epre = entry_of(rpre, worker_id);
                    let epost = entry_of(rpost, worker_id);
                    assert(jpost[id as int] is Some);
                    assert(jobs_ok(jpost)) by {
                        assert forall|i: int|
                            0 <= i < jpost.len() && #[trigger] jpost[i] is Some implies jpost[i]->Some_0.info.job_id
                            == i as u64 by {
                            if i != id {
                                assert(jpost[i] == jpre[i]);
                            }
                        }
                    }
                    assert(waiting_ok(jpost, wpost)) by {
                        assert forall|k: int|
                            0 <= k < wpost.len() implies live(jpost, #[trigger] wpost[k])
                            && status_of(jpost, wpost[k]) is Pending by {
                            assert(wpost.contains(wpost[k]));
                            assert(wpre.contains(wpost[k]) && wpost[k] != id);
                            let m = choose|m: int| 0 <= m < wpre.len() && wpre[m] == wpost[k];
                            assert(jpost[wpost[k] as int] == jpre[wpost[k] as int]);
                        }
                        assert forall|i: int|
                            0 <= i < jpost.len() && #[trigger] jpost[i] is Some
                                && jpost[i]->Some_0.info.status is Pending implies wpost.contains(
                            i as u64,
                        ) by {
                            assert(i != id);
                            assert(jpost[i] == jpre[i]);
                            assert(wpre.contains(i as u64));
                        }
                    }
                    assert(workers_ok(jpost, rpost)) by {
                        assert forall|w: int|
                            0 <= w < rpost.len() && #[trigger] rpost[w] is Some implies {
                            let e = rpost[w]->Some_0;
                            &&& e.info.worker_id == w as u64
                            &&& e.lists_sorted()
                            &&& forall|id2: u64|
                                #[trigger] e.offered_jobs@.contains(id2) ==> live(jpost, id2)
                                    && status_of(jpost, id2) == (JobStatus::Offered {
                                    worker_id: w as u64,
                                })
                            &&& forall|id2: u64|
                                #[trigger] e.running_jobs@.contains(id2) ==> live(jpost, id2) && (
                                status_of(jpost, id2) matches JobStatus::Running { worker_id, .. }
                                    && worker_id == w as u64)
                        } by {
                            let e = rpost[w]->Some_0;
                            let eold = rpre[w]->Some_0;
                            if w != worker_id {
                                assert(rpost[w] == rpre[w]);
                            }
                            assert forall|id2: u64|
                                #[trigger] e.offered_jobs@.contains(id2) implies live(jpost, id2)
                                && status_of(jpost, id2) == (JobStatus::Offered {
                                worker_id: w as u64,
                            }) by {
                                if w == worker_id && id2 == id {
                                } else {
                                    assert(eold.offered_jobs@.contains(id2));
                                    assert(status_of(jpre, id2) == (JobStatus::Offered {
                                        worker_id: w as u64,
                                    }));
                                    assert(id2 != id);
                                    assert(jpost[id2 as int] == jpre[id2 as int]);
                                }
                            }
                            assert forall|id2: u64|
                                #[trigger] e.running_jobs@.contains(id2) implies live(jpost, id2)
                                && (status_of(jpost, id2) matches JobStatus::Running {
                                worker_id,
                                ..
                            } && worker_id == w as u64) by {
                                assert(eold.running_jobs@.contains(id2));
                                assert(id2 != id);
                                assert(jpost[id2 as int] == jpre[id2 as int]);
                            }
                        }
                    }
                    assert(holders_ok(jpost, rpost)) by {
                        assert forall|i: int|
                            0 <= i < jpost.len() && #[trigger] jpost[i] is Some implies match jpost[i]->Some_0.info.status {
                            JobStatus::Offered { worker_id } => worker_live(rpost, worker_id)
                                && entry_of(rpost, worker_id).offered_jobs@.contains(i as u64),
                            JobStatus::Running { worker_id, .. } => worker_live(rpost, worker_id)
                                && entry_of(rpost, worker_id).running_jobs@.contains(i as u64),
                            _ => true,
                        } by {
                            if i == id {
                                assert(epost.offered_jobs@.contains(id));
                            } else {
                                assert(jpost[i] == jpre[i]);
                                match jpost[i]->Some_0.info.status {
                                    JobStatus::Offered { worker_id: w2 } => {
                                        if w2 != worker_id {
                                            assert(rpost[w2 as int] == rpre[w2 as int]);
                                        } else {
                                            assert(entry_of(rpre, w2).offered_jobs@.contains(
                                                i as u64,
                                            ));
                                            assert(epost.offered_jobs@.contains(i as u64));
                                        }
                                    }
                                    JobStatus::Running { worker_id: w2, .. } => {
                                        if w2 != worker_id {
                                            assert(rpost[w2 as int] == rpre[w2 as int]);
                                        } else {
                                            assert(epost.running_jobs@ == epre.running_jobs@);
                                        }
                                    }
                                    _ => {}
                                }
                            }
                        }
                    }
                }
                Some(id)
            }
        }
    }

    /// Moves an Offered or Running job back to Pending: on reject, defer,
    /// withdraw or worker loss. The job leaves the holder's offered and
    /// running lists and re-enters the waiting list under its old id, so
    /// it keeps its place in the FIFO order.
    pub fn return_to_waiting(&mut self, job_id: u64)
        requires
            old(self).wf(),
            old(self).has_job(job_id),
            old(self).job_status(job_id) is Offered || old(self).job_status(job_id) is Running,
        ensures
            final(self).wf(),
            final(self).has_job(job_id),
            final(self).job_status(job_id) is Pending,
            final(self).job_at(job_id).info == (JobInfo {
                status: JobStatus::Pending,
                ..old(self).job_at(job_id).info
            }),
            final(self).jobs@.len() == old(self).jobs@.len(),
            forall|i: int|
                0 <= i < final(self).jobs@.len() && i != job_id ==> final(self).jobs@[i] == old(
                    self,
                ).jobs@[i],
            forall|y: u64|
                final(self).jobs_waiting_for_assignment@.contains(y) <==> (old(
                    self,
                ).jobs_waiting_for_assignment@.contains(y) || y == job_id),
            final(self).workers@.len() == old(self).workers@.len(),
            forall|w: int|
                0 <= w < final(self).workers@.len() && w != old(self).job_status(job_id).held_by()
                    ==> final(self).workers@[w] == old(self).workers@[w],
            ({
                let h = old(self).job_status(job_id).held_by();
                &&& final(self).has_worker(h)
                &&& final(self).worker_at(h) == (WorkerEntry {
                    offered_jobs: final(self).worker_at(h).offered_jobs,
                    running_jobs: final(self).worker_at(h).running_jobs,
                    ..old(self).worker_at(h)
                })
                &&& forall|y: u64|
                    final(self).worker_at(h).offered_jobs@.contains(y) <==> (old(self).worker_at(
                        h,
                    ).offered_jobs@.contains(y) && y != job_id)
                &&& forall|y: u64|
                    final(self).worker_at(h).running_jobs@.contains(y) <==> (old(self).worker_at(
                        h,
                    ).running_jobs@.contains(y) && y != job_id)
                &&& old(self).job_status(job_id) is Offered ==> {
                    &&& final(self).worker_at(h).offered_jobs@.len() == old(self).worker_at(
                        h,
                    ).offered_jobs@.len() - 1
                    &&& final(self).worker_at(h).running_jobs@ == old(self).worker_at(
                        h,
                    ).running_jobs@
                }
                &&& old(self).job_status(job_id) is Running ==> {
                    &&& final(self).worker_at(h).running_jobs@.len() == old(self).worker_at(
                        h,
                    ).running_jobs@.len() - 1
                    &&& final(self).worker_at(h).offered_jobs@ == old(self).worker_at(
                        h,
                    ).offered_jobs@
                }
            }),
    {
        let jobs_len = self.jobs.len();
        let ji = job_id as usize;
        let mut holder: u64 = 0;
        match &self.jobs[ji] {
            Some(job) => {
                match &job.info.status {
                    JobStatus::Offered { worker_id } => {
                        holder = *worker_id;
                    }
                    JobStatus::Running { worker_id, .. } => {
                        holder = *worker_id;
                    }
                    _ => {}
                }
            }
            None => {}
        }
        proof {
            assert(holder == old(self).job_status(job_id).held_by());
            assert(worker_live(self.workers@, holder));
        }
        match &mut self.jobs[ji] {
            Some(job) => {
                job.info.status = JobStatus::Pending;
            }
            None => {}
        }
        let workers_len = self.workers.len();
        proof {
            assert(holder < workers_len as u64);
        }
        proof {
            let epre = entry_of(old(self).workers@, holder);
            if old(self).job_status(job_id) is Offered {
                assert(epre.offered_jobs@.contains(job_id));
                if epre.running_jobs@.contains(job_id) {
                    assert(status_of(old(self).jobs@, job_id) is Running);
                }
                assert(!epre.running_jobs@.contains(job_id));
            } else {
                assert(epre.running_jobs@.contains(job_id));
                if epre.offered_jobs@.contains(job_id) {
                    assert(status_of(old(self).jobs@, job_id) is Offered);
                }
                assert(!epre.offered_jobs@.contains(job_id));
            }
        }
        match &mut self.workers[holder as usize] {
            Some(e) => {
                idlist::remove_id(&mut e.offered_jobs, job_id);
                idlist::remove_id(&mut e.running_jobs, job_id);
            }
            None => {}
        }
        proof {
            let wpre = old(self).jobs_waiting_for_assignment@;
            assert(!wpre.contains(job_id)) by {
                if wpre.contains(job_id) {
                    let k = choose|k: int| 0 <= k < wpre.len() && wpre[k] == job_id;
                    assert(status_of(old(self).jobs@, job_id) is Pending);
                }
            }
        }
        idlist::insert_id(&mut self.jobs_waiting_for_assignment, job_id);
        proof {
            let pre = old(self);
            let jpre = pre.jobs@;
            let jpost = self.jobs@;
            let wpost = self.jobs_waiting_for_assignment@;
            let wpre = pre.jobs_waiting_for_assignment@;
            let rpre = pre.workers@;
            let rpost = self.workers@;
            let epre = entry_of(rpre, holder);
            let epost = entry_of(rpost, holder);
            assert(jpost[job_id as int] is Some);
            assert(jobs_ok(jpost)) by {
                assert forall|i: int|
                    0 <= i < jpost.len() && #[trigger] jpost[i] is Some implies jpost[i]->Some_0.info.job_id
                    == i as u64 by {
                    if i != job_id {
                        assert(jpost[i] == jpre[i]);
                    }
                }
            }
            assert(waiting_ok(jpost, wpost)) by {
                assert forall|k: int|
                    0 <= k < wpost.len() implies live(jpost, #[trigger] wpost[k]) && status_of(
                    jpost,
                    wpost[k],
                ) is Pending by {
                    assert(wpost.contains(wpost[k]));
                    if wpost[k] != job_id {
                        assert(wpre.contains(wpost[k]));
                        let m = choose|m: int| 0 <= m < wpre.len() && wpre[m] == wpost[k];
                        assert(jpost[wpost[k] as int] == jpre[wpost[k] as int]);
                    }
                }
                assert forall|i: int|
                    0 <= i < jpost.len() && #[trigger] jpost[i] is Some
                        && jpost[i]->Some_0.info.status is Pending implies wpost.contains(
                    i as u64,
                ) by {
                    if i != job_id {
                        assert(jpost[i] == jpre[i]);
                        assert(wpre.contains(i as u64));
                    }
                }
            }
            assert(workers_ok(jpost, rpost)) by {
                assert forall|w: int|
                    0 <= w < rpost.len() && #[trigger] rpost[w] is Some implies {
                    let e = rpost[w]->Some_0;
                    &&& e.info.worker_id == w as u64
                    &&& e.lists_sorted()
                    &&& forall|id2: u64|
                        #[trigger] e.offered_jobs@.contains(id2) ==> live(jpost, id2) && status_of(
                            jpost,
                            id2,
                        ) == (JobStatus::Offered { worker_id: w as u64 })
                    &&& forall|id2: u64|
                        #[trigger] e.running_jobs@.contains(id2) ==> live(jpost, id2) && (status_of(
                            jpost,
                            id2,
                        ) matches JobStatus::Running { worker_id, .. } && worker_id == w as u64)
                } by {
                    let e = rpost[w]->Some_0;
                    let eold = rpre[w]->Some_0;
                    if w != holder {
                        assert(rpost[w] == rpre[w]);
                    }
                    assert forall|id2: u64| #[trigger] e.offered_jobs@.contains(id2) implies live(
                        jpost,
                        id2,
                    ) && status_of(jpost, id2) == (JobStatus::Offered { worker_id: w as u64 }) by {
                        assert(eold.offered_jobs@.contains(id2));
                        assert(status_of(jpre, id2) == (JobStatus::Offered {
                            worker_id: w as u64,
                        }));
                        if w == holder {
                            assert(id2 != job_id);
                        } else {
                            // a job offered to another worker is not this job:
                            // its status names that worker
                            assert(id2 != job_id);
                        }
                        assert(jpost[id2 as int] == jpre[id2 as int]);
                    }
                    assert forall|id2: u64| #[trigger] e.running_jobs@.contains(id2) implies live(
                        jpost,
                        id2,
                    ) && (status_of(jpost, id2) matches JobStatus::Running { worker_id, .. }
                        && worker_id == w as u64) by {
                        assert(eold.running_jobs@.contains(id2));
                        assert(id2 != job_id);
                        assert(jpost[id2 as int] == jpre[id2 as int]);
                    }
                }
            }
            assert(holders_ok(jpost, rpost)) by {
                assert forall|i: int|
                    0 <= i < jpost.len() && #[trigger] jpost[i] is Some implies match jpost[i]->Some_0.info.status {
                    JobStatus::Offered { worker_id } => worker_live(rpost, worker_id) && entry_of(
                        rpost,
                        worker_id,
                    ).offered_jobs@.contains(i as u64),
                    JobStatus::Running { worker_id, .. } => worker_live(rpost, worker_id)
                        && entry_of(rpost, worker_id).running_jobs@.contains(i as u64),
                    _ => true,
                } by {
                    if i != job_id {
                        assert(jpost[i] == jpre[i]);
                        match jpost[i]->Some_0.info.status {
                            JobStatus::Offered { worker_id: w2 } => {
                                if w2 != holder {
                                    assert(rpost[w2 as int] == rpre[w2 as int]);
                                } else {
                                    assert(entry_of(rpre, w2).offered_jobs@.contains(i as u64));
                                    assert(i != job_id);
                                    assert(epost.offered_jobs@.contains(i as u64));
                                }
                            }
                            JobStatus::Running { worker_id: w2, .. } => {
                                if w2 != holder {
                                    assert(rpost[w2 as int] == rpre[w2 as int]);
                                } else {
                                    assert(entry_of(rpre, w2).running_jobs@.contains(i as u64));
                                    assert(i != job_id);
                                    assert(epost.running_jobs@.contains(i as u64));
                                }
                            }
                            _ => {}
                        }
                    }
                }
            }
        }
    }

    /// The worker deferred an offer: the job goes back to the waiting
    /// list, and the worker is not offered it again until it reports freed
    /// resources. A defer for a job this worker does not hold is a
    /// protocol violation and is ignored.
    pub fn on_worker_defer(&mut self, worker_id: u64, job_id: u64) -> (handled: bool)
        requires
            old(self).wf(),
            old(self).has_worker(worker_id),
        ensures
            final(self).wf(),
            handled == (old(self).has_job(job_id) && old(self).job_status(job_id)
                == (JobStatus::Offered { worker_id })),
            !handled ==> *final(self) == *old(self),
            handled ==> {
                &&& final(self).job_status(job_id) is Pending
                &&& final(self).jobs_waiting_for_assignment@.contains(job_id)
                &&& final(self).worker_at(worker_id).deferred_jobs@.contains(job_id)
                &&& !final(self).worker_at(worker_id).offered_jobs@.contains(job_id)
                &&& final(self).worker_at(worker_id).rejected_jobs@ == old(self).worker_at(
                    worker_id,
                ).rejected_jobs@
            },
    {
        if !self.offer_outstanding(worker_id, job_id) {
            return false;
        }
        self.return_to_waiting(job_id);
        let ghost mid = *self;
        let workers_len = self.workers.len();
        proof {
            assert(worker_id < workers_len as u64);
        }
        match &mut self.workers[worker_id as usize] {
            Some(e) => {
                if !idlist::contains_id(&e.deferred_jobs, job_id) {
                    idlist::insert_id(&mut e.deferred_jobs, job_id);
                }
            }
            None => {}
        }
        proof {
            self.lemma_entry_lists_replaced(mid, worker_id);
        }
        true
    }

    /// The worker rejected an offer: as a defer, but sticky — the job is
    /// never offered to this worker again in this session.
    pub fn on_worker_reject(&mut self, worker_id: u64, job_id: u64) -> (handled: bool)
        requires
            old(self).wf(),
            old(self).has_worker(worker_id),
        ensures
            final(self).wf(),
            handled == (old(self).has_job(job_id) && old(self).job_status(job_id)
                == (JobStatus::Offered { worker_id })),
            !handled ==> *final(self) == *old(self),
            handled ==> {
                &&& final(self).job_status(job_id) is Pending
                &&& final(self).jobs_waiting_for_assignment@.contains(job_id)
                &&& final(self).worker_at(worker_id).rejected_jobs@.contains(job_id)
                &&& !final(self).worker_at(worker_id).offered_jobs@.contains(job_id)
            },
    {
        if !self.offer_outstanding(worker_id, job_id) {
            return false;
        }
        self.return_to_waiting(job_id);
        let ghost mid = *self;
        let workers_len = self.workers.len();
        proof {
            assert(worker_id < workers_len as u64);
        }
        match &mut self.workers[worker_id as usize] {
            Some(e) => {
                if !idlist::contains_id(&e.rejected_jobs, job_id) {
                    idlist::insert_id(&mut e.rejected_jobs, job_id);
                }
            }
            None => {}
        }
        proof {
            self.lemma_entry_lists_replaced(mid, worker_id);
        }
        true
    }

    /// The worker accepted an offer. When the offer still stands, the job
    /// is committed: Running on that worker from `now`, and the reply is
    /// ConfirmJobOffer. When the job was meanwhile removed or withdrawn,
    /// the reply is WithdrawJobOffer and nothing changes.
    pub fn on_worker_accept(&mut self, worker_id: u64, job_id: u64, now: i64) -> (confirmed: bool)
        requires
            old(self).wf(),
            old(self).has_worker(worker_id),
        ensures
            final(self).wf(),
            confirmed == (old(self).has_job(job_id) && old(self).job_status(job_id)
                == (JobStatus::Offered { worker_id })),
            !confirmed ==> *final(self) == *old(self),
            confirmed ==> {
                &&& final(self).has_job(job_id)
                &&& final(self).job_status(job_id) == (JobStatus::Running {
                    worker_id,
                    started_at: now,
                })
                &&& final(self).job_at(job_id).info == (JobInfo {
                    status: JobStatus::Running { worker_id, started_at: now },
                    started_at: Some(now),
                    ..old(self).job_at(job_id).info
                })
                &&& forall|i: int|
                    0 <= i < final(self).jobs@.len() && i != job_id ==> final(self).jobs@[i] == old(
                        self,
                    ).jobs@[i]
                &&& final(self).jobs@.len() == old(self).jobs@.len()
                &&& final(self).jobs_waiting_for_assignment@ == old(
                    self,
                ).jobs_waiting_for_assignment@
                &&& forall|w: int|
                    0 <= w < final(self).workers@.len() && w != worker_id
                        ==> final(self).workers@[w] == old(self).workers@[w]
                &&& final(self).workers@.len() == old(self).workers@.len()
                &&& final(self).worker_at(worker_id) == (WorkerEntry {
                    offered_jobs: final(self).worker_at(worker_id).offered_jobs,
                    running_jobs: final(self).worker_at(worker_id).running_jobs,
                    ..old(self).worker_at(worker_id)
                })
                &&& forall|y: u64|
                    final(self).worker_at(worker_id).offered_jobs@.contains(y) <==> (old(
                        self,
                    ).worker_at(worker_id).offered_jobs@.contains(y) && y != job_id)
                &&& forall|y: u64|
                    final(self).worker_at(worker_id).running_jobs@.contains(y) <==> (old(
                        self,
                    ).worker_at(worker_id).running_jobs@.contains(y) || y == job_id)
            },
    {
        if !self.offer_outstanding(worker_id, job_id) {
            return false;
        }
        let jobs_len = self.jobs.len();
        match &mut self.jobs[job_id as usize] {
            Some(job) => {
                job.info.status = JobStatus::Running { worker_id, started_at: now };
                job.info.started_at = Some(now);
            }
            None => {}
        }
        proof {
            let e = entry_of(old(self).workers@, worker_id);
            if e.running_jobs@.contains(job_id) {
                assert(status_of(old(self).jobs@, job_id) matches JobStatus::Running { .. });
            }
            assert(!e.running_jobs@.contains(job_id));
            assert(worker_id < self.workers@.len());
        }
        let workers_len = self.workers.len();
        match &mut self.workers[worker_id as usize] {
            Some(e) => {
                idlist::remove_id(&mut e.offered_jobs, job_id);
                idlist::insert_id(&mut e.running_jobs, job_id);
            }
            None => {}
        }
        proof {
            let pre = old(self);
            let jpre = pre.jobs@;
            let jpost = self.jobs@;
            let waiting = self.jobs_waiting_for_assignment@;
            let rpre = pre.workers@;
            let rpost = self.workers@;
            let epre = entry_of(rpre, worker_id);
            let epost = entry_of(rpost, worker_id);
            assert(jpost[job_id as int] is Some);
            assert(jobs_ok(jpost)) by {
                assert forall|i: int|
                    0 <= i < jpost.len() && #[trigger] jpost[i] is Some implies jpost[i]->Some_0.info.job_id
                    == i as u64 by {
                    if i != job_id {
                        assert(jpost[i] == jpre[i]);
                    }
                }
            }
            assert(waiting_ok(jpost, waiting)) by {
                assert forall|k: int|
                    0 <= k < waiting.len() implies live(jpost, #[trigger] waiting[k]) && status_of(
                    jpost,
                    waiting[k],
                ) is Pending by {
                    assert(waiting.contains(waiting[k]));
                    assert(live(jpre, waiting[k]) && status_of(jpre, waiting[k]) is Pending);
                    assert(waiting[k] != job_id);
                    assert(jpost[waiting[k] as int] == jpre[waiting[k] as int]);
                }
                assert forall|i: int|
                    0 <= i < jpost.len() && #[trigger] jpost[i] is Some
                        && jpost[i]->Some_0.info.status is Pending implies waiting.contains(
                    i as u64,
                ) by {
                    assert(i != job_id);
                    assert(jpost[i] == jpre[i]);
                }
            }
            assert(workers_ok(jpost, rpost)) by {
                assert forall|w: int|
                    0 <= w < rpost.len() && #[trigger] rpost[w] is Some implies {
                    let e = rpost[w]->Some_0;
                    &&& e.info.worker_id == w as u64
                    &&& e.lists_sorted()
                    &&& forall|id2: u64|
                        #[trigger] e.offered_jobs@.contains(id2) ==> live(jpost, id2) && status_of(
                            jpost,
                            id2,
                        ) == (JobStatus::Offered { worker_id: w as u64 })
                    &&& forall|id2: u64|
                        #[trigger] e.running_jobs@.contains(id2) ==> live(jpost, id2) && (status_of(
                            jpost,
                            id2,
                        ) matches JobStatus::Running { worker_id, .. } && worker_id == w as u64)
                } by {
                    let e = rpost[w]->Some_0;
                    let eold = rpre[w]->Some_0;
                    if w != worker_id {
                        assert(rpost[w] == rpre[w]);
                    }
                    assert forall|id2: u64| #[trigger] e.offered_jobs@.contains(id2) implies live(
                        jpost,
                        id2,
                    ) && status_of(jpost, id2) == (JobStatus::Offered { worker_id: w as u64 }) by {
                        assert(eold.offered_jobs@.contains(id2));
                        assert(id2 != job_id);
                        assert(jpost[id2 as int] == jpre[id2 as int]);
                    }
                    assert forall|id2: u64| #[trigger] e.running_jobs@.contains(id2) implies live(
                        jpost,
                        id2,
                    ) && (status_of(jpost, id2) matches JobStatus::Running { worker_id, .. }
                        && worker_id == w as u64) by {
                        if w == worker_id && id2 == job_id {
                        } else {
                            assert(eold.running_jobs@.contains(id2));
                            assert(id2 != job_id);
                            assert(jpost[id2 as int] == jpre[id2 as int]);
                        }
                    }
                }
            }
            assert(holders_ok(jpost, rpost)) by {
                assert forall|i: int|
                    0 <= i < jpost.len() && #[trigger] jpost[i] is Some implies match jpost[i]->Some_0.info.status {
                    JobStatus::Offered { worker_id } => worker_live(rpost, worker_id) && entry_of(
                        rpost,
                        worker_id,
                    ).offered_jobs@.contains(i as u64),
                    JobStatus::Running { worker_id, .. } => worker_live(rpost, worker_id)
                        && entry_of(rpost, worker_id).running_jobs@.contains(i as u64),
                    _ => true,
                } by {
                    if i == job_id {
                        assert(epost.running_jobs@.contains(job_id));
                    } else {
                        assert(jpost[i] == jpre[i]);
                        match jpost[i]->Some_0.info.status {
                            JobStatus::Offered { worker_id: w2 } => {
                                if w2 != worker_id {
                                    assert(rpost[w2 as int] == rpre[w2 as int]);
                                } else {
                                    assert(entry_of(rpre, w2).offered_jobs@.contains(i as u64));
                                    assert(epost.offered_jobs@.contains(i as u64));
                                }
                            }
                            JobStatus::Running { worker_id: w2, .. } => {
                                if w2 != worker_id {
                                    assert(rpost[w2 as int] == rpre[w2 as int]);
                                } else {
                                    assert(entry_of(rpre, w2).running_jobs@.contains(i as u64));
                                    assert(epost.running_jobs@.contains(i as u64));
                                }
                            }
                            _ => {}
                        }
                    }
                }
            }
        }
        true
    }

    /// A terminal report from the worker that runs the job: the server
    /// trusts the worker and merges the reported status; the job leaves the
    /// worker's running list. Reports for jobs this worker does not run,
    /// and non-terminal reports, are ignored.
    pub fn update_job_status(
        &mut self,
        worker_id: u64,
        job_id: u64,
        new_status: JobStatus,
        now: i64,
    ) -> (accepted: bool)
        requires
            old(self).wf(),
            old(self).has_worker(worker_id),
        ensures
            final(self).wf(),
            accepted == (old(self).has_job(job_id) && new_status.is_terminal() && (old(
                self,
            ).job_status(job_id) matches JobStatus::Running { worker_id: w, .. } && w == worker_id)),
            !accepted ==> *final(self) == *old(self),
            accepted ==> {
                &&& final(self).has_job(job_id)
                &&& final(self).job_status(job_id) == new_status
                &&& final(self).job_at(job_id).info == (JobInfo {
                    status: new_status,
                    finished_at: Some(now),
                    ..old(self).job_at(job_id).info
                })
                &&& forall|i: int|
                    0 <= i < final(self).jobs@.len() && i != job_id ==> final(self).jobs@[i] == old(
                        self,
                    ).jobs@[i]
                &&& final(self).jobs@.len() == old(self).jobs@.len()
                &&& final(self).jobs_waiting_for_assignment@ == old(
                    self,
                ).jobs_waiting_for_assignment@
                &&& forall|w: int|
                    0 <= w < final(self).workers@.len() && w != worker_id
                        ==> final(self).workers@[w] == old(self).workers@[w]
                &&& final(self).workers@.len() == old(self).workers@.len()
                &&& final(self).worker_at(worker_id) == (WorkerEntry {
                    running_jobs: final(self).worker_at(worker_id).running_jobs,
                    ..old(self).worker_at(worker_id)
                })
                &&& forall|y: u64|
                    final(self).worker_at(worker_id).running_jobs@.contains(y) <==> (old(
                        self,
                    ).worker_at(worker_id).running_jobs@.contains(y) && y != job_id)
            },
    {
        if !new_status.is_terminal_exec() {
            return false;
        }
        let running_here: bool = if job_id < self.jobs.len() as u64 {
            match &self.jobs[job_id as usize] {
                Some(job) => {
                    match &job.info.status {
                        JobStatus::Running { worker_id: w, .. } => *w == worker_id,
                        _ => false,
                    }
                }
                None => false,
            }
        } else {
            false
        };
        if !running_here {
            return false;
        }
        let jobs_len = self.jobs.len();
        match &mut self.jobs[job_id as usize] {
            Some(job) => {
                job.info.status = new_status;
                job.info.finished_at = Some(now);
            }
            None => {}
        }
        proof {
            assert(worker_id < self.workers@.len());
        }
        let workers_len = self.workers.len();
        match &mut self.workers[worker_id as usize] {
            Some(e) => {
                idlist::remove_id(&mut e.running_jobs, job_id);
            }
            None => {}
        }
        proof {
            let pre = old(self);
            let jpre = pre.jobs@;
            let jpost = self.jobs@;
            let waiting = self.jobs_waiting_for_assignment@;
            let rpre = pre.workers@;
            let rpost = self.workers@;
            let epre = entry_of(rpre, worker_id);
            let epost = entry_of(rpost, worker_id);
            assert(jpost[job_id as int] is Some);
            assert(jobs_ok(jpost)) by {
                assert forall|i: int|
                    0 <= i < jpost.len() && #[trigger] jpost[i] is Some implies jpost[i]->Some_0.info.job_id
                    == i as u64 by {
                    if i != job_id {
                        assert(jpost[i] == jpre[i]);
                    }
                }
            }
            assert(waiting_ok(jpost, waiting)) by {
                assert forall|k: int|
                    0 <= k < waiting.len() implies live(jpost, #[trigger] waiting[k]) && status_of(
                    jpost,
                    waiting[k],
                ) is Pending by {
                    assert(waiting.contains(waiting[k]));
                    assert(live(jpre, waiting[k]) && status_of(jpre, waiting[k]) is Pending);
                    assert(waiting[k] != job_id);
                    assert(jpost[waiting[k] as int] == jpre[waiting[k] as int]);
                }
                assert forall|i: int|
                    0 <= i < jpost.len() && #[trigger] jpost[i] is Some
                        && jpost[i]->Some_0.info.status is Pending implies waiting.contains(
                    i as u64,
                ) by {
                    assert(i != job_id);
                    assert(jpost[i] == jpre[i]);
                }
            }
            assert(workers_ok(jpost, rpost)) by {
                assert forall|w: int|
                    0 <= w < rpost.len() && #[trigger] rpost[w] is Some implies {
                    let e = rpost[w]->Some_0;
                    &&& e.info.worker_id == w as u64
                    &&& e.lists_sorted()
                    &&& forall|id2: u64|
                        #[trigger] e.offered_jobs@.contains(id2) ==> live(jpost, id2) && status_of(
                            jpost,
                            id2,
                        ) == (JobStatus::Offered { worker_id: w as u64 })
                    &&& forall|id2: u64|
                        #[trigger] e.running_jobs@.contains(id2) ==> live(jpost, id2) && (status_of(
                            jpost,
                            id2,
                        ) matches JobStatus::Running { worker_id, .. } && worker_id == w as u64)
                } by {
                    let e = rpost[w]->Some_0;
                    let eold = rpre[w]->Some_0;
                    if w != worker_id {
                        assert(rpost[w] == rpre[w]);
                    }
                    assert forall|id2: u64| #[trigger] e.offered_jobs@.contains(id2) implies live(
                        jpost,
                        id2,
                    ) && status_of(jpost, id2) == (JobStatus::Offered { worker_id: w as u64 }) by {
                        assert(eold.offered_jobs@.contains(id2));
                        assert(id2 != job_id);
                        assert(jpost[id2 as int] == jpre[id2 as int]);
                    }
                    assert forall|id2: u64| #[trigger] e.running_jobs@.contains(id2) implies live(
                        jpost,
                        id2,
                    ) && (status_of(jpost, id2) matches JobStatus::Running { worker_id, .. }
                        && worker_id == w as u64) by {
                        assert(eold.running_jobs@.contains(id2));
                        assert(id2 != job_id);
                        assert(jpost[id2 as int] == jpre[id2 as int]);
                    }
                }
            }
            assert(holders_ok(jpost, rpost)) by {
                assert forall|i: int|
                    0 <= i < jpost.len() && #[trigger] jpost[i] is Some implies match jpost[i]->Some_0.info.status {
                    JobStatus::Offered { worker_id } => worker_live(rpost, worker_id) && entry_of(
                        rpost,
                        worker_id,
                    ).offered_jobs@.contains(i as u64),
                    JobStatus::Running { worker_id, .. } => worker_live(rpost, worker_id)
                        && entry_of(rpost, worker_id).running_jobs@.contains(i as u64),
                    _ => true,
                } by {
                    if i != job_id {
                        assert(jpost[i] == jpre[i]);
                        match jpost[i]->Some_0.info.status {
                            JobStatus::Offered { worker_id: w2 } => {
                                if w2 != worker_id {
                                    assert(rpost[w2 as int] == rpre[w2 as int]);
                                } else {
                                    assert(entry_of(rpre, w2).offered_jobs@.contains(i as u64));
                                    assert(epost.offered_jobs@ == epre.offered_jobs@);
                                }
                            }
                            JobStatus::Running { worker_id: w2, .. } => {
                                if w2 != worker_id {
                                    assert(rpost[w2 as int] == rpre[w2 as int]);
                                } else {
                                    assert(entry_of(rpre, w2).running_jobs@.contains(i as u64));
                                    assert(epost.running_jobs@.contains(i as u64));
                                }
                            }
                            _ => {}
                        }
                    }
                }
            }
        }
        true
    }

    /// The worker sent the captured output of a concluded job; it is kept
    /// on the job record for later ShowJob queries. Unknown ids are
    /// ignored.
    pub fn update_job_results(
        &mut self,
        job_id: u64,
        stdout_text: Option<String>,
        stderr_text: Option<String>,
    ) -> (accepted: bool)
        requires
            old(self).wf(),
        ensures
            final(self).wf(),
            accepted == old(self).has_job(job_id),
            !accepted ==> *final(self) == *old(self),
            accepted ==> {
                &&& final(self).job_at(job_id) == (Job {
                    stdout_text: final(self).job_at(job_id).stdout_text,
                    stderr_text: final(self).job_at(job_id).stderr_text,
                    ..old(self).job_at(job_id)
                })
                &&& text_view(final(self).job_at(job_id).stdout_text) == merged_text(
                    text_view(old(self).job_at(job_id).stdout_text),
                    text_view(stdout_text),
                )
                &&& text_view(final(self).job_at(job_id).stderr_text) == merged_text(
                    text_view(old(self).job_at(job_id).stderr_text),
                    text_view(stderr_text),
                )
                &&& forall|i: int|
                    0 <= i < final(self).jobs@.len() && i != job_id ==> final(self).jobs@[i] == old(
                        self,
                    ).jobs@[i]
                &&& final(self).jobs@.len() == old(self).jobs@.len()
                &&& final(self).jobs_waiting_for_assignment@ == old(
                    self,
                ).jobs_waiting_for_assignment@
                &&& final(self).workers@ == old(self).workers@
            },
    {
        if job_id >= self.jobs.len() as u64 {
            return false;
        }
        let jobs_len = self.jobs.len();
        let is_live: bool = match &self.jobs[job_id as usize] {
            Some(_) => true,
            None => false,
        };
        if !is_live {
            return false;
        }
        match &mut self.jobs[job_id as usize] {
            Some(job) => {
                merge_text(&mut job.stdout_text, stdout_text);
                merge_text(&mut job.stderr_text, stderr_text);
            }
            None => {}
        }
        proof {
            self.lemma_job_record_replaced(*old(self), job_id);
        }
        true
    }

    /// Re-proves the invariant when one job record changed but kept its id
    /// and status: the waiting list and the worker lists only look at
    /// those.
    proof fn lemma_job_record_replaced(&self, pre: Manager, job_id: u64)
        requires
            pre.wf(),
            pre.has_job(job_id),
            self.has_job(job_id),
            self.jobs@.len() == pre.jobs@.len(),
            forall|i: int| 0 <= i < pre.jobs@.len() && i != job_id ==> self.jobs@[i] == pre.jobs@[i],
            self.job_at(job_id).info.job_id == pre.job_at(job_id).info.job_id,
            self.job_at(job_id).info.status == pre.job_at(job_id).info.status,
            self.jobs_waiting_for_assignment@ == pre.jobs_waiting_for_assignment@,
            self.workers@ == pre.workers@,
        ensures
            self.wf(),
    {
        let jpre = pre.jobs@;
        let jpost = self.jobs@;
        let waiting = self.jobs_waiting_for_assignment@;
        let rs = self.workers@;
        assert(jobs_ok(jpost)) by {
            assert forall|i: int|
                0 <= i < jpost.len() && #[trigger] jpost[i] is Some implies jpost[i]->Some_0.info.job_id
                == i as u64 by {
                if i != job_id {
                    assert(jpost[i] == jpre[i]);
                }
            }
        }
        assert(waiting_ok(jpost, waiting)) by {
            assert forall|k: int|
                0 <= k < waiting.len() implies live(jpost, #[trigger] waiting[k]) && status_of(
                jpost,
                waiting[k],
            ) is Pending by {
                assert(waiting.contains(waiting[k]));
                if waiting[k] != job_id {
                    assert(jpost[waiting[k] as int] == jpre[waiting[k] as int]);
                }
            }
            assert forall|i: int|
                0 <= i < jpost.len() && #[trigger] jpost[i] is Some
                    && jpost[i]->Some_0.info.status is Pending implies waiting.contains(
                i as u64,
            ) by {
                if i != job_id {
                    assert(jpost[i] == jpre[i]);
                }
            }
        }
        assert(workers_ok(jpost, rs)) by {
            assert forall|w: int|
                0 <= w < rs.len() && #[trigger] rs[w] is Some implies {
                let e = rs[w]->Some_0;
                &&& e.info.worker_id == w as u64
                &&& e.lists_sorted()
                &&& forall|id2: u64|
                    #[trigger] e.offered_jobs@.contains(id2) ==> live(jpost, id2) && status_of(
                        jpost,
                        id2,
                    ) == (JobStatus::Offered { worker_id: w as u64 })
                &&& forall|id2: u64|
                    #[trigger] e.running_jobs@.contains(id2) ==> live(jpost, id2) && (status_of(
                        jpost,
                        id2,
                    ) matches JobStatus::Running { worker_id, .. } && worker_id == w as u64)
            } by {
                let e = rs[w]->Some_0;
                assert forall|id2: u64| #[trigger] e.offered_jobs@.contains(id2) implies live(
                    jpost,
                    id2,
                ) && status_of(jpost, id2) == (JobStatus::Offered { worker_id: w as u64 }) by {
                    if id2 != job_id {
                        assert(jpost[id2 as int] == jpre[id2 as int]);
                    }
                }
                assert forall|id2: u64| #[trigger] e.running_jobs@.contains(id2) implies live(
                    jpost,
                    id2,
                ) && (status_of(jpost, id2) matches JobStatus::Running { worker_id, .. }
                    && worker_id == w as u64) by {
                    if id2 != job_id {
                        assert(jpost[id2 as int] == jpre[id2 as int]);
                    }
                }
            }
        }
        assert(holders_ok(jpost, rs)) by {
            assert forall|i: int|
                0 <= i < jpost.len() && #[trigger] jpost[i] is Some implies match jpost[i]->Some_0.info.status {
                JobStatus::Offered { worker_id } => worker_live(rs, worker_id) && entry_of(
                    rs,
                    worker_id,
                ).offered_jobs@.contains(i as u64),
                JobStatus::Running { worker_id, .. } => worker_live(rs, worker_id) && entry_of(
                    rs,
                    worker_id,
                ).running_jobs@.contains(i as u64),
                _ => true,
            } by {
                if i != job_id {
                    assert(jpost[i] == jpre[i]);
                } else {
                    assert(jpost[i]->Some_0.info.status == jpre[i]->Some_0.info.status);
                }
            }
        }
    }

    /// Deletes a job no worker references: Pending or terminal. Its slot
    /// stays `None` forever; the id is never reused.
    fn delete_unreferenced(&mut self, job_id: u64)
        requires
            old(self).wf(),
            old(self).has_job(job_id),
            old(self).job_status(job_id) is Pending || old(self).job_status(job_id).is_terminal(),
        ensures
            final(self).wf(),
            !final(self).has_job(job_id),
            final(self).jobs@.len() == old(self).jobs@.len(),
            forall|i: int|
                0 <= i < final(self).jobs@.len() && i != job_id ==> final(self).jobs@[i] == old(
                    self,
                ).jobs@[i],
            forall|y: u64|
                final(self).jobs_waiting_for_assignment@.contains(y) <==> (old(
                    self,
                ).jobs_waiting_for_assignment@.contains(y) && y != job_id),
            final(self).workers@ == old(self).workers@,
    {
        idlist::remove_id(&mut self.jobs_waiting_for_assignment, job_id);
        let jobs_len = self.jobs.len();
        self.jobs[job_id as usize] = None;
        proof {
            let pre = old(self);
            let jpre = pre.jobs@;
            let jpost = self.jobs@;
            let waiting = self.jobs_waiting_for_assignment@;
            let rs = self.workers@;
            assert(jpost[job_id as int] is None);
            assert(jobs_ok(jpost)) by {
                assert forall|i: int|
                    0 <= i < jpost.len() && #[trigger] jpost[i] is Some implies jpost[i]->Some_0.info.job_id
                    == i as u64 by {
                    assert(jpost[i] == jpre[i]);
                }
            }
            assert(waiting_ok(jpost, waiting)) by {
                assert forall|k: int|
                    0 <= k < waiting.len() implies live(jpost, #[trigger] waiting[k]) && status_of(
                    jpost,
                    waiting[k],
                ) is Pending by {
                    assert(waiting.contains(waiting[k]));
                    assert(jpost[waiting[k] as int] == jpre[waiting[k] as int]);
                }
                assert forall|i: int|
                    0 <= i < jpost.len() && #[trigger] jpost[i] is Some
                        && jpost[i]->Some_0.info.status is Pending implies waiting.contains(
                    i as u64,
                ) by {
                    assert(i != job_id);
                    assert(jpost[i] == jpre[i]);
                }
            }
            assert(workers_ok(jpost, rs)) by {
                assert forall|w: int|
                    0 <= w < rs.len() && #[trigger] rs[w] is Some implies {
                    let e = rs[w]->Some_0;
                    &&& e.info.worker_id == w as u64
                    &&& e.lists_sorted()
                    &&& forall|id2: u64|
                        #[trigger] e.offered_jobs@.contains(id2) ==> live(jpost, id2) && status_of(
                            jpost,
                            id2,
                        ) == (JobStatus::Offered { worker_id: w as u64 })
                    &&& forall|id2: u64|
                        #[trigger] e.running_jobs@.contains(id2) ==> live(jpost, id2) && (status_of(
                            jpost,
                            id2,
                        ) matches JobStatus::Running { worker_id, .. } && worker_id == w as u64)
                } by {
                    let e = rs[w]->Some_0;
                    assert forall|id2: u64| #[trigger] e.offered_jobs@.contains(id2) implies live(
                        jpost,
                        id2,
                    ) && status_of(jpost, id2) == (JobStatus::Offered { worker_id: w as u64 }) by {
                        assert(status_of(jpre, id2) == (JobStatus::Offered {
                            worker_id: w as u64,
                        }));
                        assert(id2 != job_id);
                        assert(jpost[id2 as int] == jpre[id2 as int]);
                    }
                    assert forall|id2: u64| #[trigger] e.running_jobs@.contains(id2) implies live(
                        jpost,
                        id2,
                    ) && (status_of(jpost, id2) matches JobStatus::Running { worker_id, .. }
                        && worker_id == w as u64) by {
                        assert(id2 != job_id);
                        assert(jpost[id2 as int] == jpre[id2 as int]);
                    }
                }
            }
            assert(holders_ok(jpost, rs)) by {
                assert forall|i: int|
                    0 <= i < jpost.len() && #[trigger] jpost[i] is Some implies match jpost[i]->Some_0.info.status {
                    JobStatus::Offered { worker_id } => worker_live(rs, worker_id) && entry_of(
                        rs,
                        worker_id,
                    ).offered_jobs@.contains(i as u64),
                    JobStatus::Running { worker_id, .. } => worker_live(rs, worker_id) && entry_of(
                        rs,
                        worker_id,
                    ).running_jobs@.contains(i as u64),
                    _ => true,
                } by {
                    assert(jpost[i] == jpre[i]);
                }
            }
        }
    }

    /// A client asked for the job to go away. A job no worker holds is
    /// deleted at once (an outstanding offer is withdrawn first, so a
    /// late accept gets WithdrawJobOffer back). A running job is not
    /// deleted here: with `kill` it is marked for a KillJob on the
    /// holder's next turn, and the worker's Canceled report ends it;
    /// without `kill` the request is refused.
    pub fn remove_job(&mut self, job_id: u64, kill: bool) -> (r: RemoveOutcome)
        requires
            old(self).wf(),
        ensures
            final(self).wf(),
            match r {
                RemoveOutcome::NotFound => !old(self).has_job(job_id) && *final(self) == *old(
                    self,
                ),
                RemoveOutcome::Deleted => {
                    &&& old(self).has_job(job_id)
                    &&& (old(self).job_status(job_id) is Pending || old(self).job_status(
                        job_id,
                    ) is Offered || old(self).job_status(job_id).is_terminal())
                    &&& !final(self).has_job(job_id)
                    &&& forall|i: int|
                        0 <= i < final(self).jobs@.len() && i != job_id ==> final(self).jobs@[i]
                            == old(self).jobs@[i]
                    &&& final(self).jobs@.len() == old(self).jobs@.len()
                    &&& forall|y: u64|
                        final(self).jobs_waiting_for_assignment@.contains(y) <==> (old(
                            self,
                        ).jobs_waiting_for_assignment@.contains(y) && y != job_id)
                },
                RemoveOutcome::KillRequested => {
                    &&& old(self).has_job(job_id)
                    &&& old(self).job_status(job_id) is Running
                    &&& kill
                    &&& final(self).jobs@ == old(self).jobs@
                    &&& final(self).jobs_waiting_for_assignment@ == old(
                        self,
                    ).jobs_waiting_for_assignment@
                    &&& final(self).worker_at(
                        old(self).job_status(job_id).held_by(),
                    ).kill_jobs@.contains(job_id)
                },
                RemoveOutcome::Refused => {
                    &&& old(self).has_job(job_id)
                    &&& old(self).job_status(job_id) is Running
                    &&& !kill
                    &&& *final(self) == *old(self)
                },
            },
    {
        if job_id >= self.jobs.len() as u64 {
            return RemoveOutcome::NotFound;
        }
        let jobs_len = self.jobs.len();
        let mut running = false;
        let mut offered = false;
        let mut holder: u64 = 0;
        let mut found = false;
        match &self.jobs[job_id as usize] {
            Some(job) => {
                found = true;
                match &job.info.status {
                    JobStatus::Offered { worker_id } => {
                        offered = true;
                        holder = *worker_id;
                    }
                    JobStatus::Running { worker_id, .. } => {
                        running = true;
                        holder = *worker_id;
                    }
                    _ => {}
                }
            }
            None => {}
        }
        if !found {
            return RemoveOutcome::NotFound;
        }
        if running {
            if !kill {
                return RemoveOutcome::Refused;
            }
            let workers_len = self.workers.len();
            match &mut self.workers[holder as usize] {
                Some(e) => {
                    if !idlist::contains_id(&e.kill_jobs, job_id) {
                        idlist::insert_id(&mut e.kill_jobs, job_id);
                    }
                }
                None => {}
            }
            proof {
                self.lemma_entry_lists_replaced(*old(self), holder);
            }
            return RemoveOutcome::KillRequested;
        }
        if offered {
            // withdraw the offer, then delete the now-Pending job
            self.return_to_waiting(job_id);
        }
        self.delete_unreferenced(job_id);
        RemoveOutcome::Deleted
    }

    /// Reaps one dead worker: every job it still held goes back to
    /// Pending and into the waiting list, then the registry entry is
    /// dropped.
    fn reap_worker(&mut self, worker_id: u64)
        requires
            old(self).wf(),
            old(self).has_worker(worker_id),
            !old(self).worker_at(worker_id).alive,
        ensures
            final(self).wf(),
            final(self).workers@.len() == old(self).workers@.len(),
            final(self).workers@[worker_id as int] is None,
            forall|w: int|
                0 <= w < final(self).workers@.len() && w != worker_id ==> final(self).workers@[w]
                    == old(self).workers@[w],
            final(self).jobs@.len() == old(self).jobs@.len(),
            forall|y: u64|
                #[trigger] old(self).worker_at(worker_id).holds(y) ==> final(self).has_job(y)
                    && final(self).job_status(y) is Pending
                    && final(self).jobs_waiting_for_assignment@.contains(y),
            forall|i: int|
                0 <= i < old(self).jobs@.len() && !old(self).worker_at(worker_id).holds(i as u64)
                    ==> final(self).jobs@[i] == old(self).jobs@[i],
            forall|y: u64|
                final(self).jobs_waiting_for_assignment@.contains(y) <==> (old(
                    self,
                ).jobs_waiting_for_assignment@.contains(y) || old(self).worker_at(worker_id).holds(
                    y,
                )),
    {
        let workers_len = self.workers.len();
        loop
            invariant
                self.wf(),
                worker_id < workers_len as u64,
                workers_len == self.workers@.len(),
                self.workers@.len() == old(self).workers@.len(),
                self.jobs@.len() == old(self).jobs@.len(),
                forall|w: int|
                    0 <= w < self.workers@.len() && w != worker_id ==> self.workers@[w] == old(
                        self,
                    ).workers@[w],
                self.workers@[worker_id as int] is Some,
                forall|y: u64|
                    #[trigger] self.worker_at(worker_id).offered_jobs@.contains(y) ==> old(
                        self,
                    ).worker_at(worker_id).holds(y),
                forall|y: u64|
                    #[trigger] self.worker_at(worker_id).running_jobs@.contains(y) ==> old(
                        self,
                    ).worker_at(worker_id).holds(y),
                forall|y: u64|
                    #[trigger] old(self).worker_at(worker_id).holds(y) && !self.worker_at(
                        worker_id,
                    ).holds(y) ==> self.has_job(y) && self.job_status(y) is Pending
                        && self.jobs_waiting_for_assignment@.contains(y),
                forall|i: int|
                    0 <= i < old(self).jobs@.len() && !old(self).worker_at(worker_id).holds(
                        i as u64,
                    ) ==> self.jobs@[i] == old(self).jobs@[i],
                forall|y: u64|
                    self.jobs_waiting_for_assignment@.contains(y) <==> (old(
                        self,
                    ).jobs_waiting_for_assignment@.contains(y) || (old(self).worker_at(
                        worker_id,
                    ).holds(y) && !self.worker_at(worker_id).holds(y))),
            ensures
                self.wf(),
                workers_len == self.workers@.len(),
                self.workers@.len() == old(self).workers@.len(),
                self.jobs@.len() == old(self).jobs@.len(),
                forall|w: int|
                    0 <= w < self.workers@.len() && w != worker_id ==> self.workers@[w] == old(
                        self,
                    ).workers@[w],
                self.workers@[worker_id as int] is Some,
                self.worker_at(worker_id).offered_jobs@.len() == 0,
                self.worker_at(worker_id).running_jobs@.len() == 0,
                forall|y: u64|
                    #[trigger] old(self).worker_at(worker_id).holds(y) ==> self.has_job(y)
                        && self.job_status(y) is Pending
                        && self.jobs_waiting_for_assignment@.contains(y),
                forall|i: int|
                    0 <= i < old(self).jobs@.len() && !old(self).worker_at(worker_id).holds(
                        i as u64,
                    ) ==> self.jobs@[i] == old(self).jobs@[i],
                forall|y: u64|
                    self.jobs_waiting_for_assignment@.contains(y) <==> (old(
                        self,
                    ).jobs_waiting_for_assignment@.contains(y) || old(self).worker_at(
                        worker_id,
                    ).holds(y)),
            decreases
                    self.worker_at(worker_id).offered_jobs@.len() + self.worker_at(
                        worker_id,
                    ).running_jobs@.len(),
        {
            let next: Option<u64> = match &self.workers[worker_id as usize] {
                Some(e) => {
                    if e.offered_jobs.len() > 0 {
                        proof {
                            assert(e.offered_jobs@.contains(e.offered_jobs@[0]));
                        }
                        Some(e.offered_jobs[0])
                    } else if e.running_jobs.len() > 0 {
                        proof {
                            assert(e.running_jobs@.contains(e.running_jobs@[0]));
                        }
                        Some(e.running_jobs[0])
                    } else {
                        None
                    }
                }
                None => None,
            };
            match next {
                Some(id) => {
                    proof {
                        assert(self.worker_at(worker_id).holds(id));
                        assert(old(self).worker_at(worker_id).holds(id));
                    }
                    self.return_to_waiting(id);
                }
                None => {
                    break ;
                }
            }
        }
        proof {
            // nothing references the entry any more
            let jobs = self.jobs@;
            let rs = self.workers@;
            assert(self.worker_at(worker_id).offered_jobs@.len() == 0);
            assert(self.worker_at(worker_id).running_jobs@.len() == 0);
        }
        self.workers[worker_id as usize] = None;
        proof {
            let jobs = self.jobs@;
            let rpost = self.workers@;
            assert(workers_ok(jobs, rpost)) by {
                assert forall|w: int|
                    0 <= w < rpost.len() && #[trigger] rpost[w] is Some implies {
                    let e = rpost[w]->Some_0;
                    &&& e.info.worker_id == w as u64
                    &&& e.lists_sorted()
                    &&& forall|id2: u64|
                        #[trigger] e.offered_jobs@.contains(id2) ==> live(jobs, id2) && status_of(
                            jobs,
                            id2,
                        ) == (JobStatus::Offered { worker_id: w as u64 })
                    &&& forall|id2: u64|
                        #[trigger] e.running_jobs@.contains(id2) ==> live(jobs, id2) && (status_of(
                            jobs,
                            id2,
                        ) matches JobStatus::Running { worker_id, .. } && worker_id == w as u64)
                } by {
                    assert(w != worker_id);
                }
            }
            assert(holders_ok(jobs, rpost)) by {
                assert forall|i: int|
                    0 <= i < jobs.len() && #[trigger] jobs[i] is Some implies match jobs[i]->Some_0.info.status {
                    JobStatus::Offered { worker_id } => worker_live(rpost, worker_id) && entry_of(
                        rpost,
                        worker_id,
                    ).offered_jobs@.contains(i as u64),
                    JobStatus::Running { worker_id, .. } => worker_live(rpost, worker_id)
                        && entry_of(rpost, worker_id).running_jobs@.contains(i as u64),
                    _ => true,
                } by {
                    match jobs[i]->Some_0.info.status {
                        JobStatus::Offered { worker_id: w2 } => {
                            assert(w2 != worker_id);
                            assert(rpost[w2 as int] is Some);
                        }
                        JobStatus::Running { worker_id: w2, .. } => {
                            assert(w2 != worker_id);
                            assert(rpost[w2 as int] is Some);
                        }
                        _ => {}
                    }
                }
            }
        }
    }

    /// The periodic sweep: reaps every worker whose connection has ended
    /// and requeues the jobs it held, each back to Pending with its seat
    /// in the waiting list. Jobs held by live workers are untouched.
    pub fn run_maintenance(&mut self)
        requires
            old(self).wf(),
        ensures
            final(self).wf(),
            final(self).workers@.len() == old(self).workers@.len(),
            final(self).jobs@.len() == old(self).jobs@.len(),
            forall|w: int|
                0 <= w < old(self).workers@.len() && #[trigger] old(self).workers@[w] is Some
                    && old(self).workers@[w]->Some_0.alive ==> final(self).workers@[w] == old(
                    self,
                ).workers@[w],
            forall|w: int|
                0 <= w < old(self).workers@.len() && #[trigger] old(self).workers@[w] is Some && !old(
                    self,
                ).workers@[w]->Some_0.alive ==> final(self).workers@[w] is None,
            forall|w: int|
                0 <= w < old(self).workers@.len() && final(self).workers@[w] is Some
                    ==> final(self).workers@[w]->Some_0.alive,
            forall|y: u64|
                held_by_dead(old(self).workers@, y) ==> final(self).has_job(y)
                    && final(self).job_status(y) is Pending
                    && final(self).jobs_waiting_for_assignment@.contains(y),
            forall|i: int|
                0 <= i < old(self).jobs@.len() && !held_by_dead(old(self).workers@, i as u64)
                    ==> final(self).jobs@[i] == old(self).jobs@[i],
            forall|y: u64|
                final(self).jobs_waiting_for_assignment@.contains(y) <==> (old(
                    self,
                ).jobs_waiting_for_assignment@.contains(y) || held_by_dead(old(self).workers@, y)),
    {
        let workers_len = self.workers.len();
        let mut w: usize = 0;
        while w < workers_len
            invariant
                self.wf(),
                workers_len == self.workers@.len(),
                w <= workers_len,
                self.workers@.len() == old(self).workers@.len(),
                self.jobs@.len() == old(self).jobs@.len(),
                forall|w2: int| w <= w2 < workers_len ==> self.workers@[w2] == old(self).workers@[w2],
                forall|w2: int|
                    0 <= w2 < w && #[trigger] old(self).workers@[w2] is Some && old(
                        self,
                    ).workers@[w2]->Some_0.alive ==> self.workers@[w2] == old(self).workers@[w2],
                forall|w2: int|
                    0 <= w2 < w && #[trigger] old(self).workers@[w2] is Some && !old(
                        self,
                    ).workers@[w2]->Some_0.alive ==> self.workers@[w2] is None,
                forall|w2: int|
                    0 <= w2 < w && old(self).workers@[w2] is None ==> self.workers@[w2] is None,
                forall|y: u64|
                    #[trigger] held_by_dead_before(old(self).workers@, y, w as int)
                        ==> self.has_job(y) && self.job_status(y) is Pending
                        && self.jobs_waiting_for_assignment@.contains(y),
                forall|i: int|
                    0 <= i < old(self).jobs@.len() && !held_by_dead_before(
                        old(self).workers@,
                        i as u64,
                        w as int,
                    ) ==> self.jobs@[i] == old(self).jobs@[i],
                forall|y: u64|
                    self.jobs_waiting_for_assignment@.contains(y) <==> (old(
                        self,
                    ).jobs_waiting_for_assignment@.contains(y) || held_by_dead_before(
                        old(self).workers@,
                        y,
                        w as int,
                    )),
            decreases workers_len - w,
        {
            let dead: bool = match &self.workers[w] {
                Some(e) => !e.alive,
                None => false,
            };
            if dead {
                let ghost mid = *self;
                self.reap_worker(w as u64);
                proof {
                    let pre = old(self);
                    let rs = pre.workers@;
                    assert(mid.workers@[w as int] == rs[w as int]);
                    assert forall|y: u64|
                        #[trigger] held_by_dead_before(rs, y, w + 1) implies self.has_job(y)
                        && self.job_status(y) is Pending
                        && self.jobs_waiting_for_assignment@.contains(y) by {
                        let wd = choose|wd: int|
                            0 <= wd < w + 1 && #[trigger] rs[wd] is Some
                                && !rs[wd]->Some_0.alive && rs[wd]->Some_0.holds(y);
                        if wd < w {
                            assert(held_by_dead_before(rs, y, w as int));
                            assert(mid.has_job(y) && mid.job_status(y) is Pending
                                && mid.jobs_waiting_for_assignment@.contains(y));
                            if mid.worker_at(w as u64).holds(y) {
                                assert(status_of(mid.jobs@, y) is Offered || status_of(
                                    mid.jobs@,
                                    y,
                                ) is Running);
                            }
                            assert(!mid.worker_at(w as u64).holds(y));
                            assert(self.jobs@[y as int] == mid.jobs@[y as int]);
                        } else {
                            assert(mid.worker_at(w as u64).holds(y));
                        }
                    }
                    assert forall|i: int|
                        0 <= i < pre.jobs@.len() && !held_by_dead_before(
                            rs,
                            i as u64,
                            w + 1,
                        ) implies self.jobs@[i] == pre.jobs@[i] by {
                        assert(!held_by_dead_before(rs, i as u64, w as int)) by {
                            if held_by_dead_before(rs, i as u64, w as int) {
                                let wd = choose|wd: int|
                                    0 <= wd < w && #[trigger] rs[wd] is Some
                                        && !rs[wd]->Some_0.alive && rs[wd]->Some_0.holds(i as u64);
                                assert(held_by_dead_before(rs, i as u64, w + 1));
                            }
                        }
                        assert(mid.jobs@[i] == pre.jobs@[i]);
                        assert(!mid.worker_at(w as u64).holds(i as u64)) by {
                            if mid.worker_at(w as u64).holds(i as u64) {
                                assert(rs[w as int] is Some && !rs[w as int]->Some_0.alive
                                    && rs[w as int]->Some_0.holds(i as u64));
                                assert(held_by_dead_before(rs, i as u64, w + 1));
                            }
                        }
                    }
                    assert forall|y: u64|
                        self.jobs_waiting_for_assignment@.contains(y) <==> (pre
                            .jobs_waiting_for_assignment@.contains(y) || held_by_dead_before(
                            rs,
                            y,
                            w + 1,
                        )) by {
                        if self.jobs_waiting_for_assignment@.contains(y) {
                            if !mid.jobs_waiting_for_assignment@.contains(y) {
                                assert(mid.worker_at(w as u64).holds(y));
                                assert(held_by_dead_before(rs, y, w + 1));
                            }
                        }
                        if held_by_dead_before(rs, y, w + 1) {
                            let wd = choose|wd: int|
                                0 <= wd < w + 1 && #[trigger] rs[wd] is Some
                                    && !rs[wd]->Some_0.alive && rs[wd]->Some_0.holds(y);
                            if wd < w {
                                assert(held_by_dead_before(rs, y, w as int));
                            } else {
                                assert(mid.worker_at(w as u64).holds(y));
                            }
                        }
                    }
                }
            } else {
                proof {
                    let rs = old(self).workers@;
                    assert forall|y: u64|
                        #[trigger] held_by_dead_before(rs, y, w + 1) implies held_by_dead_before(
                        rs,
                        y,
                        w as int,
                    ) by {
                        let wd = choose|wd: int|
                            0 <= wd < w + 1 && #[trigger] rs[wd] is Some && !rs[wd]->Some_0.alive
                                && rs[wd]->Some_0.holds(y);
                        assert(wd != w);
                    }
                }
            }
            w += 1;
        }
        proof {
            let rs = old(self).workers@;
            assert forall|y: u64| held_by_dead(rs, y) implies held_by_dead_before(
                rs,
                y,
                workers_len as int,
            ) by {}
        }
    }

    /// Turns a Pending job into Canceled: it leaves the waiting list and
    /// will never be scheduled.
    fn cancel_pending(&mut self, job_id: u64, reason: String)
        requires
            old(self).wf(),
            old(self).has_job(job_id),
            old(self).job_status(job_id) is Pending,
        ensures
            final(self).wf(),
            final(self).has_job(job_id),
            final(self).job_status(job_id) matches JobStatus::Canceled { reason: r2 } && r2@
                == reason@,
            final(self).jobs@.len() == old(self).jobs@.len(),
            forall|i: int|
                0 <= i < final(self).jobs@.len() && i != job_id ==> final(self).jobs@[i] == old(
                    self,
                ).jobs@[i],
            forall|y: u64|
                final(self).jobs_waiting_for_assignment@.contains(y) <==> (old(
                    self,
                ).jobs_waiting_for_assignment@.contains(y) && y != job_id),
            final(self).workers@ == old(self).workers@,
    {
        idlist::remove_id(&mut self.jobs_waiting_for_assignment, job_id);
        let jobs_len = self.jobs.len();
        match &mut self.jobs[job_id as usize] {
            Some(job) => {
                job.info.status = JobStatus::Canceled { reason };
            }
            None => {}
        }
        proof {
            let pre = old(self);
            let jpre = pre.jobs@;
            let jpost = self.jobs@;
            let waiting = self.jobs_waiting_for_assignment@;
            let rs = self.workers@;
            assert(jpost[job_id as int] is Some);
            assert(jobs_ok(jpost)) by {
                assert forall|i: int|
                    0 <= i < jpost.len() && #[trigger] jpost[i] is Some implies jpost[i]->Some_0.info.job_id
                    == i as u64 by {
                    if i != job_id {
                        assert(jpost[i] == jpre[i]);
                    }
                }
            }
            assert(waiting_ok(jpost, waiting)) by {
                assert forall|k: int|
                    0 <= k < waiting.len() implies live(jpost, #[trigger] waiting[k]) && status_of(
                    jpost,
                    waiting[k],
                ) is Pending by {
                    assert(waiting.contains(waiting[k]));
                    assert(jpost[waiting[k] as int] == jpre[waiting[k] as int]);
                }
                assert forall|i: int|
                    0 <= i < jpost.len() && #[trigger] jpost[i] is Some
                        && jpost[i]->Some_0.info.status is Pending implies waiting.contains(
                    i as u64,
                ) by {
                    assert(i != job_id);
                    assert(jpost[i] == jpre[i]);
                }
            }
            assert(workers_ok(jpost, rs)) by {
                assert forall|w: int|
                    0 <= w < rs.len() && #[trigger] rs[w] is Some implies {
                    let e = rs[w]->Some_0;
                    &&& e.info.worker_id == w as u64
                    &&& e.lists_sorted()
                    &&& forall|id2: u64|
                        #[trigger] e.offered_jobs@.contains(id2) ==> live(jpost, id2) && status_of(
                            jpost,
                            id2,
                        ) == (JobStatus::Offered { worker_id: w as u64 })
                    &&& forall|id2: u64|
                        #[trigger] e.running_jobs@.contains(id2) ==> live(jpost, id2) && (status_of(
                            jpost,
                            id2,
                        ) matches JobStatus::Running { worker_id, .. } && worker_id == w as u64)
                } by {
                    let e = rs[w]->Some_0;
                    assert forall|id2: u64| #[trigger] e.offered_jobs@.contains(id2) implies live(
                        jpost,
                        id2,
                    ) && status_of(jpost, id2) == (JobStatus::Offered { worker_id: w as u64 }) by {
                        assert(id2 != job_id);
                        assert(jpost[id2 as int] == jpre[id2 as int]);
                    }
                    assert forall|id2: u64| #[trigger] e.running_jobs@.contains(id2) implies live(
                        jpost,
                        id2,
                    ) && (status_of(jpost, id2) matches JobStatus::Running { worker_id, .. }
                        && worker_id == w as u64) by {
                        assert(id2 != job_id);
                        assert(jpost[id2 as int] == jpre[id2 as int]);
                    }
                }
            }
            assert(holders_ok(jpost, rs)) by {
                assert forall|i: int|
                    0 <= i < jpost.len() && #[trigger] jpost[i] is Some implies match jpost[i]->Some_0.info.status {
                    JobStatus::Offered { worker_id } => worker_live(rs, worker_id) && entry_of(
                        rs,
                        worker_id,
                    ).offered_jobs@.contains(i as u64),
                    JobStatus::Running { worker_id, .. } => worker_live(rs, worker_id) && entry_of(
                        rs,
                        worker_id,
                    ).running_jobs@.contains(i as u64),
                    _ => true,
                } by {
                    if i != job_id {
                        assert(jpost[i] == jpre[i]);
                    }
                }
            }
        }
    }

    /// Force-cancels one non-terminal job: an Offered or Running job is
    /// pulled from its holder first, and a Running one is marked for a
    /// KillJob on that worker's next turn.
    fn force_cancel(&mut self, job_id: u64, reason: String)
        requires
            old(self).wf(),
            old(self).has_job(job_id),
            !old(self).job_status(job_id).is_terminal(),
        ensures
            final(self).wf(),
            final(self).has_job(job_id),
            final(self).job_status(job_id) is Canceled,
            final(self).jobs@.len() == old(self).jobs@.len(),
            forall|i: int|
                0 <= i < final(self).jobs@.len() && i != job_id ==> final(self).jobs@[i] == old(
                    self,
                ).jobs@[i],
            forall|y: u64|
                final(self).jobs_waiting_for_assignment@.contains(y) <==> (old(
                    self,
                ).jobs_waiting_for_assignment@.contains(y) && y != job_id),
            final(self).workers@.len() == old(self).workers@.len(),
            forall|w: int|
                0 <= w < old(self).workers@.len() && #[trigger] old(self).workers@[w] is Some
                    ==> final(self).workers@[w] is Some,
            forall|w: int|
                0 <= w < old(self).workers@.len() && old(self).workers@[w] is None
                    ==> final(self).workers@[w] is None,
    {
        let jobs_len = self.jobs.len();
        let mut held = false;
        let mut was_running = false;
        let mut holder: u64 = 0;
        match &self.jobs[job_id as usize] {
            Some(job) => {
                match &job.info.status {
                    JobStatus::Offered { worker_id } => {
                        held = true;
                        holder = *worker_id;
                    }
                    JobStatus::Running { worker_id, .. } => {
                        held = true;
                        was_running = true;
                        holder = *worker_id;
                    }
                    _ => {}
                }
            }
            None => {}
        }
        if held {
            self.return_to_waiting(job_id);
        }
        let ghost mid = *self;
        self.cancel_pending(job_id, reason);
        if was_running {
            let ghost mid2 = *self;
            let workers_len = self.workers.len();
            match &mut self.workers[holder as usize] {
                Some(e) => {
                    if !idlist::contains_id(&e.kill_jobs, job_id) {
                        idlist::insert_id(&mut e.kill_jobs, job_id);
                    }
                }
                None => {}
            }
            proof {
                self.lemma_entry_lists_replaced(mid2, holder);
            }
        }
    }

    /// Removes concluded jobs from the store. With `all`, every job that
    /// has not concluded is force-canceled first — kills going out to the
    /// workers that hold one — so the store is emptied entirely.
    pub fn clean_jobs(&mut self, all: bool, reason: String)
        requires
            old(self).wf(),
        ensures
            final(self).wf(),
            final(self).jobs@.len() == old(self).jobs@.len(),
            final(self).workers@.len() == old(self).workers@.len(),
            forall|i: int|
                0 <= i < old(self).jobs@.len() && #[trigger] old(self).jobs@[i] is Some && old(
                    self,
                ).jobs@[i]->Some_0.info.status.is_terminal() ==> final(self).jobs@[i] is None,
            all ==> forall|i: int| 0 <= i < final(self).jobs@.len() ==> final(self).jobs@[i] is None,
            all ==> final(self).jobs_waiting_for_assignment@.len() == 0,
            !all ==> forall|i: int|
                0 <= i < old(self).jobs@.len() && #[trigger] old(self).jobs@[i] is Some && !old(
                    self,
                ).jobs@[i]->Some_0.info.status.is_terminal() ==> final(self).jobs@[i] == old(
                    self,
                ).jobs@[i],
            !all ==> final(self).workers@ == old(self).workers@,
            !all ==> forall|y: u64|
                final(self).jobs_waiting_for_assignment@.contains(y) <==> old(
                    self,
                ).jobs_waiting_for_assignment@.contains(y),
    {
        let jobs_len = self.jobs.len();
        let mut i: usize = 0;
        while i < jobs_len
            invariant
                old(self).wf(),
                self.wf(),
                jobs_len == old(self).jobs@.len(),
                self.jobs@.len() == old(self).jobs@.len(),
                self.workers@.len() == old(self).workers@.len(),
                i <= jobs_len,
                forall|j: int| i <= j < jobs_len ==> self.jobs@[j] == old(self).jobs@[j],
                forall|j: int|
                    0 <= j < i && #[trigger] old(self).jobs@[j] is Some && (old(
                        self,
                    ).jobs@[j]->Some_0.info.status.is_terminal() || all) ==> self.jobs@[j] is None,
                forall|j: int|
                    0 <= j < i && #[trigger] old(self).jobs@[j] is Some && !old(
                        self,
                    ).jobs@[j]->Some_0.info.status.is_terminal() && !all ==> self.jobs@[j] == old(
                        self,
                    ).jobs@[j],
                forall|j: int| 0 <= j < jobs_len && old(self).jobs@[j] is None ==> self.jobs@[j] is None,
                !all ==> self.workers@ == old(self).workers@,
                !all ==> forall|y: u64|
                    self.jobs_waiting_for_assignment@.contains(y) <==> old(
                        self,
                    ).jobs_waiting_for_assignment@.contains(y),
            decreases jobs_len - i,
        {
            let id = i as u64;
            let mut live_here = false;
            let mut terminal = false;
            match &self.jobs[i] {
                Some(job) => {
                    live_here = true;
                    terminal = job.info.status.is_terminal_exec();
                }
                None => {}
            }
            if live_here {
                if terminal {
                    proof {
                        assert(self.jobs@[i as int] == old(self).jobs@[i as int]);
                    }
                    self.delete_unreferenced(id);
                } else if all {
                    self.force_cancel(id, reason.clone());
                    self.delete_unreferenced(id);
                }
            }
            i += 1;
        }
        proof {
            if all {
                if self.jobs_waiting_for_assignment@.len() > 0 {
                    let y = self.jobs_waiting_for_assignment@[0];
                    assert(self.jobs_waiting_for_assignment@.contains(y));
                    assert(live(self.jobs@, y));
                    assert(false);
                }
            }
        }
    }

    /// Counts the live jobs per state and averages the runtime of the
    /// finished ones, for the JobList answer: exactly the tally of the
    /// store, with the average rounded toward zero (zero when nothing
    /// finished).
    pub fn job_statistics(&self) -> (r: (u64, u64, u64, u64, u64, u64, i64))
        requires
            self.wf(),
        ensures
            ({
                let t = tally_from(self.jobs@, 0);
                &&& r.0 == t.pending
                &&& r.1 == t.offered
                &&& r.2 == t.running
                &&& r.3 == t.succeeded
                &&& r.4 == t.failed
                &&& r.5 == t.canceled
                &&& (t.finished_count > 0 ==> r.6 == t.finished_runtime_total
                    / t.finished_count)
                &&& (t.finished_count == 0 ==> r.6 == 0)
            }),
    {
        let n = self.jobs.len();
        let mut pending: u64 = 0;
        let mut offered: u64 = 0;
        let mut running: u64 = 0;
        let mut succeeded: u64 = 0;
        let mut failed: u64 = 0;
        let mut canceled: u64 = 0;
        let mut finished_count: u64 = 0;
        let mut runtime_total: i128 = 0;
        let mut i: usize = n;
        while i > 0
            invariant
                n == self.jobs@.len(),
                i <= n,
                ({
                    let t = tally_from(self.jobs@, i as int);
                    &&& pending == t.pending
                    &&& offered == t.offered
                    &&& running == t.running
                    &&& succeeded == t.succeeded
                    &&& failed == t.failed
                    &&& canceled == t.canceled
                    &&& finished_count == t.finished_count
                    &&& runtime_total == t.finished_runtime_total
                }),
            decreases i,
        {
            i = i - 1;
            proof {
                lemma_tally_bounds(self.jobs@, i as int);
                lemma_tally_bounds(self.jobs@, i + 1);
            }
            match &self.jobs[i] {
                Some(job) => {
                    match &job.info.status {
                        JobStatus::Pending => {
                            pending = pending + 1;
                        }
                        JobStatus::Offered { .. } => {
                            offered = offered + 1;
                        }
                        JobStatus::Running { .. } => {
                            running = running + 1;
                        }
                        JobStatus::Finished { return_code, run_time_seconds, .. } => {
                            if *return_code == 0 {
                                succeeded = succeeded + 1;
                            } else {
                                failed = failed + 1;
                            }
                            finished_count = finished_count + 1;
                            if *run_time_seconds >= 0 {
                                runtime_total = runtime_total + (*run_time_seconds as i128);
                            }
                        }
                        JobStatus::Canceled { .. } => {
                            canceled = canceled + 1;
                        }
                        JobStatus::Failed { .. } => {
                            failed = failed + 1;
                        }
                    }
                }
                None => {}
            }
        }
        let avg: i64 = if finished_count > 0 {
            proof {
                lemma_tally_bounds(self.jobs@, 0);
                let total = tally_from(self.jobs@, 0).finished_runtime_total;
                let cnt = finished_count as int;
                assert(0 <= total / cnt <= i64::MAX as int) by (nonlinear_arith)
                    requires
                        cnt > 0,
                        0 <= total,
                        total <= cnt * (i64::MAX as int),
                ;
            }
            (runtime_total / (finished_count as i128)) as i64
        } else {
            0
        };
        (pending, offered, running, succeeded, failed, canceled, avg)
    }

    /// Law: at any instant, at most one worker holds a given job in its
    /// offered or running list — the sum over workers of "holds the job"
    /// never exceeds one.
    pub proof fn lemma_at_most_one_holder(&self, id: u64, w1: int, w2: int)
        requires
            self.wf(),
            0 <= w1 < self.workers@.len(),
            0 <= w2 < self.workers@.len(),
            self.workers@[w1] is Some,
            self.workers@[w2] is Some,
            self.workers@[w1]->Some_0.holds(id),
            self.workers@[w2]->Some_0.holds(id),
        ensures
            w1 == w2,
    {
        let e1 = self.workers@[w1]->Some_0;
        let e2 = self.workers@[w2]->Some_0;
        let st = status_of(self.jobs@, id);
        if e1.offered_jobs@.contains(id) {
            assert(st == (JobStatus::Offered { worker_id: w1 as u64 }));
        } else {
            assert(st matches JobStatus::Running { worker_id, .. } && worker_id == w1 as u64);
        }
        if e2.offered_jobs@.contains(id) {
            assert(st == (JobStatus::Offered { worker_id: w2 as u64 }));
        } else {
            assert(st matches JobStatus::Running { worker_id, .. } && worker_id == w2 as u64);
        }
        assert(st.held_by() == w1 as u64);
        assert(st.held_by() == w2 as u64);
        assert(self.workers@.len() <= usize::MAX) by {
            broadcast use vstd::std_specs::vec::axiom_spec_len;

            assert(spec_vec_len(&self.workers) == self.workers@.len());
        }
        assert(w1 == w2);
    }

    /// Law: a job id sits in the waiting list exactly when the job is live
    /// and Pending.
    pub proof fn lemma_waiting_iff_pending(&self, id: u64)
        requires
            self.wf(),
        ensures
            self.jobs_waiting_for_assignment@.contains(id) <==> (self.has_job(id)
                && self.job_status(id) is Pending),
    {
        let waiting = self.jobs_waiting_for_assignment@;
        if waiting.contains(id) {
            let k = choose|k: int| 0 <= k < waiting.len() && waiting[k] == id;
        }
    }

    /// Law: a job's conclusion is recorded once. A terminal report is
    /// accepted only while the job is Running on the reporting worker;
    /// merging one makes the status terminal, and a terminal job is never
    /// Running, Offered or Pending again, so a second terminal report for
    /// it is never accepted.
    pub proof fn lemma_terminal_report_accepted_once(&self, job_id: u64)
        requires
            self.wf(),
            self.has_job(job_id),
            self.job_status(job_id).is_terminal(),
        ensures
            !(self.job_status(job_id) is Running),
            !(self.job_status(job_id) is Offered),
            !(self.job_status(job_id) is Pending),
            !self.jobs_waiting_for_assignment@.contains(job_id),
    {
        self.lemma_waiting_iff_pending(job_id);
    }

    /// Law: a rejection is sticky. A job the worker rejected stays in its
    /// exclude set for the whole session, and the pick never returns an
    /// excluded job, so the worker is never offered it again.
    pub proof fn lemma_rejected_is_excluded(&self, worker_id: u64, id: u64)
        requires
            self.wf(),
            self.has_worker(worker_id),
            self.worker_at(worker_id).rejected_jobs@.contains(id),
        ensures
            self.worker_at(worker_id).excluded(id),
    {
    }

    /// True when this very worker holds this job as an outstanding offer.
    fn offer_outstanding(&self, worker_id: u64, job_id: u64) -> (r: bool)
        requires
            self.wf(),
        ensures
            r == (self.has_job(job_id) && self.job_status(job_id) == (JobStatus::Offered {
                worker_id,
            })),
    {
        if job_id >= self.jobs.len() as u64 {
            return false;
        }
        match &self.jobs[job_id as usize] {
            Some(job) => {
                match &job.info.status {
                    JobStatus::Offered { worker_id: w } => *w == worker_id,
                    _ => false,
                }
            }
            None => false,
        }
    }

    /// Re-proves the invariant when only a worker's deferred, rejected or
    /// kill list changed: none of those lists is tied to job statuses.
    proof fn lemma_entry_lists_replaced(&self, pre: Manager, worker_id: u64)
        requires
            pre.wf(),
            self.jobs@ == pre.jobs@,
            self.jobs_waiting_for_assignment@ == pre.jobs_waiting_for_assignment@,
            self.workers@.len() == pre.workers@.len(),
            worker_id < pre.workers@.len(),
            forall|w: int|
                0 <= w < pre.workers@.len() && w != worker_id ==> self.workers@[w]
                    == pre.workers@[w],
            pre.workers@[worker_id as int] is Some,
            self.workers@[worker_id as int] is Some,
            self.worker_at(worker_id).info.worker_id == pre.worker_at(worker_id).info.worker_id,
            self.worker_at(worker_id).offered_jobs@ == pre.worker_at(worker_id).offered_jobs@,
            self.worker_at(worker_id).running_jobs@ == pre.worker_at(worker_id).running_jobs@,
            self.worker_at(worker_id).lists_sorted(),
        ensures
            self.wf(),
    {
        let jobs = self.jobs@;
        let rpre = pre.workers@;
        let rpost = self.workers@;
        assert(workers_ok(jobs, rpost)) by {
            assert forall|w: int|
                0 <= w < rpost.len() && #[trigger] rpost[w] is Some implies {
                let e = rpost[w]->Some_0;
                &&& e.info.worker_id == w as u64
                &&& e.lists_sorted()
                &&& forall|id2: u64|
                    #[trigger] e.offered_jobs@.contains(id2) ==> live(jobs, id2) && status_of(
                        jobs,
                        id2,
                    ) == (JobStatus::Offered { worker_id: w as u64 })
                &&& forall|id2: u64|
                    #[trigger] e.running_jobs@.contains(id2) ==> live(jobs, id2) && (status_of(
                        jobs,
                        id2,
                    ) matches JobStatus::Running { worker_id, .. } && worker_id == w as u64)
            } by {
                if w != worker_id {
                    assert(rpost[w] == rpre[w]);
                } else {
                    let e = rpost[w]->Some_0;
                    let eold = rpre[w]->Some_0;
                    assert(e.offered_jobs@ == eold.offered_jobs@);
                    assert(e.running_jobs@ == eold.running_jobs@);
                }
            }
        }
        assert(holders_ok(jobs, rpost)) by {
            assert forall|i: int|
                0 <= i < jobs.len() && #[trigger] jobs[i] is Some implies match jobs[i]->Some_0.info.status {
                JobStatus::Offered { worker_id } => worker_live(rpost, worker_id) && entry_of(
                    rpost,
                    worker_id,
                ).offered_jobs@.contains(i as u64),
                JobStatus::Running { worker_id, .. } => worker_live(rpost, worker_id) && entry_of(
                    rpost,
                    worker_id,
                ).running_jobs@.contains(i as u64),
                _ => true,
            } by {
                match jobs[i]->Some_0.info.status {
                    JobStatus::Offered { worker_id: w2 } => {
                        if w2 != worker_id {
                            assert(rpost[w2 as int] == rpre[w2 as int]);
                        }
                    }
                    JobStatus::Running { worker_id: w2, .. } => {
                        if w2 != worker_id {
                            assert(rpost[w2 as int] == rpre[w2 as int]);
                        }
                    }
                    _ => {}
                }
            }
        }
    }

    /// The owning connection ended: mark the worker dead. Its jobs keep
    /// their statuses until the next maintenance sweep repatriates them.
    pub fn disconnect_worker(&mut self, worker_id: u64)
        requires
            old(self).wf(),
            old(self).has_worker(worker_id),
        ensures
            final(self).wf(),
            final(self).has_worker(worker_id),
            !final(self).worker_at(worker_id).alive,
            final(self).worker_at(worker_id) == (WorkerEntry {
                alive: false,
                ..old(self).worker_at(worker_id)
            }),
            final(self).jobs@ == old(self).jobs@,
            final(self).jobs_waiting_for_assignment@ == old(self).jobs_waiting_for_assignment@,
            final(self).workers@.len() == old(self).workers@.len(),
            forall|w: int|
                0 <= w < final(self).workers@.len() && w != worker_id ==> final(self).workers@[w]
                    == old(self).workers@[w],
    {
        let workers_len = self.workers.len();
        match &mut self.workers[worker_id as usize] {
            Some(e) => {
                e.alive = false;
            }
            None => {}
        }
        proof {
            self.lemma_entry_lists_replaced(*old(self), worker_id);
        }
    }

    /// The worker reported its free capacity. When the report shows more
    /// of anything than before, its deferred offers are forgiven, so the
    /// next drain may offer those jobs again.
    pub fn update_worker_resources(&mut self, worker_id: u64, res: Resources, now: i64) -> (grew:
        bool)
        requires
            old(self).wf(),
            old(self).has_worker(worker_id),
        ensures
            final(self).wf(),
            final(self).has_worker(worker_id),
            grew == {
                let pre = old(self).worker_at(worker_id).info.available_resources;
                res.job_slots > pre.job_slots || res.cpus > pre.cpus || res.ram_mb > pre.ram_mb
            },
            final(self).worker_at(worker_id).info == (WorkerInfo {
                available_resources: res,
                last_seen_at: now,
                ..old(self).worker_at(worker_id).info
            }),
            final(self).worker_at(worker_id) == (WorkerEntry {
                info: final(self).worker_at(worker_id).info,
                deferred_jobs: final(self).worker_at(worker_id).deferred_jobs,
                ..old(self).worker_at(worker_id)
            }),
            grew ==> final(self).worker_at(worker_id).deferred_jobs@.len() == 0,
            !grew ==> final(self).worker_at(worker_id).deferred_jobs@ == old(self).worker_at(
                worker_id,
            ).deferred_jobs@,
            final(self).jobs@ == old(self).jobs@,
            final(self).jobs_waiting_for_assignment@ == old(self).jobs_waiting_for_assignment@,
            final(self).workers@.len() == old(self).workers@.len(),
            forall|w: int|
                0 <= w < final(self).workers@.len() && w != worker_id ==> final(self).workers@[w]
                    == old(self).workers@[w],
    {
        let workers_len = self.workers.len();
        let mut grew = false;
        match &mut self.workers[worker_id as usize] {
            Some(e) => {
                let pre = e.info.available_resources;
                grew = res.job_slots > pre.job_slots || res.cpus > pre.cpus || res.ram_mb
                    > pre.ram_mb;
                e.info.available_resources = res;
                e.info.last_seen_at = now;
                if grew {
                    e.deferred_jobs = Vec::new();
                }
            }
            None => {}
        }
        proof {
            self.lemma_entry_lists_replaced(*old(self), worker_id);
        }
        grew
    }

    /// The worker reported fresh hardware and load figures; also serves as
    /// a keep-alive.
    pub fn update_worker_system_info(&mut self, worker_id: u64, system_info: SystemInfo, now: i64)
        requires
            old(self).wf(),
            old(self).has_worker(worker_id),
        ensures
            final(self).wf(),
            final(self).has_worker(worker_id),
            final(self).worker_at(worker_id).info.system_info@ == system_info@,
            final(self).worker_at(worker_id).info.last_seen_at == now,
            final(self).worker_at(worker_id) == (WorkerEntry {
                info: final(self).worker_at(worker_id).info,
                ..old(self).worker_at(worker_id)
            }),
            final(self).worker_at(worker_id).info == (WorkerInfo {
                system_info: final(self).worker_at(worker_id).info.system_info,
                last_seen_at: now,
                ..old(self).worker_at(worker_id).info
            }),
            final(self).jobs@ == old(self).jobs@,
            final(self).jobs_waiting_for_assignment@ == old(self).jobs_waiting_for_assignment@,
            final(self).workers@.len() == old(self).workers@.len(),
            forall|w: int|
                0 <= w < final(self).workers@.len() && w != worker_id ==> final(self).workers@[w]
                    == old(self).workers@[w],
    {
        let workers_len = self.workers.len();
        match &mut self.workers[worker_id as usize] {
            Some(e) => {
                e.info.system_info = system_info;
                e.info.last_seen_at = now;
            }
            None => {}
        }
        proof {
            self.lemma_entry_lists_replaced(*old(self), worker_id);
        }
    }

    /// The jobs this worker shall not be offered right now: everything it
    /// deferred or rejected in this session.
    pub fn exclude_list(&self, worker_id: u64) -> (r: Vec<u64>)
        requires
            self.wf(),
            self.has_worker(worker_id),
        ensures
            forall|y: u64| r@.contains(y) <==> self.worker_at(worker_id).excluded(y),
    {
        let workers_len = self.workers.len();
        let mut r: Vec<u64> = Vec::new();
        match &self.workers[worker_id as usize] {
            Some(e) => {
                let mut i: usize = 0;
                while i < e.deferred_jobs.len()
                    invariant
                        i <= e.deferred_jobs@.len(),
                        forall|y: u64|
                            r@.contains(y) <==> e.deferred_jobs@.take(i as int).contains(y),
                    decreases e.deferred_jobs.len() - i,
                {
                    let ghost rpre = r@;
                    r.push(e.deferred_jobs[i]);
                    proof {
                        broadcast use vstd::seq_lib::group_seq_properties;

                        assert(e.deferred_jobs@.take(i + 1) == e.deferred_jobs@.take(
                            i as int,
                        ).push(e.deferred_jobs@[i as int]));
                        assert(r@ == rpre.push(e.deferred_jobs@[i as int]));
                    }
                    i += 1;
                }
                proof {
                    assert(e.deferred_jobs@.take(e.deferred_jobs@.len() as int)
                        =~= e.deferred_jobs@);
                }
                let mut j: usize = 0;
                while j < e.rejected_jobs.len()
                    invariant
                        j <= e.rejected_jobs@.len(),
                        forall|y: u64|
                            r@.contains(y) <==> (e.deferred_jobs@.contains(y)
                                || e.rejected_jobs@.take(j as int).contains(y)),
                    decreases e.rejected_jobs.len() - j,
                {
                    let ghost rpre = r@;
                    r.push(e.rejected_jobs[j]);
                    proof {
                        broadcast use vstd::seq_lib::group_seq_properties;

                        assert(e.rejected_jobs@.take(j + 1) == e.rejected_jobs@.take(
                            j as int,
                        ).push(e.rejected_jobs@[j as int]));
                        assert(r@ == rpre.push(e.rejected_jobs@[j as int]));
                    }
                    j += 1;
                }
                proof {
                    assert(e.rejected_jobs@.take(e.rejected_jobs@.len() as int)
                        =~= e.rejected_jobs@);
                }
            }
            None => {}
        }
        r
    }

    /// The next job a client wants killed on this worker, if any; the
    /// caller turns it into a KillJob message.
    pub fn next_kill_for(&mut self, worker_id: u64) -> (r: Option<u64>)
        requires
            old(self).wf(),
            old(self).has_worker(worker_id),
        ensures
            final(self).wf(),
            final(self).has_worker(worker_id),
            match r {
                Some(id) => {
                    &&& old(self).worker_at(worker_id).kill_jobs@.contains(id)
                    &&& forall|y: u64|
                        final(self).worker_at(worker_id).kill_jobs@.contains(y) <==> (old(
                            self,
                        ).worker_at(worker_id).kill_jobs@.contains(y) && y != id)
                    &&& final(self).worker_at(worker_id) == (WorkerEntry {
                        kill_jobs: final(self).worker_at(worker_id).kill_jobs,
                        ..old(self).worker_at(worker_id)
                    })
                    &&& final(self).jobs@ == old(self).jobs@
                    &&& final(self).jobs_waiting_for_assignment@ == old(
                        self,
                    ).jobs_waiting_for_assignment@
                    &&& final(self).workers@.len() == old(self).workers@.len()
                    &&& forall|w: int|
                        0 <= w < final(self).workers@.len() && w != worker_id
                            ==> final(self).workers@[w] == old(self).workers@[w]
                },
                None => *final(self) == *old(self) && old(self).worker_at(
                    worker_id,
                ).kill_jobs@.len() == 0,
            },
    {
        let workers_len = self.workers.len();
        let any: bool = match &self.workers[worker_id as usize] {
            Some(e) => e.kill_jobs.len() > 0,
            None => false,
        };
        if !any {
            return None;
        }
        let mut r: Option<u64> = None;
        match &mut self.workers[worker_id as usize] {
            Some(e) => {
                let id = e.kill_jobs[0];
                proof {
                    assert(e.kill_jobs@.contains(e.kill_jobs@[0]));
                }
                idlist::remove_id(&mut e.kill_jobs, id);
                r = Some(id);
            }
            None => {}
        }
        proof {
            self.lemma_entry_lists_replaced(*old(self), worker_id);
        }
        r
    }

    /// Copies of the handles of all live workers, ascending by id.
    pub fn get_all_worker_infos(&self) -> (r: Vec<WorkerInfo>)
        requires
            self.wf(),
        ensures
            forall|k: int|
                0 <= k < r@.len() ==> self.has_worker(#[trigger] r@[k].worker_id) && r@[k]@
                    == self.worker_at(r@[k].worker_id).info@,
            forall|w: int|
                0 <= w < self.workers@.len() && #[trigger] self.workers@[w] is Some ==> exists|
                    k: int,
                |
                    0 <= k < r@.len() && #[trigger] r@[k].worker_id == w as u64,
    {
        let mut r: Vec<WorkerInfo> = Vec::new();
        let mut i: usize = 0;
        while i < self.workers.len()
            invariant
                i <= self.workers@.len(),
                self.wf(),
                forall|k: int|
                    0 <= k < r@.len() ==> self.has_worker(#[trigger] r@[k].worker_id) && r@[k]@
                        == self.worker_at(r@[k].worker_id).info@,
                forall|w: int|
                    0 <= w < i && #[trigger] self.workers@[w] is Some ==> exists|k: int|
                        0 <= k < r@.len() && #[trigger] r@[k].worker_id == w as u64,
            decreases self.workers.len() - i,
        {
            match &self.workers[i] {
                Some(e) => {
                    proof {
                        assert(self.workers@[i as int] is Some);
                        assert(e.info.worker_id == i as u64);
                    }
                    let ghost rpre = r@;
                    r.push(e.info.clone());
                    proof {
                        assert(r@[r@.len() - 1].worker_id == i as u64);
                        assert forall|w: int|
                            0 <= w < i + 1 && #[trigger] self.workers@[w] is Some implies exists|
                            k: int,
                        |
                            0 <= k < r@.len() && #[trigger] r@[k].worker_id == w as u64 by {
                            if w < i {
                                let k = choose|k: int|
                                    0 <= k < rpre.len() && #[trigger] rpre[k].worker_id == w as u64;
                                assert(r@[k].worker_id == w as u64);
                            } else {
                                assert(r@[r@.len() - 1].worker_id == w as u64);
                            }
                        }
                    }
                }
                None => {}
            }
            i += 1;
        }
        r
    }
}

} // verus!
