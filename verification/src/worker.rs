//! The worker-side controller: decides which offers to accept from a
//! fresh look at the local resources, tracks accepted and running jobs,
//! and builds the terminal reports when children conclude. All probing of
//! the real system happens outside; the controller receives plain
//! numbers.

use vstd::prelude::*;
use crate::jobs::{JobInfo, JobStatus, JobStatusView};
use crate::messages::{ServerToWorkerMessage, WorkerToServerMessage};
use crate::resources::Resources;
use crate::workers::{LoadInfo, SystemInfo};

verus! {

/// The settings the controller works under.
pub struct WorkerConfig {
    pub worker_name: String,
    /// Upper bound on the job slots allocated at once.
    pub max_parallel_jobs: u64,
    /// When set, free cpus and RAM are judged against the measured load,
    /// not only against the allocations.
    pub dynamic_check_free_resources: bool,
    /// Scale factor on the 1-minute load, in thousandths (1.0 is 1000).
    pub dynamic_cpu_load_scale_milli: u64,
}

/// One fresh reading of the local machine, taken right before a decision.
/// Loads are in thousandths; `cpu_frequency_sum` is the sum of the per-core
/// frequencies in MHz.
#[derive(Clone, Copy, Debug, PartialEq, Eq, Structural)]
pub struct SystemProbe {
    pub cpu_cores: u64,
    pub cpu_frequency_sum: u64,
    pub total_ram_mb: u64,
    pub available_ram_mb: u64,
    pub load_one_milli: u64,
    pub load_five_milli: u64,
    pub load_fifteen_milli: u64,
}

/// A job whose child process has been spawned (or is about to be).
pub struct RunningJob {
    pub info: JobInfo,
}

/// Componentwise total of resource demands, unbounded.
#[verifier::ext_equal]
pub ghost struct ResTotal {
    pub job_slots: int,
    pub cpus: int,
    pub ram_mb: int,
}

impl ResTotal {
    pub open spec fn zero() -> ResTotal {
        ResTotal { job_slots: 0, cpus: 0, ram_mb: 0 }
    }

    pub open spec fn plus(self, o: ResTotal) -> ResTotal {
        ResTotal {
            job_slots: self.job_slots + o.job_slots,
            cpus: self.cpus + o.cpus,
            ram_mb: self.ram_mb + o.ram_mb,
        }
    }

    pub open spec fn of(r: Resources) -> ResTotal {
        ResTotal { job_slots: r.job_slots as int, cpus: r.cpus as int, ram_mb: r.ram_mb as int }
    }
}

/// Sum of the demands from index `i` on.
pub open spec fn sum_res_from(s: Seq<Resources>, i: int) -> ResTotal
    decreases s.len() - i,
{
    if 0 <= i < s.len() {
        ResTotal::of(s[i]).plus(sum_res_from(s, i + 1))
    } else {
        ResTotal::zero()
    }
}

/// Componentwise total demand of a list of resource bundles.
pub open spec fn sum_res(s: Seq<Resources>) -> ResTotal {
    sum_res_from(s, 0)
}

/// Every partial sum is componentwise non-negative.
pub proof fn lemma_sum_nonneg(s: Seq<Resources>, i: int)
    ensures
        sum_res_from(s, i).job_slots >= 0,
        sum_res_from(s, i).cpus >= 0,
        sum_res_from(s, i).ram_mb >= 0,
    decreases s.len() - i,
{
    if 0 <= i < s.len() {
        lemma_sum_nonneg(s, i + 1);
    }
}

/// Appending a demand adds it to the total.
pub proof fn lemma_sum_push(s: Seq<Resources>, x: Resources, i: int)
    requires
        0 <= i <= s.len(),
    ensures
        sum_res_from(s.push(x), i) == sum_res_from(s, i).plus(ResTotal::of(x)),
    decreases s.len() - i,
{
    if i == s.len() {
        assert(s.push(x)[i] == x);
        assert(sum_res_from(s.push(x), i + 1) == ResTotal::zero());
        assert(sum_res_from(s, i) == ResTotal::zero());
        assert(sum_res_from(s.push(x), i) =~= sum_res_from(s, i).plus(ResTotal::of(x)));
    } else {
        assert(s.push(x)[i] == s[i]);
        lemma_sum_push(s, x, i + 1);
        assert(sum_res_from(s.push(x), i) =~= sum_res_from(s, i).plus(ResTotal::of(x)));
    }
}

/// Dropping the entry at `k` takes its demand out of the total: the tail
/// after `k` shifts down by one.
pub proof fn lemma_sum_remove_tail(s: Seq<Resources>, k: int, i: int)
    requires
        0 <= k < s.len(),
        k <= i <= s.len() - 1,
    ensures
        sum_res_from(s.remove(k), i) == sum_res_from(s, i + 1),
    decreases s.len() - i,
{
    if i < s.len() - 1 {
        assert(s.remove(k)[i] == s[i + 1]);
        lemma_sum_remove_tail(s, k, i + 1);
        assert(sum_res_from(s.remove(k), i) =~= sum_res_from(s, i + 1));
    } else {
        assert(sum_res_from(s.remove(k), i) == ResTotal::zero());
        assert(sum_res_from(s, i + 1) == ResTotal::zero());
    }
}

/// Dropping the entry at `k` subtracts exactly its demand.
pub proof fn lemma_sum_remove(s: Seq<Resources>, k: int, i: int)
    requires
        0 <= i <= k < s.len(),
    ensures
        sum_res_from(s, i) == sum_res_from(s.remove(k), i).plus(ResTotal::of(s[k])),
    decreases k - i,
{
    if i == k {
        lemma_sum_remove_tail(s, k, i);
        assert(sum_res_from(s, i) =~= sum_res_from(s.remove(k), i).plus(ResTotal::of(s[k])));
    } else {
        assert(s.remove(k)[i] == s[i]);
        lemma_sum_remove(s, k, i + 1);
        assert(sum_res_from(s, i) =~= sum_res_from(s.remove(k), i).plus(ResTotal::of(s[k])));
    }
}

/// The demands of a list of accepted jobs.
pub open spec fn reqs_of_jobs(s: Seq<JobInfo>) -> Seq<Resources> {
    s.map_values(|j: JobInfo| j.required_resources)
}

/// The demands of a list of running jobs.
pub open spec fn reqs_of_running(s: Seq<RunningJob>) -> Seq<Resources> {
    s.map_values(|r: RunningJob| r.info.required_resources)
}

/// Ceiling division for non-negative operands.
pub open spec fn ceil_div(a: int, b: int) -> int {
    (a + b - 1) / b
}

/// Cpus counted busy under dynamic checking: the 1-minute load scaled,
/// rounded up.
pub open spec fn spec_busy_cpus(load_one_milli: u64, scale_milli: u64) -> int {
    ceil_div(load_one_milli * scale_milli, 1000000)
}

/// The free capacity the worker reports: what the configuration grants,
/// minus what accepted and running jobs hold, and under dynamic checking
/// also minus what the measured load occupies.
pub open spec fn spec_available(cfg: WorkerConfig, alloc: Resources, probe: SystemProbe) -> Resources {
    let slots = (cfg.max_parallel_jobs - alloc.job_slots) as u64;
    let total_cpus = probe.cpu_cores as int;
    let cpus = if cfg.dynamic_check_free_resources {
        let busy = spec_busy_cpus(probe.load_one_milli, cfg.dynamic_cpu_load_scale_milli);
        let used = if busy > alloc.cpus as int {
            busy
        } else {
            alloc.cpus as int
        };
        if total_cpus > used {
            total_cpus - used
        } else {
            0
        }
    } else {
        if total_cpus > alloc.cpus as int {
            total_cpus - alloc.cpus as int
        } else {
            0
        }
    };
    let free_ram = probe.total_ram_mb as int - alloc.ram_mb as int;
    let ram = if cfg.dynamic_check_free_resources {
        let capped = if free_ram < probe.available_ram_mb as int {
            free_ram
        } else {
            probe.available_ram_mb as int
        };
        if capped > 0 {
            capped
        } else {
            0
        }
    } else {
        if free_ram > 0 {
            free_ram
        } else {
            0
        }
    };
    Resources { job_slots: slots, cpus: cpus as u64, ram_mb: ram as u64 }
}

/// How the controller answers an OfferJob, from the configuration, the
/// current allocations, a fresh probe, and whether the working directory
/// exists here: missing directory is a reject, a fitting demand an
/// accept, anything else a defer.
pub open spec fn offer_decision(
    cfg: WorkerConfig,
    alloc: Resources,
    probe: SystemProbe,
    cwd_is_dir: bool,
    req: Resources,
) -> OfferResponse {
    if !cwd_is_dir {
        OfferResponse::Reject
    } else if req.spec_fit_into(spec_available(cfg, alloc, probe)) {
        OfferResponse::Accept
    } else {
        OfferResponse::Defer
    }
}

/// The three possible answers to a job offer.
#[derive(Clone, Copy, Debug, PartialEq, Eq, Structural)]
pub enum OfferResponse {
    Accept,
    Defer,
    Reject,
}

/// What the event loop must do after a message was handled: the outside
/// work the library cannot perform itself.
pub enum WorkerAction {
    /// Send this message back to the server.
    Reply(WorkerToServerMessage),
    /// Spawn the child process for this confirmed job.
    Spawn(JobInfo),
    /// Signal the child of this job to terminate.
    Kill(u64),
    /// The server said Bye: leave the loop.
    Stop,
    /// Nothing to do.
    Ignore,
}

/// The worker-side controller state.
pub struct WorkerState {
    pub config: WorkerConfig,
    /// Offers we said yes to, not yet confirmed by the server.
    pub accepted_jobs: Vec<JobInfo>,
    /// Jobs whose child process runs (or failed to start and awaits its
    /// synthesized report).
    pub running_jobs: Vec<RunningJob>,
    /// Componentwise total demand of accepted and running jobs together.
    pub allocated: Resources,
}

impl WorkerState {
    /// Total demand of everything the worker currently holds.
    pub open spec fn total_demand(&self) -> ResTotal {
        sum_res(reqs_of_jobs(self.accepted_jobs@)).plus(
            sum_res(reqs_of_running(self.running_jobs@)),
        )
    }

    /// The cached `allocated` equals the real sums, and the slot
    /// allocation never exceeds the configured maximum.
    pub open spec fn wf(&self) -> bool {
        &&& self.allocated.job_slots as int == self.total_demand().job_slots
        &&& self.allocated.cpus as int == self.total_demand().cpus
        &&& self.allocated.ram_mb as int == self.total_demand().ram_mb
        &&& self.allocated.job_slots <= self.config.max_parallel_jobs
    }

    /// Some accepted job carries this id.
    pub open spec fn has_accepted(&self, job_id: u64) -> bool {
        exists|k: int| 0 <= k < self.accepted_jobs@.len() && self.accepted_jobs@[k].job_id == job_id
    }

    /// Some running job carries this id.
    pub open spec fn has_running(&self, job_id: u64) -> bool {
        exists|k: int|
            0 <= k < self.running_jobs@.len() && self.running_jobs@[k].info.job_id == job_id
    }

    /// Computes the free capacity from a fresh probe, exactly as
    /// `spec_available` states it.
    pub fn get_available_resources(&self, probe: SystemProbe) -> (r: Resources)
        requires
            self.wf(),
        ensures
            r == spec_available(self.config, self.allocated, probe),
            r.job_slots + self.allocated.job_slots == self.config.max_parallel_jobs,
    {
        let slots = self.config.max_parallel_jobs - self.allocated.job_slots;
        let total_cpus = probe.cpu_cores as u128;
        let cpus_128: u128 = if self.config.dynamic_check_free_resources {
            proof {
                let a = probe.load_one_milli as int;
                let b = self.config.dynamic_cpu_load_scale_milli as int;
                assert(0 <= a * b <= 0xffff_ffff_ffff_ffff * 0xffff_ffff_ffff_ffff)
                    by (nonlinear_arith)
                    requires
                        0 <= a <= 0xffff_ffff_ffff_ffff,
                        0 <= b <= 0xffff_ffff_ffff_ffff,
                ;
            }
            let busy: u128 = ((probe.load_one_milli as u128) * (
            self.config.dynamic_cpu_load_scale_milli as u128) + 999999) / 1000000;
            let used: u128 = if busy > self.allocated.cpus as u128 {
                busy
            } else {
                self.allocated.cpus as u128
            };
            if total_cpus > used {
                total_cpus - used
            } else {
                0
            }
        } else {
            if total_cpus > self.allocated.cpus as u128 {
                total_cpus - self.allocated.cpus as u128
            } else {
                0
            }
        };
        let cpus = cpus_128 as u64;
        let ram: u64 = if self.config.dynamic_check_free_resources {
            if probe.total_ram_mb > self.allocated.ram_mb {
                let free = probe.total_ram_mb - self.allocated.ram_mb;
                if free < probe.available_ram_mb {
                    free
                } else {
                    probe.available_ram_mb
                }
            } else {
                0
            }
        } else {
            if probe.total_ram_mb > self.allocated.ram_mb {
                probe.total_ram_mb - self.allocated.ram_mb
            } else {
                0
            }
        };
        Resources { job_slots: slots, cpus, ram_mb: ram }
    }

    /// Law: whatever the probe says, the reported free job slots plus the
    /// held demand never exceed the configured maximum.
    pub proof fn lemma_slots_bounded(&self, probe: SystemProbe)
        requires
            self.wf(),
        ensures
            spec_available(self.config, self.allocated, probe).job_slots as int
                + self.total_demand().job_slots <= self.config.max_parallel_jobs,
    {
    }

    /// True when the demand fits into a freshly computed free capacity.
    pub fn resources_available(&self, probe: SystemProbe, required: &Resources) -> (r: bool)
        requires
            self.wf(),
        ensures
            r == required.spec_fit_into(spec_available(self.config, self.allocated, probe)),
    {
        let available = self.get_available_resources(probe);
        required.fit_into(&available)
    }

    /// Answers an OfferJob: reject when the working directory is missing
    /// here, accept (and remember the job) when its demand fits into a
    /// fresh availability snapshot, defer otherwise.
    pub fn on_offer_job(
        &mut self,
        job_info: JobInfo,
        cwd_is_dir: bool,
        probe: SystemProbe,
    ) -> (r: WorkerToServerMessage)
        requires
            old(self).wf(),
        ensures
            final(self).wf(),
            final(self).config == old(self).config,
            final(self).running_jobs@ == old(self).running_jobs@,
            match r {
                WorkerToServerMessage::AcceptJobOffer(j) => {
                    &&& offer_decision(
                        old(self).config,
                        old(self).allocated,
                        probe,
                        cwd_is_dir,
                        job_info.required_resources,
                    ) is Accept
                    &&& j@ == job_info@
                    &&& final(self).accepted_jobs@.len() == old(self).accepted_jobs@.len() + 1
                    &&& final(self).accepted_jobs@.last()@ == job_info@
                    &&& forall|k: int|
                        0 <= k < old(self).accepted_jobs@.len() ==> final(self).accepted_jobs@[k]
                            == old(self).accepted_jobs@[k]
                },
                WorkerToServerMessage::DeferJobOffer(j) => {
                    &&& offer_decision(
                        old(self).config,
                        old(self).allocated,
                        probe,
                        cwd_is_dir,
                        job_info.required_resources,
                    ) is Defer
                    &&& j == job_info
                    &&& *final(self) == *old(self)
                },
                WorkerToServerMessage::RejectJobOffer(j) => {
                    &&& !cwd_is_dir
                    &&& j == job_info
                    &&& *final(self) == *old(self)
                },
                _ => false,
            },
    {
        if !cwd_is_dir {
            return WorkerToServerMessage::RejectJobOffer(job_info);
        }
        let available = self.get_available_resources(probe);
        if job_info.required_resources.fit_into(&available) {
            let req = job_info.required_resources;
            let reply = job_info.clone();
            proof {
                lemma_sum_nonneg(reqs_of_jobs(self.accepted_jobs@), 0);
                lemma_sum_nonneg(reqs_of_running(self.running_jobs@), 0);
            }
            self.allocated = Resources {
                job_slots: self.allocated.job_slots + req.job_slots,
                cpus: self.allocated.cpus + req.cpus,
                ram_mb: self.allocated.ram_mb + req.ram_mb,
            };
            self.accepted_jobs.push(job_info);
            proof {
                let apre = reqs_of_jobs(old(self).accepted_jobs@);
                let apost = reqs_of_jobs(self.accepted_jobs@);
                assert(apost =~= apre.push(req));
                lemma_sum_push(apre, req, 0);
            }
            WorkerToServerMessage::AcceptJobOffer(reply)
        } else {
            WorkerToServerMessage::DeferJobOffer(job_info)
        }
    }

    /// A ConfirmJobOffer arrived: the accepted job moves to the running
    /// list, taking the status the server sent (now Running), and a copy
    /// of its record is handed back so the child process can be spawned.
    /// A confirm for a job never accepted is ignored.
    pub fn on_confirm_job_offer(&mut self, job_id: u64, status: JobStatus) -> (r: Option<JobInfo>)
        requires
            old(self).wf(),
        ensures
            final(self).wf(),
            final(self).config == old(self).config,
            final(self).allocated == old(self).allocated,
            r is Some <==> old(self).has_accepted(job_id),
            r is None ==> *final(self) == *old(self),
            r matches Some(ji) ==> exists|k: int|
                {
                    &&& 0 <= k < old(self).accepted_jobs@.len()
                    &&& old(self).accepted_jobs@[k].job_id == job_id
                    &&& final(self).accepted_jobs@ == old(self).accepted_jobs@.remove(k)
                    &&& final(self).running_jobs@.len() == old(self).running_jobs@.len() + 1
                    &&& final(self).running_jobs@.last().info == (JobInfo {
                        status: status,
                        ..old(self).accepted_jobs@[k]
                    })
                    &&& (forall|m: int|
                        0 <= m < old(self).running_jobs@.len() ==> final(self).running_jobs@[m]
                            == old(self).running_jobs@[m])
                    &&& ji@ == final(self).running_jobs@.last().info@
                },
    {
        let n = self.accepted_jobs.len();
        let mut k: usize = 0;
        while k < n
            invariant
                old(self).wf(),
                *self == *old(self),
                n == self.accepted_jobs@.len(),
                k <= n,
                forall|m: int| 0 <= m < k ==> self.accepted_jobs@[m].job_id != job_id,
            decreases n - k,
        {
            if self.accepted_jobs[k].job_id == job_id {
                let ghost apre = reqs_of_jobs(self.accepted_jobs@);
                let ghost rpre = reqs_of_running(self.running_jobs@);
                let mut info = self.accepted_jobs.remove(k);
                let ghost req = info.required_resources;
                info.status = status;
                let ji = info.clone();
                self.running_jobs.push(RunningJob { info });
                proof {
                    let apost = reqs_of_jobs(self.accepted_jobs@);
                    let rpost = reqs_of_running(self.running_jobs@);
                    assert(apost =~= apre.remove(k as int));
                    assert(rpost =~= rpre.push(req));
                    lemma_sum_remove(apre, k as int, 0);
                    lemma_sum_push(rpre, req, 0);
                }
                return Some(ji);
            }
            k += 1;
        }
        proof {
            assert(!old(self).has_accepted(job_id));
        }
        None
    }

    /// A WithdrawJobOffer arrived: the accepted job is forgotten with no
    /// reply; its demand is freed. A withdraw for an unknown job is
    /// ignored.
    pub fn on_withdraw_job_offer(&mut self, job_id: u64) -> (removed: bool)
        requires
            old(self).wf(),
        ensures
            final(self).wf(),
            final(self).config == old(self).config,
            final(self).running_jobs@ == old(self).running_jobs@,
            removed == old(self).has_accepted(job_id),
            !removed ==> *final(self) == *old(self),
            removed ==> exists|k: int|
                {
                    &&& 0 <= k < old(self).accepted_jobs@.len()
                    &&& old(self).accepted_jobs@[k].job_id == job_id
                    &&& final(self).accepted_jobs@ == old(self).accepted_jobs@.remove(k)
                },
    {
        let n = self.accepted_jobs.len();
        let mut k: usize = 0;
        while k < n
            invariant
                old(self).wf(),
                *self == *old(self),
                n == self.accepted_jobs@.len(),
                k <= n,
                forall|m: int| 0 <= m < k ==> self.accepted_jobs@[m].job_id != job_id,
            decreases n - k,
        {
            if self.accepted_jobs[k].job_id == job_id {
                let ghost apre = reqs_of_jobs(self.accepted_jobs@);
                proof {
                    assert(apre[k as int] == self.accepted_jobs@[k as int].required_resources);
                    lemma_sum_remove(apre, k as int, 0);
                    lemma_sum_nonneg(apre.remove(k as int), 0);
                    lemma_sum_nonneg(reqs_of_running(self.running_jobs@), 0);
                }
                let info = self.accepted_jobs.remove(k);
                let req = info.required_resources;
                self.allocated = Resources {
                    job_slots: self.allocated.job_slots - req.job_slots,
                    cpus: self.allocated.cpus - req.cpus,
                    ram_mb: self.allocated.ram_mb - req.ram_mb,
                };
                proof {
                    assert(reqs_of_jobs(self.accepted_jobs@) =~= apre.remove(k as int));
                }
                return true;
            }
            k += 1;
        }
        proof {
            assert(!old(self).has_accepted(job_id));
        }
        false
    }

    /// A KillJob arrived: the running job takes the status the server sent
    /// (now Canceled) and `true` asks the caller to signal the child. The
    /// job stays in the running list; the normal conclusion pipeline
    /// removes it once the child exits. Unknown ids are ignored.
    pub fn on_kill_job(&mut self, job_id: u64, status: JobStatus) -> (signal: bool)
        requires
            old(self).wf(),
        ensures
            final(self).wf(),
            final(self).config == old(self).config,
            final(self).allocated == old(self).allocated,
            final(self).accepted_jobs@ == old(self).accepted_jobs@,
            signal == old(self).has_running(job_id),
            !signal ==> *final(self) == *old(self),
            signal ==> exists|k: int|
                {
                    &&& 0 <= k < old(self).running_jobs@.len()
                    &&& old(self).running_jobs@[k].info.job_id == job_id
                    &&& final(self).running_jobs@ == old(self).running_jobs@.update(
                        k,
                        RunningJob {
                            info: JobInfo { status: status, ..old(self).running_jobs@[k].info },
                        },
                    )
                },
    {
        let n = self.running_jobs.len();
        let mut k: usize = 0;
        while k < n
            invariant
                old(self).wf(),
                *self == *old(self),
                n == self.running_jobs@.len(),
                k <= n,
                forall|m: int| 0 <= m < k ==> self.running_jobs@[m].info.job_id != job_id,
            decreases n - k,
        {
            if self.running_jobs[k].info.job_id == job_id {
                let ghost rpre = self.running_jobs@;
                {
                    let rj = &mut self.running_jobs[k];
                    rj.info.status = status;
                }
                proof {
                    assert(reqs_of_running(self.running_jobs@) =~= reqs_of_running(rpre));
                    assert(reqs_of_jobs(self.accepted_jobs@) == reqs_of_jobs(
                        old(self).accepted_jobs@,
                    ));
                }
                return true;
            }
            k += 1;
        }
        proof {
            assert(!old(self).has_running(job_id));
        }
        false
    }

    /// A child process concluded: the job leaves the running list, its
    /// demand is freed, and the terminal record to report is built. A job
    /// that was Running becomes Finished with the child's exit code and
    /// wall-clock time; one the server canceled keeps its Canceled status.
    /// The returned pair of output texts drops empty captures. `None` when
    /// no running job carries the id — so each conclusion is reported
    /// exactly once.
    pub fn finish_job(
        &mut self,
        job_id: u64,
        exit_code: i64,
        run_time_seconds: i64,
        comment: String,
        stdout_text: String,
        stderr_text: String,
    ) -> (r: Option<(JobInfo, Option<String>, Option<String>)>)
        requires
            old(self).wf(),
        ensures
            final(self).wf(),
            final(self).config == old(self).config,
            final(self).accepted_jobs@ == old(self).accepted_jobs@,
            r is Some <==> old(self).has_running(job_id),
            r is None ==> *final(self) == *old(self),
            r matches Some((ji, out, err)) ==> exists|k: int|
                {
                    &&& 0 <= k < old(self).running_jobs@.len()
                    &&& old(self).running_jobs@[k].info.job_id == job_id
                    &&& final(self).running_jobs@ == old(self).running_jobs@.remove(k)
                    &&& ({
                        let pre = old(self).running_jobs@[k].info;
                        &&& (pre.status is Running ==> ji@.status == (JobStatusView::Finished {
                            return_code: exit_code,
                            run_time_seconds,
                            worker: old(self).config.worker_name@,
                            comment: comment@,
                        }))
                        &&& (!(pre.status is Running) ==> ji@.status == pre.status@)
                        &&& ji@.job_id == pre.job_id
                        &&& ji@.cmd == pre@.cmd
                        &&& ji@.cwd == pre.cwd@
                        &&& ji@.required_resources == pre.required_resources
                    })
                    &&& (stdout_text@.len() == 0 ==> out is None)
                    &&& (stdout_text@.len() > 0 ==> (out matches Some(s) && s@ == stdout_text@))
                    &&& (stderr_text@.len() == 0 ==> err is None)
                    &&& (stderr_text@.len() > 0 ==> (err matches Some(s) && s@ == stderr_text@))
                },
    {
        let n = self.running_jobs.len();
        let mut k: usize = 0;
        while k < n
            invariant
                old(self).wf(),
                *self == *old(self),
                n == self.running_jobs@.len(),
                k <= n,
                forall|m: int| 0 <= m < k ==> self.running_jobs@[m].info.job_id != job_id,
            decreases n - k,
        {
            if self.running_jobs[k].info.job_id == job_id {
                let ghost rpre = reqs_of_running(self.running_jobs@);
                proof {
                    assert(rpre[k as int]
                        == self.running_jobs@[k as int].info.required_resources);
                    lemma_sum_remove(rpre, k as int, 0);
                    lemma_sum_nonneg(rpre.remove(k as int), 0);
                    lemma_sum_nonneg(reqs_of_jobs(self.accepted_jobs@), 0);
                }
                let rj = self.running_jobs.remove(k);
                let mut info = rj.info;
                let req = info.required_resources;
                self.allocated = Resources {
                    job_slots: self.allocated.job_slots - req.job_slots,
                    cpus: self.allocated.cpus - req.cpus,
                    ram_mb: self.allocated.ram_mb - req.ram_mb,
                };
                proof {
                    assert(reqs_of_running(self.running_jobs@) =~= rpre.remove(k as int));
                }
                let was_running = match &info.status {
                    JobStatus::Running { .. } => true,
                    _ => false,
                };
                if was_running {
                    info.status = JobStatus::Finished {
                        return_code: exit_code,
                        run_time_seconds,
                        worker: self.config.worker_name.clone(),
                        comment,
                    };
                }
                let out: Option<String> = if !stdout_text.as_str().is_empty() {
                    Some(stdout_text)
                } else {
                    None
                };
                let err: Option<String> = if !stderr_text.as_str().is_empty() {
                    Some(stderr_text)
                } else {
                    None
                };
                return Some((info, out, err));
            }
            k += 1;
        }
        proof {
            assert(!old(self).has_running(job_id));
        }
        None
    }

    /// Law: a concluded job is reported once. When the running jobs carry
    /// distinct ids (the server confirms each job to one worker once), the
    /// record that `finish_job` removed is gone, so a second conclusion
    /// report for the same id cannot be produced.
    pub proof fn lemma_report_once(&self, pre: WorkerState, k: int, job_id: u64)
        requires
            forall|a: int, b: int|
                0 <= a < b < pre.running_jobs@.len() ==> pre.running_jobs@[a].info.job_id
                    != pre.running_jobs@[b].info.job_id,
            0 <= k < pre.running_jobs@.len(),
            pre.running_jobs@[k].info.job_id == job_id,
            self.running_jobs@ == pre.running_jobs@.remove(k),
        ensures
            !self.has_running(job_id),
    {
        assert forall|m: int| 0 <= m < self.running_jobs@.len() implies self.running_jobs@[m].info.job_id
            != job_id by {
            if m < k {
                assert(self.running_jobs@[m] == pre.running_jobs@[m]);
            } else {
                assert(self.running_jobs@[m] == pre.running_jobs@[m + 1]);
            }
        }
    }

    /// Assembles the hardware report from a fresh probe: core count,
    /// average core frequency, total RAM, and the load averages.
    pub fn build_system_info(
        &self,
        probe: SystemProbe,
        kernel: String,
        distribution: String,
    ) -> (r: SystemInfo)
        ensures
            r.kernel == kernel,
            r.distribution == distribution,
            r.cpu_cores == probe.cpu_cores,
            probe.cpu_cores > 0 ==> r.cpu_frequency as int == probe.cpu_frequency_sum as int
                / probe.cpu_cores as int,
            probe.cpu_cores == 0 ==> r.cpu_frequency == 0,
            r.total_ram_mb == probe.total_ram_mb,
            r.load_info == (LoadInfo {
                one_milli: probe.load_one_milli,
                five_milli: probe.load_five_milli,
                fifteen_milli: probe.load_fifteen_milli,
            }),
    {
        let cpu_frequency = if probe.cpu_cores > 0 {
            probe.cpu_frequency_sum / probe.cpu_cores
        } else {
            0
        };
        SystemInfo {
            kernel,
            distribution,
            cpu_cores: probe.cpu_cores,
            cpu_frequency,
            total_ram_mb: probe.total_ram_mb,
            load_info: LoadInfo {
                one_milli: probe.load_one_milli,
                five_milli: probe.load_five_milli,
                fifteen_milli: probe.load_fifteen_milli,
            },
        }
    }

    /// Dispatches one message from the server to the matching handler and
    /// names the outside work the caller must do: reply, spawn a child,
    /// signal one, or stop the loop. Duplicate handshake messages are
    /// ignored, as is anything about jobs this worker does not hold.
    pub fn handle_message(
        &mut self,
        message: ServerToWorkerMessage,
        cwd_is_dir: bool,
        probe: SystemProbe,
    ) -> (r: WorkerAction)
        requires
            old(self).wf(),
        ensures
            final(self).wf(),
            final(self).config == old(self).config,
            match message {
                ServerToWorkerMessage::OfferJob(_) => r is Reply,
                ServerToWorkerMessage::ConfirmJobOffer(j) => if old(self).has_accepted(j.job_id) {
                    r is Spawn
                } else {
                    r is Ignore
                },
                ServerToWorkerMessage::WithdrawJobOffer(_) => r is Ignore,
                ServerToWorkerMessage::KillJob(j) => if old(self).has_running(j.job_id) {
                    r matches WorkerAction::Kill(id) && id == j.job_id
                } else {
                    r is Ignore
                },
                ServerToWorkerMessage::Bye => r is Stop && *final(self) == *old(self),
                _ => r is Ignore && *final(self) == *old(self),
            },
            (r matches WorkerAction::Reply(m) ==> (message matches ServerToWorkerMessage::OfferJob(
                j,
            ) && (match m {
                WorkerToServerMessage::AcceptJobOffer(_) => offer_decision(
                    old(self).config,
                    old(self).allocated,
                    probe,
                    cwd_is_dir,
                    j.required_resources,
                ) is Accept,
                WorkerToServerMessage::DeferJobOffer(_) => offer_decision(
                    old(self).config,
                    old(self).allocated,
                    probe,
                    cwd_is_dir,
                    j.required_resources,
                ) is Defer,
                WorkerToServerMessage::RejectJobOffer(_) => !cwd_is_dir,
                _ => false,
            }))),
    {
        match message {
            ServerToWorkerMessage::WelcomeWorker => WorkerAction::Ignore,
            ServerToWorkerMessage::AuthChallenge { .. } => WorkerAction::Ignore,
            ServerToWorkerMessage::AuthAccepted(_) => WorkerAction::Ignore,
            ServerToWorkerMessage::OfferJob(job_info) => {
                let reply = self.on_offer_job(job_info, cwd_is_dir, probe);
                proof {
                    match reply {
                        WorkerToServerMessage::AcceptJobOffer(_) => {}
                        WorkerToServerMessage::DeferJobOffer(_) => {}
                        WorkerToServerMessage::RejectJobOffer(_) => {}
                        _ => {
                            assert(false);
                        }
                    }
                }
                WorkerAction::Reply(reply)
            }
            ServerToWorkerMessage::ConfirmJobOffer(job_info) => {
                let id = job_info.job_id;
                match self.on_confirm_job_offer(id, job_info.status) {
                    Some(ji) => WorkerAction::Spawn(ji),
                    None => WorkerAction::Ignore,
                }
            }
            ServerToWorkerMessage::WithdrawJobOffer(job_info) => {
                self.on_withdraw_job_offer(job_info.job_id);
                WorkerAction::Ignore
            }
            ServerToWorkerMessage::KillJob(job_info) => {
                let id = job_info.job_id;
                if self.on_kill_job(id, job_info.status) {
                    WorkerAction::Kill(id)
                } else {
                    WorkerAction::Ignore
                }
            }
            ServerToWorkerMessage::Bye => WorkerAction::Stop,
        }
    }

    /// A fresh controller with no jobs.
    pub fn new(config: WorkerConfig) -> (r: WorkerState)
        ensures
            r.wf(),
            r.accepted_jobs@.len() == 0,
            r.running_jobs@.len() == 0,
            r.config == config,
    {
        let r = WorkerState {
            config,
            accepted_jobs: Vec::new(),
            running_jobs: Vec::new(),
            allocated: Resources::new(0, 0, 0),
        };
        proof {
            assert(reqs_of_jobs(r.accepted_jobs@) =~= Seq::<Resources>::empty());
            assert(reqs_of_running(r.running_jobs@) =~= Seq::<Resources>::empty());
        }
        r
    }
}

} // verus!
