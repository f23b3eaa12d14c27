//! Jobs and the records the server and the workers keep about them.
//!
//! A job is a user-submitted command line with a working directory and a
//! resource demand. Its status walks the path
//! Pending -> Offered -> Running -> {Finished | Canceled}; the direct steps
//! Pending -> Canceled and Offered -> Pending (withdraw, reject, worker
//! loss) are also allowed.

use vstd::prelude::*;
use crate::resources::Resources;

verus! {

/// Scheduling state of a job.
pub enum JobStatus {
    /// Waiting for assignment to a worker.
    Pending,
    /// Tentatively assigned to a worker, awaiting its accept/defer/reject.
    Offered { worker_id: u64 },
    /// Confirmed and started on a worker.
    Running { worker_id: u64, started_at: i64 },
    /// The worker reported the child process done.
    Finished { return_code: i64, run_time_seconds: i64, worker: String, comment: String },
    /// Canceled before or during execution.
    Canceled { reason: String },
    /// Could not be brought to execution.
    Failed { reason: String },
}

/// Mathematical image of a `JobStatus`: strings become character sequences.
#[verifier::ext_equal]
pub ghost enum JobStatusView {
    Pending,
    Offered { worker_id: u64 },
    Running { worker_id: u64, started_at: i64 },
    Finished { return_code: i64, run_time_seconds: i64, worker: Seq<char>, comment: Seq<char> },
    Canceled { reason: Seq<char> },
    Failed { reason: Seq<char> },
}

impl View for JobStatus {
    type V = JobStatusView;

    open spec fn view(&self) -> JobStatusView {
        match self {
            JobStatus::Pending => JobStatusView::Pending,
            JobStatus::Offered { worker_id } => JobStatusView::Offered { worker_id: *worker_id },
            JobStatus::Running { worker_id, started_at } => JobStatusView::Running {
                worker_id: *worker_id,
                started_at: *started_at,
            },
            JobStatus::Finished { return_code, run_time_seconds, worker, comment } => JobStatusView::Finished {
                return_code: *return_code,
                run_time_seconds: *run_time_seconds,
                worker: worker@,
                comment: comment@,
            },
            JobStatus::Canceled { reason } => JobStatusView::Canceled { reason: reason@ },
            JobStatus::Failed { reason } => JobStatusView::Failed { reason: reason@ },
        }
    }
}

impl JobStatus {
    /// The job is waiting for assignment.
    pub open spec fn is_pending(&self) -> bool {
        self is Pending
    }

    /// The job has reached a final state and will never run again.
    pub open spec fn is_terminal(&self) -> bool {
        self is Finished || self is Canceled || self is Failed
    }

    /// The worker named by an Offered or Running status; zero elsewhere,
    /// where no worker holds the job.
    pub open spec fn held_by(&self) -> u64 {
        match self {
            JobStatus::Offered { worker_id } => *worker_id,
            JobStatus::Running { worker_id, .. } => *worker_id,
            _ => 0,
        }
    }

    pub fn is_pending_exec(&self) -> (r: bool)
        ensures
            r == self.is_pending(),
    {
        match self {
            JobStatus::Pending => true,
            _ => false,
        }
    }

    pub fn is_terminal_exec(&self) -> (r: bool)
        ensures
            r == self.is_terminal(),
    {
        match self {
            JobStatus::Finished { .. } => true,
            JobStatus::Canceled { .. } => true,
            JobStatus::Failed { .. } => true,
            _ => false,
        }
    }
}

impl Clone for JobStatus {
    fn clone(&self) -> (r: Self)
        ensures
            r@ == self@,
    {
        match self {
            JobStatus::Pending => JobStatus::Pending,
            JobStatus::Offered { worker_id } => JobStatus::Offered { worker_id: *worker_id },
            JobStatus::Running { worker_id, started_at } => JobStatus::Running {
                worker_id: *worker_id,
                started_at: *started_at,
            },
            JobStatus::Finished { return_code, run_time_seconds, worker, comment } => JobStatus::Finished {
                return_code: *return_code,
                run_time_seconds: *run_time_seconds,
                worker: worker.clone(),
                comment: comment.clone(),
            },
            JobStatus::Canceled { reason } => JobStatus::Canceled { reason: reason.clone() },
            JobStatus::Failed { reason } => JobStatus::Failed { reason: reason.clone() },
        }
    }
}

/// Everything the server and the worker exchange about one job.
pub struct JobInfo {
    /// Assigned by the server from a monotonic counter; unique for the
    /// server's lifetime.
    pub job_id: u64,
    /// Program and arguments.
    pub cmd: Vec<String>,
    /// Working directory on the worker.
    pub cwd: String,
    /// Job slots, cpus and RAM the job demands.
    pub required_resources: Resources,
    pub status: JobStatus,
    /// Timestamps in seconds; the server never interprets them.
    pub issued_at: i64,
    pub started_at: Option<i64>,
    pub finished_at: Option<i64>,
}

/// Mathematical image of a `JobInfo`.
#[verifier::ext_equal]
pub ghost struct JobInfoView {
    pub job_id: u64,
    pub cmd: Seq<Seq<char>>,
    pub cwd: Seq<char>,
    pub required_resources: Resources,
    pub status: JobStatusView,
    pub issued_at: i64,
    pub started_at: Option<i64>,
    pub finished_at: Option<i64>,
}

impl View for JobInfo {
    type V = JobInfoView;

    open spec fn view(&self) -> JobInfoView {
        JobInfoView {
            job_id: self.job_id,
            cmd: self.cmd@.map_values(|s: String| s@),
            cwd: self.cwd@,
            required_resources: self.required_resources,
            status: self.status@,
            issued_at: self.issued_at,
            started_at: self.started_at,
            finished_at: self.finished_at,
        }
    }
}

/// Clones a command line; the contract keeps the character content.
pub fn clone_cmd(cmd: &Vec<String>) -> (r: Vec<String>)
    ensures
        r@.map_values(|s: String| s@) == cmd@.map_values(|s: String| s@),
        r@.len() == cmd@.len(),
{
    let mut r: Vec<String> = Vec::new();
    let mut i: usize = 0;
    while i < cmd.len()
        invariant
            i <= cmd.len(),
            r@.len() == i,
            forall|k: int| 0 <= k < i ==> r@[k] == cmd@[k],
        decreases cmd.len() - i,
    {
        r.push(cmd[i].clone());
        i += 1;
    }
    proof {
        assert(r@.map_values(|s: String| s@) =~= cmd@.map_values(|s: String| s@));
    }
    r
}

impl Clone for JobInfo {
    fn clone(&self) -> (r: Self)
        ensures
            r@ == self@,
    {
        let r = JobInfo {
            job_id: self.job_id,
            cmd: clone_cmd(&self.cmd),
            cwd: self.cwd.clone(),
            required_resources: self.required_resources,
            status: self.status.clone(),
            issued_at: self.issued_at,
            started_at: self.started_at,
            finished_at: self.finished_at,
        };
        proof {
            assert(r@ =~= self@);
        }
        r
    }
}

impl JobInfo {
    /// A fresh job as the server records it on submission.
    pub fn new(
        job_id: u64,
        cmd: Vec<String>,
        cwd: String,
        required_resources: Resources,
        issued_at: i64,
    ) -> (r: JobInfo)
        ensures
            r.job_id == job_id,
            r.cmd == cmd,
            r.cwd == cwd,
            r.required_resources == required_resources,
            r.status is Pending,
            r.issued_at == issued_at,
            r.started_at is None,
            r.finished_at is None,
    {
        JobInfo {
            job_id,
            cmd,
            cwd,
            required_resources,
            status: JobStatus::Pending,
            issued_at,
            started_at: None,
            finished_at: None,
        }
    }
}

/// The server's authoritative record of one job: the shared info plus the
/// captured output and the pending kill mark.
pub struct Job {
    pub info: JobInfo,
    /// Output the worker has reported so far.
    pub stdout_text: Option<String>,
    pub stderr_text: Option<String>,
}

} // verus!
