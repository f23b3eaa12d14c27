//! The messages the three actors exchange. Connections carry them as
//! self-delimiting JSON values on a TCP stream; the framing lives in
//! `frame`, and the encoding itself is done outside the library.

use vstd::prelude::*;
use crate::jobs::JobInfo;
use crate::resources::Resources;
use crate::workers::{SystemInfo, WorkerInfo};

verus! {

/// Opens a conversation; the server answers with the matching welcome.
pub enum HelloMessage {
    /// A client connection; the server replies WelcomeClient.
    HelloFromClient,
    /// A worker connection; the server replies WelcomeWorker.
    HelloFromWorker { worker_name: String },
}

/// Everything a client sends to the server.
pub enum ClientToServerMessage {
    /// Ask for an AuthChallenge; issuing or removing jobs needs it.
    AuthRequest,
    /// base64(sha256(secret + salt)), answering the challenge.
    AuthResponse(String),
    /// Submit a job; the server assigns the real id and answers AcceptJob.
    IssueJob(JobInfo),
    ListJobs {
        num_jobs: u64,
        pending: bool,
        offered: bool,
        running: bool,
        succeeded: bool,
        failed: bool,
        canceled: bool,
    },
    ShowJob { job_id: u64 },
    ObserveJob { job_id: u64 },
    RemoveJob { job_id: u64, kill: bool },
    CleanJobs { all: bool },
    ListWorkers,
    ShowWorker { worker_id: u64 },
    ListResources,
    Bye,
}

/// Everything the server sends to a client.
pub enum ServerToClientMessage {
    WelcomeClient,
    /// A random salt for the challenge-response authentication.
    AuthChallenge { salt: String },
    AuthAccepted(bool),
    AcceptJob(JobInfo),
    RejectJob { job_info: JobInfo, reason: String },
    JobList {
        job_infos: Vec<JobInfo>,
        jobs_pending: u64,
        jobs_offered: u64,
        jobs_running: u64,
        jobs_succeeded: u64,
        jobs_failed: u64,
        jobs_canceled: u64,
        job_avg_run_time_seconds: i64,
        remaining_jobs_eta_seconds: i64,
    },
    JobInfo { job_info: JobInfo, stdout_text: Option<String>, stderr_text: Option<String> },
    JobUpdated(JobInfo),
    WorkerList(Vec<WorkerInfo>),
    WorkerInfo(WorkerInfo),
    /// Whether the requested action succeeded, with a human-readable note.
    RequestResponse { success: bool, text: String },
    Bye,
}

/// Everything a worker sends to the server.
pub enum WorkerToServerMessage {
    /// base64(sha256(secret + salt)), answering the challenge.
    AuthResponse(String),
    /// Fresh hardware figures and load; doubles as a keep-alive.
    UpdateSystemInfo(SystemInfo),
    UpdateJobStatus(JobInfo),
    UpdateJobResults { job_id: u64, stdout_text: Option<String>, stderr_text: Option<String> },
    /// Free capacity; the server may answer with new job offers.
    UpdateResources(Resources),
    AcceptJobOffer(JobInfo),
    DeferJobOffer(JobInfo),
    RejectJobOffer(JobInfo),
    Bye,
}

/// Everything the server sends to a worker.
pub enum ServerToWorkerMessage {
    WelcomeWorker,
    /// A random salt for the challenge-response authentication.
    AuthChallenge { salt: String },
    AuthAccepted(bool),
    OfferJob(JobInfo),
    ConfirmJobOffer(JobInfo),
    WithdrawJobOffer(JobInfo),
    KillJob(JobInfo),
    Bye,
}

/// What can go wrong when moving messages over a stream.
#[derive(Clone, Copy, Debug, PartialEq, Eq, Structural)]
pub enum MessageError {
    /// Failed to write the message to the stream.
    SendFailed,
    /// Failed to read or decode a message from the stream.
    ReceiveFailed,
    /// The stream was closed by the other side.
    StreamClosed,
}

impl MessageError {
    /// A short human-readable description.
    pub fn describe(&self) -> (r: &'static str)
        ensures
            *self is SendFailed ==> r@ == "failed to send message"@,
            *self is ReceiveFailed ==> r@ == "failed to receive message"@,
            *self is StreamClosed ==> r@ == "stream closed"@,
    {
        match self {
            MessageError::SendFailed => "failed to send message",
            MessageError::ReceiveFailed => "failed to receive message",
            MessageError::StreamClosed => "stream closed",
        }
    }
}

} // verus!
