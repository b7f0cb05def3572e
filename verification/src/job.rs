//! Jobs, and what is asked for when one is enqueued.

use vstd::prelude::*;
use vstd::string::StringExecFns;

use crate::error::StoreError;
use crate::text::{same_text, text_of};
use crate::time::{instant_of, Timestamp};

verus! {

/// What happens when a job is enqueued under a job key that an unfinished job already holds.
///
/// A running job's definition and lock are never modified under any mode, and no follow-up job is
/// created.
#[derive(Clone, Copy, Debug, PartialEq, Eq, Hash, Structural)]
#[non_exhaustive]
pub enum JobKeyMode {
    /// Keeps the existing job definition unchanged and returns its id.
    Dedupe,
    /// Overwrites a queued job, including its `run_at`, so the timer restarts on every enqueue.
    Replace,
    /// Overwrites a queued job but keeps its current `run_at`, so repeated enqueues refresh the
    /// payload without postponing execution.
    PreserveRunAt,
}

/// The name of a job key mode.
pub open spec fn mode_text(mode: JobKeyMode) -> Seq<char> {
    match mode {
        JobKeyMode::Dedupe => "dedupe"@,
        JobKeyMode::Replace => "replace"@,
        JobKeyMode::PreserveRunAt => "preserve_run_at"@,
    }
}

impl Default for JobKeyMode {
    fn default() -> (mode: Self)
        ensures
            mode == JobKeyMode::Dedupe,
    {
        JobKeyMode::Dedupe
    }
}

impl JobKeyMode {
    /// The name of the mode.
    pub fn as_str(self) -> (text: &'static str)
        ensures
            text@ == mode_text(self),
    {
        match self {
            JobKeyMode::Dedupe => "dedupe",
            JobKeyMode::Replace => "replace",
            JobKeyMode::PreserveRunAt => "preserve_run_at",
        }
    }
}

/// How a job is to be run.
#[derive(Debug)]
pub struct EnqueueOptions {
    /// Jobs that share a queue name run one at a time.
    pub queue_name: Option<String>,
    /// Lower values run first.
    pub priority: i32,
    /// The earliest time to run; at once where it is not given.
    pub run_at: Option<Timestamp>,
    /// How often the job may be started, the first time included.
    pub max_attempts: i32,
    /// A key that no two unfinished jobs share.
    pub job_key: Option<String>,
    /// What happens when an unfinished job holds the key.
    pub job_key_mode: JobKeyMode,
}

/// What [`EnqueueOptions`] hold.
#[verifier::ext_equal]
pub struct EnqueueOptionsView {
    pub queue_name: Option<Seq<char>>,
    pub priority: int,
    pub run_at: Option<int>,
    pub max_attempts: int,
    pub job_key: Option<Seq<char>>,
    pub job_key_mode: JobKeyMode,
}

impl View for EnqueueOptions {
    type V = EnqueueOptionsView;

    open spec fn view(&self) -> EnqueueOptionsView {
        EnqueueOptionsView {
            queue_name: text_of(self.queue_name),
            priority: self.priority as int,
            run_at: instant_of(self.run_at),
            max_attempts: self.max_attempts as int,
            job_key: text_of(self.job_key),
            job_key_mode: self.job_key_mode,
        }
    }
}

/// The options of a job that was given none.
pub open spec fn default_options() -> EnqueueOptionsView {
    EnqueueOptionsView {
        queue_name: None,
        priority: 0,
        run_at: None,
        max_attempts: 25,
        job_key: None,
        job_key_mode: JobKeyMode::Dedupe,
    }
}

impl Default for EnqueueOptions {
    fn default() -> (options: Self)
        ensures
            options@ == default_options(),
    {
        EnqueueOptions {
            queue_name: None,
            priority: 0,
            run_at: None,
            max_attempts: 25,
            job_key: None,
            job_key_mode: JobKeyMode::Dedupe,
        }
    }
}

impl Clone for EnqueueOptions {
    fn clone(&self) -> (copy: Self)
        ensures
            copy@ == self@,
    {
        EnqueueOptions {
            queue_name: self.queue_name.clone(),
            priority: self.priority,
            run_at: self.run_at,
            max_attempts: self.max_attempts,
            job_key: self.job_key.clone(),
            job_key_mode: self.job_key_mode,
        }
    }
}

/// One job of a batch.
#[derive(Debug)]
pub struct EnqueueRequest {
    pub name: String,
    pub payload: serde_json::Value,
    pub options: EnqueueOptions,
}

/// What an [`EnqueueRequest`] asks for.
#[verifier::ext_equal]
pub struct EnqueueRequestView {
    pub name: Seq<char>,
    pub payload: serde_json::Value,
    pub options: EnqueueOptionsView,
}

impl View for EnqueueRequest {
    type V = EnqueueRequestView;

    open spec fn view(&self) -> EnqueueRequestView {
        EnqueueRequestView { name: self.name@, payload: self.payload, options: self.options@ }
    }
}

/// What each request of a batch asks for.
pub open spec fn requested(requests: Seq<EnqueueRequest>) -> Seq<EnqueueRequestView> {
    requests.map_values(|request: EnqueueRequest| request@)
}

impl Clone for EnqueueRequest {
    fn clone(&self) -> (copy: Self)
        ensures
            copy@ == self@,
    {
        EnqueueRequest {
            name: self.name.clone(),
            payload: self.payload.clone(),
            options: self.options.clone(),
        }
    }
}

impl EnqueueRequest {
    /// Asks for a job with default options.
    pub fn new(name: &str, payload: serde_json::Value) -> (request: Self)
        ensures
            request@ == (EnqueueRequestView { name: name@, payload, options: default_options() }),
    {
        EnqueueRequest { name: name.to_owned(), payload, options: EnqueueOptions::default() }
    }

    /// Asks for a job whose payload was written as JSON; fails where that had failed.
    pub fn typed(name: &str, payload: Result<serde_json::Value, serde_json::Error>) -> (request:
        Result<Self, serde_json::Error>)
        ensures
            match payload {
                Ok(payload) => request is Ok && request->Ok_0@ == (EnqueueRequestView {
                    name: name@,
                    payload,
                    options: default_options(),
                }),
                Err(error) => request == Err::<Self, serde_json::Error>(error),
            },
    {
        match payload {
            Ok(payload) => Ok(EnqueueRequest::new(name, payload)),
            Err(error) => Err(error),
        }
    }

    /// Replaces the options.
    pub fn with_options(self, options: EnqueueOptions) -> (request: Self)
        ensures
            request@ == (EnqueueRequestView { options: options@, ..self@ }),
    {
        EnqueueRequest { name: self.name, payload: self.payload, options }
    }
}

/// How far a job has come.
#[derive(Clone, Copy, Debug, PartialEq, Eq, Hash, Structural)]
pub enum JobStatus {
    Queued,
    Running,
    Succeeded,
    Failed,
    Cancelled,
}

/// The name of a job status.
pub open spec fn status_text(status: JobStatus) -> Seq<char> {
    match status {
        JobStatus::Queued => "queued"@,
        JobStatus::Running => "running"@,
        JobStatus::Succeeded => "succeeded"@,
        JobStatus::Failed => "failed"@,
        JobStatus::Cancelled => "cancelled"@,
    }
}

/// Whether a job with this status has finished.
pub open spec fn finished(status: JobStatus) -> bool {
    status is Succeeded || status is Failed || status is Cancelled
}

impl JobStatus {
    /// The name of the status.
    pub fn as_str(self) -> (text: &'static str)
        ensures
            text@ == status_text(self),
    {
        match self {
            JobStatus::Queued => "queued",
            JobStatus::Running => "running",
            JobStatus::Succeeded => "succeeded",
            JobStatus::Failed => "failed",
            JobStatus::Cancelled => "cancelled",
        }
    }

    /// Whether the job has finished and will not run again unless it is retried by hand.
    pub fn is_terminal(self) -> (terminal: bool)
        ensures
            terminal == finished(self),
    {
        matches!(self, JobStatus::Succeeded | JobStatus::Failed | JobStatus::Cancelled)
    }

    /// The name of the status, as a text of its own.
    pub fn to_string(self) -> (text: String)
        ensures
            text@ == status_text(self),
    {
        self.as_str().to_owned()
    }

    /// Finds the status with a name.
    pub fn parse(value: &str) -> (status: Result<JobStatus, ParseJobStatusError>)
        ensures
            match status {
                Ok(status) => status_text(status) == value@,
                Err(error) => error@ == value@ && forall|status: JobStatus|
                    #[trigger] status_text(status) != value@,
            },
    {
        if same_text(value, "queued") {
            Ok(JobStatus::Queued)
        } else if same_text(value, "running") {
            Ok(JobStatus::Running)
        } else if same_text(value, "succeeded") {
            Ok(JobStatus::Succeeded)
        } else if same_text(value, "failed") {
            Ok(JobStatus::Failed)
        } else if same_text(value, "cancelled") {
            Ok(JobStatus::Cancelled)
        } else {
            Err(ParseJobStatusError(value.to_owned()))
        }
    }
}

impl std::str::FromStr for JobStatus {
    type Err = ParseJobStatusError;

    fn from_str(value: &str) -> (status: Result<JobStatus, ParseJobStatusError>)
        ensures
            match status {
                Ok(status) => status_text(status) == value@,
                Err(error) => error@ == value@ && forall|status: JobStatus|
                    #[trigger] status_text(status) != value@,
            },
    {
        JobStatus::parse(value)
    }
}

/// No two statuses have the same name.
pub proof fn lemma_status_texts_differ(one: JobStatus, other: JobStatus)
    ensures
        status_text(one) == status_text(other) <==> one == other,
{
    reveal_strlit("queued");
    reveal_strlit("running");
    reveal_strlit("succeeded");
    reveal_strlit("failed");
    reveal_strlit("cancelled");
    assert("queued"@[0] == 'q');
    assert("running"@[0] == 'r');
    assert("succeeded"@[0] == 's');
    assert("failed"@[0] == 'f');
    assert("cancelled"@[0] == 'c');
}

/// A text that is not the name of a job status.
#[derive(Debug)]
pub struct ParseJobStatusError(String);

impl View for ParseJobStatusError {
    type V = Seq<char>;

    closed spec fn view(&self) -> Seq<char> {
        self.0@
    }
}

impl ParseJobStatusError {
    /// Says which text was not understood.
    pub fn to_string(&self) -> (text: String)
        ensures
            text@ == "unknown job status `"@ + self@ + "`"@,
    {
        "unknown job status `".to_owned().concat(self.0.as_str()).concat("`")
    }
}

/// A stored job.
#[derive(Debug)]
pub struct Job {
    pub id: u128,
    pub name: String,
    pub status: JobStatus,
    pub payload: serde_json::Value,
    pub queue_name: Option<String>,
    pub priority: i32,
    pub run_at: Timestamp,
    pub job_key: Option<String>,
    pub attempt: i32,
    pub max_attempts: i32,
    pub locked_by: Option<String>,
    pub locked_at: Option<Timestamp>,
    pub error: Option<String>,
    pub queued_at: Timestamp,
    pub started_at: Option<Timestamp>,
    pub finished_at: Option<Timestamp>,
    pub created_at: Timestamp,
    /// Stamped by the store whenever it writes the job back.
    pub updated_at: Timestamp,
}

/// What a [`Job`] holds. Times are nanoseconds since the Unix epoch.
#[verifier::ext_equal]
pub struct JobView {
    pub id: u128,
    pub name: Seq<char>,
    pub status: JobStatus,
    pub payload: serde_json::Value,
    pub queue_name: Option<Seq<char>>,
    pub priority: int,
    pub run_at: int,
    pub job_key: Option<Seq<char>>,
    pub attempt: int,
    pub max_attempts: int,
    pub locked_by: Option<Seq<char>>,
    pub locked_at: Option<int>,
    pub error: Option<Seq<char>>,
    pub queued_at: int,
    pub started_at: Option<int>,
    pub finished_at: Option<int>,
    pub created_at: int,
    pub updated_at: int,
}

impl JobView {
    /// Whether the job is queued or running.
    pub open spec fn unfinished(self) -> bool {
        self.status is Queued || self.status is Running
    }
}

impl View for Job {
    type V = JobView;

    open spec fn view(&self) -> JobView {
        JobView {
            id: self.id,
            name: self.name@,
            status: self.status,
            payload: self.payload,
            queue_name: text_of(self.queue_name),
            priority: self.priority as int,
            run_at: self.run_at@,
            job_key: text_of(self.job_key),
            attempt: self.attempt as int,
            max_attempts: self.max_attempts as int,
            locked_by: text_of(self.locked_by),
            locked_at: instant_of(self.locked_at),
            error: text_of(self.error),
            queued_at: self.queued_at@,
            started_at: instant_of(self.started_at),
            finished_at: instant_of(self.finished_at),
            created_at: self.created_at@,
            updated_at: self.updated_at@,
        }
    }
}

/// What each job of a list holds.
pub open spec fn rows(jobs: Seq<Job>) -> Seq<JobView> {
    jobs.map_values(|job: Job| job@)
}

impl Clone for Job {
    fn clone(&self) -> (copy: Self)
        ensures
            copy@ == self@,
    {
        Job {
            id: self.id,
            name: self.name.clone(),
            status: self.status,
            payload: self.payload.clone(),
            queue_name: self.queue_name.clone(),
            priority: self.priority,
            run_at: self.run_at,
            job_key: self.job_key.clone(),
            attempt: self.attempt,
            max_attempts: self.max_attempts,
            locked_by: self.locked_by.clone(),
            locked_at: self.locked_at,
            error: self.error.clone(),
            queued_at: self.queued_at,
            started_at: self.started_at,
            finished_at: self.finished_at,
            created_at: self.created_at,
            updated_at: self.updated_at,
        }
    }
}

/// A job as the columns of the store hold it: the status is a text.
#[derive(Debug)]
pub struct JobRow {
    pub id: u128,
    pub name: String,
    pub status: String,
    pub payload: serde_json::Value,
    pub queue_name: Option<String>,
    pub priority: i32,
    pub run_at: Timestamp,
    pub job_key: Option<String>,
    pub attempt: i32,
    pub max_attempts: i32,
    pub locked_by: Option<String>,
    pub locked_at: Option<Timestamp>,
    pub error: Option<String>,
    pub queued_at: Timestamp,
    pub started_at: Option<Timestamp>,
    pub finished_at: Option<Timestamp>,
    pub created_at: Timestamp,
    pub updated_at: Timestamp,
}

impl JobRow {
    /// The job that the columns hold, its status taken to be `status`.
    pub open spec fn with_status(self, status: JobStatus) -> JobView {
        JobView {
            id: self.id,
            name: self.name@,
            status,
            payload: self.payload,
            queue_name: text_of(self.queue_name),
            priority: self.priority as int,
            run_at: self.run_at@,
            job_key: text_of(self.job_key),
            attempt: self.attempt as int,
            max_attempts: self.max_attempts as int,
            locked_by: text_of(self.locked_by),
            locked_at: instant_of(self.locked_at),
            error: text_of(self.error),
            queued_at: self.queued_at@,
            started_at: instant_of(self.started_at),
            finished_at: instant_of(self.finished_at),
            created_at: self.created_at@,
            updated_at: self.updated_at@,
        }
    }

    /// Reads the status; fails where no status has that name.
    pub fn into_job(self) -> (job: Result<Job, StoreError>)
        ensures
            match job {
                Ok(job) => status_text(job.status) == self.status@ && job@ == self.with_status(
                    job.status,
                ),
                Err(error) => {
                    &&& forall|status: JobStatus| #[trigger] status_text(status) != self.status@
                    &&& error matches StoreError::ColumnDecode { index, source }
                    &&& index@ == "status"@
                    &&& source@ == self.status@
                },
            },
    {
        let row = self;
        let status = match JobStatus::parse(row.status.as_str()) {
            Ok(status) => status,
            Err(source) => return Err(
                StoreError::ColumnDecode { index: "status".to_owned(), source },
            ),
        };
        Ok(
            Job {
                id: row.id,
                name: row.name,
                status,
                payload: row.payload,
                queue_name: row.queue_name,
                priority: row.priority,
                run_at: row.run_at,
                job_key: row.job_key,
                attempt: row.attempt,
                max_attempts: row.max_attempts,
                locked_by: row.locked_by,
                locked_at: row.locked_at,
                error: row.error,
                queued_at: row.queued_at,
                started_at: row.started_at,
                finished_at: row.finished_at,
                created_at: row.created_at,
                updated_at: row.updated_at,
            },
        )
    }
}

} // verus!
