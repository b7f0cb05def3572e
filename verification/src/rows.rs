//! Stored workers and schedules, and totals of jobs.

use vstd::prelude::*;

use crate::text::texts;
use crate::time::{instant_of, Timestamp};

verus! {

/// Copies a list of texts.
pub fn copy_texts(list: &Vec<String>) -> (copy: Vec<String>)
    ensures
        texts(copy@) == texts(list@),
{
    let mut copy: Vec<String> = Vec::new();
    let mut i: usize = 0;
    while i < list.len()
        invariant
            i <= list@.len(),
            copy@.len() == i,
            forall|j: int| 0 <= j < i ==> (#[trigger] copy@[j])@ == list@[j]@,
        decreases list@.len() - i,
    {
        copy.push(list[i].clone());
        i = i + 1;
    }
    assert(texts(copy@) =~= texts(list@));
    copy
}

/// A stored worker.
#[derive(Debug)]
pub struct WorkerRow {
    pub id: String,
    pub task_names: Vec<String>,
    pub metadata: serde_json::Value,
    pub started_at: Timestamp,
    pub last_heartbeat_at: Timestamp,
}

/// What a [`WorkerRow`] holds.
#[verifier::ext_equal]
pub struct WorkerRowView {
    pub id: Seq<char>,
    pub task_names: Seq<Seq<char>>,
    pub metadata: serde_json::Value,
    pub started_at: int,
    pub last_heartbeat_at: int,
}

impl View for WorkerRow {
    type V = WorkerRowView;

    open spec fn view(&self) -> WorkerRowView {
        WorkerRowView {
            id: self.id@,
            task_names: texts(self.task_names@),
            metadata: self.metadata,
            started_at: self.started_at@,
            last_heartbeat_at: self.last_heartbeat_at@,
        }
    }
}

/// What each worker of a list holds.
pub open spec fn worker_rows(workers: Seq<WorkerRow>) -> Seq<WorkerRowView> {
    workers.map_values(|worker: WorkerRow| worker@)
}

/// A registered worker, as it is listed.
#[derive(Debug)]
#[non_exhaustive]
pub struct WorkerInfo {
    pub id: String,
    pub task_names: Vec<String>,
    pub started_at: Timestamp,
    pub last_heartbeat_at: Timestamp,
}

/// What a [`WorkerInfo`] holds.
#[verifier::ext_equal]
pub struct WorkerInfoView {
    pub id: Seq<char>,
    pub task_names: Seq<Seq<char>>,
    pub started_at: int,
    pub last_heartbeat_at: int,
}

impl View for WorkerInfo {
    type V = WorkerInfoView;

    open spec fn view(&self) -> WorkerInfoView {
        WorkerInfoView {
            id: self.id@,
            task_names: texts(self.task_names@),
            started_at: self.started_at@,
            last_heartbeat_at: self.last_heartbeat_at@,
        }
    }
}

/// What is listed of a stored worker.
pub open spec fn listed(worker: WorkerRowView) -> WorkerInfoView {
    WorkerInfoView {
        id: worker.id,
        task_names: worker.task_names,
        started_at: worker.started_at,
        last_heartbeat_at: worker.last_heartbeat_at,
    }
}

/// What each listed worker holds.
pub open spec fn infos(workers: Seq<WorkerInfo>) -> Seq<WorkerInfoView> {
    workers.map_values(|worker: WorkerInfo| worker@)
}

impl WorkerRow {
    /// Lists the worker.
    pub fn info(&self) -> (info: WorkerInfo)
        ensures
            info@ == listed(self@),
    {
        WorkerInfo {
            id: self.id.clone(),
            task_names: copy_texts(&self.task_names),
            started_at: self.started_at,
            last_heartbeat_at: self.last_heartbeat_at,
        }
    }
}

/// A stored schedule.
#[derive(Debug)]
pub struct CronRow {
    pub identifier: String,
    pub name: String,
    pub payload: serde_json::Value,
    pub last_run_at: Option<Timestamp>,
    pub next_run_at: Option<Timestamp>,
    pub created_at: Timestamp,
}

/// What a [`CronRow`] holds.
#[verifier::ext_equal]
pub struct CronRowView {
    pub identifier: Seq<char>,
    pub name: Seq<char>,
    pub payload: serde_json::Value,
    pub last_run_at: Option<int>,
    pub next_run_at: Option<int>,
    pub created_at: int,
}

impl View for CronRow {
    type V = CronRowView;

    open spec fn view(&self) -> CronRowView {
        CronRowView {
            identifier: self.identifier@,
            name: self.name@,
            payload: self.payload,
            last_run_at: instant_of(self.last_run_at),
            next_run_at: instant_of(self.next_run_at),
            created_at: self.created_at@,
        }
    }
}

/// What each schedule of a list holds.
pub open spec fn cron_rows(crons: Seq<CronRow>) -> Seq<CronRowView> {
    crons.map_values(|cron: CronRow| cron@)
}

/// Job totals by status.
#[derive(Clone, Copy, Debug, PartialEq, Eq, Structural)]
#[non_exhaustive]
pub struct JobCounts {
    pub queued: i64,
    pub running: i64,
    pub succeeded: i64,
    pub failed: i64,
    pub cancelled: i64,
}

impl Default for JobCounts {
    fn default() -> (counts: Self)
        ensures
            counts == (JobCounts { queued: 0, running: 0, succeeded: 0, failed: 0, cancelled: 0 }),
    {
        JobCounts { queued: 0, running: 0, succeeded: 0, failed: 0, cancelled: 0 }
    }
}

/// What an attempt to enqueue an occurrence of a schedule came to.
#[derive(Clone, Copy, Debug, PartialEq, Eq, Structural)]
pub enum CronEnqueueResult {
    /// A job was enqueued.
    Enqueued(u128),
    /// An unfinished job held the job key.
    AlreadyQueued(u128),
    /// The occurrence was enqueued before, or the schedule was first seen.
    Skipped,
}

} // verus!
