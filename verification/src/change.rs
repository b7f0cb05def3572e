//! Changes that are made to every stored job of a certain kind.

use vstd::prelude::*;
use vstd::string::StringExecFns;

use crate::job::{rows, Job, JobStatus, JobView};
use crate::text::{same_text, starts_with, texts};
use crate::time::{least, Timestamp, MAX_NANOS};

verus! {

/// A change to stored jobs: which jobs it is about, and what it does to them.
pub enum Change<'a> {
    /// Takes a queued job off the queue.
    Cancel { id: u128 },
    /// Lets a failed or cancelled job run again from the start.
    Retry { id: u128 },
    /// Stops an unfinished job for good.
    PermanentlyFail { id: u128, reason: &'a str },
    /// Retires an unfinished job as succeeded.
    Complete { id: u128 },
    /// Moves a queued job to another time.
    Reschedule { id: u128, run_at: Timestamp },
    /// Requeues the running jobs that the claim loops of some workers have locked.
    Release { workers: &'a Vec<String>, note: &'a str },
    /// Requeues the running jobs whose lock was last renewed before an instant, given in
    /// nanoseconds since the Unix epoch.
    ReleaseStale { before: i128, note: &'a str },
    /// Records that the handler of a locked job succeeded.
    CompleteLocked { id: u128, owner: &'a str },
    /// Renews the lock of a running job.
    RenewLock { id: u128, owner: &'a str },
    /// Records that the last allowed attempt of a locked job failed.
    FailLocked { id: u128, owner: &'a str, error: &'a str },
    /// Records that an attempt of a locked job failed, and requeues the job.
    BackOffLocked { id: u128, owner: &'a str, error: &'a str },
}

/// What a [`Change`] asks for.
pub enum ChangeView {
    Cancel { id: u128 },
    Retry { id: u128 },
    PermanentlyFail { id: u128, reason: Seq<char> },
    Complete { id: u128 },
    Reschedule { id: u128, run_at: int },
    Release { workers: Seq<Seq<char>>, note: Seq<char> },
    ReleaseStale { before: int, note: Seq<char> },
    CompleteLocked { id: u128, owner: Seq<char> },
    RenewLock { id: u128, owner: Seq<char> },
    FailLocked { id: u128, owner: Seq<char>, error: Seq<char> },
    BackOffLocked { id: u128, owner: Seq<char>, error: Seq<char> },
}

impl<'a> View for Change<'a> {
    type V = ChangeView;

    open spec fn view(&self) -> ChangeView {
        match *self {
            Change::Cancel { id } => ChangeView::Cancel { id },
            Change::Retry { id } => ChangeView::Retry { id },
            Change::PermanentlyFail { id, reason } => ChangeView::PermanentlyFail {
                id,
                reason: reason@,
            },
            Change::Complete { id } => ChangeView::Complete { id },
            Change::Reschedule { id, run_at } => ChangeView::Reschedule { id, run_at: run_at@ },
            Change::Release { workers, note } => ChangeView::Release {
                workers: texts(workers@),
                note: note@,
            },
            Change::ReleaseStale { before, note } => ChangeView::ReleaseStale {
                before: before as int,
                note: note@,
            },
            Change::CompleteLocked { id, owner } => ChangeView::CompleteLocked {
                id,
                owner: owner@,
            },
            Change::RenewLock { id, owner } => ChangeView::RenewLock { id, owner: owner@ },
            Change::FailLocked { id, owner, error } => ChangeView::FailLocked {
                id,
                owner: owner@,
                error: error@,
            },
            Change::BackOffLocked { id, owner, error } => ChangeView::BackOffLocked {
                id,
                owner: owner@,
                error: error@,
            },
        }
    }
}

/// What the lock owner of every claim loop of a worker begins with.
pub open spec fn lock_prefix(worker_id: Seq<char>) -> Seq<char> {
    worker_id + ":"@
}

/// Whether a lock owner is a claim loop of one of the workers.
pub open spec fn owned_by_any(owner: Seq<char>, workers: Seq<Seq<char>>) -> bool {
    exists|i: int|
        0 <= i < workers.len() && lock_prefix(#[trigger] workers[i]).is_prefix_of(owner)
}

/// Whether a job is locked by `owner`.
pub open spec fn locked_by(job: JobView, owner: Seq<char>) -> bool {
    job.locked_by == Some(owner)
}

/// The jobs that a change is about.
pub open spec fn selects(change: ChangeView, job: JobView) -> bool {
    match change {
        ChangeView::Cancel { id } => job.id == id && job.status is Queued,
        ChangeView::Retry { id } => job.id == id && (job.status is Failed
            || job.status is Cancelled),
        ChangeView::PermanentlyFail { id, reason } => job.id == id && job.unfinished(),
        ChangeView::Complete { id } => job.id == id && job.unfinished(),
        ChangeView::Reschedule { id, run_at } => job.id == id && job.status is Queued,
        ChangeView::Release { workers, note } => job.status is Running && job.locked_by is Some
            && owned_by_any(job.locked_by->0, workers),
        ChangeView::ReleaseStale { before, note } => job.status is Running && job.locked_at is Some
            && job.locked_at->0 < before,
        ChangeView::CompleteLocked { id, owner } => job.id == id && locked_by(job, owner),
        ChangeView::RenewLock { id, owner } => job.id == id && locked_by(job, owner)
            && job.status is Running,
        ChangeView::FailLocked { id, owner, error } => job.id == id && locked_by(job, owner),
        ChangeView::BackOffLocked { id, owner, error } => job.id == id && locked_by(job, owner),
    }
}

/// How long a failed job waits before its next attempt, in microseconds: `e` to the power of the
/// attempts made, in seconds, but no more than for ten attempts. Less than half a microsecond is
/// none.
pub open spec fn backoff_micros(attempt: int) -> int {
    if attempt < -14 {
        0
    } else if attempt == -14 {
        1
    } else if attempt == -13 {
        2
    } else if attempt == -12 {
        6
    } else if attempt == -11 {
        17
    } else if attempt == -10 {
        45
    } else if attempt == -9 {
        123
    } else if attempt == -8 {
        335
    } else if attempt == -7 {
        912
    } else if attempt == -6 {
        2_479
    } else if attempt == -5 {
        6_738
    } else if attempt == -4 {
        18_316
    } else if attempt == -3 {
        49_787
    } else if attempt == -2 {
        135_335
    } else if attempt == -1 {
        367_879
    } else if attempt == 0 {
        1_000_000
    } else if attempt == 1 {
        2_718_282
    } else if attempt == 2 {
        7_389_056
    } else if attempt == 3 {
        20_085_537
    } else if attempt == 4 {
        54_598_150
    } else if attempt == 5 {
        148_413_159
    } else if attempt == 6 {
        403_428_793
    } else if attempt == 7 {
        1_096_633_158
    } else if attempt == 8 {
        2_980_957_987
    } else if attempt == 9 {
        8_103_083_928
    } else {
        22_026_465_795
    }
}

/// The instant at which a job that failed at `now` is due again.
pub open spec fn backed_off(now: int, attempt: int) -> int {
    least(now + backoff_micros(attempt) * 1000, MAX_NANOS as int)
}

/// A running job put back on the queue at `now`. An error that it carries already is kept.
pub open spec fn requeued(job: JobView, now: int, note: Seq<char>) -> JobView {
    JobView {
        status: JobStatus::Queued,
        locked_by: None,
        locked_at: None,
        run_at: now,
        error: if job.error is Some {
            job.error
        } else {
            Some(note)
        },
        ..job
    }
}

/// What a change made at `now` turns a job into.
pub open spec fn revise(change: ChangeView, job: JobView, now: int) -> JobView {
    match change {
        ChangeView::Cancel { id } => JobView {
            status: JobStatus::Cancelled,
            finished_at: Some(now),
            error: None,
            ..job
        },
        ChangeView::Retry { id } => JobView {
            status: JobStatus::Queued,
            attempt: 0,
            run_at: now,
            locked_by: None,
            locked_at: None,
            error: None,
            started_at: None,
            finished_at: None,
            ..job
        },
        ChangeView::PermanentlyFail { id, reason } => JobView {
            status: JobStatus::Failed,
            locked_by: None,
            locked_at: None,
            finished_at: Some(now),
            error: Some(reason),
            ..job
        },
        ChangeView::Complete { id } => JobView {
            status: JobStatus::Succeeded,
            locked_by: None,
            locked_at: None,
            finished_at: Some(now),
            error: None,
            ..job
        },
        ChangeView::Reschedule { id, run_at } => JobView { run_at, ..job },
        ChangeView::Release { workers, note } => requeued(job, now, note),
        ChangeView::ReleaseStale { before, note } => requeued(job, now, note),
        ChangeView::CompleteLocked { id, owner } => JobView {
            status: JobStatus::Succeeded,
            locked_by: None,
            locked_at: None,
            finished_at: Some(now),
            error: None,
            ..job
        },
        ChangeView::RenewLock { id, owner } => JobView { locked_at: Some(now), ..job },
        ChangeView::FailLocked { id, owner, error } => JobView {
            status: JobStatus::Failed,
            locked_by: None,
            locked_at: None,
            finished_at: Some(now),
            error: Some(error),
            ..job
        },
        ChangeView::BackOffLocked { id, owner, error } => JobView {
            status: JobStatus::Queued,
            locked_by: None,
            locked_at: None,
            run_at: backed_off(now, job.attempt),
            error: Some(error),
            ..job
        },
    }
}

/// A job after a change.
pub open spec fn revised_job(change: ChangeView, job: JobView, now: int) -> JobView {
    if selects(change, job) {
        revise(change, job, now)
    } else {
        job
    }
}

/// The jobs after a change.
pub open spec fn revised(jobs: Seq<JobView>, change: ChangeView, now: int) -> Seq<JobView> {
    jobs.map_values(|job: JobView| revised_job(change, job, now))
}

/// How many jobs a change is about.
pub open spec fn selected(jobs: Seq<JobView>, change: ChangeView) -> nat
    decreases jobs.len(),
{
    if jobs.len() == 0 {
        0
    } else {
        selected(jobs.drop_last(), change) + if selects(change, jobs.last()) {
            1nat
        } else {
            0nat
        }
    }
}

/// The wait of a job that failed after a number of attempts, in microseconds.
pub fn backoff(attempt: i32) -> (micros: u64)
    ensures
        micros == backoff_micros(attempt as int),
        micros <= 22_026_465_795,
{
    if attempt < -14 {
        return 0;
    }
    match attempt {
        -14 => 1,
        -13 => 2,
        -12 => 6,
        -11 => 17,
        -10 => 45,
        -9 => 123,
        -8 => 335,
        -7 => 912,
        -6 => 2_479,
        -5 => 6_738,
        -4 => 18_316,
        -3 => 49_787,
        -2 => 135_335,
        -1 => 367_879,
        0 => 1_000_000,
        1 => 2_718_282,
        2 => 7_389_056,
        3 => 20_085_537,
        4 => 54_598_150,
        5 => 148_413_159,
        6 => 403_428_793,
        7 => 1_096_633_158,
        8 => 2_980_957_987,
        9 => 8_103_083_928,
        _ => 22_026_465_795,
    }
}

/// Makes the beginning that the lock owners of a worker share.
pub fn lock_prefix_text(worker_id: &str) -> (prefix: String)
    ensures
        prefix@ == lock_prefix(worker_id@),
{
    worker_id.to_owned().concat(":")
}

fn is_owned_by_any(owner: &str, workers: &Vec<String>) -> (owned: bool)
    ensures
        owned == owned_by_any(owner@, texts(workers@)),
{
    let mut i: usize = 0;
    while i < workers.len()
        invariant
            i <= workers@.len(),
            forall|j: int|
                0 <= j < i ==> !lock_prefix(#[trigger] texts(workers@)[j]).is_prefix_of(owner@),
        decreases workers@.len() - i,
    {
        let prefix: String = lock_prefix_text(workers[i].as_str());
        assert(texts(workers@)[i as int] == workers@[i as int]@);
        if starts_with(owner, prefix.as_str()) {
            return true;
        }
        i = i + 1;
    }
    false
}

fn is_locked_by(job: &Job, owner: &str) -> (locked: bool)
    ensures
        locked == locked_by(job@, owner@),
{
    match &job.locked_by {
        Some(holder) => same_text(holder.as_str(), owner),
        None => false,
    }
}

impl<'a> Change<'a> {
    /// Whether the change is about a job.
    pub fn selects(&self, job: &Job) -> (selected: bool)
        ensures
            selected == selects(self@, job@),
    {
        match self {
            Change::Cancel { id } => job.id == *id && job.status == JobStatus::Queued,
            Change::Retry { id } => job.id == *id && (job.status == JobStatus::Failed || job.status
                == JobStatus::Cancelled),
            Change::PermanentlyFail { id, reason } => job.id == *id && !job.status.is_terminal(),
            Change::Complete { id } => job.id == *id && !job.status.is_terminal(),
            Change::Reschedule { id, run_at } => job.id == *id && job.status == JobStatus::Queued,
            Change::Release { workers, note } => match &job.locked_by {
                Some(owner) => job.status == JobStatus::Running && is_owned_by_any(
                    owner.as_str(),
                    workers,
                ),
                None => false,
            },
            Change::ReleaseStale { before, note } => match job.locked_at {
                Some(locked_at) => job.status == JobStatus::Running && locked_at.as_nanosecond()
                    < *before,
                None => false,
            },
            Change::CompleteLocked { id, owner } => job.id == *id && is_locked_by(job, owner),
            Change::RenewLock { id, owner } => job.id == *id && is_locked_by(job, owner)
                && job.status == JobStatus::Running,
            Change::FailLocked { id, owner, error } => job.id == *id && is_locked_by(job, owner),
            Change::BackOffLocked { id, owner, error } => job.id == *id && is_locked_by(job, owner),
        }
    }

    /// Makes the change to one job.
    pub fn revise(&self, job: &mut Job, now: Timestamp)
        ensures
            final(job)@ == revise(self@, old(job)@, now@),
    {
        match self {
            Change::Cancel { id } => {
                job.status = JobStatus::Cancelled;
                job.finished_at = Some(now);
                job.error = None;
            },
            Change::Retry { id } => {
                job.status = JobStatus::Queued;
                job.attempt = 0;
                job.run_at = now;
                job.locked_by = None;
                job.locked_at = None;
                job.error = None;
                job.started_at = None;
                job.finished_at = None;
            },
            Change::PermanentlyFail { id, reason } => {
                job.status = JobStatus::Failed;
                job.locked_by = None;
                job.locked_at = None;
                job.finished_at = Some(now);
                job.error = Some((*reason).to_owned());
            },
            Change::Complete { id } => {
                job.status = JobStatus::Succeeded;
                job.locked_by = None;
                job.locked_at = None;
                job.finished_at = Some(now);
                job.error = None;
            },
            Change::Reschedule { id, run_at } => {
                job.run_at = *run_at;
            },
            Change::Release { workers, note } => {
                requeue(job, now, note);
            },
            Change::ReleaseStale { before, note } => {
                requeue(job, now, note);
            },
            Change::CompleteLocked { id, owner } => {
                job.status = JobStatus::Succeeded;
                job.locked_by = None;
                job.locked_at = None;
                job.finished_at = Some(now);
                job.error = None;
            },
            Change::RenewLock { id, owner } => {
                job.locked_at = Some(now);
            },
            Change::FailLocked { id, owner, error } => {
                job.status = JobStatus::Failed;
                job.locked_by = None;
                job.locked_at = None;
                job.finished_at = Some(now);
                job.error = Some((*error).to_owned());
            },
            Change::BackOffLocked { id, owner, error } => {
                let micros: u64 = backoff(job.attempt);
                let seconds: u32 = (micros / 1_000_000) as u32;
                let nanos: u32 = (micros % 1_000_000) as u32 * 1000;
                job.status = JobStatus::Queued;
                job.locked_by = None;
                job.locked_at = None;
                job.run_at = now.saturating_later(seconds, nanos);
                job.error = Some((*error).to_owned());
            },
        }
    }

    /// Makes the change to every job that it is about, and counts them.
    pub fn apply(&self, jobs: &mut Vec<Job>, now: Timestamp) -> (count: u64)
        ensures
            rows(final(jobs)@) == revised(rows(old(jobs)@), self@, now@),
            count == selected(rows(old(jobs)@), self@),
    {
        let ghost before = rows(jobs@);
        let mut count: u64 = 0;
        let mut i: usize = 0;
        while i < jobs.len()
            invariant
                i <= jobs@.len(),
                before.len() == jobs@.len(),
                count <= i,
                count == selected(before.take(i as int), self@),
                forall|j: int|
                    0 <= j < i ==> (#[trigger] jobs@[j])@ == revised_job(self@, before[j], now@),
                forall|j: int| i <= j < jobs@.len() ==> (#[trigger] jobs@[j])@ == before[j],
            decreases jobs@.len() - i,
        {
            assert(before.take(i + 1).drop_last() =~= before.take(i as int));
            assert(before.take(i + 1).last() == before[i as int]);
            if self.selects(&jobs[i]) {
                self.revise(&mut jobs[i], now);
                count = count + 1;
            }
            i = i + 1;
        }
        assert(before.take(i as int) =~= before);
        assert(rows(jobs@) =~= revised(before, self@, now@));
        count
    }
}

fn requeue(job: &mut Job, now: Timestamp, note: &str)
    ensures
        final(job)@ == requeued(old(job)@, now@, note@),
{
    job.status = JobStatus::Queued;
    job.locked_by = None;
    job.locked_at = None;
    job.run_at = now;
    if job.error.is_none() {
        job.error = Some(note.to_owned());
    }
}

} // verus!
