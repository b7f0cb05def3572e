//! What the operations on stored jobs do, job by job and field by field.

use vstd::prelude::*;

use crate::change::{backoff_micros, lock_prefix, selected, selects, Change, ChangeView};
use crate::error::StoreError;
use crate::job::{JobStatus, JobView};
use crate::queue::{change_outcome, changed, clamped_millis, cutoff, revival_outcome, QueueView};
use crate::table::{holder, holds_key, key_clash};
use crate::time::MAX_NANOS;

verus! {

/// Whether a job is queued or running.
pub open spec fn live(job: JobView) -> bool {
    job.status == JobStatus::Queued || job.status == JobStatus::Running
}

/// Whether an operation on the job with an id, for which it has to meet a condition, did to the table
/// what it says: it was done where there was such a job, that job has become what it says, and all
/// else is as it was.
pub open spec fn done_to(
    before: QueueView,
    after: QueueView,
    done: bool,
    wanted: spec_fn(JobView) -> bool,
    became: spec_fn(JobView) -> JobView,
) -> bool {
    &&& done == exists|i: int| 0 <= i < before.jobs.len() && wanted(#[trigger] before.jobs[i])
    &&& becomes(before, after, wanted, became)
}

/// Whether the jobs that meet a condition, and nothing else, have become something else.
pub open spec fn becomes(
    before: QueueView,
    after: QueueView,
    wanted: spec_fn(JobView) -> bool,
    became: spec_fn(JobView) -> JobView,
) -> bool {
    &&& after.workers == before.workers
    &&& after.crons == before.crons
    &&& after.jobs.len() == before.jobs.len()
    &&& forall|i: int|
        0 <= i < before.jobs.len() ==> #[trigger] after.jobs[i] == if wanted(before.jobs[i]) {
            became(before.jobs[i])
        } else {
            before.jobs[i]
        }
}

/// Cancelling takes the job with the id off the queue, if it is still queued: it is cancelled, has
/// ended and carries no error.
pub proof fn law_cancel(before: QueueView, after: QueueView, id: u128, now: int, done: bool)
    requires
        change_outcome(before, after, ChangeView::Cancel { id }, now, done),
    ensures
        done_to(
            before,
            after,
            done,
            |job: JobView| job.id == id && job.status == JobStatus::Queued,
            |job: JobView|
                JobView {
                    status: JobStatus::Cancelled,
                    finished_at: Some(now),
                    error: None,
                    ..job
                },
        ),
{
}

/// Retrying lets the job with the id run again at once, if it has failed or was cancelled: it is
/// queued, with a fresh count of attempts, and no lock, error, start or end. It is refused, and
/// nothing changes, where another job that is queued or running has its job key.
pub proof fn law_retry(
    before: QueueView,
    after: QueueView,
    id: u128,
    now: int,
    result: Result<bool, StoreError>,
)
    requires
        revival_outcome(before, after, ChangeView::Retry { id }, now, result),
    ensures
        result is Err <==> exists|i: int, j: int|
            {
                &&& 0 <= i < before.jobs.len()
                &&& 0 <= j < before.jobs.len()
                &&& (#[trigger] before.jobs[i]).id == id
                &&& before.jobs[i].status == JobStatus::Failed || before.jobs[i].status
                    == JobStatus::Cancelled
                &&& before.jobs[i].job_key is Some
                &&& live(#[trigger] before.jobs[j])
                &&& before.jobs[j].job_key == before.jobs[i].job_key
            },
        result is Err ==> after == before && result->Err_0 == StoreError::JobKeyHeld,
        result matches Ok(done) ==> done_to(
            before,
            after,
            done,
            |job: JobView|
                job.id == id && (job.status == JobStatus::Failed || job.status
                    == JobStatus::Cancelled),
            |job: JobView|
                JobView {
                    status: JobStatus::Queued,
                    attempt: 0,
                    run_at: now,
                    locked_by: None,
                    locked_at: None,
                    error: None,
                    started_at: None,
                    finished_at: None,
                    ..job
                },
        ),
{
    let jobs = before.jobs;
    let change = ChangeView::Retry { id };
    if key_clash(jobs, change) {
        let i = choose|i: int|
            0 <= i < jobs.len() && selects(change, #[trigger] jobs[i]) && !jobs[i].unfinished()
                && holder(jobs, jobs[i].job_key) is Some;
        let j = holder(jobs, jobs[i].job_key)->0;
        assert(0 <= j < jobs.len() && holds_key(jobs[j], jobs[i].job_key));
        assert(live(jobs[j]) && jobs[i].id == id);
    }
    assert forall|i: int, j: int|
        {
            &&& 0 <= i < jobs.len()
            &&& 0 <= j < jobs.len()
            &&& (#[trigger] jobs[i]).id == id
            &&& jobs[i].status == JobStatus::Failed || jobs[i].status == JobStatus::Cancelled
            &&& jobs[i].job_key is Some
            &&& live(#[trigger] jobs[j])
            &&& jobs[j].job_key == jobs[i].job_key
        } implies key_clash(jobs, change) by {
        assert(holds_key(jobs[j], jobs[i].job_key));
        assert(selects(change, jobs[i]));
    }
}

/// Failing a job for good ends the job with the id, if it is queued or running: it has failed, with
/// the reason as its error, and is no longer locked.
pub proof fn law_permanently_fail(
    before: QueueView,
    after: QueueView,
    id: u128,
    reason: Seq<char>,
    now: int,
    done: bool,
)
    requires
        change_outcome(before, after, ChangeView::PermanentlyFail { id, reason }, now, done),
    ensures
        done_to(
            before,
            after,
            done,
            |job: JobView| job.id == id && live(job),
            |job: JobView|
                JobView {
                    status: JobStatus::Failed,
                    locked_by: None,
                    locked_at: None,
                    finished_at: Some(now),
                    error: Some(reason),
                    ..job
                },
        ),
{
}

/// Completing a job ends the job with the id, if it is queued or running: it has succeeded, carries no
/// error and is no longer locked.
pub proof fn law_complete(before: QueueView, after: QueueView, id: u128, now: int, done: bool)
    requires
        change_outcome(before, after, ChangeView::Complete { id }, now, done),
    ensures
        done_to(
            before,
            after,
            done,
            |job: JobView| job.id == id && live(job),
            |job: JobView|
                JobView {
                    status: JobStatus::Succeeded,
                    locked_by: None,
                    locked_at: None,
                    finished_at: Some(now),
                    error: None,
                    ..job
                },
        ),
{
}

/// Rescheduling moves the job with the id, if it is still queued, and changes nothing but its time.
pub proof fn law_reschedule(
    before: QueueView,
    after: QueueView,
    id: u128,
    run_at: int,
    now: int,
    done: bool,
)
    requires
        change_outcome(before, after, ChangeView::Reschedule { id, run_at }, now, done),
    ensures
        done_to(
            before,
            after,
            done,
            |job: JobView| job.id == id && job.status == JobStatus::Queued,
            |job: JobView| JobView { run_at, ..job },
        ),
{
}

/// The success of a handler is recorded of the job with the id, if the claim loop still has it locked.
pub proof fn law_complete_locked(
    before: QueueView,
    after: QueueView,
    id: u128,
    owner: Seq<char>,
    now: int,
    done: bool,
)
    requires
        change_outcome(before, after, ChangeView::CompleteLocked { id, owner }, now, done),
    ensures
        done_to(
            before,
            after,
            done,
            |job: JobView| job.id == id && job.locked_by == Some(owner),
            |job: JobView|
                JobView {
                    status: JobStatus::Succeeded,
                    locked_by: None,
                    locked_at: None,
                    finished_at: Some(now),
                    error: None,
                    ..job
                },
        ),
{
}

/// A lock is renewed on the job with the id, if it is running and the claim loop still has it locked;
/// nothing changes but the time of the lock.
pub proof fn law_renew_lock(
    before: QueueView,
    after: QueueView,
    id: u128,
    owner: Seq<char>,
    now: int,
    done: bool,
)
    requires
        change_outcome(before, after, ChangeView::RenewLock { id, owner }, now, done),
    ensures
        done_to(
            before,
            after,
            done,
            |job: JobView|
                job.id == id && job.locked_by == Some(owner) && job.status == JobStatus::Running,
            |job: JobView| JobView { locked_at: Some(now), ..job },
        ),
{
}

/// The failure of the last attempt is recorded of the job with the id, if the claim loop still has it
/// locked: it has failed for good, with the error.
pub proof fn law_fail_locked(
    before: QueueView,
    after: QueueView,
    id: u128,
    owner: Seq<char>,
    error: Seq<char>,
    now: int,
    result: Result<bool, StoreError>,
)
    requires
        revival_outcome(before, after, ChangeView::FailLocked { id, owner, error }, now, result),
    ensures
        result matches Ok(done) && done_to(
            before,
            after,
            done,
            |job: JobView| job.id == id && job.locked_by == Some(owner),
            |job: JobView|
                JobView {
                    status: JobStatus::Failed,
                    locked_by: None,
                    locked_at: None,
                    finished_at: Some(now),
                    error: Some(error),
                    ..job
                },
        ),
{
}

/// The failure of an attempt that is not the last is recorded of the job with the id, if the claim
/// loop still has it locked: it is queued again, with the error, for the time after its backoff. It is
/// refused, and nothing changes, where the job has finished and a job that is queued or running has
/// its job key.
pub proof fn law_back_off_locked(
    before: QueueView,
    after: QueueView,
    id: u128,
    owner: Seq<char>,
    error: Seq<char>,
    now: int,
    result: Result<bool, StoreError>,
)
    requires
        revival_outcome(before, after, ChangeView::BackOffLocked { id, owner, error }, now, result),
    ensures
        result is Err <==> exists|i: int, j: int|
            {
                &&& 0 <= i < before.jobs.len()
                &&& 0 <= j < before.jobs.len()
                &&& (#[trigger] before.jobs[i]).id == id
                &&& before.jobs[i].locked_by == Some(owner)
                &&& !live(before.jobs[i])
                &&& before.jobs[i].job_key is Some
                &&& live(#[trigger] before.jobs[j])
                &&& before.jobs[j].job_key == before.jobs[i].job_key
            },
        result is Err ==> after == before && result->Err_0 == StoreError::JobKeyHeld,
        result matches Ok(done) ==> done_to(
            before,
            after,
            done,
            |job: JobView| job.id == id && job.locked_by == Some(owner),
            |job: JobView|
                {
                    let due = now + backoff_micros(job.attempt) * 1000;
                    JobView {
                        status: JobStatus::Queued,
                        locked_by: None,
                        locked_at: None,
                        run_at: if due <= MAX_NANOS {
                            due
                        } else {
                            MAX_NANOS as int
                        },
                        error: Some(error),
                        ..job
                    }
                },
        ),
{
    let jobs = before.jobs;
    let change = ChangeView::BackOffLocked { id, owner, error };
    if key_clash(jobs, change) {
        let i = choose|i: int|
            0 <= i < jobs.len() && selects(change, #[trigger] jobs[i]) && !jobs[i].unfinished()
                && holder(jobs, jobs[i].job_key) is Some;
        let j = holder(jobs, jobs[i].job_key)->0;
        assert(0 <= j < jobs.len() && holds_key(jobs[j], jobs[i].job_key));
        assert(live(jobs[j]) && jobs[i].id == id && !live(jobs[i]));
    }
    assert forall|i: int, j: int|
        {
            &&& 0 <= i < jobs.len()
            &&& 0 <= j < jobs.len()
            &&& (#[trigger] jobs[i]).id == id
            &&& jobs[i].locked_by == Some(owner)
            &&& !live(jobs[i])
            &&& jobs[i].job_key is Some
            &&& live(#[trigger] jobs[j])
            &&& jobs[j].job_key == jobs[i].job_key
        } implies key_clash(jobs, change) by {
        assert(holds_key(jobs[j], jobs[i].job_key));
        assert(selects(change, jobs[i]));
    }
}

/// The waits of failed jobs are the powers of `e` in seconds, to the microsecond: after no attempt one
/// second, after each attempt `e` times as long as after the one before, up to ten attempts and no
/// longer.
pub proof fn law_backoff_is_exponential(attempt: int)
    ensures
        backoff_micros(0) == 1_000_000,
        backoff_micros(10) == 22_026_465_795,
        attempt >= 10 ==> backoff_micros(attempt) == backoff_micros(10),
        attempt < -14 ==> backoff_micros(attempt) == 0,
        attempt < 10 ==> -1_870_000_000_000 <= 1_000_000_000_000 * backoff_micros(attempt + 1)
            - 2_718_281_828_459 * backoff_micros(attempt) <= 1_870_000_000_000,
{
}

/// A lock owner is a claim loop of a worker where it begins with the worker's id and a colon.
pub open spec fn loop_of(owner: Seq<char>, worker: Seq<char>) -> bool {
    &&& owner.len() > worker.len()
    &&& owner.subrange(0, worker.len() as int) == worker
    &&& owner[worker.len() as int] == ':'
}

/// Whether a running job is locked by a claim loop of one of some workers.
pub open spec fn run_by_any(job: JobView, workers: Seq<Seq<char>>) -> bool {
    &&& job.status == JobStatus::Running
    &&& job.locked_by is Some
    &&& exists|i: int| 0 <= i < workers.len() && loop_of(job.locked_by->0, #[trigger] workers[i])
}

/// A running job put back: it is queued for now and no longer locked, and has the note for its error
/// where it carries none.
pub open spec fn put_back(job: JobView, note: Seq<char>, now: int) -> JobView {
    JobView {
        status: JobStatus::Queued,
        locked_by: None,
        locked_at: None,
        run_at: now,
        error: match job.error {
            Some(error) => Some(error),
            None => Some(note),
        },
        ..job
    }
}

proof fn lemma_loop_of(owner: Seq<char>, worker: Seq<char>)
    ensures
        loop_of(owner, worker) == lock_prefix(worker).is_prefix_of(owner),
{
    reveal_strlit(":");
    let prefix = lock_prefix(worker);
    assert(prefix.len() == worker.len() + 1);
    assert(prefix[worker.len() as int] == ':');
    if loop_of(owner, worker) {
        assert(owner.subrange(0, prefix.len() as int) =~= prefix) by {
            assert forall|i: int| 0 <= i < prefix.len() implies owner.subrange(
                0,
                prefix.len() as int,
            )[i] == #[trigger] prefix[i] by {
                if i < worker.len() {
                    assert(owner.subrange(0, worker.len() as int)[i] == worker[i]);
                }
            }
        }
    }
    if prefix.is_prefix_of(owner) {
        assert(owner.subrange(0, prefix.len() as int) == prefix);
        assert(owner.subrange(0, prefix.len() as int)[worker.len() as int] == ':');
        assert forall|i: int| 0 <= i < worker.len() implies owner[i] == #[trigger] worker[i] by {
            assert(owner.subrange(0, prefix.len() as int)[i] == prefix[i]);
        }
        assert(owner.subrange(0, worker.len() as int) =~= worker);
    }
}

/// What a release of jobs is about: the running ones that a claim loop of one of the workers has
/// locked.
pub proof fn law_release_is_about_the_workers_jobs(
    job: JobView,
    workers: Seq<Seq<char>>,
    note: Seq<char>,
)
    ensures
        selects(ChangeView::Release { workers, note }, job) <==> run_by_any(job, workers),
{
    if job.locked_by is Some {
        let owner = job.locked_by->0;
        assert forall|i: int| 0 <= i < workers.len() implies loop_of(owner, #[trigger] workers[i])
            == lock_prefix(workers[i]).is_prefix_of(owner) by {
            lemma_loop_of(owner, workers[i]);
        }
    }
}

/// Releasing the jobs of workers puts back every running job that one of their claim loops has locked,
/// and changes nothing else.
pub proof fn law_release(
    before: QueueView,
    after: QueueView,
    workers: Seq<Seq<char>>,
    note: Seq<char>,
    now: int,
)
    requires
        after == changed(before, ChangeView::Release { workers, note }, now),
    ensures
        becomes(
            before,
            after,
            |job: JobView| run_by_any(job, workers),
            |job: JobView| put_back(job, note, now),
        ),
{
    assert forall|i: int| 0 <= i < before.jobs.len() implies #[trigger] after.jobs[i] == if run_by_any(
        before.jobs[i],
        workers,
    ) {
        put_back(before.jobs[i], note, now)
    } else {
        before.jobs[i]
    } by {
        law_release_is_about_the_workers_jobs(before.jobs[i], workers, note);
    }
}

/// Recovery from stale locks puts back every running job whose lock was renewed more than the given
/// span of time ago, in whole milliseconds, and changes nothing else.
pub proof fn law_release_stale(
    before: QueueView,
    after: QueueView,
    stale_after: int,
    note: Seq<char>,
    now: int,
)
    requires
        0 <= stale_after <= i64::MAX * 1_000_000,
        after == changed(
            before,
            ChangeView::ReleaseStale { before: cutoff(now, stale_after), note },
            now,
        ),
    ensures
        becomes(
            before,
            after,
            |job: JobView|
                job.status == JobStatus::Running && job.locked_at is Some && now - job.locked_at->0
                    > stale_after / 1_000_000 * 1_000_000,
            |job: JobView| put_back(job, note, now),
        ),
{
}

/// A count of jobs goes up by one for each job that the change is about.
pub proof fn law_selected_are_counted(jobs: Seq<JobView>, job: JobView, change: ChangeView)
    ensures
        selected(Seq::empty(), change) == 0,
        selected(jobs.push(job), change) == selected(jobs, change) + if selects(change, job) {
            1int
        } else {
            0
        },
{
    assert(jobs.push(job).drop_last() =~= jobs);
}

/// What a recovery from stale locks is about.
pub proof fn law_recovery_is_about_stale_locks(job: JobView, instant: int, note: Seq<char>)
    ensures
        selects(ChangeView::ReleaseStale { before: instant, note }, job) <==> job.status
            == JobStatus::Running && (job.locked_at matches Some(at) && at < instant),
{
}

/// A span of time before an instant is taken in whole milliseconds, as far as a signed 64-bit number
/// counts them.
pub proof fn law_cutoff_counts_milliseconds(now: int, span: int)
    requires
        span >= 0,
    ensures
        span < i64::MAX * 1_000_000 ==> now - span <= cutoff(now, span) < now - span + 1_000_000,
        span >= i64::MAX * 1_000_000 ==> cutoff(now, span) == now - i64::MAX * 1_000_000,
        (now - cutoff(now, span)) % 1_000_000 == 0,
        clamped_millis(span) * 1_000_000 == now - cutoff(now, span),
{
}

/// A change asks for what it was made with.
pub proof fn law_change_shows_its_fields(change: Change<'_>)
    ensures
        match change {
            Change::Cancel { id } => change@ == (ChangeView::Cancel { id }),
            Change::Retry { id } => change@ == (ChangeView::Retry { id }),
            Change::PermanentlyFail { id, reason } => change@ == (ChangeView::PermanentlyFail {
                id,
                reason: reason@,
            }),
            Change::Complete { id } => change@ == (ChangeView::Complete { id }),
            Change::Reschedule { id, run_at } => change@ == (ChangeView::Reschedule {
                id,
                run_at: run_at@,
            }),
            Change::Release { workers, note } => {
                &&& change@ matches ChangeView::Release { workers: ids, note: text }
                &&& text == note@
                &&& ids.len() == workers@.len()
                &&& forall|i: int| 0 <= i < ids.len() ==> #[trigger] ids[i] == workers@[i]@
            },
            Change::ReleaseStale { before, note } => change@ == (ChangeView::ReleaseStale {
                before: before as int,
                note: note@,
            }),
            Change::CompleteLocked { id, owner } => change@ == (ChangeView::CompleteLocked {
                id,
                owner: owner@,
            }),
            Change::RenewLock { id, owner } => change@ == (ChangeView::RenewLock {
                id,
                owner: owner@,
            }),
            Change::FailLocked { id, owner, error } => change@ == (ChangeView::FailLocked {
                id,
                owner: owner@,
                error: error@,
            }),
            Change::BackOffLocked { id, owner, error } => change@ == (ChangeView::BackOffLocked {
                id,
                owner: owner@,
                error: error@,
            }),
        },
{
}

} // verus!
