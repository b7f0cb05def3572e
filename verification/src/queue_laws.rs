//! What the operations of a queue return, and what they leave behind.

use vstd::prelude::*;

use crate::change::ChangeView;
use crate::change_laws::{
    becomes, law_release, law_release_is_about_the_workers_jobs, law_release_stale, loop_of,
    put_back, run_by_any,
};
use crate::error::StoreError;
use crate::job::{Job, JobStatus, JobView};
use crate::job_laws::{law_claim_takes_a_waiting_job, law_claim_takes_the_first, waits_for};
use crate::listing::finished_before;
use crate::queue::{
    claim_outcome, cutoff, dead_worker_outcome, failure_change, job_with, most_recent, prune_outcome,
    release_outcome, stale_outcome, unlock_outcome, QueueView,
};
use crate::roster::{silent_since, worker_ids};
use crate::rows::WorkerRowView;
use crate::store_laws::{
    law_leaving_the_roster, law_newest_come_first, law_pruning_deletes_what_is_old,
};
use crate::table::{jobs_sound, next_claim, place_of};

verus! {

/// Whether a job comes before another one: by priority, then by the time from which it may run, then
/// by age, then by where it is stored.
pub open spec fn goes_first(jobs: Seq<JobView>, place: int, other: int) -> bool {
    let one = jobs[place];
    let two = jobs[other];
    if one.priority != two.priority {
        one.priority < two.priority
    } else if one.run_at != two.run_at {
        one.run_at < two.run_at
    } else if one.created_at != two.created_at {
        one.created_at < two.created_at
    } else {
        place <= other
    }
}

/// Whether a job waits for a worker with certain names, and goes before all others that do.
pub open spec fn waits_first(
    jobs: Seq<JobView>,
    names: Seq<Seq<char>>,
    now: int,
    place: int,
) -> bool {
    &&& waits_for(jobs, names, now, place)
    &&& forall|other: int| #[trigger]
        waits_for(jobs, names, now, other) ==> goes_first(jobs, place, other)
}

/// Whether a claim took the job at a place: it waited for a worker with these names, it goes before
/// all others that did, and it is now running, locked by the claim loop, at one more attempt.
pub open spec fn took(
    before: QueueView,
    after: QueueView,
    owner: Seq<char>,
    names: Seq<Seq<char>>,
    now: int,
    job: JobView,
    place: int,
) -> bool {
    &&& waits_first(before.jobs, names, now, place)
    &&& before.jobs[place].attempt != i32::MAX
    &&& job == (JobView {
        status: JobStatus::Running,
        attempt: before.jobs[place].attempt + 1,
        locked_by: Some(owner),
        locked_at: Some(now),
        started_at: Some(now),
        finished_at: None,
        error: None,
        ..before.jobs[place]
    })
    &&& after.jobs.len() == before.jobs.len()
    &&& after.jobs[place] == job
    &&& forall|i: int|
        0 <= i < before.jobs.len() && i != place ==> #[trigger] after.jobs[i] == before.jobs[i]
    &&& after.workers == before.workers
    &&& after.crons == before.crons
}

/// A claim takes the first of the jobs that wait, and there is no other change. Where none waits it
/// takes none; where the attempts of the first can no longer be counted, it fails. In both cases
/// nothing changes.
pub proof fn law_claim(
    before: QueueView,
    after: QueueView,
    owner: Seq<char>,
    names: Seq<Seq<char>>,
    now: int,
    result: Result<Option<Job>, StoreError>,
)
    requires
        claim_outcome(before, after, owner, names, now, result),
    ensures
        result matches Ok(Some(job)) ==> {
            &&& exists|place: int| #[trigger] took(before, after, owner, names, now, job@, place)
            &&& names.contains(job@.name)
            &&& job@.status is Running
            &&& job@.locked_by == Some(owner)
        },
        result == Ok::<Option<Job>, StoreError>(None) <==> forall|place: int|
            !#[trigger] waits_for(before.jobs, names, now, place),
        (forall|i: int, k: int|
            0 <= i < before.jobs.len() && 0 <= k < names.len() ==> (#[trigger] before.jobs[i]).name
                != #[trigger] names[k]) ==> result == Ok::<Option<Job>, StoreError>(None),
        result == Ok::<Option<Job>, StoreError>(None) ==> after == before,
        result is Err ==> after == before && result->Err_0 == StoreError::AttemptOverflow && exists|
            place: int,
        |
            {
                &&& #[trigger] waits_first(before.jobs, names, now, place)
                &&& before.jobs[place].attempt == i32::MAX
            },
{
    let jobs = before.jobs;
    match next_claim(jobs, names, now) {
        Some(place) => {
            law_claim_takes_a_waiting_job(jobs, names, now, place);
            assert(waits_for(jobs, names, now, place));
            let k = choose|k: int| 0 <= k < names.len() && #[trigger] names[k] == jobs[place].name;
            assert(names.contains(jobs[place].name));
            assert forall|other: int| #[trigger]
                waits_for(jobs, names, now, other) implies goes_first(jobs, place, other) by {
                law_claim_takes_the_first(jobs, names, now, place, other);
            }
            assert(waits_first(jobs, names, now, place));
            if let Ok(Some(job)) = result {
                assert(took(before, after, owner, names, now, job@, place));
            }
        },
        None => {
            assert forall|place: int| !#[trigger] waits_for(jobs, names, now, place) by {
                law_claim_takes_a_waiting_job(jobs, names, now, place);
            }
        },
    }
}

/// A job that failed at its last attempt, or beyond it, is recorded as failed for good; one that
/// failed before that is put back to run again.
pub proof fn law_which_failure_is_final(
    id: u128,
    owner: Seq<char>,
    attempt: int,
    max_attempts: int,
    error: Seq<char>,
)
    ensures
        attempt < max_attempts ==> failure_change(id, owner, attempt, max_attempts, error) == (
        ChangeView::BackOffLocked { id, owner, error }),
        attempt >= max_attempts ==> failure_change(id, owner, attempt, max_attempts, error) == (
        ChangeView::FailLocked { id, owner, error }),
{
}

/// The places of the jobs that meet a condition are as many as a number.
pub open spec fn numbered(jobs: Seq<JobView>, wanted: spec_fn(JobView) -> bool, count: int) -> bool {
    jobs.filter(wanted).len() == count
}

proof fn lemma_selected_numbered(
    jobs: Seq<JobView>,
    change: ChangeView,
    wanted: spec_fn(JobView) -> bool,
)
    requires
        forall|job: JobView| #[trigger] crate::change::selects(change, job) == wanted(job),
    ensures
        numbered(jobs, wanted, crate::change::selected(jobs, change) as int),
    decreases jobs.len(),
{
    reveal(Seq::filter);
    if jobs.len() > 0 {
        lemma_selected_numbered(jobs.drop_last(), change, wanted);
        assert(crate::change::selects(change, jobs.last()) == wanted(jobs.last()));
    }
}

/// A release of the jobs of some workers puts back the running jobs that their claim loops have
/// locked, with the note, and counts them.
pub proof fn law_release_counts(
    before: QueueView,
    after: QueueView,
    workers: Seq<Seq<char>>,
    note: Seq<char>,
    now: int,
    count: int,
)
    requires
        release_outcome(before, after, ChangeView::Release { workers, note }, now, count),
    ensures
        becomes(
            before,
            after,
            |job: JobView| run_by_any(job, workers),
            |job: JobView| put_back(job, note, now),
        ),
        numbered(before.jobs, |job: JobView| run_by_any(job, workers), count),
{
    law_release(before, after, workers, note, now);
    assert forall|job: JobView| #[trigger]
        crate::change::selects(ChangeView::Release { workers, note }, job) == run_by_any(
            job,
            workers,
        ) by {
        law_release_is_about_the_workers_jobs(job, workers, note);
    }
    lemma_selected_numbered(
        before.jobs,
        ChangeView::Release { workers, note },
        |job: JobView| run_by_any(job, workers),
    );
}

/// Unlocking a worker by force puts back the running jobs that its claim loops have locked, takes it
/// off the roster, and leaves all else as it is.
pub proof fn law_unlocking_by_force(
    before: QueueView,
    after: QueueView,
    worker_id: Seq<char>,
    now: int,
    count: int,
    worker: WorkerRowView,
)
    requires
        unlock_outcome(before, after, worker_id, now, count),
    ensures
        becomes(
            before,
            QueueView { workers: before.workers, ..after },
            |job: JobView| run_by_any(job, seq![worker_id]),
            |job: JobView| put_back(job, "released by operator"@, now),
        ),
        numbered(before.jobs, |job: JobView| run_by_any(job, seq![worker_id]), count),
        after.workers.contains(worker) <==> before.workers.contains(worker) && worker.id
            != worker_id,
{
    law_release_counts(
        before,
        QueueView { workers: before.workers, ..after },
        seq![worker_id],
        "released by operator"@,
        now,
        count,
    );
    law_leaving_the_roster(before.workers, worker, worker_id, 0);
}

/// Whether a running job is locked by a claim loop of a worker that has been silent since before an
/// instant.
pub open spec fn run_by_silent(job: JobView, workers: Seq<WorkerRowView>, instant: int) -> bool {
    &&& job.status == JobStatus::Running
    &&& job.locked_by is Some
    &&& exists|i: int|
        {
            &&& 0 <= i < workers.len()
            &&& (#[trigger] workers[i]).last_heartbeat_at < instant
            &&& loop_of(job.locked_by->0, workers[i].id)
        }
}

proof fn lemma_run_by_silent(job: JobView, workers: Seq<WorkerRowView>, instant: int)
    ensures
        run_by_silent(job, workers, instant) == run_by_any(
            job,
            worker_ids(silent_since(workers, instant)),
        ),
{
    let silent = silent_since(workers, instant);
    let ids = worker_ids(silent);
    if run_by_silent(job, workers, instant) {
        let i = choose|i: int|
            {
                &&& 0 <= i < workers.len()
                &&& (#[trigger] workers[i]).last_heartbeat_at < instant
                &&& loop_of(job.locked_by->0, workers[i].id)
            };
        law_leaving_the_roster(workers, workers[i], workers[i].id, instant);
        assert(workers.contains(workers[i]));
        assert(silent.contains(workers[i]));
        let k = choose|k: int| 0 <= k < silent.len() && silent[k] == workers[i];
        assert(ids[k] == workers[i].id);
        assert(loop_of(job.locked_by->0, ids[k]));
    }
    if run_by_any(job, ids) {
        let k = choose|k: int| 0 <= k < ids.len() && loop_of(job.locked_by->0, #[trigger] ids[k]);
        let worker = silent[k];
        assert(ids[k] == worker.id);
        law_leaving_the_roster(workers, worker, worker.id, instant);
        assert(silent.contains(worker));
        let i = choose|i: int| 0 <= i < workers.len() && workers[i] == worker;
        assert(workers[i].last_heartbeat_at < instant);
    }
}

/// Recovery from dead workers takes those off the roster that last reported more than the given span
/// of time ago, in whole milliseconds, puts back the running jobs that their claim loops have locked,
/// and leaves all else as it is.
pub proof fn law_recovery_from_dead_workers(
    before: QueueView,
    after: QueueView,
    stale_after: int,
    now: int,
    count: int,
    worker: WorkerRowView,
)
    requires
        0 <= stale_after <= i64::MAX * 1_000_000,
        dead_worker_outcome(before, after, stale_after, now, count),
    ensures
        ({
            let instant = now - stale_after / 1_000_000 * 1_000_000;
            &&& after.workers.contains(worker) <==> before.workers.contains(worker)
                && worker.last_heartbeat_at >= instant
            &&& becomes(
                before,
                QueueView { workers: before.workers, ..after },
                |job: JobView| run_by_silent(job, before.workers, instant),
                |job: JobView| put_back(job, "recovered dead worker job"@, now),
            )
            &&& numbered(
                before.jobs,
                |job: JobView| run_by_silent(job, before.workers, instant),
                count,
            )
        }),
{
    let instant = now - stale_after / 1_000_000 * 1_000_000;
    let ids = worker_ids(silent_since(before.workers, instant));
    let note = "recovered dead worker job"@;
    law_leaving_the_roster(before.workers, worker, worker.id, instant);
    law_release_counts(
        before,
        QueueView { workers: before.workers, ..after },
        ids,
        note,
        now,
        count,
    );
    assert forall|job: JobView| #[trigger] run_by_silent(job, before.workers, instant) == run_by_any(
        job,
        ids,
    ) by {
        lemma_run_by_silent(job, before.workers, instant);
    }
    assert((|job: JobView| run_by_silent(job, before.workers, instant)) =~= (|job: JobView|
        run_by_any(job, ids)));
}

/// Recovery from stale locks puts back the running jobs whose locks were renewed more than the given
/// span of time ago, in whole milliseconds, counts them, and leaves all else as it is.
pub proof fn law_recovery_from_stale_locks(
    before: QueueView,
    after: QueueView,
    stale_after: int,
    now: int,
    count: int,
)
    requires
        0 <= stale_after <= i64::MAX * 1_000_000,
        stale_outcome(before, after, stale_after, now, count),
    ensures
        ({
            let stale = |job: JobView|
                job.status == JobStatus::Running && job.locked_at is Some && now - job.locked_at->0
                    > stale_after / 1_000_000 * 1_000_000;
            &&& becomes(
                before,
                after,
                stale,
                |job: JobView| put_back(job, "recovered stale running job"@, now),
            )
            &&& numbered(before.jobs, stale, count)
        }),
{
    let note = "recovered stale running job"@;
    law_release_stale(before, after, stale_after, note, now);
    lemma_selected_numbered(
        before.jobs,
        ChangeView::ReleaseStale { before: cutoff(now, stale_after), note },
        |job: JobView|
            job.status == JobStatus::Running && job.locked_at is Some && now - job.locked_at->0
                > stale_after / 1_000_000 * 1_000_000,
    );
}

/// Whether a job ended before an instant.
pub open spec fn ended_before(job: JobView, instant: int) -> bool {
    &&& job.status == JobStatus::Succeeded || job.status == JobStatus::Failed || job.status
        == JobStatus::Cancelled
    &&& job.finished_at is Some
    &&& job.finished_at->0 < instant
}

/// Pruning deletes the jobs that ended more than the given span of time ago, in whole milliseconds,
/// and counts them; workers, schedules and all other jobs stay, in their order.
pub proof fn law_pruning(
    before: QueueView,
    after: QueueView,
    retain_for: int,
    now: int,
    count: int,
    job: JobView,
)
    requires
        0 <= retain_for <= i64::MAX * 1_000_000,
        prune_outcome(before, after, retain_for, now, count),
    ensures
        after.workers == before.workers,
        after.crons == before.crons,
        after.jobs.len() + count == before.jobs.len(),
        after.jobs.contains(job) <==> before.jobs.contains(job) && !{
            &&& job.status == JobStatus::Succeeded || job.status == JobStatus::Failed || job.status
                == JobStatus::Cancelled
            &&& job.finished_at matches Some(at) && now - at > retain_for / 1_000_000 * 1_000_000
        },
        after.jobs == before.jobs.filter(|job: JobView| !ended_before(
            job,
            now - retain_for / 1_000_000 * 1_000_000,
        )),
{
    law_pruning_deletes_what_is_old(before.jobs, retain_for, now, job);
    let instant = now - retain_for / 1_000_000 * 1_000_000;
    assert((|job: JobView| !finished_before(job, cutoff(now, retain_for))) =~= (|job: JobView|
        !ended_before(job, instant)));
}

/// The most recent jobs are as many as were asked for, or all; those that are left out were created no
/// later than any of them.
pub proof fn law_most_recent(jobs: Seq<JobView>, limit: int, i: int, j: int)
    requires
        limit >= 0,
    ensures
        limit <= jobs.len() ==> most_recent(jobs, limit).len() == limit,
        limit >= jobs.len() ==> most_recent(jobs, limit).len() == jobs.len(),
        limit >= jobs.len() ==> most_recent(jobs, limit).to_multiset() == jobs.to_multiset(),
        0 <= i <= j < most_recent(jobs, limit).len() ==> most_recent(jobs, limit)[i].created_at
            >= most_recent(jobs, limit)[j].created_at,
        0 <= i < limit <= j < jobs.len() ==> most_recent(jobs, limit)[i].created_at >= most_recent(
            jobs,
            jobs.len() as int,
        )[j].created_at,
        0 <= i < limit && i < jobs.len() ==> most_recent(jobs, limit)[i] == most_recent(
            jobs,
            jobs.len() as int,
        )[i],
{
    law_newest_come_first(jobs, i, j);
    let sorted = crate::listing::newest_first(jobs);
    assert(sorted.take(sorted.len() as int) =~= sorted);
}

/// The job with an id is the stored one that has it, and there is none where no stored job has.
pub proof fn law_job_with_an_id(jobs: Seq<JobView>, id: u128, place: int)
    requires
        jobs_sound(jobs),
    ensures
        0 <= place < jobs.len() && jobs[place].id == id ==> job_with(jobs, id) == Some(jobs[place]),
        (forall|i: int| 0 <= i < jobs.len() ==> (#[trigger] jobs[i]).id != id) ==> job_with(
            jobs,
            id,
        ) is None,
{
    if 0 <= place < jobs.len() && jobs[place].id == id {
        let found = place_of(jobs, id)->0;
        assert(0 <= found < jobs.len() && jobs[found].id == id);
        if found != place {
            assert(jobs[found].id != jobs[place].id);
        }
    }
}

} // verus!
