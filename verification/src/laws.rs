//! What holds of the queue as a whole.

use vstd::prelude::*;

use crate::batch::{
    batch_failure, batch_ids, batch_stored, failure, first_repeat, lemma_holder_after, places,
    repeats_key, store_order, stored, Batch,
};
use crate::change::{
    backoff_micros, lock_prefix, requeued, revise, revised, revised_job, selects, ChangeView,
};
use crate::config::{config_problem, WorkerConfig};
use crate::cron::CronJob;
use crate::error::StoreError;
use crate::job::{finished, EnqueueRequestView, JobKeyMode, JobStatus, JobView};
use crate::listing::{count_status, finished_before};
use crate::queue::{clamped_millis, cron_outcome, cutoff, QueueView};
use crate::roster::{heard_since, silent_since};
use crate::rows::{CronEnqueueResult, CronRowView, WorkerRowView};
use crate::schedule_laws::law_next_is_later;
use crate::search::lemma_first_such_holds;
use crate::table::{
    claimed, eligible, enqueued, enqueued_id, holder, holds_key, is_next, jobs_sound,
    lemma_enqueued_sound, lemma_holder, lemma_revised_keeps, new_job, place_of, queue_free,
    refusal,
};
use crate::time::MAX_NANOS;
use crate::timetable::{cron_place, cron_request, occurrence_new, recorded};
use crate::worker::lock_owner_text;

verus! {

/// Enqueueing a job never changes a running one, under any mode; where a running job holds the job
/// key, nothing changes at all and its id is returned.
pub proof fn law_running_job_is_untouched(
    jobs: Seq<JobView>,
    request: EnqueueRequestView,
    run_at: int,
    id: u128,
    now: int,
    place: int,
)
    requires
        jobs_sound(jobs),
        refusal(jobs, request, id) is None,
        0 <= place < jobs.len(),
        jobs[place].status is Running,
    ensures
        enqueued(jobs, request, run_at, id, now)[place] == jobs[place],
        holds_key(jobs[place], request.options.job_key) ==> enqueued(jobs, request, run_at, id, now)
            == jobs && enqueued_id(jobs, request, id) == jobs[place].id,
{
    if holds_key(jobs[place], request.options.job_key) {
        lemma_holder(jobs, request.options.job_key, place);
        assert(enqueued(jobs, request, run_at, id, now) =~= jobs);
    }
}

/// Enqueueing a job under a job key that a queued job holds makes no second job. The queued job keeps
/// its id, and with it all else under `Dedupe`; under `Replace` it takes on the whole request, and
/// under `PreserveRunAt` all of it but the time from which it may run.
pub proof fn law_job_key_modes(
    jobs: Seq<JobView>,
    request: EnqueueRequestView,
    run_at: int,
    id: u128,
    now: int,
    place: int,
)
    requires
        jobs_sound(jobs),
        refusal(jobs, request, id) is None,
        0 <= place < jobs.len(),
        jobs[place].status is Queued,
        holds_key(jobs[place], request.options.job_key),
    ensures
        ({
            let after = enqueued(jobs, request, run_at, id, now);
            &&& after.len() == jobs.len()
            &&& enqueued_id(jobs, request, id) == jobs[place].id
            &&& forall|i: int| 0 <= i < jobs.len() && i != place ==> after[i] == jobs[i]
            &&& after[place].id == jobs[place].id
            &&& after[place].status is Queued
            &&& request.options.job_key_mode is Dedupe ==> after == jobs
            &&& !(request.options.job_key_mode is Dedupe) ==> after[place].name == request.name
                && after[place].payload == request.payload
            &&& request.options.job_key_mode is Replace ==> after[place].run_at == run_at
            &&& request.options.job_key_mode is PreserveRunAt ==> after[place].run_at
                == jobs[place].run_at
        }),
{
    lemma_holder(jobs, request.options.job_key, place);
    if request.options.job_key_mode is Dedupe {
        assert(enqueued(jobs, request, run_at, id, now) =~= jobs);
    }
}

/// Enqueueing a job twice under one job key, with nothing in between, gives the same id twice.
pub proof fn law_enqueue_twice(
    jobs: Seq<JobView>,
    request: EnqueueRequestView,
    again: EnqueueRequestView,
    run_at: int,
    id: u128,
    other_id: u128,
    now: int,
)
    requires
        jobs_sound(jobs),
        refusal(jobs, request, id) is None,
        request.options.job_key is Some,
        again.options.job_key == request.options.job_key,
    ensures
        enqueued_id(enqueued(jobs, request, run_at, id, now), again, other_id) == enqueued_id(
            jobs,
            request,
            id,
        ),
{
    let key = request.options.job_key;
    let after = enqueued(jobs, request, run_at, id, now);
    lemma_enqueued_sound(jobs, request, run_at, id, now);
    match holder(jobs, key) {
        Some(place) => {
            assert(0 <= place < jobs.len() && holds_key(jobs[place], key));
            assert(holds_key(after[place], key));
            lemma_holder(after, key, place);
        },
        None => {
            assert(after[jobs.len() as int] == new_job(request, run_at, id, now));
            lemma_holder(after, key, jobs.len() as int);
        },
    }
}

/// A job that was cancelled, failed for good or completed no longer holds its job key: the next
/// request under the key makes a new job.
pub proof fn law_finishing_releases_the_key(
    jobs: Seq<JobView>,
    change: ChangeView,
    now: int,
    place: int,
)
    requires
        jobs_sound(jobs),
        0 <= place < jobs.len(),
        change is Cancel || change is PermanentlyFail || change is Complete
            || change is CompleteLocked || change is FailLocked,
        selects(change, jobs[place]),
        jobs[place].unfinished(),
    ensures
        finished(revised(jobs, change, now)[place].status),
        holder(revised(jobs, change, now), jobs[place].job_key) is None,
{
    let after = revised(jobs, change, now);
    let key = jobs[place].job_key;
    lemma_revised_keeps(jobs, change, now, place);
    assert forall|i: int| 0 <= i < after.len() implies !holds_key(#[trigger] after[i], key) by {
        lemma_revised_keeps(jobs, change, now, i);
        if i != place && holds_key(after[i], key) {
            assert(jobs[i].unfinished());
            assert(jobs[i].job_key == jobs[place].job_key);
        }
    }
}

/// A queued job that is cancelled, and then retried, is queued again: due at once, with no attempts
/// made and no error, and as it was in all that was asked for. A second cancellation, or a second
/// retry, is about no job.
pub proof fn law_cancel_and_retry(job: JobView, id: u128, cancelled_at: int, retried_at: int)
    requires
        job.id == id,
        job.status is Queued,
    ensures
        ({
            let cancelled = revised_job(ChangeView::Cancel { id }, job, cancelled_at);
            let retried = revised_job(ChangeView::Retry { id }, cancelled, retried_at);
            &&& cancelled.status is Cancelled
            &&& !selects(ChangeView::Cancel { id }, cancelled)
            &&& retried.status is Queued
            &&& retried.attempt == 0
            &&& retried.run_at == retried_at
            &&& retried.error is None
            &&& retried.locked_by is None
            &&& retried.finished_at is None
            &&& retried.name == job.name
            &&& retried.payload == job.payload
            &&& retried.queue_name == job.queue_name
            &&& retried.priority == job.priority
            &&& retried.max_attempts == job.max_attempts
            &&& retried.job_key == job.job_key
            &&& !selects(ChangeView::Retry { id }, retried)
        }),
{
}

/// A job that has finished, and whose lock is released, is neither claimed nor changed but by a
/// retry; one that succeeded not even by that.
pub proof fn law_finished_jobs_rest(
    jobs: Seq<JobView>,
    place: int,
    change: ChangeView,
    names: Seq<Seq<char>>,
    now: int,
)
    requires
        0 <= place < jobs.len(),
        finished(jobs[place].status),
        jobs[place].locked_by is None,
    ensures
        !eligible(jobs, names, now, place),
        !(change is Retry) ==> !selects(change, jobs[place]),
        jobs[place].status is Succeeded ==> !selects(change, jobs[place]),
{
}

/// No job is started before the time from which it may run, nor while another one of its named queue
/// is running, nor before one that has a lower priority value and can be claimed too.
pub proof fn law_claims_in_order(
    jobs: Seq<JobView>,
    names: Seq<Seq<char>>,
    owner: Seq<char>,
    now: int,
    place: int,
    other: int,
)
    requires
        is_next(jobs, names, now, place),
        0 <= other < jobs.len(),
    ensures
        claimed(jobs[place], owner, now).started_at == Some(now),
        jobs[place].run_at <= now,
        jobs[place].queue_name is Some && jobs[other].status is Running ==> jobs[other].queue_name
            != jobs[place].queue_name,
        eligible(jobs, names, now, other) ==> jobs[place].priority <= jobs[other].priority,
        eligible(jobs, names, now, other) && jobs[place].priority == jobs[other].priority
            ==> jobs[place].run_at <= jobs[other].run_at,
{
}

/// After an occurrence of a schedule was recorded, no attempt to enqueue it again, or an earlier one,
/// does anything, whatever becomes of the jobs and workers in between.
pub proof fn law_occurrence_is_enqueued_once(
    before: QueueView,
    between: QueueView,
    resumed: QueueView,
    after: QueueView,
    cron: CronJob,
    due: int,
    next: int,
    id: u128,
    now: int,
    result: Result<CronEnqueueResult, StoreError>,
    again: CronJob,
    due_again: int,
    next_again: int,
    id_again: u128,
    now_again: int,
    result_again: Result<CronEnqueueResult, StoreError>,
)
    requires
        before.sound(),
        cron_outcome(before, between, cron, due, next, id, now, result),
        result is Ok,
        resumed.crons == between.crons,
        again.identifier@ == cron.identifier@,
        due_again <= due,
        cron_outcome(
            resumed,
            after,
            again,
            due_again,
            next_again,
            id_again,
            now_again,
            result_again,
        ),
    ensures
        result_again == Ok::<CronEnqueueResult, StoreError>(CronEnqueueResult::Skipped),
        after == resumed,
{
    let identifier = cron.identifier@;
    if occurrence_new(before.crons, identifier, due) {
        let crons = recorded(before.crons, cron, due, next, now);
        assert(between.crons == crons);
        match cron_place(before.crons, identifier) {
            Some(place) => {
                assert(0 <= place < before.crons.len() && before.crons[place].identifier
                    == identifier);
                assert(crons[place].identifier == identifier);
                let found = choose|i: int|
                    0 <= i < crons.len() && (#[trigger] crons[i]).identifier == identifier;
                if found != place {
                    assert(crons[found] == before.crons[found]);
                    assert(before.crons[found].identifier != before.crons[place].identifier);
                }
            },
            None => {
                let last = before.crons.len() as int;
                assert(crons[last].identifier == identifier);
                let found = choose|i: int|
                    0 <= i < crons.len() && (#[trigger] crons[i]).identifier == identifier;
                if found != last {
                    assert(before.crons[found].identifier == identifier);
                }
            },
        }
    }
}

/// A schedule that is first seen is recorded without enqueueing an old occurrence, unless it is to
/// catch up; then its job is enqueued, or an unfinished one holds its job key.
pub proof fn law_first_sight_of_a_schedule(
    before: QueueView,
    after: QueueView,
    cron: CronJob,
    due: int,
    next: int,
    id: u128,
    now: int,
    result: Result<CronEnqueueResult, StoreError>,
)
    requires
        cron_place(before.crons, cron.identifier@) is None,
        cron_outcome(before, after, cron, due, next, id, now, result),
    ensures
        !cron.catch_up_on_start ==> after.jobs == before.jobs && result == Ok::<
            CronEnqueueResult,
            StoreError,
        >(CronEnqueueResult::Skipped),
        cron.catch_up_on_start && result is Ok ==> after.jobs == enqueued(
            before.jobs,
            cron_request(cron),
            due,
            id,
            now,
        ) && result->Ok_0 != CronEnqueueResult::Skipped,
{
}

/// An occurrence is recorded together with the one after it, which is later.
pub proof fn law_recorded_occurrence_looks_ahead(
    crons: Seq<CronRowView>,
    cron: CronJob,
    due: int,
    now: int,
)
    ensures
        ({
            let after = recorded(crons, cron, due, cron.schedule.next(due), now);
            exists|place: int|
                {
                    &&& 0 <= place < after.len()
                    &&& (#[trigger] after[place]).identifier == cron.identifier@
                    &&& after[place].last_run_at == Some(due)
                    &&& after[place].next_run_at matches Some(next) && next > due
                }
        }),
{
    law_next_is_later(cron.schedule, due);
    let after = recorded(crons, cron, due, cron.schedule.next(due), now);
    match cron_place(crons, cron.identifier@) {
        Some(place) => {
            assert(0 <= place < crons.len());
            assert(after[place].identifier == cron.identifier@);
        },
        None => {
            assert(after[crons.len() as int].identifier == cron.identifier@);
        },
    }
}

/// The lock owner of each claim loop of a worker counts as owned by the worker. Where the ids of
/// workers hold no colon, it counts as owned by no other.
pub proof fn law_lock_owners_name_their_worker(
    worker: Seq<char>,
    other: Seq<char>,
    index: nat,
    id: u128,
)
    ensures
        lock_prefix(worker).is_prefix_of(lock_owner_text(worker, index, id)),
        !worker.contains(':') && !other.contains(':') && lock_prefix(other).is_prefix_of(
            lock_owner_text(worker, index, id),
        ) ==> other == worker,
{
    reveal_strlit(":");
    let owner = lock_owner_text(worker, index, id);
    let prefix = lock_prefix(worker);
    assert(owner.subrange(0, prefix.len() as int) =~= prefix);
    if !worker.contains(':') && !other.contains(':') && lock_prefix(other).is_prefix_of(owner) {
        let cut = lock_prefix(other);
        assert(cut == owner.subrange(0, cut.len() as int));
        assert(cut[other.len() as int] == ':');
        assert(owner[worker.len() as int] == ':');
        if other.len() < worker.len() {
            assert(owner[other.len() as int] == worker[other.len() as int]);
            assert(worker.contains(':'));
        }
        if worker.len() < other.len() {
            assert(cut[worker.len() as int] == owner[worker.len() as int]);
            assert(other[worker.len() as int] == ':');
        }
        assert(other.len() == worker.len());
        assert forall|i: int| 0 <= i < other.len() implies other[i] == worker[i] by {
            assert(cut[i] == owner[i]);
        }
        assert(other =~= worker);
    }
}

/// A worker that releases its jobs releases every running job that one of its claim loops has locked.
pub proof fn law_worker_releases_its_jobs(
    job: JobView,
    worker: Seq<char>,
    index: nat,
    id: u128,
    note: Seq<char>,
)
    requires
        job.status is Running,
        job.locked_by == Some(lock_owner_text(worker, index, id)),
    ensures
        selects(ChangeView::Release { workers: seq![worker], note }, job),
{
    law_lock_owners_name_their_worker(worker, worker, index, id);
    assert(lock_prefix(seq![worker][0]).is_prefix_of(job.locked_by->0));
}

/// After the jobs of some workers were released, none of their claim loops has a running job locked,
/// and every job that was released is due.
pub proof fn law_release_leaves_no_lock(
    jobs: Seq<JobView>,
    workers: Seq<Seq<char>>,
    note: Seq<char>,
    now: int,
    place: int,
)
    requires
        0 <= place < jobs.len(),
    ensures
        ({
            let change = ChangeView::Release { workers, note };
            let after = revised(jobs, change, now);
            &&& !selects(change, after[place])
            &&& selects(change, jobs[place]) ==> after[place].status is Queued
                && after[place].run_at == now && after[place].locked_by is None
        }),
{
}

/// A released or recovered job keeps its count of attempts, so that the next run counts as a new
/// attempt, and the error that it carries.
pub proof fn law_recovery_keeps_attempts(job: JobView, note: Seq<char>, now: int, owner: Seq<char>, later: int)
    ensures
        requeued(job, now, note).attempt == job.attempt,
        claimed(requeued(job, now, note), owner, later).attempt == job.attempt + 1,
        job.error is Some ==> requeued(job, now, note).error == job.error,
        job.error is None ==> requeued(job, now, note).error == Some(note),
{
}

/// Once a job was failed for good, completed or released, what its handler's claim loop still
/// reports is about no job: the result of the handler is discarded.
pub proof fn law_retired_job_discards_its_handler(
    job: JobView,
    change: ChangeView,
    now: int,
    owner: Seq<char>,
    error: Seq<char>,
)
    requires
        selects(change, job),
        change is PermanentlyFail || change is Complete || change is Release
            || change is ReleaseStale,
    ensures
        ({
            let id = job.id;
            let after = revise(change, job, now);
            &&& !selects(ChangeView::CompleteLocked { id, owner }, after)
            &&& !selects(ChangeView::FailLocked { id, owner, error }, after)
            &&& !selects(ChangeView::BackOffLocked { id, owner, error }, after)
            &&& !selects(ChangeView::RenewLock { id, owner }, after)
        }),
{
}

/// The wait before the next attempt grows with each failed attempt up to the tenth and stays the same
/// from there, so that no job waits much longer than six hours.
pub proof fn law_backoff_grows(fewer: int, more: int)
    requires
        0 <= fewer < more,
    ensures
        backoff_micros(fewer) <= backoff_micros(more),
        more <= 10 ==> backoff_micros(fewer) < backoff_micros(more),
        fewer >= 10 ==> backoff_micros(fewer) == backoff_micros(more),
        backoff_micros(more) <= 22_026_465_795,
{
}

/// A job that failed at an attempt before its last is queued again for later, with the error; at its
/// last attempt it has failed for good.
pub proof fn law_last_attempt_fails_for_good(
    job: JobView,
    owner: Seq<char>,
    error: Seq<char>,
    now: int,
)
    requires
        job.status is Running,
        job.locked_by == Some(owner),
        job.attempt >= 0,
        now < MAX_NANOS,
    ensures
        ({
            let id = job.id;
            let again = revised_job(ChangeView::BackOffLocked { id, owner, error }, job, now);
            let last = revised_job(ChangeView::FailLocked { id, owner, error }, job, now);
            &&& again.status is Queued && again.run_at > now && again.error == Some(error)
            &&& again.attempt == job.attempt && again.locked_by is None
            &&& last.status is Failed && last.finished_at == Some(now) && last.error == Some(error)
        }),
{
}

/// A job that is queued before its last attempt is so again after it was claimed and failed, unless
/// that attempt was the last: then it has failed for good. So no job is started, fails and is queued
/// again more often than it is allowed attempts.
pub proof fn law_failures_are_bounded(
    job: JobView,
    owner: Seq<char>,
    error: Seq<char>,
    claimed_at: int,
    failed_at: int,
)
    requires
        job.status is Queued,
        job.attempt < job.max_attempts,
    ensures
        ({
            let id = job.id;
            let running = claimed(job, owner, claimed_at);
            let change = if running.attempt >= running.max_attempts {
                ChangeView::FailLocked { id, owner, error }
            } else {
                ChangeView::BackOffLocked { id, owner, error }
            };
            let after = revised_job(change, running, failed_at);
            &&& after.attempt == job.attempt + 1
            &&& after.max_attempts == job.max_attempts
            &&& after.status is Queued ==> after.attempt < after.max_attempts
            &&& after.status is Failed <==> after.attempt == after.max_attempts
            &&& after.status is Queued || after.status is Failed
        }),
{
}

/// A job that is retried, released or moved to a time that has come can be claimed at once, by a
/// worker that has a handler for it, if its named queue is free.
pub proof fn law_due_jobs_can_be_claimed(
    jobs: Seq<JobView>,
    change: ChangeView,
    names: Seq<Seq<char>>,
    now: int,
    place: int,
)
    requires
        0 <= place < jobs.len(),
        selects(change, jobs[place]),
        change is Retry || change is Release || change is ReleaseStale || (change
            matches ChangeView::Reschedule { id, run_at } && run_at <= now),
        names.contains(jobs[place].name),
        queue_free(revised(jobs, change, now), jobs[place].queue_name),
    ensures
        eligible(revised(jobs, change, now), names, now, place),
{
    lemma_revised_keeps(jobs, change, now, place);
}

/// When a running job ends, in whichever way, its named queue is free for the next one.
pub proof fn law_ending_frees_the_queue(
    jobs: Seq<JobView>,
    change: ChangeView,
    now: int,
    place: int,
)
    requires
        jobs_sound(jobs),
        0 <= place < jobs.len(),
        jobs[place].status is Running,
        selects(change, jobs[place]),
        !(change is RenewLock),
    ensures
        queue_free(revised(jobs, change, now), jobs[place].queue_name),
{
    let after = revised(jobs, change, now);
    let queue_name = jobs[place].queue_name;
    lemma_revised_keeps(jobs, change, now, place);
    if queue_name is Some {
        assert forall|j: int|
            0 <= j < after.len() && (#[trigger] after[j]).status is Running implies after[j].queue_name
            != queue_name by {
            lemma_revised_keeps(jobs, change, now, j);
        }
    }
}

/// A worker that reported no longer ago than workers count as alive is not taken for dead.
pub proof fn law_reporting_worker_is_kept(
    workers: Seq<WorkerRowView>,
    place: int,
    stale_after: int,
    now: int,
)
    requires
        0 <= place < workers.len(),
        now - workers[place].last_heartbeat_at <= clamped_millis(stale_after) * 1_000_000,
    ensures
        heard_since(workers, cutoff(now, stale_after)).contains(workers[place]),
        !silent_since(workers, cutoff(now, stale_after)).contains(workers[place]),
{
    let instant = cutoff(now, stale_after);
    let heard = |worker: WorkerRowView| worker.last_heartbeat_at >= instant;
    let silent = |worker: WorkerRowView| worker.last_heartbeat_at < instant;
    workers.lemma_filter_contains_rev(heard, workers[place]);
    assert forall|i: int| 0 <= i < workers.filter(silent).len() implies silent(
        #[trigger] workers.filter(silent)[i],
    ) by {
        workers.lemma_filter_pred(silent, i);
    }
}

/// Whether the running jobs, and no others, are locked.
pub open spec fn locks_consistent(jobs: Seq<JobView>) -> bool {
    forall|i: int|
        0 <= i < jobs.len() ==> {
            &&& ((#[trigger] jobs[i]).locked_by is Some) == (jobs[i].status is Running)
            &&& (jobs[i].locked_at is Some) == (jobs[i].status is Running)
        }
}

/// Where the running jobs and no others are locked, it stays so whatever is enqueued, changed,
/// claimed or deleted.
pub proof fn law_locks_stay_consistent(
    jobs: Seq<JobView>,
    request: EnqueueRequestView,
    run_at: int,
    id: u128,
    change: ChangeView,
    names: Seq<Seq<char>>,
    owner: Seq<char>,
    place: int,
    keep: spec_fn(JobView) -> bool,
    now: int,
)
    requires
        locks_consistent(jobs),
    ensures
        locks_consistent(enqueued(jobs, request, run_at, id, now)),
        locks_consistent(revised(jobs, change, now)),
        eligible(jobs, names, now, place) ==> locks_consistent(
            jobs.update(place, claimed(jobs[place], owner, now)),
        ),
        locks_consistent(jobs.filter(keep)),
{
    let after = enqueued(jobs, request, run_at, id, now);
    match holder(jobs, request.options.job_key) {
        Some(at) => {
            assert(0 <= at < jobs.len());
            assert forall|i: int| 0 <= i < after.len() implies {
                &&& ((#[trigger] after[i]).locked_by is Some) == (after[i].status is Running)
                &&& (after[i].locked_at is Some) == (after[i].status is Running)
            } by {
                assert((jobs[i].locked_by is Some) == (jobs[i].status is Running));
            }
        },
        None => {
            assert forall|i: int| 0 <= i < after.len() implies {
                &&& ((#[trigger] after[i]).locked_by is Some) == (after[i].status is Running)
                &&& (after[i].locked_at is Some) == (after[i].status is Running)
            } by {
                if i < jobs.len() {
                    assert(after[i] == jobs[i]);
                }
            }
        },
    }
    let changed = revised(jobs, change, now);
    assert forall|i: int| 0 <= i < changed.len() implies {
        &&& ((#[trigger] changed[i]).locked_by is Some) == (changed[i].status is Running)
        &&& (changed[i].locked_at is Some) == (changed[i].status is Running)
    } by {
        assert((jobs[i].locked_by is Some) == (jobs[i].status is Running));
        assert(changed[i] == revised_job(change, jobs[i], now));
    }
    lemma_filter_locks(jobs, keep);
}

proof fn lemma_filter_locks(jobs: Seq<JobView>, keep: spec_fn(JobView) -> bool)
    requires
        locks_consistent(jobs),
    ensures
        locks_consistent(jobs.filter(keep)),
    decreases jobs.len(),
{
    reveal(Seq::filter);
    if jobs.len() > 0 {
        let rest = jobs.drop_last();
        assert(locks_consistent(rest)) by {
            assert forall|i: int| 0 <= i < rest.len() implies {
                &&& ((#[trigger] rest[i]).locked_by is Some) == (rest[i].status is Running)
                &&& (rest[i].locked_at is Some) == (rest[i].status is Running)
            } by {
                assert(rest[i] == jobs[i]);
            }
        }
        lemma_filter_locks(rest, keep);
        let last = jobs[jobs.len() - 1];
        assert((last.locked_by is Some) == (last.status is Running));
    }
}

/// Only jobs that finished longer ago than they are kept are deleted: never one that is queued or
/// running, nor one that finished within the time, to the millisecond.
pub proof fn law_pruning_spares(job: JobView, retain_for: int, now: int)
    requires
        retain_for >= 0,
        finished_before(job, cutoff(now, retain_for)),
    ensures
        finished(job.status),
        job.finished_at is Some,
        job.finished_at->0 < now,
        clamped_millis(retain_for) < i64::MAX ==> now - job.finished_at->0 > retain_for - 1_000_000,
{
}

/// A lock that was renewed no longer ago than locks go stale is not recovered.
pub proof fn law_renewed_lock_is_not_stale(
    job: JobView,
    stale_after: int,
    note: Seq<char>,
    now: int,
)
    requires
        stale_after >= 0,
        job.locked_at is Some,
        now - job.locked_at->0 <= clamped_millis(stale_after) * 1_000_000,
    ensures
        !selects(ChangeView::ReleaseStale { before: cutoff(now, stale_after), note }, job),
{
}

/// A configuration that can work has locks renewed, and heartbeats sent, before they go stale.
pub proof fn law_valid_config_renews_in_time(config: WorkerConfig)
    requires
        config_problem(config) is None,
    ensures
        config.lock_renew_interval@ < config.stale_after@,
        config.heartbeat_interval@ < config.stale_after@,
        config.concurrency > 0,
{
}

/// The totals by status add up to the number of jobs.
pub proof fn law_counts_add_up(jobs: Seq<JobView>)
    ensures
        count_status(jobs, JobStatus::Queued) + count_status(jobs, JobStatus::Running)
            + count_status(jobs, JobStatus::Succeeded) + count_status(jobs, JobStatus::Failed)
            + count_status(jobs, JobStatus::Cancelled) == jobs.len(),
    decreases jobs.len(),
{
    if jobs.len() > 0 {
        law_counts_add_up(jobs.drop_last());
    }
}

/// What is left of a refusal, or of the lack of one, when the last request is taken away.
pub proof fn lemma_stored_sound(jobs: Seq<JobView>, batch: Batch, order: Seq<int>)
    requires
        jobs_sound(jobs),
        failure(jobs, batch, order) is None,
    ensures
        jobs_sound(stored(jobs, batch, order)),
        forall|count: int|
            0 <= count <= order.len() ==> (#[trigger] failure(
                jobs,
                batch,
                order.take(count),
            )) is None && jobs_sound(stored(jobs, batch, order.take(count))),
    decreases order.len(),
{
    if order.len() > 0 {
        let rest = order.drop_last();
        lemma_stored_sound(jobs, batch, rest);
        let place = order.last();
        lemma_enqueued_sound(
            stored(jobs, batch, rest),
            batch.requests[place],
            batch.run_ats[place],
            batch.ids[place],
            batch.now,
        );
        assert forall|count: int| 0 <= count <= order.len() implies (#[trigger] failure(
            jobs,
            batch,
            order.take(count),
        )) is None && jobs_sound(stored(jobs, batch, order.take(count))) by {
            if count < order.len() {
                assert(order.take(count) =~= rest.take(count));
                assert(failure(jobs, batch, rest.take(count)) is None);
            } else {
                assert(order.take(count) =~= order);
            }
        }
    } else {
        assert forall|count: int| 0 <= count <= order.len() implies (#[trigger] failure(
            jobs,
            batch,
            order.take(count),
        )) is None && jobs_sound(stored(jobs, batch, order.take(count))) by {
            assert(order.take(count) =~= order);
        }
    }
}

/// A job without a job key stays as it is while more is stored.
proof fn lemma_keyless_job_stays(
    jobs: Seq<JobView>,
    batch: Batch,
    order: Seq<int>,
    count: int,
    place: int,
)
    requires
        0 <= count <= order.len(),
        0 <= place < stored(jobs, batch, order.take(count)).len(),
        stored(jobs, batch, order.take(count))[place].job_key is None,
    ensures
        place < stored(jobs, batch, order).len(),
        stored(jobs, batch, order)[place] == stored(jobs, batch, order.take(count))[place],
    decreases order.len() - count,
{
    if count == order.len() {
        assert(order.take(count) =~= order);
    } else {
        let more = order.take(count + 1);
        assert(more.drop_last() =~= order.take(count));
        let before = stored(jobs, batch, order.take(count));
        let key = batch.requests[more.last()].options.job_key;
        if let Some(at) = holder(before, key) {
            assert(0 <= at < before.len() && holds_key(before[at], key));
        }
        lemma_keyless_job_stays(jobs, batch, order, count + 1, place);
    }
}

/// A job key that is held stays held while more is stored.
proof fn lemma_key_stays_held(
    jobs: Seq<JobView>,
    batch: Batch,
    order: Seq<int>,
    count: int,
    key: Option<Seq<char>>,
)
    requires
        jobs_sound(jobs),
        failure(jobs, batch, order) is None,
        0 <= count <= order.len(),
        key is Some,
        holder(stored(jobs, batch, order.take(count)), key) is Some,
    ensures
        holder(stored(jobs, batch, order), key) is Some,
    decreases order.len() - count,
{
    if count == order.len() {
        assert(order.take(count) =~= order);
    } else {
        lemma_stored_sound(jobs, batch, order);
        let more = order.take(count + 1);
        assert(more.drop_last() =~= order.take(count));
        assert(failure(jobs, batch, order.take(count)) is None);
        assert(failure(jobs, batch, more) is None);
        let place = more.last();
        lemma_holder_after(
            stored(jobs, batch, order.take(count)),
            batch.requests[place],
            batch.run_ats[place],
            batch.ids[place],
            batch.now,
            key,
        );
        lemma_key_stays_held(jobs, batch, order, count + 1, key);
    }
}

/// Every request with a mode stands at one of the places for it.
proof fn lemma_places_complete(
    requests: Seq<EnqueueRequestView>,
    mode: JobKeyMode,
    count: int,
    place: int,
)
    requires
        0 <= place < count,
        requests[place].options.job_key_mode == mode,
    ensures
        places(requests, mode, count).contains(place),
    decreases count,
{
    let all = places(requests, mode, count);
    if place == count - 1 {
        assert(all.last() == place);
    } else {
        lemma_places_complete(requests, mode, count - 1, place);
        let fewer = places(requests, mode, count - 1);
        let at = choose|at: int| 0 <= at < fewer.len() && fewer[at] == place;
        assert(all[at] == place);
    }
}

/// Every request has its turn.
pub proof fn lemma_store_order_complete(requests: Seq<EnqueueRequestView>, place: int)
    requires
        0 <= place < requests.len(),
    ensures
        store_order(requests).contains(place),
{
    let count = requests.len() as int;
    let one = places(requests, JobKeyMode::Dedupe, count);
    let two = places(requests, JobKeyMode::Replace, count);
    let three = places(requests, JobKeyMode::PreserveRunAt, count);
    let order = store_order(requests);
    match requests[place].options.job_key_mode {
        JobKeyMode::Dedupe => {
            lemma_places_complete(requests, JobKeyMode::Dedupe, count, place);
            let at = choose|at: int| 0 <= at < one.len() && one[at] == place;
            assert(order[at] == place);
        },
        JobKeyMode::Replace => {
            lemma_places_complete(requests, JobKeyMode::Replace, count, place);
            let at = choose|at: int| 0 <= at < two.len() && two[at] == place;
            assert(order[one.len() + at] == place);
        },
        JobKeyMode::PreserveRunAt => {
            lemma_places_complete(requests, JobKeyMode::PreserveRunAt, count, place);
            let at = choose|at: int| 0 <= at < three.len() && three[at] == place;
            assert(order[one.len() + two.len() + at] == place);
        },
    }
}

/// The ids that a batch returns line up with its requests: each is that of a stored job, which holds
/// the job key of the request, or, where the request has none, was made for it.
pub proof fn law_batch_ids_line_up(jobs: Seq<JobView>, batch: Batch, place: int)
    requires
        jobs_sound(jobs),
        batch_failure(jobs, batch) is None,
        0 <= place < batch.requests.len(),
    ensures
        ({
            let after = batch_stored(jobs, batch);
            let request = batch.requests[place];
            exists|at: int|
                {
                    &&& 0 <= at < after.len()
                    &&& (#[trigger] after[at]).id == batch_ids(after, batch)[place]
                    &&& if request.options.job_key is Some {
                        holds_key(after[at], request.options.job_key)
                    } else {
                        after[at] == new_job(
                            request,
                            batch.run_ats[place],
                            batch.ids[place],
                            batch.now,
                        )
                    }
                }
        }),
{
    let order = store_order(batch.requests);
    let after = batch_stored(jobs, batch);
    let request = batch.requests[place];
    let key = request.options.job_key;
    lemma_store_order_complete(batch.requests, place);
    lemma_stored_sound(jobs, batch, order);
    let turn = choose|turn: int| 0 <= turn < order.len() && order[turn] == place;
    let upto = order.take(turn + 1);
    assert(upto.drop_last() =~= order.take(turn));
    assert(upto.last() == place);
    assert(failure(jobs, batch, order.take(turn)) is None);
    assert(failure(jobs, batch, upto) is None);
    let before = stored(jobs, batch, order.take(turn));
    if key is Some {
        lemma_holder_after(
            before,
            request,
            batch.run_ats[place],
            batch.ids[place],
            batch.now,
            key,
        );
        lemma_key_stays_held(jobs, batch, order, turn + 1, key);
        let at = holder(after, key)->0;
        assert(0 <= at < after.len() && holds_key(after[at], key));
    } else {
        let at = before.len() as int;
        assert(holder(before, key) is None);
        assert(stored(jobs, batch, upto)[at] == new_job(
            request,
            batch.run_ats[place],
            batch.ids[place],
            batch.now,
        ));
        lemma_keyless_job_stays(jobs, batch, order, turn + 1, at);
        assert(after[at].id == batch_ids(after, batch)[place]);
    }
}

/// Of two requests of a batch without job keys, the one that has its turn first has another id.
proof fn lemma_keyless_ids_differ(
    jobs: Seq<JobView>,
    batch: Batch,
    order: Seq<int>,
    first: int,
    second: int,
)
    requires
        jobs_sound(jobs),
        failure(jobs, batch, order) is None,
        0 <= first < second < order.len(),
        batch.requests[order[first]].options.job_key is None,
        batch.requests[order[second]].options.job_key is None,
    ensures
        batch.ids[order[first]] != batch.ids[order[second]],
{
    lemma_stored_sound(jobs, batch, order);
    let early = order.take(first + 1);
    assert(early.drop_last() =~= order.take(first));
    let start = stored(jobs, batch, order.take(first));
    let at = start.len() as int;
    let key = batch.requests[order[first]].options.job_key;
    assert(holder(start, key) is None);
    assert(stored(jobs, batch, early)[at].id == batch.ids[order[first]]);
    let middle = order.take(second);
    assert(middle.take(first + 1) =~= early);
    lemma_keyless_job_stays(jobs, batch, middle, first + 1, at);
    let before = stored(jobs, batch, middle);
    assert(before[at].id == batch.ids[order[first]]);
    let late = order.take(second + 1);
    assert(late.drop_last() =~= middle);
    assert(late.last() == order[second]);
    assert(failure(jobs, batch, middle) is None);
    assert(failure(jobs, batch, late) is None);
    assert(holder(before, batch.requests[order[second]].options.job_key) is None);
    assert(place_of(before, batch.ids[order[second]]) is None);
}

/// The ids that a batch returns belong to as many jobs as it has requests: no two of them are the
/// same.
pub proof fn law_batch_ids_differ(jobs: Seq<JobView>, batch: Batch, one: int, other: int)
    requires
        jobs_sound(jobs),
        first_repeat(batch.requests) is None,
        batch_failure(jobs, batch) is None,
        0 <= one < other < batch.requests.len(),
    ensures
        batch_ids(batch_stored(jobs, batch), batch)[one] != batch_ids(
            batch_stored(jobs, batch),
            batch,
        )[other],
{
    let order = store_order(batch.requests);
    let after = batch_stored(jobs, batch);
    let test = |place: int| repeats_key(batch.requests, place);
    lemma_first_such_holds(test, 0, batch.requests.len() as int);
    assert(!test(other));
    lemma_stored_sound(jobs, batch, order);
    assert(order.take(order.len() as int) =~= order);
    assert(failure(jobs, batch, order.take(order.len() as int)) is None);
    assert(jobs_sound(after));
    law_batch_ids_line_up(jobs, batch, one);
    law_batch_ids_line_up(jobs, batch, other);
    let keys = (batch.requests[one].options.job_key, batch.requests[other].options.job_key);
    if keys.0 is None && keys.1 is None {
        lemma_store_order_complete(batch.requests, one);
        lemma_store_order_complete(batch.requests, other);
        let turn = choose|turn: int| 0 <= turn < order.len() && order[turn] == one;
        let other_turn = choose|turn: int| 0 <= turn < order.len() && order[turn] == other;
        if turn < other_turn {
            lemma_keyless_ids_differ(jobs, batch, order, turn, other_turn);
        } else {
            lemma_keyless_ids_differ(jobs, batch, order, other_turn, turn);
        }
    } else {
        assert(keys.0 != keys.1);
        let at = choose|at: int|
            {
                &&& 0 <= at < after.len()
                &&& (#[trigger] after[at]).id == batch_ids(after, batch)[one]
                &&& after[at].job_key == keys.0
            };
        let other_at = choose|at: int|
            {
                &&& 0 <= at < after.len()
                &&& (#[trigger] after[at]).id == batch_ids(after, batch)[other]
                &&& after[at].job_key == keys.1
            };
        assert(after[at].job_key == keys.0);
        assert(after[other_at].job_key == keys.1);
        assert(at != other_at);
    }
}

} // verus!
