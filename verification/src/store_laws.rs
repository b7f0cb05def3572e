//! What listing, counting and deleting jobs and keeping the roster of workers come to.

use vstd::prelude::*;

use crate::error::{EnqueueError, StoreError};
use crate::job::{requested, rows, EnqueueRequest, Job, JobStatus, JobView};
use crate::listing::{count_status, finished_before, newest_first};
use crate::queue::{cutoff, run_time, typed_result, QueueView};
use crate::roster::{
    by_start, heard_since, registered, silent_since, without_worker, worker_ids, worker_place,
    workers_unique,
};
use crate::rows::{
    cron_rows, infos, listed, worker_rows, CronRow, WorkerInfo, WorkerRow, WorkerRowView,
};
use crate::sorting::{lemma_ranked, placed, ranked};
use crate::table::jobs_sound;

verus! {

/// Each job counts once, under its own status.
pub proof fn law_every_job_counts_once(jobs: Seq<JobView>, job: JobView, status: JobStatus)
    ensures
        count_status(Seq::empty(), status) == 0,
        count_status(jobs.push(job), status) == count_status(jobs, status) + if job.status == status {
            1int
        } else {
            0
        },
{
    assert(jobs.push(job).drop_last() =~= jobs);
}

/// The jobs that were created at an instant, in their order.
pub open spec fn created_at(jobs: Seq<JobView>, at: int) -> Seq<JobView> {
    jobs.filter(|job: JobView| job.created_at == at)
}

/// The workers that started at an instant, in their order.
pub open spec fn started_at(workers: Seq<WorkerRowView>, at: int) -> Seq<WorkerRowView> {
    workers.filter(|worker: WorkerRowView| worker.started_at == at)
}

/// Rows of one rank keep their order when a row is put among others.
proof fn lemma_placed_keeps_order<T>(
    sorted: Seq<T>,
    row: T,
    rank: spec_fn(T) -> int,
    keep: spec_fn(T) -> bool,
)
    requires
        forall|one: T, other: T|
            #![trigger keep(one), keep(other)]
            keep(one) && keep(other) ==> rank(one) == rank(other),
        forall|i: int, j: int|
            0 <= i <= j < sorted.len() ==> rank(#[trigger] sorted[i]) <= rank(#[trigger] sorted[j]),
    ensures
        placed(sorted, row, rank).filter(keep) == if keep(row) {
            sorted.filter(keep).push(row)
        } else {
            sorted.filter(keep)
        },
    decreases sorted.len(),
{
    reveal(Seq::filter);
    if sorted.len() == 0 || rank(sorted.last()) <= rank(row) {
        assert(sorted.push(row).drop_last() =~= sorted);
    } else {
        let rest = sorted.drop_last();
        let low = placed(rest, row, rank);
        lemma_placed_keeps_order(rest, row, rank, keep);
        assert(low.push(sorted.last()).drop_last() =~= low);
        assert(keep(row) ==> !keep(sorted.last()));
    }
}

/// Rows of one rank keep their order when rows are ranked.
proof fn lemma_ranked_keeps_order<T>(
    rows: Seq<T>,
    rank: spec_fn(T) -> int,
    keep: spec_fn(T) -> bool,
)
    requires
        forall|one: T, other: T|
            #![trigger keep(one), keep(other)]
            keep(one) && keep(other) ==> rank(one) == rank(other),
    ensures
        ranked(rows, rank).filter(keep) == rows.filter(keep),
    decreases rows.len(),
{
    reveal(Seq::filter);
    if rows.len() > 0 {
        let rest = rows.drop_last();
        lemma_ranked_keeps_order(rest, rank, keep);
        lemma_ranked(rest, rank);
        lemma_placed_keeps_order(ranked(rest, rank), rows.last(), rank, keep);
    }
}

/// The jobs are listed with the most recently created in front, each as often as it is stored; jobs
/// that were created at the same time stay in the order in which they are stored.
pub proof fn law_newest_come_first(jobs: Seq<JobView>, i: int, j: int)
    ensures
        newest_first(jobs).to_multiset() == jobs.to_multiset(),
        newest_first(jobs).len() == jobs.len(),
        0 <= i <= j < jobs.len() ==> newest_first(jobs)[i].created_at
            >= newest_first(jobs)[j].created_at,
        forall|at: int| #[trigger] created_at(newest_first(jobs), at) == created_at(jobs, at),
{
    let rank = |job: JobView| -job.created_at;
    lemma_ranked(jobs, rank);
    assert forall|at: int| #[trigger] created_at(newest_first(jobs), at) == created_at(jobs, at) by {
        lemma_ranked_keeps_order(jobs, rank, |job: JobView| job.created_at == at);
    }
    if 0 <= i <= j < jobs.len() {
        assert(rank(ranked(jobs, rank)[i]) <= rank(ranked(jobs, rank)[j]));
    }
}

/// The workers are listed with the one that started first in front, each once; those that started at
/// the same time stay in the order in which they registered.
pub proof fn law_first_started_come_first(workers: Seq<WorkerRowView>, i: int, j: int)
    ensures
        by_start(workers).to_multiset() == workers.to_multiset(),
        by_start(workers).len() == workers.len(),
        0 <= i <= j < workers.len() ==> by_start(workers)[i].started_at
            <= by_start(workers)[j].started_at,
        forall|at: int| #[trigger] started_at(by_start(workers), at) == started_at(workers, at),
{
    let rank = |worker: WorkerRowView| worker.started_at;
    lemma_ranked(workers, rank);
    assert forall|at: int| #[trigger] started_at(by_start(workers), at) == started_at(
        workers,
        at,
    ) by {
        lemma_ranked_keeps_order(workers, rank, |worker: WorkerRowView| worker.started_at == at);
    }
    if 0 <= i <= j < workers.len() {
        assert(rank(ranked(workers, rank)[i]) <= rank(ranked(workers, rank)[j]));
    }
}

/// A worker is listed with its id, the names of its jobs, and when it started and last reported.
pub proof fn law_worker_is_listed_as_it_is(row: WorkerRow, info: WorkerInfo, worker: WorkerRowView)
    ensures
        listed(worker).id == worker.id,
        listed(worker).task_names == worker.task_names,
        listed(worker).started_at == worker.started_at,
        listed(worker).last_heartbeat_at == worker.last_heartbeat_at,
        row@.id == row.id@,
        row@.metadata == row.metadata,
        row@.started_at == row.started_at@,
        row@.last_heartbeat_at == row.last_heartbeat_at@,
        row@.task_names.len() == row.task_names@.len(),
        forall|i: int|
            0 <= i < row.task_names@.len() ==> #[trigger] row@.task_names[i]
                == row.task_names@[i]@,
        info@.id == info.id@,
        info@.started_at == info.started_at@,
        info@.last_heartbeat_at == info.last_heartbeat_at@,
        info@.task_names.len() == info.task_names@.len(),
        forall|i: int|
            0 <= i < info.task_names@.len() ==> #[trigger] info@.task_names[i]
                == info.task_names@[i]@,
{
}

/// Pruning deletes the jobs that ended, and did so more than the given span of time ago, in whole
/// milliseconds; all others stay, in their order.
pub proof fn law_pruning_deletes_what_is_old(
    jobs: Seq<JobView>,
    retain_for: int,
    now: int,
    job: JobView,
)
    requires
        0 <= retain_for <= i64::MAX * 1_000_000,
    ensures
        jobs.filter(
            |job: JobView| !finished_before(job, cutoff(now, retain_for)),
        ).contains(job) <==> jobs.contains(job) && !{
            &&& job.status == JobStatus::Succeeded || job.status == JobStatus::Failed || job.status
                == JobStatus::Cancelled
            &&& job.finished_at matches Some(at) && now - at > retain_for / 1_000_000 * 1_000_000
        },
{
    lemma_filter_keeps(jobs, |job: JobView| !finished_before(job, cutoff(now, retain_for)), job);
}

/// What is kept of a list is what was in it and is to be kept.
proof fn lemma_filter_keeps<T>(rows: Seq<T>, keep: spec_fn(T) -> bool, row: T)
    ensures
        rows.filter(keep).contains(row) <==> rows.contains(row) && keep(row),
{
    if rows.filter(keep).contains(row) {
        let i = choose|i: int| 0 <= i < rows.filter(keep).len() && rows.filter(keep)[i] == row;
        rows.lemma_filter_pred(keep, i);
        rows.lemma_filter_contains_rev(keep, row);
    }
    if rows.contains(row) && keep(row) {
        let i = choose|i: int| 0 <= i < rows.len() && rows[i] == row;
        rows.lemma_filter_contains(keep, i);
    }
}

/// A worker that registers for the first time is on the roster from then on, with the names of its
/// jobs, as started and heard of at that moment. One that reports again keeps its start. All other
/// workers stay as they are.
pub proof fn law_registering(
    workers: Seq<WorkerRowView>,
    id: Seq<char>,
    task_names: Seq<Seq<char>>,
    metadata: serde_json::Value,
    now: int,
    place: int,
)
    requires
        workers_unique(workers),
    ensures
        0 <= place < workers.len() && workers[place].id == id ==> {
            let after = registered(workers, id, task_names, metadata, now);
            &&& after.len() == workers.len()
            &&& forall|i: int|
                0 <= i < workers.len() && i != place ==> #[trigger] after[i] == workers[i]
            &&& after[place].id == id
            &&& after[place].task_names == task_names
            &&& after[place].metadata == metadata
            &&& after[place].started_at == workers[place].started_at
            &&& after[place].last_heartbeat_at == now
        },
        (forall|i: int| 0 <= i < workers.len() ==> (#[trigger] workers[i]).id != id) ==> {
            let after = registered(workers, id, task_names, metadata, now);
            let worker = after[workers.len() as int];
            &&& after.len() == workers.len() + 1
            &&& forall|i: int| 0 <= i < workers.len() ==> #[trigger] after[i] == workers[i]
            &&& worker.id == id
            &&& worker.task_names == task_names
            &&& worker.metadata == metadata
            &&& worker.started_at == now
            &&& worker.last_heartbeat_at == now
        },
{
    if 0 <= place < workers.len() && workers[place].id == id {
        let found = worker_place(workers, id)->0;
        assert(0 <= found < workers.len() && workers[found].id == id);
        if found != place {
            assert(workers[found].id != workers[place].id);
        }
    }
}

/// A worker that is forgotten is off the roster, and no other is; the others stay in their order. Those that reported before an
/// instant, and no others, are silent since then.
pub proof fn law_leaving_the_roster(
    workers: Seq<WorkerRowView>,
    worker: WorkerRowView,
    id: Seq<char>,
    instant: int,
)
    ensures
        without_worker(workers, id).contains(worker) <==> workers.contains(worker) && worker.id != id,
        silent_since(workers, instant).contains(worker) <==> workers.contains(worker)
            && worker.last_heartbeat_at < instant,
        heard_since(workers, instant).contains(worker) <==> workers.contains(worker)
            && worker.last_heartbeat_at >= instant,
        workers.contains(worker) ==> worker_ids(workers).contains(worker.id),
        worker_ids(workers).len() == workers.len(),
        forall|i: int|
            0 <= i < workers.len() ==> #[trigger] worker_ids(workers)[i] == workers[i].id,
        without_worker(workers, id) == workers.filter(|worker: WorkerRowView| worker.id != id),
        silent_since(workers, instant) == workers.filter(
            |worker: WorkerRowView| worker.last_heartbeat_at < instant,
        ),
        heard_since(workers, instant) == workers.filter(
            |worker: WorkerRowView| worker.last_heartbeat_at >= instant,
        ),
{
    lemma_filter_keeps(workers, |worker: WorkerRowView| worker.id != id, worker);
    lemma_filter_keeps(
        workers,
        |worker: WorkerRowView| worker.last_heartbeat_at < instant,
        worker,
    );
    lemma_filter_keeps(
        workers,
        |worker: WorkerRowView| worker.last_heartbeat_at >= instant,
        worker,
    );
    if workers.contains(worker) {
        let i = choose|i: int| 0 <= i < workers.len() && workers[i] == worker;
        assert(worker_ids(workers)[i] == worker.id);
    }
}

/// What always holds of a queue: its jobs are sound, no two workers have the same id, and no two
/// schedules the same identifier.
pub proof fn law_what_a_sound_queue_is(queue: QueueView)
    ensures
        queue.sound() <==> {
            &&& jobs_sound(queue.jobs)
            &&& forall|i: int, j: int|
                0 <= i < j < queue.workers.len() ==> (#[trigger] queue.workers[i]).id != (
                #[trigger] queue.workers[j]).id
            &&& forall|i: int, j: int|
                0 <= i < j < queue.crons.len() ==> (#[trigger] queue.crons[i]).identifier != (
                #[trigger] queue.crons[j]).identifier
        },
{
    if forall|i: int, j: int|
        0 <= i < j < queue.workers.len() ==> (#[trigger] queue.workers[i]).id != (
        #[trigger] queue.workers[j]).id {
        assert forall|i: int, j: int|
            0 <= i < queue.workers.len() && 0 <= j < queue.workers.len() && i != j implies (
        #[trigger] queue.workers[i]).id != (#[trigger] queue.workers[j]).id by {
            if j < i {
                assert(queue.workers[j].id != queue.workers[i].id);
            }
        }
    }
    if forall|i: int, j: int|
        0 <= i < j < queue.crons.len() ==> (#[trigger] queue.crons[i]).identifier != (
        #[trigger] queue.crons[j]).identifier {
        assert forall|i: int, j: int|
            0 <= i < queue.crons.len() && 0 <= j < queue.crons.len() && i != j implies (
        #[trigger] queue.crons[i]).identifier != (#[trigger] queue.crons[j]).identifier by {
            if j < i {
                assert(queue.crons[j].identifier != queue.crons[i].identifier);
            }
        }
    }
}

/// A list of rows shows each of them, in order.
pub proof fn law_lists_show_their_rows(
    jobs: Seq<Job>,
    requests: Seq<EnqueueRequest>,
    workers: Seq<WorkerRow>,
    listings: Seq<WorkerInfo>,
    crons: Seq<CronRow>,
)
    ensures
        rows(jobs).len() == jobs.len(),
        forall|i: int| 0 <= i < jobs.len() ==> #[trigger] rows(jobs)[i] == jobs[i]@,
        requested(requests).len() == requests.len(),
        forall|i: int| 0 <= i < requests.len() ==> #[trigger] requested(requests)[i] == requests[i]@,
        worker_rows(workers).len() == workers.len(),
        forall|i: int| 0 <= i < workers.len() ==> #[trigger] worker_rows(workers)[i] == workers[i]@,
        infos(listings).len() == listings.len(),
        forall|i: int| 0 <= i < listings.len() ==> #[trigger] infos(listings)[i] == listings[i]@,
        cron_rows(crons).len() == crons.len(),
        forall|i: int| 0 <= i < crons.len() ==> #[trigger] cron_rows(crons)[i] == crons[i]@,
{
}

/// A job may run from the time that is asked for, and from the present where none is.
pub proof fn law_run_time(run_at: int, clock: int)
    ensures
        run_time(Some(run_at), clock) == run_at,
        run_time(None, clock) == clock,
{
}

/// What the store says of a request is passed on.
pub proof fn law_typed_result(id: u128, error: StoreError)
    ensures
        typed_result(Ok(id)) == Ok::<u128, EnqueueError>(id),
        typed_result(Err(error)) == Err::<u128, EnqueueError>(EnqueueError::Database(error)),
{
}

} // verus!
