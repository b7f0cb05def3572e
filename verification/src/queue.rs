//! The queue: stored jobs, registered workers and recorded schedules, and the operations on them.

use vstd::prelude::*;

use crate::batch::{
    batch_failure, batch_ids, batch_of, batch_stored, first_repeat, insert_job_batch, Batch,
};
use crate::change::{revised, selected, Change, ChangeView};
use crate::cron::CronJob;
use crate::error::{EnqueueError, StoreError};
use crate::job::{
    default_options, requested, rows, EnqueueOptions, EnqueueRequest, EnqueueRequestView, Job,
    JobStatus, JobView,
};
use crate::listing::{
    count_jobs, count_status, drop_finished, finished_before, newest_first, recent_jobs,
};
use crate::roster::{
    are_workers_unique, by_start, drop_silent, drop_worker, heard_since, lemma_filter_unique,
    list_workers, register, registered, silent_since, without_worker, worker_ids, workers_unique,
};
use crate::rows::{
    cron_rows, infos, listed, worker_rows, CronEnqueueResult, CronRow, CronRowView, JobCounts,
    WorkerInfo, WorkerRow, WorkerRowView,
};
use crate::soundness::{are_jobs_sound, lemma_filter_sound};
use crate::source::{clock, new_id, random_id};
use crate::table::{
    any_selected, apply_change, change_id, change_one, claim_job, claimed, eligible, enqueued,
    enqueued_id, find_job, holder, insert_job, is_next, jobs_sound, key_clash, next_claim, place_of,
    refusal, revives,
};
use crate::text::texts;
use crate::time::{in_range, instant_of, least, Duration, Timestamp};
use crate::timetable::{
    are_crons_unique, cron_request, crons_unique, find_cron, lemma_recorded_unique, occurrence_new,
    occurrence_runs, recorded,
};

verus! {

/// What a [`Queue`] holds.
#[verifier::ext_equal]
pub struct QueueView {
    pub jobs: Seq<JobView>,
    pub workers: Seq<WorkerRowView>,
    pub crons: Seq<CronRowView>,
}

impl QueueView {
    /// What always holds of a queue.
    pub open spec fn sound(self) -> bool {
        jobs_sound(self.jobs) && workers_unique(self.workers) && crons_unique(self.crons)
    }

    /// The queue with other jobs.
    pub open spec fn with_jobs(self, jobs: Seq<JobView>) -> QueueView {
        QueueView { jobs, ..self }
    }
}

/// Stored jobs, registered workers and recorded schedules.
///
/// An operation takes the present time from its caller, as `now`, and happens at once.
pub struct Queue {
    jobs: Vec<Job>,
    workers: Vec<WorkerRow>,
    crons: Vec<CronRow>,
}

impl View for Queue {
    type V = QueueView;

    closed spec fn view(&self) -> QueueView {
        QueueView {
            jobs: rows(self.jobs@),
            workers: worker_rows(self.workers@),
            crons: cron_rows(self.crons@),
        }
    }
}

/// The milliseconds of a span of time, as a signed 64-bit number: those that fit.
pub open spec fn clamped_millis(duration: int) -> int {
    least(duration / 1_000_000, i64::MAX as int)
}

/// The whole milliseconds of a span of time, or the largest number where they do not fit.
pub fn duration_millis_i64(duration: Duration) -> (millis: i64)
    ensures
        millis == clamped_millis(duration@),
        millis >= 0,
{
    let millis: u128 = duration.as_millis();
    if millis <= 0x7fff_ffff_ffff_ffff {
        millis as i64
    } else {
        i64::MAX
    }
}

/// The instant a span of time before `now`, the span taken in whole milliseconds.
pub open spec fn cutoff(now: int, span: int) -> int {
    now - clamped_millis(span) * 1_000_000
}

fn cutoff_nanos(now: Timestamp, span: Duration) -> (nanos: i128)
    ensures
        nanos == cutoff(now@, span@),
{
    let millis: i64 = duration_millis_i64(span);
    now.as_nanosecond() - millis as i128 * 1_000_000
}

/// The time from which a job may run: as asked for, or the time that the clock shows.
pub open spec fn run_time(run_at: Option<int>, clock: int) -> int {
    match run_at {
        Some(run_at) => run_at,
        None => clock,
    }
}

/// The time from which a job may run: as asked for, or the time that the clock shows.
pub fn resolve_run_at(run_at: Option<Timestamp>, clock: Timestamp) -> (resolved: Timestamp)
    ensures
        resolved@ == run_time(instant_of(run_at), clock@),
{
    match run_at {
        Some(run_at) => run_at,
        None => clock,
    }
}

/// What a request at `now` for a job that may run from `run_at`, with the id `id` if it is a new
/// one, does to a queue and returns.
pub open spec fn enqueue_outcome(
    before: QueueView,
    after: QueueView,
    request: EnqueueRequestView,
    run_at: int,
    id: u128,
    now: int,
    result: Result<u128, StoreError>,
) -> bool {
    match refusal(before.jobs, request, id) {
        None => {
            &&& result == Ok::<u128, StoreError>(enqueued_id(before.jobs, request, id))
            &&& after == before.with_jobs(enqueued(before.jobs, request, run_at, id, now))
        },
        Some(error) => {
            &&& result == Err::<u128, StoreError>(error)
            &&& after == before
        },
    }
}

/// What a batch of requests does to a queue and returns.
pub open spec fn batch_outcome(
    before: QueueView,
    after: QueueView,
    batch: Batch,
    result: Result<Vec<u128>, EnqueueError>,
) -> bool {
    match first_repeat(batch.requests) {
        Some(place) => {
            &&& result matches Err(EnqueueError::DuplicateJobKey(key))
            &&& Some(key@) == batch.requests[place].options.job_key
            &&& after == before
        },
        None => match batch_failure(before.jobs, batch) {
            Some(error) => {
                &&& result == Err::<Vec<u128>, EnqueueError>(EnqueueError::Database(error))
                &&& after == before
            },
            None => {
                &&& result matches Ok(ids)
                &&& after == before.with_jobs(batch_stored(before.jobs, batch))
                &&& ids@ == batch_ids(after.jobs, batch)
            },
        },
    }
}

/// Whether each job of a batch may run from the time that its request asks for, or, where it asks for
/// none, from one in the range of time.
pub open spec fn keeps_run_ats(requests: Seq<EnqueueRequestView>, run_ats: Seq<int>) -> bool {
    &&& run_ats.len() == requests.len()
    &&& forall|i: int|
        0 <= i < requests.len() ==> match (#[trigger] requests[i]).options.run_at {
            Some(run_at) => run_ats[i] == run_at,
            None => in_range(run_ats[i]),
        }
}

/// What a change made at `now` does to a queue.
pub open spec fn changed(before: QueueView, change: ChangeView, now: int) -> QueueView {
    before.with_jobs(revised(before.jobs, change, now))
}

/// What a change to one job does to a queue and returns, where it cannot clash.
pub open spec fn change_outcome(
    before: QueueView,
    after: QueueView,
    change: ChangeView,
    now: int,
    done: bool,
) -> bool {
    done == any_selected(before.jobs, change) && after == changed(before, change, now)
}

/// What a change to one job does to a queue and returns, where it can clash with the holder of a
/// job key.
pub open spec fn revival_outcome(
    before: QueueView,
    after: QueueView,
    change: ChangeView,
    now: int,
    result: Result<bool, StoreError>,
) -> bool {
    if key_clash(before.jobs, change) {
        result matches Err(StoreError::JobKeyHeld) && after == before
    } else {
        result matches Ok(done) && change_outcome(before, after, change, now, done)
    }
}

/// What an occurrence of a schedule at `due` does to a queue and returns, at `now`.
pub open spec fn cron_outcome(
    before: QueueView,
    after: QueueView,
    cron: CronJob,
    due: int,
    next: int,
    id: u128,
    now: int,
    result: Result<CronEnqueueResult, StoreError>,
) -> bool {
    let request = cron_request(cron);
    if !occurrence_new(before.crons, cron.identifier@, due) {
        result == Ok::<CronEnqueueResult, StoreError>(CronEnqueueResult::Skipped) && after
            == before
    } else if !occurrence_runs(before.crons, cron, due, now) {
        &&& result == Ok::<CronEnqueueResult, StoreError>(CronEnqueueResult::Skipped)
        &&& after == (QueueView { crons: recorded(before.crons, cron, due, next, now), ..before })
    } else {
        match refusal(before.jobs, request, id) {
            Some(error) => result == Err::<CronEnqueueResult, StoreError>(error) && after == before,
            None => {
                let stored = enqueued_id(before.jobs, request, id);
                &&& result == Ok::<CronEnqueueResult, StoreError>(
                    if holder(before.jobs, request.options.job_key) is None {
                        CronEnqueueResult::Enqueued(stored)
                    } else {
                        CronEnqueueResult::AlreadyQueued(stored)
                    },
                )
                &&& after == (QueueView {
                    jobs: enqueued(before.jobs, request, due, id, now),
                    crons: recorded(before.crons, cron, due, next, now),
                    ..before
                })
            },
        }
    }
}

/// What a claim by `owner` of a job with one of the given names does to a queue and returns, at `now`.
pub open spec fn claim_outcome(
    before: QueueView,
    after: QueueView,
    owner: Seq<char>,
    names: Seq<Seq<char>>,
    now: int,
    result: Result<Option<Job>, StoreError>,
) -> bool {
    match next_claim(before.jobs, names, now) {
        None => result matches Ok(None) && after == before,
        Some(place) => if before.jobs[place].attempt == i32::MAX {
            result matches Err(StoreError::AttemptOverflow) && after == before
        } else {
            let next = claimed(before.jobs[place], owner, now);
            &&& result matches Ok(Some(job))
            &&& job@ == next
            &&& after == before.with_jobs(before.jobs.update(place, next))
        },
    }
}

/// The change that records that a job failed at one of its attempts.
pub open spec fn failure_change(
    id: u128,
    owner: Seq<char>,
    attempt: int,
    max_attempts: int,
    error: Seq<char>,
) -> ChangeView {
    if attempt >= max_attempts {
        ChangeView::FailLocked { id, owner, error }
    } else {
        ChangeView::BackOffLocked { id, owner, error }
    }
}

/// What a change to many jobs does to the jobs of a queue and returns: how many they were.
pub open spec fn release_outcome(
    before: QueueView,
    after: QueueView,
    change: ChangeView,
    now: int,
    count: int,
) -> bool {
    count == selected(before.jobs, change) && after == changed(before, change, now)
}

/// What it does to a queue, and returns, that a worker is unlocked by force.
pub open spec fn unlock_outcome(
    before: QueueView,
    after: QueueView,
    worker_id: Seq<char>,
    now: int,
    count: int,
) -> bool {
    let change = ChangeView::Release { workers: seq![worker_id], note: "released by operator"@ };
    &&& after.workers == without_worker(before.workers, worker_id)
    &&& release_outcome(before, QueueView { workers: before.workers, ..after }, change, now, count)
}

/// What the recovery from workers that have been silent for `stale_after` does to a queue and returns.
pub open spec fn dead_worker_outcome(
    before: QueueView,
    after: QueueView,
    stale_after: int,
    now: int,
    count: int,
) -> bool {
    let instant = cutoff(now, stale_after);
    let change = ChangeView::Release {
        workers: worker_ids(silent_since(before.workers, instant)),
        note: "recovered dead worker job"@,
    };
    &&& after.workers == heard_since(before.workers, instant)
    &&& release_outcome(before, QueueView { workers: before.workers, ..after }, change, now, count)
}

/// What the recovery from locks that were not renewed for `stale_after` does to a queue and returns.
pub open spec fn stale_outcome(
    before: QueueView,
    after: QueueView,
    stale_after: int,
    now: int,
    count: int,
) -> bool {
    let change = ChangeView::ReleaseStale {
        before: cutoff(now, stale_after),
        note: "recovered stale running job"@,
    };
    release_outcome(before, after, change, now, count)
}

/// What deleting the jobs that finished longer than `retain_for` ago does to a queue and returns.
pub open spec fn prune_outcome(
    before: QueueView,
    after: QueueView,
    retain_for: int,
    now: int,
    count: int,
) -> bool {
    &&& after == before.with_jobs(
        before.jobs.filter(|job: JobView| !finished_before(job, cutoff(now, retain_for))),
    )
    &&& count == before.jobs.len() - after.jobs.len()
}

/// The most recently created jobs of a queue, at most `limit` of them.
pub open spec fn most_recent(jobs: Seq<JobView>, limit: int) -> Seq<JobView> {
    newest_first(jobs).take(least(limit, jobs.len() as int))
}

/// The job with an id.
pub open spec fn job_with(jobs: Seq<JobView>, id: u128) -> Option<JobView> {
    match place_of(jobs, id) {
        Some(place) => Some(jobs[place]),
        None => None,
    }
}

impl Queue {
    /// An empty queue.
    pub fn new() -> (queue: Self)
        ensures
            queue@ == (QueueView { jobs: Seq::empty(), workers: Seq::empty(), crons: Seq::empty() }),
            queue@.sound(),
    {
        let queue = Queue { jobs: Vec::new(), workers: Vec::new(), crons: Vec::new() };
        assert(queue@.jobs =~= Seq::empty());
        assert(queue@.workers =~= Seq::empty());
        assert(queue@.crons =~= Seq::empty());
        queue
    }

    /// Enqueues a job at `now`, given the time that the client's clock shows and the id that the
    /// job gets if it is a new one. Where an unfinished job holds its job key, that job is kept or
    /// overwritten, as the mode says.
    pub fn enqueue_at(
        &mut self,
        name: &str,
        payload: serde_json::Value,
        options: EnqueueOptions,
        clock: Timestamp,
        id: u128,
        now: Timestamp,
    ) -> (result: Result<u128, StoreError>)
        requires
            old(self)@.sound(),
        ensures
            final(self)@.sound(),
            enqueue_outcome(
                old(self)@,
                final(self)@,
                EnqueueRequestView { name: name@, payload, options: options@ },
                run_time(options@.run_at, clock@),
                id,
                now@,
                result,
            ),
    {
        let run_at: Timestamp = resolve_run_at(options.run_at, clock);
        match insert_job(&mut self.jobs, name, payload, options, run_at, id, now) {
            Ok((id, _new)) => Ok(id),
            Err(error) => Err(error),
        }
    }

    /// Enqueues a job under a random id, to run at once where no time is asked for.
    pub fn enqueue_with_options(
        &mut self,
        name: &str,
        payload: serde_json::Value,
        options: EnqueueOptions,
        now: Timestamp,
    ) -> (result: Result<u128, StoreError>)
        requires
            old(self)@.sound(),
        ensures
            final(self)@.sound(),
            exists|id: u128, clock: int|
                random_id(id) && in_range(clock) && #[trigger] enqueue_outcome(
                    old(self)@,
                    final(self)@,
                    EnqueueRequestView { name: name@, payload, options: options@ },
                    run_time(options@.run_at, clock),
                    id,
                    now@,
                    result,
                ),
    {
        let id: u128 = new_id();
        let clock: Timestamp = clock();
        let ghost request = EnqueueRequestView { name: name@, payload, options: options@ };
        let ghost before = self@;
        let result = self.enqueue_at(name, payload, options, clock, id, now);
        assert(enqueue_outcome(
            before,
            self@,
            request,
            run_time(request.options.run_at, clock@),
            id,
            now@,
            result,
        ));
        result
    }

    /// Enqueues a job with default options.
    pub fn enqueue(&mut self, name: &str, payload: serde_json::Value, now: Timestamp) -> (result:
        Result<u128, StoreError>)
        requires
            old(self)@.sound(),
        ensures
            final(self)@.sound(),
            exists|id: u128, clock: int|
                random_id(id) && in_range(clock) && #[trigger] enqueue_outcome(
                    old(self)@,
                    final(self)@,
                    EnqueueRequestView { name: name@, payload, options: default_options() },
                    clock,
                    id,
                    now@,
                    result,
                ),
    {
        let options: EnqueueOptions = EnqueueOptions::default();
        let ghost request = EnqueueRequestView { name: name@, payload, options: options@ };
        let ghost before = self@;
        let result = self.enqueue_with_options(name, payload, options, now);
        proof {
            let (id, clock) = choose|id: u128, clock: int|
                random_id(id) && in_range(clock) && #[trigger] enqueue_outcome(
                    before,
                    self@,
                    request,
                    run_time(request.options.run_at, clock),
                    id,
                    now@,
                    result,
                );
            assert(enqueue_outcome(before, self@, request, clock, id, now@, result));
        }
        result
    }

    /// Enqueues a job whose payload was written as JSON, with default options. Fails where that had
    /// failed.
    pub fn enqueue_typed(
        &mut self,
        name: &str,
        payload: Result<serde_json::Value, serde_json::Error>,
        now: Timestamp,
    ) -> (result: Result<u128, EnqueueError>)
        requires
            old(self)@.sound(),
        ensures
            final(self)@.sound(),
            match payload {
                Err(error) => {
                    &&& result == Err::<u128, EnqueueError>(EnqueueError::Serialize(error))
                    &&& final(self)@ == old(self)@
                },
                Ok(payload) => exists|id: u128, clock: int, stored: Result<u128, StoreError>|
                    {
                        &&& random_id(id)
                        &&& in_range(clock)
                        &&& #[trigger] enqueue_outcome(
                            old(self)@,
                            final(self)@,
                            EnqueueRequestView { name: name@, payload, options: default_options() },
                            run_time(None, clock),
                            id,
                            now@,
                            stored,
                        )
                        &&& result == typed_result(stored)
                    },
            },
    {
        self.enqueue_typed_with_options(name, payload, EnqueueOptions::default(), now)
    }

    /// Enqueues a job whose payload was written as JSON. Fails where that had failed.
    pub fn enqueue_typed_with_options(
        &mut self,
        name: &str,
        payload: Result<serde_json::Value, serde_json::Error>,
        options: EnqueueOptions,
        now: Timestamp,
    ) -> (result: Result<u128, EnqueueError>)
        requires
            old(self)@.sound(),
        ensures
            final(self)@.sound(),
            match payload {
                Err(error) => {
                    &&& result == Err::<u128, EnqueueError>(EnqueueError::Serialize(error))
                    &&& final(self)@ == old(self)@
                },
                Ok(payload) => exists|id: u128, clock: int, stored: Result<u128, StoreError>|
                    {
                        &&& random_id(id)
                        &&& in_range(clock)
                        &&& #[trigger] enqueue_outcome(
                            old(self)@,
                            final(self)@,
                            EnqueueRequestView { name: name@, payload, options: options@ },
                            run_time(options@.run_at, clock),
                            id,
                            now@,
                            stored,
                        )
                        &&& result == typed_result(stored)
                    },
            },
    {
        match payload {
            Err(error) => Err(EnqueueError::Serialize(error)),
            Ok(payload) => match self.enqueue_with_options(name, payload, options, now) {
                Ok(id) => Ok(id),
                Err(error) => Err(EnqueueError::Database(error)),
            },
        }
    }

    /// Enqueues many jobs at `now`, given for each the time from which it may run and the id that
    /// it gets if it is a new one. All of them are enqueued or none is. Returns their ids in the
    /// order of the requests; an id may belong to a job that already existed.
    pub fn enqueue_many_at(
        &mut self,
        requests: &[EnqueueRequest],
        run_ats: &Vec<Timestamp>,
        ids: &Vec<u128>,
        now: Timestamp,
    ) -> (result: Result<Vec<u128>, EnqueueError>)
        requires
            old(self)@.sound(),
            run_ats@.len() == requests@.len(),
            ids@.len() == requests@.len(),
        ensures
            final(self)@.sound(),
            batch_outcome(
                old(self)@,
                final(self)@,
                batch_of(requests@, run_ats@, ids@, now),
                result,
            ),
    {
        insert_job_batch(&mut self.jobs, requests, run_ats, ids, now)
    }

    /// Enqueues many jobs under random ids, each to run at once where no time is asked for.
    pub fn enqueue_many(&mut self, requests: &[EnqueueRequest], now: Timestamp) -> (result: Result<
        Vec<u128>,
        EnqueueError,
    >)
        requires
            old(self)@.sound(),
        ensures
            final(self)@.sound(),
            exists|batch: Batch|
                {
                    &&& batch.requests == requested(requests@)
                    &&& batch.now == now@
                    &&& batch.ids.len() == requests@.len()
                    &&& forall|i: int| 0 <= i < batch.ids.len() ==> random_id(#[trigger] batch.ids[i])
                    &&& keeps_run_ats(batch.requests, batch.run_ats)
                    &&& #[trigger] batch_outcome(old(self)@, final(self)@, batch, result)
                },
    {
        let mut ids: Vec<u128> = Vec::new();
        let mut run_ats: Vec<Timestamp> = Vec::new();
        let mut i: usize = 0;
        while i < requests.len()
            invariant
                i <= requests@.len(),
                ids@.len() == i,
                run_ats@.len() == i,
                forall|j: int| 0 <= j < i ==> random_id(#[trigger] ids@[j]),
                forall|j: int|
                    0 <= j < i ==> match (#[trigger] requests@[j])@.options.run_at {
                        Some(run_at) => run_ats@[j]@ == run_at,
                        None => in_range(run_ats@[j]@),
                    },
            decreases requests@.len() - i,
        {
            ids.push(new_id());
            run_ats.push(resolve_run_at(requests[i].options.run_at, clock()));
            i = i + 1;
        }
        let ghost batch = batch_of(requests@, run_ats@, ids@, now);
        assert forall|j: int| 0 <= j < batch.requests.len() implies match (
        #[trigger] batch.requests[j]).options.run_at {
            Some(run_at) => batch.run_ats[j] == run_at,
            None => in_range(batch.run_ats[j]),
        } by {
            assert(batch.requests[j] == requests@[j]@);
        }
        self.enqueue_many_at(requests, &run_ats, &ids, now)
    }

    /// The job with an id.
    pub fn get(&self, id: u128) -> (job: Option<Job>)
        requires
            self@.sound(),
        ensures
            match place_of(self@.jobs, id) {
                Some(place) => job matches Some(job) && job@ == self@.jobs[place],
                None => job is None,
            },
            job_with(self@.jobs, id) == match job {
                Some(job) => Some(job@),
                None => None,
            },
    {
        match find_job(&self.jobs, id) {
            Some(place) => Some(self.jobs[place].clone()),
            None => None,
        }
    }

    /// Cancels a job that is still queued. Tells whether there was such a job.
    pub fn cancel(&mut self, id: u128, now: Timestamp) -> (done: bool)
        requires
            old(self)@.sound(),
        ensures
            final(self)@.sound(),
            change_outcome(old(self)@, final(self)@, ChangeView::Cancel { id }, now@, done),
    {
        self.change(id, &Change::Cancel { id }, now)
    }

    /// Resets a failed or cancelled job to run again at once, with no attempts made. Tells whether
    /// there was such a job. Fails where another unfinished job holds its job key.
    pub fn retry(&mut self, id: u128, now: Timestamp) -> (result: Result<bool, StoreError>)
        requires
            old(self)@.sound(),
        ensures
            final(self)@.sound(),
            revival_outcome(old(self)@, final(self)@, ChangeView::Retry { id }, now@, result),
    {
        change_one(&mut self.jobs, id, &Change::Retry { id }, now)
    }

    /// Marks a queued or running job failed for good and releases its lock. Tells whether there was
    /// such a job.
    pub fn permanently_fail(&mut self, id: u128, reason: &str, now: Timestamp) -> (done: bool)
        requires
            old(self)@.sound(),
        ensures
            final(self)@.sound(),
            change_outcome(
                old(self)@,
                final(self)@,
                ChangeView::PermanentlyFail { id, reason: reason@ },
                now@,
                done,
            ),
    {
        self.change(id, &Change::PermanentlyFail { id, reason }, now)
    }

    /// Marks a queued or running job succeeded and releases its lock. Tells whether there was such a
    /// job.
    pub fn complete(&mut self, id: u128, now: Timestamp) -> (done: bool)
        requires
            old(self)@.sound(),
        ensures
            final(self)@.sound(),
            change_outcome(old(self)@, final(self)@, ChangeView::Complete { id }, now@, done),
    {
        self.change(id, &Change::Complete { id }, now)
    }

    /// Moves a queued job to a new time. Tells whether there was such a job; running and finished
    /// jobs are never moved.
    pub fn reschedule(&mut self, id: u128, run_at: Timestamp, now: Timestamp) -> (done: bool)
        requires
            old(self)@.sound(),
        ensures
            final(self)@.sound(),
            change_outcome(
                old(self)@,
                final(self)@,
                ChangeView::Reschedule { id, run_at: run_at@ },
                now@,
                done,
            ),
    {
        self.change(id, &Change::Reschedule { id, run_at }, now)
    }

    /// Records that the handler of a job succeeded, if `lock_owner` still has it locked. Tells
    /// whether it has.
    pub fn complete_locked(&mut self, id: u128, lock_owner: &str, now: Timestamp) -> (done: bool)
        requires
            old(self)@.sound(),
        ensures
            final(self)@.sound(),
            change_outcome(
                old(self)@,
                final(self)@,
                ChangeView::CompleteLocked { id, owner: lock_owner@ },
                now@,
                done,
            ),
    {
        self.change(id, &Change::CompleteLocked { id, owner: lock_owner }, now)
    }

    /// Renews the lock on a running job, if `lock_owner` still has it. Tells whether it has.
    pub fn renew_lock(&mut self, id: u128, lock_owner: &str, now: Timestamp) -> (done: bool)
        requires
            old(self)@.sound(),
        ensures
            final(self)@.sound(),
            change_outcome(
                old(self)@,
                final(self)@,
                ChangeView::RenewLock { id, owner: lock_owner@ },
                now@,
                done,
            ),
    {
        self.change(id, &Change::RenewLock { id, owner: lock_owner }, now)
    }

    /// Records that a job failed at its attempt number `attempt`, if `lock_owner` still has it
    /// locked: for good at the last attempt, else to run again after a while. Tells whether it has.
    pub fn fail_locked(
        &mut self,
        id: u128,
        lock_owner: &str,
        attempt: i32,
        max_attempts: i32,
        error: &str,
        now: Timestamp,
    ) -> (result: Result<bool, StoreError>)
        requires
            old(self)@.sound(),
        ensures
            final(self)@.sound(),
            revival_outcome(
                old(self)@,
                final(self)@,
                if attempt >= max_attempts {
                    ChangeView::FailLocked { id, owner: lock_owner@, error: error@ }
                } else {
                    ChangeView::BackOffLocked { id, owner: lock_owner@, error: error@ }
                },
                now@,
                result,
            ),
            revival_outcome(
                old(self)@,
                final(self)@,
                failure_change(id, lock_owner@, attempt as int, max_attempts as int, error@),
                now@,
                result,
            ),
    {
        let change = if attempt >= max_attempts {
            Change::FailLocked { id, owner: lock_owner, error }
        } else {
            Change::BackOffLocked { id, owner: lock_owner, error }
        };
        change_one(&mut self.jobs, id, &change, now)
    }

    fn change(&mut self, id: u128, change: &Change<'_>, now: Timestamp) -> (done: bool)
        requires
            old(self)@.sound(),
            change_id(change@) == Some(id),
            !revives(change@),
        ensures
            final(self)@.sound(),
            change_outcome(old(self)@, final(self)@, change@, now@, done),
    {
        match change_one(&mut self.jobs, id, change, now) {
            Ok(done) => done,
            Err(_) => false,
        }
    }

    /// Claims the next job with one of the given names for `lock_owner`: of those that are due and
    /// whose named queue is free, the first by priority, by the time from which it may run, and by
    /// age. Fails where that job's attempts can no longer be counted.
    pub fn claim_next(&mut self, lock_owner: &str, names: &Vec<String>, now: Timestamp) -> (result:
        Result<Option<Job>, StoreError>)
        requires
            old(self)@.sound(),
        ensures
            final(self)@.sound(),
            match next_claim(old(self)@.jobs, texts(names@), now@) {
                None => {
                    &&& result matches Ok(None)
                    &&& final(self)@ == old(self)@
                    &&& forall|i: int|
                        !(#[trigger] eligible(old(self)@.jobs, texts(names@), now@, i))
                },
                Some(place) => {
                    let next = claimed(old(self)@.jobs[place], lock_owner@, now@);
                    &&& is_next(old(self)@.jobs, texts(names@), now@, place)
                    &&& if old(self)@.jobs[place].attempt == i32::MAX {
                        &&& result matches Err(StoreError::AttemptOverflow)
                        &&& final(self)@ == old(self)@
                    } else {
                        &&& result matches Ok(Some(job))
                        &&& job@ == next
                        &&& final(self)@ == old(self)@.with_jobs(
                            old(self)@.jobs.update(place, next),
                        )
                    }
                },
            },
            claim_outcome(old(self)@, final(self)@, lock_owner@, texts(names@), now@, result),
    {
        claim_job(&mut self.jobs, lock_owner, names, now)
    }

    /// Registers a worker at `now`, or records that it reported again.
    pub fn register_worker(
        &mut self,
        worker_id: &str,
        task_names: &Vec<String>,
        metadata: serde_json::Value,
        now: Timestamp,
    )
        requires
            old(self)@.sound(),
        ensures
            final(self)@.sound(),
            final(self)@ == (QueueView {
                workers: registered(
                    old(self)@.workers,
                    worker_id@,
                    texts(task_names@),
                    metadata,
                    now@,
                ),
                ..old(self)@
            }),
    {
        register(&mut self.workers, worker_id, task_names, metadata, now);
    }

    /// Forgets a worker.
    pub fn deregister_worker(&mut self, worker_id: &str)
        requires
            old(self)@.sound(),
        ensures
            final(self)@.sound(),
            final(self)@ == (QueueView {
                workers: without_worker(old(self)@.workers, worker_id@),
                ..old(self)@
            }),
    {
        proof {
            lemma_filter_unique(self@.workers, |worker: WorkerRowView| worker.id != worker_id@);
        }
        drop_worker(&mut self.workers, worker_id);
    }

    /// Requeues every running job that the worker's claim loops have locked, and counts them.
    pub fn release_worker_jobs(&mut self, worker_id: &str, now: Timestamp) -> (count: u64)
        requires
            old(self)@.sound(),
        ensures
            final(self)@.sound(),
            ({
                let change = ChangeView::Release {
                    workers: seq![worker_id@],
                    note: "released by shutting down worker"@,
                };
                &&& count == selected(old(self)@.jobs, change)
                &&& final(self)@ == changed(old(self)@, change, now@)
                &&& release_outcome(old(self)@, final(self)@, change, now@, count as int)
            }),
    {
        self.release(worker_id, "released by shutting down worker", now)
    }

    fn release(&mut self, worker_id: &str, note: &str, now: Timestamp) -> (count: u64)
        requires
            old(self)@.sound(),
        ensures
            final(self)@.sound(),
            ({
                let change = ChangeView::Release { workers: seq![worker_id@], note: note@ };
                &&& count == selected(old(self)@.jobs, change)
                &&& final(self)@ == changed(old(self)@, change, now@)
            }),
    {
        let mut workers: Vec<String> = Vec::new();
        workers.push(worker_id.to_owned());
        assert(texts(workers@) =~= seq![worker_id@]);
        apply_change(&mut self.jobs, &Change::Release { workers: &workers, note }, now)
    }

    /// Requeues every running job that the worker's claim loops have locked, and forgets the
    /// worker. Returns the number of jobs.
    pub fn force_unlock_worker(&mut self, worker_id: &str, now: Timestamp) -> (count: u64)
        requires
            old(self)@.sound(),
        ensures
            final(self)@.sound(),
            ({
                let change = ChangeView::Release {
                    workers: seq![worker_id@],
                    note: "released by operator"@,
                };
                &&& count == selected(old(self)@.jobs, change)
                &&& final(self)@ == (QueueView {
                    workers: without_worker(old(self)@.workers, worker_id@),
                    ..changed(old(self)@, change, now@)
                })
            }),
            unlock_outcome(old(self)@, final(self)@, worker_id@, now@, count as int),
    {
        let count: u64 = self.release(worker_id, "released by operator", now);
        self.deregister_worker(worker_id);
        count
    }

    /// Requeues every running job whose lock was not renewed for a span of time, and counts them.
    pub fn recover_stale(&mut self, stale_after: Duration, now: Timestamp) -> (count: u64)
        requires
            old(self)@.sound(),
        ensures
            final(self)@.sound(),
            ({
                let change = ChangeView::ReleaseStale {
                    before: cutoff(now@, stale_after@),
                    note: "recovered stale running job"@,
                };
                &&& count == selected(old(self)@.jobs, change)
                &&& final(self)@ == changed(old(self)@, change, now@)
            }),
            stale_outcome(old(self)@, final(self)@, stale_after@, now@, count as int),
    {
        let before: i128 = cutoff_nanos(now, stale_after);
        apply_change(
            &mut self.jobs,
            &Change::ReleaseStale { before, note: "recovered stale running job" },
            now,
        )
    }

    /// Forgets every worker that did not report for a span of time, and requeues the running jobs
    /// that their claim loops have locked. Returns the number of jobs.
    pub fn recover_dead_workers(&mut self, stale_after: Duration, now: Timestamp) -> (count: u64)
        requires
            old(self)@.sound(),
        ensures
            final(self)@.sound(),
            ({
                let before = cutoff(now@, stale_after@);
                let change = ChangeView::Release {
                    workers: worker_ids(silent_since(old(self)@.workers, before)),
                    note: "recovered dead worker job"@,
                };
                &&& count == selected(old(self)@.jobs, change)
                &&& final(self)@ == (QueueView {
                    workers: heard_since(old(self)@.workers, before),
                    ..changed(old(self)@, change, now@)
                })
            }),
            dead_worker_outcome(old(self)@, final(self)@, stale_after@, now@, count as int),
    {
        let before: i128 = cutoff_nanos(now, stale_after);
        proof {
            lemma_filter_unique(
                self@.workers,
                |worker: WorkerRowView| worker.last_heartbeat_at >= before as int,
            );
        }
        let gone: Vec<String> = drop_silent(&mut self.workers, before);
        apply_change(
            &mut self.jobs,
            &Change::Release { workers: &gone, note: "recovered dead worker job" },
            now,
        )
    }

    /// Deletes the jobs that finished longer than `retain_for` ago, and counts them.
    pub fn prune_finished(&mut self, retain_for: Duration, now: Timestamp) -> (count: u64)
        requires
            old(self)@.sound(),
        ensures
            final(self)@.sound(),
            final(self)@ == old(self)@.with_jobs(
                old(self)@.jobs.filter(
                    |job: JobView| !finished_before(job, cutoff(now@, retain_for@)),
                ),
            ),
            count == old(self)@.jobs.len() - final(self)@.jobs.len(),
            prune_outcome(old(self)@, final(self)@, retain_for@, now@, count as int),
    {
        let before: i128 = cutoff_nanos(now, retain_for);
        let total: usize = self.jobs.len();
        proof {
            lemma_filter_sound(
                self@.jobs,
                |job: JobView| !finished_before(job, cutoff(now@, retain_for@)),
            );
        }
        drop_finished(&mut self.jobs, before);
        (total - self.jobs.len()) as u64
    }

    /// Lists the registered workers, the one that started first in front.
    pub fn workers(&self) -> (workers: Vec<WorkerInfo>)
        ensures
            infos(workers@) == by_start(self@.workers).map_values(
                |worker: WorkerRowView| listed(worker),
            ),
    {
        list_workers(&self.workers)
    }

    /// Counts all stored jobs by status.
    pub fn counts(&self) -> (counts: JobCounts)
        requires
            self@.jobs.len() <= i64::MAX,
        ensures
            counts.queued == count_status(self@.jobs, JobStatus::Queued),
            counts.running == count_status(self@.jobs, JobStatus::Running),
            counts.succeeded == count_status(self@.jobs, JobStatus::Succeeded),
            counts.failed == count_status(self@.jobs, JobStatus::Failed),
            counts.cancelled == count_status(self@.jobs, JobStatus::Cancelled),
    {
        count_jobs(&self.jobs)
    }

    /// Lists the most recently created jobs, at most `limit` of them. Fails where the limit is
    /// negative.
    pub fn recent(&self, limit: i64) -> (result: Result<Vec<Job>, StoreError>)
        ensures
            if limit < 0 {
                result matches Err(StoreError::NegativeLimit)
            } else {
                result matches Ok(jobs) && rows(jobs@) == newest_first(self@.jobs).take(
                    least(limit as int, self@.jobs.len() as int),
                )
            },
            result matches Ok(jobs) ==> rows(jobs@) == most_recent(self@.jobs, limit as int),
    {
        recent_jobs(&self.jobs, limit)
    }

    /// Records the occurrence of a schedule at `due_at`, and enqueues its job, given the id that the
    /// job gets if it is a new one. An occurrence no later than a recorded one is skipped. So is,
    /// after it was recorded, the one at which the schedule is first seen, unless it catches up.
    pub fn try_enqueue_cron_at(
        &mut self,
        cron: &CronJob,
        due_at: Timestamp,
        next_run_at: Timestamp,
        id: u128,
        now: Timestamp,
    ) -> (result: Result<CronEnqueueResult, StoreError>)
        requires
            old(self)@.sound(),
        ensures
            final(self)@.sound(),
            cron_outcome(
                old(self)@,
                final(self)@,
                *cron,
                due_at@,
                next_run_at@,
                id,
                now@,
                result,
            ),
    {
        let ghost before = self@;
        let place = find_cron(&self.crons, cron.identifier.as_str());
        let (fresh, known): (bool, bool) = match place {
            Some(place) => {
                assert(before.crons[place as int] == self.crons@[place as int]@);
                (
                    match self.crons[place].last_run_at {
                        Some(last) => last.is_before(due_at),
                        None => true,
                    },
                    self.crons[place].created_at.is_before(now),
                )
            },
            None => (true, false),
        };
        if !fresh {
            return Ok(CronEnqueueResult::Skipped);
        }
        let result = if cron.catch_up_on_start || known {
            match insert_job(
                &mut self.jobs,
                cron.name.as_str(),
                cron.payload.clone(),
                cron.options.clone(),
                due_at,
                id,
                now,
            ) {
                Ok((id, new)) => if new {
                    CronEnqueueResult::Enqueued(id)
                } else {
                    CronEnqueueResult::AlreadyQueued(id)
                },
                Err(error) => return Err(error),
            }
        } else {
            CronEnqueueResult::Skipped
        };
        match place {
            Some(place) => {
                self.crons[place].name = cron.name.clone();
                self.crons[place].payload = cron.payload.clone();
                self.crons[place].last_run_at = Some(due_at);
                self.crons[place].next_run_at = Some(next_run_at);
                assert(self@.crons[place as int].identifier == cron.identifier@);
            },
            None => {
                self.crons.push(
                    CronRow {
                        identifier: cron.identifier.clone(),
                        name: cron.name.clone(),
                        payload: cron.payload.clone(),
                        last_run_at: Some(due_at),
                        next_run_at: Some(next_run_at),
                        created_at: now,
                    },
                );
            },
        }
        proof {
            assert(self@.crons =~= recorded(before.crons, *cron, due_at@, next_run_at@, now@));
            lemma_recorded_unique(before.crons, *cron, due_at@, next_run_at@, now@);
        }
        Ok(result)
    }

    /// Records the occurrence of a schedule at `due_at`, and enqueues its job under a random id.
    pub fn try_enqueue_cron(
        &mut self,
        cron: &CronJob,
        due_at: Timestamp,
        next_run_at: Timestamp,
        now: Timestamp,
    ) -> (result: Result<CronEnqueueResult, StoreError>)
        requires
            old(self)@.sound(),
        ensures
            final(self)@.sound(),
            exists|id: u128|
                random_id(id) && #[trigger] cron_outcome(
                    old(self)@,
                    final(self)@,
                    *cron,
                    due_at@,
                    next_run_at@,
                    id,
                    now@,
                    result,
                ),
    {
        let id: u128 = new_id();
        self.try_enqueue_cron_at(cron, due_at, next_run_at, id, now)
    }

    /// The queue that holds stored rows, where they can stand together.
    pub fn from_rows(jobs: Vec<Job>, workers: Vec<WorkerRow>, crons: Vec<CronRow>) -> (queue: Option<
        Self,
    >)
        ensures
            ({
                let view = QueueView {
                    jobs: rows(jobs@),
                    workers: worker_rows(workers@),
                    crons: cron_rows(crons@),
                };
                match queue {
                    Some(queue) => view.sound() && queue@ == view,
                    None => !view.sound(),
                }
            }),
    {
        if are_jobs_sound(&jobs) && are_workers_unique(&workers) && are_crons_unique(&crons) {
            Some(Queue { jobs, workers, crons })
        } else {
            None
        }
    }

    /// The rows that the queue holds.
    pub fn into_rows(self) -> (stored: (Vec<Job>, Vec<WorkerRow>, Vec<CronRow>))
        ensures
            rows(stored.0@) == self@.jobs,
            worker_rows(stored.1@) == self@.workers,
            cron_rows(stored.2@) == self@.crons,
    {
        (self.jobs, self.workers, self.crons)
    }
}

/// The result of enqueueing a job whose payload was written as JSON.
pub open spec fn typed_result(stored: Result<u128, StoreError>) -> Result<u128, EnqueueError> {
    match stored {
        Ok(id) => Ok(id),
        Err(error) => Err(EnqueueError::Database(error)),
    }
}

} // verus!
