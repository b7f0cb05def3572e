//! What a call of each operation of a queue does. `queue` is the queue before the call and after it.

use vstd::prelude::*;

use crate::batch::batch_of;
use crate::batch_laws::{
    law_batch_is_accepted, law_batch_is_carried_out, law_batch_makes_new_jobs,
    law_repeated_key_is_refused, made_by, meets, meets_none, nothing_against,
};
use crate::change_laws::{
    becomes, done_to, law_back_off_locked, law_cancel, law_complete, law_complete_locked,
    law_fail_locked, law_permanently_fail, law_renew_lock, law_reschedule, law_retry, live, put_back,
    run_by_any,
};
use crate::change::backoff_micros;
use crate::cron::CronJob;
use crate::cron_laws::{
    asks_for, had, is_record, key_in_use, known, law_first_occurrence_waits,
    law_new_occurrence_is_recorded, law_occurrence_makes_the_schedules_job,
    law_occurrence_meets_its_key, law_old_occurrence_is_skipped, records,
};
use crate::error::{EnqueueError, StoreError};
use crate::job::{
    default_options, EnqueueOptions, EnqueueRequest, EnqueueRequestView, Job, JobKeyMode, JobStatus,
    JobView,
};
use crate::job_laws::{
    is_new_job, keeps_key, law_held_key_answers_the_request, law_new_job_is_what_was_asked_for,
    law_refused_request_changes_nothing, takes_on, waits_for,
};
use crate::listing::newest_first;
use crate::queue::{enqueue_outcome, run_time, typed_result, Queue, QueueView};
use crate::queue_laws::{
    law_claim, law_job_with_an_id, law_most_recent, law_pruning, law_recovery_from_dead_workers,
    law_recovery_from_stale_locks, law_release_counts, law_unlocking_by_force, numbered,
    run_by_silent, took,
};
use crate::rows::{
    infos, CronEnqueueResult, CronRow, JobCounts, WorkerInfo, WorkerRow, WorkerRowView,
};
use crate::source::random_id;
use crate::store_laws::{
    law_first_started_come_first, law_leaving_the_roster, law_lists_show_their_rows,
    law_newest_come_first, law_registering,
};
use crate::text::texts;
use crate::time::{in_range, Duration, Timestamp, MAX_NANOS, MIN_NANOS};

verus! {

/// Enqueueing a job whose job key no unfinished job has, or which has none, makes that job under the
/// given id. It may run from the time that is asked for, or that the clock shows.
pub proof fn law_enqueue_makes_a_job(
    queue: &mut Queue,
    name: &str,
    payload: serde_json::Value,
    options: EnqueueOptions,
    clock: Timestamp,
    id: u128,
    now: Timestamp,
    result: Result<u128, StoreError>,
)
    requires
        old(queue)@.sound(),
        call_ensures(Queue::enqueue_at, (queue, name, payload, options, clock, id, now), result),
        options@.job_key matches Some(key) ==> forall|i: int|
            0 <= i < old(queue)@.jobs.len() ==> !keeps_key(#[trigger] old(queue)@.jobs[i], key),
    ensures
        options.max_attempts < 1 ==> result is Err,
        (exists|i: int| 0 <= i < old(queue)@.jobs.len() && (#[trigger] old(queue)@.jobs[i]).id == id)
            ==> result is Err,
        result is Err ==> final(queue)@ == old(queue)@,
        options.max_attempts >= 1 && (forall|i: int|
            0 <= i < old(queue)@.jobs.len() ==> (#[trigger] old(queue)@.jobs[i]).id != id) ==> {
            let request = EnqueueRequestView { name: name@, payload, options: options@ };
            let run_at = match options.run_at {
                Some(run_at) => run_at@,
                None => clock@,
            };
            &&& result == Ok::<u128, StoreError>(id)
            &&& final(queue)@.jobs.len() == old(queue)@.jobs.len() + 1
            &&& forall|i: int|
                0 <= i < old(queue)@.jobs.len() ==> #[trigger] final(queue)@.jobs[i] == old(queue)@.jobs[i]
            &&& is_new_job(
                final(queue)@.jobs[old(queue)@.jobs.len() as int],
                request,
                run_at,
                id,
                now@,
            )
        },
        final(queue)@.workers == old(queue)@.workers,
        final(queue)@.crons == old(queue)@.crons,
{
    let request = EnqueueRequestView { name: name@, payload, options: options@ };
    let run_at = match options.run_at {
        Some(run_at) => run_at@,
        None => clock@,
    };
    law_refused_request_changes_nothing(
        old(queue)@,
        final(queue)@,
        request,
        run_at,
        id,
        now@,
        result,
    );
    if options.max_attempts >= 1 {
        law_new_job_is_what_was_asked_for(
            old(queue)@,
            final(queue)@,
            request,
            run_at,
            id,
            now@,
            result,
        );
    }
}

/// Enqueueing a job under a job key that an unfinished job has makes no new job. That job is told of;
/// it stays as it is while it runs and under `Dedupe`, and takes on what is asked for else.
pub proof fn law_enqueue_meets_a_key(
    queue: &mut Queue,
    name: &str,
    payload: serde_json::Value,
    options: EnqueueOptions,
    clock: Timestamp,
    id: u128,
    now: Timestamp,
    result: Result<u128, StoreError>,
    place: int,
)
    requires
        old(queue)@.sound(),
        call_ensures(Queue::enqueue_at, (queue, name, payload, options, clock, id, now), result),
        options.max_attempts >= 1,
        options@.job_key is Some,
        0 <= place < old(queue)@.jobs.len(),
        keeps_key(old(queue)@.jobs[place], options@.job_key->0),
    ensures
        ({
            let request = EnqueueRequestView { name: name@, payload, options: options@ };
            let run_at = match options.run_at {
                Some(run_at) => run_at@,
                None => clock@,
            };
            &&& result == Ok::<u128, StoreError>(old(queue)@.jobs[place].id)
            &&& final(queue)@.jobs.len() == old(queue)@.jobs.len()
            &&& takes_on(
                final(queue)@.jobs[place],
                old(queue)@.jobs[place],
                request,
                run_at,
            )
            &&& forall|i: int|
                0 <= i < old(queue)@.jobs.len() && i != place ==> #[trigger] final(queue)@.jobs[i]
                    == old(queue)@.jobs[i]
        }),
{
    let request = EnqueueRequestView { name: name@, payload, options: options@ };
    let run_at = match options.run_at {
        Some(run_at) => run_at@,
        None => clock@,
    };
    law_held_key_answers_the_request(
        old(queue)@,
        final(queue)@,
        request,
        run_at,
        id,
        now@,
        result,
        place,
    );
}

/// A batch that is enqueued is stored whole: a request under the job key of an unfinished job is taken
/// on by that job, every other one makes a new job, each is answered in its place with the id of its
/// job, and all other jobs stay.
pub proof fn law_enqueue_many(
    queue: &mut Queue,
    requests: &[EnqueueRequest],
    run_ats: &Vec<Timestamp>,
    ids: &Vec<u128>,
    now: Timestamp,
    result: Result<Vec<u128>, EnqueueError>,
    place: int,
    i: int,
)
    requires
        old(queue)@.sound(),
        run_ats@.len() == requests@.len(),
        ids@.len() == requests@.len(),
        call_ensures(Queue::enqueue_many_at, (queue, requests, run_ats, ids, now), result),
        0 <= place < requests@.len(),
        0 <= i < old(queue)@.jobs.len(),
    ensures
        ({
            let batch = batch_of(requests@, run_ats@, ids@, now);
            &&& result is Err ==> final(queue)@ == old(queue)@
            &&& nothing_against(old(queue)@.jobs, batch) ==> result is Ok
            &&& result matches Ok(answers) ==> {
                &&& answers@.len() == requests@.len()
                &&& meets(batch, place, old(queue)@.jobs[i]) ==> {
                    &&& answers@[place] == old(queue)@.jobs[i].id
                    &&& takes_on(
                        final(queue)@.jobs[i],
                        old(queue)@.jobs[i],
                        requests@[place]@,
                        run_ats@[place]@,
                    )
                }
                &&& meets_none(batch, place, old(queue)@.jobs) ==> {
                    &&& answers@[place] == ids@[place]
                    &&& exists|k: int|
                        old(queue)@.jobs.len() <= k < final(queue)@.jobs.len() && is_new_job(
                            #[trigger] final(queue)@.jobs[k],
                            requests@[place]@,
                            run_ats@[place]@,
                            ids@[place],
                            now@,
                        )
                }
                &&& (forall|p: int|
                    0 <= p < requests@.len() ==> !#[trigger] meets(batch, p, old(queue)@.jobs[i]))
                    ==> final(queue)@.jobs[i] == old(queue)@.jobs[i]
            }
        }),
{
    let batch = batch_of(requests@, run_ats@, ids@, now);
    let before = old(queue)@;
    let after = final(queue)@;
    if nothing_against(before.jobs, batch) {
        law_batch_is_accepted(before, after, batch, result);
    }
    if result is Ok {
        law_batch_is_carried_out(before, after, batch, result, place, i);
        law_batch_makes_new_jobs(before, after, batch, result, place, 0);
        if meets_none(batch, place, before.jobs) {
            let k = choose|k: int|
                before.jobs.len() <= k < after.jobs.len() && made_by(
                    batch,
                    place,
                    #[trigger] after.jobs[k],
                );
            assert(is_new_job(
                after.jobs[k],
                requests@[place]@,
                run_ats@[place]@,
                ids@[place],
                now@,
            ));
        }
    }
}

/// A batch with a job key in it twice is refused, and named the key; nothing changes.
pub proof fn law_enqueue_many_with_a_key_twice(
    queue: &mut Queue,
    requests: &[EnqueueRequest],
    run_ats: &Vec<Timestamp>,
    ids: &Vec<u128>,
    now: Timestamp,
    result: Result<Vec<u128>, EnqueueError>,
    one: int,
    other: int,
)
    requires
        call_ensures(Queue::enqueue_many_at, (queue, requests, run_ats, ids, now), result),
        0 <= one < other < requests@.len(),
        requests@[one]@.options.job_key is Some,
        requests@[one]@.options.job_key == requests@[other]@.options.job_key,
    ensures
        result matches Err(EnqueueError::DuplicateJobKey(key)) && exists|i: int, j: int|
            {
                &&& 0 <= i < j < requests@.len()
                &&& (#[trigger] requests@[i])@.options.job_key == Some(key@)
                &&& (#[trigger] requests@[j])@.options.job_key == Some(key@)
            },
        final(queue)@ == old(queue)@,
{
    let batch = batch_of(requests@, run_ats@, ids@, now);
    assert(batch.requests[one] == requests@[one]@);
    assert(batch.requests[other] == requests@[other]@);
    law_repeated_key_is_refused(old(queue)@, final(queue)@, batch, result, one, other);
    if let Err(EnqueueError::DuplicateJobKey(key)) = result {
        let (i, j) = choose|i: int, j: int|
            {
                &&& 0 <= i < j < batch.requests.len()
                &&& (#[trigger] batch.requests[i]).options.job_key == Some(key@)
                &&& (#[trigger] batch.requests[j]).options.job_key == Some(key@)
            };
        assert(requests@[i]@ == batch.requests[i] && requests@[j]@ == batch.requests[j]);
    }
}

/// Whether a request that meets no job key made its job, under a random id: from the time that it asks
/// for, or from one in the range of time. It is refused, and nothing changes, only for its attempts or
/// for the id.
pub open spec fn made_at_random(
    before: QueueView,
    after: QueueView,
    request: EnqueueRequestView,
    now: int,
    result: Result<u128, StoreError>,
) -> bool {
    &&& request.options.max_attempts < 1 ==> result is Err
    &&& result is Err ==> after == before
    &&& request.options.max_attempts >= 1 && result is Err ==> result->Err_0
        == StoreError::DuplicateId
    &&& result matches Ok(id) ==> {
        let job = after.jobs[before.jobs.len() as int];
        &&& random_id(id)
        &&& after.jobs.len() == before.jobs.len() + 1
        &&& forall|i: int| 0 <= i < before.jobs.len() ==> #[trigger] after.jobs[i] == before.jobs[i]
        &&& is_new_job(job, request, job.run_at, id, now)
        &&& match request.options.run_at {
            Some(run_at) => job.run_at == run_at,
            None => MIN_NANOS <= job.run_at <= MAX_NANOS,
        }
    }
}

/// Whether no unfinished job has the job key of a request.
pub open spec fn key_is_free(before: QueueView, request: EnqueueRequestView) -> bool {
    request.options.job_key matches Some(key) ==> forall|i: int|
        0 <= i < before.jobs.len() ==> !keeps_key(#[trigger] before.jobs[i], key)
}

proof fn lemma_made_at_random(
    before: QueueView,
    after: QueueView,
    request: EnqueueRequestView,
    clock: int,
    id: u128,
    now: int,
    result: Result<u128, StoreError>,
)
    requires
        random_id(id),
        in_range(clock),
        enqueue_outcome(before, after, request, run_time(request.options.run_at, clock), id, now, result),
        key_is_free(before, request),
    ensures
        made_at_random(before, after, request, now, result),
{
    let run_at = run_time(request.options.run_at, clock);
    law_refused_request_changes_nothing(before, after, request, run_at, id, now, result);
    if request.options.max_attempts >= 1 {
        law_new_job_is_what_was_asked_for(before, after, request, run_at, id, now, result);
    }
}

/// Enqueueing with options makes a job with these options, where no unfinished job has its job key.
pub proof fn law_enqueue_with_options_call(
    queue: &mut Queue,
    name: &str,
    payload: serde_json::Value,
    options: EnqueueOptions,
    now: Timestamp,
    result: Result<u128, StoreError>,
)
    requires
        call_ensures(Queue::enqueue_with_options, (queue, name, payload, options, now), result),
        key_is_free(old(queue)@, EnqueueRequestView { name: name@, payload, options: options@ }),
    ensures
        made_at_random(
            old(queue)@,
            final(queue)@,
            EnqueueRequestView { name: name@, payload, options: options@ },
            now@,
            result,
        ),
{
    let request = EnqueueRequestView { name: name@, payload, options: options@ };
    let (id, clock) = choose|id: u128, clock: int|
        random_id(id) && in_range(clock) && #[trigger] enqueue_outcome(
            old(queue)@,
            final(queue)@,
            request,
            run_time(options@.run_at, clock),
            id,
            now@,
            result,
        );
    lemma_made_at_random(old(queue)@, final(queue)@, request, clock, id, now@, result);
}

/// Whether a request asks for a job with a name and a payload, and for nothing else.
pub open spec fn asks_for_no_more(
    request: EnqueueRequestView,
    name: Seq<char>,
    payload: serde_json::Value,
) -> bool {
    &&& request.name == name
    &&& request.payload == payload
    &&& request.options.queue_name is None
    &&& request.options.priority == 0
    &&& request.options.run_at is None
    &&& request.options.max_attempts == 25
    &&& request.options.job_key is None
    &&& request.options.job_key_mode == JobKeyMode::Dedupe
}

/// Enqueueing without options makes a job in no named queue, at priority zero, with up to 25 attempts
/// and without a job key.
pub proof fn law_enqueue_call(
    queue: &mut Queue,
    name: &str,
    payload: serde_json::Value,
    now: Timestamp,
    result: Result<u128, StoreError>,
    request: EnqueueRequestView,
)
    requires
        call_ensures(Queue::enqueue, (queue, name, payload, now), result),
        asks_for_no_more(request, name@, payload),
    ensures
        made_at_random(old(queue)@, final(queue)@, request, now@, result),
{
    let plain = EnqueueRequestView { name: name@, payload, options: default_options() };
    assert(plain =~= request);
    let (id, clock) = choose|id: u128, clock: int|
        random_id(id) && in_range(clock) && #[trigger] enqueue_outcome(
            old(queue)@,
            final(queue)@,
            plain,
            clock,
            id,
            now@,
            result,
        );
    lemma_made_at_random(old(queue)@, final(queue)@, request, clock, id, now@, result);
}

/// Enqueueing a payload that could not be written fails as that had, and changes nothing. One that was
/// written is enqueued as any other.
pub proof fn law_enqueue_typed_call(
    queue: &mut Queue,
    name: &str,
    payload: Result<serde_json::Value, serde_json::Error>,
    options: EnqueueOptions,
    now: Timestamp,
    result: Result<u128, EnqueueError>,
)
    requires
        call_ensures(
            Queue::enqueue_typed_with_options,
            (queue, name, payload, options, now),
            result,
        ),
    ensures
        payload matches Err(error) ==> result == Err::<u128, EnqueueError>(
            EnqueueError::Serialize(error),
        ) && final(queue)@ == old(queue)@,
        payload matches Ok(payload) ==> {
            let request = EnqueueRequestView { name: name@, payload, options: options@ };
            &&& result is Ok || result->Err_0 is Database
            &&& key_is_free(old(queue)@, request) ==> made_at_random(
                old(queue)@,
                final(queue)@,
                request,
                now@,
                match result {
                    Ok(id) => Ok(id),
                    Err(error) => Err(error->Database_0),
                },
            )
        },
{
    if let Ok(payload) = payload {
        let request = EnqueueRequestView { name: name@, payload, options: options@ };
        let (id, clock, stored) = choose|id: u128, clock: int, stored: Result<u128, StoreError>|
            {
                &&& random_id(id)
                &&& in_range(clock)
                &&& #[trigger] enqueue_outcome(
                    old(queue)@,
                    final(queue)@,
                    request,
                    run_time(options@.run_at, clock),
                    id,
                    now@,
                    stored,
                )
                &&& result == typed_result(stored)
            };
        if key_is_free(old(queue)@, request) {
            lemma_made_at_random(old(queue)@, final(queue)@, request, clock, id, now@, stored);
        }
    }
}

/// A queue that is made is empty, and one that is made of rows holds them, where no two jobs, workers
/// or schedules stand against each other; it gives back what it holds.
pub proof fn law_rows_call(
    new: Queue,
    jobs: Vec<Job>,
    workers: Vec<WorkerRow>,
    crons: Vec<CronRow>,
    queue: Option<Queue>,
    stored: (Vec<Job>, Vec<WorkerRow>, Vec<CronRow>),
    i: int,
)
    ensures
        call_ensures(Queue::new, (), new) ==> new@.jobs.len() == 0 && new@.workers.len() == 0
            && new@.crons.len() == 0,
        call_ensures(Queue::from_rows, (jobs, workers, crons), queue) && queue is Some ==> {
            &&& queue->0@.sound()
            &&& queue->0@.jobs.len() == jobs@.len()
            &&& queue->0@.workers.len() == workers@.len()
            &&& queue->0@.crons.len() == crons@.len()
            &&& 0 <= i < jobs@.len() ==> queue->0@.jobs[i] == jobs@[i]@
            &&& 0 <= i < workers@.len() ==> queue->0@.workers[i] == workers@[i]@
            &&& 0 <= i < crons@.len() ==> queue->0@.crons[i] == crons@[i]@
        },
        call_ensures(Queue::into_rows, (new,), stored) ==> {
            &&& stored.0@.len() == new@.jobs.len()
            &&& stored.1@.len() == new@.workers.len()
            &&& stored.2@.len() == new@.crons.len()
            &&& 0 <= i < stored.0@.len() ==> stored.0@[i]@ == new@.jobs[i]
            &&& 0 <= i < stored.1@.len() ==> stored.1@[i]@ == new@.workers[i]
            &&& 0 <= i < stored.2@.len() ==> stored.2@[i]@ == new@.crons[i]
        },
{
    law_lists_show_their_rows(jobs@, Seq::empty(), workers@, Seq::empty(), crons@);
    law_lists_show_their_rows(stored.0@, Seq::empty(), stored.1@, Seq::empty(), stored.2@);
}

/// A job is found by its id, just where one has it.
pub proof fn law_get(queue: Queue, id: u128, job: Option<Job>, place: int)
    requires
        queue@.sound(),
        call_ensures(Queue::get, (&queue, id), job),
    ensures
        0 <= place < queue@.jobs.len() && queue@.jobs[place].id == id ==> job is Some && job->0@
            == queue@.jobs[place],
        (forall|i: int| 0 <= i < queue@.jobs.len() ==> (#[trigger] queue@.jobs[i]).id != id)
            ==> job is None,
{
    law_job_with_an_id(queue@.jobs, id, place);
}

/// Cancelling ends a job that is still queued, and touches no other.
pub proof fn law_cancel_call(queue: &mut Queue, id: u128, now: Timestamp, done: bool)
    requires
        call_ensures(Queue::cancel, (queue, id, now), done),
    ensures
        done_to(
            old(queue)@,
            final(queue)@,
            done,
            |job: JobView| job.id == id && job.status == JobStatus::Queued,
            |job: JobView|
                JobView {
                    status: JobStatus::Cancelled,
                    finished_at: Some(now@),
                    error: None,
                    ..job
                },
        ),
{
    law_cancel(old(queue)@, final(queue)@, id, now@, done);
}

/// Retrying puts a job that failed or was cancelled back on the queue as if it were new, to run at
/// once, unless another unfinished job has its job key; and touches no other.
pub proof fn law_retry_call(
    queue: &mut Queue,
    id: u128,
    now: Timestamp,
    result: Result<bool, StoreError>,
)
    requires
        call_ensures(Queue::retry, (queue, id, now), result),
    ensures
        result is Err <==> exists|i: int, j: int|
            {
                &&& 0 <= i < old(queue)@.jobs.len()
                &&& 0 <= j < old(queue)@.jobs.len()
                &&& (#[trigger] old(queue)@.jobs[i]).id == id
                &&& old(queue)@.jobs[i].status == JobStatus::Failed || old(queue)@.jobs[i].status
                    == JobStatus::Cancelled
                &&& old(queue)@.jobs[i].job_key is Some
                &&& live(#[trigger] old(queue)@.jobs[j])
                &&& old(queue)@.jobs[j].job_key == old(queue)@.jobs[i].job_key
            },
        result is Err ==> final(queue)@ == old(queue)@,
        result matches Ok(done) ==> done_to(
            old(queue)@,
            final(queue)@,
            done,
            |job: JobView|
                job.id == id && (job.status == JobStatus::Failed || job.status
                    == JobStatus::Cancelled),
            |job: JobView|
                JobView {
                    status: JobStatus::Queued,
                    attempt: 0,
                    run_at: now@,
                    locked_by: None,
                    locked_at: None,
                    error: None,
                    started_at: None,
                    finished_at: None,
                    ..job
                },
        ),
{
    law_retry(old(queue)@, final(queue)@, id, now@, result);
}

/// Failing a job for good ends a job that is queued or running, with the reason, and touches no
/// other.
pub proof fn law_permanently_fail_call(
    queue: &mut Queue,
    id: u128,
    reason: &str,
    now: Timestamp,
    done: bool,
)
    requires
        call_ensures(Queue::permanently_fail, (queue, id, reason, now), done),
    ensures
        done_to(
            old(queue)@,
            final(queue)@,
            done,
            |job: JobView| job.id == id && live(job),
            |job: JobView|
                JobView {
                    status: JobStatus::Failed,
                    locked_by: None,
                    locked_at: None,
                    finished_at: Some(now@),
                    error: Some(reason@),
                    ..job
                },
        ),
{
    law_permanently_fail(old(queue)@, final(queue)@, id, reason@, now@, done);
}

/// Completing ends a job that is queued or running with success, and touches no other.
pub proof fn law_complete_call(queue: &mut Queue, id: u128, now: Timestamp, done: bool)
    requires
        call_ensures(Queue::complete, (queue, id, now), done),
    ensures
        done_to(
            old(queue)@,
            final(queue)@,
            done,
            |job: JobView| job.id == id && live(job),
            |job: JobView|
                JobView {
                    status: JobStatus::Succeeded,
                    locked_by: None,
                    locked_at: None,
                    finished_at: Some(now@),
                    error: None,
                    ..job
                },
        ),
{
    law_complete(old(queue)@, final(queue)@, id, now@, done);
}

/// Rescheduling gives a queued job another time to run, and touches nothing else.
pub proof fn law_reschedule_call(
    queue: &mut Queue,
    id: u128,
    run_at: Timestamp,
    now: Timestamp,
    done: bool,
)
    requires
        call_ensures(Queue::reschedule, (queue, id, run_at, now), done),
    ensures
        done_to(
            old(queue)@,
            final(queue)@,
            done,
            |job: JobView| job.id == id && job.status == JobStatus::Queued,
            |job: JobView| JobView { run_at: run_at@, ..job },
        ),
{
    law_reschedule(old(queue)@, final(queue)@, id, run_at@, now@, done);
}

/// A success is recorded of a job that the owner has locked, and of no other.
pub proof fn law_complete_locked_call(
    queue: &mut Queue,
    id: u128,
    lock_owner: &str,
    now: Timestamp,
    done: bool,
)
    requires
        call_ensures(Queue::complete_locked, (queue, id, lock_owner, now), done),
    ensures
        done_to(
            old(queue)@,
            final(queue)@,
            done,
            |job: JobView| job.id == id && job.locked_by == Some(lock_owner@),
            |job: JobView|
                JobView {
                    status: JobStatus::Succeeded,
                    locked_by: None,
                    locked_at: None,
                    finished_at: Some(now@),
                    error: None,
                    ..job
                },
        ),
{
    law_complete_locked(old(queue)@, final(queue)@, id, lock_owner@, now@, done);
}

/// A lock is renewed on a running job that the owner has locked, and on no other.
pub proof fn law_renew_lock_call(
    queue: &mut Queue,
    id: u128,
    lock_owner: &str,
    now: Timestamp,
    done: bool,
)
    requires
        call_ensures(Queue::renew_lock, (queue, id, lock_owner, now), done),
    ensures
        done_to(
            old(queue)@,
            final(queue)@,
            done,
            |job: JobView|
                job.id == id && job.locked_by == Some(lock_owner@) && job.status
                    == JobStatus::Running,
            |job: JobView| JobView { locked_at: Some(now@), ..job },
        ),
{
    law_renew_lock(old(queue)@, final(queue)@, id, lock_owner@, now@, done);
}

/// A failure is recorded of a job that the owner has locked, and of no other: for good from its last
/// attempt on.
pub proof fn law_fail_for_good_call(
    queue: &mut Queue,
    id: u128,
    lock_owner: &str,
    attempt: i32,
    max_attempts: i32,
    error: &str,
    now: Timestamp,
    result: Result<bool, StoreError>,
)
    requires
        call_ensures(
            Queue::fail_locked,
            (queue, id, lock_owner, attempt, max_attempts, error, now),
            result,
        ),
        attempt >= max_attempts,
    ensures
        result matches Ok(done) && done_to(
            old(queue)@,
            final(queue)@,
            done,
            |job: JobView| job.id == id && job.locked_by == Some(lock_owner@),
            |job: JobView|
                JobView {
                    status: JobStatus::Failed,
                    locked_by: None,
                    locked_at: None,
                    finished_at: Some(now@),
                    error: Some(error@),
                    ..job
                },
        ),
{
    law_fail_locked(old(queue)@, final(queue)@, id, lock_owner@, error@, now@, result);
}

/// A failure before the last attempt puts a job that the owner has locked back on the queue, for the
/// time after its back-off, with the error, and touches no other.
pub proof fn law_fail_and_back_off_call(
    queue: &mut Queue,
    id: u128,
    lock_owner: &str,
    attempt: i32,
    max_attempts: i32,
    error: &str,
    now: Timestamp,
    result: Result<bool, StoreError>,
)
    requires
        call_ensures(
            Queue::fail_locked,
            (queue, id, lock_owner, attempt, max_attempts, error, now),
            result,
        ),
        attempt < max_attempts,
    ensures
        result is Err ==> final(queue)@ == old(queue)@,
        (forall|i: int|
            0 <= i < old(queue)@.jobs.len() && (#[trigger] old(queue)@.jobs[i]).locked_by == Some(
                lock_owner@,
            ) ==> live(old(queue)@.jobs[i])) ==> result is Ok,
        result matches Ok(done) ==> done_to(
            old(queue)@,
            final(queue)@,
            done,
            |job: JobView| job.id == id && job.locked_by == Some(lock_owner@),
            |job: JobView|
                {
                    let due = now@ + backoff_micros(job.attempt) * 1000;
                    JobView {
                        status: JobStatus::Queued,
                        locked_by: None,
                        locked_at: None,
                        run_at: if due <= MAX_NANOS {
                            due
                        } else {
                            MAX_NANOS as int
                        },
                        error: Some(error@),
                        ..job
                    }
                },
        ),
{
    law_back_off_locked(old(queue)@, final(queue)@, id, lock_owner@, error@, now@, result);
}

/// A claim loop gets the first of the jobs that wait for it, which has one of its names and is then
/// running under its lock. It gets none where none waits, so where no stored job has one of its
/// names; then nothing changes.
pub proof fn law_claim_call(
    queue: &mut Queue,
    lock_owner: &str,
    names: &Vec<String>,
    now: Timestamp,
    result: Result<Option<Job>, StoreError>,
)
    requires
        call_ensures(Queue::claim_next, (queue, lock_owner, names, now), result),
    ensures
        result matches Ok(Some(job)) ==> {
            &&& exists|i: int| 0 <= i < names@.len() && job@.name == (#[trigger] names@[i])@
            &&& exists|place: int|
                #[trigger] took(
                    old(queue)@,
                    final(queue)@,
                    lock_owner@,
                    texts(names@),
                    now@,
                    job@,
                    place,
                )
        },
        result == Ok::<Option<Job>, StoreError>(None) <==> forall|place: int|
            !#[trigger] waits_for(old(queue)@.jobs, texts(names@), now@, place),
        (forall|i: int, k: int|
            0 <= i < old(queue)@.jobs.len() && 0 <= k < names@.len() ==> (#[trigger] old(queue)@.jobs[i]).name != (#[trigger] names@[k])@) ==> result == Ok::<
            Option<Job>,
            StoreError,
        >(None),
        !(result matches Ok(Some(_))) ==> final(queue)@ == old(queue)@,
{
    law_claim(old(queue)@, final(queue)@, lock_owner@, texts(names@), now@, result);
    if let Ok(Some(job)) = result {
        let i = choose|i: int| 0 <= i < texts(names@).len() && texts(names@)[i] == job@.name;
        assert(names@[i]@ == texts(names@)[i]);
    }
    if forall|i: int, k: int|
        0 <= i < old(queue)@.jobs.len() && 0 <= k < names@.len() ==> (#[trigger] old(queue)@.jobs[i]).name != (#[trigger] names@[k])@ {
        assert forall|i: int, k: int|
            0 <= i < old(queue)@.jobs.len() && 0 <= k < texts(names@).len() implies (#[trigger] old(queue)@.jobs[i]).name != #[trigger] texts(names@)[k] by {
            assert(names@[k]@ == texts(names@)[k]);
        }
    }
}

/// A worker that registers is on the roster afterwards, with its names and as heard of now; one that
/// was on it keeps the time of its start. No other worker, and nothing else, changes.
pub proof fn law_register_call(
    queue: &mut Queue,
    worker_id: &str,
    task_names: &Vec<String>,
    metadata: serde_json::Value,
    now: Timestamp,
    place: int,
)
    requires
        old(queue)@.sound(),
        call_ensures(Queue::register_worker, (queue, worker_id, task_names, metadata, now), ()),
    ensures
        final(queue)@.jobs == old(queue)@.jobs,
        final(queue)@.crons == old(queue)@.crons,
        0 <= place < old(queue)@.workers.len() && old(queue)@.workers[place].id == worker_id@ ==> {
            let worker = final(queue)@.workers[place];
            &&& final(queue)@.workers.len() == old(queue)@.workers.len()
            &&& forall|i: int|
                0 <= i < old(queue)@.workers.len() && i != place ==> #[trigger] final(queue)@.workers[i] == old(queue)@.workers[i]
            &&& worker.id == worker_id@
            &&& worker.task_names == texts(task_names@)
            &&& worker.metadata == metadata
            &&& worker.started_at == old(queue)@.workers[place].started_at
            &&& worker.last_heartbeat_at == now@
        },
        (forall|i: int|
            0 <= i < old(queue)@.workers.len() ==> (#[trigger] old(queue)@.workers[i]).id
                != worker_id@) ==> {
            let worker = final(queue)@.workers[old(queue)@.workers.len() as int];
            &&& final(queue)@.workers.len() == old(queue)@.workers.len() + 1
            &&& forall|i: int|
                0 <= i < old(queue)@.workers.len() ==> #[trigger] final(queue)@.workers[i] == old(queue)@.workers[i]
            &&& worker.id == worker_id@
            &&& worker.task_names == texts(task_names@)
            &&& worker.metadata == metadata
            &&& worker.started_at == now@
            &&& worker.last_heartbeat_at == now@
        },
{
    law_registering(
        old(queue)@.workers,
        worker_id@,
        texts(task_names@),
        metadata,
        now@,
        place,
    );
}

/// A worker that is deregistered is off the roster, and nothing else changes.
pub proof fn law_deregister_call(queue: &mut Queue, worker_id: &str, worker: WorkerRowView)
    requires
        call_ensures(Queue::deregister_worker, (queue, worker_id), ()),
    ensures
        final(queue)@.jobs == old(queue)@.jobs,
        final(queue)@.crons == old(queue)@.crons,
        final(queue)@.workers.contains(worker) <==> old(queue)@.workers.contains(worker) && worker.id
            != worker_id@,
{
    law_leaving_the_roster(old(queue)@.workers, worker, worker_id@, 0);
}

/// Releasing the jobs of a worker puts back the running ones that its claim loops have locked, counts
/// them, and changes nothing else.
pub proof fn law_release_call(queue: &mut Queue, worker_id: &str, now: Timestamp, count: u64)
    requires
        call_ensures(Queue::release_worker_jobs, (queue, worker_id, now), count),
    ensures
        becomes(
            old(queue)@,
            final(queue)@,
            |job: JobView| run_by_any(job, seq![worker_id@]),
            |job: JobView| put_back(job, "released by shutting down worker"@, now@),
        ),
        numbered(
            old(queue)@.jobs,
            |job: JobView| run_by_any(job, seq![worker_id@]),
            count as int,
        ),
{
    law_release_counts(
        old(queue)@,
        final(queue)@,
        seq![worker_id@],
        "released by shutting down worker"@,
        now@,
        count as int,
    );
}

/// Unlocking a worker by force releases its jobs and takes it off the roster.
pub proof fn law_force_unlock_call(
    queue: &mut Queue,
    worker_id: &str,
    now: Timestamp,
    count: u64,
    worker: WorkerRowView,
)
    requires
        call_ensures(Queue::force_unlock_worker, (queue, worker_id, now), count),
    ensures
        becomes(
            old(queue)@,
            QueueView { workers: old(queue)@.workers, ..final(queue)@ },
            |job: JobView| run_by_any(job, seq![worker_id@]),
            |job: JobView| put_back(job, "released by operator"@, now@),
        ),
        numbered(
            old(queue)@.jobs,
            |job: JobView| run_by_any(job, seq![worker_id@]),
            count as int,
        ),
        final(queue)@.workers.contains(worker) <==> old(queue)@.workers.contains(worker) && worker.id
            != worker_id@,
{
    law_unlocking_by_force(
        old(queue)@,
        final(queue)@,
        worker_id@,
        now@,
        count as int,
        worker,
    );
}

/// Recovery from stale locks puts back the running jobs whose lock is older than the span of time, in
/// whole milliseconds, counts them, and changes nothing else.
pub proof fn law_recover_stale_call(
    queue: &mut Queue,
    stale_after: Duration,
    now: Timestamp,
    count: u64,
)
    requires
        0 <= stale_after@ <= i64::MAX * 1_000_000,
        call_ensures(Queue::recover_stale, (queue, stale_after, now), count),
    ensures
        ({
            let stale = |job: JobView|
                job.status == JobStatus::Running && job.locked_at is Some && now@ - job.locked_at->0
                    > stale_after@ / 1_000_000 * 1_000_000;
            &&& becomes(
                old(queue)@,
                final(queue)@,
                stale,
                |job: JobView| put_back(job, "recovered stale running job"@, now@),
            )
            &&& numbered(old(queue)@.jobs, stale, count as int)
        }),
{
    law_recovery_from_stale_locks(
        old(queue)@,
        final(queue)@,
        stale_after@,
        now@,
        count as int,
    );
}

/// Recovery from dead workers takes those off the roster that have been silent for longer than the span
/// of time, in whole milliseconds, and puts back the running jobs that their claim loops have locked.
pub proof fn law_recover_dead_workers_call(
    queue: &mut Queue,
    stale_after: Duration,
    now: Timestamp,
    count: u64,
    worker: WorkerRowView,
)
    requires
        0 <= stale_after@ <= i64::MAX * 1_000_000,
        call_ensures(Queue::recover_dead_workers, (queue, stale_after, now), count),
    ensures
        ({
            let instant = now@ - stale_after@ / 1_000_000 * 1_000_000;
            let workers = old(queue)@.workers;
            &&& final(queue)@.workers.contains(worker) <==> workers.contains(worker)
                && worker.last_heartbeat_at >= instant
            &&& becomes(
                old(queue)@,
                QueueView { workers, ..final(queue)@ },
                |job: JobView| run_by_silent(job, workers, instant),
                |job: JobView| put_back(job, "recovered dead worker job"@, now@),
            )
            &&& numbered(
                old(queue)@.jobs,
                |job: JobView| run_by_silent(job, workers, instant),
                count as int,
            )
        }),
{
    law_recovery_from_dead_workers(
        old(queue)@,
        final(queue)@,
        stale_after@,
        now@,
        count as int,
        worker,
    );
}

/// Pruning deletes the jobs that ended longer ago than the span of time, in whole milliseconds, and
/// counts them.
pub proof fn law_prune_call(
    queue: &mut Queue,
    retain_for: Duration,
    now: Timestamp,
    count: u64,
    job: JobView,
)
    requires
        0 <= retain_for@ <= i64::MAX * 1_000_000,
        call_ensures(Queue::prune_finished, (queue, retain_for, now), count),
    ensures
        final(queue)@.workers == old(queue)@.workers,
        final(queue)@.crons == old(queue)@.crons,
        final(queue)@.jobs.len() + count == old(queue)@.jobs.len(),
        final(queue)@.jobs.contains(job) <==> old(queue)@.jobs.contains(job) && !{
            &&& job.status == JobStatus::Succeeded || job.status == JobStatus::Failed || job.status
                == JobStatus::Cancelled
            &&& job.finished_at matches Some(at) && now@ - at > retain_for@ / 1_000_000 * 1_000_000
        },
{
    law_pruning(old(queue)@, final(queue)@, retain_for@, now@, count as int, job);
}

/// The workers are listed once each, the one that started first in front.
pub proof fn law_workers_call(queue: Queue, workers: Vec<WorkerInfo>, i: int, j: int)
    requires
        call_ensures(Queue::workers, (&queue,), workers),
    ensures
        workers@.len() == queue@.workers.len(),
        0 <= i <= j < workers@.len() ==> workers@[i].started_at@ <= workers@[j].started_at@,
        0 <= i < workers@.len() ==> exists|k: int|
            {
                &&& 0 <= k < queue@.workers.len()
                &&& (#[trigger] queue@.workers[k]).id == workers@[i].id@
                &&& queue@.workers[k].task_names == texts(workers@[i].task_names@)
                &&& queue@.workers[k].started_at == workers@[i].started_at@
                &&& queue@.workers[k].last_heartbeat_at == workers@[i].last_heartbeat_at@
            },
{
    broadcast use vstd::seq_lib::group_to_multiset_ensures;

    let sorted = crate::roster::by_start(queue@.workers);
    law_first_started_come_first(queue@.workers, i, j);
    assert(infos(workers@).len() == workers@.len());
    if 0 <= i < workers@.len() {
        assert(infos(workers@)[i] == workers@[i]@);
        assert(infos(workers@)[i] == crate::rows::listed(sorted[i]));
        assert(sorted.contains(sorted[i]));
        assert(sorted.to_multiset().count(sorted[i]) > 0);
        assert(queue@.workers.to_multiset().count(sorted[i]) > 0);
        assert(queue@.workers.contains(sorted[i]));
        let k = choose|k: int| 0 <= k < queue@.workers.len() && queue@.workers[k] == sorted[i];
        assert(queue@.workers[k].id == workers@[i].id@);
    }
    if 0 <= j < workers@.len() {
        assert(infos(workers@)[j] == workers@[j]@);
        assert(infos(workers@)[j] == crate::rows::listed(sorted[j]));
    }
}

/// The jobs are counted by their status.
pub proof fn law_counts_call(queue: Queue, counts: JobCounts)
    requires
        call_ensures(Queue::counts, (&queue,), counts),
    ensures
        numbered(queue@.jobs, |job: JobView| job.status == JobStatus::Queued, counts.queued as int),
        numbered(
            queue@.jobs,
            |job: JobView| job.status == JobStatus::Running,
            counts.running as int,
        ),
        numbered(
            queue@.jobs,
            |job: JobView| job.status == JobStatus::Succeeded,
            counts.succeeded as int,
        ),
        numbered(queue@.jobs, |job: JobView| job.status == JobStatus::Failed, counts.failed as int),
        numbered(
            queue@.jobs,
            |job: JobView| job.status == JobStatus::Cancelled,
            counts.cancelled as int,
        ),
{
    lemma_counted(queue@.jobs, JobStatus::Queued);
    lemma_counted(queue@.jobs, JobStatus::Running);
    lemma_counted(queue@.jobs, JobStatus::Succeeded);
    lemma_counted(queue@.jobs, JobStatus::Failed);
    lemma_counted(queue@.jobs, JobStatus::Cancelled);
}

proof fn lemma_counted(jobs: Seq<JobView>, status: JobStatus)
    ensures
        numbered(
            jobs,
            |job: JobView| job.status == status,
            crate::listing::count_status(jobs, status) as int,
        ),
    decreases jobs.len(),
{
    reveal(Seq::filter);
    if jobs.len() > 0 {
        lemma_counted(jobs.drop_last(), status);
    }
}

/// The most recent jobs are listed, as many as are asked for or all, the latest in front; what is left
/// out is no later than what is listed. A negative number is refused.
pub proof fn law_recent_call(
    queue: Queue,
    limit: i64,
    result: Result<Vec<Job>, StoreError>,
    i: int,
    j: int,
)
    requires
        call_ensures(Queue::recent, (&queue, limit), result),
    ensures
        limit < 0 <==> result is Err,
        result matches Ok(jobs) ==> {
            &&& limit <= queue@.jobs.len() ==> jobs@.len() == limit
            &&& limit > queue@.jobs.len() ==> jobs@.len() == queue@.jobs.len()
            &&& 0 <= i <= j < jobs@.len() ==> jobs@[i].created_at@ >= jobs@[j].created_at@
            &&& 0 <= i < jobs@.len() ==> jobs@[i]@ == newest_first(queue@.jobs)[i]
        },
{
    if let Ok(jobs) = result {
        law_most_recent(queue@.jobs, limit as int, i, j);
        law_newest_come_first(queue@.jobs, i, j);
        assert(crate::job::rows(jobs@).len() == jobs@.len());
        if 0 <= i < jobs@.len() {
            assert(crate::job::rows(jobs@)[i] == jobs@[i]@);
        }
        if 0 <= j < jobs@.len() {
            assert(crate::job::rows(jobs@)[j] == jobs@[j]@);
        }
    }
}

/// An occurrence that is not later than a recorded one is skipped, and so is the first one of a
/// schedule that does not catch up; neither makes a job.
pub proof fn law_cron_is_skipped_call(
    queue: &mut Queue,
    cron: CronJob,
    due_at: Timestamp,
    next_run_at: Timestamp,
    id: u128,
    now: Timestamp,
    result: Result<CronEnqueueResult, StoreError>,
)
    requires
        old(queue)@.sound(),
        call_ensures(
            Queue::try_enqueue_cron_at,
            (queue, &cron, due_at, next_run_at, id, now),
            result,
        ),
        had(old(queue)@.crons, cron, due_at@) || !cron.catch_up_on_start && !known(
            old(queue)@.crons,
            cron,
            now@,
        ),
    ensures
        result == Ok::<CronEnqueueResult, StoreError>(CronEnqueueResult::Skipped),
        final(queue)@.jobs == old(queue)@.jobs,
        had(old(queue)@.crons, cron, due_at@) ==> final(queue)@ == old(queue)@,
{
    if had(old(queue)@.crons, cron, due_at@) {
        law_old_occurrence_is_skipped(
            old(queue)@,
            final(queue)@,
            cron,
            due_at@,
            next_run_at@,
            id,
            now@,
            result,
        );
    } else {
        law_first_occurrence_waits(
            old(queue)@,
            final(queue)@,
            cron,
            due_at@,
            next_run_at@,
            id,
            now@,
            result,
        );
    }
}

/// A new occurrence of a schedule that is known, or catches up, makes the job of the schedule where no
/// unfinished job has the job key: its name, its payload and its options are those of the schedule,
/// and it may run from the time at which it was due.
pub proof fn law_cron_makes_a_job_call(
    queue: &mut Queue,
    cron: CronJob,
    due_at: Timestamp,
    next_run_at: Timestamp,
    id: u128,
    now: Timestamp,
    result: Result<CronEnqueueResult, StoreError>,
)
    requires
        old(queue)@.sound(),
        call_ensures(
            Queue::try_enqueue_cron_at,
            (queue, &cron, due_at, next_run_at, id, now),
            result,
        ),
        !had(old(queue)@.crons, cron, due_at@),
        cron.catch_up_on_start || known(old(queue)@.crons, cron, now@),
        !key_in_use(old(queue)@, cron),
        cron.options.max_attempts >= 1,
        forall|i: int| 0 <= i < old(queue)@.jobs.len() ==> (#[trigger] old(queue)@.jobs[i]).id != id,
    ensures
        result == Ok::<CronEnqueueResult, StoreError>(CronEnqueueResult::Enqueued(id)),
        final(queue)@.jobs.len() == old(queue)@.jobs.len() + 1,
        forall|i: int|
            0 <= i < old(queue)@.jobs.len() ==> #[trigger] final(queue)@.jobs[i] == old(queue)@.jobs[i],
        ({
            let job = final(queue)@.jobs[old(queue)@.jobs.len() as int];
            &&& job.id == id
            &&& job.name == cron.name@
            &&& job.payload == cron.payload
            &&& job.run_at == due_at@
            &&& job.priority == cron.options.priority
            &&& job.max_attempts == cron.options.max_attempts
            &&& job.queue_name == cron.options@.queue_name
            &&& job.job_key == cron.options@.job_key
            &&& is_new_job(job, asks_for(cron), due_at@, id, now@)
        }),
{
    law_occurrence_makes_the_schedules_job(
        old(queue)@,
        final(queue)@,
        cron,
        due_at@,
        next_run_at@,
        id,
        now@,
        result,
    );
}

/// A new occurrence of a schedule that is known, or catches up, is taken on by the unfinished job that
/// has the job key, where there is one.
pub proof fn law_cron_meets_a_key_call(
    queue: &mut Queue,
    cron: CronJob,
    due_at: Timestamp,
    next_run_at: Timestamp,
    id: u128,
    now: Timestamp,
    result: Result<CronEnqueueResult, StoreError>,
    place: int,
)
    requires
        old(queue)@.sound(),
        call_ensures(
            Queue::try_enqueue_cron_at,
            (queue, &cron, due_at, next_run_at, id, now),
            result,
        ),
        !had(old(queue)@.crons, cron, due_at@),
        cron.catch_up_on_start || known(old(queue)@.crons, cron, now@),
        cron.options.max_attempts >= 1,
        cron.options@.job_key is Some,
        0 <= place < old(queue)@.jobs.len(),
        keeps_key(old(queue)@.jobs[place], cron.options@.job_key->0),
    ensures
        result == Ok::<CronEnqueueResult, StoreError>(
            CronEnqueueResult::AlreadyQueued(old(queue)@.jobs[place].id),
        ),
        final(queue)@.jobs.len() == old(queue)@.jobs.len(),
        forall|i: int|
            0 <= i < old(queue)@.jobs.len() && i != place ==> #[trigger] final(queue)@.jobs[i]
                == old(queue)@.jobs[i],
        takes_on(
            final(queue)@.jobs[place],
            old(queue)@.jobs[place],
            asks_for(cron),
            due_at@,
        ),
{
    law_occurrence_meets_its_key(
        old(queue)@,
        final(queue)@,
        cron,
        due_at@,
        next_run_at@,
        id,
        now@,
        result,
        place,
    );
}

/// A new occurrence is recorded with its schedule, unless it is refused.
pub proof fn law_cron_is_recorded_call(
    queue: &mut Queue,
    cron: CronJob,
    due_at: Timestamp,
    next_run_at: Timestamp,
    id: u128,
    now: Timestamp,
    result: Result<CronEnqueueResult, StoreError>,
    place: int,
)
    requires
        old(queue)@.sound(),
        call_ensures(
            Queue::try_enqueue_cron_at,
            (queue, &cron, due_at, next_run_at, id, now),
            result,
        ),
        !had(old(queue)@.crons, cron, due_at@),
        result is Ok,
    ensures
        final(queue)@.workers == old(queue)@.workers,
        0 <= place < old(queue)@.crons.len() && records(old(queue)@.crons[place], cron) ==> {
            &&& final(queue)@.crons.len() == old(queue)@.crons.len()
            &&& is_record(final(queue)@.crons[place], cron, due_at@, next_run_at@)
            &&& final(queue)@.crons[place].created_at == old(queue)@.crons[place].created_at
            &&& forall|i: int|
                0 <= i < old(queue)@.crons.len() && i != place ==> #[trigger] final(queue)@.crons[i]
                    == old(queue)@.crons[i]
        },
        (forall|i: int|
            0 <= i < old(queue)@.crons.len() ==> !records(#[trigger] old(queue)@.crons[i], cron))
            ==> {
            let row = final(queue)@.crons[old(queue)@.crons.len() as int];
            &&& final(queue)@.crons.len() == old(queue)@.crons.len() + 1
            &&& is_record(row, cron, due_at@, next_run_at@)
            &&& row.created_at == now@
            &&& forall|i: int|
                0 <= i < old(queue)@.crons.len() ==> #[trigger] final(queue)@.crons[i] == old(queue)@.crons[i]
        },
{
    law_new_occurrence_is_recorded(
        old(queue)@,
        final(queue)@,
        cron,
        due_at@,
        next_run_at@,
        id,
        now@,
        result,
        place,
    );
}

} // verus!
