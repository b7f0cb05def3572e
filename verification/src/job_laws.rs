//! What becomes of stored jobs, field by field.

use vstd::prelude::*;

use crate::error::StoreError;
use crate::job::{
    EnqueueOptions, EnqueueRequest, EnqueueRequestView, Job, JobKeyMode, JobRow, JobStatus, JobView,
};
use crate::queue::{enqueue_outcome, QueueView};
use crate::table::{
    claimed, eligible, holder, holds_key, is_next, jobs_sound, lemma_holder, next_claim, queue_free,
    runs_before,
};

verus! {

/// Whether a job is not finished and has a job key.
pub open spec fn keeps_key(job: JobView, key: Seq<char>) -> bool {
    (job.status is Queued || job.status is Running) && job.job_key == Some(key)
}

/// A job shows what its fields hold.
pub proof fn law_job_shows_its_fields(job: Job)
    ensures
        job@.id == job.id,
        job@.name == job.name@,
        job@.status == job.status,
        job@.payload == job.payload,
        job@.priority == job.priority,
        job@.run_at == job.run_at@,
        job@.attempt == job.attempt,
        job@.max_attempts == job.max_attempts,
        job@.queued_at == job.queued_at@,
        job@.created_at == job.created_at@,
        job@.updated_at == job.updated_at@,
        job.queue_name matches Some(text) ==> job@.queue_name == Some(text@),
        job.queue_name is None ==> job@.queue_name is None,
        job.job_key matches Some(text) ==> job@.job_key == Some(text@),
        job.job_key is None ==> job@.job_key is None,
        job.locked_by matches Some(text) ==> job@.locked_by == Some(text@),
        job.locked_by is None ==> job@.locked_by is None,
        job.error matches Some(text) ==> job@.error == Some(text@),
        job.error is None ==> job@.error is None,
        job.locked_at matches Some(at) ==> job@.locked_at == Some(at@),
        job.locked_at is None ==> job@.locked_at is None,
        job.started_at matches Some(at) ==> job@.started_at == Some(at@),
        job.started_at is None ==> job@.started_at is None,
        job.finished_at matches Some(at) ==> job@.finished_at == Some(at@),
        job.finished_at is None ==> job@.finished_at is None,
{
}

/// The columns of a stored job are those of the job, but for the status.
pub proof fn law_columns_are_the_jobs(row: JobRow, status: JobStatus)
    ensures
        ({
            let job = row.with_status(status);
            &&& job.id == row.id
            &&& job.name == row.name@
            &&& job.status == status
            &&& job.payload == row.payload
            &&& job.priority == row.priority
            &&& job.run_at == row.run_at@
            &&& job.attempt == row.attempt
            &&& job.max_attempts == row.max_attempts
            &&& job.queued_at == row.queued_at@
            &&& job.created_at == row.created_at@
            &&& job.updated_at == row.updated_at@
            &&& match row.queue_name {
                Some(text) => job.queue_name == Some(text@),
                None => job.queue_name is None,
            }
            &&& match row.job_key {
                Some(text) => job.job_key == Some(text@),
                None => job.job_key is None,
            }
            &&& match row.locked_by {
                Some(text) => job.locked_by == Some(text@),
                None => job.locked_by is None,
            }
            &&& match row.error {
                Some(text) => job.error == Some(text@),
                None => job.error is None,
            }
            &&& match row.locked_at {
                Some(at) => job.locked_at == Some(at@),
                None => job.locked_at is None,
            }
            &&& match row.started_at {
                Some(at) => job.started_at == Some(at@),
                None => job.started_at is None,
            }
            &&& match row.finished_at {
                Some(at) => job.finished_at == Some(at@),
                None => job.finished_at is None,
            }
        }),
{
}

/// A request shows what was asked for.
pub proof fn law_request_shows_its_fields(request: EnqueueRequest, options: EnqueueOptions)
    ensures
        request@.name == request.name@,
        request@.payload == request.payload,
        request@.options == request.options@,
        options@.priority == options.priority,
        options@.max_attempts == options.max_attempts,
        options@.job_key_mode == options.job_key_mode,
        options.queue_name matches Some(text) ==> options@.queue_name == Some(text@),
        options.queue_name is None ==> options@.queue_name is None,
        options.job_key matches Some(text) ==> options@.job_key == Some(text@),
        options.job_key is None ==> options@.job_key is None,
        options.run_at matches Some(at) ==> options@.run_at == Some(at@),
        options.run_at is None ==> options@.run_at is None,
{
}

/// What always holds of stored jobs: no two have the same id, no two unfinished ones the same job
/// key, no two running ones the same queue name; and the attempts are counted from zero and limited
/// to one or more.
pub proof fn law_what_soundness_means(jobs: Seq<JobView>)
    ensures
        jobs_sound(jobs) <==> {
            &&& forall|i: int, j: int|
                0 <= i < j < jobs.len() ==> {
                    let one = #[trigger] jobs[i];
                    let other = #[trigger] jobs[j];
                    let live = (one.status is Queued || one.status is Running) && (other.status
                        is Queued || other.status is Running);
                    &&& one.id != other.id
                    &&& live && one.job_key is Some ==> one.job_key != other.job_key
                    &&& one.status is Running && other.status is Running && one.queue_name is Some
                        ==> one.queue_name != other.queue_name
                }
            &&& forall|i: int|
                0 <= i < jobs.len() ==> (#[trigger] jobs[i]).attempt >= 0 && jobs[i].max_attempts
                    >= 1
        },
{
    if forall|i: int, j: int|
        0 <= i < j < jobs.len() ==> {
            let one = #[trigger] jobs[i];
            let other = #[trigger] jobs[j];
            let live = (one.status is Queued || one.status is Running) && (other.status is Queued
                || other.status is Running);
            &&& one.id != other.id
            &&& live && one.job_key is Some ==> one.job_key != other.job_key
            &&& one.status is Running && other.status is Running && one.queue_name is Some
                ==> one.queue_name != other.queue_name
        } {
        assert forall|i: int, j: int|
            0 <= i < jobs.len() && 0 <= j < jobs.len() && i != j implies (#[trigger] jobs[i]).id != (
        #[trigger] jobs[j]).id by {
            if j < i {
                assert(jobs[j].id != jobs[i].id);
            }
        }
        assert forall|i: int, j: int|
            0 <= i < jobs.len() && 0 <= j < jobs.len() && i != j && (
            #[trigger] jobs[i]).unfinished() && (#[trigger] jobs[j]).unfinished()
                && jobs[i].job_key is Some implies jobs[i].job_key != jobs[j].job_key by {
            if j < i {
                assert(jobs[j].id != jobs[i].id);
            }
        }
        assert forall|i: int, j: int|
            0 <= i < jobs.len() && 0 <= j < jobs.len() && i != j && (#[trigger] jobs[i]).status
                is Running && (#[trigger] jobs[j]).status is Running && jobs[i].queue_name
                is Some implies jobs[i].queue_name != jobs[j].queue_name by {
            if j < i {
                assert(jobs[j].id != jobs[i].id);
            }
        }
    }
    if jobs_sound(jobs) {
        assert forall|i: int, j: int| 0 <= i < j < jobs.len() implies {
            let one = #[trigger] jobs[i];
            let other = #[trigger] jobs[j];
            let live = (one.status is Queued || one.status is Running) && (other.status is Queued
                || other.status is Running);
            &&& one.id != other.id
            &&& live && one.job_key is Some ==> one.job_key != other.job_key
            &&& one.status is Running && other.status is Running && one.queue_name is Some
                ==> one.queue_name != other.queue_name
        } by {
            assert(jobs[i].id != jobs[j].id);
            if jobs[i].unfinished() && jobs[j].unfinished() && jobs[i].job_key is Some {
                assert(jobs[i].job_key != jobs[j].job_key);
            }
        }
        assert forall|i: int| 0 <= i < jobs.len() implies (#[trigger] jobs[i]).attempt >= 0
            && jobs[i].max_attempts >= 1 by {}
    }
}

/// A request that allows no attempt is refused, whatever else it asks for; and whatever is refused
/// changes nothing.
pub proof fn law_refused_request_changes_nothing(
    before: QueueView,
    after: QueueView,
    request: EnqueueRequestView,
    run_at: int,
    id: u128,
    now: int,
    result: Result<u128, StoreError>,
)
    requires
        enqueue_outcome(before, after, request, run_at, id, now, result),
    ensures
        request.options.max_attempts < 1 <==> result
            == Err::<u128, StoreError>(StoreError::InvalidMaxAttempts),
        result is Err ==> after == before,
        after.workers == before.workers,
        after.crons == before.crons,
{
}

/// A request whose job key no unfinished job has, or which has none, makes one new job, under the
/// given id where no stored job has that: queued, with no attempts made, and in all else as it was
/// asked for. The jobs that were there stay as they are.
pub proof fn law_new_job_is_what_was_asked_for(
    before: QueueView,
    after: QueueView,
    request: EnqueueRequestView,
    run_at: int,
    id: u128,
    now: int,
    result: Result<u128, StoreError>,
)
    requires
        enqueue_outcome(before, after, request, run_at, id, now, result),
        request.options.max_attempts >= 1,
        request.options.job_key matches Some(key) ==> forall|i: int|
            0 <= i < before.jobs.len() ==> !keeps_key(#[trigger] before.jobs[i], key),
    ensures
        (exists|i: int| 0 <= i < before.jobs.len() && (#[trigger] before.jobs[i]).id == id)
            ==> result == Err::<u128, StoreError>(StoreError::DuplicateId),
        (forall|i: int| 0 <= i < before.jobs.len() ==> (#[trigger] before.jobs[i]).id != id) ==> {
            let job = after.jobs[before.jobs.len() as int];
            &&& result == Ok::<u128, StoreError>(id)
            &&& after.jobs.len() == before.jobs.len() + 1
            &&& forall|i: int|
                0 <= i < before.jobs.len() ==> #[trigger] after.jobs[i] == before.jobs[i]
            &&& is_new_job(job, request, run_at, id, now)
        },
{
    let key = request.options.job_key;
    assert(holder(before.jobs, key) is None) by {
        if let Some(place) = holder(before.jobs, key) {
            assert(0 <= place < before.jobs.len() && holds_key(before.jobs[place], key));
            assert(keeps_key(before.jobs[place], key->0));
        }
    }
}

/// Whether a job is one that a request has just made.
pub open spec fn is_new_job(
    job: JobView,
    request: EnqueueRequestView,
    run_at: int,
    id: u128,
    now: int,
) -> bool {
    &&& job.id == id
    &&& job.name == request.name
    &&& job.status is Queued
    &&& job.payload == request.payload
    &&& job.queue_name == request.options.queue_name
    &&& job.priority == request.options.priority
    &&& job.run_at == run_at
    &&& job.job_key == request.options.job_key
    &&& job.attempt == 0
    &&& job.max_attempts == request.options.max_attempts
    &&& job.locked_by is None
    &&& job.locked_at is None
    &&& job.error is None
    &&& job.queued_at == now
    &&& job.started_at is None
    &&& job.finished_at is None
    &&& job.created_at == now
    &&& job.updated_at == now
}

/// Whether a job is what a request under its job key made of it. A running job stays as it is, and so
/// does any under `Dedupe`. A queued one takes on all that the request asks for, the time from which
/// it may run under `Replace` alone, and loses its error; its id, its history and its place in time
/// stay.
pub open spec fn takes_on(
    job: JobView,
    held: JobView,
    request: EnqueueRequestView,
    run_at: int,
) -> bool {
    &&& held.status is Running ==> job == held
    &&& request.options.job_key_mode == JobKeyMode::Dedupe ==> job == held
    &&& held.status is Queued && request.options.job_key_mode != JobKeyMode::Dedupe ==> {
        &&& job.name == request.name
        &&& job.payload == request.payload
        &&& job.queue_name == request.options.queue_name
        &&& job.priority == request.options.priority
        &&& job.max_attempts == request.options.max_attempts
        &&& job.error is None
        &&& request.options.job_key_mode == JobKeyMode::Replace ==> job.run_at == run_at
        &&& request.options.job_key_mode == JobKeyMode::PreserveRunAt ==> job.run_at == held.run_at
    }
    &&& job.id == held.id
    &&& job.status == held.status
    &&& job.job_key == held.job_key
    &&& job.attempt == held.attempt
    &&& job.locked_by == held.locked_by
    &&& job.locked_at == held.locked_at
    &&& job.queued_at == held.queued_at
    &&& job.started_at == held.started_at
    &&& job.finished_at == held.finished_at
    &&& job.created_at == held.created_at
    &&& job.updated_at == held.updated_at
}

/// A request under a job key that an unfinished job has makes no new job: it is answered with the id
/// of that job, which takes on the request as the mode says. All other jobs stay as they are.
pub proof fn law_held_key_answers_the_request(
    before: QueueView,
    after: QueueView,
    request: EnqueueRequestView,
    run_at: int,
    id: u128,
    now: int,
    result: Result<u128, StoreError>,
    place: int,
)
    requires
        before.sound(),
        enqueue_outcome(before, after, request, run_at, id, now, result),
        request.options.max_attempts >= 1,
        request.options.job_key is Some,
        0 <= place < before.jobs.len(),
        keeps_key(before.jobs[place], request.options.job_key->0),
    ensures
        result == Ok::<u128, StoreError>(before.jobs[place].id),
        after.jobs.len() == before.jobs.len(),
        forall|i: int|
            0 <= i < before.jobs.len() && i != place ==> #[trigger] after.jobs[i] == before.jobs[i],
        takes_on(after.jobs[place], before.jobs[place], request, run_at),
{
    lemma_holder(before.jobs, request.options.job_key, place);
}

/// Whether a job waits for a worker that handles jobs of certain names: it is queued, the time from
/// which it may run has come, its name is one of those, and no running job has its queue name.
pub open spec fn waits_for(
    jobs: Seq<JobView>,
    names: Seq<Seq<char>>,
    now: int,
    place: int,
) -> bool {
    &&& 0 <= place < jobs.len()
    &&& jobs[place].status is Queued
    &&& jobs[place].run_at <= now
    &&& exists|i: int| 0 <= i < names.len() && #[trigger] names[i] == jobs[place].name
    &&& jobs[place].queue_name is Some ==> forall|j: int|
        0 <= j < jobs.len() && (#[trigger] jobs[j]).status is Running ==> jobs[j].queue_name
            != jobs[place].queue_name
}

proof fn lemma_waits_for(jobs: Seq<JobView>, names: Seq<Seq<char>>, now: int, place: int)
    ensures
        waits_for(jobs, names, now, place) == eligible(jobs, names, now, place),
{
    if eligible(jobs, names, now, place) {
        let i = choose|i: int| 0 <= i < names.len() && names[i] == jobs[place].name;
        assert(names[i] == jobs[place].name);
        assert(queue_free(jobs, jobs[place].queue_name));
    }
    if waits_for(jobs, names, now, place) {
        let i = choose|i: int| 0 <= i < names.len() && #[trigger] names[i] == jobs[place].name;
        assert(names.contains(jobs[place].name));
    }
}

/// A worker is given a job that waits for it and has one of its names, and no job where none waits:
/// so none that it has no handler for, none before its time, and none of a named queue that is at
/// work.
pub proof fn law_claim_takes_a_waiting_job(
    jobs: Seq<JobView>,
    names: Seq<Seq<char>>,
    now: int,
    other: int,
)
    ensures
        next_claim(jobs, names, now) matches Some(place) ==> {
            &&& waits_for(jobs, names, now, place)
            &&& exists|i: int| 0 <= i < names.len() && #[trigger] names[i] == jobs[place].name
        },
        waits_for(jobs, names, now, other) ==> next_claim(jobs, names, now) is Some,
        (forall|i: int, k: int|
            0 <= i < jobs.len() && 0 <= k < names.len() ==> (#[trigger] jobs[i]).name
                != #[trigger] names[k]) ==> next_claim(jobs, names, now) is None,
{
    if let Some(place) = next_claim(jobs, names, now) {
        assert(is_next(jobs, names, now, place));
        lemma_waits_for(jobs, names, now, place);
    }
    lemma_waits_for(jobs, names, now, other);
    if eligible(jobs, names, now, other) {
        let best = lemma_best(jobs, names, now, jobs.len() as int, other);
        assert(is_next(jobs, names, now, best));
    }
}

/// Of the first jobs of a table that wait, one is next.
proof fn lemma_best(
    jobs: Seq<JobView>,
    names: Seq<Seq<char>>,
    now: int,
    count: int,
    place: int,
) -> (best: int)
    requires
        0 <= place < count <= jobs.len(),
        eligible(jobs, names, now, place),
    ensures
        eligible(jobs, names, now, best),
        best < count,
        forall|j: int|
            #[trigger] eligible(jobs, names, now, j) && j != best && j < count
                ==> runs_before(jobs[best], jobs[j]) || !runs_before(
                jobs[j],
                jobs[best],
            ) && best < j,
    decreases count,
{
    let last = count - 1;
    let earlier = exists|j: int| #[trigger] eligible(jobs, names, now, j) && j < last;
    if earlier {
        let some = choose|j: int| #[trigger] eligible(jobs, names, now, j) && j < last;
        let best = lemma_best(jobs, names, now, last, some);
        if eligible(jobs, names, now, last) && runs_before(jobs[last], jobs[best]) {
            last
        } else {
            best
        }
    } else {
        last
    }
}

/// The job that a worker is given comes first among those that wait: none of them has a lower
/// priority value, none with the same value may run from an earlier time, and none that is the same in
/// both is older.
pub proof fn law_claim_takes_the_first(
    jobs: Seq<JobView>,
    names: Seq<Seq<char>>,
    now: int,
    place: int,
    other: int,
)
    requires
        next_claim(jobs, names, now) == Some(place),
        waits_for(jobs, names, now, other),
    ensures
        jobs[place].priority <= jobs[other].priority,
        jobs[place].priority == jobs[other].priority ==> jobs[place].run_at <= jobs[other].run_at,
        jobs[place].priority == jobs[other].priority && jobs[place].run_at == jobs[other].run_at
            ==> jobs[place].created_at <= jobs[other].created_at,
        jobs[place].priority == jobs[other].priority && jobs[place].run_at == jobs[other].run_at
            && jobs[place].created_at == jobs[other].created_at ==> place <= other,
{
    assert(is_next(jobs, names, now, place));
    lemma_waits_for(jobs, names, now, other);
}

/// A claimed job is running: locked by its claim loop and started at the time of the claim, at one
/// more attempt, without an error or an end. All that was asked for stays.
pub proof fn law_claimed_job_is_running(job: JobView, owner: Seq<char>, now: int)
    ensures
        ({
            let running = claimed(job, owner, now);
            &&& running.status is Running
            &&& running.attempt == job.attempt + 1
            &&& running.locked_by == Some(owner)
            &&& running.locked_at == Some(now)
            &&& running.started_at == Some(now)
            &&& running.finished_at is None
            &&& running.error is None
            &&& running.id == job.id
            &&& running.name == job.name
            &&& running.payload == job.payload
            &&& running.queue_name == job.queue_name
            &&& running.priority == job.priority
            &&& running.run_at == job.run_at
            &&& running.job_key == job.job_key
            &&& running.max_attempts == job.max_attempts
            &&& running.queued_at == job.queued_at
            &&& running.created_at == job.created_at
            &&& running.updated_at == job.updated_at
        }),
{
}

} // verus!
