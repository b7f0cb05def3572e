//! The table of stored jobs: what always holds of it, how a job gets in, and which job is next.

use vstd::prelude::*;

use crate::change::{revised, revised_job, selected, selects, Change, ChangeView};
use crate::error::StoreError;
use crate::job::{rows, EnqueueOptions, EnqueueRequestView, Job, JobKeyMode, JobStatus, JobView};
use crate::text::{holds_text, same_optional_text, text_of, texts};
use crate::time::Timestamp;

verus! {

/// No two jobs have the same id.
pub open spec fn ids_unique(jobs: Seq<JobView>) -> bool {
    forall|i: int, j: int|
        0 <= i < jobs.len() && 0 <= j < jobs.len() && i != j ==> (#[trigger] jobs[i]).id != (
        #[trigger] jobs[j]).id
}

/// No two unfinished jobs have the same job key.
pub open spec fn keys_unique(jobs: Seq<JobView>) -> bool {
    forall|i: int, j: int|
        0 <= i < jobs.len() && 0 <= j < jobs.len() && i != j && (#[trigger] jobs[i]).unfinished()
            && (#[trigger] jobs[j]).unfinished() && jobs[i].job_key is Some ==> jobs[i].job_key
            != jobs[j].job_key
}

/// No two running jobs have the same queue name.
pub open spec fn queues_serial(jobs: Seq<JobView>) -> bool {
    forall|i: int, j: int|
        0 <= i < jobs.len() && 0 <= j < jobs.len() && i != j && (#[trigger] jobs[i]).status
            is Running && (#[trigger] jobs[j]).status is Running && jobs[i].queue_name is Some
            ==> jobs[i].queue_name != jobs[j].queue_name
}

/// Every job has a sensible number of attempts.
pub open spec fn attempts_valid(jobs: Seq<JobView>) -> bool {
    forall|i: int|
        0 <= i < jobs.len() ==> 0 <= (#[trigger] jobs[i]).attempt && 1 <= jobs[i].max_attempts
}

/// What always holds of the stored jobs.
pub open spec fn jobs_sound(jobs: Seq<JobView>) -> bool {
    ids_unique(jobs) && keys_unique(jobs) && queues_serial(jobs) && attempts_valid(jobs)
}

/// Whether an unfinished job holds a job key.
pub open spec fn holds_key(job: JobView, key: Option<Seq<char>>) -> bool {
    key is Some && job.unfinished() && job.job_key == key
}

/// The place of the unfinished job that holds a job key.
pub open spec fn holder(jobs: Seq<JobView>, key: Option<Seq<char>>) -> Option<int> {
    if exists|i: int| 0 <= i < jobs.len() && holds_key(#[trigger] jobs[i], key) {
        Some(choose|i: int| 0 <= i < jobs.len() && holds_key(#[trigger] jobs[i], key))
    } else {
        None
    }
}

/// A job key has one holder.
pub proof fn lemma_holder(jobs: Seq<JobView>, key: Option<Seq<char>>, place: int)
    requires
        keys_unique(jobs),
        0 <= place < jobs.len(),
        holds_key(jobs[place], key),
    ensures
        holder(jobs, key) == Some(place),
{
    assert(holds_key(jobs[place], key));
    let found = choose|i: int| 0 <= i < jobs.len() && holds_key(#[trigger] jobs[i], key);
    if found != place {
        assert(jobs[found].job_key == jobs[place].job_key);
    }
}

/// The place of the job with an id.
pub open spec fn place_of(jobs: Seq<JobView>, id: u128) -> Option<int> {
    if exists|i: int| 0 <= i < jobs.len() && (#[trigger] jobs[i]).id == id {
        Some(choose|i: int| 0 <= i < jobs.len() && (#[trigger] jobs[i]).id == id)
    } else {
        None
    }
}

/// Finds the job with an id.
pub fn find_job(jobs: &Vec<Job>, id: u128) -> (place: Option<usize>)
    requires
        ids_unique(rows(jobs@)),
    ensures
        match place {
            Some(place) => place < jobs@.len() && place_of(rows(jobs@), id) == Some(place as int)
                && rows(jobs@)[place as int].id == id,
            None => place_of(rows(jobs@), id) is None && forall|i: int|
                0 <= i < jobs@.len() ==> (#[trigger] rows(jobs@)[i]).id != id,
        },
{
    let ghost all = rows(jobs@);
    let mut i: usize = 0;
    while i < jobs.len()
        invariant
            i <= jobs@.len(),
            all == rows(jobs@),
            ids_unique(all),
            forall|j: int| 0 <= j < i ==> (#[trigger] all[j]).id != id,
        decreases jobs@.len() - i,
    {
        assert(all[i as int] == jobs@[i as int]@);
        if jobs[i].id == id {
            return Some(i);
        }
        i = i + 1;
    }
    None
}

/// Finds the unfinished job that holds a job key.
pub fn find_holder(jobs: &Vec<Job>, key: &Option<String>) -> (place: Option<usize>)
    requires
        keys_unique(rows(jobs@)),
    ensures
        match place {
            Some(place) => place < jobs@.len() && holder(rows(jobs@), text_of(*key)) == Some(
                place as int,
            ) && holds_key(rows(jobs@)[place as int], text_of(*key)),
            None => holder(rows(jobs@), text_of(*key)) is None && forall|i: int|
                0 <= i < jobs@.len() ==> !holds_key(#[trigger] rows(jobs@)[i], text_of(*key)),
        },
{
    let ghost all = rows(jobs@);
    if key.is_none() {
        return None;
    }
    let mut i: usize = 0;
    while i < jobs.len()
        invariant
            i <= jobs@.len(),
            all == rows(jobs@),
            keys_unique(all),
            key is Some,
            forall|j: int| 0 <= j < i ==> !holds_key(#[trigger] all[j], text_of(*key)),
        decreases jobs@.len() - i,
    {
        assert(all[i as int] == jobs@[i as int]@);
        if !jobs[i].status.is_terminal() && same_optional_text(&jobs[i].job_key, key) {
            proof {
                lemma_holder(all, text_of(*key), i as int);
            }
            return Some(i);
        }
        i = i + 1;
    }
    None
}

/// The job that a request for a job makes at `now`.
pub open spec fn new_job(request: EnqueueRequestView, run_at: int, id: u128, now: int) -> JobView {
    JobView {
        id,
        name: request.name,
        status: JobStatus::Queued,
        payload: request.payload,
        queue_name: request.options.queue_name,
        priority: request.options.priority,
        run_at,
        job_key: request.options.job_key,
        attempt: 0,
        max_attempts: request.options.max_attempts,
        locked_by: None,
        locked_at: None,
        error: None,
        queued_at: now,
        started_at: None,
        finished_at: None,
        created_at: now,
        updated_at: now,
    }
}

/// What becomes of the unfinished job that holds the job key of a request. A queued job takes on
/// the request, as far as the mode says; a running job stays as it is.
pub open spec fn merged(job: JobView, request: EnqueueRequestView, run_at: int) -> JobView {
    let mode = request.options.job_key_mode;
    if mode is Dedupe || !(job.status is Queued) {
        job
    } else {
        JobView {
            name: request.name,
            payload: request.payload,
            queue_name: request.options.queue_name,
            priority: request.options.priority,
            run_at: if mode is Replace {
                run_at
            } else {
                job.run_at
            },
            max_attempts: request.options.max_attempts,
            error: None,
            ..job
        }
    }
}

/// The jobs after a request.
pub open spec fn enqueued(
    jobs: Seq<JobView>,
    request: EnqueueRequestView,
    run_at: int,
    id: u128,
    now: int,
) -> Seq<JobView> {
    match holder(jobs, request.options.job_key) {
        Some(place) => jobs.update(place, merged(jobs[place], request, run_at)),
        None => jobs.push(new_job(request, run_at, id, now)),
    }
}

/// The id of the job that answers a request: that of the job which holds its job key, or the new
/// one.
pub open spec fn enqueued_id(jobs: Seq<JobView>, request: EnqueueRequestView, id: u128) -> u128 {
    match holder(jobs, request.options.job_key) {
        Some(place) => jobs[place].id,
        None => id,
    }
}

/// Why a request is refused, where it is.
pub open spec fn refusal(jobs: Seq<JobView>, request: EnqueueRequestView, id: u128) -> Option<
    StoreError,
> {
    if request.options.max_attempts < 1 {
        Some(StoreError::InvalidMaxAttempts)
    } else if holder(jobs, request.options.job_key) is None && place_of(jobs, id) is Some {
        Some(StoreError::DuplicateId)
    } else {
        None
    }
}

/// A request that is not refused leaves the table sound.
pub proof fn lemma_enqueued_sound(
    jobs: Seq<JobView>,
    request: EnqueueRequestView,
    run_at: int,
    id: u128,
    now: int,
)
    requires
        jobs_sound(jobs),
        refusal(jobs, request, id) is None,
    ensures
        jobs_sound(enqueued(jobs, request, run_at, id, now)),
{
    let after = enqueued(jobs, request, run_at, id, now);
    match holder(jobs, request.options.job_key) {
        Some(place) => {
            assert(0 <= place < jobs.len() && holds_key(jobs[place], request.options.job_key));
            assert forall|i: int| 0 <= i < after.len() implies {
                &&& (#[trigger] after[i]).id == jobs[i].id
                &&& after[i].status == jobs[i].status
                &&& after[i].job_key == jobs[i].job_key
                &&& (jobs[i].status is Running ==> after[i].queue_name == jobs[i].queue_name)
                &&& after[i].attempt == jobs[i].attempt
                &&& after[i].max_attempts >= 1
            } by {
                assert(jobs[i].max_attempts >= 1);
            }
        },
        None => {
            let fresh = new_job(request, run_at, id, now);
            assert(after.len() == jobs.len() + 1);
            assert forall|i: int| 0 <= i < jobs.len() implies #[trigger] after[i] == jobs[i]
                && jobs[i].id != id && !holds_key(jobs[i], request.options.job_key) by {}
            assert(after[jobs.len() as int] == fresh);
        },
    }
}

/// Stores a job, or merges it into the unfinished job that holds its job key. Returns the id of the
/// job and whether it is a new one.
pub fn insert_job(
    jobs: &mut Vec<Job>,
    name: &str,
    payload: serde_json::Value,
    options: EnqueueOptions,
    run_at: Timestamp,
    id: u128,
    now: Timestamp,
) -> (stored: Result<(u128, bool), StoreError>)
    requires
        jobs_sound(rows(old(jobs)@)),
    ensures
        ({
            let request = EnqueueRequestView { name: name@, payload, options: options@ };
            match refusal(rows(old(jobs)@), request, id) {
                None => {
                    &&& stored == Ok::<(u128, bool), StoreError>(
                        (
                            enqueued_id(rows(old(jobs)@), request, id),
                            holder(rows(old(jobs)@), request.options.job_key) is None,
                        ),
                    )
                    &&& rows(final(jobs)@) == enqueued(
                        rows(old(jobs)@),
                        request,
                        run_at@,
                        id,
                        now@,
                    )
                },
                Some(error) => {
                    &&& stored == Err::<(u128, bool), StoreError>(error)
                    &&& final(jobs)@ == old(jobs)@
                },
            }
        }),
        jobs_sound(rows(final(jobs)@)),
{
    let ghost request = EnqueueRequestView { name: name@, payload, options: options@ };
    let ghost before = rows(jobs@);
    if options.max_attempts < 1 {
        return Err(StoreError::InvalidMaxAttempts);
    }
    match find_holder(jobs, &options.job_key) {
        Some(place) => {
            let held: u128 = jobs[place].id;
            let mode = options.job_key_mode;
            proof {
                lemma_enqueued_sound(before, request, run_at@, id, now@);
                assert(before[place as int] == jobs@[place as int]@);
            }
            if mode != JobKeyMode::Dedupe && jobs[place].status == JobStatus::Queued {
                jobs[place].name = name.to_owned();
                jobs[place].payload = payload;
                jobs[place].queue_name = options.queue_name;
                jobs[place].priority = options.priority;
                if mode == JobKeyMode::Replace {
                    jobs[place].run_at = run_at;
                }
                jobs[place].max_attempts = options.max_attempts;
                jobs[place].error = None;
            }
            assert(rows(jobs@) =~= enqueued(before, request, run_at@, id, now@));
            Ok((held, false))
        },
        None => {
            if find_job(jobs, id).is_some() {
                return Err(StoreError::DuplicateId);
            }
            proof {
                lemma_enqueued_sound(before, request, run_at@, id, now@);
            }
            jobs.push(
                Job {
                    id,
                    name: name.to_owned(),
                    status: JobStatus::Queued,
                    payload,
                    queue_name: options.queue_name,
                    priority: options.priority,
                    run_at,
                    job_key: options.job_key,
                    attempt: 0,
                    max_attempts: options.max_attempts,
                    locked_by: None,
                    locked_at: None,
                    error: None,
                    queued_at: now,
                    started_at: None,
                    finished_at: None,
                    created_at: now,
                    updated_at: now,
                },
            );
            assert(rows(jobs@) =~= enqueued(before, request, run_at@, id, now@));
            Ok((id, true))
        },
    }
}

/// Whether a change may turn a finished job into an unfinished one.
pub open spec fn revives(change: ChangeView) -> bool {
    change is Retry || change is BackOffLocked
}

/// Whether a change would turn a finished job into an unfinished one under a job key that another
/// unfinished job holds.
pub open spec fn key_clash(jobs: Seq<JobView>, change: ChangeView) -> bool {
    revives(change) && exists|i: int|
        0 <= i < jobs.len() && selects(change, #[trigger] jobs[i]) && !jobs[i].unfinished()
            && holder(jobs, jobs[i].job_key) is Some
}

/// The id of the one job that a change is about, where it is about one.
pub open spec fn change_id(change: ChangeView) -> Option<u128> {
    match change {
        ChangeView::Cancel { id } => Some(id),
        ChangeView::Retry { id } => Some(id),
        ChangeView::PermanentlyFail { id, reason } => Some(id),
        ChangeView::Complete { id } => Some(id),
        ChangeView::Reschedule { id, run_at } => Some(id),
        ChangeView::Release { workers, note } => None,
        ChangeView::ReleaseStale { before, note } => None,
        ChangeView::CompleteLocked { id, owner } => Some(id),
        ChangeView::RenewLock { id, owner } => Some(id),
        ChangeView::FailLocked { id, owner, error } => Some(id),
        ChangeView::BackOffLocked { id, owner, error } => Some(id),
    }
}

/// Whether a change is about any of the jobs.
pub open spec fn any_selected(jobs: Seq<JobView>, change: ChangeView) -> bool {
    exists|i: int| 0 <= i < jobs.len() && selects(change, #[trigger] jobs[i])
}

/// A change keeps the place, id, job key and queue name of every job, and starts none.
pub proof fn lemma_revised_keeps(jobs: Seq<JobView>, change: ChangeView, now: int, i: int)
    requires
        0 <= i < jobs.len(),
    ensures
        revised(jobs, change, now).len() == jobs.len(),
        revised(jobs, change, now)[i] == revised_job(change, jobs[i], now),
        revised(jobs, change, now)[i].id == jobs[i].id,
        revised(jobs, change, now)[i].job_key == jobs[i].job_key,
        revised(jobs, change, now)[i].queue_name == jobs[i].queue_name,
        revised(jobs, change, now)[i].max_attempts == jobs[i].max_attempts,
        revised(jobs, change, now)[i].status is Running ==> jobs[i].status is Running,
        revised(jobs, change, now)[i].unfinished() && !jobs[i].unfinished() ==> revives(change)
            && selects(change, jobs[i]),
{
}

/// A change without a clash of job keys leaves the table sound.
pub proof fn lemma_revised_sound(jobs: Seq<JobView>, change: ChangeView, now: int)
    requires
        jobs_sound(jobs),
        !key_clash(jobs, change),
    ensures
        jobs_sound(revised(jobs, change, now)),
{
    let after = revised(jobs, change, now);
    assert forall|i: int, j: int|
        0 <= i < after.len() && 0 <= j < after.len() && i != j implies (#[trigger] after[i]).id
        != (#[trigger] after[j]).id by {
        lemma_revised_keeps(jobs, change, now, i);
        lemma_revised_keeps(jobs, change, now, j);
        assert(jobs[i].id != jobs[j].id);
    }
    assert forall|i: int, j: int|
        0 <= i < after.len() && 0 <= j < after.len() && i != j && (#[trigger] after[i]).unfinished()
            && (#[trigger] after[j]).unfinished() && after[i].job_key is Some implies after[i].job_key
        != after[j].job_key by {
        lemma_revised_keeps(jobs, change, now, i);
        lemma_revised_keeps(jobs, change, now, j);
        if after[i].job_key == after[j].job_key {
            assert(jobs[i].id != jobs[j].id);
            if !jobs[i].unfinished() {
                assert(selects(change, jobs[i]));
                assert(jobs[j].unfinished());
                assert(holds_key(jobs[j], jobs[i].job_key));
                assert(holder(jobs, jobs[i].job_key) is Some);
            } else if !jobs[j].unfinished() {
                assert(selects(change, jobs[j]));
                assert(holds_key(jobs[i], jobs[j].job_key));
                assert(holder(jobs, jobs[j].job_key) is Some);
            }
        }
    }
    assert forall|i: int, j: int|
        0 <= i < after.len() && 0 <= j < after.len() && i != j && (#[trigger] after[i]).status
            is Running && (#[trigger] after[j]).status is Running && after[i].queue_name
            is Some implies after[i].queue_name != after[j].queue_name by {
        lemma_revised_keeps(jobs, change, now, i);
        lemma_revised_keeps(jobs, change, now, j);
    }
    assert forall|i: int| 0 <= i < after.len() implies 0 <= (#[trigger] after[i]).attempt && 1
        <= after[i].max_attempts by {
        lemma_revised_keeps(jobs, change, now, i);
        assert(jobs[i].attempt >= 0);
    }
}

/// A change about one job selects at most one.
pub proof fn lemma_one_selected(jobs: Seq<JobView>, change: ChangeView)
    requires
        ids_unique(jobs),
        change_id(change) is Some,
    ensures
        selected(jobs, change) == if any_selected(jobs, change) {
            1nat
        } else {
            0nat
        },
    decreases jobs.len(),
{
    if jobs.len() > 0 {
        let rest = jobs.drop_last();
        assert(ids_unique(rest)) by {
            assert forall|i: int, j: int|
                0 <= i < rest.len() && 0 <= j < rest.len() && i != j implies (#[trigger] rest[i]).id
                != (#[trigger] rest[j]).id by {
                assert(jobs[i].id != jobs[j].id);
            }
        }
        lemma_one_selected(rest, change);
        let last = jobs.len() - 1;
        if any_selected(rest, change) {
            let i = choose|i: int| 0 <= i < rest.len() && selects(change, #[trigger] rest[i]);
            assert(selects(change, jobs[i]));
            assert(jobs[i].id != jobs[last].id);
        } else if any_selected(jobs, change) {
            let i = choose|i: int| 0 <= i < jobs.len() && selects(change, #[trigger] jobs[i]);
            if i < last {
                assert(selects(change, rest[i]));
            }
        } else {
            assert(!selects(change, jobs[last]));
        }
    }
}

/// Makes a change that turns no finished job into an unfinished one, and counts the jobs it was
/// about.
pub fn apply_change(jobs: &mut Vec<Job>, change: &Change<'_>, now: Timestamp) -> (count: u64)
    requires
        jobs_sound(rows(old(jobs)@)),
        !revives(change@),
    ensures
        rows(final(jobs)@) == revised(rows(old(jobs)@), change@, now@),
        count == selected(rows(old(jobs)@), change@),
        jobs_sound(rows(final(jobs)@)),
{
    proof {
        lemma_revised_sound(rows(jobs@), change@, now@);
    }
    change.apply(jobs, now)
}

/// Makes a change to one job, and tells whether it was about any. Fails, and changes nothing, where
/// a job key would be held twice.
pub fn change_one(jobs: &mut Vec<Job>, id: u128, change: &Change<'_>, now: Timestamp) -> (done:
    Result<bool, StoreError>)
    requires
        jobs_sound(rows(old(jobs)@)),
        change_id(change@) == Some(id),
    ensures
        match done {
            Ok(done) => {
                &&& !key_clash(rows(old(jobs)@), change@)
                &&& done == any_selected(rows(old(jobs)@), change@)
                &&& rows(final(jobs)@) == revised(rows(old(jobs)@), change@, now@)
            },
            Err(error) => {
                &&& key_clash(rows(old(jobs)@), change@)
                &&& error is JobKeyHeld
                &&& final(jobs)@ == old(jobs)@
            },
        },
        jobs_sound(rows(final(jobs)@)),
{
    let ghost before = rows(jobs@);
    let reviving: bool = match change {
        Change::Retry { .. } => true,
        Change::BackOffLocked { .. } => true,
        _ => false,
    };
    if reviving {
        match find_job(jobs, id) {
            Some(place) => {
                assert(before[place as int] == jobs@[place as int]@);
                if change.selects(&jobs[place]) && jobs[place].status.is_terminal() && find_holder(
                    jobs,
                    &jobs[place].job_key,
                ).is_some() {
                    assert(selects(change@, before[place as int]));
                    return Err(StoreError::JobKeyHeld);
                }
                assert(!key_clash(before, change@)) by {
                    assert forall|i: int|
                        0 <= i < before.len() && selects(change@, #[trigger] before[i])
                            && !before[i].unfinished() implies holder(
                        before,
                        before[i].job_key,
                    ) is None by {
                        if i != place {
                            assert(before[i].id != before[place as int].id);
                        }
                    }
                }
            },
            None => {
                assert(!key_clash(before, change@));
            },
        }
    }
    proof {
        lemma_revised_sound(before, change@, now@);
        lemma_one_selected(before, change@);
    }
    let count: u64 = change.apply(jobs, now);
    Ok(count == 1)
}

/// Whether a named queue is free: no job of it is running.
pub open spec fn queue_free(jobs: Seq<JobView>, queue_name: Option<Seq<char>>) -> bool {
    queue_name is Some ==> forall|j: int|
        0 <= j < jobs.len() && (#[trigger] jobs[j]).status is Running ==> jobs[j].queue_name
            != queue_name
}

/// Whether the job at a place can be claimed at `now` by a worker for jobs with the given names.
pub open spec fn eligible(jobs: Seq<JobView>, names: Seq<Seq<char>>, now: int, place: int) -> bool {
    &&& 0 <= place < jobs.len()
    &&& jobs[place].status is Queued
    &&& jobs[place].run_at <= now
    &&& names.contains(jobs[place].name)
    &&& queue_free(jobs, jobs[place].queue_name)
}

/// Whether a job runs before another one that can be claimed too: by priority, then by the time
/// from which it may run, then by age.
pub open spec fn runs_before(one: JobView, other: JobView) -> bool {
    ||| one.priority < other.priority
    ||| one.priority == other.priority && one.run_at < other.run_at
    ||| one.priority == other.priority && one.run_at == other.run_at && one.created_at
        < other.created_at
}

/// Whether the job at a place is the one to claim. Of jobs that rank the same it is the one stored
/// first.
pub open spec fn is_next(jobs: Seq<JobView>, names: Seq<Seq<char>>, now: int, place: int) -> bool {
    &&& eligible(jobs, names, now, place)
    &&& forall|j: int|
        #[trigger] eligible(jobs, names, now, j) && j != place ==> runs_before(jobs[place], jobs[j])
            || !runs_before(jobs[j], jobs[place]) && place < j
}

/// The place of the job to claim.
pub open spec fn next_claim(jobs: Seq<JobView>, names: Seq<Seq<char>>, now: int) -> Option<int> {
    if exists|i: int| is_next(jobs, names, now, i) {
        Some(choose|i: int| is_next(jobs, names, now, i))
    } else {
        None
    }
}

/// A job that `owner` has claimed at `now`.
pub open spec fn claimed(job: JobView, owner: Seq<char>, now: int) -> JobView {
    JobView {
        status: JobStatus::Running,
        attempt: job.attempt + 1,
        locked_by: Some(owner),
        locked_at: Some(now),
        started_at: Some(now),
        finished_at: None,
        error: None,
        ..job
    }
}

/// There is one job to claim.
pub proof fn lemma_next_claim(jobs: Seq<JobView>, names: Seq<Seq<char>>, now: int, place: int)
    requires
        is_next(jobs, names, now, place),
    ensures
        next_claim(jobs, names, now) == Some(place),
{
    let found = choose|i: int| is_next(jobs, names, now, i);
    assert(eligible(jobs, names, now, found));
    assert(eligible(jobs, names, now, place));
}

fn is_queue_free(jobs: &Vec<Job>, queue_name: &Option<String>) -> (free: bool)
    ensures
        free == queue_free(rows(jobs@), text_of(*queue_name)),
{
    if queue_name.is_none() {
        return true;
    }
    let ghost all = rows(jobs@);
    let mut i: usize = 0;
    while i < jobs.len()
        invariant
            i <= jobs@.len(),
            all == rows(jobs@),
            queue_name is Some,
            forall|j: int|
                0 <= j < i && (#[trigger] all[j]).status is Running ==> all[j].queue_name
                    != text_of(*queue_name),
        decreases jobs@.len() - i,
    {
        assert(all[i as int] == jobs@[i as int]@);
        if jobs[i].status == JobStatus::Running && same_optional_text(
            &jobs[i].queue_name,
            queue_name,
        ) {
            return false;
        }
        i = i + 1;
    }
    true
}

fn is_ahead(one: &Job, other: &Job) -> (ahead: bool)
    ensures
        ahead == runs_before(one@, other@),
{
    if one.priority != other.priority {
        return one.priority < other.priority;
    }
    if one.run_at.is_before(other.run_at) {
        return true;
    }
    if other.run_at.is_before(one.run_at) {
        return false;
    }
    one.created_at.is_before(other.created_at)
}

/// Finds the job to claim.
pub fn find_next(jobs: &Vec<Job>, names: &Vec<String>, now: Timestamp) -> (place: Option<usize>)
    ensures
        match place {
            Some(place) => is_next(rows(jobs@), texts(names@), now@, place as int) && next_claim(
                rows(jobs@),
                texts(names@),
                now@,
            ) == Some(place as int),
            None => next_claim(rows(jobs@), texts(names@), now@) is None && forall|i: int|
                !(#[trigger] eligible(rows(jobs@), texts(names@), now@, i)),
        },
{
    let ghost all = rows(jobs@);
    let ghost wanted = texts(names@);
    let mut best: Option<usize> = None;
    let mut i: usize = 0;
    while i < jobs.len()
        invariant
            i <= jobs@.len(),
            all == rows(jobs@),
            wanted == texts(names@),
            match best {
                Some(b) => {
                    &&& b < i
                    &&& eligible(all, wanted, now@, b as int)
                    &&& forall|j: int|
                        #[trigger] eligible(all, wanted, now@, j) && j != b && j < i ==> runs_before(
                            all[b as int],
                            all[j],
                        ) || !runs_before(all[j], all[b as int]) && b < j
                },
                None => forall|j: int| #[trigger] eligible(all, wanted, now@, j) ==> j >= i,
            },
        decreases jobs@.len() - i,
    {
        assert(all[i as int] == jobs@[i as int]@);
        let candidate: bool = jobs[i].status == JobStatus::Queued && !now.is_before(jobs[i].run_at)
            && holds_text(names, jobs[i].name.as_str()) && is_queue_free(jobs, &jobs[i].queue_name);
        assert(candidate == eligible(all, wanted, now@, i as int));
        if candidate {
            match best {
                Some(b) => {
                    assert(all[b as int] == jobs@[b as int]@);
                    if is_ahead(&jobs[i], &jobs[b]) {
                        best = Some(i);
                    }
                },
                None => {
                    best = Some(i);
                },
            }
        }
        i = i + 1;
    }
    proof {
        match best {
            Some(b) => {
                lemma_next_claim(all, wanted, now@, b as int);
            },
            None => {},
        }
    }
    best
}

/// Claiming a job that can be claimed leaves the table sound.
pub proof fn lemma_claimed_sound(
    jobs: Seq<JobView>,
    names: Seq<Seq<char>>,
    owner: Seq<char>,
    now: int,
    place: int,
)
    requires
        jobs_sound(jobs),
        eligible(jobs, names, now, place),
    ensures
        jobs_sound(jobs.update(place, claimed(jobs[place], owner, now))),
{
    let after = jobs.update(place, claimed(jobs[place], owner, now));
    assert(jobs[place].max_attempts >= 1);
    assert forall|i: int| 0 <= i < after.len() implies {
        &&& (#[trigger] after[i]).id == jobs[i].id
        &&& after[i].job_key == jobs[i].job_key
        &&& after[i].queue_name == jobs[i].queue_name
        &&& after[i].unfinished() == jobs[i].unfinished()
        &&& (i != place ==> after[i] == jobs[i])
    } by {}
}

/// Claims the next job for `owner`. Where no job can be claimed, nothing changes.
pub fn claim_job(jobs: &mut Vec<Job>, owner: &str, names: &Vec<String>, now: Timestamp) -> (job:
    Result<Option<Job>, StoreError>)
    requires
        jobs_sound(rows(old(jobs)@)),
    ensures
        match next_claim(rows(old(jobs)@), texts(names@), now@) {
            None => {
                &&& job matches Ok(None)
                &&& final(jobs)@ == old(jobs)@
                &&& forall|i: int|
                    !(#[trigger] eligible(rows(old(jobs)@), texts(names@), now@, i))
            },
            Some(place) => {
                let next = claimed(rows(old(jobs)@)[place], owner@, now@);
                &&& is_next(rows(old(jobs)@), texts(names@), now@, place)
                &&& if rows(old(jobs)@)[place].attempt == i32::MAX {
                    job matches Err(StoreError::AttemptOverflow) && final(jobs)@ == old(jobs)@
                } else {
                    &&& job matches Ok(Some(job))
                    &&& job@ == next
                    &&& rows(final(jobs)@) == rows(old(jobs)@).update(place, next)
                }
            },
        },
        jobs_sound(rows(final(jobs)@)),
{
    let ghost before = rows(jobs@);
    match find_next(jobs, names, now) {
        None => Ok(None),
        Some(place) => {
            assert(before[place as int] == jobs@[place as int]@);
            if jobs[place].attempt == i32::MAX {
                return Err(StoreError::AttemptOverflow);
            }
            proof {
                lemma_claimed_sound(before, texts(names@), owner@, now@, place as int);
            }
            jobs[place].status = JobStatus::Running;
            jobs[place].attempt = jobs[place].attempt + 1;
            jobs[place].locked_by = Some(owner.to_owned());
            jobs[place].locked_at = Some(now);
            jobs[place].started_at = Some(now);
            jobs[place].finished_at = None;
            jobs[place].error = None;
            assert(rows(jobs@) =~= before.update(
                place as int,
                claimed(before[place as int], owner@, now@),
            ));
            Ok(Some(jobs[place].clone()))
        },
    }
}

} // verus!
