//! Many jobs enqueued as one.

use vstd::prelude::*;
use vstd::string::StringExecFns;

use crate::error::{EnqueueError, StoreError};
use crate::job::{requested, rows, EnqueueRequest, EnqueueRequestView, Job, JobKeyMode, JobView};
use crate::search::{first_such, lemma_first_such};
use crate::table::{
    enqueued, enqueued_id, holder, holds_key, insert_job, jobs_sound, lemma_enqueued_sound,
    lemma_holder, new_job, refusal,
};
use crate::text::{same_optional_text, text_of};
use crate::time::Timestamp;

verus! {

/// A batch of requests, each with the time from which its job may run and the id that its job gets
/// if it is a new one, at the time `now`.
pub struct Batch {
    pub requests: Seq<EnqueueRequestView>,
    pub run_ats: Seq<int>,
    pub ids: Seq<u128>,
    pub now: int,
}

/// Whether a request repeats the job key of an earlier one.
pub open spec fn repeats_key(requests: Seq<EnqueueRequestView>, place: int) -> bool {
    requests[place].options.job_key is Some && exists|earlier: int|
        0 <= earlier < place && (#[trigger] requests[earlier]).options.job_key
            == requests[place].options.job_key
}

/// The first request that repeats the job key of an earlier one.
pub open spec fn first_repeat(requests: Seq<EnqueueRequestView>) -> Option<int> {
    first_such(|place: int| repeats_key(requests, place), 0, requests.len() as int)
}

/// The places of the first `count` requests that have a mode, in order.
pub open spec fn places(requests: Seq<EnqueueRequestView>, mode: JobKeyMode, count: int) -> Seq<int>
    decreases count,
{
    if count <= 0 {
        Seq::empty()
    } else if requests[count - 1].options.job_key_mode == mode {
        places(requests, mode, count - 1).push(count - 1)
    } else {
        places(requests, mode, count - 1)
    }
}

/// The order in which requests are stored: mode by mode, and as they stand in the batch.
pub open spec fn store_order(requests: Seq<EnqueueRequestView>) -> Seq<int> {
    places(requests, JobKeyMode::Dedupe, requests.len() as int) + places(
        requests,
        JobKeyMode::Replace,
        requests.len() as int,
    ) + places(requests, JobKeyMode::PreserveRunAt, requests.len() as int)
}

/// The jobs after the requests at some places, one after the other.
pub open spec fn stored(jobs: Seq<JobView>, batch: Batch, order: Seq<int>) -> Seq<JobView>
    decreases order.len(),
{
    if order.len() == 0 {
        jobs
    } else {
        let place = order.last();
        enqueued(
            stored(jobs, batch, order.drop_last()),
            batch.requests[place],
            batch.run_ats[place],
            batch.ids[place],
            batch.now,
        )
    }
}

/// Why one of the requests at some places is refused, where one is.
pub open spec fn failure(jobs: Seq<JobView>, batch: Batch, order: Seq<int>) -> Option<StoreError>
    decreases order.len(),
{
    if order.len() == 0 {
        None
    } else {
        match failure(jobs, batch, order.drop_last()) {
            Some(error) => Some(error),
            None => refusal(
                stored(jobs, batch, order.drop_last()),
                batch.requests[order.last()],
                batch.ids[order.last()],
            ),
        }
    }
}

/// The jobs after a whole batch.
pub open spec fn batch_stored(jobs: Seq<JobView>, batch: Batch) -> Seq<JobView> {
    stored(jobs, batch, store_order(batch.requests))
}

/// Why a batch without repeated job keys is refused, where it is.
pub open spec fn batch_failure(jobs: Seq<JobView>, batch: Batch) -> Option<StoreError> {
    failure(jobs, batch, store_order(batch.requests))
}

/// The id of the unfinished job that holds a job key.
pub open spec fn holder_id(jobs: Seq<JobView>, key: Option<Seq<char>>) -> u128 {
    jobs[holder(jobs, key)->0].id
}

/// The ids that answer a batch after which the table holds `jobs`: for a request with a job key,
/// that of the job which holds the key.
pub open spec fn batch_ids(jobs: Seq<JobView>, batch: Batch) -> Seq<u128> {
    Seq::new(
        batch.requests.len(),
        |place: int|
            if batch.requests[place].options.job_key is Some {
                holder_id(jobs, batch.requests[place].options.job_key)
            } else {
                batch.ids[place]
            },
    )
}

/// Storing in two parts is storing one after the other.
proof fn lemma_stored_in_parts(jobs: Seq<JobView>, batch: Batch, first: Seq<int>, second: Seq<int>)
    ensures
        stored(jobs, batch, first + second) == stored(stored(jobs, batch, first), batch, second),
        failure(jobs, batch, first + second) == match failure(jobs, batch, first) {
            Some(error) => Some(error),
            None => failure(stored(jobs, batch, first), batch, second),
        },
    decreases second.len(),
{
    if second.len() == 0 {
        assert(first + second =~= first);
    } else {
        lemma_stored_in_parts(jobs, batch, first, second.drop_last());
        assert((first + second).drop_last() =~= first + second.drop_last());
        assert((first + second).last() == second.last());
    }
}

/// What is refused stays refused however much more is asked for.
proof fn lemma_failure_stays(jobs: Seq<JobView>, batch: Batch, mode: JobKeyMode, few: int, many: int)
    requires
        0 <= few <= many,
        failure(jobs, batch, places(batch.requests, mode, few)) is Some,
    ensures
        failure(jobs, batch, places(batch.requests, mode, many)) == failure(
            jobs,
            batch,
            places(batch.requests, mode, few),
        ),
    decreases many - few,
{
    if few < many {
        lemma_failure_stays(jobs, batch, mode, few, many - 1);
        let fewer = places(batch.requests, mode, many - 1);
        assert(fewer.push(many - 1).drop_last() =~= fewer);
    }
}

/// After a request its job key is held by the job that answers it, and other job keys are held as
/// before.
pub proof fn lemma_holder_after(
    jobs: Seq<JobView>,
    request: EnqueueRequestView,
    run_at: int,
    id: u128,
    now: int,
    key: Option<Seq<char>>,
)
    requires
        jobs_sound(jobs),
        refusal(jobs, request, id) is None,
        key is Some,
    ensures
        key == request.options.job_key ==> {
            let after = enqueued(jobs, request, run_at, id, now);
            holder(after, key) is Some && holder_id(after, key) == enqueued_id(jobs, request, id)
        },
        key != request.options.job_key && holder(jobs, key) is Some ==> {
            let after = enqueued(jobs, request, run_at, id, now);
            holder(after, key) is Some && holder_id(after, key) == holder_id(jobs, key)
        },
{
    let after = enqueued(jobs, request, run_at, id, now);
    lemma_enqueued_sound(jobs, request, run_at, id, now);
    if key == request.options.job_key {
        match holder(jobs, key) {
            Some(place) => {
                assert(0 <= place < jobs.len() && holds_key(jobs[place], key));
                assert(holds_key(after[place], key));
                lemma_holder(after, key, place);
            },
            None => {
                assert(after[jobs.len() as int] == new_job(request, run_at, id, now));
                lemma_holder(after, key, jobs.len() as int);
            },
        }
    } else if holder(jobs, key) is Some {
        let place = holder(jobs, key)->0;
        assert(0 <= place < jobs.len() && holds_key(jobs[place], key));
        assert(holds_key(after[place], key));
        lemma_holder(after, key, place);
    }
}

/// Finds the first request that repeats the job key of an earlier one.
fn find_repeat(requests: &[EnqueueRequest]) -> (place: Option<usize>)
    ensures
        match place {
            Some(place) => place < requests@.len() && first_repeat(requested(requests@)) == Some(
                place as int,
            ) && requests@[place as int].options.job_key is Some,
            None => first_repeat(requested(requests@)) is None && forall|i: int|
                0 <= i < requests@.len() ==> !(#[trigger] repeats_key(requested(requests@), i)),
        },
{
    let ghost all = requested(requests@);
    let ghost test = |place: int| repeats_key(all, place);
    let mut i: usize = 0;
    while i < requests.len()
        invariant
            i <= requests@.len(),
            all == requested(requests@),
            test == (|place: int| repeats_key(all, place)),
            forall|k: int| 0 <= k < i ==> !(#[trigger] repeats_key(all, k)),
        decreases requests@.len() - i,
    {
        assert(all[i as int] == requests@[i as int]@);
        if requests[i].options.job_key.is_some() {
            let mut j: usize = 0;
            while j < i
                invariant
                    j <= i < requests@.len(),
                    all == requested(requests@),
                    test == (|place: int| repeats_key(all, place)),
                    forall|k: int| 0 <= k < i ==> !(#[trigger] repeats_key(all, k)),
                    requests@[i as int].options.job_key is Some,
                    all[i as int] == requests@[i as int]@,
                    forall|k: int|
                        0 <= k < j ==> (#[trigger] all[k]).options.job_key
                            != all[i as int].options.job_key,
                decreases i - j,
            {
                assert(all[j as int] == requests@[j as int]@);
                if same_optional_text(&requests[j].options.job_key, &requests[i].options.job_key) {
                    proof {
                        assert(repeats_key(all, i as int));
                        assert forall|k: int| 0 <= k < i implies !(#[trigger] test(k)) by {
                            assert(!repeats_key(all, k));
                        }
                        lemma_first_such(test, 0, all.len() as int, i as int);
                    }
                    return Some(i);
                }
                j = j + 1;
            }
        }
        assert(!repeats_key(all, i as int));
        i = i + 1;
    }
    proof {
        assert forall|k: int| 0 <= k < i implies !(#[trigger] test(k)) by {
            assert(!repeats_key(all, k));
        }
        lemma_first_such(test, 0, all.len() as int, i as int);
    }
    None
}

/// What the rows that come back from a statement hold.
pub open spec fn replied(rows: Seq<(u128, Option<String>)>) -> Seq<(u128, Option<Seq<char>>)> {
    rows.map_values(|row: (u128, Option<String>)| (row.0, text_of(row.1)))
}

/// The id of the last row that came back for a job key.
pub open spec fn reply_id(reply: Seq<(u128, Option<Seq<char>>)>, key: Option<Seq<char>>) -> Option<
    u128,
>
    decreases reply.len(),
{
    if reply.len() == 0 {
        None
    } else if reply.last().1 == key {
        Some(reply.last().0)
    } else {
        reply_id(reply.drop_last(), key)
    }
}

/// What is said of a job key for which no row came back.
pub open spec fn missing_row_text(key: Seq<char>) -> Seq<char> {
    "batch insert returned no row for job key `"@ + key + "`"@
}

/// Whether no row came back for the job key of a request.
pub open spec fn unanswered(
    requests: Seq<EnqueueRequestView>,
    reply: Seq<(u128, Option<Seq<char>>)>,
    place: int,
) -> bool {
    requests[place].options.job_key is Some && reply_id(reply, requests[place].options.job_key)
        is None
}

fn find_reply(reply: &Vec<(u128, Option<String>)>, key: &Option<String>) -> (id: Option<u128>)
    ensures
        id == reply_id(replied(reply@), text_of(*key)),
{
    let ghost all = replied(reply@);
    let mut i: usize = reply.len();
    assert(all.take(i as int) =~= all);
    while i > 0
        invariant
            i <= reply@.len(),
            all == replied(reply@),
            reply_id(all, text_of(*key)) == reply_id(all.take(i as int), text_of(*key)),
        decreases i,
    {
        i = i - 1;
        assert(all.take(i + 1).drop_last() =~= all.take(i as int));
        assert(all.take(i + 1).last() == all[i as int]);
        assert(all[i as int] == (reply@[i as int].0, text_of(reply@[i as int].1)));
        if same_optional_text(&reply[i].1, key) {
            return Some(reply[i].0);
        }
    }
    None
}

/// Puts the ids that came back for a batch into the order of its requests. Fails where no row came
/// back for a job key.
pub fn order_ids(
    requests: &[EnqueueRequest],
    ids: &Vec<u128>,
    reply: &Vec<(u128, Option<String>)>,
) -> (ordered: Result<Vec<u128>, StoreError>)
    requires
        ids@.len() == requests@.len(),
    ensures
        match ordered {
            Ok(ordered) => {
                &&& ordered@.len() == requests@.len()
                &&& forall|i: int|
                    0 <= i < ordered@.len() ==> {
                        let key = requested(requests@)[i].options.job_key;
                        if key is Some {
                            Some(#[trigger] ordered@[i]) == reply_id(replied(reply@), key)
                        } else {
                            ordered@[i] == ids@[i]
                        }
                    }
                &&& forall|i: int|
                    0 <= i < requests@.len() ==> !(#[trigger] unanswered(
                        requested(requests@),
                        replied(reply@),
                        i,
                    ))
            },
            Err(error) => exists|i: int|
                {
                    &&& 0 <= i < requests@.len()
                    &&& #[trigger] unanswered(requested(requests@), replied(reply@), i)
                    &&& forall|j: int|
                        0 <= j < i ==> !(#[trigger] unanswered(
                            requested(requests@),
                            replied(reply@),
                            j,
                        ))
                    &&& error matches StoreError::Protocol(message)
                    &&& message@ == missing_row_text(requested(requests@)[i].options.job_key->0)
                },
        },
{
    let ghost all = requested(requests@);
    let ghost back = replied(reply@);
    let mut ordered: Vec<u128> = Vec::new();
    let mut i: usize = 0;
    while i < requests.len()
        invariant
            i <= requests@.len(),
            ids@.len() == requests@.len(),
            all == requested(requests@),
            back == replied(reply@),
            ordered@.len() == i,
            forall|k: int|
                0 <= k < i ==> {
                    let key = all[k].options.job_key;
                    if key is Some {
                        Some(#[trigger] ordered@[k]) == reply_id(back, key)
                    } else {
                        ordered@[k] == ids@[k]
                    }
                },
            forall|k: int| 0 <= k < i ==> !(#[trigger] unanswered(all, back, k)),
        decreases requests@.len() - i,
    {
        assert(all[i as int] == requests@[i as int]@);
        match &requests[i].options.job_key {
            Some(key) => match find_reply(reply, &requests[i].options.job_key) {
                Some(id) => {
                    ordered.push(id);
                },
                None => {
                    assert(unanswered(all, back, i as int));
                    return Err(
                        StoreError::Protocol(
                            "batch insert returned no row for job key `".to_owned().concat(
                                key.as_str(),
                            ).concat("`"),
                        ),
                    );
                },
            },
            None => {
                ordered.push(ids[i]);
            },
        }
        i = i + 1;
    }
    Ok(ordered)
}

fn copy_jobs(jobs: &Vec<Job>) -> (copy: Vec<Job>)
    ensures
        rows(copy@) == rows(jobs@),
{
    let mut copy: Vec<Job> = Vec::new();
    let mut i: usize = 0;
    while i < jobs.len()
        invariant
            i <= jobs@.len(),
            copy@.len() == i,
            forall|j: int| 0 <= j < i ==> (#[trigger] copy@[j])@ == jobs@[j]@,
        decreases jobs@.len() - i,
    {
        copy.push(jobs[i].clone());
        i = i + 1;
    }
    assert(rows(copy@) =~= rows(jobs@));
    copy
}

/// How many modes are stored before a mode.
spec fn mode_rank(mode: JobKeyMode) -> int {
    match mode {
        JobKeyMode::Dedupe => 0,
        JobKeyMode::Replace => 1,
        JobKeyMode::PreserveRunAt => 2,
    }
}

/// Whether a row with the right id came back for the job key of every request of an earlier mode,
/// and of the first `count` requests of a mode.
spec fn settled(
    jobs: Seq<JobView>,
    requests: Seq<EnqueueRequestView>,
    reply: Seq<(u128, Option<Seq<char>>)>,
    rank: int,
    count: int,
) -> bool {
    forall|t: int|
        0 <= t < requests.len() && (#[trigger] requests[t]).options.job_key is Some && (mode_rank(
            requests[t].options.job_key_mode,
        ) < rank || mode_rank(requests[t].options.job_key_mode) == rank && t < count) ==> {
            let key = requests[t].options.job_key;
            holder(jobs, key) is Some && reply_id(reply, key) == Some(holder_id(jobs, key))
        }
}

/// What a batch asks for.
pub open spec fn batch_of(
    requests: Seq<EnqueueRequest>,
    run_ats: Seq<Timestamp>,
    ids: Seq<u128>,
    now: Timestamp,
) -> Batch {
    Batch {
        requests: requested(requests),
        run_ats: run_ats.map_values(|run_at: Timestamp| run_at@),
        ids,
        now: now@,
    }
}

/// Stores the requests of one mode, and notes what came back for each.
fn store_mode(
    jobs: &mut Vec<Job>,
    requests: &[EnqueueRequest],
    run_ats: &Vec<Timestamp>,
    ids: &Vec<u128>,
    now: Timestamp,
    mode: JobKeyMode,
    reply: &mut Vec<(u128, Option<String>)>,
) -> (result: Result<(), StoreError>)
    requires
        jobs_sound(rows(old(jobs)@)),
        run_ats@.len() == requests@.len(),
        ids@.len() == requests@.len(),
        forall|i: int|
            0 <= i < requests@.len() ==> !(#[trigger] repeats_key(requested(requests@), i)),
        settled(
            rows(old(jobs)@),
            requested(requests@),
            replied(old(reply)@),
            mode_rank(mode),
            0,
        ),
    ensures
        ({
            let batch = batch_of(requests@, run_ats@, ids@, now);
            let order = places(batch.requests, mode, requests@.len() as int);
            match result {
                Ok(()) => {
                    &&& failure(rows(old(jobs)@), batch, order) is None
                    &&& rows(final(jobs)@) == stored(rows(old(jobs)@), batch, order)
                    &&& jobs_sound(rows(final(jobs)@))
                    &&& settled(
                        rows(final(jobs)@),
                        batch.requests,
                        replied(final(reply)@),
                        mode_rank(mode) + 1,
                        0,
                    )
                },
                Err(error) => failure(rows(old(jobs)@), batch, order) == Some(error),
            }
        }),
{
    let ghost batch = batch_of(requests@, run_ats@, ids@, now);
    let ghost start = rows(jobs@);
    let mut i: usize = 0;
    while i < requests.len()
        invariant
            i <= requests@.len(),
            run_ats@.len() == requests@.len(),
            ids@.len() == requests@.len(),
            batch == batch_of(requests@, run_ats@, ids@, now),
            start == rows(old(jobs)@),
            forall|k: int|
                0 <= k < requests@.len() ==> !(#[trigger] repeats_key(batch.requests, k)),
            failure(start, batch, places(batch.requests, mode, i as int)) is None,
            rows(jobs@) == stored(start, batch, places(batch.requests, mode, i as int)),
            jobs_sound(rows(jobs@)),
            settled(rows(jobs@), batch.requests, replied(reply@), mode_rank(mode), i as int),
        decreases requests@.len() - i,
    {
        let ghost order = places(batch.requests, mode, i as int);
        let ghost before = rows(jobs@);
        let ghost request = requests@[i as int]@;
        assert(batch.requests[i as int] == request);
        if requests[i].options.job_key_mode == mode {
            proof {
                assert(order.push(i as int).drop_last() =~= order);
                assert(batch.run_ats[i as int] == run_ats@[i as int]@);
            }
            match insert_job(
                jobs,
                requests[i].name.as_str(),
                requests[i].payload.clone(),
                requests[i].options.clone(),
                run_ats[i],
                ids[i],
                now,
            ) {
                Ok((id, _inserted)) => {
                    let ghost said = replied(reply@);
                    reply.push((id, requests[i].options.job_key.clone()));
                    proof {
                        let all = batch.requests;
                        let after = rows(jobs@);
                        let said_now = replied(reply@);
                        assert(said_now.drop_last() =~= said);
                        assert(said_now.last() == (id, request.options.job_key));
                        assert forall|t: int|
                            0 <= t < all.len() && (#[trigger] all[t]).options.job_key is Some && (
                            mode_rank(all[t].options.job_key_mode) < mode_rank(mode) || mode_rank(
                                all[t].options.job_key_mode,
                            ) == mode_rank(mode) && t < i + 1) implies {
                            let key = all[t].options.job_key;
                            holder(after, key) is Some && reply_id(said_now, key) == Some(
                                holder_id(after, key),
                            )
                        } by {
                            let key = all[t].options.job_key;
                            lemma_holder_after(
                                before,
                                request,
                                run_ats@[i as int]@,
                                ids@[i as int],
                                now@,
                                key,
                            );
                            if t != i {
                                if key == request.options.job_key {
                                    if t < i {
                                        assert(repeats_key(all, i as int));
                                    } else {
                                        assert(all[i as int].options.job_key == key);
                                        assert(repeats_key(all, t));
                                    }
                                }
                            }
                        }
                    }
                },
                Err(error) => {
                    proof {
                        assert(places(batch.requests, mode, i + 1) == order.push(i as int));
                        lemma_failure_stays(
                            start,
                            batch,
                            mode,
                            i + 1,
                            requests@.len() as int,
                        );
                    }
                    return Err(error);
                },
            }
        }
        i = i + 1;
    }
    Ok(())
}

/// Stores a batch of jobs: all of them, or none. Returns their ids in the order of the requests.
pub fn insert_job_batch(
    jobs: &mut Vec<Job>,
    requests: &[EnqueueRequest],
    run_ats: &Vec<Timestamp>,
    ids: &Vec<u128>,
    now: Timestamp,
) -> (ordered: Result<Vec<u128>, EnqueueError>)
    requires
        jobs_sound(rows(old(jobs)@)),
        run_ats@.len() == requests@.len(),
        ids@.len() == requests@.len(),
    ensures
        ({
            let batch = batch_of(requests@, run_ats@, ids@, now);
            match first_repeat(batch.requests) {
                Some(place) => {
                    &&& ordered matches Err(EnqueueError::DuplicateJobKey(key))
                    &&& Some(key@) == batch.requests[place].options.job_key
                    &&& final(jobs)@ == old(jobs)@
                },
                None => match batch_failure(rows(old(jobs)@), batch) {
                    Some(error) => {
                        &&& ordered == Err::<Vec<u128>, EnqueueError>(EnqueueError::Database(error))
                        &&& final(jobs)@ == old(jobs)@
                    },
                    None => {
                        &&& ordered matches Ok(ordered)
                        &&& rows(final(jobs)@) == batch_stored(rows(old(jobs)@), batch)
                        &&& ordered@ == batch_ids(rows(final(jobs)@), batch)
                    },
                },
            }
        }),
        jobs_sound(rows(final(jobs)@)),
{
    let ghost batch = batch_of(requests@, run_ats@, ids@, now);
    let ghost start = rows(jobs@);
    if let Some(place) = find_repeat(requests) {
        assert(batch.requests[place as int] == requests@[place as int]@);
        if let Some(key) = &requests[place].options.job_key {
            return Err(EnqueueError::DuplicateJobKey(key.clone()));
        }
    }
    let mut work: Vec<Job> = copy_jobs(jobs);
    let mut reply: Vec<(u128, Option<String>)> = Vec::new();
    let ghost n = requests@.len() as int;
    let ghost one = places(batch.requests, JobKeyMode::Dedupe, n);
    let ghost two = places(batch.requests, JobKeyMode::Replace, n);
    let ghost three = places(batch.requests, JobKeyMode::PreserveRunAt, n);
    proof {
        lemma_stored_in_parts(start, batch, one, two);
        lemma_stored_in_parts(start, batch, one + two, three);
    }
    match store_mode(&mut work, requests, run_ats, ids, now, JobKeyMode::Dedupe, &mut reply) {
        Ok(()) => {},
        Err(error) => return Err(EnqueueError::Database(error)),
    }
    match store_mode(&mut work, requests, run_ats, ids, now, JobKeyMode::Replace, &mut reply) {
        Ok(()) => {},
        Err(error) => return Err(EnqueueError::Database(error)),
    }
    match store_mode(&mut work, requests, run_ats, ids, now, JobKeyMode::PreserveRunAt, &mut reply) {
        Ok(()) => {},
        Err(error) => return Err(EnqueueError::Database(error)),
    }
    match order_ids(requests, ids, &reply) {
        Ok(ordered) => {
            assert(ordered@ =~= batch_ids(rows(work@), batch)) by {
                assert forall|i: int| 0 <= i < ordered@.len() implies #[trigger] ordered@[i]
                    == batch_ids(rows(work@), batch)[i] by {
                    assert(batch.requests[i] == requests@[i]@);
                }
            }
            *jobs = work;
            Ok(ordered)
        },
        Err(error) => {
            proof {
                let i = choose|i: int|
                    0 <= i < requests@.len() && #[trigger] unanswered(
                        batch.requests,
                        replied(reply@),
                        i,
                    );
                assert(batch.requests[i].options.job_key is Some);
                assert(false);
            }
            Err(EnqueueError::Database(error))
        },
    }
}

} // verus!
