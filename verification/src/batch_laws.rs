//! What a batch of requests does to the stored jobs, job by job.

use vstd::prelude::*;

use crate::batch::{
    batch_of, batch_stored, failure, first_repeat, missing_row_text, places, repeats_key, reply_id,
    store_order, stored, unanswered, Batch,
};
use crate::error::{EnqueueError, StoreError};
use crate::job::{EnqueueRequest, EnqueueRequestView, JobKeyMode, JobView};
use crate::job_laws::{is_new_job, keeps_key, takes_on};
use crate::laws::{law_batch_ids_differ, lemma_store_order_complete, lemma_stored_sound};
use crate::part_laws::lemma_places_within;
use crate::queue::{batch_outcome, keeps_run_ats, QueueView};
use crate::search::lemma_first_such_holds;
use crate::table::{holder, holds_key, jobs_sound, lemma_holder, place_of, refusal};
use crate::time::{Timestamp, MAX_NANOS, MIN_NANOS};

verus! {

/// Whether a job is not finished and has the job key of the request at a place.
pub open spec fn meets(batch: Batch, place: int, job: JobView) -> bool {
    batch.requests[place].options.job_key matches Some(key) && keeps_key(job, key)
}

/// Whether a job is one that the request at a place of a batch has just made.
pub open spec fn made_by(batch: Batch, place: int, job: JobView) -> bool {
    is_new_job(
        job,
        batch.requests[place],
        batch.run_ats[place],
        batch.ids[place],
        batch.now,
    )
}

/// Whether no job has the job key of the request at a place.
pub open spec fn meets_none(batch: Batch, place: int, jobs: Seq<JobView>) -> bool {
    forall|i: int| 0 <= i < jobs.len() ==> !meets(batch, place, #[trigger] jobs[i])
}

/// Whether one of the requests at some places has the job key of a job.
pub open spec fn met(batch: Batch, order: Seq<int>, job: JobView) -> bool {
    exists|turn: int| 0 <= turn < order.len() && meets(batch, #[trigger] order[turn], job)
}

/// Whether a job is one that a request at some places, whose job key no job had, has just made.
pub open spec fn made(batch: Batch, order: Seq<int>, before: Seq<JobView>, job: JobView) -> bool {
    exists|turn: int|
        {
            &&& 0 <= turn < order.len()
            &&& made_by(batch, #[trigger] order[turn], job)
            &&& meets_none(batch, order[turn], before)
        }
}

/// Whether one of the jobs from `start` on is one that the request at a place has just made.
pub open spec fn has_made(batch: Batch, place: int, start: int, jobs: Seq<JobView>) -> bool {
    exists|at: int| start <= at < jobs.len() && made_by(batch, place, #[trigger] jobs[at])
}

/// Whether the requests at some places have done to the jobs what they ask for: a job with one of
/// their job keys took that request on, every other one stayed, and each request that met none made a
/// new job.
pub open spec fn carried_out(
    before: Seq<JobView>,
    after: Seq<JobView>,
    batch: Batch,
    order: Seq<int>,
) -> bool {
    &&& before.len() <= after.len()
    &&& forall|i: int, turn: int|
        0 <= i < before.len() && 0 <= turn < order.len() && meets(
            batch,
            #[trigger] order[turn],
            #[trigger] before[i],
        ) ==> takes_on(
            after[i],
            before[i],
            batch.requests[order[turn]],
            batch.run_ats[order[turn]],
        )
    &&& forall|i: int|
        0 <= i < before.len() && !met(batch, order, before[i]) ==> #[trigger] after[i] == before[i]
    &&& forall|turn: int|
        0 <= turn < order.len() && meets_none(batch, #[trigger] order[turn], before) ==> has_made(
            batch,
            order[turn],
            before.len() as int,
            after,
        )
    &&& forall|at: int|
        before.len() <= at < after.len() ==> made(batch, order, before, #[trigger] after[at])
}

/// Whether no two requests of a batch have the same job key.
pub open spec fn keys_differ(requests: Seq<EnqueueRequestView>) -> bool {
    forall|i: int, j: int|
        0 <= i < j < requests.len() && (#[trigger] requests[i]).options.job_key is Some
            ==> requests[i].options.job_key != (#[trigger] requests[j]).options.job_key
}

/// Storing the requests at some places, none of them twice, carries them out.
proof fn lemma_carried_out(jobs: Seq<JobView>, batch: Batch, order: Seq<int>)
    requires
        jobs_sound(jobs),
        keys_differ(batch.requests),
        failure(jobs, batch, order) is None,
        forall|i: int| 0 <= i < order.len() ==> 0 <= #[trigger] order[i] < batch.requests.len(),
        forall|i: int, j: int| 0 <= i < j < order.len() ==> #[trigger] order[i] != #[trigger] order[j],
    ensures
        carried_out(jobs, stored(jobs, batch, order), batch, order),
    decreases order.len(),
{
    if order.len() > 0 {
        let rest = order.drop_last();
        let count = rest.len() as int;
        let place = order.last();
        let key = batch.requests[place].options.job_key;
        assert forall|i: int| 0 <= i < rest.len() implies #[trigger] rest[i] == order[i] by {}
        lemma_carried_out(jobs, batch, rest);
        lemma_stored_sound(jobs, batch, rest);
        assert(rest.take(count) =~= rest);
        let middle = stored(jobs, batch, rest);
        let after = stored(jobs, batch, order);
        assert(jobs_sound(middle));
        assert forall|turn: int| 0 <= turn < count && key is Some implies batch.requests[
        #[trigger] order[turn]].options.job_key != key by {
            assert(order[turn] != order[count]);
            if order[turn] < place {
                assert(batch.requests[order[turn]].options.job_key is Some
                    ==> batch.requests[order[turn]].options.job_key
                    != batch.requests[place].options.job_key);
            } else {
                assert(batch.requests[place].options.job_key is Some
                    ==> batch.requests[place].options.job_key
                    != batch.requests[order[turn]].options.job_key);
            }
        }
        assert forall|i: int| 0 <= i < jobs.len() && meets(batch, place, jobs[i]) implies middle[i]
            == jobs[i] by {
            if met(batch, rest, jobs[i]) {
                let turn = choose|turn: int|
                    0 <= turn < rest.len() && meets(batch, #[trigger] rest[turn], jobs[i]);
                assert(rest[turn] == order[turn]);
            }
        }
        assert forall|at: int| jobs.len() <= at < middle.len() implies !meets(
            batch,
            place,
            #[trigger] middle[at],
        ) by {
            assert(made(batch, rest, jobs, middle[at]));
            let turn = choose|turn: int|
                {
                    &&& 0 <= turn < rest.len()
                    &&& made_by(batch, #[trigger] rest[turn], middle[at])
                    &&& meets_none(batch, rest[turn], jobs)
                };
            assert(rest[turn] == order[turn]);
        }
        assert forall|i: int| 0 <= i < jobs.len() implies {
            &&& middle[i].job_key == jobs[i].job_key
            &&& #[trigger] middle[i].status == jobs[i].status
        } by {
            if met(batch, rest, jobs[i]) {
                let turn = choose|turn: int|
                    0 <= turn < rest.len() && meets(batch, #[trigger] rest[turn], jobs[i]);
                assert(takes_on(
                    middle[i],
                    jobs[i],
                    batch.requests[rest[turn]],
                    batch.run_ats[rest[turn]],
                ));
            } else {
                assert(middle[i] == jobs[i]);
            }
        }
        if meets_none(batch, place, jobs) {
            if let Some(found) = holder(middle, key) {
                assert(0 <= found < middle.len() && holds_key(middle[found], key));
                assert(meets(batch, place, middle[found]));
                if found < jobs.len() {
                    assert(!meets(batch, place, jobs[found]));
                }
                assert(false);
            }
            let new = after[middle.len() as int];
            assert(after.len() == middle.len() + 1);
            assert(made_by(batch, place, new));
            assert(order[count] == place);
        } else {
            let held = choose|i: int|
                0 <= i < jobs.len() && meets(batch, place, #[trigger] jobs[i]);
            assert(holds_key(middle[held], key));
            lemma_holder(middle, key, held);
            assert(after.len() == middle.len());
            assert(middle[held] == jobs[held]);
            assert(takes_on(
                after[held],
                jobs[held],
                batch.requests[place],
                batch.run_ats[place],
            ));
            assert forall|i: int| 0 <= i < jobs.len() && i != held implies !meets(
                batch,
                place,
                #[trigger] jobs[i],
            ) by {
                if meets(batch, place, jobs[i]) {
                    assert(holds_key(jobs[i], key) && holds_key(jobs[held], key));
                    lemma_holder(jobs, key, i);
                    lemma_holder(jobs, key, held);
                }
            }
        }
        lemma_carried_on(jobs, middle, after, batch, order);
    }
}

/// What was carried out stays so when one more request is stored.
proof fn lemma_carried_on(
    jobs: Seq<JobView>,
    middle: Seq<JobView>,
    after: Seq<JobView>,
    batch: Batch,
    order: Seq<int>,
)
    requires
        order.len() > 0,
        carried_out(jobs, middle, batch, order.drop_last()),
        forall|turn: int|
            0 <= turn < order.len() - 1 && batch.requests[order.last()].options.job_key is Some
                ==> batch.requests[#[trigger] order[turn]].options.job_key
                != batch.requests[order.last()].options.job_key,
        middle.len() <= after.len() <= middle.len() + 1,
        forall|i: int|
            0 <= i < middle.len() && !(i < jobs.len() && meets(batch, order.last(), jobs[i]))
                ==> #[trigger] after[i] == middle[i],
        forall|i: int|
            0 <= i < jobs.len() && meets(batch, order.last(), #[trigger] jobs[i]) ==> takes_on(
                after[i],
                jobs[i],
                batch.requests[order.last()],
                batch.run_ats[order.last()],
            ),
        meets_none(batch, order.last(), jobs) <==> after.len() == middle.len() + 1,
        meets_none(batch, order.last(), jobs) ==> made_by(
            batch,
            order.last(),
            after[middle.len() as int],
        ),
    ensures
        carried_out(jobs, after, batch, order),
{
    let rest = order.drop_last();
    let count = rest.len() as int;
    assert(order[count] == order.last());
    assert forall|i: int| 0 <= i < rest.len() implies #[trigger] rest[i] == order[i] by {}
    assert forall|i: int, turn: int|
        0 <= i < jobs.len() && 0 <= turn < order.len() && meets(
            batch,
            #[trigger] order[turn],
            #[trigger] jobs[i],
        ) implies takes_on(
        after[i],
        jobs[i],
        batch.requests[order[turn]],
        batch.run_ats[order[turn]],
    ) by {
        if turn < count {
            assert(rest[turn] == order[turn]);
            assert(!meets(batch, order.last(), jobs[i]));
            assert(after[i] == middle[i]);
        }
    }
    assert forall|i: int| 0 <= i < jobs.len() && !met(batch, order, jobs[i]) implies #[trigger] after[i]
        == jobs[i] by {
        assert(!meets(batch, order[count], jobs[i]));
        if met(batch, rest, jobs[i]) {
            let turn = choose|turn: int|
                0 <= turn < rest.len() && meets(batch, #[trigger] rest[turn], jobs[i]);
            assert(meets(batch, order[turn], jobs[i]));
        }
        assert(after[i] == middle[i]);
    }
    assert forall|turn: int|
        0 <= turn < order.len() && meets_none(batch, #[trigger] order[turn], jobs) implies has_made(
        batch,
        order[turn],
        jobs.len() as int,
        after,
    ) by {
        if turn < count {
            assert(rest[turn] == order[turn]);
            assert(has_made(batch, rest[turn], jobs.len() as int, middle));
            let at = choose|at: int|
                jobs.len() <= at < middle.len() && made_by(
                    batch,
                    rest[turn],
                    #[trigger] middle[at],
                );
            assert(after[at] == middle[at]);
        } else {
            assert(made_by(batch, order[turn], after[middle.len() as int]));
        }
    }
    assert forall|at: int| jobs.len() <= at < after.len() implies made(
        batch,
        order,
        jobs,
        #[trigger] after[at],
    ) by {
        if at < middle.len() {
            assert(after[at] == middle[at]);
            assert(made(batch, rest, jobs, middle[at]));
            let turn = choose|turn: int|
                {
                    &&& 0 <= turn < rest.len()
                    &&& made_by(batch, #[trigger] rest[turn], middle[at])
                    &&& meets_none(batch, rest[turn], jobs)
                };
            assert(rest[turn] == order[turn]);
            assert(made_by(batch, order[turn], after[at]));
        } else {
            assert(made_by(batch, order[count], after[at]));
        }
    }
}

/// The places of the requests with a mode are in order, and have that mode.
proof fn lemma_places_ordered(requests: Seq<EnqueueRequestView>, mode: JobKeyMode, count: int)
    requires
        count <= requests.len(),
    ensures
        forall|i: int|
            0 <= i < places(requests, mode, count).len() ==> requests[#[trigger] places(
                requests,
                mode,
                count,
            )[i]].options.job_key_mode == mode,
        forall|i: int, j: int|
            0 <= i < j < places(requests, mode, count).len() ==> #[trigger] places(
                requests,
                mode,
                count,
            )[i] < #[trigger] places(requests, mode, count)[j],
    decreases count,
{
    if count > 0 {
        lemma_places_ordered(requests, mode, count - 1);
        lemma_places_within(requests, mode, count - 1);
        let all = places(requests, mode, count);
        let fewer = places(requests, mode, count - 1);
        assert forall|i: int, j: int| 0 <= i < j < all.len() implies #[trigger] all[i]
            < #[trigger] all[j] by {
            assert(all[i] == fewer[i]);
            if j < fewer.len() {
                assert(all[j] == fewer[j]);
                assert(fewer[i] < fewer[j]);
            } else {
                assert(0 <= fewer[i] < count - 1);
            }
        }
        assert forall|i: int| 0 <= i < all.len() implies requests[#[trigger] all[i]].options.job_key_mode
            == mode by {
            if i < fewer.len() {
                assert(all[i] == fewer[i]);
            }
        }
    }
}

/// Every request of a batch has one turn: first those that keep what is there, then those that
/// replace it, then those that replace all but the time, and each kind in the order of the batch.
pub proof fn law_each_request_has_one_turn(requests: Seq<EnqueueRequestView>)
    ensures
        forall|place: int|
            0 <= place < requests.len() ==> #[trigger] store_order(requests).contains(place),
        forall|i: int|
            0 <= i < store_order(requests).len() ==> 0 <= #[trigger] store_order(requests)[i]
                < requests.len(),
        forall|i: int, j: int|
            0 <= i < j < store_order(requests).len() ==> {
                let one = #[trigger] store_order(requests)[i];
                let other = #[trigger] store_order(requests)[j];
                let mode = requests[one].options.job_key_mode;
                let later = requests[other].options.job_key_mode;
                &&& mode == later ==> one < other
                &&& later == JobKeyMode::Dedupe ==> mode == JobKeyMode::Dedupe
                &&& mode == JobKeyMode::PreserveRunAt ==> later == JobKeyMode::PreserveRunAt
            },
{
    let count = requests.len() as int;
    let one = places(requests, JobKeyMode::Dedupe, count);
    let two = places(requests, JobKeyMode::Replace, count);
    let three = places(requests, JobKeyMode::PreserveRunAt, count);
    lemma_places_ordered(requests, JobKeyMode::Dedupe, count);
    lemma_places_ordered(requests, JobKeyMode::Replace, count);
    lemma_places_ordered(requests, JobKeyMode::PreserveRunAt, count);
    lemma_places_within(requests, JobKeyMode::Dedupe, count);
    lemma_places_within(requests, JobKeyMode::Replace, count);
    lemma_places_within(requests, JobKeyMode::PreserveRunAt, count);
    let order = store_order(requests);
    assert forall|i: int| 0 <= i < order.len() implies 0 <= #[trigger] order[i] < requests.len() && (
    if i < one.len() {
        order[i] == one[i] && requests[order[i]].options.job_key_mode == JobKeyMode::Dedupe
    } else if i < one.len() + two.len() {
        order[i] == two[i - one.len()] && requests[order[i]].options.job_key_mode
            == JobKeyMode::Replace
    } else {
        order[i] == three[i - one.len() - two.len()] && requests[order[i]].options.job_key_mode
            == JobKeyMode::PreserveRunAt
    }) by {
        if i < one.len() {
            assert(order[i] == one[i]);
        } else if i < one.len() + two.len() {
            assert(order[i] == two[i - one.len()]);
        } else {
            assert(order[i] == three[i - one.len() - two.len()]);
        }
    }
    assert forall|place: int| 0 <= place < requests.len() implies #[trigger] store_order(
        requests,
    ).contains(place) by {
        lemma_store_order_complete(requests, place);
    }
}

/// A batch is refused where two of its requests have the same job key: it is answered with the key of
/// the first request that repeats one, and nothing changes. It is not refused for that otherwise.
pub proof fn law_repeated_key_is_refused(
    before: QueueView,
    after: QueueView,
    batch: Batch,
    result: Result<Vec<u128>, EnqueueError>,
    one: int,
    other: int,
)
    requires
        batch_outcome(before, after, batch, result),
    ensures
        result matches Err(EnqueueError::DuplicateJobKey(key)) ==> {
            &&& after == before
            &&& exists|i: int, j: int|
                {
                    &&& 0 <= i < j < batch.requests.len()
                    &&& (#[trigger] batch.requests[i]).options.job_key == Some(key@)
                    &&& (#[trigger] batch.requests[j]).options.job_key == Some(key@)
                    &&& 0 <= one < other < j && batch.requests[one].options.job_key is Some
                        ==> batch.requests[one].options.job_key
                        != batch.requests[other].options.job_key
                }
        },
        0 <= one < other < batch.requests.len() && batch.requests[one].options.job_key is Some
            && batch.requests[one].options.job_key == batch.requests[other].options.job_key
            ==> result matches Err(EnqueueError::DuplicateJobKey(key)),
{
    let requests = batch.requests;
    let test = |place: int| repeats_key(requests, place);
    lemma_first_such_holds(test, 0, requests.len() as int);
    if 0 <= one < other < requests.len() {
        assert(test(other) == repeats_key(requests, other));
        assert(requests[one].options.job_key is Some && requests[one].options.job_key
            == requests[other].options.job_key ==> repeats_key(requests, other));
    }
    if let Some(place) = first_repeat(requests) {
        assert(test(place));
        let earlier = choose|earlier: int|
            0 <= earlier < place && (#[trigger] requests[earlier]).options.job_key
                == requests[place].options.job_key;
        assert(requests[earlier].options.job_key == requests[place].options.job_key);
    }
}

/// A batch that is not refused is carried out whole: each request with the job key of an unfinished
/// job is taken on by that job, each other one makes a new job under its id, and all else stays.
pub proof fn law_batch_is_carried_out(
    before: QueueView,
    after: QueueView,
    batch: Batch,
    result: Result<Vec<u128>, EnqueueError>,
    place: int,
    i: int,
)
    requires
        before.sound(),
        batch_outcome(before, after, batch, result),
        result is Ok,
        0 <= place < batch.requests.len(),
        0 <= i < before.jobs.len(),
    ensures
        after.workers == before.workers,
        after.crons == before.crons,
        before.jobs.len() <= after.jobs.len(),
        meets(batch, place, before.jobs[i]) ==> takes_on(
            after.jobs[i],
            before.jobs[i],
            batch.requests[place],
            batch.run_ats[place],
        ) && result->Ok_0@[place] == before.jobs[i].id,
        (forall|p: int|
            0 <= p < batch.requests.len() ==> !#[trigger] meets(batch, p, before.jobs[i]))
            ==> after.jobs[i] == before.jobs[i],
{
    lemma_batch_carried_out(before.jobs, batch, result);
    law_each_request_has_one_turn(batch.requests);
    let order = store_order(batch.requests);
    assert(order.contains(place));
    let turn = choose|turn: int| 0 <= turn < order.len() && order[turn] == place;
    if meets(batch, order[turn], before.jobs[i]) {
        let key = batch.requests[place].options.job_key;
        assert(holds_key(after.jobs[i], key));
        lemma_holder(after.jobs, key, i);
    }
    if met(batch, order, before.jobs[i]) {
        let other = choose|turn: int|
            0 <= turn < order.len() && meets(batch, #[trigger] order[turn], before.jobs[i]);
        assert(meets(batch, order[other], before.jobs[i]));
    }
}

/// A request of a batch that meets no unfinished job under its job key, or has none, makes a new job,
/// under its id; and every new job was made by such a request.
pub proof fn law_batch_makes_new_jobs(
    before: QueueView,
    after: QueueView,
    batch: Batch,
    result: Result<Vec<u128>, EnqueueError>,
    place: int,
    at: int,
)
    requires
        before.sound(),
        batch_outcome(before, after, batch, result),
        result is Ok,
    ensures
        0 <= place < batch.requests.len() && meets_none(batch, place, before.jobs) ==> {
            &&& result->Ok_0@[place] == batch.ids[place]
            &&& exists|k: int|
                before.jobs.len() <= k < after.jobs.len() && made_by(
                    batch,
                    place,
                    #[trigger] after.jobs[k],
                )
        },
        before.jobs.len() <= at < after.jobs.len() ==> exists|p: int|
            {
                &&& 0 <= p < batch.requests.len()
                &&& made_by(batch, p, after.jobs[at])
                &&& #[trigger] meets_none(batch, p, before.jobs)
            },
        result->Ok_0@.len() == batch.requests.len(),
{
    lemma_batch_carried_out(before.jobs, batch, result);
    law_each_request_has_one_turn(batch.requests);
    let order = store_order(batch.requests);
    if 0 <= place < batch.requests.len() && meets_none(batch, place, before.jobs) {
        assert(order.contains(place));
        let turn = choose|turn: int| 0 <= turn < order.len() && order[turn] == place;
        assert(meets_none(batch, order[turn], before.jobs));
        assert(has_made(batch, order[turn], before.jobs.len() as int, after.jobs));
        let k = choose|k: int|
            before.jobs.len() <= k < after.jobs.len() && made_by(
                batch,
                order[turn],
                #[trigger] after.jobs[k],
            );
        let key = batch.requests[place].options.job_key;
        if key is Some {
            assert(holds_key(after.jobs[k], key));
            lemma_holder(after.jobs, key, k);
        }
    }
    if before.jobs.len() <= at < after.jobs.len() {
        assert(made(batch, order, before.jobs, after.jobs[at]));
        let turn = choose|turn: int|
            {
                &&& 0 <= turn < order.len()
                &&& made_by(batch, #[trigger] order[turn], after.jobs[at])
                &&& meets_none(batch, order[turn], before.jobs)
            };
        assert(meets_none(batch, order[turn], before.jobs));
    }
}

proof fn lemma_batch_carried_out(
    jobs: Seq<JobView>,
    batch: Batch,
    result: Result<Vec<u128>, EnqueueError>,
)
    requires
        jobs_sound(jobs),
        first_repeat(batch.requests) is None,
        failure(jobs, batch, store_order(batch.requests)) is None,
    ensures
        carried_out(jobs, batch_stored(jobs, batch), batch, store_order(batch.requests)),
        jobs_sound(batch_stored(jobs, batch)),
{
    let requests = batch.requests;
    let order = store_order(requests);
    lemma_keys_differ(requests);
    law_each_request_has_one_turn(requests);
    assert forall|i: int, j: int| 0 <= i < j < order.len() implies #[trigger] order[i]
        != #[trigger] order[j] by {
        if order[i] == order[j] {
            assert(requests[order[i]].options.job_key_mode
                == requests[order[j]].options.job_key_mode);
        }
    }
    lemma_carried_out(jobs, batch, order);
    lemma_stored_sound(jobs, batch, order);
    assert(order.take(order.len() as int) =~= order);
}

proof fn lemma_keys_differ(requests: Seq<EnqueueRequestView>)
    requires
        first_repeat(requests) is None,
    ensures
        keys_differ(requests),
{
    let test = |place: int| repeats_key(requests, place);
    lemma_first_such_holds(test, 0, requests.len() as int);
    assert forall|i: int, j: int|
        0 <= i < j < requests.len() && (#[trigger] requests[i]).options.job_key is Some
        implies requests[i].options.job_key != (#[trigger] requests[j]).options.job_key by {
        assert(!test(j));
    }
}

/// A batch that changes nothing is one that is refused. It is refused where a request allows no
/// attempt, where a request that makes a new job has the id of a stored one, and where two requests
/// that make new jobs have the same id.
pub proof fn law_batch_is_refused(
    before: QueueView,
    after: QueueView,
    batch: Batch,
    result: Result<Vec<u128>, EnqueueError>,
    place: int,
    other: int,
    i: int,
)
    requires
        before.sound(),
        batch_outcome(before, after, batch, result),
        0 <= place < batch.requests.len(),
    ensures
        result is Err ==> after == before,
        batch.requests[place].options.max_attempts < 1 ==> result is Err,
        0 <= i < before.jobs.len() && before.jobs[i].id == batch.ids[place] && meets_none(
            batch,
            place,
            before.jobs,
        ) ==> result is Err,
        0 <= other < batch.requests.len() && other != place && batch.ids[other] == batch.ids[place]
            && meets_none(batch, place, before.jobs) && meets_none(batch, other, before.jobs)
            ==> result is Err,
{
    if result is Ok {
        let order = store_order(batch.requests);
        law_each_request_has_one_turn(batch.requests);
        assert(order.contains(place));
        let turn = choose|turn: int| 0 <= turn < order.len() && order[turn] == place;
        lemma_attempts_allowed(before.jobs, batch, order, turn);
        lemma_batch_carried_out(before.jobs, batch, result);
        law_batch_makes_new_jobs(before, after, batch, result, place, 0);
        if 0 <= i < before.jobs.len() && meets_none(batch, place, before.jobs) {
            let k = choose|k: int|
                before.jobs.len() <= k < after.jobs.len() && made_by(
                    batch,
                    place,
                    #[trigger] after.jobs[k],
                );
            lemma_ids_stay(before.jobs, after.jobs, batch, order, i);
            assert(after.jobs[k].id != after.jobs[i].id);
        }
        if 0 <= other < batch.requests.len() && other != place {
            law_batch_makes_new_jobs(before, after, batch, result, other, 0);
            if place < other {
                law_batch_ids_differ(before.jobs, batch, place, other);
            } else {
                law_batch_ids_differ(before.jobs, batch, other, place);
            }
        }
    }
}

/// A batch that is refused, though no job key comes twice in it, is refused for a request that allows
/// no attempt, or for an id that is taken.
pub proof fn law_why_a_batch_is_refused(
    before: QueueView,
    after: QueueView,
    batch: Batch,
    result: Result<Vec<u128>, EnqueueError>,
)
    requires
        batch_outcome(before, after, batch, result),
        keys_differ(batch.requests),
        result is Err,
    ensures
        result == Err::<Vec<u128>, EnqueueError>(
            EnqueueError::Database(StoreError::InvalidMaxAttempts),
        ) || result == Err::<Vec<u128>, EnqueueError>(
            EnqueueError::Database(StoreError::DuplicateId),
        ),
        (forall|p: int|
            0 <= p < batch.requests.len() ==> (#[trigger] batch.requests[p]).options.max_attempts
                >= 1) ==> result == Err::<Vec<u128>, EnqueueError>(
            EnqueueError::Database(StoreError::DuplicateId),
        ),
{
    let requests = batch.requests;
    let order = store_order(requests);
    if let Some(place) = first_repeat(requests) {
        lemma_first_repeat(requests, place);
    }
    law_each_request_has_one_turn(requests);
    lemma_why_refused(before.jobs, batch, order);
}

proof fn lemma_first_repeat(requests: Seq<EnqueueRequestView>, place: int)
    requires
        first_repeat(requests) == Some(place),
    ensures
        !keys_differ(requests),
{
    let test = |place: int| repeats_key(requests, place);
    lemma_first_such_holds(test, 0, requests.len() as int);
    assert(test(place));
    let earlier = choose|earlier: int|
        0 <= earlier < place && (#[trigger] requests[earlier]).options.job_key
            == requests[place].options.job_key;
    assert(requests[earlier].options.job_key is Some && requests[earlier].options.job_key
        == requests[place].options.job_key);
}

proof fn lemma_why_refused(jobs: Seq<JobView>, batch: Batch, order: Seq<int>)
    requires
        forall|i: int| 0 <= i < order.len() ==> 0 <= #[trigger] order[i] < batch.requests.len(),
    ensures
        failure(jobs, batch, order) matches Some(error) ==> {
            &&& error == StoreError::InvalidMaxAttempts || error == StoreError::DuplicateId
            &&& (forall|p: int|
                0 <= p < batch.requests.len() ==> (#[trigger] batch.requests[p]).options.max_attempts
                    >= 1) ==> error == StoreError::DuplicateId
        },
    decreases order.len(),
{
    if order.len() > 0 {
        let rest = order.drop_last();
        assert forall|i: int| 0 <= i < rest.len() implies 0 <= #[trigger] rest[i]
            < batch.requests.len() by {
            assert(rest[i] == order[i]);
        }
        lemma_why_refused(jobs, batch, rest);
        assert(0 <= order[order.len() - 1] < batch.requests.len());
    }
}

/// A job that was there keeps its id, its status and its job key.
proof fn lemma_ids_stay(
    before: Seq<JobView>,
    after: Seq<JobView>,
    batch: Batch,
    order: Seq<int>,
    i: int,
)
    requires
        carried_out(before, after, batch, order),
        0 <= i < before.len(),
    ensures
        after[i].id == before[i].id,
        after[i].status == before[i].status,
        after[i].job_key == before[i].job_key,
{
    if met(batch, order, before[i]) {
        let turn = choose|turn: int|
            0 <= turn < order.len() && meets(batch, #[trigger] order[turn], before[i]);
        assert(takes_on(
            after[i],
            before[i],
            batch.requests[order[turn]],
            batch.run_ats[order[turn]],
        ));
    } else {
        assert(after[i] == before[i]);
    }
}

/// What is not refused allows an attempt.
proof fn lemma_attempts_allowed(jobs: Seq<JobView>, batch: Batch, order: Seq<int>, turn: int)
    requires
        failure(jobs, batch, order) is None,
        0 <= turn < order.len(),
    ensures
        batch.requests[order[turn]].options.max_attempts >= 1,
    decreases order.len(),
{
    if turn < order.len() - 1 {
        lemma_attempts_allowed(jobs, batch, order.drop_last(), turn);
    }
}

/// Whether nothing stands against a batch: no job key comes twice, every request allows an attempt,
/// and each of those that make a new job has an id that no stored job and no other request has.
pub open spec fn nothing_against(jobs: Seq<JobView>, batch: Batch) -> bool {
    &&& keys_differ(batch.requests)
    &&& forall|p: int|
        0 <= p < batch.requests.len() ==> (#[trigger] batch.requests[p]).options.max_attempts >= 1
    &&& forall|p: int, i: int|
        0 <= p < batch.requests.len() && 0 <= i < jobs.len() && #[trigger] meets_none(
            batch,
            p,
            jobs,
        ) ==> batch.ids[p] != (#[trigger] jobs[i]).id
    &&& forall|p: int, q: int|
        0 <= p < q < batch.requests.len() && #[trigger] meets_none(batch, p, jobs)
            && #[trigger] meets_none(batch, q, jobs) ==> batch.ids[p] != batch.ids[q]
}

/// A batch against which nothing stands is stored.
pub proof fn law_batch_is_accepted(
    before: QueueView,
    after: QueueView,
    batch: Batch,
    result: Result<Vec<u128>, EnqueueError>,
)
    requires
        before.sound(),
        batch_outcome(before, after, batch, result),
        nothing_against(before.jobs, batch),
    ensures
        result is Ok,
{
    let requests = batch.requests;
    let order = store_order(requests);
    if let Some(place) = first_repeat(requests) {
        lemma_first_repeat(requests, place);
    }
    law_each_request_has_one_turn(requests);
    assert forall|i: int, j: int| 0 <= i < j < order.len() implies #[trigger] order[i]
        != #[trigger] order[j] by {
        if order[i] == order[j] {
            assert(requests[order[i]].options.job_key_mode
                == requests[order[j]].options.job_key_mode);
        }
    }
    lemma_none_refused(before.jobs, batch, order);
}

proof fn lemma_none_refused(jobs: Seq<JobView>, batch: Batch, order: Seq<int>)
    requires
        jobs_sound(jobs),
        nothing_against(jobs, batch),
        forall|i: int| 0 <= i < order.len() ==> 0 <= #[trigger] order[i] < batch.requests.len(),
        forall|i: int, j: int| 0 <= i < j < order.len() ==> #[trigger] order[i] != #[trigger] order[j],
    ensures
        failure(jobs, batch, order) is None,
    decreases order.len(),
{
    if order.len() > 0 {
        let rest = order.drop_last();
        let count = rest.len() as int;
        let place = order[count];
        let key = batch.requests[place].options.job_key;
        assert forall|i: int| 0 <= i < rest.len() implies #[trigger] rest[i] == order[i] by {}
        lemma_none_refused(jobs, batch, rest);
        lemma_carried_out(jobs, batch, rest);
        let middle = stored(jobs, batch, rest);
        assert(batch.requests[place].options.max_attempts >= 1);
        if refusal(middle, batch.requests[place], batch.ids[place]) is Some {
            let at = place_of(middle, batch.ids[place])->0;
            assert(0 <= at < middle.len() && middle[at].id == batch.ids[place]);
            if !meets_none(batch, place, jobs) {
                let i = choose|i: int|
                    0 <= i < jobs.len() && meets(batch, place, #[trigger] jobs[i]);
                lemma_ids_stay(jobs, middle, batch, rest, i);
                assert(holds_key(middle[i], key));
                assert(false);
            }
            if at < jobs.len() {
                lemma_ids_stay(jobs, middle, batch, rest, at);
                assert(batch.ids[place] != jobs[at].id);
            } else {
                assert(made(batch, rest, jobs, middle[at]));
                let turn = choose|turn: int|
                    {
                        &&& 0 <= turn < rest.len()
                        &&& made_by(batch, #[trigger] rest[turn], middle[at])
                        &&& meets_none(batch, rest[turn], jobs)
                    };
                assert(order[turn] != order[count]);
                let other = rest[turn];
                assert(meets_none(batch, other, jobs) && meets_none(batch, place, jobs));
                assert(batch.ids[other] == batch.ids[place]);
                assert(false);
            }
        }
    }
}

/// A batch holds what each request asks for, the time from which its job may run, the id for it, and
/// the present time.
pub proof fn law_batch_shows_what_is_asked_for(
    requests: Seq<EnqueueRequest>,
    run_ats: Seq<Timestamp>,
    ids: Seq<u128>,
    now: Timestamp,
    place: int,
)
    ensures
        ({
            let batch = batch_of(requests, run_ats, ids, now);
            &&& batch.requests.len() == requests.len()
            &&& batch.run_ats.len() == run_ats.len()
            &&& batch.ids == ids
            &&& batch.now == now@
            &&& 0 <= place < requests.len() ==> batch.requests[place] == requests[place]@
            &&& 0 <= place < run_ats.len() ==> batch.run_ats[place] == run_ats[place]@
        }),
{
}

/// The times from which the jobs of a batch may run are those that were asked for.
pub proof fn law_run_times_are_kept(
    requests: Seq<EnqueueRequestView>,
    run_ats: Seq<int>,
    place: int,
)
    requires
        keeps_run_ats(requests, run_ats),
        0 <= place < requests.len(),
    ensures
        run_ats.len() == requests.len(),
        requests[place].options.run_at is Some ==> run_ats[place] == requests[place].options.run_at->0,
        MIN_NANOS <= run_ats[place] <= MAX_NANOS || requests[place].options.run_at is Some,
{
    let request = requests[place];
}

/// No row came back for a request where it has a job key that no row has; the key is named then.
pub proof fn law_missing_rows(
    requests: Seq<EnqueueRequestView>,
    reply: Seq<(u128, Option<Seq<char>>)>,
    place: int,
    key: Seq<char>,
)
    ensures
        unanswered(requests, reply, place) <==> requests[place].options.job_key is Some && forall|
            i: int,
        |
            0 <= i < reply.len() ==> (#[trigger] reply[i]).1 != requests[place].options.job_key,
        missing_row_text(key) == "batch insert returned no row for job key `"@ + key + "`"@,
{
    lemma_reply_id(reply, requests[place].options.job_key);
}

proof fn lemma_reply_id(reply: Seq<(u128, Option<Seq<char>>)>, key: Option<Seq<char>>)
    ensures
        reply_id(reply, key) is None <==> forall|i: int|
            0 <= i < reply.len() ==> (#[trigger] reply[i]).1 != key,
    decreases reply.len(),
{
    if reply.len() > 0 {
        let rest = reply.drop_last();
        lemma_reply_id(rest, key);
        if reply.last().1 != key && reply_id(rest, key) is None {
            assert forall|i: int| 0 <= i < reply.len() implies (#[trigger] reply[i]).1 != key by {
                if i < rest.len() {
                    assert(rest[i].1 != key);
                }
            }
        }
        if forall|i: int| 0 <= i < reply.len() ==> (#[trigger] reply[i]).1 != key {
            assert forall|i: int| 0 <= i < rest.len() implies (#[trigger] rest[i]).1 != key by {
                assert(reply[i].1 != key);
            }
            assert(reply[reply.len() - 1].1 != key);
        }
    }
}

/// The id that came back for a job key is that of the last row with the key.
pub proof fn law_last_reply_counts(
    reply: Seq<(u128, Option<Seq<char>>)>,
    row: (u128, Option<Seq<char>>),
    key: Option<Seq<char>>,
)
    ensures
        reply_id(Seq::empty(), key) is None,
        row.1 == key ==> reply_id(reply.push(row), key) == Some(row.0),
        row.1 != key ==> reply_id(reply.push(row), key) == reply_id(reply, key),
{
    assert(reply.push(row).drop_last() =~= reply);
}

} // verus!
