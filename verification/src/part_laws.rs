//! Operations on a part of the stored jobs: where the part holds every job that an operation is
//! about, it does to that part what it would do to all of them, and the others stay as they are.

use vstd::prelude::*;

use crate::batch::{
    batch_failure, batch_ids, batch_stored, failure, places, store_order, stored, Batch,
};
use crate::change::{revised, revised_job, selected, selects, ChangeView};
use crate::job::{EnqueueRequestView, JobKeyMode, JobView};
use crate::laws::law_batch_ids_line_up;
use crate::listing::finished_before;
use crate::soundness::lemma_filter_sound;
use crate::table::{
    any_selected, claimed, eligible, enqueued, enqueued_id, holder, holds_key, ids_unique, is_next,
    jobs_sound, key_clash, lemma_enqueued_sound, lemma_holder, lemma_next_claim, merged, new_job,
    next_claim, place_of, queue_free, refusal, runs_before,
};

verus! {

/// Whether the jobs are those of a part and some others.
pub open spec fn made_of(jobs: Seq<JobView>, part: Seq<JobView>, others: Set<JobView>) -> bool {
    jobs.to_set() == part.to_set() + others
}

/// The jobs without a property.
pub open spec fn left_out(jobs: Seq<JobView>, keep: spec_fn(JobView) -> bool) -> Set<JobView> {
    jobs.to_set().filter(|job: JobView| !keep(job))
}

/// The places of the jobs with a property, in order.
spec fn kept_places(jobs: Seq<JobView>, keep: spec_fn(JobView) -> bool) -> Seq<int>
    decreases jobs.len(),
{
    if jobs.len() == 0 {
        Seq::empty()
    } else {
        let earlier = kept_places(jobs.drop_last(), keep);
        if keep(jobs.last()) {
            earlier.push(jobs.len() - 1)
        } else {
            earlier
        }
    }
}

/// The jobs with a property stand at these places.
proof fn lemma_kept_places(jobs: Seq<JobView>, keep: spec_fn(JobView) -> bool)
    ensures
        ({
            let part = jobs.filter(keep);
            let places = kept_places(jobs, keep);
            &&& places.len() == part.len()
            &&& forall|k: int|
                0 <= k < places.len() ==> 0 <= #[trigger] places[k] < jobs.len() && keep(
                    jobs[places[k]],
                ) && part[k] == jobs[places[k]]
            &&& forall|k: int, l: int|
                0 <= k < l < places.len() ==> #[trigger] places[k] < #[trigger] places[l]
            &&& forall|i: int|
                0 <= i < jobs.len() && keep(#[trigger] jobs[i]) ==> places.contains(i)
        }),
    decreases jobs.len(),
{
    reveal(Seq::filter);
    if jobs.len() > 0 {
        let rest = jobs.drop_last();
        lemma_kept_places(rest, keep);
        let part = jobs.filter(keep);
        let places = kept_places(jobs, keep);
        let earlier = kept_places(rest, keep);
        assert forall|k: int| 0 <= k < places.len() implies 0 <= #[trigger] places[k] < jobs.len()
            && keep(jobs[places[k]]) && part[k] == jobs[places[k]] by {
            if k < earlier.len() {
                assert(places[k] == earlier[k]);
            }
        }
        assert forall|k: int, l: int| 0 <= k < l < places.len() implies #[trigger] places[k]
            < #[trigger] places[l] by {
            assert(places[k] == earlier[k]);
            if l < earlier.len() {
                assert(places[l] == earlier[l]);
            }
        }
        assert forall|i: int| 0 <= i < jobs.len() && keep(#[trigger] jobs[i]) implies places.contains(
            i,
        ) by {
            if i == jobs.len() - 1 {
                assert(places[places.len() - 1] == i);
            } else {
                assert(rest[i] == jobs[i]);
                let k = choose|k: int| 0 <= k < earlier.len() && earlier[k] == i;
                assert(places[k] == i);
            }
        }
    }
}

/// A job is among those with a property where it is a job and has it.
proof fn lemma_filter_has(jobs: Seq<JobView>, keep: spec_fn(JobView) -> bool, job: JobView)
    ensures
        jobs.filter(keep).to_set().contains(job) == (jobs.contains(job) && keep(job)),
{
    let part = jobs.filter(keep);
    let places = kept_places(jobs, keep);
    lemma_kept_places(jobs, keep);
    if part.contains(job) {
        let k = choose|k: int| 0 <= k < part.len() && part[k] == job;
        assert(jobs[places[k]] == job);
    }
    if jobs.contains(job) && keep(job) {
        let i = choose|i: int| 0 <= i < jobs.len() && jobs[i] == job;
        let k = choose|k: int| 0 <= k < places.len() && places[k] == i;
        assert(part[k] == job);
    }
}

/// The jobs are those with a property and those without it.
pub proof fn lemma_split(jobs: Seq<JobView>, keep: spec_fn(JobView) -> bool)
    ensures
        made_of(jobs, jobs.filter(keep), left_out(jobs, keep)),
{
    assert forall|job: JobView| jobs.to_set().contains(job) == (jobs.filter(keep).to_set()
        + left_out(jobs, keep)).contains(job) by {
        lemma_filter_has(jobs, keep, job);
    }
    assert(jobs.to_set() =~= jobs.filter(keep).to_set() + left_out(jobs, keep));
}

/// A change to stored jobs can be made to a part of them that holds all it is about: the count is the
/// same, and the others stay as they are.
pub proof fn law_change_on_a_part(
    jobs: Seq<JobView>,
    keep: spec_fn(JobView) -> bool,
    change: ChangeView,
    now: int,
)
    requires
        forall|i: int|
            0 <= i < jobs.len() && selects(change, #[trigger] jobs[i]) ==> keep(jobs[i]),
    ensures
        selected(jobs.filter(keep), change) == selected(jobs, change),
        any_selected(jobs.filter(keep), change) == any_selected(jobs, change),
        made_of(
            revised(jobs, change, now),
            revised(jobs.filter(keep), change, now),
            left_out(jobs, keep),
        ),
{
    let part = jobs.filter(keep);
    let others = left_out(jobs, keep);
    lemma_kept_places(jobs, keep);
    lemma_split(jobs, keep);
    lemma_selected_in_part(jobs, keep, change);
    let places = kept_places(jobs, keep);
    if any_selected(jobs, change) {
        let i = choose|i: int| 0 <= i < jobs.len() && selects(change, #[trigger] jobs[i]);
        let k = choose|k: int| 0 <= k < places.len() && places[k] == i;
        assert(selects(change, part[k]));
    }
    if any_selected(part, change) {
        let k = choose|k: int| 0 <= k < part.len() && selects(change, #[trigger] part[k]);
        assert(selects(change, jobs[places[k]]));
    }
    let after = revised(jobs, change, now);
    let part_after = revised(part, change, now);
    assert forall|job: JobView| after.to_set().contains(job) == (part_after.to_set()
        + others).contains(job) by {
        if after.contains(job) {
            let i = choose|i: int| 0 <= i < after.len() && after[i] == job;
            assert(job == revised_job(change, jobs[i], now));
            if keep(jobs[i]) {
                let k = choose|k: int| 0 <= k < places.len() && places[k] == i;
                assert(part_after[k] == job);
            } else {
                assert(!selects(change, jobs[i]));
                assert(jobs.to_set().contains(jobs[i]));
                assert(!part.contains(jobs[i])) by {
                    if part.contains(jobs[i]) {
                        let k = choose|k: int| 0 <= k < part.len() && part[k] == jobs[i];
                        assert(keep(jobs[places[k]]));
                    }
                }
                assert(others.contains(job));
            }
        }
        if part_after.contains(job) {
            let k = choose|k: int| 0 <= k < part_after.len() && part_after[k] == job;
            assert(job == revised_job(change, part[k], now));
            assert(after[places[k]] == job);
        }
        if others.contains(job) {
            assert(jobs.to_set().contains(job));
            let i = choose|i: int| 0 <= i < jobs.len() && jobs[i] == job;
            assert(!keep(jobs[i]));
            assert(after[i] == job);
        }
    }
    assert(after.to_set() =~= part_after.to_set() + others);
}

/// A change is about as many jobs of a part that holds all it is about as of all jobs.
proof fn lemma_selected_in_part(
    jobs: Seq<JobView>,
    keep: spec_fn(JobView) -> bool,
    change: ChangeView,
)
    requires
        forall|i: int|
            0 <= i < jobs.len() && selects(change, #[trigger] jobs[i]) ==> keep(jobs[i]),
    ensures
        selected(jobs.filter(keep), change) == selected(jobs, change),
    decreases jobs.len(),
{
    reveal(Seq::filter);
    if jobs.len() > 0 {
        let rest = jobs.drop_last();
        assert forall|i: int| 0 <= i < rest.len() && selects(change, #[trigger] rest[i]) implies keep(
            rest[i],
        ) by {
            assert(rest[i] == jobs[i]);
        }
        lemma_selected_in_part(rest, keep, change);
        assert(selects(change, jobs[jobs.len() - 1]) ==> keep(jobs[jobs.len() - 1]));
        if keep(jobs.last()) {
            assert(jobs.filter(keep).drop_last() =~= rest.filter(keep));
        }
    }
}

/// Whether a change to one job would clash with the holder of a job key can be told from a part of
/// the jobs that holds the job and every unfinished job with its job key.
pub proof fn law_clash_on_a_part(
    jobs: Seq<JobView>,
    keep: spec_fn(JobView) -> bool,
    change: ChangeView,
)
    requires
        jobs_sound(jobs),
        forall|i: int|
            0 <= i < jobs.len() && selects(change, #[trigger] jobs[i]) ==> keep(jobs[i]),
        forall|i: int, j: int|
            0 <= i < jobs.len() && 0 <= j < jobs.len() && selects(change, #[trigger] jobs[i])
                && holds_key(#[trigger] jobs[j], jobs[i].job_key) ==> keep(jobs[j]),
    ensures
        key_clash(jobs.filter(keep), change) == key_clash(jobs, change),
{
    let part = jobs.filter(keep);
    lemma_kept_places(jobs, keep);
    let places = kept_places(jobs, keep);
    if key_clash(jobs, change) {
        let i = choose|i: int|
            0 <= i < jobs.len() && selects(change, #[trigger] jobs[i]) && !jobs[i].unfinished()
                && holder(jobs, jobs[i].job_key) is Some;
        let j = holder(jobs, jobs[i].job_key)->0;
        assert(0 <= j < jobs.len() && holds_key(jobs[j], jobs[i].job_key));
        let k = choose|k: int| 0 <= k < places.len() && places[k] == i;
        let l = choose|l: int| 0 <= l < places.len() && places[l] == j;
        assert(selects(change, part[k]));
        assert(holds_key(part[l], part[k].job_key));
    }
    if key_clash(part, change) {
        let k = choose|k: int|
            0 <= k < part.len() && selects(change, #[trigger] part[k]) && !part[k].unfinished()
                && holder(part, part[k].job_key) is Some;
        let l = holder(part, part[k].job_key)->0;
        assert(0 <= l < part.len() && holds_key(part[l], part[k].job_key));
        assert(selects(change, jobs[places[k]]));
        assert(holds_key(jobs[places[l]], jobs[places[k]].job_key));
    }
}

/// The job with an id is found in a part of the jobs that holds it.
pub proof fn law_find_in_a_part(jobs: Seq<JobView>, keep: spec_fn(JobView) -> bool, id: u128)
    requires
        ids_unique(jobs),
        forall|i: int| 0 <= i < jobs.len() && (#[trigger] jobs[i]).id == id ==> keep(jobs[i]),
    ensures
        match place_of(jobs, id) {
            Some(place) => place_of(jobs.filter(keep), id) matches Some(found) && jobs.filter(
                keep,
            )[found] == jobs[place],
            None => place_of(jobs.filter(keep), id) is None,
        },
{
    let part = jobs.filter(keep);
    lemma_kept_places(jobs, keep);
    let places = kept_places(jobs, keep);
    if let Some(place) = place_of(jobs, id) {
        assert(0 <= place < jobs.len() && jobs[place].id == id);
        let k = choose|k: int| 0 <= k < places.len() && places[k] == place;
        assert(part[k].id == id);
        let found = place_of(part, id)->0;
        assert(part[found].id == id);
        assert(jobs[places[found]].id == id);
        if places[found] != place {
            assert(jobs[places[found]].id != jobs[place].id);
        }
    } else if let Some(found) = place_of(part, id) {
        assert(0 <= found < part.len() && part[found].id == id);
        assert(jobs[places[found]].id == id);
    }
}

/// A job can be enqueued into a part of the jobs that holds the holder of its job key, where no other
/// job has its id: it is refused or not, and answered, as it would be with all jobs, and the others
/// stay as they are.
pub proof fn law_enqueue_on_a_part(
    jobs: Seq<JobView>,
    part: Seq<JobView>,
    others: Set<JobView>,
    request: EnqueueRequestView,
    run_at: int,
    id: u128,
    now: int,
)
    requires
        jobs_sound(jobs),
        jobs_sound(part),
        made_of(jobs, part, others),
        forall|job: JobView| #[trigger]
            others.contains(job) ==> !holds_key(job, request.options.job_key) && job.id != id,
    ensures
        refusal(part, request, id) == refusal(jobs, request, id),
        refusal(jobs, request, id) is None ==> {
            &&& enqueued_id(part, request, id) == enqueued_id(jobs, request, id)
            &&& (holder(part, request.options.job_key) is None) == (holder(
                jobs,
                request.options.job_key,
            ) is None)
            &&& made_of(
                enqueued(jobs, request, run_at, id, now),
                enqueued(part, request, run_at, id, now),
                others,
            )
        },
{
    let key = request.options.job_key;
    let after = enqueued(jobs, request, run_at, id, now);
    let part_after = enqueued(part, request, run_at, id, now);
    assert forall|job: JobView| jobs.contains(job) == (part.contains(job) || others.contains(job)) by {
        assert(jobs.to_set().contains(job) == (part.to_set() + others).contains(job));
    }
    if let Some(place) = holder(jobs, key) {
        assert(0 <= place < jobs.len() && holds_key(jobs[place], key));
        assert(jobs.contains(jobs[place]));
        assert(part.contains(jobs[place]));
        let k = choose|k: int| 0 <= k < part.len() && part[k] == jobs[place];
        lemma_holder(part, key, k);
    } else if let Some(k) = holder(part, key) {
        assert(0 <= k < part.len() && holds_key(part[k], key));
        assert(part.contains(part[k]));
        assert(jobs.contains(part[k]));
        let place = choose|place: int| 0 <= place < jobs.len() && jobs[place] == part[k];
        assert(holds_key(jobs[place], key));
    }
    if let Some(place) = place_of(jobs, id) {
        assert(0 <= place < jobs.len() && jobs[place].id == id);
        assert(jobs.contains(jobs[place]));
        assert(part.contains(jobs[place]));
        let k = choose|k: int| 0 <= k < part.len() && part[k] == jobs[place];
        assert(part[k].id == id);
    } else if let Some(k) = place_of(part, id) {
        assert(0 <= k < part.len() && part[k].id == id);
        assert(part.contains(part[k]));
        assert(jobs.contains(part[k]));
        let place = choose|place: int| 0 <= place < jobs.len() && jobs[place] == part[k];
        assert(jobs[place].id == id);
    }
    if refusal(jobs, request, id) is None {
        match holder(jobs, key) {
            Some(place) => {
                let k = holder(part, key)->0;
                let old_job = jobs[place];
                let new = merged(old_job, request, run_at);
                assert(part[k] == old_job);
                lemma_update_set(jobs, place, new);
                lemma_update_set(part, k, new);
                assert(!others.contains(old_job));
                assert(after.to_set() =~= part_after.to_set() + others);
            },
            None => {
                let new = new_job(request, run_at, id, now);
                lemma_push_set(jobs, new);
                lemma_push_set(part, new);
                assert(after.to_set() =~= part_after.to_set() + others);
            },
        }
    }
}

/// Replacing a job of a table without repeated ids takes the old one out and puts the new one in.
proof fn lemma_update_set(jobs: Seq<JobView>, place: int, new: JobView)
    requires
        ids_unique(jobs),
        0 <= place < jobs.len(),
    ensures
        jobs.update(place, new).to_set() == jobs.to_set().remove(jobs[place]).insert(new),
{
    let after = jobs.update(place, new);
    assert forall|job: JobView| after.to_set().contains(job) == jobs.to_set().remove(
        jobs[place],
    ).insert(new).contains(job) by {
        if after.contains(job) {
            let i = choose|i: int| 0 <= i < after.len() && after[i] == job;
            if i != place {
                assert(jobs[i] == job);
                assert(jobs[i].id != jobs[place].id);
                assert(jobs.contains(job));
            }
        }
        if job == new {
            assert(after[place] == job);
        } else if jobs.contains(job) && job != jobs[place] {
            let i = choose|i: int| 0 <= i < jobs.len() && jobs[i] == job;
            assert(after[i] == job);
        }
    }
    assert(after.to_set() =~= jobs.to_set().remove(jobs[place]).insert(new));
}

/// Appending a job puts it in.
proof fn lemma_push_set(jobs: Seq<JobView>, new: JobView)
    ensures
        jobs.push(new).to_set() == jobs.to_set().insert(new),
{
    let after = jobs.push(new);
    assert forall|job: JobView| after.to_set().contains(job) == jobs.to_set().insert(new).contains(
        job,
    ) by {
        if after.contains(job) {
            let i = choose|i: int| 0 <= i < after.len() && after[i] == job;
            if i < jobs.len() {
                assert(jobs[i] == job);
            }
        }
        if jobs.contains(job) {
            let i = choose|i: int| 0 <= i < jobs.len() && jobs[i] == job;
            assert(after[i] == job);
        }
        assert(after[jobs.len() as int] == new);
    }
    assert(after.to_set() =~= jobs.to_set().insert(new));
}

/// The requests at some places, one after the other, can be stored in a part of the jobs.
proof fn lemma_stored_in_a_part(
    jobs: Seq<JobView>,
    part: Seq<JobView>,
    others: Set<JobView>,
    batch: Batch,
    order: Seq<int>,
)
    requires
        jobs_sound(jobs),
        jobs_sound(part),
        made_of(jobs, part, others),
        forall|job: JobView, i: int|
            #![trigger others.contains(job), order[i]]
            others.contains(job) && 0 <= i < order.len() ==> !holds_key(
                job,
                batch.requests[order[i]].options.job_key,
            ) && job.id != batch.ids[order[i]],
    ensures
        failure(part, batch, order) == failure(jobs, batch, order),
        failure(jobs, batch, order) is None ==> {
            &&& jobs_sound(stored(jobs, batch, order))
            &&& jobs_sound(stored(part, batch, order))
            &&& made_of(stored(jobs, batch, order), stored(part, batch, order), others)
        },
    decreases order.len(),
{
    if order.len() > 0 {
        let rest = order.drop_last();
        assert forall|job: JobView, i: int|
            #![trigger others.contains(job), rest[i]]
            others.contains(job) && 0 <= i < rest.len() implies !holds_key(
            job,
            batch.requests[rest[i]].options.job_key,
        ) && job.id != batch.ids[rest[i]] by {
            assert(rest[i] == order[i]);
        }
        lemma_stored_in_a_part(jobs, part, others, batch, rest);
        if failure(jobs, batch, rest) is None {
            let place = order.last();
            let whole = stored(jobs, batch, rest);
            let piece = stored(part, batch, rest);
            let request = batch.requests[place];
            assert forall|job: JobView| #[trigger] others.contains(job) implies !holds_key(
                job,
                request.options.job_key,
            ) && job.id != batch.ids[place] by {
                assert(order[order.len() - 1] == place);
            }
            law_enqueue_on_a_part(
                whole,
                piece,
                others,
                request,
                batch.run_ats[place],
                batch.ids[place],
                batch.now,
            );
            if refusal(whole, request, batch.ids[place]) is None {
                lemma_enqueued_sound(
                    whole,
                    request,
                    batch.run_ats[place],
                    batch.ids[place],
                    batch.now,
                );
                lemma_enqueued_sound(
                    piece,
                    request,
                    batch.run_ats[place],
                    batch.ids[place],
                    batch.now,
                );
            }
        }
    }
}

/// The places of the requests with a mode are places of requests.
pub proof fn lemma_places_within(requests: Seq<EnqueueRequestView>, mode: JobKeyMode, count: int)
    ensures
        forall|i: int|
            0 <= i < places(requests, mode, count).len() ==> 0 <= #[trigger] places(
                requests,
                mode,
                count,
            )[i] < count,
    decreases count,
{
    if count > 0 {
        lemma_places_within(requests, mode, count - 1);
        let all = places(requests, mode, count);
        let fewer = places(requests, mode, count - 1);
        assert forall|i: int| 0 <= i < all.len() implies 0 <= #[trigger] all[i] < count by {
            if i < fewer.len() {
                assert(all[i] == fewer[i]);
            }
        }
    }
}

/// A batch can be enqueued into a part of the jobs that holds the holders of its job keys, where no
/// other job has one of its ids: it fails or not, and is answered, as it would be with all jobs, and
/// the others stay as they are.
pub proof fn law_batch_on_a_part(
    jobs: Seq<JobView>,
    part: Seq<JobView>,
    others: Set<JobView>,
    batch: Batch,
)
    requires
        jobs_sound(jobs),
        jobs_sound(part),
        made_of(jobs, part, others),
        forall|job: JobView, i: int|
            #![trigger others.contains(job), batch.requests[i]]
            others.contains(job) && 0 <= i < batch.requests.len() ==> !holds_key(
                job,
                batch.requests[i].options.job_key,
            ) && job.id != batch.ids[i],
    ensures
        batch_failure(part, batch) == batch_failure(jobs, batch),
        batch_failure(jobs, batch) is None ==> {
            &&& made_of(batch_stored(jobs, batch), batch_stored(part, batch), others)
            &&& batch_ids(batch_stored(part, batch), batch) == batch_ids(
                batch_stored(jobs, batch),
                batch,
            )
        },
{
    let count = batch.requests.len() as int;
    let order = store_order(batch.requests);
    lemma_places_within(batch.requests, JobKeyMode::Dedupe, count);
    lemma_places_within(batch.requests, JobKeyMode::Replace, count);
    lemma_places_within(batch.requests, JobKeyMode::PreserveRunAt, count);
    let one = places(batch.requests, JobKeyMode::Dedupe, count);
    let two = places(batch.requests, JobKeyMode::Replace, count);
    let three = places(batch.requests, JobKeyMode::PreserveRunAt, count);
    assert forall|job: JobView, i: int|
        #![trigger others.contains(job), order[i]]
        others.contains(job) && 0 <= i < order.len() implies !holds_key(
        job,
        batch.requests[order[i]].options.job_key,
    ) && job.id != batch.ids[order[i]] by {
        if i < one.len() {
            assert(order[i] == one[i]);
        } else if i < one.len() + two.len() {
            assert(order[i] == two[i - one.len()]);
        } else {
            assert(order[i] == three[i - one.len() - two.len()]);
        }
        assert(0 <= order[i] < count);
    }
    lemma_stored_in_a_part(jobs, part, others, batch, order);
    if batch_failure(jobs, batch) is None {
        let whole = batch_stored(jobs, batch);
        let piece = batch_stored(part, batch);
        let ids = batch_ids(whole, batch);
        let piece_ids = batch_ids(piece, batch);
        assert forall|place: int| 0 <= place < ids.len() implies piece_ids[place] == ids[place] by {
            let key = batch.requests[place].options.job_key;
            if key is Some {
                law_batch_ids_line_up(part, batch, place);
                let at = choose|at: int|
                    {
                        &&& 0 <= at < piece.len()
                        &&& (#[trigger] piece[at]).id == piece_ids[place]
                        &&& holds_key(piece[at], key)
                    };
                assert(piece.to_set().contains(piece[at]));
                assert(whole.to_set().contains(piece[at]));
                let found = choose|found: int|
                    0 <= found < whole.len() && whole[found] == piece[at];
                lemma_holder(whole, key, found);
            }
        }
        assert(piece_ids =~= ids);
    }
}

/// The next job can be claimed from a part of the jobs that holds those that can be claimed and the
/// running ones in named queues: it is the one that would be claimed from all of them, and the others
/// stay as they are.
pub proof fn law_claim_on_a_part(
    jobs: Seq<JobView>,
    keep: spec_fn(JobView) -> bool,
    names: Seq<Seq<char>>,
    owner: Seq<char>,
    now: int,
)
    requires
        jobs_sound(jobs),
        forall|i: int| #[trigger] eligible(jobs, names, now, i) ==> keep(jobs[i]),
        forall|i: int|
            0 <= i < jobs.len() && (#[trigger] jobs[i]).status is Running && jobs[i].queue_name
                is Some ==> keep(jobs[i]),
    ensures
        ({
            let part = jobs.filter(keep);
            match next_claim(jobs, names, now) {
                Some(place) => {
                    &&& next_claim(part, names, now) matches Some(found)
                    &&& part[found] == jobs[place]
                    &&& made_of(
                        jobs.update(place, claimed(jobs[place], owner, now)),
                        part.update(found, claimed(part[found], owner, now)),
                        left_out(jobs, keep),
                    )
                },
                None => next_claim(part, names, now) is None,
            }
        }),
{
    let part = jobs.filter(keep);
    let others = left_out(jobs, keep);
    lemma_kept_places(jobs, keep);
    lemma_split(jobs, keep);
    lemma_filter_sound(jobs, keep);
    let places = kept_places(jobs, keep);
    assert forall|queue_name: Option<Seq<char>>| #[trigger] queue_free(part, queue_name)
        == queue_free(jobs, queue_name) by {
        if queue_name is Some && !queue_free(jobs, queue_name) {
            let j = choose|j: int|
                0 <= j < jobs.len() && (#[trigger] jobs[j]).status is Running && jobs[j].queue_name
                    == queue_name;
            assert(keep(jobs[j]));
            let k = choose|k: int| 0 <= k < places.len() && places[k] == j;
            assert(part[k].status is Running);
        }
        if queue_name is Some && !queue_free(part, queue_name) {
            let k = choose|k: int|
                0 <= k < part.len() && (#[trigger] part[k]).status is Running && part[k].queue_name
                    == queue_name;
            assert(jobs[places[k]].status is Running);
        }
    }
    assert forall|k: int| 0 <= k < part.len() implies #[trigger] eligible(part, names, now, k)
        == eligible(jobs, names, now, places[k]) by {
        assert(part[k] == jobs[places[k]]);
        assert(queue_free(part, part[k].queue_name) == queue_free(jobs, part[k].queue_name));
    }
    assert forall|i: int| #[trigger] eligible(jobs, names, now, i) implies places.contains(i) by {
        assert(keep(jobs[i]));
    }
    if let Some(place) = next_claim(jobs, names, now) {
        assert(is_next(jobs, names, now, place));
        assert(eligible(jobs, names, now, place));
        let k = choose|k: int| 0 <= k < places.len() && places[k] == place;
        assert(eligible(part, names, now, k));
        assert forall|l: int| #[trigger] eligible(part, names, now, l) && l != k implies
            runs_before(part[k], part[l]) || !runs_before(
            part[l],
            part[k],
        ) && k < l by {
            assert(eligible(jobs, names, now, places[l]));
            if l < k {
                assert(places[l] < places[k]);
            } else {
                assert(places[k] < places[l]);
            }
        }
        assert(is_next(part, names, now, k));
        lemma_next_claim(part, names, now, k);
        let new = claimed(jobs[place], owner, now);
        lemma_update_set(jobs, place, new);
        lemma_update_set(part, k, new);
        assert(!others.contains(jobs[place])) by {
            assert(keep(jobs[place]));
        }
        assert(jobs.update(place, new).to_set() =~= part.update(k, new).to_set() + others);
    } else if let Some(k) = next_claim(part, names, now) {
        assert(is_next(part, names, now, k));
        let place = places[k];
        assert(eligible(part, names, now, k));
        assert(eligible(jobs, names, now, place));
        assert forall|j: int| #[trigger] eligible(jobs, names, now, j) && j != place implies
            runs_before(jobs[place], jobs[j]) || !runs_before(
            jobs[j],
            jobs[place],
        ) && place < j by {
            let l = choose|l: int| 0 <= l < places.len() && places[l] == j;
            assert(eligible(part, names, now, l));
            if l < k {
                assert(places[l] < places[k]);
            } else {
                assert(places[k] < places[l]);
            }
        }
        assert(is_next(jobs, names, now, place));
    }
}

/// As many old jobs are among the finished ones as among all jobs.
proof fn lemma_pruned_count(jobs: Seq<JobView>, before: int)
    ensures
        ({
            let done = |job: JobView| !job.unfinished();
            let kept = |job: JobView| !finished_before(job, before);
            jobs.len() - jobs.filter(kept).len() == jobs.filter(done).len() - jobs.filter(
                done,
            ).filter(kept).len()
        }),
    decreases jobs.len(),
{
    reveal(Seq::filter);
    if jobs.len() > 0 {
        let done = |job: JobView| !job.unfinished();
        let rest = jobs.drop_last();
        lemma_pruned_count(rest, before);
        if done(jobs.last()) {
            assert(jobs.filter(done).drop_last() =~= rest.filter(done));
        }
    }
}

/// Old jobs can be deleted from the finished ones alone: they are as many, and the others stay as
/// they are.
pub proof fn law_prune_on_a_part(jobs: Seq<JobView>, before: int)
    ensures
        ({
            let done = |job: JobView| !job.unfinished();
            let kept = |job: JobView| !finished_before(job, before);
            &&& jobs.len() - jobs.filter(kept).len() == jobs.filter(done).len() - jobs.filter(
                done,
            ).filter(kept).len()
            &&& made_of(jobs.filter(kept), jobs.filter(done).filter(kept), left_out(jobs, done))
        }),
{
    let done = |job: JobView| !job.unfinished();
    let kept = |job: JobView| !finished_before(job, before);
    let part = jobs.filter(done);
    let others = left_out(jobs, done);
    let after = jobs.filter(kept);
    let part_after = part.filter(kept);
    lemma_pruned_count(jobs, before);
    assert forall|job: JobView| after.to_set().contains(job) == (part_after.to_set()
        + others).contains(job) by {
        lemma_filter_has(jobs, kept, job);
        lemma_filter_has(jobs, done, job);
        lemma_filter_has(part, kept, job);
    }
    assert(after.to_set() =~= part_after.to_set() + others);
}

} // verus!
