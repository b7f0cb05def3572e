//! Whether stored jobs can stand together.

use vstd::prelude::*;

use crate::job::{rows, Job, JobStatus, JobView};
use crate::table::{attempts_valid, ids_unique, jobs_sound, keys_unique, queues_serial};
use crate::text::same_optional_text;

verus! {

/// Whether two jobs can stand in one table.
spec fn compatible(one: JobView, other: JobView) -> bool {
    &&& one.id != other.id
    &&& one.unfinished() && other.unfinished() && one.job_key is Some ==> one.job_key
        != other.job_key
    &&& one.status is Running && other.status is Running && one.queue_name is Some
        ==> one.queue_name != other.queue_name
}

/// Jobs of which each two can stand in one table make a sound table.
proof fn lemma_compatible_sound(jobs: Seq<JobView>)
    ensures
        jobs_sound(jobs) <==> attempts_valid(jobs) && forall|i: int, j: int|
            0 <= i < j < jobs.len() ==> compatible(#[trigger] jobs[i], #[trigger] jobs[j]),
{
    if attempts_valid(jobs) && forall|i: int, j: int|
        0 <= i < j < jobs.len() ==> compatible(#[trigger] jobs[i], #[trigger] jobs[j]) {
        assert forall|i: int, j: int|
            0 <= i < jobs.len() && 0 <= j < jobs.len() && i != j implies compatible(
            #[trigger] jobs[i],
            #[trigger] jobs[j],
        ) by {
            if j < i {
                assert(compatible(jobs[j], jobs[i]));
            }
        }
        assert(ids_unique(jobs)) by {
            assert forall|i: int, j: int|
                0 <= i < jobs.len() && 0 <= j < jobs.len() && i != j implies (#[trigger] jobs[i]).id
                != (#[trigger] jobs[j]).id by {
                assert(compatible(jobs[i], jobs[j]));
            }
        }
        assert(keys_unique(jobs));
        assert(queues_serial(jobs));
    }
    if jobs_sound(jobs) {
        assert forall|i: int, j: int| 0 <= i < j < jobs.len() implies compatible(
            #[trigger] jobs[i],
            #[trigger] jobs[j],
        ) by {
            assert(jobs[i].id != jobs[j].id);
        }
    }
}

/// Jobs left out of a sound table leave it sound.
pub proof fn lemma_filter_sound(jobs: Seq<JobView>, keep: spec_fn(JobView) -> bool)
    requires
        jobs_sound(jobs),
    ensures
        jobs_sound(jobs.filter(keep)),
        jobs.filter(keep).len() <= jobs.len(),
        forall|i: int|
            0 <= i < jobs.filter(keep).len() ==> jobs.contains(#[trigger] jobs.filter(keep)[i]),
    decreases jobs.len(),
{
    reveal(Seq::filter);
    if jobs.len() > 0 {
        let rest = jobs.drop_last();
        lemma_compatible_sound(jobs);
        lemma_compatible_sound(rest);
        assert(jobs_sound(rest)) by {
            assert forall|i: int, j: int| 0 <= i < j < rest.len() implies compatible(
                #[trigger] rest[i],
                #[trigger] rest[j],
            ) by {
                assert(compatible(jobs[i], jobs[j]));
            }
            assert forall|i: int| 0 <= i < rest.len() implies 0 <= (#[trigger] rest[i]).attempt && 1
                <= rest[i].max_attempts by {
                assert(jobs[i].attempt >= 0);
            }
        }
        lemma_filter_sound(rest, keep);
        let after = jobs.filter(keep);
        let kept = rest.filter(keep);
        let last = jobs.len() - 1;
        lemma_compatible_sound(kept);
        lemma_compatible_sound(after);
        assert forall|i: int| 0 <= i < after.len() implies jobs.contains(#[trigger] after[i]) by {
            if i < kept.len() {
                assert(after[i] == kept[i]);
                let k = choose|k: int| 0 <= k < rest.len() && rest[k] == kept[i];
                assert(jobs[k] == after[i]);
            } else {
                assert(jobs[last] == after[i]);
            }
        }
        assert forall|i: int, j: int| 0 <= i < j < after.len() implies compatible(
            #[trigger] after[i],
            #[trigger] after[j],
        ) by {
            assert(after[i] == kept[i]);
            if j < kept.len() {
                assert(after[j] == kept[j]);
            } else {
                let k = choose|k: int| 0 <= k < rest.len() && rest[k] == kept[i];
                assert(compatible(jobs[k], jobs[last]));
            }
        }
        assert forall|i: int| 0 <= i < after.len() implies 0 <= (#[trigger] after[i]).attempt && 1
            <= after[i].max_attempts by {
            assert(jobs.contains(after[i]));
            let k = choose|k: int| 0 <= k < jobs.len() && jobs[k] == after[i];
            assert(jobs[k].attempt >= 0);
        }
    }
}

fn are_compatible(one: &Job, other: &Job) -> (fit: bool)
    ensures
        fit == compatible(one@, other@),
{
    if one.id == other.id {
        return false;
    }
    if one.job_key.is_some() && !one.status.is_terminal() && !other.status.is_terminal()
        && same_optional_text(&one.job_key, &other.job_key) {
        return false;
    }
    if one.queue_name.is_some() && one.status == JobStatus::Running && other.status
        == JobStatus::Running && same_optional_text(&one.queue_name, &other.queue_name) {
        return false;
    }
    true
}

/// Whether stored jobs can stand together.
pub fn are_jobs_sound(jobs: &Vec<Job>) -> (sound: bool)
    ensures
        sound == jobs_sound(rows(jobs@)),
{
    let ghost all = rows(jobs@);
    proof {
        lemma_compatible_sound(all);
    }
    let mut i: usize = 0;
    while i < jobs.len()
        invariant
            i <= jobs@.len(),
            all == rows(jobs@),
            forall|k: int|
                0 <= k < i ==> 0 <= (#[trigger] all[k]).attempt && 1 <= all[k].max_attempts,
            forall|k: int, l: int|
                0 <= k < l < i ==> compatible(#[trigger] all[k], #[trigger] all[l]),
            jobs_sound(all) ==> attempts_valid(all) && forall|k: int, l: int|
                0 <= k < l < all.len() ==> compatible(#[trigger] all[k], #[trigger] all[l]),
        decreases jobs@.len() - i,
    {
        assert(all[i as int] == jobs@[i as int]@);
        if jobs[i].attempt < 0 || jobs[i].max_attempts < 1 {
            return false;
        }
        let mut j: usize = 0;
        while j < i
            invariant
                j <= i < jobs@.len(),
                all == rows(jobs@),
                all[i as int] == jobs@[i as int]@,
                forall|k: int| 0 <= k < j ==> compatible(#[trigger] all[k], all[i as int]),
                jobs_sound(all) ==> attempts_valid(all) && forall|k: int, l: int|
                    0 <= k < l < all.len() ==> compatible(#[trigger] all[k], #[trigger] all[l]),
            decreases i - j,
        {
            assert(all[j as int] == jobs@[j as int]@);
            if !are_compatible(&jobs[j], &jobs[i]) {
                return false;
            }
            j = j + 1;
        }
        i = i + 1;
    }
    true
}

} // verus!
