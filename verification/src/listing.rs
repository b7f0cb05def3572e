//! Stored jobs counted, listed and deleted.

use vstd::prelude::*;

use crate::error::StoreError;
use crate::job::{finished, rows, Job, JobStatus, JobView};
use crate::rows::JobCounts;
use crate::sifting::{lemma_sift_end, lemma_sift_start, lemma_sift_step, sifted};
use crate::sorting::{lemma_placed, ranked};
use crate::time::least;

verus! {

/// How many jobs have a status.
pub open spec fn count_status(jobs: Seq<JobView>, status: JobStatus) -> nat
    decreases jobs.len(),
{
    if jobs.len() == 0 {
        0
    } else {
        count_status(jobs.drop_last(), status) + if jobs.last().status == status {
            1nat
        } else {
            0nat
        }
    }
}

/// Counts jobs by status.
pub fn count_jobs(jobs: &Vec<Job>) -> (counts: JobCounts)
    requires
        rows(jobs@).len() <= i64::MAX,
    ensures
        counts.queued == count_status(rows(jobs@), JobStatus::Queued),
        counts.running == count_status(rows(jobs@), JobStatus::Running),
        counts.succeeded == count_status(rows(jobs@), JobStatus::Succeeded),
        counts.failed == count_status(rows(jobs@), JobStatus::Failed),
        counts.cancelled == count_status(rows(jobs@), JobStatus::Cancelled),
{
    let ghost all = rows(jobs@);
    let mut counts: JobCounts = JobCounts::default();
    let mut i: usize = 0;
    assert(all.take(0) =~= Seq::empty());
    while i < jobs.len()
        invariant
            i <= jobs@.len() <= i64::MAX,
            all == rows(jobs@),
            counts.queued == count_status(all.take(i as int), JobStatus::Queued),
            counts.running == count_status(all.take(i as int), JobStatus::Running),
            counts.succeeded == count_status(all.take(i as int), JobStatus::Succeeded),
            counts.failed == count_status(all.take(i as int), JobStatus::Failed),
            counts.cancelled == count_status(all.take(i as int), JobStatus::Cancelled),
            0 <= counts.queued <= i,
            0 <= counts.running <= i,
            0 <= counts.succeeded <= i,
            0 <= counts.failed <= i,
            0 <= counts.cancelled <= i,
        decreases jobs@.len() - i,
    {
        proof {
            assert(all[i as int] == jobs@[i as int]@);
            assert(all.take(i + 1).drop_last() =~= all.take(i as int));
            assert(all.take(i + 1).last() == all[i as int]);
        }
        match jobs[i].status {
            JobStatus::Queued => {
                counts.queued = counts.queued + 1;
            },
            JobStatus::Running => {
                counts.running = counts.running + 1;
            },
            JobStatus::Succeeded => {
                counts.succeeded = counts.succeeded + 1;
            },
            JobStatus::Failed => {
                counts.failed = counts.failed + 1;
            },
            JobStatus::Cancelled => {
                counts.cancelled = counts.cancelled + 1;
            },
        }
        i = i + 1;
    }
    assert(all.take(i as int) =~= all);
    counts
}

/// The jobs, the most recently created first.
pub open spec fn newest_first(jobs: Seq<JobView>) -> Seq<JobView> {
    ranked(jobs, |job: JobView| -job.created_at)
}

/// Lists the most recently created jobs, at most `limit` of them. Fails where the limit is
/// negative.
pub fn recent_jobs(jobs: &Vec<Job>, limit: i64) -> (result: Result<Vec<Job>, StoreError>)
    ensures
        if limit < 0 {
            result matches Err(StoreError::NegativeLimit)
        } else {
            result matches Ok(newest) && rows(newest@) == newest_first(rows(jobs@)).take(
                least(limit as int, rows(jobs@).len() as int),
            )
        },
{
    if limit < 0 {
        return Err(StoreError::NegativeLimit);
    }
    let ghost all = rows(jobs@);
    let ghost rank = |job: JobView| -job.created_at;
    let mut sorted: Vec<Job> = Vec::new();
    let mut i: usize = 0;
    assert(all.take(0) =~= Seq::empty());
    assert(rows(sorted@) =~= ranked(all.take(0), rank));
    while i < jobs.len()
        invariant
            i <= jobs@.len(),
            all == rows(jobs@),
            rank == (|job: JobView| -job.created_at),
            rows(sorted@) == ranked(all.take(i as int), rank),
            sorted@.len() == i,
        decreases jobs@.len() - i,
    {
        let ghost done = rows(sorted@);
        let ghost row = all[i as int];
        assert(row == jobs@[i as int]@);
        let job: Job = jobs[i].clone();
        let mut place: usize = sorted.len();
        while place > 0 && sorted[place - 1].created_at.is_before(job.created_at)
            invariant
                place <= sorted@.len(),
                done == rows(sorted@),
                rank == (|job: JobView| -job.created_at),
                job@ == row,
                forall|k: int|
                    place <= k < done.len() ==> rank(#[trigger] done[k]) > rank(row),
            decreases place,
        {
            assert(done[place - 1] == sorted@[place - 1]@);
            place = place - 1;
        }
        proof {
            if place > 0 {
                assert(done[place - 1] == sorted@[place - 1]@);
            }
            lemma_placed(done, row, rank, place as int);
            assert(all.take(i + 1).drop_last() =~= all.take(i as int));
            assert(all.take(i + 1).last() == row);
        }
        sorted.insert(place, job);
        assert(rows(sorted@) =~= done.insert(place as int, row));
        i = i + 1;
    }
    assert(all.take(i as int) =~= all);
    let ghost full = rows(sorted@);
    if (limit as u64) < (sorted.len() as u64) {
        sorted.truncate(limit as usize);
    }
    assert(rows(sorted@) =~= full.take(least(limit as int, all.len() as int)));
    Ok(sorted)
}

/// Whether a job finished before an instant.
pub open spec fn finished_before(job: JobView, instant: int) -> bool {
    finished(job.status) && job.finished_at is Some && job.finished_at->0 < instant
}

/// Leaves out the jobs that finished before an instant.
pub fn drop_finished(jobs: &mut Vec<Job>, instant: i128)
    ensures
        rows(final(jobs)@) == rows(old(jobs)@).filter(
            |job: JobView| !finished_before(job, instant as int),
        ),
{
    let ghost keep = |job: JobView| !finished_before(job, instant as int);
    let ghost all = rows(jobs@);
    let ghost mut seen: int = 0;
    let mut i: usize = 0;
    proof {
        lemma_sift_start(all, keep);
    }
    while i < jobs.len()
        invariant
            keep == (|job: JobView| !finished_before(job, instant as int)),
            sifted(all, keep, seen, rows(jobs@), i as int),
        decreases jobs@.len() - i,
    {
        let ghost now = rows(jobs@);
        proof {
            lemma_sift_step(all, keep, seen, now, i as int);
            assert(now[i as int] == jobs@[i as int]@);
        }
        let stale: bool = match jobs[i].finished_at {
            Some(finished_at) => jobs[i].status.is_terminal() && finished_at.as_nanosecond()
                < instant,
            None => false,
        };
        if stale {
            let _gone: Job = jobs.remove(i);
            assert(rows(jobs@) =~= now.remove(i as int));
        } else {
            i = i + 1;
        }
        proof {
            seen = seen + 1;
        }
    }
    proof {
        lemma_sift_end(all, keep, seen, rows(jobs@), i as int);
    }
}

} // verus!
