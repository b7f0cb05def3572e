//! The roster of workers.

use vstd::prelude::*;

use crate::rows::{copy_texts, infos, listed, worker_rows, WorkerInfo, WorkerRow, WorkerRowView};
use crate::sifting::{lemma_filter_step, lemma_sift_end, lemma_sift_start, lemma_sift_step, sifted};
use crate::sorting::{lemma_placed, ranked};
use crate::text::{same_text, texts};
use crate::time::Timestamp;

verus! {

/// No two workers have the same id.
pub open spec fn workers_unique(workers: Seq<WorkerRowView>) -> bool {
    forall|i: int, j: int|
        0 <= i < workers.len() && 0 <= j < workers.len() && i != j ==> (#[trigger] workers[i]).id
            != (#[trigger] workers[j]).id
}

/// The place of the worker with an id.
pub open spec fn worker_place(workers: Seq<WorkerRowView>, id: Seq<char>) -> Option<int> {
    if exists|i: int| 0 <= i < workers.len() && (#[trigger] workers[i]).id == id {
        Some(choose|i: int| 0 <= i < workers.len() && (#[trigger] workers[i]).id == id)
    } else {
        None
    }
}

/// The workers after one of them has registered, or reported again, at `now`.
pub open spec fn registered(
    workers: Seq<WorkerRowView>,
    id: Seq<char>,
    task_names: Seq<Seq<char>>,
    metadata: serde_json::Value,
    now: int,
) -> Seq<WorkerRowView> {
    match worker_place(workers, id) {
        Some(place) => workers.update(
            place,
            WorkerRowView { task_names, metadata, last_heartbeat_at: now, ..workers[place] },
        ),
        None => workers.push(
            WorkerRowView { id, task_names, metadata, started_at: now, last_heartbeat_at: now },
        ),
    }
}

/// The workers but for the one with an id.
pub open spec fn without_worker(workers: Seq<WorkerRowView>, id: Seq<char>) -> Seq<WorkerRowView> {
    workers.filter(|worker: WorkerRowView| worker.id != id)
}

/// The workers that last reported before an instant.
pub open spec fn silent_since(workers: Seq<WorkerRowView>, instant: int) -> Seq<WorkerRowView> {
    workers.filter(|worker: WorkerRowView| worker.last_heartbeat_at < instant)
}

/// The workers that last reported at an instant or later.
pub open spec fn heard_since(workers: Seq<WorkerRowView>, instant: int) -> Seq<WorkerRowView> {
    workers.filter(|worker: WorkerRowView| worker.last_heartbeat_at >= instant)
}

/// The ids of workers.
pub open spec fn worker_ids(workers: Seq<WorkerRowView>) -> Seq<Seq<char>> {
    workers.map_values(|worker: WorkerRowView| worker.id)
}

/// The workers, the one that started first in front.
pub open spec fn by_start(workers: Seq<WorkerRowView>) -> Seq<WorkerRowView> {
    ranked(workers, |worker: WorkerRowView| worker.started_at)
}

fn find_worker(workers: &Vec<WorkerRow>, id: &str) -> (place: Option<usize>)
    requires
        workers_unique(worker_rows(workers@)),
    ensures
        match place {
            Some(place) => place < workers@.len() && worker_place(worker_rows(workers@), id@)
                == Some(place as int),
            None => worker_place(worker_rows(workers@), id@) is None,
        },
{
    let ghost all = worker_rows(workers@);
    let mut i: usize = 0;
    while i < workers.len()
        invariant
            i <= workers@.len(),
            all == worker_rows(workers@),
            workers_unique(all),
            forall|j: int| 0 <= j < i ==> (#[trigger] all[j]).id != id@,
        decreases workers@.len() - i,
    {
        assert(all[i as int] == workers@[i as int]@);
        if same_text(workers[i].id.as_str(), id) {
            return Some(i);
        }
        i = i + 1;
    }
    None
}

/// Registering a worker leaves the ids distinct.
proof fn lemma_registered_unique(
    workers: Seq<WorkerRowView>,
    id: Seq<char>,
    task_names: Seq<Seq<char>>,
    metadata: serde_json::Value,
    now: int,
)
    requires
        workers_unique(workers),
    ensures
        workers_unique(registered(workers, id, task_names, metadata, now)),
{
    let after = registered(workers, id, task_names, metadata, now);
    match worker_place(workers, id) {
        Some(place) => {
            assert forall|i: int| 0 <= i < after.len() implies (#[trigger] after[i]).id
                == workers[i].id by {}
        },
        None => {
            assert forall|i: int| 0 <= i < workers.len() implies #[trigger] after[i] == workers[i]
                && workers[i].id != id by {}
        },
    }
}

/// Registers a worker at `now`, or records that it reported again.
pub fn register(
    workers: &mut Vec<WorkerRow>,
    worker_id: &str,
    task_names: &Vec<String>,
    metadata: serde_json::Value,
    now: Timestamp,
)
    requires
        workers_unique(worker_rows(old(workers)@)),
    ensures
        worker_rows(final(workers)@) == registered(
            worker_rows(old(workers)@),
            worker_id@,
            texts(task_names@),
            metadata,
            now@,
        ),
        workers_unique(worker_rows(final(workers)@)),
{
    let ghost before = worker_rows(workers@);
    match find_worker(workers, worker_id) {
        Some(place) => {
            assert(before[place as int] == workers@[place as int]@);
            workers[place].task_names = copy_texts(task_names);
            workers[place].metadata = metadata;
            workers[place].last_heartbeat_at = now;
        },
        None => {
            workers.push(
                WorkerRow {
                    id: worker_id.to_owned(),
                    task_names: copy_texts(task_names),
                    metadata,
                    started_at: now,
                    last_heartbeat_at: now,
                },
            );
        },
    }
    proof {
        assert(worker_rows(workers@) =~= registered(
            before,
            worker_id@,
            texts(task_names@),
            metadata,
            now@,
        ));
        lemma_registered_unique(before, worker_id@, texts(task_names@), metadata, now@);
    }
}

/// Leaves out the worker with an id.
pub fn drop_worker(workers: &mut Vec<WorkerRow>, id: &str)
    ensures
        worker_rows(final(workers)@) == without_worker(worker_rows(old(workers)@), id@),
{
    let ghost keep = |worker: WorkerRowView| worker.id != id@;
    let ghost all = worker_rows(workers@);
    let ghost mut seen: int = 0;
    let mut i: usize = 0;
    proof {
        lemma_sift_start(all, keep);
    }
    while i < workers.len()
        invariant
            keep == (|worker: WorkerRowView| worker.id != id@),
            sifted(all, keep, seen, worker_rows(workers@), i as int),
        decreases workers@.len() - i,
    {
        let ghost now = worker_rows(workers@);
        proof {
            lemma_sift_step(all, keep, seen, now, i as int);
            assert(now[i as int] == workers@[i as int]@);
        }
        if same_text(workers[i].id.as_str(), id) {
            let _gone: WorkerRow = workers.remove(i);
            assert(worker_rows(workers@) =~= now.remove(i as int));
        } else {
            i = i + 1;
        }
        proof {
            seen = seen + 1;
        }
    }
    proof {
        lemma_sift_end(all, keep, seen, worker_rows(workers@), i as int);
    }
}

/// Leaves out the workers that last reported before an instant, and lists their ids.
pub fn drop_silent(workers: &mut Vec<WorkerRow>, instant: i128) -> (gone: Vec<String>)
    ensures
        worker_rows(final(workers)@) == heard_since(worker_rows(old(workers)@), instant as int),
        texts(gone@) == worker_ids(silent_since(worker_rows(old(workers)@), instant as int)),
{
    let ghost keep = |worker: WorkerRowView| worker.last_heartbeat_at >= instant;
    let ghost leave = |worker: WorkerRowView| worker.last_heartbeat_at < instant;
    let ghost all = worker_rows(workers@);
    let ghost mut seen: int = 0;
    let mut gone: Vec<String> = Vec::new();
    let mut i: usize = 0;
    proof {
        lemma_sift_start(all, keep);
        lemma_sift_start(all, leave);
        assert(texts(gone@) =~= worker_ids(all.take(0).filter(leave)));
    }
    while i < workers.len()
        invariant
            keep == (|worker: WorkerRowView| worker.last_heartbeat_at >= instant),
            leave == (|worker: WorkerRowView| worker.last_heartbeat_at < instant),
            sifted(all, keep, seen, worker_rows(workers@), i as int),
            texts(gone@) == worker_ids(all.take(seen).filter(leave)),
        decreases workers@.len() - i,
    {
        let ghost now = worker_rows(workers@);
        proof {
            lemma_sift_step(all, keep, seen, now, i as int);
            lemma_filter_step(all, leave, seen);
            assert(now[i as int] == workers@[i as int]@);
        }
        if workers[i].last_heartbeat_at.as_nanosecond() < instant {
            let ghost gone_before = texts(gone@);
            let worker: WorkerRow = workers.remove(i);
            gone.push(worker.id);
            assert(worker_rows(workers@) =~= now.remove(i as int));
            assert(texts(gone@) =~= gone_before.push(all[seen].id));
            assert(texts(gone@) =~= worker_ids(all.take(seen + 1).filter(leave)));
        } else {
            i = i + 1;
        }
        proof {
            seen = seen + 1;
        }
    }
    proof {
        lemma_sift_end(all, keep, seen, worker_rows(workers@), i as int);
        assert(all.take(seen) =~= all);
    }
    gone
}

/// Workers left out of a list leave the ids distinct.
pub proof fn lemma_filter_unique(workers: Seq<WorkerRowView>, keep: spec_fn(WorkerRowView) -> bool)
    requires
        workers_unique(workers),
    ensures
        workers_unique(workers.filter(keep)),
        forall|i: int|
            0 <= i < workers.filter(keep).len() ==> workers.contains(
                #[trigger] workers.filter(keep)[i],
            ),
    decreases workers.len(),
{
    reveal(Seq::filter);
    if workers.len() > 0 {
        let rest = workers.drop_last();
        assert(workers_unique(rest)) by {
            assert forall|i: int, j: int|
                0 <= i < rest.len() && 0 <= j < rest.len() && i != j implies (#[trigger] rest[i]).id
                != (#[trigger] rest[j]).id by {
                assert(workers[i].id != workers[j].id);
            }
        }
        lemma_filter_unique(rest, keep);
        let after = workers.filter(keep);
        let kept = rest.filter(keep);
        assert forall|i: int| 0 <= i < after.len() implies workers.contains(#[trigger] after[i]) by {
            if i < kept.len() {
                assert(after[i] == kept[i]);
                let k = choose|k: int| 0 <= k < rest.len() && rest[k] == kept[i];
                assert(workers[k] == after[i]);
            } else {
                assert(workers[workers.len() - 1] == after[i]);
            }
        }
        assert forall|i: int, j: int|
            0 <= i < after.len() && 0 <= j < after.len() && i != j implies (#[trigger] after[i]).id
            != (#[trigger] after[j]).id by {
            if i < kept.len() && j < kept.len() {
                assert(after[i] == kept[i] && after[j] == kept[j]);
            } else {
                let low = if i < kept.len() {
                    i
                } else {
                    j
                };
                assert(after[low] == kept[low]);
                let k = choose|k: int| 0 <= k < rest.len() && rest[k] == kept[low];
                assert(workers[k].id != workers[workers.len() - 1].id);
            }
        }
    }
}

/// Lists the registered workers, the one that started first in front.
pub fn list_workers(workers: &Vec<WorkerRow>) -> (listed_workers: Vec<WorkerInfo>)
    ensures
        infos(listed_workers@) == by_start(worker_rows(workers@)).map_values(
            |worker: WorkerRowView| listed(worker),
        ),
{
    let ghost all = worker_rows(workers@);
    let ghost rank = |worker: WorkerRowView| worker.started_at;
    let ghost list = |worker: WorkerRowView| listed(worker);
    let mut sorted: Vec<WorkerInfo> = Vec::new();
    let mut i: usize = 0;
    assert(all.take(0) =~= Seq::empty());
    assert(infos(sorted@) =~= ranked(all.take(0), rank).map_values(list));
    while i < workers.len()
        invariant
            i <= workers@.len(),
            all == worker_rows(workers@),
            rank == (|worker: WorkerRowView| worker.started_at),
            list == (|worker: WorkerRowView| listed(worker)),
            infos(sorted@) == ranked(all.take(i as int), rank).map_values(list),
        decreases workers@.len() - i,
    {
        let ghost done = ranked(all.take(i as int), rank);
        let ghost row = all[i as int];
        assert(row == workers@[i as int]@);
        let info: WorkerInfo = workers[i].info();
        let mut place: usize = sorted.len();
        assert(done.len() == infos(sorted@).len());
        while place > 0 && info.started_at.is_before(sorted[place - 1].started_at)
            invariant
                place <= sorted@.len(),
                infos(sorted@) == done.map_values(list),
                list == (|worker: WorkerRowView| listed(worker)),
                rank == (|worker: WorkerRowView| worker.started_at),
                done.len() == sorted@.len(),
                info@ == listed(row),
                forall|k: int|
                    place <= k < done.len() ==> rank(#[trigger] done[k]) > rank(row),
            decreases place,
        {
            assert(infos(sorted@)[place - 1] == sorted@[place - 1]@);
            assert(infos(sorted@)[place - 1] == listed(done[place - 1]));
            place = place - 1;
        }
        proof {
            if place > 0 {
                assert(infos(sorted@)[place - 1] == sorted@[place - 1]@);
                assert(infos(sorted@)[place - 1] == listed(done[place - 1]));
            }
            lemma_placed(done, row, rank, place as int);
            assert(all.take(i + 1).drop_last() =~= all.take(i as int));
            assert(all.take(i + 1).last() == row);
        }
        let ghost before = infos(sorted@);
        sorted.insert(place, info);
        assert(infos(sorted@) =~= before.insert(place as int, listed(row)));
        assert(infos(sorted@) =~= done.insert(place as int, row).map_values(list));
        i = i + 1;
    }
    assert(all.take(i as int) =~= all);
    sorted
}

/// Whether stored workers have distinct ids.
pub fn are_workers_unique(workers: &Vec<WorkerRow>) -> (unique: bool)
    ensures
        unique == workers_unique(worker_rows(workers@)),
{
    let ghost all = worker_rows(workers@);
    let mut i: usize = 0;
    while i < workers.len()
        invariant
            i <= workers@.len(),
            all == worker_rows(workers@),
            forall|k: int, l: int|
                0 <= k < i && 0 <= l < i && k != l ==> (#[trigger] all[k]).id != (
                #[trigger] all[l]).id,
        decreases workers@.len() - i,
    {
        assert(all[i as int] == workers@[i as int]@);
        let mut j: usize = 0;
        while j < i
            invariant
                j <= i < workers@.len(),
                all == worker_rows(workers@),
                all[i as int] == workers@[i as int]@,
                forall|k: int| 0 <= k < j ==> (#[trigger] all[k]).id != all[i as int].id,
            decreases i - j,
        {
            assert(all[j as int] == workers@[j as int]@);
            if same_text(workers[j].id.as_str(), workers[i].id.as_str()) {
                return false;
            }
            j = j + 1;
        }
        i = i + 1;
    }
    true
}

} // verus!
