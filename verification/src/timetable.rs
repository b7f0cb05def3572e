//! The recorded occurrences of schedules.

use vstd::prelude::*;

use crate::cron::CronJob;
use crate::job::EnqueueRequestView;
use crate::rows::{cron_rows, CronRow, CronRowView};
use crate::text::same_text;

verus! {

/// No two schedules have the same identifier.
pub open spec fn crons_unique(crons: Seq<CronRowView>) -> bool {
    forall|i: int, j: int|
        0 <= i < crons.len() && 0 <= j < crons.len() && i != j ==> (#[trigger] crons[i]).identifier
            != (#[trigger] crons[j]).identifier
}

/// The place of the schedule with an identifier.
pub open spec fn cron_place(crons: Seq<CronRowView>, identifier: Seq<char>) -> Option<int> {
    if exists|i: int| 0 <= i < crons.len() && (#[trigger] crons[i]).identifier == identifier {
        Some(choose|i: int| 0 <= i < crons.len() && (#[trigger] crons[i]).identifier == identifier)
    } else {
        None
    }
}

/// Whether the occurrence of a schedule at `due` is later than every recorded one.
pub open spec fn occurrence_new(crons: Seq<CronRowView>, identifier: Seq<char>, due: int) -> bool {
    match cron_place(crons, identifier) {
        Some(place) => crons[place].last_run_at is None || crons[place].last_run_at->0 < due,
        None => true,
    }
}

/// Whether a schedule was recorded before `now`.
pub open spec fn seen_before(crons: Seq<CronRowView>, identifier: Seq<char>, now: int) -> bool {
    match cron_place(crons, identifier) {
        Some(place) => crons[place].created_at < now,
        None => false,
    }
}

/// The schedules after an occurrence at `due` was recorded at `now`.
pub open spec fn recorded(
    crons: Seq<CronRowView>,
    cron: CronJob,
    due: int,
    next: int,
    now: int,
) -> Seq<CronRowView> {
    let row = CronRowView {
        identifier: cron.identifier@,
        name: cron.name@,
        payload: cron.payload,
        last_run_at: Some(due),
        next_run_at: Some(next),
        created_at: now,
    };
    match cron_place(crons, cron.identifier@) {
        Some(place) => crons.update(
            place,
            CronRowView { created_at: crons[place].created_at, ..row },
        ),
        None => crons.push(row),
    }
}

/// The request for a job that an occurrence of a schedule makes.
pub open spec fn cron_request(cron: CronJob) -> EnqueueRequestView {
    EnqueueRequestView { name: cron.name@, payload: cron.payload, options: cron.options@ }
}

/// Whether an occurrence of a schedule at `due` makes a job: it is a new one, and the schedule was
/// recorded before or catches up when it is first seen.
pub open spec fn occurrence_runs(
    crons: Seq<CronRowView>,
    cron: CronJob,
    due: int,
    now: int,
) -> bool {
    occurrence_new(crons, cron.identifier@, due) && (cron.catch_up_on_start || seen_before(
        crons,
        cron.identifier@,
        now,
    ))
}

pub fn find_cron(crons: &Vec<CronRow>, identifier: &str) -> (place: Option<usize>)
    requires
        crons_unique(cron_rows(crons@)),
    ensures
        match place {
            Some(place) => place < crons@.len() && cron_place(cron_rows(crons@), identifier@)
                == Some(place as int) && cron_rows(crons@)[place as int].identifier == identifier@,
            None => cron_place(cron_rows(crons@), identifier@) is None,
        },
{
    let ghost all = cron_rows(crons@);
    let mut i: usize = 0;
    while i < crons.len()
        invariant
            i <= crons@.len(),
            all == cron_rows(crons@),
            crons_unique(all),
            forall|j: int| 0 <= j < i ==> (#[trigger] all[j]).identifier != identifier@,
        decreases crons@.len() - i,
    {
        assert(all[i as int] == crons@[i as int]@);
        if same_text(crons[i].identifier.as_str(), identifier) {
            return Some(i);
        }
        i = i + 1;
    }
    None
}

/// Recording an occurrence leaves the identifiers distinct.
pub proof fn lemma_recorded_unique(
    crons: Seq<CronRowView>,
    cron: CronJob,
    due: int,
    next: int,
    now: int,
)
    requires
        crons_unique(crons),
    ensures
        crons_unique(recorded(crons, cron, due, next, now)),
{
    let after = recorded(crons, cron, due, next, now);
    match cron_place(crons, cron.identifier@) {
        Some(place) => {
            assert forall|i: int| 0 <= i < after.len() implies (#[trigger] after[i]).identifier
                == crons[i].identifier by {}
        },
        None => {
            assert forall|i: int| 0 <= i < crons.len() implies #[trigger] after[i] == crons[i]
                && crons[i].identifier != cron.identifier@ by {}
        },
    }
}

/// Whether stored schedules have distinct identifiers.
pub fn are_crons_unique(crons: &Vec<CronRow>) -> (unique: bool)
    ensures
        unique == crons_unique(cron_rows(crons@)),
{
    let ghost all = cron_rows(crons@);
    let mut i: usize = 0;
    while i < crons.len()
        invariant
            i <= crons@.len(),
            all == cron_rows(crons@),
            forall|k: int, l: int|
                0 <= k < i && 0 <= l < i && k != l ==> (#[trigger] all[k]).identifier != (
                #[trigger] all[l]).identifier,
        decreases crons@.len() - i,
    {
        assert(all[i as int] == crons@[i as int]@);
        let mut j: usize = 0;
        while j < i
            invariant
                j <= i < crons@.len(),
                all == cron_rows(crons@),
                all[i as int] == crons@[i as int]@,
                forall|k: int|
                    0 <= k < j ==> (#[trigger] all[k]).identifier != all[i as int].identifier,
            decreases i - j,
        {
            assert(all[j as int] == crons@[j as int]@);
            if same_text(crons[j].identifier.as_str(), crons[i].identifier.as_str()) {
                return false;
            }
            j = j + 1;
        }
        i = i + 1;
    }
    true
}

} // verus!
