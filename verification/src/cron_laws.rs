//! What occurrences of schedules do to the queue, and what scheduled jobs are made of.

use vstd::prelude::*;

use crate::cron::{cron_options, CronJob, CronSchedule};
use crate::error::StoreError;
use crate::job::{default_options, EnqueueRequestView, JobKeyMode};
use crate::job_laws::{is_new_job, keeps_key, takes_on};
use crate::json::{json_object, no_payload};
use crate::queue::{cron_outcome, QueueView};
use crate::rows::{CronEnqueueResult, CronRow, CronRowView};
use crate::schedule::{
    latest_boundary, latest_slot, next_boundary, next_slot, DayRule,
};
use crate::table::{holder, holds_key, lemma_holder, place_of};
use crate::timetable::cron_place;

verus! {

/// Whether a recorded schedule is the one with an identifier.
pub open spec fn records(row: CronRowView, cron: CronJob) -> bool {
    row.identifier == cron.identifier@
}

/// Whether an occurrence at `due` was recorded before, or a later one.
pub open spec fn had(crons: Seq<CronRowView>, cron: CronJob, due: int) -> bool {
    exists|i: int|
        {
            &&& 0 <= i < crons.len()
            &&& records(#[trigger] crons[i], cron)
            &&& crons[i].last_run_at matches Some(last) && last >= due
        }
}

/// Whether a schedule was recorded before `now`.
pub open spec fn known(crons: Seq<CronRowView>, cron: CronJob, now: int) -> bool {
    exists|i: int|
        0 <= i < crons.len() && records(#[trigger] crons[i], cron) && crons[i].created_at < now
}

/// Whether some unfinished job has the job key that a schedule gives to its jobs.
pub open spec fn key_in_use(before: QueueView, cron: CronJob) -> bool {
    cron.options@.job_key matches Some(key) && exists|i: int|
        0 <= i < before.jobs.len() && keeps_key(#[trigger] before.jobs[i], key)
}

/// What a schedule asks for of its jobs.
pub open spec fn asks_for(cron: CronJob) -> EnqueueRequestView {
    EnqueueRequestView { name: cron.name@, payload: cron.payload, options: cron.options@ }
}

/// The place of a recorded schedule is where its identifier stands, and it has none where that stands
/// nowhere.
proof fn lemma_place(before: QueueView, cron: CronJob, i: int)
    requires
        before.sound(),
        0 <= i < before.crons.len(),
        records(before.crons[i], cron),
    ensures
        cron_place(before.crons, cron.identifier@) == Some(i),
{
    let crons = before.crons;
    let found = choose|k: int|
        0 <= k < crons.len() && (#[trigger] crons[k]).identifier == cron.identifier@;
    if found != i {
        assert(crons[found].identifier != crons[i].identifier);
    }
}

/// An occurrence that was recorded before, or is earlier than a recorded one, is skipped, and changes
/// nothing.
pub proof fn law_old_occurrence_is_skipped(
    before: QueueView,
    after: QueueView,
    cron: CronJob,
    due: int,
    next: int,
    id: u128,
    now: int,
    result: Result<CronEnqueueResult, StoreError>,
)
    requires
        before.sound(),
        cron_outcome(before, after, cron, due, next, id, now, result),
        had(before.crons, cron, due),
    ensures
        result == Ok::<CronEnqueueResult, StoreError>(CronEnqueueResult::Skipped),
        after == before,
{
    let i = choose|i: int|
        {
            &&& 0 <= i < before.crons.len()
            &&& records(#[trigger] before.crons[i], cron)
            &&& before.crons[i].last_run_at matches Some(last) && last >= due
        };
    lemma_place(before, cron, i);
}

/// A new occurrence is recorded: the schedule has it for its last and the given one for its next,
/// together with the name and the payload, and all other schedules stay as they are. A schedule that
/// was recorded keeps the time of that.
pub proof fn law_new_occurrence_is_recorded(
    before: QueueView,
    after: QueueView,
    cron: CronJob,
    due: int,
    next: int,
    id: u128,
    now: int,
    result: Result<CronEnqueueResult, StoreError>,
    place: int,
)
    requires
        before.sound(),
        cron_outcome(before, after, cron, due, next, id, now, result),
        !had(before.crons, cron, due),
        result is Ok,
    ensures
        after.workers == before.workers,
        0 <= place < before.crons.len() && records(before.crons[place], cron) ==> {
            let row = after.crons[place];
            &&& after.crons.len() == before.crons.len()
            &&& forall|i: int|
                0 <= i < before.crons.len() && i != place ==> #[trigger] after.crons[i]
                    == before.crons[i]
            &&& is_record(row, cron, due, next)
            &&& row.created_at == before.crons[place].created_at
        },
        (forall|i: int| 0 <= i < before.crons.len() ==> !records(#[trigger] before.crons[i], cron))
            ==> {
            let row = after.crons[before.crons.len() as int];
            &&& after.crons.len() == before.crons.len() + 1
            &&& forall|i: int|
                0 <= i < before.crons.len() ==> #[trigger] after.crons[i] == before.crons[i]
            &&& is_record(row, cron, due, next)
            &&& row.created_at == now
        },
{
    lemma_not_had(before, cron, due);
    if 0 <= place < before.crons.len() && records(before.crons[place], cron) {
        lemma_place(before, cron, place);
    }
    if forall|i: int| 0 <= i < before.crons.len() ==> !records(#[trigger] before.crons[i], cron) {
        if let Some(found) = cron_place(before.crons, cron.identifier@) {
            assert(0 <= found < before.crons.len() && records(before.crons[found], cron));
        }
    }
}

/// Whether a row records an occurrence of a schedule.
pub open spec fn is_record(row: CronRowView, cron: CronJob, due: int, next: int) -> bool {
    &&& row.identifier == cron.identifier@
    &&& row.name == cron.name@
    &&& row.payload == cron.payload
    &&& row.last_run_at == Some(due)
    &&& row.next_run_at == Some(next)
}

proof fn lemma_not_had(before: QueueView, cron: CronJob, due: int)
    requires
        !had(before.crons, cron, due),
    ensures
        crate::timetable::occurrence_new(before.crons, cron.identifier@, due),
{
    if let Some(found) = cron_place(before.crons, cron.identifier@) {
        assert(0 <= found < before.crons.len() && records(before.crons[found], cron));
    }
}

proof fn lemma_known(before: QueueView, cron: CronJob, now: int)
    requires
        before.sound(),
    ensures
        known(before.crons, cron, now) == crate::timetable::seen_before(
            before.crons,
            cron.identifier@,
            now,
        ),
{
    if known(before.crons, cron, now) {
        let i = choose|i: int|
            0 <= i < before.crons.len() && records(#[trigger] before.crons[i], cron)
                && before.crons[i].created_at < now;
        lemma_place(before, cron, i);
    }
    if let Some(found) = cron_place(before.crons, cron.identifier@) {
        assert(0 <= found < before.crons.len() && records(before.crons[found], cron));
    }
}

/// The first occurrence of a schedule that was not recorded before this moment makes no job, unless
/// the schedule is to catch up: it is skipped, and the jobs stay as they are.
pub proof fn law_first_occurrence_waits(
    before: QueueView,
    after: QueueView,
    cron: CronJob,
    due: int,
    next: int,
    id: u128,
    now: int,
    result: Result<CronEnqueueResult, StoreError>,
)
    requires
        before.sound(),
        cron_outcome(before, after, cron, due, next, id, now, result),
        !cron.catch_up_on_start,
        !known(before.crons, cron, now),
    ensures
        result == Ok::<CronEnqueueResult, StoreError>(CronEnqueueResult::Skipped),
        after.jobs == before.jobs,
{
    lemma_known(before, cron, now);
}

/// A new occurrence of a schedule that is known, or catches up, makes one new job where no unfinished
/// one has the job key: with the name, the payload and the options of the schedule, for the time at
/// which it was due. It is refused, and nothing changes, where the schedule allows no attempt or the
/// id is taken.
pub proof fn law_occurrence_makes_the_schedules_job(
    before: QueueView,
    after: QueueView,
    cron: CronJob,
    due: int,
    next: int,
    id: u128,
    now: int,
    result: Result<CronEnqueueResult, StoreError>,
)
    requires
        before.sound(),
        cron_outcome(before, after, cron, due, next, id, now, result),
        !had(before.crons, cron, due),
        cron.catch_up_on_start || known(before.crons, cron, now),
        !key_in_use(before, cron),
    ensures
        cron.options.max_attempts < 1 ==> result is Err,
        cron.options.max_attempts >= 1 && (exists|i: int|
            0 <= i < before.jobs.len() && (#[trigger] before.jobs[i]).id == id) ==> result == Err::<
            CronEnqueueResult,
            StoreError,
        >(StoreError::DuplicateId),
        result is Err ==> after == before,
        cron.options.max_attempts >= 1 && (forall|i: int|
            0 <= i < before.jobs.len() ==> (#[trigger] before.jobs[i]).id != id) ==> {
            let job = after.jobs[before.jobs.len() as int];
            &&& result == Ok::<CronEnqueueResult, StoreError>(CronEnqueueResult::Enqueued(id))
            &&& after.jobs.len() == before.jobs.len() + 1
            &&& forall|i: int|
                0 <= i < before.jobs.len() ==> #[trigger] after.jobs[i] == before.jobs[i]
            &&& job.name == cron.name@
            &&& job.payload == cron.payload
            &&& job.run_at == due
            &&& job.priority == cron.options.priority
            &&& job.max_attempts == cron.options.max_attempts
            &&& job.queue_name == cron.options@.queue_name
            &&& job.job_key == cron.options@.job_key
            &&& is_new_job(job, asks_for(cron), due, id, now)
        },
{
    lemma_not_had(before, cron, due);
    lemma_known(before, cron, now);
    let key = cron.options@.job_key;
    assert(holder(before.jobs, key) is None) by {
        if let Some(place) = holder(before.jobs, key) {
            assert(0 <= place < before.jobs.len() && holds_key(before.jobs[place], key));
            assert(keeps_key(before.jobs[place], key->0));
        }
    }
    if exists|i: int| 0 <= i < before.jobs.len() && (#[trigger] before.jobs[i]).id == id {
        assert(place_of(before.jobs, id) is Some);
    }
}

/// A new occurrence of a schedule that is known, or catches up, is refused where the schedule allows
/// no attempt, and nothing changes, nor is it recorded.
pub proof fn law_occurrence_without_attempts(
    before: QueueView,
    after: QueueView,
    cron: CronJob,
    due: int,
    next: int,
    id: u128,
    now: int,
    result: Result<CronEnqueueResult, StoreError>,
)
    requires
        before.sound(),
        cron_outcome(before, after, cron, due, next, id, now, result),
        !had(before.crons, cron, due),
        cron.catch_up_on_start || known(before.crons, cron, now),
        cron.options.max_attempts < 1,
    ensures
        result == Err::<CronEnqueueResult, StoreError>(StoreError::InvalidMaxAttempts),
        after == before,
{
    lemma_not_had(before, cron, due);
    lemma_known(before, cron, now);
}

/// A new occurrence of a schedule that is known, or catches up, makes no new job where an unfinished
/// one has the job key: that job takes on what the schedule asks for, as the mode says.
pub proof fn law_occurrence_meets_its_key(
    before: QueueView,
    after: QueueView,
    cron: CronJob,
    due: int,
    next: int,
    id: u128,
    now: int,
    result: Result<CronEnqueueResult, StoreError>,
    place: int,
)
    requires
        before.sound(),
        cron_outcome(before, after, cron, due, next, id, now, result),
        !had(before.crons, cron, due),
        cron.catch_up_on_start || known(before.crons, cron, now),
        cron.options.max_attempts >= 1,
        cron.options@.job_key is Some,
        0 <= place < before.jobs.len(),
        keeps_key(before.jobs[place], cron.options@.job_key->0),
    ensures
        result == Ok::<CronEnqueueResult, StoreError>(
            CronEnqueueResult::AlreadyQueued(before.jobs[place].id),
        ),
        after.jobs.len() == before.jobs.len(),
        forall|i: int|
            0 <= i < before.jobs.len() && i != place ==> #[trigger] after.jobs[i] == before.jobs[i],
        takes_on(after.jobs[place], before.jobs[place], asks_for(cron), due),
{
    lemma_not_had(before, cron, due);
    lemma_known(before, cron, now);
    lemma_holder(before.jobs, cron.options@.job_key, place);
}

/// A recorded schedule shows what its fields hold.
pub proof fn law_cron_row_shows_its_fields(row: CronRow)
    ensures
        row@.identifier == row.identifier@,
        row@.name == row.name@,
        row@.payload == row.payload,
        row@.created_at == row.created_at@,
        row.last_run_at matches Some(at) ==> row@.last_run_at == Some(at@),
        row.last_run_at is None ==> row@.last_run_at is None,
        row.next_run_at matches Some(at) ==> row@.next_run_at == Some(at@),
        row.next_run_at is None ==> row@.next_run_at is None,
{
}

/// A job that was given no options runs at once and in no named queue, at priority zero, up to 25
/// times, and without a job key.
pub proof fn law_default_options()
    ensures
        default_options().queue_name is None,
        default_options().priority == 0,
        default_options().run_at is None,
        default_options().max_attempts == 25,
        default_options().job_key is None,
        default_options().job_key_mode == JobKeyMode::Dedupe,
{
}

/// A scheduled job that was given nothing but its schedule has no payload, does not catch up, and
/// keeps its occurrences apart by its identifier; else it has the options of any job.
pub proof fn law_plain_schedule(
    cron: CronJob,
    identifier: Seq<char>,
    name: Seq<char>,
    schedule: CronSchedule,
)
    requires
        cron.is_plain(identifier, name, schedule),
    ensures
        cron.identifier@ == identifier,
        cron.name@ == name,
        cron.payload == no_payload(),
        cron.schedule == schedule,
        !cron.catch_up_on_start,
        cron.options@.job_key == Some(identifier),
        cron.options@.queue_name is None,
        cron.options@.priority == 0,
        cron.options@.run_at is None,
        cron.options@.max_attempts == 25,
        cron.options@.job_key_mode == JobKeyMode::Dedupe,
        cron_options(identifier).job_key == Some(identifier),
        no_payload() == json_object(Seq::empty()),
{
}

/// The occurrences of a schedule are those of its kind: by the clocks of its own time zone, or by its
/// own interval.
pub proof fn law_occurrences_of_a_kind(schedule: CronSchedule, instant: int)
    ensures
        match schedule {
            CronSchedule::Daily { schedule: daily, time_zone } => {
                &&& schedule.due(instant) == latest_slot(time_zone, DayRule::Daily(daily), instant)
                &&& schedule.next(instant) == next_slot(time_zone, DayRule::Daily(daily), instant)
            },
            CronSchedule::Monthly { schedule: monthly, time_zone } => {
                &&& schedule.due(instant) == latest_slot(
                    time_zone,
                    DayRule::Monthly(monthly),
                    instant,
                )
                &&& schedule.next(instant) == next_slot(
                    time_zone,
                    DayRule::Monthly(monthly),
                    instant,
                )
            },
            CronSchedule::Interval { every } => {
                &&& schedule.due(instant) == latest_boundary(every@, instant)
                &&& schedule.next(instant) == next_boundary(every@, instant)
            },
        },
{
}

} // verus!
