//! Jobs that are enqueued on a schedule.

use vstd::prelude::*;

use crate::job::{default_options, EnqueueOptions, EnqueueOptionsView};
use crate::json::{empty_payload, no_payload};
use crate::schedule::{
    find_latest_slot, find_next_boundary, find_next_slot, interval_in_range, latest_answered,
    latest_boundary, latest_interval_due_at, latest_slot, next_answered, next_boundary, next_slot,
    well_inside, DailyJobSchedule, DayRule, MonthlyJobSchedule, OutOfRange,
};
use crate::time::{instant_of, Duration, Timestamp, NANOS_PER_SECOND};
use crate::zone::{answers_to, find_zone, is_utc, utc};

verus! {

/// When a job is enqueued.
#[allow(inconsistent_fields)]
#[derive(Debug)]
pub enum CronSchedule {
    /// At a time of day in a time zone.
    Daily { schedule: DailyJobSchedule, time_zone: jiff::tz::TimeZone },
    /// At a time of day in a time zone, on one day of each month.
    Monthly { schedule: MonthlyJobSchedule, time_zone: jiff::tz::TimeZone },
    /// At every multiple of a span of time, counted from the Unix epoch.
    Interval { every: Duration },
}

impl Clone for CronSchedule {
    fn clone(&self) -> (copy: Self)
        ensures
            copy == *self,
    {
        match self {
            CronSchedule::Daily { schedule, time_zone } => CronSchedule::Daily {
                schedule: *schedule,
                time_zone: time_zone.clone(),
            },
            CronSchedule::Monthly { schedule, time_zone } => CronSchedule::Monthly {
                schedule: *schedule,
                time_zone: time_zone.clone(),
            },
            CronSchedule::Interval { every } => CronSchedule::Interval { every: *every },
        }
    }
}

impl CronSchedule {
    /// The latest occurrence up to `now`.
    pub open spec fn due(self, now: int) -> Option<int> {
        match self {
            CronSchedule::Daily { schedule, time_zone } => latest_slot(
                time_zone,
                DayRule::Daily(schedule),
                now,
            ),
            CronSchedule::Monthly { schedule, time_zone } => latest_slot(
                time_zone,
                DayRule::Monthly(schedule),
                now,
            ),
            CronSchedule::Interval { every } => latest_boundary(every@, now),
        }
    }

    /// Whether the search for the latest occurrence stays in range.
    pub open spec fn due_in_range(self, now: int) -> bool {
        match self {
            CronSchedule::Daily { schedule, time_zone } => latest_answered(
                time_zone,
                DayRule::Daily(schedule),
                now,
            ),
            CronSchedule::Monthly { schedule, time_zone } => latest_answered(
                time_zone,
                DayRule::Monthly(schedule),
                now,
            ),
            CronSchedule::Interval { every } => true,
        }
    }

    /// The first occurrence after `after`.
    pub open spec fn next(self, after: int) -> int {
        match self {
            CronSchedule::Daily { schedule, time_zone } => next_slot(
                time_zone,
                DayRule::Daily(schedule),
                after,
            ),
            CronSchedule::Monthly { schedule, time_zone } => next_slot(
                time_zone,
                DayRule::Monthly(schedule),
                after,
            ),
            CronSchedule::Interval { every } => next_boundary(every@, after),
        }
    }

    /// Whether the search for the next occurrence stays in range.
    pub open spec fn next_in_range(self, after: int) -> bool {
        match self {
            CronSchedule::Daily { schedule, time_zone } => next_answered(
                time_zone,
                DayRule::Daily(schedule),
                after,
            ),
            CronSchedule::Monthly { schedule, time_zone } => next_answered(
                time_zone,
                DayRule::Monthly(schedule),
                after,
            ),
            CronSchedule::Interval { every } => interval_in_range(every@, after),
        }
    }

    /// Finds the latest occurrence up to `now`. Fails close to the ends of the range of time.
    pub fn find_due(&self, now: Timestamp) -> (due: Result<Option<Timestamp>, OutOfRange>)
        ensures
            due is Ok <==> self.due_in_range(now@),
            due matches Ok(due) ==> instant_of(due) == self.due(now@),
            well_inside(now@, 374, 4) ==> due is Ok,
    {
        match self {
            CronSchedule::Daily { schedule, time_zone } => find_latest_slot(
                now,
                DayRule::Daily(*schedule),
                time_zone,
            ),
            CronSchedule::Monthly { schedule, time_zone } => find_latest_slot(
                now,
                DayRule::Monthly(*schedule),
                time_zone,
            ),
            CronSchedule::Interval { every } => Ok(latest_interval_due_at(now, *every)),
        }
    }

    /// Finds the first occurrence after `after`. Fails close to the ends of the range of time.
    pub fn find_next(&self, after: Timestamp) -> (next: Result<Timestamp, OutOfRange>)
        ensures
            next is Ok <==> self.next_in_range(after@),
            next matches Ok(next) ==> next@ == self.next(after@),
            !(self is Interval) && well_inside(after@, 4, 374) ==> next is Ok,
    {
        match self {
            CronSchedule::Daily { schedule, time_zone } => find_next_slot(
                after,
                DayRule::Daily(*schedule),
                time_zone,
            ),
            CronSchedule::Monthly { schedule, time_zone } => find_next_slot(
                after,
                DayRule::Monthly(*schedule),
                time_zone,
            ),
            CronSchedule::Interval { every } => find_next_boundary(after, *every),
        }
    }

    /// The latest occurrence up to `now`.
    pub fn latest_due_at(&self, now: Timestamp) -> (due: Option<Timestamp>)
        requires
            self.due_in_range(now@),
        ensures
            instant_of(due) == self.due(now@),
    {
        match self.find_due(now) {
            Ok(due) => due,
            Err(_) => None,
        }
    }

    /// The first occurrence after `after`.
    pub fn next_after(&self, after: Timestamp) -> (next: Timestamp)
        requires
            self.next_in_range(after@),
        ensures
            next@ == self.next(after@),
    {
        match self.find_next(after) {
            Ok(next) => next,
            Err(_) => after,
        }
    }
}

/// A job that is enqueued on a schedule.
#[derive(Debug)]
pub struct CronJob {
    /// Names the occurrences of the schedule; no two schedules of a worker share one.
    pub identifier: String,
    /// The name of the job, which selects its handler.
    pub name: String,
    pub payload: serde_json::Value,
    pub schedule: CronSchedule,
    pub options: EnqueueOptions,
    /// Whether the latest occurrence is enqueued when the schedule is first seen.
    pub catch_up_on_start: bool,
}

impl Clone for CronJob {
    fn clone(&self) -> (copy: Self)
        ensures
            copy.identifier@ == self.identifier@,
            copy.name@ == self.name@,
            copy.payload == self.payload,
            copy.schedule == self.schedule,
            copy.options@ == self.options@,
            copy.catch_up_on_start == self.catch_up_on_start,
    {
        CronJob {
            identifier: self.identifier.clone(),
            name: self.name.clone(),
            payload: self.payload.clone(),
            schedule: self.schedule.clone(),
            options: self.options.clone(),
            catch_up_on_start: self.catch_up_on_start,
        }
    }
}

/// Whether the occurrence of a schedule that is due at `now`, and the one after it, are in range.
pub open spec fn occurrence_in_range(schedule: CronSchedule, now: int) -> bool {
    schedule.due_in_range(now) && (schedule.due(now) matches Some(due) ==> schedule.next_in_range(
        due,
    ))
}

/// The options of a scheduled job that was given none. Its job key is the identifier of the
/// schedule, so that an occurrence which is still queued or running is not joined by the next.
pub open spec fn cron_options(identifier: Seq<char>) -> EnqueueOptionsView {
    EnqueueOptionsView { job_key: Some(identifier), ..default_options() }
}

impl CronJob {
    /// Whether this is the scheduled job that has nothing but an identifier, a name and a schedule.
    pub open spec fn is_plain(
        self,
        identifier: Seq<char>,
        name: Seq<char>,
        schedule: CronSchedule,
    ) -> bool {
        &&& self.identifier@ == identifier
        &&& self.name@ == name
        &&& self.payload == no_payload()
        &&& self.schedule == schedule
        &&& self.options@ == cron_options(identifier)
        &&& !self.catch_up_on_start
    }

    fn plain(identifier: &str, name: &str, schedule: CronSchedule) -> (cron: Self)
        ensures
            cron.is_plain(identifier@, name@, schedule),
    {
        let mut options: EnqueueOptions = EnqueueOptions::default();
        options.job_key = Some(identifier.to_owned());
        CronJob {
            identifier: identifier.to_owned(),
            name: name.to_owned(),
            payload: empty_payload(),
            schedule,
            options,
            catch_up_on_start: false,
        }
    }

    /// A daily job by UTC.
    pub fn daily_utc(identifier: &str, name: &str, schedule: DailyJobSchedule) -> (cron: Self)
        ensures
            exists|time_zone: jiff::tz::TimeZone|
                is_utc(time_zone) && #[trigger] cron.is_plain(
                    identifier@,
                    name@,
                    CronSchedule::Daily { schedule, time_zone },
                ),
    {
        CronJob::daily(identifier, name, schedule, utc())
    }

    /// A daily job by the clocks of a time zone.
    pub fn daily(
        identifier: &str,
        name: &str,
        schedule: DailyJobSchedule,
        time_zone: jiff::tz::TimeZone,
    ) -> (cron: Self)
        ensures
            cron.is_plain(identifier@, name@, CronSchedule::Daily { schedule, time_zone }),
    {
        CronJob::plain(identifier, name, CronSchedule::Daily { schedule, time_zone })
    }

    /// A daily job by the clocks of the time zone that the machine knows under a name.
    pub fn daily_in_timezone(
        identifier: &str,
        name: &str,
        schedule: DailyJobSchedule,
        time_zone_name: &str,
    ) -> (cron: Result<Self, jiff::Error>)
        ensures
            cron matches Ok(cron) ==> exists|time_zone: jiff::tz::TimeZone|
                answers_to(time_zone, time_zone_name@) && #[trigger] cron.is_plain(
                    identifier@,
                    name@,
                    CronSchedule::Daily { schedule, time_zone },
                ),
    {
        let zone: Result<jiff::tz::TimeZone, jiff::Error> = find_zone(time_zone_name);
        CronJob::daily_in_zone(identifier, name, schedule, zone)
    }

    /// A daily job by the clocks of a time zone, where the zone was found.
    pub fn daily_in_zone(
        identifier: &str,
        name: &str,
        schedule: DailyJobSchedule,
        zone: Result<jiff::tz::TimeZone, jiff::Error>,
    ) -> (cron: Result<Self, jiff::Error>)
        ensures
            match zone {
                Ok(time_zone) => cron is Ok && cron->Ok_0.is_plain(
                    identifier@,
                    name@,
                    CronSchedule::Daily { schedule, time_zone },
                ),
                Err(error) => cron == Err::<Self, jiff::Error>(error),
            },
    {
        match zone {
            Ok(time_zone) => Ok(CronJob::daily(identifier, name, schedule, time_zone)),
            Err(error) => Err(error),
        }
    }

    /// A monthly job by UTC.
    pub fn monthly_utc(identifier: &str, name: &str, schedule: MonthlyJobSchedule) -> (cron: Self)
        ensures
            exists|time_zone: jiff::tz::TimeZone|
                is_utc(time_zone) && #[trigger] cron.is_plain(
                    identifier@,
                    name@,
                    CronSchedule::Monthly { schedule, time_zone },
                ),
    {
        CronJob::monthly(identifier, name, schedule, utc())
    }

    /// A monthly job by the clocks of a time zone.
    pub fn monthly(
        identifier: &str,
        name: &str,
        schedule: MonthlyJobSchedule,
        time_zone: jiff::tz::TimeZone,
    ) -> (cron: Self)
        ensures
            cron.is_plain(identifier@, name@, CronSchedule::Monthly { schedule, time_zone }),
    {
        CronJob::plain(identifier, name, CronSchedule::Monthly { schedule, time_zone })
    }

    /// A monthly job by the clocks of the time zone that the machine knows under a name.
    pub fn monthly_in_timezone(
        identifier: &str,
        name: &str,
        schedule: MonthlyJobSchedule,
        time_zone_name: &str,
    ) -> (cron: Result<Self, jiff::Error>)
        ensures
            cron matches Ok(cron) ==> exists|time_zone: jiff::tz::TimeZone|
                answers_to(time_zone, time_zone_name@) && #[trigger] cron.is_plain(
                    identifier@,
                    name@,
                    CronSchedule::Monthly { schedule, time_zone },
                ),
    {
        let zone: Result<jiff::tz::TimeZone, jiff::Error> = find_zone(time_zone_name);
        CronJob::monthly_in_zone(identifier, name, schedule, zone)
    }

    /// A monthly job by the clocks of a time zone, where the zone was found.
    pub fn monthly_in_zone(
        identifier: &str,
        name: &str,
        schedule: MonthlyJobSchedule,
        zone: Result<jiff::tz::TimeZone, jiff::Error>,
    ) -> (cron: Result<Self, jiff::Error>)
        ensures
            match zone {
                Ok(time_zone) => cron is Ok && cron->Ok_0.is_plain(
                    identifier@,
                    name@,
                    CronSchedule::Monthly { schedule, time_zone },
                ),
                Err(error) => cron == Err::<Self, jiff::Error>(error),
            },
    {
        match zone {
            Ok(time_zone) => Ok(CronJob::monthly(identifier, name, schedule, time_zone)),
            Err(error) => Err(error),
        }
    }

    /// A job at every multiple of `every`, counted from the Unix epoch, independent of any time
    /// zone. The interval is a whole number of seconds, at least one.
    pub fn interval(identifier: &str, name: &str, every: Duration) -> (cron: Self)
        requires
            every@ >= NANOS_PER_SECOND,
            every@ % (NANOS_PER_SECOND as int) == 0,
        ensures
            cron.is_plain(identifier@, name@, CronSchedule::Interval { every }),
    {
        CronJob::plain(identifier, name, CronSchedule::Interval { every })
    }

    /// Finds the occurrence that is due at `now`, and the one after it. Fails close to the ends of
    /// the range of time.
    pub fn find_occurrence(&self, now: Timestamp) -> (occurrence: Result<
        Option<(Timestamp, Timestamp)>,
        OutOfRange,
    >)
        ensures
            occurrence is Ok <==> occurrence_in_range(self.schedule, now@),
            occurrence matches Ok(occurrence) ==> match self.schedule.due(now@) {
                Some(due) => {
                    &&& occurrence matches Some((due_at, next_run_at))
                    &&& due_at@ == due
                    &&& next_run_at@ == self.schedule.next(due)
                },
                None => occurrence is None,
            },
    {
        match self.schedule.find_due(now) {
            Ok(Some(due_at)) => match self.schedule.find_next(due_at) {
                Ok(next_run_at) => Ok(Some((due_at, next_run_at))),
                Err(error) => Err(error),
            },
            Ok(None) => Ok(None),
            Err(error) => Err(error),
        }
    }

    /// Replaces the payload.
    pub fn payload(self, payload: serde_json::Value) -> (cron: Self)
        ensures
            cron == (CronJob { payload, ..self }),
    {
        CronJob {
            identifier: self.identifier,
            name: self.name,
            payload,
            schedule: self.schedule,
            options: self.options,
            catch_up_on_start: self.catch_up_on_start,
        }
    }

    /// Replaces the options, the job key among them.
    pub fn options(self, options: EnqueueOptions) -> (cron: Self)
        ensures
            cron == (CronJob { options, ..self }),
    {
        CronJob {
            identifier: self.identifier,
            name: self.name,
            payload: self.payload,
            schedule: self.schedule,
            options,
            catch_up_on_start: self.catch_up_on_start,
        }
    }

    /// Has the latest occurrence enqueued when the schedule is first seen.
    pub fn catch_up_on_start(self) -> (cron: Self)
        ensures
            cron == (CronJob { catch_up_on_start: true, ..self }),
    {
        CronJob {
            identifier: self.identifier,
            name: self.name,
            payload: self.payload,
            schedule: self.schedule,
            options: self.options,
            catch_up_on_start: true,
        }
    }
}

} // verus!
