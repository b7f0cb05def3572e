//! What a call of the functions that make and read values gives.

use vstd::prelude::*;

use crate::calendar::{day_number, weekday, weekday_of, Weekday, MAX_DAY, MIN_DAY};
use crate::calendar_laws::{
    clock_in_range, clock_nanos, instant_in_range, law_every_day_fires, law_every_listed_weekday_fires,
    law_every_month_fires,
};
use crate::config::{WorkerConfig, WorkerError};
use crate::cron::{CronJob, CronSchedule};
use crate::environment::{Environment, ParseEnvironmentError};
use crate::error::StoreError;
use crate::job::{
    lemma_status_texts_differ, status_text, EnqueueOptions, EnqueueRequest, Job, JobKeyMode, JobRow,
    JobStatus, ParseJobStatusError,
};
use crate::json::no_payload;
use crate::schedule::{
    latest_daily_due_at, latest_interval_due_at, latest_monthly_due_at, next_daily_after,
    next_interval_after, next_monthly_after, DailyJobSchedule, DayRule, MonthlyJobSchedule,
};
use crate::schedule_laws::rule_valid;
use crate::text::{same_but_for_case, trimmed};
use crate::time::{Duration, Timestamp, MAX_NANOS, MAX_SECOND, MIN_NANOS, MIN_SECOND};
use crate::zone::is_utc;

verus! {

/// A daily schedule has the time that it was made with, and is kept to no weekdays.
pub proof fn law_daily_schedule(hour: u8, minute: u8, schedule: DailyJobSchedule)
    requires
        call_ensures(DailyJobSchedule::new, (hour, minute), schedule),
    ensures
        schedule.hour() == hour,
        schedule.minute() == minute,
        schedule.days() is None,
{
}

/// A daily schedule that is kept to some weekdays keeps its time of day, and has each of them.
pub proof fn law_kept_to_weekdays(
    schedule: DailyJobSchedule,
    days: &'static [Weekday],
    kept: DailyJobSchedule,
)
    requires
        call_ensures(DailyJobSchedule::weekdays, (schedule, days), kept),
    ensures
        kept.hour() == schedule.hour(),
        kept.minute() == schedule.minute(),
        kept.days() matches Some(listed) && listed.len() == days@.len() && forall|i: int|
            0 <= i < days@.len() ==> #[trigger] listed[i] == days@[i],
{
}

/// A monthly schedule has the day and the time that it was made with.
pub proof fn law_monthly_schedule(day: u8, hour: u8, minute: u8, schedule: MonthlyJobSchedule)
    requires
        call_ensures(MonthlyJobSchedule::new, (day, hour, minute), schedule),
    ensures
        schedule.day() == day,
        schedule.hour() == hour,
        schedule.minute() == minute,
{
}

/// The weekdays that are found follow each other, from a Thursday on the day of the epoch on.
pub proof fn law_found_weekdays(day: i32, found: Weekday, next: Weekday)
    requires
        MIN_DAY <= day < MAX_DAY,
        call_ensures(weekday, (day,), found),
        call_ensures(weekday, ((day + 1) as i32,), next),
    ensures
        day == 0 ==> found == Weekday::Thursday,
        found == Weekday::Monday <==> next == Weekday::Tuesday,
        found == Weekday::Tuesday <==> next == Weekday::Wednesday,
        found == Weekday::Wednesday <==> next == Weekday::Thursday,
        found == Weekday::Thursday <==> next == Weekday::Friday,
        found == Weekday::Friday <==> next == Weekday::Saturday,
        found == Weekday::Saturday <==> next == Weekday::Sunday,
        found == Weekday::Sunday <==> next == Weekday::Monday,
{
}

/// By UTC, a daily schedule that is kept to weekdays is found due on each of them at its time: at any
/// instant from then on, what is found is that occurrence or a later one, and what is found next from
/// any instant before it is that one or an earlier one.
pub proof fn law_weekdays_are_found(
    zone: jiff::tz::TimeZone,
    schedule: DailyJobSchedule,
    place: int,
    day: int,
    instant: Timestamp,
    due: Option<Timestamp>,
    next: Timestamp,
)
    requires
        is_utc(zone),
        rule_valid(DayRule::Daily(schedule)),
        schedule.days() is Some,
        0 <= place < schedule.days()->0.len(),
        weekday_of(day) == schedule.days()->0[place],
        MIN_DAY <= day <= MAX_DAY,
        clock_in_range(day, schedule.hour(), schedule.minute()),
        instant_in_range(instant@),
        call_ensures(latest_daily_due_at, (instant, schedule, &zone), due),
        call_ensures(next_daily_after, (instant, schedule, &zone), next),
    ensures
        ({
            let at = clock_nanos(day, schedule.hour(), schedule.minute());
            &&& instant@ >= at ==> due is Some && at <= due->0@ <= instant@
            &&& instant@ < at ==> instant@ < next@ <= at
        }),
{
    law_every_listed_weekday_fires(zone, schedule, place, day, instant@);
}

/// By UTC, a daily schedule that is kept to no weekdays is found due on every day at its time.
pub proof fn law_days_are_found(
    zone: jiff::tz::TimeZone,
    schedule: DailyJobSchedule,
    day: int,
    instant: Timestamp,
    due: Option<Timestamp>,
    next: Timestamp,
)
    requires
        is_utc(zone),
        rule_valid(DayRule::Daily(schedule)),
        schedule.days() is None,
        MIN_DAY <= day <= MAX_DAY,
        clock_in_range(day, schedule.hour(), schedule.minute()),
        instant_in_range(instant@),
        call_ensures(latest_daily_due_at, (instant, schedule, &zone), due),
        call_ensures(next_daily_after, (instant, schedule, &zone), next),
    ensures
        ({
            let at = clock_nanos(day, schedule.hour(), schedule.minute());
            &&& instant@ >= at ==> due is Some && at <= due->0@ <= instant@
            &&& instant@ < at ==> instant@ < next@ <= at
        }),
{
    law_every_day_fires(zone, schedule, day, instant@);
}

/// By UTC, a monthly schedule is found due in every month, on its day and at its time.
pub proof fn law_months_are_found(
    zone: jiff::tz::TimeZone,
    schedule: MonthlyJobSchedule,
    year: int,
    month: int,
    instant: Timestamp,
    due: Option<Timestamp>,
    next: Timestamp,
)
    requires
        is_utc(zone),
        rule_valid(DayRule::Monthly(schedule)),
        1 <= month <= 12,
        MIN_DAY <= day_number(year, month, schedule.day()) <= MAX_DAY,
        clock_in_range(
            day_number(year, month, schedule.day()),
            schedule.hour(),
            schedule.minute(),
        ),
        instant_in_range(instant@),
        call_ensures(latest_monthly_due_at, (instant, schedule, &zone), due),
        call_ensures(next_monthly_after, (instant, schedule, &zone), next),
    ensures
        ({
            let day = day_number(year, month, schedule.day());
            let at = clock_nanos(day, schedule.hour(), schedule.minute());
            &&& instant@ >= at ==> due is Some && at <= due->0@ <= instant@
            &&& instant@ < at ==> instant@ < next@ <= at
        }),
{
    law_every_month_fires(zone, schedule, year, month, instant@);
}

/// From the epoch on, the multiples of an interval of whole seconds are found due: the latest is not in
/// the future and less than one interval ago, and the next is one interval later.
pub proof fn law_multiples_are_found(
    interval: Duration,
    instant: Timestamp,
    due: Option<Timestamp>,
    next: Timestamp,
)
    requires
        interval@ >= 1_000_000_000,
        interval@ % 1_000_000_000 == 0,
        0 <= instant@,
        instant@ + interval@ <= MAX_SECOND * 1_000_000_000,
        call_ensures(latest_interval_due_at, (instant, interval), due),
        call_ensures(next_interval_after, (instant, interval), next),
    ensures
        due matches Some(due) && due@ <= instant@ < due@ + interval@ && due@ % interval@ == 0 && next@
            == due@ + interval@,
{
    let step = interval@ / 1_000_000_000;
    let second = instant@ / 1_000_000_000;
    crate::schedule_laws::lemma_interval_start(second, step);
    let start = crate::schedule::interval_start(second, step);
    assert(interval@ == step * 1_000_000_000);
    assert(start * 1_000_000_000 == (second / step) * interval@) by (nonlinear_arith)
        requires
            start == second / step * step,
            interval@ == step * 1_000_000_000,
    ;
    vstd::arithmetic::div_mod::lemma_mod_multiples_basic(second / step, interval@);
    assert(start >= 0) by (nonlinear_arith)
        requires
            start == second / step * step,
            second >= 0,
            step > 0,
    ;
    assert(start * 1_000_000_000 <= instant@);
    assert(instant@ < start * 1_000_000_000 + interval@);
}

/// A scheduled job has the identifier, the name and the schedule that it was made with, and else
/// nothing but its identifier for its job key.
pub proof fn law_scheduled_jobs(
    identifier: &str,
    name: &str,
    daily: DailyJobSchedule,
    monthly: MonthlyJobSchedule,
    every: Duration,
    zone: jiff::tz::TimeZone,
    cron: CronJob,
)
    requires
        call_ensures(CronJob::daily, (identifier, name, daily, zone), cron) || call_ensures(
            CronJob::monthly,
            (identifier, name, monthly, zone),
            cron,
        ) || call_ensures(CronJob::interval, (identifier, name, every), cron),
    ensures
        cron.identifier@ == identifier@,
        cron.name@ == name@,
        cron.payload == no_payload(),
        cron.schedule == (CronSchedule::Daily { schedule: daily, time_zone: zone }) || cron.schedule
            == (CronSchedule::Monthly { schedule: monthly, time_zone: zone }) || cron.schedule == (
        CronSchedule::Interval { every }),
        !cron.catch_up_on_start,
        cron.options@.job_key == Some(identifier@),
        cron.options@.queue_name is None,
        cron.options@.priority == 0,
        cron.options@.run_at is None,
        cron.options@.max_attempts == 25,
        cron.options@.job_key_mode == JobKeyMode::Dedupe,
{
}

/// The schedule of a scheduled job is of the kind that was asked for.
pub proof fn law_kinds_of_scheduled_jobs(
    identifier: &str,
    name: &str,
    daily: DailyJobSchedule,
    monthly: MonthlyJobSchedule,
    every: Duration,
    zone: jiff::tz::TimeZone,
    cron: CronJob,
)
    ensures
        call_ensures(CronJob::daily, (identifier, name, daily, zone), cron) ==> cron.schedule == (
        CronSchedule::Daily { schedule: daily, time_zone: zone }),
        call_ensures(CronJob::monthly, (identifier, name, monthly, zone), cron) ==> cron.schedule == (
        CronSchedule::Monthly { schedule: monthly, time_zone: zone }),
        call_ensures(CronJob::interval, (identifier, name, every), cron) ==> cron.schedule == (
        CronSchedule::Interval { every }),
        call_ensures(CronJob::daily_utc, (identifier, name, daily), cron) ==> cron.schedule is Daily
            && cron.schedule->Daily_schedule == daily && is_utc(cron.schedule->Daily_time_zone),
        call_ensures(CronJob::monthly_utc, (identifier, name, monthly), cron) ==> cron.schedule
            is Monthly && cron.schedule->Monthly_schedule == monthly && is_utc(
            cron.schedule->Monthly_time_zone,
        ),
{
}

/// A scheduled job that is given something else keeps all but that.
pub proof fn law_changed_scheduled_jobs(
    cron: CronJob,
    payload: serde_json::Value,
    options: EnqueueOptions,
    changed: CronJob,
)
    ensures
        call_ensures(CronJob::payload, (cron, payload), changed) ==> {
            &&& changed.payload == payload
            &&& changed.identifier == cron.identifier && changed.name == cron.name
            &&& changed.schedule == cron.schedule && changed.options == cron.options
            &&& changed.catch_up_on_start == cron.catch_up_on_start
        },
        call_ensures(CronJob::options, (cron, options), changed) ==> {
            &&& changed.options == options
            &&& changed.identifier == cron.identifier && changed.name == cron.name
            &&& changed.schedule == cron.schedule && changed.payload == cron.payload
            &&& changed.catch_up_on_start == cron.catch_up_on_start
        },
        call_ensures(CronJob::catch_up_on_start, (cron,), changed) ==> {
            &&& changed.catch_up_on_start
            &&& changed.identifier == cron.identifier && changed.name == cron.name
            &&& changed.schedule == cron.schedule && changed.payload == cron.payload
            &&& changed.options == cron.options
        },
{
}

/// A request has the name and the payload that it was made with, and the options that it was given, or
/// those of any job.
pub proof fn law_requests(
    name: &str,
    payload: serde_json::Value,
    options: EnqueueOptions,
    request: EnqueueRequest,
    changed: EnqueueRequest,
)
    ensures
        call_ensures(EnqueueRequest::new, (name, payload), request) ==> {
            &&& request@.name == name@
            &&& request@.payload == payload
            &&& request@.options.queue_name is None
            &&& request@.options.priority == 0
            &&& request@.options.run_at is None
            &&& request@.options.max_attempts == 25
            &&& request@.options.job_key is None
            &&& request@.options.job_key_mode == JobKeyMode::Dedupe
        },
        call_ensures(EnqueueRequest::with_options, (request, options), changed) ==> {
            &&& changed@.name == request@.name
            &&& changed@.payload == request@.payload
            &&& changed@.options == options@
        },
{
}

/// A request whose payload could not be written fails as that had, and is made as any other else.
pub proof fn law_typed_requests(
    name: &str,
    payload: Result<serde_json::Value, serde_json::Error>,
    request: Result<EnqueueRequest, serde_json::Error>,
)
    requires
        call_ensures(EnqueueRequest::typed, (name, payload), request),
    ensures
        payload matches Err(error) ==> request == Err::<EnqueueRequest, serde_json::Error>(error),
        payload matches Ok(payload) ==> request is Ok && request->Ok_0@.name == name@
            && request->Ok_0@.payload == payload && request->Ok_0@.options.max_attempts == 25
            && request->Ok_0@.options.job_key is None,
{
}

/// The name of a status is read as that status, and of any other text nothing is made but an error
/// with it.
pub proof fn law_reading_statuses(
    value: &str,
    status: Result<JobStatus, ParseJobStatusError>,
)
    requires
        call_ensures(JobStatus::parse, (value,), status),
    ensures
        value@ == "queued"@ ==> status == Ok::<JobStatus, ParseJobStatusError>(JobStatus::Queued),
        value@ == "running"@ ==> status == Ok::<JobStatus, ParseJobStatusError>(JobStatus::Running),
        value@ == "succeeded"@ ==> status == Ok::<JobStatus, ParseJobStatusError>(
            JobStatus::Succeeded,
        ),
        value@ == "failed"@ ==> status == Ok::<JobStatus, ParseJobStatusError>(JobStatus::Failed),
        value@ == "cancelled"@ ==> status == Ok::<JobStatus, ParseJobStatusError>(
            JobStatus::Cancelled,
        ),
        value@ != "queued"@ && value@ != "running"@ && value@ != "succeeded"@ && value@ != "failed"@
            && value@ != "cancelled"@ ==> status is Err && status->Err_0@ == value@,
{
    if let Ok(found) = status {
        lemma_status_texts_differ(found, JobStatus::Queued);
        lemma_status_texts_differ(found, JobStatus::Running);
        lemma_status_texts_differ(found, JobStatus::Succeeded);
        lemma_status_texts_differ(found, JobStatus::Failed);
        lemma_status_texts_differ(found, JobStatus::Cancelled);
    }
    assert(status_text(JobStatus::Queued) == "queued"@);
    assert(status_text(JobStatus::Running) == "running"@);
    assert(status_text(JobStatus::Succeeded) == "succeeded"@);
    assert(status_text(JobStatus::Failed) == "failed"@);
    assert(status_text(JobStatus::Cancelled) == "cancelled"@);
}

/// What is written for a status, a mode and an environment is its name, and a status is terminal where
/// no worker takes it up again.
pub proof fn law_written_names(
    status: JobStatus,
    mode: JobKeyMode,
    environment: Environment,
    text: &'static str,
    terminal: bool,
)
    ensures
        call_ensures(JobStatus::as_str, (status,), text) ==> text@ == match status {
            JobStatus::Queued => "queued"@,
            JobStatus::Running => "running"@,
            JobStatus::Succeeded => "succeeded"@,
            JobStatus::Failed => "failed"@,
            JobStatus::Cancelled => "cancelled"@,
        },
        call_ensures(JobStatus::is_terminal, (status,), terminal) ==> terminal == (status
            != JobStatus::Queued && status != JobStatus::Running),
        call_ensures(JobKeyMode::as_str, (mode,), text) ==> text@ == match mode {
            JobKeyMode::Dedupe => "dedupe"@,
            JobKeyMode::Replace => "replace"@,
            JobKeyMode::PreserveRunAt => "preserve_run_at"@,
        },
        call_ensures(Environment::as_str, (environment,), text) ==> text@ == match environment {
            Environment::Production => "production"@,
            Environment::Staging => "staging"@,
            Environment::Development => "development"@,
            Environment::Local => "local"@,
            Environment::Test => "test"@,
        },
{
}

/// An environment is read from its name, whatever the case of the letters and the white space around
/// it; of any other text nothing is made but an error with what is left of it.
pub proof fn law_reading_environments(
    value: &str,
    read: Result<Environment, ParseEnvironmentError>,
)
    requires
        call_ensures(Environment::parse, (value,), read),
    ensures
        same_but_for_case(trimmed(value@), "production"@) <==> read == Ok::<
            Environment,
            ParseEnvironmentError,
        >(Environment::Production),
        same_but_for_case(trimmed(value@), "staging"@) <==> read == Ok::<
            Environment,
            ParseEnvironmentError,
        >(Environment::Staging),
        same_but_for_case(trimmed(value@), "development"@) <==> read == Ok::<
            Environment,
            ParseEnvironmentError,
        >(Environment::Development),
        same_but_for_case(trimmed(value@), "local"@) <==> read == Ok::<
            Environment,
            ParseEnvironmentError,
        >(Environment::Local),
        same_but_for_case(trimmed(value@), "test"@) <==> read == Ok::<
            Environment,
            ParseEnvironmentError,
        >(Environment::Test),
        read matches Err(error) ==> error@ == trimmed(value@),
{
    let name = trimmed(value@);
    let texts = |environment: Environment| crate::environment::environment_text(environment);
    assert(texts(Environment::Production) == "production"@);
    assert(texts(Environment::Staging) == "staging"@);
    assert(texts(Environment::Development) == "development"@);
    assert(texts(Environment::Local) == "local"@);
    assert(texts(Environment::Test) == "test"@);
    if let Ok(environment) = read {
        if same_but_for_case(name, "production"@) {
            crate::environment::lemma_environment_texts_differ(
                name,
                environment,
                Environment::Production,
            );
        }
        if same_but_for_case(name, "staging"@) {
            crate::environment::lemma_environment_texts_differ(
                name,
                environment,
                Environment::Staging,
            );
        }
        if same_but_for_case(name, "development"@) {
            crate::environment::lemma_environment_texts_differ(
                name,
                environment,
                Environment::Development,
            );
        }
        if same_but_for_case(name, "local"@) {
            crate::environment::lemma_environment_texts_differ(
                name,
                environment,
                Environment::Local,
            );
        }
        if same_but_for_case(name, "test"@) {
            crate::environment::lemma_environment_texts_differ(
                name,
                environment,
                Environment::Test,
            );
        }
    }
}

/// A stored row is read as the job that its columns hold, where its status is the name of one; else
/// the column is named, with the text that it holds.
pub proof fn law_reading_rows(row: JobRow, job: Result<Job, StoreError>)
    requires
        call_ensures(JobRow::into_job, (row,), job),
    ensures
        job matches Ok(job) ==> {
            &&& row.status@ == "queued"@ <==> job@.status == JobStatus::Queued
            &&& row.status@ == "running"@ <==> job@.status == JobStatus::Running
            &&& row.status@ == "succeeded"@ <==> job@.status == JobStatus::Succeeded
            &&& row.status@ == "failed"@ <==> job@.status == JobStatus::Failed
            &&& row.status@ == "cancelled"@ <==> job@.status == JobStatus::Cancelled
            &&& job@.id == row.id
            &&& job@.name == row.name@
            &&& job@.payload == row.payload
            &&& job@.priority == row.priority
            &&& job@.run_at == row.run_at@
            &&& job@.attempt == row.attempt
            &&& job@.max_attempts == row.max_attempts
            &&& job@.queued_at == row.queued_at@
            &&& job@.created_at == row.created_at@
            &&& job@.updated_at == row.updated_at@
        },
        job is Err <==> row.status@ != "queued"@ && row.status@ != "running"@ && row.status@
            != "succeeded"@ && row.status@ != "failed"@ && row.status@ != "cancelled"@,
        job matches Err(error) ==> error is ColumnDecode && error->index@ == "status"@
            && error->source@ == row.status@,
{
    if let Ok(found) = job {
        lemma_status_texts_differ(found.status, JobStatus::Queued);
        lemma_status_texts_differ(found.status, JobStatus::Running);
        lemma_status_texts_differ(found.status, JobStatus::Succeeded);
        lemma_status_texts_differ(found.status, JobStatus::Failed);
        lemma_status_texts_differ(found.status, JobStatus::Cancelled);
    }
    assert(status_text(JobStatus::Queued) == "queued"@);
    assert(status_text(JobStatus::Running) == "running"@);
    assert(status_text(JobStatus::Succeeded) == "succeeded"@);
    assert(status_text(JobStatus::Failed) == "failed"@);
    assert(status_text(JobStatus::Cancelled) == "cancelled"@);
}

/// An instant is the second and the fraction that it was made of, where it is in range.
pub proof fn law_instants(second: i64, nanosecond: i32, instant: Option<Timestamp>)
    ensures
        call_ensures(Timestamp::new, (second, nanosecond), instant) ==> {
            &&& instant matches Some(t) ==> t@ == second * 1_000_000_000 + nanosecond
            &&& instant is Some <==> MIN_SECOND <= second <= MAX_SECOND && -1_000_000_000 < nanosecond
                < 1_000_000_000 && MIN_NANOS <= second * 1_000_000_000 + nanosecond
        },
        call_ensures(Timestamp::from_second, (second,), instant) ==> {
            &&& instant matches Some(t) ==> t@ == second * 1_000_000_000
            &&& instant is Some <==> MIN_SECOND <= second <= MAX_SECOND
        },
{
}

/// The second and the fraction of an instant make it up, and have its sign.
pub proof fn law_parts_of_an_instant(
    instant: Timestamp,
    second: i64,
    nanosecond: i32,
    nanos: i128,
)
    requires
        call_ensures(Timestamp::as_second, (instant,), second),
        call_ensures(Timestamp::subsec_nanosecond, (instant,), nanosecond),
        call_ensures(Timestamp::as_nanosecond, (instant,), nanos),
    ensures
        second * 1_000_000_000 + nanosecond == instant@,
        nanos == instant@,
        -1_000_000_000 < nanosecond < 1_000_000_000,
        instant@ >= 0 ==> second >= 0 && nanosecond >= 0,
        instant@ <= 0 ==> second <= 0 && nanosecond <= 0,
{
}

/// An instant is before another one where less time has passed since the epoch, and moves with what is
/// added to it, as far as the range of time goes.
pub proof fn law_order_of_instants(
    one: Timestamp,
    other: Timestamp,
    before: bool,
    seconds: u32,
    nanosecond: u32,
    shift: i64,
)
    ensures
        call_ensures(Timestamp::is_before, (one, other), before) ==> before == (one@ < other@),
        call_ensures(Timestamp::saturating_later, (one, seconds, nanosecond), other) ==> {
            let later = one@ + seconds * 1_000_000_000 + nanosecond;
            &&& later <= MAX_NANOS ==> other@ == later
            &&& later > MAX_NANOS ==> other@ == MAX_NANOS
        },
        call_ensures(Timestamp::shifted, (one, shift), other) ==> other@ == one@ + shift
            * 1_000_000_000,
{
}

/// A span of time is what it was made of, and its parts make it up.
pub proof fn law_spans(
    secs: u64,
    nanos: u32,
    millis: u64,
    made: Option<Duration>,
    span: Duration,
    parts: (u64, u32),
)
    ensures
        call_ensures(Duration::new, (secs, nanos), made) ==> {
            &&& made is Some <==> nanos < 1_000_000_000
            &&& made matches Some(span) ==> span@ == secs * 1_000_000_000 + nanos
        },
        call_ensures(Duration::from_secs, (secs,), span) ==> span@ == secs * 1_000_000_000,
        call_ensures(Duration::from_millis, (millis,), span) ==> span@ == millis * 1_000_000,
        call_ensures(Duration::as_secs, (span,), parts.0) && call_ensures(
            Duration::subsec_nanos,
            (span,),
            parts.1,
        ) ==> parts.0 * 1_000_000_000 + parts.1 == span@ && parts.1 < 1_000_000_000,
{
}

/// Spans are compared by their length; one is doubled as far as the longest goes.
pub proof fn law_lengths_of_spans(
    one: Duration,
    other: Duration,
    result: Duration,
    found: bool,
    millis: u128,
)
    requires
        0 <= one@,
    ensures
        call_ensures(Duration::is_zero, (one,), found) ==> found == (one@ == 0),
        call_ensures(Duration::at_most, (one, other), found) ==> found == (one@ <= other@),
        call_ensures(Duration::shorter, (one, other), result) ==> result@ <= one@ && result@
            <= other@ && (result@ == one@ || result@ == other@),
        call_ensures(Duration::saturating_double, (one,), result) ==> {
            let longest = 18_446_744_073_709_551_616 * 1_000_000_000 - 1;
            &&& 2 * one@ <= longest ==> result@ == 2 * one@
            &&& 2 * one@ > longest ==> result@ == longest
        },
        call_ensures(Duration::as_millis, (one,), millis) ==> millis * 1_000_000 <= one@ < (millis
            + 1) * 1_000_000,
{
}

/// A configuration is found to work just where nothing is wrong with it.
pub proof fn law_validation(config: WorkerConfig, result: Result<(), WorkerError>)
    requires
        call_ensures(WorkerConfig::validate, (&config,), result),
        config.poll_interval@ >= 0,
        config.cron_poll_interval@ >= 0,
        config.heartbeat_interval@ >= 0,
        config.lock_renew_interval@ >= 0,
        config.recovery_interval@ >= 0,
    ensures
        result is Ok <==> {
            &&& config.concurrency > 0
            &&& config.poll_interval@ > 0
            &&& config.cron_poll_interval@ > 0
            &&& config.heartbeat_interval@ > 0
            &&& config.lock_renew_interval@ > 0
            &&& config.recovery_interval@ > 0
            &&& config.stale_after@ > config.heartbeat_interval@
            &&& config.stale_after@ > config.lock_renew_interval@
        },
        result is Err ==> result->Err_0 is InvalidConfig,
{
}

} // verus!
