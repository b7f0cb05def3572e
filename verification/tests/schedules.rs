use jiff::tz::TimeZone;
use pgspawn::calendar::weekday;
use pgspawn::schedule::{
    find_latest_slot, find_next_boundary, find_next_slot, latest_daily_due_at,
    latest_interval_due_at, latest_monthly_due_at, next_daily_after, next_interval_after,
    next_monthly_after, DayRule, OutOfRange,
};
use pgspawn::time::{MAX_SECOND, MIN_SECOND};
use pgspawn::worker::due_crons;
use pgspawn::zone::{local_day, local_instant};
use pgspawn::{
    CronJob, CronSchedule, DailyJobSchedule, Duration, EnqueueOptions, JobKeyMode,
    MonthlyJobSchedule, Timestamp, Weekday,
};

fn timestamp(value: &str) -> Timestamp {
    let instant: jiff::Timestamp = value.parse().expect("valid test timestamp");
    Timestamp::new(instant.as_second(), instant.subsec_nanosecond()).expect("instant in range")
}

#[test]
fn latest_interval_due_at_aligns_to_epoch_boundary() {
    let now = timestamp("2026-06-13T10:07:42Z");
    let due_at = latest_interval_due_at(now, Duration::from_secs(300)).unwrap();

    assert_eq!(due_at, timestamp("2026-06-13T10:05:00Z"));
    assert_eq!(
        next_interval_after(due_at, Duration::from_secs(300)),
        timestamp("2026-06-13T10:10:00Z")
    );
}

#[test]
fn latest_daily_due_at_uses_previous_valid_weekday_after_todays_slot_passed() {
    let schedule = DailyJobSchedule::new(9, 30).weekdays(&[Weekday::Monday]);
    let now = timestamp("2026-06-16T10:00:00Z");

    assert_eq!(
        latest_daily_due_at(now, schedule, &TimeZone::UTC),
        Some(timestamp("2026-06-15T09:30:00Z"))
    );
    assert_eq!(
        next_daily_after(now, schedule, &TimeZone::UTC),
        timestamp("2026-06-22T09:30:00Z")
    );
}

#[test]
fn latest_monthly_due_at_uses_current_month_after_slot_passed() {
    let schedule = MonthlyJobSchedule::new(1, 3, 30);
    let now = timestamp("2026-06-01T04:00:00Z");

    assert_eq!(
        latest_monthly_due_at(now, schedule, &TimeZone::UTC),
        Some(timestamp("2026-06-01T03:30:00Z"))
    );
    assert_eq!(
        next_monthly_after(now, schedule, &TimeZone::UTC),
        timestamp("2026-07-01T03:30:00Z")
    );
}

#[test]
fn latest_monthly_due_at_uses_previous_month_before_slot_passed() {
    let schedule = MonthlyJobSchedule::new(1, 3, 30);
    let now = timestamp("2026-06-01T03:00:00Z");

    assert_eq!(
        latest_monthly_due_at(now, schedule, &TimeZone::UTC),
        Some(timestamp("2026-05-01T03:30:00Z"))
    );
    assert_eq!(
        next_monthly_after(now, schedule, &TimeZone::UTC),
        timestamp("2026-06-01T03:30:00Z")
    );
}

#[test]
fn cron_rejects_unknown_time_zone() {
    let result = CronJob::daily_in_timezone(
        "test",
        "test",
        DailyJobSchedule::new(9, 30),
        "Mars/Olympus_Mons",
    );

    assert!(result.is_err());
}

#[test]
fn monthly_cron_rejects_unknown_time_zone() {
    let result = CronJob::monthly_in_timezone(
        "test",
        "test",
        MonthlyJobSchedule::new(1, 9, 30),
        "Mars/Olympus_Mons",
    );

    assert!(result.is_err());
}

#[test]
fn daily_schedule_uses_named_time_zone_offset() {
    let time_zone = TimeZone::get("America/New_York").unwrap();
    let schedule = DailyJobSchedule::new(9, 30);
    let now = timestamp("2026-06-13T14:00:00Z");

    assert_eq!(
        latest_daily_due_at(now, schedule, &time_zone),
        Some(timestamp("2026-06-13T13:30:00Z"))
    );
    assert_eq!(
        next_daily_after(now, schedule, &time_zone),
        timestamp("2026-06-14T13:30:00Z")
    );
}

#[test]
fn daily_schedule_moves_forward_through_dst_gap() {
    let time_zone = TimeZone::get("America/New_York").unwrap();
    let schedule = DailyJobSchedule::new(2, 30);
    let now = timestamp("2026-03-08T08:00:00Z");

    assert_eq!(
        latest_daily_due_at(now, schedule, &time_zone),
        Some(timestamp("2026-03-08T07:30:00Z"))
    );
}

#[test]
fn daily_schedule_runs_once_at_earlier_dst_fold_time() {
    let time_zone = TimeZone::get("America/New_York").unwrap();
    let schedule = DailyJobSchedule::new(1, 30);
    let between_repetitions = timestamp("2026-11-01T06:00:00Z");

    assert_eq!(
        latest_daily_due_at(between_repetitions, schedule, &time_zone),
        Some(timestamp("2026-11-01T05:30:00Z"))
    );
    assert_eq!(
        next_daily_after(between_repetitions, schedule, &time_zone),
        timestamp("2026-11-02T06:30:00Z")
    );
}

#[test]
fn utc_is_known_under_its_name_in_any_case() {
    let cron = CronJob::daily_in_timezone("id", "name", DailyJobSchedule::new(6, 0), "utc").unwrap();
    let now = timestamp("2026-06-13T05:59:59Z");
    assert_eq!(
        cron.schedule.latest_due_at(now),
        Some(timestamp("2026-06-12T06:00:00Z"))
    );
    assert_eq!(cron.schedule.next_after(now), timestamp("2026-06-13T06:00:00Z"));
}

fn zone_of(schedule: &CronSchedule) -> &TimeZone {
    match schedule {
        CronSchedule::Daily { time_zone, .. } => time_zone,
        CronSchedule::Monthly { time_zone, .. } => time_zone,
        CronSchedule::Interval { .. } => panic!("an interval has no time zone"),
    }
}

#[test]
fn a_named_time_zone_is_the_one_asked_for() {
    let daily = CronJob::daily_in_timezone(
        "id",
        "name",
        DailyJobSchedule::new(6, 0),
        "america/NEW_york",
    )
    .unwrap();
    assert_eq!(zone_of(&daily.schedule).iana_name(), Some("America/New_York"));

    let monthly = CronJob::monthly_in_timezone(
        "id",
        "name",
        MonthlyJobSchedule::new(1, 6, 0),
        "Europe/Paris",
    )
    .unwrap();
    assert_eq!(zone_of(&monthly.schedule).iana_name(), Some("Europe/Paris"));

    let unknown = CronJob::daily_in_timezone(
        "id",
        "name",
        DailyJobSchedule::new(6, 0),
        "etc/unknown",
    )
    .unwrap();
    assert_eq!(zone_of(&unknown.schedule).iana_name(), None);
}

#[test]
fn cron_constructors_key_their_jobs_by_identifier() {
    let daily = CronJob::daily_utc("report", "send_report", DailyJobSchedule::new(9, 30));
    assert_eq!(daily.identifier, "report");
    assert_eq!(daily.name, "send_report");
    assert_eq!(daily.payload, serde_json::Value::Object(Default::default()));
    assert_eq!(daily.options.job_key.as_deref(), Some("report"));
    assert_eq!(daily.options.job_key_mode, JobKeyMode::Dedupe);
    assert_eq!(daily.options.max_attempts, 25);
    assert_eq!(daily.options.priority, 0);
    assert!(daily.options.run_at.is_none());
    assert!(!daily.catch_up_on_start);

    let monthly = CronJob::monthly_utc("books", "close_books", MonthlyJobSchedule::new(28, 23, 59));
    assert_eq!(monthly.options.job_key.as_deref(), Some("books"));
    let interval = CronJob::interval("tick", "tick", Duration::from_secs(1));
    assert_eq!(interval.options.job_key.as_deref(), Some("tick"));
}

#[test]
fn cron_builders_replace_one_thing_each() {
    let payload: serde_json::Value = serde_json::from_str("{\"a\":1}").unwrap();
    let cron = CronJob::interval("tick", "tick", Duration::from_secs(60))
        .payload(payload.clone())
        .options(EnqueueOptions {
            priority: 7,
            ..EnqueueOptions::default()
        })
        .catch_up_on_start();
    assert_eq!(cron.payload, payload);
    assert_eq!(cron.options.priority, 7);
    assert!(cron.options.job_key.is_none());
    assert!(cron.catch_up_on_start);
    assert!(matches!(cron.schedule, CronSchedule::Interval { .. }));
}

#[test]
fn weekdays_are_counted_from_the_epoch() {
    assert_eq!(weekday(0), Weekday::Thursday);
    assert_eq!(weekday(4), Weekday::Monday);
    assert_eq!(weekday(-1), Weekday::Wednesday);
    assert_eq!(weekday(-4_371_587), Weekday::Monday);
    assert_eq!(weekday(2_932_896), Weekday::Friday);
}

#[test]
fn monthly_schedule_finds_its_day_across_leap_years() {
    let schedule = MonthlyJobSchedule::new(28, 0, 0);
    assert_eq!(
        next_monthly_after(timestamp("2024-02-28T00:00:00Z"), schedule, &TimeZone::UTC),
        timestamp("2024-03-28T00:00:00Z")
    );
    assert_eq!(
        latest_monthly_due_at(timestamp("2000-03-01T00:00:00Z"), schedule, &TimeZone::UTC),
        Some(timestamp("2000-02-28T00:00:00Z"))
    );
    assert_eq!(
        latest_monthly_due_at(timestamp("1969-01-05T00:00:00Z"), schedule, &TimeZone::UTC),
        Some(timestamp("1968-12-28T00:00:00Z"))
    );
}

#[test]
fn a_slot_at_this_very_instant_is_due() {
    let schedule = DailyJobSchedule::new(9, 30);
    let now = timestamp("2026-06-16T09:30:00Z");
    assert_eq!(
        latest_daily_due_at(now, schedule, &TimeZone::UTC),
        Some(now)
    );
    assert_eq!(
        next_daily_after(now, schedule, &TimeZone::UTC),
        timestamp("2026-06-17T09:30:00Z")
    );
}

#[test]
fn intervals_before_the_epoch_start_at_or_before_the_second() {
    let every = Duration::from_secs(300);
    let now = Timestamp::from_second(-1).unwrap();
    assert_eq!(
        latest_interval_due_at(now, every),
        Timestamp::from_second(-300)
    );
    assert_eq!(next_interval_after(now, every), Timestamp::from_second(0).unwrap());
    // The fraction of a second is cut off before the boundary is looked for.
    let fraction = Timestamp::new(0, -500_000_000).unwrap();
    assert_eq!(
        latest_interval_due_at(fraction, every),
        Timestamp::from_second(0)
    );
}

#[test]
fn intervals_beyond_all_time_have_a_boundary_at_the_epoch_alone() {
    for seconds in [i64::MAX as u64, i64::MAX as u64 + 1, u64::MAX] {
        let every = Duration::from_secs(seconds);
        let now = timestamp("2026-06-13T10:07:42Z");
        assert_eq!(latest_interval_due_at(now, every), Timestamp::from_second(0));
        assert_eq!(find_next_boundary(now, every), Err(OutOfRange));
        let before = Timestamp::from_second(-1).unwrap();
        assert_eq!(latest_interval_due_at(before, every), None);
    }
}

#[test]
fn intervals_out_of_range_are_told() {
    let first = Timestamp::from_second(MIN_SECOND).unwrap();
    assert_eq!(latest_interval_due_at(first, Duration::from_secs(1_000_000_000_000)), None);
    let last = Timestamp::from_second(MAX_SECOND).unwrap();
    assert_eq!(
        find_next_boundary(last, Duration::from_secs(1)),
        Err(OutOfRange)
    );
    assert_eq!(
        find_next_boundary(first, Duration::from_secs(1)),
        Ok(Timestamp::from_second(MIN_SECOND + 1).unwrap())
    );
}

#[test]
fn searches_near_the_ends_of_time_are_told() {
    let rule = DayRule::Daily(DailyJobSchedule::new(0, 0));
    let first = Timestamp::from_second(MIN_SECOND).unwrap();
    assert_eq!(
        find_latest_slot(first, rule, &TimeZone::UTC),
        Err(OutOfRange)
    );
    let last = Timestamp::from_second(MAX_SECOND).unwrap();
    assert_eq!(find_next_slot(last, rule, &TimeZone::UTC), Err(OutOfRange));
    assert_eq!(
        find_latest_slot(last, rule, &TimeZone::UTC),
        Ok(Some(timestamp("9999-12-30T00:00:00Z")))
    );
}

#[test]
fn due_occurrences_come_with_the_next_ones() {
    let crons = vec![
        CronJob::interval("minute", "a", Duration::from_secs(60)),
        CronJob::daily_utc("day", "b", DailyJobSchedule::new(12, 0)),
    ];
    let now = timestamp("2026-06-13T10:07:42Z");
    let round = due_crons(&crons, now);
    assert_eq!(round.out_of_range, None);
    assert_eq!(round.due.len(), 2);
    assert_eq!(round.due[0].place, 0);
    assert_eq!(round.due[0].due_at, timestamp("2026-06-13T10:07:00Z"));
    assert_eq!(round.due[0].next_run_at, timestamp("2026-06-13T10:08:00Z"));
    assert_eq!(round.due[1].place, 1);
    assert_eq!(round.due[1].due_at, timestamp("2026-06-12T12:00:00Z"));
    assert_eq!(round.due[1].next_run_at, timestamp("2026-06-13T12:00:00Z"));
}

#[test]
fn a_schedule_out_of_range_ends_the_round() {
    let crons = vec![
        CronJob::interval("second", "a", Duration::from_secs(1)),
        CronJob::daily_utc("day", "b", DailyJobSchedule::new(12, 0)),
        CronJob::interval("minute", "c", Duration::from_secs(60)),
    ];
    let round = due_crons(&crons, Timestamp::from_second(MIN_SECOND).unwrap());
    assert_eq!(round.out_of_range, Some(1));
    assert_eq!(round.due.len(), 1);
    assert_eq!(round.due[0].place, 0);
}

#[test]
fn local_times_agree_with_jiff() {
    let epoch = jiff::civil::date(1970, 1, 1);
    for name in [
        "UTC",
        "America/New_York",
        "Asia/Kolkata",
        "Pacific/Apia",
        "Australia/Lord_Howe",
        "Europe/Dublin",
    ] {
        let zone = TimeZone::get(name).unwrap();
        for day in (15_000..21_000).chain([-25_567, -1, 0, 1]) {
            let date = epoch + jiff::Span::new().days(day);
            for (hour, minute) in [(0, 0), (1, 30), (2, 15), (23, 59)] {
                let theirs = zone
                    .to_timestamp(date.at(hour as i8, minute as i8, 0, 0))
                    .unwrap();
                assert_eq!(
                    local_instant(&zone, day, hour, minute),
                    Some(theirs.as_second()),
                    "{name} {date} {hour}:{minute}"
                );
            }
            let noon = date.at(12, 0, 0, 0).to_zoned(TimeZone::UTC).unwrap().timestamp();
            let local = (zone.to_datetime(noon).date() - epoch).get_days();
            let ours = Timestamp::from_second(noon.as_second()).unwrap();
            assert_eq!(local_day(&zone, ours), local, "{name} {noon}");
        }
    }
    let half_a_second_before = Timestamp::new(0, -500_000_000).unwrap();
    assert_eq!(local_day(&TimeZone::UTC, half_a_second_before), -1);
    assert_eq!(local_instant(&TimeZone::UTC, 2_932_897, 0, 0), None);
    assert_eq!(local_instant(&TimeZone::UTC, -4_371_587, 0, 0), None);
}

#[test]
fn a_cloned_schedule_keeps_its_time_zone() {
    let cron = CronJob::daily_in_timezone(
        "report",
        "report",
        DailyJobSchedule::new(9, 30),
        "America/New_York",
    )
    .unwrap();
    let now = timestamp("2026-06-13T14:00:00Z");
    assert_eq!(
        cron.clone().schedule.latest_due_at(now),
        Some(timestamp("2026-06-13T13:30:00Z"))
    );
}

#[test]
fn latest_and_next_occurrences_are_neighbours() {
    let schedule = DailyJobSchedule::new(9, 30).weekdays(&[Weekday::Monday, Weekday::Thursday]);
    let mut last = None;
    for hours in 0..400 {
        let now = Timestamp::from_second(1_781_000_000 + hours * 3600).unwrap();
        let latest = latest_daily_due_at(now, schedule, &TimeZone::UTC);
        let next = next_daily_after(now, schedule, &TimeZone::UTC);
        let due = latest.unwrap();
        assert!(due <= now && now < next);
        assert_eq!(next_daily_after(due, schedule, &TimeZone::UTC), next);
        assert!(last <= latest);
        last = latest;
    }
}

#[test]
fn utc_slots_are_found_up_to_the_ends_of_the_range() {
    let daily = DailyJobSchedule::new(9, 30).weekdays(&[Weekday::Monday]);
    let first = Timestamp::from_second(MIN_SECOND + 8 * 86_400).unwrap();
    assert!(find_latest_slot(first, DayRule::Daily(daily), &TimeZone::UTC).unwrap().is_some());
    let last = Timestamp::from_second(MAX_SECOND - 8 * 86_400).unwrap();
    let next = find_next_slot(last, DayRule::Daily(daily), &TimeZone::UTC).unwrap();
    assert!(last < next);
}
