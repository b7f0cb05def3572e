//! On which days and at which instants schedules fire, by the clock and the calendar.

use vstd::prelude::*;

use crate::calendar::{
    day_number, falls_on, is_date, lemma_months, month_length, weekday_of, year_start, Weekday,
    MAX_DAY, MIN_DAY,
};
use crate::cron::{occurrence_in_range, CronSchedule};
use crate::schedule::{
    ahead_on, answered, days_ahead, days_back, due_on, interval_start, interval_step,
    latest_answered, latest_boundary, latest_slot, next_answered, next_boundary, next_slot, slot,
    well_inside, DailyJobSchedule, DayRule, MonthlyJobSchedule,
};
use crate::schedule_laws::{
    law_utc_latest_is_the_latest, law_utc_next_is_the_next, lemma_interval_start,
    lemma_latest_is_a_slot, lemma_next_is_a_slot, lemma_utc_day, rule_valid,
};
use crate::search::lemma_first_such_holds;
use crate::time::{
    in_range, least, max_duration, whole_seconds, Duration, MAX_NANOS, MAX_SECOND, MIN_NANOS, MIN_SECOND,
    NANOS_PER_SECOND, SECONDS_PER_DAY,
};
use crate::zone::{clock_second, is_utc, zone_day, zone_offset, zone_offset_at, LocalOffset};

verus! {

/// The nanoseconds from the epoch to `hour`:`minute` on a day, by UTC.
pub open spec fn clock_nanos(day: int, hour: int, minute: int) -> int {
    day * 86_400_000_000_000 + hour * 3_600_000_000_000 + minute * 60_000_000_000
}

/// Whether the instant of `hour`:`minute` on a day, by UTC, is one of the range.
pub open spec fn clock_in_range(day: int, hour: int, minute: int) -> bool {
    -377_705_023_201_000_000_000 <= clock_nanos(day, hour, minute) <= 253_402_207_200_000_000_000
}

/// Whether an instant is one of the range.
pub open spec fn instant_in_range(instant: int) -> bool {
    -377_705_023_201_000_000_000 <= instant <= 253_402_207_200_999_999_999
}

/// Where a rule fires on a day, by UTC there is an occurrence at its time of that day.
proof fn lemma_utc_fires(zone: jiff::tz::TimeZone, rule: DayRule, day: int, instant: int)
    requires
        is_utc(zone),
        rule_valid(rule),
        MIN_DAY <= day <= MAX_DAY,
        clock_in_range(day, rule.hour(), rule.minute()),
        instant_in_range(instant),
        rule.fires_on(day),
    ensures
        ({
            let at = clock_nanos(day, rule.hour(), rule.minute());
            &&& instant >= at ==> latest_slot(zone, rule, instant) is Some && at <= latest_slot(
                zone,
                rule,
                instant,
            )->0 <= instant
            &&& instant < at ==> instant < next_slot(zone, rule, instant) <= at
        }),
{
    lemma_utc_day(zone, rule, instant, day);
    law_utc_latest_is_the_latest(zone, rule, instant, day);
    law_utc_next_is_the_next(zone, rule, instant, day);
}

/// A daily schedule that is kept to some weekdays fires on each of them: for every place in the list
/// and every day of that weekday there is, by UTC, an occurrence at the time of the schedule. At any
/// instant from then on, the latest occurrence is that one or a later one; and from any instant
/// before it, the next occurrence is that one or an earlier one.
pub proof fn law_every_listed_weekday_fires(
    zone: jiff::tz::TimeZone,
    schedule: DailyJobSchedule,
    place: int,
    day: int,
    instant: int,
)
    requires
        is_utc(zone),
        0 <= schedule.hour() < 24,
        0 <= schedule.minute() < 60,
        schedule.days() is Some,
        0 <= place < schedule.days()->0.len(),
        weekday_of(day) == schedule.days()->0[place],
        MIN_DAY <= day <= MAX_DAY,
        clock_in_range(day, schedule.hour(), schedule.minute()),
        instant_in_range(instant),
    ensures
        DayRule::Daily(schedule).fires_on(day),
        ({
            let at = clock_nanos(day, schedule.hour(), schedule.minute());
            let rule = DayRule::Daily(schedule);
            &&& instant >= at ==> latest_slot(zone, rule, instant) is Some && at <= latest_slot(
                zone,
                rule,
                instant,
            )->0 <= instant
            &&& instant < at ==> instant < next_slot(zone, rule, instant) <= at
        }),
{
    assert(schedule.days()->0.contains(weekday_of(day)));
    lemma_utc_fires(zone, DayRule::Daily(schedule), day, instant);
}

/// A daily schedule that is kept to no weekdays fires on every day: by UTC there is an occurrence at
/// its time of each day.
pub proof fn law_every_day_fires(
    zone: jiff::tz::TimeZone,
    schedule: DailyJobSchedule,
    day: int,
    instant: int,
)
    requires
        is_utc(zone),
        0 <= schedule.hour() < 24,
        0 <= schedule.minute() < 60,
        schedule.days() is None,
        MIN_DAY <= day <= MAX_DAY,
        clock_in_range(day, schedule.hour(), schedule.minute()),
        instant_in_range(instant),
    ensures
        DayRule::Daily(schedule).fires_on(day),
        ({
            let at = clock_nanos(day, schedule.hour(), schedule.minute());
            let rule = DayRule::Daily(schedule);
            &&& instant >= at ==> latest_slot(zone, rule, instant) is Some && at <= latest_slot(
                zone,
                rule,
                instant,
            )->0 <= instant
            &&& instant < at ==> instant < next_slot(zone, rule, instant) <= at
        }),
{
    lemma_utc_fires(zone, DayRule::Daily(schedule), day, instant);
}

/// A monthly schedule fires in every month: by UTC there is an occurrence at its time of its day of
/// each month.
pub proof fn law_every_month_fires(
    zone: jiff::tz::TimeZone,
    schedule: MonthlyJobSchedule,
    year: int,
    month: int,
    instant: int,
)
    requires
        is_utc(zone),
        0 <= schedule.hour() < 24,
        0 <= schedule.minute() < 60,
        1 <= schedule.day() <= 28,
        1 <= month <= 12,
        MIN_DAY <= day_number(year, month, schedule.day()) <= MAX_DAY,
        clock_in_range(
            day_number(year, month, schedule.day()),
            schedule.hour(),
            schedule.minute(),
        ),
        instant_in_range(instant),
    ensures
        ({
            let day = day_number(year, month, schedule.day());
            let at = clock_nanos(day, schedule.hour(), schedule.minute());
            let rule = DayRule::Monthly(schedule);
            &&& rule.fires_on(day)
            &&& instant >= at ==> latest_slot(zone, rule, instant) is Some && at <= latest_slot(
                zone,
                rule,
                instant,
            )->0 <= instant
            &&& instant < at ==> instant < next_slot(zone, rule, instant) <= at
        }),
{
    assert(is_date(year, month, schedule.day()));
    lemma_utc_fires(
        zone,
        DayRule::Monthly(schedule),
        day_number(year, month, schedule.day()),
        instant,
    );
}

/// A daily schedule fires on a day just where it is kept to no weekdays or that day is one of them,
/// and a monthly one just where the day is its day of some month.
pub proof fn law_firing_days(daily: DailyJobSchedule, monthly: MonthlyJobSchedule, day: int)
    ensures
        DayRule::Daily(daily).fires_on(day) <==> daily.days() is None || exists|i: int|
            0 <= i < daily.days()->0.len() && #[trigger] daily.days()->0[i] == weekday_of(day),
        DayRule::Monthly(monthly).fires_on(day) <==> exists|year: int, month: int|
            #[trigger] is_date(year, month, monthly.day()) && day == day_number(
                year,
                month,
                monthly.day(),
            ),
{
}

/// By UTC, what is found for a daily schedule is its time of a day, and that day is one of the
/// weekdays it is kept to, where it is kept to some. The day is the one that is returned.
pub proof fn law_daily_occurrence_is_on_a_listed_weekday(
    zone: jiff::tz::TimeZone,
    schedule: DailyJobSchedule,
    instant: int,
) -> (days: (int, int))
    requires
        is_utc(zone),
        0 <= schedule.hour() < 24,
        0 <= schedule.minute() < 60,
        instant_in_range(instant),
        latest_slot(zone, DayRule::Daily(schedule), instant) is Some,
        days_ahead(zone, DayRule::Daily(schedule), instant) is Some,
    ensures
        latest_slot(zone, DayRule::Daily(schedule), instant) == Some(
            clock_nanos(days.0, schedule.hour(), schedule.minute()),
        ),
        next_slot(zone, DayRule::Daily(schedule), instant) == clock_nanos(
            days.1,
            schedule.hour(),
            schedule.minute(),
        ),
        schedule.days() matches Some(listed) ==> (exists|i: int|
            0 <= i < listed.len() && #[trigger] listed[i] == weekday_of(days.0)) && (exists|i: int|
            0 <= i < listed.len() && #[trigger] listed[i] == weekday_of(days.1)),
{
    let rule = DayRule::Daily(schedule);
    let back = lemma_latest_is_a_slot(zone, rule, instant);
    let ahead = lemma_next_is_a_slot(zone, rule, instant);
    (back, ahead)
}

/// By UTC, what is found for a monthly schedule is its time of its day of a month. The months are the
/// ones that are returned.
pub proof fn law_monthly_occurrence_is_on_its_day(
    zone: jiff::tz::TimeZone,
    schedule: MonthlyJobSchedule,
    instant: int,
) -> (months: ((int, int), (int, int)))
    requires
        is_utc(zone),
        0 <= schedule.hour() < 24,
        0 <= schedule.minute() < 60,
        1 <= schedule.day() <= 28,
        instant_in_range(instant),
        latest_slot(zone, DayRule::Monthly(schedule), instant) is Some,
        days_ahead(zone, DayRule::Monthly(schedule), instant) is Some,
    ensures
        1 <= months.0.1 <= 12,
        1 <= months.1.1 <= 12,
        latest_slot(zone, DayRule::Monthly(schedule), instant) == Some(
            clock_nanos(
                day_number(months.0.0, months.0.1, schedule.day()),
                schedule.hour(),
                schedule.minute(),
            ),
        ),
        next_slot(zone, DayRule::Monthly(schedule), instant) == clock_nanos(
            day_number(months.1.0, months.1.1, schedule.day()),
            schedule.hour(),
            schedule.minute(),
        ),
{
    let rule = DayRule::Monthly(schedule);
    let back = lemma_latest_is_a_slot(zone, rule, instant);
    let ahead = lemma_next_is_a_slot(zone, rule, instant);
    let place = schedule.day();
    assert(falls_on(back, place) && falls_on(ahead, place));
    let one = choose|year: int, month: int|
        #[trigger] is_date(year, month, place) && day_number(year, month, place) == back;
    let other = choose|year: int, month: int|
        #[trigger] is_date(year, month, place) && day_number(year, month, place) == ahead;
    (one, other)
}

/// In any time zone, the search for the latest occurrence goes back eight days from the local day for
/// a daily schedule and 370 for a monthly one, and stops at the first day on which the schedule was
/// due; the search for the next one goes forward as far. Where that finds none, the next occurrence is
/// taken to be a day later, or 31 days.
pub proof fn law_search_in_any_zone(
    zone: jiff::tz::TimeZone,
    rule: DayRule,
    instant: int,
    distance: int,
)
    requires
        0 <= distance <= 8 || rule is Monthly && 0 <= distance <= 370,
    ensures
        ({
            let today = zone_day(zone, instant);
            let day = today - distance;
            let at = slot(zone, rule, day);
            rule.fires_on(day) && at is Some && at->0 <= instant ==> {
                &&& days_back(zone, rule, instant) matches Some(back) && 0 <= back <= distance
                &&& latest_slot(zone, rule, instant) is Some
                &&& latest_slot(zone, rule, instant) == slot(
                    zone,
                    rule,
                    today - days_back(zone, rule, instant)->0,
                )
            }
        }),
        ({
            let today = zone_day(zone, instant);
            let day = today + distance;
            let at = slot(zone, rule, day);
            rule.fires_on(day) && at is Some && at->0 > instant ==> {
                &&& days_ahead(zone, rule, instant) matches Some(ahead) && 0 <= ahead <= distance
                &&& Some(next_slot(zone, rule, instant)) == slot(
                    zone,
                    rule,
                    today + days_ahead(zone, rule, instant)->0,
                )
            }
        }),
        latest_slot(zone, rule, instant) matches Some(latest) ==> latest <= instant,
        next_slot(zone, rule, instant) > instant,
        days_back(zone, rule, instant) matches Some(back) ==> 0 <= back <= if rule is Daily {
            8int
        } else {
            370
        } && rule.fires_on(zone_day(zone, instant) - back),
        days_ahead(zone, rule, instant) matches Some(ahead) ==> 0 <= ahead <= if rule is Daily {
            8int
        } else {
            370
        } && rule.fires_on(zone_day(zone, instant) + ahead),
        days_ahead(zone, rule, instant) is None && rule is Daily ==> next_slot(zone, rule, instant)
            == instant + 86_400_000_000_000,
        days_ahead(zone, rule, instant) is None && rule is Monthly ==> next_slot(
            zone,
            rule,
            instant,
        ) == instant + 31 * 86_400_000_000_000,
{
    let today = zone_day(zone, instant);
    let due = |back: int| due_on(zone, rule, instant, zone_day(zone, instant) - back);
    let ahead = |ahead: int| ahead_on(zone, rule, instant, zone_day(zone, instant) + ahead);
    lemma_first_such_holds(due, 0, rule.reach() + 1);
    lemma_first_such_holds(ahead, 0, rule.reach() + 1);
    assert(due(distance) == due_on(zone, rule, instant, today - distance));
    assert(ahead(distance) == ahead_on(zone, rule, instant, today + distance));
    if let Some(found) = days_back(zone, rule, instant) {
        assert(due(found));
    }
    if let Some(found) = days_ahead(zone, rule, instant) {
        assert(ahead(found));
    }
}

/// Where the clocks of a zone show the wanted time of a day once, the instant of a schedule on that
/// day is that time less how far the clocks are ahead of UTC. There is none where that is out of
/// range.
pub proof fn law_slot_is_by_the_local_clock(
    zone: jiff::tz::TimeZone,
    rule: DayRule,
    day: int,
    offset: i32,
)
    requires
        zone_offset(zone, day, rule.hour(), rule.minute()) == LocalOffset::Unambiguous(offset),
        MIN_DAY <= day <= MAX_DAY,
    ensures
        ({
            let at = clock_nanos(day, rule.hour(), rule.minute()) - offset * 1_000_000_000;
            &&& -377_705_023_201_000_000_000 <= at <= 253_402_207_200_000_000_000 ==> slot(
                zone,
                rule,
                day,
            ) == Some(at)
            &&& slot(zone, rule, day) is Some ==> -377_705_023_201_000_000_000 <= at
                <= 253_402_207_200_000_000_000
        }),
{
}

/// A rule fires at the hour and the minute of its schedule.
pub proof fn law_rule_has_the_time_of_its_schedule(
    daily: DailyJobSchedule,
    monthly: MonthlyJobSchedule,
)
    ensures
        DayRule::Daily(daily).hour() == daily.hour(),
        DayRule::Daily(daily).minute() == daily.minute(),
        DayRule::Monthly(monthly).hour() == monthly.hour(),
        DayRule::Monthly(monthly).minute() == monthly.minute(),
{
}

/// The local day at an instant is the one whose first and last moment lie on either side of what the
/// clocks show.
pub proof fn law_local_day(zone: jiff::tz::TimeZone, instant: int)
    ensures
        ({
            let shown = instant + zone_offset_at(zone, instant) * 1_000_000_000;
            zone_day(zone, instant) * 86_400_000_000_000 <= shown < (zone_day(zone, instant) + 1)
                * 86_400_000_000_000
        }),
{
    let shown = instant + zone_offset_at(zone, instant) * 1_000_000_000;
    assert(SECONDS_PER_DAY * NANOS_PER_SECOND == 86_400_000_000_000);
    vstd::arithmetic::div_mod::lemma_fundamental_div_mod(shown, 86_400_000_000_000);
    vstd::arithmetic::div_mod::lemma_mod_bound(shown, 86_400_000_000_000);
}

/// The weekday after a weekday.
pub open spec fn follows(day: Weekday) -> Weekday {
    match day {
        Weekday::Monday => Weekday::Tuesday,
        Weekday::Tuesday => Weekday::Wednesday,
        Weekday::Wednesday => Weekday::Thursday,
        Weekday::Thursday => Weekday::Friday,
        Weekday::Friday => Weekday::Saturday,
        Weekday::Saturday => Weekday::Sunday,
        Weekday::Sunday => Weekday::Monday,
    }
}

/// The day of the epoch was a Thursday, and the weekdays follow each other.
pub proof fn law_weekdays_follow_each_other(day: int)
    ensures
        weekday_of(0) == Weekday::Thursday,
        weekday_of(day + 1) == follows(weekday_of(day)),
        weekday_of(day + 7) == weekday_of(day),
{
}

/// The days of the calendar are counted from 1970-01-01 on, one by one: through a month, from the
/// last day of a month to the first of the next, and from the last day of a year to the first of the
/// next.
pub proof fn law_days_are_counted_one_by_one(year: int, month: int, place: int)
    requires
        is_date(year, month, place),
    ensures
        day_number(1970, 1, 1) == 0,
        is_date(year, month, place + 1) ==> day_number(year, month, place + 1) == day_number(
            year,
            month,
            place,
        ) + 1,
        !is_date(year, month, place + 1) && month < 12 ==> day_number(year, month + 1, 1)
            == day_number(year, month, place) + 1,
        !is_date(year, month, place + 1) && month == 12 ==> day_number(year + 1, 1, 1)
            == day_number(year, month, place) + 1,
{
    lemma_months(year);
    assert(year_start(1970) == 0);
}

/// The months have 31 days, but April, June, September and November have 30, and February has 28, or
/// 29 in a leap year: one in four, except the full centuries that are not a multiple of 400.
pub proof fn law_lengths_of_months(year: int, month: int, place: int)
    ensures
        is_date(year, month, place) ==> 1 <= month <= 12 && 1 <= place <= 31,
        1 <= month <= 12 && 1 <= place <= 28 ==> is_date(year, month, place),
        is_date(year, 2, 29) <==> year % 400 == 0 || year % 4 == 0 && year % 100 != 0,
        !is_date(year, 2, 30),
        1 <= month <= 12 && month != 2 ==> is_date(year, month, 30),
        is_date(year, month, 31) <==> month == 1 || month == 3 || month == 5 || month == 7 || month
            == 8 || month == 10 || month == 12,
        is_date(year, month, place) && 1 < place ==> is_date(year, month, place - 1),
{
}

/// A day falls on a day of the month where some date with that day has its number.
pub proof fn law_falling_on_a_day_of_the_month(day: int, year: int, month: int, place: int)
    ensures
        is_date(year, month, place) ==> falls_on(day_number(year, month, place), place),
        falls_on(day, place) ==> exists|y: int, m: int|
            1 <= m <= 12 && 1 <= place <= 31 && #[trigger] day_number(y, m, place) == day,
{
    if falls_on(day, place) {
        let (y, m) = choose|y: int, m: int|
            #[trigger] is_date(y, m, place) && day_number(y, m, place) == day;
        assert(1 <= month_length(y, m) <= 31);
        assert(day_number(y, m, place) == day);
    }
}

/// The calendar goes from -9999-01-01 to 9999-12-31. The range of time begins 25:59:59 after the first
/// of these days begins, and ends 25:59:59 before the last of them ends.
pub proof fn law_range_of_time(instant: int)
    ensures
        MIN_DAY == day_number(-9999, 1, 1),
        MAX_DAY == day_number(9999, 12, 31),
        MIN_SECOND == MIN_DAY * 86_400 + 25 * 3600 + 59 * 60 + 59,
        MAX_SECOND == (MAX_DAY + 1) * 86_400 - 26 * 3600,
        MIN_NANOS == MIN_SECOND * 1_000_000_000,
        MAX_NANOS == MAX_SECOND * 1_000_000_000 + 999_999_999,
        in_range(instant) <==> MIN_SECOND * 1_000_000_000 <= instant < (MAX_SECOND + 1)
            * 1_000_000_000,
        max_duration() == 18_446_744_073_709_551_616 * 1_000_000_000 - 1,
{
    lemma_months(9999);
    lemma_months(-9999);
}

/// The whole seconds of a count of nanoseconds have its sign, and what is cut off is less than a
/// second.
pub proof fn law_whole_seconds(nanos: int)
    ensures
        nanos >= 0 ==> 0 <= whole_seconds(nanos) * 1_000_000_000 <= nanos < whole_seconds(nanos)
            * 1_000_000_000 + 1_000_000_000,
        whole_seconds(-nanos) == -whole_seconds(nanos),
{
}

/// An instant is well inside the range of time where it is so many days after its start, and so many
/// before its end.
pub proof fn law_well_inside(instant: int, days: int, days_left: int)
    ensures
        well_inside(instant, days, days_left) <==> instant - MIN_NANOS >= days * 86_400_000_000_000
            && MAX_NANOS - instant >= days_left * 86_400_000_000_000,
{
    assert(days * SECONDS_PER_DAY * NANOS_PER_SECOND == days * 86_400_000_000_000);
    assert(days_left * SECONDS_PER_DAY * NANOS_PER_SECOND == days_left * 86_400_000_000_000);
}

/// The lesser of two numbers is one of them, and not greater than either.
pub proof fn law_least(a: int, b: int)
    ensures
        least(a, b) <= a,
        least(a, b) <= b,
        least(a, b) == a || least(a, b) == b,
{
}

/// An interval of less than a second counts as one of a second, and a fraction of a second is cut off
/// from any other.
pub proof fn law_intervals_are_whole_seconds(every: int, seconds: int, instant: int)
    requires
        1 <= seconds,
        seconds * 1_000_000_000 <= every < (seconds + 1) * 1_000_000_000 || seconds == 1 && 0
            <= every < 1_000_000_000,
    ensures
        latest_boundary(every, instant) == latest_boundary(seconds * 1_000_000_000, instant),
        next_boundary(every, instant) == next_boundary(seconds * 1_000_000_000, instant),
        interval_step(every) == seconds,
{
    assert((seconds * 1_000_000_000) / 1_000_000_000 == seconds);
    if every >= 1_000_000_000 {
        assert(every / 1_000_000_000 == seconds);
    } else {
        assert(every / 1_000_000_000 == 0);
    }
}

/// Of the multiples of an interval, counted from the epoch, none lies between the latest occurrence
/// and the second of the instant, and none between that second and the next occurrence. There is no
/// latest occurrence only where no multiple in the range of time comes before, and where no multiple
/// in the range comes after, the next occurrence is one interval later than the instant.
pub proof fn law_no_boundary_is_missed(seconds: int, instant: int, count: int)
    requires
        1 <= seconds,
        instant_in_range(instant),
    ensures
        ({
            let every = seconds * 1_000_000_000;
            let at = count * seconds;
            let now = whole_seconds(instant);
            &&& MIN_SECOND <= at <= now ==> latest_boundary(every, instant) is Some && at
                * 1_000_000_000 <= latest_boundary(every, instant)->0 <= now * 1_000_000_000
            &&& now < at <= MAX_SECOND ==> now * 1_000_000_000 < next_boundary(every, instant) <= at
                * 1_000_000_000
            &&& latest_boundary(every, instant) matches Some(latest) ==> latest == (now / seconds)
                * seconds * 1_000_000_000
            &&& (now / seconds + 1) * seconds <= MAX_SECOND ==> next_boundary(every, instant) == (now
                / seconds + 1) * seconds * 1_000_000_000
            &&& (now / seconds + 1) * seconds > MAX_SECOND ==> next_boundary(every, instant)
                == instant + every
        }),
{
    let every = seconds * 1_000_000_000;
    let now = whole_seconds(instant);
    law_intervals_are_whole_seconds(every, seconds, instant);
    lemma_interval_start(now, seconds);
    let start = interval_start(now, seconds);
    let number = now / seconds;
    let at = count * seconds;
    assert(at <= now ==> at <= start) by (nonlinear_arith)
        requires
            start == number * seconds,
            now < start + seconds,
            at == count * seconds,
            1 <= seconds,
    ;
    assert(at > now ==> at >= start + seconds) by (nonlinear_arith)
        requires
            start == number * seconds,
            start <= now,
            at == count * seconds,
            1 <= seconds,
    ;
    assert((number + 1) * seconds == start + seconds) by (nonlinear_arith)
        requires
            start == number * seconds,
    ;
    assert(MIN_SECOND <= now <= MAX_SECOND);
}

/// How many days a search goes beyond the day that it starts from.
pub open spec fn search_days(rule: DayRule) -> int {
    if rule is Daily {
        8
    } else {
        370
    }
}

/// Whether a day is one of the calendar, and the rule does not fire on it at an instant out of range.
pub open spec fn can_look_at(zone: jiff::tz::TimeZone, rule: DayRule, day: int) -> bool {
    &&& MIN_DAY <= day <= MAX_DAY
    &&& rule.fires_on(day) ==> slot(zone, rule, day) is Some
}

/// A search for an occurrence gets an answer just where it can look at each day, from the local day
/// of the instant to the one that it finds, or as far as it goes; and, for the next one, what it comes
/// to is in the range of time.
pub proof fn law_when_a_search_is_answered(zone: jiff::tz::TimeZone, rule: DayRule, instant: int)
    ensures
        latest_answered(zone, rule, instant) <==> forall|distance: int|
            0 <= distance <= search_days(rule) && (days_back(zone, rule, instant) is None || distance
                <= days_back(zone, rule, instant)->0) ==> #[trigger] can_look_at(
                zone,
                rule,
                zone_day(zone, instant) - distance,
            ),
        next_answered(zone, rule, instant) <==> next_slot(zone, rule, instant) <= MAX_NANOS && forall|
            distance: int,
        |
            0 <= distance <= search_days(rule) && (days_ahead(zone, rule, instant) is None || distance
                <= days_ahead(zone, rule, instant)->0) ==> #[trigger] can_look_at(
                zone,
                rule,
                zone_day(zone, instant) + distance,
            ),
{
    assert forall|day: int| #[trigger] answered(zone, rule, day) == can_look_at(zone, rule, day) by {}
    assert forall|day: int| #[trigger] can_look_at(zone, rule, day) == answered(zone, rule, day) by {}
}

/// By UTC, a search gets an answer wherever the instant is some more than a year away from both ends
/// of the range of time.
pub proof fn law_utc_searches_are_answered(zone: jiff::tz::TimeZone, rule: DayRule, instant: int)
    requires
        is_utc(zone),
        rule_valid(rule),
        MIN_NANOS + 374 * 86_400_000_000_000 <= instant <= MAX_NANOS - 374 * 86_400_000_000_000,
    ensures
        latest_answered(zone, rule, instant),
        next_answered(zone, rule, instant),
{
    assert forall|day: int|
        zone_day(zone, instant) - 370 <= day <= zone_day(zone, instant)
            + 370 implies #[trigger] answered(zone, rule, day) by {
        lemma_utc_day(zone, rule, instant, day);
    }
    if days_ahead(zone, rule, instant) is Some {
        let day = lemma_next_is_a_slot(zone, rule, instant);
    }
}

/// The latest occurrence of an interval can always be looked for, and the next one where the instant
/// one interval later is in the range of time.
pub proof fn law_intervals_in_range(every: Duration, instant: int)
    requires
        every@ >= 0,
    ensures
        ({
            let schedule = CronSchedule::Interval { every };
            let seconds = if every@ < 1_000_000_000 {
                1
            } else {
                every@ / 1_000_000_000
            };
            &&& schedule.due_in_range(instant)
            &&& schedule.next_in_range(instant) <==> instant + seconds * 1_000_000_000 <= MAX_NANOS
        }),
{
}

/// Whether the occurrences of a schedule are in range goes by its kind; an occurrence is, where it and
/// the one after it are.
pub proof fn law_occurrences_in_range(schedule: CronSchedule, instant: int)
    ensures
        match schedule {
            CronSchedule::Daily { schedule: daily, time_zone } => {
                let rule = DayRule::Daily(daily);
                &&& schedule.due_in_range(instant) == latest_answered(time_zone, rule, instant)
                &&& schedule.next_in_range(instant) == next_answered(time_zone, rule, instant)
            },
            CronSchedule::Monthly { schedule: monthly, time_zone } => {
                let rule = DayRule::Monthly(monthly);
                &&& schedule.due_in_range(instant) == latest_answered(time_zone, rule, instant)
                &&& schedule.next_in_range(instant) == next_answered(time_zone, rule, instant)
            },
            CronSchedule::Interval { every } => true,
        },
        occurrence_in_range(schedule, instant) <==> schedule.due_in_range(instant) && (schedule.due(
            instant,
        ) is None || schedule.next_in_range(schedule.due(instant)->0)),
{
}

/// The seconds that a clock on UTC gives to a local time.
pub proof fn law_clock_second(day: int, hour: int, minute: int)
    ensures
        clock_second(day, hour, minute) * 1_000_000_000 == clock_nanos(day, hour, minute),
{
}

} // verus!
