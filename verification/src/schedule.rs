//! When schedules fall due.

use vstd::prelude::*;

use crate::calendar::{
    falls_on, lemma_day_of_month_unique, weekday, weekday_of, Weekday, MAX_DAY, MIN_DAY,
};
use crate::search::{first_such, lemma_first_such, lemma_first_such_holds};
use crate::time::{
    instant_of, whole_seconds, Duration, Timestamp, MAX_NANOS, MAX_SECOND, MIN_NANOS, MIN_SECOND,
    NANOS_PER_SECOND, SECONDS_PER_DAY,
};
use crate::zone::{day_of_month, local_day, local_instant, zone_day, zone_second, MAX_OFFSET};

verus! {

/// A time of day, on every day or on some weekdays.
#[derive(Clone, Copy, Debug)]
pub struct DailyJobSchedule {
    hour: u8,
    minute: u8,
    weekdays: Option<&'static [Weekday]>,
}

impl DailyJobSchedule {
    #[verifier::type_invariant]
    spec fn valid(self) -> bool {
        &&& self.hour < 24
        &&& self.minute < 60
        &&& self.weekdays matches Some(days) ==> days@.len() > 0
    }

    /// The hour of the day.
    pub closed spec fn hour(self) -> int {
        self.hour as int
    }

    /// The minute of the hour.
    pub closed spec fn minute(self) -> int {
        self.minute as int
    }

    /// The weekdays it is kept to, where it is kept to some.
    pub closed spec fn days(self) -> Option<Seq<Weekday>> {
        match self.weekdays {
            Some(days) => Some(days@),
            None => None,
        }
    }

    /// The schedule for `hour`:`minute` on every day.
    pub fn new(hour: u8, minute: u8) -> (schedule: Self)
        requires
            hour < 24,
            minute < 60,
        ensures
            schedule.hour() == hour,
            schedule.minute() == minute,
            schedule.days() is None,
    {
        Self { hour, minute, weekdays: None }
    }

    /// Keeps the schedule to the given weekdays.
    pub fn weekdays(self, weekdays: &'static [Weekday]) -> (schedule: Self)
        requires
            weekdays@.len() > 0,
        ensures
            schedule.hour() == self.hour(),
            schedule.minute() == self.minute(),
            schedule.days() == Some(weekdays@),
    {
        proof {
            use_type_invariant(&self);
        }
        Self { hour: self.hour, minute: self.minute, weekdays: Some(weekdays) }
    }
}

/// A time of day on one day of each month.
#[derive(Clone, Copy, Debug)]
pub struct MonthlyJobSchedule {
    day: u8,
    hour: u8,
    minute: u8,
}

impl MonthlyJobSchedule {
    #[verifier::type_invariant]
    spec fn valid(self) -> bool {
        1 <= self.day <= 28 && self.hour < 24 && self.minute < 60
    }

    /// The day of the month.
    pub closed spec fn day(self) -> int {
        self.day as int
    }

    /// The hour of the day.
    pub closed spec fn hour(self) -> int {
        self.hour as int
    }

    /// The minute of the hour.
    pub closed spec fn minute(self) -> int {
        self.minute as int
    }

    /// The schedule for `hour`:`minute` on the `day`-th of each month.
    pub fn new(day: u8, hour: u8, minute: u8) -> (schedule: Self)
        requires
            1 <= day <= 28,
            hour < 24,
            minute < 60,
        ensures
            schedule.day() == day,
            schedule.hour() == hour,
            schedule.minute() == minute,
    {
        Self { day, hour, minute }
    }
}

/// A rule that fires at one time of day, on certain days.
#[derive(Clone, Copy, Debug)]
pub enum DayRule {
    Daily(DailyJobSchedule),
    Monthly(MonthlyJobSchedule),
}

impl DayRule {
    /// The hour at which the rule fires.
    pub open spec fn hour(self) -> int {
        match self {
            DayRule::Daily(schedule) => schedule.hour(),
            DayRule::Monthly(schedule) => schedule.hour(),
        }
    }

    /// The minute at which the rule fires.
    pub open spec fn minute(self) -> int {
        match self {
            DayRule::Daily(schedule) => schedule.minute(),
            DayRule::Monthly(schedule) => schedule.minute(),
        }
    }

    /// Whether the rule fires on the day with the number `day`.
    pub open spec fn fires_on(self, day: int) -> bool {
        match self {
            DayRule::Daily(schedule) => schedule.days() matches Some(days) ==> days.contains(
                weekday_of(day),
            ),
            DayRule::Monthly(schedule) => falls_on(day, schedule.day()),
        }
    }

    /// How many days a search for an occurrence goes beyond the day that it starts from.
    pub open spec fn reach(self) -> int {
        match self {
            DayRule::Daily(_) => 8,
            DayRule::Monthly(_) => 370,
        }
    }

    /// The days after which the rule is taken to fire again where the search finds nothing.
    pub open spec fn fallback_days(self) -> int {
        match self {
            DayRule::Daily(_) => 1,
            DayRule::Monthly(_) => 31,
        }
    }

    fn reach_days(self) -> (days: i32)
        ensures
            days == self.reach(),
    {
        match self {
            DayRule::Daily(_) => 8,
            DayRule::Monthly(_) => 370,
        }
    }

    fn time_of_day(self) -> (time: (u8, u8))
        ensures
            time.0 == self.hour(),
            time.1 == self.minute(),
            time.0 < 24,
            time.1 < 60,
    {
        match self {
            DayRule::Daily(schedule) => {
                proof {
                    use_type_invariant(&schedule);
                }
                (schedule.hour, schedule.minute)
            },
            DayRule::Monthly(schedule) => {
                proof {
                    use_type_invariant(&schedule);
                }
                (schedule.hour, schedule.minute)
            },
        }
    }

    fn is_on(self, day: i32) -> (fires: bool)
        requires
            MIN_DAY <= day <= MAX_DAY,
        ensures
            fires == self.fires_on(day as int),
    {
        match self {
            DayRule::Daily(schedule) => match schedule.weekdays {
                Some(days) => holds_weekday(days, weekday(day)),
                None => true,
            },
            DayRule::Monthly(schedule) => {
                let place: u8 = day_of_month(day);
                proof {
                    if falls_on(day as int, schedule.day()) {
                        lemma_day_of_month_unique(day as int, place as int, schedule.day());
                    }
                }
                place == schedule.day
            },
        }
    }
}

fn holds_weekday(days: &[Weekday], wanted: Weekday) -> (holds: bool)
    ensures
        holds == days@.contains(wanted),
{
    let mut i: usize = 0;
    while i < days.len()
        invariant
            i <= days@.len(),
            forall|j: int| 0 <= j < i ==> days@[j] != wanted,
        decreases days@.len() - i,
    {
        if days[i] == wanted {
            return true;
        }
        i = i + 1;
    }
    false
}

/// The instant at which `rule` fires on the day with the number `day`, where that is in range.
pub open spec fn slot(zone: jiff::tz::TimeZone, rule: DayRule, day: int) -> Option<int> {
    match zone_second(zone, day, rule.hour(), rule.minute()) {
        Some(second) => Some(second * NANOS_PER_SECOND),
        None => None,
    }
}

/// Whether `rule` fires on a day, at an instant no later than `now`.
pub open spec fn due_on(zone: jiff::tz::TimeZone, rule: DayRule, now: int, day: int) -> bool {
    rule.fires_on(day) && slot(zone, rule, day) is Some && slot(zone, rule, day)->0 <= now
}

/// Whether `rule` fires on a day, at an instant later than `after`.
pub open spec fn ahead_on(zone: jiff::tz::TimeZone, rule: DayRule, after: int, day: int) -> bool {
    rule.fires_on(day) && slot(zone, rule, day) is Some && slot(zone, rule, day)->0 > after
}

/// Whether a search that looks at the day with the number `day` gets an answer: the day is one of
/// the calendar, and the rule fires on it at an instant in range or not at all.
pub open spec fn answered(zone: jiff::tz::TimeZone, rule: DayRule, day: int) -> bool {
    MIN_DAY <= day <= MAX_DAY && (rule.fires_on(day) ==> slot(zone, rule, day) is Some)
}

/// How many days before the local day of `now` the rule was last due, within its reach.
pub open spec fn days_back(zone: jiff::tz::TimeZone, rule: DayRule, now: int) -> Option<int> {
    first_such(
        |back: int| due_on(zone, rule, now, zone_day(zone, now) - back),
        0,
        rule.reach() + 1,
    )
}

/// How many days after the local day of `after` the rule next fires, within its reach.
pub open spec fn days_ahead(zone: jiff::tz::TimeZone, rule: DayRule, after: int) -> Option<int> {
    first_such(
        |ahead: int| ahead_on(zone, rule, after, zone_day(zone, after) + ahead),
        0,
        rule.reach() + 1,
    )
}

/// The latest instant up to `now` at which `rule` fired, going back day by day from the local day
/// of `now` as far as the rule reaches.
pub open spec fn latest_slot(zone: jiff::tz::TimeZone, rule: DayRule, now: int) -> Option<int> {
    match days_back(zone, rule, now) {
        Some(back) => slot(zone, rule, zone_day(zone, now) - back),
        None => None,
    }
}

/// The first instant after `after` at which `rule` fires, going forward day by day from the local
/// day of `after` as far as the rule reaches, and a fixed span after `after` where there is none.
pub open spec fn next_slot(zone: jiff::tz::TimeZone, rule: DayRule, after: int) -> int {
    match days_ahead(zone, rule, after) {
        Some(ahead) => slot(zone, rule, zone_day(zone, after) + ahead)->0,
        None => after + rule.fallback_days() * SECONDS_PER_DAY * NANOS_PER_SECOND,
    }
}

/// Whether the search for the latest slot gets an answer on each day it looks at.
pub open spec fn latest_answered(zone: jiff::tz::TimeZone, rule: DayRule, now: int) -> bool {
    forall|back: int|
        0 <= back <= rule.reach() && (days_back(zone, rule, now) matches Some(found) ==> back
            <= found) ==> #[trigger] answered(zone, rule, zone_day(zone, now) - back)
}

/// Whether the search for the next slot gets an answer on each day it looks at, and its result is in
/// range.
pub open spec fn next_answered(zone: jiff::tz::TimeZone, rule: DayRule, after: int) -> bool {
    &&& forall|ahead: int|
        0 <= ahead <= rule.reach() && (days_ahead(zone, rule, after) matches Some(found) ==> ahead
            <= found) ==> #[trigger] answered(zone, rule, zone_day(zone, after) + ahead)
    &&& next_slot(zone, rule, after) <= MAX_NANOS
}

/// A search for an occurrence that comes to a day or an instant out of range.
#[derive(Clone, Copy, Debug, PartialEq, Eq, Structural)]
pub struct OutOfRange;

/// Whether an instant is at least `days` days after the start of the range and `days_left` days
/// before its end.
pub open spec fn well_inside(instant: int, days: int, days_left: int) -> bool {
    &&& MIN_NANOS + days * SECONDS_PER_DAY * NANOS_PER_SECOND <= instant
    &&& instant <= MAX_NANOS - days_left * SECONDS_PER_DAY * NANOS_PER_SECOND
}

/// Searches for the latest slot. Fails where the search gets no answer on a day it looks at, which
/// happens only close to the ends of the range.
pub fn find_latest_slot(now: Timestamp, rule: DayRule, time_zone: &jiff::tz::TimeZone) -> (due:
    Result<Option<Timestamp>, OutOfRange>)
    ensures
        due is Ok <==> latest_answered(*time_zone, rule, now@),
        due matches Ok(due) ==> instant_of(due) == latest_slot(*time_zone, rule, now@),
        well_inside(now@, rule.reach() + 4, 4) ==> due is Ok,
{
    let today: i32 = local_day(time_zone, now);
    let (hour, minute) = rule.time_of_day();
    let reach: i32 = rule.reach_days();
    let ghost test = |back: int| due_on(*time_zone, rule, now@, zone_day(*time_zone, now@) - back);
    let mut back: i32 = 0;
    while back <= reach
        invariant
            0 <= back <= reach + 1,
            reach == rule.reach(),
            reach <= 370,
            today == zone_day(*time_zone, now@),
            MIN_DAY <= today <= MAX_DAY,
            today * SECONDS_PER_DAY * NANOS_PER_SECOND <= now@ + MAX_OFFSET * NANOS_PER_SECOND,
            now@ - MAX_OFFSET * NANOS_PER_SECOND < (today + 1) * SECONDS_PER_DAY * NANOS_PER_SECOND,
            hour == rule.hour(),
            minute == rule.minute(),
            hour < 24,
            minute < 60,
            test == (|back: int|
                due_on(*time_zone, rule, now@, zone_day(*time_zone, now@) - back)),
            days_back(*time_zone, rule, now@) == first_such(test, 0, reach + 1),
            forall|k: int| 0 <= k < back ==> !(#[trigger] test(k)),
            forall|k: int|
                0 <= k < back ==> #[trigger] answered(
                    *time_zone,
                    rule,
                    zone_day(*time_zone, now@) - k,
                ),
        decreases reach + 1 - back,
    {
        proof {
            lemma_first_such_holds(test, 0, reach + 1);
            if let Some(found) = days_back(*time_zone, rule, now@) {
                assert(test(found));
            }
        }
        let day: i32 = today - back;
        if day < MIN_DAY {
            assert(!answered(*time_zone, rule, zone_day(*time_zone, now@) - back));
            return Err(OutOfRange);
        }
        if rule.is_on(day) {
            match local_instant(time_zone, day, hour, minute) {
                Some(second) => {
                    match Timestamp::from_second(second) {
                        Some(candidate) => {
                            if !now.is_before(candidate) {
                                proof {
                                    assert(test(back as int));
                                    lemma_first_such(test, 0, reach + 1, back as int);
                                    assert(answered(
                                        *time_zone,
                                        rule,
                                        zone_day(*time_zone, now@) - back,
                                    ));
                                }
                                return Ok(Some(candidate));
                            }
                        },
                        None => {},
                    }
                },
                None => {
                    assert(!answered(*time_zone, rule, zone_day(*time_zone, now@) - back));
                    return Err(OutOfRange);
                },
            }
        }
        assert(!test(back as int));
        back = back + 1;
    }
    proof {
        lemma_first_such(test, 0, reach + 1, reach + 1);
    }
    Ok(None)
}

/// Searches for the next slot. Fails where the search gets no answer on a day it looks at, or its
/// result is out of range, which happens only close to the ends of the range.
pub fn find_next_slot(after: Timestamp, rule: DayRule, time_zone: &jiff::tz::TimeZone) -> (next:
    Result<Timestamp, OutOfRange>)
    ensures
        next is Ok <==> next_answered(*time_zone, rule, after@),
        next matches Ok(next) ==> next@ == next_slot(*time_zone, rule, after@),
        well_inside(after@, 4, rule.reach() + 4) ==> next is Ok,
{
    let today: i32 = local_day(time_zone, after);
    let (hour, minute) = rule.time_of_day();
    let reach: i32 = rule.reach_days();
    let ghost test = |ahead: int|
        ahead_on(*time_zone, rule, after@, zone_day(*time_zone, after@) + ahead);
    let mut ahead: i32 = 0;
    while ahead <= reach
        invariant
            0 <= ahead <= reach + 1,
            reach == rule.reach(),
            reach <= 370,
            today == zone_day(*time_zone, after@),
            MIN_DAY <= today <= MAX_DAY,
            today * SECONDS_PER_DAY * NANOS_PER_SECOND <= after@ + MAX_OFFSET * NANOS_PER_SECOND,
            after@ - MAX_OFFSET * NANOS_PER_SECOND < (today + 1) * SECONDS_PER_DAY
                * NANOS_PER_SECOND,
            hour == rule.hour(),
            minute == rule.minute(),
            hour < 24,
            minute < 60,
            test == (|ahead: int|
                ahead_on(*time_zone, rule, after@, zone_day(*time_zone, after@) + ahead)),
            days_ahead(*time_zone, rule, after@) == first_such(test, 0, reach + 1),
            forall|k: int| 0 <= k < ahead ==> !(#[trigger] test(k)),
            forall|k: int|
                0 <= k < ahead ==> #[trigger] answered(
                    *time_zone,
                    rule,
                    zone_day(*time_zone, after@) + k,
                ),
        decreases reach + 1 - ahead,
    {
        proof {
            lemma_first_such_holds(test, 0, reach + 1);
            if let Some(found) = days_ahead(*time_zone, rule, after@) {
                assert(test(found));
            }
        }
        let day: i32 = today + ahead;
        if day > MAX_DAY {
            assert(!answered(*time_zone, rule, zone_day(*time_zone, after@) + ahead));
            return Err(OutOfRange);
        }
        if rule.is_on(day) {
            match local_instant(time_zone, day, hour, minute) {
                Some(second) => {
                    match Timestamp::from_second(second) {
                        Some(candidate) => {
                            if after.is_before(candidate) {
                                proof {
                                    assert(test(ahead as int));
                                    lemma_first_such(test, 0, reach + 1, ahead as int);
                                    assert(answered(
                                        *time_zone,
                                        rule,
                                        zone_day(*time_zone, after@) + ahead,
                                    ));
                                }
                                return Ok(candidate);
                            }
                        },
                        None => {},
                    }
                },
                None => {
                    assert(!answered(*time_zone, rule, zone_day(*time_zone, after@) + ahead));
                    return Err(OutOfRange);
                },
            }
        }
        assert(!test(ahead as int));
        ahead = ahead + 1;
    }
    proof {
        lemma_first_such(test, 0, reach + 1, reach + 1);
    }
    let days: i64 = match rule {
        DayRule::Daily(_) => 1,
        DayRule::Monthly(_) => 31,
    };
    if after.as_nanosecond() > MAX_NANOS - (days * SECONDS_PER_DAY) as i128 * NANOS_PER_SECOND {
        return Err(OutOfRange);
    }
    Ok(after.shifted(days * SECONDS_PER_DAY))
}

/// The latest instant up to `now` at which the schedule was due.
pub fn latest_daily_due_at(
    now: Timestamp,
    schedule: DailyJobSchedule,
    time_zone: &jiff::tz::TimeZone,
) -> (due: Option<Timestamp>)
    requires
        latest_answered(*time_zone, DayRule::Daily(schedule), now@),
    ensures
        instant_of(due) == latest_slot(*time_zone, DayRule::Daily(schedule), now@),
{
    match find_latest_slot(now, DayRule::Daily(schedule), time_zone) {
        Ok(due) => due,
        Err(_) => None,
    }
}

/// The first instant after `after` at which the schedule is due.
pub fn next_daily_after(
    after: Timestamp,
    schedule: DailyJobSchedule,
    time_zone: &jiff::tz::TimeZone,
) -> (next: Timestamp)
    requires
        next_answered(*time_zone, DayRule::Daily(schedule), after@),
    ensures
        next@ == next_slot(*time_zone, DayRule::Daily(schedule), after@),
{
    match find_next_slot(after, DayRule::Daily(schedule), time_zone) {
        Ok(next) => next,
        Err(_) => after,
    }
}

/// The latest instant up to `now` at which the schedule was due.
pub fn latest_monthly_due_at(
    now: Timestamp,
    schedule: MonthlyJobSchedule,
    time_zone: &jiff::tz::TimeZone,
) -> (due: Option<Timestamp>)
    requires
        latest_answered(*time_zone, DayRule::Monthly(schedule), now@),
    ensures
        instant_of(due) == latest_slot(*time_zone, DayRule::Monthly(schedule), now@),
{
    match find_latest_slot(now, DayRule::Monthly(schedule), time_zone) {
        Ok(due) => due,
        Err(_) => None,
    }
}

/// The first instant after `after` at which the schedule is due.
pub fn next_monthly_after(
    after: Timestamp,
    schedule: MonthlyJobSchedule,
    time_zone: &jiff::tz::TimeZone,
) -> (next: Timestamp)
    requires
        next_answered(*time_zone, DayRule::Monthly(schedule), after@),
    ensures
        next@ == next_slot(*time_zone, DayRule::Monthly(schedule), after@),
{
    match find_next_slot(after, DayRule::Monthly(schedule), time_zone) {
        Ok(next) => next,
        Err(_) => after,
    }
}

/// The step of an interval schedule: the whole seconds of the interval, at least one.
pub open spec fn interval_step(every: int) -> int {
    let seconds = every / (NANOS_PER_SECOND as int);
    if seconds < 1 {
        1
    } else {
        seconds
    }
}

/// The greatest multiple of `step` up to `second`.
pub open spec fn interval_start(second: int, step: int) -> int {
    second - second % step
}

/// The latest boundary of an interval schedule at the whole second of `now`, where it is in range.
pub open spec fn latest_boundary(every: int, now: int) -> Option<int> {
    let start = interval_start(whole_seconds(now), interval_step(every));
    if MIN_SECOND <= start <= MAX_SECOND {
        Some(start * NANOS_PER_SECOND)
    } else {
        None
    }
}

/// The boundary of an interval schedule that follows the latest one at `after`; out of range, the
/// instant one interval after `after`.
pub open spec fn next_boundary(every: int, after: int) -> int {
    let step = interval_step(every);
    let next = interval_start(whole_seconds(after), step) + step;
    if MIN_SECOND <= next <= MAX_SECOND {
        next * NANOS_PER_SECOND
    } else {
        after + step * NANOS_PER_SECOND
    }
}

fn interval_seconds(every: Duration) -> (step: i128)
    ensures
        step == interval_step(every@),
        1 <= step <= u64::MAX,
{
    let seconds: u64 = every.as_secs();
    if seconds < 1 {
        1
    } else {
        seconds as i128
    }
}

fn boundary_at(second: i64, step: i128) -> (start: i128)
    requires
        1 <= step <= u64::MAX,
    ensures
        start == interval_start(second as int, step as int),
        second - step < start <= second,
{
    proof {
        vstd::arithmetic::div_mod::lemma_mod_bound(second as int, step as int);
    }
    match (second as i128).checked_rem_euclid(step) {
        Some(rest) => second as i128 - rest,
        None => second as i128,
    }
}

/// The latest boundary of the interval, counted from the Unix epoch, at the whole second of `now`.
pub fn latest_interval_due_at(now: Timestamp, interval: Duration) -> (due: Option<Timestamp>)
    ensures
        instant_of(due) == latest_boundary(interval@, now@),
{
    let start: i128 = boundary_at(now.as_second(), interval_seconds(interval));
    if start < MIN_SECOND as i128 {
        None
    } else {
        Timestamp::from_second(start as i64)
    }
}

/// Whether the instant one interval after `after` is in range.
pub open spec fn interval_in_range(every: int, after: int) -> bool {
    after + interval_step(every) * NANOS_PER_SECOND <= MAX_NANOS
}

/// Finds the boundary of the interval after the one at the whole second of `after`. Fails where the
/// instant one interval after `after` is out of range.
pub fn find_next_boundary(after: Timestamp, interval: Duration) -> (next: Result<
    Timestamp,
    OutOfRange,
>)
    ensures
        next is Ok <==> interval_in_range(interval@, after@),
        next matches Ok(next) ==> next@ == next_boundary(interval@, after@),
{
    let step: i128 = interval_seconds(interval);
    if after.as_nanosecond() + step * NANOS_PER_SECOND > MAX_NANOS {
        return Err(OutOfRange);
    }
    let next: i128 = boundary_at(after.as_second(), step) + step;
    match Timestamp::from_second(next as i64) {
        Some(boundary) => Ok(boundary),
        None => Ok(after.shifted(step as i64)),
    }
}

/// The boundary of the interval after the one at the whole second of `after`.
pub fn next_interval_after(after: Timestamp, interval: Duration) -> (next: Timestamp)
    requires
        interval_in_range(interval@, after@),
    ensures
        next@ == next_boundary(interval@, after@),
{
    match find_next_boundary(after, interval) {
        Ok(next) => next,
        Err(_) => after,
    }
}

} // verus!
