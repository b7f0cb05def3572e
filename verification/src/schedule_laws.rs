//! What holds of schedules as a whole.

use vstd::prelude::*;

use crate::calendar::{
    falls_on, lemma_day_has_place, lemma_month_day_within_reach, weekday_of, Weekday, MAX_DAY, MIN_DAY,
};
use crate::cron::CronSchedule;
use crate::schedule::{
    ahead_on, days_ahead, days_back, due_on, interval_start, interval_step, latest_boundary,
    latest_slot, next_boundary, next_slot, slot, well_inside, DayRule,
};
use crate::search::lemma_first_such_holds;
use crate::time::{
    whole_seconds, MAX_NANOS, MAX_SECOND, MIN_NANOS, MIN_SECOND, NANOS_PER_SECOND, SECONDS_PER_DAY,
};
use crate::zone::{
    clock_second, is_utc, offset_valid, zone_day, zone_offset, zone_offset_at, zone_second,
};

verus! {

/// The start of an interval is not after a second in it, and less than an interval before it.
pub proof fn lemma_interval_start(second: int, step: int)
    requires
        step > 0,
    ensures
        interval_start(second, step) <= second < interval_start(second, step) + step,
        interval_start(second, step) % step == 0,
        interval_start(second, step) == second / step * step,
{
    vstd::arithmetic::div_mod::lemma_fundamental_div_mod(second, step);
    vstd::arithmetic::div_mod::lemma_mod_bound(second, step);
    vstd::arithmetic::div_mod::lemma_mod_multiples_basic(second / step, step);
    assert(interval_start(second, step) == second / step * step) by (nonlinear_arith)
        requires
            second == step * (second / step) + second % step,
            interval_start(second, step) == second - second % step,
    ;
}

/// The whole seconds of an instant come within a second of it.
proof fn lemma_whole_seconds(nanos: int)
    ensures
        nanos < (whole_seconds(nanos) + 1) * NANOS_PER_SECOND,
        (whole_seconds(nanos) - 1) * NANOS_PER_SECOND < nanos,
        nanos >= 0 ==> whole_seconds(nanos) * NANOS_PER_SECOND <= nanos,
        nanos % (NANOS_PER_SECOND as int) == 0 ==> whole_seconds(nanos) * NANOS_PER_SECOND == nanos,
{
}

/// The next occurrence of a schedule comes after the instant from which it is looked for.
pub proof fn law_next_is_later(schedule: CronSchedule, after: int)
    ensures
        schedule.next(after) > after,
{
    match schedule {
        CronSchedule::Daily { schedule, time_zone } => {
            lemma_first_such_holds(
                |ahead: int|
                    ahead_on(
                        time_zone,
                        DayRule::Daily(schedule),
                        after,
                        zone_day(time_zone, after) + ahead,
                    ),
                0,
                DayRule::Daily(schedule).reach() + 1,
            );
        },
        CronSchedule::Monthly { schedule, time_zone } => {
            lemma_first_such_holds(
                |ahead: int|
                    ahead_on(
                        time_zone,
                        DayRule::Monthly(schedule),
                        after,
                        zone_day(time_zone, after) + ahead,
                    ),
                0,
                DayRule::Monthly(schedule).reach() + 1,
            );
        },
        CronSchedule::Interval { every } => {
            let step = interval_step(every@);
            lemma_interval_start(whole_seconds(after), step);
            lemma_whole_seconds(after);
        },
    }
}

/// The latest occurrence of a schedule is not in the future. For an interval this is so from the
/// epoch on, and before it at whole seconds.
pub proof fn law_due_is_not_in_the_future(schedule: CronSchedule, now: int)
    requires
        schedule is Interval ==> now >= 0 || now % (NANOS_PER_SECOND as int) == 0,
    ensures
        schedule.due(now) matches Some(due) ==> due <= now,
{
    match schedule {
        CronSchedule::Daily { schedule, time_zone } => {
            lemma_first_such_holds(
                |back: int|
                    due_on(
                        time_zone,
                        DayRule::Daily(schedule),
                        now,
                        zone_day(time_zone, now) - back,
                    ),
                0,
                DayRule::Daily(schedule).reach() + 1,
            );
        },
        CronSchedule::Monthly { schedule, time_zone } => {
            lemma_first_such_holds(
                |back: int|
                    due_on(
                        time_zone,
                        DayRule::Monthly(schedule),
                        now,
                        zone_day(time_zone, now) - back,
                    ),
                0,
                DayRule::Monthly(schedule).reach() + 1,
            );
        },
        CronSchedule::Interval { every } => {
            lemma_interval_start(whole_seconds(now), interval_step(every@));
            lemma_whole_seconds(now);
        },
    }
}

/// The occurrences of an interval are the multiples of it, counted from the epoch: the latest one is
/// the multiple at or before the second of `now`, and the next one after it is one interval later.
/// It is the next one after `now` too, where it is in range.
pub proof fn law_intervals_align_to_the_epoch(every: int, now: int)
    requires
        NANOS_PER_SECOND <= every,
        latest_boundary(every, now) is Some,
    ensures
        ({
            let step = every / (NANOS_PER_SECOND as int);
            let due = latest_boundary(every, now)->0;
            &&& due % (NANOS_PER_SECOND as int) == 0
            &&& (due / (NANOS_PER_SECOND as int)) % step == 0
            &&& due <= whole_seconds(now) * NANOS_PER_SECOND < due + step * NANOS_PER_SECOND
            &&& next_boundary(every, due) == due + step * NANOS_PER_SECOND
            &&& due + step * NANOS_PER_SECOND <= MAX_SECOND * NANOS_PER_SECOND ==> next_boundary(
                every,
                now,
            ) == due + step * NANOS_PER_SECOND
        }),
{
    let step = every / (NANOS_PER_SECOND as int);
    let second = whole_seconds(now);
    lemma_interval_start(second, step);
    let start = interval_start(second, step);
    assert(whole_seconds(start * NANOS_PER_SECOND) == start);
    assert((start * NANOS_PER_SECOND) / (NANOS_PER_SECOND as int) == start);
}

/// Whether a rule is one that can be made.
pub open spec fn rule_valid(rule: DayRule) -> bool {
    &&& 0 <= rule.hour() < 24
    &&& 0 <= rule.minute() < 60
    &&& rule matches DayRule::Daily(schedule) ==> (schedule.days() matches Some(days) ==> days.len()
        > 0)
    &&& rule matches DayRule::Monthly(schedule) ==> 1 <= schedule.day() <= 28
}

/// Going back at most six days from any day meets every weekday.
proof fn lemma_weekday_within_reach(day: int, wanted: Weekday)
    ensures
        exists|back: int| 0 <= back <= 6 && #[trigger] weekday_of(day - back) == wanted,
{
    let index = match wanted {
        Weekday::Monday => 0int,
        Weekday::Tuesday => 1,
        Weekday::Wednesday => 2,
        Weekday::Thursday => 3,
        Weekday::Friday => 4,
        Weekday::Saturday => 5,
        Weekday::Sunday => 6,
    };
    let back = (day + 3 - index) % 7;
    assert((day - back + 3) % 7 == index);
    assert(weekday_of(day - back) == wanted);
}

/// Going back at most thirty days from any day of the calendar meets a day on which a rule fires.
proof fn lemma_fires_within_reach(rule: DayRule, day: int, place: int)
    requires
        rule_valid(rule),
        falls_on(day, place),
    ensures
        exists|back: int| 0 <= back <= 30 && #[trigger] rule.fires_on(day - back),
        rule is Daily ==> exists|back: int| 0 <= back <= 6 && #[trigger] rule.fires_on(day - back),
{
    match rule {
        DayRule::Daily(schedule) => match schedule.days() {
            Some(days) => {
                lemma_weekday_within_reach(day, days[0]);
                let back = choose|back: int|
                    0 <= back <= 6 && #[trigger] weekday_of(day - back) == days[0];
                assert(days.contains(weekday_of(day - back)));
                assert(rule.fires_on(day - back));
            },
            None => {
                assert(rule.fires_on(day - 0));
            },
        },
        DayRule::Monthly(schedule) => {
            lemma_month_day_within_reach(day, place, schedule.day());
            let back = choose|back: int|
                0 <= back <= 30 && #[trigger] falls_on(day - back, schedule.day());
            assert(rule.fires_on(day - back));
        },
    }
}

/// How many days from an end of the range of time a rule may need until it has fired.
pub open spec fn quiet_days(rule: DayRule) -> int {
    match rule {
        DayRule::Daily(_) => 8,
        DayRule::Monthly(_) => 32,
    }
}

/// The local day by UTC, and the instants of slots on days that begin and end in range.
pub proof fn lemma_utc_day(zone: jiff::tz::TimeZone, rule: DayRule, instant: int, day: int)
    requires
        is_utc(zone),
        rule_valid(rule),
        MIN_NANOS <= instant <= MAX_NANOS,
    ensures
        zone_day(zone, instant) == instant / 86_400_000_000_000,
        MIN_DAY < zone_day(zone, instant) < MAX_DAY,
        zone_day(zone, instant) * 86_400_000_000_000 <= instant,
        instant < (zone_day(zone, instant) + 1) * 86_400_000_000_000,
        MIN_DAY <= day <= MAX_DAY ==> zone_second(zone, day, rule.hour(), rule.minute()) == {
            let second = clock_second(day, rule.hour(), rule.minute());
            if MIN_SECOND <= second <= MAX_SECOND {
                Some(second)
            } else {
                None
            }
        },
{
    vstd::arithmetic::div_mod::lemma_fundamental_div_mod(instant, 86_400_000_000_000);
    assert(SECONDS_PER_DAY * NANOS_PER_SECOND == 86_400_000_000_000);
    assert(zone_offset_at(zone, instant) == 0);
}

/// By UTC, the latest occurrence of a daily or monthly schedule is no later than `now`, and no
/// occurrence lies between it and `now`: it is found wherever there is one to find. There is one
/// from a few days after the start of the range on.
pub proof fn law_utc_latest_is_the_latest(
    zone: jiff::tz::TimeZone,
    rule: DayRule,
    now: int,
    day: int,
)
    requires
        is_utc(zone),
        rule_valid(rule),
        MIN_NANOS <= now <= MAX_NANOS,
        MIN_DAY <= day <= MAX_DAY,
    ensures
        latest_slot(zone, rule, now) matches Some(latest) ==> latest <= now,
        due_on(zone, rule, now, day) ==> latest_slot(zone, rule, now) is Some && slot(
            zone,
            rule,
            day,
        )->0 <= latest_slot(zone, rule, now)->0,
        well_inside(now, quiet_days(rule), 0) ==> latest_slot(zone, rule, now) is Some,
{
    let today = zone_day(zone, now);
    lemma_utc_day(zone, rule, now, day);
    let test = |back: int| due_on(zone, rule, now, zone_day(zone, now) - back);
    lemma_first_such_holds(test, 0, rule.reach() + 1);
    let quiet = quiet_days(rule) - 1;
    if due_on(zone, rule, now, day) && today - day <= quiet {
        assert(day <= today);
        assert(zone_day(zone, now) - (today - day) == day);
        assert(test(today - day));
    } else if due_on(zone, rule, now, day) || well_inside(now, quiet_days(rule), 0) {
        let place = lemma_day_has_place(today - 1);
        lemma_fires_within_reach(rule, today - 1, place);
        let back = if rule is Daily {
            choose|back: int| 0 <= back <= 6 && #[trigger] rule.fires_on(today - 1 - back)
        } else {
            choose|back: int| 0 <= back <= 30 && #[trigger] rule.fires_on(today - 1 - back)
        };
        let fired = today - 1 - back;
        assert(MIN_DAY <= fired <= MAX_DAY);
        lemma_utc_day(zone, rule, now, fired);
        assert(slot(zone, rule, fired) is Some);
        assert(zone_day(zone, now) - (back + 1) == fired);
        assert(test(back + 1));
    }
    if let Some(found) = days_back(zone, rule, now) {
        assert(test(found));
        let last = today - found;
        if MIN_DAY <= last <= MAX_DAY {
            lemma_utc_day(zone, rule, now, last);
        }
        if due_on(zone, rule, now, day) && day > last {
            assert(day <= today);
            assert(zone_day(zone, now) - (today - day) == day);
            assert(test(today - day));
        }
    }
}

/// By UTC, the next occurrence of a daily or monthly schedule is later than `after`, and no
/// occurrence lies between `after` and it: it is found wherever there is one to find. There is one
/// up to a few days before the end of the range.
pub proof fn law_utc_next_is_the_next(
    zone: jiff::tz::TimeZone,
    rule: DayRule,
    after: int,
    day: int,
)
    requires
        is_utc(zone),
        rule_valid(rule),
        MIN_NANOS <= after <= MAX_NANOS,
        MIN_DAY <= day <= MAX_DAY,
    ensures
        next_slot(zone, rule, after) > after,
        ahead_on(zone, rule, after, day) ==> days_ahead(zone, rule, after) is Some && next_slot(
            zone,
            rule,
            after,
        ) <= slot(zone, rule, day)->0,
        well_inside(after, 0, quiet_days(rule)) ==> days_ahead(zone, rule, after) is Some,
{
    let today = zone_day(zone, after);
    lemma_utc_day(zone, rule, after, day);
    let test = |ahead: int| ahead_on(zone, rule, after, zone_day(zone, after) + ahead);
    lemma_first_such_holds(test, 0, rule.reach() + 1);
    let quiet = quiet_days(rule) - 1;
    if ahead_on(zone, rule, after, day) && day - today <= quiet {
        assert(day >= today);
        assert(zone_day(zone, after) + (day - today) == day);
        assert(test(day - today));
    } else if ahead_on(zone, rule, after, day) || well_inside(after, 0, quiet_days(rule)) {
        let far = today + quiet;
        let place = lemma_day_has_place(far);
        lemma_fires_within_reach(rule, far, place);
        let back = if rule is Daily {
            choose|back: int| 0 <= back <= 6 && #[trigger] rule.fires_on(far - back)
        } else {
            choose|back: int| 0 <= back <= 30 && #[trigger] rule.fires_on(far - back)
        };
        let fires = far - back;
        assert(MIN_DAY <= fires <= MAX_DAY);
        lemma_utc_day(zone, rule, after, fires);
        assert(slot(zone, rule, fires) is Some);
        assert(zone_day(zone, after) + (fires - today) == fires);
        assert(test(fires - today));
    }
    if let Some(found) = days_ahead(zone, rule, after) {
        assert(test(found));
        let first = today + found;
        if MIN_DAY <= first <= MAX_DAY {
            lemma_utc_day(zone, rule, after, first);
        }
        if ahead_on(zone, rule, after, day) && day < first {
            assert(day >= today);
            assert(zone_day(zone, after) + (day - today) == day);
            assert(test(day - today));
        }
    }
}

/// By UTC, the latest and the next occurrence of a daily or monthly schedule are neighbours: every
/// occurrence is one of them, or before the one, or after the other, and the one is followed by the
/// other.
pub proof fn law_utc_occurrences_are_neighbours(
    zone: jiff::tz::TimeZone,
    rule: DayRule,
    now: int,
    day: int,
)
    requires
        is_utc(zone),
        rule_valid(rule),
        MIN_NANOS <= now <= MAX_NANOS,
        MIN_DAY <= day <= MAX_DAY,
        latest_slot(zone, rule, now) is Some,
        days_ahead(zone, rule, now) is Some,
    ensures
        ({
            let latest = latest_slot(zone, rule, now)->0;
            let next = next_slot(zone, rule, now);
            &&& latest <= now < next
            &&& rule.fires_on(day) && slot(zone, rule, day) is Some ==> slot(zone, rule, day)->0
                <= latest || next <= slot(zone, rule, day)->0
            &&& next_slot(zone, rule, latest) == next
        }),
{
    let latest = latest_slot(zone, rule, now)->0;
    let next = next_slot(zone, rule, now);
    law_utc_latest_is_the_latest(zone, rule, now, day);
    law_utc_next_is_the_next(zone, rule, now, day);
    let last_day = lemma_latest_is_a_slot(zone, rule, now);
    let next_day = lemma_next_is_a_slot(zone, rule, now);
    law_utc_next_is_the_next(zone, rule, latest, next_day);
    assert(ahead_on(zone, rule, latest, next_day));
    let follower = lemma_next_is_a_slot(zone, rule, latest);
    law_utc_latest_is_the_latest(zone, rule, now, follower);
    law_utc_next_is_the_next(zone, rule, now, follower);
}

/// What is found to be the latest occurrence is one.
pub proof fn lemma_latest_is_a_slot(zone: jiff::tz::TimeZone, rule: DayRule, now: int) -> (day: int)
    requires
        latest_slot(zone, rule, now) is Some,
    ensures
        MIN_DAY <= day <= MAX_DAY,
        due_on(zone, rule, now, day),
        slot(zone, rule, day) == latest_slot(zone, rule, now),
        MIN_NANOS <= latest_slot(zone, rule, now)->0 <= MAX_NANOS,
{
    let test = |back: int| due_on(zone, rule, now, zone_day(zone, now) - back);
    lemma_first_such_holds(test, 0, rule.reach() + 1);
    let found = days_back(zone, rule, now)->0;
    assert(test(found));
    zone_day(zone, now) - found
}

/// What is found to be the next occurrence is one.
pub proof fn lemma_next_is_a_slot(zone: jiff::tz::TimeZone, rule: DayRule, after: int) -> (day: int)
    requires
        days_ahead(zone, rule, after) is Some,
    ensures
        MIN_DAY <= day <= MAX_DAY,
        ahead_on(zone, rule, after, day),
        slot(zone, rule, day) == Some(next_slot(zone, rule, after)),
{
    let test = |ahead: int| ahead_on(zone, rule, after, zone_day(zone, after) + ahead);
    lemma_first_such_holds(test, 0, rule.reach() + 1);
    let found = days_ahead(zone, rule, after)->0;
    assert(test(found));
    zone_day(zone, after) + found
}

/// By UTC, the latest occurrence of a daily or monthly schedule does not go back as time goes on.
pub proof fn law_utc_latest_grows(
    zone: jiff::tz::TimeZone,
    rule: DayRule,
    earlier: int,
    later: int,
)
    requires
        is_utc(zone),
        rule_valid(rule),
        MIN_NANOS <= earlier <= later <= MAX_NANOS,
        latest_slot(zone, rule, earlier) is Some,
    ensures
        latest_slot(zone, rule, later) is Some,
        latest_slot(zone, rule, earlier)->0 <= latest_slot(zone, rule, later)->0,
{
    let day = lemma_latest_is_a_slot(zone, rule, earlier);
    law_utc_latest_is_the_latest(zone, rule, earlier, day);
    assert(due_on(zone, rule, later, day));
    law_utc_latest_is_the_latest(zone, rule, later, day);
}

/// The latest boundary of an interval does not go back as time goes on.
pub proof fn law_latest_boundary_grows(every: int, earlier: int, later: int)
    requires
        earlier <= later <= MAX_NANOS,
        latest_boundary(every, earlier) is Some,
    ensures
        latest_boundary(every, later) is Some,
        latest_boundary(every, earlier)->0 <= latest_boundary(every, later)->0,
{
    let step = interval_step(every);
    let one = whole_seconds(earlier);
    let other = whole_seconds(later);
    assert(one <= other);
    lemma_interval_start(one, step);
    lemma_interval_start(other, step);
    vstd::arithmetic::div_mod::lemma_div_is_ordered(one, other, step);
    assert(interval_start(one, step) <= interval_start(other, step)) by (nonlinear_arith)
        requires
            interval_start(one, step) == one / step * step,
            interval_start(other, step) == other / step * step,
            one / step <= other / step,
            step > 0,
    ;
}

/// A local time that the clocks skip is moved forward by the length of the gap: at the instant of
/// the slot, they show the time that was asked for and that much more.
pub proof fn law_skipped_time_moves_forward(zone: jiff::tz::TimeZone, rule: DayRule, day: int)
    requires
        zone_offset(zone, day, rule.hour(), rule.minute()) is Gap,
        offset_valid(zone_offset(zone, day, rule.hour(), rule.minute())),
        slot(zone, rule, day) is Some,
    ensures
        ({
            let offset = zone_offset(zone, day, rule.hour(), rule.minute());
            let gap = offset->Gap_after - offset->Gap_before;
            &&& gap > 0
            &&& slot(zone, rule, day)->0 + offset->Gap_after * NANOS_PER_SECOND == (clock_second(
                day,
                rule.hour(),
                rule.minute(),
            ) + gap) * NANOS_PER_SECOND
        }),
{
}

/// Of a local time that comes twice, the slot is the earlier one: at both instants the clocks show
/// the time that was asked for, and the slot is the first of them.
pub proof fn law_repeated_time_comes_once(zone: jiff::tz::TimeZone, rule: DayRule, day: int)
    requires
        zone_offset(zone, day, rule.hour(), rule.minute()) is Fold,
        offset_valid(zone_offset(zone, day, rule.hour(), rule.minute())),
        slot(zone, rule, day) is Some,
    ensures
        ({
            let offset = zone_offset(zone, day, rule.hour(), rule.minute());
            let clock = clock_second(day, rule.hour(), rule.minute());
            let later = (clock - offset->Fold_after) * NANOS_PER_SECOND;
            &&& slot(zone, rule, day)->0 + offset->Fold_before * NANOS_PER_SECOND == clock
                * NANOS_PER_SECOND
            &&& slot(zone, rule, day)->0 < later
        }),
{
}

} // verus!
