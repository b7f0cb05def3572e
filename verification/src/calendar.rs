//! The proleptic Gregorian calendar, on days counted from the Unix epoch.

use vstd::prelude::*;

verus! {

/// The day number of -9999-01-01, the first day of the supported calendar.
pub const MIN_DAY: i32 = -4_371_587;

/// The day number of 9999-12-31, the last day of the supported calendar.
pub const MAX_DAY: i32 = 2_932_896;

/// A day of the week.
#[derive(Clone, Copy, Debug, PartialEq, Eq, Hash, Structural)]
pub enum Weekday {
    Monday,
    Tuesday,
    Wednesday,
    Thursday,
    Friday,
    Saturday,
    Sunday,
}

/// The weekday of a day number. Day 0, 1970-01-01, was a Thursday.
pub open spec fn weekday_of(day: int) -> Weekday {
    let since_monday = (day + 3) % 7;
    if since_monday == 0 {
        Weekday::Monday
    } else if since_monday == 1 {
        Weekday::Tuesday
    } else if since_monday == 2 {
        Weekday::Wednesday
    } else if since_monday == 3 {
        Weekday::Thursday
    } else if since_monday == 4 {
        Weekday::Friday
    } else if since_monday == 5 {
        Weekday::Saturday
    } else {
        Weekday::Sunday
    }
}

/// Finds the weekday of a day number.
pub fn weekday(day: i32) -> (weekday: Weekday)
    requires
        MIN_DAY <= day <= MAX_DAY,
    ensures
        weekday == weekday_of(day as int),
{
    let shifted: i32 = (day + 3) - 7 * (MIN_DAY / 7 - 1);
    assert(shifted % 7 == (day + 3) % 7);
    match shifted % 7 {
        0 => Weekday::Monday,
        1 => Weekday::Tuesday,
        2 => Weekday::Wednesday,
        3 => Weekday::Thursday,
        4 => Weekday::Friday,
        5 => Weekday::Saturday,
        _ => Weekday::Sunday,
    }
}

/// Whether `year` has a 29 February.
pub open spec fn leap_year(year: int) -> bool {
    year % 4 == 0 && (year % 100 != 0 || year % 400 == 0)
}

/// The number of days in a month.
pub open spec fn month_length(year: int, month: int) -> int {
    if month == 2 {
        if leap_year(year) {
            29
        } else {
            28
        }
    } else if month == 4 || month == 6 || month == 9 || month == 11 {
        30
    } else {
        31
    }
}

/// The day number of 1 January of `year`.
pub open spec fn year_start(year: int) -> int {
    365 * (year - 1) + (year - 1) / 4 - (year - 1) / 100 + (year - 1) / 400 - 719_162
}

/// The number of days in `year` before the first of `month`.
pub open spec fn days_before_month(year: int, month: int) -> int
    decreases month,
{
    if month <= 1 {
        0
    } else {
        days_before_month(year, month - 1) + month_length(year, month - 1)
    }
}

/// Whether the three numbers form a date of the calendar.
pub open spec fn is_date(year: int, month: int, day_of_month: int) -> bool {
    1 <= month <= 12 && 1 <= day_of_month <= month_length(year, month)
}

/// The day number of a date.
pub open spec fn day_number(year: int, month: int, day_of_month: int) -> int {
    year_start(year) + days_before_month(year, month) + day_of_month - 1
}

/// Whether the day with the number `day` is the `day_of_month`-th of its month.
pub open spec fn falls_on(day: int, day_of_month: int) -> bool {
    exists|year: int, month: int|
        #[trigger] is_date(year, month, day_of_month) && day_number(year, month, day_of_month)
            == day
}

/// The days before a month add up month by month, to a whole year after the last.
pub proof fn lemma_months(year: int)
    ensures
        days_before_month(year, 1) == 0,
        days_before_month(year, 2) == 31,
        days_before_month(year, 3) == 31 + month_length(year, 2),
        days_before_month(year, 4) == 62 + month_length(year, 2),
        days_before_month(year, 5) == 92 + month_length(year, 2),
        days_before_month(year, 6) == 123 + month_length(year, 2),
        days_before_month(year, 7) == 153 + month_length(year, 2),
        days_before_month(year, 8) == 184 + month_length(year, 2),
        days_before_month(year, 9) == 215 + month_length(year, 2),
        days_before_month(year, 10) == 245 + month_length(year, 2),
        days_before_month(year, 11) == 276 + month_length(year, 2),
        days_before_month(year, 12) == 306 + month_length(year, 2),
        year_start(year + 1) == year_start(year) + 337 + month_length(year, 2),
{
    reveal_with_fuel(days_before_month, 13);
}

/// A later year starts later, by at least a year's days for each year between.
proof fn lemma_year_start_increases(early: int, late: int)
    requires
        early <= late,
    ensures
        year_start(early) <= year_start(late),
    decreases late - early,
{
    if early < late {
        lemma_months(late - 1);
        lemma_year_start_increases(early, late - 1);
    }
}

/// A date's day number lies in its year.
proof fn lemma_day_in_year(year: int, month: int, day_of_month: int)
    requires
        is_date(year, month, day_of_month),
    ensures
        year_start(year) <= day_number(year, month, day_of_month) < year_start(year + 1),
{
    lemma_months(year);
}

/// Every day lies in a year.
proof fn lemma_year_of(day: int) -> (year: int)
    ensures
        year_start(year) <= day < year_start(year + 1),
    decreases if day >= 0 { day } else { -day },
{
    if day == 0 {
        assert(year_start(1970) == 0);
        assert(year_start(1971) == 365);
        1970
    } else if day > 0 {
        let year = lemma_year_of(day - 1);
        lemma_months(year);
        lemma_months(year + 1);
        if day < year_start(year + 1) {
            year
        } else {
            year + 1
        }
    } else {
        let year = lemma_year_of(day + 1);
        lemma_months(year);
        lemma_months(year - 1);
        if day >= year_start(year) {
            year
        } else {
            year - 1
        }
    }
}

/// Every day has a place in its month.
pub proof fn lemma_day_has_place(day: int) -> (place: int)
    ensures
        falls_on(day, place),
        1 <= place <= 31,
{
    let year = lemma_year_of(day);
    lemma_months(year);
    let since = day - year_start(year);
    let february = month_length(year, 2);
    let month = if since < 31 {
        1int
    } else if since < 31 + february {
        2
    } else if since < 62 + february {
        3
    } else if since < 92 + february {
        4
    } else if since < 123 + february {
        5
    } else if since < 153 + february {
        6
    } else if since < 184 + february {
        7
    } else if since < 215 + february {
        8
    } else if since < 245 + february {
        9
    } else if since < 276 + february {
        10
    } else if since < 306 + february {
        11
    } else {
        12
    };
    let place = since - days_before_month(year, month) + 1;
    assert(is_date(year, month, place));
    assert(day_number(year, month, place) == day);
    place
}

/// A day has one place in its month.
pub proof fn lemma_day_of_month_unique(day: int, one: int, other: int)
    requires
        falls_on(day, one),
        falls_on(day, other),
    ensures
        one == other,
{
    let (y1, m1) = choose|year: int, month: int|
        #[trigger] is_date(year, month, one) && day_number(year, month, one) == day;
    let (y2, m2) = choose|year: int, month: int|
        #[trigger] is_date(year, month, other) && day_number(year, month, other) == day;
    lemma_day_in_year(y1, m1, one);
    lemma_day_in_year(y2, m2, other);
    if y1 < y2 {
        lemma_year_start_increases(y1 + 1, y2);
    }
    if y2 < y1 {
        lemma_year_start_increases(y2 + 1, y1);
    }
    assert(y1 == y2);
    lemma_months(y1);
}

/// Going back at most 30 days from any day of the calendar meets every day of the month up to the
/// 28th.
pub proof fn lemma_month_day_within_reach(day: int, place: int, day_of_month: int)
    requires
        falls_on(day, place),
        1 <= day_of_month <= 28,
    ensures
        exists|back: int| 0 <= back <= 30 && #[trigger] falls_on(day - back, day_of_month),
{
    let (year, month) = choose|year: int, month: int|
        #[trigger] is_date(year, month, place) && day_number(year, month, place) == day;
    lemma_months(year);
    lemma_months(year - 1);
    if day_of_month <= place {
        assert(is_date(year, month, day_of_month));
        assert(falls_on(day - (place - day_of_month), day_of_month));
    } else if month > 1 {
        let length = month_length(year, month - 1);
        assert(is_date(year, month - 1, day_of_month));
        assert(day_number(year, month - 1, day_of_month) == day - (place + length - day_of_month));
        assert(falls_on(day - (place + length - day_of_month), day_of_month));
    } else {
        assert(is_date(year - 1, 12, day_of_month));
        assert(day_number(year - 1, 12, day_of_month) == day - (place + 31 - day_of_month));
        assert(falls_on(day - (place + 31 - day_of_month), day_of_month));
    }
}

} // verus!
