//! Local time in a time zone, as the `jiff` crate computes it.

use vstd::prelude::*;

use crate::calendar::{falls_on, MAX_DAY, MIN_DAY};
use crate::text::same_but_for_case;
use crate::time::{Timestamp, MAX_NANOS, MAX_SECOND, MIN_NANOS, MIN_SECOND, NANOS_PER_SECOND, SECONDS_PER_DAY};

verus! {

/// The greatest distance of a local time from UTC, in seconds: 25:59:59.
pub const MAX_OFFSET: i64 = 93_599;

/// The time zone type of the `jiff` crate. A value is carried through; the functions below read it.
#[verifier::external_type_specification]
#[verifier::external_body]
pub struct ExTimeZone(jiff::tz::TimeZone);

/// The error type of the `jiff` crate.
#[verifier::external_type_specification]
#[verifier::external_body]
pub struct ExJiffError(jiff::Error);

/// `TimeZone::clone`: a copy stands for the same time zone.
pub assume_specification[<jiff::tz::TimeZone as Clone>::clone](
    zone: &jiff::tz::TimeZone,
) -> (copy: jiff::tz::TimeZone)
    ensures
        copy == *zone,
;

/// How far the clocks of a time zone are ahead of UTC at the instant `nanos` nanoseconds after the
/// Unix epoch, in seconds.
pub uninterp spec fn zone_offset_at(zone: jiff::tz::TimeZone, nanos: int) -> int;

/// The number of the local day in a time zone at an instant.
pub open spec fn zone_day(zone: jiff::tz::TimeZone, nanos: int) -> int {
    (nanos + zone_offset_at(zone, nanos) * NANOS_PER_SECOND) / (SECONDS_PER_DAY * NANOS_PER_SECOND)
}

/// How far the clocks of a time zone are ahead of UTC at a local time, in seconds.
#[derive(Clone, Copy, Debug, PartialEq, Eq, Structural)]
pub enum LocalOffset {
    /// The local time comes once.
    Unambiguous(i32),
    /// The local time is skipped: the clocks are moved forward across it.
    Gap { before: i32, after: i32 },
    /// The local time comes twice: the clocks are moved backward across it.
    Fold { before: i32, after: i32 },
}

/// How far the clocks of a time zone are ahead of UTC at `hour`:`minute` on the day with the number
/// `day`.
pub uninterp spec fn zone_offset(
    zone: jiff::tz::TimeZone,
    day: int,
    hour: int,
    minute: int,
) -> LocalOffset;

/// Whether an offset lies within 25:59:59 of UTC.
pub open spec fn offset_in_range(offset: int) -> bool {
    -MAX_OFFSET <= offset <= MAX_OFFSET
}

/// Whether offsets are such as can be: each in range, and greater after a gap and less after a fold.
pub open spec fn offset_valid(offset: LocalOffset) -> bool {
    match offset {
        LocalOffset::Unambiguous(offset) => offset_in_range(offset as int),
        LocalOffset::Gap { before, after } => offset_in_range(before as int) && offset_in_range(
            after as int,
        ) && before < after,
        LocalOffset::Fold { before, after } => offset_in_range(before as int) && offset_in_range(
            after as int,
        ) && after < before,
    }
}

/// The offset by which a local time is understood: the one before the clocks are moved, where it is
/// skipped or comes twice.
pub open spec fn understood_offset(offset: LocalOffset) -> int {
    match offset {
        LocalOffset::Unambiguous(offset) => offset as int,
        LocalOffset::Gap { before, after } => before as int,
        LocalOffset::Fold { before, after } => before as int,
    }
}

/// The second at which the clocks of a time zone show `hour`:`minute` on the day with the number
/// `day`, where there is such an instant in range.
pub open spec fn zone_second(
    zone: jiff::tz::TimeZone,
    day: int,
    hour: int,
    minute: int,
) -> Option<int> {
    let second = clock_second(day, hour, minute) - understood_offset(
        zone_offset(zone, day, hour, minute),
    );
    if MIN_DAY <= day <= MAX_DAY && MIN_SECOND <= second <= MAX_SECOND {
        Some(second)
    } else {
        None
    }
}

/// The count of seconds from the epoch that a clock on UTC would give to a local time.
pub open spec fn clock_second(day: int, hour: int, minute: int) -> int {
    day * SECONDS_PER_DAY + hour * 3600 + minute * 60
}

/// Whether the local time of `zone` is UTC at all times.
pub open spec fn is_utc(zone: jiff::tz::TimeZone) -> bool {
    &&& forall|nanos: int|
        MIN_NANOS <= nanos <= MAX_NANOS ==> #[trigger] zone_offset_at(zone, nanos) == 0
    &&& forall|day: int, hour: int, minute: int|
        MIN_DAY <= day <= MAX_DAY && 0 <= hour < 24 && 0 <= minute < 60 ==> (
        #[trigger] zone_offset(zone, day, hour, minute)) == LocalOffset::Unambiguous(0)
}

/// The constant `TimeZone::UTC`, whose offset from UTC is always zero.
#[verifier::external_body]
pub(crate) fn utc() -> (zone: jiff::tz::TimeZone)
    ensures
        is_utc(zone),
{
    jiff::tz::TimeZone::UTC
}

/// The name that a time zone has in the time zone database, as `TimeZone::iana_name` gives it.
pub uninterp spec fn zone_name(zone: jiff::tz::TimeZone) -> Option<Seq<char>>;

/// Whether a time zone with the name `own` is found under `name`: the names are the same but for the
/// case of the letters. A zone without a name is found under `Etc/Unknown` alone.
pub open spec fn found_under(own: Option<Seq<char>>, name: Seq<char>) -> bool {
    match own {
        Some(own) => same_but_for_case(own, name),
        None => same_but_for_case(name, "Etc/Unknown"@),
    }
}

/// Whether a time zone answers to a name. What answers to `UTC` is UTC.
pub open spec fn answers_to(zone: jiff::tz::TimeZone, name: Seq<char>) -> bool {
    found_under(zone_name(zone), name) && (same_but_for_case(name, "UTC"@) ==> is_utc(zone))
}

/// `TimeZone::get`, which looks a name up in the machine's time zone database. The claim is that a
/// zone which is found answers to the name that was looked up: every kind of database compares names
/// without regard to the case of ASCII letters, and gives the zone the name of the entry; `UTC` stands
/// for the constant. Which names are known, and what the clocks of other zones show, is left to the
/// machine.
#[verifier::external_body]
pub(crate) fn find_zone(name: &str) -> (zone: Result<jiff::tz::TimeZone, jiff::Error>)
    ensures
        zone matches Ok(zone) ==> found_under(zone_name(zone), name@),
        zone matches Ok(zone) ==> (same_but_for_case(name@, "UTC"@) ==> is_utc(zone)),
{
    jiff::tz::TimeZone::get(name)
}

/// `TimeZone::to_offset`. The claim is that the offset depends on the zone and the instant alone, and
/// that it is in range.
#[verifier::external_body]
pub(crate) fn offset_at(zone: &jiff::tz::TimeZone, instant: Timestamp) -> (offset: i32)
    ensures
        offset == zone_offset_at(*zone, instant@),
        offset_in_range(offset as int),
{
    let instant = jiff::Timestamp::new(instant.as_second(), instant.subsec_nanosecond())
        .expect("an instant of the same range");
    zone.to_offset(instant).seconds()
}

/// Finds the number of the local day in a time zone at an instant.
pub fn local_day(zone: &jiff::tz::TimeZone, instant: Timestamp) -> (day: i32)
    ensures
        day == zone_day(*zone, instant@),
        MIN_DAY <= day <= MAX_DAY,
        day * SECONDS_PER_DAY * NANOS_PER_SECOND <= instant@ + MAX_OFFSET * NANOS_PER_SECOND,
        instant@ - MAX_OFFSET * NANOS_PER_SECOND < (day + 1) * SECONDS_PER_DAY * NANOS_PER_SECOND,
{
    let offset: i32 = offset_at(zone, instant);
    let local: i128 = instant.as_nanosecond() + offset as i128 * NANOS_PER_SECOND;
    let since_first: i128 = local - MIN_DAY as i128 * 86_400_000_000_000;
    let day: i32 = (since_first / 86_400_000_000_000) as i32 + MIN_DAY;
    proof {
        assert(SECONDS_PER_DAY * NANOS_PER_SECOND == 86_400_000_000_000);
        vstd::arithmetic::div_mod::lemma_fundamental_div_mod(
            since_first as int,
            86_400_000_000_000,
        );
        vstd::arithmetic::div_mod::lemma_fundamental_div_mod_converse(
            local as int,
            86_400_000_000_000,
            day as int,
            since_first as int % 86_400_000_000_000,
        );
    }
    day
}

/// `TimeZone::to_ambiguous_timestamp` on a whole minute of a day of the calendar, of which the
/// offsets are kept. The claim is that they depend on the arguments alone, that they are in range, and
/// that the one after a gap is the greater and the one after a fold the less.
#[verifier::external_body]
pub(crate) fn local_offset(zone: &jiff::tz::TimeZone, day: i32, hour: u8, minute: u8) -> (offset:
    LocalOffset)
    requires
        MIN_DAY <= day <= MAX_DAY,
        hour < 24,
        minute < 60,
    ensures
        offset == zone_offset(*zone, day as int, hour as int, minute as int),
        offset_valid(offset),
{
    let date = jiff::civil::Date::constant(1970, 1, 1) + jiff::Span::new().days(day);
    let time = date.at(hour as i8, minute as i8, 0, 0);
    match zone.to_ambiguous_timestamp(time).offset() {
        jiff::tz::AmbiguousOffset::Unambiguous { offset } => LocalOffset::Unambiguous(
            offset.seconds(),
        ),
        jiff::tz::AmbiguousOffset::Gap { before, after } => LocalOffset::Gap {
            before: before.seconds(),
            after: after.seconds(),
        },
        jiff::tz::AmbiguousOffset::Fold { before, after } => LocalOffset::Fold {
            before: before.seconds(),
            after: after.seconds(),
        },
    }
}

/// Finds the second at which the clocks of a time zone show `hour`:`minute` on a day. There is none
/// where the day or the instant is out of range.
pub fn local_instant(zone: &jiff::tz::TimeZone, day: i32, hour: u8, minute: u8) -> (second: Option<
    i64,
>)
    requires
        hour < 24,
        minute < 60,
    ensures
        second is Some <==> zone_second(*zone, day as int, hour as int, minute as int) is Some,
        second matches Some(s) ==> {
            let clock = clock_second(day as int, hour as int, minute as int);
            &&& zone_second(*zone, day as int, hour as int, minute as int) == Some(s as int)
            &&& MIN_SECOND <= s <= MAX_SECOND
            &&& clock - MAX_OFFSET <= s <= clock + MAX_OFFSET
        },
        MIN_DAY <= day <= MAX_DAY && MIN_SECOND + MAX_OFFSET <= clock_second(
            day as int,
            hour as int,
            minute as int,
        ) <= MAX_SECOND - MAX_OFFSET ==> second is Some,
{
    if day < MIN_DAY || day > MAX_DAY {
        return None;
    }
    let offset: i32 = match local_offset(zone, day, hour, minute) {
        LocalOffset::Unambiguous(offset) => offset,
        LocalOffset::Gap { before, after: _ } => before,
        LocalOffset::Fold { before, after: _ } => before,
    };
    let second: i64 = day as i64 * SECONDS_PER_DAY + hour as i64 * 3600 + minute as i64 * 60
        - offset as i64;
    if second < MIN_SECOND || second > MAX_SECOND {
        None
    } else {
        Some(second)
    }
}

/// `Date::day` of the day with the number `day`, which is its place in its month by the Gregorian
/// calendar.
#[verifier::external_body]
pub(crate) fn day_of_month(day: i32) -> (day_of_month: u8)
    requires
        MIN_DAY <= day <= MAX_DAY,
    ensures
        falls_on(day as int, day_of_month as int),
{
    let date = jiff::civil::Date::constant(1970, 1, 1) + jiff::Span::new().days(day);
    date.day() as u8
}

} // verus!
