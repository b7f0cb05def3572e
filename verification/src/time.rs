//! Points in time and spans of time, as counts of nanoseconds.

use vstd::prelude::*;

verus! {

/// Nanoseconds in one second.
pub const NANOS_PER_SECOND: i128 = 1_000_000_000;

/// Seconds in one day.
pub const SECONDS_PER_DAY: i64 = 86_400;

/// The first second of the supported range, in the year -9999.
pub const MIN_SECOND: i64 = -377_705_023_201;

/// The last second of the supported range, in the year 9999.
pub const MAX_SECOND: i64 = 253_402_207_200;

/// The first instant of the supported range, in nanoseconds since the Unix epoch.
pub const MIN_NANOS: i128 = -377_705_023_201_000_000_000;

/// The last instant of the supported range, in nanoseconds since the Unix epoch.
pub const MAX_NANOS: i128 = 253_402_207_200_999_999_999;

/// The whole seconds in `nanos`, with the fraction cut off: a negative count is rounded up.
pub open spec fn whole_seconds(nanos: int) -> int {
    if nanos >= 0 {
        nanos / (NANOS_PER_SECOND as int)
    } else {
        -((-nanos) / (NANOS_PER_SECOND as int))
    }
}

/// Whether an instant is in the range of time.
pub open spec fn in_range(nanos: int) -> bool {
    MIN_NANOS <= nanos <= MAX_NANOS
}

/// The lesser of two integers.
pub open spec fn least(a: int, b: int) -> int {
    if a <= b {
        a
    } else {
        b
    }
}

/// An instant between the years -9999 and 9999, held as whole seconds since the Unix epoch and a
/// fraction of a second of the same sign. Its view is the number of nanoseconds since the epoch.
#[derive(Clone, Copy, Debug, PartialEq, Eq, PartialOrd, Ord, Hash, Structural)]
pub struct Timestamp {
    second: i64,
    nanosecond: i32,
}

impl View for Timestamp {
    type V = int;

    closed spec fn view(&self) -> int {
        self.second * NANOS_PER_SECOND + self.nanosecond
    }
}

impl Timestamp {
    #[verifier::type_invariant]
    spec fn canonical(self) -> bool {
        &&& MIN_SECOND <= self.second <= MAX_SECOND
        &&& -NANOS_PER_SECOND < self.nanosecond < NANOS_PER_SECOND
        &&& self.second > 0 ==> self.nanosecond >= 0
        &&& self.second < 0 ==> self.nanosecond <= 0
        &&& self.second == MIN_SECOND ==> self.nanosecond == 0
    }

    /// The two fields are the whole seconds of the view and what is left of it.
    proof fn lemma_split(self)
        requires
            self.canonical(),
        ensures
            self.second == whole_seconds(self@),
    {
        let n = if self.nanosecond >= 0 { self.nanosecond as int } else { -(self.nanosecond as int) };
        let s = if self.second >= 0 { self.second as int } else { -(self.second as int) };
        vstd::arithmetic::div_mod::lemma_fundamental_div_mod_converse(
            s * 1_000_000_000 + n,
            1_000_000_000,
            s,
            n,
        );
    }

    /// The instant `nanosecond` nanoseconds after the second `second` (before it, where negative).
    /// `None` for a fraction of a second or more, and for an instant out of range.
    pub fn new(second: i64, nanosecond: i32) -> (instant: Option<Timestamp>)
        ensures
            instant is Some <==> {
                &&& MIN_SECOND <= second <= MAX_SECOND
                &&& -NANOS_PER_SECOND < nanosecond < NANOS_PER_SECOND
                &&& (second == MIN_SECOND ==> nanosecond >= 0)
            },
            instant matches Some(t) ==> t@ == second * NANOS_PER_SECOND + nanosecond,
    {
        if second < MIN_SECOND || second > MAX_SECOND || nanosecond <= -1_000_000_000
            || nanosecond >= 1_000_000_000 || (second == MIN_SECOND && nanosecond < 0) {
            return None;
        }
        if second < 0 && nanosecond > 0 {
            Some(Timestamp { second: second + 1, nanosecond: nanosecond - 1_000_000_000 })
        } else if second > 0 && nanosecond < 0 {
            Some(Timestamp { second: second - 1, nanosecond: nanosecond + 1_000_000_000 })
        } else {
            Some(Timestamp { second, nanosecond })
        }
    }

    /// The instant at the start of the second `second`; `None` out of range.
    pub fn from_second(second: i64) -> (instant: Option<Timestamp>)
        ensures
            instant is Some <==> MIN_SECOND <= second <= MAX_SECOND,
            instant matches Some(t) ==> t@ == second * NANOS_PER_SECOND,
    {
        if second < MIN_SECOND || second > MAX_SECOND {
            None
        } else {
            Some(Timestamp { second, nanosecond: 0 })
        }
    }

    /// The whole seconds since the Unix epoch, the fraction cut off.
    pub fn as_second(self) -> (second: i64)
        ensures
            second == whole_seconds(self@),
            MIN_SECOND <= second <= MAX_SECOND,
    {
        proof {
            use_type_invariant(&self);
            self.lemma_split();
        }
        self.second
    }

    /// The fraction that [`Timestamp::as_second`] cuts off, in nanoseconds.
    pub fn subsec_nanosecond(self) -> (nanosecond: i32)
        ensures
            self@ == whole_seconds(self@) * NANOS_PER_SECOND + nanosecond,
            -NANOS_PER_SECOND < nanosecond < NANOS_PER_SECOND,
            self@ >= 0 ==> nanosecond >= 0,
            self@ <= 0 ==> nanosecond <= 0,
    {
        proof {
            use_type_invariant(&self);
            self.lemma_split();
        }
        self.nanosecond
    }

    /// The nanoseconds since the Unix epoch.
    pub fn as_nanosecond(self) -> (nanos: i128)
        ensures
            nanos == self@,
            MIN_NANOS <= self@ <= MAX_NANOS,
    {
        proof {
            use_type_invariant(&self);
        }
        self.second as i128 * NANOS_PER_SECOND + self.nanosecond as i128
    }

    /// Whether this instant lies before `other`.
    pub fn is_before(self, other: Timestamp) -> (before: bool)
        ensures
            before == (self@ < other@),
    {
        self.as_nanosecond() < other.as_nanosecond()
    }

    /// The instant `seconds` seconds and `nanosecond` nanoseconds later, or the last instant of the
    /// range where that lies beyond it.
    pub fn saturating_later(self, seconds: u32, nanosecond: u32) -> (later: Timestamp)
        requires
            nanosecond < NANOS_PER_SECOND,
        ensures
            later@ == least(self@ + seconds * NANOS_PER_SECOND + nanosecond, MAX_NANOS as int),
    {
        proof {
            use_type_invariant(&self);
        }
        let mut second: i64 = self.second + seconds as i64;
        let mut fraction: i64 = self.nanosecond as i64 + nanosecond as i64;
        if fraction >= 1_000_000_000 {
            second = second + 1;
            fraction = fraction - 1_000_000_000;
        }
        if second > MAX_SECOND {
            if second == MAX_SECOND + 1 && fraction < 0 {
                return Timestamp {
                    second: MAX_SECOND,
                    nanosecond: (fraction + 1_000_000_000) as i32,
                };
            }
            return Timestamp { second: MAX_SECOND, nanosecond: 999_999_999 };
        }
        if second > 0 && fraction < 0 {
            Timestamp { second: second - 1, nanosecond: (fraction + 1_000_000_000) as i32 }
        } else if second < 0 && fraction > 0 {
            Timestamp { second: second + 1, nanosecond: (fraction - 1_000_000_000) as i32 }
        } else {
            Timestamp { second, nanosecond: fraction as i32 }
        }
    }

    /// The instant `seconds` seconds later (earlier, where negative).
    pub fn shifted(self, seconds: i64) -> (later: Timestamp)
        requires
            MIN_NANOS <= self@ + seconds * NANOS_PER_SECOND <= MAX_NANOS,
        ensures
            later@ == self@ + seconds * NANOS_PER_SECOND,
    {
        proof {
            use_type_invariant(&self);
        }
        let second: i64 = self.second + seconds;
        let fraction: i32 = self.nanosecond;
        if second > 0 && fraction < 0 {
            Timestamp { second: second - 1, nanosecond: fraction + 1_000_000_000 }
        } else if second < 0 && fraction > 0 {
            Timestamp { second: second + 1, nanosecond: fraction - 1_000_000_000 }
        } else {
            Timestamp { second, nanosecond: fraction }
        }
    }
}

/// An optional instant, in nanoseconds.
pub open spec fn instant_of(instant: Option<Timestamp>) -> Option<int> {
    match instant {
        Some(instant) => Some(instant@),
        None => None,
    }
}

/// A span of time, held as whole seconds and a fraction of a second. Its view is its length in
/// nanoseconds.
#[derive(Clone, Copy, Debug, PartialEq, Eq, PartialOrd, Ord, Hash, Structural)]
pub struct Duration {
    secs: u64,
    nanos: u32,
}

/// The longest duration, in nanoseconds.
pub open spec fn max_duration() -> int {
    u64::MAX * NANOS_PER_SECOND + 999_999_999
}

impl View for Duration {
    type V = int;

    closed spec fn view(&self) -> int {
        self.secs * NANOS_PER_SECOND + self.nanos
    }
}

impl Duration {
    #[verifier::type_invariant]
    spec fn canonical(self) -> bool {
        self.nanos < NANOS_PER_SECOND
    }

    /// The span of `secs` seconds.
    pub fn from_secs(secs: u64) -> (duration: Duration)
        ensures
            duration@ == secs * NANOS_PER_SECOND,
    {
        Duration { secs, nanos: 0 }
    }

    /// The span of `millis` milliseconds.
    pub fn from_millis(millis: u64) -> (duration: Duration)
        ensures
            duration@ == millis * 1_000_000,
    {
        Duration { secs: millis / 1000, nanos: (millis % 1000) as u32 * 1_000_000 }
    }

    /// The span of `secs` seconds and `nanos` nanoseconds; `None` where the fraction is a second or
    /// more.
    pub fn new(secs: u64, nanos: u32) -> (duration: Option<Duration>)
        ensures
            duration is Some <==> nanos < NANOS_PER_SECOND,
            duration matches Some(d) ==> d@ == secs * NANOS_PER_SECOND + nanos,
    {
        if nanos < 1_000_000_000 {
            Some(Duration { secs, nanos })
        } else {
            None
        }
    }

    /// The whole seconds.
    pub fn as_secs(self) -> (secs: u64)
        ensures
            secs == self@ / (NANOS_PER_SECOND as int),
            0 <= self@ <= max_duration(),
    {
        proof {
            use_type_invariant(&self);
            self.lemma_split();
        }
        self.secs
    }

    proof fn lemma_split(self)
        requires
            self.canonical(),
        ensures
            self.secs == self@ / (NANOS_PER_SECOND as int),
            self.nanos == self@ % (NANOS_PER_SECOND as int),
    {
        vstd::arithmetic::div_mod::lemma_fundamental_div_mod_converse(
            self@,
            1_000_000_000,
            self.secs as int,
            self.nanos as int,
        );
    }

    /// The fraction of a second beyond [`Duration::as_secs`], in nanoseconds.
    pub fn subsec_nanos(self) -> (nanos: u32)
        ensures
            nanos == self@ % (NANOS_PER_SECOND as int),
    {
        proof {
            use_type_invariant(&self);
            self.lemma_split();
        }
        self.nanos
    }

    /// The length in nanoseconds.
    pub fn as_nanos(self) -> (nanos: u128)
        ensures
            nanos == self@,
            0 <= self@ <= max_duration(),
    {
        proof {
            use_type_invariant(&self);
        }
        self.secs as u128 * 1_000_000_000 + self.nanos as u128
    }

    /// The whole milliseconds.
    pub fn as_millis(self) -> (millis: u128)
        ensures
            millis == self@ / 1_000_000,
            0 <= self@ <= max_duration(),
    {
        self.as_nanos() / 1_000_000
    }

    /// Whether the span is empty.
    pub fn is_zero(self) -> (zero: bool)
        ensures
            zero == (self@ == 0),
    {
        self.as_nanos() == 0
    }

    /// Whether the span is no longer than `other`.
    pub fn at_most(self, other: Duration) -> (shorter: bool)
        ensures
            shorter == (self@ <= other@),
    {
        self.as_nanos() <= other.as_nanos()
    }

    /// Twice the span, or the longest span where that is longer.
    pub fn saturating_double(self) -> (double: Duration)
        ensures
            double@ == least(2 * self@, max_duration()),
    {
        proof {
            use_type_invariant(&self);
        }
        let carry: u64 = if self.nanos >= 500_000_000 { 1 } else { 0 };
        if self.secs > (u64::MAX - carry) / 2 {
            return Duration { secs: u64::MAX, nanos: 999_999_999 };
        }
        Duration { secs: self.secs * 2 + carry, nanos: (self.nanos as u64 * 2 - carry * 1_000_000_000) as u32 }
    }

    /// The shorter of two spans.
    pub fn shorter(self, other: Duration) -> (shorter: Duration)
        ensures
            shorter@ == least(self@, other@),
    {
        if self.at_most(other) {
            self
        } else {
            other
        }
    }
}

} // verus!
