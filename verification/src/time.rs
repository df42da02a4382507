//! Points in time.
use vstd::prelude::*;

use crate::outside;

verus! {

/// A point in time in UTC: whole seconds since the start of 1970, and
/// nanoseconds. Nanoseconds of a second or more stand for a leap second.
#[derive(Clone, Copy, Debug, PartialEq, Eq, Hash, Structural)]
pub struct Timestamp {
    pub secs: i64,
    pub nanos: u32,
}

/// The seconds and nanoseconds that stand for a point in time: the years
/// -262143 to 262142, and a leap second only at the end of a minute.
pub open spec fn valid_time(secs: int, nanos: int) -> bool {
    &&& -8_334_601_228_800 <= secs <= 8_210_266_876_799
    &&& 0 <= nanos < 2_000_000_000
    &&& nanos >= 1_000_000_000 ==> secs % 60 == 59
}

/// A point in the years 0 to 9999, the ones that RFC 3339 can write.
pub open spec fn in_rfc3339_range(secs: int) -> bool {
    -62_167_219_200 <= secs <= 253_402_300_799
}

/// The whole seconds from one point in time to another, rounded towards zero,
/// with a leap second counted where one of the times lies in it.
pub open spec fn whole_seconds(s1: int, n1: int, s2: int, n2: int) -> int {
    let leap: int = if s2 % 86_400 > s1 % 86_400 && n1 >= 1_000_000_000 {
        1
    } else if s2 % 86_400 < s1 % 86_400 && n2 >= 1_000_000_000 {
        -1
    } else {
        0
    };
    let secs = s2 - s1 + leap + (n2 - n1) / 1_000_000_000;
    if secs < 0 && (n2 - n1) % 1_000_000_000 > 0 {
        secs + 1
    } else {
        secs
    }
}

impl Timestamp {
    /// The fields stand for a point in time.
    pub open spec fn valid(self) -> bool {
        valid_time(self.secs as int, self.nanos as int)
    }

    /// This point lies before `other`.
    pub open spec fn before(self, other: Self) -> bool {
        self.secs < other.secs || (self.secs == other.secs && self.nanos < other.nanos)
    }

    /// Whether this point lies before `other`.
    pub fn is_before(&self, other: &Timestamp) -> (r: bool)
        ensures
            r == self.before(*other),
    {
        self.secs < other.secs || (self.secs == other.secs && self.nanos < other.nanos)
    }

    /// Whether the fields stand for a point in time.
    pub fn is_valid(&self) -> (r: bool)
        ensures
            r == self.valid(),
    {
        -8_334_601_228_800 <= self.secs && self.secs <= 8_210_266_876_799 && self.nanos
            < 2_000_000_000 && (self.nanos < 1_000_000_000 || self.secs % 60 == 59 || self.secs % 60
            == -1)
    }

    /// The RFC 3339 form of the point in time.
    pub open spec fn text(self) -> Seq<char> {
        outside::rfc3339(self.secs as int, self.nanos as int)
    }

    /// The RFC 3339 form of the point in time, which `parse_datetime` reads back
    /// in the years 0 to 9999.
    pub fn to_rfc3339(&self) -> (r: String)
        requires
            self.valid(),
        ensures
            r@ == self.text(),
            in_rfc3339_range(self.secs as int) ==> parsed_time(r@) == Some(*self),
    {
        outside::chrono_to_rfc3339(self.secs, self.nanos)
    }

    /// The whole seconds from this point to `end`, rounded towards zero.
    pub fn seconds_until(&self, end: &Timestamp) -> (r: i64)
        requires
            self.valid(),
            end.valid(),
        ensures
            r == whole_seconds(
                self.secs as int,
                self.nanos as int,
                end.secs as int,
                end.nanos as int,
            ),
    {
        outside::chrono_seconds_between(self.secs, self.nanos, end.secs, end.nanos)
    }
}

/// The point in time that `s` writes in RFC 3339, if it does.
pub open spec fn parsed_time(s: Seq<char>) -> Option<Timestamp> {
    match outside::rfc3339_parsed(s) {
        Some(t) => Some(Timestamp { secs: t.0, nanos: t.1 }),
        None => None,
    }
}

/// The point in time that `s` writes in RFC 3339, if it does.
pub fn parse_datetime(s: &str) -> (r: Option<Timestamp>)
    ensures
        r == parsed_time(s@),
        r is Some ==> r.unwrap().valid(),
{
    match outside::chrono_parse_rfc3339(s) {
        Some((secs, nanos)) => Some(Timestamp { secs, nanos }),
        None => None,
    }
}

/// The current point in time.
pub fn now() -> (r: Timestamp)
    ensures
        r.valid(),
{
    let (secs, nanos) = outside::chrono_now();
    Timestamp { secs, nanos }
}

} // verus!
