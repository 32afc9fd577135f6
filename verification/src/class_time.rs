//! Quiet hours: the times of day, given as `HHMM-HHMM` ranges, during which
//! a new message does not bring the window up.

use crate::json::{load_list, loaded_list};
use crate::text::{
    chars_of, digit_of, digit_value, fields_view, split, split_chars, trim, trim_chars, views,
};
use vstd::prelude::*;

verus! {

/// What separates the two ends of a range.
pub const RANGE_SEPARATOR: char = '-';

/// A time of day: whole seconds since midnight, and the nanoseconds since
/// the last whole second. Times are ordered by the seconds, then by the
/// nanoseconds.
#[derive(Clone, Copy, Debug, PartialEq, Eq, Structural)]
pub struct ClockTime {
    pub secs: u32,
    pub frac: u32,
}

impl ClockTime {
    /// Whether `self` is not later than `other`.
    pub open spec fn at_or_before(self, other: ClockTime) -> bool {
        self.secs < other.secs || (self.secs == other.secs && self.frac <= other.frac)
    }

    /// Whether `self` lies in the range from `start` to `end`, both ends
    /// included. A range whose start is after its end runs over midnight.
    pub open spec fn within(self, start: ClockTime, end: ClockTime) -> bool {
        if start.at_or_before(end) {
            start.at_or_before(self) && self.at_or_before(end)
        } else {
            start.at_or_before(self) || self.at_or_before(end)
        }
    }

    /// The time of day at `hour`, `min` and `sec`, if there is such a time.
    pub open spec fn of_hms(hour: int, min: int, sec: int) -> Option<ClockTime> {
        if 0 <= hour < 24 && 0 <= min < 60 && 0 <= sec < 60 {
            Some(ClockTime { secs: (hour * 3600 + min * 60 + sec) as u32, frac: 0 })
        } else {
            None
        }
    }

    /// The time of day at `hour`, `min` and `sec`; `None` where the hour is
    /// not below 24, or the minute or the second not below 60.
    pub fn from_hms_opt(hour: u32, min: u32, sec: u32) -> (time: Option<ClockTime>)
        ensures
            time == ClockTime::of_hms(hour as int, min as int, sec as int),
    {
        if hour < 24 && min < 60 && sec < 60 {
            Some(ClockTime { secs: hour * 3600 + min * 60 + sec, frac: 0 })
        } else {
            None
        }
    }

    /// Whether `self` is not later than `other`.
    pub fn is_at_or_before(&self, other: &ClockTime) -> (r: bool)
        ensures
            r == self.at_or_before(*other),
    {
        self.secs < other.secs || (self.secs == other.secs && self.frac <= other.frac)
    }

    /// Whether `self` lies in the range from `start` to `end`.
    pub fn is_within(&self, start: &ClockTime, end: &ClockTime) -> (r: bool)
        ensures
            r == self.within(*start, *end),
    {
        if start.is_at_or_before(end) {
            start.is_at_or_before(self) && self.is_at_or_before(end)
        } else {
            start.is_at_or_before(self) || self.is_at_or_before(end)
        }
    }
}

/// The number that two characters spell: two digits, or a plus sign and one
/// digit.
pub open spec fn two_digit_number(a: char, b: char) -> Option<int> {
    match (digit_value(a), digit_value(b)) {
        (Some(tens), Some(ones)) => Some(10 * tens + ones),
        (None, Some(ones)) => if a == '+' {
            Some(ones)
        } else {
            None
        },
        _ => None,
    }
}

/// The time of day that `HHMM` spells: exactly four characters, of which the
/// first two spell the hour and the last two the minute.
pub open spec fn clock_of(text: Seq<char>) -> Option<ClockTime> {
    if text.len() != 4 {
        None
    } else {
        match (two_digit_number(text[0], text[1]), two_digit_number(text[2], text[3])) {
            (Some(hour), Some(minute)) => ClockTime::of_hms(hour, minute, 0),
            _ => None,
        }
    }
}

/// The range that `HHMM-HHMM` spells: exactly two parts around the
/// separator, each a time of day once the whitespace around it is dropped.
pub open spec fn range_of(text: Seq<char>) -> Option<(ClockTime, ClockTime)> {
    let parts = split(text, RANGE_SEPARATOR);
    if parts.len() != 2 {
        None
    } else {
        match (clock_of(trim(parts[0])), clock_of(trim(parts[1]))) {
            (Some(start), Some(end)) => Some((start, end)),
            _ => None,
        }
    }
}

/// Whether `now` lies in the range that `text` spells. Text that spells no
/// range holds no time.
pub open spec fn range_holds(text: Seq<char>, now: ClockTime) -> bool {
    range_of(text) matches Some(ends) && now.within(ends.0, ends.1)
}

/// Whether `now` lies in one of the ranges.
pub open spec fn in_class_time(now: ClockTime, ranges: Seq<Seq<char>>) -> bool {
    exists|i: int| 0 <= i < ranges.len() && range_holds(#[trigger] ranges[i], now)
}

/// The number that two characters spell.
fn two_digits(a: char, b: char) -> (r: Option<u32>)
    ensures
        match r {
            Some(n) => two_digit_number(a, b) == Some(n as int) && n < 100,
            None => two_digit_number(a, b) is None,
        },
{
    match digit_of(b) {
        Some(ones) => match digit_of(a) {
            Some(tens) => Some(10 * tens + ones),
            None => if a == '+' {
                Some(ones)
            } else {
                None
            },
        },
        None => None,
    }
}

/// The time of day that the characters spell.
fn clock_of_chars(text: &Vec<char>) -> (time: Option<ClockTime>)
    ensures
        time == clock_of(text@),
{
    if text.len() != 4 {
        return None;
    }
    let hour = match two_digits(text[0], text[1]) {
        Some(h) => h,
        None => {
            return None;
        },
    };
    let minute = match two_digits(text[2], text[3]) {
        Some(m) => m,
        None => {
            return None;
        },
    };
    ClockTime::from_hms_opt(hour, minute, 0)
}

/// Reads a time of day written as `HHMM`.
pub fn parse_hhmm(hhmm: &str) -> (time: Option<ClockTime>)
    ensures
        time == clock_of(hhmm@),
{
    clock_of_chars(&chars_of(hhmm))
}

/// Reads a range written as `HHMM-HHMM`.
pub fn parse_range(text: &str) -> (range: Option<(ClockTime, ClockTime)>)
    ensures
        range == range_of(text@),
{
    let parts = split_chars(&chars_of(text), RANGE_SEPARATOR);
    if parts.len() != 2 {
        return None;
    }
    proof {
        assert(fields_view(parts@)[0] == parts@[0]@);
        assert(fields_view(parts@)[1] == parts@[1]@);
    }
    let start = match clock_of_chars(&trim_chars(&parts[0])) {
        Some(t) => t,
        None => {
            return None;
        },
    };
    let end = match clock_of_chars(&trim_chars(&parts[1])) {
        Some(t) => t,
        None => {
            return None;
        },
    };
    Some((start, end))
}

/// The configured ranges, read from their JSON text. Text that is no list of
/// strings configures no range.
pub fn class_times_from_json(json: &str) -> (ranges: Vec<String>)
    ensures
        views(ranges@) == loaded_list(json@),
{
    load_list(json)
}

/// Whether class is in session at the time `now`: whether `now` lies in one
/// of the configured ranges. Entries that spell no range are passed over.
pub fn is_class_time(now: ClockTime, class_times: &Vec<String>) -> (in_class: bool)
    ensures
        in_class == in_class_time(now, views(class_times@)),
{
    let mut i: usize = 0;
    while i < class_times.len()
        invariant
            i <= class_times.len(),
            forall|j: int| 0 <= j < i ==> !range_holds(#[trigger] views(class_times@)[j], now),
        decreases class_times.len() - i,
    {
        proof {
            assert(views(class_times@)[i as int] == class_times@[i as int]@);
        }
        match parse_range(class_times[i].as_str()) {
            Some((start, end)) => {
                if now.is_within(&start, &end) {
                    return true;
                }
            },
            None => {},
        }
        i = i + 1;
    }
    false
}

} // verus!
