//! The time-unit model: the closed set of granularities, the value type
//! for a (scalar, unit) pair, and the parser's error taxonomy.

use crate::digits::dec_rep;
use crate::digits::push_decimal;
use vstd::prelude::*;

verus! {

/// A supported granularity. Month and Year use the customary 30-day and
/// 365-day approximations.
#[derive(Debug, PartialEq, Eq, Structural, Copy, Clone)]
pub enum TimeUnit {
    Minute,
    Hour,
    Day,
    Month,
    Year,
}

/// A requested query span or a derived sampling interval: `scalar`
/// copies of `unit`. Two ranges are equal only field for field; `"2d"`
/// and `"48h"` denote the same duration but are distinct values.
#[derive(Debug, PartialEq, Eq, Structural, Copy, Clone)]
pub struct TimeRange {
    pub scalar: u64,
    pub unit: TimeUnit,
}

/// Why a time-range string was rejected: it does not fit the grammar at
/// all, or its digits exceed the representable scalar range.
#[derive(Debug, PartialEq, Eq, Structural, Copy, Clone)]
pub enum TimeError {
    FormatError,
    NumericOverflow,
}

/// Seconds denoted by one copy of a unit.
pub open spec fn seconds_per_unit(u: TimeUnit) -> int {
    match u {
        TimeUnit::Minute => 60,
        TimeUnit::Hour => 3600,
        TimeUnit::Day => 86400,
        TimeUnit::Month => 2592000,
        TimeUnit::Year => 31536000,
    }
}

/// Total duration denoted by a range, in seconds.
pub open spec fn total_seconds(t: TimeRange) -> int {
    t.scalar * seconds_per_unit(t.unit)
}

/// A well-formed range carries a positive scalar.
pub open spec fn range_valid(t: TimeRange) -> bool {
    t.scalar >= 1
}

/// The unit denoted by a single letter of the grammar, if any.
pub open spec fn unit_of_letter(c: char) -> Option<TimeUnit> {
    if c == 'h' {
        Some(TimeUnit::Hour)
    } else if c == 'd' {
        Some(TimeUnit::Day)
    } else if c == 'm' {
        Some(TimeUnit::Month)
    } else if c == 'y' {
        Some(TimeUnit::Year)
    } else {
        None
    }
}

impl TimeUnit {
    /// Decodes a one-letter unit string; any other string is a format
    /// error.
    pub fn from_str(s: &str) -> (r: Result<TimeUnit, TimeError>)
        ensures
            match r {
                Ok(u) => s@.len() == 1 && unit_of_letter(s@[0]) == Some(u),
                Err(e) => e == TimeError::FormatError && !(s@.len() == 1 && unit_of_letter(s@[0])
                    is Some),
            },
    {
        if s.unicode_len() == 1 {
            let c = s.get_char(0);
            match c {
                'h' => Ok(TimeUnit::Hour),
                'd' => Ok(TimeUnit::Day),
                'm' => Ok(TimeUnit::Month),
                'y' => Ok(TimeUnit::Year),
                _ => Err(TimeError::FormatError),
            }
        } else {
            Err(TimeError::FormatError)
        }
    }
}

/// The wire-format suffix of a unit: Minute→"m", Hour→"h", Day→"d",
/// Month→"mo", Year→"y".
pub open spec fn unit_suffix(u: TimeUnit) -> Seq<char> {
    match u {
        TimeUnit::Minute => seq!['m'],
        TimeUnit::Hour => seq!['h'],
        TimeUnit::Day => seq!['d'],
        TimeUnit::Month => seq!['m', 'o'],
        TimeUnit::Year => seq!['y'],
    }
}

/// The compact wire form of a range: the scalar's decimal digits
/// directly followed by the unit's suffix.
pub open spec fn range_format(t: TimeRange) -> Seq<char> {
    dec_rep(t.scalar as nat) + unit_suffix(t.unit)
}

impl TimeRange {
    /// Renders the compact wire form expected by the quote provider,
    /// e.g. `3d` or `1mo`.
    pub fn to_string(&self) -> (r: String)
        ensures
            r@ == range_format(*self),
    {
        let mut s = String::new();
        push_decimal(&mut s, self.scalar);
        proof {
            reveal_strlit("m");
            reveal_strlit("h");
            reveal_strlit("d");
            reveal_strlit("mo");
            reveal_strlit("y");
        }
        match self.unit {
            TimeUnit::Minute => {
                s.append("m");
                assert(("m")@ =~= unit_suffix(self.unit));
            },
            TimeUnit::Hour => {
                s.append("h");
                assert(("h")@ =~= unit_suffix(self.unit));
            },
            TimeUnit::Day => {
                s.append("d");
                assert(("d")@ =~= unit_suffix(self.unit));
            },
            TimeUnit::Month => {
                s.append("mo");
                assert(("mo")@ =~= unit_suffix(self.unit));
            },
            TimeUnit::Year => {
                s.append("y");
                assert(("y")@ =~= unit_suffix(self.unit));
            },
        }
        proof {
            assert(s@ =~= range_format(*self));
        }
        s
    }
}

impl TimeError {
    /// The human-readable message surfaced to the caller.
    pub fn message(&self) -> (r: String)
        ensures
            *self == TimeError::FormatError ==> r@ == "not a valid time range; try h, d, m, y"@,
            *self == TimeError::NumericOverflow ==> r@ == "time range scalar is too large"@,
    {
        match self {
            TimeError::FormatError => "not a valid time range; try h, d, m, y".to_owned(),
            TimeError::NumericOverflow => "time range scalar is too large".to_owned(),
        }
    }
}

} // verus!
