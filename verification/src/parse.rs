//! The time-range parser: a full-string scanner for the compact grammar
//! `[1-9][0-9]* ? (h|d|m|y)`, with an exact spec of the language it
//! accepts and of the value every accepted string denotes.

use crate::digits::digit_of_char;
use crate::digits::digits_value;
use crate::digits::is_digit;
use crate::digits::valid_digits;
use crate::time::TimeError;
use crate::time::TimeRange;
use crate::time::TimeUnit;
use crate::time::range_valid;
use crate::time::unit_of_letter;
use vstd::prelude::*;

verus! {

/// Whether a string matches the time-range grammar: an optional
/// positive scalar with no leading zero, then exactly one unit letter.
pub open spec fn matches_grammar(s: Seq<char>) -> bool {
    &&& s.len() >= 1
    &&& unit_of_letter(s.last()) is Some
    &&& (s.len() == 1 || valid_digits(s.drop_last()))
}

/// The scalar a grammatical string denotes; a bare unit letter
/// defaults to 1.
pub open spec fn spec_scalar(s: Seq<char>) -> int {
    if s.len() == 1 {
        1
    } else {
        digits_value(s.drop_last())
    }
}

/// The unit a grammatical string denotes.
pub open spec fn spec_unit(s: Seq<char>) -> TimeUnit {
    unit_of_letter(s.last()).unwrap()
}

/// Decodes a compact time-range string. Exactly the grammatical
/// strings succeed; a scalar beyond `u64::MAX` is an overflow, and
/// everything else a format error.
pub fn parse_time(input: String) -> (r: Result<TimeRange, TimeError>)
    ensures
        matches_grammar(input@) && spec_scalar(input@) <= u64::MAX ==> r == Ok::<TimeRange,
            TimeError>(
            TimeRange { scalar: spec_scalar(input@) as u64, unit: spec_unit(input@) },
        ),
        matches_grammar(input@) && spec_scalar(input@) > u64::MAX ==> r == Err::<TimeRange,
            TimeError>(TimeError::NumericOverflow),
        !matches_grammar(input@) ==> r == Err::<TimeRange, TimeError>(TimeError::FormatError),
        r matches Ok(t) ==> range_valid(t),
{
    let s: &str = input.as_str();
    let n: usize = s.unicode_len();
    if n == 0 {
        return Err(TimeError::FormatError);
    }
    let last = s.get_char(n - 1);
    let unit = match last {
        'h' => TimeUnit::Hour,
        'd' => TimeUnit::Day,
        'm' => TimeUnit::Month,
        'y' => TimeUnit::Year,
        _ => {
            return Err(TimeError::FormatError);
        },
    };
    if n == 1 {
        return Ok(TimeRange { scalar: 1, unit });
    }
    let mut acc: u64 = 0;
    let mut overflow = false;
    let mut i: usize = 0;
    while i < n - 1
        invariant
            2 <= n == s@.len(),
            0 <= i <= n - 1,
            s@ == input@,
            unit_of_letter(s@.last()) == Some(unit),
            forall|j: int| 0 <= j < i ==> is_digit(#[trigger] s@[j]),
            i > 0 ==> digit_of_char(s@[0]) >= 1,
            !overflow ==> acc == digits_value(s@.take(i as int)),
            overflow ==> digits_value(s@.take(i as int)) > u64::MAX,
            i > 0 && !overflow ==> acc >= 1,
        decreases n - 1 - i,
    {
        let c = s.get_char(i);
        let d: u64 = match c {
            '0' => 0,
            '1' => 1,
            '2' => 2,
            '3' => 3,
            '4' => 4,
            '5' => 5,
            '6' => 6,
            '7' => 7,
            '8' => 8,
            '9' => 9,
            _ => {
                proof {
                    assert(!is_digit(s@.drop_last()[i as int]));
                }
                return Err(TimeError::FormatError);
            },
        };
        if i == 0 && d == 0 {
            proof {
                assert(digit_of_char(s@.drop_last()[0]) == 0);
            }
            return Err(TimeError::FormatError);
        }
        proof {
            assert(s@.take(i + 1).drop_last() =~= s@.take(i as int));
            assert(s@.take(i + 1).last() == s@[i as int]);
            assert(digits_value(s@.take(i + 1)) == 10 * digits_value(s@.take(i as int)) + d);
        }
        if !overflow {
            if acc > (u64::MAX - d) / 10 {
                proof {
                    let v = acc as int;
                    let q = (u64::MAX - d) as int / 10;
                    let m = u64::MAX as int - d;
                    vstd::arithmetic::div_mod::lemma_fundamental_div_mod(m, 10);
                    vstd::arithmetic::div_mod::lemma_mod_bound(m, 10);
                    assert(10 * v + d > u64::MAX) by (nonlinear_arith)
                        requires
                            v > q,
                            m == 10 * q + m % 10,
                            0 <= m % 10 < 10,
                            m == u64::MAX as int - d,
                            0 <= d < 10,
                    ;
                }
                overflow = true;
            } else {
                proof {
                    let v = acc as int;
                    let q = (u64::MAX - d) as int / 10;
                    let m = u64::MAX as int - d;
                    vstd::arithmetic::div_mod::lemma_fundamental_div_mod(m, 10);
                    vstd::arithmetic::div_mod::lemma_mod_bound(m, 10);
                    assert(10 * v + d <= u64::MAX) by (nonlinear_arith)
                        requires
                            v <= q,
                            m == 10 * q + m % 10,
                            0 <= m % 10 < 10,
                            m == u64::MAX as int - d,
                            0 <= d < 10,
                    ;
                }
                acc = acc * 10 + d;
            }
        } else {
            proof {
                let v = digits_value(s@.take(i as int));
                assert(10 * v + d > u64::MAX) by (nonlinear_arith)
                    requires
                        v > u64::MAX as int,
                        d >= 0,
                ;
            }
        }
        i += 1;
    }
    proof {
        assert(s@.take(n - 1) =~= s@.drop_last());
        assert(valid_digits(s@.drop_last()));
        assert(matches_grammar(s@));
    }
    if overflow {
        return Err(TimeError::NumericOverflow);
    }
    Ok(TimeRange { scalar: acc, unit })
}

} // verus!
