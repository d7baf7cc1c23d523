//! Laws relating the parser, the formatter and the resolver, proved
//! once over their specs.

use crate::digits::digits_value;
use crate::digits::lemma_dec_rep_of_digits;
use crate::interval::interval_unit_for;
use crate::parse::matches_grammar;
use crate::parse::spec_scalar;
use crate::parse::spec_unit;
use crate::time::TimeRange;
use crate::time::TimeUnit;
use crate::time::range_format;
use crate::time::unit_suffix;
use vstd::prelude::*;

verus! {

/// Round trip: formatting the range that a grammatical input with an
/// explicit scalar denotes reproduces the input exactly — except that
/// the month letter `m` comes back with its canonical `mo` suffix, so
/// such an input gains a trailing `o`.
pub proof fn lemma_format_round_trip(s: Seq<char>)
    requires
        matches_grammar(s),
        s.len() >= 2,
        spec_scalar(s) <= u64::MAX,
    ensures
        s.last() != 'm' ==> range_format(
            TimeRange { scalar: spec_scalar(s) as u64, unit: spec_unit(s) },
        ) == s,
        s.last() == 'm' ==> range_format(
            TimeRange { scalar: spec_scalar(s) as u64, unit: spec_unit(s) },
        ) == s.push('o'),
{
    let digits = s.drop_last();
    lemma_dec_rep_of_digits(digits);
    let t = TimeRange { scalar: spec_scalar(s) as u64, unit: spec_unit(s) };
    assert(t.scalar == digits_value(digits));
    if s.last() == 'h' {
        assert(unit_suffix(t.unit) == seq!['h']);
        assert(range_format(t) =~= s);
    } else if s.last() == 'd' {
        assert(unit_suffix(t.unit) == seq!['d']);
        assert(range_format(t) =~= s);
    } else if s.last() == 'y' {
        assert(unit_suffix(t.unit) == seq!['y']);
        assert(range_format(t) =~= s);
    } else {
        assert(s.last() == 'm');
        assert(unit_suffix(t.unit) == seq!['m', 'o']);
        assert(range_format(t) =~= s.push('o'));
    }
}

/// A span one second past the minute bucket's inclusive boundary of
/// 3600 seconds resolves to hourly sampling.
pub proof fn lemma_hour_after_minute_boundary(total: int)
    requires
        total == 3601,
    ensures
        interval_unit_for(total) == TimeUnit::Hour,
{
}

} // verus!
