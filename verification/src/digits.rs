//! Decimal digits: the spec-level correspondence between numbers and
//! their digit strings, and verified helpers that render a scalar.

use vstd::prelude::*;

verus! {

/// Numeric value of a digit character, or -1 for any other character.
pub open spec fn digit_of_char(c: char) -> int {
    if c == '0' {
        0
    } else if c == '1' {
        1
    } else if c == '2' {
        2
    } else if c == '3' {
        3
    } else if c == '4' {
        4
    } else if c == '5' {
        5
    } else if c == '6' {
        6
    } else if c == '7' {
        7
    } else if c == '8' {
        8
    } else if c == '9' {
        9
    } else {
        -1
    }
}

/// Whether a character is a decimal digit.
pub open spec fn is_digit(c: char) -> bool {
    digit_of_char(c) >= 0
}

/// The digit character for a value in 0..=9 (and '9' outside that range).
pub open spec fn char_of_digit(d: int) -> char {
    if d == 0 {
        '0'
    } else if d == 1 {
        '1'
    } else if d == 2 {
        '2'
    } else if d == 3 {
        '3'
    } else if d == 4 {
        '4'
    } else if d == 5 {
        '5'
    } else if d == 6 {
        '6'
    } else if d == 7 {
        '7'
    } else if d == 8 {
        '8'
    } else {
        '9'
    }
}

/// The number denoted by a digit string, read most significant first.
pub open spec fn digits_value(s: Seq<char>) -> int
    decreases s.len(),
{
    if s.len() == 0 {
        0
    } else {
        10 * digits_value(s.drop_last()) + digit_of_char(s.last())
    }
}

/// The canonical decimal rendering of a number: no leading zeros, and a
/// lone '0' for zero.
pub open spec fn dec_rep(n: nat) -> Seq<char>
    decreases n,
{
    if n < 10 {
        seq![char_of_digit(n as int)]
    } else {
        dec_rep(n / 10) + seq![char_of_digit((n % 10) as int)]
    }
}

/// A digit string the grammar accepts as a scalar: nonempty, all
/// digits, and no leading zero.
pub open spec fn valid_digits(s: Seq<char>) -> bool {
    &&& s.len() >= 1
    &&& digit_of_char(s[0]) >= 1
    &&& forall|i: int| 0 <= i < s.len() ==> is_digit(#[trigger] s[i])
}

/// Appends one digit character to a string.
pub fn push_digit(s: &mut String, d: u64)
    requires
        d < 10,
    ensures
        final(s)@ == old(s)@ + seq![char_of_digit(d as int)],
{
    proof {
        reveal_strlit("0");
        reveal_strlit("1");
        reveal_strlit("2");
        reveal_strlit("3");
        reveal_strlit("4");
        reveal_strlit("5");
        reveal_strlit("6");
        reveal_strlit("7");
        reveal_strlit("8");
        reveal_strlit("9");
    }
    if d == 0 {
        s.append("0");
        assert(("0")@ =~= seq![char_of_digit(0)]);
    } else if d == 1 {
        s.append("1");
        assert(("1")@ =~= seq![char_of_digit(1)]);
    } else if d == 2 {
        s.append("2");
        assert(("2")@ =~= seq![char_of_digit(2)]);
    } else if d == 3 {
        s.append("3");
        assert(("3")@ =~= seq![char_of_digit(3)]);
    } else if d == 4 {
        s.append("4");
        assert(("4")@ =~= seq![char_of_digit(4)]);
    } else if d == 5 {
        s.append("5");
        assert(("5")@ =~= seq![char_of_digit(5)]);
    } else if d == 6 {
        s.append("6");
        assert(("6")@ =~= seq![char_of_digit(6)]);
    } else if d == 7 {
        s.append("7");
        assert(("7")@ =~= seq![char_of_digit(7)]);
    } else if d == 8 {
        s.append("8");
        assert(("8")@ =~= seq![char_of_digit(8)]);
    } else {
        s.append("9");
        assert(("9")@ =~= seq![char_of_digit(9)]);
    }
}

/// Appends the canonical decimal rendering of `n` to a string.
pub fn push_decimal(s: &mut String, n: u64)
    ensures
        final(s)@ == old(s)@ + dec_rep(n as nat),
    decreases n,
{
    if n < 10 {
        push_digit(s, n);
    } else {
        let q = n / 10;
        let r = n % 10;
        push_decimal(s, q);
        push_digit(s, r);
        proof {
            assert(old(s)@ + dec_rep(q as nat) + seq![char_of_digit(r as int)] =~= old(s)@
                + dec_rep(n as nat));
        }
    }
}

/// A grammatical digit string denotes a positive number, and rendering
/// that number gives back exactly the same digit string.
pub proof fn lemma_dec_rep_of_digits(s: Seq<char>)
    requires
        valid_digits(s),
    ensures
        digits_value(s) >= 1,
        dec_rep(digits_value(s) as nat) == s,
    decreases s.len(),
{
    let d = s.drop_last();
    assert(is_digit(s[s.len() - 1]));
    if s.len() == 1 {
        assert(d =~= Seq::<char>::empty());
        assert(digits_value(Seq::<char>::empty()) == 0);
        assert(digits_value(s) == digit_of_char(s[0]));
        assert(dec_rep(digits_value(s) as nat) =~= s);
    } else {
        assert(d[0] == s[0]);
        assert(forall|i: int| 0 <= i < d.len() ==> is_digit(#[trigger] d[i])) by {
            assert(forall|i: int| 0 <= i < d.len() ==> d[i] == s[i]);
        }
        lemma_dec_rep_of_digits(d);
        let v = digits_value(d);
        let dc = digit_of_char(s.last());
        assert(0 <= dc < 10);
        assert(digits_value(s) == 10 * v + dc);
        assert((10 * v + dc) / 10 == v && (10 * v + dc) % 10 == dc) by (nonlinear_arith)
            requires
                v >= 1,
                0 <= dc < 10,
        ;
        assert(dec_rep(digits_value(s) as nat) == dec_rep(v as nat) + seq![char_of_digit(dc)]);
        assert(char_of_digit(dc) == s.last());
        assert(dec_rep(digits_value(s) as nat) =~= s);
    }
}

} // verus!
