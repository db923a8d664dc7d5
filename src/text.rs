//! Text primitives: decimal rendering, character classes, string building.
use vstd::prelude::*;
use crate::case::push_char;

verus! {

/// The character of a decimal digit `d` (0 to 9).
pub open spec fn digit_char(d: int) -> char {
    seq!['0', '1', '2', '3', '4', '5', '6', '7', '8', '9'][d]
}

/// The decimal digits of a natural number, most significant first.
pub open spec fn nat_digits(n: nat) -> Seq<char>
    decreases n,
{
    if n < 10 {
        seq![digit_char(n as int)]
    } else {
        nat_digits(n / 10).push(digit_char((n % 10) as int))
    }
}

/// The decimal text of an integer, with a leading `-` below zero.
pub open spec fn decimal(v: int) -> Seq<char> {
    if v < 0 {
        seq!['-'] + nat_digits((-v) as nat)
    } else {
        nat_digits(v as nat)
    }
}

/// The value of a decimal digit character; -1 for any other character.
pub open spec fn digit_value(c: char) -> int {
    if c == '0' { 0 } else if c == '1' { 1 } else if c == '2' { 2 } else if c == '3' { 3 }
    else if c == '4' { 4 } else if c == '5' { 5 } else if c == '6' { 6 } else if c == '7' { 7 }
    else if c == '8' { 8 } else if c == '9' { 9 } else { -1 }
}

/// Reads a string of decimal digits as a natural number.
pub open spec fn parse_digits(s: Seq<char>) -> int
    decreases s.len(),
{
    if s.len() == 0 {
        0
    } else {
        parse_digits(s.drop_last()) * 10 + digit_value(s.last())
    }
}

/// Reads decimal text, with an optional leading `-`, as an integer.
pub open spec fn parse_decimal(s: Seq<char>) -> int {
    if s.len() > 0 && s[0] == '-' {
        -parse_digits(s.drop_first())
    } else {
        parse_digits(s)
    }
}

proof fn lemma_nat_digits(n: nat)
    ensures
        nat_digits(n).len() > 0,
        nat_digits(n)[0] != '-',
        parse_digits(nat_digits(n)) == n,
    decreases n,
{
    if n >= 10 {
        lemma_nat_digits(n / 10);
        let d = nat_digits(n);
        assert(d.drop_last() =~= nat_digits(n / 10));
        assert(digit_value(digit_char((n % 10) as int)) == n % 10);
        assert(parse_digits(d) == parse_digits(nat_digits(n / 10)) * 10 + (n % 10));
        assert((n / 10) * 10 + n % 10 == n) by (nonlinear_arith);
    } else {
        let d = nat_digits(n);
        assert(d.drop_last() =~= Seq::<char>::empty());
        assert(d.last() == digit_char(n as int));
        assert(parse_digits(d) == parse_digits(d.drop_last()) * 10 + digit_value(d.last()));
        assert(digit_value(digit_char(n as int)) == n);
    }
}

/// Decimal text reads back as the value it was written from.
pub proof fn lemma_decimal_round_trip(v: int)
    ensures
        parse_decimal(decimal(v)) == v,
{
    if v < 0 {
        lemma_nat_digits((-v) as nat);
        assert((seq!['-'] + nat_digits((-v) as nat)).drop_first() =~= nat_digits((-v) as nat));
    } else {
        lemma_nat_digits(v as nat);
    }
}

fn digit_of(d: u128) -> (r: char)
    requires
        d < 10,
    ensures
        r == digit_char(d as int),
{
    match d {
        0 => '0',
        1 => '1',
        2 => '2',
        3 => '3',
        4 => '4',
        5 => '5',
        6 => '6',
        7 => '7',
        8 => '8',
        _ => '9',
    }
}

fn digits_of(n: u128) -> (r: String)
    ensures
        r@ == nat_digits(n as nat),
    decreases n,
{
    if n < 10 {
        let mut out = String::new();
        push_char(&mut out, digit_of(n));
        out
    } else {
        let mut out = digits_of(n / 10);
        push_char(&mut out, digit_of(n % 10));
        out
    }
}

/// The decimal text of a value, as `i128`'s `Display` writes it.
pub fn decimal_string(v: i128) -> (r: String)
    ensures
        r@ == decimal(v as int),
{
    if v < 0 {
        let magnitude: u128 = if v == i128::MIN {
            (i128::MAX as u128) + 1
        } else {
            (-v) as u128
        };
        let digits = digits_of(magnitude);
        let mut out = String::new();
        push_char(&mut out, '-');
        out.append(digits.as_str());
        assert(out@ =~= seq!['-'] + nat_digits((-v) as nat));
        out
    } else {
        digits_of(v as u128)
    }
}

} // verus!
