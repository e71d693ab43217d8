//! Numbers as text.
use vstd::prelude::*;

verus! {

/// `String::push` of the standard library: it appends the character to the
/// end of the string and changes nothing else. This is taken on trust.
pub assume_specification[ String::push ](s: &mut String, ch: char)
    ensures
        final(s)@ == old(s)@.push(ch),
;

/// The character of a decimal digit.
pub open spec fn digit(d: int) -> char {
    ((48 + d) as u8) as char
}

/// A natural number in decimal, without leading zeros.
pub open spec fn decimal_nat(n: nat) -> Seq<char>
    decreases n,
{
    if n < 10 {
        seq![digit(n as int)]
    } else {
        decimal_nat(n / 10).push(digit((n % 10) as int))
    }
}

/// An integer in decimal, with a minus sign where it is negative.
pub open spec fn decimal(n: int) -> Seq<char> {
    if n < 0 {
        seq!['-'] + decimal_nat((-n) as nat)
    } else {
        decimal_nat(n as nat)
    }
}

/// A number below 1000 in three decimal digits, with leading zeros.
pub open spec fn padded3(n: int) -> Seq<char> {
    seq![digit(n / 100), digit((n / 10) % 10), digit(n % 10)]
}

/// A pair of integers as `(a, b)`.
pub open spec fn pair_text(a: int, b: int) -> Seq<char> {
    seq!['('] + decimal(a) + seq![',', ' '] + decimal(b) + seq![')']
}

/// The character of a decimal digit.
pub fn digit_char(d: u8) -> (c: char)
    requires
        d < 10,
    ensures
        c == digit(d as int),
{
    (48u8 + d) as char
}

/// Puts a natural number in decimal at the end of a string.
pub fn push_decimal_nat(s: &mut String, n: u64)
    ensures
        final(s)@ == old(s)@ + decimal_nat(n as nat),
    decreases n,
{
    if n >= 10 {
        push_decimal_nat(s, n / 10);
    }
    s.push(digit_char((n % 10) as u8));
    assert(s@ =~= old(s)@ + decimal_nat(n as nat));
}

/// Puts an integer in decimal at the end of a string.
pub fn push_decimal(s: &mut String, n: i32)
    ensures
        final(s)@ == old(s)@ + decimal(n as int),
{
    if n < 0 {
        s.push('-');
        push_decimal_nat(s, (-(n as i64)) as u64);
        assert(s@ =~= old(s)@ + decimal(n as int));
    } else {
        push_decimal_nat(s, n as u64);
    }
}

/// Puts a number in three decimal digits at the end of a string.
pub fn push_padded3(s: &mut String, n: u8)
    ensures
        final(s)@ == old(s)@ + padded3(n as int),
{
    s.push(digit_char(n / 100));
    s.push(digit_char((n / 10) % 10));
    s.push(digit_char(n % 10));
    assert(s@ =~= old(s)@ + padded3(n as int));
}

/// Puts a pair of integers as `(a, b)` at the end of a string.
pub fn push_pair(s: &mut String, a: i32, b: i32)
    ensures
        final(s)@ == old(s)@ + pair_text(a as int, b as int),
{
    s.push('(');
    push_decimal(s, a);
    s.push(',');
    s.push(' ');
    push_decimal(s, b);
    s.push(')');
    assert(s@ =~= old(s)@ + pair_text(a as int, b as int));
}

} // verus!
