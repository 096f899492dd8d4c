//! Numbers as decimal text.

use vstd::prelude::*;

verus! {

/// The character of a decimal digit.
pub open spec fn digit_char(d: nat) -> char {
    if d == 0 {
        '0'
    } else if d == 1 {
        '1'
    } else if d == 2 {
        '2'
    } else if d == 3 {
        '3'
    } else if d == 4 {
        '4'
    } else if d == 5 {
        '5'
    } else if d == 6 {
        '6'
    } else if d == 7 {
        '7'
    } else if d == 8 {
        '8'
    } else {
        '9'
    }
}

/// The value of a decimal digit character, if it is one.
pub open spec fn digit_value(c: char) -> Option<nat> {
    if c == '0' {
        Some(0)
    } else if c == '1' {
        Some(1)
    } else if c == '2' {
        Some(2)
    } else if c == '3' {
        Some(3)
    } else if c == '4' {
        Some(4)
    } else if c == '5' {
        Some(5)
    } else if c == '6' {
        Some(6)
    } else if c == '7' {
        Some(7)
    } else if c == '8' {
        Some(8)
    } else if c == '9' {
        Some(9)
    } else {
        None
    }
}

/// A number in decimal, without sign and without leading zeros; zero is "0".
pub open spec fn decimal_text(n: nat) -> Seq<char>
    decreases n,
{
    if n < 10 {
        seq![digit_char(n)]
    } else {
        decimal_text(n / 10).push(digit_char(n % 10))
    }
}

/// The number that a run of decimal digits denotes, read with underscores
/// skipped; the empty run denotes zero. `None` where another character
/// occurs.
pub open spec fn digits_value(s: Seq<char>) -> Option<nat>
    decreases s.len(),
{
    if s.len() == 0 {
        Some(0)
    } else {
        match digits_value(s.drop_last()) {
            None => None,
            Some(front) => if s.last() == '_' {
                Some(front)
            } else {
                match digit_value(s.last()) {
                    Some(d) => Some(10 * front + d),
                    None => None,
                }
            },
        }
    }
}

/// The decimal text of a number has at least one digit.
pub proof fn lemma_decimal_text_is_not_empty(n: nat)
    ensures
        decimal_text(n).len() >= 1,
    decreases n,
{
    if n >= 10 {
        lemma_decimal_text_is_not_empty(n / 10);
    }
}

/// Zero, and no other number, is written `0`.
pub proof fn lemma_only_zero_is_written_zero(n: nat)
    ensures
        decimal_text(n) == seq!['0'] <==> n == 0,
{
    let zero = seq!['0'];
    assert(zero.len() == 1 && zero[0] == '0');
    if n == 0 {
        assert(decimal_text(n) =~= zero);
    } else if n < 10 {
        assert(decimal_text(n)[0] == digit_char(n));
    } else {
        lemma_decimal_text_is_not_empty(n / 10);
        assert(decimal_text(n).len() >= 2);
    }
}

/// Reading back the decimal text of a number gives the number.
pub proof fn lemma_decimal_text_reads_back(n: nat)
    ensures
        digits_value(decimal_text(n)) == Some(n),
    decreases n,
{
    if n < 10 {
        let s = decimal_text(n);
        assert(s.drop_last() =~= Seq::<char>::empty());
        assert(digits_value(s.drop_last()) == Some(0nat));
        assert(s.last() == digit_char(n));
    } else {
        lemma_decimal_text_reads_back(n / 10);
        let s = decimal_text(n);
        assert(s.drop_last() =~= decimal_text(n / 10));
        assert(s.last() == digit_char(n % 10));
    }
}

/// `n` in decimal.
pub fn u64_to_string(n: u64) -> (text: String)
    ensures
        text@ == decimal_text(n as nat),
{
    format_u64(n)
}

/// `u64`'s `to_string` of the standard library, which writes a number in
/// decimal, without sign and without leading zeros.
#[verifier::external_body]
fn format_u64(n: u64) -> (text: String)
    ensures
        text@ == decimal_text(n as nat),
{
    n.to_string()
}

} // verus!
