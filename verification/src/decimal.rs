//! Decimal notation for natural numbers, whole and in thousandths.

use vstd::prelude::*;
use vstd::string::*;

verus! {

/// The character that writes the digit `d`.
pub open spec fn digit_char(d: nat) -> char {
    if d == 0 {
        '0'
    } else if d == 1 {
        '1'
    } else if d == 2 {
        '2'
    } else if d == 3 {
        '3'
    } else if d == 4 {
        '4'
    } else if d == 5 {
        '5'
    } else if d == 6 {
        '6'
    } else if d == 7 {
        '7'
    } else if d == 8 {
        '8'
    } else {
        '9'
    }
}

/// Whether `c` is one of the ten digits.
pub open spec fn is_digit(c: char) -> bool {
    '0' <= c <= '9'
}

/// The digit that `c` writes; nothing, that is zero, for any other character.
pub open spec fn digit_value(c: char) -> nat {
    if c == '1' {
        1
    } else if c == '2' {
        2
    } else if c == '3' {
        3
    } else if c == '4' {
        4
    } else if c == '5' {
        5
    } else if c == '6' {
        6
    } else if c == '7' {
        7
    } else if c == '8' {
        8
    } else if c == '9' {
        9
    } else {
        0
    }
}

/// The number that a row of digits writes.
pub open spec fn digits_value(s: Seq<char>) -> nat
    decreases s.len(),
{
    if s.len() == 0 {
        0
    } else {
        digits_value(s.drop_last()) * 10 + digit_value(s.last())
    }
}

/// `n` in decimal notation, without leading zeros; zero is written `0`.
pub open spec fn decimal(n: nat) -> Seq<char>
    decreases n,
{
    if n < 10 {
        seq![digit_char(n)]
    } else {
        decimal(n / 10).push(digit_char(n % 10))
    }
}

/// The three decimal places of `n` thousandths, zeros included.
pub open spec fn millesimal(n: nat) -> Seq<char> {
    seq![digit_char(n / 100 % 10), digit_char(n / 10 % 10), digit_char(n % 10)]
}

/// `n` thousandths as a decimal number with exactly three decimal places:
/// the whole part, a point, and the remainder.
pub open spec fn thousandths(n: nat) -> Seq<char> {
    decimal(n / 1000) + seq!['.'] + millesimal(n % 1000)
}

/// The digit `d` as a string of one character.
fn digit_str(d: u8) -> (out: &'static str)
    requires
        d < 10,
    ensures
        out@ == seq![digit_char(d as nat)],
{
    proof {
        reveal_strlit("0");
        reveal_strlit("1");
        reveal_strlit("2");
        reveal_strlit("3");
        reveal_strlit("4");
        reveal_strlit("5");
        reveal_strlit("6");
        reveal_strlit("7");
        reveal_strlit("8");
        reveal_strlit("9");
    }
    let out: &'static str = if d == 0 {
        "0"
    } else if d == 1 {
        "1"
    } else if d == 2 {
        "2"
    } else if d == 3 {
        "3"
    } else if d == 4 {
        "4"
    } else if d == 5 {
        "5"
    } else if d == 6 {
        "6"
    } else if d == 7 {
        "7"
    } else if d == 8 {
        "8"
    } else {
        "9"
    };
    assert(out@ =~= seq![digit_char(d as nat)]);
    out
}

/// Appends `n` in decimal notation to `out`.
pub fn push_decimal(out: &mut String, n: u128)
    ensures
        final(out)@ == old(out)@ + decimal(n as nat),
    decreases n,
{
    if n >= 10 {
        push_decimal(out, n / 10);
    }
    let last: u8 = (n % 10) as u8;
    out.append(digit_str(last));
    assert(final(out)@ =~= old(out)@ + decimal(n as nat));
}

/// Appends the three decimal places of `n` thousandths to `out`.
fn push_millesimal(out: &mut String, n: u128)
    requires
        n < 1000,
    ensures
        final(out)@ == old(out)@ + millesimal(n as nat),
{
    let hundreds: u8 = (n / 100 % 10) as u8;
    let tens: u8 = (n / 10 % 10) as u8;
    let ones: u8 = (n % 10) as u8;
    out.append(digit_str(hundreds));
    out.append(digit_str(tens));
    out.append(digit_str(ones));
    assert(final(out)@ =~= old(out)@ + millesimal(n as nat));
}

/// Appends `n` thousandths, written with three decimal places, to `out`.
pub fn push_thousandths(out: &mut String, n: u128)
    ensures
        final(out)@ == old(out)@ + thousandths(n as nat),
{
    push_decimal(out, n / 1000);
    proof {
        reveal_strlit(".");
    }
    out.append(".");
    push_millesimal(out, n % 1000);
    assert(final(out)@ =~= old(out)@ + thousandths(n as nat));
}

/// Decimal notation uses digits only, and at least one.
pub proof fn lemma_decimal_digits(n: nat)
    ensures
        decimal(n).len() >= 1,
        forall|i: int| 0 <= i < decimal(n).len() ==> is_digit(#[trigger] decimal(n)[i]),
    decreases n,
{
    if n >= 10 {
        lemma_decimal_digits(n / 10);
    }
}

/// Decimal notation reads back as the number it was written for, so two
/// numbers are written alike only where they are the same number.
pub proof fn lemma_decimal_reads_back(n: nat)
    ensures
        digits_value(decimal(n)) == n,
    decreases n,
{
    if n < 10 {
        assert(decimal(n).drop_last() =~= Seq::<char>::empty());
        assert(digits_value(decimal(n).drop_last()) == 0);
    } else {
        lemma_decimal_reads_back(n / 10);
        assert(decimal(n).drop_last() =~= decimal(n / 10));
    }
}

/// The three decimal places read back as the thousandths they were written
/// for, and so does a number written in thousandths: whole part times a
/// thousand, plus the places.
pub proof fn lemma_thousandths_read_back(n: nat)
    ensures
        digits_value(millesimal(n % 1000)) == n % 1000,
        digits_value(decimal(n / 1000)) * 1000 + digits_value(millesimal(n % 1000)) == n,
{
    let r = n % 1000;
    let places = millesimal(r);
    let two = places.drop_last();
    let one = two.drop_last();
    assert(two =~= seq![digit_char(r / 100 % 10), digit_char(r / 10 % 10)]);
    assert(one =~= seq![digit_char(r / 100 % 10)]);
    assert(one.drop_last() =~= Seq::<char>::empty());
    assert(digits_value(one.drop_last()) == 0);
    assert(digits_value(one) == r / 100 % 10);
    assert(digits_value(two) == (r / 100 % 10) * 10 + r / 10 % 10);
    assert(digits_value(places) == digits_value(two) * 10 + r % 10);
    lemma_decimal_reads_back(n / 1000);
}

/// A number has no leading zero unless it is zero itself.
pub proof fn lemma_decimal_no_leading_zero(n: nat)
    ensures
        decimal(n)[0] == '0' <==> n == 0,
    decreases n,
{
    if n >= 10 {
        lemma_decimal_digits(n / 10);
        lemma_decimal_no_leading_zero(n / 10);
    }
}

} // verus!
