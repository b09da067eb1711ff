//! Whole numbers in decimal digits.

use vstd::prelude::*;
use vstd::string::*;
use crate::option_text::{digits_of, digits_value, is_digit, number_of};

verus! {

/// The digit of a number below ten.
pub open spec fn digit_char(digit: int) -> char {
    if digit <= 0 {
        '0'
    } else if digit == 1 {
        '1'
    } else if digit == 2 {
        '2'
    } else if digit == 3 {
        '3'
    } else if digit == 4 {
        '4'
    } else if digit == 5 {
        '5'
    } else if digit == 6 {
        '6'
    } else if digit == 7 {
        '7'
    } else if digit == 8 {
        '8'
    } else {
        '9'
    }
}

/// A number in decimal digits, without leading zeros.
pub open spec fn decimal_text(number: nat) -> Seq<char>
    decreases number,
{
    if number < 10 {
        seq![digit_char(number as int)]
    } else {
        decimal_text(number / 10).push(digit_char((number % 10) as int))
    }
}

/// The digit of a number below ten.
fn digit_text(digit: usize) -> (text: &'static str)
    requires
        digit < 10,
    ensures
        text@ == seq![digit_char(digit as int)],
{
    proof {
        reveal_strlit("0");
        reveal_strlit("1");
        reveal_strlit("2");
        reveal_strlit("3");
        reveal_strlit("4");
        reveal_strlit("5");
        reveal_strlit("6");
        reveal_strlit("7");
        reveal_strlit("8");
        reveal_strlit("9");
    }
    let text: &'static str = match digit {
        0 => "0",
        1 => "1",
        2 => "2",
        3 => "3",
        4 => "4",
        5 => "5",
        6 => "6",
        7 => "7",
        8 => "8",
        _ => "9",
    };
    assert(text@ =~= seq![digit_char(digit as int)]);
    text
}

/// A number in decimal digits.
pub fn decimal(number: usize) -> (text: String)
    ensures
        text@ == decimal_text(number as nat),
    decreases number,
{
    if number < 10 {
        digit_text(number).to_owned()
    } else {
        let mut text: String = decimal(number / 10);
        text.append(digit_text(number % 10));
        assert(text@ =~= decimal_text(number as nat));
        text
    }
}

/// The digits of a number give the number.
proof fn decimal_digits_have_value(number: nat)
    ensures
        decimal_text(number).len() > 0,
        forall|k: int|
            0 <= k < decimal_text(number).len() ==> is_digit(#[trigger] decimal_text(number)[k]),
        digits_value(decimal_text(number)) == number,
    decreases number,
{
    let text = decimal_text(number);
    if number < 10 {
        assert(text.drop_last() =~= Seq::<char>::empty());
        assert(digits_value(text.drop_last()) == 0);
    } else {
        decimal_digits_have_value(number / 10);
        assert(text.drop_last() =~= decimal_text(number / 10));
    }
}

/// A number that is written is read as itself.
pub proof fn written_number_is_read_back(number: usize)
    ensures
        number_of(decimal_text(number as nat)) == Some(number as int),
{
    decimal_digits_have_value(number as nat);
    assert(is_digit(decimal_text(number as nat)[0]));
    assert(digits_of(decimal_text(number as nat)) == decimal_text(number as nat));
}

} // verus!
