//! Numbers as they are written out for people: in decimal digits, with a
//! comma before every group of three.

use crate::outside::separate_with_commas;
use vstd::prelude::*;

verus! {

/// The character that writes the digit `digit`.
pub open spec fn digit_char(digit: int) -> char {
    if digit == 0 {
        '0'
    } else if digit == 1 {
        '1'
    } else if digit == 2 {
        '2'
    } else if digit == 3 {
        '3'
    } else if digit == 4 {
        '4'
    } else if digit == 5 {
        '5'
    } else if digit == 6 {
        '6'
    } else if digit == 7 {
        '7'
    } else if digit == 8 {
        '8'
    } else {
        '9'
    }
}

/// The decimal digits of `number`, which is not negative, without leading
/// zeros.
pub open spec fn decimal_digits(number: int) -> Seq<char>
    decreases number,
{
    if number < 10 {
        seq![digit_char(number)]
    } else {
        decimal_digits(number / 10).push(digit_char(number % 10))
    }
}

/// The decimal digits of `number`, which is not negative, with a comma
/// before every group of three digits, counted from the right.
pub open spec fn grouped_digits(number: int) -> Seq<char>
    decreases number,
{
    if number < 1000 {
        decimal_digits(number)
    } else {
        grouped_digits(number / 1000) + seq![
            ',',
            digit_char(number % 1000 / 100),
            digit_char(number % 100 / 10),
            digit_char(number % 10),
        ]
    }
}

/// `number` written out with commas: a minus sign where it is negative,
/// then its digits in groups of three.
pub open spec fn separated_with_commas(number: int) -> Seq<char> {
    if number < 0 {
        seq!['-'] + grouped_digits(-number)
    } else {
        grouped_digits(number)
    }
}

/// `number` written out with commas.
pub fn with_commas(number: i64) -> (text: String)
    ensures
        text@ == separated_with_commas(number as int),
{
    separate_with_commas(number as i128)
}

} // verus!
