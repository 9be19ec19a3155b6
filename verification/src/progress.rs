//! How long a training run has taken, as text.

use vstd::prelude::*;

verus! {

/// The character of a digit from 0 to 9.
pub open spec fn digit_char(digit: int) -> char {
    if digit == 0 {
        '0'
    } else if digit == 1 {
        '1'
    } else if digit == 2 {
        '2'
    } else if digit == 3 {
        '3'
    } else if digit == 4 {
        '4'
    } else if digit == 5 {
        '5'
    } else if digit == 6 {
        '6'
    } else if digit == 7 {
        '7'
    } else if digit == 8 {
        '8'
    } else {
        '9'
    }
}

/// A number in decimal digits, without leading zeros.
pub open spec fn decimal(number: nat) -> Seq<char>
    decreases number,
{
    if number < 10 {
        seq![digit_char(number as int)]
    } else {
        decimal(number / 10).push(digit_char((number % 10) as int))
    }
}

/// A number in at least two decimal digits: a zero goes before a single
/// digit.
pub open spec fn two_digits(number: nat) -> Seq<char> {
    if number < 10 {
        seq!['0'] + decimal(number)
    } else {
        decimal(number)
    }
}

/// A span of seconds as text: minutes and seconds in two digits each with a
/// colon between them, and before them the hours and a colon if there is a
/// full hour.
pub open spec fn clock_text(seconds: nat) -> Seq<char> {
    let hours = seconds / 3600;
    let minutes = (seconds % 3600) / 60;
    let rest = seconds % 60;
    let head = if hours > 0 {
        two_digits(hours) + seq![':']
    } else {
        Seq::<char>::empty()
    };
    head + two_digits(minutes) + seq![':'] + two_digits(rest)
}

/// Appends one character to a string, by `String::push` of the standard
/// library: the text afterwards is the text before with the character at its
/// end.
#[verifier::external_body]
fn push_char(text: &mut String, c: char)
    ensures
        final(text)@ == old(text)@.push(c),
{
    text.push(c);
}

fn digit_of(digit: u64) -> (c: char)
    requires
        digit < 10,
    ensures
        c == digit_char(digit as int),
{
    match digit {
        0 => '0',
        1 => '1',
        2 => '2',
        3 => '3',
        4 => '4',
        5 => '5',
        6 => '6',
        7 => '7',
        8 => '8',
        _ => '9',
    }
}

/// Appends a number in decimal digits.
fn push_decimal(text: &mut String, number: u64)
    ensures
        final(text)@ == old(text)@ + decimal(number as nat),
    decreases number,
{
    if number < 10 {
        push_char(text, digit_of(number));
        assert(text@ =~= old(text)@ + decimal(number as nat));
    } else {
        push_decimal(text, number / 10);
        push_char(text, digit_of(number % 10));
        assert(text@ =~= old(text)@ + decimal(number as nat));
    }
}

/// Appends a number in at least two decimal digits.
fn push_two_digits(text: &mut String, number: u64)
    ensures
        final(text)@ == old(text)@ + two_digits(number as nat),
{
    if number < 10 {
        push_char(text, '0');
    }
    push_decimal(text, number);
    assert(text@ =~= old(text)@ + two_digits(number as nat));
}

pub fn seconds_to_string(seconds: u64) -> (res: String)
    ensures
        res@ == clock_text(seconds as nat),
{
    let hours = seconds / 3600;
    let left = seconds - hours * 3600;
    let minutes = left / 60;
    let rest = left - minutes * 60;
    assert(minutes == (seconds % 3600) / 60 && rest == seconds % 60);

    let mut res = String::new();
    if hours > 0 {
        push_two_digits(&mut res, hours);
        push_char(&mut res, ':');
    }
    push_two_digits(&mut res, minutes);
    push_char(&mut res, ':');
    push_two_digits(&mut res, rest);
    assert(res@ =~= clock_text(seconds as nat));
    res
}

} // verus!
