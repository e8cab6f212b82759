//! Human-readable rendering of byte counts.
//!
//! A byte count is shown in the largest of the units B, KB, MB, GB and TB
//! (steps of 1024) in which it is at least one, with exactly two decimal
//! places. The two decimals are those of the exact quotient, rounded to the
//! nearest hundredth; a quotient that lies exactly halfway between two
//! hundredths goes to the even one.

use vstd::prelude::*;
use vstd::string::*;

verus! {

/// Bytes in one kilobyte.
pub const KILOBYTE: u64 = 1024;

/// Bytes in one megabyte.
pub const MEGABYTE: u64 = 1_048_576;

/// Bytes in one gigabyte.
pub const GIGABYTE: u64 = 1_073_741_824;

/// Bytes in one terabyte.
pub const TERABYTE: u64 = 1_099_511_627_776;

/// The position of the unit in which `size` is shown: 0 for B up to 4 for TB.
pub open spec fn unit_index(size: nat) -> nat {
    if size < KILOBYTE {
        0
    } else if size < MEGABYTE {
        1
    } else if size < GIGABYTE {
        2
    } else if size < TERABYTE {
        3
    } else {
        4
    }
}

/// The number of bytes in one unit at position `index`.
pub open spec fn unit_size(index: nat) -> nat {
    if index == 0 {
        1
    } else if index == 1 {
        KILOBYTE as nat
    } else if index == 2 {
        MEGABYTE as nat
    } else if index == 3 {
        GIGABYTE as nat
    } else {
        TERABYTE as nat
    }
}

/// The label of the unit at position `index`.
pub open spec fn unit_label(index: nat) -> Seq<char> {
    if index == 0 {
        seq!['B']
    } else if index == 1 {
        seq!['K', 'B']
    } else if index == 2 {
        seq!['M', 'B']
    } else if index == 3 {
        seq!['G', 'B']
    } else {
        seq!['T', 'B']
    }
}

/// `numerator / denominator` rounded to the nearest integer, ties to even.
pub open spec fn round_half_even(numerator: nat, denominator: nat) -> nat {
    let quotient = numerator / denominator;
    let remainder = numerator % denominator;
    if 2 * remainder > denominator || (2 * remainder == denominator && quotient % 2 == 1) {
        quotient + 1
    } else {
        quotient
    }
}

/// `size` in hundredths of its display unit, rounded.
pub open spec fn hundredths(size: nat) -> nat {
    round_half_even(size * 100, unit_size(unit_index(size)))
}

/// The character of a decimal digit.
pub open spec fn digit_char(digit: nat) -> char {
    if digit == 0 {
        '0'
    } else if digit == 1 {
        '1'
    } else if digit == 2 {
        '2'
    } else if digit == 3 {
        '3'
    } else if digit == 4 {
        '4'
    } else if digit == 5 {
        '5'
    } else if digit == 6 {
        '6'
    } else if digit == 7 {
        '7'
    } else if digit == 8 {
        '8'
    } else {
        '9'
    }
}

/// The decimal numeral of `n`, without leading zeros.
pub open spec fn decimal(n: nat) -> Seq<char>
    decreases n,
{
    if n < 10 {
        seq![digit_char(n)]
    } else {
        decimal(n / 10).push(digit_char(n % 10))
    }
}

/// The rendering of a byte count: whole part, a point, two decimals, a space
/// and the unit label.
pub open spec fn size_text(size: nat) -> Seq<char> {
    let h = hundredths(size);
    decimal(h / 100) + seq!['.', digit_char((h / 10) % 10), digit_char(h % 10), ' ']
        + unit_label(unit_index(size))
}

/// The text of one decimal digit.
fn digit_str(digit: u64) -> (text: &'static str)
    requires
        digit < 10,
    ensures
        text@ == seq![digit_char(digit as nat)],
{
    proof {
        reveal_strlit("0");
        reveal_strlit("1");
        reveal_strlit("2");
        reveal_strlit("3");
        reveal_strlit("4");
        reveal_strlit("5");
        reveal_strlit("6");
        reveal_strlit("7");
        reveal_strlit("8");
        reveal_strlit("9");
    }
    let text = if digit == 0 {
        "0"
    } else if digit == 1 {
        "1"
    } else if digit == 2 {
        "2"
    } else if digit == 3 {
        "3"
    } else if digit == 4 {
        "4"
    } else if digit == 5 {
        "5"
    } else if digit == 6 {
        "6"
    } else if digit == 7 {
        "7"
    } else if digit == 8 {
        "8"
    } else {
        "9"
    };
    assert(text@ =~= seq![digit_char(digit as nat)]);
    text
}

/// Appends the decimal numeral of `n` to `out`.
fn push_decimal(out: &mut String, n: u64)
    ensures
        final(out)@ == old(out)@ + decimal(n as nat),
    decreases n,
{
    if n >= 10 {
        push_decimal(out, n / 10);
    }
    out.append(digit_str(n % 10));
    assert(final(out)@ =~= old(out)@ + decimal(n as nat));
}

/// The position of the display unit of `size`.
fn unit_of(size: u64) -> (index: usize)
    ensures
        index == unit_index(size as nat),
{
    if size < KILOBYTE {
        0
    } else if size < MEGABYTE {
        1
    } else if size < GIGABYTE {
        2
    } else if size < TERABYTE {
        3
    } else {
        4
    }
}

/// The label of the unit at position `index`.
fn label_of(index: usize) -> (label: &'static str)
    requires
        index <= 4,
    ensures
        label@ == unit_label(index as nat),
{
    proof {
        reveal_strlit("B");
        reveal_strlit("KB");
        reveal_strlit("MB");
        reveal_strlit("GB");
        reveal_strlit("TB");
    }
    let label = if index == 0 {
        "B"
    } else if index == 1 {
        "KB"
    } else if index == 2 {
        "MB"
    } else if index == 3 {
        "GB"
    } else {
        "TB"
    };
    assert(label@ =~= unit_label(index as nat));
    label
}

/// `size` in hundredths of its display unit.
fn hundredths_of(size: u64) -> (h: u64)
    ensures
        h == hundredths(size as nat),
        h <= 1_677_721_600,
{
    let scaled: u128 = (size as u128) * 100;
    let (quotient, remainder, unit): (u128, u128, u128) = if size < KILOBYTE {
        (scaled, 0, 1)
    } else if size < MEGABYTE {
        (scaled / 1024, scaled % 1024, 1024)
    } else if size < GIGABYTE {
        (scaled / 1_048_576, scaled % 1_048_576, 1_048_576)
    } else if size < TERABYTE {
        (scaled / 1_073_741_824, scaled % 1_073_741_824, 1_073_741_824)
    } else {
        (scaled / 1_099_511_627_776, scaled % 1_099_511_627_776, 1_099_511_627_776)
    };
    let rounded: u128 = if 2 * remainder > unit || (2 * remainder == unit && quotient % 2 == 1) {
        quotient + 1
    } else {
        quotient
    };
    rounded as u64
}

/// Renders a byte count for people: the count in the largest unit of B, KB,
/// MB, GB, TB in which it is at least one, with two decimal places.
pub fn human_readable_size(size: u64) -> (text: String)
    ensures
        text@ == size_text(size as nat),
{
    let index = unit_of(size);
    let h = hundredths_of(size);
    let mut text = String::new();
    push_decimal(&mut text, h / 100);
    text.append(".");
    text.append(digit_str((h / 10) % 10));
    text.append(digit_str(h % 10));
    text.append(" ");
    text.append(label_of(index));
    proof {
        reveal_strlit(".");
        reveal_strlit(" ");
        assert(text@ =~= size_text(size as nat));
    }
    text
}

} // verus!
