//! Decimal text for the numbers that the settings screen shows.

use vstd::prelude::*;

verus! {

/// The character of the decimal digit `d` (0 to 9).
pub open spec fn spec_digit(d: int) -> char {
    (48 + d) as char
}

/// The decimal numeral of `n`, without leading zeros.
pub open spec fn spec_decimal(n: nat) -> Seq<char>
    decreases n,
{
    if n < 10 {
        seq![spec_digit(n as int)]
    } else {
        spec_decimal(n / 10) + seq![spec_digit((n % 10) as int)]
    }
}

/// The one-character text of digit `d`.
fn digit_text(d: u64) -> (r: &'static str)
    requires
        d < 10,
    ensures
        r@ == seq![spec_digit(d as int)],
{
    proof {
        reveal_strlit("0");
        reveal_strlit("1");
        reveal_strlit("2");
        reveal_strlit("3");
        reveal_strlit("4");
        reveal_strlit("5");
        reveal_strlit("6");
        reveal_strlit("7");
        reveal_strlit("8");
        reveal_strlit("9");
    }
    match d {
        0 => "0",
        1 => "1",
        2 => "2",
        3 => "3",
        4 => "4",
        5 => "5",
        6 => "6",
        7 => "7",
        8 => "8",
        _ => "9",
    }
}

/// Appends the decimal numeral of `n` to `s`.
pub fn push_decimal(s: &mut String, n: u128)
    ensures
        final(s)@ == old(s)@ + spec_decimal(n as nat),
    decreases n,
{
    if n >= 10 {
        push_decimal(s, n / 10);
    }
    s.append(digit_text((n % 10) as u64));
    proof {
        assert(s@ =~= old(s)@ + spec_decimal(n as nat));
    }
}

/// Appends `n` (below 1000) as exactly three digits, with leading zeros.
pub fn push_three_digits(s: &mut String, n: u64)
    requires
        n < 1000,
    ensures
        final(s)@ == old(s)@ + seq![
            spec_digit((n / 100) as int),
            spec_digit((n / 10 % 10) as int),
            spec_digit((n % 10) as int),
        ],
{
    s.append(digit_text(n / 100));
    s.append(digit_text(n / 10 % 10));
    s.append(digit_text(n % 10));
    proof {
        assert(s@ =~= old(s)@ + seq![
            spec_digit((n / 100) as int),
            spec_digit((n / 10 % 10) as int),
            spec_digit((n % 10) as int),
        ]);
    }
}

/// The decimal numeral of `n` with at least two digits.
pub open spec fn spec_two_digits(n: nat) -> Seq<char> {
    if n < 10 {
        seq!['0'] + spec_decimal(n)
    } else {
        spec_decimal(n)
    }
}

/// A run time as `MM:SS` (minutes with at least two digits), whole seconds
/// rounded down; a negative time shows as `00:00`.
pub open spec fn spec_duration_text(elapsed_micros: int) -> Seq<char> {
    let seconds: int = if elapsed_micros < 0 { 0 } else { elapsed_micros / 1_000_000 };
    spec_two_digits((seconds / 60) as nat) + seq![':'] + spec_two_digits((seconds % 60) as nat)
}

fn push_two_digits(s: &mut String, n: u128)
    ensures
        final(s)@ == old(s)@ + spec_two_digits(n as nat),
{
    if n < 10 {
        s.append("0");
        proof {
            reveal_strlit("0");
        }
    }
    push_decimal(s, n);
    proof {
        assert(s@ =~= old(s)@ + spec_two_digits(n as nat));
    }
}

/// The text of a run time of `elapsed_micros` microseconds, such as `01:05`.
pub fn format_duration(elapsed_micros: i128) -> (r: String)
    ensures
        r@ == spec_duration_text(elapsed_micros as int),
{
    let seconds: u128 = if elapsed_micros < 0 {
        0
    } else {
        (elapsed_micros as u128) / 1_000_000
    };
    let mut text = String::new();
    push_two_digits(&mut text, seconds / 60);
    text.append(":");
    push_two_digits(&mut text, seconds % 60);
    proof {
        reveal_strlit(":");
        assert(text@ =~= spec_duration_text(elapsed_micros as int));
    }
    text
}

} // verus!
