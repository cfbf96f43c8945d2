//! Timestamps, durations and byte sizes as text.

use vstd::prelude::*;
use crate::numeral::{digit_str, digit_text, numeral, push_numeral};

verus! {

/// A whole number in decimal, with a minus sign where it is negative.
pub open spec fn signed_text(n: int) -> Seq<char> {
    if n < 0 {
        "-"@ + numeral((-n) as nat, 10)
    } else {
        numeral(n as nat, 10)
    }
}

/// The text of a timestamp: the full form on one line, the relative form
/// on the next.
pub open spec fn timestamp_text(timestamp: int) -> Seq<char> {
    "<t:"@ + signed_text(timestamp) + ">\n<t:"@ + signed_text(timestamp) + ":R>"@
}

/// Appends a whole number in decimal.
fn push_signed(text: &mut String, n: i64)
    ensures
        final(text)@ == old(text)@ + signed_text(n as int),
{
    if n < 0 {
        let magnitude: u64 = (-(n + 1)) as u64 + 1;
        text.append("-");
        push_numeral(text, magnitude, 10);
        proof {
            assert(final(text)@ =~= old(text)@ + ("-"@ + numeral((-n) as nat, 10)));
        }
    } else {
        push_numeral(text, n as u64, 10);
    }
}

/// Formats a timestamp for the platform: `<t:N>` and, on the next line, `<t:N:R>`.
pub fn format_timestamp(timestamp: i64) -> (text: String)
    ensures
        text@ == timestamp_text(timestamp as int),
{
    let mut text = String::from_str("<t:");
    push_signed(&mut text, timestamp);
    text.append(">\n<t:");
    push_signed(&mut text, timestamp);
    text.append(":R>");
    proof {
        assert(text@ =~= timestamp_text(timestamp as int));
    }
    text
}

/// A duration text with one more part: nothing for a part of zero, else
/// the number and its suffix, after a comma and a space where parts stand
/// before it.
pub open spec fn with_part(text: Seq<char>, value: nat, suffix: Seq<char>) -> Seq<char> {
    if value == 0 {
        text
    } else if text.len() == 0 {
        numeral(value, 10) + suffix
    } else {
        text + ", "@ + numeral(value, 10) + suffix
    }
}

/// The text of a duration in seconds: its days, hours, minutes and seconds,
/// those that are not zero, as in `8d, 5h, 32m, 19s`.
pub open spec fn duration_text(secs: nat) -> Seq<char> {
    with_part(
        with_part(
            with_part(with_part(Seq::empty(), secs / 86400, "d"@), (secs % 86400) / 3600, "h"@),
            (secs % 3600) / 60,
            "m"@,
        ),
        secs % 60,
        "s"@,
    )
}

/// Appends one part of a duration.
fn push_part(text: &mut String, value: u64, suffix: &str)
    ensures
        final(text)@ == with_part(old(text)@, value as nat, suffix@),
{
    if value == 0 {
        return ;
    }
    if !text.as_str().is_empty() {
        text.append(", ");
    }
    push_numeral(text, value, 10);
    text.append(suffix);
    proof {
        if old(text)@.len() == 0 {
            assert(final(text)@ =~= numeral(value as nat, 10) + suffix@);
        } else {
            assert(final(text)@ =~= old(text)@ + ", "@ + numeral(value as nat, 10) + suffix@);
        }
    }
}

/// Formats a number of seconds as days, hours, minutes and seconds,
/// leaving out what is zero; nothing at all for zero seconds.
pub fn format_duration(secs: u64) -> (text: String)
    ensures
        text@ == duration_text(secs as nat),
{
    let mut text = String::new();
    push_part(&mut text, secs / 86400, "d");
    push_part(&mut text, (secs % 86400) / 3600, "h");
    push_part(&mut text, (secs % 3600) / 60, "m");
    push_part(&mut text, secs % 60, "s");
    text
}

/// How often a byte count is divided by 1024 before it is printed: once
/// for each unit it reaches. `GB` is the largest unit, so there are three
/// divisions at most.
pub open spec fn unit_step(bytes: nat) -> int {
    if bytes < 1024 {
        0
    } else if bytes < 1024 * 1024 {
        1
    } else if bytes < 1024 * 1024 * 1024 {
        2
    } else {
        3
    }
}

/// By what a byte count is divided at a step.
pub open spec fn unit_divisor(step: int) -> nat {
    if step <= 0 {
        1
    } else if step == 1 {
        1024
    } else if step == 2 {
        1024 * 1024
    } else {
        1024 * 1024 * 1024
    }
}

/// The unit printed at a step: `B`, `KB`, `MB` and from the third on `GB`.
pub open spec fn unit_name(step: int) -> Seq<char> {
    if step <= 0 {
        "B"@
    } else if step == 1 {
        "KB"@
    } else if step == 2 {
        "MB"@
    } else {
        "GB"@
    }
}

/// `a / d` rounded to the nearest whole number, halves to the even one.
pub open spec fn round_half_even(a: nat, d: nat) -> nat {
    let q = a / d;
    let r = a % d;
    if 2 * r < d {
        q
    } else if 2 * r > d {
        q + 1
    } else if q % 2 == 0 {
        q
    } else {
        q + 1
    }
}

/// A byte count in hundredths of its unit.
pub open spec fn unit_hundredths(bytes: nat) -> nat {
    round_half_even(bytes * 100, unit_divisor(unit_step(bytes)))
}

/// The text of a byte count: the count in its unit with two decimals, a
/// space, the unit.
pub open spec fn bytes_text(bytes: nat) -> Seq<char> {
    let h = unit_hundredths(bytes);
    numeral(h / 100, 10) + "."@ + digit_text(((h % 100) / 10) as int) + digit_text((h % 10) as int)
        + " "@ + unit_name(unit_step(bytes))
}

/// Computes [`round_half_even`].
pub fn div_round_half_even(a: u128, d: u128) -> (q: u128)
    requires
        d > 0,
    ensures
        q == round_half_even(a as nat, d as nat),
{
    let q = a / d;
    let r = a % d;
    proof {
        vstd::arithmetic::div_mod::lemma_fundamental_div_mod(a as int, d as int);
        if r > 0 {
            assert(q < a) by (nonlinear_arith)
                requires
                    d * q + r == a,
                    0 < r < d,
                    q >= 0,
            ;
        }
    }
    if r < d - r {
        q
    } else if r > d - r {
        q + 1
    } else if q % 2 == 0 {
        q
    } else {
        q + 1
    }
}

/// Formats a byte count in binary units with two decimals, as in
/// `7.75 GB`. What is too large for the largest unit is counted in it all
/// the same: 1024 GB and more.
pub fn format_bytes(bytes: u64) -> (text: String)
    ensures
        text@ == bytes_text(bytes as nat),
{
    let (divisor, unit): (u128, &str) = if bytes < 1024 {
        (1, "B")
    } else if bytes < 1024 * 1024 {
        (1024, "KB")
    } else if bytes < 1024 * 1024 * 1024 {
        (1024 * 1024, "MB")
    } else {
        (1024 * 1024 * 1024, "GB")
    };
    let h = div_round_half_even((bytes as u128) * 100, divisor);
    assert(h <= bytes * 100 + 1) by (nonlinear_arith)
        requires
            h == round_half_even((bytes * 100) as nat, divisor as nat),
            divisor >= 1,
    {
        let a = (bytes * 100) as nat;
        let d = divisor as nat;
        vstd::arithmetic::div_mod::lemma_fundamental_div_mod(a as int, d as int);
        vstd::arithmetic::div_mod::lemma_mod_bound(a as int, d as int);
        assert(d * (a / d) >= a / d) by (nonlinear_arith)
            requires
                d >= 1,
                a / d >= 0,
        ;
    }
    let mut text = String::new();
    push_numeral(&mut text, (h / 100) as u64, 10);
    text.append(".");
    text.append(digit_str(((h % 100) / 10) as u32));
    text.append(digit_str((h % 10) as u32));
    text.append(" ");
    text.append(unit);
    proof {
        assert(text@ =~= bytes_text(bytes as nat));
    }
    text
}

} // verus!
