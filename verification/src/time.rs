//! Durations written as text: a bare number of seconds, or numbers with
//! units, such as `1h 30m` or `1.5e3 ms`.

use vstd::prelude::*;
use vstd::arithmetic::power::{lemma_pow1, lemma_pow_adds, lemma_pow_increases, lemma_pow_positive, pow};
use crate::bignum::{
    big_add, big_digits, big_div, big_from, big_mul, big_parse, big_pow10, big_to_u64, big_value,
    decimal_digits,
};
use crate::error::AsahiError;
use crate::pattern::{capture_all, capture_first, regex_capture, regex_matches, Groups, GroupsView};
use crate::text::{all_digits, ascii_lower, decimal_value, is_digits, is_text, to_lower};

verus! {

/// A text that is nothing but a number.
pub const NUMBER_PATTERN: &'static str = "^(\\d+)$";

/// One part of a duration: a whole number, an optional fraction after a
/// dot, an optional power of ten after `e`, and a unit of letters. The
/// groups are, in order: number, fraction, exponent, unit.
pub const DURATION_PATTERN: &'static str =
    "(\\d+)(?:\\.(\\d+))?(?:e(-?\\d+))?\\s*([a-zA-Z]+)";

/// Nanoseconds in a second.
pub const NANOS_PER_SEC: u64 = 1_000_000_000;

/// A span of time: whole seconds and the nanoseconds beyond them.
#[derive(Debug, Clone, Copy, PartialEq, Eq, Structural)]
pub struct Span {
    pub secs: u64,
    pub nanos: u32,
}

/// The span of a number of nanoseconds that fits in 64 bits.
pub open spec fn span_of_nanos(nanos: nat) -> Span {
    Span { secs: (nanos / NANOS_PER_SEC as nat) as u64, nanos: (nanos % NANOS_PER_SEC as nat) as u32 }
}

/// How many nanoseconds a unit has, by any of its names in lower case.
pub open spec fn unit_nanos(name: Seq<char>) -> Option<u64> {
    if name == "ns"@ || name == "nanosecond"@ || name == "nanoseconds"@ {
        Some(1)
    } else if name == "us"@ || name == "microsecond"@ || name == "microseconds"@ {
        Some(1_000)
    } else if name == "ms"@ || name == "millisecond"@ || name == "milliseconds"@ {
        Some(1_000_000)
    } else if name == "s"@ || name == "secs"@ || name == "second"@ || name == "seconds"@ {
        Some(1_000_000_000)
    } else if name == "m"@ || name == "mins"@ || name == "min"@ || name == "minute"@ || name
        == "minutes"@ {
        Some(60_000_000_000)
    } else if name == "h"@ || name == "hr"@ || name == "hrs"@ || name == "hour"@ || name
        == "hours"@ {
        Some(3_600_000_000_000)
    } else if name == "d"@ || name == "day"@ || name == "days"@ {
        Some(86_400_000_000_000)
    } else if name == "w"@ || name == "wk"@ || name == "wks"@ || name == "week"@ || name
        == "weeks"@ {
        Some(604_800_000_000_000)
    } else if name == "mo"@ || name == "month"@ || name == "months"@ {
        Some(2_629_746_000_000_000)
    } else if name == "y"@ || name == "year"@ || name == "years"@ {
        Some(31_556_952_000_000_000)
    } else {
        None
    }
}

/// Computes [`unit_nanos`].
pub fn unit_multiplier(name: &String) -> (nanos: Option<u64>)
    ensures
        nanos == unit_nanos(name@),
{
    if is_text(name, "ns") || is_text(name, "nanosecond") || is_text(name, "nanoseconds") {
        Some(1)
    } else if is_text(name, "us") || is_text(name, "microsecond") || is_text(
        name,
        "microseconds",
    ) {
        Some(1_000)
    } else if is_text(name, "ms") || is_text(name, "millisecond") || is_text(
        name,
        "milliseconds",
    ) {
        Some(1_000_000)
    } else if is_text(name, "s") || is_text(name, "secs") || is_text(name, "second") || is_text(
        name,
        "seconds",
    ) {
        Some(1_000_000_000)
    } else if is_text(name, "m") || is_text(name, "mins") || is_text(name, "min") || is_text(
        name,
        "minute",
    ) || is_text(name, "minutes") {
        Some(60_000_000_000)
    } else if is_text(name, "h") || is_text(name, "hr") || is_text(name, "hrs") || is_text(
        name,
        "hour",
    ) || is_text(name, "hours") {
        Some(3_600_000_000_000)
    } else if is_text(name, "d") || is_text(name, "day") || is_text(name, "days") {
        Some(86_400_000_000_000)
    } else if is_text(name, "w") || is_text(name, "wk") || is_text(name, "wks") || is_text(
        name,
        "week",
    ) || is_text(name, "weeks") {
        Some(604_800_000_000_000)
    } else if is_text(name, "mo") || is_text(name, "month") || is_text(name, "months") {
        Some(2_629_746_000_000_000)
    } else if is_text(name, "y") || is_text(name, "year") || is_text(name, "years") {
        Some(31_556_952_000_000_000)
    } else {
        None
    }
}

/// Ten to a power.
pub open spec fn pow10(e: nat) -> nat {
    pow(10, e) as nat
}

/// A count or an exponent as the 32 bits that a power is raised to.
pub open spec fn low32(v: nat) -> nat {
    v % 0x1_0000_0000
}

/// The exponent that a text writes: digits, after a minus sign where it
/// is negative, within the range of a machine word; its sign and its size.
pub open spec fn exponent_of(text: Seq<char>) -> Option<(bool, nat)> {
    let negative = text.len() > 0 && text[0] == '-';
    let digits = if negative {
        text.subrange(1, text.len() as int)
    } else {
        text
    };
    if !is_digits(digits) {
        None
    } else if negative {
        if decimal_value(digits) <= isize::MAX + 1 {
            Some((true, decimal_value(digits)))
        } else {
            None
        }
    } else if decimal_value(digits) <= isize::MAX {
        Some((false, decimal_value(digits)))
    } else {
        None
    }
}

/// A number of nanoseconds with a power of ten applied: multiplied by it,
/// or for a negative exponent divided by it, rounding down.
pub open spec fn scaled(total: nat, negative: bool, size: nat) -> nat {
    if negative {
        total / pow10(low32(size))
    } else {
        total * pow10(low32(size))
    }
}

/// The nanoseconds of a whole number with an optional fraction, in a unit.
/// The fraction counts as its digits without leading zeros, over ten to
/// their number.
pub open spec fn mantissa_nanos(number: nat, fraction: Option<nat>, unit: nat) -> nat {
    match fraction {
        None => number * unit,
        Some(f) => number * unit + (f * unit) / pow10(low32(decimal_digits(f))),
    }
}

/// The nanoseconds that one part of a duration stands for, or what is
/// wrong with it: the first of an unknown unit, a number, a fraction or an
/// exponent that cannot be read.
pub open spec fn part_nanos(part: GroupsView) -> Result<nat, Seq<char>> {
    match part.fourth {
        None => Err("missing unit"@),
        Some(unit) => match unit_nanos(ascii_lower(unit)) {
            None => Err("unknown unit: "@ + unit),
            Some(nanos) => match part.first {
                None => Err("missing number"@),
                Some(number) => if !is_digits(number) {
                    Err("invalid integer"@)
                } else if part.second is Some && !is_digits(part.second->Some_0) {
                    Err("invalid decimal"@)
                } else {
                    let fraction = match part.second {
                        Some(f) => Some(decimal_value(f)),
                        None => None,
                    };
                    let total = mantissa_nanos(decimal_value(number), fraction, nanos as nat);
                    match part.third {
                        None => Ok(total),
                        Some(e) => match exponent_of(e) {
                            None => Err("invalid exponent"@),
                            Some((negative, size)) => Ok(scaled(total, negative, size)),
                        },
                    }
                },
            },
        },
    }
}

/// The nanoseconds of the first `count` parts together, or what is wrong
/// with the first part that cannot be read.
pub open spec fn parts_nanos(parts: Seq<GroupsView>, count: int) -> Result<nat, Seq<char>>
    decreases count,
{
    if count <= 0 {
        Ok(0)
    } else {
        match parts_nanos(parts, count - 1) {
            Err(e) => Err(e),
            Ok(sum) => match part_nanos(parts[count - 1]) {
                Err(e) => Err(e),
                Ok(nanos) => Ok(sum + nanos),
            },
        }
    }
}

/// What a text means as a duration. A text that is nothing but a number
/// counts seconds. Any other text is read part by part, each a number with
/// a unit, and the parts add up; it must hold one part at least, and the
/// sum must fit in 64 bits of nanoseconds. The error says what is wrong.
pub open spec fn duration_of(input: Seq<char>) -> Result<Span, Seq<char>> {
    match regex_capture(NUMBER_PATTERN@, input) {
        Some((_, number, _)) => if !is_digits(number) {
            Err("invalid number"@)
        } else if decimal_value(number) > u64::MAX {
            Err("number too large"@)
        } else {
            Ok(Span { secs: decimal_value(number) as u64, nanos: 0 })
        },
        None => {
            let parts = regex_matches(DURATION_PATTERN@, input);
            if parts.len() == 0 {
                Err("no value or unit found"@)
            } else {
                match parts_nanos(parts, parts.len() as int) {
                    Err(e) => Err(e),
                    Ok(nanos) => if nanos > u64::MAX {
                        Err("duration too large"@)
                    } else {
                        Ok(span_of_nanos(nanos))
                    },
                }
            }
        },
    }
}

/// A number of nanoseconds: held exactly, or known to be beyond 64 bits.
pub enum Amount {
    Exact(num_bigint::BigUint),
    Beyond,
}

impl Amount {
    /// The amount stands for the number `v`.
    pub open spec fn stands_for(self, v: nat) -> bool {
        match self {
            Amount::Exact(n) => big_value(n) == v,
            Amount::Beyond => v > u64::MAX,
        }
    }
}

/// A result is the error of parsing with the given message.
pub open spec fn is_parse_error<T>(out: Result<T, AsahiError>, message: Seq<char>) -> bool {
    out matches Err(AsahiError::Parse(m)) && m@ == message
}

/// The error of parsing with a message.
fn parse_error<T>(message: &str) -> (out: Result<T, AsahiError>)
    ensures
        is_parse_error(out, message@),
{
    Err(AsahiError::Parse(String::from_str(message)))
}

/// Ten to the twentieth power is beyond 64 bits.
proof fn lemma_pow10_20()
    ensures
        pow(10, 20) == 100_000_000_000_000_000_000int,
{
    lemma_pow1(10);
    lemma_pow_adds(10, 1, 1);
    lemma_pow_adds(10, 2, 2);
    lemma_pow_adds(10, 4, 1);
    lemma_pow_adds(10, 5, 5);
    lemma_pow_adds(10, 10, 10);
    let hundred = pow(10, 2);
    let myriad = pow(10, 4);
    let lakh = pow(10, 5);
    let ten_milliard = pow(10, 10);
    assert(hundred == 100);
    assert(myriad == 10_000) by (nonlinear_arith)
        requires
            myriad == hundred * hundred,
            hundred == 100,
    ;
    assert(lakh == 100_000);
    assert(ten_milliard == 10_000_000_000int) by (nonlinear_arith)
        requires
            ten_milliard == lakh * lakh,
            lakh == 100_000,
    ;
    assert(pow(10, 20) == 100_000_000_000_000_000_000int) by (nonlinear_arith)
        requires
            pow(10, 20) == ten_milliard * ten_milliard,
            ten_milliard == 10_000_000_000int,
    ;
}

/// Once a part cannot be read, the error stays whatever follows.
proof fn lemma_parts_error(parts: Seq<GroupsView>, n: int, count: int)
    requires
        0 <= n <= count,
        parts_nanos(parts, n) is Err,
    ensures
        parts_nanos(parts, count) == parts_nanos(parts, n),
    decreases count - n,
{
    if n < count {
        lemma_parts_error(parts, n, count - 1);
    }
}

/// A number is below ten to the number of its digits.
proof fn lemma_below_pow10(n: nat)
    ensures
        n < pow(10, decimal_digits(n)),
    decreases n,
{
    lemma_pow1(10);
    if n >= 10 {
        lemma_below_pow10(n / 10);
        lemma_pow_adds(10, decimal_digits(n / 10), 1);
        vstd::arithmetic::div_mod::lemma_fundamental_div_mod(n as int, 10);
        assert(n < (n / 10 + 1) * 10);
        assert((n / 10 + 1) * 10 <= pow(10, decimal_digits(n / 10)) * 10) by (nonlinear_arith)
            requires
                n / 10 + 1 <= pow(10, decimal_digits(n / 10)),
        ;
    }
}

/// Applies a power of ten to a number of nanoseconds.
fn apply_exponent(total: num_bigint::BigUint, negative: bool, power: u32) -> (out: Amount)
    ensures
        out.stands_for(
            if negative {
                big_value(total) / pow10(power as nat)
            } else {
                big_value(total) * pow10(power as nat)
            },
        ),
{
    proof {
        lemma_pow_positive(10, power as nat);
    }
    if negative {
        let digits = big_digits(&total);
        if power as usize >= digits {
            proof {
                lemma_below_pow10(big_value(total));
                lemma_pow_increases(10, decimal_digits(big_value(total)), power as nat);
                vstd::arithmetic::div_mod::lemma_basic_div(
                    big_value(total) as int,
                    pow(10, power as nat),
                );
            }
            Amount::Exact(big_from(0))
        } else {
            let factor = big_pow10(power);
            Amount::Exact(big_div(&total, &factor))
        }
    } else if power < 20 {
        let factor = big_pow10(power);
        Amount::Exact(big_mul(&total, &factor))
    } else {
        match big_to_u64(&total) {
            Some(0) => {
                assert(big_value(total) * pow10(power as nat) == 0) by (nonlinear_arith)
                    requires
                        big_value(total) == 0,
                ;
                Amount::Exact(total)
            },
            _ => {
                proof {
                    lemma_pow10_20();
                    lemma_pow_increases(10, 20, power as nat);
                    assert(big_value(total) * pow(10, power as nat) >= pow(10, 20))
                        by (nonlinear_arith)
                        requires
                            big_value(total) >= 1,
                            pow(10, power as nat) >= pow(10, 20),
                            pow(10, 20) >= 0,
                    ;
                }
                Amount::Beyond
            },
        }
    }
}

/// Reads an exponent: its sign and the power of ten it asks for.
fn read_exponent(text: &str) -> (out: Option<(bool, u32)>)
    ensures
        match exponent_of(text@) {
            Some((negative, size)) => out == Some((negative, low32(size) as u32)),
            None => out is None,
        },
{
    let count = text.unicode_len();
    let negative = count > 0 && text.get_char(0) == '-';
    let digits = if negative {
        text.substring_char(1, count)
    } else {
        text
    };
    if !all_digits(digits) {
        return None;
    }
    let value = big_parse(digits);
    match big_to_u64(&value) {
        None => None,
        Some(v) => {
            let most: u64 = if negative {
                isize::MAX as u64 + 1
            } else {
                isize::MAX as u64
            };
            if v > most {
                None
            } else {
                let power: u32 = #[verifier::truncate] (v as u32);
                assert(power == v % 0x1_0000_0000) by (bit_vector)
                    requires
                        power == v as u32,
                ;
                Some((negative, power))
            }
        },
    }
}

/// Reads one part of a duration.
fn read_part(part: &Groups) -> (out: Result<Amount, AsahiError>)
    ensures
        match part_nanos(part@) {
            Ok(nanos) => out matches Ok(amount) && amount.stands_for(nanos),
            Err(message) => is_parse_error(out, message),
        },
{
    let unit = match &part.fourth {
        Some(u) => u,
        None => {
            return parse_error("missing unit");
        },
    };
    let lower = to_lower(unit.as_str());
    let nanos = match unit_multiplier(&lower) {
        Some(n) => n,
        None => {
            let mut message = String::from_str("unknown unit: ");
            message.append(unit.as_str());
            return Err(AsahiError::Parse(message));
        },
    };
    let number = match &part.first {
        Some(n) => n,
        None => {
            return parse_error("missing number");
        },
    };
    if !all_digits(number.as_str()) {
        return parse_error("invalid integer");
    }
    let unit_big = big_from(nanos);
    let mut total = big_mul(&big_parse(number.as_str()), &unit_big);
    match &part.second {
        Some(fraction) => {
            if !all_digits(fraction.as_str()) {
                return parse_error("invalid decimal");
            }
            let f = big_parse(fraction.as_str());
            let count = big_digits(&f);
            let places: u32 = #[verifier::truncate] (count as u32);
            assert(places == low32(count as nat)) by {
                let wide = count as u64;
                assert(wide as u32 == wide % 0x1_0000_0000) by (bit_vector);
            }
            let scale = big_pow10(places);
            proof {
                lemma_pow_positive(10, places as nat);
            }
            let share = big_div(&big_mul(&f, &unit_big), &scale);
            total = big_add(&total, &share);
        },
        None => {},
    }
    match &part.third {
        None => Ok(Amount::Exact(total)),
        Some(e) => match read_exponent(e.as_str()) {
            None => parse_error("invalid exponent"),
            Some((negative, power)) => Ok(apply_exponent(total, negative, power)),
        },
    }
}

/// The span of a number of nanoseconds.
pub fn span_from_nanos(nanos: u64) -> (span: Span)
    ensures
        span == span_of_nanos(nanos as nat),
{
    Span { secs: nanos / NANOS_PER_SEC, nanos: (nanos % NANOS_PER_SEC) as u32 }
}

/// Reads a duration from a text: a bare number of seconds, or parts of a
/// number and a unit each, from nanoseconds to years, that add up.
pub fn parse_duration(input: &str) -> (out: Result<Span, AsahiError>)
    ensures
        match duration_of(input@) {
            Ok(span) => out matches Ok(s) && s == span,
            Err(message) => is_parse_error(out, message),
        },
{
    match capture_first(NUMBER_PATTERN, input) {
        Some(found) => {
            if !all_digits(found.group.as_str()) {
                return parse_error("invalid number");
            }
            return match big_to_u64(&big_parse(found.group.as_str())) {
                Some(secs) => Ok(Span { secs, nanos: 0 }),
                None => parse_error("number too large"),
            };
        },
        None => {},
    }
    let parts = capture_all(DURATION_PATTERN, input);
    if parts.len() == 0 {
        return parse_error("no value or unit found");
    }
    let ghost views = regex_matches(DURATION_PATTERN@, input@);
    let mut sum = big_from(0);
    let mut beyond = false;
    let mut i: usize = 0;
    while i < parts.len()
        invariant
            i <= parts@.len(),
            parts@.len() == views.len(),
            views.len() > 0,
            views == regex_matches(DURATION_PATTERN@, input@),
            regex_capture(NUMBER_PATTERN@, input@) is None,
            forall|k: int| 0 <= k < parts@.len() ==> (#[trigger] parts@[k])@ == views[k],
            parts_nanos(views, i as int) is Ok,
            beyond ==> parts_nanos(views, i as int)->Ok_0 > u64::MAX,
            !beyond ==> big_value(sum) == parts_nanos(views, i as int)->Ok_0,
        decreases parts@.len() - i,
    {
        assert(parts@[i as int]@ == views[i as int]);
        match read_part(&parts[i]) {
            Err(e) => {
                proof {
                    lemma_parts_error(views, i + 1, views.len() as int);
                }
                return Err(e);
            },
            Ok(Amount::Beyond) => {
                beyond = true;
            },
            Ok(Amount::Exact(nanos)) => {
                if !beyond {
                    sum = big_add(&sum, &nanos);
                }
            },
        }
        i = i + 1;
    }
    if beyond {
        return parse_error("duration too large");
    }
    match big_to_u64(&sum) {
        Some(nanos) => Ok(span_from_nanos(nanos)),
        None => parse_error("duration too large"),
    }
}

} // verus!
