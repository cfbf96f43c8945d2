use asahi::error::AsahiError;
use asahi::time::{parse_duration, span_from_nanos, unit_multiplier, Span};
use num_bigint::BigInt;
use num_traits::ToPrimitive;
use std::time::Duration;

fn unit_of(name: &str) -> Option<u64> {
    let ns = 1u64;
    let us = 1_000 * ns;
    let ms = 1_000 * us;
    let s = 1_000 * ms;
    let m = 60 * s;
    let h = 60 * m;
    let d = 24 * h;
    let w = 7 * d;
    let mo = 2_629_746_000_000_000u64;
    let y = 31_556_952_000_000_000u64;
    let units = [
        (ns, &["ns", "nanosecond", "nanoseconds"][..]),
        (us, &["us", "microsecond", "microseconds"]),
        (ms, &["ms", "millisecond", "milliseconds"]),
        (s, &["s", "secs", "second", "seconds"]),
        (m, &["m", "mins", "min", "minute", "minutes"]),
        (h, &["h", "hr", "hrs", "hour", "hours"]),
        (d, &["d", "day", "days"]),
        (w, &["w", "wk", "wks", "week", "weeks"]),
        (mo, &["mo", "month", "months"]),
        (y, &["y", "year", "years"]),
    ];
    for (value, names) in units {
        if names.contains(&name) {
            return Some(value);
        }
    }
    None
}

/// The same text read with signed big numbers and the engine's named groups.
fn reference(input: &str) -> Result<Duration, String> {
    let number = regex::Regex::new(r"^(\d+)$").unwrap();
    let part = regex::Regex::new(
        r"(?x)
      (?P<int>\d+)
      (?:\.(?P<dec>\d+))?
      (?:e(?P<exp>-?\d+))?
      \s*(?P<unit>[a-zA-Z]+)
    ",
    )
    .unwrap();
    if let Some(int) = number.captures(input) {
        let value = BigInt::parse_bytes(int.get(1).unwrap().as_str().as_bytes(), 10)
            .ok_or("invalid number")?;
        return value.to_u64().ok_or("number too large".to_string()).map(Duration::from_secs);
    }
    if !part.is_match(input) {
        return Err("no value or unit found".to_string());
    }
    let mut nanoseconds = BigInt::default();
    for cap in part.captures_iter(input) {
        let unit = cap.name("unit").ok_or("missing unit")?.as_str();
        let multiplier =
            unit_of(unit.to_lowercase().as_str()).ok_or(format!("unknown unit: {unit}"))?;
        let base = cap.name("int").ok_or("missing number")?;
        let int = BigInt::parse_bytes(base.as_str().as_bytes(), 10).ok_or("invalid integer")?;
        let mut total = int * BigInt::from(multiplier);
        if let Some(dec) = cap.name("dec") {
            let dec =
                BigInt::parse_bytes(dec.as_str().as_bytes(), 10).ok_or("invalid decimal")?;
            let scale = BigInt::from(10).pow(dec.to_string().len() as u32);
            total += dec * BigInt::from(multiplier) / scale;
        }
        if let Some(exp) = cap.name("exp") {
            let exp: isize = exp.as_str().parse().map_err(|_| "invalid exponent")?;
            let factor = BigInt::from(10).pow(exp.unsigned_abs() as u32);
            total = if exp < 0 { total / factor } else { total * factor };
        }
        nanoseconds += total;
    }
    nanoseconds.to_u64().ok_or("duration too large".to_string()).map(Duration::from_nanos)
}

fn ours(input: &str) -> Result<Duration, String> {
    match parse_duration(input) {
        Ok(span) => Ok(Duration::new(span.secs, span.nanos)),
        Err(AsahiError::Parse(message)) => Err(message),
        Err(other) => panic!("not a parsing error: {}", other.message()),
    }
}

#[test]
fn a_bare_number_counts_seconds() {
    assert_eq!(parse_duration("90").unwrap(), Span { secs: 90, nanos: 0 });
    assert_eq!(parse_duration("0").unwrap(), Span { secs: 0, nanos: 0 });
    assert_eq!(parse_duration("007").unwrap(), Span { secs: 7, nanos: 0 });
    assert_eq!(
        parse_duration("18446744073709551615").unwrap(),
        Span { secs: u64::MAX, nanos: 0 }
    );
    assert_eq!(ours("18446744073709551616"), Err("number too large".to_string()));
    assert_eq!(ours("12٣"), Err("invalid number".to_string()));
}

#[test]
fn parts_with_units_add_up() {
    assert_eq!(parse_duration("1h 30m").unwrap(), Span { secs: 5400, nanos: 0 });
    assert_eq!(parse_duration("1h30m").unwrap(), Span { secs: 5400, nanos: 0 });
    assert_eq!(parse_duration("1w2d3h4m5s6ms7us8ns").unwrap(), Span {
        secs: 604800 + 2 * 86400 + 3 * 3600 + 4 * 60 + 5,
        nanos: 6_007_008
    });
    assert_eq!(parse_duration("5 Minutes").unwrap(), Span { secs: 300, nanos: 0 });
    assert_eq!(parse_duration("1 year").unwrap(), Span { secs: 31_556_952, nanos: 0 });
    assert_eq!(parse_duration("1mo").unwrap(), Span { secs: 2_629_746, nanos: 0 });
    assert_eq!(parse_duration("in 2 hrs, then 1 MIN").unwrap(), Span { secs: 7260, nanos: 0 });
    assert_eq!(parse_duration("1500ms").unwrap(), Span { secs: 1, nanos: 500_000_000 });
}

#[test]
fn fractions_and_exponents_scale_a_part() {
    assert_eq!(parse_duration("1.5h").unwrap(), Span { secs: 5400, nanos: 0 });
    assert_eq!(parse_duration("0.25s").unwrap(), Span { secs: 0, nanos: 250_000_000 });
    // the zeros that lead a fraction do not count
    assert_eq!(parse_duration("1.05s").unwrap(), Span { secs: 1, nanos: 500_000_000 });
    assert_eq!(parse_duration("2e3ms").unwrap(), Span { secs: 2, nanos: 0 });
    assert_eq!(parse_duration("1e-3s").unwrap(), Span { secs: 0, nanos: 1_000_000 });
    assert_eq!(parse_duration("1.5e3 ms").unwrap(), Span { secs: 1, nanos: 500_000_000 });
    assert_eq!(parse_duration("7e-1ns").unwrap(), Span { secs: 0, nanos: 0 });
    assert_eq!(parse_duration("0e400s").unwrap(), Span { secs: 0, nanos: 0 });
    assert_eq!(parse_duration("5e-400y").unwrap(), Span { secs: 0, nanos: 0 });
    assert_eq!(parse_duration("1e-0s").unwrap(), Span { secs: 1, nanos: 0 });
}

#[test]
fn what_cannot_be_read_is_an_error() {
    assert_eq!(ours(""), Err("no value or unit found".to_string()));
    assert_eq!(ours("soon"), Err("no value or unit found".to_string()));
    assert_eq!(ours("12.5"), Err("no value or unit found".to_string()));
    assert_eq!(ours("10 parsecs"), Err("unknown unit: parsecs".to_string()));
    assert_eq!(ours("1h 10 Parsecs 5x"), Err("unknown unit: Parsecs".to_string()));
    assert_eq!(ours("٣s"), Err("invalid integer".to_string()));
    assert_eq!(ours("1.٣s"), Err("invalid decimal".to_string()));
    assert_eq!(ours("1e٣s"), Err("invalid exponent".to_string()));
    assert_eq!(ours("1e99999999999999999999s"), Err("invalid exponent".to_string()));
    assert_eq!(ours("1e-99999999999999999999s"), Err("invalid exponent".to_string()));
    assert_eq!(ours("1e20ns"), Err("duration too large".to_string()));
    assert_eq!(ours("1e400ns"), Err("duration too large".to_string()));
    assert_eq!(ours("585y"), Err("duration too large".to_string()));
    assert_eq!(ours("99999999999999999999999999y"), Err("duration too large".to_string()));
    assert_eq!(ours("18446744073709551615ns 1ns"), Err("duration too large".to_string()));
    // the first part that cannot be read decides
    assert_eq!(ours("1e400s 5 parsecs"), Err("unknown unit: parsecs".to_string()));
    assert!(matches!(parse_duration("x"), Err(AsahiError::Parse(_))));
}

#[test]
fn the_largest_duration_is_64_bits_of_nanoseconds() {
    assert_eq!(
        parse_duration("18446744073709551615ns").unwrap(),
        Span { secs: 18_446_744_073, nanos: 709_551_615 }
    );
    assert_eq!(
        parse_duration("18446744073709551614ns 1ns").unwrap(),
        Span { secs: 18_446_744_073, nanos: 709_551_615 }
    );
    assert_eq!(ours("18446744073709551616ns"), Err("duration too large".to_string()));
    assert_eq!(
        parse_duration("584y").unwrap(),
        Span { secs: 584 * 31_556_952, nanos: 0 }
    );
}

#[test]
fn reading_agrees_with_signed_big_numbers() {
    let inputs = [
        "90",
        "0",
        "1h 30m",
        "1.5h",
        "1.05s",
        "1.50s",
        "0.000001s",
        "3.14159265358979323846264338327950288419716939937510y",
        "2e3ms",
        "1e-3s",
        "1e19ns",
        "1e20ns",
        "1e21ns",
        "18e18ns",
        "19e18ns",
        "123456789e-5us",
        "123456789e-9us",
        "123456789e-10us",
        "1.999999999999999999999999999999999999s",
        "0e30s 4s",
        "0.5e1s",
        "5e-400y",
        "7e300ns",
        "12345678901234567890123456789012345678901234567890e-45ns",
        "1w2d3h4m5s6ms7us8ns",
        "1 Year 2 MONTHS 3 wks",
        "5mins 5min 5m 5minute 5minutes",
        "1hr 1hrs 1hour 1hours",
        "1secs 1second 1seconds 1s",
        "1nanosecond 1microsecond 1millisecond",
        "10 parsecs",
        "1h 10 parsecs",
        "",
        " ",
        "soon",
        "12.5",
        "12 ",
        " 12",
        "-5s",
        "+5s",
        "1_000s",
        "٣s",
        "1.٣s",
        "1e٣s",
        "12٣",
        "1e99999999999999999999s",
        "1e-9223372036854775808s",
        "1e-9223372036854775809s",
        "0e4294967296s",
        "3e4294967297s",
        "18446744073709551615",
        "18446744073709551616",
        "18446744073709551615ns",
        "18446744073709551616ns",
        "584y",
        "585y",
        "1h\n2m",
        "1é2s",
        "5Ks",
        "1.5.5s",
        "1e2e3s",
        "1e--3s",
        "e5s",
        ".5s",
    ];
    for input in inputs {
        assert_eq!(ours(input), reference(input), "for {input:?}");
    }
}

#[test]
fn powers_beyond_computing_are_decided_without_them() {
    assert_eq!(ours("1e9223372036854775807h"), Err("duration too large".to_string()));
    assert_eq!(ours("1e4294967295ns"), Err("duration too large".to_string()));
    assert_eq!(parse_duration("0e4294967295s").unwrap(), Span { secs: 0, nanos: 0 });
    assert_eq!(parse_duration("5e-4294967295s").unwrap(), Span { secs: 0, nanos: 0 });
    assert_eq!(parse_duration("2s 7e-4000000000y").unwrap(), Span { secs: 2, nanos: 0 });
    // only the low 32 bits of an exponent count
    assert_eq!(parse_duration("3e4294967297s").unwrap(), Span { secs: 30, nanos: 0 });
    assert_eq!(parse_duration("3e-9223372036854775808s").unwrap(), Span { secs: 3, nanos: 0 });
}

#[test]
fn units_are_known_by_their_names() {
    for name in [
        "ns", "nanosecond", "nanoseconds", "us", "microsecond", "microseconds", "ms",
        "millisecond", "milliseconds", "s", "secs", "second", "seconds", "m", "mins", "min",
        "minute", "minutes", "h", "hr", "hrs", "hour", "hours", "d", "day", "days", "w", "wk",
        "wks", "week", "weeks", "mo", "month", "months", "y", "year", "years", "", "sec", "M",
        "ys",
    ] {
        assert_eq!(unit_multiplier(&name.to_string()), unit_of(name), "for {name:?}");
    }
}

#[test]
fn spans_split_nanoseconds() {
    assert_eq!(span_from_nanos(0), Span { secs: 0, nanos: 0 });
    assert_eq!(span_from_nanos(999_999_999), Span { secs: 0, nanos: 999_999_999 });
    assert_eq!(span_from_nanos(1_000_000_000), Span { secs: 1, nanos: 0 });
    assert_eq!(span_from_nanos(u64::MAX), Span { secs: 18_446_744_073, nanos: 709_551_615 });
}
