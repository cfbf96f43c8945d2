use asahi::formatters::{div_round_half_even, format_bytes, format_duration, format_timestamp};
use asahi::numeral::{digit_str, push_numeral};

fn float_bytes(bytes: u64) -> String {
    let units = ["B", "KB", "MB", "GB"];
    let mut value = bytes as f64;
    let mut step = 0;
    while value >= 1024.0 && step < 3 {
        value /= 1024.0;
        step += 1;
    }
    format!("{value:.2} {}", units[step])
}

#[test]
fn bytes_are_shown_in_binary_units() {
    assert_eq!(format_bytes(0), "0.00 B");
    assert_eq!(format_bytes(1), "1.00 B");
    assert_eq!(format_bytes(1023), "1023.00 B");
    assert_eq!(format_bytes(1024), "1.00 KB");
    assert_eq!(format_bytes(1536), "1.50 KB");
    assert_eq!(format_bytes(8192), "8.00 KB");
    assert_eq!(format_bytes(10485760), "10.00 MB");
    assert_eq!(format_bytes(12582912), "12.00 MB");
    assert_eq!(format_bytes(8321499136), "7.75 GB");
    assert_eq!(format_bytes(1024 * 1024 * 1024 - 1), "1024.00 MB");
    assert_eq!(format_bytes(1024 * 1024 * 1024), "1.00 GB");
}

#[test]
fn bytes_round_to_the_nearest_hundredth() {
    assert_eq!(format_bytes(1029), "1.00 KB");
    assert_eq!(format_bytes(1030), "1.01 KB");
    // 1.125 and 1.375 lie halfway: the even hundredth is taken
    assert_eq!(format_bytes(1152), "1.12 KB");
    assert_eq!(format_bytes(1408), "1.38 KB");
    assert_eq!(format_bytes(1024 * 1024 - 1), "1024.00 KB");
}

#[test]
fn bytes_from_a_terabyte_on_stay_in_the_largest_unit() {
    assert_eq!(format_bytes(1024 * 1024 * 1024 * 1024 - 1), "1024.00 GB");
    assert_eq!(format_bytes(1024 * 1024 * 1024 * 1024), "1024.00 GB");
    assert_eq!(format_bytes(3 * 1024 * 1024 * 1024 * 1024 / 2), "1536.00 GB");
    assert_eq!(format_bytes(1024 * 1024 * 1024 * 1024 * 1024), "1048576.00 GB");
    assert_eq!(format_bytes(u64::MAX), "17179869184.00 GB");
}

#[test]
fn bytes_agree_with_floating_point_formatting() {
    let mut samples: Vec<u64> = (0..5000).collect();
    let mut x: u64 = 1;
    while x < (1 << 52) {
        samples.extend_from_slice(&[x - 1, x, x + 1, x + x / 3, x + x / 7 + 5]);
        x *= 2;
    }
    for k in 0..4000u64 {
        samples.push(k * 7919 + 1024 * 1024);
        samples.push(k * 104_729 * 1024 + 77);
        samples.push(128 + 256 * k);
    }
    for bytes in samples {
        assert_eq!(format_bytes(bytes), float_bytes(bytes), "for {bytes}");
    }
}

#[test]
fn rounding_takes_the_even_neighbour_of_a_half() {
    assert_eq!(div_round_half_even(5, 2), 2);
    assert_eq!(div_round_half_even(7, 2), 4);
    assert_eq!(div_round_half_even(6, 4), 2);
    assert_eq!(div_round_half_even(10, 4), 2);
    assert_eq!(div_round_half_even(9, 4), 2);
    assert_eq!(div_round_half_even(11, 4), 3);
    assert_eq!(div_round_half_even(0, 9), 0);
    assert_eq!(div_round_half_even(12, 1), 12);
}

#[test]
fn durations_leave_out_what_is_zero() {
    assert_eq!(format_duration(0), "");
    assert_eq!(format_duration(19), "19s");
    assert_eq!(format_duration(60), "1m");
    assert_eq!(format_duration(61), "1m, 1s");
    assert_eq!(format_duration(3600), "1h");
    assert_eq!(format_duration(86400), "1d");
    assert_eq!(format_duration(8 * 86400 + 5 * 3600 + 32 * 60 + 19), "8d, 5h, 32m, 19s");
    assert_eq!(format_duration(86400 + 19), "1d, 19s");
    assert_eq!(format_duration(u64::MAX), "213503982334601d, 7h, 15s");
}

#[test]
fn timestamps_have_a_full_and_a_relative_form() {
    assert_eq!(format_timestamp(0), "<t:0>\n<t:0:R>");
    assert_eq!(format_timestamp(1718000000), "<t:1718000000>\n<t:1718000000:R>");
    assert_eq!(format_timestamp(-5), "<t:-5>\n<t:-5:R>");
    assert_eq!(
        format_timestamp(i64::MIN),
        "<t:-9223372036854775808>\n<t:-9223372036854775808:R>"
    );
    assert_eq!(
        format_timestamp(i64::MAX),
        "<t:9223372036854775807>\n<t:9223372036854775807:R>"
    );
}

#[test]
fn numerals_have_no_leading_zeros() {
    let mut text = String::from("n=");
    push_numeral(&mut text, 0, 10);
    assert_eq!(text, "n=0");
    let mut text = String::new();
    push_numeral(&mut text, 1234567890123, 10);
    assert_eq!(text, "1234567890123");
    let mut text = String::new();
    push_numeral(&mut text, 0x1f4be, 16);
    assert_eq!(text, "1f4be");
    let mut text = String::new();
    push_numeral(&mut text, 10, 2);
    assert_eq!(text, "1010");
    assert_eq!(digit_str(0), "0");
    assert_eq!(digit_str(9), "9");
    assert_eq!(digit_str(15), "f");
}
