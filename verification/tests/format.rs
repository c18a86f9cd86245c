use tmux_sysmon::util::format::{
    fmt_gb_two_decimals, fmt_share_1dp, fmt_time_hms, humanize_bytes_short,
};
use tmux_sysmon::util::numeral::{digit_str, push_decimal, push_two_digits};

/// The short form computed in binary floating point, for comparison.
fn float_short(bytes: u64) -> String {
    if bytes < 1024 {
        return "0.0K".to_string();
    }
    let units = ["B", "K", "M", "G", "T"];
    let mut value = bytes as f64;
    let mut idx = 0usize;
    while value >= 1024.0 && idx < units.len() - 1 {
        value /= 1024.0;
        idx += 1;
    }
    format!("{:.1}{}", value, units[idx])
}

/// The gibibyte form computed in binary floating point, for comparison.
fn float_gb(bytes: u64) -> String {
    format!("{:.2}GB", bytes as f64 / 1024f64.powi(3))
}

/// A small deterministic generator of test inputs.
fn next_random(state: &mut u64) -> u64 {
    *state ^= *state << 13;
    *state ^= *state >> 7;
    *state ^= *state << 17;
    *state
}

#[test]
fn gb_two_decimals() {
    let gib = 31.26_f64;
    let bytes = (gib * 1024f64.powi(3)) as u64;
    assert!(fmt_gb_two_decimals(bytes).starts_with("31.26GB"));
}

#[test]
fn humanize_short() {
    assert_eq!(
        humanize_bytes_short(1024 * 1024 * 1024 + 600 * 1024 * 1024),
        "1.6G"
    );
}

#[test]
fn time_hms() {
    assert_eq!(fmt_time_hms(8100 + 5), "2:15:05");
}

#[test]
fn time_hms_edges() {
    assert_eq!(fmt_time_hms(0), "0:00:00");
    assert_eq!(fmt_time_hms(59), "0:00:59");
    assert_eq!(fmt_time_hms(60), "0:01:00");
    assert_eq!(fmt_time_hms(3599), "0:59:59");
    assert_eq!(fmt_time_hms(3600), "1:00:00");
    assert_eq!(fmt_time_hms(360_000), "100:00:00");
    assert_eq!(fmt_time_hms(u64::MAX), "5124095576030431:00:15");
}

#[test]
fn time_hms_matches_plain_formatting() {
    let mut state = 0x9E37_79B9_7F4A_7C15u64;
    for _ in 0..2000 {
        let t = next_random(&mut state) >> (next_random(&mut state) % 64);
        let expected = format!("{}:{:02}:{:02}", t / 3600, (t % 3600) / 60, t % 60);
        assert_eq!(fmt_time_hms(t), expected);
    }
}

#[test]
fn gb_exact_values() {
    assert_eq!(fmt_gb_two_decimals(0), "0.00GB");
    assert_eq!(fmt_gb_two_decimals(1 << 30), "1.00GB");
    assert_eq!(fmt_gb_two_decimals(3 << 29), "1.50GB");
    assert_eq!(fmt_gb_two_decimals(7_763_000_000), "7.23GB");
    assert_eq!(fmt_gb_two_decimals(5_368_709), "0.00GB");
    assert_eq!(fmt_gb_two_decimals(5_368_710), "0.01GB");
    assert_eq!(fmt_gb_two_decimals(u64::MAX), "17179869184.00GB");
}

#[test]
fn gb_tie_goes_to_even() {
    // 2^27 bytes are exactly 0.125 GiB, 3 * 2^27 exactly 0.375 GiB.
    assert_eq!(fmt_gb_two_decimals(1 << 27), "0.12GB");
    assert_eq!(fmt_gb_two_decimals(3 << 27), "0.38GB");
    assert_eq!(fmt_gb_two_decimals(1 << 27), float_gb(1 << 27));
    assert_eq!(fmt_gb_two_decimals(3 << 27), float_gb(3 << 27));
}

#[test]
fn gb_matches_floating_point() {
    let mut state = 0x2545_F491_4F6C_DD1Du64;
    for _ in 0..20000 {
        let bytes = next_random(&mut state) >> (11 + next_random(&mut state) % 53);
        assert_eq!(fmt_gb_two_decimals(bytes), float_gb(bytes), "bytes = {}", bytes);
    }
}

#[test]
fn humanize_below_one_kibibyte() {
    assert_eq!(humanize_bytes_short(0), "0.0K");
    assert_eq!(humanize_bytes_short(1), "0.0K");
    assert_eq!(humanize_bytes_short(500), "0.0K");
    assert_eq!(humanize_bytes_short(1023), "0.0K");
}

#[test]
fn humanize_units() {
    assert_eq!(humanize_bytes_short(1024), "1.0K");
    assert_eq!(humanize_bytes_short(1536), "1.5K");
    assert_eq!(humanize_bytes_short(1 << 20), "1.0M");
    assert_eq!(humanize_bytes_short(1 << 30), "1.0G");
    assert_eq!(humanize_bytes_short(1 << 40), "1.0T");
    assert_eq!(humanize_bytes_short(59_808_000_000), "55.7G");
    assert_eq!(humanize_bytes_short(1 << 50), "1024.0T");
    assert_eq!(humanize_bytes_short(u64::MAX), "16777216.0T");
}

#[test]
fn humanize_rounds_up_to_the_next_unit_size() {
    assert_eq!(humanize_bytes_short((1 << 20) - 1), "1024.0K");
    assert_eq!(humanize_bytes_short((1 << 30) - 1), "1024.0M");
    assert_eq!(humanize_bytes_short((1 << 40) - 1), "1024.0G");
}

#[test]
fn humanize_tie_goes_to_even() {
    // 1280 bytes are exactly 1.25 K, 1408 + 128 = 1792 exactly 1.75 K.
    assert_eq!(humanize_bytes_short(1280), "1.2K");
    assert_eq!(humanize_bytes_short(1792), "1.8K");
    assert_eq!(humanize_bytes_short(1280), float_short(1280));
    assert_eq!(humanize_bytes_short(1792), float_short(1792));
}

#[test]
fn humanize_matches_floating_point() {
    let mut state = 0xD1B5_4A32_D192_ED03u64;
    for _ in 0..20000 {
        let bytes = next_random(&mut state) >> (11 + next_random(&mut state) % 53);
        assert_eq!(humanize_bytes_short(bytes), float_short(bytes), "bytes = {}", bytes);
    }
    for bytes in 0..70000u64 {
        assert_eq!(humanize_bytes_short(bytes), float_short(bytes), "bytes = {}", bytes);
    }
}

#[test]
fn share_of_whole() {
    assert_eq!(fmt_share_1dp(0, 100), "0.0%");
    assert_eq!(fmt_share_1dp(1234, 10000), "12.3%");
    assert_eq!(fmt_share_1dp(1, 3), "33.3%");
    assert_eq!(fmt_share_1dp(2, 3), "66.7%");
    assert_eq!(fmt_share_1dp(100, 100), "100.0%");
    assert_eq!(fmt_share_1dp(u64::MAX, u64::MAX), "100.0%");
    assert_eq!(fmt_share_1dp(u64::MAX, 1), "1844674407370955161500.0%");
}

#[test]
fn share_of_nothing_is_zero() {
    assert_eq!(fmt_share_1dp(0, 0), "0.0%");
    assert_eq!(fmt_share_1dp(5, 0), "0.0%");
}

#[test]
fn share_tie_goes_away_from_zero() {
    // 1 of 2000 is exactly 0.05 %, 1225 of 10000 exactly 12.25 %.
    assert_eq!(fmt_share_1dp(1, 2000), "0.1%");
    assert_eq!(fmt_share_1dp(1225, 10000), "12.3%");
    assert_eq!(fmt_share_1dp(1224, 10000), "12.2%");
}

#[test]
fn formatting_twice_gives_the_same_text() {
    for value in [0u64, 59, 8105, 1 << 30, u64::MAX] {
        assert_eq!(fmt_time_hms(value), fmt_time_hms(value));
        assert_eq!(fmt_gb_two_decimals(value), fmt_gb_two_decimals(value));
        assert_eq!(humanize_bytes_short(value), humanize_bytes_short(value));
        assert_eq!(fmt_share_1dp(value, 1 << 40), fmt_share_1dp(value, 1 << 40));
    }
}

#[test]
fn decimal_numerals() {
    let mut out = String::from("n=");
    push_decimal(&mut out, 0);
    out.push(' ');
    push_decimal(&mut out, 9);
    out.push(' ');
    push_decimal(&mut out, 10);
    out.push(' ');
    push_decimal(&mut out, 1_000_000);
    out.push(' ');
    push_decimal(&mut out, u128::MAX);
    assert_eq!(out, "n=0 9 10 1000000 340282366920938463463374607431768211455");
    let mut padded = String::new();
    push_two_digits(&mut padded, 0);
    push_two_digits(&mut padded, 7);
    push_two_digits(&mut padded, 42);
    push_two_digits(&mut padded, 99);
    assert_eq!(padded, "00074299");
    assert_eq!(digit_str(0), "0");
    assert_eq!(digit_str(9), "9");
}
