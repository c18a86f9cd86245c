use tmux_sysmon::battery::{
    battery_glyph, battery_phrase, classify, render, report, select_mode, BatteryMode,
    BatteryReading, ChargeBand,
};
use tmux_sysmon::util::ieee::Binary64;

fn value(v: f32) -> Binary64 {
    Binary64 { bits: f64::from(v).to_bits() }
}

fn discharging(percent: u8) -> BatteryReading {
    BatteryReading { charging: false, percent, time_to_empty: None }
}

fn charging(percent: u8) -> BatteryReading {
    BatteryReading { charging: true, percent, time_to_empty: Some(600) }
}

const MODES: [BatteryMode; 4] = [
    BatteryMode::Compact,
    BatteryMode::Phrase,
    BatteryMode::TimeRemaining,
    BatteryMode::Percent,
];

#[test]
fn mode_priority() {
    assert_eq!(select_mode(false, false, false, false, false), BatteryMode::Percent);
    assert_eq!(select_mode(true, false, false, false, false), BatteryMode::Percent);
    assert_eq!(select_mode(false, true, false, false, false), BatteryMode::TimeRemaining);
    assert_eq!(select_mode(false, false, true, false, false), BatteryMode::Phrase);
    assert_eq!(select_mode(false, false, false, true, false), BatteryMode::Phrase);
    assert_eq!(select_mode(false, true, true, false, false), BatteryMode::Phrase);
    assert_eq!(select_mode(true, false, false, true, false), BatteryMode::Phrase);
    for bits in 0..16u8 {
        let mode = select_mode(bits & 1 != 0, bits & 2 != 0, bits & 4 != 0, bits & 8 != 0, true);
        assert_eq!(mode, BatteryMode::Compact);
    }
}

#[test]
fn phrase_bands() {
    let table: [(i32, i32, &str); 9] = [
        (100, 100, "Fully charged"),
        (95, 99, "Almost full"),
        (74, 94, "More than 3/4 full"),
        (50, 73, "More than half full"),
        (26, 49, "Less than half full"),
        (6, 25, "Battery is running low"),
        (2, 5, "Battery is almost empty"),
        (1, 1, "I'm dying over here"),
        (0, 0, "Out of battery"),
    ];
    for pct in 0..=100 {
        let hits: Vec<&str> =
            table.iter().filter(|(lo, hi, _)| *lo <= pct && pct <= *hi).map(|t| t.2).collect();
        assert_eq!(hits.len(), 1, "pct = {}", pct);
        assert_eq!(battery_phrase(pct), hits[0], "pct = {}", pct);
    }
}

#[test]
fn phrase_outside_the_range() {
    assert_eq!(battery_phrase(-1), "Out of battery");
    assert_eq!(battery_phrase(101), "Out of battery");
    assert_eq!(battery_phrase(i32::MIN), "Out of battery");
    assert_eq!(battery_phrase(i32::MAX), "Out of battery");
    assert_eq!(classify(73), ChargeBand::AboveHalf);
    assert_eq!(classify(74), ChargeBand::AboveThreeQuarters);
    assert_eq!(classify(-5), ChargeBand::Empty);
}

#[test]
fn glyph_levels() {
    assert_eq!(battery_glyph(0), "\u{2581}");
    assert_eq!(battery_glyph(12), "\u{2581}");
    assert_eq!(battery_glyph(13), "\u{2582}");
    assert_eq!(battery_glyph(25), "\u{2583}");
    assert_eq!(battery_glyph(50), "\u{2585}");
    assert_eq!(battery_glyph(87), "\u{2587}");
    assert_eq!(battery_glyph(88), "\u{2588}");
    assert_eq!(battery_glyph(99), "\u{2588}");
    assert_eq!(battery_glyph(100), "\u{2588}");
    assert_eq!(battery_glyph(-40), "\u{2581}");
    assert_eq!(battery_glyph(4000), "\u{2588}");
    for pct in 0..=100i32 {
        let level = ((pct as u32) * 8 / 100).min(7);
        let expected = char::from_u32(0x2581 + level).unwrap().to_string();
        assert_eq!(battery_glyph(pct), expected);
    }
}

#[test]
fn compact_mode() {
    assert_eq!(render(&discharging(0), BatteryMode::Compact), "\u{2581}");
    assert_eq!(render(&discharging(100), BatteryMode::Compact), "\u{2588}");
    for percent in [0u8, 1, 50, 99, 100, 255] {
        assert_eq!(render(&charging(percent), BatteryMode::Compact), "\u{2593}");
    }
}

#[test]
fn charging_reads_the_same_at_any_charge() {
    for percent in [0u8, 37, 100] {
        assert_eq!(render(&charging(percent), BatteryMode::Phrase), "Charging");
        assert_eq!(render(&charging(percent), BatteryMode::TimeRemaining), "Charging");
        assert_eq!(render(&charging(percent), BatteryMode::Percent), "Charging");
    }
}

#[test]
fn worded_mode() {
    assert_eq!(render(&discharging(100), BatteryMode::Phrase), "Fully charged");
    assert_eq!(render(&discharging(60), BatteryMode::Phrase), "More than half full");
    assert_eq!(render(&discharging(1), BatteryMode::Phrase), "I'm dying over here");
    assert_eq!(render(&discharging(0), BatteryMode::Phrase), "Out of battery");
    assert_eq!(render(&discharging(200), BatteryMode::Phrase), "Fully charged");
}

#[test]
fn time_mode() {
    let mut reading = discharging(40);
    assert_eq!(render(&reading, BatteryMode::TimeRemaining), "N/A");
    reading.time_to_empty = Some(8105);
    assert_eq!(render(&reading, BatteryMode::TimeRemaining), "2:15:05");
    reading.time_to_empty = Some(0);
    assert_eq!(render(&reading, BatteryMode::TimeRemaining), "0:00:00");
}

#[test]
fn percent_mode() {
    assert_eq!(render(&discharging(0), BatteryMode::Percent), "0%");
    assert_eq!(render(&discharging(7), BatteryMode::Percent), "7%");
    assert_eq!(render(&discharging(83), BatteryMode::Percent), "83%");
    assert_eq!(render(&discharging(100), BatteryMode::Percent), "100%");
    assert_eq!(render(&discharging(101), BatteryMode::Percent), "100%");
}

#[test]
fn no_battery_is_not_available_in_every_mode() {
    for mode in MODES {
        assert_eq!(report(None, mode), "N/A");
        assert_eq!(report(Some(discharging(50)), mode), render(&discharging(50), mode));
    }
}

#[test]
fn reading_from_a_provider() {
    let reading = BatteryReading::from_provider(false, value(0.834), Some(value(8105.9)));
    assert_eq!(reading, BatteryReading { charging: false, percent: 83, time_to_empty: Some(8105) });
    assert_eq!(render(&reading, BatteryMode::Percent), "83%");
    assert_eq!(render(&reading, BatteryMode::TimeRemaining), "2:15:05");
    let full = BatteryReading::from_provider(true, value(1.2), None);
    assert_eq!(full, BatteryReading { charging: true, percent: 100, time_to_empty: None });
    let odd = BatteryReading::from_provider(false, value(f32::NAN), Some(value(-3.0)));
    assert_eq!(odd, BatteryReading { charging: false, percent: 0, time_to_empty: Some(0) });
    assert_eq!(BatteryReading::from_provider(false, value(0.995), None).percent, 100);
    assert_eq!(BatteryReading::from_provider(false, value(0.125), None).percent, 13);
    assert_eq!(BatteryReading::from_provider(false, value(-0.5), None).percent, 0);
}

#[test]
fn rendering_twice_gives_the_same_line() {
    let reading = BatteryReading { charging: false, percent: 42, time_to_empty: Some(3600) };
    for mode in MODES {
        assert_eq!(render(&reading, mode), render(&reading, mode));
    }
}
