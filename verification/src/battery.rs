//! Battery state rendered in one of four mutually exclusive ways.

use crate::util::format::{fmt_time_hms, hms_text};
use crate::util::ieee::Binary64;
use crate::util::numeral::{decimal, push_decimal};
use vstd::prelude::*;

verus! {

/// How the battery is shown. Exactly one mode applies to a rendering.
#[derive(Clone, Copy, Debug, PartialEq, Eq)]
pub enum BatteryMode {
    /// A single glyph.
    Compact,
    /// A worded description of the charge.
    Phrase,
    /// The estimated time until empty.
    TimeRemaining,
    /// The charge as a whole percentage.
    Percent,
}

/// One reading of the battery.
#[derive(Clone, Copy, Debug, PartialEq, Eq)]
pub struct BatteryReading {
    /// Whether the battery is charging; any other state counts as discharging.
    pub charging: bool,
    /// State of charge in percent, already rounded to a whole number.
    pub percent: u8,
    /// Estimated seconds until empty, where an estimate exists.
    pub time_to_empty: Option<u64>,
}

/// The whole seconds of an estimate, where there is one.
pub open spec fn whole_seconds(estimate: Option<Binary64>) -> Option<u64> {
    match estimate {
        Some(seconds) => Some(seconds.truncated() as u64),
        None => None,
    }
}

impl BatteryReading {
    /// Takes a reading as a provider gives it: the state of charge as a ratio
    /// between 0 and 1, and the time until empty in seconds. The ratio becomes
    /// a whole percentage within 0 to 100, the time its whole seconds.
    pub fn from_provider(
        charging: bool,
        charge_ratio: Binary64,
        time_to_empty: Option<Binary64>,
    ) -> (reading: BatteryReading)
        ensures
            reading.charging == charging,
            reading.percent == charge_ratio.ratio_percent(),
            reading.percent <= 100,
            reading.time_to_empty == whole_seconds(time_to_empty),
    {
        let seconds = match time_to_empty {
            Some(estimate) => Some(estimate.truncate()),
            None => None,
        };
        BatteryReading {
            charging,
            percent: charge_ratio.percent_of_ratio(),
            time_to_empty: seconds,
        }
    }
}

/// The mode that a set of requested flags selects: compact before the worded
/// forms, those before the time, and the percentage when nothing else is asked.
pub open spec fn mode_of(time: bool, long: bool, fun: bool, compact: bool) -> BatteryMode {
    if compact {
        BatteryMode::Compact
    } else if long || fun {
        BatteryMode::Phrase
    } else if time {
        BatteryMode::TimeRemaining
    } else {
        BatteryMode::Percent
    }
}

/// Resolves the requested flags to the one mode that applies. Asking for the
/// percentage changes nothing, since it is what remains when no other flag is set.
pub fn select_mode(percent: bool, time: bool, long: bool, fun: bool, compact: bool) -> (mode:
    BatteryMode)
    ensures
        mode == mode_of(time, long, fun, compact),
{
    if compact {
        BatteryMode::Compact
    } else if long || fun {
        BatteryMode::Phrase
    } else if time {
        BatteryMode::TimeRemaining
    } else {
        BatteryMode::Percent
    }
}

/// A percentage brought into the range 0 to 100.
pub open spec fn clamp_percent(pct: int) -> int {
    if pct < 0 {
        0
    } else if pct > 100 {
        100
    } else {
        pct
    }
}

/// The bands of charge that the worded form tells apart.
#[derive(Clone, Copy, Debug, PartialEq, Eq)]
pub enum ChargeBand {
    Full,
    AlmostFull,
    AboveThreeQuarters,
    AboveHalf,
    BelowHalf,
    Low,
    AlmostEmpty,
    Dying,
    Empty,
}

impl ChargeBand {
    /// The lowest percentage in the band.
    pub open spec fn lowest(self) -> int {
        match self {
            ChargeBand::Full => 100,
            ChargeBand::AlmostFull => 95,
            ChargeBand::AboveThreeQuarters => 74,
            ChargeBand::AboveHalf => 50,
            ChargeBand::BelowHalf => 26,
            ChargeBand::Low => 6,
            ChargeBand::AlmostEmpty => 2,
            ChargeBand::Dying => 1,
            ChargeBand::Empty => 0,
        }
    }

    /// The highest percentage in the band.
    pub open spec fn highest(self) -> int {
        match self {
            ChargeBand::Full => 100,
            ChargeBand::AlmostFull => 99,
            ChargeBand::AboveThreeQuarters => 94,
            ChargeBand::AboveHalf => 73,
            ChargeBand::BelowHalf => 49,
            ChargeBand::Low => 25,
            ChargeBand::AlmostEmpty => 5,
            ChargeBand::Dying => 1,
            ChargeBand::Empty => 0,
        }
    }

    /// Whether `pct` lies in the band.
    pub open spec fn holds(self, pct: int) -> bool {
        self.lowest() <= pct <= self.highest()
    }

    /// The words for the band.
    pub open spec fn phrase(self) -> Seq<char> {
        match self {
            ChargeBand::Full => "Fully charged"@,
            ChargeBand::AlmostFull => "Almost full"@,
            ChargeBand::AboveThreeQuarters => "More than 3/4 full"@,
            ChargeBand::AboveHalf => "More than half full"@,
            ChargeBand::BelowHalf => "Less than half full"@,
            ChargeBand::Low => "Battery is running low"@,
            ChargeBand::AlmostEmpty => "Battery is almost empty"@,
            ChargeBand::Dying => "I'm dying over here"@,
            ChargeBand::Empty => "Out of battery"@,
        }
    }
}

/// The band of a rounded percentage. A value outside 0 to 100 belongs to no
/// band and is treated as empty.
pub open spec fn band_of(pct: int) -> ChargeBand {
    if pct == 100 {
        ChargeBand::Full
    } else if 95 <= pct <= 99 {
        ChargeBand::AlmostFull
    } else if 74 <= pct <= 94 {
        ChargeBand::AboveThreeQuarters
    } else if 50 <= pct <= 73 {
        ChargeBand::AboveHalf
    } else if 26 <= pct <= 49 {
        ChargeBand::BelowHalf
    } else if 6 <= pct <= 25 {
        ChargeBand::Low
    } else if 2 <= pct <= 5 {
        ChargeBand::AlmostEmpty
    } else if pct == 1 {
        ChargeBand::Dying
    } else {
        ChargeBand::Empty
    }
}

/// Classifies a rounded percentage into its band.
pub fn classify(pct_rounded: i32) -> (band: ChargeBand)
    ensures
        band == band_of(pct_rounded as int),
{
    if pct_rounded == 100 {
        ChargeBand::Full
    } else if 95 <= pct_rounded && pct_rounded <= 99 {
        ChargeBand::AlmostFull
    } else if 74 <= pct_rounded && pct_rounded <= 94 {
        ChargeBand::AboveThreeQuarters
    } else if 50 <= pct_rounded && pct_rounded <= 73 {
        ChargeBand::AboveHalf
    } else if 26 <= pct_rounded && pct_rounded <= 49 {
        ChargeBand::BelowHalf
    } else if 6 <= pct_rounded && pct_rounded <= 25 {
        ChargeBand::Low
    } else if 2 <= pct_rounded && pct_rounded <= 5 {
        ChargeBand::AlmostEmpty
    } else if pct_rounded == 1 {
        ChargeBand::Dying
    } else {
        ChargeBand::Empty
    }
}

/// The words for a rounded percentage of charge.
pub fn battery_phrase(pct_rounded: i32) -> (phrase: &'static str)
    ensures
        phrase@ == band_of(pct_rounded as int).phrase(),
{
    match classify(pct_rounded) {
        ChargeBand::Full => "Fully charged",
        ChargeBand::AlmostFull => "Almost full",
        ChargeBand::AboveThreeQuarters => "More than 3/4 full",
        ChargeBand::AboveHalf => "More than half full",
        ChargeBand::BelowHalf => "Less than half full",
        ChargeBand::Low => "Battery is running low",
        ChargeBand::AlmostEmpty => "Battery is almost empty",
        ChargeBand::Dying => "I'm dying over here",
        ChargeBand::Empty => "Out of battery",
    }
}

/// Every percentage from 0 to 100 lies in exactly one band: the one that
/// `band_of` gives.
pub proof fn lemma_bands_partition(pct: int)
    requires
        0 <= pct <= 100,
    ensures
        band_of(pct).holds(pct),
        forall|band: ChargeBand| band.holds(pct) ==> band == band_of(pct),
{
}

/// Two different bands never share their words.
pub proof fn lemma_phrases_distinct(a: ChargeBand, b: ChargeBand)
    requires
        a != b,
    ensures
        a.phrase() != b.phrase(),
{
    reveal_strlit("Fully charged");
    reveal_strlit("Almost full");
    reveal_strlit("More than 3/4 full");
    reveal_strlit("More than half full");
    reveal_strlit("Less than half full");
    reveal_strlit("Battery is running low");
    reveal_strlit("Battery is almost empty");
    reveal_strlit("I'm dying over here");
    reveal_strlit("Out of battery");
    assert(a.phrase().len() != b.phrase().len() || a.phrase()[0] != b.phrase()[0]);
}

/// The glyph shown for a charging battery.
pub open spec fn charging_glyph() -> char {
    '\u{2593}'
}

/// The bar that a rounded percentage reaches, from 0 (lowest) to 7 (fullest):
/// the percentage is clamped to 0..100, scaled by 8/100 and cut off at 7.
pub open spec fn bar_level(pct: int) -> int {
    let level = clamp_percent(pct) * 8 / 100;
    if level > 7 {
        7
    } else {
        level
    }
}

/// The glyph of a bar level: the eighth blocks from one eighth up to the full block.
pub open spec fn bar_glyph(level: int) -> char {
    if level <= 0 {
        '\u{2581}'
    } else if level == 1 {
        '\u{2582}'
    } else if level == 2 {
        '\u{2583}'
    } else if level == 3 {
        '\u{2584}'
    } else if level == 4 {
        '\u{2585}'
    } else if level == 5 {
        '\u{2586}'
    } else if level == 6 {
        '\u{2587}'
    } else {
        '\u{2588}'
    }
}

/// The bar glyph for a rounded percentage of a discharging battery.
pub fn battery_glyph(pct_rounded: i32) -> (glyph: &'static str)
    ensures
        glyph@ == seq![bar_glyph(bar_level(pct_rounded as int))],
{
    let clamped: i32 = if pct_rounded < 0 {
        0
    } else if pct_rounded > 100 {
        100
    } else {
        pct_rounded
    };
    let scaled: i32 = clamped * 8 / 100;
    let level: i32 = if scaled > 7 {
        7
    } else {
        scaled
    };
    proof {
        reveal_strlit("\u{2581}");
        reveal_strlit("\u{2582}");
        reveal_strlit("\u{2583}");
        reveal_strlit("\u{2584}");
        reveal_strlit("\u{2585}");
        reveal_strlit("\u{2586}");
        reveal_strlit("\u{2587}");
        reveal_strlit("\u{2588}");
    }
    let glyph = if level == 0 {
        "\u{2581}"
    } else if level == 1 {
        "\u{2582}"
    } else if level == 2 {
        "\u{2583}"
    } else if level == 3 {
        "\u{2584}"
    } else if level == 4 {
        "\u{2585}"
    } else if level == 5 {
        "\u{2586}"
    } else if level == 6 {
        "\u{2587}"
    } else {
        "\u{2588}"
    };
    assert(glyph@ =~= seq![bar_glyph(bar_level(pct_rounded as int))]);
    glyph
}

/// A bar level always lies between 0 and 7 and never falls when the
/// percentage rises; an empty battery shows the lowest bar and a full one the
/// fullest; and the glyph of a charging battery is none of the bars.
pub proof fn lemma_bar_levels(lower: int, higher: int)
    requires
        lower <= higher,
    ensures
        0 <= bar_level(lower) <= bar_level(higher) <= 7,
        bar_level(0) == 0,
        bar_level(100) == 7,
        bar_glyph(bar_level(lower)) != charging_glyph(),
{
}

/// The line for a battery reading in a given mode.
///
/// A charging battery shows the charging glyph in compact mode and the word
/// `Charging` in every other mode, whatever its charge.
pub open spec fn rendered(reading: BatteryReading, mode: BatteryMode) -> Seq<char> {
    let pct = clamp_percent(reading.percent as int);
    match mode {
        BatteryMode::Compact => if reading.charging {
            seq![charging_glyph()]
        } else {
            seq![bar_glyph(bar_level(pct))]
        },
        BatteryMode::Phrase => if reading.charging {
            "Charging"@
        } else {
            band_of(pct).phrase()
        },
        BatteryMode::TimeRemaining => if reading.charging {
            "Charging"@
        } else {
            match reading.time_to_empty {
                Some(seconds) => hms_text(seconds as nat),
                None => "N/A"@,
            }
        },
        BatteryMode::Percent => if reading.charging {
            "Charging"@
        } else {
            decimal(pct as nat) + seq!['%']
        },
    }
}

/// Renders a battery reading in the given mode.
pub fn render(reading: &BatteryReading, mode: BatteryMode) -> (line: String)
    ensures
        line@ == rendered(*reading, mode),
{
    let pct: u8 = if reading.percent > 100 {
        100
    } else {
        reading.percent
    };
    match mode {
        BatteryMode::Compact => {
            if reading.charging {
                proof {
                    reveal_strlit("\u{2593}");
                }
                let line = "\u{2593}".to_owned();
                assert(line@ =~= rendered(*reading, mode));
                line
            } else {
                battery_glyph(pct as i32).to_owned()
            }
        },
        BatteryMode::Phrase => {
            if reading.charging {
                "Charging".to_owned()
            } else {
                battery_phrase(pct as i32).to_owned()
            }
        },
        BatteryMode::TimeRemaining => {
            if reading.charging {
                "Charging".to_owned()
            } else {
                match reading.time_to_empty {
                    Some(seconds) => fmt_time_hms(seconds),
                    None => "N/A".to_owned(),
                }
            }
        },
        BatteryMode::Percent => {
            if reading.charging {
                "Charging".to_owned()
            } else {
                let mut line = String::new();
                push_decimal(&mut line, pct as u128);
                line.append("%");
                proof {
                    reveal_strlit("%");
                    assert(line@ =~= rendered(*reading, mode));
                }
                line
            }
        },
    }
}

/// The line for what the provider gave: `N/A` where no battery could be read.
pub open spec fn reported(reading: Option<BatteryReading>, mode: BatteryMode) -> Seq<char> {
    match reading {
        Some(r) => rendered(r, mode),
        None => "N/A"@,
    }
}

/// Renders a reading, or `N/A` when there is none.
pub fn report(reading: Option<BatteryReading>, mode: BatteryMode) -> (line: String)
    ensures
        line@ == reported(reading, mode),
{
    match reading {
        Some(r) => render(&r, mode),
        None => "N/A".to_owned(),
    }
}

} // verus!
