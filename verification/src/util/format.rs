//! Fixed-format renderers for durations, byte counts and shares.
//!
//! Each renderer is a function of its argument alone, and its contract gives
//! the exact text. Quantities are rounded once, from their exact value.

use crate::util::numeral::{
    decimal, div_round_half_even, div_round_half_up, hundredths_text, push_decimal, push_hundredths,
    push_tenths, push_two_digits, round_half_even, round_half_up, tenths_text, two_digits,
};
use crate::util::ieee::{fixed1_text, push_fixed1, Binary64};
use vstd::prelude::*;

verus! {

/// Bytes in one gibibyte.
pub const GIB: u64 = 0x4000_0000;

/// The text of a duration: hours without padding, then minutes and seconds
/// with two digits each, joined by colons.
pub open spec fn hms_text(total_seconds: nat) -> Seq<char> {
    decimal(total_seconds / 3600) + seq![':'] + two_digits((total_seconds % 3600) / 60) + seq![':']
        + two_digits(total_seconds % 60)
}

/// Renders a number of seconds as `H:MM:SS`.
pub fn fmt_time_hms(total_seconds: u64) -> (text: String)
    ensures
        text@ == hms_text(total_seconds as nat),
{
    let hours = total_seconds / 3600;
    let minutes = (total_seconds % 3600) / 60;
    let seconds = total_seconds % 60;
    let mut out = String::new();
    push_decimal(&mut out, hours as u128);
    out.append(":");
    push_two_digits(&mut out, minutes as u8);
    out.append(":");
    push_two_digits(&mut out, seconds as u8);
    proof {
        reveal_strlit(":");
        assert(out@ =~= hms_text(total_seconds as nat));
    }
    out
}

/// Hundredths of a gibibyte in `bytes`, to the nearest hundredth, ties to even.
pub open spec fn gib_hundredths(bytes: nat) -> nat {
    round_half_even(bytes * 100, GIB as nat)
}

/// The text of a byte count in gibibytes with two decimals and the suffix `GB`.
pub open spec fn gb_text(bytes: nat) -> Seq<char> {
    hundredths_text(gib_hundredths(bytes)) + seq!['G', 'B']
}

/// Renders a byte count in gibibytes with exactly two decimals. The suffix
/// reads `GB` although the unit is 1024³ bytes.
pub fn fmt_gb_two_decimals(bytes: u64) -> (text: String)
    ensures
        text@ == gb_text(bytes as nat),
{
    let hundredths = div_round_half_even(bytes as u128 * 100, GIB as u128);
    let mut out = String::new();
    push_hundredths(&mut out, hundredths);
    out.append("GB");
    proof {
        reveal_strlit("GB");
        assert(out@ =~= gb_text(bytes as nat));
    }
    out
}

/// Which unit a byte count of at least 1024 is shown in: 1 for K up to 4 for T.
pub open spec fn unit_index(bytes: nat) -> nat {
    if bytes < 0x10_0000 {
        1
    } else if bytes < 0x4000_0000 {
        2
    } else if bytes < 0x100_0000_0000 {
        3
    } else {
        4
    }
}

/// Bytes in one unit: 1024 to the power `index`, for the units K, M, G and T.
pub open spec fn unit_size(index: nat) -> nat {
    if index == 1 {
        0x400
    } else if index == 2 {
        0x10_0000
    } else if index == 3 {
        0x4000_0000
    } else {
        0x100_0000_0000
    }
}

/// The letter of a unit.
pub open spec fn unit_letter(index: nat) -> char {
    if index == 1 {
        'K'
    } else if index == 2 {
        'M'
    } else if index == 3 {
        'G'
    } else {
        'T'
    }
}

/// The unit of a byte count is the largest of K, M, G and T that the count
/// reaches: dividing by 1024 it is arrived at step by step, for as long as
/// 1024 or more is left and a larger unit remains.
pub proof fn lemma_unit_choice(bytes: nat)
    requires
        bytes >= 1024,
    ensures
        1 <= unit_index(bytes) <= 4,
        unit_size(unit_index(bytes)) <= bytes,
        unit_index(bytes) < 4 ==> bytes < 1024 * unit_size(unit_index(bytes)),
        forall|index: nat| 1 <= index < 4 ==> unit_size(index + 1) == 1024 * #[trigger] unit_size(index),
{
}

/// The short text of a byte count: below 1024 bytes always `0.0K`; from there
/// on the count in the largest unit of K, M, G, T that it reaches, to the
/// nearest tenth (ties to even), followed by the unit's letter.
pub open spec fn short_text(bytes: nat) -> Seq<char> {
    if bytes < 1024 {
        seq!['0', '.', '0', 'K']
    } else {
        let index = unit_index(bytes);
        tenths_text(round_half_even(bytes * 10, unit_size(index))) + seq![unit_letter(index)]
    }
}

/// Renders a byte count with one decimal and a one-letter unit.
pub fn humanize_bytes_short(bytes: u64) -> (text: String)
    ensures
        text@ == short_text(bytes as nat),
{
    if bytes < 1024 {
        proof {
            reveal_strlit("0.0K");
        }
        let text = "0.0K".to_owned();
        assert(text@ =~= short_text(bytes as nat));
        return text;
    }
    let mut out = String::new();
    if bytes < 0x10_0000 {
        push_tenths(&mut out, div_round_half_even(bytes as u128 * 10, 0x400));
        out.append("K");
    } else if bytes < 0x4000_0000 {
        push_tenths(&mut out, div_round_half_even(bytes as u128 * 10, 0x10_0000));
        out.append("M");
    } else if bytes < 0x100_0000_0000 {
        push_tenths(&mut out, div_round_half_even(bytes as u128 * 10, 0x4000_0000));
        out.append("G");
    } else {
        push_tenths(&mut out, div_round_half_even(bytes as u128 * 10, 0x100_0000_0000));
        out.append("T");
    }
    proof {
        reveal_strlit("K");
        reveal_strlit("M");
        reveal_strlit("G");
        reveal_strlit("T");
        assert(out@ =~= short_text(bytes as nat));
    }
    out
}

/// The text of a percentage with one decimal place and the sign `%`. The
/// value is shown as it is, without being brought into any range.
pub open spec fn percent_text(value: Binary64) -> Seq<char> {
    fixed1_text(value) + seq!['%']
}

/// Renders a percentage with one decimal place, rounded to the nearest tenth
/// with a tie going away from zero.
pub fn fmt_percent_1dp(value: Binary64) -> (text: String)
    ensures
        text@ == percent_text(value),
{
    let mut out = String::new();
    push_fixed1(&mut out, value);
    out.append("%");
    proof {
        reveal_strlit("%");
        assert(out@ =~= percent_text(value));
    }
    out
}

/// Tenths of a percent that `part` is of `whole`, to the nearest tenth, ties
/// away from zero; zero when `whole` is zero.
pub open spec fn share_tenths(part: nat, whole: nat) -> nat {
    if whole == 0 {
        0
    } else {
        round_half_up(part * 1000, whole)
    }
}

/// The text of `part` as a percentage of `whole`, with one decimal and `%`.
pub open spec fn share_text(part: nat, whole: nat) -> Seq<char> {
    tenths_text(share_tenths(part, whole)) + seq!['%']
}

/// Renders `part` as a percentage of `whole` with one decimal place.
pub fn fmt_share_1dp(part: u64, whole: u64) -> (text: String)
    ensures
        text@ == share_text(part as nat, whole as nat),
{
    let tenths = if whole == 0 {
        0
    } else {
        div_round_half_up(part as u128 * 1000, whole as u128)
    };
    let mut out = String::new();
    push_tenths(&mut out, tenths);
    out.append("%");
    proof {
        reveal_strlit("%");
        assert(out@ =~= share_text(part as nat, whole as nat));
    }
    out
}

/// Every renderer's text depends on nothing but its argument: rendering the
/// same value a second time gives the same text.
pub proof fn lemma_rendering_repeats(
    first: u64,
    second: u64,
    first_value: Binary64,
    second_value: Binary64,
    first_whole: u64,
    second_whole: u64,
)
    requires
        first == second,
        first_value == second_value,
        first_whole == second_whole,
    ensures
        hms_text(first as nat) == hms_text(second as nat),
        gb_text(first as nat) == gb_text(second as nat),
        short_text(first as nat) == short_text(second as nat),
        percent_text(first_value) == percent_text(second_value),
        share_text(first as nat, first_whole as nat) == share_text(
            second as nat,
            second_whole as nat,
        ),
{
}

} // verus!
