//! Memory usage as one line.

use crate::util::format::{fmt_gb_two_decimals, fmt_share_1dp, gb_text, share_text};
use vstd::prelude::*;

verus! {

/// One reading of the machine's memory.
#[derive(Clone, Copy, Debug, PartialEq, Eq)]
pub struct MemoryReading {
    /// All memory, in bytes.
    pub total_bytes: u64,
    /// Memory that can be handed out without swapping, in bytes.
    pub available_bytes: u64,
}

/// What is in use of `total` when `available` is free: their difference, and
/// zero should `available` exceed `total`.
pub open spec fn used_of(total: nat, available: nat) -> nat {
    if available >= total {
        0
    } else {
        (total - available) as nat
    }
}

/// Computes the bytes in use.
pub fn used_bytes(total: u64, available: u64) -> (used: u64)
    ensures
        used == used_of(total as nat, available as nat),
{
    if available >= total {
        0
    } else {
        total - available
    }
}

/// The line for a memory reading: used and total in gibibytes when the total
/// is asked for, else the share in use as a percentage.
pub open spec fn memory_line(reading: MemoryReading, show_total: bool) -> Seq<char> {
    let total = reading.total_bytes as nat;
    let used = used_of(total, reading.available_bytes as nat);
    if show_total {
        gb_text(used) + seq!['/'] + gb_text(total)
    } else {
        share_text(used, total)
    }
}

/// Renders a memory reading.
pub fn report(reading: &MemoryReading, show_total: bool) -> (line: String)
    ensures
        line@ == memory_line(*reading, show_total),
{
    let used = used_bytes(reading.total_bytes, reading.available_bytes);
    if show_total {
        let mut line = fmt_gb_two_decimals(used);
        let total = fmt_gb_two_decimals(reading.total_bytes);
        line.append("/");
        line.append(total.as_str());
        proof {
            reveal_strlit("/");
            assert(line@ =~= memory_line(*reading, show_total));
        }
        line
    } else {
        fmt_share_1dp(used, reading.total_bytes)
    }
}

} // verus!
