//! Point-in-time system metrics rendered as single status-line fragments:
//! CPU utilisation, memory and disk usage, and battery state.
//!
//! Every function here works on plain values that a caller has already read
//! from the machine; nothing in this crate touches the system itself.

pub mod battery;
pub mod cpu;
pub mod disk;
pub mod mem;
pub mod util;
