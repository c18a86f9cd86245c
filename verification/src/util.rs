//! Shared helpers: decimal numerals, floating-point values read exactly, the
//! fixed-format renderers and the rules that depend on the platform.

pub mod digits;
pub mod format;
pub mod ieee;
pub mod numeral;
pub mod platform;
