//! Compact time-range expressions for bounded stock-quote queries.
//!
//! A time range such as `"3d"` or `"2y"` is parsed into a validated
//! `TimeRange`, a sampling interval is chosen from its total duration so
//! that a fixed-width chart stays readable, and both are rendered back
//! into the compact wire format that the quote provider expects.

pub mod digits;
pub mod interval;
pub mod laws;
pub mod parse;
pub mod time;
