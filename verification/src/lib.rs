//! Rendering of signed time spans as compact human-readable strings
//! such as `"1h, 23m, 45s"`.

pub mod decimal;
pub mod durations;
pub mod laws;
