//! Verified core of a small RF engineering calculator: unit tables,
//! two-port matrix conversion planning, the reading and checking of number
//! fields, number-text trimming, and the form updates that each calculator
//! action performs.

pub mod matrix;
pub mod text;
pub mod units;
pub mod wavelength;
pub mod reactance;
pub mod microstrip;
pub mod numeral;
pub mod fields;
