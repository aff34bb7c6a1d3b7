//! A small unit-conversion engine for temperatures.
//!
//! The library parses a textual temperature literal (a signed decimal value
//! followed by a unit symbol, with an optional degree sign and either an ASCII
//! or a Unicode minus sign), converts the parsed value between Celsius,
//! Fahrenheit and Kelvin, and renders results back to text.
//!
//! Temperature values are held exactly, as fractions of integers: every
//! conversion constant (1.8 = 9/5, 32, 273.15 = 5463/20) is a ratio of
//! integers, so conversions are exact and round trips lose nothing.

pub mod convert;
pub mod fib;
pub mod laws;
pub mod parse;
pub mod rational;
pub mod render;
pub mod units;
