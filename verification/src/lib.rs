//! Codecs that carry scalar values across a JSON-like wire format through
//! their textual representations.
//!
//! The crate has three cooperating parts:
//!
//! * a canonical-string bridge, which gives any type with a canonical text
//!   form a wire encoding as a string token;
//! * a flexible scalar decoder, which accepts a scalar encoded either as a
//!   string token or as a native number token;
//! * a family of fixed-precision Unix-timestamp codecs (second, millisecond,
//!   microsecond and nanosecond resolution) that round-trip losslessly at
//!   their own resolution.

pub mod browser;
pub mod cow_strings;
pub mod decimal;
pub mod enumstrings;
pub mod error_utils;
pub mod instant;
pub mod jsontime;
pub mod wire;
