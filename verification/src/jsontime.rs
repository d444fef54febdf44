//! Fixed-precision Unix-timestamp codecs.
//!
//! Four codecs share one contract shape, parameterized by resolution:
//! second, millisecond, microsecond and nanosecond. Each encodes an
//! [`Instant`](crate::instant::Instant) as the decimal string of its unit
//! count since the epoch, truncating toward negative infinity, and decodes
//! such a string back, reporting a malformed string, a non-string token and
//! an out-of-range value each through its own error variant.

use vstd::prelude::*;

verus! {

use vstd::arithmetic::div_mod::{
    lemma_fundamental_div_mod,
    lemma_fundamental_div_mod_converse,
    lemma_mod_pos_bound,
};
use crate::decimal::{dec_rep, is_int_literal, literal_val, parse_int, render_int, ParsedInt};
use crate::decimal::lemma_dec_rep_round_trip;
use crate::instant::{instant_in_range, Instant};
use crate::wire::{DecodeError, WireScalar};
use vstd::string::StringExecFns;

/// Nanoseconds in one unit of each resolution.
pub const NANOS_PER_SECOND: u64 = 1_000_000_000;

pub const NANOS_PER_MILLISECOND: u64 = 1_000_000;

pub const NANOS_PER_MICROSECOND: u64 = 1_000;

pub const NANOS_PER_NANOSECOND: u64 = 1;

/// What decoding a wire scalar at a resolution of `scale` nanoseconds per
/// unit must return: the instant's nanosecond count on success, and the
/// precise error otherwise.
///
/// * a non-string token is a type mismatch;
/// * a string that is not a decimal integer literal is a parse failure
///   carrying the raw text and a non-empty diagnostic;
/// * a literal whose scaled value leaves the representable instant domain
///   is out of range;
/// * any other literal decodes to exactly its value times `scale`.
pub open spec fn timestamp_decode_rel(
    w: WireScalar,
    scale: int,
    r: Result<int, DecodeError>,
) -> bool {
    match w {
        WireScalar::Text(s) => {
            if !is_int_literal(s@) {
                &&& r matches Err(e)
                &&& e matches DecodeError::ParseFailure { raw, cause }
                &&& raw@ == s@
                &&& cause@.len() > 0
            } else if instant_in_range(literal_val(s@) * scale) {
                r == Ok::<int, DecodeError>(literal_val(s@) * scale)
            } else {
                &&& r matches Err(e)
                &&& e is OutOfRange
            }
        },
        _ => {
            &&& r matches Err(e)
            &&& e is TypeMismatch
        },
    }
}

/// The diagnostic attached to a malformed numeric string.
fn invalid_literal_cause() -> (c: String)
    ensures
        c@.len() > 0,
{
    proof {
        reveal_strlit("expected a decimal integer literal");
    }
    String::from_str("expected a decimal integer literal")
}

/// Renders the unit count of `nanos` at `scale` nanoseconds per unit,
/// truncating toward negative infinity.
fn encode_units(nanos: i64, scale: u64) -> (s: String)
    requires
        1 <= scale,
    ensures
        s@ == dec_rep(nanos as int / scale as int),
{
    if nanos >= 0 {
        let q = (nanos as u128) / (scale as u128);
        proof {
            assert(q <= nanos as u128) by {
                vstd::arithmetic::div_mod::lemma_div_nonincreasing(
                    nanos as u128 as int,
                    scale as int,
                );
            }
        }
        render_int(q as i128)
    } else {
        let mag = (-(nanos as i128)) as u128;
        let q_u = (mag + (scale as u128) - 1) / (scale as u128);
        proof {
            let m = mag as int;
            let d = scale as int;
            let qu = q_u as int;
            lemma_fundamental_div_mod(m + d - 1, d);
            lemma_mod_pos_bound(m + d - 1, d);
            let rr = (m + d - 1) % d;
            assert(m + d - 1 == d * qu + rr);
            assert((-m) == (-qu) * d + (d - 1 - rr)) by (nonlinear_arith)
                requires
                    m + d - 1 == d * qu + rr,
            ;
            lemma_fundamental_div_mod_converse(-m, d, -qu, d - 1 - rr);
            assert(nanos as int / d == -qu);
        }
        render_int(-(q_u as i128))
    }
}

/// Decodes a wire scalar at `scale` nanoseconds per unit into a nanosecond
/// count, with an explicit range check on the scaled value.
fn decode_units(w: &WireScalar, scale: u64) -> (r: Result<i64, DecodeError>)
    requires
        1 <= scale <= 1_000_000_000,
    ensures
        timestamp_decode_rel(
            *w,
            scale as int,
            match r {
                Ok(n) => Ok(n as int),
                Err(e) => Err(e),
            },
        ),
{
    match w {
        WireScalar::Text(s) => {
            match parse_int(s.as_str()) {
                ParsedInt::Invalid => Err(
                    DecodeError::ParseFailure { raw: s.clone(), cause: invalid_literal_cause() },
                ),
                ParsedInt::Overflow => {
                    proof {
                        let lv = literal_val(s@);
                        let d = scale as int;
                        if lv > i128::MAX {
                            assert(lv * d >= lv) by (nonlinear_arith)
                                requires
                                    lv >= 0,
                                    d >= 1,
                            ;
                        } else {
                            assert(lv * d <= lv) by (nonlinear_arith)
                                requires
                                    lv <= 0,
                                    d >= 1,
                            ;
                        }
                    }
                    Err(DecodeError::OutOfRange)
                },
                ParsedInt::Value(v) => {
                    if v >= 0 {
                        let bound = (i64::MAX as u128) / (scale as u128);
                        if (v as u128) <= bound {
                            proof {
                                let d = scale as int;
                                let b = bound as int;
                                lemma_fundamental_div_mod(i64::MAX as int, d);
                                lemma_mod_pos_bound(i64::MAX as int, d);
                                assert(v as int * d <= i64::MAX) by (nonlinear_arith)
                                    requires
                                        0 <= v as int <= b,
                                        d >= 1,
                                        i64::MAX as int == d * b + (i64::MAX as int) % d,
                                        (i64::MAX as int) % d >= 0,
                                ;
                            }
                            let prod = (v as u128) * (scale as u128);
                            Ok(prod as i64)
                        } else {
                            proof {
                                let d = scale as int;
                                let b = bound as int;
                                lemma_fundamental_div_mod(i64::MAX as int, d);
                                lemma_mod_pos_bound(i64::MAX as int, d);
                                assert(v as int * d > i64::MAX) by (nonlinear_arith)
                                    requires
                                        v as int > b,
                                        d >= 1,
                                        i64::MAX as int == d * b + (i64::MAX as int) % d,
                                        (i64::MAX as int) % d < d,
                                ;
                            }
                            Err(DecodeError::OutOfRange)
                        }
                    } else {
                        let mag: u128 = if v == i128::MIN {
                            170141183460469231731687303715884105728u128
                        } else {
                            (-v) as u128
                        };
                        let bound = 9223372036854775808u128 / (scale as u128);
                        if mag <= bound {
                            proof {
                                let d = scale as int;
                                let b = bound as int;
                                let m = mag as int;
                                lemma_fundamental_div_mod(9223372036854775808int, d);
                                lemma_mod_pos_bound(9223372036854775808int, d);
                                assert(m * d <= 9223372036854775808int) by (nonlinear_arith)
                                    requires
                                        0 <= m <= b,
                                        d >= 1,
                                        9223372036854775808int == d * b + 9223372036854775808int % d,
                                        9223372036854775808int % d >= 0,
                                ;
                                assert(v as int * d == -(m * d)) by (nonlinear_arith)
                                    requires
                                        v as int == -m,
                                ;
                            }
                            let prod = mag * (scale as u128);
                            Ok((-(prod as i128)) as i64)
                        } else {
                            proof {
                                let d = scale as int;
                                let b = bound as int;
                                let m = mag as int;
                                lemma_fundamental_div_mod(9223372036854775808int, d);
                                lemma_mod_pos_bound(9223372036854775808int, d);
                                assert(m * d > 9223372036854775808int) by (nonlinear_arith)
                                    requires
                                        m > b,
                                        d >= 1,
                                        9223372036854775808int == d * b + 9223372036854775808int % d,
                                        9223372036854775808int % d < d,
                                ;
                                assert(v as int * d == -(m * d)) by (nonlinear_arith)
                                    requires
                                        v as int == -m,
                                ;
                            }
                            Err(DecodeError::OutOfRange)
                        }
                    }
                },
            }
        },
        _ => Err(DecodeError::TypeMismatch),
    }
}

/// Round trip at one resolution: an instant aligned to the resolution's
/// granularity decodes from its own encoding exactly, negative instants
/// included. The encoded text is a well-formed literal whose value, scaled
/// back up, is the original nanosecond count.
pub proof fn lemma_timestamp_round_trip(nanos: int, scale: int)
    requires
        1 <= scale,
        instant_in_range(nanos),
        nanos % scale == 0,
    ensures
        is_int_literal(dec_rep(nanos / scale)),
        literal_val(dec_rep(nanos / scale)) * scale == nanos,
{
    lemma_dec_rep_round_trip(nanos / scale);
    lemma_fundamental_div_mod(nanos, scale);
}

/// Encoding truncates toward negative infinity: the encoded unit count,
/// scaled back up, never exceeds the original nanosecond count and falls
/// short of it by less than one unit.
pub proof fn lemma_encode_floors(nanos: int, scale: int)
    requires
        1 <= scale,
    ensures
        literal_val(dec_rep(nanos / scale)) * scale <= nanos,
        nanos < literal_val(dec_rep(nanos / scale)) * scale + scale,
{
    lemma_dec_rep_round_trip(nanos / scale);
    lemma_fundamental_div_mod(nanos, scale);
    vstd::arithmetic::div_mod::lemma_mod_bound(nanos, scale);
}

/// Encoding one nonzero instant at two resolutions it is aligned to yields
/// two different strings.
pub proof fn lemma_cross_resolution_distinct(nanos: int, scale_a: int, scale_b: int)
    requires
        1 <= scale_a < scale_b,
        nanos != 0,
        nanos % scale_a == 0,
        nanos % scale_b == 0,
    ensures
        dec_rep(nanos / scale_a) != dec_rep(nanos / scale_b),
{
    let qa = nanos / scale_a;
    let qb = nanos / scale_b;
    lemma_dec_rep_round_trip(qa);
    lemma_dec_rep_round_trip(qb);
    lemma_fundamental_div_mod(nanos, scale_a);
    lemma_fundamental_div_mod(nanos, scale_b);
    if dec_rep(qa) == dec_rep(qb) {
        assert(qa == qb);
        assert(false) by (nonlinear_arith)
            requires
                nanos == scale_a * qa + nanos % scale_a,
                nanos == scale_b * qb + nanos % scale_b,
                nanos % scale_a == 0,
                nanos % scale_b == 0,
                qa == qb,
                1 <= scale_a < scale_b,
                nanos != 0,
        ;
    }
}

/// A timestamp at second resolution: its wire form is the decimal string of
/// whole seconds since the epoch.
#[derive(Clone, Copy, Debug, PartialEq, Eq, Structural)]
pub struct UnixString(pub Instant);

/// A timestamp at millisecond resolution.
#[derive(Clone, Copy, Debug, PartialEq, Eq, Structural)]
pub struct UnixMilliString(pub Instant);

/// A timestamp at microsecond resolution.
#[derive(Clone, Copy, Debug, PartialEq, Eq, Structural)]
pub struct UnixMicroString(pub Instant);

/// A timestamp at nanosecond resolution.
#[derive(Clone, Copy, Debug, PartialEq, Eq, Structural)]
pub struct UnixNanoString(pub Instant);

impl UnixString {
    /// Encodes the instant as the decimal string of its floored whole-second
    /// count. Never fails and never pads or reformats the digits.
    pub fn serialize(&self) -> (w: WireScalar)
        ensures
            w matches WireScalar::Text(s) && s@ == dec_rep(
                self.0.spec_nanos() / NANOS_PER_SECOND as int,
            ),
    {
        WireScalar::Text(encode_units(self.0.nanos(), NANOS_PER_SECOND))
    }

    /// Decodes a string token holding a decimal second count.
    pub fn deserialize(w: &WireScalar) -> (r: Result<Self, DecodeError>)
        ensures
            timestamp_decode_rel(
                *w,
                NANOS_PER_SECOND as int,
                match r {
                    Ok(v) => Ok(v.0.spec_nanos()),
                    Err(e) => Err(e),
                },
            ),
    {
        match decode_units(w, NANOS_PER_SECOND) {
            Ok(n) => Ok(UnixString(Instant::from_nanos(n))),
            Err(e) => Err(e),
        }
    }
}

impl UnixMilliString {
    /// Encodes the instant as the decimal string of its floored millisecond
    /// count.
    pub fn serialize(&self) -> (w: WireScalar)
        ensures
            w matches WireScalar::Text(s) && s@ == dec_rep(
                self.0.spec_nanos() / NANOS_PER_MILLISECOND as int,
            ),
    {
        WireScalar::Text(encode_units(self.0.nanos(), NANOS_PER_MILLISECOND))
    }

    /// Decodes a string token holding a decimal millisecond count.
    pub fn deserialize(w: &WireScalar) -> (r: Result<Self, DecodeError>)
        ensures
            timestamp_decode_rel(
                *w,
                NANOS_PER_MILLISECOND as int,
                match r {
                    Ok(v) => Ok(v.0.spec_nanos()),
                    Err(e) => Err(e),
                },
            ),
    {
        match decode_units(w, NANOS_PER_MILLISECOND) {
            Ok(n) => Ok(UnixMilliString(Instant::from_nanos(n))),
            Err(e) => Err(e),
        }
    }
}

impl UnixMicroString {
    /// Encodes the instant as the decimal string of its floored microsecond
    /// count.
    pub fn serialize(&self) -> (w: WireScalar)
        ensures
            w matches WireScalar::Text(s) && s@ == dec_rep(
                self.0.spec_nanos() / NANOS_PER_MICROSECOND as int,
            ),
    {
        WireScalar::Text(encode_units(self.0.nanos(), NANOS_PER_MICROSECOND))
    }

    /// Decodes a string token holding a decimal microsecond count.
    pub fn deserialize(w: &WireScalar) -> (r: Result<Self, DecodeError>)
        ensures
            timestamp_decode_rel(
                *w,
                NANOS_PER_MICROSECOND as int,
                match r {
                    Ok(v) => Ok(v.0.spec_nanos()),
                    Err(e) => Err(e),
                },
            ),
    {
        match decode_units(w, NANOS_PER_MICROSECOND) {
            Ok(n) => Ok(UnixMicroString(Instant::from_nanos(n))),
            Err(e) => Err(e),
        }
    }
}

impl UnixNanoString {
    /// Encodes the instant as the decimal string of its nanosecond count,
    /// which at this resolution is exact.
    pub fn serialize(&self) -> (w: WireScalar)
        ensures
            w matches WireScalar::Text(s) && s@ == dec_rep(self.0.spec_nanos()),
    {
        let w = WireScalar::Text(encode_units(self.0.nanos(), NANOS_PER_NANOSECOND));
        proof {
            lemma_fundamental_div_mod(self.0.spec_nanos(), 1);
        }
        w
    }

    /// Decodes a string token holding a decimal nanosecond count.
    pub fn deserialize(w: &WireScalar) -> (r: Result<Self, DecodeError>)
        ensures
            timestamp_decode_rel(
                *w,
                NANOS_PER_NANOSECOND as int,
                match r {
                    Ok(v) => Ok(v.0.spec_nanos()),
                    Err(e) => Err(e),
                },
            ),
    {
        match decode_units(w, NANOS_PER_NANOSECOND) {
            Ok(n) => Ok(UnixNanoString(Instant::from_nanos(n))),
            Err(e) => Err(e),
        }
    }
}

} // verus!
