//! The wire-scalar model and the decoding error taxonomy.
//!
//! The structured-data framework that surrounds these codecs hands each
//! scalar over as a tagged value: a string token, a native number token, or
//! something else (boolean, null). The codecs only ever look at that tag and
//! at the string or number inside it.

use vstd::prelude::*;

verus! {

/// A single primitive wire value, as the structured-data framework presents
/// it to a decoder or accepts it from an encoder.
///
/// Number tokens carry the integer value of the native number; the codecs in
/// this crate never produce number tokens and never read anything finer out
/// of one.
#[derive(Clone, Debug, PartialEq, Eq)]
pub enum WireScalar {
    /// A string token.
    Text(String),
    /// A native integer number token.
    Number(i128),
    /// A boolean token.
    Boolean(bool),
    /// A null token.
    Null,
}

/// Why a scalar could not be decoded. Every failure is reported through one
/// of these variants; no decoder in this crate coerces a bad input to a
/// default or clamped value.
#[derive(Clone, Debug, PartialEq, Eq)]
pub enum DecodeError {
    /// The wire scalar's tag does not match what the decoder requires, e.g.
    /// a boolean or null where a string was required.
    TypeMismatch,
    /// The textual content could not be parsed into the target numeric
    /// type; `cause` carries the parser's diagnostic.
    ParseFailure { raw: String, cause: String },
    /// The canonical parser of the target type rejected the string; `cause`
    /// carries the parser's diagnostic.
    InvalidValue { raw: String, cause: String },
    /// A syntactically valid number denotes a value outside the
    /// representable domain of the target type.
    OutOfRange,
}

impl DecodeError {
    /// A short fixed description of the error kind, usable in diagnostics.
    pub fn kind_text(&self) -> (s: &'static str)
        ensures
            s@.len() > 0,
    {
        proof {
            reveal_strlit("type mismatch");
            reveal_strlit("parse failure");
            reveal_strlit("invalid value");
            reveal_strlit("out of range");
        }
        match self {
            DecodeError::TypeMismatch => "type mismatch",
            DecodeError::ParseFailure { .. } => "parse failure",
            DecodeError::InvalidValue { .. } => "invalid value",
            DecodeError::OutOfRange => "out of range",
        }
    }
}

} // verus!
