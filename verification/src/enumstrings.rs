//! The canonical-string bridge and the flexible scalar decoder.
//!
//! The bridge gives any type with one authoritative text form a wire
//! encoding as a string token and a decoding back from it. The flexible
//! decoder accepts a scalar that upstream producers encode inconsistently,
//! either as a string token or as a native number token, and normalizes
//! both to one target type.

use vstd::prelude::*;

verus! {

use crate::decimal::{dec_rep, is_int_literal, lemma_dec_rep_round_trip, literal_val, parse_int,
ParsedInt};
use crate::wire::{DecodeError, WireScalar};
use vstd::string::StringExecFns;
use vstd::string::StrSliceExecFns;

/// A type with one authoritative text rendering and one canonical parser,
/// paired so that parsing the rendering gives the value back.
///
/// Each adopting type supplies the pair once and gets wire support through
/// [`serialize_to_string`] and [`deserialize_from_str`] without writing any
/// encode or decode logic of its own.
pub trait CanonicalText: Sized {
    /// The canonical text of `self`.
    spec fn text_of(&self) -> Seq<char>;

    /// The value whose canonical text is `s`, if there is one.
    spec fn value_of(s: Seq<char>) -> Option<Self>;

    /// Law: the canonical parser takes every canonical text back to its
    /// value.
    proof fn lemma_canonical_round_trip(&self)
        ensures
            Self::value_of(self.text_of()) == Some(*self),
    ;

    /// Renders the canonical text of `self`.
    fn to_text(&self) -> (s: String)
        ensures
            s@ == self.text_of(),
    ;

    /// Parses a canonical text, rejecting every other string with a
    /// non-empty diagnostic.
    fn from_text(s: &str) -> (r: Result<Self, String>)
        ensures
            match Self::value_of(s@) {
                Some(v) => r matches Ok(got) && got == v,
                None => r matches Err(cause) && cause@.len() > 0,
            },
    ;
}

/// Encodes a value as a string token holding exactly its canonical text.
/// Always succeeds.
pub fn serialize_to_string<T: CanonicalText>(value: &T) -> (w: WireScalar)
    ensures
        w matches WireScalar::Text(s) && s@ == value.text_of(),
{
    WireScalar::Text(value.to_text())
}

/// Decodes a string token through the target type's canonical parser.
///
/// A non-string token is a type mismatch; a string the parser rejects is an
/// invalid value carrying the raw text and the parser's diagnostic.
pub fn deserialize_from_str<T: CanonicalText>(w: &WireScalar) -> (r: Result<T, DecodeError>)
    ensures
        match *w {
            WireScalar::Text(s) => match T::value_of(s@) {
                Some(v) => r matches Ok(got) && got == v,
                None => {
                    &&& r matches Err(e)
                    &&& e matches DecodeError::InvalidValue { raw, cause }
                    &&& raw@ == s@
                    &&& cause@.len() > 0
                },
            },
            _ => r matches Err(e) && e is TypeMismatch,
        },
{
    match w {
        WireScalar::Text(s) => match T::from_text(s.as_str()) {
            Ok(v) => Ok(v),
            Err(cause) => Err(DecodeError::InvalidValue { raw: s.clone(), cause }),
        },
        _ => Err(DecodeError::TypeMismatch),
    }
}

/// Law: the canonical-string bridge round-trips every value: decoding the
/// encoding of `value` yields `value` again.
pub proof fn lemma_bridge_round_trip<T: CanonicalText>(value: T)
    ensures
        T::value_of(value.text_of()) == Some(value),
{
    value.lemma_canonical_round_trip();
}

/// A scalar type that the flexible decoder can target: it can be read out
/// of a string token and out of a native number token, and the two readings
/// agree on every integer.
pub trait FlexibleScalar: Sized {
    /// The value the string `s` denotes, if it parses.
    spec fn parse_of(s: Seq<char>) -> Option<Self>;

    /// The value the native number `n` denotes, if it is representable.
    spec fn number_of(n: i128) -> Option<Self>;

    /// Law: a native number token and the string token holding the same
    /// decimal text denote the same value, or both denote none.
    proof fn lemma_number_text_agree(n: i128)
        ensures
            Self::number_of(n) == Self::parse_of(dec_rep(n as int)),
    ;

    /// Parses a string token's content, rejecting what does not parse with
    /// a non-empty diagnostic.
    fn parse_text(s: &str) -> (r: Result<Self, String>)
        ensures
            match Self::parse_of(s@) {
                Some(v) => r matches Ok(got) && got == v,
                None => r matches Err(cause) && cause@.len() > 0,
            },
    ;

    /// Reads a native number token's value, if it is representable.
    fn from_number(n: i128) -> (r: Option<Self>)
        ensures
            r == Self::number_of(n),
    ;
}

/// Decodes a scalar that may arrive either as a string token or as a native
/// number token, normalizing both to the target type.
///
/// A string that does not parse is a parse failure carrying the raw text
/// and a diagnostic; a number outside the target's domain is out of range;
/// a boolean, null or structured token is a type mismatch. The decoder adds
/// no leniency of its own: the target type's parser is authoritative.
pub fn deserialize_from_string_parse<T: FlexibleScalar>(w: &WireScalar) -> (r: Result<
    T,
    DecodeError,
>)
    ensures
        match *w {
            WireScalar::Text(s) => match T::parse_of(s@) {
                Some(v) => r matches Ok(got) && got == v,
                None => {
                    &&& r matches Err(e)
                    &&& e matches DecodeError::ParseFailure { raw, cause }
                    &&& raw@ == s@
                    &&& cause@.len() > 0
                },
            },
            WireScalar::Number(n) => match T::number_of(n) {
                Some(v) => r matches Ok(got) && got == v,
                None => r matches Err(e) && e is OutOfRange,
            },
            _ => r matches Err(e) && e is TypeMismatch,
        },
{
    match w {
        WireScalar::Text(s) => match T::parse_text(s.as_str()) {
            Ok(v) => Ok(v),
            Err(cause) => Err(DecodeError::ParseFailure { raw: s.clone(), cause }),
        },
        WireScalar::Number(n) => match T::from_number(*n) {
            Some(v) => Ok(v),
            None => Err(DecodeError::OutOfRange),
        },
        _ => Err(DecodeError::TypeMismatch),
    }
}

/// The diagnostic for a string that is not a decimal integer literal.
fn not_a_literal_cause() -> (c: String)
    ensures
        c@.len() > 0,
{
    proof {
        reveal_strlit("not a decimal integer literal");
    }
    String::from_str("not a decimal integer literal")
}

/// The diagnostic for a literal outside the target type's range.
fn out_of_range_cause() -> (c: String)
    ensures
        c@.len() > 0,
{
    proof {
        reveal_strlit("integer literal out of range");
    }
    String::from_str("integer literal out of range")
}

impl FlexibleScalar for i64 {
    open spec fn parse_of(s: Seq<char>) -> Option<i64> {
        if is_int_literal(s) && i64::MIN <= literal_val(s) <= i64::MAX {
            Some(literal_val(s) as i64)
        } else {
            None
        }
    }

    open spec fn number_of(n: i128) -> Option<i64> {
        if i64::MIN <= n <= i64::MAX {
            Some(n as i64)
        } else {
            None
        }
    }

    proof fn lemma_number_text_agree(n: i128) {
        lemma_dec_rep_round_trip(n as int);
    }

    fn parse_text(s: &str) -> (r: Result<i64, String>) {
        match parse_int(s) {
            ParsedInt::Value(v) => {
                if i64::MIN as i128 <= v && v <= i64::MAX as i128 {
                    Ok(v as i64)
                } else {
                    Err(out_of_range_cause())
                }
            },
            ParsedInt::Overflow => Err(out_of_range_cause()),
            ParsedInt::Invalid => Err(not_a_literal_cause()),
        }
    }

    fn from_number(n: i128) -> (r: Option<i64>) {
        if i64::MIN as i128 <= n && n <= i64::MAX as i128 {
            Some(n as i64)
        } else {
            None
        }
    }
}

impl FlexibleScalar for u64 {
    // As with the standard unsigned parser, a minus sign is rejected
    // outright, even on a zero.
    open spec fn parse_of(s: Seq<char>) -> Option<u64> {
        if is_int_literal(s) && s[0] != '-' && literal_val(s) <= u64::MAX {
            Some(literal_val(s) as u64)
        } else {
            None
        }
    }

    open spec fn number_of(n: i128) -> Option<u64> {
        if 0 <= n <= u64::MAX {
            Some(n as u64)
        } else {
            None
        }
    }

    proof fn lemma_number_text_agree(n: i128) {
        lemma_dec_rep_round_trip(n as int);
        if n >= 0 {
            crate::decimal::lemma_dec_digits_val(n as nat);
            assert(crate::decimal::is_digit(dec_rep(n as int)[0]));
        }
    }

    fn parse_text(s: &str) -> (r: Result<u64, String>) {
        if s.unicode_len() > 0 && s.get_char(0) == '-' {
            return Err(not_a_literal_cause());
        }
        proof {
            if is_int_literal(s@) {
                assert(s@[0] != '-');
                let body = if s@[0] == '+' {
                    s@.skip(1)
                } else {
                    s@
                };
                crate::decimal::lemma_digits_val_nonneg(body);
                assert(literal_val(s@) >= 0);
            }
        }
        match parse_int(s) {
            ParsedInt::Value(v) => {
                if v <= u64::MAX as i128 {
                    Ok(v as u64)
                } else {
                    Err(out_of_range_cause())
                }
            },
            ParsedInt::Overflow => Err(out_of_range_cause()),
            ParsedInt::Invalid => Err(not_a_literal_cause()),
        }
    }

    fn from_number(n: i128) -> (r: Option<u64>) {
        if 0 <= n && n <= u64::MAX as i128 {
            Some(n as u64)
        } else {
            None
        }
    }
}

} // verus!
