//! Decimal text form of wide signed integers.
//!
//! Every wire encoding in this crate renders an integer as an ASCII decimal
//! string, optionally prefixed with a sign, and parses the same shape back.
//! The spec functions here define that shape once; the executable renderer
//! and parser are proved against them.

use vstd::prelude::*;

verus! {

use vstd::string::StrSliceExecFns;
use vstd::string::StringExecFns;

/// The character standing for the decimal digit `d`.
pub open spec fn digit_to_char(d: int) -> char {
    if d == 0 {
        '0'
    } else if d == 1 {
        '1'
    } else if d == 2 {
        '2'
    } else if d == 3 {
        '3'
    } else if d == 4 {
        '4'
    } else if d == 5 {
        '5'
    } else if d == 6 {
        '6'
    } else if d == 7 {
        '7'
    } else if d == 8 {
        '8'
    } else {
        '9'
    }
}

/// Whether `c` is an ASCII decimal digit.
pub open spec fn is_digit(c: char) -> bool {
    48 <= c as int && c as int <= 57
}

/// The value of the ASCII decimal digit `c`.
pub open spec fn char_to_digit(c: char) -> int {
    c as int - 48
}

/// The digits of `n` in base ten, most significant first, with no sign and
/// no padding: the exact text that renders a non-negative integer.
pub open spec fn dec_digits(n: nat) -> Seq<char>
    decreases n,
{
    if n < 10 {
        seq![digit_to_char(n as int)]
    } else {
        dec_digits(n / 10) + seq![digit_to_char((n % 10) as int)]
    }
}

/// The decimal text of the integer `n`: its digits, prefixed with `-` when
/// `n` is negative.
pub open spec fn dec_rep(n: int) -> Seq<char> {
    if n < 0 {
        seq!['-'] + dec_digits((-n) as nat)
    } else {
        dec_digits(n as nat)
    }
}

/// Whether every character of `s` is an ASCII decimal digit.
pub open spec fn all_digits(s: Seq<char>) -> bool {
    forall|i: int| 0 <= i < s.len() ==> is_digit(#[trigger] s[i])
}

/// The non-negative integer denoted by the digit string `s` (0 when empty).
pub open spec fn digits_val(s: Seq<char>) -> int
    decreases s.len(),
{
    if s.len() == 0 {
        0
    } else {
        digits_val(s.drop_last()) * 10 + char_to_digit(s.last())
    }
}

/// Whether `s` is a decimal integer literal: an optional `+` or `-` sign
/// followed by one or more ASCII digits, and nothing else.
pub open spec fn is_int_literal(s: Seq<char>) -> bool {
    if s.len() == 0 {
        false
    } else if s[0] == '-' || s[0] == '+' {
        s.len() > 1 && all_digits(s.skip(1))
    } else {
        all_digits(s)
    }
}

/// The integer denoted by the literal `s` (meaningful when
/// `is_int_literal(s)` holds).
pub open spec fn literal_val(s: Seq<char>) -> int {
    if s.len() > 0 && s[0] == '-' {
        -digits_val(s.skip(1))
    } else if s.len() > 0 && s[0] == '+' {
        digits_val(s.skip(1))
    } else {
        digits_val(s)
    }
}

/// A one-character string slice holding the decimal digit `d`.
fn digit_str(d: u128) -> (s: &'static str)
    requires
        d < 10,
    ensures
        s@ =~= seq![digit_to_char(d as int)],
{
    proof {
        reveal_strlit("0");
        reveal_strlit("1");
        reveal_strlit("2");
        reveal_strlit("3");
        reveal_strlit("4");
        reveal_strlit("5");
        reveal_strlit("6");
        reveal_strlit("7");
        reveal_strlit("8");
        reveal_strlit("9");
    }
    match d {
        0 => "0",
        1 => "1",
        2 => "2",
        3 => "3",
        4 => "4",
        5 => "5",
        6 => "6",
        7 => "7",
        8 => "8",
        _ => "9",
    }
}

/// The digits of `mag` in base ten, most significant first.
fn render_digits(mag: u128) -> (s: String)
    ensures
        s@ == dec_digits(mag as nat),
    decreases mag,
{
    let last = digit_str(mag % 10);
    if mag < 10 {
        String::from_str(last)
    } else {
        let mut s = render_digits(mag / 10);
        s.append(last);
        proof {
            assert(s@ =~= dec_digits(mag as nat));
        }
        s
    }
}

/// Every digit string denotes a non-negative value.
pub proof fn lemma_digits_val_nonneg(s: Seq<char>)
    requires
        all_digits(s),
    ensures
        digits_val(s) >= 0,
    decreases s.len(),
{
    if s.len() > 0 {
        assert(all_digits(s.drop_last()));
        lemma_digits_val_nonneg(s.drop_last());
    }
}

/// The digit character of `d` carries the value `d` and is a digit.
proof fn lemma_digit_char(d: int)
    requires
        0 <= d <= 9,
    ensures
        is_digit(digit_to_char(d)),
        char_to_digit(digit_to_char(d)) == d,
{
}

/// Rendering a non-negative integer gives digits only, at least one of
/// them, and parsing them back gives the integer again.
pub proof fn lemma_dec_digits_val(n: nat)
    ensures
        all_digits(dec_digits(n)),
        dec_digits(n).len() >= 1,
        digits_val(dec_digits(n)) == n,
    decreases n,
{
    if n < 10 {
        lemma_digit_char(n as int);
        let s = dec_digits(n);
        assert(s.drop_last() =~= Seq::<char>::empty());
        assert(digits_val(Seq::<char>::empty()) == 0);
        assert(digits_val(s) == digits_val(s.drop_last()) * 10 + char_to_digit(s.last()));
        assert(s.last() == digit_to_char(n as int));
    } else {
        lemma_dec_digits_val(n / 10);
        lemma_digit_char((n % 10) as int);
        let s = dec_digits(n);
        assert(s.drop_last() =~= dec_digits(n / 10));
        assert(s.last() == digit_to_char((n % 10) as int));
        assert(digits_val(s) == digits_val(s.drop_last()) * 10 + char_to_digit(s.last()));
        assert(digits_val(s) == (n / 10) * 10 + n % 10);
    }
}

/// The decimal text of any integer is a well-formed literal and denotes
/// that integer: rendering and parsing are mutually inverse.
pub proof fn lemma_dec_rep_round_trip(n: int)
    ensures
        is_int_literal(dec_rep(n)),
        literal_val(dec_rep(n)) == n,
{
    if n >= 0 {
        lemma_dec_digits_val(n as nat);
        let s = dec_rep(n);
        assert(is_digit(s[0]));
    } else {
        lemma_dec_digits_val((-n) as nat);
        let s = dec_rep(n);
        assert(s[0] == '-');
        assert(s.skip(1) =~= dec_digits((-n) as nat));
    }
}

/// Renders `n` as its decimal text: digits preceded by `-` when negative,
/// with no padding and no other characters.
pub fn render_int(n: i128) -> (s: String)
    ensures
        s@ == dec_rep(n as int),
{
    if n >= 0 {
        render_digits(n as u128)
    } else {
        let mag: u128 = if n == i128::MIN {
            170141183460469231731687303715884105728u128
        } else {
            (-n) as u128
        };
        let mut s = String::from_str("-");
        let digits = render_digits(mag);
        s.append(digits.as_str());
        proof {
            reveal_strlit("-");
            assert(s@ =~= dec_rep(n as int));
        }
        s
    }
}

/// What a string holds when read as a decimal integer literal.
#[derive(Clone, Copy, Debug, PartialEq, Eq, Structural)]
pub enum ParsedInt {
    /// The string is a literal whose value fits the 128-bit signed range.
    Value(i128),
    /// The string is a literal, but its value lies outside that range.
    Overflow,
    /// The string is not a decimal integer literal at all.
    Invalid,
}

/// Parses `s` as a decimal integer literal: an optional `+` or `-` sign
/// followed by one or more ASCII digits. Distinguishes a malformed string
/// from a well-formed literal whose value overflows 128 bits.
pub fn parse_int(s: &str) -> (r: ParsedInt)
    ensures
        (r matches ParsedInt::Value(v) ==> is_int_literal(s@) && i128::MIN <= literal_val(s@)
            <= i128::MAX && v == literal_val(s@)),
        (r is Overflow ==> is_int_literal(s@) && !(i128::MIN <= literal_val(s@) <= i128::MAX)),
        (r is Invalid ==> !is_int_literal(s@)),
{
    let n = s.unicode_len();
    if n == 0 {
        return ParsedInt::Invalid;
    }
    let first = s.get_char(0);
    let neg = first == '-';
    let start: usize = if first == '-' || first == '+' {
        1
    } else {
        0
    };
    if n == start {
        return ParsedInt::Invalid;
    }
    let mut i: usize = start;
    let mut mag: u128 = 0;
    let mut too_big = false;
    while i < n
        invariant
            start <= i <= n,
            n == s@.len(),
            n > start,
            start == 0 || start == 1,
            (start == 1) <==> (s@[0] == '-' || s@[0] == '+'),
            neg <==> s@[0] == '-',
            all_digits(s@.subrange(start as int, i as int)),
            !too_big ==> mag == digits_val(s@.subrange(start as int, i as int)),
            too_big ==> digits_val(s@.subrange(start as int, i as int)) > i128::MAX as int + 1,
        decreases n - i,
    {
        let c = s.get_char(i);
        let u = c as u32;
        if u < 48 || u > 57 {
            proof {
                let body = if start == 1 {
                    s@.skip(1)
                } else {
                    s@
                };
                assert(!is_digit(s@[i as int]));
                assert(!is_digit(body[i - start]));
            }
            return ParsedInt::Invalid;
        }
        let d = (u - 48) as u128;
        let ghost pre = s@.subrange(start as int, i as int);
        let ghost post = s@.subrange(start as int, i + 1 as int);
        proof {
            assert(post.drop_last() =~= pre);
            assert(post.last() == s@[i as int]);
            assert(digits_val(post) == digits_val(pre) * 10 + char_to_digit(s@[i as int]));
            lemma_digits_val_nonneg(pre);
        }
        if !too_big {
            if mag <= (u128::MAX - 9) / 10 {
                mag = mag * 10 + d;
            } else {
                too_big = true;
                proof {
                    assert(digits_val(post) > i128::MAX as int + 1);
                }
            }
        }
        i = i + 1;
    }
    proof {
        let body = if start == 1 {
            s@.skip(1)
        } else {
            s@
        };
        assert(body =~= s@.subrange(start as int, n as int));
        assert(is_int_literal(s@));
        if neg {
            assert(literal_val(s@) == -digits_val(body));
        } else {
            assert(literal_val(s@) == digits_val(body));
        }
        lemma_digits_val_nonneg(body);
    }
    let limit: u128 = 170141183460469231731687303715884105727u128;
    if too_big {
        return ParsedInt::Overflow;
    }
    if neg {
        if mag > limit + 1 {
            ParsedInt::Overflow
        } else if mag == limit + 1 {
            ParsedInt::Value(i128::MIN)
        } else {
            ParsedInt::Value(-(mag as i128))
        }
    } else {
        if mag > limit {
            ParsedInt::Overflow
        } else {
            ParsedInt::Value(mag as i128)
        }
    }
}

} // verus!
