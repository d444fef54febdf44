//! Conversion of string-like values into clone-on-write strings.

use std::borrow::Cow;
use vstd::prelude::*;

verus! {

/// A value that can be wrapped as a clone-on-write string without changing
/// its characters.
pub trait ToCow: View<V = Seq<char>> + Sized {
    /// Wraps `self`, keeping its characters exactly.
    fn cow(self) -> (c: Cow<'static, str>)
        ensures
            c@ == self@,
    ;
}

/// Relies on `alloc::borrow::Cow::Borrowed`: vstd defines the view of a
/// borrowed cow as the view of the borrowed string slice.
#[verifier::external_body]
fn cow_borrowed(s: &'static str) -> (c: Cow<'static, str>)
    ensures
        c@ == s@,
{
    Cow::Borrowed(s)
}

/// Relies on `alloc::borrow::Cow::Owned`: vstd defines the view of an owned
/// cow as the view of the owned string.
#[verifier::external_body]
fn cow_owned(s: String) -> (c: Cow<'static, str>)
    ensures
        c@ == s@,
{
    Cow::Owned(s)
}

impl ToCow for &'static str {
    fn cow(self) -> (c: Cow<'static, str>) {
        cow_borrowed(self)
    }
}

impl ToCow for String {
    fn cow(self) -> (c: Cow<'static, str>) {
        cow_owned(self)
    }
}

impl ToCow for Cow<'static, str> {
    fn cow(self) -> (c: Cow<'static, str>) {
        self
    }
}

} // verus!
