//! The error-building capability that applications implement.

use vstd::prelude::*;

verus! {

/// An application error built from a description and an optional
/// underlying error text, able to note the place it passed through.
///
/// Applications around these codecs implement it for their own error
/// types; it carries no contracts, since each implementation chooses its
/// own representation and rendering.
pub trait BaseError: Sized {
    /// Builds an error from a description and an optional cause.
    fn with_description_and_error(description: String, error: Option<String>) -> Self;

    /// Returns the error with the caller's location noted.
    fn add_location(self) -> Self;
}

} // verus!
