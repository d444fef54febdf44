//! The browser kind selector and its canonical text form.
//!
//! `BrowserType` is the crate's own enumeration-like adopter of the
//! canonical-string bridge: its wire form is one fixed lowercase
//! identifier per variant, case-sensitive and untrimmed.

use vstd::prelude::*;

verus! {

use crate::enumstrings::CanonicalText;
use vstd::string::StringExecFns;

/// Which browser an automation session drives.
#[derive(Clone, Copy, Debug, PartialEq, Eq, Structural)]
pub enum BrowserType {
    Chrome,
    Firefox,
}

impl CanonicalText for BrowserType {
    open spec fn text_of(&self) -> Seq<char> {
        match *self {
            BrowserType::Chrome => "chrome"@,
            BrowserType::Firefox => "firefox"@,
        }
    }

    open spec fn value_of(s: Seq<char>) -> Option<BrowserType> {
        if s == "chrome"@ {
            Some(BrowserType::Chrome)
        } else if s == "firefox"@ {
            Some(BrowserType::Firefox)
        } else {
            None
        }
    }

    proof fn lemma_canonical_round_trip(&self) {
        reveal_strlit("chrome");
        reveal_strlit("firefox");
        assert("chrome"@.len() == 6);
        assert("firefox"@.len() == 7);
        match *self {
            BrowserType::Chrome => {
                assert(Self::value_of(self.text_of()) == Some(BrowserType::Chrome));
            },
            BrowserType::Firefox => {
                assert(self.text_of() != "chrome"@);
                assert(Self::value_of(self.text_of()) == Some(BrowserType::Firefox));
            },
        }
    }

    fn to_text(&self) -> (s: String) {
        match self {
            BrowserType::Chrome => String::from_str("chrome"),
            BrowserType::Firefox => String::from_str("firefox"),
        }
    }

    fn from_text(s: &str) -> (r: Result<BrowserType, String>) {
        let owned = s.to_owned();
        if owned.eq(&String::from_str("chrome")) {
            Ok(BrowserType::Chrome)
        } else if owned.eq(&String::from_str("firefox")) {
            Ok(BrowserType::Firefox)
        } else {
            proof {
                reveal_strlit("expected one of the browser names");
            }
            Err(String::from_str("expected one of the browser names"))
        }
    }
}

} // verus!
