//! The library's error values.
use vstd::prelude::*;

verus! {

#[derive(Clone, Copy, Debug, PartialEq, Eq, Structural)]
pub enum BrowserError {
    /// The text is no absolute URL.
    InvalidUrl,
    /// The security policy refused the navigation.
    NavigationBlocked,
}

impl BrowserError {
    /// A sentence that describes the error.
    pub fn message(&self) -> (r: &'static str)
        ensures
            r@ == (match self {
                BrowserError::InvalidUrl => "Invalid URL"@,
                BrowserError::NavigationBlocked => "Navigation blocked by security policy"@,
            }),
    {
        match self {
            BrowserError::InvalidUrl => "Invalid URL",
            BrowserError::NavigationBlocked => "Navigation blocked by security policy",
        }
    }
}

} // verus!
