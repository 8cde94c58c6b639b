//! Secrets read from configuration.
//!
//! A secret can be given directly, read from a file (whitespace around it is
//! trimmed) or read from an environment variable. When printed, it shows
//! only `[redacted]`.

use vstd::prelude::*;
use crate::text::{trim, trim_seq};

verus! {

/// A secret value (API key, password, ...).
pub struct Secret(String);

impl View for Secret {
    type V = Seq<char>;

    closed spec fn view(&self) -> Seq<char> {
        self.0@
    }
}

impl Secret {
    /// Creates a secret from a direct string value.
    pub fn from_string(value: String) -> (r: Secret)
        ensures
            r@ == value@,
    {
        Secret(value)
    }

    /// Creates a secret from the contents of a file: surrounding whitespace
    /// is trimmed.
    pub fn from_file_contents(contents: &str) -> (r: Secret)
        ensures
            r@ == trim_seq(contents@),
    {
        Secret(trim(contents))
    }

    /// The secret value. Don't log it.
    pub fn expose(&self) -> (r: &str)
        ensures
            r@ == self@,
    {
        self.0.as_str()
    }

    /// What is shown in place of the secret when it is printed.
    pub fn redacted(&self) -> (r: &'static str)
        ensures
            r@ == "[redacted]"@,
    {
        "[redacted]"
    }

    /// Consumes the secret and returns its value. Don't log it.
    pub fn into_exposed(self) -> (r: String)
        ensures
            r@ == self@,
    {
        self.0
    }
}

} // verus!
