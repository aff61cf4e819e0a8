//! Error values surfaced at the session and engine boundaries.

use vstd::prelude::*;

verus! {

/// A failure reported by the application's outer layers.
///
/// `Io` carries the text of an input/output failure on the engine process's
/// pipes; `Engine` carries any other engine-related failure, such as a bad
/// executable path or a process that is not running.
#[derive(Debug)]
pub enum AppError {
    Io(String),
    Engine(String),
}

impl AppError {
    /// The human-readable text carried by this error.
    pub fn message(&self) -> (r: &String)
        ensures
            r@ == self.spec_message(),
    {
        match self {
            AppError::Io(s) => s,
            AppError::Engine(s) => s,
        }
    }

    pub open spec fn spec_message(&self) -> Seq<char> {
        match self {
            AppError::Io(s) => s@,
            AppError::Engine(s) => s@,
        }
    }
}

impl core::convert::From<String> for AppError {
    /// Wraps a bare message as an engine failure.
    fn from(s: String) -> (r: AppError) {
        AppError::Engine(s)
    }
}

impl vstd::std_specs::convert::FromSpecImpl<String> for AppError {
    open spec fn obeys_from_spec() -> bool {
        true
    }

    open spec fn from_spec(s: String) -> AppError {
        AppError::Engine(s)
    }
}

impl<'a> core::convert::From<&'a str> for AppError {
    /// Wraps a bare message as an engine failure.
    fn from(s: &'a str) -> (r: AppError) {
        AppError::Engine(s.to_owned())
    }
}

impl<'a> vstd::std_specs::convert::FromSpecImpl<&'a str> for AppError {
    // A specification value cannot copy a borrowed string into an owned
    // one, so nothing is claimed of this conversion; callers that need the
    // message go through `message`.
    open spec fn obeys_from_spec() -> bool {
        false
    }

    open spec fn from_spec(s: &'a str) -> AppError {
        vstd::pervasive::arbitrary()
    }
}

} // verus!
