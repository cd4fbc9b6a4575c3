//! A wrapper that carries a fatal error's display text, so the process can
//! report the message itself rather than a debug rendering.

use vstd::prelude::*;

verus! {

/// Holds the display text of a fatal error.
pub struct ErrorDisplayWrapper {
    pub message: String,
}

impl ErrorDisplayWrapper {
    /// The text of the wrapped error.
    pub open spec fn spec_message(&self) -> Seq<char> {
        self.message@
    }

    /// Returns the wrapped error text.
    pub fn message(&self) -> (r: &String)
        ensures
            r@ == self.spec_message(),
    {
        &self.message
    }
}

impl From<String> for ErrorDisplayWrapper {
    /// Wraps an error's display text.
    fn from(value: String) -> (r: Self) {
        Self { message: value }
    }
}

impl vstd::std_specs::convert::FromSpecImpl<String> for ErrorDisplayWrapper {
    open spec fn obeys_from_spec() -> bool {
        true
    }

    open spec fn from_spec(value: String) -> Self {
        ErrorDisplayWrapper { message: value }
    }
}

} // verus!
