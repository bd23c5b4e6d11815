//! Unified error type for the music visualiser core.

use vstd::prelude::*;
use vstd::string::StringExecFns;

verus! {

/// Unified error type for the music visualiser core.
#[derive(Debug, Clone, PartialEq)]
pub enum MusicVizError {
    /// Raised when a feature is not yet implemented but the code path already
    /// exists to make future work easier to integrate.
    Unimplemented(&'static str),
    /// Raised when input data is invalid or unexpected.
    InvalidInput(&'static str),
    /// Catch all variant for ad-hoc error messages.
    Message(String),
}

impl MusicVizError {
    /// Creates an ad-hoc error with the provided message.
    pub fn msg(message: String) -> (r: Self)
        ensures
            r == MusicVizError::Message(message),
    {
        MusicVizError::Message(message)
    }

    /// The text that `message` renders, as a sequence of characters.
    pub open spec fn message_text(&self) -> Seq<char> {
        match *self {
            MusicVizError::Unimplemented(detail) => "feature not yet implemented: "@ + detail@,
            MusicVizError::InvalidInput(detail) => "invalid input: "@ + detail@,
            MusicVizError::Message(text) => text@,
        }
    }

    /// Renders the error as a single human-readable line.
    pub fn message(&self) -> (r: String)
        ensures
            r@ == self.message_text(),
    {
        match self {
            MusicVizError::Unimplemented(detail) => {
                String::from_str("feature not yet implemented: ").concat(*detail)
            },
            MusicVizError::InvalidInput(detail) => {
                String::from_str("invalid input: ").concat(*detail)
            },
            MusicVizError::Message(text) => text.clone(),
        }
    }
}

} // verus!
