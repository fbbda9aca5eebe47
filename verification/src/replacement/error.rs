//! The errors of replacing the custom theme.

use vstd::prelude::*;
use vstd::string::StringExecFns;

verus! {

/// Includes errors that can happen during replacement of the custom
/// theme.
#[derive(Debug)]
pub enum ReplacementError {
    /// The file at the path could not be read.
    NotReadable(String),
    /// The file at the path could not be written.
    NotWriteable(String),
    /// The configuration cannot be split at its theme indicators.
    InvalidConfig,
}

impl ReplacementError {
    /// The text of the message that describes this error.
    pub open spec fn message_text(self) -> Seq<char> {
        match self {
            ReplacementError::InvalidConfig => {
                "Starship configuration does not contain valid theme data"@
            },
            ReplacementError::NotReadable(path) => "File "@ + path@ + " is not readeable"@,
            ReplacementError::NotWriteable(path) => "File "@ + path@ + " is not writeable"@,
        }
    }

    /// Describes this error in words.
    pub fn message(&self) -> (r: String)
        ensures
            r@ == self.message_text(),
    {
        match self {
            ReplacementError::InvalidConfig => String::from_str(
                "Starship configuration does not contain valid theme data",
            ),
            ReplacementError::NotReadable(path) => {
                let mut text = String::from_str("File ");
                text.append(path.as_str());
                text.append(" is not readeable");
                text
            },
            ReplacementError::NotWriteable(path) => {
                let mut text = String::from_str("File ");
                text.append(path.as_str());
                text.append(" is not writeable");
                text
            },
        }
    }
}

} // verus!
