//! The errors of reading a configuration text.

use vstd::prelude::*;
use vstd::string::StringExecFns;

verus! {

/// Contains all error cases that `Config` uses.
#[derive(Debug, Clone, Copy, PartialEq, Eq, Structural)]
pub enum ConfigError {
    /// Indicates that a theme part cannot be unambiguously found: one of
    /// the two indicators stands in the text exactly once and the other
    /// does not.
    MissingThemeIndicator,
    /// Indicates that the theme indicators have the wrong order: the end
    /// indicator stands before the start indicator.
    ThemeIndicatorsWrongOrder,
}

impl ConfigError {
    /// The text of the message that describes this error.
    pub open spec fn message_text(self) -> Seq<char> {
        match self {
            ConfigError::MissingThemeIndicator => {
                "Not exactly one start and one end theme indicator given"@
            },
            ConfigError::ThemeIndicatorsWrongOrder => {
                "Theme indicators not in the correct order (start > end)"@
            },
        }
    }

    /// Describes this error in words.
    pub fn message(&self) -> (r: String)
        ensures
            r@ == self.message_text(),
    {
        match self {
            ConfigError::MissingThemeIndicator => String::from_str(
                "Not exactly one start and one end theme indicator given",
            ),
            ConfigError::ThemeIndicatorsWrongOrder => String::from_str(
                "Theme indicators not in the correct order (start > end)",
            ),
        }
    }
}

} // verus!
