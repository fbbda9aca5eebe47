//! The model of a configuration text that holds one theme part between
//! two indicator lines.

pub mod config;
pub mod error;
pub mod laws;

pub use crate::document::config::Config;
pub use crate::document::error::ConfigError;

use crate::document::config::between;
use crate::strings::{occurs_at, option_view, single_index, single_index_of};
use crate::trim::{chars_of, trim, trimmed};
use vstd::prelude::*;
use vstd::string::StrSliceExecFns;
use vstd::string::StringExecFns;

verus! {

/// The line break that stands between the blocks of a `ConfigDocument`.
pub const NEW_LINE: char = '\n';

/// The indicator line that starts the theme part of a `ConfigDocument`.
pub const SEPARATOR_THEME_START: &'static str = "### apas_75 theme start ###";

/// The indicator line that ends the theme part of a `ConfigDocument`.
pub const SEPARATOR_THEME_END: &'static str = "### apas_75 theme end ###";

/// The errors of reading a `ConfigDocument`.
#[derive(Debug, Clone, Copy, PartialEq, Eq, Structural)]
pub enum ConfigDocumentError {
    /// One of the two theme indicators stands in the text exactly once
    /// and the other does not.
    MissingThemeIndicator,
    /// Both theme indicators stand in the text exactly once, the end
    /// indicator before the start indicator.
    ThemeIndicatorsWrongOrder,
}

impl ConfigDocumentError {
    /// The text of the message that describes this error.
    pub open spec fn message_text(self) -> Seq<char> {
        match self {
            ConfigDocumentError::MissingThemeIndicator => {
                "Not exactly one start and one end theme indicator given"@
            },
            ConfigDocumentError::ThemeIndicatorsWrongOrder => {
                "Theme indicators not in the correct order (start > end)"@
            },
        }
    }

    /// Describes this error in words.
    pub fn message(&self) -> (r: String)
        ensures
            r@ == self.message_text(),
    {
        match self {
            ConfigDocumentError::MissingThemeIndicator => String::from_str(
                "Not exactly one start and one end theme indicator given",
            ),
            ConfigDocumentError::ThemeIndicatorsWrongOrder => String::from_str(
                "Theme indicators not in the correct order (start > end)",
            ),
        }
    }
}

/// A configuration text as two parts: the default configuration, with
/// the theme part cut out of it, and the theme.
pub struct ConfigDocument {
    /// The text around the theme part, as it stands in the file.
    pub default: String,
    /// The text between the theme indicators; `None` where the file has
    /// no theme part.
    pub theme: Option<String>,
}

/// What a `ConfigDocument` holds, as mathematical values.
pub struct ConfigDocumentView {
    /// The text around the theme part.
    pub default: Seq<char>,
    /// The text between the theme indicators.
    pub theme: Option<Seq<char>>,
}

impl View for ConfigDocument {
    type V = ConfigDocumentView;

    open spec fn view(&self) -> ConfigDocumentView {
        ConfigDocumentView { default: self.default@, theme: option_view(self.theme) }
    }
}

/// What reading `source` as a `ConfigDocument` gives.
///
/// Where both indicators stand in `source` exactly once, start not after
/// end, the theme is what lies between them, untrimmed (nothing where
/// the end indicator starts inside the start indicator), and the default
/// configuration is what lies before the start indicator, a line break,
/// and what lies after the end indicator. Where neither does, the whole
/// text is the default configuration. With the end indicator before the
/// start indicator the order is wrong, and with only one of them found
/// an indicator is missing: reading fails with the error of that name.
pub open spec fn document_parsed(source: Seq<char>) -> Result<
    ConfigDocumentView,
    ConfigDocumentError,
> {
    match (
        single_index(source, SEPARATOR_THEME_START@),
        single_index(source, SEPARATOR_THEME_END@),
    ) {
        (Some(s), Some(e)) => {
            if s > e {
                Err(ConfigDocumentError::ThemeIndicatorsWrongOrder)
            } else {
                Ok(
                    ConfigDocumentView {
                        default: source.subrange(0, s).push(NEW_LINE) + source.subrange(
                            e + SEPARATOR_THEME_END@.len(),
                            source.len() as int,
                        ),
                        theme: Some(between(source, s + SEPARATOR_THEME_START@.len(), e)),
                    },
                )
            }
        },
        (None, None) => Ok(ConfigDocumentView { default: source, theme: None }),
        _ => Err(ConfigDocumentError::MissingThemeIndicator),
    }
}

impl ConfigDocumentView {
    /// The text of the document: the trimmed default configuration, and
    /// where a theme is set, after a blank line, the start indicator,
    /// the trimmed theme and the end indicator, each on lines of its
    /// own.
    pub open spec fn rendered(self) -> Seq<char> {
        match self.theme {
            Some(theme) => trimmed(self.default).push(NEW_LINE).push(NEW_LINE)
                + SEPARATOR_THEME_START@ + seq![NEW_LINE] + trimmed(theme) + seq![NEW_LINE]
                + SEPARATOR_THEME_END@ + seq![NEW_LINE],
            None => trimmed(self.default),
        }
    }
}

impl ConfigDocument {
    /// Tries building a `ConfigDocument` from the content of a config
    /// file. Fails with `MissingThemeIndicator` where exactly one of the
    /// two theme indicators stands in the content exactly once, and with
    /// `ThemeIndicatorsWrongOrder` where both do, the end indicator
    /// first.
    pub fn new(file_content: &str) -> (r: Result<ConfigDocument, ConfigDocumentError>)
        ensures
            match r {
                Ok(document) => document_parsed(file_content@) == Ok::<
                    ConfigDocumentView,
                    ConfigDocumentError,
                >(document@),
                Err(e) => document_parsed(file_content@) == Err::<
                    ConfigDocumentView,
                    ConfigDocumentError,
                >(e),
            },
            (r matches Err(ConfigDocumentError::MissingThemeIndicator)) <==> (single_index(
                file_content@,
                SEPARATOR_THEME_START@,
            ) is Some) != (single_index(file_content@, SEPARATOR_THEME_END@) is Some),
            (r matches Err(ConfigDocumentError::ThemeIndicatorsWrongOrder)) <==> single_index(
                file_content@,
                SEPARATOR_THEME_START@,
            ) is Some && single_index(file_content@, SEPARATOR_THEME_END@) is Some && single_index(
                file_content@,
                SEPARATOR_THEME_START@,
            )->0 > single_index(file_content@, SEPARATOR_THEME_END@)->0,
    {
        let source = chars_of(file_content);
        let start = chars_of(SEPARATOR_THEME_START);
        let end = chars_of(SEPARATOR_THEME_END);
        match (single_index_of(&source, &start), single_index_of(&source, &end)) {
            (Some(theme_start), Some(theme_end)) => {
                if theme_start > theme_end {
                    return Err(ConfigDocumentError::ThemeIndicatorsWrongOrder);
                }
                proof {
                    reveal_strlit("\n");
                    assert(occurs_at(source@, start@, theme_start as int));
                    assert(occurs_at(source@, end@, theme_end as int));
                }
                assert(theme_start + start.len() <= source.len());
                assert(theme_end + end.len() <= source.len());
                let theme_content_start = theme_start + start.len();
                let default_rest_start = theme_end + end.len();
                let mut default = String::from_str(file_content.substring_char(0, theme_start));
                default.append("\n");
                default.append(file_content.substring_char(default_rest_start, source.len()));
                let theme = if theme_content_start <= theme_end {
                    Some(
                        String::from_str(
                            file_content.substring_char(theme_content_start, theme_end),
                        ),
                    )
                } else {
                    Some(String::new())
                };
                assert(default@ =~= file_content@.subrange(0, theme_start as int).push(NEW_LINE)
                    + file_content@.subrange(
                    theme_end + SEPARATOR_THEME_END@.len(),
                    file_content@.len() as int,
                ));
                Ok(ConfigDocument { default, theme })
            },
            (None, None) => Ok(
                ConfigDocument { default: String::from_str(file_content), theme: None },
            ),
            _ => Err(ConfigDocumentError::MissingThemeIndicator),
        }
    }

    /// Overrides the theme with `theme`, as it is given.
    pub fn set_theme(&mut self, theme: &str)
        ensures
            final(self)@ == (ConfigDocumentView { theme: Some(theme@), ..old(self)@ }),
    {
        self.theme = Some(String::from_str(theme));
    }

    /// The text of this document, as a config file holds it.
    pub fn to_string(&self) -> (r: String)
        ensures
            r@ == self@.rendered(),
    {
        let mut text = String::from_str(trim(self.default.as_str()));
        match &self.theme {
            Some(theme) => {
                proof {
                    reveal_strlit("\n");
                    reveal_strlit("\n\n");
                }
                text.append("\n\n");
                text.append(SEPARATOR_THEME_START);
                text.append("\n");
                text.append(trim(theme.as_str()));
                text.append("\n");
                text.append(SEPARATOR_THEME_END);
                text.append("\n");
                assert(text@ =~= self@.rendered());
            },
            None => {},
        }
        text
    }
}

} // verus!
