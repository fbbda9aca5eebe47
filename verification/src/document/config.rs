//! A configuration text split at its theme indicators into the static
//! part before the theme, the theme, and the static part after it.

use crate::document::error::ConfigError;
use crate::strings::{
    option_view, segment_between, segment_of, single_index, single_index_of,
};
use crate::strings::optionize;
use crate::trim::{
    chars_of, ends_tight, is_tight, lemma_trimmed_is_empty_or_tight, starts_tight, trim, trimmed,
};
use vstd::prelude::*;
use vstd::string::StringExecFns;

verus! {

/// The indicator line that starts the theme part unless another is given.
pub const DEFAULT_INDICATOR_THEME_START: &'static str = "### apas_75 theme start ###";

/// The indicator line that ends the theme part unless another is given.
pub const DEFAULT_INDICATOR_THEME_END: &'static str = "### apas_75 theme end ###";

/// The blank line that `Config::to_string` puts between two blocks.
pub open spec fn separator() -> Seq<char> {
    seq!['\n', '\n']
}

/// The text of an optional segment: empty where it is absent.
pub open spec fn text_of(segment: Option<Seq<char>>) -> Seq<char> {
    match segment {
        Some(s) => s,
        None => Seq::empty(),
    }
}

/// The indicator that a parse uses: the custom one where given.
pub open spec fn indicator_or(custom: Option<&str>, default: &str) -> Seq<char> {
    match custom {
        Some(s) => s@,
        None => default@,
    }
}

/// The part of `s` from `from` up to `to`; empty where `to` lies before
/// `from`.
pub open spec fn between(s: Seq<char>, from: int, to: int) -> Seq<char> {
    if from <= to {
        s.subrange(from, to)
    } else {
        Seq::empty()
    }
}

/// What `Config::to_string` writes for the first static part: the part
/// and a blank line, or nothing where it is absent.
pub open spec fn lead_of(first: Option<Seq<char>>) -> Seq<char> {
    match first {
        Some(s) => s + separator(),
        None => Seq::empty(),
    }
}

/// What `Config::to_string` writes for the second static part: a blank
/// line and the part, or nothing where it is absent.
pub open spec fn tail_of(second: Option<Seq<char>>) -> Seq<char> {
    match second {
        Some(s) => separator() + s,
        None => Seq::empty(),
    }
}

/// An optional segment is absent, or it is not empty and neither starts
/// nor ends with whitespace.
pub open spec fn is_segment(segment: Option<Seq<char>>) -> bool {
    segment matches Some(s) ==> is_tight(s)
}

/// What a `Config` holds, as mathematical values.
pub struct ConfigView {
    /// The static part before the theme; `None` where there is none.
    pub static_first: Option<Seq<char>>,
    /// The theme; `None` where it is not set.
    pub theme: Option<Seq<char>>,
    /// The static part after the theme; `None` where there is none.
    pub static_second: Option<Seq<char>>,
    /// The indicator that starts the theme part.
    pub indicator_theme_start: Seq<char>,
    /// The indicator that ends the theme part.
    pub indicator_theme_end: Seq<char>,
}

impl ConfigView {
    /// Each part that is present is a segment.
    pub open spec fn wf(self) -> bool {
        &&& is_segment(self.static_first)
        &&& is_segment(self.theme)
        &&& is_segment(self.static_second)
    }

    /// The blocks in their order, a blank line between each two, before
    /// the final trim.
    pub open spec fn assembled(self) -> Seq<char> {
        text_of(self.static_first) + separator() + self.indicator_theme_start + separator()
            + text_of(self.theme) + separator() + self.indicator_theme_end + separator() + text_of(
            self.static_second,
        )
    }

    /// The canonical text of the configuration.
    pub open spec fn rendered(self) -> Seq<char> {
        trimmed(self.assembled())
    }

    /// The rendered text written out: no blank line stands before the
    /// start indicator without a first static part, and none after the
    /// end indicator without a second one.
    pub open spec fn canonical(self) -> Seq<char> {
        lead_of(self.static_first) + self.indicator_theme_start + separator() + text_of(self.theme)
            + separator() + self.indicator_theme_end + tail_of(self.static_second)
    }

    /// The final trim leaves both indicators whole: where a static part
    /// is absent, the indicator at that edge of the text has no
    /// whitespace at its outer end.
    pub open spec fn keeps_indicators(self) -> bool {
        &&& self.static_first is None ==> starts_tight(self.indicator_theme_start)
        &&& self.static_second is None ==> ends_tight(self.indicator_theme_end)
    }

    /// Where the rendered text holds the start indicator.
    pub open spec fn start_offset(self) -> int {
        lead_of(self.static_first).len() as int
    }

    /// Where the rendered text holds the end indicator.
    pub open spec fn end_offset(self) -> int {
        self.start_offset() + self.indicator_theme_start.len() + separator().len() + text_of(
            self.theme,
        ).len() + separator().len()
    }

    /// The configuration with its theme replaced by the segment that
    /// `theme` stands for.
    pub open spec fn with_theme(self, theme: Seq<char>) -> ConfigView {
        ConfigView { theme: segment_of(theme), ..self }
    }
}

/// What reading `source` with the indicators `start` and `end` gives.
///
/// Where both indicators stand in `source` exactly once, start not after
/// end, the three parts are what lies before the start indicator, between
/// the two indicators and after the end indicator. Where neither stands
/// in it exactly once, the whole text is the first static part. With the
/// end indicator before the start indicator, or only one of them found,
/// reading fails.
pub open spec fn parsed(source: Seq<char>, start: Seq<char>, end: Seq<char>) -> Result<
    ConfigView,
    ConfigError,
> {
    match (single_index(source, start), single_index(source, end)) {
        (Some(s), Some(e)) => {
            if s > e {
                Err(ConfigError::ThemeIndicatorsWrongOrder)
            } else {
                Ok(
                    ConfigView {
                        static_first: segment_of(source.subrange(0, s)),
                        theme: segment_of(between(source, s + start.len(), e)),
                        static_second: segment_of(
                            source.subrange(e + end.len(), source.len() as int),
                        ),
                        indicator_theme_start: start,
                        indicator_theme_end: end,
                    },
                )
            }
        },
        (None, None) => Ok(
            ConfigView {
                static_first: segment_of(source),
                theme: None,
                static_second: None,
                indicator_theme_start: start,
                indicator_theme_end: end,
            },
        ),
        _ => Err(ConfigError::MissingThemeIndicator),
    }
}

/// Representation of a configuration file that may contain a custom theme.
pub struct Config {
    /// Static config part that appears before `theme`.
    /// Is `None` if the config file starts with the theme.
    static_first: Option<String>,
    /// Static config part that appears after `theme`.
    /// Is `None` if the config file ends with the theme.
    static_second: Option<String>,
    /// Theme config.
    /// Is `None` if not set.
    theme: Option<String>,
    indicator_theme_start: String,
    indicator_theme_end: String,
}

impl View for Config {
    type V = ConfigView;

    closed spec fn view(&self) -> ConfigView {
        ConfigView {
            static_first: option_view(self.static_first),
            theme: option_view(self.theme),
            static_second: option_view(self.static_second),
            indicator_theme_start: self.indicator_theme_start@,
            indicator_theme_end: self.indicator_theme_end@,
        }
    }
}

impl Config {
    /// Each part that a `Config` holds is a segment: not empty, and
    /// without whitespace at its ends.
    #[verifier::type_invariant]
    spec fn parts_are_segments(&self) -> bool {
        self@.wf()
    }

    /// Tries building a `Config` from the content of a config file, with
    /// the default theme indicators.
    pub fn new_with_defaults(file_content: &str) -> (r: Result<Config, ConfigError>)
        ensures
            match r {
                Ok(config) => parsed(
                    file_content@,
                    DEFAULT_INDICATOR_THEME_START@,
                    DEFAULT_INDICATOR_THEME_END@,
                ) == Ok::<ConfigView, ConfigError>(config@) && config@.wf(),
                Err(e) => parsed(
                    file_content@,
                    DEFAULT_INDICATOR_THEME_START@,
                    DEFAULT_INDICATOR_THEME_END@,
                ) == Err::<ConfigView, ConfigError>(e),
            },
    {
        Config::new(file_content, None, None)
    }

    /// Tries building a `Config` from the content of a config file.
    ///
    /// `custom_indicator_theme_start` and `custom_indicator_theme_end`
    /// are the indicators (comment lines) of the start and of the end of
    /// the theme part; each defaults to the indicator of this module.
    ///
    /// Fails with `ThemeIndicatorsWrongOrder` where both indicators stand
    /// in the content exactly once, the end one first, and with
    /// `MissingThemeIndicator` where exactly one of them stands in it
    /// exactly once.
    pub fn new(
        file_content: &str,
        custom_indicator_theme_start: Option<&str>,
        custom_indicator_theme_end: Option<&str>,
    ) -> (r: Result<Config, ConfigError>)
        ensures
            match r {
                Ok(config) => parsed(
                    file_content@,
                    indicator_or(custom_indicator_theme_start, DEFAULT_INDICATOR_THEME_START),
                    indicator_or(custom_indicator_theme_end, DEFAULT_INDICATOR_THEME_END),
                ) == Ok::<ConfigView, ConfigError>(config@) && config@.wf(),
                Err(e) => parsed(
                    file_content@,
                    indicator_or(custom_indicator_theme_start, DEFAULT_INDICATOR_THEME_START),
                    indicator_or(custom_indicator_theme_end, DEFAULT_INDICATOR_THEME_END),
                ) == Err::<ConfigView, ConfigError>(e),
            },
            ({
                let start = single_index(
                    file_content@,
                    indicator_or(custom_indicator_theme_start, DEFAULT_INDICATOR_THEME_START),
                );
                let end = single_index(
                    file_content@,
                    indicator_or(custom_indicator_theme_end, DEFAULT_INDICATOR_THEME_END),
                );
                &&& (r matches Err(ConfigError::MissingThemeIndicator)) <==> (start is Some) != (end
                    is Some)
                &&& (r matches Err(ConfigError::ThemeIndicatorsWrongOrder)) <==> start is Some
                    && end is Some && start->0 > end->0
            }),
    {
        let start: &str = match custom_indicator_theme_start {
            Some(s) => s,
            None => DEFAULT_INDICATOR_THEME_START,
        };
        let end: &str = match custom_indicator_theme_end {
            Some(s) => s,
            None => DEFAULT_INDICATOR_THEME_END,
        };
        let source = chars_of(file_content);
        let start_chars = chars_of(start);
        let end_chars = chars_of(end);
        let ghost text = file_content@;
        match (single_index_of(&source, &start_chars), single_index_of(&source, &end_chars)) {
            (Some(theme_start), Some(theme_end)) => {
                if theme_start > theme_end {
                    return Err(ConfigError::ThemeIndicatorsWrongOrder);
                }
                let theme_content_start = theme_start + start_chars.len();
                let static_second_start = theme_end + end_chars.len();
                let theme = if theme_content_start <= theme_end {
                    segment_between(file_content, &source, theme_content_start, theme_end)
                } else {
                    proof {
                        let nothing = Seq::<char>::empty();
                        assert(trimmed(nothing) == nothing);
                    }
                    None
                };
                let static_first = segment_between(file_content, &source, 0, theme_start);
                let static_second = segment_between(
                    file_content,
                    &source,
                    static_second_start,
                    source.len(),
                );
                proof {
                    lemma_trimmed_is_empty_or_tight(text.subrange(0, theme_start as int));
                    lemma_trimmed_is_empty_or_tight(
                        between(text, theme_content_start as int, theme_end as int),
                    );
                    lemma_trimmed_is_empty_or_tight(
                        text.subrange(static_second_start as int, text.len() as int),
                    );
                }
                Ok(
                    Config {
                        static_first,
                        theme,
                        static_second,
                        indicator_theme_start: String::from_str(start),
                        indicator_theme_end: String::from_str(end),
                    },
                )
            },
            (None, None) => {
                proof {
                    lemma_trimmed_is_empty_or_tight(text);
                    assert(text.subrange(0, text.len() as int) =~= text);
                }
                Ok(
                    Config {
                        static_first: segment_between(file_content, &source, 0, source.len()),
                        static_second: None,
                        theme: None,
                        indicator_theme_start: String::from_str(start),
                        indicator_theme_end: String::from_str(end),
                    },
                )
            },
            _ => Err(ConfigError::MissingThemeIndicator),
        }
    }

    /// The static part before the theme.
    pub fn static_first(&self) -> (r: &Option<String>)
        ensures
            option_view(*r) == self@.static_first,
            self@.wf(),
    {
        proof {
            use_type_invariant(self);
        }
        &self.static_first
    }

    /// The static part after the theme.
    pub fn static_second(&self) -> (r: &Option<String>)
        ensures
            option_view(*r) == self@.static_second,
            self@.wf(),
    {
        proof {
            use_type_invariant(self);
        }
        &self.static_second
    }

    /// The theme.
    pub fn theme(&self) -> (r: &Option<String>)
        ensures
            option_view(*r) == self@.theme,
            self@.wf(),
    {
        proof {
            use_type_invariant(self);
        }
        &self.theme
    }

    /// Returns whether a theme is set.
    pub fn has_theme(&self) -> (r: bool)
        ensures
            r == (self@.theme is Some),
            self@.wf(),
    {
        proof {
            use_type_invariant(self);
        }
        self.theme.is_some()
    }

    /// Overrides the theme part with the trimmed form of `theme`; with a
    /// blank `theme` no theme is set afterwards. Nothing else changes.
    pub fn set_theme(&mut self, theme: &str)
        ensures
            final(self)@ == old(self)@.with_theme(theme@),
            final(self)@.wf(),
    {
        proof {
            use_type_invariant(&*self);
            lemma_trimmed_is_empty_or_tight(theme@);
        }
        self.theme = optionize(theme);
    }

    /// The canonical text of this configuration: the first static part,
    /// the start indicator, the theme, the end indicator and the second
    /// static part, with a blank line between each two, and the whole
    /// trimmed. Both indicators are written also where no theme is set.
    pub fn to_string(&self) -> (r: String)
        ensures
            r@ == self@.rendered(),
            r@.len() == 0 || is_tight(r@),
            self@.wf(),
    {
        proof {
            use_type_invariant(self);
            reveal_strlit("\n\n");
            assert("\n\n"@ =~= separator());
        }
        let mut document = String::new();
        match &self.static_first {
            Some(s) => document.append(s.as_str()),
            None => {},
        }
        document.append("\n\n");
        document.append(self.indicator_theme_start.as_str());
        document.append("\n\n");
        match &self.theme {
            Some(s) => document.append(s.as_str()),
            None => {},
        }
        document.append("\n\n");
        document.append(self.indicator_theme_end.as_str());
        document.append("\n\n");
        match &self.static_second {
            Some(s) => document.append(s.as_str()),
            None => {},
        }
        proof {
            assert(document@ =~= self@.assembled());
            lemma_trimmed_is_empty_or_tight(document@);
        }
        String::from_str(trim(document.as_str()))
    }
}

} // verus!
