//! Themes for the Starship prompt: a configuration text is split at two
//! indicator lines into the static parts and the theme part between
//! them, the theme is replaced, and the text is written out again in a
//! canonical form. Around that stand the choice of the next theme file,
//! the shell command that makes Starship use it, and the merging of TOML
//! documents.

pub mod document;
pub mod file;
pub mod random;
pub mod replacement;
pub mod shell;
pub mod starship;
pub mod string;
pub mod strings;
pub mod toml;
pub mod trim;
