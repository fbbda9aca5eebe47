//! Replacing the theme part of a Starship configuration by a theme file
//! picked from a directory.

pub mod error;
pub mod update;
