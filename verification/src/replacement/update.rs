//! Picking a theme file and writing its content into the theme part of
//! a configuration text.

use crate::document::config::{
    parsed, Config, DEFAULT_INDICATOR_THEME_END, DEFAULT_INDICATOR_THEME_START,
};
use crate::file::DIRECTORY_SEPARATOR;
use crate::random::{fake_number, get_fake};
use crate::replacement::error::ReplacementError;
use crate::strings::{ends_with, option_view, starts_with};
use vstd::prelude::*;
use vstd::string::StringExecFns;

verus! {

/// The ending of the name of a theme file.
pub const FILE_EXTENSION_TOML: &'static str = ".toml";

/// Whether `name` is the name of a theme file: it starts with `prefix`
/// and ends with `.toml`.
pub open spec fn is_theme_file_name(name: Seq<char>, prefix: Seq<char>) -> bool {
    prefix.is_prefix_of(name) && FILE_EXTENSION_TOML@.is_suffix_of(name)
}

/// The names of theme files among `names`, in their order.
pub open spec fn theme_names(names: Seq<Seq<char>>, prefix: Seq<char>) -> Seq<Seq<char>> {
    names.filter(|name: Seq<char>| is_theme_file_name(name, prefix))
}

/// The path of the file `name` in `directory`.
pub open spec fn theme_path(directory: Seq<char>, name: Seq<char>) -> Seq<char> {
    directory.push(DIRECTORY_SEPARATOR) + name
}

/// What replacing the theme of the configuration text `config` by
/// `theme` gives: the rendered text of the configuration read with the
/// default indicators, its theme set. `None` where the configuration
/// cannot be read.
pub open spec fn replaced(config: Seq<char>, theme: Seq<char>) -> Option<Seq<char>> {
    match parsed(config, DEFAULT_INDICATOR_THEME_START@, DEFAULT_INDICATOR_THEME_END@) {
        Ok(v) => Some(v.with_theme(theme).rendered()),
        Err(_) => None,
    }
}

/// The text of the Starship configuration `starship_config` with its
/// custom theme part overridden by `theme_config`. Fails with
/// `InvalidConfig` where the theme indicators of the configuration are
/// not in order.
pub fn replace_theme(starship_config: &str, theme_config: &str) -> (r: Result<
    String,
    ReplacementError,
>)
    ensures
        match r {
            Ok(text) => replaced(starship_config@, theme_config@) == Some(text@),
            Err(e) => e is InvalidConfig && replaced(starship_config@, theme_config@) is None,
        },
{
    match Config::new_with_defaults(starship_config) {
        Ok(mut config_document) => {
            config_document.set_theme(theme_config);
            Ok(config_document.to_string())
        },
        Err(_) => Err(ReplacementError::InvalidConfig),
    }
}

/// The names among `file_names` that start with `theme_file_name_prefix`
/// and end with `.toml`, in their order.
pub fn theme_file_names(file_names: &Vec<String>, theme_file_name_prefix: &str) -> (r: Vec<String>)
    ensures
        r.deep_view() == theme_names(file_names.deep_view(), theme_file_name_prefix@),
{
    let ghost pred = |name: Seq<char>| is_theme_file_name(name, theme_file_name_prefix@);
    let mut themes: Vec<String> = Vec::new();
    let mut i: usize = 0;
    proof {
        reveal(Seq::filter);
        assert(file_names.deep_view().take(0) =~= Seq::<Seq<char>>::empty());
        assert(themes.deep_view() =~= Seq::<Seq<char>>::empty());
    }
    while i < file_names.len()
        invariant
            i <= file_names.len(),
            pred == |name: Seq<char>| is_theme_file_name(name, theme_file_name_prefix@),
            themes.deep_view() == file_names.deep_view().take(i as int).filter(pred),
        decreases file_names.len() - i,
    {
        let name = &file_names[i];
        let ghost before = themes.deep_view();
        let ghost seen = file_names.deep_view().take(i as int);
        proof {
            seen.lemma_filter_push(name@, pred);
            assert(file_names.deep_view().take(i + 1) =~= seen.push(name@));
        }
        if starts_with(name.as_str(), theme_file_name_prefix) && ends_with(
            name.as_str(),
            FILE_EXTENSION_TOML,
        ) {
            themes.push(name.clone());
            assert(themes.deep_view() =~= before.push(name@));
        }
        i += 1;
    }
    assert(file_names.deep_view().take(file_names.len() as int) =~= file_names.deep_view());
    themes
}

/// The path of the file `file_name` in the directory
/// `config_directory_path`.
pub fn build_theme_path(config_directory_path: &str, file_name: &str) -> (r: String)
    ensures
        r@ == theme_path(config_directory_path@, file_name@),
{
    proof {
        reveal_strlit("/");
    }
    let mut path = String::from_str(config_directory_path);
    path.append("/");
    path.append(file_name);
    assert(path@ =~= theme_path(config_directory_path@, file_name@));
    path
}

/// The path that the number `random_index` picks: that of the theme
/// file at that index among `themes`, in `directory`. No path without a
/// number.
pub open spec fn picked_theme_path(
    directory: Seq<char>,
    themes: Seq<Seq<char>>,
    random_index: Option<u32>,
) -> Option<Seq<char>> {
    match random_index {
        Some(index) => Some(theme_path(directory, themes[index as int])),
        None => None,
    }
}

/// The path of the theme file that `random_index` picks among
/// `theme_file_names`, in the directory `config_directory_path`. `None`
/// where there is no number to pick with.
pub fn theme_path_at(
    config_directory_path: &str,
    theme_file_names: &Vec<String>,
    random_index: Option<u32>,
) -> (r: Option<String>)
    requires
        random_index matches Some(index) ==> index < theme_file_names.len(),
    ensures
        option_view(r) == picked_theme_path(
            config_directory_path@,
            theme_file_names.deep_view(),
            random_index,
        ),
{
    match random_index {
        Some(index) => {
            let random_file_name = &theme_file_names[index as usize];
            assert(theme_file_names.deep_view()[index as int] == random_file_name@);
            Some(build_theme_path(config_directory_path, random_file_name.as_str()))
        },
        None => None,
    }
}

/// The path of the theme file that the milliseconds `millis` pick among
/// `themes`, in `directory`: the file at the index that `fake_number`
/// gives for the number of theme files.
pub open spec fn theme_path_by_millis(
    directory: Seq<char>,
    themes: Seq<Seq<char>>,
    millis: u32,
) -> Seq<char> {
    theme_path(directory, themes[fake_number(0, themes.len() as u32, millis)])
}

/// Returns the path of a random theme file in `config_directory_path`,
/// picked among `file_names`, the names of the files of that directory:
/// one whose name starts with `theme_file_name_prefix` and ends with
/// `.toml`. Which one it is, the milliseconds of the system time
/// decide: they pick the file at the index that `get_fake` gives for the
/// number of theme files. `None` where there is no such file, where
/// there are more of them than a `u32` counts, or where the system time
/// cannot be had.
pub fn get_random_theme_path(
    config_directory_path: &str,
    file_names: &Vec<String>,
    theme_file_name_prefix: &str,
) -> (r: Option<String>)
    ensures
        r matches Some(path) ==> 0 < theme_names(
            file_names.deep_view(),
            theme_file_name_prefix@,
        ).len() <= u32::MAX && exists|millis: u32|
            millis < 1000 && path@ == #[trigger] theme_path_by_millis(
                config_directory_path@,
                theme_names(file_names.deep_view(), theme_file_name_prefix@),
                millis,
            ),
        r matches Some(path) ==> exists|i: int|
            0 <= i < theme_names(file_names.deep_view(), theme_file_name_prefix@).len() && path@
                == theme_path(
                config_directory_path@,
                #[trigger] theme_names(file_names.deep_view(), theme_file_name_prefix@)[i],
            ),
        theme_names(file_names.deep_view(), theme_file_name_prefix@).len() == 0 ==> r is None,
        theme_names(file_names.deep_view(), theme_file_name_prefix@).len() > u32::MAX ==> r is None,
{
    let theme_file_names = theme_file_names(file_names, theme_file_name_prefix);
    if theme_file_names.len() == 0 || theme_file_names.len() > u32::MAX as usize {
        return None;
    }
    let count = theme_file_names.len() as u32;
    let random_index = get_fake(0, count);
    let path = theme_path_at(config_directory_path, &theme_file_names, random_index);
    proof {
        if let Some(index) = random_index {
            let themes = theme_names(file_names.deep_view(), theme_file_name_prefix@);
            let millis = choose|millis: u32|
                millis < 1000 && index == #[trigger] fake_number(0, count, millis);
            assert(path->0@ == theme_path_by_millis(config_directory_path@, themes, millis));
            assert(path->0@ == theme_path(config_directory_path@, themes[index as int]));
        }
    }
    path
}

} // verus!
