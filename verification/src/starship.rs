//! Choosing the theme file that follows the one in use.

use crate::strings::{option_view, same_text};
use crate::trim::chars_of;
use std::path::{Path, PathBuf};
use vstd::prelude::*;
use vstd::string::StringExecFns;

verus! {

/// The extension of a theme file.
pub const FILE_EXTENSION_TOML: &'static str = "toml";

/// Why no theme file could be chosen.
#[derive(Debug, Clone, Copy, PartialEq, Eq, Structural)]
pub enum ThemeFileError {
    /// None of the paths is a theme file.
    NoThemeFiles,
}

impl ThemeFileError {
    /// The text of the message that describes this error.
    pub open spec fn message_text(self) -> Seq<char> {
        "No theme files available"@
    }

    /// Describes this error in words.
    pub fn message(&self) -> (r: String)
        ensures
            r@ == self.message_text(),
    {
        String::from_str("No theme files available")
    }
}

/// The extension of the file that the path `path` names, as
/// `Path::extension` gives it for the platform that the library is built
/// for.
pub uninterp spec fn extension_of(path: Seq<char>) -> Option<Seq<char>>;

/// The paths `paths` in the order of `Path`, which compares two paths
/// component by component, as the platform that the library is built for
/// splits them.
pub uninterp spec fn sorted_as_paths(paths: Seq<Seq<char>>) -> Seq<Seq<char>>;

/// Whether the path `path` names a theme file: its extension is `toml`.
pub open spec fn is_theme_path(path: Seq<char>) -> bool {
    extension_of(path) == Some(FILE_EXTENSION_TOML@)
}

/// The theme files among `paths`, in the order of `Path`.
pub open spec fn theme_files(paths: Seq<Seq<char>>) -> Seq<Seq<char>> {
    sorted_as_paths(paths.filter(|path: Seq<char>| is_theme_path(path)))
}

/// `a` and `b` agree before offset `k`, where `a` ends or holds the
/// smaller character.
pub open spec fn is_less_at(a: Seq<char>, b: Seq<char>, k: int) -> bool {
    &&& 0 <= k <= a.len()
    &&& k < b.len()
    &&& a.subrange(0, k) == b.subrange(0, k)
    &&& k < a.len() ==> (a[k] as u32) < (b[k] as u32)
}

/// `a` stands before `b` in the order of texts: character by character,
/// a text before each of its extensions.
pub open spec fn text_lt(a: Seq<char>, b: Seq<char>) -> bool {
    exists|k: int| is_less_at(a, b, k)
}

/// `files[i]` is the first of `files` that stands after `current`.
pub open spec fn is_first_after(files: Seq<Seq<char>>, current: Seq<char>, i: int) -> bool {
    &&& 0 <= i < files.len()
    &&& text_lt(current, files[i])
    &&& forall|j: int| 0 <= j < i ==> !text_lt(current, #[trigger] files[j])
}

/// The theme file to use next, of the theme files `files` in their
/// order, where `path_count` paths were given and `current` is the file
/// in use: the first file that stands after `current`. It is the first
/// file of all where none stands after `current`, where only one path
/// was given or where no file is in use. `None` without any theme file.
pub open spec fn next_theme(
    files: Seq<Seq<char>>,
    path_count: nat,
    current: Option<Seq<char>>,
) -> Option<Seq<char>> {
    if files.len() == 0 {
        None
    } else if path_count == 1 || current is None {
        Some(files[0])
    } else {
        match first_after(files, current->0) {
            Some(i) => Some(files[i]),
            None => Some(files[0]),
        }
    }
}

/// The index of the first of `files` that stands after `current`.
pub open spec fn first_after(files: Seq<Seq<char>>, current: Seq<char>) -> Option<int> {
    if exists|i: int| is_first_after(files, current, i) {
        Some(choose|i: int| is_first_after(files, current, i))
    } else {
        None
    }
}

/// The first file after `current` is the value of `first_after`.
pub proof fn lemma_first_after_is(files: Seq<Seq<char>>, current: Seq<char>, i: int)
    requires
        is_first_after(files, current, i),
    ensures
        first_after(files, current) == Some(i),
{
    let k = choose|k: int| is_first_after(files, current, k);
    if k < i {
        assert(!text_lt(current, files[k]));
    } else if k > i {
        assert(!text_lt(current, files[i]));
    }
}

/// The theme file to use next is one of the theme files.
pub proof fn lemma_next_theme_is_a_file(
    files: Seq<Seq<char>>,
    path_count: nat,
    current: Option<Seq<char>>,
)
    ensures
        next_theme(files, path_count, current) matches Some(path) ==> files.contains(path),
        next_theme(files, path_count, current) is None <==> files.len() == 0,
{
    if files.len() > 0 {
        assert(files.contains(files[0]));
        if current is Some {
            if let Some(i) = first_after(files, current->0) {
                assert(is_first_after(files, current->0, i));
                assert(files.contains(files[i]));
            }
        }
    }
}

/// How many paths were given does not change the theme file to use
/// next, as long as the theme files are among them: with a single theme
/// file, that file follows every current one.
pub proof fn lemma_next_theme_whatever_the_count(
    files: Seq<Seq<char>>,
    path_count: nat,
    other_count: nat,
    current: Option<Seq<char>>,
)
    requires
        files.len() <= path_count,
        files.len() <= other_count,
    ensures
        next_theme(files, path_count, current) == next_theme(files, other_count, current),
{
    if files.len() == 1 && current is Some {
        if let Some(i) = first_after(files, current->0) {
            assert(is_first_after(files, current->0, i));
        }
    }
}

/// A path among the sorted theme files of `paths` is one of `paths` and
/// has the extension `toml`.
pub proof fn lemma_theme_file_is_a_theme_path(
    paths: Seq<Seq<char>>,
    sorted: Seq<Seq<char>>,
    path: Seq<char>,
)
    requires
        sorted.to_multiset() == paths.filter(|path: Seq<char>| is_theme_path(path)).to_multiset(),
        sorted.contains(path),
    ensures
        paths.contains(path),
        is_theme_path(path),
{
    let pred = |path: Seq<char>| is_theme_path(path);
    let kept = paths.filter(pred);
    sorted.to_multiset_ensures();
    kept.to_multiset_ensures();
    assert(sorted.to_multiset().count(path) > 0);
    assert(kept.to_multiset().count(path) > 0);
    assert(kept.contains(path));
    paths.lemma_filter_contains_rev(pred, path);
    let i = choose|i: int| 0 <= i < kept.len() && kept[i] == path;
    paths.lemma_filter_pred(pred, i);
}

/// The extension of the file that `path` names, by `Path::extension`.
/// The result depends on the text of `path` alone.
#[verifier::external_body]
fn path_extension(path: &str) -> (r: Option<String>)
    ensures
        option_view(r) == extension_of(path@),
{
    Path::new(path).extension().map(|e| e.to_string_lossy().into_owned())
}

/// The paths `paths`, sorted as `[PathBuf]::sort` sorts them. The result
/// depends on the texts of `paths` alone, and holds the same paths, each
/// as often as `paths` does.
#[verifier::external_body]
fn sort_as_paths(paths: Vec<String>) -> (r: Vec<String>)
    ensures
        r.deep_view() == sorted_as_paths(paths.deep_view()),
        r.len() == paths.len(),
        r.deep_view().to_multiset() == paths.deep_view().to_multiset(),
{
    let mut sorted: Vec<PathBuf> = paths.into_iter().map(PathBuf::from).collect();
    sorted.sort();
    sorted.into_iter().map(|p| p.to_string_lossy().into_owned()).collect()
}

/// Whether `a` stands before `b` in the order of texts.
pub fn is_text_less(a: &str, b: &str) -> (r: bool)
    ensures
        r == text_lt(a@, b@),
{
    let x = chars_of(a);
    let y = chars_of(b);
    let mut i: usize = 0;
    while i < x.len() && i < y.len()
        invariant
            i <= x.len(),
            i <= y.len(),
            x@ == a@,
            y@ == b@,
            forall|j: int| 0 <= j < i ==> x@[j] == y@[j],
        decreases x.len() - i,
    {
        if x[i] != y[i] {
            let less = (x[i] as u32) < (y[i] as u32);
            proof {
                if less {
                    assert(a@.subrange(0, i as int) =~= b@.subrange(0, i as int));
                    assert(is_less_at(a@, b@, i as int));
                } else {
                    assert forall|k: int| !is_less_at(a@, b@, k) by {
                        if is_less_at(a@, b@, k) {
                            if k > i {
                                assert(a@.subrange(0, k)[i as int] == b@.subrange(0, k)[i as int]);
                            }
                        }
                    }
                }
            }
            return less;
        }
        i += 1;
    }
    let less = x.len() < y.len();
    proof {
        if less {
            assert(a@.subrange(0, i as int) =~= b@.subrange(0, i as int));
            assert(is_less_at(a@, b@, i as int));
        } else {
            assert forall|k: int| !is_less_at(a@, b@, k) by {
            }
        }
    }
    less
}

/// The theme file to use next, of the sorted theme files `theme_files`,
/// where `path_count` paths were given and `current_config_path` is the
/// file in use.
pub fn pick_next_theme(
    theme_files: &Vec<String>,
    path_count: usize,
    current_config_path: &Option<String>,
) -> (r: Option<String>)
    ensures
        option_view(r) == next_theme(
            theme_files.deep_view(),
            path_count as nat,
            option_view(*current_config_path),
        ),
        r matches Some(path) ==> theme_files.deep_view().contains(path@),
        r is None <==> theme_files.len() == 0,
{
    proof {
        lemma_next_theme_is_a_file(
            theme_files.deep_view(),
            path_count as nat,
            option_view(*current_config_path),
        );
    }
    if theme_files.len() == 0 {
        return None;
    }
    let ghost files = theme_files.deep_view();
    let first = theme_files[0].clone();
    assert(first@ == files[0]);
    if path_count == 1 {
        return Some(first);
    }
    match current_config_path {
        None => Some(first),
        Some(current) => {
            let mut i: usize = 0;
            while i < theme_files.len()
                invariant
                    i <= theme_files.len(),
                    files == theme_files.deep_view(),
                    files.len() > 0,
                    path_count != 1,
                    option_view(*current_config_path) == Some(current@),
                    forall|j: int| 0 <= j < i ==> !text_lt(current@, #[trigger] files[j]),
                decreases theme_files.len() - i,
            {
                assert(files[i as int] == theme_files[i as int]@);
                if is_text_less(current.as_str(), theme_files[i].as_str()) {
                    proof {
                        lemma_first_after_is(files, current@, i as int);
                    }
                    return Some(theme_files[i].clone());
                }
                i += 1;
            }
            Some(first)
        },
    }
}

/// Calculates the next Starship theme file to use, based on the paths
/// `config_paths` and the currently used `current_config_path`: among
/// the paths with the extension `toml`, sorted, the first one after the
/// current path, or the first one of all. Fails where no path has the
/// extension `toml`.
pub fn get_next_theme_file_name(
    config_paths: &Vec<String>,
    current_config_path: Option<String>,
) -> (r: Result<String, ThemeFileError>)
    ensures
        match r {
            Ok(path) => next_theme(
                theme_files(config_paths.deep_view()),
                config_paths.len() as nat,
                option_view(current_config_path),
            ) == Some(path@),
            Err(e) => next_theme(
                theme_files(config_paths.deep_view()),
                config_paths.len() as nat,
                option_view(current_config_path),
            ) is None,
        },
        r is Err <==> config_paths.deep_view().filter(|path: Seq<char>| is_theme_path(path)).len()
            == 0,
        r matches Ok(path) ==> is_theme_path(path@) && config_paths.deep_view().contains(path@),
{
    let ghost pred = |path: Seq<char>| is_theme_path(path);
    let mut toml_paths: Vec<String> = Vec::new();
    let mut i: usize = 0;
    proof {
        reveal(Seq::filter);
        assert(config_paths.deep_view().take(0) =~= Seq::<Seq<char>>::empty());
        assert(toml_paths.deep_view() =~= Seq::<Seq<char>>::empty());
    }
    while i < config_paths.len()
        invariant
            i <= config_paths.len(),
            pred == |path: Seq<char>| is_theme_path(path),
            toml_paths.deep_view() == config_paths.deep_view().take(i as int).filter(pred),
        decreases config_paths.len() - i,
    {
        let path = &config_paths[i];
        let ghost before = toml_paths.deep_view();
        let ghost seen = config_paths.deep_view().take(i as int);
        proof {
            seen.lemma_filter_push(path@, pred);
            assert(config_paths.deep_view().take(i + 1) =~= seen.push(path@));
        }
        let is_toml = match path_extension(path.as_str()) {
            Some(extension) => same_text(extension.as_str(), FILE_EXTENSION_TOML),
            None => false,
        };
        if is_toml {
            toml_paths.push(path.clone());
            assert(toml_paths.deep_view() =~= before.push(path@));
        }
        i += 1;
    }
    assert(config_paths.deep_view().take(config_paths.len() as int) =~= config_paths.deep_view());
    let theme_files = sort_as_paths(toml_paths);
    match pick_next_theme(&theme_files, config_paths.len(), &current_config_path) {
        Some(path) => {
            proof {
                lemma_theme_file_is_a_theme_path(
                    config_paths.deep_view(),
                    theme_files.deep_view(),
                    path@,
                );
            }
            Ok(path)
        },
        None => Err(ThemeFileError::NoThemeFiles),
    }
}

} // verus!
