//! Paths that start at the home directory of the user.

use crate::trim::chars_of;
use vstd::prelude::*;
use vstd::string::StrSliceExecFns;
use vstd::string::StringExecFns;

verus! {

/// The character between a directory and a file name in a path.
pub const DIRECTORY_SEPARATOR: char = '/';

/// The name of the environment variable that holds the home directory.
pub const ENV_VAR_USER_HOME: &'static str = "HOME";

/// The character that stands for the home directory at the start of a
/// path.
pub const SYMBOL_USER_HOME: char = '~';

/// Why a path could not be built.
#[derive(Debug, Clone, Copy, PartialEq, Eq, Structural)]
pub enum PathError {
    /// The path starts at the home directory, which is not known.
    HomeNotSet,
}

/// Whether `path` starts with the symbol of the home directory.
pub open spec fn starts_at_home(path: Seq<char>) -> bool {
    path.len() > 0 && path[0] == SYMBOL_USER_HOME
}

/// The path `path` with the symbol of the home directory at its start
/// replaced by `home_dir` and a separator; `path` itself where it does
/// not start with the symbol. Fails where the home directory is needed
/// and not given.
pub open spec fn home_replaced(path: Seq<char>, home_dir: Option<Seq<char>>) -> Result<
    Seq<char>,
    PathError,
> {
    if starts_at_home(path) {
        match home_dir {
            Some(home) => Ok(home.push(DIRECTORY_SEPARATOR) + path.subrange(1, path.len() as int)),
            None => Err(PathError::HomeNotSet),
        }
    } else {
        Ok(path)
    }
}

/// The home directory as a text, where it is given.
pub open spec fn home_view(home_dir: Option<&str>) -> Option<Seq<char>> {
    match home_dir {
        Some(home) => Some(home@),
        None => None,
    }
}

impl PathError {
    /// The text of the message that describes this error for `path`.
    pub open spec fn message_text(self, path: Seq<char>) -> Seq<char> {
        "Environment variable 'HOME' not set (but required to canonicalize '"@ + path + "')"@
    }

    /// Describes this error, met with the path `path`, in words.
    pub fn message(&self, path: &str) -> (r: String)
        ensures
            r@ == self.message_text(path@),
    {
        let mut text = String::from_str(
            "Environment variable 'HOME' not set (but required to canonicalize '",
        );
        text.append(path);
        text.append("')");
        text
    }
}

/// Replaces "~" at the start of `path` by `home_dir`, the home directory
/// of the current user, where the path starts with it.
pub fn replace_home(path: &str, home_dir: Option<&str>) -> (r: Result<String, PathError>)
    ensures
        match r {
            Ok(replaced) => home_replaced(path@, home_view(home_dir)) == Ok::<
                Seq<char>,
                PathError,
            >(replaced@),
            Err(e) => home_replaced(path@, home_view(home_dir)) == Err::<Seq<char>, PathError>(e),
        },
{
    let chars = chars_of(path);
    if chars.len() > 0 && chars[0] == SYMBOL_USER_HOME {
        match home_dir {
            Some(home) => {
                proof {
                    reveal_strlit("/");
                }
                let mut replaced = String::from_str(home);
                replaced.append("/");
                replaced.append(path.substring_char(1, chars.len()));
                assert(replaced@ =~= home@.push(DIRECTORY_SEPARATOR) + path@.subrange(
                    1,
                    path@.len() as int,
                ));
                Ok(replaced)
            },
            None => Err(PathError::HomeNotSet),
        }
    } else {
        Ok(String::from_str(path))
    }
}

} // verus!
