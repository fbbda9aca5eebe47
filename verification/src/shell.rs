//! The supported shells and the command that sets an environment
//! variable in each of them.

use crate::strings::same_text;
use crate::trim::chars_of;
use vstd::prelude::*;
use vstd::string::StringExecFns;

verus! {

/// Key for the environment variable that determines which configuration
/// file Starship will use.
pub const ENV_KEY_STARSHIP_CONFIG: &'static str = "STARSHIP_CONFIG";

/// Key for the environment variable in which Starship names the shell.
pub const ENV_KEY_STARSHIP_SHELL: &'static str = "STARSHIP_SHELL";

/// Representation of supported shells.
#[derive(Debug, Clone, Copy, PartialEq, Eq, Structural)]
pub enum Shell {
    Fish,
    Zsh,
}

/// Why no command could be built.
#[derive(Debug, Clone, Copy, PartialEq, Eq, Structural)]
pub enum CommandError {
    /// The name is no valid environment variable name.
    InvalidName,
    /// The value holds a single quote, which cannot stand between single
    /// quotes.
    QuoteInValue,
}

/// Whether `c` may stand in the name of an environment variable: an
/// upper-case ASCII letter, a digit or the underscore.
pub open spec fn is_name_char(c: char) -> bool {
    let n = c as u32;
    ||| 0x41 <= n <= 0x5a
    ||| 0x30 <= n <= 0x39
    ||| n == 0x5f
}

/// Whether `c` is an ASCII digit.
pub open spec fn is_digit(c: char) -> bool {
    0x30 <= c as u32 <= 0x39
}

/// Whether `name` is a valid environment variable name: not empty, made
/// of upper-case ASCII letters, digits and underscores, and not starting
/// with a digit.
pub open spec fn is_valid_name(name: Seq<char>) -> bool {
    &&& name.len() > 0
    &&& forall|i: int| 0 <= i < name.len() ==> is_name_char(#[trigger] name[i])
    &&& !is_digit(name[0])
}

/// The command that sets the variable `name` to `value` in `shell`.
pub open spec fn env_command(shell: Shell, name: Seq<char>, value: Seq<char>) -> Seq<char> {
    match shell {
        Shell::Fish => "set -Ux '"@ + name + "' '"@ + value + "'"@,
        Shell::Zsh => "export '"@ + name + "'='"@ + value + "'"@,
    }
}

/// What `build_env_command` gives for `name` and `value` in `shell`.
pub open spec fn env_command_result(shell: Shell, name: Seq<char>, value: Seq<char>) -> Result<
    Seq<char>,
    CommandError,
> {
    if !is_valid_name(name) {
        Err(CommandError::InvalidName)
    } else if value.contains('\'') {
        Err(CommandError::QuoteInValue)
    } else {
        Ok(env_command(shell, name, value))
    }
}

/// The shell that the value of `STARSHIP_SHELL` names, if it is a
/// supported one.
pub open spec fn shell_named(value: Seq<char>) -> Option<Shell> {
    if value == "fish"@ {
        Some(Shell::Fish)
    } else if value == "zsh"@ {
        Some(Shell::Zsh)
    } else {
        None
    }
}

impl Shell {
    /// The shell that `starship_shell`, the value of the environment
    /// variable `STARSHIP_SHELL`, names. `None` where the shell is not
    /// supported.
    pub fn from_starship_shell(starship_shell: &str) -> (r: Option<Shell>)
        ensures
            r == shell_named(starship_shell@),
    {
        if same_text(starship_shell, "fish") {
            Some(Shell::Fish)
        } else if same_text(starship_shell, "zsh") {
            Some(Shell::Zsh)
        } else {
            None
        }
    }
}

impl CommandError {
    /// The text of the message that describes this error for the
    /// variable `name`.
    pub open spec fn message_text(self, name: Seq<char>) -> Seq<char> {
        match self {
            CommandError::InvalidName => "Invalid environment variable name: '"@ + name + "'"@,
            CommandError::QuoteInValue => "Value must not contain single quotes"@,
        }
    }

    /// Describes this error, met while building a command for the
    /// variable `name`, in words.
    pub fn message(&self, name: &str) -> (r: String)
        ensures
            r@ == self.message_text(name@),
    {
        match self {
            CommandError::InvalidName => {
                let mut text = String::from_str("Invalid environment variable name: '");
                text.append(name);
                text.append("'");
                text
            },
            CommandError::QuoteInValue => String::from_str("Value must not contain single quotes"),
        }
    }
}

/// Trait for creating shell commands.
pub trait CommandBuilder {
    /// Builds a shell command to set the environment variable `name` to
    /// `value`. `value` must not contain single quotes, as it cannot be
    /// escaped properly otherwise.
    fn build_env_command(&self, name: &str, value: &str) -> Result<String, CommandError>;
}

impl CommandBuilder for Shell {
    /// The command quotes both parameters with single quotes, between
    /// which neither shell expands anything.
    fn build_env_command(&self, name: &str, value: &str) -> (r: Result<String, CommandError>)
        ensures
            match r {
                Ok(command) => env_command_result(*self, name@, value@) == Ok::<
                    Seq<char>,
                    CommandError,
                >(command@),
                Err(e) => env_command_result(*self, name@, value@) == Err::<
                    Seq<char>,
                    CommandError,
                >(e),
            },
    {
        if !is_valid_environment_variable_name(name) {
            return Err(CommandError::InvalidName);
        }
        if contains_single_quote(value) {
            return Err(CommandError::QuoteInValue);
        }
        let mut command = String::new();
        match self {
            Shell::Fish => {
                command.append("set -Ux '");
                command.append(name);
                command.append("' '");
                command.append(value);
                command.append("'");
            },
            Shell::Zsh => {
                command.append("export '");
                command.append(name);
                command.append("'='");
                command.append(value);
                command.append("'");
            },
        }
        assert(command@ =~= env_command(*self, name@, value@));
        Ok(command)
    }
}

/// Whether `value` holds a single quote.
fn contains_single_quote(value: &str) -> (r: bool)
    ensures
        r == value@.contains('\''),
{
    let chars = chars_of(value);
    let mut i: usize = 0;
    while i < chars.len()
        invariant
            i <= chars.len(),
            chars@ == value@,
            forall|j: int| 0 <= j < i ==> chars@[j] != '\'',
        decreases chars.len() - i,
    {
        if chars[i] == '\'' {
            assert(value@[i as int] == '\'');
            return true;
        }
        i += 1;
    }
    false
}

/// Whether `c` may stand in the name of an environment variable.
fn is_name_character(c: char) -> (r: bool)
    ensures
        r == is_name_char(c),
{
    let n: u32 = c as u32;
    (0x41 <= n && n <= 0x5a) || (0x30 <= n && n <= 0x39) || n == 0x5f
}

/// Returns whether a given `name` is a valid environment variable name.
/// It is considered valid if it only contains upper-case ASCII characters,
/// underscores and digits and does not start with a digit.
pub fn is_valid_environment_variable_name(name: &str) -> (r: bool)
    ensures
        r == is_valid_name(name@),
{
    let chars = chars_of(name);
    let mut i: usize = 0;
    while i < chars.len()
        invariant
            i <= chars.len(),
            chars@ == name@,
            forall|j: int| 0 <= j < i ==> is_name_char(#[trigger] chars@[j]),
        decreases chars.len() - i,
    {
        if !is_name_character(chars[i]) {
            assert(!is_name_char(name@[i as int]));
            return false;
        }
        i += 1;
    }
    if chars.len() == 0 {
        return false;
    }
    let first: u32 = chars[0] as u32;
    !(0x30 <= first && first <= 0x39)
}

} // verus!
