use apas_75::shell::{
    is_valid_environment_variable_name, CommandBuilder, CommandError, Shell,
    ENV_KEY_STARSHIP_CONFIG,
};

#[test]
fn test_is_valid_environment_variable_name() {
    assert!(is_valid_environment_variable_name(ENV_KEY_STARSHIP_CONFIG));
    assert!(!is_valid_environment_variable_name("365_PARTY_GIRL"));
    assert!(!is_valid_environment_variable_name("CLUB CLASSICS"));
    assert!(!is_valid_environment_variable_name("'=1;"));
}

#[test]
fn test_build_env_command() {
    assert!(Shell::Fish
        .build_env_command("TALK", "TALK")
        .is_ok_and(|v| v == "set -Ux 'TALK' 'TALK'"));
    assert!(Shell::Zsh
        .build_env_command("TALK", "TALK")
        .is_ok_and(|v| v == "export 'TALK'='TALK'"));

    assert!(Shell::Zsh.build_env_command("365_PARTY", "GIRL").is_err());
    assert!(Shell::Zsh.build_env_command("CLUB", "'CLASSICS'").is_err());
}

#[test]
fn valid_name_edge_cases() {
    assert!(!is_valid_environment_variable_name(""));
    assert!(is_valid_environment_variable_name("_"));
    assert!(is_valid_environment_variable_name("A1"));
    assert!(is_valid_environment_variable_name("Z_9"));
    assert!(!is_valid_environment_variable_name("home"));
    assert!(!is_valid_environment_variable_name("KE$HA"));
    assert!(!is_valid_environment_variable_name("0"));
    assert!(!is_valid_environment_variable_name("A\u{c4}"));
}

#[test]
fn build_env_command_errors_are_told_apart() {
    assert_eq!(
        Shell::Fish.build_env_command("365_PARTY", "GIRL"),
        Err(CommandError::InvalidName)
    );
    assert_eq!(
        Shell::Fish.build_env_command("CLUB", "'CLASSICS'"),
        Err(CommandError::QuoteInValue)
    );
    // The name is looked at first.
    assert_eq!(
        Shell::Zsh.build_env_command("club", "it's"),
        Err(CommandError::InvalidName)
    );
    assert_eq!(
        Shell::Zsh.build_env_command("STARSHIP_CONFIG", "/home/nicki/.config/starship.toml"),
        Ok(String::from(
            "export 'STARSHIP_CONFIG'='/home/nicki/.config/starship.toml'"
        ))
    );
    assert_eq!(
        Shell::Fish.build_env_command("LOOKAT", "HER B*TT"),
        Ok(String::from("set -Ux 'LOOKAT' 'HER B*TT'"))
    );
    assert_eq!(
        Shell::Fish.build_env_command("EMPTY", ""),
        Ok(String::from("set -Ux 'EMPTY' ''"))
    );
}

#[test]
fn command_error_messages() {
    assert_eq!(
        CommandError::InvalidName.message("365_PARTY"),
        "Invalid environment variable name: '365_PARTY'"
    );
    assert_eq!(
        CommandError::QuoteInValue.message("CLUB"),
        "Value must not contain single quotes"
    );
}

#[test]
fn shell_from_starship_shell() {
    assert_eq!(Shell::from_starship_shell("fish"), Some(Shell::Fish));
    assert_eq!(Shell::from_starship_shell("zsh"), Some(Shell::Zsh));
    assert_eq!(Shell::from_starship_shell("bash"), None);
    assert_eq!(Shell::from_starship_shell(""), None);
    assert_eq!(Shell::from_starship_shell("fish "), None);
    assert_eq!(Shell::from_starship_shell("Fish"), None);
}
