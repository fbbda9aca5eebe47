use apas_75::document::config::Config;
use apas_75::document::error::ConfigError;

#[test]
fn new_works() {
    let toml = "### apas_75 theme start ###\ncustom\nlines\n### apas_75 theme end ###\n\ndefault\nlines";
    let config_result: Result<Config, ConfigError> = Config::new_with_defaults(toml);

    assert!(config_result.is_ok());
}

#[test]
fn split_works_on_start() {
    let toml = "### apas_75 theme start ###\ncustom\nlines\n### apas_75 theme end ###\n\ndefault\nlines";
    let config_result: Result<Config, ConfigError> = Config::new_with_defaults(toml);

    assert!(config_result.is_ok());

    let config = config_result.unwrap();

    assert!(config.static_first().is_none());
    assert!(config
        .static_second()
        .clone()
        .is_some_and(|v| v == "default\nlines"));
    assert!(config.theme().clone().is_some_and(|v| v == "custom\nlines"));
}

#[test]
fn split_works_in_middle() {
    let toml = "default\nlines\nstart\n\n### apas_75 theme start ###\ncustom\nlines\n### apas_75 theme end ###\ndefault\nlines\nend";
    let config_result: Result<Config, ConfigError> = Config::new_with_defaults(toml);

    assert!(config_result.is_ok());

    let config = config_result.unwrap();

    assert!(config
        .static_first()
        .clone()
        .is_some_and(|v| v == "default\nlines\nstart"));
    assert!(config
        .static_second()
        .clone()
        .is_some_and(|v| v == "default\nlines\nend"));
    assert!(config.theme().clone().is_some_and(|v| v == "custom\nlines"));
}

#[test]
fn split_works_on_end() {
    let toml = "default\nlines\nstart\ndefault\nlines\nend\n\n### apas_75 theme start ###\ncustom\nlines\n### apas_75 theme end ###";
    let config_result: Result<Config, ConfigError> = Config::new_with_defaults(toml);

    assert!(config_result.is_ok());

    let config = config_result.unwrap();

    assert!(config
        .static_first()
        .clone()
        .is_some_and(|v| v == "default\nlines\nstart\ndefault\nlines\nend"));
    assert!(config.static_second().is_none());
    assert!(config.theme().clone().is_some_and(|v| v == "custom\nlines"));
}

#[test]
fn split_works_without_theme() {
    let toml = "default\nlines\nstart\ndefault\nlines\nend";
    let config_result: Result<Config, ConfigError> = Config::new_with_defaults(toml);

    assert!(config_result.is_ok());

    let config = config_result.unwrap();

    assert!(config
        .static_first()
        .clone()
        .is_some_and(|v| v == "default\nlines\nstart\ndefault\nlines\nend"));
    assert!(config.static_second().is_none());
    assert!(config.theme().is_none());
}

#[test]
fn to_string_works() {
    let toml = "default\nlines\nstart\n\n### apas_75 theme start ###\n### apas_75 theme end ###\ndefault\nlines\nend";
    let config_result: Result<Config, ConfigError> = Config::new_with_defaults(toml);

    let mut config = config_result.unwrap();

    config.set_theme("custom\nlines");

    assert_eq!(
        config.to_string(),
        "default\nlines\nstart\n\n### apas_75 theme start ###\n\ncustom\nlines\n\n### apas_75 theme end ###\n\ndefault\nlines\nend"
    );
}

#[test]
fn to_string_works_with_custom_indicators() {
    let toml = "default\nlines\nstart\n\n### custom start ###\n### custom end ###\ndefault\nlines\nend";
    let config_result: Result<Config, ConfigError> = Config::new(
        toml,
        Some("### custom start ###"),
        Some("### custom end ###"),
    );

    let mut config = config_result.unwrap();

    config.set_theme("custom\nlines");

    assert_eq!(
        config.to_string(),
        "default\nlines\nstart\n\n### custom start ###\n\ncustom\nlines\n\n### custom end ###\n\ndefault\nlines\nend"
    );
}

fn parts(config: &Config) -> (Option<String>, Option<String>, Option<String>) {
    (
        config.static_first().clone(),
        config.theme().clone(),
        config.static_second().clone(),
    )
}

fn some(text: &str) -> Option<String> {
    Some(String::from(text))
}

#[test]
fn parse_without_markers() {
    let config = Config::new("default\nlines", None, None).unwrap();
    assert_eq!(parts(&config), (some("default\nlines"), None, None));
    assert!(!config.has_theme());
}

#[test]
fn parse_with_markers_at_the_start() {
    let config = Config::new(
        "### start ###\ncustom\n### end ###\n\ndefault\nlines",
        Some("### start ###"),
        Some("### end ###"),
    )
    .unwrap();
    assert_eq!(parts(&config), (None, some("custom"), some("default\nlines")));
    assert!(config.has_theme());
}

#[test]
fn parse_with_markers_in_the_middle() {
    let config = Config::new(
        "default\nlines\nstart\n\n### start ###\ncustom\nlines\n### end ###\ndefault\nlines\nend",
        Some("### start ###"),
        Some("### end ###"),
    )
    .unwrap();
    assert_eq!(
        parts(&config),
        (
            some("default\nlines\nstart"),
            some("custom\nlines"),
            some("default\nlines\nend")
        )
    );
}

#[test]
fn parse_fails_on_a_single_marker() {
    let only_start = Config::new("a\n### start ###\nb", Some("### start ###"), Some("### end ###"));
    assert!(matches!(only_start, Err(ConfigError::MissingThemeIndicator)));
    let only_end = Config::new("a\n### end ###\nb", Some("### start ###"), Some("### end ###"));
    assert!(matches!(only_end, Err(ConfigError::MissingThemeIndicator)));
    // One marker once, the other twice.
    let end_twice = Config::new(
        "### start ###\n### end ###\n### end ###",
        Some("### start ###"),
        Some("### end ###"),
    );
    assert!(matches!(end_twice, Err(ConfigError::MissingThemeIndicator)));
    let defaults = Config::new_with_defaults("x\n### apas_75 theme start ###\ny");
    assert!(matches!(defaults, Err(ConfigError::MissingThemeIndicator)));
}

#[test]
fn parse_fails_on_reversed_markers() {
    let reversed = Config::new(
        "### end ###\ncustom\n### start ###",
        Some("### start ###"),
        Some("### end ###"),
    );
    assert!(matches!(reversed, Err(ConfigError::ThemeIndicatorsWrongOrder)));
    let defaults =
        Config::new_with_defaults("### apas_75 theme end ###\n### apas_75 theme start ###");
    assert!(matches!(defaults, Err(ConfigError::ThemeIndicatorsWrongOrder)));
}

#[test]
fn parse_takes_repeated_markers_as_text() {
    let source = "### start ###\n### start ###\n### end ###\n### end ###";
    let config = Config::new(source, Some("### start ###"), Some("### end ###")).unwrap();
    assert_eq!(parts(&config), (some(source), None, None));
}

#[test]
fn parse_trims_each_part() {
    let config = Config::new(
        " \n before \n<<\t theme \n >>\n after \n\n",
        Some("<<"),
        Some(">>"),
    )
    .unwrap();
    assert_eq!(parts(&config), (some("before"), some("theme"), some("after")));
}

#[test]
fn parse_gives_none_for_blank_parts() {
    let config = Config::new(" \n<<\n\n>>\t", Some("<<"), Some(">>")).unwrap();
    assert_eq!(parts(&config), (None, None, None));
    assert!(!config.has_theme());

    let blank = Config::new(" \n\t ", None, None).unwrap();
    assert_eq!(parts(&blank), (None, None, None));

    let empty = Config::new("", None, None).unwrap();
    assert_eq!(parts(&empty), (None, None, None));
}

#[test]
fn parse_trims_a_text_without_markers() {
    let config = Config::new("\n default\nlines \n", None, None).unwrap();
    assert_eq!(parts(&config), (some("default\nlines"), None, None));
}

#[test]
fn parse_uses_one_custom_marker_beside_a_default() {
    let config = Config::new(
        "a\n<<\nb\n### apas_75 theme end ###\nc",
        Some("<<"),
        None,
    )
    .unwrap();
    assert_eq!(parts(&config), (some("a"), some("b"), some("c")));
    let config = Config::new(
        "a\n### apas_75 theme start ###\nb\n>>\nc",
        None,
        Some(">>"),
    )
    .unwrap();
    assert_eq!(parts(&config), (some("a"), some("b"), some("c")));
}

#[test]
fn parse_of_markers_that_overlap_has_no_theme() {
    // The end marker starts inside the start marker.
    let config = Config::new("x abc y", Some("ab"), Some("bc")).unwrap();
    assert_eq!(parts(&config), (some("x"), None, some("y")));
    let defaults =
        Config::new_with_defaults("a ### apas_75 theme start ### apas_75 theme end ### b").unwrap();
    assert_eq!(parts(&defaults), (some("a"), None, some("b")));
}

#[test]
fn parse_counts_characters() {
    let config = Config::new(
        "\u{e4}\u{f6}\u{fc} \u{1f680}\n<<th\u{e8}me>>\u{3000}apr\u{e8}s",
        Some("<<"),
        Some(">>"),
    )
    .unwrap();
    assert_eq!(
        parts(&config),
        (
            some("\u{e4}\u{f6}\u{fc} \u{1f680}"),
            some("th\u{e8}me"),
            some("apr\u{e8}s")
        )
    );
}

#[test]
fn set_theme_trims_and_keeps_the_rest() {
    let mut config = Config::new("before\n<<\nold\n>>\nafter", Some("<<"), Some(">>")).unwrap();
    config.set_theme("\n  new\ntheme \n");
    assert_eq!(parts(&config), (some("before"), some("new\ntheme"), some("after")));
    assert!(config.has_theme());
    assert_eq!(config.to_string(), "before\n\n<<\n\nnew\ntheme\n\n>>\n\nafter");
}

#[test]
fn set_theme_with_a_blank_text_sets_no_theme() {
    let mut config = Config::new("before\n<<\nold\n>>\nafter", Some("<<"), Some(">>")).unwrap();
    assert!(config.has_theme());
    config.set_theme(" \n ");
    assert!(!config.has_theme());
    assert_eq!(parts(&config), (some("before"), None, some("after")));
    config.set_theme("");
    assert!(!config.has_theme());
}

#[test]
fn to_string_writes_both_markers_without_a_theme() {
    let config = Config::new("default\nlines", Some("<<"), Some(">>")).unwrap();
    assert_eq!(config.to_string(), "default\nlines\n\n<<\n\n\n\n>>");
    let empty = Config::new("", Some("<<"), Some(">>")).unwrap();
    assert_eq!(empty.to_string(), "<<\n\n\n\n>>");
}

#[test]
fn to_string_after_set_theme_on_a_text_without_markers() {
    let mut config = Config::new_with_defaults(" default\nlines\n").unwrap();
    config.set_theme("custom\nlines");
    assert_eq!(
        config.to_string(),
        "default\nlines\n\n### apas_75 theme start ###\n\ncustom\nlines\n\n### apas_75 theme end ###"
    );
}

#[test]
fn to_string_has_no_whitespace_at_its_ends() {
    let sources = [
        "",
        " ",
        "\n\ntext\n\n",
        "a\n<<\nb\n>>\nc",
        "<<\nb\n>>",
        "\t<<>>\n",
        " << \n >> ",
    ];
    for source in sources {
        let config = Config::new(source, Some("<<"), Some(">>")).unwrap();
        let text = config.to_string();
        assert_eq!(text, text.trim());
    }
    // The trim also cuts into a marker that starts or ends with whitespace.
    let config = Config::new("x", Some(" <<"), Some(">> ")).unwrap();
    assert_eq!(config.to_string(), "x\n\n <<\n\n\n\n>>");
    let config = Config::new("", Some(" <<"), Some(">> ")).unwrap();
    assert_eq!(config.to_string(), "<<\n\n\n\n>>");
}

#[test]
fn to_string_reads_back_to_the_same_parts() {
    let sources = [
        "default\nlines",
        "### apas_75 theme start ###\ncustom\nlines\n### apas_75 theme end ###\n\ndefault\nlines",
        "default\nlines\nstart\n\n### apas_75 theme start ###\ncustom\nlines\n### apas_75 theme end ###\ndefault\nlines\nend",
        "a ### apas_75 theme start ###### apas_75 theme end ### b",
        "",
        "  \n",
    ];
    for source in sources {
        let config = Config::new_with_defaults(source).unwrap();
        let text = config.to_string();
        let again = Config::new_with_defaults(&text).unwrap();
        assert_eq!(parts(&again), parts(&config));
        assert_eq!(again.to_string(), text);
    }
}

#[test]
fn to_string_of_repeated_markers_does_not_read_back() {
    let source = "<<\n<<\n>>\n>>";
    let config = Config::new(source, Some("<<"), Some(">>")).unwrap();
    let text = config.to_string();
    assert_eq!(text, "<<\n<<\n>>\n>>\n\n<<\n\n\n\n>>");
    let again = Config::new(&text, Some("<<"), Some(">>")).unwrap();
    assert_eq!(parts(&again), (some(text.as_str()), None, None));
}

#[test]
fn to_string_of_a_marker_with_a_blank_line_may_not_read_back() {
    // The marker stands once in the source, and twice in the text written out.
    let config = Config::new("xa a\n\na y >>", Some("a\n\na"), Some(">>")).unwrap();
    assert_eq!(parts(&config), (some("xa"), some("y"), None));
    let text = config.to_string();
    assert_eq!(text, "xa\n\na\n\na\n\ny\n\n>>");
    assert!(matches!(
        Config::new(&text, Some("a\n\na"), Some(">>")),
        Err(ConfigError::MissingThemeIndicator)
    ));
}

#[test]
fn config_error_messages() {
    assert_eq!(
        ConfigError::MissingThemeIndicator.message(),
        "Not exactly one start and one end theme indicator given"
    );
    assert_eq!(
        ConfigError::ThemeIndicatorsWrongOrder.message(),
        "Theme indicators not in the correct order (start > end)"
    );
}
