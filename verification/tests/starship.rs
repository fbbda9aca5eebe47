use apas_75::starship::{
    get_next_theme_file_name, is_text_less, pick_next_theme, ThemeFileError,
};

fn paths(all: &[&str]) -> Vec<String> {
    all.iter().map(|p| String::from(*p)).collect()
}

#[test]
fn next_theme_is_the_first_without_a_current_one() {
    let config_paths = paths(&["/c/b.toml", "/c/readme.md", "/c/a.toml", "/c/c.toml"]);
    assert_eq!(
        get_next_theme_file_name(&config_paths, None),
        Ok(String::from("/c/a.toml"))
    );
}

#[test]
fn next_theme_follows_the_current_one() {
    let config_paths = paths(&["/c/b.toml", "/c/readme.md", "/c/a.toml", "/c/c.toml"]);
    assert_eq!(
        get_next_theme_file_name(&config_paths, Some(String::from("/c/a.toml"))),
        Ok(String::from("/c/b.toml"))
    );
    assert_eq!(
        get_next_theme_file_name(&config_paths, Some(String::from("/c/b.toml"))),
        Ok(String::from("/c/c.toml"))
    );
    // A current path that is none of the files is followed by the next greater one.
    assert_eq!(
        get_next_theme_file_name(&config_paths, Some(String::from("/c/azure"))),
        Ok(String::from("/c/b.toml"))
    );
}

#[test]
fn next_theme_wraps_around_after_the_last() {
    let config_paths = paths(&["/c/b.toml", "/c/a.toml", "/c/c.toml"]);
    assert_eq!(
        get_next_theme_file_name(&config_paths, Some(String::from("/c/c.toml"))),
        Ok(String::from("/c/a.toml"))
    );
    assert_eq!(
        get_next_theme_file_name(&config_paths, Some(String::from("/d"))),
        Ok(String::from("/c/a.toml"))
    );
}

#[test]
fn next_theme_of_a_single_path_is_that_path() {
    let config_paths = paths(&["/c/z.toml"]);
    assert_eq!(
        get_next_theme_file_name(&config_paths, Some(String::from("/c/a.toml"))),
        Ok(String::from("/c/z.toml"))
    );
    assert_eq!(
        get_next_theme_file_name(&config_paths, Some(String::from("/c/z.toml"))),
        Ok(String::from("/c/z.toml"))
    );
}

#[test]
fn next_theme_fails_without_theme_files() {
    assert_eq!(
        get_next_theme_file_name(&paths(&[]), None),
        Err(ThemeFileError::NoThemeFiles)
    );
    assert_eq!(
        get_next_theme_file_name(
            &paths(&["/c/readme.md", "/c/toml", "/c/.toml", "/c/a.toml.bak", "/c/a.TOML"]),
            Some(String::from("/c/a.toml"))
        ),
        Err(ThemeFileError::NoThemeFiles)
    );
}

#[test]
fn next_theme_takes_the_extension_of_the_file_name() {
    let config_paths = paths(&["/c.toml/plain", "/c/..toml", "/c/a.b.toml", "/c/dir.toml/"]);
    assert_eq!(
        get_next_theme_file_name(&config_paths, None),
        Ok(String::from("/c/..toml"))
    );
    assert_eq!(
        get_next_theme_file_name(&config_paths, Some(String::from("/c/..toml"))),
        Ok(String::from("/c/a.b.toml"))
    );
    assert_eq!(
        get_next_theme_file_name(&config_paths, Some(String::from("/c/a.b.toml"))),
        Ok(String::from("/c/dir.toml/"))
    );
}

#[test]
fn next_theme_sorts_paths_component_by_component() {
    // As texts, "a-b/x.toml" stands before "a/b.toml"; as paths, after it.
    let config_paths = paths(&["a-b/x.toml", "a/b.toml"]);
    assert_eq!(
        get_next_theme_file_name(&config_paths, None),
        Ok(String::from("a/b.toml"))
    );
    // The file after the current one is looked for in the order of texts.
    assert_eq!(
        get_next_theme_file_name(&config_paths, Some(String::from("a-b/x.toml"))),
        Ok(String::from("a/b.toml"))
    );
    assert_eq!(
        get_next_theme_file_name(&config_paths, Some(String::from("a/b.toml"))),
        Ok(String::from("a/b.toml"))
    );
}

#[test]
fn pick_next_theme_goes_by_the_order_given() {
    let files = paths(&["b", "d", "a"]);
    assert_eq!(pick_next_theme(&files, 3, &None), Some(String::from("b")));
    assert_eq!(
        pick_next_theme(&files, 3, &Some(String::from("b"))),
        Some(String::from("d"))
    );
    assert_eq!(
        pick_next_theme(&files, 3, &Some(String::from("d"))),
        Some(String::from("b"))
    );
    assert_eq!(
        pick_next_theme(&files, 1, &Some(String::from("b"))),
        Some(String::from("b"))
    );
    assert_eq!(pick_next_theme(&paths(&[]), 0, &None), None);
    assert_eq!(pick_next_theme(&paths(&[]), 1, &Some(String::from("a"))), None);
}

#[test]
fn text_order_is_the_order_of_str() {
    let texts = [
        "", "a", "A", "ab", "abc", "abd", "b", "/c/a.toml", "/c/b.toml", "/c", "\u{e4}", "z",
        "\u{1f680}", "\u{ffff}", "a\u{0}", "a-b", "a/b",
    ];
    for a in texts {
        for b in texts {
            assert_eq!(is_text_less(a, b), a < b, "{:?} < {:?}", a, b);
        }
    }
}

#[test]
fn theme_file_error_message() {
    assert_eq!(ThemeFileError::NoThemeFiles.message(), "No theme files available");
}

#[test]
fn next_theme_is_one_of_the_given_theme_paths() {
    let config_paths = paths(&["/c/b.toml", "/c/readme.md", "/c/a.toml", "/d/c.toml", "x.toml"]);
    let currents = [
        None,
        Some("/c/a.toml"),
        Some("/c/readme.md"),
        Some("/c/zzz.toml"),
        Some(""),
        Some("/d/c.toml"),
        Some("x.toml"),
        Some("~"),
    ];
    for current in currents {
        let next = get_next_theme_file_name(&config_paths, current.map(String::from)).unwrap();
        assert!(config_paths.contains(&next));
        assert!(next.ends_with(".toml"));
    }
}

#[test]
fn next_theme_does_not_depend_on_the_number_of_paths() {
    let files = paths(&["/c/a.toml"]);
    for current in [None, Some("/c/0"), Some("/c/a.toml"), Some("/c/z")] {
        let current = current.map(String::from);
        for count in [1, 2, 10] {
            assert_eq!(
                pick_next_theme(&files, count, &current),
                Some(String::from("/c/a.toml"))
            );
        }
    }
    let with_others = paths(&["/c/a.toml", "/c/readme.md", "/c/notes"]);
    assert_eq!(
        get_next_theme_file_name(&with_others, Some(String::from("/c/a.toml"))),
        get_next_theme_file_name(&files, Some(String::from("/c/a.toml")))
    );
}
