use apas_75::document::{ConfigDocument, ConfigDocumentError};

#[test]
fn document_splits_at_the_indicators() {
    let document = ConfigDocument::new(
        "before\n### apas_75 theme start ###\n theme \n### apas_75 theme end ###\nafter\n",
    )
    .unwrap();
    assert_eq!(document.default, "before\n\n\nafter\n");
    assert_eq!(document.theme, Some(String::from("\n theme \n")));
}

#[test]
fn document_without_indicators_has_no_theme() {
    let document = ConfigDocument::new(" default\nlines ").unwrap();
    assert_eq!(document.default, " default\nlines ");
    assert_eq!(document.theme, None);
    assert_eq!(document.to_string(), "default\nlines");
}

#[test]
fn document_with_touching_indicators_has_an_empty_theme() {
    let document =
        ConfigDocument::new("### apas_75 theme start ###### apas_75 theme end ###").unwrap();
    assert_eq!(document.default, "\n");
    assert_eq!(document.theme, Some(String::new()));
}

#[test]
fn document_fails_on_a_single_indicator() {
    assert!(matches!(
        ConfigDocument::new("a\n### apas_75 theme start ###\nb"),
        Err(ConfigDocumentError::MissingThemeIndicator)
    ));
    assert!(matches!(
        ConfigDocument::new("a\n### apas_75 theme end ###\nb"),
        Err(ConfigDocumentError::MissingThemeIndicator)
    ));
    assert_eq!(
        ConfigDocumentError::MissingThemeIndicator.message(),
        "Not exactly one start and one end theme indicator given"
    );
}

#[test]
fn document_set_theme_keeps_the_text_as_given() {
    let mut document = ConfigDocument::new("default").unwrap();
    document.set_theme(" custom\nlines \n");
    assert_eq!(document.default, "default");
    assert_eq!(document.theme, Some(String::from(" custom\nlines \n")));
}

#[test]
fn document_to_string_writes_the_theme_between_the_indicators() {
    let mut document = ConfigDocument::new(
        " before\n### apas_75 theme start ###\nold\n### apas_75 theme end ###\nafter\n",
    )
    .unwrap();
    document.set_theme(" custom\nlines \n");
    assert_eq!(
        document.to_string(),
        "before\n\n\nafter\n\n### apas_75 theme start ###\ncustom\nlines\n### apas_75 theme end ###\n"
    );
}

#[test]
fn document_fails_on_reversed_indicators() {
    assert!(matches!(
        ConfigDocument::new("### apas_75 theme end ###\nT\n### apas_75 theme start ###"),
        Err(ConfigDocumentError::ThemeIndicatorsWrongOrder)
    ));
    assert!(matches!(
        ConfigDocument::new("### apas_75 theme end ###### apas_75 theme start ###"),
        Err(ConfigDocumentError::ThemeIndicatorsWrongOrder)
    ));
    // One indicator once and the other twice is a missing indicator,
    // whatever their order.
    assert!(matches!(
        ConfigDocument::new(
            "### apas_75 theme end ###\n### apas_75 theme start ###\n### apas_75 theme end ###"
        ),
        Err(ConfigDocumentError::MissingThemeIndicator)
    ));
    assert_eq!(
        ConfigDocumentError::ThemeIndicatorsWrongOrder.message(),
        "Theme indicators not in the correct order (start > end)"
    );
}

#[test]
fn document_with_indicators_that_overlap_has_an_empty_theme() {
    // The end indicator starts inside the start indicator.
    let document =
        ConfigDocument::new("a ### apas_75 theme start ### apas_75 theme end ### b").unwrap();
    assert_eq!(document.default, "a \n b");
    assert_eq!(document.theme, Some(String::new()));
}
