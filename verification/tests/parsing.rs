use locale_strings::LocaleIdentifier;
use locale_strings::LocaleString;
use locale_strings::ParseError;
use locale_strings::StrictLocaleString;

// -- parse decomposition ---------------------------------------------------------------------
#[test]
fn test_parse_full_identifier() {
    let locale = LocaleString::from_str("en_US.UTF-8@Latn").unwrap();
    assert_eq!(locale.language_code(), "en".to_string());
    assert_eq!(locale.territory(), Some("US".to_string()));
    assert_eq!(locale.code_set(), Some("UTF-8".to_string()));
    assert_eq!(locale.modifier(), Some("Latn".to_string()));
}

#[test]
fn test_parse_language_only() {
    let locale = LocaleString::from_str("en").unwrap();
    assert_eq!(locale.language_code(), "en".to_string());
    assert_eq!(locale.territory(), None);
    assert_eq!(locale.code_set(), None);
    assert_eq!(locale.modifier(), None);
}

#[test]
fn test_parse_language_and_territory() {
    let locale = LocaleString::from_str("en_US").unwrap();
    assert_eq!(locale.language_code(), "en".to_string());
    assert_eq!(locale.territory(), Some("US".to_string()));
    assert_eq!(locale.code_set(), None);
    assert_eq!(locale.modifier(), None);
}

#[test]
fn test_parse_language_and_modifier() {
    let locale = LocaleString::from_str("en@Latn").unwrap();
    assert_eq!(locale.language_code(), "en".to_string());
    assert_eq!(locale.territory(), None);
    assert_eq!(locale.code_set(), None);
    assert_eq!(locale.modifier(), Some("Latn".to_string()));
}

// -- parse edge cases ------------------------------------------------------------------------
#[test]
fn test_parse_empty() {
    assert_eq!(LocaleString::from_str(""), Err(ParseError::EmptyString));
}

#[test]
fn test_parse_posix_names() {
    assert_eq!(LocaleString::from_str("C"), Err(ParseError::PosixUnsupported));
    assert_eq!(
        LocaleString::from_str("POSIX"),
        Err(ParseError::PosixUnsupported)
    );
}

#[test]
fn test_parse_rejects_bad_shapes() {
    assert_eq!(LocaleString::from_str("eng"), Err(ParseError::RegexFailure));
    assert_eq!(LocaleString::from_str("EN"), Err(ParseError::RegexFailure));
    assert_eq!(
        LocaleString::from_str("en_USA"),
        Err(ParseError::RegexFailure)
    );
    assert_eq!(
        LocaleString::from_str("en_us"),
        Err(ParseError::RegexFailure)
    );
    assert_eq!(
        LocaleString::from_str("en_US."),
        Err(ParseError::RegexFailure)
    );
    assert_eq!(
        LocaleString::from_str("en_US.utf8"),
        Err(ParseError::RegexFailure)
    );
    assert_eq!(LocaleString::from_str("en@"), Err(ParseError::RegexFailure));
    assert_eq!(
        LocaleString::from_str("en@a b"),
        Err(ParseError::RegexFailure)
    );
}

// -- round trip ------------------------------------------------------------------------------
#[test]
fn test_round_trip_full() {
    let original = LocaleString::new("en".to_string())
        .unwrap()
        .with_territory("US".to_string())
        .unwrap()
        .with_code_set("UTF-8".to_string())
        .unwrap()
        .with_modifier("Latn".to_string())
        .unwrap();
    let reparsed = LocaleString::from_str(original.to_string().as_str()).unwrap();
    assert_eq!(reparsed, original);
}

#[test]
fn test_round_trip_language_only() {
    let original = LocaleString::new("fr".to_string()).unwrap();
    let reparsed = LocaleString::from_str(original.to_string().as_str()).unwrap();
    assert_eq!(reparsed, original);
}

// -- strict tier gate ------------------------------------------------------------------------
#[test]
fn test_strict_parse_unknown_language() {
    assert_eq!(
        StrictLocaleString::from_str("xx_US"),
        Err(ParseError::InvalidLanguageCode)
    );
}

#[test]
fn test_strict_parse_unknown_territory() {
    assert_eq!(
        StrictLocaleString::from_str("en_XX"),
        Err(ParseError::InvalidTerritoryCode)
    );
}

#[test]
fn test_strict_parse_unknown_code_set() {
    assert_eq!(
        StrictLocaleString::from_str("en_US.UNKNOWN"),
        Err(ParseError::InvalidCodeSet)
    );
}

#[test]
fn test_strict_parse_passes_permissive_errors() {
    assert_eq!(StrictLocaleString::from_str(""), Err(ParseError::EmptyString));
    assert_eq!(
        StrictLocaleString::from_str("POSIX"),
        Err(ParseError::PosixUnsupported)
    );
    assert_eq!(
        StrictLocaleString::from_str("not a locale"),
        Err(ParseError::RegexFailure)
    );
}

// -- strict tier pass-through ----------------------------------------------------------------
#[test]
fn test_strict_matches_permissive_fields() {
    let permissive = LocaleString::new("en".to_string())
        .unwrap()
        .with_territory("US".to_string())
        .unwrap()
        .with_code_set("UTF-8".to_string())
        .unwrap()
        .with_modifier("Latn".to_string())
        .unwrap();
    let strict = StrictLocaleString::new("en".to_string())
        .unwrap()
        .with_territory("US".to_string())
        .unwrap()
        .with_code_set("UTF-8".to_string())
        .unwrap()
        .with_modifier("Latn".to_string())
        .unwrap();
    assert_eq!(strict.language_code(), permissive.language_code());
    assert_eq!(strict.territory(), permissive.territory());
    assert_eq!(strict.code_set(), permissive.code_set());
    assert_eq!(strict.modifier(), permissive.modifier());
    assert_eq!(strict.to_string(), permissive.to_string());
}

#[test]
fn test_strict_with_modifiers() {
    let pairs = vec![
        ("collation".to_string(), "pinyin".to_string()),
        ("currency".to_string(), "CNY".to_string()),
    ];
    let strict = StrictLocaleString::new("en".to_string())
        .unwrap()
        .with_modifiers(pairs)
        .unwrap();
    assert_eq!(
        strict.modifier(),
        Some("collation=pinyin;currency=CNY".to_string())
    );
}
