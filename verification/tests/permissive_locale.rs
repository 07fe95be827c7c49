use locale_strings::LocaleError;
use locale_strings::LocaleIdentifier;
use locale_strings::LocaleString;

// -- construction validity -------------------------------------------------------------------
#[test]
fn test_new_two_lowercase() {
    let locale = LocaleString::new("en".to_string()).unwrap();
    assert_eq!(locale.language_code(), "en".to_string());
    assert_eq!(locale.territory(), None);
    assert_eq!(locale.code_set(), None);
    assert_eq!(locale.modifier(), None);
}

#[test]
fn test_new_rejects_long_code() {
    assert_eq!(
        LocaleString::new("english".to_string()),
        Err(LocaleError::InvalidLanguageCode)
    );
}

#[test]
fn test_new_rejects_uppercase_code() {
    assert_eq!(
        LocaleString::new("EN".to_string()),
        Err(LocaleError::InvalidLanguageCode)
    );
}

#[test]
fn test_with_language_replaces_code() {
    let locale = LocaleString::new("en".to_string()).unwrap();
    assert_eq!(
        locale
            .with_language("fr".to_string())
            .unwrap()
            .language_code(),
        "fr".to_string()
    );
    assert_eq!(
        locale.with_language("FR".to_string()),
        Err(LocaleError::InvalidLanguageCode)
    );
}

// -- territory validity ----------------------------------------------------------------------
#[test]
fn test_with_territory_two_uppercase() {
    let locale = LocaleString::new("en".to_string()).unwrap();
    assert_eq!(
        locale.with_territory("US".to_string()).unwrap().territory(),
        Some("US".to_string())
    );
    assert_eq!(
        locale.with_territory("USA".to_string()),
        Err(LocaleError::InvalidTerritoryCode)
    );
    assert_eq!(
        locale.with_territory("us".to_string()),
        Err(LocaleError::InvalidTerritoryCode)
    );
}

// -- code set validity -----------------------------------------------------------------------
#[test]
fn test_with_code_set_non_blank() {
    let locale = LocaleString::new("en".to_string()).unwrap();
    assert_eq!(
        locale
            .with_code_set("UTF-8".to_string())
            .unwrap()
            .code_set(),
        Some("UTF-8".to_string())
    );
    assert_eq!(
        locale.with_code_set("   ".to_string()),
        Err(LocaleError::InvalidCodeSet)
    );
}

// -- modifiers -------------------------------------------------------------------------------
#[test]
fn test_with_modifier_always_succeeds() {
    let locale = LocaleString::new("en".to_string()).unwrap();
    assert_eq!(
        locale.with_modifier("".to_string()).unwrap().modifier(),
        Some("".to_string())
    );
    assert_eq!(
        locale
            .with_modifier("collation=pinyin".to_string())
            .unwrap()
            .modifier(),
        Some("collation=pinyin".to_string())
    );
}

#[test]
fn test_with_modifiers_joins_pairs() {
    let locale = LocaleString::new("en".to_string()).unwrap();
    let pairs = vec![
        ("collation".to_string(), "pinyin".to_string()),
        ("currency".to_string(), "CNY".to_string()),
    ];
    assert_eq!(
        locale.with_modifiers(pairs).unwrap().modifier(),
        Some("collation=pinyin;currency=CNY".to_string())
    );
}

#[test]
fn test_with_modifiers_empty() {
    let locale = LocaleString::new("en".to_string()).unwrap();
    assert_eq!(
        locale.with_modifiers(vec![]).unwrap().modifier(),
        Some("".to_string())
    );
}

// -- immutability ----------------------------------------------------------------------------
#[test]
fn test_with_leaves_receiver_unchanged() {
    let base = LocaleString::new("en".to_string())
        .unwrap()
        .with_territory("US".to_string())
        .unwrap();
    let derived = base.with_code_set("UTF-8".to_string()).unwrap();
    assert_eq!(base.language_code(), "en".to_string());
    assert_eq!(base.territory(), Some("US".to_string()));
    assert_eq!(base.code_set(), None);
    assert_eq!(base.modifier(), None);
    assert_eq!(derived.language_code(), "en".to_string());
    assert_eq!(derived.territory(), Some("US".to_string()));
    assert_eq!(derived.code_set(), Some("UTF-8".to_string()));
    assert_eq!(derived.modifier(), None);
}

// -- canonical format ------------------------------------------------------------------------
#[test]
fn test_canonical_format() {
    let locale = LocaleString::new("en".to_string())
        .unwrap()
        .with_territory("US".to_string())
        .unwrap()
        .with_code_set("UTF-8".to_string())
        .unwrap()
        .with_modifier("collation=pinyin;currency=CNY".to_string())
        .unwrap();
    assert_eq!(
        locale.to_string(),
        "en_US.UTF-8@collation=pinyin;currency=CNY".to_string()
    );
}

#[test]
fn test_format_language_only() {
    let locale = LocaleString::new("en".to_string()).unwrap();
    assert_eq!(locale.to_string(), "en".to_string());
}

#[test]
fn test_format_language_and_territory() {
    let locale = LocaleString::new("en".to_string())
        .unwrap()
        .with_territory("GB".to_string())
        .unwrap();
    assert_eq!(locale.to_string(), "en_GB".to_string());
}
