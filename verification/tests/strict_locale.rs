use locale_strings::LocaleError;
use locale_strings::LocaleIdentifier;
use locale_strings::StrictLocaleString;

// --------------------------------------------------------------------------------------------
#[test]
fn test_unknown_language() {
    assert_eq!(
        StrictLocaleString::new("xx".to_string()),
        Err(LocaleError::InvalidLanguageCode)
    );
}

#[test]
fn test_unknown_territory() {
    assert_eq!(
        StrictLocaleString::new("en".to_string())
            .unwrap()
            .with_territory("XX".to_string()),
        Err(LocaleError::InvalidTerritoryCode)
    );
}

#[test]
fn test_unknown_code_set() {
    assert_eq!(
        StrictLocaleString::new("en".to_string())
            .unwrap()
            .with_code_set("UNKNOWN".to_string()),
        Err(LocaleError::InvalidCodeSet)
    );
}

// --------------------------------------------------------------------------------------------
#[test]
fn test_constructor() {
    let locale = StrictLocaleString::new("en".to_string()).unwrap();
    assert_eq!(locale.language_code(), "en".to_string());
    assert_eq!(locale.territory(), None);
    assert_eq!(locale.modifier(), None);
}

#[test]
fn test_with_language() {
    let locale = StrictLocaleString::new("en".to_string()).unwrap();
    assert_eq!(
        locale
            .with_language("fr".to_string())
            .unwrap()
            .language_code(),
        "fr".to_string()
    );
}

#[test]
fn test_with_territory() {
    let locale = StrictLocaleString::new("en".to_string()).unwrap();
    assert_eq!(
        locale.with_territory("GB".to_string()).unwrap().territory(),
        Some("GB".to_string())
    );
}

#[test]
fn test_with_code_set() {
    let locale = StrictLocaleString::new("en".to_string()).unwrap();
    assert_eq!(
        locale
            .with_code_set("UTF-8".to_string())
            .unwrap()
            .code_set(),
        Some("UTF-8".to_string())
    );
}

// --------------------------------------------------------------------------------------------
#[test]
fn test_to_string() {
    let locale = StrictLocaleString::new("en".to_string())
        .unwrap()
        .with_territory("US".to_string())
        .unwrap()
        .with_code_set("UTF-8".to_string())
        .unwrap()
        .with_modifier("collation=pinyin;currency=CNY".to_string())
        .unwrap();
    assert_eq!(
        locale.to_string(),
        "en_US.UTF-8@collation=pinyin;currency=CNY".to_string()
    );
}

// --------------------------------------------------------------------------------------------
#[test]
fn test_from_str_1() {
    match StrictLocaleString::from_str("en") {
        Ok(locale) => assert_eq!(locale.language_code(), "en"),
        _ => panic!("LocaleString::from_str failure"),
    }
}

#[test]
fn test_from_str_2() {
    match StrictLocaleString::from_str("en_US") {
        Ok(locale) => {
            assert_eq!(locale.language_code(), "en");
            assert_eq!(locale.territory(), Some("US".to_string()));
        }
        _ => panic!("LocaleString::from_str failure"),
    }
}

#[test]
fn test_from_str_3() {
    match StrictLocaleString::from_str("en_US.UTF-8") {
        Ok(locale) => {
            assert_eq!(locale.language_code(), "en");
            assert_eq!(locale.territory(), Some("US".to_string()));
            assert_eq!(locale.code_set(), Some("UTF-8".to_string()));
        }
        _ => panic!("LocaleString::from_str failure"),
    }
}

#[test]
fn test_from_str_4() {
    match StrictLocaleString::from_str("en_US.UTF-8@Latn") {
        Ok(locale) => {
            assert_eq!(locale.language_code(), "en");
            assert_eq!(locale.territory(), Some("US".to_string()));
            assert_eq!(locale.code_set(), Some("UTF-8".to_string()));
            assert_eq!(locale.modifier(), Some("Latn".to_string()));
        }
        _ => panic!("LocaleString::from_str failure"),
    }
}
