use pg_nlp::error::NlpError;
use pg_nlp::language::{resolve, resolve_pair, string_to_language, LanguageCode};

const SUPPORTED: [(&str, LanguageCode); 13] = [
    ("en", LanguageCode::English),
    ("es", LanguageCode::Spanish),
    ("pt", LanguageCode::Portuguese),
    ("it", LanguageCode::Italian),
    ("ca", LanguageCode::Catalan),
    ("de", LanguageCode::German),
    ("ru", LanguageCode::Russian),
    ("zh", LanguageCode::ChineseMandarin),
    ("nl", LanguageCode::Dutch),
    ("sv", LanguageCode::Swedish),
    ("ar", LanguageCode::Arabic),
    ("he", LanguageCode::Hebrew),
    ("hi", LanguageCode::Hindi),
];

#[test]
fn resolves_every_supported_code() {
    for (code, language) in SUPPORTED {
        assert_eq!(resolve(code), Ok(language));
        assert_eq!(string_to_language(code), Some(language));
        assert_eq!(language.code(), code);
    }
}

#[test]
fn rejects_codes_outside_the_set() {
    for code in ["", "e", "EN", "En", "eng", "fr", "xx", "nl ", " nl", "ñl", "日本", "en\0"] {
        assert_eq!(resolve(code), Err(NlpError::UnsupportedLanguage));
        assert_eq!(string_to_language(code), None);
    }
}

#[test]
fn rejects_long_garbage_without_panicking() {
    let long = "x".repeat(10_000);
    assert_eq!(resolve(&long), Err(NlpError::UnsupportedLanguage));
}

#[test]
fn resolves_pairs_in_order() {
    assert_eq!(
        resolve_pair("nl", "en"),
        Ok((LanguageCode::Dutch, LanguageCode::English))
    );
    assert_eq!(resolve_pair("xx", "en"), Err(NlpError::UnsupportedLanguage));
    assert_eq!(resolve_pair("nl", "xx"), Err(NlpError::UnsupportedLanguage));
}
