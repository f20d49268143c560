use jpresentation::content::{validate_content_locale, ContentLanguageDto};
use jpresentation::error::AppError;

fn lang(code: &str, name: &str, direction: &str) -> ContentLanguageDto {
    ContentLanguageDto {
        langwritten: code.into(),
        name: name.into(),
        locale: code.to_ascii_lowercase(),
        direction: direction.into(),
        script: "Latn".into(),
    }
}

fn seed() -> Vec<ContentLanguageDto> {
    vec![
        lang("E", "English", "ltr"),
        lang("S", "Español", "ltr"),
        lang("CHS", "Chinese", "ltr"),
        lang("TG", "Tagalog", "ltr"),
        lang("A", "Arabic", "rtl"),
    ]
}

#[test]
fn rejects_unknown_langwritten() {
    assert!(matches!(validate_content_locale("ZZZ", &seed()), Err(AppError::UnknownContentLanguage)));
    assert!(matches!(validate_content_locale("   ", &seed()), Err(AppError::UnknownContentLanguage)));
}

#[test]
fn accepts_seed_code() {
    assert_eq!(validate_content_locale("S", &seed()).expect("S"), "S");
    assert_eq!(validate_content_locale("  CHS ", &seed()).expect("CHS"), "CHS");
}

#[test]
fn code_case_is_not_rewritten() {
    assert!(validate_content_locale("s", &seed()).is_err());
}
