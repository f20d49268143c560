use jpresentation::content::ContentLanguageDto;
use jpresentation::error::AppError;
use jpresentation::profile::{
    check_delete, duplicate_name, updated_fields, validate_profile_name, AppearanceSetting,
    PanelSetting, UpdateProfileDto,
};

#[test]
fn rejects_blank_name() {
    assert!(validate_profile_name("   ").is_err());
}

#[test]
fn trims_name() {
    let name = validate_profile_name("  Cong A  ").expect("name");
    assert_eq!(name, "Cong A");
}

#[test]
fn long_names_are_refused_by_bytes() {
    assert!(validate_profile_name(&"a".repeat(80)).is_ok());
    assert!(validate_profile_name(&"a".repeat(81)).is_err());
    assert!(validate_profile_name(&"é".repeat(41)).is_err());
}

#[test]
fn copy_names_and_last_profile() {
    assert_eq!(duplicate_name("Default"), "Default (copy)");
    assert!(matches!(check_delete(1), Err(AppError::LastProfile)));
    assert!(check_delete(2).is_ok());
}

#[test]
fn defaults_of_appearance_and_panel() {
    let a = AppearanceSetting::default();
    assert_eq!(a.theme, "system");
    assert_eq!(a.density, "compact");
    assert_eq!(PanelSetting::default().width, 280);
}

#[test]
fn partial_update_keeps_missing_fields() {
    let seed = vec![ContentLanguageDto {
        langwritten: "S".into(),
        name: "Español".into(),
        locale: "es".into(),
        direction: "ltr".into(),
        script: "Latn".into(),
    }];
    let input = UpdateProfileDto { id: "x".into(), name: Some(" New ".into()), ui_locale: None, content_locale: Some("S".into()) };
    let (n, u, c) = updated_fields("Old".into(), "en".into(), "E".into(), &input, &seed).expect("ok");
    assert_eq!((n.as_str(), u.as_str(), c.as_str()), ("New", "en", "S"));
    let bad = UpdateProfileDto { id: "x".into(), name: None, ui_locale: Some("  ".into()), content_locale: None };
    assert!(updated_fields("Old".into(), "en".into(), "E".into(), &bad, &seed).is_err());
    let unknown = UpdateProfileDto { id: "x".into(), name: None, ui_locale: None, content_locale: Some("ZZ".into()) };
    assert!(matches!(updated_fields("Old".into(), "en".into(), "E".into(), &unknown, &seed), Err(AppError::UnknownContentLanguage)));
}
