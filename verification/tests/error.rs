use jpresentation::error::{AppError, AppErrorDto};

#[test]
fn dto_preserves_code() {
    let dto = AppErrorDto::from(AppError::NotFound);
    assert_eq!(dto.code, "NotFound");
    assert_eq!(dto.rev, 0);
    assert_eq!(AppErrorDto::from(AppError::LastProfile).code, "LastProfile");
    assert_eq!(AppErrorDto::from(AppError::UnknownContentLanguage).code, "UnknownContentLanguage");
    assert_eq!(AppErrorDto::from(AppError::MonitorMissing).code, "MonitorMissing");
}

#[test]
fn dto_message_carries_detail() {
    let dto = AppErrorDto::from(AppError::Invariant("bad".into()));
    assert_eq!(dto.code, "Invariant");
    assert_eq!(dto.message, "invariant: bad");
    assert_eq!(AppErrorDto::from(AppError::LastProfile).message, "cannot delete the last profile");
}
