use asdf_gui::error::AppError;

#[test]
fn messages() {
    assert_eq!(AppError::AsdfNotFound("nowhere".to_string()).message(), "asdf binary not found: nowhere");
    assert_eq!(
        AppError::AsdfError { exit_code: 2, stderr: "boom".to_string() }.message(),
        "asdf command failed (exit 2): boom"
    );
    assert_eq!(AppError::ProcessError("no such file".to_string()).message(), "process error: no such file");
    assert_eq!(AppError::ParseError("bad".to_string()).message(), "parse error: bad");
    assert_eq!(AppError::ConfigError("bad".to_string()).message(), "config error: bad");
    assert_eq!(AppError::Io("permission denied".to_string()).message(), "permission denied");
}

#[test]
fn message_renders_exit_codes() {
    for code in [0, 1, 10, 127, 255, -1, -15, i32::MAX, i32::MIN] {
        assert_eq!(
            AppError::AsdfError { exit_code: code, stderr: String::new() }.message(),
            format!("asdf command failed (exit {}): ", code)
        );
    }
}
