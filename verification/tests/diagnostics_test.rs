use barepdf::diagnostics::{parse_opt_in, redacted_event, DiagnosticEvent, LogLevel};

#[test]
fn diagnostic_events_discard_sensitive_details() {
    let secret = r"C:\Users\private\installer.exe?token=secret";
    let rendered = format!("{:?}", redacted_event(DiagnosticEvent::Update, secret));
    assert!(!rendered.contains(secret));
    assert!(!rendered.contains("installer.exe"));
    assert!(!rendered.contains("token=secret"));
}

#[test]
fn redacted_events_carry_their_fixed_code_and_message() {
    assert_eq!(
        redacted_event(DiagnosticEvent::PreferencesSave, "C:/private"),
        ("preferences_save_failed", "preferences could not be saved")
    );
    assert_eq!(DiagnosticEvent::ClipboardWrite.code(), "clipboard_write_failed");
    assert_eq!(DiagnosticEvent::UpdaterShutdown.message(), "updater shutdown was incomplete");
}

#[test]
fn logging_requires_an_explicit_supported_opt_in() {
    assert_eq!(parse_opt_in(None), None);
    assert_eq!(parse_opt_in(Some("")), None);
    assert_eq!(parse_opt_in(Some("off")), None);
    assert_eq!(parse_opt_in(Some("1")), Some(LogLevel::Info));
    assert_eq!(parse_opt_in(Some("debug")), Some(LogLevel::Debug));
}

#[test]
fn log_levels_are_read_by_name_or_number() {
    assert_eq!(parse_opt_in(Some(" TRUE ")), Some(LogLevel::Info));
    assert_eq!(parse_opt_in(Some("5")), Some(LogLevel::Trace));
    assert_eq!(parse_opt_in(Some("Warn")), Some(LogLevel::Warn));
    assert_eq!(parse_opt_in(Some("6")), None);
}
