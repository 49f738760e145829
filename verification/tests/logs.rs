use changelog::logs::{
    get_timestamp, log_error, log_info, log_to_file, log_warning, LogLevel, LogRecord, LogStream,
};

#[test]
fn records_carry_level_and_message() {
    assert_eq!(
        log_info("a"),
        LogRecord { level: LogLevel::Info, message: "a".to_string() }
    );
    assert_eq!(
        log_warning("b"),
        LogRecord { level: LogLevel::Warning, message: "b".to_string() }
    );
    assert_eq!(
        log_error("c"),
        LogRecord { level: LogLevel::Error, message: "c".to_string() }
    );
}

#[test]
fn lines_and_streams() {
    let time = "2024-01-02 03:04:05";
    let info = log_to_file(time, LogLevel::Info.name(), "started");
    assert_eq!(info.line, "2024-01-02 03:04:05 [INFO] started\n");
    assert_eq!(info.stream, LogStream::Stdout);
    let warning = log_to_file(time, LogLevel::Warning.name(), "careful");
    assert_eq!(warning.line, "2024-01-02 03:04:05 [WARNING] careful\n");
    assert_eq!(warning.stream, LogStream::Stderr);
    let error = log_to_file(time, LogLevel::Error.name(), "");
    assert_eq!(error.line, "2024-01-02 03:04:05 [ERROR] \n");
    assert_eq!(error.stream, LogStream::Stderr);
    assert_eq!(log_to_file("", "DEBUG", "m").stream, LogStream::Stdout);
}

#[test]
fn timestamps() {
    assert_eq!(get_timestamp(Some(b" 2024-01-02 03:04:05\n".to_vec())), "2024-01-02 03:04:05");
    assert_eq!(get_timestamp(Some(b"a\xffb\n".to_vec())), "a\u{fffd}b");
    assert_eq!(get_timestamp(Some(Vec::new())), "");
    assert_eq!(get_timestamp(None), "???");
}
