use memwatchdog::notifier::{LogLevel, Logger, Notifier};

#[test]
fn log_line_format() {
    assert_eq!(
        Logger::format_line("2024-01-02 03:04:05", "WARN", "low memory"),
        "[2024-01-02 03:04:05] [WARN] low memory"
    );
    assert_eq!(LogLevel::Debug.label(), "DEBUG");
    assert_eq!(LogLevel::Info.label(), "INFO");
    assert_eq!(LogLevel::Warn.label(), "WARN");
    assert_eq!(LogLevel::Error.label(), "ERROR");
}

#[test]
fn closed_notification_body() {
    assert_eq!(
        Notifier::desktop_notification_body(4242, "firefox", 1500, 150),
        "Closed firefox (PID 4242) using 1500 MB RAM. Available RAM was 150 MB."
    );
    assert_eq!(Notifier::title(), "Memory Watchdog Alert");
}

#[test]
fn warning_notification_body() {
    assert_eq!(
        Notifier::warning_notification_body(450, 500),
        "Available RAM is 450 MB (< Warning Threshold 500 MB)."
    );
}
