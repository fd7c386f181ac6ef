use runer::desktop::logger::{enabled, format_record, level_name, log_record, Level};

#[test]
fn records_up_to_info_are_logged() {
    assert!(enabled(Level::Error));
    assert!(enabled(Level::Warn));
    assert!(enabled(Level::Info));
    assert!(!enabled(Level::Debug));
    assert!(!enabled(Level::Trace));
}

#[test]
fn levels_are_named_in_capitals() {
    assert_eq!(level_name(Level::Error), "ERROR");
    assert_eq!(level_name(Level::Warn), "WARN");
    assert_eq!(level_name(Level::Info), "INFO");
    assert_eq!(level_name(Level::Debug), "DEBUG");
    assert_eq!(level_name(Level::Trace), "TRACE");
}

#[test]
fn record_line_names_time_level_and_origin() {
    assert_eq!(
        format_record("2024-01-02T03:04:05.678Z", "INFO", Some("runer::engine"), "started"),
        "[2024-01-02T03:04:05.678Z INFO runer::engine] started"
    );
}

#[test]
fn record_line_without_origin() {
    assert_eq!(format_record("t", "WARN", None, ""), "[t WARN unknown] ");
}

#[test]
fn logged_record_carries_the_moment_in_universal_time() {
    assert_eq!(
        log_record(0, 0, Level::Info, Some("runer"), "up"),
        Some("[1970-01-01T00:00:00.000Z INFO runer] up".to_string())
    );
    assert_eq!(
        log_record(1_431_648_000, 453_829_000, Level::Error, None, "down"),
        Some("[2015-05-15T00:00:00.453Z ERROR unknown] down".to_string())
    );
    assert_eq!(
        log_record(-1, 999_000_000, Level::Warn, None, "before"),
        Some("[1969-12-31T23:59:59.999Z WARN unknown] before".to_string())
    );
}

#[test]
fn record_below_info_is_not_logged() {
    assert_eq!(log_record(0, 0, Level::Debug, None, "noise"), None);
    assert_eq!(log_record(0, 0, Level::Trace, Some("runer"), "noise"), None);
}

#[test]
fn record_at_a_moment_outside_the_calendar_is_not_logged() {
    assert_eq!(log_record(i64::MAX, 0, Level::Info, None, "late"), None);
    assert_eq!(log_record(0, 2_000_000_000, Level::Info, None, "odd"), None);
}
