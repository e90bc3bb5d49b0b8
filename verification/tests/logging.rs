use mems_lidar::{format_entry, init, LogLevel, LOG_CAPACITY};

#[test]
fn entry_has_time_level_and_message() {
    let e = format_entry("12:34:56", LogLevel::Info, "started");
    assert_eq!(e, "[12:34:56] [INFO] started");
    assert_eq!(format_entry("00:00:00", LogLevel::Warn, ""), "[00:00:00] [WARN] ");
}

#[test]
fn level_names() {
    assert_eq!(LogLevel::Error.as_str(), "ERROR");
    assert_eq!(LogLevel::Warn.as_str(), "WARN");
    assert_eq!(LogLevel::Info.as_str(), "INFO");
    assert_eq!(LogLevel::Debug.as_str(), "DEBUG");
    assert_eq!(LogLevel::Trace.as_str(), "TRACE");
}

#[test]
fn logger_starts_from_given_buffer() {
    let mut logger = init(vec!["old".to_string()]);
    logger.log_at("01:02:03", LogLevel::Error, "boom");
    assert_eq!(logger.lines(), &vec!["old".to_string(), "[01:02:03] [ERROR] boom".to_string()]);
    assert!(logger.enabled(LogLevel::Trace));
    logger.flush();
    logger.clear();
    assert!(logger.lines().is_empty());
}

#[test]
fn logger_keeps_latest_two_hundred() {
    let mut logger = init(Vec::new());
    for i in 0..250 {
        logger.log_at("10:00:00", LogLevel::Info, &i.to_string());
    }
    let lines = logger.lines();
    assert_eq!(lines.len(), LOG_CAPACITY);
    assert_eq!(lines[0], "[10:00:00] [INFO] 50");
    assert_eq!(lines[LOG_CAPACITY - 1], "[10:00:00] [INFO] 249");
}
