use lapsphere::daemon_log::{LogBuffer, LOG_LIMIT};

#[test]
fn test_daemon_logger_captures_all_levels() {
    let logs = LogBuffer::new();
    assert!(logs.capacity() >= 500, "Log buffer should have capacity of at least 500");
}

#[test]
fn every_level_is_kept() {
    let mut logs = LogBuffer::new();
    for level in ["ERROR", "WARN", "INFO", "DEBUG", "TRACE"] {
        logs.log(level, "daemon", "something", "2026-01-01 00:00:00");
    }
    let levels: Vec<String> = logs.entries().iter().map(|e| e.level.clone()).collect();
    assert_eq!(levels, ["ERROR", "WARN", "INFO", "DEBUG", "TRACE"]);
}

#[test]
fn bus_messages_are_traced_and_hardware_is_informed_about() {
    let mut logs = LogBuffer::new();
    logs.log("INFO", "zbus::connection", "opened", "t");
    logs.log("WARN", "daemon", "zbus::fdo complains", "t");
    logs.log("DEBUG", "hw.fan", "set", "t");
    logs.log("TRACE", "hw.fan", "set", "t");
    logs.log("DEBUG", "api.call", "GetCpuInfo", "t");
    logs.log("DEBUG", "hw.zbus", "x", "t");
    let levels: Vec<String> = logs.entries().iter().map(|e| e.level.clone()).collect();
    assert_eq!(levels, ["TRACE", "TRACE", "INFO", "TRACE", "DEBUG", "INFO"]);
}

#[test]
fn repeated_lines_are_left_out() {
    let mut logs = LogBuffer::new();
    logs.log("INFO", "a", "one", "t1");
    logs.log("INFO", "a", "one", "t2");
    assert_eq!(logs.len(), 1);
    assert_eq!(logs.entries()[0].timestamp, "t1");
    logs.log("INFO", "a", "two", "t3");
    logs.log("INFO", "a", "one", "t4");
    assert_eq!(logs.len(), 3);
}

#[test]
fn full_log_loses_its_oldest_line() {
    let mut logs = LogBuffer::new();
    for i in 0..LOG_LIMIT + 5 {
        logs.log("INFO", "a", &i.to_string(), "t");
    }
    assert_eq!(logs.len(), 2000);
    assert_eq!(logs.entries()[0].message, "5");
    assert_eq!(logs.entries()[1999].message, "2004");
}
