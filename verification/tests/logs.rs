use apollo::logging::{
    day_expired, expired_logs, format_buffer_line, format_file_line, is_expired, join_lines,
    log_timestamp, snapshot_file_name, snapshot_timestamp, split_at_tag, stale_logs, tag_name,
    LogBuffer, LogLevel, LOG_CAPACITY, LOG_RETENTION_DAYS, SNAPSHOT_WINDOW_MS, TAG_COUNT,
};
use chrono::{Datelike, NaiveDate};

fn s(text: &str) -> String {
    text.to_string()
}

fn day(y: i32, m: u32, d: u32) -> i32 {
    NaiveDate::from_ymd_opt(y, m, d).unwrap().num_days_from_ce()
}

#[test]
fn ring_keeps_the_latest_five_hundred() {
    assert_eq!(LOG_CAPACITY, 500);
    let mut ring = LogBuffer::new();
    assert_eq!(ring.len(), 0);
    for i in 0..500u64 {
        ring.push(i, format!("line {}", i));
    }
    assert_eq!(ring.len(), 500);
    assert_eq!(ring.lines()[0], "line 0");
    ring.push(500, s("line 500"));
    assert_eq!(ring.len(), 500);
    let lines = ring.lines();
    assert_eq!(lines[0], "line 1");
    assert_eq!(lines[499], "line 500");
    for i in 501..1200u64 {
        ring.push(i, format!("line {}", i));
    }
    assert_eq!(ring.len(), 500);
    assert_eq!(ring.lines()[0], "line 700");
    assert_eq!(ring.lines()[499], "line 1199");
}

#[test]
fn ring_takes_informational_records_and_worse() {
    let mut ring = LogBuffer::default();
    assert!(ring.record(LogLevel::Error, 1, s("e")));
    assert!(ring.record(LogLevel::Warn, 2, s("w")));
    assert!(ring.record(LogLevel::Info, 3, s("i")));
    assert!(!ring.record(LogLevel::Debug, 4, s("d")));
    assert!(!ring.record(LogLevel::Trace, 5, s("t")));
    assert_eq!(ring.lines(), vec![s("e"), s("w"), s("i")]);
    assert!(LogLevel::Info.is_kept());
    assert!(!LogLevel::Debug.is_kept());
    assert_eq!(LogLevel::Warn.name(), "WARN");
    assert_eq!(LogLevel::Error.name(), "ERROR");
    assert_eq!(LogLevel::Info.name(), "INFO");
    assert_eq!(LogLevel::Debug.name(), "DEBUG");
    assert_eq!(LogLevel::Trace.name(), "TRACE");
}

#[test]
fn snapshot_holds_the_lines_of_the_last_day() {
    assert_eq!(SNAPSHOT_WINDOW_MS, 24 * 60 * 60 * 1000);
    let mut ring = LogBuffer::new();
    ring.push(0, s("old"));
    ring.push(1_000, s("edge"));
    ring.push(1_001, s("young"));
    ring.push(90_000_000, s("new"));
    let now = 1_000 + SNAPSHOT_WINDOW_MS;
    assert_eq!(ring.recent(now, SNAPSHOT_WINDOW_MS), vec![s("young"), s("new")]);
    assert_eq!(ring.recent(0, SNAPSHOT_WINDOW_MS).len(), 4);
    assert!(ring.recent(now, 0).len() == 1);
    assert_eq!(join_lines(&ring.recent(now, SNAPSHOT_WINDOW_MS)), "young\nnew");
}

#[test]
fn lines_are_joined_by_line_feeds() {
    assert_eq!(join_lines(&Vec::new()), "");
    assert_eq!(join_lines(&vec![s("a")]), "a");
    assert_eq!(join_lines(&vec![s("a"), s(""), s("b")]), "a\n\nb");
    assert_eq!(join_lines(&vec![s(""), s("")]), "\n");
}

#[test]
fn log_lines_have_their_fixed_shape() {
    assert_eq!(
        format_buffer_line("2025-01-02 03:04:05", "apollo", "[CORE] started"),
        "[2025-01-02 03:04:05] [apollo] [CORE] started"
    );
    assert_eq!(
        format_file_line("2025-01-02 03:04:05", "apollo", LogLevel::Warn, "[CORE] hm"),
        "[2025-01-02 03:04:05][apollo][WARN] [CORE] hm"
    );
    assert_eq!(format_buffer_line("", "", ""), "[] [] ");
    assert_eq!(
        snapshot_file_name("2025-01-02_03-04-05"),
        "logs/snapshot/APOLLO_snapshot_2025-01-02_03-04-05.log"
    );
}

#[test]
fn timestamps_have_their_fixed_length() {
    let t = log_timestamp();
    assert_eq!(t.len(), 19);
    assert_eq!(&t[4..5], "-");
    assert_eq!(&t[10..11], " ");
    let u = snapshot_timestamp();
    assert_eq!(u.len(), 19);
    assert_eq!(&u[10..11], "_");
    assert_eq!(&u[13..14], "-");
}

#[test]
fn daily_logs_expire_after_four_weeks() {
    assert_eq!(LOG_RETENTION_DAYS, 28);
    let today = day(2025, 3, 1);
    assert!(!is_expired("APOLLO-2025-03-01.log", today));
    assert!(!is_expired("APOLLO-2025-02-01.log", today));
    assert!(is_expired("APOLLO-2025-01-31.log", today));
    assert!(is_expired("APOLLO-2024-03-01.log", today));
    assert!(!is_expired("APOLLO-2025-12-31.log", today));
    assert!(day_expired(today - 29, today));
    assert!(!day_expired(today - 28, today));
    assert!(!day_expired(i32::MAX, i32::MIN));
    assert!(day_expired(i32::MIN, i32::MAX));
}

#[test]
fn other_files_never_expire() {
    let today = day(2025, 3, 1);
    assert!(!is_expired("", today));
    assert!(!is_expired("APOLLO-.log", today));
    assert!(!is_expired("APOLLO-log", today));
    assert!(!is_expired("apollo-2024-01-01.log", today));
    assert!(!is_expired("APOLLO-2024-01-01.txt", today));
    assert!(!is_expired("APOLLO-2024-13-01.log", today));
    assert!(!is_expired("APOLLO-2024-02-30.log", today));
    assert!(!is_expired("APOLLO-yesterday.log", today));
    assert!(!is_expired("xAPOLLO-2024-01-01.log", today));
    assert!(!is_expired("APOLLO-2024-01-01.log.gz", today));
    assert!(!is_expired("APOLLO_snapshot_2024-01-01_00-00-00.log", today));
}

#[test]
fn expired_logs_are_picked_in_order() {
    let today = day(2025, 3, 1);
    let names = vec![
        s("APOLLO-2025-02-28.log"),
        s("APOLLO-2024-12-01.log"),
        s("notes.txt"),
        s("APOLLO-2025-01-01.log"),
    ];
    assert_eq!(
        expired_logs(&names, today),
        vec![s("APOLLO-2024-12-01.log"), s("APOLLO-2025-01-01.log")]
    );
    assert!(expired_logs(&Vec::new(), today).is_empty());
    let stale = stale_logs(&vec![s("APOLLO-1999-01-01.log"), s("APOLLO-9999-01-01.log")]);
    assert_eq!(stale, vec![s("APOLLO-1999-01-01.log")]);
}

#[test]
fn first_tag_in_order_is_set_off() {
    assert_eq!(TAG_COUNT, 7);
    let names: Vec<&str> = (0..TAG_COUNT).map(tag_name).collect();
    assert_eq!(
        names,
        vec!["[CORE]", "[gRPC]", "[AUTH]", "[STATE]", "[DIRECTIVE]", "[MONITOR]", "[CONFIG]"]
    );
    assert_eq!(
        split_at_tag("[12:00] [apollo] [AUTH] ok"),
        Some(("[12:00] [apollo] ".to_string(), 2, " ok".to_string()))
    );
    assert_eq!(
        split_at_tag("x [CONFIG] y [CORE] z [CORE]"),
        Some(("x [CONFIG] y ".to_string(), 0, " z [CORE]".to_string()))
    );
    assert_eq!(split_at_tag("[MONITOR]"), Some((String::new(), 5, String::new())));
    assert_eq!(split_at_tag("é[gRPC]ü"), Some(("é".to_string(), 1, "ü".to_string())));
    assert_eq!(split_at_tag("[core] [GRPC] nothing"), None);
    assert_eq!(split_at_tag(""), None);
}
