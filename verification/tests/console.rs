//! Console log: bounded history, levels and filtering.

use salai::ui::console_panel::{Console, LogLevel};

#[test]
fn console_default() {
    let c = Console::default();
    assert!(c.is_empty());
    assert_eq!(c.min_level, LogLevel::Info);
    assert!(c.auto_scroll);
}

#[test]
fn console_log_and_count() {
    let mut c = Console::new(100);
    c.info("test", "hello");
    c.warn("test", "warning");
    c.error("test", "error");
    assert_eq!(c.len(), 3);
}

#[test]
fn console_eviction() {
    let mut c = Console::new(3);
    c.info("a", "1");
    c.info("b", "2");
    c.info("c", "3");
    c.info("d", "4");
    assert_eq!(c.len(), 3);
    c.min_level = LogLevel::Debug;
    let entries: Vec<_> = c.filtered_entries().iter().map(|e| e.source.as_str()).collect();
    assert_eq!(entries, vec!["b", "c", "d"]);
}

#[test]
fn console_filter() {
    let mut c = Console::new(100);
    c.debug("d", "debug msg");
    c.info("i", "info msg");
    c.warn("w", "warn msg");
    c.error("e", "error msg");

    c.min_level = LogLevel::Warn;
    let filtered = c.filtered_entries();
    assert_eq!(filtered.len(), 2);
    assert_eq!(filtered[0].level, LogLevel::Warn);
    assert_eq!(filtered[1].level, LogLevel::Error);
}

#[test]
fn console_clear() {
    let mut c = Console::new(100);
    c.info("t", "msg");
    c.clear();
    assert!(c.is_empty());
}

#[test]
fn console_tick() {
    let mut c = Console::new(100);
    c.tick();
    c.info("t", "after tick");
    assert_eq!(c.filtered_entries().last().unwrap().frame, 1);
}

#[test]
fn log_level_ordering() {
    assert!(LogLevel::Debug < LogLevel::Info);
    assert!(LogLevel::Info < LogLevel::Warn);
    assert!(LogLevel::Warn < LogLevel::Error);
}

#[test]
fn log_level_labels() {
    assert_eq!(LogLevel::Debug.label(), "DBG");
    assert_eq!(LogLevel::Info.label(), "INF");
    assert_eq!(LogLevel::Warn.label(), "WRN");
    assert_eq!(LogLevel::Error.label(), "ERR");
}

#[test]
fn console_zero_capacity_keeps_nothing() {
    let mut c = Console::new(0);
    c.error("a", "1");
    c.error("b", "2");
    assert_eq!(c.len(), 0);
    assert!(c.is_empty());
}

#[test]
fn console_bound_holds_over_many_logs() {
    let mut c = Console::new(5);
    for i in 0..50 {
        c.warn("s", &format!("m{i}"));
        assert!(c.len() <= 5);
    }
    let msgs: Vec<_> = c.filtered_entries().iter().map(|e| e.message.clone()).collect();
    assert_eq!(msgs, vec!["m45", "m46", "m47", "m48", "m49"]);
}

#[test]
fn console_filter_after_set_min_level() {
    let mut c = Console::new(100);
    c.debug("d", "debug msg");
    c.info("i", "info msg");
    c.warn("w", "warn msg");
    c.error("e", "error msg");
    c.set_min_level(LogLevel::Warn);
    assert_eq!(c.min_level(), LogLevel::Warn);
    let f = c.filtered_entries();
    assert_eq!(f.len(), 2);
    assert_eq!(f[0].level, LogLevel::Warn);
    assert_eq!(f[1].level, LogLevel::Error);
    c.set_auto_scroll(false);
    assert!(!c.auto_scroll);
}

#[test]
fn console_count_is_min_of_messages_and_capacity() {
    let mut c = Console::new(3);
    for k in 1..=5u32 {
        c.info("s", "m");
        assert_eq!(c.len() as u32, k.min(3));
    }
}
