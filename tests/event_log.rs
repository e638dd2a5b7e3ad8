use lendcore::event_log::{EventLog, MAX_EVENTS};

#[test]
fn overflowing_by_one_evicts_the_oldest() {
    let mut log = EventLog::new();
    for i in 0..(MAX_EVENTS + 1) {
        log.emit(format!("e{}", i));
    }
    assert_eq!(log.len(), MAX_EVENTS);
    let all = log.list_recent(10_000);
    assert_eq!(all.len(), MAX_EVENTS);
    assert_eq!(all[0], format!("e{}", MAX_EVENTS));
    assert_eq!(all[MAX_EVENTS - 1], "e1");
}

#[test]
fn zero_limit_gives_nothing() {
    let mut log = EventLog::new();
    log.emit("a".to_string());
    assert!(log.list_recent(0).is_empty());
}

#[test]
fn large_limit_gives_all_newest_first() {
    let mut log = EventLog::new();
    log.emit("a".to_string());
    log.emit("b".to_string());
    log.emit("c".to_string());
    assert_eq!(log.list_recent(99), vec!["c".to_string(), "b".to_string(), "a".to_string()]);
    assert_eq!(log.list_recent(2), vec!["c".to_string(), "b".to_string()]);
    assert_eq!(log.len(), 3);
}

#[test]
fn empty_log_lists_nothing() {
    let log = EventLog::new();
    assert!(log.list_recent(5).is_empty());
}
