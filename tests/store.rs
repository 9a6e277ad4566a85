use kitsune_hub::logger::{InstallerLogs, LogEntry, Logger};

fn entry(action: &str, message: &str) -> LogEntry {
    LogEntry {
        timestamp: "2024-01-01T00:00:00+00:00".to_string(),
        action: action.to_string(),
        status: "success".to_string(),
        message: message.to_string(),
        output: String::new(),
    }
}

#[test]
fn three_logs_accumulate_in_order() {
    let mut logger = Logger::new("logs".to_string(), &Vec::new());
    logger.log("a", "install", "started", "first", "");
    logger.log("a", "install", "success", "second", "out");
    let record = logger.log("a", "update", "failed", "third", "err");
    let logs = logger.get_logs("a");
    assert_eq!(logs.len(), 3);
    assert_eq!(logs[0].message, "first");
    assert_eq!(logs[1].message, "second");
    assert_eq!(logs[1].output, "out");
    assert_eq!(logs[2].action, "update");
    assert_eq!(logs[2].status, "failed");
    assert!(!logs[2].timestamp.is_empty());
    assert_eq!(record.installer_id, "a");
    assert_eq!(record.entries.len(), 3);
    assert_eq!(record.entries[2].message, "third");
}

#[test]
fn recovery_reproduces_persisted_entries() {
    let mut logger = Logger::new("logs".to_string(), &Vec::new());
    logger.log("a", "install", "started", "one", "");
    logger.log("a", "install", "success", "two", "");
    let record = logger.log("a", "install", "success", "three", "");
    let restarted = Logger::new("logs".to_string(), &vec![record]);
    let before = logger.get_logs("a");
    let after = restarted.get_logs("a");
    assert_eq!(after.len(), 3);
    for i in 0..3 {
        assert_eq!(after[i].message, before[i].message);
        assert_eq!(after[i].timestamp, before[i].timestamp);
    }
}

#[test]
fn logs_of_other_ids_are_untouched() {
    let mut logger = Logger::new("logs".to_string(), &Vec::new());
    logger.log("a", "install", "started", "x", "");
    logger.log("b", "install", "started", "y", "");
    assert_eq!(logger.get_logs("a").len(), 1);
    assert_eq!(logger.get_logs("b").len(), 1);
    assert_eq!(logger.get_logs("b")[0].message, "y");
    assert!(logger.get_logs("unknown").is_empty());
    assert_eq!(logger.logs_dir(), "logs");
}

#[test]
fn later_recovered_record_wins() {
    let recovered = vec![
        InstallerLogs { installer_id: "a".to_string(), entries: vec![entry("install", "old")] },
        InstallerLogs { installer_id: "b".to_string(), entries: vec![entry("install", "b1")] },
        InstallerLogs {
            installer_id: "a".to_string(),
            entries: vec![entry("install", "new1"), entry("update", "new2")],
        },
    ];
    let logger = Logger::new("logs".to_string(), &recovered);
    let a = logger.get_logs("a");
    assert_eq!(a.len(), 2);
    assert_eq!(a[0].message, "new1");
    assert_eq!(a[1].message, "new2");
    let all = logger.get_all_logs();
    assert_eq!(all.len(), 2);
}
