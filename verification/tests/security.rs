use server_supervisor::clock::Timestamp;
use server_supervisor::error::SupervisorError;
use server_supervisor::security::{
    backups_to_remove, BackupFile, SecurityConfig, SecurityEvent, SecurityEventType,
    SecurityManager, SecuritySeverity,
};

fn config(enable_backup: bool, log_retention: u64, max_backups: usize) -> SecurityConfig {
    SecurityConfig {
        enable_backup,
        backup_interval: 1000,
        max_backups,
        backup_path: "test_backups".to_string(),
        enable_logging: true,
        log_retention,
        enable_whitelist: true,
        enable_blacklist: true,
        enable_ops: true,
        enable_anti_griefing: true,
        enable_activity_monitoring: true,
    }
}

fn event(at: i64, event_type: SecurityEventType, severity: SecuritySeverity) -> SecurityEvent {
    SecurityEvent {
        timestamp: Timestamp::from_millis(at),
        event_type,
        source: "test".to_string(),
        details: format!("event at {}", at),
        severity,
    }
}

fn file(path: &str, modified: u64) -> BackupFile {
    BackupFile { path: path.to_string(), modified }
}

fn now_millis() -> i64 {
    std::time::SystemTime::now()
        .duration_since(std::time::UNIX_EPOCH)
        .unwrap()
        .as_millis() as i64
}

#[test]
fn test_security_manager() {
    let config = SecurityConfig {
        enable_backup: true,
        backup_interval: 1000,
        max_backups: 3,
        backup_path: "test_backups".to_string(),
        enable_logging: true,
        log_retention: 3_600_000,
        enable_whitelist: true,
        enable_blacklist: true,
        enable_ops: true,
        enable_anti_griefing: true,
        enable_activity_monitoring: true,
    };

    let mut manager = SecurityManager::new(config);
    assert!(manager.start().is_ok());

    manager.log_event(SecurityEvent {
        timestamp: Timestamp::from_millis(now_millis()),
        event_type: SecurityEventType::LoginAttempt,
        source: "test".to_string(),
        details: "Test event".to_string(),
        severity: SecuritySeverity::Info,
    });

    assert_eq!(manager.get_events().len(), 1);
    manager.stop();
}

#[test]
fn start_twice_is_refused() {
    let mut manager = SecurityManager::new(config(true, 1000, 3));
    assert_eq!(manager.start().unwrap(), true);
    assert!(matches!(manager.start(), Err(SupervisorError::AlreadyRunning)));
    assert!(manager.is_running());
    manager.stop();
    assert!(!manager.is_running());
    let mut quiet = SecurityManager::new(config(false, 1000, 3));
    assert_eq!(quiet.start().unwrap(), false);
}

#[test]
fn events_older_than_the_retention_are_dropped_on_every_append() {
    let mut manager = SecurityManager::new(config(false, 1000, 3));
    let info = SecuritySeverity::Info;
    manager.log_event_at(event(0, SecurityEventType::LoginAttempt, info), Timestamp::from_millis(0));
    manager.log_event_at(event(500, SecurityEventType::FileAccess, info), Timestamp::from_millis(500));
    manager.log_event_at(event(1000, SecurityEventType::FileAccess, info), Timestamp::from_millis(1000));
    // The cutoff is inclusive: the event at 0 is exactly as old as the retention.
    assert_eq!(manager.get_events().len(), 3);
    manager.log_event_at(event(1001, SecurityEventType::FileAccess, info), Timestamp::from_millis(1001));
    let kept: Vec<i64> = manager.get_events().iter().map(|e| e.timestamp.millis).collect();
    assert_eq!(kept, vec![500, 1000, 1001]);
    // An event that is too old when it arrives is dropped at once.
    manager.log_event_at(event(10, SecurityEventType::FileAccess, info), Timestamp::from_millis(1500));
    let kept: Vec<i64> = manager.get_events().iter().map(|e| e.timestamp.millis).collect();
    assert_eq!(kept, vec![500, 1000, 1001]);
}

#[test]
fn retention_does_not_overflow_at_the_ends_of_time() {
    let mut manager = SecurityManager::new(config(false, u64::MAX, 3));
    let info = SecuritySeverity::Info;
    manager.log_event_at(
        event(i64::MIN, SecurityEventType::LoginAttempt, info),
        Timestamp::from_millis(i64::MIN),
    );
    manager.log_event_at(
        event(i64::MAX, SecurityEventType::LoginAttempt, info),
        Timestamp::from_millis(i64::MAX),
    );
    assert_eq!(manager.get_events().len(), 2);
    let mut strict = SecurityManager::new(config(false, 0, 3));
    strict.log_event_at(
        event(i64::MAX - 1, SecurityEventType::LoginAttempt, info),
        Timestamp::from_millis(i64::MAX),
    );
    assert!(strict.get_events().is_empty());
}

#[test]
fn log_event_uses_the_wall_clock() {
    let mut manager = SecurityManager::new(config(false, 60_000, 3));
    let info = SecuritySeverity::Info;
    manager.log_event(event(now_millis(), SecurityEventType::PlayerAction, info));
    manager.log_event(event(0, SecurityEventType::PlayerAction, info));
    assert_eq!(manager.get_events().len(), 1);
    assert_eq!(manager.get_events()[0].event_type, SecurityEventType::PlayerAction);
}

#[test]
fn events_are_filtered_by_type_and_severity() {
    let mut manager = SecurityManager::new(config(false, 1_000_000, 3));
    let now = Timestamp::from_millis(100);
    manager.log_event_at(event(1, SecurityEventType::LoginAttempt, SecuritySeverity::Info), now);
    manager.log_event_at(event(2, SecurityEventType::FileAccess, SecuritySeverity::Critical), now);
    manager.log_event_at(event(3, SecurityEventType::LoginAttempt, SecuritySeverity::Critical), now);
    let logins = manager.get_events_by_type(SecurityEventType::LoginAttempt);
    assert_eq!(logins.iter().map(|e| e.timestamp.millis).collect::<Vec<_>>(), vec![1, 3]);
    let critical = manager.get_events_by_severity(SecuritySeverity::Critical);
    assert_eq!(critical.iter().map(|e| e.timestamp.millis).collect::<Vec<_>>(), vec![2, 3]);
    assert!(manager.get_events_by_type(SecurityEventType::BackupOperation).is_empty());
    assert!(manager.get_events_by_severity(SecuritySeverity::Warning).is_empty());
}

#[test]
fn backup_names_carry_the_stamp() {
    assert_eq!(SecurityManager::backup_name("20240101_120000"), "backup_20240101_120000.zip");
    assert_eq!(SecurityManager::backup_name(""), "backup_.zip");
}

#[test]
fn a_recorded_backup_is_an_event() {
    let mut manager = SecurityManager::new(config(true, 1000, 3));
    assert!(manager.record_backup("backup_x.zip", Timestamp::from_millis(50)));
    let events = manager.get_events();
    assert_eq!(events.len(), 1);
    assert_eq!(events[0].event_type, SecurityEventType::BackupOperation);
    assert_eq!(events[0].severity, SecuritySeverity::Info);
    assert_eq!(events[0].source, "SecurityManager");
    assert_eq!(events[0].details, "Created backup: backup_x.zip");
    assert_eq!(events[0].timestamp, Timestamp::from_millis(50));
    let mut quiet = SecurityManager::new(config(false, 1000, 3));
    assert!(!quiet.record_backup("backup_x.zip", Timestamp::from_millis(50)));
    assert!(quiet.get_events().is_empty());
}

#[test]
fn perform_backup_names_and_records_the_backup() {
    let mut manager = SecurityManager::new(config(true, 60_000, 3));
    let name = manager.perform_backup().unwrap();
    // backup_YYYYMMDD_HHMMSS.zip
    assert_eq!(name.len(), 26);
    assert!(name.starts_with("backup_2"));
    assert!(name.ends_with(".zip"));
    assert_eq!(name.as_bytes()[15], b'_');
    assert!(name[7..15].bytes().all(|b| b.is_ascii_digit()));
    assert!(name[16..22].bytes().all(|b| b.is_ascii_digit()));
    let events = manager.get_events();
    assert_eq!(events.len(), 1);
    assert_eq!(events[0].details, format!("Created backup: {}", name));
    assert!(events[0].timestamp.millis > 1_577_836_800_000);
    let mut quiet = SecurityManager::new(config(false, 60_000, 3));
    assert!(quiet.perform_backup().is_none());
    assert!(quiet.get_events().is_empty());
}

#[test]
fn retention_removes_the_oldest_backups_first() {
    let files = vec![file("c", 30), file("a", 10), file("d", 40), file("b", 20)];
    let gone = backups_to_remove(files, 2);
    assert_eq!(gone.iter().map(|f| f.path.as_str()).collect::<Vec<_>>(), vec!["a", "b"]);
}

#[test]
fn retention_breaks_ties_by_position() {
    let files = vec![file("x", 5), file("y", 5), file("z", 1), file("w", 5)];
    let gone = backups_to_remove(files, 1);
    assert_eq!(gone.iter().map(|f| f.path.as_str()).collect::<Vec<_>>(), vec!["z", "x", "y"]);
}

#[test]
fn retention_keeps_everything_within_the_limit() {
    assert!(backups_to_remove(vec![file("a", 1), file("b", 2)], 2).is_empty());
    assert!(backups_to_remove(vec![file("a", 1)], 5).is_empty());
    assert!(backups_to_remove(Vec::new(), 0).is_empty());
    let all = backups_to_remove(vec![file("b", 2), file("a", 1)], 0);
    assert_eq!(all.iter().map(|f| f.path.as_str()).collect::<Vec<_>>(), vec!["a", "b"]);
}

#[test]
fn manager_applies_its_own_limit() {
    let manager = SecurityManager::new(config(true, 1000, 3));
    let files = vec![file("e", 5), file("d", 4), file("c", 3), file("b", 2), file("a", 1)];
    let gone = manager.cleanup_old_backups(files);
    assert_eq!(gone.iter().map(|f| f.path.as_str()).collect::<Vec<_>>(), vec!["a", "b"]);
    assert_eq!(manager.config().max_backups, 3);
}
