use server_supervisor::advanced::{
    AdvancedManager, Notification, NotificationLevel, ScheduledTask, SendOutcome, TaskSchedule,
    CHANNEL_CAPACITY,
};
use server_supervisor::error::SupervisorError;
use server_supervisor::clock::Timestamp;

fn at(millis: i64) -> Timestamp {
    Timestamp::from_millis(millis)
}

fn task(id: &str, name: &str, schedule: TaskSchedule, next_run: i64) -> ScheduledTask {
    ScheduledTask {
        id: id.to_string(),
        name: name.to_string(),
        command: "save-all".to_string(),
        schedule,
        last_run: None,
        next_run: at(next_run),
        enabled: true,
    }
}

fn notification(id: &str) -> Notification {
    Notification {
        id: id.to_string(),
        title: "Test".to_string(),
        message: "Test message".to_string(),
        level: NotificationLevel::Info,
        timestamp: at(0),
        read: false,
    }
}

fn deliver(manager: &mut AdvancedManager, notes: Vec<Notification>) {
    for n in notes {
        assert!(matches!(manager.send_notification(n), Ok(SendOutcome::Queued)));
    }
    manager.deliver_pending();
}

#[test]
fn test_advanced_manager() {
    let mut manager = AdvancedManager::new();
    assert!(manager.start());

    let task = ScheduledTask {
        id: "test-task".to_string(),
        name: "Test Task".to_string(),
        command: "test".to_string(),
        schedule: TaskSchedule::Interval(1000),
        last_run: None,
        next_run: at(0),
        enabled: true,
    };

    manager.add_task(task);
    assert_eq!(manager.get_all_tasks().len(), 1);

    let notification = Notification {
        id: "test-notification".to_string(),
        title: "Test".to_string(),
        message: "Test message".to_string(),
        level: NotificationLevel::Info,
        timestamp: at(0),
        read: false,
    };

    assert!(manager.send_notification(notification).is_ok());
    assert_eq!(manager.deliver_pending(), 1);
    assert_eq!(manager.get_notifications().len(), 1);

    manager.stop();
}

#[test]
fn interval_task_end_to_end() {
    let mut manager = AdvancedManager::new();
    manager.start();
    manager.add_task(task("backup", "Nightly backup", TaskSchedule::Interval(1000), 0));
    for second in 0..3i64 {
        let now = at(second * 1000);
        assert!(manager.can_tick(now));
        let fired = manager.tick(now);
        assert_eq!(fired.len(), 1);
        deliver(&mut manager, fired);
    }
    let notes = manager.get_notifications();
    assert_eq!(notes.len(), 3);
    for n in &notes {
        assert!(n.title.contains("Nightly backup"));
        assert_eq!(n.title, "Task executed: Nightly backup");
        assert_eq!(n.message, "Command: save-all");
        assert_eq!(n.level, NotificationLevel::Info);
        assert!(!n.read);
    }
    let t = manager.get_task("backup").unwrap();
    assert_eq!(t.next_run, at(3000));
    assert_eq!(t.last_run, Some(at(2000)));
    assert!(t.enabled);
}

#[test]
fn interval_task_advances_by_its_interval() {
    let mut manager = AdvancedManager::new();
    manager.start();
    manager.add_task(task("t", "T", TaskSchedule::Interval(2500), 10_000));
    assert!(manager.tick(at(9_999)).is_empty());
    assert_eq!(manager.get_task("t").unwrap().next_run, at(10_000));
    assert_eq!(manager.tick(at(10_000)).len(), 1);
    assert_eq!(manager.get_task("t").unwrap().next_run, at(12_500));
    assert!(manager.tick(at(12_499)).is_empty());
    assert_eq!(manager.tick(at(12_500)).len(), 1);
    assert_eq!(manager.get_task("t").unwrap().next_run, at(15_000));
    // A late tick reschedules from the time of the tick.
    assert_eq!(manager.tick(at(20_000)).len(), 1);
    assert_eq!(manager.get_task("t").unwrap().next_run, at(22_500));
}

#[test]
fn one_time_task_fires_once() {
    let mut manager = AdvancedManager::new();
    manager.start();
    manager.add_task(task("once", "Once", TaskSchedule::OneTime(at(5_000)), 5_000));
    assert!(manager.tick(at(4_000)).is_empty());
    let fired = manager.tick(at(5_000));
    assert_eq!(fired.len(), 1);
    let t = manager.get_task("once").unwrap();
    assert!(!t.enabled);
    assert_eq!(t.last_run, Some(at(5_000)));
    assert_eq!(t.next_run, at(5_000));
    for second in 6..50i64 {
        assert!(manager.tick(at(second * 1000)).is_empty());
    }
    assert!(!manager.get_task("once").unwrap().enabled);
}

#[test]
fn cron_task_never_fires() {
    let mut manager = AdvancedManager::new();
    manager.start();
    manager.add_task(task("cron", "Cron", TaskSchedule::Cron("0 * * * *".to_string()), 0));
    for second in 0..5i64 {
        assert!(manager.tick(at(second * 1000)).is_empty());
    }
    let t = manager.get_task("cron").unwrap();
    assert!(t.enabled);
    assert_eq!(t.last_run, None);
    assert_eq!(t.next_run, at(0));
}

#[test]
fn disabled_task_does_not_fire() {
    let mut manager = AdvancedManager::new();
    manager.start();
    let mut t = task("off", "Off", TaskSchedule::Interval(1), 0);
    t.enabled = false;
    manager.add_task(t);
    assert!(manager.tick(at(1_000)).is_empty());
    assert_eq!(manager.get_task("off").unwrap().last_run, None);
}

#[test]
fn a_stopped_scheduler_fires_nothing() {
    let mut manager = AdvancedManager::new();
    manager.add_task(task("t", "T", TaskSchedule::Interval(1000), 0));
    assert!(!manager.is_running());
    assert!(manager.tick(at(0)).is_empty());
    assert_eq!(manager.get_task("t").unwrap().next_run, at(0));
    assert!(manager.start());
    assert!(!manager.start());
    assert_eq!(manager.tick(at(0)).len(), 1);
    manager.stop();
    assert!(manager.tick(at(5_000)).is_empty());
    assert_eq!(manager.get_task("t").unwrap().next_run, at(1000));
}

#[test]
fn tick_fires_the_due_tasks_in_registry_order() {
    let mut manager = AdvancedManager::new();
    manager.start();
    manager.add_task(task("a", "First", TaskSchedule::Interval(1000), 0));
    manager.add_task(task("b", "Later", TaskSchedule::Interval(1000), 9_000));
    manager.add_task(task("c", "Third", TaskSchedule::OneTime(at(0)), 0));
    let fired = manager.tick(at(100));
    assert_eq!(fired.len(), 2);
    assert_eq!(fired[0].title, "Task executed: First");
    assert_eq!(fired[1].title, "Task executed: Third");
    assert_eq!(fired[0].timestamp, at(100));
    assert_eq!(manager.get_task("b").unwrap().last_run, None);
}

#[test]
fn notification_ids_are_fresh_uuids() {
    let mut manager = AdvancedManager::new();
    manager.start();
    manager.add_task(task("a", "A", TaskSchedule::Interval(1), 0));
    manager.add_task(task("b", "B", TaskSchedule::Interval(1), 0));
    let fired = manager.tick(at(0));
    assert_eq!(fired.len(), 2);
    for n in &fired {
        assert_eq!(n.id.chars().count(), 36);
        assert_eq!(n.id.matches('-').count(), 4);
    }
    assert_ne!(fired[0].id, fired[1].id);
}

#[test]
fn tick_refuses_a_time_from_which_an_interval_cannot_be_added() {
    let mut manager = AdvancedManager::new();
    manager.start();
    manager.add_task(task("far", "Far", TaskSchedule::Interval(u64::MAX), 0));
    assert!(!manager.can_tick(at(0)));
    assert!(manager.can_tick(at(-1)));
    manager.add_task(task("edge", "Edge", TaskSchedule::Interval(10), i64::MAX - 10));
    manager.remove_task("far");
    assert!(manager.can_tick(at(i64::MAX - 10)));
    assert!(!manager.can_tick(at(i64::MAX - 9)));
    let fired = manager.tick(at(i64::MAX - 10));
    assert_eq!(fired.len(), 1);
    assert_eq!(manager.get_task("edge").unwrap().next_run, at(i64::MAX));
}

#[test]
fn tick_now_reads_the_clock() {
    let mut manager = AdvancedManager::new();
    manager.start();
    manager.add_task(task("t", "T", TaskSchedule::Interval(60_000), 0));
    let fired = manager.tick_now().expect("the clock is far from the end of time");
    assert_eq!(fired.len(), 1);
    let t = manager.get_task("t").unwrap();
    let now = t.last_run.unwrap();
    // Some time after the year 2020, and the next run one minute later.
    assert!(now.millis > 1_577_836_800_000);
    assert_eq!(fired[0].timestamp, now);
    assert_eq!(t.next_run.millis, now.millis + 60_000);
    manager.add_task(task("far", "Far", TaskSchedule::Interval(u64::MAX), 0));
    assert!(manager.tick_now().is_none());
    manager.stop();
    assert_eq!(manager.tick_now().map(|v| v.len()), Some(0));
}

#[test]
fn registry_is_keyed_by_id() {
    let mut manager = AdvancedManager::new();
    manager.add_task(task("a", "One", TaskSchedule::Interval(1), 0));
    manager.add_task(task("b", "Two", TaskSchedule::Interval(1), 0));
    manager.add_task(task("a", "Uno", TaskSchedule::Interval(1), 0));
    let all = manager.get_all_tasks();
    assert_eq!(all.len(), 2);
    assert_eq!(all[0].name, "Uno");
    assert_eq!(all[1].name, "Two");
    manager.remove_task("a");
    manager.remove_task("missing");
    assert!(manager.get_task("a").is_none());
    assert_eq!(manager.get_all_tasks().len(), 1);
    assert_eq!(manager.get_task("b").unwrap().name, "Two");
}

#[test]
fn mark_read_on_unknown_id_changes_nothing() {
    let mut manager = AdvancedManager::new();
    manager.send_notification(notification("n1")).unwrap();
    manager.send_notification(notification("n2")).unwrap();
    manager.deliver_pending();
    manager.mark_notification_read("nope");
    let notes = manager.get_notifications();
    assert_eq!(notes.len(), 2);
    assert!(notes.iter().all(|n| !n.read));
    assert_eq!(manager.get_unread_notifications().len(), 2);
}

#[test]
fn mark_read_is_idempotent() {
    let mut manager = AdvancedManager::new();
    manager.send_notification(notification("n1")).unwrap();
    manager.send_notification(notification("n2")).unwrap();
    manager.send_notification(notification("n1")).unwrap();
    manager.deliver_pending();
    manager.mark_notification_read("n1");
    let once: Vec<(String, bool)> =
        manager.get_notifications().into_iter().map(|n| (n.id, n.read)).collect();
    manager.mark_notification_read("n1");
    let twice: Vec<(String, bool)> =
        manager.get_notifications().into_iter().map(|n| (n.id, n.read)).collect();
    assert_eq!(once, twice);
    // Only the first notification with the id is marked.
    assert_eq!(
        once,
        vec![("n1".to_string(), true), ("n2".to_string(), false), ("n1".to_string(), false)]
    );
    let unread = manager.get_unread_notifications();
    assert_eq!(unread.len(), 2);
    assert_eq!(unread[0].id, "n2");
    assert_eq!(unread[1].id, "n1");
}

#[test]
fn a_full_bus_hands_the_notification_back() {
    let mut manager = AdvancedManager::new();
    assert_eq!(CHANNEL_CAPACITY, 100);
    for i in 0..100 {
        let sent = manager.send_notification(notification(&format!("n{}", i)));
        assert!(matches!(sent, Ok(SendOutcome::Queued)));
    }
    let back = match manager.send_notification(notification("overflow")) {
        Ok(SendOutcome::Full(back)) => back,
        other => panic!("unexpected: {:?}", other),
    };
    assert_eq!(back.id, "overflow");
    assert!(manager.get_notifications().is_empty());
    assert_eq!(manager.deliver_pending(), 100);
    assert!(matches!(manager.send_notification(back), Ok(SendOutcome::Queued)));
    assert_eq!(manager.deliver_pending(), 1);
    let notes = manager.get_notifications();
    assert_eq!(notes.len(), 101);
    assert_eq!(notes[0].id, "n0");
    assert_eq!(notes[100].id, "overflow");
}

#[test]
fn clear_empties_the_history_only() {
    let mut manager = AdvancedManager::new();
    manager.send_notification(notification("n1")).unwrap();
    manager.deliver_pending();
    manager.send_notification(notification("n2")).unwrap();
    manager.clear_notifications();
    assert!(manager.get_notifications().is_empty());
    assert_eq!(manager.deliver_pending(), 1);
    assert_eq!(manager.get_notifications()[0].id, "n2");
}

#[test]
fn task_methods_agree_with_the_tick() {
    let t = task("t", "Name", TaskSchedule::Interval(500), 100);
    assert!(!t.is_due(at(99)));
    assert!(t.is_due(at(100)));
    assert!(t.can_fire(at(100)));
    let next = t.fired(at(150));
    assert_eq!(next.next_run, at(650));
    assert_eq!(next.last_run, Some(at(150)));
    let note = t.execution_notice("some-id".to_string(), at(150));
    assert_eq!(note.id, "some-id");
    assert_eq!(note.title, "Task executed: Name");
    assert_eq!(note.message, "Command: save-all");
    assert_eq!(note.timestamp, at(150));
}

#[test]
fn a_bus_without_consumer_is_closed() {
    let mut manager = AdvancedManager::new();
    assert!(manager.is_bus_open());
    manager.send_notification(notification("n1")).unwrap();
    manager.close_bus();
    assert!(!manager.is_bus_open());
    assert!(matches!(
        manager.send_notification(notification("n2")),
        Err(SupervisorError::ChannelClosed)
    ));
    // What was queued before can still be delivered.
    assert_eq!(manager.deliver_pending(), 1);
    assert_eq!(manager.get_notifications().len(), 1);
    assert_eq!(manager.get_notifications()[0].id, "n1");
    // Starting and stopping the scheduler does not reopen the bus.
    manager.start();
    manager.stop();
    assert!(!manager.is_bus_open());
}
