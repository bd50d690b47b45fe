use server_supervisor::clock::Timestamp;
use server_supervisor::monitoring::{
    PerformanceHistory, PerformanceMetrics, PerformanceMonitor, ProcessReading, DEFAULT_TPS,
    MAX_SAMPLES,
};

fn reading(cpu_usage: u32, memory_usage: u64) -> Option<ProcessReading> {
    Some(ProcessReading { cpu_usage, memory_usage })
}

fn at(seconds: i64) -> Timestamp {
    Timestamp::from_millis(seconds * 1000)
}

/// A sample taken `uptime` seconds after the epoch.
fn sample(cpu_usage: u32, memory_usage: u64, uptime: u64) -> PerformanceMetrics {
    PerformanceMetrics {
        cpu_usage,
        memory_usage,
        tps: DEFAULT_TPS,
        player_count: 0,
        uptime,
        last_tick_time: 0,
        entities: 0,
        chunks_loaded: 0,
        taken_at: at(uptime as i64),
    }
}

#[test]
fn test_performance_monitor() {
    let mut monitor = PerformanceMonitor::new(0);
    assert!(monitor.start());

    // Two ticks, one second apart; the process is not in the process table.
    assert!(monitor.tick(None, 0, at(0)));
    assert!(monitor.tick(None, 1, at(1)));

    assert!(monitor.get_current_metrics().is_some());
    assert!(!monitor.get_metrics_history().is_empty());

    monitor.stop();
}

#[test]
fn new_monitor_is_stopped_and_empty() {
    let monitor = PerformanceMonitor::new(42);
    assert!(!monitor.is_running());
    assert_eq!(monitor.process_id(), 42);
    assert!(monitor.get_current_metrics().is_none());
    assert!(monitor.get_metrics_history().is_empty());
    assert!(monitor.get_average_metrics(10, at(0)).is_none());
    assert!(monitor.get_peak_metrics(10, at(0)).is_none());
}

#[test]
fn start_reports_whether_the_loop_has_to_be_started() {
    let mut monitor = PerformanceMonitor::new(1);
    assert!(monitor.start());
    assert!(!monitor.start());
    assert!(monitor.is_running());
    monitor.stop();
    assert!(!monitor.is_running());
    assert!(monitor.start());
}

#[test]
fn a_stopped_monitor_records_nothing() {
    let mut monitor = PerformanceMonitor::new(1);
    assert!(!monitor.tick(reading(5, 5), 0, at(0)));
    assert!(monitor.get_metrics_history().is_empty());
    monitor.start();
    assert!(monitor.tick(reading(5, 5), 0, at(0)));
    monitor.stop();
    assert!(!monitor.tick(reading(6, 6), 1, at(1)));
    assert_eq!(monitor.get_metrics_history().len(), 1);
}

#[test]
fn a_missing_process_gives_a_sample_of_zeros_and_defaults() {
    let mut monitor = PerformanceMonitor::new(7);
    monitor.start();
    monitor.update_tick_time(49_500);
    monitor.tick(None, 3, at(3));
    assert_eq!(
        monitor.get_current_metrics(),
        Some(PerformanceMetrics {
            cpu_usage: 0,
            memory_usage: 0,
            tps: 20_000,
            player_count: 0,
            uptime: 3,
            last_tick_time: 49_500,
            entities: 0,
            chunks_loaded: 0,
            taken_at: at(3),
        })
    );
}

#[test]
fn a_reading_enters_the_sample() {
    let mut monitor = PerformanceMonitor::new(7);
    monitor.start();
    monitor.tick(reading(12_500, 1_048_576), 9, at(9));
    let latest = monitor.get_current_metrics().unwrap();
    assert_eq!(latest.cpu_usage, 12_500);
    assert_eq!(latest.memory_usage, 1_048_576);
    assert_eq!(latest.uptime, 9);
    assert_eq!(latest.tps, DEFAULT_TPS);
}

#[test]
fn history_never_exceeds_its_bound_and_evicts_the_oldest() {
    let mut monitor = PerformanceMonitor::new(1);
    monitor.start();
    for t in 0..1001u64 {
        monitor.tick(reading(0, t), t, at(t as i64));
        assert!(monitor.get_metrics_history().len() <= 1000);
    }
    let history = monitor.get_metrics_history();
    assert_eq!(history.len(), 1000);
    assert_eq!(MAX_SAMPLES, 1000);
    // The sample of the first tick is gone, the one of the last tick is there.
    assert!(history.iter().all(|m| m.uptime != 0));
    assert_eq!(history[0].uptime, 1);
    assert_eq!(history[999].uptime, 1000);
    assert_eq!(monitor.get_current_metrics().unwrap().uptime, 1000);
}

#[test]
fn history_of_small_capacity_is_first_in_first_out() {
    let mut history = PerformanceHistory::with_capacity(3);
    assert_eq!(history.max_samples(), 3);
    for t in 0..5u64 {
        history.record(sample(0, 0, t));
    }
    let kept: Vec<u64> = history.samples().iter().map(|m| m.uptime).collect();
    assert_eq!(kept, vec![2, 3, 4]);
    assert_eq!(history.len(), 3);
    assert_eq!(history.latest().unwrap().uptime, 4);
}

#[test]
fn history_of_capacity_zero_stays_empty() {
    let mut history = PerformanceHistory::with_capacity(0);
    history.record(sample(1, 1, 1));
    assert_eq!(history.len(), 0);
    assert!(history.latest().is_none());
}

#[test]
fn average_is_the_rounded_down_mean_over_the_window() {
    let mut history = PerformanceHistory::with_capacity(10);
    history.record(sample(9_000, 90, 1));
    history.record(sample(1_000, 10, 48));
    history.record(sample(2_000, 20, 49));
    history.record(sample(4_000, 41, 50));
    // At second 50, the last three samples lie within two seconds.
    let avg = history.average(2, at(50)).unwrap();
    assert_eq!(avg.cpu_usage, 2_333);
    assert_eq!(avg.memory_usage, 23);
    assert_eq!(avg.tps, DEFAULT_TPS);
    assert_eq!(avg.player_count, 0);
    assert_eq!(avg.uptime, 50);
    assert_eq!(avg.taken_at, at(50));
    let all = history.average(49, at(50)).unwrap();
    assert_eq!(all.cpu_usage, 4_000);
    assert_eq!(all.memory_usage, 40);
    assert_eq!(all.uptime, 50);
    // The bound of the window is inclusive, to the millisecond.
    assert_eq!(history.average(0, at(50)).unwrap().cpu_usage, 4_000);
    assert!(history.average(0, Timestamp::from_millis(50_001)).is_none());
    assert!(history.average(5, at(60)).is_none());
}

#[test]
fn the_window_holds_the_most_recent_samples() {
    let mut history = PerformanceHistory::with_capacity(10);
    history.record(sample(10, 1, 0));
    history.record(sample(30, 3, 100));
    // Ten seconds back from second 105 reach the later sample alone.
    let avg = history.average(10, at(105)).unwrap();
    assert_eq!(avg.cpu_usage, 30);
    assert_eq!(avg.uptime, 100);
    let peak = history.peak(10, at(105)).unwrap();
    assert_eq!(peak.cpu_usage, 30);
    assert_eq!(peak.memory_usage, 3);
    assert_eq!(peak.uptime, 100);
    // Whenever the query comes, the earlier sample is never there alone.
    for now in [0, 5, 10, 11, 90, 100, 110] {
        assert_eq!(history.average(10, at(now)).unwrap().uptime, 100, "at {}", now);
        assert_eq!(history.peak(10, at(now)).unwrap().cpu_usage, 30, "at {}", now);
    }
    assert!(history.average(10, at(111)).is_none());
    assert!(history.peak(10, at(111)).is_none());
}

#[test]
fn samples_taken_after_the_query_count_as_recent() {
    let mut history = PerformanceHistory::with_capacity(10);
    history.record(sample(10, 1, 100));
    assert_eq!(history.average(0, at(50)).unwrap().cpu_usage, 10);
    assert_eq!(history.peak(0, at(50)).unwrap().cpu_usage, 10);
}

#[test]
fn the_window_does_not_overflow_at_the_ends_of_time() {
    let mut history = PerformanceHistory::with_capacity(10);
    let mut early = sample(1, 1, 0);
    early.taken_at = Timestamp::from_millis(i64::MIN);
    let mut late = sample(3, 3, 1);
    late.taken_at = Timestamp::from_millis(i64::MAX);
    history.record(early);
    history.record(late);
    let now = Timestamp::from_millis(i64::MAX);
    assert_eq!(history.average(u64::MAX, now).unwrap().cpu_usage, 2);
    assert_eq!(history.average(0, now).unwrap().cpu_usage, 3);
    assert_eq!(history.peak(0, Timestamp::from_millis(i64::MIN)).unwrap().cpu_usage, 3);
}

#[test]
fn average_does_not_overflow_on_large_readings() {
    let mut history = PerformanceHistory::with_capacity(4);
    history.record(sample(u32::MAX, u64::MAX, 1));
    history.record(sample(u32::MAX, u64::MAX, 2));
    history.record(sample(u32::MAX, u64::MAX - 3, 3));
    let avg = history.average(10, at(3)).unwrap();
    assert_eq!(avg.cpu_usage, u32::MAX);
    assert_eq!(avg.memory_usage, u64::MAX - 1);
}

#[test]
fn peak_is_the_largest_value_of_each_gauge_over_the_window() {
    let mut history = PerformanceHistory::with_capacity(10);
    let mut first = sample(5_000, 10, 99);
    first.player_count = 7;
    first.entities = 3;
    let mut second = sample(1_000, 99, 100);
    second.chunks_loaded = 12;
    second.last_tick_time = 40;
    history.record(sample(90_000, 1_000, 1));
    history.record(first);
    history.record(second);
    let peak = history.peak(2, at(101)).unwrap();
    assert_eq!(
        peak,
        PerformanceMetrics {
            cpu_usage: 5_000,
            memory_usage: 99,
            tps: DEFAULT_TPS,
            player_count: 7,
            uptime: 100,
            last_tick_time: 40,
            entities: 3,
            chunks_loaded: 12,
            taken_at: at(100),
        }
    );
    assert!(history.peak(0, at(101)).is_none());
    assert_eq!(history.peak(200, at(101)).unwrap().cpu_usage, 90_000);
}

#[test]
fn monitor_aggregates_match_its_history() {
    let mut monitor = PerformanceMonitor::new(1);
    monitor.start();
    monitor.tick(reading(10, 100), 1, at(1));
    monitor.tick(reading(30, 300), 2, at(2));
    monitor.tick(reading(50, 500), 3, at(3));
    let avg = monitor.get_average_metrics(1, at(3)).unwrap();
    assert_eq!(avg.cpu_usage, 40);
    assert_eq!(avg.memory_usage, 400);
    assert_eq!(avg.uptime, 3);
    let peak = monitor.get_peak_metrics(2, at(3)).unwrap();
    assert_eq!(peak.cpu_usage, 50);
    assert_eq!(peak.memory_usage, 500);
    assert_eq!(peak.uptime, 3);
    assert!(monitor.get_average_metrics(1, at(5)).is_none());
}
