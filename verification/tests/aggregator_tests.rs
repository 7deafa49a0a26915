use vscode_latency_monitor::aggregator::{
    bucket_index, default_bounds, Aggregator, MAX_BOUNDS, MAX_WINDOW_MINUTES, SLOT_CAPACITY,
    STANDARD_WINDOW_MINUTES,
};
use vscode_latency_monitor::models::{ComponentType, EventSource, LatencyEvent, PerformanceMetrics};

const MINUTE: i64 = 60_000_000;
const NOW: i64 = 1_700_000_000_000_000;

fn sample(class: ComponentType, stamp: i64, duration_us: u64) -> LatencyEvent {
    LatencyEvent::at(stamp, class, EventSource::TestCommand, duration_us, "sample".to_string())
}

#[test]
fn standard_bounds_double_from_one_millisecond() {
    let bounds = default_bounds();
    assert_eq!(bounds.len(), 17);
    assert_eq!(bounds[0], 1_000);
    assert_eq!(bounds[1], 2_000);
    assert_eq!(bounds[6], 64_000);
    assert_eq!(bounds[16], 65_536_000);
    for pair in bounds.windows(2) {
        assert_eq!(pair[1], 2 * pair[0]);
    }
    assert_eq!(STANDARD_WINDOW_MINUTES, 60);
}

#[test]
fn durations_fall_in_the_first_bucket_that_reaches_them() {
    let bounds = default_bounds();
    assert_eq!(bucket_index(&bounds, 0), 0);
    assert_eq!(bucket_index(&bounds, 1_000), 0);
    assert_eq!(bucket_index(&bounds, 1_001), 1);
    assert_eq!(bucket_index(&bounds, 42_000), 6);
    assert_eq!(bucket_index(&bounds, 64_000), 6);
    assert_eq!(bucket_index(&bounds, 64_001), 7);
    assert_eq!(bucket_index(&bounds, 65_536_000), 16);
    assert_eq!(bucket_index(&bounds, 65_536_001), 17);
    assert_eq!(bucket_index(&bounds, u64::MAX), 17);
    assert_eq!(bucket_index(&Vec::new(), 5), 0);
    assert_eq!(bucket_index(&vec![10], 10), 0);
    assert_eq!(bucket_index(&vec![10], 11), 1);
}

#[test]
fn setups_are_validated() {
    assert!(Aggregator::new(vec![1, 2, 3], 1).is_some());
    assert!(Aggregator::new(Vec::new(), 5).is_some());
    assert!(Aggregator::new(vec![1, 2, 2], 5).is_none());
    assert!(Aggregator::new(vec![3, 2], 5).is_none());
    assert!(Aggregator::new(vec![1, 2, 3], 0).is_none());
    assert!(Aggregator::new(vec![1, 2, 3], MAX_WINDOW_MINUTES + 1).is_none());
    assert!(Aggregator::new((0..=MAX_BOUNDS as u64).collect(), 5).is_none());
    assert!(Aggregator::new((0..MAX_BOUNDS as u64).collect(), 5).is_some());
    assert_eq!(SLOT_CAPACITY, u32::MAX as u64);
}

#[test]
fn an_unused_aggregator_reports_nothing() {
    let aggregator = Aggregator::standard();
    let metrics = aggregator.snapshot(NOW);
    assert_eq!(metrics.len(), 8);
    for (position, summary) in metrics.iter().enumerate() {
        assert_eq!(
            *summary,
            PerformanceMetrics::empty(ComponentType::from_index(position), NOW)
        );
    }
}

#[test]
fn fixed_durations_give_exact_statistics() {
    let mut aggregator = Aggregator::standard();
    for i in 0..1000 {
        assert!(aggregator.ingest(&sample(ComponentType::GitHubCopilot, NOW + i, 42_000)));
    }
    let summary = aggregator.class_snapshot(ComponentType::GitHubCopilot, NOW + 1000);
    assert_eq!(summary.component, ComponentType::GitHubCopilot);
    assert_eq!(summary.total_events, 1000);
    assert_eq!(summary.avg_duration_us, 42_000);
    assert_eq!(summary.min_duration_us, 42_000);
    assert_eq!(summary.max_duration_us, 42_000);
    let bounds = default_bounds();
    let home = bucket_index(&bounds, 42_000);
    assert_eq!(bucket_index(&bounds, summary.p50_duration_us), home);
    assert_eq!(bucket_index(&bounds, summary.p95_duration_us), home);
    assert_eq!(bucket_index(&bounds, summary.p99_duration_us), home);
    assert_eq!(summary.p50_duration_us, 42_000);
    assert_eq!(summary.p95_duration_us, 42_000);
    assert_eq!(summary.p99_duration_us, 42_000);
    assert_eq!(summary.events_per_second_milli, 277);
    assert_eq!(summary.last_updated, NOW + 1000);
    let other = aggregator.class_snapshot(ComponentType::Terminal, NOW + 1000);
    assert_eq!(other, PerformanceMetrics::empty(ComponentType::Terminal, NOW + 1000));
}

#[test]
fn percentiles_of_a_uniform_spread_are_within_one_bucket() {
    let mut aggregator = Aggregator::standard();
    let mut order: Vec<u64> = (1..=100).collect();
    order.reverse();
    order.rotate_left(37);
    for (k, i) in order.iter().enumerate() {
        assert!(aggregator.ingest(&sample(
            ComponentType::VSCode,
            NOW + (k as i64 % 5) * MINUTE,
            i * 10_000
        )));
    }
    let summary = aggregator.class_snapshot(ComponentType::VSCode, NOW + 5 * MINUTE);
    assert_eq!(summary.total_events, 100);
    assert_eq!(summary.avg_duration_us, 505_000);
    assert_eq!(summary.min_duration_us, 10_000);
    assert_eq!(summary.max_duration_us, 1_000_000);
    assert_eq!(summary.p50_duration_us, 512_000);
    assert_eq!(summary.p95_duration_us, 1_000_000);
    assert_eq!(summary.p99_duration_us, 1_000_000);
    assert_eq!(summary.events_per_second_milli, 27);
    let bounds = default_bounds();
    for (estimate, truth) in [
        (summary.p50_duration_us, 500_000u64),
        (summary.p95_duration_us, 950_000),
        (summary.p99_duration_us, 990_000),
    ] {
        let bucket = bucket_index(&bounds, truth);
        assert_eq!(bucket_index(&bounds, estimate), bucket);
        let width = bounds[bucket] - bounds[bucket - 1];
        assert!(estimate.abs_diff(truth) < width);
    }
}

#[test]
fn the_overflow_bucket_reports_the_largest_sample() {
    let mut aggregator = Aggregator::new(vec![10, 20], 2).unwrap();
    for duration in [5, 15, 700, 900, 800] {
        assert!(aggregator.ingest(&sample(ComponentType::Network, NOW, duration)));
    }
    let summary = aggregator.class_snapshot(ComponentType::Network, NOW);
    assert_eq!(summary.total_events, 5);
    assert_eq!(summary.avg_duration_us, 484);
    assert_eq!(summary.min_duration_us, 5);
    assert_eq!(summary.max_duration_us, 900);
    assert_eq!(summary.p50_duration_us, 900);
    assert_eq!(summary.p99_duration_us, 900);
    assert_eq!(summary.events_per_second_milli, 5 * 1000 / 120);
}

#[test]
fn a_single_sample_is_every_percentile() {
    let mut aggregator = Aggregator::standard();
    assert!(aggregator.ingest(&sample(ComponentType::System, NOW, 3_000)));
    let summary = aggregator.class_snapshot(ComponentType::System, NOW);
    assert_eq!(summary.total_events, 1);
    assert_eq!(summary.avg_duration_us, 3_000);
    assert_eq!(summary.p50_duration_us, 3_000);
    assert_eq!(summary.p95_duration_us, 3_000);
    assert_eq!(summary.p99_duration_us, 3_000);
    assert_eq!(summary.events_per_second_milli, 0);
}

#[test]
fn extreme_durations_do_not_overflow_the_sum() {
    let mut aggregator = Aggregator::standard();
    for _ in 0..3 {
        assert!(aggregator.ingest(&sample(ComponentType::System, NOW, u64::MAX)));
    }
    assert!(aggregator.ingest(&sample(ComponentType::System, NOW, 0)));
    let summary = aggregator.class_snapshot(ComponentType::System, NOW);
    assert_eq!(summary.total_events, 4);
    assert_eq!(summary.min_duration_us, 0);
    assert_eq!(summary.max_duration_us, u64::MAX);
    assert_eq!(summary.avg_duration_us, ((3 * u64::MAX as u128) / 4) as u64);
    assert_eq!(summary.p50_duration_us, u64::MAX);
}

#[test]
fn samples_age_out_of_the_window() {
    let mut aggregator = Aggregator::standard();
    assert!(aggregator.ingest(&sample(ComponentType::Terminal, NOW, 5_000)));
    assert!(aggregator.ingest(&sample(ComponentType::Terminal, NOW + 30 * MINUTE, 7_000)));
    let both = aggregator.class_snapshot(ComponentType::Terminal, NOW + 59 * MINUTE);
    assert_eq!(both.total_events, 2);
    assert_eq!(both.min_duration_us, 5_000);
    let one = aggregator.class_snapshot(ComponentType::Terminal, NOW + 60 * MINUTE);
    assert_eq!(one.total_events, 1);
    assert_eq!(one.min_duration_us, 7_000);
    assert_eq!(one.max_duration_us, 7_000);
    let none = aggregator.class_snapshot(ComponentType::Terminal, NOW + 90 * MINUTE);
    assert_eq!(none, PerformanceMetrics::empty(ComponentType::Terminal, NOW + 90 * MINUTE));
    let past = aggregator.class_snapshot(ComponentType::Terminal, NOW - 500 * MINUTE);
    assert_eq!(past.total_events, 2);
    let before_epoch = aggregator.class_snapshot(ComponentType::Terminal, -1);
    assert_eq!(before_epoch.total_events, 2);
}

#[test]
fn a_slot_is_taken_over_by_the_minute_one_window_later() {
    let mut aggregator = Aggregator::new(vec![1_000], 3).unwrap();
    assert!(aggregator.ingest(&sample(ComponentType::VSCode, NOW, 10)));
    assert!(aggregator.ingest(&sample(ComponentType::VSCode, NOW + MINUTE, 20)));
    assert!(aggregator.ingest(&sample(ComponentType::VSCode, NOW + 2 * MINUTE, 30)));
    assert_eq!(aggregator.class_snapshot(ComponentType::VSCode, NOW).total_events, 3);
    assert!(aggregator.ingest(&sample(ComponentType::VSCode, NOW + 3 * MINUTE, 40)));
    let summary = aggregator.class_snapshot(ComponentType::VSCode, NOW);
    assert_eq!(summary.total_events, 3);
    assert_eq!(summary.min_duration_us, 20);
    assert_eq!(summary.max_duration_us, 40);
    assert_eq!(summary.avg_duration_us, 30);
}

#[test]
fn late_and_prehistoric_events_are_refused() {
    let mut aggregator = Aggregator::standard();
    assert!(!aggregator.ingest(&sample(ComponentType::VSCode, -1, 10)));
    assert!(!aggregator.ingest(&sample(ComponentType::VSCode, i64::MIN, 10)));
    assert!(aggregator.ingest(&sample(ComponentType::VSCode, 0, 10)));
    assert!(aggregator.ingest(&sample(ComponentType::VSCode, NOW, 10)));
    assert!(!aggregator.ingest(&sample(ComponentType::VSCode, NOW - 60 * MINUTE, 10)));
    assert!(!aggregator.ingest(&sample(ComponentType::Terminal, NOW - 61 * MINUTE, 10)));
    assert!(aggregator.ingest(&sample(ComponentType::VSCode, NOW - 59 * MINUTE, 10)));
    assert!(aggregator.ingest(&sample(ComponentType::VSCode, i64::MAX, 10)));
    assert!(!aggregator.ingest(&sample(ComponentType::VSCode, NOW, 10)));
    assert_eq!(aggregator.class_snapshot(ComponentType::VSCode, 0).total_events, 1);
}

#[test]
fn classes_are_kept_apart() {
    let mut aggregator = Aggregator::standard();
    for i in 0..8 {
        let class = ComponentType::from_index(i);
        for _ in 0..=i {
            assert!(aggregator.ingest(&sample(class, NOW, 1_000 * (i as u64 + 1))));
        }
    }
    let metrics = aggregator.snapshot(NOW);
    for (i, summary) in metrics.iter().enumerate() {
        assert_eq!(summary.component, ComponentType::from_index(i));
        assert_eq!(summary.total_events, i as u64 + 1);
        assert_eq!(summary.avg_duration_us, 1_000 * (i as u64 + 1));
    }
}

#[test]
fn volume_does_not_change_what_a_snapshot_holds() {
    let mut aggregator = Aggregator::new(vec![100, 200, 400], 4).unwrap();
    for i in 0..50_000i64 {
        let class = ComponentType::from_index((i % 8) as usize);
        aggregator.ingest(&sample(class, NOW + (i / 500) * MINUTE, (i % 700) as u64));
    }
    let metrics = aggregator.snapshot(NOW + 99 * MINUTE);
    assert_eq!(metrics.len(), 8);
    let total: u64 = metrics.iter().map(|m| m.total_events).sum();
    assert_eq!(total, 4 * 500);
}
