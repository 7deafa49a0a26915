use vscode_latency_monitor::models::{ComponentType, EventSource, LatencyEvent};
use vscode_latency_monitor::report::{
    class_counts, csv_report, Export, Report, ReportError, EXPORT_LIMIT, REPORT_LIMIT,
};
use vscode_latency_monitor::storage::MetricsStorage;

const NOW: i64 = 1_700_000_000_000_000;

fn event(stamp: i64, class: ComponentType, duration_us: u64, text: &str) -> LatencyEvent {
    LatencyEvent::at(stamp, class, EventSource::CommandExecution, duration_us, text.to_string())
}

fn store_of(count: i64) -> MetricsStorage {
    let mut store = MetricsStorage::new();
    for i in 0..count {
        store
            .store_event(&event(NOW + i * 1_000_000, ComponentType::Terminal, 1_000, "cmd"))
            .unwrap();
    }
    store
}

#[test]
fn csv_report_has_a_header_and_one_line_per_event() {
    let events = vec![
        event(NOW, ComponentType::VSCode, 2_999, "save, then format, then lint"),
        event(0, ComponentType::GitHubCopilot, 42_000, "plain"),
        event(NOW + 86_399_000_000, ComponentType::FileSystem, 999, ",,"),
    ];
    assert_eq!(
        csv_report(&events).unwrap(),
        "timestamp,component,duration_ms,description\n\
         2023-11-14 22:13:20,VS Code,2,save; then format; then lint\n\
         1970-01-01 00:00:00,GitHub Copilot,42,plain\n\
         2023-11-15 22:13:19,File System,0,;;\n"
    );
    assert_eq!(
        csv_report(&Vec::new()).unwrap(),
        "timestamp,component,duration_ms,description\n"
    );
}

#[test]
fn csv_report_needs_timestamps_on_the_calendar() {
    let events = vec![
        event(NOW, ComponentType::VSCode, 1, "fine"),
        event(i64::MAX, ComponentType::VSCode, 1, "too far"),
    ];
    assert_eq!(csv_report(&events), Err(ReportError::TimestampOutOfRange));
}

#[test]
fn reports_come_in_two_formats() {
    let store = store_of(3);
    match store.generate_report("json") {
        Ok(Report::Json(events)) => {
            let stamps: Vec<i64> = events.iter().map(|e| e.timestamp).collect();
            assert_eq!(stamps, vec![NOW + 2_000_000, NOW + 1_000_000, NOW]);
        }
        other => panic!("unexpected report: {:?}", other),
    }
    match store.generate_report("csv") {
        Ok(Report::Csv(text)) => assert_eq!(
            text,
            "timestamp,component,duration_ms,description\n\
             2023-11-14 22:13:22,Terminal,1,cmd\n\
             2023-11-14 22:13:21,Terminal,1,cmd\n\
             2023-11-14 22:13:20,Terminal,1,cmd\n"
        ),
        other => panic!("unexpected report: {:?}", other),
    }
    assert!(matches!(store.generate_report("html"), Err(ReportError::UnsupportedFormat)));
    assert!(matches!(store.generate_report("JSON"), Err(ReportError::UnsupportedFormat)));
    assert!(matches!(store.generate_report(""), Err(ReportError::UnsupportedFormat)));
}

#[test]
fn reports_and_exports_are_limited() {
    assert_eq!(REPORT_LIMIT, 100);
    assert_eq!(EXPORT_LIMIT, 1000);
    let store = store_of(1_200);
    match store.generate_report("json") {
        Ok(Report::Json(events)) => {
            assert_eq!(events.len(), 100);
            assert_eq!(events[0].timestamp, NOW + 1_199_000_000);
            assert_eq!(events[99].timestamp, NOW + 1_100_000_000);
        }
        other => panic!("unexpected report: {:?}", other),
    }
    match store.export_metrics("json") {
        Ok(Export::Json(events)) => {
            assert_eq!(events.len(), 1_000);
            assert_eq!(events[999].timestamp, NOW + 200_000_000);
        }
        other => panic!("unexpected export: {:?}", other),
    }
}

#[test]
fn exports_come_as_events_or_as_a_notice() {
    let store = store_of(2);
    match store.export_metrics("sqlite") {
        Ok(Export::Notice(text)) => assert_eq!(text, "SQLite export not yet implemented"),
        other => panic!("unexpected export: {:?}", other),
    }
    assert!(matches!(store.export_metrics("csv"), Err(ReportError::UnsupportedFormat)));
    assert!(matches!(store.export_metrics("prometheus"), Err(ReportError::UnsupportedFormat)));
}

#[test]
fn report_faults_in_words() {
    assert_eq!(ReportError::UnsupportedFormat.message(), "Unsupported format");
    assert_eq!(ReportError::TimestampOutOfRange.message(), "Timestamp beyond the calendar");
}

#[test]
fn a_report_with_an_event_off_the_calendar_is_refused() {
    let mut store = store_of(2);
    store.store_event(&event(i64::MIN, ComponentType::System, 1, "dawn of time")).unwrap();
    assert!(matches!(store.generate_report("csv"), Err(ReportError::TimestampOutOfRange)));
    assert!(matches!(store.generate_report("json"), Ok(Report::Json(_))));
}

#[test]
fn events_are_counted_by_class() {
    let events = vec![
        event(1, ComponentType::Terminal, 1, "a"),
        event(2, ComponentType::VSCode, 1, "b"),
        event(3, ComponentType::Terminal, 1, "c"),
        event(4, ComponentType::System, 1, "d"),
        event(5, ComponentType::Terminal, 1, "e"),
    ];
    assert_eq!(class_counts(&events), vec![1, 0, 0, 0, 3, 0, 0, 1]);
    assert_eq!(class_counts(&Vec::new()), vec![0; 8]);
}
