use vscode_latency_monitor::models::{
    CommandLatency, ComponentType, EventSource, LatencyEvent, ModelInteraction,
    ModelInteractionType, PerformanceMetrics, SystemStatus, TokenMetrics, CLASS_COUNT,
};

const ALL_CLASSES: [ComponentType; 8] = [
    ComponentType::VSCode,
    ComponentType::VSCodeExtension,
    ComponentType::GitHubCopilot,
    ComponentType::LocalModel,
    ComponentType::Terminal,
    ComponentType::FileSystem,
    ComponentType::Network,
    ComponentType::System,
];

const ALL_SOURCES: [EventSource; 8] = [
    EventSource::ProcessMonitor,
    EventSource::ExtensionHost,
    EventSource::ModelProcess,
    EventSource::CommandExecution,
    EventSource::FileOperation,
    EventSource::NetworkRequest,
    EventSource::TestCommand,
    EventSource::UserInteraction,
];

#[test]
fn component_labels_read_as_words() {
    let labels: Vec<String> = ALL_CLASSES.iter().map(|c| c.label()).collect();
    assert_eq!(
        labels,
        vec![
            "VS Code",
            "VS Code Extension",
            "GitHub Copilot",
            "Local Model",
            "Terminal",
            "File System",
            "Network",
            "System"
        ]
    );
}

#[test]
fn component_names_round_trip() {
    for class in ALL_CLASSES.iter() {
        assert_eq!(ComponentType::from_name(&class.name()), *class);
    }
    assert_eq!(ComponentType::VSCodeExtension.name(), "VSCodeExtension");
    assert_eq!(ComponentType::GitHubCopilot.name(), "GitHubCopilot");
}

#[test]
fn unknown_component_name_reads_as_system() {
    assert_eq!(ComponentType::from_name("Spreadsheet"), ComponentType::System);
    assert_eq!(ComponentType::from_name(""), ComponentType::System);
    assert_eq!(ComponentType::from_name("vscode"), ComponentType::System);
}

#[test]
fn component_positions_cover_the_closed_set() {
    assert_eq!(CLASS_COUNT, 8);
    for (position, class) in ALL_CLASSES.iter().enumerate() {
        assert_eq!(class.index(), position);
        assert_eq!(ComponentType::from_index(position), *class);
    }
    assert_eq!(ComponentType::from_index(8), ComponentType::System);
    assert_eq!(ComponentType::from_index(usize::MAX), ComponentType::System);
}

#[test]
fn source_labels_and_names() {
    let labels: Vec<String> = ALL_SOURCES.iter().map(|s| s.label()).collect();
    assert_eq!(
        labels,
        vec![
            "Process Monitor",
            "Extension Host",
            "Model Process",
            "Command Execution",
            "File Operation",
            "Network Request",
            "Test Command",
            "User Interaction"
        ]
    );
    for source in ALL_SOURCES.iter() {
        assert_eq!(EventSource::from_name(&source.name()), *source);
    }
    assert_eq!(EventSource::from_name("Nowhere"), EventSource::ProcessMonitor);
}

#[test]
fn interaction_labels() {
    assert_eq!(ModelInteractionType::Completion.label(), "Completion");
    assert_eq!(ModelInteractionType::ChatCompletion.label(), "Chat Completion");
    assert_eq!(ModelInteractionType::CodeCompletion.label(), "Code Completion");
    assert_eq!(ModelInteractionType::Embedding.label(), "Embedding");
    assert_eq!(ModelInteractionType::FineTuning.label(), "Fine-tuning");
    assert_eq!(ModelInteractionType::Other.label(), "Other");
}

#[test]
fn event_at_holds_what_it_was_given() {
    let event = LatencyEvent::at(
        1_700_000_000_000_000,
        ComponentType::Network,
        EventSource::NetworkRequest,
        2_500_999,
        "GET /".to_string(),
    );
    assert_eq!(event.id, None);
    assert_eq!(event.timestamp, 1_700_000_000_000_000);
    assert_eq!(event.component_type, ComponentType::Network);
    assert_eq!(event.event_source, EventSource::NetworkRequest);
    assert_eq!(event.duration_us(), 2_500_999);
    assert_eq!(event.duration_ms(), 2_500);
    assert_eq!(event.description, "GET /");
    assert_eq!(event.metadata, None);
}

#[test]
fn new_event_is_stamped_by_the_clock() {
    let event = LatencyEvent::new(
        ComponentType::System,
        EventSource::UserInteraction,
        7,
        "click".to_string(),
    );
    assert_eq!(event.id, None);
    assert!(event.timestamp > 1_600_000_000_000_000);
    assert_eq!(event.duration_us, 7);
    assert_eq!(event.description, "click");
    let later = LatencyEvent::new(
        ComponentType::System,
        EventSource::UserInteraction,
        7,
        "click".to_string(),
    );
    assert!(later.timestamp >= event.timestamp);
}

#[test]
fn metadata_is_attached() {
    let event = LatencyEvent::at(
        5,
        ComponentType::FileSystem,
        EventSource::FileOperation,
        0,
        "open".to_string(),
    )
    .with_metadata("{\"path\":\"/tmp/x\"}".to_string());
    assert_eq!(event.metadata.as_deref(), Some("{\"path\":\"/tmp/x\"}"));
    assert_eq!(event.description, "open");
}

#[test]
fn identifier_is_assigned_exactly_once() {
    let event = LatencyEvent::at(
        5,
        ComponentType::FileSystem,
        EventSource::FileOperation,
        0,
        "open".to_string(),
    );
    let persisted = event.with_id(41).expect("a new event takes an identifier");
    assert_eq!(persisted.id, Some(41));
    let refused = persisted.with_id(42).expect_err("an identifier is never reassigned");
    assert_eq!(refused.id, Some(41));
}

#[test]
fn duplicate_is_an_equal_copy() {
    let event = LatencyEvent::at(
        9,
        ComponentType::LocalModel,
        EventSource::ModelProcess,
        123,
        "llama".to_string(),
    )
    .with_metadata("[1,2]".to_string());
    let copy = event.duplicate();
    assert_eq!(copy.id, event.id);
    assert_eq!(copy.timestamp, event.timestamp);
    assert_eq!(copy.component_type, event.component_type);
    assert_eq!(copy.event_source, event.event_source);
    assert_eq!(copy.duration_us, event.duration_us);
    assert_eq!(copy.description, event.description);
    assert_eq!(copy.metadata, event.metadata);
}

#[test]
fn empty_metrics_are_all_zero() {
    let metrics = PerformanceMetrics::empty(ComponentType::Terminal, 77);
    assert_eq!(metrics.component, ComponentType::Terminal);
    assert_eq!(metrics.total_events, 0);
    assert_eq!(metrics.avg_duration_us, 0);
    assert_eq!(metrics.min_duration_us, 0);
    assert_eq!(metrics.max_duration_us, 0);
    assert_eq!(metrics.p50_duration_us, 0);
    assert_eq!(metrics.p95_duration_us, 0);
    assert_eq!(metrics.p99_duration_us, 0);
    assert_eq!(metrics.events_per_second_milli, 0);
    assert_eq!(metrics.last_updated, 77);
    let fresh = PerformanceMetrics::new(ComponentType::Network);
    assert_eq!(fresh.total_events, 0);
    assert!(fresh.last_updated > 1_600_000_000_000_000);
}

#[test]
fn initial_status() {
    let status = SystemStatus::new();
    assert_eq!(status.summary, "System initializing");
    assert_eq!(status.total_events, 0);
    assert_eq!(status.dropped_events, 0);
    assert!(status.active_monitors.is_empty());
    assert!(status.performance_metrics.is_empty());
    assert_eq!(status.last_event_timestamp, None);
    assert_eq!(status.uptime_seconds, 0);
    assert_eq!(status.memory_usage_mb, 0);
    assert_eq!(status.cpu_usage_millipercent, 0);
}

#[test]
fn token_rate_is_tokens_per_second_in_thousandths() {
    let metrics = TokenMetrics::at(10, "gpt".to_string(), 150, 2_000, 40, 600);
    assert_eq!(metrics.tokens_per_second_milli, 75_000);
    assert_eq!(metrics.estimated_tokens, 150);
    assert_eq!(metrics.generation_time_ms, 2_000);
    assert_eq!(metrics.prompt_length, 40);
    assert_eq!(metrics.response_length, 600);
    assert_eq!(metrics.timestamp, 10);
    let instant = TokenMetrics::at(10, "gpt".to_string(), 150, 0, 40, 600);
    assert_eq!(instant.tokens_per_second_milli, 0);
    let thirds = TokenMetrics::at(10, "gpt".to_string(), 1, 3, 0, 0);
    assert_eq!(thirds.tokens_per_second_milli, 333_333);
    let huge = TokenMetrics::at(10, "gpt".to_string(), u32::MAX, 1, 0, 0);
    assert_eq!(huge.tokens_per_second_milli, 4_294_967_295_000_000);
    let now = TokenMetrics::new("gpt".to_string(), 10, 1_000, 1, 2);
    assert_eq!(now.tokens_per_second_milli, 10_000);
    assert!(now.timestamp > 1_600_000_000_000_000);
}

#[test]
fn command_latency_builders() {
    let latency = CommandLatency::new("ls".to_string(), "/tmp".to_string(), 0, 100, 350, 250);
    assert_eq!(latency.command, "ls");
    assert_eq!(latency.working_directory, "/tmp");
    assert_eq!(latency.exit_code, 0);
    assert_eq!(latency.start_time, 100);
    assert_eq!(latency.end_time, 350);
    assert_eq!(latency.duration_ms, 250);
    assert_eq!(latency.cpu_usage_millipercent, 0);
    assert_eq!(latency.memory_usage_kb, 0);
    let used = latency.with_resource_usage(12_500, 2_048);
    assert_eq!(used.cpu_usage_millipercent, 12_500);
    assert_eq!(used.memory_usage_kb, 2_048);
    assert_eq!(used.command, "ls");
    assert_eq!(used.duration_ms, 250);
}

#[test]
fn interaction_rate_needs_tokens_and_time() {
    let mut interaction = ModelInteraction::at(
        3,
        "copilot".to_string(),
        ModelInteractionType::CodeCompletion,
        500,
        true,
    );
    assert_eq!(interaction.prompt_tokens, None);
    assert_eq!(interaction.completion_tokens, None);
    assert_eq!(interaction.error_message, None);
    assert_eq!(interaction.context_length, None);
    assert!(interaction.success);
    assert_eq!(interaction.tokens_per_second(), None);
    interaction.total_tokens = Some(100);
    assert_eq!(interaction.tokens_per_second(), Some(200_000));
    interaction.duration_ms = 0;
    assert_eq!(interaction.tokens_per_second(), None);
    let now = ModelInteraction::new("m".to_string(), ModelInteractionType::Other, 1, false);
    assert!(now.timestamp > 1_600_000_000_000_000);
    assert!(!now.success);
}
