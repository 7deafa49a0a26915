//! The data model: latency events and the closed sets that tag them.

use vstd::prelude::*;
use vstd::string::*;
use crate::clock::now_micros;
use crate::text::{copy_optional_text, same_text};

verus! {

/// The category of monitored subject an event belongs to.
#[derive(Debug, Clone, Copy, PartialEq, Eq, Structural)]
pub enum ComponentType {
    VSCode,
    VSCodeExtension,
    GitHubCopilot,
    LocalModel,
    Terminal,
    FileSystem,
    Network,
    System,
}

impl ComponentType {
    /// The human-readable label of the class.
    pub open spec fn label_text(self) -> Seq<char> {
        match self {
            ComponentType::VSCode => "VS Code"@,
            ComponentType::VSCodeExtension => "VS Code Extension"@,
            ComponentType::GitHubCopilot => "GitHub Copilot"@,
            ComponentType::LocalModel => "Local Model"@,
            ComponentType::Terminal => "Terminal"@,
            ComponentType::FileSystem => "File System"@,
            ComponentType::Network => "Network"@,
            ComponentType::System => "System"@,
        }
    }

    /// The identifier under which the class is written to a stored record.
    pub open spec fn name_text(self) -> Seq<char> {
        match self {
            ComponentType::VSCode => "VSCode"@,
            ComponentType::VSCodeExtension => "VSCodeExtension"@,
            ComponentType::GitHubCopilot => "GitHubCopilot"@,
            ComponentType::LocalModel => "LocalModel"@,
            ComponentType::Terminal => "Terminal"@,
            ComponentType::FileSystem => "FileSystem"@,
            ComponentType::Network => "Network"@,
            ComponentType::System => "System"@,
        }
    }

    /// The class that a stored identifier stands for; an unknown identifier
    /// stands for `System`.
    pub open spec fn parse_name(text: Seq<char>) -> ComponentType {
        if text == "VSCode"@ {
            ComponentType::VSCode
        } else if text == "VSCodeExtension"@ {
            ComponentType::VSCodeExtension
        } else if text == "GitHubCopilot"@ {
            ComponentType::GitHubCopilot
        } else if text == "LocalModel"@ {
            ComponentType::LocalModel
        } else if text == "Terminal"@ {
            ComponentType::Terminal
        } else if text == "FileSystem"@ {
            ComponentType::FileSystem
        } else if text == "Network"@ {
            ComponentType::Network
        } else {
            ComponentType::System
        }
    }

    /// The position of the class in the closed set, from 0.
    pub open spec fn ordinal(self) -> nat {
        match self {
            ComponentType::VSCode => 0,
            ComponentType::VSCodeExtension => 1,
            ComponentType::GitHubCopilot => 2,
            ComponentType::LocalModel => 3,
            ComponentType::Terminal => 4,
            ComponentType::FileSystem => 5,
            ComponentType::Network => 6,
            ComponentType::System => 7,
        }
    }

    /// The class at a position of the closed set; positions past the end
    /// give `System`.
    pub open spec fn at(position: nat) -> ComponentType {
        if position == 0 {
            ComponentType::VSCode
        } else if position == 1 {
            ComponentType::VSCodeExtension
        } else if position == 2 {
            ComponentType::GitHubCopilot
        } else if position == 3 {
            ComponentType::LocalModel
        } else if position == 4 {
            ComponentType::Terminal
        } else if position == 5 {
            ComponentType::FileSystem
        } else if position == 6 {
            ComponentType::Network
        } else {
            ComponentType::System
        }
    }

    /// The class in words.
    pub fn label(&self) -> (text: String)
        ensures
            text@ == self.label_text(),
    {
        match self {
            ComponentType::VSCode => String::from_str("VS Code"),
            ComponentType::VSCodeExtension => String::from_str("VS Code Extension"),
            ComponentType::GitHubCopilot => String::from_str("GitHub Copilot"),
            ComponentType::LocalModel => String::from_str("Local Model"),
            ComponentType::Terminal => String::from_str("Terminal"),
            ComponentType::FileSystem => String::from_str("File System"),
            ComponentType::Network => String::from_str("Network"),
            ComponentType::System => String::from_str("System"),
        }
    }

    /// The identifier under which the class is written to a stored record.
    pub fn name(&self) -> (text: String)
        ensures
            text@ == self.name_text(),
    {
        match self {
            ComponentType::VSCode => String::from_str("VSCode"),
            ComponentType::VSCodeExtension => String::from_str("VSCodeExtension"),
            ComponentType::GitHubCopilot => String::from_str("GitHubCopilot"),
            ComponentType::LocalModel => String::from_str("LocalModel"),
            ComponentType::Terminal => String::from_str("Terminal"),
            ComponentType::FileSystem => String::from_str("FileSystem"),
            ComponentType::Network => String::from_str("Network"),
            ComponentType::System => String::from_str("System"),
        }
    }

    /// The class that a stored identifier stands for.
    pub fn from_name(text: &str) -> (class: ComponentType)
        ensures
            class == ComponentType::parse_name(text@),
    {
        if same_text(text, "VSCode") {
            ComponentType::VSCode
        } else if same_text(text, "VSCodeExtension") {
            ComponentType::VSCodeExtension
        } else if same_text(text, "GitHubCopilot") {
            ComponentType::GitHubCopilot
        } else if same_text(text, "LocalModel") {
            ComponentType::LocalModel
        } else if same_text(text, "Terminal") {
            ComponentType::Terminal
        } else if same_text(text, "FileSystem") {
            ComponentType::FileSystem
        } else if same_text(text, "Network") {
            ComponentType::Network
        } else {
            ComponentType::System
        }
    }

    /// The position of the class in the closed set.
    pub fn index(&self) -> (position: usize)
        ensures
            position == self.ordinal(),
            position < CLASS_COUNT,
    {
        match self {
            ComponentType::VSCode => 0,
            ComponentType::VSCodeExtension => 1,
            ComponentType::GitHubCopilot => 2,
            ComponentType::LocalModel => 3,
            ComponentType::Terminal => 4,
            ComponentType::FileSystem => 5,
            ComponentType::Network => 6,
            ComponentType::System => 7,
        }
    }

    /// The class at a position of the closed set.
    pub fn from_index(position: usize) -> (class: ComponentType)
        ensures
            class == ComponentType::at(position as nat),
            position < CLASS_COUNT ==> class.ordinal() == position,
    {
        if position == 0 {
            ComponentType::VSCode
        } else if position == 1 {
            ComponentType::VSCodeExtension
        } else if position == 2 {
            ComponentType::GitHubCopilot
        } else if position == 3 {
            ComponentType::LocalModel
        } else if position == 4 {
            ComponentType::Terminal
        } else if position == 5 {
            ComponentType::FileSystem
        } else if position == 6 {
            ComponentType::Network
        } else {
            ComponentType::System
        }
    }
}

/// How many component classes there are.
pub const CLASS_COUNT: usize = 8;

/// The identifier under which a class is stored reads back as the class.
pub proof fn lemma_component_name_reads_back(class: ComponentType)
    ensures
        ComponentType::parse_name(class.name_text()) == class,
{
    reveal_strlit("VSCode");
    reveal_strlit("VSCodeExtension");
    reveal_strlit("GitHubCopilot");
    reveal_strlit("LocalModel");
    reveal_strlit("Terminal");
    reveal_strlit("FileSystem");
    reveal_strlit("Network");
    reveal_strlit("System");
    assert("VSCode"@.len() == 6 && "VSCodeExtension"@.len() == 15);
    assert("GitHubCopilot"@.len() == 13 && "LocalModel"@.len() == 10);
    assert("Terminal"@.len() == 8 && "FileSystem"@.len() == 10);
    assert("LocalModel"@[0] != "FileSystem"@[0]);
    assert("VSCode"@[0] != "System"@[0]);
}

/// The position of a class names the class, and the class at a position
/// of the closed set stands at that position.
pub proof fn lemma_component_positions(class: ComponentType, position: nat)
    ensures
        ComponentType::at(class.ordinal()) == class,
        class.ordinal() < CLASS_COUNT,
        position < CLASS_COUNT ==> ComponentType::at(position).ordinal() == position,
{
}

/// Where an event came from.
#[derive(Debug, Clone, Copy, PartialEq, Eq, Structural)]
pub enum EventSource {
    ProcessMonitor,
    ExtensionHost,
    ModelProcess,
    CommandExecution,
    FileOperation,
    NetworkRequest,
    TestCommand,
    UserInteraction,
}

impl EventSource {
    /// The human-readable label of the source.
    pub open spec fn label_text(self) -> Seq<char> {
        match self {
            EventSource::ProcessMonitor => "Process Monitor"@,
            EventSource::ExtensionHost => "Extension Host"@,
            EventSource::ModelProcess => "Model Process"@,
            EventSource::CommandExecution => "Command Execution"@,
            EventSource::FileOperation => "File Operation"@,
            EventSource::NetworkRequest => "Network Request"@,
            EventSource::TestCommand => "Test Command"@,
            EventSource::UserInteraction => "User Interaction"@,
        }
    }

    /// The identifier under which the source is written to a stored record.
    pub open spec fn name_text(self) -> Seq<char> {
        match self {
            EventSource::ProcessMonitor => "ProcessMonitor"@,
            EventSource::ExtensionHost => "ExtensionHost"@,
            EventSource::ModelProcess => "ModelProcess"@,
            EventSource::CommandExecution => "CommandExecution"@,
            EventSource::FileOperation => "FileOperation"@,
            EventSource::NetworkRequest => "NetworkRequest"@,
            EventSource::TestCommand => "TestCommand"@,
            EventSource::UserInteraction => "UserInteraction"@,
        }
    }

    /// The source that a stored identifier stands for; an unknown identifier
    /// stands for `ProcessMonitor`.
    pub open spec fn parse_name(text: Seq<char>) -> EventSource {
        if text == "ExtensionHost"@ {
            EventSource::ExtensionHost
        } else if text == "ModelProcess"@ {
            EventSource::ModelProcess
        } else if text == "CommandExecution"@ {
            EventSource::CommandExecution
        } else if text == "FileOperation"@ {
            EventSource::FileOperation
        } else if text == "NetworkRequest"@ {
            EventSource::NetworkRequest
        } else if text == "TestCommand"@ {
            EventSource::TestCommand
        } else if text == "UserInteraction"@ {
            EventSource::UserInteraction
        } else {
            EventSource::ProcessMonitor
        }
    }

    /// The source in words.
    pub fn label(&self) -> (text: String)
        ensures
            text@ == self.label_text(),
    {
        match self {
            EventSource::ProcessMonitor => String::from_str("Process Monitor"),
            EventSource::ExtensionHost => String::from_str("Extension Host"),
            EventSource::ModelProcess => String::from_str("Model Process"),
            EventSource::CommandExecution => String::from_str("Command Execution"),
            EventSource::FileOperation => String::from_str("File Operation"),
            EventSource::NetworkRequest => String::from_str("Network Request"),
            EventSource::TestCommand => String::from_str("Test Command"),
            EventSource::UserInteraction => String::from_str("User Interaction"),
        }
    }

    /// The identifier under which the source is written to a stored record.
    pub fn name(&self) -> (text: String)
        ensures
            text@ == self.name_text(),
    {
        match self {
            EventSource::ProcessMonitor => String::from_str("ProcessMonitor"),
            EventSource::ExtensionHost => String::from_str("ExtensionHost"),
            EventSource::ModelProcess => String::from_str("ModelProcess"),
            EventSource::CommandExecution => String::from_str("CommandExecution"),
            EventSource::FileOperation => String::from_str("FileOperation"),
            EventSource::NetworkRequest => String::from_str("NetworkRequest"),
            EventSource::TestCommand => String::from_str("TestCommand"),
            EventSource::UserInteraction => String::from_str("UserInteraction"),
        }
    }

    /// The source that a stored identifier stands for.
    pub fn from_name(text: &str) -> (source: EventSource)
        ensures
            source == EventSource::parse_name(text@),
    {
        if same_text(text, "ExtensionHost") {
            EventSource::ExtensionHost
        } else if same_text(text, "ModelProcess") {
            EventSource::ModelProcess
        } else if same_text(text, "CommandExecution") {
            EventSource::CommandExecution
        } else if same_text(text, "FileOperation") {
            EventSource::FileOperation
        } else if same_text(text, "NetworkRequest") {
            EventSource::NetworkRequest
        } else if same_text(text, "TestCommand") {
            EventSource::TestCommand
        } else if same_text(text, "UserInteraction") {
            EventSource::UserInteraction
        } else {
            EventSource::ProcessMonitor
        }
    }
}

/// The identifier under which a source is stored reads back as the source.
pub proof fn lemma_source_name_reads_back(source: EventSource)
    ensures
        EventSource::parse_name(source.name_text()) == source,
{
    reveal_strlit("ProcessMonitor");
    reveal_strlit("ExtensionHost");
    reveal_strlit("ModelProcess");
    reveal_strlit("CommandExecution");
    reveal_strlit("FileOperation");
    reveal_strlit("NetworkRequest");
    reveal_strlit("TestCommand");
    reveal_strlit("UserInteraction");
    assert("ModelProcess"@.len() == 12 && "CommandExecution"@.len() == 16);
    assert("TestCommand"@.len() == 11 && "UserInteraction"@.len() == 15);
    assert("ProcessMonitor"@[0] != "NetworkRequest"@[0]);
    assert("ExtensionHost"@[0] != "FileOperation"@[0]);
}

/// The kind of an interaction with a model.
#[derive(Debug, Clone, Copy, PartialEq, Eq, Structural)]
pub enum ModelInteractionType {
    Completion,
    ChatCompletion,
    CodeCompletion,
    Embedding,
    FineTuning,
    Other,
}

impl ModelInteractionType {
    /// The human-readable label of the kind.
    pub open spec fn label_text(self) -> Seq<char> {
        match self {
            ModelInteractionType::Completion => "Completion"@,
            ModelInteractionType::ChatCompletion => "Chat Completion"@,
            ModelInteractionType::CodeCompletion => "Code Completion"@,
            ModelInteractionType::Embedding => "Embedding"@,
            ModelInteractionType::FineTuning => "Fine-tuning"@,
            ModelInteractionType::Other => "Other"@,
        }
    }

    /// The kind in words.
    pub fn label(&self) -> (text: String)
        ensures
            text@ == self.label_text(),
    {
        match self {
            ModelInteractionType::Completion => String::from_str("Completion"),
            ModelInteractionType::ChatCompletion => String::from_str("Chat Completion"),
            ModelInteractionType::CodeCompletion => String::from_str("Code Completion"),
            ModelInteractionType::Embedding => String::from_str("Embedding"),
            ModelInteractionType::FineTuning => String::from_str("Fine-tuning"),
            ModelInteractionType::Other => String::from_str("Other"),
        }
    }
}

/// One observed occurrence.
///
/// `timestamp` counts microseconds since the Unix epoch (UTC), `duration_us`
/// is the elapsed time in microseconds, and `metadata` holds the structured
/// payload as JSON text, or nothing.
#[derive(Debug, Clone)]
pub struct LatencyEvent {
    pub id: Option<i64>,
    pub timestamp: i64,
    pub component_type: ComponentType,
    pub event_source: EventSource,
    pub duration_us: u64,
    pub description: String,
    pub metadata: Option<String>,
}

/// What an event holds, with its texts as sequences of characters.
pub struct EventView {
    pub id: Option<i64>,
    pub timestamp: i64,
    pub component_type: ComponentType,
    pub event_source: EventSource,
    pub duration_us: u64,
    pub description: Seq<char>,
    pub metadata: Option<Seq<char>>,
}

impl View for LatencyEvent {
    type V = EventView;

    open spec fn view(&self) -> EventView {
        EventView {
            id: self.id,
            timestamp: self.timestamp,
            component_type: self.component_type,
            event_source: self.event_source,
            duration_us: self.duration_us,
            description: self.description@,
            metadata: match self.metadata {
                Some(text) => Some(text@),
                None => None,
            },
        }
    }
}

/// The views of a sequence of events, in the same order.
pub open spec fn event_views(events: Seq<LatencyEvent>) -> Seq<EventView> {
    Seq::new(events.len(), |i: int| events[i]@)
}

impl LatencyEvent {
    /// A not yet persisted event captured at `timestamp`.
    pub fn at(
        timestamp: i64,
        component_type: ComponentType,
        event_source: EventSource,
        duration_us: u64,
        description: String,
    ) -> (event: LatencyEvent)
        ensures
            event == (LatencyEvent {
                id: None,
                timestamp,
                component_type,
                event_source,
                duration_us,
                description,
                metadata: None,
            }),
    {
        LatencyEvent {
            id: None,
            timestamp,
            component_type,
            event_source,
            duration_us,
            description,
            metadata: None,
        }
    }

    /// A not yet persisted event captured now.
    pub fn new(
        component_type: ComponentType,
        event_source: EventSource,
        duration_us: u64,
        description: String,
    ) -> (event: LatencyEvent)
        ensures
            event == (LatencyEvent {
                id: None,
                timestamp: event.timestamp,
                component_type,
                event_source,
                duration_us,
                description,
                metadata: None,
            }),
    {
        LatencyEvent::at(now_micros(), component_type, event_source, duration_us, description)
    }

    /// The same event carrying `metadata` as its payload.
    pub fn with_metadata(self, metadata: String) -> (event: LatencyEvent)
        ensures
            event == (LatencyEvent { metadata: Some(metadata), ..self }),
    {
        let mut event = self;
        event.metadata = Some(metadata);
        event
    }

    /// The same event with the identifier that persisting it gave; an event
    /// that already has one keeps it and is handed back as the error.
    pub fn with_id(self, id: i64) -> (outcome: Result<LatencyEvent, LatencyEvent>)
        ensures
            self.id is None ==> outcome == Ok::<LatencyEvent, LatencyEvent>(
                LatencyEvent { id: Some(id), ..self },
            ),
            self.id is Some ==> outcome == Err::<LatencyEvent, LatencyEvent>(self),
    {
        if self.id.is_none() {
            let mut event = self;
            event.id = Some(id);
            Ok(event)
        } else {
            Err(self)
        }
    }

    /// The elapsed time in whole milliseconds.
    pub fn duration_ms(&self) -> (ms: u64)
        ensures
            ms == self.duration_us / 1000,
    {
        self.duration_us / 1000
    }

    /// The elapsed time in microseconds.
    pub fn duration_us(&self) -> (us: u64)
        ensures
            us == self.duration_us,
    {
        self.duration_us
    }

    /// An independent copy that equals the event.
    pub fn duplicate(&self) -> (copy: LatencyEvent)
        ensures
            copy == *self,
    {
        LatencyEvent {
            id: self.id,
            timestamp: self.timestamp,
            component_type: self.component_type,
            event_source: self.event_source,
            duration_us: self.duration_us,
            description: self.description.clone(),
            metadata: copy_optional_text(&self.metadata),
        }
    }
}

/// The aggregate of one component class over the rolling window.
///
/// Durations are in microseconds; `events_per_second_milli` is the rate in
/// thousandths of an event per second; `last_updated` is an instant in
/// microseconds since the Unix epoch.
#[derive(Debug, Clone, Copy, PartialEq, Eq, Structural)]
pub struct PerformanceMetrics {
    pub component: ComponentType,
    pub total_events: u64,
    pub avg_duration_us: u64,
    pub min_duration_us: u64,
    pub max_duration_us: u64,
    pub p50_duration_us: u64,
    pub p95_duration_us: u64,
    pub p99_duration_us: u64,
    pub events_per_second_milli: u64,
    pub last_updated: i64,
}

impl PerformanceMetrics {
    /// The aggregate of a class of which nothing was seen, as of now.
    pub fn new(component: ComponentType) -> (metrics: PerformanceMetrics)
        ensures
            metrics == (PerformanceMetrics {
                component,
                total_events: 0,
                avg_duration_us: 0,
                min_duration_us: 0,
                max_duration_us: 0,
                p50_duration_us: 0,
                p95_duration_us: 0,
                p99_duration_us: 0,
                events_per_second_milli: 0,
                last_updated: metrics.last_updated,
            }),
    {
        PerformanceMetrics::empty(component, now_micros())
    }

    /// The aggregate of a class of which nothing was seen, as of
    /// `last_updated`.
    pub fn empty(component: ComponentType, last_updated: i64) -> (metrics: PerformanceMetrics)
        ensures
            metrics == (PerformanceMetrics {
                component,
                total_events: 0,
                avg_duration_us: 0,
                min_duration_us: 0,
                max_duration_us: 0,
                p50_duration_us: 0,
                p95_duration_us: 0,
                p99_duration_us: 0,
                events_per_second_milli: 0,
                last_updated,
            }),
    {
        PerformanceMetrics {
            component,
            total_events: 0,
            avg_duration_us: 0,
            min_duration_us: 0,
            max_duration_us: 0,
            p50_duration_us: 0,
            p95_duration_us: 0,
            p99_duration_us: 0,
            events_per_second_milli: 0,
            last_updated,
        }
    }
}

/// The state of the system as derived on demand.
///
/// `last_event_timestamp` is an instant in microseconds since the Unix
/// epoch; `cpu_usage_millipercent` is a processor share in thousandths of
/// a percent.
#[derive(Debug, Clone)]
pub struct SystemStatus {
    pub summary: String,
    pub total_events: u64,
    pub dropped_events: u64,
    pub active_monitors: Vec<String>,
    pub performance_metrics: Vec<PerformanceMetrics>,
    pub last_event_timestamp: Option<i64>,
    pub uptime_seconds: u64,
    pub memory_usage_mb: u64,
    pub cpu_usage_millipercent: u64,
}

impl SystemStatus {
    /// The status of a system that has not started yet.
    pub fn new() -> (status: SystemStatus)
        ensures
            status.summary@ == "System initializing"@,
            status.total_events == 0,
            status.dropped_events == 0,
            status.active_monitors.len() == 0,
            status.performance_metrics.len() == 0,
            status.last_event_timestamp is None,
            status.uptime_seconds == 0,
            status.memory_usage_mb == 0,
            status.cpu_usage_millipercent == 0,
    {
        SystemStatus {
            summary: String::from_str("System initializing"),
            total_events: 0,
            dropped_events: 0,
            active_monitors: Vec::new(),
            performance_metrics: Vec::new(),
            last_event_timestamp: None,
            uptime_seconds: 0,
            memory_usage_mb: 0,
            cpu_usage_millipercent: 0,
        }
    }
}

/// A rate in thousandths of a token per second: `tokens` tokens in
/// `duration_ms` milliseconds; zero where no time has passed.
pub open spec fn token_rate_milli(tokens: u32, duration_ms: u64) -> u64 {
    if duration_ms > 0 {
        (tokens as int * 1_000_000 / duration_ms as int) as u64
    } else {
        0
    }
}

fn token_rate(tokens: u32, duration_ms: u64) -> (rate: u64)
    ensures
        rate == token_rate_milli(tokens, duration_ms),
{
    if duration_ms > 0 {
        (tokens as u64) * 1_000_000 / duration_ms
    } else {
        0
    }
}

/// What generating a response cost.
///
/// `tokens_per_second_milli` is the rate in thousandths of a token per
/// second; `timestamp` is in microseconds since the Unix epoch.
#[derive(Debug, Clone)]
pub struct TokenMetrics {
    pub model_type: String,
    pub estimated_tokens: u32,
    pub generation_time_ms: u64,
    pub tokens_per_second_milli: u64,
    pub prompt_length: usize,
    pub response_length: usize,
    pub timestamp: i64,
}

impl TokenMetrics {
    /// The metrics of a generation that ended at `timestamp`.
    pub fn at(
        timestamp: i64,
        model_type: String,
        estimated_tokens: u32,
        generation_time_ms: u64,
        prompt_length: usize,
        response_length: usize,
    ) -> (metrics: TokenMetrics)
        ensures
            metrics == (TokenMetrics {
                model_type,
                estimated_tokens,
                generation_time_ms,
                tokens_per_second_milli: token_rate_milli(estimated_tokens, generation_time_ms),
                prompt_length,
                response_length,
                timestamp,
            }),
    {
        TokenMetrics {
            model_type,
            estimated_tokens,
            generation_time_ms,
            tokens_per_second_milli: token_rate(estimated_tokens, generation_time_ms),
            prompt_length,
            response_length,
            timestamp,
        }
    }

    /// The metrics of a generation that ended now.
    pub fn new(
        model_type: String,
        estimated_tokens: u32,
        generation_time_ms: u64,
        prompt_length: usize,
        response_length: usize,
    ) -> (metrics: TokenMetrics)
        ensures
            metrics == (TokenMetrics {
                model_type,
                estimated_tokens,
                generation_time_ms,
                tokens_per_second_milli: token_rate_milli(estimated_tokens, generation_time_ms),
                prompt_length,
                response_length,
                timestamp: metrics.timestamp,
            }),
    {
        TokenMetrics::at(
            now_micros(),
            model_type,
            estimated_tokens,
            generation_time_ms,
            prompt_length,
            response_length,
        )
    }
}

/// How long a command took.
///
/// The times are in microseconds since the Unix epoch;
/// `cpu_usage_millipercent` is a processor share in thousandths of a
/// percent.
#[derive(Debug, Clone)]
pub struct CommandLatency {
    pub command: String,
    pub working_directory: String,
    pub exit_code: i32,
    pub start_time: i64,
    pub end_time: i64,
    pub duration_ms: u64,
    pub cpu_usage_millipercent: u64,
    pub memory_usage_kb: u64,
}

impl CommandLatency {
    /// The latency of a command, with no resource usage known.
    pub fn new(
        command: String,
        working_directory: String,
        exit_code: i32,
        start_time: i64,
        end_time: i64,
        duration_ms: u64,
    ) -> (latency: CommandLatency)
        ensures
            latency == (CommandLatency {
                command,
                working_directory,
                exit_code,
                start_time,
                end_time,
                duration_ms,
                cpu_usage_millipercent: 0,
                memory_usage_kb: 0,
            }),
    {
        CommandLatency {
            command,
            working_directory,
            exit_code,
            start_time,
            end_time,
            duration_ms,
            cpu_usage_millipercent: 0,
            memory_usage_kb: 0,
        }
    }

    /// The same latency with the resource usage given.
    pub fn with_resource_usage(self, cpu_millipercent: u64, memory_kb: u64) -> (latency:
        CommandLatency)
        ensures
            latency == (CommandLatency {
                cpu_usage_millipercent: cpu_millipercent,
                memory_usage_kb: memory_kb,
                ..self
            }),
    {
        let mut latency = self;
        latency.cpu_usage_millipercent = cpu_millipercent;
        latency.memory_usage_kb = memory_kb;
        latency
    }
}

/// One interaction with a model.
///
/// `timestamp` is in microseconds since the Unix epoch.
#[derive(Debug, Clone)]
pub struct ModelInteraction {
    pub model_type: String,
    pub interaction_type: ModelInteractionType,
    pub prompt_tokens: Option<u32>,
    pub completion_tokens: Option<u32>,
    pub total_tokens: Option<u32>,
    pub duration_ms: u64,
    pub success: bool,
    pub error_message: Option<String>,
    pub timestamp: i64,
    pub context_length: Option<usize>,
}

impl ModelInteraction {
    /// An interaction that ended at `timestamp`, with no token counts.
    pub fn at(
        timestamp: i64,
        model_type: String,
        interaction_type: ModelInteractionType,
        duration_ms: u64,
        success: bool,
    ) -> (interaction: ModelInteraction)
        ensures
            interaction == (ModelInteraction {
                model_type,
                interaction_type,
                prompt_tokens: None,
                completion_tokens: None,
                total_tokens: None,
                duration_ms,
                success,
                error_message: None,
                timestamp,
                context_length: None,
            }),
    {
        ModelInteraction {
            model_type,
            interaction_type,
            prompt_tokens: None,
            completion_tokens: None,
            total_tokens: None,
            duration_ms,
            success,
            error_message: None,
            timestamp,
            context_length: None,
        }
    }

    /// An interaction that ended now, with no token counts.
    pub fn new(
        model_type: String,
        interaction_type: ModelInteractionType,
        duration_ms: u64,
        success: bool,
    ) -> (interaction: ModelInteraction)
        ensures
            interaction == (ModelInteraction {
                model_type,
                interaction_type,
                prompt_tokens: None,
                completion_tokens: None,
                total_tokens: None,
                duration_ms,
                success,
                error_message: None,
                timestamp: interaction.timestamp,
                context_length: None,
            }),
    {
        ModelInteraction::at(now_micros(), model_type, interaction_type, duration_ms, success)
    }

    /// The rate of the interaction in thousandths of a token per second,
    /// where the total of tokens is known and time has passed.
    pub fn tokens_per_second(&self) -> (rate: Option<u64>)
        ensures
            rate == (match self.total_tokens {
                Some(tokens) => if self.duration_ms > 0 {
                    Some(token_rate_milli(tokens, self.duration_ms))
                } else {
                    None
                },
                None => None,
            }),
    {
        match self.total_tokens {
            Some(tokens) => {
                if self.duration_ms > 0 {
                    Some(token_rate(tokens, self.duration_ms))
                } else {
                    None
                }
            },
            None => None,
        }
    }
}

} // verus!
