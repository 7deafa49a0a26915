//! Samplers: the rules that classify processes, the events one tick emits,
//! and the state machine a sampler runs through.

use vstd::prelude::*;
use vstd::string::*;
use crate::models::{ComponentType, EventSource, EventView, LatencyEvent, event_views};
use crate::text::{
    contains_text, decimal, decimal_text, digit_text, is_infix, join, joined, lower_text,
    lowercase, same_text, texts,
};

verus! {

/// One row of the process table, as plain values.
///
/// `cpu_millipercent` is the processor share in thousandths of a percent.
#[derive(Debug, Clone)]
pub struct ProcessInfo {
    pub pid: u32,
    pub name: String,
    pub cmd: Vec<String>,
    pub cpu_millipercent: u64,
    pub memory_bytes: u64,
}

/// The attribute of a process that a pattern looks at.
#[derive(Debug, Clone, Copy, PartialEq, Eq, Structural)]
pub enum MatchField {
    /// The process name.
    Name,
    /// The arguments joined by single spaces.
    CommandLine,
    /// Any one argument.
    Argument,
}

/// How a pattern's text is held against the attribute.
#[derive(Debug, Clone, Copy, PartialEq, Eq, Structural)]
pub enum MatchKind {
    Equals,
    Contains,
}

/// One test on one attribute of a process.
#[derive(Debug, Clone)]
pub struct Pattern {
    pub field: MatchField,
    pub kind: MatchKind,
    pub text: String,
    /// Whether the attribute is put in lower case before the test.
    pub fold_case: bool,
}

/// A classification rule: a process that meets any of the patterns, and the
/// processor threshold if there is one, belongs to `component`.
#[derive(Debug, Clone)]
pub struct Rule {
    pub patterns: Vec<Pattern>,
    pub component: ComponentType,
    pub source: EventSource,
    /// What the description of an emitted event starts with.
    pub title: String,
    /// Only processes whose processor share exceeds this are reported.
    pub cpu_above: Option<u64>,
    /// Whether the description names the pattern that matched.
    pub show_pattern: bool,
    /// Whether the description reports the memory in use.
    pub show_memory: bool,
}

/// A text as a pattern sees it: in lower case if the pattern folds case.
pub open spec fn folded(text: Seq<char>, fold_case: bool) -> Seq<char> {
    if fold_case {
        lower_text(text)
    } else {
        text
    }
}

/// Whether a candidate text meets a pattern text.
pub open spec fn test_text(kind: MatchKind, candidate: Seq<char>, pattern: Seq<char>) -> bool {
    match kind {
        MatchKind::Equals => candidate == pattern,
        MatchKind::Contains => is_infix(pattern, candidate),
    }
}

/// Whether argument `i` of the process meets the pattern.
pub open spec fn argument_matches(pattern: Pattern, process: ProcessInfo, i: int) -> bool {
    test_text(pattern.kind, folded(process.cmd[i]@, pattern.fold_case), pattern.text@)
}

/// Whether the process meets the pattern.
pub open spec fn pattern_matches(pattern: Pattern, process: ProcessInfo) -> bool {
    match pattern.field {
        MatchField::Name => test_text(
            pattern.kind,
            folded(process.name@, pattern.fold_case),
            pattern.text@,
        ),
        MatchField::CommandLine => test_text(
            pattern.kind,
            folded(joined(texts(process.cmd@), " "@), pattern.fold_case),
            pattern.text@,
        ),
        MatchField::Argument => exists|i: int|
            0 <= i < process.cmd.len() && #[trigger] argument_matches(pattern, process, i),
    }
}

/// The first pattern at or after `start` that the process meets.
pub open spec fn first_match_from(patterns: Seq<Pattern>, process: ProcessInfo, start: int)
    -> Option<int>
    decreases patterns.len() - start,
{
    if start < 0 || start >= patterns.len() {
        None
    } else if pattern_matches(patterns[start], process) {
        Some(start)
    } else {
        first_match_from(patterns, process, start + 1)
    }
}

/// Whether the rule reports the process.
pub open spec fn rule_applies(rule: Rule, process: ProcessInfo) -> bool {
    &&& first_match_from(rule.patterns@, process, 0) is Some
    &&& match rule.cpu_above {
        Some(threshold) => process.cpu_millipercent > threshold,
        None => true,
    }
}

/// A processor share in tenths of a percent, rounded to the nearest tenth.
pub open spec fn cpu_tenths(cpu_millipercent: u64) -> nat {
    (cpu_millipercent / 100 + if cpu_millipercent % 100 >= 50 {
        1int
    } else {
        0int
    }) as nat
}

/// A processor share in percent with one decimal place.
pub open spec fn percent_text(cpu_millipercent: u64) -> Seq<char> {
    decimal_text(cpu_tenths(cpu_millipercent) / 10) + "."@ + digit_text(
        cpu_tenths(cpu_millipercent) % 10,
    )
}

/// The description of the event that `rule` emits for `process`, where
/// pattern `matched` is the first that the process meets.
pub open spec fn description_text(rule: Rule, process: ProcessInfo, matched: int) -> Seq<char> {
    rule.title@ + (if rule.show_pattern {
        " ("@ + rule.patterns[matched].text@ + ")"@
    } else {
        Seq::empty()
    }) + " "@ + decimal_text(process.pid as nat) + " - CPU: "@ + percent_text(
        process.cpu_millipercent,
    ) + "%"@ + (if rule.show_memory {
        ", Memory: "@ + decimal_text((process.memory_bytes / 1024) as nat) + "KB"@
    } else {
        Seq::empty()
    })
}

/// The event that `rule` emits for a process it applies to.
pub open spec fn emitted_event(rule: Rule, process: ProcessInfo, elapsed_us: u64, stamp: i64)
    -> EventView {
    EventView {
        id: None,
        timestamp: stamp,
        component_type: rule.component,
        event_source: rule.source,
        duration_us: elapsed_us,
        description: description_text(
            rule,
            process,
            first_match_from(rule.patterns@, process, 0).unwrap(),
        ),
        metadata: None,
    }
}

/// The events that one rule emits over a process table: one for each
/// process it applies to, in table order.
pub open spec fn rule_events(rule: Rule, processes: Seq<ProcessInfo>, elapsed_us: u64, stamp: i64)
    -> Seq<EventView>
    decreases processes.len(),
{
    if processes.len() == 0 {
        Seq::empty()
    } else {
        let before = rule_events(rule, processes.drop_last(), elapsed_us, stamp);
        if rule_applies(rule, processes.last()) {
            before.push(emitted_event(rule, processes.last(), elapsed_us, stamp))
        } else {
            before
        }
    }
}

/// The events of one tick: those of each rule, rule after rule.
pub open spec fn scan_events(
    rules: Seq<Rule>,
    processes: Seq<ProcessInfo>,
    elapsed_us: u64,
    stamp: i64,
) -> Seq<EventView>
    decreases rules.len(),
{
    if rules.len() == 0 {
        Seq::empty()
    } else {
        scan_events(rules.drop_last(), processes, elapsed_us, stamp) + rule_events(
            rules.last(),
            processes,
            elapsed_us,
            stamp,
        )
    }
}

fn fold(text: &str, fold_case: bool) -> (out: String)
    ensures
        out@ == folded(text@, fold_case),
{
    if fold_case {
        lowercase(text)
    } else {
        String::from_str(text)
    }
}

fn test(kind: MatchKind, candidate: &str, pattern: &str) -> (met: bool)
    ensures
        met == test_text(kind, candidate@, pattern@),
{
    match kind {
        MatchKind::Equals => same_text(candidate, pattern),
        MatchKind::Contains => contains_text(candidate, pattern),
    }
}

impl Pattern {
    /// A pattern met by a process whose lower-cased name contains `text`.
    pub fn name_contains(text: &str) -> (pattern: Pattern)
        ensures
            pattern.field == MatchField::Name,
            pattern.kind == MatchKind::Contains,
            pattern.text@ == text@,
            pattern.fold_case,
    {
        Pattern {
            field: MatchField::Name,
            kind: MatchKind::Contains,
            text: String::from_str(text),
            fold_case: true,
        }
    }

    /// A pattern met by a process whose lower-cased name is `text`.
    pub fn name_equals(text: &str) -> (pattern: Pattern)
        ensures
            pattern.field == MatchField::Name,
            pattern.kind == MatchKind::Equals,
            pattern.text@ == text@,
            pattern.fold_case,
    {
        Pattern {
            field: MatchField::Name,
            kind: MatchKind::Equals,
            text: String::from_str(text),
            fold_case: true,
        }
    }

    /// A pattern met by a process one of whose arguments contains `text`,
    /// after lower-casing the argument if `fold_case` is set.
    pub fn argument_contains(text: &str, fold_case: bool) -> (pattern: Pattern)
        ensures
            pattern.field == MatchField::Argument,
            pattern.kind == MatchKind::Contains,
            pattern.text@ == text@,
            pattern.fold_case == fold_case,
    {
        Pattern {
            field: MatchField::Argument,
            kind: MatchKind::Contains,
            text: String::from_str(text),
            fold_case,
        }
    }

    /// A pattern met by a process whose lower-cased command line contains
    /// `text`.
    pub fn command_line_contains(text: &str) -> (pattern: Pattern)
        ensures
            pattern.field == MatchField::CommandLine,
            pattern.kind == MatchKind::Contains,
            pattern.text@ == text@,
            pattern.fold_case,
    {
        Pattern {
            field: MatchField::CommandLine,
            kind: MatchKind::Contains,
            text: String::from_str(text),
            fold_case: true,
        }
    }

    /// Whether the process meets the pattern.
    pub fn matches(&self, process: &ProcessInfo) -> (met: bool)
        ensures
            met == pattern_matches(*self, *process),
    {
        match self.field {
            MatchField::Name => {
                let candidate = fold(process.name.as_str(), self.fold_case);
                test(self.kind, candidate.as_str(), self.text.as_str())
            },
            MatchField::CommandLine => {
                let line = join(&process.cmd, " ");
                let candidate = fold(line.as_str(), self.fold_case);
                test(self.kind, candidate.as_str(), self.text.as_str())
            },
            MatchField::Argument => {
                let mut i: usize = 0;
                while i < process.cmd.len()
                    invariant
                        i <= process.cmd.len(),
                        self.field == MatchField::Argument,
                        forall|j: int| 0 <= j < i ==> !argument_matches(*self, *process, j),
                    decreases process.cmd.len() - i,
                {
                    let candidate = fold(process.cmd[i].as_str(), self.fold_case);
                    if test(self.kind, candidate.as_str(), self.text.as_str()) {
                        assert(argument_matches(*self, *process, i as int));
                        return true;
                    }
                    i = i + 1;
                }
                false
            },
        }
    }
}

fn percent(cpu_millipercent: u64) -> (out: String)
    ensures
        out@ == percent_text(cpu_millipercent),
{
    let round_up: u64 = if cpu_millipercent % 100 >= 50 {
        1
    } else {
        0
    };
    let tenths: u64 = cpu_millipercent / 100 + round_up;
    let mut out = decimal(tenths / 10);
    out.append(".");
    let last = decimal(tenths % 10);
    out.append(last.as_str());
    out
}

impl Rule {
    /// The first pattern of the rule that the process meets.
    pub fn first_match(&self, process: &ProcessInfo) -> (found: Option<usize>)
        ensures
            match found {
                Some(i) => i < self.patterns.len() && first_match_from(
                    self.patterns@,
                    *process,
                    0,
                ) == Some(i as int),
                None => first_match_from(self.patterns@, *process, 0) is None,
            },
    {
        let mut i: usize = 0;
        while i < self.patterns.len()
            invariant
                i <= self.patterns.len(),
                first_match_from(self.patterns@, *process, 0) == first_match_from(
                    self.patterns@,
                    *process,
                    i as int,
                ),
            decreases self.patterns.len() - i,
        {
            if self.patterns[i].matches(process) {
                return Some(i);
            }
            i = i + 1;
        }
        None
    }

    /// The description of the event emitted for `process`, which meets
    /// pattern `matched` of the rule.
    pub fn describe(&self, process: &ProcessInfo, matched: usize) -> (out: String)
        requires
            matched < self.patterns.len(),
        ensures
            out@ == description_text(*self, *process, matched as int),
    {
        let mut out = self.title.clone();
        if self.show_pattern {
            out.append(" (");
            out.append(self.patterns[matched].text.as_str());
            out.append(")");
        }
        out.append(" ");
        let pid = decimal(process.pid as u64);
        out.append(pid.as_str());
        out.append(" - CPU: ");
        let cpu = percent(process.cpu_millipercent);
        out.append(cpu.as_str());
        out.append("%");
        if self.show_memory {
            out.append(", Memory: ");
            let memory = decimal(process.memory_bytes / 1024);
            out.append(memory.as_str());
            out.append("KB");
        }
        out
    }

    /// The event for `process` if the rule reports it.
    pub fn event_for(&self, process: &ProcessInfo, elapsed_us: u64, stamp: i64) -> (event: Option<
        LatencyEvent,
    >)
        ensures
            match event {
                Some(e) => rule_applies(*self, *process) && e@ == emitted_event(
                    *self,
                    *process,
                    elapsed_us,
                    stamp,
                ),
                None => !rule_applies(*self, *process),
            },
    {
        let busy = match self.cpu_above {
            Some(threshold) => process.cpu_millipercent > threshold,
            None => true,
        };
        if !busy {
            return None;
        }
        match self.first_match(process) {
            Some(matched) => {
                let description = self.describe(process, matched);
                Some(
                    LatencyEvent::at(
                        stamp,
                        self.component,
                        self.source,
                        elapsed_us,
                        description,
                    ),
                )
            },
            None => None,
        }
    }
}

/// The events of one tick over a process table: for each rule in turn, one
/// event for each process that the rule reports, in table order.
pub fn classify(rules: &Vec<Rule>, processes: &Vec<ProcessInfo>, elapsed_us: u64, stamp: i64) -> (events:
    Vec<LatencyEvent>)
    ensures
        event_views(events@) == scan_events(rules@, processes@, elapsed_us, stamp),
{
    let mut events: Vec<LatencyEvent> = Vec::new();
    let mut r: usize = 0;
    while r < rules.len()
        invariant
            r <= rules.len(),
            event_views(events@) == scan_events(rules@.take(r as int), processes@, elapsed_us, stamp),
        decreases rules.len() - r,
    {
        let ghost done = event_views(events@);
        let mut p: usize = 0;
        while p < processes.len()
            invariant
                r < rules.len(),
                p <= processes.len(),
                event_views(events@) == done + rule_events(
                    rules[r as int],
                    processes@.take(p as int),
                    elapsed_us,
                    stamp,
                ),
            decreases processes.len() - p,
        {
            let ghost before = events@;
            let emitted = rules[r].event_for(&processes[p], elapsed_us, stamp);
            proof {
                assert(processes@.take(p as int + 1).drop_last() =~= processes@.take(p as int));
            }
            match emitted {
                Some(event) => {
                    events.push(event);
                    proof {
                        assert(event_views(events@) =~= event_views(before).push(event@));
                    }
                },
                None => {},
            }
            p = p + 1;
        }
        proof {
            assert(processes@.take(processes.len() as int) =~= processes@);
            assert(rules@.take(r as int + 1).drop_last() =~= rules@.take(r as int));
        }
        r = r + 1;
    }
    proof {
        assert(rules@.take(rules.len() as int) =~= rules@);
    }
    events
}

/// Whether a pattern is the test described by the other arguments.
pub open spec fn pattern_is(
    pattern: Pattern,
    field: MatchField,
    kind: MatchKind,
    text: Seq<char>,
    fold_case: bool,
) -> bool {
    &&& pattern.field == field
    &&& pattern.kind == kind
    &&& pattern.text@ == text
    &&& pattern.fold_case == fold_case
}

/// Whether a rule has the given head: all of it but the patterns.
pub open spec fn rule_is(
    rule: Rule,
    component: ComponentType,
    source: EventSource,
    title: Seq<char>,
    cpu_above: Option<u64>,
    show_pattern: bool,
    show_memory: bool,
) -> bool {
    &&& rule.component == component
    &&& rule.source == source
    &&& rule.title@ == title
    &&& rule.cpu_above == cpu_above
    &&& rule.show_pattern == show_pattern
    &&& rule.show_memory == show_memory
}

/// Whether the rules are those of the editor sampler.
pub open spec fn vscode_table(rules: Seq<Rule>) -> bool {
    &&& rules.len() == 2
    &&& rule_is(
        rules[0],
        ComponentType::VSCode,
        EventSource::ProcessMonitor,
        "Process"@,
        None,
        false,
        true,
    )
    &&& rules[0].patterns@.len() == 3
    &&& pattern_is(rules[0].patterns[0], MatchField::Name, MatchKind::Contains, "code-server"@, true)
    &&& pattern_is(rules[0].patterns[1], MatchField::Name, MatchKind::Contains, "code.exe"@, true)
    &&& pattern_is(rules[0].patterns[2], MatchField::Name, MatchKind::Equals, "code"@, true)
    &&& rule_is(
        rules[1],
        ComponentType::VSCodeExtension,
        EventSource::ExtensionHost,
        "Extension Host"@,
        None,
        false,
        false,
    )
    &&& rules[1].patterns@.len() == 2
    &&& pattern_is(
        rules[1].patterns[0],
        MatchField::Name,
        MatchKind::Contains,
        "extensionhost"@,
        true,
    )
    &&& pattern_is(
        rules[1].patterns[1],
        MatchField::Argument,
        MatchKind::Contains,
        "extensionHost"@,
        false,
    )
}

/// The rules of the editor sampler: the editor itself by its process name,
/// and its extension hosts by name or by an argument.
pub fn vscode_rules() -> (rules: Vec<Rule>)
    ensures
        vscode_table(rules@),
{
    let mut editor: Vec<Pattern> = Vec::new();
    editor.push(Pattern::name_contains("code-server"));
    editor.push(Pattern::name_contains("code.exe"));
    editor.push(Pattern::name_equals("code"));
    let mut host: Vec<Pattern> = Vec::new();
    host.push(Pattern::name_contains("extensionhost"));
    host.push(Pattern::argument_contains("extensionHost", false));
    let mut rules: Vec<Rule> = Vec::new();
    rules.push(
        Rule {
            patterns: editor,
            component: ComponentType::VSCode,
            source: EventSource::ProcessMonitor,
            title: String::from_str("Process"),
            cpu_above: None,
            show_pattern: false,
            show_memory: true,
        },
    );
    rules.push(
        Rule {
            patterns: host,
            component: ComponentType::VSCodeExtension,
            source: EventSource::ExtensionHost,
            title: String::from_str("Extension Host"),
            cpu_above: None,
            show_pattern: false,
            show_memory: false,
        },
    );
    rules
}

/// Whether the rules are those of the model sampler.
pub open spec fn model_table(rules: Seq<Rule>) -> bool {
    &&& rules.len() == 2
    &&& rule_is(
        rules[0],
        ComponentType::GitHubCopilot,
        EventSource::ModelProcess,
        "Copilot Process"@,
        None,
        false,
        false,
    )
    &&& rules[0].patterns@.len() == 3
    &&& pattern_is(rules[0].patterns[0], MatchField::Name, MatchKind::Contains, "copilot"@, true)
    &&& pattern_is(
        rules[0].patterns[1],
        MatchField::CommandLine,
        MatchKind::Contains,
        "github.copilot"@,
        true,
    )
    &&& pattern_is(
        rules[0].patterns[2],
        MatchField::CommandLine,
        MatchKind::Contains,
        "copilot-agent"@,
        true,
    )
    &&& rule_is(
        rules[1],
        ComponentType::LocalModel,
        EventSource::ModelProcess,
        "Local Model"@,
        None,
        true,
        false,
    )
    &&& rules[1].patterns@.len() == 8
    &&& pattern_is(rules[1].patterns[0], MatchField::Name, MatchKind::Contains, "ollama"@, true)
    &&& pattern_is(rules[1].patterns[1], MatchField::Argument, MatchKind::Contains, "ollama"@, true)
    &&& pattern_is(rules[1].patterns[2], MatchField::Name, MatchKind::Contains, "llama"@, true)
    &&& pattern_is(rules[1].patterns[3], MatchField::Argument, MatchKind::Contains, "llama"@, true)
    &&& pattern_is(rules[1].patterns[4], MatchField::Name, MatchKind::Contains, "gpt4all"@, true)
    &&& pattern_is(rules[1].patterns[5], MatchField::Argument, MatchKind::Contains, "gpt4all"@, true)
    &&& pattern_is(rules[1].patterns[6], MatchField::Name, MatchKind::Contains, "localai"@, true)
    &&& pattern_is(rules[1].patterns[7], MatchField::Argument, MatchKind::Contains, "localai"@, true)
}

/// The rules of the model sampler: the remote assistant by name or command
/// line, and local model runtimes by name or by an argument.
pub fn model_rules() -> (rules: Vec<Rule>)
    ensures
        model_table(rules@),
{
    let mut remote: Vec<Pattern> = Vec::new();
    remote.push(Pattern::name_contains("copilot"));
    remote.push(Pattern::command_line_contains("github.copilot"));
    remote.push(Pattern::command_line_contains("copilot-agent"));
    let mut local: Vec<Pattern> = Vec::new();
    local.push(Pattern::name_contains("ollama"));
    local.push(Pattern::argument_contains("ollama", true));
    local.push(Pattern::name_contains("llama"));
    local.push(Pattern::argument_contains("llama", true));
    local.push(Pattern::name_contains("gpt4all"));
    local.push(Pattern::argument_contains("gpt4all", true));
    local.push(Pattern::name_contains("localai"));
    local.push(Pattern::argument_contains("localai", true));
    let mut rules: Vec<Rule> = Vec::new();
    rules.push(
        Rule {
            patterns: remote,
            component: ComponentType::GitHubCopilot,
            source: EventSource::ModelProcess,
            title: String::from_str("Copilot Process"),
            cpu_above: None,
            show_pattern: false,
            show_memory: false,
        },
    );
    rules.push(
        Rule {
            patterns: local,
            component: ComponentType::LocalModel,
            source: EventSource::ModelProcess,
            title: String::from_str("Local Model"),
            cpu_above: None,
            show_pattern: true,
            show_memory: false,
        },
    );
    rules
}

/// The processor share, in thousandths of a percent, that a terminal must
/// exceed to be reported.
pub const ACTIVE_TERMINAL_CPU: u64 = 100;

/// Whether the rules are those of the terminal sampler.
pub open spec fn terminal_table(rules: Seq<Rule>) -> bool {
    &&& rules.len() == 1
    &&& rule_is(
        rules[0],
        ComponentType::Terminal,
        EventSource::ProcessMonitor,
        "Terminal"@,
        Some(ACTIVE_TERMINAL_CPU),
        false,
        false,
    )
    &&& rules[0].patterns@.len() == 7
    &&& pattern_is(rules[0].patterns[0], MatchField::Name, MatchKind::Equals, "bash"@, true)
    &&& pattern_is(rules[0].patterns[1], MatchField::Name, MatchKind::Equals, "zsh"@, true)
    &&& pattern_is(rules[0].patterns[2], MatchField::Name, MatchKind::Equals, "fish"@, true)
    &&& pattern_is(rules[0].patterns[3], MatchField::Name, MatchKind::Equals, "sh"@, true)
    &&& pattern_is(rules[0].patterns[4], MatchField::Name, MatchKind::Contains, "terminal"@, true)
    &&& pattern_is(
        rules[0].patterns[5],
        MatchField::Name,
        MatchKind::Contains,
        "gnome-terminal"@,
        true,
    )
    &&& pattern_is(rules[0].patterns[6], MatchField::Name, MatchKind::Contains, "konsole"@, true)
}

/// The rule of the terminal sampler: shells and terminal emulators by name,
/// reported only while they use the processor.
pub fn terminal_rules() -> (rules: Vec<Rule>)
    ensures
        terminal_table(rules@),
{
    let mut shells: Vec<Pattern> = Vec::new();
    shells.push(Pattern::name_equals("bash"));
    shells.push(Pattern::name_equals("zsh"));
    shells.push(Pattern::name_equals("fish"));
    shells.push(Pattern::name_equals("sh"));
    shells.push(Pattern::name_contains("terminal"));
    shells.push(Pattern::name_contains("gnome-terminal"));
    shells.push(Pattern::name_contains("konsole"));
    let mut rules: Vec<Rule> = Vec::new();
    rules.push(
        Rule {
            patterns: shells,
            component: ComponentType::Terminal,
            source: EventSource::ProcessMonitor,
            title: String::from_str("Terminal"),
            cpu_above: Some(ACTIVE_TERMINAL_CPU),
            show_pattern: false,
            show_memory: false,
        },
    );
    rules
}

/// Where a sampler stands in its cycle.
#[derive(Debug, Clone, Copy, PartialEq, Eq, Structural)]
pub enum SamplerState {
    Idle,
    Scanning,
    Classifying,
    Emitting,
    Sleeping,
    Terminated,
}

/// What happened to a sampler.
#[derive(Debug, Clone, Copy, PartialEq, Eq, Structural)]
pub enum SamplerInput {
    /// The sampler was started.
    Start,
    /// The process table was read.
    ScanCompleted,
    /// The process table could not be read.
    ScanFailed,
    /// The processes were classified.
    Classified,
    /// The events were handed to the bus.
    Emitted,
    /// The interval between two ticks has passed.
    SleepElapsed,
    /// The sampler is asked to stop.
    Shutdown,
}

/// What a sampler is to do next.
#[derive(Debug, Clone, Copy, PartialEq, Eq, Structural)]
pub enum SamplerAction {
    Scan,
    Classify,
    Emit,
    Sleep,
    Stop,
    /// Nothing changes: go on with what is under way.
    Stay,
}

/// A sampler's state, whether a stop is pending, and the action to take.
pub struct Transition {
    pub state: SamplerState,
    pub stopping: bool,
    pub action: SamplerAction,
}

/// The state machine of a sampler. A stop request ends an idle or sleeping
/// sampler at once; one in the middle of a tick finishes the tick first. A
/// failed scan skips the tick. An input that the state does not expect
/// changes nothing.
pub open spec fn next_transition(state: SamplerState, stopping: bool, input: SamplerInput)
    -> Transition {
    let rest = if stopping {
        Transition { state: SamplerState::Terminated, stopping, action: SamplerAction::Stop }
    } else {
        Transition { state: SamplerState::Sleeping, stopping, action: SamplerAction::Sleep }
    };
    match (state, input) {
        (SamplerState::Terminated, _) => Transition { state, stopping, action: SamplerAction::Stop },
        (SamplerState::Idle, SamplerInput::Shutdown) | (
            SamplerState::Sleeping,
            SamplerInput::Shutdown,
        ) => Transition {
            state: SamplerState::Terminated,
            stopping: true,
            action: SamplerAction::Stop,
        },
        (_, SamplerInput::Shutdown) => Transition {
            state,
            stopping: true,
            action: SamplerAction::Stay,
        },
        (SamplerState::Idle, SamplerInput::Start) | (
            SamplerState::Sleeping,
            SamplerInput::SleepElapsed,
        ) => Transition { state: SamplerState::Scanning, stopping, action: SamplerAction::Scan },
        (SamplerState::Scanning, SamplerInput::ScanCompleted) => Transition {
            state: SamplerState::Classifying,
            stopping,
            action: SamplerAction::Classify,
        },
        (SamplerState::Scanning, SamplerInput::ScanFailed) => rest,
        (SamplerState::Classifying, SamplerInput::Classified) => Transition {
            state: SamplerState::Emitting,
            stopping,
            action: SamplerAction::Emit,
        },
        (SamplerState::Emitting, SamplerInput::Emitted) => rest,
        _ => Transition { state, stopping, action: SamplerAction::Stay },
    }
}

/// The later of two instants.
pub open spec fn later(a: i64, b: i64) -> i64 {
    if a >= b {
        a
    } else {
        b
    }
}

/// A sampler: a named rule set polled at a fixed interval.
#[derive(Debug, Clone)]
pub struct Sampler {
    pub name: String,
    pub rules: Vec<Rule>,
    pub interval_ms: u64,
    pub state: SamplerState,
    /// Whether a stop was requested while a tick was under way.
    pub stopping: bool,
    /// The timestamp of the latest tick that emitted; no later tick stamps
    /// its events earlier.
    pub last_stamp: i64,
}

impl Sampler {
    /// An idle sampler; `None` if the interval is zero.
    pub fn new(name: String, rules: Vec<Rule>, interval_ms: u64) -> (sampler: Option<Sampler>)
        ensures
            interval_ms == 0 <==> sampler is None,
            sampler matches Some(s) ==> s == (Sampler {
                name,
                rules,
                interval_ms,
                state: SamplerState::Idle,
                stopping: false,
                last_stamp: i64::MIN,
            }),
    {
        if interval_ms == 0 {
            None
        } else {
            Some(
                Sampler {
                    name,
                    rules,
                    interval_ms,
                    state: SamplerState::Idle,
                    stopping: false,
                    last_stamp: i64::MIN,
                },
            )
        }
    }

    /// Takes one input and says what to do next.
    pub fn step(&mut self, input: SamplerInput) -> (action: SamplerAction)
        ensures
            final(self).state == next_transition(old(self).state, old(self).stopping, input).state,
            final(self).stopping == next_transition(
                old(self).state,
                old(self).stopping,
                input,
            ).stopping,
            action == next_transition(old(self).state, old(self).stopping, input).action,
            final(self).name == old(self).name,
            final(self).rules == old(self).rules,
            final(self).interval_ms == old(self).interval_ms,
            final(self).last_stamp == old(self).last_stamp,
    {
        let state = self.state;
        let stopping = self.stopping;
        let (after, action) = match (state, input) {
            (SamplerState::Terminated, _) => (state, SamplerAction::Stop),
            (SamplerState::Idle, SamplerInput::Shutdown) | (
                SamplerState::Sleeping,
                SamplerInput::Shutdown,
            ) => {
                self.stopping = true;
                (SamplerState::Terminated, SamplerAction::Stop)
            },
            (_, SamplerInput::Shutdown) => {
                self.stopping = true;
                (state, SamplerAction::Stay)
            },
            (SamplerState::Idle, SamplerInput::Start) | (
                SamplerState::Sleeping,
                SamplerInput::SleepElapsed,
            ) => (SamplerState::Scanning, SamplerAction::Scan),
            (SamplerState::Scanning, SamplerInput::ScanCompleted) => (
                SamplerState::Classifying,
                SamplerAction::Classify,
            ),
            (SamplerState::Scanning, SamplerInput::ScanFailed) | (
                SamplerState::Emitting,
                SamplerInput::Emitted,
            ) => {
                if stopping {
                    (SamplerState::Terminated, SamplerAction::Stop)
                } else {
                    (SamplerState::Sleeping, SamplerAction::Sleep)
                }
            },
            (SamplerState::Classifying, SamplerInput::Classified) => (
                SamplerState::Emitting,
                SamplerAction::Emit,
            ),
            _ => (state, SamplerAction::Stay),
        };
        self.state = after;
        action
    }

    /// Whether a tick may begin: the sampler is idle or has slept.
    pub open spec fn ready(self) -> bool {
        self.state == SamplerState::Idle || self.state == SamplerState::Sleeping
    }

    /// Begins a tick if the sampler is idle or asleep, and says whether the
    /// process table is to be read now.
    pub fn begin_tick(&mut self) -> (scan: bool)
        ensures
            scan == old(self).ready(),
            final(self).state == if scan {
                SamplerState::Scanning
            } else {
                old(self).state
            },
            *final(self) == (Sampler { state: final(self).state, ..*old(self) }),
    {
        let action = match self.state {
            SamplerState::Idle => self.step(SamplerInput::Start),
            SamplerState::Sleeping => self.step(SamplerInput::SleepElapsed),
            _ => SamplerAction::Stay,
        };
        action == SamplerAction::Scan
    }

    /// The state in which a tick leaves the sampler.
    pub open spec fn after_tick(self) -> SamplerState {
        if self.state != SamplerState::Scanning {
            self.state
        } else if self.stopping {
            SamplerState::Terminated
        } else {
            SamplerState::Sleeping
        }
    }

    /// Ends the tick under way with what the scan gave: the process table,
    /// or nothing if it could not be read, in which case the tick is skipped.
    /// The events are stamped with `now`, or with the stamp of the last tick
    /// if the clock has gone back since. A sampler that is not scanning
    /// emits nothing and does not change.
    pub fn finish_tick(&mut self, scan: Option<&Vec<ProcessInfo>>, elapsed_us: u64, now: i64) -> (events:
        Vec<LatencyEvent>)
        ensures
            final(self).state == old(self).after_tick(),
            final(self).name == old(self).name,
            final(self).rules == old(self).rules,
            final(self).interval_ms == old(self).interval_ms,
            final(self).stopping == old(self).stopping,
            old(self).state == SamplerState::Scanning && scan is Some ==> {
                &&& final(self).last_stamp == later(now, old(self).last_stamp)
                &&& event_views(events@) == scan_events(
                    old(self).rules@,
                    scan.unwrap()@,
                    elapsed_us,
                    later(now, old(self).last_stamp),
                )
            },
            !(old(self).state == SamplerState::Scanning && scan is Some) ==> {
                &&& final(self).last_stamp == old(self).last_stamp
                &&& events@.len() == 0
            },
    {
        if self.state != SamplerState::Scanning {
            return Vec::new();
        }
        match scan {
            None => {
                self.step(SamplerInput::ScanFailed);
                Vec::new()
            },
            Some(processes) => {
                self.step(SamplerInput::ScanCompleted);
                let stamp = if now >= self.last_stamp {
                    now
                } else {
                    self.last_stamp
                };
                let events = classify(&self.rules, processes, elapsed_us, stamp);
                self.step(SamplerInput::Classified);
                self.last_stamp = stamp;
                self.step(SamplerInput::Emitted);
                events
            },
        }
    }

    /// Asks the sampler to stop; a tick under way is finished first.
    pub fn request_stop(&mut self)
        ensures
            final(self).state == next_transition(
                old(self).state,
                old(self).stopping,
                SamplerInput::Shutdown,
            ).state,
            final(self).stopping == next_transition(
                old(self).state,
                old(self).stopping,
                SamplerInput::Shutdown,
            ).stopping,
            final(self).name == old(self).name,
            final(self).rules == old(self).rules,
            final(self).interval_ms == old(self).interval_ms,
            final(self).last_stamp == old(self).last_stamp,
    {
        self.step(SamplerInput::Shutdown);
    }

    /// Whether the sampler has ended.
    pub fn is_terminated(&self) -> (done: bool)
        ensures
            done == (self.state == SamplerState::Terminated),
    {
        self.state == SamplerState::Terminated
    }
}

/// Every event of a tick carries the tick's stamp and the scan's elapsed
/// time, and none has an identifier or a payload yet.
pub proof fn lemma_scan_stamped(
    rules: Seq<Rule>,
    processes: Seq<ProcessInfo>,
    elapsed_us: u64,
    stamp: i64,
)
    ensures
        forall|i: int|
            0 <= i < scan_events(rules, processes, elapsed_us, stamp).len() ==> {
                let event = #[trigger] scan_events(rules, processes, elapsed_us, stamp)[i];
                &&& event.timestamp == stamp
                &&& event.duration_us == elapsed_us
                &&& event.id is None
                &&& event.metadata is None
            },
    decreases rules.len(),
{
    if rules.len() > 0 {
        lemma_scan_stamped(rules.drop_last(), processes, elapsed_us, stamp);
        lemma_rule_stamped(rules.last(), processes, elapsed_us, stamp);
    }
}

/// Every event that a rule emits belongs to the rule's class and source
/// and carries the tick's stamp and the scan's elapsed time; a rule emits
/// no more events than there are processes.
pub proof fn lemma_rule_stamped(
    rule: Rule,
    processes: Seq<ProcessInfo>,
    elapsed_us: u64,
    stamp: i64,
)
    ensures
        rule_events(rule, processes, elapsed_us, stamp).len() <= processes.len(),
        forall|i: int|
            0 <= i < rule_events(rule, processes, elapsed_us, stamp).len() ==> {
                let event = #[trigger] rule_events(rule, processes, elapsed_us, stamp)[i];
                &&& event.timestamp == stamp
                &&& event.duration_us == elapsed_us
                &&& event.component_type == rule.component
                &&& event.event_source == rule.source
                &&& event.id is None
                &&& event.metadata is None
            },
    decreases processes.len(),
{
    if processes.len() > 0 {
        lemma_rule_stamped(rule, processes.drop_last(), elapsed_us, stamp);
    }
}

/// A tick over rules that all belong to one class emits events of that
/// class alone.
pub proof fn lemma_scan_of_one_class(
    rules: Seq<Rule>,
    processes: Seq<ProcessInfo>,
    elapsed_us: u64,
    stamp: i64,
    class: ComponentType,
)
    requires
        forall|r: int| 0 <= r < rules.len() ==> (#[trigger] rules[r]).component == class,
    ensures
        forall|i: int|
            0 <= i < scan_events(rules, processes, elapsed_us, stamp).len() ==> (
            #[trigger] scan_events(rules, processes, elapsed_us, stamp)[i]).component_type
                == class,
    decreases rules.len(),
{
    if rules.len() > 0 {
        lemma_scan_of_one_class(rules.drop_last(), processes, elapsed_us, stamp, class);
        lemma_rule_stamped(rules.last(), processes, elapsed_us, stamp);
    }
}

/// A sampler that has ended stays ended, whatever happens.
pub proof fn lemma_terminated_stays(stopping: bool, input: SamplerInput)
    ensures
        next_transition(SamplerState::Terminated, stopping, input).state
            == SamplerState::Terminated,
        next_transition(SamplerState::Terminated, stopping, input).action == SamplerAction::Stop,
{
}

/// A stop request ends a sampler no later than at the end of the tick
/// under way: once the scan, the classification and the emission have
/// reported, the sampler has ended, in whatever state the request found it.
pub proof fn lemma_stop_ends_after_tick(state: SamplerState, stopping: bool)
    ensures
        ({
            let asked = next_transition(state, stopping, SamplerInput::Shutdown);
            let scanned = next_transition(asked.state, asked.stopping, SamplerInput::ScanCompleted);
            let classified = next_transition(
                scanned.state,
                scanned.stopping,
                SamplerInput::Classified,
            );
            let emitted = next_transition(
                classified.state,
                classified.stopping,
                SamplerInput::Emitted,
            );
            &&& state != SamplerState::Terminated ==> asked.stopping
            &&& emitted.state == SamplerState::Terminated
            &&& (state == SamplerState::Idle || state == SamplerState::Sleeping) ==> asked.state
                == SamplerState::Terminated
        }),
{
}

/// A scan that fails skips the tick and ends nothing: a sampler that is
/// not asked to stop goes to sleep and scans again afterwards.
pub proof fn lemma_failed_scan_is_skipped()
    ensures
        ({
            let failed = next_transition(SamplerState::Scanning, false, SamplerInput::ScanFailed);
            let woken = next_transition(failed.state, failed.stopping, SamplerInput::SleepElapsed);
            &&& failed.state == SamplerState::Sleeping
            &&& failed.action == SamplerAction::Sleep
            &&& woken.state == SamplerState::Scanning
            &&& woken.action == SamplerAction::Scan
        }),
{
}

} // verus!
