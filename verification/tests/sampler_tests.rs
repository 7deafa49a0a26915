use vscode_latency_monitor::models::{ComponentType, EventSource};
use vscode_latency_monitor::sampler::{
    classify, model_rules, terminal_rules, vscode_rules, MatchField, MatchKind, Pattern,
    ProcessInfo, Rule, Sampler, SamplerAction, SamplerInput, SamplerState, ACTIVE_TERMINAL_CPU,
};

fn process(pid: u32, name: &str, cmd: &[&str], cpu_millipercent: u64, memory_bytes: u64) -> ProcessInfo {
    ProcessInfo {
        pid,
        name: name.to_string(),
        cmd: cmd.iter().map(|arg| arg.to_string()).collect(),
        cpu_millipercent,
        memory_bytes,
    }
}

#[test]
fn name_patterns_fold_case() {
    let idle = process(1, "CODE", &[], 0, 0);
    assert!(Pattern::name_equals("code").matches(&idle));
    assert!(!Pattern::name_equals("cod").matches(&idle));
    assert!(Pattern::name_contains("od").matches(&idle));
    assert!(!Pattern::name_contains("OD").matches(&idle));
    let exact = Pattern {
        field: MatchField::Name,
        kind: MatchKind::Equals,
        text: "code".to_string(),
        fold_case: false,
    };
    assert!(!exact.matches(&idle));
    assert!(exact.matches(&process(2, "code", &[], 0, 0)));
}

#[test]
fn argument_patterns_look_at_each_argument() {
    let host = process(3, "node", &["--inspect", "--type=extensionHost"], 0, 0);
    assert!(Pattern::argument_contains("extensionHost", false).matches(&host));
    assert!(!Pattern::argument_contains("extensionhost", false).matches(&host));
    assert!(Pattern::argument_contains("extensionhost", true).matches(&host));
    assert!(!Pattern::argument_contains("inspect --type", false).matches(&host));
    assert!(!Pattern::argument_contains("x", false).matches(&process(4, "x", &[], 0, 0)));
}

#[test]
fn command_line_patterns_look_at_the_joined_arguments() {
    let agent = process(5, "node", &["/opt/GitHub.Copilot/dist", "--stdio"], 0, 0);
    assert!(Pattern::command_line_contains("github.copilot").matches(&agent));
    assert!(Pattern::command_line_contains("dist --stdio").matches(&agent));
    assert!(!Pattern::command_line_contains("node").matches(&agent));
}

#[test]
fn an_empty_pattern_text_is_contained_in_everything() {
    assert!(Pattern::name_contains("").matches(&process(1, "", &[], 0, 0)));
    assert!(Pattern::name_contains("").matches(&process(1, "zsh", &[], 0, 0)));
}

#[test]
fn editor_rules() {
    let rules = vscode_rules();
    assert_eq!(rules.len(), 2);
    assert_eq!(rules[0].component, ComponentType::VSCode);
    assert_eq!(rules[0].source, EventSource::ProcessMonitor);
    assert_eq!(rules[1].component, ComponentType::VSCodeExtension);
    assert_eq!(rules[1].source, EventSource::ExtensionHost);
    let editor = &rules[0];
    assert_eq!(editor.first_match(&process(1, "code", &[], 0, 0)), Some(2));
    assert_eq!(editor.first_match(&process(1, "Code.exe", &[], 0, 0)), Some(1));
    assert_eq!(editor.first_match(&process(1, "code-server", &[], 0, 0)), Some(0));
    assert_eq!(editor.first_match(&process(1, "codec", &[], 0, 0)), None);
    assert_eq!(editor.first_match(&process(1, "vscode", &[], 0, 0)), None);
    let host = &rules[1];
    assert_eq!(host.first_match(&process(1, "ExtensionHost", &[], 0, 0)), Some(0));
    assert_eq!(host.first_match(&process(1, "node", &["--type=extensionHost"], 0, 0)), Some(1));
    assert_eq!(host.first_match(&process(1, "node", &["--type=extensionhost"], 0, 0)), None);
}

#[test]
fn model_rules_table() {
    let rules = model_rules();
    assert_eq!(rules.len(), 2);
    assert_eq!(rules[0].component, ComponentType::GitHubCopilot);
    assert_eq!(rules[1].component, ComponentType::LocalModel);
    assert_eq!(rules[0].source, EventSource::ModelProcess);
    assert_eq!(rules[1].source, EventSource::ModelProcess);
    let remote = &rules[0];
    assert_eq!(remote.first_match(&process(1, "Copilot-Agent", &[], 0, 0)), Some(0));
    assert_eq!(
        remote.first_match(&process(1, "node", &["ext/GitHub.Copilot-1.2/agent.js"], 0, 0)),
        Some(1)
    );
    assert_eq!(remote.first_match(&process(1, "node", &["bin/copilot-agent"], 0, 0)), Some(2));
    assert_eq!(remote.first_match(&process(1, "node", &["server.js"], 0, 0)), None);
    let local = &rules[1];
    assert_eq!(local.first_match(&process(1, "ollama", &[], 0, 0)), Some(0));
    assert_eq!(local.first_match(&process(1, "python", &["-m", "OLLAMA.api"], 0, 0)), Some(1));
    assert_eq!(local.first_match(&process(1, "llama-server", &[], 0, 0)), Some(2));
    assert_eq!(local.first_match(&process(1, "sh", &["run-llama.sh"], 0, 0)), Some(3));
    assert_eq!(local.first_match(&process(1, "GPT4All", &[], 0, 0)), Some(4));
    assert_eq!(local.first_match(&process(1, "java", &["gpt4all.jar"], 0, 0)), Some(5));
    assert_eq!(local.first_match(&process(1, "localai", &[], 0, 0)), Some(6));
    assert_eq!(local.first_match(&process(1, "docker", &["run", "LocalAI"], 0, 0)), Some(7));
    assert_eq!(local.first_match(&process(1, "postgres", &["-D", "/data"], 0, 0)), None);
}

#[test]
fn terminal_rules_table() {
    let rules = terminal_rules();
    assert_eq!(rules.len(), 1);
    let rule = &rules[0];
    assert_eq!(rule.component, ComponentType::Terminal);
    assert_eq!(rule.source, EventSource::ProcessMonitor);
    assert_eq!(rule.cpu_above, Some(ACTIVE_TERMINAL_CPU));
    assert_eq!(ACTIVE_TERMINAL_CPU, 100);
    assert_eq!(rule.first_match(&process(1, "bash", &[], 0, 0)), Some(0));
    assert_eq!(rule.first_match(&process(1, "zsh", &[], 0, 0)), Some(1));
    assert_eq!(rule.first_match(&process(1, "fish", &[], 0, 0)), Some(2));
    assert_eq!(rule.first_match(&process(1, "sh", &[], 0, 0)), Some(3));
    assert_eq!(rule.first_match(&process(1, "gnome-terminal-server", &[], 0, 0)), Some(4));
    assert_eq!(rule.first_match(&process(1, "Konsole", &[], 0, 0)), Some(6));
    assert_eq!(rule.first_match(&process(1, "bash-completion", &[], 0, 0)), None);
    assert_eq!(rule.first_match(&process(1, "ssh", &[], 0, 0)), None);
}

#[test]
fn descriptions_report_pid_cpu_and_memory() {
    let rules = vscode_rules();
    let editor = process(1234, "code", &[], 12_340, 2_097_152);
    assert_eq!(rules[0].describe(&editor, 2), "Process 1234 - CPU: 12.3%, Memory: 2048KB");
    let rounded = process(7, "code", &[], 12_350, 1023);
    assert_eq!(rules[0].describe(&rounded, 2), "Process 7 - CPU: 12.4%, Memory: 0KB");
    let host = process(77, "extensionhost", &[], 0, 5_000_000);
    assert_eq!(rules[1].describe(&host, 0), "Extension Host 77 - CPU: 0.0%");
    let busy = process(8, "extensionhost", &[], 99_950, 0);
    assert_eq!(rules[1].describe(&busy, 0), "Extension Host 8 - CPU: 100.0%");
}

#[test]
fn local_model_descriptions_name_the_pattern() {
    let rules = model_rules();
    let runtime = process(5, "llama-server", &[], 1_000, 0);
    let event = rules[1].event_for(&runtime, 10, 20).expect("a llama process is reported");
    assert_eq!(event.description, "Local Model (llama) 5 - CPU: 1.0%");
    assert_eq!(event.component_type, ComponentType::LocalModel);
    assert_eq!(event.event_source, EventSource::ModelProcess);
    assert_eq!(event.duration_us, 10);
    assert_eq!(event.timestamp, 20);
    assert_eq!(event.id, None);
    assert_eq!(event.metadata, None);
    let agent = process(6, "copilot", &[], 49, 0);
    let remote = rules[0].event_for(&agent, 1, 2).unwrap();
    assert_eq!(remote.description, "Copilot Process 6 - CPU: 0.0%");
}

#[test]
fn idle_terminals_are_not_reported() {
    let rules = terminal_rules();
    assert!(rules[0].event_for(&process(9, "bash", &[], 100, 0), 1, 1).is_none());
    assert!(rules[0].event_for(&process(9, "bash", &[], 0, 0), 1, 1).is_none());
    let active = rules[0].event_for(&process(9, "bash", &[], 101, 0), 1, 1).unwrap();
    assert_eq!(active.description, "Terminal 9 - CPU: 0.1%");
    assert!(rules[0].event_for(&process(9, "vim", &[], 90_000, 0), 1, 1).is_none());
}

#[test]
fn classify_emits_rule_by_rule_in_table_order() {
    let table = vec![
        process(10, "bash", &[], 5_000, 0),
        process(11, "code", &["--type=extensionHost"], 1_000, 4096),
        process(12, "firefox", &[], 50_000, 0),
        process(13, "code-server", &[], 0, 0),
    ];
    let events = classify(&vscode_rules(), &table, 321, 1_000_000);
    let summary: Vec<(ComponentType, String)> =
        events.iter().map(|e| (e.component_type, e.description.clone())).collect();
    assert_eq!(
        summary,
        vec![
            (ComponentType::VSCode, "Process 11 - CPU: 1.0%, Memory: 4KB".to_string()),
            (ComponentType::VSCode, "Process 13 - CPU: 0.0%, Memory: 0KB".to_string()),
            (ComponentType::VSCodeExtension, "Extension Host 11 - CPU: 1.0%".to_string()),
        ]
    );
    for event in events.iter() {
        assert_eq!(event.duration_us, 321);
        assert_eq!(event.timestamp, 1_000_000);
        assert_eq!(event.id, None);
    }
}

#[test]
fn a_scan_without_matches_emits_nothing() {
    let table = vec![process(1, "firefox", &[], 1, 1), process(2, "postgres", &[], 1, 1)];
    assert!(classify(&vscode_rules(), &table, 1, 1).is_empty());
    assert!(classify(&model_rules(), &Vec::new(), 1, 1).is_empty());
    let no_rules: Vec<Rule> = Vec::new();
    assert!(classify(&no_rules, &table, 1, 1).is_empty());
}

#[test]
fn a_process_is_reported_once_per_rule() {
    let table = vec![process(1, "ollama", &["ollama", "serve", "llama3"], 0, 0)];
    let events = classify(&model_rules(), &table, 1, 1);
    assert_eq!(events.len(), 1);
    assert_eq!(events[0].description, "Local Model (ollama) 1 - CPU: 0.0%");
}

#[test]
fn sampler_needs_a_positive_interval() {
    assert!(Sampler::new("s".to_string(), vscode_rules(), 0).is_none());
    let sampler = Sampler::new("s".to_string(), vscode_rules(), 50).unwrap();
    assert_eq!(sampler.name, "s");
    assert_eq!(sampler.interval_ms, 50);
    assert_eq!(sampler.state, SamplerState::Idle);
    assert!(!sampler.stopping);
    assert_eq!(sampler.last_stamp, i64::MIN);
    assert!(!sampler.is_terminated());
}

#[test]
fn sampler_runs_through_its_cycle() {
    let mut sampler = Sampler::new("s".to_string(), vscode_rules(), 50).unwrap();
    assert_eq!(sampler.step(SamplerInput::Start), SamplerAction::Scan);
    assert_eq!(sampler.state, SamplerState::Scanning);
    assert_eq!(sampler.step(SamplerInput::ScanCompleted), SamplerAction::Classify);
    assert_eq!(sampler.state, SamplerState::Classifying);
    assert_eq!(sampler.step(SamplerInput::Classified), SamplerAction::Emit);
    assert_eq!(sampler.state, SamplerState::Emitting);
    assert_eq!(sampler.step(SamplerInput::Emitted), SamplerAction::Sleep);
    assert_eq!(sampler.state, SamplerState::Sleeping);
    assert_eq!(sampler.step(SamplerInput::SleepElapsed), SamplerAction::Scan);
    assert_eq!(sampler.state, SamplerState::Scanning);
}

#[test]
fn unexpected_inputs_change_nothing() {
    let mut sampler = Sampler::new("s".to_string(), vscode_rules(), 50).unwrap();
    assert_eq!(sampler.step(SamplerInput::Emitted), SamplerAction::Stay);
    assert_eq!(sampler.state, SamplerState::Idle);
    assert_eq!(sampler.step(SamplerInput::SleepElapsed), SamplerAction::Stay);
    assert_eq!(sampler.state, SamplerState::Idle);
    sampler.step(SamplerInput::Start);
    assert_eq!(sampler.step(SamplerInput::Start), SamplerAction::Stay);
    assert_eq!(sampler.step(SamplerInput::Classified), SamplerAction::Stay);
    assert_eq!(sampler.state, SamplerState::Scanning);
}

#[test]
fn a_failed_scan_skips_the_tick() {
    let mut sampler = Sampler::new("s".to_string(), vscode_rules(), 50).unwrap();
    sampler.step(SamplerInput::Start);
    assert_eq!(sampler.step(SamplerInput::ScanFailed), SamplerAction::Sleep);
    assert_eq!(sampler.state, SamplerState::Sleeping);
    assert_eq!(sampler.step(SamplerInput::SleepElapsed), SamplerAction::Scan);
}

#[test]
fn shutdown_ends_an_idle_or_sleeping_sampler_at_once() {
    let mut idle = Sampler::new("s".to_string(), vscode_rules(), 50).unwrap();
    assert_eq!(idle.step(SamplerInput::Shutdown), SamplerAction::Stop);
    assert!(idle.is_terminated());
    assert_eq!(idle.step(SamplerInput::Start), SamplerAction::Stop);
    assert!(idle.is_terminated());

    let mut asleep = Sampler::new("s".to_string(), vscode_rules(), 50).unwrap();
    assert!(asleep.begin_tick());
    asleep.finish_tick(None, 0, 0);
    assert_eq!(asleep.state, SamplerState::Sleeping);
    asleep.request_stop();
    assert!(asleep.is_terminated());
}

#[test]
fn shutdown_lets_the_tick_under_way_finish() {
    let table = vec![process(1, "code", &[], 0, 0)];
    let mut sampler = Sampler::new("s".to_string(), vscode_rules(), 50).unwrap();
    assert!(sampler.begin_tick());
    sampler.request_stop();
    assert_eq!(sampler.state, SamplerState::Scanning);
    assert!(sampler.stopping);
    let events = sampler.finish_tick(Some(&table), 5, 100);
    assert_eq!(events.len(), 1);
    assert!(sampler.is_terminated());
    assert!(!sampler.begin_tick());
    assert!(sampler.finish_tick(Some(&table), 5, 200).is_empty());
}

#[test]
fn ticks_stamp_events_and_never_go_back_in_time() {
    let table = vec![process(1, "code", &[], 0, 0)];
    let mut sampler = Sampler::new("s".to_string(), vscode_rules(), 50).unwrap();
    assert!(sampler.finish_tick(Some(&table), 5, 100).is_empty());
    assert_eq!(sampler.state, SamplerState::Idle);
    assert!(sampler.begin_tick());
    assert!(!sampler.begin_tick());
    let first = sampler.finish_tick(Some(&table), 5, 1_000);
    assert_eq!(first[0].timestamp, 1_000);
    assert_eq!(sampler.last_stamp, 1_000);
    assert!(sampler.begin_tick());
    let second = sampler.finish_tick(Some(&table), 5, 400);
    assert_eq!(second[0].timestamp, 1_000);
    assert!(sampler.begin_tick());
    let third = sampler.finish_tick(Some(&table), 5, 1_050);
    assert_eq!(third[0].timestamp, 1_050);
    assert!(sampler.begin_tick());
    assert!(sampler.finish_tick(None, 5, 9_999).is_empty());
    assert_eq!(sampler.last_stamp, 1_050);
    assert_eq!(sampler.state, SamplerState::Sleeping);
}
