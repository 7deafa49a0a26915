use vscode_latency_monitor::retry::{RetryPolicy, WriteAction, WriteOutcome, WriteReport};

#[test]
fn standard_policy() {
    assert_eq!(
        RetryPolicy::standard(),
        RetryPolicy { max_attempts: 3, base_backoff_ms: 100, max_backoff_ms: 5000 }
    );
}

#[test]
fn backoff_doubles_up_to_the_cap() {
    let policy = RetryPolicy::standard();
    assert_eq!(policy.backoff(0), 0);
    assert_eq!(policy.backoff(1), 100);
    assert_eq!(policy.backoff(2), 200);
    assert_eq!(policy.backoff(3), 400);
    assert_eq!(policy.backoff(6), 3200);
    assert_eq!(policy.backoff(7), 5000);
    assert_eq!(policy.backoff(8), 5000);
    assert_eq!(policy.backoff(u32::MAX), 5000);
}

#[test]
fn backoff_edge_cases() {
    let base_above_cap = RetryPolicy { max_attempts: 5, base_backoff_ms: 900, max_backoff_ms: 300 };
    assert_eq!(base_above_cap.backoff(1), 300);
    assert_eq!(base_above_cap.backoff(4), 300);
    let none = RetryPolicy { max_attempts: 5, base_backoff_ms: 0, max_backoff_ms: 300 };
    assert_eq!(none.backoff(1), 0);
    assert_eq!(none.backoff(u32::MAX), 0);
    let wide = RetryPolicy { max_attempts: 5, base_backoff_ms: 1, max_backoff_ms: u64::MAX };
    assert_eq!(wide.backoff(64), 1u64 << 63);
    assert_eq!(wide.backoff(65), u64::MAX);
    assert_eq!(wide.backoff(66), u64::MAX);
}

#[test]
fn a_stored_write_is_done() {
    let policy = RetryPolicy::standard();
    assert_eq!(policy.after_attempt(1, WriteOutcome::Stored), WriteAction::Done);
    assert_eq!(policy.after_attempt(3, WriteOutcome::Stored), WriteAction::Done);
}

#[test]
fn a_failed_write_is_retried_a_bounded_number_of_times() {
    let policy = RetryPolicy::standard();
    assert_eq!(
        policy.after_attempt(1, WriteOutcome::Failed),
        WriteAction::Retry { attempt: 2, backoff_ms: 100 }
    );
    assert_eq!(
        policy.after_attempt(2, WriteOutcome::Failed),
        WriteAction::Retry { attempt: 3, backoff_ms: 200 }
    );
    assert_eq!(policy.after_attempt(3, WriteOutcome::Failed), WriteAction::GiveUp);
    assert_eq!(policy.after_attempt(4, WriteOutcome::Failed), WriteAction::GiveUp);
    assert_eq!(policy.after_attempt(0, WriteOutcome::Failed), WriteAction::GiveUp);
}

#[test]
fn a_policy_without_attempts_gives_up_at_once() {
    let policy = RetryPolicy { max_attempts: 0, base_backoff_ms: 10, max_backoff_ms: 10 };
    assert_eq!(policy.after_attempt(1, WriteOutcome::Failed), WriteAction::GiveUp);
    let once = RetryPolicy { max_attempts: 1, base_backoff_ms: 10, max_backoff_ms: 10 };
    assert_eq!(once.after_attempt(1, WriteOutcome::Failed), WriteAction::GiveUp);
}

#[test]
fn an_outage_ends_in_giving_up() {
    let policy = RetryPolicy::standard();
    let outage = vec![WriteOutcome::Failed; 10];
    assert_eq!(
        policy.run(&outage),
        WriteReport { stored: false, attempts: 3, waited_ms: 300 }
    );
}

#[test]
fn a_write_that_recovers_is_stored() {
    let policy = RetryPolicy::standard();
    assert_eq!(
        policy.run(&vec![WriteOutcome::Stored]),
        WriteReport { stored: true, attempts: 1, waited_ms: 0 }
    );
    assert_eq!(
        policy.run(&vec![WriteOutcome::Failed, WriteOutcome::Stored, WriteOutcome::Failed]),
        WriteReport { stored: true, attempts: 2, waited_ms: 100 }
    );
    assert_eq!(
        policy.run(&vec![WriteOutcome::Failed, WriteOutcome::Failed, WriteOutcome::Stored]),
        WriteReport { stored: true, attempts: 3, waited_ms: 300 }
    );
}

#[test]
fn a_run_without_outcomes_makes_no_attempt() {
    let policy = RetryPolicy::standard();
    assert_eq!(policy.run(&Vec::new()), WriteReport { stored: false, attempts: 0, waited_ms: 0 });
    assert_eq!(
        policy.run(&vec![WriteOutcome::Failed]),
        WriteReport { stored: false, attempts: 1, waited_ms: 100 }
    );
}
