//! What the persistence sink does when a durable write fails: it tries
//! again a bounded number of times, waiting longer each time, and then lets
//! the event go.

use vstd::prelude::*;

verus! {

/// How often and how patiently a failed write is tried again.
#[derive(Debug, Clone, Copy, PartialEq, Eq, Structural)]
pub struct RetryPolicy {
    /// How many times a write is attempted at most; at least once.
    pub max_attempts: u32,
    /// How long to wait after the first failure, in milliseconds.
    pub base_backoff_ms: u64,
    /// The longest wait, in milliseconds.
    pub max_backoff_ms: u64,
}

/// How a durable write ended.
#[derive(Debug, Clone, Copy, PartialEq, Eq, Structural)]
pub enum WriteOutcome {
    Stored,
    Failed,
}

/// What to do after an attempt.
#[derive(Debug, Clone, Copy, PartialEq, Eq, Structural)]
pub enum WriteAction {
    /// The event is stored: go on with the next.
    Done,
    /// Wait `backoff_ms`, then make attempt number `attempt`.
    Retry { attempt: u32, backoff_ms: u64 },
    /// Let the event go and go on with the next.
    GiveUp,
}

/// How a run of attempts on one event ended.
#[derive(Debug, Clone, Copy, PartialEq, Eq, Structural)]
pub struct WriteReport {
    /// Whether the event was stored.
    pub stored: bool,
    /// How many attempts were made.
    pub attempts: u32,
    /// How long was waited between the attempts in all, in milliseconds;
    /// it stops at the largest value.
    pub waited_ms: u64,
}

/// The wait after `doubled + 1` failures in a row: the base wait doubled
/// `doubled` times, but never more than the longest wait.
pub open spec fn backoff_after(policy: RetryPolicy, doubled: nat) -> u64
    decreases doubled,
{
    if doubled == 0 {
        if policy.base_backoff_ms <= policy.max_backoff_ms {
            policy.base_backoff_ms
        } else {
            policy.max_backoff_ms
        }
    } else {
        let before = backoff_after(policy, (doubled - 1) as nat);
        if 2 * before <= policy.max_backoff_ms {
            (2 * before) as u64
        } else {
            policy.max_backoff_ms
        }
    }
}

/// The wait after failure number `failures`, counted from 1; no wait
/// where nothing has failed.
pub open spec fn wait_after(policy: RetryPolicy, failures: nat) -> u64 {
    if failures == 0 {
        0
    } else {
        backoff_after(policy, (failures - 1) as nat)
    }
}

/// What follows attempt number `attempt`, counted from 1.
pub open spec fn decision(policy: RetryPolicy, attempt: u32, outcome: WriteOutcome)
    -> WriteAction {
    match outcome {
        WriteOutcome::Stored => WriteAction::Done,
        WriteOutcome::Failed => if 1 <= attempt < policy.max_attempts {
            WriteAction::Retry {
                attempt: (attempt + 1) as u32,
                backoff_ms: wait_after(policy, attempt as nat),
            }
        } else {
            WriteAction::GiveUp
        },
    }
}

/// How many attempts a run makes on outcomes that come in the given order,
/// from attempt number `attempt` on: it ends with the first success, with
/// the last attempt allowed, or when the outcomes run out.
pub open spec fn attempts_made(policy: RetryPolicy, outcomes: Seq<WriteOutcome>, attempt: u32)
    -> nat
    decreases outcomes.len(),
{
    if outcomes.len() == 0 {
        0
    } else {
        match decision(policy, attempt, outcomes[0]) {
            WriteAction::Retry { attempt: next, .. } => 1 + attempts_made(
                policy,
                outcomes.skip(1),
                next,
            ),
            _ => 1,
        }
    }
}

/// How long a run waits in all between its attempts, in milliseconds.
pub open spec fn waited_in_all(policy: RetryPolicy, outcomes: Seq<WriteOutcome>, attempt: u32)
    -> nat
    decreases outcomes.len(),
{
    if outcomes.len() == 0 {
        0
    } else {
        match decision(policy, attempt, outcomes[0]) {
            WriteAction::Retry { attempt: next, backoff_ms } => backoff_ms as nat
                + waited_in_all(policy, outcomes.skip(1), next),
            _ => 0,
        }
    }
}

/// Once the wait has reached the longest wait, or is zero, it stays there.
proof fn lemma_backoff_settles(policy: RetryPolicy, from: nat, to: nat)
    requires
        from <= to,
        backoff_after(policy, from) == policy.max_backoff_ms || backoff_after(policy, from) == 0,
    ensures
        backoff_after(policy, to) == backoff_after(policy, from),
    decreases to - from,
{
    if from < to {
        lemma_backoff_settles(policy, from, (to - 1) as nat);
    }
}

impl RetryPolicy {
    /// Three attempts, waiting 100 ms and then 200 ms, never more than 5 s.
    pub fn standard() -> (policy: RetryPolicy)
        ensures
            policy == (RetryPolicy { max_attempts: 3, base_backoff_ms: 100, max_backoff_ms: 5000 }),
    {
        RetryPolicy { max_attempts: 3, base_backoff_ms: 100, max_backoff_ms: 5000 }
    }

    /// The wait after failure number `failures`, counted from 1.
    pub fn backoff(&self, failures: u32) -> (wait_ms: u64)
        ensures
            wait_ms == wait_after(*self, failures as nat),
    {
        if failures == 0 {
            return 0;
        }
        let mut wait: u64 = if self.base_backoff_ms <= self.max_backoff_ms {
            self.base_backoff_ms
        } else {
            self.max_backoff_ms
        };
        let mut doubled: u32 = 0;
        while doubled < failures - 1 && wait != 0 && wait != self.max_backoff_ms
            invariant
                doubled <= failures - 1,
                wait == backoff_after(*self, doubled as nat),
                wait <= self.max_backoff_ms,
            decreases failures - 1 - doubled,
        {
            wait = if wait <= self.max_backoff_ms / 2 {
                2 * wait
            } else {
                self.max_backoff_ms
            };
            doubled = doubled + 1;
        }
        proof {
            if doubled < failures - 1 {
                lemma_backoff_settles(*self, doubled as nat, (failures - 1) as nat);
            }
        }
        wait
    }

    /// What to do after attempt number `attempt`, counted from 1, ended
    /// with `outcome`.
    pub fn after_attempt(&self, attempt: u32, outcome: WriteOutcome) -> (action: WriteAction)
        ensures
            action == decision(*self, attempt, outcome),
    {
        match outcome {
            WriteOutcome::Stored => WriteAction::Done,
            WriteOutcome::Failed => {
                if attempt >= 1 && attempt < self.max_attempts {
                    WriteAction::Retry { attempt: attempt + 1, backoff_ms: self.backoff(attempt) }
                } else {
                    WriteAction::GiveUp
                }
            },
        }
    }

    /// Runs the attempts on one event against outcomes that come in the
    /// given order, and reports how the run ended. The time waited stops
    /// at the largest value.
    pub fn run(&self, outcomes: &Vec<WriteOutcome>) -> (report: WriteReport)
        ensures
            report.attempts == attempts_made(*self, outcomes@, 1),
            report.attempts <= outcomes.len(),
            report.stored <==> report.attempts >= 1 && outcomes[report.attempts - 1]
                == WriteOutcome::Stored,
            forall|i: int| 0 <= i < report.attempts - 1 ==> outcomes[i] == WriteOutcome::Failed,
            report.attempts <= 1 || report.attempts <= self.max_attempts,
            report.waited_ms == if waited_in_all(*self, outcomes@, 1) <= u64::MAX {
                waited_in_all(*self, outcomes@, 1)
            } else {
                u64::MAX as nat
            },
    {
        let mut attempt: u32 = 1;
        let mut waited: u64 = 0;
        let ghost mut sum: nat = 0;
        let mut i: usize = 0;
        proof {
            assert(outcomes@.skip(0) =~= outcomes@);
        }
        while i < outcomes.len()
            invariant
                i <= outcomes.len(),
                attempt == i + 1,
                attempts_made(*self, outcomes@, 1) == i + attempts_made(
                    *self,
                    outcomes@.skip(i as int),
                    attempt,
                ),
                waited_in_all(*self, outcomes@, 1) == sum + waited_in_all(
                    *self,
                    outcomes@.skip(i as int),
                    attempt,
                ),
                waited == if sum <= u64::MAX {
                    sum
                } else {
                    u64::MAX as nat
                },
                forall|j: int| 0 <= j < i ==> outcomes[j] == WriteOutcome::Failed,
                i == 0 || i < self.max_attempts,
            decreases outcomes.len() - i,
        {
            proof {
                assert(outcomes@.skip(i as int).skip(1) =~= outcomes@.skip(i as int + 1));
            }
            match self.after_attempt(attempt, outcomes[i]) {
                WriteAction::Done => {
                    return WriteReport { stored: true, attempts: attempt, waited_ms: waited };
                },
                WriteAction::GiveUp => {
                    return WriteReport { stored: false, attempts: attempt, waited_ms: waited };
                },
                WriteAction::Retry { attempt: next, backoff_ms } => {
                    waited = if waited <= u64::MAX - backoff_ms {
                        waited + backoff_ms
                    } else {
                        u64::MAX
                    };
                    proof {
                        sum = sum + backoff_ms as nat;
                    }
                    attempt = next;
                },
            }
            i = i + 1;
        }
        WriteReport { stored: false, attempts: attempt - 1, waited_ms: waited }
    }
}

/// However many writes fail in a row, a run makes no more attempts than
/// the policy allows, or one where it allows none.
pub proof fn lemma_attempts_bounded(policy: RetryPolicy, outcomes: Seq<WriteOutcome>, attempt: u32)
    requires
        attempt >= 1,
    ensures
        attempts_made(policy, outcomes, attempt) <= 1 || attempt + attempts_made(
            policy,
            outcomes,
            attempt,
        ) <= policy.max_attempts + 1,
    decreases outcomes.len(),
{
    if outcomes.len() > 0 {
        match decision(policy, attempt, outcomes[0]) {
            WriteAction::Retry { attempt: next, .. } => {
                lemma_attempts_bounded(policy, outcomes.skip(1), next);
            },
            _ => {},
        }
    }
}

} // verus!
