//! The monitor: the samplers, the bus they publish to, and the two
//! consumers of the bus, the aggregator and the store, run step by step.

use vstd::prelude::*;
use vstd::string::*;
use crate::aggregator::{
    Aggregator, STANDARD_WINDOW_MINUTES, aggregated, standard_bounds, unused_view,
};
use crate::bus::{EventBus, MAX_CAPACITY, counted, taken};
use crate::clock::{now_micros, retention_cutoff};
use crate::config::{Config, ConfigError, first_fault};
use crate::models::{
    CLASS_COUNT, ComponentType, EventSource, EventView, LatencyEvent, SystemStatus, event_views,
};
use crate::retry::RetryPolicy;
use crate::sampler::{
    ProcessInfo, Rule, Sampler, SamplerInput, SamplerState, later, model_rules, model_table,
    next_transition, scan_events, terminal_rules, terminal_table, vscode_rules, vscode_table,
};
use crate::storage::{
    MetricsStorage, Vitals, count_older, id_after_store, rank_after, rows_after_store,
    store_outcome, summary_text,
};
use crate::text::{decimal, decimal_text, same_text, texts};

verus! {

/// Why the monitor refused to start something.
#[derive(Debug, Clone, Copy, PartialEq, Eq, Structural)]
pub enum MonitorError {
    /// The configuration has a fault.
    Config(ConfigError),
    /// The configured buffer is larger than a bus can be.
    BufferTooLarge,
    /// A sampler cannot run at an interval of zero.
    ZeroInterval,
    /// Twice the interval is beyond the largest interval.
    IntervalOutOfRange,
    /// The component is none of those that can be monitored.
    UnknownComponent,
}

/// What a tick did.
#[derive(Debug, Clone, Copy, PartialEq, Eq, Structural)]
pub struct TickReport {
    /// How many events the tick emitted.
    pub emitted: usize,
    /// How many of them the bus took; the others were dropped.
    pub accepted: usize,
}

/// The monitor.
pub struct LatencyMonitor {
    pub config: Config,
    pub storage: MetricsStorage,
    pub aggregator: Aggregator,
    pub bus: EventBus,
    pub samplers: Vec<Sampler>,
    pub policy: RetryPolicy,
    /// How many events were let go because they could not be written.
    pub lost: u64,
    pub running: bool,
}

/// Whether a sampler is new, with the given name and interval.
pub open spec fn fresh_sampler(sampler: Sampler, name: Seq<char>, interval_ms: u64) -> bool {
    &&& sampler.name@ == name
    &&& sampler.interval_ms == interval_ms
    &&& sampler.state == SamplerState::Idle
    &&& !sampler.stopping
    &&& sampler.last_stamp == i64::MIN
}

/// What the configuration makes the start of a monitor fail with, if
/// anything.
pub open spec fn start_fault(config: Config) -> Option<MonitorError> {
    match first_fault(config) {
        Some(fault) => Some(MonitorError::Config(fault)),
        None => if config.monitoring.buffer_size > MAX_CAPACITY {
            Some(MonitorError::BufferTooLarge)
        } else {
            None
        },
    }
}

impl LatencyMonitor {
    /// The monitor's invariant: that of its store, aggregator and bus.
    pub open spec fn wf(&self) -> bool {
        &&& self.storage.wf()
        &&& self.aggregator.wf()
        &&& self.bus.wf()
    }

    /// Whether two monitors differ in nothing but their samplers.
    pub open spec fn same_but_samplers(&self, other: &LatencyMonitor) -> bool {
        &&& self.config == other.config
        &&& self.storage == other.storage
        &&& self.aggregator == other.aggregator
        &&& self.bus == other.bus
        &&& self.policy == other.policy
        &&& self.lost == other.lost
        &&& self.running == other.running
    }

    /// A monitor over `storage` with no sampler yet: an empty bus of the
    /// configured buffer size, an aggregator with the standard bounds and
    /// window, and the standard retry policy. A faulty configuration is
    /// refused, and so is a buffer larger than a bus can be.
    pub fn new(config: Config, storage: MetricsStorage) -> (made: Result<
        LatencyMonitor,
        MonitorError,
    >)
        requires
            storage.wf(),
        ensures
            match made {
                Ok(monitor) => {
                    &&& start_fault(config) is None
                    &&& monitor.wf()
                    &&& monitor.config == config
                    &&& monitor.storage == storage
                    &&& monitor.aggregator@ == unused_view(
                        standard_bounds(),
                        STANDARD_WINDOW_MINUTES,
                    )
                    &&& monitor.bus.queue() == Seq::<LatencyEvent>::empty()
                    &&& monitor.bus.capacity() == config.monitoring.buffer_size
                    &&& monitor.bus.dropped() == 0
                    &&& monitor.samplers@.len() == 0
                    &&& monitor.policy == (RetryPolicy {
                        max_attempts: 3,
                        base_backoff_ms: 100,
                        max_backoff_ms: 5000,
                    })
                    &&& monitor.lost == 0
                    &&& !monitor.running
                },
                Err(error) => start_fault(config) == Some(error),
            },
    {
        match config.validate() {
            Err(fault) => {
                return Err(MonitorError::Config(fault));
            },
            Ok(_) => {},
        }
        let bus = match EventBus::new(config.monitoring.buffer_size) {
            Some(bus) => bus,
            None => {
                return Err(MonitorError::BufferTooLarge);
            },
        };
        Ok(
            LatencyMonitor {
                config,
                storage,
                aggregator: Aggregator::standard(),
                bus,
                samplers: Vec::new(),
                policy: RetryPolicy::standard(),
                lost: 0,
                running: false,
            },
        )
    }

    /// Adds an idle sampler and returns its number. An interval of zero is
    /// refused.
    pub fn add_sampler(&mut self, name: &str, rules: Vec<Rule>, interval_ms: u64) -> (added: Result<
        usize,
        MonitorError,
    >)
        ensures
            final(self).same_but_samplers(old(self)),
            interval_ms == 0 ==> added == Err::<usize, MonitorError>(MonitorError::ZeroInterval)
                && final(self).samplers == old(self).samplers,
            interval_ms != 0 ==> {
                &&& added == Ok::<usize, MonitorError>(old(self).samplers.len())
                &&& final(self).samplers@.len() == old(self).samplers@.len() + 1
                &&& final(self).samplers@.drop_last() == old(self).samplers@
                &&& fresh_sampler(final(self).samplers@.last(), name@, interval_ms)
                &&& final(self).samplers@.last().rules == rules
            },
    {
        match Sampler::new(String::from_str(name), rules, interval_ms) {
            None => Err(MonitorError::ZeroInterval),
            Some(sampler) => {
                let number = self.samplers.len();
                self.samplers.push(sampler);
                Ok(number)
            },
        }
    }

    /// Adds the editor sampler.
    pub fn start_vscode_monitoring(&mut self, interval_ms: u64) -> (added: Result<
        usize,
        MonitorError,
    >)
        ensures
            final(self).same_but_samplers(old(self)),
            interval_ms == 0 ==> added == Err::<usize, MonitorError>(MonitorError::ZeroInterval)
                && final(self).samplers == old(self).samplers,
            interval_ms != 0 ==> {
                &&& added == Ok::<usize, MonitorError>(old(self).samplers.len())
                &&& final(self).samplers@.len() == old(self).samplers@.len() + 1
                &&& final(self).samplers@.drop_last() == old(self).samplers@
                &&& fresh_sampler(final(self).samplers@.last(), "VS Code Monitor"@, interval_ms)
                &&& vscode_table(final(self).samplers@.last().rules@)
            },
    {
        self.add_sampler("VS Code Monitor", vscode_rules(), interval_ms)
    }

    /// Adds the model sampler.
    pub fn start_model_monitoring(&mut self, interval_ms: u64) -> (added: Result<
        usize,
        MonitorError,
    >)
        ensures
            final(self).same_but_samplers(old(self)),
            interval_ms == 0 ==> added == Err::<usize, MonitorError>(MonitorError::ZeroInterval)
                && final(self).samplers == old(self).samplers,
            interval_ms != 0 ==> {
                &&& added == Ok::<usize, MonitorError>(old(self).samplers.len())
                &&& final(self).samplers@.len() == old(self).samplers@.len() + 1
                &&& final(self).samplers@.drop_last() == old(self).samplers@
                &&& fresh_sampler(final(self).samplers@.last(), "Model Monitor"@, interval_ms)
                &&& model_table(final(self).samplers@.last().rules@)
            },
    {
        self.add_sampler("Model Monitor", model_rules(), interval_ms)
    }

    /// Adds the terminal sampler.
    pub fn start_terminal_monitoring(&mut self, interval_ms: u64) -> (added: Result<
        usize,
        MonitorError,
    >)
        ensures
            final(self).same_but_samplers(old(self)),
            interval_ms == 0 ==> added == Err::<usize, MonitorError>(MonitorError::ZeroInterval)
                && final(self).samplers == old(self).samplers,
            interval_ms != 0 ==> {
                &&& added == Ok::<usize, MonitorError>(old(self).samplers.len())
                &&& final(self).samplers@.len() == old(self).samplers@.len() + 1
                &&& final(self).samplers@.drop_last() == old(self).samplers@
                &&& fresh_sampler(final(self).samplers@.last(), "Terminal Monitor"@, interval_ms)
                &&& terminal_table(final(self).samplers@.last().rules@)
            },
    {
        self.add_sampler("Terminal Monitor", terminal_rules(), interval_ms)
    }

    /// Adds the three samplers: editor and terminal at the interval given,
    /// models at twice that. Nothing is added where the interval is zero or
    /// cannot be doubled.
    pub fn start_all_monitoring(&mut self, interval_ms: u64) -> (added: Result<(), MonitorError>)
        ensures
            final(self).same_but_samplers(old(self)),
            interval_ms == 0 ==> added == Err::<(), MonitorError>(MonitorError::ZeroInterval),
            interval_ms > u64::MAX / 2 ==> added == Err::<(), MonitorError>(
                MonitorError::IntervalOutOfRange,
            ),
            added is Err ==> final(self).samplers == old(self).samplers,
            0 < interval_ms <= u64::MAX / 2 ==> {
                let first = old(self).samplers@.len() as int;
                &&& added is Ok
                &&& final(self).samplers@.len() == first + 3
                &&& final(self).samplers@.take(first) == old(self).samplers@
                &&& fresh_sampler(final(self).samplers[first], "VS Code Monitor"@, interval_ms)
                &&& vscode_table(final(self).samplers[first].rules@)
                &&& fresh_sampler(
                    final(self).samplers[first + 1],
                    "Model Monitor"@,
                    (2 * interval_ms) as u64,
                )
                &&& model_table(final(self).samplers[first + 1].rules@)
                &&& fresh_sampler(
                    final(self).samplers[first + 2],
                    "Terminal Monitor"@,
                    interval_ms,
                )
                &&& terminal_table(final(self).samplers[first + 2].rules@)
            },
    {
        if interval_ms == 0 {
            return Err(MonitorError::ZeroInterval);
        }
        if interval_ms > u64::MAX / 2 {
            return Err(MonitorError::IntervalOutOfRange);
        }
        let _ = self.start_vscode_monitoring(interval_ms);
        let _ = self.start_model_monitoring(interval_ms * 2);
        let _ = self.start_terminal_monitoring(interval_ms);
        Ok(())
    }

    /// One tick of a sampler: if it is idle or has slept, it takes what the
    /// scan gave, classifies it, and publishes the events to the bus, which
    /// drops what it has no room for. A failed scan skips the tick. A
    /// sampler that is in the middle of a tick or has ended does nothing,
    /// and neither does a number that names no sampler.
    pub fn tick(
        &mut self,
        sampler: usize,
        scan: Option<&Vec<ProcessInfo>>,
        elapsed_us: u64,
        now: i64,
    ) -> (report: TickReport)
        requires
            old(self).wf(),
        ensures
            final(self).wf(),
            final(self).config == old(self).config,
            final(self).storage == old(self).storage,
            final(self).aggregator == old(self).aggregator,
            final(self).policy == old(self).policy,
            final(self).lost == old(self).lost,
            final(self).running == old(self).running,
            final(self).bus.capacity() == old(self).bus.capacity(),
            final(self).samplers@.len() == old(self).samplers@.len(),
            forall|i: int|
                0 <= i < old(self).samplers@.len() && i != sampler ==> final(self).samplers[i]
                    == old(self).samplers[i],
            ({
                let emits = sampler < old(self).samplers@.len() && old(self).samplers[sampler as int].ready()
                    && scan is Some;
                let events = if emits {
                    scan_events(
                        old(self).samplers[sampler as int].rules@,
                        scan.unwrap()@,
                        elapsed_us,
                        later(now, old(self).samplers[sampler as int].last_stamp),
                    )
                } else {
                    Seq::<EventView>::empty()
                };
                &&& report.emitted == events.len()
                &&& report.accepted == taken(
                    old(self).bus.queue().len(),
                    old(self).bus.capacity(),
                    events.len(),
                )
                &&& event_views(final(self).bus.queue()) == event_views(old(self).bus.queue())
                    + events.take(report.accepted as int)
                &&& final(self).bus.dropped() == counted(
                    old(self).bus.dropped(),
                    (report.emitted - report.accepted) as nat,
                )
            }),
            sampler < old(self).samplers@.len() ==> {
                let before = old(self).samplers[sampler as int];
                let after = final(self).samplers[sampler as int];
                &&& after.name == before.name
                &&& after.rules == before.rules
                &&& after.interval_ms == before.interval_ms
                &&& after.stopping == before.stopping
                &&& after.state == if before.ready() {
                    (Sampler { state: SamplerState::Scanning, ..before }).after_tick()
                } else {
                    before.state
                }
                &&& after.last_stamp == if before.ready() && scan is Some {
                    later(now, before.last_stamp)
                } else {
                    before.last_stamp
                }
            },
    {
        if sampler >= self.samplers.len() {
            return TickReport { emitted: 0, accepted: 0 };
        }
        if !self.samplers[sampler].begin_tick() {
            return TickReport { emitted: 0, accepted: 0 };
        }
        let events = self.samplers[sampler].finish_tick(scan, elapsed_us, now);
        let accepted = self.bus.publish_all(&events);
        TickReport { emitted: events.len(), accepted }
    }
}

/// The next identifier of a store after it was offered the events one
/// after another.
pub open spec fn next_id_after(next_id: i64, events: Seq<LatencyEvent>) -> i64
    decreases events.len(),
{
    if events.len() == 0 {
        next_id
    } else {
        id_after_store(next_id_after(next_id, events.drop_last()), events.last())
    }
}

/// The rows of a store after it was offered the events one after another.
pub open spec fn rows_after(rows: Seq<LatencyEvent>, next_id: i64, events: Seq<LatencyEvent>)
    -> Seq<LatencyEvent>
    decreases events.len(),
{
    if events.len() == 0 {
        rows
    } else {
        rows_after_store(
            rows_after(rows, next_id, events.drop_last()),
            next_id_after(next_id, events.drop_last()),
            events.last(),
        )
    }
}

/// How many of the events, offered one after another, a store takes.
pub open spec fn count_stored(next_id: i64, events: Seq<LatencyEvent>) -> nat
    decreases events.len(),
{
    if events.len() == 0 {
        0
    } else {
        count_stored(next_id, events.drop_last()) + if store_outcome(
            next_id_after(next_id, events.drop_last()),
            events.last(),
        ) is Ok {
            1nat
        } else {
            0nat
        }
    }
}

/// The duration in microseconds that synthetic event number `i` pretends
/// to have taken: `base_ms` milliseconds and up to `spread_ms - 1` more, in
/// turn; the largest duration there is where that is beyond it.
pub open spec fn synthetic_duration(base_ms: u64, spread_ms: u64, i: int) -> u64 {
    let extra = if spread_ms == 0 {
        0
    } else {
        i % (spread_ms as int)
    };
    if (base_ms + extra) * 1000 <= u64::MAX {
        ((base_ms + extra) * 1000) as u64
    } else {
        u64::MAX
    }
}

/// The synthetic event number `i`, counted from 0, of a test run.
pub open spec fn synthetic_event(
    component: ComponentType,
    label: Seq<char>,
    base_ms: u64,
    spread_ms: u64,
    now: i64,
    i: int,
) -> EventView {
    EventView {
        id: None,
        timestamp: now,
        component_type: component,
        event_source: EventSource::TestCommand,
        duration_us: synthetic_duration(base_ms, spread_ms, i),
        description: label + decimal_text((i + 1) as nat),
        metadata: None,
    }
}

/// The synthetic events of a test run of `iterations` events.
pub open spec fn synthetic_events(
    component: ComponentType,
    label: Seq<char>,
    base_ms: u64,
    spread_ms: u64,
    now: i64,
    iterations: nat,
) -> Seq<EventView> {
    Seq::new(
        iterations,
        |i: int| synthetic_event(component, label, base_ms, spread_ms, now, i),
    )
}

/// The names of the samplers that have not ended, in their order.
pub open spec fn active_names(samplers: Seq<Sampler>) -> Seq<Seq<char>>
    decreases samplers.len(),
{
    if samplers.len() == 0 {
        Seq::empty()
    } else if samplers.last().state == SamplerState::Terminated {
        active_names(samplers.drop_last())
    } else {
        active_names(samplers.drop_last()).push(samplers.last().name@)
    }
}

/// The state and pending stop of a sampler after it was asked to stop.
pub open spec fn stopped(sampler: Sampler) -> Sampler {
    Sampler {
        state: next_transition(sampler.state, sampler.stopping, SamplerInput::Shutdown).state,
        stopping: next_transition(
            sampler.state,
            sampler.stopping,
            SamplerInput::Shutdown,
        ).stopping,
        ..sampler
    }
}

impl LatencyMonitor {
    /// Whether two monitors differ in nothing but their bus.
    pub open spec fn same_but_bus(&self, other: &LatencyMonitor) -> bool {
        &&& self.config == other.config
        &&& self.storage == other.storage
        &&& self.aggregator == other.aggregator
        &&& self.samplers == other.samplers
        &&& self.policy == other.policy
        &&& self.lost == other.lost
        &&& self.running == other.running
    }

    /// Takes the next event off the bus and hands it to the aggregator.
    /// The event is returned for the store to persist.
    pub fn next_event(&mut self) -> (event: Option<LatencyEvent>)
        requires
            old(self).wf(),
        ensures
            final(self).wf(),
            final(self).config == old(self).config,
            final(self).storage == old(self).storage,
            final(self).samplers == old(self).samplers,
            final(self).policy == old(self).policy,
            final(self).lost == old(self).lost,
            final(self).running == old(self).running,
            final(self).bus.capacity() == old(self).bus.capacity(),
            final(self).bus.dropped() == old(self).bus.dropped(),
            old(self).bus.queue().len() == 0 ==> {
                &&& event is None
                &&& final(self).bus.queue() == old(self).bus.queue()
                &&& final(self).aggregator@ == old(self).aggregator@
            },
            old(self).bus.queue().len() > 0 ==> {
                &&& event == Some(old(self).bus.queue()[0])
                &&& final(self).bus.queue() == old(self).bus.queue().skip(1)
                &&& final(self).aggregator@ == old(self).aggregator@.after(
                    event.unwrap().component_type,
                    event.unwrap().timestamp,
                    event.unwrap().duration_us,
                )
            },
    {
        match self.bus.next() {
            None => None,
            Some(event) => {
                self.aggregator.ingest(&event);
                Some(event)
            },
        }
    }

    /// Counts one event as lost: the last attempt to write it has failed.
    /// The bus goes on taking events as before.
    pub fn abandon(&mut self)
        ensures
            final(self).lost == counted(old(self).lost, 1),
            final(self).config == old(self).config,
            final(self).storage == old(self).storage,
            final(self).aggregator == old(self).aggregator,
            final(self).bus == old(self).bus,
            final(self).samplers == old(self).samplers,
            final(self).policy == old(self).policy,
            final(self).running == old(self).running,
    {
        if self.lost < u64::MAX {
            self.lost = self.lost + 1;
        }
    }

    /// Empties the bus: each waiting event, in the order of publication,
    /// goes to the aggregator and then to the store. Returns how many the
    /// store took.
    pub fn process_pending(&mut self) -> (stored: usize)
        requires
            old(self).wf(),
        ensures
            final(self).wf(),
            final(self).config == old(self).config,
            final(self).samplers == old(self).samplers,
            final(self).policy == old(self).policy,
            final(self).lost == old(self).lost,
            final(self).running == old(self).running,
            final(self).bus.capacity() == old(self).bus.capacity(),
            final(self).bus.dropped() == old(self).bus.dropped(),
            final(self).bus.queue() == Seq::<LatencyEvent>::empty(),
            final(self).aggregator@ == aggregated(old(self).aggregator@, old(self).bus.queue()),
            final(self).storage.rows() == rows_after(
                old(self).storage.rows(),
                old(self).storage.next_id(),
                old(self).bus.queue(),
            ),
            final(self).storage.next_id() == next_id_after(
                old(self).storage.next_id(),
                old(self).bus.queue(),
            ),
            stored == count_stored(old(self).storage.next_id(), old(self).bus.queue()),
    {
        let events = self.bus.drain();
        let mut stored: usize = 0;
        let mut i: usize = 0;
        while i < events.len()
            invariant
                self.wf(),
                i <= events.len(),
                stored <= i,
                self.config == old(self).config,
                self.samplers == old(self).samplers,
                self.policy == old(self).policy,
                self.lost == old(self).lost,
                self.running == old(self).running,
                self.bus.capacity() == old(self).bus.capacity(),
                self.bus.dropped() == old(self).bus.dropped(),
                self.bus.queue() == Seq::<LatencyEvent>::empty(),
                self.aggregator@ == aggregated(old(self).aggregator@, events@.take(i as int)),
                self.storage.rows() == rows_after(
                    old(self).storage.rows(),
                    old(self).storage.next_id(),
                    events@.take(i as int),
                ),
                self.storage.next_id() == next_id_after(
                    old(self).storage.next_id(),
                    events@.take(i as int),
                ),
                stored == count_stored(old(self).storage.next_id(), events@.take(i as int)),
            decreases events.len() - i,
        {
            proof {
                assert(events@.take(i as int + 1).drop_last() =~= events@.take(i as int));
            }
            self.aggregator.ingest(&events[i]);
            match self.storage.store_event(&events[i]) {
                Ok(_) => {
                    stored = stored + 1;
                },
                Err(_) => {},
            }
            i = i + 1;
        }
        proof {
            assert(events@.take(events.len() as int) =~= events@);
        }
        stored
    }

    /// Records a measured operation that ended at `now` with `outcome`
    /// after `duration_us` microseconds. Where the operation succeeded, one
    /// event is published, which a full bus drops and counts. Where it
    /// failed, nothing is published and nothing is counted. The outcome is
    /// handed back as it came.
    pub fn record_measurement<T, E>(
        &mut self,
        component: ComponentType,
        source: EventSource,
        description: String,
        duration_us: u64,
        now: i64,
        outcome: Result<T, E>,
    ) -> (result: Result<T, E>)
        requires
            old(self).wf(),
        ensures
            final(self).wf(),
            result == outcome,
            final(self).same_but_bus(old(self)),
            outcome is Err ==> final(self).bus == old(self).bus,
            outcome is Ok ==> {
                let accepted = old(self).bus.queue().len() < old(self).bus.capacity();
                &&& final(self).bus.capacity() == old(self).bus.capacity()
                &&& accepted ==> final(self).bus.dropped() == old(self).bus.dropped() && final(self).bus.queue() == old(self).bus.queue().push(
                    LatencyEvent {
                        id: None,
                        timestamp: now,
                        component_type: component,
                        event_source: source,
                        duration_us,
                        description,
                        metadata: None,
                    },
                )
                &&& !accepted ==> final(self).bus.queue() == old(self).bus.queue() && final(self).bus.dropped() == counted(old(self).bus.dropped(), 1)
            },
    {
        if outcome.is_ok() {
            self.bus.publish(LatencyEvent::at(now, component, source, duration_us, description));
        }
        outcome
    }

    /// Records a measured operation that has just ended with `outcome`
    /// after `duration_us` microseconds: as `record_measurement` does, with
    /// the current time as the event's timestamp.
    pub fn measure_command_latency<T, E>(
        &mut self,
        component: ComponentType,
        source: EventSource,
        description: String,
        duration_us: u64,
        outcome: Result<T, E>,
    ) -> (result: Result<T, E>)
        requires
            old(self).wf(),
        ensures
            final(self).wf(),
            result == outcome,
            final(self).same_but_bus(old(self)),
            outcome is Err ==> final(self).bus == old(self).bus,
            outcome is Ok ==> {
                let accepted = old(self).bus.queue().len() < old(self).bus.capacity();
                &&& final(self).bus.capacity() == old(self).bus.capacity()
                &&& accepted ==> final(self).bus.dropped() == old(self).bus.dropped() && final(self).bus.queue() == old(self).bus.queue().push(
                    LatencyEvent {
                        id: None,
                        timestamp: final(self).bus.queue().last().timestamp,
                        component_type: component,
                        event_source: source,
                        duration_us,
                        description,
                        metadata: None,
                    },
                )
                &&& !accepted ==> final(self).bus.queue() == old(self).bus.queue() && final(self).bus.dropped() == counted(old(self).bus.dropped(), 1)
            },
    {
        let now = now_micros();
        self.record_measurement(component, source, description, duration_us, now, outcome)
    }

    /// Publishes `iterations` synthetic events of a class, all stamped
    /// `now`, and returns how many the bus took. Event number `i`, counted
    /// from 0, pretends to have taken `base_ms + i % spread_ms`
    /// milliseconds, or `base_ms` where there is no spread, and is
    /// described by `label` and its number from 1.
    pub fn emit_synthetic(
        &mut self,
        component: ComponentType,
        label: &str,
        base_ms: u64,
        spread_ms: u64,
        iterations: usize,
        now: i64,
    ) -> (accepted: usize)
        requires
            old(self).wf(),
        ensures
            final(self).wf(),
            final(self).same_but_bus(old(self)),
            final(self).bus.capacity() == old(self).bus.capacity(),
            accepted == taken(
                old(self).bus.queue().len(),
                old(self).bus.capacity(),
                iterations as nat,
            ),
            event_views(final(self).bus.queue()) == event_views(old(self).bus.queue())
                + synthetic_events(component, label@, base_ms, spread_ms, now, iterations as nat).take(
                accepted as int,
            ),
            final(self).bus.dropped() == counted(
                old(self).bus.dropped(),
                (iterations - accepted) as nat,
            ),
    {
        let mut events: Vec<LatencyEvent> = Vec::new();
        let mut i: usize = 0;
        while i < iterations
            invariant
                i <= iterations,
                events.len() == i,
                forall|j: int|
                    0 <= j < i ==> (#[trigger] events[j])@ == synthetic_event(
                        component,
                        label@,
                        base_ms,
                        spread_ms,
                        now,
                        j,
                    ),
            decreases iterations - i,
        {
            let extra: u64 = if spread_ms == 0 {
                0
            } else {
                (i as u64) % spread_ms
            };
            let millis: u128 = base_ms as u128 + extra as u128;
            let duration_us: u64 = if millis * 1000 <= u64::MAX as u128 {
                (millis * 1000) as u64
            } else {
                u64::MAX
            };
            let number = decimal(i as u64 + 1);
            let description = String::from_str(label).concat(number.as_str());
            events.push(
                LatencyEvent::at(
                    now,
                    component,
                    EventSource::TestCommand,
                    duration_us,
                    description,
                ),
            );
            i = i + 1;
        }
        let accepted = self.bus.publish_all(&events);
        accepted
    }
}

impl LatencyMonitor {
    /// Publishes the synthetic events of a test of the editor sampler,
    /// stamped with the current time: event number `i`, counted from 0,
    /// pretends to have taken `10 + i % 50` milliseconds.
    pub fn test_vscode_monitoring(&mut self, iterations: usize) -> (accepted: usize)
        requires
            old(self).wf(),
        ensures
            final(self).wf(),
            final(self).same_but_bus(old(self)),
            final(self).bus.capacity() == old(self).bus.capacity(),
            accepted == taken(
                old(self).bus.queue().len(),
                old(self).bus.capacity(),
                iterations as nat,
            ),
            exists|now: i64|
                event_views(final(self).bus.queue()) == event_views(old(self).bus.queue())
                    + (#[trigger] synthetic_events(
                    ComponentType::VSCode,
                    "Test VS Code command #"@,
                    10,
                    50,
                    now,
                    iterations as nat,
                )).take(accepted as int),
            final(self).bus.dropped() == counted(
                old(self).bus.dropped(),
                (iterations - accepted) as nat,
            ),
    {
        let now = now_micros();
        self.emit_synthetic(
            ComponentType::VSCode,
            "Test VS Code command #",
            10,
            50,
            iterations,
            now,
        )
    }

    /// Publishes the synthetic events of a test of the model sampler,
    /// stamped with the current time: event number `i`, counted from 0,
    /// pretends to have taken `100 + i % 200` milliseconds.
    pub fn test_model_monitoring(&mut self, iterations: usize) -> (accepted: usize)
        requires
            old(self).wf(),
        ensures
            final(self).wf(),
            final(self).same_but_bus(old(self)),
            final(self).bus.capacity() == old(self).bus.capacity(),
            accepted == taken(
                old(self).bus.queue().len(),
                old(self).bus.capacity(),
                iterations as nat,
            ),
            exists|now: i64|
                event_views(final(self).bus.queue()) == event_views(old(self).bus.queue())
                    + (#[trigger] synthetic_events(
                    ComponentType::GitHubCopilot,
                    "Test model interaction #"@,
                    100,
                    200,
                    now,
                    iterations as nat,
                )).take(accepted as int),
            final(self).bus.dropped() == counted(
                old(self).bus.dropped(),
                (iterations - accepted) as nat,
            ),
    {
        let now = now_micros();
        self.emit_synthetic(
            ComponentType::GitHubCopilot,
            "Test model interaction #",
            100,
            200,
            iterations,
            now,
        )
    }

    /// Publishes the synthetic events of a test of the terminal sampler,
    /// stamped with the current time: event number `i`, counted from 0,
    /// pretends to have taken `20 + i % 80` milliseconds.
    pub fn test_terminal_monitoring(&mut self, iterations: usize) -> (accepted: usize)
        requires
            old(self).wf(),
        ensures
            final(self).wf(),
            final(self).same_but_bus(old(self)),
            final(self).bus.capacity() == old(self).bus.capacity(),
            accepted == taken(
                old(self).bus.queue().len(),
                old(self).bus.capacity(),
                iterations as nat,
            ),
            exists|now: i64|
                event_views(final(self).bus.queue()) == event_views(old(self).bus.queue())
                    + (#[trigger] synthetic_events(
                    ComponentType::Terminal,
                    "Test terminal command #"@,
                    20,
                    80,
                    now,
                    iterations as nat,
                )).take(accepted as int),
            final(self).bus.dropped() == counted(
                old(self).bus.dropped(),
                (iterations - accepted) as nat,
            ),
    {
        let now = now_micros();
        self.emit_synthetic(
            ComponentType::Terminal,
            "Test terminal command #",
            20,
            80,
            iterations,
            now,
        )
    }

    /// Runs the three tests one after another, all stamped with the
    /// current time, and returns how many events the bus took in all.
    pub fn test_all_components(&mut self, iterations: usize) -> (accepted: usize)
        requires
            old(self).wf(),
        ensures
            final(self).wf(),
            final(self).same_but_bus(old(self)),
            final(self).bus.capacity() == old(self).bus.capacity(),
            ({
                let len = old(self).bus.queue().len();
                let capacity = old(self).bus.capacity();
                let first = taken(len, capacity, iterations as nat);
                let second = taken(len + first, capacity, iterations as nat);
                let third = taken(len + first + second, capacity, iterations as nat);
                &&& accepted == first + second + third
                &&& final(self).bus.dropped() == counted(
                    old(self).bus.dropped(),
                    (3 * iterations - accepted) as nat,
                )
                &&& exists|now: i64|
                    event_views(final(self).bus.queue()) == event_views(old(self).bus.queue())
                        + (#[trigger] synthetic_events(
                        ComponentType::VSCode,
                        "Test VS Code command #"@,
                        10,
                        50,
                        now,
                        iterations as nat,
                    )).take(first as int) + synthetic_events(
                        ComponentType::GitHubCopilot,
                        "Test model interaction #"@,
                        100,
                        200,
                        now,
                        iterations as nat,
                    ).take(second as int) + synthetic_events(
                        ComponentType::Terminal,
                        "Test terminal command #"@,
                        20,
                        80,
                        now,
                        iterations as nat,
                    ).take(third as int)
            }),
    {
        proof {
            self.bus.lemma_bounded();
        }
        let now = now_micros();
        let first = self.emit_synthetic(
            ComponentType::VSCode,
            "Test VS Code command #",
            10,
            50,
            iterations,
            now,
        );
        let second = self.emit_synthetic(
            ComponentType::GitHubCopilot,
            "Test model interaction #",
            100,
            200,
            iterations,
            now,
        );
        let third = self.emit_synthetic(
            ComponentType::Terminal,
            "Test terminal command #",
            20,
            80,
            iterations,
            now,
        );
        first + second + third
    }

    /// Asks every sampler to stop and marks the monitor as not running. A
    /// sampler in the middle of a tick ends when the tick is done.
    pub fn stop(&mut self)
        ensures
            !final(self).running,
            final(self).config == old(self).config,
            final(self).storage == old(self).storage,
            final(self).aggregator == old(self).aggregator,
            final(self).bus == old(self).bus,
            final(self).policy == old(self).policy,
            final(self).lost == old(self).lost,
            final(self).samplers@.len() == old(self).samplers@.len(),
            forall|i: int|
                0 <= i < old(self).samplers@.len() ==> #[trigger] final(self).samplers[i]
                    == stopped(old(self).samplers[i]),
    {
        self.running = false;
        let mut i: usize = 0;
        while i < self.samplers.len()
            invariant
                i <= self.samplers.len(),
                !self.running,
                self.config == old(self).config,
                self.storage == old(self).storage,
                self.aggregator == old(self).aggregator,
                self.bus == old(self).bus,
                self.policy == old(self).policy,
                self.lost == old(self).lost,
                self.samplers@.len() == old(self).samplers@.len(),
                forall|j: int|
                    0 <= j < i ==> #[trigger] self.samplers[j] == stopped(old(self).samplers[j]),
                forall|j: int|
                    i <= j < self.samplers@.len() ==> #[trigger] self.samplers[j] == old(self).samplers[j],
            decreases self.samplers.len() - i,
        {
            self.samplers[i].request_stop();
            i = i + 1;
        }
    }

    /// Stops gracefully: no new samples are taken, and what waits on the
    /// bus goes to the aggregator and the store. Returns how many events
    /// the store took.
    pub fn stop_gracefully(&mut self) -> (stored: usize)
        requires
            old(self).wf(),
        ensures
            final(self).wf(),
            !final(self).running,
            final(self).config == old(self).config,
            final(self).policy == old(self).policy,
            final(self).lost == old(self).lost,
            final(self).samplers@.len() == old(self).samplers@.len(),
            forall|i: int|
                0 <= i < old(self).samplers@.len() ==> #[trigger] final(self).samplers[i]
                    == stopped(old(self).samplers[i]),
            final(self).bus.capacity() == old(self).bus.capacity(),
            final(self).bus.dropped() == old(self).bus.dropped(),
            final(self).bus.queue() == Seq::<LatencyEvent>::empty(),
            final(self).aggregator@ == aggregated(old(self).aggregator@, old(self).bus.queue()),
            final(self).storage.rows() == rows_after(
                old(self).storage.rows(),
                old(self).storage.next_id(),
                old(self).bus.queue(),
            ),
            final(self).storage.next_id() == next_id_after(
                old(self).storage.next_id(),
                old(self).bus.queue(),
            ),
            stored == count_stored(old(self).storage.next_id(), old(self).bus.queue()),
    {
        self.stop();
        self.process_pending()
    }

    /// Stops at once: no new samples are taken, and what waits on the bus
    /// is thrown away, neither aggregated nor stored. Returns how many
    /// events were thrown away.
    pub fn stop_forced(&mut self) -> (discarded: usize)
        requires
            old(self).wf(),
        ensures
            final(self).wf(),
            !final(self).running,
            final(self).config == old(self).config,
            final(self).storage == old(self).storage,
            final(self).aggregator == old(self).aggregator,
            final(self).policy == old(self).policy,
            final(self).lost == old(self).lost,
            final(self).samplers@.len() == old(self).samplers@.len(),
            forall|i: int|
                0 <= i < old(self).samplers@.len() ==> #[trigger] final(self).samplers[i]
                    == stopped(old(self).samplers[i]),
            final(self).bus.capacity() == old(self).bus.capacity(),
            final(self).bus.dropped() == old(self).bus.dropped(),
            final(self).bus.queue() == Seq::<LatencyEvent>::empty(),
            discarded == old(self).bus.queue().len(),
    {
        self.stop();
        self.bus.discard()
    }

    /// The names of the samplers that have not ended.
    pub fn active_monitors(&self) -> (names: Vec<String>)
        ensures
            texts(names@) == active_names(self.samplers@),
    {
        let mut names: Vec<String> = Vec::new();
        let mut i: usize = 0;
        while i < self.samplers.len()
            invariant
                i <= self.samplers.len(),
                texts(names@) == active_names(self.samplers@.take(i as int)),
            decreases self.samplers.len() - i,
        {
            proof {
                assert(self.samplers@.take(i as int + 1).drop_last() =~= self.samplers@.take(
                    i as int,
                ));
            }
            if !self.samplers[i].is_terminated() {
                names.push(self.samplers[i].name.clone());
            }
            i = i + 1;
        }
        proof {
            assert(self.samplers@.take(self.samplers.len() as int) =~= self.samplers@);
        }
        names
    }

    /// The status of the system at `now`, with `vitals` as what the
    /// machine reports of itself.
    pub fn status(&self, vitals: Vitals, now: i64) -> (status: SystemStatus)
        requires
            self.wf(),
        ensures
            status.summary@ == summary_text(true),
            status.total_events == self.storage.rows().len(),
            status.dropped_events == self.bus.dropped(),
            texts(status.active_monitors@) == active_names(self.samplers@),
            status.last_event_timestamp == (if self.storage.rows().len() == 0 {
                None
            } else {
                Some(self.storage.rows().last().timestamp)
            }),
            status.uptime_seconds == vitals.uptime_seconds,
            status.memory_usage_mb == vitals.memory_usage_mb,
            status.cpu_usage_millipercent == vitals.cpu_usage_millipercent,
            status.performance_metrics@ == self.aggregator@.listed(now, CLASS_COUNT as nat),
    {
        self.storage.get_system_status(
            Some(&self.aggregator),
            self.active_monitors(),
            self.bus.dropped_events(),
            vitals,
            now,
        )
    }

    /// One run of the retention compactor at `now`: the stored events
    /// older than the configured number of days are deleted, an event
    /// exactly that old stays. Returns how many were deleted. The bus, the
    /// aggregator and the samplers are not touched.
    pub fn run_retention(&mut self, now: i64) -> (removed: u64)
        requires
            old(self).wf(),
        ensures
            final(self).wf(),
            final(self).config == old(self).config,
            final(self).aggregator == old(self).aggregator,
            final(self).bus == old(self).bus,
            final(self).samplers == old(self).samplers,
            final(self).policy == old(self).policy,
            final(self).lost == old(self).lost,
            final(self).running == old(self).running,
            final(self).storage.next_id() == old(self).storage.next_id(),
            removed == count_older(
                old(self).storage.rows(),
                retention_cutoff(now, old(self).config.storage.retention_days),
            ),
            final(self).storage.rows() == old(self).storage.rows().skip(removed as int),
    {
        self.storage.cleanup_old_events(now, self.config.storage.retention_days)
    }
}

/// Which samplers a component name stands for.
#[derive(Debug, Clone, Copy, PartialEq, Eq, Structural)]
pub enum Component {
    VSCode,
    Models,
    Terminal,
    All,
}

/// The samplers that a component name stands for: `vscode`, `models`,
/// `terminal`, or `all` for the three of them.
pub open spec fn component_named(name: Seq<char>) -> Option<Component> {
    if name == "vscode"@ {
        Some(Component::VSCode)
    } else if name == "models"@ {
        Some(Component::Models)
    } else if name == "terminal"@ {
        Some(Component::Terminal)
    } else if name == "all"@ {
        Some(Component::All)
    } else {
        None
    }
}

/// Reads a component name.
pub fn parse_component(name: &str) -> (component: Option<Component>)
    ensures
        component == component_named(name@),
{
    if same_text(name, "vscode") {
        Some(Component::VSCode)
    } else if same_text(name, "models") {
        Some(Component::Models)
    } else if same_text(name, "terminal") {
        Some(Component::Terminal)
    } else if same_text(name, "all") {
        Some(Component::All)
    } else {
        None
    }
}

impl LatencyMonitor {
    /// Adds the samplers of the component named, at the interval given;
    /// `all` adds the three samplers as `start_all_monitoring` does. An
    /// unknown name is refused, and nothing is added on an error.
    pub fn start_monitoring(&mut self, component: &str, interval_ms: u64) -> (added: Result<
        (),
        MonitorError,
    >)
        ensures
            final(self).same_but_samplers(old(self)),
            added is Err ==> final(self).samplers == old(self).samplers,
            component_named(component@) is None ==> added == Err::<(), MonitorError>(
                MonitorError::UnknownComponent,
            ),
            component_named(component@) is Some && interval_ms == 0 ==> added == Err::<
                (),
                MonitorError,
            >(MonitorError::ZeroInterval),
            component_named(component@) == Some(Component::All) && interval_ms > u64::MAX / 2
                ==> added == Err::<(), MonitorError>(MonitorError::IntervalOutOfRange),
            component_named(component@) is Some && interval_ms > 0 && (component_named(
                component@,
            ) != Some(Component::All) || interval_ms <= u64::MAX / 2) ==> {
                let first = old(self).samplers@.len() as int;
                let which = component_named(component@).unwrap();
                &&& added is Ok
                &&& final(self).samplers@.take(first) == old(self).samplers@
                &&& match which {
                    Component::VSCode => {
                        &&& final(self).samplers@.len() == first + 1
                        &&& fresh_sampler(
                            final(self).samplers[first],
                            "VS Code Monitor"@,
                            interval_ms,
                        )
                        &&& vscode_table(final(self).samplers[first].rules@)
                    },
                    Component::Models => {
                        &&& final(self).samplers@.len() == first + 1
                        &&& fresh_sampler(final(self).samplers[first], "Model Monitor"@, interval_ms)
                        &&& model_table(final(self).samplers[first].rules@)
                    },
                    Component::Terminal => {
                        &&& final(self).samplers@.len() == first + 1
                        &&& fresh_sampler(
                            final(self).samplers[first],
                            "Terminal Monitor"@,
                            interval_ms,
                        )
                        &&& terminal_table(final(self).samplers[first].rules@)
                    },
                    Component::All => {
                        &&& final(self).samplers@.len() == first + 3
                        &&& fresh_sampler(
                            final(self).samplers[first],
                            "VS Code Monitor"@,
                            interval_ms,
                        )
                        &&& vscode_table(final(self).samplers[first].rules@)
                        &&& fresh_sampler(
                            final(self).samplers[first + 1],
                            "Model Monitor"@,
                            (2 * interval_ms) as u64,
                        )
                        &&& model_table(final(self).samplers[first + 1].rules@)
                        &&& fresh_sampler(
                            final(self).samplers[first + 2],
                            "Terminal Monitor"@,
                            interval_ms,
                        )
                        &&& terminal_table(final(self).samplers[first + 2].rules@)
                    },
                }
            },
    {
        let added = match parse_component(component) {
            None => {
                return Err(MonitorError::UnknownComponent);
            },
            Some(Component::All) => {
                return self.start_all_monitoring(interval_ms);
            },
            Some(Component::VSCode) => self.start_vscode_monitoring(interval_ms),
            Some(Component::Models) => self.start_model_monitoring(interval_ms),
            Some(Component::Terminal) => self.start_terminal_monitoring(interval_ms),
        };
        match added {
            Ok(_) => Ok(()),
            Err(error) => Err(error),
        }
    }
}

/// Whether a row is one of the events as the store keeps it: the event
/// with an identifier of the store's.
pub open spec fn kept_from(row: LatencyEvent, events: Seq<LatencyEvent>) -> bool {
    exists|k: int|
        0 <= k < events.len() && row == (LatencyEvent { id: row.id, ..#[trigger] events[k] })
}

/// What the store holds after it was offered events is what it held
/// before and events among those offered, each unchanged but for its
/// identifier: of the class, source, duration, timestamp and description
/// that it came with.
pub proof fn lemma_rows_come_from_events(
    rows: Seq<LatencyEvent>,
    next_id: i64,
    events: Seq<LatencyEvent>,
    i: int,
)
    requires
        0 <= i < rows_after(rows, next_id, events).len(),
    ensures
        rows.contains(rows_after(rows, next_id, events)[i]) || kept_from(
            rows_after(rows, next_id, events)[i],
            events,
        ),
    decreases events.len(),
{
    if events.len() > 0 {
        let earlier = rows_after(rows, next_id, events.drop_last());
        let id = next_id_after(next_id, events.drop_last());
        let event = events.last();
        if store_outcome(id, event) is Ok {
            let at = rank_after(earlier, event.timestamp);
            lemma_rank_in_range(earlier, event.timestamp);
            if i < at {
                lemma_rows_come_from_events(rows, next_id, events.drop_last(), i);
            } else if i > at {
                lemma_rows_come_from_events(rows, next_id, events.drop_last(), i - 1);
            }
        } else {
            lemma_rows_come_from_events(rows, next_id, events.drop_last(), i);
        }
    }
}

/// The position that a new row takes lies within the rows or just behind.
proof fn lemma_rank_in_range(rows: Seq<LatencyEvent>, at: i64)
    ensures
        0 <= rank_after(rows, at) <= rows.len(),
    decreases rows.len(),
{
    if rows.len() > 0 {
        lemma_rank_in_range(rows.drop_last(), at);
    }
}

} // verus!
