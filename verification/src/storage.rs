//! The persistence sink's store: events in the order of their timestamps,
//! each under the identifier that storing it assigned.

use vstd::prelude::*;
use crate::clock::retention_cutoff;
use vstd::string::*;
use crate::aggregator::Aggregator;
use crate::models::{CLASS_COUNT, LatencyEvent, PerformanceMetrics, SystemStatus};

verus! {

/// Why the store refused an event.
#[derive(Debug, Clone, Copy, PartialEq, Eq, Structural)]
pub enum StorageError {
    /// The event already carries an identifier.
    AlreadyPersisted,
    /// No identifier is left to assign.
    IdsExhausted,
    /// A loaded event carries no identifier.
    MissingId,
    /// A loaded event's identifier is not above all those assigned so far.
    IdOutOfOrder,
    /// The timestamp has no text form.
    TimestampOutOfRange,
    /// The duration does not fit the stored integer.
    DurationOutOfRange,
    /// The stored timestamp is no RFC 3339 text.
    BadTimestamp,
    /// The stored duration is negative.
    NegativeDuration,
}

/// Timestamps never decrease along the rows.
pub open spec fn ordered(rows: Seq<LatencyEvent>) -> bool {
    forall|i: int, j: int| 0 <= i < j < rows.len() ==> rows[i].timestamp <= rows[j].timestamp
}

/// Every row has an identifier, positive and below `next_id`, and no two
/// rows share one.
pub open spec fn identified(rows: Seq<LatencyEvent>, next_id: i64) -> bool {
    &&& forall|i: int|
        0 <= i < rows.len() ==> (#[trigger] rows[i]).id is Some && 0 < rows[i].id.unwrap()
            < next_id
    &&& forall|i: int, j: int|
        0 <= i < j < rows.len() ==> (#[trigger] rows[i]).id != (#[trigger] rows[j]).id
}

/// The position just behind the last row that is not newer than `at`.
pub open spec fn rank_after(rows: Seq<LatencyEvent>, at: i64) -> int
    decreases rows.len(),
{
    if rows.len() == 0 {
        0
    } else if rows.last().timestamp <= at {
        rows.len() as int
    } else {
        rank_after(rows.drop_last(), at)
    }
}

/// How many rows at the front are older than `cutoff`.
pub open spec fn count_older(rows: Seq<LatencyEvent>, cutoff: int) -> int
    decreases rows.len(),
{
    if rows.len() == 0 {
        0
    } else if rows[0].timestamp < cutoff {
        1 + count_older(rows.skip(1), cutoff)
    } else {
        0
    }
}

/// The `limit` last rows, last first; all of them where there are fewer.
pub open spec fn newest(rows: Seq<LatencyEvent>, limit: nat) -> Seq<LatencyEvent> {
    Seq::new(
        if limit <= rows.len() {
            limit
        } else {
            rows.len()
        },
        |i: int| rows[rows.len() - 1 - i],
    )
}

/// What storing an event answers to a store whose next identifier is
/// `next_id`.
pub open spec fn store_outcome(next_id: i64, event: LatencyEvent) -> Result<i64, StorageError> {
    if event.id is Some {
        Err(StorageError::AlreadyPersisted)
    } else if next_id == i64::MAX {
        Err(StorageError::IdsExhausted)
    } else {
        Ok(next_id)
    }
}

/// The rows after an event was offered for storing: an event that is taken
/// goes, under the next identifier, behind every row that is not newer.
pub open spec fn rows_after_store(rows: Seq<LatencyEvent>, next_id: i64, event: LatencyEvent)
    -> Seq<LatencyEvent> {
    if store_outcome(next_id, event) is Ok {
        rows.insert(rank_after(rows, event.timestamp), LatencyEvent { id: Some(next_id), ..event })
    } else {
        rows
    }
}

/// The next identifier after an event was offered for storing.
pub open spec fn id_after_store(next_id: i64, event: LatencyEvent) -> i64 {
    if store_outcome(next_id, event) is Ok {
        (next_id + 1) as i64
    } else {
        next_id
    }
}

proof fn lemma_rank_after(rows: Seq<LatencyEvent>, at: i64, pos: int)
    requires
        0 <= pos <= rows.len(),
        forall|j: int| pos <= j < rows.len() ==> rows[j].timestamp > at,
        pos == 0 || rows[pos - 1].timestamp <= at,
    ensures
        rank_after(rows, at) == pos,
    decreases rows.len(),
{
    if rows.len() > 0 && pos < rows.len() {
        lemma_rank_after(rows.drop_last(), at, pos);
    }
}

proof fn lemma_count_older(rows: Seq<LatencyEvent>, cutoff: int, k: int)
    requires
        0 <= k <= rows.len(),
        forall|j: int| 0 <= j < k ==> rows[j].timestamp < cutoff,
        k == rows.len() || rows[k].timestamp >= cutoff,
    ensures
        count_older(rows, cutoff) == k,
    decreases rows.len(),
{
    if rows.len() > 0 && k > 0 {
        lemma_count_older(rows.skip(1), cutoff, k - 1);
    }
}

/// The event store of the persistence sink.
pub struct MetricsStorage {
    rows: Vec<LatencyEvent>,
    next_id: i64,
}

impl MetricsStorage {
    /// The stored events, oldest first; events of one timestamp stand in
    /// the order in which they were stored.
    pub closed spec fn rows(&self) -> Seq<LatencyEvent> {
        self.rows@
    }

    /// The identifier that the next stored event gets.
    pub closed spec fn next_id(&self) -> i64 {
        self.next_id
    }

    /// The store's invariant.
    pub open spec fn wf(&self) -> bool {
        &&& ordered(self.rows())
        &&& identified(self.rows(), self.next_id())
        &&& self.next_id() >= 1
    }

    /// An empty store whose first identifier is 1.
    pub fn new() -> (store: MetricsStorage)
        ensures
            store.wf(),
            store.rows() == Seq::<LatencyEvent>::empty(),
            store.next_id() == 1,
    {
        MetricsStorage { rows: Vec::new(), next_id: 1 }
    }

    /// How many events are stored.
    pub fn total_events(&self) -> (count: u64)
        ensures
            count == self.rows().len(),
    {
        self.rows.len() as u64
    }

    /// The timestamp of the newest stored event.
    pub fn last_event_timestamp(&self) -> (last: Option<i64>)
        ensures
            self.rows().len() == 0 ==> last is None,
            self.rows().len() > 0 ==> last == Some(self.rows().last().timestamp),
    {
        let n = self.rows.len();
        if n == 0 {
            None
        } else {
            Some(self.rows[n - 1].timestamp)
        }
    }

    /// Stores a copy of the event under the next identifier and returns the
    /// identifier. The copy goes behind every stored event that is not
    /// newer than it. An event that already has an identifier is refused,
    /// and so is any event once the identifiers have run out.
    pub fn store_event(&mut self, event: &LatencyEvent) -> (stored: Result<i64, StorageError>)
        requires
            old(self).wf(),
        ensures
            final(self).wf(),
            stored == store_outcome(old(self).next_id(), *event),
            final(self).rows() == rows_after_store(old(self).rows(), old(self).next_id(), *event),
            final(self).next_id() == id_after_store(old(self).next_id(), *event),
    {
        if event.id.is_some() {
            return Err(StorageError::AlreadyPersisted);
        }
        if self.next_id == i64::MAX {
            return Err(StorageError::IdsExhausted);
        }
        let id = self.next_id;
        let mut row = event.duplicate();
        row.id = Some(id);
        let mut pos: usize = self.rows.len();
        while pos > 0 && self.rows[pos - 1].timestamp > event.timestamp
            invariant
                pos <= self.rows.len(),
                forall|j: int| pos <= j < self.rows.len() ==> self.rows[j].timestamp > event.timestamp,
            decreases pos,
        {
            pos = pos - 1;
        }
        proof {
            lemma_rank_after(self.rows@, event.timestamp, pos as int);
        }
        self.rows.insert(pos, row);
        self.next_id = id + 1;
        Ok(id)
    }

    /// Takes in an event that was persisted before, under the identifier
    /// it carries. The identifier must lie above all those assigned so far.
    pub fn load_event(&mut self, event: &LatencyEvent) -> (loaded: Result<(), StorageError>)
        requires
            old(self).wf(),
        ensures
            final(self).wf(),
            event.id is None ==> loaded == Err::<(), StorageError>(StorageError::MissingId),
            event.id matches Some(id) ==> (if id < old(self).next_id() {
                loaded == Err::<(), StorageError>(StorageError::IdOutOfOrder)
            } else if id == i64::MAX {
                loaded == Err::<(), StorageError>(StorageError::IdsExhausted)
            } else {
                loaded is Ok
            }),
            loaded is Err ==> final(self).rows() == old(self).rows() && final(self).next_id()
                == old(self).next_id(),
            loaded is Ok ==> final(self).next_id() == event.id.unwrap() + 1 && final(self).rows() == old(self).rows().insert(
                rank_after(old(self).rows(), event.timestamp),
                *event,
            ),
    {
        let id = match event.id {
            None => {
                return Err(StorageError::MissingId);
            },
            Some(id) => id,
        };
        if id < self.next_id {
            return Err(StorageError::IdOutOfOrder);
        }
        if id == i64::MAX {
            return Err(StorageError::IdsExhausted);
        }
        let mut unsaved = event.duplicate();
        unsaved.id = None;
        self.next_id = id;
        let stored = self.store_event(&unsaved);
        Ok(())
    }

    /// Up to `limit` events, newest first.
    pub fn get_recent_events(&self, limit: u32) -> (events: Vec<LatencyEvent>)
        requires
            self.wf(),
        ensures
            events@ == newest(self.rows(), limit as nat),
            forall|i: int, j: int|
                0 <= i < j < events.len() ==> events[i].timestamp >= events[j].timestamp,
    {
        let n = self.rows.len();
        let count: usize = if (limit as usize) <= n {
            limit as usize
        } else {
            n
        };
        let mut events: Vec<LatencyEvent> = Vec::new();
        let mut i: usize = 0;
        while i < count
            invariant
                i <= count <= n,
                n == self.rows.len(),
                events.len() == i,
                forall|j: int| 0 <= j < i ==> events[j] == self.rows[n - 1 - j],
            decreases count - i,
        {
            events.push(self.rows[n - 1 - i].duplicate());
            i = i + 1;
        }
        events
    }

    /// Deletes the events older than `cutoff` and returns how many they
    /// were. An event whose timestamp equals `cutoff` stays.
    pub fn purge(&mut self, cutoff: i64) -> (removed: u64)
        requires
            old(self).wf(),
        ensures
            final(self).wf(),
            final(self).next_id() == old(self).next_id(),
            removed == count_older(old(self).rows(), cutoff as int),
            final(self).rows() == old(self).rows().skip(removed as int),
            forall|i: int|
                0 <= i < old(self).rows().len() ==> (final(self).rows().contains(
                    #[trigger] old(self).rows()[i],
                ) <==> old(self).rows()[i].timestamp >= cutoff),
            forall|i: int|
                0 <= i < final(self).rows().len() ==> old(self).rows().contains(
                    #[trigger] final(self).rows()[i],
                ),
    {
        let n = self.rows.len();
        let mut k: usize = 0;
        while k < n && self.rows[k].timestamp < cutoff
            invariant
                k <= n,
                n == self.rows.len(),
                forall|j: int| 0 <= j < k ==> self.rows[j].timestamp < cutoff,
            decreases n - k,
        {
            k = k + 1;
        }
        let ghost before = self.rows@;
        proof {
            lemma_count_older(before, cutoff as int, k as int);
        }
        let kept = self.rows.split_off(k);
        self.rows = kept;
        proof {
            let after = self.rows@;
            assert forall|i: int| 0 <= i < before.len() implies (after.contains(
                #[trigger] before[i],
            ) <==> before[i].timestamp >= cutoff) by {
                if before[i].timestamp >= cutoff {
                    assert(after[i - k] == before[i]);
                }
            }
        }
        k as u64
    }

    /// The identifiers of the events older than `cutoff`, oldest first:
    /// those that `purge` would delete.
    pub fn older_than(&self, cutoff: i64) -> (ids: Vec<i64>)
        requires
            self.wf(),
        ensures
            ids.len() == count_older(self.rows(), cutoff as int),
            forall|i: int| 0 <= i < ids.len() ==> self.rows()[i].id == Some(#[trigger] ids[i]),
    {
        let mut ids: Vec<i64> = Vec::new();
        let mut k: usize = 0;
        while k < self.rows.len() && self.rows[k].timestamp < cutoff
            invariant
                self.wf(),
                k <= self.rows.len(),
                ids.len() == k,
                forall|j: int| 0 <= j < k ==> self.rows[j].timestamp < cutoff,
                forall|j: int| 0 <= j < k ==> self.rows[j].id == Some(#[trigger] ids[j]),
            decreases self.rows.len() - k,
        {
            let id = match self.rows[k].id {
                Some(id) => id,
                None => vstd::pervasive::unreached(),
            };
            ids.push(id);
            k = k + 1;
        }
        proof {
            lemma_count_older(self.rows@, cutoff as int, k as int);
        }
        ids
    }

    /// Deletes the events that at `now` are older than `retention_days`
    /// days, and returns how many they were. An event exactly at the
    /// horizon stays.
    pub fn cleanup_old_events(&mut self, now: i64, retention_days: u32) -> (removed: u64)
        requires
            old(self).wf(),
        ensures
            final(self).wf(),
            final(self).next_id() == old(self).next_id(),
            removed == count_older(old(self).rows(), retention_cutoff(now, retention_days)),
            final(self).rows() == old(self).rows().skip(removed as int),
            forall|i: int|
                0 <= i < old(self).rows().len() ==> (final(self).rows().contains(
                    #[trigger] old(self).rows()[i],
                ) <==> old(self).rows()[i].timestamp >= retention_cutoff(now, retention_days)),
            forall|i: int|
                0 <= i < final(self).rows().len() ==> old(self).rows().contains(
                    #[trigger] final(self).rows()[i],
                ),
    {
        let cutoff = horizon(now, retention_days);
        self.purge(cutoff)
    }
}

/// No two stored events share an identifier, and the identifier that the
/// next stored event gets is held by none of them.
pub proof fn lemma_ids_unique(store: &MetricsStorage)
    requires
        store.wf(),
    ensures
        forall|i: int, j: int|
            0 <= i < store.rows().len() && 0 <= j < store.rows().len() && i != j ==> (
            #[trigger] store.rows()[i]).id != (#[trigger] store.rows()[j]).id,
        forall|i: int|
            0 <= i < store.rows().len() ==> (#[trigger] store.rows()[i]).id is Some
                && store.rows()[i].id != Some(store.next_id()),
{
}

/// The events that a store hands out as its newest never grow newer along
/// the list, and no two of them share an identifier.
pub proof fn lemma_recent_ordered(store: &MetricsStorage, limit: nat)
    requires
        store.wf(),
    ensures
        forall|i: int, j: int|
            0 <= i < j < newest(store.rows(), limit).len() ==> {
                &&& newest(store.rows(), limit)[i].timestamp >= newest(
                    store.rows(),
                    limit,
                )[j].timestamp
                &&& newest(store.rows(), limit)[i].id != newest(store.rows(), limit)[j].id
            },
{
    let rows = store.rows();
    let recent = newest(rows, limit);
    assert forall|i: int, j: int| 0 <= i < j < recent.len() implies {
        &&& recent[i].timestamp >= recent[j].timestamp
        &&& recent[i].id != recent[j].id
    } by {}
}

/// The instant before which events are past the retention horizon at
/// `now`, or the earliest instant there is if the horizon lies before it.
pub fn horizon(now: i64, retention_days: u32) -> (cutoff: i64)
    ensures
        cutoff == if retention_cutoff(now, retention_days) < i64::MIN {
            i64::MIN as int
        } else {
            retention_cutoff(now, retention_days)
        },
{
    let span: i128 = (retention_days as i128) * 86_400_000_000;
    let exact: i128 = (now as i128) - span;
    if exact < i64::MIN as i128 {
        i64::MIN
    } else {
        exact as i64
    }
}

/// What the machine reports of itself when a status is asked for.
#[derive(Debug, Clone, Copy, PartialEq, Eq, Structural)]
pub struct Vitals {
    pub uptime_seconds: u64,
    pub memory_usage_mb: u64,
    /// The processor share in thousandths of a percent.
    pub cpu_usage_millipercent: u64,
}

/// The summary line of a status: whether the aggregates could be read.
pub open spec fn summary_text(metrics_available: bool) -> Seq<char> {
    if metrics_available {
        "System operational"@
    } else {
        "System degraded: metrics unavailable"@
    }
}

impl MetricsStorage {
    /// The current summaries as the aggregator holds them at `now`: one for
    /// each class that has events in the window, in the order of the
    /// classes; a class without events in the window is not listed. The
    /// stored events are not read.
    pub fn get_performance_metrics(&self, aggregator: &Aggregator, now: i64) -> (metrics: Vec<
        PerformanceMetrics,
    >)
        requires
            aggregator.wf(),
        ensures
            metrics@ == aggregator@.listed(now, CLASS_COUNT as nat),
    {
        aggregator.active_snapshot(now)
    }

    /// The status of the system at `now`: the number of stored events and
    /// the newest timestamp from the store, the summaries from the
    /// aggregator, and what the caller knows of samplers, drops and the
    /// machine. The summaries are those of the classes that have events in
    /// the window. Where the aggregator cannot be reached the status says
    /// so in its summary line and carries no summaries.
    pub fn get_system_status(
        &self,
        aggregator: Option<&Aggregator>,
        active_monitors: Vec<String>,
        dropped_events: u64,
        vitals: Vitals,
        now: i64,
    ) -> (status: SystemStatus)
        requires
            self.wf(),
            aggregator matches Some(a) ==> a.wf(),
        ensures
            status.summary@ == summary_text(aggregator is Some),
            status.total_events == self.rows().len(),
            status.dropped_events == dropped_events,
            status.active_monitors == active_monitors,
            status.last_event_timestamp == (if self.rows().len() == 0 {
                None
            } else {
                Some(self.rows().last().timestamp)
            }),
            status.uptime_seconds == vitals.uptime_seconds,
            status.memory_usage_mb == vitals.memory_usage_mb,
            status.cpu_usage_millipercent == vitals.cpu_usage_millipercent,
            aggregator is None ==> status.performance_metrics.len() == 0,
            aggregator matches Some(a) ==> status.performance_metrics@ == a@.listed(
                now,
                CLASS_COUNT as nat,
            ),
    {
        let (summary, performance_metrics) = match aggregator {
            Some(a) => (String::from_str("System operational"), a.active_snapshot(now)),
            None => (String::from_str("System degraded: metrics unavailable"), Vec::new()),
        };
        SystemStatus {
            summary,
            total_events: self.total_events(),
            dropped_events,
            active_monitors,
            performance_metrics,
            last_event_timestamp: self.last_event_timestamp(),
            uptime_seconds: vitals.uptime_seconds,
            memory_usage_mb: vitals.memory_usage_mb,
            cpu_usage_millipercent: vitals.cpu_usage_millipercent,
        }
    }
}

} // verus!
