//! The online aggregator: per component class a ring of per-minute
//! histograms over duration, merged on read into a rolling-window summary.

use vstd::prelude::*;
use vstd::arithmetic::div_mod::lemma_fundamental_div_mod;
use crate::clock::MICROS_PER_MINUTE;
use crate::models::{CLASS_COUNT, ComponentType, LatencyEvent, PerformanceMetrics};

verus! {

/// The most buckets bounds a histogram may have.
pub const MAX_BOUNDS: usize = 1024;

/// The longest window, in minutes.
pub const MAX_WINDOW_MINUTES: u64 = 65_536;

/// The most samples that one minute of one class holds.
pub const SLOT_CAPACITY: u64 = 4_294_967_295;

/// A bucket's upper bounds must grow from each to the next.
pub open spec fn increasing(bounds: Seq<u64>) -> bool {
    forall|i: int, j: int| 0 <= i < j < bounds.len() ==> bounds[i] < bounds[j]
}

/// The first bucket at or after `start` whose upper bound is not below the
/// duration; the overflow bucket, numbered `bounds.len()`, if there is none.
pub open spec fn bucket_from(bounds: Seq<u64>, duration: u64, start: int) -> int
    decreases bounds.len() - start,
{
    if start < 0 || start >= bounds.len() {
        bounds.len() as int
    } else if duration <= bounds[start] {
        start
    } else {
        bucket_from(bounds, duration, start + 1)
    }
}

/// The bucket that a duration falls in.
pub open spec fn bucket_of(bounds: Seq<u64>, duration: u64) -> int {
    bucket_from(bounds, duration, 0)
}

/// The sum of the samples.
pub open spec fn sum_of(samples: Seq<u64>) -> nat
    decreases samples.len(),
{
    if samples.len() == 0 {
        0
    } else {
        sum_of(samples.drop_last()) + samples.last() as nat
    }
}

/// The smallest sample; the largest value there is if there is no sample.
pub open spec fn min_of(samples: Seq<u64>) -> u64
    decreases samples.len(),
{
    if samples.len() == 0 {
        u64::MAX
    } else if samples.last() <= min_of(samples.drop_last()) {
        samples.last()
    } else {
        min_of(samples.drop_last())
    }
}

/// The largest sample; zero if there is no sample.
pub open spec fn max_of(samples: Seq<u64>) -> u64
    decreases samples.len(),
{
    if samples.len() == 0 {
        0
    } else if samples.last() >= max_of(samples.drop_last()) {
        samples.last()
    } else {
        max_of(samples.drop_last())
    }
}

/// How many samples fall in bucket `bucket`.
pub open spec fn count_in(samples: Seq<u64>, bounds: Seq<u64>, bucket: int) -> nat
    decreases samples.len(),
{
    if samples.len() == 0 {
        0
    } else {
        count_in(samples.drop_last(), bounds, bucket) + if bucket_of(bounds, samples.last())
            == bucket {
            1nat
        } else {
            0nat
        }
    }
}

/// How many samples fall in the buckets up to and including `bucket`.
pub open spec fn cumulative(samples: Seq<u64>, bounds: Seq<u64>, bucket: int) -> nat
    decreases bucket + 1,
{
    if bucket < 0 {
        0
    } else {
        cumulative(samples, bounds, bucket - 1) + count_in(samples, bounds, bucket)
    }
}

/// The rank, counted from 1, of the sample at percentile `q` among `n`.
pub open spec fn rank_of(q: nat, n: nat) -> nat {
    (q * n + 99) / 100
}

/// The first bucket at or after `bucket` up to which the cumulative count
/// reaches `rank`; the overflow bucket if none below it does.
pub open spec fn percentile_bucket_from(
    samples: Seq<u64>,
    bounds: Seq<u64>,
    rank: nat,
    bucket: int,
) -> int
    decreases bounds.len() - bucket,
{
    if bucket < 0 || bucket >= bounds.len() {
        bounds.len() as int
    } else if cumulative(samples, bounds, bucket) >= rank {
        bucket
    } else {
        percentile_bucket_from(samples, bounds, rank, bucket + 1)
    }
}

/// The estimate of percentile `q`: the upper bound of the bucket in which
/// the cumulative count reaches the percentile's rank, but no more than the
/// largest sample; the largest sample where that is the overflow bucket.
pub open spec fn percentile(samples: Seq<u64>, bounds: Seq<u64>, q: nat) -> u64 {
    let bucket = percentile_bucket_from(samples, bounds, rank_of(q, samples.len()), 0);
    if bucket < bounds.len() && bounds[bucket] <= max_of(samples) {
        bounds[bucket]
    } else {
        max_of(samples)
    }
}

/// The summary of the samples that a class has in the window.
pub open spec fn summarize(
    component: ComponentType,
    samples: Seq<u64>,
    bounds: Seq<u64>,
    window_minutes: u64,
    now: i64,
) -> PerformanceMetrics {
    if samples.len() == 0 {
        PerformanceMetrics {
            component,
            total_events: 0,
            avg_duration_us: 0,
            min_duration_us: 0,
            max_duration_us: 0,
            p50_duration_us: 0,
            p95_duration_us: 0,
            p99_duration_us: 0,
            events_per_second_milli: 0,
            last_updated: now,
        }
    } else {
        PerformanceMetrics {
            component,
            total_events: samples.len() as u64,
            avg_duration_us: (sum_of(samples) as int / samples.len() as int) as u64,
            min_duration_us: min_of(samples),
            max_duration_us: max_of(samples),
            p50_duration_us: percentile(samples, bounds, 50),
            p95_duration_us: percentile(samples, bounds, 95),
            p99_duration_us: percentile(samples, bounds, 99),
            events_per_second_milli: ((samples.len() * 1000) as int / (window_minutes * 60)) as u64,
            last_updated: now,
        }
    }
}

/// What one slot of a ring holds: the minute it stands for, if it was ever
/// used, and the durations seen in that minute, in the order of arrival.
pub struct SlotView {
    pub minute: Option<u64>,
    pub samples: Seq<u64>,
}

/// Whether a slot's minute lies in the window of `window_minutes` minutes
/// that ends with minute `horizon`.
pub open spec fn live(minute: Option<u64>, horizon: u64, window_minutes: u64) -> bool {
    match minute {
        Some(m) => m <= horizon && m + window_minutes > horizon,
        None => false,
    }
}

/// The samples of the slots that lie in the window, slot after slot.
pub open spec fn pooled(slots: Seq<SlotView>, horizon: u64, window_minutes: u64) -> Seq<u64>
    decreases slots.len(),
{
    if slots.len() == 0 {
        Seq::empty()
    } else {
        let before = pooled(slots.drop_last(), horizon, window_minutes);
        if live(slots.last().minute, horizon, window_minutes) {
            before + slots.last().samples
        } else {
            before
        }
    }
}

/// A slot after it took a sample of `minute`: a slot that stood for another
/// minute starts afresh.
pub open spec fn slot_after(slot: SlotView, minute: u64, duration: u64) -> SlotView {
    SlotView {
        minute: Some(minute),
        samples: if slot.minute == Some(minute) {
            slot.samples.push(duration)
        } else {
            seq![duration]
        },
    }
}

/// The minute of an instant that is not before the Unix epoch.
pub open spec fn minute_at(timestamp: i64) -> u64 {
    (timestamp / MICROS_PER_MINUTE) as u64
}

proof fn lemma_sum_append(a: Seq<u64>, b: Seq<u64>)
    ensures
        sum_of(a + b) == sum_of(a) + sum_of(b),
    decreases b.len(),
{
    if b.len() > 0 {
        assert((a + b).drop_last() =~= a + b.drop_last());
        lemma_sum_append(a, b.drop_last());
    }
}

proof fn lemma_min_append(a: Seq<u64>, b: Seq<u64>)
    ensures
        min_of(a + b) == if min_of(a) <= min_of(b) {
            min_of(a)
        } else {
            min_of(b)
        },
    decreases b.len(),
{
    if b.len() > 0 {
        assert((a + b).drop_last() =~= a + b.drop_last());
        lemma_min_append(a, b.drop_last());
    }
}

proof fn lemma_max_append(a: Seq<u64>, b: Seq<u64>)
    ensures
        max_of(a + b) == if max_of(a) >= max_of(b) {
            max_of(a)
        } else {
            max_of(b)
        },
    decreases b.len(),
{
    if b.len() > 0 {
        assert((a + b).drop_last() =~= a + b.drop_last());
        lemma_max_append(a, b.drop_last());
    }
}

proof fn lemma_count_append(a: Seq<u64>, b: Seq<u64>, bounds: Seq<u64>, bucket: int)
    ensures
        count_in(a + b, bounds, bucket) == count_in(a, bounds, bucket) + count_in(
            b,
            bounds,
            bucket,
        ),
    decreases b.len(),
{
    if b.len() > 0 {
        assert((a + b).drop_last() =~= a + b.drop_last());
        lemma_count_append(a, b.drop_last(), bounds, bucket);
    }
}

/// A sum of samples is at most their number times the largest value.
proof fn lemma_sum_bound(samples: Seq<u64>)
    ensures
        sum_of(samples) <= samples.len() * u64::MAX,
        samples.len() > 0 ==> sum_of(samples) as int / samples.len() as int <= u64::MAX,
    decreases samples.len(),
{
    if samples.len() > 0 {
        lemma_sum_bound(samples.drop_last());
        let n = samples.len() as int;
        let s = sum_of(samples) as int;
        assert(s / n <= 0xFFFF_FFFF_FFFF_FFFF) by (nonlinear_arith)
            requires
                n > 0,
                0 <= s <= n * 0xFFFF_FFFF_FFFF_FFFF,
        ;
    }
}

/// No bucket holds more samples than there are.
proof fn lemma_count_bound(samples: Seq<u64>, bounds: Seq<u64>, bucket: int)
    ensures
        count_in(samples, bounds, bucket) <= samples.len(),
    decreases samples.len(),
{
    if samples.len() > 0 {
        lemma_count_bound(samples.drop_last(), bounds, bucket);
    }
}

/// Where the bounds before `bucket` are below the duration and the bound at
/// `bucket`, if there is one, is not, the duration falls in `bucket`.
proof fn lemma_bucket_is(bounds: Seq<u64>, duration: u64, start: int, bucket: int)
    requires
        0 <= start <= bucket <= bounds.len(),
        forall|j: int| start <= j < bucket ==> bounds[j] < duration,
        bucket == bounds.len() || duration <= bounds[bucket],
    ensures
        bucket_from(bounds, duration, start) == bucket,
    decreases bucket - start,
{
    if start < bucket {
        lemma_bucket_is(bounds, duration, start + 1, bucket);
    }
}

/// Two different minutes that share a slot of the ring lie at least one
/// window apart.
proof fn lemma_shared_slot(a: int, b: int, w: int)
    requires
        w > 0,
        0 <= a < b,
        a % w == b % w,
    ensures
        b - a >= w,
{
    lemma_fundamental_div_mod(a, w);
    lemma_fundamental_div_mod(b, w);
    let qa = a / w;
    let qb = b / w;
    assert(w * qb - w * qa == w * (qb - qa)) by (nonlinear_arith);
    assert(qb - qa >= 1) by (nonlinear_arith)
        requires
            w > 0,
            w * (qb - qa) > 0,
    ;
    assert(w * (qb - qa) >= w) by (nonlinear_arith)
        requires
            w > 0,
            qb - qa >= 1,
    ;
}

/// The bucket that a duration falls in.
pub fn bucket_index(bounds: &Vec<u64>, duration: u64) -> (bucket: usize)
    requires
        increasing(bounds@),
    ensures
        bucket == bucket_of(bounds@, duration),
        bucket <= bounds.len(),
{
    let mut lo: usize = 0;
    let mut hi: usize = bounds.len();
    while lo < hi
        invariant
            lo <= hi <= bounds.len(),
            increasing(bounds@),
            forall|j: int| 0 <= j < lo ==> bounds[j] < duration,
            hi == bounds.len() || duration <= bounds[hi as int],
        decreases hi - lo,
    {
        let mid = lo + (hi - lo) / 2;
        if bounds[mid] < duration {
            lo = mid + 1;
        } else {
            hi = mid;
        }
    }
    proof {
        lemma_bucket_is(bounds@, duration, 0, lo as int);
    }
    lo
}

fn zeros(len: usize) -> (cells: Vec<u64>)
    ensures
        cells.len() == len,
        forall|i: int| 0 <= i < len ==> cells[i] == 0,
{
    let mut cells: Vec<u64> = Vec::new();
    while cells.len() < len
        invariant
            cells.len() <= len,
            forall|i: int| 0 <= i < cells.len() ==> cells[i] == 0,
        decreases len - cells.len(),
    {
        cells.push(0);
    }
    cells
}

/// One minute of one class: the histogram of the durations seen in it.
struct Slot {
    minute: Option<u64>,
    counts: Vec<u64>,
    count: u64,
    sum_us: u128,
    min_us: u64,
    max_us: u64,
    samples: Ghost<Seq<u64>>,
}

impl Slot {
    spec fn view(&self) -> SlotView {
        SlotView { minute: self.minute, samples: self.samples@ }
    }

    spec fn wf(&self, bounds: Seq<u64>) -> bool {
        &&& self.counts.len() == bounds.len() + 1
        &&& self.count == self.samples@.len()
        &&& self.count <= SLOT_CAPACITY
        &&& self.sum_us == sum_of(self.samples@)
        &&& self.min_us == min_of(self.samples@)
        &&& self.max_us == max_of(self.samples@)
        &&& forall|b: int|
            0 <= b <= bounds.len() ==> self.counts[b] == count_in(self.samples@, bounds, b)
        &&& self.minute is None ==> self.samples@.len() == 0
    }

    fn unused(Ghost(bounds): Ghost<Seq<u64>>, buckets: usize) -> (slot: Slot)
        requires
            buckets == bounds.len() + 1,
        ensures
            slot.wf(bounds),
            slot@ == (SlotView { minute: None, samples: Seq::empty() }),
    {
        Slot {
            minute: None,
            counts: zeros(buckets),
            count: 0,
            sum_us: 0,
            min_us: u64::MAX,
            max_us: 0,
            samples: Ghost(Seq::empty()),
        }
    }

    fn reset(&mut self, Ghost(bounds): Ghost<Seq<u64>>, minute: u64)
        requires
            old(self).wf(bounds),
        ensures
            final(self).wf(bounds),
            final(self)@ == (SlotView { minute: Some(minute), samples: Seq::empty() }),
    {
        let mut b: usize = 0;
        while b < self.counts.len()
            invariant
                b <= self.counts.len(),
                self.counts.len() == bounds.len() + 1,
                forall|j: int| 0 <= j < b ==> self.counts[j] == 0,
            decreases self.counts.len() - b,
        {
            self.counts[b] = 0;
            b = b + 1;
        }
        self.minute = Some(minute);
        self.count = 0;
        self.sum_us = 0;
        self.min_us = u64::MAX;
        self.max_us = 0;
        self.samples = Ghost(Seq::empty());
    }

    fn record(&mut self, Ghost(bounds): Ghost<Seq<u64>>, bucket: usize, duration: u64)
        requires
            old(self).wf(bounds),
            old(self).minute is Some,
            old(self).count < SLOT_CAPACITY,
            bucket == bucket_of(bounds, duration),
            bucket <= bounds.len(),
        ensures
            final(self).wf(bounds),
            final(self)@ == (SlotView {
                minute: old(self).minute,
                samples: old(self)@.samples.push(duration),
            }),
    {
        let ghost before = self.samples@;
        proof {
            lemma_count_bound(before, bounds, bucket as int);
            lemma_sum_bound(before);
            assert(before.push(duration).drop_last() =~= before);
        }
        self.counts[bucket] = self.counts[bucket] + 1;
        self.count = self.count + 1;
        self.sum_us = self.sum_us + duration as u128;
        if duration <= self.min_us {
            self.min_us = duration;
        }
        if duration >= self.max_us {
            self.max_us = duration;
        }
        self.samples = Ghost(before.push(duration));
    }
}

/// The ring of one class.
struct Window {
    slots: Vec<Slot>,
}

/// The online aggregator.
pub struct Aggregator {
    bounds: Vec<u64>,
    window_minutes: u64,
    latest: u64,
    windows: Vec<Window>,
}

/// What an aggregator holds: its setup, the latest minute it has seen, and
/// the ring of each class, in the order of the classes.
pub struct AggregatorView {
    pub bounds: Seq<u64>,
    pub window_minutes: u64,
    pub latest: u64,
    pub rings: Seq<Seq<SlotView>>,
}

impl AggregatorView {
    /// The slot of the ring in which a minute is kept.
    pub open spec fn slot_of(self, minute: u64) -> int {
        minute as int % self.window_minutes as int
    }

    /// Whether an event of `class` stamped `timestamp` is taken in: it is
    /// not stamped before the Unix epoch, its minute has not left the
    /// window yet, and that minute's slot is not full.
    pub open spec fn accepts(self, class: ComponentType, timestamp: i64) -> bool {
        let minute = minute_at(timestamp);
        let slot = self.rings[class.ordinal() as int][self.slot_of(minute)];
        &&& timestamp >= 0
        &&& minute + self.window_minutes > self.latest
        &&& !(slot.minute == Some(minute) && slot.samples.len() >= SLOT_CAPACITY)
    }

    /// The aggregator after an event was offered: an event that is taken
    /// in joins the slot of its minute in the ring of its class, and the
    /// latest minute moves on to its minute if that is later.
    pub open spec fn after(self, class: ComponentType, timestamp: i64, duration: u64)
        -> AggregatorView {
        if self.accepts(class, timestamp) {
            let minute = minute_at(timestamp);
            let ring = self.rings[class.ordinal() as int];
            AggregatorView {
                latest: if minute > self.latest {
                    minute
                } else {
                    self.latest
                },
                rings: self.rings.update(
                    class.ordinal() as int,
                    ring.update(
                        self.slot_of(minute),
                        slot_after(ring[self.slot_of(minute)], minute, duration),
                    ),
                ),
                ..self
            }
        } else {
            self
        }
    }

    /// The minute with which the window ends when read at `now`: the
    /// minute of `now`, or the latest minute seen if that is later.
    pub open spec fn horizon(self, now: i64) -> u64 {
        if now >= 0 && minute_at(now) > self.latest {
            minute_at(now)
        } else {
            self.latest
        }
    }

    /// The samples that a class has in the window when read at `now`.
    pub open spec fn samples(self, class: ComponentType, now: i64) -> Seq<u64> {
        pooled(self.rings[class.ordinal() as int], self.horizon(now), self.window_minutes)
    }

    /// The summary of a class when read at `now`.
    pub open spec fn summary(self, class: ComponentType, now: i64) -> PerformanceMetrics {
        summarize(class, self.samples(class, now), self.bounds, self.window_minutes, now)
    }
}

impl AggregatorView {
    /// The summaries, read at `now`, of those among the first `upto`
    /// classes that have samples in the window, in the order of the
    /// classes. A class without samples in the window is not listed.
    pub open spec fn listed(self, now: i64, upto: nat) -> Seq<PerformanceMetrics>
        decreases upto,
    {
        if upto == 0 {
            Seq::empty()
        } else {
            let before = self.listed(now, (upto - 1) as nat);
            let class = ComponentType::at((upto - 1) as nat);
            if self.samples(class, now).len() > 0 {
                before.push(self.summary(class, now))
            } else {
                before
            }
        }
    }
}

impl View for Aggregator {
    type V = AggregatorView;

    open spec fn view(&self) -> AggregatorView {
        AggregatorView {
            bounds: self.bounds(),
            window_minutes: self.window_minutes(),
            latest: self.latest(),
            rings: Seq::new(
                CLASS_COUNT as nat,
                |c: int| self.slots(ComponentType::at(c as nat)),
            ),
        }
    }
}

/// The aggregator that has seen nothing.
pub open spec fn unused_view(bounds: Seq<u64>, window_minutes: u64) -> AggregatorView {
    AggregatorView {
        bounds,
        window_minutes,
        latest: 0,
        rings: Seq::new(
            CLASS_COUNT as nat,
            |c: int|
                Seq::new(
                    window_minutes as nat,
                    |i: int| SlotView { minute: None, samples: Seq::empty() },
                ),
        ),
    }
}

/// Whether an aggregator can be made with these bucket bounds and this
/// window.
pub open spec fn valid_setup(bounds: Seq<u64>, window_minutes: u64) -> bool {
    &&& increasing(bounds)
    &&& bounds.len() <= MAX_BOUNDS
    &&& 1 <= window_minutes <= MAX_WINDOW_MINUTES
}

impl Aggregator {
    /// The upper bounds of the buckets, in microseconds.
    pub closed spec fn bounds(&self) -> Seq<u64> {
        self.bounds@
    }

    /// The length of the rolling window in minutes, which is also the
    /// number of slots of each ring.
    pub closed spec fn window_minutes(&self) -> u64 {
        self.window_minutes
    }

    /// The latest minute of which an event was taken in.
    pub closed spec fn latest(&self) -> u64 {
        self.latest
    }

    /// The ring of a class.
    pub closed spec fn slots(&self, class: ComponentType) -> Seq<SlotView> {
        Seq::new(
            self.windows[class.ordinal() as int].slots.len() as nat,
            |i: int| self.windows[class.ordinal() as int].slots[i]@,
        )
    }

    /// The aggregator's invariant.
    pub closed spec fn wf(&self) -> bool {
        &&& valid_setup(self.bounds@, self.window_minutes)
        &&& self.windows.len() == CLASS_COUNT
        &&& forall|c: int|
            0 <= c < CLASS_COUNT ==> (#[trigger] self.windows[c]).slots.len()
                == self.window_minutes
        &&& forall|c: int, i: int|
            0 <= c < CLASS_COUNT && 0 <= i < self.window_minutes ==> {
                &&& (#[trigger] self.windows[c].slots[i]).wf(self.bounds@)
                &&& match self.windows[c].slots[i].minute {
                    Some(m) => m % self.window_minutes == i && m <= self.latest,
                    None => true,
                }
            }
    }

    /// How many bucket counters the slot of a class holds.
    pub closed spec fn counters(&self, class: ComponentType, slot: int) -> nat {
        self.windows[class.ordinal() as int].slots[slot].counts.len() as nat
    }

    /// However many events were taken in, a well-formed aggregator holds
    /// one ring for each class, each of as many slots as the window has
    /// minutes, each slot with one counter for each bucket and no more
    /// samples than its capacity. A slot stands for a minute that maps to
    /// it and is not later than the latest minute seen.
    pub proof fn lemma_footprint(&self)
        requires
            self.wf(),
        ensures
            valid_setup(self@.bounds, self@.window_minutes),
            self@.rings.len() == CLASS_COUNT,
            forall|c: int|
                0 <= c < CLASS_COUNT ==> (#[trigger] self@.rings[c]).len()
                    == self@.window_minutes,
            forall|c: int, i: int|
                0 <= c < CLASS_COUNT && 0 <= i < self@.window_minutes ==> {
                    &&& #[trigger] self.counters(ComponentType::at(c as nat), i)
                        == self@.bounds.len() + 1
                    &&& self@.rings[c][i].samples.len() <= SLOT_CAPACITY
                    &&& match self@.rings[c][i].minute {
                        Some(m) => m % self@.window_minutes == i && m <= self@.latest,
                        None => self@.rings[c][i].samples.len() == 0,
                    }
                },
    {
        assert forall|c: int, i: int|
            0 <= c < CLASS_COUNT && 0 <= i < self@.window_minutes implies {
            &&& #[trigger] self.counters(ComponentType::at(c as nat), i) == self@.bounds.len() + 1
            &&& self@.rings[c][i].samples.len() <= SLOT_CAPACITY
            &&& match self@.rings[c][i].minute {
                Some(m) => m % self@.window_minutes == i && m <= self@.latest,
                None => self@.rings[c][i].samples.len() == 0,
            }
        } by {}
    }

    /// An aggregator that has seen nothing; `None` where the bounds do not
    /// grow strictly, are more than `MAX_BOUNDS`, or the window is empty or
    /// longer than `MAX_WINDOW_MINUTES`.
    pub fn new(bounds: Vec<u64>, window_minutes: u64) -> (made: Option<Aggregator>)
        ensures
            made is Some <==> valid_setup(bounds@, window_minutes),
            made matches Some(a) ==> {
                &&& a.wf()
                &&& a@ == unused_view(bounds@, window_minutes)
            },
    {
        if bounds.len() > MAX_BOUNDS || window_minutes == 0 || window_minutes
            > MAX_WINDOW_MINUTES {
            return None;
        }
        let mut k: usize = 1;
        while k < bounds.len()
            invariant
                1 <= k,
                forall|i: int, j: int| 0 <= i < j < k && j < bounds.len() ==> bounds[i] < bounds[j],
            decreases bounds.len() - k,
        {
            if bounds[k - 1] >= bounds[k] {
                return None;
            }
            k = k + 1;
        }
        let buckets = bounds.len() + 1;
        let mut windows: Vec<Window> = Vec::new();
        while windows.len() < CLASS_COUNT
            invariant
                windows.len() <= CLASS_COUNT,
                buckets == bounds.len() + 1,
                1 <= window_minutes <= MAX_WINDOW_MINUTES,
                forall|c: int|
                    0 <= c < windows.len() ==> (#[trigger] windows[c]).slots.len() == window_minutes,
                forall|c: int, i: int|
                    0 <= c < windows.len() && 0 <= i < window_minutes ==> {
                        &&& (#[trigger] windows[c].slots[i]).wf(bounds@)
                        &&& windows[c].slots[i]@ == (SlotView {
                            minute: None,
                            samples: Seq::empty(),
                        })
                    },
            decreases CLASS_COUNT - windows.len(),
        {
            let mut slots: Vec<Slot> = Vec::new();
            while (slots.len() as u64) < window_minutes
                invariant
                    slots.len() <= window_minutes,
                    buckets == bounds.len() + 1,
                    window_minutes <= MAX_WINDOW_MINUTES,
                    forall|i: int|
                        0 <= i < slots.len() ==> {
                            &&& (#[trigger] slots[i]).wf(bounds@)
                            &&& slots[i]@ == (SlotView { minute: None, samples: Seq::empty() })
                        },
                decreases window_minutes - slots.len(),
            {
                slots.push(Slot::unused(Ghost(bounds@), buckets));
            }
            windows.push(Window { slots });
        }
        let made = Aggregator { bounds, window_minutes, latest: 0, windows };
        proof {
            assert(made@.rings =~~= unused_view(made.bounds@, window_minutes).rings);
        }
        Some(made)
    }
}

/// The estimate of percentile `q` from the merged bucket counts of
/// `samples`.
fn estimate(
    Ghost(samples): Ghost<Seq<u64>>,
    bounds: &Vec<u64>,
    counts: &Vec<u64>,
    total: u64,
    largest: u64,
    q: u64,
) -> (value: u64)
    requires
        q <= 100,
        counts.len() == bounds.len() + 1,
        bounds.len() <= MAX_BOUNDS,
        total == samples.len(),
        total <= MAX_WINDOW_MINUTES * SLOT_CAPACITY,
        largest == max_of(samples),
        forall|b: int| 0 <= b <= bounds.len() ==> counts[b] == count_in(samples, bounds@, b),
    ensures
        value == percentile(samples, bounds@, q as nat),
{
    assert(q * total <= 100 * total) by (nonlinear_arith)
        requires
            q <= 100,
            0 <= total,
    ;
    let rank: u128 = (q as u128 * total as u128 + 99) / 100;
    let mut seen: u128 = 0;
    let mut b: usize = 0;
    while b < bounds.len()
        invariant
            b <= bounds.len(),
            counts.len() == bounds.len() + 1,
            bounds.len() <= MAX_BOUNDS,
            rank == rank_of(q as nat, samples.len()),
            largest == max_of(samples),
            seen == cumulative(samples, bounds@, b as int - 1),
            seen <= b * u64::MAX,
            forall|j: int| 0 <= j <= bounds.len() ==> counts[j] == count_in(samples, bounds@, j),
            percentile_bucket_from(samples, bounds@, rank as nat, 0) == percentile_bucket_from(
                samples,
                bounds@,
                rank as nat,
                b as int,
            ),
        decreases bounds.len() - b,
    {
        seen = seen + counts[b] as u128;
        if seen >= rank {
            return if bounds[b] <= largest {
                bounds[b]
            } else {
                largest
            };
        }
        b = b + 1;
    }
    largest
}

impl Aggregator {
    /// Takes in one event: its duration joins the slot of its minute in the
    /// ring of its class, which starts afresh if it stood for an earlier
    /// minute. Such an earlier minute has left the window. Nothing else
    /// changes, and the number of slots and buckets stays as it was made.
    pub fn ingest(&mut self, event: &LatencyEvent) -> (accepted: bool)
        requires
            old(self).wf(),
        ensures
            final(self).wf(),
            accepted == old(self)@.accepts(event.component_type, event.timestamp),
            final(self)@ == old(self)@.after(
                event.component_type,
                event.timestamp,
                event.duration_us,
            ),
            accepted ==> {
                let minute = minute_at(event.timestamp);
                let slot = old(self)@.rings[event.component_type.ordinal() as int][old(self)@.slot_of(minute)];
                slot.minute != Some(minute) ==> !live(
                    slot.minute,
                    final(self)@.latest,
                    old(self)@.window_minutes,
                )
            },
    {
        if event.timestamp < 0 {
            return false;
        }
        let minute: u64 = (event.timestamp / MICROS_PER_MINUTE) as u64;
        if minute + self.window_minutes <= self.latest {
            return false;
        }
        let c = event.component_type.index();
        let at = (minute % self.window_minutes) as usize;
        let fresh = match self.windows[c].slots[at].minute {
            Some(m) => m != minute,
            None => true,
        };
        if !fresh && self.windows[c].slots[at].count >= SLOT_CAPACITY {
            return false;
        }
        let bucket = bucket_index(&self.bounds, event.duration_us);
        let ghost bounds = self.bounds@;
        let ghost before = *self;
        proof {
            match self.windows[c as int].slots[at as int].minute {
                Some(m) => {
                    if m < minute {
                        lemma_shared_slot(m as int, minute as int, self.window_minutes as int);
                    } else if m > minute {
                        lemma_shared_slot(minute as int, m as int, self.window_minutes as int);
                    }
                },
                None => {},
            }
        }
        if minute > self.latest {
            self.latest = minute;
        }
        if fresh {
            self.windows[c].slots[at].reset(Ghost(bounds), minute);
        }
        self.windows[c].slots[at].record(Ghost(bounds), bucket, event.duration_us);
        proof {
            assert forall|k: int, i: int|
                0 <= k < CLASS_COUNT && 0 <= i < self.window_minutes implies {
                &&& (#[trigger] self.windows[k].slots[i]).wf(self.bounds@)
                &&& match self.windows[k].slots[i].minute {
                    Some(m) => m % self.window_minutes == i && m <= self.latest,
                    None => true,
                }
            } by {}
            let class = event.component_type;
            assert(self.slots(class) =~= before.slots(class).update(
                at as int,
                slot_after(before.slots(class)[at as int], minute, event.duration_us),
            ));
            let wanted = before@.after(class, event.timestamp, event.duration_us);
            assert(self@.rings =~= wanted.rings);
        }
        true
    }

    /// The summary of one class over the window that ends at `now`, or at
    /// the latest minute seen if that is later: the statistics of the
    /// samples pooled from the slots that lie in the window.
    pub fn class_snapshot(&self, class: ComponentType, now: i64) -> (metrics: PerformanceMetrics)
        requires
            self.wf(),
        ensures
            metrics == self@.summary(class, now),
            self@.samples(class, now).len() <= MAX_WINDOW_MINUTES * SLOT_CAPACITY,
    {
        let mut horizon = self.latest;
        if now >= 0 {
            let minute = (now / MICROS_PER_MINUTE) as u64;
            if minute > horizon {
                horizon = minute;
            }
        }
        let c = class.index();
        let width = self.window_minutes as usize;
        let buckets = self.bounds.len() + 1;
        let mut merged = zeros(buckets);
        let mut total: u64 = 0;
        let mut sum: u128 = 0;
        let mut smallest: u64 = u64::MAX;
        let mut largest: u64 = 0;
        let ghost ring = self.slots(class);
        let ghost mut pool: Seq<u64> = Seq::empty();
        let mut i: usize = 0;
        while i < width
            invariant
                self.wf(),
                i <= width,
                width == self.window_minutes,
                c == class.ordinal(),
                ring == self.slots(class),
                ring.len() == width,
                buckets == self.bounds.len() + 1,
                merged.len() == buckets,
                pool == pooled(ring.take(i as int), horizon, self.window_minutes),
                total == pool.len(),
                total <= i * SLOT_CAPACITY,
                sum == sum_of(pool),
                smallest == min_of(pool),
                largest == max_of(pool),
                forall|b: int| 0 <= b < buckets ==> merged[b] == count_in(pool, self.bounds@, b),
            decreases width - i,
        {
            let slot = &self.windows[c].slots[i];
            proof {
                assert(ring.take(i as int + 1).drop_last() =~= ring.take(i as int));
            }
            let in_window = match slot.minute {
                Some(m) => m <= horizon && horizon - m < self.window_minutes,
                None => false,
            };
            if in_window {
                let ghost joined = pool + slot.samples@;
                proof {
                    lemma_sum_append(pool, slot.samples@);
                    lemma_min_append(pool, slot.samples@);
                    lemma_max_append(pool, slot.samples@);
                    lemma_sum_bound(joined);
                }
                let mut b: usize = 0;
                while b < buckets
                    invariant
                        b <= buckets,
                        buckets == self.bounds.len() + 1,
                        merged.len() == buckets,
                        slot.wf(self.bounds@),
                        joined == pool + slot.samples@,
                        joined.len() <= (i + 1) * SLOT_CAPACITY,
                        i < MAX_WINDOW_MINUTES,
                        forall|j: int| 0 <= j < b ==> merged[j] == count_in(joined, self.bounds@, j),
                        forall|j: int|
                            b <= j < buckets ==> merged[j] == count_in(pool, self.bounds@, j),
                    decreases buckets - b,
                {
                    proof {
                        lemma_count_append(pool, slot.samples@, self.bounds@, b as int);
                        lemma_count_bound(joined, self.bounds@, b as int);
                    }
                    merged[b] = merged[b] + slot.counts[b];
                    b = b + 1;
                }
                total = total + slot.count;
                sum = sum + slot.sum_us;
                if slot.min_us < smallest {
                    smallest = slot.min_us;
                }
                if slot.max_us > largest {
                    largest = slot.max_us;
                }
                proof {
                    pool = joined;
                }
            }
            i = i + 1;
        }
        proof {
            assert(ring.take(width as int) =~= ring);
        }
        if total == 0 {
            return PerformanceMetrics::empty(class, now);
        }
        let average = (sum / total as u128) as u64;
        let p50 = estimate(Ghost(pool), &self.bounds, &merged, total, largest, 50);
        let p95 = estimate(Ghost(pool), &self.bounds, &merged, total, largest, 95);
        let p99 = estimate(Ghost(pool), &self.bounds, &merged, total, largest, 99);
        let rate = total * 1000 / (self.window_minutes * 60);
        PerformanceMetrics {
            component: class,
            total_events: total,
            avg_duration_us: average,
            min_duration_us: smallest,
            max_duration_us: largest,
            p50_duration_us: p50,
            p95_duration_us: p95,
            p99_duration_us: p99,
            events_per_second_milli: rate,
            last_updated: now,
        }
    }

    /// The summary of every class, in the order of the classes.
    pub fn snapshot(&self, now: i64) -> (metrics: Vec<PerformanceMetrics>)
        requires
            self.wf(),
        ensures
            metrics.len() == CLASS_COUNT,
            forall|c: int|
                0 <= c < CLASS_COUNT ==> #[trigger] metrics[c] == self@.summary(
                    ComponentType::at(c as nat),
                    now,
                ),
    {
        let mut metrics: Vec<PerformanceMetrics> = Vec::new();
        let mut c: usize = 0;
        while c < CLASS_COUNT
            invariant
                self.wf(),
                c <= CLASS_COUNT,
                metrics.len() == c,
                forall|k: int|
                    0 <= k < c ==> #[trigger] metrics[k] == self@.summary(
                        ComponentType::at(k as nat),
                        now,
                    ),
            decreases CLASS_COUNT - c,
        {
            let class = ComponentType::from_index(c);
            metrics.push(self.class_snapshot(class, now));
            c = c + 1;
        }
        metrics
    }

    /// The summaries of the classes that have samples in the window, in the
    /// order of the classes. A class of which the window holds nothing is
    /// left out.
    pub fn active_snapshot(&self, now: i64) -> (metrics: Vec<PerformanceMetrics>)
        requires
            self.wf(),
        ensures
            metrics@ == self@.listed(now, CLASS_COUNT as nat),
    {
        let mut metrics: Vec<PerformanceMetrics> = Vec::new();
        let mut c: usize = 0;
        while c < CLASS_COUNT
            invariant
                self.wf(),
                c <= CLASS_COUNT,
                metrics@ == self@.listed(now, c as nat),
            decreases CLASS_COUNT - c,
        {
            let class = ComponentType::from_index(c);
            let summary = self.class_snapshot(class, now);
            if summary.total_events > 0 {
                metrics.push(summary);
            }
            c = c + 1;
        }
        metrics
    }
}

/// The length of the window that an aggregator has unless told otherwise:
/// one hour.
pub const STANDARD_WINDOW_MINUTES: u64 = 60;

/// The bucket bounds that an aggregator has unless told otherwise: from one
/// millisecond, doubling, up to about 65 seconds.
pub open spec fn standard_bounds() -> Seq<u64> {
    seq![
        1_000u64,
        2_000u64,
        4_000u64,
        8_000u64,
        16_000u64,
        32_000u64,
        64_000u64,
        128_000u64,
        256_000u64,
        512_000u64,
        1_024_000u64,
        2_048_000u64,
        4_096_000u64,
        8_192_000u64,
        16_384_000u64,
        32_768_000u64,
        65_536_000u64,
    ]
}

/// The standard bucket bounds.
pub fn default_bounds() -> (bounds: Vec<u64>)
    ensures
        bounds@ == standard_bounds(),
        valid_setup(bounds@, STANDARD_WINDOW_MINUTES),
{
    let mut bounds: Vec<u64> = Vec::new();
    let mut bound: u64 = 1_000;
    while bounds.len() < 17
        invariant
            bounds.len() <= 17,
            bounds.len() < 17 ==> bound == standard_bounds()[bounds.len() as int],
            forall|i: int| 0 <= i < bounds.len() ==> bounds[i] == standard_bounds()[i],
        decreases 17 - bounds.len(),
    {
        bounds.push(bound);
        if bounds.len() < 17 {
            bound = bound * 2;
        }
    }
    bounds
}

impl Aggregator {
    /// An aggregator with the standard bounds and window that has seen
    /// nothing.
    pub fn standard() -> (made: Aggregator)
        ensures
            made.wf(),
            made@ == unused_view(standard_bounds(), STANDARD_WINDOW_MINUTES),
    {
        match Aggregator::new(default_bounds(), STANDARD_WINDOW_MINUTES) {
            Some(made) => made,
            None => vstd::pervasive::unreached(),
        }
    }
}

/// How many samples are not above `value`.
pub open spec fn count_le(samples: Seq<u64>, value: u64) -> nat
    decreases samples.len(),
{
    if samples.len() == 0 {
        0
    } else {
        count_le(samples.drop_last(), value) + if samples.last() <= value {
            1nat
        } else {
            0nat
        }
    }
}

/// How many samples are below `value`.
pub open spec fn count_below(samples: Seq<u64>, value: u64) -> nat
    decreases samples.len(),
{
    if samples.len() == 0 {
        0
    } else {
        count_below(samples.drop_last(), value) + if samples.last() < value {
            1nat
        } else {
            0nat
        }
    }
}

/// Whether `value` stands at rank `rank`, counted from 1, when the samples
/// are put in ascending order.
pub open spec fn has_rank(samples: Seq<u64>, value: u64, rank: nat) -> bool {
    count_below(samples, value) < rank <= count_le(samples, value)
}

proof fn lemma_bucket_props(bounds: Seq<u64>, duration: u64, start: int)
    requires
        0 <= start <= bounds.len(),
    ensures
        start <= bucket_from(bounds, duration, start) <= bounds.len(),
        forall|i: int|
            start <= i < bucket_from(bounds, duration, start) ==> bounds[i] < duration,
        bucket_from(bounds, duration, start) == bounds.len() || duration <= bounds[bucket_from(
            bounds,
            duration,
            start,
        )],
    decreases bounds.len() - start,
{
    if start < bounds.len() && duration > bounds[start] {
        lemma_bucket_props(bounds, duration, start + 1);
    }
}

/// A duration falls in bucket `bucket` or an earlier one exactly if it is
/// not above that bucket's upper bound.
proof fn lemma_bucket_le(bounds: Seq<u64>, duration: u64, bucket: int)
    requires
        increasing(bounds),
        0 <= bucket < bounds.len(),
    ensures
        bucket_of(bounds, duration) <= bucket <==> duration <= bounds[bucket],
{
    lemma_bucket_props(bounds, duration, 0);
}

proof fn lemma_cumulative_empty(bounds: Seq<u64>, bucket: int)
    ensures
        cumulative(Seq::<u64>::empty(), bounds, bucket) == 0,
    decreases bucket + 1,
{
    if bucket >= 0 {
        lemma_cumulative_empty(bounds, bucket - 1);
    }
}

proof fn lemma_cumulative_step(samples: Seq<u64>, bounds: Seq<u64>, bucket: int)
    requires
        samples.len() > 0,
    ensures
        cumulative(samples, bounds, bucket) == cumulative(samples.drop_last(), bounds, bucket)
            + if bucket_of(bounds, samples.last()) <= bucket {
            1nat
        } else {
            0nat
        },
    decreases bucket + 1,
{
    lemma_bucket_props(bounds, samples.last(), 0);
    if bucket >= 0 {
        lemma_cumulative_step(samples, bounds, bucket - 1);
    }
}

/// The cumulative count up to a bucket is the number of samples that are
/// not above the bucket's upper bound.
proof fn lemma_cumulative_counts(samples: Seq<u64>, bounds: Seq<u64>, bucket: int)
    requires
        increasing(bounds),
        0 <= bucket < bounds.len(),
    ensures
        cumulative(samples, bounds, bucket) == count_le(samples, bounds[bucket]),
    decreases samples.len(),
{
    if samples.len() == 0 {
        assert(samples =~= Seq::<u64>::empty());
        lemma_cumulative_empty(bounds, bucket);
    } else {
        lemma_cumulative_step(samples, bounds, bucket);
        lemma_bucket_le(bounds, samples.last(), bucket);
        lemma_cumulative_counts(samples.drop_last(), bounds, bucket);
    }
}

proof fn lemma_count_le_grows(samples: Seq<u64>, low: u64, high: u64)
    requires
        low <= high,
    ensures
        count_le(samples, low) <= count_le(samples, high),
        low < high ==> count_le(samples, low) <= count_below(samples, high),
    decreases samples.len(),
{
    if samples.len() > 0 {
        lemma_count_le_grows(samples.drop_last(), low, high);
    }
}

proof fn lemma_above_all(samples: Seq<u64>, value: u64)
    requires
        value > max_of(samples),
    ensures
        count_le(samples, value) == count_below(samples, value),
    decreases samples.len(),
{
    if samples.len() > 0 {
        lemma_above_all(samples.drop_last(), value);
    }
}

proof fn lemma_percentile_bucket_is(
    samples: Seq<u64>,
    bounds: Seq<u64>,
    rank: nat,
    start: int,
    bucket: int,
)
    requires
        0 <= start <= bucket <= bounds.len(),
        forall|j: int| start <= j < bucket ==> cumulative(samples, bounds, j) < rank,
        bucket == bounds.len() || cumulative(samples, bounds, bucket) >= rank,
    ensures
        percentile_bucket_from(samples, bounds, rank, start) == bucket,
    decreases bucket - start,
{
    if start < bucket {
        lemma_percentile_bucket_is(samples, bounds, rank, start + 1, bucket);
    }
}

/// The bucket in which the cumulative count reaches a rank is the bucket
/// of the sample that stands at that rank.
pub proof fn lemma_rank_bucket(samples: Seq<u64>, bounds: Seq<u64>, rank: nat, value: u64)
    requires
        increasing(bounds),
        has_rank(samples, value, rank),
    ensures
        percentile_bucket_from(samples, bounds, rank, 0) == bucket_of(bounds, value),
{
    lemma_bucket_props(bounds, value, 0);
    let k = bucket_of(bounds, value);
    assert forall|j: int| 0 <= j < k implies cumulative(samples, bounds, j) < rank by {
        lemma_cumulative_counts(samples, bounds, j);
        lemma_count_le_grows(samples, bounds[j], value);
    }
    if k < bounds.len() {
        lemma_cumulative_counts(samples, bounds, k);
        lemma_count_le_grows(samples, value, bounds[k]);
    }
    lemma_percentile_bucket_is(samples, bounds, rank, 0, k);
}

/// The estimate of a percentile lies in the same bucket as the true
/// value: the sample that stands at the percentile's rank when the samples
/// are put in ascending order. So the estimate is off by less than the
/// width of that bucket.
pub proof fn lemma_percentile_within_bucket(
    samples: Seq<u64>,
    bounds: Seq<u64>,
    q: nat,
    value: u64,
)
    requires
        increasing(bounds),
        has_rank(samples, value, rank_of(q, samples.len())),
    ensures
        bucket_of(bounds, percentile(samples, bounds, q)) == bucket_of(bounds, value),
        value <= max_of(samples),
{
    let rank = rank_of(q, samples.len());
    lemma_rank_bucket(samples, bounds, rank, value);
    lemma_bucket_props(bounds, value, 0);
    let k = bucket_of(bounds, value);
    let largest = max_of(samples);
    if value > largest {
        lemma_above_all(samples, value);
    }
    if k < bounds.len() && bounds[k] <= largest {
        lemma_bucket_is(bounds, bounds[k], 0, k);
    } else {
        lemma_bucket_props(bounds, largest, 0);
    }
}

/// The samples pooled over a window hold every sample of every slot that
/// lies in the window.
pub proof fn lemma_pooled_holds_slot(
    slots: Seq<SlotView>,
    horizon: u64,
    window_minutes: u64,
    slot: int,
    sample: int,
)
    requires
        0 <= slot < slots.len(),
        live(slots[slot].minute, horizon, window_minutes),
        0 <= sample < slots[slot].samples.len(),
    ensures
        pooled(slots, horizon, window_minutes).contains(slots[slot].samples[sample]),
        pooled(slots, horizon, window_minutes).len() >= slots[slot].samples.len(),
    decreases slots.len(),
{
    let before = pooled(slots.drop_last(), horizon, window_minutes);
    if slot == slots.len() - 1 {
        let all = before + slots.last().samples;
        assert(all[before.len() + sample] == slots[slot].samples[sample]);
    } else {
        lemma_pooled_holds_slot(slots.drop_last(), horizon, window_minutes, slot, sample);
        let found = choose|k: int|
            0 <= k < before.len() && before[k] == slots[slot].samples[sample];
        if live(slots.last().minute, horizon, window_minutes) {
            let all = before + slots.last().samples;
            assert(all[found] == slots[slot].samples[sample]);
        }
    }
}

/// An event that the aggregator takes in is among the samples of its class
/// whenever the window is read while the event's minute lies in it.
pub proof fn lemma_taken_event_is_read(
    before: AggregatorView,
    class: ComponentType,
    timestamp: i64,
    duration: u64,
    now: i64,
)
    requires
        before.window_minutes > 0,
        before.rings.len() == CLASS_COUNT,
        before.rings[class.ordinal() as int].len() == before.window_minutes,
        before.accepts(class, timestamp),
        live(
            Some(minute_at(timestamp)),
            before.after(class, timestamp, duration).horizon(now),
            before.window_minutes,
        ),
    ensures
        before.after(class, timestamp, duration).samples(class, now).contains(duration),
{
    let after = before.after(class, timestamp, duration);
    let minute = minute_at(timestamp);
    let at = before.slot_of(minute);
    let ring = after.rings[class.ordinal() as int];
    let held = ring[at].samples;
    lemma_pooled_holds_slot(
        ring,
        after.horizon(now),
        after.window_minutes,
        at,
        held.len() - 1,
    );
}

/// The aggregator after it was offered the events one after another.
pub open spec fn aggregated(view: AggregatorView, events: Seq<LatencyEvent>) -> AggregatorView
    decreases events.len(),
{
    if events.len() == 0 {
        view
    } else {
        aggregated(view, events.drop_last()).after(
            events.last().component_type,
            events.last().timestamp,
            events.last().duration_us,
        )
    }
}

/// Whether a view has the shape of an aggregator: one ring for each class,
/// each of as many slots as the window has minutes, and each slot either
/// unused and empty or standing for a minute that maps to it and is not
/// later than the latest minute seen.
pub open spec fn shaped(view: AggregatorView) -> bool {
    &&& view.window_minutes > 0
    &&& view.rings.len() == CLASS_COUNT
    &&& forall|c: int|
        0 <= c < CLASS_COUNT ==> (#[trigger] view.rings[c]).len() == view.window_minutes
    &&& forall|c: int, i: int|
        0 <= c < CLASS_COUNT && 0 <= i < view.window_minutes ==> match (
        #[trigger] view.rings[c][i]).minute {
            Some(m) => m % view.window_minutes == i && m <= view.latest,
            None => view.rings[c][i].samples.len() == 0,
        }
}

/// The samples that a view holds of a class for a minute: those of the
/// minute's slot if the slot stands for that minute, none otherwise.
pub open spec fn held(view: AggregatorView, class: ComponentType, minute: u64) -> Seq<u64> {
    let slot = view.rings[class.ordinal() as int][view.slot_of(minute)];
    if slot.minute == Some(minute) {
        slot.samples
    } else {
        Seq::empty()
    }
}

/// The durations of the events of a class and a minute that an aggregator
/// took in when it was offered the events one after another, in the order
/// of arrival.
pub open spec fn picked(
    start: AggregatorView,
    events: Seq<LatencyEvent>,
    class: ComponentType,
    minute: u64,
) -> Seq<u64>
    decreases events.len(),
{
    if events.len() == 0 {
        Seq::empty()
    } else {
        let before = picked(start, events.drop_last(), class, minute);
        let event = events.last();
        if event.component_type == class && minute_at(event.timestamp) == minute && aggregated(
            start,
            events.drop_last(),
        ).accepts(class, event.timestamp) {
            before.push(event.duration_us)
        } else {
            before
        }
    }
}

/// Taking in an event keeps the shape of an aggregator.
pub proof fn lemma_after_shaped(
    view: AggregatorView,
    class: ComponentType,
    timestamp: i64,
    duration: u64,
)
    requires
        shaped(view),
    ensures
        shaped(view.after(class, timestamp, duration)),
{
}

/// An aggregator that was offered events one after another, from unused,
/// has the shape of an aggregator.
pub proof fn lemma_aggregated_shaped(
    bounds: Seq<u64>,
    window_minutes: u64,
    events: Seq<LatencyEvent>,
)
    requires
        window_minutes > 0,
    ensures
        shaped(aggregated(unused_view(bounds, window_minutes), events)),
        aggregated(unused_view(bounds, window_minutes), events).window_minutes == window_minutes,
        aggregated(unused_view(bounds, window_minutes), events).bounds == bounds,
    decreases events.len(),
{
    if events.len() > 0 {
        lemma_aggregated_shaped(bounds, window_minutes, events.drop_last());
    }
}

/// The rolling window holds what it took in: for every minute that has not
/// left the window, an aggregator that was offered events one after
/// another, from unused, holds of each class exactly the durations of the
/// events of that class and minute that it took in, in the order of
/// arrival. What it holds of a minute ages out only with the minute.
pub proof fn lemma_window_holds_taken(
    bounds: Seq<u64>,
    window_minutes: u64,
    events: Seq<LatencyEvent>,
    class: ComponentType,
    minute: u64,
)
    requires
        window_minutes > 0,
        minute + window_minutes > aggregated(
            unused_view(bounds, window_minutes),
            events,
        ).latest,
    ensures
        held(aggregated(unused_view(bounds, window_minutes), events), class, minute) == picked(
            unused_view(bounds, window_minutes),
            events,
            class,
            minute,
        ),
    decreases events.len(),
{
    if events.len() > 0 {
        let earlier = aggregated(unused_view(bounds, window_minutes), events.drop_last());
        let event = events.last();
        lemma_aggregated_shaped(bounds, window_minutes, events.drop_last());
        lemma_window_holds_taken(bounds, window_minutes, events.drop_last(), class, minute);
        let taken_minute = minute_at(event.timestamp);
        if earlier.accepts(event.component_type, event.timestamp) && event.component_type == class
            && earlier.slot_of(taken_minute) == earlier.slot_of(minute) {
            if minute < taken_minute {
                lemma_shared_slot(minute as int, taken_minute as int, window_minutes as int);
            } else if taken_minute < minute {
                lemma_shared_slot(taken_minute as int, minute as int, window_minutes as int);
            }
        }
    }
}

/// The summary of a class counts the samples that the class has in the
/// window, as long as they are not more than a counter holds.
pub proof fn lemma_summary_counts(view: AggregatorView, class: ComponentType, now: i64)
    requires
        view.samples(class, now).len() <= u64::MAX,
    ensures
        view.summary(class, now).component == class,
        view.summary(class, now).total_events == view.samples(class, now).len(),
        view.summary(class, now).last_updated == now,
{
}

/// Whether an entry of the list is the summary of its class, which is
/// among the first `upto` classes and has samples in the window.
pub open spec fn entry_of_class(
    view: AggregatorView,
    now: i64,
    upto: nat,
    entry: PerformanceMetrics,
) -> bool {
    &&& entry == view.summary(entry.component, now)
    &&& entry.component.ordinal() < upto
    &&& view.samples(entry.component, now).len() > 0
}

/// Each entry of the list of summaries is the summary of its class, which
/// has samples in the window.
pub proof fn lemma_listed_entries(view: AggregatorView, now: i64, upto: nat)
    requires
        upto <= CLASS_COUNT,
    ensures
        view.listed(now, upto).len() <= upto,
        forall|i: int|
            0 <= i < view.listed(now, upto).len() ==> entry_of_class(
                view,
                now,
                upto,
                #[trigger] view.listed(now, upto)[i],
            ),
    decreases upto,
{
    if upto > 0 {
        lemma_listed_entries(view, now, (upto - 1) as nat);
    }
}

/// The classes of the list of summaries stand in their order, so that no
/// class is listed twice.
pub proof fn lemma_listed_in_order(view: AggregatorView, now: i64, upto: nat, i: int, j: int)
    requires
        upto <= CLASS_COUNT,
        0 <= i < j < view.listed(now, upto).len(),
    ensures
        view.listed(now, upto)[i].component.ordinal() < view.listed(
            now,
            upto,
        )[j].component.ordinal(),
    decreases upto,
{
    if upto > 0 {
        let before = view.listed(now, (upto - 1) as nat);
        lemma_listed_entries(view, now, (upto - 1) as nat);
        if j < before.len() {
            lemma_listed_in_order(view, now, (upto - 1) as nat, i, j);
        }
    }
}

/// Every class that has samples in the window is in the list of summaries.
pub proof fn lemma_listed_covers(view: AggregatorView, now: i64, upto: nat, class: ComponentType)
    requires
        upto <= CLASS_COUNT,
        class.ordinal() < upto,
        view.samples(class, now).len() > 0,
    ensures
        exists|i: int|
            0 <= i < view.listed(now, upto).len() && (#[trigger] view.listed(now, upto)[i])
                == view.summary(class, now),
    decreases upto,
{
    let all = view.listed(now, upto);
    if class.ordinal() < upto - 1 {
        let before = view.listed(now, (upto - 1) as nat);
        lemma_listed_covers(view, now, (upto - 1) as nat, class);
        let i = choose|i: int|
            0 <= i < before.len() && (#[trigger] before[i]) == view.summary(class, now);
        assert(all[i] == before[i]);
    } else {
        assert(all[all.len() - 1] == view.summary(class, now));
    }
}

} // verus!
