//! The event bus: a bounded first-in first-out queue between the samplers
//! and the consumers. A full bus drops the event that arrives and counts it.

use vstd::prelude::*;
use crossbeam_channel::{Receiver, Sender};
use crate::models::LatencyEvent;

verus! {

/// The largest capacity a bus can be made with.
pub const MAX_CAPACITY: usize = 1_048_576;

/// The sending end of a crossbeam channel, carried as an opaque value.
#[verifier::external_type_specification]
#[verifier::external_body]
#[verifier::reject_recursive_types(T)]
pub struct ExSender<T>(Sender<T>);

/// The receiving end of a crossbeam channel, carried as an opaque value.
#[verifier::external_type_specification]
#[verifier::external_body]
#[verifier::reject_recursive_types(T)]
pub struct ExReceiver<T>(Receiver<T>);

/// Whether the two handles are the two ends of one bounded channel that no
/// other handle reaches.
pub uninterp spec fn paired(ends: (Sender<LatencyEvent>, Receiver<LatencyEvent>)) -> bool;

/// The messages waiting in the channel, the one sent first in front.
pub uninterp spec fn queued(ends: (Sender<LatencyEvent>, Receiver<LatencyEvent>)) -> Seq<
    LatencyEvent,
>;

/// The capacity that the channel was made with.
pub uninterp spec fn room(ends: (Sender<LatencyEvent>, Receiver<LatencyEvent>)) -> nat;

/// `crossbeam_channel::bounded`: the two ends of a new, empty channel that
/// holds up to `capacity` messages. The capacity is kept small enough for
/// crossbeam to allocate the buffer without overflow.
#[verifier::external_body]
fn open_channel(capacity: usize) -> (ends: (Sender<LatencyEvent>, Receiver<LatencyEvent>))
    requires
        0 < capacity <= MAX_CAPACITY,
    ensures
        paired(ends),
        queued(ends) == Seq::<LatencyEvent>::empty(),
        room(ends) == capacity,
{
    crossbeam_channel::bounded(capacity)
}

/// `Sender::try_send`: the message joins the back of the queue if the
/// channel holds fewer messages than its capacity; otherwise nothing
/// changes and the message is handed back by crossbeam and let go here.
/// The channel is not disconnected, since both of its ends are at hand.
#[verifier::external_body]
fn try_send(ends: &mut (Sender<LatencyEvent>, Receiver<LatencyEvent>), event: LatencyEvent) -> (sent:
    bool)
    requires
        paired(*old(ends)),
    ensures
        paired(*final(ends)),
        room(*final(ends)) == room(*old(ends)),
        sent == (queued(*old(ends)).len() < room(*old(ends))),
        queued(*final(ends)) == if sent {
            queued(*old(ends)).push(event)
        } else {
            queued(*old(ends))
        },
{
    ends.0.try_send(event).is_ok()
}

/// `Receiver::try_recv`: the message at the front leaves the queue and is
/// returned; there is none exactly when the queue is empty.
#[verifier::external_body]
fn try_recv(ends: &mut (Sender<LatencyEvent>, Receiver<LatencyEvent>)) -> (event: Option<
    LatencyEvent,
>)
    requires
        paired(*old(ends)),
    ensures
        paired(*final(ends)),
        room(*final(ends)) == room(*old(ends)),
        match event {
            Some(e) => queued(*old(ends)).len() > 0 && e == queued(*old(ends))[0] && queued(
                *final(ends),
            ) == queued(*old(ends)).skip(1),
            None => queued(*old(ends)).len() == 0 && queued(*final(ends)) == queued(*old(ends)),
        },
{
    ends.1.try_recv().ok()
}

/// `Receiver::len`: the number of messages in the channel.
#[verifier::external_body]
fn waiting(ends: &(Sender<LatencyEvent>, Receiver<LatencyEvent>)) -> (count: usize)
    requires
        paired(*ends),
    ensures
        count == queued(*ends).len(),
{
    ends.1.len()
}

/// A counter after `more` further counts: it stops at the largest value.
pub open spec fn counted(counter: u64, more: nat) -> u64 {
    if counter + more <= u64::MAX {
        (counter + more) as u64
    } else {
        u64::MAX
    }
}

/// How many of `offered` events a queue of `len` events with `capacity`
/// places takes.
pub open spec fn taken(len: nat, capacity: nat, offered: nat) -> nat {
    if len >= capacity {
        0
    } else if offered <= capacity - len {
        offered
    } else {
        (capacity - len) as nat
    }
}

/// A bus takes the events offered from the front of the batch and drops
/// the rest: it takes none once it is full, never more than it has room
/// for, and all of them unless it runs full.
pub proof fn lemma_drop_newest(len: nat, capacity: nat, offered: nat)
    ensures
        taken(len, capacity, offered) <= offered,
        len >= capacity ==> taken(len, capacity, offered) == 0,
        len <= capacity ==> len + taken(len, capacity, offered) <= capacity,
        taken(len, capacity, offered) < offered ==> len + taken(len, capacity, offered)
            >= capacity,
{
}

/// What a bus holds: the events waiting, the one published first in
/// front, and the count of the events dropped.
pub struct BusState {
    pub queue: Seq<LatencyEvent>,
    pub dropped: u64,
}

/// One use of a bus: a producer offers an event, or a consumer asks for
/// one.
pub enum BusStep {
    Publish(LatencyEvent),
    Take,
}

/// A bus after an event was offered: a bus with room holds it at the back,
/// a full bus has counted it as dropped.
pub open spec fn after_publish(state: BusState, capacity: nat, event: LatencyEvent) -> BusState {
    if state.queue.len() < capacity {
        BusState { queue: state.queue.push(event), dropped: state.dropped }
    } else {
        BusState { queue: state.queue, dropped: counted(state.dropped, 1) }
    }
}

/// A bus after a consumer asked for an event: the event in front is gone,
/// if there was one.
pub open spec fn after_take(state: BusState) -> BusState {
    if state.queue.len() > 0 {
        BusState { queue: state.queue.skip(1), dropped: state.dropped }
    } else {
        state
    }
}

/// A bus after a run of uses, in the order given.
pub open spec fn after_steps(state: BusState, capacity: nat, steps: Seq<BusStep>) -> BusState
    decreases steps.len(),
{
    if steps.len() == 0 {
        state
    } else {
        let before = after_steps(state, capacity, steps.drop_last());
        match steps.last() {
            BusStep::Publish(event) => after_publish(before, capacity, event),
            BusStep::Take => after_take(before),
        }
    }
}

/// The events that the consumers were handed in a run of uses, in the
/// order of the handing.
pub open spec fn delivered(state: BusState, capacity: nat, steps: Seq<BusStep>) -> Seq<
    LatencyEvent,
>
    decreases steps.len(),
{
    if steps.len() == 0 {
        Seq::empty()
    } else {
        let before = after_steps(state, capacity, steps.drop_last());
        let handed = delivered(state, capacity, steps.drop_last());
        match steps.last() {
            BusStep::Take => if before.queue.len() > 0 {
                handed.push(before.queue[0])
            } else {
                handed
            },
            BusStep::Publish(_) => handed,
        }
    }
}

/// The events that the bus took in a run of uses, in the order of the
/// offering.
pub open spec fn admitted(state: BusState, capacity: nat, steps: Seq<BusStep>) -> Seq<
    LatencyEvent,
>
    decreases steps.len(),
{
    if steps.len() == 0 {
        Seq::empty()
    } else {
        let before = after_steps(state, capacity, steps.drop_last());
        let held = admitted(state, capacity, steps.drop_last());
        match steps.last() {
            BusStep::Publish(event) => if before.queue.len() < capacity {
                held.push(event)
            } else {
                held
            },
            BusStep::Take => held,
        }
    }
}

/// How many events of a run of uses were offered to a full bus.
pub open spec fn refused(state: BusState, capacity: nat, steps: Seq<BusStep>) -> nat
    decreases steps.len(),
{
    if steps.len() == 0 {
        0
    } else {
        let before = after_steps(state, capacity, steps.drop_last());
        let turned_away = refused(state, capacity, steps.drop_last());
        match steps.last() {
            BusStep::Publish(_) => if before.queue.len() < capacity {
                turned_away
            } else {
                turned_away + 1
            },
            BusStep::Take => turned_away,
        }
    }
}

/// How many events were offered in a run of uses.
pub open spec fn offered(steps: Seq<BusStep>) -> nat
    decreases steps.len(),
{
    if steps.len() == 0 {
        0
    } else {
        offered(steps.drop_last()) + match steps.last() {
            BusStep::Publish(_) => 1nat,
            BusStep::Take => 0nat,
        }
    }
}

/// Nothing is lost but what is counted, however offers and takes are
/// mixed: every event offered is either taken by the bus or offered to a
/// full bus, the counter has risen by the number of the latter, up to the
/// largest value, and what the bus took is what the consumers were handed
/// followed by what still waits, in the order of the offering. The bus
/// never holds more than its capacity.
pub proof fn lemma_no_silent_loss(state: BusState, capacity: nat, steps: Seq<BusStep>)
    requires
        state.queue.len() <= capacity,
    ensures
        after_steps(state, capacity, steps).queue.len() <= capacity,
        admitted(state, capacity, steps).len() + refused(state, capacity, steps) == offered(
            steps,
        ),
        after_steps(state, capacity, steps).dropped == counted(
            state.dropped,
            refused(state, capacity, steps),
        ),
        delivered(state, capacity, steps) + after_steps(state, capacity, steps).queue
            == state.queue + admitted(state, capacity, steps),
    decreases steps.len(),
{
    if steps.len() > 0 {
        lemma_no_silent_loss(state, capacity, steps.drop_last());
        let before = after_steps(state, capacity, steps.drop_last());
        let handed = delivered(state, capacity, steps.drop_last());
        if let BusStep::Publish(event) = steps.last() {
            if before.queue.len() < capacity {
                assert(handed + before.queue.push(event) =~= (handed + before.queue).push(event));
            }
        }
    }
}

/// The bounded event bus.
pub struct EventBus {
    ends: (Sender<LatencyEvent>, Receiver<LatencyEvent>),
    capacity: usize,
    dropped: u64,
}

impl EventBus {
    /// The events waiting, the one published first in front.
    pub closed spec fn queue(&self) -> Seq<LatencyEvent> {
        queued(self.ends)
    }

    /// How many events the bus holds at most.
    pub closed spec fn capacity(&self) -> nat {
        self.capacity as nat
    }

    /// How many events were dropped because the bus was full.
    pub closed spec fn dropped(&self) -> u64 {
        self.dropped
    }

    /// The events waiting and the count of the events dropped.
    pub open spec fn state(&self) -> BusState {
        BusState { queue: self.queue(), dropped: self.dropped() }
    }

    /// The bus's invariant.
    pub closed spec fn wf(&self) -> bool {
        &&& paired(self.ends)
        &&& room(self.ends) == self.capacity
        &&& 0 < self.capacity <= MAX_CAPACITY
        &&& queued(self.ends).len() <= self.capacity
    }

    /// A well-formed bus never holds more than its capacity.
    pub proof fn lemma_bounded(&self)
        requires
            self.wf(),
        ensures
            self.queue().len() <= self.capacity(),
            0 < self.capacity() <= MAX_CAPACITY,
    {
    }

    /// An empty bus of the given capacity; `None` where the capacity is
    /// zero or above `MAX_CAPACITY`.
    pub fn new(capacity: usize) -> (bus: Option<EventBus>)
        ensures
            bus is Some <==> 0 < capacity <= MAX_CAPACITY,
            bus matches Some(b) ==> {
                &&& b.wf()
                &&& b.queue() == Seq::<LatencyEvent>::empty()
                &&& b.capacity() == capacity
                &&& b.dropped() == 0
            },
    {
        if capacity == 0 || capacity > MAX_CAPACITY {
            None
        } else {
            Some(EventBus { ends: open_channel(capacity), capacity, dropped: 0 })
        }
    }

    /// Offers one event. A bus with room takes it at the back; a full bus
    /// lets it go and counts one more dropped event. The caller never
    /// waits.
    pub fn publish(&mut self, event: LatencyEvent) -> (accepted: bool)
        requires
            old(self).wf(),
        ensures
            final(self).wf(),
            final(self).capacity() == old(self).capacity(),
            accepted == (old(self).queue().len() < old(self).capacity()),
            accepted ==> final(self).queue() == old(self).queue().push(event) && final(self).dropped() == old(self).dropped(),
            !accepted ==> final(self).queue() == old(self).queue() && final(self).dropped()
                == counted(old(self).dropped(), 1),
            final(self).state() == after_publish(old(self).state(), old(self).capacity(), event),
    {
        let sent = try_send(&mut self.ends, event);
        if !sent && self.dropped < u64::MAX {
            self.dropped = self.dropped + 1;
        }
        sent
    }

    /// Offers the events one after another. The bus takes events from the
    /// front of the batch until it is full, and drops and counts the rest.
    pub fn publish_all(&mut self, events: &Vec<LatencyEvent>) -> (accepted: usize)
        requires
            old(self).wf(),
        ensures
            final(self).wf(),
            final(self).capacity() == old(self).capacity(),
            accepted == taken(old(self).queue().len(), old(self).capacity(), events.len() as nat),
            final(self).queue() == old(self).queue() + events@.take(accepted as int),
            final(self).dropped() == counted(
                old(self).dropped(),
                (events.len() - accepted) as nat,
            ),
    {
        let ghost start = old(self).queue();
        let ghost cap = old(self).capacity();
        let mut accepted: usize = 0;
        let mut i: usize = 0;
        while i < events.len()
            invariant
                self.wf(),
                self.capacity() == cap,
                start == old(self).queue(),
                start.len() <= cap,
                i <= events.len(),
                accepted == taken(start.len(), cap, i as nat),
                self.queue() == start + events@.take(accepted as int),
                self.dropped() == counted(old(self).dropped(), (i - accepted) as nat),
            decreases events.len() - i,
        {
            let took = self.publish(events[i].duplicate());
            if took {
                accepted = accepted + 1;
            }
            i = i + 1;
        }
        accepted
    }

    /// Takes the event at the front, if there is one.
    pub fn next(&mut self) -> (event: Option<LatencyEvent>)
        requires
            old(self).wf(),
        ensures
            final(self).wf(),
            final(self).capacity() == old(self).capacity(),
            final(self).dropped() == old(self).dropped(),
            old(self).queue().len() == 0 ==> event is None && final(self).queue() == old(self).queue(),
            old(self).queue().len() > 0 ==> event == Some(old(self).queue()[0]) && final(self).queue() == old(self).queue().skip(1),
            final(self).state() == after_take(old(self).state()),
    {
        try_recv(&mut self.ends)
    }

    /// Takes every waiting event, in the order in which they were
    /// published, and leaves the bus empty.
    pub fn drain(&mut self) -> (events: Vec<LatencyEvent>)
        requires
            old(self).wf(),
        ensures
            final(self).wf(),
            final(self).capacity() == old(self).capacity(),
            final(self).dropped() == old(self).dropped(),
            events@ == old(self).queue(),
            final(self).queue() == Seq::<LatencyEvent>::empty(),
    {
        let ghost start = old(self).queue();
        let mut events: Vec<LatencyEvent> = Vec::new();
        let mut left: usize = waiting(&self.ends);
        while left > 0
            invariant
                self.wf(),
                self.capacity() == old(self).capacity(),
                self.dropped() == old(self).dropped(),
                events.len() + left == start.len(),
                events@ == start.take(events.len() as int),
                self.queue() == start.skip(events.len() as int),
            decreases left,
        {
            match self.next() {
                Some(event) => {
                    events.push(event);
                },
                None => {},
            }
            left = left - 1;
        }
        events
    }

    /// Throws away every waiting event and returns how many they were.
    /// They are not counted as dropped by a full bus.
    pub fn discard(&mut self) -> (discarded: usize)
        requires
            old(self).wf(),
        ensures
            final(self).wf(),
            final(self).capacity() == old(self).capacity(),
            final(self).dropped() == old(self).dropped(),
            discarded == old(self).queue().len(),
            final(self).queue() == Seq::<LatencyEvent>::empty(),
    {
        let events = self.drain();
        events.len()
    }

    /// How many events are waiting.
    pub fn len(&self) -> (count: usize)
        requires
            self.wf(),
        ensures
            count == self.queue().len(),
    {
        waiting(&self.ends)
    }

    /// How many events the bus holds at most.
    pub fn max_len(&self) -> (capacity: usize)
        ensures
            capacity == self.capacity(),
    {
        self.capacity
    }

    /// How many events were dropped because the bus was full.
    pub fn dropped_events(&self) -> (count: u64)
        ensures
            count == self.dropped(),
    {
        self.dropped
    }
}

} // verus!
