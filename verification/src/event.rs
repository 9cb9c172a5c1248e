//! Endpoints, events, and the event queue.
//!
//! The queue is the heart of the simulator's ordering guarantee: events
//! come out in non-decreasing `time`, and events with equal `time` come out
//! in the order they were pushed. Entries are kept in push order in a
//! vector, so the earliest event is the first entry holding the minimal
//! time; insertion identifiers are carried for observability and never
//! decrease along the vector.

use vstd::prelude::*;

use crate::packet::{Packet, PacketModel};

verus! {

/// One of the two simulated parties.
#[derive(Clone, Copy, Debug, PartialEq, Eq, Structural)]
pub enum NodeId {
    Sender,
    Receiver,
}

impl NodeId {
    /// The other endpoint.
    pub open spec fn spec_peer(self) -> NodeId {
        match self {
            NodeId::Sender => NodeId::Receiver,
            NodeId::Receiver => NodeId::Sender,
        }
    }

    /// The other endpoint of the link.
    pub fn peer(&self) -> (p: NodeId)
        ensures
            p == self.spec_peer(),
    {
        match self {
            NodeId::Sender => NodeId::Receiver,
            NodeId::Receiver => NodeId::Sender,
        }
    }
}

/// `peer` is a total involution that never maps an endpoint to itself.
pub proof fn lemma_peer_involution(n: NodeId)
    ensures
        n.spec_peer().spec_peer() == n,
        n.spec_peer() != n,
{
}

/// What an event does when dispatched.
#[derive(Clone, Debug)]
pub enum EventType {
    /// A packet crosses the link and arrives at `to`.
    PacketArrival { to: NodeId, packet: Packet },
    /// A timer started by `node` expires; honored only if `generation`
    /// still matches the timer table.
    TimerExpiry { node: NodeId, timer_id: u32, generation: u64 },
    /// The application hands `data` to the sender.
    AppSend { data: Vec<u8> },
}

/// The mathematical value of an `EventType`.
pub ghost enum EventKindModel {
    PacketArrival { to: NodeId, packet: PacketModel },
    TimerExpiry { node: NodeId, timer_id: u32, generation: u64 },
    AppSend { data: Seq<u8> },
}

impl View for EventType {
    type V = EventKindModel;

    open spec fn view(&self) -> EventKindModel {
        match self {
            EventType::PacketArrival { to, packet } => EventKindModel::PacketArrival {
                to: *to,
                packet: packet@,
            },
            EventType::TimerExpiry { node, timer_id, generation } => EventKindModel::TimerExpiry {
                node: *node,
                timer_id: *timer_id,
                generation: *generation,
            },
            EventType::AppSend { data } => EventKindModel::AppSend { data: data@ },
        }
    }
}

/// A scheduled event: what happens, when, and the insertion identifier
/// used to describe the FIFO tie-break.
#[derive(Debug)]
pub struct Event {
    pub time: u64,
    pub id: u64,
    pub event_type: EventType,
}

/// The mathematical value of an `Event`.
pub ghost struct EventModel {
    pub time: u64,
    pub id: u64,
    pub kind: EventKindModel,
}

impl View for Event {
    type V = EventModel;

    open spec fn view(&self) -> EventModel {
        EventModel { time: self.time, id: self.id, kind: self.event_type@ }
    }
}

/// `i` is the index the queue pops next: the first position holding the
/// minimal time of the sequence.
pub open spec fn is_earliest(s: Seq<EventModel>, i: int) -> bool {
    &&& 0 <= i < s.len()
    &&& forall|j: int| 0 <= j < s.len() ==> s[i].time <= #[trigger] s[j].time
    &&& forall|j: int| 0 <= j < i ==> s[i].time < #[trigger] s[j].time
}

/// At most one index is the earliest.
pub proof fn lemma_earliest_unique(s: Seq<EventModel>, i1: int, i2: int)
    requires
        is_earliest(s, i1),
        is_earliest(s, i2),
    ensures
        i1 == i2,
{
    if i1 < i2 {
        assert(s[i2].time < s[i1].time);
    }
    if i2 < i1 {
        assert(s[i1].time < s[i2].time);
    }
}

/// Insertion identifiers never decrease along the sequence.
pub open spec fn ids_nondecreasing(s: Seq<EventModel>) -> bool {
    forall|i: int, j: int| 0 <= i <= j < s.len() ==> #[trigger] s[i].id <= #[trigger] s[j].id
}

/// The FIFO tie-break: among events holding the popped event's time, the
/// popped event carries the smallest insertion identifier.
pub proof fn lemma_pop_is_fifo(s: Seq<EventModel>, i: int, j: int)
    requires
        ids_nondecreasing(s),
        is_earliest(s, i),
        0 <= j < s.len(),
        s[j].time == s[i].time,
    ensures
        s[i].id <= s[j].id,
{
    if j < i {
        assert(s[i].time < s[j].time);
    }
}

/// A counter bumped by one, stuck at `u64::MAX`.
pub open spec fn sat_inc(g: u64) -> u64 {
    if g == u64::MAX {
        g
    } else {
        (g + 1) as u64
    }
}

/// A min-queue of events ordered by `(time, push order)`.
///
/// Entries are held in push order, so the earliest event is the first
/// entry with minimal time; `next_id` is the identifier the next push
/// receives (it stops growing at `u64::MAX`, after which identifiers
/// merely stay non-decreasing, which is all the tie-break needs).
pub struct EventQueue {
    items: Vec<Event>,
    next_id: u64,
}

impl View for EventQueue {
    type V = Seq<EventModel>;

    closed spec fn view(&self) -> Seq<EventModel> {
        self.items@.map_values(|e: Event| e@)
    }
}

impl EventQueue {
    /// The identifier the next push receives.
    pub closed spec fn next_id(self) -> u64 {
        self.next_id
    }

    /// Identifiers already handed out stay below (or at) the next one.
    pub open spec fn wf(self) -> bool {
        &&& ids_nondecreasing(self@)
        &&& forall|i: int| 0 <= i < self@.len() ==> #[trigger] self@[i].id <= self.next_id()
    }

    pub fn new() -> (q: EventQueue)
        ensures
            q.wf(),
            q@ == Seq::<EventModel>::empty(),
            q.next_id() == 0,
    {
        let q = EventQueue { items: Vec::new(), next_id: 0 };
        proof {
            assert(q@ =~= Seq::<EventModel>::empty());
        }
        q
    }

    pub fn len(&self) -> (n: usize)
        ensures
            n == self@.len(),
    {
        self.items.len()
    }

    /// Append an event at the given time; the returned insertion
    /// identifier is at least every identifier already in the queue.
    pub fn push(&mut self, time: u64, event_type: EventType) -> (id: u64)
        requires
            old(self).wf(),
        ensures
            final(self).wf(),
            id == old(self).next_id(),
            final(self).next_id() == sat_inc(old(self).next_id()),
            final(self)@ == old(self)@.push(EventModel { time, id, kind: event_type@ }),
            forall|j: int| 0 <= j < old(self)@.len() ==> #[trigger] old(self)@[j].id <= id,
    {
        let id = self.next_id;
        let ghost prev = self@;
        let e = Event { time, id, event_type };
        let ghost em = e@;
        self.items.push(e);
        if self.next_id < u64::MAX {
            self.next_id = self.next_id + 1;
        }
        proof {
            assert(self@ =~= prev.push(em));
        }
        id
    }

    /// The time of the event `pop_earliest` would return, if any.
    pub fn peek_time(&self) -> (r: Option<u64>)
        requires
            self.wf(),
        ensures
            self@.len() == 0 ==> r is None,
            self@.len() > 0 ==> (exists|i: int|
                is_earliest(self@, i) && r == Some(self@[i].time)),
    {
        if self.items.len() == 0 {
            return None;
        }
        let best = self.earliest_position();
        Some(self.items[best].time)
    }

    /// The index of the earliest entry (first position of minimal time).
    fn earliest_position(&self) -> (best: usize)
        requires
            self@.len() > 0,
        ensures
            is_earliest(self@, best as int),
    {
        let mut best: usize = 0;
        let mut k: usize = 1;
        while k < self.items.len()
            invariant
                0 < self.items.len() == self@.len(),
                0 <= best < k <= self@.len(),
                forall|j: int| 0 <= j < k ==> self@[best as int].time <= #[trigger] self@[j].time,
                forall|j: int| 0 <= j < best ==> self@[best as int].time < #[trigger] self@[j].time,
            decreases self@.len() - k,
        {
            if self.items[k].time < self.items[best].time {
                best = k;
            }
            k = k + 1;
        }
        best
    }

    /// Remove and return the earliest event: minimal time, and among equal
    /// times the one pushed first.
    pub fn pop_earliest(&mut self) -> (r: Option<Event>)
        requires
            old(self).wf(),
        ensures
            final(self).wf(),
            final(self).next_id() == old(self).next_id(),
            old(self)@.len() == 0 ==> r is None && final(self)@ == old(self)@,
            old(self)@.len() > 0 ==> (exists|i: int|
                {
                    &&& is_earliest(old(self)@, i)
                    &&& r matches Some(e) && e@ == old(self)@[i]
                    &&& final(self)@ == old(self)@.remove(i)
                }),
    {
        if self.items.len() == 0 {
            return None;
        }
        let ghost prev = self@;
        let best = self.earliest_position();
        let e = self.items.remove(best);
        proof {
            assert(self@ =~= prev.remove(best as int));
            assert forall|i: int, j: int| 0 <= i <= j < self@.len() implies #[trigger] self@[i].id
                <= #[trigger] self@[j].id by {
                if j < best {
                    assert(self@[i] == prev[i] && self@[j] == prev[j]);
                } else if i < best {
                    assert(self@[i] == prev[i] && self@[j] == prev[j + 1]);
                } else {
                    assert(self@[i] == prev[i + 1] && self@[j] == prev[j + 1]);
                }
            }
            assert forall|i: int| 0 <= i < self@.len() implies #[trigger] self@[i].id
                <= self.next_id by {
                if i < best {
                    assert(self@[i] == prev[i]);
                } else {
                    assert(self@[i] == prev[i + 1]);
                }
            }
        }
        Some(e)
    }
}

} // verus!
