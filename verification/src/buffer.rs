//! The scoped capability handed to a protocol callback.
//!
//! Every call a callback can make appends to one of the buffer's lists and
//! has no effect on the simulation until the engine commits the buffer
//! after the callback returns. `now` is stamped when the buffer is created
//! and never changes during a callback.

use vstd::prelude::*;

use crate::packet::{Packet, PacketModel};

verus! {

/// The mathematical value of an `ActionBuffer`: the capture time and the
/// six effect lists, each in call order.
pub ghost struct BufferModel {
    pub now: u64,
    pub packets: Seq<PacketModel>,
    pub starts: Seq<(u64, u32)>,
    pub cancels: Seq<u32>,
    pub logs: Seq<Seq<char>>,
    pub delivered: Seq<Seq<u8>>,
    pub metrics: Seq<(Seq<char>, i64)>,
}

impl BufferModel {
    /// A buffer fresh from `ActionBuffer::new`: all lists empty.
    pub open spec fn fresh(now: u64) -> BufferModel {
        BufferModel {
            now,
            packets: Seq::empty(),
            starts: Seq::empty(),
            cancels: Seq::empty(),
            logs: Seq::empty(),
            delivered: Seq::empty(),
            metrics: Seq::empty(),
        }
    }
}

/// The buffer behind one protocol callback. The engine creates it stamped
/// with the virtual time of the event being dispatched, the callback fills
/// it through the methods below, and the engine commits it exactly once.
pub struct ActionBuffer {
    now: u64,
    outgoing_packets: Vec<Packet>,
    timers_start: Vec<(u64, u32)>,
    timers_cancel: Vec<u32>,
    logs: Vec<String>,
    delivered_data: Vec<Vec<u8>>,
    metrics: Vec<(String, i64)>,
}

impl View for ActionBuffer {
    type V = BufferModel;

    closed spec fn view(&self) -> BufferModel {
        BufferModel {
            now: self.now,
            packets: self.outgoing_packets@.map_values(|p: Packet| p@),
            starts: self.timers_start@,
            cancels: self.timers_cancel@,
            logs: self.logs@.map_values(|s: String| s@),
            delivered: self.delivered_data@.map_values(|d: Vec<u8>| d@),
            metrics: self.metrics@.map_values(|m: (String, i64)| (m.0@, m.1)),
        }
    }
}

impl ActionBuffer {
    /// An empty buffer stamped with the current virtual time.
    pub fn new(now: u64) -> (b: ActionBuffer)
        ensures
            b@ == BufferModel::fresh(now),
    {
        let b = ActionBuffer {
            now,
            outgoing_packets: Vec::new(),
            timers_start: Vec::new(),
            timers_cancel: Vec::new(),
            logs: Vec::new(),
            delivered_data: Vec::new(),
            metrics: Vec::new(),
        };
        proof {
            assert(b@.packets =~= Seq::<PacketModel>::empty());
            assert(b@.logs =~= Seq::<Seq<char>>::empty());
            assert(b@.delivered =~= Seq::<Seq<u8>>::empty());
            assert(b@.metrics =~= Seq::<(Seq<char>, i64)>::empty());
        }
        b
    }

    /// Queue a packet for transmission over the channel.
    pub fn send_packet(&mut self, packet: Packet)
        ensures
            final(self)@ == (BufferModel {
                packets: old(self)@.packets.push(packet@),
                ..old(self)@
            }),
    {
        let ghost prev = self@;
        self.outgoing_packets.push(packet);
        proof {
            assert(self@.packets =~= prev.packets.push(packet@));
        }
    }

    /// Queue the start of a timer `delay_ms` after the buffer's time.
    pub fn start_timer(&mut self, delay_ms: u64, timer_id: u32)
        ensures
            final(self)@ == (BufferModel {
                starts: old(self)@.starts.push((delay_ms, timer_id)),
                ..old(self)@
            }),
    {
        self.timers_start.push((delay_ms, timer_id));
    }

    /// Queue the cancellation of a timer.
    pub fn cancel_timer(&mut self, timer_id: u32)
        ensures
            final(self)@ == (BufferModel {
                cancels: old(self)@.cancels.push(timer_id),
                ..old(self)@
            }),
    {
        self.timers_cancel.push(timer_id);
    }

    /// Queue delivery of received data to the application layer.
    pub fn deliver_data(&mut self, data: &[u8])
        ensures
            final(self)@ == (BufferModel {
                delivered: old(self)@.delivered.push(data@),
                ..old(self)@
            }),
    {
        let ghost prev = self@;
        let owned = vstd::slice::slice_to_vec(data);
        self.delivered_data.push(owned);
        proof {
            assert(self@.delivered =~= prev.delivered.push(data@));
        }
    }

    /// Queue a debug log line.
    pub fn log(&mut self, message: &str)
        ensures
            final(self)@ == (BufferModel { logs: old(self)@.logs.push(message@), ..old(self)@ }),
    {
        let ghost prev = self@;
        let owned = String::from_str(message);
        self.logs.push(owned);
        proof {
            assert(self@.logs =~= prev.logs.push(message@));
        }
    }

    /// The virtual time captured when the buffer was created; constant for
    /// the whole callback.
    pub fn now(&self) -> (t: u64)
        ensures
            t == self@.now,
    {
        self.now
    }

    /// Surrender the six effect lists for the engine to commit.
    pub fn into_parts(self) -> (r: (
        Vec<Packet>,
        Vec<(u64, u32)>,
        Vec<u32>,
        Vec<String>,
        Vec<Vec<u8>>,
        Vec<(String, i64)>,
    ))
        ensures
            r.0@.map_values(|p: Packet| p@) == self@.packets,
            r.1@ == self@.starts,
            r.2@ == self@.cancels,
            r.3@.map_values(|s: String| s@) == self@.logs,
            r.4@.map_values(|d: Vec<u8>| d@) == self@.delivered,
            r.5@.map_values(|m: (String, i64)| (m.0@, m.1)) == self@.metrics,
    {
        (
            self.outgoing_packets,
            self.timers_start,
            self.timers_cancel,
            self.logs,
            self.delivered_data,
            self.metrics,
        )
    }

    /// Queue a named metric sample; protocols that never call this are
    /// simply absent from the metric series.
    pub fn record_metric(&mut self, name: &str, value: i64)
        ensures
            final(self)@ == (BufferModel {
                metrics: old(self)@.metrics.push((name@, value)),
                ..old(self)@
            }),
    {
        let ghost prev = self@;
        let owned = String::from_str(name);
        self.metrics.push((owned, value));
        proof {
            assert(self@.metrics =~= prev.metrics.push((name@, value)));
        }
    }
}

} // verus!
