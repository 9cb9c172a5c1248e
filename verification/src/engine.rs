//! The engine: event loop, dispatch, and the channel fault model.
//!
//! `step` pops the earliest event, advances the virtual clock to its time,
//! dispatches it to one endpoint through a fresh `ActionBuffer`, and then
//! commits the buffer. Its contract ties the new state to the model's
//! `step_rel`: everything except what the callback chose to buffer and
//! which values the channel drew is a mathematical function of the old
//! state.

use vstd::prelude::*;

use vstd::string::StringExecFns;

use crate::buffer::ActionBuffer;
use crate::config::{SimConfig, RATE_SCALE};
use crate::event::{is_earliest, lemma_earliest_unique, Event, EventKindModel, EventQueue, EventType, NodeId};
use crate::link::{LinkEvent, LinkEventKind};
use crate::model::{
    apply_buffer, apply_cancel, apply_cancels_upto, apply_deliveries_upto, apply_delivery,
    apply_log, apply_logs_upto, apply_metric, apply_metrics_upto, apply_start, apply_starts_upto,
    apply_transmit, apply_transmits_upto, complete_run, dispatch_step, expiry_live, init_rel,
    initial_model, is_first_index, metric_has, metric_index, model_push, model_wf, popped_at,
    run_chain, sat_add, step_at, step_rel, valid_draw, valid_draws, ChannelDraw, SimModel,
};
use crate::packet::Packet;
use crate::protocol::TransportProtocol;
use crate::rng::{draw_below, draw_between, rng_from_seed};
use crate::timers::TimerTable;

verus! {

/// Two `ChannelDraw` sequences that agree on the first `n` entries drive
/// the first `n` transmissions to the same state.
proof fn lemma_transmits_agree(
    s: SimModel,
    src: NodeId,
    ps: Seq<crate::packet::PacketModel>,
    ds1: Seq<ChannelDraw>,
    ds2: Seq<ChannelDraw>,
    n: int,
)
    requires
        forall|k: int| 0 <= k < n ==> ds1[k] == ds2[k],
    ensures
        apply_transmits_upto(s, src, ps, ds1, n) == apply_transmits_upto(s, src, ps, ds2, n),
    decreases n,
{
    if n > 0 {
        lemma_transmits_agree(s, src, ps, ds1, ds2, n - 1);
    }
}

/// The first position of `x` in `v`, if `x` occurs at all.
fn position_of(v: &Vec<u32>, x: u32) -> (r: Option<usize>)
    ensures
        match r {
            Some(i) => is_first_index(v@, x, i as int),
            None => !v@.contains(x),
        },
{
    let mut i: usize = 0;
    while i < v.len()
        invariant
            0 <= i <= v@.len(),
            forall|j: int| 0 <= j < i ==> v@[j] != x,
        decreases v@.len() - i,
    {
        if v[i] == x {
            return Some(i);
        }
        i = i + 1;
    }
    None
}

/// At most one index is the first position of `x`.
proof fn lemma_first_index_unique(s: Seq<u32>, x: u32, i1: int, i2: int)
    requires
        is_first_index(s, x, i1),
        is_first_index(s, x, i2),
    ensures
        i1 == i2,
{
}

/// `a + b`, stuck at `u64::MAX`.
fn sat_add_exec(a: u64, b: u64) -> (r: u64)
    ensures
        r == sat_add(a, b),
{
    if b > u64::MAX - a {
        u64::MAX
    } else {
        a + b
    }
}

/// The discrete-event engine: the two protocol instances, the virtual
/// clock, the event queue, the seeded random stream, and all bookkeeping.
pub struct Simulator<S: TransportProtocol, R: TransportProtocol> {
    config: SimConfig,
    time: u64,
    queue: EventQueue,
    rng: rand::rngs::StdRng,
    /// The protocol instance driving the sending endpoint.
    pub sender: S,
    /// The protocol instance driving the receiving endpoint.
    pub receiver: R,
    delivered_data: Vec<Vec<u8>>,
    sender_packet_count: u32,
    sender_window_sizes: Vec<u16>,
    logs: Vec<(NodeId, String)>,
    metrics: Vec<(String, Vec<(u64, i64)>)>,
    drop_sender_seq_once: Vec<u32>,
    drop_receiver_ack_once: Vec<u32>,
    link_events: Vec<LinkEvent>,
    timer_generations: TimerTable,
}

impl<S: TransportProtocol, R: TransportProtocol> View for Simulator<S, R> {
    type V = SimModel;

    closed spec fn view(&self) -> SimModel {
        SimModel {
            config: self.config,
            time: self.time,
            queue: self.queue@,
            next_event_id: self.queue.next_id(),
            generations: self.timer_generations@,
            drop_sender_seq: self.drop_sender_seq_once@,
            drop_receiver_ack: self.drop_receiver_ack_once@,
            delivered: self.delivered_data@.map_values(|d: Vec<u8>| d@),
            sender_packet_count: self.sender_packet_count,
            window_samples: self.sender_window_sizes@,
            logs: self.logs@.map_values(|l: (NodeId, String)| (l.0, l.1@)),
            metrics: self.metrics@.map_values(|m: (String, Vec<(u64, i64)>)| (m.0@, m.1@)),
            link_events: self.link_events@,
        }
    }
}

impl<S: TransportProtocol, R: TransportProtocol> Simulator<S, R> {
    /// The simulator's invariant; established by `new` and preserved by
    /// every method.
    pub closed spec fn wf(&self) -> bool {
        &&& self.queue.wf()
        &&& self.timer_generations.wf()
        &&& model_wf(self@)
    }

    /// The sender instance, as a specification value.
    pub closed spec fn spec_sender(&self) -> S {
        self.sender
    }

    /// The receiver instance, as a specification value.
    pub closed spec fn spec_receiver(&self) -> R {
        self.receiver
    }

    /// The invariant seen through the model.
    pub proof fn lemma_wf_model(&self)
        requires
            self.wf(),
        ensures
            model_wf(self@),
    {
    }

    /// A simulator at virtual time 0 with nothing scheduled. The
    /// configuration must be usable: rates are probabilities and the
    /// latency interval is not inverted.
    pub fn new(config: SimConfig, sender: S, receiver: R) -> (sim: Simulator<S, R>)
        requires
            config.wf(),
        ensures
            sim.wf(),
            sim@ == initial_model(config),
            sim.spec_sender() == sender,
            sim.spec_receiver() == receiver,
    {
        let sim = Simulator {
            config,
            time: 0,
            queue: EventQueue::new(),
            rng: rng_from_seed(config.seed),
            sender,
            receiver,
            delivered_data: Vec::new(),
            sender_packet_count: 0,
            sender_window_sizes: Vec::new(),
            logs: Vec::new(),
            metrics: Vec::new(),
            drop_sender_seq_once: Vec::new(),
            drop_receiver_ack_once: Vec::new(),
            link_events: Vec::new(),
            timer_generations: TimerTable::new(),
        };
        proof {
            assert(sim@.delivered =~= Seq::<Seq<u8>>::empty());
            assert(sim@.logs =~= Seq::<(NodeId, Seq<char>)>::empty());
            assert(sim@.metrics =~= Seq::<(Seq<char>, Seq<(u64, i64)>)>::empty());
        }
        sim
    }

    /// Register a single-use deterministic fault: drop the next sender
    /// packet whose seq equals `seq`.
    pub fn add_drop_sender_seq_once(&mut self, seq: u32)
        requires
            old(self).wf(),
        ensures
            final(self).wf(),
            final(self).spec_sender() == old(self).spec_sender(),
            final(self).spec_receiver() == old(self).spec_receiver(),
            final(self)@ == (SimModel {
                drop_sender_seq: old(self)@.drop_sender_seq.push(seq),
                ..old(self)@
            }),
    {
        self.drop_sender_seq_once.push(seq);
    }

    /// Register a single-use deterministic fault: drop the next receiver
    /// ACK whose ack equals `ack`.
    pub fn add_drop_receiver_ack_once(&mut self, ack: u32)
        requires
            old(self).wf(),
        ensures
            final(self).wf(),
            final(self).spec_sender() == old(self).spec_sender(),
            final(self).spec_receiver() == old(self).spec_receiver(),
            final(self)@ == (SimModel {
                drop_receiver_ack: old(self)@.drop_receiver_ack.push(ack),
                ..old(self)@
            }),
    {
        self.drop_receiver_ack_once.push(ack);
    }

    /// The channel parameters this simulator was built with.
    pub fn config(&self) -> (c: &SimConfig)
        ensures
            *c == self@.config,
    {
        &self.config
    }

    /// The current virtual time in milliseconds.
    pub fn current_time(&self) -> (t: u64)
        ensures
            t == self@.time,
    {
        self.time
    }

    /// How many events are still pending.
    pub fn remaining_events(&self) -> (n: usize)
        ensures
            n == self@.queue.len(),
    {
        self.queue.len()
    }

    /// The time of the event `step` would process next, if any.
    pub fn peek_next_event_time(&self) -> (r: Option<u64>)
        requires
            self.wf(),
        ensures
            self@.queue.len() == 0 ==> r is None,
            self@.queue.len() > 0 ==> (exists|i: int|
                is_earliest(self@.queue, i) && r == Some(self@.queue[i].time)),
    {
        self.queue.peek_time()
    }

    /// The payloads delivered upward so far, in delivery order.
    pub fn delivered_data(&self) -> (d: &Vec<Vec<u8>>)
        ensures
            d@.map_values(|x: Vec<u8>| x@) == self@.delivered,
    {
        &self.delivered_data
    }

    /// How many packets the sender has put on the channel so far.
    pub fn sender_packet_count(&self) -> (n: u32)
        ensures
            n == self@.sender_packet_count,
    {
        self.sender_packet_count
    }

    /// Every non-zero window size the sender has reported so far.
    pub fn sender_window_sizes(&self) -> (w: &Vec<u16>)
        ensures
            w@ == self@.window_samples,
    {
        &self.sender_window_sizes
    }

    /// The log lines protocols have written so far, each tagged with the
    /// endpoint that wrote it, in commit order; a driver may drain them
    /// to its own observability channel.
    pub fn log_lines(&self) -> (l: &Vec<(NodeId, String)>)
        ensures
            l@.map_values(|x: (NodeId, String)| (x.0, x.1@)) == self@.logs,
    {
        &self.logs
    }

    /// The link-event log so far.
    pub fn link_events(&self) -> (l: &Vec<LinkEvent>)
        ensures
            l@ == self@.link_events,
    {
        &self.link_events
    }

    /// The samples recorded so far under `name`, oldest first.
    pub fn metric_series(&self, name: &str) -> (r: Option<&Vec<(u64, i64)>>)
        requires
            self.wf(),
        ensures
            metric_has(self@.metrics, name@) ==> (r matches Some(v) && v@
                == self@.metrics[metric_index(self@.metrics, name@)].1),
            !metric_has(self@.metrics, name@) ==> r is None,
    {
        let owned = String::from_str(name);
        let mut k: usize = 0;
        while k < self.metrics.len()
            invariant
                self.wf(),
                owned@ == name@,
                0 <= k <= self.metrics@.len(),
                forall|j: int| 0 <= j < k ==> (#[trigger] self@.metrics[j]).0 != name@,
            decreases self.metrics@.len() - k,
        {
            if self.metrics[k].0 == owned {
                proof {
                    let ms = self@.metrics;
                    assert(ms[k as int].0 == name@);
                    assert(metric_has(ms, name@));
                    let w = metric_index(ms, name@);
                    if w != k as int {
                        assert(ms[w].0 == name@);
                        assert(false);
                    }
                }
                return Some(&self.metrics[k].1);
            }
            k = k + 1;
        }
        None
    }

    /// Schedule an application-layer send. A time already in the past is
    /// brought forward to the current virtual time, so that the queue
    /// never holds an event the clock has passed.
    pub fn schedule_app_send(&mut self, time: u64, data: Vec<u8>)
        requires
            old(self).wf(),
        ensures
            final(self).wf(),
            final(self).spec_sender() == old(self).spec_sender(),
            final(self).spec_receiver() == old(self).spec_receiver(),
            final(self)@ == model_push(
                old(self)@,
                if time < old(self)@.time {
                    old(self)@.time
                } else {
                    time
                },
                crate::event::EventKindModel::AppSend { data: data@ },
            ),
    {
        let t = if time < self.time {
            self.time
        } else {
            time
        };
        self.queue.push(t, EventType::AppSend { data });
    }

    /// Record one metric sample under the current virtual time.
    fn record_metric_sample(&mut self, name: &String, value: i64)
        requires
            old(self).wf(),
        ensures
            final(self).wf(),
            final(self)@ == apply_metric(old(self)@, name@, value),
    {
        let now = self.time;
        let ghost pre = self@;
        let mut k: usize = 0;
        while k < self.metrics.len()
            invariant
                self.wf(),
                self@ == pre,
                pre == old(self)@,
                now == pre.time,
                0 <= k <= self.metrics@.len(),
                forall|j: int| 0 <= j < k ==> (#[trigger] self@.metrics[j]).0 != name@,
            decreases self.metrics@.len() - k,
        {
            if self.metrics[k].0 == *name {
                proof {
                    let ms = pre.metrics;
                    assert(ms[k as int].0 == name@);
                    assert(metric_has(ms, name@));
                    let w = metric_index(ms, name@);
                    if w != k as int {
                        assert(ms[w].0 == name@);
                        assert(false);
                    }
                }
                let ghost m0 = self.metrics@;
                let mut entry = self.metrics.remove(k);
                let ghost e0 = entry;
                entry.1.push((now, value));
                proof {
                    assert(entry.0 == e0.0 && entry.1@ == e0.1@.push((now, value)));
                }
                self.metrics.insert(k, entry);
                proof {
                    assert(self.metrics@ =~= m0.update(k as int, entry));
                    assert(pre.metrics[k as int] == (m0[k as int].0@, m0[k as int].1@));
                    let target = pre.metrics.update(
                        k as int,
                        (name@, pre.metrics[k as int].1.push((pre.time, value))),
                    );
                    assert(self@.metrics.len() == target.len());
                    assert forall|j: int| 0 <= j < target.len() implies self@.metrics[j]
                        == target[j] by {
                        assert(self.metrics@[j] == m0.update(k as int, entry)[j]);
                        if j == k {
                            assert(self@.metrics[j] == (entry.0@, entry.1@));
                            assert(entry.0@ == name@);
                            assert(now == pre.time);
                            assert(entry.1@ == pre.metrics[k as int].1.push((pre.time, value)));
                            assert(target[j] == (name@, pre.metrics[k as int].1.push(
                                (pre.time, value),
                            )));
                        } else {
                            assert(self@.metrics[j] == (m0[j].0@, m0[j].1@));
                            assert(pre.metrics[j] == (m0[j].0@, m0[j].1@));
                        }
                    }
                    assert(self@.metrics =~= target);
                    assert(self@ == apply_metric(pre, name@, value));
                }
                return ;
            }
            k = k + 1;
        }
        proof {
            assert(!metric_has(pre.metrics, name@));
        }
        let mut series: Vec<(u64, i64)> = Vec::new();
        series.push((now, value));
        self.metrics.push((name.clone(), series));
        proof {
            assert(series@ =~= seq![(pre.time, value)]);
            assert(self@.metrics =~= pre.metrics.push((name@, seq![(pre.time, value)])));
            assert(self@ == apply_metric(pre, name@, value));
        }
    }

    /// Deliver one payload upward: log it, then append it.
    fn deliver_one(&mut self, src: NodeId, data: Vec<u8>)
        requires
            old(self).wf(),
        ensures
            final(self).wf(),
            final(self)@ == apply_delivery(old(self)@, src, data@),
    {
        let ghost pre = self@;
        let bytes = data.len() as u64;
        self.link_events.push(
            LinkEvent { time: self.time, kind: LinkEventKind::Delivered { node: src, bytes } },
        );
        self.delivered_data.push(data);
        proof {
            assert(self@.delivered =~= pre.delivered.push(data@));
            assert(self@ == apply_delivery(pre, src, data@));
        }
    }

    /// Put one packet on the channel, consuming one draw per decision the
    /// probabilistic model makes; the ghost result is the draw record the
    /// transmission is explained by.
    fn transmit_one(&mut self, src: NodeId, packet: &Packet) -> (d: Ghost<ChannelDraw>)
        requires
            old(self).wf(),
        ensures
            final(self).wf(),
            valid_draw(old(self)@.config, d@),
            final(self)@ == apply_transmit(old(self)@, src, packet@, d@),
            final(self)@.config == old(self)@.config,
            final(self)@.time == old(self)@.time,
    {
        let ghost pre = self@;
        let seq_num = packet.header.seq_num;
        let ack_num = packet.header.ack_num;
        let ghost fallback = ChannelDraw { loss: 0, corrupt: 0, latency: self.config.min_latency };

        if src == NodeId::Sender {
            if self.sender_packet_count < u32::MAX {
                self.sender_packet_count = self.sender_packet_count + 1;
            }
            if packet.header.window_size > 0 {
                self.sender_window_sizes.push(packet.header.window_size);
            }
        }

        // 1. Deterministic overrides: consume the single matching entry
        //    and drop the packet; no draw is spent.
        if src == NodeId::Sender {
            match position_of(&self.drop_sender_seq_once, seq_num) {
                Some(pos) => {
                    self.link_events.push(
                        LinkEvent {
                            time: self.time,
                            kind: LinkEventKind::DeterministicDropSeq { seq: seq_num },
                        },
                    );
                    let ghost mid = self@;
                    self.drop_sender_seq_once.remove(pos);
                    proof {
                        let w = choose|i: int| is_first_index(mid.drop_sender_seq, seq_num, i);
                        lemma_first_index_unique(mid.drop_sender_seq, seq_num, w, pos as int);
                        assert(self@ == apply_transmit(pre, src, packet@, fallback));
                    }
                    return Ghost(fallback);
                },
                None => {},
            }
        }
        if src == NodeId::Receiver && packet.header.flags & crate::flags::ACK != 0 {
            match position_of(&self.drop_receiver_ack_once, ack_num) {
                Some(pos) => {
                    self.link_events.push(
                        LinkEvent {
                            time: self.time,
                            kind: LinkEventKind::DeterministicDropAck { ack: ack_num },
                        },
                    );
                    let ghost mid = self@;
                    self.drop_receiver_ack_once.remove(pos);
                    proof {
                        let w = choose|i: int| is_first_index(mid.drop_receiver_ack, ack_num, i);
                        lemma_first_index_unique(mid.drop_receiver_ack, ack_num, w, pos as int);
                        assert(self@ == apply_transmit(pre, src, packet@, fallback));
                    }
                    return Ghost(fallback);
                },
                None => {},
            }
        }

        // 2. Loss.
        let loss_draw = draw_below(&mut self.rng, RATE_SCALE);
        if loss_draw < self.config.loss_ppm {
            self.link_events.push(
                LinkEvent {
                    time: self.time,
                    kind: LinkEventKind::RandomLoss { from: src, seq: seq_num, ack: ack_num },
                },
            );
            let ghost d = ChannelDraw { loss: loss_draw, corrupt: 0, latency: pre.config.min_latency };
            proof {
                assert(self@ == apply_transmit(pre, src, packet@, d));
            }
            return Ghost(d);
        }

        // 3. Corruption: flip the checksum, never the payload.
        let corrupt_draw = draw_below(&mut self.rng, RATE_SCALE);
        let mut header = packet.header;
        if corrupt_draw < self.config.corrupt_ppm {
            self.link_events.push(
                LinkEvent {
                    time: self.time,
                    kind: LinkEventKind::Corrupt { from: src, seq: seq_num, ack: ack_num },
                },
            );
            header.checksum = !header.checksum;
        }

        // 4. Latency, then hand the packet to the peer.
        let latency = draw_between(&mut self.rng, self.config.min_latency, self.config.max_latency);
        let arrival = sat_add_exec(self.time, latency);
        self.link_events.push(
            LinkEvent {
                time: self.time,
                kind: LinkEventKind::Send { from: src, seq: seq_num, ack: ack_num, latency },
            },
        );
        let target = src.peer();
        let delivered_packet = Packet {
            header,
            payload: vstd::slice::slice_to_vec(packet.payload.as_slice()),
        };
        self.queue.push(arrival, EventType::PacketArrival { to: target, packet: delivered_packet });
        let ghost d = ChannelDraw { loss: loss_draw, corrupt: corrupt_draw, latency };
        proof {
            assert(self@ == apply_transmit(pre, src, packet@, d));
        }
        Ghost(d)
    }

    /// Commit one callback's buffered effects in the fixed order: metrics,
    /// log lines, delivered data, timer cancellations, timer starts,
    /// outgoing packets. Cancellations run strictly before starts so that
    /// a "cancel then restart" in one callback yields a fresh generation.
    fn commit(&mut self, src: NodeId, buffer: ActionBuffer)
        requires
            old(self).wf(),
        ensures
            final(self).wf(),
            final(self)@.config == old(self)@.config,
            final(self)@.time == old(self)@.time,
            exists|ds: Seq<ChannelDraw>|
                {
                    &&& ds.len() == buffer@.packets.len()
                    &&& valid_draws(old(self)@.config, ds)
                    &&& final(self)@ == apply_buffer(old(self)@, src, buffer@, ds)
                },
    {
        let ghost b = buffer@;
        let ghost s0 = self@;
        let (packets, starts, cancels, buffered_logs, delivered, metrics) = buffer.into_parts();

        // Metrics.
        let mut i: usize = 0;
        while i < metrics.len()
            invariant
                self.wf(),
                0 <= i <= metrics@.len(),
                metrics@.map_values(|m: (String, i64)| (m.0@, m.1)) == b.metrics,
                self@ == apply_metrics_upto(s0, b.metrics, i as int),
                self@.config == s0.config,
                self@.time == s0.time,
            decreases metrics@.len() - i,
        {
            let entry = &metrics[i];
            proof {
                assert(b.metrics[i as int] == (entry.0@, entry.1));
            }
            self.record_metric_sample(&entry.0, entry.1);
            i = i + 1;
        }
        let ghost s1 = apply_metrics_upto(s0, b.metrics, b.metrics.len() as int);
        proof {
            assert(self@ == s1);
        }

        // Log lines, kept for a driver to drain.
        let mut i: usize = 0;
        while i < buffered_logs.len()
            invariant
                self.wf(),
                0 <= i <= buffered_logs@.len(),
                buffered_logs@.map_values(|l: String| l@) == b.logs,
                self@ == apply_logs_upto(s1, src, b.logs, i as int),
                self@.config == s0.config,
                self@.time == s0.time,
            decreases buffered_logs@.len() - i,
        {
            let line = buffered_logs[i].clone();
            let ghost pre = self@;
            self.logs.push((src, line));
            proof {
                assert(line@ == b.logs[i as int]);
                assert(self@.logs =~= pre.logs.push((src, b.logs[i as int])));
                assert(self@ == apply_log(pre, src, b.logs[i as int]));
            }
            i = i + 1;
        }
        let ghost s1b = apply_logs_upto(s1, src, b.logs, b.logs.len() as int);
        proof {
            assert(self@ == s1b);
        }

        // Delivered data.
        let mut i: usize = 0;
        while i < delivered.len()
            invariant
                self.wf(),
                0 <= i <= delivered@.len(),
                delivered@.map_values(|d: Vec<u8>| d@) == b.delivered,
                self@ == apply_deliveries_upto(s1b, src, b.delivered, i as int),
                self@.config == s0.config,
                self@.time == s0.time,
            decreases delivered@.len() - i,
        {
            let data = crate::trace::clone_bytes(&delivered[i]);
            proof {
                assert(b.delivered[i as int] == data@);
            }
            self.deliver_one(src, data);
            i = i + 1;
        }
        let ghost s2 = apply_deliveries_upto(s1b, src, b.delivered, b.delivered.len() as int);
        proof {
            assert(self@ == s2);
        }

        // Timer cancellations.
        let mut i: usize = 0;
        while i < cancels.len()
            invariant
                self.wf(),
                0 <= i <= cancels@.len(),
                cancels@ == b.cancels,
                self@ == apply_cancels_upto(s2, src, b.cancels, i as int),
                self@.config == s0.config,
                self@.time == s0.time,
            decreases cancels@.len() - i,
        {
            let id = cancels[i];
            let ghost pre = self@;
            let _ = self.timer_generations.bump(src, id);
            proof {
                assert(self@ == apply_cancel(pre, src, id));
            }
            i = i + 1;
        }
        let ghost s3 = apply_cancels_upto(s2, src, b.cancels, b.cancels.len() as int);
        proof {
            assert(self@ == s3);
        }

        // Timer starts: each captures the key's current generation.
        let mut i: usize = 0;
        while i < starts.len()
            invariant
                self.wf(),
                0 <= i <= starts@.len(),
                starts@ == b.starts,
                self@ == apply_starts_upto(s3, src, b.starts, i as int),
                self@.config == s0.config,
                self@.time == s0.time,
            decreases starts@.len() - i,
        {
            let (delay, id) = starts[i];
            let ghost pre = self@;
            let g = self.timer_generations.read_or_insert(src, id);
            let t = sat_add_exec(self.time, delay);
            self.queue.push(
                t,
                EventType::TimerExpiry { node: src, timer_id: id, generation: g },
            );
            proof {
                assert(self@ == apply_start(pre, src, delay, id));
            }
            i = i + 1;
        }
        let ghost s4 = apply_starts_upto(s3, src, b.starts, b.starts.len() as int);
        proof {
            assert(self@ == s4);
        }

        // Outgoing packets, through the channel fault model.
        let mut i: usize = 0;
        let ghost mut ds: Seq<ChannelDraw> = Seq::empty();
        while i < packets.len()
            invariant
                self.wf(),
                0 <= i <= packets@.len(),
                packets@.map_values(|p: Packet| p@) == b.packets,
                ds.len() == i,
                valid_draws(s0.config, ds),
                self@ == apply_transmits_upto(s4, src, b.packets, ds, i as int),
                self@.config == s0.config,
                self@.time == s0.time,
            decreases packets@.len() - i,
        {
            let ghost pre = self@;
            let ghost ds_before = ds;
            let d = self.transmit_one(src, &packets[i]);
            proof {
                ds = ds.push(d@);
                lemma_transmits_agree(s4, src, b.packets, ds_before, ds, i as int);
                assert(b.packets[i as int] == packets@.map_values(|p: Packet| p@)[i as int]);
                assert(self@ == apply_transmits_upto(s4, src, b.packets, ds, i as int + 1));
            }
            i = i + 1;
        }
        proof {
            assert(self@ == apply_buffer(s0, src, b, ds));
        }
    }

    /// Translate one scenario action into the engine call it stands for.
    pub fn apply_action(&mut self, action: &crate::scenario::TestAction)
        requires
            old(self).wf(),
        ensures
            final(self).wf(),
            final(self).spec_sender() == old(self).spec_sender(),
            final(self).spec_receiver() == old(self).spec_receiver(),
            match *action {
                crate::scenario::TestAction::AppSend { time, ref data } => final(self)@
                    == model_push(
                    old(self)@,
                    if time < old(self)@.time {
                        old(self)@.time
                    } else {
                        time
                    },
                    crate::event::EventKindModel::AppSend {
                        data: vstd::utf8::encode_utf8(data@),
                    },
                ),
                crate::scenario::TestAction::DropNextFromSenderSeq { seq } => final(self)@ == (
                SimModel { drop_sender_seq: old(self)@.drop_sender_seq.push(seq), ..old(self)@ }),
                crate::scenario::TestAction::DropNextFromReceiverAck { ack } => final(self)@ == (
                SimModel {
                    drop_receiver_ack: old(self)@.drop_receiver_ack.push(ack),
                    ..old(self)@
                }),
            },
    {
        match action {
            crate::scenario::TestAction::AppSend { time, data } => {
                let bytes = vstd::slice::slice_to_vec(data.as_str().as_bytes());
                self.schedule_app_send(*time, bytes);
            },
            crate::scenario::TestAction::DropNextFromSenderSeq { seq } => {
                self.add_drop_sender_seq_once(*seq);
            },
            crate::scenario::TestAction::DropNextFromReceiverAck { ack } => {
                self.add_drop_receiver_ack_once(*ack);
            },
        }
    }

    /// A snapshot of the accumulated state for graders, persistence and
    /// visualization.
    pub fn export_report(&self) -> (r: crate::trace::SimulationReport)
        ensures
            r@ == crate::trace::report_of(self@),
    {
        let r = crate::trace::SimulationReport {
            config: self.config,
            duration_ms: self.time,
            delivered_data: crate::trace::clone_byte_lists(&self.delivered_data),
            sender_packet_count: self.sender_packet_count,
            sender_window_sizes: vstd::slice::slice_to_vec(self.sender_window_sizes.as_slice()),
            metrics: crate::trace::clone_metric_series(&self.metrics),
            link_events: vstd::slice::slice_to_vec(self.link_events.as_slice()),
        };
        r
    }

    /// Fire both `init` callbacks, sender first, committing each buffer
    /// before the next callback runs.
    pub fn init(&mut self)
        requires
            old(self).wf(),
        ensures
            final(self).wf(),
            final(self)@.config == old(self)@.config,
            final(self)@.time == old(self)@.time,
            init_rel(old(self)@, final(self)@),
    {
        let ghost pre = self@;
        let mut buf = ActionBuffer::new(self.time);
        self.sender.init(&mut buf);
        let ghost b1 = buf@;
        self.commit(NodeId::Sender, buf);
        let ghost mid = self@;
        proof {
            let ds1 = choose|ds: Seq<ChannelDraw>|
                {
                    &&& ds.len() == b1.packets.len()
                    &&& valid_draws(pre.config, ds)
                    &&& mid == apply_buffer(pre, NodeId::Sender, b1, ds)
                };
            assert(mid == apply_buffer(pre, NodeId::Sender, b1, ds1));
            assert(dispatch_step(pre, NodeId::Sender, mid));
        }
        let mut buf2 = ActionBuffer::new(self.time);
        self.receiver.init(&mut buf2);
        let ghost b2 = buf2@;
        self.commit(NodeId::Receiver, buf2);
        proof {
            let ds2 = choose|ds: Seq<ChannelDraw>|
                {
                    &&& ds.len() == b2.packets.len()
                    &&& valid_draws(mid.config, ds)
                    &&& self@ == apply_buffer(mid, NodeId::Receiver, b2, ds)
                };
            assert(self@ == apply_buffer(mid, NodeId::Receiver, b2, ds2));
            assert(dispatch_step(mid, NodeId::Receiver, self@));
            assert(dispatch_step(pre, NodeId::Sender, mid));
            assert(init_rel(pre, self@));
        }
    }

    /// Process the next event: pop the earliest, advance the clock to its
    /// time, dispatch, commit. Returns false (and changes nothing) when
    /// the queue is empty — the simulation is drained.
    pub fn step(&mut self) -> (processed: bool)
        requires
            old(self).wf(),
        ensures
            final(self).wf(),
            final(self)@.config == old(self)@.config,
            processed == (old(self)@.queue.len() > 0),
            !processed ==> final(self)@ == old(self)@,
            !processed ==> final(self).spec_sender() == old(self).spec_sender(),
            !processed ==> final(self).spec_receiver() == old(self).spec_receiver(),
            processed ==> step_rel(old(self)@, final(self)@),
            processed ==> final(self)@.time >= old(self)@.time,
            forall|j: int| #![trigger is_earliest(old(self)@.queue, j)]
                is_earliest(old(self)@.queue, j) ==> (old(self)@.queue[j].kind matches
                    EventKindModel::TimerExpiry { node, timer_id, generation } ==> (!expiry_live(
                    old(self)@,
                    node,
                    timer_id,
                    generation,
                ) ==> final(self).spec_sender() == old(self).spec_sender()
                    && final(self).spec_receiver() == old(self).spec_receiver())),
    {
        let ghost pre = self@;
        let popped = self.queue.pop_earliest();
        let event: Event = match popped {
            None => {
                return false;
            },
            Some(e) => e,
        };
        let ghost i = choose|i: int|
            {
                &&& is_earliest(pre.queue, i)
                &&& event@ == pre.queue[i]
                &&& self.queue@ == pre.queue.remove(i)
            };
        self.time = event.time;
        let ghost popped_state = SimModel { time: event@.time, queue: pre.queue.remove(i), ..pre };
        proof {
            assert(self@ == popped_state);
            assert forall|k: int| 0 <= k < self@.queue.len() implies (#[trigger] self@.queue[k]).time
                >= self@.time by {
                if k < i {
                    assert(self@.queue[k] == pre.queue[k]);
                } else {
                    assert(self@.queue[k] == pre.queue[k + 1]);
                }
            }
            assert forall|k: int| 0 <= k < self@.queue.len() implies (#[trigger] self@.queue[k]).id
                <= self@.next_event_id by {
                if k < i {
                    assert(self@.queue[k] == pre.queue[k]);
                } else {
                    assert(self@.queue[k] == pre.queue[k + 1]);
                }
            }
            assert(self.wf());
        }
        match event.event_type {
            EventType::PacketArrival { to, packet } => {
                let mut buf = ActionBuffer::new(self.time);
                match to {
                    NodeId::Sender => self.sender.on_packet(&mut buf, packet),
                    NodeId::Receiver => self.receiver.on_packet(&mut buf, packet),
                }
                let ghost bw = buf@;
                self.commit(to, buf);
                proof {
                    let dsw = choose|ds: Seq<ChannelDraw>|
                        {
                            &&& ds.len() == bw.packets.len()
                            &&& valid_draws(popped_state.config, ds)
                            &&& self@ == apply_buffer(popped_state, to, bw, ds)
                        };
                    assert(self@ == apply_buffer(popped_state, to, bw, dsw));
                    assert(dispatch_step(popped_state, to, self@));
                    assert(popped_state == popped_at(pre, i));
                    assert(step_at(pre, i, self@));
                    assert(step_rel(pre, self@));
                    assert forall|j: int| is_earliest(pre.queue, j) implies j == i by {
                        lemma_earliest_unique(pre.queue, j, i);
                    }
                }
            },
            EventType::TimerExpiry { node, timer_id, generation } => {
                let live = match self.timer_generations.lookup(node, timer_id) {
                    Some(g) => g == generation,
                    None => false,
                };
                if live {
                    let mut buf = ActionBuffer::new(self.time);
                    match node {
                        NodeId::Sender => self.sender.on_timer(&mut buf, timer_id),
                        NodeId::Receiver => self.receiver.on_timer(&mut buf, timer_id),
                    }
                    let ghost bw = buf@;
                    self.commit(node, buf);
                    proof {
                        assert(expiry_live(popped_state, node, timer_id, generation));
                        let dsw = choose|ds: Seq<ChannelDraw>|
                            {
                                &&& ds.len() == bw.packets.len()
                                &&& valid_draws(popped_state.config, ds)
                                &&& self@ == apply_buffer(popped_state, node, bw, ds)
                            };
                        assert(self@ == apply_buffer(popped_state, node, bw, dsw));
                        assert(dispatch_step(popped_state, node, self@));
                        assert(popped_state == popped_at(pre, i));
                        assert(step_at(pre, i, self@));
                        assert(step_rel(pre, self@));
                        assert(expiry_live(pre, node, timer_id, generation));
                        assert forall|j: int| is_earliest(pre.queue, j) implies j == i by {
                            lemma_earliest_unique(pre.queue, j, i);
                        }
                    }
                } else {
                    proof {
                        assert(!expiry_live(popped_state, node, timer_id, generation));
                        assert(self@ == popped_state);
                        assert(popped_state == popped_at(pre, i));
                        assert(step_at(pre, i, self@));
                        assert(step_rel(pre, self@));
                        assert forall|j: int| is_earliest(pre.queue, j) implies j == i by {
                            lemma_earliest_unique(pre.queue, j, i);
                        }
                    }
                }
            },
            EventType::AppSend { data } => {
                let mut buf = ActionBuffer::new(self.time);
                self.sender.on_app_data(&mut buf, data.as_slice());
                let ghost bw = buf@;
                self.commit(NodeId::Sender, buf);
                proof {
                    let dsw = choose|ds: Seq<ChannelDraw>|
                        {
                            &&& ds.len() == bw.packets.len()
                            &&& valid_draws(popped_state.config, ds)
                            &&& self@ == apply_buffer(popped_state, NodeId::Sender, bw, ds)
                        };
                    assert(self@ == apply_buffer(popped_state, NodeId::Sender, bw, dsw));
                    assert(dispatch_step(popped_state, NodeId::Sender, self@));
                    assert(popped_state == popped_at(pre, i));
                    assert(step_at(pre, i, self@));
                    assert(step_rel(pre, self@));
                    assert forall|j: int| is_earliest(pre.queue, j) implies j == i by {
                        lemma_earliest_unique(pre.queue, j, i);
                    }
                }
            },
        }
        true
    }

    /// Fire `init` once, then step until the queue drains: the final
    /// state is reached from the initial one by the two `init` dispatches
    /// followed by a chain of `step_rel` steps, and on return no events
    /// remain — unless the internal `u64::MAX` step budget ran out, which
    /// keeps the loop provably finite and which no simulation reaches.
    /// The engine imposes no time bound of its own; a driver needing one
    /// must watch `current_time` itself.
    pub fn run_until_complete(&mut self)
        requires
            old(self).wf(),
        ensures
            final(self).wf(),
            final(self)@.config == old(self)@.config,
            exists|states: Seq<SimModel>| complete_run(old(self)@, final(self)@, states),
    {
        self.init();
        let ghost mut states: Seq<SimModel> = seq![self@];
        let mut budget: u64 = u64::MAX;
        while budget > 0
            invariant
                self.wf(),
                self@.config == old(self)@.config,
                states.len() == 1 + u64::MAX - budget,
                init_rel(old(self)@, states.first()),
                run_chain(states),
                states.last() == self@,
            decreases budget,
        {
            let ghost before = self@;
            if !self.step() {
                proof {
                    assert(self@.queue.len() == 0);
                    assert(complete_run(old(self)@, self@, states));
                }
                return ;
            }
            proof {
                let prev = states;
                states = states.push(self@);
                assert(states.last() == self@);
                assert(states.first() == prev.first());
                assert forall|i: int| 0 <= i < states.len() implies model_wf(
                    #[trigger] states[i],
                ) by {
                    if i < prev.len() {
                        assert(states[i] == prev[i]);
                    } else {
                        assert(states[i] == self@);
                    }
                }
                assert forall|i: int| 0 <= i < states.len() - 1 implies step_rel(
                    #[trigger] states[i],
                    states[i + 1],
                ) by {
                    if i < prev.len() - 1 {
                        assert(states[i] == prev[i] && states[i + 1] == prev[i + 1]);
                    } else {
                        assert(states[i] == prev.last() && states[i + 1] == self@);
                        assert(prev.last() == before);
                    }
                }
            }
            budget = budget - 1;
        }
        proof {
            assert(states.len() == 1 + u64::MAX);
            assert(complete_run(old(self)@, self@, states));
        }
    }
}

} // verus!
