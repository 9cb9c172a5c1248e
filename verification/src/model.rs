//! The mathematical model of the simulator.
//!
//! `SimModel` is the observable state of a `Simulator`; the protocol
//! instances and the random generator are deliberately absent. The `apply`
//! functions below say exactly what committing one callback's buffered
//! effects does to the state: the engine's contracts equate its behavior
//! with these functions, and the library's laws are proved about them.
//!
//! A commit consumes the buffer in a fixed order — metrics, log lines,
//! delivered data, timer cancellations, timer starts, outgoing packets —
//! with cancellations strictly before starts, so that a "cancel then
//! restart the same id in one callback" sequence produces a fresh
//! generation.
//! The channel consumes one `ChannelDraw` per outgoing packet.

use vstd::prelude::*;

use crate::config::{SimConfig, RATE_SCALE};
use crate::event::{ids_nondecreasing, is_earliest, sat_inc, EventKindModel, EventModel, NodeId};
use crate::link::{LinkEvent, LinkEventKind};
use crate::packet::{PacketModel, TcpHeader};

verus! {

/// A `u64` sum that sticks at the maximum instead of wrapping.
pub open spec fn sat_add(a: u64, b: u64) -> u64 {
    if a + b > u64::MAX {
        u64::MAX
    } else {
        (a + b) as u64
    }
}

/// A `u32` counter bumped by one, stuck at `u32::MAX`.
pub open spec fn sat_inc32(c: u32) -> u32 {
    if c == u32::MAX {
        c
    } else {
        (c + 1) as u32
    }
}

/// The observable state of a simulator.
pub ghost struct SimModel {
    /// Channel parameters, fixed at construction.
    pub config: SimConfig,
    /// The virtual clock, in milliseconds.
    pub time: u64,
    /// Pending events, in push order.
    pub queue: Seq<EventModel>,
    /// The insertion identifier the next push receives.
    pub next_event_id: u64,
    /// Current generation of every (endpoint, timer id) pair ever seen.
    pub generations: Map<(NodeId, u32), u64>,
    /// Pending "drop one sender packet with this seq" overrides.
    pub drop_sender_seq: Seq<u32>,
    /// Pending "drop one receiver ACK with this ack" overrides.
    pub drop_receiver_ack: Seq<u32>,
    /// Payloads delivered upward, in delivery order.
    pub delivered: Seq<Seq<u8>>,
    /// How many packets the sender has put on the channel.
    pub sender_packet_count: u32,
    /// Every non-zero window size the sender reported, in order.
    pub window_samples: Seq<u16>,
    /// Log lines committed so far, each tagged with the endpoint that
    /// wrote it.
    pub logs: Seq<(NodeId, Seq<char>)>,
    /// Named metric time series, in order of first appearance.
    pub metrics: Seq<(Seq<char>, Seq<(u64, i64)>)>,
    /// The link-event log.
    pub link_events: Seq<LinkEvent>,
}

/// The state of a freshly constructed simulator.
pub open spec fn initial_model(config: SimConfig) -> SimModel {
    SimModel {
        config,
        time: 0,
        queue: Seq::empty(),
        next_event_id: 0,
        generations: Map::empty(),
        drop_sender_seq: Seq::empty(),
        drop_receiver_ack: Seq::empty(),
        delivered: Seq::empty(),
        sender_packet_count: 0,
        window_samples: Seq::empty(),
        logs: Seq::empty(),
        metrics: Seq::empty(),
        link_events: Seq::empty(),
    }
}

/// Metric names never repeat.
pub open spec fn metric_names_unique(ms: Seq<(Seq<char>, Seq<(u64, i64)>)>) -> bool {
    forall|i: int, j: int| 0 <= i < j < ms.len() ==> (#[trigger] ms[i]).0 != (#[trigger] ms[j]).0
}

/// The simulator's invariant, over the observable state alone: the
/// configuration is usable, insertion identifiers respect push order, no
/// pending event lies in the past, and metric names are unique.
pub open spec fn model_wf(s: SimModel) -> bool {
    &&& s.config.wf()
    &&& ids_nondecreasing(s.queue)
    &&& forall|i: int| 0 <= i < s.queue.len() ==> (#[trigger] s.queue[i]).id <= s.next_event_id
    &&& forall|i: int| 0 <= i < s.queue.len() ==> (#[trigger] s.queue[i]).time >= s.time
    &&& metric_names_unique(s.metrics)
}

/// Schedule `kind` at `time`, handing it the next insertion identifier.
pub open spec fn model_push(s: SimModel, time: u64, kind: EventKindModel) -> SimModel {
    SimModel {
        queue: s.queue.push(EventModel { time, id: s.next_event_id, kind }),
        next_event_id: sat_inc(s.next_event_id),
        ..s
    }
}

/// Append one record to the link-event log, stamped with the current time.
pub open spec fn push_link(s: SimModel, k: LinkEventKind) -> SimModel {
    SimModel { link_events: s.link_events.push(LinkEvent { time: s.time, kind: k }), ..s }
}

/// The table's generation for a key, with 0 standing in for a key never
/// seen (`start` semantics; dispatch distinguishes the absent case).
pub open spec fn current_gen(s: SimModel, k: (NodeId, u32)) -> u64 {
    if s.generations.dom().contains(k) {
        s.generations[k]
    } else {
        0
    }
}

/// Some metric series already carries this name.
pub open spec fn metric_has(ms: Seq<(Seq<char>, Seq<(u64, i64)>)>, name: Seq<char>) -> bool {
    exists|i: int| 0 <= i < ms.len() && (#[trigger] ms[i]).0 == name
}

/// The index of the series carrying this name (unique when names are).
pub open spec fn metric_index(ms: Seq<(Seq<char>, Seq<(u64, i64)>)>, name: Seq<char>) -> int {
    choose|i: int| 0 <= i < ms.len() && (#[trigger] ms[i]).0 == name
}

/// Record one metric sample under the current time: append to the series
/// of that name, or open a new series at the end.
pub open spec fn apply_metric(s: SimModel, name: Seq<char>, value: i64) -> SimModel {
    if metric_has(s.metrics, name) {
        let i = metric_index(s.metrics, name);
        SimModel {
            metrics: s.metrics.update(i, (name, s.metrics[i].1.push((s.time, value)))),
            ..s
        }
    } else {
        SimModel { metrics: s.metrics.push((name, seq![(s.time, value)])), ..s }
    }
}

/// Commit one log line written by `src`.
pub open spec fn apply_log(s: SimModel, src: NodeId, line: Seq<char>) -> SimModel {
    SimModel { logs: s.logs.push((src, line)), ..s }
}

/// Deliver one payload upward: log it, then append it to the delivered
/// list.
pub open spec fn apply_delivery(s: SimModel, src: NodeId, data: Seq<u8>) -> SimModel {
    let s1 = push_link(s, LinkEventKind::Delivered { node: src, bytes: data.len() as u64 });
    SimModel { delivered: s1.delivered.push(data), ..s1 }
}

/// Cancel one timer: bump the key's generation (a key never seen starts
/// at 0, so it becomes 1).
pub open spec fn apply_cancel(s: SimModel, src: NodeId, timer_id: u32) -> SimModel {
    SimModel {
        generations: s.generations.insert(
            (src, timer_id),
            sat_inc(current_gen(s, (src, timer_id))),
        ),
        ..s
    }
}

/// Start one timer: capture the key's current generation (creating the
/// entry at 0 if absent, bumping nothing) and schedule the expiry.
pub open spec fn apply_start(s: SimModel, src: NodeId, delay: u64, timer_id: u32) -> SimModel {
    let g = current_gen(s, (src, timer_id));
    let s1 = SimModel { generations: s.generations.insert((src, timer_id), g), ..s };
    model_push(
        s1,
        sat_add(s.time, delay),
        EventKindModel::TimerExpiry { node: src, timer_id, generation: g },
    )
}

/// `i` is the first position of `v` in `s`.
pub open spec fn is_first_index(s: Seq<u32>, v: u32, i: int) -> bool {
    &&& 0 <= i < s.len()
    &&& s[i] == v
    &&& forall|j: int| 0 <= j < i ==> s[j] != v
}

/// Remove the first occurrence of `v`.
pub open spec fn remove_first(s: Seq<u32>, v: u32) -> Seq<u32> {
    s.remove(choose|i: int| is_first_index(s, v, i))
}

/// One uniform draw per channel decision, each within its range; which
/// value comes back is never assumed.
pub ghost struct ChannelDraw {
    /// Compared against `loss_ppm`.
    pub loss: u32,
    /// Compared against `corrupt_ppm`.
    pub corrupt: u32,
    /// The sampled one-way latency.
    pub latency: u64,
}

pub open spec fn valid_draw(c: SimConfig, d: ChannelDraw) -> bool {
    &&& d.loss < RATE_SCALE
    &&& d.corrupt < RATE_SCALE
    &&& c.min_latency <= d.latency <= c.max_latency
}

pub open spec fn valid_draws(c: SimConfig, ds: Seq<ChannelDraw>) -> bool {
    forall|i: int| 0 <= i < ds.len() ==> valid_draw(c, #[trigger] ds[i])
}

/// The packet as the corruption step leaves it: checksum flipped, payload
/// untouched.
pub open spec fn corrupted(p: PacketModel) -> PacketModel {
    PacketModel { header: TcpHeader { checksum: !p.header.checksum, ..p.header }, ..p }
}

/// Sender-side bookkeeping done for every outgoing sender packet, dropped
/// or not: count it, and sample a non-zero window size.
pub open spec fn count_and_sample(s: SimModel, p: PacketModel) -> SimModel {
    let s1 = SimModel { sender_packet_count: sat_inc32(s.sender_packet_count), ..s };
    if p.header.window_size > 0 {
        SimModel { window_samples: s1.window_samples.push(p.header.window_size), ..s1 }
    } else {
        s1
    }
}

/// Put one packet on the channel: deterministic override check, then loss,
/// then corruption, then latency, in that order. Only the deterministic
/// override consumes no draw values.
pub open spec fn apply_transmit(s: SimModel, src: NodeId, p: PacketModel, d: ChannelDraw) -> SimModel {
    let s0 = if src == NodeId::Sender {
        count_and_sample(s, p)
    } else {
        s
    };
    if src == NodeId::Sender && s0.drop_sender_seq.contains(p.header.seq_num) {
        let s1 = push_link(s0, LinkEventKind::DeterministicDropSeq { seq: p.header.seq_num });
        SimModel { drop_sender_seq: remove_first(s1.drop_sender_seq, p.header.seq_num), ..s1 }
    } else if src == NodeId::Receiver && p.header.flags & crate::flags::ACK != 0
        && s0.drop_receiver_ack.contains(p.header.ack_num) {
        let s1 = push_link(s0, LinkEventKind::DeterministicDropAck { ack: p.header.ack_num });
        SimModel { drop_receiver_ack: remove_first(s1.drop_receiver_ack, p.header.ack_num), ..s1 }
    } else if d.loss < s0.config.loss_ppm {
        push_link(
            s0,
            LinkEventKind::RandomLoss { from: src, seq: p.header.seq_num, ack: p.header.ack_num },
        )
    } else {
        let corrupt = d.corrupt < s0.config.corrupt_ppm;
        let s1 = if corrupt {
            push_link(
                s0,
                LinkEventKind::Corrupt { from: src, seq: p.header.seq_num, ack: p.header.ack_num },
            )
        } else {
            s0
        };
        let p1 = if corrupt {
            corrupted(p)
        } else {
            p
        };
        let s2 = push_link(
            s1,
            LinkEventKind::Send {
                from: src,
                seq: p.header.seq_num,
                ack: p.header.ack_num,
                latency: d.latency,
            },
        );
        model_push(
            s2,
            sat_add(s2.time, d.latency),
            EventKindModel::PacketArrival { to: src.spec_peer(), packet: p1 },
        )
    }
}

/// The first `n` metric samples of a buffer, committed in order.
pub open spec fn apply_metrics_upto(s: SimModel, ms: Seq<(Seq<char>, i64)>, n: int) -> SimModel
    decreases n,
{
    if n <= 0 {
        s
    } else {
        let s1 = apply_metrics_upto(s, ms, n - 1);
        apply_metric(s1, ms[n - 1].0, ms[n - 1].1)
    }
}

/// The first `n` log lines of a buffer, committed in order.
pub open spec fn apply_logs_upto(s: SimModel, src: NodeId, ls: Seq<Seq<char>>, n: int) -> SimModel
    decreases n,
{
    if n <= 0 {
        s
    } else {
        apply_log(apply_logs_upto(s, src, ls, n - 1), src, ls[n - 1])
    }
}

/// The first `n` deliveries of a buffer, committed in order.
pub open spec fn apply_deliveries_upto(s: SimModel, src: NodeId, ds: Seq<Seq<u8>>, n: int) -> SimModel
    decreases n,
{
    if n <= 0 {
        s
    } else {
        apply_delivery(apply_deliveries_upto(s, src, ds, n - 1), src, ds[n - 1])
    }
}

/// The first `n` cancellations of a buffer, committed in order.
pub open spec fn apply_cancels_upto(s: SimModel, src: NodeId, cs: Seq<u32>, n: int) -> SimModel
    decreases n,
{
    if n <= 0 {
        s
    } else {
        apply_cancel(apply_cancels_upto(s, src, cs, n - 1), src, cs[n - 1])
    }
}

/// The first `n` timer starts of a buffer, committed in order.
pub open spec fn apply_starts_upto(s: SimModel, src: NodeId, ts: Seq<(u64, u32)>, n: int) -> SimModel
    decreases n,
{
    if n <= 0 {
        s
    } else {
        let s1 = apply_starts_upto(s, src, ts, n - 1);
        apply_start(s1, src, ts[n - 1].0, ts[n - 1].1)
    }
}

/// The first `n` outgoing packets of a buffer, each transmitted with its
/// own draw.
pub open spec fn apply_transmits_upto(
    s: SimModel,
    src: NodeId,
    ps: Seq<PacketModel>,
    ds: Seq<ChannelDraw>,
    n: int,
) -> SimModel
    decreases n,
{
    if n <= 0 {
        s
    } else {
        let s1 = apply_transmits_upto(s, src, ps, ds, n - 1);
        apply_transmit(s1, src, ps[n - 1], ds[n - 1])
    }
}

/// Committing one callback's buffer: metrics, then log lines, then
/// delivered data, then cancellations, then starts, then outgoing
/// packets.
pub open spec fn apply_buffer(
    s: SimModel,
    src: NodeId,
    b: crate::buffer::BufferModel,
    ds: Seq<ChannelDraw>,
) -> SimModel {
    let s1 = apply_metrics_upto(s, b.metrics, b.metrics.len() as int);
    let s1b = apply_logs_upto(s1, src, b.logs, b.logs.len() as int);
    let s2 = apply_deliveries_upto(s1b, src, b.delivered, b.delivered.len() as int);
    let s3 = apply_cancels_upto(s2, src, b.cancels, b.cancels.len() as int);
    let s4 = apply_starts_upto(s3, src, b.starts, b.starts.len() as int);
    apply_transmits_upto(s4, src, b.packets, ds, b.packets.len() as int)
}

/// One dispatch to `src`: some buffer the callback filled was committed
/// with in-range draws.
pub open spec fn dispatch_step(pre: SimModel, src: NodeId, post: SimModel) -> bool {
    exists|b: crate::buffer::BufferModel, ds: Seq<ChannelDraw>|
        {
            &&& ds.len() == b.packets.len()
            &&& valid_draws(pre.config, ds)
            &&& post == apply_buffer(pre, src, b, ds)
        }
}

/// The expiry event is still current: its key is known and its captured
/// generation matches the table.
pub open spec fn expiry_live(s: SimModel, node: NodeId, timer_id: u32, generation: u64) -> bool {
    &&& s.generations.dom().contains((node, timer_id))
    &&& s.generations[(node, timer_id)] == generation
}

/// The state after popping the event at index `i`, before any dispatch:
/// the clock stands at the event's time.
pub open spec fn popped_at(pre: SimModel, i: int) -> SimModel {
    SimModel { time: pre.queue[i].time, queue: pre.queue.remove(i), ..pre }
}

/// Processing the event at index `i`: it is dispatched to the arrival's
/// endpoint, to the timer's endpoint if the expiry is still current (a
/// stale or orphaned expiry is discarded with no dispatch), or to the
/// sender for an application send.
pub open spec fn step_at(pre: SimModel, i: int, post: SimModel) -> bool {
    let e = pre.queue[i];
    let popped = popped_at(pre, i);
    match e.kind {
        EventKindModel::PacketArrival { to, packet } => dispatch_step(popped, to, post),
        EventKindModel::TimerExpiry { node, timer_id, generation } => if expiry_live(
            popped,
            node,
            timer_id,
            generation,
        ) {
            dispatch_step(popped, node, post)
        } else {
            post == popped
        },
        EventKindModel::AppSend { .. } => dispatch_step(popped, NodeId::Sender, post),
    }
}

/// What one processed event does: the earliest pending event is popped,
/// the clock advances to its time, and it takes effect as `step_at` says.
pub open spec fn step_rel(pre: SimModel, post: SimModel) -> bool {
    exists|i: int| is_earliest(pre.queue, i) && #[trigger] step_at(pre, i, post)
}

/// Both `init` callbacks committed, sender first, then receiver.
pub open spec fn init_rel(pre: SimModel, post: SimModel) -> bool {
    exists|mid: SimModel|
        dispatch_step(pre, NodeId::Sender, mid) && #[trigger] dispatch_step(
            mid,
            NodeId::Receiver,
            post,
        )
}

/// A run: well-formed states chained by `step_rel`.
pub open spec fn run_chain(states: Seq<SimModel>) -> bool {
    &&& forall|i: int| 0 <= i < states.len() ==> model_wf(#[trigger] states[i])
    &&& forall|i: int| 0 <= i < states.len() - 1 ==> step_rel(#[trigger] states[i], states[i + 1])
}

/// A run to completion: from `pre`, both `init` dispatches fire once,
/// then the states chain through `step_rel` and end at `post`; the queue
/// drained unless the run hit its step budget (`u64::MAX` processed
/// events, which no simulation reaches).
pub open spec fn complete_run(pre: SimModel, post: SimModel, states: Seq<SimModel>) -> bool {
    &&& states.len() >= 1
    &&& init_rel(pre, states.first())
    &&& run_chain(states)
    &&& states.last() == post
    &&& states.len() <= u64::MAX + 1
    &&& states.len() <= u64::MAX ==> post.queue.len() == 0
}

} // verus!
