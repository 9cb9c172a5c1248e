//! The engine's guarantees, stated and proved over the model.
//!
//! Every lemma here speaks about `step_rel`, the relation the verified
//! `Simulator::step` establishes between successive states, so each holds
//! of every run of the engine, whatever the protocol implementations
//! buffered and whatever the channel drew.

use vstd::prelude::*;

use crate::config::{SimConfig, RATE_SCALE};
use crate::event::{is_earliest, lemma_earliest_unique, EventKindModel, EventModel, NodeId};
use crate::link::LinkEventKind;
use crate::model::{
    apply_buffer, apply_cancel, apply_cancels_upto, apply_deliveries_upto, apply_logs_upto,
    apply_metrics_upto, apply_start, apply_starts_upto, apply_transmit, apply_transmits_upto,
    current_gen, expiry_live, is_first_index, model_wf, popped_at, run_chain, step_at, step_rel,
    valid_draw, valid_draws, ChannelDraw, SimModel,
};
use crate::packet::PacketModel;

verus! {

// ---------------------------------------------------------------------
// Frame facts: what one commit can never change.
// ---------------------------------------------------------------------

proof fn lemma_metrics_upto_frame(s: SimModel, ms: Seq<(Seq<char>, i64)>, n: int)
    ensures
        ({
            let r = apply_metrics_upto(s, ms, n);
            r == SimModel { metrics: r.metrics, ..s }
        }),
    decreases n,
{
    if n > 0 {
        lemma_metrics_upto_frame(s, ms, n - 1);
    }
}

proof fn lemma_logs_upto_frame(s: SimModel, src: NodeId, ls: Seq<Seq<char>>, n: int)
    ensures
        ({
            let r = apply_logs_upto(s, src, ls, n);
            r == SimModel { logs: r.logs, ..s }
        }),
    decreases n,
{
    if n > 0 {
        lemma_logs_upto_frame(s, src, ls, n - 1);
    }
}

proof fn lemma_deliveries_upto_frame(s: SimModel, src: NodeId, ds: Seq<Seq<u8>>, n: int)
    ensures
        ({
            let r = apply_deliveries_upto(s, src, ds, n);
            r == SimModel { delivered: r.delivered, link_events: r.link_events, ..s }
        }),
    decreases n,
{
    if n > 0 {
        lemma_deliveries_upto_frame(s, src, ds, n - 1);
    }
}

proof fn lemma_cancels_upto_frame(s: SimModel, src: NodeId, cs: Seq<u32>, n: int)
    ensures
        ({
            let r = apply_cancels_upto(s, src, cs, n);
            r == SimModel { generations: r.generations, ..s }
        }),
    decreases n,
{
    if n > 0 {
        lemma_cancels_upto_frame(s, src, cs, n - 1);
    }
}

proof fn lemma_starts_upto_frame(s: SimModel, src: NodeId, ts: Seq<(u64, u32)>, n: int)
    ensures
        ({
            let r = apply_starts_upto(s, src, ts, n);
            r == SimModel {
                generations: r.generations,
                queue: r.queue,
                next_event_id: r.next_event_id,
                ..s
            }
        }),
    decreases n,
{
    if n > 0 {
        lemma_starts_upto_frame(s, src, ts, n - 1);
    }
}

proof fn lemma_transmits_upto_frame(
    s: SimModel,
    src: NodeId,
    ps: Seq<PacketModel>,
    ds: Seq<ChannelDraw>,
    n: int,
)
    ensures
        ({
            let r = apply_transmits_upto(s, src, ps, ds, n);
            r == SimModel {
                queue: r.queue,
                next_event_id: r.next_event_id,
                drop_sender_seq: r.drop_sender_seq,
                drop_receiver_ack: r.drop_receiver_ack,
                sender_packet_count: r.sender_packet_count,
                window_samples: r.window_samples,
                link_events: r.link_events,
                ..s
            }
        }),
    decreases n,
{
    if n > 0 {
        lemma_transmits_upto_frame(s, src, ps, ds, n - 1);
    }
}

/// A commit never moves the clock, never changes the configuration, and
/// never takes back a delivery or a metric sample.
pub proof fn lemma_apply_buffer_frame(
    s: SimModel,
    src: NodeId,
    b: crate::buffer::BufferModel,
    ds: Seq<ChannelDraw>,
)
    ensures
        apply_buffer(s, src, b, ds).config == s.config,
        apply_buffer(s, src, b, ds).time == s.time,
{
    let s1 = apply_metrics_upto(s, b.metrics, b.metrics.len() as int);
    let s1b = apply_logs_upto(s1, src, b.logs, b.logs.len() as int);
    let s2 = apply_deliveries_upto(s1b, src, b.delivered, b.delivered.len() as int);
    let s3 = apply_cancels_upto(s2, src, b.cancels, b.cancels.len() as int);
    let s4 = apply_starts_upto(s3, src, b.starts, b.starts.len() as int);
    lemma_metrics_upto_frame(s, b.metrics, b.metrics.len() as int);
    lemma_logs_upto_frame(s1, src, b.logs, b.logs.len() as int);
    lemma_deliveries_upto_frame(s1b, src, b.delivered, b.delivered.len() as int);
    lemma_cancels_upto_frame(s2, src, b.cancels, b.cancels.len() as int);
    lemma_starts_upto_frame(s3, src, b.starts, b.starts.len() as int);
    lemma_transmits_upto_frame(s4, src, b.packets, ds, b.packets.len() as int);
}

/// One step never changes the configuration, and — provided the state was
/// well-formed, so that no pending event lay in the past — never moves the
/// clock backwards. This is the per-step form of the ordering guarantee:
/// events are processed in non-decreasing time.
pub proof fn lemma_step_frame(pre: SimModel, post: SimModel)
    requires
        model_wf(pre),
        step_rel(pre, post),
    ensures
        post.config == pre.config,
        post.time >= pre.time,
{
    let i = choose|i: int| is_earliest(pre.queue, i) && #[trigger] step_at(pre, i, post);
    let popped = popped_at(pre, i);
    assert(pre.queue[i].time >= pre.time);
    match pre.queue[i].kind {
        EventKindModel::PacketArrival { to, packet } => {
            let (b, ds) = choose|b: crate::buffer::BufferModel, ds: Seq<ChannelDraw>|
                {
                    &&& ds.len() == b.packets.len()
                    &&& valid_draws(popped.config, ds)
                    &&& post == apply_buffer(popped, to, b, ds)
                };
            lemma_apply_buffer_frame(popped, to, b, ds);
        },
        EventKindModel::TimerExpiry { node, timer_id, generation } => {
            if expiry_live(popped, node, timer_id, generation) {
                let (b, ds) = choose|b: crate::buffer::BufferModel, ds: Seq<ChannelDraw>|
                    {
                        &&& ds.len() == b.packets.len()
                        &&& valid_draws(popped.config, ds)
                        &&& post == apply_buffer(popped, node, b, ds)
                    };
                lemma_apply_buffer_frame(popped, node, b, ds);
            }
        },
        EventKindModel::AppSend { .. } => {
            let (b, ds) = choose|b: crate::buffer::BufferModel, ds: Seq<ChannelDraw>|
                {
                    &&& ds.len() == b.packets.len()
                    &&& valid_draws(popped.config, ds)
                    &&& post == apply_buffer(popped, NodeId::Sender, b, ds)
                };
            lemma_apply_buffer_frame(popped, NodeId::Sender, b, ds);
        },
    }
}

// ---------------------------------------------------------------------
// Ordering: a run's virtual clock never goes backwards, and events with
// equal time leave in push order (`lemma_pop_is_fifo` in `event`).
// ---------------------------------------------------------------------

/// Along any run, the virtual clock — and with it the time of every
/// processed event — is non-decreasing.
pub proof fn lemma_run_time_monotone(states: Seq<SimModel>, i: int, j: int)
    requires
        run_chain(states),
        0 <= i <= j < states.len(),
    ensures
        states[i].time <= states[j].time,
    decreases j - i,
{
    if i < j {
        lemma_run_time_monotone(states, i, j - 1);
        lemma_step_frame(states[j - 1], states[j]);
    }
}

// ---------------------------------------------------------------------
// Timers: a cancelled (stale) expiry can never fire.
// ---------------------------------------------------------------------

/// Generations never decrease, and known keys stay known.
pub open spec fn gens_monotone(
    pre: Map<(NodeId, u32), u64>,
    post: Map<(NodeId, u32), u64>,
) -> bool {
    forall|k: (NodeId, u32)|
        pre.dom().contains(k) ==> #[trigger] post.dom().contains(k) && pre[k] <= post[k]
}

proof fn lemma_cancels_upto_gens(s: SimModel, src: NodeId, cs: Seq<u32>, n: int)
    ensures
        gens_monotone(s.generations, apply_cancels_upto(s, src, cs, n).generations),
    decreases n,
{
    if n > 0 {
        lemma_cancels_upto_gens(s, src, cs, n - 1);
    }
}

proof fn lemma_starts_upto_gens(s: SimModel, src: NodeId, ts: Seq<(u64, u32)>, n: int)
    ensures
        gens_monotone(s.generations, apply_starts_upto(s, src, ts, n).generations),
    decreases n,
{
    if n > 0 {
        lemma_starts_upto_gens(s, src, ts, n - 1);
    }
}

/// A commit never lowers any timer generation and never forgets a key.
pub proof fn lemma_apply_buffer_gens(
    s: SimModel,
    src: NodeId,
    b: crate::buffer::BufferModel,
    ds: Seq<ChannelDraw>,
)
    ensures
        gens_monotone(s.generations, apply_buffer(s, src, b, ds).generations),
{
    let s1 = apply_metrics_upto(s, b.metrics, b.metrics.len() as int);
    let s1b = apply_logs_upto(s1, src, b.logs, b.logs.len() as int);
    let s2 = apply_deliveries_upto(s1b, src, b.delivered, b.delivered.len() as int);
    let s3 = apply_cancels_upto(s2, src, b.cancels, b.cancels.len() as int);
    let s4 = apply_starts_upto(s3, src, b.starts, b.starts.len() as int);
    lemma_metrics_upto_frame(s, b.metrics, b.metrics.len() as int);
    lemma_logs_upto_frame(s1, src, b.logs, b.logs.len() as int);
    lemma_deliveries_upto_frame(s1b, src, b.delivered, b.delivered.len() as int);
    lemma_cancels_upto_gens(s2, src, b.cancels, b.cancels.len() as int);
    lemma_starts_upto_gens(s3, src, b.starts, b.starts.len() as int);
    lemma_transmits_upto_frame(s4, src, b.packets, ds, b.packets.len() as int);
    let post = apply_buffer(s, src, b, ds);
    assert(s2.generations == s.generations);
    assert(post.generations == s4.generations);
    assert forall|k: (NodeId, u32)| s.generations.dom().contains(k) implies #[trigger] post
        .generations.dom().contains(k) && s.generations[k] <= post.generations[k] by {
        assert(s3.generations.dom().contains(k) && s2.generations[k] <= s3.generations[k]);
        assert(s4.generations.dom().contains(k) && s3.generations[k] <= s4.generations[k]);
    }
}

/// One step never lowers any timer generation.
pub proof fn lemma_step_gens_monotone(pre: SimModel, post: SimModel)
    requires
        step_rel(pre, post),
    ensures
        gens_monotone(pre.generations, post.generations),
{
    let i = choose|i: int| is_earliest(pre.queue, i) && #[trigger] step_at(pre, i, post);
    let popped = popped_at(pre, i);
    match pre.queue[i].kind {
        EventKindModel::PacketArrival { to, packet } => {
            let (b, ds) = choose|b: crate::buffer::BufferModel, ds: Seq<ChannelDraw>|
                {
                    &&& ds.len() == b.packets.len()
                    &&& valid_draws(popped.config, ds)
                    &&& post == apply_buffer(popped, to, b, ds)
                };
            lemma_apply_buffer_gens(popped, to, b, ds);
        },
        EventKindModel::TimerExpiry { node, timer_id, generation } => {
            if expiry_live(popped, node, timer_id, generation) {
                let (b, ds) = choose|b: crate::buffer::BufferModel, ds: Seq<ChannelDraw>|
                    {
                        &&& ds.len() == b.packets.len()
                        &&& valid_draws(popped.config, ds)
                        &&& post == apply_buffer(popped, node, b, ds)
                    };
                lemma_apply_buffer_gens(popped, node, b, ds);
            }
        },
        EventKindModel::AppSend { .. } => {
            let (b, ds) = choose|b: crate::buffer::BufferModel, ds: Seq<ChannelDraw>|
                {
                    &&& ds.len() == b.packets.len()
                    &&& valid_draws(popped.config, ds)
                    &&& post == apply_buffer(popped, NodeId::Sender, b, ds)
                };
            lemma_apply_buffer_gens(popped, NodeId::Sender, b, ds);
        },
    }
}

/// A pending expiry event is stale: the table has moved past the
/// generation it captured. A cancellation committed after the start makes
/// the event stale (`apply_cancel` bumps the generation).
pub open spec fn stale_expiry(s: SimModel, node: NodeId, timer_id: u32, generation: u64) -> bool {
    &&& s.generations.dom().contains((node, timer_id))
    &&& generation < s.generations[(node, timer_id)]
}

/// Once stale, always stale: no later step can revive a cancelled timer's
/// pending expiry event.
pub proof fn lemma_stale_stays_stale(
    pre: SimModel,
    post: SimModel,
    node: NodeId,
    timer_id: u32,
    generation: u64,
)
    requires
        step_rel(pre, post),
        stale_expiry(pre, node, timer_id, generation),
    ensures
        stale_expiry(post, node, timer_id, generation),
{
    lemma_step_gens_monotone(pre, post);
}

/// Staleness holds along a whole run.
pub proof fn lemma_stale_along_run(
    states: Seq<SimModel>,
    node: NodeId,
    timer_id: u32,
    generation: u64,
    j: int,
)
    requires
        run_chain(states),
        states.len() > 0,
        stale_expiry(states[0], node, timer_id, generation),
        0 <= j < states.len(),
    ensures
        stale_expiry(states[j], node, timer_id, generation),
    decreases j,
{
    if j > 0 {
        lemma_stale_along_run(states, node, timer_id, generation, j - 1);
        lemma_stale_stays_stale(states[j - 1], states[j], node, timer_id, generation);
    }
}

/// When a stale (or orphaned) expiry event reaches the head of the queue,
/// the step discards it without dispatching: the state changes only by the
/// pop and the clock advance — no callback fires, nothing is committed.
pub proof fn lemma_stale_expiry_discarded(
    pre: SimModel,
    post: SimModel,
    i: int,
    node: NodeId,
    timer_id: u32,
    generation: u64,
)
    requires
        step_rel(pre, post),
        is_earliest(pre.queue, i),
        pre.queue[i].kind == (EventKindModel::TimerExpiry { node, timer_id, generation }),
        !(pre.generations.dom().contains((node, timer_id)) && pre.generations[(node, timer_id)]
            == generation),
    ensures
        post == popped_at(pre, i),
{
    let i2 = choose|i2: int| is_earliest(pre.queue, i2) && #[trigger] step_at(pre, i2, post);
    lemma_earliest_unique(pre.queue, i, i2);
    assert(!expiry_live(popped_at(pre, i), node, timer_id, generation));
}

/// Cancelling a timer and immediately restarting it with the same id in
/// the same callback fires only the new one: the cancellation commits
/// first, so the restart captures a strictly larger generation — the new
/// expiry is live, and every expiry captured earlier is stale.
pub proof fn lemma_cancel_then_restart(
    s: SimModel,
    src: NodeId,
    timer_id: u32,
    delay: u64,
    g_old: u64,
)
    requires
        g_old <= current_gen(s, (src, timer_id)),
        current_gen(s, (src, timer_id)) < u64::MAX,
    ensures
        ({
            let s2 = apply_start(apply_cancel(s, src, timer_id), src, delay, timer_id);
            let fresh = s2.queue.last();
            &&& s2.queue.len() == s.queue.len() + 1
            &&& fresh.kind == (EventKindModel::TimerExpiry {
                node: src,
                timer_id,
                generation: current_gen(s2, (src, timer_id)),
            })
            &&& !stale_expiry(s2, src, timer_id, current_gen(s2, (src, timer_id)))
            &&& stale_expiry(s2, src, timer_id, g_old)
        }),
{
}

// ---------------------------------------------------------------------
// Loss: with full loss, no packet arrival is ever scheduled.
// ---------------------------------------------------------------------

/// No pending event is a packet arrival.
pub open spec fn no_arrivals(q: Seq<EventModel>) -> bool {
    forall|i: int| 0 <= i < q.len() ==> !((#[trigger] q[i]).kind is PacketArrival)
}

/// Under certain loss, a transmission schedules nothing: whatever the
/// draw, the packet is dropped by an override or by the loss check.
pub proof fn lemma_full_loss_transmit(s: SimModel, src: NodeId, p: PacketModel, d: ChannelDraw)
    requires
        s.config.loss_ppm == RATE_SCALE,
        valid_draw(s.config, d),
    ensures
        apply_transmit(s, src, p, d).queue == s.queue,
        apply_transmit(s, src, p, d).config == s.config,
{
}

proof fn lemma_full_loss_transmits_upto(
    s: SimModel,
    src: NodeId,
    ps: Seq<PacketModel>,
    ds: Seq<ChannelDraw>,
    n: int,
)
    requires
        s.config.loss_ppm == RATE_SCALE,
        valid_draws(s.config, ds),
        n <= ds.len(),
    ensures
        apply_transmits_upto(s, src, ps, ds, n).queue == s.queue,
    decreases n,
{
    if n > 0 {
        lemma_full_loss_transmits_upto(s, src, ps, ds, n - 1);
        lemma_transmits_upto_frame(s, src, ps, ds, n - 1);
        lemma_full_loss_transmit(apply_transmits_upto(s, src, ps, ds, n - 1), src, ps[n - 1], ds[n
            - 1]);
    }
}

proof fn lemma_starts_upto_no_arrivals(s: SimModel, src: NodeId, ts: Seq<(u64, u32)>, n: int)
    requires
        no_arrivals(s.queue),
    ensures
        no_arrivals(apply_starts_upto(s, src, ts, n).queue),
    decreases n,
{
    if n > 0 {
        lemma_starts_upto_no_arrivals(s, src, ts, n - 1);
        let r = apply_starts_upto(s, src, ts, n - 1);
        let r2 = apply_starts_upto(s, src, ts, n);
        assert forall|i: int| 0 <= i < r2.queue.len() implies !((#[trigger] r2.queue[i]).kind
            is PacketArrival) by {
            if i < r.queue.len() {
                assert(r2.queue[i] == r.queue[i]);
            }
        }
    }
}

/// Under certain loss, a commit adds no packet arrival to the queue.
pub proof fn lemma_full_loss_commit(
    s: SimModel,
    src: NodeId,
    b: crate::buffer::BufferModel,
    ds: Seq<ChannelDraw>,
)
    requires
        s.config.loss_ppm == RATE_SCALE,
        valid_draws(s.config, ds),
        ds.len() == b.packets.len(),
        no_arrivals(s.queue),
    ensures
        no_arrivals(apply_buffer(s, src, b, ds).queue),
{
    let s1 = apply_metrics_upto(s, b.metrics, b.metrics.len() as int);
    let s1b = apply_logs_upto(s1, src, b.logs, b.logs.len() as int);
    let s2 = apply_deliveries_upto(s1b, src, b.delivered, b.delivered.len() as int);
    let s3 = apply_cancels_upto(s2, src, b.cancels, b.cancels.len() as int);
    let s4 = apply_starts_upto(s3, src, b.starts, b.starts.len() as int);
    lemma_metrics_upto_frame(s, b.metrics, b.metrics.len() as int);
    lemma_logs_upto_frame(s1, src, b.logs, b.logs.len() as int);
    lemma_deliveries_upto_frame(s1b, src, b.delivered, b.delivered.len() as int);
    lemma_cancels_upto_frame(s2, src, b.cancels, b.cancels.len() as int);
    lemma_starts_upto_no_arrivals(s3, src, b.starts, b.starts.len() as int);
    lemma_starts_upto_frame(s3, src, b.starts, b.starts.len() as int);
    lemma_full_loss_transmits_upto(s4, src, b.packets, ds, b.packets.len() as int);
}

/// With `loss` at the full scale (probability one), a step never schedules
/// a packet arrival: if no arrival was pending, none is after.
pub proof fn lemma_full_loss_step(pre: SimModel, post: SimModel)
    requires
        step_rel(pre, post),
        pre.config.loss_ppm == RATE_SCALE,
        no_arrivals(pre.queue),
    ensures
        no_arrivals(post.queue),
        post.config == pre.config,
{
    let i = choose|i: int| is_earliest(pre.queue, i) && #[trigger] step_at(pre, i, post);
    let popped = popped_at(pre, i);
    assert forall|k: int| 0 <= k < popped.queue.len() implies !((#[trigger] popped.queue[k]).kind
        is PacketArrival) by {
        if k < i {
            assert(popped.queue[k] == pre.queue[k]);
        } else {
            assert(popped.queue[k] == pre.queue[k + 1]);
        }
    }
    match pre.queue[i].kind {
        EventKindModel::PacketArrival { to, packet } => {
            let (b, ds) = choose|b: crate::buffer::BufferModel, ds: Seq<ChannelDraw>|
                {
                    &&& ds.len() == b.packets.len()
                    &&& valid_draws(popped.config, ds)
                    &&& post == apply_buffer(popped, to, b, ds)
                };
            lemma_full_loss_commit(popped, to, b, ds);
            lemma_apply_buffer_frame(popped, to, b, ds);
        },
        EventKindModel::TimerExpiry { node, timer_id, generation } => {
            if expiry_live(popped, node, timer_id, generation) {
                let (b, ds) = choose|b: crate::buffer::BufferModel, ds: Seq<ChannelDraw>|
                    {
                        &&& ds.len() == b.packets.len()
                        &&& valid_draws(popped.config, ds)
                        &&& post == apply_buffer(popped, node, b, ds)
                    };
                lemma_full_loss_commit(popped, node, b, ds);
                lemma_apply_buffer_frame(popped, node, b, ds);
            }
        },
        EventKindModel::AppSend { .. } => {
            let (b, ds) = choose|b: crate::buffer::BufferModel, ds: Seq<ChannelDraw>|
                {
                    &&& ds.len() == b.packets.len()
                    &&& valid_draws(popped.config, ds)
                    &&& post == apply_buffer(popped, NodeId::Sender, b, ds)
                };
            lemma_full_loss_commit(popped, NodeId::Sender, b, ds);
            lemma_apply_buffer_frame(popped, NodeId::Sender, b, ds);
        },
    }
}

/// Along any run of a simulator configured with certain loss, the queue
/// never holds a packet arrival — so no transmitted packet is ever
/// delivered, for any seed.
pub proof fn lemma_full_loss_run(states: Seq<SimModel>, j: int)
    requires
        run_chain(states),
        states.len() > 0,
        states[0].config.loss_ppm == RATE_SCALE,
        no_arrivals(states[0].queue),
        0 <= j < states.len(),
    ensures
        no_arrivals(states[j].queue),
        states[j].config == states[0].config,
    decreases j,
{
    if j > 0 {
        lemma_full_loss_run(states, j - 1);
        lemma_full_loss_step(states[j - 1], states[j]);
    }
}

// ---------------------------------------------------------------------
// Determinism: with a lossless, uncorrupted, fixed-latency channel, a
// commit does not depend on the random draws at all.
// ---------------------------------------------------------------------

/// A channel that loses nothing, corrupts nothing, and always takes the
/// same time.
pub open spec fn perfect_channel(c: SimConfig) -> bool {
    &&& c.loss_ppm == 0
    &&& c.corrupt_ppm == 0
    &&& c.min_latency == c.max_latency
}

proof fn lemma_perfect_transmits_upto(
    s: SimModel,
    src: NodeId,
    ps: Seq<PacketModel>,
    ds1: Seq<ChannelDraw>,
    ds2: Seq<ChannelDraw>,
    n: int,
)
    requires
        perfect_channel(s.config),
        valid_draws(s.config, ds1),
        valid_draws(s.config, ds2),
        n <= ds1.len(),
        n <= ds2.len(),
    ensures
        apply_transmits_upto(s, src, ps, ds1, n) == apply_transmits_upto(s, src, ps, ds2, n),
    decreases n,
{
    if n > 0 {
        lemma_perfect_transmits_upto(s, src, ps, ds1, ds2, n - 1);
        lemma_transmits_upto_frame(s, src, ps, ds1, n - 1);
        let r = apply_transmits_upto(s, src, ps, ds1, n - 1);
        assert(ds1[n - 1].latency == s.config.min_latency);
        assert(ds2[n - 1].latency == s.config.min_latency);
        assert(apply_transmit(r, src, ps[n - 1], ds1[n - 1]) == apply_transmit(
            r,
            src,
            ps[n - 1],
            ds2[n - 1],
        ));
    }
}

/// Replay determinism of the channel: over a perfect channel, committing
/// the same buffer from the same state ends in the same state, whatever
/// the random stream produced. Together with the engine's functional
/// contracts, two runs with identical configuration, scheduled actions and
/// callback behavior produce identical reports.
pub proof fn lemma_perfect_channel_deterministic(
    s: SimModel,
    src: NodeId,
    b: crate::buffer::BufferModel,
    ds1: Seq<ChannelDraw>,
    ds2: Seq<ChannelDraw>,
)
    requires
        perfect_channel(s.config),
        valid_draws(s.config, ds1),
        valid_draws(s.config, ds2),
        ds1.len() == b.packets.len(),
        ds2.len() == b.packets.len(),
    ensures
        apply_buffer(s, src, b, ds1) == apply_buffer(s, src, b, ds2),
{
    let s1 = apply_metrics_upto(s, b.metrics, b.metrics.len() as int);
    let s1b = apply_logs_upto(s1, src, b.logs, b.logs.len() as int);
    let s2 = apply_deliveries_upto(s1b, src, b.delivered, b.delivered.len() as int);
    let s3 = apply_cancels_upto(s2, src, b.cancels, b.cancels.len() as int);
    let s4 = apply_starts_upto(s3, src, b.starts, b.starts.len() as int);
    lemma_metrics_upto_frame(s, b.metrics, b.metrics.len() as int);
    lemma_logs_upto_frame(s1, src, b.logs, b.logs.len() as int);
    lemma_deliveries_upto_frame(s1b, src, b.delivered, b.delivered.len() as int);
    lemma_cancels_upto_frame(s2, src, b.cancels, b.cancels.len() as int);
    lemma_starts_upto_frame(s3, src, b.starts, b.starts.len() as int);
    lemma_perfect_transmits_upto(s4, src, b.packets, ds1, ds2, b.packets.len() as int);
}

// ---------------------------------------------------------------------
// Deterministic overrides are consumed at most once.
// ---------------------------------------------------------------------

/// With exactly one "drop sender seq" override registered, two sender
/// packets carrying that seq see exactly one deterministic drop: the
/// first consumes the override (nothing is scheduled for it), and the
/// second is subject only to the probabilistic model.
pub proof fn lemma_override_consumed_once(
    s: SimModel,
    p1: PacketModel,
    p2: PacketModel,
    d1: ChannelDraw,
    d2: ChannelDraw,
)
    requires
        s.drop_sender_seq == seq![p1.header.seq_num],
        p2.header.seq_num == p1.header.seq_num,
        valid_draw(s.config, d1),
        valid_draw(s.config, d2),
    ensures
        ({
            let s1 = apply_transmit(s, NodeId::Sender, p1, d1);
            let s2 = apply_transmit(s1, NodeId::Sender, p2, d2);
            &&& s1.drop_sender_seq == Seq::<u32>::empty()
            &&& s1.queue == s.queue
            &&& s1.link_events.last().kind == (LinkEventKind::DeterministicDropSeq {
                seq: p1.header.seq_num,
            })
            &&& (d2.loss >= s.config.loss_ppm ==> s2.queue.len() == s.queue.len() + 1)
            &&& (d2.loss < s.config.loss_ppm ==> s2.queue == s.queue
                && s2.link_events.last().kind == (LinkEventKind::RandomLoss {
                    from: NodeId::Sender,
                    seq: p2.header.seq_num,
                    ack: p2.header.ack_num,
                }))
        }),
{
    let seqn = p1.header.seq_num;
    assert(s.drop_sender_seq[0] == seqn);
    assert(s.drop_sender_seq.contains(seqn));
    let w = choose|i: int| is_first_index(s.drop_sender_seq, seqn, i);
    assert(is_first_index(s.drop_sender_seq, seqn, 0));
    if w != 0 {
        assert(is_first_index(s.drop_sender_seq, seqn, w));
        assert(false);
    }
    let s1 = apply_transmit(s, NodeId::Sender, p1, d1);
    assert(s1.drop_sender_seq =~= Seq::<u32>::empty());
    assert(!s1.drop_sender_seq.contains(seqn));
}

} // verus!
