use tcp_lab::buffer::ActionBuffer;
use tcp_lab::config::{SimConfig, RATE_SCALE};
use tcp_lab::engine::Simulator;
use tcp_lab::event::NodeId;
use tcp_lab::link::LinkEventKind;
use tcp_lab::packet::Packet;
use tcp_lab::protocol::TransportProtocol;
use tcp_lab::rdt1::{Rdt1Receiver, Rdt1Sender};

struct TestProtocol {
    timer_fired: bool,
    timer_cancelled: bool,
}

impl TestProtocol {
    fn new() -> Self {
        Self { timer_fired: false, timer_cancelled: false }
    }
}

impl TransportProtocol for TestProtocol {
    fn init(&mut self, ctx: &mut ActionBuffer) {
        // Start a timer that will fire in 10ms
        ctx.start_timer(10, 0);
        // Schedule a dummy event to cancel the timer after it has been started
        ctx.start_timer(5, 1); // This timer will trigger the cancellation
    }

    fn on_packet(&mut self, _ctx: &mut ActionBuffer, _packet: Packet) {
        // Not used in this test
    }

    fn on_timer(&mut self, ctx: &mut ActionBuffer, timer_id: u32) {
        match timer_id {
            0 => {
                // This should NOT be called if the timer was successfully cancelled
                self.timer_fired = true;
            }
            1 => {
                // Cancel the first timer
                ctx.cancel_timer(0);
                self.timer_cancelled = true;
            }
            _ => {}
        }
    }

    fn on_app_data(&mut self, _ctx: &mut ActionBuffer, _data: &[u8]) {
        // Not used in this test
    }
}

#[test]
fn test_cancel_timer() {
    let config = SimConfig::default();
    let sender = TestProtocol::new();
    let receiver = TestProtocol::new();

    let mut simulator = Simulator::new(config, sender, receiver);

    // Run the simulation
    simulator.run_until_complete();

    // The timer should have been cancelled but not fired
    assert!(simulator.sender.timer_cancelled, "Timer should have been cancelled");
    assert!(!simulator.sender.timer_fired, "Cancelled timer should not have fired");
}

fn perfect_config(latency: u64, seed: u64) -> SimConfig {
    SimConfig { loss_ppm: 0, corrupt_ppm: 0, min_latency: latency, max_latency: latency, seed }
}

#[test]
fn perfect_channel_delivers_in_one_ms() {
    let config = perfect_config(1, 7);
    let mut sim = Simulator::new(config, Rdt1Sender::default(), Rdt1Receiver::default());
    sim.schedule_app_send(0, b"hi".to_vec());
    sim.run_until_complete();
    let report = sim.export_report();
    assert_eq!(report.delivered_data, vec![b"hi".to_vec()]);
    assert_eq!(report.duration_ms, 1);
}

#[test]
fn events_pop_in_time_order_with_fifo_ties() {
    let config = perfect_config(1, 0);
    let mut sim = Simulator::new(config, Rdt1Sender::default(), Rdt1Receiver::default());
    sim.schedule_app_send(10, b"a".to_vec());
    sim.schedule_app_send(10, b"b".to_vec());
    sim.schedule_app_send(5, b"c".to_vec());
    sim.init();
    let mut last_time = 0u64;
    while sim.step() {
        assert!(sim.current_time() >= last_time, "virtual time went backwards");
        last_time = sim.current_time();
    }
    let report = sim.export_report();
    // "c" is due first; "a" and "b" share a time and keep push order.
    assert_eq!(report.delivered_data, vec![b"c".to_vec(), b"a".to_vec(), b"b".to_vec()]);
}

#[test]
fn full_loss_delivers_nothing() {
    let config = SimConfig {
        loss_ppm: RATE_SCALE,
        corrupt_ppm: 0,
        min_latency: 1,
        max_latency: 9,
        seed: 99,
    };
    let mut sim = Simulator::new(config, Rdt1Sender::default(), Rdt1Receiver::default());
    sim.schedule_app_send(0, b"one".to_vec());
    sim.schedule_app_send(3, b"two".to_vec());
    sim.run_until_complete();
    let report = sim.export_report();
    assert!(report.delivered_data.is_empty());
    assert_eq!(report.sender_packet_count, 2);
    let drops = report
        .link_events
        .iter()
        .filter(|e| matches!(e.kind, LinkEventKind::RandomLoss { .. }))
        .count();
    assert_eq!(drops, 2);
    assert!(!report
        .link_events
        .iter()
        .any(|e| matches!(e.kind, LinkEventKind::Send { .. })));
}

fn run_once(seed: u64) -> tcp_lab::trace::SimulationReport {
    let config = SimConfig {
        loss_ppm: 0,
        corrupt_ppm: 0,
        min_latency: 10,
        max_latency: 100,
        seed,
    };
    let mut sim = Simulator::new(
        config,
        tcp_lab::builtin::rdt2_sender(),
        tcp_lab::builtin::rdt2_receiver(),
    );
    sim.schedule_app_send(1000, b"Packet 1".to_vec());
    sim.schedule_app_send(2000, b"Packet 2".to_vec());
    sim.schedule_app_send(3000, b"Packet 3".to_vec());
    sim.run_until_complete();
    sim.export_report()
}

#[test]
fn identical_runs_produce_identical_reports() {
    let r1 = run_once(42);
    let r2 = run_once(42);
    assert_eq!(r1, r2);
    assert_eq!(r1.delivered_data.len(), 3);
}

#[test]
fn lossy_identical_runs_produce_identical_reports() {
    let lossy = |seed: u64| {
        let config = SimConfig {
            loss_ppm: 250_000,
            corrupt_ppm: 100_000,
            min_latency: 10,
            max_latency: 100,
            seed,
        };
        let mut sim = Simulator::new(
            config,
            tcp_lab::builtin::rdt2_sender(),
            tcp_lab::builtin::rdt2_receiver(),
        );
        sim.schedule_app_send(0, b"payload".to_vec());
        sim.init();
        // The lossy channel can retransmit forever; bound the run by
        // virtual time as a driver would.
        while sim.step() {
            if sim.current_time() > 60_000 {
                break;
            }
        }
        sim.export_report()
    };
    let r1 = lossy(7);
    let r2 = lossy(7);
    assert_eq!(r1, r2);
}

#[test]
fn drop_override_consumes_exactly_one_packet() {
    // Two sends with the same seq (the simple sender always uses seq 0)
    // and one registered override: exactly one deterministic drop.
    let config = perfect_config(1, 5);
    let mut sim = Simulator::new(
        config,
        tcp_lab::examples::SimpleSender::default(),
        tcp_lab::examples::SimpleReceiver::default(),
    );
    sim.add_drop_sender_seq_once(0);
    sim.schedule_app_send(0, b"first".to_vec());
    sim.schedule_app_send(10, b"second".to_vec());
    sim.run_until_complete();
    let report = sim.export_report();
    assert_eq!(report.delivered_data, vec![b"second".to_vec()]);
    let det_drops = report
        .link_events
        .iter()
        .filter(|e| matches!(e.kind, LinkEventKind::DeterministicDropSeq { seq: 0 }))
        .count();
    assert_eq!(det_drops, 1);
    assert_eq!(report.sender_packet_count, 2);
}

#[test]
fn ack_override_drops_one_receiver_ack() {
    // The simple receiver ACKs every packet with ack = seq = 0; drop the
    // first such ACK deterministically.
    let config = perfect_config(1, 5);
    let mut sim = Simulator::new(
        config,
        tcp_lab::examples::SimpleSender::default(),
        tcp_lab::examples::SimpleReceiver::default(),
    );
    sim.add_drop_receiver_ack_once(0);
    sim.schedule_app_send(0, b"x".to_vec());
    sim.schedule_app_send(5, b"y".to_vec());
    sim.run_until_complete();
    let report = sim.export_report();
    let det_drops = report
        .link_events
        .iter()
        .filter(|e| matches!(e.kind, LinkEventKind::DeterministicDropAck { ack: 0 }))
        .count();
    assert_eq!(det_drops, 1);
    // Both payloads still arrive: only an ACK was dropped.
    assert_eq!(report.delivered_data.len(), 2);
}

struct RestartingTimer {
    fires_of_timer_two: Vec<u64>,
}

impl TransportProtocol for RestartingTimer {
    fn init(&mut self, ctx: &mut ActionBuffer) {
        ctx.start_timer(10, 2);
        ctx.start_timer(5, 1);
    }

    fn on_packet(&mut self, _ctx: &mut ActionBuffer, _packet: Packet) {}

    fn on_timer(&mut self, ctx: &mut ActionBuffer, timer_id: u32) {
        if timer_id == 1 {
            // Cancel timer 2 and restart it in the same callback: only
            // the restarted instance may fire.
            ctx.cancel_timer(2);
            ctx.start_timer(3, 2);
        } else if timer_id == 2 {
            self.fires_of_timer_two.push(ctx.now());
        }
    }

    fn on_app_data(&mut self, _ctx: &mut ActionBuffer, _data: &[u8]) {}
}

struct Inert;

impl TransportProtocol for Inert {
    fn init(&mut self, _ctx: &mut ActionBuffer) {}
    fn on_packet(&mut self, _ctx: &mut ActionBuffer, _packet: Packet) {}
    fn on_timer(&mut self, _ctx: &mut ActionBuffer, _timer_id: u32) {}
    fn on_app_data(&mut self, _ctx: &mut ActionBuffer, _data: &[u8]) {}
}

#[test]
fn cancel_then_restart_fires_only_the_new_timer() {
    let config = SimConfig::default();
    let sender = RestartingTimer { fires_of_timer_two: Vec::new() };
    let mut sim = Simulator::new(config, sender, Inert);
    sim.run_until_complete();
    // The original expiry at 10 is stale; only the restart, armed at
    // virtual time 5 with delay 3, fires.
    assert_eq!(sim.sender.fires_of_timer_two, vec![8]);
}

struct MetricRecorder;

impl TransportProtocol for MetricRecorder {
    fn init(&mut self, ctx: &mut ActionBuffer) {
        ctx.record_metric("cwnd", 1);
        ctx.start_timer(4, 9);
    }

    fn on_packet(&mut self, _ctx: &mut ActionBuffer, _packet: Packet) {}

    fn on_timer(&mut self, ctx: &mut ActionBuffer, timer_id: u32) {
        if timer_id == 9 {
            ctx.record_metric("cwnd", 2);
            ctx.record_metric("ssthresh", 64);
        }
    }

    fn on_app_data(&mut self, _ctx: &mut ActionBuffer, _data: &[u8]) {}
}

#[test]
fn metrics_accumulate_named_time_series() {
    let config = SimConfig::default();
    let mut sim = Simulator::new(config, MetricRecorder, Inert);
    sim.run_until_complete();
    assert_eq!(sim.metric_series("cwnd").cloned(), Some(vec![(0, 1), (4, 2)]));
    assert_eq!(sim.metric_series("ssthresh").cloned(), Some(vec![(4, 64)]));
    assert_eq!(sim.metric_series("missing"), None);
    let report = sim.export_report();
    assert_eq!(
        report.metrics,
        vec![
            ("cwnd".to_string(), vec![(0, 1), (4, 2)]),
            ("ssthresh".to_string(), vec![(4, 64)]),
        ]
    );
}

struct WindowSender;

impl TransportProtocol for WindowSender {
    fn init(&mut self, _ctx: &mut ActionBuffer) {}
    fn on_packet(&mut self, _ctx: &mut ActionBuffer, _packet: Packet) {}
    fn on_timer(&mut self, _ctx: &mut ActionBuffer, _timer_id: u32) {}
    fn on_app_data(&mut self, ctx: &mut ActionBuffer, data: &[u8]) {
        ctx.send_packet(Packet::new_ack(0, 0, data.len() as u16));
    }
}

#[test]
fn window_sizes_are_sampled_from_sender_packets() {
    let config = perfect_config(2, 1);
    let mut sim = Simulator::new(config, WindowSender, Inert);
    sim.schedule_app_send(0, vec![0u8; 7]);
    sim.schedule_app_send(1, Vec::new());
    sim.schedule_app_send(2, vec![0u8; 3]);
    sim.run_until_complete();
    let report = sim.export_report();
    // The zero window of the empty payload is not sampled.
    assert_eq!(report.sender_window_sizes, vec![7, 3]);
    assert_eq!(report.sender_packet_count, 3);
}

#[test]
fn getters_report_queue_and_clock() {
    let config = SimConfig::default();
    let mut sim = Simulator::new(config, Inert, Inert);
    assert_eq!(sim.remaining_events(), 0);
    assert_eq!(sim.current_time(), 0);
    assert_eq!(sim.peek_next_event_time(), None);
    assert_eq!(sim.config(), &SimConfig::default());
    assert_eq!(sim.sender_packet_count(), 0);
    assert!(sim.delivered_data().is_empty());
    assert!(sim.sender_window_sizes().is_empty());
    assert!(sim.link_events().is_empty());
    sim.schedule_app_send(30, b"later".to_vec());
    sim.schedule_app_send(20, b"sooner".to_vec());
    assert_eq!(sim.remaining_events(), 2);
    assert_eq!(sim.peek_next_event_time(), Some(20));
    assert!(sim.step());
    assert_eq!(sim.current_time(), 20);
    assert!(sim.step());
    assert_eq!(sim.current_time(), 30);
    assert!(!sim.step());
}

#[test]
fn committed_log_lines_are_kept_in_order() {
    let config = perfect_config(1, 0);
    let mut sim = Simulator::new(config, Rdt1Sender::default(), Rdt1Receiver::default());
    sim.schedule_app_send(0, b"hi".to_vec());
    sim.run_until_complete();
    assert_eq!(
        sim.log_lines(),
        &vec![
            (NodeId::Sender, "RDT1 sender ready (ideal channel)".to_string()),
            (NodeId::Receiver, "RDT1 receiver ready (ideal channel)".to_string()),
            (NodeId::Sender, "RDT1 sender pushing 2 bytes to channel".to_string()),
            (NodeId::Receiver, "RDT1 receiver delivering 2 bytes".to_string()),
        ]
    );
}

#[test]
fn past_sends_are_brought_forward() {
    let config = perfect_config(1, 3);
    let mut sim = Simulator::new(config, Rdt1Sender::default(), Rdt1Receiver::default());
    sim.schedule_app_send(50, b"first".to_vec());
    sim.init();
    assert!(sim.step());
    assert_eq!(sim.current_time(), 50);
    // Scheduling in the past is clamped to the current virtual time.
    sim.schedule_app_send(10, b"late".to_vec());
    while sim.step() {}
    assert!(sim.current_time() >= 50);
    let report = sim.export_report();
    assert_eq!(report.delivered_data.len(), 2);
}
