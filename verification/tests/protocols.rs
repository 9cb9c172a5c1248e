use tcp_lab::buffer::ActionBuffer;
use tcp_lab::checksum::internet_checksum;
use tcp_lab::config::SimConfig;
use tcp_lab::engine::Simulator;
use tcp_lab::flags;
use tcp_lab::packet::{Packet, TcpHeader};
use tcp_lab::protocol::TransportProtocol;
use tcp_lab::rdt3_sender::Rdt3Sender;

#[test]
fn header_flag_helpers_read_the_bits() {
    let h = TcpHeader::new(1, 2, flags::SYN | flags::ACK, 512);
    assert_eq!(h.seq_num, 1);
    assert_eq!(h.ack_num, 2);
    assert_eq!(h.window_size, 512);
    assert!(h.is_syn());
    assert!(h.is_ack());
    assert!(!h.is_fin());
    assert!(!h.is_rst());
    let f = TcpHeader::new(0, 0, flags::FIN | flags::RST, 0);
    assert!(f.is_fin());
    assert!(f.is_rst());
    assert!(!f.is_syn());
}

#[test]
fn packet_constructors_fill_the_header() {
    let p = Packet::new_simple(9, 4, flags::PSH, b"abc".to_vec());
    assert_eq!(p.header.seq_num, 9);
    assert_eq!(p.header.ack_num, 4);
    assert_eq!(p.header.flags, flags::PSH);
    assert_eq!(p.header.window_size, 0);
    assert_eq!(p.len(), 3);

    let a = Packet::new_ack(1, 7, 99);
    assert!(a.header.is_ack());
    assert_eq!(a.header.ack_num, 7);
    assert_eq!(a.header.window_size, 99);
    assert_eq!(a.len(), 0);

    let h = TcpHeader::default();
    let q = Packet::new(h, b"zz".to_vec());
    assert_eq!(q.payload, b"zz".to_vec());
}

#[test]
fn internet_checksum_known_values() {
    assert_eq!(internet_checksum(&[]), 0xFFFF);
    assert_eq!(internet_checksum(&[0x00, 0x01]), 0xFFFE);
    // An odd trailing byte is padded with a zero low byte.
    assert_eq!(internet_checksum(&[0xFF]), 0x00FF);
    // Carries fold back in: 0xFFFF + 0xFFFF = 0x1FFFE -> 0xFFFF -> !0xFFFF.
    assert_eq!(internet_checksum(&[0xFF, 0xFF, 0xFF, 0xFF]), 0x0000);
    assert_eq!(internet_checksum(&[0x45, 0x00, 0x00, 0x1C]), !0x451C);
}

fn perfect(latency: u64, seed: u64) -> SimConfig {
    SimConfig { loss_ppm: 0, corrupt_ppm: 0, min_latency: latency, max_latency: latency, seed }
}

#[test]
fn rdt2_pair_delivers_in_order() {
    let mut sim = Simulator::new(
        perfect(5, 11),
        tcp_lab::builtin::rdt2_sender(),
        tcp_lab::builtin::rdt2_receiver(),
    );
    sim.schedule_app_send(0, b"alpha".to_vec());
    sim.schedule_app_send(1, b"beta".to_vec());
    sim.schedule_app_send(2, b"gamma".to_vec());
    sim.run_until_complete();
    let report = sim.export_report();
    assert_eq!(
        report.delivered_data,
        vec![b"alpha".to_vec(), b"beta".to_vec(), b"gamma".to_vec()]
    );
}

#[test]
fn rdt2_retransmits_after_a_deterministic_drop() {
    let mut sim = Simulator::new(
        perfect(5, 11),
        tcp_lab::builtin::rdt2_sender(),
        tcp_lab::builtin::rdt2_receiver(),
    );
    // Drop the first copy of the packet carrying seq 0: the timeout at
    // 1000 ms retransmits it and delivery still happens exactly once.
    sim.add_drop_sender_seq_once(0);
    sim.schedule_app_send(0, b"data".to_vec());
    sim.run_until_complete();
    let report = sim.export_report();
    assert_eq!(report.delivered_data, vec![b"data".to_vec()]);
    assert_eq!(report.sender_packet_count, 2);
    assert!(report.duration_ms >= 1000);
}

#[test]
fn rdt3_sender_round_trip_with_manual_acks() {
    // Drive an Rdt3Sender directly through its callbacks.
    let mut sender = Rdt3Sender::new();
    let mut ctx = ActionBuffer::new(0);
    sender.init(&mut ctx);

    let mut ctx = ActionBuffer::new(0);
    sender.on_app_data(&mut ctx, b"msg");
    let (packets, starts, _, _, _, _) = ctx.into_parts();
    assert_eq!(packets.len(), 1);
    assert_eq!(packets[0].header.seq_num, 0);
    assert_eq!(packets[0].payload, b"msg".to_vec());
    assert_eq!(starts, vec![(3000, 0)]);

    // While waiting, more application data is refused.
    let mut ctx = ActionBuffer::new(1);
    sender.on_app_data(&mut ctx, b"other");
    let (packets, _, _, logs, _, _) = ctx.into_parts();
    assert!(packets.is_empty());
    assert_eq!(logs, vec!["RDT3 Sender Busy: Dropping application data".to_string()]);

    // A clean ACK for seq 0 releases the sender and flips the sequence.
    let mut ack = Packet::new_ack(0, 0, 0);
    // The Rdt3 checksum covers seq and payload: seq 0, empty payload.
    ack.header.checksum = 0;
    let mut ctx = ActionBuffer::new(2);
    sender.on_packet(&mut ctx, ack);
    let (packets, _, cancels, logs, _, _) = ctx.into_parts();
    assert!(packets.is_empty());
    assert_eq!(cancels, vec![0]);
    assert_eq!(logs, vec!["Received ACK 0".to_string()]);

    // The next payload goes out under seq 1.
    let mut ctx = ActionBuffer::new(3);
    sender.on_app_data(&mut ctx, b"next");
    let (packets, starts, _, _, _, _) = ctx.into_parts();
    assert_eq!(packets[0].header.seq_num, 1);
    assert_eq!(starts, vec![(3000, 1)]);
}

#[test]
fn rdt3_sender_retransmits_on_corrupt_ack_and_timeout() {
    let mut sender = Rdt3Sender::new();
    let mut ctx = ActionBuffer::new(0);
    sender.on_app_data(&mut ctx, b"p");
    let (sent, _, _, _, _, _) = ctx.into_parts();
    let original = sent[0].clone();

    // A corrupted ACK (bad checksum) triggers a retransmission.
    let mut bad_ack = Packet::new_ack(0, 0, 0);
    bad_ack.header.checksum = 0xBEEF;
    let mut ctx = ActionBuffer::new(5);
    sender.on_packet(&mut ctx, bad_ack);
    let (packets, starts, cancels, _, _, _) = ctx.into_parts();
    assert_eq!(packets.len(), 1);
    assert_eq!(packets[0].header, original.header);
    assert_eq!(packets[0].payload, original.payload);
    assert_eq!(cancels, vec![0]);
    assert_eq!(starts, vec![(3000, 0)]);

    // A timeout for the armed timer retransmits as well.
    let mut ctx = ActionBuffer::new(3001);
    sender.on_timer(&mut ctx, 0);
    let (packets, starts, _, _, _, _) = ctx.into_parts();
    assert_eq!(packets.len(), 1);
    assert_eq!(starts, vec![(3000, 0)]);

    // A timer for some other id does nothing.
    let mut ctx = ActionBuffer::new(3002);
    sender.on_timer(&mut ctx, 3);
    let (packets, starts, _, _, _, _) = ctx.into_parts();
    assert!(packets.is_empty());
    assert!(starts.is_empty());
}

#[test]
fn buffer_records_calls_in_order() {
    let mut ctx = ActionBuffer::new(77);
    assert_eq!(ctx.now(), 77);
    ctx.send_packet(Packet::new_simple(1, 0, 0, b"q".to_vec()));
    ctx.start_timer(10, 4);
    ctx.cancel_timer(9);
    ctx.log("hello");
    ctx.deliver_data(b"up");
    ctx.record_metric("m", -3);
    let (packets, starts, cancels, logs, delivered, metrics) = ctx.into_parts();
    assert_eq!(packets.len(), 1);
    assert_eq!(starts, vec![(10, 4)]);
    assert_eq!(cancels, vec![9]);
    assert_eq!(logs, vec!["hello".to_string()]);
    assert_eq!(delivered, vec![b"up".to_vec()]);
    assert_eq!(metrics, vec![("m".to_string(), -3)]);
}

#[test]
fn rdt2_mismatch_log_renders_hex_checksums() {
    let mut receiver = tcp_lab::builtin::rdt2_receiver();
    // An empty payload checksums to 0xFFFF; a zeroed header fails the check.
    let p = Packet::new_simple(5, 0, 0, Vec::new());
    let mut ctx = ActionBuffer::new(0);
    receiver.on_packet(&mut ctx, p);
    let (packets, _, _, logs, delivered, _) = ctx.into_parts();
    assert!(delivered.is_empty());
    assert_eq!(logs[0], "RDT2 checksum mismatch for seq 5 (expected FFFF, got 0000)");
    // The receiver still re-ACKs its last good sequence.
    assert_eq!(packets.len(), 1);
    assert!(packets[0].header.is_ack());
}
