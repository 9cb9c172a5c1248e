//! The built-in stop-and-wait pair: an alternating-bit sender with one
//! retransmission timer, and a receiver that checksums, delivers in-order
//! payloads, and re-ACKs everything else. Each callback's exact effect on
//! its own state and on the action buffer is stated by a spec transition
//! function.

use vstd::prelude::*;

use std::collections::VecDeque;

use vstd::string::StringExecFns;

use crate::buffer::{ActionBuffer, BufferModel};
use crate::checksum::{checksum_spec, internet_checksum};
use crate::flags;
use crate::packet::{Packet, PacketModel, TcpHeader};
use crate::protocol::TransportProtocol;
use crate::text::{decimal_digits, hex4_digits, push_decimal, push_hex4};

verus! {

/// The timer id the sender uses for its one data timer.
pub const DATA_TIMER: u32 = 1;

/// The retransmission timeout in virtual milliseconds.
pub const DATA_TIMEOUT_MS: u64 = 1000;

/// Ones'-complement checksum of a payload; see `internet_checksum`.
fn checksum(data: &[u8]) -> (r: u16)
    ensures
        r == checksum_spec(data@),
{
    internet_checksum(data)
}

/// The data packet the sender emits for `payload` under sequence `seq`:
/// checksummed, no flags, zero window.
pub open spec fn rdt2_data_packet(seq: u32, payload: Seq<u8>) -> PacketModel {
    PacketModel {
        header: TcpHeader {
            seq_num: seq,
            checksum: checksum_spec(payload) as u16,
            ..TcpHeader::zeroed()
        },
        payload,
    }
}

/// The ACK packet the receiver emits for sequence `seq`.
pub open spec fn rdt2_ack_packet(seq: u32) -> PacketModel {
    PacketModel {
        header: TcpHeader {
            seq_num: seq,
            ack_num: seq,
            flags: flags::ACK,
            ..TcpHeader::zeroed()
        },
        payload: Seq::empty(),
    }
}

pub open spec fn rdt2_send_log(seq: u32, len: nat) -> Seq<char> {
    "RDT2 send seq="@ + decimal_digits(seq as nat) + " ("@ + decimal_digits(len) + " bytes)"@
}

pub open spec fn rdt2_ack_recv_log(ack: u32) -> Seq<char> {
    "RDT2 received ACK for seq "@ + decimal_digits(ack as nat)
}

pub open spec fn rdt2_timeout_log(seq: u32) -> Seq<char> {
    "RDT2 timeout, retransmitting seq "@ + decimal_digits(seq as nat)
}

pub open spec fn rdt2_mismatch_log(seq: u32, expected: u16, got: u16) -> Seq<char> {
    "RDT2 checksum mismatch for seq "@ + decimal_digits(seq as nat) + " (expected "@ + hex4_digits(
        expected,
    ) + ", got "@ + hex4_digits(got) + ")"@
}

pub open spec fn rdt2_recv_log(seq: u32, len: nat) -> Seq<char> {
    "RDT2 received seq "@ + decimal_digits(seq as nat) + " ("@ + decimal_digits(len) + " bytes)"@
}

pub open spec fn rdt2_unexpected_log(seq: u32, expected: u32, last: u32) -> Seq<char> {
    "RDT2 unexpected seq "@ + decimal_digits(seq as nat) + " (expect "@ + decimal_digits(
        expected as nat,
    ) + "), re-ACK "@ + decimal_digits(last as nat)
}

pub open spec fn rdt2_ack_send_log(seq: u32) -> Seq<char> {
    "RDT2 send ACK for seq "@ + decimal_digits(seq as nat)
}

/// The sender's observable state.
pub ghost struct Rdt2SenderModel {
    pub next_seq: u32,
    pub waiting_ack: bool,
    pub pending: Seq<Seq<u8>>,
    pub last_packet: Option<PacketModel>,
}

/// Stop-and-wait sender: queues application payloads and keeps at most
/// one packet in flight, covered by `DATA_TIMER`.
pub struct Rdt2Sender {
    next_seq: u32,
    waiting_ack: bool,
    pending: VecDeque<Vec<u8>>,
    last_packet: Option<Packet>,
}

impl View for Rdt2Sender {
    type V = Rdt2SenderModel;

    closed spec fn view(&self) -> Rdt2SenderModel {
        Rdt2SenderModel {
            next_seq: self.next_seq,
            waiting_ack: self.waiting_ack,
            pending: self.pending@.map_values(|d: Vec<u8>| d@),
            last_packet: match self.last_packet {
                Some(p) => Some(p@),
                None => None,
            },
        }
    }
}

/// If nothing is in flight and a payload is queued, emit it: log, send
/// the checksummed packet, arm the timer, remember the packet.
pub open spec fn spec_try_send(s: Rdt2SenderModel, b: BufferModel) -> (Rdt2SenderModel, BufferModel) {
    if s.waiting_ack || s.pending.len() == 0 {
        (s, b)
    } else {
        let payload = s.pending[0];
        let pkt = rdt2_data_packet(s.next_seq, payload);
        (
            Rdt2SenderModel {
                pending: s.pending.drop_first(),
                waiting_ack: true,
                last_packet: Some(pkt),
                ..s
            },
            BufferModel {
                logs: b.logs.push(rdt2_send_log(s.next_seq, payload.len())),
                packets: b.packets.push(pkt),
                starts: b.starts.push((DATA_TIMEOUT_MS, DATA_TIMER)),
                ..b
            },
        )
    }
}

/// An ACK for the in-flight sequence releases the timer and the next
/// queued payload; anything else is ignored.
pub open spec fn spec_handle_ack(s: Rdt2SenderModel, b: BufferModel, ack: u32) -> (
    Rdt2SenderModel,
    BufferModel,
) {
    if !s.waiting_ack || ack != s.next_seq {
        (s, b)
    } else {
        let s1 = Rdt2SenderModel { waiting_ack: false, next_seq: s.next_seq ^ 1, ..s };
        let b1 = BufferModel {
            logs: b.logs.push(rdt2_ack_recv_log(ack)),
            cancels: b.cancels.push(DATA_TIMER),
            ..b
        };
        spec_try_send(s1, b1)
    }
}

impl Rdt2Sender {
    fn try_send(&mut self, ctx: &mut ActionBuffer)
        ensures
            (final(self)@, final(ctx)@) == spec_try_send(old(self)@, old(ctx)@),
    {
        if self.waiting_ack {
            return ;
        }
        let payload = match self.pending.pop_front() {
            Some(p) => p,
            None => {
                return ;
            },
        };
        let mut packet = Packet::new_simple(self.next_seq, 0, 0, payload);
        packet.header.checksum = checksum(packet.payload.as_slice());
        let mut msg = String::from_str("RDT2 send seq=");
        push_decimal(&mut msg, self.next_seq as u64);
        msg.append(" (");
        push_decimal(&mut msg, packet.len() as u64);
        msg.append(" bytes)");
        ctx.log(msg.as_str());
        ctx.send_packet(packet.duplicate());
        ctx.start_timer(DATA_TIMEOUT_MS, DATA_TIMER);
        self.last_packet = Some(packet);
        self.waiting_ack = true;
        proof {
            assert(old(self)@.pending.len() > 0);
            assert(self@.pending =~= old(self)@.pending.drop_first());
            assert(msg@ =~= rdt2_send_log(old(self)@.next_seq, old(self)@.pending[0].len()));
            assert(self@ == spec_try_send(old(self)@, old(ctx)@).0);
            assert(ctx@ == spec_try_send(old(self)@, old(ctx)@).1);
        }
    }

    fn handle_ack(&mut self, ctx: &mut ActionBuffer, ack: u32)
        ensures
            (final(self)@, final(ctx)@) == spec_handle_ack(old(self)@, old(ctx)@, ack),
    {
        if !self.waiting_ack || ack != self.next_seq {
            return ;
        }
        let mut msg = String::from_str("RDT2 received ACK for seq ");
        push_decimal(&mut msg, ack as u64);
        ctx.log(msg.as_str());
        ctx.cancel_timer(DATA_TIMER);
        self.waiting_ack = false;
        self.next_seq = self.next_seq ^ 1;
        proof {
            assert(msg@ =~= rdt2_ack_recv_log(ack));
        }
        self.try_send(ctx);
    }
}

impl TransportProtocol for Rdt2Sender {
    fn init(&mut self, ctx: &mut ActionBuffer)
        ensures
            final(self)@ == old(self)@,
            final(ctx)@ == (BufferModel {
                logs: old(ctx)@.logs.push("RDT2 sender ready"@),
                ..old(ctx)@
            }),
    {
        ctx.log("RDT2 sender ready");
    }

    fn on_packet(&mut self, ctx: &mut ActionBuffer, packet: Packet)
        ensures
            packet@.header.flags & flags::ACK != 0 ==> (final(self)@, final(ctx)@)
                == spec_handle_ack(old(self)@, old(ctx)@, packet@.header.ack_num),
            packet@.header.flags & flags::ACK == 0 ==> final(self)@ == old(self)@ && final(ctx)@
                == old(ctx)@,
    {
        if packet.header.flags & flags::ACK != 0 {
            self.handle_ack(ctx, packet.header.ack_num);
        }
    }

    fn on_timer(&mut self, ctx: &mut ActionBuffer, timer_id: u32)
        ensures
            ({
                let s = old(self)@;
                let b = old(ctx)@;
                if timer_id == DATA_TIMER && s.waiting_ack && s.last_packet is Some {
                    let pkt = s.last_packet->0;
                    &&& final(self)@ == s
                    &&& final(ctx)@ == (BufferModel {
                        logs: b.logs.push(rdt2_timeout_log(pkt.header.seq_num)),
                        packets: b.packets.push(pkt),
                        starts: b.starts.push((DATA_TIMEOUT_MS, DATA_TIMER)),
                        ..b
                    })
                } else {
                    final(self)@ == s && final(ctx)@ == b
                }
            }),
    {
        if timer_id != DATA_TIMER || !self.waiting_ack {
            return ;
        }
        match &self.last_packet {
            Some(packet) => {
                let mut msg = String::from_str("RDT2 timeout, retransmitting seq ");
                push_decimal(&mut msg, packet.header.seq_num as u64);
                ctx.log(msg.as_str());
                ctx.send_packet(packet.duplicate());
                ctx.start_timer(DATA_TIMEOUT_MS, DATA_TIMER);
                proof {
                    assert(msg@ =~= rdt2_timeout_log(old(self)@.last_packet->0.header.seq_num));
                }
            },
            None => {},
        }
    }

    fn on_app_data(&mut self, ctx: &mut ActionBuffer, data: &[u8])
        ensures
            ({
                let queued = Rdt2SenderModel {
                    pending: old(self)@.pending.push(data@),
                    ..old(self)@
                };
                (final(self)@, final(ctx)@) == spec_try_send(queued, old(ctx)@)
            }),
    {
        self.pending.push_back(vstd::slice::slice_to_vec(data));
        proof {
            assert(self@.pending =~= old(self)@.pending.push(data@));
        }
        self.try_send(ctx);
    }
}

/// The receiver's observable state.
pub ghost struct Rdt2ReceiverModel {
    pub expected_seq: u32,
    pub last_acked: u32,
}

/// Stop-and-wait receiver: delivers the expected in-order payload when its
/// checksum holds, and re-ACKs the last good sequence otherwise.
pub struct Rdt2Receiver {
    expected_seq: u32,
    last_acked: u32,
}

impl View for Rdt2Receiver {
    type V = Rdt2ReceiverModel;

    closed spec fn view(&self) -> Rdt2ReceiverModel {
        Rdt2ReceiverModel { expected_seq: self.expected_seq, last_acked: self.last_acked }
    }
}

/// The buffer after the receiver ACKs sequence `seq`: one log line, one
/// ACK packet.
pub open spec fn spec_send_ack(b: BufferModel, seq: u32) -> BufferModel {
    BufferModel {
        logs: b.logs.push(rdt2_ack_send_log(seq)),
        packets: b.packets.push(rdt2_ack_packet(seq)),
        ..b
    }
}

/// What one arriving packet does to the receiver: a corrupt packet or an
/// out-of-order sequence is answered with a re-ACK of the last good
/// sequence; the expected sequence is delivered, ACKed, and flips the
/// expectation.
pub open spec fn spec_receiver_on_packet(s: Rdt2ReceiverModel, b: BufferModel, p: PacketModel) -> (
    Rdt2ReceiverModel,
    BufferModel,
) {
    if p.header.checksum != checksum_spec(p.payload) as u16 {
        let b1 = BufferModel {
            logs: b.logs.push(
                rdt2_mismatch_log(
                    p.header.seq_num,
                    checksum_spec(p.payload) as u16,
                    p.header.checksum,
                ),
            ),
            ..b
        };
        (Rdt2ReceiverModel { last_acked: s.last_acked, ..s }, spec_send_ack(b1, s.last_acked))
    } else if p.header.seq_num == s.expected_seq {
        let b1 = BufferModel {
            logs: b.logs.push(rdt2_recv_log(p.header.seq_num, p.payload.len())),
            delivered: b.delivered.push(p.payload),
            ..b
        };
        (
            Rdt2ReceiverModel {
                expected_seq: s.expected_seq ^ 1,
                last_acked: p.header.seq_num,
            },
            spec_send_ack(b1, p.header.seq_num),
        )
    } else {
        let b1 = BufferModel {
            logs: b.logs.push(
                rdt2_unexpected_log(p.header.seq_num, s.expected_seq, s.last_acked),
            ),
            ..b
        };
        (s, spec_send_ack(b1, s.last_acked))
    }
}

impl Rdt2Receiver {
    fn send_ack(&mut self, ctx: &mut ActionBuffer, seq: u32)
        ensures
            final(self)@ == (Rdt2ReceiverModel { last_acked: seq, ..old(self)@ }),
            final(ctx)@ == spec_send_ack(old(ctx)@, seq),
    {
        let ack = Packet::new_ack(seq, seq, 0);
        let mut msg = String::from_str("RDT2 send ACK for seq ");
        push_decimal(&mut msg, seq as u64);
        ctx.log(msg.as_str());
        ctx.send_packet(ack);
        self.last_acked = seq;
        proof {
            assert(msg@ =~= rdt2_ack_send_log(seq));
        }
    }
}

impl TransportProtocol for Rdt2Receiver {
    fn init(&mut self, ctx: &mut ActionBuffer)
        ensures
            final(self)@ == (Rdt2ReceiverModel {
                last_acked: old(self)@.expected_seq ^ 1,
                ..old(self)@
            }),
            final(ctx)@ == (BufferModel {
                logs: old(ctx)@.logs.push("RDT2 receiver ready"@),
                ..old(ctx)@
            }),
    {
        ctx.log("RDT2 receiver ready");
        self.last_acked = self.expected_seq ^ 1;
    }

    fn on_packet(&mut self, ctx: &mut ActionBuffer, packet: Packet)
        ensures
            (final(self)@, final(ctx)@) == spec_receiver_on_packet(
                old(self)@,
                old(ctx)@,
                packet@,
            ),
    {
        let expected_checksum = checksum(packet.payload.as_slice());
        if expected_checksum != packet.header.checksum {
            let mut msg = String::from_str("RDT2 checksum mismatch for seq ");
            push_decimal(&mut msg, packet.header.seq_num as u64);
            msg.append(" (expected ");
            push_hex4(&mut msg, expected_checksum);
            msg.append(", got ");
            push_hex4(&mut msg, packet.header.checksum);
            msg.append(")");
            ctx.log(msg.as_str());
            proof {
                assert(msg@ =~= rdt2_mismatch_log(
                    packet@.header.seq_num,
                    checksum_spec(packet@.payload) as u16,
                    packet@.header.checksum,
                ));
            }
            let last = self.last_acked;
            self.send_ack(ctx, last);
            return ;
        }
        if packet.header.seq_num == self.expected_seq {
            let mut msg = String::from_str("RDT2 received seq ");
            push_decimal(&mut msg, packet.header.seq_num as u64);
            msg.append(" (");
            push_decimal(&mut msg, packet.len() as u64);
            msg.append(" bytes)");
            ctx.log(msg.as_str());
            ctx.deliver_data(packet.payload.as_slice());
            proof {
                assert(msg@ =~= rdt2_recv_log(packet@.header.seq_num, packet@.payload.len()));
            }
            let seq = packet.header.seq_num;
            self.send_ack(ctx, seq);
            self.expected_seq = self.expected_seq ^ 1;
        } else {
            let mut msg = String::from_str("RDT2 unexpected seq ");
            push_decimal(&mut msg, packet.header.seq_num as u64);
            msg.append(" (expect ");
            push_decimal(&mut msg, self.expected_seq as u64);
            msg.append("), re-ACK ");
            push_decimal(&mut msg, self.last_acked as u64);
            ctx.log(msg.as_str());
            proof {
                assert(msg@ =~= rdt2_unexpected_log(
                    packet@.header.seq_num,
                    old(self)@.expected_seq,
                    old(self)@.last_acked,
                ));
            }
            let last = self.last_acked;
            self.send_ack(ctx, last);
        }
    }

    fn on_timer(&mut self, ctx: &mut ActionBuffer, timer_id: u32)
        ensures
            final(self)@ == old(self)@,
            final(ctx)@ == old(ctx)@,
    {
    }

    fn on_app_data(&mut self, ctx: &mut ActionBuffer, data: &[u8])
        ensures
            final(self)@ == old(self)@,
            final(ctx)@ == old(ctx)@,
    {
    }
}

/// A fresh stop-and-wait sender: sequence 0, nothing queued or in flight.
pub fn rdt2_sender() -> (r: Rdt2Sender)
    ensures
        r@ == (Rdt2SenderModel {
            next_seq: 0,
            waiting_ack: false,
            pending: Seq::empty(),
            last_packet: None,
        }),
{
    let r = Rdt2Sender {
        next_seq: 0,
        waiting_ack: false,
        pending: VecDeque::new(),
        last_packet: None,
    };
    proof {
        assert(r@.pending =~= Seq::<Seq<u8>>::empty());
    }
    r
}

/// A fresh stop-and-wait receiver expecting sequence 0.
pub fn rdt2_receiver() -> (r: Rdt2Receiver)
    ensures
        r@ == (Rdt2ReceiverModel { expected_seq: 0, last_acked: 0 }),
{
    Rdt2Receiver { expected_seq: 0, last_acked: 0 }
}

/// The protocol pair a simulation falls back to: the stop-and-wait sender.
pub fn default_sender() -> (r: Rdt2Sender)
    ensures
        r@ == rdt2_sender_initial(),
{
    rdt2_sender()
}

/// The protocol pair a simulation falls back to: the stop-and-wait
/// receiver.
pub fn default_receiver() -> (r: Rdt2Receiver)
    ensures
        r@ == (Rdt2ReceiverModel { expected_seq: 0, last_acked: 0 }),
{
    rdt2_receiver()
}

/// The state `rdt2_sender` starts in.
pub open spec fn rdt2_sender_initial() -> Rdt2SenderModel {
    Rdt2SenderModel { next_seq: 0, waiting_ack: false, pending: Seq::empty(), last_packet: None }
}

/// Checksum round trip: an uncorrupted data packet from the sender
/// always passes the receiver's checksum check, and when it carries the
/// expected sequence it is delivered, ACKed, and flips the expectation.
pub proof fn lemma_rdt2_round_trip(
    s: Rdt2ReceiverModel,
    b: BufferModel,
    seq: u32,
    payload: Seq<u8>,
)
    requires
        s.expected_seq == seq,
    ensures
        ({
            let (s2, b2) = spec_receiver_on_packet(s, b, rdt2_data_packet(seq, payload));
            &&& b2.delivered == b.delivered.push(payload)
            &&& b2.packets == b.packets.push(rdt2_ack_packet(seq))
            &&& s2.expected_seq == seq ^ 1
            &&& s2.last_acked == seq
        }),
{
}

/// A corrupted copy of a sender data packet — the channel flips the
/// checksum, never the payload — is rejected: nothing is delivered, the
/// expectation stands, and the last good sequence is re-ACKed.
pub proof fn lemma_rdt2_corruption_rejected(
    s: Rdt2ReceiverModel,
    b: BufferModel,
    seq: u32,
    payload: Seq<u8>,
)
    ensures
        ({
            let (s2, b2) = spec_receiver_on_packet(
                s,
                b,
                crate::model::corrupted(rdt2_data_packet(seq, payload)),
            );
            &&& b2.delivered == b.delivered
            &&& b2.packets == b.packets.push(rdt2_ack_packet(s.last_acked))
            &&& s2 == s
        }),
{
    let c = checksum_spec(payload) as u16;
    assert(!c != c) by (bit_vector);
}

} // verus!
