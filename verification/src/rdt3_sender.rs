//! An alternating-bit sender with timeout-driven retransmission: one
//! packet in flight, covered by a timer keyed on its sequence number, a
//! simple additive checksum over sequence and payload.

use vstd::prelude::*;

use vstd::arithmetic::div_mod::lemma_add_mod_noop;
use vstd::string::StringExecFns;

use crate::buffer::{ActionBuffer, BufferModel};
use crate::flags;
use crate::packet::{Packet, PacketModel, TcpHeader};
use crate::protocol::TransportProtocol;
use crate::text::{decimal_digits, push_decimal};

verus! {

/// The plain sum of the first `n` payload bytes.
pub open spec fn byte_sum(data: Seq<u8>, n: int) -> int
    decreases n,
{
    if n <= 0 {
        0
    } else {
        byte_sum(data, n - 1) + data[n - 1]
    }
}

/// The additive checksum: sequence number plus payload bytes, reduced to
/// 16 bits.
pub open spec fn rdt3_checksum(seq: u32, data: Seq<u8>) -> int {
    (seq + byte_sum(data, data.len() as int)) % 0x10000
}

/// The retransmission timeout in virtual milliseconds.
pub const RDT3_TIMEOUT_MS: u64 = 3000;

pub open spec fn rdt3_busy_log() -> Seq<char> {
    "RDT3 Sender Busy: Dropping application data"@
}

pub open spec fn rdt3_resend_log(seq: u32) -> Seq<char> {
    "Corrupted or Duplicate ACK. Retransmitting "@ + decimal_digits(seq as nat)
}

pub open spec fn rdt3_ack_log(seq: u32) -> Seq<char> {
    "Received ACK "@ + decimal_digits(seq as nat)
}

pub open spec fn rdt3_timeout_log(seq: u32) -> Seq<char> {
    "Timeout! Retransmitting seq "@ + decimal_digits(seq as nat)
}

/// The packet emitted for `payload` under sequence `seq`.
pub open spec fn rdt3_data_packet(seq: u32, payload: Seq<u8>) -> PacketModel {
    PacketModel {
        header: TcpHeader {
            seq_num: seq,
            checksum: rdt3_checksum(seq, payload) as u16,
            ..TcpHeader::zeroed()
        },
        payload,
    }
}

/// The sender's observable state.
pub ghost struct Rdt3SenderModel {
    pub next_seq: u32,
    pub is_waiting: bool,
    pub current_packet: Option<PacketModel>,
}

/// Alternating-bit sender with timeout-driven retransmission.
pub struct Rdt3Sender {
    next_seq: u32,
    is_waiting: bool,
    current_packet: Option<Packet>,
}

impl View for Rdt3Sender {
    type V = Rdt3SenderModel;

    closed spec fn view(&self) -> Rdt3SenderModel {
        Rdt3SenderModel {
            next_seq: self.next_seq,
            is_waiting: self.is_waiting,
            current_packet: match self.current_packet {
                Some(p) => Some(p@),
                None => None,
            },
        }
    }
}

impl Rdt3Sender {
    /// A fresh sender: sequence 0, nothing in flight.
    pub fn new() -> (r: Rdt3Sender)
        ensures
            r@ == (Rdt3SenderModel { next_seq: 0, is_waiting: false, current_packet: None }),
    {
        Rdt3Sender { next_seq: 0, is_waiting: false, current_packet: None }
    }

    /// The additive checksum over sequence number and payload bytes,
    /// accumulated in 16 bits.
    fn checksum(seq: u32, data: &[u8]) -> (r: u16)
        ensures
            r == rdt3_checksum(seq, data@),
    {
        let mut sum: u32 = seq % 0x10000;
        let mut i: usize = 0;
        while i < data.len()
            invariant
                0 <= i <= data@.len(),
                sum == (seq + byte_sum(data@, i as int)) % 0x10000,
            decreases data@.len() - i,
        {
            let b = data[i];
            proof {
                lemma_add_mod_noop(seq + byte_sum(data@, i as int), b as int, 0x10000);
            }
            sum = (sum + b as u32) % 0x10000;
            i = i + 1;
        }
        sum as u16
    }

    /// Whether the header's checksum disagrees with the payload.
    fn is_corrupted(h: &TcpHeader, payload: &[u8]) -> (r: bool)
        ensures
            r == (h.checksum != rdt3_checksum(h.seq_num, payload@)),
    {
        let expected = Self::checksum(h.seq_num, payload);
        expected != h.checksum
    }
}

/// The retransmission both the corrupt-ACK path and the timeout path
/// perform: resend the remembered packet and re-arm its timer. With
/// nothing remembered, nothing happens.
pub open spec fn spec_retransmit(s: Rdt3SenderModel, b: BufferModel) -> BufferModel {
    match s.current_packet {
        Some(pkt) => BufferModel {
            packets: b.packets.push(pkt),
            starts: b.starts.push((RDT3_TIMEOUT_MS, s.next_seq)),
            ..b
        },
        None => b,
    }
}

impl TransportProtocol for Rdt3Sender {
    fn init(&mut self, ctx: &mut ActionBuffer)
        ensures
            final(self)@ == (Rdt3SenderModel {
                next_seq: 0,
                is_waiting: false,
                current_packet: None,
            }),
            final(ctx)@ == old(ctx)@,
    {
        self.next_seq = 0;
        self.is_waiting = false;
        self.current_packet = None;
    }

    fn on_app_data(&mut self, ctx: &mut ActionBuffer, data: &[u8])
        ensures
            old(self)@.is_waiting ==> final(self)@ == old(self)@ && final(ctx)@ == (BufferModel {
                logs: old(ctx)@.logs.push(rdt3_busy_log()),
                ..old(ctx)@
            }),
            !old(self)@.is_waiting ==> ({
                let pkt = rdt3_data_packet(old(self)@.next_seq, data@);
                &&& final(self)@ == (Rdt3SenderModel {
                    is_waiting: true,
                    current_packet: Some(pkt),
                    ..old(self)@
                })
                &&& final(ctx)@ == (BufferModel {
                    packets: old(ctx)@.packets.push(pkt),
                    starts: old(ctx)@.starts.push((RDT3_TIMEOUT_MS, old(self)@.next_seq)),
                    ..old(ctx)@
                })
            }),
    {
        if self.is_waiting {
            ctx.log("RDT3 Sender Busy: Dropping application data");
            return ;
        }
        let mut h = TcpHeader::default();
        h.seq_num = self.next_seq;
        h.checksum = Self::checksum(h.seq_num, data);
        let packet = Packet::new(h, vstd::slice::slice_to_vec(data));
        self.current_packet = Some(packet.duplicate());
        ctx.send_packet(packet);
        ctx.start_timer(RDT3_TIMEOUT_MS, self.next_seq);
        self.is_waiting = true;
    }

    fn on_packet(&mut self, ctx: &mut ActionBuffer, packet: Packet)
        ensures
            ({
                let s = old(self)@;
                let b = old(ctx)@;
                let h = packet@.header;
                let corrupted = h.checksum != rdt3_checksum(h.seq_num, packet@.payload);
                let acked = h.flags & flags::ACK != 0;
                if !s.is_waiting {
                    final(self)@ == s && final(ctx)@ == b
                } else if corrupted || (acked && h.ack_num != s.next_seq) {
                    &&& final(self)@ == s
                    &&& final(ctx)@ == spec_retransmit(
                        s,
                        BufferModel {
                            logs: b.logs.push(rdt3_resend_log(s.next_seq)),
                            cancels: b.cancels.push(s.next_seq),
                            ..b
                        },
                    )
                } else if acked && h.ack_num == s.next_seq {
                    &&& final(self)@ == (Rdt3SenderModel {
                        is_waiting: false,
                        next_seq: s.next_seq ^ 1,
                        ..s
                    })
                    &&& final(ctx)@ == (BufferModel {
                        logs: b.logs.push(rdt3_ack_log(s.next_seq)),
                        cancels: b.cancels.push(s.next_seq),
                        ..b
                    })
                } else {
                    final(self)@ == s && final(ctx)@ == b
                }
            }),
    {
        if !self.is_waiting {
            return ;
        }
        let corrupted = Self::is_corrupted(&packet.header, packet.payload.as_slice());
        let h = &packet.header;

        if corrupted || ((h.flags & flags::ACK != 0) && h.ack_num != self.next_seq) {
            let mut msg = String::from_str("Corrupted or Duplicate ACK. Retransmitting ");
            push_decimal(&mut msg, self.next_seq as u64);
            ctx.log(msg.as_str());
            ctx.cancel_timer(self.next_seq);
            proof {
                assert(msg@ =~= rdt3_resend_log(old(self)@.next_seq));
            }
            match &self.current_packet {
                Some(pkt) => {
                    ctx.send_packet(pkt.duplicate());
                    ctx.start_timer(RDT3_TIMEOUT_MS, self.next_seq);
                },
                None => {},
            }
            return ;
        }

        if (h.flags & flags::ACK != 0) && h.ack_num == self.next_seq {
            let mut msg = String::from_str("Received ACK ");
            push_decimal(&mut msg, self.next_seq as u64);
            ctx.log(msg.as_str());
            ctx.cancel_timer(self.next_seq);
            self.is_waiting = false;
            self.next_seq = self.next_seq ^ 1;
            proof {
                assert(msg@ =~= rdt3_ack_log(old(self)@.next_seq));
            }
        }
    }

    fn on_timer(&mut self, ctx: &mut ActionBuffer, timer_id: u32)
        ensures
            ({
                let s = old(self)@;
                let b = old(ctx)@;
                if s.is_waiting && timer_id == s.next_seq {
                    final(self)@ == s && final(ctx)@ == spec_retransmit(
                        s,
                        BufferModel { logs: b.logs.push(rdt3_timeout_log(s.next_seq)), ..b },
                    )
                } else {
                    final(self)@ == s && final(ctx)@ == b
                }
            }),
    {
        if self.is_waiting && timer_id == self.next_seq {
            let mut msg = String::from_str("Timeout! Retransmitting seq ");
            push_decimal(&mut msg, self.next_seq as u64);
            ctx.log(msg.as_str());
            proof {
                assert(msg@ =~= rdt3_timeout_log(old(self)@.next_seq));
            }
            match &self.current_packet {
                Some(pkt) => {
                    ctx.send_packet(pkt.duplicate());
                    ctx.start_timer(RDT3_TIMEOUT_MS, self.next_seq);
                },
                None => {},
            }
        }
    }
}

/// Checksum round trip: a packet the sender built is never judged
/// corrupted, and a copy whose checksum the channel flipped always is.
pub proof fn lemma_rdt3_corruption_detected(seq: u32, payload: Seq<u8>)
    ensures
        ({
            let p = rdt3_data_packet(seq, payload);
            p.header.checksum == rdt3_checksum(p.header.seq_num, p.payload) as u16
        }),
        ({
            let q = crate::model::corrupted(rdt3_data_packet(seq, payload));
            q.header.checksum != rdt3_checksum(q.header.seq_num, q.payload) as u16
        }),
{
    let c = rdt3_checksum(seq, payload) as u16;
    assert(!c != c) by (bit_vector);
}

} // verus!
