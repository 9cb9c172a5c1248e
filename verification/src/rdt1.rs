//! Minimal reliable-data-transfer pair for an ideal channel: the sender
//! forwards every application payload as one packet, the receiver
//! delivers every payload as it arrives. No checksums, no ACKs, no
//! timers.

use vstd::prelude::*;

use vstd::string::StringExecFns;

use crate::buffer::{ActionBuffer, BufferModel};
use crate::packet::{Packet, TcpHeader};
use crate::protocol::TransportProtocol;
use crate::text::{decimal_digits, push_decimal};

verus! {

/// Minimal sender (assumes a perfect channel, no checksum/ACK).
pub struct Rdt1Sender;

impl Default for Rdt1Sender {
    fn default() -> (r: Rdt1Sender) {
        Rdt1Sender
    }
}

/// Minimal receiver (immediately delivers application data).
pub struct Rdt1Receiver;

impl Default for Rdt1Receiver {
    fn default() -> (r: Rdt1Receiver) {
        Rdt1Receiver
    }
}

/// The sender's log line for one outgoing payload.
pub open spec fn rdt1_send_log(len: nat) -> Seq<char> {
    "RDT1 sender pushing "@ + decimal_digits(len) + " bytes to channel"@
}

/// The receiver's log line for one delivered payload.
pub open spec fn rdt1_deliver_log(len: nat) -> Seq<char> {
    "RDT1 receiver delivering "@ + decimal_digits(len) + " bytes"@
}

impl TransportProtocol for Rdt1Sender {
    fn init(&mut self, ctx: &mut ActionBuffer)
        ensures
            final(ctx)@ == (BufferModel {
                logs: old(ctx)@.logs.push("RDT1 sender ready (ideal channel)"@),
                ..old(ctx)@
            }),
    {
        ctx.log("RDT1 sender ready (ideal channel)");
    }

    fn on_packet(&mut self, ctx: &mut ActionBuffer, packet: Packet)
        ensures
            final(ctx)@ == old(ctx)@,
    {
        // RDT1 ignores all inbound packets.
    }

    fn on_timer(&mut self, ctx: &mut ActionBuffer, timer_id: u32)
        ensures
            final(ctx)@ == old(ctx)@,
    {
        // No timers are needed for an ideal channel.
    }

    fn on_app_data(&mut self, ctx: &mut ActionBuffer, data: &[u8])
        ensures
            final(ctx)@ == (BufferModel {
                logs: old(ctx)@.logs.push(rdt1_send_log(data@.len())),
                packets: old(ctx)@.packets.push(
                    crate::packet::PacketModel {
                        header: TcpHeader::zeroed(),
                        payload: data@,
                    },
                ),
                ..old(ctx)@
            }),
    {
        let packet = Packet::new_simple(0, 0, 0, vstd::slice::slice_to_vec(data));
        let mut msg = String::from_str("RDT1 sender pushing ");
        push_decimal(&mut msg, packet.len() as u64);
        msg.append(" bytes to channel");
        proof {
            assert(msg@ =~= rdt1_send_log(data@.len()));
        }
        ctx.log(msg.as_str());
        ctx.send_packet(packet);
        proof {
            assert(packet@.header =~= TcpHeader::zeroed());
        }
    }
}

impl TransportProtocol for Rdt1Receiver {
    fn init(&mut self, ctx: &mut ActionBuffer)
        ensures
            final(ctx)@ == (BufferModel {
                logs: old(ctx)@.logs.push("RDT1 receiver ready (ideal channel)"@),
                ..old(ctx)@
            }),
    {
        ctx.log("RDT1 receiver ready (ideal channel)");
    }

    fn on_packet(&mut self, ctx: &mut ActionBuffer, packet: Packet)
        ensures
            final(ctx)@ == (BufferModel {
                logs: old(ctx)@.logs.push(rdt1_deliver_log(packet@.payload.len())),
                delivered: old(ctx)@.delivered.push(packet@.payload),
                ..old(ctx)@
            }),
    {
        let mut msg = String::from_str("RDT1 receiver delivering ");
        push_decimal(&mut msg, packet.len() as u64);
        msg.append(" bytes");
        proof {
            assert(msg@ =~= rdt1_deliver_log(packet@.payload.len()));
        }
        ctx.log(msg.as_str());
        ctx.deliver_data(packet.payload.as_slice());
    }

    fn on_timer(&mut self, ctx: &mut ActionBuffer, timer_id: u32)
        ensures
            final(ctx)@ == old(ctx)@,
    {
    }

    fn on_app_data(&mut self, ctx: &mut ActionBuffer, data: &[u8])
        ensures
            final(ctx)@ == old(ctx)@,
    {
    }
}

/// A fresh ideal-channel sender.
pub fn sender() -> (r: Rdt1Sender) {
    Rdt1Sender
}

/// A fresh ideal-channel receiver.
pub fn receiver() -> (r: Rdt1Receiver) {
    Rdt1Receiver
}

} // verus!
