//! The simplest possible protocol pair, useful for exercising the engine:
//! the sender forwards payloads without reliability, the receiver
//! delivers them and answers each packet with an ACK.

use vstd::prelude::*;

use vstd::string::StringExecFns;

use crate::buffer::{ActionBuffer, BufferModel};
use crate::packet::{Packet, PacketModel, TcpHeader};
use crate::protocol::TransportProtocol;
use crate::text::{decimal_digits, push_decimal};

verus! {

/// Forwards each application payload as one unnumbered packet.
pub struct SimpleSender;

impl Default for SimpleSender {
    fn default() -> (r: SimpleSender) {
        SimpleSender
    }
}

/// Delivers every payload and ACKs every packet with a fixed window.
pub struct SimpleReceiver;

impl Default for SimpleReceiver {
    fn default() -> (r: SimpleReceiver) {
        SimpleReceiver
    }
}

pub open spec fn simple_recv_log(len: nat) -> Seq<char> {
    "Received packet with "@ + decimal_digits(len) + " bytes"@
}

impl TransportProtocol for SimpleSender {
    fn init(&mut self, ctx: &mut ActionBuffer)
        ensures
            final(ctx)@ == (BufferModel {
                logs: old(ctx)@.logs.push("Sender initialized"@),
                ..old(ctx)@
            }),
    {
        ctx.log("Sender initialized");
    }

    fn on_packet(&mut self, ctx: &mut ActionBuffer, packet: Packet)
        ensures
            final(ctx)@ == old(ctx)@,
    {
        // ACKs are ignored: this sender offers no reliability.
    }

    fn on_timer(&mut self, ctx: &mut ActionBuffer, timer_id: u32)
        ensures
            final(ctx)@ == old(ctx)@,
    {
    }

    fn on_app_data(&mut self, ctx: &mut ActionBuffer, data: &[u8])
        ensures
            final(ctx)@ == (BufferModel {
                logs: old(ctx)@.logs.push("Sending data"@),
                packets: old(ctx)@.packets.push(
                    PacketModel { header: TcpHeader::zeroed(), payload: data@ },
                ),
                ..old(ctx)@
            }),
    {
        ctx.log("Sending data");
        let packet = Packet::new_simple(0, 0, 0, vstd::slice::slice_to_vec(data));
        ctx.send_packet(packet);
        proof {
            assert(packet@.header =~= TcpHeader::zeroed());
        }
    }
}

impl TransportProtocol for SimpleReceiver {
    fn init(&mut self, ctx: &mut ActionBuffer)
        ensures
            final(ctx)@ == (BufferModel {
                logs: old(ctx)@.logs.push("Receiver initialized"@),
                ..old(ctx)@
            }),
    {
        ctx.log("Receiver initialized");
    }

    fn on_packet(&mut self, ctx: &mut ActionBuffer, packet: Packet)
        ensures
            final(ctx)@ == (BufferModel {
                logs: old(ctx)@.logs.push(simple_recv_log(packet@.payload.len())),
                delivered: old(ctx)@.delivered.push(packet@.payload),
                packets: old(ctx)@.packets.push(
                    PacketModel {
                        header: TcpHeader {
                            ack_num: packet@.header.seq_num,
                            flags: crate::flags::ACK,
                            window_size: 100,
                            ..TcpHeader::zeroed()
                        },
                        payload: Seq::empty(),
                    },
                ),
                ..old(ctx)@
            }),
    {
        let mut msg = String::from_str("Received packet with ");
        push_decimal(&mut msg, packet.len() as u64);
        msg.append(" bytes");
        ctx.log(msg.as_str());
        ctx.deliver_data(packet.payload.as_slice());
        let ack = Packet::new_ack(0, packet.header.seq_num, 100);
        ctx.send_packet(ack);
        proof {
            assert(msg@ =~= simple_recv_log(packet@.payload.len()));
        }
    }

    fn on_timer(&mut self, ctx: &mut ActionBuffer, timer_id: u32)
        ensures
            final(ctx)@ == old(ctx)@,
    {
    }

    fn on_app_data(&mut self, ctx: &mut ActionBuffer, data: &[u8])
        ensures
            final(ctx)@ == old(ctx)@,
    {
    }
}

} // verus!
