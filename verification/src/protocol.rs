//! The contract between the engine and a protocol implementation.
//!
//! The engine drives each endpoint exclusively through these callbacks and
//! grants it a fresh `ActionBuffer` per dispatch. The callbacks carry no
//! contract: the engine's own guarantees hold for every implementation,
//! well-behaved or not.

use vstd::prelude::*;

use crate::buffer::ActionBuffer;
use crate::packet::Packet;

verus! {

/// What a protocol implementation must expose. `ctx` is the scoped
/// capability of the current dispatch; its effects are committed only
/// after the callback returns.
pub trait TransportProtocol: Sized {
    /// Called once when the simulation starts, before any event.
    fn init(&mut self, ctx: &mut ActionBuffer);

    /// Called when a packet arrives from the network.
    fn on_packet(&mut self, ctx: &mut ActionBuffer, packet: Packet);

    /// Called when a timer expires whose generation is still current.
    fn on_timer(&mut self, ctx: &mut ActionBuffer, timer_id: u32);

    /// Called when the application layer hands data to this endpoint.
    fn on_app_data(&mut self, ctx: &mut ActionBuffer, data: &[u8]);
}

} // verus!
