//! A deterministic discrete-event simulator for a pair of transport-protocol
//! state machines ("Sender" and "Receiver") joined by a synthetic,
//! fault-injecting network channel.
//!
//! The engine owns an event queue with a FIFO tie-break for simultaneous
//! events, a timer table based on logical generations, a channel model with
//! probabilistic loss, corruption and latency plus deterministic drop
//! overrides, and the bookkeeping needed to reconstruct a full simulation
//! trace. What each operation does is stated over the mathematical model
//! in `model`, and the engine-wide guarantees are proved in `laws`.

pub mod args;
pub mod buffer;
pub mod builtin;
pub mod checksum;
pub mod config;
pub mod engine;
pub mod event;
pub mod examples;
pub mod flags;
pub mod laws;
pub mod link;
pub mod loader;
pub mod model;
pub mod packet;
pub mod protocol;
pub mod rdt1;
pub mod rdt3_sender;
pub(crate) mod rng;
pub mod scenario;
pub mod text;
pub mod timers;
pub mod trace;

pub use buffer::ActionBuffer;
pub use config::SimConfig;
pub use engine::Simulator;
pub use event::{EventType, NodeId};
pub use link::{LinkEvent, LinkEventSummary};
pub use packet::{Packet, TcpHeader};
pub use protocol::TransportProtocol;
pub use scenario::{TestAction, TestAssertion, TestScenario};
pub use trace::SimulationReport;
