//! The link-event log: one record per channel decision or delivery,
//! kept in the order the engine made them, with a verified rendering to
//! the human-readable form used by traces.

use vstd::prelude::*;

use vstd::string::StringExecFns;

use crate::event::NodeId;
use crate::text::{decimal_digits, push_decimal};

verus! {

/// What happened on the link.
#[derive(Clone, Copy, Debug, PartialEq, Eq, Structural)]
pub enum LinkEventKind {
    /// A registered "drop sender seq" override consumed a sender packet.
    DeterministicDropSeq { seq: u32 },
    /// A registered "drop receiver ack" override consumed a receiver ACK.
    DeterministicDropAck { ack: u32 },
    /// The probabilistic loss check dropped the packet.
    RandomLoss { from: NodeId, seq: u32, ack: u32 },
    /// The probabilistic corruption check flipped the packet's checksum.
    Corrupt { from: NodeId, seq: u32, ack: u32 },
    /// The packet was accepted and scheduled to arrive `latency` ms later.
    Send { from: NodeId, seq: u32, ack: u32, latency: u64 },
    /// `node` delivered `bytes` bytes upward to the application.
    Delivered { node: NodeId, bytes: u64 },
}

/// One entry of the link-event log.
#[derive(Clone, Copy, Debug, PartialEq, Eq, Structural)]
pub struct LinkEvent {
    pub time: u64,
    pub kind: LinkEventKind,
}

/// A link-event record rendered for humans.
#[derive(Clone, Debug)]
pub struct LinkEventSummary {
    pub time: u64,
    pub description: String,
}

/// "Sender" or "Receiver".
pub open spec fn node_label(n: NodeId) -> Seq<char> {
    match n {
        NodeId::Sender => "Sender"@,
        NodeId::Receiver => "Receiver"@,
    }
}

/// The "[from->to] " prefix of channel records.
pub open spec fn arrow_label(from: NodeId) -> Seq<char> {
    "["@ + node_label(from) + "->"@ + node_label(from.spec_peer()) + "] "@
}

/// The human-readable description of a link event.
pub open spec fn describe_kind(k: LinkEventKind) -> Seq<char> {
    match k {
        LinkEventKind::DeterministicDropSeq { seq } => "[Sender->Receiver] DROP (deterministic seq) seq="@
            + decimal_digits(seq as nat),
        LinkEventKind::DeterministicDropAck { ack } => "[Receiver->Sender] DROP (deterministic ack) ack="@
            + decimal_digits(ack as nat),
        LinkEventKind::RandomLoss { from, seq, ack } => arrow_label(from)
            + "DROP (random loss) seq="@ + decimal_digits(seq as nat) + " ack="@ + decimal_digits(
            ack as nat,
        ),
        LinkEventKind::Corrupt { from, seq, ack } => arrow_label(from) + "CORRUPT seq="@
            + decimal_digits(seq as nat) + " ack="@ + decimal_digits(ack as nat),
        LinkEventKind::Send { from, seq, ack, latency } => arrow_label(from) + "SEND seq="@
            + decimal_digits(seq as nat) + " ack="@ + decimal_digits(ack as nat) + " (latency="@
            + decimal_digits(latency as nat) + "ms)"@,
        LinkEventKind::Delivered { node, bytes } => "["@ + node_label(node) + "] DELIVERED "@
            + decimal_digits(bytes as nat) + " bytes to application"@,
    }
}

fn node_str(n: NodeId) -> (r: &'static str)
    ensures
        r@ == node_label(n),
{
    match n {
        NodeId::Sender => "Sender",
        NodeId::Receiver => "Receiver",
    }
}

fn push_arrow(out: &mut String, from: NodeId)
    ensures
        final(out)@ == old(out)@ + arrow_label(from),
{
    out.append("[");
    out.append(node_str(from));
    out.append("->");
    out.append(node_str(from.peer()));
    out.append("] ");
    proof {
        assert(out@ =~= old(out)@ + arrow_label(from));
    }
}

impl LinkEvent {
    /// Render this record in the form used by traces and visualizers.
    pub fn summary(&self) -> (r: LinkEventSummary)
        ensures
            r.time == self.time,
            r.description@ == describe_kind(self.kind),
    {
        let mut s = String::new();
        match self.kind {
            LinkEventKind::DeterministicDropSeq { seq } => {
                s.append("[Sender->Receiver] DROP (deterministic seq) seq=");
                push_decimal(&mut s, seq as u64);
            },
            LinkEventKind::DeterministicDropAck { ack } => {
                s.append("[Receiver->Sender] DROP (deterministic ack) ack=");
                push_decimal(&mut s, ack as u64);
            },
            LinkEventKind::RandomLoss { from, seq, ack } => {
                push_arrow(&mut s, from);
                s.append("DROP (random loss) seq=");
                push_decimal(&mut s, seq as u64);
                s.append(" ack=");
                push_decimal(&mut s, ack as u64);
            },
            LinkEventKind::Corrupt { from, seq, ack } => {
                push_arrow(&mut s, from);
                s.append("CORRUPT seq=");
                push_decimal(&mut s, seq as u64);
                s.append(" ack=");
                push_decimal(&mut s, ack as u64);
            },
            LinkEventKind::Send { from, seq, ack, latency } => {
                push_arrow(&mut s, from);
                s.append("SEND seq=");
                push_decimal(&mut s, seq as u64);
                s.append(" ack=");
                push_decimal(&mut s, ack as u64);
                s.append(" (latency=");
                push_decimal(&mut s, latency);
                s.append("ms)");
            },
            LinkEventKind::Delivered { node, bytes } => {
                s.append("[");
                s.append(node_str(node));
                s.append("] DELIVERED ");
                push_decimal(&mut s, bytes);
                s.append(" bytes to application");
            },
        }
        proof {
            assert(s@ =~= describe_kind(self.kind));
        }
        LinkEventSummary { time: self.time, description: s }
    }
}

} // verus!
