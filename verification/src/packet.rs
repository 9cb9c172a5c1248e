//! The packet value type: a TCP-style header plus a payload byte sequence.

use vstd::prelude::*;

use crate::flags;

verus! {

/// A TCP-style header. All fields are plain integers, so a header can be
/// used directly in specifications.
#[derive(Clone, Copy, Debug, PartialEq, Eq, Structural)]
pub struct TcpHeader {
    /// Source port (unused by the one-link simulation, kept for realism).
    pub src_port: u16,
    /// Destination port (unused by the one-link simulation, kept for realism).
    pub dst_port: u16,
    /// Sequence number.
    pub seq_num: u32,
    /// Acknowledgment number.
    pub ack_num: u32,
    /// Flag bits; see the `flags` module.
    pub flags: u8,
    /// Window size advertised by the sending side.
    pub window_size: u16,
    /// Checksum over whatever the protocol chooses to cover.
    pub checksum: u16,
    /// Urgent pointer (unused by the built-in protocols).
    pub urgent_ptr: u16,
}

impl Default for TcpHeader {
    fn default() -> (h: TcpHeader)
        ensures
            h == TcpHeader::zeroed(),
    {
        TcpHeader {
            src_port: 0,
            dst_port: 0,
            seq_num: 0,
            ack_num: 0,
            flags: 0,
            window_size: 0,
            checksum: 0,
            urgent_ptr: 0,
        }
    }
}

impl TcpHeader {
    /// The all-zero header.
    pub open spec fn zeroed() -> TcpHeader {
        TcpHeader {
            src_port: 0,
            dst_port: 0,
            seq_num: 0,
            ack_num: 0,
            flags: 0,
            window_size: 0,
            checksum: 0,
            urgent_ptr: 0,
        }
    }

    /// Build a header from the four fields the protocols care about; the
    /// rest are zero.
    pub fn new(seq: u32, ack: u32, flags: u8, wnd: u16) -> (h: TcpHeader)
        ensures
            h == (TcpHeader { seq_num: seq, ack_num: ack, flags: flags, window_size: wnd, ..TcpHeader::zeroed() }),
    {
        TcpHeader {
            src_port: 0,
            dst_port: 0,
            seq_num: seq,
            ack_num: ack,
            flags: flags,
            window_size: wnd,
            checksum: 0,
            urgent_ptr: 0,
        }
    }

    pub fn is_syn(&self) -> (r: bool)
        ensures
            r == (self.flags & flags::SYN != 0),
    {
        self.flags & flags::SYN != 0
    }

    pub fn is_ack(&self) -> (r: bool)
        ensures
            r == (self.flags & flags::ACK != 0),
    {
        self.flags & flags::ACK != 0
    }

    pub fn is_fin(&self) -> (r: bool)
        ensures
            r == (self.flags & flags::FIN != 0),
    {
        self.flags & flags::FIN != 0
    }

    pub fn is_rst(&self) -> (r: bool)
        ensures
            r == (self.flags & flags::RST != 0),
    {
        self.flags & flags::RST != 0
    }
}

/// The mathematical value of a packet: its header and its payload bytes.
pub ghost struct PacketModel {
    pub header: TcpHeader,
    pub payload: Seq<u8>,
}

/// A packet travelling over the simulated link.
#[derive(Clone, Debug)]
pub struct Packet {
    pub header: TcpHeader,
    pub payload: Vec<u8>,
}

impl View for Packet {
    type V = PacketModel;

    open spec fn view(&self) -> PacketModel {
        PacketModel { header: self.header, payload: self.payload@ }
    }
}

impl Packet {
    pub fn new(header: TcpHeader, payload: Vec<u8>) -> (p: Packet)
        ensures
            p@ == (PacketModel { header: header, payload: payload@ }),
    {
        Packet { header, payload }
    }

    /// A data packet with the given sequence/ack numbers and flags and a
    /// zero window.
    pub fn new_simple(seq: u32, ack: u32, flags: u8, payload: Vec<u8>) -> (p: Packet)
        ensures
            p@.header == (TcpHeader { seq_num: seq, ack_num: ack, flags: flags, window_size: 0, ..TcpHeader::zeroed() }),
            p@.payload == payload@,
    {
        Packet { header: TcpHeader::new(seq, ack, flags, 0), payload }
    }

    /// A pure ACK packet: no payload, the ACK flag set.
    pub fn new_ack(seq: u32, ack: u32, window: u16) -> (p: Packet)
        ensures
            p@.header == (TcpHeader { seq_num: seq, ack_num: ack, flags: flags::ACK, window_size: window, ..TcpHeader::zeroed() }),
            p@.payload == Seq::<u8>::empty(),
    {
        Packet { header: TcpHeader::new(seq, ack, flags::ACK, window), payload: Vec::new() }
    }

    /// A packet with the same header and payload.
    pub fn duplicate(&self) -> (p: Packet)
        ensures
            p@ == self@,
    {
        Packet {
            header: self.header,
            payload: vstd::slice::slice_to_vec(self.payload.as_slice()),
        }
    }

    /// The payload length; header bytes are not modelled.
    pub fn len(&self) -> (n: usize)
        ensures
            n == self@.payload.len(),
    {
        self.payload.len()
    }
}

} // verus!
