//! Plain-value records for everything the protocol core reads from a packet:
//! the decoded IPv4 and TCP header fields, an inbound segment, the fields of
//! an outbound control segment, and the connection identity (`Quad`).
//!
//! Addresses are carried as big-endian `u32` values; ports as `u16`.

use vstd::prelude::*;

verus! {

/// The IPv4 header fields the core consumes, as plain values.
#[derive(Clone, Copy, Debug, PartialEq, Eq, Structural)]
pub struct Ipv4Fields {
    /// Source address, big-endian.
    pub src: u32,
    /// Destination address, big-endian.
    pub dst: u32,
    /// Protocol number (TCP is 6).
    pub protocol: u8,
    /// Length in bytes of the header including options.
    pub header_len: usize,
}

/// The TCP header fields the core consumes, as plain values.
#[derive(Clone, Copy, Debug, PartialEq, Eq, Structural)]
pub struct TcpFields {
    pub src_port: u16,
    pub dst_port: u16,
    /// Sequence number of the first payload octet (or the ISN when SYN is set).
    pub seq: u32,
    /// Acknowledgment number.
    pub ack: u32,
    pub syn: bool,
    /// Whether the acknowledgment field is significant.
    pub ack_set: bool,
    pub fin: bool,
    pub rst: bool,
    /// Window size advertised by the sender.
    pub window: u16,
    /// Length in bytes of the header including options.
    pub header_len: usize,
}

/// One inbound TCP segment: addresses, header fields and its payload bytes.
pub struct Segment {
    pub src_addr: u32,
    pub dst_addr: u32,
    pub src_port: u16,
    pub dst_port: u16,
    pub seq: u32,
    pub ack: u32,
    pub syn: bool,
    pub ack_set: bool,
    pub fin: bool,
    pub rst: bool,
    pub window: u16,
    pub payload: Vec<u8>,
}

/// Mathematical model of a segment: the same fields with the payload as a
/// sequence of bytes.
pub struct SegView {
    pub src_addr: u32,
    pub dst_addr: u32,
    pub src_port: u16,
    pub dst_port: u16,
    pub seq: u32,
    pub ack: u32,
    pub syn: bool,
    pub ack_set: bool,
    pub fin: bool,
    pub rst: bool,
    pub window: u16,
    pub payload: Seq<u8>,
}

impl View for Segment {
    type V = SegView;

    open spec fn view(&self) -> SegView {
        SegView {
            src_addr: self.src_addr,
            dst_addr: self.dst_addr,
            src_port: self.src_port,
            dst_port: self.dst_port,
            seq: self.seq,
            ack: self.ack,
            syn: self.syn,
            ack_set: self.ack_set,
            fin: self.fin,
            rst: self.rst,
            window: self.window,
            payload: self.payload@,
        }
    }
}

/// Builds a segment view from decoded headers and the payload bytes that
/// follow them; the dispatcher is specified in these terms.
pub open spec fn seg_of(ip: Ipv4Fields, tcp: TcpFields, payload: Seq<u8>) -> SegView {
    SegView {
        src_addr: ip.src,
        dst_addr: ip.dst,
        src_port: tcp.src_port,
        dst_port: tcp.dst_port,
        seq: tcp.seq,
        ack: tcp.ack,
        syn: tcp.syn,
        ack_set: tcp.ack_set,
        fin: tcp.fin,
        rst: tcp.rst,
        window: tcp.window,
        payload: payload,
    }
}

/// The fields of one outbound control segment (SYN+ACK, ACK or FIN, never
/// carrying payload), to be serialized to the wire by the header codec.
#[derive(Clone, Copy, Debug, PartialEq, Eq, Structural)]
pub struct ReplySegment {
    pub src_addr: u32,
    pub dst_addr: u32,
    pub src_port: u16,
    pub dst_port: u16,
    pub seq: u32,
    pub ack: u32,
    pub syn: bool,
    pub ack_set: bool,
    pub fin: bool,
    pub window: u16,
    pub ttl: u8,
}

/// Connection identity: the local and remote endpoints of one TCP flow.
/// `src` names the remote peer (the source of inbound segments) and `dst` the
/// local endpoint, so two peers behind the same local port have distinct
/// quads.
#[derive(Clone, Copy, Debug, Hash, PartialEq, Eq, Structural)]
pub struct Quad {
    pub src_addr: u32,
    pub src_port: u16,
    pub dst_addr: u32,
    pub dst_port: u16,
}

/// The quad of an inbound segment with the given decoded headers.
pub open spec fn quad_of(ip: Ipv4Fields, tcp: TcpFields) -> Quad {
    Quad {
        src_addr: ip.src,
        src_port: tcp.src_port,
        dst_addr: ip.dst,
        dst_port: tcp.dst_port,
    }
}

impl Quad {
    /// The connection identity of a decoded IP + TCP header pair: the source
    /// endpoint comes from the source fields and the destination endpoint
    /// from the destination fields, never both from the same one.
    pub fn from_headers(iph: &Ipv4Fields, tcph: &TcpFields) -> (r: Quad)
        ensures
            r == quad_of(*iph, *tcph),
    {
        Quad {
            src_addr: iph.src,
            src_port: tcph.src_port,
            dst_addr: iph.dst,
            dst_port: tcph.dst_port,
        }
    }
}

} // verus!
