//! The trusted boundary to the `etherparse` header codec: decoding the IPv4
//! and TCP headers of an inbound frame into plain fields, and serializing an
//! outbound control segment into wire bytes.
//!
//! The decode contracts restate exactly the checks and field offsets that
//! `etherparse`'s slice parsers perform (RFC 791 / RFC 793 fixed headers);
//! the encoder's output is named, not restated, since serialization with
//! checksums takes pages to write out.

use vstd::prelude::*;

use crate::segment::{Ipv4Fields, ReplySegment, TcpFields};

verus! {

/// Big-endian 16-bit value of two bytes.
pub open spec fn be16(b0: u8, b1: u8) -> u16 {
    (b0 * 0x100 + b1) as u16
}

/// Big-endian 32-bit value of four bytes.
pub open spec fn be32(b0: u8, b1: u8, b2: u8, b3: u8) -> u32 {
    (b0 * 0x1000000 + b1 * 0x10000 + b2 * 0x100 + b3) as u32
}

/// A buffer opens with a well-formed IPv4 header: at least 20 bytes, version
/// 4, a header length of at least 5 words that the buffer can hold.
pub open spec fn ipv4_header_ok(b: Seq<u8>) -> bool {
    &&& b.len() >= 20
    &&& b[0] / 16 == 4
    &&& b[0] % 16 >= 5
    &&& b.len() >= 4 * (b[0] % 16)
}

/// The IPv4 fields at their RFC 791 offsets: protocol at byte 9, source
/// address at bytes 12..16, destination address at bytes 16..20.
pub open spec fn ipv4_fields_of(b: Seq<u8>) -> Ipv4Fields {
    Ipv4Fields {
        src: be32(b[12], b[13], b[14], b[15]),
        dst: be32(b[16], b[17], b[18], b[19]),
        protocol: b[9],
        header_len: (4 * (b[0] % 16)) as usize,
    }
}

/// Relies on `etherparse::Ipv4HeaderSlice::from_slice` and its field getters:
/// it accepts exactly the buffers that open with a version-4 header whose
/// header length (low nibble of byte 0, in words) is at least 5 and fits in
/// the buffer, and reads the fixed fields at their RFC 791 offsets.
#[verifier::external_body]
pub fn decode_ipv4(buf: &[u8]) -> (r: Option<Ipv4Fields>)
    ensures
        r is Some <==> ipv4_header_ok(buf@),
        r matches Some(f) ==> f == ipv4_fields_of(buf@),
{
    match etherparse::Ipv4HeaderSlice::from_slice(buf) {
        Ok(h) => Some(Ipv4Fields {
            src: u32::from_be_bytes(h.source()),
            dst: u32::from_be_bytes(h.destination()),
            protocol: h.protocol().0,
            header_len: h.slice().len(),
        }),
        Err(_) => None,
    }
}

/// A buffer opens with a well-formed TCP header: at least 20 bytes and a data
/// offset (high nibble of byte 12, in words) of at least 5 that the buffer
/// can hold.
pub open spec fn tcp_header_ok(b: Seq<u8>) -> bool {
    &&& b.len() >= 20
    &&& b[12] / 16 >= 5
    &&& b.len() >= 4 * (b[12] / 16)
}

/// The TCP fields at their RFC 793 offsets: ports at bytes 0..4, sequence and
/// acknowledgment numbers at 4..12, the control bits in byte 13 (FIN, SYN,
/// RST and ACK at bits 0, 1, 2 and 4), the window at bytes 14..16.
pub open spec fn tcp_fields_of(b: Seq<u8>) -> TcpFields {
    TcpFields {
        src_port: be16(b[0], b[1]),
        dst_port: be16(b[2], b[3]),
        seq: be32(b[4], b[5], b[6], b[7]),
        ack: be32(b[8], b[9], b[10], b[11]),
        syn: (b[13] / 2) % 2 == 1,
        ack_set: (b[13] / 16) % 2 == 1,
        fin: b[13] % 2 == 1,
        rst: (b[13] / 4) % 2 == 1,
        window: be16(b[14], b[15]),
        header_len: (4 * (b[12] / 16)) as usize,
    }
}

/// Relies on `etherparse::TcpHeaderSlice::from_slice` and its field getters:
/// it accepts exactly the buffers that open with a header whose data offset
/// is at least 5 words and fits in the buffer, and reads the fixed fields at
/// their RFC 793 offsets.
#[verifier::external_body]
pub fn decode_tcp(buf: &[u8]) -> (r: Option<TcpFields>)
    ensures
        r is Some <==> tcp_header_ok(buf@),
        r matches Some(f) ==> f == tcp_fields_of(buf@),
{
    match etherparse::TcpHeaderSlice::from_slice(buf) {
        Ok(h) => Some(TcpFields {
            src_port: h.source_port(),
            dst_port: h.destination_port(),
            seq: h.sequence_number(),
            ack: h.acknowledgment_number(),
            syn: h.syn(), ack_set: h.ack(), fin: h.fin(), rst: h.rst(),
            window: h.window_size(),
            header_len: h.slice().len(),
        }),
        Err(_) => None,
    }
}

/// The wire bytes of a payloadless IPv4+TCP control segment with the given
/// fields, as the header codec serializes them (checksums included): a pure
/// function of the fields alone.
pub uninterp spec fn reply_wire_bytes(r: ReplySegment) -> Seq<u8>;

/// Relies on `etherparse::TcpHeader::new`/`write`, `Ipv4Header::new`/`write`
/// and `TcpHeader::calc_checksum_ipv4`: serializes one option-less IPv4
/// header followed by one option-less TCP header (20 bytes each), a pure
/// function of the reply's fields.
#[verifier::external_body]
pub fn encode_reply(r: &ReplySegment) -> (out: Vec<u8>)
    ensures
        out@ == reply_wire_bytes(*r),
        out@.len() == 40,
{
    let mut tcp = etherparse::TcpHeader::new(r.src_port, r.dst_port, r.seq, r.window);
    tcp.acknowledgment_number = r.ack;
    tcp.syn = r.syn;
    tcp.ack = r.ack_set;
    tcp.fin = r.fin;
    let ip = etherparse::Ipv4Header::new(
        tcp.header_len_u16(), r.ttl, etherparse::IpNumber::TCP,
        r.src_addr.to_be_bytes(), r.dst_addr.to_be_bytes(),
    ).unwrap();
    tcp.checksum = tcp.calc_checksum_ipv4(&ip, &[]).unwrap();
    let mut out: Vec<u8> = Vec::new();
    ip.write(&mut out).unwrap();
    tcp.write(&mut out).unwrap();
    out
}

} // verus!
