//! Per-frame processing: decode the IPv4 and TCP headers of one raw frame,
//! classify non-TCP traffic away, and hand the segment to the connection
//! table.  The caller (the packet loop) only reads frames, calls
//! [`handle_frame`] and transmits the returned reply bytes.

use vstd::prelude::*;

use crate::codec::{
    decode_ipv4, decode_tcp, encode_reply, ipv4_fields_of, ipv4_header_ok, reply_wire_bytes,
    tcp_fields_of, tcp_header_ok,
};
use crate::segment::{quad_of, seg_of, Quad, Segment};
use crate::table::{table_outcome, table_reply, table_step, ConnectionTable, RouteOutcome};
use vstd::slice::{slice_index_get, slice_subrange};

verus! {

/// TCP's protocol number in the IPv4 header.
pub const TCP_PROTOCOL: u8 = 6;

/// What became of one raw frame.
#[derive(Clone, Copy, Debug, PartialEq, Eq, Structural)]
pub enum FrameOutcome {
    /// The frame does not open with a well-formed IPv4 header.
    BadIpv4Header,
    /// Well-formed IPv4, but not TCP: not ours.
    NotTcp,
    /// The IPv4 payload does not open with a well-formed TCP header.
    BadTcpHeader,
    /// The segment was routed through the connection table.
    Routed(RouteOutcome),
}

/// Process one raw IP frame against the connection table, returning what
/// happened and the wire bytes of the reply owed, if any.  Malformed or
/// non-TCP frames are reported and dropped with the table untouched; for TCP
/// frames the table evolves exactly by [`table_step`] on the decoded segment.
pub fn handle_frame(table: &mut ConnectionTable, buf: &[u8]) -> (r: (FrameOutcome, Option<
    Vec<u8>,
>))
    requires
        old(table).wf(),
        buf@.len() < 0x1_0000_0000,
    ensures
        final(table).wf(),
        final(table).iss == old(table).iss,
        !ipv4_header_ok(buf@) ==> r.0 == FrameOutcome::BadIpv4Header && final(table)@ == old(
            table,
        )@ && r.1 is None,
        ipv4_header_ok(buf@) ==> ({
            let ip = ipv4_fields_of(buf@);
            let rest = buf@.subrange(ip.header_len as int, buf@.len() as int);
            if ip.protocol != TCP_PROTOCOL {
                r.0 == FrameOutcome::NotTcp && final(table)@ == old(table)@ && r.1 is None
            } else if !tcp_header_ok(rest) {
                r.0 == FrameOutcome::BadTcpHeader && final(table)@ == old(table)@ && r.1 is None
            } else {
                let tcp = tcp_fields_of(rest);
                let payload = buf@.subrange(
                    ip.header_len + tcp.header_len,
                    buf@.len() as int,
                );
                let s = seg_of(ip, tcp, payload);
                let q = quad_of(ip, tcp);
                &&& r.0 == FrameOutcome::Routed(table_outcome(old(table)@, q, s))
                &&& final(table)@ == table_step(old(table)@, q, s, old(table).iss)
                &&& (match (r.1, table_reply(old(table)@, q, s, old(table).iss)) {
                    (Some(bytes), Some(rep)) => bytes@ == reply_wire_bytes(rep),
                    (None, None) => true,
                    _ => false,
                })
            }
        }),
{
    let ip = match decode_ipv4(buf) {
        Some(ip) => ip,
        None => {
            return (FrameOutcome::BadIpv4Header, None);
        },
    };
    if ip.protocol != TCP_PROTOCOL {
        return (FrameOutcome::NotTcp, None);
    }
    let rest = slice_subrange(buf, ip.header_len, buf.len());
    let tcp = match decode_tcp(rest) {
        Some(t) => t,
        None => {
            return (FrameOutcome::BadTcpHeader, None);
        },
    };
    let datai: usize = ip.header_len + tcp.header_len;
    let m: usize = buf.len();
    let mut payload: Vec<u8> = Vec::new();
    proof {
        assert(payload@ =~= buf@.subrange(datai as int, datai as int));
    }
    let mut i: usize = datai;
    while i < m
        invariant
            datai <= i <= m,
            m == buf@.len(),
            payload@ == buf@.subrange(datai as int, i as int),
        decreases m - i,
    {
        let b: u8 = *slice_index_get(buf, i);
        payload.push(b);
        proof {
            assert(buf@.subrange(datai as int, i + 1) =~= buf@.subrange(
                datai as int,
                i as int,
            ).push(b));
        }
        i += 1;
    }
    let seg = Segment {
        src_addr: ip.src,
        dst_addr: ip.dst,
        src_port: tcp.src_port,
        dst_port: tcp.dst_port,
        seq: tcp.seq,
        ack: tcp.ack,
        syn: tcp.syn,
        ack_set: tcp.ack_set,
        fin: tcp.fin,
        rst: tcp.rst,
        window: tcp.window,
        payload,
    };
    let quad = Quad::from_headers(&ip, &tcp);
    let (outcome, rep) = table.route(quad, &seg);
    match rep {
        Some(rs) => (FrameOutcome::Routed(outcome), Some(encode_reply(&rs))),
        None => (FrameOutcome::Routed(outcome), None),
    }
}

} // verus!
