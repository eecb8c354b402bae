use tcp_core::conn::{
    Connection, HeaderTemplate, RecvSequenceSpace, SegmentOutcome, SendSequenceSpace, State,
};
use tcp_core::dispatch::{handle_frame, FrameOutcome};
use tcp_core::segment::{Quad, Segment};
use tcp_core::seq_space::is_between_wrapped;
use tcp_core::table::{ConnectionTable, RouteOutcome};

fn seg(seq: u32, ack: u32, syn: bool, ack_set: bool, fin: bool, rst: bool, window: u16, payload: Vec<u8>) -> Segment {
    Segment {
        src_addr: 0x0102_0304,
        dst_addr: 0x0506_0708,
        src_port: 9000,
        dst_port: 80,
        seq,
        ack,
        syn,
        ack_set,
        fin,
        rst,
        window,
        payload,
    }
}

fn estab_conn() -> Connection {
    Connection {
        state: State::Estab,
        send: SendSequenceSpace { una: 10, nxt: 20, wnd: 10, up: false, wl1: 0, wl2: 0, iss: 0 },
        recv: RecvSequenceSpace { nxt: 1000, wnd: 64, up: false, irs: 999 },
        hdr: HeaderTemplate {
            local_addr: 0x0506_0708,
            local_port: 80,
            remote_addr: 0x0102_0304,
            remote_port: 9000,
            ttl: 64,
        },
        incoming: Vec::new(),
    }
}

#[test]
fn interval_basic() {
    assert!(is_between_wrapped(5, 6, 10));
    assert!(is_between_wrapped(5, 9, 10));
    assert!(!is_between_wrapped(5, 10, 10));
    assert!(!is_between_wrapped(5, 5, 10));
    assert!(!is_between_wrapped(5, 4, 10));
    assert!(!is_between_wrapped(7, 9, 7));
}

#[test]
fn interval_law_offsets() {
    let a: u32 = 0xDEAD_BEEF;
    // d1 == 0 is never inside; 0 < d1 < d2 always is; d1 >= d2 never is.
    assert!(!is_between_wrapped(a, a.wrapping_add(0), a.wrapping_add(7)));
    assert!(is_between_wrapped(a, a.wrapping_add(1), a.wrapping_add(7)));
    assert!(is_between_wrapped(a, a.wrapping_add(6), a.wrapping_add(7)));
    assert!(!is_between_wrapped(a, a.wrapping_add(7), a.wrapping_add(7)));
    assert!(!is_between_wrapped(a, a.wrapping_add(8), a.wrapping_add(7)));
}

#[test]
fn interval_wraparound() {
    assert!(is_between_wrapped(0xFFFF_FFF0, 0xFFFF_FFFF, 5));
    assert!(is_between_wrapped(0xFFFF_FFF0, 0, 5));
    assert!(is_between_wrapped(0xFFFF_FFF0, 4, 5));
    assert!(!is_between_wrapped(0xFFFF_FFF0, 5, 5));
    assert!(!is_between_wrapped(0xFFFF_FFF0, 6, 5));
    assert!(!is_between_wrapped(0xFFFF_FFF0, 0xFFFF_FFEF, 5));
}

#[test]
fn handshake_syn_creates_synrcvd() {
    let s = seg(1000, 0, true, false, false, false, 64, Vec::new());
    let (c, reply) = Connection::accept(&s, 0).expect("SYN must be accepted");
    assert_eq!(c.state, State::SynRcvd);
    assert_eq!(c.recv.irs, 1000);
    assert_eq!(c.recv.nxt, 1001);
    assert_eq!(c.recv.wnd, 64);
    assert_eq!(c.send.iss, 0);
    assert_eq!(c.send.una, 0);
    assert_eq!(c.send.nxt, 1);
    assert!(reply.syn && reply.ack_set && !reply.fin);
    assert_eq!(reply.ack, 1001);
    assert_eq!(reply.seq, 0);
    assert_eq!(reply.src_port, 80);
    assert_eq!(reply.dst_port, 9000);
    assert_eq!(reply.src_addr, 0x0506_0708);
    assert_eq!(reply.dst_addr, 0x0102_0304);
}

#[test]
fn non_syn_to_unknown_quad_rejected() {
    let s = seg(1000, 0, false, true, false, false, 64, Vec::new());
    assert!(Connection::accept(&s, 0).is_none());
}

#[test]
fn ack_completes_handshake() {
    let s = seg(1000, 0, true, false, false, false, 64, Vec::new());
    let (mut c, _) = Connection::accept(&s, 0).unwrap();
    // ACK of our SYN: ack = iss + 1 = 1, seq at the expected 1001.
    let a = seg(1001, 1, false, true, false, false, 64, Vec::new());
    let (outcome, reply) = c.on_packet(&a);
    assert_eq!(outcome, SegmentOutcome::Transitioned);
    assert_eq!(c.state, State::Estab);
    assert_eq!(c.send.una, 1);
    assert!(reply.is_none());
}

#[test]
fn duplicate_earlier_ack_discarded() {
    let s = seg(1000, 0, true, false, false, false, 64, Vec::new());
    let (mut c, _) = Connection::accept(&s, 0).unwrap();
    // ack = iss = send.una fails the strict lower bound.
    let dup = seg(1001, 0, false, true, false, false, 64, Vec::new());
    let (outcome, reply) = c.on_packet(&dup);
    assert_eq!(outcome, SegmentOutcome::AckRejected);
    assert_eq!(c.state, State::SynRcvd);
    assert_eq!(c.send.una, 0);
    assert!(reply.is_none());
}

#[test]
fn out_of_window_segment_dropped() {
    let mut c = estab_conn();
    // Valid ack, but seq 1000 past the 64-byte window.
    let s = seg(2000, 15, false, true, false, false, 64, vec![1, 2, 3]);
    let (outcome, reply) = c.on_packet(&s);
    assert_eq!(outcome, SegmentOutcome::SeqRejected);
    assert_eq!(c.state, State::Estab);
    assert_eq!(c.recv.nxt, 1000);
    assert_eq!(c.send.una, 10);
    assert!(c.incoming.is_empty());
    // The discard re-advertises the expected sequence number.
    let rep = reply.expect("an out-of-window segment draws an empty ACK");
    assert_eq!(rep.ack, 1000);
    assert_eq!(rep.seq, 20);
    assert!(rep.ack_set && !rep.syn && !rep.fin);
}

#[test]
fn discard_is_idempotent() {
    let mut c = estab_conn();
    let stale = seg(2000, 15, false, true, false, false, 64, vec![9, 9]);
    for _ in 0..5 {
        let _ = c.on_packet(&stale);
        assert_eq!(c.state, State::Estab);
        assert_eq!(c.send.una, 10);
        assert_eq!(c.send.nxt, 20);
        assert_eq!(c.recv.nxt, 1000);
        assert!(c.incoming.is_empty());
    }
}

#[test]
fn in_order_data_accepted() {
    let mut c = estab_conn();
    let s = seg(1000, 15, false, true, false, false, 64, vec![1, 2, 3]);
    let (outcome, reply) = c.on_packet(&s);
    assert_eq!(outcome, SegmentOutcome::Unchanged);
    assert_eq!(c.state, State::Estab);
    assert_eq!(c.recv.nxt, 1003);
    assert_eq!(c.send.una, 15);
    assert_eq!(c.incoming, vec![1, 2, 3]);
    let rep = reply.expect("accepted data draws a cumulative ACK");
    assert_eq!(rep.ack, 1003);
    assert!(rep.ack_set && !rep.syn && !rep.fin);
}

#[test]
fn overlapping_segment_trimmed() {
    let mut c = estab_conn();
    let first = seg(1000, 15, false, true, false, false, 64, vec![1, 2, 3]);
    let _ = c.on_packet(&first);
    // Retransmission overlapping two already-accepted bytes.
    let overlap = seg(1001, 16, false, true, false, false, 64, vec![2, 3, 4, 5]);
    let (outcome, _) = c.on_packet(&overlap);
    assert_eq!(outcome, SegmentOutcome::Unchanged);
    assert_eq!(c.recv.nxt, 1005);
    assert_eq!(c.incoming, vec![1, 2, 3, 4, 5]);
}

#[test]
fn out_of_order_data_not_reassembled() {
    let mut c = estab_conn();
    // In window, but a byte is missing before it: nothing is accepted.
    let s = seg(1005, 15, false, true, false, false, 64, vec![7, 8]);
    let (outcome, reply) = c.on_packet(&s);
    assert_eq!(outcome, SegmentOutcome::Unchanged);
    assert_eq!(c.recv.nxt, 1000);
    assert!(c.incoming.is_empty());
    assert!(reply.is_none());
}

#[test]
fn window_truncates_accepted_bytes() {
    let mut c = estab_conn();
    c.recv.wnd = 2;
    let s = seg(1000, 15, false, true, false, false, 64, vec![1, 2, 3, 4]);
    let (_, reply) = c.on_packet(&s);
    assert_eq!(c.recv.nxt, 1002);
    assert_eq!(c.incoming, vec![1, 2]);
    assert_eq!(reply.unwrap().ack, 1002);
}

#[test]
fn fin_moves_to_close_wait_and_last_ack_closes() {
    let mut c = estab_conn();
    let fin = seg(1000, 15, false, true, true, false, 64, Vec::new());
    let (outcome, reply) = c.on_packet(&fin);
    assert_eq!(outcome, SegmentOutcome::Transitioned);
    assert_eq!(c.state, State::CloseWait);
    assert_eq!(c.recv.nxt, 1001);
    assert_eq!(reply.unwrap().ack, 1001);
    // Close our side: FIN goes out, taking one sequence number.
    let fin_out = c.close().expect("closing a synchronized flow emits a FIN");
    assert!(fin_out.fin && fin_out.ack_set);
    assert_eq!(fin_out.seq, 20);
    assert_eq!(c.state, State::LastAck);
    assert_eq!(c.send.nxt, 21);
    // The peer's ACK of our FIN closes the flow.
    let last = seg(1001, 21, false, true, false, false, 64, Vec::new());
    let (outcome, _) = c.on_packet(&last);
    assert_eq!(outcome, SegmentOutcome::Transitioned);
    assert_eq!(c.state, State::Closed);
    assert!(c.is_evict_candidate());
}

#[test]
fn fin_wait_sequence() {
    let mut c = estab_conn();
    let fin_out = c.close().unwrap();
    assert_eq!(c.state, State::FinWait1);
    assert_eq!(c.send.nxt, 21);
    assert!(fin_out.fin);
    // ACK of our FIN moves to FinWait2.
    let a = seg(1000, 21, false, true, false, false, 64, Vec::new());
    let (outcome, _) = c.on_packet(&a);
    assert_eq!(outcome, SegmentOutcome::Transitioned);
    assert_eq!(c.state, State::FinWait2);
    assert_eq!(c.send.una, 21);
}

#[test]
fn simultaneous_close_goes_through_closing() {
    let mut c = estab_conn();
    let _ = c.close().unwrap();
    assert_eq!(c.state, State::FinWait1);
    // The peer's FIN arrives before the ACK of ours: Closing.
    let fin_in = seg(1000, 15, false, true, true, false, 64, Vec::new());
    let (outcome, reply) = c.on_packet(&fin_in);
    assert_eq!(outcome, SegmentOutcome::Transitioned);
    assert_eq!(c.state, State::Closing);
    assert_eq!(reply.unwrap().ack, 1001);
    // The ACK of our FIN then reaches TimeWait.
    let a = seg(1001, 21, false, true, false, false, 64, Vec::new());
    let (outcome, _) = c.on_packet(&a);
    assert_eq!(outcome, SegmentOutcome::Transitioned);
    assert_eq!(c.state, State::TimeWait);
    assert!(c.is_evict_candidate());
}

#[test]
fn fin_wait2_fin_reaches_time_wait() {
    // FinWait2 with in-flight data still unacknowledged, so the peer's FIN
    // can carry an acceptable acknowledgment.
    let mut c = estab_conn();
    c.state = State::FinWait2;
    c.send.nxt = 21;
    let fin_in = seg(1000, 15, false, true, true, false, 64, Vec::new());
    let (outcome, reply) = c.on_packet(&fin_in);
    assert_eq!(outcome, SegmentOutcome::Transitioned);
    assert_eq!(c.state, State::TimeWait);
    assert_eq!(c.recv.nxt, 1001);
    assert_eq!(reply.unwrap().ack, 1001);
}

#[test]
fn rst_closes_connection() {
    let mut c = estab_conn();
    let rst = seg(1000, 15, false, true, false, true, 64, Vec::new());
    let (outcome, reply) = c.on_packet(&rst);
    assert_eq!(outcome, SegmentOutcome::Reset);
    assert_eq!(c.state, State::Closed);
    assert!(reply.is_none());
}

#[test]
fn default_connection_listens() {
    let c = Connection::default();
    assert_eq!(c.state, State::Listen);
    assert_eq!(c.send.iss, 0);
    assert_eq!(c.recv.nxt, 0);
    assert!(c.incoming.is_empty());
    assert!(!c.is_evict_candidate());
}

#[test]
fn quad_from_headers_keeps_endpoints_apart() {
    let ip = tcp_core::segment::Ipv4Fields {
        src: 0x0102_0304,
        dst: 0x0506_0708,
        protocol: 6,
        header_len: 20,
    };
    let tcp = tcp_core::segment::TcpFields {
        src_port: 9000,
        dst_port: 80,
        seq: 1,
        ack: 0,
        syn: true,
        ack_set: false,
        fin: false,
        rst: false,
        window: 64,
        header_len: 20,
    };
    let q = Quad::from_headers(&ip, &tcp);
    assert_eq!(q.src_addr, 0x0102_0304);
    assert_eq!(q.src_port, 9000);
    assert_eq!(q.dst_addr, 0x0506_0708);
    assert_eq!(q.dst_port, 80);
}

#[test]
fn two_remote_peers_get_two_connections() {
    let mut table = ConnectionTable::new(0);
    let quad_a = Quad { src_addr: 0x0102_0304, src_port: 9000, dst_addr: 0x0506_0708, dst_port: 80 };
    let quad_b = Quad { src_addr: 0x0909_0909, src_port: 9000, dst_addr: 0x0506_0708, dst_port: 80 };
    let syn_a = seg(1000, 0, true, false, false, false, 64, Vec::new());
    let mut syn_b = seg(4000, 0, true, false, false, false, 32, Vec::new());
    syn_b.src_addr = 0x0909_0909;
    let (o, r) = table.route(quad_a, &syn_a);
    assert_eq!(o, RouteOutcome::NewConnection);
    assert!(r.is_some());
    let (o, r) = table.route(quad_b, &syn_b);
    assert_eq!(o, RouteOutcome::NewConnection);
    assert!(r.is_some());
    assert_eq!(table.len(), 2);
    // A duplicate SYN for a known quad is routed, not accepted again.
    let (o, _) = table.route(quad_a, &syn_a);
    assert!(matches!(o, RouteOutcome::Delivered(_)));
    assert_eq!(table.len(), 2);
}

#[test]
fn non_syn_to_unknown_quad_leaves_table_alone() {
    let mut table = ConnectionTable::new(0);
    let quad = Quad { src_addr: 1, src_port: 2, dst_addr: 3, dst_port: 4 };
    let s = seg(1000, 0, false, true, false, false, 64, Vec::new());
    let (o, r) = table.route(quad, &s);
    assert_eq!(o, RouteOutcome::RefusedNoSyn);
    assert!(r.is_none());
    assert_eq!(table.len(), 0);
}

#[test]
fn closed_connection_is_evicted() {
    let mut table = ConnectionTable::new(0);
    let quad = Quad { src_addr: 0x0102_0304, src_port: 9000, dst_addr: 0x0506_0708, dst_port: 80 };
    let syn = seg(1000, 0, true, false, false, false, 64, Vec::new());
    let _ = table.route(quad, &syn);
    assert_eq!(table.len(), 1);
    // An in-window RST (ack = iss + 1 = 1, seq at the expected 1001) resets
    // the flow, and the table drops it.
    let rst = seg(1001, 1, false, true, false, true, 64, Vec::new());
    let (o, _) = table.route(quad, &rst);
    assert_eq!(o, RouteOutcome::Delivered(SegmentOutcome::Reset));
    assert_eq!(table.len(), 0);
}

/// A raw 40-byte frame: minimal IPv4 header (proto 6) + minimal TCP header.
fn syn_frame() -> Vec<u8> {
    let mut b = vec![0u8; 40];
    b[0] = 0x45; // version 4, ihl 5
    b[9] = 6; // TCP
    b[12..16].copy_from_slice(&[1, 2, 3, 4]); // source address
    b[16..20].copy_from_slice(&[5, 6, 7, 8]); // destination address
    // TCP at offset 20.
    b[20..22].copy_from_slice(&9000u16.to_be_bytes()); // source port
    b[22..24].copy_from_slice(&80u16.to_be_bytes()); // destination port
    b[24..28].copy_from_slice(&1000u32.to_be_bytes()); // sequence number
    b[32] = 0x50; // data offset 5
    b[33] = 0x02; // SYN
    b[34..36].copy_from_slice(&64u16.to_be_bytes()); // window
    b
}

#[test]
fn frame_handshake_emits_wire_syn_ack() {
    let mut table = ConnectionTable::new(0);
    let frame = syn_frame();
    let (outcome, reply) = handle_frame(&mut table, &frame);
    assert_eq!(outcome, FrameOutcome::Routed(RouteOutcome::NewConnection));
    assert_eq!(table.len(), 1);
    let bytes = reply.expect("a SYN draws a SYN+ACK");
    assert_eq!(bytes.len(), 40);
    // The reply must parse back as IPv4 + TCP with the endpoints swapped.
    let iph = etherparse::Ipv4HeaderSlice::from_slice(&bytes).expect("reply IPv4 header");
    assert_eq!(iph.source(), [5, 6, 7, 8]);
    assert_eq!(iph.destination(), [1, 2, 3, 4]);
    assert_eq!(iph.protocol().0, 6);
    let tcph = etherparse::TcpHeaderSlice::from_slice(&bytes[20..]).expect("reply TCP header");
    assert_eq!(tcph.source_port(), 80);
    assert_eq!(tcph.destination_port(), 9000);
    assert!(tcph.syn() && tcph.ack());
    assert_eq!(tcph.acknowledgment_number(), 1001);
    assert_eq!(tcph.sequence_number(), 0);
}

#[test]
fn frame_classification() {
    let mut table = ConnectionTable::new(0);
    // Too short for an IPv4 header.
    let (o, r) = handle_frame(&mut table, &[0x45, 0, 0]);
    assert_eq!(o, FrameOutcome::BadIpv4Header);
    assert!(r.is_none());
    // Well-formed IPv4, but not TCP.
    let mut udp = syn_frame();
    udp[9] = 17;
    let (o, _) = handle_frame(&mut table, &udp);
    assert_eq!(o, FrameOutcome::NotTcp);
    // TCP, but the header is truncated.
    let short = &syn_frame()[..30];
    let (o, _) = handle_frame(&mut table, short);
    assert_eq!(o, FrameOutcome::BadTcpHeader);
    assert_eq!(table.len(), 0);
}
