//! One TCP connection: its protocol state, the send and receive sequence
//! spaces of RFC 793 §3.2, and the processing of inbound segments.
//!
//! Everything a segment may do to a connection is captured by the spec
//! function [`conn_step`]; the executable entry points are proved to follow
//! it exactly, so stale, duplicated or out-of-window traffic provably leaves
//! the connection untouched.

use vstd::prelude::*;

use crate::segment::{ReplySegment, SegView, Segment};
use crate::seq_space::{is_between_wrapped, seq_between, seq_dist};

verus! {

/// The window this endpoint offers to its peers.
pub const LOCAL_WINDOW: u16 = 10;

/// Time-to-live stamped into outbound IPv4 headers.
pub const DEFAULT_TTL: u8 = 64;

/// The RFC 793 connection states.
#[derive(Clone, Copy, Debug, Hash, PartialEq, Eq, Structural)]
pub enum State {
    Closed,
    Listen,
    SynSent,
    SynRcvd,
    Estab,
    FinWait1,
    FinWait2,
    Closing,
    TimeWait,
    CloseWait,
    LastAck,
}

/// Send sequence space (RFC 793 §3.2): bytes in `[una, nxt)` are in flight,
/// bytes in `[nxt, una + wnd)` may still be sent; `iss` is fixed at creation.
#[derive(Clone, Copy, Debug, PartialEq, Eq, Structural)]
pub struct SendSequenceSpace {
    /// Oldest unacknowledged sequence number.
    pub una: u32,
    /// Next sequence number to send.
    pub nxt: u32,
    /// Send window.
    pub wnd: u16,
    /// Send urgent pointer significant.
    pub up: bool,
    /// Segment sequence number used for the last window update.
    pub wl1: u32,
    /// Segment acknowledgment number used for the last window update.
    pub wl2: u32,
    /// Initial send sequence number.
    pub iss: u32,
}

/// Receive sequence space (RFC 793 §3.2): bytes in `[nxt, nxt + wnd)` are
/// acceptable for new reception; `irs` is the peer's initial sequence number.
#[derive(Clone, Copy, Debug, PartialEq, Eq, Structural)]
pub struct RecvSequenceSpace {
    /// Next expected in-order sequence number.
    pub nxt: u32,
    /// Receive window.
    pub wnd: u16,
    /// Receive urgent pointer significant.
    pub up: bool,
    /// Initial receive sequence number.
    pub irs: u32,
}

/// Header template data used to stamp outbound segments of this flow.
#[derive(Clone, Copy, Debug, PartialEq, Eq, Structural)]
pub struct HeaderTemplate {
    pub local_addr: u32,
    pub local_port: u16,
    pub remote_addr: u32,
    pub remote_port: u16,
    pub ttl: u8,
}

/// One TCP flow: state, sequence spaces, header template, and the in-order
/// payload bytes accepted so far (copied out of inbound frames, since a
/// frame's buffer is only valid for the duration of the call).
pub struct Connection {
    pub state: State,
    pub send: SendSequenceSpace,
    pub recv: RecvSequenceSpace,
    pub hdr: HeaderTemplate,
    pub incoming: Vec<u8>,
}

/// Mathematical model of a connection.
#[verifier::ext_equal]
pub struct ConnView {
    pub state: State,
    pub send: SendSequenceSpace,
    pub recv: RecvSequenceSpace,
    pub hdr: HeaderTemplate,
    pub incoming: Seq<u8>,
}

impl View for Connection {
    type V = ConnView;

    open spec fn view(&self) -> ConnView {
        ConnView {
            state: self.state,
            send: self.send,
            recv: self.recv,
            hdr: self.hdr,
            incoming: self.incoming@,
        }
    }
}

/// What a segment reports back: the state was left as it was, a transition
/// happened, or the segment was discarded and why.  Discards are defined
/// protocol outcomes of untrusted traffic, never errors.
#[derive(Clone, Copy, Debug, PartialEq, Eq, Structural)]
pub enum SegmentOutcome {
    /// The acknowledgment number was outside `(SND.UNA, SND.NXT]`.
    AckRejected,
    /// Neither end of the segment fell inside the receive window.
    SeqRejected,
    /// An in-window RST closed the connection.
    Reset,
    Transitioned,
    Unchanged,
}

/// ACK acceptability (RFC 793 §3.3): `SND.UNA < SEG.ACK <= SND.NXT` in
/// circular terms.
pub open spec fn ack_acceptable(c: ConnView, s: SegView) -> bool {
    seq_between(c.send.una, s.ack, c.send.nxt.wrapping_add(1))
}

/// Segment length used by the acceptability test: at least 1 even for a
/// segment carrying only control flags.
pub open spec fn seg_eff_len(s: SegView) -> u32 {
    if s.payload.len() == 0 {
        1u32
    } else {
        s.payload.len() as u32
    }
}

/// Segment sequence acceptability (RFC 793 §3.3): the segment's first or
/// last byte falls in `[RCV.NXT, RCV.NXT + RCV.WND)` in circular terms.
pub open spec fn seq_acceptable(c: ConnView, s: SegView) -> bool {
    let lo = c.recv.nxt.wrapping_sub(1);
    let wend = c.recv.nxt.wrapping_add(c.recv.wnd as u32);
    let last = s.seq.wrapping_add((seg_eff_len(s) - 1) as u32);
    seq_between(lo, s.seq, wend) || seq_between(lo, last, wend)
}

/// A segment that fails one of the two acceptability tests is discarded:
/// the connection is left exactly as it was.
pub open spec fn seg_discarded(c: ConnView, s: SegView) -> bool {
    !ack_acceptable(c, s) || !seq_acceptable(c, s)
}

/// Forward distance from the segment's first byte to the next expected byte:
/// how many leading payload bytes are old news.
pub open spec fn seg_gap(c: ConnView, s: SegView) -> int {
    seq_dist(s.seq, c.recv.nxt) as int
}

/// How many payload bytes are newly accepted: the bytes from `RCV.NXT`
/// onward, truncated to the receive window.  Zero for a segment that starts
/// beyond `RCV.NXT` (out-of-order data is not reassembled here).
pub open spec fn spec_accepted(c: ConnView, s: SegView) -> int {
    let gap = seg_gap(c, s);
    if gap <= s.payload.len() {
        if s.payload.len() - gap <= c.recv.wnd {
            s.payload.len() - gap
        } else {
            c.recv.wnd as int
        }
    } else {
        0
    }
}

/// The segment's FIN is processed only when it is in order: every payload
/// byte up to the FIN was accepted, none truncated away.
pub open spec fn spec_fin_in_order(c: ConnView, s: SegView) -> bool {
    &&& s.fin
    &&& seg_gap(c, s) <= s.payload.len()
    &&& spec_accepted(c, s) == s.payload.len() - seg_gap(c, s)
}

/// Accepting a data segment into the receive space: `RCV.NXT` advances by
/// the newly accepted bytes (plus one for an in-order FIN), and exactly
/// those bytes are appended to the connection's buffer.
pub open spec fn spec_ingest(c: ConnView, s: SegView) -> ConnView {
    let gap = seg_gap(c, s);
    let acc = spec_accepted(c, s);
    let adv = acc + if spec_fin_in_order(c, s) {
        1int
    } else {
        0int
    };
    if gap <= s.payload.len() {
        ConnView {
            recv: RecvSequenceSpace { nxt: c.recv.nxt.wrapping_add(adv as u32), ..c.recv },
            incoming: c.incoming + s.payload.subrange(gap, gap + acc),
            ..c
        }
    } else {
        c
    }
}

/// An empty cumulative ACK advertising this side's current expectations.
pub open spec fn current_ack(c: ConnView) -> ReplySegment {
    ReplySegment {
        src_addr: c.hdr.local_addr,
        dst_addr: c.hdr.remote_addr,
        src_port: c.hdr.local_port,
        dst_port: c.hdr.remote_port,
        seq: c.send.nxt,
        ack: c.recv.nxt,
        syn: false,
        ack_set: true,
        fin: false,
        window: c.send.wnd,
        ttl: c.hdr.ttl,
    }
}

/// How one inbound segment changes a connection: the two acceptability tests
/// first (a failed test leaves the connection untouched), then an in-window
/// RST closes the flow, and otherwise `SND.UNA` records the acknowledgment
/// and the state-dependent transition of RFC 793 runs.  Segments are never
/// routed to `Closed`, `Listen` or `SynSent` connections (the table creates
/// flows in `SynRcvd` and evicts closed ones), so those arms only record the
/// acknowledgment.
pub open spec fn conn_step(c: ConnView, s: SegView) -> ConnView {
    if seg_discarded(c, s) {
        c
    } else if s.rst {
        ConnView { state: State::Closed, ..c }
    } else {
        let c1 = ConnView { send: SendSequenceSpace { una: s.ack, ..c.send }, ..c };
        match c.state {
            State::SynRcvd => ConnView { state: State::Estab, ..c1 },
            State::Estab => {
                let c2 = spec_ingest(c1, s);
                if spec_fin_in_order(c1, s) {
                    ConnView { state: State::CloseWait, ..c2 }
                } else {
                    c2
                }
            },
            State::FinWait1 => {
                let c2 = spec_ingest(c1, s);
                if spec_fin_in_order(c1, s) {
                    ConnView {
                        state: if s.ack == c.send.nxt {
                            State::TimeWait
                        } else {
                            State::Closing
                        },
                        ..c2
                    }
                } else if s.ack == c.send.nxt {
                    ConnView { state: State::FinWait2, ..c2 }
                } else {
                    c2
                }
            },
            State::FinWait2 => {
                let c2 = spec_ingest(c1, s);
                if spec_fin_in_order(c1, s) {
                    ConnView { state: State::TimeWait, ..c2 }
                } else {
                    c2
                }
            },
            State::Closing => {
                if s.ack == c.send.nxt {
                    ConnView { state: State::TimeWait, ..c1 }
                } else {
                    c1
                }
            },
            State::LastAck => {
                if s.ack == c.send.nxt {
                    ConnView { state: State::Closed, ..c1 }
                } else {
                    c1
                }
            },
            _ => c1,
        }
    }
}

/// The outcome reported for one inbound segment.
pub open spec fn conn_outcome(c: ConnView, s: SegView) -> SegmentOutcome {
    if !ack_acceptable(c, s) {
        SegmentOutcome::AckRejected
    } else if !seq_acceptable(c, s) {
        SegmentOutcome::SeqRejected
    } else if s.rst {
        SegmentOutcome::Reset
    } else if conn_step(c, s).state != c.state {
        SegmentOutcome::Transitioned
    } else {
        SegmentOutcome::Unchanged
    }
}

/// The reply owed for one inbound segment: an out-of-window segment draws an
/// empty ACK re-advertising the expected sequence number; accepted data or an
/// in-order FIN draws a cumulative ACK; a retransmitted FIN in `TimeWait` is
/// acknowledged again.
pub open spec fn conn_reply(c: ConnView, s: SegView) -> Option<ReplySegment> {
    if !ack_acceptable(c, s) {
        None
    } else if !seq_acceptable(c, s) {
        Some(current_ack(c))
    } else if s.rst {
        None
    } else {
        match c.state {
            State::Estab | State::FinWait1 | State::FinWait2 => {
                if spec_accepted(c, s) > 0 || spec_fin_in_order(c, s) {
                    Some(current_ack(conn_step(c, s)))
                } else {
                    None
                }
            },
            State::TimeWait => {
                if s.fin {
                    Some(current_ack(c))
                } else {
                    None
                }
            },
            _ => None,
        }
    }
}

/// The connection a first in-window SYN creates: `SynRcvd`, the receive
/// space synchronized to the peer's initial sequence number, the send space
/// fresh at `iss`.
pub open spec fn accept_conn(s: SegView, iss: u32) -> ConnView {
    ConnView {
        state: State::SynRcvd,
        send: SendSequenceSpace {
            una: iss,
            nxt: iss.wrapping_add(1),
            wnd: LOCAL_WINDOW,
            up: false,
            wl1: 0,
            wl2: 0,
            iss: iss,
        },
        recv: RecvSequenceSpace {
            nxt: s.seq.wrapping_add(1),
            wnd: s.window,
            up: false,
            irs: s.seq,
        },
        hdr: HeaderTemplate {
            local_addr: s.dst_addr,
            local_port: s.dst_port,
            remote_addr: s.src_addr,
            remote_port: s.src_port,
            ttl: DEFAULT_TTL,
        },
        incoming: Seq::empty(),
    }
}

/// The SYN+ACK answering an accepted SYN: sequence number `iss`,
/// acknowledgment `RCV.NXT`, window the locally offered one.
pub open spec fn accept_reply(s: SegView, iss: u32) -> ReplySegment {
    ReplySegment {
        src_addr: s.dst_addr,
        dst_addr: s.src_addr,
        src_port: s.dst_port,
        dst_port: s.src_port,
        seq: iss,
        ack: s.seq.wrapping_add(1),
        syn: true,
        ack_set: true,
        fin: false,
        window: LOCAL_WINDOW,
        ttl: DEFAULT_TTL,
    }
}

/// Closing from this end: `Estab` (or `SynRcvd`) moves to `FinWait1` and
/// `CloseWait` to `LastAck`, the FIN taking one sequence number; a flow that
/// never synchronized just closes.
pub open spec fn close_step(c: ConnView) -> ConnView {
    match c.state {
        State::SynRcvd | State::Estab => ConnView {
            state: State::FinWait1,
            send: SendSequenceSpace { nxt: c.send.nxt.wrapping_add(1), ..c.send },
            ..c
        },
        State::CloseWait => ConnView {
            state: State::LastAck,
            send: SendSequenceSpace { nxt: c.send.nxt.wrapping_add(1), ..c.send },
            ..c
        },
        State::Listen | State::SynSent => ConnView { state: State::Closed, ..c },
        _ => c,
    }
}

/// The FIN segment a close emits, when the flow was synchronized.
pub open spec fn close_reply(c: ConnView) -> Option<ReplySegment> {
    match c.state {
        State::SynRcvd | State::Estab | State::CloseWait => Some(
            ReplySegment { fin: true, ..current_ack(c) },
        ),
        _ => None,
    }
}

impl Connection {
    /// Answer a SYN addressed to a quad no connection owns.  Anything
    /// without the SYN flag is rejected with no side effect; a SYN yields
    /// the new `SynRcvd` connection together with the single SYN+ACK owed
    /// to the peer.
    pub fn accept(seg: &Segment, iss: u32) -> (r: Option<(Connection, ReplySegment)>)
        ensures
            r is Some <==> seg.syn,
            r matches Some(p) ==> p.0@ == accept_conn(seg@, iss) && p.1 == accept_reply(seg@, iss),
    {
        if !seg.syn {
            return None;
        }
        let c = Connection {
            state: State::SynRcvd,
            send: SendSequenceSpace {
                una: iss,
                nxt: iss.wrapping_add(1),
                wnd: LOCAL_WINDOW,
                up: false,
                wl1: 0,
                wl2: 0,
                iss: iss,
            },
            recv: RecvSequenceSpace {
                nxt: seg.seq.wrapping_add(1),
                wnd: seg.window,
                up: false,
                irs: seg.seq,
            },
            hdr: HeaderTemplate {
                local_addr: seg.dst_addr,
                local_port: seg.dst_port,
                remote_addr: seg.src_addr,
                remote_port: seg.src_port,
                ttl: DEFAULT_TTL,
            },
            incoming: Vec::new(),
        };
        let rep = ReplySegment {
            src_addr: seg.dst_addr,
            dst_addr: seg.src_addr,
            src_port: seg.dst_port,
            dst_port: seg.src_port,
            seq: iss,
            ack: seg.seq.wrapping_add(1),
            syn: true,
            ack_set: true,
            fin: false,
            window: LOCAL_WINDOW,
            ttl: DEFAULT_TTL,
        };
        proof {
            assert(c@ =~= accept_conn(seg@, iss));
        }
        Some((c, rep))
    }

    /// Process one inbound segment for this connection, exactly as
    /// [`conn_step`] describes, reporting the outcome and the reply owed.
    pub fn on_packet(&mut self, seg: &Segment) -> (r: (SegmentOutcome, Option<ReplySegment>))
        requires
            seg.payload@.len() < 0x1_0000_0000,
        ensures
            final(self)@ == conn_step(old(self)@, seg@),
            r.0 == conn_outcome(old(self)@, seg@),
            r.1 == conn_reply(old(self)@, seg@),
    {
        // ACK acceptability: SND.UNA < SEG.ACK <= SND.NXT.
        if !is_between_wrapped(self.send.una, seg.ack, self.send.nxt.wrapping_add(1)) {
            return (SegmentOutcome::AckRejected, None);
        }
        // Sequence acceptability: first or last byte inside the window.
        let len32: u32 = if seg.payload.len() == 0 {
            1
        } else {
            seg.payload.len() as u32
        };
        let lo: u32 = self.recv.nxt.wrapping_sub(1);
        let wend: u32 = self.recv.nxt.wrapping_add(self.recv.wnd as u32);
        let start_ok = is_between_wrapped(lo, seg.seq, wend);
        let end_ok = is_between_wrapped(lo, seg.seq.wrapping_add(len32 - 1), wend);
        if !start_ok && !end_ok {
            // Out of window: keep everything, re-advertise the expected
            // sequence number.
            let rep = self.make_ack();
            return (SegmentOutcome::SeqRejected, Some(rep));
        }
        if seg.rst {
            self.state = State::Closed;
            return (SegmentOutcome::Reset, None);
        }
        let fin_acked = seg.ack == self.send.nxt;
        self.send.una = seg.ack;
        match self.state {
            State::SynRcvd => {
                self.state = State::Estab;
                (SegmentOutcome::Transitioned, None)
            },
            State::Estab => {
                let (acc, fin_ok) = self.ingest(seg);
                if fin_ok {
                    self.state = State::CloseWait;
                }
                let rep = if acc > 0 || fin_ok {
                    Some(self.make_ack())
                } else {
                    None
                };
                (
                    if fin_ok {
                        SegmentOutcome::Transitioned
                    } else {
                        SegmentOutcome::Unchanged
                    },
                    rep,
                )
            },
            State::FinWait1 => {
                let (acc, fin_ok) = self.ingest(seg);
                if fin_ok {
                    self.state = if fin_acked {
                        State::TimeWait
                    } else {
                        State::Closing
                    };
                } else if fin_acked {
                    self.state = State::FinWait2;
                }
                let rep = if acc > 0 || fin_ok {
                    Some(self.make_ack())
                } else {
                    None
                };
                (
                    if fin_ok || fin_acked {
                        SegmentOutcome::Transitioned
                    } else {
                        SegmentOutcome::Unchanged
                    },
                    rep,
                )
            },
            State::FinWait2 => {
                let (acc, fin_ok) = self.ingest(seg);
                if fin_ok {
                    self.state = State::TimeWait;
                }
                let rep = if acc > 0 || fin_ok {
                    Some(self.make_ack())
                } else {
                    None
                };
                (
                    if fin_ok {
                        SegmentOutcome::Transitioned
                    } else {
                        SegmentOutcome::Unchanged
                    },
                    rep,
                )
            },
            State::Closing => {
                if fin_acked {
                    self.state = State::TimeWait;
                    (SegmentOutcome::Transitioned, None)
                } else {
                    (SegmentOutcome::Unchanged, None)
                }
            },
            State::LastAck => {
                if fin_acked {
                    self.state = State::Closed;
                    (SegmentOutcome::Transitioned, None)
                } else {
                    (SegmentOutcome::Unchanged, None)
                }
            },
            State::TimeWait => {
                let rep = if seg.fin {
                    Some(self.make_ack())
                } else {
                    None
                };
                (SegmentOutcome::Unchanged, rep)
            },
            _ => (SegmentOutcome::Unchanged, None),
        }
    }

    /// Close this end of the flow, returning the FIN owed to the peer.
    pub fn close(&mut self) -> (r: Option<ReplySegment>)
        ensures
            final(self)@ == close_step(old(self)@),
            r == close_reply(old(self)@),
    {
        match self.state {
            State::SynRcvd | State::Estab => {
                let rep = ReplySegment { fin: true, ..self.make_ack() };
                self.state = State::FinWait1;
                self.send.nxt = self.send.nxt.wrapping_add(1);
                Some(rep)
            },
            State::CloseWait => {
                let rep = ReplySegment { fin: true, ..self.make_ack() };
                self.state = State::LastAck;
                self.send.nxt = self.send.nxt.wrapping_add(1);
                Some(rep)
            },
            State::Listen | State::SynSent => {
                self.state = State::Closed;
                None
            },
            _ => None,
        }
    }

    /// Whether the table may drop this connection: it reached `Closed`, or
    /// sits in `TimeWait` awaiting only the (externally timed) quiet period.
    pub fn is_evict_candidate(&self) -> (r: bool)
        ensures
            r == (self@.state == State::Closed || self@.state == State::TimeWait),
    {
        match self.state {
            State::Closed | State::TimeWait => true,
            _ => false,
        }
    }

    /// An empty cumulative ACK for the current state of this flow.
    fn make_ack(&self) -> (r: ReplySegment)
        ensures
            r == current_ack(self@),
    {
        ReplySegment {
            src_addr: self.hdr.local_addr,
            dst_addr: self.hdr.remote_addr,
            src_port: self.hdr.local_port,
            dst_port: self.hdr.remote_port,
            seq: self.send.nxt,
            ack: self.recv.nxt,
            syn: false,
            ack_set: true,
            fin: false,
            window: self.send.wnd,
            ttl: self.hdr.ttl,
        }
    }

    /// Accept the in-order part of the segment's payload: advance `RCV.NXT`,
    /// copy exactly the newly accepted bytes, report how many and whether an
    /// in-order FIN was consumed.
    fn ingest(&mut self, seg: &Segment) -> (r: (u32, bool))
        requires
            seg.payload@.len() < 0x1_0000_0000,
        ensures
            final(self)@ == spec_ingest(old(self)@, seg@),
            r.0 as int == spec_accepted(old(self)@, seg@),
            r.1 == spec_fin_in_order(old(self)@, seg@),
    {
        let plen: u32 = seg.payload.len() as u32;
        let gap32: u32 = self.recv.nxt.wrapping_sub(seg.seq);
        if gap32 > plen {
            return (0, false);
        }
        let rem: u32 = plen - gap32;
        let wnd32: u32 = self.recv.wnd as u32;
        let acc: u32 = if rem <= wnd32 {
            rem
        } else {
            wnd32
        };
        let fin_ok: bool = seg.fin && acc == rem;
        let adv: u32 = if fin_ok {
            acc + 1
        } else {
            acc
        };
        self.recv.nxt = self.recv.nxt.wrapping_add(adv);
        let gap: usize = gap32 as usize;
        let n: usize = acc as usize;
        assert(gap + n <= seg.payload@.len());
        proof {
            assert(self.incoming@ =~= old(self).incoming@ + seg.payload@.subrange(
                gap as int,
                gap as int,
            ));
        }
        let mut i: usize = 0;
        while i < n
            invariant
                i <= n,
                gap + n <= seg.payload@.len(),
                gap + n <= usize::MAX,
                self.incoming@ == old(self).incoming@ + seg.payload@.subrange(
                    gap as int,
                    gap + i,
                ),
                self.state == old(self).state,
                self.send == old(self).send,
                self.recv == (RecvSequenceSpace {
                    nxt: old(self).recv.nxt.wrapping_add(adv),
                    ..old(self).recv
                }),
                self.hdr == old(self).hdr,
            decreases n - i,
        {
            let b: u8 = seg.payload[gap + i];
            self.incoming.push(b);
            proof {
                assert(seg.payload@.subrange(gap as int, gap + i + 1) =~= seg.payload@.subrange(
                    gap as int,
                    gap + i,
                ).push(b));
                assert(self.incoming@ =~= old(self).incoming@ + seg.payload@.subrange(
                    gap as int,
                    gap + i + 1,
                ));
            }
            i += 1;
        }
        proof {
            assert(seg_gap(old(self)@, seg@) == gap as int);
            assert(spec_accepted(old(self)@, seg@) == acc as int);
            assert(spec_fin_in_order(old(self)@, seg@) == fin_ok);
            assert(self@ =~= spec_ingest(old(self)@, seg@));
        }
        (acc, fin_ok)
    }
}

impl Default for Connection {
    /// The listening prototype: `Listen` with zeroed sequence spaces, as a
    /// flow looks before any SYN arrived.
    fn default() -> (r: Connection)
        ensures
            r@.state == State::Listen,
            r@.send == (SendSequenceSpace { una: 0, nxt: 0, wnd: 0, up: false, wl1: 0, wl2: 0, iss: 0 }),
            r@.recv == (RecvSequenceSpace { nxt: 0, wnd: 0, up: false, irs: 0 }),
            r@.hdr == (HeaderTemplate {
                local_addr: 0,
                local_port: 0,
                remote_addr: 0,
                remote_port: 0,
                ttl: DEFAULT_TTL,
            }),
            r@.incoming == Seq::<u8>::empty(),
    {
        Connection {
            state: State::Listen,
            send: SendSequenceSpace { una: 0, nxt: 0, wnd: 0, up: false, wl1: 0, wl2: 0, iss: 0 },
            recv: RecvSequenceSpace { nxt: 0, wnd: 0, up: false, irs: 0 },
            hdr: HeaderTemplate {
                local_addr: 0,
                local_port: 0,
                remote_addr: 0,
                remote_port: 0,
                ttl: DEFAULT_TTL,
            },
            incoming: Vec::new(),
        }
    }
}

/// Replaying the same segment `n` times.
pub open spec fn replay_segments(c: ConnView, s: SegView, n: nat) -> ConnView
    decreases n,
{
    if n == 0 {
        c
    } else {
        conn_step(replay_segments(c, s, (n - 1) as nat), s)
    }
}

/// Idempotence of discard: a segment that fails an acceptability test leaves
/// the connection exactly as it was, so replaying it any number of times
/// never mutates the connection — discard is a pure function of state and
/// segment, not a side-effecting counter.
pub proof fn lemma_discard_idempotent(c: ConnView, s: SegView, n: nat)
    requires
        seg_discarded(c, s),
    ensures
        replay_segments(c, s, n) == c,
    decreases n,
{
    if n > 0 {
        lemma_discard_idempotent(c, s, (n - 1) as nat);
    }
}

} // verus!
