//! The connection table: exclusive owner of every live connection, keyed by
//! quad.  It routes each inbound segment either to the connection that owns
//! its quad or to a fresh accept attempt, and evicts flows that reach
//! `Closed`.  Lookup and insert happen inside one call, so a SYN can never
//! create two connections for the same quad.

use vstd::prelude::*;

use crate::conn::{
    accept_conn, accept_reply, conn_outcome, conn_reply, conn_step, ConnView, Connection,
    SegmentOutcome, State,
};
use crate::segment::{quad_of, Ipv4Fields, Quad, ReplySegment, SegView, Segment, TcpFields};

verus! {

/// What routing one segment did to the table.
#[derive(Clone, Copy, Debug, PartialEq, Eq, Structural)]
pub enum RouteOutcome {
    /// A SYN to an unknown quad created a connection.
    NewConnection,
    /// A non-SYN segment to an unknown quad was dropped with no side effect.
    RefusedNoSyn,
    /// The segment reached the connection owning its quad.
    Delivered(SegmentOutcome),
}

/// Some entry of the table owns this quad.
pub open spec fn tbl_has(t: Seq<(Quad, ConnView)>, q: Quad) -> bool {
    exists|i: int| 0 <= i < t.len() && t[i].0 == q
}

/// The entry owning this quad (unique in a well-formed table).
pub open spec fn tbl_idx(t: Seq<(Quad, ConnView)>, q: Quad) -> int {
    choose|i: int| 0 <= i < t.len() && t[i].0 == q
}

/// Well-formedness: no two entries share a quad, so the table is a mapping
/// and each flow has exactly one home.
pub open spec fn tbl_wf(t: Seq<(Quad, ConnView)>) -> bool {
    forall|i: int, j: int| 0 <= i < j < t.len() ==> t[i].0 != t[j].0
}

/// How one routed segment changes the table: the owning connection steps (and
/// is evicted if it reached `Closed`); an unknown quad gains a connection
/// only for a SYN.
pub open spec fn table_step(t: Seq<(Quad, ConnView)>, q: Quad, s: SegView, iss: u32) -> Seq<
    (Quad, ConnView),
> {
    if tbl_has(t, q) {
        let i = tbl_idx(t, q);
        let c2 = conn_step(t[i].1, s);
        if c2.state == State::Closed {
            t.remove(i)
        } else {
            t.update(i, (q, c2))
        }
    } else if s.syn {
        t.push((q, accept_conn(s, iss)))
    } else {
        t
    }
}

/// The outcome routing reports.
pub open spec fn table_outcome(t: Seq<(Quad, ConnView)>, q: Quad, s: SegView) -> RouteOutcome {
    if tbl_has(t, q) {
        RouteOutcome::Delivered(conn_outcome(t[tbl_idx(t, q)].1, s))
    } else if s.syn {
        RouteOutcome::NewConnection
    } else {
        RouteOutcome::RefusedNoSyn
    }
}

/// The reply owed for one routed segment.
pub open spec fn table_reply(t: Seq<(Quad, ConnView)>, q: Quad, s: SegView, iss: u32) -> Option<
    ReplySegment,
> {
    if tbl_has(t, q) {
        conn_reply(t[tbl_idx(t, q)].1, s)
    } else if s.syn {
        Some(accept_reply(s, iss))
    } else {
        None
    }
}

/// The table of live connections, and the initial sequence number handed to
/// freshly accepted flows (its generation — clock, keyed hash — is the
/// caller's collaborator, not this core's).
pub struct ConnectionTable {
    pub entries: Vec<(Quad, Connection)>,
    pub iss: u32,
}

impl View for ConnectionTable {
    type V = Seq<(Quad, ConnView)>;

    open spec fn view(&self) -> Seq<(Quad, ConnView)> {
        self.entries@.map_values(|e: (Quad, Connection)| (e.0, e.1@))
    }
}

impl ConnectionTable {
    /// No two entries share a quad.
    pub open spec fn wf(&self) -> bool {
        tbl_wf(self@)
    }

    /// An empty table; `iss` seeds every accepted connection.
    pub fn new(iss: u32) -> (r: ConnectionTable)
        ensures
            r@ == Seq::<(Quad, ConnView)>::empty(),
            r.wf(),
            r.iss == iss,
    {
        let r = ConnectionTable { entries: Vec::new(), iss };
        proof {
            assert(r@ =~= Seq::<(Quad, ConnView)>::empty());
        }
        r
    }

    /// How many connections are live.
    pub fn len(&self) -> (r: usize)
        ensures
            r == self@.len(),
    {
        self.entries.len()
    }

    /// The index of the entry owning `quad`, if any.
    fn find(&self, quad: &Quad) -> (r: Option<usize>)
        ensures
            r matches Some(i) ==> 0 <= i < self@.len() && self@[i as int].0 == *quad,
            r is None ==> !tbl_has(self@, *quad),
    {
        let n = self.entries.len();
        let mut k: usize = 0;
        while k < n
            invariant
                k <= n,
                n == self.entries@.len(),
                forall|j: int| 0 <= j < k ==> self.entries@[j].0 != *quad,
            decreases n - k,
        {
            if self.entries[k].0 == *quad {
                return Some(k);
            }
            k += 1;
        }
        None
    }

    /// Route one inbound segment: deliver it to the connection owning its
    /// quad (evicting the connection if it closes), or accept a SYN to an
    /// unknown quad, inserting the new connection under that quad — lookup
    /// and insert in one read-modify-write, so no quad ever gets two entries.
    pub fn route(&mut self, quad: Quad, seg: &Segment) -> (r: (
        RouteOutcome,
        Option<ReplySegment>,
    ))
        requires
            old(self).wf(),
            seg.payload@.len() < 0x1_0000_0000,
        ensures
            final(self).wf(),
            final(self).iss == old(self).iss,
            final(self)@ == table_step(old(self)@, quad, seg@, old(self).iss),
            r.0 == table_outcome(old(self)@, quad, seg@),
            r.1 == table_reply(old(self)@, quad, seg@, old(self).iss),
    {
        let ghost t0 = self@;
        match self.find(&quad) {
            Some(i) => {
                proof {
                    assert(tbl_has(t0, quad));
                    let ch = tbl_idx(t0, quad);
                    if ch < i as int {
                        assert(t0[ch].0 != t0[i as int].0);
                        assert(false);
                    } else if ch > i as int {
                        assert(t0[i as int].0 != t0[ch].0);
                        assert(false);
                    }
                }
                let mut entry = self.entries.remove(i);
                let (outcome, rep) = entry.1.on_packet(seg);
                let ghost c2 = conn_step(t0[i as int].1, seg@);
                if matches!(entry.1.state, State::Closed) {
                    proof {
                        assert(self@ =~= t0.remove(i as int));
                        lemma_wf_remove(t0, i as int);
                    }
                } else {
                    self.entries.insert(i, entry);
                    proof {
                        assert(self@ =~= t0.update(i as int, (quad, c2)));
                        assert forall|a: int, b: int|
                            0 <= a < b < self@.len() implies self@[a].0 != self@[b].0 by {
                            assert(self@[a].0 == t0[a].0);
                            assert(self@[b].0 == t0[b].0);
                        }
                    }
                }
                (RouteOutcome::Delivered(outcome), rep)
            },
            None => {
                match Connection::accept(seg, self.iss) {
                    Some((c, rep)) => {
                        let ghost cv = c@;
                        self.entries.push((quad, c));
                        proof {
                            assert(self@ =~= t0.push((quad, cv)));
                            assert forall|a: int, b: int|
                                0 <= a < b < self@.len() implies self@[a].0 != self@[b].0 by {
                                if b < t0.len() {
                                    assert(self@[a].0 == t0[a].0);
                                    assert(self@[b].0 == t0[b].0);
                                } else {
                                    assert(self@[a].0 == t0[a].0);
                                    assert(self@[b].0 == quad);
                                }
                            }
                        }
                        (RouteOutcome::NewConnection, Some(rep))
                    },
                    None => (RouteOutcome::RefusedNoSyn, None),
                }
            },
        }
    }
}

/// Removing an entry keeps the remaining quads pairwise distinct.
proof fn lemma_wf_remove(t: Seq<(Quad, ConnView)>, i: int)
    requires
        tbl_wf(t),
        0 <= i < t.len(),
    ensures
        tbl_wf(t.remove(i)),
{
    let r = t.remove(i);
    assert forall|a: int, b: int| 0 <= a < b < r.len() implies r[a].0 != r[b].0 by {
        assert(r[a] == (if a < i {
            t[a]
        } else {
            t[a + 1]
        }));
        assert(r[b] == (if b < i {
            t[b]
        } else {
            t[b + 1]
        }));
    }
}

/// Routing SYNs for two distinct quads into a table that knows neither
/// creates two distinct entries, one per quad: no peer's connection ever
/// shadows another's.
pub proof fn lemma_two_peers_two_entries(
    t: Seq<(Quad, ConnView)>,
    q1: Quad,
    q2: Quad,
    s1: SegView,
    s2: SegView,
    iss: u32,
)
    requires
        q1 != q2,
        !tbl_has(t, q1),
        !tbl_has(t, q2),
        s1.syn,
        s2.syn,
    ensures
        ({
            let t2 = table_step(table_step(t, q1, s1, iss), q2, s2, iss);
            &&& t2.len() == t.len() + 2
            &&& tbl_has(t2, q1)
            &&& tbl_has(t2, q2)
            &&& tbl_idx(t2, q1) != tbl_idx(t2, q2)
        }),
{
    let t1 = table_step(t, q1, s1, iss);
    assert(t1 == t.push((q1, accept_conn(s1, iss))));
    assert(!tbl_has(t1, q2)) by {
        assert forall|i: int| 0 <= i < t1.len() implies t1[i].0 != q2 by {
            if i < t.len() {
                assert(t1[i] == t[i]);
            }
        }
    }
    let t2 = table_step(t1, q2, s2, iss);
    assert(t2 == t1.push((q2, accept_conn(s2, iss))));
    assert(t2[t.len() as int].0 == q1);
    assert(t2[t.len() as int + 1].0 == q2);
    let i1 = tbl_idx(t2, q1);
    let i2 = tbl_idx(t2, q2);
    assert(t2[i1].0 == q1 && t2[i2].0 == q2);
}

/// Quad uniqueness: segments from two distinct remote peers — even aimed at
/// the same local address and port — carry distinct quads, so in a
/// well-formed table their connections live in two distinct entries.
pub proof fn lemma_quad_uniqueness(
    t: Seq<(Quad, ConnView)>,
    ip1: Ipv4Fields,
    tcp1: TcpFields,
    ip2: Ipv4Fields,
    tcp2: TcpFields,
    i: int,
    j: int,
)
    requires
        tbl_wf(t),
        ip1.src != ip2.src || tcp1.src_port != tcp2.src_port,
        0 <= i < t.len(),
        0 <= j < t.len(),
        t[i].0 == quad_of(ip1, tcp1),
        t[j].0 == quad_of(ip2, tcp2),
    ensures
        quad_of(ip1, tcp1) != quad_of(ip2, tcp2),
        i != j,
{
}

} // verus!
