//! Wraparound-safe arithmetic over the circular 32-bit TCP sequence space.
//!
//! The single primitive is the strict circular-interval membership test of
//! RFC 1982-style serial-number comparison: `x` lies strictly after `start`
//! and strictly before `end` when walking forward around the circle.

use vstd::prelude::*;

verus! {

/// Forward distance from `a` to `b` on the circle of 32-bit sequence numbers.
pub open spec fn seq_dist(a: u32, b: u32) -> u32 {
    b.wrapping_sub(a)
}

/// `x` lies in the circular interval that opens just after `start` and closes
/// just before `end`: the forward distance from `start` to `x` is positive and
/// smaller than the forward distance from `start` to `end`.  Empty when
/// `start == end` (a zero-length interval admits nothing).
pub open spec fn seq_between(start: u32, x: u32, end: u32) -> bool {
    x != start && seq_dist(start, x) < seq_dist(start, end)
}

/// Circular-interval membership test over wrapping 32-bit sequence numbers.
pub fn is_between_wrapped(start: u32, x: u32, end: u32) -> (r: bool)
    ensures
        r == seq_between(start, x, end),
{
    x != start && x.wrapping_sub(start) < end.wrapping_sub(start)
}

/// Walking forward by `d` from any anchor covers a forward distance of
/// exactly `d`.
pub proof fn lemma_dist_of_add(a: u32, d: u32)
    ensures
        seq_dist(a, a.wrapping_add(d)) == d,
{
}

/// Sequence interval law: from any anchor `a`, the point `d1` steps forward
/// lies strictly inside the interval ending `d2` steps forward exactly when
/// `0 < d1 < d2`.
pub proof fn lemma_interval_law(a: u32, d1: u32, d2: u32)
    ensures
        seq_between(a, a.wrapping_add(d1), a.wrapping_add(d2)) <==> (0 < d1 && d1 < d2),
{
    lemma_dist_of_add(a, d1);
    lemma_dist_of_add(a, d2);
}

/// Wraparound symmetry: the membership test only depends on forward
/// distances, so shifting all three points by a common offset around the
/// circle never changes the answer.  In particular crossing the
/// `u32::MAX`/zero boundary is no different from any other region.
pub proof fn lemma_shift_invariance(start: u32, x: u32, end: u32, k: u32)
    ensures
        seq_between(start.wrapping_add(k), x.wrapping_add(k), end.wrapping_add(k)) == seq_between(
            start,
            x,
            end,
        ),
{
}

} // verus!
