//! The mathematical model of the simulation: a generation is a set of live
//! cell coordinates, and `step` maps one generation to the next under the
//! standard birth/survival rules.

use vstd::prelude::*;

verus! {

/// How many snapshots the undo history retains at most.
pub const HISTORY_LIMIT: usize = 255;

/// `b` counted as 0 or 1, for summing neighbor occupancy.
pub open spec fn occ(b: bool) -> int {
    if b {
        1
    } else {
        0
    }
}

/// True when `q` lies in the Moore neighborhood of `p` (the 8 surrounding
/// coordinates, excluding `p` itself).
pub open spec fn is_neighbor(p: (int, int), q: (int, int)) -> bool {
    &&& -1 <= q.0 - p.0 <= 1
    &&& -1 <= q.1 - p.1 <= 1
    &&& q != p
}

/// The number of live neighbors of `p` in generation `s`: the sum, over the
/// 8 cells of `p`'s Moore neighborhood, of their occupancy in `s`.
pub open spec fn live_neighbor_count(s: Set<(int, int)>, p: (int, int)) -> int {
    occ(s.contains((p.0 - 1, p.1 - 1))) + occ(s.contains((p.0, p.1 - 1))) + occ(
        s.contains((p.0 + 1, p.1 - 1)),
    ) + occ(s.contains((p.0 - 1, p.1))) + occ(s.contains((p.0 + 1, p.1))) + occ(
        s.contains((p.0 - 1, p.1 + 1)),
    ) + occ(s.contains((p.0, p.1 + 1))) + occ(s.contains((p.0 + 1, p.1 + 1)))
}

/// Whether the cell at `p` is alive in the generation after `s`:
/// a live cell survives with 2 or 3 live neighbors, a dead cell is born
/// with exactly 3; every other cell is dead.
pub open spec fn next_alive(s: Set<(int, int)>, p: (int, int)) -> bool {
    let n = live_neighbor_count(s, p);
    if s.contains(p) {
        2 <= n <= 3
    } else {
        n == 3
    }
}

/// The generation after `s`. Opaque: proofs that need the pointwise rule
/// reveal it, while proofs about iteration treat a tick as one step.
#[verifier::opaque]
pub open spec fn step(s: Set<(int, int)>) -> Set<(int, int)> {
    Set::new(|p: (int, int)| next_alive(s, p))
}

/// The generation `n` ticks after `s`.
pub open spec fn step_n(s: Set<(int, int)>, n: nat) -> Set<(int, int)>
    decreases n,
{
    if n == 0 {
        s
    } else {
        step(step_n(s, (n - 1) as nat))
    }
}

/// The history sequence after one snapshot of `s` is appended: the oldest
/// entry is evicted first when the buffer is full.
pub open spec fn push_capped(h: Seq<Set<(int, int)>>, s: Set<(int, int)>) -> Seq<Set<(int, int)>> {
    if h.len() < HISTORY_LIMIT {
        h.push(s)
    } else {
        h.drop_first().push(s)
    }
}

/// A cell alive in the next generation has at least one live neighbor in the
/// current one: its neighbor count is 2 or more if it survives and exactly 3
/// if it is born, never 0.
pub proof fn lemma_next_alive_has_live_neighbor(s: Set<(int, int)>, p: (int, int))
    requires
        next_alive(s, p),
    ensures
        exists|l: (int, int)| s.contains(l) && is_neighbor(l, p),
{
    if s.contains((p.0 - 1, p.1 - 1)) {
        assert(s.contains((p.0 - 1, p.1 - 1)) && is_neighbor((p.0 - 1, p.1 - 1), p));
    } else if s.contains((p.0, p.1 - 1)) {
        assert(s.contains((p.0, p.1 - 1)) && is_neighbor((p.0, p.1 - 1), p));
    } else if s.contains((p.0 + 1, p.1 - 1)) {
        assert(s.contains((p.0 + 1, p.1 - 1)) && is_neighbor((p.0 + 1, p.1 - 1), p));
    } else if s.contains((p.0 - 1, p.1)) {
        assert(s.contains((p.0 - 1, p.1)) && is_neighbor((p.0 - 1, p.1), p));
    } else if s.contains((p.0 + 1, p.1)) {
        assert(s.contains((p.0 + 1, p.1)) && is_neighbor((p.0 + 1, p.1), p));
    } else if s.contains((p.0 - 1, p.1 + 1)) {
        assert(s.contains((p.0 - 1, p.1 + 1)) && is_neighbor((p.0 - 1, p.1 + 1), p));
    } else if s.contains((p.0, p.1 + 1)) {
        assert(s.contains((p.0, p.1 + 1)) && is_neighbor((p.0, p.1 + 1), p));
    } else if s.contains((p.0 + 1, p.1 + 1)) {
        assert(s.contains((p.0 + 1, p.1 + 1)) && is_neighbor((p.0 + 1, p.1 + 1), p));
    } else {
        assert(live_neighbor_count(s, p) == 0);
        assert(false);
    }
}

/// Every cell of the next generation lies in the Moore neighborhood of some
/// live cell of the current one; the grid can only grow by one ring per tick.
pub proof fn lemma_step_in_neighborhood(s: Set<(int, int)>)
    ensures
        forall|p: (int, int)|
            step(s).contains(p) ==> exists|l: (int, int)| s.contains(l) && is_neighbor(l, p),
{
    reveal(step);
    assert forall|p: (int, int)| step(s).contains(p) implies exists|l: (int, int)|
        s.contains(l) && is_neighbor(l, p) by {
        lemma_next_alive_has_live_neighbor(s, p);
    }
}

} // verus!
