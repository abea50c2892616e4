//! The sparse board: a set of live cell coordinates, the tick engine that
//! advances it one generation, and the bounded undo history.

use crate::rules::{
    is_neighbor, live_neighbor_count, next_alive, push_capped, step, HISTORY_LIMIT,
};
use vstd::prelude::*;

verus! {

/// The coordinates of one live cell. Cells enter the board through the
/// `i32` public interface, but are stored widened so that the tick engine
/// can form neighbor coordinates without overflow.
#[derive(Clone, Copy, PartialEq, Eq, Structural, Debug, Hash)]
struct Coord {
    x: i64,
    y: i64,
}

/// The coordinate pair a stored cell denotes.
spec fn coord_pair(c: Coord) -> (int, int) {
    (c.x as int, c.y as int)
}

/// A cell's state as one byte of a flat window buffer.
pub open spec fn cell_byte(alive: bool) -> u8 {
    if alive {
        1
    } else {
        0
    }
}

/// The byte a window over `s` with origin `(ox, oy)` holds for the cell
/// `(ox + dx, oy + dy)`: 1 when that cell is alive, 0 when it is dead.
pub open spec fn window_byte(s: Set<(int, int)>, ox: int, oy: int, dx: int, dy: int) -> u8 {
    cell_byte(s.contains((ox + dx, oy + dy)))
}

/// Whether some entry of `s` denotes the coordinate pair `p`.
spec fn seq_has_coord(s: Seq<Coord>, p: (int, int)) -> bool {
    exists|i: int| 0 <= i < s.len() && coord_pair(#[trigger] s[i]) == p
}

/// The set of coordinate pairs a sequence of stored cells denotes.
spec fn coords_of(s: Seq<Coord>) -> Set<(int, int)> {
    Set::new(|p: (int, int)| seq_has_coord(s, p))
}

/// Coordinates far enough from the edge of `i64` that a tick, which looks
/// one cell outward from every live cell and one further when counting the
/// neighbors of a candidate, stays within the machine range.
pub open spec fn coord_in_range(p: (int, int)) -> bool {
    &&& i64::MIN + 2 <= p.0 <= i64::MAX - 2
    &&& i64::MIN + 2 <= p.1 <= i64::MAX - 2
}

/// Every live cell of `s` is far enough from the edge of the machine range.
pub open spec fn in_range(s: Set<(int, int)>) -> bool {
    forall|p: (int, int)| s.contains(p) ==> coord_in_range(p)
}

/// One step looser than `coord_in_range`: where a live cell's neighbors can
/// lie. Their own neighbor coordinates still fit in `i64`.
spec fn coord_near_range(p: (int, int)) -> bool {
    &&& i64::MIN + 1 <= p.0 <= i64::MAX - 1
    &&& i64::MIN + 1 <= p.1 <= i64::MAX - 1
}

/// The 8 entries of `s` starting at `base` are exactly the Moore
/// neighborhood of `p`, in row order.
spec fn neighbors_at(s: Seq<Coord>, base: int, p: (int, int)) -> bool {
    &&& 0 <= base
    &&& base + 8 <= s.len()
    &&& coord_pair(s[base]) == (p.0 - 1, p.1 - 1)
    &&& coord_pair(s[base + 1]) == (p.0, p.1 - 1)
    &&& coord_pair(s[base + 2]) == (p.0 + 1, p.1 - 1)
    &&& coord_pair(s[base + 3]) == (p.0 - 1, p.1)
    &&& coord_pair(s[base + 4]) == (p.0 + 1, p.1)
    &&& coord_pair(s[base + 5]) == (p.0 - 1, p.1 + 1)
    &&& coord_pair(s[base + 6]) == (p.0, p.1 + 1)
    &&& coord_pair(s[base + 7]) == (p.0 + 1, p.1 + 1)
}

/// A row-major window index for a row strictly below `rows` stays strictly
/// below the first `rows` full rows.
proof fn lemma_row_index_bound(dx: int, dy: int, w: int, rows: int)
    by (nonlinear_arith)
    requires
        0 <= dx < w,
        0 <= dy < rows,
    ensures
        0 <= dy * w + dx < rows * w,
{
}

/// A block of 8 store entries that is a cell's Moore neighborhood contains
/// every neighbor of that cell.
proof fn lemma_neighbors_at_covers(s: Seq<Coord>, base: int, p: (int, int), q: (int, int))
    requires
        neighbors_at(s, base, p),
        is_neighbor(p, q),
    ensures
        seq_has_coord(s, q),
{
    let dx = q.0 - p.0;
    let dy = q.1 - p.1;
    if dy == -1 {
        if dx == -1 {
            assert(coord_pair(s[base]) == q);
        } else if dx == 0 {
            assert(coord_pair(s[base + 1]) == q);
        } else {
            assert(coord_pair(s[base + 2]) == q);
        }
    } else if dy == 0 {
        if dx == -1 {
            assert(coord_pair(s[base + 3]) == q);
        } else {
            assert(coord_pair(s[base + 4]) == q);
        }
    } else {
        if dx == -1 {
            assert(coord_pair(s[base + 5]) == q);
        } else if dx == 0 {
            assert(coord_pair(s[base + 6]) == q);
        } else {
            assert(coord_pair(s[base + 7]) == q);
        }
    }
}

/// Conway's Game of Life on an unbounded grid. The board holds exactly the
/// live cells; absence means dead. Each tick first snapshots the board into
/// a bounded first-in-first-out history, from which `undo` restores.
#[derive(Debug)]
pub struct GameOfLife {
    cells: Vec<Coord>,
    history: Vec<Vec<Coord>>,
}

impl View for GameOfLife {
    type V = Set<(int, int)>;

    /// The board abstractly: its set of live cell coordinates.
    closed spec fn view(&self) -> Set<(int, int)> {
        coords_of(self.cells@)
    }
}

impl GameOfLife {
    /// The retained snapshots, oldest first, each as its set of live cells.
    pub closed spec fn history(&self) -> Seq<Set<(int, int)>> {
        self.history@.map_values(|v: Vec<Coord>| coords_of(v@))
    }

    /// Internal invariant: no cell is stored twice, in the board or in any
    /// snapshot, and the history never exceeds its capacity.
    pub closed spec fn wf(&self) -> bool {
        &&& self.cells@.no_duplicates()
        &&& self.history@.len() <= HISTORY_LIMIT
        &&& forall|i: int|
            0 <= i < self.history@.len() ==> (#[trigger] self.history@[i])@.no_duplicates()
    }

    /// Creates a new, empty game board with an empty history.
    pub fn new() -> (r: Self)
        ensures
            r@ == Set::<(int, int)>::empty(),
            r.history() == Seq::<Set<(int, int)>>::empty(),
            r.wf(),
    {
        let r = GameOfLife { cells: Vec::new(), history: Vec::new() };
        proof {
            assert(r@ =~= Set::<(int, int)>::empty());
            assert(r.history() =~= Seq::<Set<(int, int)>>::empty());
        }
        r
    }

    /// Whether `v` stores a cell at `(x, y)`.
    fn contains_cell(v: &Vec<Coord>, x: i64, y: i64) -> (r: bool)
        ensures
            r == coords_of(v@).contains((x as int, y as int)),
    {
        let mut i: usize = 0;
        while i < v.len()
            invariant
                i <= v@.len(),
                forall|k: int| 0 <= k < i ==> coord_pair(#[trigger] v@[k]) != (x as int, y as int),
            decreases v@.len() - i,
        {
            if v[i].x == x && v[i].y == y {
                proof {
                    assert(coord_pair(v@[i as int]) == (x as int, y as int));
                }
                return true;
            }
            i += 1;
        }
        false
    }

    /// Returns whether the cell at `(x, y)` is alive.
    pub fn get(&self, x: i32, y: i32) -> (r: bool)
        ensures
            r == self@.contains((x as int, y as int)),
    {
        Self::contains_cell(&self.cells, x as i64, y as i64)
    }

    /// Marks the cell at `(x, y)` as alive; no effect if it already is.
    pub fn set(&mut self, x: i32, y: i32)
        requires
            old(self).wf(),
        ensures
            final(self).wf(),
            final(self)@ == old(self)@.insert((x as int, y as int)),
            final(self).history() == old(self).history(),
    {
        if !Self::contains_cell(&self.cells, x as i64, y as i64) {
            let c = Coord { x: x as i64, y: y as i64 };
            proof {
                lemma_coords_push(self.cells@, c);
            }
            self.cells.push(c);
        } else {
            proof {
                assert(self@ =~= self@.insert((x as int, y as int)));
            }
        }
    }

    /// Marks the cell at `(x, y)` as dead; no effect if it already is.
    #[verifier::loop_isolation(false)]
    pub fn unset(&mut self, x: i32, y: i32)
        requires
            old(self).wf(),
        ensures
            final(self).wf(),
            final(self)@ == old(self)@.remove((x as int, y as int)),
            final(self).history() == old(self).history(),
    {
        let mut i: usize = 0;
        while i < self.cells.len()
            invariant
                self == old(self),
                i <= self.cells@.len(),
                forall|k: int|
                    0 <= k < i ==> coord_pair(#[trigger] self.cells@[k]) != (
                        x as int,
                        y as int,
                    ),
            decreases self.cells@.len() - i,
        {
            if self.cells[i].x == x as i64 && self.cells[i].y == y as i64 {
                proof {
                    lemma_coords_remove_at(self.cells@, i as int);
                }
                self.cells.remove(i);
                return ;
            }
            i += 1;
        }
        proof {
            assert(self@ =~= self@.remove((x as int, y as int)));
        }
    }

    /// Flips the cell at `(x, y)` and returns its new state: true when the
    /// toggle brought it to life, false when it killed it.
    pub fn toggle(&mut self, x: i32, y: i32) -> (r: bool)
        requires
            old(self).wf(),
        ensures
            final(self).wf(),
            r == !old(self)@.contains((x as int, y as int)),
            final(self)@ == (if r {
                old(self)@.insert((x as int, y as int))
            } else {
                old(self)@.remove((x as int, y as int))
            }),
            final(self)@.contains((x as int, y as int)) == r,
            final(self).history() == old(self).history(),
    {
        if self.get(x, y) {
            self.unset(x, y);
            false
        } else {
            self.set(x, y);
            true
        }
    }

    /// Removes all live cells; the board is as freshly constructed, though
    /// the history is kept.
    pub fn clear(&mut self)
        requires
            old(self).wf(),
        ensures
            final(self).wf(),
            final(self)@ == Set::<(int, int)>::empty(),
            final(self).history() == old(self).history(),
    {
        self.cells.clear();
        proof {
            assert(self@ =~= Set::<(int, int)>::empty());
        }
    }

    /// Serializes a `width` by `height` window starting at the origin into a
    /// flat row-major buffer of 0s and 1s.
    pub fn cells(&self, width: i32, height: i32) -> (r: Vec<u8>)
        requires
            width >= 0,
            height >= 0,
            width as int * height as int <= usize::MAX as int,
        ensures
            r@.len() == width as int * height as int,
            forall|dx: int, dy: int|
                0 <= dx < width && 0 <= dy < height ==> r@[dy * width + dx] == #[trigger] window_byte(
                    self@,
                    0,
                    0,
                    dx,
                    dy,
                ),
    {
        self.cells_at(width, height, 0, 0)
    }

    /// Serializes a `width` by `height` window starting at
    /// `(origin_x, origin_y)` into a flat buffer: one entry per cell, rows
    /// from the origin upward, each row left to right, 1 for alive and 0 for
    /// dead.
    #[verifier::loop_isolation(false)]
    pub fn cells_at(&self, width: i32, height: i32, origin_x: i32, origin_y: i32) -> (r: Vec<u8>)
        requires
            width >= 0,
            height >= 0,
            width as int * height as int <= usize::MAX as int,
        ensures
            r@.len() == width as int * height as int,
            forall|dx: int, dy: int|
                0 <= dx < width && 0 <= dy < height ==> r@[dy * width + dx]
                    == #[trigger] window_byte(self@, origin_x as int, origin_y as int, dx, dy),
    {
        let mut r: Vec<u8> = Vec::new();
        let mut y: i32 = 0;
        while y < height
            invariant
                0 <= y <= height,
                r@.len() == y as int * width as int,
                forall|dx: int, dy: int|
                    0 <= dx < width && 0 <= dy < y ==> r@[dy * width + dx]
                        == #[trigger] window_byte(self@, origin_x as int, origin_y as int, dx, dy),
            decreases height - y,
        {
            let mut x: i32 = 0;
            while x < width
                invariant
                    0 <= x <= width,
                    0 <= y < height,
                    r@.len() == y as int * width as int + x as int,
                    forall|dx: int, dy: int|
                        0 <= dx < width && 0 <= dy < y ==> r@[dy * width + dx]
                            == #[trigger] window_byte(self@, origin_x as int, origin_y as int, dx, dy),
                    forall|dx: int|
                        0 <= dx < x ==> r@[y as int * width as int + dx]
                            == #[trigger] window_byte(self@, origin_x as int, origin_y as int, dx, y as int),
                decreases width - x,
            {
                let alive = Self::contains_cell(
                    &self.cells,
                    origin_x as i64 + x as i64,
                    origin_y as i64 + y as i64,
                );
                r.push(if alive { 1 } else { 0 });
                proof {
                    assert forall|dx: int, dy: int| 0 <= dx < width && 0 <= dy < y implies r@[dy
                        * width + dx] == #[trigger] window_byte(
                        self@,
                        origin_x as int,
                        origin_y as int,
                        dx,
                        dy,
                    ) by {
                        lemma_row_index_bound(dx, dy, width as int, y as int);
                    }
                }
                x += 1;
            }
            y += 1;
            proof {
                assert(y as int * width as int == (y - 1) as int * width as int + width as int)
                    by (nonlinear_arith);
            }
        }
        proof {
            assert(height as int * width as int == width as int * height as int)
                by (nonlinear_arith);
        }
        r
    }

    /// Whether every cell stored in `a` also lives in `b`.
    fn cells_subset(a: &Vec<Coord>, b: &Vec<Coord>) -> (r: bool)
        ensures
            r == coords_of(a@).subset_of(coords_of(b@)),
    {
        let mut i: usize = 0;
        while i < a.len()
            invariant
                i <= a@.len(),
                forall|k: int|
                    0 <= k < i ==> coords_of(b@).contains(coord_pair(#[trigger] a@[k])),
            decreases a@.len() - i,
        {
            let c = a[i];
            if !Self::contains_cell(b, c.x, c.y) {
                proof {
                    assert(coords_of(a@).contains(coord_pair(a@[i as int])));
                }
                return false;
            }
            i += 1;
        }
        proof {
            assert forall|p: (int, int)| coords_of(a@).contains(p) implies coords_of(
                b@,
            ).contains(p) by {
                let k = choose|k: int| 0 <= k < a@.len() && coord_pair(#[trigger] a@[k]) == p;
                assert(coords_of(b@).contains(coord_pair(a@[k])));
            }
        }
        true
    }

    /// Structural equality: two boards are the same state exactly when their
    /// live-cell sets are identical. History plays no part.
    pub fn same_state(&self, other: &GameOfLife) -> (r: bool)
        ensures
            r == (self@ == other@),
    {
        let fwd = Self::cells_subset(&self.cells, &other.cells);
        let bwd = Self::cells_subset(&other.cells, &self.cells);
        proof {
            if fwd && bwd {
                assert(self@ =~= other@);
            }
        }
        fwd && bwd
    }

    /// The 8 cells of the Moore neighborhood of `(x, y)`, in row order.
    fn get_neighbors(x: i64, y: i64) -> (r: Vec<Coord>)
        requires
            i64::MIN < x < i64::MAX,
            i64::MIN < y < i64::MAX,
        ensures
            r@.len() == 8,
            neighbors_at(r@, 0, (x as int, y as int)),
    {
        let mut r: Vec<Coord> = Vec::new();
        r.push(Coord { x: x - 1, y: y - 1 });
        r.push(Coord { x, y: y - 1 });
        r.push(Coord { x: x + 1, y: y - 1 });
        r.push(Coord { x: x - 1, y });
        r.push(Coord { x: x + 1, y });
        r.push(Coord { x: x - 1, y: y + 1 });
        r.push(Coord { x, y: y + 1 });
        r.push(Coord { x: x + 1, y: y + 1 });
        r
    }

    /// How many of the 8 neighbors of `(x, y)` are alive in `v`.
    fn count_live_neighbors(v: &Vec<Coord>, x: i64, y: i64) -> (r: u8)
        requires
            i64::MIN < x < i64::MAX,
            i64::MIN < y < i64::MAX,
        ensures
            r as int == live_neighbor_count(coords_of(v@), (x as int, y as int)),
    {
        let mut n: u8 = 0;
        if Self::contains_cell(v, x - 1, y - 1) {
            n += 1;
        }
        if Self::contains_cell(v, x, y - 1) {
            n += 1;
        }
        if Self::contains_cell(v, x + 1, y - 1) {
            n += 1;
        }
        if Self::contains_cell(v, x - 1, y) {
            n += 1;
        }
        if Self::contains_cell(v, x + 1, y) {
            n += 1;
        }
        if Self::contains_cell(v, x - 1, y + 1) {
            n += 1;
        }
        if Self::contains_cell(v, x, y + 1) {
            n += 1;
        }
        if Self::contains_cell(v, x + 1, y + 1) {
            n += 1;
        }
        n
    }

    /// An element-for-element copy of a cell store.
    #[verifier::loop_isolation(false)]
    fn copy_cells(v: &Vec<Coord>) -> (r: Vec<Coord>)
        ensures
            r@ == v@,
    {
        let mut r: Vec<Coord> = Vec::new();
        let mut i: usize = 0;
        while i < v.len()
            invariant
                i <= v@.len(),
                r@ == v@.take(i as int),
            decreases v@.len() - i,
        {
            let c = v[i];
            r.push(c);
            proof {
                assert(v@.take(i as int).push(v@[i as int]) =~= v@.take((i + 1) as int));
            }
            i += 1;
        }
        proof {
            assert(v@.take(v@.len() as int) =~= v@);
        }
        r
    }

    /// Captures the current board into the history, evicting the oldest
    /// snapshot first when the buffer is at capacity.
    fn snapshot(&mut self)
        requires
            old(self).wf(),
        ensures
            final(self).wf(),
            final(self).cells@ == old(self).cells@,
            final(self).history() == push_capped(old(self).history(), old(self)@),
    {
        if self.history.len() == HISTORY_LIMIT {
            proof {
                self.history@.remove_ensures(0);
            }
            self.history.remove(0);
        }
        let snap = Self::copy_cells(&self.cells);
        self.history.push(snap);
        proof {
            assert(self.history() =~= push_capped(old(self).history(), old(self)@));
        }
    }

    /// Advances the simulation one generation in place, after capturing the
    /// pre-tick board into the history. Only the union of the live cells'
    /// neighborhoods is examined: every other cell has no live neighbor and
    /// stays dead, so the unbounded grid never has to be scanned.
    #[verifier::loop_isolation(false)]
    pub fn tick(&mut self)
        requires
            old(self).wf(),
            in_range(old(self)@),
        ensures
            final(self).wf(),
            final(self)@ == step(old(self)@),
            final(self).history() == push_capped(old(self).history(), old(self)@),
    {
        self.snapshot();
        let ghost g0: Set<(int, int)> = self@;
        let ghost cells0: Seq<Coord> = self.cells@;
        proof {
            assert(in_range(g0));
        }
        // The candidate frontier: all neighbors of live cells.
        let mut cands: Vec<Coord> = Vec::new();
        let mut i: usize = 0;
        while i < self.cells.len()
            invariant
                i <= cells0.len(),
                cands@.len() == 8 * i,
                forall|k: int|
                    0 <= k < i ==> neighbors_at(cands@, 8 * k, coord_pair(cells0[k])),
                forall|t: int|
                    0 <= t < cands@.len() ==> coord_near_range(coord_pair(#[trigger] cands@[t])),
            decreases cells0.len() - i,
        {
            let c = self.cells[i];
            proof {
                assert(coord_pair(cells0[i as int]) == coord_pair(c));
                assert(g0.contains(coord_pair(c)));
                assert(coord_in_range(coord_pair(c)));
            }
            let ghost before = cands@;
            let mut ns = Self::get_neighbors(c.x, c.y);
            let ghost ns0 = ns@;
            cands.append(&mut ns);
            proof {
                assert forall|k: int| 0 <= k < i + 1 implies neighbors_at(
                    cands@,
                    8 * k,
                    coord_pair(cells0[k]),
                ) by {
                    if k < i {
                        assert(neighbors_at(before, 8 * k, coord_pair(cells0[k])));
                        assert forall|d: int| 0 <= d < 8 implies #[trigger] cands@[8 * k + d]
                            == before[8 * k + d] by {
                            assert(8 * k + 8 <= 8 * i);
                        }
                    } else {
                        assert forall|d: int| 0 <= d < 8 implies #[trigger] cands@[8 * k + d]
                            == ns0[d] by {
                            assert(8 * k + d - before.len() == d);
                        }
                    }
                }
                assert forall|t: int| 0 <= t < cands@.len() implies coord_near_range(
                    coord_pair(#[trigger] cands@[t]),
                ) by {
                    if t < before.len() {
                        assert(cands@[t] == before[t]);
                    } else {
                        let d = t - before.len();
                        assert(cands@[t] == ns0[d]);
                        assert(neighbors_at(ns0, 0, coord_pair(c)));
                        if d == 0 {
                            assert(coord_pair(ns0[0]) == (coord_pair(c).0 - 1, coord_pair(c).1 - 1));
                        } else if d == 1 {
                            assert(coord_pair(ns0[1]) == (coord_pair(c).0, coord_pair(c).1 - 1));
                        } else if d == 2 {
                            assert(coord_pair(ns0[2]) == (coord_pair(c).0 + 1, coord_pair(c).1 - 1));
                        } else if d == 3 {
                            assert(coord_pair(ns0[3]) == (coord_pair(c).0 - 1, coord_pair(c).1));
                        } else if d == 4 {
                            assert(coord_pair(ns0[4]) == (coord_pair(c).0 + 1, coord_pair(c).1));
                        } else if d == 5 {
                            assert(coord_pair(ns0[5]) == (coord_pair(c).0 - 1, coord_pair(c).1 + 1));
                        } else if d == 6 {
                            assert(coord_pair(ns0[6]) == (coord_pair(c).0, coord_pair(c).1 + 1));
                        } else {
                            assert(coord_pair(ns0[7]) == (coord_pair(c).0 + 1, coord_pair(c).1 + 1));
                        }
                    }
                }
            }
            i += 1;
        }
        // Keep each candidate that the rules make alive in the next
        // generation, counting its neighbors in the pre-tick board.
        let mut next: Vec<Coord> = Vec::new();
        let mut j: usize = 0;
        while j < cands.len()
            invariant
                j <= cands@.len(),
                next@.no_duplicates(),
                forall|q: (int, int)| coords_of(next@).contains(q) ==> next_alive(g0, q),
                forall|k: int|
                    0 <= k < j && next_alive(g0, coord_pair(#[trigger] cands@[k])) ==> coords_of(
                        next@,
                    ).contains(coord_pair(cands@[k])),
            decreases cands@.len() - j,
        {
            let p = cands[j];
            let cnt = Self::count_live_neighbors(&self.cells, p.x, p.y);
            let alive = Self::contains_cell(&self.cells, p.x, p.y);
            let lives = if alive {
                cnt == 2 || cnt == 3
            } else {
                cnt == 3
            };
            proof {
                assert(coord_pair(cands@[j as int]) == coord_pair(p));
                assert(lives == next_alive(g0, coord_pair(p)));
            }
            if lives && !Self::contains_cell(&next, p.x, p.y) {
                proof {
                    assert(!seq_has_coord(next@, coord_pair(p)));
                    lemma_coords_push(next@, p);
                }
                next.push(p);
            }
            j += 1;
        }
        proof {
            reveal(crate::rules::step);
            assert forall|p: (int, int)| step(g0).contains(p) implies coords_of(next@).contains(
                p,
            ) by {
                crate::rules::lemma_next_alive_has_live_neighbor(g0, p);
                let l = choose|l: (int, int)| g0.contains(l) && is_neighbor(l, p);
                let k = choose|k: int| 0 <= k < cells0.len() && coord_pair(#[trigger] cells0[k]) == l;
                lemma_neighbors_at_covers(cands@, 8 * k, l, p);
                let jj = choose|jj: int|
                    0 <= jj < cands@.len() && coord_pair(#[trigger] cands@[jj]) == p;
                assert(next_alive(g0, coord_pair(cands@[jj])));
            }
            assert(coords_of(next@) =~= step(g0));
        }
        self.cells = next;
    }

    /// The undo history never holds more than its capacity of snapshots,
    /// however many ticks have run: consecutive undos can succeed at most
    /// 255 times before `can_undo` turns false.
    pub proof fn lemma_history_bounded(&self)
        requires
            self.wf(),
        ensures
            self.history().len() <= HISTORY_LIMIT,
    {
    }

    /// Returns whether there is a buffered state to revert to.
    pub fn can_undo(&self) -> (r: bool)
        ensures
            r == (self.history().len() > 0),
    {
        self.history.len() > 0
    }

    /// Restores the most recent snapshot, returning true if one existed;
    /// on an empty history the board is left untouched and false returned.
    pub fn undo(&mut self) -> (r: bool)
        requires
            old(self).wf(),
        ensures
            final(self).wf(),
            r == (old(self).history().len() > 0),
            r ==> final(self)@ == old(self).history().last() && final(self).history() == old(
                self,
            ).history().drop_last(),
            !r ==> final(self)@ == old(self)@ && final(self).history() == old(self).history(),
    {
        let prev = self.history.pop();
        match prev {
            Some(cells) => {
                self.cells = cells;
                proof {
                    assert(self.history() =~= old(self).history().drop_last());
                }
                true
            },
            None => false,
        }
    }
}

impl Clone for GameOfLife {
    /// A deep copy: the clone has the same live cells and the same history.
    fn clone(&self) -> (r: Self)
        ensures
            r@ == self@,
            r.history() == self.history(),
            self.wf() ==> r.wf(),
    {
        let cells = Self::copy_cells(&self.cells);
        let mut history: Vec<Vec<Coord>> = Vec::new();
        let mut i: usize = 0;
        while i < self.history.len()
            invariant
                i <= self.history@.len(),
                history@.len() == i,
                forall|k: int| 0 <= k < i ==> #[trigger] history@[k]@ == self.history@[k]@,
            decreases self.history@.len() - i,
        {
            let snap = Self::copy_cells(&self.history[i]);
            history.push(snap);
            i += 1;
        }
        let r = GameOfLife { cells, history };
        proof {
            assert(r.history() =~= self.history());
        }
        r
    }
}

impl PartialEq for GameOfLife {
    /// Boards compare equal exactly when their live-cell sets are equal;
    /// their histories play no part.
    fn eq(&self, other: &GameOfLife) -> (r: bool) {
        self.same_state(other)
    }
}

impl vstd::std_specs::cmp::PartialEqSpecImpl for GameOfLife {
    open spec fn obeys_eq_spec() -> bool {
        true
    }

    open spec fn eq_spec(&self, other: &GameOfLife) -> bool {
        self@ == other@
    }
}

/// Appending a cell to the store adds exactly its coordinates to the denoted
/// set, and keeps the store duplicate-free when the cell was not yet there.
proof fn lemma_coords_push(s: Seq<Coord>, c: Coord)
    ensures
        coords_of(s.push(c)) =~= coords_of(s).insert(coord_pair(c)),
        s.no_duplicates() && !seq_has_coord(s, coord_pair(c)) ==> s.push(c).no_duplicates(),
{
    assert forall|p: (int, int)| coords_of(s.push(c)).contains(p) implies coords_of(s).insert(
        coord_pair(c),
    ).contains(p) by {
        let i = choose|i: int| 0 <= i < s.push(c).len() && coord_pair(#[trigger] s.push(c)[i]) == p;
        if i < s.len() {
            assert(coord_pair(s[i]) == p);
        }
    }
    assert forall|p: (int, int)| coords_of(s).insert(coord_pair(c)).contains(p) implies coords_of(
        s.push(c),
    ).contains(p) by {
        if p == coord_pair(c) {
            assert(coord_pair(s.push(c)[s.len() as int]) == p);
        } else {
            let i = choose|i: int| 0 <= i < s.len() && coord_pair(#[trigger] s[i]) == p;
            assert(coord_pair(s.push(c)[i]) == p);
        }
    }
    if s.no_duplicates() && !seq_has_coord(s, coord_pair(c)) {
        assert forall|i: int, j: int|
            0 <= i < s.push(c).len() && 0 <= j < s.push(c).len() && i != j implies s.push(c)[i]
            != s.push(c)[j] by {
            if i < s.len() && j < s.len() {
                assert(s[i] == s.push(c)[i] && s[j] == s.push(c)[j]);
            } else if i < s.len() {
                assert(coord_pair(s[i]) != coord_pair(c));
            } else {
                assert(coord_pair(s[j]) != coord_pair(c));
            }
        }
    }
}

/// Removing the only store entry at some coordinates removes exactly those
/// coordinates from the denoted set, and keeps the store duplicate-free.
proof fn lemma_coords_remove_at(s: Seq<Coord>, i: int)
    requires
        0 <= i < s.len(),
        s.no_duplicates(),
    ensures
        coords_of(s.remove(i)) =~= coords_of(s).remove(coord_pair(s[i])),
        s.remove(i).no_duplicates(),
{
    s.remove_ensures(i);
    let r = s.remove(i);
    assert forall|p: (int, int)| coords_of(r).contains(p) implies coords_of(s).remove(
        coord_pair(s[i]),
    ).contains(p) by {
        let k = choose|k: int| 0 <= k < r.len() && coord_pair(#[trigger] r[k]) == p;
        if k < i {
            assert(r[k] == s[k]);
            assert(coord_pair(s[k]) == p);
            assert(s[k] != s[i]);
        } else {
            assert(r[k] == s[k + 1]);
            assert(coord_pair(s[k + 1]) == p);
            assert(s[k + 1] != s[i]);
        }
    }
    assert forall|p: (int, int)| coords_of(s).remove(coord_pair(s[i])).contains(p) implies coords_of(
        r,
    ).contains(p) by {
        let k = choose|k: int| 0 <= k < s.len() && coord_pair(#[trigger] s[k]) == p;
        assert(k != i);
        if k < i {
            assert(coord_pair(r[k]) == p);
        } else {
            assert(coord_pair(r[k - 1]) == p);
        }
    }
    assert forall|a: int, b: int| 0 <= a < r.len() && 0 <= b < r.len() && a != b implies r[a]
        != r[b] by {
        let a0 = if a < i {
            a
        } else {
            a + 1
        };
        let b0 = if b < i {
            b
        } else {
            b + 1
        };
        assert(r[a] == s[a0] && r[b] == s[b0]);
    }
}

} // verus!
